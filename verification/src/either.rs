//! A value of one of two types.

use vstd::prelude::*;

verus! {

/// Either a `Left` or a `Right`.
#[derive(Debug)]
pub enum Either<L, R> {
    Left(L),
    Right(R),
}

} // verus!
