//! Captured lexical scopes.

use vstd::prelude::*;

verus! {

/// A handle to a captured scope chain of the runtime.
#[derive(Clone, Copy, Debug, PartialEq, Eq, Structural)]
pub struct ScopeChain(pub usize);

} // verus!
