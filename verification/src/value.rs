//! Script-visible values.

use vstd::prelude::*;

verus! {

/// Index of an interned string.
pub type Atom = usize;

/// Index of an object in the runtime's heap.
pub type ObjectId = usize;

/// Index of a property table in the runtime.
pub type VTableId = usize;

/// Index of a class definition in the runtime.
pub type ClassId = usize;

/// A script-visible value.
///
/// Strings and objects are held by handle, so a value is small and copyable.
/// A `Number` carries the bit pattern of a double; this library moves such
/// values around and never computes with them.
#[derive(Clone, Copy, Debug, PartialEq, Eq, Structural)]
pub enum Value {
    Undefined,
    Null,
    Bool(bool),
    Integer(i32),
    Unsigned(u32),
    Number(u64),
    String(Atom),
    Object(ObjectId),
}

} // verus!
