//! Methods: what an executable runs.

use vstd::prelude::*;
use crate::value::Atom;

verus! {

/// A method implemented by the host. `id` identifies the host function.
#[derive(Clone, Copy, Debug, PartialEq, Eq, Structural)]
pub struct NativeMethod {
    pub id: usize,
    pub name: Atom,
    /// The number of declared parameters.
    pub signature_len: usize,
    pub is_variadic: bool,
}

/// A method given as bytecode. `id` identifies the method body, which this
/// library never looks into.
#[derive(Clone, Copy, Debug, PartialEq, Eq, Structural)]
pub struct BytecodeMethod {
    pub id: usize,
    /// The name from debug information; the empty string if there is none.
    pub method_name: Atom,
    /// The number of declared parameters.
    pub signature_len: usize,
    pub is_variadic: bool,
    /// Whether this is a free function rather than a method of a class.
    pub is_function: bool,
    /// The index of the method in its unit.
    pub abc_method: u32,
}

/// A method of either kind.
#[derive(Clone, Copy, Debug, PartialEq, Eq, Structural)]
pub enum Method {
    Native(NativeMethod),
    Bytecode(BytecodeMethod),
}

impl Method {
    /// The bytecode method, if this is one.
    pub fn into_bytecode(self) -> (r: Option<BytecodeMethod>)
        ensures
            r == (match self {
                Method::Bytecode(b) => Some(b),
                Method::Native(_) => None,
            }),
    {
        match self {
            Method::Bytecode(b) => Some(b),
            Method::Native(_) => None,
        }
    }

    /// The number of declared parameters.
    pub fn signature_len(&self) -> (r: usize)
        ensures
            r == (match *self {
                Method::Native(m) => m.signature_len,
                Method::Bytecode(m) => m.signature_len,
            }),
    {
        match *self {
            Method::Native(m) => m.signature_len,
            Method::Bytecode(m) => m.signature_len,
        }
    }
}

} // verus!
