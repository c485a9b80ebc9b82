//! What a name of a property table resolves to.

use vstd::prelude::*;

verus! {

/// A resolved property: a slot, a method, or an accessor pair.
#[derive(Clone, Copy, Debug, PartialEq, Eq, Structural)]
pub enum Property {
    /// A slot that can be read and written.
    Slot { slot_id: u32 },
    /// A slot that is written once.
    ConstSlot { slot_id: u32 },
    /// An entry of the dispatch table.
    Method { disp_id: u32 },
    /// A getter, a setter, or both, each an entry of the dispatch table.
    Virtual { get: Option<u32>, set: Option<u32> },
}

impl Property {
    /// An accessor with a getter only.
    pub fn new_getter(disp_id: u32) -> (r: Property)
        ensures
            r == (Property::Virtual { get: Some(disp_id), set: None }),
    {
        Property::Virtual { get: Some(disp_id), set: None }
    }

    /// An accessor with a setter only.
    pub fn new_setter(disp_id: u32) -> (r: Property)
        ensures
            r == (Property::Virtual { get: None, set: Some(disp_id) }),
    {
        Property::Virtual { get: None, set: Some(disp_id) }
    }
}

} // verus!
