//! Traits: the members that a class declares.

use vstd::prelude::*;
use crate::interner::EMPTY_ATOM;
use crate::method::Method;
use crate::qname::QName;
use crate::value::Value;

verus! {

/// The declared type of a slot, as far as it decides the slot's initial
/// value.
#[derive(Clone, Copy, Debug, PartialEq, Eq, Structural)]
pub enum SlotType {
    Int,
    Uint,
    Number,
    Boolean,
    String,
    /// Any other type, or none.
    Other,
}

impl SlotType {
    /// The value of a slot of this type that has no initializer: zero for a
    /// numeric type, `false`, the empty string, or else `null`.
    pub open spec fn spec_zero_value(&self) -> Value {
        match *self {
            SlotType::Int => Value::Integer(0),
            SlotType::Uint => Value::Unsigned(0),
            SlotType::Number => Value::Number(0),
            SlotType::Boolean => Value::Bool(false),
            SlotType::String => Value::String(EMPTY_ATOM),
            SlotType::Other => Value::Null,
        }
    }

    /// The value of a slot of this type that has no initializer.
    #[verifier::when_used_as_spec(spec_zero_value)]
    pub fn zero_value(&self) -> (r: Value)
        ensures
            r == self.spec_zero_value(),
    {
        match *self {
            SlotType::Int => Value::Integer(0),
            SlotType::Uint => Value::Unsigned(0),
            SlotType::Number => Value::Number(0),
            SlotType::Boolean => Value::Bool(false),
            SlotType::String => Value::String(EMPTY_ATOM),
            SlotType::Other => Value::Null,
        }
    }
}

/// What kind of member a trait declares.
#[derive(Clone, Copy, Debug, PartialEq, Eq, Structural)]
pub enum TraitKind {
    Slot { slot_type: SlotType, default_value: Option<Value> },
    Const { slot_type: SlotType, default_value: Option<Value> },
    Method { method: Method },
    Getter { method: Method },
    Setter { method: Method },
}

/// A member declared by a class: a name and what it names.
#[derive(Clone, Copy, Debug, PartialEq, Eq, Structural)]
pub struct Trait {
    pub name: QName,
    pub kind: TraitKind,
}

impl Trait {
    /// A slot trait.
    pub fn from_slot(name: QName, slot_type: SlotType, default_value: Option<Value>) -> (r: Trait)
        ensures
            r == (Trait { name, kind: TraitKind::Slot { slot_type, default_value } }),
    {
        Trait { name, kind: TraitKind::Slot { slot_type, default_value } }
    }

    /// A constant trait.
    pub fn from_const(name: QName, slot_type: SlotType, default_value: Option<Value>) -> (r: Trait)
        ensures
            r == (Trait { name, kind: TraitKind::Const { slot_type, default_value } }),
    {
        Trait { name, kind: TraitKind::Const { slot_type, default_value } }
    }

    /// A method trait.
    pub fn from_method(name: QName, method: Method) -> (r: Trait)
        ensures
            r == (Trait { name, kind: TraitKind::Method { method } }),
    {
        Trait { name, kind: TraitKind::Method { method } }
    }

    /// A getter trait.
    pub fn from_getter(name: QName, method: Method) -> (r: Trait)
        ensures
            r == (Trait { name, kind: TraitKind::Getter { method } }),
    {
        Trait { name, kind: TraitKind::Getter { method } }
    }

    /// A setter trait.
    pub fn from_setter(name: QName, method: Method) -> (r: Trait)
        ensures
            r == (Trait { name, kind: TraitKind::Setter { method } }),
    {
        Trait { name, kind: TraitKind::Setter { method } }
    }

    /// The trait's name.
    pub fn name(&self) -> (r: QName)
        ensures
            r == self.name,
    {
        self.name
    }

    /// The trait's kind.
    pub fn kind(&self) -> (r: TraitKind)
        ensures
            r == self.kind,
    {
        self.kind
    }

    /// The method of a method, getter or setter trait.
    pub fn as_method(&self) -> (r: Option<Method>)
        ensures
            r == (match self.kind {
                TraitKind::Method { method } => Some(method),
                TraitKind::Getter { method } => Some(method),
                TraitKind::Setter { method } => Some(method),
                _ => None,
            }),
    {
        match self.kind {
            TraitKind::Method { method } => Some(method),
            TraitKind::Getter { method } => Some(method),
            TraitKind::Setter { method } => Some(method),
            _ => None,
        }
    }
}

} // verus!
