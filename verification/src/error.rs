//! The failures of the runtime. Each names what went wrong; the interpreter
//! turns it into a script-visible exception.

use vstd::prelude::*;
use crate::class_object::ClassObject;
use crate::property::Property;
use crate::value::Atom;

verus! {

/// The script-visible class of an error.
#[derive(Clone, Copy, Debug, PartialEq, Eq, Structural)]
pub enum ErrorKind {
    ReferenceError,
    ArgumentError,
    TypeError,
    VerifyError,
    /// A failure of construction or linking that has no class of its own.
    Error,
}

/// A failure of the runtime.
#[allow(inconsistent_fields)]
#[derive(Clone, Copy, Debug, PartialEq, Eq, Structural)]
pub enum Error {
    /// A property was read that cannot be resolved.
    InvalidRead { name: Option<Atom>, class: Option<ClassObject> },
    /// A property was written that cannot be created.
    InvalidWrite { name: Option<Atom>, class: Option<ClassObject> },
    /// An accessor without a getter was read.
    WriteOnly { name: Option<Atom>, class: Option<ClassObject> },
    /// A constant, or an accessor without a setter, was written.
    ReadOnly { name: Option<Atom>, class: Option<ClassObject> },
    /// A method was written.
    AssignToMethod { name: Option<Atom>, class: Option<ClassObject> },
    /// A slot id beyond the slots of the object.
    SlotOutOfBounds { id: u32 },
    /// A supercall of a name that the class does not have.
    MethodNotFound { name: Option<Atom>, class: ClassObject },
    /// A superclass read of a name that the class does not have.
    SuperNotFound { name: Option<Atom> },
    /// A superclass read of an accessor without a getter.
    NotAGetter { name: Option<Atom> },
    /// A superclass write that resolved to something that cannot be written.
    UnexpectedSuperProperty { property: Property },
    /// The base class is final.
    BaseClassFinal { name: Atom },
    /// The base class is an interface.
    BaseClassInterface { name: Atom },
    /// A class names as an interface a class that is none.
    NotAnInterface { name: Atom },
    /// No class of this name is defined.
    UnresolvedClass { name: Option<Atom> },
    /// A class has more slots or methods than ids can address.
    TooManyTraits,
    /// A native method was called with more arguments than it declares.
    TooManyArguments { method: Atom, given: usize, allowed: usize },
    /// The caller's receiver could not be made an object.
    ReceiverNotAnObject,
    /// A class was called as a function with other than one argument.
    ClassCoercionArity { given: usize },
    /// Type parameters were applied to a class that is not generic.
    NotGeneric,
    /// Other than one type parameter was applied.
    TypeParameterCount { class: ClassObject, given: usize },
    /// A type parameter that is no class.
    NonClassTypeParameter,
    /// The loading object cannot give this information yet.
    NotSufficientlyLoaded,
    /// The class of classes cannot be instantiated.
    ClassesCannotBeConstructed,
    /// A trait name with the index zero.
    TraitNameIndexZero,
    /// A multiname index beyond the constant pool.
    UnknownMultiname { index: u32 },
    /// A multiname that is no qualified name where one is needed.
    NotAQName,
}

impl Error {
    pub open spec fn spec_kind(&self) -> ErrorKind {
        match *self {
            Error::InvalidRead { .. } => ErrorKind::ReferenceError,
            Error::InvalidWrite { .. } => ErrorKind::ReferenceError,
            Error::WriteOnly { .. } => ErrorKind::ReferenceError,
            Error::ReadOnly { .. } => ErrorKind::ReferenceError,
            Error::AssignToMethod { .. } => ErrorKind::ReferenceError,
            Error::MethodNotFound { .. } => ErrorKind::ReferenceError,
            Error::SuperNotFound { .. } => ErrorKind::ReferenceError,
            Error::NotAGetter { .. } => ErrorKind::ReferenceError,
            Error::TooManyArguments { .. } => ErrorKind::ArgumentError,
            Error::TypeParameterCount { .. } => ErrorKind::ArgumentError,
            Error::ClassCoercionArity { .. } => ErrorKind::TypeError,
            Error::NotGeneric => ErrorKind::TypeError,
            Error::NonClassTypeParameter => ErrorKind::TypeError,
            Error::BaseClassFinal { .. } => ErrorKind::VerifyError,
            Error::BaseClassInterface { .. } => ErrorKind::VerifyError,
            Error::NotAnInterface { .. } => ErrorKind::VerifyError,
            _ => ErrorKind::Error,
        }
    }

    pub open spec fn spec_code(&self) -> Option<u32> {
        match *self {
            Error::InvalidRead { .. } => Some(1069u32),
            Error::InvalidWrite { .. } => Some(1056u32),
            Error::WriteOnly { .. } => Some(1077u32),
            Error::ReadOnly { .. } => Some(1074u32),
            Error::AssignToMethod { .. } => Some(1037u32),
            Error::MethodNotFound { .. } => Some(1070u32),
            Error::ClassCoercionArity { .. } => Some(1112u32),
            Error::NotGeneric => Some(1127u32),
            Error::TypeParameterCount { .. } => Some(1128u32),
            Error::NotSufficientlyLoaded => Some(2099u32),
            _ => None,
        }
    }

    /// The script-visible class of this error.
    #[verifier::when_used_as_spec(spec_kind)]
    pub fn kind(&self) -> (r: ErrorKind)
        ensures
            r == self.spec_kind(),
    {
        match *self {
            Error::InvalidRead { .. } => ErrorKind::ReferenceError,
            Error::InvalidWrite { .. } => ErrorKind::ReferenceError,
            Error::WriteOnly { .. } => ErrorKind::ReferenceError,
            Error::ReadOnly { .. } => ErrorKind::ReferenceError,
            Error::AssignToMethod { .. } => ErrorKind::ReferenceError,
            Error::MethodNotFound { .. } => ErrorKind::ReferenceError,
            Error::SuperNotFound { .. } => ErrorKind::ReferenceError,
            Error::NotAGetter { .. } => ErrorKind::ReferenceError,
            Error::TooManyArguments { .. } => ErrorKind::ArgumentError,
            Error::TypeParameterCount { .. } => ErrorKind::ArgumentError,
            Error::ClassCoercionArity { .. } => ErrorKind::TypeError,
            Error::NotGeneric => ErrorKind::TypeError,
            Error::NonClassTypeParameter => ErrorKind::TypeError,
            Error::BaseClassFinal { .. } => ErrorKind::VerifyError,
            Error::BaseClassInterface { .. } => ErrorKind::VerifyError,
            Error::NotAnInterface { .. } => ErrorKind::VerifyError,
            _ => ErrorKind::Error,
        }
    }

    /// The number of this error in the catalog of the target runtime, where
    /// it has one.
    #[verifier::when_used_as_spec(spec_code)]
    pub fn code(&self) -> (r: Option<u32>)
        ensures
            r == self.spec_code(),
    {
        match *self {
            Error::InvalidRead { .. } => Some(1069),
            Error::InvalidWrite { .. } => Some(1056),
            Error::WriteOnly { .. } => Some(1077),
            Error::ReadOnly { .. } => Some(1074),
            Error::AssignToMethod { .. } => Some(1037),
            Error::MethodNotFound { .. } => Some(1070),
            Error::ClassCoercionArity { .. } => Some(1112),
            Error::NotGeneric => Some(1127),
            Error::TypeParameterCount { .. } => Some(1128),
            Error::NotSufficientlyLoaded => Some(2099),
            _ => None,
        }
    }
}

} // verus!
