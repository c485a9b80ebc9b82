//! The messages of the runtime's failures.

use vstd::prelude::*;
use vstd::string::StringExecFns;
use crate::class_object::ClassObject;
use crate::error::Error;
use crate::runtime::Runtime;
use crate::strings::decimal;
use crate::strings::to_decimal;
use crate::value::Atom;

verus! {

fn join2(a: &str, b: &str) -> (r: String)
    ensures
        r@ == a@ + b@,
{
    let mut r = String::from_str(a);
    r.append(b);
    r
}

fn join3(a: &str, b: &str, c: &str) -> (r: String)
    ensures
        r@ == a@ + b@ + c@,
{
    let mut r = join2(a, b);
    r.append(c);
    r
}

fn join4(a: &str, b: &str, c: &str, d: &str) -> (r: String)
    ensures
        r@ == a@ + b@ + c@ + d@,
{
    let mut r = join3(a, b, c);
    r.append(d);
    r
}

fn join5(a: &str, b: &str, c: &str, d: &str, e: &str) -> (r: String)
    ensures
        r@ == a@ + b@ + c@ + d@ + e@,
{
    let mut r = join3(a, b, c);
    r.append(d);
    r.append(e);
    r
}

fn join7(a: &str, b: &str, c: &str, d: &str, e: &str, f: &str, g: &str) -> (r: String)
    ensures
        r@ == a@ + b@ + c@ + d@ + e@ + f@ + g@,
{
    let mut r = join5(a, b, c, d, e);
    r.append(f);
    r.append(g);
    r
}

/// A local name in a message; `*` for a name without one.
pub open spec fn name_text(rt: &Runtime, name: Option<Atom>) -> Seq<char> {
    match name {
        Some(a) => rt.interner.text_of(a),
        None => "*"@,
    }
}

/// The name of a class in a message; `null` without a class.
pub open spec fn class_text(rt: &Runtime, class: Option<ClassObject>) -> Seq<char> {
    match class {
        Some(c) => if c.0 < rt.classes@.len() && rt.classes@[c.0 as int].class < rt.definitions@.len() {
            rt.definition_of(c).name.error_text(&rt.interner)
        } else {
            "null"@
        },
        None => "null"@,
    }
}

fn name_string(rt: &Runtime, name: Option<Atom>) -> (r: String)
    ensures
        r@ == name_text(rt, name),
{
    match name {
        Some(a) => String::from_str(rt.interner.resolve(a)),
        None => String::from_str("*"),
    }
}

fn class_string(rt: &Runtime, class: Option<ClassObject>) -> (r: String)
    ensures
        r@ == class_text(rt, class),
{
    match class {
        Some(c) => {
            if c.0 < rt.classes.len() && rt.classes[c.0].class < rt.definitions.len() {
                rt.definitions[rt.classes[c.0].class].name.to_error_string(&rt.interner)
            } else {
                String::from_str("null")
            }
        },
        None => String::from_str("null"),
    }
}

impl Error {
    /// The message of the error. An error of the catalog of the target
    /// runtime starts with `Error #`, its number and a colon.
    pub open spec fn message_text(&self, rt: &Runtime) -> Seq<char> {
        match *self {
            Error::InvalidRead { name, class } => "Error #1069: Property "@ + name_text(rt, name)
                + " not found on "@ + class_text(rt, class) + " and there is no default value."@,
            Error::InvalidWrite { name, class } => "Error #1056: Cannot create property "@
                + name_text(rt, name) + " on "@ + class_text(rt, class) + "."@,
            Error::WriteOnly { name, class } => "Error #1077: Illegal read of write-only property "@
                + name_text(rt, name) + " on "@ + class_text(rt, class) + "."@,
            Error::ReadOnly { name, class } => "Error #1074: Illegal write to read-only property "@
                + name_text(rt, name) + " on "@ + class_text(rt, class) + "."@,
            Error::AssignToMethod { name, class } => "Error #1037: Cannot assign to a method "@
                + name_text(rt, name) + " on "@ + class_text(rt, class) + "."@,
            Error::SlotOutOfBounds { id } => "Slot index "@ + decimal(id as nat) + " out of bounds!"@,
            Error::MethodNotFound { name, class } => "Error #1070: Method "@ + name_text(rt, name)
                + " not found on "@ + class_text(rt, Some(class)),
            Error::SuperNotFound { name } => "Attempted to supercall method "@ + name_text(rt, name)
                + ", which does not exist"@,
            Error::NotAGetter { name } => "Attempting to use get_super on non-getter property "@
                + name_text(rt, name),
            Error::UnexpectedSuperProperty { property } => "set_super resolved to unexpected property"@,
            Error::BaseClassFinal { name } => "Base class "@ + rt.interner.text_of(name)
                + " is final and cannot be extended"@,
            Error::BaseClassInterface { name } => "Base class "@ + rt.interner.text_of(name)
                + " is an interface and cannot be extended"@,
            Error::NotAnInterface { name } => "Class "@ + rt.interner.text_of(name)
                + " is not an interface and cannot be implemented by classes"@,
            Error::UnresolvedClass { name } => "Could not resolve class "@ + name_text(rt, name),
            Error::TooManyTraits => "Class has more traits than can be addressed"@,
            Error::TooManyArguments { method, given, allowed } => "Attempted to call "@
                + rt.interner.text_of(method) + " with "@ + decimal(given as nat)
                + " arguments (more than "@ + decimal(allowed as nat) + " is prohibited)"@,
            Error::ReceiverNotAnObject => "No receiver for function call"@,
            Error::ClassCoercionArity { given } => "Error #1112: Argument count mismatch on class coercion.  Expected 1, got "@
                + decimal(given as nat) + "."@,
            Error::NotGeneric => "Error #1127: Type application attempted on a non-parameterized type."@,
            Error::TypeParameterCount { class, given } => "Error #1128: Incorrect number of type parameters for "@
                + class_text(rt, Some(class)) + ". Expected 1, got "@ + decimal(given as nat) + "."@,
            Error::NonClassTypeParameter => "Cannot apply class with non-class parameter"@,
            Error::NotSufficientlyLoaded => "Error #2099: The loading object is not sufficiently loaded to provide this information."@,
            Error::ClassesCannotBeConstructed => "Classes cannot be constructed."@,
            Error::TraitNameIndexZero => "Attempted to load a trait name of index zero"@,
            Error::UnknownMultiname { index } => "Unknown multiname constant "@ + decimal(
                index as nat,
            ),
            Error::NotAQName => "Attempted to pull QName from non-QName multiname"@,
        }
    }

    /// The message of the error.
    pub fn message(&self, rt: &Runtime) -> (r: String)
        ensures
            r@ == self.message_text(rt),
    {
        match *self {
            Error::InvalidRead { name, class } => join5(
                "Error #1069: Property ",
                name_string(rt, name).as_str(),
                " not found on ",
                class_string(rt, class).as_str(),
                " and there is no default value.",
            ),
            Error::InvalidWrite { name, class } => join5(
                "Error #1056: Cannot create property ",
                name_string(rt, name).as_str(),
                " on ",
                class_string(rt, class).as_str(),
                ".",
            ),
            Error::WriteOnly { name, class } => join5(
                "Error #1077: Illegal read of write-only property ",
                name_string(rt, name).as_str(),
                " on ",
                class_string(rt, class).as_str(),
                ".",
            ),
            Error::ReadOnly { name, class } => join5(
                "Error #1074: Illegal write to read-only property ",
                name_string(rt, name).as_str(),
                " on ",
                class_string(rt, class).as_str(),
                ".",
            ),
            Error::AssignToMethod { name, class } => join5(
                "Error #1037: Cannot assign to a method ",
                name_string(rt, name).as_str(),
                " on ",
                class_string(rt, class).as_str(),
                ".",
            ),
            Error::SlotOutOfBounds { id } => join3(
                "Slot index ",
                to_decimal(id as u64).as_str(),
                " out of bounds!",
            ),
            Error::MethodNotFound { name, class } => join4(
                "Error #1070: Method ",
                name_string(rt, name).as_str(),
                " not found on ",
                class_string(rt, Some(class)).as_str(),
            ),
            Error::SuperNotFound { name } => join3(
                "Attempted to supercall method ",
                name_string(rt, name).as_str(),
                ", which does not exist",
            ),
            Error::NotAGetter { name } => join2(
                "Attempting to use get_super on non-getter property ",
                name_string(rt, name).as_str(),
            ),
            Error::UnexpectedSuperProperty { property } => String::from_str(
                "set_super resolved to unexpected property",
            ),
            Error::BaseClassFinal { name } => join3(
                "Base class ",
                rt.interner.resolve(name),
                " is final and cannot be extended",
            ),
            Error::BaseClassInterface { name } => join3(
                "Base class ",
                rt.interner.resolve(name),
                " is an interface and cannot be extended",
            ),
            Error::NotAnInterface { name } => join3(
                "Class ",
                rt.interner.resolve(name),
                " is not an interface and cannot be implemented by classes",
            ),
            Error::UnresolvedClass { name } => join2(
                "Could not resolve class ",
                name_string(rt, name).as_str(),
            ),
            Error::TooManyTraits => String::from_str("Class has more traits than can be addressed"),
            Error::TooManyArguments { method, given, allowed } => join7(
                "Attempted to call ",
                rt.interner.resolve(method),
                " with ",
                to_decimal(given as u64).as_str(),
                " arguments (more than ",
                to_decimal(allowed as u64).as_str(),
                " is prohibited)",
            ),
            Error::ReceiverNotAnObject => String::from_str("No receiver for function call"),
            Error::ClassCoercionArity { given } => join3(
                "Error #1112: Argument count mismatch on class coercion.  Expected 1, got ",
                to_decimal(given as u64).as_str(),
                ".",
            ),
            Error::NotGeneric => String::from_str(
                "Error #1127: Type application attempted on a non-parameterized type.",
            ),
            Error::TypeParameterCount { class, given } => join5(
                "Error #1128: Incorrect number of type parameters for ",
                class_string(rt, Some(class)).as_str(),
                ". Expected 1, got ",
                to_decimal(given as u64).as_str(),
                ".",
            ),
            Error::NonClassTypeParameter => String::from_str(
                "Cannot apply class with non-class parameter",
            ),
            Error::NotSufficientlyLoaded => String::from_str(
                "Error #2099: The loading object is not sufficiently loaded to provide this information.",
            ),
            Error::ClassesCannotBeConstructed => String::from_str("Classes cannot be constructed."),
            Error::TraitNameIndexZero => String::from_str(
                "Attempted to load a trait name of index zero",
            ),
            Error::UnknownMultiname { index } => join2(
                "Unknown multiname constant ",
                to_decimal(index as u64).as_str(),
            ),
            Error::NotAQName => String::from_str("Attempted to pull QName from non-QName multiname"),
        }
    }
}

} // verus!
