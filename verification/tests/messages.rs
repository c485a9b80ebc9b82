use avm_core::class::Class;
use avm_core::class_object::ClassObject;
use avm_core::error::Error;
use avm_core::error::ErrorKind;
use avm_core::method::Method;
use avm_core::method::NativeMethod;
use avm_core::namespace::Namespace;
use avm_core::property::Property;
use avm_core::qname::QName;
use avm_core::runtime::Runtime;

fn runtime_with_class() -> (Runtime, ClassObject, usize) {
    let mut rt = Runtime::new();
    let pkg = rt.interner.intern("flash.geom");
    let point = rt.interner.intern("Point");
    let init = Method::Native(NativeMethod { id: 1, name: 0, signature_len: 0, is_variadic: false });
    let id = rt.add_definition(Class::new(QName::new(Namespace::package(pkg), point), None, init, init));
    let scope = rt.create_scopechain(Vec::new());
    let class = ClassObject::from_class_partial(&mut rt, id, None, scope).unwrap();
    let x = rt.interner.intern("x");
    (rt, class, x)
}

#[test]
fn catalogued_errors_carry_their_number() {
    let (rt, class, x) = runtime_with_class();
    let cases = [
        (
            Error::InvalidRead { name: Some(x), class: Some(class) },
            1069,
            "Error #1069: Property x not found on flash.geom.Point and there is no default value.",
        ),
        (
            Error::InvalidWrite { name: Some(x), class: None },
            1056,
            "Error #1056: Cannot create property x on null.",
        ),
        (
            Error::WriteOnly { name: Some(x), class: Some(class) },
            1077,
            "Error #1077: Illegal read of write-only property x on flash.geom.Point.",
        ),
        (
            Error::ReadOnly { name: Some(x), class: Some(class) },
            1074,
            "Error #1074: Illegal write to read-only property x on flash.geom.Point.",
        ),
        (
            Error::AssignToMethod { name: None, class: Some(class) },
            1037,
            "Error #1037: Cannot assign to a method * on flash.geom.Point.",
        ),
        (
            Error::MethodNotFound { name: Some(x), class },
            1070,
            "Error #1070: Method x not found on flash.geom.Point",
        ),
        (
            Error::ClassCoercionArity { given: 3 },
            1112,
            "Error #1112: Argument count mismatch on class coercion.  Expected 1, got 3.",
        ),
        (
            Error::NotGeneric,
            1127,
            "Error #1127: Type application attempted on a non-parameterized type.",
        ),
        (
            Error::TypeParameterCount { class, given: 0 },
            1128,
            "Error #1128: Incorrect number of type parameters for flash.geom.Point. Expected 1, got 0.",
        ),
        (
            Error::NotSufficientlyLoaded,
            2099,
            "Error #2099: The loading object is not sufficiently loaded to provide this information.",
        ),
    ];
    for (error, code, message) in cases {
        assert_eq!(error.code(), Some(code));
        assert_eq!(error.message(&rt), message);
    }
}

#[test]
fn other_errors_say_what_failed() {
    let (rt, _, x) = runtime_with_class();
    let cases = [
        (Error::SlotOutOfBounds { id: 12 }, ErrorKind::Error, "Slot index 12 out of bounds!"),
        (
            Error::SuperNotFound { name: Some(x) },
            ErrorKind::ReferenceError,
            "Attempted to supercall method x, which does not exist",
        ),
        (
            Error::NotAGetter { name: Some(x) },
            ErrorKind::ReferenceError,
            "Attempting to use get_super on non-getter property x",
        ),
        (
            Error::UnexpectedSuperProperty { property: Property::Method { disp_id: 0 } },
            ErrorKind::Error,
            "set_super resolved to unexpected property",
        ),
        (
            Error::BaseClassFinal { name: x },
            ErrorKind::VerifyError,
            "Base class x is final and cannot be extended",
        ),
        (
            Error::BaseClassInterface { name: x },
            ErrorKind::VerifyError,
            "Base class x is an interface and cannot be extended",
        ),
        (
            Error::NotAnInterface { name: x },
            ErrorKind::VerifyError,
            "Class x is not an interface and cannot be implemented by classes",
        ),
        (Error::UnresolvedClass { name: Some(x) }, ErrorKind::Error, "Could not resolve class x"),
        (Error::TooManyTraits, ErrorKind::Error, "Class has more traits than can be addressed"),
        (
            Error::TooManyArguments { method: x, given: 3, allowed: 2 },
            ErrorKind::ArgumentError,
            "Attempted to call x with 3 arguments (more than 2 is prohibited)",
        ),
        (Error::ReceiverNotAnObject, ErrorKind::Error, "No receiver for function call"),
        (
            Error::NonClassTypeParameter,
            ErrorKind::TypeError,
            "Cannot apply class with non-class parameter",
        ),
        (Error::ClassesCannotBeConstructed, ErrorKind::Error, "Classes cannot be constructed."),
        (
            Error::TraitNameIndexZero,
            ErrorKind::Error,
            "Attempted to load a trait name of index zero",
        ),
        (Error::UnknownMultiname { index: 40 }, ErrorKind::Error, "Unknown multiname constant 40"),
        (
            Error::NotAQName,
            ErrorKind::Error,
            "Attempted to pull QName from non-QName multiname",
        ),
    ];
    for (error, kind, message) in cases {
        assert_eq!(error.code(), None);
        assert_eq!(error.kind(), kind);
        assert_eq!(error.message(&rt), message);
    }
    assert_eq!(
        Error::MethodNotFound { name: Some(x), class: ClassObject(99) }.message(&rt),
        "Error #1070: Method x not found on null"
    );
}
