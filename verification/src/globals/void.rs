//! The type `void`.

use vstd::prelude::*;
use crate::class::Class;
use crate::error::Error;
use crate::interner::Interner;
use crate::method::Method;
use crate::method::NativeMethod;
use crate::namespace::Namespace;
use crate::qname::QName;
use crate::value::Value;

verus! {

/// The initializer of `void`, for instances and for the class: it does
/// nothing.
pub fn void_init() -> (r: Result<Value, Error>)
    ensures
        r == Ok::<Value, Error>(Value::Undefined),
{
    Ok(Value::Undefined)
}

/// The definition of `void`: a class in the public namespace without a
/// superclass, whose initializers are the host function `init`.
pub fn create_class(interner: &mut Interner, init: usize) -> (r: Class)
    requires
        old(interner).wf(),
    ensures
        final(interner).wf(),
        old(interner).extended_by(final(interner)),
        r.name.ns == Namespace::spec_public(),
        final(interner).contains(r.name.name),
        final(interner).text(r.name.name) == "void"@,
        r.super_class is None,
        r.instance_init == Method::Native(
            NativeMethod { id: init, name: 0, signature_len: 0, is_variadic: false },
        ),
        r.class_init == r.instance_init,
        r.instance_traits@.len() == 0,
        r.class_traits@.len() == 0,
{
    let name = interner.intern("void");
    let method = Method::Native(
        NativeMethod { id: init, name: 0, signature_len: 0, is_variadic: false },
    );
    Class::new(QName::new(Namespace::public(), name), None, method, method)
}

} // verus!
