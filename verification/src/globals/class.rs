//! The class of classes.

use vstd::prelude::*;
use crate::class::Class;
use crate::error::Error;
use crate::interner::Interner;
use crate::method::Method;
use crate::method::NativeMethod;
use crate::multiname::Multiname;
use crate::namespace::Namespace;
use crate::qname::QName;
use crate::runtime::ObjectKind;
use crate::runtime::Runtime;
use crate::traits::SlotType;
use crate::traits::Trait;
use crate::traits::TraitKind;
use crate::value::ObjectId;
use crate::value::Value;

verus! {

/// The initializer of instances: there are none, since classes are not
/// constructed by scripts.
pub fn instance_init() -> (r: Result<Value, Error>)
    ensures
        r == Err::<Value, Error>(Error::ClassesCannotBeConstructed),
{
    Err(Error::ClassesCannotBeConstructed)
}

/// The initializer of the class: it does nothing.
pub fn class_init() -> (r: Result<Value, Error>)
    ensures
        r == Ok::<Value, Error>(Value::Undefined),
{
    Ok(Value::Undefined)
}

/// The getter `prototype` of a class object: the prototype of the class's
/// instances; `undefined` for a receiver that is no class object or has no
/// prototype yet.
pub fn prototype(rt: &Runtime, this: ObjectId) -> (r: Value)
    requires
        rt.wf(),
    ensures
        r == (if this < rt.objects@.len() {
            match rt.objects@[this as int].kind {
                ObjectKind::Class(c) => match rt.classes@[c.0 as int].prototype {
                    Some(p) => Value::Object(p),
                    None => Value::Undefined,
                },
                _ => Value::Undefined,
            }
        } else {
            Value::Undefined
        }),
{
    match rt.as_class_object(this) {
        Some(c) => {
            proof {
                assert(rt.object_wf(this as int));
            }
            match rt.classes[c.0].prototype {
                Some(p) => Value::Object(p),
                None => Value::Undefined,
            }
        },
        None => Value::Undefined,
    }
}

/// The numbers of the host functions that the class of classes is made of.
#[derive(Clone, Copy, Debug, PartialEq, Eq, Structural)]
pub struct ClassNatives {
    pub instance_init: usize,
    pub class_init: usize,
    pub prototype: usize,
}

/// The definition of the class of classes: the public class `Class`, a
/// subclass of `Object`, with the constant `length` of the value one on the
/// class and the getter `prototype` on its instances.
pub fn create_class(interner: &mut Interner, natives: ClassNatives) -> (r: Class)
    requires
        old(interner).wf(),
    ensures
        final(interner).wf(),
        old(interner).extended_by(final(interner)),
        r.name.ns == Namespace::spec_public(),
        final(interner).contains(r.name.name) && final(interner).text(r.name.name) == "Class"@,
        match r.super_class {
            Some(s) => s.ns@ == seq![Namespace::spec_public()] && match s.name {
                Some(n) => final(interner).contains(n) && final(interner).text(n) == "Object"@,
                None => false,
            },
            None => false,
        },
        match r.instance_init {
            Method::Native(m) => m.id == natives.instance_init,
            _ => false,
        },
        match r.class_init {
            Method::Native(m) => m.id == natives.class_init,
            _ => false,
        },
        r.class_traits@.len() == 1,
        r.class_traits@[0].name.ns == Namespace::spec_public(),
        final(interner).contains(r.class_traits@[0].name.name),
        final(interner).text(r.class_traits@[0].name.name) == "length"@,
        r.class_traits@[0].kind == (TraitKind::Const {
            slot_type: SlotType::Int,
            default_value: Some(Value::Integer(1)),
        }),
        r.instance_traits@.len() == 1,
        r.instance_traits@[0].name.ns == Namespace::spec_public(),
        final(interner).contains(r.instance_traits@[0].name.name),
        final(interner).text(r.instance_traits@[0].name.name) == "prototype"@,
        match r.instance_traits@[0].kind {
            TraitKind::Getter { method: Method::Native(m) } => m.id == natives.prototype,
            _ => false,
        },
{
    let class_name = interner.intern("Class");
    let object_name = interner.intern("Object");
    let instance_init_name = interner.intern("<Class instance initializer>");
    let class_init_name = interner.intern("<Class class initializer>");
    let length = interner.intern("length");
    let prototype = interner.intern("prototype");
    let mut class_class = Class::new(
        QName::new(Namespace::public(), class_name),
        Some(Multiname::new(Namespace::public(), object_name)),
        Method::Native(
            NativeMethod {
                id: natives.instance_init,
                name: instance_init_name,
                signature_len: 0,
                is_variadic: false,
            },
        ),
        Method::Native(
            NativeMethod {
                id: natives.class_init,
                name: class_init_name,
                signature_len: 0,
                is_variadic: false,
            },
        ),
    );
    class_class.define_class_trait(
        Trait::from_const(
            QName::new(Namespace::public(), length),
            SlotType::Int,
            Some(Value::Integer(1)),
        ),
    );
    class_class.define_instance_trait(
        Trait::from_getter(
            QName::new(Namespace::public(), prototype),
            Method::Native(
                NativeMethod {
                    id: natives.prototype,
                    name: prototype,
                    signature_len: 0,
                    is_variadic: false,
                },
            ),
        ),
    );
    class_class
}

} // verus!
