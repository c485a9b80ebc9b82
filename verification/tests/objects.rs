use avm_core::error::Error;
use avm_core::error::ErrorKind;
use avm_core::multiname::Multiname;
use avm_core::namespace::Namespace;
use avm_core::runtime::Runtime;
use avm_core::script_object::ScriptObject;
use avm_core::script_object::ScriptObjectData;
use avm_core::value::Value;

fn public(atom: usize) -> Multiname {
    Multiname::new(Namespace::public(), atom)
}

#[test]
fn a_sealed_object_refuses_dynamic_writes() {
    let mut sealed = ScriptObjectData::custom_new(None, None, None, true);
    let result = sealed.set_property_local(&public(5), Value::Integer(1));
    assert_eq!(result, Err(Error::InvalidWrite { name: Some(5), class: None }));
    assert_eq!(result.unwrap_err().kind(), ErrorKind::ReferenceError);
    assert_eq!(result.unwrap_err().code(), Some(1056));
    assert_eq!(sealed.num_enumerants(), 0);
    assert_eq!(sealed.get_own_dynamic_property(5), None);
    assert!(sealed.is_sealed());
}

#[test]
fn a_dynamic_object_enumerates_in_insertion_order() {
    let mut object = ScriptObjectData::custom_new(None, None, None, false);
    assert_eq!(object.set_property_local(&public(30), Value::Integer(1)), Ok(()));
    assert_eq!(object.set_property_local(&public(10), Value::Integer(2)), Ok(()));
    assert_eq!(object.set_property_local(&public(20), Value::Integer(3)), Ok(()));
    assert_eq!(object.set_property_local(&public(10), Value::Integer(4)), Ok(()));
    assert_eq!(object.num_enumerants(), 3);
    assert_eq!(object.get_enumerant_name(1), Some(Value::String(30)));
    assert_eq!(object.get_enumerant_name(2), Some(Value::String(10)));
    assert_eq!(object.get_enumerant_name(3), Some(Value::String(20)));
    assert_eq!(object.get_own_dynamic_property(10), Some(Value::Integer(4)));
    assert!(object.property_is_enumerable(20));
    assert!(!object.property_is_enumerable(21));
}

#[test]
fn enumeration_counts_from_one() {
    let mut object = ScriptObjectData::custom_new(None, None, None, false);
    assert_eq!(object.get_next_enumerant(0), None);
    object.set_property_local(&public(7), Value::Null).unwrap();
    assert_eq!(object.get_next_enumerant(0), Some(1));
    assert_eq!(object.get_next_enumerant(1), None);
    assert_eq!(object.get_enumerant_name(0), None);
    assert_eq!(object.get_enumerant_name(1), Some(Value::String(7)));
    assert_eq!(object.get_enumerant_name(2), None);
    assert_eq!(object.get_next_enumerant(u32::MAX), None);
}

#[test]
fn a_name_outside_the_public_namespace_is_no_dynamic_property() {
    let mut object = ScriptObjectData::custom_new(None, None, None, false);
    let private = Multiname::new(Namespace::private(3), 5);
    let nameless = Multiname::with_namespaces(vec![Namespace::public()], None);
    assert_eq!(
        object.set_property_local(&private, Value::Integer(1)),
        Err(Error::InvalidWrite { name: Some(5), class: None })
    );
    assert_eq!(
        object.init_property_local(&nameless, Value::Integer(1)),
        Err(Error::InvalidWrite { name: None, class: None })
    );
    assert!(!object.has_own_dynamic_property(&private));
    assert!(!object.delete_property_local(&private));
    assert!(!object.delete_property_local(&nameless));
    let rt = Runtime::new();
    assert_eq!(
        object.get_property_local(&private, &rt),
        Err(Error::InvalidRead { name: Some(5), class: None })
    );
    assert_eq!(
        object.get_property_local(&nameless, &rt),
        Err(Error::InvalidRead { name: None, class: None })
    );
}

#[test]
fn deleting_removes_the_value_and_the_enumerant() {
    let mut object = ScriptObjectData::custom_new(None, None, None, false);
    object.set_property_local(&public(1), Value::Integer(1)).unwrap();
    object.set_property_local(&public(2), Value::Integer(2)).unwrap();
    object.set_property_local(&public(3), Value::Integer(3)).unwrap();
    assert!(object.delete_property_local(&public(2)));
    assert_eq!(object.num_enumerants(), 2);
    assert_eq!(object.get_enumerant_name(1), Some(Value::String(1)));
    assert_eq!(object.get_enumerant_name(2), Some(Value::String(3)));
    assert!(!object.has_own_dynamic_property(&public(2)));
    assert!(object.delete_property_local(&public(9)));
    assert_eq!(object.num_enumerants(), 2);
}

#[test]
fn enumerability_can_be_switched() {
    let mut object = ScriptObjectData::custom_new(None, None, None, false);
    object.set_property_local(&public(1), Value::Integer(1)).unwrap();
    object.set_property_local(&public(2), Value::Integer(2)).unwrap();
    object.set_local_property_is_enumerable(1, false);
    assert_eq!(object.num_enumerants(), 1);
    assert_eq!(object.get_enumerant_name(1), Some(Value::String(2)));
    assert_eq!(object.get_own_dynamic_property(1), Some(Value::Integer(1)));
    object.set_local_property_is_enumerable(1, true);
    assert_eq!(object.get_enumerant_name(2), Some(Value::String(1)));
    object.set_local_property_is_enumerable(1, true);
    assert_eq!(object.num_enumerants(), 2);
    object.set_local_property_is_enumerable(9, true);
    assert_eq!(object.num_enumerants(), 2);
}

#[test]
fn slots_are_checked_against_their_bounds() {
    let mut object = ScriptObjectData::custom_new(None, None, None, true);
    assert_eq!(object.get_slot(0), Err(Error::SlotOutOfBounds { id: 0 }));
    assert_eq!(object.set_slot(0, Value::Null), Err(Error::SlotOutOfBounds { id: 0 }));
    object.install_const_slot_late(2, Value::Integer(5));
    assert_eq!(object.get_slot(0), Ok(Value::Undefined));
    assert_eq!(object.get_slot(1), Ok(Value::Undefined));
    assert_eq!(object.get_slot(2), Ok(Value::Integer(5)));
    assert_eq!(object.get_slot(3), Err(Error::SlotOutOfBounds { id: 3 }));
    assert_eq!(object.set_slot(1, Value::Bool(true)), Ok(()));
    assert_eq!(object.init_slot(0, Value::Integer(8)), Ok(()));
    assert_eq!(object.get_slot(1), Ok(Value::Bool(true)));
    assert_eq!(object.get_slot(0), Ok(Value::Integer(8)));
    object.install_const_slot_late(0, Value::Null);
    assert_eq!(object.get_slot(0), Ok(Value::Null));
    assert_eq!(object.get_slot(2), Ok(Value::Integer(5)));
    assert_eq!(Error::SlotOutOfBounds { id: 3 }.code(), None);
    assert_eq!(Error::SlotOutOfBounds { id: 3 }.kind(), ErrorKind::Error);
}

#[test]
fn installing_a_bound_method_twice_overwrites() {
    let mut object = ScriptObjectData::custom_new(None, None, None, true);
    assert_eq!(object.get_bound_method(3), None);
    object.install_bound_method(3, 40);
    assert_eq!(object.get_bound_method(3), Some(40));
    assert_eq!(object.get_bound_method(2), None);
    object.install_bound_method(3, 41);
    assert_eq!(object.get_bound_method(3), Some(41));
    object.install_bound_method(0, 42);
    assert_eq!(object.get_bound_method(0), Some(42));
    assert_eq!(object.get_bound_method(3), Some(41));
    assert_eq!(object.get_bound_method(4), None);
}

#[test]
fn reads_follow_the_prototype_chain() {
    let mut rt = Runtime::new();
    let grandparent = ScriptObject::custom_object(&mut rt, None, None);
    let parent = ScriptObject::custom_object(&mut rt, None, Some(grandparent));
    let child = ScriptObject::custom_object(&mut rt, None, Some(parent));
    rt.set_property_local(grandparent, &public(1), Value::Integer(10)).unwrap();
    rt.set_property_local(grandparent, &public(2), Value::Integer(20)).unwrap();
    rt.set_property_local(parent, &public(2), Value::Integer(21)).unwrap();
    rt.set_property_local(child, &public(3), Value::Integer(32)).unwrap();
    assert_eq!(rt.object(child).get_property_local(&public(1), &rt), Ok(Value::Integer(10)));
    assert_eq!(rt.object(child).get_property_local(&public(2), &rt), Ok(Value::Integer(21)));
    assert_eq!(rt.object(child).get_property_local(&public(3), &rt), Ok(Value::Integer(32)));
    assert_eq!(rt.object(child).get_property_local(&public(4), &rt), Ok(Value::Undefined));
    assert_eq!(rt.object(parent).get_property_local(&public(3), &rt), Ok(Value::Undefined));
    assert_eq!(rt.object(child).proto(), Some(parent));
    assert!(!rt.object(child).has_own_property(&public(1), &rt));
    assert!(rt.object(child).has_own_property(&public(3), &rt));
    assert!(!rt.object(child).has_trait(&public(3), &rt));
}

#[test]
fn a_cyclic_prototype_chain_ends_the_read() {
    let mut rt = Runtime::new();
    let a = ScriptObject::custom_object(&mut rt, None, None);
    let b = ScriptObject::custom_object(&mut rt, None, Some(a));
    rt.set_proto(a, b);
    assert_eq!(rt.object(a).get_property_local(&public(1), &rt), Ok(Value::Undefined));
    rt.set_property_local(b, &public(1), Value::Integer(5)).unwrap();
    assert_eq!(rt.object(a).get_property_local(&public(1), &rt), Ok(Value::Integer(5)));
}

#[test]
fn a_sealed_object_fails_to_read_what_is_not_there() {
    let mut rt = Runtime::new();
    let proto = ScriptObject::custom_object(&mut rt, None, None);
    rt.set_property_local(proto, &public(1), Value::Integer(10)).unwrap();
    let mut sealed = ScriptObjectData::custom_new(Some(proto), None, None, true);
    assert_eq!(sealed.get_property_local(&public(1), &rt), Ok(Value::Integer(10)));
    let failure = sealed.get_property_local(&public(2), &rt);
    assert_eq!(failure, Err(Error::InvalidRead { name: Some(2), class: None }));
    assert_eq!(failure.unwrap_err().code(), Some(1069));
    assert_eq!(failure.unwrap_err().kind(), ErrorKind::ReferenceError);
    sealed.set_proto(proto);
    assert_eq!(sealed.proto(), Some(proto));
    assert_eq!(sealed.instance_of(), None);
    assert_eq!(sealed.vtable(), None);
}

#[test]
fn a_catch_scope_has_its_value_in_slot_one() {
    let mut rt = Runtime::new();
    let e = rt.interner.intern("e");
    let name = avm_core::qname::QName::new(Namespace::public(), e);
    let scope = ScriptObject::catch_scope(&mut rt, name);
    assert_eq!(rt.get_slot(scope, 1), Ok(Value::Undefined));
    assert_eq!(rt.get_slot(scope, 2), Err(Error::SlotOutOfBounds { id: 2 }));
    assert_eq!(rt.set_property(scope, &public(e), Value::Integer(3)), Ok(None));
    assert_eq!(rt.get_slot(scope, 1), Ok(Value::Integer(3)));
    assert_eq!(
        rt.get_property(scope, &public(e)),
        Ok(avm_core::object::PropertyRead::Value(Value::Integer(3)))
    );
    assert!(rt.object(scope).has_trait(&public(e), &rt));
    assert!(!rt.delete_property(scope, &public(e)));
}
