use avm_core::class_object::ClassObject;
use avm_core::method::BytecodeMethod;
use avm_core::method::Method;
use avm_core::method::NativeMethod;
use avm_core::multiname::Multiname;
use avm_core::namespace::Namespace;
use avm_core::property::Property;
use avm_core::qname::QName;
use avm_core::scope::ScopeChain;
use avm_core::traits::SlotType;
use avm_core::traits::Trait;
use avm_core::value::Value;
use avm_core::vtable::ClassBoundMethod;
use avm_core::vtable::VTable;

fn public_name(atom: usize) -> QName {
    QName::new(Namespace::public(), atom)
}

fn public_multiname(atom: usize) -> Multiname {
    Multiname::new(Namespace::public(), atom)
}

fn bytecode(id: usize) -> Method {
    Method::Bytecode(BytecodeMethod {
        id,
        method_name: 0,
        signature_len: 0,
        is_variadic: false,
        is_function: false,
        abc_method: id as u32,
    })
}

const X: usize = 1;
const Y: usize = 2;
const Z: usize = 3;
const F: usize = 4;
const G: usize = 5;

#[test]
fn point3d_keeps_the_slots_of_point() {
    let point = ClassObject(0);
    let point3d = ClassObject(1);
    let mut base = VTable::empty();
    base.init_vtable(
        point,
        &vec![
            Trait::from_slot(public_name(X), SlotType::Int, Some(Value::Integer(0))),
            Trait::from_slot(public_name(Y), SlotType::Int, Some(Value::Integer(0))),
        ],
        ScopeChain(0),
        None,
    );
    let mut derived = VTable::empty();
    derived.init_vtable(
        point3d,
        &vec![Trait::from_slot(public_name(Z), SlotType::Int, Some(Value::Integer(0)))],
        ScopeChain(0),
        Some(&base),
    );
    assert_eq!(
        derived.default_slots(),
        &vec![Value::Integer(0), Value::Integer(0), Value::Integer(0)]
    );
    assert_eq!(derived.get_trait(&public_multiname(X)), Some(Property::Slot { slot_id: 0 }));
    assert_eq!(derived.get_trait(&public_multiname(Y)), Some(Property::Slot { slot_id: 1 }));
    assert_eq!(derived.get_trait(&public_multiname(Z)), Some(Property::Slot { slot_id: 2 }));
    assert_eq!(base.get_trait(&public_multiname(X)), Some(Property::Slot { slot_id: 0 }));
    assert_eq!(base.get_trait(&public_multiname(Y)), Some(Property::Slot { slot_id: 1 }));
    assert_eq!(base.get_trait(&public_multiname(Z)), None);
    assert_eq!(base.default_slots().len(), 2);
}

#[test]
fn slots_without_initializer_get_the_zero_of_their_type() {
    let mut table = VTable::empty();
    table.init_vtable(
        ClassObject(0),
        &vec![
            Trait::from_slot(public_name(1), SlotType::Int, None),
            Trait::from_slot(public_name(2), SlotType::Uint, None),
            Trait::from_slot(public_name(3), SlotType::Number, None),
            Trait::from_slot(public_name(4), SlotType::Boolean, None),
            Trait::from_slot(public_name(5), SlotType::String, None),
            Trait::from_const(public_name(6), SlotType::Other, None),
            Trait::from_const(public_name(7), SlotType::Other, Some(Value::Integer(9))),
        ],
        ScopeChain(0),
        None,
    );
    assert_eq!(
        table.default_slots(),
        &vec![
            Value::Integer(0),
            Value::Unsigned(0),
            Value::Number(0),
            Value::Bool(false),
            Value::String(0),
            Value::Null,
            Value::Integer(9),
        ]
    );
    assert_eq!(table.get_trait(&public_multiname(6)), Some(Property::ConstSlot { slot_id: 5 }));
    assert_eq!(table.get_trait(&public_multiname(7)), Some(Property::ConstSlot { slot_id: 6 }));
}

#[test]
fn getter_and_setter_merge_across_declarations_and_classes() {
    let mut base = VTable::empty();
    base.init_vtable(
        ClassObject(0),
        &vec![
            Trait::from_getter(public_name(F), bytecode(10)),
            Trait::from_setter(public_name(F), bytecode(11)),
            Trait::from_getter(public_name(G), bytecode(12)),
        ],
        ScopeChain(0),
        None,
    );
    assert_eq!(
        base.get_trait(&public_multiname(F)),
        Some(Property::Virtual { get: Some(0), set: Some(1) })
    );
    assert_eq!(
        base.get_trait(&public_multiname(G)),
        Some(Property::Virtual { get: Some(2), set: None })
    );
    let mut derived = VTable::empty();
    derived.init_vtable(
        ClassObject(1),
        &vec![Trait::from_setter(public_name(G), bytecode(13))],
        ScopeChain(5),
        Some(&base),
    );
    assert_eq!(
        derived.get_trait(&public_multiname(G)),
        Some(Property::Virtual { get: Some(2), set: Some(3) })
    );
    assert_eq!(
        derived.get_full_method(3),
        Some(ClassBoundMethod { class: ClassObject(1), scope: ScopeChain(5), method: bytecode(13) })
    );
    assert_eq!(
        derived.get_full_method(2),
        Some(ClassBoundMethod { class: ClassObject(0), scope: ScopeChain(0), method: bytecode(12) })
    );
    assert_eq!(derived.get_full_method(4), None);
    assert_eq!(derived.method_count(), 4);
}

#[test]
fn a_method_hides_an_inherited_slot_but_not_its_storage() {
    let mut base = VTable::empty();
    base.init_vtable(
        ClassObject(0),
        &vec![Trait::from_slot(public_name(X), SlotType::Int, Some(Value::Integer(4)))],
        ScopeChain(0),
        None,
    );
    let mut derived = VTable::empty();
    derived.init_vtable(
        ClassObject(1),
        &vec![
            Trait::from_method(public_name(X), bytecode(1)),
            Trait::from_slot(public_name(Y), SlotType::Int, None),
        ],
        ScopeChain(0),
        Some(&base),
    );
    assert_eq!(derived.get_trait(&public_multiname(X)), Some(Property::Method { disp_id: 0 }));
    assert_eq!(derived.get_trait(&public_multiname(Y)), Some(Property::Slot { slot_id: 1 }));
    assert_eq!(derived.default_slots(), &vec![Value::Integer(4), Value::Integer(0)]);
    assert!(derived.has_trait(&public_multiname(X)));
    assert!(!derived.has_trait(&public_multiname(Z)));
}

#[test]
fn an_overriding_method_gets_a_new_dispatch_id_bound_to_its_class() {
    let mut a = VTable::empty();
    a.init_vtable(ClassObject(0), &vec![Trait::from_method(public_name(F), bytecode(1))], ScopeChain(0), None);
    let mut b = VTable::empty();
    b.init_vtable(ClassObject(1), &vec![Trait::from_method(public_name(F), bytecode(2))], ScopeChain(1), Some(&a));
    let mut c = VTable::empty();
    c.init_vtable(ClassObject(2), &vec![Trait::from_method(public_name(F), bytecode(3))], ScopeChain(2), Some(&b));
    assert_eq!(a.get_trait(&public_multiname(F)), Some(Property::Method { disp_id: 0 }));
    assert_eq!(b.get_trait(&public_multiname(F)), Some(Property::Method { disp_id: 1 }));
    assert_eq!(c.get_trait(&public_multiname(F)), Some(Property::Method { disp_id: 2 }));
    assert_eq!(c.get_full_method(0).unwrap().class, ClassObject(0));
    assert_eq!(c.get_full_method(1).unwrap().class, ClassObject(1));
    assert_eq!(c.get_full_method(2).unwrap().class, ClassObject(2));
    assert_eq!(c.get_full_method(2).unwrap().method, bytecode(3));
}

#[test]
fn a_multiname_resolves_to_its_first_namespace_with_an_entry() {
    let internal = Namespace::PackageInternal(9);
    let private = Namespace::private(9);
    let mut table = VTable::empty();
    table.init_vtable(
        ClassObject(0),
        &vec![
            Trait::from_slot(QName::new(internal, X), SlotType::Int, None),
            Trait::from_slot(QName::new(private, X), SlotType::Int, None),
        ],
        ScopeChain(0),
        None,
    );
    let first_private = Multiname::with_namespaces(vec![Namespace::public(), private, internal], Some(X));
    assert_eq!(table.get_trait(&first_private), Some(Property::Slot { slot_id: 1 }));
    let first_internal = Multiname::with_namespaces(vec![internal, private], Some(X));
    assert_eq!(table.get_trait(&first_internal), Some(Property::Slot { slot_id: 0 }));
    assert_eq!(table.get_trait(&public_multiname(X)), None);
    assert_eq!(table.get_trait(&Multiname::with_namespaces(vec![internal], None)), None);
    assert_eq!(table.get_trait_by_qname(QName::new(private, X)), Some(Property::Slot { slot_id: 1 }));
}

#[test]
fn an_alias_points_at_the_same_property() {
    let interface_ns = Namespace::Namespace(9);
    let mut table = VTable::empty();
    table.init_vtable(
        ClassObject(0),
        &vec![Trait::from_method(QName::new(interface_ns, F), bytecode(1))],
        ScopeChain(0),
        None,
    );
    table.copy_property_for_interface(public_name(F), QName::new(interface_ns, F));
    assert_eq!(table.get_trait(&public_multiname(F)), Some(Property::Method { disp_id: 0 }));
    table.copy_property_for_interface(public_name(G), QName::new(interface_ns, G));
    assert_eq!(table.get_trait(&public_multiname(G)), None);
}

#[test]
fn a_native_method_is_bound_like_any_other() {
    let native = Method::Native(NativeMethod { id: 3, name: 0, signature_len: 2, is_variadic: true });
    assert_eq!(native.signature_len(), 2);
    assert_eq!(native.into_bytecode(), None);
    let mut table = VTable::empty();
    table.init_vtable(ClassObject(4), &vec![Trait::from_method(public_name(F), native)], ScopeChain(1), None);
    assert_eq!(
        table.get_full_method(0),
        Some(ClassBoundMethod { class: ClassObject(4), scope: ScopeChain(1), method: native })
    );
    let catch = VTable::newcatch(public_name(X));
    assert_eq!(catch.get_trait(&public_multiname(X)), Some(Property::Slot { slot_id: 1 }));
    assert_eq!(catch.default_slots(), &vec![Value::Undefined, Value::Undefined]);
}
