use avm_core::class::Allocator;
use avm_core::class::Class;
use avm_core::class_object::Application;
use avm_core::class_object::ClassCall;
use avm_core::class_object::ClassObject;
use avm_core::class_object::ConstructStep;
use avm_core::class_object::SuperAction;
use avm_core::error::Error;
use avm_core::error::ErrorKind;
use avm_core::function::Executable;
use avm_core::globals::class::create_class;
use avm_core::globals::class::ClassNatives;
use avm_core::method::BytecodeMethod;
use avm_core::method::Method;
use avm_core::method::NativeMethod;
use avm_core::multiname::Multiname;
use avm_core::namespace::Namespace;
use avm_core::object::PropertyCall;
use avm_core::object::PropertyRead;
use avm_core::property::Property;
use avm_core::qname::QName;
use avm_core::runtime::ClassPhase;
use avm_core::runtime::Runtime;
use avm_core::runtime::SystemClasses;
use avm_core::scope::ScopeChain;
use avm_core::script_object::ScriptObject;
use avm_core::traits::SlotType;
use avm_core::traits::Trait;
use avm_core::value::Value;

struct World {
    rt: Runtime,
    object: ClassObject,
    class: ClassObject,
    scope: ScopeChain,
    global: usize,
}

fn native(id: usize) -> Method {
    Method::Native(NativeMethod { id, name: 0, signature_len: 0, is_variadic: false })
}

fn bytecode(id: usize) -> Method {
    Method::Bytecode(BytecodeMethod {
        id,
        method_name: 0,
        signature_len: 0,
        is_variadic: false,
        is_function: false,
        abc_method: id as u32,
    })
}

fn public(rt: &mut Runtime, name: &str) -> QName {
    let atom = rt.interner.intern(name);
    QName::new(Namespace::public(), atom)
}

fn lookup(rt: &mut Runtime, name: &str) -> Multiname {
    let atom = rt.interner.intern(name);
    Multiname::new(Namespace::public(), atom)
}

fn world() -> World {
    let mut rt = Runtime::new();
    let object_name = public(&mut rt, "Object");
    let object_def = Class::new(object_name, None, native(1), native(2));
    let object_id = rt.add_definition(object_def);
    let class_def = create_class(
        &mut rt.interner,
        ClassNatives { instance_init: 3, class_init: 4, prototype: 5 },
    );
    let class_id = rt.add_definition(class_def);
    let global = ScriptObject::custom_object(&mut rt, None, None);
    let scope = rt.create_scopechain(vec![global]);
    let object = ClassObject::from_class_partial(&mut rt, object_id, None, scope).unwrap();
    let class = ClassObject::from_class_partial(&mut rt, class_id, Some(object), scope).unwrap();
    let object_proto = ScriptObject::custom_object(&mut rt, None, None);
    let class_proto = ScriptObject::custom_object(&mut rt, None, Some(object_proto));
    object.link_type(&mut rt, class_proto, class);
    class.link_type(&mut rt, class_proto, class);
    object.link_prototype(&mut rt, object_proto).unwrap();
    class.link_prototype(&mut rt, class_proto).unwrap();
    object.init_instance_vtable(&mut rt).unwrap();
    class.init_instance_vtable(&mut rt).unwrap();
    object.into_finished_class(&mut rt).unwrap();
    class.into_finished_class(&mut rt).unwrap();
    rt.set_system_classes(SystemClasses {
        object: Some(object),
        function: None,
        class: Some(class),
        object_vector: None,
    });
    World { rt, object, class, scope, global }
}

fn define(w: &mut World, def: Class, superclass: Option<ClassObject>) -> Result<(ClassObject, Option<Executable>), Error> {
    let id = w.rt.add_definition(def);
    let proto = ScriptObject::custom_object(&mut w.rt, Some(w.object), None);
    ClassObject::from_class(&mut w.rt, id, superclass, w.scope, proto)
}

fn define_root(w: &mut World, def: Class) -> Result<(ClassObject, Option<Executable>), Error> {
    let object = w.object;
    define(w, def, Some(object))
}

fn plain_class(w: &mut World, name: &str, init: usize) -> Class {
    let qname = public(&mut w.rt, name);
    let object = lookup(&mut w.rt, "Object");
    let mut def = Class::new(qname, Some(object), bytecode(init), bytecode(init + 1));
    def.is_sealed = true;
    def
}

fn new_instance(w: &mut World, class: ClassObject) -> usize {
    match class.construct(&mut w.rt) {
        ConstructStep::Initialize { instance, .. } => instance,
        ConstructStep::Allocate(_) => panic!("the class has the allocator of script objects"),
    }
}

#[test]
fn the_world_starts_with_finished_object_and_class() {
    let w = world();
    assert_eq!(w.object.phase(&w.rt), ClassPhase::Finished);
    assert_eq!(w.class.phase(&w.rt), ClassPhase::Finished);
    assert_eq!(w.class.superclass_object(&w.rt), Some(w.object));
    assert_eq!(w.object.superclass_object(&w.rt), None);
    assert_eq!(w.rt.as_class_object(w.rt.object(w.object.prototype(&w.rt)).proto().unwrap_or(0)), None);
    let base = w.rt.classes[w.object.0].base;
    assert_eq!(w.rt.as_class_object(base), Some(w.object));
    assert_eq!(w.rt.object(base).instance_of(), Some(w.class));
    assert_eq!(w.rt.object(base).vtable(), Some(w.object.class_vtable(&w.rt)));
    assert_eq!(w.rt.global_object(w.scope), Some(w.global));
    assert_eq!(avm_core::globals::class::prototype(&w.rt, base), Value::Object(w.object.prototype(&w.rt)));
    assert_eq!(avm_core::globals::class::prototype(&w.rt, w.global), Value::Undefined);
}

#[test]
fn the_prototype_refers_to_its_class_without_enumerating_it() {
    let mut w = world();
    let constructor = lookup(&mut w.rt, "constructor");
    let proto = w.object.prototype(&w.rt);
    let base = w.rt.classes[w.object.0].base;
    assert_eq!(
        w.rt.object(proto).get_property_local(&constructor, &w.rt),
        Ok(Value::Object(base))
    );
    assert_eq!(w.rt.object(proto).num_enumerants(), 0);
}

#[test]
fn point3d_instances_have_the_slots_of_point_first() {
    let mut w = world();
    let mut point = plain_class(&mut w, "Point", 10);
    let x = public(&mut w.rt, "x");
    let y = public(&mut w.rt, "y");
    let z = public(&mut w.rt, "z");
    point.define_instance_trait(Trait::from_slot(x, SlotType::Int, Some(Value::Integer(0))));
    point.define_instance_trait(Trait::from_slot(y, SlotType::Int, Some(Value::Integer(0))));
    let (point_class, _) = define_root(&mut w, point).unwrap();
    let mut point3d = plain_class(&mut w, "Point3D", 20);
    point3d.super_class = Some(lookup(&mut w.rt, "Point"));
    point3d.define_instance_trait(Trait::from_slot(z, SlotType::Int, Some(Value::Integer(0))));
    let (point3d_class, _) = define(&mut w, point3d, Some(point_class)).unwrap();

    let instance = new_instance(&mut w, point3d_class);
    assert_eq!(
        w.rt.object(instance).slots,
        vec![Value::Integer(0), Value::Integer(0), Value::Integer(0)]
    );
    let table = &w.rt.vtables[point3d_class.instance_vtable(&w.rt)];
    assert_eq!(table.get_trait_by_qname(x), Some(Property::Slot { slot_id: 0 }));
    assert_eq!(table.get_trait_by_qname(y), Some(Property::Slot { slot_id: 1 }));
    assert_eq!(table.get_trait_by_qname(z), Some(Property::Slot { slot_id: 2 }));

    let plain = new_instance(&mut w, point_class);
    let xn = Multiname::new(Namespace::public(), x.local_name());
    let zn = Multiname::new(Namespace::public(), z.local_name());
    assert_eq!(w.rt.set_property(instance, &xn, Value::Integer(7)), Ok(None));
    assert_eq!(w.rt.set_property(plain, &xn, Value::Integer(8)), Ok(None));
    assert_eq!(w.rt.get_slot(instance, 0), Ok(Value::Integer(7)));
    assert_eq!(w.rt.get_slot(plain, 0), Ok(Value::Integer(8)));
    assert_eq!(w.rt.get_property(instance, &xn), Ok(PropertyRead::Value(Value::Integer(7))));
    assert_eq!(w.rt.set_property(instance, &zn, Value::Integer(9)), Ok(None));
    assert_eq!(w.rt.get_slot(instance, 2), Ok(Value::Integer(9)));
    assert_eq!(
        w.rt.set_property(plain, &zn, Value::Integer(9)),
        Err(Error::InvalidWrite { name: Some(z.local_name()), class: Some(point_class) })
    );
    assert!(point3d_class.has_class_in_chain(&w.rt, point_class.inner_class_definition(&w.rt)));
    assert!(point3d_class.has_class_in_chain(&w.rt, w.object.inner_class_definition(&w.rt)));
    assert!(!point_class.has_class_in_chain(&w.rt, point3d_class.inner_class_definition(&w.rt)));
}

#[test]
fn sealed_instances_refuse_and_dynamic_instances_take_new_properties() {
    let mut w = world();
    let sealed_def = plain_class(&mut w, "Sealed", 10);
    let mut open_def = plain_class(&mut w, "Open", 20);
    open_def.is_sealed = false;
    let (sealed, _) = define_root(&mut w, sealed_def).unwrap();
    let (open, _) = define_root(&mut w, open_def).unwrap();
    let a = lookup(&mut w.rt, "a");
    let b = lookup(&mut w.rt, "b");
    let s = new_instance(&mut w, sealed);
    let o = new_instance(&mut w, open);
    let refused = w.rt.set_property(s, &a, Value::Integer(1));
    assert_eq!(refused, Err(Error::InvalidWrite { name: a.name, class: Some(sealed) }));
    assert_eq!(refused.unwrap_err().kind(), ErrorKind::ReferenceError);
    assert_eq!(w.rt.object(s).num_enumerants(), 0);
    assert_eq!(
        w.rt.get_property(s, &a),
        Err(Error::InvalidRead { name: a.name, class: Some(sealed) })
    );
    assert_eq!(w.rt.set_property(o, &b, Value::Integer(2)), Ok(None));
    assert_eq!(w.rt.set_property(o, &a, Value::Integer(1)), Ok(None));
    assert_eq!(w.rt.object(o).get_enumerant_name(1), Some(Value::String(b.name.unwrap())));
    assert_eq!(w.rt.object(o).get_enumerant_name(2), Some(Value::String(a.name.unwrap())));
    assert_eq!(w.rt.get_property(o, &a), Ok(PropertyRead::Value(Value::Integer(1))));
    assert_eq!(w.rt.call_property(o, &a), Ok(PropertyCall::Callee(Value::Integer(1))));
    assert!(w.rt.delete_property(o, &a));
    assert_eq!(w.rt.get_property(o, &a), Ok(PropertyRead::Value(Value::Undefined)));
    assert_eq!(w.rt.object(o).num_enumerants(), 1);
}

#[test]
fn a_final_class_and_an_interface_cannot_be_extended() {
    let mut w = world();
    let mut last = plain_class(&mut w, "Last", 10);
    last.is_final = true;
    let last_name = last.name.local_name();
    let (last_class, _) = define_root(&mut w, last).unwrap();
    let mut shape = plain_class(&mut w, "IShape", 20);
    shape.is_interface = true;
    shape.super_class = None;
    let shape_name = shape.name.local_name();
    let (shape_class, _) = define(&mut w, shape, None).unwrap();

    let child = plain_class(&mut w, "Child", 30);
    let count = w.rt.classes.len();
    let refused = define(&mut w, child, Some(last_class));
    assert_eq!(refused, Err(Error::BaseClassFinal { name: last_name }));
    assert_eq!(refused.unwrap_err().kind(), ErrorKind::VerifyError);
    assert_eq!(w.rt.classes.len(), count);
    let other = plain_class(&mut w, "Other", 40);
    assert_eq!(
        define(&mut w, other, Some(shape_class)),
        Err(Error::BaseClassInterface { name: shape_name })
    );
    let id = w.rt.definitions.len() - 1;
    assert_eq!(
        ClassObject::from_class_partial(&mut w.rt, id, Some(last_class), w.scope),
        Err(Error::BaseClassFinal { name: last_name })
    );
}

#[test]
fn the_class_initializer_is_handed_out_once() {
    let mut w = world();
    let def = plain_class(&mut w, "Once", 10);
    let id = w.rt.add_definition(def);
    let proto = ScriptObject::custom_object(&mut w.rt, Some(w.object), None);
    let (class, initializer) = ClassObject::from_class(&mut w.rt, id, Some(w.object), w.scope, proto).unwrap();
    let base = w.rt.classes[class.0].base;
    assert_eq!(
        initializer,
        Some(Executable::from_method(bytecode(11), w.scope, Some(base), Some(class)))
    );
    assert!(w.rt.definition(id).is_class_initialized());
    assert_eq!(class.run_class_initializer(&mut w.rt), None);
    new_instance(&mut w, class);
    new_instance(&mut w, class);
    assert_eq!(class.run_class_initializer(&mut w.rt), None);
    let second_proto = ScriptObject::custom_object(&mut w.rt, Some(w.object), None);
    let (second, again) = ClassObject::from_class(&mut w.rt, id, Some(w.object), w.scope, second_proto).unwrap();
    assert_ne!(second, class);
    assert_eq!(again, None);
}

#[test]
fn construction_hands_out_the_initializer_of_the_class() {
    let mut w = world();
    let mut def = plain_class(&mut w, "Thing", 10);
    def.native_instance_init = Some(native(77));
    let (class, _) = define_root(&mut w, def).unwrap();
    let scope = class.instance_scope(&w.rt);
    assert_eq!(w.rt.scopes[scope.0], vec![w.global, w.rt.classes[class.0].base]);
    match class.construct(&mut w.rt) {
        ConstructStep::Initialize { instance, initializer } => {
            assert_eq!(initializer, Executable::from_method(native(77), scope, None, Some(class)));
            assert_eq!(w.rt.object(instance).instance_of(), Some(class));
            assert_eq!(w.rt.object(instance).proto(), Some(class.prototype(&w.rt)));
            assert!(w.rt.object(instance).is_sealed());
        }
        ConstructStep::Allocate(_) => panic!("no host allocator was named"),
    }
    assert_eq!(class.call_init(&w.rt), Executable::from_method(bytecode(10), scope, None, Some(class)));
    assert_eq!(class.call_native_init(&w.rt), Executable::from_method(native(77), scope, None, Some(class)));
    assert_eq!(class.constructor(&w.rt), bytecode(10));
    assert_eq!(class.class_scope(&w.rt), w.scope);
}

#[test]
fn a_host_allocator_is_inherited_and_asked_for() {
    let mut w = world();
    let mut def = plain_class(&mut w, "Native", 10);
    def.instance_allocator = Some(Allocator::Custom(6));
    let x = public(&mut w.rt, "x");
    def.define_instance_trait(Trait::from_slot(x, SlotType::Boolean, None));
    let (class, _) = define_root(&mut w, def).unwrap();
    let mut child_def = plain_class(&mut w, "NativeChild", 20);
    child_def.super_class = Some(lookup(&mut w.rt, "Native"));
    let (child, _) = define(&mut w, child_def, Some(class)).unwrap();
    assert_eq!(class.instance_allocator(&w.rt), Some(Allocator::Custom(6)));
    assert_eq!(child.instance_allocator(&w.rt), Some(Allocator::Custom(6)));
    assert_eq!(w.object.instance_allocator(&w.rt), Some(Allocator::Script));
    let before = w.rt.objects.len();
    assert_eq!(child.construct(&mut w.rt), ConstructStep::Allocate(6));
    assert_eq!(w.rt.objects.len(), before);
    let instance = avm_core::script_object::scriptobject_allocator(child, &mut w.rt);
    match child.construct_allocated(&mut w.rt, instance) {
        ConstructStep::Initialize { instance: same, .. } => assert_eq!(same, instance),
        ConstructStep::Allocate(_) => panic!("the instance is allocated"),
    }
    assert_eq!(w.rt.object(instance).slots, vec![Value::Bool(false)]);
}

#[test]
fn a_supercall_starts_at_the_class_it_is_made_on() {
    let mut w = world();
    let f = public(&mut w.rt, "f");
    let mut a_def = plain_class(&mut w, "A", 10);
    a_def.define_instance_trait(Trait::from_method(f, bytecode(100)));
    let (a, _) = define_root(&mut w, a_def).unwrap();
    let mut b_def = plain_class(&mut w, "B", 20);
    b_def.super_class = Some(lookup(&mut w.rt, "A"));
    b_def.define_instance_trait(Trait::from_method(f, bytecode(200)));
    let (b, _) = define(&mut w, b_def, Some(a)).unwrap();
    let mut c_def = plain_class(&mut w, "C", 30);
    c_def.super_class = Some(lookup(&mut w.rt, "B"));
    c_def.define_instance_trait(Trait::from_method(f, bytecode(300)));
    let (c, _) = define(&mut w, c_def, Some(b)).unwrap();

    let instance = new_instance(&mut w, c);
    let name = Multiname::new(Namespace::public(), f.local_name());
    let from_outside = w.rt.call_property(instance, &name).unwrap();
    let c_f = Executable::from_method(bytecode(300), c.instance_scope(&w.rt), Some(instance), Some(c));
    assert_eq!(from_outside, PropertyCall::Invoke(c_f));

    let running_c = c_f.bound_superclass().unwrap();
    let super_of_c = running_c.superclass_object(&w.rt).unwrap();
    let b_f = match super_of_c.call_super(&w.rt, &name, instance).unwrap() {
        SuperAction::Invoke(exec) => exec,
        _ => panic!("f is a method of B"),
    };
    assert_eq!(b_f, Executable::from_method(bytecode(200), b.instance_scope(&w.rt), Some(instance), Some(b)));

    let running_b = b_f.bound_superclass().unwrap();
    let super_of_b = running_b.superclass_object(&w.rt).unwrap();
    let a_f = match super_of_b.call_super(&w.rt, &name, instance).unwrap() {
        SuperAction::Invoke(exec) => exec,
        _ => panic!("f is a method of A"),
    };
    assert_eq!(a_f, Executable::from_method(bytecode(100), a.instance_scope(&w.rt), Some(instance), Some(a)));
    assert_ne!(a_f, c_f);

    let missing = running_b.superclass_object(&w.rt).unwrap().superclass_object(&w.rt).unwrap();
    assert_eq!(missing, w.object);
    let failure = missing.call_super(&w.rt, &name, instance);
    assert_eq!(failure, Err(Error::MethodNotFound { name: name.name, class: w.object }));
    assert_eq!(failure.unwrap_err().code(), Some(1070));
}

#[test]
fn superclass_reads_and_writes_resolve_by_kind() {
    let mut w = world();
    let slot = public(&mut w.rt, "slot");
    let fixed = public(&mut w.rt, "fixed");
    let both = public(&mut w.rt, "both");
    let read = public(&mut w.rt, "read");
    let write = public(&mut w.rt, "write");
    let method = public(&mut w.rt, "method");
    let mut def = plain_class(&mut w, "Base", 10);
    def.define_instance_trait(Trait::from_slot(slot, SlotType::Int, None));
    def.define_instance_trait(Trait::from_const(fixed, SlotType::Int, None));
    def.define_instance_trait(Trait::from_getter(both, bytecode(1)));
    def.define_instance_trait(Trait::from_setter(both, bytecode(2)));
    def.define_instance_trait(Trait::from_getter(read, bytecode(3)));
    def.define_instance_trait(Trait::from_setter(write, bytecode(4)));
    def.define_instance_trait(Trait::from_method(method, bytecode(5)));
    let (class, _) = define_root(&mut w, def).unwrap();
    let instance = new_instance(&mut w, class);
    let scope = class.instance_scope(&w.rt);
    let bound = |id: usize| Executable::from_method(bytecode(id), scope, Some(instance), Some(class));
    let name = |q: QName| Multiname::new(Namespace::public(), q.local_name());

    assert_eq!(class.get_super(&mut w.rt, &name(slot), instance), Ok(SuperAction::Property));
    assert_eq!(class.get_super(&mut w.rt, &name(fixed), instance), Ok(SuperAction::Property));
    assert_eq!(class.get_super(&mut w.rt, &name(both), instance), Ok(SuperAction::Invoke(bound(1))));
    assert_eq!(class.get_super(&mut w.rt, &name(read), instance), Ok(SuperAction::Invoke(bound(3))));
    assert_eq!(
        class.get_super(&mut w.rt, &name(write), instance),
        Err(Error::NotAGetter { name: Some(write.local_name()) })
    );
    let next = w.rt.objects.len();
    assert_eq!(
        class.get_super(&mut w.rt, &name(method), instance),
        Ok(SuperAction::Value(Value::Object(next)))
    );
    assert_eq!(w.rt.as_executable(next), Some(bound(5)));
    let unknown = lookup(&mut w.rt, "unknown");
    assert_eq!(
        class.get_super(&mut w.rt, &unknown, instance),
        Err(Error::SuperNotFound { name: unknown.name })
    );

    assert_eq!(class.set_super(&w.rt, &name(slot), instance), Ok(SuperAction::Property));
    assert_eq!(class.set_super(&w.rt, &name(both), instance), Ok(SuperAction::Invoke(bound(2))));
    assert_eq!(class.set_super(&w.rt, &name(write), instance), Ok(SuperAction::Invoke(bound(4))));
    assert_eq!(
        class.set_super(&w.rt, &name(read), instance),
        Err(Error::UnexpectedSuperProperty { property: Property::Virtual { get: Some(2), set: None } })
    );
    assert_eq!(
        class.set_super(&w.rt, &name(fixed), instance),
        Err(Error::UnexpectedSuperProperty { property: Property::ConstSlot { slot_id: 1 } })
    );
    assert_eq!(
        class.set_super(&w.rt, &unknown, instance),
        Err(Error::SuperNotFound { name: unknown.name })
    );
    assert_eq!(class.call_super(&w.rt, &name(slot), instance), Ok(SuperAction::Property));
    assert_eq!(class.call_super(&w.rt, &name(read), instance), Ok(SuperAction::Property));

    assert_eq!(w.rt.get_property(instance, &name(both)), Ok(PropertyRead::Invoke(bound(1))));
    assert_eq!(w.rt.set_property(instance, &name(both), Value::Null), Ok(Some(bound(2))));
    assert_eq!(
        w.rt.get_property(instance, &name(write)),
        Err(Error::WriteOnly { name: Some(write.local_name()), class: Some(class) })
    );
    assert_eq!(
        w.rt.set_property(instance, &name(read), Value::Null),
        Err(Error::ReadOnly { name: Some(read.local_name()), class: Some(class) })
    );
    assert_eq!(
        w.rt.set_property(instance, &name(fixed), Value::Null),
        Err(Error::ReadOnly { name: Some(fixed.local_name()), class: Some(class) })
    );
    assert_eq!(
        w.rt.set_property(instance, &name(method), Value::Null),
        Err(Error::AssignToMethod { name: Some(method.local_name()), class: Some(class) })
    );
    assert_eq!(w.rt.call_property(instance, &name(read)), Ok(PropertyCall::Getter(bound(3))));
    assert!(!w.rt.delete_property(instance, &name(slot)));
}

#[test]
fn a_bound_method_is_made_once_per_object() {
    let mut w = world();
    let method = public(&mut w.rt, "method");
    let mut def = plain_class(&mut w, "Base", 10);
    def.define_instance_trait(Trait::from_method(method, bytecode(5)));
    let (class, _) = define_root(&mut w, def).unwrap();
    let instance = new_instance(&mut w, class);
    let name = Multiname::new(Namespace::public(), method.local_name());
    let first = w.rt.get_property(instance, &name).unwrap();
    let count = w.rt.objects.len();
    let second = w.rt.get_property(instance, &name).unwrap();
    assert_eq!(first, second);
    assert_eq!(w.rt.objects.len(), count);
    match first {
        PropertyRead::Value(Value::Object(f)) => {
            assert_eq!(
                w.rt.as_executable(f),
                Some(Executable::from_method(bytecode(5), class.instance_scope(&w.rt), Some(instance), Some(class)))
            );
            assert_eq!(w.rt.object(instance).get_bound_method(0), Some(f));
        }
        _ => panic!("a method reads as a function object"),
    }
}

#[test]
fn interface_traits_get_public_aliases() {
    let mut w = world();
    let internal = Namespace::Namespace(w.rt.interner.intern("IShape"));
    let area_atom = w.rt.interner.intern("area");
    let name_atom = w.rt.interner.intern("describe");
    let mut ishape = plain_class(&mut w, "IShape", 10);
    ishape.is_interface = true;
    ishape.super_class = None;
    ishape.define_instance_trait(Trait::from_method(QName::new(internal, area_atom), bytecode(1)));
    let ishape_id = w.rt.add_definition(ishape);
    let mut inamed = plain_class(&mut w, "INamed", 20);
    inamed.is_interface = true;
    inamed.super_class = None;
    inamed.implements(lookup(&mut w.rt, "IShape"));
    inamed.define_instance_trait(Trait::from_method(QName::new(internal, name_atom), bytecode(2)));
    let inamed_id = w.rt.add_definition(inamed);

    let mut square = plain_class(&mut w, "Square", 30);
    square.implements(lookup(&mut w.rt, "INamed"));
    square.define_instance_trait(Trait::from_method(QName::new(internal, area_atom), bytecode(31)));
    square.define_instance_trait(Trait::from_method(QName::new(internal, name_atom), bytecode(32)));
    let (class, _) = define_root(&mut w, square).unwrap();
    assert_eq!(class.interfaces(&w.rt), &vec![inamed_id, ishape_id]);
    let table = &w.rt.vtables[class.instance_vtable(&w.rt)];
    assert_eq!(
        table.get_trait(&Multiname::new(Namespace::public(), area_atom)),
        Some(Property::Method { disp_id: 0 })
    );
    assert_eq!(
        table.get_trait(&Multiname::new(Namespace::public(), name_atom)),
        Some(Property::Method { disp_id: 1 })
    );
    assert!(class.has_class_in_chain(&w.rt, ishape_id));
    assert!(class.has_class_in_chain(&w.rt, inamed_id));
    assert!(!w.object.has_class_in_chain(&w.rt, ishape_id));

    let mut child = plain_class(&mut w, "Child", 40);
    child.super_class = Some(lookup(&mut w.rt, "Square"));
    let (child_class, _) = define(&mut w, child, Some(class)).unwrap();
    assert_eq!(child_class.interfaces(&w.rt), &vec![inamed_id, ishape_id]);
}

#[test]
fn interfaces_must_resolve_to_interfaces() {
    let mut w = world();
    let mut lost = plain_class(&mut w, "Lost", 10);
    let nowhere = lookup(&mut w.rt, "Nowhere");
    lost.implements(lookup(&mut w.rt, "Nowhere"));
    assert_eq!(
        define_root(&mut w, lost),
        Err(Error::UnresolvedClass { name: nowhere.name })
    );
    let mut wrong = plain_class(&mut w, "Wrong", 20);
    wrong.implements(lookup(&mut w.rt, "Object"));
    let object_name = lookup(&mut w.rt, "Object").name.unwrap();
    let refused = define_root(&mut w, wrong);
    assert_eq!(refused, Err(Error::NotAnInterface { name: object_name }));
    assert_eq!(refused.unwrap_err().kind(), ErrorKind::VerifyError);
    let mut orphan = plain_class(&mut w, "Orphan", 30);
    orphan.super_class = Some(lookup(&mut w.rt, "Missing"));
    let missing = lookup(&mut w.rt, "Missing");
    assert_eq!(
        define_root(&mut w, orphan),
        Err(Error::UnresolvedClass { name: missing.name })
    );
}

#[test]
fn a_sealed_prototype_cannot_be_linked() {
    let mut w = world();
    let sealed_def = plain_class(&mut w, "Sealed", 10);
    let (sealed, _) = define_root(&mut w, sealed_def).unwrap();
    let def = plain_class(&mut w, "Late", 20);
    let id = w.rt.add_definition(def);
    let proto = ScriptObject::custom_object(&mut w.rt, Some(sealed), None);
    let constructor = w.rt.names.constructor;
    assert_eq!(
        ClassObject::from_class(&mut w.rt, id, Some(w.object), w.scope, proto),
        Err(Error::InvalidWrite { name: Some(constructor), class: Some(sealed) })
    );
}

#[test]
fn calling_a_class_coerces_one_argument() {
    let mut w = world();
    let mut def = plain_class(&mut w, "Handled", 10);
    def.call_handler = Some(native(9));
    let (handled, _) = define_root(&mut w, def).unwrap();
    assert_eq!(
        handled.call(&w.rt, &vec![]),
        Ok(ClassCall::Invoke(Executable::from_method(native(9), w.scope, None, Some(handled))))
    );
    assert_eq!(w.object.call(&w.rt, &vec![Value::Integer(3)]), Ok(ClassCall::Coerce(Value::Integer(3))));
    let none = w.object.call(&w.rt, &vec![]);
    assert_eq!(none, Err(Error::ClassCoercionArity { given: 0 }));
    assert_eq!(none.unwrap_err().code(), Some(1112));
    assert_eq!(none.unwrap_err().kind(), ErrorKind::TypeError);
    assert_eq!(
        w.object.call(&w.rt, &vec![Value::Null, Value::Null]),
        Err(Error::ClassCoercionArity { given: 2 })
    );
}

#[test]
fn applying_a_type_parameter_twice_gives_the_same_class() {
    let mut w = world();
    let mut vector_def = plain_class(&mut w, "Vector", 10);
    vector_def.is_generic = true;
    let vector_id = w.rt.add_definition(vector_def);
    let proto = ScriptObject::custom_object(&mut w.rt, Some(w.object), None);
    let (vector, _) = ClassObject::from_class(&mut w.rt, vector_id, Some(w.object), w.scope, proto).unwrap();
    let star_def = plain_class(&mut w, "Vector$object", 20);
    let (star, _) = define_root(&mut w, star_def).unwrap();
    let number_def = plain_class(&mut w, "Number", 30);
    let (number, _) = define_root(&mut w, number_def).unwrap();
    let int_def = plain_class(&mut w, "int", 40);
    let (int, _) = define_root(&mut w, int_def).unwrap();
    w.rt.set_system_classes(SystemClasses {
        object: Some(w.object),
        function: None,
        class: Some(w.class),
        object_vector: Some(star),
    });
    let number_value = Value::Object(w.rt.classes[number.0].base);
    let int_value = Value::Object(w.rt.classes[int.0].base);

    assert_eq!(vector.apply(&w.rt, &vec![number_value]), Ok(Application::Unknown(Some(number))));
    let mut made = Vec::new();
    for param in [Some(number), Some(int), None] {
        let base = w.rt.definition(vector_id);
        let specialized = Class::with_type_param(base, param.map(|c| c.inner_class_definition(&w.rt)));
        let id = w.rt.add_definition(specialized);
        let proto = ScriptObject::custom_object(&mut w.rt, Some(w.object), None);
        let (class, _) = vector.specialize(&mut w.rt, param, id, w.scope, proto).unwrap();
        assert_eq!(class.as_class_params(&w.rt), Some(param));
        assert_eq!(class.superclass_object(&w.rt), Some(star));
        made.push(class);
    }
    assert_eq!(vector.apply(&w.rt, &vec![number_value]), Ok(Application::Known(made[0])));
    assert_eq!(vector.apply(&w.rt, &vec![number_value]), Ok(Application::Known(made[0])));
    assert_eq!(vector.apply(&w.rt, &vec![int_value]), Ok(Application::Known(made[1])));
    assert_eq!(vector.apply(&w.rt, &vec![Value::Null]), Ok(Application::Known(made[2])));
    assert_ne!(made[0], made[1]);
    assert_ne!(made[0], made[2]);
    assert_eq!(vector.applied(&w.rt, Some(number)), Some(made[0]));
    assert_eq!(vector.applied(&w.rt, Some(vector)), None);
    assert_eq!(vector.as_class_params(&w.rt), None);
}

#[test]
fn applying_type_parameters_is_checked() {
    let mut w = world();
    let mut vector_def = plain_class(&mut w, "Vector", 10);
    vector_def.is_generic = true;
    let (vector, _) = define_root(&mut w, vector_def).unwrap();
    let not_generic = w.object.apply(&w.rt, &vec![Value::Null]);
    assert_eq!(not_generic, Err(Error::NotGeneric));
    assert_eq!(not_generic.unwrap_err().code(), Some(1127));
    assert_eq!(not_generic.unwrap_err().kind(), ErrorKind::TypeError);
    let none = vector.apply(&w.rt, &vec![]);
    assert_eq!(none, Err(Error::TypeParameterCount { class: vector, given: 0 }));
    assert_eq!(none.unwrap_err().code(), Some(1128));
    assert_eq!(none.unwrap_err().kind(), ErrorKind::ArgumentError);
    assert_eq!(
        vector.apply(&w.rt, &vec![Value::Null, Value::Null]),
        Err(Error::TypeParameterCount { class: vector, given: 2 })
    );
    assert_eq!(vector.apply(&w.rt, &vec![Value::Integer(1)]), Err(Error::NonClassTypeParameter));
    assert_eq!(vector.apply(&w.rt, &vec![Value::Object(w.global)]), Err(Error::NonClassTypeParameter));
    assert_eq!(vector.apply(&w.rt, &vec![Value::Null]), Ok(Application::Unknown(None)));
    vector.add_application(&mut w.rt, None, w.object);
    assert_eq!(vector.apply(&w.rt, &vec![Value::Null]), Ok(Application::Known(w.object)));
}

#[test]
fn the_class_object_gets_the_traits_of_its_class_and_of_classes() {
    let mut w = world();
    let count = public(&mut w.rt, "count");
    let mut def = plain_class(&mut w, "Counter", 10);
    def.define_class_trait(Trait::from_slot(count, SlotType::Uint, Some(Value::Unsigned(4))));
    let (class, _) = define_root(&mut w, def).unwrap();
    let base = w.rt.classes[class.0].base;
    let prototype = lookup(&mut w.rt, "prototype");
    assert!(matches!(
        w.rt.vtables[class.class_vtable(&w.rt)].get_trait(&prototype),
        Some(Property::Virtual { get: Some(_), set: None })
    ));
    let name = Multiname::new(Namespace::public(), count.local_name());
    assert_eq!(w.rt.get_property(base, &name), Ok(PropertyRead::Value(Value::Unsigned(4))));
    let counter = lookup(&mut w.rt, "Counter");
    let nothing = lookup(&mut w.rt, "Nothing");
    assert_eq!(w.rt.get_class(&counter), Some(class.inner_class_definition(&w.rt)));
    assert_eq!(w.rt.get_class(&nothing), None);
    assert_eq!(class.try_inner_class_definition(&w.rt), Some(class.inner_class_definition(&w.rt)));
    assert_eq!(ClassObject(999).try_inner_class_definition(&w.rt), None);
}
