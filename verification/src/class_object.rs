//! Class objects: the runtime values of classes, and the steps that turn a
//! class definition into one.

use vstd::prelude::*;
use crate::class::Allocator;
use crate::error::Error;
use crate::fnv_map::fnv_new;
use crate::function::Executable;
use crate::method::Method;
use crate::multiname::Multiname;
use crate::namespace::Namespace;
use crate::runtime::ClassObjectData;
use crate::runtime::ClassPhase;
use crate::runtime::HeapObject;
use crate::runtime::ObjectKind;
use crate::runtime::Runtime;
use crate::scope::ScopeChain;
use crate::script_object::lemma_without;
use crate::script_object::scriptobject_allocator;
use crate::script_object::lemma_without_pushed;
use crate::object::same_fixed_state;
use crate::script_object::without;
use crate::script_object::ScriptObjectData;
use crate::value::Atom;
use crate::value::ClassId;
use crate::value::ObjectId;
use crate::value::VTableId;
use crate::value::Value;
use crate::traits::Trait;
use crate::fnv_map::fnv_get;
use crate::interfaces::collect_interfaces;
use crate::interfaces::implemented_interfaces;
use crate::qname::QName;
use crate::vtable::alias;
use crate::fnv_map::fnv_insert;
use crate::property::Property;
use crate::vtable::lemma_resolved_in_range;
use crate::vtable::resolve;
use crate::vtable::declare_all;
use crate::vtable::lemma_declare_all;
use crate::vtable::empty_view;
use crate::vtable::VTableView;
use crate::vtable::VTable;

verus! {

/// A handle to a class object of the runtime.
#[derive(Clone, Copy, Debug, PartialEq, Eq, Structural)]
pub struct ClassObject(pub usize);

/// What the interpreter does after a supercall was resolved.
#[derive(Clone, Copy, Debug, PartialEq, Eq, Structural)]
pub enum SuperAction {
    /// Run this executable, which is bound to the receiver and to the class
    /// that declared the method.
    Invoke(Executable),
    /// Go on with the property of the receiver itself.
    Property,
    /// The result is this value.
    Value(Value),
}

/// What the interpreter does after a class was called as a function.
#[derive(Clone, Copy, Debug, PartialEq, Eq, Structural)]
pub enum ClassCall {
    /// Run the class's call handler.
    Invoke(Executable),
    /// Coerce this value to the class.
    Coerce(Value),
}

/// A step of the construction of an instance.
#[derive(Clone, Copy, Debug, PartialEq, Eq, Structural)]
pub enum ConstructStep {
    /// The host's allocator of this number has to allocate the instance.
    Allocate(usize),
    /// The instance is allocated and has its slots; the initializer has to
    /// run on it, with the caller's arguments.
    Initialize { instance: ObjectId, initializer: Executable },
}

/// The outcome of looking up the application of a type parameter.
#[derive(Clone, Copy, Debug, PartialEq, Eq, Structural)]
pub enum Application {
    /// The specialization was made before.
    Known(ClassObject),
    /// No specialization for this parameter was made yet.
    Unknown(Option<ClassObject>),
}

/// Why `superclass_object` cannot be extended, if it cannot: it is final, or
/// it is an interface.
pub open spec fn extends_error(rt: &Runtime, superclass_object: Option<ClassObject>) -> Option<
    Error,
> {
    match superclass_object {
        Some(base) => if rt.definition_of(base).is_final {
            Some(Error::BaseClassFinal { name: rt.definition_of(base).name.name })
        } else if rt.definition_of(base).is_interface {
            Some(Error::BaseClassInterface { name: rt.definition_of(base).name.name })
        } else {
            None
        },
        None => None,
    }
}

/// The allocator of the instances of a class: the class's own, else the one
/// of its superclass, else the allocator of plain script objects.
pub open spec fn chosen_allocator(
    rt: &Runtime,
    class: ClassId,
    superclass_object: Option<ClassObject>,
) -> Allocator {
    match rt.definitions@[class as int].instance_allocator {
        Some(a) => a,
        None => match superclass_object {
            Some(base) => rt.classes@[base.0 as int].instance_allocator,
            None => Allocator::Script,
        },
    }
}

impl ClassObject {
    /// Allocates the class object of the definition `class`, without linking
    /// it to anything.
    ///
    /// The class object records its definition, the scope `scope` for its own
    /// traits, that scope with the class object itself as innermost scope for
    /// the traits of instances, its superclass, and the allocator of its
    /// instances. Nothing is allocated where the superclass is final or an
    /// interface.
    pub fn from_class_partial(
        rt: &mut Runtime,
        class: ClassId,
        superclass_object: Option<ClassObject>,
        scope: ScopeChain,
    ) -> (r: Result<ClassObject, Error>)
        requires
            old(rt).wf(),
            class < old(rt).definitions@.len(),
            superclass_object matches Some(s) ==> old(rt).has_class(s),
            scope.0 < old(rt).scopes@.len(),
        ensures
            final(rt).wf(),
            match extends_error(old(rt), superclass_object) {
                Some(e) => r == Err::<ClassObject, Error>(e) && *final(rt) == *old(rt),
                None => {
                    &&& r == Ok::<ClassObject, Error>(ClassObject(old(rt).classes.len()))
                    &&& final(rt).grown_from(old(rt))
                    &&& final(rt).definitions == old(rt).definitions
                    &&& final(rt).objects@.len() == old(rt).objects@.len() + 1
                    &&& final(rt).classes@.len() == old(rt).classes@.len() + 1
                    &&& final(rt).vtables@.len() == old(rt).vtables@.len() + 2
                    &&& final(rt).scopes@.len() == old(rt).scopes@.len() + 1
                    &&& Self::is_partial(
                        old(rt),
                        final(rt),
                        class,
                        superclass_object,
                        scope,
                    )
                },
            },
    {
        match superclass_object {
            Some(base) => {
                proof {
                    assert(rt.class_wf(base.0 as int));
                }
                let base_class = &rt.definitions[rt.classes[base.0].class];
                if base_class.is_final() {
                    return Err(Error::BaseClassFinal { name: base_class.name.name });
                }
                if base_class.is_interface() {
                    return Err(Error::BaseClassInterface { name: base_class.name.name });
                }
            },
            None => {},
        }
        let definition = &rt.definitions[class];
        let instance_allocator = match definition.instance_allocator {
            Some(a) => a,
            None => match superclass_object {
                Some(base) => rt.classes[base.0].instance_allocator,
                None => Allocator::Script,
            },
        };
        let constructor = definition.instance_init;
        let native_constructor = definition.native_instance_init();
        let call_handler = definition.call_handler;

        let this = ClassObject(rt.classes.len());
        let base_id = rt.objects.len();
        let instance_scope = rt.chain(scope, base_id);
        let ghost mid = *rt;
        let instance_vtable = rt.vtables.len();
        rt.vtables.push(VTable::empty());
        let class_vtable = rt.vtables.len();
        rt.vtables.push(VTable::empty());
        rt.objects.push(
            HeapObject {
                base: ScriptObjectData::custom_new(None, None, None, false),
                kind: ObjectKind::Class(this),
            },
        );
        rt.classes.push(
            ClassObjectData {
                base: base_id,
                class,
                phase: ClassPhase::Partial,
                prototype: None,
                class_scope: scope,
                instance_scope,
                superclass_object,
                instance_allocator,
                constructor,
                native_constructor,
                call_handler,
                params: None,
                applications: fnv_new(),
                null_application: None,
                interfaces: Vec::new(),
                instance_vtable,
                class_vtable,
            },
        );
        proof {
            assert(rt.grown_from(&mid));
            assert(rt.object_wf(base_id as int));
            assert(rt.class_wf(this.0 as int));
            rt.lemma_grown(&mid);
            assert(rt.grown_from(old(rt)));
        }
        Ok(this)
    }

    /// Whether `after` holds, as its newest class object, the freshly
    /// allocated class object of the definition `class`.
    pub open spec fn is_partial(
        before: &Runtime,
        after: &Runtime,
        class: ClassId,
        superclass_object: Option<ClassObject>,
        scope: ScopeChain,
    ) -> bool {
        let k = after.classes@[before.classes@.len() as int];
        let o = after.objects@[before.objects@.len() as int];
        &&& k.base == before.objects@.len()
        &&& k.class == class
        &&& k.phase == ClassPhase::Partial
        &&& k.prototype is None
        &&& k.class_scope == scope
        &&& k.instance_scope.0 == before.scopes@.len()
        &&& after.scopes@[before.scopes@.len() as int]@ == before.scopes@[scope.0 as int]@.push(k.base)
        &&& k.superclass_object == superclass_object
        &&& k.instance_allocator == chosen_allocator(before, class, superclass_object)
        &&& k.constructor == before.definitions@[class as int].instance_init
        &&& k.native_constructor == before.definitions@[class as int].spec_native_instance_init()
        &&& k.call_handler == before.definitions@[class as int].call_handler
        &&& k.params is None
        &&& k.applications@ == Map::<usize, ClassObject>::empty()
        &&& k.null_application is None
        &&& k.interfaces@.len() == 0
        &&& k.instance_vtable == before.vtables@.len()
        &&& k.class_vtable == before.vtables@.len() + 1
        &&& after.vtables@[k.instance_vtable as int]@ == empty_view()
        &&& after.vtables@[k.class_vtable as int]@ == empty_view()
        &&& o.kind == ObjectKind::Class(ClassObject(before.classes.len()))
        &&& o.base.values@ == Map::<Atom, Value>::empty()
        &&& o.base.slots@.len() == 0
        &&& o.base.enumerants@.len() == 0
        &&& o.base.bound_methods@.len() == 0
        &&& o.base.proto is None
        &&& o.base.instance_of is None
        &&& o.base.vtable is None
        &&& !o.base.sealed
    }
    /// Makes the class object an instance of `instance_of`, the class of
    /// classes, with `proto` as its prototype.
    pub fn link_type(self, rt: &mut Runtime, proto: ObjectId, instance_of: ClassObject)
        requires
            old(rt).wf(),
            old(rt).has_class(self),
            old(rt).has_class(instance_of),
            old(rt).has_object(proto),
            old(rt).classes@[self.0 as int].phase == ClassPhase::Partial,
        ensures
            final(rt).wf(),
            old(rt).same_but(final(rt), old(rt).classes@[self.0 as int].base, self),
            final(rt).classes@[self.0 as int] == (ClassObjectData {
                phase: ClassPhase::Typed,
                ..old(rt).classes@[self.0 as int]
            }),
            final(rt).objects@[old(rt).classes@[self.0 as int].base as int].kind == old(rt).objects@[old(rt).classes@[self.0 as int].base as int].kind,
            final(rt).objects@[old(rt).classes@[self.0 as int].base as int].base == (ScriptObjectData {
                instance_of: Some(instance_of),
                vtable: Some(old(rt).classes@[instance_of.0 as int].instance_vtable),
                sealed: old(rt).definition_of(instance_of).is_sealed,
                proto: Some(proto),
                ..old(rt).objects@[old(rt).classes@[self.0 as int].base as int].base
            }),
    {
        proof {
            assert(rt.class_wf(self.0 as int));
            assert(rt.class_wf(instance_of.0 as int));
        }
        let base = rt.classes[self.0].base;
        proof {
            assert(rt.object_wf(base as int));
        }
        let instance_vtable = rt.classes[instance_of.0].instance_vtable;
        let sealed = rt.definitions[rt.classes[instance_of.0].class].is_sealed;
        let object = &mut rt.objects[base];
        object.base.set_instance_of(instance_of, instance_vtable, sealed);
        object.base.set_proto(proto);
        let data = &mut rt.classes[self.0];
        data.phase = ClassPhase::Typed;
        proof {
            old(rt).lemma_changed(rt, base, self);
        }
    }
    /// Makes `class_proto` the prototype of the class's instances, and the
    /// class the `constructor` of `class_proto`, a property that enumeration
    /// passes over.
    ///
    /// Fails on a sealed `class_proto`, which then is the class's prototype
    /// all the same.
    pub fn link_prototype(self, rt: &mut Runtime, class_proto: ObjectId) -> (r: Result<(), Error>)
        requires
            old(rt).wf(),
            old(rt).has_class(self),
            old(rt).has_object(class_proto),
            old(rt).classes@[self.0 as int].phase == ClassPhase::Typed,
        ensures
            final(rt).wf(),
            old(rt).same_but(final(rt), class_proto, self),
            final(rt).objects@[class_proto as int].kind == old(rt).objects@[class_proto as int].kind,
            same_fixed_state(
                &final(rt).objects@[class_proto as int].base,
                &old(rt).objects@[class_proto as int].base,
            ),
            if old(rt).objects@[class_proto as int].base.sealed {
                &&& r == Err::<(), Error>(
                    Error::InvalidWrite {
                        name: Some(old(rt).names.constructor),
                        class: old(rt).objects@[class_proto as int].base.instance_of,
                    },
                )
                &&& final(rt).classes@[self.0 as int] == (ClassObjectData {
                    prototype: Some(class_proto),
                    ..old(rt).classes@[self.0 as int]
                })
                &&& final(rt).objects@[class_proto as int].base.values@ == old(rt).objects@[class_proto as int].base.values@
                &&& final(rt).objects@[class_proto as int].base.enumerants@ == old(rt).objects@[class_proto as int].base.enumerants@
            } else {
                &&& r is Ok
                &&& final(rt).classes@[self.0 as int] == (ClassObjectData {
                    prototype: Some(class_proto),
                    phase: ClassPhase::PrototypeLinked,
                    ..old(rt).classes@[self.0 as int]
                })
                &&& final(rt).objects@[class_proto as int].base.values@ == old(rt).objects@[class_proto as int].base.values@.insert(
                    old(rt).names.constructor,
                    Value::Object(old(rt).classes@[self.0 as int].base),
                )
                &&& final(rt).objects@[class_proto as int].base.enumerants@ == without(
                    old(rt).objects@[class_proto as int].base.enumerants@,
                    old(rt).names.constructor,
                )
            },
    {
        proof {
            assert(rt.class_wf(self.0 as int));
            assert(rt.object_wf(class_proto as int));
        }
        let base = rt.classes[self.0].base;
        let constructor = rt.names.constructor;
        let name = Multiname::new(Namespace::public(), constructor);
        assert(name.ns@[0] == Namespace::spec_public());
        assert(ScriptObjectData::dynamic_name(&name) == Some(constructor));
        self.set_prototype(rt, class_proto);
        let written = rt.set_property_local(class_proto, &name, Value::Object(base));
        match written {
            Err(e) => Err(e),
            Ok(()) => {
                rt.set_local_property_is_enumerable(class_proto, constructor, false);
                self.set_phase(rt, ClassPhase::PrototypeLinked);
                proof {
                    let before = old(rt).objects@[class_proto as int].base.enumerants@;
                    if !old(rt).objects@[class_proto as int].base.values@.contains_key(constructor) {
                        assert(!before.contains(constructor)) by {
                            if before.contains(constructor) {
                                let i = choose|i: int| 0 <= i < before.len() && before[i] == constructor;
                                assert(old(rt).objects@[class_proto as int].base.values@.contains_key(before[i]));
                            }
                        }
                        lemma_without_pushed(before, constructor);
                        lemma_without(before, constructor);
                    }
                }
                Ok(())
            },
        }
    }

    fn set_prototype(self, rt: &mut Runtime, class_proto: ObjectId)
        requires
            old(rt).wf(),
            old(rt).has_class(self),
            old(rt).has_object(class_proto),
        ensures
            final(rt).wf(),
            final(rt).objects == old(rt).objects,
            old(rt).same_but(final(rt), class_proto, self),
            final(rt).classes@[self.0 as int] == (ClassObjectData {
                prototype: Some(class_proto),
                ..old(rt).classes@[self.0 as int]
            }),
    {
        proof {
            assert(rt.class_wf(self.0 as int));
        }
        let data = &mut rt.classes[self.0];
        data.prototype = Some(class_proto);
        proof {
            old(rt).lemma_class_changed(rt, self);
        }
    }

    fn set_phase(self, rt: &mut Runtime, phase: ClassPhase)
        requires
            old(rt).wf(),
            old(rt).has_class(self),
            phase != ClassPhase::Partial,
            old(rt).objects@[old(rt).classes@[self.0 as int].base as int].base.instance_of is Some,
            phase != ClassPhase::Typed ==> old(rt).classes@[self.0 as int].prototype is Some,
        ensures
            final(rt).wf(),
            final(rt).objects == old(rt).objects,
            old(rt).same_but(final(rt), old(rt).classes@[self.0 as int].base, self),
            final(rt).classes@[self.0 as int] == (ClassObjectData {
                phase,
                ..old(rt).classes@[self.0 as int]
            }),
    {
        proof {
            assert(rt.class_wf(self.0 as int));
        }
        let data = &mut rt.classes[self.0];
        data.phase = phase;
        proof {
            old(rt).lemma_class_changed(rt, self);
        }
    }
    /// The table that `base` stands for: that table of the runtime, or the
    /// empty table.
    pub open spec fn table_view(rt: &Runtime, base: Option<VTableId>) -> VTableView {
        match base {
            Some(b) => rt.vtables@[b as int]@,
            None => empty_view(),
        }
    }

    /// Whether ids can address the slots and methods of a table that
    /// declares `traits` over `base`.
    pub open spec fn fits(base: VTableView, traits: Seq<Trait>) -> bool {
        base.slots.len() + traits.len() <= u32::MAX && base.methods.len() + traits.len() <= u32::MAX
    }

    fn derive_table(
        rt: &Runtime,
        owner: ClassObject,
        traits: &Vec<Trait>,
        scope: ScopeChain,
        base: Option<VTableId>,
    ) -> (r: Option<VTable>)
        requires
            rt.wf(),
            base matches Some(b) ==> b < rt.vtables@.len(),
        ensures
            match r {
                Some(t) => {
                    &&& Self::fits(Self::table_view(rt, base), traits@)
                    &&& t.wf()
                    &&& t@ == declare_all(Self::table_view(rt, base), owner, scope, traits@)
                },
                None => !Self::fits(Self::table_view(rt, base), traits@),
            },
    {
        let superclass_table: Option<&VTable> = match base {
            Some(b) => {
                assert(rt.vtables@[b as int].wf());
                Some(&rt.vtables[b])
            },
            None => None,
        };
        let (slots, methods): (usize, usize) = match superclass_table {
            Some(t) => (t.default_slots().len(), t.method_count()),
            None => (0, 0),
        };
        let limit: usize = 0xFFFF_FFFF;
        if traits.len() > limit || slots > limit - traits.len() || methods > limit - traits.len() {
            return None;
        }
        let mut table = VTable::empty();
        table.init_vtable(owner, traits, scope, superclass_table);
        Some(table)
    }

    /// The table of the superclass's instances, if the class has a
    /// superclass.
    pub open spec fn superclass_table(rt: &Runtime, class: ClassObject) -> Option<VTableId> {
        match rt.classes@[class.0 as int].superclass_object {
            Some(s) => Some(rt.classes@[s.0 as int].instance_vtable),
            None => None,
        }
    }

    /// The table of the instances of `class` as its definition gives it: the
    /// instance traits declared over the table of the superclass's
    /// instances.
    pub open spec fn declared_instance_table(rt: &Runtime, class: ClassObject) -> VTableView {
        declare_all(
            Self::table_view(rt, Self::superclass_table(rt, class)),
            class,
            rt.classes@[class.0 as int].instance_scope,
            rt.definition_of(class).instance_traits@,
        )
    }

    /// Builds the property table of the class's instances from the table of
    /// the superclass's instances and the instance traits of the definition.
    ///
    /// Fails, changing nothing, where the class would have more slots or
    /// methods than ids can address.
    pub fn init_instance_vtable(self, rt: &mut Runtime) -> (r: Result<(), Error>)
        requires
            old(rt).wf(),
            old(rt).has_class(self),
            old(rt).classes@[self.0 as int].phase == ClassPhase::PrototypeLinked,
        ensures
            final(rt).wf(),
            if Self::fits(
                Self::table_view(old(rt), Self::superclass_table(old(rt), self)),
                old(rt).definition_of(self).instance_traits@,
            ) {
                &&& r is Ok
                &&& old(rt).same_but_class_and_tables(final(rt), self)
                &&& final(rt).classes@[self.0 as int] == (ClassObjectData {
                    phase: ClassPhase::InstanceVtableInitialized,
                    ..old(rt).classes@[self.0 as int]
                })
                &&& forall|v: int|
                    0 <= v < old(rt).vtables@.len() && v != old(rt).classes@[self.0 as int].instance_vtable
                        ==> final(rt).vtables@[v] == old(rt).vtables@[v]
                &&& final(rt).vtables@[old(rt).classes@[self.0 as int].instance_vtable as int]@
                    == Self::declared_instance_table(old(rt), self)
            } else {
                r == Err::<(), Error>(Error::TooManyTraits) && *final(rt) == *old(rt)
            },
    {
        proof {
            assert(rt.class_wf(self.0 as int));
        }
        let data = &rt.classes[self.0];
        let base = match data.superclass_object {
            Some(s) => {
                proof {
                    assert(rt.class_wf(s.0 as int));
                }
                Some(rt.classes[s.0].instance_vtable)
            },
            None => None,
        };
        let target = data.instance_vtable;
        let table = Self::derive_table(
            rt,
            self,
            &rt.definitions[data.class].instance_traits,
            data.instance_scope,
            base,
        );
        match table {
            None => Err(Error::TooManyTraits),
            Some(table) => {
                rt.store_table(target, table);
                self.set_phase(rt, ClassPhase::InstanceVtableInitialized);
                Ok(())
            },
        }
    }
    /// Starts the class initializer, unless it was started before for the
    /// same definition: records that it was started, and returns the call
    /// that the interpreter has to make, with the class object as receiver
    /// and no arguments.
    pub fn run_class_initializer(self, rt: &mut Runtime) -> (r: Option<Executable>)
        requires
            old(rt).wf(),
            old(rt).has_class(self),
        ensures
            final(rt).wf(),
            r == Self::due_initializer(old(rt), self),
            final(rt).definition_of(self).class_initialized,
            Self::due_initializer(final(rt), self) is None,
            final(rt).interner == old(rt).interner,
            final(rt).objects == old(rt).objects,
            final(rt).classes == old(rt).classes,
            final(rt).vtables == old(rt).vtables,
            final(rt).scopes == old(rt).scopes,
            final(rt).call_stack == old(rt).call_stack,
            final(rt).system == old(rt).system,
            final(rt).names == old(rt).names,
            final(rt).definitions@.len() == old(rt).definitions@.len(),
            forall|d: int|
                0 <= d < old(rt).definitions@.len() && d != old(rt).classes@[self.0 as int].class
                    ==> final(rt).definitions@[d] == old(rt).definitions@[d],
            *final(rt).definition_of(self) == (crate::class::Class {
                class_initialized: true,
                ..*old(rt).definition_of(self)
            }),
    {
        proof {
            assert(rt.class_wf(self.0 as int));
        }
        let data = &rt.classes[self.0];
        let class = data.class;
        let scope = data.class_scope;
        let base = data.base;
        if rt.definitions[class].is_class_initialized() {
            return None;
        }
        let class_initializer = rt.definitions[class].class_init;
        let definition = &mut rt.definitions[class];
        definition.mark_class_initialized();
        proof {
            assert forall|o: int| 0 <= o < rt.objects@.len() implies #[trigger] rt.object_wf(o) by {
                assert(old(rt).object_wf(o));
                match rt.objects@[o].base.instance_of {
                    Some(ci) => {
                        assert(old(rt).class_wf(ci.0 as int));
                    },
                    None => {},
                }
            }
            assert forall|c: int| 0 <= c < rt.classes@.len() implies #[trigger] rt.class_wf(c) by {
                assert(old(rt).class_wf(c));
            }
            assert forall|v: int| 0 <= v < rt.vtables@.len() implies (#[trigger] rt.vtables@[v]).wf() by {
                assert(old(rt).vtables@[v].wf());
            }
        }
        Some(Executable::from_method(class_initializer, scope, Some(base), Some(self)))
    }

    /// The call of the class initializer of `class`: the initializer of the
    /// definition in the class's scope, bound to the class object as receiver
    /// and as defining class.
    pub open spec fn initializer_call(rt: &Runtime, class: ClassObject) -> Executable {
        Executable::spec_from_method(
            rt.definition_of(class).class_init,
            rt.classes@[class.0 as int].class_scope,
            Some(rt.classes@[class.0 as int].base),
            Some(class),
        )
    }

    /// Whether the definition `test_class` is that of `class` or of one of
    /// its superclasses.
    pub open spec fn in_superclass_chain(rt: &Runtime, class: ClassObject, test_class: ClassId) -> bool
        decreases class.0,
    {
        if class.0 >= rt.classes@.len() {
            false
        } else if rt.classes@[class.0 as int].class == test_class {
            true
        } else {
            match rt.classes@[class.0 as int].superclass_object {
                Some(s) => s.0 < class.0 && Self::in_superclass_chain(rt, s, test_class),
                None => false,
            }
        }
    }

    /// Whether the class is of the type `test_class`: whether `test_class`
    /// is the definition of the class or of one of its superclasses, or an
    /// interface that the class implements.
    pub fn has_class_in_chain(self, rt: &Runtime, test_class: ClassId) -> (r: bool)
        requires
            rt.wf(),
            rt.has_class(self),
            test_class < rt.definitions@.len(),
        ensures
            r == (Self::in_superclass_chain(rt, self, test_class) || (rt.definitions@[test_class as int].is_interface
                && rt.classes@[self.0 as int].interfaces@.contains(test_class))),
    {
        let mut my_class = Some(self);
        while my_class.is_some()
            invariant
                rt.wf(),
                my_class matches Some(c) ==> rt.has_class(c),
                Self::in_superclass_chain(rt, self, test_class) == (match my_class {
                    Some(c) => Self::in_superclass_chain(rt, c, test_class),
                    None => false,
                }),
            decreases
                    (match my_class {
                        Some(c) => c.0 + 1,
                        None => 0,
                    }),
        {
            let class = my_class.unwrap();
            proof {
                assert(rt.class_wf(class.0 as int));
            }
            if rt.classes[class.0].class == test_class {
                return true;
            }
            my_class = rt.classes[class.0].superclass_object;
        }
        if rt.definitions[test_class].is_interface() {
            let interfaces = &rt.classes[self.0].interfaces;
            let mut i: usize = 0;
            while i < interfaces.len()
                invariant
                    i <= interfaces@.len(),
                    interfaces@ == rt.classes@[self.0 as int].interfaces@,
                    test_class < rt.definitions@.len(),
                    rt.definitions@[test_class as int].is_interface,
                    !Self::in_superclass_chain(rt, self, test_class),
                    forall|j: int| 0 <= j < i ==> interfaces@[j] != test_class,
                decreases interfaces@.len() - i,
            {
                if interfaces[i] == test_class {
                    assert(interfaces@[i as int] == test_class);
                    return true;
                }
                i += 1;
            }
        }
        false
    }

    /// The call of the declared constructor: to be run with the new instance
    /// as receiver.
    pub fn call_init(self, rt: &Runtime) -> (r: Executable)
        requires
            rt.has_class(self),
        ensures
            r == Executable::spec_from_method(
                rt.classes@[self.0 as int].constructor,
                rt.classes@[self.0 as int].instance_scope,
                None,
                Some(self),
            ),
    {
        let data = &rt.classes[self.0];
        Executable::from_method(data.constructor, data.instance_scope, None, Some(self))
    }

    /// The call of the initializer that the host runs for a new instance: the
    /// native initializer where the definition has one, else the declared
    /// constructor.
    pub fn call_native_init(self, rt: &Runtime) -> (r: Executable)
        requires
            rt.has_class(self),
        ensures
            r == Executable::spec_from_method(
                rt.classes@[self.0 as int].native_constructor,
                rt.classes@[self.0 as int].instance_scope,
                None,
                Some(self),
            ),
    {
        let data = &rt.classes[self.0];
        Executable::from_method(data.native_constructor, data.instance_scope, None, Some(self))
    }

    /// What `multiname` resolves to in the table of this class's instances.
    pub open spec fn super_property(self, rt: &Runtime, multiname: &Multiname) -> Option<Property> {
        resolve(rt.instance_vtable_of(self)@.traits, multiname.ns@, multiname.name)
    }

    /// The executable for the entry `disp_id` of this class's dispatch
    /// table, bound to `receiver` and to the class that declared the method.
    pub open spec fn bound_method(self, rt: &Runtime, disp_id: u32, receiver: ObjectId) -> Executable {
        let m = rt.instance_vtable_of(self)@.methods[disp_id as int];
        Executable::spec_from_method(m.method, m.scope, Some(receiver), Some(m.class))
    }

    fn bind(self, rt: &Runtime, disp_id: u32, receiver: ObjectId) -> (r: Executable)
        requires
            rt.wf(),
            rt.has_class(self),
            disp_id < rt.instance_vtable_of(self)@.methods.len(),
        ensures
            r == self.bound_method(rt, disp_id, receiver),
    {
        proof {
            assert(rt.class_wf(self.0 as int));
        }
        let table = &rt.vtables[rt.classes[self.0].instance_vtable];
        let m = table.get_full_method(disp_id).unwrap();
        Executable::from_method(m.method, m.scope, Some(receiver), Some(m.class))
    }

    fn super_lookup(self, rt: &Runtime, multiname: &Multiname) -> (r: Option<Property>)
        requires
            rt.wf(),
            rt.has_class(self),
        ensures
            r == self.super_property(rt, multiname),
            match r {
                Some(Property::Method { disp_id }) => disp_id < rt.instance_vtable_of(self)@.methods.len(),
                Some(Property::Virtual { get, set }) => {
                    &&& get matches Some(g) ==> g < rt.instance_vtable_of(self)@.methods.len()
                    &&& set matches Some(s) ==> s < rt.instance_vtable_of(self)@.methods.len()
                },
                _ => true,
            },
    {
        proof {
            assert(rt.class_wf(self.0 as int));
            assert(rt.vtables@[rt.classes@[self.0 as int].instance_vtable as int].wf());
            lemma_resolved_in_range(rt.instance_vtable_of(self)@, multiname.ns@, multiname.name);
        }
        let table = &rt.vtables[rt.classes[self.0].instance_vtable];
        table.get_trait(multiname)
    }

    /// Resolves a supercall of the method `multiname` on `receiver`.
    ///
    /// The name is looked up in the table of this class's instances, not in
    /// that of the receiver's class: this class is the superclass of the one
    /// that defined the method that is running. A method is bound to the
    /// receiver and to the class that declared it; for any other trait the
    /// call goes on with the property of the receiver. A name that this
    /// class does not have is an error.
    pub fn call_super(self, rt: &Runtime, multiname: &Multiname, receiver: ObjectId) -> (r: Result<
        SuperAction,
        Error,
    >)
        requires
            rt.wf(),
            rt.has_class(self),
        ensures
            r == (match self.super_property(rt, multiname) {
                None => Err::<SuperAction, Error>(
                    Error::MethodNotFound { name: multiname.name, class: self },
                ),
                Some(Property::Method { disp_id }) => Ok::<SuperAction, Error>(
                    SuperAction::Invoke(self.bound_method(rt, disp_id, receiver)),
                ),
                Some(_) => Ok::<SuperAction, Error>(SuperAction::Property),
            }),
    {
        match self.super_lookup(rt, multiname) {
            None => Err(Error::MethodNotFound { name: multiname.name, class: self }),
            Some(Property::Method { disp_id }) => Ok(
                SuperAction::Invoke(self.bind(rt, disp_id, receiver)),
            ),
            Some(_) => Ok(SuperAction::Property),
        }
    }

    /// Resolves a superclass read of the property `multiname` on `receiver`.
    ///
    /// The name is looked up in the table of this class's instances. A
    /// getter is to be run, bound to the receiver and to the class that
    /// declared it; a method gives a new function object, bound in the same
    /// way; a slot is read from the receiver. An accessor without a getter
    /// and a name that this class does not have are errors.
    pub fn get_super(self, rt: &mut Runtime, multiname: &Multiname, receiver: ObjectId) -> (r:
        Result<SuperAction, Error>)
        requires
            old(rt).wf(),
            old(rt).has_class(self),
        ensures
            final(rt).wf(),
            match self.super_property(old(rt), multiname) {
                Some(Property::Virtual { get: Some(disp_id), set }) => {
                    &&& r == Ok::<SuperAction, Error>(
                        SuperAction::Invoke(self.bound_method(old(rt), disp_id, receiver)),
                    )
                    &&& *final(rt) == *old(rt)
                },
                Some(Property::Method { disp_id }) => {
                    &&& r == Ok::<SuperAction, Error>(
                        SuperAction::Value(Value::Object(old(rt).objects.len())),
                    )
                    &&& final(rt).grown_from(old(rt))
                    &&& final(rt).objects@.len() == old(rt).objects@.len() + 1
                    &&& final(rt).objects@.last().kind == ObjectKind::Function(
                        self.bound_method(old(rt), disp_id, receiver),
                    )
                    &&& final(rt).classes == old(rt).classes
                    &&& final(rt).vtables == old(rt).vtables
                    &&& final(rt).definitions == old(rt).definitions
                },
                Some(Property::Virtual { get: None, set }) => {
                    &&& r == Err::<SuperAction, Error>(Error::NotAGetter { name: multiname.name })
                    &&& *final(rt) == *old(rt)
                },
                Some(_) => r == Ok::<SuperAction, Error>(SuperAction::Property) && *final(rt) == *old(rt),
                None => {
                    &&& r == Err::<SuperAction, Error>(Error::SuperNotFound { name: multiname.name })
                    &&& *final(rt) == *old(rt)
                },
            },
    {
        match self.super_lookup(rt, multiname) {
            Some(Property::Virtual { get: Some(disp_id), set }) => Ok(
                SuperAction::Invoke(self.bind(rt, disp_id, receiver)),
            ),
            Some(Property::Method { disp_id }) => {
                let exec = self.bind(rt, disp_id, receiver);
                let callee = rt.new_function(exec);
                Ok(SuperAction::Value(Value::Object(callee)))
            },
            Some(Property::Virtual { get: None, set }) => Err(
                Error::NotAGetter { name: multiname.name },
            ),
            Some(_) => Ok(SuperAction::Property),
            None => Err(Error::SuperNotFound { name: multiname.name }),
        }
    }

    /// Resolves a superclass write of the property `multiname` on
    /// `receiver`.
    ///
    /// The name is looked up in the table of this class's instances. A
    /// setter is to be run with the value, bound to the receiver and to the
    /// class that declared it; a slot is written on the receiver. Anything
    /// else, and a name that this class does not have, is an error.
    pub fn set_super(self, rt: &Runtime, multiname: &Multiname, receiver: ObjectId) -> (r: Result<
        SuperAction,
        Error,
    >)
        requires
            rt.wf(),
            rt.has_class(self),
        ensures
            r == (match self.super_property(rt, multiname) {
                None => Err::<SuperAction, Error>(Error::SuperNotFound { name: multiname.name }),
                Some(Property::Virtual { get, set: Some(disp_id) }) => Ok::<SuperAction, Error>(
                    SuperAction::Invoke(self.bound_method(rt, disp_id, receiver)),
                ),
                Some(Property::Slot { slot_id }) => Ok::<SuperAction, Error>(SuperAction::Property),
                Some(property) => Err::<SuperAction, Error>(
                    Error::UnexpectedSuperProperty { property },
                ),
            }),
    {
        match self.super_lookup(rt, multiname) {
            None => Err(Error::SuperNotFound { name: multiname.name }),
            Some(Property::Virtual { get, set: Some(disp_id) }) => Ok(
                SuperAction::Invoke(self.bind(rt, disp_id, receiver)),
            ),
            Some(Property::Slot { slot_id }) => Ok(SuperAction::Property),
            Some(property) => Err(Error::UnexpectedSuperProperty { property }),
        }
    }

    /// Resolves a call of the class as a function: the class's call handler
    /// where it has one, else the coercion of the one argument to the
    /// class. Without a handler, any other number of arguments is an error.
    pub fn call(self, rt: &Runtime, arguments: &Vec<Value>) -> (r: Result<ClassCall, Error>)
        requires
            rt.has_class(self),
        ensures
            r == (match rt.classes@[self.0 as int].call_handler {
                Some(handler) => Ok::<ClassCall, Error>(
                    ClassCall::Invoke(
                        Executable::spec_from_method(
                            handler,
                            rt.classes@[self.0 as int].class_scope,
                            None,
                            Some(self),
                        ),
                    ),
                ),
                None => if arguments@.len() == 1 {
                    Ok::<ClassCall, Error>(ClassCall::Coerce(arguments@[0]))
                } else {
                    Err::<ClassCall, Error>(Error::ClassCoercionArity { given: arguments.len() })
                },
            }),
    {
        let data = &rt.classes[self.0];
        match data.call_handler {
            Some(handler) => Ok(
                ClassCall::Invoke(Executable::from_method(handler, data.class_scope, None, Some(self))),
            ),
            None => if arguments.len() == 1 {
                Ok(ClassCall::Coerce(arguments[0]))
            } else {
                Err(Error::ClassCoercionArity { given: arguments.len() })
            },
        }
    }

    /// Records `cls` as the specialization of this class for the type
    /// parameter `param`, in place of an earlier one.
    pub fn add_application(self, rt: &mut Runtime, param: Option<ClassObject>, cls: ClassObject)
        requires
            old(rt).wf(),
            old(rt).has_class(self),
            old(rt).has_class(cls),
        ensures
            final(rt).wf(),
            final(rt).objects == old(rt).objects,
            old(rt).same_but(final(rt), old(rt).classes@[self.0 as int].base, self),
            final(rt).classes@[self.0 as int].application(param) == Some(cls),
            forall|p: Option<ClassObject>|
                p != param ==> final(rt).classes@[self.0 as int].application(p) == old(rt).classes@[self.0 as int].application(
                    p,
                ),
            final(rt).classes@[self.0 as int] == (ClassObjectData {
                applications: final(rt).classes@[self.0 as int].applications,
                null_application: final(rt).classes@[self.0 as int].null_application,
                ..old(rt).classes@[self.0 as int]
            }),
    {
        proof {
            assert(rt.class_wf(self.0 as int));
        }
        let data = &mut rt.classes[self.0];
        match param {
            Some(c) => {
                fnv_insert(&mut data.applications, c.0, cls);
            },
            None => {
                data.null_application = Some(cls);
            },
        }
        proof {
            old(rt).lemma_class_changed(rt, self);
            assert forall|p: Option<ClassObject>| p != param implies rt.classes@[self.0 as int].application(p)
                == old(rt).classes@[self.0 as int].application(p) by {
                match (p, param) {
                    (Some(a), Some(b)) => {
                        assert(a.0 != b.0);
                    },
                    _ => {},
                }
            }
        }
    }

    /// The specialization of this class for the type parameter `param`, if
    /// it was made.
    pub fn applied(self, rt: &Runtime, param: Option<ClassObject>) -> (r: Option<ClassObject>)
        requires
            rt.has_class(self),
        ensures
            r == rt.classes@[self.0 as int].application(param),
    {
        let data = &rt.classes[self.0];
        match param {
            Some(c) => fnv_get(&data.applications, c.0),
            None => data.null_application,
        }
    }

    /// The type parameter that `value` stands for: none for `null`, the
    /// class for a class object; anything else is no type parameter.
    pub open spec fn type_parameter(rt: &Runtime, value: Value) -> Result<Option<ClassObject>, Error> {
        match value {
            Value::Null => Ok(None),
            Value::Object(o) => if o < rt.objects@.len() && rt.objects@[o as int].kind is Class {
                Ok(Some(rt.objects@[o as int].kind->Class_0))
            } else {
                Err(Error::NonClassTypeParameter)
            },
            _ => Err(Error::NonClassTypeParameter),
        }
    }

    /// Looks up the application of type parameters to this class.
    ///
    /// It is an error to apply parameters to a class that is not generic, to
    /// apply other than one parameter, and to apply a value that is neither
    /// `null` nor a class. Otherwise the specialization for the parameter is
    /// returned where it was made before; where it was not, the parameter is
    /// returned, for which `specialize` then makes the class.
    pub fn apply(self, rt: &Runtime, nullable_params: &Vec<Value>) -> (r: Result<Application, Error>)
        requires
            rt.wf(),
            rt.has_class(self),
        ensures
            r == Self::apply_result(rt, self, nullable_params@),
    {
        proof {
            assert(rt.class_wf(self.0 as int));
        }
        if !rt.definitions[rt.classes[self.0].class].is_generic() {
            return Err(Error::NotGeneric);
        }
        if nullable_params.len() != 1 {
            return Err(Error::TypeParameterCount { class: self, given: nullable_params.len() });
        }
        let object_param = match nullable_params[0] {
            Value::Null => None,
            Value::Object(o) => match rt.as_class_object(o) {
                Some(c) => Some(c),
                None => {
                    return Err(Error::NonClassTypeParameter);
                },
            },
            _ => {
                return Err(Error::NonClassTypeParameter);
            },
        };
        match self.applied(rt, object_param) {
            Some(c) => Ok(Application::Known(c)),
            None => Ok(Application::Unknown(object_param)),
        }
    }
    /// The table `v` with the public alias of the trait `t`: the local name
    /// of `t` in the public namespace resolves to what the name of `t`
    /// resolves to. A trait in the public namespace needs no alias.
    pub open spec fn alias_one(v: VTableView, t: Trait) -> VTableView {
        if t.name.ns.spec_is_public() {
            v
        } else {
            alias(v, QName { ns: Namespace::spec_public(), name: t.name.name }, t.name)
        }
    }

    /// The table `v` with the public aliases of `traits`, made in order.
    pub open spec fn alias_traits(v: VTableView, traits: Seq<Trait>) -> VTableView
        decreases traits.len(),
    {
        if traits.len() == 0 {
            v
        } else {
            Self::alias_one(Self::alias_traits(v, traits.drop_last()), traits.last())
        }
    }

    /// The table `v` with the public aliases of the instance traits of each
    /// of `interfaces`, made in order.
    pub open spec fn alias_interfaces(defs: Seq<crate::class::Class>, v: VTableView, interfaces: Seq<ClassId>) -> VTableView
        decreases interfaces.len(),
    {
        if interfaces.len() == 0 {
            v
        } else {
            Self::alias_traits(
                Self::alias_interfaces(defs, v, interfaces.drop_last()),
                defs[interfaces.last() as int].instance_traits@,
            )
        }
    }

    fn alias_trait(rt: &mut Runtime, table: VTableId, t: Trait)
        requires
            old(rt).wf(),
            table < old(rt).vtables@.len(),
        ensures
            final(rt).wf(),
            old(rt).same_but_table(final(rt), table),
            final(rt).vtables@[table as int]@ == Self::alias_one(old(rt).vtables@[table as int]@, t),
    {
        if !t.name.ns.is_public() {
            proof {
                assert(rt.vtables@[table as int].wf());
            }
            let target = &mut rt.vtables[table];
            target.copy_property_for_interface(
                QName { ns: Namespace::public(), name: t.name.name },
                t.name,
            );
            proof {
                old(rt).lemma_table_changed(rt, table);
            }
        }
    }

    fn alias_interface(rt: &mut Runtime, table: VTableId, interface: ClassId)
        requires
            old(rt).wf(),
            table < old(rt).vtables@.len(),
            interface < old(rt).definitions@.len(),
        ensures
            final(rt).wf(),
            old(rt).same_but_table(final(rt), table),
            final(rt).vtables@[table as int]@ == Self::alias_traits(
                old(rt).vtables@[table as int]@,
                old(rt).definitions@[interface as int].instance_traits@,
            ),
    {
        let ghost traits = rt.definitions@[interface as int].instance_traits@;
        let mut j: usize = 0;
        assert(traits.take(0) =~= Seq::<Trait>::empty());
        while j < rt.definitions[interface].instance_traits.len()
            invariant
                rt.wf(),
                old(rt).same_but_table(rt, table),
                table < old(rt).vtables@.len(),
                interface < old(rt).definitions@.len(),
                traits == old(rt).definitions@[interface as int].instance_traits@,
                j <= traits.len(),
                rt.vtables@[table as int]@ == Self::alias_traits(
                    old(rt).vtables@[table as int]@,
                    traits.take(j as int),
                ),
            decreases traits.len() - j,
        {
            let t = rt.definitions[interface].instance_traits[j];
            proof {
                assert(traits.take(j + 1).drop_last() =~= traits.take(j as int));
                assert(traits.take(j + 1).last() == t);
            }
            Self::alias_trait(rt, table, t);
            j += 1;
        }
        assert(traits.take(j as int) =~= traits);
    }

    fn alias_all(rt: &mut Runtime, table: VTableId, interfaces: &Vec<ClassId>)
        requires
            old(rt).wf(),
            table < old(rt).vtables@.len(),
            forall|i: int| 0 <= i < interfaces@.len() ==> #[trigger] interfaces@[i] < old(rt).definitions@.len(),
        ensures
            final(rt).wf(),
            old(rt).same_but_table(final(rt), table),
            final(rt).vtables@[table as int]@ == Self::alias_interfaces(
                old(rt).definitions@,
                old(rt).vtables@[table as int]@,
                interfaces@,
            ),
    {
        let mut i: usize = 0;
        assert(interfaces@.take(0) =~= Seq::<ClassId>::empty());
        while i < interfaces.len()
            invariant
                rt.wf(),
                old(rt).same_but_table(rt, table),
                table < old(rt).vtables@.len(),
                forall|k: int| 0 <= k < interfaces@.len() ==> #[trigger] interfaces@[k] < old(rt).definitions@.len(),
                i <= interfaces@.len(),
                rt.vtables@[table as int]@ == Self::alias_interfaces(
                    old(rt).definitions@,
                    old(rt).vtables@[table as int]@,
                    interfaces@.take(i as int),
                ),
            decreases interfaces@.len() - i,
        {
            proof {
                assert(interfaces@.take(i + 1).drop_last() =~= interfaces@.take(i as int));
                assert(interfaces@.take(i + 1).last() == interfaces@[i as int]);
            }
            Self::alias_interface(rt, table, interfaces[i]);
            i += 1;
        }
        assert(interfaces@.take(i as int) =~= interfaces@);
    }

    fn set_interfaces(self, rt: &mut Runtime, interfaces: Vec<ClassId>)
        requires
            old(rt).wf(),
            old(rt).has_class(self),
            forall|i: int| 0 <= i < interfaces@.len() ==> #[trigger] interfaces@[i] < old(rt).definitions@.len(),
        ensures
            final(rt).wf(),
            final(rt).objects == old(rt).objects,
            old(rt).same_but(final(rt), old(rt).classes@[self.0 as int].base, self),
            final(rt).classes@[self.0 as int] == (ClassObjectData {
                interfaces,
                ..old(rt).classes@[self.0 as int]
            }),
    {
        proof {
            assert(rt.class_wf(self.0 as int));
        }
        let data = &mut rt.classes[self.0];
        data.interfaces = interfaces;
        proof {
            old(rt).lemma_class_changed(rt, self);
        }
    }

    /// Links the class to its interfaces.
    ///
    /// The class records every interface that it implements, and in the
    /// table of its instances every trait of these interfaces that is not in
    /// the public namespace gets a public alias: the trait's local name in
    /// the public namespace resolves to what the trait's own name resolves
    /// to. This is done for all the interfaces of the class, those of its
    /// superclasses included. It fails, changing nothing, where the name of
    /// an interface or of a superclass resolves to no definition, or the
    /// name of an interface to a definition that is no interface.
    pub fn link_interfaces(self, rt: &mut Runtime) -> (r: Result<(), Error>)
        requires
            old(rt).wf(),
            old(rt).has_class(self),
        ensures
            final(rt).wf(),
            match implemented_interfaces(old(rt).definitions@, old(rt).classes@[self.0 as int].class) {
                Err(e) => r == Err::<(), Error>(e) && *final(rt) == *old(rt),
                Ok(interfaces) => {
                    &&& r is Ok
                    &&& old(rt).same_but_class_and_tables(final(rt), self)
                    &&& final(rt).classes@[self.0 as int].interfaces@ == interfaces
                    &&& final(rt).classes@[self.0 as int] == (ClassObjectData {
                        interfaces: final(rt).classes@[self.0 as int].interfaces,
                        ..old(rt).classes@[self.0 as int]
                    })
                    &&& forall|v: int|
                        0 <= v < old(rt).vtables@.len() && v != old(rt).classes@[self.0 as int].instance_vtable
                            ==> final(rt).vtables@[v] == old(rt).vtables@[v]
                    &&& final(rt).vtables@[old(rt).classes@[self.0 as int].instance_vtable as int]@
                        == Self::alias_interfaces(
                        old(rt).definitions@,
                        old(rt).instance_vtable_of(self)@,
                        interfaces,
                    )
                },
            },
    {
        proof {
            assert(rt.class_wf(self.0 as int));
        }
        let class = rt.classes[self.0].class;
        let table = rt.classes[self.0].instance_vtable;
        match collect_interfaces(rt, class) {
            Err(e) => Err(e),
            Ok(interfaces) => {
                Self::alias_all(rt, table, &interfaces);
                self.set_interfaces(rt, interfaces);
                Ok(())
            },
        }
    }
    /// The table of the instances of the class's type, the class of classes.
    pub open spec fn type_table(rt: &Runtime, class: ClassObject) -> Option<VTableId> {
        match rt.objects@[rt.classes@[class.0 as int].base as int].base.instance_of {
            Some(t) => Some(rt.classes@[t.0 as int].instance_vtable),
            None => None,
        }
    }

    /// The table of the class object itself as its definition gives it: the
    /// class traits declared over the table of the instances of the class of
    /// classes.
    pub open spec fn declared_class_table(rt: &Runtime, class: ClassObject) -> VTableView {
        declare_all(
            Self::table_view(rt, Self::type_table(rt, class)),
            class,
            rt.classes@[class.0 as int].class_scope,
            rt.definition_of(class).class_traits@,
        )
    }

    fn init_class_vtable(self, rt: &mut Runtime) -> (r: Result<(), Error>)
        requires
            old(rt).wf(),
            old(rt).has_class(self),
            old(rt).classes@[self.0 as int].phase != ClassPhase::Partial,
        ensures
            final(rt).wf(),
            if Self::fits(
                Self::table_view(old(rt), Self::type_table(old(rt), self)),
                old(rt).definition_of(self).class_traits@,
            ) {
                &&& r is Ok
                &&& old(rt).same_but_table(final(rt), old(rt).classes@[self.0 as int].class_vtable)
                &&& final(rt).vtables@[old(rt).classes@[self.0 as int].class_vtable as int]@
                    == Self::declared_class_table(old(rt), self)
            } else {
                r == Err::<(), Error>(Error::TooManyTraits) && *final(rt) == *old(rt)
            },
    {
        proof {
            assert(rt.class_wf(self.0 as int));
            assert(rt.object_wf(rt.classes@[self.0 as int].base as int));
        }
        let data = &rt.classes[self.0];
        let base = match rt.objects[data.base].base.instance_of {
            Some(t) => {
                proof {
                    assert(rt.class_wf(t.0 as int));
                }
                Some(rt.classes[t.0].instance_vtable)
            },
            None => None,
        };
        let target = data.class_vtable;
        let table = Self::derive_table(
            rt,
            self,
            &rt.definitions[data.class].class_traits,
            data.class_scope,
            base,
        );
        match table {
            None => Err(Error::TooManyTraits),
            Some(table) => {
                rt.store_table(target, table);
                Ok(())
            },
        }
    }

    /// Gives the class object its own property table and the slots of that
    /// table.
    fn install_class_vtable_and_slots(self, rt: &mut Runtime)
        requires
            old(rt).wf(),
            old(rt).has_class(self),
        ensures
            final(rt).wf(),
            old(rt).same_but_object(final(rt), old(rt).classes@[self.0 as int].base),
            final(rt).objects@[old(rt).classes@[self.0 as int].base as int].base == (ScriptObjectData {
                vtable: Some(old(rt).classes@[self.0 as int].class_vtable),
                slots: final(rt).objects@[old(rt).classes@[self.0 as int].base as int].base.slots,
                ..old(rt).objects@[old(rt).classes@[self.0 as int].base as int].base
            }),
            final(rt).objects@[old(rt).classes@[self.0 as int].base as int].base.slots@ == old(rt).objects@[old(rt).classes@[self.0 as int].base as int].base.slots@
                + old(rt).vtables@[old(rt).classes@[self.0 as int].class_vtable as int]@.slots,
    {
        proof {
            assert(rt.class_wf(self.0 as int));
            assert(rt.object_wf(rt.classes@[self.0 as int].base as int));
        }
        let base = rt.classes[self.0].base;
        let class_vtable = rt.classes[self.0].class_vtable;
        let table = &rt.vtables[class_vtable];
        let object = &mut rt.objects[base];
        object.base.set_vtable(class_vtable);
        object.base.install_instance_slots(table);
        proof {
            old(rt).lemma_object_changed(rt, base);
        }
    }

    /// Whether `after` is `before` with the class `class` finished: the
    /// class object has its own table, built from the class traits, and the
    /// slots of that table; it has recorded `interfaces`, and the table of its
    /// instances has their public aliases; the initializer of its definition
    /// counts as started.
    pub open spec fn finished(
        before: &Runtime,
        after: &Runtime,
        class: ClassObject,
        interfaces: Seq<ClassId>,
    ) -> bool {
        let k = before.classes@[class.0 as int];
        &&& after.interner == before.interner
        &&& after.scopes == before.scopes
        &&& after.call_stack == before.call_stack
        &&& after.system == before.system
        &&& after.names == before.names
        &&& after.objects@.len() == before.objects@.len()
        &&& after.classes@.len() == before.classes@.len()
        &&& after.vtables@.len() == before.vtables@.len()
        &&& after.definitions@.len() == before.definitions@.len()
        &&& forall|i: int|
            0 <= i < before.objects@.len() && i != k.base ==> after.objects@[i] == before.objects@[i]
        &&& forall|j: int|
            0 <= j < before.classes@.len() && j != class.0 ==> after.classes@[j] == before.classes@[j]
        &&& forall|v: int|
            0 <= v < before.vtables@.len() && v != k.instance_vtable && v != k.class_vtable
                ==> after.vtables@[v] == before.vtables@[v]
        &&& forall|d: int|
            0 <= d < before.definitions@.len() && d != k.class ==> after.definitions@[d] == before.definitions@[d]
        &&& after.definitions@[k.class as int] == (crate::class::Class {
            class_initialized: true,
            ..before.definitions@[k.class as int]
        })
        &&& after.classes@[class.0 as int] == (ClassObjectData {
            phase: ClassPhase::Finished,
            interfaces: after.classes@[class.0 as int].interfaces,
            ..k
        })
        &&& after.classes@[class.0 as int].interfaces@ == interfaces
        &&& after.vtables@[k.class_vtable as int]@ == Self::declared_class_table(before, class)
        &&& after.vtables@[k.instance_vtable as int]@ == Self::alias_interfaces(
            before.definitions@,
            before.instance_vtable_of(class)@,
            interfaces,
        )
        &&& after.objects@[k.base as int].kind == before.objects@[k.base as int].kind
        &&& after.objects@[k.base as int].base == (ScriptObjectData {
            vtable: Some(k.class_vtable),
            slots: after.objects@[k.base as int].base.slots,
            ..before.objects@[k.base as int].base
        })
        &&& after.objects@[k.base as int].base.slots@ == before.objects@[k.base as int].base.slots@
            + Self::declared_class_table(before, class).slots
    }

    /// Why the class cannot be finished, if it cannot: it has more class
    /// traits than ids can address, or its interfaces cannot be resolved.
    pub open spec fn finish_error(rt: &Runtime, class: ClassObject) -> Option<Error> {
        if !Self::fits(
            Self::table_view(rt, Self::type_table(rt, class)),
            rt.definition_of(class).class_traits@,
        ) {
            Some(Error::TooManyTraits)
        } else {
            match implemented_interfaces(rt.definitions@, rt.classes@[class.0 as int].class) {
                Err(e) => Some(e),
                Ok(_) => None,
            }
        }
    }

    /// Finishes the class: builds the table of the class object itself,
    /// links the interfaces, gives the class object its table and slots, and
    /// starts the class initializer unless it was started before for the same
    /// definition.
    ///
    /// Returns the call of the class initializer that the interpreter has to
    /// make, if any. Where this fails, the class stays unfinished; the
    /// initializer is not started.
    pub fn into_finished_class(self, rt: &mut Runtime) -> (r: Result<Option<Executable>, Error>)
        requires
            old(rt).wf(),
            old(rt).has_class(self),
            old(rt).classes@[self.0 as int].phase == ClassPhase::InstanceVtableInitialized,
        ensures
            final(rt).wf(),
            match Self::finish_error(old(rt), self) {
                Some(e) => {
                    &&& r == Err::<Option<Executable>, Error>(e)
                    &&& final(rt).classes == old(rt).classes
                    &&& final(rt).objects == old(rt).objects
                    &&& final(rt).definitions == old(rt).definitions
                    &&& old(rt).same_but_table(final(rt), old(rt).classes@[self.0 as int].class_vtable)
                },
                None => {
                    &&& r == Ok::<Option<Executable>, Error>(
                        if old(rt).definition_of(self).class_initialized {
                            None
                        } else {
                            Some(Self::initializer_call(old(rt), self))
                        },
                    )
                    &&& Self::finished(
                        old(rt),
                        final(rt),
                        self,
                        implemented_interfaces(
                            old(rt).definitions@,
                            old(rt).classes@[self.0 as int].class,
                        )->Ok_0,
                    )
                },
            },
    {
        proof {
            assert(rt.class_wf(self.0 as int));
        }
        match self.init_class_vtable(rt) {
            Err(e) => {
                return Err(e);
            },
            Ok(()) => {},
        }
        proof {
            assert(rt.class_wf(self.0 as int));
        }
        match self.link_interfaces(rt) {
            Err(e) => {
                return Err(e);
            },
            Ok(()) => {},
        }
        self.install_class_vtable_and_slots(rt);
        proof {
            assert(rt.class_wf(self.0 as int));
        }
        let initializer = self.run_class_initializer(rt);
        proof {
            assert(rt.class_wf(self.0 as int));
        }
        self.set_phase(rt, ClassPhase::Finished);
        Ok(initializer)
    }
    /// The state of a new instance of `class` once it has its slots.
    pub open spec fn is_new_instance(rt: &Runtime, class: ClassObject, object: &HeapObject) -> bool {
        &&& object.kind == ObjectKind::Script
        &&& object.base.instance_of == Some(class)
        &&& object.base.proto == rt.classes@[class.0 as int].prototype
        &&& object.base.vtable == Some(rt.classes@[class.0 as int].instance_vtable)
        &&& object.base.sealed == rt.definition_of(class).is_sealed
        &&& object.base.values@ == Map::<Atom, Value>::empty()
        &&& object.base.enumerants@.len() == 0
        &&& object.base.bound_methods@.len() == 0
        &&& object.base.slots@ == rt.instance_vtable_of(class)@.slots
    }

    /// The initializer of a new instance: the native initializer where the
    /// definition has one, else the declared constructor, in the scope of
    /// instances and with this class as defining class.
    pub open spec fn instance_initializer(rt: &Runtime, class: ClassObject) -> Executable {
        Executable::spec_from_method(
            rt.classes@[class.0 as int].native_constructor,
            rt.classes@[class.0 as int].instance_scope,
            None,
            Some(class),
        )
    }

    /// Starts the construction of an instance.
    ///
    /// A class with the allocator of plain script objects gets a new
    /// instance, which has the initial values of the instance table as its
    /// slots; the interpreter then runs the returned initializer on it with
    /// the caller's arguments. For a class with an allocator of the host,
    /// nothing is allocated: the host allocates, and `construct_allocated`
    /// goes on.
    pub fn construct(self, rt: &mut Runtime) -> (r: ConstructStep)
        requires
            old(rt).wf(),
            old(rt).has_class(self),
            old(rt).classes@[self.0 as int].phase == ClassPhase::Finished,
        ensures
            final(rt).wf(),
            match old(rt).classes@[self.0 as int].instance_allocator {
                Allocator::Custom(n) => r == ConstructStep::Allocate(n) && *final(rt) == *old(rt),
                Allocator::Script => {
                    &&& r == (ConstructStep::Initialize {
                        instance: old(rt).objects.len(),
                        initializer: Self::instance_initializer(old(rt), self),
                    })
                    &&& final(rt).grown_from(old(rt))
                    &&& final(rt).objects@.len() == old(rt).objects@.len() + 1
                    &&& final(rt).classes == old(rt).classes
                    &&& final(rt).vtables == old(rt).vtables
                    &&& final(rt).definitions == old(rt).definitions
                    &&& final(rt).scopes == old(rt).scopes
                    &&& Self::is_new_instance(old(rt), self, &final(rt).objects@.last())
                },
            },
    {
        match rt.classes[self.0].instance_allocator {
            Allocator::Custom(n) => ConstructStep::Allocate(n),
            Allocator::Script => {
                proof {
                    assert(rt.class_wf(self.0 as int));
                }
                let instance = scriptobject_allocator(self, rt);
                let ghost allocated = *rt;
                rt.install_instance_slots(instance);
                proof {
                    assert(allocated.objects@[instance as int].base.slots@ =~= Seq::<Value>::empty());
                    assert(Seq::<Value>::empty() + rt.instance_vtable_of(self)@.slots =~= rt.instance_vtable_of(self)@.slots);
                    assert(rt.objects@.last() == rt.objects@[instance as int]);
                    assert(old(rt).objects@.is_prefix_of(rt.objects@));
                }
                ConstructStep::Initialize { instance, initializer: self.call_native_init(rt) }
            },
        }
    }

    /// Goes on with the construction of an instance that an allocator of the
    /// host has allocated: the instance gets the initial values of its
    /// property table as further slots, and the interpreter then runs the
    /// returned initializer on it with the caller's arguments.
    pub fn construct_allocated(self, rt: &mut Runtime, instance: ObjectId) -> (r: ConstructStep)
        requires
            old(rt).wf(),
            old(rt).has_class(self),
            old(rt).has_object(instance),
            old(rt).classes@[self.0 as int].phase == ClassPhase::Finished,
        ensures
            final(rt).wf(),
            r == (ConstructStep::Initialize {
                instance,
                initializer: Self::instance_initializer(old(rt), self),
            }),
            old(rt).same_but_object(final(rt), instance),
            final(rt).objects@[instance as int].base == (ScriptObjectData {
                slots: final(rt).objects@[instance as int].base.slots,
                ..old(rt).objects@[instance as int].base
            }),
            final(rt).objects@[instance as int].base.slots@ == old(rt).objects@[instance as int].base.slots@ + (match old(rt).objects@[instance as int].base.vtable {
                Some(v) => old(rt).vtables@[v as int]@.slots,
                None => Seq::<Value>::empty(),
            }),
    {
        rt.install_instance_slots(instance);
        ConstructStep::Initialize { instance, initializer: self.call_native_init(rt) }
    }

    /// The declared constructor.
    pub fn constructor(self, rt: &Runtime) -> (r: Method)
        requires
            rt.has_class(self),
        ensures
            r == rt.classes@[self.0 as int].constructor,
    {
        rt.classes[self.0].constructor
    }

    /// The property table of the class's instances.
    pub fn instance_vtable(self, rt: &Runtime) -> (r: VTableId)
        requires
            rt.has_class(self),
        ensures
            r == rt.classes@[self.0 as int].instance_vtable,
    {
        rt.classes[self.0].instance_vtable
    }

    /// The property table of the class object itself.
    pub fn class_vtable(self, rt: &Runtime) -> (r: VTableId)
        requires
            rt.has_class(self),
        ensures
            r == rt.classes@[self.0 as int].class_vtable,
    {
        rt.classes[self.0].class_vtable
    }

    /// The definition of the class.
    pub fn inner_class_definition(self, rt: &Runtime) -> (r: ClassId)
        requires
            rt.has_class(self),
        ensures
            r == rt.classes@[self.0 as int].class,
    {
        rt.classes[self.0].class
    }

    /// The definition of the class, if this is a class object of `rt`.
    pub fn try_inner_class_definition(self, rt: &Runtime) -> (r: Option<ClassId>)
        ensures
            r == (if rt.has_class(self) {
                Some(rt.classes@[self.0 as int].class)
            } else {
                None
            }),
    {
        if self.0 < rt.classes.len() {
            Some(rt.classes[self.0].class)
        } else {
            None
        }
    }

    /// The prototype of the class's instances.
    pub fn prototype(self, rt: &Runtime) -> (r: ObjectId)
        requires
            rt.has_class(self),
            rt.classes@[self.0 as int].prototype is Some,
        ensures
            Some(r) == rt.classes@[self.0 as int].prototype,
    {
        rt.classes[self.0].prototype.unwrap()
    }

    /// Every interface that the class implements.
    pub fn interfaces(self, rt: &Runtime) -> (r: &Vec<ClassId>)
        requires
            rt.has_class(self),
        ensures
            *r == rt.classes@[self.0 as int].interfaces,
    {
        &rt.classes[self.0].interfaces
    }

    /// The scope that the class's own traits capture.
    pub fn class_scope(self, rt: &Runtime) -> (r: ScopeChain)
        requires
            rt.has_class(self),
        ensures
            r == rt.classes@[self.0 as int].class_scope,
    {
        rt.classes[self.0].class_scope
    }

    /// The scope that the traits of instances capture.
    pub fn instance_scope(self, rt: &Runtime) -> (r: ScopeChain)
        requires
            rt.has_class(self),
        ensures
            r == rt.classes@[self.0 as int].instance_scope,
    {
        rt.classes[self.0].instance_scope
    }

    /// The superclass, if the class has one.
    pub fn superclass_object(self, rt: &Runtime) -> (r: Option<ClassObject>)
        requires
            rt.has_class(self),
        ensures
            r == rt.classes@[self.0 as int].superclass_object,
    {
        rt.classes[self.0].superclass_object
    }

    /// How far the construction of the class has come.
    pub fn phase(self, rt: &Runtime) -> (r: ClassPhase)
        requires
            rt.has_class(self),
        ensures
            r == rt.classes@[self.0 as int].phase,
    {
        rt.classes[self.0].phase
    }

    /// The allocator of the class's instances.
    pub fn instance_allocator(self, rt: &Runtime) -> (r: Option<Allocator>)
        requires
            rt.has_class(self),
        ensures
            r == Some(rt.classes@[self.0 as int].instance_allocator),
    {
        Some(rt.classes[self.0].instance_allocator)
    }

    /// The type parameter of the class, if it is a specialization.
    pub fn as_class_params(self, rt: &Runtime) -> (r: Option<Option<ClassObject>>)
        requires
            rt.has_class(self),
        ensures
            r == rt.classes@[self.0 as int].params,
    {
        rt.classes[self.0].params
    }

    /// Sets the type parameter of the class.
    pub fn set_param(self, rt: &mut Runtime, param: Option<Option<ClassObject>>)
        requires
            old(rt).wf(),
            old(rt).has_class(self),
        ensures
            final(rt).wf(),
            final(rt).objects == old(rt).objects,
            old(rt).same_but(final(rt), old(rt).classes@[self.0 as int].base, self),
            final(rt).classes@[self.0 as int] == (ClassObjectData {
                params: param,
                ..old(rt).classes@[self.0 as int]
            }),
    {
        proof {
            assert(rt.class_wf(self.0 as int));
        }
        let data = &mut rt.classes[self.0];
        data.params = param;
        proof {
            old(rt).lemma_class_changed(rt, self);
        }
    }
    /// Chains the new prototype `proto` to the prototype of the superclass,
    /// if there is a superclass.
    fn allocate_prototype(rt: &mut Runtime, superclass_object: Option<ClassObject>, proto: ObjectId)
        requires
            old(rt).wf(),
            old(rt).has_object(proto),
            superclass_object matches Some(s) ==> old(rt).has_class(s) && old(rt).classes@[s.0 as int].prototype is Some,
        ensures
            final(rt).wf(),
            old(rt).same_but_object(final(rt), proto),
            final(rt).objects@[proto as int].base == (ScriptObjectData {
                proto: match superclass_object {
                    Some(s) => old(rt).classes@[s.0 as int].prototype,
                    None => old(rt).objects@[proto as int].base.proto,
                },
                ..old(rt).objects@[proto as int].base
            }),
    {
        match superclass_object {
            Some(s) => {
                proof {
                    assert(rt.class_wf(s.0 as int));
                }
                let base_proto = s.prototype(rt);
                rt.set_proto(proto, base_proto);
            },
            None => {},
        }
    }

    /// Why the class of the definition `class` cannot be made, if it cannot.
    ///
    /// In this order: the superclass is final or an interface; the prototype
    /// is sealed; the class has more instance traits, or more class traits,
    /// than ids can address; its interfaces cannot be resolved.
    pub open spec fn from_class_error(
        rt: &Runtime,
        class: ClassId,
        superclass_object: Option<ClassObject>,
        class_proto: ObjectId,
    ) -> Option<Error> {
        let super_table = match superclass_object {
            Some(s) => Some(rt.classes@[s.0 as int].instance_vtable),
            None => None,
        };
        let class_class = rt.system.class->0;
        let type_table = Some(rt.classes@[class_class.0 as int].instance_vtable);
        if extends_error(rt, superclass_object) is Some {
            extends_error(rt, superclass_object)
        } else if rt.objects@[class_proto as int].base.sealed {
            Some(
                Error::InvalidWrite {
                    name: Some(rt.names.constructor),
                    class: rt.objects@[class_proto as int].base.instance_of,
                },
            )
        } else if !Self::fits(
            Self::table_view(rt, super_table),
            rt.definitions@[class as int].instance_traits@,
        ) {
            Some(Error::TooManyTraits)
        } else if !Self::fits(
            Self::table_view(rt, type_table),
            rt.definitions@[class as int].class_traits@,
        ) {
            Some(Error::TooManyTraits)
        } else {
            match implemented_interfaces(rt.definitions@, class) {
                Err(e) => Some(e),
                Ok(_) => None,
            }
        }
    }

    /// Whether `after` is `before` with the finished class object of the
    /// definition `class` as its newest class object.
    pub open spec fn is_from_class(
        before: &Runtime,
        after: &Runtime,
        class: ClassId,
        superclass_object: Option<ClassObject>,
        scope: ScopeChain,
        class_proto: ObjectId,
    ) -> bool {
        let c = ClassObject(before.classes.len());
        let k = after.classes@[c.0 as int];
        let super_table = match superclass_object {
            Some(s) => Some(before.classes@[s.0 as int].instance_vtable),
            None => None,
        };
        &&& after.classes@.len() == before.classes@.len() + 1
        &&& after.objects@.len() == before.objects@.len() + 1
        &&& before.classes@.is_prefix_of(after.classes@)
        &&& before.vtables@.is_prefix_of(after.vtables@)
        &&& forall|i: int|
            0 <= i < before.objects@.len() && i != class_proto ==> after.objects@[i] == before.objects@[i]
        &&& k.phase == ClassPhase::Finished
        &&& k.class == class
        &&& k.base == before.objects@.len()
        &&& k.superclass_object == superclass_object
        &&& k.prototype == Some(class_proto)
        &&& k.class_scope == scope
        &&& k.instance_allocator == chosen_allocator(before, class, superclass_object)
        &&& k.params is None
        &&& implemented_interfaces(before.definitions@, class) == Ok::<Seq<ClassId>, Error>(
            k.interfaces@,
        )
        &&& after.vtables@[k.instance_vtable as int]@ == Self::alias_interfaces(
            before.definitions@,
            declare_all(
                Self::table_view(before, super_table),
                c,
                k.instance_scope,
                before.definitions@[class as int].instance_traits@,
            ),
            k.interfaces@,
        )
        &&& after.objects@[class_proto as int].kind == before.objects@[class_proto as int].kind
        &&& after.objects@[class_proto as int].base.proto == (match superclass_object {
            Some(s) => before.classes@[s.0 as int].prototype,
            None => before.objects@[class_proto as int].base.proto,
        })
        &&& after.objects@[class_proto as int].base.values@ == before.objects@[class_proto as int].base.values@.insert(
            before.names.constructor,
            Value::Object(k.base),
        )
        &&& after.objects@[class_proto as int].base.slots == before.objects@[class_proto as int].base.slots
        &&& after.objects@[k.base as int].kind == ObjectKind::Class(c)
        &&& after.objects@[k.base as int].base.instance_of == before.system.class
        &&& after.definitions@.len() == before.definitions@.len()
        &&& forall|d: int|
            0 <= d < before.definitions@.len() && d != class ==> after.definitions@[d] == before.definitions@[d]
        &&& after.definitions@[class as int] == (crate::class::Class {
            class_initialized: true,
            ..before.definitions@[class as int]
        })
    }

    /// Makes the class object of the definition `class`, from allocation to
    /// the finished class.
    ///
    /// `class_proto` is a new plain object, which becomes the prototype of
    /// the class's instances. The class object is allocated, linked to the
    /// class of classes and to its prototype, which is chained to the
    /// prototype of the superclass; then the table of its instances is
    /// built and the class is finished. Returned are the class object and
    /// the call of the class initializer that the interpreter has to make,
    /// if any. Where a step fails, the steps before it stay done.
    pub fn from_class(
        rt: &mut Runtime,
        class: ClassId,
        superclass_object: Option<ClassObject>,
        scope: ScopeChain,
        class_proto: ObjectId,
    ) -> (r: Result<(ClassObject, Option<Executable>), Error>)
        requires
            old(rt).wf(),
            class < old(rt).definitions@.len(),
            superclass_object matches Some(s) ==> old(rt).has_class(s) && old(rt).classes@[s.0 as int].prototype is Some,
            scope.0 < old(rt).scopes@.len(),
            old(rt).has_object(class_proto),
            old(rt).system.class matches Some(cc) && old(rt).classes@[cc.0 as int].prototype is Some,
        ensures
            final(rt).wf(),
            old(rt).classes@.is_prefix_of(final(rt).classes@),
            old(rt).objects@.len() <= final(rt).objects@.len(),
            forall|i: int|
                0 <= i < old(rt).objects@.len() ==> (#[trigger] final(rt).objects@[i]).kind == old(rt).objects@[i].kind,
            final(rt).system == old(rt).system,
            match Self::from_class_error(old(rt), class, superclass_object, class_proto) {
                Some(e) => r == Err::<(ClassObject, Option<Executable>), Error>(e),
                None => {
                    &&& r == Ok::<(ClassObject, Option<Executable>), Error>(
                        (
                            ClassObject(old(rt).classes.len()),
                            if old(rt).definitions@[class as int].class_initialized {
                                None
                            } else {
                                Some(
                                    Executable::spec_from_method(
                                        old(rt).definitions@[class as int].class_init,
                                        scope,
                                        Some(old(rt).objects.len()),
                                        Some(ClassObject(old(rt).classes.len())),
                                    ),
                                )
                            },
                        ),
                    )
                    &&& Self::is_from_class(
                        old(rt),
                        final(rt),
                        class,
                        superclass_object,
                        scope,
                        class_proto,
                    )
                },
            },
    {
        let class_class = rt.system.class.unwrap();
        proof {
            assert(rt.class_wf(class_class.0 as int));
        }
        let class_class_proto = class_class.prototype(rt);
        let class_object = match Self::from_class_partial(rt, class, superclass_object, scope) {
            Err(e) => {
                return Err(e);
            },
            Ok(c) => c,
        };
        let ghost s1 = *rt;
        proof {
            assert(s1.classes@[class_class.0 as int] == old(rt).classes@[class_class.0 as int]);
            assert(s1.objects@[class_proto as int] == old(rt).objects@[class_proto as int]);
            assert(s1.objects@[class_class_proto as int] == old(rt).objects@[class_class_proto as int]);
            match superclass_object {
                Some(s) => {
                    assert(s1.classes@[s.0 as int] == old(rt).classes@[s.0 as int]);
                    assert(old(rt).class_wf(s.0 as int));
                    assert(s1.vtables@[old(rt).classes@[s.0 as int].instance_vtable as int] == old(rt).vtables@[old(rt).classes@[s.0 as int].instance_vtable as int]);
                },
                None => {},
            }
            assert(s1.vtables@[old(rt).classes@[class_class.0 as int].instance_vtable as int] == old(rt).vtables@[old(rt).classes@[class_class.0 as int].instance_vtable as int]);
        }
        let ghost base = old(rt).objects.len();
        proof {
            assert(class_object.0 == old(rt).classes.len());
            assert(s1.classes@[class_object.0 as int].phase == ClassPhase::Partial);
            assert(s1.classes@[class_object.0 as int].base == base);
            assert(base != class_proto);
        }
        class_object.link_type(rt, class_class_proto, class_class);
        let ghost s2 = *rt;
        proof {
            assert(s2.objects@[class_proto as int] == old(rt).objects@[class_proto as int]);
            match superclass_object {
                Some(s) => {
                    assert(s2.classes@[s.0 as int] == old(rt).classes@[s.0 as int]);
                },
                None => {},
            }
        }
        Self::allocate_prototype(rt, superclass_object, class_proto);
        let ghost s3 = *rt;
        proof {
            assert(s3.classes@[class_object.0 as int].phase == ClassPhase::Typed);
            assert(s3.objects@[class_proto as int].base.sealed == old(rt).objects@[class_proto as int].base.sealed);
        }
        match class_object.link_prototype(rt, class_proto) {
            Err(e) => {
                return Err(e);
            },
            Ok(()) => {},
        }
        let ghost s4 = *rt;
        proof {
            assert(s4.classes@[class_object.0 as int].phase == ClassPhase::PrototypeLinked);
            assert(s4.vtables == s1.vtables);
            assert(s4.definitions == old(rt).definitions);
            assert(s4.classes@[class_object.0 as int].superclass_object == superclass_object);
            match superclass_object {
                Some(s) => {
                    assert(s4.classes@[s.0 as int] == old(rt).classes@[s.0 as int]);
                },
                None => {},
            }
            assert(Self::table_view(&s4, Self::superclass_table(&s4, class_object)) == Self::table_view(
                old(rt),
                match superclass_object {
                    Some(s) => Some(old(rt).classes@[s.0 as int].instance_vtable),
                    None => None,
                },
            ));
        }
        match class_object.init_instance_vtable(rt) {
            Err(e) => {
                return Err(e);
            },
            Ok(()) => {},
        }
        let ghost s5 = *rt;
        proof {
            assert(s5.class_wf(class_object.0 as int));
            assert(s5.objects == s4.objects);
            assert(s5.objects@[base as int].base.instance_of == Some(class_class));
            assert(s5.classes@[class_class.0 as int].instance_vtable == old(rt).classes@[class_class.0 as int].instance_vtable);
            assert(s5.vtables@[old(rt).classes@[class_class.0 as int].instance_vtable as int] == old(rt).vtables@[old(rt).classes@[class_class.0 as int].instance_vtable as int]);
            assert(Self::table_view(&s5, Self::type_table(&s5, class_object)) == Self::table_view(
                old(rt),
                Some(old(rt).classes@[class_class.0 as int].instance_vtable),
            ));
        }
        match class_object.into_finished_class(rt) {
            Err(e) => Err(e),
            Ok(initializer) => {
                proof {
                    assert(old(rt).classes@.is_prefix_of(rt.classes@));
                    assert(old(rt).vtables@.is_prefix_of(rt.vtables@));
                }
                Ok((class_object, initializer))
            },
        }
    }
    /// What the application of the type parameters `params` to `class`
    /// gives.
    pub open spec fn apply_result(rt: &Runtime, class: ClassObject, params: Seq<Value>) -> Result<
        Application,
        Error,
    > {
        if !rt.definition_of(class).is_generic {
            Err(Error::NotGeneric)
        } else if params.len() != 1 {
            Err(Error::TypeParameterCount { class, given: params.len() as usize })
        } else {
            match Self::type_parameter(rt, params[0]) {
                Err(e) => Err(e),
                Ok(param) => match rt.classes@[class.0 as int].application(param) {
                    Some(c) => Ok(Application::Known(c)),
                    None => Ok(Application::Unknown(param)),
                },
            }
        }
    }

    /// Whether `after` is `before` with `made` as the new specialization of
    /// `generic` for the type parameter `param`.
    pub open spec fn is_specialized(
        before: &Runtime,
        after: &Runtime,
        generic: ClassObject,
        param: Option<ClassObject>,
        made: ClassObject,
    ) -> bool {
        &&& made.0 == before.classes@.len()
        &&& after.classes@.len() == before.classes@.len() + 1
        &&& before.objects@.len() <= after.objects@.len()
        &&& forall|i: int|
            0 <= i < before.objects@.len() ==> (#[trigger] after.objects@[i]).kind == before.objects@[i].kind
        &&& forall|j: int|
            0 <= j < before.classes@.len() && j != generic.0 ==> after.classes@[j] == before.classes@[j]
        &&& after.classes@[generic.0 as int] == (ClassObjectData {
            applications: after.classes@[generic.0 as int].applications,
            null_application: after.classes@[generic.0 as int].null_application,
            ..before.classes@[generic.0 as int]
        })
        &&& after.classes@[generic.0 as int].application(param) == Some(made)
        &&& forall|p: Option<ClassObject>|
            p != param ==> after.classes@[generic.0 as int].application(p) == before.classes@[generic.0 as int].application(
                p,
            )
        &&& after.classes@[made.0 as int].params == Some(param)
        &&& after.classes@[made.0 as int].phase == ClassPhase::Finished
        &&& after.classes@[made.0 as int].superclass_object == before.system.object_vector
        &&& before.definitions@.is_prefix_of(after.definitions@) || after.definitions@.len() == before.definitions@.len()
        &&& after.definitions@[before.classes@[generic.0 as int].class as int].is_generic == before.definition_of(generic).is_generic
    }

    /// Makes the specialization of this class for the type parameter
    /// `param`, and records it.
    ///
    /// `definition` is the definition of the specialization and `class_proto`
    /// a new plain object for its prototype. The specialization is made as a
    /// class of that definition with the runtime's vector class as
    /// superclass, as `from_class` makes it, and fails where that fails.
    /// Returned are the new class object and the call of the class
    /// initializer that the interpreter has to make, if any.
    pub fn specialize(
        self,
        rt: &mut Runtime,
        param: Option<ClassObject>,
        definition: ClassId,
        scope: ScopeChain,
        class_proto: ObjectId,
    ) -> (r: Result<(ClassObject, Option<Executable>), Error>)
        requires
            old(rt).wf(),
            old(rt).has_class(self),
            param matches Some(p) ==> old(rt).has_class(p),
            definition < old(rt).definitions@.len(),
            definition != old(rt).classes@[self.0 as int].class,
            old(rt).system.object_vector matches Some(s) && old(rt).has_class(s) && old(rt).classes@[s.0 as int].prototype is Some,
            scope.0 < old(rt).scopes@.len(),
            old(rt).has_object(class_proto),
            old(rt).system.class matches Some(cc) && old(rt).classes@[cc.0 as int].prototype is Some,
        ensures
            final(rt).wf(),
            match Self::from_class_error(
                old(rt),
                definition,
                old(rt).system.object_vector,
                class_proto,
            ) {
                Some(e) => {
                    &&& r == Err::<(ClassObject, Option<Executable>), Error>(e)
                    &&& old(rt).classes@.is_prefix_of(final(rt).classes@)
                },
                None => {
                    &&& r == Ok::<(ClassObject, Option<Executable>), Error>(
                        (
                            ClassObject(old(rt).classes.len()),
                            if old(rt).definitions@[definition as int].class_initialized {
                                None
                            } else {
                                Some(
                                    Executable::spec_from_method(
                                        old(rt).definitions@[definition as int].class_init,
                                        scope,
                                        Some(old(rt).objects.len()),
                                        Some(ClassObject(old(rt).classes.len())),
                                    ),
                                )
                            },
                        ),
                    )
                    &&& Self::is_specialized(
                        old(rt),
                        final(rt),
                        self,
                        param,
                        ClassObject(old(rt).classes.len()),
                    )
                },
            },
    {
        let vector = rt.system.object_vector;
        let (made, initializer) = match Self::from_class(rt, definition, vector, scope, class_proto) {
            Err(e) => {
                return Err(e);
            },
            Ok(pair) => pair,
        };
        let ghost s1 = *rt;
        proof {
            assert(s1.classes@[self.0 as int] == old(rt).classes@[self.0 as int]);
        }
        made.set_param(rt, Some(param));
        let ghost s2 = *rt;
        proof {
            assert(s2.classes@[self.0 as int] == old(rt).classes@[self.0 as int]);
        }
        self.add_application(rt, param, made);
        proof {
            assert(old(rt).class_wf(self.0 as int));
            assert forall|j: int| 0 <= j < old(rt).classes@.len() && j != self.0 implies rt.classes@[j] == old(rt).classes@[j] by {
                assert(s1.classes@[j] == old(rt).classes@[j]);
                assert(s2.classes@[j] == s1.classes@[j]);
            }
        }
        Ok((made, initializer))
    }

    /// Applying a type parameter again gives the same class.
    ///
    /// Once `made` was made as the specialization of `generic` for a
    /// parameter, the application of that parameter gives `made`; the
    /// application of any other parameter gives what it gave before; and
    /// `made` is none of the classes that other parameters gave before.
    pub proof fn lemma_application_is_stable(
        before: &Runtime,
        after: &Runtime,
        generic: ClassObject,
        param: Option<ClassObject>,
        made: ClassObject,
        value: Value,
    )
        requires
            before.wf(),
            before.has_class(generic),
            before.definition_of(generic).is_generic,
            Self::is_specialized(before, after, generic, param, made),
            Self::type_parameter(before, value) is Ok,
        ensures
            Self::type_parameter(after, value) == Self::type_parameter(before, value),
            Self::type_parameter(before, value) == Ok::<Option<ClassObject>, Error>(param)
                ==> Self::apply_result(after, generic, seq![value]) == Ok::<Application, Error>(
                Application::Known(made),
            ),
            Self::type_parameter(before, value) != Ok::<Option<ClassObject>, Error>(param)
                ==> Self::apply_result(after, generic, seq![value]) == Self::apply_result(
                before,
                generic,
                seq![value],
            ),
            forall|p: Option<ClassObject>| #[trigger]
                before.classes@[generic.0 as int].application(p) is Some
                    ==> before.classes@[generic.0 as int].application(p) != Some(made),
    {
        assert(before.class_wf(generic.0 as int));
        assert forall|p: Option<ClassObject>| #[trigger]
            before.classes@[generic.0 as int].application(p) is Some implies before.classes@[generic.0 as int].application(
            p,
        ) != Some(made) by {
            match p {
                Some(c) => {
                    assert(before.classes@[generic.0 as int].applications@.contains_key(c.0));
                },
                None => {},
            }
        }
    }

    /// The class initializer starts once.
    ///
    /// Once the initializer of a definition counts as started, which it does
    /// after any run of `run_class_initializer` on a class object of the
    /// definition, no class object of that definition is handed the call
    /// again, however many class objects and instances are made of it. Until
    /// then the call that is due is the initializer of the definition, bound
    /// to the class object.
    pub proof fn lemma_initializer_starts_once(rt: &Runtime, first: ClassObject, second: ClassObject)
        requires
            rt.has_class(first),
            rt.has_class(second),
            rt.classes@[first.0 as int].class == rt.classes@[second.0 as int].class,
        ensures
            Self::due_initializer(rt, first) is None ==> Self::due_initializer(rt, second) is None,
            rt.definition_of(first).class_initialized ==> Self::due_initializer(rt, second) is None,
            !rt.definition_of(first).class_initialized ==> Self::due_initializer(rt, second) == Some(
                Self::initializer_call(rt, second),
            ),
    {
    }

    /// The call of the class initializer that is due: none once the
    /// initializer of the definition counts as started.
    pub open spec fn due_initializer(rt: &Runtime, class: ClassObject) -> Option<Executable> {
        if rt.definition_of(class).class_initialized {
            None
        } else {
            Some(Self::initializer_call(rt, class))
        }
    }
    /// Public aliases change neither the slots nor the dispatch table.
    pub proof fn lemma_aliases_keep_storage(
        defs: Seq<crate::class::Class>,
        v: VTableView,
        interfaces: Seq<ClassId>,
    )
        ensures
            Self::alias_interfaces(defs, v, interfaces).slots == v.slots,
            Self::alias_interfaces(defs, v, interfaces).methods == v.methods,
        decreases interfaces.len(),
    {
        if interfaces.len() > 0 {
            Self::lemma_aliases_keep_storage(defs, v, interfaces.drop_last());
            Self::lemma_trait_aliases_keep_storage(
                Self::alias_interfaces(defs, v, interfaces.drop_last()),
                defs[interfaces.last() as int].instance_traits@,
            );
        }
    }

    proof fn lemma_trait_aliases_keep_storage(v: VTableView, traits: Seq<Trait>)
        ensures
            Self::alias_traits(v, traits).slots == v.slots,
            Self::alias_traits(v, traits).methods == v.methods,
        decreases traits.len(),
    {
        if traits.len() > 0 {
            Self::lemma_trait_aliases_keep_storage(v, traits.drop_last());
        }
    }

    /// Instances of a subclass keep the slots of the superclass.
    ///
    /// When `from_class` has made a class with the superclass `superclass`,
    /// the slots of the superclass's instances, with their initial values,
    /// are the first slots of the new class's instances: what is stored
    /// under a slot id in an instance of the superclass is stored under the
    /// same id in an instance of the subclass.
    pub proof fn lemma_subclass_keeps_slot_layout(
        before: &Runtime,
        after: &Runtime,
        class: ClassId,
        superclass: ClassObject,
        scope: ScopeChain,
        class_proto: ObjectId,
    )
        requires
            before.wf(),
            before.has_class(superclass),
            class < before.definitions@.len(),
            Self::from_class_error(before, class, Some(superclass), class_proto) is None,
            Self::is_from_class(before, after, class, Some(superclass), scope, class_proto),
        ensures
            before.instance_vtable_of(superclass)@.slots.is_prefix_of(
                after.instance_vtable_of(ClassObject(before.classes.len()))@.slots,
            ),
            after.instance_vtable_of(superclass) == before.instance_vtable_of(superclass),
    {
        let made = ClassObject(before.classes.len());
        let k = after.classes@[made.0 as int];
        let base = before.instance_vtable_of(superclass)@;
        assert(before.class_wf(superclass.0 as int));
        assert(before.vtables@[before.classes@[superclass.0 as int].instance_vtable as int].wf());
        lemma_declare_all(base, made, k.instance_scope, before.definitions@[class as int].instance_traits@);
        Self::lemma_aliases_keep_storage(
            before.definitions@,
            declare_all(base, made, k.instance_scope, before.definitions@[class as int].instance_traits@),
            k.interfaces@,
        );
        assert(after.classes@[superclass.0 as int] == before.classes@[superclass.0 as int]);
        assert(after.vtables@[before.classes@[superclass.0 as int].instance_vtable as int] == before.vtables@[before.classes@[superclass.0 as int].instance_vtable as int]);
    }
}

} // verus!
