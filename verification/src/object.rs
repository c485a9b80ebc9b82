//! Operations on the objects of the heap, by index.

use vstd::prelude::*;
use crate::error::Error;
use crate::property::Property;
use crate::script_object::padded;
use crate::script_object::read_dynamic;
use crate::vtable::lemma_resolved_in_range;
use crate::vtable::resolve;
use crate::function::Executable;
use crate::runtime::ObjectKind;
use crate::multiname::Multiname;
use crate::runtime::Runtime;
use crate::script_object::without;
use crate::script_object::ScriptObjectData;
use crate::value::Atom;
use crate::value::ObjectId;
use crate::value::Value;

verus! {

/// What the interpreter does to finish the read of a property.
#[derive(Clone, Copy, Debug, PartialEq, Eq, Structural)]
pub enum PropertyRead {
    /// The property has this value.
    Value(Value),
    /// The property is what this getter returns when it is run without
    /// arguments.
    Invoke(Executable),
}

/// What the interpreter does to call a property.
#[derive(Clone, Copy, Debug, PartialEq, Eq, Structural)]
pub enum PropertyCall {
    /// Run this method with the arguments.
    Invoke(Executable),
    /// Call this value with the arguments.
    Callee(Value),
    /// Run this getter without arguments, and call what it returns.
    Getter(Executable),
}

/// Whether `a` and `b` agree in everything but the dynamic properties and
/// the enumerable names.
pub open spec fn same_fixed_state(a: &ScriptObjectData, b: &ScriptObjectData) -> bool {
    &&& a.slots == b.slots
    &&& a.bound_methods == b.bound_methods
    &&& a.proto == b.proto
    &&& a.instance_of == b.instance_of
    &&& a.vtable == b.vtable
    &&& a.sealed == b.sealed
}

impl Runtime {
    /// Writes a dynamic property of the object `o`.
    ///
    /// Fails, leaving the object as it was, if the object is sealed, if the
    /// public namespace is not among the name's candidates, or if the name has
    /// no local name. A name that is new to the object becomes the last of
    /// its enumerable names.
    pub fn set_property_local(&mut self, o: ObjectId, multiname: &Multiname, value: Value) -> (r:
        Result<(), Error>)
        requires
            old(self).wf(),
            old(self).has_object(o),
        ensures
            final(self).wf(),
            old(self).same_but_object(final(self), o),
            same_fixed_state(&final(self).objects@[o as int].base, &old(self).objects@[o as int].base),
            match (
                old(self).objects@[o as int].base.sealed,
                ScriptObjectData::dynamic_name(multiname),
            ) {
                (false, Some(name)) => {
                    &&& r is Ok
                    &&& final(self).objects@[o as int].base.values@ == old(self).objects@[o as int].base.values@.insert(
                        name,
                        value,
                    )
                    &&& final(self).objects@[o as int].base.enumerants@ == if old(self).objects@[o as int].base.values@.contains_key(
                        name,
                    ) {
                        old(self).objects@[o as int].base.enumerants@
                    } else {
                        old(self).objects@[o as int].base.enumerants@.push(name)
                    }
                },
                _ => {
                    &&& r == Err::<(), Error>(
                        Error::InvalidWrite {
                            name: multiname.name,
                            class: old(self).objects@[o as int].base.instance_of,
                        },
                    )
                    &&& final(self).objects@[o as int].base.values@ == old(self).objects@[o as int].base.values@
                    &&& final(self).objects@[o as int].base.enumerants@ == old(self).objects@[o as int].base.enumerants@
                },
            },
    {
        proof {
            assert(self.object_wf(o as int));
        }
        let object = &mut self.objects[o];
        let r = object.base.set_property_local(multiname, value);
        proof {
            old(self).lemma_object_changed(self, o);
        }
        r
    }

    /// Makes enumeration of the object `o` visit `name`, or pass over it.
    ///
    /// A name becomes enumerable only if it is a dynamic property, and then
    /// it is visited last; a name that is enumerable already keeps its place.
    pub fn set_local_property_is_enumerable(&mut self, o: ObjectId, name: Atom, is_enumerable: bool)
        requires
            old(self).wf(),
            old(self).has_object(o),
        ensures
            final(self).wf(),
            old(self).same_but_object(final(self), o),
            same_fixed_state(&final(self).objects@[o as int].base, &old(self).objects@[o as int].base),
            final(self).objects@[o as int].base.values == old(self).objects@[o as int].base.values,
            final(self).objects@[o as int].base.enumerants@ == (if is_enumerable {
                if old(self).objects@[o as int].base.values@.contains_key(name) && !old(self).objects@[o as int].base.enumerants@.contains(
                    name,
                ) {
                    old(self).objects@[o as int].base.enumerants@.push(name)
                } else {
                    old(self).objects@[o as int].base.enumerants@
                }
            } else {
                without(old(self).objects@[o as int].base.enumerants@, name)
            }),
    {
        proof {
            assert(self.object_wf(o as int));
        }
        let object = &mut self.objects[o];
        object.base.set_local_property_is_enumerable(name, is_enumerable);
        proof {
            old(self).lemma_object_changed(self, o);
        }
    }

    /// Deletes a dynamic property of the object `o`: the name leaves the
    /// dynamic properties and the enumerable names.
    ///
    /// Returns `false`, leaving the object as it was, if the public namespace
    /// is not among the name's candidates or if the name has no local name.
    pub fn delete_property_local(&mut self, o: ObjectId, multiname: &Multiname) -> (r: bool)
        requires
            old(self).wf(),
            old(self).has_object(o),
        ensures
            final(self).wf(),
            old(self).same_but_object(final(self), o),
            same_fixed_state(&final(self).objects@[o as int].base, &old(self).objects@[o as int].base),
            match ScriptObjectData::dynamic_name(multiname) {
                Some(name) => {
                    &&& r
                    &&& final(self).objects@[o as int].base.values@ == old(self).objects@[o as int].base.values@.remove(
                        name,
                    )
                    &&& final(self).objects@[o as int].base.enumerants@ == without(
                        old(self).objects@[o as int].base.enumerants@,
                        name,
                    )
                },
                None => {
                    &&& !r
                    &&& final(self).objects@[o as int].base.values@ == old(self).objects@[o as int].base.values@
                    &&& final(self).objects@[o as int].base.enumerants@ == old(self).objects@[o as int].base.enumerants@
                },
            },
    {
        proof {
            assert(self.object_wf(o as int));
        }
        let object = &mut self.objects[o];
        let r = object.base.delete_property_local(multiname);
        proof {
            old(self).lemma_object_changed(self, o);
        }
        r
    }

    /// Writes a slot of the object `o`.
    pub fn set_slot(&mut self, o: ObjectId, id: u32, value: Value) -> (r: Result<(), Error>)
        requires
            old(self).wf(),
            old(self).has_object(o),
        ensures
            final(self).wf(),
            old(self).same_but_object(final(self), o),
            final(self).objects@[o as int].base.values == old(self).objects@[o as int].base.values,
            final(self).objects@[o as int].base.enumerants == old(self).objects@[o as int].base.enumerants,
            final(self).objects@[o as int].base.bound_methods == old(self).objects@[o as int].base.bound_methods,
            final(self).objects@[o as int].base.proto == old(self).objects@[o as int].base.proto,
            final(self).objects@[o as int].base.instance_of == old(self).objects@[o as int].base.instance_of,
            final(self).objects@[o as int].base.vtable == old(self).objects@[o as int].base.vtable,
            final(self).objects@[o as int].base.sealed == old(self).objects@[o as int].base.sealed,
            id < old(self).objects@[o as int].base.slots@.len() ==> r is Ok && final(self).objects@[o as int].base.slots@ == old(self).objects@[o as int].base.slots@.update(
                id as int,
                value,
            ),
            id >= old(self).objects@[o as int].base.slots@.len() ==> r == Err::<(), Error>(
                Error::SlotOutOfBounds { id },
            ) && final(self).objects@[o as int].base.slots@ == old(self).objects@[o as int].base.slots@,
    {
        proof {
            assert(self.object_wf(o as int));
        }
        let object = &mut self.objects[o];
        let r = object.base.set_slot(id, value);
        proof {
            old(self).lemma_object_changed(self, o);
        }
        r
    }

    /// Reads a slot of the object `o`.
    pub fn get_slot(&self, o: ObjectId, id: u32) -> (r: Result<Value, Error>)
        requires
            self.has_object(o),
        ensures
            r == (if id < self.objects@[o as int].base.slots@.len() {
                Ok::<Value, Error>(self.objects@[o as int].base.slots@[id as int])
            } else {
                Err::<Value, Error>(Error::SlotOutOfBounds { id })
            }),
    {
        self.objects[o].base.get_slot(id)
    }

    /// Sets the prototype of the object `o`.
    pub fn set_proto(&mut self, o: ObjectId, proto: ObjectId)
        requires
            old(self).wf(),
            old(self).has_object(o),
            old(self).has_object(proto),
        ensures
            final(self).wf(),
            old(self).same_but_object(final(self), o),
            final(self).objects@[o as int].base == (ScriptObjectData {
                proto: Some(proto),
                ..old(self).objects@[o as int].base
            }),
    {
        proof {
            assert(self.object_wf(o as int));
        }
        let object = &mut self.objects[o];
        object.base.set_proto(proto);
        proof {
            old(self).lemma_object_changed(self, o);
        }
    }

    /// Appends to the slots of the object `o` the initial values of the slots
    /// of its property table. Does nothing for an object without a table.
    pub fn install_instance_slots(&mut self, o: ObjectId)
        requires
            old(self).wf(),
            old(self).has_object(o),
        ensures
            final(self).wf(),
            old(self).same_but_object(final(self), o),
            final(self).objects@[o as int].base.values == old(self).objects@[o as int].base.values,
            final(self).objects@[o as int].base.enumerants == old(self).objects@[o as int].base.enumerants,
            final(self).objects@[o as int].base.bound_methods == old(self).objects@[o as int].base.bound_methods,
            final(self).objects@[o as int].base.proto == old(self).objects@[o as int].base.proto,
            final(self).objects@[o as int].base.instance_of == old(self).objects@[o as int].base.instance_of,
            final(self).objects@[o as int].base.vtable == old(self).objects@[o as int].base.vtable,
            final(self).objects@[o as int].base.sealed == old(self).objects@[o as int].base.sealed,
            final(self).objects@[o as int].base.slots@ == old(self).objects@[o as int].base.slots@ + (match old(self).objects@[o as int].base.vtable {
                Some(v) => old(self).vtables@[v as int]@.slots,
                None => Seq::<Value>::empty(),
            }),
    {
        proof {
            assert(self.object_wf(o as int));
        }
        match self.objects[o].base.vtable {
            Some(v) => {
                let table = &self.vtables[v];
                let object = &mut self.objects[o];
                object.base.install_instance_slots(table);
                proof {
                    old(self).lemma_object_changed(self, o);
                }
            },
            None => {
                assert(self.objects@[o as int].base.slots@ + Seq::<Value>::empty() =~= self.objects@[o as int].base.slots@);
            },
        }
    }
    /// Puts a function object for `exec` on the heap: an instance of the
    /// class of functions where the runtime has one, else an object without
    /// a class.
    pub fn new_function(&mut self, exec: Executable) -> (id: ObjectId)
        requires
            old(self).wf(),
        ensures
            final(self).wf(),
            id == old(self).objects@.len(),
            final(self).grown_from(old(self)),
            final(self).objects@.len() == old(self).objects@.len() + 1,
            final(self).classes == old(self).classes,
            final(self).vtables == old(self).vtables,
            final(self).definitions == old(self).definitions,
            final(self).scopes == old(self).scopes,
            final(self).objects@[id as int].kind == ObjectKind::Function(exec),
            final(self).objects@[id as int].base.instance_of == old(self).system.function,
    {
        let base = match self.system.function {
            Some(class) => ScriptObjectData::new(class, self),
            None => ScriptObjectData::custom_new(None, None, None, false),
        };
        self.allocate_object(base, Some(exec))
    }
    /// What `multiname` resolves to among the traits of the object `o`.
    pub open spec fn trait_of(&self, o: ObjectId, multiname: &Multiname) -> Option<Property> {
        match self.objects@[o as int].base.vtable {
            Some(v) => resolve(self.vtables@[v as int]@.traits, multiname.ns@, multiname.name),
            None => None,
        }
    }

    /// The executable for the entry `disp_id` of the dispatch table of the
    /// object `o`, bound to `o` and to the class that declared the method.
    pub open spec fn bound_method_of(&self, o: ObjectId, disp_id: u32) -> Executable {
        let m = self.vtables@[self.objects@[o as int].base.vtable->0 as int]@.methods[disp_id as int];
        Executable::spec_from_method(m.method, m.scope, Some(o), Some(m.class))
    }

    fn lookup_trait(&self, o: ObjectId, multiname: &Multiname) -> (r: Option<Property>)
        requires
            self.wf(),
            self.has_object(o),
        ensures
            r == self.trait_of(o, multiname),
            r is Some ==> self.objects@[o as int].base.vtable is Some,
            match r {
                Some(Property::Method { disp_id }) => disp_id < self.vtables@[self.objects@[o as int].base.vtable->0 as int]@.methods.len(),
                Some(Property::Virtual { get, set }) => {
                    &&& get matches Some(g) ==> g < self.vtables@[self.objects@[o as int].base.vtable->0 as int]@.methods.len()
                    &&& set matches Some(s) ==> s < self.vtables@[self.objects@[o as int].base.vtable->0 as int]@.methods.len()
                },
                _ => true,
            },
    {
        proof {
            assert(self.object_wf(o as int));
        }
        match self.objects[o].base.vtable {
            Some(v) => {
                proof {
                    assert(self.vtables@[v as int].wf());
                    lemma_resolved_in_range(self.vtables@[v as int]@, multiname.ns@, multiname.name);
                }
                self.vtables[v].get_trait(multiname)
            },
            None => None,
        }
    }

    fn bind_method(&self, o: ObjectId, disp_id: u32) -> (r: Executable)
        requires
            self.wf(),
            self.has_object(o),
            self.objects@[o as int].base.vtable is Some,
            disp_id < self.vtables@[self.objects@[o as int].base.vtable->0 as int]@.methods.len(),
        ensures
            r == self.bound_method_of(o, disp_id),
    {
        proof {
            assert(self.object_wf(o as int));
        }
        let v = self.objects[o].base.vtable.unwrap();
        let m = self.vtables[v].get_full_method(disp_id).unwrap();
        Executable::from_method(m.method, m.scope, Some(o), Some(m.class))
    }

    /// What a read of the dynamic property `multiname` of the object `o`
    /// gives.
    pub open spec fn local_read(&self, o: ObjectId, multiname: &Multiname) -> Result<Value, Error> {
        let base = &self.objects@[o as int].base;
        let failure = Error::InvalidRead { name: multiname.name, class: base.instance_of };
        match ScriptObjectData::dynamic_name(multiname) {
            Some(name) => match read_dynamic(self, base.values@, base.proto, base.sealed, name) {
                Some(v) => Ok(v),
                None => Err(failure),
            },
            None => Err(failure),
        }
    }

    /// Whether `after` is `self` with a new function object for the method
    /// `disp_id` of the object `o`, which `o` has cached as bound method.
    pub open spec fn method_bound(&self, after: &Runtime, o: ObjectId, disp_id: u32) -> bool {
        &&& after.objects@.len() == self.objects@.len() + 1
        &&& after.classes == self.classes
        &&& after.vtables == self.vtables
        &&& after.definitions == self.definitions
        &&& after.scopes == self.scopes
        &&& after.call_stack == self.call_stack
        &&& after.interner == self.interner
        &&& after.system == self.system
        &&& after.names == self.names
        &&& forall|i: int|
            0 <= i < self.objects@.len() && i != o ==> after.objects@[i] == self.objects@[i]
        &&& after.objects@[self.objects@.len() as int].kind == ObjectKind::Function(
            self.bound_method_of(o, disp_id),
        )
        &&& after.objects@[o as int].kind == self.objects@[o as int].kind
        &&& after.objects@[o as int].base == (ScriptObjectData {
            bound_methods: after.objects@[o as int].base.bound_methods,
            ..self.objects@[o as int].base
        })
        &&& after.objects@[o as int].base.bound_methods@ == padded(
            self.objects@[o as int].base.bound_methods@,
            disp_id + 1,
            None,
        ).update(disp_id as int, Some(self.objects.len()))
    }

    fn cached_method(&self, o: ObjectId, disp_id: u32) -> (r: Option<ObjectId>)
        requires
            self.has_object(o),
        ensures
            r == self.spec_cached_method(o, disp_id),
    {
        self.objects[o].base.get_bound_method(disp_id)
    }

    /// The bound method that the object `o` has cached for the entry
    /// `disp_id` of its dispatch table, if it has one.
    pub open spec fn spec_cached_method(&self, o: ObjectId, disp_id: u32) -> Option<ObjectId> {
        if disp_id < self.objects@[o as int].base.bound_methods@.len() {
            self.objects@[o as int].base.bound_methods@[disp_id as int]
        } else {
            None
        }
    }

    fn bind_and_cache(&mut self, o: ObjectId, disp_id: u32) -> (r: ObjectId)
        requires
            old(self).wf(),
            old(self).has_object(o),
            old(self).objects@[o as int].base.vtable is Some,
            disp_id < old(self).vtables@[old(self).objects@[o as int].base.vtable->0 as int]@.methods.len(),
        ensures
            final(self).wf(),
            r == old(self).objects@.len(),
            old(self).method_bound(final(self), o, disp_id),
    {
        let exec = self.bind_method(o, disp_id);
        proof {
            assert(self.object_wf(o as int));
        }
        let count = self.vtables[self.objects[o].base.vtable.unwrap()].method_count();
        assert(disp_id < count);
        let function = self.new_function(exec);
        let ghost mid = *self;
        proof {
            assert(mid.object_wf(o as int));
            assert(mid.objects@[o as int] == old(self).objects@[o as int]);
        }
        let object = &mut self.objects[o];
        object.base.install_bound_method(disp_id, function);
        proof {
            mid.lemma_object_changed(self, o);
            assert forall|i: int| 0 <= i < old(self).objects@.len() && i != o implies self.objects@[i] == old(self).objects@[i] by {
                assert(mid.objects@[i] == old(self).objects@[i]);
            }
        }
        function
    }

    /// Reads the property `multiname` of the object `o`.
    ///
    /// A trait of the object answers first: a slot gives its value; a method
    /// gives its bound method, a function object that is made and cached at
    /// the first read; a getter is to be run; an accessor without a getter
    /// cannot be read. A name that is no trait is read as a dynamic property.
    pub fn get_property(&mut self, o: ObjectId, multiname: &Multiname) -> (r: Result<
        PropertyRead,
        Error,
    >)
        requires
            old(self).wf(),
            old(self).has_object(o),
        ensures
            final(self).wf(),
            match old(self).trait_of(o, multiname) {
                Some(Property::Slot { slot_id }) => {
                    &&& *final(self) == *old(self)
                    &&& r == (if slot_id < old(self).objects@[o as int].base.slots@.len() {
                        Ok::<PropertyRead, Error>(
                            PropertyRead::Value(old(self).objects@[o as int].base.slots@[slot_id as int]),
                        )
                    } else {
                        Err::<PropertyRead, Error>(Error::SlotOutOfBounds { id: slot_id })
                    })
                },
                Some(Property::ConstSlot { slot_id }) => {
                    &&& *final(self) == *old(self)
                    &&& r == (if slot_id < old(self).objects@[o as int].base.slots@.len() {
                        Ok::<PropertyRead, Error>(
                            PropertyRead::Value(old(self).objects@[o as int].base.slots@[slot_id as int]),
                        )
                    } else {
                        Err::<PropertyRead, Error>(Error::SlotOutOfBounds { id: slot_id })
                    })
                },
                Some(Property::Method { disp_id }) => match old(self).spec_cached_method(o, disp_id) {
                    Some(f) => *final(self) == *old(self) && r == Ok::<PropertyRead, Error>(
                        PropertyRead::Value(Value::Object(f)),
                    ),
                    None => old(self).method_bound(final(self), o, disp_id) && r == Ok::<
                        PropertyRead,
                        Error,
                    >(PropertyRead::Value(Value::Object(old(self).objects.len()))),
                },
                Some(Property::Virtual { get: Some(g), set }) => *final(self) == *old(self) && r == Ok::<
                    PropertyRead,
                    Error,
                >(PropertyRead::Invoke(old(self).bound_method_of(o, g))),
                Some(Property::Virtual { get: None, set }) => *final(self) == *old(self) && r == Err::<
                    PropertyRead,
                    Error,
                >(Error::WriteOnly { name: multiname.name, class: old(self).objects@[o as int].base.instance_of }),
                None => *final(self) == *old(self) && r == (match old(self).local_read(o, multiname) {
                    Ok(v) => Ok::<PropertyRead, Error>(PropertyRead::Value(v)),
                    Err(e) => Err::<PropertyRead, Error>(e),
                }),
            },
    {
        match self.lookup_trait(o, multiname) {
            Some(Property::Slot { slot_id }) => match self.get_slot(o, slot_id) {
                Ok(v) => Ok(PropertyRead::Value(v)),
                Err(e) => Err(e),
            },
            Some(Property::ConstSlot { slot_id }) => match self.get_slot(o, slot_id) {
                Ok(v) => Ok(PropertyRead::Value(v)),
                Err(e) => Err(e),
            },
            Some(Property::Method { disp_id }) => match self.cached_method(o, disp_id) {
                Some(f) => Ok(PropertyRead::Value(Value::Object(f))),
                None => {
                    let f = self.bind_and_cache(o, disp_id);
                    Ok(PropertyRead::Value(Value::Object(f)))
                },
            },
            Some(Property::Virtual { get: Some(g), set }) => Ok(
                PropertyRead::Invoke(self.bind_method(o, g)),
            ),
            Some(Property::Virtual { get: None, set }) => Err(
                Error::WriteOnly { name: multiname.name, class: self.objects[o].base.instance_of },
            ),
            None => match self.objects[o].base.get_property_local(multiname, self) {
                Ok(v) => Ok(PropertyRead::Value(v)),
                Err(e) => Err(e),
            },
        }
    }

    /// Writes the property `multiname` of the object `o`.
    ///
    /// A trait of the object answers first: a slot takes the value; a setter
    /// is to be run with the value, and is returned; a constant, a method and
    /// an accessor without a setter cannot be written. A name that is no
    /// trait is written as a dynamic property, which a sealed object refuses.
    pub fn set_property(&mut self, o: ObjectId, multiname: &Multiname, value: Value) -> (r: Result<
        Option<Executable>,
        Error,
    >)
        requires
            old(self).wf(),
            old(self).has_object(o),
        ensures
            final(self).wf(),
            old(self).same_but_object(final(self), o),
            final(self).objects@[o as int].base.bound_methods == old(self).objects@[o as int].base.bound_methods,
            final(self).objects@[o as int].base.proto == old(self).objects@[o as int].base.proto,
            final(self).objects@[o as int].base.instance_of == old(self).objects@[o as int].base.instance_of,
            final(self).objects@[o as int].base.vtable == old(self).objects@[o as int].base.vtable,
            final(self).objects@[o as int].base.sealed == old(self).objects@[o as int].base.sealed,
            match old(self).trait_of(o, multiname) {
                Some(Property::Slot { slot_id }) => {
                    &&& final(self).objects@[o as int].base.values == old(self).objects@[o as int].base.values
                    &&& final(self).objects@[o as int].base.enumerants == old(self).objects@[o as int].base.enumerants
                    &&& if slot_id < old(self).objects@[o as int].base.slots@.len() {
                        &&& r == Ok::<Option<Executable>, Error>(None)
                        &&& final(self).objects@[o as int].base.slots@ == old(self).objects@[o as int].base.slots@.update(
                            slot_id as int,
                            value,
                        )
                    } else {
                        &&& r == Err::<Option<Executable>, Error>(Error::SlotOutOfBounds { id: slot_id })
                        &&& final(self).objects@[o as int].base.slots@ == old(self).objects@[o as int].base.slots@
                    }
                },
                Some(Property::ConstSlot { slot_id }) => *final(self) == *old(self) && r == Err::<
                    Option<Executable>,
                    Error,
                >(Error::ReadOnly { name: multiname.name, class: old(self).objects@[o as int].base.instance_of }),
                Some(Property::Method { disp_id }) => *final(self) == *old(self) && r == Err::<
                    Option<Executable>,
                    Error,
                >(Error::AssignToMethod { name: multiname.name, class: old(self).objects@[o as int].base.instance_of }),
                Some(Property::Virtual { get, set: Some(s) }) => *final(self) == *old(self) && r == Ok::<
                    Option<Executable>,
                    Error,
                >(Some(old(self).bound_method_of(o, s))),
                Some(Property::Virtual { get, set: None }) => *final(self) == *old(self) && r == Err::<
                    Option<Executable>,
                    Error,
                >(Error::ReadOnly { name: multiname.name, class: old(self).objects@[o as int].base.instance_of }),
                None => {
                    &&& final(self).objects@[o as int].base.slots == old(self).objects@[o as int].base.slots
                    &&& match (
                        old(self).objects@[o as int].base.sealed,
                        ScriptObjectData::dynamic_name(multiname),
                    ) {
                        (false, Some(name)) => {
                            &&& r == Ok::<Option<Executable>, Error>(None)
                            &&& final(self).objects@[o as int].base.values@ == old(self).objects@[o as int].base.values@.insert(
                                name,
                                value,
                            )
                            &&& final(self).objects@[o as int].base.enumerants@ == if old(self).objects@[o as int].base.values@.contains_key(
                                name,
                            ) {
                                old(self).objects@[o as int].base.enumerants@
                            } else {
                                old(self).objects@[o as int].base.enumerants@.push(name)
                            }
                        },
                        _ => {
                            &&& r == Err::<Option<Executable>, Error>(
                                Error::InvalidWrite {
                                    name: multiname.name,
                                    class: old(self).objects@[o as int].base.instance_of,
                                },
                            )
                            &&& final(self).objects@[o as int].base.values@ == old(self).objects@[o as int].base.values@
                            &&& final(self).objects@[o as int].base.enumerants@ == old(self).objects@[o as int].base.enumerants@
                        },
                    }
                },
            },
    {
        match self.lookup_trait(o, multiname) {
            Some(Property::Slot { slot_id }) => match self.set_slot(o, slot_id, value) {
                Ok(()) => Ok(None),
                Err(e) => Err(e),
            },
            Some(Property::ConstSlot { slot_id }) => Err(Error::ReadOnly { name: multiname.name, class: self.objects[o].base.instance_of }),
            Some(Property::Method { disp_id }) => Err(
                Error::AssignToMethod { name: multiname.name, class: self.objects[o].base.instance_of },
            ),
            Some(Property::Virtual { get, set: Some(s) }) => Ok(Some(self.bind_method(o, s))),
            Some(Property::Virtual { get, set: None }) => Err(
                Error::ReadOnly { name: multiname.name, class: self.objects[o].base.instance_of },
            ),
            None => match self.set_property_local(o, multiname, value) {
                Ok(()) => Ok(None),
                Err(e) => Err(e),
            },
        }
    }

    /// Deletes the property `multiname` of the object `o`: a dynamic
    /// property leaves the object; a trait cannot be deleted. Returns whether
    /// the name counts as deleted.
    pub fn delete_property(&mut self, o: ObjectId, multiname: &Multiname) -> (r: bool)
        requires
            old(self).wf(),
            old(self).has_object(o),
        ensures
            final(self).wf(),
            old(self).same_but_object(final(self), o),
            same_fixed_state(&final(self).objects@[o as int].base, &old(self).objects@[o as int].base),
            match (old(self).trait_of(o, multiname), ScriptObjectData::dynamic_name(multiname)) {
                (None, Some(name)) => {
                    &&& r
                    &&& final(self).objects@[o as int].base.values@ == old(self).objects@[o as int].base.values@.remove(
                        name,
                    )
                    &&& final(self).objects@[o as int].base.enumerants@ == without(
                        old(self).objects@[o as int].base.enumerants@,
                        name,
                    )
                },
                _ => !r && *final(self) == *old(self),
            },
    {
        match self.lookup_trait(o, multiname) {
            Some(_) => false,
            None => {
                if !multiname.contains_public_namespace() || multiname.local_name().is_none() {
                    return false;
                }
                self.delete_property_local(o, multiname)
            },
        }
    }

    /// Resolves a call of the property `multiname` of the object `o`.
    ///
    /// A method is to be run, bound to the object and to the class that
    /// declared it; the value of a slot or of a dynamic property is to be
    /// called; a getter is to be run first, and what it returns is to be
    /// called; an accessor without a getter cannot be called.
    pub fn call_property(&self, o: ObjectId, multiname: &Multiname) -> (r: Result<PropertyCall, Error>)
        requires
            self.wf(),
            self.has_object(o),
        ensures
            r == (match self.trait_of(o, multiname) {
                Some(Property::Method { disp_id }) => Ok::<PropertyCall, Error>(
                    PropertyCall::Invoke(self.bound_method_of(o, disp_id)),
                ),
                Some(Property::Slot { slot_id }) => if slot_id < self.objects@[o as int].base.slots@.len() {
                    Ok::<PropertyCall, Error>(
                        PropertyCall::Callee(self.objects@[o as int].base.slots@[slot_id as int]),
                    )
                } else {
                    Err::<PropertyCall, Error>(Error::SlotOutOfBounds { id: slot_id })
                },
                Some(Property::ConstSlot { slot_id }) => if slot_id < self.objects@[o as int].base.slots@.len() {
                    Ok::<PropertyCall, Error>(
                        PropertyCall::Callee(self.objects@[o as int].base.slots@[slot_id as int]),
                    )
                } else {
                    Err::<PropertyCall, Error>(Error::SlotOutOfBounds { id: slot_id })
                },
                Some(Property::Virtual { get: Some(g), set }) => Ok::<PropertyCall, Error>(
                    PropertyCall::Getter(self.bound_method_of(o, g)),
                ),
                Some(Property::Virtual { get: None, set }) => Err::<PropertyCall, Error>(
                    Error::WriteOnly { name: multiname.name, class: self.objects@[o as int].base.instance_of },
                ),
                None => match self.local_read(o, multiname) {
                    Ok(v) => Ok::<PropertyCall, Error>(PropertyCall::Callee(v)),
                    Err(e) => Err::<PropertyCall, Error>(e),
                },
            }),
    {
        match self.lookup_trait(o, multiname) {
            Some(Property::Method { disp_id }) => Ok(
                PropertyCall::Invoke(self.bind_method(o, disp_id)),
            ),
            Some(Property::Slot { slot_id }) => match self.get_slot(o, slot_id) {
                Ok(v) => Ok(PropertyCall::Callee(v)),
                Err(e) => Err(e),
            },
            Some(Property::ConstSlot { slot_id }) => match self.get_slot(o, slot_id) {
                Ok(v) => Ok(PropertyCall::Callee(v)),
                Err(e) => Err(e),
            },
            Some(Property::Virtual { get: Some(g), set }) => Ok(
                PropertyCall::Getter(self.bind_method(o, g)),
            ),
            Some(Property::Virtual { get: None, set }) => Err(
                Error::WriteOnly { name: multiname.name, class: self.objects[o].base.instance_of },
            ),
            None => match self.objects[o].base.get_property_local(multiname, self) {
                Ok(v) => Ok(PropertyCall::Callee(v)),
                Err(e) => Err(e),
            },
        }
    }
}

} // verus!
