//! The runtime: the heap of objects, the class objects, the property tables
//! and the class definitions, each addressed by index.

use vstd::prelude::*;
use fnv::FnvHashMap;
use crate::call_stack::CallStack;
use crate::class::Allocator;
use crate::class::Class;
use crate::class_object::ClassObject;
use crate::function::Executable;
use crate::interner::Interner;
use crate::method::Method;
use crate::multiname::Multiname;
use crate::scope::ScopeChain;
use crate::script_object::ScriptObjectData;
use crate::value::Atom;
use crate::value::ClassId;
use crate::value::ObjectId;
use crate::value::VTableId;
use crate::value::Value;
use crate::vtable::VTable;

verus! {

/// What an object is besides its generic state.
#[derive(Clone, Copy, Debug, PartialEq, Eq, Structural)]
pub enum ObjectKind {
    /// A plain script object.
    Script,
    /// The object of a class.
    Class(ClassObject),
    /// A function: an executable that can be called.
    Function(Executable),
}

/// An object of the heap.
pub struct HeapObject {
    pub base: ScriptObjectData,
    pub kind: ObjectKind,
}

/// How far the construction of a class object has come.
#[derive(Clone, Copy, Debug, PartialEq, Eq, Structural)]
pub enum ClassPhase {
    /// Allocated, with its definition, scopes, superclass and allocator.
    Partial,
    /// Linked to the class of classes.
    Typed,
    /// Linked to its prototype.
    PrototypeLinked,
    /// The property table of its instances is built.
    InstanceVtableInitialized,
    /// Complete: safe to instantiate and to show to scripts.
    Finished,
}

/// The state of a class object.
pub struct ClassObjectData {
    /// The object that the class is.
    pub base: ObjectId,
    /// The definition of the class.
    pub class: ClassId,
    pub phase: ClassPhase,
    /// The prototype of the instances.
    pub prototype: Option<ObjectId>,
    /// The scope that the class's own traits capture.
    pub class_scope: ScopeChain,
    /// The scope that the traits of instances capture.
    pub instance_scope: ScopeChain,
    pub superclass_object: Option<ClassObject>,
    pub instance_allocator: Allocator,
    /// The declared constructor.
    pub constructor: Method,
    /// The initializer that the host runs for a new instance.
    pub native_constructor: Method,
    /// What a call of the class as a function runs, if not a coercion.
    pub call_handler: Option<Method>,
    /// The type parameter, if this class is a specialization.
    pub params: Option<Option<ClassObject>>,
    /// The specializations made so far, by the class that is the parameter.
    pub applications: FnvHashMap<usize, ClassObject>,
    /// The specialization for the parameter `null`, if it was made.
    pub null_application: Option<ClassObject>,
    /// Every interface that the class implements, directly or not.
    pub interfaces: Vec<ClassId>,
    /// The property table of instances.
    pub instance_vtable: VTableId,
    /// The property table of the class object itself.
    pub class_vtable: VTableId,
}

impl ClassObjectData {
    /// The specialization for the type parameter `param`, if it was made.
    pub open spec fn application(&self, param: Option<ClassObject>) -> Option<ClassObject> {
        match param {
            None => self.null_application,
            Some(c) => if self.applications@.contains_key(c.0) {
                Some(self.applications@[c.0])
            } else {
                None
            },
        }
    }
}

/// The classes that the runtime itself relies on.
#[derive(Clone, Copy, Debug, PartialEq, Eq, Structural)]
pub struct SystemClasses {
    /// The root class of plain objects.
    pub object: Option<ClassObject>,
    /// The class of functions.
    pub function: Option<ClassObject>,
    /// The class of classes.
    pub class: Option<ClassObject>,
    /// The specialization of the generic vector class that all others
    /// extend.
    pub object_vector: Option<ClassObject>,
}

/// The atoms of the names that the runtime itself uses.
#[derive(Clone, Copy, Debug, PartialEq, Eq, Structural)]
pub struct WellKnownNames {
    /// The atom of `constructor`.
    pub constructor: Atom,
}

/// The name of the property by which a prototype refers to its class.
pub open spec fn constructor_text() -> Seq<char> {
    "constructor"@
}

/// The first of the definitions `defs`, from the index `from` on, whose name
/// is one that `name` may stand for.
pub open spec fn find_definition(defs: Seq<Class>, name: &Multiname, from: int) -> Option<ClassId>
    decreases defs.len() - from,
{
    if from < 0 || from >= defs.len() {
        None
    } else if name.spec_contains_name(defs[from].name) {
        Some(from as usize)
    } else {
        find_definition(defs, name, from + 1)
    }
}

/// The runtime.
pub struct Runtime {
    pub interner: Interner,
    pub objects: Vec<HeapObject>,
    pub classes: Vec<ClassObjectData>,
    pub vtables: Vec<VTable>,
    pub definitions: Vec<Class>,
    pub scopes: Vec<Vec<ObjectId>>,
    pub call_stack: CallStack,
    pub system: SystemClasses,
    pub names: WellKnownNames,
}

impl Runtime {
    /// Whether the object `o` is sound: its references stay inside the
    /// runtime and its sealing is that of its class.
    pub open spec fn object_wf(&self, o: int) -> bool {
        let x = self.objects@[o];
        &&& x.base.wf()
        &&& x.base.proto matches Some(p) ==> p < self.objects@.len()
        &&& x.base.vtable matches Some(v) ==> v < self.vtables@.len()
        &&& match x.base.instance_of {
            Some(c) => c.0 < self.classes@.len() && x.base.sealed == self.definitions@[self.classes@[c.0 as int].class as int].is_sealed,
            None => !x.base.sealed,
        }
        &&& x.kind matches ObjectKind::Class(c) ==> c.0 < self.classes@.len()
            && self.classes@[c.0 as int].base == o
    }

    /// Whether the class object `c` is sound.
    pub open spec fn class_wf(&self, c: int) -> bool {
        let k = self.classes@[c];
        &&& k.base < self.objects@.len()
        &&& self.objects@[k.base as int].kind == ObjectKind::Class(ClassObject(c as usize))
        &&& k.class < self.definitions@.len()
        &&& k.prototype matches Some(p) ==> p < self.objects@.len()
        &&& k.superclass_object matches Some(s) ==> s.0 < c
        &&& k.instance_vtable < self.vtables@.len()
        &&& k.class_vtable < self.vtables@.len()
        &&& k.instance_vtable != k.class_vtable
        &&& k.class_scope.0 < self.scopes@.len()
        &&& k.instance_scope.0 < self.scopes@.len()
        &&& forall|i: int| 0 <= i < k.interfaces@.len() ==> #[trigger] k.interfaces@[i] < self.definitions@.len()
        &&& forall|p: usize| #[trigger]
            k.applications@.contains_key(p) ==> k.applications@[p].0 < self.classes@.len()
        &&& k.null_application matches Some(a) ==> a.0 < self.classes@.len()
        &&& k.phase != ClassPhase::Partial ==> self.objects@[k.base as int].base.instance_of is Some
        &&& (k.phase != ClassPhase::Partial && k.phase != ClassPhase::Typed) ==> k.prototype is Some
    }

    /// Whether the runtime is sound.
    pub open spec fn wf(&self) -> bool {
        &&& self.interner.wf()
        &&& self.interner.contains(self.names.constructor)
        &&& self.interner.text(self.names.constructor) == constructor_text()
        &&& forall|o: int| 0 <= o < self.objects@.len() ==> #[trigger] self.object_wf(o)
        &&& forall|c: int| 0 <= c < self.classes@.len() ==> #[trigger] self.class_wf(c)
        &&& forall|v: int| 0 <= v < self.vtables@.len() ==> (#[trigger] self.vtables@[v]).wf()
        &&& self.system.object matches Some(c) ==> c.0 < self.classes@.len()
        &&& self.system.function matches Some(c) ==> c.0 < self.classes@.len()
        &&& self.system.class matches Some(c) ==> c.0 < self.classes@.len()
        &&& self.system.object_vector matches Some(c) ==> c.0 < self.classes@.len()
    }

    /// Whether `c` is a class object of this runtime.
    pub open spec fn has_class(&self, c: ClassObject) -> bool {
        c.0 < self.classes@.len()
    }

    /// Whether `o` is an object of this runtime.
    pub open spec fn has_object(&self, o: ObjectId) -> bool {
        o < self.objects@.len()
    }

    /// The definition of the class object `c`.
    pub open spec fn definition_of(&self, c: ClassObject) -> &Class {
        &self.definitions@[self.classes@[c.0 as int].class as int]
    }

    /// The property table of the instances of `c`.
    pub open spec fn instance_vtable_of(&self, c: ClassObject) -> &VTable {
        &self.vtables@[self.classes@[c.0 as int].instance_vtable as int]
    }

    /// The value under `name` of the first object that has a dynamic
    /// property of that name, on the prototype chain from `start` on. At most
    /// `fuel` objects are looked at.
    pub open spec fn lookup_chain(&self, start: Option<ObjectId>, name: Atom, fuel: nat) -> Option<
        Value,
    >
        decreases fuel,
    {
        if fuel == 0 {
            None
        } else {
            match start {
                None => None,
                Some(o) => if o >= self.objects@.len() {
                    None
                } else if self.objects@[o as int].base.values@.contains_key(name) {
                    Some(self.objects@[o as int].base.values@[name])
                } else {
                    self.lookup_chain(self.objects@[o as int].base.proto, name, (fuel - 1) as nat)
                },
            }
        }
    }

    /// A runtime without objects, classes or definitions.
    pub fn new() -> (r: Runtime)
        ensures
            r.wf(),
            r.objects@.len() == 0,
            r.classes@.len() == 0,
            r.vtables@.len() == 0,
            r.definitions@.len() == 0,
            r.scopes@.len() == 0,
            r.call_stack.stack@.len() == 0,
            r.system == (SystemClasses {
                object: None,
                function: None,
                class: None,
                object_vector: None,
            }),
    {
        let mut interner = Interner::new();
        let constructor = interner.intern("constructor");
        Runtime {
            interner,
            objects: Vec::new(),
            classes: Vec::new(),
            vtables: Vec::new(),
            definitions: Vec::new(),
            scopes: Vec::new(),
            call_stack: CallStack::new(),
            system: SystemClasses { object: None, function: None, class: None, object_vector: None },
            names: WellKnownNames { constructor },
        }
    }
    /// Whether `other` differs from `self` at most in the generic state of
    /// the object `o`.
    pub open spec fn same_but_object(&self, other: &Runtime, o: ObjectId) -> bool {
        &&& other.interner == self.interner
        &&& other.classes == self.classes
        &&& other.vtables == self.vtables
        &&& other.definitions == self.definitions
        &&& other.scopes == self.scopes
        &&& other.call_stack == self.call_stack
        &&& other.system == self.system
        &&& other.names == self.names
        &&& other.objects@.len() == self.objects@.len()
        &&& o < self.objects@.len()
        &&& other.objects@[o as int].kind == self.objects@[o as int].kind
        &&& forall|i: int|
            0 <= i < self.objects@.len() && i != o ==> other.objects@[i] == self.objects@[i]
    }

    /// A change of one object's generic state keeps the runtime sound if the
    /// object itself stays sound and keeps having a class if it had one.
    pub proof fn lemma_object_changed(&self, other: &Runtime, o: ObjectId)
        requires
            self.wf(),
            self.same_but_object(other, o),
            other.object_wf(o as int),
            self.objects@[o as int].base.instance_of is Some ==> other.objects@[o as int].base.instance_of is Some,
        ensures
            other.wf(),
    {
        assert forall|i: int| 0 <= i < other.objects@.len() implies #[trigger] other.object_wf(
            i,
        ) by {
            if i != o {
                assert(self.object_wf(i));
            }
        }
        assert forall|c: int| 0 <= c < other.classes@.len() implies #[trigger] other.class_wf(c) by {
            assert(self.class_wf(c));
        }
        assert forall|v: int| 0 <= v < other.vtables@.len() implies (#[trigger] other.vtables@[v]).wf() by {
            assert(self.vtables@[v].wf());
        }
    }

    /// Registers the definition of a class and returns its index.
    pub fn add_definition(&mut self, class: Class) -> (id: ClassId)
        requires
            old(self).wf(),
        ensures
            final(self).wf(),
            id == old(self).definitions@.len(),
            final(self).definitions@ == old(self).definitions@.push(class),
            final(self).interner == old(self).interner,
            final(self).objects == old(self).objects,
            final(self).classes == old(self).classes,
            final(self).vtables == old(self).vtables,
            final(self).scopes == old(self).scopes,
            final(self).call_stack == old(self).call_stack,
            final(self).system == old(self).system,
            final(self).names == old(self).names,
    {
        let id = self.definitions.len();
        self.definitions.push(class);
        proof {
            assert forall|o: int| 0 <= o < self.objects@.len() implies #[trigger] self.object_wf(
                o,
            ) by {
                assert(old(self).object_wf(o));
                match self.objects@[o].base.instance_of {
                    Some(c) => {
                        assert(old(self).class_wf(c.0 as int));
                    },
                    None => {},
                }
            }
            assert forall|c: int| 0 <= c < self.classes@.len() implies #[trigger] self.class_wf(
                c,
            ) by {
                assert(old(self).class_wf(c));
            }
            assert forall|v: int| 0 <= v < self.vtables@.len() implies (#[trigger] self.vtables@[v]).wf() by {
                assert(old(self).vtables@[v].wf());
            }
        }
        id
    }

    /// The definition with the index `id`.
    pub fn definition(&self, id: ClassId) -> (r: &Class)
        requires
            id < self.definitions@.len(),
        ensures
            *r == self.definitions@[id as int],
    {
        &self.definitions[id]
    }

    /// The first definition whose name is one that `name` may stand for, from
    /// the index `from` on.
    pub open spec fn find_class(&self, name: &Multiname, from: int) -> Option<ClassId> {
        find_definition(self.definitions@, name, from)
    }

    /// The first definition whose name is one that `name` may stand for.
    pub fn get_class(&self, name: &Multiname) -> (r: Option<ClassId>)
        ensures
            r == self.find_class(name, 0),
            r matches Some(id) ==> id < self.definitions@.len(),
    {
        let mut i: usize = 0;
        while i < self.definitions.len()
            invariant
                i <= self.definitions@.len(),
                self.find_class(name, 0) == self.find_class(name, i as int),
            decreases self.definitions@.len() - i,
        {
            if name.contains_name(self.definitions[i].name) {
                return Some(i);
            }
            i += 1;
        }
        None
    }

    /// Captures a scope chain that holds `objects`, the global object first.
    pub fn create_scopechain(&mut self, objects: Vec<ObjectId>) -> (r: ScopeChain)
        requires
            old(self).wf(),
        ensures
            final(self).wf(),
            r.0 == old(self).scopes@.len(),
            final(self).scopes@ == old(self).scopes@.push(objects),
            final(self).interner == old(self).interner,
            final(self).objects == old(self).objects,
            final(self).classes == old(self).classes,
            final(self).vtables == old(self).vtables,
            final(self).definitions == old(self).definitions,
            final(self).call_stack == old(self).call_stack,
            final(self).system == old(self).system,
            final(self).names == old(self).names,
    {
        let id = self.scopes.len();
        self.scopes.push(objects);
        proof {
            assert forall|o: int| 0 <= o < self.objects@.len() implies #[trigger] self.object_wf(
                o,
            ) by {
                assert(old(self).object_wf(o));
            }
            assert forall|c: int| 0 <= c < self.classes@.len() implies #[trigger] self.class_wf(
                c,
            ) by {
                assert(old(self).class_wf(c));
            }
            assert forall|v: int| 0 <= v < self.vtables@.len() implies (#[trigger] self.vtables@[v]).wf() by {
                assert(old(self).vtables@[v].wf());
            }
        }
        ScopeChain(id)
    }

    /// Captures the scope chain `scope` with `object` as its innermost scope.
    pub fn chain(&mut self, scope: ScopeChain, object: ObjectId) -> (r: ScopeChain)
        requires
            old(self).wf(),
            scope.0 < old(self).scopes@.len(),
        ensures
            final(self).wf(),
            r.0 == old(self).scopes@.len(),
            final(self).scopes@.len() == old(self).scopes@.len() + 1,
            final(self).scopes@[r.0 as int]@ == old(self).scopes@[scope.0 as int]@.push(object),
            forall|i: int| 0 <= i < old(self).scopes@.len() ==> final(self).scopes@[i] == old(self).scopes@[i],
            final(self).interner == old(self).interner,
            final(self).objects == old(self).objects,
            final(self).classes == old(self).classes,
            final(self).vtables == old(self).vtables,
            final(self).definitions == old(self).definitions,
            final(self).call_stack == old(self).call_stack,
            final(self).system == old(self).system,
            final(self).names == old(self).names,
    {
        let mut objects: Vec<ObjectId> = Vec::new();
        let mut i: usize = 0;
        while i < self.scopes[scope.0].len()
            invariant
                scope.0 < self.scopes@.len(),
                i <= self.scopes@[scope.0 as int]@.len(),
                objects@ == self.scopes@[scope.0 as int]@.take(i as int),
            decreases self.scopes@[scope.0 as int]@.len() - i,
        {
            objects.push(self.scopes[scope.0][i]);
            assert(self.scopes@[scope.0 as int]@.take(i + 1) =~= self.scopes@[scope.0 as int]@.take(
                i as int,
            ).push(self.scopes@[scope.0 as int]@[i as int]));
            i += 1;
        }
        assert(self.scopes@[scope.0 as int]@.take(i as int) =~= self.scopes@[scope.0 as int]@);
        objects.push(object);
        self.create_scopechain(objects)
    }

    /// The global object of `scope`: the outermost object of the chain.
    pub fn global_object(&self, scope: ScopeChain) -> (r: Option<ObjectId>)
        ensures
            r == self.spec_global_object(scope),
    {
        if scope.0 < self.scopes.len() && self.scopes[scope.0].len() > 0 {
            Some(self.scopes[scope.0][0])
        } else {
            None
        }
    }

    pub open spec fn spec_global_object(&self, scope: ScopeChain) -> Option<ObjectId> {
        if scope.0 < self.scopes@.len() && self.scopes@[scope.0 as int]@.len() > 0 {
            Some(self.scopes@[scope.0 as int]@[0])
        } else {
            None
        }
    }

    /// Whether `base` may become the state of a new object of this runtime.
    pub open spec fn admits(&self, base: &ScriptObjectData) -> bool {
        &&& base.wf()
        &&& base.proto matches Some(p) ==> p < self.objects@.len()
        &&& base.vtable matches Some(v) ==> v < self.vtables@.len()
        &&& match base.instance_of {
            Some(c) => c.0 < self.classes@.len() && base.sealed == self.definition_of(c).is_sealed,
            None => !base.sealed,
        }
    }

    /// Puts a new object on the heap and returns its index.
    pub fn allocate_object(&mut self, base: ScriptObjectData, function: Option<Executable>) -> (id: ObjectId)
        requires
            old(self).wf(),
            old(self).admits(&base),
        ensures
            final(self).wf(),
            id == old(self).objects@.len(),
            final(self).objects@ == old(self).objects@.push(
                HeapObject {
                    base,
                    kind: match function {
                        Some(e) => ObjectKind::Function(e),
                        None => ObjectKind::Script,
                    },
                },
            ),
            final(self).interner == old(self).interner,
            final(self).classes == old(self).classes,
            final(self).vtables == old(self).vtables,
            final(self).definitions == old(self).definitions,
            final(self).scopes == old(self).scopes,
            final(self).call_stack == old(self).call_stack,
            final(self).system == old(self).system,
            final(self).names == old(self).names,
    {
        let id = self.objects.len();
        let kind = match function {
            Some(e) => ObjectKind::Function(e),
            None => ObjectKind::Script,
        };
        self.objects.push(HeapObject { base, kind });
        proof {
            assert forall|o: int| 0 <= o < self.objects@.len() implies #[trigger] self.object_wf(
                o,
            ) by {
                if o < old(self).objects@.len() {
                    assert(old(self).object_wf(o));
                }
            }
            assert forall|c: int| 0 <= c < self.classes@.len() implies #[trigger] self.class_wf(
                c,
            ) by {
                assert(old(self).class_wf(c));
            }
            assert forall|v: int| 0 <= v < self.vtables@.len() implies (#[trigger] self.vtables@[v]).wf() by {
                assert(old(self).vtables@[v].wf());
            }
        }
        id
    }

    /// The generic state of the object `o`.
    pub fn object(&self, o: ObjectId) -> (r: &ScriptObjectData)
        requires
            o < self.objects@.len(),
        ensures
            *r == self.objects@[o as int].base,
    {
        &self.objects[o].base
    }

    /// The class object that the object `o` is, if it is one.
    pub fn as_class_object(&self, o: ObjectId) -> (r: Option<ClassObject>)
        ensures
            r == (if o < self.objects@.len() {
                match self.objects@[o as int].kind {
                    ObjectKind::Class(c) => Some(c),
                    _ => None,
                }
            } else {
                None
            }),
    {
        if o < self.objects.len() {
            match self.objects[o].kind {
                ObjectKind::Class(c) => Some(c),
                _ => None,
            }
        } else {
            None
        }
    }

    /// The executable of the object `o`, if it is a function.
    pub fn as_executable(&self, o: ObjectId) -> (r: Option<Executable>)
        ensures
            r == (if o < self.objects@.len() {
                match self.objects@[o as int].kind {
                    ObjectKind::Function(e) => Some(e),
                    _ => None,
                }
            } else {
                None
            }),
    {
        if o < self.objects.len() {
            match self.objects[o].kind {
                ObjectKind::Function(e) => Some(e),
                _ => None,
            }
        } else {
            None
        }
    }

    /// Enters a call of `exec` on the call stack.
    pub fn push_call(&mut self, exec: &Executable)
        ensures
            final(self).call_stack.stack@ == old(self).call_stack.stack@.push(CallStack::frame_of(exec)),
            final(self).interner == old(self).interner,
            final(self).objects == old(self).objects,
            final(self).classes == old(self).classes,
            final(self).vtables == old(self).vtables,
            final(self).definitions == old(self).definitions,
            final(self).scopes == old(self).scopes,
            final(self).system == old(self).system,
            final(self).names == old(self).names,
            old(self).wf() ==> final(self).wf(),
    {
        self.call_stack.push(exec);
        proof {
            if old(self).wf() {
                self.lemma_frame(old(self));
            }
        }
    }

    /// Leaves the innermost call of the call stack.
    pub fn pop_call(&mut self)
        ensures
            final(self).call_stack.stack@ == (if old(self).call_stack.stack@.len() > 0 {
                old(self).call_stack.stack@.drop_last()
            } else {
                old(self).call_stack.stack@
            }),
            final(self).interner == old(self).interner,
            final(self).objects == old(self).objects,
            final(self).classes == old(self).classes,
            final(self).vtables == old(self).vtables,
            final(self).definitions == old(self).definitions,
            final(self).scopes == old(self).scopes,
            final(self).system == old(self).system,
            final(self).names == old(self).names,
            old(self).wf() ==> final(self).wf(),
    {
        self.call_stack.pop();
        proof {
            if old(self).wf() {
                self.lemma_frame(old(self));
            }
        }
    }

    /// Soundness speaks of the heap, the classes, the tables, the
    /// definitions and the strings only.
    pub proof fn lemma_frame(&self, before: &Runtime)
        requires
            before.wf(),
            self.interner == before.interner,
            self.objects == before.objects,
            self.classes == before.classes,
            self.vtables == before.vtables,
            self.definitions == before.definitions,
            self.scopes == before.scopes,
            self.system == before.system,
            self.names == before.names,
        ensures
            self.wf(),
    {
        assert forall|o: int| 0 <= o < self.objects@.len() implies #[trigger] self.object_wf(o) by {
            assert(before.object_wf(o));
        }
        assert forall|c: int| 0 <= c < self.classes@.len() implies #[trigger] self.class_wf(c) by {
            assert(before.class_wf(c));
        }
    }
    /// Whether `self` is `before` with more objects, classes, tables,
    /// definitions or scopes, and everything of `before` as it was.
    pub open spec fn grown_from(&self, before: &Runtime) -> bool {
        &&& self.interner == before.interner
        &&& self.call_stack == before.call_stack
        &&& self.system == before.system
        &&& self.names == before.names
        &&& before.objects@.is_prefix_of(self.objects@)
        &&& before.classes@.is_prefix_of(self.classes@)
        &&& before.vtables@.is_prefix_of(self.vtables@)
        &&& before.definitions@.is_prefix_of(self.definitions@)
        &&& before.scopes@.is_prefix_of(self.scopes@)
    }

    /// A runtime that has grown is sound if what is new in it is sound.
    pub proof fn lemma_grown(&self, before: &Runtime)
        requires
            before.wf(),
            self.grown_from(before),
            forall|o: int| before.objects@.len() <= o < self.objects@.len() ==> #[trigger] self.object_wf(o),
            forall|c: int| before.classes@.len() <= c < self.classes@.len() ==> #[trigger] self.class_wf(c),
            forall|v: int| before.vtables@.len() <= v < self.vtables@.len() ==> (#[trigger] self.vtables@[v]).wf(),
        ensures
            self.wf(),
    {
        assert forall|o: int| 0 <= o < self.objects@.len() implies #[trigger] self.object_wf(o) by {
            if o < before.objects@.len() {
                assert(before.object_wf(o));
                assert(self.objects@[o] == before.objects@[o]);
                match self.objects@[o].base.instance_of {
                    Some(c) => {
                        assert(before.class_wf(c.0 as int));
                        assert(self.classes@[c.0 as int] == before.classes@[c.0 as int]);
                    },
                    None => {},
                }
                match self.objects@[o].kind {
                    ObjectKind::Class(c) => {
                        assert(self.classes@[c.0 as int] == before.classes@[c.0 as int]);
                    },
                    _ => {},
                }
            }
        }
        assert forall|c: int| 0 <= c < self.classes@.len() implies #[trigger] self.class_wf(c) by {
            if c < before.classes@.len() {
                assert(before.class_wf(c));
                assert(self.classes@[c] == before.classes@[c]);
                assert(self.objects@[before.classes@[c].base as int] == before.objects@[before.classes@[c].base as int]);
            }
        }
        assert forall|v: int| 0 <= v < self.vtables@.len() implies (#[trigger] self.vtables@[v]).wf() by {
            if v < before.vtables@.len() {
                assert(before.vtables@[v].wf());
                assert(self.vtables@[v] == before.vtables@[v]);
            }
        }
    }
    /// Whether `other` differs from `self` at most in the object `o` and in
    /// the class object `c`.
    pub open spec fn same_but(&self, other: &Runtime, o: ObjectId, c: ClassObject) -> bool {
        &&& other.interner == self.interner
        &&& other.vtables == self.vtables
        &&& other.definitions == self.definitions
        &&& other.scopes == self.scopes
        &&& other.call_stack == self.call_stack
        &&& other.system == self.system
        &&& other.names == self.names
        &&& other.objects@.len() == self.objects@.len()
        &&& other.classes@.len() == self.classes@.len()
        &&& forall|i: int|
            0 <= i < self.objects@.len() && i != o ==> other.objects@[i] == self.objects@[i]
        &&& forall|j: int|
            0 <= j < self.classes@.len() && j != c.0 ==> other.classes@[j] == self.classes@[j]
    }

    /// A change of one object and one class object keeps the runtime sound
    /// if both stay sound, the object stays what it was and keeps having a
    /// class if it had one, and the class object keeps its object and its
    /// definition.
    pub proof fn lemma_changed(&self, other: &Runtime, o: ObjectId, c: ClassObject)
        requires
            self.wf(),
            self.same_but(other, o, c),
            o < self.objects@.len() ==> {
                &&& other.object_wf(o as int)
                &&& other.objects@[o as int].kind == self.objects@[o as int].kind
                &&& self.objects@[o as int].base.instance_of is Some
                    ==> other.objects@[o as int].base.instance_of is Some
            },
            c.0 < self.classes@.len() ==> {
                &&& other.class_wf(c.0 as int)
                &&& other.classes@[c.0 as int].base == self.classes@[c.0 as int].base
                &&& other.classes@[c.0 as int].class == self.classes@[c.0 as int].class
            },
        ensures
            other.wf(),
    {
        assert forall|i: int| 0 <= i < other.objects@.len() implies #[trigger] other.object_wf(
            i,
        ) by {
            if i != o {
                assert(self.object_wf(i));
                match self.objects@[i].base.instance_of {
                    Some(ci) => {
                        assert(self.class_wf(ci.0 as int));
                    },
                    None => {},
                }
            }
        }
        assert forall|j: int| 0 <= j < other.classes@.len() implies #[trigger] other.class_wf(
            j,
        ) by {
            if j != c.0 {
                assert(self.class_wf(j));
                if o < self.objects@.len() && self.classes@[j].base == o {
                    assert(self.object_wf(o as int));
                }
            }
        }
        assert forall|v: int| 0 <= v < other.vtables@.len() implies (#[trigger] other.vtables@[v]).wf() by {
            assert(self.vtables@[v].wf());
        }
    }
    /// A change of one class object keeps the runtime sound if the class
    /// object stays sound and keeps its object and its definition.
    pub proof fn lemma_class_changed(&self, other: &Runtime, c: ClassObject)
        requires
            self.wf(),
            c.0 < self.classes@.len(),
            other.interner == self.interner,
            other.objects == self.objects,
            other.vtables == self.vtables,
            other.definitions == self.definitions,
            other.scopes == self.scopes,
            other.system == self.system,
            other.names == self.names,
            other.classes@.len() == self.classes@.len(),
            forall|j: int|
                0 <= j < self.classes@.len() && j != c.0 ==> other.classes@[j] == self.classes@[j],
            other.class_wf(c.0 as int),
            other.classes@[c.0 as int].base == self.classes@[c.0 as int].base,
            other.classes@[c.0 as int].class == self.classes@[c.0 as int].class,
        ensures
            other.wf(),
    {
        assert forall|i: int| 0 <= i < other.objects@.len() implies #[trigger] other.object_wf(
            i,
        ) by {
            assert(self.object_wf(i));
            match self.objects@[i].base.instance_of {
                Some(ci) => {
                    assert(self.class_wf(ci.0 as int));
                },
                None => {},
            }
        }
        assert forall|j: int| 0 <= j < other.classes@.len() implies #[trigger] other.class_wf(
            j,
        ) by {
            if j != c.0 {
                assert(self.class_wf(j));
            }
        }
        assert forall|v: int| 0 <= v < other.vtables@.len() implies (#[trigger] other.vtables@[v]).wf() by {
            assert(self.vtables@[v].wf());
        }
    }
    /// Replaces the property table `v`.
    pub fn store_table(&mut self, v: VTableId, table: VTable)
        requires
            old(self).wf(),
            v < old(self).vtables@.len(),
            table.wf(),
        ensures
            final(self).wf(),
            final(self).vtables@ == old(self).vtables@.update(v as int, table),
            final(self).interner == old(self).interner,
            final(self).objects == old(self).objects,
            final(self).classes == old(self).classes,
            final(self).definitions == old(self).definitions,
            final(self).scopes == old(self).scopes,
            final(self).call_stack == old(self).call_stack,
            final(self).system == old(self).system,
            final(self).names == old(self).names,
    {
        self.vtables.set(v, table);
        proof {
            assert forall|o: int| 0 <= o < self.objects@.len() implies #[trigger] self.object_wf(
                o,
            ) by {
                assert(old(self).object_wf(o));
            }
            assert forall|c: int| 0 <= c < self.classes@.len() implies #[trigger] self.class_wf(
                c,
            ) by {
                assert(old(self).class_wf(c));
            }
            assert forall|i: int| 0 <= i < self.vtables@.len() implies (#[trigger] self.vtables@[i]).wf() by {
                if i != v {
                    assert(old(self).vtables@[i].wf());
                }
            }
        }
    }
    /// Whether `other` differs from `self` at most in the class object `c`
    /// and in property tables.
    pub open spec fn same_but_class_and_tables(&self, other: &Runtime, c: ClassObject) -> bool {
        &&& other.interner == self.interner
        &&& other.objects == self.objects
        &&& other.definitions == self.definitions
        &&& other.scopes == self.scopes
        &&& other.call_stack == self.call_stack
        &&& other.system == self.system
        &&& other.names == self.names
        &&& other.vtables@.len() == self.vtables@.len()
        &&& other.classes@.len() == self.classes@.len()
        &&& forall|j: int|
            0 <= j < self.classes@.len() && j != c.0 ==> other.classes@[j] == self.classes@[j]
    }
    /// Whether `other` differs from `self` at most in the property table
    /// `v`.
    pub open spec fn same_but_table(&self, other: &Runtime, v: VTableId) -> bool {
        &&& other.interner == self.interner
        &&& other.objects == self.objects
        &&& other.classes == self.classes
        &&& other.definitions == self.definitions
        &&& other.scopes == self.scopes
        &&& other.call_stack == self.call_stack
        &&& other.system == self.system
        &&& other.names == self.names
        &&& other.vtables@.len() == self.vtables@.len()
        &&& forall|i: int|
            0 <= i < self.vtables@.len() && i != v ==> other.vtables@[i] == self.vtables@[i]
    }

    /// A change of one property table keeps the runtime sound if the table
    /// stays sound.
    pub proof fn lemma_table_changed(&self, other: &Runtime, v: VTableId)
        requires
            self.wf(),
            self.same_but_table(other, v),
            v < self.vtables@.len() ==> other.vtables@[v as int].wf(),
        ensures
            other.wf(),
    {
        assert forall|o: int| 0 <= o < other.objects@.len() implies #[trigger] other.object_wf(
            o,
        ) by {
            assert(self.object_wf(o));
        }
        assert forall|c: int| 0 <= c < other.classes@.len() implies #[trigger] other.class_wf(
            c,
        ) by {
            assert(self.class_wf(c));
        }
        assert forall|i: int| 0 <= i < other.vtables@.len() implies (#[trigger] other.vtables@[i]).wf() by {
            if i != v {
                assert(self.vtables@[i].wf());
            }
        }
    }
    /// Names the classes that the runtime itself relies on.
    pub fn set_system_classes(&mut self, system: SystemClasses)
        requires
            old(self).wf(),
            system.object matches Some(c) ==> old(self).has_class(c),
            system.function matches Some(c) ==> old(self).has_class(c),
            system.class matches Some(c) ==> old(self).has_class(c),
            system.object_vector matches Some(c) ==> old(self).has_class(c),
        ensures
            final(self).wf(),
            *final(self) == (Runtime { system, ..*old(self) }),
    {
        self.system = system;
        proof {
            assert forall|o: int| 0 <= o < self.objects@.len() implies #[trigger] self.object_wf(
                o,
            ) by {
                assert(old(self).object_wf(o));
            }
            assert forall|c: int| 0 <= c < self.classes@.len() implies #[trigger] self.class_wf(
                c,
            ) by {
                assert(old(self).class_wf(c));
            }
        }
    }
}

} // verus!
