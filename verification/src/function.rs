//! Executables: a method together with what it needs to run.

use vstd::prelude::*;
use crate::call_stack::CallStack;
use crate::class_object::ClassObject;
use crate::error::Error;
use crate::runtime::Runtime;
use crate::value::Value;
use crate::strings::decimal;
use crate::strings::to_decimal;
use crate::traits::Trait;
use crate::traits::TraitKind;
use vstd::string::StringExecFns;
use vstd::string::StrSliceExecFns;
use crate::method::BytecodeMethod;
use crate::method::Method;
use crate::method::NativeMethod;
use crate::scope::ScopeChain;
use crate::value::ObjectId;

verus! {

/// A bytecode method that can be run.
#[derive(Clone, Copy, Debug, PartialEq, Eq, Structural)]
pub struct BytecodeExecutable {
    pub method: BytecodeMethod,
    /// The scope in which the method was defined.
    pub scope: ScopeChain,
    /// The receiver that every call gets, if the executable is bound.
    pub receiver: Option<ObjectId>,
    /// The class that defined the method, where `super` starts.
    pub bound_superclass: Option<ClassObject>,
}

/// A method of the host that can be run.
#[derive(Clone, Copy, Debug, PartialEq, Eq, Structural)]
pub struct NativeExecutable {
    pub method: NativeMethod,
    /// The scope in which the method was defined.
    pub scope: ScopeChain,
    /// The receiver that every call gets, if the executable is bound.
    pub bound_receiver: Option<ObjectId>,
    /// The class that defined the method, where `super` starts.
    pub bound_superclass: Option<ClassObject>,
}

/// Code that can be run.
#[derive(Clone, Copy, Debug, PartialEq, Eq, Structural)]
pub enum Executable {
    Native(NativeExecutable),
    Action(BytecodeExecutable),
}

impl Executable {
    pub open spec fn spec_from_method(
        method: Method,
        scope: ScopeChain,
        receiver: Option<ObjectId>,
        superclass: Option<ClassObject>,
    ) -> Executable {
        match method {
            Method::Native(method) => Executable::Native(
                NativeExecutable {
                    method,
                    scope,
                    bound_receiver: receiver,
                    bound_superclass: superclass,
                },
            ),
            Method::Bytecode(method) => Executable::Action(
                BytecodeExecutable { method, scope, receiver, bound_superclass: superclass },
            ),
        }
    }

    pub open spec fn spec_bound_superclass(&self) -> Option<ClassObject> {
        match *self {
            Executable::Native(e) => e.bound_superclass,
            Executable::Action(e) => e.bound_superclass,
        }
    }

    pub open spec fn spec_bound_receiver(&self) -> Option<ObjectId> {
        match *self {
            Executable::Native(e) => e.bound_receiver,
            Executable::Action(e) => e.receiver,
        }
    }

    pub open spec fn spec_scope(&self) -> ScopeChain {
        match *self {
            Executable::Native(e) => e.scope,
            Executable::Action(e) => e.scope,
        }
    }

    pub open spec fn spec_as_method(&self) -> Method {
        match *self {
            Executable::Native(e) => Method::Native(e.method),
            Executable::Action(e) => Method::Bytecode(e.method),
        }
    }

    /// The executable that runs `method` in `scope`, bound to `receiver` and
    /// to the defining class `superclass` where they are given.
    #[verifier::when_used_as_spec(spec_from_method)]
    pub fn from_method(
        method: Method,
        scope: ScopeChain,
        receiver: Option<ObjectId>,
        superclass: Option<ClassObject>,
    ) -> (r: Executable)
        ensures
            r == Executable::spec_from_method(method, scope, receiver, superclass),
    {
        match method {
            Method::Native(method) => Executable::Native(
                NativeExecutable {
                    method,
                    scope,
                    bound_receiver: receiver,
                    bound_superclass: superclass,
                },
            ),
            Method::Bytecode(method) => Executable::Action(
                BytecodeExecutable { method, scope, receiver, bound_superclass: superclass },
            ),
        }
    }

    /// The class that defined the method, if the executable is bound to one.
    #[verifier::when_used_as_spec(spec_bound_superclass)]
    pub fn bound_superclass(&self) -> (r: Option<ClassObject>)
        ensures
            r == self.spec_bound_superclass(),
    {
        match *self {
            Executable::Native(e) => e.bound_superclass,
            Executable::Action(e) => e.bound_superclass,
        }
    }

    /// The method that the executable runs.
    #[verifier::when_used_as_spec(spec_as_method)]
    pub fn as_method(&self) -> (r: Method)
        ensures
            r == self.spec_as_method(),
    {
        match *self {
            Executable::Native(e) => Method::Native(e.method),
            Executable::Action(e) => Method::Bytecode(e.method),
        }
    }

    /// The number of parameters that the method declares.
    pub fn num_parameters(&self) -> (r: usize)
        ensures
            r == (match *self {
                Executable::Native(e) => e.method.signature_len,
                Executable::Action(e) => e.method.signature_len,
            }),
    {
        match *self {
            Executable::Native(e) => e.method.signature_len,
            Executable::Action(e) => e.method.signature_len,
        }
    }
}

/// How far a call of an executable has come.
#[derive(Clone, Copy, Debug, PartialEq, Eq, Structural)]
pub enum ExecState {
    /// Nothing was done yet.
    Ready,
    /// The caller's receiver is being made an object.
    AwaitingReceiver,
    /// The code is running; its frame is on the call stack.
    Invoked,
    /// The call is over.
    Finished,
}

/// What happened outside the library since the last step of a call.
#[derive(Clone, Copy, Debug)]
pub enum ExecEvent {
    /// The call begins.
    Start,
    /// The caller's receiver was made an object, or could not be.
    Receiver(Result<usize, Error>),
    /// The code returned a value, or failed.
    Returned(Result<Value, Error>),
}

/// What the interpreter has to do after a step of a call.
#[allow(inconsistent_fields)]
#[derive(Debug)]
pub enum ExecAction {
    /// Make this value an object and report it.
    CoerceReceiver(Value),
    /// Call the host function of this method and report what it returns.
    CallNative {
        method: NativeMethod,
        scope: ScopeChain,
        receiver: ObjectId,
        arguments: Vec<Value>,
        bound_superclass: Option<ClassObject>,
    },
    /// Run the bytecode of this method in a new evaluation context and
    /// report what it returns.
    RunBytecode {
        method: BytecodeMethod,
        scope: ScopeChain,
        receiver: ObjectId,
        arguments: Vec<Value>,
        bound_superclass: Option<ClassObject>,
    },
    /// The call is over, with this outcome.
    Finish(Result<Value, Error>),
}

/// An action as a value of specifications.
#[allow(inconsistent_fields)]
pub enum ActionView {
    CoerceReceiver(Value),
    CallNative {
        method: NativeMethod,
        scope: ScopeChain,
        receiver: ObjectId,
        arguments: Seq<Value>,
        bound_superclass: Option<ClassObject>,
    },
    RunBytecode {
        method: BytecodeMethod,
        scope: ScopeChain,
        receiver: ObjectId,
        arguments: Seq<Value>,
        bound_superclass: Option<ClassObject>,
    },
    Finish(Result<Value, Error>),
}

impl View for ExecAction {
    type V = ActionView;

    open spec fn view(&self) -> ActionView {
        match *self {
            ExecAction::CoerceReceiver(v) => ActionView::CoerceReceiver(v),
            ExecAction::CallNative { method, scope, receiver, arguments, bound_superclass } => ActionView::CallNative {
                method,
                scope,
                receiver,
                arguments: arguments@,
                bound_superclass,
            },
            ExecAction::RunBytecode { method, scope, receiver, arguments, bound_superclass } => ActionView::RunBytecode {
                method,
                scope,
                receiver,
                arguments: arguments@,
                bound_superclass,
            },
            ExecAction::Finish(r) => ActionView::Finish(r),
        }
    }
}

impl ActionView {
    /// Whether the action runs the code of the executable.
    pub open spec fn invokes(&self) -> bool {
        *self is CallNative || *self is RunBytecode
    }
}

/// Where the receiver of a call comes from.
pub enum ReceiverSource {
    /// It is this object.
    Known(ObjectId),
    /// The caller's value has to be made an object.
    Coerce(Value),
    /// There is none: the caller gave none and the scope has no global
    /// object.
    Missing,
}

impl Executable {
    /// The receiver of a call: the bound receiver wins; else, for a caller
    /// that passes `null` or `undefined`, the global object of the captured
    /// scope; else the caller's value, made an object.
    pub open spec fn receiver_source(&self, rt: &Runtime, unbound_receiver: Value) -> ReceiverSource {
        match self.spec_bound_receiver() {
            Some(r) => ReceiverSource::Known(r),
            None => if unbound_receiver is Null || unbound_receiver is Undefined {
                match rt.spec_global_object(self.spec_scope()) {
                    Some(g) => ReceiverSource::Known(g),
                    None => ReceiverSource::Missing,
                }
            } else {
                ReceiverSource::Coerce(unbound_receiver)
            },
        }
    }

    /// The arguments that the code gets: for a bytecode method that is not
    /// variadic, no more than it declares parameters.
    pub open spec fn passed_arguments(&self, arguments: Seq<Value>) -> Seq<Value> {
        match *self {
            Executable::Native(e) => arguments,
            Executable::Action(e) => if arguments.len() > e.method.signature_len
                && !e.method.is_variadic {
                arguments.take(e.method.signature_len as int)
            } else {
                arguments
            },
        }
    }

    /// Why the call is refused for its number of arguments, if it is: a
    /// native method that is not variadic takes no more arguments than it
    /// declares parameters.
    pub open spec fn arity_error(&self, arguments: Seq<Value>) -> Option<Error> {
        match *self {
            Executable::Native(e) => if arguments.len() > e.method.signature_len
                && !e.method.is_variadic {
                Some(
                    Error::TooManyArguments {
                        method: e.method.name,
                        given: arguments.len() as usize,
                        allowed: e.method.signature_len,
                    },
                )
            } else {
                None
            },
            Executable::Action(e) => None,
        }
    }

    /// The action that runs the code on `receiver`.
    pub open spec fn invocation(&self, receiver: ObjectId, arguments: Seq<Value>) -> ActionView {
        match *self {
            Executable::Native(e) => ActionView::CallNative {
                method: e.method,
                scope: e.scope,
                receiver,
                arguments: self.passed_arguments(arguments),
                bound_superclass: e.bound_superclass,
            },
            Executable::Action(e) => ActionView::RunBytecode {
                method: e.method,
                scope: e.scope,
                receiver,
                arguments: self.passed_arguments(arguments),
                bound_superclass: e.bound_superclass,
            },
        }
    }

    /// The step that follows once the receiver is known: the call is refused
    /// for its number of arguments, or its code is to be run.
    pub open spec fn enter(&self, receiver: ObjectId, arguments: Seq<Value>) -> (ExecState, ActionView) {
        match self.arity_error(arguments) {
            Some(e) => (ExecState::Finished, ActionView::Finish(Err(e))),
            None => (ExecState::Invoked, self.invocation(receiver, arguments)),
        }
    }

    /// Whether `event` is what a call in the state `state` waits for.
    pub open spec fn accepts(state: ExecState, event: ExecEvent) -> bool {
        match (state, event) {
            (ExecState::Ready, ExecEvent::Start) => true,
            (ExecState::AwaitingReceiver, ExecEvent::Receiver(_)) => true,
            (ExecState::Invoked, ExecEvent::Returned(_)) => true,
            _ => false,
        }
    }

    /// The next state and the action of a call in the state `state` on the
    /// event `event`.
    pub open spec fn step(
        &self,
        rt: &Runtime,
        state: ExecState,
        event: ExecEvent,
        unbound_receiver: Value,
        arguments: Seq<Value>,
    ) -> (ExecState, ActionView) {
        match (state, event) {
            (ExecState::Ready, ExecEvent::Start) => match self.receiver_source(rt, unbound_receiver) {
                ReceiverSource::Known(r) => self.enter(r, arguments),
                ReceiverSource::Coerce(v) => (
                    ExecState::AwaitingReceiver,
                    ActionView::CoerceReceiver(v),
                ),
                ReceiverSource::Missing => (
                    ExecState::Finished,
                    ActionView::Finish(Err(Error::ReceiverNotAnObject)),
                ),
            },
            (ExecState::AwaitingReceiver, ExecEvent::Receiver(Ok(r))) => self.enter(r, arguments),
            (ExecState::AwaitingReceiver, ExecEvent::Receiver(Err(e))) => (
                ExecState::Finished,
                ActionView::Finish(Err(e)),
            ),
            (ExecState::Invoked, ExecEvent::Returned(result)) => (
                ExecState::Finished,
                ActionView::Finish(result),
            ),
            _ => (state, ActionView::Finish(Err(Error::ReceiverNotAnObject))),
        }
    }

    /// The call stack after the step: the frame of the call is pushed when
    /// its code is to be run, and popped when the code has returned, whether
    /// with a value or with an error.
    pub open spec fn stack_after(
        &self,
        stack: Seq<crate::call_stack::CallNode>,
        state: ExecState,
        next: (ExecState, ActionView),
    ) -> Seq<crate::call_stack::CallNode> {
        if next.1.invokes() {
            stack.push(CallStack::frame_of(self))
        } else if state == ExecState::Invoked && stack.len() > 0 {
            stack.drop_last()
        } else {
            stack
        }
    }

    fn resolve_receiver(&self, rt: &Runtime, unbound_receiver: Value) -> (r: ReceiverSource)
        ensures
            r == self.receiver_source(rt, unbound_receiver),
    {
        let (bound, scope) = match *self {
            Executable::Native(e) => (e.bound_receiver, e.scope),
            Executable::Action(e) => (e.receiver, e.scope),
        };
        match bound {
            Some(r) => ReceiverSource::Known(r),
            None => {
                let absent = match unbound_receiver {
                    Value::Null => true,
                    Value::Undefined => true,
                    _ => false,
                };
                if absent {
                    match rt.global_object(scope) {
                        Some(g) => ReceiverSource::Known(g),
                        None => ReceiverSource::Missing,
                    }
                } else {
                    ReceiverSource::Coerce(unbound_receiver)
                }
            },
        }
    }

    fn enter_call(&self, rt: &mut Runtime, receiver: ObjectId, arguments: &Vec<Value>) -> (r: (
        ExecState,
        ExecAction,
    ))
        ensures
            (r.0, r.1@) == self.enter(receiver, arguments@),
            final(rt).call_stack.stack@ == self.stack_after(
                old(rt).call_stack.stack@,
                ExecState::Ready,
                self.enter(receiver, arguments@),
            ),
            final(rt).interner == old(rt).interner,
            final(rt).objects == old(rt).objects,
            final(rt).classes == old(rt).classes,
            final(rt).vtables == old(rt).vtables,
            final(rt).definitions == old(rt).definitions,
            final(rt).scopes == old(rt).scopes,
            final(rt).system == old(rt).system,
            final(rt).names == old(rt).names,
            old(rt).wf() ==> final(rt).wf(),
    {
        match *self {
            Executable::Native(e) => {
                if arguments.len() > e.method.signature_len && !e.method.is_variadic {
                    return (
                        ExecState::Finished,
                        ExecAction::Finish(
                            Err(
                                Error::TooManyArguments {
                                    method: e.method.name,
                                    given: arguments.len(),
                                    allowed: e.method.signature_len,
                                },
                            ),
                        ),
                    );
                }
                assert(arguments@.take(arguments@.len() as int) =~= arguments@);
                rt.push_call(self);
                (
                    ExecState::Invoked,
                    ExecAction::CallNative {
                        method: e.method,
                        scope: e.scope,
                        receiver,
                        arguments: first(arguments, arguments.len()),
                        bound_superclass: e.bound_superclass,
                    },
                )
            },
            Executable::Action(e) => {
                let count = if arguments.len() > e.method.signature_len && !e.method.is_variadic {
                    e.method.signature_len
                } else {
                    arguments.len()
                };
                assert(arguments@.take(arguments@.len() as int) =~= arguments@);
                rt.push_call(self);
                (
                    ExecState::Invoked,
                    ExecAction::RunBytecode {
                        method: e.method,
                        scope: e.scope,
                        receiver,
                        arguments: first(arguments, count),
                        bound_superclass: e.bound_superclass,
                    },
                )
            },
        }
    }

    /// Makes one step of a call of this executable.
    ///
    /// A call starts in the state `Ready` with the event `Start`, and goes on
    /// with the state that the step before returned and with what the
    /// interpreter reports of the action that it returned, until the action
    /// is `Finish`. First the receiver is found; then a native method that
    /// gets more arguments than it declares fails, while a bytecode method
    /// gets no more arguments than it declares; then the frame of the call
    /// is pushed on the call stack and the code is to be run; when the code
    /// has returned, the frame is popped, whatever the code returned.
    pub fn exec(
        &self,
        state: ExecState,
        event: ExecEvent,
        unbound_receiver: Value,
        arguments: &Vec<Value>,
        rt: &mut Runtime,
    ) -> (r: (ExecState, ExecAction))
        requires
            Self::accepts(state, event),
        ensures
            (r.0, r.1@) == self.step(old(rt), state, event, unbound_receiver, arguments@),
            final(rt).call_stack.stack@ == self.stack_after(
                old(rt).call_stack.stack@,
                state,
                self.step(old(rt), state, event, unbound_receiver, arguments@),
            ),
            final(rt).interner == old(rt).interner,
            final(rt).objects == old(rt).objects,
            final(rt).classes == old(rt).classes,
            final(rt).vtables == old(rt).vtables,
            final(rt).definitions == old(rt).definitions,
            final(rt).scopes == old(rt).scopes,
            final(rt).system == old(rt).system,
            final(rt).names == old(rt).names,
            old(rt).wf() ==> final(rt).wf(),
    {
        match (state, event) {
            (ExecState::Ready, ExecEvent::Start) => match self.resolve_receiver(rt, unbound_receiver) {
                ReceiverSource::Known(r) => self.enter_call(rt, r, arguments),
                ReceiverSource::Coerce(v) => (
                    ExecState::AwaitingReceiver,
                    ExecAction::CoerceReceiver(v),
                ),
                ReceiverSource::Missing => (
                    ExecState::Finished,
                    ExecAction::Finish(Err(Error::ReceiverNotAnObject)),
                ),
            },
            (ExecState::AwaitingReceiver, ExecEvent::Receiver(Ok(r))) => self.enter_call(
                rt,
                r,
                arguments,
            ),
            (ExecState::AwaitingReceiver, ExecEvent::Receiver(Err(e))) => (
                ExecState::Finished,
                ExecAction::Finish(Err(e)),
            ),
            (ExecState::Invoked, ExecEvent::Returned(result)) => {
                rt.pop_call();
                (ExecState::Finished, ExecAction::Finish(result))
            },
            _ => (state, ExecAction::Finish(Err(Error::ReceiverNotAnObject))),
        }
    }

    /// An executable is invoked at most once by one call.
    ///
    /// The code is to be run only on a step that leads into the state
    /// `Invoked`, and no step from `Invoked` or from `Finished` runs it
    /// again: from `Invoked` a call can only finish, with what the code
    /// returned.
    pub proof fn lemma_invoked_at_most_once(
        &self,
        rt: &Runtime,
        state: ExecState,
        event: ExecEvent,
        unbound_receiver: Value,
        arguments: Seq<Value>,
    )
        ensures
            self.step(rt, state, event, unbound_receiver, arguments).1.invokes() ==> {
                &&& state == ExecState::Ready || state == ExecState::AwaitingReceiver
                &&& self.step(rt, state, event, unbound_receiver, arguments).0 == ExecState::Invoked
            },
            state == ExecState::Invoked && Self::accepts(state, event) ==> {
                &&& self.step(rt, state, event, unbound_receiver, arguments).0 == ExecState::Finished
                &&& self.step(rt, state, event, unbound_receiver, arguments).1 == ActionView::Finish(
                    event->Returned_0,
                )
            },
            !Self::accepts(state, event) ==> self.step(
                rt,
                state,
                event,
                unbound_receiver,
                arguments,
            ).0 == state,
    {
    }
}

fn first(values: &Vec<Value>, count: usize) -> (r: Vec<Value>)
    requires
        count <= values@.len(),
    ensures
        r@ == values@.take(count as int),
{
    let mut r: Vec<Value> = Vec::new();
    let mut i: usize = 0;
    while i < count
        invariant
            i <= count,
            count <= values@.len(),
            r@ == values@.take(i as int),
        decreases count - i,
    {
        r.push(values[i]);
        assert(values@.take(i + 1) =~= values@.take(i as int).push(values@[i as int]));
        i += 1;
    }
    r
}

/// The first of `traits`, from the position `from` on, that declares the
/// bytecode method with the identity `id`.
pub open spec fn find_method_trait(traits: Seq<Trait>, id: usize, from: int) -> Option<Trait>
    decreases traits.len() - from,
{
    if from < 0 || from >= traits.len() {
        None
    } else if declares_bytecode(traits[from], id) {
        Some(traits[from])
    } else {
        find_method_trait(traits, id, from + 1)
    }
}

/// Whether `t` declares, as method, getter or setter, the bytecode method
/// with the identity `id`.
pub open spec fn declares_bytecode(t: Trait, id: usize) -> bool {
    match t.kind {
        TraitKind::Method { method: Method::Bytecode(b) } => b.id == id,
        TraitKind::Getter { method: Method::Bytecode(b) } => b.id == id,
        TraitKind::Setter { method: Method::Bytecode(b) } => b.id == id,
        _ => false,
    }
}

/// Whether `method` is the bytecode method with the identity `id`.
pub open spec fn is_bytecode(method: Method, id: usize) -> bool {
    match method {
        Method::Bytecode(b) => b.id == id,
        Method::Native(_) => false,
    }
}

/// The name of a trait in a stack trace: after a slash, `get ` or `set ` for
/// an accessor, and the trait's name, qualified where its namespace is a
/// plain namespace.
pub open spec fn trait_text(rt: &Runtime, t: Trait) -> Seq<char> {
    seq!['/'] + (match t.kind {
        TraitKind::Setter { .. } => "set "@,
        TraitKind::Getter { .. } => "get "@,
        _ => Seq::<char>::empty(),
    }) + (if t.name.ns is Namespace {
        t.name.display_text(&rt.interner)
    } else {
        rt.interner.text_of(t.name.name)
    })
}

/// What a stack trace shows of a bytecode method of the class with the
/// definition `class`, after the class's name: `$cinit` for the class
/// initializer; nothing for the constructor; for a trait of instances its
/// name, for a trait of the class a `$` and its name; else the method's own
/// name where it has one.
pub open spec fn member_text(rt: &Runtime, class: int, method: crate::method::BytecodeMethod) -> Seq<char> {
    let definition = rt.definitions@[class];
    if is_bytecode(definition.class_init, method.id) {
        "$cinit"@
    } else if is_bytecode(definition.instance_init, method.id) {
        Seq::<char>::empty()
    } else {
        match find_method_trait(definition.instance_traits@, method.id, 0) {
            Some(t) => trait_text(rt, t),
            None => match find_method_trait(definition.class_traits@, method.id, 0) {
                Some(t) => seq!['$'] + trait_text(rt, t),
                None => if rt.interner.text_of(method.method_name).len() > 0 {
                    seq!['/'] + rt.interner.text_of(method.method_name)
                } else {
                    Seq::<char>::empty()
                },
            },
        }
    }
}

/// What a stack trace shows of a call of `method`, which the class
/// `superclass` defined if one did: the class's name; then for a native
/// method a slash and its name, for a bytecode method of a class what
/// `member_text` gives, for a free function `Function/` and its name, and for
/// any other bytecode method `MethodInfo-` and its index; then `()`.
pub open spec fn function_text(rt: &Runtime, method: Method, superclass: Option<ClassObject>) -> Seq<char> {
    let class_name = match superclass {
        Some(c) => rt.definition_of(c).name.display_text(&rt.interner),
        None => Seq::<char>::empty(),
    };
    let member = match method {
        Method::Native(m) => seq!['/'] + rt.interner.text_of(m.name),
        Method::Bytecode(m) => match superclass {
            Some(c) => member_text(rt, rt.classes@[c.0 as int].class as int, m),
            None => if m.is_function && rt.interner.text_of(m.method_name).len() > 0 {
                "Function/"@ + rt.interner.text_of(m.method_name)
            } else {
                "MethodInfo-"@ + decimal(m.abc_method as nat)
            },
        },
    };
    class_name + member + "()"@
}

fn search_traits(traits: &Vec<Trait>, id: usize) -> (r: Option<Trait>)
    ensures
        r == find_method_trait(traits@, id, 0),
{
    let mut i: usize = 0;
    while i < traits.len()
        invariant
            i <= traits@.len(),
            find_method_trait(traits@, id, 0) == find_method_trait(traits@, id, i as int),
        decreases traits@.len() - i,
    {
        let t = traits[i];
        let found = match t.kind {
            TraitKind::Method { method: Method::Bytecode(b) } => b.id == id,
            TraitKind::Getter { method: Method::Bytecode(b) } => b.id == id,
            TraitKind::Setter { method: Method::Bytecode(b) } => b.id == id,
            _ => false,
        };
        if found {
            return Some(t);
        }
        i += 1;
    }
    None
}

fn trait_name(rt: &Runtime, t: Trait) -> (r: String)
    ensures
        r@ == trait_text(rt, t),
{
    proof {
        reveal_strlit("/");
        reveal_strlit("set ");
        reveal_strlit("get ");
    }
    let mut out = String::from_str("/");
    assert("/"@ =~= seq!['/']);
    match t.kind {
        TraitKind::Setter { .. } => {
            out.append("set ");
        },
        TraitKind::Getter { .. } => {
            out.append("get ");
        },
        _ => {
            assert(out@ + Seq::<char>::empty() =~= out@);
        },
    }
    if t.name.ns.is_namespace() {
        let name = t.name.to_display_string(&rt.interner);
        out.append(name.as_str());
    } else {
        out.append(rt.interner.resolve(t.name.name));
    }
    out
}

fn member_name(rt: &Runtime, class: usize, method: crate::method::BytecodeMethod) -> (r: String)
    requires
        class < rt.definitions@.len(),
    ensures
        r@ == member_text(rt, class as int, method),
{
    let definition = &rt.definitions[class];
    let is_class_init = match definition.class_init {
        Method::Bytecode(b) => b.id == method.id,
        Method::Native(_) => false,
    };
    let is_instance_init = match definition.instance_init {
        Method::Bytecode(b) => b.id == method.id,
        Method::Native(_) => false,
    };
    if is_class_init {
        String::from_str("$cinit")
    } else if is_instance_init {
        String::new()
    } else {
        match search_traits(&definition.instance_traits, method.id) {
            Some(t) => trait_name(rt, t),
            None => match search_traits(&definition.class_traits, method.id) {
                Some(t) => {
                    proof {
                        reveal_strlit("$");
                    }
                    assert("$"@ =~= seq!['$']);
                    let mut out = String::from_str("$");
                    let name = trait_name(rt, t);
                    out.append(name.as_str());
                    out
                },
                None => {
                    let name = rt.interner.resolve(method.method_name);
                    if name.unicode_len() > 0 {
                        proof {
                            reveal_strlit("/");
                        }
                        assert("/"@ =~= seq!['/']);
                        let mut out = String::from_str("/");
                        out.append(name);
                        out
                    } else {
                        String::new()
                    }
                },
            },
        }
    }
}

/// Appends to `output` what a stack trace shows of a call of `method`:
/// `function_text`.
pub fn display_function(
    output: &mut String,
    method: &Method,
    superclass: Option<ClassObject>,
    rt: &Runtime,
)
    requires
        rt.wf(),
        superclass matches Some(c) ==> rt.has_class(c),
    ensures
        final(output)@ == old(output)@ + function_text(rt, *method, superclass),
{
    let ghost class_name = match superclass {
        Some(c) => rt.definition_of(c).name.display_text(&rt.interner),
        None => Seq::<char>::empty(),
    };
    match superclass {
        Some(c) => {
            proof {
                assert(rt.class_wf(c.0 as int));
            }
            let name = rt.definitions[rt.classes[c.0].class].name.to_display_string(&rt.interner);
            output.append(name.as_str());
        },
        None => {
            assert(output@ + Seq::<char>::empty() =~= output@);
        },
    }
    assert(output@ == old(output)@ + class_name);
    let ghost member: Seq<char>;
    match *method {
        Method::Native(m) => {
            proof {
                reveal_strlit("/");
                member = seq!['/'] + rt.interner.text_of(m.name);
            }
            assert("/"@ =~= seq!['/']);
            output.append("/");
            output.append(rt.interner.resolve(m.name));
            assert(output@ =~= old(output)@ + class_name + member);
        },
        Method::Bytecode(m) => {
            match superclass {
                Some(c) => {
                    let text = member_name(rt, rt.classes[c.0].class, m);
                    proof {
                        member = text@;
                    }
                    output.append(text.as_str());
                },
                None => {
                    let name = rt.interner.resolve(m.method_name);
                    if m.is_function && name.unicode_len() > 0 {
                        proof {
                            member = "Function/"@ + rt.interner.text_of(m.method_name);
                        }
                        output.append("Function/");
                        output.append(name);
                    } else {
                        proof {
                            member = "MethodInfo-"@ + decimal(m.abc_method as nat);
                        }
                        output.append("MethodInfo-");
                        let index = to_decimal(m.abc_method as u64);
                        output.append(index.as_str());
                    }
                    assert(output@ =~= old(output)@ + class_name + member);
                },
            }
        },
    }
    output.append("()");
    assert(output@ =~= old(output)@ + (class_name + member + "()"@));
}

impl Executable {
    /// Appends to `output` what a stack trace shows of a call of this
    /// executable.
    pub fn write_full_name(&self, output: &mut String, rt: &Runtime)
        requires
            rt.wf(),
            self.spec_bound_superclass() matches Some(c) ==> rt.has_class(c),
        ensures
            final(output)@ == old(output)@ + function_text(
                rt,
                self.spec_as_method(),
                self.spec_bound_superclass(),
            ),
    {
        let method = self.as_method();
        display_function(output, &method, self.bound_superclass(), rt);
    }
}

} // verus!
