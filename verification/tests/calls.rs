use avm_core::call_stack::CallNode;
use avm_core::call_stack::CallStack;
use avm_core::call_stack::Script;
use avm_core::call_stack::TranslationUnit;
use avm_core::class::Class;
use avm_core::class_object::ClassObject;
use avm_core::error::Error;
use avm_core::error::ErrorKind;
use avm_core::function::display_function;
use avm_core::function::ExecAction;
use avm_core::function::ExecEvent;
use avm_core::function::ExecState;
use avm_core::function::Executable;
use avm_core::method::BytecodeMethod;
use avm_core::method::Method;
use avm_core::method::NativeMethod;
use avm_core::namespace::Namespace;
use avm_core::qname::QName;
use avm_core::runtime::Runtime;
use avm_core::scope::ScopeChain;
use avm_core::script_object::ScriptObject;
use avm_core::traits::SlotType;
use avm_core::traits::Trait;
use avm_core::value::Value;

fn native_method(rt: &mut Runtime, name: &str, parameters: usize, variadic: bool) -> NativeMethod {
    NativeMethod { id: 1, name: rt.interner.intern(name), signature_len: parameters, is_variadic: variadic }
}

fn bytecode_method(rt: &mut Runtime, id: usize, name: &str, parameters: usize, variadic: bool) -> BytecodeMethod {
    BytecodeMethod {
        id,
        method_name: rt.interner.intern(name),
        signature_len: parameters,
        is_variadic: variadic,
        is_function: false,
        abc_method: 17,
    }
}

fn scoped() -> (Runtime, ScopeChain, usize) {
    let mut rt = Runtime::new();
    let global = ScriptObject::custom_object(&mut rt, None, None);
    let scope = rt.create_scopechain(vec![global]);
    (rt, scope, global)
}

fn numbers(count: i32) -> Vec<Value> {
    (0..count).map(Value::Integer).collect()
}

#[test]
fn a_native_call_refuses_surplus_arguments() {
    let (mut rt, scope, _) = scoped();
    let method = native_method(&mut rt, "strict", 2, false);
    let exec = Executable::from_method(Method::Native(method), scope, Some(0), None);
    let (state, action) = exec.exec(ExecState::Ready, ExecEvent::Start, Value::Undefined, &numbers(3), &mut rt);
    assert_eq!(state, ExecState::Finished);
    match action {
        ExecAction::Finish(Err(e)) => {
            assert_eq!(e, Error::TooManyArguments { method: method.name, given: 3, allowed: 2 });
            assert_eq!(e.kind(), ErrorKind::ArgumentError);
        }
        other => panic!("expected a failure, got {:?}", other),
    }
    assert!(rt.call_stack.is_empty());
    let (state, action) = exec.exec(ExecState::Ready, ExecEvent::Start, Value::Undefined, &numbers(2), &mut rt);
    assert_eq!(state, ExecState::Invoked);
    match action {
        ExecAction::CallNative { method: called, receiver, arguments, scope: in_scope, bound_superclass } => {
            assert_eq!(called, method);
            assert_eq!(receiver, 0);
            assert_eq!(arguments, numbers(2));
            assert_eq!(in_scope, scope);
            assert_eq!(bound_superclass, None);
        }
        other => panic!("expected the native call, got {:?}", other),
    }
    assert_eq!(rt.call_stack.stack.len(), 1);
}

#[test]
fn a_variadic_native_call_takes_any_number_of_arguments() {
    let (mut rt, scope, _) = scoped();
    let method = native_method(&mut rt, "open", 1, true);
    let exec = Executable::from_method(Method::Native(method), scope, Some(0), None);
    let (state, action) = exec.exec(ExecState::Ready, ExecEvent::Start, Value::Null, &numbers(5), &mut rt);
    assert_eq!(state, ExecState::Invoked);
    assert!(matches!(action, ExecAction::CallNative { ref arguments, .. } if *arguments == numbers(5)));
    assert_eq!(exec.num_parameters(), 1);
}

#[test]
fn a_bytecode_call_cuts_surplus_arguments() {
    let (mut rt, scope, _) = scoped();
    let method = bytecode_method(&mut rt, 5, "lenient", 2, false);
    let exec = Executable::from_method(Method::Bytecode(method), scope, Some(0), Some(ClassObject(3)));
    let (state, action) = exec.exec(ExecState::Ready, ExecEvent::Start, Value::Undefined, &numbers(4), &mut rt);
    assert_eq!(state, ExecState::Invoked);
    match action {
        ExecAction::RunBytecode { method: run, receiver, arguments, bound_superclass, .. } => {
            assert_eq!(run, method);
            assert_eq!(receiver, 0);
            assert_eq!(arguments, numbers(2));
            assert_eq!(bound_superclass, Some(ClassObject(3)));
        }
        other => panic!("expected the bytecode run, got {:?}", other),
    }
    let variadic = bytecode_method(&mut rt, 6, "rest", 2, true);
    let exec = Executable::from_method(Method::Bytecode(variadic), scope, Some(0), None);
    let (_, action) = exec.exec(ExecState::Ready, ExecEvent::Start, Value::Undefined, &numbers(4), &mut rt);
    assert!(matches!(action, ExecAction::RunBytecode { ref arguments, .. } if *arguments == numbers(4)));
    let (_, action) = exec.exec(ExecState::Ready, ExecEvent::Start, Value::Undefined, &numbers(1), &mut rt);
    assert!(matches!(action, ExecAction::RunBytecode { ref arguments, .. } if *arguments == numbers(1)));
}

#[test]
fn the_receiver_is_bound_or_global_or_coerced() {
    let (mut rt, scope, global) = scoped();
    let other = ScriptObject::custom_object(&mut rt, None, None);
    let method = bytecode_method(&mut rt, 5, "m", 0, false);
    let bound = Executable::from_method(Method::Bytecode(method), scope, Some(other), None);
    let free = Executable::from_method(Method::Bytecode(method), scope, None, None);
    let args = Vec::new();

    let (_, action) = bound.exec(ExecState::Ready, ExecEvent::Start, Value::Object(global), &args, &mut rt);
    assert!(matches!(action, ExecAction::RunBytecode { receiver, .. } if receiver == other));
    let (_, action) = free.exec(ExecState::Ready, ExecEvent::Start, Value::Null, &args, &mut rt);
    assert!(matches!(action, ExecAction::RunBytecode { receiver, .. } if receiver == global));
    let (_, action) = free.exec(ExecState::Ready, ExecEvent::Start, Value::Undefined, &args, &mut rt);
    assert!(matches!(action, ExecAction::RunBytecode { receiver, .. } if receiver == global));

    let depth = rt.call_stack.stack.len();
    let (state, action) = free.exec(ExecState::Ready, ExecEvent::Start, Value::Integer(3), &args, &mut rt);
    assert_eq!(state, ExecState::AwaitingReceiver);
    assert!(matches!(action, ExecAction::CoerceReceiver(Value::Integer(3))));
    assert_eq!(rt.call_stack.stack.len(), depth);
    let (state, action) = free.exec(state, ExecEvent::Receiver(Ok(other)), Value::Integer(3), &args, &mut rt);
    assert_eq!(state, ExecState::Invoked);
    assert!(matches!(action, ExecAction::RunBytecode { receiver, .. } if receiver == other));
    assert_eq!(rt.call_stack.stack.len(), depth + 1);

    let (state, action) = free.exec(
        ExecState::AwaitingReceiver,
        ExecEvent::Receiver(Err(Error::ReceiverNotAnObject)),
        Value::Integer(3),
        &args,
        &mut rt,
    );
    assert_eq!(state, ExecState::Finished);
    assert!(matches!(action, ExecAction::Finish(Err(Error::ReceiverNotAnObject))));
    assert_eq!(rt.call_stack.stack.len(), depth + 1);
}

#[test]
fn a_call_without_any_receiver_fails() {
    let mut rt = Runtime::new();
    let empty = rt.create_scopechain(Vec::new());
    let method = bytecode_method(&mut rt, 5, "m", 0, false);
    let free = Executable::from_method(Method::Bytecode(method), empty, None, None);
    let (state, action) = free.exec(ExecState::Ready, ExecEvent::Start, Value::Null, &Vec::new(), &mut rt);
    assert_eq!(state, ExecState::Finished);
    assert!(matches!(action, ExecAction::Finish(Err(Error::ReceiverNotAnObject))));
    assert!(rt.call_stack.is_empty());
}

#[test]
fn the_frame_is_popped_on_return_and_on_failure() {
    let (mut rt, scope, _) = scoped();
    let method = bytecode_method(&mut rt, 5, "m", 0, false);
    let exec = Executable::from_method(Method::Bytecode(method), scope, Some(0), None);
    let args = Vec::new();
    let (state, _) = exec.exec(ExecState::Ready, ExecEvent::Start, Value::Null, &args, &mut rt);
    assert_eq!(
        rt.call_stack.stack,
        vec![CallNode::Method { method: Method::Bytecode(method), superclass: None }]
    );
    let (state, action) = exec.exec(state, ExecEvent::Returned(Ok(Value::Integer(1))), Value::Null, &args, &mut rt);
    assert_eq!(state, ExecState::Finished);
    assert!(matches!(action, ExecAction::Finish(Ok(Value::Integer(1)))));
    assert!(rt.call_stack.is_empty());

    let (state, _) = exec.exec(ExecState::Ready, ExecEvent::Start, Value::Null, &args, &mut rt);
    let (nested, _) = exec.exec(ExecState::Ready, ExecEvent::Start, Value::Null, &args, &mut rt);
    assert_eq!(rt.call_stack.stack.len(), 2);
    let (_, action) = exec.exec(nested, ExecEvent::Returned(Err(Error::NotGeneric)), Value::Null, &args, &mut rt);
    assert!(matches!(action, ExecAction::Finish(Err(Error::NotGeneric))));
    assert_eq!(rt.call_stack.stack.len(), 1);
    exec.exec(state, ExecEvent::Returned(Ok(Value::Undefined)), Value::Null, &args, &mut rt);
    assert!(rt.call_stack.is_empty());
}

#[test]
fn the_call_stack_pushes_and_pops() {
    let mut stack = CallStack::new();
    assert!(stack.is_empty());
    assert_eq!(stack.pop(), None);
    let script = Script { translation_unit: None };
    stack.push_global_init(script);
    let method = Method::Native(NativeMethod { id: 1, name: 0, signature_len: 0, is_variadic: false });
    let exec = Executable::from_method(method, ScopeChain(0), None, Some(ClassObject(2)));
    stack.push(&exec);
    assert!(!stack.is_empty());
    assert_eq!(stack.pop(), Some(CallNode::Method { method, superclass: Some(ClassObject(2)) }));
    assert_eq!(stack.pop(), Some(CallNode::GlobalInit(script)));
    assert_eq!(stack.pop(), None);
    assert_eq!(exec.as_method(), method);
    assert_eq!(exec.bound_superclass(), Some(ClassObject(2)));
}

fn class_with_methods(rt: &mut Runtime) -> (ClassObject, Vec<BytecodeMethod>) {
    let pkg = rt.interner.intern("flash.geom");
    let point = rt.interner.intern("Point");
    let custom = Namespace::Namespace(rt.interner.intern("custom"));
    let names: Vec<usize> = ["add", "x", "origin", "scale"].iter().map(|n| rt.interner.intern(n)).collect();
    let methods: Vec<BytecodeMethod> = (0..8).map(|i| bytecode_method(rt, 100 + i, "", 0, false)).collect();
    let mut def = Class::new(
        QName::new(Namespace::package(pkg), point),
        None,
        Method::Bytecode(methods[0]),
        Method::Bytecode(methods[1]),
    );
    def.define_instance_trait(Trait::from_slot(QName::new(Namespace::public(), names[1]), SlotType::Int, None));
    def.define_instance_trait(Trait::from_method(QName::new(Namespace::public(), names[0]), Method::Bytecode(methods[2])));
    def.define_instance_trait(Trait::from_getter(QName::new(Namespace::public(), names[1]), Method::Bytecode(methods[3])));
    def.define_instance_trait(Trait::from_setter(QName::new(Namespace::public(), names[1]), Method::Bytecode(methods[4])));
    def.define_instance_trait(Trait::from_method(QName::new(custom, names[3]), Method::Bytecode(methods[6])));
    def.define_class_trait(Trait::from_method(QName::new(Namespace::public(), names[2]), Method::Bytecode(methods[5])));
    let id = rt.add_definition(def);
    let scope = rt.create_scopechain(Vec::new());
    let class = ClassObject::from_class_partial(rt, id, None, scope).unwrap();
    (class, methods)
}

fn shown(rt: &Runtime, method: Method, class: Option<ClassObject>) -> String {
    let mut out = String::new();
    display_function(&mut out, &method, class, rt);
    out
}

#[test]
fn methods_of_a_class_are_shown_with_their_trait() {
    let mut rt = Runtime::new();
    let (class, methods) = class_with_methods(&mut rt);
    let show = |i: usize| shown(&rt, Method::Bytecode(methods[i]), Some(class));
    assert_eq!(show(0), "flash.geom::Point()");
    assert_eq!(show(1), "flash.geom::Point$cinit()");
    assert_eq!(show(2), "flash.geom::Point/add()");
    assert_eq!(show(3), "flash.geom::Point/get x()");
    assert_eq!(show(4), "flash.geom::Point/set x()");
    assert_eq!(show(5), "flash.geom::Point$/origin()");
    assert_eq!(show(6), "flash.geom::Point/custom::scale()");
    assert_eq!(show(7), "flash.geom::Point()");
    let mut named = methods[7];
    named.method_name = rt.interner.intern("helper");
    assert_eq!(shown(&rt, Method::Bytecode(named), Some(class)), "flash.geom::Point/helper()");
}

#[test]
fn methods_without_a_class_are_shown_by_name_or_index() {
    let mut rt = Runtime::new();
    let (class, _) = class_with_methods(&mut rt);
    let native = native_method(&mut rt, "trace", 1, true);
    assert_eq!(shown(&rt, Method::Native(native), None), "/trace()");
    assert_eq!(shown(&rt, Method::Native(native), Some(class)), "flash.geom::Point/trace()");
    let mut function = bytecode_method(&mut rt, 1, "compare", 2, false);
    function.is_function = true;
    assert_eq!(shown(&rt, Method::Bytecode(function), None), "Function/compare()");
    function.is_function = false;
    assert_eq!(shown(&rt, Method::Bytecode(function), None), "MethodInfo-17()");
    function.is_function = true;
    function.method_name = 0;
    function.abc_method = 0;
    assert_eq!(shown(&rt, Method::Bytecode(function), None), "MethodInfo-0()");
    function.abc_method = 4294967295;
    assert_eq!(shown(&rt, Method::Bytecode(function), None), "MethodInfo-4294967295()");
}

#[test]
fn the_stack_trace_lists_the_innermost_call_first() {
    let mut rt = Runtime::new();
    let (class, methods) = class_with_methods(&mut rt);
    let unit = rt.interner.intern("main.abc");
    rt.call_stack.push_global_init(Script { translation_unit: Some(TranslationUnit { name: Some(unit) }) });
    rt.call_stack.push_global_init(Script { translation_unit: Some(TranslationUnit { name: None }) });
    rt.call_stack.push_global_init(Script { translation_unit: None });
    let scope = ScopeChain(0);
    let exec = Executable::from_method(Method::Bytecode(methods[2]), scope, None, Some(class));
    rt.push_call(&exec);
    assert_eq!(
        rt.stack_trace(),
        "\n\tat flash.geom::Point/add()\
         \n\tat global$init() [unit=<No translation unit>]\
         \n\tat global$init() [unit=<No name>]\
         \n\tat global$init() [unit=main.abc]"
    );
    let mut out = String::from("Error: boom");
    rt.pop_call();
    rt.pop_call();
    rt.pop_call();
    rt.call_stack.display(&mut out, &rt);
    assert_eq!(out, "Error: boom\n\tat global$init() [unit=main.abc]");
    let mut name = String::from(">");
    exec.write_full_name(&mut name, &rt);
    assert_eq!(name, ">flash.geom::Point/add()");
    rt.pop_call();
    rt.pop_call();
    assert_eq!(rt.stack_trace(), "");
}
