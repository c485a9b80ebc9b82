//! The stack of the calls that are under way, kept for stack traces.

use vstd::prelude::*;
use crate::class_object::ClassObject;
use crate::function::display_function;
use crate::function::function_text;
use crate::function::Executable;
use crate::runtime::Runtime;
use vstd::string::StringExecFns;
use crate::method::Method;
use crate::value::Atom;

verus! {

/// The unit that a script was loaded from.
#[derive(Clone, Copy, Debug, PartialEq, Eq, Structural)]
pub struct TranslationUnit {
    pub name: Option<Atom>,
}

/// A script: the top-level code of a unit.
#[derive(Clone, Copy, Debug, PartialEq, Eq, Structural)]
pub struct Script {
    pub translation_unit: Option<TranslationUnit>,
}

/// One call that is under way.
#[derive(Clone, Copy, Debug, PartialEq, Eq, Structural)]
pub enum CallNode {
    /// The top-level code of a script.
    GlobalInit(Script),
    /// A method, with the class that defined it where it has one.
    Method { method: Method, superclass: Option<ClassObject> },
}

/// The calls that are under way, the innermost last.
#[derive(Debug)]
pub struct CallStack {
    pub stack: Vec<CallNode>,
}

impl CallStack {
    /// The frame that a call of `exec` pushes.
    pub open spec fn frame_of(exec: &Executable) -> CallNode {
        CallNode::Method { method: exec.spec_as_method(), superclass: exec.spec_bound_superclass() }
    }

    /// The empty stack.
    pub fn new() -> (r: CallStack)
        ensures
            r.stack@ == Seq::<CallNode>::empty(),
    {
        CallStack { stack: Vec::new() }
    }

    /// Enters a call of `exec`.
    pub fn push(&mut self, exec: &Executable)
        ensures
            final(self).stack@ == old(self).stack@.push(Self::frame_of(exec)),
    {
        self.stack.push(
            CallNode::Method { method: exec.as_method(), superclass: exec.bound_superclass() },
        );
    }

    /// Enters the top-level code of `script`.
    pub fn push_global_init(&mut self, script: Script)
        ensures
            final(self).stack@ == old(self).stack@.push(CallNode::GlobalInit(script)),
    {
        self.stack.push(CallNode::GlobalInit(script));
    }

    /// Leaves the innermost call and returns its frame; `None` on the empty
    /// stack, which stays empty.
    pub fn pop(&mut self) -> (r: Option<CallNode>)
        ensures
            r == (if old(self).stack@.len() > 0 {
                Some(old(self).stack@.last())
            } else {
                None
            }),
            final(self).stack@ == (if old(self).stack@.len() > 0 {
                old(self).stack@.drop_last()
            } else {
                old(self).stack@
            }),
    {
        self.stack.pop()
    }

    /// Whether no call is under way.
    pub fn is_empty(&self) -> (r: bool)
        ensures
            r == (self.stack@.len() == 0),
    {
        self.stack.len() == 0
    }
}

/// What stands before every frame of a stack trace.
pub open spec fn frame_prefix() -> Seq<char> {
    "\n\tat "@
}

/// The name of the unit of `script` in a stack trace.
pub open spec fn unit_text(rt: &Runtime, script: Script) -> Seq<char> {
    match script.translation_unit {
        Some(unit) => match unit.name {
            Some(name) => rt.interner.text_of(name),
            None => "<No name>"@,
        },
        None => "<No translation unit>"@,
    }
}

/// What a stack trace shows of one call.
pub open spec fn node_text(rt: &Runtime, node: CallNode) -> Seq<char> {
    match node {
        CallNode::GlobalInit(script) => "global$init() [unit="@ + unit_text(rt, script) + "]"@,
        CallNode::Method { method, superclass } => function_text(rt, method, superclass),
    }
}

/// The stack trace of the calls `stack`: the frames from the innermost call
/// outwards, each after `frame_prefix`.
pub open spec fn trace_text(rt: &Runtime, stack: Seq<CallNode>) -> Seq<char>
    decreases stack.len(),
{
    if stack.len() == 0 {
        Seq::<char>::empty()
    } else {
        frame_prefix() + node_text(rt, stack.last()) + trace_text(rt, stack.drop_last())
    }
}

impl CallStack {
    /// Whether every class that a frame names is a class of `rt`.
    pub open spec fn known_to(&self, rt: &Runtime) -> bool {
        forall|i: int|
            0 <= i < self.stack@.len() ==> match #[trigger] self.stack@[i] {
                CallNode::Method { method, superclass: Some(c) } => rt.has_class(c),
                _ => true,
            }
    }

    /// Appends the stack trace to `output`.
    pub fn display(&self, output: &mut String, rt: &Runtime)
        requires
            rt.wf(),
            self.known_to(rt),
        ensures
            final(output)@ == old(output)@ + trace_text(rt, self.stack@),
    {
        let mut i: usize = self.stack.len();
        assert(self.stack@.take(i as int) =~= self.stack@);
        assert(output@ + Seq::<char>::empty() =~= output@);
        let ghost mut done: Seq<char> = Seq::empty();
        while i > 0
            invariant
                rt.wf(),
                self.known_to(rt),
                i <= self.stack@.len(),
                output@ == old(output)@ + done,
                trace_text(rt, self.stack@) == done + trace_text(rt, self.stack@.take(i as int)),
            decreases i,
        {
            let ghost before = output@;
            let ghost rest = self.stack@.take(i as int);
            i -= 1;
            let call = self.stack[i];
            proof {
                assert(rest.last() == call);
                assert(rest.drop_last() =~= self.stack@.take(i as int));
            }
            output.append("\n\tat ");
            match call {
                CallNode::GlobalInit(script) => {
                    output.append("global$init() [unit=");
                    match script.translation_unit {
                        Some(unit) => match unit.name {
                            Some(name) => {
                                output.append(rt.interner.resolve(name));
                            },
                            None => {
                                output.append("<No name>");
                            },
                        },
                        None => {
                            output.append("<No translation unit>");
                        },
                    }
                    output.append("]");
                },
                CallNode::Method { method, superclass } => {
                    display_function(output, &method, superclass, rt);
                },
            }
            proof {
                let frame = frame_prefix() + node_text(rt, call);
                assert(output@ =~= before + frame);
                assert(done + (frame + trace_text(rt, self.stack@.take(i as int))) =~= (done + frame)
                    + trace_text(rt, self.stack@.take(i as int)));
                done = done + frame;
                assert(output@ =~= old(output)@ + done);
            }
        }
        assert(trace_text(rt, self.stack@.take(0)) =~= Seq::<char>::empty());
        assert(done + Seq::<char>::empty() =~= done);
    }
}

impl Runtime {
    /// The stack trace of the calls that are under way.
    pub fn stack_trace(&self) -> (r: String)
        requires
            self.wf(),
            self.call_stack.known_to(self),
        ensures
            r@ == trace_text(self, self.call_stack.stack@),
    {
        let mut output = String::new();
        self.call_stack.display(&mut output, self);
        assert(Seq::<char>::empty() + trace_text(self, self.call_stack.stack@) =~= trace_text(
            self,
            self.call_stack.stack@,
        ));
        output
    }
}

} // verus!
