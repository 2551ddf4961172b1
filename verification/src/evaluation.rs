//! The evaluation of a script, as a machine that the engine drives: it says what
//! is to be done next, and is told how that went.

use crate::context::{ActiveRunnable, CallFrame, CallFrameFlags, Context, EnvironmentStack};
use crate::heap::{Code, CodeBlock, Heap, Inner, Realm, Script, ScriptPhase};
use crate::script::{CodeblockStep, CompileRequest};
use crate::value::{CompletionRecord, JsResult, JsValue};
use vstd::pervasive::unreached;
use vstd::prelude::*;

verus! {

/// What an evaluation waits for.
#[derive(Clone, Copy, PartialEq, Eq, Structural, Debug)]
pub enum Stage {
    /// For the compiler to have instantiated the global declarations.
    Instantiating,
    /// For the compiler to have made the code.
    Compiling,
    /// For the global environment to have been resized.
    Resizing(Code),
    /// For the declarations of the code to have been made in the realm.
    Declaring(Code),
    /// For the virtual machine to have run the code.
    Running(Code),
    /// For nothing.
    Finished,
}

/// An evaluation under way.
#[derive(Clone, Copy, PartialEq, Eq, Structural, Debug)]
pub struct Evaluation {
    /// The script.
    pub script: Script,
    /// The clock cycles after which a run yields to the executor, if it does.
    pub budget: Option<u32>,
    /// What it waits for.
    pub stage: Stage,
}

/// What the engine is to do.
pub enum Action {
    /// Instantiate the global declarations of `script` in the global scope of
    /// `realm`, as far as compiling it needs that.
    Instantiate {
        /// The script.
        script: Script,
        /// The realm.
        realm: Realm,
    },
    /// Compile.
    Compile(CompileRequest),
    /// Make room in the global environment of `realm` for all bindings of its
    /// scope.
    ResizeGlobalEnv {
        /// The realm.
        realm: Realm,
    },
    /// Make the global declarations of `code` in the current realm.
    Declare {
        /// The code.
        code: Code,
    },
    /// Run the innermost frame until it is left, yielding to the executor each
    /// time that the clock cycles of `budget` have passed, if there is one.
    Run {
        /// The budget.
        budget: Option<u32>,
    },
    /// Nothing more: this is the result.
    Finish(JsResult<JsValue>),
}

/// How an action went.
pub enum Event {
    /// The global declarations were instantiated, which gave the names of functions
    /// in blocks that are also variables of the global scope; or that threw.
    Instantiated(JsResult<Vec<u64>>),
    /// The compiler made this code.
    Compiled(CodeBlock),
    /// The global environment was resized.
    Resized,
    /// The declarations were made; or that threw.
    Declared(JsResult<()>),
    /// The run ended.
    Ran(CompletionRecord),
}

/// An evaluation together with what it works on: the script records, the code, and
/// the call frames of the context.
#[verifier::ext_equal]
pub struct Machine {
    /// The evaluation.
    pub evaluation: Evaluation,
    /// The script records.
    pub scripts: Seq<Inner>,
    /// The code.
    pub code: Seq<CodeBlock>,
    /// The call frames.
    pub frames: Seq<CallFrame>,
}

/// The frame in which `script`, whose record is `inner`, runs `code`.
pub open spec fn script_frame(script: Script, inner: Inner, code: Code) -> CallFrame {
    CallFrame {
        code,
        active_runnable: Some(ActiveRunnable::Script(script)),
        environments: EnvironmentStack { depth: 0 },
        realm: inner.realm,
        env_fp: 0,
        flags: CallFrameFlags { exit_early: true },
        this: JsValue::Undefined,
        function: JsValue::Null,
    }
}

impl Machine {
    /// The record of the script that is evaluated.
    pub open spec fn inner(self) -> Inner {
        self.scripts[self.evaluation.script.id as int]
    }

    /// The script is there, and is compiled as far as the stage says.
    pub open spec fn wf(self) -> bool {
        &&& self.evaluation.script.id < self.scripts.len()
        &&& match self.evaluation.stage {
            Stage::Instantiating => self.inner().phase is Ast,
            Stage::Compiling => self.inner().phase is Ast,
            Stage::Resizing(code) => self.inner().phase == ScriptPhase::Codeblock(code),
            Stage::Declaring(code) => self.inner().phase == ScriptPhase::Codeblock(code),
            Stage::Running(code) => self.inner().phase == ScriptPhase::Codeblock(code),
            Stage::Finished => true,
        }
    }

    /// The machine at `stage`.
    pub open spec fn at(self, stage: Stage) -> Machine {
        Machine { evaluation: Evaluation { stage, ..self.evaluation }, ..self }
    }

    /// The machine after the frame for `code` was entered.
    pub open spec fn entered(self, code: Code) -> Machine {
        Machine {
            frames: self.frames.push(script_frame(self.evaluation.script, self.inner(), code)),
            ..self
        }.at(Stage::Resizing(code))
    }

    /// The machine after the innermost frame was left for good.
    pub open spec fn left(self) -> Machine {
        Machine {
            frames: if self.frames.len() == 0 {
                self.frames
            } else {
                self.frames.drop_last()
            },
            ..self
        }.at(Stage::Finished)
    }

    /// An evaluation of `script` that has done nothing yet.
    pub open spec fn start(
        script: Script,
        budget: Option<u32>,
        scripts: Seq<Inner>,
        code: Seq<CodeBlock>,
        frames: Seq<CallFrame>,
    ) -> Machine {
        let machine = Machine {
            evaluation: Evaluation { script, budget, stage: Stage::Instantiating },
            scripts,
            code,
            frames,
        };
        match machine.inner().phase {
            ScriptPhase::Codeblock(code) => machine.entered(code),
            ScriptPhase::Ast { .. } => machine,
        }
    }

    /// `event` can come now: it tells of what the stage waits for.
    pub open spec fn accepts(self, event: Event) -> bool {
        match self.evaluation.stage {
            Stage::Instantiating => event is Instantiated,
            Stage::Compiling => event matches Event::Compiled(block)
                && crate::heap::functions_known(self.code, block),
            Stage::Resizing(_) => event is Resized,
            Stage::Declaring(_) => event is Declared,
            Stage::Running(_) => event is Ran,
            Stage::Finished => false,
        }
    }

    /// The machine after `event`.
    pub open spec fn after(self, event: Event) -> Machine {
        match (self.evaluation.stage, event) {
            (Stage::Instantiating, Event::Instantiated(Ok(_))) => self.at(Stage::Compiling),
            (Stage::Instantiating, Event::Instantiated(Err(_))) => self.at(Stage::Finished),
            (Stage::Compiling, Event::Compiled(block)) => {
                let code = Code { id: self.code.len() as usize };
                Machine {
                    scripts: crate::script::compiled(self.scripts, self.evaluation.script, code),
                    code: self.code.push(block),
                    ..self
                }.entered(code)
            },
            (Stage::Resizing(code), Event::Resized) => self.at(Stage::Declaring(code)),
            (Stage::Declaring(code), Event::Declared(Ok(_))) => self.at(Stage::Running(code)),
            (Stage::Declaring(_), Event::Declared(Err(_))) => self.left(),
            (Stage::Running(_), Event::Ran(_)) => self.left(),
            _ => self,
        }
    }

    /// What the engine is to do once the machine has come here by `event`, or has
    /// started if there was none.
    pub open spec fn asks(self, event: Option<Event>, action: Action) -> bool {
        match self.evaluation.stage {
            Stage::Instantiating => action == (Action::Instantiate {
                script: self.evaluation.script,
                realm: self.inner().realm,
            }),
            Stage::Compiling => {
                &&& event matches Some(Event::Instantiated(Ok(names)))
                &&& action matches Action::Compile(request)
                &&& request.asks_for(self.evaluation.script, self.inner(), names)
            },
            Stage::Resizing(_) => action == (Action::ResizeGlobalEnv { realm: self.inner().realm }),
            Stage::Declaring(code) => action == (Action::Declare { code }),
            Stage::Running(_) => action == (Action::Run { budget: self.evaluation.budget }),
            Stage::Finished => event matches Some(event) && action == Action::Finish(
                outcome(event),
            ),
        }
    }
}

/// `machine` after all of `events`, in turn.
pub open spec fn run(machine: Machine, events: Seq<Event>) -> Machine
    decreases events.len(),
{
    if events.len() == 0 {
        machine
    } else {
        run(machine, events.drop_last()).after(events.last())
    }
}

/// Each of `events` can come in its turn.
pub open spec fn accepted(machine: Machine, events: Seq<Event>) -> bool
    decreases events.len(),
{
    events.len() == 0 || {
        &&& accepted(machine, events.drop_last())
        &&& run(machine, events.drop_last()).accepts(events.last())
    }
}

/// The result of an evaluation that ends with `event`.
pub open spec fn outcome(event: Event) -> JsResult<JsValue> {
    match event {
        Event::Instantiated(Err(error)) => Err(error),
        Event::Declared(Err(error)) => Err(error),
        Event::Ran(record) => record.outcome(),
        _ => Ok(JsValue::Undefined),
    }
}

impl Script {
    /// Starts to evaluate this script, in a run that does not yield.
    pub fn evaluate(&self, heap: &Heap, context: &mut Context) -> (started: (Evaluation, Action))
        requires
            heap.wf(),
            heap.has_script(*self),
        ensures
            started.0.is_start(*self, None, *heap, *old(context), *final(context), started.1),
    {
        Evaluation::start(*self, None, heap, context)
    }

    /// Starts to evaluate this script, in a run that yields to the executor every
    /// 256 clock cycles.
    pub fn evaluate_async(&self, heap: &Heap, context: &mut Context) -> (started: (
        Evaluation,
        Action,
    ))
        requires
            heap.wf(),
            heap.has_script(*self),
        ensures
            started.0.is_start(*self, Some(256), *heap, *old(context), *final(context), started.1),
    {
        self.evaluate_async_with_budget(heap, context, 256)
    }

    /// Starts to evaluate this script, in a run that yields to the executor each
    /// time that `budget` clock cycles have passed.
    pub fn evaluate_async_with_budget(&self, heap: &Heap, context: &mut Context, budget: u32)
        -> (started: (Evaluation, Action))
        requires
            heap.wf(),
            heap.has_script(*self),
        ensures
            started.0.is_start(
                *self,
                Some(budget),
                *heap,
                *old(context),
                *final(context),
                started.1,
            ),
    {
        Evaluation::start(*self, Some(budget), heap, context)
    }

    /// Enters the frame in which this script runs its code, which is `code`.
    pub fn prepare_run(&self, code: Code, heap: &Heap, context: &mut Context) -> (action: Action)
        requires
            heap.has_script(*self),
            heap.script(*self).phase == ScriptPhase::Codeblock(code),
        ensures
            action == (Action::ResizeGlobalEnv { realm: heap.script(*self).realm }),
            final(context).frames@ == old(context).frames@.push(
                script_frame(*self, heap.script(*self), code),
            ),
            final(context).same_but_frames(*old(context)),
    {
        let realm = self.realm(heap);
        context.push_frame(
            CallFrame {
                code,
                active_runnable: Some(ActiveRunnable::Script(*self)),
                environments: EnvironmentStack { depth: 0 },
                realm,
                env_fp: 0,
                flags: CallFrameFlags { exit_early: true },
                this: JsValue::Undefined,
                function: JsValue::Null,
            },
        );
        Action::ResizeGlobalEnv { realm }
    }
}

impl Evaluation {
    /// This evaluation together with what it works on.
    pub open spec fn machine(self, heap: Heap, context: Context) -> Machine {
        Machine {
            evaluation: self,
            scripts: heap.scripts@,
            code: heap.code@,
            frames: context.frames@,
        }
    }

    /// This is an evaluation of `script` that has just started and asks for
    /// `action`.
    pub open spec fn is_start(
        self,
        script: Script,
        budget: Option<u32>,
        heap: Heap,
        before: Context,
        after: Context,
        action: Action,
    ) -> bool {
        let machine = self.machine(heap, after);
        &&& machine == Machine::start(script, budget, heap.scripts@, heap.code@, before.frames@)
        &&& machine.wf()
        &&& machine.asks(None, action)
        &&& after.same_but_frames(before)
    }

    fn start(script: Script, budget: Option<u32>, heap: &Heap, context: &mut Context) -> (started: (
        Evaluation,
        Action,
    ))
        requires
            heap.wf(),
            heap.has_script(script),
        ensures
            started.0.is_start(script, budget, *heap, *old(context), *final(context), started.1),
    {
        match script.codeblock(heap) {
            CodeblockStep::Ready(code) => {
                let action = script.prepare_run(code, heap, context);
                (Evaluation { script, budget, stage: Stage::Resizing(code) }, action)
            },
            CodeblockStep::Instantiate { realm } => (
                Evaluation { script, budget, stage: Stage::Instantiating },
                Action::Instantiate { script, realm },
            ),
        }
    }

    /// Goes on after `event`. A frame that was entered for the run is left again
    /// when the declarations threw or the run ended.
    pub fn step(&mut self, event: Event, heap: &mut Heap, context: &mut Context) -> (action: Action)
        requires
            old(heap).wf(),
            old(self).machine(*old(heap), *old(context)).wf(),
            old(self).machine(*old(heap), *old(context)).accepts(event),
        ensures
            final(self).machine(*final(heap), *final(context)) == old(self).machine(
                *old(heap),
                *old(context),
            ).after(event),
            final(self).machine(*final(heap), *final(context)).wf(),
            final(self).machine(*final(heap), *final(context)).asks(Some(event), action),
            final(heap).wf(),
            final(heap).extends(*old(heap)),
            final(heap).realms == old(heap).realms,
            final(heap).sources == old(heap).sources,
            final(context).same_but_frames(*old(context)),
    {
        match event {
            Event::Instantiated(instantiated) => match self.script.compile_request(
                heap,
                instantiated,
            ) {
                Ok(request) => {
                    self.stage = Stage::Compiling;
                    Action::Compile(request)
                },
                Err(error) => {
                    self.stage = Stage::Finished;
                    Action::Finish(Err(error))
                },
            },
            Event::Compiled(block) => {
                let code = self.script.install_codeblock(heap, block);
                self.stage = Stage::Resizing(code);
                self.script.prepare_run(code, heap, context)
            },
            Event::Resized => match self.stage {
                Stage::Resizing(code) => {
                    self.stage = Stage::Declaring(code);
                    Action::Declare { code }
                },
                _ => unreached(),
            },
            Event::Declared(declared) => match (declared, self.stage) {
                (Ok(_), Stage::Declaring(code)) => {
                    self.stage = Stage::Running(code);
                    Action::Run { budget: self.budget }
                },
                (Ok(_), _) => unreached(),
                (Err(error), _) => {
                    context.pop_frame();
                    self.stage = Stage::Finished;
                    Action::Finish(Err(error))
                },
            },
            Event::Ran(record) => {
                context.pop_frame();
                self.stage = Stage::Finished;
                Action::Finish(record.consume())
            },
        }
    }
}

} // verus!
