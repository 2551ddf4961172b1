//! The context that scripts are parsed and run in, and its stack of call frames.

use crate::heap::{Code, Heap, Module, Realm, Script};
use crate::value::JsValue;
use boa_interner::Interner;
use vstd::prelude::*;

verus! {

/// What a call frame belongs to.
#[derive(Clone, Copy, PartialEq, Eq, Structural, Debug)]
pub enum ActiveRunnable {
    /// The run of a script.
    Script(Script),
    /// The run of a module.
    Module(Module),
}

/// The environments of a call frame, by how many there are.
#[derive(Clone, Copy, PartialEq, Eq, Structural, Debug)]
pub struct EnvironmentStack {
    /// How many there are.
    pub depth: u32,
}

/// The flags of a call frame.
#[derive(Clone, Copy, PartialEq, Eq, Structural, Debug)]
pub struct CallFrameFlags {
    /// The virtual machine stops when it leaves the frame.
    pub exit_early: bool,
}

/// A call frame, with the two values below it on the value stack.
#[derive(Clone, Copy, PartialEq, Eq, Structural, Debug)]
pub struct CallFrame {
    /// The code that it runs.
    pub code: Code,
    /// What it belongs to.
    pub active_runnable: Option<ActiveRunnable>,
    /// Its environments.
    pub environments: EnvironmentStack,
    /// The realm that it runs in.
    pub realm: Realm,
    /// How many environments stood below its own when it was entered.
    pub env_fp: u32,
    /// Its flags.
    pub flags: CallFrameFlags,
    /// The `this` value.
    pub this: JsValue,
    /// The function that was called.
    pub function: JsValue,
}

/// A context.
pub struct Context {
    /// The identifier that the next parser gets.
    pub parser_identifier: u32,
    /// Scripts are parsed as strict mode code.
    pub strict: bool,
    /// The optimizations that syntax trees go through, one bit for each.
    pub optimizer_options: u8,
    /// The current realm.
    pub realm: Realm,
    /// The strings that were met while parsing.
    pub interner: Interner,
    /// The call frames, the innermost last.
    pub frames: Vec<CallFrame>,
}

impl Context {
    /// The current realm is one of `heap`.
    pub open spec fn wf(self, heap: Heap) -> bool {
        heap.has_realm(self.realm)
    }

    /// The names bound in the global scope of the current realm, each with whether
    /// it is bound lexically.
    pub open spec fn bindings(self, heap: Heap) -> Map<Seq<u16>, bool> {
        heap.realms@[self.realm.id as int].bindings()
    }

    /// `self` and `other` differ in their call frames at most.
    pub open spec fn same_but_frames(self, other: Context) -> bool {
        &&& self.parser_identifier == other.parser_identifier
        &&& self.strict == other.strict
        &&& self.optimizer_options == other.optimizer_options
        &&& self.realm == other.realm
        &&& self.interner == other.interner
    }

    /// `self` is `other` after one more parser was given its identifier.
    pub open spec fn parsed_once_more(self, other: Context) -> bool {
        &&& self.parser_identifier == other.parser_identifier.wrapping_add(1)
        &&& self.strict == other.strict
        &&& self.optimizer_options == other.optimizer_options
        &&& self.realm == other.realm
        &&& self.frames == other.frames
    }

    /// A context with no call frames.
    pub fn new(realm: Realm, interner: Interner, strict: bool, optimizer_options: u8) -> (context:
        Context)
        ensures
            context.parser_identifier == 0,
            context.strict == strict,
            context.optimizer_options == optimizer_options,
            context.realm == realm,
            context.interner == interner,
            context.frames@.len() == 0,
    {
        Context {
            parser_identifier: 0,
            strict,
            optimizer_options,
            realm,
            interner,
            frames: Vec::new(),
        }
    }

    /// The identifier for a new parser. Each parser of this context gets the one
    /// after that of the parser before it.
    pub fn next_parser_identifier(&mut self) -> (identifier: u32)
        ensures
            identifier == old(self).parser_identifier,
            final(self).parsed_once_more(*old(self)),
            final(self).interner == old(self).interner,
    {
        let identifier: u32 = self.parser_identifier;
        self.parser_identifier = identifier.wrapping_add(1);
        identifier
    }

    /// Enters `frame`.
    pub fn push_frame(&mut self, frame: CallFrame)
        ensures
            final(self).frames@ == old(self).frames@.push(frame),
            final(self).same_but_frames(*old(self)),
    {
        self.frames.push(frame);
    }

    /// Leaves the innermost frame, if there is one.
    pub fn pop_frame(&mut self) -> (frame: Option<CallFrame>)
        ensures
            match frame {
                Some(frame) => {
                    &&& old(self).frames@.len() > 0
                    &&& frame == old(self).frames@.last()
                    &&& final(self).frames@ == old(self).frames@.drop_last()
                },
                None => old(self).frames@.len() == 0 && final(self).frames@ == old(self).frames@,
            },
            final(self).same_but_frames(*old(self)),
    {
        self.frames.pop()
    }
}

} // verus!
