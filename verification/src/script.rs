//! Scripts: parsing, compiling, and binding to another realm.

use crate::context::Context;
use crate::heap::{
    Code, CodeBlock, Heap, HostDefined, Inner, Module, Realm, Script, ScriptPhase,
    SourceText,
};
use crate::outside::{
    is_code_point, is_readable, is_readable_from, is_text_of, is_tree_of, next_code_point,
    scope_conflict, script_syntax, ParsedScript,
};
use crate::value::{ErrorKind, JsError, JsResult};
use boa_ast::Script as Ast;
use rustc_hash::FxHashMap;
use std::path::PathBuf;
use vstd::pervasive::unreached;
use vstd::prelude::*;

verus! {

/// A source of script code: its bytes, in UTF-8, and the file that they came from.
pub struct Source<'a> {
    /// The bytes.
    pub text: &'a [u8],
    /// The file.
    pub path: Option<PathBuf>,
}

impl<'a> Source<'a> {
    /// A source that came from no file.
    pub fn from_bytes(text: &'a [u8]) -> (source: Source<'a>)
        ensures
            source.text == text,
            source.path is None,
    {
        Source { text, path: None }
    }

    /// The same bytes, from the file `path`.
    pub fn with_path(self, path: PathBuf) -> (source: Source<'a>)
        ensures
            source.text == self.text,
            source.path == Some(path),
    {
        Source { text: self.text, path: Some(path) }
    }

    /// Whether the parser can read this source: its bytes give code points only, and
    /// its lines and columns can be counted in 32 bits.
    pub fn is_readable(&self) -> (readable: bool)
        ensures
            readable == is_readable(self.text@),
    {
        let text = self.text;
        if text.len() >= 0xffff_ffff {
            return false;
        }
        let mut at: usize = 0;
        while at < text.len()
            invariant
                text == self.text,
                text@.len() < u32::MAX,
                at <= text@.len(),
                is_readable_from(text@, 0) == is_readable_from(text@, at as int),
            decreases text@.len() - at,
        {
            let byte: u8 = text[at];
            let fits: bool = byte < 0xf0 || byte % 8 < 4 || byte % 8 == 4 && (at == text.len() - 1
                || text[at + 1] % 64 < 16);
            assert(fits == is_code_point(text@, at as int));
            if !fits {
                return false;
            }
            let width: usize = if byte < 0x80 {
                1
            } else if byte < 0xe0 {
                2
            } else if byte < 0xf0 {
                3
            } else {
                4
            };
            assert(next_code_point(text@, at as int) == at + width);
            if width >= text.len() - at {
                assert(is_readable_from(text@, at + width));
                return true;
            }
            at += width;
        }
        true
    }
}

/// A script that has been parsed and not entered in the heap yet.
pub struct PendingScript {
    /// The syntax tree, for the optimizer to work on. It may rewrite the
    /// statements, not their strictness.
    pub code: Ast,
    /// Whether the whole script is strict mode code.
    pub strict: bool,
    /// The text that it was parsed from.
    pub source: Vec<u16>,
    /// The realm that it will run in.
    pub realm: Realm,
    /// The file that its text came from.
    pub path: Option<PathBuf>,
}

/// Where a parse has come to.
pub enum ParseStep {
    /// The script is in the heap.
    Done(Script),
    /// The optimizer has to go over the syntax tree; [`PendingScript::finish`]
    /// then enters the script in the heap.
    Optimize(PendingScript),
}

impl ParseStep {
    /// The syntax tree that the parse came to.
    pub open spec fn tree(self, heap: Heap) -> Ast {
        match self {
            ParseStep::Done(script) => heap.script(script).phase->code,
            ParseStep::Optimize(pending) => pending.code,
        }
    }
}

impl PendingScript {
    /// Enters the script in the heap: a new record, not compiled, with a source
    /// text of its own, no loaded modules and nothing attached.
    pub fn finish(self, heap: &mut Heap) -> (script: Script)
        requires
            old(heap).wf(),
            old(heap).has_realm(self.realm),
        ensures
            final(heap).wf(),
            final(heap).extends(*old(heap)),
            adds_script(*old(heap), *final(heap), script),
            final(heap).script(script).phase == (ScriptPhase::Ast {
                code: self.code,
                strict: self.strict,
            }),
            final(heap).script(script).realm == self.realm,
            final(heap).script(script).path == self.path,
            final(heap).script(script).is_unused(),
            final(heap).script(script).source_text.id == old(heap).sources@.len(),
            final(heap).sources@ == old(heap).sources@.push(self.source),
            final(heap).code == old(heap).code,
            final(heap).realms == old(heap).realms,
    {
        let source_text = SourceText { id: heap.sources.len() };
        heap.sources.push(self.source);
        let script = Script { id: heap.scripts.len() };
        heap.scripts.push(
            Inner {
                realm: self.realm,
                phase: ScriptPhase::Ast { code: self.code, strict: self.strict },
                source_text,
                loaded_modules: FxHashMap::default(),
                host_defined: HostDefined::default(),
                path: self.path,
            },
        );
        script
    }
}

/// `after` holds one script more than `before`, reached by `script`; the scripts of
/// `before` are as they were.
pub open spec fn adds_script(before: Heap, after: Heap, script: Script) -> bool {
    &&& script.id == before.scripts@.len()
    &&& after.scripts@ == before.scripts@.push(after.script(script))
}

/// `step` is where the parse of a script comes to that is strict mode code or not,
/// was read as `source` from the file `path` and will run in `realm`, with or
/// without work for the optimizer.
pub open spec fn is_parse_step(
    step: ParseStep,
    strict: bool,
    source: Seq<u16>,
    path: Option<PathBuf>,
    realm: Realm,
    optimize: bool,
    before: Heap,
    after: Heap,
) -> bool {
    match step {
        ParseStep::Done(script) => {
            let inner = after.script(script);
            &&& !optimize
            &&& adds_script(before, after, script)
            &&& inner.phase matches ScriptPhase::Ast { strict: s, .. } && s == strict
            &&& inner.realm == realm
            &&& inner.path == path
            &&& inner.is_unused()
            &&& inner.source_text.id == before.sources@.len()
            &&& after.sources@.len() == before.sources@.len() + 1
            &&& after.sources@.drop_last() == before.sources@
            &&& after.sources@.last()@ == source
            &&& after.code == before.code
        },
        ParseStep::Optimize(pending) => {
            &&& optimize
            &&& after.scripts == before.scripts
            &&& after.sources == before.sources
            &&& after.code == before.code
            &&& pending.strict == strict
            &&& pending.source@ == source
            &&& pending.realm == realm
            &&& pending.path == path
        },
    }
}

impl Script {
    /// Parses `source` as a script that will run in `realm`, or in the current
    /// realm of `context` if none is given.
    ///
    /// Names are resolved in the current realm of `context` either way, and those
    /// that the script declares by `let`, `const` or `class` are bound there. A text
    /// that is no script, or whose declarations conflict with what is bound, gives a
    /// `SyntaxError` with the parser's message; the heap is then as before.
    ///
    /// [`Source::is_readable`] tells whether the parser can read `source`.
    pub fn parse(
        source: Source<'_>,
        realm: Option<Realm>,
        heap: &mut Heap,
        context: &mut Context,
    ) -> (result: JsResult<ParseStep>)
        requires
            old(heap).wf(),
            old(context).wf(*old(heap)),
            realm matches Some(realm) ==> old(heap).has_realm(realm),
            is_readable(source.text@),
        ensures
            final(heap).wf(),
            final(heap).extends(*old(heap)),
            final(context).parsed_once_more(*old(context)),
            match script_syntax(
                source.text@,
                old(context).strict,
                old(context).parser_identifier,
            ) {
                Err(message) => {
                    &&& result matches Err(error) && error.is_native(ErrorKind::Syntax, message)
                    &&& final(heap).same(*old(heap))
                },
                Ok(syntax) => if syntax.conflicts(old(context).bindings(*old(heap))) {
                    &&& result matches Err(error) && error.is_native(
                        ErrorKind::Syntax,
                        scope_conflict(),
                    )
                    &&& final(heap).same(*old(heap))
                } else {
                    &&& result matches Ok(step)
                    &&& is_parse_step(
                        step,
                        syntax.strict,
                        syntax.source,
                        source.path,
                        if realm is Some {
                            realm->0
                        } else {
                            old(context).realm
                        },
                        old(context).optimizer_options != 0,
                        *old(heap),
                        *final(heap),
                    )
                    &&& is_tree_of(
                        step.tree(*final(heap)),
                        source.text@,
                        old(context).strict,
                        old(context).parser_identifier,
                        final(heap).realms@[old(context).realm.id as int].global_scope(),
                        final(context).interner,
                    )
                    &&& final(heap).realms@ == old(heap).realms@.update(
                        old(context).realm.id as int,
                        final(heap).realms@[old(context).realm.id as int],
                    )
                    &&& final(context).bindings(*final(heap)) == syntax.binds(
                        old(context).bindings(*old(heap)),
                    )
                    &&& is_text_of(syntax.source, source.text@)
                    &&& syntax.bound_names.subset_of(syntax.lexical_names)
                },
            },
            match result {
                Ok(ParseStep::Done(script)) => final(heap).scripts@[script.id as int].realm == (
                if realm is Some {
                    realm->0
                } else {
                    old(context).realm
                }),
                Ok(ParseStep::Optimize(pending)) => pending.realm == (if realm is Some {
                    realm->0
                } else {
                    old(context).realm
                }),
                Err(_) => true,
            },
            old(context).strict ==> match result {
                Ok(ParseStep::Done(script)) => final(heap).script(script).phase matches
                    ScriptPhase::Ast { strict, .. } && strict,
                Ok(ParseStep::Optimize(pending)) => pending.strict,
                Err(_) => true,
            },
    {
        let identifier: u32 = context.next_parser_identifier();
        let parsed = heap.realms[context.realm.id].parse(
            source.text,
            context.strict,
            identifier,
            &mut context.interner,
        );
        assert(parsed is Err ==> heap.realms@ =~= old(heap).realms@);
        let realm = match realm {
            Some(realm) => realm,
            None => context.realm,
        };
        Script::finish_parse(parsed, source.path, realm, context.optimizer_options, heap)
    }

    /// Goes on from the parser's answer: an error is a `SyntaxError` with its
    /// message. A script is entered in the heap, or, if any optimizations are asked
    /// for, left until the optimizer has gone over it.
    pub fn finish_parse(
        parsed: Result<ParsedScript, String>,
        path: Option<PathBuf>,
        realm: Realm,
        optimizer_options: u8,
        heap: &mut Heap,
    ) -> (result: JsResult<ParseStep>)
        requires
            old(heap).wf(),
            old(heap).has_realm(realm),
        ensures
            final(heap).wf(),
            final(heap).extends(*old(heap)),
            final(heap).realms == old(heap).realms,
            match parsed {
                Err(message) => {
                    &&& result matches Err(error) && error.is_native(ErrorKind::Syntax, message@)
                    &&& final(heap).same(*old(heap))
                },
                Ok(parsed) => {
                    &&& result matches Ok(step)
                    &&& is_parse_step(
                        step,
                        parsed.strict,
                        parsed.source@,
                        path,
                        realm,
                        optimizer_options != 0,
                        *old(heap),
                        *final(heap),
                    )
                    &&& step.tree(*final(heap)) == parsed.code
                },
            },
    {
        let parsed = match parsed {
            Ok(parsed) => parsed,
            Err(message) => return Err(JsError::syntax(message)),
        };
        let pending = PendingScript {
            code: parsed.code,
            strict: parsed.strict,
            source: parsed.source,
            realm,
            path,
        };
        if optimizer_options != 0 {
            Ok(ParseStep::Optimize(pending))
        } else {
            let script = pending.finish(heap);
            assert(heap.sources@.drop_last() =~= old(heap).sources@);
            Ok(ParseStep::Done(script))
        }
    }
}

/// Where [`Script::codeblock`] has come to.
#[derive(Clone, Copy, PartialEq, Eq, Structural, Debug)]
pub enum CodeblockStep {
    /// The script is compiled.
    Ready(Code),
    /// The compiler has to instantiate the script's global declarations in the
    /// global scope of `realm`; [`Script::compile_request`] goes on from there.
    Instantiate {
        /// The realm.
        realm: Realm,
    },
}

/// What the compiler is asked to make code of.
pub struct CompileRequest {
    /// The script whose syntax tree it is.
    pub script: Script,
    /// The name of the code.
    pub name: &'static str,
    /// It is strict mode code.
    pub strict: bool,
    /// It is compiled for `JSON.parse`.
    pub json_parse: bool,
    /// The realm whose global scope holds its variables.
    pub variable_scope: Realm,
    /// The realm whose global scope holds its lexical declarations.
    pub lexical_scope: Realm,
    /// It may await.
    pub is_async: bool,
    /// It may yield.
    pub is_generator: bool,
    /// It stands inside a `with` statement.
    pub in_with: bool,
    /// The whole text that it comes from.
    pub source_text: SourceText,
    /// The file that it comes from.
    pub path: Option<PathBuf>,
    /// The functions in blocks that are also variables of the global scope, by
    /// symbol.
    pub annex_b_function_names: Vec<u64>,
    /// The value of the last statement is kept.
    pub use_expr: bool,
    /// The statements are those of a block.
    pub block: bool,
}

impl CompileRequest {
    /// This asks for the code of `script`, whose record is `inner`.
    pub open spec fn asks_for(
        self,
        script: Script,
        inner: Inner,
        annex_b_function_names: Vec<u64>,
    ) -> bool {
        &&& self.script == script
        &&& self.name@ == "<main>"@
        &&& inner.phase matches ScriptPhase::Ast { strict, .. } && self.strict == strict
        &&& !self.json_parse
        &&& self.variable_scope == inner.realm
        &&& self.lexical_scope == inner.realm
        &&& !self.is_async
        &&& !self.is_generator
        &&& !self.in_with
        &&& self.source_text == inner.source_text
        &&& self.path == inner.path
        &&& self.annex_b_function_names == annex_b_function_names
        &&& self.use_expr
        &&& !self.block
    }
}

/// Where compiling a script with the record `inner` starts: at its code, if it is
/// compiled.
pub open spec fn codeblock_step(inner: Inner) -> CodeblockStep {
    match inner.phase {
        ScriptPhase::Codeblock(code) => CodeblockStep::Ready(code),
        ScriptPhase::Ast { .. } => CodeblockStep::Instantiate { realm: inner.realm },
    }
}

/// `script` can be bound to another realm: it is compiled, and its top level
/// declares nothing with `let`, `const` or `class`.
pub open spec fn can_be_bound(heap: Heap, script: Script) -> bool {
    heap.script(script).phase matches ScriptPhase::Codeblock(code)
        && heap.code@[code.id as int].global_lexs@.len() == 0
}

impl Script {
    /// The code of this script, if it is compiled; else what compiling it starts
    /// with.
    pub fn codeblock(&self, heap: &Heap) -> (step: CodeblockStep)
        requires
            heap.wf(),
            heap.has_script(*self),
        ensures
            step == codeblock_step(heap.script(*self)),
    {
        let inner = &heap.scripts[self.id];
        match &inner.phase {
            ScriptPhase::Codeblock(code) => CodeblockStep::Ready(*code),
            ScriptPhase::Ast { .. } => CodeblockStep::Instantiate { realm: inner.realm },
        }
    }

    /// Goes on from the instantiation of the global declarations, which either
    /// threw or gave the names of functions in blocks that are also variables of
    /// the global scope: what it threw is thrown on, else the compiler is asked
    /// for the code. [`Script::install_codeblock`] goes on from there.
    pub fn compile_request(&self, heap: &Heap, instantiated: JsResult<Vec<u64>>) -> (result:
        JsResult<CompileRequest>)
        requires
            heap.wf(),
            heap.has_script(*self),
            heap.script(*self).phase is Ast,
        ensures
            match instantiated {
                Ok(names) => {
                    &&& result matches Ok(request)
                    &&& request.asks_for(*self, heap.script(*self), names)
                    &&& request.strict == heap.scripts@[self.id as int].phase->strict
                },
                Err(error) => result == Err::<CompileRequest, JsError>(error),
            },
    {
        let annex_b_function_names = match instantiated {
            Ok(names) => names,
            Err(error) => return Err(error),
        };
        let inner = &heap.scripts[self.id];
        let strict = match &inner.phase {
            ScriptPhase::Ast { strict, .. } => *strict,
            ScriptPhase::Codeblock(_) => unreached(),
        };
        Ok(
            CompileRequest {
                script: *self,
                name: "<main>",
                strict,
                json_parse: false,
                variable_scope: inner.realm,
                lexical_scope: inner.realm,
                is_async: false,
                is_generator: false,
                in_with: false,
                source_text: inner.source_text,
                path: inner.clone_path(),
                annex_b_function_names,
                use_expr: true,
                block: false,
            },
        )
    }

    /// Makes `block` the code of this script. The syntax tree is given up.
    pub fn install_codeblock(&self, heap: &mut Heap, block: CodeBlock) -> (code: Code)
        requires
            old(heap).wf(),
            old(heap).has_script(*self),
            old(heap).script(*self).phase is Ast,
            old(heap).has_functions_of(block),
        ensures
            final(heap).wf(),
            final(heap).extends(*old(heap)),
            code.id == old(heap).code@.len(),
            final(heap).code@ == old(heap).code@.push(block),
            final(heap).scripts@ == compiled(old(heap).scripts@, *self, code),
            final(heap).realms == old(heap).realms,
            final(heap).sources == old(heap).sources,
    {
        let code = heap.add_code(block);
        heap.scripts[self.id].phase = ScriptPhase::Codeblock(code);
        code
    }

    /// Makes a script that shares the code of this one and runs in `realm`.
    ///
    /// The new script has its own loaded modules and its own attachments, and both
    /// are empty. What the caches of the shared code have learned is thrown away,
    /// so that nothing measured in one realm follows the code into the next.
    ///
    /// A script that is not compiled is refused: only the context that parsed it
    /// can compile it, and none is at hand here. So is one whose top level
    /// declares `let`, `const` or `class`: its code finds these by their place in
    /// the scope of the realm that it was compiled in, and no other realm has
    /// them. Either refusal is a `TypeError` and leaves the heap as it was.
    pub fn bind_to_realm(&self, realm: Realm, heap: &mut Heap) -> (result: JsResult<Script>)
        requires
            old(heap).wf(),
            old(heap).has_script(*self),
            old(heap).has_realm(realm),
        ensures
            final(heap).wf(),
            final(heap).extends(*old(heap)),
            result is Ok <==> can_be_bound(*old(heap), *self),
            match old(heap).script(*self).phase {
                ScriptPhase::Ast { .. } => {
                    &&& result matches Err(error) && error.is_native(
                        ErrorKind::Type,
                        "a script must be compiled before it can be bound to another realm; call `Script::codeblock` with the context it was parsed in"@,
                    )
                    &&& final(heap).same(*old(heap))
                },
                ScriptPhase::Codeblock(code) => if old(heap).code@[code.id as int].global_lexs@.len()
                    != 0 {
                    &&& result matches Err(error) && error.is_native(
                        ErrorKind::Type,
                        "a script with top-level lexical declarations cannot be bound to another realm"@,
                    )
                    &&& final(heap).same(*old(heap))
                } else {
                    &&& result matches Ok(bound) && is_bound(
                        *old(heap),
                        *final(heap),
                        *self,
                        code,
                        realm,
                        bound,
                    )
                },
            },
    {
        let code = match &heap.scripts[self.id].phase {
            ScriptPhase::Codeblock(code) => *code,
            ScriptPhase::Ast { .. } => {
                return Err(
                    JsError::type_error(
                        "a script must be compiled before it can be bound to another realm; call `Script::codeblock` with the context it was parsed in",
                    ),
                );
            },
        };
        if heap.code[code.id].global_lexs.len() != 0 {
            return Err(
                JsError::type_error(
                    "a script with top-level lexical declarations cannot be bound to another realm",
                ),
            );
        }
        CodeBlock::clear_inline_caches(&mut heap.code, code.id);
        let inner = &heap.scripts[self.id];
        let source_text = inner.source_text;
        let path = inner.clone_path();
        let bound = Script { id: heap.scripts.len() };
        heap.scripts.push(
            Inner {
                realm,
                phase: ScriptPhase::Codeblock(code),
                source_text,
                loaded_modules: FxHashMap::default(),
                host_defined: HostDefined::default(),
                path,
            },
        );
        Ok(bound)
    }
}

impl Script {
    /// The realm of this script.
    pub fn realm(&self, heap: &Heap) -> (realm: Realm)
        requires
            heap.has_script(*self),
        ensures
            realm == heap.script(*self).realm,
    {
        heap.scripts[self.id].realm
    }

    /// What the embedder attached to this script.
    pub fn host_defined<'a>(&self, heap: &'a Heap) -> (host_defined: &'a HostDefined)
        requires
            heap.has_script(*self),
        ensures
            *host_defined == heap.script(*self).host_defined,
    {
        &heap.scripts[self.id].host_defined
    }

    /// What the embedder attached to this script, to be changed.
    pub fn host_defined_mut<'a>(&self, heap: &'a mut Heap) -> (host_defined: &'a mut HostDefined)
        requires
            old(heap).wf(),
            old(heap).has_script(*self),
        ensures
            *host_defined == old(heap).script(*self).host_defined,
            final(heap).scripts@ == old(heap).scripts@.update(
                self.id as int,
                (Inner { host_defined: *final(host_defined), ..old(heap).script(*self) }),
            ),
            final(heap).wf(),
            final(heap).extends(*old(heap)),
            final(heap).realms == old(heap).realms,
            final(heap).sources == old(heap).sources,
            final(heap).code == old(heap).code,
    {
        &mut heap.scripts[self.id].host_defined
    }

    /// The modules that this script has loaded, by specifier.
    pub fn loaded_modules<'a>(&self, heap: &'a Heap) -> (modules: &'a FxHashMap<Vec<u16>, Module>)
        requires
            heap.has_script(*self),
        ensures
            *modules == heap.script(*self).loaded_modules,
    {
        &heap.scripts[self.id].loaded_modules
    }

    /// The modules that this script has loaded, to be changed.
    pub fn loaded_modules_mut<'a>(&self, heap: &'a mut Heap) -> (modules: &'a mut FxHashMap<
        Vec<u16>,
        Module,
    >)
        requires
            old(heap).wf(),
            old(heap).has_script(*self),
        ensures
            *modules == old(heap).script(*self).loaded_modules,
            final(heap).scripts@ == old(heap).scripts@.update(
                self.id as int,
                (Inner { loaded_modules: *final(modules), ..old(heap).script(*self) }),
            ),
            final(heap).wf(),
            final(heap).extends(*old(heap)),
            final(heap).realms == old(heap).realms,
            final(heap).sources == old(heap).sources,
            final(heap).code == old(heap).code,
    {
        &mut heap.scripts[self.id].loaded_modules
    }

    /// The file that this script came from.
    pub fn path<'a>(&self, heap: &'a Heap) -> (path: Option<&'a PathBuf>)
        requires
            heap.has_script(*self),
        ensures
            match path {
                Some(path) => heap.script(*self).path == Some(*path),
                None => heap.script(*self).path is None,
            },
    {
        match &heap.scripts[self.id].path {
            Some(path) => Some(path),
            None => None,
        }
    }

    /// The text that this script came from.
    pub fn get_source(&self, heap: &Heap) -> (source: SourceText)
        requires
            heap.has_script(*self),
        ensures
            source == heap.script(*self).source_text,
    {
        heap.scripts[self.id].source_text
    }
}

/// `scripts` after `script` was compiled to `code`.
pub open spec fn compiled(scripts: Seq<Inner>, script: Script, code: Code) -> Seq<Inner> {
    scripts.update(
        script.id as int,
        Inner { phase: ScriptPhase::Codeblock(code), ..scripts[script.id as int] },
    )
}

/// `after` is `before` with a script `bound` more, which runs the code `code` of
/// `script` in `realm`; the caches of that code have been blanked.
pub open spec fn is_bound(
    before: Heap,
    after: Heap,
    script: Script,
    code: Code,
    realm: Realm,
    bound: Script,
) -> bool {
    let inner = after.script(bound);
    &&& adds_script(before, after, bound)
    &&& inner.phase == ScriptPhase::Codeblock(code)
    &&& inner.realm == realm
    &&& inner.source_text == before.script(script).source_text
    &&& inner.path == before.script(script).path
    &&& inner.is_unused()
    &&& crate::heap::forgotten(before.code@, after.code@, code.id as int)
    &&& after.sources == before.sources
    &&& after.realms == before.realms
}

} // verus!
