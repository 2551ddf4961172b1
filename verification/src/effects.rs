//! What the operations come to, said of fields, events and results alone.

use crate::context::{ActiveRunnable, CallFrame, Context};
use crate::evaluation::{Action, Evaluation, Event, Machine, Stage};
use crate::heap::{Code, CodeBlock, Heap, Inner, Realm, RealmInner, Script, ScriptPhase};
use crate::outside::{ParsedScript, ScriptSyntax};
use crate::script::{CodeblockStep, CompileRequest, ParseStep};
use crate::value::{CompletionRecord, ErrorKind, JsError, JsValue};
use std::path::PathBuf;
use vstd::prelude::*;

verus! {

// Code and its caches.

/// A block is part of itself, and so is each function directly inside it.
pub proof fn law_block_holds_its_functions(code: Seq<CodeBlock>, block: int, j: int)
    requires
        0 <= j < code[block].functions@.len(),
        code[block].functions@[j].id < block,
    ensures
        crate::heap::holds(code, block, block),
        crate::heap::holds(code, block, code[block].functions@[j].id as int),
{
    let function = code[block].functions@[j].id as int;
    assert(crate::heap::holds(code, function, function));
}

/// What is part of a part is part of the whole.
pub proof fn law_parts_of_parts_are_parts(code: Seq<CodeBlock>, whole: int, part: int, inner: int)
    requires
        crate::heap::holds(code, whole, part),
        crate::heap::holds(code, part, inner),
    ensures
        crate::heap::holds(code, whole, inner),
    decreases whole,
{
    if whole != part {
        let j = choose|j: int|
            0 <= j < code[whole].functions@.len() && 0 <= (
            #[trigger] code[whole].functions@[j]).id < whole && crate::heap::holds(
                code,
                code[whole].functions@[j].id as int,
                part,
            );
        law_parts_of_parts_are_parts(code, code[whole].functions@[j].id as int, part, inner);
    }
}

/// Nothing else is part of a block: whatever set of blocks has it, and with each of its
/// members the functions directly inside that, has all the parts.
pub proof fn law_nothing_else_is_a_part(
    code: Seq<CodeBlock>,
    whole: int,
    part: int,
    blocks: Set<int>,
)
    requires
        crate::heap::holds(code, whole, part),
        blocks.contains(whole),
        forall|b: int, j: int|
            blocks.contains(b) && 0 <= j < code[b].functions@.len() ==> blocks.contains(
                (#[trigger] code[b].functions@[j]).id as int,
            ),
    ensures
        blocks.contains(part),
    decreases whole,
{
    if whole != part {
        let j = choose|j: int|
            0 <= j < code[whole].functions@.len() && 0 <= (
            #[trigger] code[whole].functions@[j]).id < whole && crate::heap::holds(
                code,
                code[whole].functions@[j].id as int,
                part,
            );
        law_nothing_else_is_a_part(code, code[whole].functions@[j].id as int, part, blocks);
    }
}

/// A walk down from a block, each step to a function directly inside, ends in a part of
/// the block.
proof fn lemma_walk_ends_in_a_part(code: Seq<CodeBlock>, walk: Seq<Code>)
    requires
        forall|c: int, j: int|
            0 <= c < code.len() && 0 <= j < code[c].functions@.len() ==> (
            #[trigger] code[c].functions@[j]).id < c,
        walk.len() > 0,
        walk[0].id < code.len(),
        forall|k: int|
            0 <= k < walk.len() - 1 ==> code[#[trigger] walk[k].id as int].functions@.contains(
                walk[k + 1],
            ),
    ensures
        walk.last().id < code.len(),
        crate::heap::holds(code, walk[0].id as int, walk.last().id as int),
    decreases walk.len(),
{
    if walk.len() > 1 {
        let rest = walk.drop_last();
        assert forall|k: int| 0 <= k < rest.len() - 1 implies code[
        #[trigger] rest[k].id as int].functions@.contains(rest[k + 1]) by {
            assert(rest[k] == walk[k] && rest[k + 1] == walk[k + 1]);
        }
        lemma_walk_ends_in_a_part(code, rest);
        let k = walk.len() - 2;
        assert(code[walk[k].id as int].functions@.contains(walk[k + 1]));
        let j = choose|j: int|
            0 <= j < code[walk[k].id as int].functions@.len() && code[walk[k].id as int].functions@[j]
                == walk[k + 1];
        assert(code[walk[k].id as int].functions@[j].id < walk[k].id);
        law_block_holds_its_functions(code, walk[k].id as int, j);
        law_parts_of_parts_are_parts(
            code,
            walk[0].id as int,
            walk[k].id as int,
            walk.last().id as int,
        );
    }
}

/// Clearing reaches functions at any depth: at the end of every walk down from the
/// block, no cache has a shape and none is megamorphic.
pub proof fn law_clearing_reaches_every_depth(
    old_code: Seq<CodeBlock>,
    new_code: Seq<CodeBlock>,
    walk: Seq<Code>,
    i: int,
)
    requires
        forall|c: int, j: int|
            0 <= c < old_code.len() && 0 <= j < old_code[c].functions@.len() ==> (
            #[trigger] old_code[c].functions@[j]).id < c,
        walk.len() > 0,
        walk[0].id < old_code.len(),
        forall|k: int|
            0 <= k < walk.len() - 1 ==> old_code[#[trigger] walk[k].id as int].functions@.contains(
                walk[k + 1],
            ),
        crate::heap::forgotten(old_code, new_code, walk[0].id as int),
        0 <= i < new_code[walk.last().id as int].inline_caches@.len(),
    ensures
        new_code[walk.last().id as int].inline_caches@[i].shapes@.len() == 0,
        !new_code[walk.last().id as int].inline_caches@[i].megamorphic,
{
    lemma_walk_ends_in_a_part(old_code, walk);
    let block = new_code[walk.last().id as int];
    assert(block.is_blank());
    assert(block.inline_caches@[i].is_blank());
}

/// Clearing changes no code: every block keeps its declarations, its functions, its
/// instructions and the number of its caches.
pub proof fn law_clearing_changes_no_code(
    old_code: Seq<CodeBlock>,
    new_code: Seq<CodeBlock>,
    at: int,
    c: int,
)
    requires
        crate::heap::forgotten(old_code, new_code, at),
        0 <= c < old_code.len(),
    ensures
        new_code.len() == old_code.len(),
        new_code[c].global_lexs == old_code[c].global_lexs,
        new_code[c].functions == old_code[c].functions,
        new_code[c].instructions == old_code[c].instructions,
        new_code[c].inline_caches@.len() == old_code[c].inline_caches@.len(),
{
    assert(new_code[c] == old_code[c] || new_code[c].same_code(old_code[c]));
}

/// Clearing touches no other code: a block outside some set that has the cleared block,
/// and with each of its members the functions directly inside that, is as it was.
pub proof fn law_clearing_touches_nothing_else(
    old_code: Seq<CodeBlock>,
    new_code: Seq<CodeBlock>,
    at: int,
    blocks: Set<int>,
    c: int,
)
    requires
        crate::heap::forgotten(old_code, new_code, at),
        blocks.contains(at),
        forall|b: int, j: int|
            blocks.contains(b) && 0 <= j < old_code[b].functions@.len() ==> blocks.contains(
                (#[trigger] old_code[b].functions@[j]).id as int,
            ),
        0 <= c < old_code.len(),
        !blocks.contains(c),
    ensures
        new_code[c] == old_code[c],
{
    if crate::heap::holds(old_code, at, c) {
        law_nothing_else_is_a_part(old_code, at, c, blocks);
    }
}

// Binding.

/// Which scripts can be bound: those with code whose top level declares nothing
/// lexically.
pub proof fn law_who_can_be_bound(heap: Heap, script: Script)
    ensures
        crate::script::can_be_bound(heap, script) == match heap.scripts@[script.id as int].phase {
            ScriptPhase::Codeblock(code) => heap.code@[code.id as int].global_lexs@.len() == 0,
            ScriptPhase::Ast { .. } => false,
        },
{
}

/// What a binding makes: one record more, at the end, with the code, the text and the
/// path of the script bound from, the realm asked for, and maps of its own that are
/// empty. All other records, and the texts and realms, are as they were.
pub proof fn law_binding_makes_one_record(
    before: Heap,
    after: Heap,
    script: Script,
    code: Code,
    realm: Realm,
    bound: Script,
    other: int,
)
    requires
        crate::script::is_bound(before, after, script, code, realm, bound),
    ensures
        bound.id == before.scripts@.len(),
        after.scripts@.len() == before.scripts@.len() + 1,
        0 <= other < before.scripts@.len() ==> after.scripts@[other] == before.scripts@[other],
        after.scripts@[bound.id as int].realm == realm,
        after.scripts@[bound.id as int].phase == ScriptPhase::Codeblock(code),
        after.scripts@[bound.id as int].source_text
            == before.scripts@[script.id as int].source_text,
        after.scripts@[bound.id as int].path == before.scripts@[script.id as int].path,
        after.scripts@[bound.id as int].loaded_modules@.dom().is_empty(),
        after.scripts@[bound.id as int].host_defined.entries@.dom().is_empty(),
        after.sources@ == before.sources@,
        after.realms@ == before.realms@,
{
    assert(after.scripts@.len() == before.scripts@.push(after.scripts@[bound.id as int]).len());
}

/// A binding clears the caches of the shared code at every depth.
pub proof fn law_binding_clears_every_depth(
    before: Heap,
    after: Heap,
    script: Script,
    realm: Realm,
    bound: Script,
    walk: Seq<Code>,
    i: int,
)
    requires
        forall|c: int, j: int|
            0 <= c < before.code@.len() && 0 <= j < before.code@[c].functions@.len() ==> (
            #[trigger] before.code@[c].functions@[j]).id < c,
        walk.len() > 0,
        walk[0].id < before.code@.len(),
        forall|k: int|
            0 <= k < walk.len() - 1 ==> before.code@[
            #[trigger] walk[k].id as int].functions@.contains(walk[k + 1]),
        crate::script::is_bound(before, after, script, walk[0], realm, bound),
        0 <= i < after.code@[walk.last().id as int].inline_caches@.len(),
    ensures
        after.code@[walk.last().id as int].inline_caches@[i].shapes@.len() == 0,
        !after.code@[walk.last().id as int].inline_caches@[i].megamorphic,
{
    law_clearing_reaches_every_depth(before.code@, after.code@, walk, i);
}

/// A binding changes no code, and touches none that is not shared.
pub proof fn law_binding_changes_no_code(
    before: Heap,
    after: Heap,
    script: Script,
    code: Code,
    realm: Realm,
    bound: Script,
    blocks: Set<int>,
    c: int,
)
    requires
        crate::script::is_bound(before, after, script, code, realm, bound),
        blocks.contains(code.id as int),
        forall|b: int, j: int|
            blocks.contains(b) && 0 <= j < before.code@[b].functions@.len() ==> blocks.contains(
                (#[trigger] before.code@[b].functions@[j]).id as int,
            ),
        0 <= c < before.code@.len(),
    ensures
        after.code@.len() == before.code@.len(),
        after.code@[c].global_lexs == before.code@[c].global_lexs,
        after.code@[c].functions == before.code@[c].functions,
        after.code@[c].instructions == before.code@[c].instructions,
        after.code@[c].inline_caches@.len() == before.code@[c].inline_caches@.len(),
        !blocks.contains(c) ==> after.code@[c] == before.code@[c],
{
    law_clearing_changes_no_code(before.code@, after.code@, code.id as int, c);
    if !blocks.contains(c) {
        law_clearing_touches_nothing_else(before.code@, after.code@, code.id as int, blocks, c);
    }
}

// The heap.

/// What a later state of a heap keeps: each script its realm, text, path and code, each
/// text its units, each block its declarations, functions and instructions, and each
/// realm its bindings.
pub proof fn law_later_states_keep(before: Heap, after: Heap, at: int, name: Seq<u16>)
    requires
        after.extends(before),
        at >= 0,
    ensures
        before.realms@.len() <= after.realms@.len(),
        before.sources@.len() <= after.sources@.len(),
        before.code@.len() <= after.code@.len(),
        before.scripts@.len() <= after.scripts@.len(),
        at < before.scripts@.len() ==> {
            &&& after.scripts@[at].realm == before.scripts@[at].realm
            &&& after.scripts@[at].source_text == before.scripts@[at].source_text
            &&& after.scripts@[at].path == before.scripts@[at].path
            &&& before.scripts@[at].phase is Codeblock || after.scripts@[at].phase is Ast
                ==> after.scripts@[at].phase == before.scripts@[at].phase
        },
        at < before.sources@.len() ==> after.sources@[at] == before.sources@[at],
        at < before.code@.len() ==> {
            &&& after.code@[at].global_lexs == before.code@[at].global_lexs
            &&& after.code@[at].functions == before.code@[at].functions
            &&& after.code@[at].instructions == before.code@[at].instructions
        },
        at < before.realms@.len() && before.realms@[at].bindings().dom().contains(name) ==> {
            &&& after.realms@[at].bindings().dom().contains(name)
            &&& after.realms@[at].bindings()[name] == before.realms@[at].bindings()[name]
        },
{
    if at < before.scripts@.len() {
        assert(after.scripts@[at].continues(before.scripts@[at]));
    }
    if at < before.code@.len() {
        assert(after.code@[at].same_code(before.code@[at]));
    }
    if at < before.realms@.len() {
        assert(before.realms@[at].bindings().submap_of(after.realms@[at].bindings()));
    }
}

/// Heaps that hold the same have the same realms, texts, code and scripts.
pub proof fn law_same_heaps_agree(one: Heap, other: Heap)
    ensures
        one.same(other) == (one.realms@ == other.realms@ && one.sources@ == other.sources@
            && one.code@ == other.code@ && one.scripts@ == other.scripts@),
{
}

/// A heap is in order if every handle in it leads somewhere and every function was added
/// before the block that it is in; a handle leads somewhere if it is in range.
pub proof fn law_order_of_a_heap(heap: Heap, script: Script, code: Code, realm: Realm)
    ensures
        heap.wf() <==> {
            &&& forall|c: int, j: int|
                0 <= c < heap.code@.len() && 0 <= j < heap.code@[c].functions@.len() ==> (
                #[trigger] heap.code@[c].functions@[j]).id < c
            &&& forall|s: int|
                0 <= s < heap.scripts@.len() ==> {
                    &&& (#[trigger] heap.scripts@[s]).realm.id < heap.realms@.len()
                    &&& heap.scripts@[s].source_text.id < heap.sources@.len()
                    &&& heap.scripts@[s].phase matches ScriptPhase::Codeblock(own) ==> own.id
                        < heap.code@.len()
                }
        },
        heap.has_script(script) == (script.id < heap.scripts@.len()),
        heap.has_code(code) == (code.id < heap.code@.len()),
        heap.has_realm(realm) == (realm.id < heap.realms@.len()),
        heap.has_script(script) ==> heap.script(script) == heap.scripts@[script.id as int],
{
    if forall|s: int|
        0 <= s < heap.scripts@.len() ==> {
            &&& (#[trigger] heap.scripts@[s]).realm.id < heap.realms@.len()
            &&& heap.scripts@[s].source_text.id < heap.sources@.len()
            &&& heap.scripts@[s].phase matches ScriptPhase::Codeblock(own) ==> own.id
                < heap.code@.len()
        } {
        assert forall|s: int| 0 <= s < heap.scripts@.len() implies heap.handles_lead_here(
            #[trigger] heap.scripts@[s],
        ) by {}
    }
    if heap.wf() {
        assert forall|s: int| 0 <= s < heap.scripts@.len() implies {
            &&& (#[trigger] heap.scripts@[s]).realm.id < heap.realms@.len()
            &&& heap.scripts@[s].source_text.id < heap.sources@.len()
            &&& heap.scripts@[s].phase matches ScriptPhase::Codeblock(own) ==> own.id
                < heap.code@.len()
        } by {
            assert(heap.handles_lead_here(heap.scripts@[s]));
        }
    }
}

/// A block can be added once all functions inside it have been.
pub proof fn law_functions_come_first(heap: Heap, block: CodeBlock)
    ensures
        heap.has_functions_of(block) <==> (forall|j: int|
            0 <= j < block.functions@.len() ==> (#[trigger] block.functions@[j]).id
                < heap.code@.len()),
        heap.has_functions_of(block) == crate::heap::functions_known(heap.code@, block),
{
}

/// The bindings of a realm are those of its scope, and those of a context are those of
/// its current realm.
pub proof fn law_bindings_are_those_of_the_scope(realm: RealmInner, context: Context, heap: Heap)
    ensures
        realm.bindings() == crate::outside::scope_bindings(realm.global_scope()),
        context.bindings(heap) == heap.realms@[context.realm.id as int].bindings(),
        context.wf(heap) == (context.realm.id < heap.realms@.len()),
{
}

// Contexts.

/// A parse takes the identifier that is next, and the one after it is next then; it
/// leaves the mode, the optimizations, the current realm and the frames alone.
pub proof fn law_a_parse_takes_one_identifier(before: Context, after: Context)
    requires
        after.parsed_once_more(before),
    ensures
        after.parser_identifier == if before.parser_identifier == u32::MAX {
            0
        } else {
            before.parser_identifier + 1
        },
        after.strict == before.strict,
        after.optimizer_options == before.optimizer_options,
        after.realm == before.realm,
        after.frames == before.frames,
{
}

/// What differs in the frames at most has all else in common.
pub proof fn law_all_but_the_frames(one: Context, other: Context)
    requires
        one.same_but_frames(other),
    ensures
        one.parser_identifier == other.parser_identifier,
        one.strict == other.strict,
        one.optimizer_options == other.optimizer_options,
        one.realm == other.realm,
        one.interner == other.interner,
{
}

// Errors and results.

/// An error is a native one of some type and message if and only if it has them.
pub proof fn law_native_errors(error: JsError, kind: ErrorKind, message: Seq<char>)
    ensures
        error.is_native(kind, message) == match error {
            JsError::Native { kind: own_kind, message: own_message } => own_kind == kind
                && own_message@ == message,
            JsError::Thrown(_) => false,
        },
{
}

/// A value that a run comes to or returns is its result, and what it throws is thrown,
/// whatever it is.
pub proof fn law_results_of_runs(value: JsValue, error: JsError)
    ensures
        CompletionRecord::Normal(value).outcome() == Ok::<JsValue, JsError>(value),
        CompletionRecord::Return(value).outcome() == Ok::<JsValue, JsError>(value),
        CompletionRecord::Throw(error).outcome() == Err::<JsValue, JsError>(error),
{
}

// Parsing.

/// The realm of a parsed script is the one that was asked for, whether the script is in
/// the heap already or waits for the optimizer; it waits exactly if any optimizations
/// are asked for.
pub proof fn law_parsed_script_has_the_realm_asked_for(
    step: ParseStep,
    strict: bool,
    source: Seq<u16>,
    path: Option<PathBuf>,
    realm: Realm,
    optimize: bool,
    before: Heap,
    after: Heap,
)
    requires
        crate::script::is_parse_step(step, strict, source, path, realm, optimize, before, after),
    ensures
        step is Optimize <==> optimize,
        step matches ParseStep::Done(script) ==> after.scripts@[script.id as int].realm == realm,
        step matches ParseStep::Optimize(pending) ==> pending.realm == realm,
{
}

/// A parse that is done has made one record, at the end: not compiled, of the
/// strictness, text and path that were read, with empty maps. The scripts, texts and
/// code that there were are as they were.
pub proof fn law_parse_makes_one_record(
    script: Script,
    strict: bool,
    source: Seq<u16>,
    path: Option<PathBuf>,
    realm: Realm,
    optimize: bool,
    before: Heap,
    after: Heap,
    other: int,
)
    requires
        crate::script::is_parse_step(
            ParseStep::Done(script),
            strict,
            source,
            path,
            realm,
            optimize,
            before,
            after,
        ),
    ensures
        script.id == before.scripts@.len(),
        after.scripts@.len() == before.scripts@.len() + 1,
        0 <= other < before.scripts@.len() ==> after.scripts@[other] == before.scripts@[other],
        after.scripts@[script.id as int].phase matches ScriptPhase::Ast { strict: own, .. } && own
            == strict,
        after.scripts@[script.id as int].path == path,
        after.scripts@[script.id as int].loaded_modules@.dom().is_empty(),
        after.scripts@[script.id as int].host_defined.entries@.dom().is_empty(),
        after.scripts@[script.id as int].source_text.id == before.sources@.len(),
        after.sources@.len() == before.sources@.len() + 1,
        after.sources@[before.sources@.len() as int]@ == source,
        0 <= other < before.sources@.len() ==> after.sources@[other] == before.sources@[other],
        after.code@ == before.code@,
{
    assert(after.scripts@.len() == before.scripts@.push(after.scripts@[script.id as int]).len());
    if 0 <= other < before.sources@.len() {
        assert(after.sources@.drop_last()[other] == after.sources@[other]);
    }
}

/// A parse that waits for the optimizer has the strictness, text and path that were read,
/// and has put nothing in the heap.
pub proof fn law_waiting_parse_makes_no_record(
    step: ParseStep,
    strict: bool,
    source: Seq<u16>,
    path: Option<PathBuf>,
    realm: Realm,
    before: Heap,
    after: Heap,
)
    requires
        crate::script::is_parse_step(step, strict, source, path, realm, true, before, after),
    ensures
        step matches ParseStep::Optimize(pending) && {
            &&& pending.strict == strict
            &&& pending.source@ == source
            &&& pending.path == path
            &&& pending.realm == realm
        },
        after.scripts@ == before.scripts@,
        after.sources@ == before.sources@,
        after.code@ == before.code@,
{
}

/// The tree of a parse is the one in the record, or the one that waits.
pub proof fn law_tree_of_a_parse(step: ParseStep, heap: Heap)
    ensures
        step matches ParseStep::Done(script) ==> (
        heap.scripts@[script.id as int].phase matches ScriptPhase::Ast { code, .. } ==> step.tree(
            heap,
        ) == code),
        step matches ParseStep::Optimize(pending) ==> step.tree(heap) == pending.code,
{
}

/// When a script conflicts with what is bound: if a name that it declares lexically is
/// bound at all, or if one of its variables is bound lexically.
pub proof fn law_when_declarations_conflict(
    syntax: ScriptSyntax,
    bindings: Map<Seq<u16>, bool>,
    name: Seq<u16>,
)
    ensures
        syntax.lexical_names.contains(name) && bindings.dom().contains(name) ==> syntax.conflicts(
            bindings,
        ),
        syntax.var_names.contains(name) && bindings.dom().contains(name) && bindings[name]
            ==> syntax.conflicts(bindings),
        (forall|n: Seq<u16>| #[trigger]
            bindings.dom().contains(n) ==> !syntax.lexical_names.contains(n) && (bindings[n]
                ==> !syntax.var_names.contains(n))) ==> !syntax.conflicts(bindings),
{
}

/// What a script binds: the names that it declares by `let`, `const` or `class`,
/// lexically. All other names are bound as before.
pub proof fn law_what_a_script_binds(
    syntax: ScriptSyntax,
    bindings: Map<Seq<u16>, bool>,
    name: Seq<u16>,
)
    ensures
        syntax.bound_names.contains(name) ==> syntax.binds(bindings).dom().contains(name)
            && syntax.binds(bindings)[name],
        !syntax.bound_names.contains(name) ==> {
            &&& syntax.binds(bindings).dom().contains(name) == bindings.dom().contains(name)
            &&& bindings.dom().contains(name) ==> syntax.binds(bindings)[name] == bindings[name]
        },
{
}

/// What the parser answers: the grammar's message, the message of a conflict, or a script
/// with the strictness and the text that the grammar found.
pub proof fn law_answers_of_the_parser(
    parsed: Result<ParsedScript, String>,
    syntax: Result<ScriptSyntax, Seq<char>>,
    before: Map<Seq<u16>, bool>,
    after: Map<Seq<u16>, bool>,
)
    requires
        crate::outside::is_parse_of(parsed, syntax, before, after),
    ensures
        parsed is Ok <==> (syntax is Ok && !syntax->Ok_0.conflicts(before)),
        syntax is Err ==> parsed->Err_0@ == syntax->Err_0,
        syntax is Ok && syntax->Ok_0.conflicts(before) ==> parsed->Err_0@
            == "invalid scope analysis: duplicate lexical declaration"@,
        parsed is Ok ==> {
            &&& parsed->Ok_0.strict == syntax->Ok_0.strict
            &&& parsed->Ok_0.source@ == syntax->Ok_0.source
            &&& after == syntax->Ok_0.binds(before)
        },
{
}

/// Reading a text: at its end there is nothing left to refuse, and before that, the number
/// that the bytes of a code point encode, those that are missing being zero, is at most
/// 0x10ffff, and the rest can be read.
pub proof fn law_reading(text: Seq<u8>, at: int)
    requires
        at >= 0,
    ensures
        at >= text.len() ==> crate::outside::is_readable_from(text, at),
        at < text.len() ==> {
            let first = text[at] as int;
            let second = if at + 1 < text.len() {
                text[at + 1] as int
            } else {
                0
            };
            let third = if at + 2 < text.len() {
                text[at + 2] as int
            } else {
                0
            };
            let fourth = if at + 3 < text.len() {
                text[at + 3] as int
            } else {
                0
            };
            crate::outside::is_readable_from(text, at) == if first < 0x80 {
                crate::outside::is_readable_from(text, at + 1)
            } else if first < 0xe0 {
                crate::outside::is_readable_from(text, at + 2)
            } else if first < 0xf0 {
                crate::outside::is_readable_from(text, at + 3)
            } else {
                &&& (first % 8) * 0x4_0000 + (second % 64) * 0x1000 + (third % 64) * 0x40 + fourth
                    % 64 <= 0x10_ffff
                &&& crate::outside::is_readable_from(text, at + 4)
            }
        },
        crate::outside::is_readable(text) == (text.len() < u32::MAX
            && crate::outside::is_readable_from(text, 0)),
{
}

/// UTF-16: a character of the first 0x10000 is one unit, its number; any other is two,
/// from which its number can be had again. The units of a text are those of its
/// characters, in their order.
pub proof fn law_units_of_a_text(chars: Seq<char>, c: char)
    ensures
        (c as u32) < 0x1_0000 ==> crate::outside::utf16_units(c) == seq![c as u16],
        (c as u32) >= 0x1_0000 ==> {
            let units = crate::outside::utf16_units(c);
            &&& units.len() == 2
            &&& 0xd800 <= units[0] < 0xdc00 <= units[1] < 0xe000
            &&& (units[0] - 0xd800) * 0x400 + (units[1] - 0xdc00) + 0x1_0000 == c as u32
        },
        crate::outside::utf16(Seq::empty()) == Seq::<u16>::empty(),
        crate::outside::utf16(chars.push(c)) == crate::outside::utf16(chars)
            + crate::outside::utf16_units(c),
        forall|source: Seq<u16>| #[trigger]
            crate::outside::is_text_of(source, vstd::utf8::encode_utf8(chars)) <==> source
                == crate::outside::utf16(chars),
{
    vstd::utf8::encode_utf8_valid_utf8(chars);
    vstd::utf8::encode_utf8_decode_utf8(chars);
    assert(chars.push(c).drop_last() =~= chars);
}

// Compiling.

/// Compiling starts at the code that there is, or else in the realm of the script.
pub proof fn law_where_compiling_starts(inner: Inner, code: Code)
    ensures
        inner.phase == ScriptPhase::Codeblock(code) ==> crate::script::codeblock_step(inner)
            == CodeblockStep::Ready(code),
        inner.phase is Ast ==> crate::script::codeblock_step(inner) == (
        CodeblockStep::Instantiate { realm: inner.realm }),
{
}

/// The compiler is asked for strict mode code if and only if the syntax tree is strict;
/// for the script itself, in its own realm, from its own text and path; and for a whole
/// script, neither asynchronous nor a generator, whose last value is kept.
pub proof fn law_what_the_compiler_is_asked(
    request: CompileRequest,
    script: Script,
    inner: Inner,
    names: Vec<u64>,
)
    requires
        request.asks_for(script, inner, names),
    ensures
        inner.phase matches ScriptPhase::Ast { strict, .. } && request.strict == strict,
        request.script == script,
        request.name@ == "<main>"@,
        request.variable_scope == inner.realm,
        request.lexical_scope == inner.realm,
        request.source_text == inner.source_text,
        request.path == inner.path,
        request.annex_b_function_names == names,
        !request.json_parse,
        !request.is_async,
        !request.is_generator,
        !request.in_with,
        request.use_expr,
        !request.block,
{
}

/// Compiling a script changes the phase of its record and nothing else.
pub proof fn law_compiling_changes_the_phase(
    scripts: Seq<Inner>,
    script: Script,
    code: Code,
    other: int,
)
    requires
        script.id < scripts.len(),
        0 <= other < scripts.len(),
    ensures
        ({
            let after = crate::script::compiled(scripts, script, code);
            let inner = after[script.id as int];
            &&& after.len() == scripts.len()
            &&& other != script.id ==> after[other] == scripts[other]
            &&& inner.phase == ScriptPhase::Codeblock(code)
            &&& inner.realm == scripts[script.id as int].realm
            &&& inner.source_text == scripts[script.id as int].source_text
            &&& inner.path == scripts[script.id as int].path
            &&& inner.loaded_modules == scripts[script.id as int].loaded_modules
            &&& inner.host_defined == scripts[script.id as int].host_defined
        }),
{
}

// Evaluating.

/// The machine of an evaluation has the scripts and the code of the heap and the frames
/// of the context.
pub proof fn law_machine_of_an_evaluation(evaluation: Evaluation, heap: Heap, context: Context)
    ensures
        evaluation.machine(heap, context).evaluation == evaluation,
        evaluation.machine(heap, context).scripts == heap.scripts@,
        evaluation.machine(heap, context).code == heap.code@,
        evaluation.machine(heap, context).frames == context.frames@,
{
}

/// Which machines are in order, and which events each stage waits for.
pub proof fn law_order_of_a_machine(machine: Machine, event: Event)
    ensures
        machine.wf() <==> {
            let phase = machine.scripts[machine.evaluation.script.id as int].phase;
            &&& machine.evaluation.script.id < machine.scripts.len()
            &&& match machine.evaluation.stage {
                Stage::Instantiating => phase is Ast,
                Stage::Compiling => phase is Ast,
                Stage::Resizing(code) => phase == ScriptPhase::Codeblock(code),
                Stage::Declaring(code) => phase == ScriptPhase::Codeblock(code),
                Stage::Running(code) => phase == ScriptPhase::Codeblock(code),
                Stage::Finished => true,
            }
        },
        machine.accepts(event) <==> match event {
            Event::Instantiated(_) => machine.evaluation.stage is Instantiating,
            Event::Compiled(block) => machine.evaluation.stage is Compiling && forall|j: int|
                0 <= j < block.functions@.len() ==> (#[trigger] block.functions@[j]).id
                    < machine.code.len(),
            Event::Resized => machine.evaluation.stage is Resizing,
            Event::Declared(_) => machine.evaluation.stage is Declaring,
            Event::Ran(_) => machine.evaluation.stage is Running,
        },
{
}

/// Starting: an uncompiled script waits for its declarations to be instantiated in its
/// realm, with no frame entered; a compiled one enters a frame, and waits for the global
/// environment of its realm to be resized. Script and budget are the ones asked for.
pub proof fn law_how_an_evaluation_starts(
    evaluation: Evaluation,
    script: Script,
    budget: Option<u32>,
    heap: Heap,
    before: Context,
    after: Context,
    action: Action,
)
    requires
        script.id < heap.scripts@.len(),
        evaluation.is_start(script, budget, heap, before, after, action),
    ensures
        evaluation.script == script,
        evaluation.budget == budget,
        match heap.scripts@[script.id as int].phase {
            ScriptPhase::Ast { .. } => {
                &&& evaluation.stage == Stage::Instantiating
                &&& after.frames@ == before.frames@
                &&& action == (Action::Instantiate {
                    script,
                    realm: heap.scripts@[script.id as int].realm,
                })
            },
            ScriptPhase::Codeblock(code) => {
                &&& evaluation.stage == Stage::Resizing(code)
                &&& after.frames@.len() == before.frames@.len() + 1
                &&& after.frames@.drop_last() == before.frames@
                &&& after.frames@.last().code == code
                &&& after.frames@.last().realm == heap.scripts@[script.id as int].realm
                &&& after.frames@.last().active_runnable == Some(ActiveRunnable::Script(script))
                &&& after.frames@.last().environments.depth == 0
                &&& after.frames@.last().env_fp == 0
                &&& after.frames@.last().flags.exit_early
                &&& after.frames@.last().this == JsValue::Undefined
                &&& after.frames@.last().function == JsValue::Null
                &&& action == (Action::ResizeGlobalEnv {
                    realm: heap.scripts@[script.id as int].realm,
                })
            },
        },
        after.parser_identifier == before.parser_identifier,
        after.strict == before.strict,
        after.optimizer_options == before.optimizer_options,
        after.realm == before.realm,
        after.interner == before.interner,
{
    if heap.scripts@[script.id as int].phase is Codeblock {
        assert(after.frames@.drop_last() =~= before.frames@);
    }
}

/// The frame of a script runs its code for it in its realm, with no environments, from
/// which the virtual machine returns; `this` is undefined and there is no function.
pub proof fn law_frame_of_a_script(script: Script, inner: Inner, code: Code)
    ensures
        ({
            let frame = crate::evaluation::script_frame(script, inner, code);
            &&& frame.code == code
            &&& frame.realm == inner.realm
            &&& frame.active_runnable == Some(ActiveRunnable::Script(script))
            &&& frame.environments.depth == 0
            &&& frame.env_fp == 0
            &&& frame.flags.exit_early
            &&& frame.this == JsValue::Undefined
            &&& frame.function == JsValue::Null
        }),
{
}

/// If the instantiation of the declarations throws, that is the result, and scripts, code
/// and frames are as they were.
pub proof fn law_thrown_instantiation_is_the_result(
    machine: Machine,
    error: JsError,
    action: Action,
)
    requires
        machine.evaluation.stage is Instantiating,
    ensures
        ({
            let event = Event::Instantiated(Err(error));
            let next = machine.after(event);
            &&& next.evaluation.stage == Stage::Finished
            &&& next.scripts == machine.scripts
            &&& next.code == machine.code
            &&& next.frames == machine.frames
            &&& next.asks(Some(event), action) <==> action == Action::Finish(Err(error))
        }),
{
}

/// Once the declarations are instantiated, the compiler is asked for the code, strict if
/// and only if the syntax tree is, in the realm of the script and with the names that
/// came of the instantiation.
pub proof fn law_instantiation_leads_to_the_compiler(
    machine: Machine,
    names: Vec<u64>,
    action: Action,
)
    requires
        machine.evaluation.stage is Instantiating,
    ensures
        ({
            let event = Event::Instantiated(Ok(names));
            let next = machine.after(event);
            let inner = machine.scripts[machine.evaluation.script.id as int];
            &&& next.evaluation.stage == Stage::Compiling
            &&& next.scripts == machine.scripts
            &&& next.code == machine.code
            &&& next.frames == machine.frames
            &&& next.asks(Some(event), action) ==> {
                &&& action matches Action::Compile(request)
                &&& request.script == machine.evaluation.script
                &&& inner.phase matches ScriptPhase::Ast { strict, .. } && request.strict == strict
                &&& request.variable_scope == inner.realm
                &&& request.lexical_scope == inner.realm
                &&& request.source_text == inner.source_text
                &&& request.path == inner.path
                &&& request.annex_b_function_names == names
                &&& request.name@ == "<main>"@
                &&& !request.json_parse && !request.is_async && !request.is_generator
                &&& !request.in_with && request.use_expr && !request.block
            }
        }),
{
}

/// Once the code is made, it is added at the end, becomes the code of the script, and is
/// entered in a frame on top of those that there are; no other script or code changes.
/// The global environment of the script's realm is to be resized.
pub proof fn law_compiled_code_is_entered(
    machine: Machine,
    block: CodeBlock,
    other: int,
    action: Action,
)
    requires
        machine.evaluation.stage is Compiling,
        machine.evaluation.script.id < machine.scripts.len(),
        machine.code.len() <= usize::MAX,
        0 <= other < machine.scripts.len(),
    ensures
        ({
            let event = Event::Compiled(block);
            let next = machine.after(event);
            let id = machine.evaluation.script.id as int;
            let code = Code { id: machine.code.len() as usize };
            &&& code.id == machine.code.len()
            &&& next.code == machine.code.push(block)
            &&& next.scripts.len() == machine.scripts.len()
            &&& next.scripts[id].phase == ScriptPhase::Codeblock(code)
            &&& next.scripts[id].realm == machine.scripts[id].realm
            &&& next.scripts[id].source_text == machine.scripts[id].source_text
            &&& next.scripts[id].path == machine.scripts[id].path
            &&& next.scripts[id].loaded_modules == machine.scripts[id].loaded_modules
            &&& next.scripts[id].host_defined == machine.scripts[id].host_defined
            &&& other != id ==> next.scripts[other] == machine.scripts[other]
            &&& next.evaluation.stage == Stage::Resizing(code)
            &&& next.frames.len() == machine.frames.len() + 1
            &&& next.frames.drop_last() == machine.frames
            &&& next.frames.last().code == code
            &&& next.frames.last().realm == machine.scripts[id].realm
            &&& next.frames.last().active_runnable == Some(
                ActiveRunnable::Script(machine.evaluation.script),
            )
            &&& next.frames.last().environments.depth == 0
            &&& next.frames.last().env_fp == 0
            &&& next.frames.last().flags.exit_early
            &&& next.frames.last().this == JsValue::Undefined
            &&& next.frames.last().function == JsValue::Null
            &&& next.asks(Some(event), action) <==> action == (Action::ResizeGlobalEnv {
                realm: machine.scripts[id].realm,
            })
        }),
{
    let next = machine.after(Event::Compiled(block));
    assert(next.frames.drop_last() =~= machine.frames);
}

/// Once the environment is resized, the declarations of the code are to be made.
pub proof fn law_declarations_come_before_the_run(machine: Machine, code: Code, action: Action)
    requires
        machine.evaluation.stage == Stage::Resizing(code),
    ensures
        ({
            let next = machine.after(Event::Resized);
            &&& next.evaluation.stage == Stage::Declaring(code)
            &&& next.scripts == machine.scripts
            &&& next.code == machine.code
            &&& next.frames == machine.frames
            &&& next.asks(Some(Event::Resized), action) <==> action == (Action::Declare { code })
        }),
{
}

/// Once the declarations are made, the frame is to be run, with the very budget of the
/// evaluation.
pub proof fn law_run_has_the_budget(machine: Machine, code: Code, action: Action)
    requires
        machine.evaluation.stage == Stage::Declaring(code),
    ensures
        ({
            let event = Event::Declared(Ok(()));
            let next = machine.after(event);
            &&& next.evaluation.stage == Stage::Running(code)
            &&& next.scripts == machine.scripts
            &&& next.code == machine.code
            &&& next.frames == machine.frames
            &&& next.asks(Some(event), action) <==> action == (Action::Run {
                budget: machine.evaluation.budget,
            })
        }),
{
}

/// If the declarations throw, that is the result, and the frame is left.
pub proof fn law_thrown_declaration_is_the_result(machine: Machine, error: JsError, action: Action)
    requires
        machine.evaluation.stage is Declaring,
    ensures
        ({
            let event = Event::Declared(Err(error));
            let next = machine.after(event);
            &&& next.evaluation.stage == Stage::Finished
            &&& next.scripts == machine.scripts
            &&& next.code == machine.code
            &&& machine.frames.len() > 0 ==> next.frames == machine.frames.drop_last()
            &&& machine.frames.len() == 0 ==> next.frames == machine.frames
            &&& next.asks(Some(event), action) <==> action == Action::Finish(Err(error))
        }),
{
}

/// What a run throws is the result, whatever it is, and a value that it comes to or
/// returns is the result else; the frame is left.
pub proof fn law_outcome_of_the_run_is_the_result(
    machine: Machine,
    record: CompletionRecord,
    action: Action,
)
    requires
        machine.evaluation.stage is Running,
    ensures
        ({
            let event = Event::Ran(record);
            let next = machine.after(event);
            &&& next.evaluation.stage == Stage::Finished
            &&& next.scripts == machine.scripts
            &&& next.code == machine.code
            &&& machine.frames.len() > 0 ==> next.frames == machine.frames.drop_last()
            &&& machine.frames.len() == 0 ==> next.frames == machine.frames
            &&& next.asks(Some(event), action) <==> match record {
                CompletionRecord::Normal(value) => action == Action::Finish(Ok(value)),
                CompletionRecord::Return(value) => action == Action::Finish(Ok(value)),
                CompletionRecord::Throw(error) => action == Action::Finish(Err(error)),
            }
        }),
{
}

/// No event changes which script is evaluated, or its budget.
pub proof fn law_script_and_budget_are_kept(machine: Machine, event: Event)
    ensures
        machine.after(event).evaluation.script == machine.evaluation.script,
        machine.after(event).evaluation.budget == machine.evaluation.budget,
{
}

/// Events take effect one by one, in their order, and each has to be one that the machine
/// waits for then.
pub proof fn law_events_come_one_by_one(machine: Machine, events: Seq<Event>, event: Event)
    ensures
        crate::evaluation::run(machine, Seq::empty()) == machine,
        crate::evaluation::run(machine, events.push(event)) == crate::evaluation::run(
            machine,
            events,
        ).after(event),
        crate::evaluation::accepted(machine, Seq::empty()),
        crate::evaluation::accepted(machine, events.push(event)) == (crate::evaluation::accepted(
            machine,
            events,
        ) && crate::evaluation::run(machine, events).accepts(event)),
{
    assert(events.push(event).drop_last() =~= events);
}

/// Whenever an evaluation comes to its run, it asks for one with the budget that it was
/// started with, or for one without if it was started without.
pub proof fn law_run_has_the_budget_asked_for(
    script: Script,
    budget: Option<u32>,
    scripts: Seq<Inner>,
    code: Seq<CodeBlock>,
    frames: Seq<CallFrame>,
    events: Seq<Event>,
    event: Option<Event>,
    action: Action,
)
    ensures
        ({
            let machine = crate::evaluation::run(
                Machine::start(script, budget, scripts, code, frames),
                events,
            );
            &&& machine.evaluation.script == script
            &&& machine.evaluation.budget == budget
            &&& machine.evaluation.stage is Running ==> (machine.asks(event, action) <==> action
                == (Action::Run { budget }))
        }),
    decreases events.len(),
{
    if events.len() > 0 {
        law_run_has_the_budget_asked_for(
            script,
            budget,
            scripts,
            code,
            frames,
            events.drop_last(),
            event,
            action,
        );
    }
}

/// A compiled script gives what its run gives: when it is started, resized, declared and
/// run, the result is the value that the run came to or returned, or what it threw, and
/// the frames, scripts and code are what they were.
pub proof fn law_script_gives_what_its_run_gives(
    script: Script,
    budget: Option<u32>,
    scripts: Seq<Inner>,
    code: Seq<CodeBlock>,
    frames: Seq<CallFrame>,
    record: CompletionRecord,
    action: Action,
)
    requires
        scripts[script.id as int].phase is Codeblock,
    ensures
        ({
            let started = Machine::start(script, budget, scripts, code, frames);
            let running = started.after(Event::Resized).after(Event::Declared(Ok(())));
            let finished = running.after(Event::Ran(record));
            &&& running.evaluation.stage is Running
            &&& finished.evaluation.stage is Finished
            &&& finished.frames == frames
            &&& finished.scripts == scripts
            &&& finished.code == code
            &&& finished.asks(Some(Event::Ran(record)), action) <==> match record {
                CompletionRecord::Normal(value) => action == Action::Finish(Ok(value)),
                CompletionRecord::Return(value) => action == Action::Finish(Ok(value)),
                CompletionRecord::Throw(error) => action == Action::Finish(Err(error)),
            }
        }),
{
    let started = Machine::start(script, budget, scripts, code, frames);
    assert(started.frames.drop_last() =~= frames);
}

} // verus!
