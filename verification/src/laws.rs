//! What holds of scripts across operations.

use crate::context::{CallFrame, Context};
use crate::evaluation::{Action, Evaluation, Event, Machine, Stage};
use crate::heap::{Code, CodeBlock, Heap, HostDefined, Inner, Module, Realm, Script, ScriptPhase};
use crate::outside::ScriptSyntax;
use crate::script::{CodeblockStep, CompileRequest, ParseStep};
use rustc_hash::FxHashMap;
use std::path::PathBuf;
use vstd::prelude::*;

verus! {

/// A heap is a later state of itself.
pub proof fn law_extends_reflexive(heap: Heap)
    ensures
        heap.extends(heap),
{
}

/// A later state of a later state is a later state.
pub proof fn law_extends_transitive(first: Heap, second: Heap, third: Heap)
    requires
        second.extends(first),
        third.extends(second),
    ensures
        third.extends(first),
{
    assert forall|r: int|
        #![trigger third.realms@[r]]
        0 <= r < first.realms@.len() implies first.realms@[r].bindings().submap_of(
        third.realms@[r].bindings(),
    ) by {
        vstd::map_lib::lemma_submap_of_trans(
            first.realms@[r].bindings(),
            second.realms@[r].bindings(),
            third.realms@[r].bindings(),
        );
    }
    assert forall|c: int|
        #![trigger third.code@[c]]
        0 <= c < first.code@.len() implies third.code@[c].same_code(first.code@[c]) by {
        assert(second.code@[c].same_code(first.code@[c]));
    }
    assert forall|s: int|
        #![trigger third.scripts@[s]]
        0 <= s < first.scripts@.len() implies third.scripts@[s].continues(
        first.scripts@[s],
    ) by {
        assert(second.scripts@[s].continues(first.scripts@[s]));
    }
}

/// A compiled script is never compiled again: in every later state, compiling it
/// gives the code that it had.
pub proof fn law_compiled_once(before: Heap, after: Heap, script: Script, code: Code)
    requires
        after.extends(before),
        before.has_script(script),
        crate::script::codeblock_step(before.script(script)) == CodeblockStep::Ready(code),
    ensures
        after.has_script(script),
        crate::script::codeblock_step(after.script(script)) == CodeblockStep::Ready(code),
{
    assert(after.scripts@[script.id as int].continues(before.scripts@[script.id as int]));
}

/// A script stays in the realm that it was made for, and keeps its text and path.
pub proof fn law_script_keeps_its_realm(before: Heap, after: Heap, script: Script)
    requires
        after.extends(before),
        before.has_script(script),
    ensures
        after.script(script).realm == before.script(script).realm,
        after.script(script).source_text == before.script(script).source_text,
        after.script(script).path == before.script(script).path,
{
    assert(after.scripts@[script.id as int].continues(before.scripts@[script.id as int]));
}

/// Whether a compiled script can be bound to another realm is settled for good.
pub proof fn law_binding_is_settled(before: Heap, after: Heap, script: Script)
    requires
        before.wf(),
        after.extends(before),
        before.has_script(script),
        before.script(script).phase is Codeblock,
    ensures
        crate::script::can_be_bound(after, script) == crate::script::can_be_bound(before, script),
{
    assert(after.scripts@[script.id as int].continues(before.scripts@[script.id as int]));
    let code = before.script(script).phase->Codeblock_0;
    assert(before.handles_lead_here(before.scripts@[script.id as int]));
    assert(after.code@[code.id as int].same_code(before.code@[code.id as int]));
}

/// A script that has only been parsed cannot be bound.
pub proof fn law_parsed_script_cannot_be_bound(
    before: Heap,
    after: Heap,
    script: Script,
    strict: bool,
    source: Seq<u16>,
    path: Option<PathBuf>,
    realm: Realm,
    optimize: bool,
)
    requires
        crate::script::is_parse_step(
            ParseStep::Done(script),
            strict,
            source,
            path,
            realm,
            optimize,
            before,
            after,
        ),
    ensures
        !crate::script::can_be_bound(after, script),
{
}

/// A script that has been compiled is ready, and can be bound if and only if its
/// top level declares nothing with `let`, `const` or `class`.
pub proof fn law_compiled_script_can_be_bound(
    before: Heap,
    after: Heap,
    script: Script,
    code: Code,
    block: CodeBlock,
)
    requires
        before.has_script(script),
        code.id == before.code@.len(),
        after.code@ == before.code@.push(block),
        after.scripts@ == crate::script::compiled(before.scripts@, script, code),
    ensures
        crate::script::codeblock_step(after.script(script)) == CodeblockStep::Ready(code),
        crate::script::can_be_bound(after, script) == (block.global_lexs@.len() == 0),
{
}

/// A script that was bound once can be bound to as many realms as asked, and so
/// can the script that it was bound from.
pub proof fn law_bound_script_can_be_bound(
    before: Heap,
    after: Heap,
    script: Script,
    code: Code,
    realm: Realm,
    bound: Script,
)
    requires
        before.wf(),
        before.has_script(script),
        crate::script::can_be_bound(before, script),
        before.script(script).phase == ScriptPhase::Codeblock(code),
        crate::script::is_bound(before, after, script, code, realm, bound),
    ensures
        crate::script::can_be_bound(after, bound),
        crate::script::can_be_bound(after, script),
{
    assert(before.handles_lead_here(before.scripts@[script.id as int]));
    assert(crate::heap::holds(before.code@, code.id as int, code.id as int));
    assert(after.code@[code.id as int].same_code(before.code@[code.id as int]));
    assert(after.scripts@[script.id as int] == before.scripts@[script.id as int]);
}

/// Binding shares the code and nothing else: the two scripts have the same code,
/// each has a record of its own, that of the script bound from is as it was, and
/// the new one runs in the realm asked for with no modules loaded.
pub proof fn law_binding_shares_only_the_code(
    before: Heap,
    after: Heap,
    script: Script,
    code: Code,
    realm: Realm,
    bound: Script,
)
    requires
        before.has_script(script),
        before.script(script).phase == ScriptPhase::Codeblock(code),
        crate::script::is_bound(before, after, script, code, realm, bound),
    ensures
        bound != script,
        after.script(script) == before.script(script),
        crate::script::codeblock_step(after.script(bound)) == crate::script::codeblock_step(
            after.script(script),
        ),
        after.script(bound).realm == realm,
        after.script(bound).is_unused(),
{
    assert(after.scripts@[script.id as int] == before.scripts@[script.id as int]);
}

/// A module that one script loads is not visible to another.
pub proof fn law_loaded_modules_are_private(
    before: Heap,
    after: Heap,
    script: Script,
    other: Script,
    modules: FxHashMap<Vec<u16>, Module>,
)
    requires
        before.has_script(script),
        before.has_script(other),
        script != other,
        after.scripts@ == before.scripts@.update(
            script.id as int,
            (Inner { loaded_modules: modules, ..before.script(script) }),
        ),
    ensures
        after.script(other) == before.script(other),
        after.script(script).loaded_modules == modules,
{
}

/// What is attached to one script is not visible to another.
pub proof fn law_attachments_are_private(
    before: Heap,
    after: Heap,
    script: Script,
    other: Script,
    host_defined: HostDefined,
)
    requires
        before.has_script(script),
        before.has_script(other),
        script != other,
        after.scripts@ == before.scripts@.update(
            script.id as int,
            (Inner { host_defined, ..before.script(script) }),
        ),
    ensures
        after.script(other) == before.script(other),
        after.script(script).host_defined == host_defined,
{
}

/// A name that one script has bound in a realm by `let`, `const` or `class` cannot be
/// declared there again, neither so nor as a variable, however much is bound later.
pub proof fn law_redeclaration_conflicts(
    first: ScriptSyntax,
    second: ScriptSyntax,
    before: Map<Seq<u16>, bool>,
    later: Map<Seq<u16>, bool>,
    name: Seq<u16>,
)
    requires
        first.binds(before).submap_of(later),
        first.bound_names.contains(name),
        second.lexical_names.contains(name) || second.var_names.contains(name),
    ensures
        second.conflicts(later),
{
    assert(first.binds(before).dom().contains(name));
    assert(later.dom().contains(name));
    assert(later[name]);
}

/// In a realm where nothing is bound, no declaration conflicts.
pub proof fn law_new_realm_has_no_conflicts(syntax: ScriptSyntax, bindings: Map<Seq<u16>, bool>)
    requires
        bindings.is_empty(),
    ensures
        !syntax.conflicts(bindings),
{
    assert(bindings.dom() =~= Set::<Seq<u16>>::empty());
}

/// What the caches of shared code had learned before a binding cannot be told
/// after it: whichever of two states that differ only in this a script is bound
/// in, its code comes out the same, with blank caches.
pub proof fn law_binding_forgets(
    one: Heap,
    other: Heap,
    after_one: Heap,
    after_other: Heap,
    script: Script,
    code: Code,
    realm: Realm,
    bound: Script,
    c: int,
)
    requires
        one.wf(),
        one.has_code(code),
        one.code@.len() == other.code@.len(),
        forall|d: int|
            #![trigger other.code@[d]]
            0 <= d < one.code@.len() ==> one.code@[d].same_code(other.code@[d]),
        crate::script::is_bound(one, after_one, script, code, realm, bound),
        crate::script::is_bound(other, after_other, script, code, realm, bound),
        0 <= c < one.code@.len(),
        crate::heap::holds(one.code@, code.id as int, c),
    ensures
        after_one.code@[c].same_code(after_other.code@[c]),
        after_one.code@[c].is_blank(),
        after_other.code@[c].is_blank(),
{
    crate::heap::lemma_holds_same(one.code@, other.code@, code.id as int, c);
    assert(one.code@[c].same_code(other.code@[c]));
    assert(after_one.code@[c].same_code(one.code@[c]));
    assert(after_other.code@[c].same_code(other.code@[c]));
}

/// Binding touches no code but that of the script and the functions inside it.
pub proof fn law_binding_leaves_other_code(
    before: Heap,
    after: Heap,
    script: Script,
    code: Code,
    realm: Realm,
    bound: Script,
    c: int,
)
    requires
        crate::script::is_bound(before, after, script, code, realm, bound),
        0 <= c < before.code@.len(),
        !crate::heap::holds(before.code@, code.id as int, c),
    ensures
        after.code@[c] == before.code@[c],
{
}

/// A script runs in its own realm, whichever realm its code was compiled for: the
/// frame that a compiled script enters has its realm and its code.
pub proof fn law_script_runs_in_its_realm(
    heap: Heap,
    script: Script,
    code: Code,
    budget: Option<u32>,
    frames: Seq<CallFrame>,
)
    requires
        heap.has_script(script),
        heap.script(script).phase == ScriptPhase::Codeblock(code),
    ensures
        ({
            let started = Machine::start(script, budget, heap.scripts@, heap.code@, frames);
            &&& started.frames.len() == frames.len() + 1
            &&& started.frames.last().realm == heap.script(script).realm
            &&& started.frames.last().code == code
        }),
{
}

/// The stages after compiling survive whatever else happens to the heap meanwhile,
/// such as other evaluations inside a run.
pub proof fn law_evaluation_survives_growth(
    evaluation: Evaluation,
    before: Heap,
    after: Heap,
    context: Context,
    later: Context,
)
    requires
        evaluation.machine(before, context).wf(),
        after.extends(before),
        evaluation.stage !is Instantiating,
        evaluation.stage !is Compiling,
    ensures
        evaluation.machine(after, later).wf(),
{
    let id = evaluation.script.id as int;
    assert(after.scripts@[id].continues(before.scripts@[id]));
}

/// The frames of `machine`, which started over `frames`.
spec fn frames_owed(machine: Machine, frames: Seq<CallFrame>) -> Seq<CallFrame> {
    match machine.evaluation.stage {
        Stage::Instantiating => frames,
        Stage::Compiling => frames,
        Stage::Finished => frames,
        Stage::Resizing(code) => frames.push(
            crate::evaluation::script_frame(machine.evaluation.script, machine.inner(), code),
        ),
        Stage::Declaring(code) => frames.push(
            crate::evaluation::script_frame(machine.evaluation.script, machine.inner(), code),
        ),
        Stage::Running(code) => frames.push(
            crate::evaluation::script_frame(machine.evaluation.script, machine.inner(), code),
        ),
    }
}

proof fn lemma_frames_owed(
    script: Script,
    budget: Option<u32>,
    scripts: Seq<Inner>,
    code: Seq<CodeBlock>,
    frames: Seq<CallFrame>,
    events: Seq<Event>,
)
    requires
        script.id < scripts.len(),
        crate::evaluation::accepted(Machine::start(script, budget, scripts, code, frames), events),
    ensures
        ({
            let machine = crate::evaluation::run(
                Machine::start(script, budget, scripts, code, frames),
                events,
            );
            &&& machine.frames == frames_owed(machine, frames)
            &&& machine.evaluation.script == script
            &&& machine.scripts.len() == scripts.len()
        }),
    decreases events.len(),
{
    if events.len() > 0 {
        lemma_frames_owed(script, budget, scripts, code, frames, events.drop_last());
        let start = Machine::start(script, budget, scripts, code, frames);
        let machine = crate::evaluation::run(start, events.drop_last());
        let next = machine.after(events.last());
        assert(next.frames =~= frames_owed(next, frames));
    }
}

/// An evaluation leaves the call frames as it found them, however it ends.
pub proof fn law_frames_are_restored(
    script: Script,
    budget: Option<u32>,
    scripts: Seq<Inner>,
    code: Seq<CodeBlock>,
    frames: Seq<CallFrame>,
    events: Seq<Event>,
)
    requires
        script.id < scripts.len(),
        crate::evaluation::accepted(Machine::start(script, budget, scripts, code, frames), events),
        crate::evaluation::run(
            Machine::start(script, budget, scripts, code, frames),
            events,
        ).evaluation.stage is Finished,
    ensures
        crate::evaluation::run(
            Machine::start(script, budget, scripts, code, frames),
            events,
        ).frames == frames,
{
    lemma_frames_owed(script, budget, scripts, code, frames, events);
}

/// How many events can still come at `stage`.
pub open spec fn events_left(stage: Stage) -> int {
    match stage {
        Stage::Instantiating => 5,
        Stage::Compiling => 4,
        Stage::Resizing(_) => 3,
        Stage::Declaring(_) => 2,
        Stage::Running(_) => 1,
        Stage::Finished => 0,
    }
}

/// Every event brings an evaluation closer to its end, so at most five come: two
/// for compiling and three for running.
pub proof fn law_evaluation_ends(machine: Machine, events: Seq<Event>)
    requires
        crate::evaluation::accepted(machine, events),
    ensures
        events.len() <= 5,
        machine.evaluation.stage is Resizing ==> events.len() <= 3,
{
    lemma_events_left(machine, events);
}

proof fn lemma_events_left(machine: Machine, events: Seq<Event>)
    requires
        crate::evaluation::accepted(machine, events),
    ensures
        events.len() + events_left(
            crate::evaluation::run(machine, events).evaluation.stage,
        ) <= events_left(machine.evaluation.stage),
    decreases events.len(),
{
    if events.len() > 0 {
        lemma_events_left(machine, events.drop_last());
    }
}

/// At every stage but the last there is an event that can come, so an evaluation
/// never gets stuck.
pub proof fn law_evaluation_can_go_on(machine: Machine, block: CodeBlock)
    requires
        machine.evaluation.stage !is Finished,
        crate::heap::functions_known(machine.code, block),
    ensures
        exists|event: Event| machine.accepts(event),
{
    let event = match machine.evaluation.stage {
        Stage::Instantiating => Event::Instantiated(Err(arbitrary())),
        Stage::Compiling => Event::Compiled(block),
        Stage::Resizing(_) => Event::Resized,
        Stage::Declaring(_) => Event::Declared(Ok(())),
        _ => Event::Ran(arbitrary()),
    };
    assert(machine.accepts(event));
}

/// `machine` with another budget.
pub open spec fn with_budget(machine: Machine, budget: Option<u32>) -> Machine {
    Machine { evaluation: Evaluation { budget, ..machine.evaluation }, ..machine }
}

/// A budget changes when a run yields and nothing else: an evaluation with one
/// takes the same events as one without, and comes to the same.
pub proof fn law_budget_changes_no_result(
    script: Script,
    budget: Option<u32>,
    scripts: Seq<Inner>,
    code: Seq<CodeBlock>,
    frames: Seq<CallFrame>,
    events: Seq<Event>,
)
    ensures
        ({
            let plain = Machine::start(script, None, scripts, code, frames);
            let yielding = Machine::start(script, budget, scripts, code, frames);
            &&& crate::evaluation::accepted(yielding, events) == crate::evaluation::accepted(
                plain,
                events,
            )
            &&& crate::evaluation::run(yielding, events) == with_budget(
                crate::evaluation::run(plain, events),
                budget,
            )
        }),
    decreases events.len(),
{
    if events.len() > 0 {
        law_budget_changes_no_result(script, budget, scripts, code, frames, events.drop_last());
    }
}

/// Evaluating a compiled script compiles nothing: records and code stay as they
/// are throughout.
pub proof fn law_compiled_script_is_only_run(
    script: Script,
    budget: Option<u32>,
    scripts: Seq<Inner>,
    code: Seq<CodeBlock>,
    frames: Seq<CallFrame>,
    events: Seq<Event>,
)
    requires
        script.id < scripts.len(),
        scripts[script.id as int].phase is Codeblock,
        crate::evaluation::accepted(Machine::start(script, budget, scripts, code, frames), events),
    ensures
        ({
            let machine = crate::evaluation::run(
                Machine::start(script, budget, scripts, code, frames),
                events,
            );
            &&& machine.scripts == scripts
            &&& machine.code == code
            &&& machine.evaluation.stage !is Instantiating
            &&& machine.evaluation.stage !is Compiling
        }),
    decreases events.len(),
{
    if events.len() > 0 {
        law_compiled_script_is_only_run(script, budget, scripts, code, frames, events.drop_last());
    }
}

/// What the instantiation of a script's declarations throws ends its evaluation
/// before anything was changed, so the script can be evaluated again.
pub proof fn law_failed_instantiation_changes_nothing(machine: Machine, event: Event)
    requires
        machine.evaluation.stage is Instantiating,
        event matches Event::Instantiated(Err(_)),
    ensures
        machine.after(event) == machine.at(Stage::Finished),
        machine.after(event).scripts == machine.scripts,
        machine.after(event).code == machine.code,
        machine.after(event).frames == machine.frames,
{
}

/// An evaluation that came past the instantiation of the declarations leaves the
/// script compiled, even if the run throws; no other script is touched.
pub proof fn law_evaluation_compiles(
    script: Script,
    budget: Option<u32>,
    scripts: Seq<Inner>,
    code: Seq<CodeBlock>,
    frames: Seq<CallFrame>,
    events: Seq<Event>,
    other: int,
)
    requires
        script.id < scripts.len(),
        crate::evaluation::accepted(Machine::start(script, budget, scripts, code, frames), events),
    ensures
        ({
            let machine = crate::evaluation::run(
                Machine::start(script, budget, scripts, code, frames),
                events,
            );
            &&& machine.evaluation.script == script
            &&& machine.scripts.len() == scripts.len()
            &&& 0 <= other < scripts.len() && other != script.id ==> machine.scripts[other]
                == scripts[other]
            &&& events.len() > 0 && events.last() !is Instantiated ==> machine.inner().phase
                is Codeblock
            &&& machine.wf()
        }),
    decreases events.len(),
{
    if events.len() > 0 {
        law_evaluation_compiles(
            script,
            budget,
            scripts,
            code,
            frames,
            events.drop_last(),
            other,
        );
    }
}

/// How often the identifier for the next parser has changed between the first of
/// `contexts`, which are states of one context in turn, and the one at `n`.
pub open spec fn identifiers_taken(contexts: Seq<Context>, n: int) -> nat
    decreases n,
{
    if n <= 0 {
        0
    } else if contexts[n].parser_identifier == contexts[n - 1].parser_identifier {
        identifiers_taken(contexts, n - 1)
    } else {
        identifiers_taken(contexts, n - 1) + 1
    }
}

/// From each of `contexts` to the next, either a parse took place, which may have
/// failed, or the identifier for the next parser was left alone.
pub open spec fn are_states_of_one_context(contexts: Seq<Context>) -> bool {
    forall|k: int, l: int|
        #![trigger contexts[k], contexts[l]]
        0 <= k < l < contexts.len() && l == k + 1 ==> contexts[l].parsed_once_more(contexts[k])
            || contexts[l].parser_identifier == contexts[k].parser_identifier
}

/// No two parses in one context share an identifier, whether they succeed or fail and
/// whatever happens between them, as long as there are no more of them than
/// identifiers.
pub proof fn law_parses_take_different_identifiers(contexts: Seq<Context>, i: int, j: int)
    requires
        are_states_of_one_context(contexts),
        identifiers_taken(contexts, contexts.len() - 1) <= 0x1_0000_0000,
        0 <= i < j < contexts.len() - 1,
        contexts[i + 1].parsed_once_more(contexts[i]),
        contexts[j + 1].parsed_once_more(contexts[j]),
    ensures
        contexts[i].parser_identifier != contexts[j].parser_identifier,
{
    lemma_identifier(contexts, i);
    lemma_identifier(contexts, j);
    lemma_identifiers_grow(contexts, i + 1, j);
    lemma_identifiers_grow(contexts, j + 1, contexts.len() - 1);
}

proof fn lemma_identifier(contexts: Seq<Context>, k: int)
    requires
        are_states_of_one_context(contexts),
        0 <= k < contexts.len(),
    ensures
        contexts[k].parser_identifier == (contexts[0].parser_identifier + identifiers_taken(
            contexts,
            k,
        )) % 0x1_0000_0000,
    decreases k,
{
    if k > 0 {
        lemma_identifier(contexts, k - 1);
        assert(contexts[k].parsed_once_more(contexts[k - 1])
            || contexts[k].parser_identifier == contexts[k - 1].parser_identifier);
    }
}

proof fn lemma_identifiers_grow(contexts: Seq<Context>, m: int, n: int)
    requires
        0 <= m <= n,
    ensures
        identifiers_taken(contexts, m) <= identifiers_taken(contexts, n),
    decreases n - m,
{
    if m < n {
        lemma_identifiers_grow(contexts, m, n - 1);
    }
}

/// Two parses make separate records, be it of the same text: compiling the first
/// script leaves the second one uncompiled, so that it still cannot be bound, and what
/// is loaded by or attached to the first is not visible on the second. This holds at
/// any time `later`.
pub proof fn law_parses_make_separate_records(
    before_first: Heap,
    after_first: Heap,
    first: Script,
    before_second: Heap,
    after_second: Heap,
    second: Script,
    later: Heap,
    strict: bool,
    source: Seq<u16>,
    path: Option<PathBuf>,
    realm: Realm,
    optimize: bool,
)
    requires
        crate::script::is_parse_step(
            ParseStep::Done(first),
            strict,
            source,
            path,
            realm,
            optimize,
            before_first,
            after_first,
        ),
        before_second.extends(after_first),
        crate::script::is_parse_step(
            ParseStep::Done(second),
            strict,
            source,
            path,
            realm,
            optimize,
            before_second,
            after_second,
        ),
        later.extends(after_second),
    ensures
        after_second.script(first) == before_second.script(first),
        after_second.script(second).phase is Ast,
        after_second.script(second).is_unused(),
        changes_no_other_script(later, first, second),
        changes_no_other_script(later, second, first),
{
    assert(after_second.scripts@[first.id as int] == before_second.scripts@[first.id as int]);
    law_scripts_are_separate_records(
        before_first,
        after_first,
        first,
        before_second,
        after_second,
        second,
        later,
    );
}

/// Whatever is done to `script` alone in `heap` leaves the record of `other` as it is,
/// and `other` as unfit for a binding as it is while it is not compiled.
pub open spec fn changes_no_other_script(heap: Heap, script: Script, other: Script) -> bool {
    &&& script != other
    &&& forall|after: Heap, code: Code|
        #![trigger after.script(other), crate::script::compiled(heap.scripts@, script, code)]
        after.scripts@ == crate::script::compiled(heap.scripts@, script, code) ==> {
            &&& after.script(other) == heap.script(other)
            &&& heap.script(other).phase is Ast ==> !crate::script::can_be_bound(after, other)
        }
    &&& forall|inner: Inner|
        #![trigger heap.scripts@.update(script.id as int, inner)]
        heap.scripts@.update(script.id as int, inner)[other.id as int] == heap.script(other)
}

/// Scripts that were entered in the heap at different times, by parsing or by binding,
/// have separate records.
pub proof fn law_scripts_are_separate_records(
    before_first: Heap,
    after_first: Heap,
    first: Script,
    before_second: Heap,
    after_second: Heap,
    second: Script,
    later: Heap,
)
    requires
        crate::script::adds_script(before_first, after_first, first),
        before_second.extends(after_first),
        crate::script::adds_script(before_second, after_second, second),
        later.extends(after_second),
    ensures
        changes_no_other_script(later, first, second),
        changes_no_other_script(later, second, first),
{
}

/// One binding: in `before`, `script` was bound to `realm`, which gave `bound` in
/// `after`.
pub struct Binding {
    /// The heap before.
    pub before: Heap,
    /// The heap after.
    pub after: Heap,
    /// The script bound from.
    pub script: Script,
    /// Its code.
    pub code: Code,
    /// The realm bound to.
    pub realm: Realm,
    /// The script made.
    pub bound: Script,
}

/// The script at the end of `bindings` that start from `script`.
pub open spec fn last_script(script: Script, bindings: Seq<Binding>) -> Script {
    if bindings.len() == 0 {
        script
    } else {
        bindings.last().bound
    }
}

/// The heap at the end of `bindings` that start in `heap`.
pub open spec fn last_heap(heap: Heap, bindings: Seq<Binding>) -> Heap {
    if bindings.len() == 0 {
        heap
    } else {
        bindings.last().after
    }
}

/// `bindings` took place one after the other, each of the script that the one before
/// it made and the first of `script`. Anything may have happened between them.
pub open spec fn is_chain(heap: Heap, script: Script, bindings: Seq<Binding>) -> bool
    decreases bindings.len(),
{
    bindings.len() == 0 || {
        let rest = bindings.drop_last();
        let last = bindings.last();
        &&& is_chain(heap, script, rest)
        &&& last.before.extends(last_heap(heap, rest))
        &&& last.script == last_script(script, rest)
        &&& last.after.extends(last.before)
        &&& crate::script::is_bound(
            last.before,
            last.after,
            last.script,
            last.code,
            last.realm,
            last.bound,
        )
    }
}

/// A script made by any chain of bindings has the path and the source text of the
/// script that the chain starts from, and so it stays: no compiling, evaluating or
/// binding changes either.
pub proof fn law_chain_keeps_path_and_text(
    heap: Heap,
    script: Script,
    bindings: Seq<Binding>,
    later: Heap,
)
    requires
        heap.wf(),
        heap.has_script(script),
        is_chain(heap, script, bindings),
        later.extends(last_heap(heap, bindings)),
    ensures
        later.has_script(last_script(script, bindings)),
        later.script(last_script(script, bindings)).path == heap.script(script).path,
        later.script(last_script(script, bindings)).source_text == heap.script(script).source_text,
        later.sources@[heap.script(script).source_text.id as int] == heap.sources@[heap.script(
            script,
        ).source_text.id as int],
    decreases bindings.len(),
{
    let end = last_script(script, bindings);
    assert(heap.handles_lead_here(heap.scripts@[script.id as int]));
    if bindings.len() > 0 {
        let last = bindings.last();
        law_chain_keeps_path_and_text(heap, script, bindings.drop_last(), last.before);
        law_extends_transitive(last_heap(heap, bindings.drop_last()), last.before, last.after);
        law_extends_transitive(last_heap(heap, bindings.drop_last()), last.after, later);
        law_chain_keeps_path_and_text(heap, script, bindings.drop_last(), later);
    }
    assert(later.scripts@[end.id as int].continues(
        last_heap(heap, bindings).scripts@[end.id as int],
    ));
}

/// A script that was parsed from a source, or made from such a script by any chain of
/// bindings, has the path of that source, or none if it had none, and the text that
/// was read from it.
pub proof fn law_parsed_path_and_text_are_kept(
    before: Heap,
    after: Heap,
    script: Script,
    strict: bool,
    source: Seq<u16>,
    path: Option<PathBuf>,
    realm: Realm,
    optimize: bool,
    bindings: Seq<Binding>,
    later: Heap,
)
    requires
        after.wf(),
        crate::script::is_parse_step(
            ParseStep::Done(script),
            strict,
            source,
            path,
            realm,
            optimize,
            before,
            after,
        ),
        is_chain(after, script, bindings),
        later.extends(last_heap(after, bindings)),
    ensures
        ({
            let end = later.script(last_script(script, bindings));
            &&& end.path == path
            &&& later.sources@[end.source_text.id as int]@ == source
        }),
{
    law_chain_keeps_path_and_text(after, script, bindings, later);
}

/// An evaluation of a compiled script is the same whatever has happened since some
/// earlier time, such as evaluations of scripts that share its code: it takes the same
/// events, enters the same frame, and asks the engine for the same.
pub proof fn law_evaluations_are_independent(
    before: Heap,
    after: Heap,
    script: Script,
    budget: Option<u32>,
    frames: Seq<CallFrame>,
    events: Seq<Event>,
)
    requires
        before.has_script(script),
        before.script(script).phase is Codeblock,
        after.extends(before),
    ensures
        ({
            let early = Machine::start(script, budget, before.scripts@, before.code@, frames);
            let late = Machine::start(script, budget, after.scripts@, after.code@, frames);
            let early_end = crate::evaluation::run(early, events);
            let late_end = crate::evaluation::run(late, events);
            &&& crate::evaluation::accepted(late, events) == crate::evaluation::accepted(
                early,
                events,
            )
            &&& crate::evaluation::accepted(early, events) ==> {
                &&& late_end.evaluation == early_end.evaluation
                &&& late_end.frames == early_end.frames
                &&& forall|event: Option<Event>, action: Action| #[trigger]
                    late_end.asks(event, action) == early_end.asks(event, action)
            }
        }),
    decreases events.len(),
{
    assert(after.scripts@[script.id as int].continues(before.scripts@[script.id as int]));
    let early = Machine::start(script, budget, before.scripts@, before.code@, frames);
    let late = Machine::start(script, budget, after.scripts@, after.code@, frames);
    if events.len() > 0 {
        law_evaluations_are_independent(
            before,
            after,
            script,
            budget,
            frames,
            events.drop_last(),
        );
        if crate::evaluation::accepted(early, events.drop_last()) {
            law_compiled_script_is_only_run(
                script,
                budget,
                before.scripts@,
                before.code@,
                frames,
                events.drop_last(),
            );
            law_compiled_script_is_only_run(
                script,
                budget,
                after.scripts@,
                after.code@,
                frames,
                events.drop_last(),
            );
        }
    }
    if crate::evaluation::accepted(early, events) {
        law_compiled_script_is_only_run(
            script,
            budget,
            before.scripts@,
            before.code@,
            frames,
            events,
        );
        law_compiled_script_is_only_run(script, budget, after.scripts@, after.code@, frames, events);
        law_evaluation_compiles(script, budget, before.scripts@, before.code@, frames, events, 0);
        law_evaluation_compiles(script, budget, after.scripts@, after.code@, frames, events, 0);
    }
}

/// The compiler is asked for the same code of two scripts with the same strictness and
/// path, such as two parses of one source, each in the realm of its script and with a
/// text of its own.
pub proof fn law_same_request_for_the_same_script(
    one: CompileRequest,
    other: CompileRequest,
    script: Script,
    other_script: Script,
    inner: Inner,
    other_inner: Inner,
    names: Vec<u64>,
)
    requires
        one.asks_for(script, inner, names),
        other.asks_for(other_script, other_inner, names),
        inner.phase->strict == other_inner.phase->strict,
        inner.path == other_inner.path,
    ensures
        one.name@ == other.name@,
        one == (CompileRequest {
            script,
            name: one.name,
            variable_scope: inner.realm,
            lexical_scope: inner.realm,
            source_text: inner.source_text,
            ..other
        }),
{
}

/// A bound script is run as one that has just been compiled: it takes the same events
/// as that one takes after its compilation, is as far from its end after each of them,
/// and ends with the same result.
pub proof fn law_bound_script_is_run_like_a_fresh_one(
    heap: Heap,
    bound: Script,
    frames: Seq<CallFrame>,
    fresh_heap: Heap,
    fresh: Script,
    fresh_frames: Seq<CallFrame>,
    names: Vec<u64>,
    block: CodeBlock,
    budget: Option<u32>,
    events: Seq<Event>,
)
    requires
        heap.has_script(bound),
        heap.script(bound).phase is Codeblock,
        fresh_heap.has_script(fresh),
        fresh_heap.script(fresh).phase is Ast,
        fresh_heap.has_functions_of(block),
    ensures
        ({
            let started = Machine::start(bound, budget, heap.scripts@, heap.code@, frames);
            let uncompiled = Machine::start(
                fresh,
                budget,
                fresh_heap.scripts@,
                fresh_heap.code@,
                fresh_frames,
            );
            let compilation = seq![Event::Instantiated(Ok(names)), Event::Compiled(block)];
            let compiled = crate::evaluation::run(uncompiled, compilation);
            let bound_end = crate::evaluation::run(started, events);
            let fresh_end = crate::evaluation::run(compiled, events);
            &&& crate::evaluation::accepted(uncompiled, compilation)
            &&& crate::evaluation::accepted(compiled, events) == crate::evaluation::accepted(
                started,
                events,
            )
            &&& events_left(fresh_end.evaluation.stage) == events_left(bound_end.evaluation.stage)
            &&& fresh_end.evaluation.budget == bound_end.evaluation.budget
            &&& bound_end.evaluation.stage is Finished ==> forall|
                event: Option<Event>,
                action: Action,
            | #[trigger]
                fresh_end.asks(event, action) == bound_end.asks(event, action)
        }),
    decreases events.len(),
{
    let uncompiled = Machine::start(
        fresh,
        budget,
        fresh_heap.scripts@,
        fresh_heap.code@,
        fresh_frames,
    );
    let compilation = seq![Event::Instantiated(Ok(names)), Event::Compiled(block)];
    assert(compilation.drop_last() =~= seq![Event::Instantiated(Ok(names))]);
    assert(compilation.drop_last().drop_last() =~= Seq::<Event>::empty());
    reveal_with_fuel(crate::evaluation::run, 3);
    reveal_with_fuel(crate::evaluation::accepted, 3);
    if events.len() > 0 {
        law_bound_script_is_run_like_a_fresh_one(
            heap,
            bound,
            frames,
            fresh_heap,
            fresh,
            fresh_frames,
            names,
            block,
            budget,
            events.drop_last(),
        );
    }
}

/// A text in valid UTF-8 can be read, unless its columns cannot be counted.
pub proof fn law_utf8_can_be_read(text: Seq<u8>)
    requires
        vstd::utf8::valid_utf8(text),
        text.len() < u32::MAX,
    ensures
        crate::outside::is_readable(text),
{
    assert(text.skip(0) =~= text);
    lemma_utf8_can_be_read_from(text, 0);
}

proof fn lemma_utf8_can_be_read_from(text: Seq<u8>, at: int)
    requires
        0 <= at <= text.len(),
        vstd::utf8::valid_utf8(text.skip(at)),
    ensures
        crate::outside::is_readable_from(text, at),
    decreases text.len() - at,
{
    if at < text.len() {
        let rest = text.skip(at);
        let next = crate::outside::next_code_point(text, at);
        assert(vstd::utf8::pop_first_scalar(rest) =~= text.skip(next));
        if rest[0] >= 0xf0 {
            let (a, b, c, d) = (rest[0], rest[1], rest[2], rest[3]);
            assert(a % 8 < 4 || a % 8 == 4 && b % 64 < 16) by (bit_vector)
                requires
                    (((a & 0x07) as u32) << 18) | (((b & 0x3f) as u32) << 12) | (((c & 0x3f) as u32)
                        << 6) | ((d & 0x3f) as u32) <= 0x10_ffff,
            ;
        }
        lemma_utf8_can_be_read_from(text, next);
    }
}

/// Throwing away what caches have learned a second time changes nothing more.
pub proof fn law_forgetting_twice(
    first: Seq<CodeBlock>,
    second: Seq<CodeBlock>,
    third: Seq<CodeBlock>,
    at: int,
)
    requires
        crate::heap::code_wf(first),
        0 <= at < first.len(),
        crate::heap::forgotten(first, second, at),
        crate::heap::forgotten(second, third, at),
    ensures
        crate::heap::forgotten(first, third, at),
{
    assert forall|c: int| #![trigger third[c]] 0 <= c < first.len() implies if crate::heap::holds(
        first,
        at,
        c,
    ) {
        third[c].same_code(first[c]) && third[c].is_blank()
    } else {
        third[c] == first[c]
    } by {
        assert forall|d: int| #![trigger second[d]] 0 <= d < first.len() implies first[d].functions
            == second[d].functions by {
            assert(second[d].same_code(first[d]) || second[d] == first[d]);
        }
        crate::heap::lemma_holds_same(first, second, at, c);
        assert(second[c].same_code(first[c]) || second[c] == first[c]);
    }
}

} // verus!
