//! The heap: realms, source texts, compiled code and script records, each kept
//! once and reached through copyable handles.

use crate::outside::{
    clone_path, is_parse_of, is_readable, is_text_of, is_tree_of, new_global_scope,
    parse_sloppy_script, parse_strict_script, scope_bindings, script_syntax, ParsedScript,
};
use boa_ast::scope::Scope;
use boa_ast::Script as Ast;
use boa_interner::Interner;
use rustc_hash::FxHashMap;
use std::path::PathBuf;
use vstd::prelude::*;

verus! {

/// A handle to a realm.
#[derive(Clone, Copy, PartialEq, Eq, Structural, Debug)]
pub struct Realm {
    /// Its place in [`Heap::realms`].
    pub id: usize,
}

/// A handle to a source text.
#[derive(Clone, Copy, PartialEq, Eq, Structural, Debug)]
pub struct SourceText {
    /// Its place in [`Heap::sources`].
    pub id: usize,
}

/// A handle to a block of compiled code.
#[derive(Clone, Copy, PartialEq, Eq, Structural, Debug)]
pub struct Code {
    /// Its place in [`Heap::code`].
    pub id: usize,
}

/// A handle to a script record.
#[derive(Clone, Copy, PartialEq, Eq, Structural, Debug)]
pub struct Script {
    /// Its place in [`Heap::scripts`].
    pub id: usize,
}

/// A module, by the number under which the engine keeps it.
#[derive(Clone, Copy, PartialEq, Eq, Structural, Debug)]
pub struct Module {
    /// That number.
    pub id: u64,
}

/// What a property access has learned of the objects that it has met.
pub struct InlineCache {
    /// The shapes that it has an entry for.
    pub shapes: Vec<u64>,
    /// It has met so many shapes that it no longer looks at its entries.
    pub megamorphic: bool,
}

impl InlineCache {
    /// Nothing has been learned.
    pub open spec fn is_blank(self) -> bool {
        self.shapes@.len() == 0 && !self.megamorphic
    }
}

/// A block of compiled code: a script's top level or the body of a function.
pub struct CodeBlock {
    /// The names that the top level of a script declares with `let`, `const` or
    /// `class`, by symbol.
    pub global_lexs: Vec<u64>,
    /// The functions declared inside this block.
    pub functions: Vec<Code>,
    /// One cache for each property access.
    pub inline_caches: Vec<InlineCache>,
    /// The instructions, by the number under which the engine keeps them.
    pub instructions: u64,
}

impl CodeBlock {
    /// The caches of this block are blank.
    pub open spec fn is_blank(self) -> bool {
        forall|i: int|
            0 <= i < self.inline_caches@.len() ==> (#[trigger] self.inline_caches@[i]).is_blank()
    }

    /// `self` and `other` differ in what their caches have learned, and in
    /// nothing else.
    pub open spec fn same_code(self, other: CodeBlock) -> bool {
        &&& self.global_lexs == other.global_lexs
        &&& self.functions == other.functions
        &&& self.instructions == other.instructions
        &&& self.inline_caches@.len() == other.inline_caches@.len()
    }
}

/// How far a script has come.
pub enum ScriptPhase {
    /// Parsed and not compiled.
    Ast {
        /// The syntax tree.
        code: Ast,
        /// Whether the whole script is strict mode code.
        strict: bool,
    },
    /// Compiled.
    Codeblock(Code),
}

/// What an embedder attaches to a script: the number of a datum for the number
/// of its type.
pub struct HostDefined {
    /// The data, by type.
    pub entries: FxHashMap<u64, u64>,
}

impl Default for HostDefined {
    fn default() -> (host_defined: Self)
        ensures
            host_defined.entries@ == Map::<u64, u64>::empty(),
    {
        HostDefined { entries: FxHashMap::default() }
    }
}

/// A script record.
pub struct Inner {
    /// The realm that the script runs in.
    pub realm: Realm,
    /// How far it has come.
    pub phase: ScriptPhase,
    /// The text that it was parsed from.
    pub source_text: SourceText,
    /// The modules that it has loaded, by specifier in UTF-16 code units.
    pub loaded_modules: FxHashMap<Vec<u16>, Module>,
    /// What the embedder attached to it.
    pub host_defined: HostDefined,
    /// The file that its text came from.
    pub path: Option<PathBuf>,
}

/// What is kept of a realm.
pub struct RealmInner {
    /// Its global scope.
    scope: Scope,
}

impl RealmInner {
    /// The global scope.
    pub closed spec fn global_scope(self) -> Scope {
        self.scope
    }

    /// The names bound in the global scope, each with whether it is bound
    /// lexically.
    pub open spec fn bindings(self) -> Map<Seq<u16>, bool> {
        scope_bindings(self.global_scope())
    }

    /// The global scope.
    pub fn scope(&self) -> (scope: &Scope)
        ensures
            *scope == self.global_scope(),
    {
        &self.scope
    }

    /// Parses `text` as a script of this realm.
    pub(crate) fn parse(
        &mut self,
        text: &[u8],
        strict: bool,
        identifier: u32,
        interner: &mut Interner,
    ) -> (parsed: Result<ParsedScript, String>)
        requires
            is_readable(text@),
        ensures
            is_parse_of(
                parsed,
                script_syntax(text@, strict, identifier),
                old(self).bindings(),
                final(self).bindings(),
            ),
            parsed matches Ok(script) ==> is_tree_of(
                script.code,
                text@,
                strict,
                identifier,
                final(self).global_scope(),
                *final(interner),
            ),
            parsed is Err ==> *final(self) == *old(self),
            parsed matches Ok(script) ==> is_text_of(script.source@, text@),
            strict ==> (parsed matches Ok(script) ==> script.strict),
    {
        if strict {
            parse_strict_script(text, identifier, &mut self.scope, interner)
        } else {
            parse_sloppy_script(text, identifier, &mut self.scope, interner)
        }
    }
}

/// Everything that handles lead to.
pub struct Heap {
    /// The realms.
    pub realms: Vec<RealmInner>,
    /// The source texts, in UTF-16 code units.
    pub sources: Vec<Vec<u16>>,
    /// The compiled code.
    pub code: Vec<CodeBlock>,
    /// The script records.
    pub scripts: Vec<Inner>,
}

impl Inner {
    /// No module has been loaded and nothing is attached.
    pub open spec fn is_unused(self) -> bool {
        &&& self.loaded_modules@ == Map::<Vec<u16>, Module>::empty()
        &&& self.host_defined.entries@ == Map::<u64, u64>::empty()
    }

    /// `self` is a later state of the record `earlier`: the same script in the
    /// same realm, which is compiled at most once and stays compiled.
    pub open spec fn continues(self, earlier: Inner) -> bool {
        &&& self.realm == earlier.realm
        &&& self.source_text == earlier.source_text
        &&& self.path == earlier.path
        &&& self.phase == earlier.phase || earlier.phase is Ast && self.phase is Codeblock
    }

    /// A copy of the path.
    pub(crate) fn clone_path(&self) -> (path: Option<PathBuf>)
        ensures
            path == self.path,
    {
        match &self.path {
            Some(path) => Some(clone_path(path)),
            None => None,
        }
    }
}

impl Heap {
    /// Every handle that is stored here leads somewhere.
    pub open spec fn wf(self) -> bool {
        &&& code_wf(self.code@)
        &&& forall|s: int|
            0 <= s < self.scripts@.len() ==> self.handles_lead_here(#[trigger] self.scripts@[s])
    }

    /// Every handle in `inner` leads somewhere.
    pub open spec fn handles_lead_here(self, inner: Inner) -> bool {
        &&& self.has_realm(inner.realm)
        &&& inner.source_text.id < self.sources@.len()
        &&& inner.phase matches ScriptPhase::Codeblock(code) ==> self.has_code(code)
    }

    /// `realm` leads somewhere.
    pub open spec fn has_realm(self, realm: Realm) -> bool {
        realm.id < self.realms@.len()
    }

    /// `code` leads somewhere.
    pub open spec fn has_code(self, code: Code) -> bool {
        code.id < self.code@.len()
    }

    /// `script` leads somewhere.
    pub open spec fn has_script(self, script: Script) -> bool {
        script.id < self.scripts@.len()
    }

    /// The functions inside `block` have all been added.
    pub open spec fn has_functions_of(self, block: CodeBlock) -> bool {
        functions_known(self.code@, block)
    }

    /// The record that `script` leads to.
    pub open spec fn script(self, script: Script) -> Inner {
        self.scripts@[script.id as int]
    }

    /// `self` is a later state of the heap `earlier`: what handles led to before,
    /// they still lead to.
    pub open spec fn extends(self, earlier: Heap) -> bool {
        &&& earlier.realms@.len() <= self.realms@.len()
        &&& forall|r: int|
            #![trigger self.realms@[r]]
            0 <= r < earlier.realms@.len() ==> earlier.realms@[r].bindings().submap_of(
                self.realms@[r].bindings(),
            )
        &&& earlier.sources@.is_prefix_of(self.sources@)
        &&& earlier.code@.len() <= self.code@.len()
        &&& forall|c: int|
            #![trigger self.code@[c]]
            0 <= c < earlier.code@.len() ==> self.code@[c].same_code(earlier.code@[c])
        &&& earlier.scripts@.len() <= self.scripts@.len()
        &&& forall|s: int|
            #![trigger self.scripts@[s]]
            0 <= s < earlier.scripts@.len() ==> self.scripts@[s].continues(earlier.scripts@[s])
    }

    /// `self` holds what `other` holds.
    pub open spec fn same(self, other: Heap) -> bool {
        &&& self.realms@ == other.realms@
        &&& self.sources@ == other.sources@
        &&& self.code@ == other.code@
        &&& self.scripts@ == other.scripts@
    }

    /// A heap with nothing in it.
    pub fn new() -> (heap: Heap)
        ensures
            heap.wf(),
            heap.realms@.len() == 0,
            heap.sources@.len() == 0,
            heap.code@.len() == 0,
            heap.scripts@.len() == 0,
    {
        Heap {
            realms: Vec::new(),
            sources: Vec::new(),
            code: Vec::new(),
            scripts: Vec::new(),
        }
    }

    /// Adds a realm in which nothing is bound.
    pub fn add_realm(&mut self) -> (realm: Realm)
        requires
            old(self).wf(),
        ensures
            final(self).wf(),
            final(self).extends(*old(self)),
            realm.id == old(self).realms@.len(),
            final(self).realms@ == old(self).realms@.push(final(self).realms@[realm.id as int]),
            final(self).realms@[realm.id as int].bindings().is_empty(),
            final(self).sources == old(self).sources,
            final(self).code == old(self).code,
            final(self).scripts == old(self).scripts,
    {
        let realm = Realm { id: self.realms.len() };
        self.realms.push(RealmInner { scope: new_global_scope() });
        realm
    }

    /// Adds a block of code whose functions have been added before.
    pub fn add_code(&mut self, block: CodeBlock) -> (code: Code)
        requires
            old(self).wf(),
            old(self).has_functions_of(block),
        ensures
            final(self).wf(),
            final(self).extends(*old(self)),
            code.id == old(self).code@.len(),
            final(self).code@ == old(self).code@.push(block),
            final(self).realms == old(self).realms,
            final(self).sources == old(self).sources,
            final(self).scripts == old(self).scripts,
    {
        let code = Code { id: self.code.len() };
        self.code.push(block);
        code
    }
}

/// The functions inside `block` are all among `code`.
pub open spec fn functions_known(code: Seq<CodeBlock>, block: CodeBlock) -> bool {
    forall|j: int|
        0 <= j < block.functions@.len() ==> (#[trigger] block.functions@[j]).id < code.len()
}

/// Every function that a block of `code` holds was added before the block.
pub open spec fn code_wf(code: Seq<CodeBlock>) -> bool {
    forall|c: int, j: int|
        0 <= c < code.len() && 0 <= j < code[c].functions@.len()
            ==> (#[trigger] code[c].functions@[j]).id < c
}

/// `to` is `from`, or a function inside it at any depth.
pub open spec fn holds(code: Seq<CodeBlock>, from: int, to: int) -> bool
    decreases from,
{
    ||| from == to
    ||| exists|j: int|
        0 <= j < code[from].functions@.len() && 0 <= (#[trigger] code[from].functions@[j]).id < from
            && holds(code, code[from].functions@[j].id as int, to)
}

/// `new_code` is `old_code` after what the caches of `at`, and of all functions
/// inside it, had learned was thrown away.
pub open spec fn forgotten(old_code: Seq<CodeBlock>, new_code: Seq<CodeBlock>, at: int) -> bool {
    &&& new_code.len() == old_code.len()
    &&& forall|c: int|
        #![trigger new_code[c]]
        0 <= c < old_code.len() ==> if holds(old_code, at, c) {
            new_code[c].same_code(old_code[c]) && new_code[c].is_blank()
        } else {
            new_code[c] == old_code[c]
        }
}

/// Blocks that hold the same functions hold the same functions at any depth.
pub proof fn lemma_holds_same(a: Seq<CodeBlock>, b: Seq<CodeBlock>, from: int, to: int)
    requires
        a.len() == b.len(),
        0 <= from < a.len(),
        code_wf(a),
        forall|c: int| #![trigger b[c]] 0 <= c < a.len() ==> a[c].functions == b[c].functions,
    ensures
        holds(a, from, to) == holds(b, from, to),
    decreases from,
{
    assert(a[from].functions == b[from].functions);
    assert forall|j: int| 0 <= j < a[from].functions@.len() implies holds(
        a,
        (#[trigger] a[from].functions@[j]).id as int,
        to,
    ) == holds(b, a[from].functions@[j].id as int, to) by {
        lemma_holds_same(a, b, a[from].functions@[j].id as int, to);
    }
    if holds(a, from, to) && from != to {
        let j = choose|j: int|
            0 <= j < a[from].functions@.len() && 0 <= (#[trigger] a[from].functions@[j]).id < from
                && holds(a, a[from].functions@[j].id as int, to);
        assert(b[from].functions@[j].id < from);
    }
    if holds(b, from, to) && from != to {
        let j = choose|j: int|
            0 <= j < b[from].functions@.len() && 0 <= (#[trigger] b[from].functions@[j]).id < from
                && holds(b, b[from].functions@[j].id as int, to);
        assert(a[from].functions@[j].id < from);
    }
}

impl CodeBlock {
    /// Throws away what the caches of this block have learned.
    fn forget(&mut self)
        ensures
            final(self).same_code(*old(self)),
            final(self).is_blank(),
    {
        let mut i: usize = 0;
        while i < self.inline_caches.len()
            invariant
                i <= self.inline_caches@.len(),
                self.same_code(*old(self)),
                forall|k: int| 0 <= k < i ==> (#[trigger] self.inline_caches@[k]).is_blank(),
            decreases self.inline_caches@.len() - i,
        {
            self.inline_caches[i].shapes.clear();
            self.inline_caches[i].megamorphic = false;
            i += 1;
        }
    }

    /// Throws away what the caches of `code[at]`, and of all functions inside it,
    /// have learned.
    pub fn clear_inline_caches(code: &mut Vec<CodeBlock>, at: usize)
        requires
            code_wf(old(code)@),
            at < old(code)@.len(),
        ensures
            forgotten(old(code)@, final(code)@, at as int),
            code_wf(final(code)@),
        decreases at,
    {
        let ghost before = code@;
        code[at].forget();
        let n: usize = code[at].functions.len();
        let mut i: usize = 0;
        while i < n
            invariant
                at < code@.len(),
                i <= n == before[at as int].functions@.len(),
                code_wf(before),
                code_wf(code@),
                code@.len() == before.len(),
                forall|c: int|
                    #![trigger code@[c]]
                    0 <= c < before.len() ==> code@[c].same_code(before[c]),
                forall|c: int|
                    #![trigger code@[c]]
                    0 <= c < before.len() ==> if c == at || exists|j: int|
                        0 <= j < i && holds(
                            before,
                            (#[trigger] before[at as int].functions@[j]).id as int,
                            c,
                        ) {
                        code@[c].is_blank()
                    } else {
                        code@[c] == before[c]
                    },
            decreases n - i,
        {
            let ghost mid = code@;
            assert(mid[at as int].functions == before[at as int].functions);
            assert(before[at as int].functions@[i as int].id < at);
            let function: usize = code[at].functions[i].id;
            CodeBlock::clear_inline_caches(code, function);
            proof {
                assert forall|c: int| 0 <= c < before.len() implies holds(mid, function as int, c)
                    == holds(before, function as int, c) by {
                    lemma_holds_same(before, mid, function as int, c);
                }
                assert forall|c: int|
                    #![trigger code@[c]]
                    0 <= c < before.len() implies code@[c].same_code(before[c]) by {
                    assert(mid[c].same_code(before[c]));
                }
                assert forall|c: int|
                    #![trigger code@[c]]
                    0 <= c < before.len() implies if c == at || exists|j: int|
                    0 <= j < i + 1 && holds(
                        before,
                        (#[trigger] before[at as int].functions@[j]).id as int,
                        c,
                    ) {
                    code@[c].is_blank()
                } else {
                    code@[c] == before[c]
                } by {
                    assert(mid[c].same_code(before[c]));
                    if holds(before, function as int, c) {
                        assert(before[at as int].functions@[i as int].id == function);
                    }
                }
            }
            i += 1;
        }
        assert forall|c: int|
            #![trigger code@[c]]
            0 <= c < before.len() implies if holds(before, at as int, c) {
            code@[c].same_code(before[c]) && code@[c].is_blank()
        } else {
            code@[c] == before[c]
        } by {
            assert(code@[c].same_code(before[c]));
            if c != at && exists|j: int|
                0 <= j < n && holds(
                    before,
                    (#[trigger] before[at as int].functions@[j]).id as int,
                    c,
                ) {
                let j = choose|j: int|
                    0 <= j < n && holds(
                        before,
                        (#[trigger] before[at as int].functions@[j]).id as int,
                        c,
                    );
                assert(before[at as int].functions@[j].id < at);
                assert(holds(before, at as int, c));
            }
        }
    }
}

} // verus!
