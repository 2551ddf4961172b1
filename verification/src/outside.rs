//! The parser, its types, paths, and the hasher of the maps that a script keeps.

use boa_ast::scope::Scope;
use boa_ast::Script as Ast;
use boa_interner::Interner;
use boa_parser::{Parser, Source};
use std::path::PathBuf;
use vstd::prelude::*;

verus! {

/// The syntax tree of a script, as `boa_parser` makes it.
#[verifier::external_type_specification]
#[verifier::external_body]
pub struct ExAst(Ast);

/// The global scope of a realm: the names that scripts have declared there. It is a
/// handle, which syntax trees and code share; [`scope_bindings`] stands for what it
/// leads to at the time of a call.
#[verifier::external_type_specification]
#[verifier::external_body]
pub struct ExScope(boa_ast::scope::Scope);

/// The strings that `boa_parser` has met so far, by symbol.
#[verifier::external_type_specification]
#[verifier::external_body]
pub struct ExInterner(boa_interner::Interner);

/// The hasher of `rustc_hash::FxHashMap`.
#[verifier::external_type_specification]
#[verifier::external_body]
pub struct ExFxBuildHasher(rustc_hash::FxBuildHasher);

/// The path of a file.
#[verifier::external_type_specification]
#[verifier::external_body]
pub struct ExPathBuf(std::path::PathBuf);

/// What the parser makes of a text that it accepts.
pub struct ParsedScript {
    /// The syntax tree.
    pub code: Ast,
    /// Whether the whole script is strict mode code.
    pub strict: bool,
    /// The text that was read, in UTF-16 code units.
    pub source: Vec<u16>,
}

/// The names bound in a scope, each with whether it is bound lexically, that is by
/// `let`, `const` or `class`.
pub uninterp spec fn scope_bindings(scope: Scope) -> Map<Seq<u16>, bool>;

/// What the grammar makes of a text that it accepts. Names are in UTF-16 code units.
pub struct ScriptSyntax {
    /// Whether the whole script is strict mode code.
    pub strict: bool,
    /// The text.
    pub source: Seq<u16>,
    /// The names that the top level declares lexically.
    pub lexical_names: Set<Seq<u16>>,
    /// Those of them that are declared by `let`, `const` or `class`.
    pub bound_names: Set<Seq<u16>>,
    /// The names that the script declares by `var` or as functions of its top level.
    pub var_names: Set<Seq<u16>>,
}

impl ScriptSyntax {
    /// The script declares a name that `bindings` rule out: lexically one that is
    /// bound, or as a variable one that is bound lexically.
    pub open spec fn conflicts(self, bindings: Map<Seq<u16>, bool>) -> bool {
        ||| exists|name: Seq<u16>|
            #[trigger] self.lexical_names.contains(name) && bindings.dom().contains(name)
        ||| exists|name: Seq<u16>|
            #[trigger] self.var_names.contains(name) && bindings.dom().contains(name)
                && bindings[name]
    }

    /// `bindings` with those of the script.
    pub open spec fn binds(self, bindings: Map<Seq<u16>, bool>) -> Map<Seq<u16>, bool> {
        bindings.union_prefer_right(
            Map::new(|name: Seq<u16>| self.bound_names.contains(name), |name: Seq<u16>| true),
        )
    }
}

/// What the grammar makes of `text`, read in strict mode or not by the parser
/// with the number `identifier`, or the message of the syntax error. It is the part
/// of the result of `boa_parser::Parser::parse_script_with_source` that the scope
/// has no hand in.
pub uninterp spec fn script_syntax(text: Seq<u8>, strict: bool, identifier: u32) -> Result<
    ScriptSyntax,
    Seq<char>,
>;

/// `code` is a syntax tree that `boa_parser::Parser::parse_script_with_source` makes
/// of `text`, read in strict mode or not by the parser with the number `identifier`,
/// with its names resolved in `scope` and its strings kept by `interner`, both as the
/// call leaves them. It is a relation: a tree holds handles to scopes of its own, so
/// two calls may make two trees.
pub uninterp spec fn is_tree_of(
    code: Ast,
    text: Seq<u8>,
    strict: bool,
    identifier: u32,
    scope: Scope,
    interner: Interner,
) -> bool;

/// Where the code point after the one at `at` starts. The reader goes by the first
/// byte alone.
pub open spec fn next_code_point(text: Seq<u8>, at: int) -> int {
    if text[at] < 0x80 {
        at + 1
    } else if text[at] < 0xe0 {
        at + 2
    } else if text[at] < 0xf0 {
        at + 3
    } else {
        at + 4
    }
}

/// What is read at `at` is at most 0x10ffff. Only four bytes can give more: the first
/// has the highest three bits and the second the six below them, or zero where the
/// text ends before it.
pub open spec fn is_code_point(text: Seq<u8>, at: int) -> bool {
    text[at] >= 0xf0 ==> {
        ||| text[at] % 8 < 4
        ||| text[at] % 8 == 4 && (at + 1 >= text.len() || text[at + 1] % 64 < 16)
    }
}

/// Everything that is read from `at` on is a code point.
pub open spec fn is_readable_from(text: Seq<u8>, at: int) -> bool
    decreases (if at < text.len() { text.len() - at } else { 0 }),
{
    at >= text.len() || {
        &&& is_code_point(text, at)
        &&& is_readable_from(text, next_code_point(text, at))
    }
}

/// The parser can read `text`: it consists of code points, in UTF-8 that need not be
/// valid, and its lines and columns can be counted in 32 bits.
pub open spec fn is_readable(text: Seq<u8>) -> bool {
    &&& text.len() < u32::MAX
    &&& is_readable_from(text, 0)
}

/// The UTF-16 code units of a character.
pub open spec fn utf16_units(c: char) -> Seq<u16> {
    if (c as u32) < 0x1_0000 {
        seq![c as u16]
    } else {
        seq![
            ((c as u32 - 0x1_0000) / 0x400 + 0xd800) as u16,
            ((c as u32 - 0x1_0000) % 0x400 + 0xdc00) as u16,
        ]
    }
}

/// The UTF-16 code units of characters.
pub open spec fn utf16(chars: Seq<char>) -> Seq<u16>
    decreases chars.len(),
{
    if chars.len() == 0 {
        Seq::empty()
    } else {
        utf16(chars.drop_last()) + utf16_units(chars.last())
    }
}

/// `source` is the whole of `text`, if that is valid UTF-8.
pub open spec fn is_text_of(source: Seq<u16>, text: Seq<u8>) -> bool {
    vstd::utf8::valid_utf8(text) ==> source == utf16(vstd::utf8::decode_utf8(text))
}

/// The message of the one error that a scope causes.
pub open spec fn scope_conflict() -> Seq<char> {
    "invalid scope analysis: duplicate lexical declaration"@
}

/// `parsed` is the parser's answer to a text of which the grammar makes `syntax`, in
/// a scope with the bindings `before`, which are `after` then. A text that the
/// grammar rejects is refused with the grammar's message, and one that it accepts is
/// refused exactly if it conflicts with the scope.
pub open spec fn is_parse_of(
    parsed: Result<ParsedScript, String>,
    syntax: Result<ScriptSyntax, Seq<char>>,
    before: Map<Seq<u16>, bool>,
    after: Map<Seq<u16>, bool>,
) -> bool {
    match syntax {
        Ok(syntax) => if syntax.conflicts(before) {
            parsed matches Err(message) && message@ == scope_conflict()
        } else {
            &&& parsed matches Ok(script)
            &&& script.strict == syntax.strict
            &&& script.source@ == syntax.source
            &&& syntax.bound_names.subset_of(syntax.lexical_names)
            &&& after == syntax.binds(before)
        },
        Err(reason) => parsed matches Err(message) && message@ == reason,
    }
}

/// Calls `boa_ast::scope::Scope::new_global`, which makes a scope of its own with no
/// bindings.
#[verifier::external_body]
pub(crate) fn new_global_scope() -> (scope: Scope)
    ensures
        scope_bindings(scope).is_empty(),
{
    Scope::new_global()
}

/// Calls the `clone` of `std::path::PathBuf`, which makes a path that is the same.
#[verifier::external_body]
pub(crate) fn clone_path(path: &PathBuf) -> (copy: PathBuf)
    ensures
        copy == *path,
{
    path.clone()
}

/// Calls `boa_parser::Parser::parse_script_with_source` on `text`, by a parser
/// with the number `identifier` that `Parser::set_strict` has not been called on.
///
/// Believed of it: what the grammar makes of the text is a function of the text,
/// the mode and the number. What it rejects comes back as the displayed error. What
/// it accepts is held against the scope: the script is refused if a name that it
/// declares lexically is bound there, or if a variable of it is bound lexically
/// there, and the scope stays as it was; else the names that it declares by `let`,
/// `const` or `class` are bound lexically. It comes back with the strictness of
/// `boa_ast::Script::strict` and all that was read, which for valid UTF-8 is the text
/// itself, and with the syntax tree that it makes of the text in the scope, whose
/// strings the interner keeps.
///
/// Left unsaid is what is in that tree and what is interned. The parser counts lines
/// and columns in 32 bits and panics on what is no code point, hence what is required
/// of the text; it descends recursively, so how deep a text may nest depends on the
/// stack.
#[verifier::external_body]
pub(crate) fn parse_sloppy_script(
    text: &[u8],
    identifier: u32,
    scope: &mut Scope,
    interner: &mut Interner,
) -> (parsed: Result<ParsedScript, String>)
    requires
        is_readable(text@),
    ensures
        is_parse_of(
            parsed,
            script_syntax(text@, false, identifier),
            scope_bindings(*old(scope)),
            scope_bindings(*final(scope)),
        ),
        parsed matches Ok(script) ==> is_tree_of(
            script.code,
            text@,
            false,
            identifier,
            *final(scope),
            *final(interner),
        ),
        parsed is Err ==> *final(scope) == *old(scope),
        parsed matches Ok(script) ==> is_text_of(script.source@, text@),
{
    let mut parser = Parser::new(Source::from_bytes(text));
    parser.set_identifier(identifier);
    match parser.parse_script_with_source(scope, interner) {
        Ok((code, source)) => {
            let strict = code.strict();
            let source = source.get_code_points_from_pos(boa_ast::LinearPosition::new(0)).to_vec();
            Ok(ParsedScript { code, strict, source })
        },
        Err(error) => Err(error.to_string()),
    }
}

/// Calls `boa_parser::Parser::parse_script_with_source` on `text`, by a parser
/// with the number `identifier` that `Parser::set_strict` has been called on.
///
/// Believed of it is what [`parse_sloppy_script`] says, in strict mode, and that a
/// script which a strict parser accepts is strict mode code.
#[verifier::external_body]
pub(crate) fn parse_strict_script(
    text: &[u8],
    identifier: u32,
    scope: &mut Scope,
    interner: &mut Interner,
) -> (parsed: Result<ParsedScript, String>)
    requires
        is_readable(text@),
    ensures
        is_parse_of(
            parsed,
            script_syntax(text@, true, identifier),
            scope_bindings(*old(scope)),
            scope_bindings(*final(scope)),
        ),
        parsed matches Ok(script) ==> is_tree_of(
            script.code,
            text@,
            true,
            identifier,
            *final(scope),
            *final(interner),
        ),
        parsed is Err ==> *final(scope) == *old(scope),
        parsed matches Ok(script) ==> is_text_of(script.source@, text@),
        parsed matches Ok(script) ==> script.strict,
{
    let mut parser = Parser::new(Source::from_bytes(text));
    parser.set_identifier(identifier);
    parser.set_strict();
    match parser.parse_script_with_source(scope, interner) {
        Ok((code, source)) => {
            let strict = code.strict();
            let source = source.get_code_points_from_pos(boa_ast::LinearPosition::new(0)).to_vec();
            Ok(ParsedScript { code, strict, source })
        },
        Err(error) => Err(error.to_string()),
    }
}

} // verus!
