//! Parsing, compiling, binding and evaluating, step by step.

use std::path::PathBuf;

use boa_ast::{Declaration, StatementListItem};
use boa_interner::Interner;
use boa_script::context::{
    ActiveRunnable, CallFrame, CallFrameFlags, Context, EnvironmentStack,
};
use boa_script::evaluation::{Action, Evaluation, Event, Stage};
use boa_script::heap::{Code, CodeBlock, Heap, InlineCache, Module, Realm, Script, ScriptPhase};
use boa_script::script::{CodeblockStep, ParseStep, Source};
use boa_script::value::{CompletionRecord, ErrorKind, JsError, JsResult, JsValue};

fn context(heap: &mut Heap) -> Context {
    let realm = heap.add_realm();
    Context::new(realm, Interner::new(), false, 0)
}

fn parse(text: &str, heap: &mut Heap, context: &mut Context) -> JsResult<Script> {
    match Script::parse(Source::from_bytes(text.as_bytes()), None, heap, context)? {
        ParseStep::Done(script) => Ok(script),
        ParseStep::Optimize(_) => panic!("no optimizations were asked for"),
    }
}

fn native(kind: ErrorKind, message: &str) -> JsError {
    JsError::Native { kind, message: message.to_string() }
}

fn units(text: &str) -> Vec<u16> {
    text.encode_utf16().collect()
}

fn learned() -> InlineCache {
    InlineCache { shapes: vec![3, 5], megamorphic: true }
}

fn is_blank(heap: &Heap, code: Code) -> bool {
    let caches = &heap.code[code.id].inline_caches;
    caches.iter().all(|cache| cache.shapes.is_empty() && !cache.megamorphic)
}

fn block(functions: Vec<Code>, instructions: u64) -> CodeBlock {
    CodeBlock {
        global_lexs: Vec::new(),
        functions,
        inline_caches: vec![learned(), learned()],
        instructions,
    }
}

fn compiled(text: &str, heap: &mut Heap, context: &mut Context) -> (Script, Code) {
    let script = parse(text, heap, context).expect("parses");
    let code = script.install_codeblock(heap, block(Vec::new(), 1));
    (script, code)
}

fn is_strict(script: Script, heap: &Heap) -> bool {
    match heap.scripts[script.id].phase {
        ScriptPhase::Ast { strict, .. } => strict,
        ScriptPhase::Codeblock(_) => panic!("not compiled"),
    }
}

fn frame(script: Script, realm: Realm, code: Code) -> CallFrame {
    CallFrame {
        code,
        active_runnable: Some(ActiveRunnable::Script(script)),
        environments: EnvironmentStack { depth: 0 },
        realm,
        env_fp: 0,
        flags: CallFrameFlags { exit_early: true },
        this: JsValue::Undefined,
        function: JsValue::Null,
    }
}

#[test]
fn a_parsed_script_has_its_text_its_path_and_its_realm() {
    let mut heap = Heap::new();
    let mut context = context(&mut heap);
    let text = "'\u{e9}\u{1f600}';\r\n1";
    let source = Source::from_bytes(text.as_bytes()).with_path(PathBuf::from("dir/a.js"));
    let step = Script::parse(source, None, &mut heap, &mut context).expect("parses");
    let script = match step {
        ParseStep::Done(script) => script,
        ParseStep::Optimize(_) => panic!("no optimizations were asked for"),
    };
    assert_eq!(script.path(&heap), Some(&PathBuf::from("dir/a.js")));
    assert_eq!(script.realm(&heap), context.realm);
    assert_eq!(heap.sources[script.get_source(&heap).id], units(text));
    assert!(script.loaded_modules(&heap).is_empty());
    assert!(script.host_defined(&heap).entries.is_empty());
    assert_eq!(
        script.codeblock(&heap),
        CodeblockStep::Instantiate { realm: context.realm }
    );
}

#[test]
fn a_script_without_a_file_has_no_path() {
    let mut heap = Heap::new();
    let mut context = context(&mut heap);
    let script = parse("#!/usr/bin/env boa\n1;", &mut heap, &mut context).expect("parses");
    assert_eq!(script.path(&heap), None);
    assert_eq!(
        heap.sources[script.get_source(&heap).id],
        units("#!/usr/bin/env boa\n1;")
    );
}

#[test]
fn the_empty_text_is_a_script() {
    let mut heap = Heap::new();
    let mut context = context(&mut heap);
    let script = parse("", &mut heap, &mut context).expect("parses");
    assert!(heap.sources[script.get_source(&heap).id].is_empty());
    assert!(!is_strict(script, &heap));
}

#[test]
fn a_script_can_be_parsed_for_another_realm() {
    let mut heap = Heap::new();
    let mut context = context(&mut heap);
    let other = heap.add_realm();
    let source = Source::from_bytes(b"let a = 1;");
    let step = Script::parse(source, Some(other), &mut heap, &mut context).expect("parses");
    match step {
        ParseStep::Done(script) => assert_eq!(script.realm(&heap), other),
        ParseStep::Optimize(_) => panic!("no optimizations were asked for"),
    }
    // The name is bound in the realm of the context all the same.
    assert!(parse("let a = 2;", &mut heap, &mut context).is_err());
    let mut elsewhere = Context::new(other, Interner::new(), false, 0);
    assert!(parse("let a = 2;", &mut heap, &mut elsewhere).is_ok());
}

#[test]
fn strictness_comes_from_the_context_or_the_text() {
    let mut heap = Heap::new();
    let mut sloppy = context(&mut heap);
    let script = parse("1;", &mut heap, &mut sloppy).expect("parses");
    assert!(!is_strict(script, &heap));
    let script = parse("'use strict'; 1;", &mut heap, &mut sloppy).expect("parses");
    assert!(is_strict(script, &heap));

    let realm = heap.add_realm();
    let mut strict = Context::new(realm, Interner::new(), true, 0);
    let script = parse("1;", &mut heap, &mut strict).expect("parses");
    assert!(is_strict(script, &heap));

    // A `with` statement is none in strict mode code.
    assert!(parse("with (a) {}", &mut heap, &mut sloppy).is_ok());
    assert!(parse("with (a) {}", &mut heap, &mut strict).is_err());
}

#[test]
fn a_text_that_is_no_script_is_a_syntax_error() {
    let mut heap = Heap::new();
    let mut context = context(&mut heap);
    assert_eq!(
        parse("1 +", &mut heap, &mut context),
        Err(native(ErrorKind::Syntax, "abrupt end"))
    );
    assert!(heap.scripts.is_empty());
    assert!(heap.sources.is_empty());
    // The parser's number is used up all the same.
    assert_eq!(context.parser_identifier, 1);
}

#[test]
fn a_name_bound_lexically_cannot_be_declared_again() {
    let message = "invalid scope analysis: duplicate lexical declaration";
    for again in ["let a = 2;", "const a = 2;", "class a {}", "var a = 2;", "function a() {}"] {
        let mut heap = Heap::new();
        let mut context = context(&mut heap);
        parse("let a = 1;", &mut heap, &mut context).expect("parses");
        assert_eq!(
            parse(again, &mut heap, &mut context),
            Err(native(ErrorKind::Syntax, message)),
            "`{again}` was allowed"
        );
        assert_eq!(heap.scripts.len(), 1);
        assert_eq!(heap.sources.len(), 1);
        // Other names, and other realms, are free.
        parse("let b = 1;", &mut heap, &mut context).expect("parses");
        let realm = heap.add_realm();
        let mut other = Context::new(realm, Interner::new(), false, 0);
        parse(again, &mut heap, &mut other).expect("parses");
    }
}

#[test]
fn variables_can_be_declared_again() {
    let mut heap = Heap::new();
    let mut context = context(&mut heap);
    for text in ["var a = 1;", "var a = 2;", "function a() {}"] {
        parse(text, &mut heap, &mut context).expect("parses");
    }
    assert_eq!(heap.scripts.len(), 3);
}

#[test]
fn optimizations_come_before_the_script_is_entered() {
    let mut heap = Heap::new();
    let realm = heap.add_realm();
    let mut context = Context::new(realm, Interner::new(), false, 1);
    let source = Source::from_bytes(b"'use strict'; 1 + 1;").with_path(PathBuf::from("b.js"));
    let step = Script::parse(source, None, &mut heap, &mut context).expect("parses");
    assert!(heap.scripts.is_empty());
    let pending = match step {
        ParseStep::Optimize(pending) => pending,
        ParseStep::Done(_) => panic!("optimizations were asked for"),
    };
    assert!(pending.strict);
    let script = pending.finish(&mut heap);
    assert_eq!(script.id, 0);
    assert!(is_strict(script, &heap));
    assert_eq!(script.path(&heap), Some(&PathBuf::from("b.js")));
    assert_eq!(heap.sources[0].len(), 20);
}

#[test]
fn parsers_are_numbered_one_after_the_other() {
    let mut heap = Heap::new();
    let mut context = context(&mut heap);
    assert_eq!(context.next_parser_identifier(), 0);
    assert_eq!(context.next_parser_identifier(), 1);
    parse("1;", &mut heap, &mut context).expect("parses");
    assert_eq!(context.next_parser_identifier(), 3);
    context.parser_identifier = u32::MAX;
    assert_eq!(context.next_parser_identifier(), u32::MAX);
    assert_eq!(context.next_parser_identifier(), 0);
}

#[test]
fn the_compiler_is_asked_for_the_whole_script() {
    let mut heap = Heap::new();
    let mut context = context(&mut heap);
    let source = Source::from_bytes(b"'use strict';").with_path(PathBuf::from("c.js"));
    let script = match Script::parse(source, None, &mut heap, &mut context) {
        Ok(ParseStep::Done(script)) => script,
        _ => panic!("parses"),
    };
    let request = script.compile_request(&heap, Ok(vec![8, 9])).expect("asks");
    assert_eq!(request.script, script);
    assert_eq!(request.name, "<main>");
    assert!(request.strict);
    assert!(!request.json_parse);
    assert_eq!(request.variable_scope, context.realm);
    assert_eq!(request.lexical_scope, context.realm);
    assert!(!request.is_async);
    assert!(!request.is_generator);
    assert!(!request.in_with);
    assert_eq!(request.source_text, script.get_source(&heap));
    assert_eq!(request.path, Some(PathBuf::from("c.js")));
    assert_eq!(request.annex_b_function_names, vec![8, 9]);
    assert!(request.use_expr);
    assert!(!request.block);
}

#[test]
fn what_instantiation_throws_is_thrown_on() {
    let mut heap = Heap::new();
    let mut context = context(&mut heap);
    let script = parse("1;", &mut heap, &mut context).expect("parses");
    let thrown = script.compile_request(&heap, Err(JsError::Thrown(JsValue::Held(4))));
    match thrown {
        Err(error) => assert_eq!(error, JsError::Thrown(JsValue::Held(4))),
        Ok(_) => panic!("it threw"),
    }
    assert!(matches!(script.codeblock(&heap), CodeblockStep::Instantiate { .. }));
}

#[test]
fn a_script_is_compiled_once() {
    let mut heap = Heap::new();
    let mut context = context(&mut heap);
    let (script, code) = compiled("1;", &mut heap, &mut context);
    assert_eq!(script.codeblock(&heap), CodeblockStep::Ready(code));
    // A copy of the handle leads to the same record.
    let copy = script;
    assert_eq!(copy.codeblock(&heap), CodeblockStep::Ready(code));
    let (other, _) = compiled("2;", &mut heap, &mut context);
    assert_ne!(other, script);
    assert_eq!(script.codeblock(&heap), CodeblockStep::Ready(code));
    assert_eq!(heap.code[code.id].instructions, 1);
}

#[test]
fn an_uncompiled_script_is_refused_with_a_type_error() {
    let mut heap = Heap::new();
    let mut context = context(&mut heap);
    let script = parse("1;", &mut heap, &mut context).expect("parses");
    let realm = heap.add_realm();
    assert_eq!(
        script.bind_to_realm(realm, &mut heap),
        Err(native(
            ErrorKind::Type,
            "a script must be compiled before it can be bound to another realm; \
             call `Script::codeblock` with the context it was parsed in"
        ))
    );
    assert_eq!(heap.scripts.len(), 1);
}

#[test]
fn lexical_declarations_are_refused_with_a_type_error() {
    let mut heap = Heap::new();
    let mut context = context(&mut heap);
    let script = parse("let a = 1;", &mut heap, &mut context).expect("parses");
    let mut lexical = block(Vec::new(), 1);
    lexical.global_lexs.push(12);
    let code = script.install_codeblock(&mut heap, lexical);
    let realm = heap.add_realm();
    assert_eq!(
        script.bind_to_realm(realm, &mut heap),
        Err(native(
            ErrorKind::Type,
            "a script with top-level lexical declarations cannot be bound to another realm"
        ))
    );
    assert_eq!(heap.scripts.len(), 1);
    // What its caches have learned is still there.
    assert_eq!(heap.code[code.id].inline_caches[0].shapes, vec![3, 5]);
}

#[test]
fn a_script_can_be_bound_to_as_many_realms_as_asked() {
    let mut heap = Heap::new();
    let mut context = context(&mut heap);
    let source = Source::from_bytes(b"1;").with_path(PathBuf::from("d.js"));
    let script = match Script::parse(source, None, &mut heap, &mut context) {
        Ok(ParseStep::Done(script)) => script,
        _ => panic!("parses"),
    };
    let code = script.install_codeblock(&mut heap, block(Vec::new(), 1));
    let mut from = script;
    for _ in 0..3 {
        let realm = heap.add_realm();
        let bound = from.bind_to_realm(realm, &mut heap).expect("binds");
        assert_ne!(bound, from);
        assert_eq!(bound.realm(&heap), realm);
        assert_eq!(bound.codeblock(&heap), CodeblockStep::Ready(code));
        assert_eq!(bound.get_source(&heap), script.get_source(&heap));
        assert_eq!(bound.path(&heap), Some(&PathBuf::from("d.js")));
        from = bound;
    }
    assert_eq!(script.realm(&heap), context.realm);
    assert_eq!(heap.code.len(), 1);
    assert_eq!(heap.scripts.len(), 4);
}

#[test]
fn a_module_loaded_in_one_realm_is_not_visible_in_another() {
    let mut heap = Heap::new();
    let mut context = context(&mut heap);
    let (script, _) = compiled("1;", &mut heap, &mut context);
    script.loaded_modules_mut(&mut heap).insert(units("./m.js"), Module { id: 1 });
    script.host_defined_mut(&mut heap).entries.insert(1, 2);
    let realm = heap.add_realm();
    let bound = script.bind_to_realm(realm, &mut heap).expect("binds");
    assert!(bound.loaded_modules(&heap).is_empty());
    assert!(bound.host_defined(&heap).entries.is_empty());

    bound.loaded_modules_mut(&mut heap).insert(units("./n.js"), Module { id: 2 });
    bound.host_defined_mut(&mut heap).entries.insert(3, 4);
    assert_eq!(script.loaded_modules(&heap).len(), 1);
    assert_eq!(script.loaded_modules(&heap).get(&units("./m.js")), Some(&Module { id: 1 }));
    assert_eq!(bound.loaded_modules(&heap).get(&units("./n.js")), Some(&Module { id: 2 }));
    assert_eq!(script.host_defined(&heap).entries.get(&1), Some(&2));
    assert_eq!(script.host_defined(&heap).entries.get(&3), None);
}

#[test]
fn binding_forgets_what_the_code_and_its_functions_have_learned() {
    let mut heap = Heap::new();
    let mut context = context(&mut heap);
    let inner = heap.add_code(block(Vec::new(), 10));
    let other = heap.add_code(block(Vec::new(), 11));
    let outer = heap.add_code(block(vec![inner], 12));
    let script = parse("1;", &mut heap, &mut context).expect("parses");
    let code = script.install_codeblock(&mut heap, block(vec![outer, inner], 13));
    let realm = heap.add_realm();
    script.bind_to_realm(realm, &mut heap).expect("binds");
    for forgotten in [inner, outer, code] {
        assert!(is_blank(&heap, forgotten));
        assert_eq!(heap.code[forgotten.id].inline_caches.len(), 2);
    }
    assert_eq!(heap.code[code.id].functions, vec![outer, inner]);
    assert_eq!(heap.code[code.id].instructions, 13);
    assert_eq!(heap.code[inner.id].instructions, 10);
    // Code that is not part of the script keeps what it knows.
    assert_eq!(heap.code[other.id].inline_caches[1].shapes, vec![3, 5]);
    assert!(heap.code[other.id].inline_caches[1].megamorphic);

    // A second time, there is nothing left to forget.
    CodeBlock::clear_inline_caches(&mut heap.code, code.id);
    for forgotten in [inner, outer, code] {
        assert!(is_blank(&heap, forgotten));
    }
    assert!(!is_blank(&heap, other));
}

#[test]
fn an_uncompiled_script_is_compiled_and_run() {
    let mut heap = Heap::new();
    let mut context = context(&mut heap);
    let script = parse("1;", &mut heap, &mut context).expect("parses");
    let (mut evaluation, action) = script.evaluate(&heap, &mut context);
    match action {
        Action::Instantiate { script: asked, realm } => {
            assert_eq!(asked, script);
            assert_eq!(realm, context.realm);
        }
        _ => panic!("the declarations come first"),
    }
    assert!(context.frames.is_empty());

    let action = evaluation.step(Event::Instantiated(Ok(vec![6])), &mut heap, &mut context);
    match action {
        Action::Compile(request) => assert_eq!(request.annex_b_function_names, vec![6]),
        _ => panic!("it is compiled"),
    }
    assert!(context.frames.is_empty());

    let action = evaluation.step(Event::Compiled(block(Vec::new(), 1)), &mut heap, &mut context);
    assert!(matches!(action, Action::ResizeGlobalEnv { realm } if realm == context.realm));
    let code = Code { id: 0 };
    assert_eq!(script.codeblock(&heap), CodeblockStep::Ready(code));
    assert_eq!(context.frames, vec![frame(script, context.realm, code)]);

    let action = evaluation.step(Event::Resized, &mut heap, &mut context);
    assert!(matches!(action, Action::Declare { code: c } if c == code));
    let action = evaluation.step(Event::Declared(Ok(())), &mut heap, &mut context);
    assert!(matches!(action, Action::Run { budget: None }));
    assert_eq!(context.frames.len(), 1);

    let record = CompletionRecord::Normal(JsValue::Held(7));
    let action = evaluation.step(Event::Ran(record), &mut heap, &mut context);
    assert!(matches!(action, Action::Finish(Ok(JsValue::Held(7)))));
    assert!(context.frames.is_empty());
    assert_eq!(evaluation.stage, Stage::Finished);
}

#[test]
fn a_failed_instantiation_leaves_everything_as_it_was() {
    let mut heap = Heap::new();
    let mut context = context(&mut heap);
    let script = parse("1;", &mut heap, &mut context).expect("parses");
    let (mut evaluation, _) = script.evaluate(&heap, &mut context);
    let thrown = Event::Instantiated(Err(JsError::Thrown(JsValue::Null)));
    let action = evaluation.step(thrown, &mut heap, &mut context);
    assert!(matches!(action, Action::Finish(Err(JsError::Thrown(JsValue::Null)))));
    assert!(context.frames.is_empty());
    assert!(heap.code.is_empty());
    assert!(matches!(script.codeblock(&heap), CodeblockStep::Instantiate { .. }));
    // It can be tried again.
    let (_, action) = script.evaluate(&heap, &mut context);
    assert!(matches!(action, Action::Instantiate { .. }));
}

fn started(heap: &mut Heap, context: &mut Context) -> (Script, Code, Evaluation) {
    let (script, code) = compiled("1;", heap, context);
    let (evaluation, action) = script.evaluate(heap, context);
    assert!(matches!(action, Action::ResizeGlobalEnv { .. }));
    (script, code, evaluation)
}

#[test]
fn a_compiled_script_is_only_run() {
    let mut heap = Heap::new();
    let mut context = context(&mut heap);
    let (script, code, evaluation) = started(&mut heap, &mut context);
    assert_eq!(evaluation.stage, Stage::Resizing(code));
    assert_eq!(context.frames, vec![frame(script, context.realm, code)]);
    assert_eq!(heap.code.len(), 1);
}

#[test]
fn a_bound_script_runs_in_its_own_realm() {
    let mut heap = Heap::new();
    let mut context = context(&mut heap);
    let (script, code) = compiled("1;", &mut heap, &mut context);
    let realm = heap.add_realm();
    let bound = script.bind_to_realm(realm, &mut heap).expect("binds");
    let (_, action) = bound.evaluate(&heap, &mut context);
    assert!(matches!(action, Action::ResizeGlobalEnv { realm: r } if r == realm));
    assert_eq!(context.frames, vec![frame(bound, realm, code)]);
}

#[test]
fn a_failed_declaration_leaves_the_frame() {
    let mut heap = Heap::new();
    let mut context = context(&mut heap);
    let (script, code, mut evaluation) = started(&mut heap, &mut context);
    evaluation.step(Event::Resized, &mut heap, &mut context);
    let error = native(ErrorKind::Type, "cannot declare");
    let action = evaluation.step(Event::Declared(Err(error)), &mut heap, &mut context);
    match action {
        Action::Finish(Err(error)) => {
            assert_eq!(error, native(ErrorKind::Type, "cannot declare"))
        }
        _ => panic!("it threw"),
    }
    assert!(context.frames.is_empty());
    assert_eq!(script.codeblock(&heap), CodeblockStep::Ready(code));
}

#[test]
fn a_run_that_throws_leaves_the_frame() {
    let mut heap = Heap::new();
    let mut context = context(&mut heap);
    let (_, _, mut evaluation) = started(&mut heap, &mut context);
    evaluation.step(Event::Resized, &mut heap, &mut context);
    evaluation.step(Event::Declared(Ok(())), &mut heap, &mut context);
    let record = CompletionRecord::Throw(JsError::Thrown(JsValue::Held(2)));
    let action = evaluation.step(Event::Ran(record), &mut heap, &mut context);
    assert!(matches!(action, Action::Finish(Err(JsError::Thrown(JsValue::Held(2))))));
    assert!(context.frames.is_empty());
}

#[test]
fn a_returned_value_is_the_result() {
    assert_eq!(
        CompletionRecord::Return(JsValue::Held(1)).consume(),
        Ok(JsValue::Held(1))
    );
    assert_eq!(
        CompletionRecord::Normal(JsValue::Undefined).consume(),
        Ok(JsValue::Undefined)
    );
}

#[test]
fn only_the_budget_tells_evaluations_apart() {
    for wanted in [None, Some(256), Some(17)] {
        let mut heap = Heap::new();
        let mut context = context(&mut heap);
        let (script, _) = compiled("1;", &mut heap, &mut context);
        let (mut evaluation, _) = match wanted {
            None => script.evaluate(&heap, &mut context),
            Some(256) => script.evaluate_async(&heap, &mut context),
            Some(budget) => script.evaluate_async_with_budget(&heap, &mut context, budget),
        };
        evaluation.step(Event::Resized, &mut heap, &mut context);
        match evaluation.step(Event::Declared(Ok(())), &mut heap, &mut context) {
            Action::Run { budget } => assert_eq!(budget, wanted),
            _ => panic!("it is run"),
        }
        let record = CompletionRecord::Normal(JsValue::Null);
        let action = evaluation.step(Event::Ran(record), &mut heap, &mut context);
        assert!(matches!(action, Action::Finish(Ok(JsValue::Null))));
    }
}

#[test]
fn an_evaluation_can_take_place_inside_another() {
    let mut heap = Heap::new();
    let mut context = context(&mut heap);
    let (outer, outer_code, mut evaluation) = started(&mut heap, &mut context);
    evaluation.step(Event::Resized, &mut heap, &mut context);
    evaluation.step(Event::Declared(Ok(())), &mut heap, &mut context);

    let (inner, inner_code, mut nested) = started(&mut heap, &mut context);
    assert_eq!(
        context.frames,
        vec![
            frame(outer, context.realm, outer_code),
            frame(inner, context.realm, inner_code)
        ]
    );
    nested.step(Event::Resized, &mut heap, &mut context);
    nested.step(Event::Declared(Ok(())), &mut heap, &mut context);
    nested.step(Event::Ran(CompletionRecord::Normal(JsValue::Null)), &mut heap, &mut context);
    assert_eq!(context.frames, vec![frame(outer, context.realm, outer_code)]);

    evaluation.step(Event::Ran(CompletionRecord::Normal(JsValue::Null)), &mut heap, &mut context);
    assert!(context.frames.is_empty());
}

#[test]
fn there_may_be_no_frame_to_leave() {
    let mut heap = Heap::new();
    let mut context = context(&mut heap);
    assert_eq!(context.pop_frame(), None);
    let (script, code) = compiled("1;", &mut heap, &mut context);
    let entered = frame(script, context.realm, code);
    context.push_frame(entered);
    assert_eq!(context.pop_frame(), Some(entered));
    assert!(context.frames.is_empty());
}

#[test]
fn a_source_of_code_points_can_be_read() {
    for text in ["", "1;", "'\u{e9}\u{ffff}\u{10ffff}'", "\u{feff}a"] {
        assert!(Source::from_bytes(text.as_bytes()).is_readable(), "`{text}` was refused");
    }
    // Not valid UTF-8, and code points all the same.
    let readable: [&[u8]; 5] = [
        b"'\xed\xa0\x80'",
        b"\x80\x80",
        b"\xf4",
        b"\xf4\x8f",
        b"\xe2\xf7\x80",
    ];
    for text in readable {
        assert!(Source::from_bytes(text).is_readable(), "{text:?} was refused");
    }
}

#[test]
fn a_source_with_more_than_code_points_cannot_be_read() {
    let unreadable: [&[u8]; 4] = [
        b"/[\xf7\xbf\xbf\xbf]/",
        b"\xf4\x90\x80\x80",
        b"\xf5",
        b"\xe2\x82\xac\xff",
    ];
    for text in unreadable {
        assert!(!Source::from_bytes(text).is_readable(), "{text:?} was taken");
    }
}

#[test]
fn a_lone_surrogate_can_be_parsed() {
    let mut heap = Heap::new();
    let mut context = context(&mut heap);
    let source = Source::from_bytes(b"'\xed\xa0\x80'");
    let script = match Script::parse(source, None, &mut heap, &mut context) {
        Ok(ParseStep::Done(script)) => script,
        _ => panic!("parses"),
    };
    assert_eq!(heap.sources[script.get_source(&heap).id], vec![0x27, 0xd800, 0x27]);
}

fn statements(script: Script, heap: &Heap) -> usize {
    match &heap.scripts[script.id].phase {
        ScriptPhase::Ast { code, .. } => code.statements().statements().len(),
        ScriptPhase::Codeblock(_) => panic!("not compiled"),
    }
}

#[test]
fn a_script_holds_the_tree_of_its_own_text() {
    let mut heap = Heap::new();
    let mut context = context(&mut heap);
    let three = parse("1; 2; 3;", &mut heap, &mut context).expect("parses");
    let none = parse("", &mut heap, &mut context).expect("parses");
    assert_eq!(statements(three, &heap), 3);
    assert_eq!(statements(none, &heap), 0);

    let realm = heap.add_realm();
    let mut optimizing = Context::new(realm, Interner::new(), false, 1);
    let source = Source::from_bytes(b"1; 2;");
    match Script::parse(source, None, &mut heap, &mut optimizing) {
        Ok(ParseStep::Optimize(pending)) => {
            let script = pending.finish(&mut heap);
            assert_eq!(statements(script, &heap), 2);
        }
        _ => panic!("optimizations were asked for"),
    }
}

#[test]
fn two_parses_of_one_text_are_separate_scripts() {
    let mut heap = Heap::new();
    let mut context = context(&mut heap);
    let first = parse("var a = 1;", &mut heap, &mut context).expect("parses");
    assert!(parse("1 +", &mut heap, &mut context).is_err());
    let second = parse("var a = 1;", &mut heap, &mut context).expect("parses");
    assert_ne!(first, second);
    // Each parse took a number, the failed one too.
    assert_eq!(context.parser_identifier, 3);

    first.install_codeblock(&mut heap, block(Vec::new(), 1));
    first.loaded_modules_mut(&mut heap).insert(units("./m.js"), Module { id: 1 });
    first.host_defined_mut(&mut heap).entries.insert(1, 2);
    assert!(matches!(second.codeblock(&heap), CodeblockStep::Instantiate { .. }));
    assert!(second.loaded_modules(&heap).is_empty());
    assert!(second.host_defined(&heap).entries.is_empty());
    let realm = heap.add_realm();
    assert!(second.bind_to_realm(realm, &mut heap).is_err());
    assert!(first.bind_to_realm(realm, &mut heap).is_ok());
}

fn ask(action: &Action) -> (u8, Option<Realm>, Option<Code>, Option<u32>) {
    match action {
        Action::ResizeGlobalEnv { realm } => (0, Some(*realm), None, None),
        Action::Declare { code } => (1, None, Some(*code), None),
        Action::Run { budget } => (2, None, None, *budget),
        Action::Finish(Ok(JsValue::Held(7))) => (3, None, None, None),
        _ => panic!("not asked of a compiled script"),
    }
}

fn run_compiled(script: Script, heap: &mut Heap, context: &mut Context) -> Vec<CallFrame> {
    let (mut evaluation, first) = script.evaluate(heap, context);
    let entered = context.frames.clone();
    let second = evaluation.step(Event::Resized, heap, context);
    let third = evaluation.step(Event::Declared(Ok(())), heap, context);
    let ran = Event::Ran(CompletionRecord::Normal(JsValue::Held(7)));
    let last = evaluation.step(ran, heap, context);
    let code = entered[0].code;
    assert_eq!(ask(&first), (0, Some(script.realm(heap)), None, None));
    assert_eq!(ask(&second), (1, None, Some(code), None));
    assert_eq!(ask(&third), (2, None, None, None));
    assert_eq!(ask(&last), (3, None, None, None));
    entered
}

#[test]
fn an_evaluation_is_the_same_after_another_of_the_same_code() {
    let mut heap = Heap::new();
    let mut context = context(&mut heap);
    let (script, _) = compiled("1;", &mut heap, &mut context);
    let one = heap.add_realm();
    let other = heap.add_realm();
    let first = script.bind_to_realm(one, &mut heap).expect("binds");
    let second = script.bind_to_realm(other, &mut heap).expect("binds");
    let mut first_context = Context::new(one, Interner::new(), false, 0);
    let mut second_context = Context::new(other, Interner::new(), false, 0);
    let alone = run_compiled(second, &mut heap, &mut second_context);
    run_compiled(first, &mut heap, &mut first_context);
    assert_eq!(run_compiled(second, &mut heap, &mut second_context), alone);
    assert!(second_context.frames.is_empty());
}

#[test]
fn the_compiler_is_asked_the_same_of_two_parses() {
    let mut heap = Heap::new();
    let mut context = context(&mut heap);
    let first = parse("'use strict'; 1;", &mut heap, &mut context).expect("parses");
    let second = parse("'use strict'; 1;", &mut heap, &mut context).expect("parses");
    let one = first.compile_request(&heap, Ok(vec![2])).expect("asks");
    let other = second.compile_request(&heap, Ok(vec![2])).expect("asks");
    assert_eq!(one.name, other.name);
    assert_eq!((one.strict, one.use_expr, one.block), (true, true, false));
    assert_eq!((other.strict, other.use_expr, other.block), (true, true, false));
    assert_eq!(one.annex_b_function_names, other.annex_b_function_names);
    assert_ne!(one.source_text, other.source_text);
    assert_eq!(heap.sources[one.source_text.id], heap.sources[other.source_text.id]);
}

#[test]
fn a_tree_is_made_in_the_scope_of_the_current_realm() {
    let mut heap = Heap::new();
    let mut context = context(&mut heap);
    let other = heap.add_realm();
    let source = Source::from_bytes(b"function named() {}");
    let script = match Script::parse(source, Some(other), &mut heap, &mut context) {
        Ok(ParseStep::Done(script)) => script,
        _ => panic!("parses"),
    };
    parse("let a = 1; let b = 2;", &mut heap, &mut context).expect("parses");
    let code = match &heap.scripts[script.id].phase {
        ScriptPhase::Ast { code, .. } => code,
        ScriptPhase::Codeblock(_) => panic!("not compiled"),
    };
    let declaration = match &code.statements().statements()[0] {
        StatementListItem::Declaration(declaration) => declaration,
        StatementListItem::Statement(_) => panic!("it is a declaration"),
    };
    let function = match declaration.as_ref() {
        Declaration::FunctionDeclaration(function) => function,
        _ => panic!("it is a function"),
    };
    // The scope around the function is that of the realm, with what is bound there now.
    let outer = function.scopes().function_scope().outer().expect("the global scope");
    assert!(outer.is_global());
    assert_eq!(outer.num_bindings(), 2);
    assert_eq!(heap.realms[context.realm.id].scope().num_bindings(), 2);
    assert_eq!(heap.realms[other.id].scope().num_bindings(), 0);
    // Its name is one of the context's strings.
    let name = context.interner.resolve_expect(function.name().sym());
    assert_eq!(name.to_string(), "named");
}
