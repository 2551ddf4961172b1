//! Sharing one compiled script between realms, end to end: the scripts are run by
//! a small engine that knows as much of the language as these tests use.

use std::collections::BTreeMap;

use boa_ast::declaration::Binding;
use boa_ast::expression::access::{PropertyAccess, PropertyAccessField};
use boa_ast::expression::literal::{LiteralKind, PropertyDefinition};
use boa_ast::expression::operator::assign::AssignTarget;
use boa_ast::expression::operator::binary::{ArithmeticOp, BinaryOp, LogicalOp};
use boa_ast::expression::operator::unary::UnaryOp;
use boa_ast::operations::lexically_declared_names;
use boa_ast::property::PropertyName;
use boa_ast::{Declaration, Expression, Statement, StatementListItem};
use boa_interner::{Interner, Sym};
use boa_script::context::Context;
use boa_script::evaluation::{Action, Evaluation, Event};
use boa_script::heap::{Code, CodeBlock, Heap, InlineCache, Realm, Script, ScriptPhase};
use boa_script::script::{CodeblockStep, CompileRequest, ParseStep, Source};
use boa_script::value::{CompletionRecord, JsError, JsResult, JsValue};

#[derive(Clone, Debug, PartialEq)]
enum Value {
    Undefined,
    Number(f64),
    Text(String),
    Object(usize),
    Function(Code, Realm),
}

#[derive(Clone)]
enum Instruction {
    Number(f64),
    Text(String),
    Name(String),
    Get { cache: usize, target: Box<Instruction>, field: String },
    Put { target: Box<Instruction>, field: String, value: Box<Instruction> },
    Coalesce(Box<Instruction>, Box<Instruction>),
    Plus(Box<Instruction>, Box<Instruction>),
    Typeof(Box<Instruction>),
    Object(Vec<(String, Instruction)>),
    Function(Code),
    Call(Box<Instruction>, Vec<Instruction>),
    Return(Box<Instruction>),
    Initialize(String, Box<Instruction>),
}

#[derive(Clone, Default)]
struct Program {
    parameters: Vec<String>,
    variables: Vec<String>,
    functions: Vec<(String, Code)>,
    body: Vec<Instruction>,
}

struct Compiler<'a> {
    interner: &'a Interner,
    heap: &'a mut Heap,
    programs: &'a mut Vec<Program>,
    program: Program,
    functions: Vec<Code>,
    caches: usize,
}

impl<'a> Compiler<'a> {
    fn new(
        interner: &'a Interner,
        heap: &'a mut Heap,
        programs: &'a mut Vec<Program>,
        parameters: Vec<String>,
    ) -> Compiler<'a> {
        let program = Program { parameters, ..Program::default() };
        Compiler { interner, heap, programs, program, functions: Vec::new(), caches: 0 }
    }

    fn text(&self, sym: Sym) -> String {
        self.interner.resolve_expect(sym).to_string()
    }

    fn function(&mut self, parameters: &[boa_ast::function::FormalParameter], body: &[StatementListItem]) -> Code {
        let mut names: Vec<String> = Vec::new();
        for parameter in parameters {
            match parameter.variable().binding() {
                Binding::Identifier(name) => names.push(self.text(name.sym())),
                Binding::Pattern(_) => panic!("patterns are not known here"),
            }
        }
        let mut inner = Compiler::new(self.interner, self.heap, self.programs, names);
        inner.statements(body);
        let block = inner.finish(Vec::new());
        let code = self.heap.add_code(block);
        self.functions.push(code);
        code
    }

    fn statements(&mut self, items: &[StatementListItem]) {
        for item in items {
            match item {
                StatementListItem::Statement(statement) => self.statement(statement),
                StatementListItem::Declaration(declaration) => match &**declaration {
                    Declaration::FunctionDeclaration(function) => {
                        let name = self.text(function.name().sym());
                        let code = self
                            .function(function.parameters().as_ref(), function.body().statements());
                        self.program.functions.push((name, code));
                    }
                    Declaration::Lexical(_) | Declaration::ClassDeclaration(_) => {}
                    _ => panic!("this declaration is not known here"),
                },
            }
        }
    }

    fn statement(&mut self, statement: &Statement) {
        match statement {
            Statement::Expression(expression) => {
                let instruction = self.expression(expression);
                self.program.body.push(instruction);
            }
            Statement::Return(statement) => {
                let target = statement.target().expect("a value is returned");
                let instruction = Instruction::Return(Box::new(self.expression(target)));
                self.program.body.push(instruction);
            }
            Statement::Var(variables) => {
                for variable in variables.0.as_ref() {
                    let name = match variable.binding() {
                        Binding::Identifier(name) => self.text(name.sym()),
                        Binding::Pattern(_) => panic!("patterns are not known here"),
                    };
                    self.program.variables.push(name.clone());
                    if let Some(init) = variable.init() {
                        let value = Box::new(self.expression(init));
                        self.program.body.push(Instruction::Initialize(name, value));
                    }
                }
            }
            _ => panic!("this statement is not known here"),
        }
    }

    fn access(&mut self, access: &PropertyAccess) -> (Box<Instruction>, String) {
        match access {
            PropertyAccess::Simple(access) => {
                let field = match access.field() {
                    PropertyAccessField::Const(name) => self.text(name.sym()),
                    PropertyAccessField::Expr(_) => panic!("computed names are not known here"),
                };
                (Box::new(self.expression(access.target())), field)
            }
            _ => panic!("this access is not known here"),
        }
    }

    fn expression(&mut self, expression: &Expression) -> Instruction {
        match expression {
            Expression::Identifier(name) => Instruction::Name(self.text(name.sym())),
            Expression::Literal(literal) => match literal.kind() {
                LiteralKind::String(text) => Instruction::Text(self.text(*text)),
                LiteralKind::Int(number) => Instruction::Number(f64::from(*number)),
                LiteralKind::Num(number) => Instruction::Number(*number),
                _ => panic!("this literal is not known here"),
            },
            Expression::Parenthesized(inner) => self.expression(inner.expression()),
            Expression::PropertyAccess(access) => {
                let (target, field) = self.access(access);
                let cache = self.caches;
                self.caches += 1;
                Instruction::Get { cache, target, field }
            }
            Expression::Assign(assign) => match assign.lhs() {
                AssignTarget::Access(access) => {
                    let (target, field) = self.access(access);
                    let value = Box::new(self.expression(assign.rhs()));
                    Instruction::Put { target, field, value }
                }
                _ => panic!("this assignment is not known here"),
            },
            Expression::Binary(binary) => {
                let lhs = Box::new(self.expression(binary.lhs()));
                let rhs = Box::new(self.expression(binary.rhs()));
                match binary.op() {
                    BinaryOp::Arithmetic(ArithmeticOp::Add) => Instruction::Plus(lhs, rhs),
                    BinaryOp::Logical(LogicalOp::Coalesce) => Instruction::Coalesce(lhs, rhs),
                    _ => panic!("this operator is not known here"),
                }
            }
            Expression::Unary(unary) => match unary.op() {
                UnaryOp::TypeOf => Instruction::Typeof(Box::new(self.expression(unary.target()))),
                _ => panic!("this operator is not known here"),
            },
            Expression::ObjectLiteral(object) => {
                let mut properties: Vec<(String, Instruction)> = Vec::new();
                for property in object.properties() {
                    match property {
                        PropertyDefinition::Property(PropertyName::Literal(name), value) => {
                            let name = self.text(name.sym());
                            let value = self.expression(value);
                            properties.push((name, value));
                        }
                        _ => panic!("this property is not known here"),
                    }
                }
                Instruction::Object(properties)
            }
            Expression::FunctionExpression(function) => Instruction::Function(
                self.function(function.parameters().as_ref(), function.body().statements()),
            ),
            Expression::Call(call) => {
                let callee = Box::new(self.expression(call.function()));
                let mut arguments: Vec<Instruction> = Vec::new();
                for argument in call.args() {
                    arguments.push(self.expression(argument));
                }
                Instruction::Call(callee, arguments)
            }
            _ => panic!("this expression is not known here"),
        }
    }

    fn finish(self, global_lexs: Vec<u64>) -> CodeBlock {
        let instructions = self.programs.len() as u64;
        self.programs.push(self.program);
        let mut inline_caches: Vec<InlineCache> = Vec::new();
        for _ in 0..self.caches {
            inline_caches.push(InlineCache { shapes: Vec::new(), megamorphic: false });
        }
        CodeBlock { global_lexs, functions: self.functions, inline_caches, instructions }
    }
}

struct Engine {
    heap: Heap,
    programs: Vec<Program>,
    objects: Vec<BTreeMap<String, Value>>,
    globals: Vec<usize>,
    values: Vec<Value>,
    shapes: Vec<Vec<String>>,
}

impl Engine {
    fn new() -> Engine {
        Engine {
            heap: Heap::new(),
            programs: Vec::new(),
            objects: Vec::new(),
            globals: Vec::new(),
            values: Vec::new(),
            shapes: Vec::new(),
        }
    }

    fn object(&mut self) -> usize {
        self.objects.push(BTreeMap::new());
        self.objects.len() - 1
    }

    /// A context with a realm of its own.
    fn context(&mut self) -> Context {
        let realm = self.heap.add_realm();
        let global = self.object();
        let constructor = self.object();
        let prototype = self.object();
        self.objects[constructor].insert("prototype".to_string(), Value::Object(prototype));
        self.objects[global].insert("Object".to_string(), Value::Object(constructor));
        self.objects[global].insert("globalThis".to_string(), Value::Object(global));
        self.globals.push(global);
        Context::new(realm, Interner::new(), false, 0)
    }

    fn parse(&mut self, source: &str, context: &mut Context) -> JsResult<Script> {
        match Script::parse(Source::from_bytes(source.as_bytes()), None, &mut self.heap, context)? {
            ParseStep::Done(script) => Ok(script),
            ParseStep::Optimize(pending) => Ok(pending.finish(&mut self.heap)),
        }
    }

    fn compile(&mut self, request: &CompileRequest, context: &Context) -> CodeBlock {
        let syntax = match &self.heap.scripts[request.script.id].phase {
            ScriptPhase::Ast { code, .. } => code.clone(),
            ScriptPhase::Codeblock(_) => panic!("compiled twice"),
        };
        let mut lexs: Vec<u64> = Vec::new();
        for name in lexically_declared_names(&syntax) {
            lexs.push(name.get() as u64);
        }
        let mut compiler =
            Compiler::new(&context.interner, &mut self.heap, &mut self.programs, Vec::new());
        compiler.statements(syntax.statements().statements());
        compiler.finish(lexs)
    }

    fn codeblock(&mut self, script: Script, context: &Context) -> JsResult<Code> {
        match script.codeblock(&self.heap) {
            CodeblockStep::Ready(code) => Ok(code),
            CodeblockStep::Instantiate { .. } => {
                let request = script.compile_request(&self.heap, Ok(Vec::new()))?;
                let block = self.compile(&request, context);
                Ok(script.install_codeblock(&mut self.heap, block))
            }
        }
    }

    fn drive(&mut self, started: (Evaluation, Action), context: &mut Context) -> JsResult<Value> {
        let (mut evaluation, mut action) = started;
        loop {
            let event = match action {
                Action::Instantiate { .. } => Event::Instantiated(Ok(Vec::new())),
                Action::Compile(request) => Event::Compiled(self.compile(&request, context)),
                Action::ResizeGlobalEnv { .. } => Event::Resized,
                Action::Declare { code } => {
                    self.declare(code, context);
                    Event::Declared(Ok(()))
                }
                Action::Run { .. } => Event::Ran(self.run(context)),
                Action::Finish(result) => {
                    return result.map(|value| match value {
                        JsValue::Held(number) => self.values[number as usize].clone(),
                        _ => Value::Undefined,
                    })
                }
            };
            action = evaluation.step(event, &mut self.heap, context);
        }
    }

    fn evaluate(&mut self, script: Script, context: &mut Context) -> JsResult<Value> {
        let started = script.evaluate(&self.heap, context);
        self.drive(started, context)
    }

    fn eval(&mut self, source: &str, context: &mut Context) -> JsResult<Value> {
        let script = self.parse(source, context)?;
        self.evaluate(script, context)
    }

    fn declare(&mut self, code: Code, context: &Context) {
        let realm = context.frames.last().expect("a frame was entered").realm;
        let program = self.programs[self.heap.code[code.id].instructions as usize].clone();
        let global = self.globals[realm.id];
        for (name, function) in program.functions {
            self.objects[global].insert(name, Value::Function(function, realm));
        }
        for name in program.variables {
            self.objects[global].entry(name).or_insert(Value::Undefined);
        }
    }

    fn run(&mut self, context: &Context) -> CompletionRecord {
        let frame = context.frames.last().expect("a frame was entered");
        match self.execute(frame.code, frame.realm, &BTreeMap::new()) {
            Ok(value) => {
                self.values.push(value);
                CompletionRecord::Normal(JsValue::Held(self.values.len() as u64 - 1))
            }
            Err(error) => CompletionRecord::Throw(error),
        }
    }

    fn execute(
        &mut self,
        code: Code,
        realm: Realm,
        locals: &BTreeMap<String, Value>,
    ) -> JsResult<Value> {
        let program = self.programs[self.heap.code[code.id].instructions as usize].clone();
        let mut last = Value::Undefined;
        for instruction in &program.body {
            if let Instruction::Return(value) = instruction {
                return self.value(value, code, realm, locals);
            }
            last = self.value(instruction, code, realm, locals)?;
        }
        Ok(last)
    }

    fn shape(&mut self, object: usize) -> u64 {
        let names: Vec<String> = self.objects[object].keys().cloned().collect();
        match self.shapes.iter().position(|shape| *shape == names) {
            Some(place) => place as u64,
            None => {
                self.shapes.push(names);
                self.shapes.len() as u64 - 1
            }
        }
    }

    fn value(
        &mut self,
        instruction: &Instruction,
        code: Code,
        realm: Realm,
        locals: &BTreeMap<String, Value>,
    ) -> JsResult<Value> {
        let thrown = || JsError::Thrown(JsValue::Undefined);
        match instruction {
            Instruction::Number(number) => Ok(Value::Number(*number)),
            Instruction::Text(text) => Ok(Value::Text(text.clone())),
            Instruction::Name(name) => match locals.get(name) {
                Some(value) => Ok(value.clone()),
                None => {
                    let global = self.globals[realm.id];
                    self.objects[global].get(name).cloned().ok_or_else(thrown)
                }
            },
            Instruction::Get { cache, target, field } => {
                match self.value(target, code, realm, locals)? {
                    Value::Object(object) => {
                        let shape = self.shape(object);
                        let cache = &mut self.heap.code[code.id].inline_caches[*cache];
                        if !cache.shapes.contains(&shape) {
                            cache.megamorphic = cache.megamorphic || !cache.shapes.is_empty();
                            cache.shapes.push(shape);
                        }
                        Ok(self.objects[object].get(field).cloned().unwrap_or(Value::Undefined))
                    }
                    _ => Err(thrown()),
                }
            }
            Instruction::Put { target, field, value } => {
                match self.value(target, code, realm, locals)? {
                    Value::Object(object) => {
                        let value = self.value(value, code, realm, locals)?;
                        self.objects[object].insert(field.clone(), value.clone());
                        Ok(value)
                    }
                    _ => Err(thrown()),
                }
            }
            Instruction::Coalesce(lhs, rhs) => match self.value(lhs, code, realm, locals)? {
                Value::Undefined => self.value(rhs, code, realm, locals),
                value => Ok(value),
            },
            Instruction::Plus(lhs, rhs) => {
                let lhs = self.value(lhs, code, realm, locals)?;
                match (lhs, self.value(rhs, code, realm, locals)?) {
                    (Value::Number(lhs), Value::Number(rhs)) => Ok(Value::Number(lhs + rhs)),
                    _ => Err(thrown()),
                }
            }
            Instruction::Typeof(target) => {
                let name = match self.value(target, code, realm, locals) {
                    Ok(Value::Number(_)) => "number",
                    Ok(Value::Text(_)) => "string",
                    Ok(Value::Object(_)) => "object",
                    Ok(Value::Function(_, _)) => "function",
                    Ok(Value::Undefined) | Err(_) => "undefined",
                };
                Ok(Value::Text(name.to_string()))
            }
            Instruction::Object(properties) => {
                let object = self.object();
                for (name, value) in properties {
                    let value = self.value(value, code, realm, locals)?;
                    self.objects[object].insert(name.clone(), value);
                }
                Ok(Value::Object(object))
            }
            Instruction::Function(function) => Ok(Value::Function(*function, realm)),
            Instruction::Call(callee, arguments) => {
                match self.value(callee, code, realm, locals)? {
                    Value::Function(function, home) => {
                        let number = self.heap.code[function.id].instructions as usize;
                        let parameters = self.programs[number].parameters.clone();
                        let mut passed: BTreeMap<String, Value> = BTreeMap::new();
                        for (name, argument) in parameters.into_iter().zip(arguments) {
                            let argument = self.value(argument, code, realm, locals)?;
                            passed.insert(name, argument);
                        }
                        self.execute(function, home, &passed)
                    }
                    _ => Err(thrown()),
                }
            }
            Instruction::Return(value) => self.value(value, code, realm, locals),
            Instruction::Initialize(name, value) => {
                let value = self.value(value, code, realm, locals)?;
                let global = self.globals[realm.id];
                self.objects[global].insert(name.clone(), value);
                Ok(Value::Undefined)
            }
        }
    }

    /// Compiles `source` in a context of its own, the way an embedder holding a
    /// template would.
    fn compiled(&mut self, source: &str) -> (Context, Script) {
        let mut context = self.context();
        let script = self.parse(source, &mut context).expect("parses");
        self.codeblock(script, &context).expect("compiles");
        (context, script)
    }

    fn bind(&mut self, script: Script, context: &Context) -> JsResult<Script> {
        script.bind_to_realm(context.realm, &mut self.heap)
    }
}

#[test]
fn a_compiled_script_runs_in_more_than_one_realm() {
    let mut engine = Engine::new();
    let (_template, script) = engine.compiled("globalThis.ran = (globalThis.ran ?? 0) + 1;");

    let mut first = engine.context();
    let bound = engine.bind(script, &first).expect("binds");
    engine.evaluate(bound, &mut first).expect("runs");

    let mut second = engine.context();
    let bound = engine.bind(script, &second).expect("binds");
    engine.evaluate(bound, &mut second).expect("runs");

    // Two, in either realm, would mean the realms were sharing a global object.
    for context in [&mut first, &mut second] {
        assert_eq!(engine.eval("globalThis.ran", context).expect("reads"), Value::Number(1.0));
    }
}

#[test]
fn what_one_realm_does_to_the_shared_code_is_not_visible_to_the_next() {
    // The function is what carries state if anything does: it is one code block,
    // shared by both realms, holding the inline caches that record the shapes it
    // has seen.
    let mut engine = Engine::new();
    let (_template, script) = engine.compiled(
        "globalThis.read = function (o) { return o.x; };
         globalThis.marker = 'from this realm';",
    );
    let code = match script.codeblock(&engine.heap) {
        CodeblockStep::Ready(code) => code,
        CodeblockStep::Instantiate { .. } => panic!("compiled"),
    };
    let function = engine.heap.code[code.id].functions[0];

    let mut first = engine.context();
    let bound = engine.bind(script, &first).expect("binds");
    engine.evaluate(bound, &mut first).expect("runs");
    engine
        .eval(
            "globalThis.read({ x: 1 });
             globalThis.read({ y: 0, x: 2 });
             globalThis.marker = 'changed';
             Object.prototype.injected = 'leaked';",
            &mut first,
        )
        .expect("the first realm runs");
    assert_eq!(engine.heap.code[function.id].inline_caches[0].shapes.len(), 2);
    assert!(engine.heap.code[function.id].inline_caches[0].megamorphic);

    let mut second = engine.context();
    let bound = engine.bind(script, &second).expect("binds");
    assert!(engine.heap.code[function.id].inline_caches[0].shapes.is_empty());
    assert!(!engine.heap.code[function.id].inline_caches[0].megamorphic);
    engine.evaluate(bound, &mut second).expect("runs");

    assert_eq!(
        engine.eval("globalThis.marker", &mut second).expect("reads"),
        Value::Text("from this realm".to_string()),
    );
    assert_eq!(
        engine.eval("typeof Object.prototype.injected", &mut second).expect("reads"),
        Value::Text("undefined".to_string()),
    );
    // The shared function still reads correctly in a realm whose objects have
    // shapes the caches have never seen.
    assert_eq!(
        engine.eval("globalThis.read({ x: 7 })", &mut second).expect("reads"),
        Value::Number(7.0)
    );
}

#[test]
fn an_uncompiled_script_cannot_be_bound() {
    let mut engine = Engine::new();
    let mut context = engine.context();
    let script = engine.parse("1 + 1;", &mut context).expect("parses");

    let other = engine.context();
    assert!(
        engine.bind(script, &other).is_err(),
        "binding compiled the script against whichever context was nearest, \
         which is the mistake the missing parameter exists to prevent"
    );
}

#[test]
fn a_top_level_lexical_declaration_is_refused() {
    // `let` at the top level becomes a binding in the global *declarative*
    // scope, which the compiler addresses by position in the scope it compiled
    // against. A second realm's scope would not have it.
    for source in ["let a = 1;", "const a = 1;", "class A {}"] {
        let mut engine = Engine::new();
        let (_template, script) = engine.compiled(source);
        let context = engine.context();
        assert!(
            engine.bind(script, &context).is_err(),
            "`{source}` was allowed into a second realm"
        );
    }

    // `var` and `function` are instantiated by name on the global object, so
    // they are portable and must not be caught by the same guard.
    for source in ["var a = 1;", "function a() {}"] {
        let mut engine = Engine::new();
        let (_template, script) = engine.compiled(source);
        let mut context = engine.context();
        let bound = engine
            .bind(script, &context)
            .unwrap_or_else(|e| panic!("`{source}` was refused: {e:?}"));
        engine.evaluate(bound, &mut context).expect("runs");
        assert_eq!(
            engine.eval("typeof a", &mut context).expect("reads"),
            Value::Text(
                if source.starts_with("var") {
                    "number"
                } else {
                    "function"
                }
                .to_string()
            ),
        );
    }
}
