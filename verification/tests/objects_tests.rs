use std::rc::Rc;

use jlox::environment::Environment;
use jlox::error::{LoxError, LoxErrorType, Message};
use jlox::interpreter::{binary_operation, BinaryResult, Interpreter};
use jlox::lox::exit_code;
use jlox::lox_callable::LoxCallable;
use jlox::lox_class::LoxClass;
use jlox::lox_function::LoxFunction;
use jlox::lox_instance::LoxInstance;
use jlox::lox_native_function::{Clock, LoxNativeFunction};
use jlox::machine::{Action, Event, Mode, Task};
use jlox::number::Number;
use jlox::stmt::{FunctionStmt, PrintStmt, Stmt};
use jlox::expr::{Expr, LiteralExpr};
use jlox::table::Table;
use jlox::text::{collect, decimal_string, join};
use jlox::token::{Callable, Literal, Token, TokenType};

fn number(value: f64) -> Number {
    Number::from_bits(value.to_bits())
}

fn name(lexeme: &str) -> Token {
    Token::new(TokenType::Identifier, lexeme, None, 1)
}

fn declaration(lexeme: &str, params: &[&str]) -> Rc<FunctionStmt> {
    Rc::new(FunctionStmt {
        name: name(lexeme),
        params: Rc::new(params.iter().map(|p| name(p)).collect()),
        body: Rc::new(vec![]),
    })
}

#[test]
fn table_keeps_the_last_value_of_a_name() {
    let mut table: Table<u32> = Table::new();
    assert!(table.get(&"a".to_string()).is_none());
    assert!(!table.contains_key(&"a".to_string()));
    table.insert("a".to_string(), 1);
    table.insert("b".to_string(), 2);
    table.insert("a".to_string(), 3);
    assert_eq!(table.get(&"a".to_string()), Some(&3));
    assert_eq!(table.get(&"b".to_string()), Some(&2));
    assert!(table.contains_key(&"b".to_string()));
    assert!(table.get(&"c".to_string()).is_none());
    assert_eq!(table.entries.len(), 2);
}

#[test]
fn decimal_string_writes_counts() {
    assert_eq!(decimal_string(0), "0");
    assert_eq!(decimal_string(7), "7");
    assert_eq!(decimal_string(10), "10");
    assert_eq!(decimal_string(255), "255");
    assert_eq!(decimal_string(1_000_000), "1000000");
    assert_eq!(decimal_string(usize::MAX), usize::MAX.to_string());
}

#[test]
fn text_helpers_build_strings() {
    let chars: Vec<char> = "hello world".chars().collect();
    assert_eq!(collect(&chars, 6, 11), "world");
    assert_eq!(collect(&chars, 3, 3), "");
    assert_eq!(join("ab".to_string(), "cd"), "abcd");
}

#[test]
fn messages_have_their_texts() {
    assert_eq!(Message::ExpectExpression.render("x"), "Expect expression.");
    assert_eq!(Message::UndefinedVariable.render("x"), "Undefined variable 'x'.");
    assert_eq!(Message::UndefinedProperty.render("size"), "Undefined property 'size'.");
    assert_eq!(
        Message::WrongArity { expected: 2, got: 10 }.render(")"),
        "Expected 2 arguments but got 10."
    );
    assert_eq!(Message::Failure.render(""), "");
    assert_eq!(Message::ClockError.render(""), "SYSTEM CLOCK ERROR.");
}

#[test]
fn errors_report_in_their_formats() {
    let semicolon = Token::new(TokenType::Semicolon, ";", None, 12);
    assert_eq!(
        LoxError::general_error(3, Message::UnexpectedCharacter).report().unwrap(),
        "[line 3] Error: Unexpected character."
    );
    assert_eq!(
        LoxError::parse_error(&semicolon, Message::ExpectExpression).report().unwrap(),
        "[line 12] Error at ';': Expect expression."
    );
    assert_eq!(
        LoxError::parse_error(&Token::new_eof(4), Message::ExpectExpression).report().unwrap(),
        "[line 4] Error at end: Expect expression."
    );
    assert_eq!(
        LoxError::runtime_error(&semicolon, Message::OperandsMustBeNumbers).report().unwrap(),
        "Operands must be numbers.\n[line 12]"
    );
    assert_eq!(
        LoxError::system_error(Message::ClockError).report().unwrap(),
        "SYSTEM CLOCK ERROR."
    );
    assert!(LoxError::new_break().report().is_none());
    assert!(LoxError::new_return(&Literal::Nil).report().is_none());
    assert!(LoxError::new_type_error().report().is_none());
}

#[test]
fn errors_know_their_kind() {
    let token = name("x");
    assert!(LoxError::new_break().is_break());
    assert!(!LoxError::new_break().is_return());
    assert!(LoxError::new_return(&Literal::Boolean(true)).is_return());
    assert!(!LoxError::new_return(&Literal::Nil).is_runtime_error());
    assert!(LoxError::runtime_error(&token, Message::UndefinedVariable).is_runtime_error());
    assert!(!LoxError::parse_error(&token, Message::ExpectExpression).is_runtime_error());
    assert!(!LoxError::general_error(1, Message::UnterminatedString).is_break());
    assert!(matches!(LoxError::new_type_error().0, LoxErrorType::TypeErr));
    assert!(matches!(
        LoxError::new_parse_failure().0,
        LoxErrorType::ParseErr { ref token, message: Message::Failure }
            if token.is_type(&TokenType::Eof) && token.get_line() == 0
    ));
}

#[test]
fn return_value_is_taken_from_a_return_signal_only() {
    let returned = LoxError::new_return(&Literal::String("v".to_string()));
    assert!(matches!(returned.get_return_value(), Ok(Literal::String(s)) if s == "v"));
    let broken = LoxError::new_break();
    assert!(matches!(broken.get_return_value(), Err(e) if e.is_break()));
    let failed = LoxError::runtime_error(&name("x"), Message::UndefinedVariable);
    assert!(matches!(failed.get_return_value(), Err(e) if e.is_runtime_error()));
}

#[test]
fn exit_code_tells_the_kinds_of_error_apart() {
    assert_eq!(exit_code(&Ok(())), 0);
    assert_eq!(exit_code(&Err(LoxError::runtime_error(&name("x"), Message::UndefinedVariable))), 70);
    assert_eq!(exit_code(&Err(LoxError::new_parse_failure())), 65);
    assert_eq!(exit_code(&Err(LoxError::general_error(1, Message::UnexpectedCharacter))), 65);
    assert_eq!(exit_code(&Err(LoxError::system_error(Message::ClockError))), 65);
}

#[test]
fn arity_of_callables() {
    assert_eq!(Clock.arity(), 0);
    assert_eq!(LoxNativeFunction { fun: Clock }.arity(), 0);
    assert_eq!(LoxFunction::new(0, &declaration("f", &["a", "b", "c"]), false).arity(), 3);
    assert_eq!(LoxFunction::new(0, &declaration("g", &[]), false).arity(), 0);
}

#[test]
fn find_method_looks_up_the_superclass_chain() {
    let mut base_methods = Table::new();
    base_methods.insert("hello".to_string(), 0usize);
    base_methods.insert("init".to_string(), 1usize);
    let mut derived_methods = Table::new();
    derived_methods.insert("hello".to_string(), 2usize);
    let classes = vec![
        LoxClass::new("Base", None, base_methods),
        LoxClass::new("Derived", Some(0), derived_methods),
        LoxClass::new("Leaf", Some(1), Table::new()),
    ];
    let found = |class: usize, method: &str| match LoxClass::find_method(&classes, class, &method.to_string()) {
        Some(Literal::Function(f)) => Some(f.fun),
        Some(_) => panic!("a method is a function"),
        None => None,
    };
    assert_eq!(found(0, "hello"), Some(0));
    assert_eq!(found(1, "hello"), Some(2));
    assert_eq!(found(2, "hello"), Some(2));
    assert_eq!(found(2, "init"), Some(1));
    assert_eq!(found(2, "missing"), None);
    assert_eq!(found(3, "hello"), None);

    let functions = vec![
        LoxFunction::new(0, &declaration("hello", &[]), false),
        LoxFunction::new(0, &declaration("init", &["a", "b"]), true),
        LoxFunction::new(0, &declaration("hello", &["x"]), false),
    ];
    assert_eq!(LoxClass::arity(&classes, &functions, 0), 2);
    assert_eq!(LoxClass::arity(&classes, &functions, 2), 2);
    let plain = vec![LoxClass::new("Plain", None, Table::new())];
    assert_eq!(LoxClass::arity(&plain, &functions, 0), 0);
}

#[test]
fn bind_makes_a_frame_that_holds_this() {
    let mut environment = Environment::new();
    let closure = environment.new_with_enclosing(0);
    let method = LoxFunction::new(closure, &declaration("m", &["a"]), true);
    let bound = method.bind(&Literal::Instance(4), &mut environment);
    assert_eq!(bound.closure, 2);
    assert_eq!(environment.len(), 3);
    assert_eq!(environment.frames[2].enclosing, Some(closure));
    assert!(bound.is_initialiser);
    assert_eq!(bound.arity(), 1);
    assert!(matches!(environment.get_at(bound.closure, 0, "this"), Some(Literal::Instance(4))));
    assert!(environment.get_at(method.closure, 0, "this").is_none());
    assert_eq!(method.closure, closure);
    let again = method.bind(&Literal::Instance(4), &mut environment);
    assert_eq!(again.closure, 3);
    assert!(matches!(environment.get_at(again.closure, 0, "this"), Some(Literal::Instance(4))));
    assert!(matches!(environment.get_at(bound.closure, 0, "this"), Some(Literal::Instance(4))));
}

#[test]
fn instance_reads_fields_before_methods() {
    let mut methods = Table::new();
    methods.insert("m".to_string(), 0usize);
    methods.insert("f".to_string(), 0usize);
    let classes = vec![LoxClass::new("C", None, methods)];
    let mut functions = vec![LoxFunction::new(0, &declaration("m", &[]), false)];
    let mut environment = Environment::new();
    let mut instance = LoxInstance::new(0);
    instance.set(&name("f"), &Literal::Boolean(true));
    assert!(matches!(instance.field(&name("f")), Some(Literal::Boolean(true))));
    assert!(instance.field(&name("m")).is_none());

    let field = instance.get(9, &name("f"), &classes, &mut functions, &mut environment);
    assert!(matches!(field, Ok(Literal::Boolean(true))));
    assert_eq!(functions.len(), 1);
    assert_eq!(environment.len(), 1);

    let method = instance.get(9, &name("m"), &classes, &mut functions, &mut environment);
    assert!(matches!(method, Ok(Literal::Function(Callable { fun: 1 }))));
    assert_eq!(functions.len(), 2);
    assert_eq!(functions[1].closure, 1);
    assert!(matches!(environment.get_at(1, 0, "this"), Some(Literal::Instance(9))));

    let missing = instance.get(9, &name("x"), &classes, &mut functions, &mut environment);
    assert_eq!(missing.unwrap_err().report().unwrap(), "Undefined property 'x'.\n[line 1]");
    assert_eq!(functions.len(), 2);

    instance.set(&name("f"), &Literal::Nil);
    assert!(matches!(instance.field(&name("f")), Some(Literal::Nil)));
}

#[test]
fn binary_operation_decides_what_it_can() {
    let one = Literal::Number(number(1.0));
    let two = Literal::Number(number(2.0));
    let text = Literal::String("a".to_string());
    assert!(matches!(
        binary_operation(TokenType::Plus, &one, &two),
        BinaryResult::Arithmetic { left, right } if left == number(1.0) && right == number(2.0)
    ));
    assert!(matches!(binary_operation(TokenType::Slash, &one, &two), BinaryResult::Arithmetic { .. }));
    assert!(matches!(binary_operation(TokenType::Less, &one, &two), BinaryResult::Value(Literal::Boolean(true))));
    assert!(matches!(binary_operation(TokenType::GreaterEqual, &one, &two), BinaryResult::Value(Literal::Boolean(false))));
    assert!(matches!(binary_operation(TokenType::EqualEqual, &one, &text), BinaryResult::Value(Literal::Boolean(false))));
    assert!(matches!(binary_operation(TokenType::BangEqual, &one, &text), BinaryResult::Value(Literal::Boolean(true))));
    assert!(matches!(binary_operation(TokenType::Plus, &text, &text), BinaryResult::Value(Literal::String(s)) if s == "aa"));
    assert!(matches!(
        binary_operation(TokenType::Plus, &text, &two),
        BinaryResult::Join { text: Literal::String(s), number: n, swapped: false } if s == "a" && n == number(2.0)
    ));
    assert!(matches!(
        binary_operation(TokenType::Plus, &two, &text),
        BinaryResult::Join { swapped: true, .. }
    ));
    assert!(matches!(binary_operation(TokenType::Minus, &text, &two), BinaryResult::Fault(Message::OperandsMustBeNumbers)));
    assert!(matches!(binary_operation(TokenType::Star, &text, &text), BinaryResult::Fault(Message::OperandsMustBeNumbers)));
    assert!(matches!(binary_operation(TokenType::Plus, &Literal::Nil, &one), BinaryResult::Fault(Message::OperandsMustBeNumbers)));
    assert!(matches!(binary_operation(TokenType::Less, &Literal::Nil, &Literal::Nil), BinaryResult::Fault(Message::OperandsMustBeNumbers)));
    assert!(matches!(binary_operation(TokenType::Plus, &Literal::Boolean(true), &Literal::Nil), BinaryResult::Fault(Message::OperandsMustBeNumbers)));
    assert!(matches!(binary_operation(TokenType::Plus, &text, &Literal::Nil), BinaryResult::Fault(Message::OperandsMustBeNumbers)));
    assert!(matches!(binary_operation(TokenType::Plus, &Literal::Boolean(false), &text), BinaryResult::Fault(Message::OperandsMustBeNumbers)));
    assert!(matches!(binary_operation(TokenType::And, &one, &two), BinaryResult::Fault(Message::InternalError)));
}

fn print_nil() -> Rc<Vec<Rc<Stmt>>> {
    let nil = Rc::new(Expr::Literal(Rc::new(LiteralExpr { value: None })));
    Rc::new(vec![Rc::new(Stmt::Print(Rc::new(PrintStmt { expression: nil })))])
}

#[test]
fn a_new_interpreter_is_halted_and_knows_the_clock() {
    let mut interpreter = Interpreter::new();
    assert_eq!(interpreter.get_globals(), 0);
    assert!(matches!(interpreter.mode, Mode::Halted));
    assert!(matches!(
        interpreter.environment.get_at(0, 0, "clock"),
        Some(Literal::NativeFunction(_))
    ));
    assert!(matches!(interpreter.step(Event::Nothing), Action::Finished(Ok(()))));
    interpreter.resolve(5, 2);
    assert_eq!(interpreter.locals.get(&5), Some(&2));
}

#[test]
fn the_interpreter_takes_one_step_at_a_time() {
    let mut interpreter = Interpreter::new();
    interpreter.interpret(&print_nil());
    assert!(matches!(interpreter.mode, Mode::Running));
    assert_eq!(interpreter.tasks.len(), 1);
    // the sequence hands out its statement
    assert!(matches!(interpreter.step(Event::Nothing), Action::Continue));
    assert_eq!(interpreter.tasks.len(), 2);
    assert!(matches!(interpreter.tasks[1], Task::Execute(_)));
    // the print statement asks for its value
    assert!(matches!(interpreter.step(Event::Nothing), Action::Continue));
    assert!(matches!(interpreter.tasks[1], Task::Print));
    assert!(matches!(interpreter.tasks[2], Task::Evaluate(_)));
    // the literal is pushed
    assert!(matches!(interpreter.step(Event::Nothing), Action::Continue));
    assert!(matches!(interpreter.values[..], [Literal::Nil]));
    // and printed
    assert!(matches!(interpreter.step(Event::Nothing), Action::Print(text) if text == "nil"));
    assert!(interpreter.values.is_empty());
    // the sequence is at its end, and then nothing is left
    assert!(matches!(interpreter.step(Event::Nothing), Action::Continue));
    assert!(interpreter.tasks.is_empty());
    assert!(matches!(interpreter.step(Event::Nothing), Action::Finished(Ok(()))));
    assert!(matches!(interpreter.mode, Mode::Halted));
}

#[test]
fn run_takes_steps_until_something_is_asked() {
    let mut interpreter = Interpreter::new();
    interpreter.interpret(&print_nil());
    assert!(matches!(interpreter.run(Event::Nothing, 0), Action::Continue));
    assert_eq!(interpreter.tasks.len(), 1);
    assert!(matches!(interpreter.run(Event::Nothing, 2), Action::Continue));
    assert_eq!(interpreter.tasks.len(), 3);
    assert!(matches!(interpreter.run(Event::Nothing, 100), Action::Print(text) if text == "nil"));
    assert!(matches!(interpreter.run(Event::Nothing, 100), Action::Finished(Ok(()))));
}

#[test]
fn execute_block_runs_statements_in_a_frame_and_comes_back() {
    let mut interpreter = Interpreter::new();
    interpreter.interpret(&Rc::new(vec![]));
    let frame = interpreter.environment.new_with_enclosing(0);
    interpreter.execute_block(&print_nil(), frame);
    assert_eq!(interpreter.current, frame);
    assert!(matches!(interpreter.run(Event::Nothing, 100), Action::Print(_)));
    assert_eq!(interpreter.current, frame);
    assert!(matches!(interpreter.run(Event::Nothing, 100), Action::Finished(Ok(()))));
    assert_eq!(interpreter.current, 0);
}

#[test]
fn stringify_gives_the_display_form() {
    let interpreter = Interpreter::new();
    assert_eq!(interpreter.stringify(&Literal::Nil), "nil");
    assert_eq!(interpreter.stringify(&Literal::Boolean(true)), "true");
    assert_eq!(interpreter.stringify(&Literal::Boolean(false)), "false");
    assert_eq!(interpreter.stringify(&Literal::String("s".to_string())), "s");
    assert_eq!(
        interpreter.stringify(&Literal::NativeFunction(LoxNativeFunction { fun: Clock })),
        "<native fn>"
    );
}

#[test]
fn calling_a_function_enters_a_new_frame() {
    let mut interpreter = Interpreter::new();
    interpreter.interpret(&Rc::new(vec![]));
    let closure = interpreter.environment.new_with_enclosing(0);
    let function = LoxFunction::new(closure, &declaration("f", &["a", "b"]), false);
    interpreter.values.push(Literal::Boolean(true));
    function.call(&mut interpreter, &vec![Literal::Nil, Literal::String("x".to_string())]);
    let frame = interpreter.current;
    assert_eq!(frame, 2);
    assert_eq!(interpreter.environment.frames[frame].enclosing, Some(closure));
    assert!(matches!(interpreter.environment.get_at(frame, 0, "a"), Some(Literal::Nil)));
    assert!(matches!(interpreter.environment.get_at(frame, 0, "b"), Some(Literal::String(s)) if s == "x"));
    assert!(matches!(
        interpreter.tasks[1],
        Task::Call { previous: 0, height: 1, closure: 1, is_initialiser: false }
    ));
    assert!(matches!(interpreter.tasks[2], Task::Sequence { next: 0, .. }));
    // the empty body ends at once: the call gives nil in the frame of the caller
    assert!(matches!(interpreter.run(Event::Nothing, 2), Action::Continue));
    assert_eq!(interpreter.current, 0);
    assert!(matches!(interpreter.values[..], [Literal::Boolean(true), Literal::Nil]));
}

#[test]
fn calling_a_class_makes_an_instance() {
    let mut interpreter = Interpreter::new();
    interpreter.interpret(&Rc::new(vec![]));
    interpreter.classes.push(LoxClass::new("Plain", None, Table::new()));
    LoxClass::call(0, &mut interpreter, &vec![]);
    assert_eq!(interpreter.instances.len(), 1);
    assert_eq!(interpreter.instances[0].class, 0);
    assert!(matches!(interpreter.values[..], [Literal::Instance(0)]));
    assert_eq!(interpreter.tasks.len(), 1);

    let mut methods = Table::new();
    methods.insert("init".to_string(), 0usize);
    interpreter.functions.push(LoxFunction::new(0, &declaration("init", &["v"]), true));
    interpreter.classes.push(LoxClass::new("Made", None, methods));
    LoxClass::call(1, &mut interpreter, &vec![Literal::Boolean(false)]);
    assert_eq!(interpreter.instances.len(), 2);
    assert!(matches!(interpreter.tasks[1], Task::Construct { instance: 1 }));
    assert!(matches!(interpreter.tasks[2], Task::Call { is_initialiser: true, .. }));
    let bound = interpreter.environment.frames[interpreter.current].enclosing.unwrap();
    assert!(matches!(interpreter.environment.get_at(bound, 0, "this"), Some(Literal::Instance(1))));
    assert!(matches!(interpreter.environment.get_at(interpreter.current, 0, "v"), Some(Literal::Boolean(false))));
    assert!(matches!(interpreter.run(Event::Nothing, 3), Action::Continue));
    assert!(matches!(interpreter.values[..], [Literal::Instance(0), Literal::Instance(1)]));
}

#[test]
fn calling_the_clock_asks_the_host() {
    let mut interpreter = Interpreter::new();
    interpreter.interpret(&Rc::new(vec![]));
    assert!(matches!(Clock.call(&mut interpreter), Action::Clock));
    assert!(matches!(interpreter.mode, Mode::Awaiting(_)));
    assert!(matches!(interpreter.step(Event::Number(number(7.0))), Action::Continue));
    assert!(matches!(interpreter.values[..], [Literal::Number(n)] if n == number(7.0)));
    assert!(matches!(interpreter.mode, Mode::Running));
}
