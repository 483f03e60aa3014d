use jlox::lox::{exit_code, Lox};
use jlox::machine::{Action, Event};
use jlox::number::Number;
use jlox::token::TokenType;

struct Outcome {
    output: Vec<String>,
    errors: Vec<String>,
    code: u8,
}

fn number(value: f64) -> Number {
    Number::from_bits(value.to_bits())
}

fn double(n: Number) -> f64 {
    f64::from_bits(n.to_bits())
}

fn run_in(lox: &mut Lox, source: &str) -> Outcome {
    let mut output = Vec::new();
    let mut action = lox.run(source);
    let mut steps = 0usize;
    loop {
        steps += 1;
        assert!(steps < 10_000_000, "the program does not end");
        let event = match action {
            Action::Finished(result) => {
                let errors = lox.errors().iter().filter_map(|e| e.report()).collect();
                return Outcome { output, errors, code: exit_code(&result) };
            }
            Action::Continue => Event::Nothing,
            Action::Print(text) => {
                output.push(text);
                Event::Nothing
            }
            Action::Parse(text) => Event::Number(number(text.parse::<f64>().unwrap())),
            Action::Arithmetic { operator, left, right } => {
                let (a, b) = (double(left), double(right));
                Event::Number(number(match operator {
                    TokenType::Plus => a + b,
                    TokenType::Minus => a - b,
                    TokenType::Star => a * b,
                    TokenType::Slash => a / b,
                    _ => unreachable!(),
                }))
            }
            Action::Format(n) => Event::Text(format!("{}", double(n))),
            Action::Clock => Event::Number(number(1234.5)),
        };
        action = lox.resume(event);
    }
}

fn run(source: &str) -> Outcome {
    run_in(&mut Lox::new(), source)
}

fn prints(source: &str, expected: &[&str]) {
    let outcome = run(source);
    assert_eq!(outcome.errors, Vec::<String>::new(), "errors of {source}");
    assert_eq!(outcome.output, expected, "output of {source}");
    assert_eq!(outcome.code, 0);
}

fn fails_at_runtime(source: &str, expected: &str) {
    let outcome = run(source);
    assert_eq!(outcome.errors, vec![expected.to_string()], "errors of {source}");
    assert_eq!(outcome.code, 70);
}

#[test]
fn test_interpreter() {
    prints("print -123 * (45.67);", &["-5617.41"]);
}

#[test]
fn test_global_variable() {
    prints("var a = 1;\nvar b = 2;\nprint a + b;", &["3"]);
}

#[test]
fn closure_reads_the_binding_of_its_creation() {
    prints(
        "var a = \"global\"; { fun show() { print a; } var a = \"local\"; show(); }",
        &["global"],
    );
}

#[test]
fn closure_keeps_its_variable_alive() {
    prints(
        "fun counter() { var n = 0; fun next() { n = n + 1; return n; } return next; }
         var c = counter(); var d = counter(); print c(); print c(); print d();",
        &["1", "2", "1"],
    );
}

#[test]
fn method_call_on_a_new_instance() {
    prints("class Greeter { greet() { print \"hi\"; } } Greeter().greet();", &["hi"]);
}

#[test]
fn superclass_initialiser_sets_the_field() {
    prints(
        "class A { init(n) { this.n = n; } } class B < A { init(n) { super.init(n); } } print B(7).n;",
        &["7"],
    );
}

#[test]
fn break_leaves_the_for_loop() {
    prints("for (var i = 0; i < 3; i = i + 1) { if (i == 2) break; print i; }", &["0", "1"]);
}

#[test]
fn break_leaves_the_innermost_loop_only() {
    prints(
        "var i = 0; while (i < 2) { var j = 0; while (true) { if (j == 2) break; j = j + 1; } print j; i = i + 1; }",
        &["2", "2"],
    );
}

#[test]
fn method_binding_keeps_this() {
    prints(
        "class C { init() { this.name = \"c\"; } who() { return this.name; } }
         var a = C(); var m = a.who; var n = a.who; print m(); print n(); print m() == n();",
        &["c", "c", "true"],
    );
}

#[test]
fn bound_methods_are_different_functions() {
    prints("class C { m() {} } var a = C(); print a.m == a.m; var f = a.m; print f == f;", &[
        "false", "true",
    ]);
}

#[test]
fn initialiser_returns_the_instance() {
    prints(
        "class P { init(x) { this.x = x; if (x > 0) return; this.x = 0 - x; } }
         var p = P(3); print p.x; var q = P(-4); print q.x; print p.init(9).x; print p.x;",
        &["3", "4", "9", "9"],
    );
}

#[test]
fn logical_operators_keep_the_deciding_value() {
    prints(
        "print \"a\" or \"b\"; print nil or \"b\"; print nil and 1; print false and 1; print 1 and 2; print false or nil; print 0 or 1;",
        &["a", "b", "nil", "false", "2", "nil", "0"],
    );
}

#[test]
fn logical_operators_do_not_evaluate_the_other_side() {
    prints(
        "var n = 0; fun bump() { n = n + 1; return true; } true or bump(); false and bump(); print n; false or bump(); true and bump(); print n;",
        &["0", "2"],
    );
}

#[test]
fn arithmetic_and_precedence() {
    prints("print 1 + 2 * 3; print (1 + 2) * 3; print 10 - 4 - 3; print 8 / 2 / 2; print -2 * -3; print 1 - -1;", &[
        "7", "9", "3", "2", "6", "2",
    ]);
}

#[test]
fn numbers_print_as_doubles_do() {
    prints("print 3; print 3.0; print 2.5; print 0.1 + 0.2; print 1 / 0; print -1 / 0; print 100 / 3;", &[
        "3",
        "3",
        "2.5",
        "0.30000000000000004",
        "inf",
        "-inf",
        "33.333333333333336",
    ]);
}

#[test]
fn division_of_zero_by_zero_is_not_a_number() {
    prints("var n = 0 / 0; print n == n; print n != n; print n < 1; print n >= 1;", &[
        "false", "true", "false", "false",
    ]);
}

#[test]
fn comparison_of_numbers() {
    prints("print 1 < 2; print 2 < 1; print 1 <= 1; print 1 > 2; print 2 >= 2; print -1 < 0; print -2 < -1; print 0 == -0;", &[
        "true", "false", "true", "false", "true", "true", "true", "true",
    ]);
}

#[test]
fn equality_never_fails() {
    prints(
        "print 1 == 1; print 1 == 2; print \"a\" == \"a\"; print \"a\" != \"b\"; print nil == nil; print nil == false; print 1 == \"1\"; print \"1\" != 1; print true == true; print clock == clock;
         fun f() {} print f == f; class C {} print C == C; var c = C(); print c == c; print c == C(); print f == C;",
        &[
            "true", "false", "true", "true", "true", "false", "false", "true", "true", "true",
            "true", "true", "true", "false", "false",
        ],
    );
}

#[test]
fn plus_joins_strings_and_numbers() {
    prints("print \"a\" + \"b\"; print \"n=\" + 1; print 2.5 + \"x\"; print \"\" + 10 / 4 + \"!\";", &[
        "ab", "n=1", "2.5x", "2.5!",
    ]);
}

#[test]
fn values_print_in_their_display_form() {
    prints(
        "print nil; print true; print false; print \"text\"; fun f() {} print f; print clock; class C {} print C; print C();",
        &["nil", "true", "false", "text", "<fn f>", "<native fn>", "C", "C instance"],
    );
}

#[test]
fn clock_is_asked_of_the_host() {
    prints("print clock(); print clock() + 0.5;", &["1234.5", "1235"]);
}

#[test]
fn variables_without_initialiser_are_nil() {
    prints("var a; print a; a = 2; print a; var a = 3; print a;", &["nil", "2", "3"]);
}

#[test]
fn assignment_is_an_expression() {
    prints("var a; var b; a = b = 4; print a; print b; print a = 5;", &["4", "4", "5"]);
}

#[test]
fn blocks_have_their_own_scope() {
    prints("var a = 1; { var a = 2; print a; { var a = 3; print a; } print a; } print a;", &[
        "2", "3", "2", "1",
    ]);
}

#[test]
fn if_and_else() {
    prints("if (1 < 2) print \"yes\"; else print \"no\"; if (nil) print \"yes\"; else print \"no\"; if (false) print \"never\"; print \"done\";", &[
        "yes", "no", "done",
    ]);
}

#[test]
fn while_loop_counts() {
    prints("var i = 0; while (i < 3) { print i; i = i + 1; }", &["0", "1", "2"]);
}

#[test]
fn for_loop_without_clauses_runs_until_break() {
    prints("var i = 0; for (;;) { i = i + 1; if (i > 2) break; } print i;", &["3"]);
}

#[test]
fn for_loop_variable_is_local_to_the_loop() {
    prints("var i = \"outer\"; for (var i = 0; i < 1; i = i + 1) print i; print i;", &["0", "outer"]);
}

#[test]
fn functions_return_values_and_nil() {
    prints(
        "fun add(a, b) { return a + b; } fun nothing() {} fun early(x) { if (x) return \"early\"; return \"late\"; }
         print add(1, 2); print nothing(); print early(true); print early(false);",
        &["3", "nil", "early", "late"],
    );
}

#[test]
fn recursion() {
    prints("fun fib(n) { if (n < 2) return n; return fib(n - 1) + fib(n - 2); } print fib(15);", &[
        "610",
    ]);
}

#[test]
fn return_leaves_loops_and_blocks() {
    prints(
        "fun find() { var i = 0; while (true) { { if (i == 3) return i; } i = i + 1; } } print find(); var a = 1; { var a = 2; } print a;",
        &["3", "1"],
    );
}

#[test]
fn arguments_are_evaluated_in_order() {
    prints(
        "fun show(x) { print x; return x; } fun three(a, b, c) { return a + b + c; } print three(show(1), show(2), show(3));",
        &["1", "2", "3", "6"],
    );
}

#[test]
fn fields_and_methods() {
    prints(
        "class Box { set(v) { this.v = v; return this; } get() { return this.v; } }
         var b = Box(); print b.set(5).get(); b.v = 6; print b.get(); b.get = 7; print b.get;",
        &["5", "6", "7"],
    );
}

#[test]
fn methods_are_inherited_and_overridden() {
    prints(
        "class A { hello() { return \"A\"; } name() { return \"a\"; } }
         class B < A { hello() { return \"B\" + super.hello(); } }
         class C < B {}
         print B().hello(); print B().name(); print C().hello();",
        &["BA", "a", "BA"],
    );
}

#[test]
fn super_calls_reach_the_superclass_of_the_defining_class() {
    prints(
        "class A { m() { return \"A\"; } } class B < A { m() { return \"B\"; } t() { return super.m(); } } class C < B { m() { return \"C\"; } }
         print C().t();",
        &["A"],
    );
}

#[test]
fn class_can_refer_to_itself_in_its_methods() {
    prints("class Node { make() { return Node(); } } print Node().make();", &["Node instance"]);
}

#[test]
fn a_return_in_an_initialiser_still_gives_the_instance() {
    prints("class K { init() { return; } } print K();", &["K instance"]);
}

#[test]
fn unary_minus_needs_a_number() {
    fails_at_runtime("print -\"a\";", "Operand must be a number.\n[line 1]");
}

#[test]
fn arithmetic_needs_numbers() {
    fails_at_runtime("print 1 - \"a\";", "Operands must be numbers.\n[line 1]");
    fails_at_runtime("print \"a\" * \"b\";", "Operands must be numbers.\n[line 1]");
    fails_at_runtime("print nil < 1;", "Operands must be numbers.\n[line 1]");
    fails_at_runtime("print \"a\" < \"b\";", "Operands must be numbers.\n[line 1]");
}

#[test]
fn plus_needs_numbers_or_strings() {
    fails_at_runtime("print nil + 1;", "Operands must be numbers.\n[line 1]");
    fails_at_runtime("\nprint true + true;", "Operands must be numbers.\n[line 2]");
    fails_at_runtime("print true + nil;", "Operands must be numbers.\n[line 1]");
    fails_at_runtime("print \"a\" + nil;", "Operands must be numbers.\n[line 1]");
    fails_at_runtime("print false + \"a\";", "Operands must be numbers.\n[line 1]");
    fails_at_runtime("fun f() {} print f + f;", "Operands must be numbers.\n[line 1]");
}

#[test]
fn both_operands_are_evaluated_before_the_operator_fails() {
    let outcome = run("fun l() { print \"left\"; return true; } fun r() { print \"right\"; return nil; } print l() + r();");
    assert_eq!(outcome.output, vec!["left".to_string(), "right".to_string()]);
    assert_eq!(outcome.errors, vec!["Operands must be numbers.\n[line 1]".to_string()]);
    assert_eq!(outcome.code, 70);
}

#[test]
fn undefined_variable_is_a_runtime_error() {
    fails_at_runtime("print a;", "Undefined variable 'a'.\n[line 1]");
    fails_at_runtime("var b;\n\na = 1;", "Undefined variable 'a'.\n[line 3]");
}

#[test]
fn only_instances_have_properties() {
    fails_at_runtime("print 1.x;", "Only instances have properties.\n[line 1]");
    fails_at_runtime("var s = \"s\"; s.x = 1;", "Only instances have fields.\n[line 1]");
    fails_at_runtime("class C {} print C().x;", "Undefined property 'x'.\n[line 1]");
    fails_at_runtime(
        "class A {} class B < A { m() { super.m(); } } B().m();",
        "Undefined property 'm'.\n[line 1]",
    );
}

#[test]
fn property_write_checks_the_object_before_the_value() {
    let outcome = run("fun side() { print \"side\"; return 1; } var n = 1; n.x = side();");
    assert_eq!(outcome.output, Vec::<String>::new());
    assert_eq!(outcome.errors, vec!["Only instances have fields.\n[line 1]".to_string()]);
}

#[test]
fn calls_check_the_callee_and_the_arity() {
    fails_at_runtime("\"text\"();", "Can only call functions and classes.\n[line 1]");
    fails_at_runtime("fun f(a, b) {} f(1);", "Expected 2 arguments but got 1.\n[line 1]");
    fails_at_runtime("fun f() {}\nf(1, 2, 3);", "Expected 0 arguments but got 3.\n[line 2]");
    fails_at_runtime("class C { init(a) {} } C();", "Expected 1 arguments but got 0.\n[line 1]");
    fails_at_runtime("class C {} C(1);", "Expected 0 arguments but got 1.\n[line 1]");
    fails_at_runtime("clock(1);", "Expected 0 arguments but got 1.\n[line 1]");
}

#[test]
fn superclass_must_be_a_class() {
    fails_at_runtime("var NotAClass = 1; class C < NotAClass {}", "Superclass must be a class.\n[line 1]");
}

#[test]
fn a_runtime_error_stops_the_program() {
    let outcome = run("print 1; print -nil; print 2;");
    assert_eq!(outcome.output, vec!["1".to_string()]);
    assert_eq!(outcome.errors, vec!["Operand must be a number.\n[line 1]".to_string()]);
    assert_eq!(outcome.code, 70);
}

#[test]
fn side_effects_happen_from_left_to_right() {
    prints(
        "fun a() { print \"a\"; return 1; } fun b() { print \"b\"; return 2; } print a() + b(); print a() < b();",
        &["a", "b", "3", "a", "b", "true"],
    );
}

#[test]
fn lexical_errors_are_reported_with_their_line() {
    let outcome = run("var a = 1;\nvar b = #;");
    assert_eq!(outcome.errors, vec!["[line 2] Error: Unexpected character.".to_string()]);
    assert_eq!(outcome.code, 65);
    assert_eq!(outcome.output, Vec::<String>::new());
    let outcome = run("print \"open\nstill open");
    assert_eq!(outcome.errors, vec!["[line 2] Error: Unterminated string.".to_string()]);
    let outcome = run("/* one /* two */ still one\n");
    assert_eq!(outcome.errors, vec!["[line 2] Error: Unterminated block comment.".to_string()]);
}

#[test]
fn syntax_errors_prevent_the_run() {
    let outcome = run("print 1; print ;");
    assert_eq!(outcome.output, Vec::<String>::new());
    assert_eq!(outcome.errors, vec!["[line 1] Error at ';': Expect expression.".to_string()]);
    assert_eq!(outcome.code, 65);
}

#[test]
fn every_statement_reports_its_own_syntax_error() {
    let outcome = run("var 1 = 2;\nprint 3;\nprint (4;\nvar ok = 5;\nfoo(;\nprint");
    assert_eq!(
        outcome.errors,
        vec![
            "[line 1] Error at '1': Expect variable name.".to_string(),
            "[line 3] Error at ';': Expect ')' after expression.".to_string(),
            "[line 5] Error at ';': Expect expression.".to_string(),
            "[line 6] Error at end: Expect expression.".to_string(),
        ]
    );
    assert_eq!(outcome.code, 65);
}

#[test]
fn invalid_assignment_target_is_reported_and_parsing_goes_on() {
    let outcome = run("1 = 2; print ;");
    assert_eq!(
        outcome.errors,
        vec![
            "[line 1] Error at '=': Invalid assignment target.".to_string(),
            "[line 1] Error at ';': Expect expression.".to_string(),
        ]
    );
}

#[test]
fn break_outside_a_loop_is_a_syntax_error() {
    let outcome = run("break;");
    assert_eq!(
        outcome.errors,
        vec!["[line 1] Error at 'break': Must be inside a loop to use 'break'.".to_string()]
    );
    assert_eq!(outcome.code, 65);
    prints("while (true) { break; } print \"out\";", &["out"]);
}

#[test]
fn resolver_errors_prevent_the_run() {
    let cases = [
        ("{ var a = a; }", "[line 1] Error at 'a': Can't read local variable in its own initialiser."),
        ("{ var a = 1; var a = 2; }", "[line 1] Error at 'a': Already a variable with this name in this scope."),
        ("return 1;", "[line 1] Error at 'return': Can't return from top-level code."),
        ("class C { init() { return 1; } }", "[line 1] Error at 'return': Can't return a value from an initializer."),
        ("print this;", "[line 1] Error at 'this': Can't use 'this' outside of a class."),
        ("fun f() { this; }", "[line 1] Error at 'this': Can't use 'this' outside of a class."),
        ("super.m();", "[line 1] Error at 'super': Can't use 'super' outside of a class."),
        ("class C { m() { super.m(); } }", "[line 1] Error at 'super': Can't use 'super' in a class with no superclass."),
        ("class C < C {}", "[line 1] Error at 'C': A class can't inherit from itself."),
    ];
    for (source, expected) in cases {
        let outcome = run(&format!("print \"ran\"; {source}"));
        assert_eq!(outcome.errors, vec![expected.to_string()], "errors of {source}");
        assert_eq!(outcome.output, Vec::<String>::new(), "output of {source}");
        assert_eq!(outcome.code, 65);
    }
}

#[test]
fn global_redeclaration_is_allowed() {
    prints("var a = 1; var a = 2; print a; fun a() {} print a;", &["2", "<fn a>"]);
}

#[test]
fn all_resolver_errors_of_a_program_are_reported() {
    let outcome = run("return 1;\nprint this;\n{ var a = 1; var a = 2; }");
    assert_eq!(
        outcome.errors,
        vec![
            "[line 1] Error at 'return': Can't return from top-level code.".to_string(),
            "[line 2] Error at 'this': Can't use 'this' outside of a class.".to_string(),
            "[line 3] Error at 'a': Already a variable with this name in this scope.".to_string(),
        ]
    );
}

#[test]
fn comments_are_skipped() {
    prints("// nothing\nprint 1; /* a /* nested */ comment\n */ print 2; // end", &["1", "2"]);
}

#[test]
fn strings_may_span_lines() {
    let outcome = run("print \"a\nb\";\nprint c;");
    assert_eq!(outcome.output, vec!["a\nb".to_string()]);
    assert_eq!(outcome.errors, vec!["Undefined variable 'c'.\n[line 3]".to_string()]);
}

#[test]
fn one_lox_runs_several_programs() {
    let mut lox = Lox::new();
    let first = run_in(&mut lox, "var a = 1; fun show() { var local = a; print local; } class C { m() { return this; } }");
    assert_eq!(first.errors, Vec::<String>::new());
    let second = run_in(&mut lox, "{ var b = 5; print b; } show(); a = 2; show(); print C().m();");
    assert_eq!(second.output, vec!["5", "1", "2", "C instance"]);
    let third = run_in(&mut lox, "print nope;");
    assert_eq!(third.code, 70);
    let fourth = run_in(&mut lox, "print a; print ;");
    assert_eq!(fourth.code, 65);
    assert_eq!(fourth.errors.len(), 1);
    let fifth = run_in(&mut lox, "show();");
    assert_eq!(fifth.output, vec!["2"]);
    assert_eq!(fifth.errors, Vec::<String>::new());
}

#[test]
fn exit_codes() {
    assert_eq!(run("print 1;").code, 0);
    assert_eq!(run("print 1").code, 65);
    assert_eq!(run("{ var a = a; }").code, 65);
    assert_eq!(run("print \"open").code, 65);
    assert_eq!(run("print nil + 1;").code, 70);
    assert_eq!(run("").code, 0);
}

#[test]
fn a_wrong_answer_of_the_host_ends_the_run() {
    let mut lox = Lox::new();
    let action = lox.run("print 1;");
    assert!(matches!(action, Action::Parse(ref text) if text == "1"));
    let action = lox.resume(Event::Text("one".to_string()));
    assert!(matches!(action, Action::Finished(Err(_))));
    assert!(matches!(lox.resume(Event::Nothing), Action::Finished(Ok(()))));
}

#[test]
fn a_clock_that_fails_is_an_error() {
    let mut lox = Lox::new();
    let mut action = lox.run("clock();");
    let mut asked = false;
    for _ in 0..100 {
        action = match action {
            Action::Clock => {
                asked = true;
                lox.resume(Event::Failed)
            }
            Action::Finished(result) => {
                assert!(asked);
                assert!(result.is_err());
                assert_eq!(lox.errors()[0].report().unwrap(), "SYSTEM CLOCK ERROR.");
                return;
            }
            _ => lox.resume(Event::Nothing),
        };
    }
    panic!("the program does not end");
}

#[test]
fn a_long_loop_runs_to_its_end() {
    prints(
        "var sum = 0; for (var i = 0; i < 20000; i = i + 1) { var double = i * 2; sum = sum + double; } print sum;",
        &["399980000"],
    );
}

#[test]
fn closures_in_a_loop_capture_their_own_variable() {
    prints(
        "var first; var second;
         for (var i = 0; i < 2; i = i + 1) { var j = i; fun show() { return j; } if (i == 0) first = show; else second = show; }
         print first(); print second();",
        &["0", "1"],
    );
}

#[test]
fn this_is_seen_in_functions_inside_methods() {
    prints(
        "class Counter { init() { this.n = 0; } adder() { fun add(k) { this.n = this.n + k; return this.n; } return add; } }
         var c = Counter(); var add = c.adder(); add(2); print add(3); print c.n;",
        &["5", "5"],
    );
}

#[test]
fn methods_print_as_functions() {
    prints("class C { method() {} } print C().method;", &["<fn method>"]);
    fails_at_runtime("class C { method() {} } print C.method;", "Only instances have properties.\n[line 1]");
}

#[test]
fn parameters_shadow_outer_variables() {
    prints("var a = \"outer\"; fun f(a) { a = a + \"!\"; return a; } print f(\"inner\"); print a;", &[
        "inner!", "outer",
    ]);
}

#[test]
fn deep_recursion_needs_no_deep_stack() {
    prints("fun down(n) { if (n == 0) return \"done\"; return down(n - 1); } print down(5000);", &["done"]);
}

#[test]
fn a_break_inside_a_called_function_ends_the_enclosing_loop() {
    prints(
        "var n = 0; while (true) { fun stop() { break; } n = n + 1; if (n == 3) stop(); } print n;",
        &["3"],
    );
}

#[test]
fn an_error_inside_calls_and_blocks_leaves_the_interpreter_usable() {
    let mut lox = Lox::new();
    let first = run_in(&mut lox, "var g = 1; fun f() { { var x = nil; return -x; } } f();");
    assert_eq!(first.code, 70);
    let second = run_in(&mut lox, "print g; { var y = 2; print y; }");
    assert_eq!(second.output, vec!["1", "2"]);
    assert_eq!(second.code, 0);
}

#[test]
fn a_lox_stays_valid() {
    let mut lox = Lox::new();
    assert!(lox.is_valid());
    assert!(lox.errors().is_empty());
    run_in(&mut lox, "print 1 +;");
    assert!(lox.is_valid());
    assert_eq!(lox.errors().len(), 1);
    run_in(&mut lox, "print 2;");
    assert!(lox.is_valid());
    assert!(lox.errors().is_empty());
}
