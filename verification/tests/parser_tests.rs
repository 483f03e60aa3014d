use jlox::ast_printer::AstPrinter;
use jlox::piece::Piece;
use jlox::error::LoxError;
use jlox::number::Number;
use jlox::parser::Parser;
use jlox::scanner::{Scanned, Scanner};
use jlox::stmt::Stmt;
use jlox::token::{Token, TokenType};

fn scan(source: &str) -> Vec<Token> {
    let mut scanner = Scanner::new(source);
    loop {
        match scanner.scan_tokens() {
            Ok(Scanned::Number) => {
                let text = scanner.pending_number();
                let value: f64 = text.parse().unwrap();
                scanner.add_number(Number::from_bits(value.to_bits()));
            }
            Ok(Scanned::Finished) => return scanner.tokens().clone(),
            Err(_) => panic!("the source does not scan"),
        }
    }
}

fn parse(source: &str) -> (Result<Vec<Stmt>, LoxError>, Vec<String>) {
    let tokens = scan(source);
    let mut parser = Parser::new(&tokens);
    let result = parser.parse();
    assert_eq!(result.is_err(), parser.had_error());
    let errors = parser.errors().iter().filter_map(|e| e.report()).collect();
    (result, errors)
}

fn joined(pieces: &[Piece]) -> String {
    let mut text = String::new();
    for piece in pieces {
        match piece {
            Piece::Text(s) => text.push_str(s),
            Piece::Number(n) => text.push_str(&format!("{}", f64::from_bits(n.to_bits()))),
        }
    }
    text
}

/// The expression of the expression statement `source;`, in prefix form.
fn expression(source: &str) -> String {
    let (result, errors) = parse(&format!("{source};"));
    assert_eq!(errors, Vec::<String>::new());
    let statements = result.unwrap();
    assert_eq!(statements.len(), 1);
    match &statements[0] {
        Stmt::Expression(s) => joined(&AstPrinter.print(&s.expression)),
        _ => panic!("not an expression statement"),
    }
}

fn errors(source: &str) -> Vec<String> {
    let (result, errors) = parse(source);
    assert!(result.is_err());
    errors
}

#[test]
fn parser_follows_the_precedence_of_operators() {
    assert_eq!(expression("1 + 2 * 3"), "(+ 1 (* 2 3))");
    assert_eq!(expression("1 * 2 + 3"), "(+ (* 1 2) 3)");
    assert_eq!(expression("1 < 2 == 3 > 4"), "(== (< 1 2) (> 3 4))");
    assert_eq!(expression("a or b and c"), "(or a (and b c))");
    assert_eq!(expression("a and b or c"), "(or (and a b) c)");
    assert_eq!(expression("a == b and c != d"), "(and (== a b) (!= c d))");
    assert_eq!(expression("-a * b"), "(* (- a) b)");
    assert_eq!(expression("!a == b"), "(== (! a) b)");
    assert_eq!(expression("1 + 2 <= 3 - 4"), "(<= (+ 1 2) (- 3 4))");
    assert_eq!(expression("(1 + 2) * 3"), "(* (group (+ 1 2)) 3)");
}

#[test]
fn parser_groups_binary_operators_to_the_left() {
    assert_eq!(expression("1 - 2 - 3"), "(- (- 1 2) 3)");
    assert_eq!(expression("1 + 2 - 3 + 4"), "(+ (- (+ 1 2) 3) 4)");
    assert_eq!(expression("8 / 4 / 2"), "(/ (/ 8 4) 2)");
    assert_eq!(expression("a or b or c"), "(or (or a b) c)");
    assert_eq!(expression("1 < 2 < 3"), "(< (< 1 2) 3)");
}

#[test]
fn parser_groups_assignment_and_unary_to_the_right() {
    assert_eq!(expression("a = b = c"), "(= a (= b c))");
    assert_eq!(expression("!!a"), "(! (! a))");
    assert_eq!(expression("- -a"), "(- (- a))");
    assert_eq!(expression("a = b or c"), "(= a (or b c))");
}

#[test]
fn parser_reads_calls_and_properties() {
    assert_eq!(expression("f()"), "(call f)");
    assert_eq!(expression("f(1, a)(2)"), "(call (call f 1 a) 2)");
    assert_eq!(expression("a.b.c"), "(. c (. b a))");
    assert_eq!(expression("a.b(1).c"), "(. c (call (. b a) 1))");
    assert_eq!(expression("a.b = 1"), "(= b a 1)");
    assert_eq!(expression("a.b.c = d"), "(= c (. b a) d)");
    assert_eq!(expression("-f(1)"), "(- (call f 1))");
}

#[test]
fn parser_reads_primaries() {
    assert_eq!(expression("true"), "true");
    assert_eq!(expression("false"), "false");
    assert_eq!(expression("nil"), "nil");
    assert_eq!(expression("12.5"), "12.5");
    assert_eq!(expression("\"text\""), "text");
    assert_eq!(expression("this"), "this");
    assert_eq!(expression("super.method"), "(super method)");
    assert_eq!(expression("name"), "name");
    assert_eq!(expression("(nil)"), "(group nil)");
}

#[test]
fn parser_reads_the_statements() {
    let (result, errors) = parse(
        "var a; var b = 1; print b; { a; } if (a) b; else a; while (a) b; fun f(x, y) { return x; } class C < B { m() {} } return; a;",
    );
    assert_eq!(errors, Vec::<String>::new());
    let statements = result.unwrap();
    assert!(matches!(&statements[0], Stmt::Var(s) if s.name.get_lexeme() == "a" && s.initialiser.is_none()));
    assert!(matches!(&statements[1], Stmt::Var(s) if s.name.get_lexeme() == "b" && s.initialiser.is_some()));
    assert!(matches!(&statements[2], Stmt::Print(_)));
    assert!(matches!(&statements[3], Stmt::Block(s) if s.statements.len() == 1));
    assert!(matches!(&statements[4], Stmt::If(s) if s.else_branch.is_some()));
    assert!(matches!(&statements[5], Stmt::While(_)));
    assert!(matches!(&statements[6], Stmt::Function(s) if s.name.get_lexeme() == "f" && s.params.len() == 2 && s.body.len() == 1));
    assert!(matches!(&statements[7], Stmt::Class(s) if s.name.get_lexeme() == "C" && s.superclass.is_some() && s.methods.len() == 1));
    assert!(matches!(&statements[8], Stmt::Return(s) if s.value.is_none() && s.keyword.is_type(&TokenType::Return)));
    assert!(matches!(&statements[9], Stmt::Expression(_)));
    assert_eq!(statements.len(), 10);
}

#[test]
fn parser_turns_for_into_while() {
    let (result, _) = parse("for (var i = 0; i < 3; i = i + 1) print i;");
    let statements = result.unwrap();
    assert_eq!(statements.len(), 1);
    let Stmt::Block(outer) = &statements[0] else { panic!("no block") };
    assert_eq!(outer.statements.len(), 2);
    assert!(matches!(&*outer.statements[0], Stmt::Var(_)));
    let Stmt::While(looped) = &*outer.statements[1] else { panic!("no loop") };
    assert_eq!(joined(&AstPrinter.print(&looped.condition)), "(< i 3)");
    let Stmt::Block(body) = &*looped.body else { panic!("no body block") };
    assert_eq!(body.statements.len(), 2);
    assert!(matches!(&*body.statements[0], Stmt::Print(_)));
    let Stmt::Expression(step) = &*body.statements[1] else { panic!("no increment") };
    assert_eq!(joined(&AstPrinter.print(&step.expression)), "(= i (+ i 1))");

    let (result, _) = parse("for (;;) print 1;");
    let statements = result.unwrap();
    let Stmt::While(looped) = &statements[0] else { panic!("no loop") };
    assert_eq!(joined(&AstPrinter.print(&looped.condition)), "true");
    assert!(matches!(&*looped.body, Stmt::Print(_)));

    let (result, _) = parse("for (i = 0; ; ) {}");
    let statements = result.unwrap();
    let Stmt::Block(outer) = &statements[0] else { panic!("no block") };
    assert!(matches!(&*outer.statements[0], Stmt::Expression(_)));
    assert!(matches!(&*outer.statements[1], Stmt::While(_)));
}

#[test]
fn parser_gives_every_variable_use_its_own_identity() {
    let (result, _) = parse("a; a; this; super.m; b = a;");
    let statements = result.unwrap();
    let mut ids = Vec::new();
    for statement in &statements {
        let Stmt::Expression(s) = statement else { panic!("no expression") };
        match &*s.expression {
            jlox::expr::Expr::Variable(e) => ids.push(e.id),
            jlox::expr::Expr::This(e) => ids.push(e.id),
            jlox::expr::Expr::Super(e) => ids.push(e.id),
            jlox::expr::Expr::Assign(e) => {
                ids.push(e.id);
                if let jlox::expr::Expr::Variable(v) = &*e.value {
                    ids.push(v.id);
                }
            }
            _ => panic!("no variable use"),
        }
    }
    let mut sorted = ids.clone();
    sorted.sort();
    sorted.dedup();
    assert_eq!(sorted.len(), ids.len());
    assert_eq!(ids.len(), 6);
}

#[test]
fn parser_reports_what_it_expects() {
    let cases = [
        ("class {}", "[line 1] Error at '{': Expect class name."),
        ("class A < {}", "[line 1] Error at '{': Expect superclass name."),
        ("class A }", "[line 1] Error at '}': Expect '{' before class body."),
        ("class A { m() {}", "[line 1] Error at end: Expect '}' after class body."),
        ("class A { 1 }", "[line 1] Error at '1': Expect method name."),
        ("class A { m {} }", "[line 1] Error at '{': Expect '(' after method name."),
        ("class A { m() 1 }", "[line 1] Error at '1': Expect '{' before method body."),
        ("while (true) break", "[line 1] Error at end: Expect ';' after 'break'."),
        ("for x", "[line 1] Error at 'x': Expect '(' after 'for'."),
        ("for (;1 2", "[line 1] Error at '2': Expect ';' after loop condition."),
        ("for (;;1 {", "[line 1] Error at '{': Expect ')' after for clauses."),
        ("if x", "[line 1] Error at 'x': Expect '(' after 'if'."),
        ("if (x y", "[line 1] Error at 'y': Expect ')' after if condition."),
        ("print 1", "[line 1] Error at end: Expect ';' after value."),
        ("fun f() { return 1 }", "[line 1] Error at '}': Expect ';' after return value."),
        ("var 1;", "[line 1] Error at '1': Expect variable name."),
        ("var a = 1", "[line 1] Error at end: Expect ';' after variable declaration."),
        ("while x", "[line 1] Error at 'x': Expect '(' after 'while'."),
        ("while (x {", "[line 1] Error at '{': Expect ')' after condition."),
        ("1 + 2", "[line 1] Error at end: Expect ';' after expression."),
        ("fun () {}", "[line 1] Error at '(': Expect function name."),
        ("fun f {}", "[line 1] Error at '{': Expect '(' after function name."),
        ("fun f(1) {}", "[line 1] Error at '1': Expect parameter name."),
        ("fun f(a, ) {}", "[line 1] Error at ')': Expect parameter name."),
        ("fun f(a b) {}", "[line 1] Error at 'b': Expect ')' after parameters."),
        ("fun f() 1", "[line 1] Error at '1': Expect '{' before function body."),
        ("{ 1;", "[line 1] Error at end: Expect '}' after block."),
        ("f(1 2);", "[line 1] Error at '2': Expect ')' after arguments."),
        ("a.;", "[line 1] Error at ';': Expect property name after '.'."),
        ("super;", "[line 1] Error at ';': Expect '.' after 'super'."),
        ("super.;", "[line 1] Error at ';': Expect superclass method name."),
        ("(1;", "[line 1] Error at ';': Expect ')' after expression."),
        ("+;", "[line 1] Error at '+': Expect expression."),
        ("", ""),
    ];
    for (source, expected) in cases {
        if source.is_empty() {
            continue;
        }
        assert_eq!(errors(source), vec![expected.to_string()], "errors of {source}");
    }
}

#[test]
fn parser_recovers_at_the_next_statement() {
    assert_eq!(
        errors("print (1; print 2; var = 3; print 4; x +;"),
        vec![
            "[line 1] Error at ';': Expect ')' after expression.".to_string(),
            "[line 1] Error at '=': Expect variable name.".to_string(),
            "[line 1] Error at ';': Expect expression.".to_string(),
        ]
    );
    assert_eq!(
        errors("1 2 3 var ok = 1; ) print 1 fun f"),
        vec![
            "[line 1] Error at '2': Expect ';' after expression.".to_string(),
            "[line 1] Error at ')': Expect expression.".to_string(),
            "[line 1] Error at 'fun': Expect ';' after value.".to_string(),
        ]
    );
}

#[test]
fn parser_keeps_the_statements_that_parse() {
    let tokens = scan("print 1; print; print 2;");
    let mut parser = Parser::new(&tokens);
    assert!(parser.parse().is_err());
    assert!(parser.had_error());
    assert_eq!(parser.errors().len(), 1);
}

#[test]
fn parser_limits_arguments_and_parameters() {
    let arguments = vec!["a"; 255].join(", ");
    let (result, errors) = parse(&format!("f({arguments});"));
    assert!(result.is_ok());
    assert_eq!(errors, Vec::<String>::new());
    let (result, errors) = parse(&format!("f({arguments}, b, c); print 1"));
    assert!(result.is_err());
    assert_eq!(
        errors,
        vec![
            "[line 1] Error at 'b': Can't have more than 255 arguments.".to_string(),
            "[line 1] Error at 'c': Can't have more than 255 arguments.".to_string(),
            "[line 1] Error at end: Expect ';' after value.".to_string(),
        ]
    );
    let (result, errors) = parse(&format!("fun f({arguments}) {{}}"));
    assert!(result.is_ok());
    assert_eq!(errors, Vec::<String>::new());
    let (result, errors) = parse(&format!("fun f({arguments}, b) {{}}"));
    assert!(result.is_err());
    assert_eq!(errors, vec!["[line 1] Error at 'b': Can't have more than 255 parameters.".to_string()]);
}

#[test]
fn parser_allows_break_in_loops_only() {
    assert!(parse("while (true) break;").0.is_ok());
    assert!(parse("for (;;) { if (true) break; }").0.is_ok());
    assert!(parse("while (true) { fun f() { break; } }").0.is_ok());
    assert_eq!(
        errors("break; while (true) {} break;"),
        vec![
            "[line 1] Error at 'break': Must be inside a loop to use 'break'.".to_string(),
            "[line 1] Error at 'break': Must be inside a loop to use 'break'.".to_string(),
        ]
    );
    assert_eq!(
        errors("while (true) print; break;"),
        vec![
            "[line 1] Error at ';': Expect expression.".to_string(),
            "[line 1] Error at 'break': Must be inside a loop to use 'break'.".to_string(),
        ]
    );
}

#[test]
fn parser_reports_invalid_assignment_targets_and_goes_on() {
    assert_eq!(
        errors("a + b = c; (a) = 1; f() = 2;"),
        vec![
            "[line 1] Error at '=': Invalid assignment target.".to_string(),
            "[line 1] Error at '=': Invalid assignment target.".to_string(),
            "[line 1] Error at '=': Invalid assignment target.".to_string(),
        ]
    );
}

#[test]
fn failure_of_parsing_is_a_parse_error_without_text() {
    let (result, _) = parse("print");
    let error = result.unwrap_err();
    assert!(!error.is_runtime_error());
    assert!(!error.is_break());
    assert!(!error.is_return());
    assert_eq!(error.report().unwrap(), "[line 0] Error at end: ");
}

#[test]
fn parser_numbers_variable_uses_from_the_first_identity() {
    let tokens = scan("a; b;");
    let mut parser = Parser::new_from(&tokens, 40);
    let statements = parser.parse().unwrap();
    assert_eq!(parser.next_id(), 42);
    let Stmt::Expression(first) = &statements[0] else { panic!("no expression") };
    assert!(matches!(&*first.expression, jlox::expr::Expr::Variable(v) if v.id == 40));
    let Stmt::Expression(second) = &statements[1] else { panic!("no expression") };
    assert!(matches!(&*second.expression, jlox::expr::Expr::Variable(v) if v.id == 41));
    let mut plain = Parser::new(&tokens);
    assert!(plain.parse().is_ok());
    assert_eq!(plain.next_id(), 2);
}

#[test]
fn parser_reads_to_the_end_and_reports_each_failed_statement() {
    // statements 1 and 3 fail; the first is followed by a semicolon, and
    // parsing goes on with statement 2
    let tokens = scan("var = 1; print 2; print (3; print 4;");
    let mut parser = Parser::new(&tokens);
    assert!(parser.parse().is_err());
    assert_eq!(parser.errors().len(), 2);
    assert_eq!(parser.current, tokens.len() - 1);
    assert!(tokens[parser.current].is_type(&TokenType::Eof));
    let reports: Vec<String> = parser.errors().iter().filter_map(|e| e.report()).collect();
    assert_eq!(
        reports,
        vec![
            "[line 1] Error at '=': Expect variable name.".to_string(),
            "[line 1] Error at ';': Expect ')' after expression.".to_string(),
        ]
    );
    // a statement keyword ends the recovery as well
    let tokens = scan("print 1 2 3 var x = ; print 5;");
    let mut parser = Parser::new(&tokens);
    assert!(parser.parse().is_err());
    assert_eq!(parser.errors().len(), 2);
    assert!(tokens[parser.current].is_type(&TokenType::Eof));
}
