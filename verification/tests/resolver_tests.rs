use std::collections::HashMap;
use std::rc::Rc;

use jlox::number::Number;
use jlox::parser::Parser;
use jlox::resolver::Resolver;
use jlox::scanner::{Scanned, Scanner};
use jlox::stmt::{shared, Stmt};
use jlox::token::Token;

fn scan(source: &str) -> Vec<Token> {
    let mut scanner = Scanner::new(source);
    loop {
        match scanner.scan_tokens() {
            Ok(Scanned::Number) => {
                let text = scanner.pending_number();
                let value: f64 = text.parse().unwrap();
                scanner.add_number(Number::from_bits(value.to_bits()));
            }
            Ok(Scanned::Finished) => return scanner.tokens().clone(),
            Err(_) => panic!("the source does not scan"),
        }
    }
}

fn parse(source: &str) -> Rc<Vec<Rc<Stmt>>> {
    let tokens = scan(source);
    let mut parser = Parser::new(&tokens);
    shared(&parser.parse().unwrap())
}

fn resolve(source: &str) -> (HashMap<usize, usize>, Vec<String>) {
    let statements = parse(source);
    let mut resolver = Resolver::new();
    let result = resolver.resolve(&statements);
    assert_eq!(result.is_err(), !resolver.errors().is_empty());
    let errors = resolver.errors().iter().filter_map(|e| e.report()).collect();
    (resolver.locals().clone(), errors)
}

fn distances(source: &str) -> Vec<Option<usize>> {
    let (locals, errors) = resolve(source);
    assert_eq!(errors, Vec::<String>::new());
    let uses = locals.keys().copied().max().map_or(0, |m| m + 1);
    (0..uses).map(|id| locals.get(&id).copied()).collect()
}

#[test]
fn globals_get_no_distance() {
    assert_eq!(distances("var a = 1; print a; a = 2; fun f() {} f();"), Vec::<Option<usize>>::new());
}

#[test]
fn locals_get_the_number_of_scopes_between_use_and_declaration() {
    // uses, in order: a (global), b, b, a (global), and the assignment to
    // c, which has the identity after that of its target
    assert_eq!(
        distances("var a = 1; { var b = a; print b; { print b; print a; var c; c = 1; } }"),
        vec![None, Some(0), Some(1), None, None, Some(0)]
    );
}

#[test]
fn parameters_and_body_share_one_scope() {
    // uses: x, y, x
    assert_eq!(
        distances("fun f(x) { var y = x; { print y; } print x; }"),
        vec![Some(0), Some(1), Some(0)]
    );
}

#[test]
fn a_closure_resolves_to_the_declaration_before_it() {
    // uses: a in show (global, as the local a is declared later), show
    assert_eq!(
        distances("var a = \"global\"; { fun show() { print a; } var a = \"local\"; show(); }"),
        vec![None, Some(0)]
    );
}

#[test]
fn this_and_super_have_their_own_scopes() {
    // uses: A (superclass, global), this in m, super in m, this inside a block of m
    assert_eq!(
        distances("class A {} class B < A { m() { this; super.m; { this; } } }"),
        vec![None, Some(1), Some(2), Some(2)]
    );
    // without a superclass there is no scope of super
    assert_eq!(distances("class A { m() { this; fun inner() { this; } } }"), vec![Some(1), Some(2)]);
}

#[test]
fn resolving_twice_gives_the_same_distances() {
    let source = "var a; { var b = a; fun f(x) { return x + b; } class C < a { init() { this.b = b; super.init(); } } }";
    let first = resolve(source);
    let second = resolve(source);
    assert_eq!(first, second);
    let statements = parse(source);
    let mut one = Resolver::new();
    let mut two = Resolver::new();
    assert!(one.resolve(&statements).is_ok());
    assert!(two.resolve(&statements).is_ok());
    assert_eq!(one.locals(), two.locals());
    assert!(!one.locals().is_empty());
}

#[test]
fn resolver_reports_every_rule_that_is_broken() {
    let (_, errors) = resolve(
        "{ var a = a; }\n{ var b; var b; }\nreturn;\nclass C { init() { return 1; } m() { return 1; } }\nthis;\nsuper.x;\nclass D { m() { super.m; } }\nclass E < E {}\nfun f(p, p) {}",
    );
    assert_eq!(
        errors,
        vec![
            "[line 1] Error at 'a': Can't read local variable in its own initialiser.".to_string(),
            "[line 2] Error at 'b': Already a variable with this name in this scope.".to_string(),
            "[line 3] Error at 'return': Can't return from top-level code.".to_string(),
            "[line 4] Error at 'return': Can't return a value from an initializer.".to_string(),
            "[line 5] Error at 'this': Can't use 'this' outside of a class.".to_string(),
            "[line 6] Error at 'super': Can't use 'super' outside of a class.".to_string(),
            "[line 7] Error at 'super': Can't use 'super' in a class with no superclass.".to_string(),
            "[line 8] Error at 'E': A class can't inherit from itself.".to_string(),
            "[line 9] Error at 'p': Already a variable with this name in this scope.".to_string(),
        ]
    );
}

#[test]
fn resolver_allows_what_the_rules_allow() {
    for source in [
        "var a = 1; var a = a;",
        "fun f() { return; } fun g() { return 1; }",
        "class C { init() { return; } m() { return this; } }",
        "class A {} class B < A { m() { return super.m; } }",
        "{ var a; { var a; } }",
        "fun f(a) { { var a; } }",
    ] {
        let (_, errors) = resolve(source);
        assert_eq!(errors, Vec::<String>::new(), "errors of {source}");
    }
}

#[test]
fn resolver_adds_to_the_distances_it_was_given() {
    let mut given = HashMap::new();
    given.insert(100, 7);
    let statements = parse("{ var a; a; }");
    let mut resolver = Resolver::with_locals(given);
    assert!(resolver.resolve(&statements).is_ok());
    assert_eq!(resolver.locals().get(&100), Some(&7));
    assert_eq!(resolver.locals().get(&0), Some(&0));
    assert_eq!(resolver.locals().len(), 2);
}

#[test]
fn a_second_pass_leaves_the_distances_as_they_were() {
    let source = "var a; { var b = a; fun f(x) { return x + b; } class C < a { init() { this.b = b; super.init(); } } }";
    let statements = parse(source);
    let mut resolver = Resolver::new();
    assert!(resolver.resolve(&statements).is_ok());
    let first = resolver.locals().clone();
    assert!(!first.is_empty());
    assert!(resolver.resolve(&statements).is_ok());
    assert_eq!(*resolver.locals(), first);
    let mut given = Resolver::with_locals(first.clone());
    assert!(given.resolve(&statements).is_ok());
    assert_eq!(*given.locals(), first);
}

#[test]
fn a_second_pass_reports_the_same_errors_again() {
    let statements = parse("{ var a = 1; var a = 2; print a; } return;");
    let mut resolver = Resolver::new();
    assert!(resolver.resolve(&statements).is_err());
    let first = resolver.locals().clone();
    assert_eq!(resolver.errors().len(), 2);
    assert!(resolver.resolve(&statements).is_err());
    assert_eq!(*resolver.locals(), first);
    assert_eq!(resolver.errors().len(), 4);
    let mut other = Resolver::with_locals(first.clone());
    assert!(other.resolve(&statements).is_err());
    assert_eq!(other.errors().len(), 2);
    assert_eq!(*other.locals(), first);
}
