use jlox::error::LoxError;
use jlox::number::Number;
use jlox::piece::Piece;
use jlox::scanner::{Scanned, Scanner};
use jlox::token::{Literal, Token, TokenType};

fn scan(source: &str) -> Result<Vec<Token>, LoxError> {
    let mut scanner = Scanner::new(source);
    loop {
        match scanner.scan_tokens() {
            Ok(Scanned::Number) => {
                let text = scanner.pending_number();
                let value: f64 = text.parse().unwrap();
                scanner.add_number(Number::from_bits(value.to_bits()));
            }
            Ok(Scanned::Finished) => return Ok(scanner.tokens().clone()),
            Err(e) => return Err(e),
        }
    }
}

fn written(token: &Token) -> String {
    let mut text = String::new();
    for piece in token.pieces() {
        match piece {
            Piece::Text(s) => text.push_str(&s),
            Piece::Number(n) => text.push_str(&format!("{}", f64::from_bits(n.to_bits()))),
        }
    }
    text
}

fn kinds(source: &str) -> Vec<TokenType> {
    scan(source).unwrap().iter().map(|t| *t.get_type()).collect()
}

fn lexemes(source: &str) -> Vec<String> {
    scan(source).unwrap().iter().map(|t| t.get_lexeme().clone()).collect()
}

fn failure(source: &str) -> String {
    scan(source).unwrap_err().report().unwrap()
}

#[test]
fn test_scanner() {
    let source = "-123 * (45.67)";
    let tokens = scan(source).unwrap();

    for token in &tokens {
        println!("{}", written(token));
    }
    assert_eq!(written(&tokens[0]), "Minus - None");
    assert_eq!(written(&tokens[1]), "Number 123 123");
    assert_eq!(written(&tokens[4]), "Number 45.67 45.67");
    assert_eq!(written(&tokens[6]), "Eof  None");

    let kinds: Vec<TokenType> = tokens.iter().map(|t| *t.get_type()).collect();
    assert_eq!(
        kinds,
        vec![
            TokenType::Minus,
            TokenType::Number,
            TokenType::Star,
            TokenType::LeftBracket,
            TokenType::Number,
            TokenType::RightBracket,
            TokenType::Eof,
        ]
    );
    assert_eq!(tokens[1].get_lexeme(), "123");
    assert!(matches!(tokens[1].get_literal(), Some(Literal::Number(n)) if f64::from_bits(n.to_bits()) == 123.0));
    assert_eq!(tokens[4].get_lexeme(), "45.67");
    assert!(matches!(tokens[4].get_literal(), Some(Literal::Number(n)) if f64::from_bits(n.to_bits()) == 45.67));
    assert!(tokens[0].get_literal().is_none());
    assert!(tokens.iter().all(|t| t.get_line() == 1));
}

#[test]
fn scanner_reads_every_punctuation_and_operator() {
    assert_eq!(
        kinds("( ) { } , . - + ; * / ! != = == < <= > >="),
        vec![
            TokenType::LeftBracket,
            TokenType::RightBracket,
            TokenType::LeftBrace,
            TokenType::RightBrace,
            TokenType::Comma,
            TokenType::Dot,
            TokenType::Minus,
            TokenType::Plus,
            TokenType::Semicolon,
            TokenType::Star,
            TokenType::Slash,
            TokenType::Bang,
            TokenType::BangEqual,
            TokenType::Assign,
            TokenType::EqualEqual,
            TokenType::Less,
            TokenType::LessEqual,
            TokenType::Greater,
            TokenType::GreaterEqual,
            TokenType::Eof,
        ]
    );
    assert_eq!(lexemes("!=!<=="), vec!["!=", "!", "<=", "=", ""]);
}

#[test]
fn scanner_knows_the_keywords() {
    assert_eq!(
        kinds("and class else false for fun if nil or print return super this true var while break"),
        vec![
            TokenType::And,
            TokenType::Class,
            TokenType::Else,
            TokenType::False,
            TokenType::For,
            TokenType::Fun,
            TokenType::If,
            TokenType::Nil,
            TokenType::Or,
            TokenType::Print,
            TokenType::Return,
            TokenType::Super,
            TokenType::This,
            TokenType::True,
            TokenType::Var,
            TokenType::While,
            TokenType::Break,
            TokenType::Eof,
        ]
    );
    assert_eq!(
        kinds("And classy _if or_ x1 breaks"),
        vec![
            TokenType::Identifier,
            TokenType::Identifier,
            TokenType::Identifier,
            TokenType::Identifier,
            TokenType::Identifier,
            TokenType::Identifier,
            TokenType::Eof,
        ]
    );
}

#[test]
fn scanner_reads_numbers_without_leading_or_trailing_dot() {
    assert_eq!(lexemes("12.5"), vec!["12.5", ""]);
    assert_eq!(kinds("12."), vec![TokenType::Number, TokenType::Dot, TokenType::Eof]);
    assert_eq!(kinds(".5"), vec![TokenType::Dot, TokenType::Number, TokenType::Eof]);
    assert_eq!(lexemes("1.2.3"), vec!["1.2", ".", "3", ""]);
    assert_eq!(lexemes("007"), vec!["007", ""]);
    assert_eq!(kinds("1a"), vec![TokenType::Number, TokenType::Identifier, TokenType::Eof]);
}

#[test]
fn scanner_takes_strings_as_they_are() {
    let tokens = scan("\"a\\n b\" \"\"").unwrap();
    assert_eq!(tokens.len(), 3);
    assert_eq!(tokens[0].get_lexeme(), "\"a\\n b\"");
    assert!(matches!(tokens[0].get_literal(), Some(Literal::String(s)) if s == "a\\n b"));
    assert!(matches!(tokens[1].get_literal(), Some(Literal::String(s)) if s.is_empty()));
}

#[test]
fn scanner_counts_lines() {
    let tokens = scan("a\nb // c\n\n\"x\ny\" d /* e\n\n */ f").unwrap();
    let lines: Vec<usize> = tokens.iter().map(|t| t.get_line()).collect();
    assert_eq!(lines, vec![1, 2, 5, 5, 7, 7]);
}

#[test]
fn scanner_skips_comments() {
    assert_eq!(kinds("// only a comment"), vec![TokenType::Eof]);
    assert_eq!(kinds("a // b\nc"), vec![TokenType::Identifier, TokenType::Identifier, TokenType::Eof]);
    assert_eq!(kinds("a /* b */ c"), vec![TokenType::Identifier, TokenType::Identifier, TokenType::Eof]);
    assert_eq!(kinds("/* a /* b */ c */ d"), vec![TokenType::Identifier, TokenType::Eof]);
    assert_eq!(kinds("/**/"), vec![TokenType::Eof]);
    assert_eq!(kinds("/*/ */ x"), vec![TokenType::Identifier, TokenType::Eof]);
    assert_eq!(kinds("a / b"), vec![TokenType::Identifier, TokenType::Slash, TokenType::Identifier, TokenType::Eof]);
}

#[test]
fn scanner_reports_lexical_errors() {
    assert_eq!(failure("a\n@"), "[line 2] Error: Unexpected character.");
    assert_eq!(failure("\"abc"), "[line 1] Error: Unterminated string.");
    assert_eq!(failure("\"a\nb\nc"), "[line 3] Error: Unterminated string.");
    assert_eq!(failure("/* a"), "[line 1] Error: Unterminated block comment.");
    assert_eq!(failure("/* a /* b */"), "[line 1] Error: Unterminated block comment.");
    assert_eq!(failure("/*"), "[line 1] Error: Unterminated block comment.");
    assert_eq!(failure("é"), "[line 1] Error: Unexpected character.");
}

#[test]
fn scanner_ends_with_eof_on_the_last_line() {
    let tokens = scan("").unwrap();
    assert_eq!(tokens.len(), 1);
    assert!(tokens[0].is_type(&TokenType::Eof));
    assert_eq!(tokens[0].get_line(), 1);
    let tokens = scan("a\n\n").unwrap();
    assert_eq!(tokens.last().unwrap().get_line(), 3);
}

#[test]
fn scanner_stops_at_a_number_and_goes_on() {
    let mut scanner = Scanner::new("a 12 b");
    assert!(matches!(scanner.scan_tokens(), Ok(Scanned::Number)));
    assert_eq!(scanner.pending_number(), "12");
    assert_eq!(scanner.tokens().len(), 1);
    scanner.add_number(Number::from_bits(12.0f64.to_bits()));
    assert_eq!(scanner.tokens().len(), 2);
    assert!(matches!(scanner.scan_tokens(), Ok(Scanned::Finished)));
    assert_eq!(scanner.tokens().len(), 4);
}

#[test]
fn tokens_are_written_with_kind_lexeme_and_value() {
    let tokens = scan("var s = \"hi\";").unwrap();
    let texts: Vec<String> = tokens.iter().map(written).collect();
    assert_eq!(texts, vec!["Var var None", "Identifier s None", "Assign = None", "String \"hi\" hi", "Semicolon ; None", "Eof  None"]);
    assert_eq!(TokenType::LeftBracket.to_text(), "LeftBracket");
    assert_eq!(TokenType::Break.to_text(), "Break");
}
