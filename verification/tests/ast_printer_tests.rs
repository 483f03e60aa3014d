use std::rc::Rc;

use jlox::ast_printer::AstPrinter;
use jlox::piece::Piece;
use jlox::expr::{BinaryExpr, Expr, GroupingExpr, LiteralExpr, UnaryExpr, VariableExpr};
use jlox::number::Number;
use jlox::token::{Literal, Token, TokenType};

fn number(value: f64) -> Number {
    Number::from_bits(value.to_bits())
}

fn joined(pieces: &[Piece]) -> String {
    let mut text = String::new();
    for piece in pieces {
        match piece {
            Piece::Text(s) => text.push_str(s),
            Piece::Number(n) => text.push_str(&format!("{}", f64::from_bits(n.to_bits()))),
        }
    }
    text
}

#[test]
fn test_ast_printer() {
    let expr = Expr::Binary(Rc::new(BinaryExpr {
        left: Rc::new(Expr::Unary(Rc::new(UnaryExpr {
            operator: Token::new(TokenType::Minus, "-", None, 1),
            right: Rc::new(Expr::Literal(Rc::new(LiteralExpr {
                value: Some(Literal::Number(number(123.0))),
            }))),
        }))),
        operator: Token::new(TokenType::Star, "*", None, 1),
        right: Rc::new(Expr::Grouping(Rc::new(GroupingExpr {
            expression: Rc::new(Expr::Literal(Rc::new(LiteralExpr {
                value: Some(Literal::Number(number(45.67))),
            }))),
        }))),
    }));

    let expr_string = joined(&AstPrinter.print(&expr));
    assert_eq!(expr_string, "(* (- 123) (group 45.67))");
    println!("{}", expr_string);
}

#[test]
fn ast_printer_writes_literals_and_names() {
    let nothing = Expr::Literal(Rc::new(LiteralExpr { value: None }));
    assert_eq!(joined(&AstPrinter.print(&nothing)), "nil");
    let truth = Expr::Literal(Rc::new(LiteralExpr { value: Some(Literal::Boolean(true)) }));
    assert_eq!(joined(&AstPrinter.print(&truth)), "true");
    let text = Expr::Literal(Rc::new(LiteralExpr { value: Some(Literal::String("hi".to_string())) }));
    assert_eq!(joined(&AstPrinter.print(&text)), "hi");
    let name = Expr::Variable(Rc::new(VariableExpr {
        id: 0,
        name: Token::new(TokenType::Identifier, "count", None, 1),
    }));
    assert_eq!(joined(&AstPrinter.print(&name)), "count");
}
