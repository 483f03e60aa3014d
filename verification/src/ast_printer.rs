//! Expressions written out in prefix form, for debugging.
//!
//! What is written is a list of pieces: the pieces in order, without
//! anything between them, are the printed expression.

use vstd::prelude::*;
use std::rc::Rc;
use crate::expr::{expr_views, expr_views_index, Expr, ExprView};
use crate::piece::{literal_piece, piece_views, Piece, PieceView};
use crate::token::Literal;

verus! {

/// `(name part part ...)`
pub open spec fn parenthesised(name: Seq<char>, parts: Seq<PieceView>) -> Seq<PieceView> {
    seq![PieceView::Text("("@), PieceView::Text(name)] + parts + seq![PieceView::Text(")"@)]
}

/// The expression in prefix form: an operator with its operands in
/// brackets, a grouping as `(group e)`, a literal as its value.
pub open spec fn printed(e: ExprView) -> Seq<PieceView>
    decreases e,
{
    match e {
        ExprView::Assign { id, name, value } => parenthesised(
            "= "@ + name.lexeme@,
            spaced(printed(*value)),
        ),
        ExprView::Binary { left, operator, right } => parenthesised(
            operator.lexeme@,
            spaced(printed(*left)) + spaced(printed(*right)),
        ),
        ExprView::Call { callee, bracket, arguments } => parenthesised(
            "call"@,
            spaced(printed(*callee)) + printed_all(arguments),
        ),
        ExprView::Get { object, name } => parenthesised(
            ". "@ + name.lexeme@,
            spaced(printed(*object)),
        ),
        ExprView::Grouping { expression } => parenthesised("group"@, spaced(printed(*expression))),
        ExprView::Literal { value } => seq![literal_piece(value)],
        ExprView::Logical { left, operator, right } => parenthesised(
            operator.lexeme@,
            spaced(printed(*left)) + spaced(printed(*right)),
        ),
        ExprView::SetField { object, name, value } => parenthesised(
            "= "@ + name.lexeme@,
            spaced(printed(*object)) + spaced(printed(*value)),
        ),
        ExprView::Super { id, keyword, method } => parenthesised("super "@ + method.lexeme@, seq![]),
        ExprView::This { id, keyword } => seq![PieceView::Text("this"@)],
        ExprView::Unary { operator, right } => parenthesised(operator.lexeme@, spaced(printed(*right))),
        ExprView::Variable { id, name } => seq![PieceView::Text(name.lexeme@)],
    }
}

/// The pieces after a blank.
pub open spec fn spaced(pieces: Seq<PieceView>) -> Seq<PieceView> {
    seq![PieceView::Text(" "@)] + pieces
}

/// The expressions in order, each after a blank.
pub open spec fn printed_all(es: Seq<ExprView>) -> Seq<PieceView>
    decreases es,
{
    if es.len() == 0 {
        Seq::empty()
    } else {
        printed_all(es.drop_last()) + spaced(printed(es.last()))
    }
}

#[derive(Debug)]
pub struct AstPrinter;

impl AstPrinter {
    /// The expression in prefix form.
    pub fn print(&self, expr: &Expr) -> (pieces: Vec<Piece>)
        ensures
            piece_views(pieces@) == printed(expr@),
    {
        let mut pieces: Vec<Piece> = Vec::new();
        assert(piece_views(pieces@) =~= Seq::<PieceView>::empty());
        self.write_expr(expr, &mut pieces);
        assert(Seq::<PieceView>::empty() + printed(expr@) =~= printed(expr@));
        pieces
    }

    fn text(&self, text: String, pieces: &mut Vec<Piece>)
        ensures
            piece_views(final(pieces)@) == piece_views(old(pieces)@).push(PieceView::Text(text@)),
    {
        let piece = Piece::Text(text);
        assert(piece_views(pieces@.push(piece)) =~= piece_views(pieces@).push(piece@));
        pieces.push(piece);
    }

    /// Writes `(name`.
    fn open(&self, name: String, pieces: &mut Vec<Piece>)
        ensures
            piece_views(final(pieces)@) == piece_views(old(pieces)@) + seq![
                PieceView::Text("("@),
                PieceView::Text(name@),
            ],
    {
        self.text(String::from_str("("), pieces);
        self.text(name, pieces);
        assert(piece_views(pieces@) =~= piece_views(old(pieces)@) + seq![
            PieceView::Text("("@),
            PieceView::Text(name@),
        ]);
    }

    /// Writes a blank and the expression.
    fn operand(&self, expr: &Expr, pieces: &mut Vec<Piece>)
        ensures
            piece_views(final(pieces)@) == piece_views(old(pieces)@) + spaced(printed(expr@)),
        decreases expr, 1int,
    {
        self.text(String::from_str(" "), pieces);
        self.write_expr(expr, pieces);
        assert(piece_views(pieces@) =~= piece_views(old(pieces)@) + spaced(printed(expr@)));
    }

    /// Writes the expressions in order, each after a blank.
    fn operands(&self, exprs: &Vec<Rc<Expr>>, pieces: &mut Vec<Piece>)
        ensures
            piece_views(final(pieces)@) == piece_views(old(pieces)@) + printed_all(
                expr_views(exprs@),
            ),
        decreases exprs, 2int,
    {
        let ghost start = piece_views(pieces@);
        let ghost views = expr_views(exprs@);
        proof {
            expr_views_index(exprs@);
            assert(views.subrange(0, 0) =~= Seq::<ExprView>::empty());
            assert(start + printed_all(views.subrange(0, 0)) =~= start);
        }
        let mut i: usize = 0;
        while i < exprs.len()
            invariant
                i <= exprs@.len(),
                views == expr_views(exprs@),
                views.len() == exprs@.len(),
                forall|j: int| 0 <= j < views.len() ==> (#[trigger] views[j]) == exprs@[j]@,
                piece_views(pieces@) == start + printed_all(views.subrange(0, i as int)),
            decreases exprs@.len() - i,
        {
            proof {
                let next = views.subrange(0, i + 1);
                assert(next.drop_last() =~= views.subrange(0, i as int));
                assert(next.last() == views[i as int]);
            }
            self.operand(&exprs[i], pieces);
            assert(piece_views(pieces@) =~= start + printed_all(views.subrange(0, i + 1)));
            i += 1;
        }
        assert(views.subrange(0, i as int) =~= views);
    }

    fn write_expr(&self, expr: &Expr, pieces: &mut Vec<Piece>)
        ensures
            piece_views(final(pieces)@) == piece_views(old(pieces)@) + printed(expr@),
        decreases expr, 0int,
    {
        let ghost before = piece_views(pieces@);
        match expr {
            Expr::Assign(e) => {
                self.open(crate::text::join(String::from_str("= "), e.name.lexeme.as_str()), pieces);
                self.operand(&e.value, pieces);
                self.text(String::from_str(")"), pieces);
            },
            Expr::Binary(e) => {
                self.open(e.operator.lexeme.clone(), pieces);
                self.operand(&e.left, pieces);
                self.operand(&e.right, pieces);
                self.text(String::from_str(")"), pieces);
            },
            Expr::Call(e) => {
                self.open(String::from_str("call"), pieces);
                self.operand(&e.callee, pieces);
                proof {
                    expr_views_index(e.arguments@);
                }
                self.operands(&e.arguments, pieces);
                self.text(String::from_str(")"), pieces);
            },
            Expr::Get(e) => {
                self.open(crate::text::join(String::from_str(". "), e.name.lexeme.as_str()), pieces);
                self.operand(&e.object, pieces);
                self.text(String::from_str(")"), pieces);
            },
            Expr::Grouping(e) => {
                self.open(String::from_str("group"), pieces);
                self.operand(&e.expression, pieces);
                self.text(String::from_str(")"), pieces);
            },
            Expr::Literal(e) => {
                let piece = Piece::of_literal(&e.value);
                assert(piece_views(pieces@.push(piece)) =~= piece_views(pieces@).push(piece@));
                pieces.push(piece);
            },
            Expr::Logical(e) => {
                self.open(e.operator.lexeme.clone(), pieces);
                self.operand(&e.left, pieces);
                self.operand(&e.right, pieces);
                self.text(String::from_str(")"), pieces);
            },
            Expr::SetField(e) => {
                self.open(crate::text::join(String::from_str("= "), e.name.lexeme.as_str()), pieces);
                self.operand(&e.object, pieces);
                self.operand(&e.value, pieces);
                self.text(String::from_str(")"), pieces);
            },
            Expr::Super(e) => {
                self.open(
                    crate::text::join(String::from_str("super "), e.method.lexeme.as_str()),
                    pieces,
                );
                self.text(String::from_str(")"), pieces);
            },
            Expr::This(_) => {
                self.text(String::from_str("this"), pieces);
            },
            Expr::Unary(e) => {
                self.open(e.operator.lexeme.clone(), pieces);
                self.operand(&e.right, pieces);
                self.text(String::from_str(")"), pieces);
            },
            Expr::Variable(e) => {
                self.text(e.name.lexeme.clone(), pieces);
            },
        }
        assert(piece_views(pieces@) =~= before + printed(expr@));
    }
}

} // verus!
