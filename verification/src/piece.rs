//! Text that holds numbers: what the library writes out is a list of
//! pieces, texts and numbers. The embedding program writes the numbers
//! out as doubles; the pieces in order, without anything between them,
//! are the text.

use vstd::prelude::*;
use crate::number::Number;
use crate::token::{Literal, Token, TokenType};

verus! {

/// A piece of text, or a number that is still to be written out.
#[derive(Debug)]
pub enum Piece {
    Text(String),
    Number(Number),
}

pub ghost enum PieceView {
    Text(Seq<char>),
    Number(Number),
}

impl View for Piece {
    type V = PieceView;

    open spec fn view(&self) -> PieceView {
        match self {
            Piece::Text(s) => PieceView::Text(s@),
            Piece::Number(n) => PieceView::Number(*n),
        }
    }
}

pub open spec fn piece_views(pieces: Seq<Piece>) -> Seq<PieceView> {
    pieces.map_values(|p: Piece| p@)
}

/// A literal: `nil`, `true`, `false`, the text of a string, and the
/// number of a number; no literal at all is `nil`.
pub open spec fn literal_piece(value: Option<Literal>) -> PieceView {
    match value {
        Some(Literal::Number(n)) => PieceView::Number(n),
        Some(Literal::String(s)) => PieceView::Text(s@),
        Some(Literal::Boolean(b)) => PieceView::Text(
            if b {
                "true"@
            } else {
                "false"@
            },
        ),
        Some(Literal::Nil) => PieceView::Text("nil"@),
        Some(Literal::Function(_)) => PieceView::Text("<fn>"@),
        Some(Literal::NativeFunction(_)) => PieceView::Text("<native fn>"@),
        Some(Literal::Class(_)) => PieceView::Text("<class>"@),
        Some(Literal::Instance(_)) => PieceView::Text("<instance>"@),
        None => PieceView::Text("nil"@),
    }
}

impl Piece {
    /// The piece for a literal.
    pub fn of_literal(value: &Option<Literal>) -> (piece: Piece)
        ensures
            piece@ == literal_piece(*value),
    {
        match value {
            Some(Literal::Number(n)) => Piece::Number(*n),
            Some(Literal::String(s)) => Piece::Text(s.clone()),
            Some(Literal::Boolean(b)) => Piece::Text(
                if *b {
                    String::from_str("true")
                } else {
                    String::from_str("false")
                },
            ),
            Some(Literal::Nil) => Piece::Text(String::from_str("nil")),
            Some(Literal::Function(_)) => Piece::Text(String::from_str("<fn>")),
            Some(Literal::NativeFunction(_)) => Piece::Text(String::from_str("<native fn>")),
            Some(Literal::Class(_)) => Piece::Text(String::from_str("<class>")),
            Some(Literal::Instance(_)) => Piece::Text(String::from_str("<instance>")),
            None => Piece::Text(String::from_str("nil")),
        }
    }
}

impl TokenType {
    /// The name of the kind.
    pub open spec fn name(self) -> Seq<char> {
        match self {
            TokenType::LeftBracket => "LeftBracket"@,
            TokenType::RightBracket => "RightBracket"@,
            TokenType::LeftBrace => "LeftBrace"@,
            TokenType::RightBrace => "RightBrace"@,
            TokenType::Comma => "Comma"@,
            TokenType::Dot => "Dot"@,
            TokenType::Plus => "Plus"@,
            TokenType::Minus => "Minus"@,
            TokenType::Star => "Star"@,
            TokenType::Semicolon => "Semicolon"@,
            TokenType::Eof => "Eof"@,
            TokenType::BangEqual => "BangEqual"@,
            TokenType::Bang => "Bang"@,
            TokenType::EqualEqual => "EqualEqual"@,
            TokenType::Assign => "Assign"@,
            TokenType::LessEqual => "LessEqual"@,
            TokenType::Less => "Less"@,
            TokenType::GreaterEqual => "GreaterEqual"@,
            TokenType::Greater => "Greater"@,
            TokenType::Slash => "Slash"@,
            TokenType::String => "String"@,
            TokenType::Number => "Number"@,
            TokenType::Identifier => "Identifier"@,
            TokenType::And => "And"@,
            TokenType::Class => "Class"@,
            TokenType::Else => "Else"@,
            TokenType::False => "False"@,
            TokenType::For => "For"@,
            TokenType::Fun => "Fun"@,
            TokenType::If => "If"@,
            TokenType::Nil => "Nil"@,
            TokenType::Or => "Or"@,
            TokenType::Print => "Print"@,
            TokenType::Return => "Return"@,
            TokenType::Super => "Super"@,
            TokenType::This => "This"@,
            TokenType::True => "True"@,
            TokenType::Var => "Var"@,
            TokenType::While => "While"@,
            TokenType::Break => "Break"@,
        }
    }

    /// The name of the kind, as text.
    pub fn to_text(&self) -> (text: String)
        ensures
            text@ == self.name(),
    {
        match self {
            TokenType::LeftBracket => String::from_str("LeftBracket"),
            TokenType::RightBracket => String::from_str("RightBracket"),
            TokenType::LeftBrace => String::from_str("LeftBrace"),
            TokenType::RightBrace => String::from_str("RightBrace"),
            TokenType::Comma => String::from_str("Comma"),
            TokenType::Dot => String::from_str("Dot"),
            TokenType::Plus => String::from_str("Plus"),
            TokenType::Minus => String::from_str("Minus"),
            TokenType::Star => String::from_str("Star"),
            TokenType::Semicolon => String::from_str("Semicolon"),
            TokenType::Eof => String::from_str("Eof"),
            TokenType::BangEqual => String::from_str("BangEqual"),
            TokenType::Bang => String::from_str("Bang"),
            TokenType::EqualEqual => String::from_str("EqualEqual"),
            TokenType::Assign => String::from_str("Assign"),
            TokenType::LessEqual => String::from_str("LessEqual"),
            TokenType::Less => String::from_str("Less"),
            TokenType::GreaterEqual => String::from_str("GreaterEqual"),
            TokenType::Greater => String::from_str("Greater"),
            TokenType::Slash => String::from_str("Slash"),
            TokenType::String => String::from_str("String"),
            TokenType::Number => String::from_str("Number"),
            TokenType::Identifier => String::from_str("Identifier"),
            TokenType::And => String::from_str("And"),
            TokenType::Class => String::from_str("Class"),
            TokenType::Else => String::from_str("Else"),
            TokenType::False => String::from_str("False"),
            TokenType::For => String::from_str("For"),
            TokenType::Fun => String::from_str("Fun"),
            TokenType::If => String::from_str("If"),
            TokenType::Nil => String::from_str("Nil"),
            TokenType::Or => String::from_str("Or"),
            TokenType::Print => String::from_str("Print"),
            TokenType::Return => String::from_str("Return"),
            TokenType::Super => String::from_str("Super"),
            TokenType::This => String::from_str("This"),
            TokenType::True => String::from_str("True"),
            TokenType::Var => String::from_str("Var"),
            TokenType::While => String::from_str("While"),
            TokenType::Break => String::from_str("Break"),
        }
    }
}

impl Token {
    /// The token written out: the name of its kind, its lexeme, and its
    /// value or `None`, with a blank between them.
    pub open spec fn written(self) -> Seq<PieceView> {
        seq![
            PieceView::Text(self.token_type.name()),
            PieceView::Text(" "@),
            PieceView::Text(self.lexeme@),
            PieceView::Text(" "@),
            match self.literal {
                Some(_) => literal_piece(self.literal),
                None => PieceView::Text("None"@),
            },
        ]
    }

    /// Writes the token out.
    pub fn pieces(&self) -> (pieces: Vec<Piece>)
        ensures
            piece_views(pieces@) == self.written(),
    {
        let mut pieces: Vec<Piece> = Vec::new();
        pieces.push(Piece::Text(self.token_type.to_text()));
        pieces.push(Piece::Text(String::from_str(" ")));
        pieces.push(Piece::Text(self.lexeme.clone()));
        pieces.push(Piece::Text(String::from_str(" ")));
        pieces.push(
            match &self.literal {
                Some(_) => Piece::of_literal(&self.literal),
                None => Piece::Text(String::from_str("None")),
            },
        );
        assert(piece_views(pieces@) =~= self.written());
        pieces
    }
}

} // verus!
