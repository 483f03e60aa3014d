//! Tokens, their kinds, and the values of the language.

use vstd::prelude::*;
use crate::error::{LoxError, LoxErrorType};
use crate::number::Number;
use crate::lox_native_function::LoxNativeFunction;

verus! {

/// The kinds of token.
#[derive(Clone, Copy, Debug, PartialEq, Eq, Structural)]
pub enum TokenType {
    LeftBracket,
    RightBracket,
    LeftBrace,
    RightBrace,
    Comma,
    Dot,
    Plus,
    Minus,
    Star,
    Semicolon,
    Eof,
    BangEqual,
    Bang,
    EqualEqual,
    Assign,
    LessEqual,
    Less,
    GreaterEqual,
    Greater,
    Slash,
    String,
    Number,
    Identifier,
    And,
    Class,
    Else,
    False,
    For,
    Fun,
    If,
    Nil,
    Or,
    Print,
    Return,
    Super,
    This,
    True,
    Var,
    While,
    Break,
}

/// A function value: the place of a function in the interpreter's table of
/// functions. Two function values are the same function exactly when they
/// name the same place.
#[derive(Clone, Copy, Debug, PartialEq, Eq, Structural)]
pub struct Callable {
    pub fun: usize,
}

/// A value of the language. Classes and instances are named by their place
/// in the interpreter's tables.
#[derive(Debug)]
pub enum Literal {
    Number(Number),
    String(String),
    Boolean(bool),
    Function(Callable),
    NativeFunction(LoxNativeFunction),
    Class(usize),
    Instance(usize),
    Nil,
}

/// A value with its text as a sequence of characters.
pub ghost enum LiteralView {
    Number(Number),
    String(Seq<char>),
    Boolean(bool),
    Function(Callable),
    NativeFunction(LoxNativeFunction),
    Class(usize),
    Instance(usize),
    Nil,
}

impl View for Literal {
    type V = LiteralView;

    open spec fn view(&self) -> LiteralView {
        match *self {
            Literal::Number(n) => LiteralView::Number(n),
            Literal::String(s) => LiteralView::String(s@),
            Literal::Boolean(b) => LiteralView::Boolean(b),
            Literal::Function(f) => LiteralView::Function(f),
            Literal::NativeFunction(f) => LiteralView::NativeFunction(f),
            Literal::Class(c) => LiteralView::Class(c),
            Literal::Instance(i) => LiteralView::Instance(i),
            Literal::Nil => LiteralView::Nil,
        }
    }
}

impl LiteralView {
    /// `nil` and `false` are falsy, every other value is truthy.
    pub open spec fn is_truthy(self) -> bool {
        match self {
            LiteralView::Nil => false,
            LiteralView::Boolean(b) => b,
            _ => true,
        }
    }

    /// Equality of values: numbers as IEEE-754 has it, strings by their
    /// text, booleans by value, `nil` with `nil`, functions, classes and
    /// instances by identity; values of different kinds are never equal.
    pub open spec fn equals(self, other: LiteralView) -> bool {
        match (self, other) {
            (LiteralView::Number(a), LiteralView::Number(b)) => a.spec_equals(b),
            (LiteralView::String(a), LiteralView::String(b)) => a == b,
            (LiteralView::Boolean(a), LiteralView::Boolean(b)) => a == b,
            (LiteralView::Function(a), LiteralView::Function(b)) => a == b,
            (LiteralView::NativeFunction(a), LiteralView::NativeFunction(b)) => a == b,
            (LiteralView::Class(a), LiteralView::Class(b)) => a == b,
            (LiteralView::Instance(a), LiteralView::Instance(b)) => a == b,
            (LiteralView::Nil, LiteralView::Nil) => true,
            _ => false,
        }
    }
}

impl Clone for Literal {
    fn clone(&self) -> (res: Literal)
        ensures
            res == *self,
    {
        match self {
            Literal::Number(n) => Literal::Number(*n),
            Literal::String(s) => Literal::String(s.clone()),
            Literal::Boolean(b) => Literal::Boolean(*b),
            Literal::Function(f) => Literal::Function(*f),
            Literal::NativeFunction(f) => Literal::NativeFunction(*f),
            Literal::Class(c) => Literal::Class(*c),
            Literal::Instance(i) => Literal::Instance(*i),
            Literal::Nil => Literal::Nil,
        }
    }
}

impl Literal {
    /// The number in a number value; every other value is a type error.
    pub fn get_number(&self) -> (res: Result<Number, LoxError>)
        ensures
            res == (match *self {
                Literal::Number(n) => Ok::<Number, LoxError>(n),
                _ => Err::<Number, LoxError>(LoxError(LoxErrorType::TypeErr)),
            }),
    {
        match self {
            Literal::Number(n) => Ok(*n),
            _ => Err(LoxError::new_type_error()),
        }
    }

    pub fn is_truthy(&self) -> (b: bool)
        ensures
            b == self@.is_truthy(),
    {
        match self {
            Literal::Nil => false,
            Literal::Boolean(b) => *b,
            _ => true,
        }
    }

    /// The `==` of the language. It never fails.
    pub fn equals(&self, other: &Literal) -> (b: bool)
        ensures
            b == self@.equals(other@),
    {
        match (self, other) {
            (Literal::Number(a), Literal::Number(b)) => a.equals(*b),
            (Literal::String(a), Literal::String(b)) => *a == *b,
            (Literal::Boolean(a), Literal::Boolean(b)) => *a == *b,
            (Literal::Function(a), Literal::Function(b)) => a.fun == b.fun,
            (Literal::NativeFunction(_), Literal::NativeFunction(_)) => true,
            (Literal::Class(a), Literal::Class(b)) => *a == *b,
            (Literal::Instance(a), Literal::Instance(b)) => *a == *b,
            (Literal::Nil, Literal::Nil) => true,
            _ => false,
        }
    }
}

/// A token: its kind, the text it was read from, the value of a string or
/// number token, and the line it stands on.
#[derive(Debug)]
pub struct Token {
    pub token_type: TokenType,
    pub lexeme: String,
    pub literal: Option<Literal>,
    pub line: usize,
}

/// A token with its texts as sequences of characters.
pub ghost struct TokenView {
    pub token_type: TokenType,
    pub lexeme: Seq<char>,
    pub literal: Option<LiteralView>,
    pub line: usize,
}

impl View for Token {
    type V = TokenView;

    open spec fn view(&self) -> TokenView {
        TokenView {
            token_type: self.token_type,
            lexeme: self.lexeme@,
            literal: match self.literal {
                Some(l) => Some(l@),
                None => None,
            },
            line: self.line,
        }
    }
}

impl Clone for Token {
    fn clone(&self) -> (res: Token)
        ensures
            res == *self,
    {
        Token {
            token_type: self.token_type,
            lexeme: self.lexeme.clone(),
            literal: match &self.literal {
                Some(l) => Some(l.clone()),
                None => None,
            },
            line: self.line,
        }
    }
}

impl Token {
    pub fn new(token_type: TokenType, lexeme: &str, literal: Option<Literal>, line: usize) -> (t: Token)
        ensures
            t.token_type == token_type,
            t.lexeme@ == lexeme@,
            t.literal == literal,
            t.line == line,
    {
        Token { token_type, lexeme: String::from_str(lexeme), literal, line }
    }

    /// The token that ends every token sequence.
    pub fn new_eof(line: usize) -> (t: Token)
        ensures
            t@ == (TokenView {
                token_type: TokenType::Eof,
                lexeme: Seq::<char>::empty(),
                literal: None,
                line,
            }),
    {
        Token { token_type: TokenType::Eof, lexeme: String::new(), literal: None, line }
    }

    pub fn get_type(&self) -> (t: &TokenType)
        ensures
            *t == self.token_type,
    {
        &self.token_type
    }

    pub fn get_lexeme(&self) -> (s: &String)
        ensures
            *s == self.lexeme,
    {
        &self.lexeme
    }

    pub fn get_literal(&self) -> (l: &Option<Literal>)
        ensures
            *l == self.literal,
    {
        &self.literal
    }

    pub fn get_line(&self) -> (line: usize)
        ensures
            line == self.line,
    {
        self.line
    }

    pub fn is_type(&self, token_type: &TokenType) -> (b: bool)
        ensures
            b == (self.token_type == *token_type),
    {
        self.token_type == *token_type
    }

    /// Whether the token's kind is one of `token_types`.
    pub fn is_types(&self, token_types: &[&TokenType]) -> (b: bool)
        ensures
            b == (exists|i: int| 0 <= i < token_types@.len() && *token_types@[i] == self.token_type),
    {
        let mut i: usize = 0;
        while i < token_types.len()
            invariant
                i <= token_types@.len(),
                forall|j: int| 0 <= j < i ==> *token_types@[j] != self.token_type,
            decreases token_types@.len() - i,
        {
            if self.token_type == *token_types[i] {
                return true;
            }
            i += 1;
        }
        false
    }
}

} // verus!
