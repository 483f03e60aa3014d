//! The grammar of Lox, as functions from a token sequence and a parser
//! state to a syntax tree and the next state.
//!
//! Every function here is the description of one function of the parser,
//! which is proved to compute exactly it. A function that fails reports one
//! error and leaves the state where the error was met.

use vstd::prelude::*;
use crate::error::{LoxError, Message};
use crate::expr::ExprView;
use crate::stmt::{FunctionView, StmtView};
use crate::token::{Literal, Token, TokenType};

verus! {

/// What the parser knows between two tokens.
pub ghost struct ParseState {
    /// The place of the next token.
    pub current: nat,
    /// How many loops enclose the place.
    pub loop_depth: nat,
    /// The identity that the next variable use gets.
    pub next_id: nat,
    /// The errors reported so far.
    pub errors: Seq<LoxError>,
}

pub type Parsed<T> = (Result<T, LoxError>, ParseState);

/// The tokens that are left.
pub open spec fn remaining(tokens: Seq<Token>, st: ParseState) -> nat {
    if st.current <= tokens.len() {
        (tokens.len() - st.current) as nat
    } else {
        0
    }
}

/// The next token.
pub open spec fn peek(tokens: Seq<Token>, st: ParseState) -> Token {
    tokens[st.current as int]
}

/// Whether the next token is the end-of-file token.
pub open spec fn at_end(tokens: Seq<Token>, st: ParseState) -> bool {
    st.current >= tokens.len() || peek(tokens, st).token_type == TokenType::Eof
}

/// Whether the next token is of kind `t`. The end-of-file token is never
/// matched.
pub open spec fn check(tokens: Seq<Token>, st: ParseState, t: TokenType) -> bool {
    !at_end(tokens, st) && peek(tokens, st).token_type == t
}

/// The state after the next token is taken.
pub open spec fn advance(st: ParseState) -> ParseState {
    ParseState { current: st.current + 1, ..st }
}

/// The state after the error `e` is reported.
pub open spec fn report(st: ParseState, e: LoxError) -> ParseState {
    ParseState { errors: st.errors.push(e), ..st }
}

/// The state after a variable use took its identity.
pub open spec fn fresh(st: ParseState) -> ParseState {
    ParseState { next_id: st.next_id + 1, ..st }
}

/// The state inside one more loop.
pub open spec fn enter_loop(st: ParseState) -> ParseState {
    ParseState { loop_depth: st.loop_depth + 1, ..st }
}

/// The state inside one loop less.
pub open spec fn leave_loop(st: ParseState) -> ParseState {
    ParseState { loop_depth: (st.loop_depth - 1) as nat, ..st }
}

/// Fails at the next token with `message`.
pub open spec fn fail<T>(tokens: Seq<Token>, st: ParseState, message: Message) -> Parsed<T> {
    let e = LoxError::at(peek(tokens, st), message);
    (Err(e), report(st, e))
}

/// Takes the next token if it is of kind `t`, and fails with `message`
/// otherwise.
pub open spec fn consume(tokens: Seq<Token>, st: ParseState, t: TokenType, message: Message) -> Parsed<
    Token,
> {
    if check(tokens, st, t) {
        (Ok(peek(tokens, st)), advance(st))
    } else {
        fail(tokens, st, message)
    }
}

/// A result whose place is not before `before`. The parser never moves
/// backwards, so this changes nothing; it lets the functions below be seen
/// to end.
pub open spec fn onward<T>(before: ParseState, r: (T, ParseState)) -> (T, ParseState) {
    if r.1.current >= before.current {
        r
    } else {
        (r.0, ParseState { current: before.current, ..r.1 })
    }
}

/// The binary operators by level, from the loosest: `or`; `and`; equality;
/// comparison; terms; factors.
pub open spec fn is_operator(level: nat, t: TokenType) -> bool {
    if level == 0 {
        t == TokenType::Or
    } else if level == 1 {
        t == TokenType::And
    } else if level == 2 {
        t == TokenType::BangEqual || t == TokenType::EqualEqual
    } else if level == 3 {
        t == TokenType::Greater || t == TokenType::GreaterEqual || t == TokenType::Less || t
            == TokenType::LessEqual
    } else if level == 4 {
        t == TokenType::Minus || t == TokenType::Plus
    } else {
        t == TokenType::Slash || t == TokenType::Star
    }
}

/// The node for `left operator right` at a level: `or` and `and` make
/// logical nodes, the other levels binary nodes.
pub open spec fn binary_node(level: nat, left: ExprView, operator: Token, right: ExprView) -> ExprView {
    if level <= 1 {
        ExprView::Logical { left: Box::new(left), operator, right: Box::new(right) }
    } else {
        ExprView::Binary { left: Box::new(left), operator, right: Box::new(right) }
    }
}

/// The literal expression with the value `value`.
pub open spec fn literal(value: Literal) -> ExprView {
    ExprView::Literal { value: Some(value) }
}

/// expression → assignment
pub open spec fn expression(tokens: Seq<Token>, st: ParseState) -> Parsed<ExprView>
    decreases remaining(tokens, st), 40int,
{
    assignment(tokens, st)
}

/// assignment → ( call "." )? IDENTIFIER "=" assignment | logic_or
///
/// The left side is read as an expression. Before `=`, a variable becomes
/// an assignment and a property access a property write; anything else is
/// reported at the `=` and kept as it is.
pub open spec fn assignment(tokens: Seq<Token>, st: ParseState) -> Parsed<ExprView>
    decreases remaining(tokens, st), 39int,
{
    let (left, s1) = onward(st, binary(tokens, st, 0));
    match left {
        Err(e) => (Err(e), s1),
        Ok(target) => if !check(tokens, s1, TokenType::Assign) {
            (Ok(target), s1)
        } else {
            let equals = peek(tokens, s1);
            let s2 = advance(s1);
            let s3 = if target is Variable {
                fresh(s2)
            } else {
                s2
            };
            let (value, s4) = assignment(tokens, s3);
            match value {
                Err(e) => (Err(e), s4),
                Ok(v) => match target {
                    ExprView::Variable { id, name } => (
                        Ok(ExprView::Assign { id: s2.next_id as usize, name, value: Box::new(v) }),
                        s4,
                    ),
                    ExprView::Get { object, name } => (
                        Ok(ExprView::SetField { object, name, value: Box::new(v) }),
                        s4,
                    ),
                    _ => (
                        Ok(target),
                        report(s4, LoxError::at(equals, Message::InvalidAssignmentTarget)),
                    ),
                },
            }
        },
    }
}

/// The operand of a binary level: the next tighter level, and below the
/// factors a unary expression.
pub open spec fn operand(tokens: Seq<Token>, st: ParseState, level: nat) -> Parsed<ExprView>
    decreases remaining(tokens, st), 29 - 2 * level,
{
    if level < 5 {
        binary(tokens, st, level + 1)
    } else if level == 5 {
        unary(tokens, st)
    } else {
        fail(tokens, st, Message::ExpectExpression)
    }
}

/// level → operand ( operator operand )*, grouping to the left.
pub open spec fn binary(tokens: Seq<Token>, st: ParseState, level: nat) -> Parsed<ExprView>
    decreases remaining(tokens, st), 30 - 2 * level,
{
    if level > 5 {
        fail(tokens, st, Message::ExpectExpression)
    } else {
        let (first, s1) = onward(st, operand(tokens, st, level));
        match first {
            Err(e) => (Err(e), s1),
            Ok(left) => binary_rest(tokens, s1, level, left),
        }
    }
}

/// ( operator operand )* after `left`.
pub open spec fn binary_rest(tokens: Seq<Token>, st: ParseState, level: nat, left: ExprView) -> Parsed<
    ExprView,
>
    decreases remaining(tokens, st), 29 - 2 * level,
{
    if level <= 5 && !at_end(tokens, st) && is_operator(level, peek(tokens, st).token_type) {
        let operator = peek(tokens, st);
        let (next, s1) = onward(advance(st), operand(tokens, advance(st), level));
        match next {
            Err(e) => (Err(e), s1),
            Ok(right) => binary_rest(tokens, s1, level, binary_node(level, left, operator, right)),
        }
    } else {
        (Ok(left), st)
    }
}

/// unary → ( "!" | "-" ) unary | call
pub open spec fn unary(tokens: Seq<Token>, st: ParseState) -> Parsed<ExprView>
    decreases remaining(tokens, st), 10int,
{
    if check(tokens, st, TokenType::Bang) || check(tokens, st, TokenType::Minus) {
        let (inner, s1) = unary(tokens, advance(st));
        match inner {
            Err(e) => (Err(e), s1),
            Ok(right) => (
                Ok(ExprView::Unary { operator: peek(tokens, st), right: Box::new(right) }),
                s1,
            ),
        }
    } else {
        call(tokens, st)
    }
}

/// call → primary ( "(" arguments? ")" | "." IDENTIFIER )*
pub open spec fn call(tokens: Seq<Token>, st: ParseState) -> Parsed<ExprView>
    decreases remaining(tokens, st), 9int,
{
    let (first, s1) = onward(st, primary(tokens, st));
    match first {
        Err(e) => (Err(e), s1),
        Ok(e) => call_rest(tokens, s1, e),
    }
}

/// ( "(" arguments? ")" | "." IDENTIFIER )* after `expr`.
pub open spec fn call_rest(tokens: Seq<Token>, st: ParseState, expr: ExprView) -> Parsed<ExprView>
    decreases remaining(tokens, st), 8int,
{
    if check(tokens, st, TokenType::LeftBracket) {
        let (called, s1) = onward(advance(st), finish_call(tokens, advance(st), expr));
        match called {
            Err(e) => (Err(e), s1),
            Ok(c) => call_rest(tokens, s1, c),
        }
    } else if check(tokens, st, TokenType::Dot) {
        let (name, s1) = consume(
            tokens,
            advance(st),
            TokenType::Identifier,
            Message::ExpectPropertyName,
        );
        match name {
            Err(e) => (Err(e), s1),
            Ok(n) => call_rest(tokens, s1, ExprView::Get { object: Box::new(expr), name: n }),
        }
    } else {
        (Ok(expr), st)
    }
}

/// arguments? ")" after the opening bracket of a call of `callee`.
pub open spec fn finish_call(tokens: Seq<Token>, st: ParseState, callee: ExprView) -> Parsed<ExprView>
    decreases remaining(tokens, st), 50int,
{
    if check(tokens, st, TokenType::RightBracket) {
        close_call(tokens, st, callee, Seq::empty())
    } else {
        let (first, s1) = onward(st, expression(tokens, st));
        match first {
            Err(e) => (Err(e), s1),
            Ok(a) => arguments_rest(tokens, s1, callee, seq![a]),
        }
    }
}

/// ( "," expression )* ")" after the arguments `arguments`. With 255
/// arguments read, each further one is reported at its first token and
/// read all the same.
pub open spec fn arguments_rest(
    tokens: Seq<Token>,
    st: ParseState,
    callee: ExprView,
    arguments: Seq<ExprView>,
) -> Parsed<ExprView>
    decreases remaining(tokens, st), 49int,
{
    if check(tokens, st, TokenType::Comma) {
        let s1 = advance(st);
        let s2 = if arguments.len() >= 255 {
            report(s1, LoxError::at(peek(tokens, s1), Message::TooManyArguments))
        } else {
            s1
        };
        let (next, s3) = onward(s2, expression(tokens, s2));
        match next {
            Err(e) => (Err(e), s3),
            Ok(a) => arguments_rest(tokens, s3, callee, arguments.push(a)),
        }
    } else {
        close_call(tokens, st, callee, arguments)
    }
}

/// ")" and the call of `callee` with `arguments`.
pub open spec fn close_call(
    tokens: Seq<Token>,
    st: ParseState,
    callee: ExprView,
    arguments: Seq<ExprView>,
) -> Parsed<ExprView> {
    let (bracket, s1) = consume(
        tokens,
        st,
        TokenType::RightBracket,
        Message::ExpectRightBracketAfterArguments,
    );
    match bracket {
        Err(e) => (Err(e), s1),
        Ok(b) => (Ok(ExprView::Call { callee: Box::new(callee), bracket: b, arguments }), s1),
    }
}

/// primary → "false" | "true" | "nil" | NUMBER | STRING
///         | "super" "." IDENTIFIER | "this" | IDENTIFIER | "(" expression ")"
pub open spec fn primary(tokens: Seq<Token>, st: ParseState) -> Parsed<ExprView>
    decreases remaining(tokens, st), 7int,
{
    let token = peek(tokens, st);
    let next = advance(st);
    if check(tokens, st, TokenType::False) {
        (Ok(literal(Literal::Boolean(false))), next)
    } else if check(tokens, st, TokenType::True) {
        (Ok(literal(Literal::Boolean(true))), next)
    } else if check(tokens, st, TokenType::Nil) {
        (Ok(literal(Literal::Nil)), next)
    } else if check(tokens, st, TokenType::Number) || check(tokens, st, TokenType::String) {
        (Ok(ExprView::Literal { value: token.literal }), next)
    } else if check(tokens, st, TokenType::Super) {
        let (dot, s1) = consume(tokens, next, TokenType::Dot, Message::ExpectDotAfterSuper);
        match dot {
            Err(e) => (Err(e), s1),
            Ok(_) => {
                let (method, s2) = consume(
                    tokens,
                    s1,
                    TokenType::Identifier,
                    Message::ExpectSuperclassMethodName,
                );
                match method {
                    Err(e) => (Err(e), s2),
                    Ok(m) => (
                        Ok(ExprView::Super { id: s2.next_id as usize, keyword: token, method: m }),
                        fresh(s2),
                    ),
                }
            },
        }
    } else if check(tokens, st, TokenType::This) {
        (Ok(ExprView::This { id: next.next_id as usize, keyword: token }), fresh(next))
    } else if check(tokens, st, TokenType::Identifier) {
        (Ok(ExprView::Variable { id: next.next_id as usize, name: token }), fresh(next))
    } else if check(tokens, st, TokenType::LeftBracket) {
        let (inner, s1) = onward(next, expression(tokens, next));
        match inner {
            Err(e) => (Err(e), s1),
            Ok(e) => {
                let (close, s2) = consume(
                    tokens,
                    s1,
                    TokenType::RightBracket,
                    Message::ExpectRightBracketAfterExpression,
                );
                match close {
                    Err(e2) => (Err(e2), s2),
                    Ok(_) => (Ok(ExprView::Grouping { expression: Box::new(e) }), s2),
                }
            },
        }
    } else {
        fail(tokens, st, Message::ExpectExpression)
    }
}

/// What a function declaration declares.
#[derive(Debug)]
pub enum FunctionKind {
    Function,
    Method,
}

impl FunctionKind {
    pub open spec fn name_message(self) -> Message {
        match self {
            FunctionKind::Function => Message::ExpectFunctionName,
            FunctionKind::Method => Message::ExpectMethodName,
        }
    }

    pub open spec fn bracket_message(self) -> Message {
        match self {
            FunctionKind::Function => Message::ExpectLeftBracketAfterFunctionName,
            FunctionKind::Method => Message::ExpectLeftBracketAfterMethodName,
        }
    }

    pub open spec fn body_message(self) -> Message {
        match self {
            FunctionKind::Function => Message::ExpectLeftBraceBeforeFunctionBody,
            FunctionKind::Method => Message::ExpectLeftBraceBeforeMethodBody,
        }
    }
}

/// expression ";" and what the statement is made of it.
pub open spec fn terminated(
    tokens: Seq<Token>,
    st: ParseState,
    message: Message,
    make: spec_fn(ExprView) -> StmtView,
) -> Parsed<StmtView> {
    let (value, s1) = expression(tokens, st);
    match value {
        Err(e) => (Err(e), s1),
        Ok(v) => {
            let (semicolon, s2) = consume(tokens, s1, TokenType::Semicolon, message);
            match semicolon {
                Err(e) => (Err(e), s2),
                Ok(_) => (Ok(make(v)), s2),
            }
        },
    }
}

/// exprStmt → expression ";"
pub open spec fn expression_statement(tokens: Seq<Token>, st: ParseState) -> Parsed<StmtView> {
    terminated(
        tokens,
        st,
        Message::ExpectSemicolonAfterExpression,
        |v: ExprView| StmtView::Expression { expression: v },
    )
}

/// printStmt → "print" expression ";", after the keyword.
pub open spec fn print_statement(tokens: Seq<Token>, st: ParseState) -> Parsed<StmtView> {
    terminated(
        tokens,
        st,
        Message::ExpectSemicolonAfterValue,
        |v: ExprView| StmtView::Print { expression: v },
    )
}

/// returnStmt → "return" expression? ";", after the keyword.
pub open spec fn return_statement(tokens: Seq<Token>, st: ParseState, keyword: Token) -> Parsed<
    StmtView,
> {
    if check(tokens, st, TokenType::Semicolon) {
        (Ok(StmtView::Return { keyword, value: None }), advance(st))
    } else {
        terminated(
            tokens,
            st,
            Message::ExpectSemicolonAfterReturnValue,
            |v: ExprView| StmtView::Return { keyword, value: Some(v) },
        )
    }
}

/// breakStmt → "break" ";", after the keyword. Outside of every loop the
/// statement is reported at the keyword and read all the same.
pub open spec fn break_statement(tokens: Seq<Token>, st: ParseState, keyword: Token) -> Parsed<
    StmtView,
> {
    let s1 = if st.loop_depth == 0 {
        report(st, LoxError::at(keyword, Message::BreakOutsideLoop))
    } else {
        st
    };
    let (semicolon, s2) = consume(
        tokens,
        s1,
        TokenType::Semicolon,
        Message::ExpectSemicolonAfterBreak,
    );
    match semicolon {
        Err(e) => (Err(e), s2),
        Ok(_) => (Ok(StmtView::Break { token: keyword }), s2),
    }
}

/// varDecl → "var" IDENTIFIER ( "=" expression )? ";", after the keyword.
pub open spec fn var_declaration(tokens: Seq<Token>, st: ParseState) -> Parsed<StmtView> {
    let (name, s1) = consume(tokens, st, TokenType::Identifier, Message::ExpectVariableName);
    match name {
        Err(e) => (Err(e), s1),
        Ok(n) => {
            let (initialiser, s2): Parsed<Option<ExprView>> = if check(
                tokens,
                s1,
                TokenType::Assign,
            ) {
                match expression(tokens, advance(s1)) {
                    (Ok(v), s) => (Ok(Some(v)), s),
                    (Err(e), s) => (Err(e), s),
                }
            } else {
                (Ok(None), s1)
            };
            match initialiser {
                Err(e) => (Err(e), s2),
                Ok(i) => {
                    let (semicolon, s3) = consume(
                        tokens,
                        s2,
                        TokenType::Semicolon,
                        Message::ExpectSemicolonAfterVariableDeclaration,
                    );
                    match semicolon {
                        Err(e) => (Err(e), s3),
                        Ok(_) => (Ok(StmtView::Var { name: n, initialiser: i }), s3),
                    }
                },
            }
        },
    }
}

/// parameters → IDENTIFIER ( "," IDENTIFIER )*, or nothing before ")".
pub open spec fn parameters(tokens: Seq<Token>, st: ParseState) -> Parsed<Seq<Token>> {
    if check(tokens, st, TokenType::RightBracket) {
        (Ok(Seq::empty()), st)
    } else {
        let (first, s1) = consume(tokens, st, TokenType::Identifier, Message::ExpectParameterName);
        match first {
            Err(e) => (Err(e), s1),
            Ok(p) => parameters_rest(tokens, s1, seq![p]),
        }
    }
}

/// ( "," IDENTIFIER )* after the parameters `params`. With 255 parameters
/// read, each further one is reported and read all the same.
pub open spec fn parameters_rest(tokens: Seq<Token>, st: ParseState, params: Seq<Token>) -> Parsed<
    Seq<Token>,
>
    decreases remaining(tokens, st),
{
    if check(tokens, st, TokenType::Comma) {
        let s1 = advance(st);
        let s2 = if params.len() >= 255 {
            report(s1, LoxError::at(peek(tokens, s1), Message::TooManyParameters))
        } else {
            s1
        };
        let (next, s3) = consume(tokens, s2, TokenType::Identifier, Message::ExpectParameterName);
        match next {
            Err(e) => (Err(e), s3),
            Ok(p) => parameters_rest(tokens, s3, params.push(p)),
        }
    } else {
        (Ok(params), st)
    }
}

/// What a `for` statement stands for: the body, followed by the increment
/// if there is one, in a loop on the condition (on `true` without one),
/// after the initialiser if there is one.
pub open spec fn desugar_for(
    initialiser: Option<StmtView>,
    condition: Option<ExprView>,
    increment: Option<ExprView>,
    body: StmtView,
) -> StmtView {
    let stepped = match increment {
        Some(i) => StmtView::Block { statements: seq![body, StmtView::Expression { expression: i }] },
        None => body,
    };
    let looped = StmtView::While {
        condition: match condition {
            Some(c) => c,
            None => literal(Literal::Boolean(true)),
        },
        body: Box::new(stepped),
    };
    match initialiser {
        Some(i) => StmtView::Block { statements: seq![i, looped] },
        None => looped,
    }
}

/// The initialiser clause of a `for`: ";", a variable declaration or an
/// expression statement.
pub open spec fn for_initialiser(tokens: Seq<Token>, st: ParseState) -> Parsed<Option<StmtView>> {
    if check(tokens, st, TokenType::Semicolon) {
        (Ok(None), advance(st))
    } else {
        let (declared, s1) = if check(tokens, st, TokenType::Var) {
            var_declaration(tokens, advance(st))
        } else {
            expression_statement(tokens, st)
        };
        match declared {
            Ok(i) => (Ok(Some(i)), s1),
            Err(e) => (Err(e), s1),
        }
    }
}

/// An expression, or nothing if the next token is of kind `closing`.
pub open spec fn optional_expression(tokens: Seq<Token>, st: ParseState, closing: TokenType) -> Parsed<
    Option<ExprView>,
> {
    if check(tokens, st, closing) {
        (Ok(None), st)
    } else {
        match expression(tokens, st) {
            (Ok(v), s) => (Ok(Some(v)), s),
            (Err(e), s) => (Err(e), s),
        }
    }
}

/// The three clauses of a `for`, with their brackets.
#[verifier::opaque]
pub open spec fn for_clauses(tokens: Seq<Token>, st: ParseState) -> Parsed<
    (Option<StmtView>, Option<ExprView>, Option<ExprView>),
> {
    let (open, s1) = consume(tokens, st, TokenType::LeftBracket, Message::ExpectLeftBracketAfterFor);
    match open {
        Err(e) => (Err(e), s1),
        Ok(_) => {
            let (initialiser, s2) = for_initialiser(tokens, s1);
            match initialiser {
                Err(e) => (Err(e), s2),
                Ok(i) => {
                    let (condition, s3) = optional_expression(tokens, s2, TokenType::Semicolon);
                    match condition {
                        Err(e) => (Err(e), s3),
                        Ok(c) => {
                            let (semicolon, s4) = consume(
                                tokens,
                                s3,
                                TokenType::Semicolon,
                                Message::ExpectSemicolonAfterLoopCondition,
                            );
                            match semicolon {
                                Err(e) => (Err(e), s4),
                                Ok(_) => {
                                    let (increment, s5) = optional_expression(
                                        tokens,
                                        s4,
                                        TokenType::RightBracket,
                                    );
                                    match increment {
                                        Err(e) => (Err(e), s5),
                                        Ok(n) => {
                                            let (close, s6) = consume(
                                                tokens,
                                                s5,
                                                TokenType::RightBracket,
                                                Message::ExpectRightBracketAfterForClauses,
                                            );
                                            match close {
                                                Err(e) => (Err(e), s6),
                                                Ok(_) => (Ok((i, c, n)), s6),
                                            }
                                        },
                                    }
                                },
                            }
                        },
                    }
                },
            }
        },
    }
}

/// "(" expression ")" with the messages of the statement it belongs to.
pub open spec fn condition(tokens: Seq<Token>, st: ParseState, open: Message, close: Message) -> Parsed<
    ExprView,
> {
    let (opened, s1) = consume(tokens, st, TokenType::LeftBracket, open);
    match opened {
        Err(e) => (Err(e), s1),
        Ok(_) => {
            let (value, s2) = expression(tokens, s1);
            match value {
                Err(e) => (Err(e), s2),
                Ok(c) => {
                    let (closed, s3) = consume(tokens, s2, TokenType::RightBracket, close);
                    match closed {
                        Err(e) => (Err(e), s3),
                        Ok(_) => (Ok(c), s3),
                    }
                },
            }
        },
    }
}

/// A statement as the body of a loop: the loop depth is one more while it
/// is read, and as before after it, whether it failed or not.
pub open spec fn loop_body(tokens: Seq<Token>, st: ParseState) -> Parsed<StmtView>
    decreases remaining(tokens, st), 10int,
{
    let (body, s1) = statement(tokens, enter_loop(st));
    (body, leave_loop(s1))
}

/// declaration → classDecl | funDecl | varDecl | statement
pub open spec fn declaration(tokens: Seq<Token>, st: ParseState) -> Parsed<StmtView>
    decreases remaining(tokens, st), 11int,
{
    if check(tokens, st, TokenType::Class) {
        class_declaration(tokens, advance(st))
    } else if check(tokens, st, TokenType::Fun) {
        match function(tokens, advance(st), FunctionKind::Function) {
            (Ok(f), s) => (Ok(StmtView::Function { function: f }), s),
            (Err(e), s) => (Err(e), s),
        }
    } else if check(tokens, st, TokenType::Var) {
        var_declaration(tokens, advance(st))
    } else {
        statement(tokens, st)
    }
}

/// statement → forStmt | ifStmt | printStmt | returnStmt | whileStmt
///           | block | breakStmt | exprStmt
pub open spec fn statement(tokens: Seq<Token>, st: ParseState) -> Parsed<StmtView>
    decreases remaining(tokens, st), 9int,
{
    let next = advance(st);
    if check(tokens, st, TokenType::For) {
        for_statement(tokens, next)
    } else if check(tokens, st, TokenType::If) {
        if_statement(tokens, next)
    } else if check(tokens, st, TokenType::Print) {
        print_statement(tokens, next)
    } else if check(tokens, st, TokenType::Return) {
        return_statement(tokens, next, peek(tokens, st))
    } else if check(tokens, st, TokenType::While) {
        while_statement(tokens, next)
    } else if check(tokens, st, TokenType::LeftBrace) {
        match block(tokens, next) {
            (Ok(statements), s) => (Ok(StmtView::Block { statements }), s),
            (Err(e), s) => (Err(e), s),
        }
    } else if check(tokens, st, TokenType::Break) {
        break_statement(tokens, next, peek(tokens, st))
    } else {
        expression_statement(tokens, st)
    }
}

/// forStmt → "for" "(" ( varDecl | exprStmt | ";" ) expression? ";"
///           expression? ")" statement, after the keyword.
pub open spec fn for_statement(tokens: Seq<Token>, st: ParseState) -> Parsed<StmtView>
    decreases remaining(tokens, st), 20int,
{
    let (clauses, s1) = onward(st, for_clauses(tokens, st));
    match clauses {
        Err(e) => (Err(e), s1),
        Ok(c) => {
            let (body, s2) = loop_body(tokens, s1);
            match body {
                Err(e) => (Err(e), s2),
                Ok(b) => (Ok(desugar_for(c.0, c.1, c.2, b)), s2),
            }
        },
    }
}

/// ifStmt → "if" "(" expression ")" statement ( "else" statement )?,
/// after the keyword.
pub open spec fn if_statement(tokens: Seq<Token>, st: ParseState) -> Parsed<StmtView>
    decreases remaining(tokens, st), 20int,
{
    let (tested, s1) = onward(
        st,
        condition(
            tokens,
            st,
            Message::ExpectLeftBracketAfterIf,
            Message::ExpectRightBracketAfterIfCondition,
        ),
    );
    match tested {
        Err(e) => (Err(e), s1),
        Ok(c) => {
            let (then_branch, s2) = onward(s1, statement(tokens, s1));
            match then_branch {
                Err(e) => (Err(e), s2),
                Ok(t) => if check(tokens, s2, TokenType::Else) {
                    let (else_branch, s3) = statement(tokens, advance(s2));
                    match else_branch {
                        Err(e) => (Err(e), s3),
                        Ok(f) => (
                            Ok(
                                StmtView::If {
                                    condition: c,
                                    then_branch: Box::new(t),
                                    else_branch: Some(Box::new(f)),
                                },
                            ),
                            s3,
                        ),
                    }
                } else {
                    (
                        Ok(
                            StmtView::If {
                                condition: c,
                                then_branch: Box::new(t),
                                else_branch: None,
                            },
                        ),
                        s2,
                    )
                },
            }
        },
    }
}

/// whileStmt → "while" "(" expression ")" statement, after the keyword.
pub open spec fn while_statement(tokens: Seq<Token>, st: ParseState) -> Parsed<StmtView>
    decreases remaining(tokens, st), 20int,
{
    let (tested, s1) = onward(
        st,
        condition(
            tokens,
            st,
            Message::ExpectLeftBracketAfterWhile,
            Message::ExpectRightBracketAfterCondition,
        ),
    );
    match tested {
        Err(e) => (Err(e), s1),
        Ok(c) => {
            let (body, s2) = loop_body(tokens, s1);
            match body {
                Err(e) => (Err(e), s2),
                Ok(b) => (Ok(StmtView::While { condition: c, body: Box::new(b) }), s2),
            }
        },
    }
}

/// block → "{" declaration* "}", after the opening brace.
pub open spec fn block(tokens: Seq<Token>, st: ParseState) -> Parsed<Seq<StmtView>>
    decreases remaining(tokens, st), 21int,
{
    block_rest(tokens, st, Seq::empty())
}

/// declaration* "}" after the statements `statements`.
pub open spec fn block_rest(tokens: Seq<Token>, st: ParseState, statements: Seq<StmtView>) -> Parsed<
    Seq<StmtView>,
>
    decreases remaining(tokens, st), 20int,
{
    if check(tokens, st, TokenType::RightBrace) || at_end(tokens, st) {
        let (close, s1) = consume(
            tokens,
            st,
            TokenType::RightBrace,
            Message::ExpectRightBraceAfterBlock,
        );
        match close {
            Err(e) => (Err(e), s1),
            Ok(_) => (Ok(statements), s1),
        }
    } else {
        let (declared, s1) = declaration(tokens, st);
        match declared {
            Err(e) => (Err(e), s1),
            Ok(s) => if s1.current > st.current {
                block_rest(tokens, s1, statements.push(s))
            } else {
                (Ok(statements.push(s)), s1)
            },
        }
    }
}

/// function → IDENTIFIER "(" parameters? ")" block
pub open spec fn function(tokens: Seq<Token>, st: ParseState, kind: FunctionKind) -> Parsed<
    FunctionView,
>
    decreases remaining(tokens, st), 25int,
{
    let (name, s1) = consume(tokens, st, TokenType::Identifier, kind.name_message());
    match name {
        Err(e) => (Err(e), s1),
        Ok(n) => {
            let (open, s2) = consume(tokens, s1, TokenType::LeftBracket, kind.bracket_message());
            match open {
                Err(e) => (Err(e), s2),
                Ok(_) => {
                    let (listed, s3) = onward(s2, parameters(tokens, s2));
                    match listed {
                        Err(e) => (Err(e), s3),
                        Ok(params) => {
                            let (close, s4) = consume(
                                tokens,
                                s3,
                                TokenType::RightBracket,
                                Message::ExpectRightBracketAfterParameters,
                            );
                            match close {
                                Err(e) => (Err(e), s4),
                                Ok(_) => {
                                    let (brace, s5) = consume(
                                        tokens,
                                        s4,
                                        TokenType::LeftBrace,
                                        kind.body_message(),
                                    );
                                    match brace {
                                        Err(e) => (Err(e), s5),
                                        Ok(_) => {
                                            let (body, s6) = block(tokens, s5);
                                            match body {
                                                Err(e) => (Err(e), s6),
                                                Ok(b) => (
                                                    Ok(FunctionView { name: n, params, body: b }),
                                                    s6,
                                                ),
                                            }
                                        },
                                    }
                                },
                            }
                        },
                    }
                },
            }
        },
    }
}

/// The superclass clause of a class declaration: "<" IDENTIFIER, read as a
/// variable, or nothing.
pub open spec fn superclass(tokens: Seq<Token>, st: ParseState) -> Parsed<Option<ExprView>> {
    if check(tokens, st, TokenType::Less) {
        let (name, s1) = consume(
            tokens,
            advance(st),
            TokenType::Identifier,
            Message::ExpectSuperclassName,
        );
        match name {
            Err(e) => (Err(e), s1),
            Ok(n) => (Ok(Some(ExprView::Variable { id: s1.next_id as usize, name: n })), fresh(s1)),
        }
    } else {
        (Ok(None), st)
    }
}

/// classDecl → "class" IDENTIFIER ( "<" IDENTIFIER )? "{" function* "}",
/// after the keyword.
pub open spec fn class_declaration(tokens: Seq<Token>, st: ParseState) -> Parsed<StmtView>
    decreases remaining(tokens, st), 40int,
{
    let (name, s1) = consume(tokens, st, TokenType::Identifier, Message::ExpectClassName);
    match name {
        Err(e) => (Err(e), s1),
        Ok(n) => {
            let (parent, s2) = onward(s1, superclass(tokens, s1));
            match parent {
                Err(e) => (Err(e), s2),
                Ok(p) => {
                    let (brace, s3) = consume(
                        tokens,
                        s2,
                        TokenType::LeftBrace,
                        Message::ExpectLeftBraceBeforeClassBody,
                    );
                    match brace {
                        Err(e) => (Err(e), s3),
                        Ok(_) => {
                            let (listed, s4) = methods_rest(tokens, s3, Seq::empty());
                            match listed {
                                Err(e) => (Err(e), s4),
                                Ok(methods) => {
                                    let (close, s5) = consume(
                                        tokens,
                                        s4,
                                        TokenType::RightBrace,
                                        Message::ExpectRightBraceAfterClassBody,
                                    );
                                    match close {
                                        Err(e) => (Err(e), s5),
                                        Ok(_) => (
                                            Ok(
                                                StmtView::Class {
                                                    name: n,
                                                    superclass: p,
                                                    methods,
                                                },
                                            ),
                                            s5,
                                        ),
                                    }
                                },
                            }
                        },
                    }
                },
            }
        },
    }
}

/// function* before the closing brace of a class, after the methods
/// `methods`.
pub open spec fn methods_rest(tokens: Seq<Token>, st: ParseState, methods: Seq<FunctionView>) -> Parsed<
    Seq<FunctionView>,
>
    decreases remaining(tokens, st), 30int,
{
    if check(tokens, st, TokenType::RightBrace) || at_end(tokens, st) {
        (Ok(methods), st)
    } else {
        let (method, s1) = function(tokens, st, FunctionKind::Method);
        match method {
            Err(e) => (Err(e), s1),
            Ok(m) => if s1.current > st.current {
                methods_rest(tokens, s1, methods.push(m))
            } else {
                (Ok(methods.push(m)), s1)
            },
        }
    }
}

/// The kinds of token that begin a statement, at which recovery stops.
pub open spec fn begins_statement(t: TokenType) -> bool {
    t == TokenType::Class || t == TokenType::Fun || t == TokenType::Var || t == TokenType::For || t
        == TokenType::If || t == TokenType::While || t == TokenType::Print || t == TokenType::Return
}

/// Recovery after an error: one token is skipped, and then tokens are
/// skipped until the last one skipped is a semicolon, the next one begins
/// a statement, or the end is reached.
pub open spec fn synchronise(tokens: Seq<Token>, st: ParseState) -> ParseState {
    if at_end(tokens, st) {
        st
    } else {
        synchronise_rest(tokens, advance(st))
    }
}

/// Skips tokens after the first one skipped.
pub open spec fn synchronise_rest(tokens: Seq<Token>, st: ParseState) -> ParseState
    decreases remaining(tokens, st),
{
    if at_end(tokens, st) || tokens[st.current - 1].token_type == TokenType::Semicolon
        || begins_statement(peek(tokens, st).token_type) {
        st
    } else {
        synchronise_rest(tokens, advance(st))
    }
}

/// program → declaration* EOF, after the statements `statements`. A
/// declaration that fails is left out; the parser recovers and goes on
/// with the next declaration.
pub open spec fn program_rest(tokens: Seq<Token>, st: ParseState, statements: Seq<StmtView>) -> (
    Seq<StmtView>,
    ParseState,
)
    decreases remaining(tokens, st),
{
    if at_end(tokens, st) {
        (statements, st)
    } else {
        let (declared, s1) = declaration(tokens, st);
        let (read, s2) = match declared {
            Ok(s) => (statements.push(s), s1),
            Err(_) => (statements, synchronise(tokens, s1)),
        };
        if s2.current > st.current {
            program_rest(tokens, s2, read)
        } else {
            (read, s2)
        }
    }
}

/// program → declaration* EOF
pub open spec fn program(tokens: Seq<Token>, st: ParseState) -> (Seq<StmtView>, ParseState) {
    program_rest(tokens, st, Seq::empty())
}

} // verus!
