//! The parser: tokens to syntax trees, by recursive descent.
//!
//! Each function computes the function of the same name in `grammar`. A
//! syntax error is added to the parser's list of errors; `parse` then
//! skips to the next statement and goes on, so that one run reports the
//! errors of every statement.

use vstd::prelude::*;
use std::rc::Rc;
use crate::error::{LoxError, Message};
use crate::expr::{
    expr_views, expr_views_push, share, AssignExpr, BinaryExpr, CallExpr, Expr, ExprView, GetExpr,
    GroupingExpr, LiteralExpr, LogicalExpr, SetExpr, SuperExpr, ThisExpr, UnaryExpr, VariableExpr,
};
use crate::grammar;
use crate::grammar::{FunctionKind, ParseState};
use crate::recovery::{every_failure_is_reported, failed_declarations};
use crate::stmt::{
    function_views, function_views_push, program_views, stmt_views, stmt_views_push, BlockStmt,
    BreakStmt, ClassStmt, ExpressionStmt, FunctionStmt, FunctionView, IfStmt, PrintStmt, ReturnStmt,
    Stmt, StmtView, VarStmt, WhileStmt,
};
use crate::token::{Literal, Token, TokenType};

verus! {

/// The parser: the tokens, the place of the next token, the number of
/// loops around it, the identity for the next variable use, and the
/// errors reported so far.
pub struct Parser<'a> {
    pub tokens: &'a [Token],
    pub current: usize,
    pub loop_depth: usize,
    pub next_id: usize,
    /// The identity that the first variable use got.
    pub first_id: usize,
    pub errors: Vec<LoxError>,
}

pub open spec fn expr_result(res: Result<Expr, LoxError>) -> Result<ExprView, LoxError> {
    match res {
        Ok(e) => Ok(e@),
        Err(e) => Err(e),
    }
}

pub open spec fn stmt_result(res: Result<Stmt, LoxError>) -> Result<StmtView, LoxError> {
    match res {
        Ok(s) => Ok(s@),
        Err(e) => Err(e),
    }
}

pub open spec fn stmts_result(res: Result<Vec<Rc<Stmt>>, LoxError>) -> Result<
    Seq<StmtView>,
    LoxError,
> {
    match res {
        Ok(s) => Ok(stmt_views(s@)),
        Err(e) => Err(e),
    }
}

pub open spec fn function_result(res: Result<FunctionStmt, LoxError>) -> Result<
    FunctionView,
    LoxError,
> {
    match res {
        Ok(f) => Ok(f@),
        Err(e) => Err(e),
    }
}

/// What every parsing function keeps: the token sequence, the loop depth
/// and the validity of the parser; that it never moves backwards, and
/// moves forwards when it succeeds. `state` is the state it is to be in.
pub open spec fn stepped(before: Parser, after: Parser, ok: bool, state: ParseState) -> bool {
    &&& after.wf()
    &&& after.tokens == before.tokens
    &&& after.state() == state
    &&& after.loop_depth == before.loop_depth
    &&& after.first_id == before.first_id
    &&& after.current >= before.current
    &&& ok ==> after.current > before.current
}

pub open spec fn expr_option(e: Option<Expr>) -> Option<ExprView> {
    match e {
        Some(e) => Some(e@),
        None => None,
    }
}

pub open spec fn stmt_option(s: Option<Stmt>) -> Option<StmtView> {
    match s {
        Some(s) => Some(s@),
        None => None,
    }
}

/// The block of the two statements `first` and `second`.
fn pair(first: Stmt, second: Stmt) -> (block: Stmt)
    ensures
        block@ == (StmtView::Block { statements: seq![first@, second@] }),
{
    let first = Rc::new(first);
    let second = Rc::new(second);
    let mut statements: Vec<Rc<Stmt>> = Vec::new();
    proof {
        stmt_views_push(statements@, first);
        stmt_views_push(statements@.push(first), second);
        assert(stmt_views(statements@.push(first).push(second)) =~= seq![first@, second@]);
    }
    statements.push(first);
    statements.push(second);
    Stmt::Block(Rc::new(BlockStmt { statements: Rc::new(statements) }))
}

/// The loop that a `for` statement stands for.
fn desugar_for(
    initialiser: Option<Stmt>,
    condition: Option<Expr>,
    increment: Option<Expr>,
    body: Stmt,
) -> (desugared: Stmt)
    ensures
        desugared@ == grammar::desugar_for(
            stmt_option(initialiser),
            expr_option(condition),
            expr_option(increment),
            body@,
        ),
{
    let body = match increment {
        Some(i) => pair(body, Stmt::Expression(Rc::new(ExpressionStmt { expression: Rc::new(i) }))),
        None => body,
    };
    let condition = match condition {
        Some(c) => c,
        None => Expr::Literal(Rc::new(LiteralExpr { value: Some(Literal::Boolean(true)) })),
    };
    let looped = Stmt::While(Rc::new(WhileStmt { condition: Rc::new(condition), body: Rc::new(body) }));
    match initialiser {
        Some(i) => pair(i, looped),
        None => looped,
    }
}

fn operator_at(level: u8, t: TokenType) -> (b: bool)
    ensures
        b == grammar::is_operator(level as nat, t),
{
    if level == 0 {
        t == TokenType::Or
    } else if level == 1 {
        t == TokenType::And
    } else if level == 2 {
        t == TokenType::BangEqual || t == TokenType::EqualEqual
    } else if level == 3 {
        t == TokenType::Greater || t == TokenType::GreaterEqual || t == TokenType::Less || t
            == TokenType::LessEqual
    } else if level == 4 {
        t == TokenType::Minus || t == TokenType::Plus
    } else {
        t == TokenType::Slash || t == TokenType::Star
    }
}

fn begins_statement(t: TokenType) -> (b: bool)
    ensures
        b == grammar::begins_statement(t),
{
    t == TokenType::Class || t == TokenType::Fun || t == TokenType::Var || t == TokenType::For || t
        == TokenType::If || t == TokenType::While || t == TokenType::Print || t == TokenType::Return
}

impl FunctionKind {
    fn name_error(&self) -> (m: Message)
        ensures
            m == self.name_message(),
    {
        match self {
            FunctionKind::Function => Message::ExpectFunctionName,
            FunctionKind::Method => Message::ExpectMethodName,
        }
    }

    fn bracket_error(&self) -> (m: Message)
        ensures
            m == self.bracket_message(),
    {
        match self {
            FunctionKind::Function => Message::ExpectLeftBracketAfterFunctionName,
            FunctionKind::Method => Message::ExpectLeftBracketAfterMethodName,
        }
    }

    fn body_error(&self) -> (m: Message)
        ensures
            m == self.body_message(),
    {
        match self {
            FunctionKind::Function => Message::ExpectLeftBraceBeforeFunctionBody,
            FunctionKind::Method => Message::ExpectLeftBraceBeforeMethodBody,
        }
    }
}

impl<'a> Parser<'a> {
    /// The state of the parser, as the grammar speaks of it.
    pub open spec fn state(&self) -> ParseState {
        ParseState {
            current: self.current as nat,
            loop_depth: self.loop_depth as nat,
            next_id: self.next_id as nat,
            errors: self.errors@,
        }
    }

    /// The token sequence ends in an end-of-file token, the parser stands
    /// on a token, and it has entered no more loops and given out no more
    /// identities than it has read tokens.
    pub open spec fn wf(&self) -> bool {
        &&& self.tokens@.len() > 0
        &&& self.tokens@.last().token_type == TokenType::Eof
        &&& self.current < self.tokens@.len()
        &&& self.loop_depth <= self.current
        &&& self.first_id <= self.next_id
        &&& self.next_id - self.first_id <= self.current
        &&& self.first_id + self.tokens@.len() <= usize::MAX
    }

    /// The state of a parser at the first token, outside every loop, with
    /// no error reported, whose first variable use gets the identity
    /// `first_id`.
    pub open spec fn initial(first_id: usize) -> ParseState {
        ParseState { current: 0, loop_depth: 0, next_id: first_id as nat, errors: Seq::empty() }
    }

    /// A parser at the first of `tokens`, which end in an end-of-file
    /// token. The variable uses get the identities from 0 on.
    pub fn new(tokens: &'a [Token]) -> (parser: Parser<'a>)
        requires
            tokens@.len() > 0,
            tokens@.last().token_type == TokenType::Eof,
        ensures
            parser.wf(),
            parser.tokens == tokens,
            parser.state() == Self::initial(0),
    {
        let length: usize = tokens.len();
        assert(0 + tokens@.len() <= usize::MAX);
        Self::new_from(tokens, 0)
    }

    /// A parser at the first of `tokens`, whose variable uses get the
    /// identities from `first_id` on: for a program that is to run beside
    /// programs parsed before it.
    pub fn new_from(tokens: &'a [Token], first_id: usize) -> (parser: Parser<'a>)
        requires
            tokens@.len() > 0,
            tokens@.last().token_type == TokenType::Eof,
            first_id + tokens@.len() <= usize::MAX,
        ensures
            parser.wf(),
            parser.tokens == tokens,
            parser.state() == Self::initial(first_id),
    {
        Parser { tokens, current: 0, loop_depth: 0, next_id: first_id, first_id, errors: Vec::new() }
    }

    /// The identity that the next variable use gets.
    pub fn next_id(&self) -> (id: usize)
        ensures
            id == self.next_id,
    {
        self.next_id
    }

    /// Whether an error was reported.
    pub fn had_error(&self) -> (b: bool)
        ensures
            b == (self.errors@.len() > 0),
    {
        self.errors.len() > 0
    }

    /// The errors reported so far, in the order in which they were met.
    pub fn errors(&self) -> (errors: &Vec<LoxError>)
        ensures
            *errors == self.errors,
    {
        &self.errors
    }

    /// Parses the whole token sequence, to its end. The statements that
    /// parsed are returned if no error was reported; otherwise the result
    /// is the failure, and `errors` holds what was reported: at least one
    /// error for every declaration that failed.
    pub fn parse(&mut self) -> (res: Result<Vec<Stmt>, LoxError>)
        requires
            old(self).wf(),
        ensures
            final(self).wf(),
            final(self).tokens == old(self).tokens,
            final(self).state() == grammar::program(old(self).tokens@, old(self).state()).1,
            grammar::at_end(final(self).tokens@, final(self).state()),
            final(self).errors@.len() >= old(self).errors@.len() + failed_declarations(
                old(self).tokens@,
                old(self).state(),
            ),
            match res {
                Ok(statements) => final(self).errors@.len() == 0 && program_views(statements@)
                    == grammar::program(old(self).tokens@, old(self).state()).0,
                Err(e) => final(self).errors@.len() > 0 && e.is_parse_failure(),
            },
    {
        proof {
            every_failure_is_reported(self.tokens@, self.state(), Seq::empty());
        }
        let mut statements: Vec<Stmt> = Vec::new();
        assert(program_views(statements@) =~= Seq::<StmtView>::empty());
        while !self.is_at_end()
            invariant
                self.wf(),
                self.tokens == old(self).tokens,
                grammar::program_rest(self.tokens@, self.state(), program_views(statements@))
                    == grammar::program(old(self).tokens@, old(self).state()),
            decreases grammar::remaining(self.tokens@, self.state()),
        {
            match self.declaration() {
                Ok(s) => {
                    assert(program_views(statements@.push(s)) =~= program_views(statements@).push(
                        s@,
                    ));
                    statements.push(s);
                },
                Err(_) => {
                    self.synchronise();
                },
            }
        }
        if self.errors.len() == 0 {
            Ok(statements)
        } else {
            Err(LoxError::new_parse_failure())
        }
    }

    fn expression(&mut self) -> (res: Result<Expr, LoxError>)
        requires
            old(self).wf(),
        ensures
            stepped(
                *old(self),
                *final(self),
                res is Ok,
                grammar::expression(old(self).tokens@, old(self).state()).1,
            ),
            expr_result(res) == grammar::expression(old(self).tokens@, old(self).state()).0,
        decreases grammar::remaining(old(self).tokens@, old(self).state()), 40int,
    {
        self.assignment()
    }

    fn declaration(&mut self) -> (res: Result<Stmt, LoxError>)
        requires
            old(self).wf(),
        ensures
            stepped(
                *old(self),
                *final(self),
                res is Ok,
                grammar::declaration(old(self).tokens@, old(self).state()).1,
            ),
            stmt_result(res) == grammar::declaration(old(self).tokens@, old(self).state()).0,
        decreases grammar::remaining(old(self).tokens@, old(self).state()), 11int,
    {
        if self.is_match(TokenType::Class) {
            self.class_declaration()
        } else if self.is_match(TokenType::Fun) {
            match self.function(FunctionKind::Function) {
                Ok(f) => Ok(Stmt::Function(Rc::new(f))),
                Err(e) => Err(e),
            }
        } else if self.is_match(TokenType::Var) {
            self.var_declaration()
        } else {
            self.statement()
        }
    }

    fn class_declaration(&mut self) -> (res: Result<Stmt, LoxError>)
        requires
            old(self).wf(),
        ensures
            stepped(
                *old(self),
                *final(self),
                res is Ok,
                grammar::class_declaration(old(self).tokens@, old(self).state()).1,
            ),
            stmt_result(res) == grammar::class_declaration(old(self).tokens@, old(self).state()).0,
        decreases grammar::remaining(old(self).tokens@, old(self).state()), 40int,
    {
        let name = self.consume(TokenType::Identifier, Message::ExpectClassName)?;
        let superclass = self.superclass()?;
        self.consume(TokenType::LeftBrace, Message::ExpectLeftBraceBeforeClassBody)?;
        let methods = self.methods()?;
        self.consume(TokenType::RightBrace, Message::ExpectRightBraceAfterClassBody)?;
        Ok(Stmt::Class(Rc::new(ClassStmt { name, superclass, methods: Rc::new(methods) })))
    }

    /// The methods of a class, up to its closing brace.
    fn methods(&mut self) -> (res: Result<Vec<Rc<FunctionStmt>>, LoxError>)
        requires
            old(self).wf(),
        ensures
            stepped(
                *old(self),
                *final(self),
                false,
                grammar::methods_rest(old(self).tokens@, old(self).state(), Seq::empty()).1,
            ),
            match res {
                Ok(methods) => grammar::methods_rest(
                    old(self).tokens@,
                    old(self).state(),
                    Seq::empty(),
                ).0 == Ok::<Seq<FunctionView>, LoxError>(function_views(methods@)),
                Err(e) => grammar::methods_rest(old(self).tokens@, old(self).state(), Seq::empty()).0
                    == Err::<Seq<FunctionView>, LoxError>(e),
            },
        decreases grammar::remaining(old(self).tokens@, old(self).state()), 30int,
    {
        let mut methods: Vec<Rc<FunctionStmt>> = Vec::new();
        while !self.check(TokenType::RightBrace) && !self.is_at_end()
            invariant
                self.wf(),
                self.tokens == old(self).tokens,
                self.loop_depth == old(self).loop_depth,
                self.first_id == old(self).first_id,
                self.current >= old(self).current,
                grammar::methods_rest(self.tokens@, self.state(), function_views(methods@))
                    == grammar::methods_rest(old(self).tokens@, old(self).state(), Seq::empty()),
            decreases grammar::remaining(self.tokens@, self.state()),
        {
            let method = self.function(FunctionKind::Method)?;
            let method = Rc::new(method);
            proof {
                function_views_push(methods@, method);
            }
            methods.push(method);
        }
        Ok(methods)
    }

    /// The superclass clause of a class declaration.
    fn superclass(&mut self) -> (res: Result<Option<Rc<Expr>>, LoxError>)
        requires
            old(self).wf(),
            old(self).next_id - old(self).first_id < old(self).current,
        ensures
            stepped(
                *old(self),
                *final(self),
                false,
                grammar::superclass(old(self).tokens@, old(self).state()).1,
            ),
            match res {
                Ok(Some(e)) => grammar::superclass(old(self).tokens@, old(self).state()).0 == Ok::<
                    Option<ExprView>,
                    LoxError,
                >(Some(e@)),
                Ok(None) => grammar::superclass(old(self).tokens@, old(self).state()).0 == Ok::<
                    Option<ExprView>,
                    LoxError,
                >(None),
                Err(e) => grammar::superclass(old(self).tokens@, old(self).state()).0 == Err::<
                    Option<ExprView>,
                    LoxError,
                >(e),
            },
            final(self).next_id - final(self).first_id < final(self).current,
    {
        if self.is_match(TokenType::Less) {
            let name = self.consume(TokenType::Identifier, Message::ExpectSuperclassName)?;
            let id = self.fresh_id();
            Ok(Some(Rc::new(Expr::Variable(Rc::new(VariableExpr { id, name })))))
        } else {
            Ok(None)
        }
    }

    fn statement(&mut self) -> (res: Result<Stmt, LoxError>)
        requires
            old(self).wf(),
        ensures
            stepped(
                *old(self),
                *final(self),
                res is Ok,
                grammar::statement(old(self).tokens@, old(self).state()).1,
            ),
            stmt_result(res) == grammar::statement(old(self).tokens@, old(self).state()).0,
        decreases grammar::remaining(old(self).tokens@, old(self).state()), 9int,
    {
        if self.is_match(TokenType::For) {
            return self.for_statement();
        }
        if self.is_match(TokenType::If) {
            return self.if_statement();
        }
        if self.is_match(TokenType::Print) {
            return self.print_statement();
        }
        if self.is_match(TokenType::Return) {
            return self.return_statement();
        }
        if self.is_match(TokenType::While) {
            return self.while_statement();
        }
        if self.is_match(TokenType::LeftBrace) {
            return match self.block() {
                Ok(statements) => Ok(
                    Stmt::Block(Rc::new(BlockStmt { statements: Rc::new(statements) })),
                ),
                Err(e) => Err(e),
            };
        }
        if self.is_match(TokenType::Break) {
            return self.break_statement();
        }
        self.expression_statement()
    }

    fn break_statement(&mut self) -> (res: Result<Stmt, LoxError>)
        requires
            old(self).wf(),
            old(self).current >= 1,
        ensures
            stepped(
                *old(self),
                *final(self),
                res is Ok,
                grammar::break_statement(
                    old(self).tokens@,
                    old(self).state(),
                    old(self).tokens@[old(self).current - 1],
                ).1,
            ),
            stmt_result(res) == grammar::break_statement(
                old(self).tokens@,
                old(self).state(),
                old(self).tokens@[old(self).current - 1],
            ).0,
    {
        let keyword = self.previous().clone();
        if self.loop_depth == 0 {
            self.error(&keyword, Message::BreakOutsideLoop);
        }
        self.consume(TokenType::Semicolon, Message::ExpectSemicolonAfterBreak)?;
        Ok(Stmt::Break(Rc::new(BreakStmt { token: keyword })))
    }

    /// The initialiser clause of a `for`.
    fn for_initialiser(&mut self) -> (res: Result<Option<Stmt>, LoxError>)
        requires
            old(self).wf(),
        ensures
            stepped(
                *old(self),
                *final(self),
                res is Ok,
                grammar::for_initialiser(old(self).tokens@, old(self).state()).1,
            ),
            match res {
                Ok(Some(s)) => grammar::for_initialiser(old(self).tokens@, old(self).state()).0
                    == Ok::<Option<StmtView>, LoxError>(Some(s@)),
                Ok(None) => grammar::for_initialiser(old(self).tokens@, old(self).state()).0 == Ok::<
                    Option<StmtView>,
                    LoxError,
                >(None),
                Err(e) => grammar::for_initialiser(old(self).tokens@, old(self).state()).0 == Err::<
                    Option<StmtView>,
                    LoxError,
                >(e),
            },
    {
        if self.is_match(TokenType::Semicolon) {
            Ok(None)
        } else if self.is_match(TokenType::Var) {
            Ok(Some(self.var_declaration()?))
        } else {
            Ok(Some(self.expression_statement()?))
        }
    }

    /// An expression, or nothing if the next token is of kind `closing`.
    fn optional_expression(&mut self, closing: TokenType) -> (res: Result<Option<Expr>, LoxError>)
        requires
            old(self).wf(),
        ensures
            stepped(
                *old(self),
                *final(self),
                false,
                grammar::optional_expression(old(self).tokens@, old(self).state(), closing).1,
            ),
            match res {
                Ok(Some(e)) => grammar::optional_expression(
                    old(self).tokens@,
                    old(self).state(),
                    closing,
                ).0 == Ok::<Option<ExprView>, LoxError>(Some(e@)),
                Ok(None) => grammar::optional_expression(
                    old(self).tokens@,
                    old(self).state(),
                    closing,
                ).0 == Ok::<Option<ExprView>, LoxError>(None),
                Err(e) => grammar::optional_expression(
                    old(self).tokens@,
                    old(self).state(),
                    closing,
                ).0 == Err::<Option<ExprView>, LoxError>(e),
            },
    {
        if self.check(closing) {
            Ok(None)
        } else {
            Ok(Some(self.expression()?))
        }
    }

    /// A statement as the body of a loop.
    fn loop_body(&mut self) -> (res: Result<Stmt, LoxError>)
        requires
            old(self).wf(),
            old(self).loop_depth < old(self).current,
        ensures
            stepped(
                *old(self),
                *final(self),
                res is Ok,
                grammar::loop_body(old(self).tokens@, old(self).state()).1,
            ),
            stmt_result(res) == grammar::loop_body(old(self).tokens@, old(self).state()).0,
        decreases grammar::remaining(old(self).tokens@, old(self).state()), 10int,
    {
        self.loop_depth += 1;
        let body = self.statement();
        self.loop_depth -= 1;
        body
    }

    /// The three clauses of a `for`, with their brackets.
    fn for_clauses(&mut self) -> (res: Result<(Option<Stmt>, Option<Expr>, Option<Expr>), LoxError>)
        requires
            old(self).wf(),
        ensures
            stepped(
                *old(self),
                *final(self),
                res is Ok,
                grammar::for_clauses(old(self).tokens@, old(self).state()).1,
            ),
            match res {
                Ok(clauses) => grammar::for_clauses(old(self).tokens@, old(self).state()).0 == Ok::<
                    (Option<StmtView>, Option<ExprView>, Option<ExprView>),
                    LoxError,
                >((stmt_option(clauses.0), expr_option(clauses.1), expr_option(clauses.2))),
                Err(e) => grammar::for_clauses(old(self).tokens@, old(self).state()).0 == Err::<
                    (Option<StmtView>, Option<ExprView>, Option<ExprView>),
                    LoxError,
                >(e),
            },
    {
        proof {
            reveal(grammar::for_clauses);
        }
        self.consume(TokenType::LeftBracket, Message::ExpectLeftBracketAfterFor)?;
        let initialiser = self.for_initialiser()?;
        let condition = self.optional_expression(TokenType::Semicolon)?;
        self.consume(TokenType::Semicolon, Message::ExpectSemicolonAfterLoopCondition)?;
        let increment = self.optional_expression(TokenType::RightBracket)?;
        self.consume(TokenType::RightBracket, Message::ExpectRightBracketAfterForClauses)?;
        Ok((initialiser, condition, increment))
    }

    fn for_statement(&mut self) -> (res: Result<Stmt, LoxError>)
        requires
            old(self).wf(),
            old(self).loop_depth < old(self).current,
        ensures
            stepped(
                *old(self),
                *final(self),
                res is Ok,
                grammar::for_statement(old(self).tokens@, old(self).state()).1,
            ),
            stmt_result(res) == grammar::for_statement(old(self).tokens@, old(self).state()).0,
        decreases grammar::remaining(old(self).tokens@, old(self).state()), 20int,
    {
        let (initialiser, condition, increment) = self.for_clauses()?;
        let body = self.loop_body()?;
        Ok(desugar_for(initialiser, condition, increment, body))
    }

    /// "(" expression ")" with the messages of the statement it belongs
    /// to.
    fn condition(&mut self, open: Message, close: Message) -> (res: Result<Expr, LoxError>)
        requires
            old(self).wf(),
        ensures
            stepped(
                *old(self),
                *final(self),
                res is Ok,
                grammar::condition(old(self).tokens@, old(self).state(), open, close).1,
            ),
            expr_result(res) == grammar::condition(
                old(self).tokens@,
                old(self).state(),
                open,
                close,
            ).0,
    {
        self.consume(TokenType::LeftBracket, open)?;
        let condition = self.expression()?;
        self.consume(TokenType::RightBracket, close)?;
        Ok(condition)
    }

    fn if_statement(&mut self) -> (res: Result<Stmt, LoxError>)
        requires
            old(self).wf(),
        ensures
            stepped(
                *old(self),
                *final(self),
                res is Ok,
                grammar::if_statement(old(self).tokens@, old(self).state()).1,
            ),
            stmt_result(res) == grammar::if_statement(old(self).tokens@, old(self).state()).0,
        decreases grammar::remaining(old(self).tokens@, old(self).state()), 20int,
    {
        let condition = self.condition(
            Message::ExpectLeftBracketAfterIf,
            Message::ExpectRightBracketAfterIfCondition,
        )?;
        let then_branch = self.statement()?;
        let else_branch = if self.is_match(TokenType::Else) {
            Some(Rc::new(self.statement()?))
        } else {
            None
        };
        Ok(
            Stmt::If(
                Rc::new(
                    IfStmt {
                        condition: Rc::new(condition),
                        then_branch: Rc::new(then_branch),
                        else_branch,
                    },
                ),
            ),
        )
    }

    fn print_statement(&mut self) -> (res: Result<Stmt, LoxError>)
        requires
            old(self).wf(),
        ensures
            stepped(
                *old(self),
                *final(self),
                res is Ok,
                grammar::print_statement(old(self).tokens@, old(self).state()).1,
            ),
            stmt_result(res) == grammar::print_statement(old(self).tokens@, old(self).state()).0,
    {
        let value = self.expression()?;
        self.consume(TokenType::Semicolon, Message::ExpectSemicolonAfterValue)?;
        Ok(Stmt::Print(Rc::new(PrintStmt { expression: Rc::new(value) })))
    }

    fn return_statement(&mut self) -> (res: Result<Stmt, LoxError>)
        requires
            old(self).wf(),
            old(self).current >= 1,
        ensures
            stepped(
                *old(self),
                *final(self),
                res is Ok,
                grammar::return_statement(
                    old(self).tokens@,
                    old(self).state(),
                    old(self).tokens@[old(self).current - 1],
                ).1,
            ),
            stmt_result(res) == grammar::return_statement(
                old(self).tokens@,
                old(self).state(),
                old(self).tokens@[old(self).current - 1],
            ).0,
    {
        let keyword = self.previous().clone();
        if self.is_match(TokenType::Semicolon) {
            return Ok(Stmt::Return(Rc::new(ReturnStmt { keyword, value: None })));
        }
        let value = self.expression()?;
        self.consume(TokenType::Semicolon, Message::ExpectSemicolonAfterReturnValue)?;
        Ok(Stmt::Return(Rc::new(ReturnStmt { keyword, value: Some(Rc::new(value)) })))
    }

    fn var_declaration(&mut self) -> (res: Result<Stmt, LoxError>)
        requires
            old(self).wf(),
        ensures
            stepped(
                *old(self),
                *final(self),
                res is Ok,
                grammar::var_declaration(old(self).tokens@, old(self).state()).1,
            ),
            stmt_result(res) == grammar::var_declaration(old(self).tokens@, old(self).state()).0,
    {
        let name = self.consume(TokenType::Identifier, Message::ExpectVariableName)?;
        let initialiser = if self.is_match(TokenType::Assign) {
            Some(Rc::new(self.expression()?))
        } else {
            None
        };
        self.consume(TokenType::Semicolon, Message::ExpectSemicolonAfterVariableDeclaration)?;
        Ok(Stmt::Var(Rc::new(VarStmt { name, initialiser })))
    }

    fn while_statement(&mut self) -> (res: Result<Stmt, LoxError>)
        requires
            old(self).wf(),
            old(self).loop_depth < old(self).current,
        ensures
            stepped(
                *old(self),
                *final(self),
                res is Ok,
                grammar::while_statement(old(self).tokens@, old(self).state()).1,
            ),
            stmt_result(res) == grammar::while_statement(old(self).tokens@, old(self).state()).0,
        decreases grammar::remaining(old(self).tokens@, old(self).state()), 20int,
    {
        let condition = self.condition(
            Message::ExpectLeftBracketAfterWhile,
            Message::ExpectRightBracketAfterCondition,
        )?;
        let body = self.loop_body()?;
        Ok(Stmt::While(Rc::new(WhileStmt { condition: Rc::new(condition), body: Rc::new(body) })))
    }

    fn expression_statement(&mut self) -> (res: Result<Stmt, LoxError>)
        requires
            old(self).wf(),
        ensures
            stepped(
                *old(self),
                *final(self),
                res is Ok,
                grammar::expression_statement(old(self).tokens@, old(self).state()).1,
            ),
            stmt_result(res) == grammar::expression_statement(
                old(self).tokens@,
                old(self).state(),
            ).0,
    {
        let expr = self.expression()?;
        self.consume(TokenType::Semicolon, Message::ExpectSemicolonAfterExpression)?;
        Ok(Stmt::Expression(Rc::new(ExpressionStmt { expression: Rc::new(expr) })))
    }

    /// The parameters of a function.
    fn parameters(&mut self) -> (res: Result<Vec<Token>, LoxError>)
        requires
            old(self).wf(),
        ensures
            stepped(
                *old(self),
                *final(self),
                false,
                grammar::parameters(old(self).tokens@, old(self).state()).1,
            ),
            match res {
                Ok(params) => grammar::parameters(old(self).tokens@, old(self).state()).0 == Ok::<
                    Seq<Token>,
                    LoxError,
                >(params@),
                Err(e) => grammar::parameters(old(self).tokens@, old(self).state()).0 == Err::<
                    Seq<Token>,
                    LoxError,
                >(e),
            },
    {
        let mut params: Vec<Token> = Vec::new();
        if !self.check(TokenType::RightBracket) {
            let first = self.consume(TokenType::Identifier, Message::ExpectParameterName)?;
            params.push(first);
            assert(params@ =~= seq![first]);
            while self.check(TokenType::Comma)
                invariant
                    self.wf(),
                    self.tokens == old(self).tokens,
                    self.loop_depth == old(self).loop_depth,
                    self.first_id == old(self).first_id,
                self.first_id == old(self).first_id,
                    self.current >= old(self).current,
                    grammar::parameters_rest(self.tokens@, self.state(), params@)
                        == grammar::parameters(old(self).tokens@, old(self).state()),
                decreases grammar::remaining(self.tokens@, self.state()),
            {
                self.advance();
                if params.len() >= 255 {
                    let token = self.peek().clone();
                    self.error(&token, Message::TooManyParameters);
                }
                let param = self.consume(TokenType::Identifier, Message::ExpectParameterName)?;
                params.push(param);
            }
        }
        Ok(params)
    }

    fn function(&mut self, kind: FunctionKind) -> (res: Result<FunctionStmt, LoxError>)
        requires
            old(self).wf(),
        ensures
            stepped(
                *old(self),
                *final(self),
                res is Ok,
                grammar::function(old(self).tokens@, old(self).state(), kind).1,
            ),
            function_result(res) == grammar::function(old(self).tokens@, old(self).state(), kind).0,
        decreases grammar::remaining(old(self).tokens@, old(self).state()), 25int,
    {
        let name = self.consume(TokenType::Identifier, kind.name_error())?;
        self.consume(TokenType::LeftBracket, kind.bracket_error())?;
        let params = self.parameters()?;
        self.consume(TokenType::RightBracket, Message::ExpectRightBracketAfterParameters)?;
        self.consume(TokenType::LeftBrace, kind.body_error())?;
        let body = self.block()?;
        Ok(FunctionStmt { name, params: Rc::new(params), body: Rc::new(body) })
    }

    fn block(&mut self) -> (res: Result<Vec<Rc<Stmt>>, LoxError>)
        requires
            old(self).wf(),
        ensures
            stepped(
                *old(self),
                *final(self),
                res is Ok,
                grammar::block(old(self).tokens@, old(self).state()).1,
            ),
            stmts_result(res) == grammar::block(old(self).tokens@, old(self).state()).0,
        decreases grammar::remaining(old(self).tokens@, old(self).state()), 21int,
    {
        let mut statements: Vec<Rc<Stmt>> = Vec::new();
        while !self.check(TokenType::RightBrace) && !self.is_at_end()
            invariant
                self.wf(),
                self.tokens == old(self).tokens,
                self.loop_depth == old(self).loop_depth,
                self.first_id == old(self).first_id,
                self.current >= old(self).current,
                grammar::block_rest(self.tokens@, self.state(), stmt_views(statements@))
                    == grammar::block(old(self).tokens@, old(self).state()),
            decreases grammar::remaining(self.tokens@, self.state()),
        {
            let statement = self.declaration()?;
            let statement = Rc::new(statement);
            proof {
                stmt_views_push(statements@, statement);
            }
            statements.push(statement);
        }
        self.consume(TokenType::RightBrace, Message::ExpectRightBraceAfterBlock)?;
        Ok(statements)
    }

    fn assignment(&mut self) -> (res: Result<Expr, LoxError>)
        requires
            old(self).wf(),
        ensures
            stepped(
                *old(self),
                *final(self),
                res is Ok,
                grammar::assignment(old(self).tokens@, old(self).state()).1,
            ),
            expr_result(res) == grammar::assignment(old(self).tokens@, old(self).state()).0,
        decreases grammar::remaining(old(self).tokens@, old(self).state()), 39int,
    {
        let expr = self.binary(0)?;
        if !self.check(TokenType::Assign) {
            return Ok(expr);
        }
        let equals = self.peek().clone();
        self.advance();
        let id = match &expr {
            Expr::Variable(_) => self.fresh_id(),
            _ => 0,
        };
        let value = self.assignment()?;
        match &expr {
            Expr::Variable(v) => Ok(
                Expr::Assign(Rc::new(AssignExpr { id, name: v.name.clone(), value: Rc::new(value) })),
            ),
            Expr::Get(g) => Ok(
                Expr::SetField(
                    Rc::new(
                        SetExpr {
                            object: share(&g.object),
                            name: g.name.clone(),
                            value: Rc::new(value),
                        },
                    ),
                ),
            ),
            _ => {
                self.error(&equals, Message::InvalidAssignmentTarget);
                Ok(expr)
            },
        }
    }

    /// The operand of a binary level.
    fn operand(&mut self, level: u8) -> (res: Result<Expr, LoxError>)
        requires
            old(self).wf(),
            level <= 5,
        ensures
            stepped(
                *old(self),
                *final(self),
                res is Ok,
                grammar::operand(old(self).tokens@, old(self).state(), level as nat).1,
            ),
            expr_result(res) == grammar::operand(
                old(self).tokens@,
                old(self).state(),
                level as nat,
            ).0,
        decreases grammar::remaining(old(self).tokens@, old(self).state()), 29 - 2 * level,
    {
        if level < 5 {
            self.binary(level + 1)
        } else {
            self.unary()
        }
    }

    /// The binary operators of one level: `or`, `and`, equality,
    /// comparison, terms and factors are the levels 0 to 5.
    fn binary(&mut self, level: u8) -> (res: Result<Expr, LoxError>)
        requires
            old(self).wf(),
            level <= 5,
        ensures
            stepped(
                *old(self),
                *final(self),
                res is Ok,
                grammar::binary(old(self).tokens@, old(self).state(), level as nat).1,
            ),
            expr_result(res) == grammar::binary(
                old(self).tokens@,
                old(self).state(),
                level as nat,
            ).0,
        decreases grammar::remaining(old(self).tokens@, old(self).state()), 30 - 2 * level,
    {
        let mut expr = self.operand(level)?;
        while !self.is_at_end() && operator_at(level, self.peek().token_type)
            invariant
                self.wf(),
                level <= 5,
                self.tokens == old(self).tokens,
                self.loop_depth == old(self).loop_depth,
                self.first_id == old(self).first_id,
                self.current > old(self).current,
                grammar::binary_rest(self.tokens@, self.state(), level as nat, expr@)
                    == grammar::binary(old(self).tokens@, old(self).state(), level as nat),
            decreases grammar::remaining(self.tokens@, self.state()),
        {
            let operator = self.peek().clone();
            self.advance();
            let right = self.operand(level)?;
            expr = if level <= 1 {
                Expr::Logical(
                    Rc::new(LogicalExpr { left: Rc::new(expr), operator, right: Rc::new(right) }),
                )
            } else {
                Expr::Binary(
                    Rc::new(BinaryExpr { left: Rc::new(expr), operator, right: Rc::new(right) }),
                )
            };
        }
        Ok(expr)
    }

    fn unary(&mut self) -> (res: Result<Expr, LoxError>)
        requires
            old(self).wf(),
        ensures
            stepped(
                *old(self),
                *final(self),
                res is Ok,
                grammar::unary(old(self).tokens@, old(self).state()).1,
            ),
            expr_result(res) == grammar::unary(old(self).tokens@, old(self).state()).0,
        decreases grammar::remaining(old(self).tokens@, old(self).state()), 10int,
    {
        if self.check(TokenType::Bang) || self.check(TokenType::Minus) {
            let operator = self.peek().clone();
            self.advance();
            let right = self.unary()?;
            return Ok(Expr::Unary(Rc::new(UnaryExpr { operator, right: Rc::new(right) })));
        }
        self.call()
    }

    fn finish_call(&mut self, callee: Expr) -> (res: Result<Expr, LoxError>)
        requires
            old(self).wf(),
        ensures
            stepped(
                *old(self),
                *final(self),
                res is Ok,
                grammar::finish_call(old(self).tokens@, old(self).state(), callee@).1,
            ),
            expr_result(res) == grammar::finish_call(
                old(self).tokens@,
                old(self).state(),
                callee@,
            ).0,
        decreases grammar::remaining(old(self).tokens@, old(self).state()), 50int,
    {
        let mut arguments: Vec<Rc<Expr>> = Vec::new();
        if !self.check(TokenType::RightBracket) {
            let first = Rc::new(self.expression()?);
            proof {
                expr_views_push(arguments@, first);
                assert(expr_views(arguments@.push(first)) =~= seq![first@]);
            }
            arguments.push(first);
            while self.check(TokenType::Comma)
                invariant
                    self.wf(),
                    self.tokens == old(self).tokens,
                    self.loop_depth == old(self).loop_depth,
                    self.first_id == old(self).first_id,
                self.first_id == old(self).first_id,
                    self.current > old(self).current,
                    grammar::arguments_rest(
                        self.tokens@,
                        self.state(),
                        callee@,
                        expr_views(arguments@),
                    ) == grammar::finish_call(old(self).tokens@, old(self).state(), callee@),
                decreases grammar::remaining(self.tokens@, self.state()),
            {
                self.advance();
                proof {
                    crate::expr::expr_views_index(arguments@);
                }
                if arguments.len() >= 255 {
                    let token = self.peek().clone();
                    self.error(&token, Message::TooManyArguments);
                }
                let argument = Rc::new(self.expression()?);
                proof {
                    expr_views_push(arguments@, argument);
                }
                arguments.push(argument);
            }
        } else {
            assert(expr_views(arguments@) =~= Seq::<ExprView>::empty());
        }
        let bracket = self.consume(TokenType::RightBracket, Message::ExpectRightBracketAfterArguments)?;
        Ok(
            Expr::Call(
                Rc::new(CallExpr { callee: Rc::new(callee), bracket, arguments: Rc::new(arguments) }),
            ),
        )
    }

    fn call(&mut self) -> (res: Result<Expr, LoxError>)
        requires
            old(self).wf(),
        ensures
            stepped(
                *old(self),
                *final(self),
                res is Ok,
                grammar::call(old(self).tokens@, old(self).state()).1,
            ),
            expr_result(res) == grammar::call(old(self).tokens@, old(self).state()).0,
        decreases grammar::remaining(old(self).tokens@, old(self).state()), 9int,
    {
        let mut expr = self.primary()?;
        while self.check(TokenType::LeftBracket) || self.check(TokenType::Dot)
            invariant
                self.wf(),
                self.tokens == old(self).tokens,
                self.loop_depth == old(self).loop_depth,
                self.first_id == old(self).first_id,
                self.current > old(self).current,
                grammar::call_rest(self.tokens@, self.state(), expr@) == grammar::call(
                    old(self).tokens@,
                    old(self).state(),
                ),
            decreases grammar::remaining(self.tokens@, self.state()),
        {
            if self.is_match(TokenType::LeftBracket) {
                expr = self.finish_call(expr)?;
            } else {
                self.advance();
                let name = self.consume(TokenType::Identifier, Message::ExpectPropertyName)?;
                expr = Expr::Get(Rc::new(GetExpr { object: Rc::new(expr), name }));
            }
        }
        Ok(expr)
    }

    fn primary(&mut self) -> (res: Result<Expr, LoxError>)
        requires
            old(self).wf(),
        ensures
            stepped(
                *old(self),
                *final(self),
                res is Ok,
                grammar::primary(old(self).tokens@, old(self).state()).1,
            ),
            expr_result(res) == grammar::primary(old(self).tokens@, old(self).state()).0,
        decreases grammar::remaining(old(self).tokens@, old(self).state()), 7int,
    {
        if self.is_match(TokenType::False) {
            return Ok(Expr::Literal(Rc::new(LiteralExpr { value: Some(Literal::Boolean(false)) })));
        }
        if self.is_match(TokenType::True) {
            return Ok(Expr::Literal(Rc::new(LiteralExpr { value: Some(Literal::Boolean(true)) })));
        }
        if self.is_match(TokenType::Nil) {
            return Ok(Expr::Literal(Rc::new(LiteralExpr { value: Some(Literal::Nil) })));
        }
        if self.check(TokenType::Number) || self.check(TokenType::String) {
            self.advance();
            let value = match &self.previous().literal {
                Some(l) => Some(l.clone()),
                None => None,
            };
            return Ok(Expr::Literal(Rc::new(LiteralExpr { value })));
        }
        if self.is_match(TokenType::Super) {
            let keyword = self.previous().clone();
            self.consume(TokenType::Dot, Message::ExpectDotAfterSuper)?;
            let method = self.consume(TokenType::Identifier, Message::ExpectSuperclassMethodName)?;
            let id = self.fresh_id();
            return Ok(Expr::Super(Rc::new(SuperExpr { id, keyword, method })));
        }
        if self.is_match(TokenType::This) {
            let keyword = self.previous().clone();
            let id = self.fresh_id();
            return Ok(Expr::This(Rc::new(ThisExpr { id, keyword })));
        }
        if self.is_match(TokenType::Identifier) {
            let name = self.previous().clone();
            let id = self.fresh_id();
            return Ok(Expr::Variable(Rc::new(VariableExpr { id, name })));
        }
        if self.is_match(TokenType::LeftBracket) {
            let expr = self.expression()?;
            self.consume(TokenType::RightBracket, Message::ExpectRightBracketAfterExpression)?;
            return Ok(Expr::Grouping(Rc::new(GroupingExpr { expression: Rc::new(expr) })));
        }
        let token = self.peek().clone();
        Err(self.error(&token, Message::ExpectExpression))
    }

    /// Reports an error at `token`.
    fn error(&mut self, token: &Token, message: Message) -> (e: LoxError)
        requires
            old(self).wf(),
        ensures
            e == LoxError::at(*token, message),
            stepped(*old(self), *final(self), false, grammar::report(old(self).state(), e)),
            final(self).next_id == old(self).next_id,
    {
        let e = LoxError::parse_error(token, message);
        self.errors.push(e.clone());
        e
    }

    /// The identity for the next variable use.
    fn fresh_id(&mut self) -> (id: usize)
        requires
            old(self).wf(),
            old(self).next_id - old(self).first_id < old(self).current,
        ensures
            id == old(self).next_id,
            stepped(*old(self), *final(self), false, grammar::fresh(old(self).state())),
    {
        let id = self.next_id;
        self.next_id += 1;
        id
    }

    /// Takes the next token if it is of kind `token_type`.
    fn is_match(&mut self, token_type: TokenType) -> (b: bool)
        requires
            old(self).wf(),
        ensures
            b == grammar::check(old(self).tokens@, old(self).state(), token_type),
            stepped(
                *old(self),
                *final(self),
                b,
                if b {
                    grammar::advance(old(self).state())
                } else {
                    old(self).state()
                },
            ),
            final(self).next_id == old(self).next_id,
    {
        if self.check(token_type) {
            self.advance();
            true
        } else {
            false
        }
    }

    /// Takes the next token if it is of kind `token_type`, and reports
    /// `message` at it otherwise.
    fn consume(&mut self, token_type: TokenType, message: Message) -> (res: Result<Token, LoxError>)
        requires
            old(self).wf(),
        ensures
            res == grammar::consume(old(self).tokens@, old(self).state(), token_type, message).0,
            stepped(
                *old(self),
                *final(self),
                res is Ok,
                grammar::consume(old(self).tokens@, old(self).state(), token_type, message).1,
            ),
            final(self).next_id == old(self).next_id,
    {
        if self.check(token_type) {
            let token = self.peek().clone();
            self.advance();
            return Ok(token);
        }
        let token = self.peek().clone();
        Err(self.error(&token, message))
    }

    fn check(&self, token_type: TokenType) -> (b: bool)
        requires
            self.wf(),
        ensures
            b == grammar::check(self.tokens@, self.state(), token_type),
    {
        if self.is_at_end() {
            return false;
        }
        self.peek().is_type(&token_type)
    }

    /// Moves to the next token, unless the parser stands on the
    /// end-of-file token.
    fn advance(&mut self)
        requires
            old(self).wf(),
        ensures
            stepped(
                *old(self),
                *final(self),
                !grammar::at_end(old(self).tokens@, old(self).state()),
                if grammar::at_end(old(self).tokens@, old(self).state()) {
                    old(self).state()
                } else {
                    grammar::advance(old(self).state())
                },
            ),
            final(self).next_id == old(self).next_id,
    {
        if !self.is_at_end() {
            let length: usize = self.tokens.len();
            assert(self.current < length);
            self.current += 1;
        }
    }

    fn is_at_end(&self) -> (b: bool)
        requires
            self.wf(),
        ensures
            b == grammar::at_end(self.tokens@, self.state()),
    {
        self.peek().is_type(&TokenType::Eof)
    }

    fn peek(&self) -> (t: &Token)
        requires
            self.wf(),
        ensures
            *t == grammar::peek(self.tokens@, self.state()),
    {
        &self.tokens[self.current]
    }

    fn previous(&self) -> (t: &Token)
        requires
            self.wf(),
            self.current >= 1,
        ensures
            *t == self.tokens@[self.current - 1],
    {
        &self.tokens[self.current - 1]
    }

    /// Recovers after an error.
    fn synchronise(&mut self)
        requires
            old(self).wf(),
        ensures
            stepped(
                *old(self),
                *final(self),
                !grammar::at_end(old(self).tokens@, old(self).state()),
                grammar::synchronise(old(self).tokens@, old(self).state()),
            ),
    {
        if self.is_at_end() {
            return ;
        }
        self.advance();
        while !self.is_at_end() && !self.previous().is_type(&TokenType::Semicolon)
            && !begins_statement(self.peek().token_type)
            invariant
                self.wf(),
                self.tokens == old(self).tokens,
                self.loop_depth == old(self).loop_depth,
                self.first_id == old(self).first_id,
                self.current > old(self).current,
                grammar::synchronise_rest(self.tokens@, self.state()) == grammar::synchronise(
                    old(self).tokens@,
                    old(self).state(),
                ),
            decreases grammar::remaining(self.tokens@, self.state()),
        {
            self.advance();
        }
    }
}

} // verus!
