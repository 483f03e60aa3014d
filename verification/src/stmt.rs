//! Statements.

use vstd::prelude::*;
use std::rc::Rc;
use crate::error::LoxError;
use crate::expr::{expr_view, share, Expr, ExprView};
use crate::token::Token;

verus! {

#[derive(Debug)]
pub enum Stmt {
    Block(Rc<BlockStmt>),
    Break(Rc<BreakStmt>),
    Class(Rc<ClassStmt>),
    Expression(Rc<ExpressionStmt>),
    Function(Rc<FunctionStmt>),
    If(Rc<IfStmt>),
    Print(Rc<PrintStmt>),
    Return(Rc<ReturnStmt>),
    Var(Rc<VarStmt>),
    While(Rc<WhileStmt>),
}

#[derive(Debug)]
pub struct BlockStmt {
    pub statements: Rc<Vec<Rc<Stmt>>>,
}

#[derive(Debug)]
pub struct BreakStmt {
    pub token: Token,
}

/// A class declaration. `superclass`, if there is one, is a `Variable`
/// expression; the methods are the functions of the class.
#[derive(Debug)]
pub struct ClassStmt {
    pub name: Token,
    pub superclass: Option<Rc<Expr>>,
    pub methods: Rc<Vec<Rc<FunctionStmt>>>,
}

#[derive(Debug)]
pub struct ExpressionStmt {
    pub expression: Rc<Expr>,
}

#[derive(Debug)]
pub struct FunctionStmt {
    pub name: Token,
    pub params: Rc<Vec<Token>>,
    pub body: Rc<Vec<Rc<Stmt>>>,
}

#[derive(Debug)]
pub struct IfStmt {
    pub condition: Rc<Expr>,
    pub then_branch: Rc<Stmt>,
    pub else_branch: Option<Rc<Stmt>>,
}

#[derive(Debug)]
pub struct PrintStmt {
    pub expression: Rc<Expr>,
}

#[derive(Debug)]
pub struct ReturnStmt {
    pub keyword: Token,
    pub value: Option<Rc<Expr>>,
}

#[derive(Debug)]
pub struct VarStmt {
    pub name: Token,
    pub initialiser: Option<Rc<Expr>>,
}

#[derive(Debug)]
pub struct WhileStmt {
    pub condition: Rc<Expr>,
    pub body: Rc<Stmt>,
}

/// A function declaration as a mathematical tree.
pub ghost struct FunctionView {
    pub name: Token,
    pub params: Seq<Token>,
    pub body: Seq<StmtView>,
}

/// A statement as a mathematical tree: lists are sequences.
#[allow(inconsistent_fields)]
pub ghost enum StmtView {
    Block { statements: Seq<StmtView> },
    Break { token: Token },
    Class { name: Token, superclass: Option<ExprView>, methods: Seq<FunctionView> },
    Expression { expression: ExprView },
    Function { function: FunctionView },
    If { condition: ExprView, then_branch: Box<StmtView>, else_branch: Option<Box<StmtView>> },
    Print { expression: ExprView },
    Return { keyword: Token, value: Option<ExprView> },
    Var { name: Token, initialiser: Option<ExprView> },
    While { condition: ExprView, body: Box<StmtView> },
}

/// The tree of a statement.
pub open spec fn stmt_view(stmt: Stmt) -> StmtView
    decreases stmt,
{
    match stmt {
        Stmt::Block(s) => StmtView::Block { statements: stmt_views(s.statements@) },
        Stmt::Break(s) => StmtView::Break { token: s.token },
        Stmt::Class(s) => StmtView::Class {
            name: s.name,
            superclass: match s.superclass {
                Some(e) => Some(expr_view(*e)),
                None => None,
            },
            methods: function_views(s.methods@),
        },
        Stmt::Expression(s) => StmtView::Expression { expression: expr_view(*s.expression) },
        Stmt::Function(s) => StmtView::Function { function: function_view(*s) },
        Stmt::If(s) => StmtView::If {
            condition: expr_view(*s.condition),
            then_branch: Box::new(stmt_view(*s.then_branch)),
            else_branch: match s.else_branch {
                Some(b) => Some(Box::new(stmt_view(*b))),
                None => None,
            },
        },
        Stmt::Print(s) => StmtView::Print { expression: expr_view(*s.expression) },
        Stmt::Return(s) => StmtView::Return {
            keyword: s.keyword,
            value: match s.value {
                Some(e) => Some(expr_view(*e)),
                None => None,
            },
        },
        Stmt::Var(s) => StmtView::Var {
            name: s.name,
            initialiser: match s.initialiser {
                Some(e) => Some(expr_view(*e)),
                None => None,
            },
        },
        Stmt::While(s) => StmtView::While {
            condition: expr_view(*s.condition),
            body: Box::new(stmt_view(*s.body)),
        },
    }
}

impl View for Stmt {
    type V = StmtView;

    open spec fn view(&self) -> StmtView {
        stmt_view(*self)
    }
}

/// The tree of a function declaration.
pub open spec fn function_view(function: FunctionStmt) -> FunctionView
    decreases function,
{
    FunctionView { name: function.name, params: function.params@, body: stmt_views(function.body@) }
}

impl View for FunctionStmt {
    type V = FunctionView;

    open spec fn view(&self) -> FunctionView {
        function_view(*self)
    }
}

/// The views of a list of statements, in order.
pub open spec fn stmt_views(stmts: Seq<Rc<Stmt>>) -> Seq<StmtView>
    decreases stmts,
{
    if stmts.len() == 0 {
        Seq::empty()
    } else {
        stmt_views(stmts.drop_last()).push(stmt_view(*stmts.last()))
    }
}

/// The views of a list of function declarations, in order.
pub open spec fn function_views(functions: Seq<Rc<FunctionStmt>>) -> Seq<FunctionView>
    decreases functions,
{
    if functions.len() == 0 {
        Seq::empty()
    } else {
        function_views(functions.drop_last()).push(function_view(*functions.last()))
    }
}

/// The views of a list follow the list: one more statement, one more view.
pub proof fn stmt_views_push(stmts: Seq<Rc<Stmt>>, stmt: Rc<Stmt>)
    ensures
        stmt_views(stmts.push(stmt)) == stmt_views(stmts).push(stmt.view()),
{
    assert(stmts.push(stmt).drop_last() =~= stmts);
}

/// The views of a list follow the list: one more function, one more view.
pub proof fn function_views_push(functions: Seq<Rc<FunctionStmt>>, function: Rc<FunctionStmt>)
    ensures
        function_views(functions.push(function)) == function_views(functions).push(
            function.view(),
        ),
{
    assert(functions.push(function).drop_last() =~= functions);
}

/// A list has as many views as statements, each the view of its statement.
pub proof fn stmt_views_index(stmts: Seq<Rc<Stmt>>)
    ensures
        stmt_views(stmts).len() == stmts.len(),
        forall|i: int| 0 <= i < stmts.len() ==> (#[trigger] stmt_views(stmts)[i]) == stmts[i].view(),
    decreases stmts.len(),
{
    if stmts.len() > 0 {
        stmt_views_index(stmts.drop_last());
    }
}

/// A list has as many views as functions, each the view of its function.
pub proof fn function_views_index(functions: Seq<Rc<FunctionStmt>>)
    ensures
        function_views(functions).len() == functions.len(),
        forall|i: int|
            0 <= i < functions.len() ==> (#[trigger] function_views(functions)[i])
                == functions[i].view(),
    decreases functions.len(),
{
    if functions.len() > 0 {
        function_views_index(functions.drop_last());
    }
}

/// The trees of the statements of a program.
pub open spec fn program_views(statements: Seq<Stmt>) -> Seq<StmtView> {
    statements.map_values(|s: Stmt| s@)
}

/// The statements of a program as a shared list, as a block holds them.
pub fn shared(statements: &Vec<Stmt>) -> (list: Rc<Vec<Rc<Stmt>>>)
    ensures
        stmt_views(list@) == program_views(statements@),
{
    let mut list: Vec<Rc<Stmt>> = Vec::new();
    let mut i: usize = 0;
    while i < statements.len()
        invariant
            i <= statements@.len(),
            stmt_views(list@) == program_views(statements@.subrange(0, i as int)),
        decreases statements@.len() - i,
    {
        let statement = Rc::new(statements[i].share());
        proof {
            stmt_views_push(list@, statement);
            assert(program_views(statements@.subrange(0, i + 1)) =~= program_views(
                statements@.subrange(0, i as int),
            ).push(statement@));
        }
        list.push(statement);
        i += 1;
    }
    assert(statements@.subrange(0, i as int) =~= statements@);
    Rc::new(list)
}

/// A visitor of statements: one method for each kind of node.
///
/// `visits` says what the visitor makes of a node; each method keeps to
/// it for its kind of node.
pub trait StmtVisitor<T> {
    /// What the visitor makes of a node. A visitor that says nothing
    /// promises nothing.
    open spec fn visits(&self, stmt: Stmt, result: Result<T, LoxError>) -> bool {
        true
    }

    fn visit_block_stmt(&self, wrapper: &Rc<Stmt>, stmt: &Rc<BlockStmt>) -> (result: Result<T, LoxError>)
        ensures
            self.visits(Stmt::Block(*stmt), result),
    ;

    fn visit_break_stmt(&self, wrapper: &Rc<Stmt>, stmt: &Rc<BreakStmt>) -> (result: Result<T, LoxError>)
        ensures
            self.visits(Stmt::Break(*stmt), result),
    ;

    fn visit_class_stmt(&self, wrapper: &Rc<Stmt>, stmt: &Rc<ClassStmt>) -> (result: Result<T, LoxError>)
        ensures
            self.visits(Stmt::Class(*stmt), result),
    ;

    fn visit_expression_stmt(&self, wrapper: &Rc<Stmt>, stmt: &Rc<ExpressionStmt>) -> (result: Result<T, LoxError>)
        ensures
            self.visits(Stmt::Expression(*stmt), result),
    ;

    fn visit_function_stmt(&self, wrapper: &Rc<Stmt>, stmt: &Rc<FunctionStmt>) -> (result: Result<T, LoxError>)
        ensures
            self.visits(Stmt::Function(*stmt), result),
    ;

    fn visit_if_stmt(&self, wrapper: &Rc<Stmt>, stmt: &Rc<IfStmt>) -> (result: Result<T, LoxError>)
        ensures
            self.visits(Stmt::If(*stmt), result),
    ;

    fn visit_print_stmt(&self, wrapper: &Rc<Stmt>, stmt: &Rc<PrintStmt>) -> (result: Result<T, LoxError>)
        ensures
            self.visits(Stmt::Print(*stmt), result),
    ;

    fn visit_return_stmt(&self, wrapper: &Rc<Stmt>, stmt: &Rc<ReturnStmt>) -> (result: Result<T, LoxError>)
        ensures
            self.visits(Stmt::Return(*stmt), result),
    ;

    fn visit_var_stmt(&self, wrapper: &Rc<Stmt>, stmt: &Rc<VarStmt>) -> (result: Result<T, LoxError>)
        ensures
            self.visits(Stmt::Var(*stmt), result),
    ;

    fn visit_while_stmt(&self, wrapper: &Rc<Stmt>, stmt: &Rc<WhileStmt>) -> (result: Result<T, LoxError>)
        ensures
            self.visits(Stmt::While(*stmt), result),
    ;
}

impl Stmt {
    /// Hands the node to the method of the visitor for its kind, with
    /// `wrapper` as the handle of the node.
    pub fn accept<T, V: StmtVisitor<T>>(&self, wrapper: &Rc<Stmt>, stmt_visitor: &V) -> (result:
        Result<T, LoxError>)
        ensures
            stmt_visitor.visits(*self, result),
    {
        match self {
            Stmt::Block(stmt) => stmt_visitor.visit_block_stmt(wrapper, stmt),
            Stmt::Break(stmt) => stmt_visitor.visit_break_stmt(wrapper, stmt),
            Stmt::Class(stmt) => stmt_visitor.visit_class_stmt(wrapper, stmt),
            Stmt::Expression(stmt) => stmt_visitor.visit_expression_stmt(wrapper, stmt),
            Stmt::Function(stmt) => stmt_visitor.visit_function_stmt(wrapper, stmt),
            Stmt::If(stmt) => stmt_visitor.visit_if_stmt(wrapper, stmt),
            Stmt::Print(stmt) => stmt_visitor.visit_print_stmt(wrapper, stmt),
            Stmt::Return(stmt) => stmt_visitor.visit_return_stmt(wrapper, stmt),
            Stmt::Var(stmt) => stmt_visitor.visit_var_stmt(wrapper, stmt),
            Stmt::While(stmt) => stmt_visitor.visit_while_stmt(wrapper, stmt),
        }
    }

    /// A further handle to the same node.
    pub fn share(&self) -> (res: Stmt)
        ensures
            res == *self,
    {
        match self {
            Stmt::Block(s) => Stmt::Block(share(s)),
            Stmt::Break(s) => Stmt::Break(share(s)),
            Stmt::Class(s) => Stmt::Class(share(s)),
            Stmt::Expression(s) => Stmt::Expression(share(s)),
            Stmt::Function(s) => Stmt::Function(share(s)),
            Stmt::If(s) => Stmt::If(share(s)),
            Stmt::Print(s) => Stmt::Print(share(s)),
            Stmt::Return(s) => Stmt::Return(share(s)),
            Stmt::Var(s) => Stmt::Var(share(s)),
            Stmt::While(s) => Stmt::While(share(s)),
        }
    }
}

} // verus!
