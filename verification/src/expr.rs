//! Expressions.
//!
//! The nodes that use a variable (`Variable`, `Assign`, `This`, `Super`)
//! carry an `id`. The resolver and the interpreter know a node by it, so
//! two uses with the same text are still two nodes.

use vstd::prelude::*;
use std::rc::Rc;
use crate::error::LoxError;
use crate::token::{Literal, Token};

verus! {

#[derive(Debug)]
pub enum Expr {
    Assign(Rc<AssignExpr>),
    Binary(Rc<BinaryExpr>),
    Call(Rc<CallExpr>),
    Get(Rc<GetExpr>),
    Grouping(Rc<GroupingExpr>),
    Literal(Rc<LiteralExpr>),
    Logical(Rc<LogicalExpr>),
    SetField(Rc<SetExpr>),
    Super(Rc<SuperExpr>),
    This(Rc<ThisExpr>),
    Unary(Rc<UnaryExpr>),
    Variable(Rc<VariableExpr>),
}

#[derive(Debug)]
pub struct AssignExpr {
    pub id: usize,
    pub name: Token,
    pub value: Rc<Expr>,
}

#[derive(Debug)]
pub struct BinaryExpr {
    pub left: Rc<Expr>,
    pub operator: Token,
    pub right: Rc<Expr>,
}

#[derive(Debug)]
pub struct CallExpr {
    pub callee: Rc<Expr>,
    pub bracket: Token,
    pub arguments: Rc<Vec<Rc<Expr>>>,
}

#[derive(Debug)]
pub struct GetExpr {
    pub object: Rc<Expr>,
    pub name: Token,
}

#[derive(Debug)]
pub struct GroupingExpr {
    pub expression: Rc<Expr>,
}

#[derive(Debug)]
pub struct LiteralExpr {
    pub value: Option<Literal>,
}

#[derive(Debug)]
pub struct LogicalExpr {
    pub left: Rc<Expr>,
    pub operator: Token,
    pub right: Rc<Expr>,
}

#[derive(Debug)]
pub struct SetExpr {
    pub object: Rc<Expr>,
    pub name: Token,
    pub value: Rc<Expr>,
}

#[derive(Debug)]
pub struct SuperExpr {
    pub id: usize,
    pub keyword: Token,
    pub method: Token,
}

#[derive(Debug)]
pub struct ThisExpr {
    pub id: usize,
    pub keyword: Token,
}

#[derive(Debug)]
pub struct UnaryExpr {
    pub operator: Token,
    pub right: Rc<Expr>,
}

#[derive(Debug)]
pub struct VariableExpr {
    pub id: usize,
    pub name: Token,
}

/// An expression as a mathematical tree: lists are sequences.
#[allow(inconsistent_fields)]
pub ghost enum ExprView {
    Assign { id: usize, name: Token, value: Box<ExprView> },
    Binary { left: Box<ExprView>, operator: Token, right: Box<ExprView> },
    Call { callee: Box<ExprView>, bracket: Token, arguments: Seq<ExprView> },
    Get { object: Box<ExprView>, name: Token },
    Grouping { expression: Box<ExprView> },
    Literal { value: Option<Literal> },
    Logical { left: Box<ExprView>, operator: Token, right: Box<ExprView> },
    SetField { object: Box<ExprView>, name: Token, value: Box<ExprView> },
    Super { id: usize, keyword: Token, method: Token },
    This { id: usize, keyword: Token },
    Unary { operator: Token, right: Box<ExprView> },
    Variable { id: usize, name: Token },
}

/// The tree of an expression.
pub open spec fn expr_view(expr: Expr) -> ExprView
    decreases expr,
{
    match expr {
        Expr::Assign(e) => ExprView::Assign {
            id: e.id,
            name: e.name,
            value: Box::new(expr_view(*e.value)),
        },
        Expr::Binary(e) => ExprView::Binary {
            left: Box::new(expr_view(*e.left)),
            operator: e.operator,
            right: Box::new(expr_view(*e.right)),
        },
        Expr::Call(e) => ExprView::Call {
            callee: Box::new(expr_view(*e.callee)),
            bracket: e.bracket,
            arguments: expr_views(e.arguments@),
        },
        Expr::Get(e) => ExprView::Get { object: Box::new(expr_view(*e.object)), name: e.name },
        Expr::Grouping(e) => ExprView::Grouping { expression: Box::new(expr_view(*e.expression)) },
        Expr::Literal(e) => ExprView::Literal { value: e.value },
        Expr::Logical(e) => ExprView::Logical {
            left: Box::new(expr_view(*e.left)),
            operator: e.operator,
            right: Box::new(expr_view(*e.right)),
        },
        Expr::SetField(e) => ExprView::SetField {
            object: Box::new(expr_view(*e.object)),
            name: e.name,
            value: Box::new(expr_view(*e.value)),
        },
        Expr::Super(e) => ExprView::Super { id: e.id, keyword: e.keyword, method: e.method },
        Expr::This(e) => ExprView::This { id: e.id, keyword: e.keyword },
        Expr::Unary(e) => ExprView::Unary { operator: e.operator, right: Box::new(expr_view(*e.right)) },
        Expr::Variable(e) => ExprView::Variable { id: e.id, name: e.name },
    }
}

impl View for Expr {
    type V = ExprView;

    open spec fn view(&self) -> ExprView {
        expr_view(*self)
    }
}

/// The views of a list of expressions, in order.
pub open spec fn expr_views(exprs: Seq<Rc<Expr>>) -> Seq<ExprView>
    decreases exprs,
{
    if exprs.len() == 0 {
        Seq::empty()
    } else {
        expr_views(exprs.drop_last()).push(expr_view(*exprs.last()))
    }
}

/// The views of a list follow the list: one more expression, one more view.
pub proof fn expr_views_push(exprs: Seq<Rc<Expr>>, expr: Rc<Expr>)
    ensures
        expr_views(exprs.push(expr)) == expr_views(exprs).push(expr.view()),
{
    assert(exprs.push(expr).drop_last() =~= exprs);
}

/// A list has as many views as expressions, each the view of its expression.
pub proof fn expr_views_index(exprs: Seq<Rc<Expr>>)
    ensures
        expr_views(exprs).len() == exprs.len(),
        forall|i: int| 0 <= i < exprs.len() ==> (#[trigger] expr_views(exprs)[i]) == exprs[i].view(),
    decreases exprs.len(),
{
    if exprs.len() > 0 {
        expr_views_index(exprs.drop_last());
    }
}

/// `Rc::clone`: a further handle to the same value.
#[verifier::external_body]
pub(crate) fn share<T>(rc: &Rc<T>) -> (res: Rc<T>)
    ensures
        res == *rc,
{
    Rc::clone(rc)
}

/// A visitor of expressions: one method for each kind of node.
///
/// `visits` says what the visitor makes of a node; each method keeps to
/// it for its kind of node.
pub trait ExprVisitor<T> {
    /// What the visitor makes of a node. A visitor that says nothing
    /// promises nothing.
    open spec fn visits(&self, expr: Expr, result: Result<T, LoxError>) -> bool {
        true
    }

    fn visit_assign_expr(&self, wrapper: &Rc<Expr>, expr: &Rc<AssignExpr>) -> (result: Result<
        T,
        LoxError,
    >)
        ensures
            self.visits(Expr::Assign(*expr), result),
    ;

    fn visit_binary_expr(&self, wrapper: &Rc<Expr>, expr: &Rc<BinaryExpr>) -> (result: Result<
        T,
        LoxError,
    >)
        ensures
            self.visits(Expr::Binary(*expr), result),
    ;

    fn visit_call_expr(&self, wrapper: &Rc<Expr>, expr: &Rc<CallExpr>) -> (result: Result<
        T,
        LoxError,
    >)
        ensures
            self.visits(Expr::Call(*expr), result),
    ;

    fn visit_get_expr(&self, wrapper: &Rc<Expr>, expr: &Rc<GetExpr>) -> (result: Result<T, LoxError>)
        ensures
            self.visits(Expr::Get(*expr), result),
    ;

    fn visit_grouping_expr(&self, wrapper: &Rc<Expr>, expr: &Rc<GroupingExpr>) -> (result: Result<
        T,
        LoxError,
    >)
        ensures
            self.visits(Expr::Grouping(*expr), result),
    ;

    fn visit_literal_expr(&self, wrapper: &Rc<Expr>, expr: &Rc<LiteralExpr>) -> (result: Result<
        T,
        LoxError,
    >)
        ensures
            self.visits(Expr::Literal(*expr), result),
    ;

    fn visit_logical_expr(&self, wrapper: &Rc<Expr>, expr: &Rc<LogicalExpr>) -> (result: Result<
        T,
        LoxError,
    >)
        ensures
            self.visits(Expr::Logical(*expr), result),
    ;

    fn visit_set_expr(&self, wrapper: &Rc<Expr>, expr: &Rc<SetExpr>) -> (result: Result<T, LoxError>)
        ensures
            self.visits(Expr::SetField(*expr), result),
    ;

    fn visit_super_expr(&self, wrapper: &Rc<Expr>, expr: &Rc<SuperExpr>) -> (result: Result<
        T,
        LoxError,
    >)
        ensures
            self.visits(Expr::Super(*expr), result),
    ;

    fn visit_this_expr(&self, wrapper: &Rc<Expr>, expr: &Rc<ThisExpr>) -> (result: Result<
        T,
        LoxError,
    >)
        ensures
            self.visits(Expr::This(*expr), result),
    ;

    fn visit_unary_expr(&self, wrapper: &Rc<Expr>, expr: &Rc<UnaryExpr>) -> (result: Result<
        T,
        LoxError,
    >)
        ensures
            self.visits(Expr::Unary(*expr), result),
    ;

    fn visit_variable_expr(&self, wrapper: &Rc<Expr>, expr: &Rc<VariableExpr>) -> (result: Result<
        T,
        LoxError,
    >)
        ensures
            self.visits(Expr::Variable(*expr), result),
    ;
}

impl Expr {
    /// Hands the node to the method of the visitor for its kind, with
    /// `wrapper` as the handle of the node.
    pub fn accept<T, V: ExprVisitor<T>>(&self, wrapper: &Rc<Expr>, expr_visitor: &V) -> (result:
        Result<T, LoxError>)
        ensures
            expr_visitor.visits(*self, result),
    {
        match self {
            Expr::Assign(expr) => expr_visitor.visit_assign_expr(wrapper, expr),
            Expr::Binary(expr) => expr_visitor.visit_binary_expr(wrapper, expr),
            Expr::Call(expr) => expr_visitor.visit_call_expr(wrapper, expr),
            Expr::Get(expr) => expr_visitor.visit_get_expr(wrapper, expr),
            Expr::Grouping(expr) => expr_visitor.visit_grouping_expr(wrapper, expr),
            Expr::Literal(expr) => expr_visitor.visit_literal_expr(wrapper, expr),
            Expr::Logical(expr) => expr_visitor.visit_logical_expr(wrapper, expr),
            Expr::SetField(expr) => expr_visitor.visit_set_expr(wrapper, expr),
            Expr::Super(expr) => expr_visitor.visit_super_expr(wrapper, expr),
            Expr::This(expr) => expr_visitor.visit_this_expr(wrapper, expr),
            Expr::Unary(expr) => expr_visitor.visit_unary_expr(wrapper, expr),
            Expr::Variable(expr) => expr_visitor.visit_variable_expr(wrapper, expr),
        }
    }

    /// A further handle to the same node.
    pub fn share(&self) -> (res: Expr)
        ensures
            res == *self,
    {
        match self {
            Expr::Assign(e) => Expr::Assign(share(e)),
            Expr::Binary(e) => Expr::Binary(share(e)),
            Expr::Call(e) => Expr::Call(share(e)),
            Expr::Get(e) => Expr::Get(share(e)),
            Expr::Grouping(e) => Expr::Grouping(share(e)),
            Expr::Literal(e) => Expr::Literal(share(e)),
            Expr::Logical(e) => Expr::Logical(share(e)),
            Expr::SetField(e) => Expr::SetField(share(e)),
            Expr::Super(e) => Expr::Super(share(e)),
            Expr::This(e) => Expr::This(share(e)),
            Expr::Unary(e) => Expr::Unary(share(e)),
            Expr::Variable(e) => Expr::Variable(share(e)),
        }
    }
}

} // verus!
