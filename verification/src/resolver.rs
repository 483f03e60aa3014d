//! The resolver: a pass over the syntax tree that records, for every use
//! of a variable, how many scopes lie between the use and the scope that
//! declares the variable, and reports what breaks the scoping rules.
//!
//! The pass is described by the functions `resolve_expr`, `resolve_stmt`
//! and their kin, on syntax trees and resolver states; the resolver is
//! proved to compute exactly them. Errors are collected; none stops the
//! pass.

use vstd::prelude::*;
use std::collections::HashMap;
use std::rc::Rc;
use crate::error::{LoxError, Message};
use crate::expr::{expr_views, expr_views_index, Expr, ExprView};
use crate::stmt::{
    function_views, function_views_index, stmt_views, stmt_views_index, FunctionStmt, FunctionView,
    Stmt, StmtView,
};
use crate::table::Table;
use crate::token::Token;

verus! {

/// What kind of function encloses a place.
#[derive(Clone, Copy, Debug, PartialEq, Eq, Structural)]
pub enum FunctionType {
    Function,
    Initialiser,
    Method,
}

/// What kind of class encloses a place.
#[derive(Clone, Copy, Debug, PartialEq, Eq, Structural)]
pub enum ClassType {
    Class,
    Subclass,
}

/// The state of the resolver.
pub ghost struct Resolution {
    /// The local scopes, the innermost last. A name is in a scope from its
    /// declaration on, and its value says whether it is defined yet.
    pub scopes: Seq<Map<Seq<char>, bool>>,
    /// The distances found: from the identity of a variable use to the
    /// number of scopes between the use and the declaration.
    pub locals: Map<usize, usize>,
    pub function: Option<FunctionType>,
    pub class: Option<ClassType>,
    pub errors: Seq<LoxError>,
}

impl Resolution {
    pub open spec fn empty() -> Resolution {
        Resolution {
            scopes: Seq::empty(),
            locals: Map::empty(),
            function: None,
            class: None,
            errors: Seq::empty(),
        }
    }

    pub open spec fn begin_scope(self) -> Resolution {
        Resolution { scopes: self.scopes.push(Map::empty()), ..self }
    }

    pub open spec fn end_scope(self) -> Resolution {
        if self.scopes.len() == 0 {
            self
        } else {
            Resolution { scopes: self.scopes.drop_last(), ..self }
        }
    }

    pub open spec fn report(self, token: Token, message: Message) -> Resolution {
        Resolution { errors: self.errors.push(LoxError::at(token, message)), ..self }
    }

    /// Writes `name` into the innermost scope; nothing in global scope.
    pub open spec fn put(self, name: Seq<char>, defined: bool) -> Resolution {
        if self.scopes.len() == 0 {
            self
        } else {
            Resolution {
                scopes: self.scopes.update(
                    self.scopes.len() - 1,
                    self.scopes.last().insert(name, defined),
                ),
                ..self
            }
        }
    }

    /// Declares `name` in the innermost scope, as not yet defined. A second
    /// declaration in one local scope is an error.
    pub open spec fn declare(self, name: Token) -> Resolution {
        if self.scopes.len() == 0 {
            self
        } else if self.scopes.last().dom().contains(name.lexeme@) {
            self.report(name, Message::AlreadyDeclared).put(name.lexeme@, false)
        } else {
            self.put(name.lexeme@, false)
        }
    }

    pub open spec fn define(self, name: Token) -> Resolution {
        self.put(name.lexeme@, true)
    }

    /// The number of scopes to walk outwards from the innermost, starting
    /// with `depth`, to the first that holds `name`.
    pub open spec fn distance_from(self, name: Seq<char>, depth: nat) -> Option<nat>
        decreases self.scopes.len() - depth,
    {
        if depth >= self.scopes.len() {
            None
        } else if self.scopes[self.scopes.len() - 1 - depth].dom().contains(name) {
            Some(depth)
        } else {
            self.distance_from(name, depth + 1)
        }
    }

    /// Records the distance of the use `id` of `name`; a name found in no
    /// scope is global and gets no entry.
    pub open spec fn resolve_local(self, id: usize, name: Seq<char>) -> Resolution {
        match self.distance_from(name, 0) {
            Some(d) => Resolution { locals: self.locals.insert(id, d as usize), ..self },
            None => self,
        }
    }

    /// Whether `name` is declared in the innermost scope and not defined
    /// yet.
    pub open spec fn in_own_initialiser(self, name: Seq<char>) -> bool {
        self.scopes.len() > 0 && self.scopes.last().dom().contains(name) && !self.scopes.last()[name]
    }
}

/// Resolves an expression: its parts from left to right, but the value
/// written before the object it is written to. A variable use records its
/// distance; a variable read in its own initialiser, `this` outside of a
/// class and `super` outside of a subclass are errors, and record
/// nothing.
pub open spec fn resolve_expr(e: ExprView, r: Resolution) -> Resolution
    decreases e,
{
    match e {
        ExprView::Assign { id, name, value } => resolve_expr(*value, r).resolve_local(
            id,
            name.lexeme@,
        ),
        ExprView::Binary { left, operator, right } => resolve_expr(*right, resolve_expr(*left, r)),
        ExprView::Call { callee, bracket, arguments } => resolve_exprs(
            arguments,
            resolve_expr(*callee, r),
        ),
        ExprView::Get { object, name } => resolve_expr(*object, r),
        ExprView::Grouping { expression } => resolve_expr(*expression, r),
        ExprView::Literal { value } => r,
        ExprView::Logical { left, operator, right } => resolve_expr(*right, resolve_expr(*left, r)),
        ExprView::SetField { object, name, value } => resolve_expr(*object, resolve_expr(*value, r)),
        ExprView::Super { id, keyword, method } => match r.class {
            None => r.report(keyword, Message::SuperOutsideClass),
            Some(ClassType::Class) => r.report(keyword, Message::SuperWithoutSuperclass),
            Some(ClassType::Subclass) => r.resolve_local(id, keyword.lexeme@),
        },
        ExprView::This { id, keyword } => match r.class {
            None => r.report(keyword, Message::ThisOutsideClass),
            Some(_) => r.resolve_local(id, keyword.lexeme@),
        },
        ExprView::Unary { operator, right } => resolve_expr(*right, r),
        ExprView::Variable { id, name } => if r.in_own_initialiser(name.lexeme@) {
            r.report(name, Message::ReadInOwnInitialiser)
        } else {
            r.resolve_local(id, name.lexeme@)
        },
    }
}

/// Resolves the expressions in order.
pub open spec fn resolve_exprs(es: Seq<ExprView>, r: Resolution) -> Resolution
    decreases es,
{
    if es.len() == 0 {
        r
    } else {
        resolve_exprs(es.drop_first(), resolve_expr(es[0], r))
    }
}

/// Resolves the expression, if there is one.
pub open spec fn resolve_optional(e: Option<ExprView>, r: Resolution) -> Resolution {
    match e {
        Some(e) => resolve_expr(e, r),
        None => r,
    }
}

/// Declares and defines the parameters of a function, in order.
pub open spec fn declare_parameters(params: Seq<Token>, r: Resolution) -> Resolution
    decreases params.len(),
{
    if params.len() == 0 {
        r
    } else {
        declare_parameters(params.drop_first(), r.declare(params[0]).define(params[0]))
    }
}

/// Whether `superclass` names the class `name` itself.
pub open spec fn inherits_from_itself(name: Token, superclass: Option<ExprView>) -> bool {
    match superclass {
        Some(ExprView::Variable { id, name: parent }) => parent.lexeme@ == name.lexeme@,
        _ => false,
    }
}

/// The token at which a faulty superclass is reported: its name.
pub open spec fn superclass_token(name: Token, superclass: Option<ExprView>) -> Token {
    match superclass {
        Some(ExprView::Variable { id, name: parent }) => parent,
        _ => name,
    }
}

/// The kind of a method: `init` is the initialiser.
pub open spec fn method_type(f: FunctionView) -> FunctionType {
    if f.name.lexeme@ == "init"@ {
        FunctionType::Initialiser
    } else {
        FunctionType::Method
    }
}

/// Resolves a statement.
///
/// A block has a scope of its own. A variable is declared, then its
/// initialiser is resolved, then it is defined. A function is defined
/// before its body is resolved, so that it can call itself. A class is
/// defined likewise; its methods are resolved in a scope that holds
/// `this`, which for a class with a superclass lies in a scope that holds
/// `super`; a class that names itself as its superclass is an error and
/// has no such scope. `return` outside of a function is an error, and so is
/// `return` with a value in an initialiser.
pub open spec fn resolve_stmt(s: StmtView, r: Resolution) -> Resolution
    decreases s,
{
    match s {
        StmtView::Block { statements } => resolve_stmts(statements, r.begin_scope()).end_scope(),
        StmtView::Break { token } => r,
        StmtView::Class { name, superclass, methods } => {
            let named = r.declare(name).define(name);
            let inherits = superclass is Some && !inherits_from_itself(name, superclass);
            let entered = if superclass is None {
                Resolution { class: Some(ClassType::Class), ..named }
            } else if inherits_from_itself(name, superclass) {
                Resolution { class: Some(ClassType::Class), ..named }.report(
                    superclass_token(name, superclass),
                    Message::InheritFromItself,
                )
            } else {
                resolve_optional(
                    superclass,
                    Resolution { class: Some(ClassType::Subclass), ..named },
                ).begin_scope().put("super"@, true)
            };
            let inside = resolve_methods(methods, entered.begin_scope().put("this"@, true));
            let left = if inherits {
                inside.end_scope().end_scope()
            } else {
                inside.end_scope()
            };
            Resolution { class: r.class, ..left }
        },
        StmtView::Expression { expression } => resolve_expr(expression, r),
        StmtView::Function { function } => resolve_function(
            function,
            FunctionType::Function,
            r.declare(function.name).define(function.name),
        ),
        StmtView::If { condition, then_branch, else_branch } => {
            let r1 = resolve_stmt(*then_branch, resolve_expr(condition, r));
            match else_branch {
                Some(b) => resolve_stmt(*b, r1),
                None => r1,
            }
        },
        StmtView::Print { expression } => resolve_expr(expression, r),
        StmtView::Return { keyword, value } => {
            let r1 = if r.function is None {
                r.report(keyword, Message::ReturnAtTopLevel)
            } else {
                r
            };
            match value {
                Some(v) => resolve_expr(
                    v,
                    if r1.function == Some(FunctionType::Initialiser) {
                        r1.report(keyword, Message::ReturnValueFromInitialiser)
                    } else {
                        r1
                    },
                ),
                None => r1,
            }
        },
        StmtView::Var { name, initialiser } => resolve_optional(initialiser, r.declare(name)).define(
            name,
        ),
        StmtView::While { condition, body } => resolve_stmt(*body, resolve_expr(condition, r)),
    }
}

/// Resolves the statements in order.
pub open spec fn resolve_stmts(ss: Seq<StmtView>, r: Resolution) -> Resolution
    decreases ss,
{
    if ss.len() == 0 {
        r
    } else {
        resolve_stmts(ss.drop_first(), resolve_stmt(ss[0], r))
    }
}

/// A function: its parameters and its body in a scope of their own, with
/// `kind` as the kind of the enclosing function.
pub open spec fn resolve_function(f: FunctionView, kind: FunctionType, r: Resolution) -> Resolution
    decreases f,
{
    let entered = declare_parameters(
        f.params,
        Resolution { function: Some(kind), ..r }.begin_scope(),
    );
    Resolution { function: r.function, ..resolve_stmts(f.body, entered).end_scope() }
}

/// Resolves the methods of a class in order.
pub open spec fn resolve_methods(ms: Seq<FunctionView>, r: Resolution) -> Resolution
    decreases ms,
{
    if ms.len() == 0 {
        r
    } else {
        resolve_methods(ms.drop_first(), resolve_function(ms[0], method_type(ms[0]), r))
    }
}

/// Resolving one statement list after another is resolving the two as one:
/// what is recorded for the statements read so far does not depend on the
/// statements that follow.
pub proof fn resolution_reads_in_order(first: Seq<StmtView>, second: Seq<StmtView>, r: Resolution)
    ensures
        resolve_stmts(first + second, r) == resolve_stmts(second, resolve_stmts(first, r)),
    decreases first.len(),
{
    if first.len() == 0 {
        assert(first + second =~= second);
    } else {
        assert((first + second).drop_first() =~= first.drop_first() + second);
        resolution_reads_in_order(first.drop_first(), second, resolve_stmt(first[0], r));
    }
}

/// Resolution is a function of the syntax tree: two resolvers that start
/// alike and resolve the same statements end alike, with the same
/// distances and the same errors.
pub proof fn resolution_is_deterministic(
    statements: Seq<StmtView>,
    first: Resolver,
    second: Resolver,
    start: Resolution,
)
    requires
        first@ == resolve_stmts(statements, start),
        second@ == resolve_stmts(statements, start),
    ensures
        first@.locals == second@.locals,
        first@.errors == second@.errors,
        first@ == second@,
{
}

/// What resolving leaves as it was: the scopes, and the kinds of the
/// enclosing function and class.
pub open spec fn same_place(before: Resolution, after: Resolution) -> bool {
    &&& after.scopes == before.scopes
    &&& after.function == before.function
    &&& after.class == before.class
}

/// What a statement leaves as it was: the number of scopes, and the
/// kinds of the enclosing function and class.
pub open spec fn balanced(before: Resolution, after: Resolution) -> bool {
    &&& after.scopes.len() == before.scopes.len()
    &&& after.function == before.function
    &&& after.class == before.class
}

/// An expression declares nothing: resolving it changes the distances and
/// the errors alone.
pub proof fn expressions_declare_nothing(e: ExprView, r: Resolution)
    ensures
        same_place(r, resolve_expr(e, r)),
    decreases e,
{
    match e {
        ExprView::Assign { id, name, value } => {
            expressions_declare_nothing(*value, r);
        },
        ExprView::Binary { left, operator, right } => {
            expressions_declare_nothing(*left, r);
            expressions_declare_nothing(*right, resolve_expr(*left, r));
        },
        ExprView::Call { callee, bracket, arguments } => {
            expressions_declare_nothing(*callee, r);
            expression_lists_declare_nothing(arguments, resolve_expr(*callee, r));
        },
        ExprView::Get { object, name } => {
            expressions_declare_nothing(*object, r);
        },
        ExprView::Grouping { expression } => {
            expressions_declare_nothing(*expression, r);
        },
        ExprView::Literal { value } => {},
        ExprView::Logical { left, operator, right } => {
            expressions_declare_nothing(*left, r);
            expressions_declare_nothing(*right, resolve_expr(*left, r));
        },
        ExprView::SetField { object, name, value } => {
            expressions_declare_nothing(*value, r);
            expressions_declare_nothing(*object, resolve_expr(*value, r));
        },
        ExprView::Super { id, keyword, method } => {},
        ExprView::This { id, keyword } => {},
        ExprView::Unary { operator, right } => {
            expressions_declare_nothing(*right, r);
        },
        ExprView::Variable { id, name } => {},
    }
}

/// A list of expressions declares nothing.
pub proof fn expression_lists_declare_nothing(es: Seq<ExprView>, r: Resolution)
    ensures
        same_place(r, resolve_exprs(es, r)),
    decreases es,
{
    if es.len() > 0 {
        expressions_declare_nothing(es[0], r);
        expression_lists_declare_nothing(es.drop_first(), resolve_expr(es[0], r));
    }
}

/// Declaring parameters opens and closes no scope.
pub proof fn parameters_stay_in_their_scope(params: Seq<Token>, r: Resolution)
    ensures
        balanced(r, declare_parameters(params, r)),
    decreases params.len(),
{
    if params.len() > 0 {
        parameters_stay_in_their_scope(params.drop_first(), r.declare(params[0]).define(params[0]));
    }
}

/// Scopes are balanced: a statement leaves as many scopes as it found,
/// and the kinds of the enclosing function and class as they were. What a
/// block, a function or a class declares inside is not seen after it.
pub proof fn statements_leave_scopes_balanced(s: StmtView, r: Resolution)
    ensures
        balanced(r, resolve_stmt(s, r)),
    decreases s,
{
    match s {
        StmtView::Block { statements } => {
            statement_lists_leave_scopes_balanced(statements, r.begin_scope());
        },
        StmtView::Break { token } => {},
        StmtView::Class { name, superclass, methods } => {
            let named = r.declare(name).define(name);
            let entered = if superclass is None {
                Resolution { class: Some(ClassType::Class), ..named }
            } else if inherits_from_itself(name, superclass) {
                Resolution { class: Some(ClassType::Class), ..named }.report(
                    superclass_token(name, superclass),
                    Message::InheritFromItself,
                )
            } else {
                resolve_optional(
                    superclass,
                    Resolution { class: Some(ClassType::Subclass), ..named },
                ).begin_scope().put("super"@, true)
            };
            if superclass is Some {
                expressions_declare_nothing(
                    superclass->Some_0,
                    Resolution { class: Some(ClassType::Subclass), ..named },
                );
            }
            method_lists_leave_scopes_balanced(methods, entered.begin_scope().put("this"@, true));
        },
        StmtView::Expression { expression } => {
            expressions_declare_nothing(expression, r);
        },
        StmtView::Function { function } => {
            functions_leave_scopes_balanced(
                function,
                FunctionType::Function,
                r.declare(function.name).define(function.name),
            );
        },
        StmtView::If { condition, then_branch, else_branch } => {
            expressions_declare_nothing(condition, r);
            statements_leave_scopes_balanced(*then_branch, resolve_expr(condition, r));
            match else_branch {
                Some(b) => {
                    statements_leave_scopes_balanced(
                        *b,
                        resolve_stmt(*then_branch, resolve_expr(condition, r)),
                    );
                },
                None => {},
            }
        },
        StmtView::Print { expression } => {
            expressions_declare_nothing(expression, r);
        },
        StmtView::Return { keyword, value } => {
            let r1 = if r.function is None {
                r.report(keyword, Message::ReturnAtTopLevel)
            } else {
                r
            };
            match value {
                Some(v) => {
                    expressions_declare_nothing(
                        v,
                        if r1.function == Some(FunctionType::Initialiser) {
                            r1.report(keyword, Message::ReturnValueFromInitialiser)
                        } else {
                            r1
                        },
                    );
                },
                None => {},
            }
        },
        StmtView::Var { name, initialiser } => {
            match initialiser {
                Some(i) => {
                    expressions_declare_nothing(i, r.declare(name));
                },
                None => {},
            }
        },
        StmtView::While { condition, body } => {
            expressions_declare_nothing(condition, r);
            statements_leave_scopes_balanced(*body, resolve_expr(condition, r));
        },
    }
}

/// A list of statements leaves the scopes balanced.
pub proof fn statement_lists_leave_scopes_balanced(ss: Seq<StmtView>, r: Resolution)
    ensures
        balanced(r, resolve_stmts(ss, r)),
    decreases ss,
{
    if ss.len() > 0 {
        statements_leave_scopes_balanced(ss[0], r);
        statement_lists_leave_scopes_balanced(ss.drop_first(), resolve_stmt(ss[0], r));
    }
}

/// A function leaves the scopes balanced: its own scope ends with it.
pub proof fn functions_leave_scopes_balanced(f: FunctionView, kind: FunctionType, r: Resolution)
    ensures
        balanced(r, resolve_function(f, kind, r)),
    decreases f,
{
    let opened = Resolution { function: Some(kind), ..r }.begin_scope();
    parameters_stay_in_their_scope(f.params, opened);
    statement_lists_leave_scopes_balanced(f.body, declare_parameters(f.params, opened));
}

/// The methods of a class leave the scopes balanced.
pub proof fn method_lists_leave_scopes_balanced(ms: Seq<FunctionView>, r: Resolution)
    ensures
        balanced(r, resolve_methods(ms, r)),
    decreases ms,
{
    if ms.len() > 0 {
        functions_leave_scopes_balanced(ms[0], method_type(ms[0]), r);
        method_lists_leave_scopes_balanced(
            ms.drop_first(),
            resolve_function(ms[0], method_type(ms[0]), r),
        );
    }
}

/// A whole program is resolved in global scope from its first statement
/// to its last: global names never get a distance of their own.
pub proof fn programs_stay_in_global_scope(statements: Seq<StmtView>)
    ensures
        resolve_stmts(statements, Resolution::empty()).scopes.len() == 0,
        resolve_stmts(statements, Resolution::empty()).function is None,
        resolve_stmts(statements, Resolution::empty()).class is None,
{
    statement_lists_leave_scopes_balanced(statements, Resolution::empty());
}

/// The state `r` of a resolver that had the distances `locals` and the
/// errors `errors` before it came to its own: its distances override the
/// earlier ones, and its errors follow them.
pub open spec fn atop(r: Resolution, locals: Map<usize, usize>, errors: Seq<LoxError>) -> Resolution {
    Resolution { locals: locals.union_prefer_right(r.locals), errors: errors + r.errors, ..r }
}

/// Where a name is found depends on the scopes alone.
pub proof fn distance_needs_the_scopes_alone(
    r: Resolution,
    locals: Map<usize, usize>,
    errors: Seq<LoxError>,
    name: Seq<char>,
    depth: nat,
)
    ensures
        atop(r, locals, errors).distance_from(name, depth) == r.distance_from(name, depth),
    decreases r.scopes.len() - depth,
{
    if depth < r.scopes.len() && !r.scopes[r.scopes.len() - 1 - depth].dom().contains(name) {
        distance_needs_the_scopes_alone(r, locals, errors, name, depth + 1);
    }
}

/// Recording a distance and reporting an error go on top of what was
/// recorded and reported before.
pub proof fn records_go_on_top(
    r: Resolution,
    locals: Map<usize, usize>,
    errors: Seq<LoxError>,
    id: usize,
    name: Token,
    message: Message,
)
    ensures
        atop(r, locals, errors).resolve_local(id, name.lexeme@) == atop(
            r.resolve_local(id, name.lexeme@),
            locals,
            errors,
        ),
        atop(r, locals, errors).report(name, message) == atop(r.report(name, message), locals, errors),
        atop(r, locals, errors).declare(name) == atop(r.declare(name), locals, errors),
        atop(r, locals, errors).define(name) == atop(r.define(name), locals, errors),
{
    distance_needs_the_scopes_alone(r, locals, errors, name.lexeme@, 0);
    match r.distance_from(name.lexeme@, 0) {
        Some(d) => {
            assert(locals.union_prefer_right(r.locals).insert(id, d as usize)
                =~= locals.union_prefer_right(r.locals.insert(id, d as usize)));
        },
        None => {},
    }
    let e = LoxError::at(name, message);
    assert((errors + r.errors).push(e) =~= errors + r.errors.push(e));
    let again = LoxError::at(name, Message::AlreadyDeclared);
    assert((errors + r.errors).push(again) =~= errors + r.errors.push(again));
}

/// What an expression records and reports does not depend on what was
/// recorded and reported before.
pub proof fn expressions_record_on_top(
    e: ExprView,
    r: Resolution,
    locals: Map<usize, usize>,
    errors: Seq<LoxError>,
)
    ensures
        resolve_expr(e, atop(r, locals, errors)) == atop(resolve_expr(e, r), locals, errors),
    decreases e,
{
    match e {
        ExprView::Assign { id, name, value } => {
            expressions_record_on_top(*value, r, locals, errors);
            records_go_on_top(resolve_expr(*value, r), locals, errors, id, name, Message::Failure);
        },
        ExprView::Binary { left, operator, right } => {
            expressions_record_on_top(*left, r, locals, errors);
            expressions_record_on_top(*right, resolve_expr(*left, r), locals, errors);
        },
        ExprView::Call { callee, bracket, arguments } => {
            expressions_record_on_top(*callee, r, locals, errors);
            expression_lists_record_on_top(arguments, resolve_expr(*callee, r), locals, errors);
        },
        ExprView::Get { object, name } => {
            expressions_record_on_top(*object, r, locals, errors);
        },
        ExprView::Grouping { expression } => {
            expressions_record_on_top(*expression, r, locals, errors);
        },
        ExprView::Literal { value } => {},
        ExprView::Logical { left, operator, right } => {
            expressions_record_on_top(*left, r, locals, errors);
            expressions_record_on_top(*right, resolve_expr(*left, r), locals, errors);
        },
        ExprView::SetField { object, name, value } => {
            expressions_record_on_top(*value, r, locals, errors);
            expressions_record_on_top(*object, resolve_expr(*value, r), locals, errors);
        },
        ExprView::Super { id, keyword, method } => {
            records_go_on_top(r, locals, errors, id, keyword, Message::SuperOutsideClass);
            records_go_on_top(r, locals, errors, id, keyword, Message::SuperWithoutSuperclass);
        },
        ExprView::This { id, keyword } => {
            records_go_on_top(r, locals, errors, id, keyword, Message::ThisOutsideClass);
        },
        ExprView::Unary { operator, right } => {
            expressions_record_on_top(*right, r, locals, errors);
        },
        ExprView::Variable { id, name } => {
            records_go_on_top(r, locals, errors, id, name, Message::ReadInOwnInitialiser);
        },
    }
}

/// What a list of expressions records and reports does not depend on what
/// was recorded and reported before.
pub proof fn expression_lists_record_on_top(
    es: Seq<ExprView>,
    r: Resolution,
    locals: Map<usize, usize>,
    errors: Seq<LoxError>,
)
    ensures
        resolve_exprs(es, atop(r, locals, errors)) == atop(resolve_exprs(es, r), locals, errors),
    decreases es,
{
    if es.len() > 0 {
        expressions_record_on_top(es[0], r, locals, errors);
        expression_lists_record_on_top(es.drop_first(), resolve_expr(es[0], r), locals, errors);
    }
}

/// What the parameters of a function report does not depend on what was
/// recorded and reported before.
pub proof fn parameters_record_on_top(
    params: Seq<Token>,
    r: Resolution,
    locals: Map<usize, usize>,
    errors: Seq<LoxError>,
)
    ensures
        declare_parameters(params, atop(r, locals, errors)) == atop(
            declare_parameters(params, r),
            locals,
            errors,
        ),
    decreases params.len(),
{
    if params.len() > 0 {
        records_go_on_top(r, locals, errors, 0, params[0], Message::Failure);
        records_go_on_top(r.declare(params[0]), locals, errors, 0, params[0], Message::Failure);
        parameters_record_on_top(
            params.drop_first(),
            r.declare(params[0]).define(params[0]),
            locals,
            errors,
        );
    }
}

/// What a statement records and reports does not depend on what was
/// recorded and reported before.
pub proof fn statements_record_on_top(
    s: StmtView,
    r: Resolution,
    locals: Map<usize, usize>,
    errors: Seq<LoxError>,
)
    ensures
        resolve_stmt(s, atop(r, locals, errors)) == atop(resolve_stmt(s, r), locals, errors),
    decreases s,
{
    match s {
        StmtView::Block { statements } => {
            statement_lists_record_on_top(statements, r.begin_scope(), locals, errors);
        },
        StmtView::Break { token } => {},
        StmtView::Class { name, superclass, methods } => {
            records_go_on_top(r, locals, errors, 0, name, Message::Failure);
            records_go_on_top(r.declare(name), locals, errors, 0, name, Message::Failure);
            let named = r.declare(name).define(name);
            let plain = Resolution { class: Some(ClassType::Class), ..named };
            let derived = Resolution { class: Some(ClassType::Subclass), ..named };
            records_go_on_top(
                plain,
                locals,
                errors,
                0,
                superclass_token(name, superclass),
                Message::InheritFromItself,
            );
            let entered = if superclass is None {
                plain
            } else if inherits_from_itself(name, superclass) {
                plain.report(superclass_token(name, superclass), Message::InheritFromItself)
            } else {
                resolve_optional(superclass, derived).begin_scope().put("super"@, true)
            };
            if superclass is Some {
                expressions_record_on_top(superclass->Some_0, derived, locals, errors);
            }
            method_lists_record_on_top(
                methods,
                entered.begin_scope().put("this"@, true),
                locals,
                errors,
            );
        },
        StmtView::Expression { expression } => {
            expressions_record_on_top(expression, r, locals, errors);
        },
        StmtView::Function { function } => {
            records_go_on_top(r, locals, errors, 0, function.name, Message::Failure);
            records_go_on_top(
                r.declare(function.name),
                locals,
                errors,
                0,
                function.name,
                Message::Failure,
            );
            functions_record_on_top(
                function,
                FunctionType::Function,
                r.declare(function.name).define(function.name),
                locals,
                errors,
            );
        },
        StmtView::If { condition, then_branch, else_branch } => {
            expressions_record_on_top(condition, r, locals, errors);
            statements_record_on_top(*then_branch, resolve_expr(condition, r), locals, errors);
            match else_branch {
                Some(b) => {
                    statements_record_on_top(
                        *b,
                        resolve_stmt(*then_branch, resolve_expr(condition, r)),
                        locals,
                        errors,
                    );
                },
                None => {},
            }
        },
        StmtView::Print { expression } => {
            expressions_record_on_top(expression, r, locals, errors);
        },
        StmtView::Return { keyword, value } => {
            records_go_on_top(r, locals, errors, 0, keyword, Message::ReturnAtTopLevel);
            let r1 = if r.function is None {
                r.report(keyword, Message::ReturnAtTopLevel)
            } else {
                r
            };
            records_go_on_top(r1, locals, errors, 0, keyword, Message::ReturnValueFromInitialiser);
            match value {
                Some(v) => {
                    expressions_record_on_top(
                        v,
                        if r1.function == Some(FunctionType::Initialiser) {
                            r1.report(keyword, Message::ReturnValueFromInitialiser)
                        } else {
                            r1
                        },
                        locals,
                        errors,
                    );
                },
                None => {},
            }
        },
        StmtView::Var { name, initialiser } => {
            records_go_on_top(r, locals, errors, 0, name, Message::Failure);
            match initialiser {
                Some(i) => {
                    expressions_record_on_top(i, r.declare(name), locals, errors);
                },
                None => {},
            }
            records_go_on_top(
                resolve_optional(initialiser, r.declare(name)),
                locals,
                errors,
                0,
                name,
                Message::Failure,
            );
        },
        StmtView::While { condition, body } => {
            expressions_record_on_top(condition, r, locals, errors);
            statements_record_on_top(*body, resolve_expr(condition, r), locals, errors);
        },
    }
}

/// What a list of statements records and reports does not depend on what
/// was recorded and reported before.
pub proof fn statement_lists_record_on_top(
    ss: Seq<StmtView>,
    r: Resolution,
    locals: Map<usize, usize>,
    errors: Seq<LoxError>,
)
    ensures
        resolve_stmts(ss, atop(r, locals, errors)) == atop(resolve_stmts(ss, r), locals, errors),
    decreases ss,
{
    if ss.len() > 0 {
        statements_record_on_top(ss[0], r, locals, errors);
        statement_lists_record_on_top(ss.drop_first(), resolve_stmt(ss[0], r), locals, errors);
    }
}

/// What a function records and reports does not depend on what was
/// recorded and reported before.
pub proof fn functions_record_on_top(
    f: FunctionView,
    kind: FunctionType,
    r: Resolution,
    locals: Map<usize, usize>,
    errors: Seq<LoxError>,
)
    ensures
        resolve_function(f, kind, atop(r, locals, errors)) == atop(
            resolve_function(f, kind, r),
            locals,
            errors,
        ),
    decreases f,
{
    let opened = Resolution { function: Some(kind), ..r }.begin_scope();
    parameters_record_on_top(f.params, opened, locals, errors);
    statement_lists_record_on_top(f.body, declare_parameters(f.params, opened), locals, errors);
}

/// What the methods of a class record and report does not depend on what
/// was recorded and reported before.
pub proof fn method_lists_record_on_top(
    ms: Seq<FunctionView>,
    r: Resolution,
    locals: Map<usize, usize>,
    errors: Seq<LoxError>,
)
    ensures
        resolve_methods(ms, atop(r, locals, errors)) == atop(resolve_methods(ms, r), locals, errors),
    decreases ms,
{
    if ms.len() > 0 {
        functions_record_on_top(ms[0], method_type(ms[0]), r, locals, errors);
        method_lists_record_on_top(
            ms.drop_first(),
            resolve_function(ms[0], method_type(ms[0]), r),
            locals,
            errors,
        );
    }
}

/// The state with nothing recorded and nothing reported.
pub open spec fn cleared(r: Resolution) -> Resolution {
    Resolution { locals: Map::empty(), errors: Seq::empty(), ..r }
}

/// What resolving records is what it records from nothing, on top of what
/// was recorded before: the distances that a pass finds, and whether it
/// finds errors, do not depend on the distances it was given.
pub proof fn a_pass_records_on_top(statements: Seq<StmtView>, r: Resolution)
    ensures
        resolve_stmts(statements, r) == atop(
            resolve_stmts(statements, cleared(r)),
            r.locals,
            r.errors,
        ),
{
    statement_lists_record_on_top(statements, cleared(r), r.locals, r.errors);
    assert(r.locals.union_prefer_right(Map::<usize, usize>::empty()) =~= r.locals);
    assert(r.errors + Seq::<LoxError>::empty() =~= r.errors);
    assert(atop(cleared(r), r.locals, r.errors) == r);
}

/// Whether the resolver is where every new resolver is, and every
/// resolver after a pass: in global scope, outside every function and
/// class.
pub open spec fn at_top(r: Resolution) -> bool {
    r.scopes.len() == 0 && r.function is None && r.class is None
}

/// Repeated resolution yields the same distances: a second pass over the
/// same statements, by the same resolver or by a new one that is given
/// the distances of the first, leaves the distances as the first pass
/// left them. The same resolver reports the errors of the first pass once
/// more.
pub proof fn a_second_pass_keeps_the_distances(statements: Seq<StmtView>, r: Resolution)
    requires
        at_top(r),
    ensures
        at_top(resolve_stmts(statements, r)),
        resolve_stmts(statements, resolve_stmts(statements, r)).locals == resolve_stmts(
            statements,
            r,
        ).locals,
        resolve_stmts(
            statements,
            Resolution { locals: resolve_stmts(statements, r).locals, ..Resolution::empty() },
        ).locals == resolve_stmts(statements, r).locals,
        resolve_stmts(statements, resolve_stmts(statements, r)).errors == resolve_stmts(
            statements,
            r,
        ).errors + resolve_stmts(statements, Resolution::empty()).errors,
{
    let first = resolve_stmts(statements, r);
    let found = resolve_stmts(statements, Resolution::empty());
    assert(r.scopes =~= Seq::empty());
    assert(cleared(r) == Resolution::empty());
    a_pass_records_on_top(statements, r);
    statement_lists_leave_scopes_balanced(statements, r);
    assert(first.scopes =~= Seq::empty());
    assert(cleared(first) == Resolution::empty());
    a_pass_records_on_top(statements, first);
    assert(first.locals.union_prefer_right(found.locals) =~= first.locals);
    let given = Resolution { locals: first.locals, ..Resolution::empty() };
    assert(cleared(given) == Resolution::empty());
    a_pass_records_on_top(statements, given);
}

/// Two passes over the same statements find errors or find none
/// together, whatever distances each was given; and from nothing they
/// find the same distances.
pub proof fn passes_agree(
    statements: Seq<StmtView>,
    first: Map<usize, usize>,
    second: Map<usize, usize>,
)
    ensures
        resolve_stmts(statements, Resolution { locals: first, ..Resolution::empty() }).errors
            == resolve_stmts(statements, Resolution { locals: second, ..Resolution::empty() }).errors,
        first == second ==> resolve_stmts(
            statements,
            Resolution { locals: first, ..Resolution::empty() },
        ).locals == resolve_stmts(
            statements,
            Resolution { locals: second, ..Resolution::empty() },
        ).locals,
{
    let a = Resolution { locals: first, ..Resolution::empty() };
    let b = Resolution { locals: second, ..Resolution::empty() };
    assert(cleared(a) == Resolution::empty());
    assert(cleared(b) == Resolution::empty());
    a_pass_records_on_top(statements, a);
    a_pass_records_on_top(statements, b);
    let found = resolve_stmts(statements, Resolution::empty());
    assert(Seq::<LoxError>::empty() + found.errors =~= found.errors);
}

/// The views of the scopes of a resolver.
pub open spec fn scope_views(scopes: Seq<Table<bool>>) -> Seq<Map<Seq<char>, bool>> {
    scopes.map_values(|t: Table<bool>| t@)
}

#[derive(Debug)]
pub struct Resolver {
    pub scopes: Vec<Table<bool>>,
    pub locals: HashMap<usize, usize>,
    pub current_function_type: Option<FunctionType>,
    pub current_class_type: Option<ClassType>,
    pub errors: Vec<LoxError>,
}

impl View for Resolver {
    type V = Resolution;

    open spec fn view(&self) -> Resolution {
        Resolution {
            scopes: scope_views(self.scopes@),
            locals: self.locals@,
            function: self.current_function_type,
            class: self.current_class_type,
            errors: self.errors@,
        }
    }
}

impl Resolver {
    /// A resolver in global scope, outside every function and class, with
    /// nothing recorded.
    pub fn new() -> (resolver: Resolver)
        ensures
            resolver@ == Resolution::empty(),
    {
        let resolver = Resolver {
            scopes: Vec::new(),
            locals: HashMap::new(),
            current_function_type: None,
            current_class_type: None,
            errors: Vec::new(),
        };
        assert(resolver@.scopes =~= Seq::empty());
        resolver
    }

    /// A resolver in global scope, outside every function and class, that
    /// adds to the distances `locals`.
    pub fn with_locals(locals: HashMap<usize, usize>) -> (resolver: Resolver)
        ensures
            resolver@ == (Resolution { locals: locals@, ..Resolution::empty() }),
    {
        let resolver = Resolver {
            scopes: Vec::new(),
            locals,
            current_function_type: None,
            current_class_type: None,
            errors: Vec::new(),
        };
        assert(resolver@.scopes =~= Seq::empty());
        resolver
    }

    /// The distances recorded so far.
    pub fn locals(&self) -> (locals: &HashMap<usize, usize>)
        ensures
            *locals == self.locals,
    {
        &self.locals
    }

    /// The errors reported so far, in the order in which they were met.
    pub fn errors(&self) -> (errors: &Vec<LoxError>)
        ensures
            *errors == self.errors,
    {
        &self.errors
    }

    /// Resolves `statements`. The result is `Ok` if no error is reported,
    /// by this call or an earlier one, and the failure otherwise.
    pub fn resolve(&mut self, statements: &Vec<Rc<Stmt>>) -> (res: Result<(), LoxError>)
        ensures
            final(self)@ == resolve_stmts(stmt_views(statements@), old(self)@),
            match res {
                Ok(_) => final(self)@.errors.len() == 0,
                Err(e) => final(self)@.errors.len() > 0 && e.is_parse_failure(),
            },
    {
        self.resolve_statements(statements);
        if self.errors.len() == 0 {
            Ok(())
        } else {
            Err(LoxError::new_parse_failure())
        }
    }

    fn resolve_statements(&mut self, statements: &Vec<Rc<Stmt>>)
        ensures
            final(self)@ == resolve_stmts(stmt_views(statements@), old(self)@),
        decreases statements,
    {
        let ghost views = stmt_views(statements@);
        proof {
            stmt_views_index(statements@);
            assert(views.subrange(0, views.len() as int) =~= views);
        }
        let mut i: usize = 0;
        while i < statements.len()
            invariant
                i <= statements@.len(),
                views == stmt_views(statements@),
                views.len() == statements@.len(),
                forall|j: int| 0 <= j < views.len() ==> (#[trigger] views[j]) == statements@[j]@,
                resolve_stmts(views.subrange(i as int, views.len() as int), self@) == resolve_stmts(
                    views,
                    old(self)@,
                ),
            decreases statements@.len() - i,
        {
            proof {
                let rest = views.subrange(i as int, views.len() as int);
                assert(rest.drop_first() =~= views.subrange(i + 1, views.len() as int));
                assert(rest[0] == views[i as int]);
            }
            self.resolve_stmt(&statements[i]);
            i += 1;
        }
    }

    fn resolve_expressions(&mut self, expressions: &Vec<Rc<Expr>>)
        ensures
            final(self)@ == resolve_exprs(expr_views(expressions@), old(self)@),
        decreases expressions,
    {
        let ghost views = expr_views(expressions@);
        proof {
            expr_views_index(expressions@);
            assert(views.subrange(0, views.len() as int) =~= views);
        }
        let mut i: usize = 0;
        while i < expressions.len()
            invariant
                i <= expressions@.len(),
                views == expr_views(expressions@),
                views.len() == expressions@.len(),
                forall|j: int| 0 <= j < views.len() ==> (#[trigger] views[j]) == expressions@[j]@,
                resolve_exprs(views.subrange(i as int, views.len() as int), self@) == resolve_exprs(
                    views,
                    old(self)@,
                ),
            decreases expressions@.len() - i,
        {
            proof {
                let rest = views.subrange(i as int, views.len() as int);
                assert(rest.drop_first() =~= views.subrange(i + 1, views.len() as int));
                assert(rest[0] == views[i as int]);
            }
            self.resolve_expr(&expressions[i]);
            i += 1;
        }
    }

    fn resolve_methods(&mut self, methods: &Vec<Rc<FunctionStmt>>)
        ensures
            final(self)@ == resolve_methods(function_views(methods@), old(self)@),
        decreases methods,
    {
        let ghost views = function_views(methods@);
        proof {
            function_views_index(methods@);
            assert(views.subrange(0, views.len() as int) =~= views);
        }
        let mut i: usize = 0;
        while i < methods.len()
            invariant
                i <= methods@.len(),
                views == function_views(methods@),
                views.len() == methods@.len(),
                forall|j: int| 0 <= j < views.len() ==> (#[trigger] views[j]) == methods@[j]@,
                resolve_methods(views.subrange(i as int, views.len() as int), self@)
                    == resolve_methods(views, old(self)@),
            decreases methods@.len() - i,
        {
            proof {
                let rest = views.subrange(i as int, views.len() as int);
                assert(rest.drop_first() =~= views.subrange(i + 1, views.len() as int));
                assert(rest[0] == views[i as int]);
            }
            let method = &methods[i];
            let kind = if method.name.lexeme == String::from_str("init") {
                FunctionType::Initialiser
            } else {
                FunctionType::Method
            };
            self.resolve_function(method, kind);
            i += 1;
        }
    }

    fn resolve_expr(&mut self, expr: &Expr)
        ensures
            final(self)@ == resolve_expr(expr@, old(self)@),
        decreases expr,
    {
        match expr {
            Expr::Assign(e) => {
                self.resolve_expr(&e.value);
                self.resolve_local(e.id, &e.name.lexeme);
            },
            Expr::Binary(e) => {
                self.resolve_expr(&e.left);
                self.resolve_expr(&e.right);
            },
            Expr::Call(e) => {
                self.resolve_expr(&e.callee);
                self.resolve_expressions(&e.arguments);
            },
            Expr::Get(e) => {
                self.resolve_expr(&e.object);
            },
            Expr::Grouping(e) => {
                self.resolve_expr(&e.expression);
            },
            Expr::Literal(_) => {},
            Expr::Logical(e) => {
                self.resolve_expr(&e.left);
                self.resolve_expr(&e.right);
            },
            Expr::SetField(e) => {
                self.resolve_expr(&e.value);
                self.resolve_expr(&e.object);
            },
            Expr::Super(e) => {
                match self.current_class_type {
                    None => {
                        self.report(&e.keyword, Message::SuperOutsideClass);
                    },
                    Some(ClassType::Class) => {
                        self.report(&e.keyword, Message::SuperWithoutSuperclass);
                    },
                    Some(ClassType::Subclass) => {
                        self.resolve_local(e.id, &e.keyword.lexeme);
                    },
                }
            },
            Expr::This(e) => {
                match self.current_class_type {
                    None => {
                        self.report(&e.keyword, Message::ThisOutsideClass);
                    },
                    Some(_) => {
                        self.resolve_local(e.id, &e.keyword.lexeme);
                    },
                }
            },
            Expr::Unary(e) => {
                self.resolve_expr(&e.right);
            },
            Expr::Variable(e) => {
                if self.in_own_initialiser(&e.name.lexeme) {
                    self.report(&e.name, Message::ReadInOwnInitialiser);
                } else {
                    self.resolve_local(e.id, &e.name.lexeme);
                }
            },
        }
    }

    fn resolve_stmt(&mut self, stmt: &Stmt)
        ensures
            final(self)@ == resolve_stmt(stmt@, old(self)@),
        decreases stmt,
    {
        match stmt {
            Stmt::Block(s) => {
                self.begin_scope();
                self.resolve_statements(&s.statements);
                self.end_scope();
            },
            Stmt::Break(_) => {},
            Stmt::Class(s) => {
                let enclosing = self.current_class_type;
                self.declare(&s.name);
                self.define(&s.name);
                let mut inherits = false;
                match &s.superclass {
                    None => {
                        self.current_class_type = Some(ClassType::Class);
                    },
                    Some(parent) => {
                        let itself = match &**parent {
                            Expr::Variable(v) => v.name.lexeme == s.name.lexeme,
                            _ => false,
                        };
                        if itself {
                            self.current_class_type = Some(ClassType::Class);
                            match &**parent {
                                Expr::Variable(v) => {
                                    self.report(&v.name, Message::InheritFromItself);
                                },
                                _ => {},
                            }
                        } else {
                            inherits = true;
                            self.current_class_type = Some(ClassType::Subclass);
                            self.resolve_expr(parent);
                            self.begin_scope();
                            self.put(String::from_str("super"), true);
                        }
                    },
                }
                self.begin_scope();
                self.put(String::from_str("this"), true);
                self.resolve_methods(&s.methods);
                self.end_scope();
                if inherits {
                    self.end_scope();
                }
                self.current_class_type = enclosing;
            },
            Stmt::Expression(s) => {
                self.resolve_expr(&s.expression);
            },
            Stmt::Function(s) => {
                self.declare(&s.name);
                self.define(&s.name);
                self.resolve_function(s, FunctionType::Function);
            },
            Stmt::If(s) => {
                self.resolve_expr(&s.condition);
                self.resolve_stmt(&s.then_branch);
                match &s.else_branch {
                    Some(b) => {
                        self.resolve_stmt(b);
                    },
                    None => {},
                }
            },
            Stmt::Print(s) => {
                self.resolve_expr(&s.expression);
            },
            Stmt::Return(s) => {
                if self.current_function_type.is_none() {
                    self.report(&s.keyword, Message::ReturnAtTopLevel);
                }
                match &s.value {
                    Some(v) => {
                        if is_initialiser(&self.current_function_type) {
                            self.report(&s.keyword, Message::ReturnValueFromInitialiser);
                        }
                        self.resolve_expr(v);
                    },
                    None => {},
                }
            },
            Stmt::Var(s) => {
                self.declare(&s.name);
                match &s.initialiser {
                    Some(i) => {
                        self.resolve_expr(i);
                    },
                    None => {},
                }
                self.define(&s.name);
            },
            Stmt::While(s) => {
                self.resolve_expr(&s.condition);
                self.resolve_stmt(&s.body);
            },
        }
    }

    fn begin_scope(&mut self)
        ensures
            final(self)@ == old(self)@.begin_scope(),
    {
        let scope: Table<bool> = Table::new();
        assert(scope_views(self.scopes@.push(scope)) =~= scope_views(self.scopes@).push(scope@));
        self.scopes.push(scope);
    }

    fn end_scope(&mut self)
        ensures
            final(self)@ == old(self)@.end_scope(),
    {
        if self.scopes.len() > 0 {
            assert(scope_views(self.scopes@.drop_last()) =~= scope_views(self.scopes@).drop_last());
            self.scopes.pop();
            assert(self.scopes@ =~= old(self).scopes@.drop_last());
        }
    }

    fn report(&mut self, token: &Token, message: Message)
        ensures
            final(self)@ == old(self)@.report(*token, message),
    {
        self.errors.push(LoxError::parse_error(token, message));
    }

    /// Writes `name` into the innermost scope.
    fn put(&mut self, name: String, defined: bool)
        ensures
            final(self)@ == old(self)@.put(name@, defined),
    {
        match self.scopes.pop() {
            Some(mut scope) => {
                let ghost rest = self.scopes@;
                let ghost before = scope@;
                assert(rest =~= old(self).scopes@.drop_last());
                scope.insert(name, defined);
                assert(scope_views(rest.push(scope)) =~= scope_views(old(self).scopes@).update(
                    old(self).scopes@.len() - 1,
                    before.insert(name@, defined),
                ));
                self.scopes.push(scope);
            },
            None => {
                assert(self.scopes@ =~= old(self).scopes@);
            },
        }
    }

    fn declare(&mut self, name: &Token)
        ensures
            final(self)@ == old(self)@.declare(*name),
    {
        let depth: usize = self.scopes.len();
        if depth == 0 {
            return ;
        }
        if self.scopes[depth - 1].contains_key(&name.lexeme) {
            self.report(name, Message::AlreadyDeclared);
        }
        self.put(name.lexeme.clone(), false);
    }

    fn define(&mut self, name: &Token)
        ensures
            final(self)@ == old(self)@.define(*name),
    {
        self.put(name.lexeme.clone(), true);
    }

    fn in_own_initialiser(&self, name: &String) -> (b: bool)
        ensures
            b == self@.in_own_initialiser(name@),
    {
        let depth: usize = self.scopes.len();
        if depth == 0 {
            return false;
        }
        match self.scopes[depth - 1].get(name) {
            Some(defined) => !*defined,
            None => false,
        }
    }

    fn resolve_local(&mut self, id: usize, name: &String)
        ensures
            final(self)@ == old(self)@.resolve_local(id, name@),
    {
        let count: usize = self.scopes.len();
        let mut depth: usize = 0;
        while depth < count
            invariant
                *self == *old(self),
                count == self.scopes@.len(),
                depth <= count,
                self@.distance_from(name@, depth as nat) == self@.distance_from(name@, 0),
            decreases count - depth,
        {
            if self.scopes[count - 1 - depth].contains_key(name) {
                self.locals.insert(id, depth);
                return ;
            }
            depth += 1;
        }
    }

    fn resolve_function(&mut self, function: &FunctionStmt, function_type: FunctionType)
        ensures
            final(self)@ == resolve_function(function@, function_type, old(self)@),
        decreases function,
    {
        let enclosing = self.current_function_type;
        self.current_function_type = Some(function_type);
        self.begin_scope();
        let ghost entered = self@;
        let ghost params = function.params@;
        assert(params.subrange(0, params.len() as int) =~= params);
        let mut i: usize = 0;
        while i < function.params.len()
            invariant
                i <= params.len(),
                params == function.params@,
                declare_parameters(params.subrange(i as int, params.len() as int), self@)
                    == declare_parameters(params, entered),
            decreases params.len() - i,
        {
            proof {
                let rest = params.subrange(i as int, params.len() as int);
                assert(rest.drop_first() =~= params.subrange(i + 1, params.len() as int));
                assert(rest[0] == params[i as int]);
            }
            self.declare(&function.params[i]);
            self.define(&function.params[i]);
            i += 1;
        }
        self.resolve_statements(&function.body);
        self.end_scope();
        self.current_function_type = enclosing;
    }
}

fn is_initialiser(function_type: &Option<FunctionType>) -> (b: bool)
    ensures
        b == (*function_type == Some(FunctionType::Initialiser)),
{
    match function_type {
        Some(FunctionType::Initialiser) => true,
        _ => false,
    }
}

} // verus!
