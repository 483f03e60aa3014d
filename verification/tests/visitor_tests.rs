use std::rc::Rc;

use jlox::error::LoxError;
use jlox::expr::{
    AssignExpr, BinaryExpr, CallExpr, Expr, ExprVisitor, GetExpr, GroupingExpr, LiteralExpr,
    LogicalExpr, SetExpr, SuperExpr, ThisExpr, UnaryExpr, VariableExpr,
};
use jlox::lox::{command, command_of, Command};
use jlox::stmt::{
    BlockStmt, BreakStmt, ClassStmt, ExpressionStmt, FunctionStmt, IfStmt, PrintStmt, ReturnStmt,
    Stmt, StmtVisitor, VarStmt, WhileStmt,
};
use jlox::token::{Literal, Token, TokenType};

/// A visitor that names the kind of the node it is handed.
struct Namer;

impl ExprVisitor<&'static str> for Namer {
    fn visit_assign_expr(&self, _: &Rc<Expr>, _: &Rc<AssignExpr>) -> Result<&'static str, LoxError> {
        Ok("assign")
    }
    fn visit_binary_expr(&self, _: &Rc<Expr>, _: &Rc<BinaryExpr>) -> Result<&'static str, LoxError> {
        Ok("binary")
    }
    fn visit_call_expr(&self, _: &Rc<Expr>, _: &Rc<CallExpr>) -> Result<&'static str, LoxError> {
        Ok("call")
    }
    fn visit_get_expr(&self, _: &Rc<Expr>, _: &Rc<GetExpr>) -> Result<&'static str, LoxError> {
        Ok("get")
    }
    fn visit_grouping_expr(&self, _: &Rc<Expr>, _: &Rc<GroupingExpr>) -> Result<&'static str, LoxError> {
        Ok("grouping")
    }
    fn visit_literal_expr(&self, _: &Rc<Expr>, _: &Rc<LiteralExpr>) -> Result<&'static str, LoxError> {
        Ok("literal")
    }
    fn visit_logical_expr(&self, _: &Rc<Expr>, _: &Rc<LogicalExpr>) -> Result<&'static str, LoxError> {
        Ok("logical")
    }
    fn visit_set_expr(&self, _: &Rc<Expr>, _: &Rc<SetExpr>) -> Result<&'static str, LoxError> {
        Ok("set")
    }
    fn visit_super_expr(&self, _: &Rc<Expr>, _: &Rc<SuperExpr>) -> Result<&'static str, LoxError> {
        Ok("super")
    }
    fn visit_this_expr(&self, _: &Rc<Expr>, _: &Rc<ThisExpr>) -> Result<&'static str, LoxError> {
        Ok("this")
    }
    fn visit_unary_expr(&self, _: &Rc<Expr>, _: &Rc<UnaryExpr>) -> Result<&'static str, LoxError> {
        Err(LoxError::new_type_error())
    }
    fn visit_variable_expr(&self, _: &Rc<Expr>, e: &Rc<VariableExpr>) -> Result<&'static str, LoxError> {
        if e.id == 7 {
            Ok("seventh variable")
        } else {
            Ok("variable")
        }
    }
}

impl StmtVisitor<&'static str> for Namer {
    fn visit_block_stmt(&self, _: &Rc<Stmt>, _: &Rc<BlockStmt>) -> Result<&'static str, LoxError> {
        Ok("block")
    }
    fn visit_break_stmt(&self, _: &Rc<Stmt>, _: &Rc<BreakStmt>) -> Result<&'static str, LoxError> {
        Ok("break")
    }
    fn visit_class_stmt(&self, _: &Rc<Stmt>, _: &Rc<ClassStmt>) -> Result<&'static str, LoxError> {
        Ok("class")
    }
    fn visit_expression_stmt(&self, _: &Rc<Stmt>, _: &Rc<ExpressionStmt>) -> Result<&'static str, LoxError> {
        Ok("expression")
    }
    fn visit_function_stmt(&self, _: &Rc<Stmt>, _: &Rc<FunctionStmt>) -> Result<&'static str, LoxError> {
        Ok("function")
    }
    fn visit_if_stmt(&self, _: &Rc<Stmt>, _: &Rc<IfStmt>) -> Result<&'static str, LoxError> {
        Ok("if")
    }
    fn visit_print_stmt(&self, _: &Rc<Stmt>, _: &Rc<PrintStmt>) -> Result<&'static str, LoxError> {
        Ok("print")
    }
    fn visit_return_stmt(&self, _: &Rc<Stmt>, _: &Rc<ReturnStmt>) -> Result<&'static str, LoxError> {
        Ok("return")
    }
    fn visit_var_stmt(&self, _: &Rc<Stmt>, _: &Rc<VarStmt>) -> Result<&'static str, LoxError> {
        Ok("var")
    }
    fn visit_while_stmt(&self, _: &Rc<Stmt>, _: &Rc<WhileStmt>) -> Result<&'static str, LoxError> {
        Ok("while")
    }
}

fn token(kind: TokenType, lexeme: &str) -> Token {
    Token::new(kind, lexeme, None, 1)
}

fn nil() -> Rc<Expr> {
    Rc::new(Expr::Literal(Rc::new(LiteralExpr { value: Some(Literal::Nil) })))
}

fn name_of(expr: Expr) -> Result<&'static str, LoxError> {
    let wrapper = Rc::new(expr);
    wrapper.accept(&wrapper, &Namer)
}

fn name_of_statement(stmt: Stmt) -> &'static str {
    let wrapper = Rc::new(stmt);
    wrapper.accept(&wrapper, &Namer).unwrap()
}

#[test]
fn accept_hands_an_expression_to_the_method_of_its_kind() {
    let name = token(TokenType::Identifier, "a");
    assert_eq!(name_of(Expr::Assign(Rc::new(AssignExpr { id: 0, name: name.clone(), value: nil() }))).unwrap(), "assign");
    assert_eq!(name_of(Expr::Binary(Rc::new(BinaryExpr { left: nil(), operator: token(TokenType::Plus, "+"), right: nil() }))).unwrap(), "binary");
    assert_eq!(name_of(Expr::Call(Rc::new(CallExpr { callee: nil(), bracket: token(TokenType::RightBracket, ")"), arguments: Rc::new(vec![]) }))).unwrap(), "call");
    assert_eq!(name_of(Expr::Get(Rc::new(GetExpr { object: nil(), name: name.clone() }))).unwrap(), "get");
    assert_eq!(name_of(Expr::Grouping(Rc::new(GroupingExpr { expression: nil() }))).unwrap(), "grouping");
    assert_eq!(name_of(Expr::Literal(Rc::new(LiteralExpr { value: None }))).unwrap(), "literal");
    assert_eq!(name_of(Expr::Logical(Rc::new(LogicalExpr { left: nil(), operator: token(TokenType::Or, "or"), right: nil() }))).unwrap(), "logical");
    assert_eq!(name_of(Expr::SetField(Rc::new(SetExpr { object: nil(), name: name.clone(), value: nil() }))).unwrap(), "set");
    assert_eq!(name_of(Expr::Super(Rc::new(SuperExpr { id: 1, keyword: token(TokenType::Super, "super"), method: name.clone() }))).unwrap(), "super");
    assert_eq!(name_of(Expr::This(Rc::new(ThisExpr { id: 2, keyword: token(TokenType::This, "this") }))).unwrap(), "this");
    assert!(name_of(Expr::Unary(Rc::new(UnaryExpr { operator: token(TokenType::Minus, "-"), right: nil() }))).is_err());
    assert_eq!(name_of(Expr::Variable(Rc::new(VariableExpr { id: 3, name: name.clone() }))).unwrap(), "variable");
    assert_eq!(name_of(Expr::Variable(Rc::new(VariableExpr { id: 7, name }))).unwrap(), "seventh variable");
}

#[test]
fn accept_hands_a_statement_to_the_method_of_its_kind() {
    let name = token(TokenType::Identifier, "a");
    let print = || Rc::new(Stmt::Print(Rc::new(PrintStmt { expression: nil() })));
    assert_eq!(name_of_statement(Stmt::Block(Rc::new(BlockStmt { statements: Rc::new(vec![]) }))), "block");
    assert_eq!(name_of_statement(Stmt::Break(Rc::new(BreakStmt { token: token(TokenType::Break, "break") }))), "break");
    assert_eq!(name_of_statement(Stmt::Class(Rc::new(ClassStmt { name: name.clone(), superclass: None, methods: Rc::new(vec![]) }))), "class");
    assert_eq!(name_of_statement(Stmt::Expression(Rc::new(ExpressionStmt { expression: nil() }))), "expression");
    assert_eq!(name_of_statement(Stmt::Function(Rc::new(FunctionStmt { name: name.clone(), params: Rc::new(vec![]), body: Rc::new(vec![]) }))), "function");
    assert_eq!(name_of_statement(Stmt::If(Rc::new(IfStmt { condition: nil(), then_branch: print(), else_branch: None }))), "if");
    assert_eq!(name_of_statement(Stmt::Print(Rc::new(PrintStmt { expression: nil() }))), "print");
    assert_eq!(name_of_statement(Stmt::Return(Rc::new(ReturnStmt { keyword: token(TokenType::Return, "return"), value: None }))), "return");
    assert_eq!(name_of_statement(Stmt::Var(Rc::new(VarStmt { name, initialiser: None }))), "var");
    assert_eq!(name_of_statement(Stmt::While(Rc::new(WhileStmt { condition: nil(), body: print() }))), "while");
}

#[test]
fn lines_at_the_prompt_are_commands_or_programs() {
    assert_eq!(command("!"), Command::Quit);
    assert_eq!(command("  !\n"), Command::Quit);
    assert_eq!(command("@\r\n"), Command::Dump);
    assert_eq!(command("\t@ "), Command::Dump);
    assert_eq!(command("print 1;\n"), Command::Run);
    assert_eq!(command("!!"), Command::Run);
    assert_eq!(command("! @"), Command::Run);
    assert_eq!(command(""), Command::Run);
    assert_eq!(command_of("!"), Command::Quit);
    assert_eq!(command_of(" !"), Command::Run);
    assert_eq!(command_of("@"), Command::Dump);
}
