//! Errors and control signals.

use vstd::prelude::*;
use crate::text::{decimal, decimal_string, join};
use crate::token::{Literal, Token, TokenType, TokenView};

verus! {

/// What an error says. `UndefinedVariable` and `UndefinedProperty` name the
/// lexeme of the token they are reported at; `WrongArity` carries the two
/// counts.
#[derive(Clone, Copy, Debug, PartialEq, Eq, Structural)]
pub enum Message {
    UnexpectedCharacter,
    UnterminatedString,
    UnterminatedBlockComment,
    ExpectClassName,
    ExpectSuperclassName,
    ExpectLeftBraceBeforeClassBody,
    ExpectRightBraceAfterClassBody,
    BreakOutsideLoop,
    ExpectSemicolonAfterBreak,
    ExpectLeftBracketAfterFor,
    ExpectSemicolonAfterLoopCondition,
    ExpectRightBracketAfterForClauses,
    ExpectLeftBracketAfterIf,
    ExpectRightBracketAfterIfCondition,
    ExpectSemicolonAfterValue,
    ExpectSemicolonAfterReturnValue,
    ExpectVariableName,
    ExpectSemicolonAfterVariableDeclaration,
    ExpectLeftBracketAfterWhile,
    ExpectRightBracketAfterCondition,
    ExpectSemicolonAfterExpression,
    ExpectFunctionName,
    ExpectMethodName,
    ExpectLeftBracketAfterFunctionName,
    ExpectLeftBracketAfterMethodName,
    ExpectParameterName,
    TooManyParameters,
    ExpectRightBracketAfterParameters,
    ExpectLeftBraceBeforeFunctionBody,
    ExpectLeftBraceBeforeMethodBody,
    ExpectRightBraceAfterBlock,
    InvalidAssignmentTarget,
    TooManyArguments,
    ExpectRightBracketAfterArguments,
    ExpectPropertyName,
    ExpectDotAfterSuper,
    ExpectSuperclassMethodName,
    ExpectRightBracketAfterExpression,
    ExpectExpression,
    AlreadyDeclared,
    ReadInOwnInitialiser,
    ReturnAtTopLevel,
    ReturnValueFromInitialiser,
    ThisOutsideClass,
    SuperOutsideClass,
    SuperWithoutSuperclass,
    InheritFromItself,
    OperandMustBeNumber,
    OperandsMustBeNumbers,
    OnlyInstancesHaveProperties,
    OnlyInstancesHaveFields,
    NotCallable,
    SuperclassMustBeClass,
    InternalError,
    ClockError,
    /// Stands for the errors already reported when parsing or resolving
    /// fails as a whole; it has no text of its own.
    Failure,
    UndefinedVariable,
    UndefinedProperty,
    WrongArity { expected: usize, got: usize },
}

impl Message {
    /// The text of the message, for an error reported at a token whose
    /// lexeme is `lexeme`.
    pub open spec fn text(self, lexeme: Seq<char>) -> Seq<char> {
        match self {
            Message::UnexpectedCharacter => "Unexpected character."@,
            Message::UnterminatedString => "Unterminated string."@,
            Message::UnterminatedBlockComment => "Unterminated block comment."@,
            Message::ExpectClassName => "Expect class name."@,
            Message::ExpectSuperclassName => "Expect superclass name."@,
            Message::ExpectLeftBraceBeforeClassBody => "Expect '{' before class body."@,
            Message::ExpectRightBraceAfterClassBody => "Expect '}' after class body."@,
            Message::BreakOutsideLoop => "Must be inside a loop to use 'break'."@,
            Message::ExpectSemicolonAfterBreak => "Expect ';' after 'break'."@,
            Message::ExpectLeftBracketAfterFor => "Expect '(' after 'for'."@,
            Message::ExpectSemicolonAfterLoopCondition => "Expect ';' after loop condition."@,
            Message::ExpectRightBracketAfterForClauses => "Expect ')' after for clauses."@,
            Message::ExpectLeftBracketAfterIf => "Expect '(' after 'if'."@,
            Message::ExpectRightBracketAfterIfCondition => "Expect ')' after if condition."@,
            Message::ExpectSemicolonAfterValue => "Expect ';' after value."@,
            Message::ExpectSemicolonAfterReturnValue => "Expect ';' after return value."@,
            Message::ExpectVariableName => "Expect variable name."@,
            Message::ExpectSemicolonAfterVariableDeclaration => "Expect ';' after variable declaration."@,
            Message::ExpectLeftBracketAfterWhile => "Expect '(' after 'while'."@,
            Message::ExpectRightBracketAfterCondition => "Expect ')' after condition."@,
            Message::ExpectSemicolonAfterExpression => "Expect ';' after expression."@,
            Message::ExpectFunctionName => "Expect function name."@,
            Message::ExpectMethodName => "Expect method name."@,
            Message::ExpectLeftBracketAfterFunctionName => "Expect '(' after function name."@,
            Message::ExpectLeftBracketAfterMethodName => "Expect '(' after method name."@,
            Message::ExpectParameterName => "Expect parameter name."@,
            Message::TooManyParameters => "Can't have more than 255 parameters."@,
            Message::ExpectRightBracketAfterParameters => "Expect ')' after parameters."@,
            Message::ExpectLeftBraceBeforeFunctionBody => "Expect '{' before function body."@,
            Message::ExpectLeftBraceBeforeMethodBody => "Expect '{' before method body."@,
            Message::ExpectRightBraceAfterBlock => "Expect '}' after block."@,
            Message::InvalidAssignmentTarget => "Invalid assignment target."@,
            Message::TooManyArguments => "Can't have more than 255 arguments."@,
            Message::ExpectRightBracketAfterArguments => "Expect ')' after arguments."@,
            Message::ExpectPropertyName => "Expect property name after '.'."@,
            Message::ExpectDotAfterSuper => "Expect '.' after 'super'."@,
            Message::ExpectSuperclassMethodName => "Expect superclass method name."@,
            Message::ExpectRightBracketAfterExpression => "Expect ')' after expression."@,
            Message::ExpectExpression => "Expect expression."@,
            Message::AlreadyDeclared => "Already a variable with this name in this scope."@,
            Message::ReadInOwnInitialiser => "Can't read local variable in its own initialiser."@,
            Message::ReturnAtTopLevel => "Can't return from top-level code."@,
            Message::ReturnValueFromInitialiser => "Can't return a value from an initializer."@,
            Message::ThisOutsideClass => "Can't use 'this' outside of a class."@,
            Message::SuperOutsideClass => "Can't use 'super' outside of a class."@,
            Message::SuperWithoutSuperclass => "Can't use 'super' in a class with no superclass."@,
            Message::InheritFromItself => "A class can't inherit from itself."@,
            Message::OperandMustBeNumber => "Operand must be a number."@,
            Message::OperandsMustBeNumbers => "Operands must be numbers."@,
            Message::OnlyInstancesHaveProperties => "Only instances have properties."@,
            Message::OnlyInstancesHaveFields => "Only instances have fields."@,
            Message::NotCallable => "Can only call functions and classes."@,
            Message::SuperclassMustBeClass => "Superclass must be a class."@,
            Message::InternalError => "INTERPRETER INTERNAL ERROR."@,
            Message::ClockError => "SYSTEM CLOCK ERROR."@,
            Message::Failure => ""@,
            Message::UndefinedVariable => "Undefined variable '"@ + lexeme + "'."@,
            Message::UndefinedProperty => "Undefined property '"@ + lexeme + "'."@,
            Message::WrongArity { expected, got } => "Expected "@ + decimal(expected as nat)
                + " arguments but got "@ + decimal(got as nat) + "."@,
        }
    }

    /// Renders the message.
    pub fn render(&self, lexeme: &str) -> (s: String)
        ensures
            s@ == self.text(lexeme@),
    {
        match self {
            Message::UnexpectedCharacter => String::from_str("Unexpected character."),
            Message::UnterminatedString => String::from_str("Unterminated string."),
            Message::UnterminatedBlockComment => String::from_str("Unterminated block comment."),
            Message::ExpectClassName => String::from_str("Expect class name."),
            Message::ExpectSuperclassName => String::from_str("Expect superclass name."),
            Message::ExpectLeftBraceBeforeClassBody => String::from_str("Expect '{' before class body."),
            Message::ExpectRightBraceAfterClassBody => String::from_str("Expect '}' after class body."),
            Message::BreakOutsideLoop => String::from_str("Must be inside a loop to use 'break'."),
            Message::ExpectSemicolonAfterBreak => String::from_str("Expect ';' after 'break'."),
            Message::ExpectLeftBracketAfterFor => String::from_str("Expect '(' after 'for'."),
            Message::ExpectSemicolonAfterLoopCondition => String::from_str("Expect ';' after loop condition."),
            Message::ExpectRightBracketAfterForClauses => String::from_str("Expect ')' after for clauses."),
            Message::ExpectLeftBracketAfterIf => String::from_str("Expect '(' after 'if'."),
            Message::ExpectRightBracketAfterIfCondition => String::from_str("Expect ')' after if condition."),
            Message::ExpectSemicolonAfterValue => String::from_str("Expect ';' after value."),
            Message::ExpectSemicolonAfterReturnValue => String::from_str("Expect ';' after return value."),
            Message::ExpectVariableName => String::from_str("Expect variable name."),
            Message::ExpectSemicolonAfterVariableDeclaration => String::from_str("Expect ';' after variable declaration."),
            Message::ExpectLeftBracketAfterWhile => String::from_str("Expect '(' after 'while'."),
            Message::ExpectRightBracketAfterCondition => String::from_str("Expect ')' after condition."),
            Message::ExpectSemicolonAfterExpression => String::from_str("Expect ';' after expression."),
            Message::ExpectFunctionName => String::from_str("Expect function name."),
            Message::ExpectMethodName => String::from_str("Expect method name."),
            Message::ExpectLeftBracketAfterFunctionName => String::from_str("Expect '(' after function name."),
            Message::ExpectLeftBracketAfterMethodName => String::from_str("Expect '(' after method name."),
            Message::ExpectParameterName => String::from_str("Expect parameter name."),
            Message::TooManyParameters => String::from_str("Can't have more than 255 parameters."),
            Message::ExpectRightBracketAfterParameters => String::from_str("Expect ')' after parameters."),
            Message::ExpectLeftBraceBeforeFunctionBody => String::from_str("Expect '{' before function body."),
            Message::ExpectLeftBraceBeforeMethodBody => String::from_str("Expect '{' before method body."),
            Message::ExpectRightBraceAfterBlock => String::from_str("Expect '}' after block."),
            Message::InvalidAssignmentTarget => String::from_str("Invalid assignment target."),
            Message::TooManyArguments => String::from_str("Can't have more than 255 arguments."),
            Message::ExpectRightBracketAfterArguments => String::from_str("Expect ')' after arguments."),
            Message::ExpectPropertyName => String::from_str("Expect property name after '.'."),
            Message::ExpectDotAfterSuper => String::from_str("Expect '.' after 'super'."),
            Message::ExpectSuperclassMethodName => String::from_str("Expect superclass method name."),
            Message::ExpectRightBracketAfterExpression => String::from_str("Expect ')' after expression."),
            Message::ExpectExpression => String::from_str("Expect expression."),
            Message::AlreadyDeclared => String::from_str("Already a variable with this name in this scope."),
            Message::ReadInOwnInitialiser => String::from_str("Can't read local variable in its own initialiser."),
            Message::ReturnAtTopLevel => String::from_str("Can't return from top-level code."),
            Message::ReturnValueFromInitialiser => String::from_str("Can't return a value from an initializer."),
            Message::ThisOutsideClass => String::from_str("Can't use 'this' outside of a class."),
            Message::SuperOutsideClass => String::from_str("Can't use 'super' outside of a class."),
            Message::SuperWithoutSuperclass => String::from_str("Can't use 'super' in a class with no superclass."),
            Message::InheritFromItself => String::from_str("A class can't inherit from itself."),
            Message::OperandMustBeNumber => String::from_str("Operand must be a number."),
            Message::OperandsMustBeNumbers => String::from_str("Operands must be numbers."),
            Message::OnlyInstancesHaveProperties => String::from_str("Only instances have properties."),
            Message::OnlyInstancesHaveFields => String::from_str("Only instances have fields."),
            Message::NotCallable => String::from_str("Can only call functions and classes."),
            Message::SuperclassMustBeClass => String::from_str("Superclass must be a class."),
            Message::InternalError => String::from_str("INTERPRETER INTERNAL ERROR."),
            Message::ClockError => String::from_str("SYSTEM CLOCK ERROR."),
            Message::Failure => String::from_str(""),
            Message::UndefinedVariable => {
                let s = String::from_str("Undefined variable '");
                let s = join(s, lexeme);
                join(s, "'.")
            },
            Message::UndefinedProperty => {
                let s = String::from_str("Undefined property '");
                let s = join(s, lexeme);
                join(s, "'.")
            },
            Message::WrongArity { expected, got } => {
                let s = String::from_str("Expected ");
                let e = decimal_string(*expected);
                let s = join(s, e.as_str());
                let s = join(s, " arguments but got ");
                let g = decimal_string(*got);
                let s = join(s, g.as_str());
                join(s, ".")
            },
        }
    }
}

/// The kinds of error and control signal.
#[derive(Debug)]
pub enum LoxErrorType {
    /// The signal of a `break` statement, caught by the nearest loop.
    Break,
    /// An error found while scanning, known by its line.
    GeneralErr { line: usize, message: Message },
    /// A syntax or scoping error at a token.
    ParseErr { token: Token, message: Message },
    /// The signal of a `return` statement, caught by the nearest call.
    Return { value: Literal },
    /// An error raised while the program runs.
    RuntimeErr { token: Token, message: Message },
    /// An error of the embedding program.
    SystemErr { message: Message },
    /// A value was not of the kind that an operation wanted.
    TypeErr,
}

/// An error or a control signal.
#[derive(Debug)]
pub struct LoxError(pub LoxErrorType);

impl Clone for LoxError {
    fn clone(&self) -> (res: LoxError)
        ensures
            res == *self,
    {
        match &self.0 {
            LoxErrorType::Break => LoxError(LoxErrorType::Break),
            LoxErrorType::GeneralErr { line, message } => LoxError(
                LoxErrorType::GeneralErr { line: *line, message: *message },
            ),
            LoxErrorType::ParseErr { token, message } => LoxError(
                LoxErrorType::ParseErr { token: token.clone(), message: *message },
            ),
            LoxErrorType::Return { value } => LoxError(LoxErrorType::Return { value: value.clone() }),
            LoxErrorType::RuntimeErr { token, message } => LoxError(
                LoxErrorType::RuntimeErr { token: token.clone(), message: *message },
            ),
            LoxErrorType::SystemErr { message } => LoxError(
                LoxErrorType::SystemErr { message: *message },
            ),
            LoxErrorType::TypeErr => LoxError(LoxErrorType::TypeErr),
        }
    }
}

impl LoxError {
    /// A syntax or scoping error at `token`.
    pub open spec fn at(token: Token, message: Message) -> LoxError {
        LoxError(LoxErrorType::ParseErr { token, message })
    }

    /// A runtime error at `token`.
    pub open spec fn runtime(token: Token, message: Message) -> LoxError {
        LoxError(LoxErrorType::RuntimeErr { token, message })
    }

    /// What is shown for this error: nothing for a signal or a type error,
    /// otherwise the message with the line, and for a syntax error the
    /// lexeme or `end`.
    pub open spec fn report_text(self) -> Option<Seq<char>> {
        match self.0 {
            LoxErrorType::GeneralErr { line, message } => Some(
                "[line "@ + decimal(line as nat) + "] Error: "@ + message.text(Seq::empty()),
            ),
            LoxErrorType::ParseErr { token, message } => Some(
                "[line "@ + decimal(token.line as nat) + "] Error at "@ + (if token.token_type
                    == TokenType::Eof {
                    "end"@
                } else {
                    "'"@ + token.lexeme@ + "'"@
                }) + ": "@ + message.text(token.lexeme@),
            ),
            LoxErrorType::RuntimeErr { token, message } => Some(
                message.text(token.lexeme@) + "\n[line "@ + decimal(token.line as nat) + "]"@,
            ),
            LoxErrorType::SystemErr { message } => Some(message.text(Seq::empty())),
            _ => None,
        }
    }

    pub fn new_break() -> (e: LoxError)
        ensures
            e == LoxError(LoxErrorType::Break),
    {
        LoxError(LoxErrorType::Break)
    }

    pub fn is_break(&self) -> (b: bool)
        ensures
            b == (self.0 is Break),
    {
        matches!(self.0, LoxErrorType::Break)
    }

    pub fn general_error(line: usize, message: Message) -> (e: LoxError)
        ensures
            e == LoxError(LoxErrorType::GeneralErr { line, message }),
    {
        LoxError(LoxErrorType::GeneralErr { line, message })
    }

    pub fn parse_error(token: &Token, message: Message) -> (e: LoxError)
        ensures
            e == LoxError::at(*token, message),
    {
        LoxError(LoxErrorType::ParseErr { token: token.clone(), message })
    }

    /// The error that stands for "parsing or resolving failed": a syntax
    /// error without text at an end-of-file token on line 0.
    pub fn new_parse_failure() -> (e: LoxError)
        ensures
            e.is_parse_failure(),
    {
        LoxError(LoxErrorType::ParseErr { token: Token::new_eof(0), message: Message::Failure })
    }

    pub open spec fn is_parse_failure(self) -> bool {
        match self.0 {
            LoxErrorType::ParseErr { token, message } => message == Message::Failure && token@ == (
            TokenView {
                token_type: TokenType::Eof,
                lexeme: Seq::<char>::empty(),
                literal: None,
                line: 0,
            }),
            _ => false,
        }
    }

    pub fn new_return(literal: &Literal) -> (e: LoxError)
        ensures
            e == LoxError(LoxErrorType::Return { value: *literal }),
    {
        LoxError(LoxErrorType::Return { value: literal.clone() })
    }

    pub fn runtime_error(token: &Token, message: Message) -> (e: LoxError)
        ensures
            e == LoxError::runtime(*token, message),
    {
        LoxError(LoxErrorType::RuntimeErr { token: token.clone(), message })
    }

    pub fn system_error(message: Message) -> (e: LoxError)
        ensures
            e == LoxError(LoxErrorType::SystemErr { message }),
    {
        LoxError(LoxErrorType::SystemErr { message })
    }

    pub fn new_type_error() -> (e: LoxError)
        ensures
            e == LoxError(LoxErrorType::TypeErr),
    {
        LoxError(LoxErrorType::TypeErr)
    }

    pub fn is_return(&self) -> (b: bool)
        ensures
            b == (self.0 is Return),
    {
        matches!(self.0, LoxErrorType::Return { .. })
    }

    pub fn is_runtime_error(&self) -> (b: bool)
        ensures
            b == (self.0 is RuntimeErr),
    {
        matches!(self.0, LoxErrorType::RuntimeErr { .. })
    }

    /// The value of a `return` signal; every other error is handed back.
    pub fn get_return_value(&self) -> (res: Result<Literal, LoxError>)
        ensures
            res == (match self.0 {
                LoxErrorType::Return { value } => Ok::<Literal, LoxError>(value),
                _ => Err::<Literal, LoxError>(*self),
            }),
    {
        match &self.0 {
            LoxErrorType::Return { value } => Ok(value.clone()),
            _ => Err(self.clone()),
        }
    }

    /// The text to show for this error, if any.
    pub fn report(&self) -> (res: Option<String>)
        ensures
            match res {
                Some(s) => self.report_text() == Some(s@),
                None => self.report_text() is None,
            },
    {
        match &self.0 {
            LoxErrorType::GeneralErr { line, message } => {
                let s = String::from_str("[line ");
                let l = decimal_string(*line);
                let s = join(s, l.as_str());
                let s = join(s, "] Error: ");
                let m = message.render("");
                proof {
                    reveal_strlit("");
                    assert(""@ =~= Seq::<char>::empty());
                }
                Some(join(s, m.as_str()))
            },
            LoxErrorType::ParseErr { token, message } => {
                let s = String::from_str("[line ");
                let l = decimal_string(token.line);
                let s = join(s, l.as_str());
                let s = join(s, "] Error at ");
                let s = if token.is_type(&TokenType::Eof) {
                    join(s, "end")
                } else {
                    let q = String::from_str("'");
                    let q = join(q, token.lexeme.as_str());
                    let q = join(q, "'");
                    join(s, q.as_str())
                };
                let s = join(s, ": ");
                let m = message.render(token.lexeme.as_str());
                Some(join(s, m.as_str()))
            },
            LoxErrorType::RuntimeErr { token, message } => {
                let s = message.render(token.lexeme.as_str());
                let s = join(s, "\n[line ");
                let l = decimal_string(token.line);
                let s = join(s, l.as_str());
                Some(join(s, "]"))
            },
            LoxErrorType::SystemErr { message } => {
                proof {
                    reveal_strlit("");
                    assert(""@ =~= Seq::<char>::empty());
                }
                Some(message.render(""))
            },
            _ => None,
        }
    }
}

} // verus!
