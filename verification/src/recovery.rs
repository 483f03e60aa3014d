//! Laws of the grammar: the parser never moves backwards, errors that were
//! reported before do not change what is parsed or reported afterwards,
//! and after an error parsing goes on at the next statement.

use vstd::prelude::*;
use crate::error::{LoxError, Message};
use crate::expr::ExprView;
use crate::grammar::{
    advance, arguments_rest, assignment, at_end, binary, binary_rest, block, block_rest,
    break_statement, call, call_rest, check, class_declaration, close_call, condition, consume,
    declaration, enter_loop, expression, expression_statement, finish_call, for_clauses,
    for_initialiser, for_statement, fresh, function, if_statement, is_operator, loop_body,
    methods_rest, onward, operand, optional_expression, parameters, parameters_rest, peek, primary,
    print_statement, program, program_rest, remaining, report, return_statement, statement,
    superclass, synchronise, synchronise_rest, terminated, unary, var_declaration, while_statement,
    FunctionKind, ParseState, Parsed,
};
use crate::stmt::{FunctionView, StmtView};
use crate::token::{Token, TokenType};

verus! {

/// The state with the errors `earlier` reported before its own.
pub open spec fn after_errors(st: ParseState, earlier: Seq<LoxError>) -> ParseState {
    ParseState { errors: earlier + st.errors, ..st }
}

/// The state without its errors.
pub open spec fn without_errors(st: ParseState) -> ParseState {
    ParseState { errors: Seq::empty(), ..st }
}

/// What holds of every function of the grammar. `plain` is what it gives
/// from the state `st`, and `late` what it gives from the same state
/// after the errors `earlier`: the result is the same, the state is the
/// same but for the earlier errors, the place is not before that of
/// `st`, and a failure is reported.
pub open spec fn framed<T>(
    st: ParseState,
    earlier: Seq<LoxError>,
    plain: Parsed<T>,
    late: Parsed<T>,
) -> bool {
    &&& late.0 == plain.0
    &&& late.1 == after_errors(plain.1, earlier)
    &&& plain.1.current >= st.current
    &&& reports(st, plain)
}

/// An error is never taken back, and a failure is reported: the errors
/// of `st` are still there, and if the result is an error, it is the last
/// of the errors and was not there before.
pub open spec fn reports<T>(st: ParseState, plain: Parsed<T>) -> bool {
    &&& plain.1.errors.len() >= st.errors.len()
    &&& plain.0 matches Err(e) ==> plain.1.errors.len() > st.errors.len() && plain.1.errors.last()
        == e
}

/// An error reported after earlier ones is reported behind them.
pub proof fn frame_report(st: ParseState, earlier: Seq<LoxError>, e: LoxError)
    ensures
        report(after_errors(st, earlier), e) == after_errors(report(st, e), earlier),
{
    assert((earlier + st.errors).push(e) =~= earlier + st.errors.push(e));
}

/// `framed` holds of `consume`.
pub proof fn frame_consume(
    tokens: Seq<Token>,
    st: ParseState,
    earlier: Seq<LoxError>,
    t: TokenType,
    message: Message,
)
    ensures
        framed(
            st,
            earlier,
            consume(tokens, st, t, message),
            consume(tokens, after_errors(st, earlier), t, message),
        ),
{
    frame_report(st, earlier, LoxError::at(peek(tokens, st), message));
}

/// `framed` holds of `expression`.
pub proof fn frame_expression(tokens: Seq<Token>, st: ParseState, earlier: Seq<LoxError>)
    ensures
        framed(st, earlier, expression(tokens, st), expression(tokens, after_errors(st, earlier))),
    decreases remaining(tokens, st), 40int,
{
    frame_assignment(tokens, st, earlier);
}

/// `framed` holds of `assignment`.
pub proof fn frame_assignment(tokens: Seq<Token>, st: ParseState, earlier: Seq<LoxError>)
    ensures
        framed(st, earlier, assignment(tokens, st), assignment(tokens, after_errors(st, earlier))),
    decreases remaining(tokens, st), 39int,
{
    frame_binary(tokens, st, earlier, 0);
    let (left, s1) = binary(tokens, st, 0);
    if left is Ok && check(tokens, s1, TokenType::Assign) {
        let s2 = advance(s1);
        let s3 = if left->Ok_0 is Variable {
            fresh(s2)
        } else {
            s2
        };
        frame_assignment(tokens, s3, earlier);
        let s4 = assignment(tokens, s3).1;
        frame_report(s4, earlier, LoxError::at(peek(tokens, s1), Message::InvalidAssignmentTarget));
    }
}

/// `framed` holds of `operand`.
pub proof fn frame_operand(tokens: Seq<Token>, st: ParseState, earlier: Seq<LoxError>, level: nat)
    ensures
        framed(
            st,
            earlier,
            operand(tokens, st, level),
            operand(tokens, after_errors(st, earlier), level),
        ),
    decreases remaining(tokens, st), 29 - 2 * level,
{
    if level < 5 {
        frame_binary(tokens, st, earlier, level + 1);
    } else if level == 5 {
        frame_unary(tokens, st, earlier);
    } else {
        frame_report(st, earlier, LoxError::at(peek(tokens, st), Message::ExpectExpression));
    }
}

/// `framed` holds of `binary`.
pub proof fn frame_binary(tokens: Seq<Token>, st: ParseState, earlier: Seq<LoxError>, level: nat)
    ensures
        framed(
            st,
            earlier,
            binary(tokens, st, level),
            binary(tokens, after_errors(st, earlier), level),
        ),
    decreases remaining(tokens, st), 30 - 2 * level,
{
    if level > 5 {
        frame_report(st, earlier, LoxError::at(peek(tokens, st), Message::ExpectExpression));
    } else {
        frame_operand(tokens, st, earlier, level);
        let (first, s1) = operand(tokens, st, level);
        if first is Ok {
            frame_binary_rest(tokens, s1, earlier, level, first->Ok_0);
        }
    }
}

/// `framed` holds of `binary_rest`.
pub proof fn frame_binary_rest(
    tokens: Seq<Token>,
    st: ParseState,
    earlier: Seq<LoxError>,
    level: nat,
    left: ExprView,
)
    ensures
        framed(
            st,
            earlier,
            binary_rest(tokens, st, level, left),
            binary_rest(tokens, after_errors(st, earlier), level, left),
        ),
    decreases remaining(tokens, st), 29 - 2 * level,
{
    if level <= 5 && !at_end(tokens, st) && is_operator(level, peek(tokens, st).token_type) {
        frame_operand(tokens, advance(st), earlier, level);
        let (next, s1) = operand(tokens, advance(st), level);
        if next is Ok {
            frame_binary_rest(
                tokens,
                s1,
                earlier,
                level,
                crate::grammar::binary_node(level, left, peek(tokens, st), next->Ok_0),
            );
        }
    }
}

/// `framed` holds of `unary`.
pub proof fn frame_unary(tokens: Seq<Token>, st: ParseState, earlier: Seq<LoxError>)
    ensures
        framed(st, earlier, unary(tokens, st), unary(tokens, after_errors(st, earlier))),
    decreases remaining(tokens, st), 10int,
{
    if check(tokens, st, TokenType::Bang) || check(tokens, st, TokenType::Minus) {
        frame_unary(tokens, advance(st), earlier);
    } else {
        frame_call(tokens, st, earlier);
    }
}

/// `framed` holds of `call`.
pub proof fn frame_call(tokens: Seq<Token>, st: ParseState, earlier: Seq<LoxError>)
    ensures
        framed(st, earlier, call(tokens, st), call(tokens, after_errors(st, earlier))),
    decreases remaining(tokens, st), 9int,
{
    frame_primary(tokens, st, earlier);
    let (first, s1) = primary(tokens, st);
    if first is Ok {
        frame_call_rest(tokens, s1, earlier, first->Ok_0);
    }
}

/// `framed` holds of `call_rest`.
pub proof fn frame_call_rest(
    tokens: Seq<Token>,
    st: ParseState,
    earlier: Seq<LoxError>,
    expr: ExprView,
)
    ensures
        framed(
            st,
            earlier,
            call_rest(tokens, st, expr),
            call_rest(tokens, after_errors(st, earlier), expr),
        ),
    decreases remaining(tokens, st), 8int,
{
    if check(tokens, st, TokenType::LeftBracket) {
        frame_finish_call(tokens, advance(st), earlier, expr);
        let (called, s1) = finish_call(tokens, advance(st), expr);
        if called is Ok {
            frame_call_rest(tokens, s1, earlier, called->Ok_0);
        }
    } else if check(tokens, st, TokenType::Dot) {
        frame_consume(
            tokens,
            advance(st),
            earlier,
            TokenType::Identifier,
            Message::ExpectPropertyName,
        );
        let (name, s1) = consume(
            tokens,
            advance(st),
            TokenType::Identifier,
            Message::ExpectPropertyName,
        );
        if name is Ok {
            frame_call_rest(
                tokens,
                s1,
                earlier,
                ExprView::Get { object: Box::new(expr), name: name->Ok_0 },
            );
        }
    }
}

/// `framed` holds of `close_call`.
pub proof fn frame_close_call(
    tokens: Seq<Token>,
    st: ParseState,
    earlier: Seq<LoxError>,
    callee: ExprView,
    arguments: Seq<ExprView>,
)
    ensures
        framed(
            st,
            earlier,
            close_call(tokens, st, callee, arguments),
            close_call(tokens, after_errors(st, earlier), callee, arguments),
        ),
{
    frame_consume(
        tokens,
        st,
        earlier,
        TokenType::RightBracket,
        Message::ExpectRightBracketAfterArguments,
    );
}

/// `framed` holds of `finish_call`.
pub proof fn frame_finish_call(
    tokens: Seq<Token>,
    st: ParseState,
    earlier: Seq<LoxError>,
    callee: ExprView,
)
    ensures
        framed(
            st,
            earlier,
            finish_call(tokens, st, callee),
            finish_call(tokens, after_errors(st, earlier), callee),
        ),
    decreases remaining(tokens, st), 50int,
{
    if check(tokens, st, TokenType::RightBracket) {
        frame_close_call(tokens, st, earlier, callee, Seq::empty());
    } else {
        frame_expression(tokens, st, earlier);
        let (first, s1) = expression(tokens, st);
        if first is Ok {
            frame_arguments_rest(tokens, s1, earlier, callee, seq![first->Ok_0]);
        }
    }
}

/// `framed` holds of `arguments_rest`.
pub proof fn frame_arguments_rest(
    tokens: Seq<Token>,
    st: ParseState,
    earlier: Seq<LoxError>,
    callee: ExprView,
    arguments: Seq<ExprView>,
)
    ensures
        framed(
            st,
            earlier,
            arguments_rest(tokens, st, callee, arguments),
            arguments_rest(tokens, after_errors(st, earlier), callee, arguments),
        ),
    decreases remaining(tokens, st), 49int,
{
    if check(tokens, st, TokenType::Comma) {
        let s1 = advance(st);
        let s2 = if arguments.len() >= 255 {
            report(s1, LoxError::at(peek(tokens, s1), Message::TooManyArguments))
        } else {
            s1
        };
        frame_report(s1, earlier, LoxError::at(peek(tokens, s1), Message::TooManyArguments));
        frame_expression(tokens, s2, earlier);
        let (next, s3) = expression(tokens, s2);
        if next is Ok {
            frame_arguments_rest(tokens, s3, earlier, callee, arguments.push(next->Ok_0));
        }
    } else {
        frame_close_call(tokens, st, earlier, callee, arguments);
    }
}

/// `framed` holds of `primary`.
pub proof fn frame_primary(tokens: Seq<Token>, st: ParseState, earlier: Seq<LoxError>)
    ensures
        framed(st, earlier, primary(tokens, st), primary(tokens, after_errors(st, earlier))),
    decreases remaining(tokens, st), 7int,
{
    let next = advance(st);
    if check(tokens, st, TokenType::False) || check(tokens, st, TokenType::True) || check(
        tokens,
        st,
        TokenType::Nil,
    ) || check(tokens, st, TokenType::Number) || check(tokens, st, TokenType::String) {
    } else if check(tokens, st, TokenType::Super) {
        frame_consume(tokens, next, earlier, TokenType::Dot, Message::ExpectDotAfterSuper);
        let s1 = consume(tokens, next, TokenType::Dot, Message::ExpectDotAfterSuper).1;
        frame_consume(
            tokens,
            s1,
            earlier,
            TokenType::Identifier,
            Message::ExpectSuperclassMethodName,
        );
    } else if check(tokens, st, TokenType::This) || check(tokens, st, TokenType::Identifier) {
    } else if check(tokens, st, TokenType::LeftBracket) {
        frame_expression(tokens, next, earlier);
        let s1 = expression(tokens, next).1;
        frame_consume(
            tokens,
            s1,
            earlier,
            TokenType::RightBracket,
            Message::ExpectRightBracketAfterExpression,
        );
    } else {
        frame_report(st, earlier, LoxError::at(peek(tokens, st), Message::ExpectExpression));
    }
}

/// `framed` holds of `terminated`.
pub proof fn frame_terminated(
    tokens: Seq<Token>,
    st: ParseState,
    earlier: Seq<LoxError>,
    message: Message,
    make: spec_fn(ExprView) -> StmtView,
)
    ensures
        framed(
            st,
            earlier,
            terminated(tokens, st, message, make),
            terminated(tokens, after_errors(st, earlier), message, make),
        ),
{
    frame_expression(tokens, st, earlier);
    frame_consume(tokens, expression(tokens, st).1, earlier, TokenType::Semicolon, message);
}

/// `framed` holds of `expression_statement`.
pub proof fn frame_expression_statement(tokens: Seq<Token>, st: ParseState, earlier: Seq<LoxError>)
    ensures
        framed(
            st,
            earlier,
            expression_statement(tokens, st),
            expression_statement(tokens, after_errors(st, earlier)),
        ),
{
    frame_terminated(
        tokens,
        st,
        earlier,
        Message::ExpectSemicolonAfterExpression,
        |v: ExprView| StmtView::Expression { expression: v },
    );
}

/// `framed` holds of `print_statement`.
pub proof fn frame_print_statement(tokens: Seq<Token>, st: ParseState, earlier: Seq<LoxError>)
    ensures
        framed(
            st,
            earlier,
            print_statement(tokens, st),
            print_statement(tokens, after_errors(st, earlier)),
        ),
{
    frame_terminated(
        tokens,
        st,
        earlier,
        Message::ExpectSemicolonAfterValue,
        |v: ExprView| StmtView::Print { expression: v },
    );
}

/// `framed` holds of `return_statement`.
pub proof fn frame_return_statement(
    tokens: Seq<Token>,
    st: ParseState,
    earlier: Seq<LoxError>,
    keyword: Token,
)
    ensures
        framed(
            st,
            earlier,
            return_statement(tokens, st, keyword),
            return_statement(tokens, after_errors(st, earlier), keyword),
        ),
{
    frame_terminated(
        tokens,
        st,
        earlier,
        Message::ExpectSemicolonAfterReturnValue,
        |v: ExprView| StmtView::Return { keyword, value: Some(v) },
    );
}

/// `framed` holds of `break_statement`.
pub proof fn frame_break_statement(
    tokens: Seq<Token>,
    st: ParseState,
    earlier: Seq<LoxError>,
    keyword: Token,
)
    ensures
        framed(
            st,
            earlier,
            break_statement(tokens, st, keyword),
            break_statement(tokens, after_errors(st, earlier), keyword),
        ),
{
    let e = LoxError::at(keyword, Message::BreakOutsideLoop);
    frame_report(st, earlier, e);
    frame_consume(tokens, st, earlier, TokenType::Semicolon, Message::ExpectSemicolonAfterBreak);
    frame_consume(
        tokens,
        report(st, e),
        earlier,
        TokenType::Semicolon,
        Message::ExpectSemicolonAfterBreak,
    );
}

/// `framed` holds of `var_declaration`.
pub proof fn frame_var_declaration(tokens: Seq<Token>, st: ParseState, earlier: Seq<LoxError>)
    ensures
        framed(
            st,
            earlier,
            var_declaration(tokens, st),
            var_declaration(tokens, after_errors(st, earlier)),
        ),
{
    frame_consume(tokens, st, earlier, TokenType::Identifier, Message::ExpectVariableName);
    let s1 = consume(tokens, st, TokenType::Identifier, Message::ExpectVariableName).1;
    frame_expression(tokens, advance(s1), earlier);
    let s2 = if check(tokens, s1, TokenType::Assign) {
        expression(tokens, advance(s1)).1
    } else {
        s1
    };
    frame_consume(
        tokens,
        s2,
        earlier,
        TokenType::Semicolon,
        Message::ExpectSemicolonAfterVariableDeclaration,
    );
}

/// `framed` holds of `parameters_rest`.
pub proof fn frame_parameters_rest(
    tokens: Seq<Token>,
    st: ParseState,
    earlier: Seq<LoxError>,
    params: Seq<Token>,
)
    ensures
        framed(
            st,
            earlier,
            parameters_rest(tokens, st, params),
            parameters_rest(tokens, after_errors(st, earlier), params),
        ),
    decreases remaining(tokens, st),
{
    if check(tokens, st, TokenType::Comma) {
        let s1 = advance(st);
        let e = LoxError::at(peek(tokens, s1), Message::TooManyParameters);
        let s2 = if params.len() >= 255 {
            report(s1, e)
        } else {
            s1
        };
        frame_report(s1, earlier, e);
        frame_consume(tokens, s2, earlier, TokenType::Identifier, Message::ExpectParameterName);
        let (next, s3) = consume(tokens, s2, TokenType::Identifier, Message::ExpectParameterName);
        if next is Ok {
            frame_parameters_rest(tokens, s3, earlier, params.push(next->Ok_0));
        }
    }
}

/// `framed` holds of `parameters`.
pub proof fn frame_parameters(tokens: Seq<Token>, st: ParseState, earlier: Seq<LoxError>)
    ensures
        framed(st, earlier, parameters(tokens, st), parameters(tokens, after_errors(st, earlier))),
{
    frame_consume(tokens, st, earlier, TokenType::Identifier, Message::ExpectParameterName);
    let (first, s1) = consume(tokens, st, TokenType::Identifier, Message::ExpectParameterName);
    if first is Ok {
        frame_parameters_rest(tokens, s1, earlier, seq![first->Ok_0]);
    }
}

/// `framed` holds of `for_initialiser`.
pub proof fn frame_for_initialiser(tokens: Seq<Token>, st: ParseState, earlier: Seq<LoxError>)
    ensures
        framed(
            st,
            earlier,
            for_initialiser(tokens, st),
            for_initialiser(tokens, after_errors(st, earlier)),
        ),
{
    frame_var_declaration(tokens, advance(st), earlier);
    frame_expression_statement(tokens, st, earlier);
}

/// `framed` holds of `optional_expression`.
pub proof fn frame_optional_expression(
    tokens: Seq<Token>,
    st: ParseState,
    earlier: Seq<LoxError>,
    closing: TokenType,
)
    ensures
        framed(
            st,
            earlier,
            optional_expression(tokens, st, closing),
            optional_expression(tokens, after_errors(st, earlier), closing),
        ),
{
    frame_expression(tokens, st, earlier);
}

/// `framed` holds of `for_clauses`.
pub proof fn frame_for_clauses(tokens: Seq<Token>, st: ParseState, earlier: Seq<LoxError>)
    ensures
        framed(st, earlier, for_clauses(tokens, st), for_clauses(tokens, after_errors(st, earlier))),
{
    reveal(for_clauses);
    frame_consume(tokens, st, earlier, TokenType::LeftBracket, Message::ExpectLeftBracketAfterFor);
    let s1 = consume(tokens, st, TokenType::LeftBracket, Message::ExpectLeftBracketAfterFor).1;
    frame_for_initialiser(tokens, s1, earlier);
    let s2 = for_initialiser(tokens, s1).1;
    frame_optional_expression(tokens, s2, earlier, TokenType::Semicolon);
    let s3 = optional_expression(tokens, s2, TokenType::Semicolon).1;
    frame_consume(
        tokens,
        s3,
        earlier,
        TokenType::Semicolon,
        Message::ExpectSemicolonAfterLoopCondition,
    );
    let s4 = consume(tokens, s3, TokenType::Semicolon, Message::ExpectSemicolonAfterLoopCondition).1;
    frame_optional_expression(tokens, s4, earlier, TokenType::RightBracket);
    let s5 = optional_expression(tokens, s4, TokenType::RightBracket).1;
    frame_consume(
        tokens,
        s5,
        earlier,
        TokenType::RightBracket,
        Message::ExpectRightBracketAfterForClauses,
    );
}

/// `framed` holds of `condition`.
pub proof fn frame_condition(
    tokens: Seq<Token>,
    st: ParseState,
    earlier: Seq<LoxError>,
    open: Message,
    close: Message,
)
    ensures
        framed(
            st,
            earlier,
            condition(tokens, st, open, close),
            condition(tokens, after_errors(st, earlier), open, close),
        ),
{
    frame_consume(tokens, st, earlier, TokenType::LeftBracket, open);
    let s1 = consume(tokens, st, TokenType::LeftBracket, open).1;
    frame_expression(tokens, s1, earlier);
    let s2 = expression(tokens, s1).1;
    frame_consume(tokens, s2, earlier, TokenType::RightBracket, close);
}

/// `framed` holds of `loop_body`.
pub proof fn frame_loop_body(tokens: Seq<Token>, st: ParseState, earlier: Seq<LoxError>)
    ensures
        framed(st, earlier, loop_body(tokens, st), loop_body(tokens, after_errors(st, earlier))),
    decreases remaining(tokens, st), 10int,
{
    frame_statement(tokens, enter_loop(st), earlier);
}

/// `framed` holds of `declaration`.
pub proof fn frame_declaration(tokens: Seq<Token>, st: ParseState, earlier: Seq<LoxError>)
    ensures
        framed(st, earlier, declaration(tokens, st), declaration(tokens, after_errors(st, earlier))),
    decreases remaining(tokens, st), 11int,
{
    if check(tokens, st, TokenType::Class) {
        frame_class_declaration(tokens, advance(st), earlier);
    } else if check(tokens, st, TokenType::Fun) {
        frame_function(tokens, advance(st), earlier, FunctionKind::Function);
    } else if check(tokens, st, TokenType::Var) {
        frame_var_declaration(tokens, advance(st), earlier);
    } else {
        frame_statement(tokens, st, earlier);
    }
}

/// `framed` holds of `statement`.
pub proof fn frame_statement(tokens: Seq<Token>, st: ParseState, earlier: Seq<LoxError>)
    ensures
        framed(st, earlier, statement(tokens, st), statement(tokens, after_errors(st, earlier))),
    decreases remaining(tokens, st), 9int,
{
    let next = advance(st);
    if check(tokens, st, TokenType::For) {
        frame_for_statement(tokens, next, earlier);
    } else if check(tokens, st, TokenType::If) {
        frame_if_statement(tokens, next, earlier);
    } else if check(tokens, st, TokenType::Print) {
        frame_print_statement(tokens, next, earlier);
    } else if check(tokens, st, TokenType::Return) {
        frame_return_statement(tokens, next, earlier, peek(tokens, st));
    } else if check(tokens, st, TokenType::While) {
        frame_while_statement(tokens, next, earlier);
    } else if check(tokens, st, TokenType::LeftBrace) {
        frame_block(tokens, next, earlier);
    } else if check(tokens, st, TokenType::Break) {
        frame_break_statement(tokens, next, earlier, peek(tokens, st));
    } else {
        frame_expression_statement(tokens, st, earlier);
    }
}

/// `framed` holds of `for_statement`.
pub proof fn frame_for_statement(tokens: Seq<Token>, st: ParseState, earlier: Seq<LoxError>)
    ensures
        framed(
            st,
            earlier,
            for_statement(tokens, st),
            for_statement(tokens, after_errors(st, earlier)),
        ),
    decreases remaining(tokens, st), 20int,
{
    frame_for_clauses(tokens, st, earlier);
    let (clauses, s1) = for_clauses(tokens, st);
    if clauses is Ok {
        frame_loop_body(tokens, s1, earlier);
    }
}

/// `framed` holds of `if_statement`.
pub proof fn frame_if_statement(tokens: Seq<Token>, st: ParseState, earlier: Seq<LoxError>)
    ensures
        framed(
            st,
            earlier,
            if_statement(tokens, st),
            if_statement(tokens, after_errors(st, earlier)),
        ),
    decreases remaining(tokens, st), 20int,
{
    frame_condition(
        tokens,
        st,
        earlier,
        Message::ExpectLeftBracketAfterIf,
        Message::ExpectRightBracketAfterIfCondition,
    );
    let (tested, s1) = condition(
        tokens,
        st,
        Message::ExpectLeftBracketAfterIf,
        Message::ExpectRightBracketAfterIfCondition,
    );
    if tested is Ok {
        frame_statement(tokens, s1, earlier);
        let (then_branch, s2) = statement(tokens, s1);
        if then_branch is Ok && check(tokens, s2, TokenType::Else) {
            frame_statement(tokens, advance(s2), earlier);
        }
    }
}

/// `framed` holds of `while_statement`.
pub proof fn frame_while_statement(tokens: Seq<Token>, st: ParseState, earlier: Seq<LoxError>)
    ensures
        framed(
            st,
            earlier,
            while_statement(tokens, st),
            while_statement(tokens, after_errors(st, earlier)),
        ),
    decreases remaining(tokens, st), 20int,
{
    frame_condition(
        tokens,
        st,
        earlier,
        Message::ExpectLeftBracketAfterWhile,
        Message::ExpectRightBracketAfterCondition,
    );
    let (tested, s1) = condition(
        tokens,
        st,
        Message::ExpectLeftBracketAfterWhile,
        Message::ExpectRightBracketAfterCondition,
    );
    if tested is Ok {
        frame_loop_body(tokens, s1, earlier);
    }
}

/// `framed` holds of `block`.
pub proof fn frame_block(tokens: Seq<Token>, st: ParseState, earlier: Seq<LoxError>)
    ensures
        framed(st, earlier, block(tokens, st), block(tokens, after_errors(st, earlier))),
    decreases remaining(tokens, st), 21int,
{
    frame_block_rest(tokens, st, earlier, Seq::empty());
}

/// `framed` holds of `block_rest`.
pub proof fn frame_block_rest(
    tokens: Seq<Token>,
    st: ParseState,
    earlier: Seq<LoxError>,
    statements: Seq<StmtView>,
)
    ensures
        framed(
            st,
            earlier,
            block_rest(tokens, st, statements),
            block_rest(tokens, after_errors(st, earlier), statements),
        ),
    decreases remaining(tokens, st), 20int,
{
    if check(tokens, st, TokenType::RightBrace) || at_end(tokens, st) {
        frame_consume(tokens, st, earlier, TokenType::RightBrace, Message::ExpectRightBraceAfterBlock);
    } else {
        frame_declaration(tokens, st, earlier);
        let (declared, s1) = declaration(tokens, st);
        if declared is Ok && s1.current > st.current {
            frame_block_rest(tokens, s1, earlier, statements.push(declared->Ok_0));
        }
    }
}

/// `framed` holds of `function`.
pub proof fn frame_function(
    tokens: Seq<Token>,
    st: ParseState,
    earlier: Seq<LoxError>,
    kind: FunctionKind,
)
    ensures
        framed(
            st,
            earlier,
            function(tokens, st, kind),
            function(tokens, after_errors(st, earlier), kind),
        ),
    decreases remaining(tokens, st), 25int,
{
    frame_consume(tokens, st, earlier, TokenType::Identifier, kind.name_message());
    let (name, s1) = consume(tokens, st, TokenType::Identifier, kind.name_message());
    frame_consume(tokens, s1, earlier, TokenType::LeftBracket, kind.bracket_message());
    let (open, s2) = consume(tokens, s1, TokenType::LeftBracket, kind.bracket_message());
    frame_parameters(tokens, s2, earlier);
    let (listed, s3) = parameters(tokens, s2);
    frame_consume(
        tokens,
        s3,
        earlier,
        TokenType::RightBracket,
        Message::ExpectRightBracketAfterParameters,
    );
    let (close, s4) = consume(
        tokens,
        s3,
        TokenType::RightBracket,
        Message::ExpectRightBracketAfterParameters,
    );
    frame_consume(tokens, s4, earlier, TokenType::LeftBrace, kind.body_message());
    let (brace, s5) = consume(tokens, s4, TokenType::LeftBrace, kind.body_message());
    if name is Ok && open is Ok && listed is Ok && close is Ok && brace is Ok {
        frame_block(tokens, s5, earlier);
    }
}

/// `framed` holds of `superclass`.
pub proof fn frame_superclass(tokens: Seq<Token>, st: ParseState, earlier: Seq<LoxError>)
    ensures
        framed(st, earlier, superclass(tokens, st), superclass(tokens, after_errors(st, earlier))),
{
    frame_consume(tokens, advance(st), earlier, TokenType::Identifier, Message::ExpectSuperclassName);
}

/// `framed` holds of `class_declaration`.
pub proof fn frame_class_declaration(tokens: Seq<Token>, st: ParseState, earlier: Seq<LoxError>)
    ensures
        framed(
            st,
            earlier,
            class_declaration(tokens, st),
            class_declaration(tokens, after_errors(st, earlier)),
        ),
    decreases remaining(tokens, st), 40int,
{
    frame_consume(tokens, st, earlier, TokenType::Identifier, Message::ExpectClassName);
    let (name, s1) = consume(tokens, st, TokenType::Identifier, Message::ExpectClassName);
    frame_superclass(tokens, s1, earlier);
    let (parent, s2) = superclass(tokens, s1);
    frame_consume(tokens, s2, earlier, TokenType::LeftBrace, Message::ExpectLeftBraceBeforeClassBody);
    let (brace, s3) = consume(
        tokens,
        s2,
        TokenType::LeftBrace,
        Message::ExpectLeftBraceBeforeClassBody,
    );
    if name is Ok && parent is Ok && brace is Ok {
        frame_methods_rest(tokens, s3, earlier, Seq::empty());
        let s4 = methods_rest(tokens, s3, Seq::empty()).1;
        frame_consume(
            tokens,
            s4,
            earlier,
            TokenType::RightBrace,
            Message::ExpectRightBraceAfterClassBody,
        );
    }
}

/// `framed` holds of `methods_rest`.
pub proof fn frame_methods_rest(
    tokens: Seq<Token>,
    st: ParseState,
    earlier: Seq<LoxError>,
    methods: Seq<FunctionView>,
)
    ensures
        framed(
            st,
            earlier,
            methods_rest(tokens, st, methods),
            methods_rest(tokens, after_errors(st, earlier), methods),
        ),
    decreases remaining(tokens, st), 30int,
{
    if !(check(tokens, st, TokenType::RightBrace) || at_end(tokens, st)) {
        frame_function(tokens, st, earlier, FunctionKind::Method);
        let (method, s1) = function(tokens, st, FunctionKind::Method);
        if method is Ok && s1.current > st.current {
            frame_methods_rest(tokens, s1, earlier, methods.push(method->Ok_0));
        }
    }
}

/// Skipping tokens reports nothing and does not depend on the errors
/// reported before.
pub proof fn frame_synchronise_rest(tokens: Seq<Token>, st: ParseState, earlier: Seq<LoxError>)
    ensures
        synchronise_rest(tokens, after_errors(st, earlier)) == after_errors(
            synchronise_rest(tokens, st),
            earlier,
        ),
        synchronise_rest(tokens, st).current >= st.current,
        synchronise_rest(tokens, st).errors == st.errors,
    decreases remaining(tokens, st),
{
    if !(at_end(tokens, st) || tokens[st.current - 1].token_type == TokenType::Semicolon
        || crate::grammar::begins_statement(peek(tokens, st).token_type)) {
        frame_synchronise_rest(tokens, advance(st), earlier);
    }
}

/// Recovery reports nothing, skips at least one token unless the parser
/// is at the end, and does not depend on the errors reported before.
pub proof fn frame_synchronise(tokens: Seq<Token>, st: ParseState, earlier: Seq<LoxError>)
    ensures
        synchronise(tokens, after_errors(st, earlier)) == after_errors(
            synchronise(tokens, st),
            earlier,
        ),
        synchronise(tokens, st).current >= st.current,
        !at_end(tokens, st) ==> synchronise(tokens, st).current > st.current,
        synchronise(tokens, st).errors == st.errors,
{
    if !at_end(tokens, st) {
        frame_synchronise_rest(tokens, advance(st), earlier);
    }
}

/// A declaration that parses holds at least one token.
pub proof fn declaration_moves(tokens: Seq<Token>, st: ParseState)
    ensures
        declaration(tokens, st).0 is Ok ==> declaration(tokens, st).1.current > st.current,
{
    if check(tokens, st, TokenType::Class) || check(tokens, st, TokenType::Fun) || check(
        tokens,
        st,
        TokenType::Var,
    ) {
        frame_class_declaration(tokens, advance(st), Seq::empty());
        frame_function(tokens, advance(st), Seq::empty(), FunctionKind::Function);
        frame_var_declaration(tokens, advance(st), Seq::empty());
    } else {
        let next = advance(st);
        if check(tokens, st, TokenType::For) {
            frame_for_statement(tokens, next, Seq::empty());
        } else if check(tokens, st, TokenType::If) {
            frame_if_statement(tokens, next, Seq::empty());
        } else if check(tokens, st, TokenType::Print) {
            frame_print_statement(tokens, next, Seq::empty());
        } else if check(tokens, st, TokenType::Return) {
            frame_return_statement(tokens, next, Seq::empty(), peek(tokens, st));
        } else if check(tokens, st, TokenType::While) {
            frame_while_statement(tokens, next, Seq::empty());
        } else if check(tokens, st, TokenType::LeftBrace) {
            frame_block(tokens, next, Seq::empty());
        } else if check(tokens, st, TokenType::Break) {
            frame_break_statement(tokens, next, Seq::empty(), peek(tokens, st));
        } else {
            frame_expression(tokens, st, Seq::empty());
            let s1 = expression(tokens, st).1;
            frame_consume(
                tokens,
                s1,
                Seq::empty(),
                TokenType::Semicolon,
                Message::ExpectSemicolonAfterExpression,
            );
        }
    }
}

/// Earlier errors change neither the statements of a program nor its
/// later errors.
pub proof fn frame_program_rest(
    tokens: Seq<Token>,
    st: ParseState,
    earlier: Seq<LoxError>,
    statements: Seq<StmtView>,
)
    ensures
        program_rest(tokens, after_errors(st, earlier), statements).0 == program_rest(
            tokens,
            st,
            statements,
        ).0,
        program_rest(tokens, after_errors(st, earlier), statements).1 == after_errors(
            program_rest(tokens, st, statements).1,
            earlier,
        ),
    decreases remaining(tokens, st),
{
    if !at_end(tokens, st) {
        frame_declaration(tokens, st, earlier);
        let (declared, s1) = declaration(tokens, st);
        frame_synchronise(tokens, s1, earlier);
        let (read, s2) = match declared {
            Ok(s) => (statements.push(s), s1),
            Err(_) => (statements, synchronise(tokens, s1)),
        };
        if s2.current > st.current {
            frame_program_rest(tokens, s2, earlier, read);
        }
    }
}

/// Error recovery is independent: what is parsed and reported from a
/// statement on is the same whether or not errors were reported before
/// it. The errors of the whole are the earlier ones followed by those that
/// the rest reports by itself.
pub proof fn earlier_errors_change_nothing(
    tokens: Seq<Token>,
    st: ParseState,
    statements: Seq<StmtView>,
)
    ensures
        program_rest(tokens, st, statements).0 == program_rest(
            tokens,
            without_errors(st),
            statements,
        ).0,
        program_rest(tokens, st, statements).1.errors == st.errors + program_rest(
            tokens,
            without_errors(st),
            statements,
        ).1.errors,
        program_rest(tokens, st, statements).1.current == program_rest(
            tokens,
            without_errors(st),
            statements,
        ).1.current,
{
    frame_program_rest(tokens, without_errors(st), st.errors, statements);
    assert(st.errors + Seq::<LoxError>::empty() =~= st.errors);
    assert(after_errors(without_errors(st), st.errors) == st);
}

/// After a declaration that fails, the parser skips to the next statement
/// and parses on from there: the failure ends neither the parsing nor the
/// reporting.
pub proof fn parsing_resumes_after_an_error(
    tokens: Seq<Token>,
    st: ParseState,
    statements: Seq<StmtView>,
)
    requires
        !at_end(tokens, st),
        declaration(tokens, st).0 is Err,
    ensures
        synchronise(tokens, declaration(tokens, st).1).current > st.current,
        program_rest(tokens, st, statements) == program_rest(
            tokens,
            synchronise(tokens, declaration(tokens, st).1),
            statements,
        ),
{
    frame_declaration(tokens, st, Seq::empty());
    let s1 = declaration(tokens, st).1;
    frame_synchronise(tokens, s1, Seq::empty());
    if s1.current == st.current {
        assert(!at_end(tokens, s1));
    }
}

/// After a declaration that parses, the parser parses on behind it.
pub proof fn parsing_goes_on_after_a_statement(
    tokens: Seq<Token>,
    st: ParseState,
    statements: Seq<StmtView>,
)
    requires
        !at_end(tokens, st),
        declaration(tokens, st).0 is Ok,
    ensures
        program_rest(tokens, st, statements) == program_rest(
            tokens,
            declaration(tokens, st).1,
            statements.push(declaration(tokens, st).0->Ok_0),
        ),
{
    declaration_moves(tokens, st);
}

/// A declaration that fails has reported its failure: the error it
/// fails with is the last of the errors, and was not among them before.
pub proof fn a_failed_declaration_is_reported(tokens: Seq<Token>, st: ParseState)
    ensures
        declaration(tokens, st).1.errors.len() >= st.errors.len(),
        declaration(tokens, st).0 matches Err(e) ==> declaration(tokens, st).1.errors.len()
            > st.errors.len() && declaration(tokens, st).1.errors.last() == e,
{
    frame_declaration(tokens, st, Seq::empty());
}

/// The number of declarations of a program that fail, from `st` on.
pub open spec fn failed_declarations(tokens: Seq<Token>, st: ParseState) -> nat
    decreases remaining(tokens, st),
{
    if at_end(tokens, st) {
        0
    } else {
        let (declared, s1) = declaration(tokens, st);
        let failed: nat = if declared is Err {
            1
        } else {
            0
        };
        let s2 = if declared is Err {
            synchronise(tokens, s1)
        } else {
            s1
        };
        if s2.current > st.current {
            failed + failed_declarations(tokens, s2)
        } else {
            failed
        }
    }
}

/// Every failure is reported: a program has at least one error for each
/// of its declarations that fails, the later ones as well as the first.
pub proof fn every_failure_is_reported(tokens: Seq<Token>, st: ParseState, statements: Seq<StmtView>)
    ensures
        program_rest(tokens, st, statements).1.errors.len() >= st.errors.len()
            + failed_declarations(tokens, st),
    decreases remaining(tokens, st),
{
    if !at_end(tokens, st) {
        a_failed_declaration_is_reported(tokens, st);
        let (declared, s1) = declaration(tokens, st);
        frame_synchronise(tokens, s1, Seq::empty());
        let (read, s2) = match declared {
            Ok(s) => (statements.push(s), s1),
            Err(_) => (statements, synchronise(tokens, s1)),
        };
        if s2.current > st.current {
            every_failure_is_reported(tokens, s2, read);
        }
    }
}

/// The program is read to its end: parsing stops at the end-of-file
/// token and nowhere else, however many declarations fail.
pub proof fn the_program_is_read_to_its_end(
    tokens: Seq<Token>,
    st: ParseState,
    statements: Seq<StmtView>,
)
    ensures
        at_end(tokens, program_rest(tokens, st, statements).1),
    decreases remaining(tokens, st),
{
    if !at_end(tokens, st) {
        frame_declaration(tokens, st, Seq::empty());
        declaration_moves(tokens, st);
        let (declared, s1) = declaration(tokens, st);
        frame_synchronise(tokens, s1, Seq::empty());
        let (read, s2) = match declared {
            Ok(s) => (statements.push(s), s1),
            Err(_) => (statements, synchronise(tokens, s1)),
        };
        if s1.current == st.current {
            assert(at_end(tokens, s1) == at_end(tokens, st));
        }
        assert(s2.current > st.current);
        the_program_is_read_to_its_end(tokens, s2, read);
    }
}

/// A program whose declarations all parse, and which reports nothing on
/// the way, parses; a program with a declaration that fails does not.
pub proof fn a_failure_fails_the_program(tokens: Seq<Token>, st: ParseState, statements: Seq<StmtView>)
    requires
        failed_declarations(tokens, st) > 0,
    ensures
        program_rest(tokens, st, statements).1.errors.len() > 0,
{
    every_failure_is_reported(tokens, st, statements);
}

/// No error is lost: the errors reported before a position are the first
/// of the errors of the whole program.
pub proof fn reported_errors_stay(tokens: Seq<Token>, st: ParseState, statements: Seq<StmtView>)
    ensures
        program_rest(tokens, st, statements).1.errors.len() >= st.errors.len(),
        program_rest(tokens, st, statements).1.errors.subrange(0, st.errors.len() as int)
            == st.errors,
{
    earlier_errors_change_nothing(tokens, st, statements);
    let rest = program_rest(tokens, without_errors(st), statements).1.errors;
    assert((st.errors + rest).subrange(0, st.errors.len() as int) =~= st.errors);
}

/// The parser never moves backwards: `onward` changes nothing.
pub proof fn onward_changes_nothing(tokens: Seq<Token>, st: ParseState)
    ensures
        onward(st, expression(tokens, st)) == expression(tokens, st),
        onward(st, statement(tokens, st)) == statement(tokens, st),
        onward(st, declaration(tokens, st)) == declaration(tokens, st),
{
    frame_expression(tokens, st, Seq::empty());
    frame_statement(tokens, st, Seq::empty());
    frame_declaration(tokens, st, Seq::empty());
}

} // verus!
