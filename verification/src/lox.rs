//! The whole of Lox: a source text is scanned, parsed, resolved and run.
//!
//! `run` starts on a source text and `resume` goes on after the embedding
//! program has done what was asked of it. The errors of a run are kept for
//! the embedding program to show, and `exit_code` tells how a run that
//! ended is to be reported to the system.

use vstd::prelude::*;
use std::collections::HashMap;
use crate::error::{LoxError, LoxErrorType, Message};
use crate::grammar;
use crate::interpreter::Interpreter;
use crate::machine;
use crate::machine::{Action, Event, Machine, Mode, Task};
use crate::number::Number;
use crate::parser::Parser;
use crate::resolver::{resolve_stmts, Resolution, Resolver};
use crate::scanner::{
    finished_scan_ends_in_eof, number_token, scan, views, ScanEnd, Scanned, Scanner,
};
use crate::stmt::{shared, stmt_views};
use crate::token::{Token, TokenType};

verus! {

/// What a `Lox` is doing.
#[derive(Clone, Copy, Debug, PartialEq, Eq, Structural)]
pub enum Stage {
    /// Nothing: no run is under way.
    Idle,
    /// The source is being scanned.
    Scanning,
    /// The program is running.
    Running,
}

#[derive(Debug)]
pub struct Lox {
    pub interpreter: Interpreter,
    pub scanner: Scanner,
    pub stage: Stage,
    /// The identity that the first variable use of the next program gets.
    /// No two programs of one `Lox` share an identity, so the functions of
    /// an earlier program stay resolved.
    pub next_id: usize,
    /// The errors of the run that is under way, or of the last one.
    pub errors: Vec<LoxError>,
}

/// The exit code for the outcome of a run: 0 if it succeeded, 70 after a
/// runtime error, and 65 after any other error.
pub open spec fn spec_exit_code(outcome: Result<(), LoxError>) -> u8 {
    match outcome {
        Ok(_) => 0,
        Err(e) => if e.0 is RuntimeErr {
            70
        } else {
            65
        },
    }
}

/// The exit code for the outcome of a run.
pub fn exit_code(outcome: &Result<(), LoxError>) -> (code: u8)
    ensures
        code == spec_exit_code(*outcome),
{
    match outcome {
        Ok(_) => 0,
        Err(e) => if e.is_runtime_error() {
            70
        } else {
            65
        },
    }
}

/// What a line that is read at the prompt asks for.
#[derive(Clone, Copy, Debug, PartialEq, Eq, Structural)]
pub enum Command {
    /// `!`: leave.
    Quit,
    /// `@`: show the environment.
    Dump,
    /// Anything else is a program to run.
    Run,
}

/// The text without the white space at its start and at its end, as
/// `str::trim` gives it.
pub uninterp spec fn trimmed(text: Seq<char>) -> Seq<char>;

/// `str::trim`: the text without leading and trailing white space.
#[verifier::external_body]
fn trim<'a>(text: &'a str) -> (res: &'a str)
    ensures
        res@ == trimmed(text@),
{
    text.trim()
}

/// What a line asks for whose text, without the white space around it,
/// is `text`.
pub open spec fn spec_command(text: Seq<char>) -> Command {
    if text == "!"@ {
        Command::Quit
    } else if text == "@"@ {
        Command::Dump
    } else {
        Command::Run
    }
}

/// What a line asks for whose text, without the white space around it, is
/// `text`.
pub fn command_of(text: &str) -> (command: Command)
    ensures
        command == spec_command(text@),
{
    let text = String::from_str(text);
    if text == String::from_str("!") {
        Command::Quit
    } else if text == String::from_str("@") {
        Command::Dump
    } else {
        Command::Run
    }
}

/// What a line that is read at the prompt asks for.
pub fn command(line: &str) -> (command: Command)
    ensures
        command == spec_command(trimmed(line@)),
{
    command_of(trim(line))
}

/// The error of a run that cannot go on: the program has more variable
/// uses than can be told apart, or the embedding program gave an answer
/// that was not asked for.
pub open spec fn system_failure() -> LoxError {
    LoxError(LoxErrorType::SystemErr { message: Message::InternalError })
}

/// Whether `after` is `before` at the end of a run that failed, with
/// `errors` added to the errors of the run. The heap of the interpreter
/// is as it was.
pub open spec fn failed(before: Lox, errors: Seq<LoxError>, after: Lox) -> bool {
    &&& after.stage is Idle
    &&& after.errors@ == before.errors@ + errors
    &&& after.interpreter@.frames == before.interpreter@.frames
    &&& after.interpreter@.functions == before.interpreter@.functions
    &&& after.interpreter@.classes == before.interpreter@.classes
    &&& after.interpreter@.instances == before.interpreter@.instances
}

/// What becomes of the tokens of a source: they are parsed; if no error
/// is reported the statements are resolved; and if again no error is
/// reported the interpreter is set to run them, with the distances found
/// added to those it has. Otherwise the run is over with the failure, and
/// the errors reported are kept.
pub open spec fn loads(tokens: Seq<Token>, before: Lox, after: Lox, action: Action) -> bool {
    if before.next_id + tokens.len() > usize::MAX {
        failed(before, seq![system_failure()], after) && action == Action::Finished(Err(system_failure()))
    } else {
        let (statements, parsed) = grammar::program(tokens, Parser::initial(before.next_id));
        if parsed.errors.len() > 0 {
            &&& failed(before, parsed.errors, after)
            &&& action matches Action::Finished(Err(e)) && e.is_parse_failure()
        } else {
            let resolved = resolve_stmts(
                statements,
                Resolution { locals: before.interpreter@.locals, ..Resolution::empty() },
            );
            if resolved.errors.len() > 0 {
                &&& failed(before, resolved.errors, after)
                &&& action matches Action::Finished(Err(e)) && e.is_parse_failure()
            } else {
                &&& action is Continue
                &&& after.stage is Running
                &&& after.errors@ == before.errors@
                &&& after.next_id == parsed.next_id
                &&& after.interpreter@.tasks.len() == 1
                &&& after.interpreter@.tasks[0] matches Task::Sequence { statements: list, next }
                    && next == 0 && stmt_views(list@) == statements
                &&& after.interpreter@ == (Machine {
                    locals: resolved.locals,
                    current: 0,
                    tasks: after.interpreter@.tasks,
                    values: Seq::empty(),
                    mode: Mode::Running,
                    ..before.interpreter@
                })
            }
        }
    }
}

/// What becomes of a `Lox` whose scanner goes on: at a number it asks for
/// the value; at a faulty lexeme the run is over with that error; and at
/// the end of the text the tokens are loaded.
pub open spec fn scans(before: Lox, after: Lox, action: Action) -> bool {
    let run = scan(
        before.scanner.source@,
        views(before.scanner.tokens@),
        before.scanner.start as nat,
        before.scanner.current as nat,
        before.scanner.line as nat,
    );
    match run.end {
        ScanEnd::Number => {
            &&& after.stage is Scanning
            &&& after.interpreter == before.interpreter
            &&& after.errors == before.errors
            &&& after.next_id == before.next_id
            &&& after.scanner.wf()
            &&& after.scanner.source == before.scanner.source
            &&& views(after.scanner.tokens@) == run.tokens
            &&& after.scanner.start == run.start
            &&& after.scanner.current == run.current
            &&& after.scanner.line == run.line
            &&& action matches Action::Parse(text) && text@ == before.scanner.source@.subrange(
                run.start as int,
                run.current as int,
            )
        },
        ScanEnd::Failed(m) => {
            let e = LoxError(LoxErrorType::GeneralErr { line: run.line as usize, message: m });
            failed(before, seq![e], after) && action == Action::Finished(Err(e))
        },
        ScanEnd::Finished => exists|tokens: Seq<Token>|
            views(tokens) == run.tokens && #[trigger] loads(tokens, before, after, action),
    }
}

impl Lox {
    /// A `Lox` is valid if its scanner is.
    pub open spec fn wf(&self) -> bool {
        self.scanner.wf()
    }

    /// Whether the `Lox` is valid, as every `Lox` is that was made by
    /// `new` and used through `run` and `resume`.
    pub fn is_valid(&self) -> (b: bool)
        ensures
            b == self.wf(),
    {
        self.scanner.start <= self.scanner.current && self.scanner.current
            <= self.scanner.source.len() && self.scanner.source.len() < usize::MAX && 1
            <= self.scanner.line && self.scanner.line - 1 <= self.scanner.current
    }

    /// A `Lox` with a new interpreter, and no run under way.
    pub fn new() -> (lox: Lox)
        ensures
            lox.wf(),
            lox.interpreter@ == Machine::initial(),
            lox.stage is Idle,
            lox.next_id == 0,
            lox.errors@.len() == 0,
    {
        proof {
            reveal_strlit("");
        }
        Lox {
            interpreter: Interpreter::new(),
            scanner: Scanner::new(""),
            stage: Stage::Idle,
            next_id: 0,
            errors: Vec::new(),
        }
    }

    /// The errors of the run that is under way, or of the last one, in
    /// the order in which they were met.
    pub fn errors(&self) -> (errors: &Vec<LoxError>)
        ensures
            *errors == self.errors,
    {
        &self.errors
    }

    /// Starts a run on `source`: the errors of the last run are forgotten
    /// and the source is scanned from its start.
    pub fn run(&mut self, source: &str) -> (action: Action)
        requires
            old(self).wf(),
            source@.len() < usize::MAX,
        ensures
            final(self).wf(),
            exists|fresh: Lox|
                {
                    &&& fresh.interpreter == old(self).interpreter
                    &&& fresh.next_id == old(self).next_id
                    &&& fresh.errors@.len() == 0
                    &&& fresh.scanner.source@ == source@
                    &&& fresh.scanner.tokens@.len() == 0
                    &&& fresh.scanner.start == 0
                    &&& fresh.scanner.current == 0
                    &&& fresh.scanner.line == 1
                    &&& #[trigger] scans(fresh, *final(self), action)
                },
    {
        self.errors.clear();
        self.scanner = Scanner::new(source);
        self.stage = Stage::Scanning;
        let ghost fresh = *self;
        let action = self.scan();
        assert(scans(fresh, *self, action));
        action
    }

    /// Goes on with the run. While the source is scanned, `event` is the
    /// value of the number that was asked for; while the program runs, it
    /// is handed to the step of the interpreter that is taken. With no run
    /// under way nothing happens.
    pub fn resume(&mut self, event: Event) -> (action: Action)
        requires
            old(self).wf(),
        ensures
            final(self).wf(),
            match old(self).stage {
                Stage::Idle => *final(self) == *old(self) && action == Action::Finished(Ok(())),
                Stage::Scanning => match event {
                    Event::Number(value) => exists|supplied: Lox|
                        {
                            &&& supplied.interpreter == old(self).interpreter
                            &&& supplied.next_id == old(self).next_id
                            &&& supplied.errors == old(self).errors
                            &&& supplied.scanner.source == old(self).scanner.source
                            &&& supplied.scanner.start == old(self).scanner.start
                            &&& supplied.scanner.current == old(self).scanner.current
                            &&& supplied.scanner.line == old(self).scanner.line
                            &&& views(supplied.scanner.tokens@) == views(
                                old(self).scanner.tokens@,
                            ).push(
                                number_token(
                                    old(self).scanner.source@,
                                    old(self).scanner.start,
                                    old(self).scanner.current,
                                    old(self).scanner.line,
                                    value,
                                ),
                            )
                            &&& #[trigger] scans(supplied, *final(self), action)
                        },
                    _ => failed(*old(self), seq![system_failure()], *final(self)) && action
                        == Action::Finished(Err(system_failure())),
                },
                Stage::Running => {
                    &&& machine::steps(
                        old(self).interpreter@,
                        event,
                        final(self).interpreter@,
                        action,
                    )
                    &&& final(self).next_id == old(self).next_id
                    &&& match action {
                        Action::Finished(Ok(_)) => final(self).stage is Idle && final(self).errors@
                            == old(self).errors@,
                        Action::Finished(Err(e)) => final(self).stage is Idle && final(self).errors@
                            == old(self).errors@.push(e),
                        _ => final(self).stage is Running && final(self).errors@ == old(
                            self,
                        ).errors@,
                    }
                },
            },
    {
        match self.stage {
            Stage::Idle => Action::Finished(Ok(())),
            Stage::Scanning => {
                match event {
                    Event::Number(value) => {
                        self.scanner.add_number(value);
                        let ghost supplied = *self;
                        let action = self.scan();
                        assert(scans(supplied, *self, action));
                        action
                    },
                    _ => self.fail(LoxError::system_error(Message::InternalError)),
                }
            },
            Stage::Running => {
                let action = self.interpreter.step(event);
                match &action {
                    Action::Finished(Ok(_)) => {
                        self.stage = Stage::Idle;
                    },
                    Action::Finished(Err(e)) => {
                        self.stage = Stage::Idle;
                        self.errors.push(e.clone());
                    },
                    _ => {},
                }
                action
            },
        }
    }

    /// Ends the run with the error `e`.
    fn fail(&mut self, e: LoxError) -> (action: Action)
        requires
            old(self).wf(),
        ensures
            final(self).wf(),
            failed(*old(self), seq![e], *final(self)),
            final(self).scanner == old(self).scanner,
            final(self).next_id == old(self).next_id,
            action == Action::Finished(Err(e)),
    {
        self.stage = Stage::Idle;
        self.errors.push(e.clone());
        assert(self.errors@ =~= old(self).errors@ + seq![e]);
        Action::Finished(Err(e))
    }

    /// Adds `errors` to the errors of the run.
    fn keep(&mut self, errors: &Vec<LoxError>)
        ensures
            final(self).errors@ == old(self).errors@ + errors@,
            final(self).interpreter == old(self).interpreter,
            final(self).scanner == old(self).scanner,
            final(self).stage == old(self).stage,
            final(self).next_id == old(self).next_id,
    {
        let mut i: usize = 0;
        while i < errors.len()
            invariant
                i <= errors@.len(),
                self.errors@ == old(self).errors@ + errors@.subrange(0, i as int),
                self.interpreter == old(self).interpreter,
                self.scanner == old(self).scanner,
                self.stage == old(self).stage,
                self.next_id == old(self).next_id,
            decreases errors@.len() - i,
        {
            self.errors.push(errors[i].clone());
            assert(errors@.subrange(0, i + 1) =~= errors@.subrange(0, i as int).push(errors@[i as int]));
            assert(self.errors@ =~= old(self).errors@ + errors@.subrange(0, i + 1));
            i += 1;
        }
        assert(errors@.subrange(0, i as int) =~= errors@);
    }

    /// Goes on scanning.
    fn scan(&mut self) -> (action: Action)
        requires
            old(self).wf(),
            old(self).stage is Scanning,
        ensures
            final(self).wf(),
            scans(*old(self), *final(self), action),
    {
        proof {
            finished_scan_ends_in_eof(
                self.scanner.source@,
                views(self.scanner.tokens@),
                self.scanner.start as nat,
                self.scanner.current as nat,
                self.scanner.line as nat,
            );
        }
        let ghost run = scan(
            self.scanner.source@,
            views(self.scanner.tokens@),
            self.scanner.start as nat,
            self.scanner.current as nat,
            self.scanner.line as nat,
        );
        match self.scanner.scan_tokens() {
            Ok(Scanned::Number) => {
                let text = self.scanner.pending_number();
                assert(run.end is Number);
                let action = Action::Parse(text);
                assert(scans(*old(self), *self, action));
                action
            },
            Ok(Scanned::Finished) => {
                let mut tokens: Vec<Token> = Vec::new();
                core::mem::swap(&mut tokens, &mut self.scanner.tokens);
                let ghost emptied = *self;
                assert(run.end is Finished);
                assert(views(tokens@) == run.tokens);
                assert(views(tokens@).last() == tokens@.last()@);
                let action = self.load(&tokens);
                proof {
                    assert(loads(tokens@, emptied, *self, action));
                    assert(loads(tokens@, *old(self), *self, action));
                    assert(scans(*old(self), *self, action));
                }
                action
            },
            Err(e) => {
                assert(run.end is Failed);
                let action = self.fail(e);
                assert(scans(*old(self), *self, action));
                action
            },
        }
    }

    /// Parses and resolves the tokens, and sets the interpreter to run
    /// the program.
    fn load(&mut self, tokens: &Vec<Token>) -> (action: Action)
        requires
            old(self).wf(),
            tokens@.len() > 0,
            tokens@.last().token_type == TokenType::Eof,
        ensures
            final(self).wf(),
            final(self).scanner == old(self).scanner,
            loads(tokens@, *old(self), *final(self), action),
    {
        if tokens.len() > usize::MAX - self.next_id {
            return self.fail(LoxError::system_error(Message::InternalError));
        }
        let mut parser = Parser::new_from(tokens.as_slice(), self.next_id);
        let parsed = parser.parse();
        match parsed {
            Err(e) => {
                self.keep(&parser.errors);
                self.stage = Stage::Idle;
                Action::Finished(Err(e))
            },
            Ok(statements) => {
                self.next_id = parser.next_id();
                let statements = shared(&statements);
                let mut locals: HashMap<usize, usize> = HashMap::new();
                core::mem::swap(&mut locals, &mut self.interpreter.locals);
                let mut resolver = Resolver::with_locals(locals);
                let resolved = resolver.resolve(&statements);
                self.keep(&resolver.errors);
                self.interpreter.locals = resolver.locals;
                match resolved {
                    Err(e) => {
                        self.stage = Stage::Idle;
                        Action::Finished(Err(e))
                    },
                    Ok(_) => {
                        self.interpreter.interpret(&statements);
                        self.stage = Stage::Running;
                        assert(self.errors@ =~= old(self).errors@);
                        Action::Continue
                    },
                }
            },
        }
    }
}

} // verus!
