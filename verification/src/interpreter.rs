//! The interpreter: it runs a resolved program, one step at a time.
//!
//! `interpret` loads a program and `step` carries out one step of it, as
//! `machine::steps` describes. A step may ask the embedding program to
//! print a line, to do arithmetic on doubles, to write a number out or to
//! tell the time; the answer, if one is due, is handed to the next step.
//! `run` takes steps until something is asked for.

use vstd::prelude::*;
use std::collections::HashMap;
use std::rc::Rc;
use crate::environment::{Environment, FrameView};
use crate::error::{LoxError, LoxErrorType, Message};
use crate::expr::{
    share, AssignExpr, BinaryExpr, CallExpr, Expr, GetExpr, LogicalExpr, SetExpr, SuperExpr,
    UnaryExpr,
};
use crate::lox_callable::LoxCallable;
use crate::lox_class::{class_views, LoxClass};
use crate::lox_function::LoxFunction;
use crate::lox_instance::{instance_views, InstanceView, LoxInstance};
use crate::lox_native_function::{Clock, LoxNativeFunction};
use crate::machine;
use crate::machine::{Action, Event, Machine, Mode, Outcome, Reply, Task};
use crate::number::Number;
use crate::stmt::{ClassStmt, Stmt};
use crate::table::Table;
use crate::text::join;
use crate::token::{Callable, Literal, Token, TokenType};

verus! {

#[derive(Debug)]
pub struct Interpreter {
    pub environment: Environment,
    pub functions: Vec<LoxFunction>,
    pub classes: Vec<LoxClass>,
    pub instances: Vec<LoxInstance>,
    pub locals: HashMap<usize, usize>,
    pub current: usize,
    pub tasks: Vec<Task>,
    pub values: Vec<Literal>,
    pub mode: Mode,
}

impl View for Interpreter {
    type V = Machine;

    open spec fn view(&self) -> Machine {
        Machine {
            frames: self.environment@,
            functions: self.functions@,
            classes: class_views(self.classes@),
            instances: instance_views(self.instances@),
            locals: self.locals@,
            current: self.current,
            tasks: self.tasks@,
            values: self.values@,
            mode: self.mode,
        }
    }
}

/// What `binary_operation` makes of two values.
#[derive(Debug)]
pub enum BinaryResult {
    Value(Literal),
    Arithmetic { left: Number, right: Number },
    Join { text: Literal, number: Number, swapped: bool },
    Fault(Message),
}

/// Whether `result` is what `outcome` asks for.
pub open spec fn agrees(result: BinaryResult, outcome: Outcome) -> bool {
    match outcome {
        Outcome::Value(v) => result == BinaryResult::Value(v),
        Outcome::Text(text) => result matches BinaryResult::Value(Literal::String(s)) && s@ == text,
        Outcome::Arithmetic { left, right } => result == (BinaryResult::Arithmetic { left, right }),
        Outcome::Join { text, number, swapped } => result == (BinaryResult::Join {
            text,
            number,
            swapped,
        }),
        Outcome::Fault(message) => result == BinaryResult::Fault(message),
    }
}

/// Applies a binary operator to two values, as far as that can be done
/// without arithmetic on doubles.
pub fn binary_operation(operator: TokenType, left: &Literal, right: &Literal) -> (result:
    BinaryResult)
    ensures
        agrees(result, machine::binary_outcome(operator, *left, *right)),
{
    if operator == TokenType::EqualEqual {
        return BinaryResult::Value(Literal::Boolean(left.equals(right)));
    }
    if operator == TokenType::BangEqual {
        return BinaryResult::Value(Literal::Boolean(!left.equals(right)));
    }
    match (left, right) {
        (Literal::Number(a), Literal::Number(b)) => match operator {
            TokenType::Plus | TokenType::Minus | TokenType::Star | TokenType::Slash => BinaryResult::Arithmetic {
                left: *a,
                right: *b,
            },
            TokenType::Greater => BinaryResult::Value(Literal::Boolean(a.greater(*b))),
            TokenType::GreaterEqual => BinaryResult::Value(Literal::Boolean(a.greater_equal(*b))),
            TokenType::Less => BinaryResult::Value(Literal::Boolean(a.less(*b))),
            TokenType::LessEqual => BinaryResult::Value(Literal::Boolean(a.less_equal(*b))),
            _ => BinaryResult::Fault(Message::InternalError),
        },
        (Literal::String(a), Literal::String(b)) => if operator == TokenType::Plus {
            BinaryResult::Value(Literal::String(join(a.clone(), b.as_str())))
        } else {
            BinaryResult::Fault(Message::OperandsMustBeNumbers)
        },
        (Literal::String(_), Literal::Number(b)) => if operator == TokenType::Plus {
            BinaryResult::Join { text: left.clone(), number: *b, swapped: false }
        } else {
            BinaryResult::Fault(Message::OperandsMustBeNumbers)
        },
        (Literal::Number(a), Literal::String(_)) => if operator == TokenType::Plus {
            BinaryResult::Join { text: right.clone(), number: *a, swapped: true }
        } else {
            BinaryResult::Fault(Message::OperandsMustBeNumbers)
        },
        _ => BinaryResult::Fault(Message::OperandsMustBeNumbers),
    }
}

impl Interpreter {
    /// An interpreter with the global frame, in which `clock` is defined,
    /// and no program: it is halted.
    pub fn new() -> (interpreter: Interpreter)
        ensures
            interpreter@ == Machine::initial(),
    {
        let mut environment = Environment::new();
        environment.define(0, "clock", Literal::NativeFunction(LoxNativeFunction { fun: Clock }));
        let interpreter = Interpreter {
            environment,
            functions: Vec::new(),
            classes: Vec::new(),
            instances: Vec::new(),
            locals: HashMap::new(),
            current: 0,
            tasks: Vec::new(),
            values: Vec::new(),
            mode: Mode::Halted,
        };
        assert(interpreter@.frames =~= seq![
            FrameView {
                values: Map::<Seq<char>, Literal>::empty().insert(
                    "clock"@,
                    Literal::NativeFunction(LoxNativeFunction { fun: Clock }),
                ),
                enclosing: None,
            },
        ]);
        assert(interpreter@.classes =~= Seq::empty());
        assert(interpreter@.instances =~= Seq::empty());
        interpreter
    }

    /// The global frame.
    pub fn get_globals(&self) -> (frame: usize)
        ensures
            frame == 0,
    {
        0
    }

    /// Records that the variable use `id` was resolved to `depth` scopes
    /// outwards.
    pub fn resolve(&mut self, id: usize, depth: usize)
        ensures
            final(self)@ == (Machine { locals: old(self)@.locals.insert(id, depth), ..old(self)@ }),
    {
        self.locals.insert(id, depth);
    }

    /// Loads a program: the machine is set to run `statements` in the
    /// global frame, with nothing else left to do. The heap and the
    /// distances stay.
    pub fn interpret(&mut self, statements: &Rc<Vec<Rc<Stmt>>>)
        ensures
            final(self)@ == (Machine {
                current: 0,
                tasks: seq![Task::Sequence { statements: *statements, next: 0 }],
                values: Seq::empty(),
                mode: Mode::Running,
                ..old(self)@
            }),
    {
        self.tasks.clear();
        self.values.clear();
        self.tasks.push(Task::Sequence { statements: share(statements), next: 0 });
        self.current = 0;
        self.mode = Mode::Running;
        assert(self@.tasks =~= seq![Task::Sequence { statements: *statements, next: 0 }]);
        assert(self@.values =~= Seq::empty());
    }

    /// Runs `statements` as a block in the frame `frame`: when they are
    /// done, or an error leaves them, the current frame is current again.
    pub fn execute_block(&mut self, statements: &Rc<Vec<Rc<Stmt>>>, frame: usize)
        ensures
            final(self)@ == (Machine { current: frame, ..old(self)@ }).push_task(
                Task::Restore { previous: old(self)@.current },
            ).push_task(Task::Sequence { statements: *statements, next: 0 }),
    {
        self.push_task(Task::Restore { previous: self.current });
        self.push_task(Task::Sequence { statements: share(statements), next: 0 });
        self.current = frame;
    }

    /// Takes steps until one asks for something, and hands on what it
    /// asks for; after `fuel` steps that ask for nothing, the result is
    /// `Action::Continue`. The event is for the first step.
    pub fn run(&mut self, event: Event, fuel: usize) -> (action: Action)
        ensures
            machine::runs(old(self)@, event, fuel as nat, final(self)@, action),
    {
        let mut left: usize = fuel;
        let mut next = event;
        while left > 0
            invariant
                forall|after: Machine, action: Action|
                    machine::runs(self@, next, left as nat, after, action) ==> machine::runs(
                        old(self)@,
                        event,
                        fuel as nat,
                        after,
                        action,
                    ),
            decreases left,
        {
            let ghost before = self@;
            let ghost handed = next;
            let mut taken = Event::Nothing;
            core::mem::swap(&mut taken, &mut next);
            let action = self.step(taken);
            match action {
                Action::Continue => {
                    proof {
                        assert forall|after: Machine, last: Action|
                            machine::runs(
                                self@,
                                Event::Nothing,
                                (left - 1) as nat,
                                after,
                                last,
                            ) implies machine::runs(
                            old(self)@,
                            event,
                            fuel as nat,
                            after,
                            last,
                        ) by {
                            assert(machine::steps(before, handed, self@, Action::Continue));
                            assert(machine::runs(before, handed, left as nat, after, last));
                        }
                    }
                },
                action => {
                    proof {
                        assert(machine::steps(before, handed, self@, action));
                        assert(machine::runs(before, handed, left as nat, self@, action));
                    }
                    return action;
                },
            }
            left -= 1;
        }
        Action::Continue
    }

    /// Takes one step.
    pub fn step(&mut self, event: Event) -> (action: Action)
        ensures
            machine::steps(old(self)@, event, final(self)@, action),
    {
        let mut mode = Mode::Running;
        core::mem::swap(&mut mode, &mut self.mode);
        match mode {
            Mode::Halted => {
                self.mode = Mode::Halted;
                Action::Finished(Ok(()))
            },
            Mode::Awaiting(waiting) => {
                self.mode = Mode::Awaiting(waiting);
                self.answer(waiting, event);
                Action::Continue
            },
            Mode::Unwinding(e) => {
                let kept = e.clone();
                self.mode = Mode::Unwinding(e);
                self.unwind(kept)
            },
            Mode::Running => {
                match self.tasks.pop() {
                    None => {
                        self.mode = Mode::Halted;
                        assert(self.tasks@ =~= old(self).tasks@);
                        Action::Finished(Ok(()))
                    },
                    Some(task) => self.perform(task),
                }
            },
        }
    }

    fn answer(&mut self, waiting: Reply, event: Event)
        ensures
            final(self)@ == machine::answer(old(self)@, waiting, event),
    {
        match (waiting, event) {
            (Reply::Number, Event::Number(n)) => {
                self.mode = Mode::Running;
                self.push_value(Literal::Number(n));
            },
            (Reply::Text, Event::Text(s)) => {
                self.mode = Mode::Running;
                self.push_value(Literal::String(s));
            },
            (Reply::Time, Event::Number(n)) => {
                self.mode = Mode::Running;
                self.push_value(Literal::Number(n));
            },
            (Reply::Time, Event::Failed) => {
                self.raise(LoxError::system_error(Message::ClockError));
            },
            _ => {
                self.raise(LoxError::system_error(Message::InternalError));
            },
        }
    }

    fn unwind(&mut self, e: LoxError) -> (action: Action)
        requires
            old(self).mode == Mode::Unwinding(e),
        ensures
            (final(self)@, action) == machine::unwind(old(self)@, e),
    {
        match self.tasks.pop() {
            None => {
                self.mode = Mode::Halted;
                assert(self.tasks@ =~= old(self).tasks@);
                Action::Finished(Err(e))
            },
            Some(task) => {
                match task {
                    Task::Restore { previous } => {
                        self.current = previous;
                    },
                    Task::Loop { statement, height } => {
                        if e.is_break() {
                            self.values.truncate(height);
                            self.mode = Mode::Running;
                        }
                    },
                    Task::Call { previous, height, closure, is_initialiser } => {
                        match e.0 {
                            LoxErrorType::Return { value } => {
                                self.mode = Mode::Running;
                                self.finish_call(previous, height, closure, is_initialiser, value);
                            },
                            _ => {
                                self.current = previous;
                            },
                        }
                    },
                    _ => {},
                }
                Action::Continue
            },
        }
    }

    fn push_task(&mut self, task: Task)
        ensures
            final(self)@ == old(self)@.push_task(task),
    {
        self.tasks.push(task);
    }

    fn push_value(&mut self, value: Literal)
        ensures
            final(self)@ == old(self)@.push_value(value),
    {
        self.values.push(value);
    }

    /// Takes the topmost value.
    fn pop_value(&mut self) -> (value: Literal)
        requires
            old(self)@.values.len() >= 1,
        ensures
            final(self)@ == old(self)@.drop_values(1),
            value == old(self)@.value(0),
    {
        match self.values.pop() {
            Some(v) => v,
            None => Literal::Nil,
        }
    }

    /// Drops the `count` topmost values.
    fn drop_values(&mut self, count: usize)
        requires
            old(self)@.values.len() >= count,
        ensures
            final(self)@ == old(self)@.drop_values(count as nat),
    {
        let height: usize = self.values.len() - count;
        self.values.truncate(height);
    }

    fn raise(&mut self, error: LoxError)
        ensures
            final(self)@ == old(self)@.raise(error),
    {
        self.mode = Mode::Unwinding(error);
    }

    fn fault(&mut self, token: &Token, message: Message)
        ensures
            final(self)@ == old(self)@.fault(*token, message),
    {
        self.mode = Mode::Unwinding(LoxError::runtime_error(token, message));
    }

    /// What the variable use `id` of `name` reads.
    fn look_up_variable(&self, name: &Token, id: usize) -> (res: Result<Literal, LoxError>)
        ensures
            res == self@.read(*name, id),
    {
        match self.locals.get(&id) {
            Some(distance) => {
                match self.environment.get_at(self.current, *distance, name.lexeme.as_str()) {
                    Some(v) => Ok(v),
                    None => Err(LoxError::runtime_error(name, Message::UndefinedVariable)),
                }
            },
            None => self.environment.get(0, name),
        }
    }

    fn push_variable(&mut self, name: &Token, id: usize)
        ensures
            final(self)@ == old(self)@.push_variable(*name, id),
    {
        match self.look_up_variable(name, id) {
            Ok(v) => {
                self.push_value(v);
            },
            Err(e) => {
                self.raise(e);
            },
        }
    }

    /// Binds the function at `method` to `this` and pushes the bound
    /// function.
    fn push_bound(&mut self, method: usize, this: &Literal)
        requires
            method < old(self)@.functions.len(),
        ensures
            final(self)@ == old(self)@.push_bound(method, *this),
    {
        let function = self.functions[method].clone();
        let bound = function.bind(this, &mut self.environment);
        let handle: usize = self.functions.len();
        self.functions.push(bound);
        self.push_value(Literal::Function(Callable { fun: handle }));
    }

    fn perform(&mut self, task: Task) -> (action: Action)
        requires
            old(self).mode is Running,
        ensures
            machine::performs(old(self)@, task, final(self)@, action),
    {
        match task {
            Task::Binary(e) => self.visit_binary_expr(&e),
            Task::Print => self.visit_print_stmt(),
            Task::Join { swapped } => self.join_texts(swapped),
            Task::Evaluate(e) => {
                self.evaluate(&e);
                Action::Continue
            },
            Task::Execute(s) => {
                self.execute(&s);
                Action::Continue
            },
            Task::Sequence { statements, next } => {
                if next < statements.len() {
                    let statement = share(&statements[next]);
                    self.push_task(Task::Sequence { statements, next: next + 1 });
                    self.push_task(Task::Execute(statement));
                }
                Action::Continue
            },
            Task::Restore { previous } => {
                self.current = previous;
                Action::Continue
            },
            Task::Loop { statement, height } => {
                let condition = share(&statement.condition);
                self.push_task(Task::Test(statement));
                self.push_task(Task::Evaluate(condition));
                Action::Continue
            },
            Task::Assign(e) => {
                self.visit_assign_expr(&e);
                Action::Continue
            },
            Task::Arguments { call, next } => {
                if next < call.arguments.len() {
                    let argument = share(&call.arguments[next]);
                    self.push_task(Task::Arguments { call, next: next + 1 });
                    self.push_task(Task::Evaluate(argument));
                    Action::Continue
                } else {
                    self.visit_call_expr(&call)
                }
            },
            Task::Get(e) => {
                self.visit_get_expr(&e);
                Action::Continue
            },
            Task::Logical(e) => {
                self.visit_logical_expr(&e);
                Action::Continue
            },
            Task::SetObject(e) => {
                self.check_set_object(e);
                Action::Continue
            },
            Task::SetValue(e) => {
                self.visit_set_expr(&e);
                Action::Continue
            },
            Task::Unary(e) => {
                self.visit_unary_expr(&e);
                Action::Continue
            },
            Task::Call { previous, height, closure, is_initialiser } => {
                self.finish_call(previous, height, closure, is_initialiser, Literal::Nil);
                Action::Continue
            },
            task => {
                if self.values.len() < 1 {
                    self.raise(LoxError::system_error(Message::InternalError));
                } else {
                    let value = self.pop_value();
                    self.consume(task, value);
                }
                Action::Continue
            },
        }
    }

    /// One step on a task that uses the value `value`, taken from the top.
    fn consume(&mut self, task: Task, value: Literal)
        requires
            machine::consumes(task),
            old(self).mode is Running,
        ensures
            final(self)@ == machine::consume(old(self)@, task, value),
    {
        match task {
            Task::Discard => {},
            Task::Define(s) => {
                self.environment.define(self.current, s.name.lexeme.as_str(), value);
            },
            Task::Branch(s) => {
                if value.is_truthy() {
                    self.push_task(Task::Execute(share(&s.then_branch)));
                } else {
                    match &s.else_branch {
                        Some(b) => {
                            self.push_task(Task::Execute(share(b)));
                        },
                        None => {},
                    }
                }
            },
            Task::Test(s) => {
                if value.is_truthy() {
                    let body = share(&s.body);
                    let height: usize = self.values.len();
                    self.push_task(Task::Loop { statement: s, height });
                    self.push_task(Task::Execute(body));
                }
            },
            Task::Return => {
                self.raise(LoxError::new_return(&value));
            },
            Task::Class(s) => {
                match value {
                    Literal::Class(k) => {
                        self.visit_class_stmt(&s, Some(k));
                    },
                    _ => {
                        let token = match &s.superclass {
                            Some(e) => match &**e {
                                Expr::Variable(v) => v.name.clone(),
                                _ => s.name.clone(),
                            },
                            None => s.name.clone(),
                        };
                        self.fault(&token, Message::SuperclassMustBeClass);
                    },
                }
            },
            Task::Construct { instance } => {
                self.push_value(Literal::Instance(instance));
            },
            _ => {},
        }
    }

    /// One step on an expression.
    fn evaluate(&mut self, expr: &Rc<Expr>)
        requires
            old(self).mode is Running,
        ensures
            (final(self)@, Action::Continue) == machine::evaluate(old(self)@, **expr),
    {
        match &**expr {
            Expr::Assign(e) => {
                self.push_task(Task::Assign(share(e)));
                self.push_task(Task::Evaluate(share(&e.value)));
            },
            Expr::Binary(e) => {
                self.push_task(Task::Binary(share(e)));
                self.push_task(Task::Evaluate(share(&e.right)));
                self.push_task(Task::Evaluate(share(&e.left)));
            },
            Expr::Call(e) => {
                self.push_task(Task::Arguments { call: share(e), next: 0 });
                self.push_task(Task::Evaluate(share(&e.callee)));
            },
            Expr::Get(e) => {
                self.push_task(Task::Get(share(e)));
                self.push_task(Task::Evaluate(share(&e.object)));
            },
            Expr::Grouping(e) => {
                self.push_task(Task::Evaluate(share(&e.expression)));
            },
            Expr::Literal(e) => {
                let value = match &e.value {
                    Some(v) => v.clone(),
                    None => Literal::Nil,
                };
                self.push_value(value);
            },
            Expr::Logical(e) => {
                self.push_task(Task::Logical(share(e)));
                self.push_task(Task::Evaluate(share(&e.left)));
            },
            Expr::SetField(e) => {
                self.push_task(Task::SetObject(share(e)));
                self.push_task(Task::Evaluate(share(&e.object)));
            },
            Expr::Super(e) => {
                self.visit_super_expr(e);
            },
            Expr::This(e) => {
                self.push_variable(&e.keyword, e.id);
            },
            Expr::Unary(e) => {
                self.push_task(Task::Unary(share(e)));
                self.push_task(Task::Evaluate(share(&e.right)));
            },
            Expr::Variable(e) => {
                self.push_variable(&e.name, e.id);
            },
        }
    }

    fn visit_super_expr(&mut self, e: &SuperExpr)
        requires
            old(self).mode is Running,
        ensures
            final(self)@ == machine::evaluate_super(old(self)@, *e),
    {
        let distance: usize = match self.locals.get(&e.id) {
            Some(d) => *d,
            None => 0,
        };
        match self.environment.get_at(self.current, distance, "super") {
            Some(Literal::Class(c)) => {
                if distance == 0 {
                    self.fault(&e.keyword, Message::InternalError);
                    return ;
                }
                match self.environment.get_at(self.current, distance - 1, "this") {
                    Some(this) => {
                        match LoxClass::find_method(&self.classes, c, &e.method.lexeme) {
                            Some(Literal::Function(f)) => {
                                if f.fun < self.functions.len() {
                                    self.push_bound(f.fun, &this);
                                } else {
                                    self.fault(&e.method, Message::InternalError);
                                }
                            },
                            _ => {
                                self.fault(&e.method, Message::UndefinedProperty);
                            },
                        }
                    },
                    None => {
                        self.fault(&e.keyword, Message::InternalError);
                    },
                }
            },
            _ => {
                self.fault(&e.keyword, Message::InternalError);
            },
        }
    }

    fn visit_unary_expr(&mut self, e: &UnaryExpr)
        requires
            old(self).mode is Running,
        ensures
            final(self)@ == machine::apply_unary(old(self)@, *e),
    {
        if self.values.len() < 1 {
            self.fault(&e.operator, Message::InternalError);
            return ;
        }
        let right = self.pop_value();
        match e.operator.token_type {
            TokenType::Bang => {
                self.push_value(Literal::Boolean(!right.is_truthy()));
            },
            TokenType::Minus => {
                match right.get_number() {
                    Ok(n) => {
                        self.push_value(Literal::Number(n.negate()));
                    },
                    Err(_) => {
                        self.fault(&e.operator, Message::OperandMustBeNumber);
                    },
                }
            },
            _ => {
                self.fault(&e.operator, Message::InternalError);
            },
        }
    }

    fn visit_logical_expr(&mut self, e: &LogicalExpr)
        requires
            old(self).mode is Running,
        ensures
            final(self)@ == machine::apply_logical(old(self)@, *e),
    {
        let count: usize = self.values.len();
        if count < 1 {
            self.fault(&e.operator, Message::InternalError);
            return ;
        }
        let truthy = self.values[count - 1].is_truthy();
        let decided = if e.operator.is_type(&TokenType::Or) {
            truthy
        } else {
            !truthy
        };
        if !decided {
            self.drop_values(1);
            self.push_task(Task::Evaluate(share(&e.right)));
        }
    }

    fn visit_assign_expr(&mut self, e: &AssignExpr)
        requires
            old(self).mode is Running,
        ensures
            final(self)@ == machine::apply_assign(old(self)@, *e),
    {
        let count: usize = self.values.len();
        if count < 1 {
            self.fault(&e.name, Message::InternalError);
            return ;
        }
        let value = self.values[count - 1].clone();
        let assigned = match self.locals.get(&e.id) {
            Some(distance) => self.environment.assign_at(self.current, *distance, &e.name, &value),
            None => self.environment.assign(0, &e.name, &value),
        };
        match assigned {
            Ok(_) => {},
            Err(error) => {
                self.raise(error);
            },
        }
    }

    fn visit_get_expr(&mut self, e: &GetExpr)
        requires
            old(self).mode is Running,
        ensures
            final(self)@ == machine::apply_get(old(self)@, *e),
    {
        if self.values.len() < 1 {
            self.fault(&e.name, Message::InternalError);
            return ;
        }
        let object = self.pop_value();
        match object {
            Literal::Instance(i) => {
                if i >= self.instances.len() {
                    self.fault(&e.name, Message::InternalError);
                    return ;
                }
                let read = self.instances[i].get(
                    i,
                    &e.name,
                    &self.classes,
                    &mut self.functions,
                    &mut self.environment,
                );
                match read {
                    Ok(v) => {
                        self.push_value(v);
                    },
                    Err(error) => {
                        self.raise(error);
                    },
                }
            },
            _ => {
                self.fault(&e.name, Message::OnlyInstancesHaveProperties);
            },
        }
    }

    fn check_set_object(&mut self, e: Rc<SetExpr>)
        requires
            old(self).mode is Running,
        ensures
            final(self)@ == machine::apply_set_object(old(self)@, e),
    {
        let count: usize = self.values.len();
        if count < 1 {
            self.fault(&e.name, Message::InternalError);
            return ;
        }
        match &self.values[count - 1] {
            Literal::Instance(_) => {
                let value = share(&e.value);
                self.push_task(Task::SetValue(e));
                self.push_task(Task::Evaluate(value));
            },
            _ => {
                self.drop_values(1);
                self.fault(&e.name, Message::OnlyInstancesHaveFields);
            },
        }
    }

    fn visit_set_expr(&mut self, e: &SetExpr)
        requires
            old(self).mode is Running,
        ensures
            final(self)@ == machine::apply_set_value(old(self)@, *e),
    {
        if self.values.len() < 2 {
            self.fault(&e.name, Message::InternalError);
            return ;
        }
        let value = self.pop_value();
        let object = self.pop_value();
        assert(self@.values =~= old(self)@.drop_values(2).values);
        match object {
            Literal::Instance(i) => {
                if i < self.instances.len() {
                    self.instances[i].set(&e.name, &value);
                    assert(instance_views(self.instances@) =~= instance_views(
                        old(self).instances@,
                    ).update(
                        i as int,
                        InstanceView {
                            fields: old(self)@.instances[i as int].fields.insert(e.name.lexeme@, value),
                            ..old(self)@.instances[i as int]
                        },
                    ));
                    self.push_value(value);
                } else {
                    self.fault(&e.name, Message::InternalError);
                }
            },
            _ => {
                self.fault(&e.name, Message::InternalError);
            },
        }
    }

    fn visit_binary_expr(&mut self, e: &BinaryExpr) -> (action: Action)
        requires
            old(self).mode is Running,
        ensures
            machine::applies_binary(old(self)@, *e, final(self)@, action),
    {
        if self.values.len() < 2 {
            self.fault(&e.operator, Message::InternalError);
            return Action::Continue;
        }
        let right = self.pop_value();
        let left = self.pop_value();
        assert(self@.values =~= old(self)@.drop_values(2).values);
        match binary_operation(e.operator.token_type, &left, &right) {
            BinaryResult::Value(v) => {
                self.push_value(v);
                assert(self@.values.drop_last() =~= old(self)@.drop_values(2).values);
                Action::Continue
            },
            BinaryResult::Arithmetic { left, right } => {
                self.mode = Mode::Awaiting(Reply::Number);
                Action::Arithmetic { operator: e.operator.token_type, left, right }
            },
            BinaryResult::Join { text, number, swapped } => {
                self.push_task(Task::Join { swapped });
                self.push_value(text);
                self.mode = Mode::Awaiting(Reply::Text);
                Action::Format(number)
            },
            BinaryResult::Fault(message) => {
                self.fault(&e.operator, message);
                Action::Continue
            },
        }
    }

    fn join_texts(&mut self, swapped: bool) -> (action: Action)
        requires
            old(self).mode is Running,
        ensures
            machine::joins(old(self)@, swapped, final(self)@, action),
    {
        if self.values.len() < 2 {
            self.raise(LoxError::system_error(Message::InternalError));
            return Action::Continue;
        }
        let upper = self.pop_value();
        let lower = self.pop_value();
        assert(self@.values =~= old(self)@.drop_values(2).values);
        match (lower, upper) {
            (Literal::String(a), Literal::String(b)) => {
                let joined = if swapped {
                    join(b, a.as_str())
                } else {
                    join(a, b.as_str())
                };
                self.push_value(Literal::String(joined));
                assert(self@.values.drop_last() =~= old(self)@.drop_values(2).values);
            },
            _ => {
                self.raise(LoxError::system_error(Message::InternalError));
            },
        }
        Action::Continue
    }

    /// The name of the class at `class`.
    fn class_name(&self, class: usize) -> (name: String)
        ensures
            name@ == machine::class_name(self@, class),
    {
        if class < self.classes.len() {
            self.classes[class].name.clone()
        } else {
            String::new()
        }
    }

    /// The text that is printed for a value that is not a number.
    pub fn stringify(&self, value: &Literal) -> (text: String)
        ensures
            text@ == machine::display(self@, *value),
    {
        match value {
            Literal::Nil => String::from_str("nil"),
            Literal::Boolean(b) => if *b {
                String::from_str("true")
            } else {
                String::from_str("false")
            },
            Literal::String(s) => s.clone(),
            Literal::Number(_) => String::new(),
            Literal::Function(f) => {
                let text = String::from_str("<fn ");
                let text = if f.fun < self.functions.len() {
                    join(text, self.functions[f.fun].declaration.name.lexeme.as_str())
                } else {
                    assert(text@ + Seq::<char>::empty() =~= text@);
                    text
                };
                join(text, ">")
            },
            Literal::NativeFunction(_) => String::from_str("<native fn>"),
            Literal::Class(c) => self.class_name(*c),
            Literal::Instance(i) => {
                let name = if *i < self.instances.len() {
                    self.class_name(self.instances[*i].class)
                } else {
                    String::new()
                };
                join(name, " instance")
            },
        }
    }

    fn visit_print_stmt(&mut self) -> (action: Action)
        requires
            old(self).mode is Running,
        ensures
            machine::prints(old(self)@, final(self)@, action),
    {
        if self.values.len() < 1 {
            self.raise(LoxError::system_error(Message::InternalError));
            return Action::Continue;
        }
        let value = self.pop_value();
        match value {
            Literal::Number(n) => {
                self.push_task(Task::Print);
                self.mode = Mode::Awaiting(Reply::Text);
                Action::Format(n)
            },
            _ => {
                let ghost before = self@;
                let text = self.stringify(&value);
                assert(machine::display(before, value) == machine::display(old(self)@, value));
                Action::Print(text)
            },
        }
    }

    fn visit_call_expr(&mut self, e: &CallExpr) -> (action: Action)
        requires
            old(self).mode is Running,
        ensures
            (final(self)@, action) == machine::invoke(old(self)@, *e),
    {
        let count: usize = e.arguments.len();
        if self.values.len() <= count {
            self.fault(&e.bracket, Message::InternalError);
            return Action::Continue;
        }
        let base: usize = self.values.len() - count - 1;
        let arguments = self.values.split_off(base + 1);
        let callee = self.pop_value();
        assert(self@.values =~= old(self)@.drop_values((count + 1) as nat).values);
        match callee {
            Literal::Function(f) => {
                if f.fun >= self.functions.len() {
                    self.fault(&e.bracket, Message::InternalError);
                    return Action::Continue;
                }
                let function = self.functions[f.fun].clone();
                let expected: usize = function.arity();
                if expected != count {
                    self.fault(&e.bracket, Message::WrongArity { expected, got: count });
                    return Action::Continue;
                }
                function.call(self, &arguments);
                Action::Continue
            },
            Literal::Class(c) => {
                if c >= self.classes.len() {
                    self.fault(&e.bracket, Message::InternalError);
                    return Action::Continue;
                }
                let expected: usize = LoxClass::arity(&self.classes, &self.functions, c);
                if expected != count {
                    self.fault(&e.bracket, Message::WrongArity { expected, got: count });
                    return Action::Continue;
                }
                LoxClass::call(c, self, &arguments);
                Action::Continue
            },
            Literal::NativeFunction(native) => {
                if count != 0 {
                    self.fault(&e.bracket, Message::WrongArity { expected: 0, got: count });
                    return Action::Continue;
                }
                native.fun.call(self)
            },
            _ => {
                self.fault(&e.bracket, Message::NotCallable);
                Action::Continue
            },
        }
    }

    /// Ends a call with `returned`.
    fn finish_call(
        &mut self,
        previous: usize,
        height: usize,
        closure: usize,
        is_initialiser: bool,
        returned: Literal,
    )
        ensures
            final(self)@ == machine::finish_call(
                old(self)@,
                previous,
                height,
                closure,
                is_initialiser,
                returned,
            ),
    {
        let result = if is_initialiser {
            match self.environment.get_at(closure, 0, "this") {
                Some(this) => this,
                None => Literal::Nil,
            }
        } else {
            returned
        };
        self.values.truncate(height);
        self.current = previous;
        self.push_value(result);
    }

    /// Declares the class of `s`, whose superclass is the class at
    /// `superclass`.
    fn visit_class_stmt(&mut self, s: &Rc<ClassStmt>, superclass: Option<usize>)
        requires
            old(self).mode is Running,
        ensures
            final(self)@ == machine::declare_class(old(self)@, **s, superclass),
    {
        self.environment.define(self.current, s.name.lexeme.as_str(), Literal::Nil);
        let closure: usize = match superclass {
            Some(parent) => {
                let frame = self.environment.new_with_enclosing(self.current);
                self.environment.define(frame, "super", Literal::Class(parent));
                frame
            },
            None => self.current,
        };
        let base: usize = self.functions.len();
        let ghost frames = self.environment@;
        let mut methods: Table<usize> = Table::new();
        let mut i: usize = 0;
        while i < s.methods.len()
            invariant
                i <= s.methods@.len(),
                base == old(self).functions@.len(),
                self.functions@.len() == base + i,
                self.environment@ == frames,
                self.classes == old(self).classes,
                self.instances == old(self).instances,
                self.locals == old(self).locals,
                self.current == old(self).current,
                self.tasks == old(self).tasks,
                self.values == old(self).values,
                self.mode == old(self).mode,
                self.functions@ == machine::with_methods(
                    old(self).functions@,
                    s.methods@,
                    closure,
                    i as nat,
                ),
                methods@ == machine::method_table(s.methods@, base as nat, i as nat),
            decreases s.methods@.len() - i,
        {
            let method = &s.methods[i];
            let is_initialiser = method.name.lexeme == String::from_str("init");
            let handle: usize = self.functions.len();
            self.functions.push(LoxFunction::new(closure, method, is_initialiser));
            methods.insert(method.name.lexeme.clone(), handle);
            i += 1;
        }
        let class = LoxClass::new(s.name.lexeme.as_str(), superclass, methods);
        let handle: usize = self.classes.len();
        assert(class_views(self.classes@.push(class)) =~= class_views(self.classes@).push(class@));
        self.classes.push(class);
        let assigned = self.environment.assign(self.current, &s.name, &Literal::Class(handle));
    }

    /// One step on a statement.
    fn execute(&mut self, stmt: &Rc<Stmt>)
        requires
            old(self).mode is Running,
        ensures
            (final(self)@, Action::Continue) == machine::execute(old(self)@, **stmt),
    {
        match &**stmt {
            Stmt::Block(s) => {
                let frame = self.environment.new_with_enclosing(self.current);
                self.execute_block(&s.statements, frame);
            },
            Stmt::Break(_) => {
                self.raise(LoxError::new_break());
            },
            Stmt::Class(s) => {
                match &s.superclass {
                    Some(e) => {
                        self.push_task(Task::Class(share(s)));
                        self.push_task(Task::Evaluate(share(e)));
                    },
                    None => {
                        self.visit_class_stmt(s, None);
                    },
                }
            },
            Stmt::Expression(s) => {
                self.push_task(Task::Discard);
                self.push_task(Task::Evaluate(share(&s.expression)));
            },
            Stmt::Function(s) => {
                let handle: usize = self.functions.len();
                self.functions.push(LoxFunction::new(self.current, s, false));
                self.environment.define(
                    self.current,
                    s.name.lexeme.as_str(),
                    Literal::Function(Callable { fun: handle }),
                );
            },
            Stmt::If(s) => {
                self.push_task(Task::Branch(share(s)));
                self.push_task(Task::Evaluate(share(&s.condition)));
            },
            Stmt::Print(s) => {
                self.push_task(Task::Print);
                self.push_task(Task::Evaluate(share(&s.expression)));
            },
            Stmt::Return(s) => {
                match &s.value {
                    Some(v) => {
                        self.push_task(Task::Return);
                        self.push_task(Task::Evaluate(share(v)));
                    },
                    None => {
                        self.raise(LoxError::new_return(&Literal::Nil));
                    },
                }
            },
            Stmt::Var(s) => {
                match &s.initialiser {
                    Some(i) => {
                        self.push_task(Task::Define(share(s)));
                        self.push_task(Task::Evaluate(share(i)));
                    },
                    None => {
                        self.environment.define(self.current, s.name.lexeme.as_str(), Literal::Nil);
                    },
                }
            },
            Stmt::While(s) => {
                self.push_task(Task::Test(share(s)));
                self.push_task(Task::Evaluate(share(&s.condition)));
            },
        }
    }
}

} // verus!
