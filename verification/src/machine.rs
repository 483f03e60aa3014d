//! The interpreter as a machine: its states, and what one step does.
//!
//! The machine keeps a stack of tasks, the work that is left, and a stack
//! of values, the results that wait to be used. A step takes the topmost
//! task and carries it out: it may push further tasks, push or pop values,
//! change the heap, raise an error or a signal, or ask the embedding
//! program for something. Errors and signals unwind the task stack until a
//! task catches them. The functions here say, for every state, what the
//! state after one step is; the interpreter is proved to compute them.

use vstd::prelude::*;
use std::rc::Rc;
use crate::environment::{
    ancestor, assigned, assigned_at, extended, holder, lookup, lookup_at, stored, FrameView,
};
use crate::error::{LoxError, LoxErrorType, Message};
use crate::expr::{
    AssignExpr, BinaryExpr, CallExpr, Expr, GetExpr, LogicalExpr, SetExpr, SuperExpr, UnaryExpr,
};
use crate::lox_callable::LoxCallable;
use crate::lox_class::{class_arity, method_of, ClassView};
use crate::lox_function::LoxFunction;
use crate::lox_instance::{property, InstanceView, Property};
use crate::lox_native_function::{Clock, LoxNativeFunction};
use crate::number::Number;
use crate::stmt::{ClassStmt, FunctionStmt, IfStmt, Stmt, VarStmt, WhileStmt};
use crate::token::{Callable, Literal, Token, TokenType};

verus! {

/// A piece of work that is left to do.
#[derive(Debug)]
pub enum Task {
    /// Evaluate the expression and push its value.
    Evaluate(Rc<Expr>),
    /// Execute the statement.
    Execute(Rc<Stmt>),
    /// Execute the statements from `next` on, one after the other.
    Sequence { statements: Rc<Vec<Rc<Stmt>>>, next: usize },
    /// Leave a block: go back to the frame `previous`.
    Restore { previous: usize },
    /// Drop the value of an expression statement.
    Discard,
    /// Print the value on top.
    Print,
    /// Define the variable with the value on top.
    Define(Rc<VarStmt>),
    /// Choose the branch of an `if` by the value on top.
    Branch(Rc<IfStmt>),
    /// Go on with the loop or leave it, by the value on top.
    Test(Rc<WhileStmt>),
    /// Marks a loop whose body is running above it. It catches
    /// `break`; when the body is done the condition is tested again.
    Loop { statement: Rc<WhileStmt>, height: usize },
    /// Return the value on top.
    Return,
    /// Declare the class, whose superclass is the value on top.
    Class(Rc<ClassStmt>),
    /// Assign the value on top, which stays.
    Assign(Rc<AssignExpr>),
    /// Apply the operator to the two values on top.
    Binary(Rc<BinaryExpr>),
    /// Evaluate the arguments of the call from `next` on, then call.
    Arguments { call: Rc<CallExpr>, next: usize },
    /// Read the property of the value on top.
    Get(Rc<GetExpr>),
    /// Keep the left value on top or evaluate the right one.
    Logical(Rc<LogicalExpr>),
    /// Check that the value on top can have fields, then evaluate the
    /// value to write.
    SetObject(Rc<SetExpr>),
    /// Write the value on top into the instance below it.
    SetValue(Rc<SetExpr>),
    /// Apply the operator to the value on top.
    Unary(Rc<UnaryExpr>),
    /// Marks a call whose body is running above it. It catches
    /// `return`. The call ends here: the frame `previous` is current
    /// again, and the result is pushed on the values below `height`.
    Call { previous: usize, height: usize, closure: usize, is_initialiser: bool },
    /// Marks a new instance whose initialiser is running above it; its
    /// result is replaced by the instance.
    Construct { instance: usize },
    /// Join the two texts on top, the upper one first if `swapped`.
    Join { swapped: bool },
}

/// What the machine waits for from the embedding program.
#[derive(Clone, Copy, Debug, PartialEq, Eq, Structural)]
pub enum Reply {
    /// The result of an operation on doubles.
    Number,
    /// A number written out.
    Text,
    /// The time.
    Time,
}

#[derive(Debug)]
pub enum Mode {
    /// The machine carries out tasks.
    Running,
    /// An error or signal is on its way to the task that catches it.
    Unwinding(LoxError),
    /// The machine has asked for something and waits for the answer.
    Awaiting(Reply),
    /// The program is over.
    Halted,
}

/// What the embedding program hands to a step.
#[derive(Debug)]
pub enum Event {
    /// Nothing was asked for.
    Nothing,
    /// The number asked for: the result of an operation, or the time.
    Number(Number),
    /// The text asked for: a number written out.
    Text(String),
    /// What was asked for could not be had.
    Failed,
}

/// What a step asks of the embedding program.
#[derive(Debug)]
pub enum Action {
    /// Nothing: take the next step.
    Continue,
    /// Read the text, the lexeme of a number, as a double; answer with
    /// `Event::Number`. Only the scanner asks for this.
    Parse(String),
    /// Write the text and a line feed to standard output.
    Print(String),
    /// Compute `left operator right` on doubles, where the operator is
    /// `Plus`, `Minus`, `Star` or `Slash`; answer with `Event::Number`.
    Arithmetic { operator: TokenType, left: Number, right: Number },
    /// Write the number out as Lox prints it, in the shortest decimal form
    /// that reads back as the same double, a whole number without a
    /// fraction; answer with `Event::Text`.
    Format(Number),
    /// Tell the seconds since the Unix epoch; answer with `Event::Number`,
    /// or with `Event::Failed`.
    Clock,
    /// The program is over, with this outcome.
    Finished(Result<(), LoxError>),
}

/// The state of the interpreter.
pub ghost struct Machine {
    pub frames: Seq<FrameView>,
    pub functions: Seq<LoxFunction>,
    pub classes: Seq<ClassView>,
    pub instances: Seq<InstanceView>,
    /// The distances that the resolver found.
    pub locals: Map<usize, usize>,
    /// The frame in which the program runs now.
    pub current: usize,
    pub tasks: Seq<Task>,
    pub values: Seq<Literal>,
    pub mode: Mode,
}

pub type Step = (Machine, Action);

impl Machine {
    /// The machine of a new interpreter: the global frame alone, which
    /// holds the native `clock`; no program, and so halted.
    pub open spec fn initial() -> Machine {
        Machine {
            frames: seq![
                FrameView {
                    values: Map::<Seq<char>, Literal>::empty().insert(
                        "clock"@,
                        Literal::NativeFunction(LoxNativeFunction { fun: Clock }),
                    ),
                    enclosing: None,
                },
            ],
            functions: Seq::empty(),
            classes: Seq::empty(),
            instances: Seq::empty(),
            locals: Map::empty(),
            current: 0,
            tasks: Seq::empty(),
            values: Seq::empty(),
            mode: Mode::Halted,
        }
    }

    pub open spec fn push_task(self, task: Task) -> Machine {
        Machine { tasks: self.tasks.push(task), ..self }
    }

    pub open spec fn pop_task(self) -> Machine {
        Machine { tasks: self.tasks.drop_last(), ..self }
    }

    pub open spec fn push_value(self, value: Literal) -> Machine {
        Machine { values: self.values.push(value), ..self }
    }

    /// The machine without its `count` topmost values.
    pub open spec fn drop_values(self, count: nat) -> Machine {
        Machine { values: self.values.subrange(0, self.values.len() - count), ..self }
    }

    /// The machine with the values below `height` alone.
    pub open spec fn cut_values(self, height: usize) -> Machine {
        if height <= self.values.len() {
            Machine { values: self.values.subrange(0, height as int), ..self }
        } else {
            self
        }
    }

    /// The value `below` places under the topmost.
    pub open spec fn value(self, below: nat) -> Literal {
        self.values[self.values.len() - 1 - below]
    }

    /// Raises an error or a signal: the machine unwinds from here on.
    pub open spec fn raise(self, error: LoxError) -> Machine {
        Machine { mode: Mode::Unwinding(error), ..self }
    }

    /// Raises a runtime error at `token`.
    pub open spec fn fault(self, token: Token, message: Message) -> Machine {
        self.raise(LoxError::runtime(token, message))
    }

    /// Goes on to the next step without asking for anything.
    pub open spec fn go(self) -> Step {
        (self, Action::Continue)
    }

    /// What the variable use `id` of `name` reads: the slot it was
    /// resolved to, and without a resolution the global of that name.
    pub open spec fn read(self, name: Token, id: usize) -> Result<Literal, LoxError> {
        let found = if self.locals.dom().contains(id) {
            lookup_at(self.frames, self.current, self.locals[id] as nat, name.lexeme@)
        } else {
            lookup(self.frames, 0, name.lexeme@)
        };
        match found {
            Some(v) => Ok(v),
            None => Err(LoxError::runtime(name, Message::UndefinedVariable)),
        }
    }

    /// Pushes what the variable use reads, or raises that it is undefined.
    pub open spec fn push_variable(self, name: Token, id: usize) -> Machine {
        match self.read(name, id) {
            Ok(v) => self.push_value(v),
            Err(e) => self.raise(e),
        }
    }

    /// A new function object, which gets the next place in the table.
    pub open spec fn add_function(self, function: LoxFunction) -> Machine {
        Machine { functions: self.functions.push(function), ..self }
    }

    /// Binds the function at `method` to `this` and pushes the bound
    /// function, which is a new function object.
    pub open spec fn push_bound(self, method: usize, this: Literal) -> Machine {
        Machine {
            frames: LoxFunction::bound_frames(
                self.frames,
                self.functions[method as int].closure,
                this,
            ),
            functions: self.functions.push(
                LoxFunction {
                    closure: self.frames.len() as usize,
                    ..self.functions[method as int]
                },
            ),
            ..self
        }.push_value(Literal::Function(Callable { fun: self.functions.len() as usize }))
    }
}

/// The value of a literal expression: the stored value, and `nil` where
/// none is stored.
pub open spec fn literal_value(value: Option<Literal>) -> Literal {
    match value {
        Some(v) => v,
        None => Literal::Nil,
    }
}

/// One step on an expression: a leaf pushes its value or raises an error;
/// a node with parts pushes the task that uses the values of its parts,
/// and above it the tasks that evaluate the parts, the first part on top.
pub open spec fn evaluate(m: Machine, e: Expr) -> Step {
    match e {
        Expr::Assign(e) => m.push_task(Task::Assign(e)).push_task(Task::Evaluate(e.value)).go(),
        Expr::Binary(e) => m.push_task(Task::Binary(e)).push_task(Task::Evaluate(e.right)).push_task(
            Task::Evaluate(e.left),
        ).go(),
        Expr::Call(e) => m.push_task(Task::Arguments { call: e, next: 0 }).push_task(
            Task::Evaluate(e.callee),
        ).go(),
        Expr::Get(e) => m.push_task(Task::Get(e)).push_task(Task::Evaluate(e.object)).go(),
        Expr::Grouping(e) => m.push_task(Task::Evaluate(e.expression)).go(),
        Expr::Literal(e) => m.push_value(literal_value(e.value)).go(),
        Expr::Logical(e) => m.push_task(Task::Logical(e)).push_task(Task::Evaluate(e.left)).go(),
        Expr::SetField(e) => m.push_task(Task::SetObject(e)).push_task(Task::Evaluate(e.object)).go(),
        Expr::Super(e) => evaluate_super(m, *e).go(),
        Expr::This(e) => m.push_variable(e.keyword, e.id).go(),
        Expr::Unary(e) => m.push_task(Task::Unary(e)).push_task(Task::Evaluate(e.right)).go(),
        Expr::Variable(e) => m.push_variable(e.name, e.id).go(),
    }
}

/// `super.method`: the superclass is the `super` of the frame that the
/// use was resolved to, the instance is the `this` of the frame one
/// nearer, and the value is the method of the superclass, bound to the
/// instance.
pub open spec fn evaluate_super(m: Machine, e: SuperExpr) -> Machine {
    let distance: nat = if m.locals.dom().contains(e.id) {
        m.locals[e.id] as nat
    } else {
        0
    };
    match lookup_at(m.frames, m.current, distance, "super"@) {
        Some(Literal::Class(c)) => if distance == 0 {
            m.fault(e.keyword, Message::InternalError)
        } else {
            match lookup_at(m.frames, m.current, (distance - 1) as nat, "this"@) {
                Some(this) => match method_of(m.classes, c, e.method.lexeme@) {
                    Some(f) => if f < m.functions.len() {
                        m.push_bound(f, this)
                    } else {
                        m.fault(e.method, Message::InternalError)
                    },
                    None => m.fault(e.method, Message::UndefinedProperty),
                },
                None => m.fault(e.keyword, Message::InternalError),
            }
        },
        _ => m.fault(e.keyword, Message::InternalError),
    }
}

/// `-` on the value on top: a number is negated, anything else is an
/// error. `!` gives the opposite of the truth of the value.
pub open spec fn apply_unary(m: Machine, e: UnaryExpr) -> Machine {
    if m.values.len() < 1 {
        m.fault(e.operator, Message::InternalError)
    } else {
        let v = m.value(0);
        let rest = m.drop_values(1);
        match e.operator.token_type {
            TokenType::Bang => rest.push_value(Literal::Boolean(!v@.is_truthy())),
            TokenType::Minus => match v {
                Literal::Number(n) => rest.push_value(Literal::Number(n.spec_negate())),
                _ => rest.fault(e.operator, Message::OperandMustBeNumber),
            },
            _ => rest.fault(e.operator, Message::InternalError),
        }
    }
}

/// `or` keeps a truthy left value and `and` a falsy one, as it is;
/// otherwise the left value is dropped and the right side is evaluated.
pub open spec fn apply_logical(m: Machine, e: LogicalExpr) -> Machine {
    if m.values.len() < 1 {
        m.fault(e.operator, Message::InternalError)
    } else if short_circuits(e.operator.token_type, m.value(0)) {
        m
    } else {
        m.drop_values(1).push_task(Task::Evaluate(e.right))
    }
}

/// Whether the left value decides a logical expression.
pub open spec fn short_circuits(operator: TokenType, left: Literal) -> bool {
    if operator == TokenType::Or {
        left@.is_truthy()
    } else {
        !left@.is_truthy()
    }
}

/// Assigns the value on top, which stays there as the value of the
/// expression: to the slot that the use was resolved to, and without a
/// resolution to the global of that name, which must exist.
pub open spec fn apply_assign(m: Machine, e: AssignExpr) -> Machine {
    if m.values.len() < 1 {
        m.fault(e.name, Message::InternalError)
    } else if m.locals.dom().contains(e.id) {
        match ancestor(m.frames, m.current, m.locals[e.id] as nat) {
            Some(_) => Machine {
                frames: assigned_at(
                    m.frames,
                    m.current,
                    m.locals[e.id] as nat,
                    e.name.lexeme@,
                    m.value(0),
                ),
                ..m
            },
            None => m.fault(e.name, Message::UndefinedVariable),
        }
    } else {
        match holder(m.frames, 0, e.name.lexeme@) {
            Some(_) => Machine { frames: assigned(m.frames, 0, e.name.lexeme@, m.value(0)), ..m },
            None => m.fault(e.name, Message::UndefinedVariable),
        }
    }
}

/// Reads a property of the value on top: of an instance, the field, or
/// else the method of its class, bound to the instance.
pub open spec fn apply_get(m: Machine, e: GetExpr) -> Machine {
    if m.values.len() < 1 {
        m.fault(e.name, Message::InternalError)
    } else {
        let rest = m.drop_values(1);
        match m.value(0) {
            Literal::Instance(i) => if i >= m.instances.len() {
                rest.fault(e.name, Message::InternalError)
            } else {
                match property(m.instances[i as int], m.classes, m.functions.len(), e.name.lexeme@) {
                    Property::Field(v) => rest.push_value(v),
                    Property::Method(f) => rest.push_bound(f, Literal::Instance(i)),
                    Property::Missing(message) => rest.fault(e.name, message),
                }
            },
            _ => rest.fault(e.name, Message::OnlyInstancesHaveProperties),
        }
    }
}

/// Before the value of a property write is evaluated: the object on top
/// must be an instance.
pub open spec fn apply_set_object(m: Machine, e: Rc<SetExpr>) -> Machine {
    if m.values.len() < 1 {
        m.fault(e.name, Message::InternalError)
    } else {
        match m.value(0) {
            Literal::Instance(_) => m.push_task(Task::SetValue(e)).push_task(Task::Evaluate(e.value)),
            _ => m.drop_values(1).fault(e.name, Message::OnlyInstancesHaveFields),
        }
    }
}

/// Writes the value on top into the field of the instance below it; the
/// value is the value of the expression.
pub open spec fn apply_set_value(m: Machine, e: SetExpr) -> Machine {
    if m.values.len() < 2 {
        m.fault(e.name, Message::InternalError)
    } else {
        let rest = m.drop_values(2);
        match m.value(1) {
            Literal::Instance(i) => if i < m.instances.len() {
                Machine {
                    instances: m.instances.update(
                        i as int,
                        InstanceView {
                            fields: m.instances[i as int].fields.insert(e.name.lexeme@, m.value(0)),
                            ..m.instances[i as int]
                        },
                    ),
                    ..rest
                }.push_value(m.value(0))
            } else {
                rest.fault(e.name, Message::InternalError)
            },
            _ => rest.fault(e.name, Message::InternalError),
        }
    }
}

/// What a binary operator makes of two values.
pub ghost enum Outcome {
    /// This value.
    Value(Literal),
    /// A string with this text.
    Text(Seq<char>),
    /// The result of the operator on two numbers as doubles, which the
    /// embedding program computes.
    Arithmetic { left: Number, right: Number },
    /// The text joined with the number written out, which the embedding
    /// program writes out; the number comes first if `swapped`.
    Join { text: Literal, number: Number, swapped: bool },
    /// A runtime error.
    Fault(Message),
}

/// The result of `==` as a value.
pub open spec fn equality(operator: TokenType, equal: bool) -> Literal {
    Literal::Boolean(if operator == TokenType::EqualEqual {
        equal
    } else {
        !equal
    })
}

/// The binary operators on values.
///
/// Arithmetic and comparison take two numbers. `+` also joins two
/// strings, and a string with a number written out. `==` and `!=` take
/// any two values and never fail. Everything else is the error "Operands
/// must be numbers.", for `+` as for the other operators: so `+` on two
/// values of which neither is a string and not both are numbers, and `+`
/// on a string and a value that is neither a string nor a number.
pub open spec fn binary_outcome(operator: TokenType, left: Literal, right: Literal) -> Outcome {
    if operator == TokenType::EqualEqual || operator == TokenType::BangEqual {
        Outcome::Value(equality(operator, left@.equals(right@)))
    } else {
        match (left, right) {
            (Literal::Number(a), Literal::Number(b)) => match operator {
                TokenType::Plus | TokenType::Minus | TokenType::Star | TokenType::Slash => Outcome::Arithmetic {
                    left: a,
                    right: b,
                },
                TokenType::Greater => Outcome::Value(Literal::Boolean(b.spec_less(a))),
                TokenType::GreaterEqual => Outcome::Value(Literal::Boolean(b.spec_less_equal(a))),
                TokenType::Less => Outcome::Value(Literal::Boolean(a.spec_less(b))),
                TokenType::LessEqual => Outcome::Value(Literal::Boolean(a.spec_less_equal(b))),
                _ => Outcome::Fault(Message::InternalError),
            },
            (Literal::String(a), Literal::String(b)) => if operator == TokenType::Plus {
                Outcome::Text(a@ + b@)
            } else {
                Outcome::Fault(Message::OperandsMustBeNumbers)
            },
            (Literal::String(a), Literal::Number(b)) => if operator == TokenType::Plus {
                Outcome::Join { text: left, number: b, swapped: false }
            } else {
                Outcome::Fault(Message::OperandsMustBeNumbers)
            },
            (Literal::Number(a), Literal::String(b)) => if operator == TokenType::Plus {
                Outcome::Join { text: right, number: a, swapped: true }
            } else {
                Outcome::Fault(Message::OperandsMustBeNumbers)
            },
            _ => Outcome::Fault(Message::OperandsMustBeNumbers),
        }
    }
}

/// Arithmetic and comparison need two numbers: with any other operands
/// `- * / < <= > >=` fail with "Operands must be numbers.", and so does
/// `+` unless it has two numbers or a string to join.
pub proof fn arithmetic_needs_numbers(operator: TokenType, left: Literal, right: Literal)
    requires
        !(left is Number && right is Number),
        operator == TokenType::Minus || operator == TokenType::Star || operator == TokenType::Slash
            || operator == TokenType::Less || operator == TokenType::LessEqual || operator
            == TokenType::Greater || operator == TokenType::GreaterEqual || (operator
            == TokenType::Plus && !(left is String) && !(right is String)),
    ensures
        binary_outcome(operator, left, right) == Outcome::Fault(Message::OperandsMustBeNumbers),
{
}

/// Whether `after` is `before` with a string of the text `text` pushed.
pub open spec fn pushes_text(before: Machine, text: Seq<char>, after: Machine) -> bool {
    &&& after.values.len() == before.values.len() + 1
    &&& after.values.drop_last() == before.values
    &&& after.values.last() matches Literal::String(s) && s@ == text
    &&& after == Machine { values: after.values, ..before }
}

/// Applies a binary operator to the two values on top.
pub open spec fn applies_binary(m: Machine, e: BinaryExpr, after: Machine, action: Action) -> bool {
    if m.values.len() < 2 {
        (after, action) == m.fault(e.operator, Message::InternalError).go()
    } else {
        let rest = m.drop_values(2);
        match binary_outcome(e.operator.token_type, m.value(1), m.value(0)) {
            Outcome::Value(v) => (after, action) == rest.push_value(v).go(),
            Outcome::Text(text) => pushes_text(rest, text, after) && action is Continue,
            Outcome::Arithmetic { left, right } => after == (Machine {
                mode: Mode::Awaiting(Reply::Number),
                ..rest
            }) && action == (Action::Arithmetic { operator: e.operator.token_type, left, right }),
            Outcome::Join { text, number, swapped } => after == (Machine {
                mode: Mode::Awaiting(Reply::Text),
                ..rest.push_task(Task::Join { swapped }).push_value(text)
            }) && action == Action::Format(number),
            Outcome::Fault(message) => (after, action) == rest.fault(e.operator, message).go(),
        }
    }
}

/// The error for a state that a program cannot bring about.
pub open spec fn internal_error() -> LoxError {
    LoxError(LoxErrorType::SystemErr { message: Message::InternalError })
}

/// Joins the two texts on top.
pub open spec fn joins(m: Machine, swapped: bool, after: Machine, action: Action) -> bool {
    if m.values.len() < 2 {
        (after, action) == m.raise(internal_error()).go()
    } else {
        match (m.value(1), m.value(0)) {
            (Literal::String(a), Literal::String(b)) => pushes_text(
                m.drop_values(2),
                if swapped {
                    b@ + a@
                } else {
                    a@ + b@
                },
                after,
            ) && action is Continue,
            _ => (after, action) == m.drop_values(2).raise(internal_error()).go(),
        }
    }
}

/// The name of the class at `class`.
pub open spec fn class_name(m: Machine, class: usize) -> Seq<char> {
    if class < m.classes.len() {
        m.classes[class as int].name
    } else {
        Seq::empty()
    }
}

/// How a value that is not a number is printed: `nil`, `true`, `false`,
/// the text of a string, `<fn NAME>`, `<native fn>`, the name of a class,
/// and `NAME instance`.
pub open spec fn display(m: Machine, v: Literal) -> Seq<char> {
    match v {
        Literal::Nil => "nil"@,
        Literal::Boolean(b) => if b {
            "true"@
        } else {
            "false"@
        },
        Literal::String(s) => s@,
        Literal::Number(_) => Seq::empty(),
        Literal::Function(f) => "<fn "@ + (if f.fun < m.functions.len() {
            m.functions[f.fun as int].declaration.name.lexeme@
        } else {
            Seq::empty()
        }) + ">"@,
        Literal::NativeFunction(_) => "<native fn>"@,
        Literal::Class(c) => class_name(m, c),
        Literal::Instance(i) => (if i < m.instances.len() {
            class_name(m, m.instances[i as int].class)
        } else {
            Seq::empty()
        }) + " instance"@,
    }
}

/// Prints the value on top. A number is written out by the embedding
/// program first, and printed as that text.
pub open spec fn prints(m: Machine, after: Machine, action: Action) -> bool {
    if m.values.len() < 1 {
        (after, action) == m.raise(internal_error()).go()
    } else {
        let rest = m.drop_values(1);
        match m.value(0) {
            Literal::Number(n) => after == (Machine {
                mode: Mode::Awaiting(Reply::Text),
                ..rest.push_task(Task::Print)
            }) && action == Action::Format(n),
            v => after == rest && (action matches Action::Print(s) && s@ == display(m, v)),
        }
    }
}

/// The frames after the parameters from `from` on are defined in `frame`
/// with their arguments.
pub open spec fn bind_parameters(
    frames: Seq<FrameView>,
    frame: usize,
    params: Seq<Token>,
    arguments: Seq<Literal>,
    from: nat,
) -> Seq<FrameView>
    decreases params.len() - from,
{
    if from >= params.len() || from >= arguments.len() {
        frames
    } else {
        bind_parameters(
            stored(frames, frame, params[from as int].lexeme@, arguments[from as int]),
            frame,
            params,
            arguments,
            from + 1,
        )
    }
}

/// Enters a function: a new frame, enclosed by the closure of the
/// function, holds the parameters; the body runs in it, above the task that
/// ends the call.
pub open spec fn enter(m: Machine, f: LoxFunction, arguments: Seq<Literal>) -> Machine {
    let frame = m.frames.len() as usize;
    Machine {
        frames: bind_parameters(
            extended(m.frames, f.closure),
            frame,
            f.declaration.params@,
            arguments,
            0,
        ),
        current: frame,
        ..m
    }.push_task(
        Task::Call {
            previous: m.current,
            height: m.values.len() as usize,
            closure: f.closure,
            is_initialiser: f.is_initialiser,
        },
    ).push_task(Task::Sequence { statements: f.declaration.body, next: 0 })
}

/// Calls a class: a new instance is made; if the class has an `init`
/// method, it is bound to the instance and entered, above the task that
/// puts the instance in the place of its result; otherwise the instance
/// is the value at once.
pub open spec fn construct(m: Machine, class: usize, arguments: Seq<Literal>) -> Machine {
    let instance = m.instances.len() as usize;
    let made = Machine {
        instances: m.instances.push(InstanceView { class, fields: Map::empty() }),
        ..m
    };
    match method_of(m.classes, class, "init"@) {
        Some(f) => if f < m.functions.len() {
            enter(
                Machine {
                    frames: LoxFunction::bound_frames(
                        m.frames,
                        m.functions[f as int].closure,
                        Literal::Instance(instance),
                    ),
                    ..made
                }.push_task(Task::Construct { instance }),
                LoxFunction { closure: m.frames.len() as usize, ..m.functions[f as int] },
                arguments,
            )
        } else {
            made.push_value(Literal::Instance(instance))
        },
        None => made.push_value(Literal::Instance(instance)),
    }
}

/// Calls the callee that lies under the arguments of `e` on the value
/// stack: a function, a class or a native function, with exactly as many
/// arguments as it takes.
pub open spec fn invoke(m: Machine, e: CallExpr) -> Step {
    let count = e.arguments@.len();
    if m.values.len() < count + 1 {
        m.fault(e.bracket, Message::InternalError).go()
    } else {
        let rest = m.drop_values(count + 1);
        let arguments = m.values.subrange(m.values.len() - count, m.values.len() as int);
        let wrong = |expected: nat|
            rest.fault(
                e.bracket,
                Message::WrongArity { expected: expected as usize, got: count as usize },
            ).go();
        match m.value(count) {
            Literal::Function(f) => if f.fun >= m.functions.len() {
                rest.fault(e.bracket, Message::InternalError).go()
            } else if m.functions[f.fun as int].spec_arity() != count {
                wrong(m.functions[f.fun as int].spec_arity())
            } else {
                enter(rest, m.functions[f.fun as int], arguments).go()
            },
            Literal::Class(c) => if c >= m.classes.len() {
                rest.fault(e.bracket, Message::InternalError).go()
            } else if class_arity(m.classes, m.functions, c) != count {
                wrong(class_arity(m.classes, m.functions, c))
            } else {
                construct(rest, c, arguments).go()
            },
            Literal::NativeFunction(_) => if count != 0 {
                wrong(0)
            } else {
                (Machine { mode: Mode::Awaiting(Reply::Time), ..rest }, Action::Clock)
            },
            _ => rest.fault(e.bracket, Message::NotCallable).go(),
        }
    }
}

/// The result of a call that ends with `returned`: an initialiser gives
/// the `this` of its closure whatever it returned, any other function
/// what it returned. The frame of the caller is current again.
pub open spec fn finish_call(
    m: Machine,
    previous: usize,
    height: usize,
    closure: usize,
    is_initialiser: bool,
    returned: Literal,
) -> Machine {
    let result = if is_initialiser {
        match lookup_at(m.frames, closure, 0, "this"@) {
            Some(this) => this,
            None => Literal::Nil,
        }
    } else {
        returned
    };
    Machine { current: previous, ..m.cut_values(height) }.push_value(result)
}

/// The functions with the first `count` of `methods` added, each closed
/// over the frame `closure`, and `init` marked as the initialiser.
pub open spec fn with_methods(
    functions: Seq<LoxFunction>,
    methods: Seq<Rc<FunctionStmt>>,
    closure: usize,
    count: nat,
) -> Seq<LoxFunction>
    decreases count,
{
    if count == 0 {
        functions
    } else {
        with_methods(functions, methods, closure, (count - 1) as nat).push(
            LoxFunction {
                closure,
                declaration: methods[count - 1],
                is_initialiser: methods[count - 1].name.lexeme@ == "init"@,
            },
        )
    }
}

/// The method table of a class whose first `count` methods were added to
/// the functions from the place `base` on.
pub open spec fn method_table(methods: Seq<Rc<FunctionStmt>>, base: nat, count: nat) -> Map<
    Seq<char>,
    usize,
>
    decreases count,
{
    if count == 0 {
        Map::empty()
    } else {
        method_table(methods, base, (count - 1) as nat).insert(
            methods[count - 1].name.lexeme@,
            (base + count - 1) as usize,
        )
    }
}

/// Declares a class: the name is defined as `nil`; with a superclass, a
/// new frame that holds `super` encloses the methods; the methods become
/// functions; and the class is assigned to its name.
pub open spec fn declare_class(m: Machine, c: ClassStmt, superclass: Option<usize>) -> Machine {
    let named = stored(m.frames, m.current, c.name.lexeme@, Literal::Nil);
    let frames = match superclass {
        Some(s) => stored(extended(named, m.current), named.len() as usize, "super"@, Literal::Class(s)),
        None => named,
    };
    let closure = match superclass {
        Some(s) => named.len() as usize,
        None => m.current,
    };
    Machine {
        frames: assigned(frames, m.current, c.name.lexeme@, Literal::Class(m.classes.len() as usize)),
        functions: with_methods(m.functions, c.methods@, closure, c.methods@.len()),
        classes: m.classes.push(
            ClassView {
                name: c.name.lexeme@,
                superclass,
                methods: method_table(c.methods@, m.functions.len(), c.methods@.len()),
            },
        ),
        ..m
    }
}

/// The token at which a superclass that is no class is reported.
pub open spec fn superclass_token(c: ClassStmt) -> Token {
    match c.superclass {
        Some(e) => match *e {
            Expr::Variable(v) => v.name,
            _ => c.name,
        },
        None => c.name,
    }
}

/// One step on a statement.
pub open spec fn execute(m: Machine, s: Stmt) -> Step {
    match s {
        Stmt::Block(s) => Machine {
            frames: extended(m.frames, m.current),
            current: m.frames.len() as usize,
            ..m
        }.push_task(Task::Restore { previous: m.current }).push_task(
            Task::Sequence { statements: s.statements, next: 0 },
        ).go(),
        Stmt::Break(_) => m.raise(LoxError(LoxErrorType::Break)).go(),
        Stmt::Class(s) => match s.superclass {
            Some(e) => m.push_task(Task::Class(s)).push_task(Task::Evaluate(e)).go(),
            None => declare_class(m, *s, None).go(),
        },
        Stmt::Expression(s) => m.push_task(Task::Discard).push_task(Task::Evaluate(s.expression)).go(),
        Stmt::Function(s) => Machine {
            frames: stored(
                m.frames,
                m.current,
                s.name.lexeme@,
                Literal::Function(Callable { fun: m.functions.len() as usize }),
            ),
            ..m.add_function(LoxFunction { closure: m.current, declaration: s, is_initialiser: false })
        }.go(),
        Stmt::If(s) => m.push_task(Task::Branch(s)).push_task(Task::Evaluate(s.condition)).go(),
        Stmt::Print(s) => m.push_task(Task::Print).push_task(Task::Evaluate(s.expression)).go(),
        Stmt::Return(s) => match s.value {
            Some(v) => m.push_task(Task::Return).push_task(Task::Evaluate(v)).go(),
            None => m.raise(LoxError(LoxErrorType::Return { value: Literal::Nil })).go(),
        },
        Stmt::Var(s) => match s.initialiser {
            Some(i) => m.push_task(Task::Define(s)).push_task(Task::Evaluate(i)).go(),
            None => Machine {
                frames: stored(m.frames, m.current, s.name.lexeme@, Literal::Nil),
                ..m
            }.go(),
        },
        Stmt::While(s) => m.push_task(Task::Test(s)).push_task(Task::Evaluate(s.condition)).go(),
    }
}

/// One step on a task that uses the value on top, which `rest` is
/// without.
pub open spec fn consume(rest: Machine, task: Task, v: Literal) -> Machine {
    match task {
        Task::Discard => rest,
        Task::Define(s) => Machine {
            frames: stored(rest.frames, rest.current, s.name.lexeme@, v),
            ..rest
        },
        Task::Branch(s) => if v@.is_truthy() {
            rest.push_task(Task::Execute(s.then_branch))
        } else {
            match s.else_branch {
                Some(b) => rest.push_task(Task::Execute(b)),
                None => rest,
            }
        },
        Task::Test(s) => if v@.is_truthy() {
            rest.push_task(Task::Loop { statement: s, height: rest.values.len() as usize }).push_task(
                Task::Execute(s.body),
            )
        } else {
            rest
        },
        Task::Return => rest.raise(LoxError(LoxErrorType::Return { value: v })),
        Task::Class(s) => match v {
            Literal::Class(k) => declare_class(rest, *s, Some(k)),
            _ => rest.fault(superclass_token(*s), Message::SuperclassMustBeClass),
        },
        Task::Construct { instance } => rest.push_value(Literal::Instance(instance)),
        _ => rest,
    }
}

/// Whether the task is one of those that `consume` describes.
pub open spec fn consumes(task: Task) -> bool {
    task is Discard || task is Define || task is Branch || task is Test || task is Return
        || task is Class || task is Construct
}

/// One step on a task other than `Binary`, `Print` and `Join`.
pub open spec fn perform(m: Machine, task: Task) -> Step {
    if consumes(task) {
        if m.values.len() < 1 {
            m.raise(internal_error()).go()
        } else {
            consume(m.drop_values(1), task, m.value(0)).go()
        }
    } else {
        match task {
            Task::Evaluate(e) => evaluate(m, *e),
            Task::Execute(s) => execute(m, *s),
            Task::Sequence { statements, next } => if next < statements@.len() {
                m.push_task(Task::Sequence { statements, next: (next + 1) as usize }).push_task(
                    Task::Execute(statements@[next as int]),
                ).go()
            } else {
                m.go()
            },
            Task::Restore { previous } => Machine { current: previous, ..m }.go(),
            Task::Loop { statement, height } => m.push_task(Task::Test(statement)).push_task(
                Task::Evaluate(statement.condition),
            ).go(),
            Task::Assign(e) => apply_assign(m, *e).go(),
            Task::Arguments { call, next } => if next < call.arguments@.len() {
                m.push_task(Task::Arguments { call, next: (next + 1) as usize }).push_task(
                    Task::Evaluate(call.arguments@[next as int]),
                ).go()
            } else {
                invoke(m, *call)
            },
            Task::Get(e) => apply_get(m, *e).go(),
            Task::Logical(e) => apply_logical(m, *e).go(),
            Task::SetObject(e) => apply_set_object(m, e).go(),
            Task::SetValue(e) => apply_set_value(m, *e).go(),
            Task::Unary(e) => apply_unary(m, *e).go(),
            Task::Call { previous, height, closure, is_initialiser } => finish_call(
                m,
                previous,
                height,
                closure,
                is_initialiser,
                Literal::Nil,
            ).go(),
            _ => m.go(),
        }
    }
}

/// One step on `task`, which `m` is without.
pub open spec fn performs(m: Machine, task: Task, after: Machine, action: Action) -> bool {
    match task {
        Task::Binary(e) => applies_binary(m, *e, after, action),
        Task::Print => prints(m, after, action),
        Task::Join { swapped } => joins(m, swapped, after, action),
        _ => (after, action) == perform(m, task),
    }
}

/// One step of unwinding with the error or signal `e`: the topmost task
/// is dropped. A block that is left gives the current frame back; a loop
/// catches `break` and is over; a call catches `return` and ends with the
/// value returned, and gives the current frame back in any case. With no
/// task left the program is over with `e`.
pub open spec fn unwind(m: Machine, e: LoxError) -> Step {
    if m.tasks.len() == 0 {
        (Machine { mode: Mode::Halted, ..m }, Action::Finished(Err(e)))
    } else {
        let rest = m.pop_task();
        match m.tasks.last() {
            Task::Restore { previous } => Machine { current: previous, ..rest }.go(),
            Task::Loop { statement, height } => if e.0 is Break {
                Machine { mode: Mode::Running, ..rest.cut_values(height) }.go()
            } else {
                rest.go()
            },
            Task::Call { previous, height, closure, is_initialiser } => match e.0 {
                LoxErrorType::Return { value } => Machine {
                    mode: Mode::Running,
                    ..finish_call(rest, previous, height, closure, is_initialiser, value)
                }.go(),
                _ => Machine { current: previous, ..rest }.go(),
            },
            _ => rest.go(),
        }
    }
}

/// The machine after the embedding program has answered: the number or
/// text that was asked for is pushed, and the machine runs on. A clock
/// that could not be read is an error of the system, and so is every
/// answer that was not asked for.
pub open spec fn answer(m: Machine, waiting: Reply, event: Event) -> Machine {
    match (waiting, event) {
        (Reply::Number, Event::Number(n)) => Machine { mode: Mode::Running, ..m }.push_value(
            Literal::Number(n),
        ),
        (Reply::Text, Event::Text(s)) => Machine { mode: Mode::Running, ..m }.push_value(
            Literal::String(s),
        ),
        (Reply::Time, Event::Number(n)) => Machine { mode: Mode::Running, ..m }.push_value(
            Literal::Number(n),
        ),
        (Reply::Time, Event::Failed) => m.raise(
            LoxError(LoxErrorType::SystemErr { message: Message::ClockError }),
        ),
        _ => m.raise(internal_error()),
    }
}

/// One step of the machine.
pub open spec fn steps(before: Machine, event: Event, after: Machine, action: Action) -> bool {
    match before.mode {
        Mode::Halted => after == before && action == Action::Finished(Ok(())),
        Mode::Awaiting(waiting) => (after, action) == answer(before, waiting, event).go(),
        Mode::Unwinding(e) => (after, action) == unwind(before, e),
        Mode::Running => if before.tasks.len() == 0 {
            after == (Machine { mode: Mode::Halted, ..before }) && action == Action::Finished(Ok(()))
        } else {
            performs(before.pop_task(), before.tasks.last(), after, action)
        },
    }
}

/// At most `fuel` steps, of which the first is handed `event`: the steps
/// go on as long as they ask for nothing, and what the last of them asks
/// for is `action`. With the fuel used up, `action` is `Continue`.
pub open spec fn runs(before: Machine, event: Event, fuel: nat, after: Machine, action: Action) -> bool
    decreases fuel,
{
    if fuel == 0 {
        after == before && action is Continue
    } else {
        exists|middle: Machine, first: Action| #[trigger]
            steps(before, event, middle, first) && if first is Continue {
                runs(middle, Event::Nothing, (fuel - 1) as nat, after, action)
            } else {
                after == middle && action == first
            }
    }
}

/// `a or b` is `a` when `a` is truthy, and `a and b` is `a` when `a` is
/// falsy: the step on the logical operator leaves the left value on top
/// as it is, and the right side is not evaluated.
pub proof fn short_circuit_keeps_the_left_value(
    before: Machine,
    event: Event,
    after: Machine,
    action: Action,
    e: Rc<LogicalExpr>,
)
    requires
        before.mode is Running,
        before.tasks.len() > 0,
        before.tasks.last() == Task::Logical(e),
        before.values.len() > 0,
        (e.operator.token_type == TokenType::Or && before.value(0)@.is_truthy()) || (
        e.operator.token_type == TokenType::And && !before.value(0)@.is_truthy()),
        steps(before, event, after, action),
    ensures
        after.values == before.values,
        after.tasks == before.tasks.drop_last(),
        after.mode is Running,
        action is Continue,
{
}

/// Where the left value does not decide, it is dropped and the right side
/// is evaluated next: its value is the value of the expression.
pub proof fn undecided_logical_evaluates_the_right_side(
    before: Machine,
    event: Event,
    after: Machine,
    action: Action,
    e: Rc<LogicalExpr>,
)
    requires
        before.mode is Running,
        before.tasks.len() > 0,
        before.tasks.last() == Task::Logical(e),
        before.values.len() > 0,
        !short_circuits(e.operator.token_type, before.value(0)),
        steps(before, event, after, action),
    ensures
        after.values == before.values.drop_last(),
        after.tasks == before.tasks.drop_last().push(Task::Evaluate(e.right)),
        action is Continue,
{
}

/// The parameters of a call are written in the frame of the call alone.
pub proof fn bind_parameters_writes_one_frame(
    frames: Seq<FrameView>,
    frame: usize,
    params: Seq<Token>,
    arguments: Seq<Literal>,
    from: nat,
)
    requires
        frame < frames.len(),
    ensures
        bind_parameters(frames, frame, params, arguments, from).len() == frames.len(),
        forall|f: int|
            0 <= f < frames.len() && f != frame ==> (#[trigger] bind_parameters(
                frames,
                frame,
                params,
                arguments,
                from,
            )[f]) == frames[f],
        bind_parameters(frames, frame, params, arguments, from)[frame as int].enclosing
            == frames[frame as int].enclosing,
    decreases params.len() - from,
{
    if from < params.len() && from < arguments.len() {
        let next = stored(frames, frame, params[from as int].lexeme@, arguments[from as int]);
        bind_parameters_writes_one_frame(next, frame, params, arguments, from + 1);
        assert forall|f: int| 0 <= f < frames.len() && f != frame implies (#[trigger] bind_parameters(
            frames,
            frame,
            params,
            arguments,
            from,
        )[f]) == frames[f] by {
            assert(bind_parameters(next, frame, params, arguments, from + 1)[f] == next[f]);
        }
    }
}

/// Frames that agree on a frame and on all frames before it give the
/// same chain outwards from that frame.
pub proof fn ancestors_depend_on_older_frames(
    a: Seq<FrameView>,
    b: Seq<FrameView>,
    frame: usize,
    distance: nat,
)
    requires
        frame < a.len(),
        frame < b.len(),
        forall|f: int| 0 <= f <= frame ==> a[f] == b[f],
    ensures
        ancestor(a, frame, distance) == ancestor(b, frame, distance),
    decreases distance,
{
    if distance > 0 {
        match crate::environment::parent(a, frame) {
            Some(p) => {
                ancestors_depend_on_older_frames(a, b, p, (distance - 1) as nat);
            },
            None => {},
        }
    }
}

/// Lexical scoping: inside a call, what lies `distance + 1` frames
/// outwards is what lies `distance` frames outwards from the closure of
/// the function, as it was when the function was made or bound. The frame
/// of the caller plays no part.
pub proof fn call_sees_the_closure(
    m: Machine,
    f: LoxFunction,
    arguments: Seq<Literal>,
    distance: nat,
    name: Seq<char>,
)
    requires
        f.closure < m.frames.len(),
        m.frames.len() < usize::MAX,
    ensures
        enter(m, f, arguments).current == m.frames.len(),
        lookup_at(enter(m, f, arguments).frames, enter(m, f, arguments).current, distance + 1, name)
            == lookup_at(m.frames, f.closure, distance, name),
{
    let frame = m.frames.len() as usize;
    let made = extended(m.frames, f.closure);
    let after = enter(m, f, arguments).frames;
    bind_parameters_writes_one_frame(made, frame, f.declaration.params@, arguments, 0);
    assert(crate::environment::parent(after, frame) == Some(f.closure));
    assert forall|g: int| 0 <= g <= f.closure implies after[g] == m.frames[g] by {
        assert(after[g] == made[g]);
    }
    ancestors_depend_on_older_frames(after, m.frames, f.closure, distance);
    crate::environment::ancestor_is_a_frame(m.frames, f.closure, distance);
    match ancestor(m.frames, f.closure, distance) {
        Some(g) => {
            assert(after[g as int] == made[g as int]);
        },
        None => {},
    }
}

/// Lexical scoping of blocks: inside a block, what lies `distance + 1`
/// frames outwards is what lay `distance` frames outwards where the
/// block was entered.
pub proof fn block_sees_the_enclosing_frames(
    m: Machine,
    statements: Rc<Vec<Rc<Stmt>>>,
    distance: nat,
    name: Seq<char>,
)
    requires
        m.current < m.frames.len(),
        m.frames.len() < usize::MAX,
    ensures
        ({
            let after = execute(
                m,
                Stmt::Block(Rc::new(crate::stmt::BlockStmt { statements })),
            ).0;
            &&& after.current == m.frames.len()
            &&& lookup_at(after.frames, after.current, distance + 1, name) == lookup_at(
                m.frames,
                m.current,
                distance,
                name,
            )
            &&& lookup_at(after.frames, after.current, 0, name) is None
        }),
{
    let after = extended(m.frames, m.current);
    let frame = m.frames.len() as usize;
    assert(crate::environment::parent(after, frame) == Some(m.current));
    ancestors_depend_on_older_frames(after, m.frames, m.current, distance);
    crate::environment::ancestor_is_a_frame(m.frames, m.current, distance);
}

/// Reading a method of an instance gives a new function whose closure
/// holds the instance as `this`.
pub proof fn method_read_binds_the_instance(m: Machine, e: GetExpr, instance: usize, method: usize)
    requires
        m.values.len() >= 1,
        m.value(0) == Literal::Instance(instance),
        instance < m.instances.len(),
        !m.instances[instance as int].fields.dom().contains(e.name.lexeme@),
        method_of(m.classes, m.instances[instance as int].class, e.name.lexeme@) == Some(method),
        method < m.functions.len(),
        m.frames.len() < usize::MAX,
        m.functions.len() < usize::MAX,
    ensures
        ({
            let after = apply_get(m, e);
            let bound = m.functions.len() as int;
            &&& after.values == m.values.drop_last().push(
                Literal::Function(Callable { fun: bound as usize }),
            )
            &&& after.functions.len() == bound + 1
            &&& after.functions[bound].declaration == m.functions[method as int].declaration
            &&& after.functions[bound].closure == m.frames.len()
            &&& after.frames.len() == m.frames.len() + 1
            &&& lookup_at(after.frames, after.functions[bound].closure, 0, "this"@) == Some(
                Literal::Instance(instance),
            )
        }),
{
    assert(m.drop_values(1).values =~= m.values.drop_last());
}

/// Two reads of a method of one instance give two functions that see the
/// same `this`: each has the instance in its own closure, and the second
/// read leaves the closure of the first as it is.
pub proof fn two_method_reads_see_one_instance(
    m: Machine,
    e: GetExpr,
    instance: usize,
    method: usize,
)
    requires
        m.values.len() >= 1,
        m.value(0) == Literal::Instance(instance),
        instance < m.instances.len(),
        !m.instances[instance as int].fields.dom().contains(e.name.lexeme@),
        method_of(m.classes, m.instances[instance as int].class, e.name.lexeme@) == Some(method),
        method < m.functions.len(),
        m.frames.len() + 1 < usize::MAX,
        m.functions.len() + 1 < usize::MAX,
    ensures
        ({
            let first = apply_get(m, e);
            let second = apply_get(first.push_value(Literal::Instance(instance)), e);
            let a = m.functions.len() as int;
            let b = a + 1;
            &&& second.functions.len() == b + 1
            &&& second.functions[a].closure != second.functions[b].closure
            &&& lookup_at(second.frames, second.functions[a].closure, 0, "this"@) == Some(
                Literal::Instance(instance),
            )
            &&& lookup_at(second.frames, second.functions[b].closure, 0, "this"@) == Some(
                Literal::Instance(instance),
            )
        }),
{
    method_read_binds_the_instance(m, e, instance, method);
    let first = apply_get(m, e);
    let again = first.push_value(Literal::Instance(instance));
    method_read_binds_the_instance(again, e, instance, method);
    let closure = first.functions[method as int].closure;
    let a = m.frames.len() as usize;
    crate::environment::resolved_read_ignores_new_frames(first.frames, closure, a, 0, "this"@);
    crate::environment::resolved_read_is_stable(
        extended(first.frames, closure),
        a,
        0,
        "this"@,
        first.frames.len() as usize,
        "this"@,
        Literal::Instance(instance),
    );
}

/// A call of an initialiser ends with the `this` of its closure, whether
/// its body ran to the end, returned without a value or returned one.
pub proof fn initialiser_gives_this(
    m: Machine,
    previous: usize,
    height: usize,
    closure: usize,
    returned: Literal,
    this: Literal,
)
    requires
        lookup_at(m.frames, closure, 0, "this"@) == Some(this),
    ensures
        finish_call(m, previous, height, closure, true, returned) == finish_call(
            m,
            previous,
            height,
            closure,
            true,
            Literal::Nil,
        ),
        finish_call(m, previous, height, closure, true, returned).values.last() == this,
{
}

/// A `return` that reaches the end of a call ends the call: the machine
/// runs on, in the frame of the caller, with the result on top of the
/// values that were there when the call began.
pub proof fn return_ends_the_call(
    before: Machine,
    event: Event,
    after: Machine,
    action: Action,
    value: Literal,
)
    requires
        before.mode == Mode::Unwinding(LoxError(LoxErrorType::Return { value })),
        before.tasks.len() > 0,
        before.tasks.last() is Call,
        steps(before, event, after, action),
    ensures
        after.mode is Running,
        after.tasks == before.tasks.drop_last(),
        after.current == before.tasks.last()->Call_previous,
        before.tasks.last()->Call_height <= before.values.len() ==> after.values.len()
            == before.tasks.last()->Call_height + 1,
        !before.tasks.last()->Call_is_initialiser ==> after.values.last() == value,
        action is Continue,
{
}

/// Calling a class gives the new instance, whatever its initialiser
/// returned: when the initialiser is done, its result is replaced by the
/// instance.
pub proof fn construction_gives_the_instance(
    before: Machine,
    event: Event,
    after: Machine,
    action: Action,
    instance: usize,
)
    requires
        before.mode is Running,
        before.tasks.len() > 0,
        before.tasks.last() == (Task::Construct { instance }),
        before.values.len() > 0,
        steps(before, event, after, action),
    ensures
        after.values == before.values.drop_last().push(Literal::Instance(instance)),
        after.tasks == before.tasks.drop_last(),
        after.mode is Running,
        action is Continue,
{
    assert(before.pop_task().drop_values(1).values =~= before.values.drop_last());
}

/// A class without an initialiser is called with no arguments and gives
/// the new instance at once; with one, the initialiser is entered bound
/// to the new instance.
pub proof fn calling_a_class_makes_an_instance(m: Machine, class: usize, arguments: Seq<Literal>)
    requires
        m.instances.len() < usize::MAX,
    ensures
        construct(m, class, arguments).instances == m.instances.push(
            InstanceView { class, fields: Map::empty() },
        ),
        method_of(m.classes, class, "init"@) is None ==> construct(m, class, arguments).values
            == m.values.push(Literal::Instance(m.instances.len() as usize)) && construct(
            m,
            class,
            arguments,
        ).tasks == m.tasks,
        (method_of(m.classes, class, "init"@) matches Some(f) && f < m.functions.len())
            ==> construct(m, class, arguments).tasks.len() == m.tasks.len() + 3 && construct(
            m,
            class,
            arguments,
        ).tasks[m.tasks.len() as int] == (Task::Construct {
            instance: m.instances.len() as usize,
        }),
{
}

/// The tasks form a stack: a step takes the topmost task and may push
/// others in its place, and leaves the tasks below as they are. So the
/// end of a call, the mark of a loop and the rest of a block wait, under
/// what is pushed above them, until everything above them is done.
pub proof fn a_step_leaves_the_tasks_below(
    before: Machine,
    event: Event,
    after: Machine,
    action: Action,
)
    requires
        before.tasks.len() > 0,
        before.mode is Running || before.mode is Unwinding,
        steps(before, event, after, action),
    ensures
        after.tasks.len() >= before.tasks.len() - 1,
        after.tasks.subrange(0, before.tasks.len() - 1) == before.tasks.drop_last(),
        before.mode is Unwinding ==> after.tasks == before.tasks.drop_last(),
{
    let m = before.pop_task();
    let below = before.tasks.drop_last();
    if before.mode is Running {
        match before.tasks.last() {
            Task::Evaluate(e) => {
                match *e {
                    Expr::Super(e) => {
                        assert(evaluate_super(m, *e).tasks == below);
                    },
                    _ => {},
                }
                assert(after.tasks.subrange(0, below.len() as int) =~= below);
            },
            Task::Execute(s) => {
                match *s {
                    Stmt::Class(c) => {
                        assert(declare_class(m, *c, None).tasks == below);
                    },
                    _ => {},
                }
                assert(after.tasks.subrange(0, below.len() as int) =~= below);
            },
            Task::Arguments { call, next } => {
                if next >= call.arguments@.len() {
                    let count = call.arguments@.len();
                    if m.values.len() >= count + 1 {
                        let rest = m.drop_values(count + 1);
                        let arguments = m.values.subrange(
                            m.values.len() - count,
                            m.values.len() as int,
                        );
                        match m.value(count) {
                            Literal::Function(f) => {
                                if f.fun < m.functions.len() {
                                    assert(enter(
                                        rest,
                                        m.functions[f.fun as int],
                                        arguments,
                                    ).tasks.subrange(0, below.len() as int) =~= below);
                                }
                            },
                            Literal::Class(c) => {
                                assert(construct(rest, c, arguments).tasks.subrange(
                                    0,
                                    below.len() as int,
                                ) =~= below);
                            },
                            _ => {},
                        }
                    }
                }
                assert(after.tasks.subrange(0, below.len() as int) =~= below);
            },
            Task::Class(c) => {
                if m.values.len() >= 1 {
                    match m.value(0) {
                        Literal::Class(k) => {
                            assert(declare_class(m.drop_values(1), *c, Some(k)).tasks == below);
                        },
                        _ => {},
                    }
                }
                assert(after.tasks.subrange(0, below.len() as int) =~= below);
            },
            _ => {
                assert(after.tasks.subrange(0, below.len() as int) =~= below);
            },
        }
    }
}

} // verus!
