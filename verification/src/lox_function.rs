//! Functions declared in the program.

use vstd::prelude::*;
use std::rc::Rc;
use crate::environment::{extended, stored, Environment};
use crate::expr::share;
use crate::interpreter::Interpreter;
use crate::lox_callable::LoxCallable;
use crate::machine::{bind_parameters, enter, Task};
use crate::stmt::FunctionStmt;
use crate::token::Literal;

verus! {

/// A function: its declaration, the frame it was declared in, and whether
/// it is the `init` method of a class.
#[derive(Debug)]
pub struct LoxFunction {
    pub closure: usize,
    pub declaration: Rc<FunctionStmt>,
    pub is_initialiser: bool,
}

impl Clone for LoxFunction {
    fn clone(&self) -> (res: LoxFunction)
        ensures
            res == *self,
    {
        LoxFunction {
            closure: self.closure,
            declaration: share(&self.declaration),
            is_initialiser: self.is_initialiser,
        }
    }
}

impl LoxCallable for LoxFunction {
    open spec fn spec_arity(&self) -> nat {
        self.declaration.params@.len()
    }

    fn arity(&self) -> (n: usize) {
        self.declaration.params.len()
    }
}

impl LoxFunction {
    pub fn new(closure: usize, declaration: &Rc<FunctionStmt>, is_initialiser: bool) -> (function:
        LoxFunction)
        ensures
            function == (LoxFunction { closure, declaration: *declaration, is_initialiser }),
    {
        LoxFunction { closure, declaration: share(declaration), is_initialiser }
    }

    /// Calls the function: a new frame, enclosed by the closure, holds the
    /// parameters with their arguments; the body is set to run in it, and
    /// below the body the end of the call, at which the frame of the
    /// caller is current again and the result is pushed. The result is
    /// what the body returns, `nil` if it returns nothing, and for an
    /// initialiser the `this` of the closure in any case.
    pub fn call(&self, interpreter: &mut Interpreter, arguments: &Vec<Literal>)
        ensures
            final(interpreter)@ == enter(old(interpreter)@, *self, arguments@),
    {
        let frame = interpreter.environment.new_with_enclosing(self.closure);
        let ghost start = interpreter.environment@;
        let mut i: usize = 0;
        while i < self.declaration.params.len() && i < arguments.len()
            invariant
                interpreter.values == old(interpreter).values,
                interpreter.functions == old(interpreter).functions,
                interpreter.classes == old(interpreter).classes,
                interpreter.instances == old(interpreter).instances,
                interpreter.locals == old(interpreter).locals,
                interpreter.current == old(interpreter).current,
                interpreter.tasks == old(interpreter).tasks,
                interpreter.mode == old(interpreter).mode,
                bind_parameters(
                    interpreter.environment@,
                    frame,
                    self.declaration.params@,
                    arguments@,
                    i as nat,
                ) == bind_parameters(start, frame, self.declaration.params@, arguments@, 0),
            decreases self.declaration.params@.len() - i,
        {
            interpreter.environment.define(
                frame,
                self.declaration.params[i].lexeme.as_str(),
                arguments[i].clone(),
            );
            i += 1;
        }
        let height: usize = interpreter.values.len();
        interpreter.tasks.push(
            Task::Call {
                previous: interpreter.current,
                height,
                closure: self.closure,
                is_initialiser: self.is_initialiser,
            },
        );
        interpreter.tasks.push(
            Task::Sequence { statements: share(&self.declaration.body), next: 0 },
        );
        interpreter.current = frame;
    }

    /// The frames after a function with the closure `closure` is bound to
    /// `instance`: a new frame, enclosed by the closure, that holds `this`.
    pub open spec fn bound_frames(
        frames: Seq<crate::environment::FrameView>,
        closure: usize,
        instance: Literal,
    ) -> Seq<crate::environment::FrameView> {
        stored(extended(frames, closure), frames.len() as usize, "this"@, instance)
    }

    /// The same function bound to `instance`: its closure is a new frame,
    /// enclosed by the closure of this function, in which `this` is the
    /// instance. This function is not changed.
    pub fn bind(&self, instance: &Literal, environment: &mut Environment) -> (bound: LoxFunction)
        ensures
            bound == (LoxFunction { closure: old(environment)@.len() as usize, ..*self }),
            final(environment)@ == Self::bound_frames(old(environment)@, self.closure, *instance),
    {
        let frame = environment.new_with_enclosing(self.closure);
        environment.define(frame, "this", instance.clone());
        LoxFunction {
            closure: frame,
            declaration: share(&self.declaration),
            is_initialiser: self.is_initialiser,
        }
    }
}

/// A bound function sees its instance as `this`, in its own closure.
pub proof fn bound_function_sees_its_instance(
    frames: Seq<crate::environment::FrameView>,
    closure: usize,
    instance: Literal,
)
    requires
        frames.len() < usize::MAX,
    ensures
        crate::environment::lookup_at(
            LoxFunction::bound_frames(frames, closure, instance),
            frames.len() as usize,
            0,
            "this"@,
        ) == Some(instance),
{
}

} // verus!
