//! Functions that the embedding program provides.

use vstd::prelude::*;
use crate::interpreter::Interpreter;
use crate::machine::{Action, Machine, Mode, Reply};

verus! {

/// The native `clock`: seconds since the Unix epoch, as a number. It takes
/// no arguments. The interpreter asks the embedding program for the time
/// when it is called.
#[derive(Clone, Copy, Debug, PartialEq, Eq, Structural)]
pub struct Clock;

impl Clock {
    /// Calls the clock: the embedding program is asked for the time, and
    /// the interpreter waits for the number.
    pub fn call(&self, interpreter: &mut Interpreter) -> (action: Action)
        ensures
            final(interpreter)@ == (Machine {
                mode: Mode::Awaiting(Reply::Time),
                ..old(interpreter)@
            }),
            action == Action::Clock,
    {
        interpreter.mode = Mode::Awaiting(Reply::Time);
        Action::Clock
    }
}

/// A native function as a value.
#[derive(Clone, Copy, Debug, PartialEq, Eq, Structural)]
pub struct LoxNativeFunction {
    pub fun: Clock,
}

} // verus!
