//! What can be called.

use vstd::prelude::*;
use crate::lox_native_function::{Clock, LoxNativeFunction};

verus! {

/// A value that can be called with a fixed number of arguments.
pub trait LoxCallable {
    spec fn spec_arity(&self) -> nat;

    /// The number of arguments that a call must give.
    fn arity(&self) -> (n: usize)
        ensures
            n == self.spec_arity(),
    ;
}

impl LoxCallable for Clock {
    open spec fn spec_arity(&self) -> nat {
        0
    }

    fn arity(&self) -> (n: usize) {
        0
    }
}

impl LoxCallable for LoxNativeFunction {
    open spec fn spec_arity(&self) -> nat {
        0
    }

    fn arity(&self) -> (n: usize) {
        0
    }
}

} // verus!
