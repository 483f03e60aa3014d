//! Classes.

use vstd::prelude::*;
use crate::interpreter::Interpreter;
use crate::lox_callable::LoxCallable;
use crate::lox_instance::{instance_views, LoxInstance};
use crate::machine::{construct, Task};
use crate::lox_function::LoxFunction;
use crate::table::Table;
use crate::token::{Callable, Literal};

verus! {

/// A class: its name, its superclass if it has one, and its methods by
/// name. Classes live in the interpreter's table of classes and are named
/// by their place in it, as the functions are.
#[derive(Debug)]
pub struct LoxClass {
    pub name: String,
    pub superclass: Option<usize>,
    pub methods: Table<usize>,
}

pub ghost struct ClassView {
    pub name: Seq<char>,
    pub superclass: Option<usize>,
    pub methods: Map<Seq<char>, usize>,
}

impl View for LoxClass {
    type V = ClassView;

    open spec fn view(&self) -> ClassView {
        ClassView { name: self.name@, superclass: self.superclass, methods: self.methods@ }
    }
}

pub open spec fn class_views(classes: Seq<LoxClass>) -> Seq<ClassView> {
    classes.map_values(|c: LoxClass| c@)
}

/// The method `name` of the class `class`: its own, or else the one that
/// its superclass has, and so on upwards. A superclass was made before
/// the class.
pub open spec fn method_of(classes: Seq<ClassView>, class: usize, name: Seq<char>) -> Option<usize>
    decreases class,
{
    if class >= classes.len() {
        None
    } else if classes[class as int].methods.dom().contains(name) {
        Some(classes[class as int].methods[name])
    } else {
        match classes[class as int].superclass {
            Some(s) => if s < class {
                method_of(classes, s, name)
            } else {
                None
            },
            None => None,
        }
    }
}

/// The number of arguments that a call of the class takes: as many as its
/// `init` method, and none without one.
pub open spec fn class_arity(classes: Seq<ClassView>, functions: Seq<LoxFunction>, class: usize) -> nat {
    match method_of(classes, class, "init"@) {
        Some(f) => if f < functions.len() {
            functions[f as int].spec_arity()
        } else {
            0
        },
        None => 0,
    }
}

impl LoxClass {
    pub fn new(name: &str, superclass: Option<usize>, methods: Table<usize>) -> (class: LoxClass)
        ensures
            class@ == (ClassView { name: name@, superclass, methods: methods@ }),
    {
        LoxClass { name: String::from_str(name), superclass, methods }
    }

    /// Finds the method `name` of the class at `class` in `classes`.
    pub fn find_method(classes: &Vec<LoxClass>, class: usize, name: &String) -> (method: Option<
        Literal,
    >)
        ensures
            method == (match method_of(class_views(classes@), class, name@) {
                Some(f) => Some(Literal::Function(Callable { fun: f })),
                None => None,
            }),
    {
        let mut at: usize = class;
        loop
            invariant
                method_of(class_views(classes@), at, name@) == method_of(
                    class_views(classes@),
                    class,
                    name@,
                ),
            decreases at,
        {
            if at >= classes.len() {
                return None;
            }
            match classes[at].methods.get(name) {
                Some(f) => {
                    return Some(Literal::Function(Callable { fun: *f }));
                },
                None => {},
            }
            match classes[at].superclass {
                Some(s) => {
                    if s < at {
                        at = s;
                    } else {
                        return None;
                    }
                },
                None => {
                    return None;
                },
            }
        }
    }

    /// Calls the class at `class`: a new instance of it is made. If the
    /// class has an `init` method, the method is bound to the instance and
    /// called with the arguments, and when it is done the instance takes
    /// the place of its result; otherwise the instance is the value at
    /// once.
    pub fn call(class: usize, interpreter: &mut Interpreter, arguments: &Vec<Literal>)
        ensures
            final(interpreter)@ == construct(old(interpreter)@, class, arguments@),
    {
        let instance: usize = interpreter.instances.len();
        let made = LoxInstance::new(class);
        assert(instance_views(interpreter.instances@.push(made)) =~= instance_views(
            interpreter.instances@,
        ).push(made@));
        interpreter.instances.push(made);
        let init = String::from_str("init");
        match LoxClass::find_method(&interpreter.classes, class, &init) {
            Some(Literal::Function(f)) => {
                if f.fun < interpreter.functions.len() {
                    let initialiser = interpreter.functions[f.fun].clone();
                    let bound = initialiser.bind(
                        &Literal::Instance(instance),
                        &mut interpreter.environment,
                    );
                    interpreter.tasks.push(Task::Construct { instance });
                    bound.call(interpreter, arguments);
                    return ;
                }
            },
            _ => {},
        }
        interpreter.values.push(Literal::Instance(instance));
    }

    /// The number of arguments that a call of the class at `class` takes.
    pub fn arity(classes: &Vec<LoxClass>, functions: &Vec<LoxFunction>, class: usize) -> (n: usize)
        ensures
            n == class_arity(class_views(classes@), functions@, class),
    {
        let init = String::from_str("init");
        match LoxClass::find_method(classes, class, &init) {
            Some(Literal::Function(f)) => {
                if f.fun < functions.len() {
                    functions[f.fun].arity()
                } else {
                    0
                }
            },
            _ => 0,
        }
    }
}

} // verus!
