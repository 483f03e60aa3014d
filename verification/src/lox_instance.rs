//! Instances of classes.

use vstd::prelude::*;
use crate::environment::Environment;
use crate::error::{LoxError, Message};
use crate::lox_class::{class_views, method_of, ClassView, LoxClass};
use crate::lox_function::LoxFunction;
use crate::table::Table;
use crate::token::{Callable, Literal, Token};

verus! {

/// An instance: its class and its fields. Instances live in the
/// interpreter's table of instances and are named by their place in it.
#[derive(Debug)]
pub struct LoxInstance {
    pub class: usize,
    pub fields: Table<Literal>,
}

pub ghost struct InstanceView {
    pub class: usize,
    pub fields: Map<Seq<char>, Literal>,
}

impl View for LoxInstance {
    type V = InstanceView;

    open spec fn view(&self) -> InstanceView {
        InstanceView { class: self.class, fields: self.fields@ }
    }
}

pub open spec fn instance_views(instances: Seq<LoxInstance>) -> Seq<InstanceView> {
    instances.map_values(|i: LoxInstance| i@)
}

/// What a property of an instance is.
pub ghost enum Property {
    /// A field with this value.
    Field(Literal),
    /// The method that is the function at this place.
    Method(usize),
    /// Nothing: reading it is this error.
    Missing(Message),
}

/// The property `name` of an instance: its field of that name, or else
/// the method of that name of its class.
pub open spec fn property(
    instance: InstanceView,
    classes: Seq<ClassView>,
    functions: nat,
    name: Seq<char>,
) -> Property {
    if instance.fields.dom().contains(name) {
        Property::Field(instance.fields[name])
    } else {
        match method_of(classes, instance.class, name) {
            Some(f) => if f < functions {
                Property::Method(f)
            } else {
                Property::Missing(Message::InternalError)
            },
            None => Property::Missing(Message::UndefinedProperty),
        }
    }
}

impl LoxInstance {
    /// A new instance of `class`, without fields.
    pub fn new(class: usize) -> (instance: LoxInstance)
        ensures
            instance@ == (InstanceView { class, fields: Map::empty() }),
    {
        LoxInstance { class, fields: Table::new() }
    }

    /// The field `name`, if the instance has it.
    pub fn field(&self, name: &Token) -> (value: Option<Literal>)
        ensures
            value == (if self@.fields.dom().contains(name.lexeme@) {
                Some(self@.fields[name.lexeme@])
            } else {
                None
            }),
    {
        match self.fields.get(&name.lexeme) {
            Some(v) => Some(v.clone()),
            None => None,
        }
    }

    /// Reads the property `name` of this instance, which is the instance
    /// at `this`. A field is read as it is. Otherwise the class is asked
    /// for the method: it is bound to the instance, and the bound function,
    /// a new function at the end of `functions`, is the value. A name that
    /// is neither is an undefined property.
    pub fn get(
        &self,
        this: usize,
        name: &Token,
        classes: &Vec<LoxClass>,
        functions: &mut Vec<LoxFunction>,
        environment: &mut Environment,
    ) -> (res: Result<Literal, LoxError>)
        ensures
            match property(self@, class_views(classes@), old(functions)@.len(), name.lexeme@) {
                Property::Field(v) => res == Ok::<Literal, LoxError>(v) && final(functions)@ == old(
                    functions,
                )@ && final(environment)@ == old(environment)@,
                Property::Method(f) => res == Ok::<Literal, LoxError>(
                    Literal::Function(Callable { fun: old(functions)@.len() as usize }),
                ) && final(functions)@ == old(functions)@.push(
                    LoxFunction {
                        closure: old(environment)@.len() as usize,
                        ..old(functions)@[f as int]
                    },
                ) && final(environment)@ == LoxFunction::bound_frames(
                    old(environment)@,
                    old(functions)@[f as int].closure,
                    Literal::Instance(this),
                ),
                Property::Missing(message) => res == Err::<Literal, LoxError>(
                    LoxError::runtime(*name, message),
                ) && final(functions)@ == old(functions)@ && final(environment)@ == old(
                    environment,
                )@,
            },
    {
        match self.field(name) {
            Some(v) => Ok(v),
            None => {
                match LoxClass::find_method(classes, self.class, &name.lexeme) {
                    Some(Literal::Function(f)) => {
                        if f.fun < functions.len() {
                            let method = functions[f.fun].clone();
                            let bound = method.bind(&Literal::Instance(this), environment);
                            let handle: usize = functions.len();
                            functions.push(bound);
                            Ok(Literal::Function(Callable { fun: handle }))
                        } else {
                            Err(LoxError::runtime_error(name, Message::InternalError))
                        }
                    },
                    _ => Err(LoxError::runtime_error(name, Message::UndefinedProperty)),
                }
            },
        }
    }

    /// Writes the field `name`, whether or not the instance has it.
    pub fn set(&mut self, name: &Token, value: &Literal)
        ensures
            final(self)@ == (InstanceView {
                fields: old(self)@.fields.insert(name.lexeme@, *value),
                ..old(self)@
            }),
    {
        self.fields.insert(name.lexeme.clone(), value.clone());
    }
}

} // verus!
