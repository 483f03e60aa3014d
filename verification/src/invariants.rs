//! What every step of the machine keeps, and so every run.
//!
//! Closures keep their scopes: frames are added and variables are written,
//! but no frame ever changes the frame that encloses it, so what a function
//! sees outwards from its closure is settled when the closure is made.
//! Functions and classes are never changed once they are made, and an
//! instance stays of its class.

use vstd::prelude::*;
use std::rc::Rc;
use crate::environment::{ancestor, assigned, assigned_at, extended, parent, stored, FrameView};
use crate::expr::Expr;
use crate::lox_function::LoxFunction;
use crate::machine::{
    bind_parameters, construct, declare_class, enter, runs, steps, Action, Event, Machine, Task,
};
use crate::stmt::{ClassStmt, Stmt};
use crate::token::{Literal, Token};

verus! {

/// Whether `after` has the frames of `before`, each enclosed as it was,
/// and possibly more.
pub open spec fn same_chains(before: Seq<FrameView>, after: Seq<FrameView>) -> bool {
    &&& after.len() >= before.len()
    &&& forall|f: int|
        0 <= f < before.len() ==> (#[trigger] after[f]).enclosing == before[f].enclosing
}

/// Writing a variable changes no chain.
pub proof fn stored_keeps_chains(frames: Seq<FrameView>, frame: usize, name: Seq<char>, value: Literal)
    ensures
        same_chains(frames, stored(frames, frame, name, value)),
        stored(frames, frame, name, value).len() == frames.len(),
{
}

/// A new frame changes no chain.
pub proof fn extended_keeps_chains(frames: Seq<FrameView>, enclosing: usize)
    ensures
        same_chains(frames, extended(frames, enclosing)),
{
}

/// Assigning to a variable changes no chain.
pub proof fn assigned_keeps_chains(
    frames: Seq<FrameView>,
    frame: usize,
    name: Seq<char>,
    value: Literal,
    distance: nat,
)
    ensures
        same_chains(frames, assigned(frames, frame, name, value)),
        same_chains(frames, assigned_at(frames, frame, distance, name, value)),
{
}

/// Binding the parameters of a call changes no chain.
pub proof fn bind_parameters_keeps_chains(
    frames: Seq<FrameView>,
    frame: usize,
    params: Seq<Token>,
    arguments: Seq<Literal>,
    from: nat,
)
    ensures
        same_chains(frames, bind_parameters(frames, frame, params, arguments, from)),
        bind_parameters(frames, frame, params, arguments, from).len() == frames.len(),
    decreases params.len() - from,
{
    if from < params.len() && from < arguments.len() {
        let next = stored(frames, frame, params[from as int].lexeme@, arguments[from as int]);
        bind_parameters_keeps_chains(next, frame, params, arguments, from + 1);
        let last = bind_parameters(frames, frame, params, arguments, from);
        assert forall|f: int| 0 <= f < frames.len() implies (#[trigger] last[f]).enclosing
            == frames[f].enclosing by {
            assert(next[f].enclosing == frames[f].enclosing);
        }
    }
}

/// Binding a method changes no chain.
pub proof fn bound_frames_keep_chains(frames: Seq<FrameView>, closure: usize, this: Literal)
    ensures
        same_chains(frames, LoxFunction::bound_frames(frames, closure, this)),
{
    let made = extended(frames, closure);
    let bound = LoxFunction::bound_frames(frames, closure, this);
    assert forall|f: int| 0 <= f < frames.len() implies (#[trigger] bound[f]).enclosing
        == frames[f].enclosing by {
        assert(made[f] == frames[f]);
    }
}

/// Entering a function changes no chain.
pub proof fn enter_keeps_chains(m: Machine, f: LoxFunction, arguments: Seq<Literal>)
    ensures
        same_chains(m.frames, enter(m, f, arguments).frames),
{
    let made = extended(m.frames, f.closure);
    bind_parameters_keeps_chains(
        made,
        m.frames.len() as usize,
        f.declaration.params@,
        arguments,
        0,
    );
    let after = enter(m, f, arguments).frames;
    assert forall|g: int| 0 <= g < m.frames.len() implies (#[trigger] after[g]).enclosing
        == m.frames[g].enclosing by {
        assert(made[g] == m.frames[g]);
    }
}

/// Calling a class changes no chain.
pub proof fn construct_keeps_chains(m: Machine, class: usize, arguments: Seq<Literal>)
    ensures
        same_chains(m.frames, construct(m, class, arguments).frames),
{
    match crate::lox_class::method_of(m.classes, class, "init"@) {
        Some(f) => {
            if f < m.functions.len() {
                let instance = m.instances.len() as usize;
                let bound = LoxFunction::bound_frames(
                    m.frames,
                    m.functions[f as int].closure,
                    Literal::Instance(instance),
                );
                bound_frames_keep_chains(
                    m.frames,
                    m.functions[f as int].closure,
                    Literal::Instance(instance),
                );
                let made = Machine {
                    instances: m.instances.push(
                        crate::lox_instance::InstanceView { class, fields: Map::empty() },
                    ),
                    ..m
                };
                let entered = Machine { frames: bound, ..made }.push_task(
                    Task::Construct { instance },
                );
                enter_keeps_chains(
                    entered,
                    LoxFunction { closure: m.frames.len() as usize, ..m.functions[f as int] },
                    arguments,
                );
                let after = construct(m, class, arguments).frames;
                assert forall|g: int| 0 <= g < m.frames.len() implies (#[trigger] after[g]).enclosing
                    == m.frames[g].enclosing by {
                    assert(bound[g].enclosing == m.frames[g].enclosing);
                }
            }
        },
        None => {},
    }
}

/// The frames after the class of `c` is declared.
pub open spec fn declared(m: Machine, c: Rc<ClassStmt>, superclass: Option<usize>) -> Seq<FrameView> {
    declare_class(m, *c, superclass).frames
}

/// Declaring a class changes no chain.
pub proof fn declare_class_keeps_chains(m: Machine, c: Rc<ClassStmt>, superclass: Option<usize>)
    ensures
        same_chains(m.frames, declared(m, c, superclass)),
{
    let named = stored(m.frames, m.current, c.name.lexeme@, Literal::Nil);
    let frames = match superclass {
        Some(s) => stored(
            extended(named, m.current),
            named.len() as usize,
            "super"@,
            Literal::Class(s),
        ),
        None => named,
    };
    let after = declared(m, c, superclass);
    assert forall|g: int| 0 <= g < m.frames.len() implies (#[trigger] after[g]).enclosing
        == m.frames[g].enclosing by {
        assert(named[g].enclosing == m.frames[g].enclosing);
        if superclass is Some {
            assert(extended(named, m.current)[g] == named[g]);
        }
        assert(frames[g].enclosing == m.frames[g].enclosing);
    }
}

/// Reading a property or `super` changes no chain.
pub proof fn push_bound_keeps_chains(m: Machine, method: usize, this: Literal)
    ensures
        same_chains(m.frames, m.push_bound(method, this).frames),
{
    bound_frames_keep_chains(m.frames, m.functions[method as int].closure, this);
}

/// No step changes a chain: after a step every frame that there was is
/// enclosed by the frame that enclosed it.
pub proof fn a_step_keeps_the_chains(before: Machine, event: Event, after: Machine, action: Action)
    requires
        steps(before, event, after, action),
    ensures
        same_chains(before.frames, after.frames),
{
    if before.mode is Running && before.tasks.len() > 0 {
        let m = before.pop_task();
        match before.tasks.last() {
            Task::Evaluate(e) => {
                match *e {
                    Expr::Super(e) => {
                        let distance: nat = if m.locals.dom().contains(e.id) {
                            m.locals[e.id] as nat
                        } else {
                            0
                        };
                        match crate::environment::lookup_at(m.frames, m.current, distance, "super"@) {
                            Some(Literal::Class(c)) => {
                                if distance > 0 {
                                    match crate::environment::lookup_at(
                                        m.frames,
                                        m.current,
                                        (distance - 1) as nat,
                                        "this"@,
                                    ) {
                                        Some(this) => {
                                            match crate::lox_class::method_of(
                                                m.classes,
                                                c,
                                                e.method.lexeme@,
                                            ) {
                                                Some(f) => {
                                                    push_bound_keeps_chains(m, f, this);
                                                },
                                                None => {},
                                            }
                                        },
                                        None => {},
                                    }
                                }
                            },
                            _ => {},
                        }
                    },
                    _ => {},
                }
            },
            Task::Execute(s) => {
                match *s {
                    Stmt::Class(c) => {
                        declare_class_keeps_chains(m, c, None);
                    },
                    _ => {},
                }
            },
            Task::Class(c) => {
                if m.values.len() >= 1 {
                    match m.value(0) {
                        Literal::Class(k) => {
                            declare_class_keeps_chains(m.drop_values(1), c, Some(k));
                        },
                        _ => {},
                    }
                }
            },
            Task::Arguments { call, next } => {
                if next >= call.arguments@.len() {
                    let count = call.arguments@.len();
                    if m.values.len() >= count + 1 {
                        let rest = m.drop_values(count + 1);
                        let arguments = m.values.subrange(
                            m.values.len() - count,
                            m.values.len() as int,
                        );
                        match m.value(count) {
                            Literal::Function(f) => {
                                if f.fun < m.functions.len() {
                                    enter_keeps_chains(rest, m.functions[f.fun as int], arguments);
                                }
                            },
                            Literal::Class(c) => {
                                construct_keeps_chains(rest, c, arguments);
                            },
                            _ => {},
                        }
                    }
                }
            },
            Task::Get(e) => {
                if m.values.len() >= 1 {
                    match m.value(0) {
                        Literal::Instance(i) => {
                            if i < m.instances.len() {
                                match crate::lox_instance::property(
                                    m.instances[i as int],
                                    m.classes,
                                    m.functions.len(),
                                    e.name.lexeme@,
                                ) {
                                    crate::lox_instance::Property::Method(f) => {
                                        push_bound_keeps_chains(
                                            m.drop_values(1),
                                            f,
                                            Literal::Instance(i),
                                        );
                                    },
                                    _ => {},
                                }
                            }
                        },
                        _ => {},
                    }
                }
            },
            _ => {},
        }
    }
}

/// Chains that are the same give the same frame at every distance.
pub proof fn same_chains_same_ancestors(
    before: Seq<FrameView>,
    after: Seq<FrameView>,
    frame: usize,
    distance: nat,
)
    requires
        same_chains(before, after),
        frame < before.len(),
    ensures
        ancestor(after, frame, distance) == ancestor(before, frame, distance),
    decreases distance,
{
    if distance > 0 {
        assert(after[frame as int].enclosing == before[frame as int].enclosing);
        match parent(before, frame) {
            Some(p) => {
                same_chains_same_ancestors(before, after, p, (distance - 1) as nat);
            },
            None => {},
        }
    }
}

/// Lexical scoping, however long the program runs: the frame that lies a
/// given distance outwards from a frame is the same after any number of
/// steps. A closure reads and writes the variables of the scopes it was
/// made in, whatever is declared, called or entered later.
pub proof fn closures_keep_their_scopes(
    before: Machine,
    event: Event,
    fuel: nat,
    after: Machine,
    action: Action,
    frame: usize,
    distance: nat,
)
    requires
        runs(before, event, fuel, after, action),
        frame < before.frames.len(),
    ensures
        frame < after.frames.len(),
        ancestor(after.frames, frame, distance) == ancestor(before.frames, frame, distance),
    decreases fuel,
{
    if fuel > 0 {
        let (middle, first) = choose|middle: Machine, first: Action| #[trigger]
            steps(before, event, middle, first) && if first is Continue {
                runs(middle, Event::Nothing, (fuel - 1) as nat, after, action)
            } else {
                after == middle && action == first
            };
        a_step_keeps_the_chains(before, event, middle, first);
        same_chains_same_ancestors(before.frames, middle.frames, frame, distance);
        if first is Continue {
            closures_keep_their_scopes(
                middle,
                Event::Nothing,
                (fuel - 1) as nat,
                after,
                action,
                frame,
                distance,
            );
        }
    }
}

/// Whether `after` has the functions and classes of `before`, each as
/// it was, and the instances of `before`, each of the class it was of;
/// and possibly more of each.
pub open spec fn same_objects(before: Machine, after: Machine) -> bool {
    &&& after.functions.len() >= before.functions.len()
    &&& forall|f: int|
        0 <= f < before.functions.len() ==> (#[trigger] after.functions[f]) == before.functions[f]
    &&& after.classes.len() >= before.classes.len()
    &&& forall|c: int|
        0 <= c < before.classes.len() ==> (#[trigger] after.classes[c]) == before.classes[c]
    &&& after.instances.len() >= before.instances.len()
    &&& forall|i: int|
        0 <= i < before.instances.len() ==> (#[trigger] after.instances[i]).class
            == before.instances[i].class
}

/// Adding the methods of a class leaves the functions that there were.
pub proof fn with_methods_keeps_functions(
    functions: Seq<LoxFunction>,
    methods: Seq<Rc<crate::stmt::FunctionStmt>>,
    closure: usize,
    count: nat,
)
    ensures
        crate::machine::with_methods(functions, methods, closure, count).len() == functions.len()
            + count,
        forall|f: int|
            0 <= f < functions.len() ==> (#[trigger] crate::machine::with_methods(
                functions,
                methods,
                closure,
                count,
            )[f]) == functions[f],
    decreases count,
{
    if count > 0 {
        with_methods_keeps_functions(functions, methods, closure, (count - 1) as nat);
    }
}

/// The machine after the class of `c` is declared.
pub open spec fn with_class(m: Machine, c: Rc<ClassStmt>, superclass: Option<usize>) -> Machine {
    declare_class(m, *c, superclass)
}

/// Declaring a class leaves the objects that there were.
pub proof fn declare_class_keeps_objects(m: Machine, c: Rc<ClassStmt>, superclass: Option<usize>)
    ensures
        same_objects(m, with_class(m, c, superclass)),
{
    let closure = match superclass {
        Some(s) => stored(m.frames, m.current, c.name.lexeme@, Literal::Nil).len() as usize,
        None => m.current,
    };
    with_methods_keeps_functions(m.functions, c.methods@, closure, c.methods@.len());
}

/// No step changes a function or a class, or the class of an instance:
/// a step may add objects, and write the fields of instances.
pub proof fn a_step_keeps_the_objects(before: Machine, event: Event, after: Machine, action: Action)
    requires
        steps(before, event, after, action),
    ensures
        same_objects(before, after),
{
    if before.mode is Running && before.tasks.len() > 0 {
        let m = before.pop_task();
        match before.tasks.last() {
            Task::Execute(s) => {
                match *s {
                    Stmt::Class(c) => {
                        declare_class_keeps_objects(m, c, None);
                    },
                    _ => {},
                }
            },
            Task::Class(c) => {
                if m.values.len() >= 1 {
                    match m.value(0) {
                        Literal::Class(k) => {
                            declare_class_keeps_objects(m.drop_values(1), c, Some(k));
                        },
                        _ => {},
                    }
                }
            },
            _ => {},
        }
    }
}

/// Functions and classes are what they were made as, however long the
/// program runs: a value that names a function names the same function
/// after any number of steps, a value that names a class the same class,
/// and an instance stays of its class.
pub proof fn objects_are_permanent(
    before: Machine,
    event: Event,
    fuel: nat,
    after: Machine,
    action: Action,
)
    requires
        runs(before, event, fuel, after, action),
    ensures
        same_objects(before, after),
    decreases fuel,
{
    if fuel > 0 {
        let (middle, first) = choose|middle: Machine, first: Action| #[trigger]
            steps(before, event, middle, first) && if first is Continue {
                runs(middle, Event::Nothing, (fuel - 1) as nat, after, action)
            } else {
                after == middle && action == first
            };
        a_step_keeps_the_objects(before, event, middle, first);
        if first is Continue {
            objects_are_permanent(middle, Event::Nothing, (fuel - 1) as nat, after, action);
        }
    }
}

/// The name that the next step may write in a frame that there is: the
/// name of the variable, function or class that it declares, or of the
/// variable that it assigns to.
pub open spec fn written_name(m: Machine) -> Option<Seq<char>> {
    if m.mode is Running && m.tasks.len() > 0 {
        match m.tasks.last() {
            Task::Define(s) => Some(s.name.lexeme@),
            Task::Assign(e) => Some(e.name.lexeme@),
            Task::Class(c) => Some(c.name.lexeme@),
            Task::Execute(s) => match *s {
                Stmt::Var(v) => Some(v.name.lexeme@),
                Stmt::Function(f) => Some(f.name.lexeme@),
                Stmt::Class(c) => Some(c.name.lexeme@),
                _ => None,
            },
            _ => None,
        }
    } else {
        None
    }
}

/// Whether `after` has the frames of `before`, and possibly more, and
/// each frame of `before` holds for `name` what it held.
pub open spec fn same_slot(before: Seq<FrameView>, after: Seq<FrameView>, name: Seq<char>) -> bool {
    &&& same_chains(before, after)
    &&& forall|f: int|
        0 <= f < before.len() ==> (#[trigger] after[f]).values.dom().contains(name)
            == before[f].values.dom().contains(name) && (before[f].values.dom().contains(name)
            ==> after[f].values[name] == before[f].values[name])
}

/// Writing one name leaves what the frames hold for another.
pub proof fn stored_keeps_other_slots(
    frames: Seq<FrameView>,
    frame: usize,
    written: Seq<char>,
    value: Literal,
    name: Seq<char>,
)
    requires
        written != name,
    ensures
        same_slot(frames, stored(frames, frame, written, value), name),
        same_slot(frames, assigned(frames, frame, written, value), name),
        forall|distance: nat|
            same_slot(frames, #[trigger] assigned_at(frames, frame, distance, written, value), name),
{
}

/// A new frame, whatever is written in it, leaves what the frames that
/// there were hold.
pub proof fn new_frames_keep_slots(
    frames: Seq<FrameView>,
    enclosing: usize,
    written: Seq<char>,
    value: Literal,
    name: Seq<char>,
)
    requires
        frames.len() < usize::MAX,
    ensures
        same_slot(frames, extended(frames, enclosing), name),
        same_slot(
            frames,
            stored(extended(frames, enclosing), frames.len() as usize, written, value),
            name,
        ),
{
    let made = extended(frames, enclosing);
    let after = stored(made, frames.len() as usize, written, value);
    assert forall|f: int| 0 <= f < frames.len() implies (#[trigger] after[f]) == frames[f] by {
        assert(made[f] == frames[f]);
    }
}

/// Binding the parameters of a call in its new frame leaves what the
/// frames that there were hold.
pub proof fn bind_parameters_keeps_slots(
    frames: Seq<FrameView>,
    frame: usize,
    params: Seq<Token>,
    arguments: Seq<Literal>,
    from: nat,
    older: nat,
)
    requires
        older <= frame,
        older <= frames.len(),
    ensures
        bind_parameters(frames, frame, params, arguments, from).len() == frames.len(),
        forall|f: int|
            0 <= f < older ==> (#[trigger] bind_parameters(
                frames,
                frame,
                params,
                arguments,
                from,
            )[f]) == frames[f],
    decreases params.len() - from,
{
    if from < params.len() && from < arguments.len() {
        let next = stored(frames, frame, params[from as int].lexeme@, arguments[from as int]);
        bind_parameters_keeps_slots(next, frame, params, arguments, from + 1, older);
        assert forall|f: int| 0 <= f < older implies (#[trigger] bind_parameters(
            frames,
            frame,
            params,
            arguments,
            from,
        )[f]) == frames[f] by {
            assert(bind_parameters(next, frame, params, arguments, from + 1)[f] == next[f]);
        }
    }
}

/// Entering a function leaves what the frames that there were hold.
pub proof fn enter_keeps_slots(m: Machine, f: LoxFunction, arguments: Seq<Literal>, name: Seq<char>)
    requires
        m.frames.len() < usize::MAX,
    ensures
        same_slot(m.frames, enter(m, f, arguments).frames, name),
{
    let made = extended(m.frames, f.closure);
    bind_parameters_keeps_slots(
        made,
        m.frames.len() as usize,
        f.declaration.params@,
        arguments,
        0,
        m.frames.len(),
    );
    let after = enter(m, f, arguments).frames;
    assert forall|g: int| 0 <= g < m.frames.len() implies (#[trigger] after[g]) == m.frames[g] by {
        assert(made[g] == m.frames[g]);
    }
}

/// Binding a method leaves what the frames that there were hold.
pub proof fn push_bound_keeps_slots(m: Machine, method: usize, this: Literal, name: Seq<char>)
    requires
        m.frames.len() < usize::MAX,
    ensures
        same_slot(m.frames, m.push_bound(method, this).frames, name),
{
    new_frames_keep_slots(m.frames, m.functions[method as int].closure, "this"@, this, name);
}

/// Calling a class leaves what the frames that there were hold.
pub proof fn construct_keeps_slots(m: Machine, class: usize, arguments: Seq<Literal>, name: Seq<char>)
    requires
        m.frames.len() + 1 < usize::MAX,
    ensures
        same_slot(m.frames, construct(m, class, arguments).frames, name),
{
    match crate::lox_class::method_of(m.classes, class, "init"@) {
        Some(f) => {
            if f < m.functions.len() {
                let instance = m.instances.len() as usize;
                let closure = m.functions[f as int].closure;
                let bound = LoxFunction::bound_frames(m.frames, closure, Literal::Instance(instance));
                new_frames_keep_slots(m.frames, closure, "this"@, Literal::Instance(instance), name);
                let made = Machine {
                    instances: m.instances.push(
                        crate::lox_instance::InstanceView { class, fields: Map::empty() },
                    ),
                    ..m
                };
                let entered = Machine { frames: bound, ..made }.push_task(
                    Task::Construct { instance },
                );
                enter_keeps_slots(
                    entered,
                    LoxFunction { closure: m.frames.len() as usize, ..m.functions[f as int] },
                    arguments,
                    name,
                );
                let after = construct(m, class, arguments).frames;
                assert forall|g: int| 0 <= g < m.frames.len() implies (#[trigger] after[g]).values.dom().contains(
                    name,
                ) == m.frames[g].values.dom().contains(name) && (m.frames[g].values.dom().contains(
                    name,
                ) ==> after[g].values[name] == m.frames[g].values[name]) && after[g].enclosing
                    == m.frames[g].enclosing by {
                    assert(bound[g].values.dom().contains(name) == m.frames[g].values.dom().contains(
                        name,
                    ));
                }
            }
        },
        None => {},
    }
}

/// Declaring a class under another name leaves what the frames hold
/// for `name`.
pub proof fn declare_class_keeps_slots(
    m: Machine,
    c: Rc<ClassStmt>,
    superclass: Option<usize>,
    name: Seq<char>,
)
    requires
        c.name.lexeme@ != name,
        m.frames.len() < usize::MAX,
    ensures
        same_slot(m.frames, declared(m, c, superclass), name),
{
    let named = stored(m.frames, m.current, c.name.lexeme@, Literal::Nil);
    stored_keeps_other_slots(m.frames, m.current, c.name.lexeme@, Literal::Nil, name);
    let frames = match superclass {
        Some(s) => stored(
            extended(named, m.current),
            named.len() as usize,
            "super"@,
            Literal::Class(s),
        ),
        None => named,
    };
    if superclass is Some {
        new_frames_keep_slots(named, m.current, "super"@, Literal::Class(superclass->Some_0), name);
    }
    stored_keeps_other_slots(
        frames,
        m.current,
        c.name.lexeme@,
        Literal::Class(m.classes.len() as usize),
        name,
    );
    let after = declared(m, c, superclass);
    assert(after == assigned(
        frames,
        m.current,
        c.name.lexeme@,
        Literal::Class(m.classes.len() as usize),
    ));
    assert forall|g: int| 0 <= g < m.frames.len() implies (#[trigger] after[g]).values.dom().contains(
        name,
    ) == m.frames[g].values.dom().contains(name) && (m.frames[g].values.dom().contains(name)
        ==> after[g].values[name] == m.frames[g].values[name]) && after[g].enclosing
        == m.frames[g].enclosing by {
        assert(named[g].values.dom().contains(name) == m.frames[g].values.dom().contains(name));
        assert(frames[g].values.dom().contains(name) == named[g].values.dom().contains(name));
    }
}

/// A step that writes no variable named `name` leaves what every frame
/// holds for `name`: what is declared or assigned under another name, and
/// whatever is called, bound or entered, does not touch it.
pub proof fn a_step_keeps_other_slots(
    before: Machine,
    event: Event,
    after: Machine,
    action: Action,
    name: Seq<char>,
)
    requires
        steps(before, event, after, action),
        written_name(before) != Some(name),
        before.frames.len() + 1 < usize::MAX,
    ensures
        same_slot(before.frames, after.frames, name),
{
    if before.mode is Running && before.tasks.len() > 0 {
        let m = before.pop_task();
        match before.tasks.last() {
            Task::Define(s) => {
                if m.values.len() >= 1 {
                    stored_keeps_other_slots(m.frames, m.current, s.name.lexeme@, m.value(0), name);
                }
            },
            Task::Assign(e) => {
                if m.values.len() >= 1 {
                    stored_keeps_other_slots(m.frames, m.current, e.name.lexeme@, m.value(0), name);
                    stored_keeps_other_slots(m.frames, 0, e.name.lexeme@, m.value(0), name);
                }
            },
            Task::Class(c) => {
                if m.values.len() >= 1 {
                    match m.value(0) {
                        Literal::Class(k) => {
                            declare_class_keeps_slots(m.drop_values(1), c, Some(k), name);
                        },
                        _ => {},
                    }
                }
            },
            Task::Execute(s) => {
                match *s {
                    Stmt::Block(b) => {
                        new_frames_keep_slots(m.frames, m.current, name, Literal::Nil, name);
                    },
                    Stmt::Class(c) => {
                        declare_class_keeps_slots(m, c, None, name);
                    },
                    Stmt::Function(f) => {
                        stored_keeps_other_slots(
                            m.frames,
                            m.current,
                            f.name.lexeme@,
                            Literal::Function(
                                crate::token::Callable { fun: m.functions.len() as usize },
                            ),
                            name,
                        );
                    },
                    Stmt::Var(v) => {
                        stored_keeps_other_slots(
                            m.frames,
                            m.current,
                            v.name.lexeme@,
                            Literal::Nil,
                            name,
                        );
                    },
                    _ => {},
                }
            },
            Task::Evaluate(e) => {
                match *e {
                    Expr::Super(e) => {
                        let distance: nat = if m.locals.dom().contains(e.id) {
                            m.locals[e.id] as nat
                        } else {
                            0
                        };
                        match crate::environment::lookup_at(m.frames, m.current, distance, "super"@) {
                            Some(Literal::Class(c)) => {
                                if distance > 0 {
                                    match crate::environment::lookup_at(
                                        m.frames,
                                        m.current,
                                        (distance - 1) as nat,
                                        "this"@,
                                    ) {
                                        Some(this) => {
                                            match crate::lox_class::method_of(
                                                m.classes,
                                                c,
                                                e.method.lexeme@,
                                            ) {
                                                Some(f) => {
                                                    push_bound_keeps_slots(m, f, this, name);
                                                },
                                                None => {},
                                            }
                                        },
                                        None => {},
                                    }
                                }
                            },
                            _ => {},
                        }
                    },
                    _ => {},
                }
            },
            Task::Get(e) => {
                if m.values.len() >= 1 {
                    match m.value(0) {
                        Literal::Instance(i) => {
                            if i < m.instances.len() {
                                match crate::lox_instance::property(
                                    m.instances[i as int],
                                    m.classes,
                                    m.functions.len(),
                                    e.name.lexeme@,
                                ) {
                                    crate::lox_instance::Property::Method(f) => {
                                        push_bound_keeps_slots(
                                            m.drop_values(1),
                                            f,
                                            Literal::Instance(i),
                                            name,
                                        );
                                    },
                                    _ => {},
                                }
                            }
                        },
                        _ => {},
                    }
                }
            },
            Task::Arguments { call, next } => {
                if next >= call.arguments@.len() {
                    let count = call.arguments@.len();
                    if m.values.len() >= count + 1 {
                        let rest = m.drop_values(count + 1);
                        let arguments = m.values.subrange(
                            m.values.len() - count,
                            m.values.len() as int,
                        );
                        match m.value(count) {
                            Literal::Function(f) => {
                                if f.fun < m.functions.len() {
                                    enter_keeps_slots(
                                        rest,
                                        m.functions[f.fun as int],
                                        arguments,
                                        name,
                                    );
                                }
                            },
                            Literal::Class(c) => {
                                construct_keeps_slots(rest, c, arguments, name);
                            },
                            _ => {},
                        }
                    }
                }
            },
            _ => {},
        }
    }
}

/// At most `fuel` steps, as `runs` has them, of which none writes a
/// variable named `name`, with room for the frames they make.
pub open spec fn runs_without_writing(
    before: Machine,
    event: Event,
    fuel: nat,
    after: Machine,
    action: Action,
    name: Seq<char>,
) -> bool
    decreases fuel,
{
    if fuel == 0 {
        after == before && action is Continue
    } else {
        &&& written_name(before) != Some(name)
        &&& before.frames.len() + 1 < usize::MAX
        &&& exists|middle: Machine, first: Action| #[trigger]
            steps(before, event, middle, first) && if first is Continue {
                runs_without_writing(middle, Event::Nothing, (fuel - 1) as nat, after, action, name)
            } else {
                after == middle && action == first
            }
    }
}

/// Steps that write no variable named `name` are steps.
pub proof fn runs_without_writing_are_runs(
    before: Machine,
    event: Event,
    fuel: nat,
    after: Machine,
    action: Action,
    name: Seq<char>,
)
    requires
        runs_without_writing(before, event, fuel, after, action, name),
    ensures
        runs(before, event, fuel, after, action),
    decreases fuel,
{
    if fuel > 0 {
        let (middle, first) = choose|middle: Machine, first: Action| #[trigger]
            steps(before, event, middle, first) && if first is Continue {
                runs_without_writing(middle, Event::Nothing, (fuel - 1) as nat, after, action, name)
            } else {
                after == middle && action == first
            };
        if first is Continue {
            runs_without_writing_are_runs(
                middle,
                Event::Nothing,
                (fuel - 1) as nat,
                after,
                action,
                name,
            );
        }
    }
}

/// What a frame holds for a name lasts as long as no step writes a
/// variable of that name, however long the program runs.
pub proof fn slots_last(
    before: Machine,
    event: Event,
    fuel: nat,
    after: Machine,
    action: Action,
    name: Seq<char>,
)
    requires
        runs_without_writing(before, event, fuel, after, action, name),
    ensures
        same_slot(before.frames, after.frames, name),
    decreases fuel,
{
    if fuel > 0 {
        let (middle, first) = choose|middle: Machine, first: Action| #[trigger]
            steps(before, event, middle, first) && if first is Continue {
                runs_without_writing(middle, Event::Nothing, (fuel - 1) as nat, after, action, name)
            } else {
                after == middle && action == first
            };
        a_step_keeps_other_slots(before, event, middle, first, name);
        if first is Continue {
            slots_last(middle, Event::Nothing, (fuel - 1) as nat, after, action, name);
            assert forall|f: int| 0 <= f < before.frames.len() implies (#[trigger] after.frames[
                f
            ]).values.dom().contains(name) == before.frames[f].values.dom().contains(name) && (
            before.frames[f].values.dom().contains(name) ==> after.frames[f].values[name]
                == before.frames[f].values[name]) && after.frames[f].enclosing
                == before.frames[f].enclosing by {
                assert(middle.frames[f].enclosing == before.frames[f].enclosing);
            }
        }
    }
}

/// A bound method observes its instance when it is called, however much
/// later: if the closure of a function holds `this`, and the program
/// runs on without writing a variable named `this` (the scanner reads
/// `this` as a keyword, never as an identifier), then in a call of the
/// function `this`, one frame outwards from the frame of the call, is
/// still what it was. Two reads of one method of one instance give two
/// functions of which this holds with the same instance.
pub proof fn a_bound_method_sees_its_instance_when_called(
    before: Machine,
    event: Event,
    fuel: nat,
    after: Machine,
    action: Action,
    function: usize,
    this: Literal,
    arguments: Seq<Literal>,
)
    requires
        function < before.functions.len(),
        before.functions[function as int].closure < before.frames.len(),
        crate::environment::lookup_at(
            before.frames,
            before.functions[function as int].closure,
            0,
            "this"@,
        ) == Some(this),
        runs_without_writing(before, event, fuel, after, action, "this"@),
        after.frames.len() < usize::MAX,
    ensures
        function < after.functions.len(),
        after.functions[function as int] == before.functions[function as int],
        crate::environment::lookup_at(
            enter(after, after.functions[function as int], arguments).frames,
            enter(after, after.functions[function as int], arguments).current,
            1,
            "this"@,
        ) == Some(this),
{
    runs_without_writing_are_runs(before, event, fuel, after, action, "this"@);
    objects_are_permanent(before, event, fuel, after, action);
    slots_last(before, event, fuel, after, action, "this"@);
    let f = before.functions[function as int];
    assert(after.functions[function as int] == f);
    assert(after.frames[f.closure as int].values.dom().contains("this"@));
    crate::machine::call_sees_the_closure(after, f, arguments, 0, "this"@);
}

/// A call of an initialiser gives the instance that it was bound to,
/// however long its body ran and whatever it returned: if the closure of
/// the initialiser holds the instance as `this` when the call begins,
/// and the body writes no variable named `this`, the call ends with the
/// instance.
pub proof fn an_initialiser_gives_its_instance(
    before: Machine,
    event: Event,
    fuel: nat,
    after: Machine,
    action: Action,
    closure: usize,
    this: Literal,
    previous: usize,
    height: usize,
    returned: Literal,
)
    requires
        closure < before.frames.len(),
        crate::environment::lookup_at(before.frames, closure, 0, "this"@) == Some(this),
        runs_without_writing(before, event, fuel, after, action, "this"@),
    ensures
        crate::machine::finish_call(after, previous, height, closure, true, returned).values.last()
            == this,
{
    slots_last(before, event, fuel, after, action, "this"@);
    assert(after.frames[closure as int].values.dom().contains("this"@));
}

} // verus!
