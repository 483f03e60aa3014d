//! Environments: the frames that hold the variables of a running program.
//!
//! All frames live in one `Environment` and are named by their place in
//! it. A frame holds its own variables and names the frame that encloses
//! it; a closure keeps the name of the frame it was made in. Frame 0 is
//! made with the environment: the global frame.
//!
//! A frame keeps its place for as long as the environment lives. A frame
//! that a closure holds has to outlive the block or call that made it,
//! and the environment does not follow which frames are held; so it
//! releases none, and a long run makes a long list of frames.

use vstd::prelude::*;
use crate::error::{LoxError, Message};
use crate::table::Table;
use crate::token::{Literal, Token};

verus! {

#[derive(Debug)]
pub struct Frame {
    pub values: Table<Literal>,
    pub enclosing: Option<usize>,
}

#[derive(Debug)]
pub struct Environment {
    pub frames: Vec<Frame>,
}

/// A frame as a map from names to values, with the frame that encloses
/// it.
pub ghost struct FrameView {
    pub values: Map<Seq<char>, Literal>,
    pub enclosing: Option<usize>,
}

impl View for Frame {
    type V = FrameView;

    open spec fn view(&self) -> FrameView {
        FrameView { values: self.values@, enclosing: self.enclosing }
    }
}

impl View for Environment {
    type V = Seq<FrameView>;

    open spec fn view(&self) -> Seq<FrameView> {
        self.frames@.map_values(|f: Frame| f@)
    }
}

/// The frame that encloses `frame`. A frame is enclosed by one that was
/// made before it.
pub open spec fn parent(frames: Seq<FrameView>, frame: usize) -> Option<usize> {
    if frame < frames.len() {
        match frames[frame as int].enclosing {
            Some(p) => if p < frame {
                Some(p)
            } else {
                None
            },
            None => None,
        }
    } else {
        None
    }
}

/// The first frame that holds `name`, walking outwards from `frame`.
pub open spec fn holder(frames: Seq<FrameView>, frame: usize, name: Seq<char>) -> Option<usize>
    decreases frame,
{
    if frame >= frames.len() {
        None
    } else if frames[frame as int].values.dom().contains(name) {
        Some(frame)
    } else {
        match parent(frames, frame) {
            Some(p) => holder(frames, p, name),
            None => None,
        }
    }
}

/// The value of `name` as seen from `frame`: that of the first frame
/// outwards that holds the name.
pub open spec fn lookup(frames: Seq<FrameView>, frame: usize, name: Seq<char>) -> Option<Literal> {
    match holder(frames, frame, name) {
        Some(f) => Some(frames[f as int].values[name]),
        None => None,
    }
}

/// The frame exactly `distance` frames outwards from `frame`.
pub open spec fn ancestor(frames: Seq<FrameView>, frame: usize, distance: nat) -> Option<usize>
    decreases distance,
{
    if frame >= frames.len() {
        None
    } else if distance == 0 {
        Some(frame)
    } else {
        match parent(frames, frame) {
            Some(p) => ancestor(frames, p, (distance - 1) as nat),
            None => None,
        }
    }
}

/// The value of `name` in the frame exactly `distance` frames outwards
/// from `frame`; no other frame is searched.
pub open spec fn lookup_at(frames: Seq<FrameView>, frame: usize, distance: nat, name: Seq<char>) -> Option<
    Literal,
> {
    match ancestor(frames, frame, distance) {
        Some(f) => if frames[f as int].values.dom().contains(name) {
            Some(frames[f as int].values[name])
        } else {
            None
        },
        None => None,
    }
}

/// The frames after `name` is written in `frame`.
pub open spec fn stored(frames: Seq<FrameView>, frame: usize, name: Seq<char>, value: Literal) -> Seq<
    FrameView,
> {
    if frame < frames.len() {
        frames.update(
            frame as int,
            FrameView { values: frames[frame as int].values.insert(name, value), ..frames[frame as int] },
        )
    } else {
        frames
    }
}

/// The frames after `name`, which some frame seen from `frame` holds, is
/// assigned.
pub open spec fn assigned(frames: Seq<FrameView>, frame: usize, name: Seq<char>, value: Literal) -> Seq<
    FrameView,
> {
    match holder(frames, frame, name) {
        Some(f) => stored(frames, f, name, value),
        None => frames,
    }
}

/// The frames after the slot of `name`, exactly `distance` frames
/// outwards from `frame`, is written.
pub open spec fn assigned_at(
    frames: Seq<FrameView>,
    frame: usize,
    distance: nat,
    name: Seq<char>,
    value: Literal,
) -> Seq<FrameView> {
    match ancestor(frames, frame, distance) {
        Some(f) => stored(frames, f, name, value),
        None => frames,
    }
}

/// The frames with a new, empty frame enclosed by `enclosing`.
pub open spec fn extended(frames: Seq<FrameView>, enclosing: usize) -> Seq<FrameView> {
    frames.push(FrameView { values: Map::empty(), enclosing: Some(enclosing) })
}

/// Writing a variable leaves the chain of frames as it is.
pub proof fn store_keeps_ancestors(
    frames: Seq<FrameView>,
    target: usize,
    written: Seq<char>,
    value: Literal,
    frame: usize,
    distance: nat,
)
    ensures
        ancestor(stored(frames, target, written, value), frame, distance) == ancestor(
            frames,
            frame,
            distance,
        ),
    decreases distance,
{
    let after = stored(frames, target, written, value);
    if frame < frames.len() && distance > 0 {
        match parent(frames, frame) {
            Some(p) => {
                store_keeps_ancestors(frames, target, written, value, p, (distance - 1) as nat);
            },
            None => {},
        }
    }
}

/// A use that was resolved to a distance reads the slot that it was
/// resolved to, whatever is declared afterwards: writing another name, or
/// any name in another frame, does not change what the use reads.
pub proof fn resolved_read_is_stable(
    frames: Seq<FrameView>,
    frame: usize,
    distance: nat,
    name: Seq<char>,
    target: usize,
    written: Seq<char>,
    value: Literal,
)
    requires
        written != name || ancestor(frames, frame, distance) != Some(target),
    ensures
        lookup_at(stored(frames, target, written, value), frame, distance, name) == lookup_at(
            frames,
            frame,
            distance,
            name,
        ),
{
    store_keeps_ancestors(frames, target, written, value, frame, distance);
    ancestor_is_a_frame(frames, frame, distance);
    match ancestor(frames, frame, distance) {
        Some(f) => {
            let after = stored(frames, target, written, value);
            if target < frames.len() && f == target {
                assert(after[f as int].values =~= frames[f as int].values.insert(written, value));
            } else {
                assert(after[f as int] == frames[f as int]);
            }
        },
        None => {},
    }
}

/// A new frame leaves the chains of the frames before it as they are.
pub proof fn extended_keeps_ancestors(
    frames: Seq<FrameView>,
    enclosing: usize,
    frame: usize,
    distance: nat,
)
    requires
        frame < frames.len(),
    ensures
        ancestor(extended(frames, enclosing), frame, distance) == ancestor(frames, frame, distance),
    decreases distance,
{
    if distance > 0 {
        match parent(frames, frame) {
            Some(p) => {
                extended_keeps_ancestors(frames, enclosing, p, (distance - 1) as nat);
            },
            None => {},
        }
    }
}

/// A use that was resolved to a distance reads the same slot after new
/// frames are made: a closure is not touched by the scopes entered later.
pub proof fn resolved_read_ignores_new_frames(
    frames: Seq<FrameView>,
    enclosing: usize,
    frame: usize,
    distance: nat,
    name: Seq<char>,
)
    requires
        frame < frames.len(),
    ensures
        lookup_at(extended(frames, enclosing), frame, distance, name) == lookup_at(
            frames,
            frame,
            distance,
            name,
        ),
{
    extended_keeps_ancestors(frames, enclosing, frame, distance);
    ancestor_is_a_frame(frames, frame, distance);
}

/// The frame found by walking outwards exists, and is not younger than
/// the frame the walk began at.
pub proof fn ancestor_is_a_frame(frames: Seq<FrameView>, frame: usize, distance: nat)
    ensures
        match ancestor(frames, frame, distance) {
            Some(f) => f <= frame && f < frames.len(),
            None => true,
        },
    decreases distance,
{
    if frame < frames.len() && distance > 0 {
        match parent(frames, frame) {
            Some(p) => {
                ancestor_is_a_frame(frames, p, (distance - 1) as nat);
            },
            None => {},
        }
    }
}

/// The frame that holds a name exists, holds the name, and is not younger
/// than the frame the search began at.
pub proof fn holder_is_a_frame(frames: Seq<FrameView>, frame: usize, name: Seq<char>)
    ensures
        match holder(frames, frame, name) {
            Some(f) => f <= frame && f < frames.len() && frames[f as int].values.dom().contains(name),
            None => true,
        },
    decreases frame,
{
    if frame < frames.len() && !frames[frame as int].values.dom().contains(name) {
        match parent(frames, frame) {
            Some(p) => {
                holder_is_a_frame(frames, p, name);
            },
            None => {},
        }
    }
}

impl Environment {
    /// An environment with the global frame alone, which is frame 0 and
    /// holds nothing.
    pub fn new() -> (environment: Environment)
        ensures
            environment@ == seq![FrameView { values: Map::empty(), enclosing: None }],
    {
        let mut frames: Vec<Frame> = Vec::new();
        frames.push(Frame { values: Table::new(), enclosing: None });
        let environment = Environment { frames };
        assert(environment@ =~= seq![FrameView { values: Map::empty(), enclosing: None }]);
        environment
    }

    /// Makes a new, empty frame enclosed by `enclosing`, and returns its
    /// name.
    pub fn new_with_enclosing(&mut self, enclosing: usize) -> (frame: usize)
        ensures
            frame == old(self)@.len(),
            final(self)@ == extended(old(self)@, enclosing),
    {
        let frame = self.frames.len();
        let made = Frame { values: Table::new(), enclosing: Some(enclosing) };
        assert(self.frames@.push(made).map_values(|f: Frame| f@) =~= extended(self@, enclosing));
        self.frames.push(made);
        frame
    }

    /// The number of frames.
    pub fn len(&self) -> (n: usize)
        ensures
            n == self@.len(),
    {
        self.frames.len()
    }

    /// The frame that encloses `frame`.
    fn enclosing(&self, frame: usize) -> (p: Option<usize>)
        ensures
            p == parent(self@, frame),
    {
        if frame < self.frames.len() {
            match self.frames[frame].enclosing {
                Some(p) => if p < frame {
                    Some(p)
                } else {
                    None
                },
                None => None,
            }
        } else {
            None
        }
    }

    /// The first frame that holds `name`, walking outwards from `frame`.
    fn find(&self, frame: usize, name: &String) -> (found: Option<usize>)
        ensures
            found == holder(self@, frame, name@),
            match found {
                Some(f) => f < self@.len() && self@[f as int].values.dom().contains(name@),
                None => true,
            },
    {
        let mut at: usize = frame;
        loop
            invariant
                holder(self@, at, name@) == holder(self@, frame, name@),
            decreases at,
        {
            if at >= self.frames.len() {
                return None;
            }
            if self.frames[at].values.contains_key(name) {
                return Some(at);
            }
            match self.enclosing(at) {
                Some(p) => {
                    at = p;
                },
                None => {
                    return None;
                },
            }
        }
    }

    /// The frame exactly `distance` frames outwards from `frame`.
    fn walk(&self, frame: usize, distance: usize) -> (found: Option<usize>)
        ensures
            found == ancestor(self@, frame, distance as nat),
            match found {
                Some(f) => f < self@.len(),
                None => true,
            },
    {
        let mut at: usize = frame;
        let mut left: usize = distance;
        loop
            invariant
                ancestor(self@, at, left as nat) == ancestor(self@, frame, distance as nat),
            decreases left,
        {
            if at >= self.frames.len() {
                return None;
            }
            if left == 0 {
                return Some(at);
            }
            match self.enclosing(at) {
                Some(p) => {
                    at = p;
                    left -= 1;
                },
                None => {
                    return None;
                },
            }
        }
    }

    /// Reads the variable `name` as seen from `frame`: the frames are
    /// searched outwards, and a name that none of them holds is undefined.
    pub fn get(&self, frame: usize, name: &Token) -> (res: Result<Literal, LoxError>)
        ensures
            res == (match lookup(self@, frame, name.lexeme@) {
                Some(v) => Ok::<Literal, LoxError>(v),
                None => Err::<Literal, LoxError>(
                    LoxError::runtime(*name, Message::UndefinedVariable),
                ),
            }),
    {
        match self.find(frame, &name.lexeme) {
            Some(f) => {
                match self.frames[f].values.get(&name.lexeme) {
                    Some(v) => Ok(v.clone()),
                    None => Err(LoxError::runtime_error(name, Message::UndefinedVariable)),
                }
            },
            None => Err(LoxError::runtime_error(name, Message::UndefinedVariable)),
        }
    }

    /// Assigns to the variable `name` as seen from `frame`: the first
    /// frame outwards that holds the name is written. A name that none of
    /// them holds is undefined, and nothing is written.
    pub fn assign(&mut self, frame: usize, name: &Token, value: &Literal) -> (res: Result<
        (),
        LoxError,
    >)
        ensures
            final(self)@ == assigned(old(self)@, frame, name.lexeme@, *value),
            res == (match holder(old(self)@, frame, name.lexeme@) {
                Some(_) => Ok::<(), LoxError>(()),
                None => Err::<(), LoxError>(LoxError::runtime(*name, Message::UndefinedVariable)),
            }),
    {
        match self.find(frame, &name.lexeme) {
            Some(f) => {
                self.put(f, name.lexeme.clone(), value.clone());
                Ok(())
            },
            None => Err(LoxError::runtime_error(name, Message::UndefinedVariable)),
        }
    }

    /// Writes `name` in `frame`.
    fn put(&mut self, frame: usize, name: String, value: Literal)
        requires
            frame < old(self)@.len(),
        ensures
            final(self)@ == stored(old(self)@, frame, name@, value),
    {
        self.frames[frame].values.insert(name, value);
        assert(self@ =~= stored(old(self)@, frame, name@, value));
    }

    /// Defines `name` in `frame`, whether or not the frame holds the name
    /// already. Nothing happens if there is no such frame.
    pub fn define(&mut self, frame: usize, name: &str, value: Literal)
        ensures
            final(self)@ == stored(old(self)@, frame, name@, value),
    {
        if frame < self.frames.len() {
            self.put(frame, String::from_str(name), value);
        }
    }

    /// Reads `name` in the frame exactly `distance` frames outwards from
    /// `frame`. `None` if there is no such frame or it does not hold the
    /// name.
    pub fn get_at(&self, frame: usize, distance: usize, name: &str) -> (res: Option<Literal>)
        ensures
            res == lookup_at(self@, frame, distance as nat, name@),
    {
        match self.walk(frame, distance) {
            Some(f) => {
                let key = String::from_str(name);
                match self.frames[f].values.get(&key) {
                    Some(v) => Some(v.clone()),
                    None => None,
                }
            },
            None => None,
        }
    }

    /// Writes `name` in the frame exactly `distance` frames outwards from
    /// `frame`, whether or not it holds the name. If there is no such
    /// frame the name is undefined, and nothing is written.
    pub fn assign_at(&mut self, frame: usize, distance: usize, name: &Token, value: &Literal) -> (res:
        Result<(), LoxError>)
        ensures
            final(self)@ == assigned_at(old(self)@, frame, distance as nat, name.lexeme@, *value),
            res == (match ancestor(old(self)@, frame, distance as nat) {
                Some(_) => Ok::<(), LoxError>(()),
                None => Err::<(), LoxError>(LoxError::runtime(*name, Message::UndefinedVariable)),
            }),
    {
        match self.walk(frame, distance) {
            Some(f) => {
                self.put(f, name.lexeme.clone(), value.clone());
                Ok(())
            },
            None => Err(LoxError::runtime_error(name, Message::UndefinedVariable)),
        }
    }
}

} // verus!
