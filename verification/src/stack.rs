//! The stack of modifier scopes.
//!
//! A stack is a sequence of frames, base frame first. Each frame is the set
//! of modifiers active in its scope. The last frame is the one in effect.

use crate::style::Modifier;
use vstd::prelude::*;

verus! {

/// The frames after a new scope is opened: the top frame is repeated, so the
/// new scope starts with what was active.
pub open spec fn push_frame(frames: Seq<Set<Modifier>>) -> Seq<Set<Modifier>> {
    frames.push(frames.last())
}

/// The frames after `modifier` is activated in the top frame. The frames
/// below are untouched.
pub open spec fn set_top(frames: Seq<Set<Modifier>>, modifier: Modifier) -> Seq<Set<Modifier>> {
    frames.update(frames.len() - 1, frames.last().insert(modifier))
}

/// The frames after the top scope is closed. The base frame cannot be
/// closed: on a stack of one frame this is the stack itself.
pub open spec fn pop_frame(frames: Seq<Set<Modifier>>) -> Seq<Set<Modifier>> {
    if frames.len() > 1 {
        frames.drop_last()
    } else {
        frames
    }
}

/// Why an operation on the modifier scopes failed.
#[derive(Clone, Copy, Debug, PartialEq, Eq, Structural, Hash)]
pub enum CanvasError {
    /// `pop_state` was asked to close the base frame.
    StateUnderflow,
    /// A modifier with a `Custom` color was offered to a console that
    /// renders none.
    UnsupportedColor,
}

/// One step of a caller's use of the stack.
#[derive(Clone, Copy, Debug, PartialEq, Eq, Structural, Hash)]
pub enum StackOp {
    PushState,
    Activate(Modifier),
    PopState,
}

/// The frames after one step.
pub open spec fn step(frames: Seq<Set<Modifier>>, op: StackOp) -> Seq<Set<Modifier>> {
    match op {
        StackOp::PushState => push_frame(frames),
        StackOp::Activate(m) => set_top(frames, m),
        StackOp::PopState => pop_frame(frames),
    }
}

/// The frames after a sequence of steps, taken in order.
pub open spec fn run(frames: Seq<Set<Modifier>>, ops: Seq<StackOp>) -> Seq<Set<Modifier>>
    decreases ops.len(),
{
    if ops.len() == 0 {
        frames
    } else {
        run(step(frames, ops[0]), ops.drop_first())
    }
}

/// Whether `ops`, entered with `open` scopes of its own already open, is
/// correctly nested: every `Pop` closes a scope that the sequence opened,
/// every `Set` happens inside such a scope, and none is left open at the end.
pub open spec fn nested(ops: Seq<StackOp>, open: nat) -> bool
    decreases ops.len(),
{
    if ops.len() == 0 {
        open == 0
    } else {
        match ops[0] {
            StackOp::PushState => nested(ops.drop_first(), open + 1),
            StackOp::Activate(_) => open >= 1 && nested(ops.drop_first(), open),
            StackOp::PopState => open >= 1 && nested(ops.drop_first(), (open - 1) as nat),
        }
    }
}

/// A sequence that is correctly nested above `scopes` leaves `outer` as it
/// found it, whatever it did to the scopes on top.
proof fn lemma_nested_above(outer: Seq<Set<Modifier>>, scopes: Seq<Set<Modifier>>, ops: Seq<StackOp>)
    requires
        outer.len() >= 1,
        nested(ops, scopes.len()),
    ensures
        run(outer + scopes, ops) == outer,
    decreases ops.len(),
{
    let frames = outer + scopes;
    if ops.len() == 0 {
        assert(frames =~= outer);
    } else {
        let rest = ops.drop_first();
        match ops[0] {
            StackOp::PushState => {
                let grown = scopes.push(frames.last());
                assert(push_frame(frames) =~= outer + grown);
                lemma_nested_above(outer, grown, rest);
            },
            StackOp::Activate(m) => {
                let changed = scopes.update(scopes.len() - 1, frames.last().insert(m));
                assert(set_top(frames, m) =~= outer + changed);
                lemma_nested_above(outer, changed, rest);
            },
            StackOp::PopState => {
                let shrunk = scopes.drop_last();
                assert(pop_frame(frames) =~= outer + shrunk);
                lemma_nested_above(outer, shrunk, rest);
            },
        }
    }
}

/// Stack balance: a correctly nested sequence of push, set and pop steps
/// leaves every frame, and so the set of active modifiers, as it was before
/// the sequence began.
pub proof fn lemma_balanced_run_restores(frames: Seq<Set<Modifier>>, ops: Seq<StackOp>)
    requires
        frames.len() >= 1,
        nested(ops, 0),
    ensures
        run(frames, ops) == frames,
        run(frames, ops).last() == frames.last(),
{
    assert(frames + Seq::<Set<Modifier>>::empty() =~= frames);
    lemma_nested_above(frames, Seq::empty(), ops);
}

/// Whether `modifier` occurs in `frame`.
pub(crate) fn frame_contains(frame: &Vec<Modifier>, modifier: Modifier) -> (found: bool)
    ensures
        found == frame@.to_set().contains(modifier),
{
    let mut i: usize = 0;
    while i < frame.len()
        invariant
            i <= frame.len(),
            forall|j: int| 0 <= j < i ==> frame@[j] != modifier,
        decreases frame.len() - i,
    {
        if frame[i] == modifier {
            assert(frame@.contains(modifier));
            return true;
        }
        i += 1;
    }
    false
}

/// A copy of `frame`, modifier by modifier.
pub(crate) fn copy_frame(frame: &Vec<Modifier>) -> (copy: Vec<Modifier>)
    ensures
        copy@ == frame@,
{
    let mut copy: Vec<Modifier> = Vec::new();
    let mut i: usize = 0;
    while i < frame.len()
        invariant
            i <= frame.len(),
            copy@ == frame@.take(i as int),
        decreases frame.len() - i,
    {
        copy.push(frame[i]);
        assert(frame@.take(i + 1) =~= frame@.take(i as int).push(frame@[i as int]));
        i += 1;
    }
    assert(frame@.take(frame.len() as int) =~= frame@);
    copy
}

/// The stack of modifier scopes that a canvas owns.
///
/// Its view is the sequence of frames, base frame first. The base frame is
/// always there, so the view is never empty.
pub struct ModifierStack {
    below: Vec<Vec<Modifier>>,
    top: Vec<Modifier>,
}

impl View for ModifierStack {
    type V = Seq<Set<Modifier>>;

    closed spec fn view(&self) -> Seq<Set<Modifier>> {
        Seq::new(
            (self.below.len() + 1) as nat,
            |i: int|
                if i < self.below.len() {
                    self.below@[i]@.to_set()
                } else {
                    self.top@.to_set()
                },
        )
    }
}

impl ModifierStack {
    /// A stack that holds the base frame alone, with no modifier active.
    pub fn new() -> (stack: ModifierStack)
        ensures
            stack@ == seq![Set::<Modifier>::empty()],
    {
        let stack = ModifierStack { below: Vec::new(), top: Vec::new() };
        assert(stack.top@.to_set() =~= Set::<Modifier>::empty());
        assert(stack@ =~= seq![Set::<Modifier>::empty()]);
        stack
    }

    /// The base frame always exists.
    pub proof fn lemma_never_empty(&self)
        ensures
            self@.len() >= 1,
    {
    }

    /// The number of scopes open above the base frame.
    pub fn open_scopes(&self) -> (n: usize)
        ensures
            n == self@.len() - 1,
    {
        self.below.len()
    }

    /// Whether `modifier` is active in the top frame.
    pub fn is_active(&self, modifier: Modifier) -> (active: bool)
        ensures
            active == self@.last().contains(modifier),
    {
        frame_contains(&self.top, modifier)
    }

    /// The modifiers of the top frame.
    pub fn active(&self) -> (frame: Vec<Modifier>)
        ensures
            frame@.to_set() == self@.last(),
    {
        copy_frame(&self.top)
    }

    /// Activates `modifier` in the top frame. Setting a modifier that is
    /// already active changes nothing.
    pub fn set(&mut self, modifier: Modifier)
        ensures
            final(self)@ == set_top(old(self)@, modifier),
    {
        if !frame_contains(&self.top, modifier) {
            self.top.push(modifier);
            proof {
                old(self).top@.lemma_push_to_set_commute(modifier);
            }
        }
        assert(self.top@.to_set() =~= old(self).top@.to_set().insert(modifier));
        assert(self@ =~= set_top(old(self)@, modifier));
    }

    /// Opens a scope: the new top frame starts as a copy of the old one.
    pub fn push_state(&mut self)
        ensures
            final(self)@ == push_frame(old(self)@),
    {
        let inherited = copy_frame(&self.top);
        self.below.push(inherited);
        assert(self@ =~= push_frame(old(self)@));
    }

    /// Closes the top scope and brings back the frame below it. The base
    /// frame cannot be closed: asked to, the stack stays as it is and the
    /// call fails with `StateUnderflow`.
    pub fn pop_state(&mut self) -> (r: Result<(), CanvasError>)
        ensures
            old(self)@.len() > 1 ==> r is Ok && final(self)@ == pop_frame(old(self)@),
            old(self)@.len() <= 1 ==> r == Err::<(), CanvasError>(CanvasError::StateUnderflow)
                && final(self)@ == old(self)@,
    {
        match self.below.pop() {
            Some(frame) => {
                self.top = frame;
                assert(self@ =~= pop_frame(old(self)@));
                Ok(())
            },
            None => Err(CanvasError::StateUnderflow),
        }
    }
}

} // verus!
