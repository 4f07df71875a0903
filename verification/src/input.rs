//! Console input: keyboard and resize events as one stream of updates.

use std::collections::VecDeque;
use vstd::prelude::*;

verus! {

/// A key that stands for no printable character.
#[derive(Clone, Copy, Debug, PartialEq, Eq, Structural, Hash)]
pub enum SpecialKey {
    F1,
    F2,
    F3,
    F4,
    F5,
    F6,
    F7,
    F8,
    F9,
    F10,
    F11,
    F12,
    Insert,
    Delete,
    Home,
    End,
    PgUp,
    PgDown,
    ArrowUp,
    ArrowDown,
    ArrowLeft,
    ArrowRight,
    CtrlTilde,
    /// Control held down together with the given character.
    CtrlPlus(char),
    Backspace,
    Tab,
    Enter,
    Esc,
    Space,
}

/// One event from the console.
#[derive(Clone, Copy, Debug, PartialEq, Eq, Structural, Hash)]
pub enum Update {
    /// A key that gives a printable code point.
    Character(char),
    /// A key that gives none.
    Special(SpecialKey),
    /// The surface changed size: its new width and height, in cells.
    Resize(usize, usize),
}

/// A stream of updates, pulled one at a time.
///
/// Updates come in the order in which the backend observed them, each one
/// once: nothing is reordered, repeated or handed out again.
pub trait ConsoleInput {
    /// The updates that the stream has yet to yield, oldest first.
    spec fn pending(&self) -> Seq<Update>;

    /// Takes the oldest pending update, or returns `None` where the stream
    /// has nothing more to give.
    fn next_update(&mut self) -> (update: Option<Update>)
        ensures
            old(self).pending().len() > 0 ==> update == Some(old(self).pending()[0])
                && final(self).pending() == old(self).pending().drop_first(),
            old(self).pending().len() == 0 ==> update is None && final(self).pending() == old(
                self,
            ).pending(),
    ;
}

/// An input stream held in memory: updates are fed in at one end and pulled
/// out at the other.
pub struct UpdateQueue {
    waiting: VecDeque<Update>,
}

impl UpdateQueue {
    /// A stream with nothing pending.
    pub fn new() -> (queue: UpdateQueue)
        ensures
            queue.pending() == Seq::<Update>::empty(),
    {
        UpdateQueue { waiting: VecDeque::new() }
    }

    /// Records `update` as observed after everything fed before.
    pub fn feed(&mut self, update: Update)
        ensures
            final(self).pending() == old(self).pending().push(update),
    {
        self.waiting.push_back(update);
    }

    /// How many updates are pending.
    pub fn len(&self) -> (n: usize)
        ensures
            n == self.pending().len(),
    {
        self.waiting.len()
    }
}

impl ConsoleInput for UpdateQueue {
    closed spec fn pending(&self) -> Seq<Update> {
        self.waiting@
    }

    fn next_update(&mut self) -> (update: Option<Update>) {
        let update = self.waiting.pop_front();
        proof {
            if update is Some {
                assert(self.waiting@ =~= old(self).waiting@.drop_first());
            }
        }
        update
    }
}

} // verus!
