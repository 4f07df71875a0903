//! The canvas contract: what every console backend provides, and the
//! operations that are built from it.

use crate::stack::{pop_frame, push_frame, set_top, CanvasError};
use crate::style::Modifier;
use vstd::prelude::*;

verus! {

/// What one cell of the surface holds: a code point, and the modifiers that
/// were active when it was drawn.
pub struct Cell {
    pub ch: char,
    pub style: Set<Modifier>,
}

/// The mathematical model of a canvas.
pub struct CanvasState {
    /// The modifier scopes, base frame first.
    pub frames: Seq<Set<Modifier>>,
    /// The cells drawn since the surface was last cleared, not yet shown
    /// unless `present` has run since. A cell without an entry is blank.
    pub buffer: Map<(usize, usize), Cell>,
    /// The cells on the visible surface.
    pub shown: Map<(usize, usize), Cell>,
    /// Where the terminal cursor stands.
    pub cursor: (usize, usize),
    pub width: usize,
    pub height: usize,
    /// Whether the backend renders `Custom` colors.
    pub custom_colors: bool,
}

impl CanvasState {
    /// The modifiers in effect: those of the top frame.
    pub open spec fn active(self) -> Set<Modifier> {
        self.frames.last()
    }

    /// The number of frames, the base frame included.
    pub open spec fn depth(self) -> nat {
        self.frames.len()
    }

    /// Whether the cell `(x, y)` lies on the surface.
    pub open spec fn on_surface(self, x: usize, y: usize) -> bool {
        x < self.width && y < self.height
    }

    /// The state after a scope is opened.
    pub open spec fn pushed(self) -> CanvasState {
        CanvasState { frames: push_frame(self.frames), ..self }
    }

    /// The state after `modifier` is set in the top frame.
    pub open spec fn with_modifier(self, modifier: Modifier) -> CanvasState {
        CanvasState { frames: set_top(self.frames, modifier), ..self }
    }

    /// The state after the top scope is closed, or the state itself where
    /// only the base frame is left.
    pub open spec fn popped(self) -> CanvasState {
        CanvasState { frames: pop_frame(self.frames), ..self }
    }

    /// The state after the cursor is moved to `(x, y)`.
    pub open spec fn with_cursor(self, x: usize, y: usize) -> CanvasState {
        CanvasState { cursor: (x, y), ..self }
    }

    /// The state after the surface is cleared: every cell is blank.
    pub open spec fn cleared(self) -> CanvasState {
        CanvasState { buffer: Map::empty(), ..self }
    }

    /// Whether the console renders `modifier` as it is meant: always, unless
    /// the modifier carries a `Custom` color and the console has none.
    pub open spec fn renders(self, modifier: Modifier) -> bool {
        self.custom_colors || !modifier.spec_uses_custom_color()
    }

    /// Whether `next` differs from `self` in its cells at most.
    pub open spec fn same_but_cells(self, next: CanvasState) -> bool {
        &&& next.frames == self.frames
        &&& next.cursor == self.cursor
        &&& next.width == self.width
        &&& next.height == self.height
        &&& next.custom_colors == self.custom_colors
    }
}

/// What a backend makes of a write off its surface.
pub trait Clipping {
    /// The buffer that a write of `c` at `(x, y)`, a cell off the surface,
    /// leaves behind. The backend decides: it may drop the write or keep it.
    spec fn off_surface(state: CanvasState, x: usize, y: usize, c: char) -> Map<
        (usize, usize),
        Cell,
    >;
}

/// The state after `c` is drawn at `(x, y)` on a canvas of type `C`. On the
/// surface the cell takes the code point and the active modifiers. Off the
/// surface the backend decides what becomes of the buffer; nothing else
/// changes.
pub open spec fn drawn_char<C: Clipping>(
    state: CanvasState,
    x: usize,
    y: usize,
    c: char,
) -> CanvasState {
    if state.on_surface(x, y) {
        CanvasState {
            buffer: state.buffer.insert((x, y), Cell { ch: c, style: state.active() }),
            ..state
        }
    } else {
        CanvasState { buffer: C::off_surface(state, x, y, c), ..state }
    }
}

/// The state after `text` is drawn from `(x, y)` to the right: its code
/// points one by one, each one cell further right than the one before.
pub open spec fn drawn<C: Clipping>(
    state: CanvasState,
    x: usize,
    y: usize,
    text: Seq<char>,
) -> CanvasState
    decreases text.len(),
{
    if text.len() == 0 {
        state
    } else {
        drawn_char::<C>(
            drawn::<C>(state, x, y, text.drop_last()),
            (x + text.len() - 1) as usize,
            y,
            text.last(),
        )
    }
}

/// Drawing `head + tail` is drawing `head`, then `tail` from the cell where
/// `head` ended.
pub proof fn lemma_drawn_concat<C: Clipping>(
    state: CanvasState,
    x: usize,
    y: usize,
    head: Seq<char>,
    tail: Seq<char>,
)
    requires
        x + head.len() + tail.len() <= usize::MAX + 1,
    ensures
        drawn::<C>(state, x, y, head + tail) == drawn::<C>(
            drawn::<C>(state, x, y, head),
            (x + head.len()) as usize,
            y,
            tail,
        ),
    decreases tail.len(),
{
    if tail.len() == 0 {
        assert(head + tail =~= head);
    } else {
        assert((head + tail).drop_last() =~= head + tail.drop_last());
        lemma_drawn_concat::<C>(state, x, y, head, tail.drop_last());
    }
}

/// Drawing a text of three code points is drawing the first at `(x, y)`, the
/// second at `(x + 1, y)` and the third at `(x + 2, y)`.
pub proof fn lemma_drawn_three<C: Clipping>(
    state: CanvasState,
    x: usize,
    y: usize,
    a: char,
    b: char,
    c: char,
)
    requires
        x + 2 <= usize::MAX,
    ensures
        drawn::<C>(state, x, y, seq![a, b, c]) == drawn_char::<C>(
            drawn_char::<C>(drawn_char::<C>(state, x, y, a), (x + 1) as usize, y, b),
            (x + 2) as usize,
            y,
            c,
        ),
{
    let abc = seq![a, b, c];
    let ab = seq![a, b];
    let only_a = seq![a];
    assert(abc.drop_last() =~= ab);
    assert(ab.drop_last() =~= only_a);
    assert(only_a.drop_last() =~= Seq::<char>::empty());
    assert(drawn::<C>(state, x, y, Seq::<char>::empty()) == state);
    assert(drawn::<C>(state, x, y, only_a) == drawn_char::<C>(state, x, y, a));
    assert(drawn::<C>(state, x, y, ab) == drawn_char::<C>(
        drawn::<C>(state, x, y, only_a),
        (x + 1) as usize,
        y,
        b,
    ));
}

/// A drawable console surface.
///
/// A backend implements the primitives. `draw` and `with_state` are built
/// from them and behave alike on every backend.
pub trait ConsoleCanvas: Clipping + Sized {
    /// The model of this canvas.
    spec fn state(&self) -> CanvasState;

    /// The base frame exists for as long as the canvas does.
    proof fn lemma_base_frame(&self)
        ensures
            self.state().depth() >= 1,
    ;

    /// Draws one code point at the cell `(x, y)`, in the active modifiers.
    fn draw_char(&mut self, x: usize, y: usize, c: char)
        ensures
            final(self).state() == drawn_char::<Self>(old(self).state(), x, y, c),
    ;

    /// Clears the surface. What a blank cell looks like is up to the backend.
    fn clear(&mut self)
        ensures
            final(self).state() == old(self).state().cleared(),
    ;

    /// Activates `modifier` in the top frame, for all that is drawn until the
    /// frame is popped.
    fn set(&mut self, modifier: Modifier)
        ensures
            final(self).state() == old(self).state().with_modifier(modifier),
    ;

    /// Opens a modifier scope, which inherits the active modifiers.
    fn push_state(&mut self)
        ensures
            final(self).state() == old(self).state().pushed(),
    ;

    /// Closes the top modifier scope: the modifiers are again what they were
    /// when it was opened. With the base frame alone on the stack the call
    /// fails with `StateUnderflow` and changes nothing.
    fn pop_state(&mut self) -> (r: Result<(), CanvasError>)
        ensures
            old(self).state().depth() > 1 ==> r is Ok && final(self).state() == old(
                self,
            ).state().popped(),
            old(self).state().depth() <= 1 ==> r == Err::<(), CanvasError>(
                CanvasError::StateUnderflow,
            ) && final(self).state() == old(self).state(),
    ;

    /// Whether the console renders `Custom` colors. Where it does not, what a
    /// `Custom` color looks like is up to the backend.
    fn supports_custom_colors(&self) -> (r: bool)
        ensures
            r == self.state().custom_colors,
    ;

    /// Shows everything drawn so far, all at once. What the buffer holds
    /// afterwards is up to the backend.
    fn present(&mut self)
        ensures
            final(self).state().shown == old(self).state().buffer,
            old(self).state().same_but_cells(final(self).state()),
    ;

    /// Places the terminal cursor at `(x, y)`.
    fn cursor(&mut self, x: usize, y: usize)
        ensures
            final(self).state() == old(self).state().with_cursor(x, y),
    ;

    /// The width of the surface, in cells.
    fn width(&self) -> (w: usize)
        ensures
            w == self.state().width,
    ;

    /// The height of the surface, in cells.
    fn height(&self) -> (h: usize)
        ensures
            h == self.state().height,
    ;

    /// Draws `text` from `(x, y)` to the right, one cell per code point,
    /// without wrapping. The result is that of drawing its code points one by
    /// one with `draw_char`.
    ///
    /// The last code point must have a column: `x + len - 1` fits in `usize`.
    fn draw(&mut self, x: usize, y: usize, text: &str)
        requires
            text@.len() == 0 || x + text@.len() - 1 <= usize::MAX,
        ensures
            final(self).state() == drawn::<Self>(old(self).state(), x, y, text@),
    {
        let mut column: usize = x;
        for c in it: text.chars()
            invariant
                it.seq() == text@,
                text@.len() == 0 || x + text@.len() - 1 <= usize::MAX,
                it.index() < text@.len() ==> column == x + it.index(),
                self.state() == drawn::<Self>(old(self).state(), x, y, text@.take(it.index())),
        {
            let ghost i = it.index();
            self.draw_char(column, y, c);
            proof {
                let done = text@.take(i + 1);
                assert(done.drop_last() =~= text@.take(i));
                assert(done.last() == c);
            }
            if column < usize::MAX {
                column += 1;
            }
        }
        proof {
            assert(text@.take(text@.len() as int) =~= text@);
        }
    }

    /// Activates `modifier` like `set`, but only where the console renders
    /// it. A modifier with a `Custom` color, on a console without custom
    /// colors, is refused with `UnsupportedColor` and nothing changes.
    fn try_set(&mut self, modifier: Modifier) -> (r: Result<(), CanvasError>)
        ensures
            old(self).state().renders(modifier) ==> r is Ok && final(self).state() == old(
                self,
            ).state().with_modifier(modifier),
            !old(self).state().renders(modifier) ==> r == Err::<(), CanvasError>(
                CanvasError::UnsupportedColor,
            ) && final(self).state() == old(self).state(),
    {
        if modifier.uses_custom_color() && !self.supports_custom_colors() {
            Err(CanvasError::UnsupportedColor)
        } else {
            self.set(modifier);
            Ok(())
        }
    }

    /// Runs `f` inside a modifier scope of its own: opens a scope, calls `f`
    /// with the canvas, and closes a scope whatever `f` returned.
    ///
    /// The canvas ends as `f` left it, less its top scope. Where `f` closed
    /// the scope itself, only the base frame may be left to close: then the
    /// result is `StateUnderflow`. Otherwise it is what `f` returned.
    ///
    /// Where `f` always leaves as many frames as it found, the call succeeds
    /// and the depth is what it was before. Where `f` moreover leaves the
    /// frames below its own as they were, so are all frames after the call:
    /// no modifier leaks out of the scope.
    fn with_state<R, F: FnOnce(&mut Self) -> R>(&mut self, f: F) -> (out: Result<R, CanvasError>)
        requires
            forall|c: &mut Self|
                c.state() == old(self).state().pushed() ==> #[trigger] f.requires((c,)),
        ensures
            exists|c: &mut Self, r: R|
                {
                    &&& c.state() == old(self).state().pushed()
                    &&& #[trigger] f.ensures((c,), r)
                    &&& final(self).state() == final(c).state().popped()
                    &&& out == if final(c).state().depth() > 1 {
                        Ok::<R, CanvasError>(r)
                    } else {
                        Err::<R, CanvasError>(CanvasError::StateUnderflow)
                    }
                },
            (forall|c: &mut Self, r: R|
                c.state() == old(self).state().pushed() && #[trigger] f.ensures((c,), r)
                    ==> final(c).state().depth() == c.state().depth()) ==> out is Ok
                && final(self).state().depth() == old(self).state().depth(),
            (forall|c: &mut Self, r: R|
                c.state() == old(self).state().pushed() && #[trigger] f.ensures((c,), r)
                    ==> final(c).state().depth() == c.state().depth()
                    && final(c).state().frames.drop_last() == c.state().frames.drop_last())
                ==> final(self).state().frames == old(self).state().frames,
    {
        proof {
            self.lemma_base_frame();
            assert(push_frame(self.state().frames).drop_last() =~= self.state().frames);
        }
        self.push_state();
        let r = f(self);
        match self.pop_state() {
            Ok(()) => Ok(r),
            Err(e) => Err(e),
        }
    }
}

} // verus!
