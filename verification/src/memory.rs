//! A canvas held in memory.
//!
//! It keeps what was drawn as a list of strokes, the latest last, and
//! answers for what a console would show: a surface to draw on where no
//! console is at hand. A write off the surface is dropped.

use crate::canvas::{CanvasState, Cell, Clipping, ConsoleCanvas};
use crate::stack::{copy_frame, frame_contains, CanvasError, ModifierStack};
use crate::style::Modifier;
use vstd::prelude::*;

verus! {

/// What a cell holds, as a value that can be handed out: its code point and
/// the modifiers it was drawn in.
#[derive(Debug)]
pub struct Glyph {
    pub ch: char,
    pub style: Vec<Modifier>,
}

impl Glyph {
    /// The cell that this glyph stands for.
    pub open spec fn cell(&self) -> Cell {
        Cell { ch: self.ch, style: self.style@.to_set() }
    }

    /// Whether the glyph was drawn with `modifier` active.
    pub fn has(&self, modifier: Modifier) -> (found: bool)
        ensures
            found == self.cell().style.contains(modifier),
    {
        frame_contains(&self.style, modifier)
    }
}

/// One write to the surface.
struct Stroke {
    x: usize,
    y: usize,
    glyph: Glyph,
}

impl Stroke {
    spec fn place(&self) -> (usize, usize) {
        (self.x, self.y)
    }
}

/// The cells that a list of strokes leaves: of two strokes on one cell the
/// later one counts.
spec fn cells_of(strokes: Seq<Stroke>) -> Map<(usize, usize), Cell>
    decreases strokes.len(),
{
    if strokes.len() == 0 {
        Map::empty()
    } else {
        cells_of(strokes.drop_last()).insert(strokes.last().place(), strokes.last().glyph.cell())
    }
}

/// Strokes that rewrite the same cells with the same glyphs leave the same
/// cells.
proof fn lemma_cells_of_alike(a: Seq<Stroke>, b: Seq<Stroke>)
    requires
        a.len() == b.len(),
        forall|i: int|
            0 <= i < a.len() ==> a[i].place() == b[i].place() && a[i].glyph.cell()
                == b[i].glyph.cell(),
    ensures
        cells_of(a) == cells_of(b),
    decreases a.len(),
{
    if a.len() > 0 {
        lemma_cells_of_alike(a.drop_last(), b.drop_last());
    }
}

/// The strokes from `from` on do not touch `place`, so the cell there is
/// what the strokes before `from` left.
proof fn lemma_cells_of_untouched(strokes: Seq<Stroke>, from: int, place: (usize, usize))
    requires
        0 <= from <= strokes.len(),
        forall|j: int| from <= j < strokes.len() ==> strokes[j].place() != place,
    ensures
        cells_of(strokes).contains_key(place) == cells_of(strokes.take(from)).contains_key(place),
        cells_of(strokes).contains_key(place) ==> cells_of(strokes)[place] == cells_of(
            strokes.take(from),
        )[place],
    decreases strokes.len(),
{
    if from == strokes.len() {
        assert(strokes.take(from) =~= strokes);
    } else {
        let front = strokes.drop_last();
        assert(front.take(from) =~= strokes.take(from));
        lemma_cells_of_untouched(front, from, place);
    }
}

/// The glyph that `strokes` leave at `(x, y)`, if any.
fn find_glyph(strokes: &Vec<Stroke>, x: usize, y: usize) -> (found: Option<Glyph>)
    ensures
        found is Some == cells_of(strokes@).contains_key((x, y)),
        found is Some ==> found->0.cell() == cells_of(strokes@)[(x, y)],
{
    let mut i: usize = strokes.len();
    while i > 0
        invariant
            i <= strokes.len(),
            forall|j: int| i <= j < strokes.len() ==> strokes@[j].place() != (x, y),
        decreases i,
    {
        i -= 1;
        if strokes[i].x == x && strokes[i].y == y {
            let glyph = Glyph { ch: strokes[i].glyph.ch, style: copy_frame(&strokes[i].glyph.style) };
            proof {
                lemma_cells_of_untouched(strokes@, i + 1, (x, y));
                assert(strokes@.take(i + 1).drop_last() =~= strokes@.take(i as int));
            }
            return Some(glyph);
        }
    }
    proof {
        lemma_cells_of_untouched(strokes@, 0, (x, y));
        assert(strokes@.take(0) =~= Seq::<Stroke>::empty());
    }
    None
}

/// A copy of `strokes` that leaves the same cells.
fn copy_strokes(strokes: &Vec<Stroke>) -> (copy: Vec<Stroke>)
    ensures
        cells_of(copy@) == cells_of(strokes@),
{
    let mut copy: Vec<Stroke> = Vec::new();
    let mut i: usize = 0;
    while i < strokes.len()
        invariant
            i <= strokes.len(),
            copy@.len() == i,
            forall|j: int|
                0 <= j < i ==> copy@[j].place() == strokes@[j].place() && copy@[j].glyph.cell()
                    == strokes@[j].glyph.cell(),
        decreases strokes.len() - i,
    {
        let glyph = Glyph { ch: strokes[i].glyph.ch, style: copy_frame(&strokes[i].glyph.style) };
        copy.push(Stroke { x: strokes[i].x, y: strokes[i].y, glyph });
        i += 1;
    }
    proof {
        lemma_cells_of_alike(copy@, strokes@);
    }
    copy
}

/// Adds `stroke` as the latest.
fn record(strokes: &mut Vec<Stroke>, stroke: Stroke)
    ensures
        cells_of(final(strokes)@) == cells_of(old(strokes)@).insert(
            stroke.place(),
            stroke.glyph.cell(),
        ),
{
    strokes.push(stroke);
    assert(strokes@.drop_last() =~= old(strokes)@);
}

/// A canvas that draws into memory.
pub struct MemoryCanvas {
    stack: ModifierStack,
    drawn: Vec<Stroke>,
    front: Vec<Stroke>,
    cursor: (usize, usize),
    width: usize,
    height: usize,
    custom_colors: bool,
}

impl MemoryCanvas {
    /// A blank canvas of the given size, with the base frame alone on its
    /// stack, no modifier active and the cursor in the top left corner.
    pub fn new(width: usize, height: usize, custom_colors: bool) -> (canvas: MemoryCanvas)
        ensures
            canvas.state() == (CanvasState {
                frames: seq![Set::<Modifier>::empty()],
                buffer: Map::empty(),
                shown: Map::empty(),
                cursor: (0, 0),
                width,
                height,
                custom_colors,
            }),
    {
        MemoryCanvas {
            stack: ModifierStack::new(),
            drawn: Vec::new(),
            front: Vec::new(),
            cursor: (0, 0),
            width,
            height,
            custom_colors,
        }
    }

    /// The number of modifier scopes open above the base frame.
    pub fn open_scopes(&self) -> (n: usize)
        ensures
            n == self.state().depth() - 1,
    {
        self.stack.open_scopes()
    }

    /// Whether `modifier` is active.
    pub fn is_active(&self, modifier: Modifier) -> (active: bool)
        ensures
            active == self.state().active().contains(modifier),
    {
        self.stack.is_active(modifier)
    }

    /// What has been drawn at `(x, y)` since the surface was last cleared,
    /// or `None` where the cell is blank.
    pub fn drawn_at(&self, x: usize, y: usize) -> (glyph: Option<Glyph>)
        ensures
            glyph is Some == self.state().buffer.contains_key((x, y)),
            glyph is Some ==> glyph->0.cell() == self.state().buffer[(x, y)],
    {
        find_glyph(&self.drawn, x, y)
    }

    /// What the visible surface holds at `(x, y)`, or `None` where the cell
    /// is blank.
    pub fn shown_at(&self, x: usize, y: usize) -> (glyph: Option<Glyph>)
        ensures
            glyph is Some == self.state().shown.contains_key((x, y)),
            glyph is Some ==> glyph->0.cell() == self.state().shown[(x, y)],
    {
        find_glyph(&self.front, x, y)
    }

    /// Where the cursor stands.
    pub fn cursor_at(&self) -> (place: (usize, usize))
        ensures
            place == self.state().cursor,
    {
        self.cursor
    }

    /// Gives the surface a new size. What was drawn stays where it is.
    pub fn resize(&mut self, width: usize, height: usize)
        ensures
            final(self).state() == (CanvasState { width, height, ..old(self).state() }),
    {
        self.width = width;
        self.height = height;
    }
}

impl Clipping for MemoryCanvas {
    open spec fn off_surface(state: CanvasState, x: usize, y: usize, c: char) -> Map<
        (usize, usize),
        Cell,
    > {
        state.buffer
    }
}

impl ConsoleCanvas for MemoryCanvas {
    closed spec fn state(&self) -> CanvasState {
        CanvasState {
            frames: self.stack@,
            buffer: cells_of(self.drawn@),
            shown: cells_of(self.front@),
            cursor: self.cursor,
            width: self.width,
            height: self.height,
            custom_colors: self.custom_colors,
        }
    }

    proof fn lemma_base_frame(&self) {
        self.stack.lemma_never_empty();
    }

    fn draw_char(&mut self, x: usize, y: usize, c: char) {
        if x < self.width && y < self.height {
            let style = self.stack.active();
            record(&mut self.drawn, Stroke { x, y, glyph: Glyph { ch: c, style } });
        }
    }

    fn clear(&mut self) {
        self.drawn = Vec::new();
    }

    fn set(&mut self, modifier: Modifier) {
        self.stack.set(modifier);
    }

    fn push_state(&mut self) {
        self.stack.push_state();
    }

    fn pop_state(&mut self) -> (r: Result<(), CanvasError>) {
        self.stack.pop_state()
    }

    fn supports_custom_colors(&self) -> (r: bool) {
        self.custom_colors
    }

    fn present(&mut self)
        ensures
            final(self).state().buffer == old(self).state().buffer,
    {
        self.front = copy_strokes(&self.drawn);
    }

    fn cursor(&mut self, x: usize, y: usize) {
        self.cursor = (x, y);
    }

    fn width(&self) -> (w: usize) {
        self.width
    }

    fn height(&self) -> (h: usize) {
        self.height
    }
}

} // verus!
