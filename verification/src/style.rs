//! Colors and text modifiers: plain values, compared field by field.

use vstd::prelude::*;

verus! {

/// A color for the foreground or the background of a cell.
///
/// The eight named colors are available on every console. `Custom` carries
/// red, green and blue channels and may be unavailable on some consoles:
/// ask `supports_custom_colors` before relying on it.
#[derive(Clone, Copy, Debug, PartialEq, Eq, Structural, Hash)]
pub enum Color {
    Black,
    Red,
    Green,
    Yellow,
    Blue,
    Magenta,
    Cyan,
    White,
    Custom(usize, usize, usize),
}

/// A style attribute applied to the characters drawn after it is set.
#[derive(Clone, Copy, Debug, PartialEq, Eq, Structural, Hash)]
pub enum Modifier {
    Bold,
    Underline,
    TextColor(Color),
    BackgroundColor(Color),
}

impl Color {
    /// Whether this is a `Custom` color rather than one of the eight named ones.
    pub open spec fn is_custom(self) -> bool {
        self is Custom
    }
}

impl Modifier {
    /// Whether the modifier carries a `Custom` color.
    pub open spec fn spec_uses_custom_color(self) -> bool {
        match self {
            Modifier::TextColor(c) => c.is_custom(),
            Modifier::BackgroundColor(c) => c.is_custom(),
            _ => false,
        }
    }

    /// Whether the modifier carries a `Custom` color, which only some
    /// consoles can render.
    #[verifier::when_used_as_spec(spec_uses_custom_color)]
    pub fn uses_custom_color(self) -> (r: bool)
        ensures
            r == self.spec_uses_custom_color(),
    {
        match self {
            Modifier::TextColor(Color::Custom(_, _, _)) => true,
            Modifier::BackgroundColor(Color::Custom(_, _, _)) => true,
            _ => false,
        }
    }
}

/// Two `Custom` text colors are the same modifier exactly when they agree
/// in all three channels.
pub proof fn lemma_custom_text_color_equality(a: (usize, usize, usize), b: (usize, usize, usize))
    ensures
        (Modifier::TextColor(Color::Custom(a.0, a.1, a.2)) == Modifier::TextColor(
            Color::Custom(b.0, b.1, b.2),
        )) <==> a == b,
{
}

} // verus!
