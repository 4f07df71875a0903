//! A backend-independent model of text-mode console rendering and input.
//!
//! The crate fixes what a console backend owes its callers: a canvas with a
//! stack of modifier scopes, and a stream of input updates. Every operation
//! is stated over a mathematical model of the canvas, so that code written
//! against the traits can be verified without knowing the backend.

pub mod canvas;
pub mod input;
pub mod memory;
pub mod stack;
pub mod style;

pub use canvas::{CanvasState, Cell, Clipping, ConsoleCanvas};
pub use input::{ConsoleInput, SpecialKey, Update, UpdateQueue};
pub use memory::{Glyph, MemoryCanvas};
pub use stack::{CanvasError, ModifierStack, StackOp};
pub use style::{Color, Modifier};
