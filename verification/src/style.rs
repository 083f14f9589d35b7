//! The style model: a requested visual rendering for subsequently written
//! text, made of a foreground color, a background color and an intensity
//! flag. A pure value type with no behavior beyond equality and copying.

use vstd::prelude::*;

verus! {

/// A terminal color. `Default` means "use the terminal's default color",
/// distinct from every explicit color.
#[derive(Clone, Copy, Debug, PartialEq, Eq, Structural)]
pub enum Color {
    Black,
    Red,
    Green,
    Yellow,
    Blue,
    Magenta,
    Cyan,
    White,
    Default,
}

/// A requested text style: foreground color, background color, and whether
/// the text should be rendered with high intensity.
#[derive(Clone, Copy, Debug, PartialEq, Eq, Structural)]
pub struct Style {
    pub text: Color,
    pub background: Color,
    pub intense: bool,
}

} // verus!
