use vstd::prelude::*;

verus! {

/// Horizontal alignment of rendered text lines.
#[derive(Debug, Clone, Copy, PartialEq, Eq, Structural)]
pub enum TextAlign {
    Left,
    Center,
    Right,
}

impl Default for TextAlign {
    /// Text is left-aligned unless a style says otherwise.
    fn default() -> (a: Self)
        ensures
            a == TextAlign::Left,
    {
        TextAlign::Left
    }
}

} // verus!
