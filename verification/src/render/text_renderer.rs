use vstd::prelude::*;

verus! {

/// The colors of the text font, in the order of the font sheet's rows.
#[derive(Copy, Clone, Debug, PartialEq, Eq, Structural)]
pub enum TextColor {
    White,
    Green,
    Blue,
    DarkRed,
    Yellow,
    Fuchsia,
    Red,
    Pink,
}

/// The font sheet row of a text color.
pub open spec fn text_color_index(c: TextColor) -> usize {
    match c {
        TextColor::White => 0,
        TextColor::Green => 1,
        TextColor::Blue => 2,
        TextColor::DarkRed => 3,
        TextColor::Yellow => 4,
        TextColor::Fuchsia => 5,
        TextColor::Red => 6,
        TextColor::Pink => 7,
    }
}

impl TextColor {
    pub fn index(&self) -> (r: usize)
        ensures
            r == text_color_index(*self),
    {
        match self {
            TextColor::White => 0,
            TextColor::Green => 1,
            TextColor::Blue => 2,
            TextColor::DarkRed => 3,
            TextColor::Yellow => 4,
            TextColor::Fuchsia => 5,
            TextColor::Red => 6,
            TextColor::Pink => 7,
        }
    }
}

#[derive(Copy, Clone, Debug, PartialEq, Eq, Structural)]
pub enum TextAlignment {
    Left,
    Center,
    Right,
}

#[derive(Copy, Clone, Debug, PartialEq, Eq, Structural)]
pub enum FontKind {
    Normal,
    Large,
}

} // verus!
