use vstd::prelude::*;

verus! {

/// A point of the screen that on-screen objects are placed relative to.
#[derive(Copy, Clone, Debug, PartialEq, Eq, Structural)]
pub enum ReferencePoint {
    TopLeft,
    ScreenCenter,
    BottomRight,
    StatBoxBottomRight,
    SpecialsTopRight,
    SpecialsBottomRight,
    EnergyBelow,
    ChatTopLeft,
    RadarTopLeft,
    RadarTextTopLeft,
    WeaponsTop,
    WeaponsBottom,
}

/// The reference point numbered `value` in level files; unknown numbers
/// mean the top left corner.
pub open spec fn reference_point_of(value: u16) -> ReferencePoint {
    if value == 1 {
        ReferencePoint::ScreenCenter
    } else if value == 2 {
        ReferencePoint::BottomRight
    } else if value == 3 {
        ReferencePoint::StatBoxBottomRight
    } else if value == 4 {
        ReferencePoint::SpecialsTopRight
    } else if value == 5 {
        ReferencePoint::SpecialsBottomRight
    } else if value == 6 {
        ReferencePoint::EnergyBelow
    } else if value == 7 {
        ReferencePoint::ChatTopLeft
    } else if value == 8 {
        ReferencePoint::RadarTopLeft
    } else if value == 9 {
        ReferencePoint::RadarTextTopLeft
    } else if value == 10 {
        ReferencePoint::WeaponsTop
    } else if value == 11 {
        ReferencePoint::WeaponsBottom
    } else {
        ReferencePoint::TopLeft
    }
}

impl ReferencePoint {
    pub fn from_value(value: u16) -> (r: ReferencePoint)
        ensures
            r == reference_point_of(value),
    {
        match value {
            1 => ReferencePoint::ScreenCenter,
            2 => ReferencePoint::BottomRight,
            3 => ReferencePoint::StatBoxBottomRight,
            4 => ReferencePoint::SpecialsTopRight,
            5 => ReferencePoint::SpecialsBottomRight,
            6 => ReferencePoint::EnergyBelow,
            7 => ReferencePoint::ChatTopLeft,
            8 => ReferencePoint::RadarTopLeft,
            9 => ReferencePoint::RadarTextTopLeft,
            10 => ReferencePoint::WeaponsTop,
            11 => ReferencePoint::WeaponsBottom,
            _ => ReferencePoint::TopLeft,
        }
    }
}

/// Drawing failed because the graphics device went away.
#[derive(Copy, Clone, Debug, PartialEq, Eq, Structural)]
pub enum RenderError {
    LostDevice,
}

} // verus!
