use vstd::prelude::*;

use crate::math::{PixelUnit, Position, PositionUnit};
use crate::powerball::{is_team_goal, team_goal};

verus! {

/// What the radar picture was last built for; a change means rebuilding it.
#[derive(Copy, Clone, Debug, PartialEq, Eq, Structural)]
pub struct RadarBuildParameters {
    pub mapzoom: u16,
    pub width: u32,
    pub height: u32,
    pub frequency: u16,
    pub powerball_mode: u8,
}

impl RadarBuildParameters {
    pub fn empty() -> (r: RadarBuildParameters)
        ensures
            r.mapzoom == 0 && r.width == 0 && r.height == 0,
            r.frequency == 0xFFFF,
            r.powerball_mode == 0,
    {
        RadarBuildParameters { mapzoom: 0, width: 0, height: 0, frequency: 0xFFFF, powerball_mode: 0 }
    }
}

/// The radar color of tile `id` at (x, y), as 0xAARRGGBB: empty space for
/// no tile and for ids past 241, green for safe zones, a goal in light
/// blue when it is our team's and dark blue otherwise, grey for doors and
/// dark grey for everything else.
pub open spec fn radar_tile_color(id: u8, x: u16, y: u16, frequency: u16, powerball_mode: u8) -> u32 {
    if id == 0 || id > 241 {
        0xFF0A190A
    } else if id == 171 {
        0xFF185218
    } else if id == 172 {
        let position = Position { x: PositionUnit((x * 16000) as i32), y: PositionUnit((y * 16000) as i32) };
        if team_goal(powerball_mode, position, frequency) { 0xFF219CAD } else { 0xFF0839FF }
    } else if 162 <= id <= 169 {
        0xFFADADAD
    } else {
        0xFF5A5A5A
    }
}

pub fn get_radar_tile_color(id: u8, x: u16, y: u16, frequency: u16, powerball_mode: u8) -> (r: u32)
    ensures
        r == radar_tile_color(id, x, y, frequency, powerball_mode),
{
    if id == 0 || id > 241 {
        0xFF0A190A
    } else if id == 171 {
        0xFF185218
    } else if id == 172 {
        let position = Position::from_pixels(PixelUnit(x as i32 * 16), PixelUnit(y as i32 * 16));
        if is_team_goal(powerball_mode, position, frequency) { 0xFF219CAD } else { 0xFF0839FF }
    } else if id >= 162 && id <= 169 {
        0xFFADADAD
    } else {
        0xFF5A5A5A
    }
}

} // verus!
