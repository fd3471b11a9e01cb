use vstd::prelude::*;

verus! {

/// The solid colors of the color sheet.
#[derive(Copy, Clone, Debug, PartialEq, Eq, Structural)]
pub enum ColorRenderableKind {
    Blank,
    BorderInner,
    BorderCenter,
    BorderOuter,
    Background,
    RadarPrize,
    RadarPortal,
    RadarTeamFlag,
    RadarSelfFlagCarry,
    RadarSelf,
    RadarTeammate,
    RadarTeammateFlagCarry,
    RadarEnemyFlagCarry,
    RadarEnemyTarget,
    RadarEnemy,
    RadarBomb,
    RadarDecoy,
    RadarExplosion,
}

/// The row of a color in the color sheet.
pub open spec fn color_row(kind: ColorRenderableKind) -> u32 {
    match kind {
        ColorRenderableKind::Blank => 0,
        ColorRenderableKind::BorderInner => 1,
        ColorRenderableKind::BorderCenter => 2,
        ColorRenderableKind::BorderOuter => 3,
        ColorRenderableKind::Background => 16,
        ColorRenderableKind::RadarPrize => 23,
        ColorRenderableKind::RadarPortal => 25,
        ColorRenderableKind::RadarTeamFlag => 26,
        ColorRenderableKind::RadarSelfFlagCarry => 27,
        ColorRenderableKind::RadarSelf => 28,
        ColorRenderableKind::RadarTeammate => 29,
        ColorRenderableKind::RadarTeammateFlagCarry => 30,
        ColorRenderableKind::RadarEnemyFlagCarry => 31,
        ColorRenderableKind::RadarEnemyTarget => 33,
        ColorRenderableKind::RadarEnemy => 34,
        ColorRenderableKind::RadarBomb => 35,
        ColorRenderableKind::RadarDecoy => 36,
        ColorRenderableKind::RadarExplosion => 37,
    }
}

impl ColorRenderableKind {
    pub fn row(&self) -> (r: u32)
        ensures
            r == color_row(*self),
    {
        match self {
            ColorRenderableKind::Blank => 0,
            ColorRenderableKind::BorderInner => 1,
            ColorRenderableKind::BorderCenter => 2,
            ColorRenderableKind::BorderOuter => 3,
            ColorRenderableKind::Background => 16,
            ColorRenderableKind::RadarPrize => 23,
            ColorRenderableKind::RadarPortal => 25,
            ColorRenderableKind::RadarTeamFlag => 26,
            ColorRenderableKind::RadarSelfFlagCarry => 27,
            ColorRenderableKind::RadarSelf => 28,
            ColorRenderableKind::RadarTeammate => 29,
            ColorRenderableKind::RadarTeammateFlagCarry => 30,
            ColorRenderableKind::RadarEnemyFlagCarry => 31,
            ColorRenderableKind::RadarEnemyTarget => 33,
            ColorRenderableKind::RadarEnemy => 34,
            ColorRenderableKind::RadarBomb => 35,
            ColorRenderableKind::RadarDecoy => 36,
            ColorRenderableKind::RadarExplosion => 37,
        }
    }
}

/// A rectangle of pixels filled with one color.
#[derive(Copy, Clone, Debug, PartialEq, Eq, Structural)]
pub struct ColorRect {
    pub kind: ColorRenderableKind,
    pub x: i32,
    pub y: i32,
    pub width: i32,
    pub height: i32,
}

pub open spec fn rect(kind: ColorRenderableKind, x: int, y: int, width: int, height: int) -> ColorRect {
    ColorRect { kind, x: x as i32, y: y as i32, width: width as i32, height: height as i32 }
}

/// The rectangles of a three-pixel border whose inner line starts at
/// `(sx, sy)` and ends at `(ex, ey)`: for the top, the bottom, the left and
/// the right in turn, its inner line, its center line one pixel out and its
/// outer line two pixels out; then, when asked for, the background inside.
pub open spec fn border_layout(sx: int, sy: int, ex: int, ey: int, inner_background: bool) -> Seq<ColorRect> {
    let w = ex - sx;
    let h = ey - sy;
    let frame = seq![
        rect(ColorRenderableKind::BorderInner, sx, sy, w + 1, 1),
        rect(ColorRenderableKind::BorderCenter, sx - 1, sy - 1, w + 2, 1),
        rect(ColorRenderableKind::BorderOuter, sx, sy - 2, w, 1),
        rect(ColorRenderableKind::BorderInner, sx, sy + h, w + 1, 1),
        rect(ColorRenderableKind::BorderCenter, sx - 1, sy + h + 1, w + 2, 1),
        rect(ColorRenderableKind::BorderOuter, sx, sy + h + 2, w, 1),
        rect(ColorRenderableKind::BorderInner, sx, sy, 1, h + 1),
        rect(ColorRenderableKind::BorderCenter, sx - 1, sy - 1, 1, h + 2),
        rect(ColorRenderableKind::BorderOuter, sx - 2, sy, 1, h),
        rect(ColorRenderableKind::BorderInner, sx + w, sy, 1, h + 1),
        rect(ColorRenderableKind::BorderCenter, sx + w + 1, sy - 1, 1, h + 2),
        rect(ColorRenderableKind::BorderOuter, sx + w + 2, sy, 1, h),
    ];
    if inner_background {
        frame.push(rect(ColorRenderableKind::Background, sx + 1, sy + 1, w - 1, h - 1))
    } else {
        frame
    }
}

/// The rectangles that draw a border, in drawing order.
pub fn border_rects(
    start_x_pixels: i32,
    start_y_pixels: i32,
    end_x_pixels: i32,
    end_y_pixels: i32,
    inner_background: bool,
) -> (r: Vec<ColorRect>)
    requires
        i32::MIN + 2 <= start_x_pixels,
        i32::MIN + 2 <= start_y_pixels,
        end_x_pixels <= i32::MAX - 2,
        end_y_pixels <= i32::MAX - 2,
        i32::MIN + 1 <= end_x_pixels - start_x_pixels <= i32::MAX - 2,
        i32::MIN + 1 <= end_y_pixels - start_y_pixels <= i32::MAX - 2,
        inner_background ==> start_x_pixels < i32::MAX && start_y_pixels < i32::MAX,
    ensures
        r@ == border_layout(start_x_pixels as int, start_y_pixels as int, end_x_pixels as int, end_y_pixels as int, inner_background),
{
    let sx = start_x_pixels;
    let sy = start_y_pixels;
    let width = end_x_pixels - start_x_pixels;
    let height = end_y_pixels - start_y_pixels;
    let mut r: Vec<ColorRect> = Vec::new();
    r.push(ColorRect { kind: ColorRenderableKind::BorderInner, x: sx, y: sy, width: width + 1, height: 1 });
    r.push(ColorRect { kind: ColorRenderableKind::BorderCenter, x: sx - 1, y: sy - 1, width: width + 2, height: 1 });
    r.push(ColorRect { kind: ColorRenderableKind::BorderOuter, x: sx, y: sy - 2, width, height: 1 });
    r.push(ColorRect { kind: ColorRenderableKind::BorderInner, x: sx, y: sy + height, width: width + 1, height: 1 });
    r.push(ColorRect { kind: ColorRenderableKind::BorderCenter, x: sx - 1, y: sy + height + 1, width: width + 2, height: 1 });
    r.push(ColorRect { kind: ColorRenderableKind::BorderOuter, x: sx, y: sy + height + 2, width, height: 1 });
    r.push(ColorRect { kind: ColorRenderableKind::BorderInner, x: sx, y: sy, width: 1, height: height + 1 });
    r.push(ColorRect { kind: ColorRenderableKind::BorderCenter, x: sx - 1, y: sy - 1, width: 1, height: height + 2 });
    r.push(ColorRect { kind: ColorRenderableKind::BorderOuter, x: sx - 2, y: sy, width: 1, height });
    r.push(ColorRect { kind: ColorRenderableKind::BorderInner, x: sx + width, y: sy, width: 1, height: height + 1 });
    r.push(ColorRect { kind: ColorRenderableKind::BorderCenter, x: sx + width + 1, y: sy - 1, width: 1, height: height + 2 });
    r.push(ColorRect { kind: ColorRenderableKind::BorderOuter, x: sx + width + 2, y: sy, width: 1, height });
    if inner_background {
        r.push(ColorRect { kind: ColorRenderableKind::Background, x: sx + 1, y: sy + 1, width: width - 1, height: height - 1 });
    }
    proof {
        assert(r@ =~= border_layout(sx as int, sy as int, end_x_pixels as int, end_y_pixels as int, inner_background));
    }
    r
}

} // verus!
