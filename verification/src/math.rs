use vstd::prelude::*;

verus! {

/// Largest coordinate of the world, in position units (1024 tiles of 16000).
pub const MAX_POSITION: i32 = 16384000;

/// Rust's `/` on integers: the quotient rounded toward zero.
pub open spec fn trunc_div(a: int, b: int) -> int {
    if a >= 0 { a / b } else { -((-a) / b) }
}

proof fn lemma_div_negative_divisor(a: int, b: int)
    requires
        a >= 0,
        b < 0,
    ensures
        a / b == -(a / (-b)),
{
    let q = a / (-b);
    let r = a % (-b);
    vstd::arithmetic::div_mod::lemma_fundamental_div_mod(a, -b);
    assert(a == b * (-q) + r) by (nonlinear_arith)
        requires
            a == (-b) * q + r;
    assert(a / b == -q) by (nonlinear_arith)
        requires
            a == b * (-q) + r,
            0 <= r < -b,
            b < 0;
}

/// Rust's `/` on `i32`, for any divisor but 0 and any quotient that fits.
pub fn div_i32(a: i32, b: i32) -> (r: i32)
    requires
        b != 0,
        !(a == i32::MIN && b == -1),
    ensures
        r == trunc_div(a as int, b as int),
{
    let x = a as i64;
    let y = b as i64;
    let ax: i64 = if x < 0 { -x } else { x };
    let ay: i64 = if y < 0 { -y } else { y };
    let q = ax / ay;
    proof {
        if y < 0 {
            if x >= 0 {
                lemma_div_negative_divisor(x as int, y as int);
            } else {
                lemma_div_negative_divisor(-x, y as int);
            }
        }
        assert(0 <= q <= ax) by (nonlinear_arith)
            requires
                q == ax / ay,
                ax >= 0,
                ay >= 1;
        assert(ay >= 2 ==> q <= 1073741824) by (nonlinear_arith)
            requires
                q == ax / ay,
                0 <= ax <= 2147483648,
                ay >= 1;
    }
    let r: i64 = if (x < 0) == (y < 0) { q } else { -q };
    assert(r == trunc_div(a as int, b as int));
    r as i32
}

/// Rust's `/` on `i64`, for any divisor but 0 and any quotient that fits.
pub fn div_i64(a: i64, b: i64) -> (r: i64)
    requires
        b != 0,
        !(a == i64::MIN && b == -1),
    ensures
        r == trunc_div(a as int, b as int),
{
    let x = a as i128;
    let y = b as i128;
    let ax: i128 = if x < 0 { -x } else { x };
    let ay: i128 = if y < 0 { -y } else { y };
    let q = ax / ay;
    proof {
        if y < 0 {
            if x >= 0 {
                lemma_div_negative_divisor(x as int, y as int);
            } else {
                lemma_div_negative_divisor(-x, y as int);
            }
        }
        assert(0 <= q <= ax) by (nonlinear_arith)
            requires
                q == ax / ay,
                ax >= 0,
                ay >= 1;
        assert(ay >= 2 ==> q <= 0x4000_0000_0000_0000) by (nonlinear_arith)
            requires
                q == ax / ay,
                0 <= ax <= 0x8000_0000_0000_0000,
                ay >= 1;
    }
    let r: i128 = if (x < 0) == (y < 0) { q } else { -q };
    assert(r == trunc_div(a as int, b as int));
    r as i64
}

/// `a + b` clamped to the range of `i32`.
pub open spec fn sat_i32(v: int) -> i32 {
    if v > i32::MAX { i32::MAX } else if v < i32::MIN { i32::MIN } else { v as i32 }
}

/// `v` clamped to `[0, MAX_POSITION]`.
pub open spec fn clamp_world(v: int) -> i32 {
    if v > MAX_POSITION { MAX_POSITION } else if v < 0 { 0 } else { v as i32 }
}

/// A length in screen pixels.
#[derive(Debug, Copy, Clone)]
pub struct PixelUnit(pub i32);

/// A length in position units: 1000 per pixel, 16000 per tile.
#[derive(Debug, Copy, Clone)]
pub struct PositionUnit(pub i32);

impl PixelUnit {
    pub fn from_position_unit(value: PositionUnit) -> (r: PixelUnit)
        ensures
            r.0 == trunc_div(value.0 as int, 1000),
    {
        PixelUnit(value.0 / 1000)
    }
}

impl PositionUnit {
    pub fn from_pixel_unit(value: PixelUnit) -> (r: PositionUnit)
        requires
            -2147483 <= value.0 <= 2147483,
        ensures
            r.0 == value.0 * 1000,
    {
        PositionUnit(value.0 * 1000)
    }

    /// Sum clamped to the range of `i32`.
    pub fn saturating_add(self, rhs: PositionUnit) -> (r: PositionUnit)
        ensures
            r.0 == sat_i32(self.0 + rhs.0),
    {
        let v: i64 = self.0 as i64 + rhs.0 as i64;
        if v > i32::MAX as i64 {
            PositionUnit(i32::MAX)
        } else if v < i32::MIN as i64 {
            PositionUnit(i32::MIN)
        } else {
            PositionUnit(v as i32)
        }
    }

    /// Difference clamped to the range of `i32`.
    pub fn saturating_sub(self, rhs: PositionUnit) -> (r: PositionUnit)
        ensures
            r.0 == sat_i32(self.0 - rhs.0),
    {
        let v: i64 = self.0 as i64 - rhs.0 as i64;
        if v > i32::MAX as i64 {
            PositionUnit(i32::MAX)
        } else if v < i32::MIN as i64 {
            PositionUnit(i32::MIN)
        } else {
            PositionUnit(v as i32)
        }
    }
}

/// A point in the world, in position units.
#[derive(Debug, Copy, Clone)]
pub struct Position {
    pub x: PositionUnit,
    pub y: PositionUnit,
}

/// The tile that holds position coordinate `v`.
pub open spec fn tile_of(v: i32) -> u16 {
    trunc_div(v as int, 16000) as u16
}

impl Position {
    pub fn empty() -> (r: Position)
        ensures
            r.x.0 == 0 && r.y.0 == 0,
    {
        Position { x: PositionUnit(0), y: PositionUnit(0) }
    }

    pub fn new(x: PositionUnit, y: PositionUnit) -> (r: Position)
        ensures
            r.x == x && r.y == y,
    {
        Position { x, y }
    }

    pub fn from_pixels(x: PixelUnit, y: PixelUnit) -> (r: Position)
        requires
            -2147483 <= x.0 <= 2147483,
            -2147483 <= y.0 <= 2147483,
        ensures
            r.x.0 == x.0 * 1000 && r.y.0 == y.0 * 1000,
    {
        Position { x: PositionUnit::from_pixel_unit(x), y: PositionUnit::from_pixel_unit(y) }
    }

    pub fn from_tile(x: i32, y: i32) -> (r: Position)
        requires
            -134217 <= x <= 134217,
            -134217 <= y <= 134217,
        ensures
            r.x.0 == x * 16000 && r.y.0 == y * 16000,
    {
        Position { x: PositionUnit(x * 16000), y: PositionUnit(y * 16000) }
    }

    /// The tile that holds this position.
    pub fn to_tile(&self) -> (r: (u16, u16))
        ensures
            r.0 == tile_of(self.x.0),
            r.1 == tile_of(self.y.0),
    {
        let x_tile = (self.x.0 / 16000) as u16;
        let y_tile = (self.y.0 / 16000) as u16;
        (x_tile, y_tile)
    }

    /// Sum of two positions, each coordinate clamped to the world.
    pub fn clamped_add(self, rhs: Position) -> (r: Position)
        requires
            i32::MIN <= self.x.0 + rhs.x.0 <= i32::MAX,
            i32::MIN <= self.y.0 + rhs.y.0 <= i32::MAX,
        ensures
            r.x.0 == clamp_world(self.x.0 + rhs.x.0),
            r.y.0 == clamp_world(self.y.0 + rhs.y.0),
    {
        let x = clamp_to_world(self.x.0 + rhs.x.0);
        let y = clamp_to_world(self.y.0 + rhs.y.0);
        Position::new(PositionUnit(x), PositionUnit(y))
    }

    /// Difference of two positions, each coordinate clamped to the world.
    pub fn clamped_sub(self, rhs: Position) -> (r: Position)
        requires
            i32::MIN <= self.x.0 - rhs.x.0 <= i32::MAX,
            i32::MIN <= self.y.0 - rhs.y.0 <= i32::MAX,
        ensures
            r.x.0 == clamp_world(self.x.0 - rhs.x.0),
            r.y.0 == clamp_world(self.y.0 - rhs.y.0),
    {
        let x = clamp_to_world(self.x.0 - rhs.x.0);
        let y = clamp_to_world(self.y.0 - rhs.y.0);
        Position::new(PositionUnit(x), PositionUnit(y))
    }
}

fn clamp_to_world(v: i32) -> (r: i32)
    ensures
        r == clamp_world(v as int),
{
    let m = if v < MAX_POSITION { v } else { MAX_POSITION };
    if m > 0 { m } else { 0 }
}

#[derive(Debug, Copy, Clone)]
pub struct Velocity {
    pub x: PositionUnit,
    pub y: PositionUnit,
}

impl Velocity {
    pub fn new(x: PositionUnit, y: PositionUnit) -> (r: Velocity)
        ensures
            r.x == x && r.y == y,
    {
        Velocity { x, y }
    }

    pub fn empty() -> (r: Velocity)
        ensures
            r.x.0 == 0 && r.y.0 == 0,
    {
        Velocity { x: PositionUnit(0), y: PositionUnit(0) }
    }

    pub fn clear(&mut self)
        ensures
            final(self).x.0 == 0 && final(self).y.0 == 0,
    {
        self.x = PositionUnit(0);
        self.y = PositionUnit(0);
    }
}

#[derive(Copy, Clone, Debug)]
pub struct Vector2i {
    pub x: i32,
    pub y: i32,
}

impl Vector2i {
    pub fn new(x: i32, y: i32) -> (r: Vector2i)
        ensures
            r.x == x && r.y == y,
    {
        Vector2i { x, y }
    }

    pub fn plus(self, rhs: Vector2i) -> (r: Vector2i)
        requires
            i32::MIN <= self.x + rhs.x <= i32::MAX,
            i32::MIN <= self.y + rhs.y <= i32::MAX,
        ensures
            r.x == self.x + rhs.x && r.y == self.y + rhs.y,
    {
        Vector2i { x: self.x + rhs.x, y: self.y + rhs.y }
    }

    pub fn minus(self, rhs: Vector2i) -> (r: Vector2i)
        requires
            i32::MIN <= self.x - rhs.x <= i32::MAX,
            i32::MIN <= self.y - rhs.y <= i32::MAX,
        ensures
            r.x == self.x - rhs.x && r.y == self.y - rhs.y,
    {
        Vector2i { x: self.x - rhs.x, y: self.y - rhs.y }
    }
}

/// An axis-aligned box in position units.
#[derive(Copy, Clone, Debug)]
pub struct Rectangle {
    pub min: Position,
    pub max: Position,
}

/// Two boxes overlap with a non-empty interior.
pub open spec fn rects_intersect(a: Rectangle, b: Rectangle) -> bool {
    &&& a.max.x.0 > b.min.x.0
    &&& a.min.x.0 < b.max.x.0
    &&& a.max.y.0 > b.min.y.0
    &&& a.min.y.0 < b.max.y.0
}

/// The point lies strictly inside the box.
pub open spec fn rect_contains(a: Rectangle, p: Position) -> bool {
    p.x.0 > a.min.x.0 && p.x.0 < a.max.x.0 && p.y.0 > a.min.y.0 && p.y.0 < a.max.y.0
}

impl Rectangle {
    pub fn new(min: Position, max: Position) -> (r: Rectangle)
        ensures
            r.min == min && r.max == max,
    {
        Rectangle { min, max }
    }

    pub fn empty() -> (r: Rectangle)
        ensures
            r.min.x.0 == 0 && r.min.y.0 == 0 && r.max.x.0 == 0 && r.max.y.0 == 0,
    {
        Rectangle {
            min: Position::new(PositionUnit(0), PositionUnit(0)),
            max: Position::new(PositionUnit(0), PositionUnit(0)),
        }
    }

    /// A box that contains nothing and intersects nothing.
    pub fn invalid() -> (r: Rectangle)
        ensures
            r.min.x.0 == i32::MAX && r.min.y.0 == i32::MAX,
            r.max.x.0 == i32::MIN && r.max.y.0 == i32::MIN,
    {
        Rectangle {
            min: Position::new(PositionUnit(i32::MAX), PositionUnit(i32::MAX)),
            max: Position::new(PositionUnit(i32::MIN), PositionUnit(i32::MIN)),
        }
    }

    /// The box of half-width `radius` around `center`, clamped to `i32`.
    pub fn from_radius(center: Position, radius: PositionUnit) -> (r: Rectangle)
        ensures
            r.min.x.0 == sat_i32(center.x.0 - radius.0),
            r.min.y.0 == sat_i32(center.y.0 - radius.0),
            r.max.x.0 == sat_i32(center.x.0 + radius.0),
            r.max.y.0 == sat_i32(center.y.0 + radius.0),
    {
        let min_x = center.x.saturating_sub(radius);
        let min_y = center.y.saturating_sub(radius);
        let max_x = center.x.saturating_add(radius);
        let max_y = center.y.saturating_add(radius);
        Rectangle { min: Position::new(min_x, min_y), max: Position::new(max_x, max_y) }
    }

    pub fn intersects(&self, other: &Rectangle) -> (r: bool)
        ensures
            r == rects_intersect(*self, *other),
    {
        let first_min_x = self.min.x.0;
        let first_min_y = self.min.y.0;
        let first_max_x = self.max.x.0;
        let first_max_y = self.max.y.0;
        let second_min_x = other.min.x.0;
        let second_min_y = other.min.y.0;
        let second_max_x = other.max.x.0;
        let second_max_y = other.max.y.0;
        first_max_x > second_min_x && first_min_x < second_max_x && first_max_y > second_min_y
            && first_min_y < second_max_y
    }

    pub fn contains(&self, other: Position) -> (r: bool)
        ensures
            r == rect_contains(*self, other),
    {
        let ox = other.x.0;
        let oy = other.y.0;
        ox > self.min.x.0 && ox < self.max.x.0 && oy > self.min.y.0 && oy < self.max.y.0
    }
}

/// Overlap of boxes does not depend on the order they are named in.
pub proof fn lemma_intersects_symmetric(a: Rectangle, b: Rectangle)
    ensures
        rects_intersect(a, b) == rects_intersect(b, a),
{
}

/// The invalid box intersects no box and contains no point.
pub proof fn lemma_invalid_is_empty(r: Rectangle, other: Rectangle, p: Position)
    requires
        r.min.x.0 == i32::MAX && r.min.y.0 == i32::MAX,
        r.max.x.0 == i32::MIN && r.max.y.0 == i32::MIN,
    ensures
        !rects_intersect(r, other),
        !rect_contains(r, p),
{
}

} // verus!
