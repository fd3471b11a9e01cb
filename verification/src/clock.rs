use vstd::prelude::*;

verus! {

/// A point in game time, counted in hundredths of a second on a 32-bit
/// wrapping counter.
#[derive(Copy, Clone, Debug, PartialEq, Eq, Structural)]
pub struct GameTick {
    pub value: u32,
}

/// Signed distance in ticks from `b` to `a` on the wrapping counter.
pub open spec fn tick_diff(a: u32, b: u32) -> i32 {
    let d = (a as int - b as int) % 0x1_0000_0000;
    if d >= 0x8000_0000 {
        (d - 0x1_0000_0000) as i32
    } else {
        d as i32
    }
}

/// The tick `ticks` after `a` on the wrapping counter.
pub open spec fn tick_add(a: u32, ticks: int) -> u32 {
    ((a as int + ticks) % 0x1_0000_0000) as u32
}

impl GameTick {
    pub fn empty() -> (r: GameTick)
        ensures
            r.value == 0,
    {
        GameTick { value: 0 }
    }

    pub fn new(value: u32) -> (r: GameTick)
        ensures
            r.value == value,
    {
        GameTick { value }
    }

    pub fn value(&self) -> (r: u32)
        ensures
            r == self.value,
    {
        self.value
    }

    /// Signed number of ticks from `other` to `self`.
    pub fn diff(&self, other: &GameTick) -> (r: i32)
        ensures
            r == tick_diff(self.value, other.value),
    {
        let d = self.value.wrapping_sub(other.value);
        if d >= 0x8000_0000 {
            let n: i64 = d as i64 - 0x1_0000_0000i64;
            n as i32
        } else {
            d as i32
        }
    }

    /// The tick that lies `ticks` after this one.
    pub fn plus(&self, ticks: i32) -> (r: GameTick)
        ensures
            r.value == tick_add(self.value, ticks as int),
    {
        let v: u32 = if ticks >= 0 {
            self.value.wrapping_add(ticks as u32)
        } else {
            let back: u32 = (0i64 - ticks as i64) as u32;
            self.value.wrapping_sub(back)
        };
        GameTick { value: v }
    }

    /// True when `self` is at or after `other`.
    pub fn is_at_or_after(&self, other: &GameTick) -> (r: bool)
        ensures
            r == (tick_diff(self.value, other.value) >= 0),
    {
        self.diff(other) >= 0
    }

    /// True when `self` is strictly after `other`.
    pub fn is_after(&self, other: &GameTick) -> (r: bool)
        ensures
            r == (tick_diff(self.value, other.value) > 0),
    {
        self.diff(other) > 0
    }
}

/// Going `ticks` forward and measuring back gives `ticks` again, for any
/// distance a signed 32-bit count can hold.
pub proof fn lemma_plus_then_diff(a: u32, ticks: i32)
    ensures
        tick_diff(tick_add(a, ticks as int), a) == ticks,
{
    let q = (a as int + ticks) / 0x1_0000_0000;
    let b = tick_add(a, ticks as int);
    assert(b as int == a as int + ticks - 0x1_0000_0000 * q);
    vstd::arithmetic::div_mod::lemma_mod_multiples_vanish(-q, ticks as int, 0x1_0000_0000);
}

/// Measuring between two ticks either way gives opposite distances, except
/// for the one distance, half the counter, whose opposite does not fit.
pub proof fn lemma_diff_antisymmetric(a: u32, b: u32)
    requires
        tick_diff(a, b) != i32::MIN,
    ensures
        tick_diff(b, a) == -tick_diff(a, b),
{
    let d1 = (a as int - b as int) % 0x1_0000_0000;
    let d2 = (b as int - a as int) % 0x1_0000_0000;
    if a == b {
        assert(d1 == 0 && d2 == 0);
    } else if a > b {
        assert(d1 == a - b);
        assert(d2 == 0x1_0000_0000 - (a - b));
    } else {
        assert(d2 == b - a);
        assert(d1 == 0x1_0000_0000 - (b - a));
    }
}

} // verus!
