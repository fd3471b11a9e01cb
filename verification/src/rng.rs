use vstd::prelude::*;

verus! {

/// The seed that follows `seed` in the Park-Miller style generator used by
/// the game (Schrage's method with modulus 0x7FFFFFFF, plus 0x7B).
pub open spec fn next_seed(seed: i32) -> i32 {
    let s = seed as u32 as int;
    let v = ((s % 0x1F31D) * 0x41A7 - (s / 0x1F31D) * 0xB14 + 0x7B) % 0x1_0000_0000;
    let w = if v >= 0x8000_0000 { (v + 0x7FFF_FFFF) % 0x1_0000_0000 } else { v };
    w as u32 as i32
}

/// The seed that `next_encrypt` moves to from `seed`.
pub open spec fn next_encrypt_seed(seed: i32) -> i32 {
    let hi = ((seed as u64 as int * 0x834E0B5F) % 0x1_0000_0000_0000_0000) / 0x1_0000_0000_0000;
    let q = (hi + hi / 0x8000_0000) % 0x1_0000_0000;
    let s = seed as u32 as int;
    let v = ((s % 0x1F31D) * 0x41A7 - q * 0xB14 + 0x7B) % 0x1_0000_0000;
    let w = if v >= 0x8000_0000 { (v + 0x7FFF_FFFF) % 0x1_0000_0000 } else { v };
    w as u32 as i32
}

#[derive(Copy, Clone, Debug)]
pub struct VieRng {
    pub seed: i32,
}

impl VieRng {
    pub fn new(seed: i32) -> (r: VieRng)
        ensures
            r.seed == seed,
    {
        VieRng { seed }
    }

    /// Advances the generator and returns the new seed as unsigned.
    pub fn next(&mut self) -> (r: u32)
        ensures
            final(self).seed == next_seed(old(self).seed),
            r == final(self).seed as u32,
    {
        self.seed = self.peek_next();
        self.seed as u32
    }

    /// The value `next` would produce, leaving the generator unchanged.
    pub fn peek_next(&self) -> (r: i32)
        ensures
            r == next_seed(self.seed),
    {
        let new_seed = self.seed as u32;
        let a = (new_seed % 0x1F31D).wrapping_mul(0x41A7);
        let b = (new_seed / 0x1F31D).wrapping_mul(0xB14);
        let mut new_seed = a.wrapping_sub(b).wrapping_add(0x7B);
        assert((new_seed >> 31u32 > 0) == (new_seed >= 0x8000_0000)) by (bit_vector);
        if (new_seed >> 31) > 0 {
            new_seed = new_seed.wrapping_add(0x7FFFFFFF);
        }
        proof {
            let s = self.seed as u32 as int;
            assert(s % 0x1F31D < 0x1F31D);
            assert((s % 0x1F31D) * 0x41A7 < 0x1_0000_0000) by (nonlinear_arith)
                requires s % 0x1F31D < 0x1F31D, s % 0x1F31D >= 0;
            assert(s / 0x1F31D <= 0x8545) by (nonlinear_arith)
                requires 0 <= s < 0x1_0000_0000;
            assert((s / 0x1F31D) * 0xB14 < 0x1_0000_0000) by (nonlinear_arith)
                requires 0 <= s / 0x1F31D <= 0x8545;
        }
        new_seed as i32
    }

    /// Advances the generator with the variant used by the packet cipher
    /// and returns the low 16 bits of the new seed.
    pub fn next_encrypt(&mut self) -> (r: u16)
        ensures
            final(self).seed == next_encrypt_seed(old(self).seed),
            r == final(self).seed as u16,
    {
        let old_seed: u64 = self.seed as u64;
        let prod = old_seed.wrapping_mul(0x834E0B5F);
        let hi = prod >> 48;
        assert(prod >> 48u64 == prod / 0x1_0000_0000_0000) by (bit_vector);
        assert(prod >> 48u64 <= 0xFFFF) by (bit_vector);
        let new_seed = hi as u32;
        assert(new_seed >> 31u32 == new_seed / 0x8000_0000) by (bit_vector);
        let new_seed = new_seed.wrapping_add(new_seed >> 31);
        let old_seed = self.seed as u32;
        let a = (old_seed % 0x1F31D).wrapping_mul(0x41A7);
        let b = new_seed.wrapping_mul(0xB14);
        let mut new_seed2 = a.wrapping_sub(b).wrapping_add(0x7B);
        assert((new_seed2 >> 31u32 > 0) == (new_seed2 >= 0x8000_0000)) by (bit_vector);
        if (new_seed2 >> 31) > 0 {
            new_seed2 = new_seed2.wrapping_add(0x7FFFFFFF);
        }
        proof {
            let s = old_seed as int;
            assert((s % 0x1F31D) * 0x41A7 < 0x1_0000_0000) by (nonlinear_arith)
                requires s % 0x1F31D < 0x1F31D, s % 0x1F31D >= 0;
        }
        self.seed = new_seed2 as i32;
        self.seed as u16
    }
}

} // verus!
