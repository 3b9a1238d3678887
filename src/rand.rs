use vstd::prelude::*;

verus! {

/// The splitmix64 increment.
pub const GOLDEN_GAMMA: u64 = 0x9E3779B97F4A7C15;

/// `a * b` modulo 2⁶⁴.
pub open spec fn mul_wrap(a: u64, b: u64) -> u64 {
    ((a as nat * b as nat) % 0x1_0000_0000_0000_0000) as u64
}

/// The state after one draw: the old state plus the increment, modulo 2⁶⁴.
pub open spec fn next_state(s: u64) -> u64 {
    ((s as nat + GOLDEN_GAMMA as nat) % 0x1_0000_0000_0000_0000) as u64
}

/// The splitmix64 output function.
pub open spec fn mix64(z: u64) -> u64 {
    let z1 = mul_wrap(z ^ (z >> 30u64), 0xBF58476D1CE4E5B9);
    let z2 = mul_wrap(z1 ^ (z1 >> 27u64), 0x94D049BB133111EB);
    z2 ^ (z2 >> 31u64)
}

/// A splitmix64 pseudo-random generator.
pub struct Rand {
    state: u64,
}

impl Rand {
    pub closed spec fn state(&self) -> u64 {
        self.state
    }

    /// A generator seeded with 0.
    pub fn new() -> (r: Rand)
        ensures
            r.state() == 0,
    {
        Rand { state: 0 }
    }

    pub fn new_with_seed(seed: u64) -> (r: Rand)
        ensures
            r.state() == seed,
    {
        Rand { state: seed }
    }

    /// Advances the state and returns the mixed new state.
    pub fn next_u64(&mut self) -> (r: u64)
        ensures
            final(self).state() == next_state(old(self).state()),
            r == mix64(final(self).state()),
    {
        self.state = self.state.wrapping_add(GOLDEN_GAMMA);
        let mut z: u64 = self.state;
        z = (z ^ (z >> 30u64)).wrapping_mul(0xBF58476D1CE4E5B9);
        z = (z ^ (z >> 27u64)).wrapping_mul(0x94D049BB133111EB);
        z ^ (z >> 31u64)
    }

    /// The low 32 bits of `next_u64`.
    pub fn next_u32(&mut self) -> (r: u32)
        ensures
            final(self).state() == next_state(old(self).state()),
            r == mix64(final(self).state()) % 0x1_0000_0000,
    {
        let v = self.next_u64();
        let low = v & 0xffff_ffffu64;
        assert(low == v % 0x1_0000_0000 && low < 0x1_0000_0000) by (bit_vector)
            requires
                low == v & 0xffff_ffffu64,
        ;
        low as u32
    }

    /// A coin with one chance in four of `true`: scaling `next_u32() / u32::MAX` to `[-2, 2)`
    /// and truncating gives a positive value exactly when the draw is at least
    /// `3 · (2³² − 1) / 4`, that is at least 3221225472.
    pub fn next_bool(&mut self) -> (r: bool)
        ensures
            final(self).state() == next_state(old(self).state()),
            r == (mix64(final(self).state()) % 0x1_0000_0000 >= 3221225472),
    {
        self.next_u32() >= 3221225472
    }
}

} // verus!
