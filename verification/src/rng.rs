use vstd::prelude::*;

verus! {

/// One advance of the xorshift generator state.
pub open spec fn next_state(s: u64) -> u64 {
    let a = s ^ (s << 13);
    let b = a ^ (a >> 7);
    b ^ (b << 17)
}

/// The tie-break coin read from a generator state.
/// `true` picks the right-hand candidate of a tied pair.
pub open spec fn flip_of(s: u64) -> bool {
    ((s >> 32) & 1) == 1
}

/// The condensation roll read from a generator state.  The top 24 bits of the
/// state, read as a uniform draw from [0,1) at 24-bit resolution, must exceed
/// 16760340 / 2^24 (just under 0.999): steam condenses on roughly one roll in
/// a thousand.
pub open spec fn condense_of(s: u64) -> bool {
    (s >> 40) > 16760340
}

/// The generator state a seed starts from.  Zero is a fixed point of
/// `next_state`, so the zero seed is mapped to an arbitrary fixed constant.
pub open spec fn seeded(seed: u64) -> u64 {
    if seed == 0 {
        0x9E3779B97F4A7C15u64
    } else {
        seed
    }
}

/// The explicit source of randomness threaded through the update engine:
/// a 64-bit xorshift generator.  Every tie-break and condensation roll is a
/// pure function of this state, so a whole simulation is reproducible from
/// the seed alone.
pub struct RandomSource {
    pub state: u64,
}

impl RandomSource {
    /// A deterministic generator: the same seed always yields the same draws.
    pub fn from_seed(seed: u64) -> (r: RandomSource)
        ensures
            r.state == seeded(seed),
    {
        if seed == 0 {
            RandomSource { state: 0x9E3779B97F4A7C15u64 }
        } else {
            RandomSource { state: seed }
        }
    }

    /// A generator seeded from ambient entropy.  Whatever the seed, the state
    /// is nonzero: zero is a fixed point of `next_state`, and `from_seed`
    /// maps the zero seed away.
    pub fn fresh() -> (r: RandomSource)
        ensures
            r.state != 0,
    {
        RandomSource::from_seed(rand::random::<u64>())
    }

    /// Draws one tie-break coin, advancing the state once.
    pub fn flip(&mut self) -> (b: bool)
        ensures
            final(self).state == next_state(old(self).state),
            b == flip_of(final(self).state),
    {
        let s = self.state;
        let a = s ^ (s << 13);
        let b = a ^ (a >> 7);
        self.state = b ^ (b << 17);
        ((self.state >> 32) & 1) == 1
    }

    /// Draws one condensation roll, advancing the state once.
    pub fn condense_roll(&mut self) -> (b: bool)
        ensures
            final(self).state == next_state(old(self).state),
            b == condense_of(final(self).state),
    {
        let s = self.state;
        let a = s ^ (s << 13);
        let b = a ^ (a >> 7);
        self.state = b ^ (b << 17);
        (self.state >> 40) > 16760340
    }
}

/// Relies on `rand::random`: draws one value from the thread-local generator.
/// The result depends on ambient entropy, so nothing is promised of it.
pub assume_specification<T>[ rand::random::<T> ]() -> (r: T)
    where
        rand::distributions::Standard: rand::distributions::Distribution<T>,
;

} // verus!
