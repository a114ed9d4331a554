use vstd::prelude::*;

verus! {

/// Multiplier of the mixing step, `(2^32 - 1) / pi` rounded to the nearest integer.
pub const K: u32 = 0x517c_c1b7;

/// Input of the extraction step, `(2^32 - 1) / e`.
pub const L: u32 = 0x5e2d_58d8;

/// `x` rotated left by five bits.
pub open spec fn rotl5(x: u32) -> u32 {
    (x << 5u32) | (x >> 27u32)
}

/// One mixing step: the state rotated left by five, xor the input, times `K` modulo `2^32`.
pub open spec fn mix(state: u32, input: u32) -> u32 {
    vstd::wrapping::u32_specs::wrapping_mul(rotl5(state) ^ input, K)
}

/// The value extracted from a generator in `state`; it is also the state left behind.
pub open spec fn extract(state: u32) -> u32 {
    mix(state, L)
}

fn rotate_left_5(x: u32) -> (r: u32)
    ensures
        r == rotl5(x),
{
    (x << 5u32) | (x >> 27u32)
}

fn mix_exec(state: u32, input: u32) -> (r: u32)
    ensures
        r == mix(state, input),
{
    (rotate_left_5(state) ^ input).wrapping_mul(K)
}

/// A 32-bit hash generator: every draw is a pure function of the state it holds.
#[derive(Debug, Clone)]
pub struct Rng {
    seed: u32,
}

impl View for Rng {
    type V = u32;

    closed spec fn view(&self) -> u32 {
        self.seed
    }
}

/// Relies on `std::time::SystemTime::now`: the low 32 bits of the nanoseconds
/// elapsed since the Unix epoch, or zero for a clock set before it. The value
/// depends on the moment of the call, so nothing is stated of it.
#[verifier::external_body]
fn clock_seed() -> (r: u32) {
    match std::time::SystemTime::now().duration_since(std::time::UNIX_EPOCH) {
        Ok(elapsed) => elapsed.as_nanos() as u32,
        Err(_) => 0,
    }
}

impl Rng {
    /// A generator seeded from the system clock.
    pub fn new() -> (r: Self) {
        Self::with_seed(clock_seed())
    }

    /// A generator whose state is `seed`.
    pub fn with_seed(seed: u32) -> (r: Self)
        ensures
            r@ == seed,
    {
        Rng { seed }
    }

    /// Mixes `rhs` into the state; the result is the generator itself, for chaining.
    pub fn hash(&mut self, rhs: u32) -> (r: &mut Self)
        ensures
            r@ == mix(old(self)@, rhs),
            final(self)@ == final(r)@,
    {
        self.seed = mix_exec(self.seed, rhs);
        self
    }

    /// Draws a value of type `T`.
    pub fn random<T: Random>(&mut self) -> (r: T)
        ensures
            (r, final(self)@) == T::drawn(old(self)@),
    {
        T::random(self)
    }

    /// Draws 32 bits: mixes in `L` and returns the new state.
    pub fn random_u32(&mut self) -> (r: u32)
        ensures
            r == extract(old(self)@),
            final(self)@ == r,
    {
        self.hash(L).seed
    }
}

/// A type whose values can be drawn from an [`Rng`].
pub trait Random: Sized {
    /// The value drawn from a generator in `state`, and the state it leaves.
    spec fn drawn(state: u32) -> (Self, u32);

    fn random(rng: &mut Rng) -> (r: Self)
        ensures
            (r, final(rng)@) == Self::drawn(old(rng)@),
    ;
}

impl Random for u32 {
    open spec fn drawn(state: u32) -> (u32, u32) {
        (extract(state), extract(state))
    }

    fn random(rng: &mut Rng) -> (r: u32) {
        rng.random_u32()
    }
}

/// The low 16 bits of `x`: the numerator of a draw in `[0, 1]` over `65535`.
pub open spec fn low16(x: u32) -> u16 {
    (x % 0x1_0000) as u16
}

pub(crate) fn low16_exec(x: u32) -> (r: u16)
    ensures
        r == low16(x),
{
    (x % 0x1_0000) as u16
}

/// Two mixing steps keyed by a seed: the index first, then the salt.
pub open spec fn salted(seed: u32, idx: i32, salt: u32) -> u32 {
    mix(mix(idx as u32, seed), salt)
}

/// A stateless source of draws indexed by an integer and a salt.
#[derive(Debug, Clone)]
pub struct RandomFloat {
    seed: u32,
}

impl View for RandomFloat {
    type V = u32;

    closed spec fn view(&self) -> u32 {
        self.seed
    }
}

impl RandomFloat {
    pub fn new(seed: u32) -> (r: Self)
        ensures
            r@ == seed,
    {
        RandomFloat { seed }
    }

    /// The numerator `n` of the draw `n / 65535` in `[0, 1]` at `idx` under `salt`.
    pub fn random_positive_bits(&self, idx: i32, salt: u32) -> (r: u16)
        ensures
            r == low16(salted(self@, idx, salt)),
    {
        low16_exec(mix_exec(mix_exec(idx as u32, self.seed), salt))
    }
}

} // verus!
