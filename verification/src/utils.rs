//! The engine's injected random source and small numeric helpers.
//!
//! All randomness flows through `Rng`, a deterministic xorshift generator
//! seeded either explicitly (tests, reproducible runs) or from the operating
//! system.  Every draw is a pure function of the generator state, so whole
//! evolutionary runs are reproducible from a seed.
use vstd::prelude::*;
use crate::numeric::{sub_bits, unit_bits, TWO_POW_53_BITS};

verus! {

/// The xorshift64 state transition.
pub open spec fn next_state(s: u64) -> u64 {
    let a = s ^ (s << 13);
    let b = a ^ (a >> 7);
    b ^ (b << 17)
}

/// The value handed out for a draw from state `s`: the successor state mixed
/// by the xorshift64-star multiplier, truncated to 64 bits.
pub open spec fn draw_of(s: u64) -> u64 {
    ((next_state(s) as u128) * 0x2545F4914F6CDD1D) as u64
}

/// A deterministic pseudo-random source (xorshift64-star).
pub struct Rng {
    pub state: u64,
}

impl Rng {
    /// Creates a generator from a seed; a zero seed (the xorshift fixed
    /// point) is replaced by a fixed odd constant.
    pub fn new(seed: u64) -> (r: Rng)
        ensures
            r.state == if seed == 0 { 0x9E3779B97F4A7C15u64 } else { seed },
            r.state != 0,
    {
        if seed == 0 {
            Rng { state: 0x9E3779B97F4A7C15 }
        } else {
            Rng { state: seed }
        }
    }

    /// Draws one value; the state advances by `next_state` and the result is
    /// `draw_of` the prior state.
    pub fn next_u64(&mut self) -> (r: u64)
        ensures
            final(self).state == next_state(old(self).state),
            r == draw_of(old(self).state),
    {
        let s = self.state;
        let a = s ^ (s << 13);
        let b = a ^ (a >> 7);
        let c = b ^ (b << 17);
        self.state = c;
        let r: u64 = #[verifier::truncate] ((c as u128 * 0x2545F4914F6CDD1D) as u64);
        r
    }

    /// A draw strictly below `n`: the raw draw reduced modulo `n`.
    pub fn below(&mut self, n: usize) -> (r: usize)
        requires
            n >= 1,
        ensures
            r < n,
            r as int == draw_of(old(self).state) as int % (n as int),
            final(self).state == next_state(old(self).state),
    {
        let d = self.next_u64();
        (d % (n as u64)) as usize
    }
}

/// A draw from the inclusive range `[l, b]`: the raw draw reduced modulo
/// the range size and offset by `l`.
pub fn rand_int(rng: &mut Rng, l: i32, b: i32) -> (r: i32)
    requires
        l <= b,
    ensures
        l <= r <= b,
        r as int == l + draw_of(old(rng).state) as int % (b as int - l as int + 1),
        final(rng).state == next_state(old(rng).state),
{
    let d = rng.next_u64();
    let span = (b as i64 - l as i64 + 1) as u64;
    let off = (d % span) as i64;
    (l as i64 + off) as i32
}

/// A draw from the inclusive range `[l, b]`: the raw draw reduced modulo
/// the range size and offset by `l`.
pub fn rand_usize(rng: &mut Rng, l: usize, b: usize) -> (r: usize)
    requires
        l <= b,
        b - l < usize::MAX,
    ensures
        l <= r <= b,
        r as int == l + draw_of(old(rng).state) as int % (b as int - l as int + 1),
        final(rng).state == next_state(old(rng).state),
{
    let d = rng.next_u64();
    let span = ((b - l) as u64) + 1;
    let off = (d % span) as usize;
    l + off
}

/// A scalar drawn from `(-1, 1)`: the difference of two draws from `[0, 1)`,
/// exactly as wide as one unit either way.
pub fn random_clamped(rng: &mut Rng) -> (r: u64)
    ensures
        r == sub_bits(
            unit_bits(draw_of(old(rng).state)),
            unit_bits(draw_of(next_state(old(rng).state))),
        ),
        final(rng).state == next_state(next_state(old(rng).state)),
{
    let a = rng.next_u64();
    let b = rng.next_u64();
    let ua = crate::numeric::f64_div(crate::numeric::f64_from_u64(a >> 11), TWO_POW_53_BITS);
    let ub = crate::numeric::f64_div(crate::numeric::f64_from_u64(b >> 11), TWO_POW_53_BITS);
    crate::numeric::f64_sub(ua, ub)
}

/// Relies on `rand::random`: one machine-entropy draw used to seed `Rng`
/// when no explicit seed is given.  Nothing is assumed of the value.
#[verifier::external_body]
pub fn entropy_seed() -> u64 {
    rand::random::<u64>()
}

} // verus!
