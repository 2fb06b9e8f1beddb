//! The injectable randomness capability.
//!
//! Sampling call sites take a [`Sampler`] explicitly, never a hidden global
//! generator. A sampler is either seeded — uniform draws from a generator of
//! the `rand` crate — or fixed, yielding one chosen value forever, which makes
//! every sampling function deterministic for tests: contracts state exactly
//! what a fixed sampler produces.

use vstd::prelude::*;
use crate::fixed::SCALE;

verus! {

#[verifier::external_type_specification]
#[verifier::external_body]
pub struct ExStdRng(rand::rngs::StdRng);

/// Relies on rand::SeedableRng::seed_from_u64 for rand::rngs::StdRng:
/// builds a generator from a 64-bit seed.
#[verifier::external_body]
fn seed_std_rng(seed: u64) -> rand::rngs::StdRng {
    <rand::rngs::StdRng as rand::SeedableRng>::seed_from_u64(seed)
}

/// Relies on rand::Rng::gen_range over `0..n`: a draw in `[0, n)`, uniform
/// over the range; the range is non-empty, so the call cannot panic.
#[verifier::external_body]
fn draw_below(rng: &mut rand::rngs::StdRng, n: i64) -> (r: i64)
    requires
        n > 0,
    ensures
        0 <= r < n,
    no_unwind
{
    rand::Rng::gen_range(rng, 0..n)
}

enum SamplerKind {
    Seeded(rand::rngs::StdRng),
    Fixed(i64),
}

/// A source of uniform fixed-point values in `[0, 1)`, that is raw values in
/// `[0, SCALE)`.
pub struct Sampler {
    kind: SamplerKind,
}

impl Sampler {
    #[verifier::type_invariant]
    spec fn type_inv(self) -> bool {
        self.kind matches SamplerKind::Fixed(v) ==> 0 <= v < SCALE
    }

    /// Whether this sampler yields one fixed value.
    pub closed spec fn is_fixed(&self) -> bool {
        self.kind is Fixed
    }

    /// The value a fixed sampler yields.
    pub closed spec fn fixed_value(&self) -> int {
        self.kind->Fixed_0 as int
    }

    /// A sampler drawing from a generator seeded with `seed`.
    pub fn from_seed(seed: u64) -> (r: Sampler)
        ensures
            !r.is_fixed(),
    {
        Sampler { kind: SamplerKind::Seeded(seed_std_rng(seed)) }
    }

    /// A deterministic sampler: every draw returns `v`.
    pub fn fixed(v: i64) -> (r: Sampler)
        requires
            0 <= v < SCALE,
        ensures
            r.is_fixed(),
            r.fixed_value() == v,
    {
        Sampler { kind: SamplerKind::Fixed(v) }
    }

    /// One draw in `[0, 1)`. A fixed sampler returns its value and is left
    /// unchanged; a seeded sampler advances its generator.
    pub fn next_unit(&mut self) -> (r: i64)
        ensures
            0 <= r < SCALE,
            old(self).is_fixed() ==> r == old(self).fixed_value() && *final(self) == *old(self),
            final(self).is_fixed() == old(self).is_fixed(),
    {
        proof {
            use_type_invariant(&*self);
        }
        kind_next(&mut self.kind)
    }
}

fn kind_next(k: &mut SamplerKind) -> (r: i64)
    requires
        *old(k) matches SamplerKind::Fixed(v) ==> 0 <= v < SCALE,
    ensures
        0 <= r < SCALE,
        *old(k) is Fixed ==> r == (*old(k))->Fixed_0 && *final(k) == *old(k),
        *final(k) is Fixed == *old(k) is Fixed,
    no_unwind
{
    match k {
        SamplerKind::Seeded(rng) => draw_below(rng, SCALE),
        SamplerKind::Fixed(v) => *v,
    }
}

} // verus!
