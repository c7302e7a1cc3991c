//! The seeded generator that every random decision of the library draws from.
//!
//! A generator is modelled by the seed it was made from and the requests that
//! were put to it since. What it answers next is a function of those two and of
//! the request at hand, so everything that is computed from a generator is a
//! function of them too: the same seed and the same requests give the same map,
//! the same drop and the same wave.

use rand::rngs::StdRng;
use rand::{Rng, SeedableRng};
use vstd::prelude::*;

verus! {

/// `rand::rngs::StdRng`, carried as an opaque value.
#[verifier::external_type_specification]
#[verifier::external_body]
pub struct ExStdRng(StdRng);

/// One request put to a generator.
pub enum Draw {
    /// A number between two bounds, both included, drawn 32 bits at a time.
    Range32 { lo: u32, hi: u32 },
    /// A number between two bounds, both included, drawn 64 bits at a time.
    Range64 { first: u64, last: u64 },
    /// 32 random bits.
    Word32,
    /// 64 random bits.
    Word64,
    /// A fair coin, read off one bit.
    Coin,
    /// An event that happens `numerator` times in `denominator`.
    Ratio { numerator: u32, denominator: u32 },
}

/// What a generator is: its seed and what has been asked of it.
pub struct RngState {
    pub seed: u64,
    pub past: Seq<Draw>,
}

impl RngState {
    /// The state of a generator that nothing was asked of yet.
    pub open spec fn fresh(seed: u64) -> RngState {
        RngState { seed, past: Seq::empty() }
    }

    /// The state after one more request.
    pub open spec fn after(self, draw: Draw) -> RngState {
        RngState { seed: self.seed, past: self.past.push(draw) }
    }

    /// What the generator answers to a request for a number in `lo..=hi`. The answer of
    /// a generator lies in the range; so does this number where `self` is a state that
    /// no generator gets into.
    pub open spec fn range32(self, lo: u32, hi: u32) -> u32 {
        let answer = answer_range32(self.seed, self.past, lo, hi);
        if lo <= answer <= hi {
            answer
        } else {
            lo
        }
    }

    /// What the generator answers to a request for a 64-bit number in `lo..=hi`, with
    /// the same proviso.
    pub open spec fn range64(self, lo: u64, hi: u64) -> u64 {
        let answer = answer_range64(self.seed, self.past, lo, hi);
        if lo <= answer <= hi {
            answer
        } else {
            lo
        }
    }

    /// The 32 bits that the generator hands out next.
    pub open spec fn word32(self) -> u32 {
        answer_word32(self.seed, self.past)
    }

    /// The 64 bits that the generator hands out next.
    pub open spec fn word64(self) -> u64 {
        answer_word64(self.seed, self.past)
    }

    /// How the generator's next coin falls.
    pub open spec fn coin(self) -> bool {
        answer_coin(self.seed, self.past)
    }

    /// Whether an event of the given odds happens next.
    pub open spec fn ratio(self, numerator: u32, denominator: u32) -> bool {
        answer_ratio(self.seed, self.past, numerator, denominator)
    }
}

/// What `Rng::gen_range(lo..=hi)` returns on `u32`, for a `StdRng` made from `seed`
/// that the requests `past` were put to.
pub uninterp spec fn answer_range32(seed: u64, past: Seq<Draw>, lo: u32, hi: u32) -> u32;

/// What `Rng::gen_range(lo..=hi)` returns on `u64`, for a `StdRng` made from `seed`
/// that the requests `past` were put to.
pub uninterp spec fn answer_range64(seed: u64, past: Seq<Draw>, lo: u64, hi: u64) -> u64;

/// What `Rng::gen::<u32>()` returns, for a `StdRng` made from `seed` that the
/// requests `past` were put to.
pub uninterp spec fn answer_word32(seed: u64, past: Seq<Draw>) -> u32;

/// What `Rng::gen::<u64>()` returns, for a `StdRng` made from `seed` that the
/// requests `past` were put to.
pub uninterp spec fn answer_word64(seed: u64, past: Seq<Draw>) -> u64;

/// What `Rng::gen::<bool>()` returns, for a `StdRng` made from `seed` that the
/// requests `past` were put to.
pub uninterp spec fn answer_coin(seed: u64, past: Seq<Draw>) -> bool;

/// What `Rng::gen_ratio(numerator, denominator)` returns, for a `StdRng` made from
/// `seed` that the requests `past` were put to.
pub uninterp spec fn answer_ratio(seed: u64, past: Seq<Draw>, numerator: u32, denominator: u32) -> bool;

/// A generator together with the record of what was asked of it.
pub struct SeededRng {
    rng: StdRng,
    state: Ghost<RngState>,
}

impl View for SeededRng {
    type V = RngState;

    closed spec fn view(&self) -> RngState {
        self.state@
    }
}

impl SeededRng {
    /// A generator made from `seed`.
    pub fn seed_from_u64(seed: u64) -> (rng: SeededRng)
        ensures
            rng@ == RngState::fresh(seed),
    {
        seeded(seed)
    }

    /// Calls `Rng::gen_range` of `rand` on the inclusive range `lo..=hi` of `u32`: it
    /// panics on an empty range, and its result lies in the range. The result depends
    /// on the seed and the requests made so far only; the half-open form that `rand`
    /// offers beside it, `lo..hi + 1`, is the same call.
    #[verifier::external_body]
    pub(crate) fn range_u32(&mut self, lo: u32, hi: u32) -> (r: u32)
        requires
            lo <= hi,
        ensures
            lo <= r <= hi,
            r == answer_range32(old(self)@.seed, old(self)@.past, lo, hi),
            final(self)@ == old(self)@.after(Draw::Range32 { lo, hi }),
    {
        self.rng.gen_range(lo..=hi)
    }

    /// Calls `Rng::gen_range` of `rand` on the inclusive range `lo..=hi` of `u64`: it
    /// panics on an empty range, and its result lies in the range. The result depends
    /// on the seed and the requests made so far only.
    #[verifier::external_body]
    pub(crate) fn range_u64(&mut self, lo: u64, hi: u64) -> (r: u64)
        requires
            lo <= hi,
        ensures
            lo <= r <= hi,
            r == answer_range64(old(self)@.seed, old(self)@.past, lo, hi),
            final(self)@ == old(self)@.after(Draw::Range64 { first: lo, last: hi }),
    {
        self.rng.gen_range(lo..=hi)
    }

    /// Calls `Rng::gen::<u32>` of `rand`, which hands out the next 32 bits. They depend
    /// on the seed and the requests made so far only.
    #[verifier::external_body]
    pub(crate) fn word_u32(&mut self) -> (r: u32)
        ensures
            r == answer_word32(old(self)@.seed, old(self)@.past),
            final(self)@ == old(self)@.after(Draw::Word32),
    {
        self.rng.gen::<u32>()
    }

    /// Calls `Rng::gen::<u64>` of `rand`, which hands out the next 64 bits. They depend
    /// on the seed and the requests made so far only.
    #[verifier::external_body]
    pub(crate) fn word_u64(&mut self) -> (r: u64)
        ensures
            r == answer_word64(old(self)@.seed, old(self)@.past),
            final(self)@ == old(self)@.after(Draw::Word64),
    {
        self.rng.gen::<u64>()
    }

    /// Calls `Rng::gen::<bool>` of `rand`, a fair coin. How it falls depends on the seed
    /// and the requests made so far only.
    #[verifier::external_body]
    pub(crate) fn coin(&mut self) -> (r: bool)
        ensures
            r == answer_coin(old(self)@.seed, old(self)@.past),
            final(self)@ == old(self)@.after(Draw::Coin),
    {
        self.rng.gen::<bool>()
    }

    /// Calls `Rng::gen_ratio` of `rand`. It panics if the denominator is zero or less
    /// than the numerator; odds of none in any are never met and odds of all in all
    /// always are. Otherwise the result depends on the seed and the requests made so
    /// far only.
    #[verifier::external_body]
    pub(crate) fn ratio(&mut self, numerator: u32, denominator: u32) -> (r: bool)
        requires
            0 < denominator,
            numerator <= denominator,
        ensures
            r == answer_ratio(old(self)@.seed, old(self)@.past, numerator, denominator),
            numerator == 0 ==> !r,
            numerator == denominator ==> r,
            final(self)@ == old(self)@.after(Draw::Ratio { numerator, denominator }),
    {
        self.rng.gen_ratio(numerator, denominator)
    }

    /// The next draw from the unit interval, as a count of 2^-24ths: the top 24 of the
    /// next 32 bits.
    pub(crate) fn unit(&mut self) -> (k: u32)
        ensures
            k == unit_of(old(self)@),
            k < 0x100_0000,
            final(self)@ == old(self)@.after(Draw::Word32),
    {
        let word: u32 = self.word_u32();
        assert(word >> 8 < 0x100_0000u32) by (bit_vector);
        word >> 8
    }
}

/// The draw from the unit interval, in 2^-24ths, that a generator in state `g` hands
/// out next.
pub open spec fn unit_of(g: RngState) -> u32 {
    g.word32() >> 8
}

/// Calls `StdRng::seed_from_u64` of `rand`: the generator that it returns is the one
/// made from `seed`, and no request was put to it yet.
#[verifier::external_body]
fn seeded(seed: u64) -> (rng: SeededRng)
    ensures
        rng@ == RngState::fresh(seed),
{
    SeededRng { rng: StdRng::seed_from_u64(seed), state: Ghost(RngState::fresh(seed)) }
}

} // verus!
