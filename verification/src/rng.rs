//! Random draw sources.
//!
//! The simulation consumes entropy through one capability: produce the next
//! uniform draw in the unit interval, as a fixed-point value in millionths.
//! An entropy-backed source wraps the `rand` crate; deterministic sources
//! replay scripted draws for reproducible runs.
//!
//! A source may be *predictable*: its draws are then a function of its
//! state, exposed to specifications through `spec_peek` (the next draw) and
//! `spec_advance` (the state after it), so that callers of a deterministic
//! source can conclude exactly which draws a computation consumed and what
//! it produced. An entropy-backed source is not predictable, and nothing is
//! promised of its draws beyond their range.

use vstd::prelude::*;

use crate::params::UNIT;

verus! {

/// A source of uniform random draws in `[0, UNIT)`, consumed sequentially.
pub trait RandomSource: Sized {
    /// Whether the draws of this source are a function of its state.
    spec fn spec_predictable(&self) -> bool;

    /// The next draw this source will produce, when it is predictable.
    spec fn spec_peek(&self) -> u64;

    /// The state of this source after one draw, when it is predictable.
    spec fn spec_advance(&self) -> Self;

    /// A predictable source stays predictable as it advances.
    proof fn advance_preserves_predictable(&self)
        requires
            self.spec_predictable(),
        ensures
            self.spec_advance().spec_predictable(),
    ;

    /// Produce the next draw.
    fn next_unit(&mut self) -> (r: u64)
        ensures
            r < UNIT,
            final(self).spec_predictable() == old(self).spec_predictable(),
            old(self).spec_predictable() ==> r == old(self).spec_peek() && *final(self) == old(
                self,
            ).spec_advance(),
    ;
}

/// The state of a predictable source after `n` draws.
pub open spec fn spec_advance_n<R: RandomSource>(rng: R, n: nat) -> R
    decreases n,
{
    if n == 0 {
        rng
    } else {
        spec_advance_n(rng.spec_advance(), (n - 1) as nat)
    }
}

/// The draw a predictable source produces in position `k` (counting from
/// its current state).
pub open spec fn spec_draw_at<R: RandomSource>(rng: R, k: nat) -> u64 {
    spec_advance_n(rng, k).spec_peek()
}

/// A predictable source is predictable after any number of draws.
pub proof fn lemma_advance_n_predictable<R: RandomSource>(rng: R, n: nat)
    requires
        rng.spec_predictable(),
    ensures
        spec_advance_n(rng, n).spec_predictable(),
    decreases n,
{
    if n > 0 {
        rng.advance_preserves_predictable();
        lemma_advance_n_predictable(rng.spec_advance(), (n - 1) as nat);
    }
}

/// Advancing `n + 1` times is advancing `n` times, then once more.
pub proof fn lemma_advance_n_snoc<R: RandomSource>(rng: R, n: nat)
    ensures
        spec_advance_n(rng, n + 1) == spec_advance_n(rng, n).spec_advance(),
    decreases n,
{
    assert(spec_advance_n(rng, n + 1) == spec_advance_n(rng.spec_advance(), n));
    if n > 0 {
        lemma_advance_n_snoc(rng.spec_advance(), (n - 1) as nat);
    }
}

/// A constant source never changes state: after any number of draws it is
/// the source it was, so every upcoming draw is its value reduced modulo
/// one whole.
pub proof fn lemma_constant_source_stays(rng: ConstantSource, k: nat)
    ensures
        spec_advance_n(rng, k) == rng,
        spec_draw_at(rng, k) == rng.value % UNIT,
    decreases k,
{
    if k > 0 {
        assert(rng.spec_advance() == rng);
        lemma_constant_source_stays(rng, (k - 1) as nat);
    }
}

/// Relies on rand::random: draws a value of the asked type from the thread's
/// generator through the Standard distribution. Nothing is assumed of the
/// value beyond its type.
pub assume_specification<T>[ rand::random::<T> ]() -> (r: T)
    where
        rand::distributions::Standard: rand::distributions::Distribution<T>,
;

/// A source backed by the process's entropy, through the `rand` crate. Its
/// draws are not a function of its state, so it is not predictable.
pub struct EntropySource {}

/// The largest multiple of `UNIT` that fits in 64 bits: raw words at or
/// above it are rejected, so that the reduction modulo `UNIT` is uniform.
pub const REJECT_BOUND: u64 = 18_446_744_073_709_000_000;

/// How many raw words to reject before giving up on uniformity: a word
/// falls at or above `REJECT_BOUND` with probability below 2^-44, so the
/// fallback is unreachable in practice.
pub const REJECT_TRIES: u32 = 16;

impl RandomSource for EntropySource {
    open spec fn spec_predictable(&self) -> bool {
        false
    }

    open spec fn spec_peek(&self) -> u64 {
        0
    }

    open spec fn spec_advance(&self) -> Self {
        EntropySource {  }
    }

    proof fn advance_preserves_predictable(&self) {
    }

    fn next_unit(&mut self) -> (r: u64) {
        let mut tries: u32 = REJECT_TRIES;
        loop
            invariant
                tries <= REJECT_TRIES,
            decreases tries,
        {
            let raw: u64 = rand::random::<u64>();
            if raw < REJECT_BOUND || tries == 0 {
                return raw % UNIT;
            }
            tries = tries - 1;
        }
    }
}

/// A deterministic source that repeats one fixed draw forever.
pub struct ConstantSource {
    pub value: u64,
}

impl RandomSource for ConstantSource {
    open spec fn spec_predictable(&self) -> bool {
        true
    }

    open spec fn spec_peek(&self) -> u64 {
        self.value % UNIT
    }

    open spec fn spec_advance(&self) -> Self {
        ConstantSource { value: self.value }
    }

    proof fn advance_preserves_predictable(&self) {
    }

    fn next_unit(&mut self) -> (r: u64) {
        self.value % UNIT
    }
}

/// A deterministic source that replays a fixed sequence of draws, then
/// yields zero once the sequence is exhausted.
pub struct ScriptedSource {
    pub values: Vec<u64>,
    pub pos: usize,
}

impl ScriptedSource {
    /// A scripted source positioned at the start of `values`.
    pub fn new(values: Vec<u64>) -> (s: ScriptedSource)
        ensures
            s.values == values,
            s.pos == 0,
    {
        ScriptedSource { values, pos: 0 }
    }
}

impl RandomSource for ScriptedSource {
    open spec fn spec_predictable(&self) -> bool {
        true
    }

    open spec fn spec_peek(&self) -> u64 {
        if self.pos < self.values@.len() {
            self.values@[self.pos as int] % UNIT
        } else {
            0
        }
    }

    open spec fn spec_advance(&self) -> Self {
        if self.pos < self.values@.len() {
            ScriptedSource { values: self.values, pos: (self.pos + 1) as usize }
        } else {
            ScriptedSource { values: self.values, pos: self.pos }
        }
    }

    proof fn advance_preserves_predictable(&self) {
    }

    fn next_unit(&mut self) -> (r: u64) {
        if self.pos < self.values.len() {
            let v = self.values[self.pos];
            self.pos = self.pos + 1;
            v % UNIT
        } else {
            0
        }
    }
}

} // verus!
