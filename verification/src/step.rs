//! The generational state transition: reproduction, then death.
//!
//! One step reads only the prior generation's grid: reproduction decisions
//! for every empty cell are taken against the old occupancy and the
//! temperature field computed from it, and death then applies uniformly to
//! the post-reproduction occupancy, newborns included. The draw order is
//! fixed: for each empty cell in row-major order one draw for the
//! neighbour choice, one for accept-or-reject and one for the offspring's
//! mutation, then one draw per occupied cell for death.

use vstd::pervasive::VecAdditionalExecFns;
use vstd::prelude::*;

use crate::daisy::{offspring_of, spec_offspring, spec_reproduce_prob, Daisy};
use crate::params::{HALF, QUARTER, THREE_QUARTERS, UNIT};
use crate::radiance::spec_is_temp;
use crate::rng::RandomSource;
use crate::world::{spec_cell_wf, World};

verus! {

/// The neighbour of cell `i` that choice draw `r` selects, by quartile:
/// above, right, below, left.
pub open spec fn spec_choose_neighbor(g: World, i: int, r: u64) -> Option<Daisy> {
    if r < QUARTER {
        g.spec_above(i)
    } else if r < HALF {
        g.spec_right_of(i)
    } else if r < THREE_QUARTERS {
        g.spec_below(i)
    } else {
        g.spec_left_of(i)
    }
}

/// The acceptance rule for a reproduction event: the accept draw falls
/// strictly below the reproduction probability (both in millionths), so
/// probability zero never accepts and probability one whole always does.
pub fn birth_accepted(draw: u64, prob: u64) -> (b: bool)
    ensures
        b == (draw < prob),
{
    draw < prob
}

/// The death rule: the death draw falls strictly below the death rate
/// (both in millionths), so rate zero never strikes and rate one whole
/// always does.
pub fn death_strikes(draw: u64, death_rate: u64) -> (b: bool)
    ensures
        b == (draw < death_rate),
{
    draw < death_rate
}

/// A reproduction event at cell `i` of grid `g` can leave occupant `c`:
/// some choice draw's quartile selects the occupied neighbour `p`, the
/// accept draw falls below the reproduction probability at the cell's
/// local temperature `t`, and `c` is `p`'s offspring for mutation draw `r`.
pub open spec fn spec_born(
    g: World,
    i: int,
    p: Daisy,
    choice: u64,
    t: u64,
    accept: u64,
    r: u64,
    c: Option<Daisy>,
) -> bool {
    &&& choice < UNIT
    &&& accept < UNIT
    &&& r < UNIT
    &&& spec_choose_neighbor(g, i, choice) == Some(p)
    &&& spec_is_temp(g.spec_local_albedo(i), t as int)
    &&& accept < spec_reproduce_prob(t as int)
    &&& c == Some(spec_offspring(p, r))
}

/// What the reproduction pass may leave in cell `i`, given the prior grid
/// `g`: an occupied cell carries its daisy over untouched; an empty cell
/// stays empty or receives a newborn.
pub open spec fn spec_repro_result(g: World, i: int, c: Option<Daisy>) -> bool {
    if g.cells@[i] is Some {
        c == g.cells@[i]
    } else {
        c is None || (exists|p: Daisy, choice: u64, t: u64, accept: u64, r: u64|
            spec_born(g, i, p, choice, t, accept, r, c))
    }
}

/// What one full step may leave in cell `i`, given the prior grid `g`: a
/// survivor is exactly what the reproduction pass produced, and a cell
/// ends empty only if it started empty or the death rate is positive.
pub open spec fn spec_step_result(g: World, i: int, c: Option<Daisy>) -> bool {
    match c {
        Some(_) => spec_repro_result(g, i, c),
        None => g.cells@[i] is None || g.death_rate > 0,
    }
}

/// Cell `i` of `g` must bear in every outcome: it is empty, all four of
/// its orthogonal neighbours are occupied (so every quartile selects a
/// parent), and reproduction at the cell's temperature is fully viable
/// (so every accept draw falls below the probability of one whole).
pub open spec fn spec_must_bear(g: World, i: int) -> bool {
    &&& g.cells@[i] is None
    &&& g.spec_above(i) is Some
    &&& g.spec_right_of(i) is Some
    &&& g.spec_below(i) is Some
    &&& g.spec_left_of(i) is Some
    &&& forall|t: u64|
        spec_is_temp(g.spec_local_albedo(i), t as int) ==> spec_reproduce_prob(t as int) == UNIT
}

impl World {
    /// The neighbour of cell `i` that choice draw `r` selects, by
    /// quartile: the per-draw decision rule of the reproduction pass.
    pub fn choose_neighbor(&self, i: usize, r: u64) -> (c: Option<Daisy>)
        requires
            self.wf(),
        ensures
            c == spec_choose_neighbor(*self, i as int, r),
    {
        if r < QUARTER {
            self.above(i)
        } else if r < HALF {
            self.right_of(i)
        } else if r < THREE_QUARTERS {
            self.below(i)
        } else {
            self.left_of(i)
        }
    }

    /// One generation: compute the temperature field from this grid, let
    /// every empty cell try to draw a newborn from a random orthogonal
    /// neighbour of the prior occupancy, then apply the global death rate
    /// to every occupied cell of the new grid. This grid is read-only; the
    /// next generation is returned as a fresh value.
    pub fn iterate<R: RandomSource>(&self, rng: &mut R) -> (w: World)
        requires
            self.wf(),
        ensures
            w.wf(),
            w.width == self.width,
            w.height == self.height,
            w.death_rate == self.death_rate,
            w.cells@.len() == self.cells@.len(),
            forall|i: int|
                0 <= i < w.cells@.len() ==> spec_step_result(*self, i, #[trigger] w.cells@[i]),
            (forall|i: int| 0 <= i < self.cells@.len() ==> (#[trigger] self.cells@[i]) is None)
                ==> (forall|i: int| 0 <= i < w.cells@.len() ==> (#[trigger] w.cells@[i]) is None),
            self.death_rate == UNIT ==> forall|i: int|
                0 <= i < w.cells@.len() ==> (#[trigger] w.cells@[i]) is None,
            self.death_rate == 0 ==> forall|i: int|
                0 <= i < w.cells@.len() && spec_must_bear(*self, i)
                    ==> (#[trigger] w.cells@[i]) is Some,
    {
        let tfield: Vec<u64> = self.temperature_field();
        let n = self.cells.len();

        let mut next: Vec<Option<Daisy>> = Vec::new();
        let mut i: usize = 0;
        while i < n
            invariant
                n == self.cells@.len(),
                i <= n,
                next@.len() == i,
                forall|j: int| 0 <= j < i ==> #[trigger] next@[j] == self.cells@[j],
            decreases n - i,
        {
            next.push(self.cells[i]);
            i = i + 1;
        }

        // Reproduction pass: decisions read only the prior grid `self`.
        i = 0;
        while i < n
            invariant
                self.wf(),
                n == self.cells@.len(),
                i <= n,
                next@.len() == n,
                tfield@.len() == n,
                forall|j: int|
                    0 <= j < n ==> spec_is_temp(
                        self.spec_local_albedo(j),
                        #[trigger] tfield@[j] as int,
                    ),
                forall|j: int| 0 <= j < i ==> spec_repro_result(*self, j, #[trigger] next@[j]),
                forall|j: int|
                    0 <= j < i && spec_must_bear(*self, j) ==> (#[trigger] next@[j]) is Some,
                forall|j: int| i <= j < n ==> #[trigger] next@[j] == self.cells@[j],
                forall|j: int| 0 <= j < n ==> spec_cell_wf(#[trigger] next@[j]),
            decreases n - i,
        {
            if self.cells[i].is_none() {
                let choice = rng.next_unit();
                let neighbour: Option<Daisy> = self.choose_neighbor(i, choice);
                let temp: u64 = tfield[i];
                let prob: u64 = match neighbour {
                    Some(d) => d.reproduce_prob(temp),
                    None => 0,
                };
                let accept = rng.next_unit();
                if birth_accepted(accept, prob) {
                    let parent = neighbour.unwrap();
                    let mutation = rng.next_unit();
                    let child = offspring_of(&parent, mutation);
                    next.set(i, Some(child));
                    proof {
                        assert(spec_born(
                            *self,
                            i as int,
                            parent,
                            choice,
                            temp,
                            accept,
                            mutation,
                            next@[i as int],
                        ));
                    }
                } else {
                    proof {
                        if spec_must_bear(*self, i as int) {
                            assert(neighbour is Some);
                            assert(spec_reproduce_prob(temp as int) == UNIT);
                            assert(false);
                        }
                    }
                }
            }
            i = i + 1;
        }

        // Death pass: the global rate applies to carried and newborn alike.
        let ghost after_repro = next@;
        i = 0;
        while i < n
            invariant
                self.wf(),
                n == self.cells@.len(),
                i <= n,
                next@.len() == n,
                after_repro.len() == n,
                forall|j: int| 0 <= j < i ==> spec_step_result(*self, j, #[trigger] next@[j]),
                forall|j: int| i <= j < n ==> #[trigger] next@[j] == after_repro[j],
                forall|j: int| 0 <= j < n ==> spec_repro_result(*self, j, #[trigger] after_repro[j]),
                forall|j: int|
                    0 <= j < n && spec_must_bear(*self, j) ==> (#[trigger] after_repro[j]) is Some,
                forall|j: int| 0 <= j < n ==> spec_cell_wf(#[trigger] next@[j]),
                self.death_rate == UNIT ==> forall|j: int|
                    0 <= j < i ==> (#[trigger] next@[j]) is None,
                self.death_rate == 0 ==> forall|j: int|
                    0 <= j < i ==> #[trigger] next@[j] == after_repro[j],
            decreases n - i,
        {
            if next[i].is_some() {
                let d = rng.next_unit();
                if death_strikes(d, self.death_rate) {
                    next.set(i, None);
                }
            }
            i = i + 1;
        }

        let w = World {
            width: self.width,
            height: self.height,
            cells: next,
            death_rate: self.death_rate,
        };
        proof {
            if forall|j: int| 0 <= j < self.cells@.len() ==> (#[trigger] self.cells@[j]) is None {
                assert forall|j: int|
                    0 <= j < w.cells@.len() implies (#[trigger] w.cells@[j]) is None by {
                    if w.cells@[j] is Some {
                        let (p, choice, t, accept, r) = choose|
                            p: Daisy,
                            choice: u64,
                            t: u64,
                            accept: u64,
                            r: u64,
                        | spec_born(*self, j, p, choice, t, accept, r, w.cells@[j]);
                        assert(self.spec_above(j) is None);
                        assert(self.spec_right_of(j) is None);
                        assert(self.spec_below(j) is None);
                        assert(self.spec_left_of(j) is None);
                    }
                }
            }
        }
        w
    }
}

/// The emptiness law: a step of an all-empty world is all-empty again,
/// whatever the random source produces, for there is no reproduction
/// source; and every world a step returns keeps `width * height` cells.
/// Both facts stand in the contract of `iterate`; this restates the first
/// over the step relation alone.
pub proof fn lemma_empty_cell_stays_empty(g: World, i: int, c: Option<Daisy>)
    requires
        g.wf(),
        0 <= i < g.cells@.len(),
        forall|j: int| 0 <= j < g.cells@.len() ==> (#[trigger] g.cells@[j]) is None,
        spec_step_result(g, i, c),
    ensures
        c is None,
{
    if c is Some {
        let (p, choice, t, accept, r) = choose|p: Daisy, choice: u64, t: u64, accept: u64, r: u64|
            spec_born(g, i, p, choice, t, accept, r, c);
        assert(g.spec_above(i) is None);
        assert(g.spec_right_of(i) is None);
        assert(g.spec_below(i) is None);
        assert(g.spec_left_of(i) is None);
    }
}

} // verus!
