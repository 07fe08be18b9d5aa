//! The world grid: per-cell occupancy, neighbour lookups, aggregate
//! statistics and randomized initialization.
//!
//! Cells live on a bounded (non-wrapping) 2-D lattice in row-major order:
//! edge cells simply have fewer neighbours, and an absent or empty cell
//! contributes the bare-ground albedo. The neighbour accessors guard the
//! column boundary, so rows do not bleed into one another.

use vstd::prelude::*;

use crate::daisy::{spec_black, spec_white, Daisy};
use crate::params::{BLACK_SEED_BOUND, HALF, UNIT, WHITE_SEED_BOUND};
use crate::radiance::{spec_is_temp, temperature_from_albedo};
use crate::rng::{
    lemma_advance_n_predictable, lemma_advance_n_snoc, spec_advance_n, spec_draw_at, RandomSource,
};

verus! {

/// A cell is well formed when it is empty or holds a well-formed daisy.
pub open spec fn spec_cell_wf(c: Option<Daisy>) -> bool {
    match c {
        Some(d) => d.wf(),
        None => true,
    }
}

/// The albedo a cell contributes, in millionths: its daisy's albedo, or the
/// bare-ground albedo when the cell is empty or absent.
pub open spec fn spec_cell_albedo(c: Option<Daisy>) -> int {
    match c {
        Some(d) => d.albedo as int,
        None => HALF as int,
    }
}

/// The albedo a cell contributes, in millionths.
pub fn cell_albedo(c: &Option<Daisy>) -> (a: u64)
    ensures
        a == spec_cell_albedo(*c),
{
    match c {
        Some(d) => d.albedo,
        None => HALF,
    }
}

/// The sum of the albedo contributions of a row of cells, in millionths.
pub open spec fn spec_sum_albedo(s: Seq<Option<Daisy>>) -> int
    decreases s.len(),
{
    if s.len() == 0 {
        0
    } else {
        spec_sum_albedo(s.drop_last()) + spec_cell_albedo(s.last())
    }
}

/// The number of empty cells in a row of cells.
pub open spec fn spec_count_empty(s: Seq<Option<Daisy>>) -> int
    decreases s.len(),
{
    if s.len() == 0 {
        0
    } else {
        spec_count_empty(s.drop_last()) + if s.last() is None {
            1int
        } else {
            0int
        }
    }
}

/// The seeded occupant for one initialization draw (in millionths): a black
/// daisy below one tenth, a white daisy below two tenths, empty otherwise.
pub open spec fn spec_seed_cell(r: u64) -> Option<Daisy> {
    if r < BLACK_SEED_BOUND {
        Some(spec_black())
    } else if r < WHITE_SEED_BOUND {
        Some(spec_white())
    } else {
        None
    }
}

/// The seeded occupant for one initialization draw.
pub fn seed_cell(r: u64) -> (c: Option<Daisy>)
    ensures
        c == spec_seed_cell(r),
        spec_cell_wf(c),
{
    if r < BLACK_SEED_BOUND {
        Some(Daisy::black())
    } else if r < WHITE_SEED_BOUND {
        Some(Daisy::white())
    } else {
        None
    }
}

/// Seeding law: a draw at or above the white bound leaves the cell empty,
/// so a source that never draws below two tenths seeds an all-empty world.
pub proof fn lemma_seed_cell_high(r: u64)
    requires
        r >= WHITE_SEED_BOUND,
    ensures
        spec_seed_cell(r) is None,
{
}

/// The world for one generation: grid dimensions, row-major cells, and the
/// global per-generation death rate in millionths.
pub struct World {
    pub width: usize,
    pub height: usize,
    pub cells: Vec<Option<Daisy>>,
    pub death_rate: u64,
}

impl World {
    /// Well-formedness: positive dimensions, row-major cell count, and the
    /// death rate and every daisy's albedo inside the unit interval.
    pub open spec fn wf(self) -> bool {
        &&& 1 <= self.width
        &&& 1 <= self.height
        &&& self.cells@.len() == self.width * self.height
        &&& self.death_rate <= UNIT
        &&& forall|i: int|
            0 <= i < self.cells@.len() ==> spec_cell_wf(#[trigger] self.cells@[i])
    }

    /// The number of cells.
    pub fn size(&self) -> (n: usize)
        requires
            self.wf(),
        ensures
            n == self.width * self.height,
            n == self.cells@.len(),
    {
        self.cells.len()
    }

    /// The occupant of cell `i`: absent when `i` is out of range or the
    /// cell is empty.
    pub open spec fn spec_at(self, i: int) -> Option<Daisy> {
        if 0 <= i < self.cells@.len() {
            self.cells@[i]
        } else {
            None
        }
    }

    /// The occupant of cell `i`; out-of-range indices yield absent.
    pub fn at(&self, i: usize) -> (c: Option<Daisy>)
        ensures
            c == self.spec_at(i as int),
    {
        if i < self.cells.len() {
            self.cells[i]
        } else {
            None
        }
    }

    /// The occupant of the cell above `i` (one row up), absent in the top
    /// row.
    pub open spec fn spec_above(self, i: int) -> Option<Daisy> {
        if i >= self.width {
            self.spec_at(i - self.width)
        } else {
            None
        }
    }

    /// The occupant of the cell above `i`.
    pub fn above(&self, i: usize) -> (c: Option<Daisy>)
        ensures
            c == self.spec_above(i as int),
    {
        if i >= self.width {
            self.at(i - self.width)
        } else {
            None
        }
    }

    /// The occupant of the cell below `i` (one row down), absent in the
    /// bottom row.
    pub open spec fn spec_below(self, i: int) -> Option<Daisy> {
        if i + self.width < self.cells@.len() {
            self.spec_at(i + self.width)
        } else {
            None
        }
    }

    /// The occupant of the cell below `i`.
    pub fn below(&self, i: usize) -> (c: Option<Daisy>)
        requires
            self.wf(),
        ensures
            c == self.spec_below(i as int),
    {
        if i < self.cells.len() && self.cells.len() - i > self.width {
            self.at(i + self.width)
        } else {
            None
        }
    }

    /// The occupant of the cell to the left of `i`, absent in the leftmost
    /// column: rows do not wrap.
    pub open spec fn spec_left_of(self, i: int) -> Option<Daisy> {
        if 0 < self.width && i % (self.width as int) != 0 {
            self.spec_at(i - 1)
        } else {
            None
        }
    }

    /// The occupant of the cell to the left of `i`.
    pub fn left_of(&self, i: usize) -> (c: Option<Daisy>)
        requires
            self.wf(),
        ensures
            c == self.spec_left_of(i as int),
    {
        if i % self.width != 0 {
            assert(i > 0) by (nonlinear_arith)
                requires
                    (i as int) % (self.width as int) != 0,
                    0 < self.width,
            ;
            self.at(i - 1)
        } else {
            None
        }
    }

    /// The occupant of the cell to the right of `i`, absent in the
    /// rightmost column: rows do not wrap.
    pub open spec fn spec_right_of(self, i: int) -> Option<Daisy> {
        if 0 <= i < self.cells@.len() && 0 < self.width && i % (self.width as int) != self.width
            - 1 {
            self.spec_at(i + 1)
        } else {
            None
        }
    }

    /// The occupant of the cell to the right of `i`.
    pub fn right_of(&self, i: usize) -> (c: Option<Daisy>)
        requires
            self.wf(),
        ensures
            c == self.spec_right_of(i as int),
    {
        if i < self.cells.len() && i % self.width != self.width - 1 {
            self.at(i + 1)
        } else {
            None
        }
    }

    /// The local albedo for temperature at cell `i`, in millionths: the
    /// cell's own albedo blended with its four orthogonal neighbours with
    /// diffusivity one eighth, so one half of the weight stays on the cell.
    /// Absent or empty cells contribute the bare-ground albedo.
    pub open spec fn spec_local_albedo(self, i: int) -> int {
        (4 * spec_cell_albedo(self.spec_at(i)) + spec_cell_albedo(self.spec_above(i))
            + spec_cell_albedo(self.spec_right_of(i)) + spec_cell_albedo(self.spec_left_of(i))
            + spec_cell_albedo(self.spec_below(i))) / 8
    }

    /// The local albedo for temperature at cell `i`, in millionths.
    pub fn local_albedo(&self, i: usize) -> (a: u64)
        requires
            self.wf(),
        ensures
            a == self.spec_local_albedo(i as int),
            a <= UNIT,
    {
        proof {
            self.lemma_cell_albedo_bounds(i as int);
        }
        let own: u64 = cell_albedo(&self.at(i));
        let ab: u64 = cell_albedo(&self.above(i));
        let rt: u64 = cell_albedo(&self.right_of(i));
        let lf: u64 = cell_albedo(&self.left_of(i));
        let be: u64 = cell_albedo(&self.below(i));
        (4 * own + ab + rt + lf + be) / 8
    }

    /// Every cell a query can yield contributes an albedo in the unit
    /// interval.
    proof fn lemma_cell_albedo_bounds(self, i: int)
        requires
            self.wf(),
        ensures
            spec_cell_albedo(self.spec_at(i)) <= UNIT,
            spec_cell_albedo(self.spec_above(i)) <= UNIT,
            spec_cell_albedo(self.spec_right_of(i)) <= UNIT,
            spec_cell_albedo(self.spec_left_of(i)) <= UNIT,
            spec_cell_albedo(self.spec_below(i)) <= UNIT,
            0 <= spec_cell_albedo(self.spec_at(i)),
            0 <= spec_cell_albedo(self.spec_above(i)),
            0 <= spec_cell_albedo(self.spec_right_of(i)),
            0 <= spec_cell_albedo(self.spec_left_of(i)),
            0 <= spec_cell_albedo(self.spec_below(i)),
    {
    }

    /// One local radiative-equilibrium temperature per cell, in
    /// millikelvin, computed fresh from the current grid alone.
    pub fn temperature_field(&self) -> (t: Vec<u64>)
        requires
            self.wf(),
        ensures
            t@.len() == self.cells@.len(),
            forall|i: int|
                0 <= i < t@.len() ==> spec_is_temp(
                    self.spec_local_albedo(i),
                    #[trigger] t@[i] as int,
                ),
    {
        let n = self.cells.len();
        let mut t: Vec<u64> = Vec::new();
        let mut i: usize = 0;
        while i < n
            invariant
                self.wf(),
                n == self.cells@.len(),
                i <= n,
                t@.len() == i,
                forall|j: int|
                    0 <= j < i ==> spec_is_temp(self.spec_local_albedo(j), #[trigger] t@[j] as int),
            decreases n - i,
        {
            let la = self.local_albedo(i);
            let temp = temperature_from_albedo(la);
            t.push(temp);
            i = i + 1;
        }
        t
    }

    /// Mean albedo over all cells, in millionths (the planetary albedo):
    /// the truncated mean of the per-cell contributions, empty cells
    /// counting as bare ground.
    pub fn albedo(&self) -> (a: u64)
        requires
            self.wf(),
        ensures
            a == spec_sum_albedo(self.cells@) / (self.cells@.len() as int),
            a <= UNIT,
    {
        let n = self.cells.len();
        proof {
            assert(0 < self.width * self.height) by (nonlinear_arith)
                requires
                    1 <= self.width,
                    1 <= self.height,
            ;
        }
        let mut sum: u128 = 0;
        let mut i: usize = 0;
        while i < n
            invariant
                self.wf(),
                n == self.cells@.len(),
                i <= n,
                sum == spec_sum_albedo(self.cells@.take(i as int)),
                sum <= i * 1_000_000,
            decreases n - i,
        {
            proof {
                assert(spec_cell_wf(self.cells@[i as int]));
                assert(self.cells@.take(i as int + 1).drop_last() =~= self.cells@.take(i as int));
                assert(self.cells@.take(i as int + 1).last() == self.cells@[i as int]);
            }
            let a = cell_albedo(&self.at(i));
            sum = sum + (a as u128);
            i = i + 1;
        }
        proof {
            assert(self.cells@.take(n as int) =~= self.cells@);
            assert(sum / (n as u128) <= UNIT) by (nonlinear_arith)
                requires
                    sum <= n * 1_000_000,
                    0 < n,
                    UNIT == 1_000_000u64,
            ;
        }
        (sum / (n as u128)) as u64
    }

    /// The number of empty cells.
    pub fn empty_count(&self) -> (n: usize)
        ensures
            n == spec_count_empty(self.cells@),
    {
        let len = self.cells.len();
        let mut count: usize = 0;
        let mut i: usize = 0;
        while i < len
            invariant
                len == self.cells@.len(),
                i <= len,
                count == spec_count_empty(self.cells@.take(i as int)),
                count <= i,
            decreases len - i,
        {
            proof {
                assert(self.cells@.take(i as int + 1).drop_last() =~= self.cells@.take(i as int));
                assert(self.cells@.take(i as int + 1).last() == self.cells@[i as int]);
            }
            if self.cells[i].is_none() {
                count = count + 1;
            }
            i = i + 1;
        }
        proof {
            assert(self.cells@.take(len as int) =~= self.cells@);
        }
        count
    }

    /// A freshly seeded world: each cell is drawn independently, black
    /// below one tenth, white below two tenths, empty otherwise.
    pub fn new_randomized<R: RandomSource>(
        width: usize,
        height: usize,
        death_rate: u64,
        rng: &mut R,
    ) -> (w: World)
        requires
            1 <= width,
            1 <= height,
            width * height <= usize::MAX,
            death_rate <= UNIT,
        ensures
            w.wf(),
            w.width == width,
            w.height == height,
            w.death_rate == death_rate,
            w.cells@.len() == width * height,
            forall|i: int|
                0 <= i < w.cells@.len() ==> (#[trigger] w.cells@[i]) is None || w.cells@[i]
                    == Some(spec_black()) || w.cells@[i] == Some(spec_white()),
            final(rng).spec_predictable() == old(rng).spec_predictable(),
            old(rng).spec_predictable() ==> (forall|i: int|
                0 <= i < w.cells@.len() ==> (#[trigger] w.cells@[i]) == spec_seed_cell(
                    spec_draw_at(*old(rng), i as nat),
                )) && *final(rng) == spec_advance_n(*old(rng), (width * height) as nat),
    {
        let n: usize = width * height;
        let mut cells: Vec<Option<Daisy>> = Vec::new();
        let mut i: usize = 0;
        while i < n
            invariant
                i <= n,
                n == width * height,
                cells@.len() == i,
                forall|j: int|
                    0 <= j < i ==> (#[trigger] cells@[j]) is None || cells@[j] == Some(
                        spec_black(),
                    ) || cells@[j] == Some(spec_white()),
                forall|j: int| 0 <= j < i ==> spec_cell_wf(#[trigger] cells@[j]),
                rng.spec_predictable() == old(rng).spec_predictable(),
                old(rng).spec_predictable() ==> *rng == spec_advance_n(*old(rng), i as nat)
                    && forall|j: int|
                    0 <= j < i ==> (#[trigger] cells@[j]) == spec_seed_cell(
                        spec_draw_at(*old(rng), j as nat),
                    ),
            decreases n - i,
        {
            proof {
                if old(rng).spec_predictable() {
                    lemma_advance_n_predictable(*old(rng), i as nat);
                    lemma_advance_n_snoc(*old(rng), i as nat);
                }
            }
            let r = rng.next_unit();
            let c = seed_cell(r);
            cells.push(c);
            i = i + 1;
        }
        World { width, height, cells, death_rate }
    }

    /// An all-empty world of the given dimensions.
    pub fn new_empty(width: usize, height: usize, death_rate: u64) -> (w: World)
        requires
            1 <= width,
            1 <= height,
            width * height <= usize::MAX,
            death_rate <= UNIT,
        ensures
            w.wf(),
            w.width == width,
            w.height == height,
            w.death_rate == death_rate,
            forall|i: int| 0 <= i < w.cells@.len() ==> (#[trigger] w.cells@[i]) is None,
    {
        let n: usize = width * height;
        let mut cells: Vec<Option<Daisy>> = Vec::new();
        let mut i: usize = 0;
        while i < n
            invariant
                i <= n,
                cells@.len() == i,
                forall|j: int| 0 <= j < i ==> (#[trigger] cells@[j]) is None,
            decreases n - i,
        {
            cells.push(None);
            i = i + 1;
        }
        World { width, height, cells, death_rate }
    }
}

/// The seeding half of the idempotence law: a predictable source none of
/// whose draws falls below the white bound seeds an all-empty world. The
/// first premise is what `new_randomized` ensures of a predictable source.
pub proof fn lemma_high_draws_seed_all_empty<R: RandomSource>(rng: R, w: World)
    requires
        forall|i: int|
            0 <= i < w.cells@.len() ==> #[trigger] w.cells@[i] == spec_seed_cell(
                spec_draw_at(rng, i as nat),
            ),
        forall|k: nat| spec_draw_at(rng, k) >= WHITE_SEED_BOUND,
    ensures
        forall|i: int| 0 <= i < w.cells@.len() ==> (#[trigger] w.cells@[i]) is None,
{
    assert forall|i: int| 0 <= i < w.cells@.len() implies (#[trigger] w.cells@[i]) is None by {
        assert(spec_draw_at(rng, i as nat) >= WHITE_SEED_BOUND);
    }
}

/// The mean-albedo law for bare ground: in an all-empty world, the
/// planetary albedo is exactly one half.
pub proof fn lemma_mean_albedo_all_empty(w: World)
    requires
        w.wf(),
        forall|i: int| 0 <= i < w.cells@.len() ==> (#[trigger] w.cells@[i]) is None,
    ensures
        spec_sum_albedo(w.cells@) / (w.cells@.len() as int) == HALF,
{
    lemma_sum_albedo_all_empty(w.cells@);
    assert(0 < w.width * w.height) by (nonlinear_arith)
        requires
            1 <= w.width,
            1 <= w.height,
    ;
    let n = w.cells@.len() as int;
    assert((n * (HALF as int)) / n == HALF) by (nonlinear_arith)
        requires
            0 < n,
    ;
}

/// The albedo sum of an all-empty row of cells is the bare-ground albedo
/// times its length.
proof fn lemma_sum_albedo_all_empty(s: Seq<Option<Daisy>>)
    requires
        forall|i: int| 0 <= i < s.len() ==> (#[trigger] s[i]) is None,
    ensures
        spec_sum_albedo(s) == s.len() * (HALF as int),
    decreases s.len(),
{
    if s.len() > 0 {
        lemma_sum_albedo_all_empty(s.drop_last());
        assert(s.last() is None);
        assert(s.len() * (HALF as int) == (s.len() - 1) * (HALF as int) + HALF)
            by (nonlinear_arith);
    }
}

/// The single-cell law: in a one-by-one world all four neighbour lookups
/// are absent, and the local albedo reduces to the cell's own term, every
/// neighbour slot contributing bare ground.
pub proof fn lemma_single_cell_world(w: World)
    requires
        w.wf(),
        w.width == 1,
        w.height == 1,
    ensures
        w.spec_above(0) is None,
        w.spec_below(0) is None,
        w.spec_left_of(0) is None,
        w.spec_right_of(0) is None,
        w.spec_local_albedo(0) == (4 * spec_cell_albedo(w.cells@[0]) + 4 * (HALF as int)) / 8,
        w.cells@[0] is None ==> w.spec_local_albedo(0) == HALF,
{
}

} // verus!
