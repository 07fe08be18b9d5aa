//! End-to-end tests of the generational state transition.

use daisyworld::daisy::Daisy;
use daisyworld::rng::{ConstantSource, EntropySource, ScriptedSource};
use daisyworld::step::{birth_accepted, death_strikes};
use daisyworld::world::World;

#[test]
fn quartile_choice_selects_each_neighbour() {
    // row-major 2x2 grid: indices 0 1 / 2 3; pick for the top-left cell
    let a = Daisy { albedo: 100_000, volatility: 0 };
    let b = Daisy { albedo: 200_000, volatility: 0 };
    let c = Daisy { albedo: 300_000, volatility: 0 };
    let w = World {
        width: 2,
        height: 2,
        cells: vec![None, Some(a), Some(b), Some(c)],
        death_rate: 0,
    };
    assert_eq!(w.choose_neighbor(0, 0), None); // above: absent
    assert_eq!(w.choose_neighbor(0, 249_999), None);
    assert_eq!(w.choose_neighbor(0, 250_000), Some(a)); // right
    assert_eq!(w.choose_neighbor(0, 499_999), Some(a));
    assert_eq!(w.choose_neighbor(0, 500_000), Some(b)); // below
    assert_eq!(w.choose_neighbor(0, 749_999), Some(b));
    assert_eq!(w.choose_neighbor(0, 750_000), None); // left: absent
    assert_eq!(w.choose_neighbor(3, 750_000), Some(b)); // left of 3
    assert_eq!(w.choose_neighbor(3, 0), Some(a)); // above 3
}

#[test]
fn acceptance_and_death_are_strict_comparisons() {
    assert!(!birth_accepted(0, 0));
    assert!(birth_accepted(0, 1));
    assert!(birth_accepted(999_999, 1_000_000));
    assert!(!birth_accepted(500_000, 500_000));
    assert!(!death_strikes(0, 0));
    assert!(death_strikes(0, 1));
    assert!(death_strikes(299_999, 300_000));
    assert!(!death_strikes(300_000, 300_000));
}

#[test]
fn death_rate_of_one_whole_clears_every_cell() {
    // every draw is below one whole, so the death pass spares nothing
    let w = World {
        width: 2,
        height: 2,
        cells: vec![
            Some(Daisy::black()),
            Some(Daisy::white()),
            None,
            Some(Daisy::black()),
        ],
        death_rate: 1_000_000,
    };
    let mut rng = EntropySource {};
    let next = w.iterate(&mut rng);
    assert!(next.cells.iter().all(|c| c.is_none()));
}

#[test]
fn fully_viable_surrounded_cell_always_bears() {
    // 3x3 grid, centre empty, its four orthogonal neighbours occupied with
    // albedo 0.557076, which puts the centre's local albedo at 0.528538
    // and its temperature at exactly the optimum: every quartile selects a
    // parent, every accept draw falls below probability one whole, and
    // with death rate zero the newborn survives, whatever the source.
    let v = Daisy { albedo: 557_076, volatility: 50_000 };
    let w = World {
        width: 3,
        height: 3,
        cells: vec![
            None,
            Some(v),
            None,
            Some(v),
            None,
            Some(v),
            None,
            Some(v),
            None,
        ],
        death_rate: 0,
    };
    let mut rng = EntropySource {};
    let next = w.iterate(&mut rng);
    let centre = next.cells[4].expect("centre cell must bear in every outcome");
    assert_eq!(centre.volatility, 50_000);
    assert!(centre.albedo >= 557_076 - 25_000 && centre.albedo <= 557_076 + 25_000);
    // death rate zero: the four parents carry over exactly
    assert_eq!(next.cells[1], Some(v));
    assert_eq!(next.cells[3], Some(v));
    assert_eq!(next.cells[5], Some(v));
    assert_eq!(next.cells[7], Some(v));
}

#[test]
fn all_empty_world_stays_empty_under_any_source() {
    // no reproduction source exists, so even live entropy changes nothing
    let w = World::new_empty(3, 3, 300_000);
    let mut rng = EntropySource {};
    let next = w.iterate(&mut rng);
    assert_eq!(next.cells.len(), 9);
    assert!(next.cells.iter().all(|c| c.is_none()));
}

#[test]
fn step_preserves_dimensions_and_rate() {
    let mut rng = EntropySource {};
    let mut w = World::new_randomized(20, 20, 300_000, &mut rng);
    for _ in 0..5 {
        w = w.iterate(&mut rng);
        assert_eq!(w.width, 20);
        assert_eq!(w.height, 20);
        assert_eq!(w.cells.len(), 400);
        assert_eq!(w.death_rate, 300_000);
    }
}

#[test]
fn zero_source_column_dies_out() {
    // one column of two cells: a white daisy above an empty cell. With a
    // source that always draws zero, the empty cell picks its occupied
    // "above" neighbour (0 falls in the first quartile), the offspring is
    // accepted (0 is below any positive probability), and the death pass
    // then clears every occupied cell (0 is below the death rate): one
    // generation later the world is bare.
    let w = World {
        width: 1,
        height: 2,
        cells: vec![Some(Daisy::white()), None],
        death_rate: 300_000,
    };
    let mut rng = ConstantSource { value: 0 };
    let next = w.iterate(&mut rng);
    assert_eq!(next.cells, vec![None, None]);
}

#[test]
fn scripted_step_births_and_survival() {
    // same column as above, but scripted draws: the empty cell picks its
    // "above" neighbour (draw 0), accepts (draw 0), mutates with draw 0
    // (albedo shifts down by volatility/2), and both cells then survive
    // the death pass (draws 600000, at or above the rate 300000).
    let w = World {
        width: 1,
        height: 2,
        cells: vec![Some(Daisy::white()), None],
        death_rate: 300_000,
    };
    let mut rng = ScriptedSource::new(vec![0, 0, 0, 600_000, 600_000]);
    let next = w.iterate(&mut rng);
    assert_eq!(next.cells[0], Some(Daisy::white()));
    assert_eq!(next.cells[1], Some(Daisy { albedo: 725_000, volatility: 50_000 }));
}

#[test]
fn scripted_step_pins_draw_order() {
    // row-major 2x2 grid, a white daisy at index 0, the rest empty. Cell 1
    // picks "left" (draw 800000 falls in the last quartile), accepts (draw
    // 500000) and mutates with draw 500000, which leaves the albedo
    // unchanged. Cell 2 picks its occupied "above" neighbour (draw 0) but
    // draw 999500 falls at or above the probability 999408, so no birth.
    // Cell 3 picks "below" (draw 500000), which is absent; its accept draw
    // 0 is still consumed. The death pass then clears cell 0 (draw 299999,
    // strictly below the rate) and spares cell 1 (draw 300000).
    let w = World {
        width: 2,
        height: 2,
        cells: vec![Some(Daisy::white()), None, None, None],
        death_rate: 300_000,
    };
    let mut rng = ScriptedSource::new(vec![
        800_000, 500_000, 500_000, 0, 999_500, 500_000, 0, 299_999, 300_000,
    ]);
    let next = w.iterate(&mut rng);
    assert_eq!(next.cells, vec![None, Some(Daisy::white()), None, None]);
}

#[test]
fn scripted_runs_are_reproducible() {
    let w = World {
        width: 2,
        height: 2,
        cells: vec![Some(Daisy::black()), None, None, Some(Daisy::white())],
        death_rate: 300_000,
    };
    let draws = vec![100_000, 200_000, 300_000, 400_000, 0, 1, 2, 3, 4, 5];
    let mut rng1 = ScriptedSource::new(draws.clone());
    let mut rng2 = ScriptedSource::new(draws);
    let next1 = w.iterate(&mut rng1);
    let next2 = w.iterate(&mut rng2);
    assert_eq!(next1.cells, next2.cells);
}

#[test]
fn occupied_cells_carry_over_when_nothing_dies() {
    // death rate zero: the prior occupants carry over untouched, and the
    // empty cell's chosen neighbour (third quartile picks "below", which
    // is absent) yields no newborn.
    let w = World {
        width: 1,
        height: 2,
        cells: vec![Some(Daisy::black()), None],
        death_rate: 0,
    };
    let mut rng = ConstantSource { value: 600_000 };
    let next = w.iterate(&mut rng);
    assert_eq!(next.cells, vec![Some(Daisy::black()), None]);
}
