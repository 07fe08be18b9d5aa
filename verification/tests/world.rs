//! Tests of the world grid: neighbour lookups on the bounded lattice,
//! aggregate statistics, the temperature field and randomized seeding.

use daisyworld::daisy::Daisy;
use daisyworld::radiance::{fourth_root, temperature_from_albedo};
use daisyworld::rng::{ConstantSource, EntropySource, RandomSource, ScriptedSource};
use daisyworld::world::{seed_cell, World};

#[test]
fn single_cell_world_has_no_neighbours() {
    let w = World {
        width: 1,
        height: 1,
        cells: vec![Some(Daisy::black())],
        death_rate: 300_000,
    };
    assert_eq!(w.at(0), Some(Daisy::black()));
    assert_eq!(w.above(0), None);
    assert_eq!(w.below(0), None);
    assert_eq!(w.left_of(0), None);
    assert_eq!(w.right_of(0), None);
    assert_eq!(w.at(1), None);
}

#[test]
fn neighbours_do_not_wrap_rows() {
    // row-major 2x2 grid: indices 0 1 / 2 3
    let a = Daisy { albedo: 100_000, volatility: 0 };
    let b = Daisy { albedo: 200_000, volatility: 0 };
    let c = Daisy { albedo: 300_000, volatility: 0 };
    let d = Daisy { albedo: 400_000, volatility: 0 };
    let w = World {
        width: 2,
        height: 2,
        cells: vec![Some(a), Some(b), Some(c), Some(d)],
        death_rate: 0,
    };
    assert_eq!(w.above(0), None);
    assert_eq!(w.above(2), Some(a));
    assert_eq!(w.below(1), Some(d));
    assert_eq!(w.below(3), None);
    assert_eq!(w.left_of(1), Some(a));
    // leftmost column: no bleed into the previous row
    assert_eq!(w.left_of(2), None);
    assert_eq!(w.right_of(2), Some(d));
    // rightmost column: no bleed into the next row
    assert_eq!(w.right_of(1), None);
    assert_eq!(w.right_of(4), None);
}

#[test]
fn mean_albedo_of_all_empty_grid_is_half() {
    let w = World::new_empty(4, 5, 300_000);
    assert_eq!(w.albedo(), 500_000);
}

#[test]
fn mean_albedo_mixed_exact() {
    // (0.25 + 0.5) / 2 = 0.375
    let w = World {
        width: 2,
        height: 1,
        cells: vec![Some(Daisy::black()), None],
        death_rate: 0,
    };
    assert_eq!(w.albedo(), 375_000);
}

#[test]
fn empty_count_counts_unoccupied_cells() {
    let w = World {
        width: 3,
        height: 1,
        cells: vec![None, Some(Daisy::white()), None],
        death_rate: 0,
    };
    assert_eq!(w.empty_count(), 2);
    assert_eq!(w.size(), 3);
}

#[test]
fn fourth_root_exact_values() {
    assert_eq!(fourth_root(0), 0);
    assert_eq!(fourth_root(1), 1);
    assert_eq!(fourth_root(15), 1);
    assert_eq!(fourth_root(16), 2);
    assert_eq!(fourth_root(u128::MAX), 4_294_967_295);
}

#[test]
fn temperature_of_bare_ground() {
    // albedo 1/2: T = (917/5.67e-8 * 0.5)^(1/4) = 299.874 K
    assert_eq!(temperature_from_albedo(500_000), 299_874);
}

#[test]
fn temperature_field_single_empty_cell() {
    // every neighbour slot contributes bare ground, so the single cell
    // reduces to the bare-ground temperature
    let w = World::new_empty(1, 1, 300_000);
    let t = w.temperature_field();
    assert_eq!(t, vec![299_874]);
}

#[test]
fn temperature_field_single_black_cell() {
    // local albedo (4*0.25 + 4*0.5)/8 = 0.375: darker ground runs hotter
    let w = World {
        width: 1,
        height: 1,
        cells: vec![Some(Daisy::black())],
        death_rate: 300_000,
    };
    let t = w.temperature_field();
    assert_eq!(t, vec![317_078]);
}

#[test]
fn seed_cell_quantiles() {
    assert_eq!(seed_cell(0), Some(Daisy::black()));
    assert_eq!(seed_cell(99_999), Some(Daisy::black()));
    assert_eq!(seed_cell(100_000), Some(Daisy::white()));
    assert_eq!(seed_cell(199_999), Some(Daisy::white()));
    assert_eq!(seed_cell(200_000), None);
    assert_eq!(seed_cell(999_999), None);
}

#[test]
fn randomized_world_with_high_draws_is_all_empty() {
    let mut rng = ConstantSource { value: 200_000 };
    let w = World::new_randomized(5, 4, 300_000, &mut rng);
    assert_eq!(w.cells.len(), 20);
    assert_eq!(w.empty_count(), 20);
    assert!(w.cells.iter().all(|c| c.is_none()));
}

#[test]
fn randomized_world_with_low_draws_is_all_black() {
    let mut rng = ConstantSource { value: 0 };
    let w = World::new_randomized(3, 3, 300_000, &mut rng);
    assert!(w.cells.iter().all(|c| *c == Some(Daisy::black())));
}

#[test]
fn randomized_world_follows_the_draw_sequence() {
    // one seeding draw per cell, in row-major order
    let mut rng = ScriptedSource::new(vec![0, 150_000, 999_999, 50_000]);
    let w = World::new_randomized(2, 2, 300_000, &mut rng);
    assert_eq!(w.cells[0], Some(Daisy::black()));
    assert_eq!(w.cells[1], Some(Daisy::white()));
    assert_eq!(w.cells[2], None);
    assert_eq!(w.cells[3], Some(Daisy::black()));
    assert_eq!(rng.pos, 4);
}

#[test]
fn randomized_world_with_mid_draws_is_all_white() {
    let mut rng = ConstantSource { value: 150_000 };
    let w = World::new_randomized(2, 3, 0, &mut rng);
    assert!(w.cells.iter().all(|c| *c == Some(Daisy::white())));
}

#[test]
fn entropy_source_stays_in_unit_interval() {
    let mut rng = EntropySource {};
    for _ in 0..1000 {
        assert!(rng.next_unit() < 1_000_000);
    }
}

#[test]
fn constant_source_reduces_modulo_unit() {
    let mut rng = ConstantSource { value: 2_345_678 };
    assert_eq!(rng.next_unit(), 345_678);
    assert_eq!(rng.next_unit(), 345_678);
}

#[test]
fn scripted_source_replays_then_zeroes() {
    let mut rng = ScriptedSource::new(vec![5, 7, 1_000_001]);
    assert_eq!(rng.next_unit(), 5);
    assert_eq!(rng.next_unit(), 7);
    assert_eq!(rng.next_unit(), 1);
    assert_eq!(rng.next_unit(), 0);
    assert_eq!(rng.next_unit(), 0);
}
