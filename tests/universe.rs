use game_of_life::{Cell, Universe};

fn dead_universe(width: u32, height: u32) -> Universe {
    let mut u = Universe::new();
    u.set_width(width);
    u.set_height(height);
    u
}

fn alive_set(u: &Universe) -> Vec<(u32, u32)> {
    u.cells_in_state(Cell::Alive)
}

fn index(u: &Universe, row: u32, col: u32) -> usize {
    (row * u.width() + col) as usize
}

#[test]
fn new_is_128_by_128_with_seed_pattern() {
    let u = Universe::new();
    assert_eq!(u.width(), 128);
    assert_eq!(u.height(), 128);
    let cells = u.get_cells();
    assert_eq!(cells.len(), 128 * 128);
    assert_eq!(cells[0], Cell::Alive);
    assert_eq!(cells[1], Cell::Dead);
    assert_eq!(cells[2], Cell::Alive);
    assert_eq!(cells[7], Cell::Alive);
    assert_eq!(cells[9], Cell::Dead);
    assert_eq!(cells[21], Cell::Alive);
    assert_eq!(cells[35], Cell::Alive);
    assert_eq!(cells[16383], Cell::Dead);
    for (i, c) in cells.iter().enumerate() {
        let expected = if i % 2 == 0 || i % 7 == 0 { Cell::Alive } else { Cell::Dead };
        assert_eq!(*c, expected);
    }
}

#[test]
fn cell_discriminants() {
    assert_eq!(Cell::Dead.as_u8(), 0);
    assert_eq!(Cell::Alive.as_u8(), 1);
}

#[test]
fn length_matches_dimensions_after_each_operation() {
    let mut u = Universe::new();
    assert_eq!(u.get_cells().len(), 128 * 128);
    u.tick();
    assert_eq!(u.get_cells().len(), 128 * 128);
    u.toggle_cell(5, 9);
    assert_eq!(u.get_cells().len(), 128 * 128);
    u.set_width(10);
    assert_eq!(u.get_cells().len(), 10 * 128);
    u.set_height(7);
    assert_eq!(u.get_cells().len(), 10 * 7);
    u.tick();
    assert_eq!(u.get_cells().len(), 70);
    u.set_cells(&[(6, 9)]);
    assert_eq!(u.get_cells().len(), 70);
}

#[test]
fn neighbours_wrap_around_the_corner() {
    let mut u = dead_universe(4, 4);
    u.set_cells(&[(3, 3), (3, 0), (0, 3)]);
    u.tick();
    // (0, 0) sees the three cells only across the edges.
    assert_eq!(u.get_cells()[index(&u, 0, 0)], Cell::Alive);
    // (1, 1) sees none of them.
    assert_eq!(u.get_cells()[index(&u, 1, 1)], Cell::Dead);
}

#[test]
fn three_by_three_torus_every_cell_neighbours_every_other() {
    let mut u = dead_universe(3, 3);
    u.set_cells(&[(2, 2), (2, 0), (0, 2)]);
    u.tick();
    assert!(u.get_cells().iter().all(|c| *c == Cell::Alive));
}

#[test]
fn live_cell_with_one_neighbour_dies() {
    let mut u = dead_universe(6, 6);
    u.set_cells(&[(2, 2), (2, 3)]);
    u.tick();
    assert_eq!(u.get_cells()[index(&u, 2, 2)], Cell::Dead);
}

#[test]
fn live_cell_with_no_neighbour_dies() {
    let mut u = dead_universe(6, 6);
    u.set_cells(&[(2, 2)]);
    u.tick();
    assert_eq!(u.get_cells()[index(&u, 2, 2)], Cell::Dead);
}

#[test]
fn live_cell_with_two_neighbours_lives() {
    let mut u = dead_universe(6, 6);
    u.set_cells(&[(2, 2), (2, 1), (2, 3)]);
    u.tick();
    assert_eq!(u.get_cells()[index(&u, 2, 2)], Cell::Alive);
}

#[test]
fn live_cell_with_three_neighbours_lives() {
    let mut u = dead_universe(6, 6);
    u.set_cells(&[(2, 2), (1, 1), (1, 3), (3, 2)]);
    u.tick();
    assert_eq!(u.get_cells()[index(&u, 2, 2)], Cell::Alive);
}

#[test]
fn live_cell_with_four_neighbours_dies() {
    let mut u = dead_universe(6, 6);
    u.set_cells(&[(2, 2), (1, 2), (3, 2), (2, 1), (2, 3)]);
    u.tick();
    assert_eq!(u.get_cells()[index(&u, 2, 2)], Cell::Dead);
}

#[test]
fn dead_cell_with_three_neighbours_comes_alive() {
    let mut u = dead_universe(6, 6);
    u.set_cells(&[(1, 1), (1, 2), (1, 3)]);
    u.tick();
    assert_eq!(u.get_cells()[index(&u, 2, 2)], Cell::Alive);
}

#[test]
fn dead_cell_with_two_neighbours_stays_dead() {
    let mut u = dead_universe(6, 6);
    u.set_cells(&[(1, 1), (1, 3)]);
    u.tick();
    assert_eq!(u.get_cells()[index(&u, 2, 2)], Cell::Dead);
}

#[test]
fn dead_cell_with_four_neighbours_stays_dead() {
    let mut u = dead_universe(6, 6);
    u.set_cells(&[(1, 1), (1, 3), (3, 1), (3, 3)]);
    u.tick();
    assert_eq!(u.get_cells()[index(&u, 2, 2)], Cell::Dead);
}

#[test]
fn block_is_a_still_life() {
    let mut u = dead_universe(6, 6);
    u.set_cells(&[(2, 2), (2, 3), (3, 2), (3, 3)]);
    let start = u.get_cells().to_vec();
    for _ in 0..10 {
        u.tick();
        assert_eq!(u.get_cells(), &start[..]);
    }
}

#[test]
fn blinker_has_period_two() {
    let mut u = dead_universe(5, 5);
    u.set_cells(&[(2, 1), (2, 2), (2, 3)]);
    let start = u.get_cells().to_vec();
    u.tick();
    assert_eq!(alive_set(&u), vec![(1, 2), (2, 2), (3, 2)]);
    assert_ne!(u.get_cells(), &start[..]);
    u.tick();
    assert_eq!(u.get_cells(), &start[..]);
}

#[test]
fn toggle_flips_only_that_cell() {
    let mut u = Universe::new();
    let before = u.get_cells().to_vec();
    u.toggle_cell(3, 5);
    let after = u.get_cells().to_vec();
    let idx = 3 * 128 + 5;
    assert_eq!(before[idx], Cell::Dead);
    assert_eq!(after[idx], Cell::Alive);
    for i in 0..before.len() {
        if i != idx {
            assert_eq!(before[i], after[i]);
        }
    }
    u.toggle_cell(3, 5);
    assert_eq!(u.get_cells(), &before[..]);
}

#[test]
fn toggle_alive_cell_kills_it() {
    let mut u = Universe::new();
    assert_eq!(u.get_cells()[0], Cell::Alive);
    u.toggle_cell(0, 0);
    assert_eq!(u.get_cells()[0], Cell::Dead);
}

#[test]
fn set_width_resets_every_cell() {
    let mut u = Universe::new();
    u.set_width(64);
    assert_eq!(u.width(), 64);
    assert_eq!(u.height(), 128);
    assert_eq!(u.get_cells().len(), 64 * 128);
    assert!(u.get_cells().iter().all(|c| *c == Cell::Dead));
}

#[test]
fn set_height_resets_every_cell() {
    let mut u = Universe::new();
    u.set_height(32);
    assert_eq!(u.width(), 128);
    assert_eq!(u.height(), 32);
    assert_eq!(u.get_cells().len(), 128 * 32);
    assert!(u.get_cells().iter().all(|c| *c == Cell::Dead));
}

#[test]
fn set_width_to_same_value_still_resets() {
    let mut u = Universe::new();
    u.set_width(128);
    assert_eq!(u.get_cells().len(), 128 * 128);
    assert!(u.get_cells().iter().all(|c| *c == Cell::Dead));
}

#[test]
fn set_cells_on_dead_grid() {
    let mut u = dead_universe(4, 4);
    u.set_cells(&[(0, 0), (1, 1)]);
    let cells = u.get_cells();
    for i in 0..16 {
        let expected = if i == 0 || i == 5 { Cell::Alive } else { Cell::Dead };
        assert_eq!(cells[i], expected);
    }
}

#[test]
fn set_cells_repeated_and_empty() {
    let mut u = dead_universe(3, 2);
    u.set_cells(&[]);
    assert!(u.get_cells().iter().all(|c| *c == Cell::Dead));
    u.set_cells(&[(1, 2), (1, 2), (0, 1)]);
    assert_eq!(alive_set(&u), vec![(0, 1), (1, 2)]);
}

#[test]
fn set_cells_keeps_live_cells_alive() {
    let mut u = Universe::new();
    let before = u.get_cells().to_vec();
    u.set_cells(&[(0, 0), (0, 1)]);
    let after = u.get_cells();
    assert_eq!(after[0], Cell::Alive);
    assert_eq!(after[1], Cell::Alive);
    assert_eq!(&after[2..], &before[2..]);
}

#[test]
fn cells_in_state_lists_row_major() {
    let mut u = dead_universe(3, 3);
    u.set_cells(&[(2, 0), (0, 2), (1, 1)]);
    assert_eq!(u.cells_in_state(Cell::Alive), vec![(0, 2), (1, 1), (2, 0)]);
    assert_eq!(
        u.cells_in_state(Cell::Dead),
        vec![(0, 0), (0, 1), (1, 0), (1, 2), (2, 1), (2, 2)]
    );
}

#[test]
fn zero_width_grid_ticks() {
    let mut u = Universe::new();
    u.set_width(0);
    assert_eq!(u.get_cells().len(), 0);
    u.tick();
    assert_eq!(u.get_cells().len(), 0);
}

#[test]
fn one_by_one_grid_counts_itself_eight_times() {
    // The sole cell is all eight of its own neighbours: alive, it has eight
    // and dies of overpopulation.
    let mut u = dead_universe(1, 1);
    u.set_cells(&[(0, 0)]);
    u.tick();
    assert_eq!(u.get_cells()[0], Cell::Dead);
}
