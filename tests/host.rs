use game_of_life::{canvas_extent, pixel_offset, Cell, Session, Universe, CELL_SIZE};

fn dead_universe(width: u32, height: u32) -> Universe {
    let mut u = Universe::new();
    u.set_width(width);
    u.set_height(height);
    u
}

#[test]
fn pixel_offsets() {
    assert_eq!(CELL_SIZE, 5);
    assert_eq!(pixel_offset(0), 1);
    assert_eq!(pixel_offset(1), 7);
    assert_eq!(pixel_offset(3), 19);
}

#[test]
fn canvas_extent_of_default_grid() {
    assert_eq!(canvas_extent(128), 769);
    assert_eq!(canvas_extent(0), 1);
    assert_eq!(canvas_extent(1), 7);
}

#[test]
fn session_starts_playing_and_toggles() {
    let mut s = Session::new(Universe::new());
    assert!(s.is_playing());
    assert!(!s.on_play_pause());
    assert!(!s.is_playing());
    assert!(s.on_play_pause());
    assert!(s.is_playing());
}

#[test]
fn session_frame_advances_a_generation() {
    let mut u = dead_universe(5, 5);
    u.set_cells(&[(2, 1), (2, 2), (2, 3)]);
    let mut s = Session::new(u);
    assert!(s.on_frame());
    assert_eq!(
        s.universe().cells_in_state(Cell::Alive),
        vec![(1, 2), (2, 2), (3, 2)]
    );
    s.on_play_pause();
    assert!(!s.on_frame());
    assert_eq!(
        s.universe().cells_in_state(Cell::Alive),
        vec![(2, 1), (2, 2), (2, 3)]
    );
}

#[test]
fn session_press_flips_the_cell() {
    let mut s = Session::new(dead_universe(4, 3));
    s.on_press(1, 2);
    assert_eq!(s.universe().cells_in_state(Cell::Alive), vec![(1, 2)]);
    s.on_press(1, 2);
    assert!(s.universe().cells_in_state(Cell::Alive).is_empty());
}

#[test]
fn session_press_past_the_edge_is_held_to_the_grid() {
    let mut s = Session::new(dead_universe(4, 3));
    s.on_press(1000, 7);
    assert_eq!(s.universe().cells_in_state(Cell::Alive), vec![(2, 3)]);
    assert!(s.is_playing());
}
