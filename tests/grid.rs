use wearhouse::instructions::{is_separator, letter};
use wearhouse::{Direction, GridError, Position, Size, Wearhouse};

fn grid(width: u8, height: u8, row: u8, col: u8) -> Wearhouse {
    Wearhouse::new(Size(width, height), Position(row, col)).unwrap()
}

#[test]
fn new_rejects_zero_width() {
    assert_eq!(Wearhouse::new(Size(0, 5), Position(0, 0)).unwrap_err(), GridError::OutOfBounds);
}

#[test]
fn new_rejects_zero_height() {
    assert_eq!(Wearhouse::new(Size(5, 0), Position(0, 0)).unwrap_err(), GridError::OutOfBounds);
}

#[test]
fn new_rejects_row_past_height() {
    assert_eq!(Wearhouse::new(Size(20, 10), Position(10, 0)).unwrap_err(), GridError::OutOfBounds);
}

#[test]
fn new_rejects_col_past_width() {
    assert_eq!(Wearhouse::new(Size(10, 20), Position(0, 10)).unwrap_err(), GridError::OutOfBounds);
}

#[test]
fn new_accepts_last_cell_of_largest_grid() {
    let w = grid(255, 255, 254, 254);
    assert_eq!(w.size, Size(255, 255));
    assert_eq!(w.position, Position(254, 254));
}

#[test]
fn batch_scenario_from_bottom_left() {
    let mut w = grid(10, 10, 9, 0);
    w.batch_moving("N E N E N E N E");
    assert_eq!(w.position, Position(5, 4));
}

#[test]
fn north_at_top_edge_stays() {
    let mut w = grid(10, 10, 0, 5);
    for _ in 0..7 {
        w.moving(Direction::North);
        assert_eq!(w.position, Position(0, 5));
    }
}

#[test]
fn east_at_east_edge_stays() {
    let mut w = grid(10, 10, 5, 9);
    w.moving(Direction::East);
    assert_eq!(w.position, Position(5, 9));
}

#[test]
fn south_four_times_then_clamped() {
    let mut w = grid(10, 10, 5, 5);
    for _ in 0..4 {
        w.moving(Direction::South);
    }
    assert_eq!(w.position, Position(9, 5));
    w.moving(Direction::South);
    assert_eq!(w.position, Position(9, 5));
}

#[test]
fn west_at_west_edge_stays() {
    let mut w = grid(10, 10, 3, 0);
    w.moving(Direction::West);
    assert_eq!(w.position, Position(3, 0));
}

#[test]
fn clamping_uses_width_for_columns_and_height_for_rows() {
    let mut w = grid(7, 14, 13, 5);
    w.moving(Direction::East);
    assert_eq!(w.position, Position(13, 6));
    w.moving(Direction::East);
    assert_eq!(w.position, Position(13, 6));
    w.moving(Direction::South);
    assert_eq!(w.position, Position(13, 6));
    w.moving(Direction::North);
    assert_eq!(w.position, Position(12, 6));
}

#[test]
fn repeated_boundary_move_is_stable() {
    let mut w = grid(4, 3, 2, 3);
    w.moving(Direction::South);
    let after_first = w.position;
    for _ in 0..5 {
        w.moving(Direction::South);
        assert_eq!(w.position, after_first);
    }
}

#[test]
fn moves_change_one_axis_only() {
    let mut w = grid(10, 10, 4, 6);
    w.moving(Direction::North);
    assert_eq!(w.position.1, 6);
    w.moving(Direction::South);
    assert_eq!(w.position.1, 6);
    w.moving(Direction::East);
    assert_eq!(w.position.0, 4);
    w.moving(Direction::West);
    assert_eq!(w.position.0, 4);
}

#[test]
fn long_walk_stays_on_grid() {
    let mut w = grid(3, 5, 0, 0);
    let dirs = [Direction::South, Direction::East, Direction::East, Direction::East];
    for i in 0..40 {
        w.moving(dirs[i % 4]);
        assert!(w.position.0 < 5 && w.position.1 < 3);
    }
    assert_eq!(w.position, Position(4, 2));
}

#[test]
fn batch_is_sequential_moving() {
    let mut a = grid(10, 10, 5, 5);
    a.batch_moving("N E S S W");
    let mut b = grid(10, 10, 5, 5);
    b.moving(Direction::North);
    b.moving(Direction::East);
    b.moving(Direction::South);
    b.moving(Direction::South);
    b.moving(Direction::West);
    assert_eq!(a.position, b.position);
    assert_eq!(a.position, Position(6, 5));
}

#[test]
fn batch_ignores_case() {
    let mut a = grid(10, 10, 5, 5);
    a.batch_moving("n e");
    let mut b = grid(10, 10, 5, 5);
    b.batch_moving("N E");
    assert_eq!(a.position, b.position);
    assert_eq!(a.position, Position(4, 6));
}

#[test]
fn batch_tolerates_any_whitespace() {
    let mut w = grid(10, 10, 5, 5);
    w.batch_moving("  N\t\tE \n  S\u{3000}S   ");
    assert_eq!(w.position, Position(6, 6));
}

#[test]
fn batch_skips_unknown_words() {
    let mut w = grid(10, 10, 5, 5);
    w.batch_moving("N up NE x 7 E");
    assert_eq!(w.position, Position(4, 6));
}

#[test]
fn batch_of_nothing_stays() {
    let mut w = grid(10, 10, 5, 5);
    w.batch_moving("");
    assert_eq!(w.position, Position(5, 5));
    w.batch_moving(" \t ");
    assert_eq!(w.position, Position(5, 5));
}

#[test]
fn batch_long_s_moves_south() {
    let mut w = grid(10, 10, 5, 5);
    w.batch_moving("ſ");
    assert_eq!(w.position, Position(6, 5));
}

#[test]
fn separators_and_letters() {
    assert!(is_separator(' '));
    assert!(is_separator('\n'));
    assert!(is_separator('\u{a0}'));
    assert!(!is_separator('N'));
    assert_eq!(letter('w'), Some(Direction::West));
    assert_eq!(letter('S'), Some(Direction::South));
    assert_eq!(letter('x'), None);
}

#[test]
fn render_two_by_two() {
    let w = grid(2, 2, 0, 0);
    assert_eq!(w.visualize(), "┌──┐\n│X │\n│  │\n└──┘\n(0 0)\n");
}

#[test]
fn render_wide_grid_with_marker_in_corner() {
    let w = grid(3, 2, 1, 2);
    assert_eq!(w.visualize(), "┌───┐\n│   │\n│  X│\n└───┘\n(1 2)\n");
}

#[test]
fn render_prints_multi_digit_position() {
    let w = grid(120, 105, 104, 10);
    let text = w.visualize();
    assert!(text.ends_with("\n(104 10)\n"));
    assert_eq!(text.lines().count(), 105 + 3);
    assert_eq!(text.lines().nth(105).unwrap().chars().nth(11), Some('X'));
}

#[test]
fn render_leaves_state_alone() {
    let w = grid(4, 4, 2, 1);
    let first = w.visualize();
    assert_eq!(first, w.visualize());
    assert_eq!(w.position, Position(2, 1));
}
