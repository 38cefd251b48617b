use sudoku_engine::board::draw_board;
use sudoku_engine::board::get_location_from_address;
use sudoku_engine::infoline::InfoStatus;

#[test]
fn board_is_a_square_of_37_lines() {
    let board = draw_board();
    let lines: Vec<&str> = board.lines().collect();
    assert_eq!(lines.len(), 37);
    for line in &lines {
        assert_eq!(line.chars().count(), 37);
    }
    assert!(board.ends_with('\n'));
}

#[test]
fn board_borders_use_the_heavy_glyphs() {
    let board = draw_board();
    let lines: Vec<&str> = board.lines().collect();
    assert_eq!(lines[0], "╔═══╤═══╤═══╦═══╤═══╤═══╦═══╤═══╤═══╗");
    assert_eq!(lines[36], "╚═══╧═══╧═══╩═══╧═══╧═══╩═══╧═══╧═══╝");
}

#[test]
fn box_and_cell_separators_alternate() {
    let board = draw_board();
    let lines: Vec<&str> = board.lines().collect();
    let separator = "╟───┼───┼───╫───┼───┼───╫───┼───┼───╢";
    let interior = "║   │   │   ║   │   │   ║   │   │   ║";
    for i in 1..36 {
        if i % 4 == 0 {
            assert_eq!(lines[i], separator, "line {}", i);
        } else {
            assert_eq!(lines[i], interior, "line {}", i);
        }
    }
}

#[test]
fn screen_locations_follow_the_grid_spacing() {
    assert_eq!(get_location_from_address(0), (2, 2));
    assert_eq!(get_location_from_address(10), (6, 6));
    assert_eq!(get_location_from_address(80), (34, 34));
}

#[test]
fn info_status_has_three_levels() {
    let levels = [InfoStatus::Danger, InfoStatus::Warning, InfoStatus::Help];
    let mut helps: u32 = 0;
    for level in levels {
        if matches!(level, InfoStatus::Help) {
            helps += 1;
        }
    }
    assert_eq!(helps, 1);
}
