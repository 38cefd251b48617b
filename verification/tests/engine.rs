use sudoku_engine::sudoku::SudokuGame;

fn seed_values() -> Vec<u16> {
    vec![
        0, 0, 7, 4, 1, 9, 0, 0, 0, 6, 0, 9, 2, 5, 0, 1, 0, 0, 1, 4, 5, 3, 7, 0, 8, 0, 0, 0, 6, 3,
        8, 4, 0, 7, 5, 0, 7, 0, 0, 0, 0, 0, 4, 0, 8, 4, 1, 8, 0, 0, 0, 6, 0, 3, 5, 9, 6, 0, 0, 0,
        0, 0, 0, 3, 8, 4, 0, 9, 0, 5, 0, 6, 2, 7, 1, 6, 8, 0, 9, 3, 0,
    ]
}

fn game_with(data: Vec<u16>) -> SudokuGame {
    SudokuGame { base_data: data.clone(), game_data: data }
}

#[test]
fn new_starts_from_the_seed_puzzle() {
    let mut game = SudokuGame::new();
    assert_eq!(game.base_data, seed_values());
    assert_eq!(game.game_data, seed_values());
    let copy = game.clone_base_game();
    assert_eq!(copy, seed_values());
}

#[test]
fn insert_value_writes_the_working_grid_only() {
    let mut game = SudokuGame::new();
    game.insert_value(8, 0);
    assert_eq!(game.game_data[0], 8);
    assert_eq!(game.base_data[0], 0);
    game.insert_value(0, 0);
    assert_eq!(game.game_data[0], 0);
}

#[test]
fn coordinates_round_trip_for_every_cell() {
    for i in 0..81u16 {
        let (x, y) = SudokuGame::get_column_row_from_game_data_position(i);
        assert!(x < 9 && y < 9);
        assert_eq!(y * 9 + x, i);
    }
    assert_eq!(SudokuGame::get_column_row_from_game_data_position(20), (2, 2));
}

#[test]
fn is_valid_spots_a_row_conflict() {
    let mut data = vec![0u16; 81];
    data[8] = 5;
    let game = game_with(data);
    assert!(!game.is_valid(0, 5));
    // The failed check is explained by another cell of the row holding 5.
    let hits: Vec<usize> = (0..9).filter(|&c| game.game_data[c] == 5 && c != 0).collect();
    assert_eq!(hits, vec![8]);
    assert!(game.is_valid(0, 4));
}

#[test]
fn is_valid_spots_a_column_conflict() {
    let mut data = vec![0u16; 81];
    data[72] = 3;
    let game = game_with(data);
    assert!(!game.is_valid(0, 3));
    assert!(game.is_valid(0, 2));
}

#[test]
fn is_valid_spots_a_box_conflict() {
    let mut data = vec![0u16; 81];
    data[10] = 7;
    let game = game_with(data);
    assert!(!game.is_valid(0, 7));
    assert!(game.is_valid(0, 6));
}

#[test]
fn is_valid_excludes_the_cell_itself() {
    let mut data = vec![0u16; 81];
    data[0] = 5;
    let game = game_with(data);
    assert!(game.is_valid(0, 5));
}

#[test]
fn is_valid_is_idempotent_on_an_unchanged_grid() {
    let game = SudokuGame::new();
    for position in [0u16, 7, 40, 80] {
        for number in 1..=9u16 {
            let first = game.is_valid(position, number);
            let second = game.is_valid(position, number);
            assert_eq!(first, second);
        }
    }
}

#[test]
fn possible_values_lists_all_digits_on_an_empty_board() {
    let data = vec![0u16; 81];
    assert_eq!(SudokuGame::possible_values(&data, 40), vec![1, 2, 3, 4, 5, 6, 7, 8, 9]);
}

#[test]
fn possible_values_is_the_complement_of_the_peers() {
    let mut data = vec![0u16; 81];
    data[1] = 1; // row of cell 0
    data[8] = 2; // row of cell 0
    data[27] = 3; // column of cell 0, outside its box
    data[10] = 4; // box of cell 0
    assert_eq!(SudokuGame::possible_values(&data, 0), vec![5, 6, 7, 8, 9]);
}

#[test]
fn possible_values_on_the_seed_grid() {
    let game = SudokuGame::new();
    // Cell 0 of the seed: row holds 7,4,1,9; column holds 6,1,7,4,5,3,2;
    // box holds 7,6,9,1,4,5.
    assert_eq!(SudokuGame::possible_values(&game.game_data, 0), vec![8]);
}

#[test]
fn invalid_cells_reports_exactly_the_duplicate_pair() {
    let mut data = vec![0u16; 81];
    data[3] = 9;
    data[7] = 9;
    let game = game_with(data.clone());
    assert_eq!(game.invalid_cells(&data), vec![3, 7]);
}

#[test]
fn invalid_cells_is_empty_on_a_consistent_grid() {
    let game = SudokuGame::new();
    let none: Vec<usize> = Vec::new();
    assert_eq!(game.invalid_cells(&game.game_data), none);
}

#[test]
fn is_solved_rejects_a_grid_with_an_empty_cell() {
    let game = SudokuGame::new();
    assert!(!game.is_solved());
}

#[test]
fn is_solved_rejects_a_filled_but_conflicting_grid() {
    let game = game_with(vec![1u16; 81]);
    assert!(!game.is_solved());
}

#[test]
fn solving_the_seed_puzzle_succeeds() {
    let game = SudokuGame::new();
    let solved_grid = game.solve_according_base();
    assert_eq!(solved_grid.len(), 81);
    assert!(solved_grid.iter().all(|&v| 1 <= v && v <= 9));
    for i in 0..81 {
        if game.base_data[i] != 0 {
            assert_eq!(solved_grid[i], game.base_data[i]);
        }
    }
    let mut filled = SudokuGame::new();
    for i in 0..81 {
        filled.insert_value(solved_grid[i], i as u16);
    }
    assert!(filled.is_solved());
}

#[test]
fn solving_twice_yields_identical_grids() {
    let game = SudokuGame::new();
    let first = game.solve_according_base();
    let second = game.solve_according_base();
    assert_eq!(first, second);
    let third = game.solve_current_game();
    assert_eq!(first, third);
}

#[test]
fn solve_with_data_fills_the_grid_in_place() {
    let game = SudokuGame::new();
    let mut data = game.base_data.clone();
    assert!(SudokuGame::solve_with_data(&mut data));
    assert!(data.iter().all(|&v| 1 <= v && v <= 9));
}

#[test]
fn solve_with_data_leaves_a_dead_end_unchanged() {
    // Cell 0 is empty, its row holds 2 through 9 and its column holds 1:
    // no digit fits, so the search fails at once.
    let mut data = vec![0u16; 81];
    for c in 1..9 {
        data[c] = (c + 1) as u16;
    }
    data[9] = 1;
    let before = data.clone();
    assert!(!SudokuGame::solve_with_data(&mut data));
    assert_eq!(data, before);
}
