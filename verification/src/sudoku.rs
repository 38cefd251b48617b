//! The puzzle engine: grid state, constraint checks, candidate enumeration,
//! completion checks and the backtracking solver.

use vstd::prelude::*;

use crate::grid::box_ok;
use crate::grid::box_start;
use crate::grid::cell_index;
use crate::grid::col_of;
use crate::grid::col_ok;
use crate::grid::consistent;
use crate::grid::extends;
use crate::grid::first_zero_from;
use crate::grid::grid_full;
use crate::grid::lemma_coords_of_index;
use crate::grid::lemma_first_zero_found;
use crate::grid::lemma_index_of_coords;
use crate::grid::lemma_solve_spec_props;
use crate::grid::lemma_zeros_below_update;
use crate::grid::num_zeros;
use crate::grid::row_of;
use crate::grid::row_ok;
use crate::grid::solve_spec;
use crate::grid::solved;
use crate::grid::try_values;
use crate::grid::valid_at;
use crate::grid::wf_grid;
use vstd::slice::slice_to_vec;

verus! {

/// An 81-cell grid, one value per cell: 0 for an empty cell, 1 through 9
/// for a digit.
pub type GameData = Vec<u16>;

/// The fixed seed puzzle: the clue digits, with 0 for the blank cells.
pub open spec fn seed_grid() -> Seq<u16> {
    seq![
        0u16, 0, 7, 4, 1, 9, 0, 0, 0,
        6, 0, 9, 2, 5, 0, 1, 0, 0,
        1, 4, 5, 3, 7, 0, 8, 0, 0,
        0, 6, 3, 8, 4, 0, 7, 5, 0,
        7, 0, 0, 0, 0, 0, 4, 0, 8,
        4, 1, 8, 0, 0, 0, 6, 0, 3,
        5, 9, 6, 0, 0, 0, 0, 0, 0,
        3, 8, 4, 0, 9, 0, 5, 0, 6,
        2, 7, 1, 6, 8, 0, 9, 3, 0,
    ]
}

/// A puzzle instance: the immutable clues (`base_data`) and the grid being
/// played or solved (`game_data`).
pub struct SudokuGame {
    pub base_data: GameData,
    pub game_data: GameData,
}

impl SudokuGame {
    /// Builds the fixed seed puzzle as a fresh grid.
    fn seed_game_data() -> (r: GameData)
        ensures
            r@ == seed_grid(),
            wf_grid(r@),
    {
        let arr: [u16; 81] = [
            0, 0, 7, 4, 1, 9, 0, 0, 0,
            6, 0, 9, 2, 5, 0, 1, 0, 0,
            1, 4, 5, 3, 7, 0, 8, 0, 0,
            0, 6, 3, 8, 4, 0, 7, 5, 0,
            7, 0, 0, 0, 0, 0, 4, 0, 8,
            4, 1, 8, 0, 0, 0, 6, 0, 3,
            5, 9, 6, 0, 0, 0, 0, 0, 0,
            3, 8, 4, 0, 9, 0, 5, 0, 6,
            2, 7, 1, 6, 8, 0, 9, 3, 0,
        ];
        let r = slice_to_vec(arr.as_slice());
        proof {
            assert(r@ =~= seed_grid());
        }
        r
    }

    /// Copies a grid cell for cell.
    fn clone_grid(data: &GameData) -> (r: GameData)
        ensures
            r@ == data@,
    {
        let r = data.clone();
        proof {
            assert forall|i: int| 0 <= i < data@.len() implies r@[i] == data@[i] by {
                assert(cloned::<u16>(data@[i], r@[i]));
            }
            assert(r@ =~= data@);
        }
        r
    }

    /// Creates the puzzle instance: the clues and the working grid both
    /// start as the fixed seed puzzle.
    pub fn new() -> (r: SudokuGame)
        ensures
            r.base_data@ == seed_grid(),
            r.game_data@ == seed_grid(),
            wf_grid(r.base_data@),
            wf_grid(r.game_data@),
    {
        let base_data = Self::seed_game_data();
        let game_data = Self::seed_game_data();
        SudokuGame { base_data, game_data }
    }

    /// Hands out a copy of the clues.
    pub fn clone_base_game(&mut self) -> (r: GameData)
        ensures
            r@ == old(self).base_data@,
            *final(self) == *old(self),
    {
        let cloned_base = Self::clone_grid(&self.base_data);
        cloned_base
    }

    /// Writes `value` into cell `location` of the working grid.
    pub fn insert_value(&mut self, value: u16, location: u16)
        requires
            location < 81,
            value <= 9,
            old(self).game_data@.len() == 81,
        ensures
            final(self).game_data@ == old(self).game_data@.update(location as int, value),
            final(self).base_data == old(self).base_data,
    {
        self.game_data[location as usize] = value;
    }

    /// Column and row of the cell with linear index `position`.
    pub fn get_column_row_from_game_data_position(position: u16) -> (r: (u16, u16))
        ensures
            r.0 == col_of(position as int),
            r.1 == row_of(position as int),
    {
        let x = position % 9;
        let y = position / 9;
        (x, y)
    }

    /// Linear index of the cell in column `x` of row `y`.
    fn get_position_from_column_row(x: u16, y: u16) -> (r: u16)
        requires
            x < 9,
            y < 9,
        ensures
            r == cell_index(x as int, y as int),
            r < 81,
    {
        y * 9 + x
    }

    /// Coordinates of the top-left cell of the 3x3 box containing `(x, y)`.
    fn get_box_first_cell_row_column(x: u16, y: u16) -> (r: (u16, u16))
        ensures
            r.0 == box_start(x as int),
            r.1 == box_start(y as int),
    {
        (x - (x % 3), y - (y % 3))
    }

    /// Does no cell of the 3x3 box containing `(x, y)`, other than `(x, y)`
    /// itself, hold `number`?
    fn is_valid_in_box(data: &GameData, x: u16, y: u16, number: u16) -> (r: bool)
        requires
            data@.len() == 81,
            x < 9,
            y < 9,
        ensures
            r == box_ok(data@, cell_index(x as int, y as int), number),
    {
        proof {
            lemma_index_of_coords(x as int, y as int);
        }
        let ghost pos: int = cell_index(x as int, y as int);
        let (start_x, start_y) = Self::get_box_first_cell_row_column(x, y);
        let mut i: u16 = 0;
        while i < 3
            invariant
                data@.len() == 81,
                x < 9,
                y < 9,
                i <= 3,
                start_x == box_start(x as int),
                start_y == box_start(y as int),
                pos == cell_index(x as int, y as int),
                col_of(pos) == x as int,
                row_of(pos) == y as int,
                forall|a: int, b: int|
                    0 <= a < i && 0 <= b < 3 && cell_index(box_start(x as int) + b, box_start(y as int) + a) != pos
                        ==> #[trigger] data@[cell_index(box_start(x as int) + b, box_start(y as int) + a)] != number,
            decreases 3 - i,
        {
            let mut j: u16 = 0;
            while j < 3
                invariant
                    data@.len() == 81,
                    x < 9,
                    y < 9,
                    i < 3,
                    j <= 3,
                    start_x == box_start(x as int),
                    start_y == box_start(y as int),
                    pos == cell_index(x as int, y as int),
                    col_of(pos) == x as int,
                    row_of(pos) == y as int,
                    forall|a: int, b: int|
                        0 <= a < i && 0 <= b < 3 && cell_index(box_start(x as int) + b, box_start(y as int) + a) != pos
                            ==> #[trigger] data@[cell_index(box_start(x as int) + b, box_start(y as int) + a)] != number,
                    forall|b: int|
                        0 <= b < j && cell_index(box_start(x as int) + b, box_start(y as int) + i) != pos
                            ==> #[trigger] data@[cell_index(box_start(x as int) + b, box_start(y as int) + i)] != number,
                decreases 3 - j,
            {
                let location = Self::get_position_from_column_row(start_x + j, start_y + i);
                let current_location = Self::get_position_from_column_row(x, y);
                let cell_value = data[location as usize];
                if cell_value == number && current_location != location {
                    proof {
                        assert(data@[cell_index(box_start(x as int) + j as int, box_start(y as int) + i as int)]
                            == number);
                    }
                    return false;
                }
                j += 1;
            }
            i += 1;
        }
        true
    }

    /// Does no cell of row `y`, other than the one in column `_x`, hold `number`?
    fn is_valid_in_row(data: &GameData, _x: u16, y: u16, number: u16) -> (r: bool)
        requires
            data@.len() == 81,
            _x < 9,
            y < 9,
        ensures
            r == row_ok(data@, cell_index(_x as int, y as int), number),
    {
        proof {
            lemma_index_of_coords(_x as int, y as int);
        }
        let mut column: u16 = 0;
        while column < 9
            invariant
                data@.len() == 81,
                _x < 9,
                y < 9,
                column <= 9,
                col_of(cell_index(_x as int, y as int)) == _x as int,
                row_of(cell_index(_x as int, y as int)) == y as int,
                forall|c: int|
                    0 <= c < column && c != _x ==> #[trigger] data@[cell_index(c, y as int)] != number,
            decreases 9 - column,
        {
            let location = Self::get_position_from_column_row(column, y);
            let cell_value = data[location as usize];
            if cell_value == number && _x != column {
                proof {
                    assert(data@[cell_index(column as int, y as int)] == number);
                }
                return false;
            }
            column += 1;
        }
        true
    }

    /// Does no cell of column `x`, other than the one in row `_y`, hold `number`?
    fn is_valid_in_column(data: &GameData, x: u16, _y: u16, number: u16) -> (r: bool)
        requires
            data@.len() == 81,
            x < 9,
            _y < 9,
        ensures
            r == col_ok(data@, cell_index(x as int, _y as int), number),
    {
        proof {
            lemma_index_of_coords(x as int, _y as int);
        }
        let mut row: u16 = 0;
        while row < 9
            invariant
                data@.len() == 81,
                x < 9,
                _y < 9,
                row <= 9,
                col_of(cell_index(x as int, _y as int)) == x as int,
                row_of(cell_index(x as int, _y as int)) == _y as int,
                forall|r2: int|
                    0 <= r2 < row && r2 != _y ==> #[trigger] data@[cell_index(x as int, r2)] != number,
            decreases 9 - row,
        {
            let location = Self::get_position_from_column_row(x, row);
            let cell_value = data[location as usize];
            if cell_value == number && _y != row {
                proof {
                    assert(data@[cell_index(x as int, row as int)] == number);
                }
                return false;
            }
            row += 1;
        }
        true
    }

    /// Would holding `number` at cell `position` violate no row, column or
    /// box constraint, the cell itself excluded from the scans?
    fn _is_valid(data: &GameData, position: u16, number: u16) -> (r: bool)
        requires
            data@.len() == 81,
            position < 81,
        ensures
            r == valid_at(data@, position as int, number),
    {
        proof {
            lemma_coords_of_index(position as int);
        }
        let (x, y) = Self::get_column_row_from_game_data_position(position);
        Self::is_valid_in_column(data, x, y, number) && Self::is_valid_in_row(data, x, y, number)
            && Self::is_valid_in_box(data, x, y, number)
    }

    /// Would holding `number` at cell `position` of the working grid violate
    /// no constraint?
    pub fn is_valid(&self, position: u16, number: u16) -> (r: bool)
        requires
            self.game_data@.len() == 81,
            position < 81,
        ensures
            r == valid_at(self.game_data@, position as int, number),
    {
        Self::_is_valid(&self.game_data, position, number)
    }

    /// Solves the grid in place by backtracking: the first empty cell is
    /// filled with the lowest legal digit whose completion succeeds, digits
    /// tried in ascending order. Returns whether a completion was found; on
    /// failure the grid is left exactly as it was. The result is the one the
    /// specification solver [`solve_spec`] describes, so it is a function of
    /// the input grid alone.
    pub fn solve_with_data(data: &mut GameData) -> (r: bool)
        requires
            wf_grid(old(data)@),
        ensures
            wf_grid(final(data)@),
            r == (solve_spec(old(data)@) is Some),
            r ==> solve_spec(old(data)@) == Some(final(data)@),
            !r ==> final(data)@ == old(data)@,
            r ==> grid_full(final(data)@),
            r ==> extends(old(data)@, final(data)@),
            r && consistent(old(data)@) ==> solved(final(data)@),
        decreases num_zeros(old(data)@),
    {
        let ghost g0: Seq<u16> = data@;
        proof {
            lemma_first_zero_found(g0, 0);
        }
        let mut i: usize = 0;
        while i < 81 && data[i] != 0
            invariant
                data@ == g0,
                g0.len() == 81,
                i <= 81,
                forall|j: int| 0 <= j < i ==> #[trigger] g0[j] != 0,
            decreases 81 - i,
        {
            i += 1;
        }
        proof {
            assert(first_zero_from(g0, 0) == i);
        }
        if i == 81 {
            proof {
                if consistent(g0) {
                    lemma_solve_spec_props(g0, g0);
                }
            }
            return true;
        }
        let ghost gi: int = i as int;
        let mut guess_value: u16 = 1;
        while guess_value <= 9
            invariant
                old(data)@ == g0,
                wf_grid(g0),
                data@ == g0,
                0 <= gi < 81,
                i == gi,
                g0[gi] == 0,
                first_zero_from(g0, 0) == gi,
                1 <= guess_value <= 10,
                try_values(g0, gi, 1) == try_values(g0, gi, guess_value as int),
            decreases 10 - guess_value,
        {
            if Self::_is_valid(data, i as u16, guess_value) {
                data[i] = guess_value;
                proof {
                    lemma_zeros_below_update(g0, gi, guess_value, 81);
                    assert(num_zeros(data@) < num_zeros(g0));
                }
                if Self::solve_with_data(data) {
                    proof {
                        assert(try_values(g0, gi, guess_value as int)
                            == solve_spec(g0.update(gi, guess_value)));
                        if consistent(g0) {
                            lemma_solve_spec_props(g0, data@);
                        }
                    }
                    return true;
                }
                data[i] = 0;
                proof {
                    assert(data@ =~= g0);
                }
            }
            guess_value += 1;
        }
        proof {
            assert(try_values(g0, gi, 10) is None);
        }
        false
    }

    /// Is the working grid completely filled, with every cell's value legal?
    pub fn is_solved(&self) -> (r: bool)
        requires
            self.game_data@.len() == 81,
        ensures
            r == solved(self.game_data@),
    {
        Self::_is_solved(&self.game_data)
    }

    /// Is `data` completely filled, with every cell's value legal? A grid
    /// with an empty cell is never solved.
    fn _is_solved(data: &GameData) -> (r: bool)
        requires
            data@.len() == 81,
        ensures
            r == solved(data@),
    {
        let mut i: usize = 0;
        while i < 81
            invariant
                data@.len() == 81,
                i <= 81,
                forall|j: int| 0 <= j < i ==> #[trigger] data@[j] != 0,
            decreases 81 - i,
        {
            if data[i] == 0 {
                return false;
            }
            i += 1;
        }
        let mut k: usize = 0;
        while k < 81
            invariant
                data@.len() == 81,
                k <= 81,
                grid_full(data@),
                forall|j: int| 0 <= j < k ==> valid_at(data@, j, #[trigger] data@[j]),
            decreases 81 - k,
        {
            if !Self::_is_valid(data, k as u16, data[k]) {
                return false;
            }
            k += 1;
        }
        true
    }

    /// Every digit that could legally stand in cell `position` of `data`,
    /// in ascending order: exactly the digits 1 through 9 for which
    /// [`Self::is_valid`] holds there.
    pub fn possible_values(data: &GameData, position: u16) -> (r: Vec<u16>)
        requires
            data@.len() == 81,
            position < 81,
        ensures
            forall|k: int|
                0 <= k < r@.len() ==> 1 <= #[trigger] r@[k] <= 9 && valid_at(
                    data@,
                    position as int,
                    r@[k],
                ),
            forall|v: u16|
                1 <= v <= 9 && valid_at(data@, position as int, v) ==> r@.contains(v),
            forall|k1: int, k2: int| 0 <= k1 < k2 < r@.len() ==> r@[k1] < r@[k2],
    {
        let mut values: Vec<u16> = Vec::new();
        let mut i: u16 = 1;
        while i <= 9
            invariant
                data@.len() == 81,
                position < 81,
                1 <= i <= 10,
                forall|k: int|
                    0 <= k < values@.len() ==> 1 <= #[trigger] values@[k] < i && valid_at(
                        data@,
                        position as int,
                        values@[k],
                    ),
                forall|v: u16|
                    1 <= v < i && valid_at(data@, position as int, v) ==> values@.contains(v),
                forall|k1: int, k2: int| 0 <= k1 < k2 < values@.len() ==> values@[k1] < values@[k2],
            decreases 10 - i,
        {
            let ghost vs0 = values@;
            if Self::_is_valid(data, position, i) {
                values.push(i);
            }
            proof {
                assert forall|v: u16|
                    1 <= v < i + 1 && valid_at(data@, position as int, v) implies values@.contains(
                    v,
                ) by {
                    if v == i {
                        assert(values@[values@.len() - 1] == v);
                    } else {
                        assert(vs0.contains(v));
                        let k = choose|k: int| 0 <= k < vs0.len() && vs0[k] == v;
                        assert(values@[k] == v);
                    }
                }
            }
            i += 1;
        }
        values
    }

    /// The indices, in ascending order, of exactly the filled cells of
    /// `data` whose value is illegal against the rest of the grid.
    pub fn invalid_cells(&self, data: &GameData) -> (r: Vec<usize>)
        requires
            data@.len() == 81,
        ensures
            forall|k: int|
                0 <= k < r@.len() ==> #[trigger] r@[k] < 81 && data@[r@[k] as int] != 0 && !valid_at(
                    data@,
                    r@[k] as int,
                    data@[r@[k] as int],
                ),
            forall|i: int|
                0 <= i < 81 && data@[i] != 0 && !valid_at(data@, i, #[trigger] data@[i])
                    ==> r@.contains(i as usize),
            forall|k1: int, k2: int| 0 <= k1 < k2 < r@.len() ==> r@[k1] < r@[k2],
    {
        let mut wrong_cells: Vec<usize> = Vec::new();
        let mut i: usize = 0;
        while i < 81
            invariant
                data@.len() == 81,
                i <= 81,
                forall|k: int|
                    0 <= k < wrong_cells@.len() ==> #[trigger] wrong_cells@[k] < i
                        && data@[wrong_cells@[k] as int] != 0 && !valid_at(
                        data@,
                        wrong_cells@[k] as int,
                        data@[wrong_cells@[k] as int],
                    ),
                forall|j: int|
                    0 <= j < i && data@[j] != 0 && !valid_at(data@, j, #[trigger] data@[j])
                        ==> wrong_cells@.contains(j as usize),
                forall|k1: int, k2: int|
                    0 <= k1 < k2 < wrong_cells@.len() ==> wrong_cells@[k1] < wrong_cells@[k2],
            decreases 81 - i,
        {
            let ghost ws0 = wrong_cells@;
            let val = data[i];
            if val != 0 && !Self::_is_valid(data, i as u16, val) {
                wrong_cells.push(i);
            }
            proof {
                assert forall|j: int|
                    0 <= j < i + 1 && data@[j] != 0 && !valid_at(data@, j, #[trigger] data@[j])
                        implies wrong_cells@.contains(j as usize) by {
                    if j == i {
                        assert(wrong_cells@[wrong_cells@.len() - 1] == j as usize);
                    } else {
                        assert(ws0.contains(j as usize));
                        let k = choose|k: int| 0 <= k < ws0.len() && ws0[k] == j as usize;
                        assert(wrong_cells@[k] == j as usize);
                    }
                }
            }
            i += 1;
        }
        wrong_cells
    }

    /// Solves the clues from scratch and returns the resulting grid; the
    /// clues themselves are left untouched. If the search fails, the clues
    /// are returned unchanged.
    pub fn solve_according_base(&self) -> (r: GameData)
        requires
            wf_grid(self.base_data@),
        ensures
            wf_grid(r@),
            solve_spec(self.base_data@) is Some ==> Some(r@) == solve_spec(self.base_data@),
            solve_spec(self.base_data@) is None ==> r@ == self.base_data@,
            consistent(self.base_data@) && solve_spec(self.base_data@) is Some ==> solved(r@),
    {
        let mut data = Self::clone_grid(&self.base_data);
        Self::solve_with_data(&mut data);
        data
    }

    /// Solves onward from the working grid and returns the resulting grid;
    /// the working grid itself is left untouched. If the search fails, the
    /// working grid is returned unchanged.
    pub fn solve_current_game(&self) -> (r: GameData)
        requires
            wf_grid(self.game_data@),
        ensures
            wf_grid(r@),
            solve_spec(self.game_data@) is Some ==> Some(r@) == solve_spec(self.game_data@),
            solve_spec(self.game_data@) is None ==> r@ == self.game_data@,
            consistent(self.game_data@) && solve_spec(self.game_data@) is Some ==> solved(r@),
    {
        let mut data = Self::clone_grid(&self.game_data);
        Self::solve_with_data(&mut data);
        data
    }
}

} // verus!

