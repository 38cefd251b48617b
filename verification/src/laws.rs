//! General laws of the engine, stated over the grid model and proved once
//! for all grids.

use vstd::prelude::*;

use crate::grid::box_start;
use crate::grid::cell_index;
use crate::grid::col_of;
use crate::grid::consistent;
use crate::grid::extends;
use crate::grid::grid_full;
use crate::grid::lemma_coords_of_index;
use crate::grid::lemma_solve_spec_complete;
use crate::grid::lemma_solve_spec_props;
use crate::grid::row_of;
use crate::grid::row_ok;
use crate::grid::solve_spec;
use crate::grid::solved;
use crate::grid::valid_at;
use crate::grid::wf_grid;

verus! {

/// A completely filled grid whose every value passes the constraint check
/// is a solved grid.
pub proof fn law_full_valid_grid_is_solved(g: Seq<u16>)
    requires
        g.len() == 81,
        grid_full(g),
        forall|i: int| 0 <= i < 81 ==> valid_at(g, i, #[trigger] g[i]),
    ensures
        solved(g),
{
}

/// A grid with an empty cell is never solved.
pub proof fn law_empty_cell_never_solved(g: Seq<u16>, i: int)
    requires
        g.len() == 81,
        0 <= i < 81,
        g[i] == 0,
    ensures
        !solved(g),
{
}

/// When a placement fails the row constraint, some other cell of that row
/// actually holds the clashing value.
pub proof fn law_row_conflict_has_witness(g: Seq<u16>, pos: int, v: u16)
    requires
        0 <= pos < 81,
        !row_ok(g, pos, v),
    ensures
        exists|c: int|
            0 <= c < 9 && c != col_of(pos) && #[trigger] g[cell_index(c, row_of(pos))] == v,
{
}

/// Splitting a cell index into its column and row and recombining them
/// yields the index back, for every cell of the grid.
pub proof fn law_coord_round_trip(i: int)
    requires
        0 <= i < 81,
    ensures
        cell_index(col_of(i), row_of(i)) == i,
{
    lemma_coords_of_index(i);
}

/// The solver's outcome is a function of the starting grid alone; together
/// with the solver's contract, which pins its result to [`solve_spec`],
/// this says that two runs from equal grids reach equal results.
pub proof fn law_solver_deterministic(g1: Seq<u16>, g2: Seq<u16>)
    requires
        g1 == g2,
    ensures
        solve_spec(g1) == solve_spec(g2),
{
}

/// The constraint check depends on nothing but its arguments; together
/// with the check's contract, which pins its result to [`valid_at`], this
/// says that repeating the check on an unchanged grid repeats the answer.
pub proof fn law_validity_check_repeatable(g1: Seq<u16>, g2: Seq<u16>, pos: int, v: u16)
    requires
        g1 == g2,
    ensures
        valid_at(g1, pos, v) == valid_at(g2, pos, v),
{
}

/// For an empty cell, a digit is a legal candidate exactly when it appears
/// nowhere in the cell's row, column or box: the cell itself, being empty,
/// cannot mask a conflict, so the self-exclusion of the scans is moot.
pub proof fn law_candidate_iff_absent(g: Seq<u16>, i: int, v: u16)
    requires
        g.len() == 81,
        0 <= i < 81,
        g[i] == 0,
        1 <= v <= 9,
    ensures
        valid_at(g, i, v) <==> ((forall|c: int|
            0 <= c < 9 ==> #[trigger] g[cell_index(c, row_of(i))] != v) && (forall|r: int|
            0 <= r < 9 ==> #[trigger] g[cell_index(col_of(i), r)] != v) && (forall|a: int, b: int|
            0 <= a < 3 && 0 <= b < 3 ==> #[trigger] g[cell_index(
                box_start(col_of(i)) + b,
                box_start(row_of(i)) + a,
            )] != v)),
{
    lemma_coords_of_index(i);
    if valid_at(g, i, v) {
        assert forall|c: int| 0 <= c < 9 implies #[trigger] g[cell_index(c, row_of(i))] != v by {
            if c == col_of(i) {
                assert(g[cell_index(c, row_of(i))] == g[i]);
            }
        }
        assert forall|r: int| 0 <= r < 9 implies #[trigger] g[cell_index(col_of(i), r)] != v by {
            if r == row_of(i) {
                assert(g[cell_index(col_of(i), r)] == g[i]);
            }
        }
        assert forall|a: int, b: int| 0 <= a < 3 && 0 <= b < 3 implies #[trigger] g[cell_index(
            box_start(col_of(i)) + b,
            box_start(row_of(i)) + a,
        )] != v by {
            if cell_index(box_start(col_of(i)) + b, box_start(row_of(i)) + a) == i {
                assert(g[cell_index(box_start(col_of(i)) + b, box_start(row_of(i)) + a)] == g[i]);
            }
        }
    }
}

/// The solver succeeds exactly when the puzzle can be completed: for a
/// well-formed grid whose filled cells are all legal, the specification
/// solver returns a grid if and only if some well-formed solved grid keeps
/// every one of the filled cells.
pub proof fn law_solver_succeeds_iff_solvable(g: Seq<u16>)
    requires
        wf_grid(g),
        consistent(g),
    ensures
        (solve_spec(g) is Some) <==> exists|s: Seq<u16>|
            wf_grid(s) && solved(s) && #[trigger] extends(g, s),
{
    match solve_spec(g) {
        Some(s) => {
            lemma_solve_spec_props(g, s);
            assert(wf_grid(s) && solved(s) && extends(g, s));
        },
        None => {
            if exists|s: Seq<u16>| wf_grid(s) && solved(s) && #[trigger] extends(g, s) {
                let s = choose|s: Seq<u16>| wf_grid(s) && solved(s) && #[trigger] extends(g, s);
                lemma_solve_spec_complete(g, s);
            }
        },
    }
}

/// Two equal nonzero values in one row make both their cells invalid.
pub proof fn law_row_duplicates_are_invalid(g: Seq<u16>, i: int, j: int)
    requires
        g.len() == 81,
        0 <= i < 81,
        0 <= j < 81,
        i != j,
        row_of(i) == row_of(j),
        g[i] == g[j],
        g[i] != 0,
    ensures
        !valid_at(g, i, g[i]),
        !valid_at(g, j, g[j]),
{
    lemma_coords_of_index(i);
    lemma_coords_of_index(j);
    assert(g[cell_index(col_of(j), row_of(i))] == g[i]);
    assert(g[cell_index(col_of(i), row_of(j))] == g[j]);
}

} // verus!
