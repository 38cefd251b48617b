//! Mathematical model of a 9x9 puzzle grid.
//!
//! A grid is a sequence of 81 cell values; value 0 marks an empty cell and
//! 1 through 9 are the digits of the puzzle. This module defines the
//! coordinate arithmetic, the row/column/box constraint predicates, the
//! completion predicate, and a specification-level backtracking solver that
//! the executable solver is proved to implement exactly.

use vstd::prelude::*;

verus! {

/// Column of the cell with linear index `pos`.
pub open spec fn col_of(pos: int) -> int {
    pos % 9
}

/// Row of the cell with linear index `pos`.
pub open spec fn row_of(pos: int) -> int {
    pos / 9
}

/// Linear index of the cell in column `col` of row `row`.
pub open spec fn cell_index(col: int, row: int) -> int {
    row * 9 + col
}

/// Column of the top-left cell of the 3x3 box containing column `col`.
pub open spec fn box_start(c: int) -> int {
    c - c % 3
}

/// A well-formed grid: 81 cells, each holding 0 (empty) or a digit 1-9.
pub open spec fn wf_grid(g: Seq<u16>) -> bool {
    g.len() == 81 && forall|i: int| 0 <= i < 81 ==> #[trigger] g[i] <= 9
}

/// No cell of `pos`'s row other than `pos` itself holds `v`.
pub open spec fn row_ok(g: Seq<u16>, pos: int, v: u16) -> bool {
    forall|c: int| 0 <= c < 9 && c != col_of(pos) ==> #[trigger] g[cell_index(c, row_of(pos))] != v
}

/// No cell of `pos`'s column other than `pos` itself holds `v`.
pub open spec fn col_ok(g: Seq<u16>, pos: int, v: u16) -> bool {
    forall|r: int| 0 <= r < 9 && r != row_of(pos) ==> #[trigger] g[cell_index(col_of(pos), r)] != v
}

/// No cell of `pos`'s 3x3 box other than `pos` itself holds `v`.
pub open spec fn box_ok(g: Seq<u16>, pos: int, v: u16) -> bool {
    forall|a: int, b: int|
        0 <= a < 3 && 0 <= b < 3 && cell_index(box_start(col_of(pos)) + b, box_start(row_of(pos)) + a) != pos
            ==> #[trigger] g[cell_index(box_start(col_of(pos)) + b, box_start(row_of(pos)) + a)] != v
}

/// Placing `v` at `pos` (or keeping it there) violates no constraint:
/// no other cell of the same row, column or box holds `v`.
pub open spec fn valid_at(g: Seq<u16>, pos: int, v: u16) -> bool {
    col_ok(g, pos, v) && row_ok(g, pos, v) && box_ok(g, pos, v)
}

/// Every cell is filled with a nonzero value.
pub open spec fn grid_full(g: Seq<u16>) -> bool {
    forall|i: int| 0 <= i < 81 ==> #[trigger] g[i] != 0
}

/// The grid is completely filled and every cell's value is legal.
pub open spec fn solved(g: Seq<u16>) -> bool {
    g.len() == 81 && grid_full(g) && forall|i: int| 0 <= i < 81 ==> valid_at(g, i, #[trigger] g[i])
}

/// Every filled cell's value is legal against the rest of the grid.
pub open spec fn consistent(g: Seq<u16>) -> bool {
    forall|i: int| 0 <= i < 81 && g[i] != 0 ==> valid_at(g, i, #[trigger] g[i])
}

/// Number of empty cells among the first `n` cells.
pub open spec fn zeros_below(g: Seq<u16>, n: int) -> nat
    decreases n,
{
    if n <= 0 {
        0
    } else {
        zeros_below(g, n - 1) + (if g[n - 1] == 0 { 1nat } else { 0nat })
    }
}

/// Number of empty cells of the grid.
pub open spec fn num_zeros(g: Seq<u16>) -> nat {
    zeros_below(g, 81)
}

/// Index of the first empty cell at or after `i`, or 81 if there is none.
pub open spec fn first_zero_from(g: Seq<u16>, i: int) -> int
    decreases 81 - i,
{
    if i < 0 || i >= 81 {
        81
    } else if g[i] == 0 {
        i
    } else {
        first_zero_from(g, i + 1)
    }
}

/// Specification-level backtracking solver. On a full grid it succeeds with
/// the grid itself; otherwise it fills the first empty cell with the lowest
/// legal digit whose completion succeeds, trying digits in ascending order.
pub open spec fn solve_spec(g: Seq<u16>) -> Option<Seq<u16>>
    decreases num_zeros(g), 1int, 0int,
{
    if g.len() != 81 {
        None
    } else {
        let i = first_zero_from(g, 0);
        if i >= 81 {
            Some(g)
        } else {
            try_values(g, i, 1)
        }
    }
}

/// Tries digits `v`, `v+1`, ..., 9 at the empty cell `i`, recursing into
/// `solve_spec` for each legal digit, and returns the first completion found.
pub open spec fn try_values(g: Seq<u16>, i: int, v: int) -> Option<Seq<u16>>
    decreases num_zeros(g), 0int, 10 - v,
    via try_values_decreases
{
    if v < 1 || v > 9 || !(0 <= i < 81) || g.len() != 81 || g[i] != 0 {
        None
    } else if valid_at(g, i, v as u16) {
        if solve_spec(g.update(i, v as u16)) is Some {
            solve_spec(g.update(i, v as u16))
        } else {
            try_values(g, i, v + 1)
        }
    } else {
        try_values(g, i, v + 1)
    }
}

#[via_fn]
proof fn try_values_decreases(g: Seq<u16>, i: int, v: int) {
    if !(v < 1 || v > 9 || !(0 <= i < 81) || g.len() != 81 || g[i] != 0) && valid_at(g, i, v as u16) {
        lemma_zeros_below_update(g, i, v as u16, 81);
    }
}

/// Overwriting the empty cell `i` with a nonzero value lowers the count of
/// empty cells among the first `n` cells exactly when `i` is among them.
pub proof fn lemma_zeros_below_update(g: Seq<u16>, i: int, v: u16, n: int)
    requires
        g.len() == 81,
        0 <= i < 81,
        g[i] == 0,
        v != 0,
        n <= 81,
    ensures
        zeros_below(g.update(i, v), n) as int == zeros_below(g, n) as int - (if i < n {
            1int
        } else {
            0int
        }),
    decreases n,
{
    if n > 0 {
        lemma_zeros_below_update(g, i, v, n - 1);
    }
}

/// `first_zero_from(g, k)` is the index of the first empty cell at or after
/// `k`: every cell before it (from `k` on) is filled, and it is itself empty
/// unless it is 81, the mark for "no empty cell left".
pub proof fn lemma_first_zero_found(g: Seq<u16>, k: int)
    requires
        0 <= k <= 81,
    ensures
        k <= first_zero_from(g, k) <= 81,
        first_zero_from(g, k) < 81 ==> g[first_zero_from(g, k)] == 0,
        forall|j: int| k <= j < first_zero_from(g, k) ==> #[trigger] g[j] != 0,
    decreases 81 - k,
{
    if k < 81 && g[k] != 0 {
        lemma_first_zero_found(g, k + 1);
    }
}

/// The start of a box is a multiple of 3 and contains its column or row.
pub proof fn lemma_box_start(c: int)
    requires
        0 <= c < 9,
    ensures
        box_start(c) % 3 == 0,
        0 <= box_start(c) <= 6,
        box_start(c) <= c < box_start(c) + 3,
{
}

/// Each of the three cells starting at a box boundary lies in the same box.
pub proof fn lemma_box_member(c: int, b: int)
    requires
        0 <= c < 9,
        0 <= b < 3,
    ensures
        box_start(box_start(c) + b) == box_start(c),
{
    lemma_box_start(c);
}

/// Writing a legal digit into an empty cell keeps every filled cell legal:
/// the new cell is legal by assumption, and it cannot clash with a filled
/// peer, or that peer would already have made the placement illegal.
pub proof fn lemma_place_preserves_consistent(g: Seq<u16>, i: int, v: u16)
    requires
        g.len() == 81,
        consistent(g),
        0 <= i < 81,
        g[i] == 0,
        1 <= v <= 9,
        valid_at(g, i, v),
    ensures
        consistent(g.update(i, v)),
{
    let g2 = g.update(i, v);
    lemma_coords_of_index(i);
    assert forall|j: int| 0 <= j < 81 && g2[j] != 0 implies valid_at(g2, j, #[trigger] g2[j]) by {
        lemma_coords_of_index(j);
        lemma_box_start(col_of(j));
        lemma_box_start(row_of(j));
        let w = g2[j];
        if j != i {
            assert(g[j] == w);
            assert(valid_at(g, j, w));
        }
        // Row: any other cell of j's row holding w in g2 would contradict
        // row_ok of g at j (cell unchanged) or at i (the new digit).
        assert forall|c: int| 0 <= c < 9 && c != col_of(j) implies #[trigger] g2[cell_index(c, row_of(j))] != w by {
            lemma_index_of_coords(c, row_of(j));
            let p = cell_index(c, row_of(j));
            if p == i && g2[p] == w {
                // j and i share a row and w == v; cell j then clashed with i in g.
                assert(col_of(j) != col_of(i));
                assert(g[cell_index(col_of(j), row_of(i))] == w);
                assert(false);
            }
        }
        // Column: symmetric to the row case.
        assert forall|r: int| 0 <= r < 9 && r != row_of(j) implies #[trigger] g2[cell_index(col_of(j), r)] != w by {
            lemma_index_of_coords(col_of(j), r);
            let p = cell_index(col_of(j), r);
            if p == i && g2[p] == w {
                assert(row_of(j) != row_of(i));
                assert(g[cell_index(col_of(i), row_of(j))] == w);
                assert(false);
            }
        }
        // Box: a clash at the new cell would place j and i in one box,
        // contradicting box_ok of g at i.
        assert forall|a: int, b: int|
            0 <= a < 3 && 0 <= b < 3 && cell_index(box_start(col_of(j)) + b, box_start(row_of(j)) + a) != j
                implies #[trigger] g2[cell_index(box_start(col_of(j)) + b, box_start(row_of(j)) + a)] != w by {
            lemma_index_of_coords(box_start(col_of(j)) + b, box_start(row_of(j)) + a);
            let p = cell_index(box_start(col_of(j)) + b, box_start(row_of(j)) + a);
            if p == i && g2[p] == w {
                lemma_box_member(col_of(j), b);
                lemma_box_member(row_of(j), a);
                assert(box_start(col_of(i)) == box_start(col_of(j)));
                assert(box_start(row_of(i)) == box_start(row_of(j)));
                let b2 = col_of(j) - box_start(col_of(j));
                let a2 = row_of(j) - box_start(row_of(j));
                assert(cell_index(box_start(col_of(i)) + b2, box_start(row_of(i)) + a2) == j);
                assert(g[j] == w);
                assert(false);
            }
        }
    }
}

/// Every completion the specification solver returns is a well-formed full
/// grid that keeps the given clues; and if the starting grid was consistent,
/// the completion is a solved grid.
pub proof fn lemma_solve_spec_props(g: Seq<u16>, s: Seq<u16>)
    requires
        wf_grid(g),
        solve_spec(g) == Some(s),
    ensures
        wf_grid(s),
        grid_full(s),
        extends(g, s),
        consistent(g) ==> solved(s),
    decreases num_zeros(g), 1int, 0int,
{
    let i = first_zero_from(g, 0);
    lemma_first_zero_found(g, 0);
    if i >= 81 {
        assert(s == g);
    } else {
        lemma_try_values_props(g, i, 1, s);
    }
}

/// The common inductive step behind [`lemma_solve_spec_props`], for the
/// search over the candidate digits of one cell.
proof fn lemma_try_values_props(g: Seq<u16>, i: int, v: int, s: Seq<u16>)
    requires
        wf_grid(g),
        try_values(g, i, v) == Some(s),
    ensures
        wf_grid(s),
        grid_full(s),
        extends(g, s),
        consistent(g) ==> solved(s),
    decreases num_zeros(g), 0int, 10 - v,
{
    let g2 = g.update(i, v as u16);
    if valid_at(g, i, v as u16) && solve_spec(g2) is Some {
        lemma_zeros_below_update(g, i, v as u16, 81);
        assert(wf_grid(g2));
        lemma_solve_spec_props(g2, s);
        if consistent(g) {
            lemma_place_preserves_consistent(g, i, v as u16);
        }
    } else {
        lemma_try_values_props(g, i, v + 1, s);
    }
}

/// `s` keeps every filled cell of `g`: wherever `g` holds a nonzero value,
/// `s` holds the same value.
pub open spec fn extends(g: Seq<u16>, s: Seq<u16>) -> bool {
    forall|i: int| 0 <= i < 81 && g[i] != 0 ==> #[trigger] s[i] == g[i]
}

/// Emptying cells never creates a conflict: a placement legal on the fuller
/// grid `s` is legal on any grid `g` that `s` extends.
proof fn lemma_valid_monotone(g: Seq<u16>, s: Seq<u16>, i: int, v: u16)
    requires
        g.len() == 81,
        s.len() == 81,
        extends(g, s),
        0 <= i < 81,
        v != 0,
        valid_at(s, i, v),
    ensures
        valid_at(g, i, v),
{
    lemma_coords_of_index(i);
    assert forall|c: int| 0 <= c < 9 && c != col_of(i) implies #[trigger] g[cell_index(c, row_of(i))] != v by {
        lemma_index_of_coords(c, row_of(i));
        if g[cell_index(c, row_of(i))] == v {
            assert(s[cell_index(c, row_of(i))] == v);
            assert(false);
        }
    }
    assert forall|r: int| 0 <= r < 9 && r != row_of(i) implies #[trigger] g[cell_index(col_of(i), r)] != v by {
        lemma_index_of_coords(col_of(i), r);
        if g[cell_index(col_of(i), r)] == v {
            assert(s[cell_index(col_of(i), r)] == v);
            assert(false);
        }
    }
    lemma_box_start(col_of(i));
    lemma_box_start(row_of(i));
    assert forall|a: int, b: int|
        0 <= a < 3 && 0 <= b < 3 && cell_index(box_start(col_of(i)) + b, box_start(row_of(i)) + a) != i
            implies #[trigger] g[cell_index(box_start(col_of(i)) + b, box_start(row_of(i)) + a)] != v by {
        lemma_index_of_coords(box_start(col_of(i)) + b, box_start(row_of(i)) + a);
        if g[cell_index(box_start(col_of(i)) + b, box_start(row_of(i)) + a)] == v {
            assert(s[cell_index(box_start(col_of(i)) + b, box_start(row_of(i)) + a)] == v);
            assert(false);
        }
    }
}

/// The search is exhaustive: whenever a well-formed solved grid extends
/// `g`, the specification solver finds a completion of `g`.
pub proof fn lemma_solve_spec_complete(g: Seq<u16>, s: Seq<u16>)
    requires
        wf_grid(g),
        wf_grid(s),
        solved(s),
        extends(g, s),
    ensures
        solve_spec(g) is Some,
    decreases num_zeros(g), 1int, 0int,
{
    let i = first_zero_from(g, 0);
    lemma_first_zero_found(g, 0);
    if i < 81 {
        assert(s[i] != 0);
        lemma_try_values_complete(g, i, 1, s);
    }
}

/// The inductive step behind [`lemma_solve_spec_complete`]: while the
/// digits still to try at the first empty cell include the solution's own
/// digit there, the search cannot run dry.
proof fn lemma_try_values_complete(g: Seq<u16>, i: int, v: int, s: Seq<u16>)
    requires
        wf_grid(g),
        wf_grid(s),
        solved(s),
        extends(g, s),
        0 <= i < 81,
        g[i] == 0,
        1 <= v <= s[i] as int,
    ensures
        try_values(g, i, v) is Some,
    decreases num_zeros(g), 0int, 10 - v,
{
    assert(s[i] <= 9);
    if v == s[i] as int {
        assert(valid_at(s, i, s[i]));
        lemma_valid_monotone(g, s, i, s[i]);
        let g2 = g.update(i, v as u16);
        lemma_zeros_below_update(g, i, v as u16, 81);
        assert(wf_grid(g2));
        assert(extends(g2, s));
        lemma_solve_spec_complete(g2, s);
    } else {
        if valid_at(g, i, v as u16) && solve_spec(g.update(i, v as u16)) is Some {
        } else {
            lemma_try_values_complete(g, i, v + 1, s);
        }
    }
}

/// The coordinates of a cell index recombine to the same index, and lie in range.
pub proof fn lemma_coords_of_index(pos: int)
    requires
        0 <= pos < 81,
    ensures
        cell_index(col_of(pos), row_of(pos)) == pos,
        0 <= col_of(pos) < 9,
        0 <= row_of(pos) < 9,
{
}

/// A (column, row) pair in range yields an index in range with those coordinates.
pub proof fn lemma_index_of_coords(c: int, r: int)
    requires
        0 <= c < 9,
        0 <= r < 9,
    ensures
        0 <= cell_index(c, r) < 81,
        col_of(cell_index(c, r)) == c,
        row_of(cell_index(c, r)) == r,
{
}

} // verus!
