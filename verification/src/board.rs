//! Renders the empty 9x9 board as a block of box-drawing characters.
//!
//! The board is 37 lines of 37 characters, each line followed by a newline:
//! heavy borders around the whole grid and between the 3x3 boxes, light
//! lines between the cells. Every character of the result is pinned by a
//! spec function, so the drawing is verified down to the glyphs.

use vstd::prelude::*;

use vstd::string::StringExecFns;

verus! {

/// Height and width of the board drawing, in character cells, not counting
/// the final column of newlines.
pub const SUDOKO_CHAR_LENGTH: u16 = 36;

/// Screen columns and rows from one cell to the next.
pub const CELL_WIDTH: u16 = 4;

/// Screen column and row of the first cell's digit.
pub const START_POINT: u16 = 2;

/// Screen position of the digit of the cell with linear index `address`:
/// the cell's column and row, scaled to the drawing's spacing.
pub fn get_location_from_address(address: u16) -> (r: (u16, u16))
    requires
        address < 81,
    ensures
        r.0 == crate::grid::col_of(address as int) * CELL_WIDTH + START_POINT,
        r.1 == crate::grid::row_of(address as int) * CELL_WIDTH + START_POINT,
{
    let mut x = address % 9;
    let mut y = address / 9;
    x = x * CELL_WIDTH + START_POINT;
    y = y * CELL_WIDTH + START_POINT;
    (x, y)
}

/// Character `k` of the top border (`is_top`) or the bottom border.
pub open spec fn top_bottom_char(k: int, is_top: bool) -> char {
    if k == 0 {
        if is_top {
            '╔'
        } else {
            '╚'
        }
    } else if k == 36 {
        if is_top {
            '╗'
        } else {
            '╝'
        }
    } else if k % 4 == 0 && k % 3 == 0 {
        if is_top {
            '╦'
        } else {
            '╩'
        }
    } else if k % 4 == 0 {
        if is_top {
            '╤'
        } else {
            '╧'
        }
    } else {
        '═'
    }
}

/// Character `k` of a horizontal separator line between cell rows.
pub open spec fn joint_line_char(k: int) -> char {
    if k == 0 {
        '╟'
    } else if k == 36 {
        '╢'
    } else if k % 4 == 0 && k % 3 == 0 {
        '╫'
    } else if k % 4 == 0 {
        '┼'
    } else {
        '─'
    }
}

/// Character `k` of a line holding the (empty) cell interiors.
pub open spec fn cell_line_char(k: int) -> char {
    if k == 0 {
        '║'
    } else if k == 36 {
        '║'
    } else if k % 4 == 0 && k % 3 == 0 {
        '║'
    } else if k % 4 == 0 {
        '│'
    } else {
        ' '
    }
}

/// Character `k` of line `line` of the board, the newlines not counted.
pub open spec fn board_line_char(line: int, k: int) -> char {
    if line == 0 {
        top_bottom_char(k, true)
    } else if line == 36 {
        top_bottom_char(k, false)
    } else if line % 4 == 0 {
        joint_line_char(k)
    } else {
        cell_line_char(k)
    }
}

/// Character `k` of the whole board drawing, each of the 37 lines of 37
/// characters followed by one newline.
pub open spec fn board_char(k: int) -> char {
    if k % 38 == 37 {
        '\n'
    } else {
        board_line_char(k / 38, k % 38)
    }
}

/// Appends the single character `c`, handed over as the one-character
/// string `s`, to `line`.
fn append_char(line: &mut String, s: &str, c: char)
    requires
        s@.len() == 1,
        s@[0] == c,
    ensures
        final(line)@ == old(line)@.push(c),
{
    line.append(s);
    proof {
        assert(line@ =~= old(line)@.push(c));
    }
}

/// Draws the top border (`is_top`) or the bottom border of the board.
fn draw_top_bottom_line(is_top: bool) -> (r: String)
    ensures
        r@.len() == 37,
        forall|k: int| 0 <= k < 37 ==> r@[k] == top_bottom_char(k, is_top),
{
    let mut line = String::new();
    let mut i: u16 = 0;
    while i <= 36
        invariant
            i <= 37,
            line@.len() == i,
            forall|k: int| 0 <= k < i ==> line@[k] == top_bottom_char(k, is_top),
        decreases 37 - i,
    {
        proof {
            reveal_strlit("╔");
            reveal_strlit("╚");
            reveal_strlit("╗");
            reveal_strlit("╝");
            reveal_strlit("╦");
            reveal_strlit("╩");
            reveal_strlit("╤");
            reveal_strlit("╧");
            reveal_strlit("═");
        }
        if i == 0 {
            if is_top {
                append_char(&mut line, "╔", '╔');
            } else {
                append_char(&mut line, "╚", '╚');
            }
        } else if i == 36 {
            if is_top {
                append_char(&mut line, "╗", '╗');
            } else {
                append_char(&mut line, "╝", '╝');
            }
        } else if i % 4 == 0 && i % 3 == 0 {
            if is_top {
                append_char(&mut line, "╦", '╦');
            } else {
                append_char(&mut line, "╩", '╩');
            }
        } else if i % 4 == 0 {
            if is_top {
                append_char(&mut line, "╤", '╤');
            } else {
                append_char(&mut line, "╧", '╧');
            }
        } else {
            append_char(&mut line, "═", '═');
        }
        i += 1;
    }
    line
}

/// Draws a separator line between cell rows, light joints at cell borders.
fn draw_middle_with_single_joint() -> (r: String)
    ensures
        r@.len() == 37,
        forall|k: int| 0 <= k < 37 ==> r@[k] == joint_line_char(k),
{
    let mut line = String::new();
    let mut i: u16 = 0;
    while i <= 36
        invariant
            i <= 37,
            line@.len() == i,
            forall|k: int| 0 <= k < i ==> line@[k] == joint_line_char(k),
        decreases 37 - i,
    {
        proof {
            reveal_strlit("╟");
            reveal_strlit("╢");
            reveal_strlit("╫");
            reveal_strlit("┼");
            reveal_strlit("─");
        }
        if i == 0 {
            append_char(&mut line, "╟", '╟');
        } else if i == 36 {
            append_char(&mut line, "╢", '╢');
        } else if i % 4 == 0 && i % 3 == 0 {
            append_char(&mut line, "╫", '╫');
        } else if i % 4 == 0 {
            append_char(&mut line, "┼", '┼');
        } else {
            append_char(&mut line, "─", '─');
        }
        i += 1;
    }
    line
}

/// Draws a separator line between 3x3 box rows. The glyph set is the same
/// as for the single-joint separator, so the two lines render alike.
fn draw_middle_with_double_joint() -> (r: String)
    ensures
        r@.len() == 37,
        forall|k: int| 0 <= k < 37 ==> r@[k] == joint_line_char(k),
{
    let mut line = String::new();
    let mut i: u16 = 0;
    while i <= 36
        invariant
            i <= 37,
            line@.len() == i,
            forall|k: int| 0 <= k < i ==> line@[k] == joint_line_char(k),
        decreases 37 - i,
    {
        proof {
            reveal_strlit("╟");
            reveal_strlit("╢");
            reveal_strlit("╫");
            reveal_strlit("┼");
            reveal_strlit("─");
        }
        if i == 0 {
            append_char(&mut line, "╟", '╟');
        } else if i == 36 {
            append_char(&mut line, "╢", '╢');
        } else if i % 4 == 0 && i % 3 == 0 {
            append_char(&mut line, "╫", '╫');
        } else if i % 4 == 0 {
            append_char(&mut line, "┼", '┼');
        } else {
            append_char(&mut line, "─", '─');
        }
        i += 1;
    }
    line
}

/// Draws a line of empty cell interiors with their vertical borders.
fn draw_middle_with_empty_cell() -> (r: String)
    ensures
        r@.len() == 37,
        forall|k: int| 0 <= k < 37 ==> r@[k] == cell_line_char(k),
{
    let mut line = String::new();
    let mut i: u16 = 0;
    while i <= 36
        invariant
            i <= 37,
            line@.len() == i,
            forall|k: int| 0 <= k < i ==> line@[k] == cell_line_char(k),
        decreases 37 - i,
    {
        proof {
            reveal_strlit("║");
            reveal_strlit("│");
            reveal_strlit(" ");
        }
        if i == 0 {
            append_char(&mut line, "║", '║');
        } else if i == 36 {
            append_char(&mut line, "║", '║');
        } else if i % 4 == 0 && i % 3 == 0 {
            append_char(&mut line, "║", '║');
        } else if i % 4 == 0 {
            append_char(&mut line, "│", '│');
        } else {
            append_char(&mut line, " ", ' ');
        }
        i += 1;
    }
    line
}

/// Draws the whole empty board: 37 lines of 37 characters, each followed
/// by a newline, every character as [`board_char`] lays it down.
pub fn draw_board() -> (r: String)
    ensures
        r@.len() == 38 * 37,
        forall|k: int| 0 <= k < 38 * 37 ==> r@[k] == board_char(k),
{
    let mut board = String::new();
    let mut i: u16 = 0;
    while i <= 36
        invariant
            i <= 37,
            board@.len() == 38 * i,
            forall|k: int| 0 <= k < 38 * i ==> board@[k] == board_char(k),
        decreases 37 - i,
    {
        let ghost prev = board@;
        let line = if i == 0 {
            draw_top_bottom_line(true)
        } else if i == 36 {
            draw_top_bottom_line(false)
        } else if i % 4 == 0 && i % 3 == 0 {
            draw_middle_with_double_joint()
        } else if i % 4 == 0 {
            draw_middle_with_single_joint()
        } else {
            draw_middle_with_empty_cell()
        };
        proof {
            reveal_strlit("\n");
        }
        board.append(line.as_str());
        append_char(&mut board, "\n", '\n');
        proof {
            assert forall|k: int| 0 <= k < 38 * (i + 1) implies board@[k] == board_char(k) by {
                if k < 38 * i {
                    assert(board@[k] == prev[k]);
                } else {
                    assert(k / 38 == i as int && k % 38 == k - 38 * i);
                    if k % 38 == 37 {
                        assert(board@[k] == '\n');
                    } else {
                        assert(board@[k] == line@[k - 38 * i]);
                        assert(board_line_char(i as int, k - 38 * i) == line@[k - 38 * i]);
                    }
                }
            }
        }
        i += 1;
    }
    board
}

} // verus!
