//! Conversions between viewport cursor positions and logical cell
//! coordinates. Viewport lines are 1-indexed, cursor columns 0-indexed;
//! cells are 0-indexed on both axes.

use vstd::arithmetic::div_mod::{lemma_fundamental_div_mod, lemma_mod_multiples_basic};
use vstd::prelude::*;

verus! {

/// Visible characters per cell.
pub const CELL_WIDTH: usize = 8;

/// Width of the separator drawn between cells.
pub const SEPARATOR_WIDTH: usize = 1;

/// Horizontal span one cell occupies on screen, separator included.
pub const CELL_UNIT_WIDTH: usize = CELL_WIDTH + SEPARATOR_WIDTH;

/// Logical cell coordinate in the sparse table, zero-based on both axes.
#[derive(Clone, Copy, PartialEq, Eq, Structural, Debug)]
pub struct CellPos {
    pub x: usize,
    pub y: usize,
}

/// Cell column that a cursor column falls in.
pub open spec fn to_cell_x(col: int) -> int {
    col / (CELL_UNIT_WIDTH as int)
}

/// Cursor column of a cell column's left edge.
pub open spec fn from_cell_col(x: int) -> int {
    x * (CELL_UNIT_WIDTH as int)
}

/// Cursor column snapped down to the nearest cell boundary.
pub open spec fn normalize_col(col: int) -> int {
    col - col % (CELL_UNIT_WIDTH as int)
}

/// Cell coordinate `(x, y)` under the cursor at `(line, col)`.
pub open spec fn to_cell_spec(col: int, line: int) -> (int, int) {
    (to_cell_x(col), line - 1)
}

/// Cursor position `(line, col)` at the left edge of cell `(x, y)`.
pub open spec fn from_cell_spec(x: int, y: int) -> (int, int) {
    (y + 1, from_cell_col(x))
}

/// Cursor position `(line, col)` snapped to its cell's left boundary.
pub open spec fn normalize_spec(line: int, col: int) -> (int, int) {
    (line, normalize_col(col))
}

/// Negative axis values are clamped to the origin: no negative cell
/// coordinate is representable.
pub open spec fn clamp_at_zero(v: int) -> int {
    if v < 0 {
        0
    } else {
        v
    }
}

/// Cell under the cursor at `(line, col)`. Lines below the first are a
/// caller error and are excluded.
pub fn cell_pos(col: usize, line: usize) -> (p: CellPos)
    requires
        line >= 1,
    ensures
        (p.x as int, p.y as int) == to_cell_spec(col as int, line as int),
{
    CellPos { x: col / CELL_UNIT_WIDTH, y: line - 1 }
}

/// Cursor position of the left edge of `pos`, where normal-mode motion
/// rests.
pub fn cursor_position(pos: CellPos) -> (r: (usize, usize))
    requires
        pos.y + 1 <= usize::MAX,
        pos.x * CELL_UNIT_WIDTH <= usize::MAX,
    ensures
        (r.0 as int, r.1 as int) == from_cell_spec(pos.x as int, pos.y as int),
{
    (pos.y + 1, pos.x * CELL_UNIT_WIDTH)
}

/// Cursor position at the right end of `pos`, used when entering
/// block-visual selection so that extending the selection covers the
/// whole cell width.
pub fn cursor_position_visual(pos: CellPos) -> (r: (usize, usize))
    requires
        pos.y + 1 <= usize::MAX,
        pos.x * CELL_UNIT_WIDTH + CELL_WIDTH <= usize::MAX,
    ensures
        r.0 == pos.y + 1,
        r.1 == from_cell_col(pos.x as int) + CELL_WIDTH,
{
    (pos.y + 1, pos.x * CELL_UNIT_WIDTH + CELL_WIDTH)
}

/// Cursor position snapped down to the nearest cell boundary, so that
/// outside of an active edit the cursor always rests on one.
pub fn normalize_cursor_position(line: usize, col: usize) -> (r: (usize, usize))
    ensures
        (r.0 as int, r.1 as int) == normalize_spec(line as int, col as int),
{
    (line, col - col % CELL_UNIT_WIDTH)
}

/// Translation of `pos` by `(dx, dy)` cells, clamped at the origin on
/// each axis.
pub fn move_cells(pos: CellPos, dx: isize, dy: isize) -> (p: CellPos)
    requires
        pos.x + dx <= usize::MAX,
        pos.y + dy <= usize::MAX,
    ensures
        p.x == clamp_at_zero(pos.x + dx),
        p.y == clamp_at_zero(pos.y + dy),
{
    let nx: i128 = pos.x as i128 + dx as i128;
    let ny: i128 = pos.y as i128 + dy as i128;
    let x: usize = if nx < 0 {
        0
    } else {
        nx as usize
    };
    let y: usize = if ny < 0 {
        0
    } else {
        ny as usize
    };
    CellPos { x, y }
}

/// One cell to the left, stopping at the first column.
pub fn move_left(pos: CellPos) -> (p: CellPos)
    ensures
        p.x == clamp_at_zero(pos.x - 1),
        p.y == pos.y,
{
    move_cells(pos, -1, 0)
}

/// One cell to the right.
pub fn move_right(pos: CellPos) -> (p: CellPos)
    requires
        pos.x + 1 <= usize::MAX,
    ensures
        p.x == pos.x + 1,
        p.y == pos.y,
{
    move_cells(pos, 1, 0)
}

/// One cell up, stopping at the first row.
pub fn move_up(pos: CellPos) -> (p: CellPos)
    ensures
        p.x == pos.x,
        p.y == clamp_at_zero(pos.y - 1),
{
    move_cells(pos, 0, -1)
}

/// One cell down.
pub fn move_down(pos: CellPos) -> (p: CellPos)
    requires
        pos.y + 1 <= usize::MAX,
    ensures
        p.x == pos.x,
        p.y == pos.y + 1,
{
    move_cells(pos, 0, 1)
}

/// Clamped translation by `(dx, dy)`, answered as the cursor position at
/// the right end of the moved-to cell: the landing point for block-visual
/// motion.
pub fn move_cells_visual(pos: CellPos, dx: isize, dy: isize) -> (r: (usize, usize))
    requires
        pos.x + dx <= usize::MAX,
        pos.y + dy <= usize::MAX,
        clamp_at_zero(pos.y + dy) + 1 <= usize::MAX,
        clamp_at_zero(pos.x + dx) * CELL_UNIT_WIDTH + CELL_WIDTH <= usize::MAX,
    ensures
        r.0 == clamp_at_zero(pos.y + dy) + 1,
        r.1 == from_cell_col(clamp_at_zero(pos.x + dx)) + CELL_WIDTH,
{
    let p = move_cells(pos, dx, dy);
    cursor_position_visual(p)
}

/// One visual-mode step to the left.
pub fn move_left_visual(pos: CellPos) -> (r: (usize, usize))
    requires
        pos.y + 1 <= usize::MAX,
        pos.x * CELL_UNIT_WIDTH + CELL_WIDTH <= usize::MAX,
    ensures
        r.0 == pos.y + 1,
        r.1 == from_cell_col(clamp_at_zero(pos.x - 1)) + CELL_WIDTH,
{
    proof {
        vstd::arithmetic::mul::lemma_mul_inequality(
            clamp_at_zero(pos.x - 1),
            pos.x as int,
            CELL_UNIT_WIDTH as int,
        );
    }
    move_cells_visual(pos, -1, 0)
}

/// One visual-mode step to the right.
pub fn move_right_visual(pos: CellPos) -> (r: (usize, usize))
    requires
        pos.y + 1 <= usize::MAX,
        (pos.x + 1) * CELL_UNIT_WIDTH + CELL_WIDTH <= usize::MAX,
    ensures
        r.0 == pos.y + 1,
        r.1 == from_cell_col(pos.x + 1) + CELL_WIDTH,
{
    move_cells_visual(pos, 1, 0)
}

/// One visual-mode step up.
pub fn move_up_visual(pos: CellPos) -> (r: (usize, usize))
    requires
        pos.y + 1 <= usize::MAX,
        pos.x * CELL_UNIT_WIDTH + CELL_WIDTH <= usize::MAX,
    ensures
        r.0 == clamp_at_zero(pos.y - 1) + 1,
        r.1 == from_cell_col(pos.x as int) + CELL_WIDTH,
{
    move_cells_visual(pos, 0, -1)
}

/// One visual-mode step down.
pub fn move_down_visual(pos: CellPos) -> (r: (usize, usize))
    requires
        pos.y + 2 <= usize::MAX,
        pos.x * CELL_UNIT_WIDTH + CELL_WIDTH <= usize::MAX,
    ensures
        r.0 == pos.y + 2,
        r.1 == from_cell_col(pos.x as int) + CELL_WIDTH,
{
    move_cells_visual(pos, 0, 1)
}

/// Mapping a cursor position to its cell and back lands on the cell's
/// left boundary: for every `line >= 1` and `col >= 0`, converting
/// `(line, col)` to a cell and the cell back to a cursor position gives
/// exactly the normalized cursor position.
pub proof fn lemma_cell_round_trip(line: int, col: int)
    requires
        line >= 1,
        col >= 0,
    ensures
        from_cell_spec(to_cell_spec(col, line).0, to_cell_spec(col, line).1) == normalize_spec(
            line,
            col,
        ),
{
    lemma_fundamental_div_mod(col, CELL_UNIT_WIDTH as int);
}

/// Snapping a cursor position to its cell boundary is idempotent:
/// normalizing an already-normalized position changes nothing.
pub proof fn lemma_normalize_idempotent(line: int, col: int)
    requires
        col >= 0,
    ensures
        normalize_spec(normalize_spec(line, col).0, normalize_spec(line, col).1) == normalize_spec(
            line,
            col,
        ),
{
    let u = CELL_UNIT_WIDTH as int;
    lemma_fundamental_div_mod(col, u);
    lemma_mod_multiples_basic(col / u, u);
}

} // verus!
