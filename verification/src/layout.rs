//! Pure geometry of the board: where each target slot sits.
//!
//! Slots are numbered row-major with index 0 at the visual top left, while
//! the world's vertical axis grows upward; the vertical inversion lives in
//! one place here so slot generation and tile targets can never drift apart.

use vstd::prelude::*;
use vstd::arithmetic::div_mod::lemma_fundamental_div_mod;
use vstd::arithmetic::mul::lemma_mul_inequality;

verus! {

/// Largest coordinate (in scaled world units) accepted for slot centers,
/// scattered tiles and pointer input.
pub const COORD_LIMIT: i64 = 1_000_000_000;

/// Largest number of grid columns or rows a board may have.
pub const MAX_GRID_DIM: usize = 1024;

/// Largest side of one grid cell, in scaled world units.
pub const MAX_CELL_SIDE: i64 = 1_048_576;

/// Largest accepted squared radius (pick radius or snap threshold).
pub const MAX_RADIUS_SQ: i64 = 2_199_023_255_552;

/// Immutable geometry of one play session: the grid size and the cell side,
/// with the board dimensions they span.  The board is centered at the world
/// origin.
#[derive(Clone, Copy, Debug)]
pub struct BoardConfig {
    pub columns: usize,
    pub rows: usize,
    pub cell_side: i64,
    pub board_width: i64,
    pub board_height: i64,
}

impl BoardConfig {
    /// A configuration is well formed when the grid is non-empty, small
    /// enough for exact arithmetic, and the board dimensions are exactly the
    /// cells it is cut into.
    pub open spec fn wf(self) -> bool {
        &&& 1 <= self.columns <= MAX_GRID_DIM
        &&& 1 <= self.rows <= MAX_GRID_DIM
        &&& 1 <= self.cell_side <= MAX_CELL_SIDE
        &&& self.board_width == self.columns * self.cell_side
        &&& self.board_height == self.rows * self.cell_side
    }

    /// How many slots (and tiles) the board holds.
    pub open spec fn spec_piece_count(self) -> int {
        self.columns * self.rows
    }

    /// Builds the configuration for a grid of `columns` by `rows` cells of
    /// side `cell_side`.
    pub fn new(columns: usize, rows: usize, cell_side: i64) -> (cfg: BoardConfig)
        requires
            1 <= columns <= MAX_GRID_DIM,
            1 <= rows <= MAX_GRID_DIM,
            1 <= cell_side <= MAX_CELL_SIDE,
        ensures
            cfg.wf(),
            cfg.columns == columns,
            cfg.rows == rows,
            cfg.cell_side == cell_side,
    {
        proof {
            lemma_mul_inequality(columns as int, MAX_GRID_DIM as int, cell_side as int);
            lemma_mul_inequality(rows as int, MAX_GRID_DIM as int, cell_side as int);
            assert(MAX_GRID_DIM * cell_side <= MAX_GRID_DIM * MAX_CELL_SIDE) by (nonlinear_arith)
                requires 1 <= cell_side <= MAX_CELL_SIDE,
            ;
            assert(columns * cell_side >= 1) by (nonlinear_arith)
                requires columns >= 1, cell_side >= 1,
            ;
            assert(rows * cell_side >= 1) by (nonlinear_arith)
                requires rows >= 1, cell_side >= 1,
            ;
        }
        let width = (columns as i64) * cell_side;
        let height = (rows as i64) * cell_side;
        BoardConfig { columns, rows, cell_side, board_width: width, board_height: height }
    }

    /// The number of pieces, as a machine integer.
    pub fn piece_count(&self) -> (n: usize)
        requires
            self.wf(),
        ensures
            n == self.spec_piece_count(),
    {
        proof {
            lemma_mul_inequality(self.columns as int, MAX_GRID_DIM as int, self.rows as int);
            assert(MAX_GRID_DIM * self.rows <= MAX_GRID_DIM * MAX_GRID_DIM) by (nonlinear_arith)
                requires 1 <= self.rows <= MAX_GRID_DIM,
            ;
        }
        self.columns * self.rows
    }
}

/// The grid column of slot `index` (row-major order).
pub open spec fn col_of(index: int, columns: int) -> int {
    index % columns
}

/// The grid row of slot `index`, counted from the visual top.
pub open spec fn row_of(index: int, columns: int) -> int {
    index / columns
}

/// Horizontal center of the cell in grid column `col`: the grid is centered
/// at the board origin.
pub open spec fn cell_center_x(cfg: BoardConfig, col: int) -> int {
    cfg.cell_side / 2 + col * cfg.cell_side - cfg.board_width / 2
}

/// Vertical center of the cell in grid row `row_from_top`.  The world's
/// vertical axis grows upward while rows count down from the top, hence the
/// inversion.
pub open spec fn cell_center_y(cfg: BoardConfig, row_from_top: int) -> int {
    cfg.cell_side / 2 + (cfg.rows - 1 - row_from_top) * cfg.cell_side - cfg.board_height / 2
}

/// Where the center of slot `index` sits.
pub open spec fn spec_slot_x(cfg: BoardConfig, index: int) -> int {
    cell_center_x(cfg, col_of(index, cfg.columns as int))
}

/// Where the center of slot `index` sits.
pub open spec fn spec_slot_y(cfg: BoardConfig, index: int) -> int {
    cell_center_y(cfg, row_of(index, cfg.columns as int))
}

/// Computes the on-board center position of slot `index`.
pub fn slot_position(cfg: &BoardConfig, index: usize) -> (pos: (i64, i64))
    requires
        cfg.wf(),
        index < cfg.spec_piece_count(),
    ensures
        pos.0 == spec_slot_x(*cfg, index as int),
        pos.1 == spec_slot_y(*cfg, index as int),
        -COORD_LIMIT <= pos.0 <= COORD_LIMIT,
        -COORD_LIMIT <= pos.1 <= COORD_LIMIT,
{
    let col = index % cfg.columns;
    let row = index / cfg.columns;
    proof {
        assert(row < cfg.rows) by (nonlinear_arith)
            requires
                row == index as int / cfg.columns as int,
                index < cfg.columns * cfg.rows,
                cfg.columns >= 1,
                cfg.rows >= 1,
        ;
        lemma_mul_inequality(col as int, cfg.columns as int - 1, cfg.cell_side as int);
        lemma_mul_inequality(
            cfg.rows as int - 1 - row as int,
            cfg.rows as int - 1,
            cfg.cell_side as int,
        );
        assert((cfg.columns - 1) * cfg.cell_side == cfg.columns * cfg.cell_side - cfg.cell_side)
            by (nonlinear_arith);
        assert((cfg.rows - 1) * cfg.cell_side == cfg.rows * cfg.cell_side - cfg.cell_side)
            by (nonlinear_arith);
        assert(col * cfg.cell_side >= 0) by (nonlinear_arith)
            requires col >= 0, cfg.cell_side >= 1,
        ;
        assert(cfg.columns * cfg.cell_side <= MAX_GRID_DIM * MAX_CELL_SIDE) by (nonlinear_arith)
            requires
                1 <= cfg.columns <= MAX_GRID_DIM,
                1 <= cfg.cell_side <= MAX_CELL_SIDE,
        ;
        assert(cfg.rows * cfg.cell_side <= MAX_GRID_DIM * MAX_CELL_SIDE) by (nonlinear_arith)
            requires
                1 <= cfg.rows <= MAX_GRID_DIM,
                1 <= cfg.cell_side <= MAX_CELL_SIDE,
        ;
        assert((cfg.rows - 1 - row) * cfg.cell_side >= 0) by (nonlinear_arith)
            requires cfg.rows - 1 - row >= 0, cfg.cell_side >= 1,
        ;
    }
    let x = cfg.cell_side / 2 + (col as i64) * cfg.cell_side - cfg.board_width / 2;
    let y = cfg.cell_side / 2 + ((cfg.rows - 1 - row) as i64) * cfg.cell_side
        - cfg.board_height / 2;
    (x, y)
}

/// Computes the centers of all `columns * rows` slots, in slot order.
pub fn slot_positions(cfg: &BoardConfig) -> (positions: Vec<(i64, i64)>)
    requires
        cfg.wf(),
    ensures
        positions@.len() == cfg.spec_piece_count(),
        forall|i: int| 0 <= i < positions@.len() ==> (#[trigger] positions@[i]).0
            == spec_slot_x(*cfg, i) && positions@[i].1 == spec_slot_y(*cfg, i),
        forall|i: int| 0 <= i < positions@.len() ==>
            -COORD_LIMIT <= (#[trigger] positions@[i]).0 <= COORD_LIMIT
            && -COORD_LIMIT <= positions@[i].1 <= COORD_LIMIT,
{
    let count = cfg.piece_count();
    let mut positions: Vec<(i64, i64)> = Vec::new();
    let mut i: usize = 0;
    while i < count
        invariant
            cfg.wf(),
            count == cfg.spec_piece_count(),
            i <= count,
            positions@.len() == i,
            forall|k: int| 0 <= k < i ==> (#[trigger] positions@[k]).0
                == spec_slot_x(*cfg, k) && positions@[k].1 == spec_slot_y(*cfg, k),
            forall|k: int| 0 <= k < i ==>
                -COORD_LIMIT <= (#[trigger] positions@[k]).0 <= COORD_LIMIT
                && -COORD_LIMIT <= positions@[k].1 <= COORD_LIMIT,
        decreases count - i,
    {
        let pos = slot_position(cfg, i);
        positions.push(pos);
        i = i + 1;
    }
    positions
}

/// The squared radius of a tile's pick-up circle, derived from the cell side.
pub open spec fn spec_pick_radius_sq(cell_side: int) -> int {
    cell_side * cell_side / 2
}

/// The squared snap threshold: a quarter of the squared pick radius.
pub open spec fn spec_snap_radius_sq(cell_side: int) -> int {
    spec_pick_radius_sq(cell_side) / 4
}

/// Computes the squared pick radius for cells of side `cell_side`.
pub fn pick_radius_sq(cell_side: i64) -> (r: i64)
    requires
        1 <= cell_side <= MAX_CELL_SIDE,
    ensures
        r == spec_pick_radius_sq(cell_side as int),
        0 <= r <= MAX_RADIUS_SQ,
{
    proof {
        assert(0 <= cell_side * cell_side <= MAX_CELL_SIDE * MAX_CELL_SIDE) by (nonlinear_arith)
            requires 1 <= cell_side <= MAX_CELL_SIDE,
        ;
    }
    cell_side * cell_side / 2
}

/// Computes the squared snap threshold for cells of side `cell_side`.
pub fn snap_radius_sq(cell_side: i64) -> (r: i64)
    requires
        1 <= cell_side <= MAX_CELL_SIDE,
    ensures
        r == spec_snap_radius_sq(cell_side as int),
        0 <= r <= MAX_RADIUS_SQ,
{
    pick_radius_sq(cell_side) / 4
}

/// Distinct slot indices sit at distinct positions: the layout never stacks
/// two targets on one point.
pub proof fn lemma_slot_positions_distinct(cfg: BoardConfig, i: int, j: int)
    requires
        cfg.wf(),
        0 <= i < cfg.spec_piece_count(),
        0 <= j < cfg.spec_piece_count(),
        i != j,
    ensures
        spec_slot_x(cfg, i) != spec_slot_x(cfg, j) || spec_slot_y(cfg, i) != spec_slot_y(cfg, j),
{
    let c = cfg.columns as int;
    let side = cfg.cell_side as int;
    let ci = col_of(i, c);
    let cj = col_of(j, c);
    let ri = row_of(i, c);
    let rj = row_of(j, c);
    lemma_fundamental_div_mod(i, c);
    lemma_fundamental_div_mod(j, c);
    if ci == cj && ri == rj {
        assert(i == c * ri + ci);
        assert(j == c * rj + cj);
        assert(false);
    }
    if ci != cj {
        assert(ci * side != cj * side) by (nonlinear_arith)
            requires ci != cj, side >= 1,
        ;
        assert(spec_slot_x(cfg, i) != spec_slot_x(cfg, j));
    } else {
        assert((cfg.rows - 1 - ri) * side != (cfg.rows - 1 - rj) * side) by (nonlinear_arith)
            requires ri != rj, side >= 1,
        ;
        assert(spec_slot_y(cfg, i) != spec_slot_y(cfg, j));
    }
}

/// Slot `index` and grid cell `(col_of(index), row_of(index))` are the same
/// cell of the board: the slot's center is the center of exactly that cell,
/// with the row counted from the visual top.
pub proof fn lemma_slot_is_grid_cell(cfg: BoardConfig, index: int)
    requires
        cfg.wf(),
        0 <= index < cfg.spec_piece_count(),
    ensures
        spec_slot_x(cfg, index) == cell_center_x(cfg, col_of(index, cfg.columns as int)),
        spec_slot_y(cfg, index) == cell_center_y(cfg, row_of(index, cfg.columns as int)),
        0 <= col_of(index, cfg.columns as int) < cfg.columns,
        0 <= row_of(index, cfg.columns as int) < cfg.rows,
        index == row_of(index, cfg.columns as int) * cfg.columns
            + col_of(index, cfg.columns as int),
{
    let c = cfg.columns as int;
    lemma_fundamental_div_mod(index, c);
    assert(row_of(index, c) < cfg.rows) by (nonlinear_arith)
        requires
            row_of(index, c) == index / c,
            index < c * cfg.rows,
            c >= 1,
            cfg.rows >= 1,
    ;
    assert(row_of(index, c) >= 0) by (nonlinear_arith)
        requires row_of(index, c) == index / c, index >= 0, c >= 1,
    ;
    assert(c * (index / c) == (index / c) * c) by (nonlinear_arith);
}

} // verus!
