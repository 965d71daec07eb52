//! Grid dimensions of each level and the pixel geometry of its puzzle.
use vstd::prelude::*;

verus! {

/// Width of the canvas, in pixels.
pub const CANVAS_WIDTH: u32 = 320;

/// Height of the canvas, in pixels.
pub const CANVAS_HEIGHT: u32 = 200;

/// Height of a puzzle of three rows: 200 does not divide by three, so the
/// puzzle is two pixels shorter and sits one pixel lower.
pub const THREE_ROW_HEIGHT: u32 = 198;

/// `(cols, rows)` of the grid of each level; the levels past the ninth share
/// the hidden, hardest layout.
pub open spec fn level_grid_spec(level: u8) -> (u8, u8) {
    if level == 0 {
        (3, 2)
    } else if level == 1 {
        (4, 3)
    } else if level <= 8 {
        (5, 4)
    } else {
        (8, 5)
    }
}

/// `(cols, rows)` of the grid for the level of the given index.
pub fn level_grid(level: u8) -> (r: (u8, u8))
    ensures
        r == level_grid_spec(level),
        1 <= r.0 <= 16,
        1 <= r.1 <= 16,
{
    match level {
        0 => (3, 2),
        1 => (4, 3),
        2..=8 => (5, 4),
        _ => (8, 5),
    }
}

/// The size of a puzzle on screen and of each of its tiles, in pixels.
#[derive(Debug, Clone, Copy, PartialEq, Eq, Structural)]
pub struct PuzzleGeometry {
    pub width: u32,
    pub height: u32,
    pub tile_width: u32,
    pub tile_height: u32,
}

impl PuzzleGeometry {
    /// The tiles of a `cols` by `rows` grid cover at most the puzzle, and the
    /// puzzle at most the canvas.
    pub open spec fn fits(self, cols: int, rows: int) -> bool {
        &&& 1 <= cols
        &&& 1 <= rows
        &&& self.width <= CANVAS_WIDTH
        &&& self.height <= CANVAS_HEIGHT
        &&& self.tile_width * cols <= self.width
        &&& self.tile_height * rows <= self.height
    }
}

pub open spec fn puzzle_height_spec(rows: u8) -> u32 {
    if rows == 3 {
        THREE_ROW_HEIGHT
    } else {
        CANVAS_HEIGHT
    }
}

/// The puzzle spans the canvas's width (and its height, but for three rows);
/// a tile's size is the puzzle's divided by the grid's, rounded down.
pub fn puzzle_geometry(cols: u8, rows: u8) -> (g: PuzzleGeometry)
    requires
        1 <= cols,
        1 <= rows,
    ensures
        g.width == CANVAS_WIDTH,
        g.height == puzzle_height_spec(rows),
        g.tile_width == CANVAS_WIDTH / cols as u32,
        g.tile_height == g.height / rows as u32,
        g.fits(cols as int, rows as int),
{
    let width = CANVAS_WIDTH;
    let height = if rows == 3 {
        THREE_ROW_HEIGHT
    } else {
        CANVAS_HEIGHT
    };
    let g = PuzzleGeometry {
        width,
        height,
        tile_width: width / cols as u32,
        tile_height: height / rows as u32,
    };
    proof {
        lemma_quotient_times_divisor(width as int, cols as int);
        lemma_quotient_times_divisor(height as int, rows as int);
    }
    g
}

proof fn lemma_quotient_times_divisor(n: int, d: int)
    requires
        0 <= n,
        1 <= d,
    ensures
        (n / d) * d <= n,
{
    vstd::arithmetic::div_mod::lemma_fundamental_div_mod(n, d);
    vstd::arithmetic::div_mod::lemma_mod_bound(n, d);
    assert((n / d) * d == d * (n / d)) by (nonlinear_arith);
}

/// Pixel offset of column `col` (or row `row`) for tiles of the given
/// extent: three-wide (or three-high) grids are moved by one pixel to stay
/// centred.
pub open spec fn pixel_offset(index: int, extent: int, count: u8) -> int {
    index * extent + if count == 3 {
        1int
    } else {
        0int
    }
}

/// Obtain the expected x,y coordinates in pixels of a grid position.
pub fn pixel_position(col: u8, row: u8, tile_width: u32, tile_height: u32, cols: u8, rows: u8) -> (r: (
    u32,
    u32,
))
    requires
        pixel_offset(col as int, tile_width as int, cols) <= u32::MAX,
        pixel_offset(row as int, tile_height as int, rows) <= u32::MAX,
    ensures
        r.0 as int == pixel_offset(col as int, tile_width as int, cols),
        r.1 as int == pixel_offset(row as int, tile_height as int, rows),
{
    proof {
        assert(0 <= col as int * tile_width as int) by (nonlinear_arith);
        assert(0 <= row as int * tile_height as int) by (nonlinear_arith);
    }
    let mut x = col as u32 * tile_width;
    let mut y = row as u32 * tile_height;
    if cols == 3 {
        x += 1;
    }
    if rows == 3 {
        y += 1;
    }
    (x, y)
}

/// Obtain the expected x,y coordinates in pixels of a grid position, as
/// signed screen coordinates.
pub fn pixel_position_i32(col: u8, row: u8, tile_width: u32, tile_height: u32, cols: u8, rows: u8) -> (r: (
    i32,
    i32,
))
    requires
        pixel_offset(col as int, tile_width as int, cols) <= i32::MAX,
        pixel_offset(row as int, tile_height as int, rows) <= i32::MAX,
    ensures
        r.0 as int == pixel_offset(col as int, tile_width as int, cols),
        r.1 as int == pixel_offset(row as int, tile_height as int, rows),
{
    let (x, y) = pixel_position(col, row, tile_width, tile_height, cols, rows);
    (x as i32, y as i32)
}

} // verus!
