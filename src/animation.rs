//! What to draw on screen: the tiles at the start of a level, and the frames
//! of a tile sliding into the empty slot.
use crate::geometry::{pixel_offset, pixel_position, pixel_position_i32, PuzzleGeometry};
use crate::tiles::{Board, Move, Tiles};
use vstd::prelude::*;

verus! {

/// Colour index painted where no tile stands.
pub const BLANK_COLOR: u8 = 255;

/// A one-pixel-thick line in the blank colour.
#[derive(Debug, Clone, Copy, PartialEq, Eq, Structural)]
pub enum Stroke {
    /// `length` pixels to the right of `(x, y)`
    Horizontal { x: i32, y: i32, length: u32 },
    /// `length` pixels down from `(x, y)`
    Vertical { x: i32, y: i32, length: u32 },
}

/// One step of a slide: the moving tile's picture drawn with its top-left
/// corner at `(x, y)`, and two lines that erase the track it leaves behind.
#[derive(Debug, Clone, Copy, PartialEq, Eq, Structural)]
pub struct SlideFrame {
    pub x: i32,
    pub y: i32,
    pub erase_near: Stroke,
    pub erase_far: Stroke,
}

/// The slide of one tile: the rectangle of the picture that the tile shows
/// and the frames to draw, in order.
#[derive(Debug)]
pub struct SlidePlan {
    pub origin_x: u32,
    pub origin_y: u32,
    pub width: u32,
    pub height: u32,
    pub frames: Vec<SlideFrame>,
}

/// One drawing at the start of a level.
#[derive(Debug, Clone, Copy, PartialEq, Eq, Structural)]
pub enum TileDraw {
    /// a blank rectangle with its top-left corner at `(x, y)`
    Blank { x: i32, y: i32, width: u32, height: u32 },
    /// the picture's rectangle at `(origin_x, origin_y)`, copied to `(x, y)`
    Tile { origin_x: u32, origin_y: u32, width: u32, height: u32, x: i32, y: i32 },
}

/// How far a tile travels when slid by `m`: its height or its width.
pub open spec fn slide_extent(g: PuzzleGeometry, m: Move) -> u32 {
    match m {
        Move::Up | Move::Down => g.tile_height,
        Move::Left | Move::Right => g.tile_width,
    }
}

/// The number of frames of a slide: two pixels a frame, the last one
/// possibly short.
pub open spec fn frame_count(extent: u32) -> int {
    (extent as int + 1) / 2
}

/// Frame `k` (from 1) of a slide by `m` of the tile whose cell starts at
/// `(x, y)`: the tile has moved `2 * k` pixels, and the two lines behind its
/// trailing edge are blanked.
pub open spec fn slide_frame(x: int, y: int, g: PuzzleGeometry, m: Move, k: int) -> SlideFrame {
    let d = 2 * k;
    let w = g.tile_width as int;
    let h = g.tile_height as int;
    match m {
        Move::Up => SlideFrame {
            x: x as i32,
            y: (y - d) as i32,
            erase_near: Stroke::Horizontal { x: x as i32, y: (y - d + h) as i32, length: g.tile_width },
            erase_far: Stroke::Horizontal { x: x as i32, y: (y - d + h + 1) as i32, length: g.tile_width },
        },
        Move::Down => SlideFrame {
            x: x as i32,
            y: (y + d) as i32,
            erase_near: Stroke::Horizontal { x: x as i32, y: (y + d - 1) as i32, length: g.tile_width },
            erase_far: Stroke::Horizontal { x: x as i32, y: (y + d - 2) as i32, length: g.tile_width },
        },
        Move::Left => SlideFrame {
            x: (x - d) as i32,
            y: y as i32,
            erase_near: Stroke::Vertical { x: (x - d + w) as i32, y: y as i32, length: g.tile_height },
            erase_far: Stroke::Vertical { x: (x - d + w + 1) as i32, y: y as i32, length: g.tile_height },
        },
        Move::Right => SlideFrame {
            x: (x + d) as i32,
            y: y as i32,
            erase_near: Stroke::Vertical { x: (x + d - 1) as i32, y: y as i32, length: g.tile_height },
            erase_far: Stroke::Vertical { x: (x + d - 2) as i32, y: y as i32, length: g.tile_height },
        },
    }
}

/// `plan` slides, by `m`, the tile next to the empty slot of `b`: it shows
/// the picture's rectangle of that tile's goal cell and moves it frame by
/// frame from its own cell towards the empty one.
pub open spec fn is_slide_plan(plan: SlidePlan, b: Board, g: PuzzleGeometry, m: Move) -> bool {
    let (cx, cy) = b.target(m);
    let (gx, gy) = b.goal_of(cx, cy);
    let x = pixel_offset(cx, g.tile_width as int, b.cols as u8);
    let y = pixel_offset(cy, g.tile_height as int, b.rows as u8);
    &&& plan.origin_x as int == pixel_offset(gx, g.tile_width as int, b.cols as u8)
    &&& plan.origin_y as int == pixel_offset(gy, g.tile_height as int, b.rows as u8)
    &&& plan.width == g.tile_width
    &&& plan.height == g.tile_height
    &&& plan.frames@.len() == frame_count(slide_extent(g, m))
    &&& forall|k: int|
        0 <= k < plan.frames@.len() ==> #[trigger] plan.frames@[k] == slide_frame(x, y, g, m, k + 1)
}

/// The offset of a tile in a row (or column) of `count` tiles of the given
/// extent that fit in `total` pixels stays within the canvas.
proof fn lemma_offset_in_canvas(i: int, extent: int, count: int, total: int)
    requires
        0 <= i < count,
        0 <= extent,
        extent * count <= total,
    ensures
        0 <= pixel_offset(i, extent, count as u8),
        extent <= total,
        pixel_offset(i, extent, count as u8) + extent <= total + 1,
{
    assert(0 <= i * extent) by (nonlinear_arith)
        requires
            0 <= i,
            0 <= extent,
    ;
    assert(i * extent + extent <= extent * count) by (nonlinear_arith)
        requires
            0 <= i < count,
            0 <= extent,
    ;
}

/// Plan the slide of the tile that `m` moves into the empty slot.
pub fn slide_plan(tiles: &Tiles, geometry: &PuzzleGeometry, m: Move) -> (plan: SlidePlan)
    requires
        tiles.wf(),
        tiles@.allows(m),
        geometry.fits(tiles.cols as int, tiles.rows as int),
    ensures
        is_slide_plan(plan, tiles@, *geometry, m),
{
    let (x, y, delta_x, delta_y): (u8, u8, i32, i32) = match m {
        Move::Up => (tiles.empty_x, tiles.empty_y + 1, 0, -1),
        Move::Down => (tiles.empty_x, tiles.empty_y - 1, 0, 1),
        Move::Left => (tiles.empty_x + 1, tiles.empty_y, -1, 0),
        Move::Right => (tiles.empty_x - 1, tiles.empty_y, 1, 0),
    };
    let tile_width = geometry.tile_width;
    let tile_height = geometry.tile_height;
    let (pic_x, pic_y) = tiles.position_of(x, y);
    proof {
        crate::tiles::lemma_index_in_grid(tiles.cols as int, tiles.rows as int, x as int, y as int);
        let id = tiles@.cells[tiles@.index(x as int, y as int)] as int;
        crate::tiles::lemma_cell_in_grid(id, tiles.cols as int, tiles.rows as int);
        lemma_offset_in_canvas(pic_x as int, tile_width as int, tiles.cols as int, geometry.width as int);
        lemma_offset_in_canvas(pic_y as int, tile_height as int, tiles.rows as int, geometry.height as int);
        lemma_offset_in_canvas(x as int, tile_width as int, tiles.cols as int, geometry.width as int);
        lemma_offset_in_canvas(y as int, tile_height as int, tiles.rows as int, geometry.height as int);
    }
    let (origin_x, origin_y) = pixel_position(pic_x, pic_y, tile_width, tile_height, tiles.cols, tiles.rows);
    let (x, y) = pixel_position_i32(x, y, tile_width, tile_height, tiles.cols, tiles.rows);
    let amount = match m {
        Move::Up | Move::Down => tile_height,
        Move::Left | Move::Right => tile_width,
    };
    let ghost g = *geometry;
    let mut frames: Vec<SlideFrame> = Vec::new();
    let mut d_x: i32 = 0;
    let mut d_y: i32 = 0;
    let mut step: u32 = 1;
    while step <= amount
        invariant
            amount == slide_extent(g, m),
            amount <= 320,
            tile_width == g.tile_width,
            tile_height == g.tile_height,
            0 <= x <= 321,
            0 <= y <= 321,
            step as int == 2 * frames@.len() + 1,
            step <= amount + 2,
            delta_x == 0 ==> d_x == 0,
            delta_x == 1 ==> d_x == 2 * frames@.len(),
            delta_x == -1 ==> d_x == -2 * frames@.len(),
            delta_y == 0 ==> d_y == 0,
            delta_y == 1 ==> d_y == 2 * frames@.len(),
            delta_y == -1 ==> d_y == -2 * frames@.len(),
            -1 <= delta_x <= 1,
            -1 <= delta_y <= 1,
            m == Move::Up ==> delta_x == 0 && delta_y == -1,
            m == Move::Down ==> delta_x == 0 && delta_y == 1,
            m == Move::Left ==> delta_x == -1 && delta_y == 0,
            m == Move::Right ==> delta_x == 1 && delta_y == 0,
            forall|k: int|
                0 <= k < frames@.len() ==> #[trigger] frames@[k] == slide_frame(x as int, y as int, g, m, k + 1),
        decreases amount + 2 - step,
    {
        d_x = d_x + delta_x + delta_x;
        d_y = d_y + delta_y + delta_y;
        let (erase_near, erase_far) = match m {
            Move::Up => (
                Stroke::Horizontal { x, y: y + d_y + tile_height as i32, length: tile_width },
                Stroke::Horizontal { x, y: y + d_y + tile_height as i32 + 1, length: tile_width },
            ),
            Move::Down => (
                Stroke::Horizontal { x, y: y + d_y - 1, length: tile_width },
                Stroke::Horizontal { x, y: y + d_y - 2, length: tile_width },
            ),
            Move::Left => (
                Stroke::Vertical { x: x + d_x + tile_width as i32, y, length: tile_height },
                Stroke::Vertical { x: x + d_x + tile_width as i32 + 1, y, length: tile_height },
            ),
            Move::Right => (
                Stroke::Vertical { x: x + d_x - 1, y, length: tile_height },
                Stroke::Vertical { x: x + d_x - 2, y, length: tile_height },
            ),
        };
        let frame = SlideFrame { x: x + d_x, y: y + d_y, erase_near, erase_far };
        proof {
            assert(frame == slide_frame(x as int, y as int, g, m, frames@.len() as int + 1));
        }
        frames.push(frame);
        step = step + 2;
    }
    SlidePlan { origin_x, origin_y, width: tile_width, height: tile_height, frames }
}

/// Drawing `k` at the start of a level: tile `k` at its current cell,
/// showing the picture's rectangle of its goal cell; tile 0, the empty slot,
/// is a blank the size of the puzzle.
pub open spec fn entry_draw(b: Board, g: PuzzleGeometry, k: int) -> TileDraw {
    let (i, j) = b.location(k);
    let x = pixel_offset(i, g.tile_width as int, b.cols as u8) as i32;
    let y = pixel_offset(j, g.tile_height as int, b.rows as u8) as i32;
    if k == 0 {
        TileDraw::Blank { x, y, width: g.width, height: g.height }
    } else {
        TileDraw::Tile {
            origin_x: pixel_offset(k % b.cols as int, g.tile_width as int, b.cols as u8) as u32,
            origin_y: pixel_offset(k / b.cols as int, g.tile_height as int, b.rows as u8) as u32,
            width: g.tile_width,
            height: g.tile_height,
            x,
            y,
        }
    }
}

/// The drawings that bring the whole puzzle on screen at the start of a
/// level, one for each tile in the order of their identifiers.
pub fn entry_plan(tiles: &Tiles, geometry: &PuzzleGeometry) -> (plan: Vec<TileDraw>)
    requires
        tiles.wf(),
        geometry.fits(tiles.cols as int, tiles.rows as int),
    ensures
        plan@.len() == tiles@.len(),
        forall|k: int| 0 <= k < plan@.len() ==> #[trigger] plan@[k] == entry_draw(tiles@, *geometry, k),
{
    let cols = tiles.cols as u16;
    proof {
        crate::tiles::lemma_grid_size(tiles.cols as int, tiles.rows as int);
    }
    let n: u16 = cols * tiles.rows as u16;
    let tile_width = geometry.tile_width;
    let tile_height = geometry.tile_height;
    let mut plan: Vec<TileDraw> = Vec::new();
    let mut k: u16 = 0;
    while k < n
        invariant
            tiles.wf(),
            geometry.fits(tiles.cols as int, tiles.rows as int),
            cols == tiles.cols,
            n as int == tiles@.len(),
            tile_width == geometry.tile_width,
            tile_height == geometry.tile_height,
            k <= n,
            plan@.len() == k,
            forall|i: int| 0 <= i < k ==> #[trigger] plan@[i] == entry_draw(tiles@, *geometry, i),
        decreases n - k,
    {
        let (i, j) = tiles.where_is(k);
        proof {
            lemma_offset_in_canvas(i as int, tile_width as int, tiles.cols as int, geometry.width as int);
            lemma_offset_in_canvas(j as int, tile_height as int, tiles.rows as int, geometry.height as int);
            crate::tiles::lemma_cell_in_grid(k as int, tiles.cols as int, tiles.rows as int);
        }
        let (x, y) = pixel_position_i32(i, j, tile_width, tile_height, tiles.cols, tiles.rows);
        let draw = if k == 0 {
            TileDraw::Blank { x, y, width: geometry.width, height: geometry.height }
        } else {
            let tile_n = (k % cols) as u8;
            let tile_m = (k / cols) as u8;
            proof {
                lemma_offset_in_canvas(tile_n as int, tile_width as int, tiles.cols as int, geometry.width as int);
                lemma_offset_in_canvas(tile_m as int, tile_height as int, tiles.rows as int, geometry.height as int);
            }
            let (origin_x, origin_y) = pixel_position(tile_n, tile_m, tile_width, tile_height, tiles.cols, tiles.rows);
            TileDraw::Tile { origin_x, origin_y, width: tile_width, height: tile_height, x, y }
        };
        plan.push(draw);
        k += 1;
    }
    plan
}

} // verus!
