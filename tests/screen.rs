use tilers::animation::{entry_plan, slide_plan, Stroke, TileDraw, BLANK_COLOR};
use tilers::geometry::{level_grid, pixel_position, pixel_position_i32, puzzle_geometry, PuzzleGeometry};
use tilers::input::{is_exit_key, key_to_move, KEY_ESCAPE};
use tilers::palette::{build_palette, fade_palette, FADE_STEPS, PALETTE_BYTES};
use tilers::tiles::{Move, Tiles};

#[test]
fn level_layouts() {
    assert_eq!(level_grid(0), (3, 2));
    assert_eq!(level_grid(1), (4, 3));
    assert_eq!(level_grid(2), (5, 4));
    assert_eq!(level_grid(8), (5, 4));
    assert_eq!(level_grid(9), (8, 5));
    assert_eq!(level_grid(255), (8, 5));
    for level in 0..=255u8 {
        let (cols, rows) = level_grid(level);
        assert!((1..=16).contains(&cols) && (1..=16).contains(&rows));
    }
}

#[test]
fn geometry_of_each_layout() {
    assert_eq!(
        puzzle_geometry(3, 2),
        PuzzleGeometry { width: 320, height: 200, tile_width: 106, tile_height: 100 }
    );
    assert_eq!(
        puzzle_geometry(4, 3),
        PuzzleGeometry { width: 320, height: 198, tile_width: 80, tile_height: 66 }
    );
    assert_eq!(
        puzzle_geometry(5, 4),
        PuzzleGeometry { width: 320, height: 200, tile_width: 64, tile_height: 50 }
    );
    assert_eq!(
        puzzle_geometry(8, 5),
        PuzzleGeometry { width: 320, height: 200, tile_width: 40, tile_height: 40 }
    );
}

#[test]
fn pixel_positions_centre_three_wide_and_three_high_grids() {
    assert_eq!(pixel_position(2, 1, 106, 100, 3, 2), (213, 100));
    assert_eq!(pixel_position(1, 2, 80, 66, 4, 3), (80, 133));
    assert_eq!(pixel_position(0, 0, 80, 66, 4, 3), (0, 1));
    assert_eq!(pixel_position(4, 3, 64, 50, 5, 4), (256, 150));
    assert_eq!(pixel_position_i32(2, 1, 106, 100, 3, 2), (213, 100));
    assert_eq!(pixel_position_i32(3, 2, 80, 66, 4, 3), (240, 133));
}

#[test]
fn keys_map_to_moves() {
    assert_eq!(key_to_move(0x4b), Some(Move::Left));
    assert_eq!(key_to_move(0x1e), Some(Move::Left));
    assert_eq!(key_to_move(0x4d), Some(Move::Right));
    assert_eq!(key_to_move(0x20), Some(Move::Right));
    assert_eq!(key_to_move(0x48), Some(Move::Up));
    assert_eq!(key_to_move(0x11), Some(Move::Up));
    assert_eq!(key_to_move(0x50), Some(Move::Down));
    assert_eq!(key_to_move(0x1f), Some(Move::Down));
    assert_eq!(key_to_move(0x01), None);
    assert_eq!(key_to_move(0x00), None);
    assert!(is_exit_key(KEY_ESCAPE));
    assert!(!is_exit_key(0x4b));
}

#[test]
fn slide_left_plan() {
    let t = Tiles::new(3, 2);
    let g = puzzle_geometry(3, 2);
    let plan = slide_plan(&t, &g, Move::Left);
    // tile 1 at (1, 0) slides left; its picture is that of cell (1, 0)
    assert_eq!((plan.origin_x, plan.origin_y, plan.width, plan.height), (107, 0, 106, 100));
    assert_eq!(plan.frames.len(), 53);
    let first = plan.frames[0];
    assert_eq!((first.x, first.y), (105, 0));
    assert_eq!(first.erase_near, Stroke::Vertical { x: 211, y: 0, length: 100 });
    assert_eq!(first.erase_far, Stroke::Vertical { x: 212, y: 0, length: 100 });
    let last = plan.frames[52];
    assert_eq!((last.x, last.y), (1, 0));
}

#[test]
fn slide_up_plan_with_odd_extent() {
    let mut t = Tiles::new(4, 3);
    let g = puzzle_geometry(4, 3);
    let plan = slide_plan(&t, &g, Move::Up);
    // tile 4 at (0, 1) slides up; height 66 takes 33 frames
    assert_eq!((plan.origin_x, plan.origin_y), (0, 67));
    assert_eq!(plan.frames.len(), 33);
    assert_eq!((plan.frames[0].x, plan.frames[0].y), (0, 65));
    assert_eq!(plan.frames[0].erase_near, Stroke::Horizontal { x: 0, y: 131, length: 80 });
    assert_eq!(plan.frames[0].erase_far, Stroke::Horizontal { x: 0, y: 132, length: 80 });
    assert_eq!((plan.frames[32].x, plan.frames[32].y), (0, 1));
    // a tile of odd height: 5 pixels take 3 frames of two pixels
    let small = PuzzleGeometry { width: 20, height: 15, tile_width: 5, tile_height: 5 };
    assert_eq!(slide_plan(&t, &small, Move::Up).frames.len(), 3);
    t.do_move(Move::Up);
    let plan = slide_plan(&t, &g, Move::Down);
    assert_eq!((plan.origin_x, plan.origin_y), (0, 67));
    assert_eq!((plan.frames[0].x, plan.frames[0].y), (0, 3));
    assert_eq!(plan.frames[0].erase_near, Stroke::Horizontal { x: 0, y: 2, length: 80 });
    assert_eq!(plan.frames[0].erase_far, Stroke::Horizontal { x: 0, y: 1, length: 80 });
}

#[test]
fn slide_right_plan() {
    let mut t = Tiles::new(5, 4);
    t.do_move(Move::Left);
    let g = puzzle_geometry(5, 4);
    let plan = slide_plan(&t, &g, Move::Right);
    // tile 1, now at (0, 0), slides right back to (1, 0)
    assert_eq!((plan.origin_x, plan.origin_y), (64, 0));
    assert_eq!(plan.frames.len(), 32);
    assert_eq!((plan.frames[0].x, plan.frames[0].y), (2, 0));
    assert_eq!(plan.frames[0].erase_near, Stroke::Vertical { x: 1, y: 0, length: 50 });
    assert_eq!(plan.frames[0].erase_far, Stroke::Vertical { x: 0, y: 0, length: 50 });
    assert_eq!((plan.frames[31].x, plan.frames[31].y), (64, 0));
}

#[test]
fn entry_plan_draws_each_tile_at_its_cell() {
    let mut t = Tiles::new(3, 2);
    t.do_move(Move::Left);
    let g = puzzle_geometry(3, 2);
    let plan = entry_plan(&t, &g);
    assert_eq!(plan.len(), 6);
    assert_eq!(plan[0], TileDraw::Blank { x: 107, y: 0, width: 320, height: 200 });
    assert_eq!(
        plan[1],
        TileDraw::Tile { origin_x: 107, origin_y: 0, width: 106, height: 100, x: 1, y: 0 }
    );
    assert_eq!(
        plan[5],
        TileDraw::Tile { origin_x: 213, origin_y: 100, width: 106, height: 100, x: 213, y: 100 }
    );
    assert_eq!(BLANK_COLOR, 255);
}

#[test]
fn palette_reserves_white_and_black() {
    let mut colors = Vec::new();
    for i in 0..256u32 {
        colors.extend_from_slice(&[i as u8, 255 - i as u8, 7, 255]);
    }
    let p = build_palette(&colors);
    assert_eq!(p.len(), PALETTE_BYTES);
    assert_eq!(&p[0..3], &[0, 63, 1]);
    assert_eq!(&p[3 * 100..3 * 100 + 3], &[25, 38, 1]);
    assert_eq!(&p[3 * 253..3 * 253 + 3], &[63, 0, 1]);
    assert_eq!(&p[3 * 254..3 * 254 + 3], &[63, 63, 63]);
    assert_eq!(&p[3 * 255..3 * 255 + 3], &[0, 0, 0]);
}

#[test]
fn fade_darkens_leading_entries_to_black() {
    let mut p = vec![63u8; PALETTE_BYTES];
    p[0] = 0;
    p[1] = 1;
    fade_palette(&mut p);
    assert_eq!(&p[0..3], &[0, 0, 62]);
    assert_eq!(p[3 * 248 - 1], 62);
    assert_eq!(p[3 * 248], 63);
    for _ in 1..FADE_STEPS {
        fade_palette(&mut p);
    }
    assert!(p[..3 * 248].iter().all(|&c| c == 0));
    assert!(p[3 * 248..].iter().all(|&c| c == 63));
}
