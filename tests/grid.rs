use tilers::tiles::{move_from_draw, Move, Tiles};
use tinyrand::{RandRange, Seeded, Xorshift};

const ALL_MOVES: [Move; 4] = [Move::Up, Move::Down, Move::Left, Move::Right];

fn inverse(m: Move) -> Move {
    match m {
        Move::Up => Move::Down,
        Move::Down => Move::Up,
        Move::Left => Move::Right,
        Move::Right => Move::Left,
    }
}

fn copy(t: &Tiles) -> Tiles {
    Tiles {
        tiles: t.tiles.clone(),
        rows: t.rows,
        cols: t.cols,
        empty_x: t.empty_x,
        empty_y: t.empty_y,
    }
}

fn solved(cols: u8, rows: u8) -> Vec<u8> {
    (0..cols as u16 * rows as u16).map(|i| i as u8).collect()
}

#[test]
fn new_grid_is_solved_with_empty_slot_at_origin() {
    let t = Tiles::new(3, 2);
    assert_eq!(t.tiles, vec![0, 1, 2, 3, 4, 5]);
    assert_eq!((t.cols, t.rows, t.empty_x, t.empty_y), (3, 2, 0, 0));
    assert!(t.is_won());
}

#[test]
fn largest_grid_holds_every_identifier() {
    let t = Tiles::new(16, 16);
    assert_eq!(t.tiles.len(), 256);
    assert_eq!(t.tiles[255], 255);
    assert!(t.is_won());
    assert_eq!(t.where_is(255), (15, 15));
}

#[test]
fn smallest_grid_allows_no_move() {
    let mut t = Tiles::new(1, 1);
    for m in ALL_MOVES {
        assert!(!t.is_valid_move(m));
        assert!(!t.do_move(m));
    }
    assert_eq!(t, Tiles::new(1, 1));
}

#[test]
fn scenario_left_then_up_on_three_by_two() {
    let mut t = Tiles::new(3, 2);
    assert!(t.is_valid_move(Move::Left));
    assert!(t.do_move(Move::Left));
    assert_eq!(t.tiles, vec![1, 0, 2, 3, 4, 5]);
    assert_eq!((t.empty_x, t.empty_y), (1, 0));
    assert!(t.is_valid_move(Move::Up));
    assert!(t.do_move(Move::Up));
    // the tile below the empty slot, at index 1 + cols, slides up into it
    assert_eq!(t.tiles, vec![1, 4, 2, 3, 0, 5]);
    assert_eq!((t.empty_x, t.empty_y), (1, 1));
    assert!(!t.is_valid_move(Move::Up));
}

#[test]
fn invalid_move_changes_nothing() {
    let mut t = Tiles::new(3, 2);
    for m in [Move::Down, Move::Right] {
        let before = copy(&t);
        assert!(!t.is_valid_move(m));
        assert!(!t.do_move(m));
        assert_eq!(t, before);
    }
    t.do_move(Move::Left);
    t.do_move(Move::Left);
    t.do_move(Move::Up);
    assert_eq!((t.empty_x, t.empty_y), (2, 1));
    for m in [Move::Up, Move::Left] {
        let before = copy(&t);
        assert!(!t.do_move(m));
        assert_eq!(t, before);
    }
}

#[test]
fn move_then_inverse_restores_every_position() {
    let cols = 4;
    let rows = 3;
    for ex in 0..cols {
        for ey in 0..rows {
            let mut t = Tiles::new(cols, rows);
            for _ in 0..ex {
                assert!(t.do_move(Move::Left));
            }
            for _ in 0..ey {
                assert!(t.do_move(Move::Up));
            }
            assert_eq!((t.empty_x, t.empty_y), (ex, ey));
            for m in ALL_MOVES {
                let before = copy(&t);
                if t.do_move(m) {
                    assert_ne!(t, before);
                    assert!(t.do_move(inverse(m)));
                }
                assert_eq!(t, before);
            }
        }
    }
}

#[test]
fn lookups_agree_on_shuffled_grids() {
    for seed in 1..6u64 {
        let mut rng = Xorshift::seed(seed);
        let t = Tiles::new_shuffled(5, 4, &mut rng, 200);
        for id in 0..20u16 {
            let (x, y) = t.where_is(id);
            assert_eq!(t.tiles[y as usize * 5 + x as usize] as u16, id);
            assert_eq!(t.position_of(x, y), ((id % 5) as u8, (id / 5) as u8));
        }
    }
}

#[test]
fn position_of_names_goal_coordinate() {
    let mut t = Tiles::new(4, 3);
    t.do_move(Move::Left);
    t.do_move(Move::Up);
    // tile 5 moved from (1, 1) to (1, 0)
    assert_eq!(t.tiles[1], 5);
    assert_eq!(t.position_of(1, 0), (1, 1));
    assert_eq!(t.where_is(5), (1, 0));
    assert_eq!(t.where_is(0), (1, 1));
}

#[test]
fn solved_four_by_three_is_won_and_any_swap_is_not() {
    let t = Tiles::new(4, 3);
    assert!(t.is_won());
    for i in 0..12 {
        for j in 0..12 {
            if i != j {
                let mut u = copy(&t);
                u.tiles.swap(i, j);
                assert!(!u.is_won());
            }
        }
    }
}

#[test]
fn draws_stand_for_the_four_directions() {
    assert_eq!(move_from_draw(0), Move::Up);
    assert_eq!(move_from_draw(1), Move::Down);
    assert_eq!(move_from_draw(2), Move::Left);
    assert_eq!(move_from_draw(3), Move::Right);
}

#[test]
fn shuffle_with_draws_skips_invalid_draws() {
    let mut t = Tiles::new(3, 2);
    // Down and Right are not valid from the top-left corner
    t.shuffle_with_draws(&vec![1, 3, 2, 0, 2]);
    assert_eq!((t.empty_x, t.empty_y), (2, 1));
    assert_eq!(t.tiles, vec![1, 4, 2, 3, 5, 0]);
    let mut u = Tiles::new(3, 2);
    u.do_move(Move::Left);
    u.do_move(Move::Up);
    u.do_move(Move::Left);
    assert_eq!(t, u);
}

fn replay_back(t: &mut Tiles, draws: &[u16], start: &Tiles) {
    let mut replay = copy(start);
    let mut applied = Vec::new();
    for &d in draws {
        let m = move_from_draw(d);
        if replay.do_move(m) {
            applied.push(m);
        }
    }
    assert_eq!(*t, replay);
    for m in applied.iter().rev() {
        assert!(t.do_move(inverse(*m)));
    }
}

#[test]
fn shuffled_grid_returns_to_solved_by_reverse_replay() {
    let draws: Vec<u16> = vec![2, 0, 2, 1, 3, 0, 0, 2, 3, 1, 2, 2, 0, 3];
    let mut t = Tiles::new(4, 3);
    t.shuffle_with_draws(&draws);
    assert!(!t.is_won());
    replay_back(&mut t, &draws, &Tiles::new(4, 3));
    assert!(t.is_won());
    assert_eq!(t.tiles, solved(4, 3));
}

#[test]
fn random_shuffle_is_reachable_and_reversible() {
    let mut rng = Xorshift::seed(42);
    let mut t = Tiles::new(5, 4);
    t.shuffle(&mut rng, 512);
    let mut same = Xorshift::seed(42);
    let draws: Vec<u16> = (0..512).map(|_| same.next_range(0..4u16)).collect();
    replay_back(&mut t, &draws, &Tiles::new(5, 4));
    assert!(t.is_won());
    assert_eq!((t.empty_x, t.empty_y), (0, 0));
}

#[test]
fn shuffle_without_iterations_keeps_solved_grid() {
    let mut rng = Xorshift::seed(7);
    let t = Tiles::new_shuffled(4, 3, &mut rng, 0);
    assert!(t.is_won());
    assert_eq!(t, Tiles::new(4, 3));
}

#[test]
fn random_shuffle_keeps_an_arrangement() {
    let mut rng = Xorshift::seed(3);
    let t = Tiles::new_shuffled(8, 5, &mut rng, 512);
    let mut seen = t.tiles.clone();
    seen.sort();
    assert_eq!(seen, solved(8, 5));
    assert_eq!(t.tiles[t.empty_y as usize * 8 + t.empty_x as usize], 0);
}
