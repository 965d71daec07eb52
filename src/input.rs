//! Keyboard scan codes and the commands they stand for.
use crate::tiles::Move;
use vstd::prelude::*;

verus! {

/// Scan code of the Escape key, which leaves the game.
pub const KEY_ESCAPE: u8 = 0x01;

/// The slide that a scan code asks for: the arrow keys and W, A, S, D.
pub open spec fn key_move(key: u8) -> Option<Move> {
    if key == 0x4b || key == 0x1e {
        Some(Move::Left)
    } else if key == 0x4d || key == 0x20 {
        Some(Move::Right)
    } else if key == 0x48 || key == 0x11 {
        Some(Move::Up)
    } else if key == 0x50 || key == 0x1f {
        Some(Move::Down)
    } else {
        None
    }
}

/// The slide that a scan code asks for, if any.
pub fn key_to_move(key: u8) -> (r: Option<Move>)
    ensures
        r == key_move(key),
{
    match key {
        0x4b | 0x1e => Some(Move::Left),
        0x4d | 0x20 => Some(Move::Right),
        0x48 | 0x11 => Some(Move::Up),
        0x50 | 0x1f => Some(Move::Down),
        _ => None,
    }
}

/// Whether a scan code asks to leave the game.
pub fn is_exit_key(key: u8) -> (r: bool)
    ensures
        r == (key == KEY_ESCAPE),
{
    key == KEY_ESCAPE
}

} // verus!
