//! The display palette: taken from a picture's colours with two reserved
//! entries, and darkened step by step between levels.
use vstd::prelude::*;

verus! {

/// Entries of the display palette.
pub const PALETTE_COLORS: usize = 256;

/// Bytes of the display palette: red, green and blue of each entry.
pub const PALETTE_BYTES: usize = 768;

/// Bytes of a picture's palette: red, green, blue and alpha of each entry.
pub const PICTURE_PALETTE_BYTES: usize = 1024;

/// Entry reserved for pure white.
pub const WHITE_INDEX: u8 = 254;

/// Entry reserved for pure black, the blank colour.
pub const BLACK_INDEX: u8 = 255;

/// Brightest value of a 6-bit channel.
pub const CHANNEL_MAX: u8 = 63;

/// Steps of a fade to black.
pub const FADE_STEPS: u32 = 64;

/// Leading entries that a fade darkens; the others keep their colour.
pub const FADED_COLORS: usize = 248;

/// Byte `i` of the display palette made from the picture palette `colors`:
/// each 8-bit channel of the picture becomes a 6-bit one, but for entry 254,
/// white, and entry 255, black.
pub open spec fn palette_byte(colors: Seq<u8>, i: int) -> u8 {
    let entry = i / 3;
    if entry == BLACK_INDEX as int {
        0
    } else if entry == WHITE_INDEX as int {
        CHANNEL_MAX
    } else {
        (colors[4 * entry + i % 3] / 4) as u8
    }
}

/// The display palette for a picture whose palette is `colors`.
pub fn build_palette(colors: &Vec<u8>) -> (p: Vec<u8>)
    requires
        colors@.len() == PICTURE_PALETTE_BYTES,
    ensures
        p@.len() == PALETTE_BYTES,
        forall|i: int| 0 <= i < PALETTE_BYTES ==> #[trigger] p@[i] == palette_byte(colors@, i),
{
    let mut p: Vec<u8> = Vec::new();
    let mut i: usize = 0;
    while i < PALETTE_BYTES
        invariant
            colors@.len() == PICTURE_PALETTE_BYTES,
            i <= PALETTE_BYTES,
            p@.len() == i,
            forall|j: int| 0 <= j < i ==> #[trigger] p@[j] == palette_byte(colors@, j),
        decreases PALETTE_BYTES - i,
    {
        let entry = i / 3;
        let value = if entry == BLACK_INDEX as usize {
            0
        } else if entry == WHITE_INDEX as usize {
            CHANNEL_MAX
        } else {
            colors[4 * entry + i % 3] / 4
        };
        p.push(value);
        i += 1;
    }
    p
}

/// Byte `i` of a palette after one fade step.
pub open spec fn faded_byte(p: Seq<u8>, i: int) -> u8 {
    if i < 3 * FADED_COLORS && p[i] > 0 {
        (p[i] - 1) as u8
    } else {
        p[i]
    }
}

/// One step of a fade to black: every channel of the leading
/// `FADED_COLORS` entries loses one unit, down to zero.
pub fn fade_palette(p: &mut Vec<u8>)
    requires
        old(p)@.len() == PALETTE_BYTES,
    ensures
        final(p)@.len() == PALETTE_BYTES,
        forall|i: int| 0 <= i < PALETTE_BYTES ==> #[trigger] final(p)@[i] == faded_byte(old(p)@, i),
{
    let ghost before = p@;
    let mut i: usize = 0;
    while i < 3 * FADED_COLORS
        invariant
            i <= 3 * FADED_COLORS,
            p@.len() == PALETTE_BYTES,
            before.len() == PALETTE_BYTES,
            forall|j: int| 0 <= j < i ==> #[trigger] p@[j] == faded_byte(before, j),
            forall|j: int| i <= j < PALETTE_BYTES ==> #[trigger] p@[j] == before[j],
        decreases 3 * FADED_COLORS - i,
    {
        p[i] = p[i].saturating_sub(1);
        i += 1;
    }
}

} // verus!
