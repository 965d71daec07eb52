//! The notes that the PC speaker plays: a short tune and a click.
use vstd::prelude::*;

verus! {

/// Input frequency of the programmable interval timer, in Hz.
pub const PIT_FREQUENCY: u32 = 0x1234DD;

/// Countdown that keeps the speaker silent between notes.
pub const NOTE_VOID: u16 = 3;

/// Countdown of the click, played so briefly that it is heard as one.
pub const CLICK_COUNTDOWN: u16 = 1500;

/// Length of the click, in milliseconds.
pub const CLICK_MS: u32 = 4;

/// Pause after the tune with the speaker off, in milliseconds.
pub const TUNE_TAIL_MS: u32 = 140;

/// A tone held for a while: the timer's countdown and the length in
/// milliseconds.
#[derive(Debug, Clone, Copy, PartialEq, Eq, Structural)]
pub struct Note {
    pub countdown: u16,
    pub duration_ms: u32,
}

/// The timer countdown that sounds a tone of `freq` Hz.
pub open spec fn countdown_of(freq: u32) -> int {
    PIT_FREQUENCY as int / freq as int
}

/// The timer countdown for a tone of `freq` Hz.
pub fn note_countdown(freq: u32) -> (r: u16)
    requires
        freq > 0,
        countdown_of(freq) <= u16::MAX,
    ensures
        r as int == countdown_of(freq),
{
    (PIT_FREQUENCY / freq) as u16
}

/// The frequencies, in Hz, of the notes of the tune.
pub const NOTE_A5: u32 = 880;
pub const NOTE_CS6: u32 = 1109;
pub const NOTE_D6: u32 = 1175;
pub const NOTE_E6: u32 = 1328;
pub const NOTE_GS6: u32 = 1661;
pub const NOTE_A6: u32 = 1760;
pub const NOTE_B6: u32 = 1975;

/// A note of the tune: a frequency, or silence where it is 0.
pub open spec fn tune_note(freq: u32, duration_ms: u32) -> Note {
    Note {
        countdown: if freq == 0 {
            NOTE_VOID
        } else {
            countdown_of(freq) as u16
        },
        duration_ms,
    }
}

/// The opening of the Minuetto of Boccherini's String Quintet in E major,
/// Op. 11 No. 5.
pub open spec fn tune_spec() -> Seq<Note> {
    seq![
        tune_note(NOTE_A6, 75), tune_note(NOTE_B6, 75), tune_note(NOTE_A6, 140),
        tune_note(NOTE_GS6, 140), tune_note(NOTE_A6, 140), tune_note(NOTE_B6, 140),
        tune_note(NOTE_A6, 140), tune_note(0, 140), tune_note(NOTE_A5, 280),
        tune_note(0, 280), tune_note(NOTE_CS6, 280), tune_note(0, 280),
        tune_note(NOTE_E6, 140), tune_note(0, 140), tune_note(NOTE_E6, 280),
        tune_note(NOTE_D6, 140), tune_note(0, 140), tune_note(NOTE_D6, 280),
    ]
}

fn note(freq: u32, duration_ms: u32) -> (r: Note)
    requires
        freq == 0 || (freq >= 880 && freq <= 1975),
    ensures
        r == tune_note(freq, duration_ms),
{
    let countdown = if freq == 0 {
        NOTE_VOID
    } else {
        proof {
            vstd::arithmetic::div_mod::lemma_div_is_ordered_by_denominator(PIT_FREQUENCY as int, 880, freq as int);
            assert(PIT_FREQUENCY as int / 880 <= 1356);
        }
        note_countdown(freq)
    };
    Note { countdown, duration_ms }
}

/// The notes of the tune, in order; the speaker is switched off for
/// `TUNE_TAIL_MS` after the last.
pub fn tune() -> (r: Vec<Note>)
    ensures
        r@ == tune_spec(),
{
    let r = vec![
        note(NOTE_A6, 75), note(NOTE_B6, 75), note(NOTE_A6, 140),
        note(NOTE_GS6, 140), note(NOTE_A6, 140), note(NOTE_B6, 140),
        note(NOTE_A6, 140), note(0, 140), note(NOTE_A5, 280),
        note(0, 280), note(NOTE_CS6, 280), note(0, 280),
        note(NOTE_E6, 140), note(0, 140), note(NOTE_E6, 280),
        note(NOTE_D6, 140), note(0, 140), note(NOTE_D6, 280),
    ];
    assert(r@ =~= tune_spec());
    r
}

/// The click played after each move.
pub fn click() -> (r: Note)
    ensures
        r == (Note { countdown: CLICK_COUNTDOWN, duration_ms: CLICK_MS }),
{
    Note { countdown: CLICK_COUNTDOWN, duration_ms: CLICK_MS }
}

/// The two bytes, low then high, in which the timer takes a countdown.
pub fn countdown_bytes(countdown: u16) -> (r: (u8, u8))
    ensures
        r.0 as int == countdown as int % 256,
        r.1 as int == countdown as int / 256,
{
    ((countdown % 256) as u8, (countdown / 256) as u8)
}

} // verus!
