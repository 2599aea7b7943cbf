//! Note timing for a buzzer melody: a tempo fixes the length of a whole
//! note, and each note's duration is derived from a divider, where a
//! negative divider marks a dotted note (half again as long).

use vstd::prelude::*;

verus! {

/// What a note lasts, in milliseconds: a positive divider divides the
/// whole note; a negative one divides by its magnitude and then adds half
/// (a dotted note).
pub open spec fn note_duration_spec(whole_note: int, divider: int) -> int
    recommends
        whole_note >= 0,
        divider != 0,
{
    if divider > 0 {
        whole_note / divider
    } else {
        let plain = whole_note / (-divider);
        plain + plain / 2
    }
}

/// Timing of one melody: the length of a whole note in milliseconds,
/// fixed by the tempo in beats per minute.
pub struct Song {
    whole_note: u32,
}

impl Song {
    /// The stored whole-note length in milliseconds.
    pub closed spec fn whole(self) -> int {
        self.whole_note as int
    }

    /// A whole note never exceeds the length fixed by the slowest tempo.
    pub closed spec fn wf(self) -> bool {
        self.whole_note <= 240_000
    }

    /// Fix the whole-note length from a tempo: four beats of
    /// `60000 / tempo` milliseconds each.
    pub fn new(tempo: u16) -> (song: Song)
        requires
            tempo >= 1,
        ensures
            song.whole() == 240_000int / tempo as int,
            song.wf(),
    {
        let whole_note = (60_000 * 4) / tempo as u32;
        Self { whole_note }
    }

    /// The duration of one note in milliseconds, from its divider.
    pub fn calc_note_duration(&self, divider: i16) -> (duration: u32)
        requires
            divider != 0,
            self.wf(),
        ensures
            duration == note_duration_spec(self.whole(), divider as int),
    {
        if divider > 0 {
            self.whole_note / divider as u32
        } else {
            let magnitude = (-(divider as i32)) as u32;
            let duration = self.whole_note / magnitude;
            duration + duration / 2
        }
    }
}

} // verus!
