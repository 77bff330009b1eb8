//! Pure value types of the pitch model: pitch indices, named notes, active
//! tones, and the signed interval between two pitches.

use vstd::prelude::*;

verus! {

/// Largest valid pitch index; the engine addresses 144 playable positions.
pub const MAX_INDEX: u8 = 143;

/// Number of pitch classes in an octave.
pub const PITCH_CLASS_COUNT: u8 = 12;

/// A named note: its pitch class (position within the octave) and its octave.
#[derive(Clone, Copy, Debug, PartialEq, Eq, Structural)]
pub struct Note {
    pub class: u8,
    pub octave: u8,
}

/// The note named by a pitch index: class is the position within the octave,
/// octave is the octave number.
pub open spec fn spec_note_of(index: int) -> Note {
    Note { class: (index % 12) as u8, octave: (index / 12) as u8 }
}

/// Maps a valid pitch index to its named note.
pub fn note_of(index: u8) -> (n: Note)
    requires
        index <= MAX_INDEX,
    ensures
        n == spec_note_of(index as int),
        n.class < PITCH_CLASS_COUNT,
{
    Note { class: index % PITCH_CLASS_COUNT, octave: index / PITCH_CLASS_COUNT }
}

/// An active sounding pitch: its index and the velocity it was struck with.
/// A velocity of zero never names an active tone; zero is the note-off signal.
#[derive(Clone, Copy, Debug, PartialEq, Eq, Structural)]
pub struct Tone {
    pub index: u8,
    pub velocity: u8,
}

impl Tone {
    /// A tone is valid when its index lies in the playable range and it was
    /// struck with a nonzero velocity.
    pub open spec fn wf(self) -> bool {
        self.index <= MAX_INDEX && self.velocity >= 1
    }

    pub fn from_index(index: u8, velocity: u8) -> (t: Tone)
        requires
            index <= MAX_INDEX,
            velocity >= 1,
        ensures
            t == (Tone { index, velocity }),
            t.wf(),
    {
        Tone { index, velocity }
    }

    pub fn to_index(&self) -> (i: u8)
        ensures
            i == self.index,
    {
        self.index
    }

    pub fn velocity(&self) -> (v: u8)
        ensures
            v == self.velocity,
    {
        self.velocity
    }

    /// The named note of this tone, derived from its index.
    pub fn note(&self) -> (n: Note)
        requires
            self.wf(),
        ensures
            n == spec_note_of(self.index as int),
    {
        note_of(self.index)
    }
}

/// The signed interval from `from` to `to`, as a count of pitch steps.
pub open spec fn spec_interval(from: int, to: int) -> int {
    to - from
}

/// Signed distance between two distinct valid pitch indices. The interval of
/// a pitch with itself is left undefined and must not be requested.
pub fn interval_between(from: u8, to: u8) -> (d: i16)
    requires
        from <= MAX_INDEX,
        to <= MAX_INDEX,
        from != to,
    ensures
        d == spec_interval(from as int, to as int),
        d != 0,
{
    (to as i16) - (from as i16)
}

} // verus!
