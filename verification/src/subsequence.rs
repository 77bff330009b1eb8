//! A windowed view of the live registry: the active tones together with the
//! dynamic range `[lower, upper]` kept around them, and the chord and scale
//! state derived on demand. Where `Sequence` rebuilds everything on every
//! event, a `Subsequence` recomputes its window on every note and leaves the
//! harmony recomputation to an explicit `calculate_harmonies` call.

use vstd::prelude::*;
use crate::bounds::{bounds_contain, compute_bounds, spec_bounds, spec_highest, spec_lowest, Bounds};
use crate::harmony::{
    chords_model, derive_chords, derive_scales, spec_chord_list, Chord, Scale,
};
use crate::pitch::{Tone, MAX_INDEX};
use crate::registry::{contains_index, index_map, note_on, note_on_map, tones_wf};

verus! {

/// The windowed registry: active tones, the window derived from their
/// extremes, and the chords and scales last derived from them.
pub struct Subsequence {
    pub tones: Vec<Tone>,
    pub chords: Vec<Chord>,
    pub scales: Vec<Scale>,
    pub upper: u8,
    pub lower: u8,
}

impl Subsequence {
    /// The registry this state holds.
    pub open spec fn spec_tones(&self) -> Seq<Tone> {
        self.tones@
    }

    /// The stored window.
    pub open spec fn spec_window(&self) -> Bounds {
        Bounds { lower: self.lower, upper: self.upper }
    }

    /// Well-formedness: a valid sorted registry whose stored window is the
    /// one its extremes derive. Constructors establish it; every mutation
    /// recomputes the window before returning.
    pub open spec fn wf(&self) -> bool {
        tones_wf(self.tones@) && self.spec_window() == spec_bounds(self.tones@)
    }

    /// A fresh, silent state with the window open to the full valid range.
    pub fn new() -> (s: Subsequence)
        ensures
            s.wf(),
            s.spec_tones() == Seq::<Tone>::empty(),
            s.chords@.len() == 0,
            s.scales@.len() == 0,
    {
        let s = Subsequence {
            tones: Vec::new(),
            chords: Vec::new(),
            scales: Vec::new(),
            upper: MAX_INDEX,
            lower: 0,
        };
        proof {
            assert(s.tones@ =~= Seq::<Tone>::empty());
        }
        s
    }

    /// The highest active index, or `MAX_INDEX` when nothing is sounding.
    pub fn upper_bound(&self) -> (r: u8)
        requires
            self.wf(),
        ensures
            r as int == spec_highest(self.spec_tones()),
    {
        if self.tones.len() == 0 {
            MAX_INDEX
        } else {
            let t = self.tones[self.tones.len() - 1];
            assert(t.wf());
            t.index
        }
    }

    /// The lowest active index, or 0 when nothing is sounding.
    pub fn lower_bound(&self) -> (r: u8)
        requires
            self.wf(),
        ensures
            r as int == spec_lowest(self.spec_tones()),
    {
        if self.tones.len() == 0 {
            0
        } else {
            self.tones[0].index
        }
    }

    /// Recomputes the stored window from the current extremes: the margin is
    /// added on either side and the result clamped to the valid range, with
    /// the full range standing in when nothing is sounding.
    pub fn calculate_bounds(&mut self)
        requires
            tones_wf(old(self).tones@),
        ensures
            final(self).wf(),
            final(self).tones@ == old(self).tones@,
            final(self).chords@ == old(self).chords@,
            final(self).scales@ == old(self).scales@,
    {
        let b = compute_bounds(&self.tones);
        self.lower = b.lower;
        self.upper = b.upper;
    }

    /// Inclusive test of a pitch index against the stored window.
    pub fn within_bounds(&self, index: u8) -> (r: bool)
        requires
            self.wf(),
        ensures
            r == (spec_bounds(self.spec_tones()).lower <= index && index <= spec_bounds(
                self.spec_tones(),
            ).upper),
    {
        bounds_contain(Bounds { lower: self.lower, upper: self.upper }, index)
    }

    /// The gap between the highest and lowest active index, a diagnostic for
    /// how wide the current voicing spreads; the full range when nothing is
    /// sounding.
    pub fn limits(&self) -> (r: u8)
        requires
            self.wf(),
        ensures
            r as int == spec_highest(self.spec_tones()) - spec_lowest(self.spec_tones()),
    {
        proof {
            if self.tones@.len() > 0 && self.tones@.len() > 1 {
                assert(self.tones@[0].index < self.tones@[self.tones@.len() - 1].index);
            }
        }
        let high = self.upper_bound();
        let low = self.lower_bound();
        high - low
    }

    /// Registers a note-on and recomputes the window. A re-strike at an
    /// active index replaces the stored tone only when strictly louder; a
    /// weaker or equal re-strike changes nothing.
    pub fn play_note(&mut self, index: u8, velocity: u8)
        requires
            old(self).wf(),
            index <= MAX_INDEX,
            velocity >= 1,
        ensures
            final(self).wf(),
            index_map(final(self).tones@) == note_on_map(
                index_map(old(self).tones@),
                index as int,
                velocity as int,
            ),
            contains_index(old(self).tones@, index as int)
                && index_map(old(self).tones@)[index as int] >= velocity ==> final(self).tones@
                == old(self).tones@ && final(self).spec_window() == old(self).spec_window(),
            final(self).chords@ == old(self).chords@,
            final(self).scales@ == old(self).scales@,
    {
        note_on(&mut self.tones, index, velocity);
        self.calculate_bounds();
    }

    /// Recomputes the chord list from the registry.
    fn construct_chords(&mut self)
        requires
            tones_wf(old(self).tones@),
        ensures
            final(self).tones@ == old(self).tones@,
            final(self).scales@ == old(self).scales@,
            final(self).spec_window() == old(self).spec_window(),
            chords_model(final(self).chords@) == spec_chord_list(final(self).tones@),
    {
        self.chords = derive_chords(&self.tones);
    }

    /// Recomputes the scale candidates; scale search is an unimplemented
    /// extension point, so the list is always left empty.
    fn find_scales(&mut self)
        ensures
            final(self).tones@ == old(self).tones@,
            final(self).chords@ == old(self).chords@,
            final(self).spec_window() == old(self).spec_window(),
            final(self).scales@.len() == 0,
    {
        self.scales = derive_scales(&self.tones);
    }

    /// Rebuilds every derived harmonic structure from the current registry:
    /// one chord per active tone treated as root, and the (empty) scale
    /// candidates.
    pub fn calculate_harmonies(&mut self)
        requires
            old(self).wf(),
        ensures
            final(self).wf(),
            final(self).tones@ == old(self).tones@,
            final(self).spec_window() == old(self).spec_window(),
            chords_model(final(self).chords@) == spec_chord_list(final(self).tones@),
            final(self).scales@.len() == 0,
    {
        self.construct_chords();
        self.find_scales();
    }
}

} // verus!
