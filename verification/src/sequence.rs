//! The engine façade: one `Sequence` owns the tone registry and every
//! structure derived from it, takes each note-on / note-off event through a
//! single entry point, and keeps the derived state consistent with the
//! registry after every event.
//!
//! A caller that shares a `Sequence` between an event producer and snapshot
//! readers must make each `process_input` call and each whole snapshot read
//! mutually exclusive, so that no reader observes a partial update.
//!
//! Derivation never fails on a well-formed state: the registry invariant
//! (valid, duplicate-free, sorted tones) is proved preserved by every
//! mutation, so the conditions that would make a derivation pass unsound —
//! a duplicate index surviving into it, or an interval requested between a
//! note and itself — cannot arise.

use vstd::prelude::*;
use crate::bounds::{compute_bounds, spec_bounds, Bounds};
use crate::harmony::{
    chords_model, derive_chords, derive_pitch_groups, derive_scales, groups_model,
    lemma_derivation_order_independent, lemma_groups_upto_empty, scales_model, spec_chord_list,
    spec_pitch_groups, Chord, PitchGroup, Scale,
};
use crate::pitch::{Tone, MAX_INDEX, PITCH_CLASS_COUNT};
use crate::registry::{
    contains_index, index_map, lemma_index_map_char, lemma_tone_count_bounded, note_off, note_on,
    note_on_map, tones_wf,
};

verus! {

/// Rejection of a malformed event, reported before any state is touched.
#[derive(Clone, Copy, Debug, PartialEq, Eq, Structural)]
pub enum InputError {
    /// The event's pitch index lies outside the valid range.
    IndexOutOfRange,
}

/// The full live harmonic state: the active tones and the chord, scale,
/// pitch-group and window state derived from them.
#[derive(Clone, Debug)]
pub struct Sequence {
    pub tones: Vec<Tone>,
    pub chords: Vec<Chord>,
    pub scales: Vec<Scale>,
    pub pitchgroups: Vec<PitchGroup>,
    pub bounds: Bounds,
}

impl Sequence {
    /// The registry this state holds.
    pub open spec fn spec_tones(&self) -> Seq<Tone> {
        self.tones@
    }

    /// Everything a reader can observe of this state: the registry, the
    /// derived chords, scales and pitch groups, and the active window.
    pub open spec fn model(&self) -> (
        Seq<Tone>,
        Seq<(crate::pitch::Note, Seq<(crate::pitch::Note, i16)>)>,
        Seq<Seq<i16>>,
        Seq<(u8, Seq<u8>)>,
        Bounds,
    ) {
        (
            self.tones@,
            chords_model(self.chords@),
            scales_model(self.scales@),
            groups_model(self.pitchgroups@),
            self.bounds,
        )
    }

    /// The derived state is exactly what derivation produces from the
    /// current registry.
    pub open spec fn derived_current(&self) -> bool {
        &&& chords_model(self.chords@) == spec_chord_list(self.tones@)
        &&& self.scales@.len() == 0
        &&& groups_model(self.pitchgroups@) == spec_pitch_groups(self.tones@)
        &&& self.bounds == spec_bounds(self.tones@)
    }

    /// Well-formedness: a valid sorted registry with derived state in sync.
    /// Every constructor establishes this and every mutation preserves it.
    pub open spec fn wf(&self) -> bool {
        tones_wf(self.tones@) && self.derived_current()
    }

    /// A fresh, silent state: no tones, no derived structures, and the
    /// window open to the full valid range.
    pub fn new() -> (s: Sequence)
        ensures
            s.wf(),
            s.spec_tones() == Seq::<Tone>::empty(),
    {
        let tones: Vec<Tone> = Vec::new();
        let chords: Vec<Chord> = Vec::new();
        let scales: Vec<Scale> = Vec::new();
        let pitchgroups: Vec<PitchGroup> = Vec::new();
        let bounds = Bounds { lower: 0, upper: MAX_INDEX };
        let s = Sequence { tones, chords, scales, pitchgroups, bounds };
        proof {
            assert(chords_model(s.chords@) =~= spec_chord_list(s.tones@));
            lemma_groups_upto_empty(PITCH_CLASS_COUNT as int);
            assert(s.tones@ =~= Seq::<Tone>::empty());
            assert(groups_model(s.pitchgroups@) =~= spec_pitch_groups(s.tones@));
        }
        s
    }

    /// How many tones are sounding. This always equals the number of
    /// distinct currently-held indices: the registry never double-counts a
    /// replaced index and never goes negative.
    pub fn get_size(&self) -> (n: u8)
        requires
            self.wf(),
        ensures
            n as int == self.spec_tones().len(),
            n as int == index_map(self.spec_tones()).dom().len(),
    {
        proof {
            lemma_tone_count_bounded(self.tones@);
            lemma_index_map_char(self.tones@);
        }
        self.tones.len() as u8
    }

    /// Recomputes the chord list from the registry.
    fn construct_chords(&mut self)
        requires
            tones_wf(old(self).tones@),
        ensures
            final(self).tones@ == old(self).tones@,
            final(self).scales@ == old(self).scales@,
            final(self).pitchgroups@ == old(self).pitchgroups@,
            final(self).bounds == old(self).bounds,
            chords_model(final(self).chords@) == spec_chord_list(final(self).tones@),
    {
        self.chords = derive_chords(&self.tones);
    }

    /// Recomputes the scale candidates from the registry. Scale search is an
    /// unimplemented extension point, so the list is always empty.
    fn find_scales(&mut self)
        ensures
            final(self).tones@ == old(self).tones@,
            final(self).chords@ == old(self).chords@,
            final(self).pitchgroups@ == old(self).pitchgroups@,
            final(self).bounds == old(self).bounds,
            final(self).scales@.len() == 0,
    {
        self.scales = derive_scales(&self.tones);
    }

    /// Recomputes the pitch-class groupings from the registry.
    fn find_pitch_groups(&mut self)
        requires
            tones_wf(old(self).tones@),
        ensures
            final(self).tones@ == old(self).tones@,
            final(self).chords@ == old(self).chords@,
            final(self).scales@ == old(self).scales@,
            final(self).bounds == old(self).bounds,
            groups_model(final(self).pitchgroups@) == spec_pitch_groups(final(self).tones@),
    {
        self.pitchgroups = derive_pitch_groups(&self.tones);
    }

    /// Registers a note-on and rebuilds the derived state. A re-strike at an
    /// active index replaces the stored tone only when strictly louder; a
    /// weaker or equal re-strike leaves everything observable unchanged.
    fn add_tone(&mut self, index: u8, velocity: u8)
        requires
            old(self).wf(),
            index <= MAX_INDEX,
            velocity >= 1,
        ensures
            final(self).wf(),
            index_map(final(self).tones@) == note_on_map(
                index_map(old(self).tones@),
                index as int,
                velocity as int,
            ),
            contains_index(old(self).tones@, index as int)
                && index_map(old(self).tones@)[index as int] >= velocity ==> final(self).model()
                == old(self).model(),
    {
        note_on(&mut self.tones, index, velocity);
        self.bounds = compute_bounds(&self.tones);
        self.construct_chords();
        self.find_scales();
        self.find_pitch_groups();
        proof {
            if old(self).tones@ == self.tones@ {
                assert(scales_model(self.scales@) =~= scales_model(old(self).scales@));
            }
        }
    }

    /// Registers a note-off and rebuilds the derived state. Removing an
    /// index that is not active is a no-op: everything observable stays
    /// exactly as it was.
    fn delete_tone(&mut self, index: u8)
        requires
            old(self).wf(),
        ensures
            final(self).wf(),
            index_map(final(self).tones@) == index_map(old(self).tones@).remove(index as int),
            !contains_index(old(self).tones@, index as int) ==> final(self).model() == old(
                self,
            ).model(),
    {
        note_off(&mut self.tones, index);
        self.bounds = compute_bounds(&self.tones);
        self.construct_chords();
        self.find_scales();
        self.find_pitch_groups();
        proof {
            if old(self).tones@ == self.tones@ {
                assert(scales_model(self.scales@) =~= scales_model(old(self).scales@));
            }
        }
    }

    /// The sole mutation entry point, called once per decoded event. A
    /// positive velocity is a note-on, velocity zero a note-off; either way
    /// the window and every derived structure are recomputed before the call
    /// returns. An index outside the valid range is rejected before any
    /// mutation.
    pub fn process_input(&mut self, index: u8, velocity: u8) -> (r: Result<(), InputError>)
        requires
            old(self).wf(),
        ensures
            final(self).wf(),
            index > MAX_INDEX ==> r == Result::<(), InputError>::Err(InputError::IndexOutOfRange)
                && *final(self) == *old(self),
            index <= MAX_INDEX ==> r == Result::<(), InputError>::Ok(()),
            index <= MAX_INDEX && velocity >= 1 ==> index_map(final(self).tones@) == note_on_map(
                index_map(old(self).tones@),
                index as int,
                velocity as int,
            ),
            index <= MAX_INDEX && velocity == 0 ==> index_map(final(self).tones@) == index_map(
                old(self).tones@,
            ).remove(index as int),
            index <= MAX_INDEX && velocity == 0 && !contains_index(old(self).tones@, index as int)
                ==> final(self).model() == old(self).model(),
            index <= MAX_INDEX && velocity >= 1 && contains_index(old(self).tones@, index as int)
                && index_map(old(self).tones@)[index as int] >= velocity ==> final(self).model()
                == old(self).model(),
    {
        if index > MAX_INDEX {
            return Err(InputError::IndexOutOfRange);
        }
        if velocity > 0 {
            self.add_tone(index, velocity);
        } else {
            self.delete_tone(index);
        }
        Ok(())
    }

    /// The active tones, ascending by index.
    pub fn tones(&self) -> (r: &Vec<Tone>)
        ensures
            r@ == self.spec_tones(),
    {
        &self.tones
    }

    /// The derived chords: one per active tone treated as root, in registry
    /// order.
    pub fn chords(&self) -> (r: &Vec<Chord>)
        requires
            self.wf(),
        ensures
            chords_model(r@) == spec_chord_list(self.spec_tones()),
    {
        &self.chords
    }

    /// The derived scale candidates; empty until scale search is supplied.
    pub fn scales(&self) -> (r: &Vec<Scale>)
        requires
            self.wf(),
        ensures
            r@.len() == 0,
    {
        &self.scales
    }

    /// The derived pitch-class groupings, ascending by class.
    pub fn pitch_groups(&self) -> (r: &Vec<PitchGroup>)
        requires
            self.wf(),
        ensures
            groups_model(r@) == spec_pitch_groups(self.spec_tones()),
    {
        &self.pitchgroups
    }

    /// The active window derived from the registry's extremes.
    pub fn bounds(&self) -> (b: Bounds)
        requires
            self.wf(),
        ensures
            b == spec_bounds(self.spec_tones()),
    {
        self.bounds
    }
}

/// Order independence of the whole engine state: two well-formed states
/// holding the same tones — the same active indices with the same stored
/// velocities — are observably equal, whatever order their events arrived
/// in.
pub proof fn lemma_sequence_order_independent(a: &Sequence, b: &Sequence)
    requires
        a.wf(),
        b.wf(),
        index_map(a.spec_tones()) == index_map(b.spec_tones()),
    ensures
        a.model() == b.model(),
{
    lemma_derivation_order_independent(a.spec_tones(), b.spec_tones());
    assert(a.model().2 =~= b.model().2);
}

} // verus!
