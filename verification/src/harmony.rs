//! The harmonic deriver: from the current registry it recomputes one
//! candidate chord per active tone treated as root, the pitch-class
//! groupings, and the candidate scales. Every derivation is a pure function
//! of the registry, iterated in its canonical ascending-index order, so the
//! derived structures never depend on the order in which tones arrived.
//!
//! Derivation considers the tones inside the active window; since the
//! window is derived from the registry's own extremes it always covers
//! every active tone (see `bounds::lemma_bounds_valid`), so deriving from
//! the whole registry is exactly deriving from the in-window tones.

use vstd::prelude::*;
use crate::pitch::{interval_between, note_of, spec_note_of, Note, Tone, PITCH_CLASS_COUNT};
use crate::registry::{
    index_map, lemma_tone_seq_canonical, lemma_wf_drop_last, tones_wf,
};

verus! {

/// One tone treated as root, with the signed interval from the root to every
/// other active tone, in ascending order of the partner tone's index.
#[derive(Clone, Debug)]
pub struct Chord {
    pub root: Note,
    pub intervals: Vec<(Note, i16)>,
}

/// A grouping of active tones sharing one pitch class: the class and the
/// member tones' indices in ascending order.
#[derive(Clone, Debug)]
pub struct PitchGroup {
    pub pitch_class: u8,
    pub members: Vec<u8>,
}

/// A candidate scale consistent with the active interval content. Scale
/// search is an explicit extension point: no candidates are produced yet,
/// and `derive_scales` is contracted to return none.
#[derive(Clone, Debug)]
pub struct Scale {
    pub intervals: Vec<i16>,
}

/// The interval entries of the chord rooted at `root`: one `(note, signed
/// distance)` pair per tone of `s` other than the root itself, in the order
/// of `s`.
pub open spec fn spec_intervals(s: Seq<Tone>, root: Tone) -> Seq<(Note, i16)>
    decreases s.len(),
{
    if s.len() == 0 {
        Seq::empty()
    } else {
        spec_intervals(s.drop_last(), root) + if s.last().index != root.index {
            seq![
                (
                    spec_note_of(s.last().index as int),
                    (s.last().index - root.index) as i16,
                ),
            ]
        } else {
            Seq::empty()
        }
    }
}

/// What it means for a chord value to be the chord of `s` rooted at `root`.
pub open spec fn chord_models(c: Chord, s: Seq<Tone>, root: Tone) -> bool {
    c.root == spec_note_of(root.index as int) && c.intervals@ == spec_intervals(s, root)
}

/// The indices of the tones of `s` whose pitch class is `c`, in the order of
/// `s`.
pub open spec fn spec_class_members(s: Seq<Tone>, c: int) -> Seq<u8>
    decreases s.len(),
{
    if s.len() == 0 {
        Seq::empty()
    } else {
        spec_class_members(s.drop_last(), c) + if s.last().index % 12 == c {
            seq![s.last().index]
        } else {
            Seq::empty()
        }
    }
}

/// Whether some tone of `s` has pitch class `c`.
pub open spec fn has_class(s: Seq<Tone>, c: int) -> bool {
    exists|i: int| 0 <= i < s.len() && (#[trigger] s[i]).index % 12 == c
}

/// What it means for a group value to be the grouping of `s` for its class.
pub open spec fn group_models(g: PitchGroup, s: Seq<Tone>) -> bool {
    &&& g.pitch_class < PITCH_CLASS_COUNT
    &&& g.members@ == spec_class_members(s, g.pitch_class as int)
    &&& g.members@.len() > 0
}

/// The observable content of a chord list: each chord as its root and its
/// interval entries.
pub open spec fn chords_model(cs: Seq<Chord>) -> Seq<(Note, Seq<(Note, i16)>)> {
    cs.map_values(|c: Chord| (c.root, c.intervals@))
}

/// The chord list derived from a registry, as observable content: one chord
/// per tone in registry order.
pub open spec fn spec_chord_list(s: Seq<Tone>) -> Seq<(Note, Seq<(Note, i16)>)> {
    Seq::new(s.len(), |k: int| (spec_note_of(s[k].index as int), spec_intervals(s, s[k])))
}

/// The observable content of a group list: each group as its class and its
/// member indices.
pub open spec fn groups_model(gs: Seq<PitchGroup>) -> Seq<(u8, Seq<u8>)> {
    gs.map_values(|g: PitchGroup| (g.pitch_class, g.members@))
}

/// The group list derived from a registry for the classes below `c`, as
/// observable content: one group per occupied class, ascending.
pub open spec fn spec_groups_upto(s: Seq<Tone>, c: int) -> Seq<(u8, Seq<u8>)>
    decreases c,
{
    if c <= 0 {
        Seq::empty()
    } else {
        spec_groups_upto(s, c - 1) + if spec_class_members(s, c - 1).len() > 0 {
            seq![(((c - 1) as u8), spec_class_members(s, c - 1))]
        } else {
            Seq::empty()
        }
    }
}

/// The full group list derived from a registry, as observable content.
pub open spec fn spec_pitch_groups(s: Seq<Tone>) -> Seq<(u8, Seq<u8>)> {
    spec_groups_upto(s, PITCH_CLASS_COUNT as int)
}

/// The observable content of a scale list.
pub open spec fn scales_model(ss: Seq<Scale>) -> Seq<Seq<i16>> {
    ss.map_values(|sc: Scale| sc.intervals@)
}

/// A pitch class has members in `s` exactly when some tone of `s` carries it.
pub proof fn lemma_class_members_occupied(s: Seq<Tone>, c: int)
    ensures
        spec_class_members(s, c).len() > 0 <==> has_class(s, c),
    decreases s.len(),
{
    if s.len() > 0 {
        let p = s.drop_last();
        lemma_class_members_occupied(p, c);
        assert(forall|i: int| 0 <= i < p.len() ==> #[trigger] p[i] == s[i]);
        if spec_class_members(s, c).len() > 0 {
            if s.last().index % 12 == c {
                assert(s[s.len() - 1].index % 12 == c);
            } else {
                let i = choose|i: int| 0 <= i < p.len() && (#[trigger] p[i]).index % 12 == c;
                assert(s[i].index % 12 == c);
            }
        }
        if has_class(s, c) {
            let i = choose|i: int| 0 <= i < s.len() && (#[trigger] s[i]).index % 12 == c;
            if i < s.len() - 1 {
                assert(p[i].index % 12 == c);
                assert(has_class(p, c));
            }
        }
    }
}

/// An empty registry derives no pitch groups, whatever class bound is asked.
pub proof fn lemma_groups_upto_empty(c: int)
    ensures
        spec_groups_upto(Seq::<Tone>::empty(), c).len() == 0,
    decreases c,
{
    if c > 0 {
        lemma_groups_upto_empty(c - 1);
    }
}

/// Order independence of derivation: two well-formed registries holding the
/// same tones are equal as sequences, so every chord and every pitch-class
/// grouping derived from them is equal, whatever order their tones were
/// registered in.
pub proof fn lemma_derivation_order_independent(s1: Seq<Tone>, s2: Seq<Tone>)
    requires
        tones_wf(s1),
        tones_wf(s2),
        index_map(s1) == index_map(s2),
    ensures
        s1 == s2,
        forall|root: Tone| spec_intervals(s1, root) == spec_intervals(s2, root),
        forall|c: int| spec_class_members(s1, c) == spec_class_members(s2, c),
        spec_chord_list(s1) == spec_chord_list(s2),
        spec_pitch_groups(s1) == spec_pitch_groups(s2),
{
    lemma_tone_seq_canonical(s1, s2);
}

/// Builds one chord per tone of the registry treated as root, listing the
/// intervals from that root to every other active tone in ascending
/// partner-index order.
pub fn derive_chords(tones: &Vec<Tone>) -> (r: Vec<Chord>)
    requires
        tones_wf(tones@),
    ensures
        r@.len() == tones@.len(),
        forall|k: int| 0 <= k < r@.len() ==> chord_models(#[trigger] r@[k], tones@, tones@[k]),
        chords_model(r@) == spec_chord_list(tones@),
{
    let ghost s = tones@;
    let mut chords: Vec<Chord> = Vec::new();
    let mut i: usize = 0;
    while i < tones.len()
        invariant
            tones@ == s,
            tones_wf(s),
            i <= s.len(),
            chords@.len() == i,
            forall|k: int| 0 <= k < i ==> chord_models(#[trigger] chords@[k], s, s[k]),
        decreases s.len() - i,
    {
        let root = tones[i];
        assert(root.wf());
        let mut ivs: Vec<(Note, i16)> = Vec::new();
        let mut j: usize = 0;
        while j < tones.len()
            invariant
                tones@ == s,
                tones_wf(s),
                j <= s.len(),
                root == s[i as int],
                root.wf(),
                ivs@ == spec_intervals(s.take(j as int), root),
            decreases s.len() - j,
        {
            let partner = tones[j];
            assert(partner == s[j as int]);
            assert(partner.wf());
            assert(s.take(j as int + 1).drop_last() =~= s.take(j as int));
            assert(s.take(j as int + 1).last() == s[j as int]);
            if partner.index != root.index {
                let d = interval_between(root.index, partner.index);
                let n = note_of(partner.index);
                ivs.push((n, d));
                assert(ivs@ =~= spec_intervals(s.take(j as int + 1), root));
            } else {
                assert(ivs@ =~= spec_intervals(s.take(j as int + 1), root));
            }
            j = j + 1;
        }
        assert(s.take(s.len() as int) =~= s);
        let c = Chord { root: note_of(root.index), intervals: ivs };
        chords.push(c);
        i = i + 1;
    }
    proof {
        assert forall|k: int| 0 <= k < chords@.len() implies chords_model(chords@)[k]
            == spec_chord_list(s)[k] by {
            assert(chord_models(chords@[k], s, s[k]));
        }
        assert(chords_model(chords@) =~= spec_chord_list(s));
    }
    chords
}

/// Groups the active tones by pitch class: one group per class that has at
/// least one active tone, in ascending class order, each listing its member
/// indices in ascending order. The grouping depends only on which tones are
/// active.
pub fn derive_pitch_groups(tones: &Vec<Tone>) -> (r: Vec<PitchGroup>)
    requires
        tones_wf(tones@),
    ensures
        forall|k: int| 0 <= k < r@.len() ==> group_models(#[trigger] r@[k], tones@),
        forall|k1: int, k2: int|
            0 <= k1 < k2 < r@.len() ==> (#[trigger] r@[k1]).pitch_class < (
            #[trigger] r@[k2]).pitch_class,
        forall|c: int|
            0 <= c < PITCH_CLASS_COUNT && #[trigger] has_class(tones@, c) ==> exists|k: int|
                0 <= k < r@.len() && (#[trigger] r@[k]).pitch_class == c,
        groups_model(r@) == spec_pitch_groups(tones@),
{
    let ghost s = tones@;
    let mut groups: Vec<PitchGroup> = Vec::new();
    let mut c: u8 = 0;
    while c < PITCH_CLASS_COUNT
        invariant
            tones@ == s,
            tones_wf(s),
            c <= PITCH_CLASS_COUNT,
            forall|k: int| 0 <= k < groups@.len() ==> group_models(#[trigger] groups@[k], s),
            forall|k: int| 0 <= k < groups@.len() ==> (#[trigger] groups@[k]).pitch_class < c,
            forall|k1: int, k2: int|
                0 <= k1 < k2 < groups@.len() ==> (#[trigger] groups@[k1]).pitch_class < (
                #[trigger] groups@[k2]).pitch_class,
            forall|cc: int|
                0 <= cc < c && #[trigger] has_class(s, cc) ==> exists|k: int|
                    0 <= k < groups@.len() && (#[trigger] groups@[k]).pitch_class == cc,
            groups_model(groups@) == spec_groups_upto(s, c as int),
        decreases PITCH_CLASS_COUNT - c,
    {
        let mut members: Vec<u8> = Vec::new();
        let mut j: usize = 0;
        while j < tones.len()
            invariant
                tones@ == s,
                j <= s.len(),
                members@ == spec_class_members(s.take(j as int), c as int),
            decreases s.len() - j,
        {
            let t = tones[j];
            assert(t == s[j as int]);
            assert(s.take(j as int + 1).drop_last() =~= s.take(j as int));
            assert(s.take(j as int + 1).last() == s[j as int]);
            if t.index % PITCH_CLASS_COUNT == c {
                members.push(t.index);
                assert(members@ =~= spec_class_members(s.take(j as int + 1), c as int));
            } else {
                assert(members@ =~= spec_class_members(s.take(j as int + 1), c as int));
            }
            j = j + 1;
        }
        assert(s.take(s.len() as int) =~= s);
        proof {
            lemma_class_members_occupied(s, c as int);
        }
        if members.len() > 0 {
            let ghost g0 = groups@;
            groups.push(PitchGroup { pitch_class: c, members });
            assert forall|cc: int| 0 <= cc < c + 1 && #[trigger] has_class(s, cc) implies exists|
                k: int,
            | 0 <= k < groups@.len() && (#[trigger] groups@[k]).pitch_class == cc by {
                if cc == c {
                    assert(groups@[g0.len() as int].pitch_class == cc);
                } else {
                    let k = choose|k: int|
                        0 <= k < g0.len() && (#[trigger] g0[k]).pitch_class == cc;
                    assert(groups@[k] == g0[k]);
                    assert(groups@[k].pitch_class == cc);
                }
            }
            assert(groups_model(groups@) =~= spec_groups_upto(s, c as int + 1));
        } else {
            assert(!has_class(s, c as int));
            assert(groups_model(groups@) =~= spec_groups_upto(s, c as int + 1));
        }
        c = c + 1;
    }
    groups
}

/// Scale search is not implemented: the contract of this extension point is
/// to produce no candidates rather than invent unjustified ones, whatever
/// the registry holds.
pub fn derive_scales(_tones: &Vec<Tone>) -> (r: Vec<Scale>)
    ensures
        r@.len() == 0,
{
    Vec::new()
}

} // verus!
