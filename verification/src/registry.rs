//! The tone registry: the set of currently active tones, keyed by pitch
//! index, held as a vector sorted ascending by index so that every downstream
//! derivation iterates it in one canonical order.
//!
//! The mathematical model of a registry is the map from active pitch index to
//! stored velocity (`index_map`). A well-formed sorted vector is determined
//! by that map (`lemma_tone_seq_canonical`), which is what makes every
//! derived structure independent of the order in which tones were registered.

use vstd::prelude::*;
use crate::pitch::{Tone, MAX_INDEX};

verus! {

/// Well-formedness of a registry: every tone valid, indices strictly
/// ascending (hence unique).
pub open spec fn tones_wf(s: Seq<Tone>) -> bool {
    &&& forall|i: int| 0 <= i < s.len() ==> (#[trigger] s[i]).wf()
    &&& forall|i: int, j: int|
        0 <= i < j < s.len() ==> #[trigger] s[i].index < #[trigger] s[j].index
}

/// Whether some active tone has the given pitch index.
pub open spec fn contains_index(s: Seq<Tone>, k: int) -> bool {
    exists|i: int| 0 <= i < s.len() && (#[trigger] s[i]).index == k
}

/// The model of a registry: active pitch index -> stored velocity.
pub open spec fn index_map(s: Seq<Tone>) -> Map<int, int>
    decreases s.len(),
{
    if s.len() == 0 {
        Map::empty()
    } else {
        index_map(s.drop_last()).insert(s.last().index as int, s.last().velocity as int)
    }
}

/// The note-on policy at the model level: a fresh index is inserted; a
/// re-strike replaces the stored velocity only when it is strictly louder,
/// and a weaker or equal re-strike leaves the registry unchanged.
pub open spec fn note_on_map(m: Map<int, int>, index: int, velocity: int) -> Map<int, int> {
    if m.dom().contains(index) && m[index] >= velocity {
        m
    } else {
        m.insert(index, velocity)
    }
}

/// Dropping the last tone of a well-formed registry keeps it well-formed.
pub proof fn lemma_wf_drop_last(s: Seq<Tone>)
    requires
        tones_wf(s),
        s.len() > 0,
    ensures
        tones_wf(s.drop_last()),
{
    assert forall|i: int| 0 <= i < s.drop_last().len() implies (#[trigger] s.drop_last()[i]).wf() by {
        assert(s.drop_last()[i] == s[i]);
    }
    assert forall|i: int, j: int| 0 <= i < j < s.drop_last().len() implies
        #[trigger] s.drop_last()[i].index < #[trigger] s.drop_last()[j].index by {
        assert(s.drop_last()[i] == s[i]);
        assert(s.drop_last()[j] == s[j]);
    }
}

/// Characterization of the registry model: its domain is exactly the set of
/// active indices, it has one entry per tone, and it stores each tone's
/// velocity under that tone's index.
pub proof fn lemma_index_map_char(s: Seq<Tone>)
    requires
        tones_wf(s),
    ensures
        index_map(s).dom().finite(),
        index_map(s).dom().len() == s.len(),
        forall|k: int| #[trigger] index_map(s).dom().contains(k) <==> contains_index(s, k),
        forall|i: int|
            0 <= i < s.len() ==> index_map(s)[#[trigger] s[i].index as int] == s[i].velocity as int,
    decreases s.len(),
{
    if s.len() == 0 {
        assert(forall|k: int| !(#[trigger] index_map(s).dom().contains(k)));
        assert(forall|k: int| !contains_index(s, k));
    } else {
        let p = s.drop_last();
        let last = s.last();
        lemma_wf_drop_last(s);
        lemma_index_map_char(p);
        assert(forall|i: int| 0 <= i < p.len() ==> #[trigger] p[i] == s[i]);
        // The last tone's index is new: every earlier index is strictly smaller.
        assert forall|i: int| 0 <= i < p.len() implies (#[trigger] p[i]).index != last.index by {
            assert(s[i].index < s[s.len() - 1].index);
        }
        assert(!contains_index(p, last.index as int));
        assert(!index_map(p).dom().contains(last.index as int));
        assert(index_map(s) == index_map(p).insert(last.index as int, last.velocity as int));
        assert(index_map(s).dom() =~= index_map(p).dom().insert(last.index as int));
        assert(index_map(s).dom().len() == s.len());
        assert forall|k: int| #[trigger] index_map(s).dom().contains(k) implies contains_index(s, k) by {
            if k == last.index as int {
                assert(s[s.len() - 1].index == k);
            } else {
                let i = choose|i: int| 0 <= i < p.len() && (#[trigger] p[i]).index == k;
                assert(s[i].index == k);
            }
        }
        assert forall|k: int| contains_index(s, k) implies #[trigger] index_map(s).dom().contains(k) by {
            let i = choose|i: int| 0 <= i < s.len() && (#[trigger] s[i]).index == k;
            if i < s.len() - 1 {
                assert(p[i].index == k);
                assert(contains_index(p, k));
            }
        }
        assert forall|i: int| 0 <= i < s.len() implies
            index_map(s)[#[trigger] s[i].index as int] == s[i].velocity as int by {
            if i < s.len() - 1 {
                assert(p[i] == s[i]);
                assert(s[i].index != last.index);
                assert(index_map(s)[s[i].index as int] == index_map(p)[p[i].index as int]);
            }
        }
    }
}

/// Removing the last tone removes exactly its entry from the model.
pub proof fn lemma_index_map_drop_last(s: Seq<Tone>)
    requires
        tones_wf(s),
        s.len() > 0,
    ensures
        index_map(s.drop_last()) == index_map(s).remove(s.last().index as int),
{
    let p = s.drop_last();
    let last = s.last();
    lemma_wf_drop_last(s);
    lemma_index_map_char(p);
    assert forall|i: int| 0 <= i < p.len() implies (#[trigger] p[i]).index != last.index by {
        assert(p[i] == s[i]);
        assert(s[i].index < s[s.len() - 1].index);
    }
    assert(!contains_index(p, last.index as int));
    assert(!index_map(p).dom().contains(last.index as int));
    assert(index_map(s) == index_map(p).insert(last.index as int, last.velocity as int));
    assert(index_map(s).remove(last.index as int) =~= index_map(p));
}

/// In a well-formed registry each position's index is at least the position:
/// the indices climb by at least one per step.
proof fn lemma_index_at_least_position(s: Seq<Tone>, i: int)
    requires
        tones_wf(s),
        0 <= i < s.len(),
    ensures
        s[i].index >= i,
    decreases i,
{
    if i > 0 {
        lemma_index_at_least_position(s, i - 1);
        assert(s[i - 1].index < s[i].index);
    }
}

/// A well-formed registry never holds more tones than there are pitch
/// indices.
pub proof fn lemma_tone_count_bounded(s: Seq<Tone>)
    requires
        tones_wf(s),
    ensures
        s.len() <= MAX_INDEX + 1,
{
    if s.len() > MAX_INDEX + 1 {
        lemma_index_at_least_position(s, MAX_INDEX + 1);
        assert(s[MAX_INDEX + 1].wf());
    }
}

/// Canonicity: a well-formed sorted registry is determined by its model.
/// Two registries holding the same tones — the same indices with the same
/// velocities — are equal as sequences, however their tones were registered.
pub proof fn lemma_tone_seq_canonical(s1: Seq<Tone>, s2: Seq<Tone>)
    requires
        tones_wf(s1),
        tones_wf(s2),
        index_map(s1) == index_map(s2),
    ensures
        s1 == s2,
    decreases s1.len(),
{
    lemma_index_map_char(s1);
    lemma_index_map_char(s2);
    if s1.len() == 0 {
        assert(s2.len() == 0);
        assert(s1 =~= s2);
    } else {
        assert(s1.len() == s2.len());
        let a = s1.last();
        let b = s2.last();
        // The last index of each is its maximum; equal models force equal maxima.
        assert(contains_index(s1, a.index as int));
        assert(index_map(s2).dom().contains(a.index as int));
        let j = choose|j: int| 0 <= j < s2.len() && (#[trigger] s2[j]).index == a.index as int;
        assert(s2[j].index <= b.index) by {
            if j < s2.len() - 1 {
                assert(s2[j].index < s2[s2.len() - 1].index);
            }
        }
        assert(contains_index(s2, b.index as int));
        assert(index_map(s1).dom().contains(b.index as int));
        let i = choose|i: int| 0 <= i < s1.len() && (#[trigger] s1[i]).index == b.index as int;
        assert(s1[i].index <= a.index) by {
            if i < s1.len() - 1 {
                assert(s1[i].index < s1[s1.len() - 1].index);
            }
        }
        assert(a.index == b.index);
        assert(index_map(s1)[s1[s1.len() - 1].index as int] == a.velocity as int);
        assert(index_map(s2)[s2[s2.len() - 1].index as int] == b.velocity as int);
        assert(a.velocity == b.velocity);
        assert(a == b);
        lemma_wf_drop_last(s1);
        lemma_wf_drop_last(s2);
        lemma_index_map_drop_last(s1);
        lemma_index_map_drop_last(s2);
        lemma_tone_seq_canonical(s1.drop_last(), s2.drop_last());
        assert forall|k: int| 0 <= k < s1.len() implies s1[k] == s2[k] by {
            if k < s1.len() - 1 {
                assert(s1.drop_last()[k] == s2.drop_last()[k]);
            }
        }
        assert(s1 =~= s2);
    }
}

/// Registers a note-on event. A fresh index is inserted in sorted position;
/// a re-strike at an active index replaces the stored tone only when the new
/// velocity is strictly louder, and otherwise leaves the registry unchanged.
pub fn note_on(tones: &mut Vec<Tone>, index: u8, velocity: u8)
    requires
        tones_wf(old(tones)@),
        index <= MAX_INDEX,
        velocity >= 1,
    ensures
        tones_wf(final(tones)@),
        index_map(final(tones)@) == note_on_map(
            index_map(old(tones)@),
            index as int,
            velocity as int,
        ),
        contains_index(old(tones)@, index as int)
            && index_map(old(tones)@)[index as int] >= velocity ==> final(tones)@ == old(tones)@,
        final(tones)@.len() == old(tones)@.len() + if contains_index(
            old(tones)@,
            index as int,
        ) {
            0int
        } else {
            1int
        },
        contains_index(final(tones)@, index as int),
{
    let ghost s0 = tones@;
    proof {
        lemma_index_map_char(s0);
    }
    let mut pos: usize = 0;
    while pos < tones.len() && tones[pos].index < index
        invariant
            tones@ == s0,
            tones_wf(s0),
            pos <= s0.len(),
            forall|i: int| 0 <= i < pos ==> (#[trigger] s0[i]).index < index,
        decreases s0.len() - pos,
    {
        pos = pos + 1;
    }
    if pos < tones.len() && tones[pos].index == index {
        assert(contains_index(s0, index as int));
        if tones[pos].velocity < velocity {
            let t = Tone::from_index(index, velocity);
            tones.remove(pos);
            tones.insert(pos, t);
            proof {
                let s1 = tones@;
                assert(s1 =~= s0.update(pos as int, t));
                assert(forall|i: int| 0 <= i < s0.len() && i != pos ==> #[trigger] s1[i] == s0[i]);
                assert(forall|i: int| 0 <= i < s0.len() ==> #[trigger] s1[i].index == s0[i].index);
                assert(tones_wf(s1));
                lemma_index_map_char(s1);
                assert(index_map(s0)[index as int] == s0[pos as int].velocity as int);
                assert(s1[pos as int] == t);
                assert(index_map(s1)[s1[pos as int].index as int] == s1[pos as int].velocity as int);
                assert(index_map(s1)[index as int] == velocity as int);
                let m1 = index_map(s1);
                let m2 = index_map(s0).insert(index as int, velocity as int);
                assert forall|k: int| #[trigger] m1.dom().contains(k) implies m2.dom().contains(k)
                    && m1[k] == m2[k] by {
                    let i = choose|i: int| 0 <= i < s1.len() && (#[trigger] s1[i]).index == k;
                    assert(s0[i].index == k);
                    assert(contains_index(s0, k));
                    if k != index as int {
                        assert(s1[i] == s0[i]);
                        assert(m1[k] == s1[i].velocity as int);
                        assert(index_map(s0)[k] == s0[i].velocity as int);
                    }
                }
                assert forall|k: int| #[trigger] m2.dom().contains(k) implies m1.dom().contains(k) by {
                    if k == index as int {
                        assert(s1[pos as int].index == k);
                    } else {
                        let i = choose|i: int| 0 <= i < s0.len() && (#[trigger] s0[i]).index == k;
                        assert(s1[i].index == k);
                    }
                }
                assert(m1 =~= m2);
            }
        } else {
            proof {
                assert(index_map(s0)[index as int] == s0[pos as int].velocity as int);
                assert(index_map(s0)[index as int] >= velocity);
                assert(note_on_map(index_map(s0), index as int, velocity as int) == index_map(s0));
            }
        }
    } else {
        // The index is not active: every earlier position is strictly below
        // it and every position from `pos` on is strictly above it.
        assert forall|i: int| 0 <= i < s0.len() implies (#[trigger] s0[i]).index != index by {
            if i >= pos {
                assert(s0[pos as int].index <= s0[i].index) by {
                    if pos < i {
                        assert(s0[pos as int].index < s0[i].index);
                    }
                }
            }
        }
        assert(!contains_index(s0, index as int));
        let t = Tone::from_index(index, velocity);
        tones.insert(pos, t);
        proof {
            let s1 = tones@;
            assert(s1 == s0.insert(pos as int, t));
            assert(forall|i: int| 0 <= i < pos ==> #[trigger] s1[i] == s0[i]);
            assert(s1[pos as int] == t);
            assert(forall|i: int| pos < i < s1.len() ==> #[trigger] s1[i] == s0[i - 1]);
            assert forall|i: int, j: int| 0 <= i < j < s1.len() implies
                #[trigger] s1[i].index < #[trigger] s1[j].index by {
                if i < pos && j == pos {
                } else if i == pos && j > pos {
                    assert(s0[j - 1].index >= s0[pos as int].index) by {
                        if j - 1 > pos {
                            assert(s0[pos as int].index < s0[j - 1].index);
                        }
                    }
                } else if i < pos && j > pos {
                    assert(s0[j - 1].index >= s0[pos as int].index) by {
                        if j - 1 > pos {
                            assert(s0[pos as int].index < s0[j - 1].index);
                        }
                    }
                    assert(s0[i].index < index);
                }
            }
            assert(tones_wf(s1));
            lemma_index_map_char(s1);
            let m1 = index_map(s1);
            let m2 = index_map(s0).insert(index as int, velocity as int);
            assert forall|k: int| #[trigger] m1.dom().contains(k) implies m2.dom().contains(k)
                && m1[k] == m2[k] by {
                let i = choose|i: int| 0 <= i < s1.len() && (#[trigger] s1[i]).index == k;
                if i == pos {
                    assert(m1[k] == velocity as int);
                } else if i < pos {
                    assert(s0[i].index == k);
                    assert(contains_index(s0, k));
                    assert(m1[k] == s1[i].velocity as int);
                    assert(index_map(s0)[k] == s0[i].velocity as int);
                } else {
                    assert(s0[i - 1].index == k);
                    assert(contains_index(s0, k));
                    assert(m1[k] == s1[i].velocity as int);
                    assert(index_map(s0)[k] == s0[i - 1].velocity as int);
                }
            }
            assert forall|k: int| #[trigger] m2.dom().contains(k) implies m1.dom().contains(k) by {
                if k == index as int {
                    assert(s1[pos as int].index == k);
                } else {
                    let i = choose|i: int| 0 <= i < s0.len() && (#[trigger] s0[i]).index == k;
                    if i < pos {
                        assert(s1[i].index == k);
                    } else {
                        assert(s1[i + 1].index == k);
                    }
                }
            }
            assert(m1 =~= m2);
            assert(s1[pos as int].index == index);
            assert(contains_index(s1, index as int));
        }
    }
}

/// Registers a note-off event: removes the tone at the given index. Removing
/// an index that is not active is a no-op, not an error — the registry is
/// returned exactly as it was.
pub fn note_off(tones: &mut Vec<Tone>, index: u8)
    requires
        tones_wf(old(tones)@),
    ensures
        tones_wf(final(tones)@),
        index_map(final(tones)@) == index_map(old(tones)@).remove(index as int),
        !contains_index(old(tones)@, index as int) ==> final(tones)@ == old(tones)@,
        final(tones)@.len() == old(tones)@.len() - if contains_index(
            old(tones)@,
            index as int,
        ) {
            1int
        } else {
            0int
        },
        !contains_index(final(tones)@, index as int),
{
    let ghost s0 = tones@;
    proof {
        lemma_index_map_char(s0);
    }
    let mut pos: usize = 0;
    while pos < tones.len() && tones[pos].index != index
        invariant
            tones@ == s0,
            tones_wf(s0),
            pos <= s0.len(),
            forall|i: int| 0 <= i < pos ==> (#[trigger] s0[i]).index != index,
        decreases s0.len() - pos,
    {
        pos = pos + 1;
    }
    if pos < tones.len() {
        assert(s0[pos as int].index == index);
        assert(contains_index(s0, index as int));
        tones.remove(pos);
        proof {
            let s1 = tones@;
            assert(s1 == s0.remove(pos as int));
            assert(forall|i: int| 0 <= i < pos ==> #[trigger] s1[i] == s0[i]);
            assert(forall|i: int| pos <= i < s1.len() ==> #[trigger] s1[i] == s0[i + 1]);
            assert forall|i: int, j: int| 0 <= i < j < s1.len() implies
                #[trigger] s1[i].index < #[trigger] s1[j].index by {
                if i < pos && j >= pos {
                    assert(s0[i].index < s0[j + 1].index);
                }
            }
            assert(tones_wf(s1));
            lemma_index_map_char(s1);
            let m1 = index_map(s1);
            let m2 = index_map(s0).remove(index as int);
            assert forall|k: int| #[trigger] m1.dom().contains(k) implies m2.dom().contains(k)
                && m1[k] == m2[k] by {
                let i = choose|i: int| 0 <= i < s1.len() && (#[trigger] s1[i]).index == k;
                if i < pos {
                    assert(s0[i].index == k);
                    assert(k != index as int) by {
                        if i < pos {
                            assert(s0[i].index != index);
                        }
                    }
                    assert(contains_index(s0, k));
                    assert(m1[k] == s1[i].velocity as int);
                    assert(index_map(s0)[k] == s0[i].velocity as int);
                } else {
                    assert(s0[i + 1].index == k);
                    assert(k != index as int) by {
                        assert(s0[pos as int].index < s0[i + 1].index);
                    }
                    assert(contains_index(s0, k));
                    assert(m1[k] == s1[i].velocity as int);
                    assert(index_map(s0)[k] == s0[i + 1].velocity as int);
                }
            }
            assert forall|k: int| #[trigger] m2.dom().contains(k) implies m1.dom().contains(k) by {
                let i = choose|i: int| 0 <= i < s0.len() && (#[trigger] s0[i]).index == k;
                assert(i != pos);
                if i < pos {
                    assert(s1[i].index == k);
                } else {
                    assert(s1[i - 1].index == k);
                }
            }
            assert(m1 =~= m2);
            assert forall|i: int| 0 <= i < s1.len() implies (#[trigger] s1[i]).index != index by {
                if i >= pos {
                    assert(s0[pos as int].index < s0[i + 1].index);
                }
            }
        }
    } else {
        proof {
            assert(!contains_index(s0, index as int));
            assert(!index_map(s0).dom().contains(index as int));
            assert(index_map(s0).remove(index as int) =~= index_map(s0));
        }
    }
}

} // verus!
