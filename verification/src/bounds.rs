//! The bounds tracker: derives the active pitch window `[lower, upper]` from
//! the registry's extreme indices, expanded by a fixed margin and clamped to
//! the valid pitch-index range. When nothing is sounding the window is the
//! whole valid range, an explicit "no constraint" sentinel.

use vstd::prelude::*;
use crate::pitch::{Tone, MAX_INDEX};
use crate::registry::tones_wf;

verus! {

/// How far the window reaches beyond the lowest and highest active index.
pub const BOUNDS_MARGIN: u8 = 7;

/// The active pitch window.
#[derive(Clone, Copy, Debug, PartialEq, Eq, Structural)]
pub struct Bounds {
    pub lower: u8,
    pub upper: u8,
}

/// The lowest active index, or 0 when nothing is sounding. In a well-formed
/// registry the first tone holds the minimum.
pub open spec fn spec_lowest(s: Seq<Tone>) -> int {
    if s.len() == 0 {
        0
    } else {
        s[0].index as int
    }
}

/// The highest active index, or `MAX_INDEX` when nothing is sounding. In a
/// well-formed registry the last tone holds the maximum.
pub open spec fn spec_highest(s: Seq<Tone>) -> int {
    if s.len() == 0 {
        MAX_INDEX as int
    } else {
        s.last().index as int
    }
}

/// The window derived from a registry: extremes widened by the margin and
/// clamped to `[0, MAX_INDEX]`; the full range when the registry is empty.
pub open spec fn spec_bounds(s: Seq<Tone>) -> Bounds {
    if s.len() == 0 {
        Bounds { lower: 0, upper: MAX_INDEX }
    } else {
        Bounds {
            lower: if spec_lowest(s) >= BOUNDS_MARGIN {
                (spec_lowest(s) - BOUNDS_MARGIN) as u8
            } else {
                0
            },
            upper: if spec_highest(s) + BOUNDS_MARGIN <= MAX_INDEX {
                (spec_highest(s) + BOUNDS_MARGIN) as u8
            } else {
                MAX_INDEX
            },
        }
    }
}

/// The window always lies inside the valid range and is never inverted, and
/// every active tone lies inside it.
pub proof fn lemma_bounds_valid(s: Seq<Tone>)
    requires
        tones_wf(s),
    ensures
        spec_bounds(s).upper <= MAX_INDEX,
        spec_bounds(s).lower <= spec_bounds(s).upper,
        forall|i: int|
            0 <= i < s.len() ==> spec_bounds(s).lower <= (#[trigger] s[i]).index
                && s[i].index <= spec_bounds(s).upper,
{
    if s.len() > 0 {
        assert forall|i: int| 0 <= i < s.len() implies s[0].index <= (#[trigger] s[i]).index
            && s[i].index <= s[s.len() - 1].index by {
            if 0 < i {
                assert(s[0].index < s[i].index);
            }
            if i < s.len() - 1 {
                assert(s[i].index < s[s.len() - 1].index);
            }
        }
        assert(s[0].wf());
        assert(s[0].index <= s[s.len() - 1].index);
    }
}

/// Recomputes the window from the current registry.
pub fn compute_bounds(tones: &Vec<Tone>) -> (b: Bounds)
    requires
        tones_wf(tones@),
    ensures
        b == spec_bounds(tones@),
        b.lower <= b.upper,
        b.upper <= MAX_INDEX,
{
    proof {
        lemma_bounds_valid(tones@);
    }
    if tones.len() == 0 {
        Bounds { lower: 0, upper: MAX_INDEX }
    } else {
        let lowest = tones[0].index;
        let highest = tones[tones.len() - 1].index;
        assert(lowest == spec_lowest(tones@));
        assert(highest == spec_highest(tones@));
        assert(highest <= MAX_INDEX) by {
            assert(tones@[tones@.len() - 1].wf());
        }
        let lower = if lowest >= BOUNDS_MARGIN {
            lowest - BOUNDS_MARGIN
        } else {
            0
        };
        let upper = if highest + BOUNDS_MARGIN <= MAX_INDEX {
            highest + BOUNDS_MARGIN
        } else {
            MAX_INDEX
        };
        Bounds { lower, upper }
    }
}

/// Inclusive range test against a window.
pub fn bounds_contain(b: Bounds, index: u8) -> (r: bool)
    ensures
        r == (b.lower <= index && index <= b.upper),
{
    b.lower <= index && index <= b.upper
}

} // verus!
