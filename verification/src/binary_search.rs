//! Finding the element of a sorted list closest to a target.
use vstd::prelude::*;

verus! {

pub open spec fn sorted(s: Seq<usize>) -> bool {
    forall|i: int, j: int| 0 <= i <= j < s.len() ==> s[i] <= s[j]
}

pub open spec fn dist(a: usize, b: usize) -> int {
    if a <= b { b - a } else { a - b }
}

/// `p` splits `s` into the elements below `t` and those at or above it.
pub open spec fn is_lower_bound(s: Seq<usize>, t: usize, p: int) -> bool {
    &&& 0 <= p <= s.len()
    &&& forall|i: int| 0 <= i < p ==> s[i] < t
    &&& forall|i: int| p <= i < s.len() ==> s[i] >= t
}

/// The index `closest_index` picks, given the lower bound `p` of `t`.
pub open spec fn closest_from_bound(s: Seq<usize>, t: usize, p: int) -> Option<usize> {
    if s.len() == 0 {
        None
    } else if p < s.len() && s[p] == t {
        Some(p as usize)
    } else if p == 0 {
        Some(0)
    } else if p == s.len() {
        Some((s.len() - 1) as usize)
    } else if t - s[p - 1] <= s[p] - t {
        Some((p - 1) as usize)
    } else {
        Some(p as usize)
    }
}

/// First index whose value is at least `target`.
fn lower_bound(values: &[usize], target: usize) -> (p: usize)
    requires
        sorted(values@),
    ensures
        is_lower_bound(values@, target, p as int),
{
    let mut lo: usize = 0;
    let mut hi: usize = values.len();
    while lo < hi
        invariant
            0 <= lo <= hi <= values@.len(),
            sorted(values@),
            forall|i: int| 0 <= i < lo ==> values@[i] < target,
            forall|i: int| hi <= i < values@.len() ==> values@[i] >= target,
        decreases hi - lo,
    {
        let mid = lo + (hi - lo) / 2;
        if values[mid] < target {
            lo = mid + 1;
        } else {
            hi = mid;
        }
    }
    lo
}

/// Returns the index of the element in `values` that is numerically closest
/// to `target`. On a tie (two values equally close) the lower index is chosen.
pub fn closest_index(values: &[usize], target: usize) -> (r: Option<usize>)
    requires
        sorted(values@),
    ensures
        r is None <==> values@.len() == 0,
        forall|p: int| is_lower_bound(values@, target, p) ==> r == closest_from_bound(values@, target, p),
        r matches Some(i) ==> {
            &&& i < values@.len()
            &&& forall|j: int| 0 <= j < values@.len() ==> dist(values@[i as int], target) <= dist(#[trigger] values@[j], target)
            &&& forall|j: int| 0 <= j < values@.len() && values@[j] < values@[i as int]
                ==> dist(values@[i as int], target) < dist(#[trigger] values@[j], target)
        },
{
    if values.len() == 0 {
        return None;
    }
    let pos = lower_bound(values, target);
    proof {
        assert forall|p: int| is_lower_bound(values@, target, p) implies p == pos by {
            if p < pos {
                assert(values@[p] >= target);
            } else if p > pos {
                assert(values@[pos as int] >= target);
            }
        }
    }
    if pos < values.len() && values[pos] == target {
        Some(pos)
    } else if pos == 0 {
        Some(0)
    } else if pos == values.len() {
        Some(values.len() - 1)
    } else {
        let diff_low = target - values[pos - 1];
        let diff_high = values[pos] - target;
        if diff_low <= diff_high {
            Some(pos - 1)
        } else {
            Some(pos)
        }
    }
}

} // verus!
