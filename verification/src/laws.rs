//! Laws of the kernel: proofs that the detector's result sequence holds
//! exactly the qualifying positions in ascending order, that plateaus are
//! never reported, that stricter filters never yield more peaks, that short
//! signals yield nothing, and that every operation is a pure function of its
//! input.

use vstd::prelude::*;

use crate::peaks::is_peak;
use crate::peaks::peak_at;
use crate::peaks::peaks_of;
use crate::peaks::peaks_upto;
use crate::peaks::Peak;
use crate::scan::is_diff_result;
use crate::scan::is_max_result;

verus! {

/// Whether the peak record `pk` occurs in the peak list `ps`.
pub open spec fn contains_peak(ps: Seq<Peak>, pk: Peak) -> bool {
    exists|k: int| 0 <= k < ps.len() && ps[k] == pk
}

/// Every record among the peaks below `n` describes a qualifying position
/// below `n`, with the fields `peak_at` gives it.
proof fn lemma_peaks_upto_elems(s: Seq<i64>, h: int, p: int, n: int)
    requires
        s.len() <= usize::MAX,
    ensures
        forall|k: int|
            0 <= k < peaks_upto(s, h, p, n).len() ==> {
                let pk = #[trigger] peaks_upto(s, h, p, n)[k];
                &&& pk.index < n
                &&& is_peak(s, h, p, pk.index as int)
                &&& pk == peak_at(s, pk.index as int)
            },
    decreases n,
{
    if n <= 1 {
    } else {
        lemma_peaks_upto_elems(s, h, p, n - 1);
        let prev = peaks_upto(s, h, p, n - 1);
        assert forall|k: int| 0 <= k < peaks_upto(s, h, p, n).len() implies {
            let pk = #[trigger] peaks_upto(s, h, p, n)[k];
            &&& pk.index < n
            &&& is_peak(s, h, p, pk.index as int)
            &&& pk == peak_at(s, pk.index as int)
        } by {
            if k < prev.len() {
                assert(peaks_upto(s, h, p, n)[k] == prev[k]);
            } else {
                assert(is_peak(s, h, p, n - 1));
                assert(peaks_upto(s, h, p, n)[k] == peak_at(s, n - 1));
                assert(peak_at(s, n - 1).index as int == n - 1);
            }
        }
    }
}

/// Every qualifying position below `n` appears among the peaks below `n`.
proof fn lemma_peaks_upto_complete(s: Seq<i64>, h: int, p: int, n: int)
    ensures
        forall|j: int|
            1 <= j < n && #[trigger] is_peak(s, h, p, j) ==> exists|k: int|
                0 <= k < peaks_upto(s, h, p, n).len() && #[trigger] peaks_upto(s, h, p, n)[k]
                    == peak_at(s, j),
    decreases n,
{
    if n <= 1 {
    } else {
        lemma_peaks_upto_complete(s, h, p, n - 1);
        let prev = peaks_upto(s, h, p, n - 1);
        let cur = peaks_upto(s, h, p, n);
        assert forall|j: int| 1 <= j < n && #[trigger] is_peak(s, h, p, j) implies exists|k: int|
            0 <= k < cur.len() && #[trigger] cur[k] == peak_at(s, j) by {
            if j < n - 1 {
                let k = choose|k: int| 0 <= k < prev.len() && #[trigger] prev[k] == peak_at(s, j);
                assert(cur[k] == peak_at(s, j));
            } else {
                assert(cur[prev.len() as int] == peak_at(s, j));
            }
        }
    }
}

/// The peaks below `n` are ordered by strictly ascending index.
proof fn lemma_peaks_upto_sorted(s: Seq<i64>, h: int, p: int, n: int)
    requires
        s.len() <= usize::MAX,
    ensures
        forall|k1: int, k2: int|
            0 <= k1 < k2 < peaks_upto(s, h, p, n).len() ==> #[trigger] peaks_upto(
                s,
                h,
                p,
                n,
            )[k1].index < #[trigger] peaks_upto(s, h, p, n)[k2].index,
    decreases n,
{
    if n <= 1 {
    } else {
        lemma_peaks_upto_sorted(s, h, p, n - 1);
        lemma_peaks_upto_elems(s, h, p, n - 1);
        let prev = peaks_upto(s, h, p, n - 1);
        assert forall|k1: int, k2: int|
            0 <= k1 < k2 < peaks_upto(s, h, p, n).len() implies #[trigger] peaks_upto(
            s,
            h,
            p,
            n,
        )[k1].index < #[trigger] peaks_upto(s, h, p, n)[k2].index by {
            assert(peaks_upto(s, h, p, n)[k1] == prev[k1]);
            if k2 < prev.len() {
                assert(peaks_upto(s, h, p, n)[k2] == prev[k2]);
            } else {
                assert(is_peak(s, h, p, n - 1));
                assert(peaks_upto(s, h, p, n)[k2] == peak_at(s, n - 1));
                assert(peak_at(s, n - 1).index as int == n - 1);
                assert(prev[k1].index < n - 1);
            }
        }
    }
}

/// Stricter filters select fewer positions below `n`.
proof fn lemma_peaks_upto_count_monotone(
    s: Seq<i64>,
    h1: int,
    p1: int,
    h2: int,
    p2: int,
    n: int,
)
    requires
        h1 <= h2,
        p1 <= p2,
    ensures
        peaks_upto(s, h2, p2, n).len() <= peaks_upto(s, h1, p1, n).len(),
    decreases n,
{
    if n <= 1 {
    } else {
        lemma_peaks_upto_count_monotone(s, h1, p1, h2, p2, n - 1);
    }
}

/// The detector's result characterizes the qualifying positions exactly:
/// every returned record sits at an interior qualifying position and carries
/// the sample value and prominence of that position, and every qualifying
/// position is returned.
pub proof fn lemma_peaks_characterized(s: Seq<i64>, h: int, p: int)
    requires
        s.len() <= usize::MAX,
    ensures
        forall|k: int|
            0 <= k < peaks_of(s, h, p).len() ==> {
                let pk = #[trigger] peaks_of(s, h, p)[k];
                &&& 0 < pk.index < s.len() - 1
                &&& is_peak(s, h, p, pk.index as int)
                &&& pk == peak_at(s, pk.index as int)
            },
        forall|j: int|
            #[trigger] is_peak(s, h, p, j) ==> exists|k: int|
                0 <= k < peaks_of(s, h, p).len() && #[trigger] peaks_of(s, h, p)[k] == peak_at(
                    s,
                    j,
                ),
{
    lemma_peaks_upto_elems(s, h, p, s.len() - 1);
    lemma_peaks_upto_complete(s, h, p, s.len() - 1);
    let n = s.len() - 1;
    assert forall|j: int| #[trigger] is_peak(s, h, p, j) implies exists|k: int|
        0 <= k < peaks_of(s, h, p).len() && #[trigger] peaks_of(s, h, p)[k] == peak_at(s, j) by {
        assert(1 <= j < n);
        let k = choose|k: int|
            0 <= k < peaks_upto(s, h, p, n).len() && #[trigger] peaks_upto(s, h, p, n)[k]
                == peak_at(s, j);
        assert(peaks_of(s, h, p)[k] == peak_at(s, j));
    }
}

/// The detector reports peaks in strictly ascending index order: the ordering
/// of a peak list is an invariant of the scan, not an accident of input data.
pub proof fn lemma_peak_indices_sorted(s: Seq<i64>, h: int, p: int)
    requires
        s.len() <= usize::MAX,
    ensures
        forall|k1: int, k2: int|
            0 <= k1 < k2 < peaks_of(s, h, p).len() ==> #[trigger] peaks_of(s, h, p)[k1].index
                < #[trigger] peaks_of(s, h, p)[k2].index,
{
    lemma_peaks_upto_sorted(s, h, p, s.len() - 1);
}

/// Neither side of an exact plateau is ever reported as a peak: a sample
/// equal to its neighbor fails the strict local-maximum comparison on that
/// side, whatever the filters are.
pub proof fn lemma_plateau_never_peak(s: Seq<i64>, h: int, p: int, i: int)
    requires
        s.len() <= usize::MAX,
        0 <= i,
        i + 1 < s.len(),
        s[i] == s[i + 1],
    ensures
        forall|k: int|
            0 <= k < peaks_of(s, h, p).len() ==> #[trigger] peaks_of(s, h, p)[k].index as int != i
                && peaks_of(s, h, p)[k].index as int != i + 1,
{
    lemma_peaks_characterized(s, h, p);
    assert(!is_peak(s, h, p, i));
    assert(!is_peak(s, h, p, i + 1));
}

/// Raising either filter never increases the number of returned peaks, and
/// every peak returned under the stricter filters is also returned under the
/// looser ones.
pub proof fn lemma_threshold_monotone(s: Seq<i64>, h1: int, p1: int, h2: int, p2: int)
    requires
        s.len() <= usize::MAX,
        h1 <= h2,
        p1 <= p2,
    ensures
        peaks_of(s, h2, p2).len() <= peaks_of(s, h1, p1).len(),
        forall|k: int|
            0 <= k < peaks_of(s, h2, p2).len() ==> contains_peak(
                peaks_of(s, h1, p1),
                #[trigger] peaks_of(s, h2, p2)[k],
            ),
{
    lemma_peaks_upto_count_monotone(s, h1, p1, h2, p2, s.len() - 1);
    lemma_peaks_characterized(s, h2, p2);
    lemma_peaks_characterized(s, h1, p1);
    assert forall|k: int| 0 <= k < peaks_of(s, h2, p2).len() implies contains_peak(
        peaks_of(s, h1, p1),
        #[trigger] peaks_of(s, h2, p2)[k],
    ) by {
        let pk = peaks_of(s, h2, p2)[k];
        assert(is_peak(s, h2, p2, pk.index as int));
        assert(is_peak(s, h1, p1, pk.index as int));
        let k2 = choose|k2: int|
            0 <= k2 < peaks_of(s, h1, p1).len() && #[trigger] peaks_of(s, h1, p1)[k2] == peak_at(
                s,
                pk.index as int,
            );
        assert(peaks_of(s, h1, p1)[k2] == pk);
        assert(contains_peak(peaks_of(s, h1, p1), pk));
    }
}

/// A signal of fewer than three samples has no interior positions, so the
/// detector returns nothing whatever the filters are.
pub proof fn lemma_short_signal_no_peaks(s: Seq<i64>, h: int, p: int)
    requires
        s.len() < 3,
    ensures
        peaks_of(s, h, p) == Seq::<Peak>::empty(),
{
}

/// Re-invoking the detector on the same input yields identical output: any
/// two results that its contract admits for equal inputs are equal, because
/// the contract pins the result to a function of the input alone.
pub proof fn lemma_find_peaks_deterministic(
    s: Seq<i64>,
    h: int,
    p: int,
    r1: Seq<Peak>,
    r2: Seq<Peak>,
)
    requires
        r1 == peaks_of(s, h, p),
        r2 == peaks_of(s, h, p),
    ensures
        r1 == r2,
{
}

/// Re-invoking the maximum scan on the same input yields identical output:
/// its contract admits exactly one result for each input.
pub proof fn lemma_find_max_deterministic(
    s: Seq<i64>,
    r1: Option<(i64, usize)>,
    r2: Option<(i64, usize)>,
)
    requires
        is_max_result(s, r1),
        is_max_result(s, r2),
    ensures
        r1 == r2,
{
    match (r1, r2) {
        (Some((v1, i1)), Some((v2, i2))) => {
            assert(v1 == v2);
            if i1 < i2 {
                assert(s[i1 as int] < v2);
                assert(false);
            }
            if i2 < i1 {
                assert(s[i2 as int] < v1);
                assert(false);
            }
        },
        (None, None) => {},
        (Some(_), None) => {
            assert(false);
        },
        (None, Some(_)) => {
            assert(false);
        },
    }
}

/// Re-invoking the difference computation on the same input yields identical
/// output: its contract admits exactly one result for each input.
pub proof fn lemma_calc_diff_deterministic(s: Seq<i64>, r1: Seq<i64>, r2: Seq<i64>)
    requires
        is_diff_result(s, r1),
        is_diff_result(s, r2),
    ensures
        r1 == r2,
{
    assert(r1 =~= r2);
}

} // verus!
