//! Single-pass linear reductions shared by the simple buffer operations and
//! the peak detector: maximum with first-occurrence index, and first
//! differences of consecutive samples.

use vstd::prelude::*;

verus! {

/// What `find_max` returns for the signal `s`: no result exactly on an empty
/// signal, otherwise the maximum sample together with the smallest position
/// holding it (every sample is at most the result, and everything strictly
/// before the reported position is strictly below it).
pub open spec fn is_max_result(s: Seq<i64>, r: Option<(i64, usize)>) -> bool {
    match r {
        None => s.len() == 0,
        Some((v, idx)) => {
            &&& s.len() > 0
            &&& 0 <= idx < s.len()
            &&& s[idx as int] == v
            &&& forall|i: int| 0 <= i < s.len() ==> s[i] <= v
            &&& forall|i: int| 0 <= i < idx as int ==> s[i] < v
        },
    }
}

/// What `calc_diff` returns for the signal `s`: the discrete derivative, one
/// element shorter than the signal, with element `i` equal to
/// `s[i + 1] - s[i]`; empty when the signal has fewer than two samples.
pub open spec fn is_diff_result(s: Seq<i64>, r: Seq<i64>) -> bool {
    &&& r.len() == if s.len() < 2 {
        0int
    } else {
        s.len() - 1
    }
    &&& forall|i: int| 0 <= i < r.len() ==> #[trigger] r[i] as int == s[i + 1] - s[i]
}

/// Find the maximum value in a signal together with the index of its first
/// occurrence. An empty signal has no maximum, which is reported explicitly
/// as `None` rather than as a sentinel value.
pub fn find_max(data: &Vec<i64>) -> (r: Option<(i64, usize)>)
    ensures
        is_max_result(data@, r),
        r is Some <==> data@.len() > 0,
{
    if data.len() == 0 {
        return None;
    }
    let mut max_val: i64 = data[0];
    let mut max_idx: usize = 0;
    let mut i: usize = 1;
    while i < data.len()
        invariant
            1 <= i <= data@.len(),
            0 <= max_idx < i,
            data@[max_idx as int] == max_val,
            forall|j: int| 0 <= j < i ==> data@[j] <= max_val,
            forall|j: int| 0 <= j < max_idx ==> data@[j] < max_val,
        decreases data@.len() - i,
    {
        if data[i] > max_val {
            max_val = data[i];
            max_idx = i;
        }
        i = i + 1;
    }
    Some((max_val, max_idx))
}

/// Compute the differences between consecutive samples: element `i` of the
/// result is `data[i + 1] - data[i]`. A signal of fewer than two samples
/// yields an empty result rather than an error.
pub fn calc_diff(data: &Vec<i64>) -> (r: Vec<i64>)
    requires
        forall|i: int|
            0 < i < data@.len() ==> i64::MIN <= #[trigger] data@[i] - data@[i - 1] <= i64::MAX,
    ensures
        is_diff_result(data@, r@),
{
    let mut out: Vec<i64> = Vec::new();
    if data.len() < 2 {
        return out;
    }
    let mut i: usize = 0;
    while i < data.len() - 1
        invariant
            2 <= data@.len(),
            0 <= i <= data@.len() - 1,
            out@.len() == i,
            forall|j: int| 0 <= j < i ==> #[trigger] out@[j] as int == data@[j + 1] - data@[j],
            forall|j: int|
                0 < j < data@.len() ==> i64::MIN <= #[trigger] data@[j] - data@[j - 1] <= i64::MAX,
        decreases data@.len() - 1 - i,
    {
        out.push(data[i + 1] - data[i]);
        i = i + 1;
    }
    out
}

} // verus!
