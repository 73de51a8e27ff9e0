//! Peak detection with prominence scoring.
//!
//! A peak is an interior sample strictly greater than both of its immediate
//! neighbors. Its prominence is its height above the higher of the two valley
//! minima flanking it: the minimum over everything to its left and the minimum
//! over everything to its right (whole-array valleys; deliberately simpler
//! than full topographic prominence). The detector scans left to right, so the
//! returned peaks are ordered by ascending index.

use vstd::prelude::*;

verus! {

/// A detected peak: its position in the originating signal, the sample value
/// there, and its prominence.
#[derive(Clone, Copy, Debug, PartialEq, Eq, Structural)]
pub struct Peak {
    pub index: usize,
    pub value: i64,
    pub prominence: i64,
}

/// Whether `v` fits in a signed 64-bit sample.
pub open spec fn fits_i64(v: int) -> bool {
    i64::MIN <= v <= i64::MAX
}

/// Whether the difference of any two samples of `s` fits in a sample. This is
/// the machine-width condition under which prominences are representable.
pub open spec fn diffs_fit(s: Seq<i64>) -> bool {
    forall|i: int, j: int|
        0 <= i < s.len() && 0 <= j < s.len() ==> fits_i64(#[trigger] s[i] - #[trigger] s[j])
}

/// The minimum value of a non-empty sequence of samples.
pub open spec fn min_of(s: Seq<i64>) -> int
    recommends
        s.len() > 0,
    decreases s.len(),
{
    if s.len() <= 1 {
        s[0] as int
    } else if s.last() < min_of(s.drop_last()) {
        s.last() as int
    } else {
        min_of(s.drop_last())
    }
}

/// The prominence of the sample at interior position `i`: its height above
/// the higher of the left valley (minimum over `s[0..i]`) and the right
/// valley (minimum over `s[i+1..]`).
pub open spec fn prom_of(s: Seq<i64>, i: int) -> int
    recommends
        0 < i < s.len() - 1,
{
    let left = min_of(s.subrange(0, i));
    let right = min_of(s.subrange(i + 1, s.len() as int));
    s[i] - if left >= right {
        left
    } else {
        right
    }
}

/// Whether position `i` of `s` qualifies as a peak under the given filters:
/// an interior strict local maximum, at least `min_height` tall, with
/// prominence at least `min_prominence`. Boundary positions never qualify,
/// and neither side of an exact plateau does (the inequalities are strict).
pub open spec fn is_peak(s: Seq<i64>, min_height: int, min_prominence: int, i: int) -> bool {
    &&& 0 < i < s.len() - 1
    &&& s[i] > s[i - 1]
    &&& s[i] > s[i + 1]
    &&& s[i] >= min_height
    &&& prom_of(s, i) >= min_prominence
}

/// The peak record for position `i` of `s`.
pub open spec fn peak_at(s: Seq<i64>, i: int) -> Peak
    recommends
        0 < i < s.len() - 1,
{
    Peak { index: i as usize, value: s[i], prominence: prom_of(s, i) as i64 }
}

/// The peaks of `s` whose index is below `n`, in ascending index order.
pub open spec fn peaks_upto(s: Seq<i64>, min_height: int, min_prominence: int, n: int) -> Seq<
    Peak,
>
    decreases n,
{
    if n <= 1 {
        Seq::empty()
    } else if is_peak(s, min_height, min_prominence, n - 1) {
        peaks_upto(s, min_height, min_prominence, n - 1).push(peak_at(s, n - 1))
    } else {
        peaks_upto(s, min_height, min_prominence, n - 1)
    }
}

/// All peaks of `s` under the given filters, in ascending index order.
pub open spec fn peaks_of(s: Seq<i64>, min_height: int, min_prominence: int) -> Seq<Peak> {
    peaks_upto(s, min_height, min_prominence, s.len() - 1)
}

/// The effective height filter: absent means no filter, which over samples is
/// the least representable value.
pub open spec fn effective_height(min_height: Option<i64>) -> int {
    match min_height {
        Some(h) => h as int,
        None => i64::MIN as int,
    }
}

/// The effective prominence filter: absent means zero.
pub open spec fn effective_prominence(min_prominence: Option<i64>) -> int {
    match min_prominence {
        Some(p) => p as int,
        None => 0,
    }
}

/// Compute the prominence of the sample at interior position `peak_idx`:
/// scan the minimum to its left and to its right, and subtract the higher of
/// the two from the sample.
pub fn calc_prominence(data: &Vec<i64>, peak_idx: usize) -> (r: i64)
    requires
        0 < peak_idx < data@.len() - 1,
        diffs_fit(data@),
    ensures
        r as int == prom_of(data@, peak_idx as int),
{
    let mut left_min: i64 = data[0];
    let mut i: usize = 1;
    proof {
        assert(data@.subrange(0, 1) =~= seq![data@[0]]);
    }
    while i < peak_idx
        invariant
            0 < peak_idx < data@.len() - 1,
            1 <= i <= peak_idx,
            left_min as int == min_of(data@.subrange(0, i as int)),
            exists|k: int| 0 <= k < data@.len() && data@[k] == left_min,
        decreases peak_idx - i,
    {
        proof {
            let pre = data@.subrange(0, i as int);
            let post = data@.subrange(0, i as int + 1);
            assert(post.drop_last() =~= pre);
            assert(post.last() == data@[i as int]);
        }
        if data[i] < left_min {
            left_min = data[i];
        }
        i = i + 1;
    }
    let n: usize = data.len();
    let mut right_min: i64 = data[peak_idx + 1];
    let mut j: usize = peak_idx + 2;
    proof {
        assert(data@.subrange(peak_idx as int + 1, peak_idx as int + 2) =~= seq![
            data@[peak_idx as int + 1],
        ]);
    }
    while j < data.len()
        invariant
            0 < peak_idx < data@.len() - 1,
            peak_idx + 2 <= j <= data@.len(),
            right_min as int == min_of(data@.subrange(peak_idx as int + 1, j as int)),
            exists|k: int| 0 <= k < data@.len() && data@[k] == right_min,
        decreases data@.len() - j,
    {
        proof {
            let pre = data@.subrange(peak_idx as int + 1, j as int);
            let post = data@.subrange(peak_idx as int + 1, j as int + 1);
            assert(post.drop_last() =~= pre);
            assert(post.last() == data@[j as int]);
        }
        if data[j] < right_min {
            right_min = data[j];
        }
        j = j + 1;
    }
    let higher_valley: i64 = if left_min >= right_min {
        left_min
    } else {
        right_min
    };
    proof {
        let k = choose|k: int| 0 <= k < data@.len() && data@[k] == higher_valley;
        assert(fits_i64(data@[peak_idx as int] - data@[k]));
    }
    data[peak_idx] - higher_valley
}

/// Scan `data` for peaks under the given filters. The result holds exactly
/// the qualifying positions, in ascending index order, each with its sample
/// value and prominence. A signal of fewer than three samples has no interior
/// positions and yields an empty result.
pub fn find_peaks_impl(data: &Vec<i64>, min_height: i64, min_prominence: i64) -> (r: Vec<Peak>)
    requires
        diffs_fit(data@),
    ensures
        r@ == peaks_of(data@, min_height as int, min_prominence as int),
        data@.len() < 3 ==> r@.len() == 0,
{
    let mut peaks: Vec<Peak> = Vec::new();
    if data.len() < 3 {
        proof {
            assert(peaks_of(data@, min_height as int, min_prominence as int) =~= Seq::<
                Peak,
            >::empty());
        }
        return peaks;
    }
    let mut i: usize = 1;
    while i < data.len() - 1
        invariant
            3 <= data@.len(),
            1 <= i <= data@.len() - 1,
            diffs_fit(data@),
            peaks@ == peaks_upto(data@, min_height as int, min_prominence as int, i as int),
        decreases data@.len() - 1 - i,
    {
        if data[i] > data[i - 1] && data[i] > data[i + 1] && data[i] >= min_height {
            let prominence = calc_prominence(data, i);
            if prominence >= min_prominence {
                peaks.push(Peak { index: i, value: data[i], prominence });
                proof {
                    assert(is_peak(data@, min_height as int, min_prominence as int, i as int));
                    assert(peaks@.last() == peak_at(data@, i as int));
                    assert(peaks@ =~= peaks_upto(
                        data@,
                        min_height as int,
                        min_prominence as int,
                        i as int + 1,
                    ));
                }
            } else {
                proof {
                    assert(!is_peak(data@, min_height as int, min_prominence as int, i as int));
                }
            }
        }
        i = i + 1;
    }
    peaks
}

/// Detect peaks in a signal. `min_height` rejects candidates whose sample is
/// below it (absent: no height filter); `min_prominence` rejects candidates
/// whose prominence is below it (absent: zero). The two filters combine with
/// logical AND.
pub fn find_peaks(data: &Vec<i64>, min_height: Option<i64>, min_prominence: Option<i64>) -> (r:
    Vec<Peak>)
    requires
        diffs_fit(data@),
    ensures
        r@ == peaks_of(data@, effective_height(min_height), effective_prominence(min_prominence)),
        data@.len() < 3 ==> r@.len() == 0,
{
    let height = match min_height {
        Some(h) => h,
        None => i64::MIN,
    };
    let prominence = match min_prominence {
        Some(p) => p,
        None => 0,
    };
    find_peaks_impl(data, height, prominence)
}

} // verus!
