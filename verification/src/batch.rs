//! Row-parallel batch peak detection.
//!
//! Each row of a two-dimensional input is an independent signal; the detector
//! runs on every row, rows may be processed concurrently, and the results are
//! gathered back in original row order, never in completion order.

use rayon::iter::IndexedParallelIterator;
use rayon::iter::IntoParallelRefIterator;
use rayon::iter::ParallelIterator;
use vstd::prelude::*;

use crate::peaks::diffs_fit;
use crate::peaks::effective_height;
use crate::peaks::effective_prominence;
use crate::peaks::find_peaks_impl;
use crate::peaks::peaks_of;
use crate::peaks::Peak;

verus! {

/// Relies on rayon's `par_iter`, `map` and `collect_into_vec`: a parallel map
/// over a slice is an indexed parallel iterator, and collecting an indexed
/// parallel iterator places each result at its input's position, so the
/// output keeps row order regardless of which worker finishes first. The
/// closure only calls the verified detector, whose contract gives each
/// element of the result.
#[verifier::external_body]
fn par_map_find_peaks(rows: &Vec<Vec<i64>>, min_height: i64, min_prominence: i64) -> (r: Vec<
    Vec<Peak>,
>)
    requires
        forall|k: int| 0 <= k < rows@.len() ==> diffs_fit(#[trigger] rows@[k]@),
    ensures
        r@.len() == rows@.len(),
        forall|k: int|
            0 <= k < rows@.len() ==> (#[trigger] r@[k])@ == peaks_of(
                rows@[k]@,
                min_height as int,
                min_prominence as int,
            ),
{
    let mut out: Vec<Vec<Peak>> = Vec::new();
    rows.par_iter().map(|row| find_peaks_impl(row, min_height, min_prominence)).collect_into_vec(
        &mut out,
    );
    out
}

/// Detect peaks in every row of a two-dimensional input. Rows are processed
/// independently, possibly in parallel, and the result holds one peak list
/// per row, at the row's original position: entry `k` is exactly what
/// `find_peaks` returns for row `k`. The optional filters apply to every row
/// alike.
pub fn find_peaks_batch(
    rows: &Vec<Vec<i64>>,
    min_height: Option<i64>,
    min_prominence: Option<i64>,
) -> (r: Vec<Vec<Peak>>)
    requires
        forall|k: int| 0 <= k < rows@.len() ==> diffs_fit(#[trigger] rows@[k]@),
    ensures
        r@.len() == rows@.len(),
        forall|k: int|
            0 <= k < rows@.len() ==> (#[trigger] r@[k])@ == peaks_of(
                rows@[k]@,
                effective_height(min_height),
                effective_prominence(min_prominence),
            ),
{
    let height = match min_height {
        Some(h) => h,
        None => i64::MIN,
    };
    let prominence = match min_prominence {
        Some(p) => p,
        None => 0,
    };
    par_map_find_peaks(rows, height, prominence)
}

} // verus!
