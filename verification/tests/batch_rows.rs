use saxs::batch::find_peaks_batch;
use saxs::peaks::find_peaks;
use saxs::peaks::Peak;

#[test]
fn batch_matches_per_row_calls() {
    let rows: Vec<Vec<i64>> = vec![
        vec![1, 3, 2, 5, 0],
        vec![0, 0, 0, 0, 0],
        vec![5, 4, 3, 2, 1],
        vec![0, 9, 0, 9, 0],
        vec![-3, -1, -2, -1, -3],
        vec![2, 7, 1, 4, 3],
        vec![1, 2, 3, 4, 5],
        vec![9, 1, 8, 1, 9],
    ];
    let batch = find_peaks_batch(&rows, None, None);
    assert_eq!(batch.len(), rows.len());
    for (k, row) in rows.iter().enumerate() {
        assert_eq!(batch[k], find_peaks(row, None, None));
    }
}

#[test]
fn batch_preserves_row_order_with_filters() {
    let rows: Vec<Vec<i64>> = vec![
        vec![0, 3, 0, 5, 0],
        vec![0, 5, 0, 3, 0],
        vec![0, 1, 0, 1, 0],
    ];
    let batch = find_peaks_batch(&rows, Some(4), None);
    assert_eq!(batch[0], vec![Peak { index: 3, value: 5, prominence: 5 }]);
    assert_eq!(batch[1], vec![Peak { index: 1, value: 5, prominence: 5 }]);
    assert_eq!(batch[2], Vec::<Peak>::new());
}

#[test]
fn batch_of_no_rows_is_empty() {
    let rows: Vec<Vec<i64>> = vec![];
    assert_eq!(find_peaks_batch(&rows, None, None), Vec::<Vec<Peak>>::new());
}

#[test]
fn batch_is_idempotent() {
    let rows: Vec<Vec<i64>> = vec![vec![1, 3, 2], vec![0, 2, 0, 2, 0]];
    assert_eq!(
        find_peaks_batch(&rows, None, Some(1)),
        find_peaks_batch(&rows, None, Some(1))
    );
}

#[test]
fn many_rows_keep_order_under_parallelism() {
    // Rows whose single peak encodes the row number, so any reordering by
    // worker completion would be visible in the gathered output.
    let mut rows: Vec<Vec<i64>> = Vec::new();
    for k in 0..64i64 {
        rows.push(vec![0, k + 1, 0]);
    }
    let batch = find_peaks_batch(&rows, None, None);
    assert_eq!(batch.len(), 64);
    for (k, row_peaks) in batch.iter().enumerate() {
        assert_eq!(
            row_peaks,
            &vec![Peak { index: 1, value: k as i64 + 1, prominence: k as i64 + 1 }]
        );
    }
}
