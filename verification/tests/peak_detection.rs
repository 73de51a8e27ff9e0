use saxs::peaks::calc_prominence;
use saxs::peaks::find_peaks;
use saxs::peaks::find_peaks_impl;
use saxs::peaks::Peak;

#[test]
fn single_peak_with_prominence() {
    // Left valley is 1, right valley is 2; the higher valley is 2, so the
    // prominence is 3 - 2 = 1.
    let data: Vec<i64> = vec![1, 3, 2];
    let peaks = find_peaks(&data, None, None);
    assert_eq!(peaks, vec![Peak { index: 1, value: 3, prominence: 1 }]);
}

#[test]
fn prominence_uses_higher_valley() {
    let data: Vec<i64> = vec![0, 2, 2, 1, 5, 0];
    // Only index 4 is a strict local maximum; both flanking minima are 0.
    let peaks = find_peaks(&data, None, None);
    assert_eq!(peaks, vec![Peak { index: 4, value: 5, prominence: 5 }]);
    assert_eq!(calc_prominence(&data, 4), 5);
}

#[test]
fn short_signals_have_no_peaks() {
    assert_eq!(find_peaks(&vec![], None, None), Vec::<Peak>::new());
    assert_eq!(find_peaks(&vec![9], None, None), Vec::<Peak>::new());
    assert_eq!(find_peaks(&vec![9, 9], None, None), Vec::<Peak>::new());
}

#[test]
fn boundaries_are_never_peaks() {
    let data: Vec<i64> = vec![5, 1, 5];
    assert_eq!(find_peaks(&data, None, None), Vec::<Peak>::new());
}

#[test]
fn plateau_is_never_a_peak() {
    let data: Vec<i64> = vec![1, 3, 3, 1];
    assert_eq!(find_peaks(&data, None, None), Vec::<Peak>::new());
}

#[test]
fn plateau_sides_excluded_but_real_peaks_kept() {
    let data: Vec<i64> = vec![0, 2, 2, 1, 5, 0];
    let peaks = find_peaks(&data, None, None);
    for p in &peaks {
        assert_ne!(p.index, 1);
        assert_ne!(p.index, 2);
    }
    assert_eq!(peaks.len(), 1);
}

#[test]
fn min_height_filters_low_peaks() {
    let data: Vec<i64> = vec![0, 3, 0, 5, 0];
    let all = find_peaks(&data, None, None);
    assert_eq!(
        all,
        vec![
            Peak { index: 1, value: 3, prominence: 3 },
            Peak { index: 3, value: 5, prominence: 5 },
        ]
    );
    let tall = find_peaks(&data, Some(4), None);
    assert_eq!(tall, vec![Peak { index: 3, value: 5, prominence: 5 }]);
}

#[test]
fn min_prominence_filters_shallow_peaks() {
    let data: Vec<i64> = vec![0, 3, 2, 5, 0];
    // Index 1: valleys 0 and 0, prominence 3. Index 3: valleys 0 and 0,
    // prominence 5.
    let shallow = find_peaks(&data, None, Some(4));
    assert_eq!(shallow, vec![Peak { index: 3, value: 5, prominence: 5 }]);
}

#[test]
fn raising_thresholds_never_adds_peaks() {
    let data: Vec<i64> = vec![0, 4, 1, 6, 2, 3, 1, 8, 0];
    let mut last_height_count = usize::MAX;
    for h in [-10i64, 0, 3, 5, 7, 9] {
        let n = find_peaks(&data, Some(h), None).len();
        assert!(n <= last_height_count);
        last_height_count = n;
    }
    let mut last_prom_count = usize::MAX;
    for p in [0i64, 2, 4, 6, 8, 10] {
        let n = find_peaks(&data, None, Some(p)).len();
        assert!(n <= last_prom_count);
        last_prom_count = n;
    }
}

#[test]
fn peaks_are_sorted_by_index() {
    let data: Vec<i64> = vec![0, 4, 1, 6, 2, 3, 1, 8, 0];
    let peaks = find_peaks(&data, None, None);
    for w in peaks.windows(2) {
        assert!(w[0].index < w[1].index);
    }
}

#[test]
fn default_filters_match_explicit_defaults() {
    let data: Vec<i64> = vec![0, 4, 1, 6, 2];
    assert_eq!(find_peaks(&data, None, None), find_peaks_impl(&data, i64::MIN, 0));
}

#[test]
fn negative_prominence_threshold_keeps_all() {
    let data: Vec<i64> = vec![1, 3, 2];
    assert_eq!(find_peaks(&data, None, Some(-5)).len(), 1);
}

#[test]
fn find_peaks_is_idempotent() {
    let data: Vec<i64> = vec![0, 4, 1, 6, 2, 3, 1, 8, 0];
    assert_eq!(find_peaks(&data, Some(2), Some(1)), find_peaks(&data, Some(2), Some(1)));
}
