use oxideplot::processing::downsampling::{
    downsample_for_view, gather_values, is_non_decreasing, lttb_downsample, lttb_select,
    partition_below, partition_through, visible_range,
};

fn units(values: &[i64]) -> Vec<i64> {
    values.iter().map(|v| v * 1_000_000).collect()
}

#[test]
fn lttb_zigzag_to_four_points() {
    let x: Vec<i64> = units(&[0, 1, 2, 3, 4, 5, 6, 7, 8, 9]);
    let y: Vec<i64> = units(&[0, 1, 0, 1, 0, 1, 0, 1, 0, 1]);
    let (ox, oy) = lttb_downsample(&x, &y, 4);
    assert_eq!(ox.len(), 4);
    assert_eq!(oy.len(), 4);
    assert_eq!((ox[0], oy[0]), (0, 0));
    assert_eq!((ox[3], oy[3]), (9_000_000, 1_000_000));
}

#[test]
fn lttb_zigzag_picks_first_of_equal_areas() {
    let x: Vec<i64> = (0..10).collect();
    let y: Vec<i64> = vec![0, 1, 0, 1, 0, 1, 0, 1, 0, 1];
    assert_eq!(lttb_select(&x, &y, 4), vec![0, 1, 6, 9]);
    assert_eq!(lttb_downsample(&x, &y, 4), (vec![0, 1, 6, 9], vec![0, 1, 0, 1]));
}

#[test]
fn lttb_identity_when_short() {
    let x: Vec<i64> = vec![1, 2, 3];
    let y: Vec<i64> = vec![4, 5, 6];
    assert_eq!(lttb_downsample(&x, &y, 3), (x.clone(), y.clone()));
    assert_eq!(lttb_downsample(&x, &y, 10), (x.clone(), y.clone()));
}

#[test]
fn lttb_identity_when_target_below_three() {
    let x: Vec<i64> = vec![1, 2, 3, 4, 5];
    let y: Vec<i64> = vec![4, 5, 6, 7, 8];
    assert_eq!(lttb_downsample(&x, &y, 2), (x.clone(), y.clone()));
    assert_eq!(lttb_downsample(&x, &y, 0), (x.clone(), y.clone()));
    assert_eq!(lttb_select(&x, &y, 1), vec![0, 1, 2, 3, 4]);
}

#[test]
fn lttb_empty_input() {
    let empty: Vec<i64> = Vec::new();
    assert_eq!(lttb_downsample(&empty, &empty, 5), (Vec::new(), Vec::new()));
}

#[test]
fn lttb_picks_the_spike() {
    let x: Vec<i64> = (0..7).collect();
    let y: Vec<i64> = vec![0, 0, 9, 0, 0, 0, 0];
    assert_eq!(lttb_select(&x, &y, 3), vec![0, 2, 6]);
}

#[test]
fn lttb_shape_on_a_long_series() {
    let n: i64 = 1000;
    let x: Vec<i64> = (0..n).map(|i| i * 1_000_000).collect();
    let y: Vec<i64> = (0..n).map(|i| ((i * 7919) % 1013 - 500) * 1_000).collect();
    for target in [3usize, 4, 10, 50, 999, 1000] {
        let idx = lttb_select(&x, &y, target);
        assert_eq!(idx.len(), target);
        assert_eq!(idx[0], 0);
        assert_eq!(idx[target - 1], 999);
        for w in idx.windows(2) {
            assert!(w[0] < w[1]);
        }
        let (ox, oy) = lttb_downsample(&x, &y, target);
        assert_eq!(ox, gather_values(&x, &idx));
        assert_eq!(oy, gather_values(&y, &idx));
    }
}

#[test]
fn lttb_each_bucket_gives_one_point() {
    // 12 points to 5: the ten inner points fall into buckets 1..4, 4..7, 7..11.
    let x: Vec<i64> = (0..12).collect();
    let y: Vec<i64> = vec![0, 5, 0, 0, 0, 0, 8, 0, 0, 0, 3, 0];
    let idx = lttb_select(&x, &y, 5);
    assert_eq!(idx.len(), 5);
    assert!((1..4).contains(&idx[1]));
    assert!((4..7).contains(&idx[2]));
    assert!((7..11).contains(&idx[3]));
    assert_eq!(idx, vec![0, 1, 6, 7, 11]);
}

#[test]
fn lttb_handles_extreme_finite_values() {
    let big: i64 = 4_000_000_000_000_000_000;
    let x: Vec<i64> = vec![-big, -1, 0, 1, big];
    let y: Vec<i64> = vec![big, -big, big, -big, big];
    let idx = lttb_select(&x, &y, 3);
    assert_eq!(idx.len(), 3);
    assert_eq!(idx[0], 0);
    assert_eq!(idx[2], 4);
}

#[test]
fn sortedness_check() {
    assert!(is_non_decreasing(&[]));
    assert!(is_non_decreasing(&[5]));
    assert!(is_non_decreasing(&[1, 1, 2, 3]));
    assert!(!is_non_decreasing(&[1, 3, 2]));
}

#[test]
fn partition_points() {
    let x: Vec<i64> = vec![0, 10, 10, 20, 30];
    assert_eq!(partition_below(&x, 10), 1);
    assert_eq!(partition_through(&x, 10), 3);
    assert_eq!(partition_below(&x, -1), 0);
    assert_eq!(partition_through(&x, 30), 5);
    assert_eq!(partition_below(&x, 31), 5);
}

#[test]
fn visible_range_pads_one_point_each_side() {
    let x: Vec<i64> = vec![0, 10, 20, 30, 40, 50];
    assert_eq!(visible_range(&x, 15, 35), (1, 5));
    assert_eq!(visible_range(&x, -5, 100), (0, 6));
    assert_eq!(visible_range(&x, 20, 20), (1, 4));
    assert_eq!(visible_range(&x, 60, 70), (5, 6));
    assert_eq!(visible_range(&x, -20, -10), (0, 1));
}

#[test]
fn visible_range_moves_forward_with_the_window() {
    let x: Vec<i64> = (0..200).map(|i| i * 3).collect();
    let mut last = (0usize, 0usize);
    for step in 0..120 {
        let lo = step * 5 - 50;
        let hi = lo + 40 + step;
        let r = visible_range(&x, lo, hi);
        assert!(r.0 >= last.0);
        assert!(r.1 >= last.1);
        assert!(r.0 <= r.1);
        if r.0 > 0 || x[0] < lo {
            assert!(x[r.0] < lo || x.iter().all(|v| *v >= lo));
        }
        last = r;
    }
}

#[test]
fn downsample_for_view_sorted_keeps_padding() {
    let x: Vec<i64> = vec![0, 10, 20, 30, 40, 50];
    let y: Vec<i64> = vec![1, 2, 3, 4, 5, 6];
    let (ox, oy) = downsample_for_view(&x, &y, 15, 35, 100);
    assert_eq!(ox, vec![10, 20, 30, 40]);
    assert_eq!(oy, vec![2, 3, 4, 5]);
}

#[test]
fn downsample_for_view_unsorted_filters() {
    let x: Vec<i64> = vec![5, 1, 9, 3];
    let y: Vec<i64> = vec![50, 10, 90, 30];
    let (ox, oy) = downsample_for_view(&x, &y, 2, 6, 100);
    assert_eq!(ox, vec![5, 3]);
    assert_eq!(oy, vec![50, 30]);
}

#[test]
fn downsample_for_view_reduces_long_slices() {
    let x: Vec<i64> = (0..100).collect();
    let y: Vec<i64> = (0..100).map(|i| (i % 7) * 3).collect();
    let (ox, oy) = downsample_for_view(&x, &y, 10, 60, 5);
    assert_eq!(ox.len(), 5);
    assert_eq!(oy.len(), 5);
    assert_eq!(ox[0], 9);
    assert_eq!(ox[4], 61);
}

#[test]
fn downsample_for_view_empty() {
    let empty: Vec<i64> = Vec::new();
    assert_eq!(downsample_for_view(&empty, &empty, 0, 1, 10), (Vec::new(), Vec::new()));
}
