use sci_file_viewer::{chart_target_points, downsample_indices};

/// Bucket edges as the chart computes them: in floating point, truncated.
fn edges(n: usize, target: usize) -> Vec<usize> {
    if target < 2 || n < 2 {
        return Vec::new();
    }
    let size = (n - 2) as f64 / (target - 2) as f64;
    (0..target - 1).map(|k| (1.0 + k as f64 * size) as usize).collect()
}

fn down(ys: &Vec<i64>, target: usize) -> Vec<usize> {
    downsample_indices(ys, target, &edges(ys.len(), target))
}

#[test]
fn short_series_is_kept_whole() {
    let ys = vec![3, 1, 2];
    assert_eq!(down(&ys, 3), vec![0, 1, 2]);
    assert_eq!(down(&ys, 50), vec![0, 1, 2]);
    assert_eq!(downsample_indices(&Vec::new(), 0, &Vec::new()), Vec::<usize>::new());
}

#[test]
fn buckets_keep_extrema_in_order() {
    let ys = vec![0, 5, 1, 9, 2, 3, 8, 0];
    assert_eq!(edges(8, 4), vec![1, 4, 7]);
    assert_eq!(down(&ys, 4), vec![0, 2, 3, 4, 6, 7]);
}

#[test]
fn flat_bucket_gives_one_point() {
    let ys = vec![1, 7, 7, 7, 7, 7, 7, 2];
    assert_eq!(down(&ys, 4), vec![0, 1, 4, 7]);
}

#[test]
fn max_before_min_is_emitted_first() {
    let ys = vec![0, 9, 5, -4, 1, 1, 1, 0];
    assert_eq!(down(&ys, 4), vec![0, 1, 3, 4, 7]);
}

#[test]
fn first_and_last_always_kept() {
    let ys: Vec<i64> = (0..1000).map(|i| (i * 37 % 101) as i64).collect();
    let r = down(&ys, 50);
    assert_eq!(r[0], 0);
    assert_eq!(*r.last().unwrap(), 999);
    assert!(r.len() <= 2 * 48 + 2);
    assert!(r.windows(2).all(|w| w[0] < w[1]));
}

#[test]
fn target_of_two_keeps_ends() {
    let ys = vec![4, 8, 1, 6];
    assert_eq!(down(&ys, 2), vec![0, 3]);
}

#[test]
fn floating_point_edges_decide_buckets() {
    let e = edges(210, 50);
    assert_eq!(e[27], 117);
    let ys = vec![0i64; 210];
    let r = down(&ys, 50);
    assert!(r.contains(&117));
    assert!(!r.contains(&118));
}

#[test]
fn empty_buckets_are_skipped() {
    let ys = vec![5, 1, 2, 3, 4, 0];
    let r = downsample_indices(&ys, 5, &vec![1, 3, 3, 5]);
    assert_eq!(r, vec![0, 1, 2, 3, 4, 5]);
    let r = downsample_indices(&ys, 5, &vec![1, 1, 1, 5]);
    assert_eq!(r, vec![0, 1, 4, 5]);
}

#[test]
fn target_points_from_width() {
    assert_eq!(chart_target_points(100), 176);
    assert_eq!(chart_target_points(20), 50);
    assert_eq!(chart_target_points(0), 50);
    assert_eq!(chart_target_points(38), 52);
}
