use zeno_core::engine::arrow_ops::{present_values, scan_present, shift_nullable_column};
use zeno_core::engine::window::{
    compute_rolling_stat, compute_single_lag, create_lags_for, WindowError, WindowOp,
};

fn ramp() -> Vec<f64> {
    (0..20).map(|i| 10.0 + i as f64 * 0.5).collect()
}

fn mean(s: &[f64]) -> f64 {
    s.iter().sum::<f64>() / s.len() as f64
}

#[test]
fn lag_one_prefix_matches_documented_example() {
    let values = ramp();
    let op = WindowOp::new(vec![1, 7, 14], None);
    let lags = op.create_lags(&values);
    assert_eq!(lags.len(), 3);
    assert_eq!(lags[0][..5].to_vec(), vec![None, Some(10.0), Some(10.5), Some(11.0), Some(11.5)]);
    assert!(lags[1][..7].iter().all(|v| v.is_none()));
    assert_eq!(lags[1][7], Some(10.0));
    assert_eq!(lags[2][14], Some(10.0));
    assert_eq!(lags[2][19], Some(12.5));
}

#[test]
fn lags_keep_series_length() {
    let values = vec![1.0, 2.0, 3.0, 4.0];
    assert_eq!(compute_single_lag(&values, 2), vec![None, None, Some(1.0), Some(2.0)]);
    assert_eq!(compute_single_lag(&values, 0), vec![Some(1.0), Some(2.0), Some(3.0), Some(4.0)]);
    assert_eq!(compute_single_lag(&values, 9), vec![None, None, None, None]);
    let empty: Vec<f64> = Vec::new();
    assert!(compute_single_lag(&empty, 1).is_empty());
}

#[test]
fn lag_matrix_has_one_row_per_lag() {
    let values = vec![5i64, 6, 7];
    let m = create_lags_for(&values, &[0, 1, 3]);
    assert_eq!(m, vec![
        vec![Some(5), Some(6), Some(7)],
        vec![None, Some(5), Some(6)],
        vec![None, None, None],
    ]);
    assert!(create_lags_for(&values, &[]).is_empty());
}

#[test]
fn rolling_mean_aligns_to_window_end() {
    let values = ramp();
    let rolling = compute_rolling_stat(&values, 7, mean);
    assert_eq!(rolling.len(), 20);
    assert!(rolling[..6].iter().all(|v| v.is_none()));
    assert_eq!(rolling[6], Some(11.5));
    assert_eq!(rolling[9], Some(13.0));
}

#[test]
fn rolling_window_longer_than_series_gives_nothing() {
    let values = vec![1.0, 2.0];
    let rolling = compute_rolling_stat(&values, 3, mean);
    assert_eq!(rolling, vec![None, None]);
    let full = compute_rolling_stat(&values, 1, mean);
    assert_eq!(full, vec![Some(1.0), Some(2.0)]);
}

#[test]
fn weighted_average_fills_last_position() {
    let op = WindowOp::new(vec![1], Some(vec![3]));
    let values = vec![1.0, 2.0, 3.0];
    let weights = vec![1.0, 1.0, 2.0];
    let r = op
        .weighted_moving_average(&values, &weights, |v: &[f64], w: &[f64]| {
            let s: f64 = v.iter().zip(w).map(|(a, b)| a * b).sum();
            s / w.iter().sum::<f64>()
        })
        .unwrap();
    assert_eq!(r, vec![None, None, Some(2.25)]);
}

#[test]
fn weighted_average_refuses_mismatched_lengths() {
    let op = WindowOp::new(vec![], None);
    let r = op.weighted_moving_average(&[1.0, 2.0], &[1.0], |_: &[f64], _: &[f64]| 0.0);
    assert_eq!(r, Err(WindowError::LengthMismatch));
}

#[test]
fn window_op_keeps_its_configuration() {
    let op = WindowOp::new(vec![1, 2], None);
    assert_eq!(op.lags(), &vec![1, 2]);
    assert!(op.rolling_windows().is_empty());
    let op = WindowOp::new(vec![], Some(vec![7, 30]));
    assert_eq!(op.rolling_windows(), &vec![7, 30]);
}

#[test]
fn nullable_shift_prefixes_nulls() {
    let values = vec![Some(1.0), None, Some(3.0), Some(4.0)];
    assert_eq!(shift_nullable_column(&values, 1), vec![None, Some(1.0), None, Some(3.0)]);
    assert_eq!(shift_nullable_column(&values, 0), values);
    assert_eq!(shift_nullable_column(&values, 4), vec![None, None, None, None]);
    assert_eq!(shift_nullable_column(&values, 6), vec![None; 6]);
}

#[test]
fn present_values_skip_nulls_in_order() {
    assert_eq!(present_values(&[Some(3), None, Some(1), None, Some(2)]), vec![3, 1, 2]);
    assert_eq!(present_values::<i32>(&[None, None]), Vec::<i32>::new());
    assert_eq!(present_values::<i32>(&[]), Vec::<i32>::new());
}

#[test]
fn scan_present_keeps_gaps_and_threads_state() {
    let running = scan_present(&[Some(1), None, Some(2), Some(3), None], |prev: Option<i64>, v: i64| {
        prev.unwrap_or(0) + v
    });
    assert_eq!(running, vec![Some(1), None, Some(3), Some(6), None]);
    let first_none = scan_present(&[None, Some(5u8)], |prev: Option<u8>, v: u8| match prev {
        None => v,
        Some(p) => p.max(v),
    });
    assert_eq!(first_none, vec![None, Some(5)]);
    let ema = scan_present(&[Some(10.0), None, Some(20.0)], |prev: Option<f64>, v: f64| match prev {
        None => v,
        Some(p) => 0.5 * v + 0.5 * p,
    });
    assert_eq!(ema, vec![Some(10.0), None, Some(15.0)]);
}
