use xxhash_rust::xxh3::xxh3_64;
use zeno_core::engine::polars_ops::PolarsValidator;
use zeno_core::validator::leakage::{
    digest_timestamps, digest_words, FeatureFingerprint, LeakageDetector, RollingHashValidator,
    Similarity,
};
use zeno_core::validator::temporal::{check_split_order, TemporalError, TemporalValidator};

const DAY: i64 = 86_400;

fn day(d: i64) -> i64 {
    1_704_067_200 + (d - 1) * DAY
}

fn bits(values: &[f64]) -> Vec<u64> {
    values.iter().map(|v| v.to_bits()).collect()
}

#[test]
fn temporal_split_then_feature_checks() {
    let mut v = TemporalValidator::new();
    assert_eq!(v.check_feature_window(day(30)), Ok(true));
    assert_eq!(v.set_split(day(5), day(6)), Ok(()));
    assert_eq!(v.check_feature_window(day(3)), Ok(true));
    assert_eq!(v.check_feature_window(day(5)), Ok(true));
    assert_eq!(
        v.check_feature_window(day(7)),
        Err(TemporalError::FeatureAfterCutoff { feature_timestamp: day(7) })
    );
    assert_eq!(v.train_end(), Some(day(5)));
    assert_eq!(v.test_start(), Some(day(6)));
}

#[test]
fn temporal_split_refuses_overlapping_periods() {
    let mut v = TemporalValidator::new();
    assert_eq!(v.set_split(10, 10), Err(TemporalError::TestStartNotAfterTrainEnd));
    assert_eq!(v.set_split(10, 9), Err(TemporalError::TestStartNotAfterTrainEnd));
    assert_eq!(v.train_end(), None);
    assert_eq!(v.set_split(10, 11), Ok(()));
    assert_eq!(v.set_split(20, 5), Err(TemporalError::TestStartNotAfterTrainEnd));
    assert_eq!(v.train_end(), Some(10));
    assert_eq!(check_split_order(1, 2), Ok(()));
}

#[test]
fn polars_validator_keeps_cutoff_as_text() {
    let mut v = PolarsValidator::new();
    assert_eq!(v.check_feature_window(i64::MAX), Ok(true));
    for cutoff in [0i64, -5, i64::MIN, i64::MAX - 1, 1_704_067_200] {
        assert_eq!(v.set_split(cutoff, cutoff + 1), Ok(()));
        assert_eq!(v.check_feature_window(cutoff), Ok(true));
        assert_eq!(
            v.check_feature_window(cutoff + 1),
            Err(TemporalError::FeatureAfterCutoff { feature_timestamp: cutoff + 1 })
        );
    }
    assert_eq!(v.set_split(3, 3), Err(TemporalError::TestStartNotAfterTrainEnd));
}

#[test]
fn polars_split_must_be_covered_by_time_range() {
    let v = PolarsValidator::new();
    assert_eq!(v.validate_temporal_split(&[0, 20, 100], 50, 51), Ok(true));
    assert_eq!(v.validate_temporal_split(&[0, 100], 50, 50), Err(TemporalError::TestStartNotAfterTrainEnd));
    assert_eq!(v.validate_temporal_split(&[60, 100], 50, 51), Err(TemporalError::RangeDoesNotCoverSplit));
    assert_eq!(v.validate_temporal_split(&[0, 50], 50, 51), Err(TemporalError::RangeDoesNotCoverSplit));
    assert_eq!(v.validate_temporal_split(&[50, 51], 50, 51), Ok(true));
    assert_eq!(v.validate_temporal_split(&[], 50, 51), Err(TemporalError::EmptyTimeColumn));
    assert_eq!(v.validate_temporal_split(&[], 50, 50), Err(TemporalError::TestStartNotAfterTrainEnd));
}

#[test]
fn polars_split_needs_a_sorted_time_column() {
    let v = PolarsValidator::new();
    assert_eq!(v.validate_temporal_split(&[100, 0], 50, 51), Err(TemporalError::TimeColumnNotSorted));
    assert_eq!(v.validate_temporal_split(&[0, 60, 55, 100], 50, 51), Err(TemporalError::TimeColumnNotSorted));
    assert_eq!(v.validate_temporal_split(&[0, 0, 50, 51, 51], 50, 51), Ok(true));
    assert_eq!(v.validate_temporal_split(&[100, 0], 50, 50), Err(TemporalError::TestStartNotAfterTrainEnd));
    assert_eq!(v.validate_temporal_split(&[60, 70, 65], 50, 51), Err(TemporalError::TimeColumnNotSorted));
}

#[test]
fn digests_are_xxh3_of_the_little_endian_buffer() {
    let ts = [day(1), day(2), -3, i64::MIN];
    let mut buffer = Vec::new();
    for t in ts {
        buffer.extend_from_slice(&t.to_le_bytes());
    }
    assert_eq!(digest_timestamps(&ts), xxh3_64(&buffer));
    let words = [1u64, 2, u64::MAX];
    let mut buffer = Vec::new();
    for w in words {
        buffer.extend_from_slice(&w.to_le_bytes());
    }
    assert_eq!(digest_words(&words), xxh3_64(&buffer));
    assert_eq!(digest_words(&[]), 0x2D06_8005_38D3_94C2);
    assert_ne!(digest_words(&[1, 2]), digest_words(&[2, 1]));
}

#[test]
fn fingerprint_spans_and_similarity() {
    let a = FeatureFingerprint::new(vec![1, 2, 3, 4], bits(&[0.0, 1.0, 2.0, 3.0]), "train".to_string());
    let b = FeatureFingerprint::new(vec![3, 4, 5, 6], bits(&[2.0, 3.0, 4.0, 5.0]), "test".to_string());
    let c = FeatureFingerprint::new(vec![5, 6], bits(&[4.0, 5.0]), "late".to_string());
    let d = FeatureFingerprint::new(vec![4, 3, 2, 1], bits(&[9.0; 4]), "same days".to_string());
    assert!(a.overlaps_with(&b));
    assert!(b.overlaps_with(&a));
    assert!(!a.overlaps_with(&c));
    assert_eq!(a.similarity(&b), Similarity::Jaccard { shared: 2, total: 6 });
    assert_eq!(b.similarity(&a), Similarity::Jaccard { shared: 2, total: 6 });
    assert_eq!(a.similarity(&d), Similarity::Jaccard { shared: 4, total: 4 });
    let e = FeatureFingerprint::new(vec![1, 2, 3, 4], bits(&[7.0; 4]), "copy".to_string());
    assert_eq!(a.similarity(&e), Similarity::Identical);
    assert_eq!(a.window_hash, e.window_hash);
    assert_ne!(a.values_hash, e.values_hash);
    assert_eq!(e.timestamps, vec![1, 2, 3, 4]);
    assert_eq!(e.feature_name, "copy");
}

#[test]
fn empty_windows_sit_at_zero() {
    let empty = FeatureFingerprint::new(vec![], vec![], "empty".to_string());
    let around_zero = FeatureFingerprint::new(vec![-1, 1], bits(&[0.0, 0.0]), "z".to_string());
    let later = FeatureFingerprint::new(vec![5], bits(&[0.0]), "l".to_string());
    assert!(empty.overlaps_with(&around_zero));
    assert!(!empty.overlaps_with(&later));
    let other_empty = FeatureFingerprint::new(vec![], vec![], "e2".to_string());
    assert_eq!(empty.similarity(&other_empty), Similarity::Identical);
}

#[test]
fn clean_and_overlapping_test_windows() {
    let days: Vec<i64> = (1..=8).map(day).collect();
    let values: Vec<f64> = (0..8).map(|i| i as f64).collect();
    let mut detector = LeakageDetector::new();
    detector.register_train_window(days[0..4].to_vec(), bits(&values[0..4]), "train".to_string());
    let clean = detector.check_test_window(days[4..8].to_vec(), bits(&values[4..8]), "clean".to_string());
    assert!(clean.is_empty());
    let overlap = detector.check_test_window(days[2..6].to_vec(), bits(&values[2..6]), "overlap".to_string());
    assert_eq!(overlap.len(), 1);
    assert_eq!(overlap[0].feature_name, "train");
    assert_eq!(overlap[0].similarity, Similarity::Jaccard { shared: 2, total: 6 });
    let duplicate = detector.check_test_window(days[0..4].to_vec(), bits(&values[0..4]), "duplicate".to_string());
    assert_eq!(duplicate[0].similarity, Similarity::Identical);
    assert_eq!(detector.train_count(), 1);
    assert_eq!(detector.test_count(), 3);

    let report = detector.get_leakage_report();
    assert_eq!(report.len(), 3);
    assert_eq!(report[0].feature_name, "clean");
    assert!(report[0].candidates.is_empty());
    assert_eq!(report[1].feature_name, "overlap");
    assert_eq!(report[1].candidates.len(), 1);
    assert_eq!(report[2].candidates[0].similarity, Similarity::Identical);

    detector.reset();
    assert_eq!(detector.train_count(), 0);
    assert_eq!(detector.test_count(), 0);
    assert!(detector.get_leakage_report().is_empty());
}

#[test]
fn candidates_follow_training_order() {
    let mut detector = LeakageDetector::new();
    detector.register_train_window(vec![1, 2], bits(&[1.0, 2.0]), "first".to_string());
    detector.register_train_window(vec![10, 11], bits(&[1.0, 2.0]), "far".to_string());
    detector.register_train_window(vec![2, 3], bits(&[1.0, 2.0]), "second".to_string());
    let c = detector.check_test_window(vec![2], bits(&[0.0]), "probe".to_string());
    let names: Vec<&str> = c.iter().map(|x| x.feature_name.as_str()).collect();
    assert_eq!(names, vec!["first", "second"]);
    assert_eq!(c[0].similarity, Similarity::Jaccard { shared: 1, total: 2 });
}

#[test]
fn rolling_hash_finds_added_windows() {
    let mut v = RollingHashValidator::new(None);
    assert_eq!(v.hash_size(), 100);
    let w = bits(&[1.0, 2.0, 3.0]);
    assert!(!v.check_window(&w));
    let h = v.add_window(&w);
    assert_eq!(h, digest_words(&w));
    assert!(v.check_window(&w));
    assert!(!v.check_window(&bits(&[1.0, 2.0, 4.0])));
    assert_eq!(v.known_count(), 1);
    v.add_window(&w);
    assert_eq!(v.known_count(), 1);
}

#[test]
fn rolling_hash_reads_only_the_prefix() {
    let mut v = RollingHashValidator::new(Some(2));
    v.add_window(&bits(&[1.0, 2.0, 3.0]));
    assert!(v.check_window(&bits(&[1.0, 2.0, 99.0])));
    assert!(v.check_window(&bits(&[1.0, 2.0])));
    assert!(!v.check_window(&bits(&[1.0])));
    let mut z = RollingHashValidator::new(Some(0));
    z.add_window(&bits(&[5.0]));
    assert!(z.check_window(&bits(&[6.0, 7.0])));
}

#[test]
fn polars_and_temporal_validators_agree_over_split_sequences() {
    let calls = [(10i64, 20i64), (30, 30), (-5, 0), (40, 35), (7, 8)];
    let mut p = PolarsValidator::new();
    let mut t = TemporalValidator::new();
    for (e, s) in calls {
        assert_eq!(p.set_split(e, s).is_ok(), t.set_split(e, s).is_ok());
        for ts in [-6i64, -5, 0, 7, 8, 10, 11, 100] {
            assert_eq!(p.check_feature_window(ts), t.check_feature_window(ts));
        }
    }
    assert_eq!(t.train_end(), Some(7));
    assert_eq!(p.check_feature_window(8), Err(TemporalError::FeatureAfterCutoff { feature_timestamp: 8 }));
}

#[test]
fn jaccard_similarity_never_exceeds_one() {
    let a = FeatureFingerprint::new(vec![1, 2, 2, 3], vec![], "a".to_string());
    let b = FeatureFingerprint::new(vec![2, 3, 4], vec![], "b".to_string());
    assert_eq!(a.similarity(&b), Similarity::Jaccard { shared: 2, total: 4 });
    assert_eq!(a.similarity(&a), Similarity::Identical);
}
