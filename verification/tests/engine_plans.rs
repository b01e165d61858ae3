use zeno_core::engine::batch::{chunk_bounds, BatchPredictor, EnsembleError, EnsemblePredictor};
use zeno_core::engine::columns::{
    expanding_mean_column_name, lag_column_name, rolling_column_name, rolling_mean_column_name,
};
use zeno_core::engine::foundation::{ChronosWrapper, ContextError, LagLlamaWrapper, MoiraiWrapper};
use zeno_core::engine::gpu::{admit_allocation, GPUAccelerator, GpuError, TensorConverter, MAX_GPU_MEMORY};
use zeno_core::engine::managed::{
    ManagedPipeline, PipelineError, PipelineRegistry, StepAction, ValidationScheduler,
};
use zeno_core::engine::polars_ops::{FeatureExpr, PolarsWindowOp};
use zeno_core::engine::serverless::{BacktestRunner, Fold, ServerlessConfig};
use zeno_core::string_map::StringMap;
use zeno_core::types::TimeSeriesMetadata;

fn aliases(exprs: &[FeatureExpr]) -> Vec<String> {
    exprs
        .iter()
        .map(|e| match e {
            FeatureExpr::Shift { alias, .. } => alias.clone(),
            FeatureExpr::RollingMean { alias, .. } => alias.clone(),
            FeatureExpr::ExpandingMean { alias, .. } => alias.clone(),
        })
        .collect()
}

#[test]
fn column_names_follow_the_naming_scheme() {
    assert_eq!(lag_column_name("value", 7), "value_lag_7");
    assert_eq!(lag_column_name("v", 0), "v_lag_0");
    assert_eq!(rolling_mean_column_name("value", 30), "value_rolling_mean_30");
    assert_eq!(rolling_column_name("volume", 7), "volume_rolling_7");
    assert_eq!(expanding_mean_column_name("value"), "value_expanding_mean");
}

#[test]
fn polars_plans_list_features_per_column() {
    let op = PolarsWindowOp::new(vec![1, 7, 30], Some(vec![7, 30]));
    assert_eq!(aliases(&op.create_lags_polars("value")), vec!["value_lag_1", "value_lag_7", "value_lag_30"]);
    match &op.create_lags_polars("value")[1] {
        FeatureExpr::Shift { column, lag, .. } => {
            assert_eq!(column, "value");
            assert_eq!(*lag, 7);
        },
        _ => panic!("expected a shift"),
    }
    let all = op.create_features_parallel(&vec!["value".to_string(), "volume".to_string()]);
    assert_eq!(
        aliases(&all),
        vec![
            "value_lag_1", "value_lag_7", "value_lag_30", "value_rolling_7", "value_rolling_30",
            "volume_lag_1", "volume_lag_7", "volume_lag_30", "volume_rolling_7", "volume_rolling_30",
        ]
    );
    assert_eq!(aliases(&[op.rolling_mean_polars("value", 7)]), vec!["value_rolling_mean_7"]);
    assert_eq!(aliases(&[op.expanding_mean_polars("value")]), vec!["value_expanding_mean"]);
    assert!(PolarsWindowOp::new(vec![], None).create_features_parallel(&vec!["a".to_string()]).is_empty());
    assert_eq!(op.lags(), &vec![1, 7, 30]);
    assert_eq!(op.rolling_windows(), &vec![7, 30]);
}

#[test]
fn expanding_folds_match_documented_example() {
    let runner = BacktestRunner::new(Some(5), Some(30), Some(30));
    assert!(runner.expanding_window_in_range(200, 90));
    let folds = runner.expanding_window_folds(200, 90);
    assert_eq!(
        folds,
        vec![
            Fold { train_start: 0, train_end: 90, test_end: 120 },
            Fold { train_start: 0, train_end: 120, test_end: 150 },
            Fold { train_start: 0, train_end: 150, test_end: 180 },
        ]
    );
}

#[test]
fn rolling_folds_slide_by_step() {
    let runner = BacktestRunner::new(Some(3), Some(2), Some(5));
    assert!(runner.rolling_window_in_range(100, 10));
    let folds = runner.rolling_window_folds(100, 10);
    assert_eq!(
        folds,
        vec![
            Fold { train_start: 0, train_end: 10, test_end: 12 },
            Fold { train_start: 5, train_end: 15, test_end: 17 },
            Fold { train_start: 10, train_end: 20, test_end: 22 },
        ]
    );
    assert!(runner.rolling_window_folds(11, 10).is_empty());
}

#[test]
fn backtest_defaults_and_overflow_guard() {
    let r = BacktestRunner::new(None, None, None);
    assert_eq!((r.n_splits(), r.test_size(), r.step_size()), (5, 30, 1));
    let huge = BacktestRunner::new(Some(3), Some(1), Some(usize::MAX / 2));
    assert!(!huge.expanding_window_in_range(usize::MAX, 5));
    assert!(huge.expanding_window_in_range(10, 5));
    assert_eq!(huge.expanding_window_folds(10, 5), vec![Fold { train_start: 0, train_end: 5, test_end: 6 }]);
    assert!(!BacktestRunner::new(Some(1), Some(2), Some(0)).rolling_window_in_range(10, usize::MAX));
}

#[test]
fn serverless_defaults() {
    let c = ServerlessConfig::new(None, None, None);
    assert_eq!(c.lambda_function, "zeno-backtest");
    assert_eq!((c.timeout, c.memory_mb), (300, 3008));
    let c = ServerlessConfig::new(Some("f".to_string()), Some(5), Some(128));
    assert_eq!((c.lambda_function.as_str(), c.timeout, c.memory_mb), ("f", 5, 128));
}

#[test]
fn pipeline_steps_pick_actions() {
    let mut p = ManagedPipeline::new("demo".to_string());
    p.add_step("split".to_string(), "temporal_split".to_string());
    p.add_step("leak".to_string(), "leakage_check".to_string());
    p.add_step("feat".to_string(), "feature_validation".to_string());
    p.add_step("x".to_string(), "bogus".to_string());
    assert_eq!(p.step_count(), 4);
    assert_eq!(p.step_action(0), Err(PipelineError::MissingConfig("temporal_cutoff".to_string())));
    p.set_config("temporal_cutoff".to_string(), "2024-01-10".to_string());
    assert_eq!(p.step_action(0), Ok(StepAction::TemporalSplit { cutoff: "2024-01-10".to_string() }));
    assert_eq!(p.step_action(1), Ok(StepAction::LeakageCheck));
    assert_eq!(p.step_action(2), Ok(StepAction::FeatureValidation));
    assert_eq!(p.step_action(3), Err(PipelineError::UnknownStepType("bogus".to_string())));
    p.add_step("name:with:colons".to_string(), "leakage_check".to_string());
    assert_eq!(p.step_action(4), Ok(StepAction::LeakageCheck));
    assert_eq!(
        p.get_status(),
        vec![
            ("pipeline_id".to_string(), "demo".to_string()),
            ("steps".to_string(), "5".to_string()),
            ("status".to_string(), "ready".to_string()),
        ]
    );
    assert_eq!(p.pipeline_id(), "demo");
}

#[test]
fn registry_reads_what_was_written() {
    let mut r = PipelineRegistry::new();
    assert_eq!(r.get("a"), None);
    r.register("a".to_string(), "{}".to_string());
    r.register("b".to_string(), "{\"x\":1}".to_string());
    r.register("a".to_string(), "{\"y\":2}".to_string());
    assert_eq!(r.get("a"), Some("{\"y\":2}".to_string()));
    assert_eq!(r.count(), 2);
    let mut ids = r.list_pipelines();
    ids.sort();
    assert_eq!(ids, vec!["a".to_string(), "b".to_string()]);
    assert!(r.delete("a"));
    assert!(!r.delete("a"));
    assert_eq!(r.get("a"), None);
    assert_eq!(r.get("b"), Some("{\"x\":1}".to_string()));
}

#[test]
fn scheduler_uses_named_schedules() {
    let s = ValidationScheduler::new("p1".to_string(), None);
    assert_eq!(s.schedule(), "daily");
    assert_eq!(s.schedule_run(None), "Scheduled pipeline 'p1' with cron: 0 0 * * *");
    assert_eq!(
        s.schedule_run(Some("*/5 * * * *".to_string())),
        "Scheduled pipeline 'p1' with cron: */5 * * * *"
    );
    let h = ValidationScheduler::new("p2".to_string(), Some("hourly".to_string()));
    assert_eq!(h.schedule_run(None), "Scheduled pipeline 'p2' with cron: 0 * * * *");
    let w = ValidationScheduler::new("p3".to_string(), Some("weekly".to_string()));
    assert_eq!(w.schedule_run(None), "Scheduled pipeline 'p3' with cron: 0 0 * * 0");
    let m = ValidationScheduler::new("p4".to_string(), Some("monthly".to_string()));
    assert_eq!(m.schedule_run(None), "Scheduled pipeline 'p4' with cron: 0 0 * * *");
    assert_eq!(m.pipeline_id(), "p4");
}

#[test]
fn chunks_partition_the_stream() {
    assert_eq!(chunk_bounds(10, 4), vec![(0, 4), (4, 8), (8, 10)]);
    assert_eq!(chunk_bounds(8, 4), vec![(0, 4), (4, 8)]);
    assert!(chunk_bounds(0, 3).is_empty());
    let p = BatchPredictor::new(None, None);
    assert_eq!((p.max_parallel(), p.use_gpu()), (4, false));
    assert_eq!(p.stream_chunks(5, 2), vec![(0, 2), (2, 4), (4, 5)]);
    let g = GPUAccelerator::new(None, None);
    assert_eq!((g.device().as_str(), g.batch_size()), ("cuda:0", 32));
    assert_eq!(g.batch_ranges(70), vec![(0, 32), (32, 64), (64, 70)]);
    assert!(BatchPredictor::new(Some(2), Some(true)).use_gpu());
}

#[test]
fn ensembles_need_one_weight_per_model() {
    let models = vec!["a".to_string(), "b".to_string()];
    assert!(matches!(
        EnsemblePredictor::new(models.clone(), vec![1.0]),
        Err(EnsembleError::WeightCountMismatch)
    ));
    let e = EnsemblePredictor::new(models, vec![0.25, 0.75]).unwrap();
    assert_eq!(e.models().len(), 2);
    assert_eq!(e.weights(), &vec![0.25, 0.75]);
}

#[test]
fn gpu_allocations_stay_under_the_limit() {
    assert_eq!(MAX_GPU_MEMORY, 16 * 1024 * 1024 * 1024);
    assert_eq!(admit_allocation(0, 1024), Ok(1024));
    let max = MAX_GPU_MEMORY as usize;
    assert_eq!(admit_allocation(max - 10, 10), Ok(max));
    assert_eq!(
        admit_allocation(max - 10, 11),
        Err(GpuError::OutOfMemory { requested: 11, available: 10 })
    );
    assert_eq!(admit_allocation(max + 5, 1), Err(GpuError::OutOfMemory { requested: 1, available: 0 }));
    assert_eq!(TensorConverter::new(None).dtype(), "float32");
}

#[test]
fn context_windows_slide_over_the_series() {
    let w = ChronosWrapper::new(None, Some(3), None);
    let windows = w.prepare_input(&[1, 2, 3, 4, 5]).unwrap();
    assert_eq!(windows, vec![vec![1, 2, 3], vec![2, 3, 4], vec![3, 4, 5]]);
    assert_eq!(w.prepare_input(&[1, 2]), Err(ContextError::NotEnoughValues { needed: 3, got: 2 }));
    assert_eq!(w.prepare_input(&[7, 8, 9]).unwrap(), vec![vec![7, 8, 9]]);
    let d = ChronosWrapper::new(None, None, None);
    assert_eq!((d.model_name().as_str(), d.context_length(), d.prediction_length()), ("chronos-t5-small", 512, 64));
    let zero = ChronosWrapper::new(None, Some(0), None);
    assert_eq!(zero.prepare_input(&[1.5, 2.5]).unwrap(), vec![Vec::<f64>::new(); 3]);
}

#[test]
fn model_settings_defaults() {
    let l = LagLlamaWrapper::new(None, None, None);
    assert_eq!(l.model_path(), "time-series-foundation-models/Lag-Llama");
    assert_eq!((l.context_length(), l.prediction_length()), (32, 1));
    let m = MoiraiWrapper::new(None, None, None, None);
    assert_eq!(m.model_repository(), "Salesforce/moirai-1.0-R-small");
    assert_eq!((m.context_length(), m.prediction_length(), m.patch_size()), (512, 128, 16));
    let big = MoiraiWrapper::new(Some("large".to_string()), None, None, None);
    assert_eq!(big.model_repository(), "Salesforce/moirai-1.0-R-large");
    assert_eq!(big.model_size(), "large");
}

#[test]
fn string_map_replaces_and_removes() {
    let mut m: StringMap<u32> = StringMap::new();
    m.insert("k".to_string(), 1);
    m.insert("j".to_string(), 2);
    m.insert("k".to_string(), 3);
    assert_eq!(m.len(), 2);
    assert_eq!(m.get("k"), Some(&3));
    assert_eq!(m.remove("k"), Some(3));
    assert_eq!(m.remove("k"), None);
    assert_eq!(m.get("k"), None);
    assert_eq!(m.entries(), &vec![("j".to_string(), 2)]);
}

#[test]
fn metadata_holds_table_shape() {
    let m = TimeSeriesMetadata {
        n_rows: 100,
        n_series: 2,
        time_col: "timestamp".to_string(),
        value_cols: vec!["value".to_string(), "volume".to_string()],
    };
    let c = m.clone();
    assert_eq!(c.n_rows, 100);
    assert_eq!(c.value_cols.len(), 2);
}
