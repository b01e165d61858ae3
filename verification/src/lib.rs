//! Leakage-aware time-series feature engineering: lag and window features,
//! temporal split validation, leakage fingerprints, backtest fold planning,
//! and audit reports.

pub mod engine;
pub mod string_map;
pub mod text;
pub mod types;
pub mod validator;
