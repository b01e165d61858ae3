use vstd::prelude::*;

verus! {

/// Shape and column names of a time-series table.
#[derive(Debug, Clone)]
pub struct TimeSeriesMetadata {
    pub n_rows: usize,
    pub n_series: usize,
    pub time_col: String,
    pub value_cols: Vec<String>,
}

} // verus!
