use crate::text::{decimal_digits, usize_text};
use vstd::prelude::*;
use vstd::string::StringExecFns;

verus! {

/// Name of the column holding `column` shifted by `lag`: `{column}_lag_{lag}`.
pub open spec fn lag_name(column: Seq<char>, lag: nat) -> Seq<char> {
    column + "_lag_"@ + decimal_digits(lag)
}

/// Name of the trailing mean of `column` over `window` values in a frame:
/// `{column}_rolling_mean_{window}`.
pub open spec fn rolling_mean_name(column: Seq<char>, window: nat) -> Seq<char> {
    column + "_rolling_mean_"@ + decimal_digits(window)
}

/// Short name of a trailing mean used when many features are built at once:
/// `{column}_rolling_{window}`.
pub open spec fn rolling_name(column: Seq<char>, window: nat) -> Seq<char> {
    column + "_rolling_"@ + decimal_digits(window)
}

/// Name of the expanding mean of `column`: `{column}_expanding_mean`.
pub open spec fn expanding_mean_name(column: Seq<char>) -> Seq<char> {
    column + "_expanding_mean"@
}

fn suffixed(column: &str, infix: &str, n: usize) -> (name: String)
    ensures
        name@ == column@ + infix@ + decimal_digits(n as nat),
{
    let mut name = String::from_str(column);
    name.append(infix);
    let digits = usize_text(n);
    name.append(digits.as_str());
    name
}

/// `{column}_lag_{lag}`.
pub fn lag_column_name(column: &str, lag: usize) -> (name: String)
    ensures
        name@ == lag_name(column@, lag as nat),
{
    suffixed(column, "_lag_", lag)
}

/// `{column}_rolling_mean_{window}`.
pub fn rolling_mean_column_name(column: &str, window: usize) -> (name: String)
    ensures
        name@ == rolling_mean_name(column@, window as nat),
{
    suffixed(column, "_rolling_mean_", window)
}

/// `{column}_rolling_{window}`.
pub fn rolling_column_name(column: &str, window: usize) -> (name: String)
    ensures
        name@ == rolling_name(column@, window as nat),
{
    suffixed(column, "_rolling_", window)
}

/// `{column}_expanding_mean`.
pub fn expanding_mean_column_name(column: &str) -> (name: String)
    ensures
        name@ == expanding_mean_name(column@),
{
    let mut name = String::from_str(column);
    name.append("_expanding_mean");
    name
}

} // verus!
