use vstd::prelude::*;
use vstd::slice::slice_subrange;

verus! {

/// The series `values` shifted forward by `lag` positions: position `i` holds
/// `values[i - lag]`, and the first `lag` positions hold nothing.
pub open spec fn lagged<T>(values: Seq<T>, lag: int) -> Seq<Option<T>> {
    Seq::new(values.len(), |i: int| if i >= lag { Some(values[i - lag]) } else { None })
}

/// Lag features for a single series.
pub fn compute_single_lag<T: Copy>(values: &[T], lag: usize) -> (result: Vec<Option<T>>)
    ensures
        result@ == lagged(values@, lag as int),
{
    let n = values.len();
    let mut result: Vec<Option<T>> = Vec::with_capacity(n);
    let mut i: usize = 0;
    while i < n
        invariant
            n == values@.len(),
            i <= n,
            result@ == lagged(values@, lag as int).take(i as int),
        decreases n - i,
    {
        if i >= lag {
            let v: T = values[i - lag];
            result.push(Some(v));
        } else {
            result.push(None);
        }
        i = i + 1;
        proof {
            assert(result@ =~= lagged(values@, lag as int).take(i as int));
        }
    }
    proof {
        assert(result@ =~= lagged(values@, lag as int));
    }
    result
}

/// Applies `stat_fn` to every full window of `window` consecutive values; the
/// statistic of the window ending at position `i` is stored at position `i`.
pub fn compute_rolling_stat<T, U, F: Fn(&[T]) -> U>(values: &[T], window: usize, stat_fn: F) -> (result: Vec<Option<U>>)
    requires
        window >= 1,
        forall|s: &[T]| s@.len() == window ==> #[trigger] call_requires(stat_fn, (s,)),
    ensures
        result@.len() == values@.len(),
        forall|i: int| 0 <= i < values@.len() && i + 1 < window ==> result@[i] is None,
        forall|i: int| 0 <= i < values@.len() && i + 1 >= window ==> {
            &&& #[trigger] result@[i] is Some
            &&& exists|s: &[T]| s@ == values@.subrange(i + 1 - window, i + 1)
                && call_ensures(stat_fn, (s,), result@[i]->0)
        },
{
    let n = values.len();
    let mut result: Vec<Option<U>> = Vec::with_capacity(n);
    let mut i: usize = 0;
    while i < n
        invariant
            n == values@.len(),
            window >= 1,
            i <= n,
            forall|s: &[T]| s@.len() == window ==> #[trigger] call_requires(stat_fn, (s,)),
            result@.len() == i,
            forall|j: int| 0 <= j < i && j + 1 < window ==> result@[j] is None,
            forall|j: int| 0 <= j < i && j + 1 >= window ==> {
                &&& #[trigger] result@[j] is Some
                &&& exists|s: &[T]| s@ == values@.subrange(j + 1 - window, j + 1)
                    && call_ensures(stat_fn, (s,), result@[j]->0)
            },
        decreases n - i,
    {
        if i + 1 >= window {
            let s = slice_subrange(values, i + 1 - window, i + 1);
            let u = stat_fn(s);
            result.push(Some(u));
        } else {
            result.push(None);
        }
        i = i + 1;
    }
    result
}


/// The lag matrix of a series: one lagged copy per lag, in order.
pub open spec fn lag_matrix<T>(values: Seq<T>, lags: Seq<usize>) -> Seq<Seq<Option<T>>> {
    lags.map_values(|lag: usize| lagged(values, lag as int))
}

pub open spec fn rows<T>(m: Seq<Vec<Option<T>>>) -> Seq<Seq<Option<T>>> {
    m.map_values(|r: Vec<Option<T>>| r@)
}

/// Lag features of a series for every lag in `lags`.
pub fn create_lags_for<T: Copy>(values: &[T], lags: &[usize]) -> (result: Vec<Vec<Option<T>>>)
    ensures
        rows(result@) == lag_matrix(values@, lags@),
{
    let mut result: Vec<Vec<Option<T>>> = Vec::with_capacity(lags.len());
    let mut k: usize = 0;
    while k < lags.len()
        invariant
            k <= lags@.len(),
            rows(result@) == lag_matrix(values@, lags@.take(k as int)),
        decreases lags@.len() - k,
    {
        let row = compute_single_lag(values, lags[k]);
        let ghost before = result@;
        result.push(row);
        proof {
            assert(rows(result@) =~= rows(before).push(row@));
            assert(lag_matrix(values@, lags@.take(k + 1)) =~= lag_matrix(values@, lags@.take(k as int)).push(
                lagged(values@, lags@[k as int] as int),
            ));
        }
        k = k + 1;
    }
    proof {
        assert(lags@.take(lags@.len() as int) =~= lags@);
    }
    result
}

/// Why a window operation refused its input.
#[derive(Debug, Clone, Copy, PartialEq, Eq, Structural)]
pub enum WindowError {
    /// Values and weights differ in length.
    LengthMismatch,
}

/// Lag and rolling-window features over plain series.
pub struct WindowOp {
    lags: Vec<usize>,
    rolling_windows: Vec<usize>,
}

impl WindowOp {
    pub closed spec fn lag_list(&self) -> Seq<usize> {
        self.lags@
    }

    pub closed spec fn window_list(&self) -> Seq<usize> {
        self.rolling_windows@
    }

    /// An operator with the given lags and rolling windows (none when not
    /// given).
    pub fn new(lags: Vec<usize>, rolling_windows: Option<Vec<usize>>) -> (op: Self)
        ensures
            op.lag_list() == lags@,
            op.window_list() == match rolling_windows {
                Some(w) => w@,
                None => Seq::<usize>::empty(),
            },
    {
        let rolling_windows = match rolling_windows {
            Some(w) => w,
            None => Vec::new(),
        };
        WindowOp { lags, rolling_windows }
    }

    /// One lagged copy of the series per configured lag.
    pub fn create_lags<T: Copy>(&self, values: &[T]) -> (result: Vec<Vec<Option<T>>>)
        ensures
            rows(result@) == lag_matrix(values@, self.lag_list()),
    {
        create_lags_for(values, self.lags.as_slice())
    }

    /// The weighted average of the whole series, placed at its last
    /// position: the weights span the series, so only the window ending at
    /// the last value is full.  `combine` computes the average of a window
    /// with the weights.
    pub fn weighted_moving_average<T, W, U, F: Fn(&[T], &[W]) -> U>(
        &self,
        values: &[T],
        weights: &[W],
        combine: F,
    ) -> (result: Result<Vec<Option<U>>, WindowError>)
        requires
            values@.len() == weights@.len() ==> values@.len() > 0,
            forall|s: &[T]| s@.len() == weights@.len() ==> #[trigger] call_requires(combine, (s, weights)),
        ensures
            values@.len() != weights@.len() ==> result == Err::<Vec<Option<U>>, WindowError>(
                WindowError::LengthMismatch,
            ),
            values@.len() == weights@.len() ==> result is Ok && {
                let r = result->Ok_0@;
                &&& r.len() == values@.len()
                &&& forall|i: int| 0 <= i < r.len() - 1 ==> r[i] is None
                &&& r[r.len() - 1] is Some
                &&& exists|s: &[T]| s@ == values@ && call_ensures(combine, (s, weights), r[r.len() - 1]->0)
            },
    {
        if values.len() != weights.len() {
            return Err(WindowError::LengthMismatch);
        }
        let n = values.len();
        let mut result: Vec<Option<U>> = Vec::with_capacity(n);
        let mut i: usize = 0;
        while i + 1 < n
            invariant
                n == values@.len(),
                n > 0,
                i + 1 <= n,
                result@.len() == i,
                forall|j: int| 0 <= j < i ==> result@[j] is None,
            decreases n - i,
        {
            result.push(None);
            i = i + 1;
        }
        let whole = vstd::slice::slice_subrange(values, 0, n);
        proof {
            assert(whole@ =~= values@);
        }
        let u = combine(whole, weights);
        result.push(Some(u));
        Ok(result)
    }

    /// The configured lags.
    pub fn lags(&self) -> (l: &Vec<usize>)
        ensures
            l@ == self.lag_list(),
    {
        &self.lags
    }

    /// The configured rolling windows.
    pub fn rolling_windows(&self) -> (w: &Vec<usize>)
        ensures
            w@ == self.window_list(),
    {
        &self.rolling_windows
    }
}

} // verus!
