use crate::engine::columns::{
    expanding_mean_column_name, expanding_mean_name, lag_column_name, lag_name,
    rolling_column_name, rolling_mean_column_name, rolling_mean_name, rolling_name,
};
use crate::text::{parse_i64, i64_text, signed_decimal};
use crate::validator::temporal::{
    check_split_order, feature_admissible, lemma_states_follow_splits, split_after,
    split_is_ordered, splits_applied, TemporalError, TemporalValidator,
};
use vstd::prelude::*;

verus! {

/// One derived column of a frame, described by what it is computed from and
/// the name it gets.
#[derive(Debug)]
pub enum FeatureExpr {
    /// `column` shifted down by `lag` rows.
    Shift { column: String, lag: usize, alias: String },
    /// Trailing mean of `column` over `window` rows.
    RollingMean { column: String, window: usize, alias: String },
    /// Running sum of `column` divided by the frame's length.
    ExpandingMean { column: String, alias: String },
}

/// The abstract content of a feature expression.
pub enum FeatureSpec {
    Shift { column: Seq<char>, lag: usize, alias: Seq<char> },
    RollingMean { column: Seq<char>, window: usize, alias: Seq<char> },
    ExpandingMean { column: Seq<char>, alias: Seq<char> },
}

impl View for FeatureExpr {
    type V = FeatureSpec;

    open spec fn view(&self) -> FeatureSpec {
        match self {
            FeatureExpr::Shift { column, lag, alias } => FeatureSpec::Shift {
                column: column@,
                lag: *lag,
                alias: alias@,
            },
            FeatureExpr::RollingMean { column, window, alias } => FeatureSpec::RollingMean {
                column: column@,
                window: *window,
                alias: alias@,
            },
            FeatureExpr::ExpandingMean { column, alias } => FeatureSpec::ExpandingMean {
                column: column@,
                alias: alias@,
            },
        }
    }
}

pub open spec fn expr_views(es: Seq<FeatureExpr>) -> Seq<FeatureSpec> {
    es.map_values(|e: FeatureExpr| e@)
}

/// The lag features of one column, one per lag in order.
pub open spec fn lag_features(column: Seq<char>, lags: Seq<usize>) -> Seq<FeatureSpec> {
    lags.map_values(
        |lag: usize| FeatureSpec::Shift { column, lag, alias: lag_name(column, lag as nat) },
    )
}

/// The short-named trailing means of one column, one per window in order.
pub open spec fn rolling_features(column: Seq<char>, windows: Seq<usize>) -> Seq<FeatureSpec> {
    windows.map_values(
        |window: usize|
            FeatureSpec::RollingMean { column, window, alias: rolling_name(column, window as nat) },
    )
}

/// All features of all columns: for each column in order, its lags and then
/// its trailing means.
pub open spec fn all_features(columns: Seq<Seq<char>>, lags: Seq<usize>, windows: Seq<usize>) -> Seq<
    FeatureSpec,
>
    decreases columns.len(),
{
    if columns.len() == 0 {
        Seq::empty()
    } else {
        all_features(columns.drop_last(), lags, windows) + lag_features(columns.last(), lags)
            + rolling_features(columns.last(), windows)
    }
}

/// A planned feature is the lag of one of the columns by one of the lags, named
/// `{column}_lag_{lag}`, or the trailing mean of one of the columns over one of
/// the windows, named `{column}_rolling_{window}`.
pub open spec fn planned_feature(
    f: FeatureSpec,
    columns: Seq<Seq<char>>,
    lags: Seq<usize>,
    windows: Seq<usize>,
) -> bool {
    ||| exists|i: int, j: int|
        0 <= i < columns.len() && 0 <= j < lags.len() && f == (FeatureSpec::Shift {
            column: #[trigger] columns[i],
            lag: #[trigger] lags[j],
            alias: lag_name(columns[i], lags[j] as nat),
        })
    ||| exists|i: int, j: int|
        0 <= i < columns.len() && 0 <= j < windows.len() && f == (FeatureSpec::RollingMean {
            column: #[trigger] columns[i],
            window: #[trigger] windows[j],
            alias: rolling_name(columns[i], windows[j] as nat),
        })
}

/// The feature plan of a set of columns holds, for every column, its lag by
/// every lag and its trailing mean over every window, and nothing else: one
/// lag per lag and one trailing mean per window for each column.
pub proof fn law_feature_plan(columns: Seq<Seq<char>>, lags: Seq<usize>, windows: Seq<usize>)
    ensures
        all_features(columns, lags, windows).len() == columns.len() * (lags.len() + windows.len()),
        forall|i: int, j: int|
            #![trigger columns[i], lags[j]]
            0 <= i < columns.len() && 0 <= j < lags.len() ==> all_features(
                columns,
                lags,
                windows,
            ).contains(
                (FeatureSpec::Shift {
                    column: columns[i],
                    lag: lags[j],
                    alias: lag_name(columns[i], lags[j] as nat),
                }),
            ),
        forall|i: int, j: int|
            #![trigger columns[i], windows[j]]
            0 <= i < columns.len() && 0 <= j < windows.len() ==> all_features(
                columns,
                lags,
                windows,
            ).contains(
                (FeatureSpec::RollingMean {
                    column: columns[i],
                    window: windows[j],
                    alias: rolling_name(columns[i], windows[j] as nat),
                }),
            ),
        forall|k: int|
            0 <= k < all_features(columns, lags, windows).len() ==> planned_feature(
                #[trigger] all_features(columns, lags, windows)[k],
                columns,
                lags,
                windows,
            ),
    decreases columns.len(),
{
    let all = all_features(columns, lags, windows);
    if columns.len() > 0 {
        let front = columns.drop_last();
        let c = columns.last();
        law_feature_plan(front, lags, windows);
        let a = all_features(front, lags, windows);
        let l = lag_features(c, lags);
        let r = rolling_features(c, windows);
        assert(all == a + l + r);
        assert(all.len() == columns.len() * (lags.len() + windows.len())) by (nonlinear_arith)
            requires
                all.len() == a.len() + l.len() + r.len(),
                a.len() == front.len() * (lags.len() + windows.len()),
                l.len() == lags.len(),
                r.len() == windows.len(),
                front.len() + 1 == columns.len(),
        ;
        assert forall|i: int, j: int|
            #![trigger columns[i], lags[j]]
            0 <= i < columns.len() && 0 <= j < lags.len() implies all.contains(
            (FeatureSpec::Shift {
                column: columns[i],
                lag: lags[j],
                alias: lag_name(columns[i], lags[j] as nat),
            }),
        ) by {
            let item = FeatureSpec::Shift {
                column: columns[i],
                lag: lags[j],
                alias: lag_name(columns[i], lags[j] as nat),
            };
            if i < front.len() {
                assert(front[i] == columns[i]);
                assert(a.contains(item));
                let m = choose|m: int| 0 <= m < a.len() && a[m] == item;
                assert(all[m] == item);
            } else {
                assert(all[a.len() + j] == item);
            }
        }
        assert forall|i: int, j: int|
            #![trigger columns[i], windows[j]]
            0 <= i < columns.len() && 0 <= j < windows.len() implies all.contains(
            (FeatureSpec::RollingMean {
                column: columns[i],
                window: windows[j],
                alias: rolling_name(columns[i], windows[j] as nat),
            }),
        ) by {
            let item = FeatureSpec::RollingMean {
                column: columns[i],
                window: windows[j],
                alias: rolling_name(columns[i], windows[j] as nat),
            };
            if i < front.len() {
                assert(front[i] == columns[i]);
                assert(a.contains(item));
                let m = choose|m: int| 0 <= m < a.len() && a[m] == item;
                assert(all[m] == item);
            } else {
                assert(all[a.len() + l.len() + j] == item);
            }
        }
        assert forall|k: int| 0 <= k < all.len() implies planned_feature(
            #[trigger] all[k],
            columns,
            lags,
            windows,
        ) by {
            let last = columns.len() - 1;
            if k < a.len() {
                assert(all[k] == a[k]);
                assert(planned_feature(a[k], front, lags, windows));
                if exists|i: int, j: int|
                    0 <= i < front.len() && 0 <= j < lags.len() && a[k] == (FeatureSpec::Shift {
                        column: #[trigger] front[i],
                        lag: #[trigger] lags[j],
                        alias: lag_name(front[i], lags[j] as nat),
                    }) {
                    let (i, j) = choose|i: int, j: int|
                        0 <= i < front.len() && 0 <= j < lags.len() && a[k] == (FeatureSpec::Shift {
                            column: #[trigger] front[i],
                            lag: #[trigger] lags[j],
                            alias: lag_name(front[i], lags[j] as nat),
                        });
                    assert(front[i] == columns[i]);
                } else {
                    let (i, j) = choose|i: int, j: int|
                        0 <= i < front.len() && 0 <= j < windows.len() && a[k] == (FeatureSpec::RollingMean {
                            column: #[trigger] front[i],
                            window: #[trigger] windows[j],
                            alias: rolling_name(front[i], windows[j] as nat),
                        });
                    assert(front[i] == columns[i]);
                }
            } else if k < a.len() + l.len() {
                let j = k - a.len();
                assert(all[k] == l[j]);
                assert(columns[last] == c);
            } else {
                let j = k - a.len() - l.len();
                assert(all[k] == r[j]);
                assert(columns[last] == c);
            }
        }
    }
}

/// Lag and rolling-window features for frames, described as expressions.
pub struct PolarsWindowOp {
    lags: Vec<usize>,
    rolling_windows: Vec<usize>,
}

impl PolarsWindowOp {
    pub closed spec fn lag_list(&self) -> Seq<usize> {
        self.lags@
    }

    pub closed spec fn window_list(&self) -> Seq<usize> {
        self.rolling_windows@
    }

    /// An operator with the given lags and trailing-mean windows (none when
    /// not given).
    pub fn new(lags: Vec<usize>, rolling_windows: Option<Vec<usize>>) -> (op: Self)
        ensures
            op.lag_list() == lags@,
            op.window_list() == match rolling_windows {
                Some(w) => w@,
                None => Seq::<usize>::empty(),
            },
    {
        let rolling_windows = match rolling_windows {
            Some(w) => w,
            None => Vec::new(),
        };
        PolarsWindowOp { lags, rolling_windows }
    }

    fn push_lags(&self, column: &str, out: &mut Vec<FeatureExpr>)
        ensures
            expr_views(final(out)@) == expr_views(old(out)@) + lag_features(column@, self.lag_list()),
    {
        let n = self.lags.len();
        let mut i: usize = 0;
        while i < n
            invariant
                n == self.lags@.len(),
                i <= n,
                expr_views(out@) == expr_views(old(out)@) + lag_features(
                    column@,
                    self.lag_list().take(i as int),
                ),
            decreases n - i,
        {
            let lag = self.lags[i];
            let e = FeatureExpr::Shift {
                column: String::from_str(column),
                lag,
                alias: lag_column_name(column, lag),
            };
            let ghost before = out@;
            out.push(e);
            proof {
                assert(expr_views(out@) =~= expr_views(before).push(e@));
                assert(lag_features(column@, self.lag_list().take(i + 1)) =~= lag_features(
                    column@,
                    self.lag_list().take(i as int),
                ).push(e@));
            }
            i = i + 1;
        }
        proof {
            assert(self.lag_list().take(n as int) =~= self.lag_list());
        }
    }

    fn push_rolling(&self, column: &str, out: &mut Vec<FeatureExpr>)
        ensures
            expr_views(final(out)@) == expr_views(old(out)@) + rolling_features(
                column@,
                self.window_list(),
            ),
    {
        let n = self.rolling_windows.len();
        let mut i: usize = 0;
        while i < n
            invariant
                n == self.rolling_windows@.len(),
                i <= n,
                expr_views(out@) == expr_views(old(out)@) + rolling_features(
                    column@,
                    self.window_list().take(i as int),
                ),
            decreases n - i,
        {
            let window = self.rolling_windows[i];
            let e = FeatureExpr::RollingMean {
                column: String::from_str(column),
                window,
                alias: rolling_column_name(column, window),
            };
            let ghost before = out@;
            out.push(e);
            proof {
                assert(expr_views(out@) =~= expr_views(before).push(e@));
                assert(rolling_features(column@, self.window_list().take(i + 1)) =~= rolling_features(
                    column@,
                    self.window_list().take(i as int),
                ).push(e@));
            }
            i = i + 1;
        }
        proof {
            assert(self.window_list().take(n as int) =~= self.window_list());
        }
    }

    /// The lag features of `column`, one per configured lag.
    pub fn create_lags_polars(&self, column: &str) -> (exprs: Vec<FeatureExpr>)
        ensures
            expr_views(exprs@) == lag_features(column@, self.lag_list()),
    {
        let mut exprs: Vec<FeatureExpr> = Vec::new();
        self.push_lags(column, &mut exprs);
        proof {
            assert(expr_views(exprs@) =~= Seq::<FeatureSpec>::empty() + lag_features(
                column@,
                self.lag_list(),
            ));
        }
        exprs
    }

    /// The trailing mean of `column` over `window` rows.
    pub fn rolling_mean_polars(&self, column: &str, window: usize) -> (expr: FeatureExpr)
        ensures
            expr@ == (FeatureSpec::RollingMean {
                column: column@,
                window,
                alias: rolling_mean_name(column@, window as nat),
            }),
    {
        FeatureExpr::RollingMean {
            column: String::from_str(column),
            window,
            alias: rolling_mean_column_name(column, window),
        }
    }

    /// The expanding mean of `column`.
    pub fn expanding_mean_polars(&self, column: &str) -> (expr: FeatureExpr)
        ensures
            expr@ == (FeatureSpec::ExpandingMean {
                column: column@,
                alias: expanding_mean_name(column@),
            }),
    {
        FeatureExpr::ExpandingMean {
            column: String::from_str(column),
            alias: expanding_mean_column_name(column),
        }
    }

    /// Every lag and trailing-mean feature of every column: per column, its
    /// lags in order and then its windows in order.
    pub fn create_features_parallel(&self, columns: &Vec<String>) -> (exprs: Vec<FeatureExpr>)
        ensures
            expr_views(exprs@) == all_features(
                columns@.map_values(|c: String| c@),
                self.lag_list(),
                self.window_list(),
            ),
    {
        let mut exprs: Vec<FeatureExpr> = Vec::new();
        let ghost names = columns@.map_values(|c: String| c@);
        let n = columns.len();
        let mut i: usize = 0;
        proof {
            assert(names.take(0) =~= Seq::<Seq<char>>::empty());
        }
        while i < n
            invariant
                n == columns@.len(),
                names == columns@.map_values(|c: String| c@),
                i <= n,
                expr_views(exprs@) == all_features(
                    names.take(i as int),
                    self.lag_list(),
                    self.window_list(),
                ),
            decreases n - i,
        {
            let column = columns[i].as_str();
            self.push_lags(column, &mut exprs);
            self.push_rolling(column, &mut exprs);
            proof {
                assert(names.take(i + 1).drop_last() =~= names.take(i as int));
                assert(names.take(i + 1).last() == column@);
            }
            i = i + 1;
        }
        proof {
            assert(names.take(n as int) =~= names);
        }
        exprs
    }

    /// The configured lags.
    pub fn lags(&self) -> (l: &Vec<usize>)
        ensures
            l@ == self.lag_list(),
    {
        &self.lags
    }

    /// The configured trailing-mean windows.
    pub fn rolling_windows(&self) -> (w: &Vec<usize>)
        ensures
            w@ == self.window_list(),
    {
        &self.rolling_windows
    }
}

/// The time stamps are in ascending order.
pub open spec fn sorted_ascending(times: Seq<i64>) -> bool {
    forall|a: int, b: int| 0 <= a <= b < times.len() ==> times[a] <= times[b]
}

/// The time stamps reach back to the training end and forward to the test
/// start: some stamp is at or before `train_end`, and some at or after
/// `test_start`.
pub open spec fn covers_split(times: Seq<i64>, train_end: i64, test_start: i64) -> bool {
    &&& exists|k: int| 0 <= k < times.len() && #[trigger] times[k] <= train_end
    &&& exists|k: int| 0 <= k < times.len() && #[trigger] times[k] >= test_start
}

/// Splits frames at a time cutoff; the cutoff is kept as text.
pub struct PolarsValidator {
    train_end_col: Option<String>,
    test_start_col: Option<String>,
    train_end_value: Ghost<Option<i64>>,
    test_start_value: Ghost<Option<i64>>,
}

/// Text `t` is the decimal text of the integer `v`, when both are present.
pub open spec fn holds_decimal(t: Option<String>, v: Option<i64>) -> bool {
    match (t, v) {
        (Some(s), Some(x)) => s@ == signed_decimal(x as int),
        (None, None) => true,
        _ => false,
    }
}

impl PolarsValidator {
    /// The stored texts are the decimal texts of the split's two ends.
    #[verifier::type_invariant]
    spec fn texts_match_values(self) -> bool {
        &&& holds_decimal(self.train_end_col, self.train_end_value@)
        &&& holds_decimal(self.test_start_col, self.test_start_value@)
    }

    /// The training cutoff, once a split has been set.
    pub closed spec fn cutoff(&self) -> Option<i64> {
        self.train_end_value@
    }

    /// The start of the test period, once a split has been set.
    pub closed spec fn test_begin(&self) -> Option<i64> {
        self.test_start_value@
    }

    /// A validator with no split set.
    pub fn new() -> (v: Self)
        ensures
            v.cutoff() is None,
            v.test_begin() is None,
    {
        PolarsValidator {
            train_end_col: None,
            test_start_col: None,
            train_end_value: Ghost(None),
            test_start_value: Ghost(None),
        }
    }

    /// Decides a split against the frame's time column: the test period must
    /// start after the training period ends, the column must be sorted in
    /// ascending order and hold a time stamp, and it must reach back to the
    /// training end and forward to the test start.
    pub fn validate_temporal_split(
        &self,
        time_column: &[i64],
        train_end: i64,
        test_start: i64,
    ) -> (r: Result<bool, TemporalError>)
        ensures
            !split_is_ordered(train_end, test_start) ==> r == Err::<bool, TemporalError>(
                TemporalError::TestStartNotAfterTrainEnd,
            ),
            split_is_ordered(train_end, test_start) && !sorted_ascending(time_column@) ==> r
                == Err::<bool, TemporalError>(TemporalError::TimeColumnNotSorted),
            split_is_ordered(train_end, test_start) && sorted_ascending(time_column@)
                && time_column@.len() == 0 ==> r == Err::<bool, TemporalError>(
                TemporalError::EmptyTimeColumn,
            ),
            split_is_ordered(train_end, test_start) && sorted_ascending(time_column@)
                && time_column@.len() > 0 && !covers_split(time_column@, train_end, test_start) ==> r == Err::<
                bool,
                TemporalError,
            >(TemporalError::RangeDoesNotCoverSplit),
            split_is_ordered(train_end, test_start) && sorted_ascending(time_column@)
                && covers_split(time_column@, train_end, test_start) ==> r == Ok::<
                bool,
                TemporalError,
            >(true),
    {
        check_split_order(train_end, test_start)?;
        let n = time_column.len();
        let mut i: usize = 1;
        while i < n
            invariant
                n == time_column@.len(),
                split_is_ordered(train_end, test_start),
                1 <= i,
                i <= n || n == 0,
                forall|a: int, b: int|
                    0 <= a <= b < i && b < n ==> #[trigger] time_column@[a] <= #[trigger] time_column@[b],
            decreases n - i,
        {
            if time_column[i - 1] > time_column[i] {
                proof {
                    assert(!sorted_ascending(time_column@)) by {
                        assert(time_column@[i - 1] > time_column@[i as int]);
                    }
                }
                return Err(TemporalError::TimeColumnNotSorted);
            }
            proof {
                assert forall|a: int, b: int|
                    0 <= a <= b < i + 1 && b < n implies #[trigger] time_column@[a] <= #[trigger] time_column@[b] by {
                    if b == i && a < i {
                        assert(time_column@[a] <= time_column@[i - 1]);
                    }
                }
            }
            i = i + 1;
        }
        if n == 0 {
            return Err(TemporalError::EmptyTimeColumn);
        }
        let first = time_column[0];
        let last = time_column[n - 1];
        if first > train_end || last < test_start {
            proof {
                if first > train_end {
                    assert forall|k: int| 0 <= k < n implies #[trigger] time_column@[k] > train_end by {
                        assert(time_column@[0] <= time_column@[k]);
                    }
                } else {
                    assert forall|k: int| 0 <= k < n implies #[trigger] time_column@[k] < test_start by {
                        assert(time_column@[k] <= time_column@[n - 1]);
                    }
                }
            }
            return Err(TemporalError::RangeDoesNotCoverSplit);
        }
        proof {
            assert(time_column@[0] <= train_end);
            assert(time_column@[n - 1] >= test_start);
        }
        Ok(true)
    }

    /// Sets the split, keeping both ends as decimal text; refuses a test
    /// period that does not start after the training period, and then leaves
    /// the split as it was.
    pub fn set_split(&mut self, train_end: i64, test_start: i64) -> (r: Result<(), TemporalError>)
        ensures
            r is Ok <==> split_is_ordered(train_end, test_start),
            r is Ok ==> final(self).cutoff() == Some(train_end) && final(self).test_begin() == Some(
                test_start,
            ),
            r is Err ==> r == Err::<(), TemporalError>(TemporalError::TestStartNotAfterTrainEnd)
                && final(self).cutoff() == old(self).cutoff() && final(self).test_begin() == old(
                self,
            ).test_begin(),
            (final(self).cutoff(), final(self).test_begin()) == split_after(
                (old(self).cutoff(), old(self).test_begin()),
                train_end,
                test_start,
            ),
    {
        check_split_order(train_end, test_start)?;
        *self = PolarsValidator {
            train_end_col: Some(i64_text(train_end)),
            test_start_col: Some(i64_text(test_start)),
            train_end_value: Ghost(Some(train_end)),
            test_start_value: Ghost(Some(test_start)),
        };
        Ok(())
    }

    /// Accepts a feature stamped `feature_ts` unless a split is set and the
    /// feature reads past its training cutoff.
    pub fn check_feature_window(&self, feature_ts: i64) -> (r: Result<bool, TemporalError>)
        ensures
            r is Ok <==> feature_admissible(self.cutoff(), feature_ts),
            r is Ok ==> r == Ok::<bool, TemporalError>(true),
            r is Err ==> r == Err::<bool, TemporalError>(
                TemporalError::FeatureAfterCutoff { feature_timestamp: feature_ts },
            ),
    {
        proof {
            use_type_invariant(self);
        }
        if let Some(train_end_str) = &self.train_end_col {
            let train_end: i64 = match parse_i64(train_end_str.as_str()) {
                Some(v) => v,
                None => i64::MAX,
            };
            proof {
                let v = self.train_end_value@->0;
                assert(train_end_str@ == signed_decimal(v as int));
            }
            if feature_ts > train_end {
                return Err(TemporalError::FeatureAfterCutoff { feature_timestamp: feature_ts });
            }
        }
        Ok(true)
    }
}

/// A Polars validator and a temporal validator, both created without a
/// split and then given the same sequence of split requests, hold the same
/// split after every request (that of the last ordered request so far), and so
/// accept exactly the same features.
pub proof fn law_validators_agree_over_splits(
    calls: Seq<(i64, i64)>,
    temporal: Seq<TemporalValidator>,
    polars: Seq<PolarsValidator>,
)
    requires
        temporal.len() == calls.len() + 1,
        polars.len() == calls.len() + 1,
        temporal[0].cutoff() is None && temporal[0].test_begin() is None,
        polars[0].cutoff() is None && polars[0].test_begin() is None,
        forall|k: int|
            0 < k <= calls.len() ==> ((#[trigger] temporal[k]).cutoff(), temporal[k].test_begin())
                == split_after(
                (temporal[k - 1].cutoff(), temporal[k - 1].test_begin()),
                calls[k - 1].0,
                calls[k - 1].1,
            ),
        forall|k: int|
            0 < k <= calls.len() ==> ((#[trigger] polars[k]).cutoff(), polars[k].test_begin())
                == split_after(
                (polars[k - 1].cutoff(), polars[k - 1].test_begin()),
                calls[k - 1].0,
                calls[k - 1].1,
            ),
    ensures
        forall|k: int|
            0 <= k <= calls.len() ==> ((#[trigger] temporal[k]).cutoff(), temporal[k].test_begin())
                == splits_applied(calls.take(k)) && (polars[k].cutoff(), polars[k].test_begin())
                == splits_applied(calls.take(k)),
        forall|k: int, ts: i64|
            0 <= k <= calls.len() ==> #[trigger] feature_admissible(temporal[k].cutoff(), ts)
                == feature_admissible(polars[k].cutoff(), ts),
{
    let ts_states = temporal.map_values(|v: TemporalValidator| (v.cutoff(), v.test_begin()));
    let ps_states = polars.map_values(|v: PolarsValidator| (v.cutoff(), v.test_begin()));
    assert forall|j: int| 0 < j <= calls.len() implies #[trigger] ts_states[j] == split_after(
        ts_states[j - 1],
        calls[j - 1].0,
        calls[j - 1].1,
    ) by {
        assert(((temporal[j]).cutoff(), temporal[j].test_begin()) == split_after(
            (temporal[j - 1].cutoff(), temporal[j - 1].test_begin()),
            calls[j - 1].0,
            calls[j - 1].1,
        ));
    }
    assert forall|j: int| 0 < j <= calls.len() implies #[trigger] ps_states[j] == split_after(
        ps_states[j - 1],
        calls[j - 1].0,
        calls[j - 1].1,
    ) by {
        assert(((polars[j]).cutoff(), polars[j].test_begin()) == split_after(
            (polars[j - 1].cutoff(), polars[j - 1].test_begin()),
            calls[j - 1].0,
            calls[j - 1].1,
        ));
    }
    assert forall|k: int| 0 <= k <= calls.len() implies ((#[trigger] temporal[k]).cutoff(),
        temporal[k].test_begin()) == splits_applied(calls.take(k)) && (polars[k].cutoff(),
        polars[k].test_begin()) == splits_applied(calls.take(k)) by {
        lemma_states_follow_splits(calls, ts_states, k);
        lemma_states_follow_splits(calls, ps_states, k);
    }
}

} // verus!
