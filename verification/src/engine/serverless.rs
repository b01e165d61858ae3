use vstd::prelude::*;
use vstd::string::StringExecFns;

verus! {

/// One backtest fold: the model trains on `[train_start, train_end)` and is
/// tested on `[train_end, test_end)`.
#[derive(Debug, Clone, Copy, PartialEq, Eq, Structural)]
pub struct Fold {
    pub train_start: usize,
    pub train_end: usize,
    pub test_end: usize,
}

/// Fold `i` of an expanding-window backtest: training always starts at 0 and
/// ends `min_train + i * step`, and the test window of `test_size` follows.
pub open spec fn expanding_fold(min_train: int, step: int, test_size: int, i: int) -> (int, int, int) {
    (0, min_train + i * step, min_train + i * step + test_size)
}

/// Fold `i` of a rolling-window backtest: training covers `window` values
/// starting at `i * step`, and the test window of `test_size` follows.
pub open spec fn rolling_fold(window: int, step: int, test_size: int, i: int) -> (int, int, int) {
    (i * step, i * step + window, i * step + window + test_size)
}

pub open spec fn fold_as_ints(f: Fold) -> (int, int, int) {
    (f.train_start as int, f.train_end as int, f.test_end as int)
}

/// The folds are the first folds of `plan` that fit in `data_len` values, at
/// most `n_splits` of them, stopping at the first that does not fit.
pub open spec fn folds_follow_plan(
    folds: Seq<Fold>,
    plan: spec_fn(int) -> (int, int, int),
    n_splits: int,
    data_len: int,
) -> bool {
    &&& folds.len() <= n_splits
    &&& forall|k: int|
        0 <= k < folds.len() ==> fold_as_ints(#[trigger] folds[k]) == plan(k) && plan(k).2
            <= data_len
    &&& folds.len() < n_splits ==> plan(folds.len() as int).2 > data_len
}

/// Computing the folds of `plan` stays within machine integers: every fold
/// that is computed (the first one, and each one after a fold that fit) ends
/// at a representable index.
pub open spec fn plan_representable(
    plan: spec_fn(int) -> (int, int, int),
    n_splits: int,
    data_len: int,
) -> bool {
    forall|i: int|
        0 <= i < n_splits && (i == 0 || plan(i - 1).2 <= data_len) ==> #[trigger] plan(i).2
            <= usize::MAX
}

/// Fold ends of a plan whose `i`-th fold ends at `base + i * step` grow with
/// `i`.
proof fn lemma_fold_ends_grow(plan: spec_fn(int) -> (int, int, int), base: int, step: int)
    requires
        step >= 0,
        forall|i: int| #[trigger] plan(i).2 == base + i * step,
    ensures
        forall|i: int, j: int| 0 <= i <= j ==> #[trigger] plan(i).2 <= #[trigger] plan(j).2,
{
    assert forall|i: int, j: int| 0 <= i <= j implies #[trigger] plan(i).2 <= #[trigger] plan(j).2 by {
        vstd::arithmetic::mul::lemma_mul_inequality(i, j, step);
    }
}

/// When fold ends grow and fold `i` is the first that overruns the data
/// while still ending at a representable index, the plan is representable.
proof fn lemma_first_overrun_in_range(
    plan: spec_fn(int) -> (int, int, int),
    n_splits: int,
    data_len: int,
    i: int,
)
    requires
        0 <= i,
        forall|a: int, b: int| 0 <= a <= b ==> #[trigger] plan(a).2 <= #[trigger] plan(b).2,
        forall|j: int| 0 <= j < i ==> #[trigger] plan(j).2 <= data_len,
        data_len < plan(i).2 <= usize::MAX,
    ensures
        plan_representable(plan, n_splits, data_len),
{
    assert forall|j: int| 0 <= j < n_splits && (j == 0 || plan(j - 1).2 <= data_len) implies #[trigger] plan(j).2 <= usize::MAX by {
        if j > i {
            assert(plan(i).2 <= plan(j - 1).2);
        } else if j < i {
            assert(plan(j).2 <= data_len);
        }
    }
}

/// Splits of a series into training and test windows for backtests.
pub struct BacktestRunner {
    n_splits: usize,
    test_size: usize,
    step_size: usize,
}

impl BacktestRunner {
    pub closed spec fn splits(&self) -> nat {
        self.n_splits as nat
    }

    pub closed spec fn test_len(&self) -> nat {
        self.test_size as nat
    }

    pub closed spec fn step(&self) -> nat {
        self.step_size as nat
    }

    /// The expanding-window plan of this runner.
    pub open spec fn expanding_plan(&self, min_train: int) -> spec_fn(int) -> (int, int, int) {
        |i: int| expanding_fold(min_train, self.step() as int, self.test_len() as int, i)
    }

    /// The rolling-window plan of this runner.
    pub open spec fn rolling_plan(&self, window_size: int) -> spec_fn(int) -> (int, int, int) {
        |i: int| rolling_fold(window_size, self.step() as int, self.test_len() as int, i)
    }

    /// A runner with `n_splits` folds (5), test windows of `test_size` (30)
    /// and folds `step_size` apart (1).
    pub fn new(n_splits: Option<usize>, test_size: Option<usize>, step_size: Option<usize>) -> (r:
        Self)
        ensures
            r.splits() == match n_splits {
                Some(n) => n as nat,
                None => 5,
            },
            r.test_len() == match test_size {
                Some(n) => n as nat,
                None => 30,
            },
            r.step() == match step_size {
                Some(n) => n as nat,
                None => 1,
            },
    {
        BacktestRunner {
            n_splits: match n_splits {
                Some(n) => n,
                None => 5,
            },
            test_size: match test_size {
                Some(n) => n,
                None => 30,
            },
            step_size: match step_size {
                Some(n) => n,
                None => 1,
            },
        }
    }

    /// The folds of an expanding-window backtest over `data_len` values whose
    /// first training window holds `min_train` values.
    pub fn expanding_window_folds(&self, data_len: usize, min_train: usize) -> (folds: Vec<Fold>)
        requires
            plan_representable(self.expanding_plan(min_train as int), self.splits() as int, data_len as int),
        ensures
            folds_follow_plan(folds@, self.expanding_plan(min_train as int), self.splits() as int, data_len as int),
    {
        let ghost plan = self.expanding_plan(min_train as int);
        let mut folds: Vec<Fold> = Vec::new();
        let mut i: usize = 0;
        while i < self.n_splits
            invariant
                i <= self.n_splits,
                folds@.len() == i,
                plan == self.expanding_plan(min_train as int),
                plan_representable(plan, self.splits() as int, data_len as int),
                forall|k: int|
                    0 <= k < folds@.len() ==> fold_as_ints(#[trigger] folds@[k]) == plan(k)
                        && plan(k).2 <= data_len,
            decreases self.n_splits - i,
        {
            proof {
                if i > 0 {
                    assert(fold_as_ints(folds@[i - 1]) == plan(i - 1));
                    assert(plan((i - 1) as int).2 <= data_len);
                }
                assert(plan(i as int).2 <= usize::MAX);
            }
            let train_end = min_train + i * self.step_size;
            let test_end = train_end + self.test_size;
            if test_end > data_len {
                return folds;
            }
            let ghost before = folds@;
            folds.push(Fold { train_start: 0, train_end, test_end });
            proof {
                assert(fold_as_ints(folds@[i as int]) == plan(i as int));
                assert forall|k: int| 0 <= k < i implies #[trigger] folds@[k] == before[k] by {}
            }
            i = i + 1;
        }
        folds
    }

    /// The folds of a rolling-window backtest over `data_len` values with
    /// training windows of `window_size` values.
    pub fn rolling_window_folds(&self, data_len: usize, window_size: usize) -> (folds: Vec<Fold>)
        requires
            plan_representable(self.rolling_plan(window_size as int), self.splits() as int, data_len as int),
        ensures
            folds_follow_plan(folds@, self.rolling_plan(window_size as int), self.splits() as int, data_len as int),
    {
        let ghost plan = self.rolling_plan(window_size as int);
        let mut folds: Vec<Fold> = Vec::new();
        let mut i: usize = 0;
        while i < self.n_splits
            invariant
                i <= self.n_splits,
                folds@.len() == i,
                plan == self.rolling_plan(window_size as int),
                plan_representable(plan, self.splits() as int, data_len as int),
                forall|k: int|
                    0 <= k < folds@.len() ==> fold_as_ints(#[trigger] folds@[k]) == plan(k)
                        && plan(k).2 <= data_len,
            decreases self.n_splits - i,
        {
            proof {
                if i > 0 {
                    assert(fold_as_ints(folds@[i - 1]) == plan(i - 1));
                    assert(plan((i - 1) as int).2 <= data_len);
                }
                assert(plan(i as int).2 <= usize::MAX);
            }
            let train_start = i * self.step_size;
            let train_end = train_start + window_size;
            let test_end = train_end + self.test_size;
            if test_end > data_len {
                return folds;
            }
            let ghost before = folds@;
            folds.push(Fold { train_start, train_end, test_end });
            proof {
                assert(fold_as_ints(folds@[i as int]) == plan(i as int));
                assert forall|k: int| 0 <= k < i implies #[trigger] folds@[k] == before[k] by {}
            }
            i = i + 1;
        }
        folds
    }

    /// Whether computing the expanding-window folds over `data_len` values
    /// stays within machine integers.
    pub fn expanding_window_in_range(&self, data_len: usize, min_train: usize) -> (ok: bool)
        ensures
            ok == plan_representable(self.expanding_plan(min_train as int), self.splits() as int, data_len as int),
    {
        let ghost plan = self.expanding_plan(min_train as int);
        let mut i: usize = 0;
        while i < self.n_splits
            invariant
                i <= self.n_splits,
                plan == self.expanding_plan(min_train as int),
                forall|j: int| 0 <= j < i ==> #[trigger] plan(j).2 <= data_len,
            decreases self.n_splits - i,
        {
            let end = match i.checked_mul(self.step_size) {
                Some(p) => match p.checked_add(min_train) {
                    Some(q) => q.checked_add(self.test_size),
                    None => None,
                },
                None => None,
            };
            match end {
                None => {
                    proof {
                        if i > 0 {
                            assert(plan((i - 1) as int).2 <= data_len);
                        }
                        assert(!(plan(i as int).2 <= usize::MAX));
                    }
                    return false;
                },
                Some(e) => {
                    if e > data_len {
                        proof {
                            lemma_fold_ends_grow(plan, min_train as int + self.test_len(), self.step() as int);
                            lemma_first_overrun_in_range(plan, self.splits() as int, data_len as int, i as int);
                        }
                        return true;
                    }
                },
            }
            i = i + 1;
        }
        true
    }

    /// Whether computing the rolling-window folds over `data_len` values
    /// stays within machine integers.
    pub fn rolling_window_in_range(&self, data_len: usize, window_size: usize) -> (ok: bool)
        ensures
            ok == plan_representable(self.rolling_plan(window_size as int), self.splits() as int, data_len as int),
    {
        let ghost plan = self.rolling_plan(window_size as int);
        let mut i: usize = 0;
        while i < self.n_splits
            invariant
                i <= self.n_splits,
                plan == self.rolling_plan(window_size as int),
                forall|j: int| 0 <= j < i ==> #[trigger] plan(j).2 <= data_len,
            decreases self.n_splits - i,
        {
            let end = match i.checked_mul(self.step_size) {
                Some(p) => match p.checked_add(window_size) {
                    Some(q) => q.checked_add(self.test_size),
                    None => None,
                },
                None => None,
            };
            match end {
                None => {
                    proof {
                        if i > 0 {
                            assert(plan((i - 1) as int).2 <= data_len);
                        }
                        assert(!(plan(i as int).2 <= usize::MAX));
                    }
                    return false;
                },
                Some(e) => {
                    if e > data_len {
                        proof {
                            lemma_fold_ends_grow(plan, window_size as int + self.test_len(), self.step() as int);
                            lemma_first_overrun_in_range(plan, self.splits() as int, data_len as int, i as int);
                        }
                        return true;
                    }
                },
            }
            i = i + 1;
        }
        true
    }

    /// The number of folds.
    pub fn n_splits(&self) -> (n: usize)
        ensures
            n == self.splits(),
    {
        self.n_splits
    }

    /// The length of each test window.
    pub fn test_size(&self) -> (n: usize)
        ensures
            n == self.test_len(),
    {
        self.test_size
    }

    /// The distance between consecutive folds.
    pub fn step_size(&self) -> (n: usize)
        ensures
            n == self.step(),
    {
        self.step_size
    }
}

/// In an expanding-window backtest fold `k` trains on the first
/// `min_train + k * step` values of the series (the first fold on exactly
/// `min_train`), tests on the `test_size` values right after them, and stays
/// within the data; there are `n_splits` folds unless the next one would run
/// past the data.
pub proof fn law_expanding_folds(
    folds: Seq<Fold>,
    min_train: int,
    step: int,
    test_size: int,
    n_splits: int,
    data_len: int,
)
    requires
        folds_follow_plan(
            folds,
            |i: int| expanding_fold(min_train, step, test_size, i),
            n_splits,
            data_len,
        ),
    ensures
        forall|k: int|
            0 <= k < folds.len() ==> {
                &&& #[trigger] folds[k].train_start == 0
                &&& folds[k].train_end == min_train + k * step
                &&& folds[k].test_end - folds[k].train_end == test_size
                &&& folds[k].test_end <= data_len
            },
        forall|k: int|
            0 < k < folds.len() ==> #[trigger] folds[k].train_end - folds[k - 1].train_end == step,
        folds.len() <= n_splits,
        folds.len() < n_splits ==> min_train + folds.len() * step + test_size > data_len,
{
    assert forall|k: int| 0 < k < folds.len() implies #[trigger] folds[k].train_end - folds[k - 1].train_end == step by {
        assert(fold_as_ints(folds[k]) == expanding_fold(min_train, step, test_size, k));
        assert(fold_as_ints(folds[k - 1]) == expanding_fold(min_train, step, test_size, k - 1));
        assert(k * step - (k - 1) * step == step) by (nonlinear_arith);
    }
    assert forall|k: int| 0 <= k < folds.len() implies {
        &&& #[trigger] folds[k].train_start == 0
        &&& folds[k].train_end == min_train + k * step
        &&& folds[k].test_end - folds[k].train_end == test_size
        &&& folds[k].test_end <= data_len
    } by {
        assert(fold_as_ints(folds[k]) == expanding_fold(min_train, step, test_size, k));
    }
}

/// In a rolling-window backtest every fold trains on exactly `window` values
/// starting `k * step` into the series, tests on the `test_size` values
/// right after them, and stays within the data; there are `n_splits` folds
/// unless the next one would run past the data.
pub proof fn law_rolling_folds(
    folds: Seq<Fold>,
    window: int,
    step: int,
    test_size: int,
    n_splits: int,
    data_len: int,
)
    requires
        folds_follow_plan(
            folds,
            |i: int| rolling_fold(window, step, test_size, i),
            n_splits,
            data_len,
        ),
    ensures
        forall|k: int|
            0 <= k < folds.len() ==> {
                &&& #[trigger] folds[k].train_start == k * step
                &&& folds[k].train_end - folds[k].train_start == window
                &&& folds[k].test_end - folds[k].train_end == test_size
                &&& folds[k].test_end <= data_len
            },
        folds.len() <= n_splits,
        folds.len() < n_splits ==> folds.len() * step + window + test_size > data_len,
{
    assert forall|k: int| 0 <= k < folds.len() implies {
        &&& #[trigger] folds[k].train_start == k * step
        &&& folds[k].train_end - folds[k].train_start == window
        &&& folds[k].test_end - folds[k].train_end == test_size
        &&& folds[k].test_end <= data_len
    } by {
        assert(fold_as_ints(folds[k]) == rolling_fold(window, step, test_size, k));
    }
}

/// Where serverless backtest jobs are sent.
pub struct ServerlessConfig {
    pub lambda_function: String,
    pub timeout: u32,
    pub memory_mb: u32,
}

impl ServerlessConfig {
    /// A configuration for `lambda_function` (`zeno-backtest`) with a
    /// `timeout` in seconds (300) and `memory_mb` of memory (3008).
    pub fn new(lambda_function: Option<String>, timeout: Option<u32>, memory_mb: Option<u32>) -> (c:
        Self)
        ensures
            c.lambda_function@ == match lambda_function {
                Some(f) => f@,
                None => "zeno-backtest"@,
            },
            c.timeout == match timeout {
                Some(t) => t,
                None => 300,
            },
            c.memory_mb == match memory_mb {
                Some(m) => m,
                None => 3008,
            },
    {
        ServerlessConfig {
            lambda_function: match lambda_function {
                Some(f) => f,
                None => String::from_str("zeno-backtest"),
            },
            timeout: match timeout {
                Some(t) => t,
                None => 300,
            },
            memory_mb: match memory_mb {
                Some(m) => m,
                None => 3008,
            },
        }
    }
}

} // verus!
