use vstd::prelude::*;

verus! {

/// Why a temporal check refused its input.
#[derive(Debug, Clone, Copy, PartialEq, Eq, Structural)]
pub enum TemporalError {
    /// The test period does not start after the training period ends.
    TestStartNotAfterTrainEnd,
    /// A feature reads data stamped after the training cutoff.
    FeatureAfterCutoff { feature_timestamp: i64 },
    /// The time column does not reach from the training end to the test start.
    RangeDoesNotCoverSplit,
    /// The time column is not sorted in ascending order.
    TimeColumnNotSorted,
    /// The time column holds no time stamps, so it has no earliest or latest.
    EmptyTimeColumn,
}

/// A split is admissible when the test period starts strictly after the
/// training period ends.
pub open spec fn split_is_ordered(train_end: i64, test_start: i64) -> bool {
    train_end < test_start
}

/// Checks that the test period starts strictly after the training period ends.
pub fn check_split_order(train_end: i64, test_start: i64) -> (r: Result<(), TemporalError>)
    ensures
        r is Ok <==> split_is_ordered(train_end, test_start),
        r is Err ==> r == Err::<(), TemporalError>(TemporalError::TestStartNotAfterTrainEnd),
{
    if test_start <= train_end {
        Err(TemporalError::TestStartNotAfterTrainEnd)
    } else {
        Ok(())
    }
}

/// The split, as `(cutoff, test start)`, that a request to split at
/// `train_end` / `test_start` leaves when `current` is set: the requested one
/// when it is ordered, else the current one unchanged.
pub open spec fn split_after(
    current: (Option<i64>, Option<i64>),
    train_end: i64,
    test_start: i64,
) -> (Option<i64>, Option<i64>) {
    if split_is_ordered(train_end, test_start) {
        (Some(train_end), Some(test_start))
    } else {
        current
    }
}

/// The split that a sequence of split requests, `(train_end, test_start)`
/// each, leaves on a validator that had none: that of the last ordered
/// request, or none.
pub open spec fn splits_applied(calls: Seq<(i64, i64)>) -> (Option<i64>, Option<i64>)
    decreases calls.len(),
{
    if calls.len() == 0 {
        (None, None)
    } else {
        split_after(splits_applied(calls.drop_last()), calls.last().0, calls.last().1)
    }
}

/// States that follow a sequence of split requests from a validator with no
/// split are, after the first `k` requests, what those requests leave.
pub proof fn lemma_states_follow_splits(
    calls: Seq<(i64, i64)>,
    states: Seq<(Option<i64>, Option<i64>)>,
    k: int,
)
    requires
        states.len() == calls.len() + 1,
        states[0] == (None::<i64>, None::<i64>),
        forall|j: int|
            0 < j <= calls.len() ==> #[trigger] states[j] == split_after(
                states[j - 1],
                calls[j - 1].0,
                calls[j - 1].1,
            ),
        0 <= k <= calls.len(),
    ensures
        states[k] == splits_applied(calls.take(k)),
    decreases k,
{
    if k > 0 {
        lemma_states_follow_splits(calls, states, k - 1);
        assert(calls.take(k).drop_last() =~= calls.take(k - 1));
        assert(states[k] == split_after(states[k - 1], calls[k - 1].0, calls[k - 1].1));
    } else {
        assert(calls.take(0) =~= Seq::<(i64, i64)>::empty());
    }
}

/// A feature stamped `feature_timestamp` is admissible under a training
/// cutoff when it does not read past the cutoff; without a cutoff every
/// feature is admissible.
pub open spec fn feature_admissible(cutoff: Option<i64>, feature_timestamp: i64) -> bool {
    match cutoff {
        Some(train_end) => feature_timestamp <= train_end,
        None => true,
    }
}

/// Guards features against reading data from after the training cutoff.
pub struct TemporalValidator {
    train_end: Option<i64>,
    test_start: Option<i64>,
}

impl TemporalValidator {
    /// The two ends of the split are set together.
    #[verifier::type_invariant]
    spec fn split_set_together(self) -> bool {
        self.train_end is Some <==> self.test_start is Some
    }

    /// The training cutoff, once a split has been set.
    pub closed spec fn cutoff(&self) -> Option<i64> {
        self.train_end
    }

    /// The start of the test period, once a split has been set.
    pub closed spec fn test_begin(&self) -> Option<i64> {
        self.test_start
    }

    /// A validator with no split set.
    pub fn new() -> (v: Self)
        ensures
            v.cutoff() is None,
            v.test_begin() is None,
    {
        TemporalValidator { train_end: None, test_start: None }
    }

    /// Sets the train/test boundary; refuses a test period that does not
    /// start after the training period, and then leaves the split as it was.
    pub fn set_split(&mut self, train_end_timestamp: i64, test_start_timestamp: i64) -> (r: Result<
        (),
        TemporalError,
    >)
        ensures
            r is Ok <==> split_is_ordered(train_end_timestamp, test_start_timestamp),
            r is Ok ==> final(self).cutoff() == Some(train_end_timestamp) && final(self).test_begin()
                == Some(test_start_timestamp),
            r is Err ==> r == Err::<(), TemporalError>(TemporalError::TestStartNotAfterTrainEnd)
                && final(self).cutoff() == old(self).cutoff() && final(self).test_begin() == old(
                self,
            ).test_begin(),
            (final(self).cutoff(), final(self).test_begin()) == split_after(
                (old(self).cutoff(), old(self).test_begin()),
                train_end_timestamp,
                test_start_timestamp,
            ),
    {
        check_split_order(train_end_timestamp, test_start_timestamp)?;
        *self = TemporalValidator {
            train_end: Some(train_end_timestamp),
            test_start: Some(test_start_timestamp),
        };
        Ok(())
    }

    /// Accepts a feature stamped `feature_timestamp` unless a split is set and
    /// the feature reads past its training cutoff.
    pub fn check_feature_window(&self, feature_timestamp: i64) -> (r: Result<bool, TemporalError>)
        ensures
            r is Ok <==> feature_admissible(self.cutoff(), feature_timestamp),
            r is Ok ==> r == Ok::<bool, TemporalError>(true),
            r is Err ==> r == Err::<bool, TemporalError>(
                TemporalError::FeatureAfterCutoff { feature_timestamp },
            ),
    {
        proof {
            use_type_invariant(self);
        }
        if let (Some(train_end), Some(_test_start)) = (self.train_end, self.test_start) {
            if feature_timestamp > train_end {
                return Err(TemporalError::FeatureAfterCutoff { feature_timestamp });
            }
        }
        Ok(true)
    }

    /// The training cutoff, if a split is set.
    pub fn train_end(&self) -> (t: Option<i64>)
        ensures
            t == self.cutoff(),
    {
        self.train_end
    }

    /// The start of the test period, if a split is set.
    pub fn test_start(&self) -> (t: Option<i64>)
        ensures
            t == self.test_begin(),
    {
        self.test_start
    }
}

/// After a split has been set, a feature is accepted exactly when it does not
/// read past the training end; a validator without a split accepts every
/// feature.
pub proof fn law_cutoff_decides_features(v: TemporalValidator, train_end: i64, feature_timestamp: i64)
    requires
        v.cutoff() == Some(train_end),
    ensures
        feature_admissible(v.cutoff(), feature_timestamp) <==> feature_timestamp <= train_end,
{
}

} // verus!
