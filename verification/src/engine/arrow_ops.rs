use vstd::prelude::*;

verus! {

/// A nullable column shifted down by `lag` rows: `lag` nulls, then the
/// column's first `len - lag` entries (none when `lag` reaches past the
/// column), nulls kept where they were.
pub open spec fn shifted_column<T>(values: Seq<Option<T>>, lag: nat) -> Seq<Option<T>> {
    Seq::new(lag, |i: int| None::<T>) + if lag < values.len() {
        values.take(values.len() - lag)
    } else {
        Seq::empty()
    }
}

/// Shifts a nullable column down by `lag` rows.
pub fn shift_nullable_column<T: Copy>(values: &[Option<T>], lag: usize) -> (out: Vec<Option<T>>)
    ensures
        out@ == shifted_column(values@, lag as nat),
{
    let mut out: Vec<Option<T>> = Vec::new();
    let mut i: usize = 0;
    while i < lag
        invariant
            i <= lag,
            out@ == Seq::new(i as nat, |j: int| None::<T>),
        decreases lag - i,
    {
        out.push(None);
        i = i + 1;
        proof {
            assert(out@ =~= Seq::new(i as nat, |j: int| None::<T>));
        }
    }
    let n = values.len();
    let keep: usize = if lag < n {
        n - lag
    } else {
        0
    };
    let mut k: usize = 0;
    while k < keep
        invariant
            keep <= n,
            n == values@.len(),
            k <= keep,
            keep == (if lag < n { n - lag } else { 0 }),
            out@ == Seq::new(lag as nat, |j: int| None::<T>) + values@.take(k as int),
        decreases keep - k,
    {
        let v: Option<T> = values[k];
        out.push(v);
        k = k + 1;
        proof {
            assert(out@ =~= Seq::new(lag as nat, |j: int| None::<T>) + values@.take(k as int));
        }
    }
    proof {
        if lag < n {
            assert(out@ =~= shifted_column(values@, lag as nat));
        } else {
            assert(values@.take(0) =~= Seq::<Option<T>>::empty());
            assert(out@ =~= shifted_column(values@, lag as nat));
        }
    }
    out
}

/// The present entries of a nullable column, in order.
pub open spec fn present<T>(values: Seq<Option<T>>) -> Seq<T>
    decreases values.len(),
{
    if values.len() == 0 {
        Seq::empty()
    } else {
        let earlier = present(values.drop_last());
        match values.last() {
            Some(v) => earlier.push(v),
            None => earlier,
        }
    }
}

/// The present entries of a nullable column, nulls skipped.
pub fn present_values<T: Copy>(values: &[Option<T>]) -> (out: Vec<T>)
    ensures
        out@ == present(values@),
{
    let mut out: Vec<T> = Vec::new();
    let n = values.len();
    let mut i: usize = 0;
    while i < n
        invariant
            n == values@.len(),
            i <= n,
            out@ == present(values@.take(i as int)),
        decreases n - i,
    {
        proof {
            assert(values@.take(i + 1).drop_last() =~= values@.take(i as int));
        }
        let entry: Option<T> = values[i];
        match entry {
            Some(v) => out.push(v),
            None => {},
        }
        i = i + 1;
    }
    proof {
        assert(values@.take(n as int) =~= values@);
    }
    out
}

/// The last state written before position `i` of a scanned column, or none
/// when every earlier position is a gap.
pub open spec fn state_before<U>(out: Seq<Option<U>>, i: int) -> Option<U>
    decreases i,
{
    if i <= 0 {
        None
    } else if out[i - 1] is Some {
        out[i - 1]
    } else {
        state_before(out, i - 1)
    }
}

/// Extending a scanned column leaves the states before its old end as they
/// were.
proof fn lemma_state_before_extend<U>(out: Seq<Option<U>>, x: Option<U>, i: int)
    requires
        0 <= i <= out.len(),
    ensures
        state_before(out.push(x), i) == state_before(out, i),
    decreases i,
{
    if i > 0 {
        assert(out.push(x)[i - 1] == out[i - 1]);
        lemma_state_before_extend(out, x, i - 1);
    }
}

/// Scans the present entries of a nullable column with `step`, keeping the
/// gaps: a null stays null and leaves the state alone, and a present value `v`
/// is replaced by `step(previous state, v)`, which becomes the new state (the
/// state starts as none).
pub fn scan_present<T: Copy, U: Copy, F: Fn(Option<U>, T) -> U>(
    values: &[Option<T>],
    step: F,
) -> (out: Vec<Option<U>>)
    requires
        forall|prev: Option<U>, v: T| #[trigger] call_requires(step, (prev, v)),
    ensures
        out@.len() == values@.len(),
        forall|i: int| 0 <= i < values@.len() ==> (#[trigger] out@[i] is None <==> values@[i] is None),
        forall|i: int|
            0 <= i < values@.len() && values@[i] is Some ==> call_ensures(
                step,
                (state_before(out@, i), values@[i]->0),
                #[trigger] out@[i]->0,
            ),
{
    let mut out: Vec<Option<U>> = Vec::new();
    let mut state: Option<U> = None;
    let n = values.len();
    let mut i: usize = 0;
    while i < n
        invariant
            n == values@.len(),
            i <= n,
            out@.len() == i,
            forall|prev: Option<U>, v: T| #[trigger] call_requires(step, (prev, v)),
            state == state_before(out@, i as int),
            forall|j: int| 0 <= j < i ==> (#[trigger] out@[j] is None <==> values@[j] is None),
            forall|j: int|
                0 <= j < i && values@[j] is Some ==> call_ensures(
                    step,
                    (state_before(out@, j), values@[j]->0),
                    #[trigger] out@[j]->0,
                ),
        decreases n - i,
    {
        let ghost before = out@;
        let entry: Option<T> = values[i];
        match entry {
            Some(v) => {
                let u = step(state, v);
                out.push(Some(u));
                state = Some(u);
            },
            None => {
                out.push(None);
            },
        }
        proof {
            assert forall|j: int| 0 <= j <= i implies state_before(out@, j) == state_before(
                before,
                j,
            ) by {
                lemma_state_before_extend(before, out@[i as int], j);
            }
        }
        i = i + 1;
    }
    out
}

} // verus!
