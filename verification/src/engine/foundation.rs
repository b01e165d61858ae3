use vstd::prelude::*;
use vstd::slice::{slice_subrange, slice_to_vec};
use vstd::string::StringExecFns;

verus! {

/// Why a series could not be prepared for a model.
#[derive(Debug, Clone, Copy, PartialEq, Eq, Structural)]
pub enum ContextError {
    /// The series is shorter than one context window.
    NotEnoughValues { needed: usize, got: usize },
}

/// The sliding context windows of a series: every run of `context` consecutive
/// values, in order of their start.
pub open spec fn context_windows<T>(values: Seq<T>, context: nat) -> Seq<Seq<T>> {
    Seq::new(
        (values.len() - context + 1) as nat,
        |i: int| values.subrange(i, i + context),
    )
}

pub open spec fn window_views<T>(ws: Seq<Vec<T>>) -> Seq<Seq<T>> {
    ws.map_values(|w: Vec<T>| w@)
}

/// Settings for a Chronos forecasting model.
pub struct ChronosWrapper {
    model_name: String,
    context_length: usize,
    prediction_length: usize,
}

impl ChronosWrapper {
    pub closed spec fn name(&self) -> Seq<char> {
        self.model_name@
    }

    pub closed spec fn context(&self) -> nat {
        self.context_length as nat
    }

    pub closed spec fn horizon(&self) -> nat {
        self.prediction_length as nat
    }

    /// Settings for `model_name` (`chronos-t5-small`) reading
    /// `context_length` values (512) and forecasting `prediction_length`
    /// (64).
    pub fn new(model_name: Option<String>, context_length: Option<usize>, prediction_length: Option<
        usize,
    >) -> (w: Self)
        ensures
            w.name() == match model_name {
                Some(n) => n@,
                None => "chronos-t5-small"@,
            },
            w.context() == match context_length {
                Some(n) => n as nat,
                None => 512,
            },
            w.horizon() == match prediction_length {
                Some(n) => n as nat,
                None => 64,
            },
    {
        ChronosWrapper {
            model_name: match model_name {
                Some(n) => n,
                None => String::from_str("chronos-t5-small"),
            },
            context_length: match context_length {
                Some(n) => n,
                None => 512,
            },
            prediction_length: match prediction_length {
                Some(n) => n,
                None => 64,
            },
        }
    }

    /// The sliding context windows of a series; refuses a series shorter
    /// than one window.
    pub fn prepare_input<T: Copy>(&self, values: &[T]) -> (r: Result<Vec<Vec<T>>, ContextError>)
        ensures
            values@.len() < self.context() ==> r == Err::<Vec<Vec<T>>, ContextError>(
                ContextError::NotEnoughValues { needed: self.context() as usize, got: values@.len() as usize },
            ),
            values@.len() >= self.context() ==> r is Ok && window_views(r->Ok_0@) == context_windows(
                values@,
                self.context(),
            ),
    {
        let n = values.len();
        let ctx = self.context_length;
        if n < ctx {
            return Err(ContextError::NotEnoughValues { needed: ctx, got: n });
        }
        let count = n - ctx;
        let mut windows: Vec<Vec<T>> = Vec::new();
        let mut i: usize = 0;
        loop
            invariant_except_break
                n == values@.len(),
                ctx == self.context(),
                count == n - ctx,
                i <= count,
                window_views(windows@) == context_windows(values@, ctx as nat).take(i as int),
            ensures
                window_views(windows@) == context_windows(values@, ctx as nat),
            decreases count - i,
        {
            let w = slice_to_vec(slice_subrange(values, i, i + ctx));
            let ghost before = windows@;
            windows.push(w);
            proof {
                assert(window_views(windows@) =~= window_views(before).push(w@));
                assert(context_windows(values@, ctx as nat).take(i + 1) =~= context_windows(
                    values@,
                    ctx as nat,
                ).take(i as int).push(values@.subrange(i as int, i + ctx)));
            }
            if i == count {
                proof {
                    assert(context_windows(values@, ctx as nat).take(i + 1) =~= context_windows(
                        values@,
                        ctx as nat,
                    ));
                }
                break;
            }
            i = i + 1;
        }
        Ok(windows)
    }

    /// The model's name.
    pub fn model_name(&self) -> (n: &String)
        ensures
            n@ == self.name(),
    {
        &self.model_name
    }

    /// How many values a context window holds.
    pub fn context_length(&self) -> (n: usize)
        ensures
            n == self.context(),
    {
        self.context_length
    }

    /// How many values are forecast.
    pub fn prediction_length(&self) -> (n: usize)
        ensures
            n == self.horizon(),
    {
        self.prediction_length
    }
}

/// Settings for a Lag-Llama forecasting model.
pub struct LagLlamaWrapper {
    model_path: String,
    context_length: usize,
    prediction_length: usize,
}

impl LagLlamaWrapper {
    pub closed spec fn path(&self) -> Seq<char> {
        self.model_path@
    }

    pub closed spec fn context(&self) -> nat {
        self.context_length as nat
    }

    pub closed spec fn horizon(&self) -> nat {
        self.prediction_length as nat
    }

    /// Settings for the model at `model_path`
    /// (`time-series-foundation-models/Lag-Llama`) reading `context_length`
    /// values (32) and forecasting `prediction_length` (1).
    pub fn new(model_path: Option<String>, context_length: Option<usize>, prediction_length: Option<
        usize,
    >) -> (w: Self)
        ensures
            w.path() == match model_path {
                Some(p) => p@,
                None => "time-series-foundation-models/Lag-Llama"@,
            },
            w.context() == match context_length {
                Some(n) => n as nat,
                None => 32,
            },
            w.horizon() == match prediction_length {
                Some(n) => n as nat,
                None => 1,
            },
    {
        LagLlamaWrapper {
            model_path: match model_path {
                Some(p) => p,
                None => String::from_str("time-series-foundation-models/Lag-Llama"),
            },
            context_length: match context_length {
                Some(n) => n,
                None => 32,
            },
            prediction_length: match prediction_length {
                Some(n) => n,
                None => 1,
            },
        }
    }

    /// Where the model is loaded from.
    pub fn model_path(&self) -> (p: &String)
        ensures
            p@ == self.path(),
    {
        &self.model_path
    }

    /// How many values a context window holds.
    pub fn context_length(&self) -> (n: usize)
        ensures
            n == self.context(),
    {
        self.context_length
    }

    /// How many values are forecast.
    pub fn prediction_length(&self) -> (n: usize)
        ensures
            n == self.horizon(),
    {
        self.prediction_length
    }
}

/// Settings for a MOIRAI forecasting model.
pub struct MoiraiWrapper {
    model_size: String,
    context_length: usize,
    prediction_length: usize,
    patch_size: usize,
}

impl MoiraiWrapper {
    pub closed spec fn size(&self) -> Seq<char> {
        self.model_size@
    }

    pub closed spec fn context(&self) -> nat {
        self.context_length as nat
    }

    pub closed spec fn horizon(&self) -> nat {
        self.prediction_length as nat
    }

    pub closed spec fn patch(&self) -> nat {
        self.patch_size as nat
    }

    /// Settings for the `model_size` (`small`) model reading
    /// `context_length` values (512), forecasting `prediction_length` (128)
    /// in patches of `patch_size` (16).
    pub fn new(
        model_size: Option<String>,
        context_length: Option<usize>,
        prediction_length: Option<usize>,
        patch_size: Option<usize>,
    ) -> (w: Self)
        ensures
            w.size() == match model_size {
                Some(s) => s@,
                None => "small"@,
            },
            w.context() == match context_length {
                Some(n) => n as nat,
                None => 512,
            },
            w.horizon() == match prediction_length {
                Some(n) => n as nat,
                None => 128,
            },
            w.patch() == match patch_size {
                Some(n) => n as nat,
                None => 16,
            },
    {
        MoiraiWrapper {
            model_size: match model_size {
                Some(s) => s,
                None => String::from_str("small"),
            },
            context_length: match context_length {
                Some(n) => n,
                None => 512,
            },
            prediction_length: match prediction_length {
                Some(n) => n,
                None => 128,
            },
            patch_size: match patch_size {
                Some(n) => n,
                None => 16,
            },
        }
    }

    /// The repository the model is loaded from:
    /// `Salesforce/moirai-1.0-R-{model_size}`.
    pub fn model_repository(&self) -> (r: String)
        ensures
            r@ == "Salesforce/moirai-1.0-R-"@ + self.size(),
    {
        let mut r = String::from_str("Salesforce/moirai-1.0-R-");
        r.append(self.model_size.as_str());
        r
    }

    /// The model size.
    pub fn model_size(&self) -> (s: &String)
        ensures
            s@ == self.size(),
    {
        &self.model_size
    }

    /// How many values a context window holds.
    pub fn context_length(&self) -> (n: usize)
        ensures
            n == self.context(),
    {
        self.context_length
    }

    /// How many values are forecast.
    pub fn prediction_length(&self) -> (n: usize)
        ensures
            n == self.horizon(),
    {
        self.prediction_length
    }

    /// How many values a patch holds.
    pub fn patch_size(&self) -> (n: usize)
        ensures
            n == self.patch(),
    {
        self.patch_size
    }
}

} // verus!
