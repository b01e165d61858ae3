use vstd::prelude::*;

verus! {

/// `ranges` cut `[0, len)` into consecutive pieces of `size` items, the last
/// piece holding the rest (between 1 and `size` items).
pub open spec fn is_chunking(ranges: Seq<(usize, usize)>, len: nat, size: nat) -> bool {
    &&& (ranges.len() == 0 <==> len == 0)
    &&& ranges.len() > 0 ==> ranges[0].0 == 0 && ranges.last().1 == len
    &&& forall|k: int|
        0 <= k < ranges.len() - 1 ==> #[trigger] ranges[k].1 == ranges[k + 1].0 && ranges[k].1
            - ranges[k].0 == size
    &&& ranges.len() > 0 ==> 0 < ranges.last().1 - ranges.last().0 <= size
}

/// Cuts `[0, len)` into consecutive pieces of `size` items.
pub fn chunk_bounds(len: usize, size: usize) -> (ranges: Vec<(usize, usize)>)
    requires
        size > 0,
    ensures
        is_chunking(ranges@, len as nat, size as nat),
{
    let mut ranges: Vec<(usize, usize)> = Vec::new();
    let mut start: usize = 0;
    while start < len
        invariant
            size > 0,
            start <= len,
            ranges@.len() == 0 <==> start == 0,
            ranges@.len() > 0 ==> ranges@[0].0 == 0 && ranges@.last().1 == start,
            forall|k: int|
                0 <= k < ranges@.len() ==> #[trigger] ranges@[k].1 - ranges@[k].0 == size || (k
                    == ranges@.len() - 1 && 0 < ranges@[k].1 - ranges@[k].0 <= size && start
                    == len),
            forall|k: int|
                0 <= k < ranges@.len() - 1 ==> #[trigger] ranges@[k].1 == ranges@[k + 1].0,
            forall|k: int| 0 <= k < ranges@.len() ==> #[trigger] ranges@[k].0 < ranges@[k].1,
        decreases len - start,
    {
        let end = if len - start > size {
            start + size
        } else {
            len
        };
        let ghost before = ranges@;
        ranges.push((start, end));
        proof {
            assert forall|k: int| 0 <= k < ranges@.len() - 1 implies #[trigger] ranges@[k].1 == ranges@[k + 1].0 by {
                if k < before.len() - 1 {
                    assert(ranges@[k] == before[k]);
                    assert(ranges@[k + 1] == before[k + 1]);
                }
            }
        }
        start = end;
    }
    ranges
}

proof fn lemma_chunk_reaches(ranges: Seq<(usize, usize)>, len: nat, size: nat, x: int, j: int)
    requires
        is_chunking(ranges, len, size),
        0 <= j < ranges.len(),
        0 <= x < ranges[j].1,
    ensures
        exists|k: int| 0 <= k <= j && #[trigger] ranges[k].0 <= x < ranges[k].1,
    decreases j,
{
    if x < ranges[j].0 {
        assert(j > 0);
        assert(ranges[j - 1].1 == ranges[j].0);
        lemma_chunk_reaches(ranges, len, size, x, j - 1);
    }
}

proof fn lemma_chunks_ordered(ranges: Seq<(usize, usize)>, len: nat, size: nat, i: int, j: int)
    requires
        is_chunking(ranges, len, size),
        0 <= i < j < ranges.len(),
    ensures
        ranges[i].1 <= ranges[j].0,
    decreases j - i,
{
    assert(size > 0);
    assert(ranges[i].1 == ranges[i + 1].0);
    if i + 1 < j {
        assert(ranges[i + 1].1 - ranges[i + 1].0 == size);
        lemma_chunks_ordered(ranges, len, size, i + 1, j);
    }
}

/// Every item of a chunked stream lands in exactly one chunk.
pub proof fn law_each_item_in_one_chunk(ranges: Seq<(usize, usize)>, len: nat, size: nat, x: int)
    requires
        is_chunking(ranges, len, size),
        0 <= x < len,
    ensures
        exists|k: int| 0 <= k < ranges.len() && #[trigger] ranges[k].0 <= x < ranges[k].1,
        forall|a: int, b: int|
            0 <= a < ranges.len() && 0 <= b < ranges.len() && #[trigger] ranges[a].0 <= x < ranges[a].1
                && #[trigger] ranges[b].0 <= x < ranges[b].1 ==> a == b,
{
    lemma_chunk_reaches(ranges, len, size, x, ranges.len() - 1);
    assert forall|a: int, b: int|
        0 <= a < ranges.len() && 0 <= b < ranges.len() && #[trigger] ranges[a].0 <= x < ranges[a].1
            && #[trigger] ranges[b].0 <= x < ranges[b].1 implies a == b by {
        if a < b {
            lemma_chunks_ordered(ranges, len, size, a, b);
        } else if b < a {
            lemma_chunks_ordered(ranges, len, size, b, a);
        }
    }
}

/// Why an ensemble could not be built.
#[derive(Debug, Clone, Copy, PartialEq, Eq, Structural)]
pub enum EnsembleError {
    /// The weights do not match the models one to one.
    WeightCountMismatch,
}

/// Runs forecasts for many series, in batches.
pub struct BatchPredictor {
    max_parallel: usize,
    use_gpu: bool,
}

impl BatchPredictor {
    pub closed spec fn parallelism(&self) -> nat {
        self.max_parallel as nat
    }

    pub closed spec fn on_gpu(&self) -> bool {
        self.use_gpu
    }

    /// A predictor running up to `max_parallel` (4) series at once, on the
    /// GPU when `use_gpu` (false).
    pub fn new(max_parallel: Option<usize>, use_gpu: Option<bool>) -> (p: Self)
        ensures
            p.parallelism() == match max_parallel {
                Some(n) => n as nat,
                None => 4,
            },
            p.on_gpu() == match use_gpu {
                Some(b) => b,
                None => false,
            },
    {
        BatchPredictor {
            max_parallel: match max_parallel {
                Some(n) => n,
                None => 4,
            },
            use_gpu: match use_gpu {
                Some(b) => b,
                None => false,
            },
        }
    }

    /// The chunks a stream of `series_count` series is predicted in: runs of
    /// `chunk_size` series, the last one holding the rest.
    pub fn stream_chunks(&self, series_count: usize, chunk_size: usize) -> (chunks: Vec<(usize, usize)>)
        requires
            chunk_size > 0,
        ensures
            is_chunking(chunks@, series_count as nat, chunk_size as nat),
    {
        chunk_bounds(series_count, chunk_size)
    }

    /// Whether predictions run on the GPU.
    pub fn use_gpu(&self) -> (b: bool)
        ensures
            b == self.on_gpu(),
    {
        self.use_gpu
    }

    /// How many series run at once.
    pub fn max_parallel(&self) -> (n: usize)
        ensures
            n == self.parallelism(),
    {
        self.max_parallel
    }
}

/// A weighted combination of named models, one weight per model.
pub struct EnsemblePredictor<W> {
    models: Vec<String>,
    weights: Vec<W>,
}

pub open spec fn texts(v: Seq<String>) -> Seq<Seq<char>> {
    v.map_values(|s: String| s@)
}

impl<W> EnsemblePredictor<W> {
    /// There is one weight per model.
    #[verifier::type_invariant]
    spec fn one_weight_per_model(self) -> bool {
        self.weights@.len() == self.models@.len()
    }

    pub closed spec fn model_names(&self) -> Seq<Seq<char>> {
        texts(self.models@)
    }

    pub closed spec fn weight_list(&self) -> Seq<W> {
        self.weights@
    }

    /// An ensemble of `models` with `weights`; refuses weights that do not
    /// match the models one to one.
    pub fn new(models: Vec<String>, weights: Vec<W>) -> (r: Result<Self, EnsembleError>)
        ensures
            r is Err <==> weights@.len() != models@.len(),
            r is Err ==> r->Err_0 == EnsembleError::WeightCountMismatch,
            r is Ok ==> r->Ok_0.model_names() == texts(models@) && r->Ok_0.weight_list() == weights@,
    {
        if weights.len() != models.len() {
            return Err(EnsembleError::WeightCountMismatch);
        }
        Ok(EnsemblePredictor { models, weights })
    }

    /// The model names.
    pub fn models(&self) -> (m: &Vec<String>)
        ensures
            texts(m@) == self.model_names(),
    {
        &self.models
    }

    /// The weights, one per model.
    pub fn weights(&self) -> (w: &Vec<W>)
        ensures
            w@ == self.weight_list(),
            w@.len() == self.model_names().len(),
    {
        proof {
            use_type_invariant(self);
        }
        &self.weights
    }
}

} // verus!
