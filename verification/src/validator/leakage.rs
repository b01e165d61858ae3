use std::collections::HashSet;
use vstd::bytes::{spec_u64_to_le_bytes, u64_to_le_bytes};
use vstd::prelude::*;

verus! {

// ---------------------------------------------------------------------------
// Digests of word sequences
// ---------------------------------------------------------------------------

/// The 64-bit XXH3 hash (default secret, seed 0) of a byte string.
pub uninterp spec fn xxh3_64_digest(bytes: Seq<u8>) -> u64;

/// `xxhash_rust::xxh3::xxh3_64`: the 64-bit XXH3 hash of `bytes` with the
/// default secret and seed 0.  The hash is a function of the bytes alone; its
/// value is named by `xxh3_64_digest` and not spelled out.
#[verifier::external_body]
fn xxh3_64(bytes: &[u8]) -> (h: u64)
    ensures
        h == xxh3_64_digest(bytes@),
{
    xxhash_rust::xxh3::xxh3_64(bytes)
}

/// The buffer of a sequence of words: each word as its eight little-endian
/// bytes, one after the other, as a primitive Arrow buffer lays them out.
pub open spec fn word_bytes(words: Seq<u64>) -> Seq<u8>
    decreases words.len(),
{
    if words.len() == 0 {
        Seq::empty()
    } else {
        word_bytes(words.drop_last()) + spec_u64_to_le_bytes(words.last())
    }
}

/// The digest of a sequence of words: the XXH3 hash of its buffer.
pub open spec fn word_digest(words: Seq<u64>) -> u64 {
    xxh3_64_digest(word_bytes(words))
}

/// Timestamps are hashed through their two's-complement bit patterns.
pub open spec fn timestamp_words(timestamps: Seq<i64>) -> Seq<u64> {
    timestamps.map_values(|t: i64| t as u64)
}

/// Hashes a sequence of words: XXH3 over their little-endian buffer.
pub fn digest_words(words: &[u64]) -> (digest: u64)
    ensures
        digest == word_digest(words@),
{
    let mut buffer: Vec<u8> = Vec::new();
    let n = words.len();
    let mut i: usize = 0;
    while i < n
        invariant
            n == words@.len(),
            i <= n,
            buffer@ == word_bytes(words@.take(i as int)),
        decreases n - i,
    {
        let mut bytes = u64_to_le_bytes(words[i]);
        buffer.append(&mut bytes);
        proof {
            assert(words@.take(i + 1).drop_last() =~= words@.take(i as int));
        }
        i = i + 1;
    }
    proof {
        assert(words@.take(n as int) =~= words@);
    }
    xxh3_64(buffer.as_slice())
}

/// Hashes a sequence of timestamps through their bit patterns.
pub fn digest_timestamps(timestamps: &[i64]) -> (digest: u64)
    ensures
        digest == word_digest(timestamp_words(timestamps@)),
{
    let mut words: Vec<u64> = Vec::with_capacity(timestamps.len());
    let n = timestamps.len();
    let mut i: usize = 0;
    while i < n
        invariant
            n == timestamps@.len(),
            i <= n,
            words@ == timestamp_words(timestamps@.take(i as int)),
        decreases n - i,
    {
        let word: u64 = timestamps[i] as u64;
        words.push(word);
        proof {
            assert(words@ =~= timestamp_words(timestamps@.take(i + 1)));
        }
        i = i + 1;
    }
    proof {
        assert(timestamps@.take(n as int) =~= timestamps@);
    }
    digest_words(words.as_slice())
}

// ---------------------------------------------------------------------------
// Time spans
// ---------------------------------------------------------------------------

/// The earliest timestamp, or 0 for an empty window.
pub open spec fn span_start(s: Seq<i64>) -> i64
    decreases s.len(),
{
    if s.len() == 0 {
        0
    } else if s.len() == 1 {
        s[0]
    } else {
        let m = span_start(s.drop_last());
        if s.last() < m {
            s.last()
        } else {
            m
        }
    }
}

/// The latest timestamp, or 0 for an empty window.
pub open spec fn span_end(s: Seq<i64>) -> i64
    decreases s.len(),
{
    if s.len() == 0 {
        0
    } else if s.len() == 1 {
        s[0]
    } else {
        let m = span_end(s.drop_last());
        if s.last() > m {
            s.last()
        } else {
            m
        }
    }
}

/// Two windows overlap when neither ends before the other starts.
pub open spec fn spans_overlap(a: Seq<i64>, b: Seq<i64>) -> bool {
    !(span_end(a) < span_start(b) || span_end(b) < span_start(a))
}

/// Every timestamp of a non-empty window lies within its span.
pub proof fn lemma_span_bounds(s: Seq<i64>, i: int)
    requires
        0 <= i < s.len(),
    ensures
        span_start(s) <= s[i] <= span_end(s),
    decreases s.len(),
{
    if s.len() > 1 && i < s.len() - 1 {
        lemma_span_bounds(s.drop_last(), i);
    }
}

fn span_start_of(s: &[i64]) -> (m: i64)
    ensures
        m == span_start(s@),
{
    let n = s.len();
    if n == 0 {
        return 0;
    }
    let mut m: i64 = s[0];
    let mut i: usize = 1;
    proof {
        assert(s@.take(1) =~= seq![s@[0]]);
    }
    while i < n
        invariant
            n == s@.len(),
            1 <= i <= n,
            m == span_start(s@.take(i as int)),
        decreases n - i,
    {
        proof {
            assert(s@.take(i + 1).drop_last() =~= s@.take(i as int));
        }
        if s[i] < m {
            m = s[i];
        }
        i = i + 1;
    }
    proof {
        assert(s@.take(n as int) =~= s@);
    }
    m
}

fn span_end_of(s: &[i64]) -> (m: i64)
    ensures
        m == span_end(s@),
{
    let n = s.len();
    if n == 0 {
        return 0;
    }
    let mut m: i64 = s[0];
    let mut i: usize = 1;
    proof {
        assert(s@.take(1) =~= seq![s@[0]]);
    }
    while i < n
        invariant
            n == s@.len(),
            1 <= i <= n,
            m == span_end(s@.take(i as int)),
        decreases n - i,
    {
        proof {
            assert(s@.take(i + 1).drop_last() =~= s@.take(i as int));
        }
        if s[i] > m {
            m = s[i];
        }
        i = i + 1;
    }
    proof {
        assert(s@.take(n as int) =~= s@);
    }
    m
}

// ---------------------------------------------------------------------------
// Jaccard counts
// ---------------------------------------------------------------------------

fn timestamp_set(s: &[i64]) -> (set: HashSet<i64>)
    ensures
        set@ == s@.to_set(),
{
    let mut set: HashSet<i64> = HashSet::new();
    let n = s.len();
    let mut i: usize = 0;
    while i < n
        invariant
            n == s@.len(),
            i <= n,
            set@ == s@.take(i as int).to_set(),
        decreases n - i,
    {
        set.insert(s[i]);
        proof {
            assert(s@.take(i + 1) =~= s@.take(i as int).push(s@[i as int]));
            s@.take(i as int).lemma_push_to_set_commute(s@[i as int]);
        }
        i = i + 1;
    }
    proof {
        assert(s@.take(n as int) =~= s@);
    }
    set
}


/// The number of distinct timestamps the two windows share, and the number of
/// distinct timestamps in either window.
pub open spec fn shared_count(a: Seq<i64>, b: Seq<i64>) -> nat {
    a.to_set().intersect(b.to_set()).len()
}

pub open spec fn union_count(a: Seq<i64>, b: Seq<i64>) -> nat {
    (a.to_set() + b.to_set()).len()
}

/// Two windows never share more distinct timestamps than they hold together,
/// so a Jaccard ratio lies between 0 and 1.
pub proof fn law_shared_within_union(a: Seq<i64>, b: Seq<i64>)
    ensures
        shared_count(a, b) <= union_count(a, b),
{
    let sa = a.to_set();
    let sb = b.to_set();
    vstd::seq_lib::seq_to_set_is_finite(a);
    vstd::seq_lib::seq_to_set_is_finite(b);
    vstd::set::axiom_set_union_finite(sa, sb);
    assert(sa.intersect(sb).subset_of(sa + sb));
    vstd::set_lib::lemma_len_subset(sa.intersect(sb), sa + sb);
}

fn jaccard_counts(a: &[i64], b: &[i64]) -> (counts: (usize, usize))
    ensures
        counts.0 == shared_count(a@, b@),
        counts.1 == union_count(a@, b@),
{
    let set_a = timestamp_set(a);
    let set_b = timestamp_set(b);
    let mut union: HashSet<i64> = HashSet::new();
    let mut i: usize = 0;
    while i < a.len()
        invariant
            i <= a@.len(),
            union@ == a@.take(i as int).to_set(),
        decreases a@.len() - i,
    {
        union.insert(a[i]);
        proof {
            assert(a@.take(i + 1) =~= a@.take(i as int).push(a@[i as int]));
            a@.take(i as int).lemma_push_to_set_commute(a@[i as int]);
        }
        i = i + 1;
    }
    proof {
        assert(a@.take(a@.len() as int) =~= a@);
    }
    let mut j: usize = 0;
    while j < b.len()
        invariant
            j <= b@.len(),
            union@ == a@.to_set() + b@.take(j as int).to_set(),
        decreases b@.len() - j,
    {
        union.insert(b[j]);
        proof {
            assert(b@.take(j + 1) =~= b@.take(j as int).push(b@[j as int]));
            b@.take(j as int).lemma_push_to_set_commute(b@[j as int]);
            assert(union@ =~= a@.to_set() + b@.take(j + 1).to_set());
        }
        j = j + 1;
    }
    proof {
        assert(b@.take(b@.len() as int) =~= b@);
        vstd::seq_lib::seq_to_set_is_finite(a@);
        vstd::seq_lib::seq_to_set_is_finite(b@);
        vstd::set_lib::lemma_set_intersect_union_lens(a@.to_set(), b@.to_set());
        vstd::set_lib::lemma_len_intersect(a@.to_set(), b@.to_set());
    }
    let len_a = set_a.len();
    let len_b = set_b.len();
    let len_union = union.len();
    (len_a - (len_union - len_b), len_union)
}

// ---------------------------------------------------------------------------
// Fingerprints
// ---------------------------------------------------------------------------

/// How alike two fingerprints are.  Windows with equal timestamp digests are
/// identical; otherwise the Jaccard ratio `shared / total` of their distinct
/// timestamps applies, and a `total` of zero counts as no similarity.
#[derive(Clone, Copy, Debug, PartialEq, Eq, Structural)]
pub enum Similarity {
    Identical,
    Jaccard { shared: usize, total: usize },
}

/// The abstract content of a fingerprint.
pub struct FingerprintView {
    pub window_hash: u64,
    pub timestamps: Seq<i64>,
    pub values_hash: u64,
    pub feature_name: Seq<char>,
}

/// A fingerprint of one feature window: digests of its timestamps and of the
/// bit patterns of its values, the timestamps themselves and the feature name.
#[derive(Debug)]
pub struct FeatureFingerprint {
    pub window_hash: u64,
    pub timestamps: Vec<i64>,
    pub values_hash: u64,
    pub feature_name: String,
}

impl View for FeatureFingerprint {
    type V = FingerprintView;

    open spec fn view(&self) -> FingerprintView {
        FingerprintView {
            window_hash: self.window_hash,
            timestamps: self.timestamps@,
            values_hash: self.values_hash,
            feature_name: self.feature_name@,
        }
    }
}

/// The fingerprint of a window with the given timestamps, value bit patterns
/// and feature name.
pub open spec fn fingerprint_of(
    timestamps: Seq<i64>,
    value_bits: Seq<u64>,
    feature_name: Seq<char>,
) -> FingerprintView {
    FingerprintView {
        window_hash: word_digest(timestamp_words(timestamps)),
        timestamps,
        values_hash: word_digest(value_bits),
        feature_name,
    }
}

pub open spec fn similarity_of(a: FingerprintView, b: FingerprintView) -> Similarity {
    if a.window_hash == b.window_hash {
        Similarity::Identical
    } else {
        Similarity::Jaccard {
            shared: shared_count(a.timestamps, b.timestamps) as usize,
            total: union_count(a.timestamps, b.timestamps) as usize,
        }
    }
}

impl FeatureFingerprint {
    /// Fingerprints a feature window.  `value_bits` holds the IEEE-754 bit
    /// patterns of the window's values.
    pub fn new(timestamps: Vec<i64>, value_bits: Vec<u64>, feature_name: String) -> (fp: Self)
        ensures
            fp@ == fingerprint_of(timestamps@, value_bits@, feature_name@),
    {
        let window_hash = digest_timestamps(timestamps.as_slice());
        let values_hash = digest_words(value_bits.as_slice());
        FeatureFingerprint { window_hash, timestamps, values_hash, feature_name }
    }

    /// Whether the time spans of the two windows overlap.
    pub fn overlaps_with(&self, other: &FeatureFingerprint) -> (overlap: bool)
        ensures
            overlap == spans_overlap(self.timestamps@, other.timestamps@),
    {
        let self_min = span_start_of(self.timestamps.as_slice());
        let self_max = span_end_of(self.timestamps.as_slice());
        let other_min = span_start_of(other.timestamps.as_slice());
        let other_max = span_end_of(other.timestamps.as_slice());
        !(self_max < other_min || other_max < self_min)
    }

    /// Similarity between the two fingerprints.
    pub fn similarity(&self, other: &FeatureFingerprint) -> (sim: Similarity)
        ensures
            sim == similarity_of(self@, other@),
            sim matches Similarity::Jaccard { shared, total } ==> shared <= total,
    {
        if self.window_hash == other.window_hash {
            return Similarity::Identical;
        }
        let (shared, total) = jaccard_counts(self.timestamps.as_slice(), other.timestamps.as_slice());
        proof {
            law_shared_within_union(self.timestamps@, other.timestamps@);
        }
        Similarity::Jaccard { shared, total }
    }
}


// ---------------------------------------------------------------------------
// Leakage detection
// ---------------------------------------------------------------------------

/// A training window whose span overlaps a test window, with its similarity
/// to that test window.
#[derive(Debug)]
pub struct LeakageCandidate {
    pub feature_name: String,
    pub similarity: Similarity,
}

impl View for LeakageCandidate {
    type V = (Seq<char>, Similarity);

    open spec fn view(&self) -> (Seq<char>, Similarity) {
        (self.feature_name@, self.similarity)
    }
}

/// The candidates that `test` raises against `trains`, in training order: one
/// per training window whose span overlaps the test window's span.
pub open spec fn candidates_for(test: FingerprintView, trains: Seq<FingerprintView>) -> Seq<
    (Seq<char>, Similarity),
>
    decreases trains.len(),
{
    if trains.len() == 0 {
        Seq::empty()
    } else {
        let earlier = candidates_for(test, trains.drop_last());
        let train = trains.last();
        if spans_overlap(test.timestamps, train.timestamps) {
            earlier.push((train.feature_name, similarity_of(test, train)))
        } else {
            earlier
        }
    }
}

/// The leakage candidates of one recorded test window.
#[derive(Debug)]
pub struct TestWindowReport {
    pub feature_name: String,
    pub candidates: Vec<LeakageCandidate>,
}

pub open spec fn candidate_views(cs: Seq<LeakageCandidate>) -> Seq<(Seq<char>, Similarity)> {
    cs.map_values(|c: LeakageCandidate| c@)
}

pub open spec fn fingerprint_views(fps: Seq<FeatureFingerprint>) -> Seq<FingerprintView> {
    fps.map_values(|f: FeatureFingerprint| f@)
}

/// Records training and test fingerprints and reports, for each test window,
/// the training windows it overlaps in time together with their similarity.
pub struct LeakageDetector {
    train_fingerprints: Vec<FeatureFingerprint>,
    test_fingerprints: Vec<FeatureFingerprint>,
}

impl LeakageDetector {
    pub closed spec fn train_windows(&self) -> Seq<FingerprintView> {
        fingerprint_views(self.train_fingerprints@)
    }

    pub closed spec fn test_windows(&self) -> Seq<FingerprintView> {
        fingerprint_views(self.test_fingerprints@)
    }

    /// A detector with no windows recorded.
    pub fn new() -> (d: Self)
        ensures
            d.train_windows() == Seq::<FingerprintView>::empty(),
            d.test_windows() == Seq::<FingerprintView>::empty(),
    {
        let d = LeakageDetector { train_fingerprints: Vec::new(), test_fingerprints: Vec::new() };
        proof {
            assert(d.train_windows() =~= Seq::<FingerprintView>::empty());
            assert(d.test_windows() =~= Seq::<FingerprintView>::empty());
        }
        d
    }

    /// Records the fingerprint of a training window.
    pub fn register_train_window(
        &mut self,
        timestamps: Vec<i64>,
        value_bits: Vec<u64>,
        feature_name: String,
    )
        ensures
            final(self).train_windows() == old(self).train_windows().push(
                fingerprint_of(timestamps@, value_bits@, feature_name@),
            ),
            final(self).test_windows() == old(self).test_windows(),
    {
        let fp = FeatureFingerprint::new(timestamps, value_bits, feature_name);
        self.train_fingerprints.push(fp);
        proof {
            assert(self.train_windows() =~= old(self).train_windows().push(
                fingerprint_of(timestamps@, value_bits@, feature_name@),
            ));
        }
    }

    fn candidates_against_train(&self, test_fp: &FeatureFingerprint) -> (cs: Vec<LeakageCandidate>)
        ensures
            candidate_views(cs@) == candidates_for(test_fp@, self.train_windows()),
    {
        let mut cs: Vec<LeakageCandidate> = Vec::new();
        let n = self.train_fingerprints.len();
        let mut i: usize = 0;
        while i < n
            invariant
                n == self.train_fingerprints@.len(),
                i <= n,
                candidate_views(cs@) == candidates_for(
                    test_fp@,
                    self.train_windows().take(i as int),
                ),
            decreases n - i,
        {
            let train_fp = &self.train_fingerprints[i];
            proof {
                assert(self.train_windows().take(i + 1).drop_last() =~= self.train_windows().take(
                    i as int,
                ));
                assert(self.train_windows().take(i + 1).last() == train_fp@);
            }
            if test_fp.overlaps_with(train_fp) {
                let similarity = test_fp.similarity(train_fp);
                let c = LeakageCandidate { feature_name: train_fp.feature_name.clone(), similarity };
                let ghost before = cs@;
                cs.push(c);
                proof {
                    assert(candidate_views(cs@) =~= candidate_views(before).push(c@));
                }
            }
            i = i + 1;
        }
        proof {
            assert(self.train_windows().take(n as int) =~= self.train_windows());
        }
        cs
    }

    /// Fingerprints a test window, records it, and returns the training
    /// windows whose spans it overlaps, with their similarity to it.
    pub fn check_test_window(
        &mut self,
        timestamps: Vec<i64>,
        value_bits: Vec<u64>,
        feature_name: String,
    ) -> (candidates: Vec<LeakageCandidate>)
        ensures
            candidate_views(candidates@) == candidates_for(
                fingerprint_of(timestamps@, value_bits@, feature_name@),
                old(self).train_windows(),
            ),
            final(self).train_windows() == old(self).train_windows(),
            final(self).test_windows() == old(self).test_windows().push(
                fingerprint_of(timestamps@, value_bits@, feature_name@),
            ),
    {
        let test_fp = FeatureFingerprint::new(timestamps, value_bits, feature_name);
        let candidates = self.candidates_against_train(&test_fp);
        self.test_fingerprints.push(test_fp);
        proof {
            assert(self.test_windows() =~= old(self).test_windows().push(
                fingerprint_of(timestamps@, value_bits@, feature_name@),
            ));
            assert(self.train_windows() =~= old(self).train_windows());
        }
        candidates
    }

    /// For every recorded test window, in order, its name and its candidates
    /// against the training windows recorded now.
    pub fn get_leakage_report(&self) -> (report: Vec<TestWindowReport>)
        ensures
            report@.len() == self.test_windows().len(),
            forall|i: int|
                0 <= i < report@.len() ==> {
                    &&& #[trigger] report@[i].feature_name@ == self.test_windows()[i].feature_name
                    &&& candidate_views(report@[i].candidates@) == candidates_for(
                        self.test_windows()[i],
                        self.train_windows(),
                    )
                },
    {
        let mut report: Vec<TestWindowReport> = Vec::new();
        let n = self.test_fingerprints.len();
        let mut i: usize = 0;
        while i < n
            invariant
                n == self.test_fingerprints@.len(),
                i <= n,
                report@.len() == i,
                forall|k: int|
                    0 <= k < i ==> {
                        &&& #[trigger] report@[k].feature_name@
                            == self.test_windows()[k].feature_name
                        &&& candidate_views(report@[k].candidates@) == candidates_for(
                            self.test_windows()[k],
                            self.train_windows(),
                        )
                    },
            decreases n - i,
        {
            let test_fp = &self.test_fingerprints[i];
            let candidates = self.candidates_against_train(test_fp);
            report.push(TestWindowReport { feature_name: test_fp.feature_name.clone(), candidates });
            i = i + 1;
        }
        report
    }

    /// Forgets every recorded window.
    pub fn reset(&mut self)
        ensures
            final(self).train_windows() == Seq::<FingerprintView>::empty(),
            final(self).test_windows() == Seq::<FingerprintView>::empty(),
    {
        self.train_fingerprints.clear();
        self.test_fingerprints.clear();
        proof {
            assert(self.train_windows() =~= Seq::<FingerprintView>::empty());
            assert(self.test_windows() =~= Seq::<FingerprintView>::empty());
        }
    }

    /// The number of recorded training windows.
    pub fn train_count(&self) -> (n: usize)
        ensures
            n == self.train_windows().len(),
    {
        self.train_fingerprints.len()
    }

    /// The number of recorded test windows.
    pub fn test_count(&self) -> (n: usize)
        ensures
            n == self.test_windows().len(),
    {
        self.test_fingerprints.len()
    }
}

// ---------------------------------------------------------------------------
// Window digests
// ---------------------------------------------------------------------------

/// The digest of a window: the digest of its first `hash_size` values.
pub open spec fn window_digest(value_bits: Seq<u64>, hash_size: nat) -> u64 {
    word_digest(value_bits.take(if hash_size < value_bits.len() { hash_size as int } else { value_bits.len() as int }))
}

/// Remembers digests of training windows and tells whether a window's digest
/// has been seen.
pub struct RollingHashValidator {
    hash_size: usize,
    known_hashes: HashSet<u64>,
}

impl RollingHashValidator {
    /// The number of leading values that make up a window's digest.
    pub closed spec fn prefix_len(&self) -> nat {
        self.hash_size as nat
    }

    /// The digests of the windows added so far.
    pub closed spec fn known(&self) -> Set<u64> {
        self.known_hashes@
    }

    /// A validator with no known windows, hashing the first `hash_size`
    /// values of each window (100 when not given).
    pub fn new(hash_size: Option<usize>) -> (v: Self)
        ensures
            v.prefix_len() == match hash_size {
                Some(k) => k as nat,
                None => 100,
            },
            v.known() == Set::<u64>::empty(),
    {
        let k = match hash_size {
            Some(k) => k,
            None => 100,
        };
        RollingHashValidator { hash_size: k, known_hashes: HashSet::new() }
    }

    fn compute_hash(&self, value_bits: &[u64]) -> (h: u64)
        ensures
            h == window_digest(value_bits@, self.prefix_len()),
    {
        let n = value_bits.len();
        let k = if self.hash_size < n {
            self.hash_size
        } else {
            n
        };
        let prefix = vstd::slice::slice_subrange(value_bits, 0, k);
        proof {
            assert(prefix@ =~= value_bits@.take(k as int));
        }
        digest_words(prefix)
    }

    /// Records a training window and returns its digest.
    pub fn add_window(&mut self, value_bits: &[u64]) -> (h: u64)
        ensures
            h == window_digest(value_bits@, old(self).prefix_len()),
            final(self).prefix_len() == old(self).prefix_len(),
            final(self).known() == old(self).known().insert(h),
    {
        let h = self.compute_hash(value_bits);
        self.known_hashes.insert(h);
        h
    }

    /// Whether the window's digest is among the recorded ones.
    pub fn check_window(&self, value_bits: &[u64]) -> (found: bool)
        ensures
            found == self.known().contains(window_digest(value_bits@, self.prefix_len())),
    {
        let h = self.compute_hash(value_bits);
        self.known_hashes.contains(&h)
    }

    /// The number of distinct digests recorded.
    pub fn known_count(&self) -> (n: usize)
        ensures
            n == self.known().len(),
    {
        self.known_hashes.len()
    }

    /// The number of leading values hashed per window.
    pub fn hash_size(&self) -> (k: usize)
        ensures
            k == self.prefix_len(),
    {
        self.hash_size
    }
}


// ---------------------------------------------------------------------------
// Laws
// ---------------------------------------------------------------------------

/// Overlap of time spans does not depend on the order of the two windows.
pub proof fn law_overlap_is_symmetric(a: Seq<i64>, b: Seq<i64>)
    ensures
        spans_overlap(a, b) == spans_overlap(b, a),
{
}

/// Two windows that share a timestamp overlap.
pub proof fn law_shared_timestamp_means_overlap(a: Seq<i64>, b: Seq<i64>, i: int, j: int)
    requires
        0 <= i < a.len(),
        0 <= j < b.len(),
        a[i] == b[j],
    ensures
        spans_overlap(a, b),
{
    lemma_span_bounds(a, i);
    lemma_span_bounds(b, j);
}

/// A window's span never ends before it starts, so every window overlaps
/// itself.
pub proof fn law_window_overlaps_itself(a: Seq<i64>)
    ensures
        spans_overlap(a, a),
{
    if a.len() > 0 {
        lemma_span_bounds(a, 0);
    }
}

/// Similarity does not depend on the order of the two fingerprints.
pub proof fn law_similarity_is_symmetric(a: FingerprintView, b: FingerprintView)
    ensures
        similarity_of(a, b) == similarity_of(b, a),
{
    assert(a.timestamps.to_set().intersect(b.timestamps.to_set()) =~= b.timestamps.to_set().intersect(
        a.timestamps.to_set(),
    ));
    assert(a.timestamps.to_set() + b.timestamps.to_set() =~= b.timestamps.to_set()
        + a.timestamps.to_set());
}

/// Every fingerprint is identical to itself.
pub proof fn law_fingerprint_is_identical_to_itself(a: FingerprintView)
    ensures
        similarity_of(a, a) == Similarity::Identical,
{
}

/// Fingerprints of windows with the same timestamps are identical, whatever
/// their values and names.
pub proof fn law_same_timestamps_are_identical(
    timestamps: Seq<i64>,
    bits_a: Seq<u64>,
    bits_b: Seq<u64>,
    name_a: Seq<char>,
    name_b: Seq<char>,
)
    ensures
        similarity_of(
            fingerprint_of(timestamps, bits_a, name_a),
            fingerprint_of(timestamps, bits_b, name_b),
        ) == Similarity::Identical,
{
}

/// Whether a training window's span overlaps that of `test`.
pub open spec fn overlaps_test(test: FingerprintView) -> spec_fn(FingerprintView) -> bool {
    |t: FingerprintView| spans_overlap(test.timestamps, t.timestamps)
}

/// A training window as a candidate against `test`: its name and its
/// similarity to `test`.
pub open spec fn candidate_against(test: FingerprintView) -> spec_fn(FingerprintView) -> (
    Seq<char>,
    Similarity,
) {
    |t: FingerprintView| (t.feature_name, similarity_of(test, t))
}

/// The candidates raised by a test window are exactly the training windows
/// whose spans overlap its span, in training order, each named with its
/// similarity to the test window, whatever the feature names: every
/// overlapping training window is reported, and nothing else is.
pub proof fn law_candidates_are_the_overlapping_windows(
    test: FingerprintView,
    trains: Seq<FingerprintView>,
)
    ensures
        candidates_for(test, trains) == trains.filter(overlaps_test(test)).map_values(
            candidate_against(test),
        ),
        candidates_for(test, trains).len() == trains.filter(overlaps_test(test)).len(),
        forall|k: int|
            0 <= k < trains.len() && spans_overlap(test.timestamps, trains[k].timestamps)
                ==> #[trigger] candidates_for(test, trains).contains(
                (trains[k].feature_name, similarity_of(test, trains[k])),
            ),
    decreases trains.len(),
{
    reveal(Seq::filter);
    let pred = overlaps_test(test);
    let f = candidate_against(test);
    let cs = candidates_for(test, trains);
    let kept = trains.filter(pred);
    if trains.len() > 0 {
        law_candidates_are_the_overlapping_windows(test, trains.drop_last());
        let before = trains.drop_last().filter(pred);
        if pred(trains.last()) {
            assert(kept == before.push(trains.last()));
            assert(kept.map_values(f) =~= before.map_values(f).push(f(trains.last())));
        } else {
            assert(kept == before);
        }
    } else {
        assert(kept.map_values(f) =~= Seq::<(Seq<char>, Similarity)>::empty());
    }
    assert(cs == kept.map_values(f));
    assert forall|k: int|
        0 <= k < trains.len() && spans_overlap(test.timestamps, trains[k].timestamps)
            implies #[trigger] cs.contains((trains[k].feature_name, similarity_of(test, trains[k]))) by {
        assert(pred(trains[k]));
        trains.lemma_filter_contains(pred, k);
        let j = choose|j: int| 0 <= j < kept.len() && kept[j] == trains[k];
        assert(cs[j] == f(kept[j]));
    }
}

/// Every candidate raised by a test window is an overlapping training window,
/// named with its similarity to the test window.
pub proof fn law_candidates_come_from_overlapping_windows(
    test: FingerprintView,
    trains: Seq<FingerprintView>,
    i: int,
)
    requires
        0 <= i < candidates_for(test, trains).len(),
    ensures
        exists|k: int|
            0 <= k < trains.len() && spans_overlap(test.timestamps, trains[k].timestamps)
                && candidates_for(test, trains)[i] == (
                #[trigger] trains[k].feature_name,
                similarity_of(test, trains[k]),
            ),
{
    reveal(Seq::filter);
    law_candidates_are_the_overlapping_windows(test, trains);
    let pred = overlaps_test(test);
    let f = candidate_against(test);
    let kept = trains.filter(pred);
    trains.lemma_filter_pred(pred, i);
    lemma_filter_item_from(trains, pred, i);
    let k = choose|k: int| 0 <= k < trains.len() && trains[k] == kept[i];
    assert(candidates_for(test, trains)[i] == f(kept[i]));
    assert(pred(trains[k]));
    assert(spans_overlap(test.timestamps, trains[k].timestamps));
}

/// Every item of a filtered sequence comes from the sequence.
proof fn lemma_filter_item_from<A>(s: Seq<A>, pred: spec_fn(A) -> bool, i: int)
    requires
        0 <= i < s.filter(pred).len(),
    ensures
        exists|k: int| 0 <= k < s.len() && s[k] == s.filter(pred)[i],
    decreases s.len(),
{
    reveal(Seq::filter);
    s.lemma_filter_len(pred);
    let before = s.drop_last().filter(pred);
    if pred(s.last()) && i == before.len() {
        assert(s[s.len() - 1] == s.filter(pred)[i]);
    } else {
        s.drop_last().lemma_filter_len(pred);
        lemma_filter_item_from(s.drop_last(), pred, i);
        let k = choose|k: int| 0 <= k < s.drop_last().len() && s.drop_last()[k] == before[i];
        assert(s[k] == s.filter(pred)[i]);
    }
}

/// A training window over the same timestamps as the test window is reported
/// against it as identical.
pub proof fn law_duplicate_window_is_reported(
    timestamps: Seq<i64>,
    test_bits: Seq<u64>,
    test_name: Seq<char>,
    trains: Seq<FingerprintView>,
    k: int,
    train_bits: Seq<u64>,
)
    requires
        0 <= k < trains.len(),
        trains[k] == fingerprint_of(timestamps, train_bits, trains[k].feature_name),
    ensures
        candidates_for(fingerprint_of(timestamps, test_bits, test_name), trains).contains(
            (trains[k].feature_name, Similarity::Identical),
        ),
    decreases trains.len(),
{
    let test = fingerprint_of(timestamps, test_bits, test_name);
    if k == trains.len() - 1 {
        law_window_overlaps_itself(timestamps);
        let earlier = candidates_for(test, trains.drop_last());
        assert(candidates_for(test, trains) == earlier.push(
            (trains[k].feature_name, Similarity::Identical),
        ));
        assert(candidates_for(test, trains)[earlier.len() as int] == (
            trains[k].feature_name,
            Similarity::Identical,
        ));
    } else {
        let shorter = trains.drop_last();
        assert(shorter[k] == trains[k]);
        law_duplicate_window_is_reported(timestamps, test_bits, test_name, shorter, k, train_bits);
        let earlier = candidates_for(test, shorter);
        let item = (trains[k].feature_name, Similarity::Identical);
        let i = choose|i: int| 0 <= i < earlier.len() && earlier[i] == item;
        if spans_overlap(test.timestamps, trains.last().timestamps) {
            let pushed = earlier.push(
                (trains.last().feature_name, similarity_of(test, trains.last())),
            );
            assert(pushed[i] == item);
        }
    }
}

/// A test window that starts after every training window has ended raises no
/// candidates.
pub proof fn law_window_after_training_is_clean(test: FingerprintView, trains: Seq<FingerprintView>)
    requires
        forall|k: int|
            0 <= k < trains.len() ==> span_end(#[trigger] trains[k].timestamps) < span_start(
                test.timestamps,
            ),
    ensures
        candidates_for(test, trains) == Seq::<(Seq<char>, Similarity)>::empty(),
    decreases trains.len(),
{
    if trains.len() > 0 {
        let shorter = trains.drop_last();
        assert forall|k: int| 0 <= k < shorter.len() implies span_end(
            #[trigger] shorter[k].timestamps,
        ) < span_start(test.timestamps) by {
            assert(shorter[k] == trains[k]);
        }
        law_window_after_training_is_clean(test, shorter);
        assert(span_end(trains[trains.len() - 1].timestamps) < span_start(test.timestamps));
    }
}

/// A window added to a rolling-hash validator is afterwards found by it.
pub proof fn law_added_window_is_found(
    before: RollingHashValidator,
    after: RollingHashValidator,
    window: Seq<u64>,
)
    requires
        after.prefix_len() == before.prefix_len(),
        after.known() == before.known().insert(window_digest(window, before.prefix_len())),
    ensures
        after.known().contains(window_digest(window, after.prefix_len())),
{
}

/// Windows that agree on their leading `prefix_len` values have the same
/// digest.
pub proof fn law_only_the_prefix_is_hashed(a: Seq<u64>, b: Seq<u64>, hash_size: nat)
    requires
        hash_size <= a.len(),
        hash_size <= b.len(),
        a.take(hash_size as int) == b.take(hash_size as int),
    ensures
        window_digest(a, hash_size) == window_digest(b, hash_size),
{
}

} // verus!
