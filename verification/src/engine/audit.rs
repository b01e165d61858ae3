use crate::string_map::StringMap;
use crate::text::{
    bool_string, bool_text, decimal_digits, i64_text, lemma_lex_irreflexive, lemma_lex_total,
    lemma_lex_transitive, lex_lt, signed_decimal, string_lt, usize_text,
};
use vstd::prelude::*;
use vstd::string::StringExecFns;

verus! {

/// Why a compliance check refused its input.
#[derive(Debug, Clone, Copy, PartialEq, Eq, Structural)]
pub enum AuditError {
    EmptyTrainDates,
    EmptyTestDates,
}

pub open spec fn texts(v: Seq<String>) -> Seq<Seq<char>> {
    v.map_values(|s: String| s@)
}

/// Every recorded check passed.
pub open spec fn all_checks_pass(results: Map<Seq<char>, bool>) -> bool {
    forall|k: Seq<char>| #[trigger] results.contains_key(k) ==> results[k]
}

// ---------------------------------------------------------------------------
// Check log
// ---------------------------------------------------------------------------

/// Named pass/fail results together with an overall verdict that turns to
/// failed at the first failing result and stays failed.
pub struct CheckLog {
    results: StringMap<bool>,
    passed: bool,
}

impl CheckLog {
    /// A passing log has only passing results.
    #[verifier::type_invariant]
    spec fn verdict_matches(self) -> bool {
        self.passed ==> all_checks_pass(self.results.view())
    }

    pub closed spec fn results(&self) -> Map<Seq<char>, bool> {
        self.results.view()
    }

    pub closed spec fn is_passing(&self) -> bool {
        self.passed
    }

    /// An empty, passing log.
    pub fn new() -> (log: Self)
        ensures
            log.results() == Map::<Seq<char>, bool>::empty(),
            log.is_passing(),
    {
        CheckLog { results: StringMap::new(), passed: true }
    }

    /// Records a result under `name`, replacing an earlier one of that name.
    pub fn record(&mut self, name: String, passed: bool)
        ensures
            final(self).results() == old(self).results().insert(name@, passed),
            final(self).is_passing() == (old(self).is_passing() && passed),
            final(self).is_passing() ==> all_checks_pass(final(self).results()),
    {
        proof {
            use_type_invariant(&*self);
        }
        if !passed {
            self.passed = false;
        }
        let ghost key = name@;
        let mut results: StringMap<bool> = StringMap::new();
        std::mem::swap(&mut results, &mut self.results);
        results.insert(name, passed);
        proof {
            if self.passed {
                assert forall|k: Seq<char>| #[trigger] results.view().contains_key(k) implies results.view()[k] by {
                    if k != key {
                        assert(old(self).results().contains_key(k));
                    }
                }
            }
        }
        std::mem::swap(&mut results, &mut self.results);
        proof {
            use_type_invariant(&*self);
        }
    }

    /// The overall verdict.
    pub fn passed(&self) -> (p: bool)
        ensures
            p == self.is_passing(),
    {
        self.passed
    }

    /// The number of distinct check names recorded.
    pub fn count(&self) -> (n: usize)
        ensures
            n == self.results().len(),
    {
        self.results.len()
    }

    /// The recorded results, each name once.
    pub fn entries(&self) -> (es: &Vec<(String, bool)>)
        ensures
            es@.len() == self.results().len(),
            forall|i: int|
                0 <= i < es@.len() ==> self.results().contains_key(#[trigger] es@[i].0@)
                    && self.results()[es@[i].0@] == es@[i].1,
            forall|k: Seq<char>|
                #[trigger] self.results().contains_key(k) ==> exists|i: int|
                    0 <= i < es@.len() && es@[i].0@ == k,
    {
        self.results.entries()
    }
}

// ---------------------------------------------------------------------------
// Audit reports
// ---------------------------------------------------------------------------

/// The outcome of a set of validation checks, with warnings.  A report passes
/// until a failing check is added to it.
pub struct AuditReport {
    report_id: String,
    timestamp: String,
    checks: CheckLog,
    warnings: Vec<String>,
}

/// The entries of a report summary: its id, creation time, verdict, number of
/// checks and number of warnings.
pub open spec fn summary_of(
    id: Seq<char>,
    created: Seq<char>,
    passed: bool,
    checks: nat,
    warnings: nat,
) -> Seq<(Seq<char>, Seq<char>)> {
    seq![
        ("report_id"@, id),
        ("timestamp"@, created),
        ("passed"@, bool_text(passed)),
        ("checks"@, decimal_digits(checks)),
        ("warnings"@, decimal_digits(warnings)),
    ]
}

pub open spec fn pair_texts(v: Seq<(String, String)>) -> Seq<(Seq<char>, Seq<char>)> {
    v.map_values(|p: (String, String)| (p.0@, p.1@))
}

impl AuditReport {
    pub closed spec fn id(&self) -> Seq<char> {
        self.report_id@
    }

    pub closed spec fn created(&self) -> Seq<char> {
        self.timestamp@
    }

    /// The recorded checks and whether each passed (the last word counts).
    pub closed spec fn checks(&self) -> Map<Seq<char>, bool> {
        self.checks.results()
    }

    pub closed spec fn warning_texts(&self) -> Seq<Seq<char>> {
        texts(self.warnings@)
    }

    pub closed spec fn is_passing(&self) -> bool {
        self.checks.is_passing()
    }

    /// A passing report with no checks or warnings, stamped `timestamp`.
    pub fn new(report_id: String, timestamp: String) -> (r: Self)
        ensures
            r.id() == report_id@,
            r.created() == timestamp@,
            r.checks() == Map::<Seq<char>, bool>::empty(),
            r.warning_texts() == Seq::<Seq<char>>::empty(),
            r.is_passing(),
    {
        let r = AuditReport { report_id, timestamp, checks: CheckLog::new(), warnings: Vec::new() };
        proof {
            assert(r.warning_texts() =~= Seq::<Seq<char>>::empty());
        }
        r
    }

    /// Records whether a check passed; a failing check fails the report for
    /// good.
    pub fn add_validation(&mut self, check_name: String, passed: bool)
        ensures
            final(self).checks() == old(self).checks().insert(check_name@, passed),
            final(self).is_passing() == (old(self).is_passing() && passed),
            final(self).is_passing() ==> all_checks_pass(final(self).checks()),
            final(self).id() == old(self).id(),
            final(self).created() == old(self).created(),
            final(self).warning_texts() == old(self).warning_texts(),
    {
        self.checks.record(check_name, passed);
    }

    /// Appends a warning.
    pub fn add_warning(&mut self, message: String)
        ensures
            final(self).warning_texts() == old(self).warning_texts().push(message@),
            final(self).checks() == old(self).checks(),
            final(self).is_passing() == old(self).is_passing(),
            final(self).id() == old(self).id(),
            final(self).created() == old(self).created(),
    {
        let ghost m = message@;
        self.warnings.push(message);
        proof {
            assert(self.warning_texts() =~= old(self).warning_texts().push(m));
        }
    }

    /// The report's summary entries: id, creation time, verdict, number of
    /// checks and number of warnings.
    pub fn summary(&self) -> (s: Vec<(String, String)>)
        ensures
            pair_texts(s@) == summary_of(
                self.id(),
                self.created(),
                self.is_passing(),
                self.checks().len(),
                self.warning_texts().len(),
            ),
    {
        let mut s: Vec<(String, String)> = Vec::new();
        s.push((String::from_str("report_id"), self.report_id.clone()));
        s.push((String::from_str("timestamp"), self.timestamp.clone()));
        s.push((String::from_str("passed"), bool_string(self.checks.passed())));
        s.push((String::from_str("checks"), usize_text(self.checks.count())));
        s.push((String::from_str("warnings"), usize_text(self.warnings.len())));
        proof {
            assert(pair_texts(s@) =~= summary_of(
                self.id(),
                self.created(),
                self.is_passing(),
                self.checks().len(),
                self.warning_texts().len(),
            ));
        }
        s
    }

    /// The report's id.
    pub fn report_id(&self) -> (id: &String)
        ensures
            id@ == self.id(),
    {
        &self.report_id
    }

    /// When the report was created.
    pub fn timestamp(&self) -> (t: &String)
        ensures
            t@ == self.created(),
    {
        &self.timestamp
    }

    /// Whether every check recorded so far passed.
    pub fn passed(&self) -> (p: bool)
        ensures
            p == self.is_passing(),
    {
        self.checks.passed()
    }

    /// The number of distinct checks recorded.
    pub fn check_count(&self) -> (n: usize)
        ensures
            n == self.checks().len(),
    {
        self.checks.count()
    }

    /// The recorded checks, each name once.
    pub fn validation_results(&self) -> (es: &Vec<(String, bool)>)
        ensures
            es@.len() == self.checks().len(),
            forall|i: int|
                0 <= i < es@.len() ==> self.checks().contains_key(#[trigger] es@[i].0@)
                    && self.checks()[es@[i].0@] == es@[i].1,
            forall|k: Seq<char>|
                #[trigger] self.checks().contains_key(k) ==> exists|i: int|
                    0 <= i < es@.len() && es@[i].0@ == k,
    {
        self.checks.entries()
    }

    /// The warnings, in the order they were added.
    pub fn warnings(&self) -> (w: &Vec<String>)
        ensures
            texts(w@) == self.warning_texts(),
    {
        &self.warnings
    }
}


// ---------------------------------------------------------------------------
// Compliance checks
// ---------------------------------------------------------------------------

/// Every training date sorts strictly before every test date.
pub open spec fn dates_separated(train: Seq<Seq<char>>, test: Seq<Seq<char>>) -> bool {
    forall|i: int, j: int|
        0 <= i < train.len() && 0 <= j < test.len() ==> lex_lt(#[trigger] train[i], #[trigger] test[j])
}

/// The compliance rules a checker starts with.
pub open spec fn default_rules() -> Map<Seq<char>, Seq<char>> {
    map![
        "temporal_leakage"@ => "No future data in training"@,
        "data_distribution"@ => "Train/test distributions similar"@,
        "feature_stability"@ => "Features stable across splits"@,
        "model_performance"@ => "Performance within bounds"@,
    ]
}

pub open spec fn rule_texts(m: Map<Seq<char>, String>) -> Map<Seq<char>, Seq<char>> {
    m.map_values(|s: String| s@)
}

/// The index of a latest date (none sorts after it).
fn latest_index(dates: &Vec<String>) -> (m: usize)
    requires
        dates@.len() > 0,
    ensures
        m < dates@.len(),
        forall|k: int| 0 <= k < dates@.len() ==> !lex_lt(dates@[m as int]@, #[trigger] dates@[k]@),
{
    let mut m: usize = 0;
    let mut i: usize = 1;
    proof {
        lemma_lex_irreflexive(dates@[0]@);
    }
    while i < dates.len()
        invariant
            1 <= i <= dates@.len(),
            m < i,
            forall|k: int| 0 <= k < i ==> !lex_lt(dates@[m as int]@, #[trigger] dates@[k]@),
        decreases dates@.len() - i,
    {
        if string_lt(&dates[m], &dates[i]) {
            proof {
                assert forall|k: int| 0 <= k < i + 1 implies !lex_lt(dates@[i as int]@, #[trigger] dates@[k]@) by {
                    if k == i {
                        lemma_lex_irreflexive(dates@[k]@);
                    } else if lex_lt(dates@[i as int]@, dates@[k]@) {
                        lemma_lex_transitive(dates@[m as int]@, dates@[i as int]@, dates@[k]@);
                    }
                }
            }
            m = i;
        }
        i = i + 1;
    }
    m
}

/// The index of an earliest date (none sorts before it).
fn earliest_index(dates: &Vec<String>) -> (m: usize)
    requires
        dates@.len() > 0,
    ensures
        m < dates@.len(),
        forall|k: int| 0 <= k < dates@.len() ==> !lex_lt(#[trigger] dates@[k]@, dates@[m as int]@),
{
    let mut m: usize = 0;
    let mut i: usize = 1;
    proof {
        lemma_lex_irreflexive(dates@[0]@);
    }
    while i < dates.len()
        invariant
            1 <= i <= dates@.len(),
            m < i,
            forall|k: int| 0 <= k < i ==> !lex_lt(#[trigger] dates@[k]@, dates@[m as int]@),
        decreases dates@.len() - i,
    {
        if string_lt(&dates[i], &dates[m]) {
            proof {
                assert forall|k: int| 0 <= k < i + 1 implies !lex_lt(#[trigger] dates@[k]@, dates@[i as int]@) by {
                    if k == i {
                        lemma_lex_irreflexive(dates@[k]@);
                    } else if lex_lt(dates@[k]@, dates@[i as int]@) {
                        lemma_lex_transitive(dates@[k]@, dates@[i as int]@, dates@[m as int]@);
                    }
                }
            }
            m = i;
        }
        i = i + 1;
    }
    m
}

/// Checks of a train/test split and of the rules that apply to it.
pub struct ComplianceChecker {
    rules: StringMap<String>,
}

impl ComplianceChecker {
    /// The rules, by name, with their descriptions.
    pub closed spec fn rules(&self) -> Map<Seq<char>, Seq<char>> {
        rule_texts(self.rules.view())
    }

    /// A checker with the default rules.
    pub fn new() -> (c: Self)
        ensures
            c.rules() == default_rules(),
    {
        let mut rules: StringMap<String> = StringMap::new();
        rules.insert(String::from_str("temporal_leakage"), String::from_str("No future data in training"));
        rules.insert(String::from_str("data_distribution"), String::from_str("Train/test distributions similar"));
        rules.insert(String::from_str("feature_stability"), String::from_str("Features stable across splits"));
        rules.insert(String::from_str("model_performance"), String::from_str("Performance within bounds"));
        let c = ComplianceChecker { rules };
        proof {
            assert(c.rules() =~= default_rules());
        }
        c
    }

    /// Adds or replaces a rule.
    pub fn add_rule(&mut self, rule_name: String, description: String)
        ensures
            final(self).rules() == old(self).rules().insert(rule_name@, description@),
    {
        let ghost (n, d) = (rule_name@, description@);
        self.rules.insert(rule_name, description);
        proof {
            assert(self.rules() =~= old(self).rules().insert(n, d));
        }
    }

    /// The number of rules.
    pub fn rule_count(&self) -> (n: usize)
        ensures
            n == self.rules().len(),
    {
        proof {
            assert(self.rules().dom() =~= self.rules.view().dom());
        }
        self.rules.len()
    }

    /// Whether every test date sorts after every training date; refuses
    /// empty date lists.
    pub fn check_temporal_leakage(&self, train_dates: &Vec<String>, test_dates: &Vec<String>) -> (r:
        Result<bool, AuditError>)
        ensures
            train_dates@.len() == 0 ==> r == Err::<bool, AuditError>(AuditError::EmptyTrainDates),
            train_dates@.len() > 0 && test_dates@.len() == 0 ==> r == Err::<bool, AuditError>(
                AuditError::EmptyTestDates,
            ),
            train_dates@.len() > 0 && test_dates@.len() > 0 ==> r == Ok::<bool, AuditError>(
                dates_separated(texts(train_dates@), texts(test_dates@)),
            ),
    {
        if train_dates.len() == 0 {
            return Err(AuditError::EmptyTrainDates);
        }
        if test_dates.len() == 0 {
            return Err(AuditError::EmptyTestDates);
        }
        let mi = latest_index(train_dates);
        let mj = earliest_index(test_dates);
        let separated = string_lt(&train_dates[mi], &test_dates[mj]);
        proof {
            let tr = texts(train_dates@);
            let te = texts(test_dates@);
            let top = train_dates@[mi as int]@;
            let bottom = test_dates@[mj as int]@;
            if separated {
                assert forall|i: int, j: int| 0 <= i < tr.len() && 0 <= j < te.len() implies lex_lt(#[trigger] tr[i], #[trigger] te[j]) by {
                    let a = train_dates@[i]@;
                    let b = test_dates@[j]@;
                    assert(!lex_lt(top, a));
                    assert(!lex_lt(b, bottom));
                    if a != top {
                        lemma_lex_total(a, top);
                        lemma_lex_transitive(a, top, bottom);
                    }
                    if b != bottom {
                        lemma_lex_total(b, bottom);
                        lemma_lex_transitive(a, bottom, b);
                    }
                }
            } else {
                assert(!lex_lt(tr[mi as int], te[mj as int]));
            }
        }
        Ok(separated)
    }

    /// Adds the outcome of the temporal-leakage check to `report`: the check
    /// `temporal_leakage` passes when the dates are separated, and a warning
    /// is added when they are not.
    pub fn assess_split(
        &self,
        report: AuditReport,
        train_dates: &Vec<String>,
        test_dates: &Vec<String>,
    ) -> (r: Result<AuditReport, AuditError>)
        ensures
            train_dates@.len() == 0 ==> r is Err && r->Err_0 == AuditError::EmptyTrainDates,
            train_dates@.len() > 0 && test_dates@.len() == 0 ==> r is Err && r->Err_0
                == AuditError::EmptyTestDates,
            train_dates@.len() > 0 && test_dates@.len() > 0 ==> r is Ok && {
                let separated = dates_separated(texts(train_dates@), texts(test_dates@));
                let out = r->Ok_0;
                &&& out.id() == report.id()
                &&& out.created() == report.created()
                &&& out.checks() == report.checks().insert("temporal_leakage"@, separated)
                &&& out.is_passing() == (report.is_passing() && separated)
                &&& out.warning_texts() == if separated {
                    report.warning_texts()
                } else {
                    report.warning_texts().push("Temporal leakage detected in train/test split"@)
                }
            },
    {
        let no_leakage = self.check_temporal_leakage(train_dates, test_dates)?;
        let mut report = report;
        report.add_validation(String::from_str("temporal_leakage"), no_leakage);
        if !no_leakage {
            report.add_warning(String::from_str("Temporal leakage detected in train/test split"));
        }
        Ok(report)
    }

    /// Runs the compliance checks on a split at Unix time `now` (seconds),
    /// whose RFC 3339 text is `timestamp`: a report named `audit_{now}`,
    /// stamped `timestamp`, with the temporal-leakage check added.
    pub fn run_compliance_check(
        &self,
        train_dates: &Vec<String>,
        test_dates: &Vec<String>,
        now: i64,
        timestamp: String,
    ) -> (r: Result<AuditReport, AuditError>)
        ensures
            train_dates@.len() == 0 ==> r is Err && r->Err_0 == AuditError::EmptyTrainDates,
            train_dates@.len() > 0 && test_dates@.len() == 0 ==> r is Err && r->Err_0
                == AuditError::EmptyTestDates,
            train_dates@.len() > 0 && test_dates@.len() > 0 ==> r is Ok && {
                let separated = dates_separated(texts(train_dates@), texts(test_dates@));
                let out = r->Ok_0;
                &&& out.id() == "audit_"@ + signed_decimal(now as int)
                &&& out.created() == timestamp@
                &&& out.checks() == Map::<Seq<char>, bool>::empty().insert(
                    "temporal_leakage"@,
                    separated,
                )
                &&& out.is_passing() == separated
                &&& out.warning_texts() == if separated {
                    Seq::<Seq<char>>::empty()
                } else {
                    seq!["Temporal leakage detected in train/test split"@]
                }
            },
    {
        let mut id = String::from_str("audit_");
        let digits = i64_text(now);
        id.append(digits.as_str());
        let report = AuditReport::new(id, timestamp);
        let r = self.assess_split(report, train_dates, test_dates);
        proof {
            if train_dates@.len() > 0 && test_dates@.len() > 0 {
                let out = r->Ok_0;
                assert(out.id() == "audit_"@ + signed_decimal(now as int));
                if !dates_separated(texts(train_dates@), texts(test_dates@)) {
                    assert(out.warning_texts() =~= seq!["Temporal leakage detected in train/test split"@]);
                }
            }
        }
        r
    }
}

// ---------------------------------------------------------------------------
// Audit log
// ---------------------------------------------------------------------------

/// One log line: `[{timestamp}] {level} - {event}`.
pub open spec fn log_entry(timestamp: Seq<char>, level: Seq<char>, event: Seq<char>) -> Seq<char> {
    "["@ + timestamp + "] "@ + level + " - "@ + event
}

/// The level a line is logged at: the given one, or `INFO`.
pub open spec fn level_text(level: Option<String>) -> Seq<char> {
    match level {
        Some(l) => l@,
        None => "INFO"@,
    }
}

/// Lines joined by newlines.
pub open spec fn join_lines(lines: Seq<Seq<char>>) -> Seq<char>
    decreases lines.len(),
{
    if lines.len() == 0 {
        Seq::empty()
    } else if lines.len() == 1 {
        lines[0]
    } else {
        join_lines(lines.drop_last()) + "\n"@ + lines.last()
    }
}

/// A log of timestamped events, to be written to `log_file`.
pub struct AuditLogger {
    log_file: String,
    logs: Vec<String>,
}

impl AuditLogger {
    pub closed spec fn file(&self) -> Seq<char> {
        self.log_file@
    }

    pub closed spec fn lines(&self) -> Seq<Seq<char>> {
        texts(self.logs@)
    }

    /// An empty log writing to `log_file` (`audit.log` when not given).
    pub fn new(log_file: Option<String>) -> (l: Self)
        ensures
            l.file() == match log_file {
                Some(f) => f@,
                None => "audit.log"@,
            },
            l.lines() == Seq::<Seq<char>>::empty(),
    {
        let log_file = match log_file {
            Some(f) => f,
            None => String::from_str("audit.log"),
        };
        let l = AuditLogger { log_file, logs: Vec::new() };
        proof {
            assert(l.lines() =~= Seq::<Seq<char>>::empty());
        }
        l
    }

    /// Logs `event` at `level` (`INFO` when not given), stamped `timestamp`.
    pub fn log(&mut self, timestamp: String, event: String, level: Option<String>)
        ensures
            final(self).file() == old(self).file(),
            final(self).lines() == old(self).lines().push(
                log_entry(
                    timestamp@,
                    level_text(level),
                    event@,
                ),
            ),
    {
        let level = match level {
            Some(l) => l,
            None => String::from_str("INFO"),
        };
        let mut entry = String::from_str("[");
        entry.append(timestamp.as_str());
        entry.append("] ");
        entry.append(level.as_str());
        entry.append(" - ");
        entry.append(event.as_str());
        let ghost e = entry@;
        self.logs.push(entry);
        proof {
            assert(self.lines() =~= old(self).lines().push(e));
        }
    }

    /// A copy of every logged line, in order.
    pub fn get_logs(&self) -> (logs: Vec<String>)
        ensures
            texts(logs@) == self.lines(),
    {
        let mut out: Vec<String> = Vec::new();
        let n = self.logs.len();
        let mut i: usize = 0;
        while i < n
            invariant
                n == self.logs@.len(),
                i <= n,
                texts(out@) == self.lines().take(i as int),
            decreases n - i,
        {
            let line = self.logs[i].clone();
            let ghost before = out@;
            out.push(line);
            proof {
                assert(line@ == self.logs@[i as int]@);
                assert(texts(out@) =~= texts(before).push(line@));
                assert(self.lines().take(i + 1) =~= self.lines().take(i as int).push(self.logs@[i as int]@));
                assert(texts(out@) =~= self.lines().take(i + 1));
            }
            i = i + 1;
        }
        proof {
            assert(self.lines().take(n as int) =~= self.lines());
        }
        out
    }

    /// The text `save` writes: the logged lines joined by newlines.
    pub fn contents(&self) -> (text: String)
        ensures
            text@ == join_lines(self.lines()),
    {
        let mut text = String::new();
        let n = self.logs.len();
        let mut i: usize = 0;
        while i < n
            invariant
                n == self.logs@.len(),
                i <= n,
                text@ == join_lines(self.lines().take(i as int)),
            decreases n - i,
        {
            proof {
                assert(self.lines().take(i + 1).drop_last() =~= self.lines().take(i as int));
            }
            if i > 0 {
                text.append("\n");
            } else {
                proof {
                    assert(text@ =~= Seq::<char>::empty());
                }
            }
            text.append(self.logs[i].as_str());
            proof {
                if i == 0 {
                    assert(text@ =~= join_lines(self.lines().take(1)));
                }
            }
            i = i + 1;
        }
        proof {
            assert(self.lines().take(n as int) =~= self.lines());
        }
        text
    }

    /// The file the log is saved to.
    pub fn log_file(&self) -> (f: &String)
        ensures
            f@ == self.file(),
    {
        &self.log_file
    }

    /// The number of logged lines.
    pub fn entry_count(&self) -> (n: usize)
        ensures
            n == self.lines().len(),
    {
        self.logs.len()
    }
}

// ---------------------------------------------------------------------------
// Report rendering
// ---------------------------------------------------------------------------

pub const HTML_HEAD: &'static str = "<!DOCTYPE html>\n<html>\n<head>\n    <title>Zeno Audit Report - ";

pub const HTML_STYLE: &'static str = "</title>\n    <style>\n        body { font-family: Arial, sans-serif; margin: 40px; }\n        .header { background: #2c3e50; color: white; padding: 20px; }\n        .passed { color: green; font-weight: bold; }\n        .failed { color: red; font-weight: bold; }\n        table { width: 100%; border-collapse: collapse; margin: 20px 0; }\n        th, td { border: 1px solid #ddd; padding: 12px; text-align: left; }\n        th { background: #34495e; color: white; }\n    </style>\n</head>\n<body>\n    <div class=\"header\">\n        <h1>🌀 Zeno Compliance Audit Report</h1>\n        <p>Report ID: ";

pub const HTML_GENERATED: &'static str = "</p>\n        <p>Generated: ";

pub const HTML_STATUS_CLASS: &'static str = "</p>\n    </div>\n    \n    <h2>Summary</h2>\n    <p class=\"";

pub const HTML_STATUS: &'static str = "\">Status: ";

pub const HTML_CHECKS: &'static str = "</p>\n    <p>Total Checks: ";

pub const HTML_WARNINGS: &'static str = "</p>\n    <p>Warnings: ";

pub const HTML_TAIL: &'static str = "</p>\n    \n    <h2>Validation Results</h2>\n    <table>\n        <tr><th>Check</th><th>Status</th></tr>\n        <!-- Validation results would be inserted here -->\n    </table>\n    \n    <h2>Metrics</h2>\n    <table>\n        <tr><th>Metric</th><th>Value</th></tr>\n        <!-- Metrics would be inserted here -->\n    </table>\n</body>\n</html>";

/// The HTML page of a report.
pub open spec fn html_report(
    id: Seq<char>,
    created: Seq<char>,
    passed: bool,
    checks: nat,
    warnings: nat,
) -> Seq<char> {
    HTML_HEAD@ + id + HTML_STYLE@ + id + HTML_GENERATED@ + created + HTML_STATUS_CLASS@ + (if passed {
        "passed"@
    } else {
        "failed"@
    }) + HTML_STATUS@ + (if passed {
        "PASSED"@
    } else {
        "FAILED"@
    }) + HTML_CHECKS@ + decimal_digits(checks) + HTML_WARNINGS@ + decimal_digits(warnings)
        + HTML_TAIL@
}

/// A rendered page shows the number of checks right after `Total Checks: `
/// and the number of warnings right after `Warnings: `, each in decimal and
/// closed by `</p>`: the page reads, somewhere,
/// `Total Checks: {checks}</p>` then a new paragraph `Warnings: {warnings}</p>`.
pub proof fn law_html_shows_the_counts(
    id: Seq<char>,
    created: Seq<char>,
    passed: bool,
    checks: nat,
    warnings: nat,
)
    ensures
        exists|before: Seq<char>, after: Seq<char>|
            #[trigger] html_report(id, created, passed, checks, warnings) == before
                + "Total Checks: "@ + decimal_digits(checks) + "</p>\n    <p>Warnings: "@
                + decimal_digits(warnings) + "</p>"@ + after,
{
    reveal_strlit("</p>\n    <p>Total Checks: ");
    reveal_strlit("Total Checks: ");
    reveal_strlit("</p>\n    <p>");
    reveal_strlit("</p>\n    <p>Warnings: ");
    reveal_strlit("</p>");
    reveal_strlit("</p>\n    \n    <h2>Validation Results</h2>\n    <table>\n        <tr><th>Check</th><th>Status</th></tr>\n        <!-- Validation results would be inserted here -->\n    </table>\n    \n    <h2>Metrics</h2>\n    <table>\n        <tr><th>Metric</th><th>Value</th></tr>\n        <!-- Metrics would be inserted here -->\n    </table>\n</body>\n</html>");
    let status = HTML_HEAD@ + id + HTML_STYLE@ + id + HTML_GENERATED@ + created + HTML_STATUS_CLASS@
        + (if passed {
        "passed"@
    } else {
        "failed"@
    }) + HTML_STATUS@ + (if passed {
        "PASSED"@
    } else {
        "FAILED"@
    });
    assert(HTML_CHECKS@ =~= "</p>\n    <p>"@ + "Total Checks: "@);
    assert(HTML_TAIL@ =~= "</p>"@ + HTML_TAIL@.subrange(4, HTML_TAIL@.len() as int));
    let before = status + "</p>\n    <p>"@;
    let after = HTML_TAIL@.subrange(4, HTML_TAIL@.len() as int);
    assert(html_report(id, created, passed, checks, warnings) =~= before + "Total Checks: "@
        + decimal_digits(checks) + "</p>\n    <p>Warnings: "@ + decimal_digits(warnings) + "</p>"@
        + after);
}

/// Renders audit reports.
pub struct ReportGenerator {
    template: String,
}

impl ReportGenerator {
    pub closed spec fn template_name(&self) -> Seq<char> {
        self.template@
    }

    /// A generator using `template` (`default` when not given).
    pub fn new(template: Option<String>) -> (g: Self)
        ensures
            g.template_name() == match template {
                Some(t) => t@,
                None => "default"@,
            },
    {
        let template = match template {
            Some(t) => t,
            None => String::from_str("default"),
        };
        ReportGenerator { template }
    }

    /// The report as an HTML page.
    pub fn generate_html(&self, report: &AuditReport) -> (html: String)
        ensures
            html@ == html_report(
                report.id(),
                report.created(),
                report.is_passing(),
                report.checks().len(),
                report.warning_texts().len(),
            ),
    {
        let passed = report.passed();
        let checks = usize_text(report.check_count());
        let warnings = usize_text(report.warnings().len());
        let mut html = String::from_str(HTML_HEAD);
        html.append(report.report_id().as_str());
        html.append(HTML_STYLE);
        html.append(report.report_id().as_str());
        html.append(HTML_GENERATED);
        html.append(report.timestamp().as_str());
        html.append(HTML_STATUS_CLASS);
        html.append(if passed { "passed" } else { "failed" });
        html.append(HTML_STATUS);
        html.append(if passed { "PASSED" } else { "FAILED" });
        html.append(HTML_CHECKS);
        html.append(checks.as_str());
        html.append(HTML_WARNINGS);
        html.append(warnings.as_str());
        html.append(HTML_TAIL);
        html
    }

    /// Renders the report and tells where its PDF goes:
    /// `PDF report saved to {output_path}`.
    pub fn generate_pdf(&self, report: &AuditReport, output_path: &str) -> (message: String)
        ensures
            message@ == "PDF report saved to "@ + output_path@,
    {
        let _html = self.generate_html(report);
        let mut message = String::from_str("PDF report saved to ");
        message.append(output_path);
        message
    }

    /// The template name.
    pub fn template(&self) -> (t: &String)
        ensures
            t@ == self.template_name(),
    {
        &self.template
    }
}

} // verus!
