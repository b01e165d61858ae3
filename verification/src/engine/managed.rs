use crate::string_map::StringMap;
use crate::text::{decimal_digits, usize_text};
use vstd::prelude::*;
use vstd::string::{StrSliceExecFns, StringExecFns};

verus! {

/// Why a pipeline could not run a step.
#[derive(Debug, PartialEq, Eq)]
pub enum PipelineError {
    /// The step's type is none of the known ones.
    UnknownStepType(String),
    /// The step needs a configuration key that is not set.
    MissingConfig(String),
}

/// What one pipeline step does.
#[derive(Debug, PartialEq, Eq)]
pub enum StepAction {
    /// Split the data at the configured cutoff.
    TemporalSplit { cutoff: String },
    /// Run the leakage detector on the data.
    LeakageCheck,
    /// Validate features (the data passes through unchanged).
    FeatureValidation,
}

/// The position of the first `:` in `s`, or its length when there is none.
pub open spec fn first_colon(s: Seq<char>) -> nat
    decreases s.len(),
{
    if s.len() == 0 {
        0
    } else if s[0] == ':' {
        0
    } else {
        1 + first_colon(s.drop_first())
    }
}

/// The type of a stored step: the text before its first `:`.
pub open spec fn step_type_of(step: Seq<char>) -> Seq<char> {
    step.take(first_colon(step) as int)
}

/// A stored step: its type and its name, joined by `:`.
pub open spec fn step_text(step_type: Seq<char>, step_name: Seq<char>) -> Seq<char> {
    step_type + ":"@ + step_name
}

proof fn lemma_first_colon(s: Seq<char>, k: int)
    requires
        0 <= k <= s.len(),
        forall|j: int| 0 <= j < k ==> s[j] != ':',
        k == s.len() || s[k] == ':',
    ensures
        first_colon(s) == k,
    decreases k,
{
    if k > 0 {
        lemma_first_colon(s.drop_first(), k - 1);
    }
}

/// A stored step's type is the step type it was added with, as long as that
/// type holds no `:`.
pub proof fn law_step_type_round_trips(step_type: Seq<char>, step_name: Seq<char>)
    requires
        forall|j: int| 0 <= j < step_type.len() ==> step_type[j] != ':',
    ensures
        step_type_of(step_text(step_type, step_name)) == step_type,
{
    let s = step_text(step_type, step_name);
    reveal_strlit(":");
    assert(s[step_type.len() as int] == ':');
    lemma_first_colon(s, step_type.len() as int);
    assert(s.take(step_type.len() as int) =~= step_type);
}

/// The action a step of type `step_type` takes under `config`.
pub open spec fn action_for(step_type: Seq<char>, config: Map<Seq<char>, Seq<char>>) -> Result<
    StepActionSpec,
    PipelineErrorSpec,
> {
    if step_type == "temporal_split"@ {
        if config.contains_key("temporal_cutoff"@) {
            Ok(StepActionSpec::TemporalSplit { cutoff: config["temporal_cutoff"@] })
        } else {
            Err(PipelineErrorSpec::MissingConfig("temporal_cutoff"@))
        }
    } else if step_type == "leakage_check"@ {
        Ok(StepActionSpec::LeakageCheck)
    } else if step_type == "feature_validation"@ {
        Ok(StepActionSpec::FeatureValidation)
    } else {
        Err(PipelineErrorSpec::UnknownStepType(step_type))
    }
}

/// Only a temporal split reads the configuration: a step of any other type
/// takes the same action, or fails the same way, under every configuration.
pub proof fn law_only_temporal_split_reads_config(
    step_type: Seq<char>,
    config_a: Map<Seq<char>, Seq<char>>,
    config_b: Map<Seq<char>, Seq<char>>,
)
    requires
        step_type != "temporal_split"@,
    ensures
        action_for(step_type, config_a) == action_for(step_type, config_b),
{
}

/// A leakage-check step always runs the leakage check and a
/// feature-validation step always validates features, whatever the step's
/// name and whatever is configured; a temporal-split step splits at the
/// configured `temporal_cutoff` and fails, naming that key, when none is set.
pub proof fn law_step_actions(step_name: Seq<char>, config: Map<Seq<char>, Seq<char>>)
    ensures
        action_for(step_type_of(step_text("leakage_check"@, step_name)), config) == Ok::<
            StepActionSpec,
            PipelineErrorSpec,
        >(StepActionSpec::LeakageCheck),
        action_for(step_type_of(step_text("feature_validation"@, step_name)), config) == Ok::<
            StepActionSpec,
            PipelineErrorSpec,
        >(StepActionSpec::FeatureValidation),
        config.contains_key("temporal_cutoff"@) ==> action_for(
            step_type_of(step_text("temporal_split"@, step_name)),
            config,
        ) == Ok::<StepActionSpec, PipelineErrorSpec>(
            StepActionSpec::TemporalSplit { cutoff: config["temporal_cutoff"@] },
        ),
        !config.contains_key("temporal_cutoff"@) ==> action_for(
            step_type_of(step_text("temporal_split"@, step_name)),
            config,
        ) == Err::<StepActionSpec, PipelineErrorSpec>(
            PipelineErrorSpec::MissingConfig("temporal_cutoff"@),
        ),
{
    reveal_strlit("leakage_check");
    reveal_strlit("feature_validation");
    reveal_strlit("temporal_split");
    law_step_type_round_trips("leakage_check"@, step_name);
    law_step_type_round_trips("feature_validation"@, step_name);
    law_step_type_round_trips("temporal_split"@, step_name);
    assert("leakage_check"@ != "temporal_split"@) by {
        assert("leakage_check"@[0] != "temporal_split"@[0]);
    }
    assert("feature_validation"@ != "temporal_split"@) by {
        assert("feature_validation"@[0] != "temporal_split"@[0]);
    }
    assert("feature_validation"@ != "leakage_check"@) by {
        assert("feature_validation"@[0] != "leakage_check"@[0]);
    }
}

/// The abstract content of a step action.
pub enum StepActionSpec {
    TemporalSplit { cutoff: Seq<char> },
    LeakageCheck,
    FeatureValidation,
}

/// The abstract content of a pipeline error.
pub enum PipelineErrorSpec {
    UnknownStepType(Seq<char>),
    MissingConfig(Seq<char>),
}

impl View for StepAction {
    type V = StepActionSpec;

    open spec fn view(&self) -> StepActionSpec {
        match self {
            StepAction::TemporalSplit { cutoff } => StepActionSpec::TemporalSplit { cutoff: cutoff@ },
            StepAction::LeakageCheck => StepActionSpec::LeakageCheck,
            StepAction::FeatureValidation => StepActionSpec::FeatureValidation,
        }
    }
}

impl View for PipelineError {
    type V = PipelineErrorSpec;

    open spec fn view(&self) -> PipelineErrorSpec {
        match self {
            PipelineError::UnknownStepType(t) => PipelineErrorSpec::UnknownStepType(t@),
            PipelineError::MissingConfig(k) => PipelineErrorSpec::MissingConfig(k@),
        }
    }
}

pub open spec fn result_view(r: Result<StepAction, PipelineError>) -> Result<
    StepActionSpec,
    PipelineErrorSpec,
> {
    match r {
        Ok(a) => Ok(a@),
        Err(e) => Err(e@),
    }
}

pub open spec fn texts(v: Seq<String>) -> Seq<Seq<char>> {
    v.map_values(|s: String| s@)
}

pub open spec fn config_texts(m: Map<Seq<char>, String>) -> Map<Seq<char>, Seq<char>> {
    m.map_values(|s: String| s@)
}

pub open spec fn pair_texts(v: Seq<(String, String)>) -> Seq<(Seq<char>, Seq<char>)> {
    v.map_values(|p: (String, String)| (p.0@, p.1@))
}

/// The text before the first `:` of `s`.
fn text_before_colon(s: &str) -> (t: String)
    ensures
        t@ == s@.take(first_colon(s@) as int),
{
    let n = s.unicode_len();
    let mut k: usize = 0;
    while k < n
        invariant
            n == s@.len(),
            k <= n,
            forall|j: int| 0 <= j < k ==> s@[j] != ':',
        ensures
            k == n || s@[k as int] == ':',
        decreases n - k,
    {
        if s.get_char(k) == ':' {
            break;
        }
        k = k + 1;
    }
    proof {
        lemma_first_colon(s@, k as int);
    }
    String::from_str(s.substring_char(0, k))
}

/// A sequence of validation steps with its configuration.
pub struct ManagedPipeline {
    pipeline_id: String,
    steps: Vec<String>,
    config: StringMap<String>,
}

impl ManagedPipeline {
    pub closed spec fn id(&self) -> Seq<char> {
        self.pipeline_id@
    }

    /// The stored steps, each `{type}:{name}`.
    pub closed spec fn step_texts(&self) -> Seq<Seq<char>> {
        texts(self.steps@)
    }

    pub closed spec fn configuration(&self) -> Map<Seq<char>, Seq<char>> {
        config_texts(self.config.view())
    }

    /// An empty pipeline.
    pub fn new(pipeline_id: String) -> (p: Self)
        ensures
            p.id() == pipeline_id@,
            p.step_texts() == Seq::<Seq<char>>::empty(),
            p.configuration() == Map::<Seq<char>, Seq<char>>::empty(),
    {
        let p = ManagedPipeline { pipeline_id, steps: Vec::new(), config: StringMap::new() };
        proof {
            assert(p.step_texts() =~= Seq::<Seq<char>>::empty());
            assert(p.configuration() =~= Map::<Seq<char>, Seq<char>>::empty());
        }
        p
    }

    /// Appends a step, stored as `{step_type}:{step_name}`.
    pub fn add_step(&mut self, step_name: String, step_type: String)
        ensures
            final(self).step_texts() == old(self).step_texts().push(step_text(step_type@, step_name@)),
            final(self).id() == old(self).id(),
            final(self).configuration() == old(self).configuration(),
    {
        let mut step = step_type;
        step.append(":");
        step.append(step_name.as_str());
        let ghost t = step@;
        self.steps.push(step);
        proof {
            assert(self.step_texts() =~= old(self).step_texts().push(t));
        }
    }

    /// Sets a configuration value.
    pub fn set_config(&mut self, key: String, value: String)
        ensures
            final(self).configuration() == old(self).configuration().insert(key@, value@),
            final(self).id() == old(self).id(),
            final(self).step_texts() == old(self).step_texts(),
    {
        let ghost (k, v) = (key@, value@);
        self.config.insert(key, value);
        proof {
            assert(self.configuration() =~= old(self).configuration().insert(k, v));
        }
    }

    /// The number of steps.
    pub fn step_count(&self) -> (n: usize)
        ensures
            n == self.step_texts().len(),
    {
        self.steps.len()
    }

    /// What step `index` does: its type picks the action, and a temporal
    /// split needs `temporal_cutoff` to be configured.
    pub fn step_action(&self, index: usize) -> (r: Result<StepAction, PipelineError>)
        requires
            index < self.step_texts().len(),
        ensures
            result_view(r) == action_for(
                step_type_of(self.step_texts()[index as int]),
                self.configuration(),
            ),
    {
        let step_type = text_before_colon(self.steps[index].as_str());
        if step_type == String::from_str("temporal_split") {
            match self.config.get("temporal_cutoff") {
                Some(cutoff) => Ok(StepAction::TemporalSplit { cutoff: cutoff.clone() }),
                None => Err(PipelineError::MissingConfig(String::from_str("temporal_cutoff"))),
            }
        } else if step_type == String::from_str("leakage_check") {
            Ok(StepAction::LeakageCheck)
        } else if step_type == String::from_str("feature_validation") {
            Ok(StepAction::FeatureValidation)
        } else {
            Err(PipelineError::UnknownStepType(step_type))
        }
    }

    /// The pipeline's status entries: its id, its number of steps and
    /// `ready`.
    pub fn get_status(&self) -> (s: Vec<(String, String)>)
        ensures
            pair_texts(s@) == seq![
                ("pipeline_id"@, self.id()),
                ("steps"@, decimal_digits(self.step_texts().len())),
                ("status"@, "ready"@),
            ],
    {
        let mut s: Vec<(String, String)> = Vec::new();
        s.push((String::from_str("pipeline_id"), self.pipeline_id.clone()));
        s.push((String::from_str("steps"), usize_text(self.steps.len())));
        s.push((String::from_str("status"), String::from_str("ready")));
        proof {
            assert(pair_texts(s@) =~= seq![
                ("pipeline_id"@, self.id()),
                ("steps"@, decimal_digits(self.step_texts().len())),
                ("status"@, "ready"@),
            ]);
        }
        s
    }

    /// The pipeline's id.
    pub fn pipeline_id(&self) -> (id: &String)
        ensures
            id@ == self.id(),
    {
        &self.pipeline_id
    }
}

/// Stored pipeline configurations, by pipeline id.
pub struct PipelineRegistry {
    pipelines: StringMap<String>,
}

impl PipelineRegistry {
    /// The registered configurations.
    pub closed spec fn configs(&self) -> Map<Seq<char>, Seq<char>> {
        config_texts(self.pipelines.view())
    }

    /// An empty registry.
    pub fn new() -> (r: Self)
        ensures
            r.configs() == Map::<Seq<char>, Seq<char>>::empty(),
    {
        let r = PipelineRegistry { pipelines: StringMap::new() };
        proof {
            assert(r.configs() =~= Map::<Seq<char>, Seq<char>>::empty());
        }
        r
    }

    /// Registers a configuration, replacing an earlier one with the same id.
    pub fn register(&mut self, pipeline_id: String, config_json: String)
        ensures
            final(self).configs() == old(self).configs().insert(pipeline_id@, config_json@),
    {
        let ghost (k, v) = (pipeline_id@, config_json@);
        self.pipelines.insert(pipeline_id, config_json);
        proof {
            assert(self.configs() =~= old(self).configs().insert(k, v));
        }
    }

    /// The configuration registered under `pipeline_id`, if any.
    pub fn get(&self, pipeline_id: &str) -> (r: Option<String>)
        ensures
            self.configs().contains_key(pipeline_id@) ==> r is Some && r->0@ == self.configs()[pipeline_id@],
            !self.configs().contains_key(pipeline_id@) ==> r is None,
    {
        match self.pipelines.get(pipeline_id) {
            Some(c) => Some(c.clone()),
            None => None,
        }
    }

    /// Every registered id, each once.
    pub fn list_pipelines(&self) -> (ids: Vec<String>)
        ensures
            texts(ids@).to_set() == self.configs().dom(),
            texts(ids@).no_duplicates(),
    {
        let entries = self.pipelines.entries();
        let mut ids: Vec<String> = Vec::new();
        let n = entries.len();
        let mut i: usize = 0;
        while i < n
            invariant
                n == entries@.len(),
                i <= n,
                texts(ids@) == entries@.take(i as int).map_values(|e: (String, String)| e.0@),
            decreases n - i,
        {
            let id = entries[i].0.clone();
            let ghost before = ids@;
            ids.push(id);
            proof {
                assert(texts(ids@) =~= texts(before).push(id@));
                assert(entries@.take(i + 1).map_values(|e: (String, String)| e.0@) =~= entries@.take(
                    i as int,
                ).map_values(|e: (String, String)| e.0@).push(entries@[i as int].0@));
            }
            i = i + 1;
        }
        proof {
            let ks = texts(ids@);
            assert(entries@.take(n as int) =~= entries@);
            assert(ks =~= entries@.map_values(|e: (String, String)| e.0@));
            assert forall|k: Seq<char>| #[trigger] ks.to_set().contains(k) <==> self.configs().dom().contains(k) by {
                if ks.contains(k) {
                    let j = choose|j: int| 0 <= j < ks.len() && ks[j] == k;
                    assert(entries@[j].0@ == k);
                }
                if self.configs().dom().contains(k) {
                    assert(self.pipelines.view().contains_key(k));
                    let j = choose|j: int| 0 <= j < entries@.len() && entries@[j].0@ == k;
                    assert(ks[j] == k);
                }
            }
            assert(ks.to_set() =~= self.configs().dom());
            assert forall|a: int, b: int| 0 <= a < ks.len() && 0 <= b < ks.len() && a != b implies ks[a] != ks[b] by {
                assert(ks[a] == entries@[a].0@);
                assert(ks[b] == entries@[b].0@);
            }
        }
        ids
    }

    /// Removes `pipeline_id`; tells whether it was registered.
    pub fn delete(&mut self, pipeline_id: &str) -> (existed: bool)
        ensures
            existed == old(self).configs().contains_key(pipeline_id@),
            final(self).configs() == old(self).configs().remove(pipeline_id@),
    {
        let r = self.pipelines.remove(pipeline_id);
        proof {
            assert(self.configs() =~= old(self).configs().remove(pipeline_id@));
        }
        r.is_some()
    }

    /// The number of registered pipelines.
    pub fn count(&self) -> (n: usize)
        ensures
            n == self.configs().len(),
    {
        proof {
            assert(self.configs().dom() =~= self.pipelines.view().dom());
        }
        self.pipelines.len()
    }
}

/// A read after a registration returns what was registered, and the other
/// registrations are unchanged.
pub proof fn law_read_after_register(
    before: PipelineRegistry,
    after: PipelineRegistry,
    id: Seq<char>,
    config: Seq<char>,
    other: Seq<char>,
)
    requires
        after.configs() == before.configs().insert(id, config),
    ensures
        after.configs().contains_key(id),
        after.configs()[id] == config,
        other != id ==> after.configs().contains_key(other) == before.configs().contains_key(other),
        other != id && before.configs().contains_key(other) ==> after.configs()[other]
            == before.configs()[other],
{
}

/// After a deletion the id is gone, and the other registrations are
/// unchanged.
pub proof fn law_read_after_delete(
    before: PipelineRegistry,
    after: PipelineRegistry,
    id: Seq<char>,
    other: Seq<char>,
)
    requires
        after.configs() == before.configs().remove(id),
    ensures
        !after.configs().contains_key(id),
        other != id ==> after.configs().contains_key(other) == before.configs().contains_key(other),
        other != id && before.configs().contains_key(other) ==> after.configs()[other]
            == before.configs()[other],
{
}

/// The cron expression of a named schedule: `hourly`, `daily`, `weekly`, and
/// daily for any other name.
pub open spec fn cron_for(schedule: Seq<char>) -> Seq<char> {
    if schedule == "hourly"@ {
        "0 * * * *"@
    } else if schedule == "daily"@ {
        "0 0 * * *"@
    } else if schedule == "weekly"@ {
        "0 0 * * 0"@
    } else {
        "0 0 * * *"@
    }
}

/// Runs a pipeline on a schedule.
pub struct ValidationScheduler {
    schedule: String,
    pipeline_id: String,
}

impl ValidationScheduler {
    pub closed spec fn schedule_name(&self) -> Seq<char> {
        self.schedule@
    }

    pub closed spec fn pipeline(&self) -> Seq<char> {
        self.pipeline_id@
    }

    /// A scheduler for `pipeline_id` on the named `schedule` (`daily`).
    pub fn new(pipeline_id: String, schedule: Option<String>) -> (s: Self)
        ensures
            s.pipeline() == pipeline_id@,
            s.schedule_name() == match schedule {
                Some(n) => n@,
                None => "daily"@,
            },
    {
        let schedule = match schedule {
            Some(n) => n,
            None => String::from_str("daily"),
        };
        ValidationScheduler { schedule, pipeline_id }
    }

    /// Schedules the pipeline with `cron_expression`, or with the cron
    /// expression of its named schedule, and tells how.
    pub fn schedule_run(&self, cron_expression: Option<String>) -> (message: String)
        ensures
            message@ == "Scheduled pipeline '"@ + self.pipeline() + "' with cron: "@ + match cron_expression {
                Some(c) => c@,
                None => cron_for(self.schedule_name()),
            },
    {
        let expr = match cron_expression {
            Some(c) => c,
            None => {
                if self.schedule == String::from_str("hourly") {
                    String::from_str("0 * * * *")
                } else if self.schedule == String::from_str("daily") {
                    String::from_str("0 0 * * *")
                } else if self.schedule == String::from_str("weekly") {
                    String::from_str("0 0 * * 0")
                } else {
                    String::from_str("0 0 * * *")
                }
            },
        };
        let mut message = String::from_str("Scheduled pipeline '");
        message.append(self.pipeline_id.as_str());
        message.append("' with cron: ");
        message.append(expr.as_str());
        message
    }

    /// The named schedule.
    pub fn schedule(&self) -> (s: &String)
        ensures
            s@ == self.schedule_name(),
    {
        &self.schedule
    }

    /// The scheduled pipeline.
    pub fn pipeline_id(&self) -> (p: &String)
        ensures
            p@ == self.pipeline(),
    {
        &self.pipeline_id
    }
}

} // verus!
