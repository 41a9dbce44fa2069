//! The decisions of running the stages of one file: limits per stage, rules per stage, and
//! what a stage outcome means for the rest of the run.
use super::size_guard::{OnExceed, SizePolicy, StageOutcome, StageStatus};
use crate::config::types::{Config, RuleConfig, TransportOnExceed};
use crate::strings::{concat, to_string};
use crate::types::{Location, Severity, Stage, Violation};
use vstd::prelude::*;

verus! {

/// Whether errors of `stage` are never skipped: the configured required stages, or by default
/// the raw and preprocessed text stages.
pub open spec fn is_required_spec(required: Seq<Stage>, stage: Stage) -> bool {
    if required.len() == 0 {
        stage == Stage::RawText || stage == Stage::PpText
    } else {
        required.contains(stage)
    }
}

/// Whether errors of `stage` are never skipped.
pub fn is_required_stage(cfg: &Config, stage: &Stage) -> (r: bool)
    ensures
        r == is_required_spec(cfg.stages.required@, *stage),
{
    let req = &cfg.stages.required;
    if req.len() == 0 {
        return *stage == Stage::RawText || *stage == Stage::PpText;
    }
    let mut i: usize = 0;
    while i < req.len()
        invariant
            i <= req@.len(),
            req@ == cfg.stages.required@,
            req@.len() > 0,
            forall|k: int| 0 <= k < i ==> req@[k] != *stage,
        decreases req@.len() - i,
    {
        if req[i] == *stage {
            return true;
        }
        i += 1;
    }
    false
}

/// The size limits of `stage`: the transport limits, a warning below the request limit by the
/// margin (not below 0), and oversize treated as an error for required stages.
pub open spec fn size_policy_spec(cfg: Config, stage: Stage) -> SizePolicy {
    let required = is_required_spec(cfg.stages.required@, stage);
    SizePolicy {
        max_request_bytes: cfg.transport.max_request_bytes,
        warn_request_bytes: if cfg.transport.max_request_bytes >= cfg.transport.warn_margin_bytes {
            (cfg.transport.max_request_bytes - cfg.transport.warn_margin_bytes) as usize
        } else {
            0
        },
        max_response_bytes: cfg.transport.max_response_bytes,
        on_exceed: if required || cfg.transport.on_exceed == TransportOnExceed::Error {
            OnExceed::Error
        } else {
            OnExceed::Skip
        },
        fail_ci_on_skip: cfg.transport.fail_ci_on_skip,
        is_required_stage: required,
    }
}

/// The size limits of `stage`.
pub fn size_policy_for_stage(cfg: &Config, stage: &Stage) -> (r: SizePolicy)
    ensures
        r == size_policy_spec(*cfg, *stage),
{
    let required = is_required_stage(cfg, stage);
    let warn_request_bytes = cfg.transport.max_request_bytes.saturating_sub(cfg.transport.warn_margin_bytes);
    let on_exceed = if required {
        OnExceed::Error
    } else {
        match cfg.transport.on_exceed {
            TransportOnExceed::Skip => OnExceed::Skip,
            TransportOnExceed::Error => OnExceed::Error,
        }
    };
    SizePolicy {
        max_request_bytes: cfg.transport.max_request_bytes,
        warn_request_bytes,
        max_response_bytes: cfg.transport.max_response_bytes,
        on_exceed,
        fail_ci_on_skip: cfg.transport.fail_ci_on_skip,
        is_required_stage: required,
    }
}

/// The enabled and disabled rule ids of one stage.
#[derive(Clone, Debug)]
pub struct StageRuleSet {
    pub enabled: Vec<String>,
    pub disabled: Vec<String>,
}

/// The rules of each stage, in the order raw text, preprocessed text, CST, AST.
#[derive(Clone, Debug)]
pub struct StageRuleMap {
    pub raw_text: StageRuleSet,
    pub pp_text: StageRuleSet,
    pub cst: StageRuleSet,
    pub ast: StageRuleSet,
}

/// The ids of the rules at `stage` that are (or are not) enabled, in configuration order.
pub open spec fn stage_ids(rules: Seq<RuleConfig>, stage: Stage, enabled: bool) -> Seq<Seq<char>>
    decreases rules.len(),
{
    if rules.len() == 0 {
        Seq::empty()
    } else {
        let p = stage_ids(rules.drop_last(), stage, enabled);
        let r = rules.last();
        if r.stage == Some(stage) && r.enabled == enabled {
            p.push(r.id@)
        } else {
            p
        }
    }
}

/// The character sequences of a list of strings.
pub open spec fn ids_of(v: Seq<String>) -> Seq<Seq<char>> {
    v.map_values(|s: String| s@)
}

/// Whether `set` lists the enabled and disabled rules of `stage`.
pub open spec fn is_rule_set(set: StageRuleSet, rules: Seq<RuleConfig>, stage: Stage) -> bool {
    ids_of(set.enabled@) == stage_ids(rules, stage, true) && ids_of(set.disabled@) == stage_ids(rules, stage, false)
}

impl StageRuleMap {
    /// The rules of `stage`.
    pub open spec fn get_spec(&self, stage: Stage) -> StageRuleSet {
        match stage {
            Stage::RawText => self.raw_text,
            Stage::PpText => self.pp_text,
            Stage::Cst => self.cst,
            Stage::Ast => self.ast,
        }
    }

    /// The rules of `stage`.
    pub fn get(&self, stage: Stage) -> (r: &StageRuleSet)
        ensures
            *r == self.get_spec(stage),
    {
        match stage {
            Stage::RawText => &self.raw_text,
            Stage::PpText => &self.pp_text,
            Stage::Cst => &self.cst,
            Stage::Ast => &self.ast,
        }
    }
}

fn rule_set_for(rules: &Vec<RuleConfig>, stage: Stage) -> (r: StageRuleSet)
    requires
        forall|i: int| 0 <= i < rules@.len() ==> (#[trigger] rules@[i]).stage is Some,
    ensures
        is_rule_set(r, rules@, stage),
{
    let mut enabled: Vec<String> = Vec::new();
    let mut disabled: Vec<String> = Vec::new();
    let mut i: usize = 0;
    while i < rules.len()
        invariant
            i <= rules@.len(),
            forall|k: int| 0 <= k < rules@.len() ==> (#[trigger] rules@[k]).stage is Some,
            ids_of(enabled@) == stage_ids(rules@.take(i as int), stage, true),
            ids_of(disabled@) == stage_ids(rules@.take(i as int), stage, false),
        decreases rules@.len() - i,
    {
        assert(rules@.take(i + 1).drop_last() =~= rules@.take(i as int));
        let rule = &rules[i];
        if rule.stage() == stage {
            if rule.enabled {
                enabled.push(rule.id.clone());
                assert(ids_of(enabled@) =~= ids_of(enabled@.drop_last()).push(rule.id@));
            } else {
                disabled.push(rule.id.clone());
                assert(ids_of(disabled@) =~= ids_of(disabled@.drop_last()).push(rule.id@));
            }
        }
        i += 1;
    }
    assert(rules@.take(rules@.len() as int) =~= rules@);
    StageRuleSet { enabled, disabled }
}

/// The rules of every stage: for each, the ids of its enabled and its disabled rules in
/// configuration order.
pub fn build_stage_rule_map(cfg: &Config) -> (r: StageRuleMap)
    requires
        forall|i: int| 0 <= i < cfg.rule@.len() ==> (#[trigger] cfg.rule@[i]).stage is Some,
    ensures
        forall|s: Stage| is_rule_set(#[trigger] r.get_spec(s), cfg.rule@, s),
{
    StageRuleMap {
        raw_text: rule_set_for(&cfg.rule, Stage::RawText),
        pp_text: rule_set_for(&cfg.rule, Stage::PpText),
        cst: rule_set_for(&cfg.rule, Stage::Cst),
        ast: rule_set_for(&cfg.rule, Stage::Ast),
    }
}

/// Whether an outcome stops the file: a failed stage, or one that fails the run.
pub open spec fn aborts(o: StageOutcome) -> bool {
    o.status == StageStatus::Failed || o.fail_ci
}

/// What to do after a stage's outcome.
#[derive(Clone, Copy, Debug, PartialEq, Eq, Structural)]
pub enum StageDecision {
    Continue,
    Abort,
}

/// The violations gathered over the stages of one file.
pub struct FileRun {
    pub all: Vec<Violation>,
}

impl FileRun {
    /// A run with nothing gathered yet.
    pub fn new() -> (r: Self)
        ensures
            r.all@.len() == 0,
    {
        FileRun { all: Vec::new() }
    }

    /// Adds a stage's violations to those gathered, and says whether the file stops there.
    pub fn absorb(&mut self, outcome: StageOutcome) -> (r: StageDecision)
        ensures
            final(self).all@ == old(self).all@ + outcome.violations@,
            r == (if aborts(outcome) {
                StageDecision::Abort
            } else {
                StageDecision::Continue
            }),
    {
        let abort = outcome.status == StageStatus::Failed || outcome.fail_ci;
        let StageOutcome { violations, .. } = outcome;
        let ghost before = self.all@;
        let mut vs = violations;
        self.all.append(&mut vs);
        if abort {
            StageDecision::Abort
        } else {
            StageDecision::Continue
        }
    }
}

/// The outcome of a stage that ran and returned `violations` after `duration_ms`.
pub fn ran_outcome(stage: &Stage, violations: Vec<Violation>, duration_ms: u64) -> (r: StageOutcome)
    ensures
        r.stage@ == crate::types::stage_name(*stage),
        r.status == StageStatus::Ran,
        r.violations == violations,
        r.duration_ms == duration_ms,
        !r.fail_ci,
        !aborts(r),
{
    StageOutcome { stage: to_string(stage.as_str()), status: StageStatus::Ran, violations, duration_ms, fail_ci: false }
}

/// The message of a file whose stage stopped it.
pub fn stage_abort_message(stage: &Stage) -> (r: String)
    ensures
        r@ == "stage "@ + crate::types::stage_name(*stage) + " aborted"@,
{
    proof {
        reveal_strlit("stage ");
        reveal_strlit(" aborted");
    }
    let a = concat("stage ", stage.as_str());
    concat(a.as_str(), " aborted")
}

/// The violation reported for a file that could not be parsed.
pub fn parse_failure_violation(message: String, path: String) -> (r: Violation)
    ensures
        r.rule_id@ == "sys.parse.failed"@,
        r.severity == Severity::Error,
        r.message == message,
        r.location.line == 1 && r.location.col == 1 && r.location.end_line == 1 && r.location.end_col == 1,
        r.location.file == Some(path),
{
    proof {
        reveal_strlit("sys.parse.failed");
    }
    Violation {
        rule_id: to_string("sys.parse.failed"),
        severity: Severity::Error,
        message,
        location: Location { line: 1, col: 1, end_line: 1, end_col: 1, file: Some(path) },
    }
}

/// The totals of a run over several files.
#[derive(Clone, Copy, Debug)]
pub struct RunSummary {
    pub violations: usize,
    pub had_error: bool,
}

impl RunSummary {
    /// No files run yet.
    pub fn empty() -> (r: Self)
        ensures
            r.violations == 0,
            !r.had_error,
    {
        RunSummary { violations: 0, had_error: false }
    }

    /// Counts one file: its number of violations, or an error.
    pub fn record_file(&mut self, result: Option<usize>)
        requires
            result matches Some(n) ==> old(self).violations + n <= usize::MAX,
        ensures
            match result {
                Some(n) => final(self).violations == old(self).violations + n && final(self).had_error
                    == old(self).had_error,
                None => final(self).violations == old(self).violations && final(self).had_error,
            },
    {
        match result {
            Some(n) => {
                self.violations = self.violations + n;
            },
            None => {
                self.had_error = true;
            },
        }
    }

    /// Adds the totals of another part of the run.
    pub fn merge(&mut self, other: &RunSummary)
        requires
            old(self).violations + other.violations <= usize::MAX,
        ensures
            final(self).violations == old(self).violations + other.violations,
            final(self).had_error == (old(self).had_error || other.had_error),
    {
        self.violations = self.violations + other.violations;
        self.had_error = self.had_error || other.had_error;
    }
}

/// How a list of input files is run.
#[derive(Clone, Copy, Debug, PartialEq, Eq, Structural)]
pub enum RunMode {
    /// Nothing to run.
    Empty,
    /// One plugin host runs the files in turn.
    Batch,
    /// Several workers, each with a host, take files in turn.
    Parallel { workers: usize },
}

/// The number of workers for `n` files given `parallelism` available threads (1 when unknown).
pub open spec fn parallel_workers(n: usize, parallelism: Option<usize>) -> usize {
    let p = match parallelism {
        Some(p) => p,
        None => 1usize,
    };
    if p < n {
        p
    } else {
        n
    }
}

/// How `n` files are run given `parallelism` available threads.
pub fn run_mode(n: usize, parallelism: Option<usize>) -> (r: RunMode)
    ensures
        n == 0 ==> r == RunMode::Empty,
        n == 1 ==> r == RunMode::Batch,
        n > 1 ==> r == (RunMode::Parallel { workers: parallel_workers(n, parallelism) }),
{
    if n == 0 {
        return RunMode::Empty;
    }
    if n == 1 {
        return RunMode::Batch;
    }
    let p = match parallelism {
        Some(p) => p,
        None => 1,
    };
    let workers = if p < n {
        p
    } else {
        n
    };
    RunMode::Parallel { workers }
}

/// Law: a request over the limit at a required stage is an error: the stage fails and the
/// run fails, whatever the transport's `on_exceed` says.
pub proof fn law_required_stage_oversize_fails(cfg: Config, stage: Stage)
    requires
        is_required_spec(cfg.stages.required@, stage),
    ensures
        super::size_guard::oversize_severity(size_policy_spec(cfg, stage)) == Severity::Error,
        size_policy_spec(cfg, stage).on_exceed == OnExceed::Error,
{
}

/// Law: the warning threshold never exceeds the request limit.
pub proof fn law_warn_below_limit(cfg: Config, stage: Stage)
    ensures
        size_policy_spec(cfg, stage).warn_request_bytes <= size_policy_spec(cfg, stage).max_request_bytes,
{
}

} // verus!
