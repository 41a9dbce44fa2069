//! Checks on a loaded configuration.
use super::types::{Config, RuleConfig};
use crate::errors::ConfigError;
use crate::strings::{chars_of, concat, is_whitespace, to_string, trim_spec};
use crate::types::{Severity, Stage};
use vstd::prelude::*;

verus! {

/// The shortest accepted per-file timeout, in milliseconds.
pub const TIMEOUT_MIN_MS: u64 = 100;

/// The longest accepted per-file timeout, in milliseconds.
pub const TIMEOUT_MAX_MS: u64 = 60_000;

/// The name a stage is shown by in messages (its variant name).
pub open spec fn stage_debug(s: Stage) -> Seq<char> {
    match s {
        Stage::RawText => "RawText"@,
        Stage::PpText => "PpText"@,
        Stage::Cst => "Cst"@,
        Stage::Ast => "Ast"@,
    }
}

/// The name a stage is shown by in messages.
pub fn stage_debug_name(s: Stage) -> (r: &'static str)
    ensures
        r@ == stage_debug(s),
{
    match s {
        Stage::RawText => "RawText",
        Stage::PpText => "PpText",
        Stage::Cst => "Cst",
        Stage::Ast => "Ast",
    }
}

/// The severity named by `s`, if it names one.
pub open spec fn severity_of(s: Seq<char>) -> Option<Severity> {
    if s == "error"@ {
        Some(Severity::Error)
    } else if s == "warning"@ {
        Some(Severity::Warning)
    } else if s == "info"@ {
        Some(Severity::Info)
    } else {
        None
    }
}

/// The severity named `"error"`, `"warning"` or `"info"`.
pub fn severity_from_str(s: &str) -> (r: Option<Severity>)
    ensures
        r == severity_of(s@),
{
    proof {
        reveal_strlit("error");
        reveal_strlit("warning");
        reveal_strlit("info");
    }
    if crate::strings::str_eq(s, "error") {
        Some(Severity::Error)
    } else if crate::strings::str_eq(s, "warning") {
        Some(Severity::Warning)
    } else if crate::strings::str_eq(s, "info") {
        Some(Severity::Info)
    } else {
        None
    }
}

/// Whether `s` is empty or white space only.
pub fn is_blank(s: &str) -> (r: bool)
    ensures
        r == (trim_spec(s@).len() == 0),
{
    let t = crate::strings::trim(s);
    chars_of(t.as_str()).len() == 0
}

/// The first problem of a configuration, checked in order: the timeout range, the plugin
/// command, the enabled stages, each rule's id (blank, then repeated) and stage, the required
/// stages, and the transport limits.
pub open spec fn config_problem(cfg: Config) -> Option<Seq<char>> {
    let t = cfg.defaults.timeout_ms_per_file;
    if !(TIMEOUT_MIN_MS <= t <= TIMEOUT_MAX_MS) {
        Some("timeout out of range"@)
    } else if trim_spec(cfg.plugin.cmd@).len() == 0 {
        Some("plugin cmd empty"@)
    } else if cfg.stages.enabled@.len() == 0 {
        Some("stages.enabled empty"@)
    } else if rules_problem(cfg.rule@, cfg.stages.enabled@, cfg.rule@.len() as int) is Some {
        rules_problem(cfg.rule@, cfg.stages.enabled@, cfg.rule@.len() as int)
    } else if required_problem(cfg.stages.required@, cfg.stages.enabled@) is Some {
        required_problem(cfg.stages.required@, cfg.stages.enabled@)
    } else if cfg.transport.max_request_bytes == 0 || cfg.transport.max_response_bytes == 0 {
        Some("transport byte limits must be greater than zero"@)
    } else if cfg.transport.warn_margin_bytes > cfg.transport.max_request_bytes {
        Some("transport warn_margin_bytes exceeds max_request_bytes"@)
    } else {
        None
    }
}

/// The problem of the rule at `i`, given the rules before it: a blank id, an id used before,
/// or a stage that is not enabled (a rule without a stage counts as not checkable).
pub open spec fn rule_problem(rules: Seq<RuleConfig>, enabled: Seq<Stage>, i: int) -> Option<Seq<char>> {
    let r = rules[i];
    if trim_spec(r.id@).len() == 0 {
        Some("rule id cannot be empty"@)
    } else if exists|j: int| 0 <= j < i && #[trigger] rules[j].id@ == r.id@ {
        Some("duplicate rule id "@ + r.id@)
    } else if !enabled.contains(r.stage->0) {
        Some("rule "@ + r.id@ + " references disabled stage "@ + stage_debug(r.stage->0))
    } else {
        None
    }
}

/// The first problem among the first `n` rules.
pub open spec fn rules_problem(rules: Seq<RuleConfig>, enabled: Seq<Stage>, n: int) -> Option<Seq<char>>
    decreases n,
{
    if n <= 0 {
        None
    } else if rules_problem(rules, enabled, n - 1) is Some {
        rules_problem(rules, enabled, n - 1)
    } else {
        rule_problem(rules, enabled, n - 1)
    }
}

/// The first required stage that is not enabled, as a problem.
pub open spec fn required_problem(required: Seq<Stage>, enabled: Seq<Stage>) -> Option<Seq<char>> {
    if exists|i: int| 0 <= i < required.len() && !enabled.contains(#[trigger] required[i]) {
        let i = choose|i: int|
            0 <= i < required.len() && !enabled.contains(#[trigger] required[i]) && forall|j: int|
                0 <= j < i ==> enabled.contains(required[j]);
        Some("required stage "@ + stage_debug(required[i]) + " must also be enabled"@)
    } else {
        None
    }
}

/// Once a problem is found among the first `k` rules, it stays the first problem.
proof fn lemma_rules_problem_stays(rules: Seq<RuleConfig>, enabled: Seq<Stage>, k: int, n: int)
    requires
        0 <= k <= n,
        rules_problem(rules, enabled, k) is Some,
    ensures
        rules_problem(rules, enabled, n) == rules_problem(rules, enabled, k),
    decreases n - k,
{
    if n > k {
        lemma_rules_problem_stays(rules, enabled, k, n - 1);
    }
}

fn stage_in(v: &Vec<Stage>, s: Stage) -> (r: bool)
    ensures
        r == v@.contains(s),
{
    let mut i: usize = 0;
    while i < v.len()
        invariant
            i <= v@.len(),
            forall|k: int| 0 <= k < i ==> v@[k] != s,
        decreases v@.len() - i,
    {
        if v[i] == s {
            return true;
        }
        i += 1;
    }
    false
}

fn id_seen_before(rules: &Vec<RuleConfig>, i: usize) -> (r: bool)
    requires
        i < rules@.len(),
    ensures
        r == exists|j: int| 0 <= j < i && #[trigger] rules@[j].id@ == rules@[i as int].id@,
{
    let mut j: usize = 0;
    while j < i
        invariant
            j <= i < rules@.len(),
            forall|k: int| 0 <= k < j ==> rules@[k].id@ != rules@[i as int].id@,
        decreases i - j,
    {
        if rules[j].id == rules[i].id {
            return true;
        }
        j += 1;
    }
    false
}

fn check_rules(cfg: &Config) -> (r: Option<String>)
    requires
        forall|i: int| 0 <= i < cfg.rule@.len() ==> (#[trigger] cfg.rule@[i]).stage is Some,
    ensures
        match rules_problem(cfg.rule@, cfg.stages.enabled@, cfg.rule@.len() as int) {
            Some(p) => r matches Some(s) && s@ == p,
            None => r is None,
        },
{
    let mut i: usize = 0;
    while i < cfg.rule.len()
        invariant
            i <= cfg.rule@.len(),
            forall|k: int| 0 <= k < cfg.rule@.len() ==> (#[trigger] cfg.rule@[k]).stage is Some,
            rules_problem(cfg.rule@, cfg.stages.enabled@, i as int) is None,
        decreases cfg.rule@.len() - i,
    {
        let entry = &cfg.rule[i];
        proof {
            if rule_problem(cfg.rule@, cfg.stages.enabled@, i as int) is Some {
                assert(rules_problem(cfg.rule@, cfg.stages.enabled@, i + 1) is Some);
                lemma_rules_problem_stays(cfg.rule@, cfg.stages.enabled@, i + 1, cfg.rule@.len() as int);
            }
            reveal_strlit("rule id cannot be empty");
            reveal_strlit("duplicate rule id ");
            reveal_strlit("rule ");
            reveal_strlit(" references disabled stage ");
        }
        if is_blank(entry.id.as_str()) {
            return Some(to_string("rule id cannot be empty"));
        }
        if id_seen_before(&cfg.rule, i) {
            return Some(concat("duplicate rule id ", entry.id.as_str()));
        }
        let stage = entry.stage();
        if !stage_in(&cfg.stages.enabled, stage) {
            let a = concat("rule ", entry.id.as_str());
            let b = concat(a.as_str(), " references disabled stage ");
            return Some(concat(b.as_str(), stage_debug_name(stage)));
        }
        i += 1;
    }
    None
}

fn check_required(cfg: &Config) -> (r: Option<String>)
    ensures
        match required_problem(cfg.stages.required@, cfg.stages.enabled@) {
            Some(p) => r matches Some(s) && s@ == p,
            None => r is None,
        },
{
    let req = &cfg.stages.required;
    let en = &cfg.stages.enabled;
    let mut i: usize = 0;
    while i < req.len()
        invariant
            i <= req@.len(),
            req@ == cfg.stages.required@,
            en@ == cfg.stages.enabled@,
            forall|k: int| 0 <= k < i ==> en@.contains(#[trigger] req@[k]),
        decreases req@.len() - i,
    {
        if !stage_in(en, req[i]) {
            let ghost c = choose|k: int|
                0 <= k < req@.len() && !en@.contains(#[trigger] req@[k]) && forall|j: int|
                    0 <= j < k ==> en@.contains(req@[j]);
            assert(c == i) by {
                if c > i {
                    assert(en@.contains(req@[i as int]));
                }
            }
            proof {
                reveal_strlit("required stage ");
                reveal_strlit(" must also be enabled");
            }
            let a = concat("required stage ", stage_debug_name(req[i]));
            return Some(concat(a.as_str(), " must also be enabled"));
        }
        i += 1;
    }
    None
}

/// Checks a loaded configuration; the error names the first problem found (see `config_problem`).
pub fn validate_config(cfg: &Config) -> (r: Result<(), ConfigError>)
    requires
        forall|i: int| 0 <= i < cfg.rule@.len() ==> (#[trigger] cfg.rule@[i]).stage is Some,
    ensures
        match config_problem(*cfg) {
            None => r is Ok,
            Some(p) => r matches Err(ConfigError::InvalidValue { detail }) && detail@ == p,
        },
{
    proof {
        reveal_strlit("timeout out of range");
        reveal_strlit("plugin cmd empty");
        reveal_strlit("stages.enabled empty");
        reveal_strlit("transport byte limits must be greater than zero");
        reveal_strlit("transport warn_margin_bytes exceeds max_request_bytes");
    }
    let t = cfg.defaults.timeout_ms_per_file;
    if !(TIMEOUT_MIN_MS <= t && t <= TIMEOUT_MAX_MS) {
        return Err(ConfigError::InvalidValue { detail: to_string("timeout out of range") });
    }
    if is_blank(cfg.plugin.cmd.as_str()) {
        return Err(ConfigError::InvalidValue { detail: to_string("plugin cmd empty") });
    }
    if cfg.stages.enabled.len() == 0 {
        return Err(ConfigError::InvalidValue { detail: to_string("stages.enabled empty") });
    }
    if let Some(p) = check_rules(cfg) {
        return Err(ConfigError::InvalidValue { detail: p });
    }
    if let Some(p) = check_required(cfg) {
        return Err(ConfigError::InvalidValue { detail: p });
    }
    if cfg.transport.max_request_bytes == 0 || cfg.transport.max_response_bytes == 0 {
        return Err(ConfigError::InvalidValue { detail: to_string("transport byte limits must be greater than zero") });
    }
    if cfg.transport.warn_margin_bytes > cfg.transport.max_request_bytes {
        return Err(
            ConfigError::InvalidValue { detail: to_string("transport warn_margin_bytes exceeds max_request_bytes") },
        );
    }
    Ok(())
}

/// Without a problem among the first `n` rules, none of them has a problem.
proof fn lemma_no_rule_problem(rules: Seq<RuleConfig>, enabled: Seq<Stage>, n: int)
    requires
        rules_problem(rules, enabled, n) is None,
    ensures
        forall|i: int| 0 <= i < n ==> #[trigger] rule_problem(rules, enabled, i) is None,
    decreases n,
{
    if n > 0 {
        lemma_no_rule_problem(rules, enabled, n - 1);
    }
}

/// Law: a configuration that passes the checks has its timeout within range, a plugin command,
/// enabled stages, rule ids that are not blank and pairwise distinct, every rule at an enabled
/// stage, every required stage enabled, and transport limits above zero with the warning
/// margin within the request limit.
pub proof fn law_accepted_config_is_consistent(cfg: Config)
    requires
        config_problem(cfg) is None,
    ensures
        TIMEOUT_MIN_MS <= cfg.defaults.timeout_ms_per_file <= TIMEOUT_MAX_MS,
        trim_spec(cfg.plugin.cmd@).len() > 0,
        cfg.stages.enabled@.len() > 0,
        forall|i: int| 0 <= i < cfg.rule@.len() ==> trim_spec((#[trigger] cfg.rule@[i]).id@).len() > 0,
        forall|i: int, j: int|
            0 <= i < j < cfg.rule@.len() ==> (#[trigger] cfg.rule@[i]).id@ != (#[trigger] cfg.rule@[j]).id@,
        forall|i: int| 0 <= i < cfg.rule@.len() ==> cfg.stages.enabled@.contains((#[trigger] cfg.rule@[i]).stage->0),
        forall|i: int| 0 <= i < cfg.stages.required@.len() ==> cfg.stages.enabled@.contains(#[trigger] cfg.stages.required@[i]),
        cfg.transport.max_request_bytes > 0,
        cfg.transport.max_response_bytes > 0,
        cfg.transport.warn_margin_bytes <= cfg.transport.max_request_bytes,
{
    let rules = cfg.rule@;
    let en = cfg.stages.enabled@;
    lemma_no_rule_problem(rules, en, rules.len() as int);
    assert forall|i: int| 0 <= i < rules.len() implies trim_spec((#[trigger] rules[i]).id@).len() > 0 by {
        assert(rule_problem(rules, en, i) is None);
    }
    assert forall|i: int, j: int| 0 <= i < j < rules.len() implies (#[trigger] rules[i]).id@ != (
    #[trigger] rules[j]).id@ by {
        assert(rule_problem(rules, en, j) is None);
    }
    assert forall|i: int| 0 <= i < rules.len() implies en.contains((#[trigger] rules[i]).stage->0) by {
        assert(rule_problem(rules, en, i) is None);
    }
}

} // verus!
