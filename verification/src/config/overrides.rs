//! Command-line `--only` and `--disable` applied to the configured rules.
use super::types::RuleConfig;
use crate::errors::ConfigError;
use crate::strings::concat;
use vstd::prelude::*;

verus! {

/// The ids of the rules.
pub open spec fn rule_ids(rules: Seq<RuleConfig>) -> Seq<Seq<char>> {
    rules.map_values(|r: RuleConfig| r.id@)
}

/// The strings as character sequences.
pub open spec fn views(v: Seq<String>) -> Seq<Seq<char>> {
    v.map_values(|s: String| s@)
}

/// The index of the first requested id that names no rule, if there is one.
pub open spec fn first_unknown(rules: Seq<RuleConfig>, ids: Seq<String>) -> Option<int> {
    if exists|k: int| 0 <= k < ids.len() && !rule_ids(rules).contains(#[trigger] ids[k]@) {
        Some(choose|k: int|
            0 <= k < ids.len() && !rule_ids(rules).contains(#[trigger] ids[k]@) && forall|j: int|
                0 <= j < k ==> rule_ids(rules).contains(#[trigger] ids[j]@))
    } else {
        None
    }
}

/// Whether a rule is on after the overrides: in `only` when `only` is given, and not in `disable`.
pub open spec fn enabled_after(r: RuleConfig, only: Seq<String>, disable: Seq<String>) -> bool {
    (if only.len() > 0 { views(only).contains(r.id@) } else { r.enabled }) && !views(disable).contains(r.id@)
}

/// The message of an override that names no rule.
pub open spec fn unknown_rule_text(id: Seq<char>) -> Seq<char> {
    "rule "@ + id + " not found"@
}

fn contains_str(v: &[String], s: &String) -> (r: bool)
    ensures
        r == views(v@).contains(s@),
{
    let mut i: usize = 0;
    while i < v.len()
        invariant
            i <= v@.len(),
            forall|k: int| 0 <= k < i ==> v@[k]@ != s@,
        decreases v@.len() - i,
    {
        if v[i] == *s {
            assert(views(v@)[i as int] == s@);
            return true;
        }
        i += 1;
    }
    proof {
        if views(v@).contains(s@) {
            let k = choose|k: int| 0 <= k < views(v@).len() && views(v@)[k] == s@;
            assert(v@[k]@ == s@);
        }
    }
    false
}

fn has_rule(rules: &Vec<RuleConfig>, id: &String) -> (r: bool)
    ensures
        r == rule_ids(rules@).contains(id@),
{
    let mut i: usize = 0;
    while i < rules.len()
        invariant
            i <= rules@.len(),
            forall|k: int| 0 <= k < i ==> rules@[k].id@ != id@,
        decreases rules@.len() - i,
    {
        if rules[i].id == *id {
            assert(rule_ids(rules@)[i as int] == id@);
            return true;
        }
        i += 1;
    }
    proof {
        if rule_ids(rules@).contains(id@) {
            let k = choose|k: int| 0 <= k < rule_ids(rules@).len() && rule_ids(rules@)[k] == id@;
            assert(rules@[k].id@ == id@);
        }
    }
    false
}

/// Index of the first id in `ids` that names no rule.
fn find_unknown(rules: &Vec<RuleConfig>, ids: &Vec<String>) -> (r: Option<usize>)
    ensures
        r matches Some(k) ==> k < ids@.len() && first_unknown(rules@, ids@) == Some(k as int),
        r is None ==> first_unknown(rules@, ids@) is None,
{
    let mut i: usize = 0;
    while i < ids.len()
        invariant
            i <= ids@.len(),
            forall|j: int| 0 <= j < i ==> rule_ids(rules@).contains(#[trigger] ids@[j]@),
        decreases ids@.len() - i,
    {
        if !has_rule(rules, &ids[i]) {
            proof {
                let k = choose|k: int|
                    0 <= k < ids@.len() && !rule_ids(rules@).contains(#[trigger] ids@[k]@) && forall|j: int|
                        0 <= j < k ==> rule_ids(rules@).contains(#[trigger] ids@[j]@);
                if k < i {
                } else if k > i {
                    assert(rule_ids(rules@).contains(ids@[i as int]@));
                }
            }
            return Some(i);
        }
        i += 1;
    }
    None
}

/// Applies `--only` and `--disable`. Fails, changing nothing, when one of the ids names no rule.
pub fn apply_rule_overrides(rules: &mut Vec<RuleConfig>, only: &[String], disable: &[String]) -> (res:
    Result<(), ConfigError>)
    ensures
        match first_unknown(old(rules)@, only@ + disable@) {
            Some(k) => (res matches Err(ConfigError::InvalidValue { detail })
                && detail@ == unknown_rule_text((only@ + disable@)[k]@)) && final(rules)@ == old(rules)@,
            None => res is Ok && final(rules)@.len() == old(rules)@.len() && forall|i: int|
                0 <= i < old(rules)@.len() ==> {
                    let r = old(rules)@[i];
                    let n = #[trigger] final(rules)@[i];
                    &&& n.id == r.id
                    &&& n.script == r.script
                    &&& n.stage == r.stage
                    &&& n.severity == r.severity
                    &&& n.enabled == enabled_after(r, only@, disable@)
                },
        },
{
    if only.len() == 0 && disable.len() == 0 {
        return Ok(());
    }
    let requested = join_ids(only, disable);
    if let Some(k) = find_unknown(rules, &requested) {
        return Err(
            ConfigError::InvalidValue {
                detail: concat(concat("rule ", requested[k].as_str()).as_str(), " not found"),
            },
        );
    }
    set_enabled(rules, only, disable);
    Ok(())
}

/// `only` followed by `disable`.
fn join_ids(only: &[String], disable: &[String]) -> (r: Vec<String>)
    ensures
        r@ == only@ + disable@,
{
    let mut requested: Vec<String> = Vec::new();
    let mut i: usize = 0;
    while i < only.len()
        invariant
            i <= only@.len(),
            requested@ == only@.take(i as int),
        decreases only@.len() - i,
    {
        requested.push(only[i].clone());
        assert(only@.take(i + 1) =~= only@.take(i as int).push(only@[i as int]));
        i += 1;
    }
    let mut j: usize = 0;
    while j < disable.len()
        invariant
            j <= disable@.len(),
            requested@ == only@ + disable@.take(j as int),
        decreases disable@.len() - j,
    {
        requested.push(disable[j].clone());
        assert(only@ + disable@.take(j + 1) =~= (only@ + disable@.take(j as int)).push(disable@[j as int]));
        j += 1;
    }
    assert(disable@.take(disable@.len() as int) =~= disable@);
    requested
}

/// Sets each rule's `enabled` flag as the overrides ask.
fn set_enabled(rules: &mut Vec<RuleConfig>, only: &[String], disable: &[String])
    ensures
        final(rules)@.len() == old(rules)@.len(),
        forall|i: int|
            0 <= i < old(rules)@.len() ==> {
                let r = old(rules)@[i];
                let n = #[trigger] final(rules)@[i];
                &&& n.id == r.id
                &&& n.script == r.script
                &&& n.stage == r.stage
                &&& n.severity == r.severity
                &&& n.enabled == enabled_after(r, only@, disable@)
            },
{
    let ghost old_rules = rules@;
    let mut i: usize = 0;
    while i < rules.len()
        invariant
            i <= rules@.len(),
            rules@.len() == old_rules.len(),
            forall|k: int| i <= k < rules@.len() ==> rules@[k] == old_rules[k],
            forall|k: int|
                0 <= k < i ==> {
                    let r = old_rules[k];
                    let n = #[trigger] rules@[k];
                    &&& n.id == r.id
                    &&& n.script == r.script
                    &&& n.stage == r.stage
                    &&& n.severity == r.severity
                    &&& n.enabled == enabled_after(r, only@, disable@)
                },
        decreases rules@.len() - i,
    {
        let on = if only.len() > 0 {
            contains_str(only, &rules[i].id)
        } else {
            rules[i].enabled
        };
        let off = contains_str(disable, &rules[i].id);
        rules[i].enabled = on && !off;
        i += 1;
    }
}

/// Law: applying the same overrides a second time changes nothing.
pub proof fn law_overrides_idempotent(r: RuleConfig, only: Seq<String>, disable: Seq<String>)
    ensures
        enabled_after(RuleConfig { enabled: enabled_after(r, only, disable), ..r }, only, disable) == enabled_after(
            r,
            only,
            disable,
        ),
{
}

/// Law: a rule named by `--disable` is off after the overrides, whatever `--only` says.
pub proof fn law_disable_wins(r: RuleConfig, only: Seq<String>, disable: Seq<String>)
    requires
        views(disable).contains(r.id@),
    ensures
        !enabled_after(r, only, disable),
{
}

/// Law: when `--only` is given, exactly the rules it names and `--disable` does not are on.
pub proof fn law_only_selects(r: RuleConfig, only: Seq<String>, disable: Seq<String>)
    requires
        only.len() > 0,
    ensures
        enabled_after(r, only, disable) == (views(only).contains(r.id@) && !views(disable).contains(r.id@)),
{
}

/// Law: without overrides every rule keeps its setting.
pub proof fn law_no_overrides_keep(r: RuleConfig)
    ensures
        enabled_after(r, Seq::empty(), Seq::empty()) == r.enabled,
{
    assert(views(Seq::<String>::empty()) =~= Seq::<Seq<char>>::empty());
}

} // verus!
