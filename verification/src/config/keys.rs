//! The keys a configuration file may hold, for warnings about the others.
use crate::strings::str_eq;
use vstd::prelude::*;

verus! {

/// The keys known in a section of the configuration.
pub open spec fn known_keys(parent: Seq<char>) -> Seq<Seq<char>> {
    if parent == "logging"@ {
        seq![
            "level"@,
            "stderr_snippet_bytes"@,
            "show_stage_events"@,
            "show_plugin_events"@,
            "show_parse_events"@,
            "format"@,
        ]
    } else if parent == "defaults"@ {
        seq!["timeout_ms_per_file"@]
    } else if parent == "plugin"@ {
        seq!["cmd"@, "args"@, "root"@, "search_paths"@]
    } else if parent == "stages"@ {
        seq!["enabled"@, "required"@]
    } else if parent == "svparser"@ {
        seq!["include_paths"@, "defines"@, "strip_comments"@, "ignore_include"@, "allow_incomplete"@]
    } else if parent == "transport"@ {
        seq!["max_request_bytes"@, "warn_margin_bytes"@, "max_response_bytes"@, "on_exceed"@, "fail_ci_on_skip"@]
    } else {
        Seq::empty()
    }
}

/// The keys known in a rule entry.
pub open spec fn known_rule_keys() -> Seq<Seq<char>> {
    seq!["id"@, "script"@, "stage"@, "enabled"@, "severity"@]
}

/// How a top-level key is treated.
#[derive(Clone, Copy, Debug, PartialEq, Eq, Structural)]
pub enum TopKey {
    /// A section whose nested keys are checked.
    Section,
    /// The rule list, whose entries' keys are checked.
    Rule,
    /// A key that is not known.
    Unknown,
}

/// How the top-level key `k` is treated.
pub open spec fn top_key_kind(k: Seq<char>) -> TopKey {
    if k == "logging"@ || k == "defaults"@ || k == "plugin"@ || k == "stages"@ || k == "svparser"@ || k
        == "transport"@ {
        TopKey::Section
    } else if k == "rule"@ {
        TopKey::Rule
    } else {
        TopKey::Unknown
    }
}

/// How the top-level key `k` is treated.
pub fn classify_top_key(k: &str) -> (r: TopKey)
    ensures
        r == top_key_kind(k@),
{
    proof {
        reveal_strlit("logging");
        reveal_strlit("defaults");
        reveal_strlit("plugin");
        reveal_strlit("stages");
        reveal_strlit("svparser");
        reveal_strlit("transport");
        reveal_strlit("rule");
    }
    if str_eq(k, "logging") || str_eq(k, "defaults") || str_eq(k, "plugin") || str_eq(k, "stages") || str_eq(
        k,
        "svparser",
    ) || str_eq(k, "transport") {
        TopKey::Section
    } else if str_eq(k, "rule") {
        TopKey::Rule
    } else {
        TopKey::Unknown
    }
}

fn in_list(list: &[&str], k: &str) -> (r: bool)
    ensures
        r == list@.map_values(|s: &str| s@).contains(k@),
{
    let ghost v = list@.map_values(|s: &str| s@);
    let mut i: usize = 0;
    while i < list.len()
        invariant
            i <= list@.len(),
            v == list@.map_values(|s: &str| s@),
            forall|j: int| 0 <= j < i ==> v[j] != k@,
        decreases list@.len() - i,
    {
        if str_eq(list[i], k) {
            assert(v[i as int] == k@);
            return true;
        }
        i += 1;
    }
    false
}

/// Whether `k` is a known key of section `parent`.
pub fn is_known_key(parent: &str, k: &str) -> (r: bool)
    ensures
        r == known_keys(parent@).contains(k@),
{
    proof {
        reveal_strlit("logging");
        reveal_strlit("defaults");
        reveal_strlit("plugin");
        reveal_strlit("stages");
        reveal_strlit("svparser");
        reveal_strlit("transport");
    }
    let list: Vec<&str> = if str_eq(parent, "logging") {
        vec![
            "level",
            "stderr_snippet_bytes",
            "show_stage_events",
            "show_plugin_events",
            "show_parse_events",
            "format",
        ]
    } else if str_eq(parent, "defaults") {
        vec!["timeout_ms_per_file"]
    } else if str_eq(parent, "plugin") {
        vec!["cmd", "args", "root", "search_paths"]
    } else if str_eq(parent, "stages") {
        vec!["enabled", "required"]
    } else if str_eq(parent, "svparser") {
        vec!["include_paths", "defines", "strip_comments", "ignore_include", "allow_incomplete"]
    } else if str_eq(parent, "transport") {
        vec!["max_request_bytes", "warn_margin_bytes", "max_response_bytes", "on_exceed", "fail_ci_on_skip"]
    } else {
        Vec::new()
    };
    assert(list@.map_values(|s: &str| s@) =~= known_keys(parent@));
    in_list(list.as_slice(), k)
}

/// Whether `k` is a known key of a rule entry.
pub fn is_known_rule_key(k: &str) -> (r: bool)
    ensures
        r == known_rule_keys().contains(k@),
{
    let list: Vec<&str> = vec!["id", "script", "stage", "enabled", "severity"];
    assert(list@.map_values(|s: &str| s@) =~= known_rule_keys());
    in_list(list.as_slice(), k)
}

/// The keys of section `parent` that are not known there, in order.
pub fn unknown_nested_keys(parent: &str, keys: &[String]) -> (r: Vec<String>)
    ensures
        r@.map_values(|s: String| s@) == keys@.map_values(|s: String| s@).filter(
            |k: Seq<char>| !known_keys(parent@).contains(k),
        ),
{
    let ghost ks = keys@.map_values(|s: String| s@);
    let mut out: Vec<String> = Vec::new();
    let mut i: usize = 0;
    while i < keys.len()
        invariant
            i <= keys@.len(),
            ks == keys@.map_values(|s: String| s@),
            out@.map_values(|s: String| s@) == ks.take(i as int).filter(|k: Seq<char>| !known_keys(parent@).contains(k)),
        decreases keys@.len() - i,
    {
        proof {
            assert(ks.take(i + 1).drop_last() =~= ks.take(i as int));
            reveal(Seq::filter);
        }
        if !is_known_key(parent, keys[i].as_str()) {
            out.push(keys[i].clone());
        }
        assert(out@.map_values(|s: String| s@) =~= ks.take(i + 1).filter(|k: Seq<char>| !known_keys(parent@).contains(k)));
        i += 1;
    }
    assert(ks.take(keys@.len() as int) =~= ks);
    out
}

} // verus!
