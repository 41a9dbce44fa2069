//! The plugin host's messages and the decisions made around them: what a response means,
//! which violations are kept and at what severity, and what is logged of stderr.
use crate::config::types::RuleConfig;
use crate::config::validate::severity_of;
use crate::errors::PluginError;
use crate::strings::{chars_of, concat, debug_str, debug_text, is_whitespace, is_ws, push_char, to_string};
use crate::types::{Location, Severity, Violation};
use vstd::prelude::*;

verus! {

/// The rules of a stage sent with a run request.
pub struct RuleDispatch<'a> {
    pub enabled: &'a [String],
    pub disabled: &'a [String],
}

/// What a stage run returned: the violations kept and the size of the response.
#[derive(Debug)]
pub struct StageRunResult {
    pub violations: Vec<Violation>,
    pub response_bytes: usize,
}

/// A response of the plugin host.
#[derive(Debug)]
pub enum HostResponse {
    Ready,
    Violations { violations: Vec<Violation> },
    Error { detail: Option<String>, script: Option<String> },
}

/// The result of the host's answer to the start-up request: ready, or a protocol error.
pub fn interpret_init_response(resp: HostResponse) -> (r: Result<(), PluginError>)
    ensures
        match resp {
            HostResponse::Ready => r is Ok,
            HostResponse::Error { detail, .. } => r matches Err(PluginError::ProtocolError { detail: d }) && d@
                == match detail {
                Some(x) => x@,
                None => "init failed"@,
            },
            HostResponse::Violations { .. } => r matches Err(PluginError::ProtocolError { detail: d }) && d@
                == "unexpected violations response during init"@,
        },
{
    proof {
        reveal_strlit("init failed");
        reveal_strlit("unexpected violations response during init");
    }
    match resp {
        HostResponse::Ready => Ok(()),
        HostResponse::Error { detail, .. } => Err(
            PluginError::ProtocolError {
                detail: match detail {
                    Some(x) => x,
                    None => to_string("init failed"),
                },
            },
        ),
        HostResponse::Violations { .. } => Err(
            PluginError::ProtocolError { detail: to_string("unexpected violations response during init") },
        ),
    }
}

/// The detail of an error response: the host's detail (or `"plugin error"`), followed by the
/// script that failed when the host names it.
pub open spec fn error_detail(detail: Option<Seq<char>>, script: Option<Seq<char>>) -> Seq<char> {
    let d = match detail {
        Some(x) => x,
        None => "plugin error"@,
    };
    match script {
        Some(s) => d + " (script "@ + s + ")"@,
        None => d,
    }
}

/// The optional string as plain values.
pub open spec fn opt_chars(o: Option<String>) -> Option<Seq<char>> {
    match o {
        Some(s) => Some(s@),
        None => None,
    }
}

/// The result of the host's answer to a stage run: its violations, or a protocol error.
pub fn interpret_stage_response(resp: HostResponse) -> (r: Result<Vec<Violation>, PluginError>)
    ensures
        match resp {
            HostResponse::Violations { violations } => r == Ok::<Vec<Violation>, PluginError>(violations),
            HostResponse::Error { detail, script } => r matches Err(PluginError::ProtocolError { detail: d }) && d@
                == error_detail(opt_chars(detail), opt_chars(script)),
            HostResponse::Ready => r matches Err(PluginError::ProtocolError { detail: d }) && d@
                == "unexpected ready response"@,
        },
{
    proof {
        reveal_strlit("plugin error");
        reveal_strlit(" (script ");
        reveal_strlit(")");
        reveal_strlit("unexpected ready response");
    }
    match resp {
        HostResponse::Violations { violations } => Ok(violations),
        HostResponse::Error { detail, script } => {
            let mut d = match detail {
                Some(x) => x,
                None => to_string("plugin error"),
            };
            if let Some(s) = script {
                d.append(" (script ");
                d.append(s.as_str());
                d.append(")");
            }
            Err(PluginError::ProtocolError { detail: d })
        },
        HostResponse::Ready => Err(PluginError::ProtocolError { detail: to_string("unexpected ready response") }),
    }
}

/// The severity named `"error"`, `"warning"` or `"info"`.
pub fn parse_severity(s: &str) -> (r: Option<Severity>)
    ensures
        r == severity_of(s@),
{
    crate::config::validate::severity_from_str(s)
}

/// The value of the last entry for `id`, if any (as a map built by inserting the entries in order).
pub open spec fn last_value<T>(entries: Seq<(Seq<char>, T)>, id: Seq<char>) -> Option<T>
    decreases entries.len(),
{
    if entries.len() == 0 {
        None
    } else if entries.last().0 == id {
        Some(entries.last().1)
    } else {
        last_value(entries.drop_last(), id)
    }
}

/// Entries of a table keyed by rule id, as plain values.
pub open spec fn entries_of<T>(v: Seq<(String, T)>) -> Seq<(Seq<char>, T)> {
    v.map_values(|e: (String, T)| (e.0@, e.1))
}

/// The severity overrides of the rules: one entry per rule whose override names a severity.
pub open spec fn severity_entries(rules: Seq<RuleConfig>) -> Seq<(Seq<char>, Severity)>
    decreases rules.len(),
{
    if rules.len() == 0 {
        Seq::empty()
    } else {
        let p = severity_entries(rules.drop_last());
        let r = rules.last();
        match r.severity {
            Some(name) => match severity_of(name@) {
                Some(s) => p.push((r.id@, s)),
                None => p,
            },
            None => p,
        }
    }
}

/// Severity overrides by rule id; a later rule's override wins.
pub struct SeverityOverrides {
    pub entries: Vec<(String, Severity)>,
}

/// Whether each rule is enabled, by rule id; a later rule wins.
pub struct RuleEnabled {
    pub entries: Vec<(String, bool)>,
}

/// The severity overrides of the rules.
pub fn build_severity_override(rules: &[RuleConfig]) -> (r: SeverityOverrides)
    ensures
        entries_of(r.entries@) == severity_entries(rules@),
{
    let mut entries: Vec<(String, Severity)> = Vec::new();
    let mut i: usize = 0;
    while i < rules.len()
        invariant
            i <= rules@.len(),
            entries_of(entries@) == severity_entries(rules@.take(i as int)),
        decreases rules@.len() - i,
    {
        assert(rules@.take(i + 1).drop_last() =~= rules@.take(i as int));
        let rule = &rules[i];
        if let Some(name) = &rule.severity {
            if let Some(sev) = parse_severity(name.as_str()) {
                entries.push((rule.id.clone(), sev));
                assert(entries_of(entries@) =~= entries_of(entries@.drop_last()).push((rule.id@, sev)));
            }
        }
        i += 1;
    }
    assert(rules@.take(rules@.len() as int) =~= rules@);
    SeverityOverrides { entries }
}

/// Whether each rule is enabled.
pub fn build_rule_enabled(rules: &[RuleConfig]) -> (r: RuleEnabled)
    ensures
        entries_of(r.entries@) == rules@.map_values(|x: RuleConfig| (x.id@, x.enabled)),
{
    let mut entries: Vec<(String, bool)> = Vec::new();
    let mut i: usize = 0;
    while i < rules.len()
        invariant
            i <= rules@.len(),
            entries_of(entries@) == rules@.take(i as int).map_values(|x: RuleConfig| (x.id@, x.enabled)),
        decreases rules@.len() - i,
    {
        let ghost before = entries@;
        entries.push((rules[i].id.clone(), rules[i].enabled));
        assert(rules@.take(i + 1) =~= rules@.take(i as int).push(rules@[i as int]));
        assert(entries_of(entries@) =~= entries_of(before).push((rules@[i as int].id@, rules@[i as int].enabled)));
        assert(entries_of(entries@) =~= rules@.take(i + 1).map_values(|x: RuleConfig| (x.id@, x.enabled)));
        i += 1;
    }
    assert(rules@.take(rules@.len() as int) =~= rules@);
    RuleEnabled { entries }
}

fn lookup_severity(t: &SeverityOverrides, id: &String) -> (r: Option<Severity>)
    ensures
        r == last_value(entries_of(t.entries@), id@),
{
    let ghost es = entries_of(t.entries@);
    let mut i = t.entries.len();
    assert(es.take(es.len() as int) =~= es);
    while i > 0
        invariant
            i <= t.entries@.len(),
            es == entries_of(t.entries@),
            last_value(es, id@) == last_value(es.take(i as int), id@),
        decreases i,
    {
        assert(es.take(i as int).drop_last() =~= es.take(i - 1));
        if t.entries[i - 1].0 == *id {
            return Some(t.entries[i - 1].1);
        }
        i -= 1;
    }
    None
}

fn lookup_enabled(t: &RuleEnabled, id: &String) -> (r: Option<bool>)
    ensures
        r == last_value(entries_of(t.entries@), id@),
{
    let ghost es = entries_of(t.entries@);
    let mut i = t.entries.len();
    assert(es.take(es.len() as int) =~= es);
    while i > 0
        invariant
            i <= t.entries@.len(),
            es == entries_of(t.entries@),
            last_value(es, id@) == last_value(es.take(i as int), id@),
        decreases i,
    {
        assert(es.take(i as int).drop_last() =~= es.take(i - 1));
        if t.entries[i - 1].0 == *id {
            return Some(t.entries[i - 1].1);
        }
        i -= 1;
    }
    None
}

/// The violations kept after the overrides: those of rules not known to be disabled, each with
/// its rule's severity override if it has one.
pub open spec fn overridden(
    en: Seq<(Seq<char>, bool)>,
    sev: Seq<(Seq<char>, Severity)>,
    vs: Seq<Violation>,
) -> Seq<Violation>
    decreases vs.len(),
{
    if vs.len() == 0 {
        Seq::empty()
    } else {
        let p = overridden(en, sev, vs.drop_last());
        let v = vs.last();
        if last_value(en, v.rule_id@) == Some(false) {
            p
        } else {
            p.push(
                Violation {
                    severity: match last_value(sev, v.rule_id@) {
                        Some(s) => s,
                        None => v.severity,
                    },
                    ..v
                },
            )
        }
    }
}

impl Violation {
    /// A copy holding the same values.
    pub fn copy(&self) -> (r: Self)
        ensures
            r == *self,
    {
        Violation {
            rule_id: self.rule_id.clone(),
            severity: self.severity,
            message: self.message.clone(),
            location: self.location.copy(),
        }
    }
}

/// Drops the violations of rules that are disabled and applies severity overrides.
pub fn apply_overrides(enabled: &RuleEnabled, severity: &SeverityOverrides, violations: Vec<Violation>) -> (r: Vec<
    Violation,
>)
    ensures
        r@ == overridden(entries_of(enabled.entries@), entries_of(severity.entries@), violations@),
{
    let ghost en = entries_of(enabled.entries@);
    let ghost sv = entries_of(severity.entries@);
    let mut out: Vec<Violation> = Vec::new();
    let mut i: usize = 0;
    while i < violations.len()
        invariant
            i <= violations@.len(),
            en == entries_of(enabled.entries@),
            sv == entries_of(severity.entries@),
            out@ == overridden(en, sv, violations@.take(i as int)),
        decreases violations@.len() - i,
    {
        assert(violations@.take(i + 1).drop_last() =~= violations@.take(i as int));
        let v = &violations[i];
        let on = lookup_enabled(enabled, &v.rule_id);
        if on != Some(false) {
            let mut w = v.copy();
            if let Some(s) = lookup_severity(severity, &v.rule_id) {
                w.severity = s;
            }
            out.push(w);
        }
        i += 1;
    }
    assert(violations@.take(violations@.len() as int) =~= violations@);
    out
}

/// How a part of the command line is shown: quoted and escaped when it holds white space.
pub open spec fn shown_part(p: Seq<char>) -> Seq<char> {
    if exists|i: int| 0 <= i < p.len() && is_ws(#[trigger] p[i]) {
        debug_text(p)
    } else {
        p
    }
}

/// The parts shown, separated by single spaces.
pub open spec fn shown_command(parts: Seq<Seq<char>>) -> Seq<char>
    decreases parts.len(),
{
    if parts.len() == 0 {
        Seq::empty()
    } else if parts.len() == 1 {
        shown_part(parts[0])
    } else {
        shown_command(parts.drop_last()) + " "@ + shown_part(parts.last())
    }
}

fn has_whitespace(s: &str) -> (r: bool)
    ensures
        r == exists|i: int| 0 <= i < s@.len() && is_ws(#[trigger] s@[i]),
{
    let v = chars_of(s);
    let mut i: usize = 0;
    while i < v.len()
        invariant
            i <= v@.len(),
            v@ == s@,
            forall|k: int| 0 <= k < i ==> !is_ws(#[trigger] s@[k]),
        decreases v@.len() - i,
    {
        if is_whitespace(v[i]) {
            assert(is_ws(s@[i as int]));
            return true;
        }
        i += 1;
    }
    false
}

/// The command line that starts the host, as shown in messages: the command, its arguments
/// and the host script, each quoted when it holds white space, separated by spaces.
pub fn format_plugin_command(cmd: &str, args: &[String], host_path: &str) -> (r: String)
    ensures
        r@ == shown_command(seq![cmd@] + args@.map_values(|a: String| a@) + seq![host_path@]),
{
    let mut parts: Vec<String> = Vec::new();
    parts.push(to_string(cmd));
    let mut j: usize = 0;
    while j < args.len()
        invariant
            j <= args@.len(),
            parts@.map_values(|a: String| a@) == seq![cmd@] + args@.take(j as int).map_values(|a: String| a@),
        decreases args@.len() - j,
    {
        let ghost before = parts@;
        parts.push(args[j].clone());
        assert(args@.take(j + 1) =~= args@.take(j as int).push(args@[j as int]));
        assert(parts@.map_values(|a: String| a@) =~= before.map_values(|a: String| a@).push(args@[j as int]@));
        assert(parts@.map_values(|a: String| a@) =~= seq![cmd@] + args@.take(j + 1).map_values(|a: String| a@));
        j += 1;
    }
    parts.push(to_string(host_path));
    assert(args@.take(args@.len() as int) =~= args@);
    let ghost ps = seq![cmd@] + args@.map_values(|a: String| a@) + seq![host_path@];
    assert(parts@.map_values(|a: String| a@) =~= ps);
    let mut out = String::new();
    let mut i: usize = 0;
    while i < parts.len()
        invariant
            i <= parts@.len(),
            ps == parts@.map_values(|a: String| a@),
            out@ == shown_command(ps.take(i as int)),
        decreases parts@.len() - i,
    {
        assert(ps.take(i + 1).drop_last() =~= ps.take(i as int));
        proof {
            reveal_strlit(" ");
        }
        if i > 0 {
            push_char(&mut out, ' ');
        }
        let part = parts[i].as_str();
        if has_whitespace(part) {
            out.append(debug_str(part).as_str());
        } else {
            out.append(part);
        }
        i += 1;
    }
    assert(ps.take(parts@.len() as int) =~= ps);
    out
}

/// The part of the host's stderr to log: nothing when logging is off (`limit` 0) or nothing was
/// written since position `pos`; else the last `limit` bytes of the `len` written.
pub open spec fn snippet_range_spec(len: usize, pos: usize, limit: usize) -> Option<(usize, usize)> {
    if limit == 0 || len <= pos {
        None
    } else if len > limit {
        Some(((len - limit) as usize, len))
    } else {
        Some((0, len))
    }
}

/// The byte range of the host's stderr to log, if any (see `snippet_range_spec`).
pub fn stderr_snippet_range(len: usize, pos: usize, limit: usize) -> (r: Option<(usize, usize)>)
    ensures
        r == snippet_range_spec(len, pos, limit),
{
    if limit == 0 || len <= pos {
        return None;
    }
    if len > limit {
        Some((len - limit, len))
    } else {
        Some((0, len))
    }
}

/// `s` without the `'\n'` and `'\r'` characters at its end.
pub open spec fn trim_newlines(s: Seq<char>) -> Seq<char>
    decreases s.len(),
{
    if s.len() > 0 && (s.last() == '\n' || s.last() == '\r') {
        trim_newlines(s.drop_last())
    } else {
        s
    }
}

/// A line read from the host without its line ending.
pub fn trim_line_end(line: &str) -> (r: String)
    ensures
        r@ == trim_newlines(line@),
{
    let v = chars_of(line);
    let mut n = v.len();
    assert(line@.take(line@.len() as int) =~= line@);
    while n > 0 && (v[n - 1] == '\n' || v[n - 1] == '\r')
        invariant
            n <= v@.len(),
            v@ == line@,
            trim_newlines(line@) == trim_newlines(line@.take(n as int)),
        decreases n,
    {
        assert(line@.take(n as int).drop_last() =~= line@.take(n - 1));
        n -= 1;
    }
    crate::strings::string_of_range(v.as_slice(), 0, n)
}

} // verus!
