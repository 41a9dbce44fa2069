//! Which events are logged, and the fields a logged event carries.
use super::event::{event_name, Ev, Event};
use crate::strings::{chars_of, push_char, str_eq};
use vstd::prelude::*;

verus! {

/// Which groups of events are shown.
#[derive(Clone, Copy, Debug)]
pub struct Toggles {
    pub stage: bool,
    pub plugin: bool,
    pub parse: bool,
}

/// Whether event `e` is shown: by the toggle of its group once toggles are set, else always.
pub open spec fn shown(t: Option<Toggles>, e: Event) -> bool {
    match t {
        None => true,
        Some(t) => match e {
            Event::StageStart | Event::StageDone => t.stage,
            Event::PluginInvoke | Event::PluginDone | Event::PluginTimeout | Event::PluginExitNonzero
            | Event::PluginError | Event::PluginStderr => t.plugin,
            _ => t.parse,
        },
    }
}

/// Whether event `ev` is shown.
pub fn should_emit(toggles: Option<Toggles>, ev: Event) -> (r: bool)
    ensures
        r == shown(toggles, ev),
{
    match toggles {
        None => true,
        Some(t) => match ev {
            Event::StageStart | Event::StageDone => t.stage,
            Event::PluginInvoke | Event::PluginDone | Event::PluginTimeout | Event::PluginExitNonzero
            | Event::PluginError | Event::PluginStderr => t.plugin,
            Event::ParsePreprocessStart | Event::ParsePreprocessDone | Event::ParseParseStart
            | Event::ParseParseDone | Event::ParseAstCollectDone => t.parse,
        },
    }
}

/// `c`, or a space for a line break.
pub open spec fn flat_char(c: char) -> char {
    if c == '\n' || c == '\r' {
        ' '
    } else {
        c
    }
}

/// `x` on one line: line breaks replaced by spaces.
pub open spec fn sanitized(x: Seq<char>) -> Seq<char> {
    x.map_values(|c: char| flat_char(c))
}

/// `x` with each `'\n'` and `'\r'` replaced by a space.
pub fn sanitize(x: &str) -> (r: String)
    ensures
        r@ == sanitized(x@),
{
    let v = chars_of(x);
    let mut out = String::new();
    let mut i: usize = 0;
    while i < v.len()
        invariant
            i <= v@.len(),
            v@ == x@,
            out@ == sanitized(x@.take(i as int)),
        decreases v@.len() - i,
    {
        let c = v[i];
        if c == '\n' || c == '\r' {
            push_char(&mut out, ' ');
        } else {
            push_char(&mut out, c);
        }
        assert(sanitized(x@.take(i + 1)) =~= sanitized(x@.take(i as int)).push(flat_char(c)));
        i += 1;
    }
    assert(x@.take(x@.len() as int) =~= x@);
    out
}

/// The level used when the configured one is not a filter: the level itself if it is one of
/// `error`, `warn`, `info`, `debug`, `trace`, else `info`.
pub open spec fn default_level_spec(level: Seq<char>) -> Seq<char> {
    if level == "error"@ || level == "warn"@ || level == "info"@ || level == "debug"@ || level == "trace"@ {
        level
    } else {
        "info"@
    }
}

/// The level used when the configured one is not a filter.
pub fn default_level(level: &str) -> (r: &str)
    ensures
        r@ == default_level_spec(level@),
{
    proof {
        reveal_strlit("error");
        reveal_strlit("warn");
        reveal_strlit("info");
        reveal_strlit("debug");
        reveal_strlit("trace");
    }
    if str_eq(level, "error") || str_eq(level, "warn") || str_eq(level, "info") || str_eq(level, "debug") || str_eq(
        level,
        "trace",
    ) {
        level
    } else {
        "info"
    }
}

/// The fields of a logged event: its name, file and stage (empty when unknown), duration and
/// exit code, and its stderr snippet and message on one line (empty when absent).
pub struct EventFields {
    pub event: &'static str,
    pub path: String,
    pub stage: String,
    pub duration_ms: Option<u128>,
    pub exit_code: Option<i32>,
    pub stderr: String,
    pub message: String,
}

/// The text of an optional field on one line, empty when absent.
pub open spec fn flat_or_empty(x: Option<&str>) -> Seq<char> {
    match x {
        Some(s) => sanitized(s@),
        None => Seq::empty(),
    }
}

/// The fields to log for event `e`, or nothing when it is not shown.
pub fn log_event(toggles: Option<Toggles>, e: Ev) -> (r: Option<EventFields>)
    ensures
        !shown(toggles, e.event) ==> r is None,
        shown(toggles, e.event) ==> (r matches Some(f) && f.event@ == event_name(e.event) && f.path@ == e.path@
            && f.stage@ == (match e.stage {
            Some(s) => s@,
            None => Seq::<char>::empty(),
        }) && f.duration_ms == e.duration_ms && f.exit_code == e.exit_code && f.stderr@ == flat_or_empty(
            e.stderr_snippet,
        ) && f.message@ == flat_or_empty(e.message)),
{
    if !should_emit(toggles, e.event) {
        return None;
    }
    let stderr = match e.stderr_snippet {
        Some(s) => sanitize(s),
        None => String::new(),
    };
    let message = match e.message {
        Some(s) => sanitize(s),
        None => String::new(),
    };
    Some(
        EventFields {
            event: e.event.name(),
            path: crate::strings::to_string(e.path),
            stage: match e.stage {
                Some(s) => crate::strings::to_string(s),
                None => String::new(),
            },
            duration_ms: e.duration_ms,
            exit_code: e.exit_code,
            stderr,
            message,
        },
    )
}

} // verus!
