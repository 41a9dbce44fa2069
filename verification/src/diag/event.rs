//! The events a run reports.
use vstd::prelude::*;

verus! {

/// Something that happened during a run.
#[derive(Clone, Copy, Debug, PartialEq, Eq, Structural)]
pub enum Event {
    StageStart,
    StageDone,
    PluginInvoke,
    PluginDone,
    PluginTimeout,
    PluginExitNonzero,
    PluginError,
    PluginStderr,
    ParsePreprocessStart,
    ParsePreprocessDone,
    ParseParseStart,
    ParseParseDone,
    ParseAstCollectDone,
}

/// The name an event is logged by.
pub open spec fn event_name(e: Event) -> Seq<char> {
    match e {
        Event::StageStart => "stage_start"@,
        Event::StageDone => "stage_done"@,
        Event::PluginInvoke => "plugin_invoke"@,
        Event::PluginDone => "plugin_done"@,
        Event::PluginTimeout => "plugin_timeout"@,
        Event::PluginExitNonzero => "plugin_exit_nonzero"@,
        Event::PluginError => "plugin_error"@,
        Event::PluginStderr => "plugin_stderr"@,
        Event::ParsePreprocessStart => "parse_preprocess_start"@,
        Event::ParsePreprocessDone => "parse_preprocess_done"@,
        Event::ParseParseStart => "parse_parse_start"@,
        Event::ParseParseDone => "parse_parse_done"@,
        Event::ParseAstCollectDone => "parse_ast_collect_done"@,
    }
}

impl Event {
    /// The name the event is logged by.
    pub fn name(&self) -> (r: &'static str)
        ensures
            r@ == event_name(*self),
    {
        match self {
            Event::StageStart => "stage_start",
            Event::StageDone => "stage_done",
            Event::PluginInvoke => "plugin_invoke",
            Event::PluginDone => "plugin_done",
            Event::PluginTimeout => "plugin_timeout",
            Event::PluginExitNonzero => "plugin_exit_nonzero",
            Event::PluginError => "plugin_error",
            Event::PluginStderr => "plugin_stderr",
            Event::ParsePreprocessStart => "parse_preprocess_start",
            Event::ParsePreprocessDone => "parse_preprocess_done",
            Event::ParseParseStart => "parse_parse_start",
            Event::ParseParseDone => "parse_parse_done",
            Event::ParseAstCollectDone => "parse_ast_collect_done",
        }
    }
}

/// An event with the file it concerns and what else is known of it.
#[derive(Clone, Copy, Debug)]
pub struct Ev<'a> {
    pub event: Event,
    pub path: &'a str,
    pub stage: Option<&'a str>,
    pub duration_ms: Option<u128>,
    pub exit_code: Option<i32>,
    pub stderr_snippet: Option<&'a str>,
    pub message: Option<&'a str>,
}

impl<'a> Ev<'a> {
    /// An event about the file at `path`, with nothing else known.
    pub fn new(event: Event, path: &'a str) -> (r: Self)
        ensures
            r == (Ev { event, path, stage: None, duration_ms: None, exit_code: None, stderr_snippet: None, message: None }),
    {
        Ev { event, path, stage: None, duration_ms: None, exit_code: None, stderr_snippet: None, message: None }
    }

    /// The event, at `stage`.
    pub fn with_stage(self, stage: &'a str) -> (r: Self)
        ensures
            r == (Ev { stage: Some(stage), ..self }),
    {
        Ev { stage: Some(stage), ..self }
    }

    /// The event, having taken `ms` milliseconds.
    pub fn with_duration_ms(self, ms: u128) -> (r: Self)
        ensures
            r == (Ev { duration_ms: Some(ms), ..self }),
    {
        Ev { duration_ms: Some(ms), ..self }
    }

    /// The event, with the exit code of the plugin.
    pub fn with_exit_code(self, code: i32) -> (r: Self)
        ensures
            r == (Ev { exit_code: Some(code), ..self }),
    {
        Ev { exit_code: Some(code), ..self }
    }

    /// The event, with what the plugin wrote to stderr.
    pub fn with_stderr_snippet(self, snippet: &'a str) -> (r: Self)
        ensures
            r == (Ev { stderr_snippet: Some(snippet), ..self }),
    {
        Ev { stderr_snippet: Some(snippet), ..self }
    }

    /// The event, with a message.
    pub fn with_message(self, message: &'a str) -> (r: Self)
        ensures
            r == (Ev { message: Some(message), ..self }),
    {
        Ev { message: Some(message), ..self }
    }
}

} // verus!
