//! The configuration values and their defaults.
use crate::sv::model::SvParserCfg;
use crate::types::Stage;
use vstd::prelude::*;

verus! {

/// Logging options.
#[derive(Clone, Debug)]
pub struct LoggingConfig {
    pub level: String,
    pub stderr_snippet_bytes: usize,
    pub show_stage_events: bool,
    pub show_plugin_events: bool,
    pub show_parse_events: bool,
    pub format: LogFormat,
    /// Keys of the logging table that no option above reads.
    pub extra: Vec<String>,
}

/// How log records are written.
#[derive(Clone, Copy, Debug, PartialEq, Eq, Structural)]
pub enum LogFormat {
    Text,
    Json,
}

/// What happens to a stage whose request is larger than allowed.
#[derive(Clone, Copy, Debug, PartialEq, Eq, Structural)]
pub enum TransportOnExceed {
    Skip,
    Error,
}

/// Limits on the data exchanged with the plugin host.
#[derive(Clone, Debug)]
pub struct TransportConfig {
    pub max_request_bytes: usize,
    pub warn_margin_bytes: usize,
    pub max_response_bytes: usize,
    pub on_exceed: TransportOnExceed,
    pub fail_ci_on_skip: bool,
}

/// The whole configuration.
pub struct Config {
    pub logging: LoggingConfig,
    pub defaults: Defaults,
    pub plugin: Plugin,
    pub stages: Stages,
    pub svparser: SvParserCfg,
    pub rule: Vec<RuleConfig>,
    pub transport: TransportConfig,
}

/// Per-file defaults.
#[derive(Clone, Debug)]
pub struct Defaults {
    pub timeout_ms_per_file: u64,
}

/// How the plugin host is started and where rule scripts are looked up.
#[derive(Clone, Debug)]
pub struct Plugin {
    pub cmd: String,
    pub args: Vec<String>,
    pub root: Option<String>,
    pub search_paths: Vec<String>,
    pub normalized_root: Option<String>,
    pub normalized_search_paths: Vec<String>,
    pub config_dir: Option<String>,
}

/// Which stages run, and which of them must not be skipped.
#[derive(Clone, Debug)]
pub struct Stages {
    pub enabled: Vec<Stage>,
    pub required: Vec<Stage>,
}

/// One rule: its id, its script, the stage it runs at, whether it is on, and a severity override.
#[derive(Clone, Debug)]
pub struct RuleConfig {
    pub id: String,
    pub script: String,
    pub stage: Option<Stage>,
    pub enabled: bool,
    pub severity: Option<String>,
}

/// An input file as read, and with its byte order mark removed and line endings normalised.
#[derive(Clone, Debug)]
pub struct InputText {
    pub raw: String,
    pub normalized: String,
}

/// The default per-file timeout in milliseconds.
pub open spec fn default_timeout_ms_spec() -> u64 {
    6000
}

/// The default request and response size limit in bytes.
pub open spec fn default_max_request_bytes_spec() -> usize {
    16_777_216
}

/// The default margin below the request limit at which a warning is logged.
pub open spec fn default_warn_margin_bytes_spec() -> usize {
    1_048_576
}

/// The default number of stderr bytes shown in log events.
pub open spec fn default_stderr_snippet_bytes_spec() -> usize {
    2048
}

fn default_true() -> (r: bool)
    ensures
        r,
{
    true
}

fn default_false() -> (r: bool)
    ensures
        !r,
{
    false
}

fn default_timeout_ms() -> (r: u64)
    ensures
        r == default_timeout_ms_spec(),
{
    6000
}

fn default_max_request_bytes() -> (r: usize)
    ensures
        r == default_max_request_bytes_spec(),
{
    16_777_216
}

fn default_warn_margin_bytes() -> (r: usize)
    ensures
        r == default_warn_margin_bytes_spec(),
{
    1_048_576
}

fn default_log_level() -> (r: String)
    ensures
        r@ == "info"@,
{
    "info".to_owned()
}

fn default_stderr_snippet_bytes() -> (r: usize)
    ensures
        r == default_stderr_snippet_bytes_spec(),
{
    2048
}

fn default_plugin_cmd() -> (r: String)
    ensures
        r@ == "python3"@,
{
    "python3".to_owned()
}

fn default_plugin_args() -> (r: Vec<String>)
    ensures
        r@.len() == 2,
        r@[0]@ == "-u"@,
        r@[1]@ == "-B"@,
{
    let mut v = Vec::new();
    v.push("-u".to_owned());
    v.push("-B".to_owned());
    v
}

fn default_enabled_stages() -> (r: Vec<Stage>)
    ensures
        r@ == seq![Stage::RawText, Stage::PpText, Stage::Cst, Stage::Ast],
{
    let mut v = Vec::new();
    v.push(Stage::RawText);
    v.push(Stage::PpText);
    v.push(Stage::Cst);
    v.push(Stage::Ast);
    v
}

fn default_required_stages() -> (r: Vec<Stage>)
    ensures
        r@ == seq![Stage::RawText, Stage::PpText],
{
    let mut v = Vec::new();
    v.push(Stage::RawText);
    v.push(Stage::PpText);
    v
}

impl Default for LoggingConfig {
    /// Level `info`, 2048 stderr bytes, no events shown, text format.
    fn default() -> (r: Self)
        ensures
            r.level@ == "info"@,
            r.stderr_snippet_bytes == default_stderr_snippet_bytes_spec(),
            !r.show_stage_events,
            !r.show_plugin_events,
            !r.show_parse_events,
            r.format == LogFormat::Text,
            r.extra@.len() == 0,
    {
        Self {
            level: default_log_level(),
            stderr_snippet_bytes: default_stderr_snippet_bytes(),
            show_stage_events: default_false(),
            show_plugin_events: default_false(),
            show_parse_events: default_false(),
            format: LogFormat::Text,
            extra: Vec::new(),
        }
    }
}

impl Default for LogFormat {
    /// Plain text.
    fn default() -> (r: Self)
        ensures
            r == LogFormat::Text,
    {
        LogFormat::Text
    }
}

impl Default for TransportOnExceed {
    /// Skip the stage.
    fn default() -> (r: Self)
        ensures
            r == TransportOnExceed::Skip,
    {
        TransportOnExceed::Skip
    }
}

impl Default for TransportConfig {
    /// 16 MiB limits, a 1 MiB warning margin, oversized stages skipped.
    fn default() -> (r: Self)
        ensures
            r.max_request_bytes == default_max_request_bytes_spec(),
            r.warn_margin_bytes == default_warn_margin_bytes_spec(),
            r.max_response_bytes == default_max_request_bytes_spec(),
            r.on_exceed == TransportOnExceed::Skip,
            !r.fail_ci_on_skip,
    {
        Self {
            max_request_bytes: default_max_request_bytes(),
            warn_margin_bytes: default_warn_margin_bytes(),
            max_response_bytes: default_max_request_bytes(),
            on_exceed: TransportOnExceed::Skip,
            fail_ci_on_skip: false,
        }
    }
}

impl Default for Defaults {
    /// A 6000 ms timeout per file.
    fn default() -> (r: Self)
        ensures
            r.timeout_ms_per_file == default_timeout_ms_spec(),
    {
        Self { timeout_ms_per_file: default_timeout_ms() }
    }
}

impl Default for Plugin {
    /// `python3 -u -B`, no roots or search paths.
    fn default() -> (r: Self)
        ensures
            r.cmd@ == "python3"@,
            r.args@.len() == 2,
            r.args@[0]@ == "-u"@,
            r.args@[1]@ == "-B"@,
            r.root is None,
            r.search_paths@.len() == 0,
            r.normalized_root is None,
            r.normalized_search_paths@.len() == 0,
            r.config_dir is None,
    {
        Self {
            cmd: default_plugin_cmd(),
            args: default_plugin_args(),
            root: None,
            search_paths: Vec::new(),
            normalized_root: None,
            normalized_search_paths: Vec::new(),
            config_dir: None,
        }
    }
}

impl Default for Stages {
    /// All four stages enabled; the raw and preprocessed text stages required.
    fn default() -> (r: Self)
        ensures
            r.enabled@ == seq![Stage::RawText, Stage::PpText, Stage::Cst, Stage::Ast],
            r.required@ == seq![Stage::RawText, Stage::PpText],
    {
        Self { enabled: default_enabled_stages(), required: default_required_stages() }
    }
}

impl RuleConfig {
    /// A rule with the given id and script, enabled, with no stage or severity set.
    pub fn new(id: String, script: String) -> (r: Self)
        ensures
            r.id == id,
            r.script == script,
            r.stage is None,
            r.enabled == default_true_spec(),
            r.severity is None,
    {
        RuleConfig { id, script, stage: None, enabled: default_true(), severity: None }
    }

    /// The stage of the rule, which loading the configuration has set.
    pub fn stage(&self) -> (r: Stage)
        requires
            self.stage is Some,
        ensures
            r == self.stage->0,
    {
        match self.stage {
            Some(s) => s,
            None => Stage::RawText,
        }
    }
}

/// Rules are enabled unless the configuration says otherwise.
pub open spec fn default_true_spec() -> bool {
    true
}

} // verus!
