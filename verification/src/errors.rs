//! Error values of configuration loading, output, parsing and plugin calls.
use crate::strings::{concat, decimal, decimal_string, signed_decimal, signed_decimal_string};
use vstd::prelude::*;

verus! {

/// Errors found while locating, reading or checking the configuration.
#[derive(Debug, Clone, PartialEq, Eq)]
pub enum ConfigError {
    NotFound { path: String },
    /// The configuration file named by `--config` is not there.
    GivenNotFound { path: String },
    InvalidToml { detail: String },
    InvalidUtf8 { path: String },
    InvalidValue { detail: String },
}

/// Errors found while reading a file for output.
#[derive(Debug, Clone, PartialEq, Eq)]
pub enum OutputError {
    ReadFailed { path: String },
    InvalidUtf8 { path: String },
}

/// Errors of preprocessing and parsing a source file.
#[derive(Debug, Clone, PartialEq, Eq)]
pub enum ParseError {
    PreprocessFailed { detail: String },
    ParseFailed { detail: String },
}

/// Errors of running a rule plugin.
#[derive(Debug, Clone, PartialEq, Eq)]
pub enum PluginError {
    SpawnFailed { detail: String },
    IoFailed { detail: String },
    Timeout { timeout_ms: u64 },
    BadUtf8 { detail: String },
    BadJson { detail: String },
    ProtocolError { detail: String },
    ExitCode { code: i32 },
    StdoutTooLarge,
    StderrTooLarge,
}

/// The text shown for a configuration error.
pub open spec fn config_error_text(e: ConfigError) -> Seq<char> {
    match e {
        ConfigError::NotFound { path } => "config not found: "@ + path@,
        ConfigError::GivenNotFound { path } => "config not found (from --config): "@ + path@,
        ConfigError::InvalidToml { detail } => "invalid toml: "@ + detail@,
        ConfigError::InvalidUtf8 { path } => "invalid utf-8 in config: "@ + path@,
        ConfigError::InvalidValue { detail } => "invalid value: "@ + detail@,
    }
}

/// The text shown for an output error.
pub open spec fn output_error_text(e: OutputError) -> Seq<char> {
    match e {
        OutputError::ReadFailed { path } => "read failed: "@ + path@,
        OutputError::InvalidUtf8 { path } => "invalid utf-8 at: "@ + path@,
    }
}

/// The text shown for a parse error.
pub open spec fn parse_error_text(e: ParseError) -> Seq<char> {
    match e {
        ParseError::PreprocessFailed { detail } => "preprocess failed: "@ + detail@,
        ParseError::ParseFailed { detail } => "parse failed: "@ + detail@,
    }
}

/// The text shown for a plugin error.
pub open spec fn plugin_error_text(e: PluginError) -> Seq<char> {
    match e {
        PluginError::SpawnFailed { detail } => "plugin spawn failed: "@ + detail@,
        PluginError::IoFailed { detail } => "plugin io failed: "@ + detail@,
        PluginError::Timeout { timeout_ms } => "plugin timeout after "@ + decimal(timeout_ms as nat) + " ms"@,
        PluginError::BadUtf8 { detail } => "plugin bad utf-8: "@ + detail@,
        PluginError::BadJson { detail } => "plugin bad json: "@ + detail@,
        PluginError::ProtocolError { detail } => "plugin protocol error: "@ + detail@,
        PluginError::ExitCode { code } => "plugin exit nonzero: code="@ + signed_decimal(code as int),
        PluginError::StdoutTooLarge => "plugin stdout too large"@,
        PluginError::StderrTooLarge => "plugin stderr too large"@,
    }
}

impl ConfigError {
    /// The text shown to the user for this error.
    pub fn message(&self) -> (r: String)
        ensures
            r@ == config_error_text(*self),
    {
        match self {
            ConfigError::NotFound { path } => concat("config not found: ", path.as_str()),
            ConfigError::GivenNotFound { path } => concat("config not found (from --config): ", path.as_str()),
            ConfigError::InvalidToml { detail } => concat("invalid toml: ", detail.as_str()),
            ConfigError::InvalidUtf8 { path } => concat("invalid utf-8 in config: ", path.as_str()),
            ConfigError::InvalidValue { detail } => concat("invalid value: ", detail.as_str()),
        }
    }
}

impl OutputError {
    /// The text shown to the user for this error.
    pub fn message(&self) -> (r: String)
        ensures
            r@ == output_error_text(*self),
    {
        match self {
            OutputError::ReadFailed { path } => concat("read failed: ", path.as_str()),
            OutputError::InvalidUtf8 { path } => concat("invalid utf-8 at: ", path.as_str()),
        }
    }
}

impl ParseError {
    /// The text shown to the user for this error.
    pub fn message(&self) -> (r: String)
        ensures
            r@ == parse_error_text(*self),
    {
        match self {
            ParseError::PreprocessFailed { detail } => concat("preprocess failed: ", detail.as_str()),
            ParseError::ParseFailed { detail } => concat("parse failed: ", detail.as_str()),
        }
    }
}

impl PluginError {
    /// The text shown to the user for this error.
    pub fn message(&self) -> (r: String)
        ensures
            r@ == plugin_error_text(*self),
    {
        match self {
            PluginError::SpawnFailed { detail } => concat("plugin spawn failed: ", detail.as_str()),
            PluginError::IoFailed { detail } => concat("plugin io failed: ", detail.as_str()),
            PluginError::Timeout { timeout_ms } => {
                let n = decimal_string(*timeout_ms);
                let mut r = concat("plugin timeout after ", n.as_str());
                r.append(" ms");
                r
            },
            PluginError::BadUtf8 { detail } => concat("plugin bad utf-8: ", detail.as_str()),
            PluginError::BadJson { detail } => concat("plugin bad json: ", detail.as_str()),
            PluginError::ProtocolError { detail } => concat("plugin protocol error: ", detail.as_str()),
            PluginError::ExitCode { code } => {
                let n = signed_decimal_string(*code as i64);
                concat("plugin exit nonzero: code=", n.as_str())
            },
            PluginError::StdoutTooLarge => "plugin stdout too large".to_owned(),
            PluginError::StderrTooLarge => "plugin stderr too large".to_owned(),
        }
    }
}

} // verus!
