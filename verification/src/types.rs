//! Diagnostic records shared by every stage of the pipeline.
use vstd::prelude::*;

verus! {

/// Where a violation was found; lines and columns count from 1.
#[derive(Debug, Clone, PartialEq, Eq)]
pub struct Location {
    pub line: u32,
    pub col: u32,
    pub end_line: u32,
    pub end_col: u32,
    pub file: Option<String>,
}

/// How serious a reported violation is.
#[derive(Debug, Clone, Copy, PartialEq, Eq, Structural)]
pub enum Severity {
    Error,
    Warning,
    Info,
}

/// One diagnostic produced by a rule.
#[derive(Debug, Clone)]
pub struct Violation {
    pub rule_id: String,
    pub severity: Severity,
    pub message: String,
    pub location: Location,
}

/// The pipeline stage a rule runs at.
#[derive(Debug, Clone, Copy, PartialEq, Eq, Hash, Structural)]
pub enum Stage {
    RawText,
    PpText,
    Cst,
    Ast,
}

/// The wire name of a stage.
pub open spec fn stage_name(s: Stage) -> Seq<char> {
    match s {
        Stage::RawText => "raw_text"@,
        Stage::PpText => "pp_text"@,
        Stage::Cst => "cst"@,
        Stage::Ast => "ast"@,
    }
}

impl Stage {
    /// The name of the stage as used in configuration files and on the wire.
    pub fn as_str(&self) -> (r: &'static str)
        ensures
            r@ == stage_name(*self),
    {
        match self {
            Stage::RawText => "raw_text",
            Stage::PpText => "pp_text",
            Stage::Cst => "cst",
            Stage::Ast => "ast",
        }
    }
}

impl Location {
    /// A copy holding the same values.
    pub fn copy(&self) -> (r: Self)
        ensures
            r == *self,
    {
        Location {
            line: self.line,
            col: self.col,
            end_line: self.end_line,
            end_col: self.end_col,
            file: match &self.file {
                Some(f) => Some(f.clone()),
                None => None,
            },
        }
    }
}

} // verus!
