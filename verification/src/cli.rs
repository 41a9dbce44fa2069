//! What the command line does with its inputs and results.
use crate::config::paths::strs;
use crate::config::types::Config;
use crate::engine::pipeline::RunSummary;
use crate::errors::ConfigError;
use crate::filelist::FilelistLoad;
use crate::strings::to_string;
use vstd::prelude::*;

verus! {

/// The exit status of a run: 3 when a file could not be run, 2 when violations were found,
/// 0 otherwise.
pub open spec fn exit_status(s: RunSummary) -> u8 {
    if s.had_error {
        3
    } else if s.violations > 0 {
        2
    } else {
        0
    }
}

/// The exit status of a run (see `exit_status`).
pub fn exit_code_for(summary: &RunSummary) -> (r: u8)
    ensures
        r == exit_status(*summary),
{
    if summary.had_error {
        3
    } else if summary.violations > 0 {
        2
    } else {
        0
    }
}

fn append_all(dst: &mut Vec<String>, src: Vec<String>)
    ensures
        final(dst)@ == old(dst)@ + src@,
{
    let mut s = src;
    dst.append(&mut s);
}

/// The files to lint: those given, then those the filelists list. The filelists' include
/// directories and defines are added to the parser's. No files at all is an error.
pub fn gather_inputs(cfg: &mut Config, direct: Vec<String>, load: Option<FilelistLoad>) -> (r: Result<Vec<String>, ConfigError>)
    ensures
        final(cfg).logging == old(cfg).logging,
        final(cfg).defaults == old(cfg).defaults,
        final(cfg).plugin == old(cfg).plugin,
        final(cfg).stages == old(cfg).stages,
        final(cfg).rule == old(cfg).rule,
        final(cfg).transport == old(cfg).transport,
        final(cfg).svparser.strip_comments == old(cfg).svparser.strip_comments,
        final(cfg).svparser.ignore_include == old(cfg).svparser.ignore_include,
        final(cfg).svparser.allow_incomplete == old(cfg).svparser.allow_incomplete,
        match load {
            Some(l) => {
                &&& final(cfg).svparser.include_paths@ == old(cfg).svparser.include_paths@ + l.incdirs@
                &&& final(cfg).svparser.defines@ == old(cfg).svparser.defines@ + l.defines@
                &&& (direct@ + l.files@).len() > 0 ==> (r matches Ok(v) && v@ == direct@ + l.files@)
            },
            None => {
                &&& final(cfg).svparser.include_paths == old(cfg).svparser.include_paths
                &&& final(cfg).svparser.defines == old(cfg).svparser.defines
                &&& direct@.len() > 0 ==> (r matches Ok(v) && v@ == direct@)
            },
        },
        (match load {
            Some(l) => direct@.len() + l.files@.len(),
            None => direct@.len(),
        }) == 0 ==> (r matches Err(ConfigError::InvalidValue { detail }) && detail@ == "no input files provided"@),
{
    let mut inputs = direct;
    if let Some(l) = load {
        let FilelistLoad { files, incdirs, defines } = l;
        append_all(&mut inputs, files);
        append_all(&mut cfg.svparser.include_paths, incdirs);
        append_all(&mut cfg.svparser.defines, defines);
    }
    if inputs.len() == 0 {
        proof {
            reveal_strlit("no input files provided");
        }
        return Err(ConfigError::InvalidValue { detail: to_string("no input files provided") });
    }
    Ok(inputs)
}

/// Law: a run exits with 0 exactly when every file ran and none had violations.
pub proof fn law_clean_run_exits_zero(s: RunSummary)
    ensures
        (exit_status(s) == 0) == (!s.had_error && s.violations == 0),
        s.had_error ==> exit_status(s) == 3,
{
}

} // verus!
