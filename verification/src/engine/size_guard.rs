//! Size limits on the requests sent to and the responses read from the plugin host.
use crate::strings::{concat, decimal, decimal_string, to_string};
use crate::types::{Location, Severity, Violation};
use vstd::prelude::*;

verus! {

/// What happens to a stage whose request is over the limit.
#[derive(Clone, Copy, Debug, PartialEq, Eq, Structural)]
pub enum OnExceed {
    Skip,
    Error,
}

/// The size limits that apply to one stage.
#[derive(Clone, Copy, Debug)]
pub struct SizePolicy {
    pub max_request_bytes: usize,
    pub warn_request_bytes: usize,
    pub max_response_bytes: usize,
    pub on_exceed: OnExceed,
    pub fail_ci_on_skip: bool,
    pub is_required_stage: bool,
}

/// How a stage ended.
#[derive(Clone, Copy, Debug, PartialEq, Eq, Structural)]
pub enum StageStatus {
    Ran,
    Skipped,
    Failed,
}

/// The result of one stage: its status, what it reported, how long it took and whether it
/// fails the run.
#[derive(Debug)]
pub struct StageOutcome {
    pub stage: String,
    pub status: StageStatus,
    pub violations: Vec<Violation>,
    pub duration_ms: u64,
    pub fail_ci: bool,
}

/// The location used for violations that concern a whole stage: line 1, column 1, no file.
pub open spec fn stage_location(l: Location) -> bool {
    l.line == 1 && l.col == 1 && l.end_line == 1 && l.end_col == 1 && l.file is None
}

fn whole_file_location() -> (r: Location)
    ensures
        stage_location(r),
{
    Location { line: 1, col: 1, end_line: 1, end_col: 1, file: None }
}

/// The message of a stage skipped because its request is too large.
pub open spec fn skipped_size_message(stage: Seq<char>, actual: nat, limit: nat) -> Seq<char> {
    "Stage '"@ + stage + "' skipped: request payload "@ + decimal(actual) + " bytes exceeds limit "@ + decimal(limit)
        + " bytes."@
}

/// The violation reported for a stage skipped because its request of `actual` bytes is over `limit`.
pub fn synth_violation_stage_skipped_size(stage: &str, severity: Severity, actual: usize, limit: usize) -> (r: Violation)
    ensures
        r.rule_id@ == "sys.stage.skipped.size"@,
        r.severity == severity,
        r.message@ == skipped_size_message(stage@, actual as nat, limit as nat),
        stage_location(r.location),
{
    proof {
        reveal_strlit("sys.stage.skipped.size");
        reveal_strlit("Stage '");
        reveal_strlit("' skipped: request payload ");
        reveal_strlit(" bytes exceeds limit ");
        reveal_strlit(" bytes.");
    }
    let a = concat("Stage '", stage);
    let b = concat(a.as_str(), "' skipped: request payload ");
    let c = concat(b.as_str(), decimal_string(actual as u64).as_str());
    let d = concat(c.as_str(), " bytes exceeds limit ");
    let e = concat(d.as_str(), decimal_string(limit as u64).as_str());
    let m = concat(e.as_str(), " bytes.");
    Violation {
        rule_id: to_string("sys.stage.skipped.size"),
        severity,
        message: m,
        location: whole_file_location(),
    }
}

/// The severity of a request over the limit: an error for a required stage or when the policy
/// says so, else a warning.
pub open spec fn oversize_severity(pol: SizePolicy) -> Severity {
    if pol.is_required_stage || pol.on_exceed == OnExceed::Error {
        Severity::Error
    } else {
        Severity::Warning
    }
}

/// Whether a request of `len` bytes is within the warning margin below the limit.
pub open spec fn nearing_limit_spec(len: nat, pol: SizePolicy) -> bool {
    len >= pol.warn_request_bytes && len <= pol.max_request_bytes
}

/// Whether a request of `len` bytes is within the warning margin below the limit.
pub fn nearing_limit(len: usize, pol: &SizePolicy) -> (r: bool)
    ensures
        r == nearing_limit_spec(len as nat, *pol),
{
    len >= pol.warn_request_bytes && len <= pol.max_request_bytes
}

/// Checks the serialised request of a stage against the limit: `serialized` is `None` when the
/// request could not be serialised. Gives the request bytes, or the outcome of a stage that
/// does not run: failed when serialisation failed; skipped (warning) or failed (error, see
/// `oversize_severity`) when the request is over the limit.
pub fn enforce_request_size(stage: &str, serialized: Option<Vec<u8>>, pol: &SizePolicy) -> (r: Result<Vec<u8>, StageOutcome>)
    ensures
        match serialized {
            None => r matches Err(o) && o.stage@ == stage@ && o.status == StageStatus::Failed && o.violations@.len()
                == 1 && o.violations@[0].rule_id@ == "sys.stage.serialize.error"@ && o.violations@[0].severity
                == Severity::Error && o.violations@[0].message@ == "Failed to serialize JSON request for stage '"@
                + stage@ + "'"@ && stage_location(o.violations@[0].location) && o.duration_ms == 0 && o.fail_ci,
            Some(b) => if b@.len() > pol.max_request_bytes {
                r matches Err(o) && o.stage@ == stage@ && o.violations@.len() == 1 && o.violations@[0].rule_id@
                    == "sys.stage.skipped.size"@ && o.violations@[0].severity == oversize_severity(*pol)
                    && o.violations@[0].message@ == skipped_size_message(
                    stage@,
                    b@.len(),
                    pol.max_request_bytes as nat,
                ) && stage_location(o.violations@[0].location) && o.status == (if oversize_severity(*pol)
                    == Severity::Error {
                    StageStatus::Failed
                } else {
                    StageStatus::Skipped
                }) && o.duration_ms == 0 && o.fail_ci == (oversize_severity(*pol) == Severity::Error
                    || pol.fail_ci_on_skip)
            } else {
                r == Ok::<Vec<u8>, StageOutcome>(b)
            },
        },
{
    let bytes = match serialized {
        None => {
            proof {
                reveal_strlit("sys.stage.serialize.error");
                reveal_strlit("Failed to serialize JSON request for stage '");
                reveal_strlit("'");
            }
            let a = concat("Failed to serialize JSON request for stage '", stage);
            let v = Violation {
                rule_id: to_string("sys.stage.serialize.error"),
                severity: Severity::Error,
                message: concat(a.as_str(), "'"),
                location: whole_file_location(),
            };
            let mut vs: Vec<Violation> = Vec::new();
            vs.push(v);
            return Err(
                StageOutcome {
                    stage: to_string(stage),
                    status: StageStatus::Failed,
                    violations: vs,
                    duration_ms: 0,
                    fail_ci: true,
                },
            );
        },
        Some(b) => b,
    };
    let len = bytes.len();
    if len > pol.max_request_bytes {
        let sev = if pol.is_required_stage || pol.on_exceed == OnExceed::Error {
            Severity::Error
        } else {
            Severity::Warning
        };
        let is_err = sev == Severity::Error;
        let v = synth_violation_stage_skipped_size(stage, sev, len, pol.max_request_bytes);
        let status = if is_err {
            StageStatus::Failed
        } else {
            StageStatus::Skipped
        };
        let mut vs: Vec<Violation> = Vec::new();
        vs.push(v);
        return Err(
            StageOutcome {
                stage: to_string(stage),
                status,
                violations: vs,
                duration_ms: 0,
                fail_ci: is_err || pol.fail_ci_on_skip,
            },
        );
    }
    Ok(bytes)
}

/// The message of a stage whose response is too large.
pub open spec fn output_too_large_message(stage: Seq<char>, actual: nat, limit: nat) -> Seq<char> {
    "Stage '"@ + stage + "' output "@ + decimal(actual) + " bytes exceeds limit "@ + decimal(limit) + " bytes."@
}

/// Checks the size of a stage's response against the limit; over it, the stage fails with an
/// error violation.
pub fn enforce_response_size(stage: &str, response_bytes: usize, pol: &SizePolicy) -> (r: Result<(), StageOutcome>)
    ensures
        response_bytes <= pol.max_response_bytes ==> r is Ok,
        response_bytes > pol.max_response_bytes ==> (r matches Err(o) && o.stage@ == stage@ && o.status
            == StageStatus::Failed && o.violations@.len() == 1 && o.violations@[0].rule_id@
            == "sys.stage.output.too_large"@ && o.violations@[0].severity == Severity::Error
            && o.violations@[0].message@ == output_too_large_message(
            stage@,
            response_bytes as nat,
            pol.max_response_bytes as nat,
        ) && stage_location(o.violations@[0].location) && o.duration_ms == 0 && o.fail_ci),
{
    if response_bytes > pol.max_response_bytes {
        proof {
            reveal_strlit("sys.stage.output.too_large");
            reveal_strlit("Stage '");
            reveal_strlit("' output ");
            reveal_strlit(" bytes exceeds limit ");
            reveal_strlit(" bytes.");
        }
        let a = concat("Stage '", stage);
        let b = concat(a.as_str(), "' output ");
        let c = concat(b.as_str(), decimal_string(response_bytes as u64).as_str());
        let d = concat(c.as_str(), " bytes exceeds limit ");
        let e = concat(d.as_str(), decimal_string(pol.max_response_bytes as u64).as_str());
        let v = Violation {
            rule_id: to_string("sys.stage.output.too_large"),
            severity: Severity::Error,
            message: concat(e.as_str(), " bytes."),
            location: whole_file_location(),
        };
        let mut vs: Vec<Violation> = Vec::new();
        vs.push(v);
        return Err(
            StageOutcome {
                stage: to_string(stage),
                status: StageStatus::Failed,
                violations: vs,
                duration_ms: 0,
                fail_ci: true,
            },
        );
    }
    Ok(())
}

} // verus!
