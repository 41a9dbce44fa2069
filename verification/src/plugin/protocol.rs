//! Messages of the one-shot plugin protocol.
use crate::types::Violation;
use vstd::prelude::*;

verus! {

/// A JSON value, carried through unread.
#[verifier::external_type_specification]
#[verifier::external_body]
pub struct ExJsonValue(serde_json::Value);

/// A request to check one file at one stage.
pub struct CheckFileStageRequest<'a> {
    pub ty: &'static str,
    pub stage: &'a str,
    pub path: &'a str,
    pub payload: serde_json::Value,
}

impl<'a> CheckFileStageRequest<'a> {
    /// A `CheckFileStage` request for `stage` of the file at `path`.
    pub fn new(stage: &'a str, path: &'a str, payload: serde_json::Value) -> (r: Self)
        ensures
            r.ty@ == "CheckFileStage"@,
            r.stage == stage,
            r.path == path,
            r.payload == payload,
    {
        proof {
            reveal_strlit("CheckFileStage");
        }
        CheckFileStageRequest { ty: "CheckFileStage", stage, path, payload }
    }
}

/// The violations a plugin found at one stage.
#[derive(Clone, Debug)]
pub struct ViolationsStageResponse {
    pub ty: String,
    pub stage: String,
    pub violations: Vec<Violation>,
}

} // verus!
