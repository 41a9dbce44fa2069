//! What each stage sends to the plugin host.
use crate::sv::cst_ir::CstIr;
use crate::sv::model::{AstSummary, DefineInfo, ParseArtifacts};
use crate::types::Stage;
use vstd::prelude::*;

verus! {

/// The payload of one stage, borrowed from the parse artifacts.
pub enum StagePayload<'a> {
    /// The raw text of the file.
    RawText(&'a str),
    /// The preprocessed text and the defines in effect.
    PpText { text: &'a str, defines: &'a [DefineInfo] },
    /// The concrete syntax tree, when one was built.
    Cst { cst_ir: Option<&'a CstIr>, has_cst: bool },
    /// The summary of declarations, references and assignments.
    Ast(&'a AstSummary),
}

/// The payload of `stage`: the part of the artifacts that stage reads.
pub fn payload_for<'a>(stage: &Stage, artifacts: &'a ParseArtifacts) -> (r: StagePayload<'a>)
    ensures
        match *stage {
            Stage::RawText => r matches StagePayload::RawText(t) && t@ == artifacts.raw_text@,
            Stage::PpText => r matches StagePayload::PpText { text, defines } && text@ == artifacts.pp_text@
                && defines@ == artifacts.defines@,
            Stage::Cst => r matches StagePayload::Cst { cst_ir, has_cst } && has_cst == artifacts.has_cst
                && match artifacts.cst_ir {
                Some(ir) => cst_ir matches Some(x) && *x == ir,
                None => cst_ir is None,
            },
            Stage::Ast => r matches StagePayload::Ast(a) && *a == artifacts.ast,
        },
{
    match stage {
        Stage::RawText => StagePayload::RawText(artifacts.raw_text.as_str()),
        Stage::PpText => StagePayload::PpText { text: artifacts.pp_text.as_str(), defines: artifacts.defines.as_slice() },
        Stage::Cst => StagePayload::Cst {
            cst_ir: match &artifacts.cst_ir {
                Some(ir) => Some(ir),
                None => None,
            },
            has_cst: artifacts.has_cst,
        },
        Stage::Ast => StagePayload::Ast(&artifacts.ast),
    }
}

} // verus!
