//! A plugin run as a one-shot process: its command line, the limits on what it writes, and the
//! checks on its answer.
use crate::config::paths::{join, path_joined, strs};
use crate::config::types::Plugin;
use crate::errors::PluginError;
use crate::strings::{chars_of, concat, ends_with, has_suffix, to_string, trim_spec};
use crate::textutil::{truncate_preview_spec, truncate_preview_utf8};
use crate::types::Violation;
use vstd::prelude::*;

verus! {

/// Whether `c` separates path components on this platform (`std::path::is_separator`).
pub uninterp spec fn path_separator(c: char) -> bool;

/// `std::path::is_separator`.
#[verifier::external_body]
pub(crate) fn is_separator(c: char) -> (r: bool)
    ensures
        r == path_separator(c),
{
    std::path::is_separator(c)
}

/// Whether an argument names a file: it ends in `.py` or holds a path separator.
pub open spec fn names_file(a: Seq<char>) -> bool {
    has_suffix(a, ".py"@) || exists|i: int| 0 <= i < a.len() && path_separator(#[trigger] a[i])
}

/// An argument as passed to the plugin: a file name is taken relative to the configuration's
/// directory.
pub open spec fn resolved_arg(cfg_dir: Seq<char>, a: Seq<char>) -> Seq<char> {
    if names_file(a) {
        path_joined(cfg_dir, a)
    } else {
        a
    }
}

fn has_separator(a: &str) -> (r: bool)
    ensures
        r == exists|i: int| 0 <= i < a@.len() && path_separator(#[trigger] a@[i]),
{
    let v = chars_of(a);
    let mut i: usize = 0;
    while i < v.len()
        invariant
            i <= v@.len(),
            v@ == a@,
            forall|k: int| 0 <= k < i ==> !path_separator(#[trigger] a@[k]),
        decreases v@.len() - i,
    {
        if is_separator(v[i]) {
            return true;
        }
        i += 1;
    }
    false
}

/// The plugin command and its arguments, file arguments taken relative to `cfg_dir`.
pub fn resolve_plugin_cmd_and_args(cfg_dir: &str, plugin: &Plugin) -> (r: (String, Vec<String>))
    ensures
        r.0 == plugin.cmd,
        strs(r.1@) == strs(plugin.args@).map_values(|a: Seq<char>| resolved_arg(cfg_dir@, a)),
{
    proof {
        reveal_strlit(".py");
    }
    let mut argv: Vec<String> = Vec::new();
    let mut i: usize = 0;
    while i < plugin.args.len()
        invariant
            i <= plugin.args@.len(),
            strs(argv@) == strs(plugin.args@.take(i as int)).map_values(|a: Seq<char>| resolved_arg(cfg_dir@, a)),
        decreases plugin.args@.len() - i,
    {
        let a = plugin.args[i].as_str();
        let ghost before = strs(argv@);
        if ends_with(a, ".py") || has_separator(a) {
            argv.push(join(cfg_dir, a));
        } else {
            argv.push(plugin.args[i].clone());
        }
        assert(strs(plugin.args@.take(i + 1)) =~= strs(plugin.args@.take(i as int)).push(plugin.args@[i as int]@));
        assert(strs(argv@) =~= before.push(resolved_arg(cfg_dir@, plugin.args@[i as int]@)));
        i += 1;
    }
    assert(plugin.args@.take(plugin.args@.len() as int) =~= plugin.args@);
    (plugin.cmd.clone(), argv)
}

/// A preview of `s` at most `max` bytes long, cut at a character boundary and followed by
/// `" ..."` when it was shortened.
pub fn truncate_preview(s: &str, max: usize) -> (r: String)
    ensures
        r@ == truncate_preview_spec(s@, max as int),
{
    truncate_preview_utf8(s, max)
}

/// The total read so far after a chunk of `n` more bytes, or `None` once it is over `max`.
pub fn accept_chunk(total: usize, n: usize, max: usize) -> (r: Option<usize>)
    requires
        total + n <= usize::MAX,
    ensures
        total + n > max ==> r is None,
        total + n <= max ==> r == Some((total + n) as usize),
{
    let t = total + n;
    if t > max {
        None
    } else {
        Some(t)
    }
}

/// The result of how the plugin process ended: a nonzero exit gives its code (-1 without one);
/// a process whose status is unknown counts as having ended well.
pub fn exit_outcome(success: Option<bool>, code: Option<i32>) -> (r: Result<(), PluginError>)
    ensures
        success == Some(false) ==> (r matches Err(PluginError::ExitCode { code: c }) && c == match code {
            Some(x) => x,
            None => -1i32,
        }),
        success != Some(false) ==> r is Ok,
{
    match success {
        Some(false) => Err(
            PluginError::ExitCode {
                code: match code {
                    Some(c) => c,
                    None => -1,
                },
            },
        ),
        _ => Ok(()),
    }
}

/// The stderr text to log, if any: when events are shown and the text is not blank, a preview
/// of at most `max` bytes.
pub fn stderr_preview(show_events: bool, err_text: &str, max: usize) -> (r: Option<String>)
    ensures
        show_events && trim_spec(err_text@).len() > 0 ==> (r matches Some(x) && x@ == truncate_preview_spec(
            err_text@,
            max as int,
        )),
        !(show_events && trim_spec(err_text@).len() > 0) ==> r is None,
{
    if show_events && !crate::config::validate::is_blank(err_text) {
        Some(truncate_preview(err_text, max))
    } else {
        None
    }
}

/// A one-shot plugin's answer.
#[derive(Clone, Debug)]
pub struct PluginResp {
    pub ty: String,
    pub stage: String,
    pub violations: Vec<Violation>,
}

/// Checks a one-shot plugin's raw answer: a blank answer is bad JSON.
pub fn check_raw_response(raw: &str) -> (r: Result<(), PluginError>)
    ensures
        trim_spec(raw@).len() == 0 ==> (r matches Err(PluginError::BadJson { detail }) && detail@ == "empty response"@),
        trim_spec(raw@).len() > 0 ==> r is Ok,
{
    if crate::config::validate::is_blank(raw) {
        proof {
            reveal_strlit("empty response");
        }
        return Err(PluginError::BadJson { detail: to_string("empty response") });
    }
    Ok(())
}

/// Checks a one-shot plugin's parsed answer for `stage`: it must be a `ViolationsStage`
/// answer for that stage; gives its violations.
pub fn check_plugin_response(resp: PluginResp, stage: &str) -> (r: Result<Vec<Violation>, PluginError>)
    ensures
        resp.ty@ != "ViolationsStage"@ ==> (r matches Err(PluginError::ProtocolError { detail }) && detail@ == "type="@
            + resp.ty@ + " expected=ViolationsStage"@),
        resp.ty@ == "ViolationsStage"@ && resp.stage@ != stage@ ==> (r matches Err(PluginError::ProtocolError { detail })
            && detail@ == "stage="@ + resp.stage@ + " expected="@ + stage@),
        resp.ty@ == "ViolationsStage"@ && resp.stage@ == stage@ ==> r == Ok::<Vec<Violation>, PluginError>(
            resp.violations,
        ),
{
    proof {
        reveal_strlit("ViolationsStage");
        reveal_strlit("type=");
        reveal_strlit(" expected=ViolationsStage");
        reveal_strlit("stage=");
        reveal_strlit(" expected=");
    }
    if !crate::strings::str_eq(resp.ty.as_str(), "ViolationsStage") {
        let a = concat("type=", resp.ty.as_str());
        return Err(PluginError::ProtocolError { detail: concat(a.as_str(), " expected=ViolationsStage") });
    }
    if !crate::strings::str_eq(resp.stage.as_str(), stage) {
        let a = concat("stage=", resp.stage.as_str());
        let b = concat(a.as_str(), " expected=");
        return Err(PluginError::ProtocolError { detail: concat(b.as_str(), stage) });
    }
    Ok(resp.violations)
}

} // verus!
