//! Rule scripts after loading: their stages inferred from file names, missing scripts derived
//! from rule ids, relative scripts resolved, and scripts checked to exist.
use super::paths::{
    dir_state, file_name, file_stem, extension, is_absolute, join, path_exists, path_extension,
    path_file_name, path_file_stem, path_is_absolute, path_joined, opt_str, DirState,
};
use super::types::RuleConfig;
use crate::errors::ConfigError;
use crate::strings::{
    chars_of, concat, debug_list, debug_string_list, str_eq, string_of_range, to_string, trim_spec,
};
use super::validate::is_blank;
use super::types::Config;
use super::paths::{opt_view, paths_equal, paths_sorted, plugin_search_paths, same_path, search_paths_spec, sort_paths, strs, to_abs, to_abs_spec};
use super::validate::{severity_from_str, severity_of};
use crate::types::Stage;
use vstd::prelude::*;

verus! {

/// The stage named by a script suffix: `raw`, `pp`, `cst` or `ast`.
pub open spec fn stage_of_suffix(s: Seq<char>) -> Option<Stage> {
    if s == "raw"@ {
        Some(Stage::RawText)
    } else if s == "pp"@ {
        Some(Stage::PpText)
    } else if s == "cst"@ {
        Some(Stage::Cst)
    } else if s == "ast"@ {
        Some(Stage::Ast)
    } else {
        None
    }
}

/// The index of the last `'.'` in `s`, if there is one.
pub open spec fn last_dot(s: Seq<char>) -> Option<int> {
    if exists|i: int| 0 <= i < s.len() && s[i] == '.' {
        Some(choose|i: int| 0 <= i < s.len() && s[i] == '.' && forall|j: int| i < j < s.len() ==> s[j] != '.')
    } else {
        None
    }
}

/// What follows the last `'.'` of `s` (what `str::rsplit_once('.')` gives as its second part).
pub open spec fn after_last_dot(s: Seq<char>) -> Option<Seq<char>> {
    match last_dot(s) {
        Some(i) => Some(s.skip(i + 1)),
        None => None,
    }
}

/// The start of every message about a rule whose stage is inferred.
pub open spec fn missing_stage_prefix(id: Seq<char>) -> Seq<char> {
    "rule "@ + id + " missing stage and script "@
}

#[verifier::opaque]
/// The stage inferred for rule `id` with `script`, given the script path's file name,
/// extension and stem: the stage named by the part of the stem after its last `'.'`, when the
/// extension is `py`; else the message of what is wrong.
pub open spec fn stage_from_parts(
    id: Seq<char>,
    script: Seq<char>,
    name: Option<Seq<char>>,
    ext: Option<Seq<char>>,
    stem: Option<Seq<char>>,
) -> Result<Stage, Seq<char>> {
    match name {
        None => Err(missing_stage_prefix(id) + script + " is invalid"@),
        Some(f) => if ext != Some("py"@) {
            Err(missing_stage_prefix(id) + f + " must end with .py"@)
        } else {
            match stem {
                None => Err(missing_stage_prefix(id) + script + " is invalid"@),
                Some(st) => match after_last_dot(st) {
                    None => Err(missing_stage_prefix(id) + f + " lacks .<stage> suffix"@),
                    Some(suf) => match stage_of_suffix(suf) {
                        Some(s) => Ok(s),
                        None => Err(missing_stage_prefix(id) + f + " has unsupported stage suffix "@ + suf),
                    },
                },
            }
        },
    }
}

/// The stage inferred for a rule from its script path.
pub open spec fn inferred_stage(r: RuleConfig) -> Result<Stage, Seq<char>> {
    stage_from_parts(
        r.id@,
        r.script@,
        path_file_name(r.script@),
        path_extension(r.script@),
        path_file_stem(r.script@),
    )
}

/// The part after the last `'.'` of `s`, if it has one.
fn suffix_after_dot(s: &str) -> (r: Option<String>)
    ensures
        opt_str(r) == after_last_dot(s@),
{
    let v = chars_of(s);
    let mut i = v.len();
    while i > 0
        invariant
            i <= v@.len(),
            v@ == s@,
            forall|j: int| i <= j < v@.len() ==> v@[j] != '.',
        decreases i,
    {
        if v[i - 1] == '.' {
            let k = i - 1;
            let ghost c = choose|x: int| 0 <= x < s@.len() && s@[x] == '.' && forall|j: int| x < j < s@.len() ==> s@[j] != '.';
            assert(c == k) by {
                if c < k {
                    assert(s@[k as int] == '.');
                }
            }
            let r = string_of_range(v.as_slice(), k + 1, v.len());
            assert(v@.subrange(k + 1, v@.len() as int) =~= s@.skip(k + 1));
            return Some(r);
        }
        i -= 1;
    }
    None
}

fn missing_stage_message(id: &str, middle: &str, tail: &str) -> (r: String)
    ensures
        r@ == missing_stage_prefix(id@) + middle@ + tail@,
{
    proof {
        reveal_strlit("rule ");
        reveal_strlit(" missing stage and script ");
    }
    let a = concat("rule ", id);
    let b = concat(a.as_str(), " missing stage and script ");
    let c = concat(b.as_str(), middle);
    concat(c.as_str(), tail)
}

/// The stage of rule `id` with `script`, given the file name, extension and stem of the
/// script path (see `stage_from_parts`).
pub fn stage_from_script_parts(
    id: &str,
    script: &str,
    name: Option<String>,
    ext: Option<String>,
    stem: Option<String>,
) -> (r: Result<Stage, ConfigError>)
    ensures
        match stage_from_parts(id@, script@, opt_str(name), opt_str(ext), opt_str(stem)) {
            Ok(s) => r == Ok::<Stage, ConfigError>(s),
            Err(m) => r matches Err(ConfigError::InvalidValue { detail }) && detail@ == m,
        },
{
    proof {
        reveal(stage_from_parts);
        reveal_strlit(" is invalid");
        reveal_strlit(" must end with .py");
        reveal_strlit(" lacks .<stage> suffix");
        reveal_strlit(" has unsupported stage suffix ");
        reveal_strlit("py");
        reveal_strlit("raw");
        reveal_strlit("pp");
        reveal_strlit("cst");
        reveal_strlit("ast");
        reveal_strlit("");
    }
    let f = match name {
        None => {
            return Err(ConfigError::InvalidValue { detail: missing_stage_message(id, script, " is invalid") });
        },
        Some(f) => f,
    };
    let is_py = match &ext {
        Some(e) => str_eq(e.as_str(), "py"),
        None => false,
    };
    if !is_py {
        return Err(ConfigError::InvalidValue { detail: missing_stage_message(id, f.as_str(), " must end with .py") });
    }
    let st = match stem {
        None => {
            return Err(ConfigError::InvalidValue { detail: missing_stage_message(id, script, " is invalid") });
        },
        Some(st) => st,
    };
    let suffix = match suffix_after_dot(st.as_str()) {
        None => {
            return Err(
                ConfigError::InvalidValue { detail: missing_stage_message(id, f.as_str(), " lacks .<stage> suffix") },
            );
        },
        Some(x) => x,
    };
    let sx = suffix.as_str();
    if str_eq(sx, "raw") {
        Ok(Stage::RawText)
    } else if str_eq(sx, "pp") {
        Ok(Stage::PpText)
    } else if str_eq(sx, "cst") {
        Ok(Stage::Cst)
    } else if str_eq(sx, "ast") {
        Ok(Stage::Ast)
    } else {
        let m = missing_stage_message(id, f.as_str(), " has unsupported stage suffix ");
        Err(ConfigError::InvalidValue { detail: concat(m.as_str(), sx) })
    }
}

/// The stage of a rule inferred from its script path: the `<stage>` of `<name>.<stage>.py`.
pub fn infer_stage_from_script(rule: &RuleConfig) -> (r: Result<Stage, ConfigError>)
    ensures
        match inferred_stage(*rule) {
            Ok(s) => r == Ok::<Stage, ConfigError>(s),
            Err(m) => r matches Err(ConfigError::InvalidValue { detail }) && detail@ == m,
        },
{
    let script = rule.script.as_str();
    let name = file_name(script);
    let ext = extension(script);
    let stem = file_stem(script);
    stage_from_script_parts(rule.id.as_str(), script, name, ext, stem)
}

/// The index of the first rule without a stage whose stage cannot be inferred, if any.
pub open spec fn first_uninferable(rules: Seq<RuleConfig>) -> Option<int> {
    if exists|i: int| 0 <= i < rules.len() && rules[i].stage is None && #[trigger] inferred_stage(rules[i]) is Err {
        Some(
            choose|i: int|
                0 <= i < rules.len() && rules[i].stage is None && #[trigger] inferred_stage(rules[i]) is Err && forall|
                    j: int,
                | 0 <= j < i ==> !(rules[j].stage is None && inferred_stage(rules[j]) is Err),
        )
    } else {
        None
    }
}

/// Whether `n` is `o` with its stage set from its script when it had none.
pub open spec fn stage_filled(o: RuleConfig, n: RuleConfig) -> bool {
    &&& n.id == o.id
    &&& n.script == o.script
    &&& n.enabled == o.enabled
    &&& n.severity == o.severity
    &&& n.stage == (if o.stage is Some {
        o.stage
    } else {
        Some(inferred_stage(o)->Ok_0)
    })
}

fn set_stage(rules: &mut Vec<RuleConfig>, i: usize, s: Stage)
    requires
        i < old(rules)@.len(),
    ensures
        final(rules)@ == old(rules)@.update(i as int, RuleConfig { stage: Some(s), ..old(rules)@[i as int] }),
{
    rules[i].stage = Some(s);
}

/// Sets the stage of every rule that has none from its script. Stops at the first rule whose
/// stage cannot be inferred, with that rule's message; the rules before it are already set.
pub fn infer_rule_stages(rules: &mut Vec<RuleConfig>) -> (r: Result<(), ConfigError>)
    ensures
        final(rules)@.len() == old(rules)@.len(),
        match first_uninferable(old(rules)@) {
            None => r is Ok && forall|i: int|
                0 <= i < old(rules)@.len() ==> stage_filled(old(rules)@[i], #[trigger] final(rules)@[i]),
            Some(k) => (r matches Err(ConfigError::InvalidValue { detail }) && detail@ == inferred_stage(
                old(rules)@[k],
            )->Err_0) && (forall|i: int| 0 <= i < k ==> stage_filled(old(rules)@[i], #[trigger] final(rules)@[i]))
                && (forall|i: int| k <= i < old(rules)@.len() ==> #[trigger] final(rules)@[i] == old(rules)@[i]),
        },
{
    let ghost orig = rules@;
    let mut i: usize = 0;
    while i < rules.len()
        invariant
            i <= rules@.len(),
            orig == old(rules)@,
            rules@.len() == orig.len(),
            forall|j: int| 0 <= j < i ==> !(orig[j].stage is None && #[trigger] inferred_stage(orig[j]) is Err),
            forall|j: int| 0 <= j < i ==> stage_filled(orig[j], #[trigger] rules@[j]),
            forall|j: int| i <= j < rules@.len() ==> #[trigger] rules@[j] == orig[j],
        decreases rules@.len() - i,
    {
        if rules[i].stage.is_none() {
            match infer_stage_from_script(&rules[i]) {
                Ok(s) => {
                    set_stage(rules, i, s);
                },
                Err(e) => {
                    proof {
                        let c = choose|x: int|
                            0 <= x < orig.len() && orig[x].stage is None && #[trigger] inferred_stage(orig[x]) is Err
                                && forall|j: int| 0 <= j < x ==> !(orig[j].stage is None && inferred_stage(orig[j]) is Err);
                        assert(orig[i as int].stage is None && inferred_stage(orig[i as int]) is Err);
                        assert(c == i) by {
                            if c > i {
                                assert(!(orig[i as int].stage is None && inferred_stage(orig[i as int]) is Err));
                            }
                        }
                    }
                    return Err(e);
                },
            }
        }
        i += 1;
    }
    Ok(())
}

/// The file name of the script of rule `id` at stage suffix `st`: `<id>.<st>.py`.
pub open spec fn script_name(id: Seq<char>, st: Seq<char>) -> Seq<char> {
    id + "."@ + st + ".py"@
}

/// The script files found for rule `id`, given which of the `ast`, `cst`, `pp` and `raw`
/// scripts exist under some root: their names, sorted and each listed once.
pub open spec fn found_scripts(id: Seq<char>, ast: bool, cst: bool, pp: bool, raw: bool) -> Seq<Seq<char>> {
    (if ast { seq![script_name(id, "ast"@)] } else { Seq::empty() }) + (if cst {
        seq![script_name(id, "cst"@)]
    } else {
        Seq::empty()
    }) + (if pp { seq![script_name(id, "pp"@)] } else { Seq::empty() }) + (if raw {
        seq![script_name(id, "raw"@)]
    } else {
        Seq::empty()
    })
}

/// The script derived for rule `id` from the scripts found: the one found, or the message of
/// none or several being found.
pub open spec fn derived_script(id: Seq<char>, found: Seq<Seq<char>>) -> Result<Seq<char>, Seq<char>> {
    if found.len() == 1 {
        Ok(found[0])
    } else if found.len() == 0 {
        Err("rule "@ + id + " missing script and no bundled file named "@ + id
            + ".{raw,pp,cst,ast}.py exists under plugin roots"@)
    } else {
        Err("rule "@ + id + " matches multiple scripts "@ + debug_list(found) + "; specify script explicitly"@)
    }
}

/// The script derived for a rule given only by id is the one stage file found: with exactly
/// one of the `raw`, `pp`, `cst` and `ast` files found it is `<id>.<stage>.py` for that stage,
/// and with none or several it is an error. Each stage file is listed as found exactly when
/// its stage was found.
pub proof fn law_derived_script_is_the_found_file(id: Seq<char>, ast: bool, cst: bool, pp: bool, raw: bool)
    ensures
        found_scripts(id, ast, cst, pp, raw).contains(id + ".raw.py"@) == raw,
        found_scripts(id, ast, cst, pp, raw).contains(id + ".pp.py"@) == pp,
        found_scripts(id, ast, cst, pp, raw).contains(id + ".cst.py"@) == cst,
        found_scripts(id, ast, cst, pp, raw).contains(id + ".ast.py"@) == ast,
        raw && !pp && !cst && !ast ==> derived_script(id, found_scripts(id, ast, cst, pp, raw)) == Ok::<
            Seq<char>,
            Seq<char>,
        >(id + ".raw.py"@),
        !raw && pp && !cst && !ast ==> derived_script(id, found_scripts(id, ast, cst, pp, raw)) == Ok::<
            Seq<char>,
            Seq<char>,
        >(id + ".pp.py"@),
        !raw && !pp && cst && !ast ==> derived_script(id, found_scripts(id, ast, cst, pp, raw)) == Ok::<
            Seq<char>,
            Seq<char>,
        >(id + ".cst.py"@),
        !raw && !pp && !cst && ast ==> derived_script(id, found_scripts(id, ast, cst, pp, raw)) == Ok::<
            Seq<char>,
            Seq<char>,
        >(id + ".ast.py"@),
        (raw as int) + (pp as int) + (cst as int) + (ast as int) != 1 ==> derived_script(
            id,
            found_scripts(id, ast, cst, pp, raw),
        ) is Err,
{
    reveal_strlit(".");
    reveal_strlit(".py");
    reveal_strlit("raw");
    reveal_strlit("pp");
    reveal_strlit("cst");
    reveal_strlit("ast");
    reveal_strlit(".raw.py");
    reveal_strlit(".pp.py");
    reveal_strlit(".cst.py");
    reveal_strlit(".ast.py");
    let n: int = id.len() as int;
    let nr = id + ".raw.py"@;
    let np = id + ".pp.py"@;
    let nc = id + ".cst.py"@;
    let na = id + ".ast.py"@;
    assert(script_name(id, "raw"@) =~= nr);
    assert(script_name(id, "pp"@) =~= np);
    assert(script_name(id, "cst"@) =~= nc);
    assert(script_name(id, "ast"@) =~= na);
    assert(nr[n + 1] == 'r' && np[n + 1] == 'p' && nc[n + 1] == 'c' && na[n + 1] == 'a');
    assert(nc.len() == na.len() && nr.len() == na.len());
    let f = found_scripts(id, ast, cst, pp, raw);
    assert(f =~= (if ast { seq![na] } else { Seq::empty() }) + (if cst { seq![nc] } else { Seq::empty() }) + (if pp {
        seq![np]
    } else {
        Seq::empty()
    }) + (if raw { seq![nr] } else { Seq::empty() }));
    assert(f.len() == (raw as int) + (pp as int) + (cst as int) + (ast as int));
    assert(f.contains(nr) == raw) by {
        if raw {
            assert(f[f.len() - 1] == nr);
        } else {
            if f.contains(nr) {
                let k = choose|k: int| 0 <= k < f.len() && f[k] == nr;
                assert(f[k][n + 1] == 'r');
            }
        }
    }
    assert(f.contains(np) == pp) by {
        if pp {
            assert(f[f.len() - 1 - (raw as int)] == np);
        } else {
            if f.contains(np) {
                let k = choose|k: int| 0 <= k < f.len() && f[k] == np;
                assert(f[k][n + 1] == 'p');
            }
        }
    }
    assert(f.contains(nc) == cst) by {
        if cst {
            assert(f[(ast as int)] == nc);
        } else {
            if f.contains(nc) {
                let k = choose|k: int| 0 <= k < f.len() && f[k] == nc;
                assert(f[k][n + 1] == 'c');
            }
        }
    }
    assert(f.contains(na) == ast) by {
        if ast {
            assert(f[0] == na);
        } else {
            if f.contains(na) {
                let k = choose|k: int| 0 <= k < f.len() && f[k] == na;
                assert(f[k][n + 1] == 'a');
            }
        }
    }
}

/// The message when no plugin root is configured to derive a script from.
pub open spec fn no_roots_message(id: Seq<char>) -> Seq<char> {
    "rule "@ + id + " missing script; set plugin.root/search_paths or specify script explicitly"@
}

fn script_file(id: &str, st: &str) -> (r: String)
    ensures
        r@ == script_name(id@, st@),
{
    proof {
        reveal_strlit(".");
        reveal_strlit(".py");
    }
    let a = concat(id, ".");
    let b = concat(a.as_str(), st);
    concat(b.as_str(), ".py")
}

/// The script of rule `id` given which of its `ast`, `cst`, `pp` and `raw` scripts were found
/// (see `derived_script`).
pub fn pick_derived_script(id: &str, ast: bool, cst: bool, pp: bool, raw: bool) -> (r: Result<String, ConfigError>)
    ensures
        match derived_script(id@, found_scripts(id@, ast, cst, pp, raw)) {
            Ok(x) => r matches Ok(y) && y@ == x,
            Err(m) => r matches Err(ConfigError::InvalidValue { detail }) && detail@ == m,
        },
{
    proof {
        reveal_strlit("ast");
        reveal_strlit("cst");
        reveal_strlit("pp");
        reveal_strlit("raw");
        reveal_strlit("rule ");
        reveal_strlit(" missing script and no bundled file named ");
        reveal_strlit(".{raw,pp,cst,ast}.py exists under plugin roots");
        reveal_strlit(" matches multiple scripts ");
        reveal_strlit("; specify script explicitly");
    }
    let mut found: Vec<String> = Vec::new();
    if ast {
        found.push(script_file(id, "ast"));
    }
    if cst {
        found.push(script_file(id, "cst"));
    }
    if pp {
        found.push(script_file(id, "pp"));
    }
    if raw {
        found.push(script_file(id, "raw"));
    }
    let ghost f = found_scripts(id@, ast, cst, pp, raw);
    assert(strs(found@) =~= f);
    if found.len() == 1 {
        let x = found.pop().unwrap();
        return Ok(x);
    }
    if found.len() == 0 {
        let a = concat("rule ", id);
        let b = concat(a.as_str(), " missing script and no bundled file named ");
        let c = concat(b.as_str(), id);
        return Err(ConfigError::InvalidValue { detail: concat(c.as_str(), ".{raw,pp,cst,ast}.py exists under plugin roots") });
    }
    let a = concat("rule ", id);
    let b = concat(a.as_str(), " matches multiple scripts ");
    let l = debug_string_list(found.as_slice());
    let c = concat(b.as_str(), l.as_str());
    Err(ConfigError::InvalidValue { detail: concat(c.as_str(), "; specify script explicitly") })
}

/// The stage suffix probed at position `j` (0 to 3) under each root: `raw`, `pp`, `cst`, `ast`.
pub open spec fn probe_stage(j: int) -> Seq<char> {
    if j == 0 {
        "raw"@
    } else if j == 1 {
        "pp"@
    } else if j == 2 {
        "cst"@
    } else {
        "ast"@
    }
}

/// The probe of root `i` and stage position `j` in a list of probes, four per root.
pub open spec fn probe_at(v: Seq<Seq<char>>, i: int, j: int) -> Seq<char> {
    v[4 * i + j]
}

/// Whether `v` lists, for each root in turn, the paths of the rule's `raw`, `pp`, `cst` and
/// `ast` scripts under it.
pub open spec fn is_probe_list(v: Seq<Seq<char>>, roots: Seq<Seq<char>>, id: Seq<char>) -> bool {
    &&& v.len() == 4 * roots.len()
    &&& forall|i: int, j: int|
        0 <= i < roots.len() && 0 <= j < 4 ==> #[trigger] probe_at(v, i, j) == path_joined(
            roots[i],
            script_name(id, probe_stage(j)),
        )
}

/// The paths a script for rule `id` is looked for at: under each root in turn, the files
/// `<id>.raw.py`, `<id>.pp.py`, `<id>.cst.py` and `<id>.ast.py`.
pub fn script_probe_paths(roots: &[String], id: &str) -> (r: Vec<String>)
    ensures
        is_probe_list(strs(r@), strs(roots@), id@),
{
    proof {
        reveal_strlit("raw");
        reveal_strlit("pp");
        reveal_strlit("cst");
        reveal_strlit("ast");
    }
    let mut out: Vec<String> = Vec::new();
    let mut i: usize = 0;
    while i < roots.len()
        invariant
            i <= roots@.len(),
            is_probe_list(strs(out@), strs(roots@.take(i as int)), id@),
        decreases roots@.len() - i,
    {
        let ghost before = strs(out@);
        let root = roots[i].as_str();
        out.push(join(root, script_file(id, "raw").as_str()));
        out.push(join(root, script_file(id, "pp").as_str()));
        out.push(join(root, script_file(id, "cst").as_str()));
        out.push(join(root, script_file(id, "ast").as_str()));
        proof {
            let v = strs(out@);
            let rs = strs(roots@.take(i + 1));
            assert(strs(roots@.take(i as int)) =~= rs.take(i as int));
            assert forall|a: int, j: int| 0 <= a < rs.len() && 0 <= j < 4 implies #[trigger] probe_at(v, a, j)
                == path_joined(rs[a], script_name(id@, probe_stage(j))) by {
                if a < i {
                    assert(probe_at(before, a, j) == path_joined(strs(roots@.take(i as int))[a], script_name(id@, probe_stage(j))));
                    assert(v[4 * a + j] == before[4 * a + j]);
                } else {
                    assert(a == i);
                }
            }
        }
        i += 1;
    }
    assert(roots@.take(roots@.len() as int) =~= roots@);
    out
}

/// Whether something was found for stage position `j` under some root, given what was found
/// at each probe (`ex[4 * i + j]` for root `i`).
pub open spec fn stage_found(ex: Seq<bool>, j: int) -> bool {
    exists|i: int| 0 <= i && 4 * i + j < ex.len() && #[trigger] probe_hit(ex, i, j)
}

/// What was found at the probe of root `i` and stage position `j`.
pub open spec fn probe_hit(ex: Seq<bool>, i: int, j: int) -> bool {
    ex[4 * i + j]
}

/// Four more probes, those of one more root: a stage is found when it was before or now.
proof fn lemma_stage_found_push(ex: Seq<bool>, n: int, e: Seq<bool>, j: int)
    requires
        ex.len() == 4 * n,
        n >= 0,
        e.len() == 4,
        0 <= j < 4,
    ensures
        stage_found(ex + e, j) == (stage_found(ex, j) || e[j]),
{
    let x = ex + e;
    if stage_found(x, j) {
        let i = choose|i: int| 0 <= i && 4 * i + j < x.len() && #[trigger] probe_hit(x, i, j);
        if i < n {
            assert(probe_hit(ex, i, j));
        } else {
            assert(i == n);
        }
    }
    if stage_found(ex, j) {
        let i = choose|i: int| 0 <= i && 4 * i + j < ex.len() && #[trigger] probe_hit(ex, i, j);
        assert(probe_hit(x, i, j));
    }
    if e[j] {
        assert(probe_hit(x, n, j));
    }
}

/// The script of a rule that names none, looked up by its id under `roots`: the one file
/// `<id>.<stage>.py` found there (see `derived_script`). Exactly the paths of
/// `script_probe_paths(roots, id)` are probed; a stage's script counts as found when it is
/// found under some root (`stage_found`, with `ex[4 * i + j]` what the probe of root `i` and
/// stage position `j` found). Which files exist is the file system's to say.
pub fn derive_script_from_id(entry: &RuleConfig, roots: &[String]) -> (r: Result<String, ConfigError>)
    ensures
        roots@.len() == 0 ==> (r matches Err(ConfigError::InvalidValue { detail }) && detail@ == no_roots_message(
            entry.id@,
        )),
        roots@.len() > 0 ==> exists|ex: Seq<bool>|
            #![trigger stage_found(ex, 0), stage_found(ex, 1), stage_found(ex, 2), stage_found(ex, 3)]
            ex.len() == 4 * roots@.len() && match derived_script(
                entry.id@,
                found_scripts(entry.id@, stage_found(ex, 3), stage_found(ex, 2), stage_found(ex, 1), stage_found(ex, 0)),
            ) {
                Ok(x) => r matches Ok(y) && y@ == x,
                Err(m) => r matches Err(ConfigError::InvalidValue { detail }) && detail@ == m,
            },
        roots@.len() > 0 ==> exists|a: bool, c: bool, p: bool, w: bool|
            match #[trigger] derived_script(entry.id@, found_scripts(entry.id@, a, c, p, w)) {
                Ok(x) => r matches Ok(y) && y@ == x,
                Err(m) => r matches Err(ConfigError::InvalidValue { detail }) && detail@ == m,
            },
{
    let id = entry.id.as_str();
    if roots.len() == 0 {
        proof {
            reveal_strlit("rule ");
            reveal_strlit(" missing script; set plugin.root/search_paths or specify script explicitly");
        }
        let a = concat("rule ", id);
        return Err(
            ConfigError::InvalidValue {
                detail: concat(a.as_str(), " missing script; set plugin.root/search_paths or specify script explicitly"),
            },
        );
    }
    let probes = script_probe_paths(roots, id);
    let np = probes.len();
    assert(np == 4 * roots@.len());
    let ghost pv = strs(probes@);
    let ghost mut ex: Seq<bool> = Seq::empty();
    let mut raw = false;
    let mut pp = false;
    let mut cst = false;
    let mut ast = false;
    let mut i: usize = 0;
    while i < roots.len()
        invariant
            i <= roots@.len(),
            4 * roots@.len() <= usize::MAX,
            pv == strs(probes@),
            is_probe_list(pv, strs(roots@), id@),
            ex.len() == 4 * i,
            raw == stage_found(ex, 0),
            pp == stage_found(ex, 1),
            cst == stage_found(ex, 2),
            ast == stage_found(ex, 3),
        decreases roots@.len() - i,
    {
        let e0 = path_exists(probes[4 * i].as_str());
        let e1 = path_exists(probes[4 * i + 1].as_str());
        let e2 = path_exists(probes[4 * i + 2].as_str());
        let e3 = path_exists(probes[4 * i + 3].as_str());
        proof {
            let e = seq![e0, e1, e2, e3];
            lemma_stage_found_push(ex, i as int, e, 0);
            lemma_stage_found_push(ex, i as int, e, 1);
            lemma_stage_found_push(ex, i as int, e, 2);
            lemma_stage_found_push(ex, i as int, e, 3);
            ex = ex + e;
        }
        raw = raw || e0;
        pp = pp || e1;
        cst = cst || e2;
        ast = ast || e3;
        i += 1;
    }
    let r = pick_derived_script(id, ast, cst, pp, raw);
    assert(match derived_script(entry.id@, found_scripts(entry.id@, ast, cst, pp, raw)) {
        Ok(x) => r matches Ok(y) && y@ == x,
        Err(m) => r matches Err(ConfigError::InvalidValue { detail }) && detail@ == m,
    });
    r
}

/// The message of a plugin directory check that failed, given what is at the path.
pub open spec fn dir_message(label: Seq<char>, path: Seq<char>, st: DirState) -> Option<Seq<char>> {
    match st {
        DirState::Missing => Some(label + " not found: "@ + path),
        DirState::NotDir => Some(label + " is not a directory: "@ + path),
        DirState::Dir => None,
    }
}

/// The result of checking that a directory is at `path`, given what is there.
pub fn dir_check_result(path: &str, label: &str, st: DirState) -> (r: Result<(), ConfigError>)
    ensures
        match dir_message(label@, path@, st) {
            None => r is Ok,
            Some(m) => r matches Err(ConfigError::InvalidValue { detail }) && detail@ == m,
        },
{
    proof {
        reveal_strlit(" not found: ");
        reveal_strlit(" is not a directory: ");
    }
    match st {
        DirState::Missing => {
            let a = concat(label, " not found: ");
            Err(ConfigError::InvalidValue { detail: concat(a.as_str(), path) })
        },
        DirState::NotDir => {
            let a = concat(label, " is not a directory: ");
            Err(ConfigError::InvalidValue { detail: concat(a.as_str(), path) })
        },
        DirState::Dir => Ok(()),
    }
}

/// Checks that a directory is at `path`; what is there is the file system's to say.
pub fn validate_dir(path: &str, label: &str) -> (r: Result<(), ConfigError>)
    ensures
        exists|st: DirState|
            match #[trigger] dir_message(label@, path@, st) {
                None => r is Ok,
                Some(m) => r matches Err(ConfigError::InvalidValue { detail }) && detail@ == m,
            },
{
    let st = dir_state(path);
    let r = dir_check_result(path, label, st);
    assert(match dir_message(label@, path@, st) {
        None => r is Ok,
        Some(m) => r matches Err(ConfigError::InvalidValue { detail }) && detail@ == m,
    });
    r
}

/// The first message of `msgs`, in order, if any is present.
pub open spec fn first_msg(msgs: Seq<Option<Seq<char>>>) -> Option<Seq<char>>
    decreases msgs.len(),
{
    if msgs.len() == 0 {
        None
    } else {
        match first_msg(msgs.drop_last()) {
            Some(m) => Some(m),
            None => msgs.last(),
        }
    }
}

/// Whatever follows the first message does not change it.
pub(crate) proof fn lemma_first_msg_append(a: Seq<Option<Seq<char>>>, b: Seq<Option<Seq<char>>>)
    requires
        first_msg(a) is Some,
    ensures
        first_msg(a + b) == first_msg(a),
    decreases b.len(),
{
    if b.len() == 0 {
        assert(a + b =~= a);
    } else {
        assert((a + b).drop_last() =~= a + b.drop_last());
        lemma_first_msg_append(a, b.drop_last());
    }
}

/// The directories that the plugin check looks at, in order, each with its label: the plugin
/// root, each search path, and the default plugin directory when no root is configured and
/// some rule needs it.
pub open spec fn plugin_dirs_checked(
    cfg: Config,
    fallback: Seq<char>,
    has_user_roots: bool,
    needs_default_root: bool,
) -> Seq<(Seq<char>, Seq<char>)> {
    let root = match opt_str(cfg.plugin.normalized_root) {
        Some(r) => seq![(r, "plugin.root"@)],
        None => Seq::empty(),
    };
    let sp = strs(cfg.plugin.normalized_search_paths@).map_values(|p: Seq<char>| (p, "plugin.search_paths entry"@));
    let fb = if has_user_roots || !needs_default_root {
        Seq::empty()
    } else {
        seq![(fallback, "default plugin directory"@)]
    };
    root + sp + fb
}

/// The message of each checked directory, given what is at each.
pub open spec fn dir_messages(dirs: Seq<(Seq<char>, Seq<char>)>, states: Seq<DirState>) -> Seq<Option<Seq<char>>> {
    Seq::new(dirs.len(), |k: int| dir_message(dirs[k].1, dirs[k].0, states[k]))
}

/// The directories that the plugin check looks at, each with its label (see
/// `plugin_dirs_checked`).
pub fn plugin_dirs_to_check(cfg: &Config, fallback_root: &str, has_user_roots: bool, needs_default_root: bool) -> (r: Vec<
    (String, String),
>)
    ensures
        r@.map_values(|d: (String, String)| (d.0@, d.1@)) == plugin_dirs_checked(
            *cfg,
            fallback_root@,
            has_user_roots,
            needs_default_root,
        ),
{
    proof {
        reveal_strlit("plugin.root");
        reveal_strlit("plugin.search_paths entry");
        reveal_strlit("default plugin directory");
    }
    let ghost view = |d: (String, String)| (d.0@, d.1@);
    let mut out: Vec<(String, String)> = Vec::new();
    if let Some(root) = &cfg.plugin.normalized_root {
        out.push((root.clone(), to_string("plugin.root")));
    }
    let ghost head = out@.map_values(view);
    assert(head =~= match opt_str(cfg.plugin.normalized_root) {
        Some(r) => seq![(r, "plugin.root"@)],
        None => Seq::<(Seq<char>, Seq<char>)>::empty(),
    });
    let sp = &cfg.plugin.normalized_search_paths;
    let ghost spv = strs(sp@).map_values(|p: Seq<char>| (p, "plugin.search_paths entry"@));
    let mut i: usize = 0;
    while i < sp.len()
        invariant
            i <= sp@.len(),
            sp == cfg.plugin.normalized_search_paths,
            spv == strs(sp@).map_values(|p: Seq<char>| (p, "plugin.search_paths entry"@)),
            view == (|d: (String, String)| (d.0@, d.1@)),
            out@.map_values(view) == head + spv.take(i as int),
        decreases sp@.len() - i,
    {
        let ghost before = out@.map_values(view);
        out.push((sp[i].clone(), to_string("plugin.search_paths entry")));
        assert(out@.map_values(view) =~= before.push(spv[i as int]));
        assert(spv.take(i + 1) =~= spv.take(i as int).push(spv[i as int]));
        i += 1;
    }
    assert(spv.take(sp@.len() as int) =~= spv);
    if !(has_user_roots || !needs_default_root) {
        let ghost before = out@.map_values(view);
        out.push((to_string(fallback_root), to_string("default plugin directory")));
        assert(out@.map_values(view) =~= before.push((fallback_root@, "default plugin directory"@)));
    }
    assert(out@.map_values(view) =~= plugin_dirs_checked(*cfg, fallback_root@, has_user_roots, needs_default_root));
    out
}

/// Checks the configured plugin root and search paths, and the default plugin directory when
/// it will be used, stopping at the first that is not a directory. What is at each path is
/// the file system's to say; the result is that of the first failing check for some outcome.
pub fn validate_plugin_dirs(cfg: &Config, fallback_root: &str, has_user_roots: bool, needs_default_root: bool) -> (r:
    Result<(), ConfigError>)
    ensures
        r matches Err(e) ==> e is InvalidValue,
        exists|states: Seq<DirState>|
            #![trigger dir_messages(plugin_dirs_checked(*cfg, fallback_root@, has_user_roots, needs_default_root), states)]
            states.len() == plugin_dirs_checked(*cfg, fallback_root@, has_user_roots, needs_default_root).len()
                && match first_msg(
                dir_messages(plugin_dirs_checked(*cfg, fallback_root@, has_user_roots, needs_default_root), states),
            ) {
                None => r is Ok,
                Some(m) => r matches Err(ConfigError::InvalidValue { detail }) && detail@ == m,
            },
{
    let dirs = plugin_dirs_to_check(cfg, fallback_root, has_user_roots, needs_default_root);
    let ghost dv = plugin_dirs_checked(*cfg, fallback_root@, has_user_roots, needs_default_root);
    let ghost mut seen: Seq<DirState> = Seq::empty();
    proof {
        assert(dir_messages(dv.take(0), seen) =~= Seq::<Option<Seq<char>>>::empty());
    }
    let mut i: usize = 0;
    while i < dirs.len()
        invariant
            i <= dirs@.len(),
            dv == plugin_dirs_checked(*cfg, fallback_root@, has_user_roots, needs_default_root),
            dirs@.map_values(|d: (String, String)| (d.0@, d.1@)) == dv,
            seen.len() == i,
            first_msg(dir_messages(dv.take(i as int), seen)) is None,
        decreases dirs@.len() - i,
    {
        let (path, label) = (&dirs[i].0, &dirs[i].1);
        assert(dv[i as int] == (path@, label@));
        let r1 = validate_dir(path.as_str(), label.as_str());
        let ghost st = choose|st: DirState|
            match #[trigger] dir_message(label@, path@, st) {
                None => r1 is Ok,
                Some(m) => r1 matches Err(ConfigError::InvalidValue { detail }) && detail@ == m,
            };
        let ghost prev = seen;
        proof {
            seen = seen.push(st);
            assert(dir_messages(dv.take(i + 1), seen) =~= dir_messages(dv.take(i as int), prev).push(
                dir_message(label@, path@, st),
            ));
            assert(dir_messages(dv.take(i + 1), seen).drop_last() =~= dir_messages(dv.take(i as int), prev));
        }
        if r1.is_err() {
            proof {
                let full = seen + Seq::new((dv.len() - seen.len()) as nat, |k: int| DirState::Dir);
                let ms = dir_messages(dv, full);
                assert(ms =~= dir_messages(dv.take(i + 1), seen) + ms.skip(i + 1));
                lemma_first_msg_append(dir_messages(dv.take(i + 1), seen), ms.skip(i + 1));
                assert(full.len() == dv.len());
                assert(match first_msg(ms) {
                    None => r1 is Ok,
                    Some(m) => r1 matches Err(ConfigError::InvalidValue { detail }) && detail@ == m,
                });
            }
            return r1;
        }
        i += 1;
    }
    proof {
        assert(dv.take(seen.len() as int) =~= dv);
        assert(first_msg(dir_messages(dv, seen)) is None);
    }
    Ok(())
}

/// The script of a rule after normalising, given whether plugin roots are configured: a
/// script given relative without configured roots is taken relative to `base`; a derived
/// script `d` is used as found under configured roots, else under `fallback` (made absolute
/// against `base`).
pub open spec fn normalized_script(
    script: Seq<char>,
    derived: Seq<char>,
    has_user_roots: bool,
    fallback: Seq<char>,
    base: Seq<char>,
) -> Seq<char> {
    if trim_spec(script).len() == 0 {
        if has_user_roots {
            derived
        } else {
            to_abs_spec(base, path_joined(fallback, derived))
        }
    } else if has_user_roots {
        script
    } else {
        to_abs_spec(base, script)
    }
}

/// Whether `script` is what normalising gives rule `o`, for a script derived from its id as
/// `derived_script` gives for some outcome of the lookups.
pub open spec fn script_normalized(o: RuleConfig, script: Seq<char>, has_user_roots: bool, fallback: Seq<char>, base: Seq<char>) -> bool {
    exists|d: Seq<char>|
        (trim_spec(o.script@).len() == 0 ==> exists|a: bool, c: bool, p: bool, w: bool|
            derived_script(o.id@, #[trigger] found_scripts(o.id@, a, c, p, w)) == Ok::<Seq<char>, Seq<char>>(d))
            && script == #[trigger] normalized_script(o.script@, d, has_user_roots, fallback, base)
}

fn set_script(rules: &mut Vec<RuleConfig>, i: usize, script: String)
    requires
        i < old(rules)@.len(),
    ensures
        final(rules)@ == old(rules)@.update(i as int, RuleConfig { script, ..old(rules)@[i as int] }),
{
    rules[i].script = script;
}

/// Whether some rule has a blank script.
fn any_blank_script(rules: &Vec<RuleConfig>) -> (r: bool)
    ensures
        r == exists|i: int| 0 <= i < rules@.len() && trim_spec(#[trigger] rules@[i].script@).len() == 0,
{
    let mut i: usize = 0;
    while i < rules.len()
        invariant
            i <= rules@.len(),
            forall|k: int| 0 <= k < i ==> trim_spec(#[trigger] rules@[k].script@).len() != 0,
        decreases rules@.len() - i,
    {
        if is_blank(rules[i].script.as_str()) {
            return true;
        }
        i += 1;
    }
    false
}

/// The script a rule has after normalising (see `normalized_script`).
fn normalize_script(entry: &RuleConfig, roots: &[String], has_user_roots: bool, fallback: &str, base_dir: &str) -> (r:
    Result<String, ConfigError>)
    requires
        has_user_roots ==> roots@.len() > 0,
    ensures
        r matches Ok(x) ==> script_normalized(*entry, x@, has_user_roots, fallback@, base_dir@),
        r matches Err(e) ==> e is InvalidValue,
{
    let mut script = entry.script.clone();
    let blank = is_blank(script.as_str());
    let ghost mut d: Seq<char> = Seq::empty();
    if blank {
        let res = derive_script_from_id(entry, roots);
        let derived = match res {
            Err(e) => {
                return Err(e);
            },
            Ok(x) => x,
        };
        proof {
            d = derived@;
            let (a, c, p, w) = choose|a: bool, c: bool, p: bool, w: bool|
                match #[trigger] derived_script(entry.id@, found_scripts(entry.id@, a, c, p, w)) {
                    Ok(x) => res matches Ok(y) && y@ == x,
                    Err(m) => res matches Err(ConfigError::InvalidValue { detail }) && detail@ == m,
                };
            assert(derived_script(entry.id@, found_scripts(entry.id@, a, c, p, w)) == Ok::<Seq<char>, Seq<char>>(d));
        }
        script = derived;
        if !has_user_roots {
            script = join(fallback, script.as_str());
        }
    }
    if has_user_roots {
        assert(script@ == normalized_script(entry.script@, d, has_user_roots, fallback@, base_dir@));
        return Ok(script);
    }
    if is_absolute(script.as_str()) {
        assert(script@ == normalized_script(entry.script@, d, has_user_roots, fallback@, base_dir@));
        return Ok(script);
    }
    let r = join(base_dir, script.as_str());
    assert(r@ == normalized_script(entry.script@, d, has_user_roots, fallback@, base_dir@));
    Ok(r)
}

/// Resolves the plugin directories against the configuration's directory `base_dir`, checks
/// them, and gives every rule a script: one derived from its id when it names none, made
/// absolute when no plugin root is configured.
pub fn normalize_rule_scripts(cfg: &mut Config, base_dir: &str) -> (r: Result<(), ConfigError>)
    ensures
        opt_str(final(cfg).plugin.config_dir) == Some(base_dir@),
        opt_str(final(cfg).plugin.normalized_root) == (match opt_str(old(cfg).plugin.root) {
            Some(x) => Some(to_abs_spec(base_dir@, x)),
            None => None,
        }),
        strs(final(cfg).plugin.normalized_search_paths@) == strs(old(cfg).plugin.search_paths@).map_values(
            |x: Seq<char>| to_abs_spec(base_dir@, x),
        ),
        final(cfg).plugin.cmd == old(cfg).plugin.cmd,
        final(cfg).plugin.args == old(cfg).plugin.args,
        final(cfg).plugin.root == old(cfg).plugin.root,
        final(cfg).plugin.search_paths == old(cfg).plugin.search_paths,
        final(cfg).logging == old(cfg).logging,
        final(cfg).defaults == old(cfg).defaults,
        final(cfg).stages == old(cfg).stages,
        final(cfg).svparser == old(cfg).svparser,
        final(cfg).transport == old(cfg).transport,
        final(cfg).rule@.len() == old(cfg).rule@.len(),
        forall|i: int|
            0 <= i < old(cfg).rule@.len() ==> {
                let o = old(cfg).rule@[i];
                let n = #[trigger] final(cfg).rule@[i];
                &&& n.id == o.id
                &&& n.stage == o.stage
                &&& n.enabled == o.enabled
                &&& n.severity == o.severity
            },
        r is Ok ==> forall|i: int|
            0 <= i < old(cfg).rule@.len() ==> script_normalized(
                old(cfg).rule@[i],
                (#[trigger] final(cfg).rule@[i]).script@,
                old(cfg).plugin.root is Some || old(cfg).plugin.search_paths@.len() > 0,
                path_joined(base_dir@, "plugins"@),
                base_dir@,
            ),
        r matches Err(e) ==> e is InvalidValue,
{
    cfg.plugin.config_dir = Some(to_string(base_dir));
    cfg.plugin.normalized_root = match &cfg.plugin.root {
        Some(root) => Some(to_abs(base_dir, root.as_str())),
        None => None,
    };
    let mut nsp: Vec<String> = Vec::new();
    let mut i: usize = 0;
    while i < cfg.plugin.search_paths.len()
        invariant
            i <= cfg.plugin.search_paths@.len(),
            strs(nsp@) == strs(cfg.plugin.search_paths@.take(i as int)).map_values(
                |x: Seq<char>| to_abs_spec(base_dir@, x),
            ),
        decreases cfg.plugin.search_paths@.len() - i,
    {
        let a = to_abs(base_dir, cfg.plugin.search_paths[i].as_str());
        nsp.push(a);
        assert(strs(cfg.plugin.search_paths@.take(i + 1)) =~= strs(cfg.plugin.search_paths@.take(i as int)).push(
            cfg.plugin.search_paths@[i as int]@,
        ));
        assert(strs(nsp@) =~= strs(cfg.plugin.search_paths@.take(i as int)).map_values(
            |x: Seq<char>| to_abs_spec(base_dir@, x),
        ).push(to_abs_spec(base_dir@, cfg.plugin.search_paths@[i as int]@)));
        i += 1;
    }
    assert(cfg.plugin.search_paths@.take(cfg.plugin.search_paths@.len() as int) =~= cfg.plugin.search_paths@);
    let mut roots: Vec<String> = Vec::new();
    if let Some(root) = &cfg.plugin.normalized_root {
        roots.push(root.clone());
    }
    let ghost nroot: int = if cfg.plugin.normalized_root is Some { 1 } else { 0 };
    assert(nsp@.len() == cfg.plugin.search_paths@.len());
    let mut j: usize = 0;
    while j < nsp.len()
        invariant
            j <= nsp@.len(),
            roots@.len() == nroot + j,
        decreases nsp@.len() - j,
    {
        roots.push(nsp[j].clone());
        j += 1;
    }
    cfg.plugin.normalized_search_paths = nsp;
    let has_user_roots = roots.len() > 0;
    assert(has_user_roots == (cfg.plugin.root is Some || cfg.plugin.search_paths@.len() > 0));
    proof {
        reveal_strlit("plugins");
    }
    let fallback_root = join(base_dir, "plugins");
    let needs_default_root = any_blank_script(&cfg.rule);
    validate_plugin_dirs(cfg, fallback_root.as_str(), has_user_roots, needs_default_root)?;
    if !has_user_roots {
        roots.push(fallback_root.clone());
    }
    let ghost orig = cfg.rule@;
    let ghost plugin_after = cfg.plugin;
    let mut k: usize = 0;
    while k < cfg.rule.len()
        invariant
            k <= cfg.rule@.len(),
            orig == old(cfg).rule@,
            cfg.plugin == plugin_after,
            opt_str(cfg.plugin.config_dir) == Some(base_dir@),
            opt_str(cfg.plugin.normalized_root) == (match opt_str(old(cfg).plugin.root) {
                Some(x) => Some(to_abs_spec(base_dir@, x)),
                None => None,
            }),
            strs(cfg.plugin.normalized_search_paths@) == strs(old(cfg).plugin.search_paths@).map_values(
                |x: Seq<char>| to_abs_spec(base_dir@, x),
            ),
            cfg.plugin.cmd == old(cfg).plugin.cmd,
            cfg.plugin.args == old(cfg).plugin.args,
            cfg.plugin.root == old(cfg).plugin.root,
            cfg.plugin.search_paths == old(cfg).plugin.search_paths,
            cfg.logging == old(cfg).logging,
            cfg.defaults == old(cfg).defaults,
            cfg.stages == old(cfg).stages,
            cfg.svparser == old(cfg).svparser,
            cfg.transport == old(cfg).transport,
            has_user_roots == (old(cfg).plugin.root is Some || old(cfg).plugin.search_paths@.len() > 0),
            cfg.rule@.len() == orig.len(),
            roots@.len() > 0,
            fallback_root@ == path_joined(base_dir@, "plugins"@),
            forall|x: int|
                0 <= x < orig.len() ==> {
                    let o = orig[x];
                    let n = #[trigger] cfg.rule@[x];
                    &&& n.id == o.id
                    &&& n.stage == o.stage
                    &&& n.enabled == o.enabled
                    &&& n.severity == o.severity
                },
            forall|x: int| k <= x < orig.len() ==> #[trigger] cfg.rule@[x] == orig[x],
            forall|x: int|
                0 <= x < k ==> script_normalized(
                    orig[x],
                    (#[trigger] cfg.rule@[x]).script@,
                    has_user_roots,
                    fallback_root@,
                    base_dir@,
                ),
        decreases cfg.rule@.len() - k,
    {
        let s = normalize_script(&cfg.rule[k], roots.as_slice(), has_user_roots, fallback_root.as_str(), base_dir)?;
        set_script(&mut cfg.rule, k, s);
        k += 1;
    }
    Ok(())
}

/// `v` with each path that equals the path kept before it removed (what `Vec::dedup` does).
pub open spec fn dedup_paths_spec(v: Seq<Seq<char>>) -> Seq<Seq<char>>
    decreases v.len(),
{
    if v.len() == 0 {
        v
    } else {
        let p = dedup_paths_spec(v.drop_last());
        if p.len() > 0 && paths_equal(v.last(), p.last()) {
            p
        } else {
            p.push(v.last())
        }
    }
}

/// `v` with each path that equals the path kept before it removed.
pub fn dedup_paths(v: Vec<String>) -> (r: Vec<String>)
    ensures
        strs(r@) == dedup_paths_spec(strs(v@)),
        forall|k: int| 0 <= k < r@.len() - 1 ==> #[trigger] r@[k]@ != r@[k + 1]@,
{
    let ghost w = strs(v@);
    let mut out: Vec<String> = Vec::new();
    let mut i: usize = 0;
    assert(w.take(0) =~= Seq::<Seq<char>>::empty());
    while i < v.len()
        invariant
            i <= v@.len(),
            w == strs(v@),
            strs(out@) == dedup_paths_spec(w.take(i as int)),
            forall|k: int| 0 <= k < out@.len() - 1 ==> #[trigger] out@[k]@ != out@[k + 1]@,
        decreases v@.len() - i,
    {
        assert(w.take(i + 1).drop_last() =~= w.take(i as int));
        let keep = if out.len() > 0 {
            !same_path(v[i].as_str(), out[out.len() - 1].as_str())
        } else {
            true
        };
        if keep {
            out.push(v[i].clone());
            assert(strs(out@) =~= dedup_paths_spec(w.take(i as int)).push(w[i as int]));
        }
        i += 1;
    }
    assert(w.take(v@.len() as int) =~= w);
    out
}

/// The items of `v` separated by `", "`.
pub open spec fn comma_joined(v: Seq<Seq<char>>) -> Seq<char>
    decreases v.len(),
{
    if v.len() == 0 {
        Seq::empty()
    } else if v.len() == 1 {
        v[0]
    } else {
        comma_joined(v.drop_last()) + ", "@ + v.last()
    }
}

/// The items of `v` separated by `", "`.
pub fn join_comma(v: &[String]) -> (r: String)
    ensures
        r@ == comma_joined(strs(v@)),
{
    let ghost w = strs(v@);
    let mut out = String::new();
    let mut i: usize = 0;
    while i < v.len()
        invariant
            i <= v@.len(),
            w == strs(v@),
            out@ == comma_joined(w.take(i as int)),
        decreases v@.len() - i,
    {
        assert(w.take(i + 1).drop_last() =~= w.take(i as int));
        proof {
            reveal_strlit(", ");
        }
        if i > 0 {
            out.append(", ");
        }
        out.append(v[i].as_str());
        i += 1;
    }
    assert(w.take(v@.len() as int) =~= w);
    out
}

/// The message for a rule whose script was found at none of the `probed` places: the places,
/// sorted, each listed once.
pub open spec fn not_found_message(id: Seq<char>, probed: Seq<Seq<char>>) -> Seq<char> {
    "rule "@ + id + " script not found; searched "@ + comma_joined(dedup_paths_spec(paths_sorted(probed)))
}

/// The error for a rule whose script was found at none of the `probed` places.
pub fn script_not_found(id: &str, probed: Vec<String>) -> (r: ConfigError)
    ensures
        r matches ConfigError::InvalidValue { detail } && detail@ == not_found_message(id@, strs(probed@)),
{
    proof {
        reveal_strlit("rule ");
        reveal_strlit(" script not found; searched ");
    }
    let sorted = sort_paths(probed);
    let unique = dedup_paths(sorted);
    let joined = join_comma(unique.as_slice());
    let a = concat("rule ", id);
    let b = concat(a.as_str(), " script not found; searched ");
    ConfigError::InvalidValue { detail: concat(b.as_str(), joined.as_str()) }
}

/// The message for a rule whose severity override names no severity.
pub open spec fn bad_severity_message(id: Seq<char>) -> Seq<char> {
    "rule "@ + id + " severity must be error|warning|info"@
}

/// Whether `e` is an error that the script check can give for rule `r`: a severity override
/// that names no severity, or a script found at none of the places searched for it.
pub open spec fn script_check_error(cfg: Config, r: RuleConfig, e: ConfigError, cwd: Option<Seq<char>>, exe_dir: Option<Seq<char>>) -> bool {
    let script = trim_spec(r.script@);
    &&& script.len() > 0
    &&& e matches ConfigError::InvalidValue { detail } && {
        ||| (r.severity matches Some(sev) && severity_of(sev@) is None && detail@ == bad_severity_message(r.id@))
        ||| detail@ == not_found_message(
            r.id@,
            if path_is_absolute(script) {
                seq![script]
            } else {
                search_paths_spec(
                    opt_str(cfg.plugin.normalized_root),
                    strs(cfg.plugin.normalized_search_paths@),
                    opt_str(cfg.plugin.config_dir),
                    script,
                    cwd,
                    exe_dir,
                )
            },
        )
    }
}

/// The places a rule's script `script` is looked for: itself when absolute, else the
/// search paths.
pub open spec fn script_probes(cfg: Config, script: Seq<char>, cwd: Option<Seq<char>>, exe_dir: Option<Seq<char>>) -> Seq<
    Seq<char>,
> {
    if path_is_absolute(script) {
        seq![script]
    } else {
        search_paths_spec(
            opt_str(cfg.plugin.normalized_root),
            strs(cfg.plugin.normalized_search_paths@),
            opt_str(cfg.plugin.config_dir),
            script,
            cwd,
            exe_dir,
        )
    }
}

/// The message of the check of rule `r`, given whether its script was found at one of the
/// places probed: none for a rule without script; else a severity override that names no
/// severity, or a script not found (never found when there is no place to probe).
pub open spec fn rule_check(cfg: Config, r: RuleConfig, found: bool, cwd: Option<Seq<char>>, exe_dir: Option<Seq<char>>) -> Option<
    Seq<char>,
> {
    let script = trim_spec(r.script@);
    if script.len() == 0 {
        None
    } else if r.severity matches Some(sev) && severity_of(sev@) is None {
        Some(bad_severity_message(r.id@))
    } else if found && script_probes(cfg, script, cwd, exe_dir).len() > 0 {
        None
    } else {
        Some(not_found_message(r.id@, script_probes(cfg, script, cwd, exe_dir)))
    }
}

/// The message of the check of each rule, given whether each script was found.
pub open spec fn rule_messages(cfg: Config, found: Seq<bool>, cwd: Option<Seq<char>>, exe_dir: Option<Seq<char>>) -> Seq<
    Option<Seq<char>>,
> {
    Seq::new(cfg.rule@.len(), |k: int| rule_check(cfg, cfg.rule@[k], found[k], cwd, exe_dir))
}

/// The message of the check of each of the first `fs.len()` rules, given whether each script
/// was found.
pub open spec fn rule_messages_prefix(cfg: Config, fs: Seq<bool>, cwd: Option<Seq<char>>, exe_dir: Option<Seq<char>>) -> Seq<
    Option<Seq<char>>,
> {
    Seq::new(fs.len(), |k: int| rule_check(cfg, cfg.rule@[k], fs[k], cwd, exe_dir))
}

/// Checking one more rule: its message follows those before it.
proof fn lemma_rule_messages_step(cfg: Config, fs: Seq<bool>, x: bool, cwd: Option<Seq<char>>, exe_dir: Option<Seq<char>>)
    ensures
        first_msg(rule_messages_prefix(cfg, fs.push(x), cwd, exe_dir)) == match first_msg(
            rule_messages_prefix(cfg, fs, cwd, exe_dir),
        ) {
            Some(m) => Some(m),
            None => rule_check(cfg, cfg.rule@[fs.len() as int], x, cwd, exe_dir),
        },
{
    assert(rule_messages_prefix(cfg, fs.push(x), cwd, exe_dir).drop_last() =~= rule_messages_prefix(
        cfg,
        fs,
        cwd,
        exe_dir,
    ));
}

/// Once a rule fails, the rules after it do not change the first message.
proof fn lemma_rule_messages_rest(cfg: Config, fs: Seq<bool>, cwd: Option<Seq<char>>, exe_dir: Option<Seq<char>>)
    requires
        fs.len() <= cfg.rule@.len(),
        first_msg(rule_messages_prefix(cfg, fs, cwd, exe_dir)) is Some,
    ensures
        ({
            let full = fs + Seq::new((cfg.rule@.len() - fs.len()) as nat, |k: int| false);
            &&& full.len() == cfg.rule@.len()
            &&& first_msg(rule_messages(cfg, full, cwd, exe_dir)) == first_msg(rule_messages_prefix(cfg, fs, cwd, exe_dir))
        }),
{
    let full = fs + Seq::new((cfg.rule@.len() - fs.len()) as nat, |k: int| false);
    let ms = rule_messages(cfg, full, cwd, exe_dir);
    assert(ms =~= rule_messages_prefix(cfg, fs, cwd, exe_dir) + ms.skip(fs.len() as int));
    lemma_first_msg_append(rule_messages_prefix(cfg, fs, cwd, exe_dir), ms.skip(fs.len() as int));
}

/// Whether something exists at one of the paths `v`; never when there is none. Which paths
/// exist is the file system's to say.
fn any_exists(v: &Vec<String>) -> (r: bool)
    ensures
        v@.len() == 0 ==> !r,
{
    let mut i: usize = 0;
    while i < v.len()
        decreases v@.len() - i,
    {
        if path_exists(v[i].as_str()) {
            return true;
        }
        i += 1;
    }
    false
}

/// Checks each rule with a script: its severity override must name a severity, and its script
/// must exist at one of the places searched for it. Which places exist is the file system's to
/// say; an error is one of those `script_check_error` describes, for one of the rules.
pub fn validate_rule_script_paths(cfg: &Config, cwd: Option<&str>, exe_dir: Option<&str>) -> (r: Result<(), ConfigError>)
    ensures
        exists|found: Seq<bool>|
            #![trigger rule_messages(*cfg, found, opt_view(cwd), opt_view(exe_dir))]
            found.len() == cfg.rule@.len() && match first_msg(rule_messages(*cfg, found, opt_view(cwd), opt_view(exe_dir))) {
                None => r is Ok,
                Some(m) => r matches Err(ConfigError::InvalidValue { detail }) && detail@ == m,
            },
        r matches Err(e) ==> exists|k: int|
            0 <= k < cfg.rule@.len() && script_check_error(
                *cfg,
                #[trigger] cfg.rule@[k],
                e,
                match cwd {
                    Some(w) => Some(w@),
                    None => None,
                },
                match exe_dir {
                    Some(x) => Some(x@),
                    None => None,
                },
            ),
{
    let ghost cw = match cwd {
        Some(w) => Some(w@),
        None => None,
    };
    let ghost ex = match exe_dir {
        Some(x) => Some(x@),
        None => None,
    };
    let ghost mut fs: Seq<bool> = Seq::empty();
    proof {
        assert(rule_messages_prefix(*cfg, fs, cw, ex) =~= Seq::<Option<Seq<char>>>::empty());
    }
    let mut i: usize = 0;
    while i < cfg.rule.len()
        invariant
            i <= cfg.rule@.len(),
            fs.len() == i,
            first_msg(rule_messages_prefix(*cfg, fs, cw, ex)) is None,
            cw == opt_view(cwd),
            ex == opt_view(exe_dir),
            cw == match cwd {
                Some(w) => Some(w@),
                None => None::<Seq<char>>,
            },
            ex == match exe_dir {
                Some(x) => Some(x@),
                None => None::<Seq<char>>,
            },
        decreases cfg.rule@.len() - i,
    {
        let rule = &cfg.rule[i];
        let script = crate::strings::trim(rule.script.as_str());
        if chars_of(script.as_str()).len() > 0 {
            if let Some(sev) = &rule.severity {
                if severity_from_str(sev.as_str()).is_none() {
                    proof {
                        reveal_strlit("rule ");
                        reveal_strlit(" severity must be error|warning|info");
                    }
                    let a = concat("rule ", rule.id.as_str());
                    let e = ConfigError::InvalidValue { detail: concat(a.as_str(), " severity must be error|warning|info") };
                    assert(script_check_error(*cfg, cfg.rule@[i as int], e, cw, ex));
                    proof {
                        lemma_rule_messages_step(*cfg, fs, false, cw, ex);
                        lemma_rule_messages_rest(*cfg, fs.push(false), cw, ex);
                        let full = fs.push(false) + Seq::new((cfg.rule@.len() - fs.len() - 1) as nat, |k: int| false);
                        assert(match first_msg(rule_messages(*cfg, full, cw, ex)) {
                            None => false,
                            Some(m) => e matches ConfigError::InvalidValue { detail } && detail@ == m,
                        });
                    }
                    return Err(e);
                }
            }
            let probed = if is_absolute(script.as_str()) {
                let mut v: Vec<String> = Vec::new();
                v.push(script.clone());
                v
            } else {
                plugin_search_paths(cfg, script.as_str(), cwd, exe_dir)
            };
            proof {
                if path_is_absolute(script@) {
                    assert(strs(probed@) =~= seq![script@]);
                }
                assert(strs(probed@) == script_probes(*cfg, script@, cw, ex));
            }
            let found = any_exists(&probed);
            proof {
                lemma_rule_messages_step(*cfg, fs, found, cw, ex);
            }
            if !found {
                proof {
                    lemma_rule_messages_rest(*cfg, fs.push(false), cw, ex);
                }
                let e = script_not_found(rule.id.as_str(), probed);
                assert(script_check_error(*cfg, cfg.rule@[i as int], e, cw, ex));
                proof {
                    let full = fs.push(false) + Seq::new((cfg.rule@.len() - fs.len() - 1) as nat, |k: int| false);
                    assert(match first_msg(rule_messages(*cfg, full, cw, ex)) {
                        None => false,
                        Some(m) => e matches ConfigError::InvalidValue { detail } && detail@ == m,
                    });
                }
                return Err(e);
            }
            proof {
                fs = fs.push(true);
            }
        } else {
            proof {
                lemma_rule_messages_step(*cfg, fs, false, cw, ex);
                fs = fs.push(false);
            }
        }
        i += 1;
    }
    proof {
        assert(rule_messages(*cfg, fs, cw, ex) =~= rule_messages_prefix(*cfg, fs, cw, ex));
    }
    Ok(())
}

} // verus!
