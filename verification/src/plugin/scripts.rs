//! Where rule scripts are found, and which rules each script runs at which stage.
use crate::config::normalize::{first_msg, lemma_first_msg_append};
use crate::config::paths::{
    is_absolute, join, opt_str, opt_view, path_exists, path_is_absolute, path_joined, strs,
};
use crate::config::types::{Config, RuleConfig};
use crate::strings::{sort_strings, str_lt, to_string};
use crate::types::{stage_name, Stage};
use vstd::prelude::*;

verus! {

/// The places a script named `rel` is looked for: under the plugin root and each search path;
/// when none is configured, under the working directory `cwd` and the directory of the
/// executable `exe_dir`, as far as they are known.
pub open spec fn search_candidates(
    root: Option<Seq<char>>,
    search: Seq<Seq<char>>,
    rel: Seq<char>,
    cwd: Option<Seq<char>>,
    exe_dir: Option<Seq<char>>,
) -> Seq<Seq<char>> {
    let a = match root {
        Some(r) => seq![path_joined(r, rel)],
        None => Seq::empty(),
    } + search.map_values(|d: Seq<char>| path_joined(d, rel));
    if a.len() > 0 {
        a
    } else {
        (match cwd {
            Some(w) => seq![path_joined(w, rel)],
            None => Seq::empty(),
        }) + (match exe_dir {
            Some(e) => seq![path_joined(e, rel)],
            None => Seq::empty(),
        })
    }
}

/// The places a script named `rel` is looked for (see `search_candidates`).
pub fn iter_search_paths(cfg: &Config, rel: &str, cwd: Option<&str>, exe_dir: Option<&str>) -> (r: Vec<String>)
    ensures
        strs(r@) == search_candidates(
            opt_str(cfg.plugin.normalized_root),
            strs(cfg.plugin.normalized_search_paths@),
            rel@,
            opt_view(cwd),
            opt_view(exe_dir),
        ),
{
    let mut out: Vec<String> = Vec::new();
    if let Some(root) = &cfg.plugin.normalized_root {
        out.push(join(root.as_str(), rel));
    }
    let ghost a = strs(out@);
    let sp = &cfg.plugin.normalized_search_paths;
    let mut i: usize = 0;
    while i < sp.len()
        invariant
            i <= sp@.len(),
            sp@ == cfg.plugin.normalized_search_paths@,
            strs(out@) == a + strs(sp@.take(i as int)).map_values(|d: Seq<char>| path_joined(d, rel@)),
        decreases sp@.len() - i,
    {
        let ghost before = strs(out@);
        out.push(join(sp[i].as_str(), rel));
        assert(strs(sp@.take(i + 1)) =~= strs(sp@.take(i as int)).push(sp@[i as int]@));
        assert(strs(out@) =~= before.push(path_joined(sp@[i as int]@, rel@)));
        assert(strs(out@) =~= a + strs(sp@.take(i + 1)).map_values(|d: Seq<char>| path_joined(d, rel@)));
        i += 1;
    }
    assert(sp@.take(sp@.len() as int) =~= sp@);
    if out.len() > 0 {
        return out;
    }
    if let Some(w) = cwd {
        out.push(join(w, rel));
    }
    if let Some(e) = exe_dir {
        out.push(join(e, rel));
    }
    proof {
        assert(strs(out@) =~= (match opt_view(cwd) {
            Some(w) => seq![path_joined(w, rel@)],
            None => Seq::empty(),
        }) + (match opt_view(exe_dir) {
            Some(e) => seq![path_joined(e, rel@)],
            None => Seq::empty(),
        }));
    }
    out
}

/// Each place looked at, present where something exists there.
pub open spec fn found_places(cands: Seq<Seq<char>>, found: Seq<bool>) -> Seq<Option<Seq<char>>> {
    Seq::new(cands.len(), |k: int| if found[k] { Some(cands[k]) } else { None })
}

/// The path a script `s` is run from, given whether something exists at `s` (`at_s`) and at
/// each place looked at (`found`): `s` itself when it is absolute and exists, else the first
/// place where something exists, else `s` as given.
pub open spec fn script_path_choice(s: Seq<char>, at_s: bool, cands: Seq<Seq<char>>, found: Seq<bool>) -> Seq<char> {
    if path_is_absolute(s) && at_s {
        s
    } else {
        match first_msg(found_places(cands, found)) {
            Some(p) => p,
            None => s,
        }
    }
}

/// Whether `r` is the path script `s` is run from for some outcome of looking at `s` and at
/// the places of `search_candidates`.
pub open spec fn is_script_resolution(
    cfg: Config,
    s: Seq<char>,
    cwd: Option<Seq<char>>,
    exe_dir: Option<Seq<char>>,
    r: Seq<char>,
) -> bool {
    let cands = search_candidates(
        opt_str(cfg.plugin.normalized_root),
        strs(cfg.plugin.normalized_search_paths@),
        s,
        cwd,
        exe_dir,
    );
    exists|at_s: bool, found: Seq<bool>|
        #![trigger script_path_choice(s, at_s, cands, found)]
        found.len() == cands.len() && r == script_path_choice(s, at_s, cands, found)
}

/// The path a script is run from: `s` itself when it is absolute and exists, else the first
/// of the places of `iter_search_paths` where something exists, else `s` as given. What
/// exists is the file system's to say; the result is `script_path_choice` for what was found.
pub fn resolve_script_path(cfg: &Config, s: &str, cwd: Option<&str>, exe_dir: Option<&str>) -> (r: String)
    ensures
        is_script_resolution(*cfg, s@, opt_view(cwd), opt_view(exe_dir), r@),
{
    let ghost sc = search_candidates(
        opt_str(cfg.plugin.normalized_root),
        strs(cfg.plugin.normalized_search_paths@),
        s@,
        opt_view(cwd),
        opt_view(exe_dir),
    );
    if is_absolute(s) && path_exists(s) {
        let r = to_string(s);
        assert(r@ == script_path_choice(s@, true, sc, Seq::new(sc.len(), |k: int| false)));
        return r;
    }
    let cands = iter_search_paths(cfg, s, cwd, exe_dir);
    let ghost mut seen: Seq<bool> = Seq::empty();
    proof {
        assert(found_places(sc.take(0), seen) =~= Seq::<Option<Seq<char>>>::empty());
    }
    let mut i: usize = 0;
    while i < cands.len()
        invariant
            strs(cands@) == sc,
            sc == search_candidates(
                opt_str(cfg.plugin.normalized_root),
                strs(cfg.plugin.normalized_search_paths@),
                s@,
                opt_view(cwd),
                opt_view(exe_dir),
            ),
            i <= cands@.len(),
            seen.len() == i,
            first_msg(found_places(sc.take(i as int), seen)) is None,
        decreases cands@.len() - i,
    {
        let e = path_exists(cands[i].as_str());
        let ghost prev = seen;
        proof {
            seen = seen.push(e);
            assert(found_places(sc.take(i + 1), seen).drop_last() =~= found_places(sc.take(i as int), prev));
        }
        if e {
            let r = cands[i].clone();
            proof {
                assert(strs(cands@)[i as int] == r@);
                let full = seen + Seq::new((sc.len() - seen.len()) as nat, |k: int| false);
                let fp = found_places(sc, full);
                assert(fp =~= found_places(sc.take(i + 1), seen) + fp.skip(i + 1));
                lemma_first_msg_append(found_places(sc.take(i + 1), seen), fp.skip(i + 1));
                assert(r@ == script_path_choice(s@, false, sc, full));
            }
            return r;
        }
        i += 1;
    }
    proof {
        assert(sc.take(seen.len() as int) =~= sc);
    }
    let r = to_string(s);
    assert(r@ == script_path_choice(s@, false, sc, seen));
    r
}

/// The rules one script runs: the stages it serves (by name, sorted) and, for each of them,
/// the ids of its rules there (sorted).
#[derive(Clone, Debug)]
pub struct ScriptSpec {
    pub path: String,
    pub stages: Vec<String>,
    pub stage_rules: Vec<(String, Vec<String>)>,
}

/// The distinct paths of `ps`, in the order of first occurrence.
pub open spec fn distinct_paths(ps: Seq<Seq<char>>) -> Seq<Seq<char>>
    decreases ps.len(),
{
    if ps.len() == 0 {
        Seq::empty()
    } else {
        let p = distinct_paths(ps.drop_last());
        if p.contains(ps.last()) {
            p
        } else {
            p.push(ps.last())
        }
    }
}

/// Whether some rule at path `p` runs at stage `s`.
pub open spec fn serves(rules: Seq<RuleConfig>, ps: Seq<Seq<char>>, p: Seq<char>, s: Stage) -> bool {
    exists|i: int| 0 <= i < rules.len() && ps[i] == p && #[trigger] rules[i].stage == Some(s)
}

/// `seq![s]` when `b`, else nothing.
pub open spec fn if_served(b: bool, s: Stage) -> Seq<Stage> {
    if b {
        seq![s]
    } else {
        Seq::empty()
    }
}

/// The stages served at path `p`, in the order of their names (`ast`, `cst`, `pp_text`, `raw_text`).
pub open spec fn served_stages(rules: Seq<RuleConfig>, ps: Seq<Seq<char>>, p: Seq<char>) -> Seq<Stage> {
    if_served(serves(rules, ps, p, Stage::Ast), Stage::Ast) + if_served(serves(rules, ps, p, Stage::Cst), Stage::Cst)
        + if_served(serves(rules, ps, p, Stage::PpText), Stage::PpText) + if_served(
        serves(rules, ps, p, Stage::RawText),
        Stage::RawText,
    )
}

/// The ids of the rules at path `p` and stage `s`, in configuration order.
pub open spec fn ids_at(rules: Seq<RuleConfig>, ps: Seq<Seq<char>>, p: Seq<char>, s: Stage) -> Seq<Seq<char>>
    decreases rules.len(),
{
    if rules.len() == 0 || ps.len() < rules.len() {
        Seq::empty()
    } else {
        let n = rules.len() - 1;
        let prev = ids_at(rules.drop_last(), ps.take(n), p, s);
        if ps[n] == p && rules[n].stage == Some(s) {
            prev.push(rules[n].id@)
        } else {
            prev
        }
    }
}

/// Whether `spec` describes the rules run from path `p`.
pub open spec fn is_script_spec(spec: ScriptSpec, rules: Seq<RuleConfig>, ps: Seq<Seq<char>>, p: Seq<char>) -> bool {
    let st = served_stages(rules, ps, p);
    &&& spec.path@ == p
    &&& strs(spec.stages@) == st.map_values(|s: Stage| stage_name(s))
    &&& spec.stage_rules@.len() == st.len()
    &&& forall|k: int|
        0 <= k < st.len() ==> {
            let e = #[trigger] spec.stage_rules@[k];
            &&& e.0@ == stage_name(st[k])
            &&& strs(e.1@).to_multiset() == ids_at(rules, ps, p, st[k]).to_multiset()
            &&& forall|i: int, j: int| 0 <= i < j < e.1@.len() ==> !str_lt(#[trigger] e.1@[j]@, #[trigger] e.1@[i]@)
        }
}

/// A path has rule ids at a stage exactly when some rule there serves that stage.
proof fn lemma_ids_nonempty(rules: Seq<RuleConfig>, ps: Seq<Seq<char>>, p: Seq<char>, s: Stage)
    requires
        ps.len() == rules.len(),
    ensures
        ids_at(rules, ps, p, s).len() > 0 <==> serves(rules, ps, p, s),
    decreases rules.len(),
{
    if rules.len() > 0 {
        let n = rules.len() - 1;
        lemma_ids_nonempty(rules.drop_last(), ps.take(n), p, s);
        if serves(rules, ps, p, s) && !(ps[n] == p && rules[n].stage == Some(s)) {
            let i = choose|i: int| 0 <= i < rules.len() && ps[i] == p && #[trigger] rules[i].stage == Some(s);
            assert(rules.drop_last()[i] == rules[i]);
            assert(ps.take(n)[i] == ps[i]);
        }
        if serves(rules.drop_last(), ps.take(n), p, s) {
            let i = choose|i: int| 0 <= i < n && ps.take(n)[i] == p && #[trigger] rules.drop_last()[i].stage == Some(s);
            assert(rules[i].stage == Some(s));
        }
    }
}

/// The ids of the rules at path `p` and stage `s`, in configuration order.
fn collect_ids(rules: &Vec<RuleConfig>, paths: &Vec<String>, p: &String, s: Stage) -> (r: Vec<String>)
    requires
        paths@.len() == rules@.len(),
    ensures
        strs(r@) == ids_at(rules@, strs(paths@), p@, s),
{
    let ghost ps = strs(paths@);
    let mut out: Vec<String> = Vec::new();
    let mut i: usize = 0;
    while i < rules.len()
        invariant
            i <= rules@.len(),
            paths@.len() == rules@.len(),
            ps == strs(paths@),
            strs(out@) == ids_at(rules@.take(i as int), ps.take(i as int), p@, s),
        decreases rules@.len() - i,
    {
        assert(rules@.take(i + 1).drop_last() =~= rules@.take(i as int));
        assert(ps.take(i + 1).take(i as int) =~= ps.take(i as int));
        if paths[i] == *p && rules[i].stage == Some(s) {
            let ghost before = strs(out@);
            out.push(rules[i].id.clone());
            assert(strs(out@) =~= before.push(rules@[i as int].id@));
        }
        i += 1;
    }
    assert(rules@.take(rules@.len() as int) =~= rules@);
    assert(ps.take(rules@.len() as int) =~= ps);
    out
}

/// The rules run from path `p` (see `is_script_spec`).
fn build_spec(rules: &Vec<RuleConfig>, paths: &Vec<String>, p: &String) -> (r: ScriptSpec)
    requires
        paths@.len() == rules@.len(),
    ensures
        is_script_spec(r, rules@, strs(paths@), p@),
{
    let ghost ps = strs(paths@);
    let order: [Stage; 4] = [Stage::Ast, Stage::Cst, Stage::PpText, Stage::RawText];
    let mut stages: Vec<String> = Vec::new();
    let mut stage_rules: Vec<(String, Vec<String>)> = Vec::new();
    let ghost mut st: Seq<Stage> = Seq::empty();
    let mut k: usize = 0;
    while k < 4
        invariant
            k <= 4,
            paths@.len() == rules@.len(),
            ps == strs(paths@),
            order@ == seq![Stage::Ast, Stage::Cst, Stage::PpText, Stage::RawText],
            st == (if k >= 1 { if_served(serves(rules@, ps, p@, Stage::Ast), Stage::Ast) } else { Seq::empty() }) + (if k
                >= 2 {
                if_served(serves(rules@, ps, p@, Stage::Cst), Stage::Cst)
            } else {
                Seq::empty()
            }) + (if k >= 3 {
                if_served(serves(rules@, ps, p@, Stage::PpText), Stage::PpText)
            } else {
                Seq::empty()
            }) + (if k >= 4 {
                if_served(serves(rules@, ps, p@, Stage::RawText), Stage::RawText)
            } else {
                Seq::empty()
            }),
            strs(stages@) == st.map_values(|s: Stage| stage_name(s)),
            stage_rules@.len() == st.len(),
            forall|j: int|
                0 <= j < st.len() ==> {
                    let e = #[trigger] stage_rules@[j];
                    &&& e.0@ == stage_name(st[j])
                    &&& strs(e.1@).to_multiset() == ids_at(rules@, ps, p@, st[j]).to_multiset()
                    &&& forall|a: int, b: int| 0 <= a < b < e.1@.len() ==> !str_lt(#[trigger] e.1@[b]@, #[trigger] e.1@[a]@)
                },
        decreases 4 - k,
    {
        let s = order[k];
        let ids = collect_ids(rules, paths, p, s);
        proof {
            lemma_ids_nonempty(rules@, ps, p@, s);
        }
        let ghost st0 = st;
        if ids.len() > 0 {
            let sorted = sort_strings(ids);
            let name = to_string(s.as_str());
            let ghost before = strs(stages@);
            stages.push(to_string(s.as_str()));
            stage_rules.push((name, sorted));
            proof {
                st = st.push(s);
                assert(strs(stages@) =~= before.push(stage_name(s)));
                assert(st.map_values(|s: Stage| stage_name(s)) =~= st0.map_values(|s: Stage| stage_name(s)).push(stage_name(s)));
            }
        }
        proof {
            assert(st =~= (if k + 1 >= 1 { if_served(serves(rules@, ps, p@, Stage::Ast), Stage::Ast) } else { Seq::empty() }) + (if k + 1
                >= 2 {
                if_served(serves(rules@, ps, p@, Stage::Cst), Stage::Cst)
            } else {
                Seq::empty()
            }) + (if k + 1 >= 3 {
                if_served(serves(rules@, ps, p@, Stage::PpText), Stage::PpText)
            } else {
                Seq::empty()
            }) + (if k + 1 >= 4 {
                if_served(serves(rules@, ps, p@, Stage::RawText), Stage::RawText)
            } else {
                Seq::empty()
            }));
        }
        k += 1;
    }
    ScriptSpec { path: p.clone(), stages, stage_rules }
}

/// The scripts of the rules, given the path each rule's script is run from (`paths[i]` for
/// `rules[i]`): one spec per distinct path, in the order of first use.
pub fn group_script_specs(rules: &Vec<RuleConfig>, paths: &Vec<String>) -> (r: Vec<ScriptSpec>)
    requires
        paths@.len() == rules@.len(),
    ensures
        r@.len() == distinct_paths(strs(paths@)).len(),
        forall|k: int|
            0 <= k < r@.len() ==> is_script_spec(#[trigger] r@[k], rules@, strs(paths@), distinct_paths(strs(paths@))[k]),
{
    let ghost ps = strs(paths@);
    let mut order: Vec<String> = Vec::new();
    let mut i: usize = 0;
    while i < paths.len()
        invariant
            i <= paths@.len(),
            ps == strs(paths@),
            strs(order@) == distinct_paths(ps.take(i as int)),
        decreases paths@.len() - i,
    {
        assert(ps.take(i + 1).drop_last() =~= ps.take(i as int));
        let mut found = false;
        let mut j: usize = 0;
        while j < order.len()
            invariant
                j <= order@.len(),
                found == exists|x: int| 0 <= x < j && #[trigger] order@[x]@ == paths@[i as int]@,
                i < paths@.len(),
            decreases order@.len() - j,
        {
            if order[j] == paths[i] {
                found = true;
            }
            j += 1;
        }
        proof {
            if found {
                let x = choose|x: int| 0 <= x < order@.len() && #[trigger] order@[x]@ == paths@[i as int]@;
                assert(strs(order@)[x] == ps[i as int]);
            }
            if strs(order@).contains(ps[i as int]) {
                let x = choose|x: int| 0 <= x < strs(order@).len() && strs(order@)[x] == ps[i as int];
                assert(order@[x]@ == paths@[i as int]@);
            }
        }
        if !found {
            let ghost before = strs(order@);
            order.push(paths[i].clone());
            assert(strs(order@) =~= before.push(ps[i as int]));
        }
        i += 1;
    }
    assert(ps.take(paths@.len() as int) =~= ps);
    let mut out: Vec<ScriptSpec> = Vec::new();
    let mut k: usize = 0;
    while k < order.len()
        invariant
            k <= order@.len(),
            paths@.len() == rules@.len(),
            ps == strs(paths@),
            strs(order@) == distinct_paths(ps),
            out@.len() == k,
            forall|x: int| 0 <= x < k ==> is_script_spec(#[trigger] out@[x], rules@, ps, distinct_paths(ps)[x]),
        decreases order@.len() - k,
    {
        let sp = build_spec(rules, paths, &order[k]);
        assert(strs(order@)[k as int] == order@[k as int]@);
        out.push(sp);
        k += 1;
    }
    out
}

/// The scripts of the configured rules, with the path each script is run from resolved as
/// `resolve_script_path` does: one spec per distinct path, in the order of first use.
pub fn collect_script_specs(cfg: &Config, cwd: Option<&str>, exe_dir: Option<&str>) -> (r: Vec<ScriptSpec>)
    ensures
        exists|paths: Seq<Seq<char>>|
            #![trigger distinct_paths(paths)]
            paths.len() == cfg.rule@.len() && (forall|j: int|
                0 <= j < paths.len() ==> is_script_resolution(
                    *cfg,
                    cfg.rule@[j].script@,
                    opt_view(cwd),
                    opt_view(exe_dir),
                    #[trigger] paths[j],
                )) && r@.len() == distinct_paths(paths).len() && forall|k: int|
                0 <= k < r@.len() ==> is_script_spec(#[trigger] r@[k], cfg.rule@, paths, distinct_paths(paths)[k]),
{
    let mut paths: Vec<String> = Vec::new();
    let mut i: usize = 0;
    while i < cfg.rule.len()
        invariant
            i <= cfg.rule@.len(),
            paths@.len() == i,
            forall|j: int|
                0 <= j < i ==> is_script_resolution(
                    *cfg,
                    cfg.rule@[j].script@,
                    opt_view(cwd),
                    opt_view(exe_dir),
                    #[trigger] strs(paths@)[j],
                ),
        decreases cfg.rule@.len() - i,
    {
        let p = resolve_script_path(cfg, cfg.rule[i].script.as_str(), cwd, exe_dir);
        let ghost before = paths@;
        paths.push(p);
        proof {
            assert forall|j: int| 0 <= j < i + 1 implies is_script_resolution(
                *cfg,
                cfg.rule@[j].script@,
                opt_view(cwd),
                opt_view(exe_dir),
                #[trigger] strs(paths@)[j],
            ) by {
                if j < i {
                    assert(strs(paths@)[j] == strs(before)[j]);
                }
            }
        }
        i += 1;
    }
    let r = group_script_specs(&cfg.rule, &paths);
    assert(distinct_paths(strs(paths@)).len() == r@.len());
    r
}

} // verus!
