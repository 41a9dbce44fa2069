//! Paths of the configuration: plugin search paths and the configuration file itself.
//!
//! Path syntax (components, separators, what is absolute) is the standard library's; the
//! functions here name its results and build the search logic on them. Path syntax is fixed
//! for the target the crate is built for (the separators and prefixes of that platform), so
//! each name below is a function of its arguments for a given build; what a path names on
//! disk is never part of it.
use super::types::Config;
use crate::errors::{config_error_text, ConfigError};
use crate::strings::to_string;
use vstd::prelude::*;

verus! {

/// The name of the last component of path `p`, if it has one (`Path::file_name`).
pub uninterp spec fn path_file_name(p: Seq<char>) -> Option<Seq<char>>;

/// The extension of the last component of path `p`, if it has one (`Path::extension`).
pub uninterp spec fn path_extension(p: Seq<char>) -> Option<Seq<char>>;

/// The last component of path `p` without its extension, if it has one (`Path::file_stem`).
pub uninterp spec fn path_file_stem(p: Seq<char>) -> Option<Seq<char>>;

/// Whether path `p` is absolute (`Path::is_absolute`).
pub uninterp spec fn path_is_absolute(p: Seq<char>) -> bool;

/// Path `rel` joined onto `base` (`Path::join`): `rel` itself when it is absolute.
pub uninterp spec fn path_joined(base: Seq<char>, rel: Seq<char>) -> Seq<char>;

/// Whether two paths have the same components (`Path`'s `==`).
pub uninterp spec fn paths_equal(a: Seq<char>, b: Seq<char>) -> bool;

/// The paths in the order of their components (`<[PathBuf]>::sort`).
pub uninterp spec fn paths_sorted(v: Seq<Seq<char>>) -> Seq<Seq<char>>;

/// The optional string as plain values.
pub open spec fn opt_str(o: Option<String>) -> Option<Seq<char>> {
    match o {
        Some(s) => Some(s@),
        None => None,
    }
}

/// The optional string as plain values.
pub open spec fn opt_view(o: Option<&str>) -> Option<Seq<char>> {
    match o {
        Some(s) => Some(s@),
        None => None,
    }
}

/// The character sequences of a list of strings.
pub open spec fn strs(v: Seq<String>) -> Seq<Seq<char>> {
    v.map_values(|s: String| s@)
}

/// `std::path::Path::file_name`, as a string: the name of the last component, if any.
#[verifier::external_body]
pub(crate) fn file_name(p: &str) -> (r: Option<String>)
    ensures
        opt_str(r) == path_file_name(p@),
{
    std::path::Path::new(p).file_name().and_then(|s| s.to_str()).map(|s| s.to_string())
}

/// `std::path::Path::extension`, as a string.
#[verifier::external_body]
pub(crate) fn extension(p: &str) -> (r: Option<String>)
    ensures
        opt_str(r) == path_extension(p@),
{
    std::path::Path::new(p).extension().and_then(|s| s.to_str()).map(|s| s.to_string())
}

/// `std::path::Path::file_stem`, as a string.
#[verifier::external_body]
pub(crate) fn file_stem(p: &str) -> (r: Option<String>)
    ensures
        opt_str(r) == path_file_stem(p@),
{
    std::path::Path::new(p).file_stem().and_then(|s| s.to_str()).map(|s| s.to_string())
}

/// `std::path::Path::is_absolute`.
#[verifier::external_body]
pub(crate) fn is_absolute(p: &str) -> (r: bool)
    ensures
        r == path_is_absolute(p@),
{
    std::path::Path::new(p).is_absolute()
}

/// `std::path::Path::join`, as a string.
#[verifier::external_body]
pub(crate) fn join(base: &str, rel: &str) -> (r: String)
    ensures
        r@ == path_joined(base@, rel@),
{
    std::path::Path::new(base).join(rel).to_string_lossy().into_owned()
}

/// `Path`'s `==`: whether two paths have the same components. `Path` is `Eq`, so a path
/// equals itself.
#[verifier::external_body]
pub(crate) fn same_path(a: &str, b: &str) -> (r: bool)
    ensures
        r == paths_equal(a@, b@),
        a@ == b@ ==> r,
{
    std::path::Path::new(a) == std::path::Path::new(b)
}

/// `<[PathBuf]>::sort` over the given paths.
#[verifier::external_body]
pub(crate) fn sort_paths(v: Vec<String>) -> (r: Vec<String>)
    ensures
        strs(r@) == paths_sorted(strs(v@)),
{
    let mut p: Vec<std::path::PathBuf> = v.into_iter().map(std::path::PathBuf::from).collect();
    p.sort();
    p.into_iter().map(|x| x.to_string_lossy().into_owned()).collect()
}

/// `std::path::Path::exists`: whether something is at path `p` now. What it returns depends
/// on the file system, so nothing is stated of it.
#[verifier::external_body]
pub(crate) fn path_exists(p: &str) -> bool {
    std::path::Path::new(p).exists()
}

/// What is at a path.
#[derive(Clone, Copy, Debug, PartialEq, Eq, Structural)]
pub enum DirState {
    Missing,
    NotDir,
    Dir,
}

/// `std::path::Path::is_dir`: whether a directory is at path `p` now. What it returns depends
/// on the file system, so nothing is stated of it.
#[verifier::external_body]
pub(crate) fn path_is_dir(p: &str) -> bool {
    std::path::Path::new(p).is_dir()
}

/// What is at a path, given whether something exists there and whether it is a directory.
pub open spec fn dir_state_spec(exists: bool, is_dir: bool) -> DirState {
    if !exists {
        DirState::Missing
    } else if is_dir {
        DirState::Dir
    } else {
        DirState::NotDir
    }
}

/// What is at a path, given whether something exists there and whether it is a directory.
pub fn dir_state_of(exists: bool, is_dir: bool) -> (r: DirState)
    ensures
        r == dir_state_spec(exists, is_dir),
{
    if !exists {
        DirState::Missing
    } else if is_dir {
        DirState::Dir
    } else {
        DirState::NotDir
    }
}

/// What is at path `p` now: nothing, something other than a directory, or a directory
/// (`dir_state_of` of what `path_exists` and, when something exists, `path_is_dir` say).
pub fn dir_state(p: &str) -> DirState {
    let exists = path_exists(p);
    let is_dir = if exists { path_is_dir(p) } else { false };
    dir_state_of(exists, is_dir)
}

/// `rel` made absolute against `base`: `rel` itself when it is absolute, else `base` joined with it.
pub open spec fn to_abs_spec(base: Seq<char>, rel: Seq<char>) -> Seq<char> {
    if path_is_absolute(rel) {
        rel
    } else {
        path_joined(base, rel)
    }
}

/// `rel` made absolute against `base`.
pub fn to_abs(base: &str, rel: &str) -> (r: String)
    ensures
        r@ == to_abs_spec(base@, rel@),
{
    if is_absolute(rel) {
        to_string(rel)
    } else {
        join(base, rel)
    }
}

/// Whether a path equal to `p` is in `v`.
pub open spec fn has_path(v: Seq<Seq<char>>, p: Seq<char>) -> bool {
    exists|i: int| 0 <= i < v.len() && paths_equal(#[trigger] v[i], p)
}

/// `out` with `p` added unless an equal path is already there.
pub open spec fn push_unique_spec(out: Seq<Seq<char>>, p: Seq<char>) -> Seq<Seq<char>> {
    if has_path(out, p) {
        out
    } else {
        out.push(p)
    }
}

/// Adds `p` to `out` unless an equal path is already there.
pub fn push_unique(out: &mut Vec<String>, p: String)
    ensures
        strs(final(out)@) == push_unique_spec(strs(old(out)@), p@),
        strs(old(out)@).contains(p@) ==> strs(final(out)@) == strs(old(out)@),
{
    let ghost o = strs(out@);
    let mut i: usize = 0;
    while i < out.len()
        invariant
            i <= out@.len(),
            o == strs(out@),
            forall|k: int| 0 <= k < i ==> !paths_equal(#[trigger] o[k], p@),
            forall|k: int| 0 <= k < i ==> #[trigger] o[k] != p@,
        decreases out@.len() - i,
    {
        if same_path(out[i].as_str(), p.as_str()) {
            assert(paths_equal(o[i as int], p@));
            return ;
        }
        i += 1;
    }
    out.push(p);
    assert(strs(out@) =~= o.push(p@));
}

/// The places where a script named `rel` is looked for: under the plugin root, under each
/// search path, and, when neither is configured, under `plugins` beside the configuration
/// file; when that gives nothing, under the working directory `cwd` and the directory of the
/// executable `exe_dir`, as far as they are known. Equal paths are listed once.
pub open spec fn search_paths_spec(
    root: Option<Seq<char>>,
    search: Seq<Seq<char>>,
    config_dir: Option<Seq<char>>,
    rel: Seq<char>,
    cwd: Option<Seq<char>>,
    exe_dir: Option<Seq<char>>,
) -> Seq<Seq<char>> {
    let has_user_roots = root is Some || search.len() > 0;
    let a = match root {
        Some(r) => push_unique_spec(Seq::empty(), path_joined(r, rel)),
        None => Seq::empty(),
    };
    let b = push_all_joined(a, search, rel);
    let c = if !has_user_roots && config_dir is Some {
        push_unique_spec(b, path_joined(path_joined(config_dir->0, "plugins"@), rel))
    } else {
        b
    };
    if c.len() > 0 {
        c
    } else {
        let d = match cwd {
            Some(w) => push_unique_spec(c, path_joined(w, rel)),
            None => c,
        };
        match exe_dir {
            Some(e) => push_unique_spec(d, path_joined(e, rel)),
            None => d,
        }
    }
}

/// `out` with each of `dirs` joined with `rel` added in turn, unless already there.
pub open spec fn push_all_joined(out: Seq<Seq<char>>, dirs: Seq<Seq<char>>, rel: Seq<char>) -> Seq<Seq<char>>
    decreases dirs.len(),
{
    if dirs.len() == 0 {
        out
    } else {
        push_unique_spec(push_all_joined(out, dirs.drop_last(), rel), path_joined(dirs.last(), rel))
    }
}

/// The places where a script named `rel` is looked for (see `search_paths_spec`); `cwd` and
/// `exe_dir` are the working directory and the executable's directory, where they are known.
pub fn plugin_search_paths(cfg: &Config, rel: &str, cwd: Option<&str>, exe_dir: Option<&str>) -> (r: Vec<String>)
    ensures
        strs(r@) == search_paths_spec(
            opt_str(cfg.plugin.normalized_root),
            strs(cfg.plugin.normalized_search_paths@),
            opt_str(cfg.plugin.config_dir),
            rel@,
            match cwd {
                Some(w) => Some(w@),
                None => None,
            },
            match exe_dir {
                Some(e) => Some(e@),
                None => None,
            },
        ),
{
    let mut out: Vec<String> = Vec::new();
    let has_user_roots = cfg.plugin.normalized_root.is_some() || cfg.plugin.normalized_search_paths.len() > 0;
    assert(strs(out@) =~= Seq::<Seq<char>>::empty());
    if let Some(root) = &cfg.plugin.normalized_root {
        push_unique(&mut out, join(root.as_str(), rel));
    }
    let ghost a = strs(out@);
    let sp = &cfg.plugin.normalized_search_paths;
    let mut i: usize = 0;
    while i < sp.len()
        invariant
            i <= sp@.len(),
            sp@ == cfg.plugin.normalized_search_paths@,
            has_user_roots == (cfg.plugin.normalized_root is Some || sp@.len() > 0),
            a == match opt_str(cfg.plugin.normalized_root) {
                Some(r) => push_unique_spec(Seq::empty(), path_joined(r, rel@)),
                None => Seq::empty(),
            },
            strs(out@) == push_all_joined(a, strs(sp@.take(i as int)), rel@),
        decreases sp@.len() - i,
    {
        assert(strs(sp@.take(i + 1)).drop_last() =~= strs(sp@.take(i as int)));
        push_unique(&mut out, join(sp[i].as_str(), rel));
        i += 1;
    }
    assert(sp@.take(sp@.len() as int) =~= sp@);
    proof {
        reveal_strlit("plugins");
    }
    if !has_user_roots {
        if let Some(config_dir) = &cfg.plugin.config_dir {
            let plugins = join(config_dir.as_str(), "plugins");
            push_unique(&mut out, join(plugins.as_str(), rel));
        }
    }
    if out.len() > 0 {
        return out;
    }
    if let Some(w) = cwd {
        push_unique(&mut out, join(w, rel));
    }
    if let Some(e) = exe_dir {
        push_unique(&mut out, join(e, rel));
    }
    out
}

/// The configuration file that is looked for when none is given.
pub open spec fn default_config_name() -> Seq<char> {
    "sv-mint.toml"@
}

/// The configuration file to use: the one given, or the default name.
pub open spec fn config_candidate(opt: Option<Seq<char>>) -> Seq<char> {
    match opt {
        Some(p) => p,
        None => default_config_name(),
    }
}

/// The configuration file to look for: the path given, or `sv-mint.toml`.
pub fn config_candidate_of(opt: Option<String>) -> (r: String)
    ensures
        r@ == config_candidate(opt_str(opt)),
{
    match opt {
        Some(p) => p,
        None => {
            proof {
                reveal_strlit("sv-mint.toml");
            }
            to_string("sv-mint.toml")
        },
    }
}

/// The error of a configuration file that is not there: `--config`'s own error when the path
/// was given, else the plain not-found error.
pub open spec fn config_missing(given: bool, candidate: Seq<char>, e: ConfigError) -> bool {
    if given {
        e matches ConfigError::GivenNotFound { path } && path@ == candidate
    } else {
        e matches ConfigError::NotFound { path } && path@ == candidate
    }
}

/// The configuration path given whether something exists at the candidate and whether it was
/// given by `--config`: the candidate, or the not-found error naming it.
pub fn check_config_path(candidate: String, found: bool, given: bool) -> (r: Result<String, ConfigError>)
    ensures
        found ==> (r matches Ok(p) && p@ == candidate@),
        !found ==> (r matches Err(e) && config_missing(given, candidate@, e)),
{
    if found {
        Ok(candidate)
    } else if given {
        Err(ConfigError::GivenNotFound { path: candidate })
    } else {
        Err(ConfigError::NotFound { path: candidate })
    }
}

/// The configuration file: the path given or `sv-mint.toml` (see `config_candidate_of`), if
/// something exists there; else a not-found error naming it, which for a path given by
/// `--config` says so. Whether something exists at the candidate is the file system's to say.
pub fn resolve_path(opt: Option<String>) -> (r: Result<String, ConfigError>)
    ensures
        r matches Ok(p) ==> p@ == config_candidate(opt_str(opt)),
        r matches Err(e) ==> config_missing(opt is Some, config_candidate(opt_str(opt)), e),
        r matches Err(e) ==> config_error_text(e) == (if opt is Some {
            "config not found (from --config): "@
        } else {
            "config not found: "@
        }) + config_candidate(opt_str(opt)),
{
    let given = opt.is_some();
    let candidate = config_candidate_of(opt);
    let found = path_exists(candidate.as_str());
    check_config_path(candidate, found, given)
}

} // verus!
