//! Filelists: the files, include directories and defines they list, and the `-f` lists they
//! include. Reading the lists is left to the caller; [`FilelistLoader`] takes their lines.
use crate::config::paths::{has_path, opt_str, same_path, strs, to_abs, to_abs_spec};
use crate::errors::ConfigError;
use crate::strings::{
    chars_of, concat, decimal, decimal_string, has_prefix, is_whitespace, is_ws, push_char, starts_with, str_eq,
    split_char, split_on, string_of_range, to_string, trim, trim_spec,
};
use vstd::prelude::*;

verus! {

/// What the filelists list.
#[derive(Clone, Debug)]
pub struct FilelistLoad {
    pub files: Vec<String>,
    pub incdirs: Vec<String>,
    pub defines: Vec<String>,
}

/// The pieces of `s` between `'+'` characters (what `str::split('+')` gives).
pub open spec fn split_plus(s: Seq<char>) -> Seq<Seq<char>> {
    split_on(s, '+')
}

/// The pieces of `s` between `'+'` characters.
pub fn split_plus_exec(s: &str) -> (r: Vec<String>)
    ensures
        strs(r@) == split_plus(s@),
{
    split_char(s, '+')
}

/// The maximal runs of characters that are not white space (what `str::split_whitespace` gives).
pub open spec fn ws_tokens(s: Seq<char>) -> Seq<Seq<char>>
    decreases s.len(),
{
    if s.len() == 0 {
        Seq::empty()
    } else {
        let p = ws_tokens(s.drop_last());
        let c = s.last();
        if is_ws(c) {
            p
        } else if s.len() >= 2 && !is_ws(s[s.len() - 2]) && p.len() > 0 {
            p.update(p.len() - 1, p.last().push(c))
        } else {
            p.push(seq![c])
        }
    }
}

/// The maximal runs of characters of `s` that are not white space.
pub fn split_whitespace(s: &str) -> (r: Vec<String>)
    ensures
        strs(r@) == ws_tokens(s@),
{
    let v = chars_of(s);
    let mut done: Vec<String> = Vec::new();
    let mut cur = String::new();
    let mut has_cur = false;
    let mut i: usize = 0;
    while i < v.len()
        invariant
            i <= v@.len(),
            v@ == s@,
            has_cur == (cur@.len() > 0),
            cur@.len() > 0 <==> (i > 0 && !is_ws(s@[i - 1])),
            ws_tokens(s@.take(i as int)) == if cur@.len() > 0 {
                strs(done@).push(cur@)
            } else {
                strs(done@)
            },
        decreases v@.len() - i,
    {
        let ghost t = s@.take(i + 1);
        assert(t.drop_last() =~= s@.take(i as int));
        let c = v[i];
        if is_whitespace(c) {
            if has_cur {
                let ghost before = strs(done@);
                let finished = cur;
                done.push(finished);
                cur = String::new();
                has_cur = false;
                assert(strs(done@) =~= before.push(strs(done@).last()));
            }
        } else {
            let ghost old_cur = cur@;
            let ghost p = ws_tokens(s@.take(i as int));
            push_char(&mut cur, c);
            has_cur = true;
            if i > 0 {
                assert(t[t.len() - 2] == s@[i - 1]);
            }
            proof {
                assert(t.last() == c);
                assert(!is_ws(c));
                if old_cur.len() > 0 {
                    assert(p == strs(done@).push(old_cur));
                    assert(ws_tokens(t) == p.update(p.len() - 1, p.last().push(c)));
                } else {
                    assert(ws_tokens(t) == p.push(seq![c]));
                }
            }
            assert(ws_tokens(t) =~~= strs(done@).push(cur@));
        }
        i += 1;
    }
    assert(s@.take(s@.len() as int) =~= s@);
    if has_cur {
        done.push(cur);
    }
    done
}

/// The trimmed, non-empty pieces of `s` between `'+'` characters.
pub open spec fn plus_values(s: Seq<char>) -> Seq<Seq<char>> {
    split_plus(s).map_values(|x: Seq<char>| trim_spec(x)).filter(|x: Seq<char>| x.len() > 0)
}

/// The trimmed, non-empty pieces of `s` between `'+'` characters.
fn plus_values_exec(s: &str) -> (r: Vec<String>)
    ensures
        strs(r@) == plus_values(s@),
{
    let pieces = split_plus_exec(s);
    let ghost tp = strs(pieces@).map_values(|x: Seq<char>| trim_spec(x));
    let mut out: Vec<String> = Vec::new();
    let mut i: usize = 0;
    while i < pieces.len()
        invariant
            i <= pieces@.len(),
            tp == strs(pieces@).map_values(|x: Seq<char>| trim_spec(x)),
            strs(out@) == tp.take(i as int).filter(|x: Seq<char>| x.len() > 0),
        decreases pieces@.len() - i,
    {
        proof {
            assert(tp.take(i + 1).drop_last() =~= tp.take(i as int));
            reveal(Seq::filter);
        }
        let val = trim(pieces[i].as_str());
        if chars_of(val.as_str()).len() > 0 {
            let ghost before = strs(out@);
            out.push(val);
            assert(strs(out@) =~= before.push(tp[i as int]));
        }
        assert(strs(out@) =~= tp.take(i + 1).filter(|x: Seq<char>| x.len() > 0));
        i += 1;
    }
    assert(tp.take(pieces@.len() as int) =~= tp);
    out
}

/// The start of a message about line `line_no` of filelist `file`.
pub open spec fn at_line(file: Seq<char>, line_no: nat) -> Seq<char> {
    "filelist "@ + file + ":"@ + decimal(line_no) + ": "@
}

fn at_line_exec(file: &str, line_no: usize) -> (r: String)
    ensures
        r@ == at_line(file@, line_no as nat),
{
    proof {
        reveal_strlit("filelist ");
        reveal_strlit(":");
        reveal_strlit(": ");
    }
    let a = concat("filelist ", file);
    let b = concat(a.as_str(), ":");
    let c = concat(b.as_str(), decimal_string(line_no as u64).as_str());
    concat(c.as_str(), ": ")
}

/// The target of a `-f` directive: the path after `-f` (as the next token or attached to it),
/// or the message of what is wrong.
pub open spec fn include_target(file: Seq<char>, line_no: nat, trimmed: Seq<char>) -> Result<Seq<char>, Seq<char>> {
    let toks = ws_tokens(trimmed);
    let flag = toks[0];
    if flag == "-f"@ {
        if toks.len() < 2 {
            Err(at_line(file, line_no) + "-f missing path"@)
        } else if toks.len() > 2 {
            Err(at_line(file, line_no) + "extra tokens after -f"@)
        } else {
            Ok(toks[1])
        }
    } else if has_prefix(flag, "-f"@) && flag.len() > 2 {
        if toks.len() > 1 {
            Err(at_line(file, line_no) + "extra tokens after "@ + flag)
        } else {
            Ok(flag.skip(2))
        }
    } else {
        Err(at_line(file, line_no) + "malformed -f directive "@ + trimmed)
    }
}

/// What a filelist line asks for after it is handled.
#[derive(Clone, Debug)]
pub enum LineAction {
    /// Nothing more.
    Done,
    /// The filelist at this path is to be read next, relative paths resolved.
    Include(String),
}

/// How a filelist line is read, by its trimmed text.
pub enum LineKind {
    /// Blank, or a `//` or `#` comment.
    Skip,
    /// `+incdir+` followed by directories.
    Incdir(Seq<char>),
    /// `+define+` followed by defines.
    Define(Seq<char>),
    /// A `-f` directive.
    Include,
    /// Another `+` directive.
    Unsupported,
    /// A file.
    File,
}

/// How a filelist line with trimmed text `t` is read.
pub open spec fn line_kind(t: Seq<char>) -> LineKind {
    if t.len() == 0 || has_prefix(t, "//"@) || has_prefix(t, "#"@) {
        LineKind::Skip
    } else if has_prefix(t, "+incdir+"@) {
        LineKind::Incdir(t.skip(8))
    } else if has_prefix(t, "+define+"@) {
        LineKind::Define(t.skip(8))
    } else if has_prefix(t, "-f"@) {
        LineKind::Include
    } else if has_prefix(t, "+"@) {
        LineKind::Unsupported
    } else {
        LineKind::File
    }
}

/// The filelists read so far: what they list, the lists done and those being read.
pub struct FilelistLoader {
    pub files: Vec<String>,
    pub incdirs: Vec<String>,
    pub defines: Vec<String>,
    pub processed: Vec<String>,
    pub processing: Vec<String>,
}

/// What reading a filelist found when starting on it.
#[derive(Clone, Debug)]
pub enum Begin {
    /// It was read before; nothing to do.
    AlreadyDone,
    /// It is being read already: the lists include each other.
    Cycle(ConfigError),
    /// It is to be read now.
    Start,
}

impl FilelistLoader {
    /// Nothing read yet.
    pub fn new() -> (r: Self)
        ensures
            r.files@.len() == 0,
            r.incdirs@.len() == 0,
            r.defines@.len() == 0,
            r.processed@.len() == 0,
            r.processing@.len() == 0,
    {
        FilelistLoader {
            files: Vec::new(),
            incdirs: Vec::new(),
            defines: Vec::new(),
            processed: Vec::new(),
            processing: Vec::new(),
        }
    }

    /// What the lists listed.
    pub fn finish(self) -> (r: FilelistLoad)
        ensures
            r.files == self.files,
            r.incdirs == self.incdirs,
            r.defines == self.defines,
    {
        FilelistLoad { files: self.files, incdirs: self.incdirs, defines: self.defines }
    }

    /// Starts on the filelist at canonical path `canon`: skipped when read before, an error
    /// when it is being read already, else marked as being read.
    pub fn begin(&mut self, canon: &str) -> (r: Begin)
        ensures
            final(self).files == old(self).files,
            final(self).incdirs == old(self).incdirs,
            final(self).defines == old(self).defines,
            final(self).processed == old(self).processed,
            has_path(strs(old(self).processed@), canon@) ==> (r is AlreadyDone && final(self).processing
                == old(self).processing),
            !has_path(strs(old(self).processed@), canon@) && has_path(strs(old(self).processing@), canon@) ==> (
            r matches Begin::Cycle(ConfigError::InvalidValue { detail }) && detail@ == "filelist cycle detected at "@
                + canon@ && final(self).processing == old(self).processing),
            !has_path(strs(old(self).processed@), canon@) && !has_path(strs(old(self).processing@), canon@) ==> (
            r is Start && strs(final(self).processing@) == strs(old(self).processing@).push(canon@)),
            strs(old(self).processed@).contains(canon@) ==> r is AlreadyDone,
            !has_path(strs(old(self).processed@), canon@) && strs(old(self).processing@).contains(canon@) ==> (
            r is Cycle),
            r is Start ==> strs(final(self).processing@).contains(canon@),
    {
        if find_path(&self.processed, canon) {
            return Begin::AlreadyDone;
        }
        if find_path(&self.processing, canon) {
            proof {
                reveal_strlit("filelist cycle detected at ");
            }
            return Begin::Cycle(
                ConfigError::InvalidValue { detail: concat("filelist cycle detected at ", canon) },
            );
        }
        let ghost before = strs(self.processing@);
        self.processing.push(to_string(canon));
        assert(strs(self.processing@) =~= before.push(canon@));
        assert(strs(self.processing@)[before.len() as int] == canon@);
        Begin::Start
    }

    /// Finishes the filelist at canonical path `canon`: no longer being read, and read.
    pub fn end(&mut self, canon: &str)
        ensures
            final(self).files == old(self).files,
            final(self).incdirs == old(self).incdirs,
            final(self).defines == old(self).defines,
            strs(final(self).processed@) == strs(old(self).processed@).push(canon@),
            strs(final(self).processing@) == strs(old(self).processing@).filter(|p: Seq<char>| !paths_equal_spec(p, canon@)),
    {
        let ghost old_proc = strs(self.processing@);
        let mut kept: Vec<String> = Vec::new();
        let mut i: usize = 0;
        while i < self.processing.len()
            invariant
                i <= self.processing@.len(),
                old_proc == strs(self.processing@),
                strs(kept@) == old_proc.take(i as int).filter(|p: Seq<char>| !paths_equal_spec(p, canon@)),
            decreases self.processing@.len() - i,
        {
            proof {
                assert(old_proc.take(i + 1).drop_last() =~= old_proc.take(i as int));
                reveal(Seq::filter);
            }
            if !same_path(self.processing[i].as_str(), canon) {
                let ghost before = strs(kept@);
                kept.push(self.processing[i].clone());
                assert(strs(kept@) =~= before.push(old_proc[i as int]));
            }
            assert(strs(kept@) =~= old_proc.take(i + 1).filter(|p: Seq<char>| !paths_equal_spec(p, canon@)));
            i += 1;
        }
        assert(old_proc.take(old_proc.len() as int) =~= old_proc);
        self.processing = kept;
        let ghost before = strs(self.processed@);
        self.processed.push(to_string(canon));
        assert(strs(self.processed@) =~= before.push(canon@));
    }

    /// Adds the directories of a `+incdir+` line, taken relative to `base`.
    pub fn push_incdirs(&mut self, base: &str, rest: &str)
        ensures
            final(self).files == old(self).files,
            final(self).defines == old(self).defines,
            final(self).processed == old(self).processed,
            final(self).processing == old(self).processing,
            strs(final(self).incdirs@) == strs(old(self).incdirs@) + plus_values(rest@).map_values(
                |v: Seq<char>| to_abs_spec(base@, v),
            ),
    {
        let vals = plus_values_exec(rest);
        let ghost start = strs(self.incdirs@);
        let mut i: usize = 0;
        while i < vals.len()
            invariant
                i <= vals@.len(),
                strs(self.incdirs@) == start + strs(vals@.take(i as int)).map_values(|v: Seq<char>| to_abs_spec(base@, v)),
                self.files == old(self).files,
                self.defines == old(self).defines,
                self.processed == old(self).processed,
                self.processing == old(self).processing,
            decreases vals@.len() - i,
        {
            let ghost before = strs(self.incdirs@);
            self.incdirs.push(to_abs(base, vals[i].as_str()));
            assert(strs(vals@.take(i + 1)) =~= strs(vals@.take(i as int)).push(vals@[i as int]@));
            assert(strs(self.incdirs@) =~= before.push(to_abs_spec(base@, vals@[i as int]@)));
            i += 1;
        }
        assert(vals@.take(vals@.len() as int) =~= vals@);
    }

    /// Adds the defines of a `+define+` line.
    pub fn push_defines(&mut self, rest: &str)
        ensures
            final(self).files == old(self).files,
            final(self).incdirs == old(self).incdirs,
            final(self).processed == old(self).processed,
            final(self).processing == old(self).processing,
            strs(final(self).defines@) == strs(old(self).defines@) + plus_values(rest@),
    {
        let vals = plus_values_exec(rest);
        let ghost start = strs(self.defines@);
        let mut i: usize = 0;
        while i < vals.len()
            invariant
                i <= vals@.len(),
                strs(self.defines@) == start + strs(vals@.take(i as int)),
                self.files == old(self).files,
                self.incdirs == old(self).incdirs,
                self.processed == old(self).processed,
                self.processing == old(self).processing,
            decreases vals@.len() - i,
        {
            let ghost before = strs(self.defines@);
            self.defines.push(vals[i].clone());
            assert(strs(vals@.take(i + 1)) =~= strs(vals@.take(i as int)).push(vals@[i as int]@));
            assert(strs(self.defines@) =~= before.push(vals@[i as int]@));
            i += 1;
        }
        assert(vals@.take(vals@.len() as int) =~= vals@);
    }

    /// The target of the `-f` directive `trimmed` on line `line_no` of `file` (see `include_target`).
    pub fn parse_filelist_include(&self, file: &str, line_no: usize, trimmed: &str) -> (r: Result<String, ConfigError>)
        requires
            !is_blank(trimmed@),
        ensures
            match include_target(file@, line_no as nat, trimmed@) {
                Ok(t) => r matches Ok(x) && x@ == t,
                Err(m) => r matches Err(ConfigError::InvalidValue { detail }) && detail@ == m,
            },
    {
        proof {
            reveal_strlit("-f");
            reveal_strlit("-f missing path");
            reveal_strlit("extra tokens after -f");
            reveal_strlit("extra tokens after ");
            reveal_strlit("malformed -f directive ");
            lemma_tokens_nonempty(trimmed@);
        }
        let toks = split_whitespace(trimmed);
        let flag = toks[0].as_str();
        if str_eq(flag, "-f") {
            if toks.len() < 2 {
                let a = at_line_exec(file, line_no);
                return Err(ConfigError::InvalidValue { detail: concat(a.as_str(), "-f missing path") });
            }
            if toks.len() > 2 {
                let a = at_line_exec(file, line_no);
                return Err(ConfigError::InvalidValue { detail: concat(a.as_str(), "extra tokens after -f") });
            }
            return Ok(toks[1].clone());
        }
        let fv = chars_of(flag);
        if starts_with(flag, "-f") && fv.len() > 2 {
            if toks.len() > 1 {
                let a = at_line_exec(file, line_no);
                let b = concat(a.as_str(), "extra tokens after ");
                return Err(ConfigError::InvalidValue { detail: concat(b.as_str(), flag) });
            }
            let rest = string_of_range(fv.as_slice(), 2, fv.len());
            assert(fv@.subrange(2, fv@.len() as int) =~= flag@.skip(2));
            return Ok(rest);
        }
        let a = at_line_exec(file, line_no);
        let b = concat(a.as_str(), "malformed -f directive ");
        Err(ConfigError::InvalidValue { detail: concat(b.as_str(), trimmed) })
    }
}

impl FilelistLoader {
    /// Handles line `line_no` of filelist `file`, whose directory is `base` (see `line_kind`):
    /// comments and blank lines are skipped, `+incdir+` and `+define+` lines add directories
    /// and defines, a `-f` line asks for the filelist it names, other `+` directives are
    /// errors, and any other line adds a file. Relative paths are taken relative to `base`.
    pub fn handle_line(&mut self, file: &str, base: &str, line: &str, line_no: usize) -> (r: Result<LineAction, ConfigError>)
        ensures
            final(self).processed == old(self).processed,
            final(self).processing == old(self).processing,
            ({
                let t = trim_spec(line@);
                match line_kind(t) {
                    LineKind::Skip => r matches Ok(LineAction::Done) && final(self).files == old(self).files
                        && final(self).incdirs == old(self).incdirs && final(self).defines == old(self).defines,
                    LineKind::Incdir(rest) => r matches Ok(LineAction::Done) && final(self).files == old(self).files
                        && final(self).defines == old(self).defines && strs(final(self).incdirs@) == strs(
                        old(self).incdirs@,
                    ) + plus_values(rest).map_values(|v: Seq<char>| to_abs_spec(base@, v)),
                    LineKind::Define(rest) => r matches Ok(LineAction::Done) && final(self).files == old(self).files
                        && final(self).incdirs == old(self).incdirs && strs(final(self).defines@) == strs(
                        old(self).defines@,
                    ) + plus_values(rest),
                    LineKind::Include => final(self).files == old(self).files && final(self).incdirs
                        == old(self).incdirs && final(self).defines == old(self).defines && match include_target(
                        file@,
                        line_no as nat,
                        t,
                    ) {
                        Ok(x) => r matches Ok(LineAction::Include(p)) && p@ == to_abs_spec(base@, x),
                        Err(m) => r matches Err(ConfigError::InvalidValue { detail }) && detail@ == m,
                    },
                    LineKind::Unsupported => final(self).files == old(self).files && final(self).incdirs
                        == old(self).incdirs && final(self).defines == old(self).defines && (r matches Err(
                        ConfigError::InvalidValue { detail },
                    ) && detail@ == at_line(file@, line_no as nat) + "unsupported directive "@ + t),
                    LineKind::File => r matches Ok(LineAction::Done) && final(self).incdirs == old(self).incdirs
                        && final(self).defines == old(self).defines && strs(final(self).files@) == strs(
                        old(self).files@,
                    ).push(to_abs_spec(base@, t)),
                }
            }),
    {
        proof {
            reveal_strlit("//");
            reveal_strlit("#");
            reveal_strlit("+incdir+");
            reveal_strlit("+define+");
            reveal_strlit("-f");
            reveal_strlit("+");
            reveal_strlit("unsupported directive ");
        }
        let trimmed = trim(line);
        let t = trimmed.as_str();
        let tv = chars_of(t);
        if tv.len() == 0 || starts_with(t, "//") || starts_with(t, "#") {
            return Ok(LineAction::Done);
        }
        if starts_with(t, "+incdir+") {
            let rest = string_of_range(tv.as_slice(), 8, tv.len());
            assert(tv@.subrange(8, tv@.len() as int) =~= t@.skip(8));
            self.push_incdirs(base, rest.as_str());
            return Ok(LineAction::Done);
        }
        if starts_with(t, "+define+") {
            let rest = string_of_range(tv.as_slice(), 8, tv.len());
            assert(tv@.subrange(8, tv@.len() as int) =~= t@.skip(8));
            self.push_defines(rest.as_str());
            return Ok(LineAction::Done);
        }
        if starts_with(t, "-f") {
            proof {
                reveal_strlit("-f");
                assert(t@.take(2)[0] == t@[0]);
                assert(!is_ws(t@[0]));
            }
            let target = self.parse_filelist_include(file, line_no, t)?;
            return Ok(LineAction::Include(to_abs(base, target.as_str())));
        }
        if starts_with(t, "+") {
            let a = at_line_exec(file, line_no);
            let b = concat(a.as_str(), "unsupported directive ");
            return Err(ConfigError::InvalidValue { detail: concat(b.as_str(), t) });
        }
        let path = to_abs(base, t);
        let ghost before = strs(self.files@);
        self.files.push(path);
        assert(strs(self.files@) =~= before.push(to_abs_spec(base@, t@)));
        Ok(LineAction::Done)
    }
}

/// Whether two paths have the same components.
pub open spec fn paths_equal_spec(a: Seq<char>, b: Seq<char>) -> bool {
    crate::config::paths::paths_equal(a, b)
}

/// Whether a path equal to `p` is in `v`.
fn find_path(v: &Vec<String>, p: &str) -> (r: bool)
    ensures
        r == has_path(strs(v@), p@),
        strs(v@).contains(p@) ==> r,
{
    let ghost w = strs(v@);
    let mut i: usize = 0;
    while i < v.len()
        invariant
            i <= v@.len(),
            w == strs(v@),
            forall|k: int| 0 <= k < i ==> !crate::config::paths::paths_equal(#[trigger] w[k], p@),
            forall|k: int| 0 <= k < i ==> #[trigger] w[k] != p@,
        decreases v@.len() - i,
    {
        if same_path(v[i].as_str(), p) {
            assert(crate::config::paths::paths_equal(w[i as int], p@));
            return true;
        }
        i += 1;
    }
    false
}

/// Whether `s` holds only white space (or nothing).
pub open spec fn is_blank(s: Seq<char>) -> bool {
    forall|i: int| 0 <= i < s.len() ==> is_ws(#[trigger] s[i])
}

/// A text that is not blank has a first token.
proof fn lemma_tokens_nonempty(s: Seq<char>)
    requires
        !is_blank(s),
    ensures
        ws_tokens(s).len() > 0,
    decreases s.len(),
{
    let s1 = s.drop_last();
    if is_ws(s.last()) {
        let k = choose|k: int| 0 <= k < s.len() && !is_ws(#[trigger] s[k]);
        assert(k < s.len() - 1);
        assert(s1[k] == s[k]);
        lemma_tokens_nonempty(s1);
    }
}

} // verus!
