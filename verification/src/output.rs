//! How violations are shown: one line per violation, and an excerpt of the source line.
use crate::strings::{lemma_ascii_boundaries, chars_of, concat, decimal, decimal_string, has_prefix, push_char, starts_with, string_of_range, to_string};
use crate::textutil::{ellipsis, line_starts_of, truncate_preview_spec, truncate_preview_utf8};
use crate::types::{Severity, Violation};
use vstd::prelude::*;
use vstd::string::StringSliceAdditionalSpecFns;
use vstd::utf8::{decode_utf8, encode_utf8_valid_utf8, is_char_boundary, valid_utf8};

verus! {

/// The width of a tab in an excerpt.
pub const TABSTOP: usize = 8;

/// The widest an excerpt gets, in columns.
pub const MAX_COLS: usize = 200;

/// The label of a severity.
pub open spec fn severity_label(s: Severity) -> Seq<char> {
    match s {
        Severity::Error => "error"@,
        Severity::Warning => "warning"@,
        Severity::Info => "info"@,
    }
}

/// The label of a severity.
pub fn severity_str(s: Severity) -> (r: &'static str)
    ensures
        r@ == severity_label(s),
{
    match s {
        Severity::Error => "error",
        Severity::Warning => "warning",
        Severity::Info => "info",
    }
}

/// A path as shown: without the `\\?\` prefix of Windows extended paths (`\\?\UNC\` becomes `\\`).
pub open spec fn shown_path(p: Seq<char>) -> Seq<char> {
    if has_prefix(p, "\\\\?\\UNC\\"@) {
        "\\\\"@ + p.skip(8)
    } else if has_prefix(p, "\\\\?\\"@) {
        p.skip(4)
    } else {
        p
    }
}

/// A path as shown (see `shown_path`).
pub fn normalize_windows_path_for_output(p: &str) -> (r: String)
    ensures
        r@ == shown_path(p@),
{
    proof {
        reveal_strlit("\\\\?\\UNC\\");
        reveal_strlit("\\\\?\\");
        reveal_strlit("\\\\");
    }
    let v = chars_of(p);
    if starts_with(p, "\\\\?\\UNC\\") {
        let rest = string_of_range(v.as_slice(), 8, v.len());
        assert(v@.subrange(8, v@.len() as int) =~= p@.skip(8));
        return concat("\\\\", rest.as_str());
    }
    if starts_with(p, "\\\\?\\") {
        let rest = string_of_range(v.as_slice(), 4, v.len());
        assert(v@.subrange(4, v@.len() as int) =~= p@.skip(4));
        return rest;
    }
    to_string(p)
}

/// `n`, or 1 when it is 0.
pub open spec fn at_least_one(n: u32) -> u32 {
    if n < 1 {
        1
    } else {
        n
    }
}

/// The line shown for a violation found in the file shown as `path`:
/// `path:line:col: [severity] rule: message`, line and column at least 1.
pub open spec fn violation_line(path: Seq<char>, v: Violation) -> Seq<char> {
    path + ":"@ + decimal(at_least_one(v.location.line) as nat) + ":"@ + decimal(at_least_one(v.location.col) as nat)
        + ": ["@ + severity_label(v.severity) + "] "@ + v.rule_id@ + ": "@ + v.message@
}

/// The line shown for a violation found in the file shown as `path`.
pub fn format_violation(path: &str, v: &Violation) -> (r: String)
    ensures
        r@ == violation_line(path@, *v),
{
    proof {
        reveal_strlit(":");
        reveal_strlit(": [");
        reveal_strlit("] ");
        reveal_strlit(": ");
    }
    let line: u32 = if v.location.line < 1 {
        1
    } else {
        v.location.line
    };
    let col: u32 = if v.location.col < 1 {
        1
    } else {
        v.location.col
    };
    let a = concat(path, ":");
    let b = concat(a.as_str(), decimal_string(line as u64).as_str());
    let c = concat(b.as_str(), ":");
    let d = concat(c.as_str(), decimal_string(col as u64).as_str());
    let e = concat(d.as_str(), ": [");
    let f = concat(e.as_str(), severity_str(v.severity));
    let g = concat(f.as_str(), "] ");
    let h = concat(g.as_str(), v.rule_id.as_str());
    let i = concat(h.as_str(), ": ");
    concat(i.as_str(), v.message.as_str())
}

/// The path a violation is reported under: its own file, or the input's path.
pub fn violation_path(v: &Violation, fallback: &str) -> (r: String)
    ensures
        r@ == match v.location.file {
            Some(f) => f@,
            None => fallback@,
        },
{
    match &v.location.file {
        Some(f) => f.clone(),
        None => to_string(fallback),
    }
}

/// The byte range of line `line` (counted from 1) of a text with line starts `starts` and
/// `len` bytes: from its start to just before the next line's start (its `'\n'`), or to the end;
/// nothing for line 0 or a line past the last.
pub open spec fn line_range(starts: Seq<usize>, len: int, line: int) -> Option<(int, int)> {
    if line == 0 || line - 1 >= starts.len() {
        None
    } else {
        let i = line - 1;
        let start = starts[i] as int;
        let end = if i + 1 < starts.len() {
            if starts[i + 1] >= 1 { starts[i + 1] - 1 } else { 0 }
        } else {
            len
        };
        if start <= end && end <= len {
            Some((start, end))
        } else {
            None
        }
    }
}

/// The text of line `line` (counted from 1) of `text`, without its `'\n'`; empty when there is
/// no such line.
pub fn get_line_str(text: &str, starts: &[usize], line: usize) -> (r: String)
    requires
        starts@ == line_starts_of(text.spec_bytes()),
    ensures
        match line_range(starts@, text.spec_bytes().len() as int, line as int) {
            Some((s, e)) => r@ == decode_utf8(text.spec_bytes().subrange(s, e)),
            None => r@.len() == 0,
        },
{
    if line == 0 {
        return String::new();
    }
    let i = line - 1;
    if i >= starts.len() {
        return String::new();
    }
    let n = text.as_bytes().len();
    let start = starts[i];
    let end = if i + 1 < starts.len() {
        starts[i + 1].saturating_sub(1)
    } else {
        n
    };
    if start <= end && end <= n {
        proof {
            vstd::utf8::encode_utf8_valid_utf8(text@);
            lemma_starts_are_boundaries(text.spec_bytes(), i as int);
        }
        let s = crate::strings::raw_slice(text, start, end);
        s
    } else {
        String::new()
    }
}

/// The start of every line is a character boundary, and so is the `'\n'` before the next one.
proof fn lemma_starts_are_boundaries(b: Seq<u8>, i: int)
    requires
        valid_utf8(b),
        b.len() <= usize::MAX,
        0 <= i < line_starts_of(b).len(),
    ensures
        is_char_boundary(b, b.len() as int),
        is_char_boundary(b, line_starts_of(b)[i] as int),
        i + 1 < line_starts_of(b).len() ==> line_starts_of(b)[i + 1] >= 1 && is_char_boundary(
            b,
            line_starts_of(b)[i + 1] - 1,
        ),
{
    lemma_starts_follow_newlines(b);
    vstd::utf8::is_char_boundary_start_end_of_seq(b);
    let st = line_starts_of(b);
    if i == 0 {
        assert(is_char_boundary(b, 0)) by {
            vstd::utf8::is_char_boundary_start_end_of_seq(b);
        }
    } else {
        lemma_ascii_boundaries(b, st[i] - 1);
    }
    if i + 1 < st.len() {
        lemma_ascii_boundaries(b, st[i + 1] - 1);
    }
}

/// Each line start but the first lies just after a `'\n'` byte.
proof fn lemma_starts_follow_newlines(b: Seq<u8>)
    requires
        b.len() <= usize::MAX,
    ensures
        line_starts_of(b).len() >= 1,
        line_starts_of(b)[0] == 0,
        forall|j: int|
            0 < j < line_starts_of(b).len() ==> 1 <= #[trigger] line_starts_of(b)[j] <= b.len() && b[line_starts_of(b)[j]
                - 1] == 10u8,
    decreases b.len(),
{
    if b.len() > 0 {
        let b1 = b.drop_last();
        lemma_starts_follow_newlines(b1);
        let p = line_starts_of(b1);
        assert forall|j: int| 0 < j < line_starts_of(b).len() implies 1 <= #[trigger] line_starts_of(b)[j] <= b.len()
            && b[line_starts_of(b)[j] - 1] == 10u8 by {
            if j < p.len() {
                assert(line_starts_of(b)[j] == p[j]);
                assert(b[p[j] - 1] == b1[p[j] - 1]);
            }
        }
    }
}

/// The width of `c` in an excerpt: a tab takes `TABSTOP` columns, anything else one.
pub open spec fn char_width(c: char) -> nat {
    if c == '\t' {
        TABSTOP as nat
    } else {
        1
    }
}

/// The excerpt of line text `s`: its characters while they fit in `MAX_COLS` columns, then
/// `" ..."` if some did not.
pub open spec fn excerpt_spec(s: Seq<char>, cols: nat) -> Seq<char>
    decreases s.len(),
{
    if s.len() == 0 {
        Seq::empty()
    } else if cols + char_width(s[0]) > MAX_COLS {
        ellipsis()
    } else {
        seq![s[0]] + excerpt_spec(s.drop_first(), cols + char_width(s[0]))
    }
}

/// The excerpt of a source line (see `excerpt_spec`).
pub fn excerpt_of(s: &str) -> (r: String)
    ensures
        r@ == excerpt_spec(s@, 0),
{
    let v = chars_of(s);
    let mut cols: usize = 0;
    let mut out = String::new();
    let mut i: usize = 0;
    assert(s@.skip(0) =~= s@);
    while i < v.len()
        invariant
            i <= v@.len(),
            v@ == s@,
            cols <= MAX_COLS,
            excerpt_spec(s@, 0) == out@ + excerpt_spec(s@.skip(i as int), cols as nat),
        decreases v@.len() - i,
    {
        let ch = v[i];
        let w: usize = if ch == '\t' {
            TABSTOP
        } else {
            1
        };
        assert(s@.skip(i as int)[0] == ch);
        assert(s@.skip(i as int).drop_first() =~= s@.skip(i + 1));
        if cols + w > MAX_COLS {
            proof {
                reveal_strlit(" ...");
                assert(" ..."@ =~= ellipsis());
            }
            out.append(" ...");
            return out;
        }
        let ghost before = out@;
        push_char(&mut out, ch);
        assert(before + excerpt_spec(s@.skip(i as int), cols as nat) =~= out@ + excerpt_spec(
            s@.skip(i + 1),
            (cols + w) as nat,
        ));
        cols += w;
        i += 1;
    }
    assert(s@.skip(i as int).len() == 0);
    assert(out@ + Seq::<char>::empty() =~= out@);
    out
}

/// The excerpt of line `line` of a text whose line endings are `'\n'`.
pub fn make_line_excerpt(text: &str, line: usize) -> (r: String)
    ensures
        ({
            let starts = line_starts_of(text.spec_bytes());
            match line_range(starts, text.spec_bytes().len() as int, line as int) {
                Some((s, e)) => r@ == excerpt_spec(decode_utf8(text.spec_bytes().subrange(s, e)), 0),
                None => r@.len() == 0,
            }
        }),
{
    let starts = crate::textutil::line_starts(text);
    let s = get_line_str(text, starts.as_slice(), line);
    let r = excerpt_of(s.as_str());
    proof {
        if line_range(starts@, text.spec_bytes().len() as int, line as int) is None {
            assert(s@ =~= Seq::<char>::empty());
        }
    }
    r
}

/// The excerpt line shown under a violation, if the excerpt is not empty: four spaces, `"> "`,
/// and the excerpt cut to `MAX_COLS` bytes.
pub fn excerpt_line(excerpt: &str) -> (r: Option<String>)
    ensures
        excerpt@.len() == 0 ==> r is None,
        excerpt@.len() > 0 ==> (r matches Some(x) && x@ == "    > "@ + truncate_preview_spec(excerpt@, MAX_COLS as int)),
{
    if chars_of(excerpt).len() == 0 {
        return None;
    }
    proof {
        reveal_strlit("    > ");
    }
    let t = truncate_preview_utf8(excerpt, MAX_COLS);
    Some(concat("    > ", t.as_str()))
}

} // verus!
