//! A quick scan of source text without the parser: line and column of a byte offset, and the
//! ports, parameters, typedefs and variables that a few regular expressions find.
use crate::strings::{
    chars_of, is_whitespace, is_ws, push_char, raw_slice, split_char, split_on, str_eq, to_string, trim, trim_spec,
};
use crate::sv::collect::{loc_v, module_view, LocV, PortDir};
use crate::sv::model::Reference;
use crate::sv::preprocess::{split_at_eq, split_define};
use crate::types::Location;
use vstd::prelude::*;
use vstd::string::StringSliceAdditionalSpecFns;
use vstd::utf8::{decode_utf8, encode_utf8, is_char_boundary};

verus! {

/// The number of bytes of the UTF-8 encoding of `c`.
pub open spec fn utf8_len(c: char) -> int {
    if (c as u32) < 0x80 {
        1
    } else if (c as u32) < 0x800 {
        2
    } else if (c as u32) < 0x10000 {
        3
    } else {
        4
    }
}

/// Walks the characters of `s` while fewer than `idx` bytes have been passed, counting lines
/// (after each `'\n'`) and columns (one per character, reset after each `'\n'`).
pub open spec fn walk_line_col(s: Seq<char>, idx: int, count: int, line: int, col: int) -> (int, int)
    decreases s.len(),
{
    if s.len() == 0 || count >= idx {
        (line, col)
    } else if s[0] == '\n' {
        walk_line_col(s.drop_first(), idx, count + utf8_len(s[0]), line + 1, 1)
    } else {
        walk_line_col(s.drop_first(), idx, count + utf8_len(s[0]), line, col + 1)
    }
}

fn char_len_utf8(c: char) -> (r: usize)
    ensures
        r == utf8_len(c),
{
    let u = c as u32;
    if u < 0x80 {
        1
    } else if u < 0x800 {
        2
    } else if u < 0x10000 {
        3
    } else {
        4
    }
}

/// The 1-based line and column of byte offset `byte_idx` in `text`, columns counted in characters.
pub fn byte_to_line_col(text: &str, byte_idx: usize) -> (r: (u32, u32))
    requires
        text@.len() < usize::MAX / 4,
    ensures
        ({
            let (l, c) = walk_line_col(text@, byte_idx as int, 0, 1, 1);
            r == (l as u32, c as u32)
        }),
{
    let v = chars_of(text);
    let mut line: usize = 1;
    let mut col: usize = 1;
    let mut count: usize = 0;
    let mut i: usize = 0;
    assert(text@.skip(0) =~= text@);
    while i < v.len() && count < byte_idx
        invariant
            v@ == text@,
            text@.len() < usize::MAX / 4,
            i <= v@.len(),
            line <= i + 1,
            col <= i + 1,
            count <= 4 * i,
            walk_line_col(text@, byte_idx as int, 0, 1, 1) == walk_line_col(
                text@.skip(i as int),
                byte_idx as int,
                count as int,
                line as int,
                col as int,
            ),
        decreases v@.len() - i,
    {
        let ch = v[i];
        assert(text@.skip(i as int)[0] == ch);
        assert(text@.skip(i as int).drop_first() =~= text@.skip(i + 1));
        let len = char_len_utf8(ch);
        if ch == '\n' {
            line += 1;
            col = 1;
        } else {
            col += 1;
        }
        count += len;
        i += 1;
    }
    assert(text@.skip(i as int).len() == 0 || count >= byte_idx);
    (line as u32, col as u32)
}

/// The location of bytes `start..end` of `text` in `file`.
pub fn make_loc(file: &str, text: &str, start: usize, end: usize) -> (r: Location)
    requires
        text@.len() < usize::MAX / 4,
    ensures
        ({
            let (l, c) = walk_line_col(text@, start as int, 0, 1, 1);
            let (el, ec) = walk_line_col(text@, end as int, 0, 1, 1);
            &&& r.line == l as u32
            &&& r.col == c as u32
            &&& r.end_line == el as u32
            &&& r.end_col == ec as u32
            &&& r.file matches Some(f) && f@ == file@
        }),
{
    let (line, col) = byte_to_line_col(text, start);
    let (end_line, end_col) = byte_to_line_col(text, end);
    Location { line, col, end_line, end_col, file: Some(to_string(file)) }
}

/// Whether `regex::Regex::new` accepts `pattern`.
pub uninterp spec fn regex_compiles(pattern: Seq<char>) -> bool;

/// Whether the regular expression `pattern` matches somewhere in `text` (`Regex::is_match`).
pub uninterp spec fn regex_is_match(pattern: Seq<char>, text: Seq<char>) -> bool;

/// `Regex::new(pattern)` and then `is_match(text)`: nothing when the pattern is not accepted.
#[verifier::external_body]
fn regex_match(pattern: &str, text: &str) -> (r: Option<bool>)
    ensures
        r is Some <==> regex_compiles(pattern@),
        r matches Some(b) ==> b == regex_is_match(pattern@, text@),
{
    let re = regex::Regex::new(pattern).ok()?;
    Some(re.is_match(text))
}

/// The pattern a declared name must match: an identifier.
pub open spec fn ident_pattern() -> Seq<char> {
    "^[A-Za-z_][A-Za-z0-9_]*$"@
}

fn ident_pattern_str() -> (r: &'static str)
    ensures
        r@ == ident_pattern(),
{
    "^[A-Za-z_][A-Za-z0-9_]*$"
}

/// `v` after its last white-space character or `'['` (what `rsplit(..).next()` gives).
pub open spec fn last_segment(v: Seq<char>) -> Seq<char>
    decreases v.len(),
{
    if v.len() == 0 {
        v
    } else if is_ws(v.last()) || v.last() == '[' {
        Seq::empty()
    } else {
        last_segment(v.drop_last()).push(v.last())
    }
}

fn last_segment_exec(v: &str) -> (r: String)
    ensures
        r@ == last_segment(v@),
{
    let cs = chars_of(v);
    let mut cur = String::new();
    let mut i: usize = 0;
    while i < cs.len()
        invariant
            i <= cs@.len(),
            cs@ == v@,
            cur@ == last_segment(v@.take(i as int)),
        decreases cs@.len() - i,
    {
        assert(v@.take(i + 1).drop_last() =~= v@.take(i as int));
        let c = cs[i];
        if is_whitespace(c) || c == '[' {
            cur = String::new();
            assert(cur@ =~= last_segment(v@.take(i + 1)));
        } else {
            push_char(&mut cur, c);
        }
        i += 1;
    }
    assert(v@.take(v@.len() as int) =~= v@);
    cur
}

/// The declared name in a trimmed piece of a declaration list: before any `=`, after the
/// last white space or `[`, without surrounding white space.
pub open spec fn name_candidate(piece: Seq<char>) -> Seq<char> {
    trim_spec(last_segment(trim_spec(split_at_eq(piece).0)))
}

/// The non-empty pieces of a declaration list between commas, trimmed, as names.
pub open spec fn name_candidates(s: Seq<char>) -> Seq<Seq<char>> {
    split_on(s, ',').map_values(|x: Seq<char>| trim_spec(x)).filter(|x: Seq<char>| x.len() > 0).map_values(
        |x: Seq<char>| name_candidate(x),
    )
}

/// The names of a declaration list that are identifiers; nothing when the identifier pattern
/// is not accepted and there is a name to test.
pub open spec fn split_names_spec(s: Seq<char>) -> Option<Seq<Seq<char>>> {
    let c = name_candidates(s);
    if c.len() == 0 {
        Some(Seq::empty())
    } else if !regex_compiles(ident_pattern()) {
        None
    } else {
        Some(c.filter(|v: Seq<char>| regex_is_match(ident_pattern(), v)))
    }
}

/// The names declared by a list such as `a, b[3:0] = 1, c`: for each non-empty piece between
/// commas, the part before `=` and after the last white space or `[`, kept when it is an
/// identifier.
pub fn split_names(s: &str) -> (r: Option<Vec<String>>)
    ensures
        match split_names_spec(s@) {
            Some(v) => r matches Some(x) && x@.map_values(|n: String| n@) == v,
            None => r is None,
        },
{
    let pieces = split_char(s, ',');
    let ghost ps = pieces@.map_values(|x: String| x@);
    let ghost tp = ps.map_values(|x: Seq<char>| trim_spec(x));
    let ghost cand = tp.filter(|x: Seq<char>| x.len() > 0).map_values(|x: Seq<char>| name_candidate(x));
    assert(cand == name_candidates(s@));
    let mut out: Vec<String> = Vec::new();
    let mut i: usize = 0;
    while i < pieces.len()
        invariant
            i <= pieces@.len(),
            ps == pieces@.map_values(|x: String| x@),
            tp == ps.map_values(|x: Seq<char>| trim_spec(x)),
            cand == tp.filter(|x: Seq<char>| x.len() > 0).map_values(|x: Seq<char>| name_candidate(x)),
            cand == name_candidates(s@),
            tp.take(i as int).filter(|x: Seq<char>| x.len() > 0).len() > 0 ==> regex_compiles(ident_pattern()),
            out@.map_values(|n: String| n@) == tp.take(i as int).filter(|x: Seq<char>| x.len() > 0).map_values(
                |x: Seq<char>| name_candidate(x),
            ).filter(|v: Seq<char>| regex_is_match(ident_pattern(), v)),
        decreases pieces@.len() - i,
    {
        proof {
            assert(tp.take(i + 1).drop_last() =~= tp.take(i as int));
            reveal(Seq::filter);
        }
        let piece = trim(pieces[i].as_str());
        let ghost kept = tp.take(i as int).filter(|x: Seq<char>| x.len() > 0);
        if chars_of(piece.as_str()).len() > 0 {
            let (before_eq, _) = split_define(piece.as_str());
            let t = trim(before_eq.as_str());
            let seg = last_segment_exec(t.as_str());
            let name = trim(seg.as_str());
            assert(name@ == name_candidate(piece@));
            assert(tp.take(i + 1).filter(|x: Seq<char>| x.len() > 0) =~= kept.push(piece@));
            assert(kept.push(piece@).map_values(|x: Seq<char>| name_candidate(x)) =~= kept.map_values(
                |x: Seq<char>| name_candidate(x),
            ).push(name@));
            match regex_match(ident_pattern_str(), name.as_str()) {
                None => {
                    proof {
                        assert(tp[i as int] == piece@);
                        let ghost pred = |x: Seq<char>| x.len() > 0;
                        tp.lemma_filter_contains(pred, i as int);
                        assert(tp.filter(pred).contains(tp[i as int]));
                        assert(tp.filter(pred).len() > 0);
                        assert(cand.len() > 0);
                    }
                    return None;
                },
                Some(ok) => {
                    let ghost before = out@.map_values(|n: String| n@);
                    let ghost km = kept.map_values(|x: Seq<char>| name_candidate(x));
                    proof {
                        reveal(Seq::filter);
                        assert(km.push(name@).drop_last() =~= km);
                    }
                    if ok {
                        out.push(name);
                        assert(out@.map_values(|n: String| n@) =~= before.push(name@));
                    }
                    assert(out@.map_values(|n: String| n@) == km.push(name@).filter(
                        |v: Seq<char>| regex_is_match(ident_pattern(), v),
                    ));
                },
            }
        } else {
            assert(tp.take(i + 1).filter(|x: Seq<char>| x.len() > 0) =~= kept);
        }
        i += 1;
    }
    assert(tp.take(pieces@.len() as int) =~= tp);
    Some(out)
}

/// What a name found by the scan declares.
#[derive(Clone, Copy, Debug, PartialEq, Eq, Structural)]
pub enum SymbolKind {
    Port,
    Param,
    Localparam,
    Typedef,
    Var,
}

/// The kind of a scope found by the scan.
#[derive(Clone, Copy, Debug, PartialEq, Eq, Structural)]
pub enum ScopeKind {
    Module,
}

/// A name found by the scan: its number (from 1), kind, port direction, the number of its
/// module (0 outside one), where it is declared, and its type (never found by the scan).
#[derive(Clone, Debug)]
pub struct Symbol {
    pub id: u32,
    pub name: String,
    pub kind: SymbolKind,
    pub dir: Option<PortDir>,
    pub scope_id: u32,
    pub decl_loc: Location,
    pub type_ref: Option<String>,
}

/// A module found by the scan: its number (from 1), kind, name and enclosing scope (0: none).
#[derive(Clone, Debug)]
pub struct Scope {
    pub id: u32,
    pub kind: ScopeKind,
    pub name: String,
    pub parent: u32,
}

/// A symbol as plain values.
pub struct SymV {
    pub id: u32,
    pub name: Seq<char>,
    pub kind: SymbolKind,
    pub dir: Option<PortDir>,
    pub scope_id: u32,
    pub loc: LocV,
    pub type_ref: Option<Seq<char>>,
}

/// The plain values of a symbol.
pub open spec fn sym_v(s: Symbol) -> SymV {
    SymV {
        id: s.id,
        name: s.name@,
        kind: s.kind,
        dir: s.dir,
        scope_id: s.scope_id,
        loc: loc_v(s.decl_loc),
        type_ref: module_view(s.type_ref),
    }
}

/// A scope as plain values.
pub struct ScopeV {
    pub id: u32,
    pub kind: ScopeKind,
    pub name: Seq<char>,
    pub parent: u32,
}

/// The plain values of a scope.
pub open spec fn scope_v(s: Scope) -> ScopeV {
    ScopeV { id: s.id, kind: s.kind, name: s.name@, parent: s.parent }
}

/// What the scan has found so far.
pub struct UsageAcc {
    pub syms: Seq<SymV>,
    pub scopes: Seq<ScopeV>,
}

/// The byte spans of the groups of one match; `None` for a group that did not take part.
pub type Cap = Seq<Option<(usize, usize)>>;

/// The groups of the successive non-overlapping matches of `pattern` in `text`
/// (`Regex::captures_iter`), each as the byte span of each group.
pub uninterp spec fn regex_captures(pattern: Seq<char>, text: Seq<char>) -> Seq<Seq<Option<(usize, usize)>>>;

/// Every span lies in `b` and starts and ends on character boundaries.
pub open spec fn spans_within(caps: Seq<Cap>, b: Seq<u8>) -> bool {
    forall|i: int, k: int|
        0 <= i < caps.len() && 0 <= k < caps[i].len() ==> match #[trigger] caps[i][k] {
            Some((a, e)) => a <= e <= b.len() && is_char_boundary(b, a as int) && is_char_boundary(b, e as int),
            None => true,
        }
}

/// The plain values of the captures.
pub open spec fn caps_view(v: Seq<Vec<Option<(usize, usize)>>>) -> Seq<Cap> {
    v.map_values(|c: Vec<Option<(usize, usize)>>| c@)
}

/// `Regex::new(pattern)` and then the spans of the groups of each match of `captures_iter(text)`;
/// nothing when the pattern is not accepted. The spans are those of `regex::Match`, byte offsets
/// into `text` at character boundaries.
#[verifier::external_body]
fn captures_all(pattern: &str, text: &str) -> (r: Option<Vec<Vec<Option<(usize, usize)>>>>)
    ensures
        r is Some <==> regex_compiles(pattern@),
        r matches Some(v) ==> caps_view(v@) == regex_captures(pattern@, text@),
        r matches Some(v) ==> spans_within(caps_view(v@), text.spec_bytes()),
{
    let re = regex::Regex::new(pattern).ok()?;
    Some(re.captures_iter(text).map(|c| c.iter().map(|m| m.map(|m| (m.start(), m.end()))).collect()).collect())
}

/// Module headers: the name and the port list.
pub open spec fn module_pattern() -> Seq<char> {
    "(?s)\\bmodule\\s+([A-Za-z_][A-Za-z0-9_]*)\\s*(?:#\\s*\\([^;]*?\\))?\\s*\\((.*?)\\)\\s*;"@
}

fn module_pattern_str() -> (r: &'static str)
    ensures
        r@ == module_pattern(),
{
    "(?s)\\bmodule\\s+([A-Za-z_][A-Za-z0-9_]*)\\s*(?:#\\s*\\([^;]*?\\))?\\s*\\((.*?)\\)\\s*;"
}

/// Ports in a module header: the direction and the name.
pub open spec fn port_pattern() -> Seq<char> {
    "\\b(input|output|inout)\\b[^,;\\)\\(]*?\\b([A-Za-z_][A-Za-z0-9_]*)\\b"@
}

fn port_pattern_str() -> (r: &'static str)
    ensures
        r@ == port_pattern(),
{
    "\\b(input|output|inout)\\b[^,;\\)\\(]*?\\b([A-Za-z_][A-Za-z0-9_]*)\\b"
}

/// Parameter lines: the keyword and the declaration list.
pub open spec fn param_pattern() -> Seq<char> {
    "(?m)^\\s*(parameter|localparam)\\b([^;]*);\\s*$"@
}

fn param_pattern_str() -> (r: &'static str)
    ensures
        r@ == param_pattern(),
{
    "(?m)^\\s*(parameter|localparam)\\b([^;]*);\\s*$"
}

/// Typedef lines: the name declared.
pub open spec fn typedef_pattern() -> Seq<char> {
    "(?m)^\\s*typedef\\b[^;]*\\b([A-Za-z_][A-Za-z0-9_]*)\\s*;\\s*$"@
}

fn typedef_pattern_str() -> (r: &'static str)
    ensures
        r@ == typedef_pattern(),
{
    "(?m)^\\s*typedef\\b[^;]*\\b([A-Za-z_][A-Za-z0-9_]*)\\s*;\\s*$"
}

/// Variable lines: the type keyword and the declaration list.
pub open spec fn var_pattern() -> Seq<char> {
    "(?m)^\\s*(logic|wire|reg|bit|byte|shortint|int|longint)\\b([^;]*);\\s*$"@
}

fn var_pattern_str() -> (r: &'static str)
    ensures
        r@ == var_pattern(),
{
    "(?m)^\\s*(logic|wire|reg|bit|byte|shortint|int|longint)\\b([^;]*);\\s*$"
}

/// Group `k` of a match, `None` when there is no such group.
pub open spec fn cap_group(c: Cap, k: int) -> Option<(usize, usize)> {
    if 0 <= k < c.len() {
        c[k]
    } else {
        None
    }
}

/// The text of a span of `b`.
pub open spec fn span_text(b: Seq<u8>, sp: (usize, usize)) -> Seq<char> {
    decode_utf8(b.subrange(sp.0 as int, sp.1 as int))
}

/// The location of a span of `text` in `file`, as `make_loc` gives it.
pub open spec fn scan_loc(file: Seq<char>, text: Seq<char>, sp: (usize, usize)) -> LocV {
    let (l, c) = walk_line_col(text, sp.0 as int, 0, 1, 1);
    let (el, ec) = walk_line_col(text, sp.1 as int, 0, 1, 1);
    LocV { line: l as u32, col: c as u32, end_line: el as u32, end_col: ec as u32, file: Some(file) }
}

/// `a` with one more symbol, numbered next; nothing when the number after it does not fit.
pub open spec fn add_symbol(
    a: UsageAcc,
    name: Seq<char>,
    kind: SymbolKind,
    dir: Option<PortDir>,
    scope_id: u32,
    loc: LocV,
) -> Option<UsageAcc> {
    if a.syms.len() + 2 <= u32::MAX {
        Some(
            UsageAcc {
                syms: a.syms.push(
                    SymV { id: (a.syms.len() + 1) as u32, name, kind, dir, scope_id, loc, type_ref: None },
                ),
                ..a
            },
        )
    } else {
        None
    }
}

/// The scan after handling each match in turn with `step`; nothing once a step fails.
pub open spec fn fold_caps(
    acc: Option<UsageAcc>,
    caps: Seq<Cap>,
    step: spec_fn(UsageAcc, Cap) -> Option<UsageAcc>,
) -> Option<UsageAcc>
    decreases caps.len(),
{
    if caps.len() == 0 {
        acc
    } else {
        match fold_caps(acc, caps.drop_last(), step) {
            Some(a) => step(a, caps.last()),
            None => None,
        }
    }
}

/// The scan after adding each of `names` as a symbol of `kind` outside any module.
pub open spec fn add_names(acc: Option<UsageAcc>, names: Seq<Seq<char>>, kind: SymbolKind, loc: LocV) -> Option<UsageAcc>
    decreases names.len(),
{
    if names.len() == 0 {
        acc
    } else {
        match add_names(acc, names.drop_last(), kind, loc) {
            Some(a) => add_symbol(a, names.last(), kind, None, 0, loc),
            None => None,
        }
    }
}

/// The direction named by a port keyword.
pub open spec fn dir_of(s: Seq<char>) -> PortDir {
    if s == "input"@ {
        PortDir::Input
    } else if s == "output"@ {
        PortDir::Output
    } else {
        PortDir::Inout
    }
}

/// A port found in a module header `hb`: a symbol in scope `scope_id` at the module's location.
pub open spec fn port_step(hb: Seq<u8>, scope_id: u32, loc: LocV) -> spec_fn(UsageAcc, Cap) -> Option<UsageAcc> {
    |a: UsageAcc, c: Cap|
        match (cap_group(c, 1), cap_group(c, 2)) {
            (Some(d), Some(n)) => add_symbol(
                a,
                span_text(hb, n),
                SymbolKind::Port,
                Some(dir_of(span_text(hb, d))),
                scope_id,
                loc,
            ),
            _ => None,
        }
}

/// A module found in `text`: a new scope, then the ports of its header.
pub open spec fn module_step(file: Seq<char>, text: Seq<char>) -> spec_fn(UsageAcc, Cap) -> Option<UsageAcc> {
    |a: UsageAcc, c: Cap|
        match (cap_group(c, 0), cap_group(c, 1), cap_group(c, 2)) {
            (Some(g0), Some(g1), Some(g2)) => if a.scopes.len() + 2 <= u32::MAX && regex_compiles(port_pattern()) {
                let b = encode_utf8(text);
                let sid = (a.scopes.len() + 1) as u32;
                let header = span_text(b, g2);
                fold_caps(
                    Some(
                        UsageAcc {
                            scopes: a.scopes.push(
                                ScopeV { id: sid, kind: ScopeKind::Module, name: span_text(b, g1), parent: 0 },
                            ),
                            ..a
                        },
                    ),
                    regex_captures(port_pattern(), header),
                    port_step(encode_utf8(header), sid, scan_loc(file, text, g0)),
                )
            } else {
                None
            },
            _ => None,
        }
}

/// A parameter line found in `text`: its names, as parameters or local parameters.
pub open spec fn param_step(file: Seq<char>, text: Seq<char>) -> spec_fn(UsageAcc, Cap) -> Option<UsageAcc> {
    |a: UsageAcc, c: Cap|
        match (cap_group(c, 0), cap_group(c, 1), cap_group(c, 2)) {
            (Some(g0), Some(g1), Some(g2)) => match split_names_spec(span_text(encode_utf8(text), g2)) {
                Some(names) => add_names(
                    Some(a),
                    names,
                    if span_text(encode_utf8(text), g1) == "parameter"@ {
                        SymbolKind::Param
                    } else {
                        SymbolKind::Localparam
                    },
                    scan_loc(file, text, g0),
                ),
                None => None,
            },
            _ => None,
        }
}

/// A typedef line found in `text`: the name it declares.
pub open spec fn typedef_step(file: Seq<char>, text: Seq<char>) -> spec_fn(UsageAcc, Cap) -> Option<UsageAcc> {
    |a: UsageAcc, c: Cap|
        match (cap_group(c, 0), cap_group(c, 1)) {
            (Some(g0), Some(g1)) => add_symbol(
                a,
                span_text(encode_utf8(text), g1),
                SymbolKind::Typedef,
                None,
                0,
                scan_loc(file, text, g0),
            ),
            _ => None,
        }
}

/// A variable line found in `text`: its names, as variables.
pub open spec fn var_step(file: Seq<char>, text: Seq<char>) -> spec_fn(UsageAcc, Cap) -> Option<UsageAcc> {
    |a: UsageAcc, c: Cap|
        match (cap_group(c, 0), cap_group(c, 2)) {
            (Some(g0), Some(g2)) => match split_names_spec(span_text(encode_utf8(text), g2)) {
                Some(names) => add_names(Some(a), names, SymbolKind::Var, scan_loc(file, text, g0)),
                None => None,
            },
            _ => None,
        }
}

/// The pass of one pattern over `text`, from `acc`: nothing when the pattern is not accepted.
pub open spec fn scan_pass(
    acc: Option<UsageAcc>,
    pattern: Seq<char>,
    text: Seq<char>,
    step: spec_fn(UsageAcc, Cap) -> Option<UsageAcc>,
) -> Option<UsageAcc> {
    if regex_compiles(pattern) {
        fold_caps(acc, regex_captures(pattern, text), step)
    } else {
        None
    }
}

/// What the scan of `text` in `file` finds: modules and their ports, then parameters, typedefs
/// and variables; nothing when a pattern is not accepted, a match lacks a group it uses, or a
/// number does not fit.
pub open spec fn scan_spec(file: Seq<char>, text: Seq<char>) -> Option<UsageAcc> {
    let empty = UsageAcc { syms: Seq::empty(), scopes: Seq::empty() };
    let m = scan_pass(Some(empty), module_pattern(), text, module_step(file, text));
    let p = scan_pass(m, param_pattern(), text, param_step(file, text));
    let t = scan_pass(p, typedef_pattern(), text, typedef_step(file, text));
    scan_pass(t, var_pattern(), text, var_step(file, text))
}

/// Once a step fails, the fold stays failed.
proof fn lemma_fold_none(
    acc: Option<UsageAcc>,
    caps: Seq<Cap>,
    step: spec_fn(UsageAcc, Cap) -> Option<UsageAcc>,
    i: int,
)
    requires
        0 <= i <= caps.len(),
        fold_caps(acc, caps.take(i), step) is None,
    ensures
        fold_caps(acc, caps, step) is None,
    decreases caps.len() - i,
{
    if i == caps.len() {
        assert(caps.take(i) =~= caps);
    } else {
        assert(caps.take(i + 1).drop_last() =~= caps.take(i));
        lemma_fold_none(acc, caps, step, i + 1);
    }
}

/// A pass that starts failed stays failed.
proof fn lemma_pass_none(pattern: Seq<char>, text: Seq<char>, step: spec_fn(UsageAcc, Cap) -> Option<UsageAcc>)
    ensures
        scan_pass(None, pattern, text, step) is None,
{
    let caps = regex_captures(pattern, text);
    assert(caps.take(0) =~= Seq::<Cap>::empty());
    lemma_fold_none(None, caps, step, 0);
}

/// Once adding a name fails, the rest fail too.
proof fn lemma_names_none(acc: Option<UsageAcc>, names: Seq<Seq<char>>, kind: SymbolKind, loc: LocV, i: int)
    requires
        0 <= i <= names.len(),
        add_names(acc, names.take(i), kind, loc) is None,
    ensures
        add_names(acc, names, kind, loc) is None,
    decreases names.len() - i,
{
    if i == names.len() {
        assert(names.take(i) =~= names);
    } else {
        assert(names.take(i + 1).drop_last() =~= names.take(i));
        lemma_names_none(acc, names, kind, loc, i + 1);
    }
}

/// The symbols and scopes found so far.
struct ScanAcc {
    syms: Vec<Symbol>,
    scopes: Vec<Scope>,
}

impl ScanAcc {
    spec fn view_acc(&self) -> UsageAcc {
        UsageAcc {
            syms: self.syms@.map_values(|s: Symbol| sym_v(s)),
            scopes: self.scopes@.map_values(|s: Scope| scope_v(s)),
        }
    }

    /// Adds a symbol numbered next, when the number after it fits.
    fn push_symbol(&mut self, name: String, kind: SymbolKind, dir: Option<PortDir>, scope_id: u32, loc: Location) -> (ok: bool)
        ensures
            ok <==> add_symbol(old(self).view_acc(), name@, kind, dir, scope_id, loc_v(loc)) is Some,
            ok ==> add_symbol(old(self).view_acc(), name@, kind, dir, scope_id, loc_v(loc)) == Some(final(self).view_acc()),
    {
        if self.syms.len() >= (u32::MAX - 1) as usize {
            return false;
        }
        let id = (self.syms.len() + 1) as u32;
        let ghost before = self.syms@.map_values(|s: Symbol| sym_v(s));
        self.syms.push(Symbol { id, name, kind, dir, scope_id, decl_loc: loc, type_ref: None });
        assert(self.syms@.map_values(|s: Symbol| sym_v(s)) =~= before.push(sym_v(self.syms@.last())));
        true
    }

    /// Adds each name as a symbol of `kind` outside any module, at `loc`.
    fn push_names(&mut self, names: Vec<String>, kind: SymbolKind, loc: &Location) -> (ok: bool)
        ensures
            ({
                let st = add_names(Some(old(self).view_acc()), names@.map_values(|n: String| n@), kind, loc_v(*loc));
                &&& ok <==> st is Some
                &&& ok ==> st == Some(final(self).view_acc())
            }),
    {
        let ghost init = self.view_acc();
        let ghost ns = names@.map_values(|n: String| n@);
        let mut i: usize = 0;
        while i < names.len()
            invariant
                i <= names@.len(),
                ns == names@.map_values(|n: String| n@),
                init == old(self).view_acc(),
                add_names(Some(init), ns.take(i as int), kind, loc_v(*loc)) == Some(self.view_acc()),
            decreases names@.len() - i,
        {
            assert(ns.take(i + 1).drop_last() =~= ns.take(i as int));
            assert(ns.take(i + 1).last() == names@[i as int]@);
            let name = names[i].clone();
            assert(name@ == names@[i as int]@);
            if !self.push_symbol(name, kind, None, 0, loc.copy()) {
                proof {
                    lemma_names_none(Some(init), ns, kind, loc_v(*loc), i + 1);
                }
                return false;
            }
            i += 1;
        }
        assert(ns.take(names@.len() as int) =~= ns);
        true
    }
}

/// Group `k` of a match, `None` when there is no such group.
fn group(c: &Vec<Option<(usize, usize)>>, k: usize) -> (r: Option<(usize, usize)>)
    ensures
        r == cap_group(c@, k as int),
{
    if k < c.len() {
        c[k]
    } else {
        None
    }
}

/// The ports of a module header, in scope `scope_id` at the module's location.
fn scan_ports(acc: &mut ScanAcc, header: &str, scope_id: u32, loc: &Location) -> (ok: bool)
    ensures
        ({
            let st = scan_pass(Some(old(acc).view_acc()), port_pattern(), header@, port_step(header.spec_bytes(), scope_id, loc_v(*loc)));
            &&& ok <==> st is Some
            &&& ok ==> st == Some(final(acc).view_acc())
        }),
{
    let caps = match captures_all(port_pattern_str(), header) {
        Some(c) => c,
        None => return false,
    };
    let ghost init = acc.view_acc();
    let ghost cv = caps_view(caps@);
    let ghost step = port_step(header.spec_bytes(), scope_id, loc_v(*loc));
    let mut i: usize = 0;
    while i < caps.len()
        invariant
            i <= caps@.len(),
            cv == caps_view(caps@),
            cv == regex_captures(port_pattern(), header@),
            regex_compiles(port_pattern()),
            init == old(acc).view_acc(),
            spans_within(cv, header.spec_bytes()),
            step == port_step(header.spec_bytes(), scope_id, loc_v(*loc)),
            fold_caps(Some(init), cv.take(i as int), step) == Some(acc.view_acc()),
        decreases caps@.len() - i,
    {
        assert(cv.take(i + 1).drop_last() =~= cv.take(i as int));
        let c = &caps[i];
        assert(c@ == cv[i as int]);
        let ghost pre = acc.view_acc();
        assert(fold_caps(Some(init), cv.take(i + 1), step) == step(pre, cv[i as int]));
        let ok = match (group(c, 1), group(c, 2)) {
            (Some(d), Some(n)) => {
                assert(cv[i as int][1] == Some(d));
                assert(cv[i as int][2] == Some(n));
                let dtext = raw_slice(header, d.0, d.1);
                let name = raw_slice(header, n.0, n.1);
                let dir = if str_eq(dtext.as_str(), "input") {
                    PortDir::Input
                } else if str_eq(dtext.as_str(), "output") {
                    PortDir::Output
                } else {
                    PortDir::Inout
                };
                proof {
                    reveal_strlit("input");
                    reveal_strlit("output");
                }
                assert(dir == dir_of(dtext@));
                acc.push_symbol(name, SymbolKind::Port, Some(dir), scope_id, loc.copy())
            },
            _ => false,
        };
        if !ok {
            proof {
                assert(step(pre, cv[i as int]) is None);
                lemma_fold_none(Some(init), cv, step, i + 1);
            }
            return false;
        }
        i += 1;
    }
    assert(cv.take(caps@.len() as int) =~= cv);
    true
}

/// The modules of `text` and the ports of their headers.
fn scan_modules(acc: &mut ScanAcc, file: &str, text: &str) -> (ok: bool)
    requires
        text@.len() < usize::MAX / 4,
    ensures
        ({
            let st = scan_pass(Some(old(acc).view_acc()), module_pattern(), text@, module_step(file@, text@));
            &&& ok <==> st is Some
            &&& ok ==> st == Some(final(acc).view_acc())
        }),
{
    let caps = match captures_all(module_pattern_str(), text) {
        Some(c) => c,
        None => return false,
    };
    let ghost init = acc.view_acc();
    let ghost cv = caps_view(caps@);
    let ghost step = module_step(file@, text@);
    let ghost b = text.spec_bytes();
    let mut i: usize = 0;
    while i < caps.len()
        invariant
            i <= caps@.len(),
            text@.len() < usize::MAX / 4,
            b == text.spec_bytes(),
            cv == caps_view(caps@),
            cv == regex_captures(module_pattern(), text@),
            regex_compiles(module_pattern()),
            init == old(acc).view_acc(),
            spans_within(cv, b),
            step == module_step(file@, text@),
            fold_caps(Some(init), cv.take(i as int), step) == Some(acc.view_acc()),
        decreases caps@.len() - i,
    {
        assert(cv.take(i + 1).drop_last() =~= cv.take(i as int));
        let c = &caps[i];
        assert(c@ == cv[i as int]);
        let ghost pre = acc.view_acc();
        assert(fold_caps(Some(init), cv.take(i + 1), step) == step(pre, cv[i as int]));
        let ok = match (group(c, 0), group(c, 1), group(c, 2)) {
            (Some(g0), Some(g1), Some(g2)) => {
                assert(cv[i as int][0] == Some(g0));
                assert(cv[i as int][1] == Some(g1));
                assert(cv[i as int][2] == Some(g2));
                if acc.scopes.len() >= (u32::MAX - 1) as usize {
                    false
                } else {
                    let name = raw_slice(text, g1.0, g1.1);
                    let header = raw_slice(text, g2.0, g2.1);
                    let loc = make_loc(file, text, g0.0, g0.1);
                    assert(loc_v(loc) == scan_loc(file@, text@, g0));
                    let sid = (acc.scopes.len() + 1) as u32;
                    let ghost before = acc.scopes@.map_values(|s: Scope| scope_v(s));
                    acc.scopes.push(Scope { id: sid, kind: ScopeKind::Module, name, parent: 0 });
                    assert(acc.scopes@.map_values(|s: Scope| scope_v(s)) =~= before.push(
                        ScopeV { id: sid, kind: ScopeKind::Module, name: span_text(b, g1), parent: 0 },
                    ));
                    scan_ports(acc, header.as_str(), sid, &loc)
                }
            },
            _ => false,
        };
        if !ok {
            proof {
                assert(step(pre, cv[i as int]) is None);
                lemma_fold_none(Some(init), cv, step, i + 1);
            }
            return false;
        }
        i += 1;
    }
    assert(cv.take(caps@.len() as int) =~= cv);
    true
}

/// The parameter lines of `text` and the names they declare.
fn scan_params(acc: &mut ScanAcc, file: &str, text: &str) -> (ok: bool)
    requires
        text@.len() < usize::MAX / 4,
    ensures
        ({
            let st = scan_pass(Some(old(acc).view_acc()), param_pattern(), text@, param_step(file@, text@));
            &&& ok <==> st is Some
            &&& ok ==> st == Some(final(acc).view_acc())
        }),
{
    let caps = match captures_all(param_pattern_str(), text) {
        Some(c) => c,
        None => return false,
    };
    let ghost init = acc.view_acc();
    let ghost cv = caps_view(caps@);
    let ghost step = param_step(file@, text@);
    let ghost b = text.spec_bytes();
    let mut i: usize = 0;
    while i < caps.len()
        invariant
            i <= caps@.len(),
            text@.len() < usize::MAX / 4,
            b == text.spec_bytes(),
            cv == caps_view(caps@),
            cv == regex_captures(param_pattern(), text@),
            regex_compiles(param_pattern()),
            init == old(acc).view_acc(),
            spans_within(cv, b),
            step == param_step(file@, text@),
            fold_caps(Some(init), cv.take(i as int), step) == Some(acc.view_acc()),
        decreases caps@.len() - i,
    {
        assert(cv.take(i + 1).drop_last() =~= cv.take(i as int));
        let c = &caps[i];
        assert(c@ == cv[i as int]);
        let ghost pre = acc.view_acc();
        assert(fold_caps(Some(init), cv.take(i + 1), step) == step(pre, cv[i as int]));
        let ok = match (group(c, 0), group(c, 1), group(c, 2)) {
            (Some(g0), Some(g1), Some(g2)) => {
                assert(cv[i as int][0] == Some(g0));
                assert(cv[i as int][1] == Some(g1));
                assert(cv[i as int][2] == Some(g2));
                let body = raw_slice(text, g2.0, g2.1);
                match split_names(body.as_str()) {
                    Some(names) => {
                        let kw = raw_slice(text, g1.0, g1.1);
                        proof {
                            reveal_strlit("parameter");
                        }
                        let kind = if str_eq(kw.as_str(), "parameter") {
                            SymbolKind::Param
                        } else {
                            SymbolKind::Localparam
                        };
                        let loc = make_loc(file, text, g0.0, g0.1);
                        assert(loc_v(loc) == scan_loc(file@, text@, g0));
                        acc.push_names(names, kind, &loc)
                    },
                    None => false,
                }
            },
            _ => false,
        };
        if !ok {
            proof {
                assert(step(pre, cv[i as int]) is None);
                lemma_fold_none(Some(init), cv, step, i + 1);
            }
            return false;
        }
        i += 1;
    }
    assert(cv.take(caps@.len() as int) =~= cv);
    true
}

/// The typedef lines of `text` and the names they declare.
fn scan_typedefs(acc: &mut ScanAcc, file: &str, text: &str) -> (ok: bool)
    requires
        text@.len() < usize::MAX / 4,
    ensures
        ({
            let st = scan_pass(Some(old(acc).view_acc()), typedef_pattern(), text@, typedef_step(file@, text@));
            &&& ok <==> st is Some
            &&& ok ==> st == Some(final(acc).view_acc())
        }),
{
    let caps = match captures_all(typedef_pattern_str(), text) {
        Some(c) => c,
        None => return false,
    };
    let ghost init = acc.view_acc();
    let ghost cv = caps_view(caps@);
    let ghost step = typedef_step(file@, text@);
    let ghost b = text.spec_bytes();
    let mut i: usize = 0;
    while i < caps.len()
        invariant
            i <= caps@.len(),
            text@.len() < usize::MAX / 4,
            b == text.spec_bytes(),
            cv == caps_view(caps@),
            cv == regex_captures(typedef_pattern(), text@),
            regex_compiles(typedef_pattern()),
            init == old(acc).view_acc(),
            spans_within(cv, b),
            step == typedef_step(file@, text@),
            fold_caps(Some(init), cv.take(i as int), step) == Some(acc.view_acc()),
        decreases caps@.len() - i,
    {
        assert(cv.take(i + 1).drop_last() =~= cv.take(i as int));
        let c = &caps[i];
        assert(c@ == cv[i as int]);
        let ghost pre = acc.view_acc();
        assert(fold_caps(Some(init), cv.take(i + 1), step) == step(pre, cv[i as int]));
        let ok = match (group(c, 0), group(c, 1)) {
            (Some(g0), Some(g1)) => {
                assert(cv[i as int][0] == Some(g0));
                assert(cv[i as int][1] == Some(g1));
                let name = raw_slice(text, g1.0, g1.1);
                let loc = make_loc(file, text, g0.0, g0.1);
                assert(loc_v(loc) == scan_loc(file@, text@, g0));
                acc.push_symbol(name, SymbolKind::Typedef, None, 0, loc)
            },
            _ => false,
        };
        if !ok {
            proof {
                assert(step(pre, cv[i as int]) is None);
                lemma_fold_none(Some(init), cv, step, i + 1);
            }
            return false;
        }
        i += 1;
    }
    assert(cv.take(caps@.len() as int) =~= cv);
    true
}

/// The variable lines of `text` and the names they declare.
fn scan_vars(acc: &mut ScanAcc, file: &str, text: &str) -> (ok: bool)
    requires
        text@.len() < usize::MAX / 4,
    ensures
        ({
            let st = scan_pass(Some(old(acc).view_acc()), var_pattern(), text@, var_step(file@, text@));
            &&& ok <==> st is Some
            &&& ok ==> st == Some(final(acc).view_acc())
        }),
{
    let caps = match captures_all(var_pattern_str(), text) {
        Some(c) => c,
        None => return false,
    };
    let ghost init = acc.view_acc();
    let ghost cv = caps_view(caps@);
    let ghost step = var_step(file@, text@);
    let ghost b = text.spec_bytes();
    let mut i: usize = 0;
    while i < caps.len()
        invariant
            i <= caps@.len(),
            text@.len() < usize::MAX / 4,
            b == text.spec_bytes(),
            cv == caps_view(caps@),
            cv == regex_captures(var_pattern(), text@),
            regex_compiles(var_pattern()),
            init == old(acc).view_acc(),
            spans_within(cv, b),
            step == var_step(file@, text@),
            fold_caps(Some(init), cv.take(i as int), step) == Some(acc.view_acc()),
        decreases caps@.len() - i,
    {
        assert(cv.take(i + 1).drop_last() =~= cv.take(i as int));
        let c = &caps[i];
        assert(c@ == cv[i as int]);
        let ghost pre = acc.view_acc();
        assert(fold_caps(Some(init), cv.take(i + 1), step) == step(pre, cv[i as int]));
        let ok = match (group(c, 0), group(c, 2)) {
            (Some(g0), Some(g2)) => {
                assert(cv[i as int][0] == Some(g0));
                assert(cv[i as int][2] == Some(g2));
                let body = raw_slice(text, g2.0, g2.1);
                match split_names(body.as_str()) {
                    Some(names) => {
                        let loc = make_loc(file, text, g0.0, g0.1);
                        assert(loc_v(loc) == scan_loc(file@, text@, g0));
                        acc.push_names(names, SymbolKind::Var, &loc)
                    },
                    None => false,
                }
            },
            _ => false,
        };
        if !ok {
            proof {
                assert(step(pre, cv[i as int]) is None);
                lemma_fold_none(Some(init), cv, step, i + 1);
            }
            return false;
        }
        i += 1;
    }
    assert(cv.take(caps@.len() as int) =~= cv);
    true
}

/// The modules with their ports, the parameters, typedefs and variables that the patterns find
/// in `text` (see `scan_spec`); no references. Nothing when a pattern is not accepted, a match
/// lacks a group it uses, or a symbol or scope number does not fit.
pub fn collect_from_text(file: &str, text: &str) -> (r: Option<(Vec<Symbol>, Vec<Reference>, Vec<Scope>)>)
    requires
        text@.len() < usize::MAX / 4,
    ensures
        match scan_spec(file@, text@) {
            Some(acc) => r matches Some((syms, refs, scopes)) && syms@.map_values(|s: Symbol| sym_v(s)) == acc.syms
                && refs@.len() == 0 && scopes@.map_values(|s: Scope| scope_v(s)) == acc.scopes,
            None => r is None,
        },
{
    let mut acc = ScanAcc { syms: Vec::new(), scopes: Vec::new() };
    assert(acc.view_acc() =~= UsageAcc { syms: Seq::empty(), scopes: Seq::empty() }) by {
        assert(acc.view_acc().syms =~= Seq::<SymV>::empty());
        assert(acc.view_acc().scopes =~= Seq::<ScopeV>::empty());
    }
    if !scan_modules(&mut acc, file, text) {
        proof {
            lemma_pass_none(param_pattern(), text@, param_step(file@, text@));
            lemma_pass_none(typedef_pattern(), text@, typedef_step(file@, text@));
            lemma_pass_none(var_pattern(), text@, var_step(file@, text@));
        }
        return None;
    }
    if !scan_params(&mut acc, file, text) {
        proof {
            lemma_pass_none(typedef_pattern(), text@, typedef_step(file@, text@));
            lemma_pass_none(var_pattern(), text@, var_step(file@, text@));
        }
        return None;
    }
    if !scan_typedefs(&mut acc, file, text) {
        proof {
            lemma_pass_none(var_pattern(), text@, var_step(file@, text@));
        }
        return None;
    }
    if !scan_vars(&mut acc, file, text) {
        return None;
    }
    Some((acc.syms, Vec::new(), acc.scopes))
}

/// Symbols and scopes are numbered by their positions from 1, and every symbol's scope is 0
/// or a scope found before it.
pub open spec fn numbered(a: UsageAcc) -> bool {
    &&& forall|i: int| 0 <= i < a.syms.len() ==> #[trigger] a.syms[i].id == i + 1
    &&& forall|j: int| 0 <= j < a.scopes.len() ==> #[trigger] a.scopes[j].id == j + 1
    &&& forall|i: int| 0 <= i < a.syms.len() ==> #[trigger] a.syms[i].scope_id <= a.scopes.len()
}

/// A step that keeps the numbering, with at least `k` scopes, keeps it over a whole fold.
proof fn lemma_fold_numbered(
    acc: Option<UsageAcc>,
    caps: Seq<Cap>,
    step: spec_fn(UsageAcc, Cap) -> Option<UsageAcc>,
    k: nat,
)
    requires
        acc matches Some(a) ==> numbered(a) && k <= a.scopes.len(),
        forall|a: UsageAcc, c: Cap|
            numbered(a) && k <= a.scopes.len() && #[trigger] step(a, c) is Some ==> numbered(step(a, c)->0) && k <= (
            step(a, c)->0).scopes.len(),
    ensures
        fold_caps(acc, caps, step) matches Some(a) ==> numbered(a) && k <= a.scopes.len(),
    decreases caps.len(),
{
    if caps.len() > 0 {
        lemma_fold_numbered(acc, caps.drop_last(), step, k);
    }
}

/// Adding names keeps the numbering.
proof fn lemma_names_numbered(acc: Option<UsageAcc>, names: Seq<Seq<char>>, kind: SymbolKind, loc: LocV)
    requires
        acc matches Some(a) ==> numbered(a),
    ensures
        add_names(acc, names, kind, loc) matches Some(a) ==> numbered(a) && a.scopes == acc->0.scopes,
    decreases names.len(),
{
    if names.len() > 0 {
        lemma_names_numbered(acc, names.drop_last(), kind, loc);
    }
}

/// The ports of a module keep the numbering when their scope has been found.
proof fn lemma_port_step_numbered(hb: Seq<u8>, sid: u32, loc: LocV)
    ensures
        forall|a: UsageAcc, c: Cap|
            numbered(a) && sid <= a.scopes.len() && #[trigger] port_step(hb, sid, loc)(a, c) is Some ==> numbered(
                port_step(hb, sid, loc)(a, c)->0,
            ) && sid <= (port_step(hb, sid, loc)(a, c)->0).scopes.len(),
{
}

/// Law: what the scan finds is numbered by position from 1, symbols and scopes alike, and every
/// symbol lies outside any module (0) or in a module found by the scan.
pub proof fn law_scan_numbering(file: Seq<char>, text: Seq<char>)
    ensures
        scan_spec(file, text) matches Some(a) ==> numbered(a),
{
    let empty = UsageAcc { syms: Seq::empty(), scopes: Seq::empty() };
    assert forall|a: UsageAcc, c: Cap| numbered(a) && #[trigger] module_step(file, text)(a, c) is Some implies numbered(
        module_step(file, text)(a, c)->0,
    ) by {
        match (cap_group(c, 0), cap_group(c, 1), cap_group(c, 2)) {
            (Some(g0), Some(g1), Some(g2)) => {
                let b = encode_utf8(text);
                let sid = (a.scopes.len() + 1) as u32;
                let header = span_text(b, g2);
                let a2 = UsageAcc {
                    scopes: a.scopes.push(ScopeV { id: sid, kind: ScopeKind::Module, name: span_text(b, g1), parent: 0 }),
                    ..a
                };
                assert(numbered(a2));
                lemma_port_step_numbered(encode_utf8(header), sid, scan_loc(file, text, g0));
                lemma_fold_numbered(
                    Some(a2),
                    regex_captures(port_pattern(), header),
                    port_step(encode_utf8(header), sid, scan_loc(file, text, g0)),
                    sid as nat,
                );
            },
            _ => {},
        }
    }
    assert forall|a: UsageAcc, c: Cap| numbered(a) && #[trigger] param_step(file, text)(a, c) is Some implies numbered(
        param_step(file, text)(a, c)->0,
    ) by {
        match (cap_group(c, 0), cap_group(c, 1), cap_group(c, 2)) {
            (Some(g0), Some(g1), Some(g2)) => match split_names_spec(span_text(encode_utf8(text), g2)) {
                Some(names) => lemma_names_numbered(
                    Some(a),
                    names,
                    if span_text(encode_utf8(text), g1) == "parameter"@ {
                        SymbolKind::Param
                    } else {
                        SymbolKind::Localparam
                    },
                    scan_loc(file, text, g0),
                ),
                None => {},
            },
            _ => {},
        }
    }
    assert forall|a: UsageAcc, c: Cap| numbered(a) && #[trigger] var_step(file, text)(a, c) is Some implies numbered(
        var_step(file, text)(a, c)->0,
    ) by {
        match (cap_group(c, 0), cap_group(c, 2)) {
            (Some(g0), Some(g2)) => match split_names_spec(span_text(encode_utf8(text), g2)) {
                Some(names) => lemma_names_numbered(Some(a), names, SymbolKind::Var, scan_loc(file, text, g0)),
                None => {},
            },
            _ => {},
        }
    }
    let m = scan_pass(Some(empty), module_pattern(), text, module_step(file, text));
    let p = scan_pass(m, param_pattern(), text, param_step(file, text));
    let t = scan_pass(p, typedef_pattern(), text, typedef_step(file, text));
    lemma_fold_numbered(Some(empty), regex_captures(module_pattern(), text), module_step(file, text), 0);
    lemma_fold_numbered(m, regex_captures(param_pattern(), text), param_step(file, text), 0);
    lemma_fold_numbered(p, regex_captures(typedef_pattern(), text), typedef_step(file, text), 0);
    lemma_fold_numbered(t, regex_captures(var_pattern(), text), var_step(file, text), 0);
}

} // verus!
