//! Text helpers: byte-order marks, line endings, line offsets and previews.
use crate::strings::{chars_of, push_char, string_of_range};
use vstd::prelude::*;
use vstd::string::StringSliceAdditionalSpecFns;
use vstd::utf8::{decode_utf8, encode_utf8, encode_utf8_decode_utf8, is_char_boundary};

verus! {

/// The byte order mark, U+FEFF.
pub open spec fn bom_char() -> char {
    '\u{FEFF}'
}

/// `s` without one leading byte order mark.
pub open spec fn strip_bom_spec(s: Seq<char>) -> Seq<char> {
    if s.len() > 0 && s[0] == bom_char() {
        s.drop_first()
    } else {
        s
    }
}

/// `s` with every `"\r\n"` replaced by `"\n"`, left to right.
pub open spec fn replace_crlf(s: Seq<char>) -> Seq<char>
    decreases s.len(),
{
    if s.len() == 0 {
        s
    } else if s.len() >= 2 && s[0] == '\r' && s[1] == '\n' {
        seq!['\n'] + replace_crlf(s.skip(2))
    } else {
        seq![s[0]] + replace_crlf(s.skip(1))
    }
}

/// `c`, or `'\n'` when `c` is a carriage return.
pub open spec fn cr_to_lf_char(c: char) -> char {
    if c == '\r' {
        '\n'
    } else {
        c
    }
}

/// `s` with every `'\r'` replaced by `'\n'`.
pub open spec fn cr_to_lf(s: Seq<char>) -> Seq<char> {
    s.map_values(|c: char| cr_to_lf_char(c))
}

/// Line endings normalised to `'\n'`: first `"\r\n"`, then lone `'\r'`.
pub open spec fn normalize_lf_spec(s: Seq<char>) -> Seq<char> {
    cr_to_lf(replace_crlf(s))
}

/// The byte value of `'\n'`.
pub open spec fn lf_byte() -> u8 {
    10u8
}

/// The byte offsets at which lines start: 0, then one past every `'\n'` byte.
pub open spec fn line_starts_of(b: Seq<u8>) -> Seq<usize>
    decreases b.len(),
{
    if b.len() == 0 {
        seq![0usize]
    } else if b.last() == lf_byte() {
        line_starts_of(b.drop_last()).push(b.len() as usize)
    } else {
        line_starts_of(b.drop_last())
    }
}

/// The largest byte offset `e <= k` that is 0 or a character boundary of `b`.
pub open spec fn floor_char_boundary(b: Seq<u8>, k: int) -> int
    decreases k,
{
    if k <= 0 {
        0
    } else if is_char_boundary(b, k) {
        k
    } else {
        floor_char_boundary(b, k - 1)
    }
}

/// The text appended to a shortened preview.
pub open spec fn ellipsis() -> Seq<char> {
    seq![' ', '.', '.', '.']
}

/// The preview of `s` cut to at most `max` bytes, as `truncate_preview_utf8` gives it.
pub open spec fn truncate_preview_spec(s: Seq<char>, max: int) -> Seq<char> {
    let b = encode_utf8(s);
    if b.len() <= max {
        s
    } else {
        let e = floor_char_boundary(b, max);
        if e == 0 {
            Seq::empty()
        } else {
            decode_utf8(b.take(e)) + ellipsis()
        }
    }
}

/// Removes one leading byte order mark.
pub fn strip_bom(s: String) -> (r: String)
    ensures
        r@ == strip_bom_spec(s@),
{
    let v = chars_of(s.as_str());
    if v.len() > 0 && v[0] == '\u{FEFF}' {
        assert(v@.subrange(1, v@.len() as int) =~= v@.drop_first());
        string_of_range(v.as_slice(), 1, v.len())
    } else {
        s
    }
}

proof fn lemma_cr_to_lf_concat(a: Seq<char>, b: Seq<char>)
    ensures
        cr_to_lf(a + b) == cr_to_lf(a) + cr_to_lf(b),
{
    assert(cr_to_lf(a + b) =~= cr_to_lf(a) + cr_to_lf(b));
}

/// Converts `"\r\n"` and lone `'\r'` line endings to `'\n'`.
pub fn normalize_lf(s: String) -> (r: String)
    ensures
        r@ == normalize_lf_spec(s@),
{
    let v = chars_of(s.as_str());
    let ghost sv = v@;
    let mut out = String::new();
    let mut i: usize = 0;
    assert(sv.skip(0) =~= sv);
    while i < v.len()
        invariant
            sv == v@,
            i <= v@.len(),
            out@ + cr_to_lf(replace_crlf(sv.skip(i as int))) == normalize_lf_spec(sv),
        decreases v@.len() - i,
    {
        let ghost rest = sv.skip(i as int);
        if v[i] == '\r' && i + 1 < v.len() && v[i + 1] == '\n' {
            proof {
                assert(rest.skip(2) =~= sv.skip(i + 2));
                lemma_cr_to_lf_concat(seq!['\n'], replace_crlf(sv.skip(i + 2)));
                assert(cr_to_lf(seq!['\n']) =~= seq!['\n']);
                assert(out@.push('\n') =~= out@ + seq!['\n']);
            }
            push_char(&mut out, '\n');
            i += 2;
        } else {
            let c = if v[i] == '\r' { '\n' } else { v[i] };
            proof {
                assert(rest.skip(1) =~= sv.skip(i + 1));
                lemma_cr_to_lf_concat(seq![sv[i as int]], replace_crlf(sv.skip(i + 1)));
                assert(cr_to_lf(seq![sv[i as int]]) =~= seq![c]);
                assert(out@.push(c) =~= out@ + seq![c]);
            }
            push_char(&mut out, c);
            i += 1;
        }
    }
    proof {
        assert(sv.skip(i as int) =~= Seq::<char>::empty());
        assert(cr_to_lf(Seq::<char>::empty()) =~= Seq::<char>::empty());
        assert(out@ + Seq::<char>::empty() =~= out@);
    }
    out
}

/// The byte offsets at which the lines of `s` start.
pub fn line_starts(s: &str) -> (v: Vec<usize>)
    ensures
        v@ == line_starts_of(s.spec_bytes()),
{
    let b = s.as_bytes();
    let mut v: Vec<usize> = Vec::new();
    v.push(0);
    let mut i: usize = 0;
    assert(b@.take(0) =~= Seq::<u8>::empty());
    while i < b.len()
        invariant
            i <= b@.len(),
            b@ == s.spec_bytes(),
            v@ == line_starts_of(b@.take(i as int)),
        decreases b@.len() - i,
    {
        assert(b@.take(i + 1).drop_last() =~= b@.take(i as int));
        if b[i] == 10u8 {
            v.push(i + 1);
        }
        i += 1;
    }
    assert(b@.take(b@.len() as int) =~= b@);
    v
}

/// The index found by binary search: 0, or a position whose start is at most `pos`,
/// followed by the end or by a start beyond `pos`.
pub open spec fn is_search_result(starts: Seq<usize>, pos: usize, lo: int) -> bool {
    &&& 0 <= lo < starts.len()
    &&& (lo == 0 || starts[lo] <= pos)
    &&& (lo + 1 == starts.len() || starts[lo + 1] > pos)
}

/// Binary search over line starts: see `is_search_result`.
pub(crate) fn search_line(starts: &[usize], pos: usize) -> (lo: usize)
    requires
        starts@.len() > 0,
    ensures
        is_search_result(starts@, pos, lo as int),
{
    let mut lo: usize = 0;
    let mut hi: usize = starts.len();
    while lo + 1 < hi
        invariant
            lo < hi <= starts@.len(),
            lo == 0 || starts@[lo as int] <= pos,
            hi == starts@.len() || starts@[hi as int] > pos,
        decreases hi - lo,
    {
        let mid = lo + (hi - lo) / 2;
        if starts[mid] <= pos {
            lo = mid;
        } else {
            hi = mid;
        }
    }
    lo
}

/// Whether `r` is the (line, column) that the binary search gives for `pos`: (1, 1) without
/// line starts, else the line found and the distance from its start, both counted from 1.
pub open spec fn is_linecol(starts: Seq<usize>, pos: usize, r: (u32, u32)) -> bool {
    if starts.len() == 0 {
        r == (1u32, 1u32)
    } else {
        exists|lo: int|
            #![trigger is_search_result(starts, pos, lo)]
            is_search_result(starts, pos, lo) && r == (
                (lo + 1) as u32,
                ((if pos >= starts[lo] { pos - starts[lo] } else { 0 }) + 1) as u32,
            )
    }
}

/// Line and column (1-based) of a byte offset, given the line start offsets.
pub fn linecol_at(starts: &[usize], byte_idx: usize) -> (r: (u32, u32))
    requires
        byte_idx < usize::MAX,
    ensures
        is_linecol(starts@, byte_idx, r),
{
    if starts.len() == 0 {
        return (1, 1);
    }
    let lo = search_line(starts, byte_idx);
    let line = (lo + 1) as u32;
    let col = (byte_idx.saturating_sub(starts[lo]) + 1) as u32;
    assert(is_search_result(starts@, byte_idx, lo as int));
    (line, col)
}

/// A preview of `s` at most `max` bytes long, cut at a character boundary and
/// followed by `" ..."` when it was shortened.
pub fn truncate_preview_utf8(s: &str, max: usize) -> (r: String)
    ensures
        r@ == truncate_preview_spec(s@, max as int),
{
    let bytes = s.as_bytes();
    if bytes.len() <= max {
        return s.to_owned();
    }
    let ghost b = s.spec_bytes();
    let mut end = max;
    while end > 0 && !s.is_char_boundary(end)
        invariant
            end <= max < b.len(),
            b == s.spec_bytes(),
            floor_char_boundary(b, max as int) == floor_char_boundary(b, end as int),
        decreases end,
    {
        end -= 1;
    }
    if end == 0 {
        return String::new();
    }
    let (head, _tail) = s.split_at(end);
    proof {
        encode_utf8_decode_utf8(head@);
    }
    let mut t = head.to_owned();
    t.append(" ...");
    proof {
        reveal_strlit(" ...");
        assert(" ..."@ =~= ellipsis());
    }
    t
}

/// `replace_crlf` leaves a text without carriage returns unchanged.
proof fn lemma_replace_crlf_no_cr(s: Seq<char>)
    requires
        forall|i: int| 0 <= i < s.len() ==> s[i] != '\r',
    ensures
        replace_crlf(s) == s,
    decreases s.len(),
{
    if s.len() > 0 {
        lemma_replace_crlf_no_cr(s.skip(1));
        assert(seq![s[0]] + s.skip(1) =~= s);
    }
}

/// Normalised text holds no carriage return.
pub proof fn law_normalize_lf_has_no_cr(s: Seq<char>)
    ensures
        forall|i: int| 0 <= i < normalize_lf_spec(s).len() ==> #[trigger] normalize_lf_spec(s)[i] != '\r',
{
}

/// Normalising line endings twice gives what normalising once gives.
pub proof fn law_normalize_lf_idempotent(s: Seq<char>)
    ensures
        normalize_lf_spec(normalize_lf_spec(s)) == normalize_lf_spec(s),
{
    let t = normalize_lf_spec(s);
    law_normalize_lf_has_no_cr(s);
    lemma_replace_crlf_no_cr(t);
    assert(cr_to_lf(t) =~= t);
}

/// Text without carriage returns is left as it is by normalising.
pub proof fn law_normalize_lf_keeps_text_without_cr(s: Seq<char>)
    requires
        forall|i: int| 0 <= i < s.len() ==> s[i] != '\r',
    ensures
        normalize_lf_spec(s) == s,
{
    lemma_replace_crlf_no_cr(s);
    assert(cr_to_lf(s) =~= s);
}

/// The pieces of `s` between line breaks, where a line break is `"\r\n"`, a lone `'\r'`
/// or a lone `'\n'`; `cur` is the text of the piece begun before `s`.
pub open spec fn line_pieces_from(s: Seq<char>, cur: Seq<char>) -> Seq<Seq<char>>
    decreases s.len(),
{
    if s.len() == 0 {
        seq![cur]
    } else if s.len() >= 2 && s[0] == '\r' && s[1] == '\n' {
        seq![cur] + line_pieces_from(s.skip(2), Seq::empty())
    } else if s[0] == '\r' || s[0] == '\n' {
        seq![cur] + line_pieces_from(s.skip(1), Seq::empty())
    } else {
        line_pieces_from(s.skip(1), cur.push(s[0]))
    }
}

/// The pieces of `s` between `'\n'` characters, continuing the piece `cur`
/// (what `str::split('\n')` yields).
pub open spec fn lf_pieces_from(s: Seq<char>, cur: Seq<char>) -> Seq<Seq<char>>
    decreases s.len(),
{
    if s.len() == 0 {
        seq![cur]
    } else if s[0] == '\n' {
        seq![cur] + lf_pieces_from(s.skip(1), Seq::empty())
    } else {
        lf_pieces_from(s.skip(1), cur.push(s[0]))
    }
}

proof fn lemma_lf_pieces_normalized(s: Seq<char>, cur: Seq<char>)
    ensures
        lf_pieces_from(normalize_lf_spec(s), cur) == line_pieces_from(s, cur),
    decreases s.len(),
{
    if s.len() > 0 {
        let n = normalize_lf_spec(s);
        if s.len() >= 2 && s[0] == '\r' && s[1] == '\n' {
            lemma_cr_to_lf_concat(seq!['\n'], replace_crlf(s.skip(2)));
            assert(cr_to_lf(seq!['\n']) =~= seq!['\n']);
            assert(n.skip(1) =~= normalize_lf_spec(s.skip(2)));
            lemma_lf_pieces_normalized(s.skip(2), Seq::empty());
        } else {
            lemma_cr_to_lf_concat(seq![s[0]], replace_crlf(s.skip(1)));
            assert(cr_to_lf(seq![s[0]]) =~= seq![cr_to_lf_char(s[0])]);
            assert(n.skip(1) =~= normalize_lf_spec(s.skip(1)));
            if s[0] == '\r' || s[0] == '\n' {
                lemma_lf_pieces_normalized(s.skip(1), Seq::empty());
            } else {
                lemma_lf_pieces_normalized(s.skip(1), cur.push(s[0]));
            }
        }
    }
}

/// The lines of normalised text, split at `'\n'`, are the pieces of the original text
/// between its `"\r\n"`, lone `'\r'` and lone `'\n'` line breaks.
pub proof fn law_normalize_lf_lines(s: Seq<char>)
    ensures
        lf_pieces_from(normalize_lf_spec(s), Seq::empty()) == line_pieces_from(s, Seq::empty()),
{
    lemma_lf_pieces_normalized(s, Seq::empty());
}

/// A shortened preview keeps at most `max` bytes of the text, cut at a character
/// boundary, before the ellipsis.
pub proof fn law_truncate_preview_bounded(s: Seq<char>, max: int)
    requires
        encode_utf8(s).len() > max >= 0,
    ensures
        0 <= floor_char_boundary(encode_utf8(s), max) <= max,
        floor_char_boundary(encode_utf8(s), max) == 0 || is_char_boundary(
            encode_utf8(s),
            floor_char_boundary(encode_utf8(s), max),
        ),
    decreases max,
{
    if max > 0 && !is_char_boundary(encode_utf8(s), max) {
        law_truncate_preview_bounded(s, max - 1);
    }
}

} // verus!
