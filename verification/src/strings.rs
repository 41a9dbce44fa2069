//! Character-level string helpers shared by the parsers and formatters.
use vstd::prelude::*;
use vstd::string::StringSliceAdditionalSpecFns;
use vstd::utf8::{
    decode_utf8, encode_utf8_decode_utf8, encode_utf8_valid_utf8, is_char_boundary,
    is_char_boundary_iff_not_is_continuation_byte, is_char_boundary_start_end_of_seq, is_continuation_byte,
    valid_utf8, valid_utf8_split,
};

verus! {

/// Whether `c` has the Unicode `White_Space` property (what `char::is_whitespace` tests).
pub open spec fn is_ws(c: char) -> bool {
    ||| ('\u{9}' <= c && c <= '\u{D}')
    ||| c == ' '
    ||| c == '\u{85}'
    ||| c == '\u{A0}'
    ||| c == '\u{1680}'
    ||| ('\u{2000}' <= c && c <= '\u{200A}')
    ||| c == '\u{2028}'
    ||| c == '\u{2029}'
    ||| c == '\u{202F}'
    ||| c == '\u{205F}'
    ||| c == '\u{3000}'
}

/// `s` without leading white space.
pub open spec fn trim_start_spec(s: Seq<char>) -> Seq<char>
    decreases s.len(),
{
    if s.len() > 0 && is_ws(s[0]) {
        trim_start_spec(s.drop_first())
    } else {
        s
    }
}

/// `s` without trailing white space.
pub open spec fn trim_end_spec(s: Seq<char>) -> Seq<char>
    decreases s.len(),
{
    if s.len() > 0 && is_ws(s.last()) {
        trim_end_spec(s.drop_last())
    } else {
        s
    }
}

/// `s` without leading and trailing white space (what `str::trim` returns).
pub open spec fn trim_spec(s: Seq<char>) -> Seq<char> {
    trim_end_spec(trim_start_spec(s))
}

/// Whether `s` begins with `p`.
pub open spec fn has_prefix(s: Seq<char>, p: Seq<char>) -> bool {
    p.len() <= s.len() && s.take(p.len() as int) == p
}

/// Whether `s` ends with `p`.
pub open spec fn has_suffix(s: Seq<char>, p: Seq<char>) -> bool {
    p.len() <= s.len() && s.skip(s.len() - p.len()) == p
}

/// The decimal digit character of `d < 10`.
pub open spec fn digit_char(d: nat) -> char {
    (d + 48) as char
}

/// The decimal representation of `n`, without leading zeros.
pub open spec fn decimal(n: nat) -> Seq<char>
    decreases n,
{
    if n < 10 {
        seq![digit_char(n)]
    } else {
        decimal(n / 10).push(digit_char(n % 10))
    }
}

/// Appends one character to a string (`String::push`).
#[verifier::external_body]
pub(crate) fn push_char(s: &mut String, c: char)
    ensures
        final(s)@ == old(s)@.push(c),
{
    s.push(c);
}

/// The characters of a string slice, in order.
pub fn chars_of(s: &str) -> (v: Vec<char>)
    ensures
        v@ == s@,
{
    let mut v: Vec<char> = Vec::new();
    for c in it: s.chars()
        invariant
            v@ == it.seq().take(it.index() as int),
    {
        v.push(c);
    }
    v
}

/// A string holding the characters `v[from..to]`.
pub fn string_of_range(v: &[char], from: usize, to: usize) -> (r: String)
    requires
        from <= to <= v@.len(),
    ensures
        r@ == v@.subrange(from as int, to as int),
{
    let mut r = String::new();
    let mut i = from;
    while i < to
        invariant
            from <= i <= to <= v@.len(),
            r@ == v@.subrange(from as int, i as int),
        decreases to - i,
    {
        push_char(&mut r, v[i]);
        assert(v@.subrange(from as int, i + 1) =~= v@.subrange(from as int, i as int).push(v@[i as int]));
        i += 1;
    }
    r
}

/// A copy of `s`.
pub fn to_string(s: &str) -> (r: String)
    ensures
        r@ == s@,
{
    s.to_owned()
}

/// Whether `c` has the Unicode `White_Space` property.
pub fn is_whitespace(c: char) -> (r: bool)
    ensures
        r == is_ws(c),
{
    ('\u{9}' <= c && c <= '\u{D}') || c == ' ' || c == '\u{85}' || c == '\u{A0}' || c == '\u{1680}'
        || ('\u{2000}' <= c && c <= '\u{200A}') || c == '\u{2028}' || c == '\u{2029}'
        || c == '\u{202F}' || c == '\u{205F}' || c == '\u{3000}'
}

proof fn lemma_trim_start_skip(s: Seq<char>, i: int)
    requires
        0 <= i <= s.len(),
        forall|k: int| 0 <= k < i ==> is_ws(#[trigger] s[k]),
    ensures
        trim_start_spec(s) == trim_start_spec(s.skip(i)),
    decreases i,
{
    if i > 0 {
        assert(s.drop_first().skip(i - 1) =~= s.skip(i));
        lemma_trim_start_skip(s.drop_first(), i - 1);
    } else {
        assert(s.skip(0) =~= s);
    }
}

proof fn lemma_trim_end_take(s: Seq<char>, j: int)
    requires
        0 <= j <= s.len(),
        forall|k: int| j <= k < s.len() ==> is_ws(#[trigger] s[k]),
    ensures
        trim_end_spec(s) == trim_end_spec(s.take(j)),
    decreases s.len() - j,
{
    if j < s.len() {
        assert(s.drop_last().take(j) =~= s.take(j));
        lemma_trim_end_take(s.drop_last(), j);
    } else {
        assert(s.take(j) =~= s);
    }
}

/// The characters of `v` without leading and trailing white space.
pub fn trim_chars(v: &[char]) -> (r: String)
    ensures
        r@ == trim_spec(v@),
{
    let mut i: usize = 0;
    while i < v.len() && is_whitespace(v[i])
        invariant
            i <= v@.len(),
            forall|k: int| 0 <= k < i ==> is_ws(#[trigger] v@[k]),
        decreases v@.len() - i,
    {
        i += 1;
    }
    proof {
        lemma_trim_start_skip(v@, i as int);
    }
    let mut j: usize = v.len();
    while j > i && is_whitespace(v[j - 1])
        invariant
            i <= j <= v@.len(),
            forall|k: int| j <= k < v@.len() ==> is_ws(#[trigger] v@[k]),
        decreases j,
    {
        j -= 1;
    }
    proof {
        let t = v@.skip(i as int);
        assert(i == v@.len() || !is_ws(v@[i as int]));
        assert(trim_start_spec(t) == t);
        assert forall|k: int| j - i <= k < t.len() implies is_ws(#[trigger] t[k]) by {
            assert(t[k] == v@[k + i]);
        }
        lemma_trim_end_take(t, j - i);
        assert(t.take(j - i) =~= v@.subrange(i as int, j as int));
        let u = v@.subrange(i as int, j as int);
        assert(u.len() == 0 || !is_ws(u.last()));
    }
    string_of_range(v, i, j)
}

/// `s` without leading and trailing white space.
pub fn trim(s: &str) -> (r: String)
    ensures
        r@ == trim_spec(s@),
{
    let v = chars_of(s);
    trim_chars(v.as_slice())
}

/// Whether two character sequences are equal.
pub fn chars_eq(a: &[char], b: &[char]) -> (r: bool)
    ensures
        r == (a@ == b@),
{
    if a.len() != b.len() {
        return false;
    }
    let mut i: usize = 0;
    while i < a.len()
        invariant
            a@.len() == b@.len(),
            i <= a@.len(),
            forall|k: int| 0 <= k < i ==> a@[k] == b@[k],
        decreases a@.len() - i,
    {
        if a[i] != b[i] {
            return false;
        }
        i += 1;
    }
    assert(a@ =~= b@);
    true
}

/// Whether two strings hold the same characters.
pub fn str_eq(a: &str, b: &str) -> (r: bool)
    ensures
        r == (a@ == b@),
{
    let va = chars_of(a);
    let vb = chars_of(b);
    chars_eq(va.as_slice(), vb.as_slice())
}

/// Whether `s` begins with `p`.
pub fn starts_with(s: &str, p: &str) -> (r: bool)
    ensures
        r == has_prefix(s@, p@),
{
    let vs = chars_of(s);
    let vp = chars_of(p);
    if vp.len() > vs.len() {
        return false;
    }
    let mut i: usize = 0;
    while i < vp.len()
        invariant
            vp@.len() <= vs@.len(),
            vs@ == s@,
            vp@ == p@,
            i <= vp@.len(),
            forall|k: int| 0 <= k < i ==> vs@[k] == vp@[k],
        decreases vp@.len() - i,
    {
        if vs[i] != vp[i] {
            assert(s@.take(p@.len() as int)[i as int] != p@[i as int]);
            return false;
        }
        i += 1;
    }
    assert(s@.take(p@.len() as int) =~= p@);
    true
}

/// Whether `s` ends with `p`.
pub fn ends_with(s: &str, p: &str) -> (r: bool)
    ensures
        r == has_suffix(s@, p@),
{
    let vs = chars_of(s);
    let vp = chars_of(p);
    if vp.len() > vs.len() {
        return false;
    }
    let n = vs.len();
    let off = n - vp.len();
    let mut i: usize = 0;
    while i < vp.len()
        invariant
            vp@.len() <= vs@.len(),
            off + vp@.len() == vs@.len(),
            n == vs@.len(),
            vs@ == s@,
            vp@ == p@,
            i <= vp@.len(),
            forall|k: int| 0 <= k < i ==> vs@[k + off] == vp@[k],
        decreases vp@.len() - i,
    {
        if vs[off + i] != vp[i] {
            assert(s@.skip(off as int)[i as int] != p@[i as int]);
            return false;
        }
        i += 1;
    }
    assert(s@.skip(off as int) =~= p@);
    true
}

/// `s` followed by `t`.
pub fn concat(s: &str, t: &str) -> (r: String)
    ensures
        r@ == s@ + t@,
{
    let mut r = s.to_owned();
    r.append(t);
    r
}

/// The decimal representation of `n`.
pub fn decimal_string(n: u64) -> (r: String)
    ensures
        r@ == decimal(n as nat),
    decreases n,
{
    if n < 10 {
        let mut r = String::new();
        push_char(&mut r, char_of_digit(n as u32));
        r
    } else {
        let mut r = decimal_string(n / 10);
        push_char(&mut r, char_of_digit((n % 10) as u32));
        r
    }
}

/// The decimal representation of a signed number, with a leading `'-'` when negative.
pub open spec fn signed_decimal(n: int) -> Seq<char> {
    if n < 0 {
        seq!['-'] + decimal((-n) as nat)
    } else {
        decimal(n as nat)
    }
}

/// The decimal representation of a signed `n`.
pub fn signed_decimal_string(n: i64) -> (r: String)
    ensures
        r@ == signed_decimal(n as int),
{
    if n < 0 {
        let m = (0i128 - (n as i128)) as u64;
        let mut r = String::new();
        push_char(&mut r, '-');
        let d = decimal_string(m);
        r.append(d.as_str());
        assert(r@ =~= seq!['-'] + decimal(m as nat));
        r
    } else {
        decimal_string(n as u64)
    }
}

/// The character of a decimal digit.
fn char_of_digit(d: u32) -> (c: char)
    requires
        d < 10,
    ensures
        c == digit_char(d as nat),
{
    match d {
        0 => '0',
        1 => '1',
        2 => '2',
        3 => '3',
        4 => '4',
        5 => '5',
        6 => '6',
        7 => '7',
        8 => '8',
        _ => '9',
    }
}

/// A copy of each string, in order.
pub fn clone_strings(v: &[String]) -> (r: Vec<String>)
    ensures
        r@ == v@,
{
    let mut r: Vec<String> = Vec::new();
    let mut i: usize = 0;
    while i < v.len()
        invariant
            i <= v@.len(),
            r@ == v@.take(i as int),
        decreases v@.len() - i,
    {
        r.push(v[i].clone());
        assert(v@.take(i + 1) =~= v@.take(i as int).push(v@[i as int]));
        i += 1;
    }
    assert(v@.take(v@.len() as int) =~= v@);
    r
}

/// In valid UTF-8, an ASCII byte starts a character and so does the byte after it.
pub proof fn lemma_ascii_boundaries(b: Seq<u8>, i: int)
    requires
        valid_utf8(b),
        0 <= i < b.len(),
        b[i] < 0x80,
    ensures
        is_char_boundary(b, i),
        is_char_boundary(b, i + 1),
{
    is_char_boundary_iff_not_is_continuation_byte(b, i);
    valid_utf8_split(b, i);
    let t = b.subrange(i, b.len() as int);
    reveal_with_fuel(valid_utf8, 2);
    assert(t[0] == b[i]);
    let rest = t.subrange(1, t.len() as int);
    assert(valid_utf8(rest));
    if i + 1 == b.len() {
        is_char_boundary_start_end_of_seq(b);
    } else {
        assert(rest[0] == b[i + 1]);
        if is_continuation_byte(b[i + 1]) {
            reveal_with_fuel(valid_utf8, 1);
            assert(!is_continuation_byte(rest[0]));
        }
        is_char_boundary_iff_not_is_continuation_byte(b, i + 1);
    }
}

/// A boundary of valid UTF-8 that lies inside a part cut at boundaries is a boundary of that part.
pub proof fn lemma_boundary_in_part(b: Seq<u8>, a: int, e: int, j: int)
    requires
        valid_utf8(b),
        0 <= a <= j <= e <= b.len(),
        is_char_boundary(b, a),
        is_char_boundary(b, e),
        is_char_boundary(b, j),
    ensures
        valid_utf8(b.subrange(a, e)),
        is_char_boundary(b.subrange(a, e), j - a),
{
    valid_utf8_split(b, e);
    let h = b.subrange(0, e);
    if a < e {
        is_char_boundary_iff_not_is_continuation_byte(b, a);
        is_char_boundary_iff_not_is_continuation_byte(h, a);
    } else {
        is_char_boundary_start_end_of_seq(h);
    }
    valid_utf8_split(h, a);
    assert(h.subrange(a, h.len() as int) =~= b.subrange(a, e));
    let m = b.subrange(a, e);
    is_char_boundary_start_end_of_seq(m);
    if a < j && j < e {
        is_char_boundary_iff_not_is_continuation_byte(b, j);
        is_char_boundary_iff_not_is_continuation_byte(m, j - a);
    }
}

/// The characters of `text` between byte offsets `a` and `e`, without surrounding white space.
pub fn trimmed_slice(text: &str, a: usize, e: usize) -> (r: String)
    requires
        a <= e <= text.spec_bytes().len(),
        is_char_boundary(text.spec_bytes(), a as int),
        is_char_boundary(text.spec_bytes(), e as int),
    ensures
        valid_utf8(text.spec_bytes().subrange(a as int, e as int)),
        r@ == trim_spec(decode_utf8(text.spec_bytes().subrange(a as int, e as int))),
{
    let ghost b = text.spec_bytes();
    proof {
        encode_utf8_valid_utf8(text@);
        lemma_boundary_in_part(b, 0, e as int, a as int);
        lemma_boundary_in_part(b, a as int, e as int, a as int);
        assert(b.subrange(0, e as int).subrange(a as int, e as int) =~= b.subrange(a as int, e as int));
        assert(b.subrange(0, e as int).subrange(0, e as int) =~= b.subrange(0, e as int));
    }
    let (head, _tail) = text.split_at(e);
    let (_pre, mid) = head.split_at(a);
    proof {
        assert(mid.spec_bytes() =~= b.subrange(a as int, e as int));
        encode_utf8_decode_utf8(mid@);
    }
    trim(mid)
}

/// How `str`'s `Debug` shows `s`: quoted, with special characters escaped.
pub uninterp spec fn debug_text(s: Seq<char>) -> Seq<char>;

/// `format!("{:?}", s)`: the string quoted, with special characters escaped.
#[verifier::external_body]
pub(crate) fn debug_str(s: &str) -> (r: String)
    ensures
        r@ == debug_text(s@),
{
    format!("{:?}", s)
}

/// How a list of strings is shown by `Debug`: each shown quoted, separated by `", "`, in brackets.
pub open spec fn debug_list(v: Seq<Seq<char>>) -> Seq<char> {
    "["@ + debug_items(v) + "]"@
}

/// The items of `debug_list`, separated by `", "`.
pub open spec fn debug_items(v: Seq<Seq<char>>) -> Seq<char>
    decreases v.len(),
{
    if v.len() == 0 {
        Seq::empty()
    } else if v.len() == 1 {
        debug_text(v[0])
    } else {
        debug_items(v.drop_last()) + ", "@ + debug_text(v.last())
    }
}

/// How a list of strings is shown by `Debug`.
pub fn debug_string_list(v: &[String]) -> (r: String)
    ensures
        r@ == debug_list(v@.map_values(|s: String| s@)),
{
    let ghost w = v@.map_values(|s: String| s@);
    let mut items = String::new();
    let mut i: usize = 0;
    while i < v.len()
        invariant
            i <= v@.len(),
            w == v@.map_values(|s: String| s@),
            items@ == debug_items(w.take(i as int)),
        decreases v@.len() - i,
    {
        assert(w.take(i + 1).drop_last() =~= w.take(i as int));
        proof {
            reveal_strlit(", ");
        }
        if i > 0 {
            items.append(", ");
        }
        let d = debug_str(v[i].as_str());
        items.append(d.as_str());
        i += 1;
    }
    assert(w.take(v@.len() as int) =~= w);
    proof {
        reveal_strlit("[");
        reveal_strlit("]");
    }
    let a = concat("[", items.as_str());
    concat(a.as_str(), "]")
}

/// Whether `a` comes before `b` in lexicographic order of their characters (the order of
/// `String`, since UTF-8 keeps the order of code points).
pub open spec fn str_lt(a: Seq<char>, b: Seq<char>) -> bool {
    exists|k: int|
        0 <= k <= a.len() && k <= b.len() && a.take(k) == b.take(k) && ((k == a.len() && k < b.len()) || (k < a.len()
            && k < b.len() && (a[k] as u32) < (b[k] as u32)))
}

/// `<[String]>::sort`: the same strings, in non-decreasing order.
#[verifier::external_body]
pub(crate) fn sort_strings(v: Vec<String>) -> (r: Vec<String>)
    ensures
        r@.map_values(|s: String| s@).to_multiset() == v@.map_values(|s: String| s@).to_multiset(),
        forall|i: int, j: int|
            0 <= i < j < r@.len() ==> !str_lt(#[trigger] r@[j]@, #[trigger] r@[i]@),
{
    let mut v = v;
    v.sort();
    v
}

/// The characters of `text` between byte offsets `a` and `e`.
pub fn raw_slice(text: &str, a: usize, e: usize) -> (r: String)
    requires
        a <= e <= text.spec_bytes().len(),
        is_char_boundary(text.spec_bytes(), a as int),
        is_char_boundary(text.spec_bytes(), e as int),
    ensures
        valid_utf8(text.spec_bytes().subrange(a as int, e as int)),
        r@ == decode_utf8(text.spec_bytes().subrange(a as int, e as int)),
{
    let ghost b = text.spec_bytes();
    proof {
        encode_utf8_valid_utf8(text@);
        lemma_boundary_in_part(b, 0, e as int, a as int);
        lemma_boundary_in_part(b, a as int, e as int, a as int);
        assert(b.subrange(0, e as int).subrange(a as int, e as int) =~= b.subrange(a as int, e as int));
        assert(b.subrange(0, e as int).subrange(0, e as int) =~= b.subrange(0, e as int));
    }
    let (head, _tail) = text.split_at(e);
    let (_pre, mid) = head.split_at(a);
    proof {
        assert(mid.spec_bytes() =~= b.subrange(a as int, e as int));
        encode_utf8_decode_utf8(mid@);
    }
    to_string(mid)
}

/// The pieces of `s` between occurrences of `sep` (what `str::split(sep)` gives).
pub open spec fn split_on(s: Seq<char>, sep: char) -> Seq<Seq<char>>
    decreases s.len(),
{
    if s.len() == 0 {
        seq![Seq::empty()]
    } else {
        let p = split_on(s.drop_last(), sep);
        if s.last() == sep {
            p.push(Seq::empty())
        } else {
            p.update(p.len() - 1, p.last().push(s.last()))
        }
    }
}

/// The pieces of `s` between occurrences of `sep`.
pub fn split_char(s: &str, sep: char) -> (r: Vec<String>)
    ensures
        r@.map_values(|x: String| x@) == split_on(s@, sep),
{
    let v = chars_of(s);
    let mut done: Vec<String> = Vec::new();
    let mut cur = String::new();
    let mut i: usize = 0;
    while i < v.len()
        invariant
            i <= v@.len(),
            v@ == s@,
            split_on(s@.take(i as int), sep) == done@.map_values(|x: String| x@).push(cur@),
        decreases v@.len() - i,
    {
        assert(s@.take(i + 1).drop_last() =~= s@.take(i as int));
        let c = v[i];
        if c == sep {
            let ghost before = done@.map_values(|x: String| x@);
            let finished = cur;
            done.push(finished);
            cur = String::new();
            assert(done@.map_values(|x: String| x@) =~= before.push(done@.map_values(|x: String| x@).last()));
        } else {
            push_char(&mut cur, c);
            assert(split_on(s@.take(i + 1), sep) =~= done@.map_values(|x: String| x@).push(cur@));
        }
        i += 1;
    }
    assert(s@.take(s@.len() as int) =~= s@);
    done.push(cur);
    done
}

} // verus!
