//! Mapping byte offsets of a text to 1-based line and column numbers.
use crate::textutil::{is_linecol, is_search_result, lf_byte, line_starts_of, search_line};
use vstd::prelude::*;
use vstd::string::StringSliceAdditionalSpecFns;

verus! {

/// A byte range `[start, end)` of a text.
#[derive(Clone, Copy, Debug, PartialEq, Eq, Structural)]
pub struct SpanBytes {
    pub start: usize,
    pub end: usize,
}

impl SpanBytes {
    /// A span from `start` to `end`.
    pub fn new(start: usize, end: usize) -> (r: Self)
        ensures
            r == (SpanBytes { start, end }),
    {
        Self { start, end }
    }
}

/// A span in 1-based line and column numbers.
#[derive(Clone, Copy, Debug, PartialEq, Eq, Structural)]
pub struct SpanLines {
    pub line: u32,
    pub col: u32,
    pub end_line: u32,
    pub end_col: u32,
}

/// The number of `'\n'` bytes in `b`.
pub open spec fn newline_count(b: Seq<u8>) -> nat
    decreases b.len(),
{
    if b.len() == 0 {
        0
    } else {
        newline_count(b.drop_last()) + if b.last() == lf_byte() { 1nat } else { 0nat }
    }
}

/// The offset at which the last line of `b` starts: one past its last `'\n'`, or 0.
pub open spec fn last_line_start(b: Seq<u8>) -> nat
    decreases b.len(),
{
    if b.len() == 0 {
        0
    } else if b.last() == lf_byte() {
        b.len()
    } else {
        last_line_start(b.drop_last())
    }
}

/// `pos` clamped to the length of `b`.
pub open spec fn clamp(b: Seq<u8>, pos: usize) -> int {
    if pos <= b.len() {
        pos as int
    } else {
        b.len() as int
    }
}

/// The 1-based line of offset `pos` in `b`: one more than the newlines before it.
pub open spec fn line_of(b: Seq<u8>, pos: int) -> int {
    newline_count(b.take(pos)) + 1int
}

/// The 1-based column of offset `pos` in `b`: one more than its distance from the line start.
pub open spec fn col_of(b: Seq<u8>, pos: int) -> int {
    pos - last_line_start(b.take(pos)) + 1
}

/// The line/column span of `span` in the text `b`, offsets clamped to the text.
pub open spec fn span_lines_of(b: Seq<u8>, span: SpanBytes) -> SpanLines {
    let s = clamp(b, span.start);
    let e = clamp(b, span.end);
    SpanLines {
        line: line_of(b, s) as u32,
        col: col_of(b, s) as u32,
        end_line: line_of(b, e) as u32,
        end_col: col_of(b, e) as u32,
    }
}

/// Line starts of a text, answering offset-to-line queries by binary search.
pub struct LineMap {
    starts: Vec<usize>,
    len: usize,
    text: Ghost<Seq<u8>>,
}

impl View for LineMap {
    type V = Seq<u8>;

    /// The bytes of the text the map was built from.
    closed spec fn view(&self) -> Seq<u8> {
        self.text@
    }
}

proof fn lemma_line_starts_bounded(b: Seq<u8>)
    requires
        b.len() <= usize::MAX,
    ensures
        line_starts_of(b).len() == newline_count(b) + 1,
        line_starts_of(b)[0] == 0,
        forall|i: int| 0 <= i < line_starts_of(b).len() ==> #[trigger] line_starts_of(b)[i] <= b.len(),
        forall|i: int, j: int|
            0 <= i < j < line_starts_of(b).len() ==> line_starts_of(b)[i] < line_starts_of(b)[j],
        line_starts_of(b).last() == last_line_start(b),
    decreases b.len(),
{
    if b.len() > 0 {
        let b1 = b.drop_last();
        lemma_line_starts_bounded(b1);
        let p = line_starts_of(b1);
        if b.last() == lf_byte() {
            let q = p.push(b.len() as usize);
            assert forall|i: int, j: int| 0 <= i < j < q.len() implies q[i] < q[j] by {
                if j == q.len() - 1 {
                    assert(q[i] == p[i]);
                    assert(p[i] <= b1.len());
                }
            }
        }
    }
}

proof fn lemma_line_starts_prefix(b: Seq<u8>, pos: int)
    requires
        0 <= pos <= b.len(),
        b.len() <= usize::MAX,
    ensures
        newline_count(b.take(pos)) + 1int <= line_starts_of(b).len(),
        line_starts_of(b).take(newline_count(b.take(pos)) + 1int) == line_starts_of(b.take(pos)),
        newline_count(b.take(pos)) + 1int == line_starts_of(b).len()
            || line_starts_of(b)[newline_count(b.take(pos)) + 1int] > pos,
    decreases b.len(),
{
    lemma_line_starts_bounded(b);
    if pos == b.len() {
        assert(b.take(pos) =~= b);
        assert(line_starts_of(b).take(line_starts_of(b).len() as int) =~= line_starts_of(b));
    } else {
        let b1 = b.drop_last();
        assert(b.take(pos) =~= b1.take(pos));
        lemma_line_starts_prefix(b1, pos);
        lemma_line_starts_bounded(b1);
        let c = newline_count(b.take(pos)) + 1int;
        if b.last() == lf_byte() {
            assert(line_starts_of(b).take(c) =~= line_starts_of(b1).take(c));
        }
    }
}

/// The index a search for `pos` finds among the line starts of `b` is the number of
/// newlines before `pos`, and the start found is where the line of `pos` begins.
proof fn lemma_search_is_line(b: Seq<u8>, pos: usize, lo: int)
    requires
        pos <= b.len(),
        b.len() <= usize::MAX,
        is_search_result(line_starts_of(b), pos, lo),
    ensures
        lo == newline_count(b.take(pos as int)),
        line_starts_of(b)[lo] == last_line_start(b.take(pos as int)),
{
    let st = line_starts_of(b);
    let p = b.take(pos as int);
    lemma_line_starts_bounded(b);
    lemma_line_starts_bounded(p);
    lemma_line_starts_prefix(b, pos as int);
    let c = newline_count(p) as int;
    assert(st[c] == line_starts_of(p)[c]);
    assert(st[c] <= pos);
    if lo < c {
        assert(st[lo + 1] <= st[c]);
    } else if lo > c {
        assert(st[lo] >= st[c + 1]);
    }
}

proof fn lemma_newline_count_bounded(b: Seq<u8>)
    ensures
        newline_count(b) <= b.len(),
    decreases b.len(),
{
    if b.len() > 0 {
        lemma_newline_count_bounded(b.drop_last());
    }
}

/// The line and column that `linecol_at` gives for an offset of a text, over the text's
/// line starts, recover the offset: the line is one more than the newlines before it, and
/// the offset is the start of that line plus the column less one.
pub proof fn law_linecol_recovers_offset(b: Seq<u8>, idx: usize, r: (u32, u32))
    requires
        idx <= b.len(),
        b.len() < u32::MAX,
        is_linecol(line_starts_of(b), idx, r),
    ensures
        r.0 >= 1,
        r.1 >= 1,
        r.0 - 1 == newline_count(b.take(idx as int)),
        line_starts_of(b)[r.0 - 1] + r.1 - 1 == idx,
{
    let st = line_starts_of(b);
    lemma_line_starts_bounded(b);
    lemma_newline_count_bounded(b);
    let lo = choose|lo: int|
        #![trigger is_search_result(st, idx, lo)]
        is_search_result(st, idx, lo) && r == (
            (lo + 1) as u32,
            ((if idx >= st[lo] { idx - st[lo] } else { 0 }) + 1) as u32,
        );
    lemma_search_is_line(b, idx, lo);
    assert(st[lo] <= idx);
}

/// Mapping a span to lines agrees with `linecol_at` over the line starts of the text, at
/// both ends of the span clamped to the text.
pub proof fn law_to_lines_agrees_with_linecol(b: Seq<u8>, span: SpanBytes, r1: (u32, u32), r2: (u32, u32))
    requires
        b.len() < u32::MAX,
        is_linecol(line_starts_of(b), clamp(b, span.start) as usize, r1),
        is_linecol(line_starts_of(b), clamp(b, span.end) as usize, r2),
    ensures
        span_lines_of(b, span) == (SpanLines { line: r1.0, col: r1.1, end_line: r2.0, end_col: r2.1 }),
{
    let s = clamp(b, span.start) as usize;
    let e = clamp(b, span.end) as usize;
    law_linecol_recovers_offset(b, s, r1);
    law_linecol_recovers_offset(b, e, r2);
    let st = line_starts_of(b);
    lemma_line_starts_bounded(b);
    let lo1 = choose|lo: int|
        #![trigger is_search_result(st, s, lo)]
        is_search_result(st, s, lo) && r1 == (
            (lo + 1) as u32,
            ((if s >= st[lo] { s - st[lo] } else { 0 }) + 1) as u32,
        );
    let lo2 = choose|lo: int|
        #![trigger is_search_result(st, e, lo)]
        is_search_result(st, e, lo) && r2 == (
            (lo + 1) as u32,
            ((if e >= st[lo] { e - st[lo] } else { 0 }) + 1) as u32,
        );
    lemma_search_is_line(b, s, lo1);
    lemma_search_is_line(b, e, lo2);
    lemma_newline_count_bounded(b.take(s as int));
    lemma_newline_count_bounded(b.take(e as int));
}

impl LineMap {
    /// Whether the cached line starts and length belong to the text.
    #[verifier::type_invariant]
    closed spec fn inv(self) -> bool {
        &&& self.starts@ == line_starts_of(self.text@)
        &&& self.len == self.text@.len()
    }

    /// Builds the line starts of `s`.
    pub fn new(s: &str) -> (r: Self)
        ensures
            r@ == s.spec_bytes(),
    {
        let b = s.as_bytes();
        let mut starts: Vec<usize> = Vec::with_capacity(1024);
        starts.push(0);
        let mut i: usize = 0;
        assert(b@.take(0) =~= Seq::<u8>::empty());
        while i < b.len()
            invariant
                i <= b@.len(),
                starts@ == line_starts_of(b@.take(i as int)),
            decreases b@.len() - i,
        {
            assert(b@.take(i + 1).drop_last() =~= b@.take(i as int));
            if b[i] == 10u8 {
                starts.push(i + 1);
            }
            i += 1;
        }
        assert(b@.take(b@.len() as int) =~= b@);
        Self { starts, len: b.len(), text: Ghost(b@) }
    }

    /// Maps a byte span to lines and columns; offsets beyond the text are clamped to its end.
    pub fn to_lines(&self, span: SpanBytes) -> (r: SpanLines)
        requires
            newline_count(self@) < u32::MAX,
            self@.len() < usize::MAX,
        ensures
            r == span_lines_of(self@, span),
    {
        proof {
            use_type_invariant(self);
        }
        let s = if span.start < self.len { span.start } else { self.len };
        let e = if span.end < self.len { span.end } else { self.len };
        let s_line_idx = self.lower_bound_line(s);
        let e_line_idx = self.lower_bound_line(e);
        proof {
            lemma_search_is_line(self.text@, s, s_line_idx as int);
            lemma_search_is_line(self.text@, e, e_line_idx as int);
            lemma_line_starts_bounded(self.text@);
        }
        let s_col = (s.saturating_sub(self.starts[s_line_idx]) + 1) as u32;
        let e_col = (e.saturating_sub(self.starts[e_line_idx]) + 1) as u32;
        SpanLines {
            line: (s_line_idx as u32) + 1,
            col: s_col,
            end_line: (e_line_idx as u32) + 1,
            end_col: e_col,
        }
    }

    /// The index of the line containing byte offset `pos`.
    fn lower_bound_line(&self, pos: usize) -> (lo: usize)
        ensures
            is_search_result(line_starts_of(self@), pos, lo as int),
    {
        proof {
            use_type_invariant(self);
            lemma_line_starts_bounded(self.text@);
        }
        search_line(self.starts.as_slice(), pos)
    }

    /// The byte offsets at which lines start.
    pub fn starts(&self) -> (r: &Vec<usize>)
        ensures
            r@ == line_starts_of(self@),
    {
        proof {
            use_type_invariant(self);
        }
        &self.starts
    }
}

} // verus!
