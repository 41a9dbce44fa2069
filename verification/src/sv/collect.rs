//! Assignments found by scanning source text, and symbol use counts.
use crate::strings::{lemma_ascii_boundaries, trim_spec, trimmed_slice};
use crate::engine::linemap::{span_lines_of, SpanBytes};
use crate::strings::to_string;
use crate::sv::model::{
    AssignOp, Assignment, DeclKind, Declaration, PortInfo, Reference, ReferenceKind, SymbolClass, SymbolUsage,
};
use crate::sv::source::SourceFile;
use crate::types::Location;
use std::collections::HashSet;
use vstd::utf8::encode_utf8;
use vstd::prelude::*;
use vstd::string::StringSliceAdditionalSpecFns;
use vstd::utf8::{decode_utf8, encode_utf8_valid_utf8, is_char_boundary, valid_utf8};

verus! {

/// Open `(`, `[` and `{` nesting depths.
pub struct Depths {
    pub paren: nat,
    pub brack: nat,
    pub brace: nat,
}

/// One less than `n`, but not below 0.
pub open spec fn dec(n: nat) -> nat {
    if n > 0 {
        (n - 1) as nat
    } else {
        0
    }
}

/// The depths after byte `c`: `(` 40, `[` 91 and `{` 123 open, `)` 41, `]` 93 and `}` 125 close
/// (closing never goes below 0).
pub open spec fn depth_step(d: Depths, c: u8) -> Depths {
    if c == 40u8 {
        Depths { paren: d.paren + 1, ..d }
    } else if c == 41u8 {
        Depths { paren: dec(d.paren), ..d }
    } else if c == 91u8 {
        Depths { brack: d.brack + 1, ..d }
    } else if c == 93u8 {
        Depths { brack: dec(d.brack), ..d }
    } else if c == 123u8 {
        Depths { brace: d.brace + 1, ..d }
    } else if c == 125u8 {
        Depths { brace: dec(d.brace), ..d }
    } else {
        d
    }
}

/// No bracket is open.
pub open spec fn at_top(d: Depths) -> bool {
    d.paren == 0 && d.brack == 0 && d.brace == 0
}

/// The depths at the start of a scan.
pub open spec fn no_depths() -> Depths {
    Depths { paren: 0, brack: 0, brace: 0 }
}

/// The byte at `i`, or 0 outside `b`.
pub open spec fn byte_at(b: Seq<u8>, i: int) -> u8 {
    if 0 <= i < b.len() {
        b[i]
    } else {
        0
    }
}

/// The assignment operator that starts at `i` outside all brackets, if one does: `<=` (60, 61),
/// or an `=` (61) that is neither preceded nor followed by another `=`.
pub open spec fn op_at(b: Seq<u8>, i: int, d: Depths) -> Option<AssignOp> {
    if b[i] == 60u8 && i + 1 < b.len() && b[i + 1] == 61u8 && at_top(d) {
        Some(AssignOp::Nonblocking)
    } else if b[i] == 61u8 && byte_at(b, i - 1) != 61u8 && byte_at(b, i + 1) != 61u8 && at_top(d) {
        Some(AssignOp::BlockingOrCont)
    } else {
        None
    }
}

/// The first assignment operator at or after `i`, before any `;` (59), with its position.
pub open spec fn find_op(b: Seq<u8>, i: int, d: Depths) -> Option<(AssignOp, int)>
    decreases b.len() - i,
{
    if i < 0 || i >= b.len() {
        None
    } else if b[i] == 59u8 {
        None
    } else if op_at(b, i, d) is Some {
        Some((op_at(b, i, d)->0, i))
    } else {
        find_op(b, i + 1, depth_step(d, b[i]))
    }
}

/// The position of the first `;` at or after `i` outside all brackets.
pub open spec fn find_end(b: Seq<u8>, i: int, d: Depths) -> Option<int>
    decreases b.len() - i,
{
    if i < 0 || i >= b.len() {
        None
    } else if b[i] == 59u8 && at_top(d) {
        Some(i)
    } else {
        find_end(b, i + 1, depth_step(d, b[i]))
    }
}

/// The length of the operator.
pub open spec fn op_len(op: AssignOp) -> int {
    match op {
        AssignOp::Nonblocking => 2,
        AssignOp::BlockingOrCont => 1,
    }
}

/// The characters of `b[a..e]`, without surrounding white space.
pub open spec fn trimmed_part(b: Seq<u8>, a: int, e: int) -> Seq<char> {
    trim_spec(decode_utf8(b.subrange(a, e)))
}

/// The right-hand side range that starts at `rhs_start`: up to the first `;` outside all brackets.
pub fn find_rhs_range(text: &str, rhs_start: usize) -> (r: Option<(usize, usize)>)
    ensures
        r == (match find_end(text.spec_bytes(), rhs_start as int, no_depths()) {
            Some(e) => Some((rhs_start, e as usize)),
            None => None,
        }),
{
    let bytes = text.as_bytes();
    let ghost b = text.spec_bytes();
    let mut i = rhs_start;
    let mut dp: usize = 0;
    let mut dk: usize = 0;
    let mut dc: usize = 0;
    while i < bytes.len()
        invariant
            b == bytes@,
            b == text.spec_bytes(),
            rhs_start <= i,
            dp <= i - rhs_start,
            dk <= i - rhs_start,
            dc <= i - rhs_start,
            find_end(b, rhs_start as int, no_depths()) == find_end(
                b,
                i as int,
                Depths { paren: dp as nat, brack: dk as nat, brace: dc as nat },
            ),
        decreases bytes@.len() - i,
    {
        let c = bytes[i];
        if c == 59u8 && dp == 0 && dk == 0 && dc == 0 {
            return Some((rhs_start, i));
        }
        if c == 40u8 {
            dp += 1;
        } else if c == 41u8 {
            dp = dp.saturating_sub(1);
        } else if c == 91u8 {
            dk += 1;
        } else if c == 93u8 {
            dk = dk.saturating_sub(1);
        } else if c == 123u8 {
            dc += 1;
        } else if c == 125u8 {
            dc = dc.saturating_sub(1);
        }
        i += 1;
    }
    None
}

/// The assignment operator scan from `lhs_start` as plain values: the operator, the
/// left-hand side and right-hand side texts and the right-hand side's byte range.
pub open spec fn assignment_at(b: Seq<u8>, lhs_start: int) -> Option<(AssignOp, Seq<char>, Seq<char>, int, int)> {
    match find_op(b, lhs_start, no_depths()) {
        None => None,
        Some((op, i)) => match find_end(b, i + op_len(op), no_depths()) {
            None => None,
            Some(e) => Some((op, trimmed_part(b, lhs_start, i), trimmed_part(b, i + op_len(op), e), i + op_len(op), e)),
        },
    }
}

/// Scans from the start of an assignment's left-hand side to its operator, outside all brackets
/// and before any `;`, and from there to the `;` that ends the right-hand side. Gives the
/// operator, both sides without surrounding white space, and the right-hand side's byte range.
pub fn scan_assignment_at(text: &str, lhs_start: usize) -> (r: Option<(AssignOp, String, String, usize, usize)>)
    requires
        find_op(text.spec_bytes(), lhs_start as int, no_depths()) is Some ==> is_char_boundary(
            text.spec_bytes(),
            lhs_start as int,
        ),
    ensures
        match assignment_at(text.spec_bytes(), lhs_start as int) {
            None => r is None,
            Some((op, lhs, rhs, s, e)) => r matches Some((op2, l2, r2, s2, e2)) && op2 == op && l2@ == lhs && r2@
                == rhs && s2 == s && e2 == e,
        },
{
    let bytes = text.as_bytes();
    let ghost b = text.spec_bytes();
    proof {
        encode_utf8_valid_utf8(text@);
    }
    let mut i = lhs_start;
    let mut dp: usize = 0;
    let mut dk: usize = 0;
    let mut dc: usize = 0;
    while i < bytes.len()
        invariant
            b == bytes@,
            b == text.spec_bytes(),
            valid_utf8(b),
            find_op(b, lhs_start as int, no_depths()) is Some ==> is_char_boundary(b, lhs_start as int),
            lhs_start <= i,
            dp <= i - lhs_start,
            dk <= i - lhs_start,
            dc <= i - lhs_start,
            find_op(b, lhs_start as int, no_depths()) == find_op(
                b,
                i as int,
                Depths { paren: dp as nat, brack: dk as nat, brace: dc as nat },
            ),
        decreases bytes@.len() - i,
    {
        let c = bytes[i];
        if c == 59u8 {
            return None;
        }
        let top = dp == 0 && dk == 0 && dc == 0;
        if c == 60u8 && i + 1 < bytes.len() && bytes[i + 1] == 61u8 && top {
            proof {
                lemma_ascii_boundaries(b, i as int);
                lemma_ascii_boundaries(b, i + 1);
            }
            let rng = find_rhs_range(text, i + 2);
            match rng {
                None => {
                    return None;
                },
                Some((rs, re)) => {
                    proof {
                        lemma_end_is_semicolon(b, rs as int, no_depths());
                        lemma_ascii_boundaries(b, re as int);
                    }
                    let lhs = trimmed_slice(text, lhs_start, i);
                    let rhs = trimmed_slice(text, rs, re);
                    return Some((AssignOp::Nonblocking, lhs, rhs, rs, re));
                },
            }
        }
        if c == 61u8 {
            let prev: u8 = if i > 0 {
                bytes[i - 1]
            } else {
                0
            };
            let next: u8 = if i + 1 < bytes.len() {
                bytes[i + 1]
            } else {
                0
            };
            if prev != 61u8 && next != 61u8 && top {
                proof {
                    lemma_ascii_boundaries(b, i as int);
                }
                let rng = find_rhs_range(text, i + 1);
                match rng {
                    None => {
                        return None;
                    },
                    Some((rs, re)) => {
                        proof {
                            lemma_end_is_semicolon(b, rs as int, no_depths());
                            lemma_ascii_boundaries(b, re as int);
                        }
                        let lhs = trimmed_slice(text, lhs_start, i);
                        let rhs = trimmed_slice(text, rs, re);
                        return Some((AssignOp::BlockingOrCont, lhs, rhs, rs, re));
                    },
                }
            }
        }
        if c == 40u8 {
            dp += 1;
        } else if c == 41u8 {
            dp = dp.saturating_sub(1);
        } else if c == 91u8 {
            dk += 1;
        } else if c == 93u8 {
            dk = dk.saturating_sub(1);
        } else if c == 123u8 {
            dc += 1;
        } else if c == 125u8 {
            dc = dc.saturating_sub(1);
        }
        i += 1;
    }
    None
}

/// The end that `find_end` gives holds a `;` and lies at or after its start.
proof fn lemma_end_is_semicolon(b: Seq<u8>, i: int, d: Depths)
    ensures
        find_end(b, i, d) matches Some(e) ==> i <= e < b.len() && b[e] == 59u8,
    decreases b.len() - i,
{
    if 0 <= i < b.len() && !(b[i] == 59u8 && at_top(d)) {
        lemma_end_is_semicolon(b, i + 1, depth_step(d, b[i]));
    }
}

/// The class whose uses are counted for a declaration kind, if any.
pub open spec fn class_of(k: DeclKind) -> Option<SymbolClass> {
    match k {
        DeclKind::Param => Some(SymbolClass::Param),
        DeclKind::Net => Some(SymbolClass::Net),
        DeclKind::Var => Some(SymbolClass::Var),
        _ => None,
    }
}

/// A module name as plain values.
pub open spec fn module_view(m: Option<String>) -> Option<Seq<char>> {
    match m {
        Some(s) => Some(s@),
        None => None,
    }
}

/// A (module, name, class) key.
pub type UsageKey = (Option<Seq<char>>, Seq<char>, SymbolClass);

/// The key of a declaration whose uses are counted.
pub open spec fn usage_key(d: Declaration) -> Option<UsageKey> {
    match class_of(d.kind) {
        Some(c) => Some((module_view(d.module), d.name@, c)),
        None => None,
    }
}

/// The distinct keys of the counted declarations, in the order of first occurrence.
pub open spec fn usage_keys(ds: Seq<Declaration>) -> Seq<UsageKey>
    decreases ds.len(),
{
    if ds.len() == 0 {
        Seq::empty()
    } else {
        let p = usage_keys(ds.drop_last());
        match usage_key(ds.last()) {
            Some(k) => if p.contains(k) {
                p
            } else {
                p.push(k)
            },
            None => p,
        }
    }
}

/// The index of the last declaration with key `k`, or -1.
pub open spec fn last_decl(ds: Seq<Declaration>, k: UsageKey) -> int
    decreases ds.len(),
{
    if ds.len() == 0 {
        -1
    } else if usage_key(ds.last()) == Some(k) {
        ds.len() - 1
    } else {
        last_decl(ds.drop_last(), k)
    }
}

/// The number of references of kind `kind` to `name` in `module`.
pub open spec fn count_refs(rs: Seq<Reference>, module: Option<Seq<char>>, name: Seq<char>, kind: ReferenceKind) -> nat
    decreases rs.len(),
{
    if rs.len() == 0 {
        0
    } else {
        let x = rs.last();
        count_refs(rs.drop_last(), module, name, kind) + if module_view(x.module) == module && x.name@ == name
            && x.kind == kind {
            1nat
        } else {
            0nat
        }
    }
}

/// Whether `u` counts the uses of key `k`.
pub open spec fn usage_for(u: SymbolUsage, k: UsageKey, ds: Seq<Declaration>, rs: Seq<Reference>) -> bool {
    let reads = count_refs(rs, k.0, k.1, ReferenceKind::Read);
    let writes = count_refs(rs, k.0, k.1, ReferenceKind::Write);
    &&& module_view(u.module) == k.0
    &&& u.name@ == k.1
    &&& u.class == k.2
    &&& u.read_count == reads
    &&& u.write_count == writes
    &&& u.ref_count == reads + writes
    &&& u.used == (reads + writes > 0)
    &&& u.loc == ds[last_decl(ds, k)].loc
}

/// Whether `out` holds one usage per distinct (module, name, class) of the parameter, net and
/// variable declarations, in the order of first declaration, each with the location of its
/// last declaration and the numbers of reads and writes of that module and name.
pub open spec fn is_usage_list(out: Seq<SymbolUsage>, ds: Seq<Declaration>, rs: Seq<Reference>) -> bool {
    let keys = usage_keys(ds);
    &&& out.len() == keys.len()
    &&& forall|i: int| 0 <= i < keys.len() ==> usage_for(#[trigger] out[i], keys[i], ds, rs)
}

/// The reads and writes of `name` in `module` are no more than the references.
proof fn lemma_counts_bounded(rs: Seq<Reference>, module: Option<Seq<char>>, name: Seq<char>)
    ensures
        count_refs(rs, module, name, ReferenceKind::Read) + count_refs(rs, module, name, ReferenceKind::Write)
            <= rs.len(),
    decreases rs.len(),
{
    if rs.len() > 0 {
        lemma_counts_bounded(rs.drop_last(), module, name);
    }
}

/// The numbers of reads and writes of `name` in `module`.
fn count_uses(refs: &[Reference], module: &Option<String>, name: &String) -> (r: (usize, usize))
    ensures
        r.0 == count_refs(refs@, module_view(*module), name@, ReferenceKind::Read),
        r.1 == count_refs(refs@, module_view(*module), name@, ReferenceKind::Write),
{
    let mut reads: usize = 0;
    let mut writes: usize = 0;
    let mut i: usize = 0;
    while i < refs.len()
        invariant
            i <= refs@.len(),
            reads == count_refs(refs@.take(i as int), module_view(*module), name@, ReferenceKind::Read),
            writes == count_refs(refs@.take(i as int), module_view(*module), name@, ReferenceKind::Write),
        decreases refs@.len() - i,
    {
        proof {
            assert(refs@.take(i + 1).drop_last() =~= refs@.take(i as int));
            lemma_counts_bounded(refs@.take(i as int), module_view(*module), name@);
        }
        let x = &refs[i];
        if same_module(&x.module, module) && x.name == *name {
            match x.kind {
                ReferenceKind::Read => {
                    reads = reads + 1;
                },
                ReferenceKind::Write => {
                    writes = writes + 1;
                },
            }
        }
        i += 1;
    }
    assert(refs@.take(refs@.len() as int) =~= refs@);
    (reads, writes)
}

/// Whether two module names are equal.
fn same_module(a: &Option<String>, b: &Option<String>) -> (r: bool)
    ensures
        r == (module_view(*a) == module_view(*b)),
{
    match (a, b) {
        (Some(x), Some(y)) => *x == *y,
        (None, None) => true,
        _ => false,
    }
}

/// The position of the usage with key (`module`, `name`, `class`), if there is one.
fn find_usage(out: &Vec<SymbolUsage>, module: &Option<String>, name: &String, class: SymbolClass) -> (r: Option<
    usize,
>)
    ensures
        r matches Some(p) ==> p < out@.len() && (module_view(out@[p as int].module), out@[p as int].name@, out@[p as int].class)
            == (module_view(*module), name@, class),
        r is None ==> forall|p: int|
            0 <= p < out@.len() ==> (module_view(#[trigger] out@[p].module), out@[p].name@, out@[p].class) != (
                module_view(*module),
                name@,
                class,
            ),
{
    let mut i: usize = 0;
    while i < out.len()
        invariant
            i <= out@.len(),
            forall|p: int|
                0 <= p < i ==> (module_view(#[trigger] out@[p].module), out@[p].name@, out@[p].class) != (
                    module_view(*module),
                    name@,
                    class,
                ),
        decreases out@.len() - i,
    {
        if same_module(&out[i].module, module) && out[i].name == *name && out[i].class == class {
            return Some(i);
        }
        i += 1;
    }
    None
}

/// The keys of `usage_keys` are pairwise distinct, and each is the key of some declaration.
proof fn lemma_usage_keys(ds: Seq<Declaration>)
    ensures
        forall|i: int, j: int| 0 <= i < j < usage_keys(ds).len() ==> usage_keys(ds)[i] != usage_keys(ds)[j],
        forall|i: int| 0 <= i < usage_keys(ds).len() ==> last_decl(ds, #[trigger] usage_keys(ds)[i]) >= 0,
    decreases ds.len(),
{
    if ds.len() > 0 {
        let p = usage_keys(ds.drop_last());
        lemma_usage_keys(ds.drop_last());
        let u = usage_keys(ds);
        assert forall|i: int, j: int| 0 <= i < j < u.len() implies u[i] != u[j] by {
            if j == p.len() {
                assert(u[i] == p[i]);
            }
        }
        assert forall|i: int| 0 <= i < u.len() implies last_decl(ds, #[trigger] u[i]) >= 0 by {
            if i < p.len() {
                assert(u[i] == p[i]);
            }
        }
    }
}

/// `last_decl` is -1 or a valid index.
proof fn lemma_last_decl_range(ds: Seq<Declaration>, k: UsageKey)
    ensures
        -1 <= last_decl(ds, k) < ds.len(),
    decreases ds.len(),
{
    if ds.len() > 0 && usage_key(ds.last()) != Some(k) {
        lemma_last_decl_range(ds.drop_last(), k);
    }
}

/// The parameter, net and variable symbols of a file with how often each is read and written.
pub fn analyze_symbols(decls: &[Declaration], refs: &[Reference]) -> (r: Vec<SymbolUsage>)
    ensures
        is_usage_list(r@, decls@, refs@),
{
    let ghost ds = decls@;
    let mut out: Vec<SymbolUsage> = Vec::new();
    let mut di: usize = 0;
    while di < decls.len()
        invariant
            di <= ds.len(),
            ds == decls@,
            is_usage_list(out@, ds.take(di as int), refs@),
        decreases ds.len() - di,
    {
        let d = &decls[di];
        let class = match d.kind {
            DeclKind::Param => Some(SymbolClass::Param),
            DeclKind::Net => Some(SymbolClass::Net),
            DeclKind::Var => Some(SymbolClass::Var),
            _ => None,
        };
        let ghost pds = ds.take(di as int);
        let ghost nds = ds.take(di + 1);
        assert(nds.drop_last() =~= pds);
        assert(nds.last() == ds[di as int]);
        proof {
            lemma_usage_keys(pds);
        }
        let ghost old_out = out@;
        match class {
            None => {
                assert(usage_keys(nds) == usage_keys(pds));
                assert forall|q: int| 0 <= q < usage_keys(nds).len() implies usage_for(
                    #[trigger] out@[q],
                    usage_keys(nds)[q],
                    nds,
                    refs@,
                ) by {
                    let k = usage_keys(nds)[q];
                    assert(usage_for(old_out[q], k, pds, refs@));
                    lemma_last_decl_range(pds, k);
                    assert(last_decl(nds, k) == last_decl(pds, k));
                    assert(nds[last_decl(pds, k)] == pds[last_decl(pds, k)]);
                }
            },
            Some(c) => {
                let ghost key = (module_view(d.module), d.name@, c);
                assert(usage_key(*d) == Some(key));
                match find_usage(&out, &d.module, &d.name, c) {
                    Some(p) => {
                        let loc = d.loc.copy();
                        let mut u = out[p].copy_usage();
                        u.loc = loc;
                        out.set(p, u);
                        assert(usage_keys(pds)[p as int] == key);
                        assert(usage_keys(pds).contains(key));
                        assert(usage_keys(nds) == usage_keys(pds));
                        assert forall|q: int| 0 <= q < usage_keys(nds).len() implies usage_for(
                            #[trigger] out@[q],
                            usage_keys(nds)[q],
                            nds,
                            refs@,
                        ) by {
                            let k = usage_keys(nds)[q];
                            assert(usage_for(old_out[q], k, pds, refs@));
                            if q == p {
                                assert(last_decl(nds, k) == di);
                            } else {
                                assert(k != key);
                                lemma_last_decl_range(pds, k);
                                assert(last_decl(nds, k) == last_decl(pds, k));
                                assert(nds[last_decl(pds, k)] == pds[last_decl(pds, k)]);
                            }
                        }
                    },
                    None => {
                        let (reads, writes) = count_uses(refs, &d.module, &d.name);
                        proof {
                            lemma_counts_bounded(refs@, module_view(d.module), d.name@);
                        }
                        let n_refs = refs.len();
                        assert(reads + writes <= n_refs);
                        let total = reads + writes;
                        let name = d.name.clone();
                        let module = match &d.module {
                            Some(m) => Some(m.clone()),
                            None => None,
                        };
                        out.push(
                            SymbolUsage {
                                module,
                                name,
                                class: c,
                                ref_count: total,
                                read_count: reads,
                                write_count: writes,
                                used: total > 0,
                                loc: d.loc.copy(),
                            },
                        );
                        assert(!usage_keys(pds).contains(key)) by {
                            if usage_keys(pds).contains(key) {
                                let q = choose|q: int| 0 <= q < usage_keys(pds).len() && usage_keys(pds)[q] == key;
                                assert(usage_for(old_out[q], key, pds, refs@));
                            }
                        }
                        assert(usage_keys(nds) == usage_keys(pds).push(key));
                        assert forall|q: int| 0 <= q < usage_keys(nds).len() implies usage_for(
                            #[trigger] out@[q],
                            usage_keys(nds)[q],
                            nds,
                            refs@,
                        ) by {
                            let k = usage_keys(nds)[q];
                            if q == old_out.len() {
                                assert(last_decl(nds, k) == di);
                            } else {
                                assert(usage_for(old_out[q], k, pds, refs@));
                                assert(k != key);
                                lemma_last_decl_range(pds, k);
                                assert(last_decl(nds, k) == last_decl(pds, k));
                                assert(nds[last_decl(pds, k)] == pds[last_decl(pds, k)]);
                            }
                        }
                    },
                }
            },
        }
        di += 1;
    }
    assert(ds.take(ds.len() as int) =~= ds);
    out
}

impl SymbolUsage {
    /// A copy holding the same values.
    pub fn copy_usage(&self) -> (r: Self)
        ensures
            r == *self,
    {
        SymbolUsage {
            module: match &self.module {
                Some(m) => Some(m.clone()),
                None => None,
            },
            name: self.name.clone(),
            class: self.class,
            ref_count: self.ref_count,
            read_count: self.read_count,
            write_count: self.write_count,
            used: self.used,
            loc: self.loc.copy(),
        }
    }
}

/// Law: a symbol's reference count is its reads plus its writes, and it is used exactly when
/// that count is not zero.
pub proof fn law_usage_counts_add_up(out: Seq<SymbolUsage>, ds: Seq<Declaration>, rs: Seq<Reference>)
    requires
        is_usage_list(out, ds, rs),
    ensures
        forall|i: int|
            0 <= i < out.len() ==> #[trigger] out[i].ref_count == out[i].read_count + out[i].write_count
                && out[i].used == (out[i].ref_count > 0),
{
    assert forall|i: int| 0 <= i < out.len() implies #[trigger] out[i].ref_count == out[i].read_count
        + out[i].write_count && out[i].used == (out[i].ref_count > 0) by {
        assert(usage_for(out[i], usage_keys(ds)[i], ds, rs));
    }
}

/// Law: no two usages share module, name and class.
pub proof fn law_usages_distinct(out: Seq<SymbolUsage>, ds: Seq<Declaration>, rs: Seq<Reference>)
    requires
        is_usage_list(out, ds, rs),
    ensures
        forall|i: int, j: int|
            0 <= i < j < out.len() ==> (module_view(#[trigger] out[i].module), out[i].name@, out[i].class) != (
                module_view(#[trigger] out[j].module),
                out[j].name@,
                out[j].class,
            ),
{
    lemma_usage_keys(ds);
    assert forall|i: int, j: int| 0 <= i < j < out.len() implies (
        module_view(#[trigger] out[i].module),
        out[i].name@,
        out[i].class,
    ) != (module_view(#[trigger] out[j].module), out[j].name@, out[j].class) by {
        assert(usage_for(out[i], usage_keys(ds)[i], ds, rs));
        assert(usage_for(out[j], usage_keys(ds)[j], ds, rs));
    }
}

/// A port direction keyword.
#[derive(Clone, Copy, Debug, PartialEq, Eq, Structural)]
pub enum PortDir {
    Input,
    Output,
    Inout,
    Ref,
}

/// The header of an ANSI net port: a net port header with an optional direction, or an
/// interface port header.
#[derive(Clone, Copy, Debug, PartialEq, Eq, Structural)]
pub enum NetPortHeader {
    NetPort(Option<PortDir>),
    Interface,
}

/// The text of a direction keyword.
pub open spec fn dir_text(d: PortDir) -> Seq<char> {
    match d {
        PortDir::Input => "input"@,
        PortDir::Output => "output"@,
        PortDir::Inout => "inout"@,
        PortDir::Ref => "ref"@,
    }
}

/// The direction text of an optional direction: `"unspecified"` when there is none.
pub open spec fn opt_dir_text(d: Option<PortDir>) -> Seq<char> {
    match d {
        Some(d) => dir_text(d),
        None => "unspecified"@,
    }
}

/// The text of a direction keyword.
pub fn port_direction_to_str(dir: PortDir) -> (r: &'static str)
    ensures
        r@ == dir_text(dir),
{
    match dir {
        PortDir::Input => "input",
        PortDir::Output => "output",
        PortDir::Inout => "inout",
        PortDir::Ref => "ref",
    }
}

/// The direction of an ANSI net port: that of its net port header, `"interface"` for an
/// interface port header, `"unspecified"` otherwise.
pub fn net_header_direction(header: Option<NetPortHeader>) -> (r: &'static str)
    ensures
        r@ == (match header {
            Some(NetPortHeader::NetPort(d)) => opt_dir_text(d),
            Some(NetPortHeader::Interface) => "interface"@,
            None => "unspecified"@,
        }),
{
    match header {
        Some(NetPortHeader::NetPort(Some(d))) => port_direction_to_str(d),
        Some(NetPortHeader::NetPort(None)) => "unspecified",
        Some(NetPortHeader::Interface) => "interface",
        None => "unspecified",
    }
}

/// The direction of an ANSI variable port, given the direction of its header if it has one.
pub fn variable_header_direction(header: Option<Option<PortDir>>) -> (r: &'static str)
    ensures
        r@ == (match header {
            Some(d) => opt_dir_text(d),
            None => "unspecified"@,
        }),
{
    match header {
        Some(Some(d)) => port_direction_to_str(d),
        _ => "unspecified",
    }
}

/// The header of an ANSI port declaration, by its form.
#[derive(Clone, Copy, Debug, PartialEq, Eq, Structural)]
pub enum AnsiHeader {
    Net(Option<NetPortHeader>),
    Variable(Option<Option<PortDir>>),
    Paren(Option<PortDir>),
}

/// The direction text of an ANSI port header.
pub open spec fn ansi_dir_text(h: AnsiHeader) -> Seq<char> {
    match h {
        AnsiHeader::Net(Some(NetPortHeader::NetPort(d))) => opt_dir_text(d),
        AnsiHeader::Net(Some(NetPortHeader::Interface)) => "interface"@,
        AnsiHeader::Net(None) => "unspecified"@,
        AnsiHeader::Variable(Some(d)) => opt_dir_text(d),
        AnsiHeader::Variable(None) => "unspecified"@,
        AnsiHeader::Paren(d) => opt_dir_text(d),
    }
}

fn ansi_direction(h: AnsiHeader) -> (r: &'static str)
    ensures
        r@ == ansi_dir_text(h),
{
    match h {
        AnsiHeader::Net(n) => net_header_direction(n),
        AnsiHeader::Variable(v) => variable_header_direction(v),
        AnsiHeader::Paren(Some(d)) => port_direction_to_str(d),
        AnsiHeader::Paren(None) => "unspecified",
    }
}

/// An identifier under a node: its text, and where it comes from: its byte offset and
/// length in the source file with index `source`.
#[derive(Clone, Debug)]
pub struct IdentAt {
    pub name: String,
    pub origin: usize,
    pub len: usize,
    pub source: usize,
}

/// One event of the walk over a syntax tree, with the identifier found under the node.
#[derive(Clone, Debug)]
pub enum AstEvent {
    /// Entering an ANSI or non-ANSI module declaration, with its module identifier.
    EnterModule(Option<IdentAt>),
    /// Entering a declaration of the given kind; `assign` for a net or variable declaration
    /// assignment, whose initialiser is an assignment.
    EnterDecl(DeclKind, bool, Option<IdentAt>),
    /// Entering a non-ANSI port declaration with the given direction keyword.
    EnterPortDirection(String),
    /// Entering an ANSI port declaration.
    EnterAnsiPort(AnsiHeader, Option<IdentAt>),
    /// Entering a named port connection; `true` when it has an expression.
    EnterNamedPortConnection(bool, Option<IdentAt>),
    EnterPortIdentifier(Option<IdentAt>),
    /// Entering a net or variable lvalue.
    EnterLvalue(Option<IdentAt>),
    /// Entering a hierarchical or simple identifier.
    EnterIdentifier(Option<IdentAt>),
    LeaveModule,
    LeavePortDirection,
    Other,
}

/// A location as plain values.
pub struct LocV {
    pub line: u32,
    pub col: u32,
    pub end_line: u32,
    pub end_col: u32,
    pub file: Option<Seq<char>>,
}

/// The plain values of a location.
pub open spec fn loc_v(l: Location) -> LocV {
    LocV { line: l.line, col: l.col, end_line: l.end_line, end_col: l.end_col, file: module_view(l.file) }
}

/// The location of bytes `start..end` of source `s`.
pub open spec fn loc_in(s: SourceFile, start: int, end: int) -> LocV {
    let sl = span_lines_of(encode_utf8(s.text@), SpanBytes { start: start as usize, end: end as usize });
    LocV { line: sl.line, col: sl.col, end_line: sl.end_line, end_col: sl.end_col, file: Some(s.display@) }
}

/// A declaration as plain values.
pub struct DeclV {
    pub kind: DeclKind,
    pub name: Seq<char>,
    pub module: Option<Seq<char>>,
    pub loc: LocV,
}

/// A reference as plain values.
pub struct RefV {
    pub name: Seq<char>,
    pub module: Option<Seq<char>>,
    pub kind: ReferenceKind,
    pub loc: LocV,
}

/// An assignment as plain values.
pub struct AssignV {
    pub module: Option<Seq<char>>,
    pub op: AssignOp,
    pub lhs: Seq<char>,
    pub rhs: Seq<char>,
    pub loc: LocV,
}

/// A port as plain values.
pub struct PortV {
    pub module: Option<Seq<char>>,
    pub name: Seq<char>,
    pub direction: Seq<char>,
    pub loc: LocV,
}

/// An identifier as plain values.
pub struct IdV {
    pub name: Seq<char>,
    pub origin: usize,
    pub len: usize,
    pub source: usize,
}

/// An event as plain values.
pub enum AstEv {
    EnterModule(Option<IdV>),
    EnterDecl(DeclKind, bool, Option<IdV>),
    EnterPortDirection(Seq<char>),
    EnterAnsiPort(AnsiHeader, Option<IdV>),
    EnterNamedPortConnection(bool, Option<IdV>),
    EnterPortIdentifier(Option<IdV>),
    EnterLvalue(Option<IdV>),
    EnterIdentifier(Option<IdV>),
    LeaveModule,
    LeavePortDirection,
    Other,
}

/// The plain values of an identifier.
pub open spec fn id_v(i: Option<IdentAt>) -> Option<IdV> {
    match i {
        Some(i) => Some(IdV { name: i.name@, origin: i.origin, len: i.len, source: i.source }),
        None => None,
    }
}

/// The plain values of an event.
pub open spec fn ast_ev(e: AstEvent) -> AstEv {
    match e {
        AstEvent::EnterModule(i) => AstEv::EnterModule(id_v(i)),
        AstEvent::EnterDecl(k, a, i) => AstEv::EnterDecl(k, a, id_v(i)),
        AstEvent::EnterPortDirection(d) => AstEv::EnterPortDirection(d@),
        AstEvent::EnterAnsiPort(h, i) => AstEv::EnterAnsiPort(h, id_v(i)),
        AstEvent::EnterNamedPortConnection(x, i) => AstEv::EnterNamedPortConnection(x, id_v(i)),
        AstEvent::EnterPortIdentifier(i) => AstEv::EnterPortIdentifier(id_v(i)),
        AstEvent::EnterLvalue(i) => AstEv::EnterLvalue(id_v(i)),
        AstEvent::EnterIdentifier(i) => AstEv::EnterIdentifier(id_v(i)),
        AstEvent::LeaveModule => AstEv::LeaveModule,
        AstEvent::LeavePortDirection => AstEv::LeavePortDirection,
        AstEvent::Other => AstEv::Other,
    }
}

/// The abstract state of the collector.
pub struct AstModel {
    pub scopes: Seq<Seq<char>>,
    pub decls: Seq<DeclV>,
    pub refs: Seq<RefV>,
    pub assigns: Seq<AssignV>,
    pub ports: Seq<PortV>,
    pub reads: Set<usize>,
    pub writes: Set<usize>,
    pub decl_offsets: Set<usize>,
    pub dirs: Seq<Seq<char>>,
}

/// The innermost module, if any.
pub open spec fn current_module(m: AstModel) -> Option<Seq<char>> {
    if m.scopes.len() > 0 {
        Some(m.scopes.last())
    } else {
        None
    }
}

/// The location of an identifier in the sources.
pub open spec fn id_loc(srcs: Seq<SourceFile>, i: IdV) -> LocV {
    loc_in(srcs[i.source as int], i.origin as int, i.origin + i.len)
}

/// The assignment scanned from an identifier's offset in its source, if any.
pub open spec fn id_assignment(srcs: Seq<SourceFile>, i: IdV) -> Option<(AssignOp, Seq<char>, Seq<char>, int, int)> {
    assignment_at(encode_utf8(srcs[i.source as int].text@), i.origin as int)
}

/// The state after an assignment starting at identifier `i`, if one is found there.
pub open spec fn add_assignment(m: AstModel, srcs: Seq<SourceFile>, i: IdV) -> AstModel {
    match id_assignment(srcs, i) {
        Some((op, lhs, rhs, s, e)) => AstModel {
            assigns: m.assigns.push(
                AssignV { module: current_module(m), op, lhs, rhs, loc: loc_in(srcs[i.source as int], s, e) },
            ),
            ..m
        },
        None => m,
    }
}

/// The state after a write to identifier `i`: a write reference, and the assignment there.
pub open spec fn record_write_spec(m: AstModel, srcs: Seq<SourceFile>, i: IdV) -> AstModel {
    let m1 = AstModel {
        refs: m.refs.push(
            RefV { name: i.name, module: current_module(m), kind: ReferenceKind::Write, loc: id_loc(srcs, i) },
        ),
        writes: m.writes.insert(i.origin),
        ..m
    };
    add_assignment(m1, srcs, i)
}

/// The state after a read of identifier `i`: a read reference, unless its offset is already
/// written, declared or read.
pub open spec fn record_read_spec(m: AstModel, srcs: Seq<SourceFile>, i: IdV) -> AstModel {
    if m.writes.contains(i.origin) || m.decl_offsets.contains(i.origin) || m.reads.contains(i.origin) {
        m
    } else {
        AstModel {
            refs: m.refs.push(
                RefV { name: i.name, module: current_module(m), kind: ReferenceKind::Read, loc: id_loc(srcs, i) },
            ),
            reads: m.reads.insert(i.origin),
            ..m
        }
    }
}

/// The state after a declaration of identifier `i`; a declaration assignment also writes it
/// when an assignment is found at its offset.
pub open spec fn record_decl_spec(m: AstModel, srcs: Seq<SourceFile>, kind: DeclKind, assign: bool, i: IdV) -> AstModel {
    let m1 = if assign && id_assignment(srcs, i) is Some {
        let m0 = AstModel {
            refs: m.refs.push(
                RefV { name: i.name, module: current_module(m), kind: ReferenceKind::Write, loc: id_loc(srcs, i) },
            ),
            writes: m.writes.insert(i.origin),
            ..m
        };
        add_assignment(m0, srcs, i)
    } else {
        m
    };
    AstModel {
        decls: m1.decls.push(DeclV { kind, name: i.name, module: current_module(m), loc: id_loc(srcs, i) }),
        decl_offsets: m1.decl_offsets.insert(i.origin),
        ..m1
    }
}

/// The state after a port named by `i` with direction `dir`.
pub open spec fn record_port_spec(m: AstModel, srcs: Seq<SourceFile>, i: IdV, dir: Seq<char>) -> AstModel {
    AstModel {
        ports: m.ports.push(PortV { module: current_module(m), name: i.name, direction: dir, loc: id_loc(srcs, i) }),
        decl_offsets: m.decl_offsets.insert(i.origin),
        ..m
    }
}

/// The state after one event.
pub open spec fn ast_step(m: AstModel, srcs: Seq<SourceFile>, e: AstEv) -> AstModel {
    match e {
        AstEv::EnterModule(Some(i)) => AstModel {
            decls: m.decls.push(DeclV { kind: DeclKind::Module, name: i.name, module: None, loc: id_loc(srcs, i) }),
            scopes: m.scopes.push(i.name),
            ..m
        },
        AstEv::EnterDecl(k, a, Some(i)) => record_decl_spec(m, srcs, k, a, i),
        AstEv::EnterPortDirection(d) => AstModel { dirs: m.dirs.push(d), ..m },
        AstEv::EnterAnsiPort(h, Some(i)) => record_port_spec(m, srcs, i, ansi_dir_text(h)),
        AstEv::EnterNamedPortConnection(false, Some(i)) => record_read_spec(m, srcs, i),
        AstEv::EnterPortIdentifier(Some(i)) => if m.dirs.len() > 0 {
            record_port_spec(m, srcs, i, m.dirs.last())
        } else {
            m
        },
        AstEv::EnterLvalue(Some(i)) => record_write_spec(m, srcs, i),
        AstEv::EnterIdentifier(Some(i)) => record_read_spec(m, srcs, i),
        AstEv::LeaveModule => AstModel { scopes: if m.scopes.len() > 0 { m.scopes.drop_last() } else { m.scopes }, ..m },
        AstEv::LeavePortDirection => AstModel { dirs: if m.dirs.len() > 0 { m.dirs.drop_last() } else { m.dirs }, ..m },
        _ => m,
    }
}

/// The state at the start of a walk.
pub open spec fn ast_initial() -> AstModel {
    AstModel {
        scopes: Seq::empty(),
        decls: Seq::empty(),
        refs: Seq::empty(),
        assigns: Seq::empty(),
        ports: Seq::empty(),
        reads: Set::empty(),
        writes: Set::empty(),
        decl_offsets: Set::empty(),
        dirs: Seq::empty(),
    }
}

/// The state after a sequence of events.
pub open spec fn ast_run(srcs: Seq<SourceFile>, evs: Seq<AstEv>) -> AstModel
    decreases evs.len(),
{
    if evs.len() == 0 {
        ast_initial()
    } else {
        ast_step(ast_run(srcs, evs.drop_last()), srcs, evs.last())
    }
}

/// Whether an event can be handled: its identifier comes from one of the sources, ends
/// within machine range and, where an assignment is scanned from it, starts a character.
pub open spec fn event_ok(srcs: Seq<SourceFile>, e: AstEv) -> bool {
    let id = match e {
        AstEv::EnterModule(i) => i,
        AstEv::EnterDecl(_, _, i) => i,
        AstEv::EnterAnsiPort(_, i) => i,
        AstEv::EnterNamedPortConnection(_, i) => i,
        AstEv::EnterPortIdentifier(i) => i,
        AstEv::EnterLvalue(i) => i,
        AstEv::EnterIdentifier(i) => i,
        _ => None,
    };
    match id {
        Some(i) => {
            &&& i.source < srcs.len()
            &&& i.origin + i.len <= usize::MAX
            &&& (find_op(encode_utf8(srcs[i.source as int].text@), i.origin as int, no_depths()) is Some
                ==> is_char_boundary(encode_utf8(srcs[i.source as int].text@), i.origin as int))
        },
        None => true,
    }
}

/// Whether event `e`, met in state `m`, declares a name or a port at byte offset `origin`:
/// a declaration, an ANSI port, or a port identifier inside a port direction.
pub open spec fn declares_at(m: AstModel, e: AstEv, origin: usize) -> bool {
    match e {
        AstEv::EnterDecl(_, _, Some(j)) => j.origin == origin,
        AstEv::EnterAnsiPort(_, Some(j)) => j.origin == origin,
        AstEv::EnterPortIdentifier(Some(j)) => m.dirs.len() > 0 && j.origin == origin,
        _ => false,
    }
}

/// A step keeps every offset recorded as declared, and adds the one it declares.
proof fn lemma_step_decl_offsets(m: AstModel, srcs: Seq<SourceFile>, e: AstEv, x: usize)
    ensures
        m.decl_offsets.contains(x) ==> ast_step(m, srcs, e).decl_offsets.contains(x),
        declares_at(m, e, x) ==> ast_step(m, srcs, e).decl_offsets.contains(x),
{
}

/// Every offset declared by an event of the walk is recorded as declared after it.
proof fn lemma_run_decl_offsets(srcs: Seq<SourceFile>, evs: Seq<AstEv>, k: int, x: usize)
    requires
        0 <= k < evs.len(),
        declares_at(ast_run(srcs, evs.take(k)), evs[k], x),
    ensures
        ast_run(srcs, evs).decl_offsets.contains(x),
    decreases evs.len(),
{
    let p = evs.drop_last();
    if k == evs.len() - 1 {
        assert(evs.take(k) =~= p);
        lemma_step_decl_offsets(ast_run(srcs, p), srcs, evs.last(), x);
    } else {
        assert(p.take(k) =~= evs.take(k));
        lemma_run_decl_offsets(srcs, p, k, x);
        lemma_step_decl_offsets(ast_run(srcs, p), srcs, evs.last(), x);
    }
}

/// Law: an identifier at the offset of a name or port declared earlier in the walk is not a
/// use of it: met as an identifier or as a named port connection without expression, it adds
/// no reference.
pub proof fn law_declared_offset_is_not_read(srcs: Seq<SourceFile>, evs: Seq<AstEv>, k: int, i: IdV)
    requires
        0 <= k < evs.len(),
        declares_at(ast_run(srcs, evs.take(k)), evs[k], i.origin),
    ensures
        ast_run(srcs, evs.push(AstEv::EnterIdentifier(Some(i)))).refs == ast_run(srcs, evs).refs,
        ast_run(srcs, evs.push(AstEv::EnterNamedPortConnection(false, Some(i)))).refs == ast_run(srcs, evs).refs,
{
    lemma_run_decl_offsets(srcs, evs, k, i.origin);
    assert(evs.push(AstEv::EnterIdentifier(Some(i))).drop_last() =~= evs);
    assert(evs.push(AstEv::EnterNamedPortConnection(false, Some(i))).drop_last() =~= evs);
}

/// Law: a walk of a declaration followed by its own identifier records the declaration and
/// no reference, whatever comes before.
pub proof fn law_declaration_identifier_is_not_read(
    srcs: Seq<SourceFile>,
    evs: Seq<AstEv>,
    kind: DeclKind,
    i: IdV,
)
    ensures
        ast_run(srcs, evs.push(AstEv::EnterDecl(kind, false, Some(i))).push(AstEv::EnterIdentifier(Some(i)))).refs
            == ast_run(srcs, evs).refs,
{
    let e = evs.push(AstEv::EnterDecl(kind, false, Some(i)));
    assert(e.take(evs.len() as int) =~= evs);
    assert(e.drop_last() =~= evs);
    law_declared_offset_is_not_read(srcs, e, evs.len() as int, i);
}

/// Whether event `e`, met in state `m`, reads, writes or declares something at byte offset
/// `origin` (see `declares_at`).
pub open spec fn touches_at(m: AstModel, e: AstEv, origin: usize) -> bool {
    ||| declares_at(m, e, origin)
    ||| (e matches AstEv::EnterIdentifier(Some(j)) && j.origin == origin)
    ||| (e matches AstEv::EnterNamedPortConnection(false, Some(j)) && j.origin == origin)
    ||| (e matches AstEv::EnterLvalue(Some(j)) && j.origin == origin)
}

/// The offsets already read, written or declared.
pub open spec fn seen_offsets(m: AstModel) -> Set<usize> {
    m.reads.union(m.writes).union(m.decl_offsets)
}

proof fn lemma_step_seen(m: AstModel, srcs: Seq<SourceFile>, e: AstEv, x: usize)
    ensures
        seen_offsets(m).contains(x) ==> seen_offsets(ast_step(m, srcs, e)).contains(x),
        touches_at(m, e, x) ==> seen_offsets(ast_step(m, srcs, e)).contains(x),
{
}

proof fn lemma_run_seen(srcs: Seq<SourceFile>, evs: Seq<AstEv>, k: int, x: usize)
    requires
        0 <= k < evs.len(),
        touches_at(ast_run(srcs, evs.take(k)), evs[k], x),
    ensures
        seen_offsets(ast_run(srcs, evs)).contains(x),
    decreases evs.len(),
{
    let p = evs.drop_last();
    if k == evs.len() - 1 {
        assert(evs.take(k) =~= p);
    } else {
        assert(p.take(k) =~= evs.take(k));
        lemma_run_seen(srcs, p, k, x);
    }
    lemma_step_seen(ast_run(srcs, p), srcs, evs.last(), x);
}

/// Law: each byte offset is used at most once: an identifier at an offset that an earlier
/// event of the walk read, wrote or declared adds no reference, whether met as an identifier
/// or as a named port connection without expression.
pub proof fn law_offset_read_at_most_once(srcs: Seq<SourceFile>, evs: Seq<AstEv>, k: int, i: IdV)
    requires
        0 <= k < evs.len(),
        touches_at(ast_run(srcs, evs.take(k)), evs[k], i.origin),
    ensures
        ast_run(srcs, evs.push(AstEv::EnterIdentifier(Some(i)))).refs == ast_run(srcs, evs).refs,
        ast_run(srcs, evs.push(AstEv::EnterNamedPortConnection(false, Some(i)))).refs == ast_run(srcs, evs).refs,
{
    lemma_run_seen(srcs, evs, k, i.origin);
    assert(evs.push(AstEv::EnterIdentifier(Some(i))).drop_last() =~= evs);
    assert(evs.push(AstEv::EnterNamedPortConnection(false, Some(i))).drop_last() =~= evs);
}

/// Law: an identifier at an offset not yet read, written or declared is a read: it adds one
/// reference of kind `Read` with its name, in the current module, at its location.
pub proof fn law_fresh_identifier_is_read(srcs: Seq<SourceFile>, evs: Seq<AstEv>, i: IdV)
    requires
        !seen_offsets(ast_run(srcs, evs)).contains(i.origin),
    ensures
        ast_run(srcs, evs.push(AstEv::EnterIdentifier(Some(i)))).refs == ast_run(srcs, evs).refs.push(
            RefV {
                name: i.name,
                module: current_module(ast_run(srcs, evs)),
                kind: ReferenceKind::Read,
                loc: id_loc(srcs, i),
            },
        ),
{
    assert(evs.push(AstEv::EnterIdentifier(Some(i))).drop_last() =~= evs);
}

/// The plain values of a declaration.
pub open spec fn decl_v(d: Declaration) -> DeclV {
    DeclV { kind: d.kind, name: d.name@, module: module_view(d.module), loc: loc_v(d.loc) }
}

/// The plain values of a reference.
pub open spec fn ref_v(x: Reference) -> RefV {
    RefV { name: x.name@, module: module_view(x.module), kind: x.kind, loc: loc_v(x.loc) }
}

/// The plain values of an assignment.
pub open spec fn assign_v(a: Assignment) -> AssignV {
    AssignV { module: module_view(a.module), op: a.op, lhs: a.lhs@, rhs: a.rhs@, loc: loc_v(a.loc) }
}

/// The plain values of a port.
pub open spec fn port_v(p: PortInfo) -> PortV {
    PortV { module: module_view(p.module), name: p.name@, direction: p.direction@, loc: loc_v(p.loc) }
}

/// What the collector found.
pub struct CollectResult {
    pub decls: Vec<Declaration>,
    pub refs: Vec<Reference>,
    pub assigns: Vec<Assignment>,
    pub ports: Vec<PortInfo>,
}

/// The collector of declarations, references, assignments and ports over a walk.
pub struct AstCollector {
    pub sources: Vec<SourceFile>,
    pub scopes: Vec<String>,
    pub decls: Vec<Declaration>,
    pub refs: Vec<Reference>,
    pub assigns: Vec<Assignment>,
    pub ports: Vec<PortInfo>,
    pub read_offsets: HashSet<usize>,
    pub write_offsets: HashSet<usize>,
    pub decl_offsets: HashSet<usize>,
    pub port_dir_stack: Vec<String>,
}

impl AstCollector {
    /// The abstract state.
    pub open spec fn model(&self) -> AstModel {
        AstModel {
            scopes: self.scopes@.map_values(|x: String| x@),
            decls: self.decls@.map_values(|d: Declaration| decl_v(d)),
            refs: self.refs@.map_values(|x: Reference| ref_v(x)),
            assigns: self.assigns@.map_values(|a: Assignment| assign_v(a)),
            ports: self.ports@.map_values(|p: PortInfo| port_v(p)),
            reads: self.read_offsets@,
            writes: self.write_offsets@,
            decl_offsets: self.decl_offsets@,
            dirs: self.port_dir_stack@.map_values(|x: String| x@),
        }
    }

    /// Every source is well formed.
    pub open spec fn wf(&self) -> bool {
        forall|i: int| 0 <= i < self.sources@.len() ==> (#[trigger] self.sources@[i]).wf()
    }

    /// A collector over `sources`, at the start of a walk.
    pub fn new(sources: Vec<SourceFile>) -> (r: Self)
        requires
            forall|i: int| 0 <= i < sources@.len() ==> (#[trigger] sources@[i]).wf(),
        ensures
            r.wf(),
            r.sources@ == sources@,
            r.model() == ast_initial(),
    {
        let r = AstCollector {
            sources,
            scopes: Vec::new(),
            decls: Vec::new(),
            refs: Vec::new(),
            assigns: Vec::new(),
            ports: Vec::new(),
            read_offsets: HashSet::new(),
            write_offsets: HashSet::new(),
            decl_offsets: HashSet::new(),
            port_dir_stack: Vec::new(),
        };
        assert(r.model().scopes =~= Seq::<Seq<char>>::empty());
        assert(r.model().decls =~= Seq::<DeclV>::empty());
        assert(r.model().refs =~= Seq::<RefV>::empty());
        assert(r.model().assigns =~= Seq::<AssignV>::empty());
        assert(r.model().ports =~= Seq::<PortV>::empty());
        assert(r.model().dirs =~= Seq::<Seq<char>>::empty());
        r
    }

    /// The innermost module, if any.
    fn module(&self) -> (r: Option<String>)
        ensures
            module_view(r) == current_module(self.model()),
    {
        if self.scopes.len() > 0 {
            Some(self.scopes[self.scopes.len() - 1].clone())
        } else {
            None
        }
    }

    /// The location of bytes `start..end` of source `src`.
    fn location_from_source(&self, src: usize, start: usize, end: usize) -> (r: Location)
        requires
            self.wf(),
            src < self.sources@.len(),
        ensures
            loc_v(r) == loc_in(self.sources@[src as int], start as int, end as int),
    {
        let source = &self.sources[src];
        assert(source.wf());
        let lines = source.line_map.to_lines(SpanBytes::new(start, end));
        Location {
            line: lines.line,
            col: lines.col,
            end_line: lines.end_line,
            end_col: lines.end_col,
            file: Some(source.display.clone()),
        }
    }

    /// Records the assignment found at identifier `id`, if any.
    fn add_assignment(&mut self, id: &IdentAt)
        requires
            old(self).wf(),
            event_ok(old(self).sources@, AstEv::EnterLvalue(id_v(Some(*id)))),
        ensures
            final(self).wf(),
            final(self).sources == old(self).sources,
            final(self).model() == add_assignment(old(self).model(), old(self).sources@, id_v(Some(*id))->0),
    {
        let text = self.sources[id.source].text.as_str();
        match scan_assignment_at(text, id.origin) {
            Some((op, lhs, rhs, start, end)) => {
                let loc = self.location_from_source(id.source, start, end);
                let module = self.module();
                let ghost old_assigns = self.assigns@;
                self.assigns.push(Assignment { module, op, lhs, rhs, loc });
                assert(self.model().assigns =~= old(self).model().assigns.push(assign_v(self.assigns@.last())));
            },
            None => {},
        }
    }

    /// Records a write to identifier `id` and the assignment found there.
    fn record_write(&mut self, id: IdentAt)
        requires
            old(self).wf(),
            event_ok(old(self).sources@, AstEv::EnterLvalue(id_v(Some(id)))),
        ensures
            final(self).wf(),
            final(self).sources == old(self).sources,
            final(self).model() == record_write_spec(old(self).model(), old(self).sources@, id_v(Some(id))->0),
    {
        broadcast use vstd::std_specs::hash::group_hash_axioms;

        let loc = self.location_from_source(id.source, id.origin, id.origin + id.len);
        let module = self.module();
        self.refs.push(Reference { name: id.name.clone(), module, kind: ReferenceKind::Write, loc });
        self.write_offsets.insert(id.origin);
        assert(self.model().refs =~= old(self).model().refs.push(ref_v(self.refs@.last())));
        self.add_assignment(&id);
    }

    /// Records a read of identifier `id`, unless its offset is already written, declared or read.
    fn record_read(&mut self, id: IdentAt)
        requires
            old(self).wf(),
            event_ok(old(self).sources@, AstEv::EnterIdentifier(id_v(Some(id)))),
        ensures
            final(self).wf(),
            final(self).sources == old(self).sources,
            final(self).model() == record_read_spec(old(self).model(), old(self).sources@, id_v(Some(id))->0),
    {
        broadcast use vstd::std_specs::hash::group_hash_axioms;

        if self.write_offsets.contains(&id.origin) || self.decl_offsets.contains(&id.origin)
            || self.read_offsets.contains(&id.origin) {
            return ;
        }
        let loc = self.location_from_source(id.source, id.origin, id.origin + id.len);
        let module = self.module();
        self.refs.push(Reference { name: id.name, module, kind: ReferenceKind::Read, loc });
        self.read_offsets.insert(id.origin);
        assert(self.model().refs =~= old(self).model().refs.push(ref_v(self.refs@.last())));
    }

    /// Records a declaration of `kind` for identifier `id`; for a declaration assignment, also
    /// the write and the assignment found at its offset.
    fn record_decl(&mut self, kind: DeclKind, assign: bool, id: IdentAt)
        requires
            old(self).wf(),
            event_ok(old(self).sources@, AstEv::EnterDecl(kind, assign, id_v(Some(id)))),
        ensures
            final(self).wf(),
            final(self).sources == old(self).sources,
            final(self).model() == record_decl_spec(old(self).model(), old(self).sources@, kind, assign, id_v(Some(id))->0),
    {
        broadcast use vstd::std_specs::hash::group_hash_axioms;

        let loc = self.location_from_source(id.source, id.origin, id.origin + id.len);
        let module = self.module();
        let ghost m0 = self.model();
        if assign {
            let text = self.sources[id.source].text.as_str();
            if let Some((op, lhs, rhs, start, end)) = scan_assignment_at(text, id.origin) {
                let aloc = self.location_from_source(id.source, start, end);
                self.refs.push(
                    Reference { name: id.name.clone(), module: clone_module(&module), kind: ReferenceKind::Write, loc: loc.copy() },
                );
                self.write_offsets.insert(id.origin);
                self.assigns.push(Assignment { module: clone_module(&module), op, lhs, rhs, loc: aloc });
                assert(self.model().refs =~= m0.refs.push(ref_v(self.refs@.last())));
                assert(self.model().assigns =~= m0.assigns.push(assign_v(self.assigns@.last())));
            }
        }
        let ghost m1 = self.model();
        self.decls.push(Declaration { kind, name: id.name, module, loc });
        self.decl_offsets.insert(id.origin);
        assert(self.model().decls =~= m1.decls.push(decl_v(self.decls@.last())));
    }

    /// Records a port named by `id` with `direction`.
    fn record_port(&mut self, id: IdentAt, direction: &str)
        requires
            old(self).wf(),
            event_ok(old(self).sources@, AstEv::EnterPortIdentifier(id_v(Some(id)))),
        ensures
            final(self).wf(),
            final(self).sources == old(self).sources,
            final(self).model() == record_port_spec(old(self).model(), old(self).sources@, id_v(Some(id))->0, direction@),
    {
        broadcast use vstd::std_specs::hash::group_hash_axioms;

        let loc = self.location_from_source(id.source, id.origin, id.origin + id.len);
        let module = self.module();
        self.ports.push(PortInfo { module, name: id.name, direction: to_string(direction), loc });
        self.decl_offsets.insert(id.origin);
        assert(self.model().ports =~= old(self).model().ports.push(port_v(self.ports@.last())));
    }

    /// Handles one event of the walk.
    pub fn step(&mut self, ev: AstEvent)
        requires
            old(self).wf(),
            event_ok(old(self).sources@, ast_ev(ev)),
        ensures
            final(self).wf(),
            final(self).sources == old(self).sources,
            final(self).model() == ast_step(old(self).model(), old(self).sources@, ast_ev(ev)),
    {
        match ev {
            AstEvent::EnterModule(Some(id)) => {
                let loc = self.location_from_source(id.source, id.origin, id.origin + id.len);
                self.decls.push(Declaration { kind: DeclKind::Module, name: id.name.clone(), module: None, loc });
                self.scopes.push(id.name);
                assert(self.model().decls =~= old(self).model().decls.push(decl_v(self.decls@.last())));
                assert(self.model().scopes =~= old(self).model().scopes.push(self.scopes@.last()@));
            },
            AstEvent::EnterDecl(kind, assign, Some(id)) => {
                self.record_decl(kind, assign, id);
            },
            AstEvent::EnterPortDirection(d) => {
                self.port_dir_stack.push(d);
                assert(self.model().dirs =~= old(self).model().dirs.push(self.port_dir_stack@.last()@));
            },
            AstEvent::EnterAnsiPort(h, Some(id)) => {
                let dir = ansi_direction(h);
                self.record_port(id, dir);
            },
            AstEvent::EnterNamedPortConnection(false, Some(id)) => {
                self.record_read(id);
            },
            AstEvent::EnterPortIdentifier(Some(id)) => {
                if self.port_dir_stack.len() > 0 {
                    let dir = self.port_dir_stack[self.port_dir_stack.len() - 1].clone();
                    self.record_port(id, dir.as_str());
                }
            },
            AstEvent::EnterLvalue(Some(id)) => {
                self.record_write(id);
            },
            AstEvent::EnterIdentifier(Some(id)) => {
                self.record_read(id);
            },
            AstEvent::LeaveModule => {
                if self.scopes.len() > 0 {
                    self.scopes.pop();
                    assert(self.model().scopes =~= old(self).model().scopes.drop_last());
                }
            },
            AstEvent::LeavePortDirection => {
                if self.port_dir_stack.len() > 0 {
                    self.port_dir_stack.pop();
                    assert(self.model().dirs =~= old(self).model().dirs.drop_last());
                }
            },
            _ => {},
        }
    }

    /// What was collected.
    pub fn finish(self) -> (r: CollectResult)
        ensures
            r.decls == self.decls,
            r.refs == self.refs,
            r.assigns == self.assigns,
            r.ports == self.ports,
    {
        CollectResult { decls: self.decls, refs: self.refs, assigns: self.assigns, ports: self.ports }
    }
}

/// A copy of an optional name.
pub fn clone_module(m: &Option<String>) -> (r: Option<String>)
    ensures
        r == *m,
{
    match m {
        Some(s) => Some(s.clone()),
        None => None,
    }
}

/// The plain values of a sequence of events.
pub open spec fn ast_evs(evs: Seq<AstEvent>) -> Seq<AstEv> {
    evs.map_values(|e: AstEvent| ast_ev(e))
}

impl IdentAt {
    /// A copy holding the same values.
    pub fn copy(&self) -> (r: Self)
        ensures
            r == *self,
    {
        IdentAt { name: self.name.clone(), origin: self.origin, len: self.len, source: self.source }
    }
}

fn copy_ident(i: &Option<IdentAt>) -> (r: Option<IdentAt>)
    ensures
        r == *i,
{
    match i {
        Some(x) => Some(x.copy()),
        None => None,
    }
}

impl AstEvent {
    /// A copy holding the same values.
    pub fn copy(&self) -> (r: Self)
        ensures
            r == *self,
    {
        match self {
            AstEvent::EnterModule(i) => AstEvent::EnterModule(copy_ident(i)),
            AstEvent::EnterDecl(k, a, i) => AstEvent::EnterDecl(*k, *a, copy_ident(i)),
            AstEvent::EnterPortDirection(d) => AstEvent::EnterPortDirection(d.clone()),
            AstEvent::EnterAnsiPort(h, i) => AstEvent::EnterAnsiPort(*h, copy_ident(i)),
            AstEvent::EnterNamedPortConnection(x, i) => AstEvent::EnterNamedPortConnection(*x, copy_ident(i)),
            AstEvent::EnterPortIdentifier(i) => AstEvent::EnterPortIdentifier(copy_ident(i)),
            AstEvent::EnterLvalue(i) => AstEvent::EnterLvalue(copy_ident(i)),
            AstEvent::EnterIdentifier(i) => AstEvent::EnterIdentifier(copy_ident(i)),
            AstEvent::LeaveModule => AstEvent::LeaveModule,
            AstEvent::LeavePortDirection => AstEvent::LeavePortDirection,
            AstEvent::Other => AstEvent::Other,
        }
    }
}

/// Declarations, references, assignments and ports of a syntax tree, from the events of a walk
/// over it and the sources its identifiers come from.
pub fn collect_all(events: &[AstEvent], sources: Vec<SourceFile>) -> (r: CollectResult)
    requires
        forall|i: int| 0 <= i < sources@.len() ==> (#[trigger] sources@[i]).wf(),
        forall|i: int| 0 <= i < events@.len() ==> event_ok(sources@, ast_ev(#[trigger] events@[i])),
    ensures
        ({
            let m = ast_run(sources@, ast_evs(events@));
            &&& r.decls@.map_values(|d: Declaration| decl_v(d)) == m.decls
            &&& r.refs@.map_values(|x: Reference| ref_v(x)) == m.refs
            &&& r.assigns@.map_values(|a: Assignment| assign_v(a)) == m.assigns
            &&& r.ports@.map_values(|p: PortInfo| port_v(p)) == m.ports
        }),
{
    let ghost srcs = sources@;
    let ghost evs = ast_evs(events@);
    let mut c = AstCollector::new(sources);
    let mut i: usize = 0;
    while i < events.len()
        invariant
            i <= events@.len(),
            evs == ast_evs(events@),
            c.wf(),
            c.sources@ == srcs,
            forall|k: int| 0 <= k < events@.len() ==> event_ok(srcs, ast_ev(#[trigger] events@[k])),
            c.model() == ast_run(srcs, evs.take(i as int)),
        decreases events@.len() - i,
    {
        assert(evs.take(i + 1).drop_last() =~= evs.take(i as int));
        assert(evs[i as int] == ast_ev(events@[i as int]));
        c.step(events[i].copy());
        i += 1;
    }
    assert(evs.take(events@.len() as int) =~= evs);
    c.finish()
}

} // verus!
