//! Command-line defines: `NAME` or `NAME=VALUE`.
use crate::strings::{chars_of, string_of_range, trim_chars, trim_spec};
use vstd::prelude::*;

verus! {

/// The index of the first `'='` in `s`, if there is one.
pub open spec fn first_eq(s: Seq<char>) -> Option<int> {
    if exists|i: int| 0 <= i < s.len() && s[i] == '=' {
        Some(choose|i: int| 0 <= i < s.len() && s[i] == '=' && forall|j: int| 0 <= j < i ==> s[j] != '=')
    } else {
        None
    }
}

/// `s` split at its first `'='`: the part before and, when there is one, the part after.
pub open spec fn split_at_eq(s: Seq<char>) -> (Seq<char>, Option<Seq<char>>) {
    match first_eq(s) {
        Some(i) => (s.take(i), Some(s.skip(i + 1))),
        None => (s, None),
    }
}

/// Finds the first `'='` of `v`.
fn find_eq(v: &Vec<char>) -> (r: Option<usize>)
    ensures
        r matches Some(i) ==> i < v@.len() && first_eq(v@) == Some(i as int),
        r is None ==> first_eq(v@) is None,
{
    let mut i: usize = 0;
    while i < v.len()
        invariant
            i <= v@.len(),
            forall|j: int| 0 <= j < i ==> v@[j] != '=',
        decreases v@.len() - i,
    {
        if v[i] == '=' {
            let ghost c = choose|k: int| 0 <= k < v@.len() && v@[k] == '=' && forall|j: int| 0 <= j < k ==> v@[j] != '=';
            assert(c == i) by {
                if c > i {
                    assert(v@[i as int] != '=');
                }
            }
            return Some(i);
        }
        i += 1;
    }
    None
}

/// A define split at its first `'='` into name and value (what `str::split_once('=')` gives),
/// or the whole text as the name when it has no `'='`.
pub fn split_define(d: &str) -> (r: (String, Option<String>))
    ensures
        r.0@ == split_at_eq(d@).0,
        match split_at_eq(d@).1 {
            Some(v) => r.1 matches Some(x) && x@ == v,
            None => r.1 is None,
        },
{
    let v = chars_of(d);
    match find_eq(&v) {
        Some(i) => {
            let n = string_of_range(v.as_slice(), 0, i);
            let val = string_of_range(v.as_slice(), i + 1, v.len());
            assert(v@.subrange(0, i as int) =~= v@.take(i as int));
            assert(v@.subrange(i + 1, v@.len() as int) =~= v@.skip(i + 1));
            (n, Some(val))
        },
        None => {
            let n = string_of_range(v.as_slice(), 0, v.len());
            assert(v@.subrange(0, v@.len() as int) =~= v@);
            (n, None)
        },
    }
}

/// A define entry from the configuration: its name and value, each without surrounding white
/// space; nothing when the name is empty.
pub fn parse_define_entry(raw: &str) -> (r: Option<(String, Option<String>)>)
    ensures
        trim_spec(split_at_eq(raw@).0).len() == 0 ==> r is None,
        trim_spec(split_at_eq(raw@).0).len() > 0 ==> (r matches Some((n, val)) && n@ == trim_spec(
            split_at_eq(raw@).0,
        ) && match split_at_eq(raw@).1 {
            Some(x) => val matches Some(w) && w@ == trim_spec(x),
            None => val is None,
        }),
{
    let v = chars_of(raw);
    let (name_part, rest) = match find_eq(&v) {
        Some(i) => {
            assert(v@.subrange(0, i as int) =~= v@.take(i as int));
            assert(v@.subrange(i + 1, v@.len() as int) =~= v@.skip(i + 1));
            (trim_chars(&v.as_slice()[0..i]), Some(trim_chars(&v.as_slice()[i + 1..v.len()])))
        },
        None => {
            assert(v@.subrange(0, v@.len() as int) =~= v@);
            (trim_chars(v.as_slice()), None)
        },
    };
    if chars_of(name_part.as_str()).len() == 0 {
        return None;
    }
    Some((name_part, rest))
}

} // verus!
