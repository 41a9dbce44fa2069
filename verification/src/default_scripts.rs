//! The bundled scripts of rules, by rule id.
use crate::strings::str_eq;
use vstd::prelude::*;

verus! {

/// The script of the first entry for `rule_id` in `table`, if any.
pub open spec fn lookup_spec(table: Seq<(&str, &str)>, rule_id: Seq<char>) -> Option<Seq<char>>
    decreases table.len(),
{
    if table.len() == 0 {
        None
    } else if table[0].0@ == rule_id {
        Some(table[0].1@)
    } else {
        lookup_spec(table.drop_first(), rule_id)
    }
}

/// The bundled script of `rule_id`: that of the first entry for it in `table`.
pub fn lookup<'a>(table: &[(&'a str, &'a str)], rule_id: &str) -> (r: Option<&'a str>)
    ensures
        match lookup_spec(table@, rule_id@) {
            Some(s) => r matches Some(x) && x@ == s,
            None => r is None,
        },
{
    let mut i: usize = 0;
    assert(table@.skip(0) =~= table@);
    while i < table.len()
        invariant
            i <= table@.len(),
            lookup_spec(table@, rule_id@) == lookup_spec(table@.skip(i as int), rule_id@),
        decreases table@.len() - i,
    {
        assert(table@.skip(i as int)[0] == table@[i as int]);
        assert(table@.skip(i as int).drop_first() =~= table@.skip(i + 1));
        let (id, script) = table[i];
        if str_eq(id, rule_id) {
            return Some(script);
        }
        i += 1;
    }
    None
}

} // verus!
