//! The environment that the endpoint is started in, as a list of variables.
use vstd::prelude::*;

use crate::text::{blank, is_blank, same};

verus! {

/// What a variable holds: the first of that name.
pub open spec fn variable(vars: Seq<(String, String)>, name: Seq<char>) -> Option<Seq<char>>
    decreases vars.len(),
{
    if vars.len() == 0 {
        None
    } else if vars[0].0@ == name {
        Some(vars[0].1@)
    } else {
        variable(vars.drop_first(), name)
    }
}

/// What a variable is set to: a blank one counts as not set.
pub open spec fn set_to(vars: Seq<(String, String)>, name: Seq<char>) -> Option<Seq<char>> {
    match variable(vars, name) {
        Some(v) if !is_blank(v) => Some(v),
        _ => None,
    }
}

/// The view of an optional text.
pub open spec fn shown(s: Option<String>) -> Option<Seq<char>> {
    match s {
        Some(t) => Some(t@),
        None => None,
    }
}

/// What a variable holds.
pub fn raw_setting(vars: &Vec<(String, String)>, name: &str) -> (r: Option<String>)
    ensures
        shown(r) == variable(vars@, name@),
{
    let mut i: usize = 0;
    assert(vars@.skip(0) =~= vars@);
    while i < vars.len()
        invariant
            i <= vars@.len(),
            variable(vars@, name@) == variable(vars@.skip(i as int), name@),
        decreases vars@.len() - i,
    {
        assert(vars@.skip(i as int).drop_first() =~= vars@.skip(i + 1));
        if same(vars[i].0.as_str(), name) {
            return Some(vars[i].1.clone());
        }
        i = i + 1;
    }
    None
}

/// What a variable is set to: a blank one counts as not set.
pub fn setting(vars: &Vec<(String, String)>, name: &str) -> (r: Option<String>)
    ensures
        shown(r) == set_to(vars@, name@),
{
    match raw_setting(vars, name) {
        Some(v) => if blank(v.as_str()) {
            None
        } else {
            Some(v)
        },
        None => None,
    }
}

/// A variable holds what the first entry of its name says, whatever comes before
/// under other names and after under any, and a blank value counts as none.
pub proof fn the_first_of_a_name_counts(before: Seq<(String, String)>, entry: (String, String), after: Seq<(String, String)>)
    requires
        forall|i: int| 0 <= i < before.len() ==> (#[trigger] before[i]).0@ != entry.0@,
    ensures
        variable(before + seq![entry] + after, entry.0@) == Some(entry.1@),
        variable(before, entry.0@) is None,
        is_blank(entry.1@) ==> set_to(before + seq![entry] + after, entry.0@) is None,
        !is_blank(entry.1@) ==> set_to(before + seq![entry] + after, entry.0@) == Some(entry.1@),
    decreases before.len(),
{
    let all = before + seq![entry] + after;
    if before.len() == 0 {
        assert(all[0] == entry);
    } else {
        let rest = before.drop_first();
        assert(all[0] == before[0]);
        assert(before[0].0@ != entry.0@);
        assert forall|i: int| 0 <= i < rest.len() implies (#[trigger] rest[i]).0@ != entry.0@ by {
            assert(rest[i] == before[i + 1]);
        }
        the_first_of_a_name_counts(rest, entry, after);
        assert(all.drop_first() =~= rest + seq![entry] + after);
    }
}

/// A variable that no entry names is not set.
pub proof fn unnamed_is_unset(vars: Seq<(String, String)>, name: Seq<char>)
    requires
        forall|i: int| 0 <= i < vars.len() ==> (#[trigger] vars[i]).0@ != name,
    ensures
        variable(vars, name) is None,
        set_to(vars, name) is None,
    decreases vars.len(),
{
    if vars.len() > 0 {
        let rest = vars.drop_first();
        assert(vars[0].0@ != name);
        assert forall|i: int| 0 <= i < rest.len() implies (#[trigger] rest[i]).0@ != name by {
            assert(rest[i] == vars[i + 1]);
        }
        unnamed_is_unset(rest, name);
    }
}

} // verus!
