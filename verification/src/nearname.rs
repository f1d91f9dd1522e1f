//! Names that are probably the same name, spelled by someone else.
//!
//! A second directory that differs from an existing one by a slip of the keys
//! splits a share for good. The test here is about slips: case, spacing and
//! punctuation do not count, a letter or two may differ, and numbering, which is
//! how people make siblings on purpose, is let through.
use vstd::prelude::*;

use crate::text::{chars_of, own, views};

verus! {

/// Whether `char::is_alphanumeric` holds of a character.
pub uninterp spec fn alphanumeric(c: char) -> bool;

/// `char::is_alphanumeric`, Unicode's letters and numbers: a function of the
/// character alone.
#[verifier::external_body]
fn is_alphanumeric(c: char) -> (r: bool)
    ensures
        r == alphanumeric(c),
{
    c.is_alphanumeric()
}

/// Whether `char::is_numeric` holds of a character.
pub uninterp spec fn numeric(c: char) -> bool;

/// `char::is_numeric`, Unicode's numbers: a function of the character alone.
#[verifier::external_body]
fn is_numeric(c: char) -> (r: bool)
    ensures
        r == numeric(c),
{
    c.is_numeric()
}

/// What `char::to_lowercase` gives for a character: one character or more.
pub uninterp spec fn lowered(c: char) -> Seq<char>;

/// `char::to_lowercase`, its characters collected: a function of the character
/// alone.
#[verifier::external_body]
fn to_lowercase(c: char) -> (r: Vec<char>)
    ensures
        r@ == lowered(c),
{
    c.to_lowercase().collect()
}

/// How many slips two names may differ by, for a name of this many characters.
pub open spec fn slips(len: nat) -> nat {
    if len <= 3 {
        0
    } else if len <= 7 {
        1
    } else {
        2
    }
}

/// How many slips two names may differ by.
pub fn budget(len: usize) -> (r: usize)
    ensures
        len <= 3 ==> r == 0,
        4 <= len <= 7 ==> r == 1,
        len >= 8 ==> r == 2,
        r == slips(len as nat),
{
    if len <= 3 {
        0
    } else if len <= 7 {
        1
    } else {
        2
    }
}

/// A name by its letters and digits alone, in lower case.
pub open spec fn plain_form(name: Seq<char>) -> Seq<char>
    decreases name.len(),
{
    if name.len() == 0 {
        name
    } else if alphanumeric(name.last()) {
        plain_form(name.drop_last()) + lowered(name.last())
    } else {
        plain_form(name.drop_last())
    }
}

fn append_all(v: &mut Vec<char>, tail: &Vec<char>)
    ensures
        final(v)@ == old(v)@ + tail@,
{
    let ghost start = v@;
    let mut i: usize = 0;
    while i < tail.len()
        invariant
            i <= tail@.len(),
            v@ == start + tail@.take(i as int),
        decreases tail@.len() - i,
    {
        v.push(tail[i]);
        i = i + 1;
        assert(v@ =~= start + tail@.take(i as int));
    }
    assert(tail@.take(tail@.len() as int) =~= tail@);
}

/// A name by its letters and digits alone, in lower case.
pub fn normalise(name: &str) -> (r: Vec<char>)
    ensures
        r@ == plain_form(name@),
{
    let v = chars_of(name);
    let mut r: Vec<char> = Vec::new();
    let mut i: usize = 0;
    while i < v.len()
        invariant
            v@ == name@,
            i <= v@.len(),
            r@ == plain_form(v@.take(i as int)),
        decreases v@.len() - i,
    {
        assert(v@.take(i + 1).drop_last() =~= v@.take(i as int));
        if is_alphanumeric(v[i]) {
            append_all(&mut r, &to_lowercase(v[i]));
        }
        i = i + 1;
    }
    assert(v@.take(v@.len() as int) =~= v@);
    r
}

pub open spec fn min2(a: nat, b: nat) -> nat {
    if a <= b {
        a
    } else {
        b
    }
}

/// How many edits turn the first `i` characters of `a` into the first `j` of
/// `b`, where an edit inserts, drops or replaces one character, or swaps two
/// neighbours (each part of the text edited at most once).
pub open spec fn edits(a: Seq<char>, b: Seq<char>, i: nat, j: nat) -> nat
    decreases i + j,
{
    if i == 0 {
        j
    } else if j == 0 {
        i
    } else {
        let cost: nat = if a[i - 1] == b[j - 1] { 0 } else { 1 };
        let one = min2(
            min2(edits(a, b, (i - 1) as nat, j) + 1, edits(a, b, i, (j - 1) as nat) + 1),
            edits(a, b, (i - 1) as nat, (j - 1) as nat) + cost,
        );
        if i > 1 && j > 1 && a[i - 1] == b[j - 2] && a[i - 2] == b[j - 1] {
            min2(one, edits(a, b, (i - 2) as nat, (j - 2) as nat) + 1)
        } else {
            one
        }
    }
}

/// The distance of two texts in edits.
pub open spec fn distance(a: Seq<char>, b: Seq<char>) -> nat {
    edits(a, b, a.len(), b.len())
}

proof fn edits_bounds(a: Seq<char>, b: Seq<char>, i: nat, j: nat)
    ensures
        edits(a, b, i, j) >= i - j,
        edits(a, b, i, j) >= j - i,
        edits(a, b, i, j) <= i + j,
    decreases i + j,
{
    if i > 0 && j > 0 {
        edits_bounds(a, b, (i - 1) as nat, j);
        edits_bounds(a, b, i, (j - 1) as nat);
        edits_bounds(a, b, (i - 1) as nat, (j - 1) as nat);
        if i > 1 && j > 1 {
            edits_bounds(a, b, (i - 2) as nat, (j - 2) as nat);
        }
    }
}

proof fn edits_symmetric(a: Seq<char>, b: Seq<char>, i: nat, j: nat)
    requires
        i <= a.len(),
        j <= b.len(),
    ensures
        edits(a, b, i, j) == edits(b, a, j, i),
    decreases i + j,
{
    if i > 0 && j > 0 {
        edits_symmetric(a, b, (i - 1) as nat, j);
        edits_symmetric(a, b, i, (j - 1) as nat);
        edits_symmetric(a, b, (i - 1) as nat, (j - 1) as nat);
        if i > 1 && j > 1 {
            edits_symmetric(a, b, (i - 2) as nat, (j - 2) as nat);
        }
    }
}

proof fn no_edits_means_same(a: Seq<char>, b: Seq<char>, i: nat, j: nat)
    requires
        i <= a.len(),
        j <= b.len(),
    ensures
        edits(a, b, i, j) == 0 <==> a.take(i as int) == b.take(j as int),
    decreases i + j,
{
    edits_bounds(a, b, i, j);
    if i > 0 && j > 0 {
        no_edits_means_same(a, b, (i - 1) as nat, (j - 1) as nat);
        let x = a.take(i as int);
        let y = b.take(j as int);
        assert(x.drop_last() =~= a.take(i - 1));
        assert(y.drop_last() =~= b.take(j - 1));
        if edits(a, b, i, j) == 0 {
            assert(x =~= x.drop_last().push(x.last()));
            assert(y =~= y.drop_last().push(y.last()));
            assert(x == y);
        }
        if x == y {
            assert(x.last() == y.last());
            assert(x.drop_last() == y.drop_last());
        }
    } else {
        if i == j {
            assert(a.take(0) =~= b.take(0));
        } else {
            assert(a.take(i as int).len() != b.take(j as int).len());
        }
    }
}

/// The distance is a distance: the same both ways, and zero between a text and
/// itself alone.
pub proof fn distance_is_a_distance(a: Seq<char>, b: Seq<char>)
    ensures
        distance(a, b) == distance(b, a),
        distance(a, b) == 0 <==> a == b,
{
    edits_symmetric(a, b, a.len(), b.len());
    no_edits_means_same(a, b, a.len(), b.len());
    assert(a.take(a.len() as int) =~= a);
    assert(b.take(b.len() as int) =~= b);
}

/// The distance of two texts, where it is at most `max`.
pub fn distance_within(a: &Vec<char>, b: &Vec<char>, max: usize) -> (r: Option<usize>)
    ensures
        r == if distance(a@, b@) <= max {
            Some(distance(a@, b@) as usize)
        } else {
            None::<usize>
        },
{
    proof {
        edits_bounds(a@, b@, a@.len(), b@.len());
    }
    let gap = if a.len() > b.len() { a.len() - b.len() } else { b.len() - a.len() };
    if gap > max {
        return None;
    }
    // Rows hold the distances for j from 1 on; for j = 0 it is i itself.
    let mut prev2: Vec<u128> = Vec::new();
    let mut prev: Vec<u128> = Vec::new();
    let mut j: usize = 0;
    while j < b.len()
        invariant
            j <= b@.len(),
            prev@.len() == j,
            prev2@.len() == j,
            forall|k: int| 0 <= k < j ==> #[trigger] prev@[k] == edits(a@, b@, 0, (k + 1) as nat),
        decreases b@.len() - j,
    {
        prev.push(j as u128 + 1);
        prev2.push(0);
        j = j + 1;
    }
    let mut i: usize = 0;
    while i < a.len()
        invariant
            i <= a@.len(),
            prev@.len() == b@.len(),
            prev2@.len() == b@.len(),
            forall|k: int| 0 <= k < b@.len() ==> #[trigger] prev@[k] == edits(a@, b@, i as nat, (k + 1) as nat),
            i > 0 ==> forall|k: int| 0 <= k < b@.len() ==> #[trigger] prev2@[k] == edits(a@, b@, (i - 1) as nat, (k + 1) as nat),
        decreases a@.len() - i,
    {
        let mut cur: Vec<u128> = Vec::new();
        let mut j: usize = 0;
        while j < b.len()
            invariant
                i < a@.len(),
                j <= b@.len(),
                cur@.len() == j,
                prev@.len() == b@.len(),
                prev2@.len() == b@.len(),
                forall|k: int| 0 <= k < b@.len() ==> #[trigger] prev@[k] == edits(a@, b@, i as nat, (k + 1) as nat),
                i > 0 ==> forall|k: int| 0 <= k < b@.len() ==> #[trigger] prev2@[k] == edits(a@, b@, (i - 1) as nat, (k + 1) as nat),
                forall|k: int| 0 <= k < j ==> #[trigger] cur@[k] == edits(a@, b@, (i + 1) as nat, (k + 1) as nat),
            decreases b@.len() - j,
        {
            proof {
                edits_bounds(a@, b@, i as nat, (j + 1) as nat);
                edits_bounds(a@, b@, i as nat, j as nat);
                edits_bounds(a@, b@, (i + 1) as nat, j as nat);
                if i > 0 && j > 0 {
                    edits_bounds(a@, b@, (i - 1) as nat, (j - 1) as nat);
                }
            }
            let cost: u128 = if a[i] == b[j] { 0 } else { 1 };
            let up: u128 = prev[j];
            let left: u128 = if j == 0 { i as u128 + 1 } else { cur[j - 1] };
            let corner: u128 = if j == 0 { i as u128 } else { prev[j - 1] };
            let mut d: u128 = if up <= left { up + 1 } else { left + 1 };
            if corner + cost < d {
                d = corner + cost;
            }
            if i > 0 && j > 0 && a[i] == b[j - 1] && a[i - 1] == b[j] {
                let back: u128 = if j == 1 { i as u128 - 1 } else { prev2[j - 2] };
                if back + 1 < d {
                    d = back + 1;
                }
            }
            assert(d == edits(a@, b@, (i + 1) as nat, (j + 1) as nat));
            cur.push(d);
            j = j + 1;
        }
        prev2 = prev;
        prev = cur;
        i = i + 1;
    }
    let d: u128 = if b.len() == 0 { a.len() as u128 } else { prev[b.len() - 1] };
    assert(d == distance(a@, b@));
    if d <= max as u128 {
        Some(d as usize)
    } else {
        None
    }
}

/// A text without its numbers.
pub open spec fn unnumbered(s: Seq<char>) -> Seq<char>
    decreases s.len(),
{
    if s.len() == 0 {
        s
    } else if numeric(s.last()) {
        unnumbered(s.drop_last())
    } else {
        unnumbered(s.drop_last()).push(s.last())
    }
}

/// Whether two texts are different and the same but for their numbers.
pub open spec fn numbered_apart(a: Seq<char>, b: Seq<char>) -> bool {
    a != b && unnumbered(a) == unnumbered(b)
}

fn letters(s: &Vec<char>) -> (r: Vec<char>)
    ensures
        r@ == unnumbered(s@),
{
    let mut r: Vec<char> = Vec::new();
    let mut i: usize = 0;
    while i < s.len()
        invariant
            i <= s@.len(),
            r@ == unnumbered(s@.take(i as int)),
        decreases s@.len() - i,
    {
        assert(s@.take(i + 1).drop_last() =~= s@.take(i as int));
        if !is_numeric(s[i]) {
            r.push(s[i]);
        }
        i = i + 1;
    }
    assert(s@.take(s@.len() as int) =~= s@);
    r
}

fn same_chars(a: &Vec<char>, b: &Vec<char>) -> (r: bool)
    ensures
        r == (a@ == b@),
{
    if a.len() != b.len() {
        return false;
    }
    let mut i: usize = 0;
    while i < a.len()
        invariant
            i <= a@.len(),
            a@.len() == b@.len(),
            forall|k: int| 0 <= k < i ==> a@[k] == b@[k],
        decreases a@.len() - i,
    {
        if a[i] != b[i] {
            return false;
        }
        i = i + 1;
    }
    assert(a@ =~= b@);
    true
}

/// Whether two texts are different and the same but for their numbers.
pub fn differs_only_in_digits(a: &Vec<char>, b: &Vec<char>) -> (r: bool)
    ensures
        r == numbered_apart(a@, b@),
{
    !same_chars(a, b) && same_chars(&letters(a), &letters(b))
}

/// Whether two plain forms are close enough to ask about them: the same, or
/// within the slips that a name of that length may have, unless they are told
/// apart by their numbers.
pub open spec fn close_forms(target: Seq<char>, other: Seq<char>, apart: bool) -> bool {
    &&& target.len() > 0
    &&& other.len() > 0
    &&& other == target || (!apart && distance(target, other) <= slips(target.len()))
}

/// Whether two plain forms, told apart by their numbers or not, are close enough
/// to ask about them.
pub fn close_enough(target: &Vec<char>, other: &Vec<char>, apart: bool) -> (r: bool)
    ensures
        r == close_forms(target@, other@, apart),
{
    if target.len() == 0 || other.len() == 0 {
        return false;
    }
    if same_chars(other, target) {
        return true;
    }
    let max = budget(target.len());
    !apart && distance_within(target, other, max).is_some()
}

/// Whether an existing name is close enough to a new one to ask about it.
pub open spec fn resembles(candidate: Seq<char>, name: Seq<char>) -> bool {
    let target = plain_form(candidate);
    let other = plain_form(name);
    close_forms(target, other, numbered_apart(target, other))
}

/// The texts of a list of names.
pub open spec fn names(existing: Seq<&str>) -> Seq<Seq<char>> {
    existing.map_values(|s: &str| s@)
}

/// Which of the existing names resemble the new one, in the order they come in.
pub fn similar_names(candidate: &str, existing: &[&str]) -> (r: Vec<String>)
    ensures
        views(r@) == names(existing@).filter(|n: Seq<char>| resembles(candidate@, n)),
{
    let target = normalise(candidate);
    let mut r: Vec<String> = Vec::new();
    let ghost pred = |n: Seq<char>| resembles(candidate@, n);
    let mut i: usize = 0;
    proof {
        reveal(Seq::filter);
        assert(views(r@) =~= names(existing@.take(0)).filter(pred));
    }
    while i < existing.len()
        invariant
            i <= existing@.len(),
            target@ == plain_form(candidate@),
            pred == (|n: Seq<char>| resembles(candidate@, n)),
            views(r@) == names(existing@.take(i as int)).filter(pred),
        decreases existing@.len() - i,
    {
        let name = existing[i];
        let other = normalise(name);
        let close = close_enough(&target, &other, differs_only_in_digits(&target, &other));
        let ghost before = views(r@);
        if close {
            r.push(own(name));
            assert(views(r@) =~= before.push(name@));
        }
        proof {
            reveal(Seq::filter);
            let now = names(existing@.take(i + 1));
            assert(now.drop_last() =~= names(existing@.take(i as int)));
            assert(now.last() == name@);
            assert(close == pred(name@));
        }
        i = i + 1;
    }
    assert(existing@.take(existing@.len() as int) =~= existing@);
    r
}

/// How a name is cased, spaced or punctuated makes no difference to what it
/// resembles.
pub proof fn spelling_does_not_matter(candidate: Seq<char>, a: Seq<char>, b: Seq<char>)
    requires
        plain_form(a) == plain_form(b),
    ensures
        resembles(candidate, a) == resembles(candidate, b),
        resembles(a, candidate) == resembles(b, candidate),
{
}

/// A name that is the same in plain form is always reported, however short.
pub proof fn same_plain_form_resembles(candidate: Seq<char>, name: Seq<char>)
    requires
        plain_form(candidate) == plain_form(name),
        plain_form(name).len() > 0,
    ensures
        resembles(candidate, name),
{
}

/// Numbering is deliberate: names that differ in their numbers alone do not
/// resemble each other.
pub proof fn numbering_is_let_through(candidate: Seq<char>, name: Seq<char>)
    requires
        numbered_apart(plain_form(candidate), plain_form(name)),
    ensures
        !resembles(candidate, name),
{
}

/// Longer names may differ by more, never by less: none up to three characters,
/// one slip from four to seven, and two from eight on, however long the name.
pub proof fn longer_names_allow_no_less(len: nat, longer: nat)
    requires
        len <= longer,
    ensures
        slips(len) <= slips(longer),
        len <= 3 ==> slips(len) == 0,
        4 <= len <= 7 ==> slips(len) == 1,
        8 <= len ==> slips(len) == 2,
{
}

/// Two names that are not told apart by their numbers resemble each other if one
/// edit separates them and the new one has four characters or more, or if two do
/// and it has eight or more; names of up to three characters have to be the same.
pub proof fn a_slip_is_a_resemblance(candidate: Seq<char>, name: Seq<char>)
    requires
        plain_form(candidate).len() > 0,
        plain_form(name).len() > 0,
        plain_form(candidate) != plain_form(name),
    ensures
        ({
            let new = plain_form(candidate);
            let old_name = plain_form(name);
            &&& unnumbered(new) != unnumbered(old_name) && distance(new, old_name) == 1 && new.len() >= 4 ==> resembles(candidate, name)
            &&& unnumbered(new) != unnumbered(old_name) && distance(new, old_name) == 2 && new.len() >= 8 ==> resembles(candidate, name)
            &&& new.len() <= 3 ==> !resembles(candidate, name)
            &&& new.len() <= 7 && distance(new, old_name) >= 2 ==> !resembles(candidate, name)
            &&& distance(new, old_name) >= 3 ==> !resembles(candidate, name)
        }),
{
    distance_is_a_distance(plain_form(candidate), plain_form(name));
}

proof fn a_common_tail_costs_nothing(a: Seq<char>, b: Seq<char>, i: nat, j: nat, n: nat)
    requires
        i + n <= a.len(),
        j + n <= b.len(),
        forall|k: int| 0 <= k < n ==> a[i + k] == #[trigger] b[j + k],
    ensures
        edits(a, b, i + n, j + n) <= edits(a, b, i, j),
    decreases n,
{
    if n > 0 {
        a_common_tail_costs_nothing(a, b, i, j, (n - 1) as nat);
        assert(a[i + (n - 1)] == b[j + (n - 1)]);
        let x = (i + n) as nat;
        let y = (j + n) as nat;
        if x > 0 && y > 0 {
            assert(edits(a, b, x, y) <= edits(a, b, (x - 1) as nat, (y - 1) as nat));
        }
    }
}

proof fn a_common_head_costs_nothing(head: Seq<char>, a: Seq<char>, b: Seq<char>)
    ensures
        edits(head + a, head + b, head.len(), head.len()) == 0,
{
    no_edits_means_same(head + a, head + b, head.len(), head.len());
    assert((head + a).take(head.len() as int) =~= head);
    assert((head + b).take(head.len() as int) =~= head);
}

/// One character typed for another, one left out or put in, or two neighbours
/// swapped, anywhere in a text, is one edit at most.
pub proof fn one_slip_is_one_edit(head: Seq<char>, x: char, y: char, tail: Seq<char>)
    ensures
        distance(head + seq![x] + tail, head + seq![y] + tail) <= 1,
        distance(head + tail, head + seq![y] + tail) <= 1,
        distance(head + seq![x] + tail, head + tail) <= 1,
        distance(head + seq![x, y] + tail, head + seq![y, x] + tail) <= 1,
{
    let h = head.len();
    let t = tail.len();
    {
        let a = head + seq![x] + tail;
        let b = head + seq![y] + tail;
        assert(a =~= head + (seq![x] + tail));
        assert(b =~= head + (seq![y] + tail));
        a_common_head_costs_nothing(head, seq![x] + tail, seq![y] + tail);
        assert(edits(a, b, h + 1, h + 1) <= 1);
        assert forall|k: int| 0 <= k < t implies a[h + 1 + k] == #[trigger] b[h + 1 + k] by {}
        a_common_tail_costs_nothing(a, b, h + 1, h + 1, t);
    }
    {
        let a = head + tail;
        let b = head + seq![y] + tail;
        assert(b =~= head + (seq![y] + tail));
        a_common_head_costs_nothing(head, tail, seq![y] + tail);
        assert(edits(a, b, h, h + 1) <= 1);
        assert forall|k: int| 0 <= k < t implies a[h + k] == #[trigger] b[h + 1 + k] by {}
        a_common_tail_costs_nothing(a, b, h, h + 1, t);
    }
    {
        let a = head + seq![x] + tail;
        let b = head + tail;
        assert(a =~= head + (seq![x] + tail));
        a_common_head_costs_nothing(head, seq![x] + tail, tail);
        assert(edits(a, b, h + 1, h) <= 1);
        assert forall|k: int| 0 <= k < t implies a[h + 1 + k] == #[trigger] b[h + k] by {}
        a_common_tail_costs_nothing(a, b, h + 1, h, t);
    }
    {
        let a = head + seq![x, y] + tail;
        let b = head + seq![y, x] + tail;
        assert(a =~= head + (seq![x, y] + tail));
        assert(b =~= head + (seq![y, x] + tail));
        a_common_head_costs_nothing(head, seq![x, y] + tail, seq![y, x] + tail);
        assert(a[h as int] == x && a[h as int + 1] == y && b[h as int] == y && b[h as int + 1] == x);
        assert(edits(a, b, h + 2, h + 2) <= 1);
        assert forall|k: int| 0 <= k < t implies a[h + 2 + k] == #[trigger] b[h + 2 + k] by {}
        a_common_tail_costs_nothing(a, b, h + 2, h + 2, t);
    }
}

/// A name of four characters or more with one slip in it is reported, whatever
/// the slip and wherever it is, as long as it is not a matter of numbers.
pub proof fn a_slip_in_a_name_is_caught(candidate: Seq<char>, name: Seq<char>, head: Seq<char>, x: char, y: char, tail: Seq<char>)
    requires
        head.len() + tail.len() >= 3,
        unnumbered(plain_form(candidate)) != unnumbered(plain_form(name)),
        ({
            let new = plain_form(candidate);
            let there = plain_form(name);
            ||| new == head + seq![x] + tail && there == head + seq![y] + tail
            ||| new == head + tail && there == head + seq![y] + tail && new.len() >= 4
            ||| new == head + seq![x] + tail && there == head + tail
            ||| new == head + seq![x, y] + tail && there == head + seq![y, x] + tail
        }),
    ensures
        resembles(candidate, name),
{
    one_slip_is_one_edit(head, x, y, tail);
    distance_is_a_distance(plain_form(candidate), plain_form(name));
    if plain_form(candidate) != plain_form(name) {
        a_slip_is_a_resemblance(candidate, name);
    }
}

proof fn strangers_cost_everything(a: Seq<char>, b: Seq<char>, i: nat, j: nat)
    requires
        i <= a.len(),
        j <= b.len(),
        forall|k: int, l: int| 0 <= k < a.len() && 0 <= l < b.len() ==> a[k] != b[l],
    ensures
        edits(a, b, i, j) == if i >= j { i } else { j },
    decreases i + j,
{
    if i > 0 && j > 0 {
        strangers_cost_everything(a, b, (i - 1) as nat, j);
        strangers_cost_everything(a, b, i, (j - 1) as nat);
        strangers_cost_everything(a, b, (i - 1) as nat, (j - 1) as nat);
        assert(a[i - 1] != b[j - 1]);
        if i > 1 && j > 1 {
            assert(a[i - 1] != b[j - 2]);
        }
    }
}

/// Names that have no character in common, or whose lengths differ by more than
/// two, do not resemble each other.
pub proof fn strangers_do_not_resemble(candidate: Seq<char>, name: Seq<char>)
    requires
        ({
            let new = plain_form(candidate);
            let there = plain_form(name);
            ||| new.len() > there.len() + 2
            ||| there.len() > new.len() + 2
            ||| forall|k: int, l: int| 0 <= k < new.len() && 0 <= l < there.len() ==> new[k] != there[l]
        }),
    ensures
        !resembles(candidate, name),
{
    let new = plain_form(candidate);
    let there = plain_form(name);
    edits_bounds(new, there, new.len(), there.len());
    if new.len() > 0 && there.len() > 0 {
        if forall|k: int, l: int| 0 <= k < new.len() && 0 <= l < there.len() ==> new[k] != there[l] {
            strangers_cost_everything(new, there, new.len(), there.len());
            assert(new[0] != there[0]);
        }
    }
}

/// A plain form is made character by character: letters and digits give their
/// lower case, and everything else gives nothing.
pub proof fn plain_forms_are_made_by_characters(a: Seq<char>, b: Seq<char>, c: char)
    ensures
        plain_form(a + b) == plain_form(a) + plain_form(b),
        alphanumeric(c) ==> plain_form(seq![c]) == lowered(c),
        !alphanumeric(c) ==> plain_form(seq![c]).len() == 0,
    decreases b.len(),
{
    let one = seq![c];
    assert(one.drop_last() =~= Seq::<char>::empty());
    assert(plain_form(one.drop_last()) =~= Seq::<char>::empty());
    assert(Seq::<char>::empty() + lowered(c) =~= lowered(c));
    if b.len() == 0 {
        assert(a + b =~= a);
        assert(plain_form(a) + plain_form(b) =~= plain_form(a));
    } else {
        plain_forms_are_made_by_characters(a, b.drop_last(), c);
        assert((a + b).drop_last() =~= a + b.drop_last());
        assert((a + b).last() == b.last());
        assert(plain_form(a) + plain_form(b.drop_last()) + lowered(b.last()) =~= plain_form(a) + (plain_form(b.drop_last()) + lowered(
            b.last(),
        )));
    }
}

/// Numbers are left out character by character, and nothing else is.
pub proof fn numbers_are_left_out_by_characters(a: Seq<char>, b: Seq<char>, c: char)
    ensures
        unnumbered(a + b) == unnumbered(a) + unnumbered(b),
        numeric(c) ==> unnumbered(seq![c]).len() == 0,
        !numeric(c) ==> unnumbered(seq![c]) == seq![c],
    decreases b.len(),
{
    let one = seq![c];
    assert(one.drop_last() =~= Seq::<char>::empty());
    assert(unnumbered(one.drop_last()) =~= Seq::<char>::empty());
    assert(Seq::<char>::empty().push(c) =~= seq![c]);
    if b.len() == 0 {
        assert(a + b =~= a);
        assert(unnumbered(a) + unnumbered(b) =~= unnumbered(a));
    } else {
        numbers_are_left_out_by_characters(a, b.drop_last(), c);
        assert((a + b).drop_last() =~= a + b.drop_last());
        assert((a + b).last() == b.last());
        assert((unnumbered(a) + unnumbered(b.drop_last())).push(b.last()) =~= unnumbered(a) + unnumbered(b.drop_last()).push(b.last()));
    }
}

} // verus!
