//! The order in which one process takes its own locks on paths.
//!
//! Two operations that lock several paths each can only wait for each other in a
//! circle if they lock them in different orders. So there is one order.
use vstd::prelude::*;

use crate::proto::CanonicalPath;
use crate::text::chars_of;

verus! {

/// Whether one text comes before another: by the first character in which they
/// differ, a text before every longer one that begins with it.
pub open spec fn before(a: Seq<char>, b: Seq<char>) -> bool
    decreases b.len(),
{
    if b.len() == 0 {
        false
    } else if a.len() == 0 {
        true
    } else if a[0] == b[0] {
        before(a.drop_first(), b.drop_first())
    } else {
        a[0] < b[0]
    }
}

/// No text comes before itself.
pub proof fn before_irreflexive(a: Seq<char>)
    ensures
        !before(a, a),
    decreases a.len(),
{
    if a.len() > 0 {
        before_irreflexive(a.drop_first());
    }
}

/// The order goes on through what lies between.
pub proof fn before_transitive(a: Seq<char>, b: Seq<char>, c: Seq<char>)
    requires
        before(a, b),
        before(b, c),
    ensures
        before(a, c),
    decreases c.len(),
{
    if a.len() > 0 && a[0] == b[0] && b[0] == c[0] {
        before_transitive(a.drop_first(), b.drop_first(), c.drop_first());
    }
}

/// Of two different texts one comes before the other.
pub proof fn before_total(a: Seq<char>, b: Seq<char>)
    ensures
        a == b || before(a, b) || before(b, a),
    decreases a.len() + b.len(),
{
    if a.len() > 0 && b.len() > 0 {
        if a[0] == b[0] {
            before_total(a.drop_first(), b.drop_first());
            if a.drop_first() == b.drop_first() {
                assert(a =~= seq![a[0]] + a.drop_first());
                assert(b =~= seq![b[0]] + b.drop_first());
            }
        }
    } else if a.len() == 0 && b.len() == 0 {
        assert(a =~= b);
    }
}

pub(crate) fn comes_before(a: &Vec<char>, b: &Vec<char>) -> (r: bool)
    ensures
        r == before(a@, b@),
{
    let mut i: usize = 0;
    assert(a@.skip(0) =~= a@);
    assert(b@.skip(0) =~= b@);
    while i < a.len() && i < b.len() && a[i] == b[i]
        invariant
            i <= a@.len(),
            i <= b@.len(),
            before(a@, b@) == before(a@.skip(i as int), b@.skip(i as int)),
        decreases a@.len() - i,
    {
        assert(a@.skip(i as int).drop_first() =~= a@.skip(i + 1));
        assert(b@.skip(i as int).drop_first() =~= b@.skip(i + 1));
        i = i + 1;
    }
    if i == b.len() {
        false
    } else if i == a.len() {
        true
    } else {
        a[i] < b[i]
    }
}

/// Whether paths stand in order, each once.
pub open spec fn in_order(paths: Seq<CanonicalPath>) -> bool {
    forall|i: int, j: int| 0 <= i < j < paths.len() ==> before(#[trigger] paths[i]@, #[trigger] paths[j]@)
}

/// Whether a path is among some paths.
pub open spec fn among(paths: Seq<CanonicalPath>, p: Seq<char>) -> bool {
    exists|i: int| 0 <= i < paths.len() && (#[trigger] paths[i])@ == p
}

fn insert(sorted: &mut Vec<CanonicalPath>, path: &CanonicalPath)
    requires
        in_order(old(sorted)@),
    ensures
        in_order(final(sorted)@),
        forall|p: Seq<char>| among(final(sorted)@, p) <==> among(old(sorted)@, p) || p == path@,
{
    let text = chars_of(path.as_str());
    let ghost start = sorted@;
    let mut at: usize = 0;
    while at < sorted.len() && comes_before(&chars_of(sorted[at].as_str()), &text)
        invariant
            sorted@ == start,
            text@ == path@,
            at <= start.len(),
            forall|k: int| 0 <= k < at ==> before((#[trigger] start[k])@, path@),
        decreases start.len() - at,
    {
        at = at + 1;
    }
    if at < sorted.len() && sorted[at].same(path) {
        assert(among(start, path@));
        return;
    }
    let added = path.clone();
    sorted.insert(at, added);
    proof {
        let end = sorted@;
        assert(end =~= start.insert(at as int, added));
        if at < start.len() {
            before_total(path@, start[at as int]@);
        }
        assert forall|i: int, j: int| 0 <= i < j < end.len() implies before(#[trigger] end[i]@, #[trigger] end[j]@) by {
            if j == at {
                assert(end[i] == start[i]);
            } else if i == at {
                assert(end[j] == start[j - 1]);
                if j - 1 > at {
                    before_transitive(path@, start[at as int]@, start[j - 1]@);
                }
            } else {
                let si = if i < at { i } else { i - 1 };
                let sj = if j < at { j } else { j - 1 };
                assert(end[i] == start[si] && end[j] == start[sj]);
            }
        }
        assert forall|p: Seq<char>| among(end, p) <==> among(start, p) || p == path@ by {
            if among(end, p) {
                let i = choose|i: int| 0 <= i < end.len() && (#[trigger] end[i])@ == p;
                if i != at {
                    let si = if i < at { i } else { i - 1 };
                    assert(start[si] == end[i]);
                }
            }
            if among(start, p) {
                let i = choose|i: int| 0 <= i < start.len() && (#[trigger] start[i])@ == p;
                let ei = if i < at { i } else { i + 1 };
                assert(end[ei] == start[i]);
            }
            if p == path@ {
                assert(end[at as int]@ == p);
            }
        }
    }
}

/// The order in which paths are to be locked: every path once.
pub fn lock_order(paths: &[CanonicalPath]) -> (r: Vec<CanonicalPath>)
    ensures
        in_order(r@),
        forall|p: Seq<char>| among(r@, p) <==> among(paths@, p),
{
    let mut r: Vec<CanonicalPath> = Vec::new();
    let mut i: usize = 0;
    while i < paths.len()
        invariant
            i <= paths@.len(),
            in_order(r@),
            forall|p: Seq<char>| among(r@, p) <==> among(paths@.take(i as int), p),
        decreases paths@.len() - i,
    {
        insert(&mut r, &paths[i]);
        proof {
            let was = paths@.take(i as int);
            let now = paths@.take(i + 1);
            assert forall|p: Seq<char>| among(now, p) <==> among(was, p) || p == paths@[i as int]@ by {
                if among(now, p) {
                    let k = choose|k: int| 0 <= k < now.len() && (#[trigger] now[k])@ == p;
                    if k < i {
                        assert(was[k] == now[k]);
                    }
                }
                if among(was, p) {
                    let k = choose|k: int| 0 <= k < was.len() && (#[trigger] was[k])@ == p;
                    assert(now[k] == was[k]);
                }
                if p == paths@[i as int]@ {
                    assert(now[i as int]@ == p);
                }
            }
        }
        i = i + 1;
    }
    assert(paths@.take(paths@.len() as int) =~= paths@);
    r
}

/// Two operations never wait for each other in a circle: whatever two paths both
/// of them lock, they lock in the same order.
pub proof fn orders_agree(a: Seq<CanonicalPath>, b: Seq<CanonicalPath>, i: int, j: int, k: int, l: int)
    requires
        in_order(a),
        in_order(b),
        0 <= i < j < a.len(),
        0 <= k < b.len(),
        0 <= l < b.len(),
        a[i]@ == b[k]@,
        a[j]@ == b[l]@,
    ensures
        k < l,
{
    assert(before(a[i]@, a[j]@));
    if k == l {
        before_irreflexive(a[i]@);
    } else if l < k {
        assert(before(b[l]@, b[k]@));
        before_transitive(a[i]@, a[j]@, a[i]@);
        before_irreflexive(a[i]@);
    }
}

/// No path is locked twice.
pub proof fn locked_once(a: Seq<CanonicalPath>, i: int, j: int)
    requires
        in_order(a),
        0 <= i < a.len(),
        0 <= j < a.len(),
        a[i]@ == a[j]@,
    ensures
        i == j,
{
    before_irreflexive(a[i]@);
    if i < j {
        assert(before(a[i]@, a[j]@));
    } else if j < i {
        assert(before(a[j]@, a[i]@));
    }
}

/// The order is that of the characters: of two texts that begin alike, the one with the
/// smaller character where they first differ comes first, and a text comes before every
/// longer one that begins with it.
pub proof fn the_first_difference_decides(head: Seq<char>, x: char, a: Seq<char>, y: char, b: Seq<char>)
    ensures
        x != y ==> (before(head + seq![x] + a, head + seq![y] + b) <==> x < y),
        before(head, head + seq![x] + a),
        !before(head + seq![x] + a, head),
    decreases head.len(),
{
    let s = head + seq![x] + a;
    let t = head + seq![y] + b;
    if head.len() == 0 {
        assert(s[0] == x && t[0] == y);
    } else {
        let d = head.drop_first();
        the_first_difference_decides(d, x, a, y, b);
        assert(s.drop_first() =~= d + seq![x] + a);
        assert(t.drop_first() =~= d + seq![y] + b);
        assert(s[0] == head[0] && t[0] == head[0]);
    }
}

} // verus!
