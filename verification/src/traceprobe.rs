//! What a host says about the conversation that a call belongs to.
//!
//! The probe only watches. It reports each trace context once, and stops when
//! there are so many that they cannot be conversations.
use vstd::prelude::*;

use crate::pathlock::before;
use crate::text::{chars_of, join_then_split, joined, own, split, split_text, split_then_join};

verus! {

/// How many contexts are reported before the probe falls silent.
pub const MAX_REPORTED_CONTEXTS: usize = 32;

/// What the probe has seen in this run.
pub struct TraceProbe {
    /// The trace identifiers reported, each once.
    pub seen: Vec<String>,
    /// That calls come without a context was reported.
    pub reported_absent: bool,
    /// That there are too many contexts was reported.
    pub reported_cap: bool,
}

/// What is worth reporting of a call.
#[derive(Debug, PartialEq, Eq)]
pub enum Observation {
    /// A call came without a context.
    Absent { keys: Vec<String> },
    /// A context that was not seen before.
    NewContext { trace_id: String, traceparent: String, keys: Vec<String>, distinct: usize },
    /// There are too many contexts to go on.
    Capped { distinct: usize },
}

/// A hexadecimal digit.
pub open spec fn is_hex(c: char) -> bool {
    '0' <= c <= '9' || 'a' <= c <= 'f' || 'A' <= c <= 'F'
}

/// A hexadecimal digit in lower case.
pub open spec fn lower_hex(c: char) -> char {
    if c == 'A' { 'a' } else if c == 'B' { 'b' } else if c == 'C' { 'c' } else if c == 'D' { 'd' }
    else if c == 'E' { 'e' } else if c == 'F' { 'f' } else { c }
}

/// Whether a field of a context is `n` hexadecimal digits.
pub open spec fn is_hex_field(field: Seq<char>, n: nat) -> bool {
    field.len() == n && forall|i: int| 0 <= i < n ==> is_hex(#[trigger] field[i])
}

/// The trace identifier of a context, in lower case. A context is a version, the
/// identifier, a span and flags, each in hexadecimal digits of its own number;
/// anything else has none.
pub open spec fn trace_id(traceparent: Seq<char>) -> Option<Seq<char>> {
    let fields = split_text(traceparent, '-');
    if fields.len() == 4 && is_hex_field(fields[0], 2) && is_hex_field(fields[1], 32) && is_hex_field(fields[2], 16)
        && is_hex_field(fields[3], 2) {
        Some(fields[1].map_values(|c: char| lower_hex(c)))
    } else {
        None
    }
}

fn hex_field(field: &Vec<char>, n: usize) -> (r: bool)
    ensures
        r == is_hex_field(field@, n as nat),
{
    if field.len() != n {
        return false;
    }
    let mut i: usize = 0;
    while i < n
        invariant
            i <= n,
            field@.len() == n,
            forall|k: int| 0 <= k < i ==> is_hex(#[trigger] field@[k]),
        decreases n - i,
    {
        let c = field[i];
        if !(('0' <= c && c <= '9') || ('a' <= c && c <= 'f') || ('A' <= c && c <= 'F')) {
            assert(!is_hex(field@[i as int]));
            return false;
        }
        i = i + 1;
    }
    true
}

/// The trace identifier of a context.
pub fn trace_id_of(traceparent: &str) -> (r: Option<String>)
    ensures
        match r {
            Some(id) => trace_id(traceparent@) == Some(id@),
            None => trace_id(traceparent@) is None,
        },
{
    let fields = split(&chars_of(traceparent), '-');
    let ghost spec_fields = split_text(traceparent@, '-');
    assert(spec_fields.len() == fields@.len());
    if fields.len() != 4 {
        return None;
    }
    assert(spec_fields[0] == fields@[0]@ && spec_fields[1] == fields@[1]@);
    assert(spec_fields[2] == fields@[2]@ && spec_fields[3] == fields@[3]@);
    if !(hex_field(&fields[0], 2) && hex_field(&fields[1], 32) && hex_field(&fields[2], 16) && hex_field(&fields[3], 2)) {
        return None;
    }
    let field = &fields[1];
    let mut id = String::new();
    let mut i: usize = 0;
    while i < field.len()
        invariant
            i <= field@.len(),
            id@ == field@.take(i as int).map_values(|c: char| lower_hex(c)),
        decreases field@.len() - i,
    {
        let c = field[i];
        let low = if c == 'A' { 'a' } else if c == 'B' { 'b' } else if c == 'C' { 'c' } else if c == 'D' { 'd' }
            else if c == 'E' { 'e' } else if c == 'F' { 'f' } else { c };
        id.push(low);
        i = i + 1;
        assert(id@ =~= field@.take(i as int).map_values(|c: char| lower_hex(c)));
    }
    assert(field@.take(field@.len() as int) =~= field@);
    Some(id)
}

/// Whether a text is among some.
pub open spec fn has(seen: Seq<String>, id: Seq<char>) -> bool {
    exists|i: int| 0 <= i < seen.len() && (#[trigger] seen[i])@ == id
}

fn contains(seen: &Vec<String>, id: &String) -> (r: bool)
    ensures
        r == has(seen@, id@),
{
    let mut i: usize = 0;
    while i < seen.len()
        invariant
            i <= seen@.len(),
            forall|k: int| 0 <= k < i ==> (#[trigger] seen@[k])@ != id@,
        decreases seen@.len() - i,
    {
        if seen[i] == *id {
            return true;
        }
        i = i + 1;
    }
    false
}

fn copy_all(keys: &Vec<String>) -> (r: Vec<String>)
    ensures
        r@ == keys@,
{
    let mut r: Vec<String> = Vec::new();
    let mut i: usize = 0;
    while i < keys.len()
        invariant
            i <= keys@.len(),
            r@ == keys@.take(i as int),
        decreases keys@.len() - i,
    {
        r.push(keys[i].clone());
        i = i + 1;
        assert(r@ =~= keys@.take(i as int));
    }
    assert(keys@.take(keys@.len() as int) =~= keys@);
    r
}

impl TraceProbe {
    /// Whether every identifier seen stands once, and there are no more than are
    /// reported.
    pub open spec fn wf(&self) -> bool {
        &&& self.seen@.len() <= MAX_REPORTED_CONTEXTS
        &&& forall|i: int, j: int| 0 <= i < j < self.seen@.len() ==> (#[trigger] self.seen@[i])@ != (#[trigger] self.seen@[j])@
    }

    /// A probe that has seen nothing.
    pub fn new() -> (r: TraceProbe)
        ensures
            r.wf(),
            r.seen@.len() == 0,
            !r.reported_absent,
            !r.reported_cap,
    {
        TraceProbe { seen: Vec::new(), reported_absent: false, reported_cap: false }
    }

    /// Notes a call, and tells what is worth reporting of it: the first one
    /// without a context, every context that is new, and once that there are
    /// too many.
    pub fn observe(&mut self, traceparent: Option<&str>, keys: &Vec<String>) -> (r: Option<Observation>)
        requires
            old(self).wf(),
        ensures
            final(self).wf(),
            match traceparent {
                None => {
                    &&& final(self).seen == old(self).seen
                    &&& final(self).reported_cap == old(self).reported_cap
                    &&& final(self).reported_absent
                    &&& if old(self).reported_absent {
                        r is None
                    } else {
                        r matches Some(Observation::Absent { keys: k }) && k@ == keys@
                    }
                },
                Some(tp) => {
                    &&& final(self).reported_absent == old(self).reported_absent
                    &&& match trace_id(tp@) {
                        None => r is None && *final(self) == *old(self),
                        Some(id) => if has(old(self).seen@, id) {
                            r is None && *final(self) == *old(self)
                        } else if old(self).seen@.len() >= MAX_REPORTED_CONTEXTS {
                            &&& final(self).seen == old(self).seen
                            &&& final(self).reported_cap
                            &&& if old(self).reported_cap {
                                r is None
                            } else {
                                r == Some(Observation::Capped { distinct: old(self).seen@.len() as usize })
                            }
                        } else {
                            &&& final(self).reported_cap == old(self).reported_cap
                            &&& final(self).seen@.len() == old(self).seen@.len() + 1
                            &&& final(self).seen@.drop_last() == old(self).seen@
                            &&& final(self).seen@.last()@ == id
                            &&& r matches Some(Observation::NewContext { trace_id: t, traceparent: p, keys: k, distinct })
                                && t@ == id && p@ == tp@ && k@ == keys@ && distinct == final(self).seen@.len()
                        },
                    }
                },
            },
    {
        match traceparent {
            None => {
                if self.reported_absent {
                    return None;
                }
                self.reported_absent = true;
                Some(Observation::Absent { keys: copy_all(keys) })
            },
            Some(tp) => {
                let id = match trace_id_of(tp) {
                    Some(id) => id,
                    None => return None,
                };
                if contains(&self.seen, &id) {
                    return None;
                }
                if self.seen.len() >= MAX_REPORTED_CONTEXTS {
                    if self.reported_cap {
                        return None;
                    }
                    self.reported_cap = true;
                    return Some(Observation::Capped { distinct: self.seen.len() });
                }
                let ghost start = self.seen@;
                self.seen.push(id.clone());
                assert(self.seen@.drop_last() =~= start);
                Some(
                    Observation::NewContext {
                        trace_id: id,
                        traceparent: own(tp),
                        keys: copy_all(keys),
                        distinct: self.seen.len(),
                    },
                )
            },
        }
    }
}

/// What is written down of a call without a context.
pub const ABSENT_LINE: &'static str = "no traceparent: a tool call arrived with no trace context. If this run reports none at all, a Chaperone session stays per endpoint run (D-044)";

/// What is written down of a new context.
pub const NEW_CONTEXT_LINE: &'static str = "new trace context (SEP-414). One line per conversation would make this a conversation id; one line per tool call makes it a request id (D-044)";

/// What is written down of too many contexts.
pub const CAPPED_LINE: &'static str = "stopped reporting trace contexts: this host mints one per request, which answers the question and is not a conversation id (D-044)";

impl Observation {
    /// The line for the log.
    pub fn log(&self) -> (r: &'static str)
        ensures
            r@ == match self {
                Observation::Absent { .. } => ABSENT_LINE@,
                Observation::NewContext { .. } => NEW_CONTEXT_LINE@,
                Observation::Capped { .. } => CAPPED_LINE@,
            },
    {
        match self {
            Observation::Absent { .. } => ABSENT_LINE,
            Observation::NewContext { .. } => NEW_CONTEXT_LINE,
            Observation::Capped { .. } => CAPPED_LINE,
        }
    }
}

/// Whether texts stand in order.
pub open spec fn sorted(keys: Seq<String>) -> bool {
    forall|i: int, j: int| 0 <= i < j < keys.len() ==> !before(#[trigger] keys[j]@, #[trigger] keys[i]@)
}

proof fn before_is_an_order(a: Seq<char>, b: Seq<char>, c: Seq<char>)
    ensures
        before(a, b) ==> !before(b, a),
        !before(a, b) && !before(b, c) ==> !before(a, c),
    decreases a.len() + b.len() + c.len(),
{
    if a.len() > 0 && b.len() > 0 && c.len() > 0 {
        before_is_an_order(a.drop_first(), b.drop_first(), c.drop_first());
    } else if a.len() > 0 && b.len() > 0 {
        before_is_an_order(a.drop_first(), b.drop_first(), c);
    }
}

/// The keys of a request's metadata, in order.
pub fn meta_keys(keys: Vec<String>) -> (r: Vec<String>)
    ensures
        sorted(r@),
        r@.to_multiset() == keys@.to_multiset(),
{
    let mut r: Vec<String> = Vec::new();
    let mut i: usize = 0;
    assert(keys@.take(0) =~= r@);
    while i < keys.len()
        invariant
            i <= keys@.len(),
            sorted(r@),
            r@.to_multiset() == keys@.take(i as int).to_multiset(),
        decreases keys@.len() - i,
    {
        let key = keys[i].clone();
        let text = chars_of(key.as_str());
        let ghost start = r@;
        let mut at: usize = r.len();
        while at > 0 && crate::pathlock::comes_before(&text, &chars_of(r[at - 1].as_str()))
            invariant
                r@ == start,
                sorted(start),
                text@ == key@,
                at <= start.len(),
                forall|k: int| at <= k < start.len() ==> before(key@, (#[trigger] start[k])@),
            decreases at,
        {
            at = at - 1;
        }
        r.insert(at, key);
        proof {
            let end = r@;
            assert(end =~= start.insert(at as int, key));
            start.insert_ensures(at as int, key);
            assert(keys@.take(i + 1) =~= keys@.take(i as int).push(key));
            keys@.take(i as int).to_multiset_ensures();
            start.to_multiset_ensures();
            vstd::seq_lib::to_multiset_insert(start, at as int, key);
            assert forall|a: int, b: int| 0 <= a < b < end.len() implies !before(#[trigger] end[b]@, #[trigger] end[a]@) by {
                if a == at {
                    assert(end[b] == start[b - 1]);
                    before_is_an_order(key@, start[b - 1]@, key@);
                } else if b == at {
                    assert(end[a] == start[a]);
                    if a < at - 1 {
                        before_is_an_order(key@, start[at - 1]@, start[a]@);
                    }
                } else {
                    let sa = if a < at { a } else { a - 1 };
                    let sb = if b < at { b } else { b - 1 };
                    assert(end[a] == start[sa] && end[b] == start[sb]);
                }
            }
        }
        i = i + 1;
    }
    assert(keys@.take(keys@.len() as int) =~= keys@);
    r
}

/// A context of a version, an identifier, a span and flags, joined by hyphens, has that
/// identifier, in lower case; so the identifier does not depend on the case that a caller
/// writes it in, nor on the span or the flags.
pub proof fn a_trace_id_is_the_second_field(version: Seq<char>, id: Seq<char>, span: Seq<char>, flags: Seq<char>)
    requires
        version.len() == 2,
        id.len() == 32,
        span.len() == 16,
        flags.len() == 2,
        forall|i: int| 0 <= i < 2 ==> is_hex(#[trigger] version[i]),
        forall|i: int| 0 <= i < 32 ==> is_hex(#[trigger] id[i]),
        forall|i: int| 0 <= i < 16 ==> is_hex(#[trigger] span[i]),
        forall|i: int| 0 <= i < 2 ==> is_hex(#[trigger] flags[i]),
    ensures
        trace_id(version + seq!['-'] + id + seq!['-'] + span + seq!['-'] + flags) matches Some(t) && t.len() == 32 && forall|i: int|
            0 <= i < 32 ==> #[trigger] t[i] == (if id[i] == 'A' { 'a' } else if id[i] == 'B' { 'b' } else if id[i] == 'C' { 'c' }
                else if id[i] == 'D' { 'd' } else if id[i] == 'E' { 'e' } else if id[i] == 'F' { 'f' } else { id[i] }),
{
    let parts = seq![version, id, span, flags];
    let text = version + seq!['-'] + id + seq!['-'] + span + seq!['-'] + flags;
    assert forall|i: int, k: int| 0 <= i < parts.len() && 0 <= k < parts[i].len() implies #[trigger] parts[i][k] != '-' by {
        if i == 0 {
            assert(is_hex(version[k]));
        } else if i == 1 {
            assert(is_hex(id[k]));
        } else if i == 2 {
            assert(is_hex(span[k]));
        } else {
            assert(is_hex(flags[k]));
        }
    }
    join_then_split(parts, '-');
    let three = seq![version, id, span];
    let two = seq![version, id];
    let one = seq![version];
    assert(parts.drop_last() =~= three);
    assert(three.drop_last() =~= two);
    assert(two.drop_last() =~= one);
    let dash = seq!['-'];
    assert(joined(one, dash) == version);
    assert(joined(two, dash) == version + dash + id);
    assert(joined(three, dash) == version + dash + id + dash + span);
    assert(joined(parts, dash) == text);
    assert(is_hex_field(parts[0], 2) && is_hex_field(parts[1], 32) && is_hex_field(parts[2], 16) && is_hex_field(parts[3], 2));
}

/// A context that is not of this shape has no identifier: one that is too short, too long,
/// or holds something else than hexadecimal digits and hyphens.
pub proof fn only_a_context_has_a_trace_id(s: Seq<char>)
    requires
        trace_id(s) is Some,
    ensures
        s.len() == 55,
        forall|i: int| 0 <= i < s.len() ==> is_hex(#[trigger] s[i]) || s[i] == '-',
{
    let f = split_text(s, '-');
    split_then_join(s, '-');
    let dash = seq!['-'];
    let three = f.drop_last();
    let two = three.drop_last();
    let one = two.drop_last();
    assert(joined(one, dash) == f[0]);
    assert(joined(two, dash) == f[0] + dash + f[1]);
    assert(joined(three, dash) == f[0] + dash + f[1] + dash + f[2]);
    let t = f[0] + dash + f[1] + dash + f[2] + dash + f[3];
    assert(s == t);
    assert forall|i: int| 0 <= i < s.len() implies is_hex(#[trigger] s[i]) || s[i] == '-' by {
        if i < 2 {
            assert(s[i] == f[0][i]);
        } else if 3 <= i < 35 {
            assert(s[i] == f[1][i - 3]);
        } else if 36 <= i < 52 {
            assert(s[i] == f[2][i - 36]);
        } else if 53 <= i {
            assert(s[i] == f[3][i - 53]);
        }
    }
}

/// The hexadecimal digits.
pub proof fn hexadecimal_digits(c: char)
    ensures
        is_hex(c) <==> '0' <= c <= '9' || 'a' <= c <= 'f' || 'A' <= c <= 'F',
{
}

/// A context counts as seen exactly where its identifier is among those that were.
pub proof fn a_context_is_seen_by_its_id(seen: Seq<String>, id: Seq<char>)
    ensures
        has(seen, id) <==> exists|i: int| 0 <= i < seen.len() && (#[trigger] seen[i])@ == id,
{
}

} // verus!
