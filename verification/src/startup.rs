//! What the endpoint takes from its environment when it starts.
use vstd::prelude::*;

use crate::backend::default_backend_kind;
use crate::canon::{canonicalize_in, may_canonicalize};
use crate::mount::MountTable;
use crate::pathgrammar::{grammar_for, grammar_of};
use crate::proto::{BackendKind, CanonicalPath, ChaprError, SessionId};
use crate::text::{
    blank, chars_of, decimal, decimal_text, decimals_stand_for_their_number, is_blank, join_then_split, joined, own, pieces,
    quoted, quoted_text, spelled, split, split_text, trim, trimmed, views,
};

verus! {

/// The coordinator's address where none is set.
pub const DEFAULT_COORD_URL: &'static str = "http://127.0.0.1:8787";

/// The kind of fileserver that a setting names, or that of the system where it
/// names none.
pub fn backend_kind(setting: Option<&str>, windows: bool) -> (r: BackendKind)
    ensures
        r == match setting {
            Some(s) => if s@ == BackendKind::Smb.name_text() {
                BackendKind::Smb
            } else if s@ == BackendKind::Posix.name_text() {
                BackendKind::Posix
            } else if windows {
                BackendKind::Smb
            } else {
                BackendKind::Posix
            },
            None => if windows {
                BackendKind::Smb
            } else {
                BackendKind::Posix
            },
        },
{
    match setting {
        Some(s) => match BackendKind::named(s) {
            Some(kind) => kind,
            None => default_backend_kind(windows),
        },
        None => default_backend_kind(windows),
    }
}

/// The session of a process.
pub fn session_id(pid: u32) -> (r: SessionId)
    ensures
        r@ == "sess-"@ + decimal_text(pid as nat),
{
    let mut s = own("sess-");
    s.append(decimal(pid as u64).as_str());
    SessionId(s)
}

/// Where the local log goes: nowhere if the setting is blank, by default if
/// there is none.
pub fn diagnostics_log(setting: Option<String>, default: Option<String>) -> (r: Option<String>)
    ensures
        r == match setting {
            Some(s) => if is_blank(s@) {
                None
            } else {
                Some(s)
            },
            None => default,
        },
{
    match setting {
        Some(s) => if blank(s.as_str()) {
            None
        } else {
            Some(s)
        },
        None => default,
    }
}

/// The number that some digits stand for.
pub open spec fn number(digits: Seq<char>) -> nat
    decreases digits.len(),
{
    if digits.len() == 0 {
        0
    } else {
        number(digits.drop_last()) * 10 + (digits.last() as u32 - '0' as u32) as nat
    }
}

/// Whether a text is made of digits, one at least.
pub open spec fn is_number(s: Seq<char>) -> bool {
    s.len() > 0 && forall|i: int| 0 <= i < s.len() ==> '0' <= #[trigger] s[i] <= '9'
}

/// The digits of a number as it may be written, with a plus or without.
pub open spec fn digits_of(s: Seq<char>) -> Seq<char> {
    if s.len() > 0 && s[0] == '+' {
        s.drop_first()
    } else {
        s
    }
}

/// The limit on a body that a setting gives: a number that the machine can
/// count to, or else none.
pub fn inline_cap(setting: &str) -> (r: Option<usize>)
    ensures
        r == if is_number(digits_of(setting@)) && number(digits_of(setting@)) <= usize::MAX {
            Some(number(digits_of(setting@)) as usize)
        } else {
            None::<usize>
        },
{
    let v = chars_of(setting);
    let from: usize = if v.len() > 0 && v[0] == '+' { 1 } else { 0 };
    let ghost digits = digits_of(setting@);
    assert(v@.skip(from as int) =~= digits);
    if v.len() == from {
        return None;
    }
    let mut n: u128 = 0;
    let mut fits = true;
    let mut i: usize = from;
    assert(digits.take(0) =~= Seq::<char>::empty());
    while i < v.len()
        invariant
            v@ == setting@,
            from <= i <= v@.len(),
            digits == v@.skip(from as int),
            digits == digits_of(setting@),
            forall|k: int| 0 <= k < i - from ==> '0' <= #[trigger] digits[k] <= '9',
            fits ==> n == number(digits.take(i - from)) && n <= usize::MAX,
            !fits ==> number(digits.take(i - from)) > usize::MAX,
        decreases v@.len() - i,
    {
        let c = v[i];
        assert(digits[i - from] == c);
        if !('0' <= c && c <= '9') {
            assert(!is_number(digits));
            return None;
        }
        assert(digits.take(i - from + 1).drop_last() =~= digits.take(i - from));
        let d: u32 = c as u32 - '0' as u32;
        if fits {
            n = n * 10 + d as u128;
            if n > usize::MAX as u128 {
                fits = false;
            }
        }
        i = i + 1;
    }
    assert(digits.take(v@.len() - from) =~= digits);
    if fits {
        Some(n as usize)
    } else {
        None
    }
}

/// The roots that a setting lists: separated by commas, white space around them
/// and empty ones not counting.
pub open spec fn listed_roots(raw: Seq<char>) -> Seq<Seq<char>> {
    split_text(raw, ',').map_values(|p: Seq<char>| trimmed(p)).filter(|p: Seq<char>| p.len() > 0)
}

/// The roots that a setting lists.
pub fn root_parts(raw: &str) -> (r: Vec<String>)
    ensures
        views(r@) == listed_roots(raw@),
{
    let parts = split(&chars_of(raw), ',');
    let ghost all = split_text(raw@, ',').map_values(|p: Seq<char>| trimmed(p));
    let ghost pred = |p: Seq<char>| p.len() > 0;
    let mut r: Vec<String> = Vec::new();
    let mut i: usize = 0;
    proof {
        reveal(Seq::filter);
        assert(all.take(0) =~= Seq::empty());
        assert(views(r@) =~= all.take(0).filter(pred));
    }
    while i < parts.len()
        invariant
            i <= parts@.len(),
            pieces(parts@) == split_text(raw@, ','),
            all == split_text(raw@, ',').map_values(|p: Seq<char>| trimmed(p)),
            pred == (|p: Seq<char>| p.len() > 0),
            views(r@) == all.take(i as int).filter(pred),
        decreases parts@.len() - i,
    {
        let part = trim(spelled(parts[i].as_slice()).as_str());
        let ghost was = views(r@);
        proof {
            reveal(Seq::filter);
            assert(pieces(parts@)[i as int] == parts@[i as int]@);
            assert(all.take(i + 1).drop_last() =~= all.take(i as int));
            assert(all.take(i + 1).last() == part@);
        }
        let ghost text = part@;
        if !part.as_str().is_empty() {
            r.push(part);
            assert(views(r@) =~= was.push(text));
        }
        i = i + 1;
    }
    assert(all.take(parts@.len() as int) =~= all);
    r
}

/// Whether `r` are the canonical forms of some roots, one for each, or the
/// reasons why they have none. Nothing confines a root itself.
pub open spec fn are_resolved<M: MountTable>(
    kind: BackendKind,
    mounts: M,
    parts: Seq<String>,
    r: Seq<Result<CanonicalPath, ChaprError>>,
) -> bool {
    r.len() == parts.len() && forall|i: int|
        0 <= i < parts.len() ==> may_canonicalize(&grammar_of(kind), mounts, (#[trigger] parts[i])@, Seq::empty(), r[i])
}

/// The canonical forms of some roots.
pub fn resolve_roots<M: MountTable>(kind: BackendKind, mounts: &M, parts: &Vec<String>) -> (r: Vec<Result<CanonicalPath, ChaprError>>)
    ensures
        are_resolved(kind, *mounts, parts@, r@),
{
    let g = grammar_for(kind);
    let none: Vec<CanonicalPath> = Vec::new();
    let mut r: Vec<Result<CanonicalPath, ChaprError>> = Vec::new();
    let mut i: usize = 0;
    while i < parts.len()
        invariant
            g == grammar_of(kind),
            none@ == Seq::<CanonicalPath>::empty(),
            i <= parts@.len(),
            r@.len() == i,
            forall|k: int|
                0 <= k < i ==> may_canonicalize(&grammar_of(kind), *mounts, (#[trigger] parts@[k])@, Seq::empty(), r@[k]),
        decreases parts@.len() - i,
    {
        r.push(canonicalize_in(parts[i].as_str(), &g, mounts, none.as_slice()));
        i = i + 1;
    }
    r
}

/// The roots that have a canonical form, in their order.
pub open spec fn usable(resolved: Seq<Result<CanonicalPath, ChaprError>>) -> Seq<CanonicalPath>
    decreases resolved.len(),
{
    if resolved.len() == 0 {
        Seq::empty()
    } else {
        match resolved.last() {
            Ok(p) => usable(resolved.drop_last()).push(p),
            Err(_) => usable(resolved.drop_last()),
        }
    }
}

/// The roots that have a canonical form, in their order.
pub fn usable_roots(resolved: &Vec<Result<CanonicalPath, ChaprError>>) -> (r: Vec<CanonicalPath>)
    ensures
        r@ == usable(resolved@),
{
    let mut r: Vec<CanonicalPath> = Vec::new();
    let mut i: usize = 0;
    while i < resolved.len()
        invariant
            i <= resolved@.len(),
            r@ == usable(resolved@.take(i as int)),
        decreases resolved@.len() - i,
    {
        assert(resolved@.take(i + 1).drop_last() =~= resolved@.take(i as int));
        if let Ok(p) = &resolved[i] {
            r.push(p.clone());
        }
        i = i + 1;
    }
    assert(resolved@.take(resolved@.len() as int) =~= resolved@);
    r
}

/// The roots that have no canonical form, in their order, each with the reason.
pub open spec fn unusable(parts: Seq<String>, resolved: Seq<Result<CanonicalPath, ChaprError>>) -> Seq<(String, ChaprError)>
    decreases resolved.len(),
{
    if resolved.len() == 0 {
        Seq::empty()
    } else {
        let before = unusable(parts.drop_last(), resolved.drop_last());
        match resolved.last() {
            Ok(_) => before,
            Err(e) => before.push((parts.last(), e)),
        }
    }
}

/// The roots that have no canonical form, in their order, each with the reason.
pub fn unusable_roots(parts: Vec<String>, resolved: Vec<Result<CanonicalPath, ChaprError>>) -> (r: Vec<(String, ChaprError)>)
    requires
        parts@.len() == resolved@.len(),
    ensures
        r@ == unusable(parts@, resolved@),
{
    let ghost all = unusable(parts@, resolved@);
    let mut parts = parts;
    let mut resolved = resolved;
    let mut r: Vec<(String, ChaprError)> = Vec::new();
    assert(all + r@ =~= all);
    while resolved.len() > 0
        invariant
            parts@.len() == resolved@.len(),
            all == unusable(parts@, resolved@) + r@,
        decreases resolved@.len(),
    {
        let ghost after = r@;
        if let (Some(part), Some(Err(e))) = (parts.pop(), resolved.pop()) {
            r.insert(0, (part, e));
            assert(r@ =~= seq![(part, e)] + after);
        }
        assert(all =~= unusable(parts@, resolved@) + r@);
    }
    assert(unusable(parts@, resolved@) + r@ =~= r@);
    r
}

/// Every root that is listed is either used or told of, and none is both.
pub proof fn every_root_is_accounted_for(parts: Seq<String>, resolved: Seq<Result<CanonicalPath, ChaprError>>)
    requires
        parts.len() == resolved.len(),
    ensures
        usable(resolved).len() + unusable(parts, resolved).len() == parts.len(),
    decreases resolved.len(),
{
    if resolved.len() > 0 {
        every_root_is_accounted_for(parts.drop_last(), resolved.drop_last());
    }
}

pub open spec fn unusable_text(raw: Seq<char>) -> Seq<char> {
    "CHAPR_ROOT is set to "@ + quoted_text(raw)
        + " but none of it resolved to a usable path; refusing to start unconfined"@
}

/// The roots to confine the endpoint to. Without a setting there are none; with
/// one of which nothing can be used, the endpoint does not start, since whoever
/// set it meant to confine it.
pub fn coordinated_roots(setting: Option<&str>, resolved: &Vec<Result<CanonicalPath, ChaprError>>) -> (r: Result<Vec<CanonicalPath>, String>)
    ensures
        match setting {
            Some(raw) if !is_blank(raw@) => if usable(resolved@).len() > 0 {
                r matches Ok(roots) && roots@ == usable(resolved@)
            } else {
                r matches Err(e) && e@ == unusable_text(raw@)
            },
            _ => r matches Ok(roots) && roots@.len() == 0,
        },
{
    match setting {
        Some(raw) => {
            if blank(raw) {
                return Ok(Vec::new());
            }
            let roots = usable_roots(resolved);
            if roots.len() == 0 {
                let mut e = own("CHAPR_ROOT is set to ");
                e.append(quoted(raw).as_str());
                e.append(" but none of it resolved to a usable path; refusing to start unconfined");
                return Err(e);
            }
            Ok(roots)
        },
        None => Ok(Vec::new()),
    }
}

/// A limit is read for the number that its digits stand for, so that a number written in
/// decimal is read back.
pub proof fn a_number_is_read_back(n: nat)
    ensures
        is_number(decimal_text(n)),
        number(decimal_text(n)) == n,
        digits_of(decimal_text(n)) == decimal_text(n),
        digits_of(seq!['+'] + decimal_text(n)) == decimal_text(n),
    decreases n,
{
    decimals_stand_for_their_number(n);
    let s = decimal_text(n);
    let t = s.drop_last();
    assert('0' <= s[0] <= '9');
    assert((seq!['+'] + s).drop_first() =~= s);
    if n < 10 {
        assert(t =~= Seq::<char>::empty());
        assert(number(t) == 0);
    } else {
        assert(t =~= decimal_text(n / 10));
        a_number_is_read_back(n / 10);
    }
}

/// Only digits are a number, one at least.
pub proof fn digits_alone_are_a_number(s: Seq<char>)
    ensures
        is_number(s) <==> s.len() > 0 && forall|i: int| 0 <= i < s.len() ==> '0' <= #[trigger] s[i] <= '9',
{
}

/// Roots are listed with commas between them: each comes out without the white space around
/// it, in its order, and one that is blank does not count.
pub proof fn roots_are_listed_between_commas(parts: Seq<Seq<char>>)
    requires
        parts.len() > 0,
        forall|i: int, k: int| 0 <= i < parts.len() && 0 <= k < parts[i].len() ==> #[trigger] parts[i][k] != ',',
    ensures
        listed_roots(joined(parts, seq![','])) == parts.map_values(|p: Seq<char>| trimmed(p)).filter(|p: Seq<char>| p.len() > 0),
{
    join_then_split(parts, ',');
}

/// The roots that are used are those that have a canonical form, and those that are told of
/// are the others, each with its own reason.
pub proof fn roots_are_used_where_they_resolve(parts: Seq<String>, resolved: Seq<Result<CanonicalPath, ChaprError>>, i: int)
    requires
        parts.len() == resolved.len(),
        0 <= i < parts.len(),
    ensures
        resolved[i] matches Ok(p) ==> usable(resolved).contains(p),
        resolved[i] matches Err(e) ==> unusable(parts, resolved).contains((parts[i], e)),
    decreases parts.len(),
{
    let before = usable(resolved.drop_last());
    let told = unusable(parts.drop_last(), resolved.drop_last());
    if i < parts.len() - 1 {
        roots_are_used_where_they_resolve(parts.drop_last(), resolved.drop_last(), i);
        if let Ok(p) = resolved[i] {
            let k = choose|k: int| 0 <= k < before.len() && before[k] == p;
            assert(usable(resolved)[k] == p);
        }
        if let Err(e) = resolved[i] {
            let k = choose|k: int| 0 <= k < told.len() && told[k] == (parts[i], e);
            assert(unusable(parts, resolved)[k] == (parts[i], e));
        }
    } else {
        if let Ok(p) = resolved[i] {
            assert(usable(resolved)[before.len() as int] == p);
        }
        if let Err(e) = resolved[i] {
            assert(unusable(parts, resolved)[told.len() as int] == (parts[i], e));
        }
    }
}

} // verus!
