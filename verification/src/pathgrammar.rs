//! How each kind of fileserver spells its paths.
use vstd::prelude::*;
use unicode_normalization::UnicodeNormalization;

use crate::mount::{asked_for, MountTable};
use crate::proto::{BackendKind, CanonicalPath, Principal};
use crate::text::{
    begins_with, chars_of, lowercase, lowercase_text, own, quoted, quoted_text, slice_of, spelled,
};

verus! {

/// The Unicode normalisation form C of a text.
pub uninterp spec fn nfc_text(s: Seq<char>) -> Seq<char>;

/// `UnicodeNormalization::nfc`, collected: the text in normalisation form C, a
/// function of its characters alone.
#[verifier::external_body]
fn nfc(s: &str) -> (r: String)
    ensures
        r@ == nfc_text(s@),
{
    s.nfc().collect()
}

/// `uuid::Uuid::new_v4` in its simple form: 32 lower-case hexadecimal digits.
/// Which ones is a matter of chance, so no more is said of them.
#[verifier::external_body]
fn random_id() -> (r: String)
    ensures
        r@.len() == 32,
        forall|i: int| 0 <= i < 32 ==> crate::proto::is_lower_hex(#[trigger] r@[i]),
{
    uuid::Uuid::new_v4().simple().to_string()
}

/// Whether a text is a time as it is printed without separators: fourteen digits
/// or more, behind a sign where the year has not four of them.
pub open spec fn is_stamp(s: Seq<char>) -> bool {
    &&& s.len() >= 14
    &&& forall|i: int| 0 <= i < s.len() ==> '0' <= #[trigger] s[i] <= '9' || (i == 0 && (s[0] == '+' || s[0] == '-'))
}

/// `chrono::Utc::now`, printed as year, month, day, hour, minute and second
/// without separators: four digits of the year or more, with a sign where they
/// are not four, and two of each of the others. Which ones depends on the clock,
/// so no more is said of them.
#[verifier::external_body]
fn stamp_now() -> (r: String)
    ensures
        is_stamp(r@),
{
    chrono::Utc::now().format("%Y%m%d%H%M%S").to_string()
}

/// Both separators written as the one of Windows.
pub open spec fn unified(s: Seq<char>) -> Seq<char> {
    s.map_values(|c: char| if c == '/' { '\\' } else { c })
}

fn unify(s: &str) -> (r: String)
    ensures
        r@ == unified(s@),
{
    let v = chars_of(s);
    let mut r = String::new();
    let mut i: usize = 0;
    while i < v.len()
        invariant
            v@ == s@,
            i <= v@.len(),
            r@ == unified(v@.take(i as int)),
        decreases v@.len() - i,
    {
        let c = v[i];
        r.push(if c == '/' { '\\' } else { c });
        i = i + 1;
        assert(r@ =~= unified(v@.take(i as int)));
    }
    assert(v@.take(v@.len() as int) =~= v@);
    r
}

/// A text with each run of separators written once.
pub open spec fn collapsed(s: Seq<char>, sep: char) -> Seq<char>
    decreases s.len(),
{
    if s.len() == 0 {
        s
    } else if s.len() > 1 && s.last() == sep && s[s.len() - 2] == sep {
        collapsed(s.drop_last(), sep)
    } else {
        collapsed(s.drop_last(), sep).push(s.last())
    }
}

/// Writes each run of separators once.
pub fn collapse(body: &Vec<char>, sep: char) -> (r: Vec<char>)
    ensures
        r@ == collapsed(body@, sep),
{
    let mut r: Vec<char> = Vec::new();
    let mut i: usize = 0;
    while i < body.len()
        invariant
            i <= body@.len(),
            r@ == collapsed(body@.take(i as int), sep),
        decreases body@.len() - i,
    {
        let c = body[i];
        assert(body@.take(i + 1).drop_last() =~= body@.take(i as int));
        if !(i > 0 && c == sep && body[i - 1] == sep) {
            r.push(c);
        }
        i = i + 1;
    }
    assert(body@.take(body@.len() as int) =~= body@);
    r
}

/// A text without the separators it ends with.
pub open spec fn without_trailing(s: Seq<char>, sep: char) -> Seq<char>
    decreases s.len(),
{
    if s.len() > 0 && s.last() == sep {
        without_trailing(s.drop_last(), sep)
    } else {
        s
    }
}

/// A text without the separators it begins with.
pub open spec fn without_leading(s: Seq<char>, sep: char) -> Seq<char>
    decreases s.len(),
{
    if s.len() > 0 && s[0] == sep {
        without_leading(s.drop_first(), sep)
    } else {
        s
    }
}

fn strip_trailing(v: &Vec<char>, sep: char) -> (r: Vec<char>)
    ensures
        r@ == without_trailing(v@, sep),
{
    let mut to: usize = v.len();
    assert(v@.take(v@.len() as int) =~= v@);
    while to > 0 && v[to - 1] == sep
        invariant
            to <= v@.len(),
            without_trailing(v@, sep) == without_trailing(v@.take(to as int), sep),
        decreases to,
    {
        assert(v@.take(to as int).drop_last() =~= v@.take(to - 1));
        to = to - 1;
    }
    assert(v@.subrange(0, to as int) =~= v@.take(to as int));
    slice_of(v, 0, to)
}

fn strip_leading(v: &Vec<char>, sep: char) -> (r: Vec<char>)
    ensures
        r@ == without_leading(v@, sep),
{
    let mut from: usize = 0;
    assert(v@.subrange(0, v@.len() as int) =~= v@);
    while from < v.len() && v[from] == sep
        invariant
            from <= v@.len(),
            without_leading(v@, sep) == without_leading(v@.subrange(from as int, v@.len() as int), sep),
        decreases v@.len() - from,
    {
        assert(v@.subrange(from as int, v@.len() as int).drop_first()
            =~= v@.subrange(from + 1, v@.len() as int));
        from = from + 1;
    }
    slice_of(v, from, v.len())
}

/// Where a character last stands in a text, or -1.
pub open spec fn last_index(s: Seq<char>, c: char) -> int
    decreases s.len(),
{
    if s.len() == 0 {
        -1
    } else if s.last() == c {
        s.len() - 1
    } else {
        last_index(s.drop_last(), c)
    }
}

/// The position after the last occurrence of `c` at or behind `from`; `from`
/// itself where it does not occur.
fn after_last(v: &Vec<char>, from: usize, c: char) -> (r: usize)
    requires
        from <= v@.len(),
    ensures
        r == from + last_index(v@.skip(from as int), c) + 1,
        from <= r <= v@.len(),
        r > from ==> v@[r - 1] == c,
{
    let mut r: usize = v.len();
    assert(v@.subrange(from as int, v@.len() as int) =~= v@.skip(from as int));
    while r > from && v[r - 1] != c
        invariant
            from <= r <= v@.len(),
            last_index(v@.skip(from as int), c) == last_index(v@.subrange(from as int, r as int), c),
        decreases r,
    {
        assert(v@.subrange(from as int, r as int).drop_last() =~= v@.subrange(from as int, r - 1));
        r = r - 1;
    }
    r
}

/// Whether a text begins with a drive letter, a colon and a separator.
pub open spec fn is_local_path(s: Seq<char>) -> bool {
    s.len() >= 3 && ('a' <= s[0] <= 'z' || 'A' <= s[0] <= 'Z') && s[1] == ':' && s[2] == '\\'
}

/// Whether a text begins with a drive letter, a colon and a separator.
pub fn is_absolute_local(p: &str) -> (r: bool)
    ensures
        r == is_local_path(p@),
{
    let v = chars_of(p);
    if v.len() < 3 {
        return false;
    }
    let c = v[0];
    (('a' <= c && c <= 'z') || ('A' <= c && c <= 'Z')) && v[1] == ':' && v[2] == '\\'
}

/// A path with a tag put before the extension of its last component, or behind
/// a last component that has none.
pub open spec fn tagged(path: Seq<char>, tag: Seq<char>, sep: char) -> Seq<char> {
    let dir_end = last_index(path, sep) + 1;
    let dot = last_index(path.skip(dir_end), '.');
    if dot >= 0 {
        path.take(dir_end + dot) + "."@ + tag + path.skip(dir_end + dot)
    } else {
        path + "."@ + tag
    }
}

/// Puts a tag before the extension of the last component of a path.
pub fn insert_tag(path: &str, tag: &str, sep: char) -> (r: String)
    ensures
        r@ == tagged(path@, tag@, sep),
{
    let v = chars_of(path);
    assert(v@.skip(0) =~= v@);
    let dir_end = after_last(&v, 0, sep);
    let after_dot = after_last(&v, dir_end, '.');
    let cut = if after_dot > dir_end { after_dot - 1 } else { v.len() };
    assert(v@.subrange(0, cut as int) =~= v@.take(cut as int));
    assert(v@.subrange(cut as int, v@.len() as int) =~= v@.skip(cut as int));
    let mut r = spelled(slice_of(&v, 0, cut).as_slice());
    r.append(".");
    r.append(tag);
    let rest = spelled(slice_of(&v, cut, v.len()).as_slice());
    r.append(rest.as_str());
    proof {
        if after_dot == dir_end {
            assert(v@.take(cut as int) =~= v@);
            assert(r@ =~= v@ + "."@ + tag@);
        }
    }
    r
}

/// A person's name with everything but ASCII letters and digits written `_`.
pub open spec fn plain_name(s: Seq<char>) -> Seq<char> {
    s.map_values(|c: char| if is_plain(c) { c } else { '_' })
}

pub open spec fn is_plain(c: char) -> bool {
    '0' <= c <= '9' || 'a' <= c <= 'z' || 'A' <= c <= 'Z'
}

fn plain(s: &str) -> (r: String)
    ensures
        r@ == plain_name(s@),
{
    let v = chars_of(s);
    let mut r = String::new();
    let mut i: usize = 0;
    while i < v.len()
        invariant
            v@ == s@,
            i <= v@.len(),
            r@ == plain_name(v@.take(i as int)),
        decreases v@.len() - i,
    {
        let c = v[i];
        let keep = ('0' <= c && c <= '9') || ('a' <= c && c <= 'z') || ('A' <= c && c <= 'Z');
        r.push(if keep { c } else { '_' });
        i = i + 1;
        assert(r@ =~= plain_name(v@.take(i as int)));
    }
    assert(v@.take(v@.len() as int) =~= v@);
    r
}

/// The outcome of a step that either gives a text or tells why it cannot.
pub open spec fn outcome(r: Result<String, String>) -> Result<Seq<char>, Seq<char>> {
    match r {
        Ok(s) => Ok(s@),
        Err(e) => Err(e@),
    }
}

/// The outcome of asking a mount table.
pub open spec fn lookup_view(r: Result<Option<String>, String>) -> Result<Option<Seq<char>>, Seq<char>> {
    match r {
        Ok(Some(s)) => Ok(Some(s@)),
        Ok(None) => Ok(None),
        Err(e) => Err(e@),
    }
}

/// The tag of the file that holds what a conflicting write submitted.
pub open spec fn conflict_tag(principal: Seq<char>, stamp: Seq<char>, id: Seq<char>) -> Seq<char> {
    "conflict-"@ + plain_name(principal) + "-"@ + stamp + "-"@ + id
}

/// The tag of a restored copy.
pub open spec fn restored_tag(stamp: Seq<char>, id: Seq<char>) -> Seq<char> {
    "restored-"@ + stamp + "-"@ + id
}

/// The eight digits by which two names made in one second differ.
pub open spec fn is_short_id(id: Seq<char>) -> bool {
    id.len() == 8 && forall|i: int| 0 <= i < 8 ==> crate::proto::is_lower_hex(#[trigger] id[i])
}

fn short_id() -> (r: String)
    ensures
        is_short_id(r@),
{
    let v = chars_of(random_id().as_str());
    spelled(slice_of(&v, 0, 8).as_slice())
}

/// The spelling rules of one kind of fileserver.
pub trait PathGrammar {
    /// The separator between components.
    spec fn sep_char(&self) -> char;

    /// The one spelling of a rooted path, or why it has none.
    spec fn normal_form(&self, raw: Seq<char>) -> Result<Seq<char>, Seq<char>>;

    /// What the mount table is asked for a path as a caller writes it, where it is
    /// asked at all.
    spec fn looked_up(&self, raw: Seq<char>) -> Option<Seq<char>>;

    /// The rooted form of a path as a caller writes it, given what the mount
    /// table answers for it where it is asked.
    spec fn rooted_form(&self, raw: Seq<char>, lookup: Result<Option<Seq<char>>, Seq<char>>) -> Result<Seq<char>, Seq<char>>;

    /// The files whose presence shows that a person has the path open.
    spec fn lock_texts(&self, path: Seq<char>) -> Seq<Seq<char>>;

    /// The separator between components.
    fn sep(&self) -> (c: char)
        ensures
            c == self.sep_char(),
    ;

    /// The one spelling of a rooted path.
    fn normalize(&self, raw: &str) -> (r: Result<String, String>)
        ensures
            outcome(r) == self.normal_form(raw@),
    ;

    /// The rooted form of a path as a caller writes it: by what the mount table
    /// answers where it has to be asked, and by the path alone where not.
    fn to_rooted<M: MountTable>(&self, raw: &str, mounts: &M) -> (r: Result<String, String>)
        ensures
            self.looked_up(raw@) is None ==> outcome(r) == self.rooted_form(raw@, Ok(None)),
            self.looked_up(raw@) matches Some(path) ==> exists|lookup: Result<Option<String>, String>|
                #[trigger] asked_for(*mounts, path, lookup) && outcome(r) == self.rooted_form(raw@, lookup_view(lookup)),
    ;

    /// The files whose presence shows that a person has the path open.
    fn human_lock_paths(&self, path: &CanonicalPath) -> (r: Vec<CanonicalPath>)
        ensures
            r@.map_values(|p: CanonicalPath| p@) == self.lock_texts(path@),
    ;
}

/// A name derived from a canonical path, in canonical spelling where it has one.
pub open spec fn derived_text<G: PathGrammar>(g: &G, raw: Seq<char>) -> Seq<char> {
    match g.normal_form(raw) {
        Ok(n) => n,
        Err(_) => raw,
    }
}

/// Spells a derived name canonically; one that has no such spelling is kept.
pub fn derived<G: PathGrammar>(g: &G, raw: String) -> (r: CanonicalPath)
    ensures
        r@ == derived_text(g, raw@),
{
    match g.normalize(raw.as_str()) {
        Ok(n) => CanonicalPath::new_unchecked(n),
        Err(_) => CanonicalPath::new_unchecked(raw),
    }
}

/// Where a conflicting write's contents go, made at `stamp` under `id`.
pub open spec fn sidecar_text<G: PathGrammar>(
    g: &G,
    path: Seq<char>,
    principal: Seq<char>,
    stamp: Seq<char>,
    id: Seq<char>,
) -> Seq<char> {
    derived_text(g, tagged(path, conflict_tag(principal, stamp, id), g.sep_char()))
}

/// Where a restored copy goes, made at `stamp` under `id`.
pub open spec fn restored_text<G: PathGrammar>(g: &G, path: Seq<char>, stamp: Seq<char>, id: Seq<char>) -> Seq<char> {
    derived_text(g, tagged(path, restored_tag(stamp, id), g.sep_char()))
}

/// Where a conflicting write's contents go, made at `stamp` under `id`.
pub fn sidecar_path_at<G: PathGrammar>(
    g: &G,
    path: &CanonicalPath,
    principal: &Principal,
    stamp: &str,
    id: &str,
) -> (r: CanonicalPath)
    ensures
        r@ == sidecar_text(g, path@, principal@, stamp@, id@),
{
    let mut tag = own("conflict-");
    tag.append(plain(principal.as_str()).as_str());
    tag.append("-");
    tag.append(stamp);
    tag.append("-");
    tag.append(id);
    derived(g, insert_tag(path.as_str(), tag.as_str(), g.sep()))
}

/// Where a restored copy goes, made at `stamp` under `id`.
pub fn restored_path_at<G: PathGrammar>(g: &G, path: &CanonicalPath, stamp: &str, id: &str) -> (r: CanonicalPath)
    ensures
        r@ == restored_text(g, path@, stamp@, id@),
{
    let mut tag = own("restored-");
    tag.append(stamp);
    tag.append("-");
    tag.append(id);
    derived(g, insert_tag(path.as_str(), tag.as_str(), g.sep()))
}

/// A fresh name for what a conflicting write submitted: stamped with the time,
/// and told apart from others of the same second by a random tag.
pub fn sidecar_path<G: PathGrammar>(g: &G, path: &CanonicalPath, principal: &Principal) -> (r: CanonicalPath)
    ensures
        exists|stamp: Seq<char>, id: Seq<char>|
            is_stamp(stamp) && is_short_id(id) && r@ == #[trigger] sidecar_text(g, path@, principal@, stamp, id),
{
    let stamp = stamp_now();
    let id = short_id();
    sidecar_path_at(g, path, principal, stamp.as_str(), id.as_str())
}

/// A fresh name for a restored copy.
pub fn restored_path<G: PathGrammar>(g: &G, path: &CanonicalPath) -> (r: CanonicalPath)
    ensures
        exists|stamp: Seq<char>, id: Seq<char>|
            is_stamp(stamp) && is_short_id(id) && r@ == #[trigger] restored_text(g, path@, stamp, id),
{
    let stamp = stamp_now();
    let id = short_id();
    restored_path_at(g, path, stamp.as_str(), id.as_str())
}

/// The path of an entry of a directory.
pub open spec fn child_text(dir: Seq<char>, name: Seq<char>, sep: char) -> Seq<char> {
    without_trailing(dir, sep).push(sep) + name
}

/// The path of an entry of a directory.
pub fn join<G: PathGrammar>(g: &G, dir: &str, name: &str) -> (r: String)
    ensures
        r@ == child_text(dir@, name@, g.sep_char()),
{
    let sep = g.sep();
    let d = strip_trailing(&chars_of(dir), sep);
    let mut r = spelled(d.as_slice());
    r.push(sep);
    r.append(name);
    r
}

/// Paths of Windows shares: `\`-separated, and the same whatever their case.
pub struct WinGrammar;

pub open spec fn win_folded(raw: Seq<char>) -> Seq<char> {
    lowercase_text(nfc_text(unified(raw)))
}

pub open spec fn no_body() -> Seq<char> {
    "path has no body after normalisation"@
}

/// Two separators, by which a UNC path begins.
pub open spec fn unc_prefix() -> Seq<char> {
    seq!['\\', '\\']
}

/// What is behind the two separators of a UNC path, or the whole path.
pub open spec fn win_inner(folded: Seq<char>) -> Seq<char> {
    if begins_with(folded, unc_prefix()) {
        without_leading(folded.skip(2), '\\')
    } else {
        folded
    }
}

/// The one spelling of a path whose separators, characters and case are the ones
/// of a canonical path already.
pub open spec fn win_spelled(folded: Seq<char>) -> Result<Seq<char>, Seq<char>> {
    let unc = begins_with(folded, unc_prefix());
    let body = without_trailing(collapsed(win_inner(folded), '\\'), '\\');
    if body.len() == 0 {
        Err(no_body())
    } else if unc {
        Ok(unc_prefix() + body)
    } else {
        Ok(body)
    }
}

pub open spec fn win_normal(raw: Seq<char>) -> Result<Seq<char>, Seq<char>> {
    win_spelled(win_folded(raw))
}

pub open spec fn not_absolute(raw: Seq<char>) -> Seq<char> {
    quoted_text(raw)
        + " is not an absolute path — give a UNC path (\\\\server\\share\\…) or a full path on a mapped drive (Z:\\…)"@
}

pub open spec fn unresolvable(raw: Seq<char>, why: Seq<char>) -> Seq<char> {
    "cannot resolve "@ + quoted_text(raw) + " to a share: "@ + why
        + " — coordination state is keyed by the share path, so an unresolvable drive mapping is not safe to use"@
}

pub open spec fn win_rooted(raw: Seq<char>, lookup: Result<Option<Seq<char>>, Seq<char>>) -> Result<Seq<char>, Seq<char>> {
    let u = unified(raw);
    if begins_with(u, unc_prefix()) {
        Ok(u)
    } else if !is_local_path(u) {
        Err(not_absolute(raw))
    } else {
        match lookup {
            Ok(Some(unc)) => Ok(unc),
            Ok(None) => Ok(u),
            Err(why) => Err(unresolvable(raw, why)),
        }
    }
}

/// What the mount table is asked for a path: a local one, with its separators
/// written one way.
pub open spec fn win_looked_up(raw: Seq<char>) -> Option<Seq<char>> {
    let u = unified(raw);
    if !begins_with(u, unc_prefix()) && is_local_path(u) {
        Some(u)
    } else {
        None
    }
}

/// The owner files of Office: `~$` and the name, or `~$` and the name without
/// its first two characters.
pub open spec fn office_locks(path: Seq<char>) -> Seq<Seq<char>> {
    let cut = last_index(path, '\\') + 1;
    let dir = path.take(cut);
    let name = path.skip(cut);
    if name.len() > 2 {
        seq![dir + "~$"@ + name, dir + "~$"@ + name.skip(2)]
    } else {
        seq![dir + "~$"@ + name]
    }
}

/// Whether a text begins with two Windows separators.
fn is_unc(s: &Vec<char>) -> (r: bool)
    ensures
        r == begins_with(s@, unc_prefix()),
{
    let r = s.len() >= 2 && s[0] == '\\' && s[1] == '\\';
    proof {
        if s@.len() >= 2 {
            assert(s@.take(2)[0] == s@[0] && s@.take(2)[1] == s@[1]);
            if r {
                assert(s@.take(2) =~= unc_prefix());
            }
        }
    }
    r
}

/// The one spelling of a path whose separators, characters and case are the ones
/// of a canonical path already: runs of separators written once, but for the two
/// that a UNC path begins with, and none at the end.
pub fn win_spell(folded: &str) -> (r: Result<String, String>)
    ensures
        outcome(r) == win_spelled(folded@),
{
    let text = chars_of(folded);
    let unc = is_unc(&text);
    let body = if unc { strip_leading(&slice_of(&text, 2, text.len()), '\\') } else { text };
    proof {
        let f = folded@;
        if unc {
            assert(f.subrange(2, f.len() as int) =~= f.skip(2));
        }
    }
    let kept = strip_trailing(&collapse(&body, '\\'), '\\');
    if kept.len() == 0 {
        return Err(own("path has no body after normalisation"));
    }
    let mut r = String::new();
    if unc {
        r.push('\\');
        r.push('\\');
    }
    r.append(spelled(kept.as_slice()).as_str());
    proof {
        if unc {
            assert(r@ =~= unc_prefix() + kept@);
        } else {
            assert(r@ =~= kept@);
        }
    }
    Ok(r)
}

/// What a mount table's answer makes of a path that has to be looked up.
pub fn rooted_by(raw: &str, unified_raw: String, lookup: Result<Option<String>, String>) -> (r: Result<String, String>)
    requires
        unified_raw@ == unified(raw@),
        !begins_with(unified(raw@), unc_prefix()),
        is_local_path(unified(raw@)),
    ensures
        outcome(r) == win_rooted(raw@, lookup_view(lookup)),
{
    match lookup {
        Ok(Some(unc)) => Ok(unc),
        Ok(None) => Ok(unified_raw),
        Err(why) => {
            let mut e = own("cannot resolve ");
            e.append(quoted(raw).as_str());
            e.append(" to a share: ");
            e.append(why.as_str());
            e.append(" — coordination state is keyed by the share path, so an unresolvable drive mapping is not safe to use");
            Err(e)
        },
    }
}

impl PathGrammar for WinGrammar {
    open spec fn sep_char(&self) -> char {
        '\\'
    }

    open spec fn normal_form(&self, raw: Seq<char>) -> Result<Seq<char>, Seq<char>> {
        win_normal(raw)
    }

    open spec fn looked_up(&self, raw: Seq<char>) -> Option<Seq<char>> {
        win_looked_up(raw)
    }

    open spec fn rooted_form(&self, raw: Seq<char>, lookup: Result<Option<Seq<char>>, Seq<char>>) -> Result<Seq<char>, Seq<char>> {
        win_rooted(raw, lookup)
    }

    open spec fn lock_texts(&self, path: Seq<char>) -> Seq<Seq<char>> {
        office_locks(path)
    }

    fn sep(&self) -> (c: char) {
        '\\'
    }

    fn normalize(&self, raw: &str) -> (r: Result<String, String>) {
        win_spell(lowercase(nfc(unify(raw).as_str()).as_str()).as_str())
    }

    fn to_rooted<M: MountTable>(&self, raw: &str, mounts: &M) -> (r: Result<String, String>) {
        let u = unify(raw);
        if is_unc(&chars_of(u.as_str())) {
            return Ok(u);
        }
        if !is_absolute_local(u.as_str()) {
            let mut e = quoted(raw);
            e.append(" is not an absolute path — give a UNC path (\\\\server\\share\\…) or a full path on a mapped drive (Z:\\…)");
            return Err(e);
        }
        let lookup = mounts.universal_name(u.as_str());
        let ghost answer = lookup;
        let r = rooted_by(raw, u, lookup);
        assert(asked_for(*mounts, self.looked_up(raw@)->0, answer));
        assert(outcome(r) == self.rooted_form(raw@, lookup_view(answer)));
        r
    }

    fn human_lock_paths(&self, path: &CanonicalPath) -> (r: Vec<CanonicalPath>) {
        let v = chars_of(path.as_str());
        assert(v@.skip(0) =~= v@);
        let cut = after_last(&v, 0, '\\');
        let mut head = spelled(slice_of(&v, 0, cut).as_slice());
        head.append("~$");
        let mut whole = head.clone();
        whole.append(spelled(slice_of(&v, cut, v.len()).as_slice()).as_str());
        proof {
            assert(v@.subrange(0, cut as int) =~= v@.take(cut as int));
            assert(v@.subrange(cut as int, v@.len() as int) =~= v@.skip(cut as int));
        }
        let mut r: Vec<CanonicalPath> = Vec::new();
        r.push(CanonicalPath::new_unchecked(whole));
        if v.len() - cut > 2 {
            head.append(spelled(slice_of(&v, cut + 2, v.len()).as_slice()).as_str());
            assert(v@.subrange(cut + 2, v@.len() as int) =~= v@.skip(cut as int).skip(2));
            r.push(CanonicalPath::new_unchecked(head));
        }
        assert(r@.map_values(|p: CanonicalPath| p@) =~= office_locks(path@));
        r
    }
}

/// Paths of POSIX file systems: `/`-separated, and different where their case is.
pub struct PosixGrammar;

/// The one spelling of a path whose characters are composed already.
pub open spec fn posix_spelled(n: Seq<char>) -> Result<Seq<char>, Seq<char>> {
    let absolute = n.len() > 0 && n[0] == '/';
    let body = without_trailing(collapsed(without_leading(n, '/'), '/'), '/');
    if body.len() == 0 {
        if absolute {
            Ok(seq!['/'])
        } else {
            Err(no_body())
        }
    } else if absolute {
        Ok(seq!['/'] + body)
    } else {
        Ok(body)
    }
}

pub open spec fn posix_normal(raw: Seq<char>) -> Result<Seq<char>, Seq<char>> {
    posix_spelled(nfc_text(raw))
}

/// The one spelling of a path whose characters are composed already: runs of
/// separators written once, and none at the end but that of the root.
pub fn posix_spell(composed: &str) -> (r: Result<String, String>)
    ensures
        outcome(r) == posix_spelled(composed@),
{
    let n = chars_of(composed);
    let absolute = n.len() > 0 && n[0] == '/';
    let kept = strip_trailing(&collapse(&strip_leading(&n, '/'), '/'), '/');
    let mut r = String::new();
    if absolute {
        r.push('/');
    }
    if kept.len() == 0 {
        if !absolute {
            return Err(own("path has no body after normalisation"));
        }
        assert(r@ =~= seq!['/']);
        return Ok(r);
    }
    r.append(spelled(kept.as_slice()).as_str());
    proof {
        if absolute {
            assert(r@ =~= seq!['/'] + kept@);
        } else {
            assert(r@ =~= kept@);
        }
    }
    Ok(r)
}

impl PathGrammar for PosixGrammar {
    open spec fn sep_char(&self) -> char {
        '/'
    }

    open spec fn normal_form(&self, raw: Seq<char>) -> Result<Seq<char>, Seq<char>> {
        posix_normal(raw)
    }

    open spec fn looked_up(&self, raw: Seq<char>) -> Option<Seq<char>> {
        None
    }

    open spec fn rooted_form(&self, raw: Seq<char>, lookup: Result<Option<Seq<char>>, Seq<char>>) -> Result<Seq<char>, Seq<char>> {
        Ok(raw)
    }

    open spec fn lock_texts(&self, path: Seq<char>) -> Seq<Seq<char>> {
        Seq::empty()
    }

    fn sep(&self) -> (c: char) {
        '/'
    }

    fn normalize(&self, raw: &str) -> (r: Result<String, String>) {
        posix_spell(nfc(raw).as_str())
    }

    fn to_rooted<M: MountTable>(&self, raw: &str, _mounts: &M) -> (r: Result<String, String>) {
        Ok(own(raw))
    }

    fn human_lock_paths(&self, _path: &CanonicalPath) -> (r: Vec<CanonicalPath>) {
        let r: Vec<CanonicalPath> = Vec::new();
        assert(r@.map_values(|p: CanonicalPath| p@) =~= Seq::<Seq<char>>::empty());
        r
    }
}

/// The grammar of a kind of fileserver.
pub enum Grammar {
    /// That of Windows shares.
    Win(WinGrammar),
    /// That of POSIX file systems.
    Posix(PosixGrammar),
}

impl PathGrammar for Grammar {
    open spec fn sep_char(&self) -> char {
        match self {
            Grammar::Win(g) => g.sep_char(),
            Grammar::Posix(g) => g.sep_char(),
        }
    }

    open spec fn normal_form(&self, raw: Seq<char>) -> Result<Seq<char>, Seq<char>> {
        match self {
            Grammar::Win(g) => g.normal_form(raw),
            Grammar::Posix(g) => g.normal_form(raw),
        }
    }

    open spec fn looked_up(&self, raw: Seq<char>) -> Option<Seq<char>> {
        match self {
            Grammar::Win(g) => g.looked_up(raw),
            Grammar::Posix(g) => g.looked_up(raw),
        }
    }

    open spec fn rooted_form(&self, raw: Seq<char>, lookup: Result<Option<Seq<char>>, Seq<char>>) -> Result<Seq<char>, Seq<char>> {
        match self {
            Grammar::Win(g) => g.rooted_form(raw, lookup),
            Grammar::Posix(g) => g.rooted_form(raw, lookup),
        }
    }

    open spec fn lock_texts(&self, path: Seq<char>) -> Seq<Seq<char>> {
        match self {
            Grammar::Win(g) => g.lock_texts(path),
            Grammar::Posix(g) => g.lock_texts(path),
        }
    }

    fn sep(&self) -> (c: char) {
        match self {
            Grammar::Win(g) => g.sep(),
            Grammar::Posix(g) => g.sep(),
        }
    }

    fn normalize(&self, raw: &str) -> (r: Result<String, String>) {
        match self {
            Grammar::Win(g) => g.normalize(raw),
            Grammar::Posix(g) => g.normalize(raw),
        }
    }

    fn to_rooted<M: MountTable>(&self, raw: &str, mounts: &M) -> (r: Result<String, String>) {
        match self {
            Grammar::Win(g) => g.to_rooted(raw, mounts),
            Grammar::Posix(g) => g.to_rooted(raw, mounts),
        }
    }

    fn human_lock_paths(&self, path: &CanonicalPath) -> (r: Vec<CanonicalPath>) {
        match self {
            Grammar::Win(g) => g.human_lock_paths(path),
            Grammar::Posix(g) => g.human_lock_paths(path),
        }
    }
}

/// The grammar that goes with a kind of fileserver.
pub open spec fn grammar_of(kind: BackendKind) -> Grammar {
    match kind {
        BackendKind::Smb => Grammar::Win(WinGrammar),
        BackendKind::Posix => Grammar::Posix(PosixGrammar),
    }
}

/// The grammar that goes with a kind of fileserver.
pub fn grammar_for(kind: BackendKind) -> (r: Grammar)
    ensures
        r == grammar_of(kind),
{
    match kind {
        BackendKind::Smb => Grammar::Win(WinGrammar),
        BackendKind::Posix => Grammar::Posix(PosixGrammar),
    }
}

/// Whether a separator nowhere follows another.
pub open spec fn single_separated(s: Seq<char>, sep: char) -> bool {
    forall|i: int| 0 <= i < s.len() - 1 ==> !(#[trigger] s[i] == sep && s[i + 1] == sep)
}

proof fn collapsed_is_single(s: Seq<char>, sep: char)
    ensures
        single_separated(collapsed(s, sep), sep),
        (s.len() > 0) == (collapsed(s, sep).len() > 0),
        s.len() > 0 ==> collapsed(s, sep).last() == s.last(),
        s.len() > 0 ==> collapsed(s, sep)[0] == s[0],
    decreases s.len(),
{
    if s.len() > 0 {
        let d = s.drop_last();
        let c = collapsed(d, sep);
        collapsed_is_single(d, sep);
        if !(s.len() > 1 && s.last() == sep && s[s.len() - 2] == sep) {
            let r = c.push(s.last());
            assert forall|i: int| 0 <= i < r.len() - 1 implies !(#[trigger] r[i] == sep && r[i + 1] == sep) by {
                if i == c.len() - 1 {
                    assert(d.last() == s[s.len() - 2]);
                } else {
                    assert(r[i] == c[i] && r[i + 1] == c[i + 1]);
                }
            }
        }
    }
}

proof fn single_is_collapsed(s: Seq<char>, sep: char)
    requires
        single_separated(s, sep),
    ensures
        collapsed(s, sep) == s,
    decreases s.len(),
{
    if s.len() > 0 {
        let d = s.drop_last();
        assert(single_separated(d, sep)) by {
            assert forall|i: int| 0 <= i < d.len() - 1 implies !(#[trigger] d[i] == sep && d[i + 1] == sep) by {
                assert(d[i] == s[i] && d[i + 1] == s[i + 1]);
            }
        }
        single_is_collapsed(d, sep);
        if s.len() > 1 {
            assert(!(s[s.len() - 2] == sep && s[s.len() - 2 + 1] == sep));
        }
        assert(d.push(s.last()) =~= s);
    }
}

proof fn without_trailing_facts(s: Seq<char>, sep: char)
    ensures
        ({
            let t = without_trailing(s, sep);
            &&& t.len() <= s.len()
            &&& t == s.take(t.len() as int)
            &&& t.len() > 0 ==> t.last() != sep
        }),
    decreases s.len(),
{
    if s.len() > 0 && s.last() == sep {
        without_trailing_facts(s.drop_last(), sep);
        let t = without_trailing(s, sep);
        assert(s.take(t.len() as int) =~= s.drop_last().take(t.len() as int));
    } else {
        assert(s.take(s.len() as int) =~= s);
    }
}

proof fn without_leading_facts(s: Seq<char>, sep: char)
    ensures
        without_leading(s, sep).len() > 0 ==> without_leading(s, sep)[0] != sep,
    decreases s.len(),
{
    if s.len() > 0 && s[0] == sep {
        without_leading_facts(s.drop_first(), sep);
    }
}

/// What a body is like once runs of separators are written once and those at the
/// end are gone.
proof fn body_facts(s: Seq<char>, sep: char)
    ensures
        ({
            let b = without_trailing(collapsed(s, sep), sep);
            &&& single_separated(b, sep)
            &&& b.len() > 0 ==> b.last() != sep
            &&& b.len() > 0 ==> s.len() > 0 && b[0] == s[0]
            &&& without_trailing(collapsed(b, sep), sep) == b
        }),
{
    let c = collapsed(s, sep);
    let b = without_trailing(c, sep);
    collapsed_is_single(s, sep);
    without_trailing_facts(c, sep);
    assert forall|i: int| 0 <= i < b.len() - 1 implies !(#[trigger] b[i] == sep && b[i + 1] == sep) by {
        assert(b[i] == c[i] && b[i + 1] == c[i + 1]);
    }
    if b.len() > 0 {
        assert(b[0] == c[0]);
    }
    single_is_collapsed(b, sep);
}

/// A canonical Windows path is not empty, does not end in a separator, and has
/// no two separators in a row but the two that a UNC path begins with.
pub proof fn win_form_is_clean(raw: Seq<char>, n: Seq<char>)
    requires
        win_normal(raw) == Ok::<Seq<char>, Seq<char>>(n),
    ensures
        n.len() > 0,
        n.last() != '\\',
        begins_with(n, unc_prefix()) ==> n.len() > 2 && n[2] != '\\' && single_separated(n.skip(2), '\\'),
        !begins_with(n, unc_prefix()) ==> single_separated(n, '\\'),
{
    let folded = win_folded(raw);
    let unc = begins_with(folded, unc_prefix());
    let inner = win_inner(folded);
    let body = without_trailing(collapsed(inner, '\\'), '\\');
    body_facts(inner, '\\');
    if unc {
        without_leading_facts(folded.skip(2), '\\');
        assert(n.take(2) =~= unc_prefix());
        assert(n.skip(2) =~= body);
        assert(n[2] == body[0]);
        assert(n.last() == body.last());
    } else if begins_with(n, unc_prefix()) {
        assert(n.take(2)[0] == n[0] && n.take(2)[1] == n[1]);
        assert(!(body[0] == '\\' && body[1] == '\\'));
    }
}

/// Canonicalising a canonical Windows path changes nothing, as long as folding
/// its case and composing its characters again changes nothing.
pub proof fn win_form_is_stable(raw: Seq<char>, n: Seq<char>)
    requires
        win_normal(raw) == Ok::<Seq<char>, Seq<char>>(n),
        win_folded(n) == n,
    ensures
        win_normal(n) == Ok::<Seq<char>, Seq<char>>(n),
{
    let folded = win_folded(raw);
    let unc = begins_with(folded, unc_prefix());
    let inner = win_inner(folded);
    let body = without_trailing(collapsed(inner, '\\'), '\\');
    body_facts(inner, '\\');
    win_form_is_clean(raw, n);
    if unc {
        assert(n.take(2) =~= unc_prefix());
        assert(n.skip(2) =~= body);
        assert(n[2] == body[0]);
        assert(without_leading(n.skip(2), '\\') == body);
        assert(unc_prefix() + body =~= n);
    } else {
        if begins_with(n, unc_prefix()) {
            assert(n.take(2)[0] == n[0] && n.take(2)[1] == n[1]);
            assert(!(body[0] == '\\' && body[1] == '\\'));
        }
    }
}

/// A canonical POSIX path is `/` alone, or does not end in a separator and has
/// no two in a row.
pub proof fn posix_form_is_clean(raw: Seq<char>, n: Seq<char>)
    requires
        posix_normal(raw) == Ok::<Seq<char>, Seq<char>>(n),
    ensures
        n.len() > 0,
        n == seq!['/'] || n.last() != '/',
        single_separated(n, '/'),
{
    let inner = without_leading(nfc_text(raw), '/');
    let body = without_trailing(collapsed(inner, '/'), '/');
    body_facts(inner, '/');
    without_leading_facts(nfc_text(raw), '/');
    if n != body && body.len() > 0 {
        assert(n =~= seq!['/'] + body);
        assert(n.last() == body.last());
        assert forall|i: int| 0 <= i < n.len() - 1 implies !(#[trigger] n[i] == '/' && n[i + 1] == '/') by {
            if i == 0 {
                assert(n[1] == body[0]);
            } else {
                assert(n[i] == body[i - 1] && n[i + 1] == body[i - 1 + 1]);
            }
        }
    }
}

/// Canonicalising a canonical POSIX path changes nothing, as long as composing
/// its characters again changes nothing.
pub proof fn posix_form_is_stable(raw: Seq<char>, n: Seq<char>)
    requires
        posix_normal(raw) == Ok::<Seq<char>, Seq<char>>(n),
        nfc_text(n) == n,
    ensures
        posix_normal(n) == Ok::<Seq<char>, Seq<char>>(n),
{
    let x = nfc_text(raw);
    let inner = without_leading(x, '/');
    let body = without_trailing(collapsed(inner, '/'), '/');
    body_facts(inner, '/');
    without_leading_facts(x, '/');
    if x.len() > 0 && x[0] == '/' {
        if body.len() == 0 {
            assert(n =~= seq!['/']);
            assert(n.drop_first() =~= Seq::<char>::empty());
            reveal_with_fuel(without_leading, 2);
            assert(without_leading(n, '/') =~= Seq::<char>::empty());
        } else {
            assert(n =~= seq!['/'] + body);
            assert(n.drop_first() =~= body);
            assert(without_leading(body, '/') == body);
            assert(without_leading(n, '/') == body);
        }
    } else {
        assert(inner == x);
        assert(n == body);
        assert(body[0] == x[0]);
        assert(without_leading(n, '/') == n);
    }
}

/// Which drive letter a share is mapped to makes no difference: two local paths
/// that the mount table resolves to the same share path are the same path.
pub proof fn drive_letters_do_not_matter(a: Seq<char>, b: Seq<char>, unc: Seq<char>)
    requires
        !begins_with(unified(a), unc_prefix()),
        is_local_path(unified(a)),
        !begins_with(unified(b), unc_prefix()),
        is_local_path(unified(b)),
    ensures
        win_rooted(a, Ok(Some(unc))) == win_rooted(b, Ok(Some(unc))),
{
}

/// A share path is the same path whichever separators it is written with.
pub proof fn separators_do_not_matter(a: Seq<char>, b: Seq<char>)
    requires
        unified(a) == unified(b),
    ensures
        win_normal(a) == win_normal(b),
{
}

/// A tagged name stays in its directory, keeps what it began with, and is longer
/// than the name it was made from, so that it is never that name.
pub proof fn tagged_is_another_name_beside(path: Seq<char>, tag: Seq<char>, sep: char)
    ensures
        tagged(path, tag, sep).len() == path.len() + 1 + tag.len(),
        tagged(path, tag, sep) != path,
        ({
            let dir_end = last_index(path, sep) + 1;
            0 <= dir_end <= path.len() && tagged(path, tag, sep).take(dir_end) == path.take(dir_end)
        }),
{
    reveal_strlit(".");
    last_index_bounds(path, sep);
    let dir_end = last_index(path, sep) + 1;
    last_index_bounds(path.skip(dir_end), '.');
    let dot = last_index(path.skip(dir_end), '.');
    let t = tagged(path, tag, sep);
    if dot >= 0 {
        assert(t.take(dir_end) =~= path.take(dir_end));
    } else {
        assert(t.take(dir_end) =~= path.take(dir_end));
    }
}

proof fn last_index_bounds(s: Seq<char>, c: char)
    ensures
        -1 <= last_index(s, c) < s.len(),
    decreases s.len(),
{
    if s.len() > 0 && s.last() != c {
        last_index_bounds(s.drop_last(), c);
    }
}

/// The names in a path: what stands between its separators, from left to right.
pub open spec fn components(s: Seq<char>, sep: char) -> Seq<Seq<char>>
    decreases s.len(),
{
    if s.len() == 0 {
        Seq::empty()
    } else {
        let before = components(s.drop_last(), sep);
        if s.last() == sep {
            before
        } else if s.len() == 1 || s[s.len() - 2] == sep {
            before.push(seq![s.last()])
        } else {
            before.drop_last().push(before.last().push(s.last()))
        }
    }
}

proof fn collapsing_keeps_names(s: Seq<char>, sep: char)
    ensures
        components(collapsed(s, sep), sep) == components(s, sep),
    decreases s.len(),
{
    if s.len() > 0 {
        let d = s.drop_last();
        let c = collapsed(d, sep);
        collapsing_keeps_names(d, sep);
        collapsed_is_single(d, sep);
        if !(s.len() > 1 && s.last() == sep && s[s.len() - 2] == sep) {
            let r = c.push(s.last());
            assert(r.drop_last() =~= c);
            if s.len() > 1 {
                assert(d.last() == s[s.len() - 2]);
                assert(c.last() == r[r.len() - 2]);
            }
        }
    }
}

proof fn trailing_separators_name_nothing(s: Seq<char>, sep: char)
    ensures
        components(without_trailing(s, sep), sep) == components(s, sep),
    decreases s.len(),
{
    if s.len() > 0 && s.last() == sep {
        trailing_separators_name_nothing(s.drop_last(), sep);
    }
}

proof fn a_separator_in_front_names_nothing(s: Seq<char>, sep: char)
    ensures
        components(seq![sep] + s, sep) == components(s, sep),
    decreases s.len(),
{
    let t = seq![sep] + s;
    if s.len() == 0 {
        assert(t.drop_last() =~= s);
        assert(components(s, sep) == Seq::<Seq<char>>::empty());
    } else {
        a_separator_in_front_names_nothing(s.drop_last(), sep);
        assert(t.drop_last() =~= seq![sep] + s.drop_last());
        assert(t.last() == s.last());
        assert(t[t.len() - 2] == if s.len() == 1 { sep } else { s[s.len() - 2] });
    }
}

proof fn leading_separators_name_nothing(s: Seq<char>, sep: char)
    ensures
        components(without_leading(s, sep), sep) == components(s, sep),
    decreases s.len(),
{
    if s.len() > 0 && s[0] == sep {
        leading_separators_name_nothing(s.drop_first(), sep);
        a_separator_in_front_names_nothing(s.drop_first(), sep);
        assert(seq![sep] + s.drop_first() =~= s);
    }
}

proof fn two_separators_name_nothing(s: Seq<char>, sep: char)
    requires
        s.len() >= 2,
        s[0] == sep,
        s[1] == sep,
    ensures
        components(s.skip(2), sep) == components(s, sep),
{
    a_separator_in_front_names_nothing(s.skip(2), sep);
    a_separator_in_front_names_nothing(s.skip(1), sep);
    assert(seq![sep] + s.skip(2) =~= s.skip(1));
    assert(seq![sep] + s.skip(1) =~= s);
}

/// Both separators are one to Windows, and nothing else in a path is touched by
/// that: what is handed on for spelling has a `\` wherever the path had a
/// separator, and the path's own character everywhere else.
pub proof fn only_separators_are_unified(raw: Seq<char>, i: int)
    requires
        0 <= i < raw.len(),
    ensures
        unified(raw).len() == raw.len(),
        raw[i] == '/' ==> unified(raw)[i] == '\\',
        raw[i] != '/' ==> unified(raw)[i] == raw[i],
{
}

/// A canonical Windows path has the names of the path it was made from, in their
/// order, each with its characters composed and in lower case: nothing is lost,
/// added or renamed. And it names a share where that path does.
pub proof fn win_form_keeps_the_names(raw: Seq<char>, backslashed: Seq<char>, n: Seq<char>)
    requires
        backslashed.len() == raw.len(),
        forall|i: int| 0 <= i < raw.len() ==> #[trigger] backslashed[i] == (if raw[i] == '/' { '\\' } else { raw[i] }),
        WinGrammar.normal_form(raw) == Ok::<Seq<char>, Seq<char>>(n),
    ensures
        components(n, '\\') == components(lowercase_text(nfc_text(backslashed)), '\\'),
        (n.len() >= 2 && n[0] == '\\' && n[1] == '\\') <==> ({
            let folded = lowercase_text(nfc_text(backslashed));
            folded.len() >= 2 && folded[0] == '\\' && folded[1] == '\\'
        }),
{
    assert(unified(raw) =~= backslashed);
    let folded = win_folded(raw);
    let inner = win_inner(folded);
    let body = without_trailing(collapsed(inner, '\\'), '\\');
    trailing_separators_name_nothing(collapsed(inner, '\\'), '\\');
    collapsing_keeps_names(inner, '\\');
    body_facts(inner, '\\');
    if folded.len() >= 2 {
        assert(folded.take(2)[0] == folded[0] && folded.take(2)[1] == folded[1]);
        if folded[0] == '\\' && folded[1] == '\\' {
            assert(folded.take(2) =~= unc_prefix());
        }
    }
    if begins_with(folded, unc_prefix()) {
        leading_separators_name_nothing(folded.skip(2), '\\');
        two_separators_name_nothing(folded, '\\');
        assert(n =~= unc_prefix() + body);
        assert(n.skip(2) =~= body);
        two_separators_name_nothing(n, '\\');
    } else if n.len() >= 2 && n[0] == '\\' && n[1] == '\\' {
        assert(!(body[0] == '\\' && body[1] == '\\'));
    }
}

/// Two Windows paths are one key only where they have the same names, up to case
/// and the composition of characters.
pub proof fn one_win_key_means_the_same_names(a: Seq<char>, b: Seq<char>, a_slashed: Seq<char>, b_slashed: Seq<char>, n: Seq<char>)
    requires
        a_slashed.len() == a.len(),
        forall|i: int| 0 <= i < a.len() ==> #[trigger] a_slashed[i] == (if a[i] == '/' { '\\' } else { a[i] }),
        b_slashed.len() == b.len(),
        forall|i: int| 0 <= i < b.len() ==> #[trigger] b_slashed[i] == (if b[i] == '/' { '\\' } else { b[i] }),
        WinGrammar.normal_form(a) == Ok::<Seq<char>, Seq<char>>(n),
        WinGrammar.normal_form(b) == Ok::<Seq<char>, Seq<char>>(n),
    ensures
        components(lowercase_text(nfc_text(a_slashed)), '\\') == components(lowercase_text(nfc_text(b_slashed)), '\\'),
{
    win_form_keeps_the_names(a, a_slashed, n);
    win_form_keeps_the_names(b, b_slashed, n);
}

/// A share path that is in lower case, composed, with single backslashes and none
/// at the end is spelled canonically already.
pub proof fn a_clean_win_path_is_its_own_form(p: Seq<char>)
    requires
        p.len() > 2,
        p[0] == '\\',
        p[1] == '\\',
        p[2] != '\\',
        p.last() != '\\',
        forall|i: int| 0 <= i < p.len() ==> p[i] != '/',
        forall|i: int| 2 <= i < p.len() - 1 ==> !(#[trigger] p[i] == '\\' && p[i + 1] == '\\'),
        nfc_text(p) == p,
        lowercase_text(p) == p,
    ensures
        WinGrammar.normal_form(p) == Ok::<Seq<char>, Seq<char>>(p),
{
    assert(unified(p) =~= p);
    let body = p.skip(2);
    assert(p.take(2) =~= unc_prefix());
    assert(without_leading(body, '\\') == body);
    assert forall|i: int| 0 <= i < body.len() - 1 implies !(#[trigger] body[i] == '\\' && body[i + 1] == '\\') by {
        assert(body[i] == p[i + 2] && body[i + 1] == p[i + 2 + 1]);
    }
    single_is_collapsed(body, '\\');
    assert(body.last() == p.last());
    assert(without_trailing(body, '\\') == body);
    assert(unc_prefix() + body =~= p);
}

/// A path on a drive that is in lower case, composed, with single backslashes and
/// none at the end is spelled canonically already.
pub proof fn a_clean_local_path_is_its_own_form(p: Seq<char>)
    requires
        p.len() > 0,
        p[0] != '\\',
        p.last() != '\\',
        forall|i: int| 0 <= i < p.len() ==> p[i] != '/',
        forall|i: int| 0 <= i < p.len() - 1 ==> !(#[trigger] p[i] == '\\' && p[i + 1] == '\\'),
        nfc_text(p) == p,
        lowercase_text(p) == p,
    ensures
        WinGrammar.normal_form(p) == Ok::<Seq<char>, Seq<char>>(p),
{
    assert(unified(p) =~= p);
    if p.len() >= 2 {
        assert(p.take(2)[0] == p[0]);
    }
    assert(!begins_with(p, unc_prefix()));
    single_is_collapsed(p, '\\');
    assert(without_trailing(p, '\\') == p);
}

/// A canonical POSIX path has the names of the path it was made from, in their
/// order and their case, with their characters composed, and begins at the root
/// where that path does.
pub proof fn posix_form_keeps_the_names(raw: Seq<char>, n: Seq<char>)
    requires
        PosixGrammar.normal_form(raw) == Ok::<Seq<char>, Seq<char>>(n),
    ensures
        components(n, '/') == components(nfc_text(raw), '/'),
        n[0] == '/' <==> nfc_text(raw)[0] == '/',
{
    let x = nfc_text(raw);
    let inner = without_leading(x, '/');
    let body = without_trailing(collapsed(inner, '/'), '/');
    trailing_separators_name_nothing(collapsed(inner, '/'), '/');
    collapsing_keeps_names(inner, '/');
    leading_separators_name_nothing(x, '/');
    body_facts(inner, '/');
    without_leading_facts(x, '/');
    if x.len() > 0 && x[0] == '/' {
        a_separator_in_front_names_nothing(body, '/');
        assert(n =~= seq!['/'] + body);
    } else {
        assert(inner == x);
    }
}

/// A POSIX path that is composed, with single separators and none at the end is
/// spelled canonically already: case is kept.
pub proof fn a_clean_posix_path_is_its_own_form(p: Seq<char>)
    requires
        p.len() > 0,
        p.last() != '/',
        forall|i: int| 0 <= i < p.len() - 1 ==> !(#[trigger] p[i] == '/' && p[i + 1] == '/'),
        nfc_text(p) == p,
    ensures
        PosixGrammar.normal_form(p) == Ok::<Seq<char>, Seq<char>>(p),
{
    if p[0] == '/' {
        let body = p.drop_first();
        assert(body.len() > 0);
        assert(!(p[0] == '/' && p[0int + 1] == '/'));
        assert(without_leading(body, '/') == body);
        assert(without_leading(p, '/') == body);
        assert forall|i: int| 0 <= i < body.len() - 1 implies !(#[trigger] body[i] == '/' && body[i + 1] == '/') by {
            assert(body[i] == p[i + 1] && body[i + 1] == p[i + 1 + 1]);
        }
        single_is_collapsed(body, '/');
        assert(body.last() == p.last());
        assert(without_trailing(body, '/') == body);
        assert(seq!['/'] + body =~= p);
    } else {
        single_is_collapsed(p, '/');
        assert(without_trailing(p, '/') == p);
    }
}

/// Where a path is cut into its directory and its name.
pub(crate) proof fn cut_of(dir: Seq<char>, name: Seq<char>, sep: char)
    requires
        forall|i: int| 0 <= i < name.len() ==> name[i] != sep,
        dir.len() == 0 || dir.last() == sep,
    ensures
        last_index(dir + name, sep) == dir.len() - 1,
        (dir + name).take(dir.len() as int) == dir,
        (dir + name).skip(dir.len() as int) == name,
    decreases name.len(),
{
    let p = dir + name;
    assert(p.take(dir.len() as int) =~= dir);
    assert(p.skip(dir.len() as int) =~= name);
    if name.len() == 0 {
        assert(p =~= dir);
    } else {
        assert(p.drop_last() =~= dir + name.drop_last());
        assert(p.last() == name.last());
        cut_of(dir, name.drop_last(), sep);
    }
}

/// Whether a list has both owner files of a document.
pub open spec fn lists_owner_files(locks: Seq<Seq<char>>, dir: Seq<char>, name: Seq<char>) -> bool {
    &&& locks.contains(dir + seq!['~', '$'] + name)
    &&& name.len() > 2 ==> locks.contains(dir + seq!['~', '$'] + name.subrange(2, name.len() as int))
}

/// On a Windows share a document is looked up under both names that Office gives
/// an owner file, however long its own name is: `~$` before the whole name (Excel,
/// PowerPoint), and `~$` in place of its first two characters (Word). Both are
/// looked for beside the document, and nothing else is.
pub proof fn every_owner_file_is_known(dir: Seq<char>, name: Seq<char>, lock: Seq<char>)
    requires
        forall|i: int| 0 <= i < name.len() ==> name[i] != '\\',
        dir.len() == 0 || dir.last() == '\\',
    ensures
        lists_owner_files(grammar_of(BackendKind::Smb).lock_texts(dir + name), dir, name),
        grammar_of(BackendKind::Smb).lock_texts(dir + name).contains(lock) ==> lock == dir + seq!['~', '$'] + name
            || (name.len() > 2 && lock == dir + seq!['~', '$'] + name.subrange(2, name.len() as int)),
{
    reveal_strlit("~$");
    cut_of(dir, name, '\\');
    let locks = office_locks(dir + name);
    assert("~$"@ =~= seq!['~', '$']);
    assert(locks[0] == dir + seq!['~', '$'] + name);
    if name.len() > 2 {
        assert(name.skip(2) =~= name.subrange(2, name.len() as int));
        assert(locks[1] == dir + seq!['~', '$'] + name.skip(2));
    }
}

/// A POSIX file system has no owner files to look for.
pub proof fn posix_has_no_owner_files(path: Seq<char>)
    ensures
        grammar_of(BackendKind::Posix).lock_texts(path).len() == 0,
{
}

proof fn regrouped(a: Seq<char>, b: Seq<char>, c: Seq<char>)
    ensures
        a + (b + c) == a + b + c,
        (a + b).take(a.len() as int) == a,
        (a + b).skip(a.len() as int) == b,
{
    assert(a + (b + c) =~= a + b + c);
    assert((a + b).take(a.len() as int) =~= a);
    assert((a + b).skip(a.len() as int) =~= b);
}

/// Where the extension of a name begins.
proof fn dot_of(dir: Seq<char>, stem: Seq<char>, ext: Seq<char>, sep: char)
    requires
        sep != '.',
        dir.len() == 0 || dir.last() == sep,
        forall|i: int| 0 <= i < stem.len() ==> stem[i] != sep,
        forall|i: int| 0 <= i < ext.len() ==> ext[i] != sep && ext[i] != '.',
    ensures
        ({
            let path = dir + stem + (seq!['.'] + ext);
            &&& last_index(path, sep) == dir.len() - 1
            &&& last_index(path.skip(dir.len() as int), '.') == stem.len()
        }),
{
    let name = stem.push('.') + ext;
    assert(stem + (seq!['.'] + ext) =~= name);
    regrouped(dir, stem, seq!['.'] + ext);
    assert forall|i: int| 0 <= i < name.len() implies name[i] != sep by {
        if i < stem.len() {
            assert(name[i] == stem[i]);
        } else if i > stem.len() {
            assert(name[i] == ext[i - stem.len() - 1]);
        }
    }
    cut_of(dir, name, sep);
    cut_of(stem.push('.'), ext, '.');
}

/// A tag goes before the extension of a name, which the tagged name keeps: the
/// file is still of its kind to whoever opens it.
pub proof fn a_tag_goes_before_the_extension(dir: Seq<char>, stem: Seq<char>, ext: Seq<char>, tag: Seq<char>, sep: char)
    requires
        sep != '.',
        dir.len() == 0 || dir.last() == sep,
        forall|i: int| 0 <= i < stem.len() ==> stem[i] != sep,
        forall|i: int| 0 <= i < ext.len() ==> ext[i] != sep && ext[i] != '.',
    ensures
        tagged(dir + stem + seq!['.'] + ext, tag, sep) == dir + stem + seq!['.'] + tag + seq!['.'] + ext,
{
    let front = dir + stem;
    let back = seq!['.'] + ext;
    dot_of(dir, stem, ext, sep);
    regrouped(front, seq!['.'], ext);
    regrouped(front, back, ext);
    assert("."@ == seq!['.']) by {
        reveal_strlit(".");
        assert("."@ =~= seq!['.']);
    }
    regrouped(front + seq!['.'] + tag, seq!['.'], ext);
}

/// A name without an extension gets the tag as its end.
pub proof fn a_tag_ends_a_name_without_extension(dir: Seq<char>, name: Seq<char>, tag: Seq<char>, sep: char)
    requires
        sep != '.',
        dir.len() == 0 || dir.last() == sep,
        forall|i: int| 0 <= i < name.len() ==> name[i] != sep && name[i] != '.',
    ensures
        tagged(dir + name, tag, sep) == dir + name + seq!['.'] + tag,
{
    reveal_strlit(".");
    cut_of(dir, name, sep);
    assert(Seq::<char>::empty() + name =~= name);
    cut_of(Seq::empty(), name, '.');
    assert("."@ =~= seq!['.']);
}

/// What is put aside names its owner by letters and digits alone: every other
/// character of the principal is an underscore there, so that no name leaves its
/// directory.
pub proof fn a_principal_in_a_name_is_plain(principal: Seq<char>, i: int)
    requires
        0 <= i < principal.len(),
    ensures
        plain_name(principal).len() == principal.len(),
        ({
            let c = principal[i];
            if '0' <= c <= '9' || 'a' <= c <= 'z' || 'A' <= c <= 'Z' {
                plain_name(principal)[i] == c
            } else {
                plain_name(principal)[i] == '_'
            }
        }),
{
}

/// A sidecar says whose contents it holds and when they were put aside, and a
/// restored copy when it was made; two made under different tags have different
/// names.
pub proof fn tags_tell_files_apart(principal: Seq<char>, stamp: Seq<char>, id: Seq<char>, other: Seq<char>)
    requires
        id.len() == 8,
        other.len() == 8,
        id != other,
    ensures
        conflict_tag(principal, stamp, id) != conflict_tag(principal, stamp, other),
        restored_tag(stamp, id) != restored_tag(stamp, other),
        conflict_tag(principal, stamp, id) == "conflict-"@ + plain_name(principal) + seq!['-'] + stamp + seq!['-'] + id,
        restored_tag(stamp, id) == "restored-"@ + stamp + seq!['-'] + id,
{
    reveal_strlit("-");
    assert("-"@ =~= seq!['-']);
    let a = conflict_tag(principal, stamp, id);
    let b = conflict_tag(principal, stamp, other);
    let c = restored_tag(stamp, id);
    let d = restored_tag(stamp, other);
    assert(a.skip(a.len() - 8) =~= id);
    assert(b.skip(b.len() - 8) =~= other);
    assert(c.skip(c.len() - 8) =~= id);
    assert(d.skip(d.len() - 8) =~= other);
}

/// An entry of a directory is below it by one name.
pub proof fn a_child_is_one_name_below(dir: Seq<char>, name: Seq<char>, sep: char)
    requires
        dir.len() > 0,
        dir.last() != sep,
    ensures
        child_text(dir, name, sep) == dir + seq![sep] + name,
        child_text(dir.push(sep), name, sep) == dir + seq![sep] + name,
{
    assert(dir.push(sep).drop_last() =~= dir);
    assert(without_trailing(dir.push(sep), sep) == without_trailing(dir, sep));
    assert(dir.push(sep) + name =~= dir + seq![sep] + name);
}

/// A path is absolute on Windows if it begins with two separators or with a
/// letter, a colon and a separator; a share path is used as it stands and every
/// other path is refused.
pub proof fn absolute_paths_alone_are_rooted(raw: Seq<char>, lookup: Result<Option<Seq<char>>, Seq<char>>)
    requires
        raw.len() >= 3,
    ensures
        ({
            let slash = |c: char| c == '/' || c == '\\';
            let share = slash(raw[0]) && slash(raw[1]);
            let drive = ('a' <= raw[0] <= 'z' || 'A' <= raw[0] <= 'Z') && raw[1] == ':' && slash(raw[2]);
            &&& share ==> WinGrammar.looked_up(raw) is None && WinGrammar.rooted_form(raw, lookup) == Ok::<
                Seq<char>,
                Seq<char>,
            >(unified(raw))
            &&& drive ==> WinGrammar.looked_up(raw) == Some(unified(raw))
            &&& !share && !drive ==> WinGrammar.rooted_form(raw, lookup) is Err
            &&& drive && lookup is Err ==> WinGrammar.rooted_form(raw, lookup) is Err
        }),
        PosixGrammar.rooted_form(raw, lookup) == Ok::<Seq<char>, Seq<char>>(raw),
{
    let u = unified(raw);
    assert(u[0] == (if raw[0] == '/' { '\\' } else { raw[0] }));
    assert(u[1] == (if raw[1] == '/' { '\\' } else { raw[1] }));
    assert(u[2] == (if raw[2] == '/' { '\\' } else { raw[2] }));
    assert(u.take(2)[0] == u[0] && u.take(2)[1] == u[1]);
    if u[0] == '\\' && u[1] == '\\' {
        assert(u.take(2) =~= unc_prefix());
    }
}

/// What a conflicting write submitted goes beside its file, under the file's own name
/// with the tag before the extension, in canonical spelling where that has one; and so
/// does a restored copy.
pub proof fn a_sidecar_is_beside_its_file<G: PathGrammar>(
    g: &G,
    dir: Seq<char>,
    stem: Seq<char>,
    ext: Seq<char>,
    principal: Seq<char>,
    stamp: Seq<char>,
    id: Seq<char>,
)
    requires
        g.sep_char() != '.',
        dir.len() == 0 || dir.last() == g.sep_char(),
        forall|i: int| 0 <= i < stem.len() ==> stem[i] != g.sep_char(),
        forall|i: int| 0 <= i < ext.len() ==> ext[i] != g.sep_char() && ext[i] != '.',
    ensures
        ({
            let path = dir + stem + seq!['.'] + ext;
            let aside = dir + stem + seq!['.'] + ("conflict-"@ + plain_name(principal) + seq!['-'] + stamp + seq!['-'] + id) + seq!['.'] + ext;
            let copy = dir + stem + seq!['.'] + ("restored-"@ + stamp + seq!['-'] + id) + seq!['.'] + ext;
            &&& g.normal_form(aside) matches Ok(n) ==> sidecar_text(g, path, principal, stamp, id) == n
            &&& g.normal_form(aside) is Err ==> sidecar_text(g, path, principal, stamp, id) == aside
            &&& g.normal_form(copy) matches Ok(n) ==> restored_text(g, path, stamp, id) == n
            &&& g.normal_form(copy) is Err ==> restored_text(g, path, stamp, id) == copy
        }),
{
    reveal_strlit("-");
    assert("-"@ =~= seq!['-']);
    a_tag_goes_before_the_extension(dir, stem, ext, conflict_tag(principal, stamp, id), g.sep_char());
    a_tag_goes_before_the_extension(dir, stem, ext, restored_tag(stamp, id), g.sep_char());
}

/// Windows shares separate their names by backslashes, and POSIX file systems by slashes.
pub proof fn each_kind_has_its_separator(kind: BackendKind)
    ensures
        kind == BackendKind::Smb ==> grammar_of(kind).sep_char() == '\\',
        kind == BackendKind::Posix ==> grammar_of(kind).sep_char() == '/',
        kind == BackendKind::Smb ==> forall|raw: Seq<char>| #[trigger] grammar_of(kind).normal_form(raw) == WinGrammar.normal_form(raw),
        kind == BackendKind::Posix ==> forall|raw: Seq<char>| #[trigger] grammar_of(kind).normal_form(raw) == PosixGrammar.normal_form(
            raw,
        ),
{
}

} // verus!
