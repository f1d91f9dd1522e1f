//! The one spelling of every path, and the boundary it has to lie within.
use vstd::prelude::*;

use crate::mount::{asked_for, MountTable, NoMountTable};
use crate::pathgrammar::{
    a_clean_posix_path_is_its_own_form, a_clean_win_path_is_its_own_form, absolute_paths_alone_are_rooted, components,
    lookup_view, nfc_text, outcome, unc_prefix, unified, win_form_keeps_the_names, win_looked_up, PathGrammar,
    PosixGrammar, WinGrammar,
};
use crate::proto::{CanonicalPath, ChaprError};
use crate::text::{
    begins_with, blank, blank_means_all_white, chars_of, is_blank, is_white, join, joined, lowercase_text, own, quoted, quoted_text, starts_with,
    trimmed_end, views,
};

verus! {

/// The roots that an endpoint is confined to, fixed once at start-up.
pub struct RootCell {
    /// The roots, once they are set.
    pub roots: Option<Vec<CanonicalPath>>,
}

impl RootCell {
    /// A cell whose roots are not set yet.
    pub fn new() -> (r: RootCell)
        ensures
            r.roots is None,
    {
        RootCell { roots: None }
    }
}

/// The roots in force: none before they are set.
pub open spec fn roots_in_force(cell: &RootCell) -> Seq<CanonicalPath> {
    match cell.roots {
        Some(v) => v@,
        None => Seq::empty(),
    }
}

/// Fixes the coordinated roots. They can be fixed once; a second attempt changes
/// nothing and gets its roots back.
pub fn set_coordinated_roots(cell: &mut RootCell, roots: Vec<CanonicalPath>) -> (r: Result<(), Vec<CanonicalPath>>)
    ensures
        old(cell).roots is None ==> r == Ok::<(), Vec<CanonicalPath>>(()) && final(cell).roots == Some(roots),
        old(cell).roots is Some ==> r == Err::<(), Vec<CanonicalPath>>(roots) && *final(cell) == *old(cell),
{
    if cell.roots.is_some() {
        return Err(roots);
    }
    cell.roots = Some(roots);
    Ok(())
}

/// The coordinated roots in force.
pub fn coordinated_roots(cell: &RootCell) -> (r: &[CanonicalPath])
    ensures
        r@ == roots_in_force(cell),
{
    match &cell.roots {
        Some(v) => v.as_slice(),
        None => &[],
    }
}

/// Whether a path is a root or lies below it: a separator stands between the root
/// and what follows, so that a sibling of a longer name is not taken for a child.
/// A root such as `/` ends in that separator itself.
pub open spec fn is_under(path: Seq<char>, root: Seq<char>, sep: char) -> bool {
    path == root || (path.len() > root.len() && begins_with(path, root) && (ends_in(root, sep)
        || path[root.len() as int] == sep))
}

/// Whether a text ends in a character.
pub open spec fn ends_in(s: Seq<char>, c: char) -> bool {
    s.len() > 0 && s.last() == c
}

/// Whether a path lies within one of the roots. Without roots there is no
/// boundary and every path does.
pub open spec fn is_confined(path: Seq<char>, roots: Seq<CanonicalPath>, sep: char) -> bool {
    roots.len() == 0 || exists|i: int| 0 <= i < roots.len() && is_under(path, #[trigger] roots[i]@, sep)
}

/// Whether a path lies within one of the roots.
pub fn is_within_roots(path: &str, roots: &[CanonicalPath], sep: char) -> (r: bool)
    ensures
        r == is_confined(path@, roots@, sep),
{
    if roots.len() == 0 {
        return true;
    }
    let p = chars_of(path);
    let mut i: usize = 0;
    while i < roots.len()
        invariant
            p@ == path@,
            i <= roots@.len(),
            forall|k: int| 0 <= k < i ==> !is_under(path@, #[trigger] roots@[k]@, sep),
        decreases roots@.len() - i,
    {
        let root = chars_of(roots[i].as_str());
        if starts_with(&p, &root) {
            if p.len() == root.len() {
                assert(p@ =~= root@);
                assert(is_under(path@, roots@[i as int]@, sep));
                return true;
            }
            if (root.len() > 0 && root[root.len() - 1] == sep) || p[root.len()] == sep {
                assert(is_under(path@, roots@[i as int]@, sep));
                return true;
            }
        }
        proof {
            if path@ == root@ {
                assert(path@.take(root@.len() as int) =~= root@);
            }
        }
        i = i + 1;
    }
    false
}

/// The texts of a list of paths.
pub open spec fn path_texts(paths: Seq<CanonicalPath>) -> Seq<Seq<char>> {
    paths.map_values(|p: CanonicalPath| p@)
}

pub(crate) fn join_paths(paths: &[CanonicalPath], sep: &str) -> (r: String)
    ensures
        r@ == joined(path_texts(paths@), sep@),
{
    let mut texts: Vec<String> = Vec::new();
    let mut i: usize = 0;
    while i < paths.len()
        invariant
            i <= paths@.len(),
            texts@.len() == i,
            forall|k: int| 0 <= k < i ==> (#[trigger] texts@[k])@ == paths@[k]@,
        decreases paths@.len() - i,
    {
        texts.push(paths[i].0.clone());
        i = i + 1;
    }
    assert(views(texts@) =~= path_texts(paths@));
    join(texts.as_slice(), sep)
}

pub open spec fn outside_text(out: Seq<char>, roots: Seq<CanonicalPath>) -> Seq<char> {
    "resolves to "@ + quoted_text(out) + ", which is outside this endpoint's coordinated root(s): "@
        + joined(path_texts(roots), ", "@)
}

/// What a path comes to whose one spelling is known: that spelling where it lies
/// within the roots.
pub open spec fn confined_form(
    normal: Result<Seq<char>, Seq<char>>,
    roots: Seq<CanonicalPath>,
    sep: char,
) -> Result<Seq<char>, Seq<char>> {
    match normal {
        Err(why) => Err(why),
        Ok(out) => if out.len() == 0 {
            Err(crate::pathgrammar::no_body())
        } else if !is_confined(out, roots, sep) {
            Err(outside_text(out, roots))
        } else {
            Ok(out)
        },
    }
}

/// The canonical form of a path whose rooted form is known, or why it has none.
pub open spec fn canonical_form<G: PathGrammar>(
    g: &G,
    rooted: Result<Seq<char>, Seq<char>>,
    roots: Seq<CanonicalPath>,
) -> Result<Seq<char>, Seq<char>> {
    match rooted {
        Err(why) => Err(why),
        Ok(path) => confined_form(g.normal_form(path), roots, g.sep_char()),
    }
}

/// Whether `r` is the canonical path `form`, or the refusal of `raw` for the
/// reason that `form` gives.
pub open spec fn canonicalized(
    raw: Seq<char>,
    form: Result<Seq<char>, Seq<char>>,
    r: Result<CanonicalPath, ChaprError>,
) -> bool {
    match form {
        Ok(out) => r matches Ok(p) && p@ == out,
        Err(why) => r matches Err(ChaprError::InvalidPath { raw: text, reason }) && text@ == raw
            && reason@ == why,
    }
}

/// Whether `r` can come of canonicalising `raw`: a blank text is refused, a path
/// that has to be looked up is rooted by what the mount table answers for it, and
/// of any other path the result is settled.
pub open spec fn may_canonicalize<G: PathGrammar, M: MountTable>(
    g: &G,
    mounts: M,
    raw: Seq<char>,
    roots: Seq<CanonicalPath>,
    r: Result<CanonicalPath, ChaprError>,
) -> bool {
    if is_blank(raw) {
        canonicalized(raw, Err("empty path"@), r)
    } else {
        match g.looked_up(raw) {
            None => canonicalized(raw, canonical_form(g, g.rooted_form(raw, Ok(None)), roots), r),
            Some(path) => exists|lookup: Result<Option<String>, String>|
                #[trigger] asked_for(mounts, path, lookup) && canonicalized(
                    raw,
                    canonical_form(g, g.rooted_form(raw, lookup_view(lookup)), roots),
                    r,
                ),
        }
    }
}

fn invalid(raw: &str, reason: String) -> (r: ChaprError)
    ensures
        r matches ChaprError::InvalidPath { raw: text, reason: why } && text@ == raw@ && why == reason,
{
    ChaprError::InvalidPath { raw: own(raw), reason }
}

/// What `raw` comes to, given its one spelling: that spelling where it lies within
/// the roots.
pub fn confine(
    raw: &str,
    normal: Result<String, String>,
    roots: &[CanonicalPath],
    sep: char,
) -> (r: Result<CanonicalPath, ChaprError>)
    ensures
        canonicalized(raw@, confined_form(outcome(normal), roots@, sep), r),
{
    let out = match normal {
        Ok(out) => out,
        Err(why) => return Err(invalid(raw, why)),
    };
    if out.as_str().is_empty() {
        return Err(invalid(raw, own("path has no body after normalisation")));
    }
    if !is_within_roots(out.as_str(), roots, sep) {
        let mut why = own("resolves to ");
        why.append(quoted(out.as_str()).as_str());
        why.append(", which is outside this endpoint's coordinated root(s): ");
        why.append(join_paths(roots, ", ").as_str());
        return Err(invalid(raw, why));
    }
    Ok(CanonicalPath::new_unchecked(out))
}

/// The canonical form of `raw`, given its rooted form.
pub fn canonicalize_rooted<G: PathGrammar>(
    raw: &str,
    rooted: Result<String, String>,
    grammar: &G,
    roots: &[CanonicalPath],
) -> (r: Result<CanonicalPath, ChaprError>)
    ensures
        canonicalized(raw@, canonical_form(grammar, outcome(rooted), roots@), r),
{
    match rooted {
        Ok(path) => confine(raw, grammar.normalize(path.as_str()), roots, grammar.sep()),
        Err(why) => Err(invalid(raw, why)),
    }
}

/// The canonical form of a path as a caller writes it: rooted, spelled the one
/// way, and within the coordinated roots. A blank text is refused before
/// anything is looked up.
pub fn canonicalize_in<G: PathGrammar, M: MountTable>(
    raw: &str,
    grammar: &G,
    mounts: &M,
    roots: &[CanonicalPath],
) -> (r: Result<CanonicalPath, ChaprError>)
    ensures
        may_canonicalize(grammar, *mounts, raw@, roots@, r),
{
    if blank(raw) {
        return Err(invalid(raw, own("empty path")));
    }
    let rooted = grammar.to_rooted(raw, mounts);
    canonicalize_rooted(raw, rooted, grammar, roots)
}

/// The canonical form of a path under the roots in force, by the mount table of
/// this process.
pub fn canonicalize<G: PathGrammar, M: MountTable>(
    raw: &str,
    grammar: &G,
    mounts: &M,
    cell: &RootCell,
) -> (r: Result<CanonicalPath, ChaprError>)
    ensures
        may_canonicalize(grammar, *mounts, raw@, roots_in_force(cell), r),
{
    canonicalize_in(raw, grammar, mounts, coordinated_roots(cell))
}

/// No canonical path lies outside the coordinated roots, however it was written
/// and whatever the mount table said.
pub proof fn canonical_paths_are_confined<G: PathGrammar, M: MountTable>(
    g: &G,
    mounts: M,
    raw: Seq<char>,
    roots: Seq<CanonicalPath>,
    p: CanonicalPath,
)
    requires
        may_canonicalize(g, mounts, raw, roots, Ok(p)),
    ensures
        is_confined(p@, roots, g.sep_char()),
        p@.len() > 0,
{
}

/// Whether two paths are the same key, or are refused for the same reason.
pub open spec fn same_key(a: Result<CanonicalPath, ChaprError>, b: Result<CanonicalPath, ChaprError>) -> bool {
    match (a, b) {
        (Ok(p), Ok(q)) => p@ == q@,
        (Err(ChaprError::InvalidPath { raw: _, reason: x }), Err(ChaprError::InvalidPath { raw: _, reason: y })) => x@ == y@,
        _ => false,
    }
}

/// Whether a mount table, asked for a path, answers with this share path.
pub open spec fn is_mapped_to<M: MountTable>(mounts: M, path: Seq<char>, unc: Seq<char>) -> bool {
    forall|lookup: Result<Option<String>, String>| #[trigger]
        asked_for(mounts, path, lookup) ==> lookup_view(lookup) == Ok::<Option<Seq<char>>, Seq<char>>(Some(unc))
}

/// Two laptops agree: a file that one has below one drive letter and another
/// below another is one key, as long as both letters are mapped to the one share.
pub proof fn two_laptops_agree<M: MountTable, N: MountTable>(
    here: M,
    there: N,
    raw_here: Seq<char>,
    raw_there: Seq<char>,
    unc: Seq<char>,
    roots: Seq<CanonicalPath>,
    a: Result<CanonicalPath, ChaprError>,
    b: Result<CanonicalPath, ChaprError>,
)
    requires
        win_looked_up(raw_here) matches Some(p) && is_mapped_to(here, p, unc),
        win_looked_up(raw_there) matches Some(p) && is_mapped_to(there, p, unc),
        may_canonicalize(&WinGrammar, here, raw_here, roots, a),
        may_canonicalize(&WinGrammar, there, raw_there, roots, b),
    ensures
        same_key(a, b),
{
    local_is_not_blank(raw_here);
    local_is_not_blank(raw_there);
}

/// A mapped drive is its share: a file named below a drive letter is the key that
/// it is when it is named by the share path itself.
pub proof fn a_mapped_drive_is_its_share<M: MountTable, N: MountTable>(
    here: M,
    there: N,
    raw: Seq<char>,
    unc: Seq<char>,
    roots: Seq<CanonicalPath>,
    a: Result<CanonicalPath, ChaprError>,
    b: Result<CanonicalPath, ChaprError>,
)
    requires
        win_looked_up(raw) matches Some(p) && is_mapped_to(here, p, unc),
        begins_with(unc, unc_prefix()),
        may_canonicalize(&WinGrammar, here, raw, roots, a),
        may_canonicalize(&WinGrammar, there, unc, roots, b),
    ensures
        same_key(a, b),
{
    local_is_not_blank(raw);
    assert(unc.take(2)[0] == unc[0]);
    trimmed_end_keeps(unc);
    assert(unified(unc).take(2) =~= unc_prefix());
    assert(unified(unified(unc)) =~= unified(unc));
}

/// Without mapped drives a path on a drive is a local one, and its key is its own
/// spelling.
pub proof fn unmapped_drives_are_local(raw: Seq<char>, roots: Seq<CanonicalPath>, r: Result<CanonicalPath, ChaprError>)
    requires
        win_looked_up(raw) is Some,
        may_canonicalize(&WinGrammar, NoMountTable, raw, roots, r),
    ensures
        canonicalized(raw, canonical_form(&WinGrammar, Ok(unified(raw)), roots), r),
{
    local_is_not_blank(raw);
    let lookup = choose|lookup: Result<Option<String>, String>| #[trigger]
        asked_for(NoMountTable, unified(raw), lookup) && canonicalized(
            raw,
            canonical_form(&WinGrammar, WinGrammar.rooted_form(raw, lookup_view(lookup)), roots),
            r,
        );
    crate::mount::nothing_is_mapped(unified(raw), lookup);
}

proof fn local_is_not_blank(raw: Seq<char>)
    requires
        win_looked_up(raw) is Some,
    ensures
        !is_blank(raw),
{
    assert(unified(raw)[0] == raw[0] || raw[0] == '/');
    trimmed_end_keeps(raw);
}

proof fn trimmed_end_keeps(s: Seq<char>)
    requires
        s.len() > 0,
        !is_white(s[0]),
    ensures
        trimmed_end(s).len() > 0,
    decreases s.len(),
{
    if is_white(s.last()) {
        trimmed_end_keeps(s.drop_last());
    }
}

/// A sibling whose name only begins like a root is not within it.
pub proof fn a_longer_name_is_no_child(root: Seq<char>, rest: Seq<char>, sep: char)
    requires
        !ends_in(root, sep),
        rest.len() > 0,
        rest[0] != sep,
    ensures
        !is_under(root + rest, root, sep),
{
    assert((root + rest).len() > root.len());
    assert((root + rest)[root.len() as int] == rest[0]);
}

/// Whatever begins with a root that ends in a separator is within it, so that
/// everything is within `/`.
pub proof fn all_is_within_a_separated_root(root: Seq<char>, rest: Seq<char>, sep: char)
    requires
        ends_in(root, sep),
    ensures
        is_under(root + rest, root, sep),
{
    assert((root + rest).take(root.len() as int) =~= root);
    if rest.len() == 0 {
        assert(root + rest =~= root);
    }
}

/// What lies below a root is within it.
pub proof fn a_child_is_within(root: Seq<char>, rest: Seq<char>, sep: char)
    ensures
        is_under(root.push(sep) + rest, root, sep),
{
    let path = root.push(sep) + rest;
    assert(path.take(root.len() as int) =~= root);
}

/// Whether a path is one of the roots, or continues it behind a separator.
pub open spec fn continues(path: Seq<char>, root: Seq<char>, sep: char) -> bool {
    &&& path.len() >= root.len()
    &&& forall|k: int| 0 <= k < root.len() ==> #[trigger] path[k] == root[k]
    &&& path.len() > root.len() ==> path[root.len() as int] == sep || (root.len() > 0 && root[root.len() - 1] == sep)
}

pub(crate) proof fn under_is_continuing(path: Seq<char>, root: Seq<char>, sep: char)
    ensures
        is_under(path, root, sep) <==> continues(path, root, sep),
{
    if path.len() >= root.len() {
        let head = path.take(root.len() as int);
        if is_under(path, root, sep) {
            assert forall|k: int| 0 <= k < root.len() implies #[trigger] path[k] == root[k] by {
                assert(path == root || path[k] == head[k]);
            }
        }
        if continues(path, root, sep) {
            assert(head =~= root);
            if path.len() == root.len() {
                assert(path =~= root);
            }
        }
    }
}

/// Whatever is canonicalised under some roots is character by character one of
/// them, or goes on from one of them behind a separator.
pub proof fn every_key_continues_a_root<G: PathGrammar, M: MountTable>(
    g: &G,
    mounts: M,
    raw: Seq<char>,
    roots: Seq<CanonicalPath>,
    p: CanonicalPath,
)
    requires
        roots.len() > 0,
        may_canonicalize(g, mounts, raw, roots, Ok(p)),
    ensures
        exists|i: int| 0 <= i < roots.len() && continues(p@, #[trigger] roots[i]@, g.sep_char()),
{
    let i = choose|i: int| 0 <= i < roots.len() && is_under(p@, #[trigger] roots[i]@, g.sep_char());
    under_is_continuing(p@, roots[i]@, g.sep_char());
}

/// A share path that is spelled canonically and continues one of the roots, or is
/// under none because there are none, is its own key: confinement refuses nothing
/// that lies within.
pub proof fn a_clean_path_within_the_roots_is_its_own_key<M: MountTable>(
    mounts: M,
    p: Seq<char>,
    roots: Seq<CanonicalPath>,
    i: int,
    r: Result<CanonicalPath, ChaprError>,
)
    requires
        p.len() > 2,
        p[0] == '\\',
        p[1] == '\\',
        p[2] != '\\',
        p.last() != '\\',
        forall|k: int| 0 <= k < p.len() ==> p[k] != '/',
        forall|k: int| 2 <= k < p.len() - 1 ==> !(#[trigger] p[k] == '\\' && p[k + 1] == '\\'),
        nfc_text(p) == p,
        lowercase_text(p) == p,
        roots.len() == 0 || (0 <= i < roots.len() && continues(p, roots[i]@, '\\')),
        may_canonicalize(&WinGrammar, mounts, p, roots, r),
    ensures
        r matches Ok(key) && key@ == p,
{
    a_clean_win_path_is_its_own_form(p);
    trimmed_end_keeps(p);
    assert(unified(p) =~= p);
    assert(p.take(2) =~= unc_prefix());
    if roots.len() > 0 {
        under_is_continuing(p, roots[i]@, '\\');
    }
}

/// The same of a POSIX path: its case is kept.
pub proof fn a_clean_posix_path_within_the_roots_is_its_own_key<M: MountTable>(
    mounts: M,
    p: Seq<char>,
    roots: Seq<CanonicalPath>,
    i: int,
    r: Result<CanonicalPath, ChaprError>,
)
    requires
        p.len() > 1,
        p[0] == '/',
        p.last() != '/',
        forall|k: int| 0 <= k < p.len() - 1 ==> !(#[trigger] p[k] == '/' && p[k + 1] == '/'),
        nfc_text(p) == p,
        roots.len() == 0 || (0 <= i < roots.len() && continues(p, roots[i]@, '/')),
        may_canonicalize(&PosixGrammar, mounts, p, roots, r),
    ensures
        r matches Ok(key) && key@ == p,
{
    a_clean_posix_path_is_its_own_form(p);
    trimmed_end_keeps(p);
    if roots.len() > 0 {
        under_is_continuing(p, roots[i]@, '/');
    }
}

/// A share path and its key have the same names, up to case and the composition
/// of characters, whatever the roots: nothing is opened but what was asked for.
pub proof fn a_key_has_the_names_of_its_path<M: MountTable>(
    mounts: M,
    raw: Seq<char>,
    backslashed: Seq<char>,
    roots: Seq<CanonicalPath>,
    key: CanonicalPath,
)
    requires
        backslashed.len() == raw.len(),
        forall|i: int| 0 <= i < raw.len() ==> #[trigger] backslashed[i] == (if raw[i] == '/' { '\\' } else { raw[i] }),
        raw.len() >= 3,
        backslashed[0] == '\\',
        backslashed[1] == '\\',
        may_canonicalize(&WinGrammar, mounts, raw, roots, Ok(key)),
    ensures
        components(key@, '\\') == components(lowercase_text(nfc_text(backslashed)), '\\'),
{
    absolute_paths_alone_are_rooted(raw, Ok(None));
    assert(unified(raw) =~= backslashed);
    trimmed_end_keeps(raw);
    win_form_keeps_the_names(backslashed, backslashed, key@);
}

/// A path that is not absolute under Windows is refused; the refusal names the path as
/// it was written.
pub proof fn what_cannot_be_rooted_is_refused<M: MountTable>(
    mounts: M,
    raw: Seq<char>,
    roots: Seq<CanonicalPath>,
    r: Result<CanonicalPath, ChaprError>,
)
    requires
        may_canonicalize(&WinGrammar, mounts, raw, roots, r),
        raw.len() >= 3,
        !((raw[0] == '/' || raw[0] == '\\') && (raw[1] == '/' || raw[1] == '\\')),
        !(('a' <= raw[0] <= 'z' || 'A' <= raw[0] <= 'Z') && raw[1] == ':' && (raw[2] == '/' || raw[2] == '\\')),
    ensures
        r matches Err(ChaprError::InvalidPath { raw: text, .. }) && text@ == raw,
{
    absolute_paths_alone_are_rooted(raw, Ok(None));
    let u = unified(raw);
    assert(u.take(2)[0] == u[0] && u.take(2)[1] == u[1]);
    assert(u[0] == raw[0] || raw[0] == '/');
    assert(u[1] == raw[1] || raw[1] == '/');
    assert(u[2] == raw[2] || raw[2] == '/');
}

/// A path of white space alone, or of nothing, is refused under either grammar, without
/// anything being looked up.
pub proof fn a_blank_path_is_refused<G: PathGrammar, M: MountTable>(
    g: &G,
    mounts: M,
    raw: Seq<char>,
    roots: Seq<CanonicalPath>,
    r: Result<CanonicalPath, ChaprError>,
)
    requires
        may_canonicalize(g, mounts, raw, roots, r),
        forall|i: int| 0 <= i < raw.len() ==> is_white(#[trigger] raw[i]),
    ensures
        r matches Err(ChaprError::InvalidPath { raw: text, .. }) && text@ == raw,
{
    blank_means_all_white(raw);
}

/// What the mount table could not look up is refused, and a path that it maps is used as it
/// maps it.
pub proof fn an_unresolvable_drive_is_refused<M: MountTable>(
    mounts: M,
    raw: Seq<char>,
    roots: Seq<CanonicalPath>,
    r: Result<CanonicalPath, ChaprError>,
)
    requires
        win_looked_up(raw) matches Some(path) && forall|lookup: Result<Option<String>, String>| #[trigger]
            asked_for(mounts, path, lookup) ==> lookup is Err,
        may_canonicalize(&WinGrammar, mounts, raw, roots, r),
    ensures
        r matches Err(ChaprError::InvalidPath { raw: text, .. }) && text@ == raw,
{
    local_is_not_blank(raw);
}

/// The roots in force are those that were set, and none before they are.
pub proof fn roots_are_in_force_once_set(cell: RootCell, roots: Vec<CanonicalPath>)
    ensures
        cell.roots == Some(roots) ==> roots_in_force(&cell) == roots@,
        cell.roots is None ==> roots_in_force(&cell).len() == 0,
{
}

} // verus!
