//! The fileserver seam: what a backend can do, what it is asked, and how its
//! refusals are told.
//!
//! Every operation on a file runs as a sequence of questions. The operation
//! holds the decisions and the order; an [`Action`] is the one thing it needs
//! done next, and the [`Answer`] moves it on.
use vstd::prelude::*;
use vstd::utf8::valid_utf8;

use crate::base64text::{base64_decoded, base64_len, compact, compacted, decode, same_bytes};
use crate::pathgrammar::{grammar_for, grammar_of, last_index, PathGrammar};
use crate::proto::{
    AuditKind, BackendDescriptor, BackendKind, CanonicalPath, ChaprError, FileStat, LeaseId, LeasePurpose, PreImage,
    Principal, RawDirEntry, RecoveredFrom, Resolved, RestoreBase, SessionId, Timestamp, VersionEvent, VersionToken,
    WriteMode,
};
use crate::text::{begins_with, chars_of, decoded, own, slice_of, spelled};

verus! {

/// The largest file whose contents are stored in history before they are
/// replaced, in bytes: what the coordinator accepts in one piece.
pub const MAX_PRE_IMAGE_BYTES: usize = 268435456;

/// What a backend can and cannot do.
#[derive(Clone, Copy, Debug, PartialEq, Eq, Structural)]
pub struct Capabilities {
    /// It has an atomic conditional write of its own.
    pub native_cas: bool,
    /// It has leases of its own.
    pub native_lease: bool,
    /// Its lock also keeps out programs that know nothing of leases.
    pub mandatory_lock: bool,
    /// Its writes cannot tear, so that no journal is needed.
    pub atomic_writes: bool,
    /// How it tells of changes.
    pub change_notify: ChangeNotify,
    /// The shape of its version tokens.
    pub token_kind: TokenKind,
}

/// How a backend tells of changes.
#[derive(Clone, Copy, Debug, PartialEq, Eq, Structural)]
pub enum ChangeNotify {
    /// The Windows directory watcher.
    ReadDirectoryChangesW,
    /// The Linux one.
    Inotify,
    /// A call back.
    Webhook,
    /// Not at all.
    Nothing,
}

/// The shape of a backend's version tokens.
#[derive(Clone, Copy, Debug, PartialEq, Eq, Structural)]
pub enum TokenKind {
    /// A content hash.
    Blake3,
    /// An opaque tag of the server's.
    ETag,
}

/// The backend for Windows shares.
#[derive(Clone, Copy, Debug, PartialEq, Eq, Structural)]
pub struct SmbBackend;

/// The backend for POSIX file systems.
#[derive(Clone, Copy, Debug, PartialEq, Eq, Structural)]
pub struct PosixBackend;

impl SmbBackend {
    /// Which kind of backend this is.
    pub fn kind(&self) -> (r: BackendKind)
        ensures
            r == BackendKind::Smb,
    {
        BackendKind::Smb
    }

    /// An exclusive open that every program has to respect, and in-place writes
    /// that can tear.
    pub fn capabilities(&self) -> (r: Capabilities)
        ensures
            r == (Capabilities {
                native_cas: false,
                native_lease: false,
                mandatory_lock: true,
                atomic_writes: false,
                change_notify: ChangeNotify::ReadDirectoryChangesW,
                token_kind: TokenKind::Blake3,
            }),
    {
        Capabilities {
            native_cas: false,
            native_lease: false,
            mandatory_lock: true,
            atomic_writes: false,
            change_notify: ChangeNotify::ReadDirectoryChangesW,
            token_kind: TokenKind::Blake3,
        }
    }
}

impl PosixBackend {
    /// Which kind of backend this is.
    pub fn kind(&self) -> (r: BackendKind)
        ensures
            r == BackendKind::Posix,
    {
        BackendKind::Posix
    }

    /// An advisory lock, and in-place writes that can tear.
    pub fn capabilities(&self) -> (r: Capabilities)
        ensures
            r == (Capabilities {
                native_cas: false,
                native_lease: false,
                mandatory_lock: false,
                atomic_writes: false,
                change_notify: ChangeNotify::Inotify,
                token_kind: TokenKind::Blake3,
            }),
    {
        Capabilities {
            native_cas: false,
            native_lease: false,
            mandatory_lock: false,
            atomic_writes: false,
            change_notify: ChangeNotify::Inotify,
            token_kind: TokenKind::Blake3,
        }
    }
}

/// The backend that an endpoint drives.
#[derive(Clone, Copy, Debug, PartialEq, Eq, Structural)]
pub enum Backend {
    /// A Windows share.
    Smb(SmbBackend),
    /// A POSIX file system.
    Posix(PosixBackend),
}

/// The backend of the operating system: Windows shares on Windows, POSIX file
/// systems elsewhere.
pub fn default_backend_kind(windows: bool) -> (r: BackendKind)
    ensures
        r == if windows { BackendKind::Smb } else { BackendKind::Posix },
{
    if windows {
        BackendKind::Smb
    } else {
        BackendKind::Posix
    }
}

/// The backend of a kind. Windows shares can be driven from Windows only.
pub fn make_backend(kind: BackendKind, windows: bool) -> (r: Result<Backend, String>)
    ensures
        match kind {
            BackendKind::Posix => r == Ok::<Backend, String>(Backend::Posix(PosixBackend)),
            BackendKind::Smb => if windows {
                r == Ok::<Backend, String>(Backend::Smb(SmbBackend))
            } else {
                r matches Err(e) && e@ == "the SMB backend is only available on Windows builds"@
            },
        },
{
    match kind {
        BackendKind::Posix => Ok(Backend::Posix(PosixBackend)),
        BackendKind::Smb => if windows {
            Ok(Backend::Smb(SmbBackend))
        } else {
            Err(own("the SMB backend is only available on Windows builds"))
        },
    }
}

/// The kind that the coordinator announces. It is advisory: without an
/// announcement the default stands.
pub fn select_backend(announced: Option<&BackendDescriptor>) -> (r: BackendKind)
    ensures
        r == match announced {
            Some(d) => d.kind,
            None => BackendKind::Smb,
        },
{
    match announced {
        Some(d) => d.kind,
        None => BackendKind::default(),
    }
}

/// What the operating system said of a failed call.
#[derive(Clone, Copy, Debug, PartialEq, Eq, Structural)]
pub enum IoKind {
    /// Nothing is there.
    NotFound,
    /// The user may not.
    PermissionDenied,
    /// Something is there already.
    AlreadyExists,
    /// A lock is held elsewhere.
    WouldBlock,
    /// Anything else.
    Other,
}

/// A failed call to the operating system.
#[derive(Debug, PartialEq, Eq)]
pub struct IoFailure {
    /// What it said.
    pub kind: IoKind,
    /// The number it said it by, where there is one.
    pub os_code: Option<i32>,
    /// The words for it.
    pub message: String,
}

/// The Windows code for a file that another process holds open.
pub const ERROR_SHARING_VIOLATION: i32 = 32;

/// How a failed call on a path is told.
pub open spec fn os_error(path: CanonicalPath, e: IoFailure) -> ChaprError {
    match e.kind {
        IoKind::NotFound => ChaprError::NotFound { path },
        IoKind::PermissionDenied => ChaprError::PermissionDenied { path },
        IoKind::AlreadyExists => ChaprError::AlreadyExists { path },
        IoKind::WouldBlock => ChaprError::SharingViolation { path },
        IoKind::Other => if e.os_code == Some(ERROR_SHARING_VIOLATION) {
            ChaprError::SharingViolation { path }
        } else {
            ChaprError::Io { path, message: e.message }
        },
    }
}

/// Tells of a failed call on a path. An advisory lock held elsewhere and a
/// Windows sharing violation are the same thing to a caller.
pub fn map_os_err(path: &CanonicalPath, e: IoFailure) -> (r: ChaprError)
    ensures
        r == os_error(*path, e),
{
    let path = path.clone();
    match e.kind {
        IoKind::NotFound => ChaprError::NotFound { path },
        IoKind::PermissionDenied => ChaprError::PermissionDenied { path },
        IoKind::AlreadyExists => ChaprError::AlreadyExists { path },
        IoKind::WouldBlock => ChaprError::SharingViolation { path },
        IoKind::Other => match e.os_code {
            Some(code) if code == ERROR_SHARING_VIOLATION => ChaprError::SharingViolation { path },
            _ => ChaprError::Io { path, message: e.message },
        },
    }
}

/// How often a character stands in a text.
pub open spec fn occurrences(s: Seq<char>, c: char) -> nat
    decreases s.len(),
{
    if s.len() == 0 {
        0
    } else {
        occurrences(s.drop_last(), c) + if s.last() == c { 1nat } else { 0nat }
    }
}

/// The directory that holds a path. A root has none: what is above
/// `\\server\share` is no directory, and nothing is above `/`. The parent of `/a`
/// is `/`.
pub open spec fn parent_text(s: Seq<char>, sep: char) -> Option<Seq<char>> {
    let cut = last_index(s, sep);
    if begins_with(s, seq![sep, sep]) {
        if occurrences(s.skip(2), sep) < 2 {
            None
        } else {
            Some(s.take(cut))
        }
    } else if cut < 0 || s.len() == 1 {
        None
    } else if cut == 0 {
        Some(seq![sep])
    } else {
        Some(s.take(cut))
    }
}

/// The view of an optional path.
pub open spec fn path_view(p: Option<CanonicalPath>) -> Option<Seq<char>> {
    match p {
        Some(p) => Some(p@),
        None => None,
    }
}

/// The directory that holds a path, or `None` where the backend's name space
/// has no such directory.
pub fn parent_of(kind: BackendKind, path: &CanonicalPath) -> (r: Option<CanonicalPath>)
    ensures
        path_view(r) == parent_text(path@, grammar_of(kind).sep_char()),
{
    let sep = grammar_for(kind).sep();
    let v = chars_of(path.as_str());
    let mut cut: usize = v.len();
    assert(v@.take(v@.len() as int) =~= v@);
    while cut > 0 && v[cut - 1] != sep
        invariant
            cut <= v@.len(),
            last_index(v@, sep) == last_index(v@.take(cut as int), sep),
            forall|k: int| cut <= k < v@.len() ==> v@[k] != sep,
        decreases cut,
    {
        assert(v@.take(cut as int).drop_last() =~= v@.take(cut - 1));
        cut = cut - 1;
    }
    let unc = v.len() >= 2 && v[0] == sep && v[1] == sep;
    proof {
        if v@.len() >= 2 {
            assert(v@.take(2)[0] == v@[0] && v@.take(2)[1] == v@[1]);
            if unc {
                assert(v@.take(2) =~= seq![sep, sep]);
            }
        }
    }
    if unc {
        let mut i: usize = 2;
        let mut n: usize = 0;
        while i < v.len()
            invariant
                2 <= i <= v@.len(),
                n <= i,
                n == occurrences(v@.subrange(2, i as int), sep),
            decreases v@.len() - i,
        {
            assert(v@.subrange(2, i + 1).drop_last() =~= v@.subrange(2, i as int));
            if v[i] == sep {
                n = n + 1;
            }
            i = i + 1;
        }
        assert(v@.subrange(2, v@.len() as int) =~= v@.skip(2));
        if n < 2 {
            return None;
        }
    }
    if cut == 0 {
        assert(v@.take(0).len() == 0);
        return None;
    }
    if v.len() == 1 {
        return None;
    }
    if cut == 1 && !unc {
        let mut s = String::new();
        s.push(sep);
        assert(s@ =~= seq![sep]);
        return Some(CanonicalPath::new_unchecked(s));
    }
    assert(v@.subrange(0, cut - 1) =~= v@.take(cut - 1));
    Some(CanonicalPath::new_unchecked(spelled(slice_of(&v, 0, cut - 1).as_slice())))
}

/// A file that is held open exclusively, from the version check on.
pub trait LockedFile {
    /// Reads the whole file.
    fn read_all(&self) -> Result<Vec<u8>, IoFailure>;

    /// Replaces the contents in place, cuts the file to the new length, and
    /// flushes it.
    fn overwrite(&self, bytes: &[u8]) -> Result<(), IoFailure>;

    /// Renames the file without letting go of it. `replace` allows for something
    /// being at the new name.
    fn rename_to(&self, dst: &str, replace: bool) -> Result<(), IoFailure>;
}

/// What one version log entry says of who wrote and when.
#[derive(Debug, PartialEq, Eq)]
pub struct HistoryEntry {
    /// Who wrote it.
    pub writer: Principal,
    /// When.
    pub timestamp: Timestamp,
}

/// Whom a conflict is put down to: the latest entry of the history, or the
/// caller and the present where there is none to be had.
pub open spec fn attribution(
    reply: Result<Vec<HistoryEntry>, ChaprError>,
    now: Timestamp,
    fallback: Principal,
) -> (Principal, Timestamp) {
    match reply {
        Ok(entries) => if entries@.len() > 0 {
            (entries@[0].writer, entries@[0].timestamp)
        } else {
            (fallback, now)
        },
        Err(_) => (fallback, now),
    }
}

/// Whom a conflict is put down to.
pub fn last_writer_of(
    reply: Result<Vec<HistoryEntry>, ChaprError>,
    now: Timestamp,
    fallback: &Principal,
) -> (r: (Principal, Timestamp))
    ensures
        r == attribution(reply, now, *fallback),
{
    if let Ok(entries) = &reply {
        if entries.len() > 0 {
            return (entries[0].writer.clone(), entries[0].timestamp.clone());
        }
    }
    (fallback.clone(), now)
}

/// What a finished write reports for the version log and the audit trail.
#[derive(Debug, PartialEq, Eq)]
pub struct CommitReceipt {
    /// The version that was replaced: none for a create.
    pub from_version: Option<VersionToken>,
    /// The version that is there now: none for a delete.
    pub to_version: Option<VersionToken>,
    /// The size of what was written, or of what a delete removed.
    pub size: u64,
    /// The size of the contents that were stored before they were replaced.
    pub from_size: Option<u64>,
}

/// What a finished move reports.
#[derive(Debug, PartialEq, Eq)]
pub struct MoveReceipt {
    /// The version that moved, unchanged by the rename.
    pub version: VersionToken,
}

/// A write of new contents over a file at a known version.
pub struct WriteCasArgs {
    /// The file.
    pub path: CanonicalPath,
    /// The lease under which it is written.
    pub lease_id: LeaseId,
    /// The new contents.
    pub content: Vec<u8>,
    /// The version that the caller read.
    pub base_version: VersionToken,
    /// Whether the base version has to match.
    pub mode: WriteMode,
}

/// A removal of a file at a known version.
pub struct DeleteCasArgs {
    /// The file.
    pub path: CanonicalPath,
    /// The lease under which it is removed.
    pub lease_id: LeaseId,
    /// The version that the caller read.
    pub base_version: VersionToken,
}

/// A restore of old contents over a file.
pub struct RestoreInPlaceArgs {
    /// The file.
    pub path: CanonicalPath,
    /// The lease under which it is restored.
    pub lease_id: LeaseId,
    /// The old contents.
    pub bytes: Vec<u8>,
    /// Their version.
    pub version: VersionToken,
    /// What the caller saw at the target.
    pub base: RestoreBase,
}

/// A move of a file at a known version.
pub struct MoveCasArgs {
    /// Where it is.
    pub src: CanonicalPath,
    /// Where it goes.
    pub dst: CanonicalPath,
    /// The version that the caller read at the source.
    pub src_base_version: VersionToken,
    /// The version that the caller read at the destination, if it read one.
    pub dst_base_version: Option<VersionToken>,
    /// The lease on both.
    pub lease_id: LeaseId,
}

/// The one thing that an operation needs done next.
///
/// A file opened here stays open under its path until it is closed; whatever is
/// open when the operation has finished is closed then.
pub enum Action<'a> {
    /// Tell whether there is a file or a directory at the path.
    Exists(&'a CanonicalPath),
    /// Open the file exclusively.
    Open(&'a CanonicalPath),
    /// Read the open file whole.
    ReadAll(&'a CanonicalPath),
    /// Replace the contents of the open file in place, and flush them.
    Overwrite(&'a CanonicalPath, &'a Vec<u8>),
    /// Rename the open file without closing it.
    Rename { src: &'a CanonicalPath, dst: &'a CanonicalPath, replace: bool },
    /// Close the open file.
    Close(&'a CanonicalPath),
    /// Create a file that does not exist yet, with these contents.
    CreateNew(&'a CanonicalPath, &'a Vec<u8>),
    /// Remove the file.
    Remove(&'a CanonicalPath),
    /// Create one directory.
    CreateDir(&'a CanonicalPath),
    /// Ask the coordinator for the history of a path.
    History(&'a CanonicalPath),
    /// Have the coordinator confirm that this session read the version.
    AssertRead { session_id: &'a SessionId, path: &'a CanonicalPath, version: &'a VersionToken },
    /// Store bytes in the coordinator's history.
    PutBlob(&'a Vec<u8>),
    /// Have the coordinator note that the path is about to be overwritten.
    OpenJournal {
        path: &'a CanonicalPath,
        lease_id: &'a LeaseId,
        principal: &'a Principal,
        pre_image_version: &'a VersionToken,
        intended_version: Option<&'a VersionToken>,
    },
    /// Have the coordinator forget that note.
    ClearJournal(&'a CanonicalPath),
    /// Register contents that lost a race.
    RegisterConflict {
        base_path: &'a CanonicalPath,
        sidecar_path: &'a CanonicalPath,
        losing_principal: &'a Principal,
        session_id: &'a SessionId,
    },
    /// Have the coordinator note that a move is about to happen.
    OpenMove {
        src: &'a CanonicalPath,
        dst: &'a CanonicalPath,
        lease_id: &'a LeaseId,
        principal: &'a Principal,
        session_id: &'a SessionId,
        version: &'a VersionToken,
        size: u64,
        overwrite: bool,
        dst_pre_image: Option<&'a PreImage>,
    },
    /// Have the coordinator forget the note of a move.
    ClearMove(&'a CanonicalPath),
    /// Have the coordinator carry its records over to the new path.
    MovePaths {
        src: &'a CanonicalPath,
        dst: &'a CanonicalPath,
        version: &'a VersionToken,
        size: u64,
        overwrite: bool,
        principal: &'a Principal,
        session_id: &'a SessionId,
        dst_pre_image: Option<&'a PreImage>,
    },
    /// Take a lease on all of the paths, or on none.
    Acquire {
        principal: &'a Principal,
        session_id: &'a SessionId,
        purpose: LeasePurpose,
        paths: &'a Vec<CanonicalPath>,
    },
    /// Give the lease back.
    Release(&'a LeaseId),
    /// Append to the version log.
    AppendLog {
        path: &'a CanonicalPath,
        blob_hash: &'a VersionToken,
        writer: &'a Principal,
        size: u64,
        event: VersionEvent,
        pre_image: Option<&'a PreImage>,
    },
    /// Append to the audit trail.
    Audit {
        principal: &'a Principal,
        session_id: &'a SessionId,
        path: &'a CanonicalPath,
        kind: AuditKind,
        from_version: Option<&'a VersionToken>,
        to_version: Option<&'a VersionToken>,
        detail: &'a String,
    },
    /// Have the coordinator note that this session read the version.
    RecordRead { session_id: &'a SessionId, path: &'a CanonicalPath, version: &'a VersionToken },
    /// Fetch the bytes of a version from history.
    GetBlob(&'a VersionToken),
    /// List a directory.
    List(&'a CanonicalPath),
    /// Ask for the time and size of a file.
    Stat(&'a CanonicalPath),
    /// Read a file without holding it.
    Read(&'a CanonicalPath),
    /// Ask the coordinator what it knows of a path.
    Resolve { path: &'a CanonicalPath, mtime: &'a Timestamp, size: u64 },
    /// Tell the coordinator which version a file of this time and size is.
    RefreshIndex { path: &'a CanonicalPath, version: &'a VersionToken, mtime: &'a Timestamp, size: u64 },
    /// Wait.
    Sleep { millis: u64 },
    /// Ask the coordinator about an interrupted write.
    RecoverJournal { path: &'a CanonicalPath, principal: &'a Principal, session_id: &'a SessionId },
    /// Ask the coordinator for the conflicts below a directory.
    ListConflicts(&'a CanonicalPath),
    /// Nothing: the operation is over.
    Nothing,
}

/// What came of an action.
pub enum Answer {
    /// Whether the path exists.
    Exists(bool),
    /// A call to the file system that returns nothing.
    Done(Result<(), IoFailure>),
    /// The contents of a file.
    Bytes(Result<Vec<u8>, IoFailure>),
    /// The file is closed.
    Closed,
    /// A call to the coordinator that returns nothing of use.
    Coord(Result<(), ChaprError>),
    /// The history of a path, and the time it was asked for.
    History { reply: Result<Vec<HistoryEntry>, ChaprError>, now: Timestamp },
    /// A lease.
    Lease(Result<LeaseId, ChaprError>),
    /// Bytes out of history.
    Blob(Result<Vec<u8>, ChaprError>),
    /// The entries of a directory.
    Listing(Result<Vec<RawDirEntry>, IoFailure>),
    /// The time and size of a file.
    Stat(Result<FileStat, IoFailure>),
    /// What the coordinator knows of a path.
    Resolved(Result<Resolved, ChaprError>),
    /// The wait is over.
    Slept,
    /// What is known of an interrupted write.
    Recovered(Result<RecoveredFrom, ChaprError>),
    /// The paths that open conflicts are about, one for each conflict.
    Conflicts(Result<Vec<CanonicalPath>, ChaprError>),
}

/// Whether what was asked was done.
pub open spec fn went_well(a: Answer) -> bool {
    match a {
        Answer::Exists(_) => true,
        Answer::Done(r) => r is Ok,
        Answer::Bytes(r) => r is Ok,
        Answer::Closed => true,
        Answer::Coord(r) => r is Ok,
        Answer::History { reply, now } => reply is Ok,
        Answer::Lease(r) => r is Ok,
        Answer::Blob(r) => r is Ok,
        Answer::Listing(r) => r is Ok,
        Answer::Stat(r) => r is Ok,
        Answer::Resolved(r) => r is Ok,
        Answer::Slept => true,
        Answer::Recovered(r) => r is Ok,
        Answer::Conflicts(r) => r is Ok,
    }
}

/// Whether `content` is the base64 text of `current`, broken into lines or not:
/// the mark of a caller that read a binary file and wrote the text of it back.
pub open spec fn is_transcript(content: Seq<u8>, current: Seq<u8>) -> bool {
    &&& !valid_utf8(current)
    &&& compacted(content).len() == base64_len(current.len())
    &&& base64_decoded(compacted(content)) == Ok::<Seq<u8>, Seq<char>>(current)
}

/// Whether `content` is the base64 text of `current`.
pub fn is_base64_transcript_of(content: &[u8], current: &[u8]) -> (r: bool)
    ensures
        r == is_transcript(content@, current@),
{
    let expected: u128 = (current.len() as u128 + 2) / 3 * 4;
    let packed = compact(content);
    if packed.len() as u128 != expected {
        return false;
    }
    if decoded(current).is_ok() {
        return false;
    }
    match decode(packed.as_slice()) {
        Ok(bytes) => same_bytes(bytes.as_slice(), current),
        Err(_) => false,
    }
}

/// The lock files to look for before a path is touched.
pub fn lock_paths(kind: BackendKind, path: &CanonicalPath) -> (r: Vec<CanonicalPath>)
    ensures
        r@.map_values(|p: CanonicalPath| p@) == grammar_of(kind).lock_texts(path@),
        r@.len() == grammar_of(kind).lock_texts(path@).len(),
{
    grammar_for(kind).human_lock_paths(path)
}

/// A conflict is put down to the newest entry of the history, which comes first,
/// whatever older entries follow it.
pub proof fn the_newest_entry_is_named(
    newest: HistoryEntry,
    older: Vec<HistoryEntry>,
    entries: Vec<HistoryEntry>,
    now: Timestamp,
    caller: Principal,
)
    requires
        entries@ == seq![newest] + older@,
    ensures
        attribution(Ok(entries), now, caller) == (newest.writer, newest.timestamp),
{
}

/// Without an entry to go by, a conflict is put down to the caller at the present.
pub proof fn without_history_the_caller_is_named(reply: Result<Vec<HistoryEntry>, ChaprError>, now: Timestamp, caller: Principal)
    requires
        reply matches Ok(entries) ==> entries@.len() == 0,
    ensures
        attribution(reply, now, caller) == (caller, now),
{
}

/// A failed call is told for what it was and about the path it was made on. A lock
/// that is held elsewhere and a Windows sharing violation are one to the caller, and
/// what is not known otherwise keeps its words.
pub proof fn failures_are_told_for_what_they_are(path: CanonicalPath, e: IoFailure)
    ensures
        e.kind == IoKind::NotFound <==> os_error(path, e) is NotFound,
        e.kind == IoKind::PermissionDenied <==> os_error(path, e) is PermissionDenied,
        e.kind == IoKind::AlreadyExists <==> os_error(path, e) is AlreadyExists,
        (e.kind == IoKind::WouldBlock || (e.kind == IoKind::Other && e.os_code == Some(32i32))) <==> os_error(path, e)
            is SharingViolation,
        match os_error(path, e) {
            ChaprError::NotFound { path: p } => p == path,
            ChaprError::PermissionDenied { path: p } => p == path,
            ChaprError::AlreadyExists { path: p } => p == path,
            ChaprError::SharingViolation { path: p } => p == path,
            ChaprError::Io { path: p, message } => p == path && message == e.message,
            _ => false,
        },
{
}

proof fn two_in_front_are_unc(s: Seq<char>, sep: char)
    ensures
        begins_with(s, seq![sep, sep]) <==> s.len() >= 2 && s[0] == sep && s[1] == sep,
{
    if s.len() >= 2 {
        assert(s.take(2)[0] == s[0] && s.take(2)[1] == s[1]);
        if s[0] == sep && s[1] == sep {
            assert(s.take(2) =~= seq![sep, sep]);
        }
    }
}

proof fn occurrences_add(a: Seq<char>, b: Seq<char>, c: char)
    ensures
        occurrences(a + b, c) == occurrences(a, c) + occurrences(b, c),
    decreases b.len(),
{
    if b.len() == 0 {
        assert(a + b =~= a);
    } else {
        assert((a + b).drop_last() =~= a + b.drop_last());
        assert((a + b).last() == b.last());
        occurrences_add(a, b.drop_last(), c);
    }
}

proof fn none_occur(s: Seq<char>, c: char)
    requires
        forall|i: int| 0 <= i < s.len() ==> s[i] != c,
    ensures
        occurrences(s, c) == 0,
    decreases s.len(),
{
    if s.len() > 0 {
        none_occur(s.drop_last(), c);
    }
}

/// What is below a directory has that directory for its parent, on a drive or a file
/// system; what is right below `/` has `/`.
pub proof fn a_parent_is_the_directory_above(dir: Seq<char>, name: Seq<char>, sep: char)
    requires
        forall|i: int| 0 <= i < name.len() ==> name[i] != sep,
        name.len() > 0,
        !(dir.len() >= 2 && dir[0] == sep && dir[1] == sep),
    ensures
        dir.len() > 0 && dir != seq![sep] ==> parent_text(dir + seq![sep] + name, sep) == Some(dir),
        parent_text(seq![sep] + name, sep) == Some(seq![sep]),
        parent_text(name, sep) is None,
        parent_text(seq![sep], sep) is None,
{
    let p = dir + seq![sep] + name;
    crate::pathgrammar::cut_of(dir + seq![sep], name, sep);
    two_in_front_are_unc(p, sep);
    if dir.len() > 0 && dir != seq![sep] {
        assert(p[0] == dir[0]);
        assert(p.take(dir.len() as int) =~= dir);
        if dir.len() == 1 {
            assert(dir =~= seq![dir[0]]);
        } else {
            assert(p[1] == dir[1]);
        }
    }
    let q = seq![sep] + name;
    crate::pathgrammar::cut_of(seq![sep], name, sep);
    two_in_front_are_unc(q, sep);
    assert(q[1] == name[0]);
    assert(Seq::<char>::empty() + name =~= name);
    crate::pathgrammar::cut_of(Seq::empty(), name, sep);
    two_in_front_are_unc(name, sep);
    two_in_front_are_unc(seq![sep], sep);
}

/// Below a share the parent is the directory above, up to the share itself; a share
/// and a server have none.
pub proof fn a_share_is_a_root(server: Seq<char>, share: Seq<char>, below: Seq<char>, name: Seq<char>, sep: char)
    requires
        forall|i: int| 0 <= i < server.len() ==> server[i] != sep,
        forall|i: int| 0 <= i < share.len() ==> share[i] != sep,
        forall|i: int| 0 <= i < name.len() ==> name[i] != sep,
        below.len() == 0 || below[0] == sep,
    ensures
        ({
            let root = seq![sep, sep] + server + seq![sep] + share;
            &&& parent_text(root, sep) is None
            &&& parent_text(seq![sep, sep] + server, sep) is None
            &&& parent_text(root + below + seq![sep] + name, sep) == Some(root + below)
        }),
{
    let two = seq![sep, sep];
    let root = two + server + seq![sep] + share;
    two_in_front_are_unc(root, sep);
    assert(root.skip(2) =~= server + seq![sep] + share);
    assert(seq![sep].drop_last() =~= Seq::<char>::empty());
    assert(occurrences(seq![sep].drop_last(), sep) == 0);
    assert(occurrences(seq![sep], sep) == 1);
    none_occur(server, sep);
    none_occur(share, sep);
    occurrences_add(server, seq![sep], sep);
    occurrences_add(server + seq![sep], share, sep);
    let host = two + server;
    two_in_front_are_unc(host, sep);
    assert(host.skip(2) =~= server);
    let dir = root + below;
    let p = dir + seq![sep] + name;
    two_in_front_are_unc(p, sep);
    crate::pathgrammar::cut_of(dir + seq![sep], name, sep);
    assert(p.take(dir.len() as int) =~= dir);
    assert(p.skip(2) =~= server + seq![sep] + share + below + seq![sep] + name);
    occurrences_add(server + seq![sep] + share, below, sep);
    occurrences_add(server + seq![sep] + share + below, seq![sep], sep);
    occurrences_add(server + seq![sep] + share + below + seq![sep], name, sep);
}

/// Only what decodes to exactly the bytes of the file is its base64 text, white space
/// aside, and readable files are never mistaken for binary ones.
pub proof fn a_transcript_decodes_to_the_file(content: Seq<u8>, current: Seq<u8>)
    ensures
        is_transcript(content, current) ==> base64_decoded(compacted(content)) == Ok::<Seq<u8>, Seq<char>>(current) && !valid_utf8(
            current,
        ),
        valid_utf8(current) ==> !is_transcript(content, current),
        !valid_utf8(current) && compacted(content).len() == (current.len() + 2) / 3 * 4 && base64_decoded(compacted(content)) == Ok::<
            Seq<u8>,
            Seq<char>,
        >(current) ==> is_transcript(content, current),
{
}

} // verus!
