//! What the endpoint and the coordinator speak about: paths, people, versions
//! and the ways an operation can end.
use vstd::prelude::*;

use crate::text::{decimal, decimal_text, join, joined, mentions, views};

verus! {

/// A path in the one spelling under which its coordination state is kept.
#[derive(Debug, PartialEq, Eq, PartialOrd, Ord, Hash)]
pub struct CanonicalPath(pub String);

/// The person an operation is carried out for.
#[derive(Debug, PartialEq, Eq, Hash)]
pub struct Principal(pub String);

/// One run of one endpoint.
#[derive(Debug, PartialEq, Eq, Hash)]
pub struct SessionId(pub String);

/// A lease that the coordinator granted.
#[derive(Debug, PartialEq, Eq, Hash)]
pub struct LeaseId(pub String);

/// A registered conflict.
#[derive(Debug, PartialEq, Eq, Hash)]
pub struct ConflictId(pub String);

/// The content hash that names one version of a file's bytes.
#[derive(Debug, PartialEq, Eq, Hash)]
pub struct VersionToken(pub String);

/// A moment in time, in the RFC 3339 form that the coordinator uses.
#[derive(Debug, PartialEq, Eq, Hash)]
pub struct Timestamp(pub String);

impl View for CanonicalPath {
    type V = Seq<char>;

    open spec fn view(&self) -> Seq<char> {
        self.0@
    }
}

impl View for Principal {
    type V = Seq<char>;

    open spec fn view(&self) -> Seq<char> {
        self.0@
    }
}

impl View for SessionId {
    type V = Seq<char>;

    open spec fn view(&self) -> Seq<char> {
        self.0@
    }
}

impl View for LeaseId {
    type V = Seq<char>;

    open spec fn view(&self) -> Seq<char> {
        self.0@
    }
}

impl View for ConflictId {
    type V = Seq<char>;

    open spec fn view(&self) -> Seq<char> {
        self.0@
    }
}

impl View for VersionToken {
    type V = Seq<char>;

    open spec fn view(&self) -> Seq<char> {
        self.0@
    }
}

impl View for Timestamp {
    type V = Seq<char>;

    open spec fn view(&self) -> Seq<char> {
        self.0@
    }
}

impl Clone for CanonicalPath {
    fn clone(&self) -> (r: Self)
        ensures
            r == *self,
    {
        CanonicalPath(self.0.clone())
    }
}

impl Clone for Principal {
    fn clone(&self) -> (r: Self)
        ensures
            r == *self,
    {
        Principal(self.0.clone())
    }
}

impl Clone for SessionId {
    fn clone(&self) -> (r: Self)
        ensures
            r == *self,
    {
        SessionId(self.0.clone())
    }
}

impl Clone for LeaseId {
    fn clone(&self) -> (r: Self)
        ensures
            r == *self,
    {
        LeaseId(self.0.clone())
    }
}

impl Clone for ConflictId {
    fn clone(&self) -> (r: Self)
        ensures
            r == *self,
    {
        ConflictId(self.0.clone())
    }
}

impl Clone for VersionToken {
    fn clone(&self) -> (r: Self)
        ensures
            r == *self,
    {
        VersionToken(self.0.clone())
    }
}

impl Clone for Timestamp {
    fn clone(&self) -> (r: Self)
        ensures
            r == *self,
    {
        Timestamp(self.0.clone())
    }
}

impl CanonicalPath {
    /// Takes a text that is already in canonical form.
    pub fn new_unchecked(text: String) -> (r: Self)
        ensures
            r.0 == text,
    {
        CanonicalPath(text)
    }

    /// The path as text.
    pub fn as_str(&self) -> (r: &str)
        ensures
            r@ == self@,
    {
        self.0.as_str()
    }

    /// Whether two paths are spelled alike.
    pub fn same(&self, other: &CanonicalPath) -> (r: bool)
        ensures
            r == (self@ == other@),
    {
        self.0 == other.0
    }
}

impl Principal {
    /// Takes a name as it is.
    pub fn new_unchecked(text: String) -> (r: Self)
        ensures
            r.0 == text,
    {
        Principal(text)
    }

    /// The name as text.
    pub fn as_str(&self) -> (r: &str)
        ensures
            r@ == self@,
    {
        self.0.as_str()
    }
}

impl SessionId {
    /// Takes an identifier as it is.
    pub fn new_unchecked(text: String) -> (r: Self)
        ensures
            r.0 == text,
    {
        SessionId(text)
    }
}

impl LeaseId {
    /// Takes an identifier as it is.
    pub fn new_unchecked(text: String) -> (r: Self)
        ensures
            r.0 == text,
    {
        LeaseId(text)
    }

    /// Whether two identifiers are the same.
    pub fn same(&self, other: &LeaseId) -> (r: bool)
        ensures
            r == (self@ == other@),
    {
        self.0 == other.0
    }
}

/// The BLAKE3 hash of some bytes, as lower-case hexadecimal.
pub uninterp spec fn blake3_text(bytes: Seq<u8>) -> Seq<char>;

/// `blake3::hash`, printed by `Hash::to_hex`: 64 lower-case hexadecimal digits
/// that depend on the bytes alone.
#[verifier::external_body]
fn blake3_hex(bytes: &[u8]) -> (r: String)
    ensures
        r@ == blake3_text(bytes@),
        r@.len() == 64,
        forall|i: int| 0 <= i < 64 ==> is_lower_hex(#[trigger] r@[i]),
{
    blake3::hash(bytes).to_hex().to_string()
}

/// A digit of a version token.
pub open spec fn is_lower_hex(c: char) -> bool {
    '0' <= c <= '9' || 'a' <= c <= 'f'
}

/// The shape of a version token: 64 lower-case hexadecimal digits.
pub open spec fn is_token_text(s: Seq<char>) -> bool {
    s.len() == 64 && forall|i: int| 0 <= i < s.len() ==> is_lower_hex(#[trigger] s[i])
}

impl VersionToken {
    /// The version that some bytes are.
    pub fn hash(bytes: &[u8]) -> (r: VersionToken)
        ensures
            r@ == blake3_text(bytes@),
            is_token_text(r@),
    {
        VersionToken(blake3_hex(bytes))
    }

    /// The token that a text spells, if it has the shape of one.
    pub fn from_hex(text: String) -> (r: Option<VersionToken>)
        ensures
            r == if is_token_text(text@) {
                Some(VersionToken(text))
            } else {
                None::<VersionToken>
            },
    {
        let v = crate::text::chars_of(text.as_str());
        if v.len() != 64 {
            return None;
        }
        let mut i: usize = 0;
        while i < v.len()
            invariant
                v@ == text@,
                i <= v@.len(),
                v@.len() == 64,
                forall|k: int| 0 <= k < i ==> is_lower_hex(#[trigger] v@[k]),
            decreases v@.len() - i,
        {
            let c = v[i];
            if !(('0' <= c && c <= '9') || ('a' <= c && c <= 'f')) {
                assert(!is_lower_hex(text@[i as int]));
                return None;
            }
            i = i + 1;
        }
        Some(VersionToken(text))
    }

    /// The token as text.
    pub fn as_str(&self) -> (r: &str)
        ensures
            r@ == self@,
    {
        self.0.as_str()
    }

    /// Whether two tokens name the same version.
    pub fn same(&self, other: &VersionToken) -> (r: bool)
        ensures
            r == (self@ == other@),
    {
        self.0 == other.0
    }
}

/// The kind of fileserver that an endpoint drives.
#[derive(Clone, Copy, Debug, PartialEq, Eq, Structural)]
pub enum BackendKind {
    /// A Windows share.
    Smb,
    /// A POSIX file system.
    Posix,
}

impl Default for BackendKind {
    fn default() -> (r: BackendKind)
        ensures
            r == BackendKind::Smb,
    {
        BackendKind::Smb
    }
}

impl BackendKind {
    /// The name a setting gives the kind by.
    pub open spec fn name_text(self) -> Seq<char> {
        match self {
            BackendKind::Smb => "smb"@,
            BackendKind::Posix => "posix"@,
        }
    }

    /// The name a setting gives the kind by.
    pub fn name(self) -> (r: &'static str)
        ensures
            r@ == self.name_text(),
    {
        match self {
            BackendKind::Smb => "smb",
            BackendKind::Posix => "posix",
        }
    }

    /// The kind that a setting names.
    pub fn named(text: &str) -> (r: Option<BackendKind>)
        ensures
            r == if text@ == BackendKind::Smb.name_text() {
                Some(BackendKind::Smb)
            } else if text@ == BackendKind::Posix.name_text() {
                Some(BackendKind::Posix)
            } else {
                None::<BackendKind>
            },
    {
        if crate::text::same(text, "smb") {
            Some(BackendKind::Smb)
        } else if crate::text::same(text, "posix") {
            Some(BackendKind::Posix)
        } else {
            None
        }
    }
}

/// What the coordinator announces about the fileserver.
#[derive(Clone, Copy, Debug, PartialEq, Eq, Structural)]
pub struct BackendDescriptor {
    /// The kind of fileserver it believes the share to be on.
    pub kind: BackendKind,
}

/// How a write treats a file that changed since it was read.
#[derive(Debug, PartialEq, Eq)]
pub enum WriteMode {
    /// Refuse: the file must still be at the base version.
    Cas,
    /// Write anyway, for a reason that goes into the audit trail.
    Force {
        /// Why the check was set aside.
        reason: String,
    },
}

/// What a restore in place expects to find at its target.
#[derive(Debug, PartialEq, Eq)]
pub enum RestoreBase {
    /// The file, at this version.
    Version(VersionToken),
    /// No file.
    Absent,
}

/// Where a restore puts the old contents.
#[derive(Clone, Copy, Debug, PartialEq, Eq, Structural)]
pub enum RestoreMode {
    /// Into a new file beside the live one.
    Copy,
    /// Over the live file.
    InPlace,
}

/// The bytes that an overwriting move destroyed, as stored in history.
#[derive(Debug, PartialEq, Eq)]
pub struct PreImage {
    /// Their version.
    pub version: VersionToken,
    /// How many there are.
    pub size: u64,
}

impl Clone for PreImage {
    fn clone(&self) -> (r: Self)
        ensures
            r == *self,
    {
        PreImage { version: self.version.clone(), size: self.size }
    }
}

/// How badly a diagnostic matters.
#[derive(Clone, Copy, Debug, PartialEq, Eq, Structural)]
pub enum Severity {
    /// Worth knowing.
    Info,
    /// Something does not work as it should.
    Warning,
    /// Something is broken.
    Error,
}

/// What a lease is taken for.
#[derive(Clone, Copy, Debug, PartialEq, Eq, Structural)]
pub enum LeasePurpose {
    /// A write over a file.
    Write,
    /// A new file.
    Create,
    /// A removal.
    Delete,
    /// A restore in place.
    Restore,
    /// A move.
    Move,
}

/// What an audit entry is about.
#[derive(Clone, Copy, Debug, PartialEq, Eq, Structural)]
pub enum AuditKind {
    /// A change that went through.
    WriteCommit,
    /// A restore.
    Restore,
    /// A new directory.
    DirCreate,
    /// Contents served from history after an interrupted write.
    CrashRecover,
    /// A request that was turned down.
    Refused,
}

/// What a version log entry records.
#[derive(Clone, Copy, Debug, PartialEq, Eq, Structural)]
pub enum VersionEvent {
    /// A new file.
    Create,
    /// A write.
    Write,
    /// A write past the version check.
    WriteForced,
    /// A removal.
    Delete,
    /// A restore.
    Restore,
}

/// What a directory entry is.
#[derive(Clone, Copy, Debug, PartialEq, Eq, Structural)]
pub enum EntryType {
    /// A file.
    File,
    /// A directory.
    Dir,
}

/// One entry of a directory, as the file system gives it.
#[derive(Debug, PartialEq, Eq)]
pub struct RawDirEntry {
    /// Its name.
    pub name: String,
    /// What it is.
    pub entry_type: EntryType,
    /// Its size in bytes.
    pub size: u64,
    /// When it last changed.
    pub mtime: Timestamp,
}

/// What the file system says of a file.
#[derive(Debug, PartialEq, Eq)]
pub struct FileStat {
    /// When it last changed.
    pub mtime: Timestamp,
    /// Its size in bytes.
    pub size: u64,
}

/// Whether a write to a path is under way.
#[derive(Clone, Copy, Debug, PartialEq, Eq, Structural)]
pub enum JournalState {
    /// No.
    Clean,
    /// Yes, and its writer is alive.
    Live,
    /// One was begun and its writer is gone.
    Dangling,
}

/// Who holds a path.
#[derive(Debug, PartialEq, Eq)]
pub struct LeaseState {
    /// The holder.
    pub holder: Principal,
    /// Until when.
    pub expires_at: Timestamp,
}

/// What the coordinator knows of a path.
#[derive(Debug, PartialEq, Eq)]
pub struct Resolved {
    /// Whether a write is under way.
    pub journal_state: JournalState,
    /// The version on record for the file's time and size.
    pub cached_version: Option<VersionToken>,
    /// How many conflicts on it are open.
    pub open_conflicts: Option<u32>,
    /// The kind of fileserver it takes the share to be on.
    pub backend: Option<BackendDescriptor>,
    /// Who holds it.
    pub lease_state: Option<LeaseState>,
}

/// Where the contents served after an interrupted write come from.
#[derive(Debug, PartialEq, Eq)]
pub struct RecoveredFrom {
    /// The version from before the write.
    pub version: VersionToken,
    /// Who was writing.
    pub interrupted_writer: Principal,
    /// When.
    pub at: Timestamp,
    /// The version that the write was to leave, if it was to leave any.
    pub intended_version: Option<VersionToken>,
}

/// The ways an operation can fail.
#[derive(Debug, PartialEq, Eq)]
pub enum ChaprError {
    /// There is nothing at the path.
    NotFound { path: CanonicalPath },
    /// Something is at the path already.
    AlreadyExists { path: CanonicalPath },
    /// The directory that should hold the path does not exist.
    ParentMissing { path: CanonicalPath, parent: CanonicalPath },
    /// A directory of nearly the same name exists.
    NearDuplicateName { path: CanonicalPath, similar: Vec<String> },
    /// The path is a directory where a file was meant.
    IsADirectory { path: CanonicalPath },
    /// The acting user may not do this to the path.
    PermissionDenied { path: CanonicalPath },
    /// The text names no usable path.
    InvalidPath { raw: String, reason: String },
    /// The path resolves to a place outside the coordinated roots.
    OutsideRoot { raw: String, resolved: String, roots: Vec<String>, provenance: String },
    /// Another process holds the file open.
    SharingViolation { path: CanonicalPath },
    /// A person has the document open.
    OfficeLockPresent { path: CanonicalPath, lock_file: CanonicalPath },
    /// The file is not the version that the caller read.
    Conflict {
        base_path: CanonicalPath,
        current_version: VersionToken,
        last_writer: Principal,
        when: Timestamp,
        sidecar_path: Option<CanonicalPath>,
    },
    /// The base version was never read in this session.
    BaseVersionNotRecorded { path: CanonicalPath, version: VersionToken },
    /// The operation needs a base version and was given none.
    BaseVersionRequired { path: CanonicalPath },
    /// A forced write came without a reason.
    ForceRequiresReason { path: CanonicalPath },
    /// History holds no such version.
    VersionNotFound { path: CanonicalPath, version: VersionToken },
    /// There is no such conflict.
    ConflictNotFound { conflict_id: ConflictId },
    /// Another session holds a lease on the paths.
    LeaseHeld { holder: Principal, paths: Vec<CanonicalPath> },
    /// The lease is unknown to the coordinator.
    LeaseNotFound { lease_id: LeaseId },
    /// The lease ran out.
    LeaseExpired { lease_id: LeaseId },
    /// The lease could not be kept alive.
    LeaseLost { lease_id: LeaseId },
    /// The lease reached the longest life the coordinator allows.
    MaxLeaseLifetimeExceeded { lease_id: LeaseId, hard_expiry: Timestamp },
    /// The path stayed busy for as long as it was worth waiting.
    RetryBudgetExhausted { path: CanonicalPath, attempts: u32 },
    /// An interrupted write left nothing to recover from.
    RecoveryFailed { path: CanonicalPath, missing_version: VersionToken },
    /// The change is on the share, and the coordinator's record of it is not.
    CommittedButUnrecorded { path: CanonicalPath, version: VersionToken, message: String },
    /// The coordinator does not answer.
    CoordUnreachable,
    /// The operating system refused.
    Io { path: CanonicalPath, message: String },
    /// Something that should not happen.
    Internal { message: String },
}

impl ChaprError {
    /// The sentence that tells what happened.
    pub open spec fn text(self) -> Seq<char> {
        match self {
            ChaprError::NotFound { path } => "not found: "@ + path@,
            ChaprError::AlreadyExists { path } => "already exists: "@ + path@,
            ChaprError::ParentMissing { path, parent } => "cannot create "@ + path@
                + ": the directory "@ + parent@
                + " does not exist, and directories are never created implicitly (use chapr_mkdir)"@,
            ChaprError::NearDuplicateName { path, similar } => "refusing to create "@ + path@
                + ": a similar name already exists ("@ + joined(views(similar@), ", "@) + ")"@,
            ChaprError::IsADirectory { path } => "is a directory: "@ + path@,
            ChaprError::PermissionDenied { path } => "permission denied: "@ + path@,
            ChaprError::InvalidPath { raw, reason } => "invalid path "@ + raw@ + ": "@ + reason@,
            ChaprError::OutsideRoot { raw, resolved, roots, provenance } => "outside the coordinated root: "@
                + raw@ + " resolves to "@ + resolved@ + ", and the root(s) are "@ + joined(views(roots@), ", "@) + " ("@
                + provenance@ + ")"@,
            ChaprError::SharingViolation { path } => "sharing violation: "@ + path@,
            ChaprError::OfficeLockPresent { path, lock_file } => "a person has "@ + path@
                + " open (lock file "@ + lock_file@ + ")"@,
            ChaprError::Conflict { base_path, current_version, last_writer, when, sidecar_path } =>
                match sidecar_path {
                    Some(sidecar) => "conflict on "@ + base_path@ + ": the current version is "@
                        + current_version@ + ", last written by "@ + last_writer@ + " at "@ + when@
                        + "; the losing contents are at "@ + sidecar@,
                    None => "conflict on "@ + base_path@ + ": the current version is "@
                        + current_version@ + ", last written by "@ + last_writer@ + " at "@ + when@,
                },
            ChaprError::BaseVersionNotRecorded { path, version } => "version "@ + version@ + " of "@
                + path@ + " was never read in this session"@,
            ChaprError::BaseVersionRequired { path } => "a base version is required for "@ + path@,
            ChaprError::ForceRequiresReason { path } => "a forced write of "@ + path@
                + " requires a reason"@,
            ChaprError::VersionNotFound { path, version } => "version "@ + version@ + " of "@ + path@
                + " is not in history"@,
            ChaprError::ConflictNotFound { conflict_id } => "no such conflict: "@ + conflict_id@,
            ChaprError::LeaseHeld { holder, paths } => "lease held by "@ + holder@,
            ChaprError::LeaseNotFound { lease_id } => "no such lease: "@ + lease_id@,
            ChaprError::LeaseExpired { lease_id } => "lease expired: "@ + lease_id@,
            ChaprError::LeaseLost { lease_id } => "lease lost: "@ + lease_id@,
            ChaprError::MaxLeaseLifetimeExceeded { lease_id, hard_expiry } => "lease "@ + lease_id@
                + " reached its maximum lifetime at "@ + hard_expiry@,
            ChaprError::RetryBudgetExhausted { path, attempts } => path@ + " was still busy after "@
                + decimal_text(attempts as nat) + " attempts"@,
            ChaprError::RecoveryFailed { path, missing_version } => "cannot recover "@ + path@
                + ": version "@ + missing_version@ + " is missing from history"@,
            ChaprError::CommittedButUnrecorded { path, version, message } => "the change to "@ + path@
                + " is committed as version "@ + version@ + " but not recorded: "@ + message@,
            ChaprError::CoordUnreachable => "the coordinator is unreachable"@,
            ChaprError::Io { path, message } => "i/o error on "@ + path@ + ": "@ + message@,
            ChaprError::Internal { message } => "internal error: "@ + message@,
        }
    }

    /// The sentence that tells what happened.
    pub fn message(&self) -> (r: String)
        ensures
            r@ == self.text(),
    {
        proof {
            reveal_strlit("");
        }
        match self {
            ChaprError::NotFound { path } => said("not found: ", path.as_str(), "", ""),
            ChaprError::AlreadyExists { path } => said("already exists: ", path.as_str(), "", ""),
            ChaprError::ParentMissing { path, parent } => {
                let mut s = said("cannot create ", path.as_str(), ": the directory ", parent.as_str());
                s.append(" does not exist, and directories are never created implicitly (use chapr_mkdir)");
                s
            },
            ChaprError::NearDuplicateName { path, similar } => {
                let list = join(similar.as_slice(), ", ");
                let mut s = said("refusing to create ", path.as_str(), ": a similar name already exists (", list.as_str());
                s.append(")");
                s
            },
            ChaprError::IsADirectory { path } => said("is a directory: ", path.as_str(), "", ""),
            ChaprError::PermissionDenied { path } => said("permission denied: ", path.as_str(), "", ""),
            ChaprError::InvalidPath { raw, reason } => said("invalid path ", raw.as_str(), ": ", reason.as_str()),
            ChaprError::OutsideRoot { raw, resolved, roots, provenance } => {
                let mut s = said("outside the coordinated root: ", raw.as_str(), " resolves to ", resolved.as_str());
                s.append(", and the root(s) are ");
                s.append(join(roots.as_slice(), ", ").as_str());
                s.append(" (");
                s.append(provenance.as_str());
                s.append(")");
                s
            },
            ChaprError::SharingViolation { path } => said("sharing violation: ", path.as_str(), "", ""),
            ChaprError::OfficeLockPresent { path, lock_file } => {
                let mut s = said("a person has ", path.as_str(), " open (lock file ", lock_file.as_str());
                s.append(")");
                s
            },
            ChaprError::Conflict { base_path, current_version, last_writer, when, sidecar_path } => {
                let mut s = said("conflict on ", base_path.as_str(), ": the current version is ", current_version.as_str());
                s.append(", last written by ");
                s.append(last_writer.as_str());
                s.append(" at ");
                s.append(when.0.as_str());
                if let Some(sidecar) = sidecar_path {
                    s.append("; the losing contents are at ");
                    s.append(sidecar.as_str());
                }
                s
            },
            ChaprError::BaseVersionNotRecorded { path, version } => {
                let mut s = said("version ", version.as_str(), " of ", path.as_str());
                s.append(" was never read in this session");
                s
            },
            ChaprError::BaseVersionRequired { path } => said("a base version is required for ", path.as_str(), "", ""),
            ChaprError::ForceRequiresReason { path } => said("a forced write of ", path.as_str(), " requires a reason", ""),
            ChaprError::VersionNotFound { path, version } => {
                let mut s = said("version ", version.as_str(), " of ", path.as_str());
                s.append(" is not in history");
                s
            },
            ChaprError::ConflictNotFound { conflict_id } => said("no such conflict: ", conflict_id.0.as_str(), "", ""),
            ChaprError::LeaseHeld { holder, paths: _ } => said("lease held by ", holder.as_str(), "", ""),
            ChaprError::LeaseNotFound { lease_id } => said("no such lease: ", lease_id.0.as_str(), "", ""),
            ChaprError::LeaseExpired { lease_id } => said("lease expired: ", lease_id.0.as_str(), "", ""),
            ChaprError::LeaseLost { lease_id } => said("lease lost: ", lease_id.0.as_str(), "", ""),
            ChaprError::MaxLeaseLifetimeExceeded { lease_id, hard_expiry } => said(
                "lease ", lease_id.0.as_str(), " reached its maximum lifetime at ", hard_expiry.0.as_str(),
            ),
            ChaprError::RetryBudgetExhausted { path, attempts } => {
                let n = decimal(*attempts as u64);
                said(path.as_str(), " was still busy after ", n.as_str(), " attempts")
            },
            ChaprError::RecoveryFailed { path, missing_version } => {
                let mut s = said("cannot recover ", path.as_str(), ": version ", missing_version.as_str());
                s.append(" is missing from history");
                s
            },
            ChaprError::CommittedButUnrecorded { path, version, message } => {
                let mut s = said("the change to ", path.as_str(), " is committed as version ", version.as_str());
                s.append(" but not recorded: ");
                s.append(message.as_str());
                s
            },
            ChaprError::CoordUnreachable => "the coordinator is unreachable".to_owned(),
            ChaprError::Io { path, message } => said("i/o error on ", path.as_str(), ": ", message.as_str()),
            ChaprError::Internal { message } => said("internal error: ", message.as_str(), "", ""),
        }
    }
}

/// Four texts in a row.
pub(crate) fn said(a: &str, b: &str, c: &str, d: &str) -> (r: String)
    ensures
        r@ == a@ + b@ + c@ + d@,
        d@.len() == 0 ==> r@ == a@ + b@ + c@,
        c@.len() == 0 && d@.len() == 0 ==> r@ == a@ + b@,
{
    let mut s = a.to_owned();
    s.append(b);
    s.append(c);
    s.append(d);
    proof {
        if d@.len() == 0 {
            assert(s@ =~= a@ + b@ + c@);
            if c@.len() == 0 {
                assert(s@ =~= a@ + b@);
            }
        }
    }
    s
}

/// A version token is sixty-four hexadecimal digits in lower case, and nothing else is one.
pub proof fn a_token_is_sixty_four_digits(s: Seq<char>)
    ensures
        is_token_text(s) <==> s.len() == 64 && forall|i: int|
            0 <= i < s.len() ==> '0' <= #[trigger] s[i] <= '9' || 'a' <= s[i] <= 'f',
{
    if s.len() == 64 && forall|i: int| 0 <= i < s.len() ==> '0' <= #[trigger] s[i] <= '9' || 'a' <= s[i] <= 'f' {
        assert forall|i: int| 0 <= i < s.len() implies is_lower_hex(#[trigger] s[i]) by {
            assert('0' <= s[i] <= '9' || 'a' <= s[i] <= 'f');
        }
    }
    if is_token_text(s) {
        assert forall|i: int| 0 <= i < s.len() implies '0' <= #[trigger] s[i] <= '9' || 'a' <= s[i] <= 'f' by {
            assert(is_lower_hex(s[i]));
        }
    }
}

/// A conflict is told with the file, the version that is there, who wrote it and when, and
/// where the losing contents are.
pub proof fn a_conflict_is_told_with_everything(
    base_path: CanonicalPath,
    current_version: VersionToken,
    last_writer: Principal,
    when: Timestamp,
    sidecar: CanonicalPath,
    parked: bool,
)
    ensures
        ({
            let e = ChaprError::Conflict {
                base_path,
                current_version,
                last_writer,
                when,
                sidecar_path: if parked {
                    Some(sidecar)
                } else {
                    None
                },
            };
            &&& mentions(e.text(), base_path@)
            &&& mentions(e.text(), current_version@)
            &&& mentions(e.text(), last_writer@)
            &&& mentions(e.text(), when@)
            &&& parked ==> mentions(e.text(), sidecar@)
        }),
{
    let e = ChaprError::Conflict {
        base_path,
        current_version,
        last_writer,
        when,
        sidecar_path: if parked {
            Some(sidecar)
        } else {
            None
        },
    };
    let a = "conflict on "@;
    let b = ": the current version is "@;
    let c = ", last written by "@;
    let d = " at "@;
    let tail = if parked { "; the losing contents are at "@ + sidecar@ } else { Seq::empty() };
    let t = e.text();
    assert(t =~= a + base_path@ + (b + current_version@ + c + last_writer@ + d + when@ + tail));
    assert(t =~= (a + base_path@ + b) + current_version@ + (c + last_writer@ + d + when@ + tail));
    assert(t =~= (a + base_path@ + b + current_version@ + c) + last_writer@ + (d + when@ + tail));
    assert(t =~= (a + base_path@ + b + current_version@ + c + last_writer@ + d) + when@ + tail);
    if parked {
        let front = a + base_path@ + b + current_version@ + c + last_writer@ + d + when@ + "; the losing contents are at "@;
        assert(t =~= front + sidecar@ + Seq::<char>::empty());
    }
}

/// A refusal about a file tells which file.
pub proof fn a_refusal_tells_the_file(e: ChaprError, path: CanonicalPath)
    requires
        match e {
            ChaprError::NotFound { path: p } => p == path,
            ChaprError::AlreadyExists { path: p } => p == path,
            ChaprError::PermissionDenied { path: p } => p == path,
            ChaprError::SharingViolation { path: p } => p == path,
            ChaprError::IsADirectory { path: p } => p == path,
            ChaprError::OfficeLockPresent { path: p, .. } => p == path,
            ChaprError::BaseVersionRequired { path: p } => p == path,
            ChaprError::ForceRequiresReason { path: p } => p == path,
            ChaprError::CommittedButUnrecorded { path: p, .. } => p == path,
            ChaprError::Io { path: p, .. } => p == path,
            _ => false,
        },
    ensures
        mentions(e.text(), path@),
{
    let t = e.text();
    let none = Seq::<char>::empty();
    match e {
        ChaprError::NotFound { .. } => assert(t =~= "not found: "@ + path@ + none),
        ChaprError::AlreadyExists { .. } => assert(t =~= "already exists: "@ + path@ + none),
        ChaprError::PermissionDenied { .. } => assert(t =~= "permission denied: "@ + path@ + none),
        ChaprError::SharingViolation { .. } => assert(t =~= "sharing violation: "@ + path@ + none),
        ChaprError::IsADirectory { .. } => assert(t =~= "is a directory: "@ + path@ + none),
        ChaprError::OfficeLockPresent { lock_file, .. } => {
            assert(t =~= "a person has "@ + path@ + (" open (lock file "@ + lock_file@ + ")"@));
        },
        ChaprError::BaseVersionRequired { .. } => assert(t =~= "a base version is required for "@ + path@ + none),
        ChaprError::ForceRequiresReason { .. } => assert(t =~= "a forced write of "@ + path@ + " requires a reason"@),
        ChaprError::CommittedButUnrecorded { version, message, .. } => {
            assert(t =~= "the change to "@ + path@ + (" is committed as version "@ + version@ + " but not recorded: "@ + message@));
        },
        ChaprError::Io { message, .. } => assert(t =~= "i/o error on "@ + path@ + (": "@ + message@)),
        _ => {},
    }
}

/// Each kind of fileserver goes by its own name in a setting.
pub proof fn kinds_go_by_their_names(kind: BackendKind)
    ensures
        kind == BackendKind::Smb ==> kind.name_text() == "smb"@,
        kind == BackendKind::Posix ==> kind.name_text() == "posix"@,
{
}

} // verus!
