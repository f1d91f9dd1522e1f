//! Reading: contents with the version they are, and how far that can be
//! trusted.
//!
//! A file that nobody is writing is served as it is. One that is being written
//! is waited for, briefly. One whose writer died half way is served from
//! history, unless the write turns out to have gone through. Without the
//! coordinator a file is still served, and marked as unverified.
use vstd::prelude::*;

use crate::backend::{map_os_err, os_error, select_backend, Action, Answer};
use crate::canon::{canonicalize_in, may_canonicalize};
use crate::mount::MountTable;
use crate::pathgrammar::{a_child_is_one_name_below, child_text, grammar_for, grammar_of, join, PathGrammar};
use crate::proto::{
    blake3_text, AuditKind, BackendKind, CanonicalPath, ChaprError, FileStat, JournalState, LeaseState, Principal,
    RawDirEntry, RecoveredFrom, Resolved, SessionId, Timestamp, VersionToken,
};
use crate::text::own;

verus! {

/// How long a read waits for a write that is under way.
#[derive(Clone, Copy, Debug, PartialEq, Eq, Structural)]
pub struct ReadConfig {
    /// How many times it looks again.
    pub live_wait_attempts: u32,
    /// How long it waits before each, in milliseconds.
    pub live_wait_interval_ms: u64,
}

impl Default for ReadConfig {
    fn default() -> (r: ReadConfig)
        ensures
            r == (ReadConfig { live_wait_attempts: 3, live_wait_interval_ms: 200 }),
    {
        ReadConfig { live_wait_attempts: 3, live_wait_interval_ms: 200 }
    }
}

/// How far the contents of a read can be trusted.
#[derive(Clone, Copy, Debug, PartialEq, Eq, Structural)]
pub enum Integrity {
    /// They are the version named.
    Verified,
    /// They are from before an interrupted write.
    Recovered,
    /// Nobody could be asked.
    Unverified,
}

impl Integrity {
    /// The word for it.
    pub open spec fn name_text(self) -> Seq<char> {
        match self {
            Integrity::Verified => "Verified"@,
            Integrity::Recovered => "Recovered"@,
            Integrity::Unverified => "Unverified"@,
        }
    }

    /// The word for it.
    pub fn name(self) -> (r: &'static str)
        ensures
            r@ == self.name_text(),
    {
        match self {
            Integrity::Verified => "Verified",
            Integrity::Recovered => "Recovered",
            Integrity::Unverified => "Unverified",
        }
    }
}

/// What a read hands over.
#[derive(Debug, PartialEq, Eq)]
pub enum ReadContent {
    /// The bytes.
    Inline { bytes: Vec<u8> },
    /// Where they can be had.
    Ref { content_ref: String },
}

/// What a read comes to.
#[derive(Debug, PartialEq, Eq)]
pub struct ReadResponse {
    /// The contents.
    pub content: ReadContent,
    /// Their version, where it is known.
    pub version: Option<VersionToken>,
    /// How far they can be trusted.
    pub integrity: Integrity,
    /// Where recovered contents come from.
    pub recovered_from: Option<RecoveredFrom>,
    /// How many conflicts on the file are open.
    pub open_conflicts: Option<u32>,
}

/// A response with contents of a known version.
pub open spec fn verified(bytes: Vec<u8>, version: VersionToken, open: Option<u32>) -> ReadResponse {
    ReadResponse {
        content: ReadContent::Inline { bytes },
        version: Some(version),
        integrity: Integrity::Verified,
        recovered_from: None,
        open_conflicts: open,
    }
}

/// A response with the contents from before an interrupted write.
pub open spec fn recovered_response(bytes: Vec<u8>, recovered: RecoveredFrom, open: Option<u32>) -> ReadResponse {
    ReadResponse {
        content: ReadContent::Inline { bytes },
        version: Some(recovered.version),
        integrity: Integrity::Recovered,
        recovered_from: Some(recovered),
        open_conflicts: open,
    }
}

/// A response with contents that nobody vouches for.
pub open spec fn unverified(bytes: Vec<u8>) -> ReadResponse {
    ReadResponse {
        content: ReadContent::Inline { bytes },
        version: None,
        integrity: Integrity::Unverified,
        recovered_from: None,
        open_conflicts: None,
    }
}

/// Where a read stands: what it has asked for and not yet been told.
pub enum ReadPhase {
    /// The time and size of the file.
    Statting,
    /// What the coordinator knows of it.
    Resolving { stat: FileStat },
    /// The contents of a file that nobody is writing.
    CleanReading { stat: FileStat, cached: Option<VersionToken>, open: Option<u32> },
    /// The version told to the coordinator.
    Refreshing { stat: FileStat, version: VersionToken, bytes: Vec<u8>, open: Option<u32> },
    /// The end of a wait, `left` more looks being allowed.
    Waiting { left: u32 },
    /// The time and size of the file, after a wait.
    LiveStatting { left: u32 },
    /// What the coordinator knows of it, after a wait.
    LiveResolving { left: u32, stat: FileStat },
    /// What is known of the interrupted write.
    Recovering { open: Option<u32> },
    /// What the interrupted write left on the share.
    DiskReading { recovered: RecoveredFrom, open: Option<u32> },
    /// The note of a write that went through after all forgotten.
    Clearing { version: VersionToken, bytes: Vec<u8>, open: Option<u32> },
    /// The contents from before the write.
    Fetching { recovered: RecoveredFrom, open: Option<u32> },
    /// The audit trail.
    Auditing { recovered: RecoveredFrom, bytes: Vec<u8>, open: Option<u32>, detail: String },
    /// The contents, the coordinator being out of reach.
    Degrading,
    /// That this session read the version.
    Recording { response: ReadResponse, version: VersionToken },
    /// Nothing more.
    Finished(Result<ReadResponse, ChaprError>),
}

/// A read on its way.
pub struct Read {
    /// How long to wait for a write.
    pub cfg: ReadConfig,
    /// Who reads.
    pub principal: Principal,
    /// In which session.
    pub session_id: SessionId,
    /// The file.
    pub path: CanonicalPath,
    /// Where the read stands.
    pub phase: ReadPhase,
}

/// What is left to do with a response: have a known version recorded as read.
pub open spec fn serves(response: ReadResponse, p: ReadPhase) -> bool {
    match response.version {
        Some(version) => p == (ReadPhase::Recording { response, version }),
        None => p == ReadPhase::Finished(Ok(response)),
    }
}

fn serve(response: ReadResponse) -> (p: ReadPhase)
    ensures
        serves(response, p),
{
    let version = match &response.version {
        Some(v) => v.clone(),
        None => return ReadPhase::Finished(Ok(response)),
    };
    ReadPhase::Recording { response, version }
}

pub open spec fn recovery_detail(writer: Seq<char>) -> Seq<char> {
    "served pre-image after interrupted write by "@ + writer
}

/// Whether an interrupted write left what it was to leave.
pub open spec fn went_through(recovered: RecoveredFrom, on_disk: Seq<u8>) -> bool {
    recovered.intended_version matches Some(v) && v@ == blake3_text(on_disk)
}

impl Read {
    /// What a read does while the file is being written: look again, as long as
    /// it may.
    pub open spec fn waits(&self, left: u32, p: ReadPhase) -> bool {
        if left == 0 {
            p == ReadPhase::Finished(
                Err(ChaprError::RetryBudgetExhausted { path: self.path, attempts: self.cfg.live_wait_attempts }),
            )
        } else {
            p == (ReadPhase::Waiting { left })
        }
    }

    /// What follows from what the coordinator knows.
    pub open spec fn routed(&self, stat: FileStat, r: Result<Resolved, ChaprError>, left: u32, p: ReadPhase) -> bool {
        match r {
            Ok(known) => match known.journal_state {
                JournalState::Clean => p == (ReadPhase::CleanReading {
                    stat,
                    cached: known.cached_version,
                    open: known.open_conflicts,
                }),
                JournalState::Live => self.waits(left, p),
                JournalState::Dangling => p == (ReadPhase::Recovering { open: known.open_conflicts }),
            },
            Err(ChaprError::CoordUnreachable) => p is Degrading,
            Err(e) => p == ReadPhase::Finished(Err(e)),
        }
    }

    /// Whether an answer is one to what the read asked for.
    pub open spec fn expects(&self, a: Answer) -> bool {
        match self.phase {
            ReadPhase::Statting => a is Stat,
            ReadPhase::Resolving { .. } => a is Resolved,
            ReadPhase::CleanReading { .. } => a is Bytes,
            ReadPhase::Refreshing { .. } => a is Coord,
            ReadPhase::Waiting { .. } => a is Slept,
            ReadPhase::LiveStatting { .. } => a is Stat,
            ReadPhase::LiveResolving { .. } => a is Resolved,
            ReadPhase::Recovering { .. } => a is Recovered,
            ReadPhase::DiskReading { .. } => a is Bytes,
            ReadPhase::Clearing { .. } => a is Coord,
            ReadPhase::Fetching { .. } => a is Blob,
            ReadPhase::Auditing { .. } => a is Coord,
            ReadPhase::Degrading => a is Bytes,
            ReadPhase::Recording { .. } => a is Coord,
            ReadPhase::Finished(_) => false,
        }
    }

    /// Whether the read is in a state that it can come to: a version it worked
    /// out is that of the bytes it has.
    pub open spec fn wf(&self) -> bool {
        match self.phase {
            ReadPhase::Refreshing { stat, version, bytes, open } => version@ == blake3_text(bytes@),
            ReadPhase::Clearing { version, bytes, open } => version@ == blake3_text(bytes@),
            ReadPhase::Waiting { left } => 0 < left <= self.cfg.live_wait_attempts,
            ReadPhase::LiveStatting { left } => left < self.cfg.live_wait_attempts,
            ReadPhase::LiveResolving { left, stat } => left < self.cfg.live_wait_attempts,
            ReadPhase::Recording { response, version } => response.version == Some(version),
            _ => true,
        }
    }

    /// Where an answer takes the read.
    pub open spec fn leads(&self, a: Answer, p: ReadPhase) -> bool {
        match (self.phase, a) {
            (ReadPhase::Statting, Answer::Stat(r)) => match r {
                Ok(stat) => p == (ReadPhase::Resolving { stat }),
                Err(e) => p == ReadPhase::Finished(Err(os_error(self.path, e))),
            },
            (ReadPhase::Resolving { stat }, Answer::Resolved(r)) => self.routed(stat, r, self.cfg.live_wait_attempts, p),
            (ReadPhase::CleanReading { stat, cached, open }, Answer::Bytes(r)) => match r {
                Ok(bytes) => match cached {
                    Some(version) => serves(verified(bytes, version, open), p),
                    None => p matches ReadPhase::Refreshing { stat: s, version, bytes: b, open: o } && s == stat
                        && version@ == blake3_text(bytes@) && b == bytes && o == open,
                },
                Err(e) => p == ReadPhase::Finished(Err(os_error(self.path, e))),
            },
            (ReadPhase::Refreshing { stat, version, bytes, open }, Answer::Coord(_)) => {
                serves(verified(bytes, version, open), p)
            },
            (ReadPhase::Waiting { left }, Answer::Slept) => p == (ReadPhase::LiveStatting { left: (left - 1) as u32 }),
            (ReadPhase::LiveStatting { left }, Answer::Stat(r)) => match r {
                Ok(stat) => p == (ReadPhase::LiveResolving { left, stat }),
                Err(e) => p == ReadPhase::Finished(Err(os_error(self.path, e))),
            },
            (ReadPhase::LiveResolving { left, stat }, Answer::Resolved(r)) => self.routed(stat, r, left, p),
            (ReadPhase::Recovering { open }, Answer::Recovered(r)) => match r {
                Ok(recovered) => p == (ReadPhase::DiskReading { recovered, open }),
                Err(e) => p == ReadPhase::Finished(Err(e)),
            },
            (ReadPhase::DiskReading { recovered, open }, Answer::Bytes(r)) => match r {
                Ok(on_disk) => if went_through(recovered, on_disk@) {
                    p matches ReadPhase::Clearing { version, bytes, open: o } && version@ == blake3_text(on_disk@)
                        && bytes == on_disk && o == open
                } else {
                    p == (ReadPhase::Fetching { recovered, open })
                },
                Err(e) => p == ReadPhase::Finished(Err(os_error(self.path, e))),
            },
            (ReadPhase::Clearing { version, bytes, open }, Answer::Coord(_)) => {
                serves(verified(bytes, version, open), p)
            },
            (ReadPhase::Fetching { recovered, open }, Answer::Blob(r)) => match r {
                Ok(bytes) => p matches ReadPhase::Auditing { recovered: f, bytes: b, open: o, detail } && f == recovered
                    && b == bytes && o == open && detail@ == recovery_detail(recovered.interrupted_writer@),
                Err(e) => p == ReadPhase::Finished(Err(e)),
            },
            (ReadPhase::Auditing { recovered, bytes, open, detail }, Answer::Coord(_)) => {
                serves(recovered_response(bytes, recovered, open), p)
            },
            (ReadPhase::Degrading, Answer::Bytes(r)) => match r {
                Ok(bytes) => p == ReadPhase::Finished(Ok(unverified(bytes))),
                Err(e) => p == ReadPhase::Finished(Err(os_error(self.path, e))),
            },
            (ReadPhase::Recording { response, version }, Answer::Coord(_)) => p == ReadPhase::Finished(Ok(response)),
            (phase, _) => p == phase,
        }
    }

    /// Whether `n` is this read one answer later.
    pub open spec fn next(&self, a: Answer, n: Read) -> bool {
        &&& n.cfg == self.cfg
        &&& n.principal == self.principal
        &&& n.session_id == self.session_id
        &&& n.path == self.path
        &&& self.leads(a, n.phase)
    }

    /// What the read needs done.
    pub open spec fn wants(&self) -> Action<'_> {
        match self.phase {
            ReadPhase::Statting => Action::Stat(&self.path),
            ReadPhase::Resolving { stat } => Action::Resolve { path: &self.path, mtime: &stat.mtime, size: stat.size },
            ReadPhase::CleanReading { stat, cached, open } => Action::Read(&self.path),
            ReadPhase::Refreshing { stat, version, bytes, open } => Action::RefreshIndex {
                path: &self.path,
                version: &version,
                mtime: &stat.mtime,
                size: stat.size,
            },
            ReadPhase::Waiting { left } => Action::Sleep { millis: self.cfg.live_wait_interval_ms },
            ReadPhase::LiveStatting { left } => Action::Stat(&self.path),
            ReadPhase::LiveResolving { left, stat } => Action::Resolve {
                path: &self.path,
                mtime: &stat.mtime,
                size: stat.size,
            },
            ReadPhase::Recovering { open } => Action::RecoverJournal {
                path: &self.path,
                principal: &self.principal,
                session_id: &self.session_id,
            },
            ReadPhase::DiskReading { recovered, open } => Action::Read(&self.path),
            ReadPhase::Clearing { version, bytes, open } => Action::ClearJournal(&self.path),
            ReadPhase::Fetching { recovered, open } => Action::GetBlob(&recovered.version),
            ReadPhase::Auditing { recovered, bytes, open, detail } => Action::Audit {
                principal: &self.principal,
                session_id: &self.session_id,
                path: &self.path,
                kind: AuditKind::CrashRecover,
                from_version: Some(&recovered.version),
                to_version: None,
                detail: &detail,
            },
            ReadPhase::Degrading => Action::Read(&self.path),
            ReadPhase::Recording { response, version } => Action::RecordRead {
                session_id: &self.session_id,
                path: &self.path,
                version: &version,
            },
            ReadPhase::Finished(_) => Action::Nothing,
        }
    }

    /// What the read needs done next.
    pub fn action(&self) -> (r: Action<'_>)
        ensures
            r == self.wants(),
    {
        match &self.phase {
            ReadPhase::Statting => Action::Stat(&self.path),
            ReadPhase::Resolving { stat } => Action::Resolve { path: &self.path, mtime: &stat.mtime, size: stat.size },
            ReadPhase::CleanReading { stat: _, cached: _, open: _ } => Action::Read(&self.path),
            ReadPhase::Refreshing { stat, version, bytes: _, open: _ } => Action::RefreshIndex {
                path: &self.path,
                version,
                mtime: &stat.mtime,
                size: stat.size,
            },
            ReadPhase::Waiting { left: _ } => Action::Sleep { millis: self.cfg.live_wait_interval_ms },
            ReadPhase::LiveStatting { left: _ } => Action::Stat(&self.path),
            ReadPhase::LiveResolving { left: _, stat } => Action::Resolve {
                path: &self.path,
                mtime: &stat.mtime,
                size: stat.size,
            },
            ReadPhase::Recovering { open: _ } => Action::RecoverJournal {
                path: &self.path,
                principal: &self.principal,
                session_id: &self.session_id,
            },
            ReadPhase::DiskReading { recovered: _, open: _ } => Action::Read(&self.path),
            ReadPhase::Clearing { version: _, bytes: _, open: _ } => Action::ClearJournal(&self.path),
            ReadPhase::Fetching { recovered, open: _ } => Action::GetBlob(&recovered.version),
            ReadPhase::Auditing { recovered, bytes: _, open: _, detail } => Action::Audit {
                principal: &self.principal,
                session_id: &self.session_id,
                path: &self.path,
                kind: AuditKind::CrashRecover,
                from_version: Some(&recovered.version),
                to_version: None,
                detail,
            },
            ReadPhase::Degrading => Action::Read(&self.path),
            ReadPhase::Recording { response: _, version } => Action::RecordRead {
                session_id: &self.session_id,
                path: &self.path,
                version,
            },
            ReadPhase::Finished(_) => Action::Nothing,
        }
    }

    fn wait(&self, left: u32) -> (p: ReadPhase)
        ensures
            self.waits(left, p),
    {
        if left == 0 {
            ReadPhase::Finished(
                Err(ChaprError::RetryBudgetExhausted { path: self.path.clone(), attempts: self.cfg.live_wait_attempts }),
            )
        } else {
            ReadPhase::Waiting { left }
        }
    }

    fn route(&self, stat: FileStat, r: Result<Resolved, ChaprError>, left: u32) -> (p: ReadPhase)
        ensures
            self.routed(stat, r, left, p),
    {
        match r {
            Ok(known) => match known.journal_state {
                JournalState::Clean => ReadPhase::CleanReading {
                    stat,
                    cached: known.cached_version,
                    open: known.open_conflicts,
                },
                JournalState::Live => self.wait(left),
                JournalState::Dangling => ReadPhase::Recovering { open: known.open_conflicts },
            },
            Err(ChaprError::CoordUnreachable) => ReadPhase::Degrading,
            Err(e) => ReadPhase::Finished(Err(e)),
        }
    }

    /// What a read does with what an interrupted write left on the share, given
    /// its version.
    pub fn judge(&self, recovered: RecoveredFrom, version: VersionToken, on_disk: Vec<u8>, open: Option<u32>) -> (p: ReadPhase)
        ensures
            p == if recovered.intended_version matches Some(v) && v@ == version@ {
                ReadPhase::Clearing { version, bytes: on_disk, open }
            } else {
                ReadPhase::Fetching { recovered, open }
            },
    {
        let whole = match &recovered.intended_version {
            Some(v) => v.same(&version),
            None => false,
        };
        if whole {
            ReadPhase::Clearing { version, bytes: on_disk, open }
        } else {
            ReadPhase::Fetching { recovered, open }
        }
    }

    /// Moves the read on by what came of its action. An answer to something
    /// that was not asked changes nothing.
    pub fn advance(self, answer: Answer) -> (n: Read)
        requires
            self.wf(),
        ensures
            n.wf(),
            self.next(answer, n),
    {
        let mut op = self;
        let mut phase = ReadPhase::Statting;
        std::mem::swap(&mut op.phase, &mut phase);
        let next = match (phase, answer) {
            (ReadPhase::Statting, Answer::Stat(r)) => match r {
                Ok(stat) => ReadPhase::Resolving { stat },
                Err(e) => ReadPhase::Finished(Err(map_os_err(&op.path, e))),
            },
            (ReadPhase::Resolving { stat }, Answer::Resolved(r)) => op.route(stat, r, op.cfg.live_wait_attempts),
            (ReadPhase::CleanReading { stat, cached, open }, Answer::Bytes(r)) => match r {
                Ok(bytes) => match cached {
                    Some(version) => serve(
                        ReadResponse {
                            content: ReadContent::Inline { bytes },
                            version: Some(version),
                            integrity: Integrity::Verified,
                            recovered_from: None,
                            open_conflicts: open,
                        },
                    ),
                    None => {
                        let version = VersionToken::hash(bytes.as_slice());
                        ReadPhase::Refreshing { stat, version, bytes, open }
                    },
                },
                Err(e) => ReadPhase::Finished(Err(map_os_err(&op.path, e))),
            },
            (ReadPhase::Refreshing { stat: _, version, bytes, open }, Answer::Coord(_)) => serve(
                ReadResponse {
                    content: ReadContent::Inline { bytes },
                    version: Some(version),
                    integrity: Integrity::Verified,
                    recovered_from: None,
                    open_conflicts: open,
                },
            ),
            (ReadPhase::Waiting { left }, Answer::Slept) => ReadPhase::LiveStatting { left: left - 1 },
            (ReadPhase::LiveStatting { left }, Answer::Stat(r)) => match r {
                Ok(stat) => ReadPhase::LiveResolving { left, stat },
                Err(e) => ReadPhase::Finished(Err(map_os_err(&op.path, e))),
            },
            (ReadPhase::LiveResolving { left, stat }, Answer::Resolved(r)) => op.route(stat, r, left),
            (ReadPhase::Recovering { open }, Answer::Recovered(r)) => match r {
                Ok(recovered) => ReadPhase::DiskReading { recovered, open },
                Err(e) => ReadPhase::Finished(Err(e)),
            },
            (ReadPhase::DiskReading { recovered, open }, Answer::Bytes(r)) => match r {
                Ok(on_disk) => {
                    let version = VersionToken::hash(on_disk.as_slice());
                    op.judge(recovered, version, on_disk, open)
                },
                Err(e) => ReadPhase::Finished(Err(map_os_err(&op.path, e))),
            },
            (ReadPhase::Clearing { version, bytes, open }, Answer::Coord(_)) => serve(
                ReadResponse {
                    content: ReadContent::Inline { bytes },
                    version: Some(version),
                    integrity: Integrity::Verified,
                    recovered_from: None,
                    open_conflicts: open,
                },
            ),
            (ReadPhase::Fetching { recovered, open }, Answer::Blob(r)) => match r {
                Ok(bytes) => {
                    let mut detail = own("served pre-image after interrupted write by ");
                    detail.append(recovered.interrupted_writer.as_str());
                    ReadPhase::Auditing { recovered, bytes, open, detail }
                },
                Err(e) => ReadPhase::Finished(Err(e)),
            },
            (ReadPhase::Auditing { recovered, bytes, open, detail: _ }, Answer::Coord(_)) => {
                let version = recovered.version.clone();
                serve(
                    ReadResponse {
                        content: ReadContent::Inline { bytes },
                        version: Some(version),
                        integrity: Integrity::Recovered,
                        recovered_from: Some(recovered),
                        open_conflicts: open,
                    },
                )
            },
            (ReadPhase::Degrading, Answer::Bytes(r)) => match r {
                Ok(bytes) => ReadPhase::Finished(
                    Ok(
                        ReadResponse {
                            content: ReadContent::Inline { bytes },
                            version: None,
                            integrity: Integrity::Unverified,
                            recovered_from: None,
                            open_conflicts: None,
                        },
                    ),
                ),
                Err(e) => ReadPhase::Finished(Err(map_os_err(&op.path, e))),
            },
            (ReadPhase::Recording { response, version: _ }, Answer::Coord(_)) => ReadPhase::Finished(Ok(response)),
            (phase, _) => phase,
        };
        op.phase = next;
        op
    }
}

/// A read of the file that a caller names.
pub fn read<M: MountTable>(
    kind: BackendKind,
    mounts: &M,
    roots: &[CanonicalPath],
    cfg: ReadConfig,
    principal: Principal,
    session_id: SessionId,
    raw_uri: &str,
) -> (r: Result<Read, ChaprError>)
    ensures
        exists|path: Result<CanonicalPath, ChaprError>|
            #[trigger] may_canonicalize(&grammar_of(kind), *mounts, raw_uri@, roots@, path) && match path {
                Ok(p) => r == Ok::<Read, ChaprError>(
                    Read { cfg, principal, session_id, path: p, phase: ReadPhase::Statting },
                ),
                Err(e) => r == Err::<Read, ChaprError>(e),
            },
{
    match canonicalize_in(raw_uri, &grammar_for(kind), mounts, roots) {
        Ok(path) => Ok(Read { cfg, principal, session_id, path, phase: ReadPhase::Statting }),
        Err(e) => Err(e),
    }
}

/// Whether the coordinator takes the share to be of another kind than the one
/// that is driven. The local kind stands either way.
pub fn announces_other(known: &Resolved, local: BackendKind) -> (r: bool)
    ensures
        r == (local != match known.backend {
            Some(d) => d.kind,
            None => BackendKind::Smb,
        }),
{
    select_backend(known.backend.as_ref()) != local
}

/// What an interrupted write tore is never served as verified, and the note of
/// the write stays: the read goes on to fetch the contents from before it.
pub proof fn torn_contents_are_not_served(s: Read, on_disk: Vec<u8>, n: Read)
    requires
        s.phase is DiskReading,
        s.next(Answer::Bytes(Ok(on_disk)), n),
        s.phase matches ReadPhase::DiskReading { recovered, open } && !went_through(recovered, on_disk@),
    ensures
        s.phase matches ReadPhase::DiskReading { recovered, open } && n.wants() == Action::GetBlob(&recovered.version),
{
}

/// Contents fetched from before an interrupted write are served as recovered,
/// under the version they are, with the writer named.
pub proof fn recovered_contents_are_marked(s: Read, a: Answer, n: Read)
    requires
        s.expects(a),
        s.next(a, n),
        s.phase is Auditing,
    ensures
        s.phase matches ReadPhase::Auditing { recovered, bytes, open, detail } && n.phase == (ReadPhase::Recording {
            response: recovered_response(bytes, recovered, open),
            version: recovered.version,
        }),
{
}

/// The note of a write is cleared only where the file is what the write was to
/// leave.
pub proof fn only_a_finished_write_is_cleared(s: Read, a: Answer, n: Read)
    requires
        s.next(a, n),
        n.phase is Clearing,
        !(s.phase is Clearing),
    ensures
        s.phase matches ReadPhase::DiskReading { recovered, open } && (a matches Answer::Bytes(Ok(on_disk))
            && went_through(recovered, on_disk@)),
{
}

/// A version that a read worked out for itself is that of the bytes it serves.
pub proof fn verified_means_hashed(s: Read, a: Answer, n: Read)
    requires
        s.wf(),
        s.expects(a),
        s.next(a, n),
        s.phase is Refreshing || s.phase is Clearing,
    ensures
        n.phase matches ReadPhase::Recording { response, version } && (response.content matches ReadContent::Inline { bytes }
            && version@ == blake3_text(bytes@)) && response.integrity == Integrity::Verified,
{
}

/// An unreachable coordinator never fails a read: the contents are served, and
/// marked as unverified.
pub proof fn reads_degrade_open(s: Read, n: Read, bytes: Vec<u8>, m: Read)
    requires
        s.phase is Resolving || s.phase is LiveResolving,
        s.next(Answer::Resolved(Err(ChaprError::CoordUnreachable)), n),
        n.next(Answer::Bytes(Ok(bytes)), m),
    ensures
        n.wants() == Action::Read(&s.path),
        m.phase == ReadPhase::Finished(Ok(unverified(bytes))),
{
}

/// How many more times a read may wait.
pub open spec fn waits_left(s: Read) -> nat {
    match s.phase {
        ReadPhase::Statting => s.cfg.live_wait_attempts as nat,
        ReadPhase::Resolving { stat } => s.cfg.live_wait_attempts as nat,
        ReadPhase::Waiting { left } => left as nat,
        ReadPhase::LiveStatting { left } => left as nat,
        ReadPhase::LiveResolving { left, stat } => left as nat,
        _ => 0,
    }
}

/// A read waits a bounded number of times: no answer adds to what it may still
/// wait, and each wait takes from it.
pub proof fn waiting_is_bounded(s: Read, a: Answer, n: Read)
    requires
        s.wf(),
        s.next(a, n),
    ensures
        waits_left(n) <= waits_left(s),
        s.phase is Waiting && a is Slept ==> waits_left(n) < waits_left(s),
{
}

// ---- stat ----

/// What there is to know of a file.
#[derive(Debug, PartialEq, Eq)]
pub struct StatResponse {
    /// The file.
    pub canonical_path: CanonicalPath,
    /// Its size in bytes.
    pub size: u64,
    /// When it last changed.
    pub mtime: Timestamp,
    /// Its version.
    pub version: VersionToken,
    /// Who holds it.
    pub lease: Option<LeaseState>,
    /// Whether a write is under way.
    pub journal_state: JournalState,
}

/// Where the question stands.
pub enum StatPhase {
    /// The time and size.
    Statting,
    /// What the coordinator knows.
    Resolving { stat: FileStat },
    /// The contents, to hash them.
    Hashing { stat: FileStat, journal_state: JournalState, lease: Option<LeaseState> },
    /// The version told to the coordinator.
    Refreshing { stat: FileStat, version: VersionToken, journal_state: JournalState, lease: Option<LeaseState> },
    /// The contents, to hash them, the coordinator being out of reach.
    LocalHashing { stat: FileStat },
    /// Nothing more.
    Finished(Result<StatResponse, ChaprError>),
}

/// A question about a file on its way.
pub struct Stat {
    /// The file.
    pub path: CanonicalPath,
    /// Where the question stands.
    pub phase: StatPhase,
}

impl Stat {
    /// The answer to the question.
    pub open spec fn told(
        &self,
        stat: FileStat,
        version: VersionToken,
        lease: Option<LeaseState>,
        journal_state: JournalState,
    ) -> StatPhase {
        StatPhase::Finished(
            Ok(
                StatResponse {
                    canonical_path: self.path,
                    size: stat.size,
                    mtime: stat.mtime,
                    version,
                    lease,
                    journal_state,
                },
            ),
        )
    }

    /// Where an answer takes the question.
    pub open spec fn leads(&self, a: Answer, p: StatPhase) -> bool {
        match (self.phase, a) {
            (StatPhase::Statting, Answer::Stat(r)) => match r {
                Ok(stat) => p == (StatPhase::Resolving { stat }),
                Err(e) => p == StatPhase::Finished(Err(os_error(self.path, e))),
            },
            (StatPhase::Resolving { stat }, Answer::Resolved(r)) => match r {
                Ok(known) => match known.cached_version {
                    Some(version) => p == self.told(stat, version, known.lease_state, known.journal_state),
                    None => p == (StatPhase::Hashing {
                        stat,
                        journal_state: known.journal_state,
                        lease: known.lease_state,
                    }),
                },
                Err(ChaprError::CoordUnreachable) => p == (StatPhase::LocalHashing { stat }),
                Err(e) => p == StatPhase::Finished(Err(e)),
            },
            (StatPhase::Hashing { stat, journal_state, lease }, Answer::Bytes(r)) => match r {
                Ok(bytes) => p matches StatPhase::Refreshing { stat: s, version, journal_state: j, lease: l }
                    && s == stat && version@ == blake3_text(bytes@) && j == journal_state && l == lease,
                Err(e) => p == StatPhase::Finished(Err(os_error(self.path, e))),
            },
            (StatPhase::Refreshing { stat, version, journal_state, lease }, Answer::Coord(_)) => {
                p == self.told(stat, version, lease, journal_state)
            },
            (StatPhase::LocalHashing { stat }, Answer::Bytes(r)) => match r {
                Ok(bytes) => exists|version: VersionToken| version@ == blake3_text(bytes@)
                    && p == #[trigger] self.told(stat, version, None, JournalState::Clean),
                Err(e) => p == StatPhase::Finished(Err(os_error(self.path, e))),
            },
            (phase, _) => p == phase,
        }
    }

    /// What the question needs done.
    pub open spec fn wants(&self) -> Action<'_> {
        match self.phase {
            StatPhase::Statting => Action::Stat(&self.path),
            StatPhase::Resolving { stat } => Action::Resolve { path: &self.path, mtime: &stat.mtime, size: stat.size },
            StatPhase::Hashing { stat, journal_state, lease } => Action::Read(&self.path),
            StatPhase::Refreshing { stat, version, journal_state, lease } => Action::RefreshIndex {
                path: &self.path,
                version: &version,
                mtime: &stat.mtime,
                size: stat.size,
            },
            StatPhase::LocalHashing { stat } => Action::Read(&self.path),
            StatPhase::Finished(_) => Action::Nothing,
        }
    }

    /// What the question needs done next.
    pub fn action(&self) -> (r: Action<'_>)
        ensures
            r == self.wants(),
    {
        match &self.phase {
            StatPhase::Statting => Action::Stat(&self.path),
            StatPhase::Resolving { stat } => Action::Resolve { path: &self.path, mtime: &stat.mtime, size: stat.size },
            StatPhase::Hashing { stat: _, journal_state: _, lease: _ } => Action::Read(&self.path),
            StatPhase::Refreshing { stat, version, journal_state: _, lease: _ } => Action::RefreshIndex {
                path: &self.path,
                version,
                mtime: &stat.mtime,
                size: stat.size,
            },
            StatPhase::LocalHashing { stat: _ } => Action::Read(&self.path),
            StatPhase::Finished(_) => Action::Nothing,
        }
    }

    fn tell(
        &self,
        stat: FileStat,
        version: VersionToken,
        lease: Option<LeaseState>,
        journal_state: JournalState,
    ) -> (p: StatPhase)
        ensures
            p == self.told(stat, version, lease, journal_state),
    {
        StatPhase::Finished(
            Ok(
                StatResponse {
                    canonical_path: self.path.clone(),
                    size: stat.size,
                    mtime: stat.mtime,
                    version,
                    lease,
                    journal_state,
                },
            ),
        )
    }

    /// Moves the question on by what came of its action.
    pub fn advance(self, answer: Answer) -> (n: Stat)
        ensures
            n.path == self.path,
            self.leads(answer, n.phase),
    {
        let mut op = self;
        let mut phase = StatPhase::Statting;
        std::mem::swap(&mut op.phase, &mut phase);
        let next = match (phase, answer) {
            (StatPhase::Statting, Answer::Stat(r)) => match r {
                Ok(stat) => StatPhase::Resolving { stat },
                Err(e) => StatPhase::Finished(Err(map_os_err(&op.path, e))),
            },
            (StatPhase::Resolving { stat }, Answer::Resolved(r)) => match r {
                Ok(known) => match known.cached_version {
                    Some(version) => op.tell(stat, version, known.lease_state, known.journal_state),
                    None => StatPhase::Hashing { stat, journal_state: known.journal_state, lease: known.lease_state },
                },
                Err(ChaprError::CoordUnreachable) => StatPhase::LocalHashing { stat },
                Err(e) => StatPhase::Finished(Err(e)),
            },
            (StatPhase::Hashing { stat, journal_state, lease }, Answer::Bytes(r)) => match r {
                Ok(bytes) => {
                    let version = VersionToken::hash(bytes.as_slice());
                    StatPhase::Refreshing { stat, version, journal_state, lease }
                },
                Err(e) => StatPhase::Finished(Err(map_os_err(&op.path, e))),
            },
            (StatPhase::Refreshing { stat, version, journal_state, lease }, Answer::Coord(_)) => {
                op.tell(stat, version, lease, journal_state)
            },
            (StatPhase::LocalHashing { stat }, Answer::Bytes(r)) => match r {
                Ok(bytes) => {
                    let version = VersionToken::hash(bytes.as_slice());
                    let p = op.tell(stat, version, None, JournalState::Clean);
                    assert(p == self.told(stat, version, None, JournalState::Clean));
                    p
                },
                Err(e) => StatPhase::Finished(Err(map_os_err(&op.path, e))),
            },
            (phase, _) => phase,
        };
        op.phase = next;
        op
    }
}

/// A question about the file that a caller names.
pub fn stat<M: MountTable>(kind: BackendKind, mounts: &M, roots: &[CanonicalPath], raw_uri: &str) -> (r: Result<Stat, ChaprError>)
    ensures
        exists|path: Result<CanonicalPath, ChaprError>|
            #[trigger] may_canonicalize(&grammar_of(kind), *mounts, raw_uri@, roots@, path) && match path {
                Ok(p) => r == Ok::<Stat, ChaprError>(Stat { path: p, phase: StatPhase::Statting }),
                Err(e) => r == Err::<Stat, ChaprError>(e),
            },
{
    match canonicalize_in(raw_uri, &grammar_for(kind), mounts, roots) {
        Ok(path) => Ok(Stat { path, phase: StatPhase::Statting }),
        Err(e) => Err(e),
    }
}

// ---- list ----

/// One entry of a listing.
#[derive(Debug, PartialEq, Eq)]
pub struct ListEntry {
    /// Its name.
    pub name: String,
    /// Its size in bytes.
    pub size: u64,
    /// When it last changed.
    pub mtime: Timestamp,
    /// Its version: never known here, as that would mean hashing every file.
    pub version: Option<VersionToken>,
    /// How many conflicts on it are open, where there are any.
    pub open_conflicts: Option<u32>,
    /// Its path.
    pub canonical_path: CanonicalPath,
}

/// How many conflicts are about a path.
pub open spec fn conflicts_on(conflicts: Seq<CanonicalPath>, path: Seq<char>) -> nat
    decreases conflicts.len(),
{
    if conflicts.len() == 0 {
        0
    } else {
        conflicts_on(conflicts.drop_last(), path) + if conflicts.last()@ == path { 1nat } else { 0nat }
    }
}

/// The count as a listing shows it: not at all where it is zero.
pub open spec fn shown(count: nat) -> Option<u32> {
    if count == 0 {
        None
    } else if count >= u32::MAX {
        Some(u32::MAX)
    } else {
        Some(count as u32)
    }
}

fn count_conflicts(conflicts: &Vec<CanonicalPath>, path: &CanonicalPath) -> (r: Option<u32>)
    ensures
        r == shown(conflicts_on(conflicts@, path@)),
{
    let mut n: u32 = 0;
    let mut i: usize = 0;
    while i < conflicts.len()
        invariant
            i <= conflicts@.len(),
            conflicts_on(conflicts@.take(i as int), path@) < u32::MAX ==> n == conflicts_on(conflicts@.take(i as int), path@),
            conflicts_on(conflicts@.take(i as int), path@) >= u32::MAX ==> n == u32::MAX,
        decreases conflicts@.len() - i,
    {
        assert(conflicts@.take(i + 1).drop_last() =~= conflicts@.take(i as int));
        if conflicts[i].same(path) && n < u32::MAX {
            n = n + 1;
        }
        i = i + 1;
    }
    assert(conflicts@.take(conflicts@.len() as int) =~= conflicts@);
    if n == 0 {
        None
    } else {
        Some(n)
    }
}

/// Whether `r` can come of canonicalising the path of the entry `raw` of `dir`.
pub open spec fn may_place<M: MountTable>(
    kind: BackendKind,
    mounts: M,
    roots: Seq<CanonicalPath>,
    dir: Seq<char>,
    raw: RawDirEntry,
    r: Result<CanonicalPath, ChaprError>,
) -> bool {
    may_canonicalize(&grammar_of(kind), mounts, child_text(dir, raw.name@, grammar_of(kind).sep_char()), roots, r)
}

/// Whether the entry `raw` of `dir` has a canonical path.
pub open spec fn has_place<M: MountTable>(
    kind: BackendKind,
    mounts: M,
    roots: Seq<CanonicalPath>,
    dir: Seq<char>,
    raw: RawDirEntry,
) -> bool {
    exists|p: CanonicalPath| #[trigger] may_place(kind, mounts, roots, dir, raw, Ok(p))
}

/// Whether `e` is the listing entry for `raw` in `dir`.
pub open spec fn lists<M: MountTable>(
    kind: BackendKind,
    mounts: M,
    roots: Seq<CanonicalPath>,
    dir: Seq<char>,
    raw: RawDirEntry,
    conflicts: Seq<CanonicalPath>,
    e: ListEntry,
) -> bool {
    &&& e.name == raw.name
    &&& e.size == raw.size
    &&& e.mtime == raw.mtime
    &&& e.version is None
    &&& may_place(kind, mounts, roots, dir, raw, Ok(e.canonical_path))
    &&& e.open_conflicts == shown(conflicts_on(conflicts, e.canonical_path@))
}

/// Whether entry number `i` of `raw` is refused for the reason `e`, and every one
/// before it has a canonical path.
pub open spec fn first_refused<M: MountTable>(
    kind: BackendKind,
    mounts: M,
    roots: Seq<CanonicalPath>,
    dir: Seq<char>,
    raw: Seq<RawDirEntry>,
    i: int,
    e: ChaprError,
) -> bool {
    &&& 0 <= i < raw.len()
    &&& may_place(kind, mounts, roots, dir, raw[i], Err(e))
    &&& forall|j: int| 0 <= j < i ==> has_place(kind, mounts, roots, dir, #[trigger] raw[j])
}

/// Whether `r` is the listing of `raw`: every entry in its order, or the refusal
/// of the first one whose path has no canonical form.
pub open spec fn is_listing<M: MountTable>(
    kind: BackendKind,
    mounts: M,
    roots: Seq<CanonicalPath>,
    dir: Seq<char>,
    raw: Seq<RawDirEntry>,
    conflicts: Seq<CanonicalPath>,
    r: Result<Vec<ListEntry>, ChaprError>,
) -> bool {
    match r {
        Ok(entries) => entries@.len() == raw.len() && forall|i: int|
            0 <= i < raw.len() ==> lists(kind, mounts, roots, dir, raw[i], conflicts, #[trigger] entries@[i]),
        Err(e) => exists|i: int| #[trigger] first_refused(kind, mounts, roots, dir, raw, i, e),
    }
}

fn annotate<M: MountTable>(
    kind: BackendKind,
    mounts: &M,
    roots: &[CanonicalPath],
    dir: &CanonicalPath,
    raw: Vec<RawDirEntry>,
    conflicts: &Vec<CanonicalPath>,
) -> (r: Result<Vec<ListEntry>, ChaprError>)
    ensures
        is_listing(kind, *mounts, roots@, dir@, raw@, conflicts@, r),
{
    let g = grammar_for(kind);
    let mut entries: Vec<ListEntry> = Vec::new();
    let mut i: usize = 0;
    while i < raw.len()
        invariant
            g == grammar_of(kind),
            i <= raw@.len(),
            entries@.len() == i,
            forall|k: int| 0 <= k < i ==> lists(kind, *mounts, roots@, dir@, raw@[k], conflicts@, #[trigger] entries@[k]),
            forall|k: int| 0 <= k < i ==> has_place(kind, *mounts, roots@, dir@, #[trigger] raw@[k]),
        decreases raw@.len() - i,
    {
        let child = join(&g, dir.as_str(), raw[i].name.as_str());
        let canonical_path = match canonicalize_in(child.as_str(), &g, mounts, roots) {
            Ok(p) => p,
            Err(e) => {
                assert(first_refused(kind, *mounts, roots@, dir@, raw@, i as int, e));
                return Err(e);
            },
        };
        assert(may_place(kind, *mounts, roots@, dir@, raw@[i as int], Ok(canonical_path)));
        let open_conflicts = count_conflicts(conflicts, &canonical_path);
        entries.push(
            ListEntry {
                name: raw[i].name.clone(),
                size: raw[i].size,
                mtime: raw[i].mtime.clone(),
                version: None,
                open_conflicts,
                canonical_path,
            },
        );
        i = i + 1;
    }
    Ok(entries)
}

/// Where the listing stands.
pub enum ListPhase {
    /// What is in the directory.
    Listing,
    /// Which conflicts are open below it.
    Counting { raw: Vec<RawDirEntry> },
    /// Nothing more.
    Finished(Result<Vec<ListEntry>, ChaprError>),
}

/// A listing on its way.
pub struct List {
    /// The kind of fileserver.
    pub kind: BackendKind,
    /// The directory.
    pub dir: CanonicalPath,
    /// Where the listing stands.
    pub phase: ListPhase,
}

impl List {
    /// Where an answer takes the listing.
    pub open spec fn leads<M: MountTable>(&self, mounts: M, roots: Seq<CanonicalPath>, a: Answer, p: ListPhase) -> bool {
        match (self.phase, a) {
            (ListPhase::Listing, Answer::Listing(r)) => match r {
                Ok(raw) => p == (ListPhase::Counting { raw }),
                Err(e) => p == ListPhase::Finished(Err(os_error(self.dir, e))),
            },
            // Without the coordinator the listing still stands, without counts.
            (ListPhase::Counting { raw }, Answer::Conflicts(r)) => p matches ListPhase::Finished(listing) && is_listing(
                self.kind,
                mounts,
                roots,
                self.dir@,
                raw@,
                match r {
                    Ok(conflicts) => conflicts@,
                    Err(_) => Seq::empty(),
                },
                listing,
            ),
            (phase, _) => p == phase,
        }
    }

    /// What the listing needs done.
    pub open spec fn wants(&self) -> Action<'_> {
        match self.phase {
            ListPhase::Listing => Action::List(&self.dir),
            ListPhase::Counting { raw } => Action::ListConflicts(&self.dir),
            ListPhase::Finished(_) => Action::Nothing,
        }
    }

    /// What the listing needs done next.
    pub fn action(&self) -> (r: Action<'_>)
        ensures
            r == self.wants(),
    {
        match &self.phase {
            ListPhase::Listing => Action::List(&self.dir),
            ListPhase::Counting { raw: _ } => Action::ListConflicts(&self.dir),
            ListPhase::Finished(_) => Action::Nothing,
        }
    }

    /// Moves the listing on by what came of its action.
    pub fn advance<M: MountTable>(self, mounts: &M, roots: &[CanonicalPath], answer: Answer) -> (n: List)
        ensures
            n.kind == self.kind,
            n.dir == self.dir,
            self.leads(*mounts, roots@, answer, n.phase),
    {
        let mut op = self;
        let mut phase = ListPhase::Listing;
        std::mem::swap(&mut op.phase, &mut phase);
        let next = match (phase, answer) {
            (ListPhase::Listing, Answer::Listing(r)) => match r {
                Ok(raw) => ListPhase::Counting { raw },
                Err(e) => ListPhase::Finished(Err(map_os_err(&op.dir, e))),
            },
            (ListPhase::Counting { raw }, Answer::Conflicts(r)) => {
                let conflicts = match r {
                    Ok(c) => c,
                    Err(_) => Vec::new(),
                };
                ListPhase::Finished(annotate(op.kind, mounts, roots, &op.dir, raw, &conflicts))
            },
            (phase, _) => phase,
        };
        op.phase = next;
        op
    }
}

/// A listing of the directory that a caller names.
pub fn list<M: MountTable>(kind: BackendKind, mounts: &M, roots: &[CanonicalPath], raw_uri: &str) -> (r: Result<List, ChaprError>)
    ensures
        exists|path: Result<CanonicalPath, ChaprError>|
            #[trigger] may_canonicalize(&grammar_of(kind), *mounts, raw_uri@, roots@, path) && match path {
                Ok(dir) => r == Ok::<List, ChaprError>(List { kind, dir, phase: ListPhase::Listing }),
                Err(e) => r == Err::<List, ChaprError>(e),
            },
{
    match canonicalize_in(raw_uri, &grammar_for(kind), mounts, roots) {
        Ok(dir) => Ok(List { kind, dir, phase: ListPhase::Listing }),
        Err(e) => Err(e),
    }
}

/// A read from its beginning: each state follows from the one before by an answer to
/// what that one asked.
#[verifier::opaque]
pub open spec fn is_read_run(states: Seq<Read>, answers: Seq<Answer>) -> bool {
    &&& states.len() == answers.len() + 1
    &&& states[0].phase is Statting
    &&& forall|i: int| 0 <= i < answers.len() ==> (#[trigger] states[i]).expects(answers[i])
        && states[i].next(answers[i], states[i + 1])
}

proof fn read_step(states: Seq<Read>, answers: Seq<Answer>, i: int)
    requires
        is_read_run(states, answers),
        0 < i < states.len(),
    ensures
        states[i - 1].expects(answers[i - 1]),
        states[i - 1].next(answers[i - 1], states[i]),
        states.len() == answers.len() + 1,
{
    reveal(is_read_run);
    assert(states[i - 1].expects(answers[i - 1]));
}

proof fn read_start(states: Seq<Read>, answers: Seq<Answer>, i: int)
    requires
        is_read_run(states, answers),
        0 <= i < states.len(),
        !(states[i].phase is Statting),
    ensures
        i > 0,
{
    reveal(is_read_run);
}

proof fn read_keeps_its_args(states: Seq<Read>, answers: Seq<Answer>, i: int)
    requires
        is_read_run(states, answers),
        0 <= i < states.len(),
    ensures
        states[i].path == states[0].path,
        states[i].cfg == states[0].cfg,
        states[i].principal == states[0].principal,
        states[i].session_id == states[0].session_id,
    decreases i,
{
    if i > 0 {
        read_step(states, answers, i);
        read_keeps_its_args(states, answers, i - 1);
    }
}

/// Whether the read ended with contents that the coordinator has a version of on
/// record: they were read from the path right after it answered that nobody is
/// writing.
pub open spec fn served_on_record(states: Seq<Read>, answers: Seq<Answer>, i: int, bytes: Vec<u8>, v: VersionToken, open: Option<u32>) -> bool {
    &&& i >= 3
    &&& states[i - 2].wants() == Action::Read(&states[0].path)
    &&& answers[i - 2] == Answer::Bytes(Ok(bytes))
    &&& answers[i - 3] matches Answer::Resolved(Ok(known)) && known.journal_state == JournalState::Clean && known.cached_version
        == Some(v) && known.open_conflicts == open
}

/// Whether the read ended with contents whose version it worked out: they were read
/// from the path, their hash is the version, and either nobody was writing and the
/// version was told to the coordinator, or an interrupted write had meant to leave
/// exactly them and the note of it was cleared.
pub open spec fn served_by_hash(states: Seq<Read>, answers: Seq<Answer>, i: int, bytes: Vec<u8>, v: VersionToken, open: Option<u32>) -> bool {
    &&& i >= 4
    &&& v@ == blake3_text(bytes@)
    &&& states[i - 3].wants() == Action::Read(&states[0].path)
    &&& answers[i - 3] == Answer::Bytes(Ok(bytes))
    &&& {
        ||| (answers[i - 4] matches Answer::Resolved(Ok(known)) && known.journal_state == JournalState::Clean && known.cached_version
            is None && known.open_conflicts == open) && (states[i - 2].wants() matches Action::RefreshIndex { path, version, mtime, size }
            && *path == states[0].path && *version == v && (states[i - 4].wants() matches Action::Resolve {
            path: p,
            mtime: m,
            size: s,
        } && *p == *path && *m == *mtime && s == size))
        ||| (answers[i - 4] matches Answer::Recovered(Ok(recovered)) && recovered.intended_version matches Some(w) && w@ == blake3_text(
            bytes@,
        )) && states[i - 2].wants() == Action::ClearJournal(&states[0].path) && i >= 5 && (answers[i - 5] matches Answer::Resolved(
            Ok(known),
        ) && known.journal_state == JournalState::Dangling && known.open_conflicts == open)
    }
}

/// Whether the read ended with contents from before an interrupted write: the
/// coordinator was asked about that write, what is on the share is not what the write
/// was to leave, and the version from before was fetched from history and noted in the
/// audit trail.
pub open spec fn served_from_history(states: Seq<Read>, answers: Seq<Answer>, i: int, bytes: Vec<u8>, recovered: RecoveredFrom, open: Option<u32>) -> bool {
    &&& i >= 6
    &&& answers[i - 6] matches Answer::Resolved(Ok(known)) && known.journal_state == JournalState::Dangling && known.open_conflicts
        == open
    &&& states[i - 5].wants() == (Action::RecoverJournal {
        path: &states[0].path,
        principal: &states[0].principal,
        session_id: &states[0].session_id,
    })
    &&& answers[i - 5] == Answer::Recovered(Ok(recovered))
    &&& states[i - 4].wants() == Action::Read(&states[0].path)
    &&& answers[i - 4] matches Answer::Bytes(Ok(on_disk)) && (recovered.intended_version matches Some(w) ==> w@ != blake3_text(
        on_disk@,
    ))
    &&& states[i - 3].wants() == Action::GetBlob(&recovered.version)
    &&& answers[i - 3] == Answer::Blob(Ok(bytes))
    &&& states[i - 2].wants() matches Action::Audit { principal, session_id, path, kind, from_version: Some(from), .. } && *principal
        == states[0].principal && *session_id == states[0].session_id && *path == states[0].path && kind == AuditKind::CrashRecover
        && *from == recovered.version
}

/// What a read hands over is what it says it is. Contents of a known version were
/// read from the path and are on record under that version or hash to it; recovered
/// ones are those from before an interrupted write, and name it; and contents that
/// nobody vouches for come without a version, and only where the coordinator could not
/// be reached. A version that is handed over was recorded as read by this session.
pub proof fn a_read_serves_what_it_says(states: Seq<Read>, answers: Seq<Answer>, i: int, response: ReadResponse)
    requires
        is_read_run(states, answers),
        0 <= i < states.len(),
        states[i].phase == ReadPhase::Finished(Ok(response)),
    ensures
        response.content matches ReadContent::Inline { bytes } && match response.integrity {
            Integrity::Verified => response.recovered_from is None && (response.version matches Some(v) && (served_on_record(
                states,
                answers,
                i,
                bytes,
                v,
                response.open_conflicts,
            ) || served_by_hash(states, answers, i, bytes, v, response.open_conflicts))),
            Integrity::Recovered => response.recovered_from matches Some(recovered) && response.version == Some(recovered.version)
                && served_from_history(states, answers, i, bytes, recovered, response.open_conflicts),
            Integrity::Unverified => response.version is None && response.recovered_from is None && response.open_conflicts is None && i
                >= 2 && states[i - 1].wants() == Action::Read(&states[0].path) && answers[i - 1] == Answer::Bytes(Ok(bytes)) && answers[i - 2]
                == Answer::Resolved(Err(ChaprError::CoordUnreachable)),
        },
        response.version matches Some(v) ==> i >= 1 && states[i - 1].wants() == (Action::RecordRead {
            session_id: &states[0].session_id,
            path: &states[0].path,
            version: &v,
        }),
{
    read_start(states, answers, i);
    read_step(states, answers, i);
    read_keeps_its_args(states, answers, i - 1);
    read_start(states, answers, i - 1);
    read_step(states, answers, i - 1);
    read_keeps_its_args(states, answers, i - 2);
    if states[i - 1].phase is Recording {
        read_start(states, answers, i - 2);
        read_step(states, answers, i - 2);
        read_keeps_its_args(states, answers, i - 3);
        if !(states[i - 2].phase is CleanReading) {
            read_start(states, answers, i - 3);
            read_step(states, answers, i - 3);
            read_keeps_its_args(states, answers, i - 4);
            if states[i - 2].phase is Auditing {
                read_start(states, answers, i - 4);
                read_step(states, answers, i - 4);
                read_keeps_its_args(states, answers, i - 5);
                read_start(states, answers, i - 5);
                read_step(states, answers, i - 5);
            } else if states[i - 2].phase is Clearing {
                read_start(states, answers, i - 4);
                read_step(states, answers, i - 4);
            }
        }
    }
}

/// A read that fails does so for a reason: the file system refused, the coordinator
/// answered with an error other than being out of reach, or the file was being written
/// each time the read looked.
pub proof fn a_read_fails_for_a_reason(states: Seq<Read>, answers: Seq<Answer>, i: int, e: ChaprError)
    requires
        is_read_run(states, answers),
        0 <= i < states.len(),
        states[i].phase == ReadPhase::Finished(Err(e)),
    ensures
        i > 0,
        match answers[i - 1] {
            Answer::Stat(r) => r matches Err(io) && e == os_error(states[0].path, io),
            Answer::Bytes(r) => r matches Err(io) && e == os_error(states[0].path, io),
            Answer::Resolved(Err(why)) => e == why && !(e is CoordUnreachable),
            Answer::Resolved(Ok(known)) => known.journal_state == JournalState::Live && e == (ChaprError::RetryBudgetExhausted {
                path: states[0].path,
                attempts: states[0].cfg.live_wait_attempts,
            }),
            Answer::Recovered(Err(why)) => e == why,
            Answer::Blob(Err(why)) => e == why,
            _ => false,
        },
{
    read_start(states, answers, i);
    read_step(states, answers, i);
    read_keeps_its_args(states, answers, i - 1);
}

/// How many of the first `i` steps of a read waited.
pub open spec fn waited(states: Seq<Read>, i: int) -> nat
    decreases i,
{
    if i <= 0 {
        0
    } else {
        waited(states, i - 1) + if states[i - 1].wants() is Sleep {
            1nat
        } else {
            0nat
        }
    }
}

proof fn waits_are_counted(states: Seq<Read>, answers: Seq<Answer>, i: int)
    requires
        is_read_run(states, answers),
        0 <= i < states.len(),
        match states[i].phase {
            ReadPhase::Statting | ReadPhase::Resolving { .. } | ReadPhase::Waiting { .. } | ReadPhase::LiveStatting { .. }
            | ReadPhase::LiveResolving { .. } => true,
            _ => false,
        },
    ensures
        waited(states, i) + waits_left(states[i]) == states[0].cfg.live_wait_attempts,
        states[i].wf(),
    decreases i,
{
    read_keeps_its_args(states, answers, i);
    if i > 0 {
        read_step(states, answers, i);
        read_keeps_its_args(states, answers, i - 1);
        waits_are_counted(states, answers, i - 1);
    } else {
        reveal(is_read_run);
    }
}

/// A read gives a file that is being written every chance that it was told to give: it
/// waits exactly so many times, each for the time that it was told, before it gives up.
pub proof fn a_read_waits_as_long_as_it_may(states: Seq<Read>, answers: Seq<Answer>, i: int)
    requires
        is_read_run(states, answers),
        0 <= i < states.len(),
    ensures
        states[i].phase matches ReadPhase::Finished(Err(ChaprError::RetryBudgetExhausted { .. })) && (answers[i - 1] matches Answer::Resolved(
            Ok(_),
        )) ==> waited(states, i) == states[0].cfg.live_wait_attempts,
        states[i].wants() is Sleep ==> states[i].wants() == (Action::Sleep { millis: states[0].cfg.live_wait_interval_ms }) && (answers[i
            - 1] matches Answer::Resolved(Ok(known)) && known.journal_state == JournalState::Live),
{
    if states[i].phase is Finished {
        read_start(states, answers, i);
        read_step(states, answers, i);
        match answers[i - 1] {
            Answer::Resolved(_) => {
                waits_are_counted(states, answers, i - 1);
                read_keeps_its_args(states, answers, i - 1);
            },
            _ => {},
        }
    } else if states[i].wants() is Sleep {
        read_start(states, answers, i);
        read_step(states, answers, i);
        read_keeps_its_args(states, answers, i);
    }
}

/// What a read asks once the coordinator has answered: the contents where nobody is
/// writing or nobody can be asked, a little time where somebody is, and what is known of
/// the write where its writer is gone.
pub proof fn a_read_goes_by_the_journal(s: Read, known: Resolved, n: Read)
    requires
        s.wants() is Resolve,
        s.next(Answer::Resolved(Ok(known)), n),
    ensures
        known.journal_state == JournalState::Clean ==> n.wants() == Action::Read(&s.path),
        known.journal_state == JournalState::Live && waits_left(s) > 0 ==> n.wants() is Sleep,
        known.journal_state == JournalState::Dangling ==> n.wants() == (Action::RecoverJournal {
            path: &s.path,
            principal: &s.principal,
            session_id: &s.session_id,
        }),
{
}

/// The answer to a question about a file tells its own path, the time and size that the
/// file system gave, the version on record for them, and who holds it.
pub proof fn a_stat_tells_what_is_on_record(s: Stat, stat: FileStat, m: Stat, known: Resolved, n: Stat)
    requires
        s.phase is Statting,
        m.path == s.path,
        s.leads(Answer::Stat(Ok(stat)), m.phase),
        n.path == m.path,
        m.leads(Answer::Resolved(Ok(known)), n.phase),
    ensures
        s.wants() == Action::Stat(&s.path),
        m.wants() == (Action::Resolve { path: &s.path, mtime: &stat.mtime, size: stat.size }),
        known.cached_version matches Some(v) ==> n.phase == StatPhase::Finished(
            Ok(
                StatResponse {
                    canonical_path: s.path,
                    size: stat.size,
                    mtime: stat.mtime,
                    version: v,
                    lease: known.lease_state,
                    journal_state: known.journal_state,
                },
            ),
        ),
        known.cached_version is None ==> n.wants() == Action::Read(&s.path),
{
}

/// Where no version is on record, or the coordinator cannot be reached, the version is
/// the hash of what is in the file; it is put on record where it can be.
pub proof fn a_stat_hashes_the_file(s: Stat, stat: FileStat, m: Stat, r: Result<Resolved, ChaprError>, n: Stat, bytes: Vec<u8>, o: Stat, a: Answer, q: Stat)
    requires
        s.phase is Statting,
        m.path == s.path,
        s.leads(Answer::Stat(Ok(stat)), m.phase),
        n.path == m.path,
        m.leads(Answer::Resolved(r), n.phase),
        match r {
            Ok(known) => known.cached_version is None,
            Err(e) => e is CoordUnreachable,
        },
        o.path == n.path,
        n.leads(Answer::Bytes(Ok(bytes)), o.phase),
        q.path == o.path,
        a is Coord,
        o.leads(a, q.phase),
    ensures
        n.wants() == Action::Read(&s.path),
        r is Ok ==> (o.wants() matches Action::RefreshIndex { path, version, mtime, size } && *path == s.path && version@ == blake3_text(
            bytes@,
        ) && *mtime == stat.mtime && size == stat.size),
        r is Err ==> o.wants() is Nothing,
        q.phase matches StatPhase::Finished(Ok(t)) && t.canonical_path == s.path && t.size == stat.size && t.mtime == stat.mtime
            && t.version@ == blake3_text(bytes@) && (r matches Ok(known) ==> t.lease == known.lease_state && t.journal_state
            == known.journal_state) && (r is Err ==> t.lease is None && t.journal_state == JournalState::Clean),
{
}

/// The conflicts that are about a path.
pub open spec fn those_about(conflicts: Seq<CanonicalPath>, path: Seq<char>) -> Seq<CanonicalPath> {
    conflicts.filter(|p: CanonicalPath| p@ == path)
}

/// A listing has every entry of the directory, in its order and under its own name, size
/// and time, at the path that is the directory's and the entry's name; without a
/// version; and with the number of open conflicts where there are any. The coordinator
/// being out of reach takes the numbers away and nothing else.
pub proof fn a_listing_lists_every_entry<M: MountTable>(
    s: List,
    mounts: M,
    roots: Seq<CanonicalPath>,
    raw: Vec<RawDirEntry>,
    m: List,
    r: Result<Vec<CanonicalPath>, ChaprError>,
    n: List,
    entries: Vec<ListEntry>,
    i: int,
)
    requires
        s.phase is Listing,
        m.kind == s.kind,
        m.dir == s.dir,
        s.leads(mounts, roots, Answer::Listing(Ok(raw)), m.phase),
        m.leads(mounts, roots, Answer::Conflicts(r), n.phase),
        n.phase == ListPhase::Finished(Ok(entries)),
        0 <= i < raw@.len(),
        s.dir@.len() > 0,
        s.dir@.last() != grammar_of(s.kind).sep_char(),
    ensures
        s.wants() == Action::List(&s.dir),
        m.wants() == Action::ListConflicts(&s.dir),
        entries@.len() == raw@.len(),
        entries@[i].name == raw@[i].name,
        entries@[i].size == raw@[i].size,
        entries@[i].mtime == raw@[i].mtime,
        entries@[i].version is None,
        may_canonicalize(
            &grammar_of(s.kind),
            mounts,
            s.dir@ + seq![grammar_of(s.kind).sep_char()] + raw@[i].name@,
            roots,
            Ok(entries@[i].canonical_path),
        ),
        r is Err ==> entries@[i].open_conflicts is None,
        r matches Ok(conflicts) ==> (entries@[i].open_conflicts is None <==> forall|k: int|
            0 <= k < conflicts@.len() ==> (#[trigger] conflicts@[k])@ != entries@[i].canonical_path@),
        r matches Ok(conflicts) ==> (conflicts@.len() < u32::MAX ==> (entries@[i].open_conflicts matches Some(c) ==> c == those_about(
            conflicts@,
            entries@[i].canonical_path@,
        ).len())),
{
    assert(lists(
        s.kind,
        mounts,
        roots,
        s.dir@,
        raw@[i],
        match r {
            Ok(conflicts) => conflicts@,
            Err(_) => Seq::empty(),
        },
        entries@[i],
    ));
    a_child_is_one_name_below(s.dir@, raw@[i].name@, grammar_of(s.kind).sep_char());
    if let Ok(conflicts) = r {
        conflicts_are_counted(conflicts@, entries@[i].canonical_path@);
    }
}

proof fn conflicts_are_counted(conflicts: Seq<CanonicalPath>, path: Seq<char>)
    ensures
        conflicts_on(conflicts, path) == those_about(conflicts, path).len(),
        conflicts_on(conflicts, path) <= conflicts.len(),
        conflicts_on(conflicts, path) == 0 <==> forall|k: int| 0 <= k < conflicts.len() ==> (#[trigger] conflicts[k])@ != path,
    decreases conflicts.len(),
{
    reveal(Seq::filter);
    if conflicts.len() > 0 {
        let d = conflicts.drop_last();
        conflicts_are_counted(d, path);
        if conflicts_on(conflicts, path) == 0 {
            assert forall|k: int| 0 <= k < conflicts.len() implies (#[trigger] conflicts[k])@ != path by {
                if k < d.len() {
                    assert(d[k] == conflicts[k]);
                }
            }
        }
        if forall|k: int| 0 <= k < conflicts.len() ==> (#[trigger] conflicts[k])@ != path {
            assert forall|k: int| 0 <= k < d.len() implies (#[trigger] d[k])@ != path by {
                assert(d[k] == conflicts[k]);
            }
            assert(conflicts[conflicts.len() - 1]@ != path);
        }
    }
}

/// An answer to something that was not asked changes nothing.
pub proof fn a_read_heeds_no_other_answer(s: Read, a: Answer, n: Read)
    requires
        s.next(a, n),
        match s.wants() {
            Action::Stat(_) => !(a is Stat),
            Action::Resolve { .. } => !(a is Resolved),
            Action::Read(_) => !(a is Bytes),
            Action::RefreshIndex { .. } | Action::ClearJournal(_) | Action::Audit { .. } | Action::RecordRead { .. } => !(a is Coord),
            Action::Sleep { .. } => !(a is Slept),
            Action::RecoverJournal { .. } => !(a is Recovered),
            Action::GetBlob(_) => !(a is Blob),
            _ => true,
        },
    ensures
        n.phase == s.phase,
{
}

/// A read that cannot tell the coordinator what it found, or have its reading recorded,
/// serves what it has all the same.
pub proof fn a_read_is_served_without_a_record(s: Read, e: ChaprError, n: Read)
    requires
        s.phase is Recording || s.phase is Refreshing || s.phase is Clearing || s.phase is Auditing,
        s.next(Answer::Coord(Err(e)), n),
    ensures
        s.phase matches ReadPhase::Recording { response, version } ==> n.phase == ReadPhase::Finished(Ok(response)),
        !(s.phase is Recording) ==> n.wants() is RecordRead,
{
}

} // verus!
