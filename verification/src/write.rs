//! The verb that writes new contents over a file.
use vstd::prelude::*;

use crate::backend::{went_well, Action, Answer, WriteCasArgs};
use crate::canon::{canonicalize_in, may_canonicalize};
use crate::mount::MountTable;
use crate::ops::{is_receipt_bug, is_unrecorded, owns_up, receipt_bug, single, stored_pre_image, unrecorded};
use crate::pathgrammar::{grammar_for, grammar_of};
use crate::proto::{
    AuditKind, BackendKind, CanonicalPath, ChaprError, LeaseId, LeasePurpose, PreImage, Principal, SessionId,
    VersionEvent, VersionToken, WriteMode,
};
use crate::text::{blank, blank_means_all_white, is_blank, is_white, own};
use crate::write_cas::{WriteCas, WritePhase};

verus! {

/// Where the verb stands.
pub enum WriteVerbPhase {
    /// That this session read the version it names.
    Asserting { content: Vec<u8>, base: VersionToken, mode: WriteMode },
    /// The lease.
    Acquiring { content: Vec<u8>, base: VersionToken, mode: WriteMode },
    /// The operation on the file.
    Working { lease: LeaseId, op: WriteCas },
    /// The version log.
    Logging { lease: LeaseId, from: Option<VersionToken>, version: VersionToken, pre_image: Option<PreImage>, size: u64 },
    /// The audit trail.
    Auditing { lease: LeaseId, from: Option<VersionToken>, version: VersionToken, detail: String },
    /// That this session knows the version, so that it can go on to write.
    Recording { lease: LeaseId, version: VersionToken },
    /// The lease given back.
    Releasing { lease: LeaseId, result: Result<VersionToken, ChaprError> },
    /// Nothing more.
    Finished(Result<VersionToken, ChaprError>),
}

/// A write over a file, with all that goes with it.
pub struct WriteVerb {
    /// The kind of fileserver.
    pub kind: BackendKind,
    /// Whether its writes cannot tear.
    pub atomic_writes: bool,
    /// Who writes.
    pub principal: Principal,
    /// In which session.
    pub session_id: SessionId,
    /// The file.
    pub path: CanonicalPath,
    /// The paths to be leased.
    pub paths: Vec<CanonicalPath>,
    /// Whether the write is forced past the version check.
    pub forced: bool,
    /// Where the verb stands.
    pub phase: WriteVerbPhase,
}

/// What comes after the operation on the file, or the operation itself while it
/// is not over.
pub open spec fn write_settles(path: CanonicalPath, lease: LeaseId, op: WriteCas, p: WriteVerbPhase) -> bool {
    match op.phase {
        WritePhase::Finished(Ok(receipt)) => match receipt.to_version {
            Some(version) => p == (WriteVerbPhase::Logging {
                lease,
                from: receipt.from_version,
                version,
                pre_image: stored_pre_image(receipt),
                size: receipt.size,
            }),
            None => p matches WriteVerbPhase::Releasing { lease: l, result: Err(e) } && l == lease
                && is_receipt_bug(e, "write"@, path, "to_version"@),
        },
        WritePhase::Finished(Err(e)) => p == (WriteVerbPhase::Releasing { lease, result: Err(e) }),
        _ => p == (WriteVerbPhase::Working { lease, op }),
    }
}

impl WriteVerb {
    /// Whether the verb is in a state that it can come to.
    pub open spec fn wf(&self) -> bool {
        &&& self.paths@ == seq![self.path]
        &&& self.phase matches WriteVerbPhase::Working { lease, op } ==> op.wf()
    }

    /// Whether `op` is the write that the verb is about.
    pub open spec fn begins(&self, lease: LeaseId, content: Vec<u8>, base: VersionToken, mode: WriteMode, op: WriteCas) -> bool {
        &&& op.started()
        &&& op.kind == self.kind
        &&& op.atomic_writes == self.atomic_writes
        &&& op.principal == self.principal
        &&& op.session_id == self.session_id
        &&& op.args == (WriteCasArgs { path: self.path, lease_id: lease, content, base_version: base, mode })
    }

    /// What the audit trail says of the write.
    pub open spec fn detail_text(&self) -> Seq<char> {
        if self.forced {
            "forced write"@
        } else {
            "write"@
        }
    }

    /// Where an answer takes the verb.
    pub open spec fn leads(&self, a: Answer, p: WriteVerbPhase) -> bool {
        match (self.phase, a) {
            (WriteVerbPhase::Asserting { content, base, mode }, Answer::Coord(r)) => match r {
                Ok(()) => p == (WriteVerbPhase::Acquiring { content, base, mode }),
                Err(e) => p == WriteVerbPhase::Finished(Err(e)),
            },
            (WriteVerbPhase::Acquiring { content, base, mode }, Answer::Lease(r)) => match r {
                Ok(lease) => exists|op: WriteCas| #[trigger] op.started() && self.begins(lease, content, base, mode, op)
                    && write_settles(self.path, lease, op, p),
                Err(e) => p == WriteVerbPhase::Finished(Err(e)),
            },
            (WriteVerbPhase::Working { lease, op }, a) => exists|n: WriteCas| #[trigger] op.next(a, n)
                && write_settles(self.path, lease, n, p),
            (WriteVerbPhase::Logging { lease, from, version, pre_image, size }, Answer::Coord(r)) => match r {
                Ok(()) => p matches WriteVerbPhase::Auditing { lease: l, from: f, version: v, detail } && l == lease
                    && f == from && v == version && detail@ == self.detail_text(),
                Err(e) => p matches WriteVerbPhase::Releasing { lease: l, result: Err(r) } && l == lease
                    && is_unrecorded(r, self.path, version, e),
            },
            (WriteVerbPhase::Auditing { lease, from, version, detail }, Answer::Coord(r)) => match r {
                Ok(()) => p == (WriteVerbPhase::Recording { lease, version }),
                Err(e) => p matches WriteVerbPhase::Releasing { lease: l, result: Err(r) } && l == lease
                    && is_unrecorded(r, self.path, version, e),
            },
            (WriteVerbPhase::Recording { lease, version }, Answer::Coord(_)) => {
                p == (WriteVerbPhase::Releasing { lease, result: Ok(version) })
            },
            (WriteVerbPhase::Releasing { lease, result }, Answer::Coord(_)) => p == WriteVerbPhase::Finished(result),
            (phase, _) => p == phase,
        }
    }

    /// Whether `n` is this verb one answer later.
    pub open spec fn next(&self, a: Answer, n: WriteVerb) -> bool {
        &&& n.kind == self.kind
        &&& n.atomic_writes == self.atomic_writes
        &&& n.principal == self.principal
        &&& n.session_id == self.session_id
        &&& n.path == self.path
        &&& n.paths == self.paths
        &&& n.forced == self.forced
        &&& self.leads(a, n.phase)
    }

    /// What the verb needs done.
    pub open spec fn wants(&self) -> Action<'_> {
        match self.phase {
            WriteVerbPhase::Asserting { content, base, mode } => Action::AssertRead {
                session_id: &self.session_id,
                path: &self.path,
                version: &base,
            },
            WriteVerbPhase::Acquiring { content, base, mode } => Action::Acquire {
                principal: &self.principal,
                session_id: &self.session_id,
                purpose: LeasePurpose::Write,
                paths: &self.paths,
            },
            WriteVerbPhase::Working { lease, op } => op.wants(),
            WriteVerbPhase::Logging { lease, from, version, pre_image, size } => Action::AppendLog {
                path: &self.path,
                blob_hash: &version,
                writer: &self.principal,
                size,
                event: if self.forced { VersionEvent::WriteForced } else { VersionEvent::Write },
                pre_image: match pre_image {
                    Some(i) => Some(&i),
                    None => None,
                },
            },
            WriteVerbPhase::Auditing { lease, from, version, detail } => Action::Audit {
                principal: &self.principal,
                session_id: &self.session_id,
                path: &self.path,
                kind: AuditKind::WriteCommit,
                from_version: match from {
                    Some(v) => Some(&v),
                    None => None,
                },
                to_version: Some(&version),
                detail: &detail,
            },
            WriteVerbPhase::Recording { lease, version } => Action::RecordRead {
                session_id: &self.session_id,
                path: &self.path,
                version: &version,
            },
            WriteVerbPhase::Releasing { lease, result } => Action::Release(&lease),
            WriteVerbPhase::Finished(_) => Action::Nothing,
        }
    }

    /// What the verb needs done next.
    pub fn action(&self) -> (r: Action<'_>)
        requires
            self.wf(),
        ensures
            r == self.wants(),
    {
        match &self.phase {
            WriteVerbPhase::Asserting { content: _, base, mode: _ } => Action::AssertRead {
                session_id: &self.session_id,
                path: &self.path,
                version: base,
            },
            WriteVerbPhase::Acquiring { content: _, base: _, mode: _ } => Action::Acquire {
                principal: &self.principal,
                session_id: &self.session_id,
                purpose: LeasePurpose::Write,
                paths: &self.paths,
            },
            WriteVerbPhase::Working { lease: _, op } => op.action(),
            WriteVerbPhase::Logging { lease: _, from: _, version, pre_image, size } => Action::AppendLog {
                path: &self.path,
                blob_hash: version,
                writer: &self.principal,
                size: *size,
                event: if self.forced { VersionEvent::WriteForced } else { VersionEvent::Write },
                pre_image: pre_image.as_ref(),
            },
            WriteVerbPhase::Auditing { lease: _, from, version, detail } => Action::Audit {
                principal: &self.principal,
                session_id: &self.session_id,
                path: &self.path,
                kind: AuditKind::WriteCommit,
                from_version: from.as_ref(),
                to_version: Some(version),
                detail,
            },
            WriteVerbPhase::Recording { lease: _, version } => Action::RecordRead {
                session_id: &self.session_id,
                path: &self.path,
                version,
            },
            WriteVerbPhase::Releasing { lease, result: _ } => Action::Release(lease),
            WriteVerbPhase::Finished(_) => Action::Nothing,
        }
    }

    fn settle(&self, lease: LeaseId, op: WriteCas) -> (p: WriteVerbPhase)
        requires
            op.wf(),
        ensures
            write_settles(self.path, lease, op, p),
            p matches WriteVerbPhase::Working { lease: l, op: o } ==> o.wf(),
    {
        if !matches!(op.phase, WritePhase::Finished(_)) {
            return WriteVerbPhase::Working { lease, op };
        }
        match op.phase {
            WritePhase::Finished(Ok(receipt)) => {
                let pre_image = match (&receipt.from_version, &receipt.from_size) {
                    (Some(version), Some(size)) => Some(PreImage { version: version.clone(), size: *size }),
                    _ => None,
                };
                match receipt.to_version {
                    Some(version) => WriteVerbPhase::Logging {
                        lease,
                        from: receipt.from_version,
                        version,
                        pre_image,
                        size: receipt.size,
                    },
                    None => WriteVerbPhase::Releasing {
                        lease,
                        result: Err(receipt_bug("write", &self.path, "to_version")),
                    },
                }
            },
            WritePhase::Finished(Err(e)) => WriteVerbPhase::Releasing { lease, result: Err(e) },
            _ => WriteVerbPhase::Releasing { lease, result: Err(ChaprError::CoordUnreachable) },
        }
    }

    /// Moves the verb on by what came of its action.
    pub fn advance(self, answer: Answer) -> (n: WriteVerb)
        requires
            self.wf(),
        ensures
            n.wf(),
            self.next(answer, n),
    {
        let mut verb = self;
        let mut phase = WriteVerbPhase::Finished(Err(ChaprError::CoordUnreachable));
        std::mem::swap(&mut verb.phase, &mut phase);
        let next = match (phase, answer) {
            (WriteVerbPhase::Asserting { content, base, mode }, Answer::Coord(r)) => match r {
                Ok(()) => WriteVerbPhase::Acquiring { content, base, mode },
                Err(e) => WriteVerbPhase::Finished(Err(e)),
            },
            (WriteVerbPhase::Acquiring { content, base, mode }, Answer::Lease(r)) => match r {
                Ok(lease) => {
                    let args = WriteCasArgs {
                        path: verb.path.clone(),
                        lease_id: lease.clone(),
                        content,
                        base_version: base,
                        mode,
                    };
                    let op = WriteCas::begin(
                        verb.kind,
                        verb.atomic_writes,
                        verb.principal.clone(),
                        verb.session_id.clone(),
                        args,
                    );
                    assert(op.started());
                    verb.settle(lease, op)
                },
                Err(e) => WriteVerbPhase::Finished(Err(e)),
            },
            (WriteVerbPhase::Working { lease, op }, answer) => {
                let n = op.advance(answer);
                verb.settle(lease, n)
            },
            (WriteVerbPhase::Logging { lease, from, version, pre_image: _, size: _ }, Answer::Coord(r)) => match r {
                Ok(()) => {
                    let detail = if verb.forced { own("forced write") } else { own("write") };
                    WriteVerbPhase::Auditing { lease, from, version, detail }
                },
                Err(e) => WriteVerbPhase::Releasing { lease, result: Err(unrecorded(&verb.path, version, e)) },
            },
            (WriteVerbPhase::Auditing { lease, from: _, version, detail: _ }, Answer::Coord(r)) => match r {
                Ok(()) => WriteVerbPhase::Recording { lease, version },
                Err(e) => WriteVerbPhase::Releasing { lease, result: Err(unrecorded(&verb.path, version, e)) },
            },
            (WriteVerbPhase::Recording { lease, version }, Answer::Coord(_)) => WriteVerbPhase::Releasing {
                lease,
                result: Ok(version),
            },
            (WriteVerbPhase::Releasing { lease: _, result }, Answer::Coord(_)) => WriteVerbPhase::Finished(result),
            (phase, _) => phase,
        };
        verb.phase = next;
        verb
    }
}

/// Whether a write is forced without a word on why.
pub open spec fn lacks_reason(mode: WriteMode) -> bool {
    mode matches WriteMode::Force { reason } && is_blank(reason@)
}

/// A write over a file: read before, under a lease, recorded, the lease given
/// back. A forced write has to say why.
pub fn write<M: MountTable>(
    kind: BackendKind,
    atomic_writes: bool,
    mounts: &M,
    roots: &[CanonicalPath],
    principal: Principal,
    session_id: SessionId,
    raw_uri: &str,
    content: Vec<u8>,
    base_version: VersionToken,
    mode: WriteMode,
) -> (r: Result<WriteVerb, ChaprError>)
    ensures
        exists|path: Result<CanonicalPath, ChaprError>|
            #[trigger] may_canonicalize(&grammar_of(kind), *mounts, raw_uri@, roots@, path) && match path {
                Ok(p) => if lacks_reason(mode) {
                    r == Err::<WriteVerb, ChaprError>(ChaprError::ForceRequiresReason { path: p })
                } else {
                    r matches Ok(v) && v.wf() && v.kind == kind && v.atomic_writes == atomic_writes
                        && v.principal == principal && v.session_id == session_id && v.path == p
                        && v.forced == (mode is Force)
                        && v.phase == (WriteVerbPhase::Asserting { content, base: base_version, mode })
                },
                Err(e) => r == Err::<WriteVerb, ChaprError>(e),
            },
{
    let canonical = canonicalize_in(raw_uri, &grammar_for(kind), mounts, roots);
    let ghost seen = canonical;
    assert(may_canonicalize(&grammar_of(kind), *mounts, raw_uri@, roots@, seen));
    match canonical {
        Ok(path) => {
            let mut forced = false;
            if let WriteMode::Force { reason } = &mode {
                if blank(reason.as_str()) {
                    return Err(ChaprError::ForceRequiresReason { path });
                }
                forced = true;
            }
            let paths = single(&path);
            Ok(
                WriteVerb {
                    kind,
                    atomic_writes,
                    principal,
                    session_id,
                    path,
                    paths,
                    forced,
                    phase: WriteVerbPhase::Asserting { content, base: base_version, mode },
                },
            )
        },
        Err(e) => Err(e),
    }
}

/// The lease that a write holds.
pub open spec fn write_lease(p: WriteVerbPhase) -> Option<LeaseId> {
    match p {
        WriteVerbPhase::Working { lease, .. } => Some(lease),
        WriteVerbPhase::Logging { lease, .. } => Some(lease),
        WriteVerbPhase::Auditing { lease, .. } => Some(lease),
        WriteVerbPhase::Recording { lease, .. } => Some(lease),
        WriteVerbPhase::Releasing { lease, .. } => Some(lease),
        _ => None,
    }
}

/// A write that holds a lease keeps it until it gives that lease back.
pub proof fn write_gives_its_lease_back(s: WriteVerb, a: Answer, n: WriteVerb)
    requires
        s.next(a, n),
        write_lease(s.phase) is Some,
    ensures
        write_lease(n.phase) == write_lease(s.phase) || (s.phase is Releasing && n.phase is Finished),
        s.phase matches WriteVerbPhase::Releasing { lease, result } ==> s.wants() == Action::Release(&lease),
{
}

/// Whether the contents of a write are on the share.
pub open spec fn is_written(v: WriteVerb) -> bool {
    match v.phase {
        WriteVerbPhase::Asserting { .. } => false,
        WriteVerbPhase::Acquiring { .. } => false,
        WriteVerbPhase::Working { lease, op } => op.phase is Closing || op.phase is Clearing,
        WriteVerbPhase::Logging { .. } => true,
        WriteVerbPhase::Auditing { .. } => true,
        WriteVerbPhase::Recording { .. } => true,
        WriteVerbPhase::Releasing { lease, result } => owns_up(result, v.path),
        WriteVerbPhase::Finished(result) => owns_up(result, v.path),
    }
}

/// A write on the share is never reported as not written: from the answer that
/// overwrote the file on, the verb ends with a success or says that the contents
/// are there and not recorded.
pub proof fn written_is_never_denied(s: WriteVerb, a: Answer, n: WriteVerb)
    requires
        s.next(a, n),
        is_written(s) || (s.phase matches WriteVerbPhase::Working { lease, op } && op.phase is Overwriting && a is Done
            && went_well(a)),
    ensures
        is_written(n),
{
}

/// Without the coordinator nothing is written: a write that cannot have its
/// version confirmed, or gets no lease, ends with that error before it touches
/// the file.
pub proof fn writes_fail_closed(s: WriteVerb, a: Answer, e: ChaprError, n: WriteVerb)
    requires
        s.next(a, n),
        s.phase is Asserting && a == Answer::Coord(Err(e)) || s.phase is Acquiring && a == Answer::Lease(Err(e)),
    ensures
        n.phase == WriteVerbPhase::Finished(Err(e)),
{
}

/// A write begins by having it confirmed that this session read the version it names,
/// then takes a lease for writing on the path, and works under that lease on exactly what
/// was submitted.
pub proof fn a_write_begins_with_leave(s: WriteVerb, content: Vec<u8>, base: VersionToken, mode: WriteMode, n: WriteVerb, lease: LeaseId, m: WriteVerb)
    requires
        s.wf(),
        s.phase == (WriteVerbPhase::Asserting { content, base, mode }),
        s.next(Answer::Coord(Ok(())), n),
        n.next(Answer::Lease(Ok(lease)), m),
    ensures
        s.wants() == (Action::AssertRead { session_id: &s.session_id, path: &s.path, version: &base }),
        n.wants() matches Action::Acquire { principal, session_id, purpose, paths } && *principal == s.principal && *session_id
            == s.session_id && purpose == LeasePurpose::Write && paths@ == seq![s.path],
        m.phase matches WriteVerbPhase::Working { lease: l, op } && l == lease && op.kind == s.kind && op.principal == s.principal
            && op.session_id == s.session_id && op.atomic_writes == s.atomic_writes && op.args.path == s.path && op.args.lease_id
            == lease && op.args.content == content && op.args.base_version == base && op.args.mode == mode,
{
}

/// While the file is worked on, a write asks for what the operation on the file asks; once
/// that is done, it has the change put into the version log: the new version and its size
/// under the writer's name, as a write or a forced one, with the version and size of what
/// was replaced. What stopped the operation is what the write ends with.
pub proof fn a_write_is_logged_as_it_was(s: WriteVerb, lease: LeaseId, op: WriteCas, a: Answer, n: WriteVerb)
    requires
        s.phase == (WriteVerbPhase::Working { lease, op }),
        s.next(a, n),
    ensures
        s.wants() == op.wants(),
        exists|done: WriteCas| #[trigger] op.next(a, done) && match done.phase {
            WritePhase::Finished(Ok(receipt)) => receipt.to_version matches Some(v) ==> (n.wants() matches Action::AppendLog {
                path,
                blob_hash,
                writer,
                size,
                event,
                pre_image,
            } && *path == s.path && *blob_hash == v && *writer == s.principal && size == receipt.size && event == (if s.forced {
                VersionEvent::WriteForced
            } else {
                VersionEvent::Write
            }) && (receipt.from_version matches Some(from) ==> (receipt.from_size matches Some(k) ==> (pre_image matches Some(p)
                && p.version == from && p.size == k)))),
            WritePhase::Finished(Err(e)) => n.wants() == Action::Release(&lease) && n.phase == (WriteVerbPhase::Releasing {
                lease,
                result: Err(e),
            }),
            _ => n.phase == (WriteVerbPhase::Working { lease, op: done }),
        },
{
}

/// After the version log comes the audit trail, then the note that this session knows the
/// version it wrote, and last the lease goes back; the write ends with that version.
pub proof fn a_logged_write_is_seen_through(
    s: WriteVerb,
    lease: LeaseId,
    from: Option<VersionToken>,
    version: VersionToken,
    pre_image: Option<PreImage>,
    size: u64,
    n: WriteVerb,
    m: WriteVerb,
    r: Result<(), ChaprError>,
    o: WriteVerb,
    q: Result<(), ChaprError>,
    end: WriteVerb,
)
    requires
        s.phase == (WriteVerbPhase::Logging { lease, from, version, pre_image, size }),
        s.next(Answer::Coord(Ok(())), n),
        n.next(Answer::Coord(Ok(())), m),
        m.next(Answer::Coord(r), o),
        o.next(Answer::Coord(q), end),
    ensures
        n.wants() matches Action::Audit { principal, session_id, path, kind, from_version, to_version: Some(to), detail } && *principal
            == s.principal && *session_id == s.session_id && *path == s.path && kind == AuditKind::WriteCommit && *to == version
            && (from matches Some(f) ==> from_version == Some(&f)) && detail@ == (if s.forced {
            "forced write"@
        } else {
            "write"@
        }),
        m.wants() == (Action::RecordRead { session_id: &s.session_id, path: &s.path, version: &version }),
        o.wants() == Action::Release(&lease),
        end.phase == WriteVerbPhase::Finished(Ok(version)),
{
}

/// A write that is on the share and could not be recorded says so, with the path and the
/// version that is there, and gives its lease back.
pub proof fn an_unrecorded_write_says_so(s: WriteVerb, e: ChaprError, n: WriteVerb, r: Result<(), ChaprError>, end: WriteVerb)
    requires
        s.phase is Logging || s.phase is Auditing,
        s.next(Answer::Coord(Err(e)), n),
        n.next(Answer::Coord(r), end),
    ensures
        n.wants() is Release,
        end.phase matches WriteVerbPhase::Finished(Err(ChaprError::CommittedButUnrecorded { path, version, message })) && message@ == e.text() && path
            == s.path
            && match s.phase {
            WriteVerbPhase::Logging { version: v, .. } => v == version,
            WriteVerbPhase::Auditing { version: v, .. } => v == version,
            _ => false,
        },
{
}

/// A write is forced only with a reason: white space is none.
pub proof fn forcing_takes_a_reason(mode: WriteMode)
    ensures
        lacks_reason(mode) <==> (mode matches WriteMode::Force { reason } && forall|i: int|
            0 <= i < reason@.len() ==> is_white(#[trigger] reason@[i])),
{
    if let WriteMode::Force { reason } = mode {
        blank_means_all_white(reason@);
    }
}

} // verus!
