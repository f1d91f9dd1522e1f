//! The verbs that change the share: create, make a directory, delete, restore,
//! move.
//!
//! Each verb takes a lease, runs the operation on the file under it, records
//! what was done, and gives the lease back whatever happened. Once the change is
//! on the share, a failure to record it is told as such and never as a failure
//! of the change.
use vstd::prelude::*;

use crate::backend::{
    map_os_err, os_error, parent_of, parent_text, went_well, Action, Answer, CommitReceipt, DeleteCasArgs, IoFailure,
    IoKind, MoveCasArgs, MoveReceipt, RestoreInPlaceArgs,
};
use crate::canon::{canonicalize_in, may_canonicalize};
use crate::create::{CopyPhase, Create, CreatePhase, MakeDir, MkdirPhase, RestoreCopy};
use crate::delete_cas::{DeleteCas, DeletePhase};
use crate::move_cas::{MoveCas, MovePhase};
use crate::mount::MountTable;
use crate::nearname::{a_slip_in_a_name_is_caught, plain_form, resembles, similar_names, unnumbered};
use crate::pathgrammar::{
    cut_of, grammar_for, grammar_of, is_short_id, is_stamp, last_index, restored_text, PathGrammar,
};
use crate::proto::{
    AuditKind, BackendKind, CanonicalPath, ChaprError, EntryType, LeaseId, LeasePurpose, PreImage, Principal,
    RawDirEntry, RestoreBase, RestoreMode, SessionId, VersionEvent, VersionToken,
};
use crate::restore_in_place::{RestoreInPlace, RestorePhase};
use crate::text::{chars_of, join, joined, mentions, own, slice_of, spelled, views};

verus! {

/// Whether `r` says that the change is on the share and that recording it
/// failed for the reason `e`.
pub open spec fn is_unrecorded(r: ChaprError, path: CanonicalPath, version: VersionToken, e: ChaprError) -> bool {
    r matches ChaprError::CommittedButUnrecorded { path: p, version: v, message } && p == path && v == version
        && message@ == e.text()
}

/// Says that the change is on the share and that recording it failed.
pub fn unrecorded(path: &CanonicalPath, version: VersionToken, e: ChaprError) -> (r: ChaprError)
    ensures
        is_unrecorded(r, *path, version, e),
{
    ChaprError::CommittedButUnrecorded { path: path.clone(), version, message: e.message() }
}

/// Whether `r` says that a receipt lacks the version it must have.
pub open spec fn is_receipt_bug(r: ChaprError, verb: Seq<char>, path: CanonicalPath, field: Seq<char>) -> bool {
    r matches ChaprError::Internal { message } && message@ == "backend bug: successful "@ + verb + " receipt for "@
        + path@ + " has no "@ + field
}

pub(crate) fn receipt_bug(verb: &str, path: &CanonicalPath, field: &str) -> (r: ChaprError)
    ensures
        is_receipt_bug(r, verb@, *path, field@),
{
    let mut message = own("backend bug: successful ");
    message.append(verb);
    message.append(" receipt for ");
    message.append(path.as_str());
    message.append(" has no ");
    message.append(field);
    ChaprError::Internal { message }
}

pub(crate) fn single(path: &CanonicalPath) -> (r: Vec<CanonicalPath>)
    ensures
        r@ == seq![*path],
{
    let mut v: Vec<CanonicalPath> = Vec::new();
    v.push(path.clone());
    assert(v@ =~= seq![*path]);
    v
}

// ---- create ----

/// Where the verb stands.
pub enum CreateVerbPhase {
    /// The lease.
    Acquiring { content: Vec<u8> },
    /// The operation on the file.
    Working { lease: LeaseId, op: Create },
    /// The version log.
    Logging { lease: LeaseId, version: VersionToken, size: u64 },
    /// The audit trail.
    Auditing { lease: LeaseId, version: VersionToken, detail: String },
    /// That this session knows the version, so that it can go on to write.
    Recording { lease: LeaseId, version: VersionToken },
    /// The lease given back.
    Releasing { lease: LeaseId, result: Result<VersionToken, ChaprError> },
    /// Nothing more.
    Finished(Result<VersionToken, ChaprError>),
}

/// The creation of a file, with all that goes with it.
pub struct CreateVerb {
    /// The kind of fileserver.
    pub kind: BackendKind,
    /// Who creates.
    pub principal: Principal,
    /// In which session.
    pub session_id: SessionId,
    /// The file.
    pub path: CanonicalPath,
    /// The paths to be leased.
    pub paths: Vec<CanonicalPath>,
    /// Where the verb stands.
    pub phase: CreateVerbPhase,
}

/// What comes after the operation on the file, or the operation itself while it
/// is not over.
pub open spec fn create_settles(path: CanonicalPath, lease: LeaseId, op: Create, p: CreateVerbPhase) -> bool {
    match op.phase {
        CreatePhase::Finished(Ok(receipt)) => match receipt.to_version {
            Some(version) => p == (CreateVerbPhase::Logging { lease, version, size: receipt.size }),
            None => p matches CreateVerbPhase::Releasing { lease: l, result: Err(e) } && l == lease
                && is_receipt_bug(e, "create"@, path, "to_version"@),
        },
        CreatePhase::Finished(Err(e)) => p == (CreateVerbPhase::Releasing { lease, result: Err(e) }),
        _ => p == (CreateVerbPhase::Working { lease, op }),
    }
}

impl CreateVerb {
    /// Whether the verb is in a state that it can come to.
    pub open spec fn wf(&self) -> bool {
        &&& self.paths@ == seq![self.path]
        &&& self.phase matches CreateVerbPhase::Working { lease, op } ==> op.wf()
    }

    /// Where an answer takes the verb.
    pub open spec fn leads(&self, a: Answer, p: CreateVerbPhase) -> bool {
        match (self.phase, a) {
            (CreateVerbPhase::Acquiring { content }, Answer::Lease(r)) => match r {
                Ok(lease) => exists|op: Create| #[trigger] op.started() && op.kind == self.kind && op.path == self.path
                    && op.content == content && create_settles(self.path, lease, op, p),
                Err(e) => p == CreateVerbPhase::Finished(Err(e)),
            },
            (CreateVerbPhase::Working { lease, op }, a) => exists|n: Create| #[trigger] op.next(a, n)
                && create_settles(self.path, lease, n, p),
            (CreateVerbPhase::Logging { lease, version, size }, Answer::Coord(r)) => match r {
                Ok(()) => p matches CreateVerbPhase::Auditing { lease: l, version: v, detail } && l == lease
                    && v == version && detail@ == "create"@,
                Err(e) => p matches CreateVerbPhase::Releasing { lease: l, result: Err(r) } && l == lease
                    && is_unrecorded(r, self.path, version, e),
            },
            (CreateVerbPhase::Auditing { lease, version, detail }, Answer::Coord(r)) => match r {
                Ok(()) => p == (CreateVerbPhase::Recording { lease, version }),
                Err(e) => p matches CreateVerbPhase::Releasing { lease: l, result: Err(r) } && l == lease
                    && is_unrecorded(r, self.path, version, e),
            },
            (CreateVerbPhase::Recording { lease, version }, Answer::Coord(_)) => {
                p == (CreateVerbPhase::Releasing { lease, result: Ok(version) })
            },
            (CreateVerbPhase::Releasing { lease, result }, Answer::Coord(_)) => p == CreateVerbPhase::Finished(result),
            (phase, _) => p == phase,
        }
    }

    /// Whether `n` is this verb one answer later.
    pub open spec fn next(&self, a: Answer, n: CreateVerb) -> bool {
        &&& n.kind == self.kind
        &&& n.principal == self.principal
        &&& n.session_id == self.session_id
        &&& n.path == self.path
        &&& n.paths == self.paths
        &&& self.leads(a, n.phase)
    }

    /// What the verb needs done.
    pub open spec fn wants(&self) -> Action<'_> {
        match self.phase {
            CreateVerbPhase::Acquiring { content } => Action::Acquire {
                principal: &self.principal,
                session_id: &self.session_id,
                purpose: LeasePurpose::Create,
                paths: &self.paths,
            },
            CreateVerbPhase::Working { lease, op } => op.wants(),
            CreateVerbPhase::Logging { lease, version, size } => Action::AppendLog {
                path: &self.path,
                blob_hash: &version,
                writer: &self.principal,
                size,
                event: VersionEvent::Create,
                pre_image: None,
            },
            CreateVerbPhase::Auditing { lease, version, detail } => Action::Audit {
                principal: &self.principal,
                session_id: &self.session_id,
                path: &self.path,
                kind: AuditKind::WriteCommit,
                from_version: None,
                to_version: Some(&version),
                detail: &detail,
            },
            CreateVerbPhase::Recording { lease, version } => Action::RecordRead {
                session_id: &self.session_id,
                path: &self.path,
                version: &version,
            },
            CreateVerbPhase::Releasing { lease, result } => Action::Release(&lease),
            CreateVerbPhase::Finished(_) => Action::Nothing,
        }
    }

    /// What the verb needs done next.
    pub fn action(&self) -> (r: Action<'_>)
        requires
            self.wf(),
        ensures
            r == self.wants(),
    {
        match &self.phase {
            CreateVerbPhase::Acquiring { content: _ } => Action::Acquire {
                principal: &self.principal,
                session_id: &self.session_id,
                purpose: LeasePurpose::Create,
                paths: &self.paths,
            },
            CreateVerbPhase::Working { lease: _, op } => op.action(),
            CreateVerbPhase::Logging { lease: _, version, size } => Action::AppendLog {
                path: &self.path,
                blob_hash: version,
                writer: &self.principal,
                size: *size,
                event: VersionEvent::Create,
                pre_image: None,
            },
            CreateVerbPhase::Auditing { lease: _, version, detail } => Action::Audit {
                principal: &self.principal,
                session_id: &self.session_id,
                path: &self.path,
                kind: AuditKind::WriteCommit,
                from_version: None,
                to_version: Some(version),
                detail,
            },
            CreateVerbPhase::Recording { lease: _, version } => Action::RecordRead {
                session_id: &self.session_id,
                path: &self.path,
                version,
            },
            CreateVerbPhase::Releasing { lease, result: _ } => Action::Release(lease),
            CreateVerbPhase::Finished(_) => Action::Nothing,
        }
    }

    fn settle(&self, lease: LeaseId, op: Create) -> (p: CreateVerbPhase)
        requires
            op.wf(),
        ensures
            create_settles(self.path, lease, op, p),
            p matches CreateVerbPhase::Working { lease: l, op: o } ==> o.wf(),
    {
        if !matches!(op.phase, CreatePhase::Finished(_)) {
            return CreateVerbPhase::Working { lease, op };
        }
        match op.phase {
            CreatePhase::Finished(Ok(receipt)) => match receipt.to_version {
                Some(version) => CreateVerbPhase::Logging { lease, version, size: receipt.size },
                None => CreateVerbPhase::Releasing {
                    lease,
                    result: Err(receipt_bug("create", &self.path, "to_version")),
                },
            },
            CreatePhase::Finished(Err(e)) => CreateVerbPhase::Releasing { lease, result: Err(e) },
            _ => CreateVerbPhase::Releasing { lease, result: Err(ChaprError::CoordUnreachable) },
        }
    }

    /// Moves the verb on by what came of its action.
    pub fn advance(self, answer: Answer) -> (n: CreateVerb)
        requires
            self.wf(),
        ensures
            n.wf(),
            self.next(answer, n),
    {
        let mut verb = self;
        let mut phase = CreateVerbPhase::Finished(Err(ChaprError::CoordUnreachable));
        std::mem::swap(&mut verb.phase, &mut phase);
        let next = match (phase, answer) {
            (CreateVerbPhase::Acquiring { content }, Answer::Lease(r)) => match r {
                Ok(lease) => {
                    let op = Create::begin(verb.kind, verb.path.clone(), content);
                    assert(op.started());
                    verb.settle(lease, op)
                },
                Err(e) => CreateVerbPhase::Finished(Err(e)),
            },
            (CreateVerbPhase::Working { lease, op }, answer) => {
                let n = op.advance(answer);
                verb.settle(lease, n)
            },
            (CreateVerbPhase::Logging { lease, version, size: _ }, Answer::Coord(r)) => match r {
                Ok(()) => CreateVerbPhase::Auditing { lease, version, detail: own("create") },
                Err(e) => CreateVerbPhase::Releasing { lease, result: Err(unrecorded(&verb.path, version, e)) },
            },
            (CreateVerbPhase::Auditing { lease, version, detail: _ }, Answer::Coord(r)) => match r {
                Ok(()) => CreateVerbPhase::Recording { lease, version },
                Err(e) => CreateVerbPhase::Releasing { lease, result: Err(unrecorded(&verb.path, version, e)) },
            },
            (CreateVerbPhase::Recording { lease, version }, Answer::Coord(_)) => CreateVerbPhase::Releasing {
                lease,
                result: Ok(version),
            },
            (CreateVerbPhase::Releasing { lease: _, result }, Answer::Coord(_)) => CreateVerbPhase::Finished(result),
            (phase, _) => phase,
        };
        verb.phase = next;
        verb
    }
}

/// The creation of a file: under a lease, recorded, the lease given back.
pub fn create<M: MountTable>(
    kind: BackendKind,
    mounts: &M,
    roots: &[CanonicalPath],
    principal: Principal,
    session_id: SessionId,
    raw_uri: &str,
    content: Vec<u8>,
) -> (r: Result<CreateVerb, ChaprError>)
    ensures
        exists|path: Result<CanonicalPath, ChaprError>|
            #[trigger] may_canonicalize(&grammar_of(kind), *mounts, raw_uri@, roots@, path) && match path {
                Ok(p) => r matches Ok(v) && v.wf() && v.kind == kind && v.principal == principal
                    && v.session_id == session_id && v.path == p && v.phase == (CreateVerbPhase::Acquiring { content }),
                Err(e) => r == Err::<CreateVerb, ChaprError>(e),
            },
{
    match canonicalize_in(raw_uri, &grammar_for(kind), mounts, roots) {
        Ok(path) => {
            let paths = single(&path);
            Ok(CreateVerb { kind, principal, session_id, path, paths, phase: CreateVerbPhase::Acquiring { content } })
        },
        Err(e) => Err(e),
    }
}

/// The lease that a creation holds.
pub open spec fn create_lease(p: CreateVerbPhase) -> Option<LeaseId> {
    match p {
        CreateVerbPhase::Acquiring { .. } => None,
        CreateVerbPhase::Working { lease, .. } => Some(lease),
        CreateVerbPhase::Logging { lease, .. } => Some(lease),
        CreateVerbPhase::Auditing { lease, .. } => Some(lease),
        CreateVerbPhase::Recording { lease, .. } => Some(lease),
        CreateVerbPhase::Releasing { lease, .. } => Some(lease),
        CreateVerbPhase::Finished(_) => None,
    }
}

/// A creation that holds a lease keeps it until it gives that lease back: there
/// is no other way out.
pub proof fn create_gives_its_lease_back(s: CreateVerb, a: Answer, n: CreateVerb)
    requires
        s.next(a, n),
        create_lease(s.phase) is Some,
    ensures
        create_lease(n.phase) == create_lease(s.phase) || (s.phase is Releasing && n.phase is Finished),
        s.phase matches CreateVerbPhase::Releasing { lease, result } ==> s.wants() == Action::Release(&lease),
{
}

/// Whether a result owns up to a change of `path`: it is a success, or says that
/// the change is on the share and not recorded.
pub open spec fn owns_up<T>(result: Result<T, ChaprError>, path: CanonicalPath) -> bool {
    match result {
        Ok(_) => true,
        Err(e) => e matches ChaprError::CommittedButUnrecorded { path: p, version, message } && p == path,
    }
}

/// Whether the file of a creation is there.
pub open spec fn is_created(v: CreateVerb) -> bool {
    match v.phase {
        CreateVerbPhase::Acquiring { .. } => false,
        CreateVerbPhase::Working { lease, op } => op.phase is Storing,
        CreateVerbPhase::Logging { .. } => true,
        CreateVerbPhase::Auditing { .. } => true,
        CreateVerbPhase::Recording { .. } => true,
        CreateVerbPhase::Releasing { lease, result } => owns_up(result, v.path),
        CreateVerbPhase::Finished(result) => owns_up(result, v.path),
    }
}

/// A created file is never reported as not created: from the answer that made
/// it on, whatever else happens, the verb ends with a success or says that the
/// file is there and not recorded.
pub proof fn created_is_never_denied(s: CreateVerb, a: Answer, n: CreateVerb)
    requires
        s.next(a, n),
        is_created(s) || (s.phase matches CreateVerbPhase::Working { lease, op } && op.phase is Creating && a is Done
            && went_well(a)),
    ensures
        is_created(n),
{
}

// ---- delete ----

/// Where the verb stands.
pub enum DeleteVerbPhase {
    /// That this session read the version it names.
    Asserting { base: VersionToken },
    /// The lease.
    Acquiring { base: VersionToken },
    /// The operation on the file.
    Working { lease: LeaseId, op: DeleteCas },
    /// The version log.
    Logging { lease: LeaseId, deleted: VersionToken, size: u64 },
    /// The audit trail.
    Auditing { lease: LeaseId, deleted: VersionToken, detail: String },
    /// The lease given back.
    Releasing { lease: LeaseId, result: Result<(), ChaprError> },
    /// Nothing more.
    Finished(Result<(), ChaprError>),
}

/// The deletion of a file, with all that goes with it.
pub struct DeleteVerb {
    /// The kind of fileserver.
    pub kind: BackendKind,
    /// Whether its writes cannot tear.
    pub atomic_writes: bool,
    /// Who deletes.
    pub principal: Principal,
    /// In which session.
    pub session_id: SessionId,
    /// The file.
    pub path: CanonicalPath,
    /// The paths to be leased.
    pub paths: Vec<CanonicalPath>,
    /// Where the verb stands.
    pub phase: DeleteVerbPhase,
}

/// What comes after the operation on the file, or the operation itself while it
/// is not over.
pub open spec fn delete_settles(path: CanonicalPath, lease: LeaseId, op: DeleteCas, p: DeleteVerbPhase) -> bool {
    match op.phase {
        DeletePhase::Finished(Ok(receipt)) => match receipt.from_version {
            Some(deleted) => p == (DeleteVerbPhase::Logging { lease, deleted, size: receipt.size }),
            None => p matches DeleteVerbPhase::Releasing { lease: l, result: Err(e) } && l == lease
                && is_receipt_bug(e, "delete"@, path, "from_version"@),
        },
        DeletePhase::Finished(Err(e)) => p == (DeleteVerbPhase::Releasing { lease, result: Err(e) }),
        _ => p == (DeleteVerbPhase::Working { lease, op }),
    }
}

impl DeleteVerb {
    /// Whether the verb is in a state that it can come to.
    pub open spec fn wf(&self) -> bool {
        &&& self.paths@ == seq![self.path]
        &&& self.phase matches DeleteVerbPhase::Working { lease, op } ==> op.wf()
    }

    /// Whether `op` is the deletion that the verb is about.
    pub open spec fn begins(&self, lease: LeaseId, base: VersionToken, op: DeleteCas) -> bool {
        &&& op.started()
        &&& op.kind == self.kind
        &&& op.atomic_writes == self.atomic_writes
        &&& op.principal == self.principal
        &&& op.args == (DeleteCasArgs { path: self.path, lease_id: lease, base_version: base })
    }

    /// Where an answer takes the verb.
    pub open spec fn leads(&self, a: Answer, p: DeleteVerbPhase) -> bool {
        match (self.phase, a) {
            (DeleteVerbPhase::Asserting { base }, Answer::Coord(r)) => match r {
                Ok(()) => p == (DeleteVerbPhase::Acquiring { base }),
                Err(e) => p == DeleteVerbPhase::Finished(Err(e)),
            },
            (DeleteVerbPhase::Acquiring { base }, Answer::Lease(r)) => match r {
                Ok(lease) => exists|op: DeleteCas| #[trigger] op.started() && self.begins(lease, base, op)
                    && delete_settles(self.path, lease, op, p),
                Err(e) => p == DeleteVerbPhase::Finished(Err(e)),
            },
            (DeleteVerbPhase::Working { lease, op }, a) => exists|n: DeleteCas| #[trigger] op.next(a, n)
                && delete_settles(self.path, lease, n, p),
            (DeleteVerbPhase::Logging { lease, deleted, size }, Answer::Coord(r)) => match r {
                Ok(()) => p matches DeleteVerbPhase::Auditing { lease: l, deleted: v, detail } && l == lease
                    && v == deleted && detail@ == "soft delete"@,
                Err(e) => p matches DeleteVerbPhase::Releasing { lease: l, result: Err(r) } && l == lease
                    && is_unrecorded(r, self.path, deleted, e),
            },
            (DeleteVerbPhase::Auditing { lease, deleted, detail }, Answer::Coord(r)) => match r {
                Ok(()) => p matches DeleteVerbPhase::Releasing { lease: l, result: Ok(_) } && l == lease,
                Err(e) => p matches DeleteVerbPhase::Releasing { lease: l, result: Err(r) } && l == lease
                    && is_unrecorded(r, self.path, deleted, e),
            },
            (DeleteVerbPhase::Releasing { lease, result }, Answer::Coord(_)) => p == DeleteVerbPhase::Finished(result),
            (phase, _) => p == phase,
        }
    }

    /// Whether `n` is this verb one answer later.
    pub open spec fn next(&self, a: Answer, n: DeleteVerb) -> bool {
        &&& n.kind == self.kind
        &&& n.atomic_writes == self.atomic_writes
        &&& n.principal == self.principal
        &&& n.session_id == self.session_id
        &&& n.path == self.path
        &&& n.paths == self.paths
        &&& self.leads(a, n.phase)
    }

    /// What the verb needs done.
    pub open spec fn wants(&self) -> Action<'_> {
        match self.phase {
            DeleteVerbPhase::Asserting { base } => Action::AssertRead {
                session_id: &self.session_id,
                path: &self.path,
                version: &base,
            },
            DeleteVerbPhase::Acquiring { base } => Action::Acquire {
                principal: &self.principal,
                session_id: &self.session_id,
                purpose: LeasePurpose::Delete,
                paths: &self.paths,
            },
            DeleteVerbPhase::Working { lease, op } => op.wants(),
            DeleteVerbPhase::Logging { lease, deleted, size } => Action::AppendLog {
                path: &self.path,
                blob_hash: &deleted,
                writer: &self.principal,
                size,
                event: VersionEvent::Delete,
                pre_image: None,
            },
            DeleteVerbPhase::Auditing { lease, deleted, detail } => Action::Audit {
                principal: &self.principal,
                session_id: &self.session_id,
                path: &self.path,
                kind: AuditKind::WriteCommit,
                from_version: Some(&deleted),
                to_version: None,
                detail: &detail,
            },
            DeleteVerbPhase::Releasing { lease, result } => Action::Release(&lease),
            DeleteVerbPhase::Finished(_) => Action::Nothing,
        }
    }

    /// What the verb needs done next.
    pub fn action(&self) -> (r: Action<'_>)
        requires
            self.wf(),
        ensures
            r == self.wants(),
    {
        match &self.phase {
            DeleteVerbPhase::Asserting { base } => Action::AssertRead {
                session_id: &self.session_id,
                path: &self.path,
                version: base,
            },
            DeleteVerbPhase::Acquiring { base: _ } => Action::Acquire {
                principal: &self.principal,
                session_id: &self.session_id,
                purpose: LeasePurpose::Delete,
                paths: &self.paths,
            },
            DeleteVerbPhase::Working { lease: _, op } => op.action(),
            DeleteVerbPhase::Logging { lease: _, deleted, size } => Action::AppendLog {
                path: &self.path,
                blob_hash: deleted,
                writer: &self.principal,
                size: *size,
                event: VersionEvent::Delete,
                pre_image: None,
            },
            DeleteVerbPhase::Auditing { lease: _, deleted, detail } => Action::Audit {
                principal: &self.principal,
                session_id: &self.session_id,
                path: &self.path,
                kind: AuditKind::WriteCommit,
                from_version: Some(deleted),
                to_version: None,
                detail,
            },
            DeleteVerbPhase::Releasing { lease, result: _ } => Action::Release(lease),
            DeleteVerbPhase::Finished(_) => Action::Nothing,
        }
    }

    fn settle(&self, lease: LeaseId, op: DeleteCas) -> (p: DeleteVerbPhase)
        requires
            op.wf(),
        ensures
            delete_settles(self.path, lease, op, p),
            p matches DeleteVerbPhase::Working { lease: l, op: o } ==> o.wf(),
    {
        if !matches!(op.phase, DeletePhase::Finished(_)) {
            return DeleteVerbPhase::Working { lease, op };
        }
        match op.phase {
            DeletePhase::Finished(Ok(receipt)) => match receipt.from_version {
                Some(deleted) => DeleteVerbPhase::Logging { lease, deleted, size: receipt.size },
                None => DeleteVerbPhase::Releasing {
                    lease,
                    result: Err(receipt_bug("delete", &self.path, "from_version")),
                },
            },
            DeletePhase::Finished(Err(e)) => DeleteVerbPhase::Releasing { lease, result: Err(e) },
            _ => DeleteVerbPhase::Releasing { lease, result: Err(ChaprError::CoordUnreachable) },
        }
    }

    /// Moves the verb on by what came of its action.
    pub fn advance(self, answer: Answer) -> (n: DeleteVerb)
        requires
            self.wf(),
        ensures
            n.wf(),
            self.next(answer, n),
    {
        let mut verb = self;
        let mut phase = DeleteVerbPhase::Finished(Ok(()));
        std::mem::swap(&mut verb.phase, &mut phase);
        let next = match (phase, answer) {
            (DeleteVerbPhase::Asserting { base }, Answer::Coord(r)) => match r {
                Ok(()) => DeleteVerbPhase::Acquiring { base },
                Err(e) => DeleteVerbPhase::Finished(Err(e)),
            },
            (DeleteVerbPhase::Acquiring { base }, Answer::Lease(r)) => match r {
                Ok(lease) => {
                    let args = DeleteCasArgs { path: verb.path.clone(), lease_id: lease.clone(), base_version: base };
                    let op = DeleteCas::begin(verb.kind, verb.atomic_writes, verb.principal.clone(), args);
                    assert(op.started());
                    verb.settle(lease, op)
                },
                Err(e) => DeleteVerbPhase::Finished(Err(e)),
            },
            (DeleteVerbPhase::Working { lease, op }, answer) => {
                let n = op.advance(answer);
                verb.settle(lease, n)
            },
            (DeleteVerbPhase::Logging { lease, deleted, size: _ }, Answer::Coord(r)) => match r {
                Ok(()) => DeleteVerbPhase::Auditing { lease, deleted, detail: own("soft delete") },
                Err(e) => DeleteVerbPhase::Releasing { lease, result: Err(unrecorded(&verb.path, deleted, e)) },
            },
            (DeleteVerbPhase::Auditing { lease, deleted, detail: _ }, Answer::Coord(r)) => match r {
                Ok(()) => DeleteVerbPhase::Releasing { lease, result: Ok(()) },
                Err(e) => DeleteVerbPhase::Releasing { lease, result: Err(unrecorded(&verb.path, deleted, e)) },
            },
            (DeleteVerbPhase::Releasing { lease: _, result }, Answer::Coord(_)) => DeleteVerbPhase::Finished(result),
            (phase, _) => phase,
        };
        verb.phase = next;
        verb
    }
}

/// The deletion of a file: read before, under a lease, recorded, the lease
/// given back.
pub fn delete<M: MountTable>(
    kind: BackendKind,
    atomic_writes: bool,
    mounts: &M,
    roots: &[CanonicalPath],
    principal: Principal,
    session_id: SessionId,
    raw_uri: &str,
    base_version: VersionToken,
) -> (r: Result<DeleteVerb, ChaprError>)
    ensures
        exists|path: Result<CanonicalPath, ChaprError>|
            #[trigger] may_canonicalize(&grammar_of(kind), *mounts, raw_uri@, roots@, path) && match path {
                Ok(p) => r matches Ok(v) && v.wf() && v.kind == kind && v.atomic_writes == atomic_writes
                    && v.principal == principal && v.session_id == session_id && v.path == p
                    && v.phase == (DeleteVerbPhase::Asserting { base: base_version }),
                Err(e) => r == Err::<DeleteVerb, ChaprError>(e),
            },
{
    match canonicalize_in(raw_uri, &grammar_for(kind), mounts, roots) {
        Ok(path) => {
            let paths = single(&path);
            Ok(
                DeleteVerb {
                    kind,
                    atomic_writes,
                    principal,
                    session_id,
                    path,
                    paths,
                    phase: DeleteVerbPhase::Asserting { base: base_version },
                },
            )
        },
        Err(e) => Err(e),
    }
}

/// The lease that a deletion holds.
pub open spec fn delete_lease(p: DeleteVerbPhase) -> Option<LeaseId> {
    match p {
        DeleteVerbPhase::Asserting { .. } => None,
        DeleteVerbPhase::Acquiring { .. } => None,
        DeleteVerbPhase::Working { lease, .. } => Some(lease),
        DeleteVerbPhase::Logging { lease, .. } => Some(lease),
        DeleteVerbPhase::Auditing { lease, .. } => Some(lease),
        DeleteVerbPhase::Releasing { lease, .. } => Some(lease),
        DeleteVerbPhase::Finished(_) => None,
    }
}

/// A deletion that holds a lease keeps it until it gives that lease back.
pub proof fn delete_gives_its_lease_back(s: DeleteVerb, a: Answer, n: DeleteVerb)
    requires
        s.next(a, n),
        delete_lease(s.phase) is Some,
    ensures
        delete_lease(n.phase) == delete_lease(s.phase) || (s.phase is Releasing && n.phase is Finished),
        s.phase matches DeleteVerbPhase::Releasing { lease, result } ==> s.wants() == Action::Release(&lease),
{
}

/// Whether the file of a deletion is gone.
pub open spec fn is_deleted(v: DeleteVerb) -> bool {
    match v.phase {
        DeleteVerbPhase::Asserting { .. } => false,
        DeleteVerbPhase::Acquiring { .. } => false,
        DeleteVerbPhase::Working { lease, op } => op.phase is Clearing,
        DeleteVerbPhase::Logging { .. } => true,
        DeleteVerbPhase::Auditing { .. } => true,
        DeleteVerbPhase::Releasing { lease, result } => owns_up(result, v.path),
        DeleteVerbPhase::Finished(result) => owns_up(result, v.path),
    }
}

/// A deleted file is never reported as still there: from the answer that removed
/// it on, the verb ends with a success or says that the file is gone and that
/// this is not recorded.
pub proof fn deleted_is_never_denied(s: DeleteVerb, a: Answer, n: DeleteVerb)
    requires
        s.next(a, n),
        is_deleted(s) || (s.phase matches DeleteVerbPhase::Working { lease, op } && op.phase is Removing && a is Done
            && went_well(a)),
    ensures
        is_deleted(n),
{
}

// ---- restore ----

/// What a restore reports.
#[derive(Debug, PartialEq, Eq)]
pub struct RestoreResponse {
    /// The copy, where one was made.
    pub restored_path: Option<CanonicalPath>,
    /// The version restored.
    pub version: VersionToken,
}

/// Where the verb stands.
pub enum RestoreVerbPhase {
    /// The old contents.
    Fetching { mode: RestoreMode, base: Option<RestoreBase> },
    /// The copy.
    Copying { copy: RestoreCopy, size: u64 },
    /// The version log, for a copy.
    CopyLogging { restored: CanonicalPath, size: u64 },
    /// The audit trail, for a copy.
    CopyAuditing { restored: CanonicalPath, detail: String },
    /// The lease.
    Acquiring { bytes: Vec<u8>, seen: RestoreBase },
    /// The operation on the file.
    Working { lease: LeaseId, op: RestoreInPlace },
    /// The version log.
    Logging { lease: LeaseId, from: Option<VersionToken>, pre_image: Option<PreImage>, size: u64 },
    /// The audit trail.
    Auditing { lease: LeaseId, from: Option<VersionToken>, detail: String },
    /// The lease given back.
    Releasing { lease: LeaseId, result: Result<RestoreResponse, ChaprError> },
    /// Nothing more.
    Finished(Result<RestoreResponse, ChaprError>),
}

/// The restore of an old version, with all that goes with it.
pub struct RestoreVerb {
    /// The kind of fileserver.
    pub kind: BackendKind,
    /// Whether its writes cannot tear.
    pub atomic_writes: bool,
    /// Who restores.
    pub principal: Principal,
    /// In which session.
    pub session_id: SessionId,
    /// The file.
    pub path: CanonicalPath,
    /// The paths to be leased.
    pub paths: Vec<CanonicalPath>,
    /// The version to be restored.
    pub version: VersionToken,
    /// Where the verb stands.
    pub phase: RestoreVerbPhase,
}

/// What comes after the copy, or the copy itself while it is not over.
pub open spec fn copy_settles(op: RestoreCopy, size: u64, p: RestoreVerbPhase) -> bool {
    match op.phase {
        CopyPhase::Finished(Ok(restored)) => p == (RestoreVerbPhase::CopyLogging { restored, size }),
        CopyPhase::Finished(Err(e)) => p == RestoreVerbPhase::Finished(Err(e)),
        CopyPhase::Creating => p == (RestoreVerbPhase::Copying { copy: op, size }),
    }
}

/// The contents that an operation stored before it replaced them.
pub open spec fn stored_pre_image(receipt: CommitReceipt) -> Option<PreImage> {
    match (receipt.from_version, receipt.from_size) {
        (Some(version), Some(size)) => Some(PreImage { version, size }),
        _ => None,
    }
}

/// What comes after the operation on the file, or the operation itself while it
/// is not over.
pub open spec fn restore_settles(lease: LeaseId, op: RestoreInPlace, p: RestoreVerbPhase) -> bool {
    match op.phase {
        RestorePhase::Finished(Ok(receipt)) => p == (RestoreVerbPhase::Logging {
            lease,
            from: receipt.from_version,
            pre_image: stored_pre_image(receipt),
            size: receipt.size,
        }),
        RestorePhase::Finished(Err(e)) => p == (RestoreVerbPhase::Releasing { lease, result: Err(e) }),
        _ => p == (RestoreVerbPhase::Working { lease, op }),
    }
}

impl RestoreVerb {
    /// Whether the verb is in a state that it can come to.
    pub open spec fn wf(&self) -> bool {
        &&& self.paths@ == seq![self.path]
        &&& self.phase matches RestoreVerbPhase::Working { lease, op } ==> op.wf()
    }

    /// Whether `op` is a copy of `bytes` beside the file, under a fresh name.
    pub open spec fn copies(&self, bytes: Vec<u8>, op: RestoreCopy) -> bool {
        &&& op.bytes == bytes
        &&& op.phase is Creating
        &&& exists|stamp: Seq<char>, id: Seq<char>|
            is_stamp(stamp) && is_short_id(id) && op.restored@ == #[trigger] restored_text(
                &grammar_of(self.kind), self.path@, stamp, id)
    }

    /// Whether `op` is the restore that the verb is about.
    pub open spec fn begins(&self, lease: LeaseId, bytes: Vec<u8>, base: RestoreBase, op: RestoreInPlace) -> bool {
        &&& op.started()
        &&& op.kind == self.kind
        &&& op.atomic_writes == self.atomic_writes
        &&& op.principal == self.principal
        &&& op.args == (RestoreInPlaceArgs {
            path: self.path,
            lease_id: lease,
            bytes,
            version: self.version,
            base,
        })
    }

    /// Where an answer takes the verb.
    pub open spec fn leads(&self, a: Answer, p: RestoreVerbPhase) -> bool {
        match (self.phase, a) {
            (RestoreVerbPhase::Fetching { mode, base }, Answer::Blob(r)) => match r {
                Ok(bytes) => match (mode, base) {
                    (RestoreMode::InPlace, None) => p == RestoreVerbPhase::Finished(
                        Err(ChaprError::BaseVersionRequired { path: self.path }),
                    ),
                    (RestoreMode::InPlace, Some(seen)) => p == (RestoreVerbPhase::Acquiring { bytes, seen }),
                    (RestoreMode::Copy, _) => p matches RestoreVerbPhase::Copying { copy, size } && self.copies(bytes, copy)
                        && size == bytes@.len() as u64,
                },
                Err(e) => p == RestoreVerbPhase::Finished(Err(e)),
            },
            (RestoreVerbPhase::Copying { copy, size }, a) => exists|n: RestoreCopy| n.restored == copy.restored
                && n.bytes == copy.bytes && copy.leads(a, n.phase) && #[trigger] copy_settles(n, size, p),
            (RestoreVerbPhase::CopyLogging { restored, size }, Answer::Coord(r)) => match r {
                Ok(()) => p matches RestoreVerbPhase::CopyAuditing { restored: q, detail } && q == restored
                    && detail@ == "restore copy"@,
                Err(e) => p == RestoreVerbPhase::Finished(Err(e)),
            },
            (RestoreVerbPhase::CopyAuditing { restored, detail }, Answer::Coord(r)) => match r {
                Ok(()) => p == RestoreVerbPhase::Finished(
                    Ok(RestoreResponse { restored_path: Some(restored), version: self.version }),
                ),
                Err(e) => p == RestoreVerbPhase::Finished(Err(e)),
            },
            (RestoreVerbPhase::Acquiring { bytes, seen }, Answer::Lease(r)) => match r {
                Ok(lease) => exists|op: RestoreInPlace| #[trigger] op.started() && self.begins(lease, bytes, seen, op)
                    && restore_settles(lease, op, p),
                Err(e) => p == RestoreVerbPhase::Finished(Err(e)),
            },
            (RestoreVerbPhase::Working { lease, op }, a) => exists|n: RestoreInPlace| #[trigger] op.next(a, n)
                && restore_settles(lease, n, p),
            (RestoreVerbPhase::Logging { lease, from, pre_image, size }, Answer::Coord(r)) => match r {
                Ok(()) => p matches RestoreVerbPhase::Auditing { lease: l, from: f, detail } && l == lease && f == from
                    && detail@ == "restore in_place"@,
                Err(e) => p matches RestoreVerbPhase::Releasing { lease: l, result: Err(r) } && l == lease
                    && is_unrecorded(r, self.path, self.version, e),
            },
            (RestoreVerbPhase::Auditing { lease, from, detail }, Answer::Coord(r)) => match r {
                Ok(()) => p == (RestoreVerbPhase::Releasing {
                    lease,
                    result: Ok(RestoreResponse { restored_path: None, version: self.version }),
                }),
                Err(e) => p matches RestoreVerbPhase::Releasing { lease: l, result: Err(r) } && l == lease
                    && is_unrecorded(r, self.path, self.version, e),
            },
            (RestoreVerbPhase::Releasing { lease, result }, Answer::Coord(_)) => p == RestoreVerbPhase::Finished(result),
            (phase, _) => p == phase,
        }
    }

    /// Whether `n` is this verb one answer later.
    pub open spec fn next(&self, a: Answer, n: RestoreVerb) -> bool {
        &&& n.kind == self.kind
        &&& n.atomic_writes == self.atomic_writes
        &&& n.principal == self.principal
        &&& n.session_id == self.session_id
        &&& n.path == self.path
        &&& n.paths == self.paths
        &&& n.version == self.version
        &&& self.leads(a, n.phase)
    }

    /// What the verb needs done.
    pub open spec fn wants(&self) -> Action<'_> {
        match self.phase {
            RestoreVerbPhase::Fetching { mode, base } => Action::GetBlob(&self.version),
            RestoreVerbPhase::Copying { copy, size } => copy.wants(),
            RestoreVerbPhase::CopyLogging { restored, size } => Action::AppendLog {
                path: &restored,
                blob_hash: &self.version,
                writer: &self.principal,
                size,
                event: VersionEvent::Restore,
                pre_image: None,
            },
            RestoreVerbPhase::CopyAuditing { restored, detail } => Action::Audit {
                principal: &self.principal,
                session_id: &self.session_id,
                path: &restored,
                kind: AuditKind::Restore,
                from_version: None,
                to_version: Some(&self.version),
                detail: &detail,
            },
            RestoreVerbPhase::Acquiring { bytes, seen } => Action::Acquire {
                principal: &self.principal,
                session_id: &self.session_id,
                purpose: LeasePurpose::Restore,
                paths: &self.paths,
            },
            RestoreVerbPhase::Working { lease, op } => op.wants(),
            RestoreVerbPhase::Logging { lease, from, pre_image, size } => Action::AppendLog {
                path: &self.path,
                blob_hash: &self.version,
                writer: &self.principal,
                size,
                event: VersionEvent::Restore,
                pre_image: match pre_image {
                    Some(i) => Some(&i),
                    None => None,
                },
            },
            RestoreVerbPhase::Auditing { lease, from, detail } => Action::Audit {
                principal: &self.principal,
                session_id: &self.session_id,
                path: &self.path,
                kind: AuditKind::Restore,
                from_version: match from {
                    Some(v) => Some(&v),
                    None => None,
                },
                to_version: Some(&self.version),
                detail: &detail,
            },
            RestoreVerbPhase::Releasing { lease, result } => Action::Release(&lease),
            RestoreVerbPhase::Finished(_) => Action::Nothing,
        }
    }

    /// What the verb needs done next.
    pub fn action(&self) -> (r: Action<'_>)
        requires
            self.wf(),
        ensures
            r == self.wants(),
    {
        match &self.phase {
            RestoreVerbPhase::Fetching { mode: _, base: _ } => Action::GetBlob(&self.version),
            RestoreVerbPhase::Copying { copy, size: _ } => copy.action(),
            RestoreVerbPhase::CopyLogging { restored, size } => Action::AppendLog {
                path: restored,
                blob_hash: &self.version,
                writer: &self.principal,
                size: *size,
                event: VersionEvent::Restore,
                pre_image: None,
            },
            RestoreVerbPhase::CopyAuditing { restored, detail } => Action::Audit {
                principal: &self.principal,
                session_id: &self.session_id,
                path: restored,
                kind: AuditKind::Restore,
                from_version: None,
                to_version: Some(&self.version),
                detail,
            },
            RestoreVerbPhase::Acquiring { bytes: _, seen: _ } => Action::Acquire {
                principal: &self.principal,
                session_id: &self.session_id,
                purpose: LeasePurpose::Restore,
                paths: &self.paths,
            },
            RestoreVerbPhase::Working { lease: _, op } => op.action(),
            RestoreVerbPhase::Logging { lease: _, from: _, pre_image, size } => Action::AppendLog {
                path: &self.path,
                blob_hash: &self.version,
                writer: &self.principal,
                size: *size,
                event: VersionEvent::Restore,
                pre_image: pre_image.as_ref(),
            },
            RestoreVerbPhase::Auditing { lease: _, from, detail } => Action::Audit {
                principal: &self.principal,
                session_id: &self.session_id,
                path: &self.path,
                kind: AuditKind::Restore,
                from_version: from.as_ref(),
                to_version: Some(&self.version),
                detail,
            },
            RestoreVerbPhase::Releasing { lease, result: _ } => Action::Release(lease),
            RestoreVerbPhase::Finished(_) => Action::Nothing,
        }
    }

    fn settle_copy(&self, op: RestoreCopy, size: u64) -> (p: RestoreVerbPhase)
        ensures
            copy_settles(op, size, p),
            !(p is Working),
    {
        if matches!(op.phase, CopyPhase::Creating) {
            return RestoreVerbPhase::Copying { copy: op, size };
        }
        match op.phase {
            CopyPhase::Finished(Ok(restored)) => RestoreVerbPhase::CopyLogging { restored, size },
            CopyPhase::Finished(Err(e)) => RestoreVerbPhase::Finished(Err(e)),
            CopyPhase::Creating => RestoreVerbPhase::Finished(Err(ChaprError::CoordUnreachable)),
        }
    }

    fn settle(&self, lease: LeaseId, op: RestoreInPlace) -> (p: RestoreVerbPhase)
        requires
            op.wf(),
        ensures
            restore_settles(lease, op, p),
            p matches RestoreVerbPhase::Working { lease: l, op: o } ==> o.wf(),
    {
        if !matches!(op.phase, RestorePhase::Finished(_)) {
            return RestoreVerbPhase::Working { lease, op };
        }
        match op.phase {
            RestorePhase::Finished(Ok(receipt)) => {
                let pre_image = match (&receipt.from_version, &receipt.from_size) {
                    (Some(version), Some(size)) => Some(PreImage { version: version.clone(), size: *size }),
                    _ => None,
                };
                RestoreVerbPhase::Logging { lease, from: receipt.from_version, pre_image, size: receipt.size }
            },
            RestorePhase::Finished(Err(e)) => RestoreVerbPhase::Releasing { lease, result: Err(e) },
            _ => RestoreVerbPhase::Releasing { lease, result: Err(ChaprError::CoordUnreachable) },
        }
    }

    /// Moves the verb on by what came of its action.
    pub fn advance(self, answer: Answer) -> (n: RestoreVerb)
        requires
            self.wf(),
        ensures
            n.wf(),
            self.next(answer, n),
    {
        let mut verb = self;
        let mut phase = RestoreVerbPhase::Finished(Err(ChaprError::CoordUnreachable));
        std::mem::swap(&mut verb.phase, &mut phase);
        let next = match (phase, answer) {
            (RestoreVerbPhase::Fetching { mode, base }, Answer::Blob(r)) => match r {
                Ok(bytes) => match (mode, base) {
                    (RestoreMode::InPlace, None) => RestoreVerbPhase::Finished(
                        Err(ChaprError::BaseVersionRequired { path: verb.path.clone() }),
                    ),
                    (RestoreMode::InPlace, Some(seen)) => RestoreVerbPhase::Acquiring { bytes, seen },
                    (RestoreMode::Copy, _) => {
                        let size = bytes.len() as u64;
                        let copy = RestoreCopy::begin(verb.kind, &verb.path, bytes);
                        RestoreVerbPhase::Copying { copy, size }
                    },
                },
                Err(e) => RestoreVerbPhase::Finished(Err(e)),
            },
            (RestoreVerbPhase::Copying { copy, size }, answer) => {
                let n = copy.advance(answer);
                verb.settle_copy(n, size)
            },
            (RestoreVerbPhase::CopyLogging { restored, size: _ }, Answer::Coord(r)) => match r {
                Ok(()) => RestoreVerbPhase::CopyAuditing { restored, detail: own("restore copy") },
                Err(e) => RestoreVerbPhase::Finished(Err(e)),
            },
            (RestoreVerbPhase::CopyAuditing { restored, detail: _ }, Answer::Coord(r)) => match r {
                Ok(()) => RestoreVerbPhase::Finished(
                    Ok(RestoreResponse { restored_path: Some(restored), version: verb.version.clone() }),
                ),
                Err(e) => RestoreVerbPhase::Finished(Err(e)),
            },
            (RestoreVerbPhase::Acquiring { bytes, seen }, Answer::Lease(r)) => match r {
                Ok(lease) => {
                    let args = RestoreInPlaceArgs {
                        path: verb.path.clone(),
                        lease_id: lease.clone(),
                        bytes,
                        version: verb.version.clone(),
                        base: seen,
                    };
                    let op = RestoreInPlace::begin(verb.kind, verb.atomic_writes, verb.principal.clone(), args);
                    assert(op.started());
                    verb.settle(lease, op)
                },
                Err(e) => RestoreVerbPhase::Finished(Err(e)),
            },
            (RestoreVerbPhase::Working { lease, op }, answer) => {
                let n = op.advance(answer);
                verb.settle(lease, n)
            },
            (RestoreVerbPhase::Logging { lease, from, pre_image: _, size: _ }, Answer::Coord(r)) => match r {
                Ok(()) => RestoreVerbPhase::Auditing { lease, from, detail: own("restore in_place") },
                Err(e) => RestoreVerbPhase::Releasing {
                    lease,
                    result: Err(unrecorded(&verb.path, verb.version.clone(), e)),
                },
            },
            (RestoreVerbPhase::Auditing { lease, from: _, detail: _ }, Answer::Coord(r)) => match r {
                Ok(()) => RestoreVerbPhase::Releasing {
                    lease,
                    result: Ok(RestoreResponse { restored_path: None, version: verb.version.clone() }),
                },
                Err(e) => RestoreVerbPhase::Releasing {
                    lease,
                    result: Err(unrecorded(&verb.path, verb.version.clone(), e)),
                },
            },
            (RestoreVerbPhase::Releasing { lease: _, result }, Answer::Coord(_)) => RestoreVerbPhase::Finished(result),
            (phase, _) => phase,
        };
        verb.phase = next;
        verb
    }
}

/// The restore of an old version: into a fresh copy beside the file, or over the
/// file itself, for which the caller must say what it saw there.
pub fn restore<M: MountTable>(
    kind: BackendKind,
    atomic_writes: bool,
    mounts: &M,
    roots: &[CanonicalPath],
    principal: Principal,
    session_id: SessionId,
    raw_uri: &str,
    version: VersionToken,
    mode: RestoreMode,
    base: Option<RestoreBase>,
) -> (r: Result<RestoreVerb, ChaprError>)
    ensures
        exists|path: Result<CanonicalPath, ChaprError>|
            #[trigger] may_canonicalize(&grammar_of(kind), *mounts, raw_uri@, roots@, path) && match path {
                Ok(p) => r matches Ok(v) && v.wf() && v.kind == kind && v.atomic_writes == atomic_writes
                    && v.principal == principal && v.session_id == session_id && v.path == p && v.version == version
                    && v.phase == (RestoreVerbPhase::Fetching { mode, base }),
                Err(e) => r == Err::<RestoreVerb, ChaprError>(e),
            },
{
    match canonicalize_in(raw_uri, &grammar_for(kind), mounts, roots) {
        Ok(path) => {
            let paths = single(&path);
            Ok(
                RestoreVerb {
                    kind,
                    atomic_writes,
                    principal,
                    session_id,
                    path,
                    paths,
                    version,
                    phase: RestoreVerbPhase::Fetching { mode, base },
                },
            )
        },
        Err(e) => Err(e),
    }
}

/// The lease that a restore holds.
pub open spec fn restore_lease(p: RestoreVerbPhase) -> Option<LeaseId> {
    match p {
        RestoreVerbPhase::Working { lease, .. } => Some(lease),
        RestoreVerbPhase::Logging { lease, .. } => Some(lease),
        RestoreVerbPhase::Auditing { lease, .. } => Some(lease),
        RestoreVerbPhase::Releasing { lease, .. } => Some(lease),
        _ => None,
    }
}

/// A restore that holds a lease keeps it until it gives that lease back.
pub proof fn restore_gives_its_lease_back(s: RestoreVerb, a: Answer, n: RestoreVerb)
    requires
        s.next(a, n),
        restore_lease(s.phase) is Some,
    ensures
        restore_lease(n.phase) == restore_lease(s.phase) || (s.phase is Releasing && n.phase is Finished),
        s.phase matches RestoreVerbPhase::Releasing { lease, result } ==> s.wants() == Action::Release(&lease),
{
}

/// A restore in place without a word on what the caller saw there goes no
/// further than fetching the old contents.
pub proof fn restore_in_place_needs_a_base(s: RestoreVerb, a: Answer, n: RestoreVerb)
    requires
        s.next(a, n),
        s.phase matches RestoreVerbPhase::Fetching { mode: RestoreMode::InPlace, base: None },
        a is Blob,
    ensures
        n.phase matches RestoreVerbPhase::Finished(Err(_)),
{
}

/// Whether the contents of a restore in place are back.
pub open spec fn is_restored(v: RestoreVerb) -> bool {
    match v.phase {
        RestoreVerbPhase::Working { lease, op } => op.phase is Closing || op.phase is Clearing,
        RestoreVerbPhase::Logging { .. } => true,
        RestoreVerbPhase::Auditing { .. } => true,
        RestoreVerbPhase::Releasing { lease, result } => owns_up(result, v.path),
        RestoreVerbPhase::Finished(result) => owns_up(result, v.path),
        _ => false,
    }
}

/// Contents restored in place are never reported as not restored: from the
/// answer that wrote them on, over a file or as one made anew, the verb ends with
/// a success or says that they are there and not recorded.
pub proof fn restored_is_never_denied(s: RestoreVerb, a: Answer, n: RestoreVerb)
    requires
        s.next(a, n),
        is_restored(s) || (s.phase matches RestoreVerbPhase::Working { lease, op } && (op.phase is Overwriting
            || op.phase is Recreating) && a is Done && went_well(a)),
    ensures
        is_restored(n),
{
}

// ---- move ----

/// Where the verb stands.
pub enum MoveVerbPhase {
    /// That this session read the source at the version it names.
    Asserting { src_base: VersionToken, dst_base: Option<VersionToken> },
    /// The lease on both paths.
    Acquiring { src_base: VersionToken, dst_base: Option<VersionToken> },
    /// The operation on the files.
    Working { lease: LeaseId, op: MoveCas },
    /// The lease given back.
    Releasing { lease: LeaseId, result: Result<MoveReceipt, ChaprError> },
    /// Nothing more.
    Finished(Result<MoveReceipt, ChaprError>),
}

/// The move of a file, with all that goes with it.
pub struct MoveVerb {
    /// The kind of fileserver.
    pub kind: BackendKind,
    /// Who moves.
    pub principal: Principal,
    /// In which session.
    pub session_id: SessionId,
    /// Where the file is.
    pub src: CanonicalPath,
    /// Where it goes.
    pub dst: CanonicalPath,
    /// The paths to be leased.
    pub paths: Vec<CanonicalPath>,
    /// Where the verb stands.
    pub phase: MoveVerbPhase,
}

/// What comes after the operation on the files, or the operation itself while
/// it is not over.
pub open spec fn move_settles(lease: LeaseId, op: MoveCas, p: MoveVerbPhase) -> bool {
    match op.phase {
        MovePhase::Finished(result) => p == (MoveVerbPhase::Releasing { lease, result }),
        _ => p == (MoveVerbPhase::Working { lease, op }),
    }
}

impl MoveVerb {
    /// Whether the verb is in a state that it can come to.
    pub open spec fn wf(&self) -> bool {
        &&& self.paths@ == seq![self.src, self.dst]
        &&& self.src@ != self.dst@
        &&& self.phase matches MoveVerbPhase::Working { lease, op } ==> op.wf()
    }

    /// Whether `op` is the move that the verb is about.
    pub open spec fn begins(
        &self,
        lease: LeaseId,
        src_base: VersionToken,
        dst_base: Option<VersionToken>,
        op: MoveCas,
    ) -> bool {
        &&& op.started()
        &&& op.kind == self.kind
        &&& op.principal == self.principal
        &&& op.session_id == self.session_id
        &&& op.args == (MoveCasArgs {
            src: self.src,
            dst: self.dst,
            src_base_version: src_base,
            dst_base_version: dst_base,
            lease_id: lease,
        })
    }

    /// Where an answer takes the verb.
    pub open spec fn leads(&self, a: Answer, p: MoveVerbPhase) -> bool {
        match (self.phase, a) {
            (MoveVerbPhase::Asserting { src_base, dst_base }, Answer::Coord(r)) => match r {
                Ok(()) => p == (MoveVerbPhase::Acquiring { src_base, dst_base }),
                Err(e) => p == MoveVerbPhase::Finished(Err(e)),
            },
            (MoveVerbPhase::Acquiring { src_base, dst_base }, Answer::Lease(r)) => match r {
                Ok(lease) => exists|op: MoveCas| #[trigger] op.started() && self.begins(lease, src_base, dst_base, op)
                    && move_settles(lease, op, p),
                Err(e) => p == MoveVerbPhase::Finished(Err(e)),
            },
            (MoveVerbPhase::Working { lease, op }, a) => exists|n: MoveCas| #[trigger] op.next(a, n)
                && move_settles(lease, n, p),
            (MoveVerbPhase::Releasing { lease, result }, Answer::Coord(_)) => p == MoveVerbPhase::Finished(result),
            (phase, _) => p == phase,
        }
    }

    /// Whether `n` is this verb one answer later.
    pub open spec fn next(&self, a: Answer, n: MoveVerb) -> bool {
        &&& n.kind == self.kind
        &&& n.principal == self.principal
        &&& n.session_id == self.session_id
        &&& n.src == self.src
        &&& n.dst == self.dst
        &&& n.paths == self.paths
        &&& self.leads(a, n.phase)
    }

    /// What the verb needs done.
    pub open spec fn wants(&self) -> Action<'_> {
        match self.phase {
            MoveVerbPhase::Asserting { src_base, dst_base } => Action::AssertRead {
                session_id: &self.session_id,
                path: &self.src,
                version: &src_base,
            },
            MoveVerbPhase::Acquiring { src_base, dst_base } => Action::Acquire {
                principal: &self.principal,
                session_id: &self.session_id,
                purpose: LeasePurpose::Move,
                paths: &self.paths,
            },
            MoveVerbPhase::Working { lease, op } => op.wants(),
            MoveVerbPhase::Releasing { lease, result } => Action::Release(&lease),
            MoveVerbPhase::Finished(_) => Action::Nothing,
        }
    }

    /// What the verb needs done next.
    pub fn action(&self) -> (r: Action<'_>)
        requires
            self.wf(),
        ensures
            r == self.wants(),
    {
        match &self.phase {
            MoveVerbPhase::Asserting { src_base, dst_base: _ } => Action::AssertRead {
                session_id: &self.session_id,
                path: &self.src,
                version: src_base,
            },
            MoveVerbPhase::Acquiring { src_base: _, dst_base: _ } => Action::Acquire {
                principal: &self.principal,
                session_id: &self.session_id,
                purpose: LeasePurpose::Move,
                paths: &self.paths,
            },
            MoveVerbPhase::Working { lease: _, op } => op.action(),
            MoveVerbPhase::Releasing { lease, result: _ } => Action::Release(lease),
            MoveVerbPhase::Finished(_) => Action::Nothing,
        }
    }

    fn settle(&self, lease: LeaseId, op: MoveCas) -> (p: MoveVerbPhase)
        requires
            op.wf(),
        ensures
            move_settles(lease, op, p),
            p matches MoveVerbPhase::Working { lease: l, op: o } ==> o.wf(),
    {
        if !matches!(op.phase, MovePhase::Finished(_)) {
            return MoveVerbPhase::Working { lease, op };
        }
        match op.phase {
            MovePhase::Finished(result) => MoveVerbPhase::Releasing { lease, result },
            _ => MoveVerbPhase::Releasing { lease, result: Err(ChaprError::CoordUnreachable) },
        }
    }

    /// Moves the verb on by what came of its action.
    pub fn advance(self, answer: Answer) -> (n: MoveVerb)
        requires
            self.wf(),
        ensures
            n.wf(),
            self.next(answer, n),
    {
        let mut verb = self;
        let mut phase = MoveVerbPhase::Finished(Err(ChaprError::CoordUnreachable));
        std::mem::swap(&mut verb.phase, &mut phase);
        let next = match (phase, answer) {
            (MoveVerbPhase::Asserting { src_base, dst_base }, Answer::Coord(r)) => match r {
                Ok(()) => MoveVerbPhase::Acquiring { src_base, dst_base },
                Err(e) => MoveVerbPhase::Finished(Err(e)),
            },
            (MoveVerbPhase::Acquiring { src_base, dst_base }, Answer::Lease(r)) => match r {
                Ok(lease) => {
                    let args = MoveCasArgs {
                        src: verb.src.clone(),
                        dst: verb.dst.clone(),
                        src_base_version: src_base,
                        dst_base_version: dst_base,
                        lease_id: lease.clone(),
                    };
                    let op = MoveCas::begin(verb.kind, verb.principal.clone(), verb.session_id.clone(), args);
                    assert(op.started());
                    verb.settle(lease, op)
                },
                Err(e) => MoveVerbPhase::Finished(Err(e)),
            },
            (MoveVerbPhase::Working { lease, op }, answer) => {
                let n = op.advance(answer);
                verb.settle(lease, n)
            },
            (MoveVerbPhase::Releasing { lease: _, result }, Answer::Coord(_)) => MoveVerbPhase::Finished(result),
            (phase, _) => phase,
        };
        verb.phase = next;
        verb
    }
}

/// What a move to the path it comes from is refused with.
pub open spec fn is_same_path(r: ChaprError, dst_uri: Seq<char>) -> bool {
    r matches ChaprError::InvalidPath { raw, reason } && raw@ == dst_uri
        && reason@ == "move source and destination are the same path"@
}

/// The move of a file: read before, under one lease on both paths, the lease
/// given back.
pub fn mv<M: MountTable>(
    kind: BackendKind,
    mounts: &M,
    roots: &[CanonicalPath],
    principal: Principal,
    session_id: SessionId,
    src_uri: &str,
    dst_uri: &str,
    src_base_version: VersionToken,
    dst_base_version: Option<VersionToken>,
) -> (r: Result<MoveVerb, ChaprError>)
    ensures
        exists|src: Result<CanonicalPath, ChaprError>, dst: Result<CanonicalPath, ChaprError>|
            #[trigger] may_canonicalize(&grammar_of(kind), *mounts, src_uri@, roots@, src)
                && #[trigger] may_canonicalize(&grammar_of(kind), *mounts, dst_uri@, roots@, dst) && match (src, dst) {
                (Err(e), _) => r == Err::<MoveVerb, ChaprError>(e),
                (Ok(_), Err(e)) => r == Err::<MoveVerb, ChaprError>(e),
                (Ok(s), Ok(d)) => if s@ == d@ {
                    r matches Err(e) && is_same_path(e, dst_uri@)
                } else {
                    r matches Ok(v) && v.wf() && v.kind == kind && v.principal == principal
                        && v.session_id == session_id && v.src == s && v.dst == d && v.phase == (MoveVerbPhase::Asserting {
                        src_base: src_base_version,
                        dst_base: dst_base_version,
                    })
                },
            },
{
    let src = canonicalize_in(src_uri, &grammar_for(kind), mounts, roots);
    let dst = canonicalize_in(dst_uri, &grammar_for(kind), mounts, roots);
    let ghost both = (src, dst);
    assert(may_canonicalize(&grammar_of(kind), *mounts, src_uri@, roots@, both.0));
    assert(may_canonicalize(&grammar_of(kind), *mounts, dst_uri@, roots@, both.1));
    let src = match src {
        Ok(p) => p,
        Err(e) => return Err(e),
    };
    let dst = match dst {
        Ok(p) => p,
        Err(e) => return Err(e),
    };
    if src.same(&dst) {
        return Err(
            ChaprError::InvalidPath {
                raw: own(dst_uri),
                reason: own("move source and destination are the same path"),
            },
        );
    }
    let mut paths: Vec<CanonicalPath> = Vec::new();
    paths.push(src.clone());
    paths.push(dst.clone());
    assert(paths@ =~= seq![src, dst]);
    Ok(
        MoveVerb {
            kind,
            principal,
            session_id,
            src,
            dst,
            paths,
            phase: MoveVerbPhase::Asserting { src_base: src_base_version, dst_base: dst_base_version },
        },
    )
}

/// The lease that a move holds.
pub open spec fn move_lease(p: MoveVerbPhase) -> Option<LeaseId> {
    match p {
        MoveVerbPhase::Working { lease, .. } => Some(lease),
        MoveVerbPhase::Releasing { lease, .. } => Some(lease),
        _ => None,
    }
}

/// A move that holds a lease keeps it until it gives that lease back, and hands
/// on exactly what the operation came to.
pub proof fn move_gives_its_lease_back(s: MoveVerb, a: Answer, n: MoveVerb)
    requires
        s.next(a, n),
        move_lease(s.phase) is Some,
    ensures
        move_lease(n.phase) == move_lease(s.phase) || (s.phase is Releasing && n.phase is Finished),
        s.phase matches MoveVerbPhase::Releasing { lease, result } ==> s.wants() == Action::Release(&lease),
        s.phase matches MoveVerbPhase::Releasing { lease, result } ==> (a is Coord ==> n.phase == MoveVerbPhase::Finished(result)),
{
}

/// Whether the file of a move is at its destination.
pub open spec fn is_moved(v: MoveVerb) -> bool {
    match v.phase {
        MoveVerbPhase::Asserting { .. } => false,
        MoveVerbPhase::Acquiring { .. } => false,
        MoveVerbPhase::Working { lease, op } => op.args.dst == v.dst && (op.phase is Closing || op.phase is Migrating),
        MoveVerbPhase::Releasing { lease, result } => owns_up(result, v.dst),
        MoveVerbPhase::Finished(result) => owns_up(result, v.dst),
    }
}

/// A moved file is never reported as not moved: from the answer that renamed it
/// on, the verb ends with a success or says that the file is at its destination
/// and that this is not recorded.
pub proof fn moved_is_never_denied(s: MoveVerb, a: Answer, n: MoveVerb)
    requires
        s.next(a, n),
        is_moved(s) || (s.phase matches MoveVerbPhase::Working { lease, op } && op.args.dst == s.dst
            && op.phase is Renaming && a is Done && went_well(a)),
    ensures
        is_moved(n),
{
}

// ---- mkdir ----

/// What the making of a directory reports.
#[derive(Debug, PartialEq, Eq)]
pub struct MkdirResponse {
    /// The directory made.
    pub canonical_path: CanonicalPath,
    /// The names it resembles, where it was made in spite of them.
    pub similar_existing: Vec<String>,
}

/// Where the verb stands.
pub enum MkdirVerbPhase {
    /// What is in the directory above.
    Listing { parent: CanonicalPath, confirm_new: bool },
    /// The operation on the directory.
    Working { op: MakeDir, similar: Vec<String> },
    /// The audit trail.
    Auditing { similar: Vec<String>, detail: String },
    /// Nothing more.
    Finished(Result<MkdirResponse, ChaprError>),
}

/// The making of a directory, with all that goes with it.
pub struct MkdirVerb {
    /// The kind of fileserver.
    pub kind: BackendKind,
    /// Who makes it.
    pub principal: Principal,
    /// In which session.
    pub session_id: SessionId,
    /// The directory.
    pub path: CanonicalPath,
    /// Where the verb stands.
    pub phase: MkdirVerbPhase,
}

/// The last component of a path.
pub open spec fn leaf_text(path: Seq<char>, sep: char) -> Seq<char> {
    path.skip(last_index(path, sep) + 1)
}

/// The last component of a path.
pub fn leaf(path: &str, sep: char) -> (r: String)
    ensures
        r@ == leaf_text(path@, sep),
{
    let v = chars_of(path);
    let mut cut: usize = v.len();
    assert(v@.take(v@.len() as int) =~= v@);
    while cut > 0 && v[cut - 1] != sep
        invariant
            v@ == path@,
            cut <= v@.len(),
            last_index(v@, sep) == last_index(v@.take(cut as int), sep),
        decreases cut,
    {
        assert(v@.take(cut as int).drop_last() =~= v@.take(cut - 1));
        cut = cut - 1;
    }
    assert(v@.subrange(cut as int, v@.len() as int) =~= v@.skip(cut as int));
    spelled(slice_of(&v, cut, v.len()).as_slice())
}

/// The names of the directories among some entries, in their order.
pub open spec fn dir_names(entries: Seq<RawDirEntry>) -> Seq<Seq<char>>
    decreases entries.len(),
{
    if entries.len() == 0 {
        Seq::empty()
    } else if entries.last().entry_type == EntryType::Dir {
        dir_names(entries.drop_last()).push(entries.last().name@)
    } else {
        dir_names(entries.drop_last())
    }
}

/// The directories among some entries whose names resemble a new one.
pub fn similar_dirs(name: &str, entries: &Vec<RawDirEntry>) -> (r: Vec<String>)
    ensures
        views(r@) == dir_names(entries@).filter(|n: Seq<char>| resembles(name@, n)),
{
    let mut dirs: Vec<&str> = Vec::new();
    let mut i: usize = 0;
    while i < entries.len()
        invariant
            i <= entries@.len(),
            crate::nearname::names(dirs@) == dir_names(entries@.take(i as int)),
        decreases entries@.len() - i,
    {
        assert(entries@.take(i + 1).drop_last() =~= entries@.take(i as int));
        let ghost before = crate::nearname::names(dirs@);
        if entries[i].entry_type == EntryType::Dir {
            dirs.push(entries[i].name.as_str());
            assert(crate::nearname::names(dirs@) =~= before.push(entries@[i as int].name@));
        }
        i = i + 1;
    }
    assert(entries@.take(entries@.len() as int) =~= entries@);
    similar_names(name, dirs.as_slice())
}

pub open spec fn mkdir_detail(similar: Seq<Seq<char>>) -> Seq<char> {
    if similar.len() == 0 {
        "mkdir"@
    } else {
        "mkdir with confirm_new past similar: "@ + joined(similar, ", "@)
    }
}

/// What comes after the operation on the directory, or the operation itself
/// while it is not over.
pub open spec fn mkdir_settles(op: MakeDir, similar: Vec<String>, p: MkdirVerbPhase) -> bool {
    match op.phase {
        MkdirPhase::Finished(Ok(_)) => p matches MkdirVerbPhase::Auditing { similar: s, detail } && s == similar
            && detail@ == mkdir_detail(views(similar@)),
        MkdirPhase::Finished(Err(e)) => p == MkdirVerbPhase::Finished(Err(e)),
        _ => p == (MkdirVerbPhase::Working { op, similar }),
    }
}

impl MkdirVerb {
    /// The existing directories that the new name resembles.
    pub open spec fn similar_in(&self, entries: Seq<RawDirEntry>) -> Seq<Seq<char>> {
        let name = leaf_text(self.path@, grammar_of(self.kind).sep_char());
        dir_names(entries).filter(|n: Seq<char>| resembles(name, n))
    }

    /// Where an answer takes the verb.
    pub open spec fn leads(&self, a: Answer, p: MkdirVerbPhase) -> bool {
        match (self.phase, a) {
            (MkdirVerbPhase::Listing { parent, confirm_new }, Answer::Listing(r)) => match r {
                Ok(entries) => {
                    let similar = self.similar_in(entries@);
                    if similar.len() > 0 && !confirm_new {
                        p matches MkdirVerbPhase::Finished(Err(ChaprError::NearDuplicateName { path, similar: s }))
                            && path == self.path && views(s@) == similar
                    } else {
                        p matches MkdirVerbPhase::Working { op, similar: s } && views(s@) == similar
                            && op.kind == self.kind && op.path == self.path && op.phase is Asking
                    }
                },
                Err(e) => if e.kind == IoKind::NotFound {
                    p == MkdirVerbPhase::Finished(Err(ChaprError::ParentMissing { path: self.path, parent }))
                } else {
                    p == MkdirVerbPhase::Finished(Err(os_error(parent, e)))
                },
            },
            (MkdirVerbPhase::Working { op, similar }, a) => exists|n: MakeDir| n.kind == op.kind && n.path == op.path
                && op.leads(a, n.phase) && #[trigger] mkdir_settles(n, similar, p),
            // The directory is there: an entry missing from the trail is not a failure.
            (MkdirVerbPhase::Auditing { similar, detail }, Answer::Coord(_)) => p == MkdirVerbPhase::Finished(
                Ok(MkdirResponse { canonical_path: self.path, similar_existing: similar }),
            ),
            (phase, _) => p == phase,
        }
    }

    /// Whether `n` is this verb one answer later.
    pub open spec fn next(&self, a: Answer, n: MkdirVerb) -> bool {
        &&& n.kind == self.kind
        &&& n.principal == self.principal
        &&& n.session_id == self.session_id
        &&& n.path == self.path
        &&& self.leads(a, n.phase)
    }

    /// What the verb needs done.
    pub open spec fn wants(&self) -> Action<'_> {
        match self.phase {
            MkdirVerbPhase::Listing { parent, confirm_new } => Action::List(&parent),
            MkdirVerbPhase::Working { op, similar } => op.wants(),
            MkdirVerbPhase::Auditing { similar, detail } => Action::Audit {
                principal: &self.principal,
                session_id: &self.session_id,
                path: &self.path,
                kind: AuditKind::DirCreate,
                from_version: None,
                to_version: None,
                detail: &detail,
            },
            MkdirVerbPhase::Finished(_) => Action::Nothing,
        }
    }

    /// What the verb needs done next.
    pub fn action(&self) -> (r: Action<'_>)
        ensures
            r == self.wants(),
    {
        match &self.phase {
            MkdirVerbPhase::Listing { parent, confirm_new: _ } => Action::List(parent),
            MkdirVerbPhase::Working { op, similar: _ } => op.action(),
            MkdirVerbPhase::Auditing { similar: _, detail } => Action::Audit {
                principal: &self.principal,
                session_id: &self.session_id,
                path: &self.path,
                kind: AuditKind::DirCreate,
                from_version: None,
                to_version: None,
                detail,
            },
            MkdirVerbPhase::Finished(_) => Action::Nothing,
        }
    }

    fn settle(&self, op: MakeDir, similar: Vec<String>) -> (p: MkdirVerbPhase)
        ensures
            mkdir_settles(op, similar, p),
    {
        if !matches!(op.phase, MkdirPhase::Finished(_)) {
            return MkdirVerbPhase::Working { op, similar };
        }
        match op.phase {
            MkdirPhase::Finished(Ok(_)) => {
                let detail = if similar.len() == 0 {
                    own("mkdir")
                } else {
                    let mut d = own("mkdir with confirm_new past similar: ");
                    d.append(join(similar.as_slice(), ", ").as_str());
                    d
                };
                MkdirVerbPhase::Auditing { similar, detail }
            },
            MkdirPhase::Finished(Err(e)) => MkdirVerbPhase::Finished(Err(e)),
            _ => MkdirVerbPhase::Finished(Err(ChaprError::CoordUnreachable)),
        }
    }

    /// Moves the verb on by what came of its action.
    pub fn advance(self, answer: Answer) -> (n: MkdirVerb)
        ensures
            self.next(answer, n),
    {
        let mut verb = self;
        let mut phase = MkdirVerbPhase::Finished(Err(ChaprError::CoordUnreachable));
        std::mem::swap(&mut verb.phase, &mut phase);
        let next = match (phase, answer) {
            (MkdirVerbPhase::Listing { parent, confirm_new }, Answer::Listing(r)) => match r {
                Ok(entries) => {
                    let name = leaf(verb.path.as_str(), grammar_for(verb.kind).sep());
                    let similar = similar_dirs(name.as_str(), &entries);
                    assert(views(similar@).len() == similar@.len());
                    if similar.len() > 0 && !confirm_new {
                        MkdirVerbPhase::Finished(
                            Err(ChaprError::NearDuplicateName { path: verb.path.clone(), similar }),
                        )
                    } else {
                        MkdirVerbPhase::Working { op: MakeDir::begin(verb.kind, verb.path.clone()), similar }
                    }
                },
                Err(e) => if e.kind == IoKind::NotFound {
                    MkdirVerbPhase::Finished(Err(ChaprError::ParentMissing { path: verb.path.clone(), parent }))
                } else {
                    MkdirVerbPhase::Finished(Err(map_os_err(&parent, e)))
                },
            },
            (MkdirVerbPhase::Working { op, similar }, answer) => {
                let n = op.advance(answer);
                verb.settle(n, similar)
            },
            (MkdirVerbPhase::Auditing { similar, detail: _ }, Answer::Coord(_)) => MkdirVerbPhase::Finished(
                Ok(MkdirResponse { canonical_path: verb.path.clone(), similar_existing: similar }),
            ),
            (phase, _) => phase,
        };
        verb.phase = next;
        verb
    }
}

/// What the making of a share root is refused with.
pub open spec fn is_share_root(r: ChaprError, raw_uri: Seq<char>) -> bool {
    r matches ChaprError::InvalidPath { raw, reason } && raw@ == raw_uri
        && reason@ == "a share root cannot be created"@
}

/// The making of one directory, held against the names that are there already.
pub fn mkdir<M: MountTable>(
    kind: BackendKind,
    mounts: &M,
    roots: &[CanonicalPath],
    principal: Principal,
    session_id: SessionId,
    raw_uri: &str,
    confirm_new: bool,
) -> (r: Result<MkdirVerb, ChaprError>)
    ensures
        exists|path: Result<CanonicalPath, ChaprError>|
            #[trigger] may_canonicalize(&grammar_of(kind), *mounts, raw_uri@, roots@, path) && match path {
                Err(e) => r == Err::<MkdirVerb, ChaprError>(e),
                Ok(p) => match parent_text(p@, grammar_of(kind).sep_char()) {
                    None => r matches Err(e) && is_share_root(e, raw_uri@),
                    Some(dir) => r matches Ok(v) && v.kind == kind && v.principal == principal
                        && v.session_id == session_id && v.path == p
                        && (v.phase matches MkdirVerbPhase::Listing { parent, confirm_new: c } && parent@ == dir
                        && c == confirm_new),
                },
            },
{
    let canonical = canonicalize_in(raw_uri, &grammar_for(kind), mounts, roots);
    let ghost seen = canonical;
    assert(may_canonicalize(&grammar_of(kind), *mounts, raw_uri@, roots@, seen));
    let path = match canonical {
        Ok(p) => p,
        Err(e) => return Err(e),
    };
    match parent_of(kind, &path) {
        None => Err(ChaprError::InvalidPath { raw: own(raw_uri), reason: own("a share root cannot be created") }),
        Some(parent) => Ok(
            MkdirVerb { kind, principal, session_id, path, phase: MkdirVerbPhase::Listing { parent, confirm_new } },
        ),
    }
}

/// A directory that resembles another is made only on confirmation: without it,
/// no answer leads on to the making.
pub proof fn near_duplicates_need_confirmation(s: MkdirVerb, entries: Vec<RawDirEntry>, n: MkdirVerb)
    requires
        s.next(Answer::Listing(Ok(entries)), n),
        s.phase matches MkdirVerbPhase::Listing { confirm_new: false, .. },
        s.similar_in(entries@).len() > 0,
    ensures
        n.phase matches MkdirVerbPhase::Finished(Err(ChaprError::NearDuplicateName { .. })),
{
}

/// A creation takes a lease for it on the path, and works under that lease on exactly what
/// was submitted, asking for what the operation on the file asks; once the file is made,
/// its version and size go into the version log as a new file.
pub proof fn a_creation_begins_with_a_lease(s: CreateVerb, content: Vec<u8>, lease: LeaseId, n: CreateVerb)
    requires
        s.wf(),
        s.phase == (CreateVerbPhase::Acquiring { content }),
        s.next(Answer::Lease(Ok(lease)), n),
        content@.len() <= 268435456,
    ensures
        s.wants() matches Action::Acquire { principal, session_id, purpose, paths } && *principal == s.principal && *session_id
            == s.session_id && purpose == LeasePurpose::Create && paths@ == seq![s.path],
        n.phase matches CreateVerbPhase::Working { lease: l, op } && l == lease && op.kind == s.kind && op.path == s.path && op.content
            == content,
{
}

/// While the file is made, a creation asks for what the operation on the file asks; what
/// was made goes into the version log as a new file, and what stopped it is what the
/// creation ends with.
pub proof fn a_creation_is_logged_as_it_was(s: CreateVerb, lease: LeaseId, op: Create, a: Answer, n: CreateVerb)
    requires
        s.phase == (CreateVerbPhase::Working { lease, op }),
        s.next(a, n),
    ensures
        s.wants() == op.wants(),
        exists|done: Create| #[trigger] op.next(a, done) && match done.phase {
            CreatePhase::Finished(Ok(receipt)) => receipt.to_version matches Some(v) ==> n.wants() == (Action::AppendLog {
                path: &s.path,
                blob_hash: &v,
                writer: &s.principal,
                size: receipt.size,
                event: VersionEvent::Create,
                pre_image: None,
            }),
            CreatePhase::Finished(Err(e)) => n.phase == (CreateVerbPhase::Releasing { lease, result: Err(e) }),
            _ => n.phase == (CreateVerbPhase::Working { lease, op: done }),
        },
{
}

/// After the version log comes the audit trail, then the note that this session knows the
/// version, and last the lease goes back; the creation ends with that version.
pub proof fn a_logged_creation_is_seen_through(
    s: CreateVerb,
    lease: LeaseId,
    version: VersionToken,
    size: u64,
    n: CreateVerb,
    m: CreateVerb,
    r: Result<(), ChaprError>,
    o: CreateVerb,
    q: Result<(), ChaprError>,
    end: CreateVerb,
)
    requires
        s.phase == (CreateVerbPhase::Logging { lease, version, size }),
        s.next(Answer::Coord(Ok(())), n),
        n.next(Answer::Coord(Ok(())), m),
        m.next(Answer::Coord(r), o),
        o.next(Answer::Coord(q), end),
    ensures
        n.wants() matches Action::Audit { principal, session_id, path, kind, from_version: None, to_version: Some(to), detail }
            && *principal == s.principal && *session_id == s.session_id && *path == s.path && kind == AuditKind::WriteCommit && *to
            == version && detail@ == "create"@,
        m.wants() == (Action::RecordRead { session_id: &s.session_id, path: &s.path, version: &version }),
        o.wants() == Action::Release(&lease),
        end.phase == CreateVerbPhase::Finished(Ok(version)),
{
}

/// A creation that is on the share and could not be recorded says so, with the path and
/// the version that is there, and gives its lease back.
pub proof fn an_unrecorded_creation_says_so(s: CreateVerb, e: ChaprError, n: CreateVerb, r: Result<(), ChaprError>, end: CreateVerb)
    requires
        s.phase is Logging || s.phase is Auditing,
        s.next(Answer::Coord(Err(e)), n),
        n.next(Answer::Coord(r), end),
    ensures
        n.wants() is Release,
        end.phase matches CreateVerbPhase::Finished(Err(ChaprError::CommittedButUnrecorded { path, version, message })) && message@ == e.text() && path
            == s.path
            && match s.phase {
            CreateVerbPhase::Logging { version: v, .. } => v == version,
            CreateVerbPhase::Auditing { version: v, .. } => v == version,
            _ => false,
        },
{
}

/// A deletion begins by having it confirmed that this session read the version it names,
/// then takes a lease for deleting on the path, and works under that lease.
pub proof fn a_deletion_begins_with_leave(s: DeleteVerb, base: VersionToken, n: DeleteVerb, lease: LeaseId, m: DeleteVerb)
    requires
        s.wf(),
        s.phase == (DeleteVerbPhase::Asserting { base }),
        s.next(Answer::Coord(Ok(())), n),
        n.next(Answer::Lease(Ok(lease)), m),
    ensures
        s.wants() == (Action::AssertRead { session_id: &s.session_id, path: &s.path, version: &base }),
        n.wants() matches Action::Acquire { principal, session_id, purpose, paths } && *principal == s.principal && *session_id
            == s.session_id && purpose == LeasePurpose::Delete && paths@ == seq![s.path],
        m.phase matches DeleteVerbPhase::Working { lease: l, op } && l == lease && op.kind == s.kind && op.principal == s.principal
            && op.atomic_writes == s.atomic_writes && op.args.path == s.path && op.args.lease_id == lease && op.args.base_version == base,
{
}

/// Without leave nothing is deleted: a deletion that cannot have its version confirmed, or
/// gets no lease, ends with that error before it touches the file.
pub proof fn deletions_fail_closed(s: DeleteVerb, a: Answer, e: ChaprError, n: DeleteVerb)
    requires
        s.next(a, n),
        s.phase is Asserting && a == Answer::Coord(Err(e)) || s.phase is Acquiring && a == Answer::Lease(Err(e)),
    ensures
        n.phase == DeleteVerbPhase::Finished(Err(e)),
{
}

/// While the file is worked on, a deletion asks for what the operation on the file asks;
/// what is gone goes into the version log under its own version and size, and what stopped
/// the operation is what the deletion ends with.
pub proof fn a_deletion_is_logged_as_it_was(s: DeleteVerb, lease: LeaseId, op: DeleteCas, a: Answer, n: DeleteVerb)
    requires
        s.phase == (DeleteVerbPhase::Working { lease, op }),
        s.next(a, n),
    ensures
        s.wants() == op.wants(),
        exists|done: DeleteCas| #[trigger] op.next(a, done) && match done.phase {
            DeletePhase::Finished(Ok(receipt)) => receipt.from_version matches Some(v) ==> n.wants() == (Action::AppendLog {
                path: &s.path,
                blob_hash: &v,
                writer: &s.principal,
                size: receipt.size,
                event: VersionEvent::Delete,
                pre_image: None,
            }),
            DeletePhase::Finished(Err(e)) => n.phase == (DeleteVerbPhase::Releasing { lease, result: Err(e) }),
            _ => n.phase == (DeleteVerbPhase::Working { lease, op: done }),
        },
{
}

/// After the version log comes the audit trail, and last the lease goes back; the deletion
/// ends well.
pub proof fn a_logged_deletion_is_seen_through(
    s: DeleteVerb,
    lease: LeaseId,
    deleted: VersionToken,
    size: u64,
    n: DeleteVerb,
    m: DeleteVerb,
    q: Result<(), ChaprError>,
    end: DeleteVerb,
)
    requires
        s.phase == (DeleteVerbPhase::Logging { lease, deleted, size }),
        s.next(Answer::Coord(Ok(())), n),
        n.next(Answer::Coord(Ok(())), m),
        m.next(Answer::Coord(q), end),
    ensures
        n.wants() matches Action::Audit { principal, session_id, path, kind, from_version: Some(from), to_version: None, detail }
            && *principal == s.principal && *session_id == s.session_id && *path == s.path && kind == AuditKind::WriteCommit && *from
            == deleted && detail@ == "soft delete"@,
        m.wants() == Action::Release(&lease),
        end.phase matches DeleteVerbPhase::Finished(Ok(_)),
{
}

/// A deletion that happened and could not be recorded says so, with the path and the
/// version that is gone, and gives its lease back.
pub proof fn an_unrecorded_deletion_says_so(s: DeleteVerb, e: ChaprError, n: DeleteVerb, r: Result<(), ChaprError>, end: DeleteVerb)
    requires
        s.phase is Logging || s.phase is Auditing,
        s.next(Answer::Coord(Err(e)), n),
        n.next(Answer::Coord(r), end),
    ensures
        n.wants() is Release,
        end.phase matches DeleteVerbPhase::Finished(Err(ChaprError::CommittedButUnrecorded { path, version, message })) && message@ == e.text() && path
            == s.path
            && match s.phase {
            DeleteVerbPhase::Logging { deleted: v, .. } => v == version,
            DeleteVerbPhase::Auditing { deleted: v, .. } => v == version,
            _ => false,
        },
{
}

/// A restore fetches the version that was asked for, and goes on with exactly those bytes:
/// to a new file beside the path, or, where the caller says what it saw there, to a lease
/// for restoring the path itself. In place without such a word nothing happens.
pub proof fn a_restore_is_of_the_version_asked_for(s: RestoreVerb, mode: RestoreMode, base: Option<RestoreBase>, bytes: Vec<u8>, n: RestoreVerb)
    requires
        s.wf(),
        s.phase == (RestoreVerbPhase::Fetching { mode, base }),
        s.next(Answer::Blob(Ok(bytes)), n),
    ensures
        s.wants() == Action::GetBlob(&s.version),
        mode == RestoreMode::Copy ==> (n.wants() matches Action::CreateNew(copy, content) && *content == bytes && exists|
            stamp: Seq<char>,
            id: Seq<char>,
        |
            is_stamp(stamp) && is_short_id(id) && copy@ == #[trigger] restored_text(&grammar_of(s.kind), s.path@, stamp, id)),
        mode == RestoreMode::InPlace && base is None ==> n.phase == RestoreVerbPhase::Finished(
            Err(ChaprError::BaseVersionRequired { path: s.path }),
        ),
        mode == RestoreMode::InPlace && base is Some ==> (n.wants() matches Action::Acquire { principal, session_id, purpose, paths }
            && *principal == s.principal && *session_id == s.session_id && purpose == LeasePurpose::Restore && paths@ == seq![s.path])
            && n.phase == (RestoreVerbPhase::Acquiring { bytes, seen: base->0 }),
{
}

/// A restore in place works under its lease on the bytes it fetched, under the version it
/// was asked for and against what the caller saw.
pub proof fn a_restore_in_place_begins_with_a_lease(s: RestoreVerb, bytes: Vec<u8>, seen: RestoreBase, lease: LeaseId, n: RestoreVerb)
    requires
        s.phase == (RestoreVerbPhase::Acquiring { bytes, seen }),
        s.next(Answer::Lease(Ok(lease)), n),
    ensures
        n.phase matches RestoreVerbPhase::Working { lease: l, op } && l == lease && op.kind == s.kind && op.principal == s.principal
            && op.atomic_writes == s.atomic_writes && op.args.path == s.path && op.args.lease_id == lease && op.args.bytes == bytes
            && op.args.version == s.version && op.args.base == seen,
{
}

/// While the file is worked on, a restore asks for what the operation on the file asks; what
/// is there now goes into the version log as a restore, with the version and size of what it
/// replaced, and what stopped the operation is what the restore ends with.
pub proof fn a_restore_is_logged_as_it_was(s: RestoreVerb, lease: LeaseId, op: RestoreInPlace, a: Answer, n: RestoreVerb)
    requires
        s.phase == (RestoreVerbPhase::Working { lease, op }),
        s.next(a, n),
    ensures
        s.wants() == op.wants(),
        exists|done: RestoreInPlace| #[trigger] op.next(a, done) && match done.phase {
            RestorePhase::Finished(Ok(receipt)) => n.wants() matches Action::AppendLog { path, blob_hash, writer, size, event, pre_image }
                && *path == s.path && *blob_hash == s.version && *writer == s.principal && size == receipt.size && event
                == VersionEvent::Restore && (receipt.from_version is None ==> pre_image is None) && (receipt.from_version matches Some(
                from,
            ) ==> (receipt.from_size matches Some(k) ==> (pre_image matches Some(p) && p.version == from && p.size == k))),
            RestorePhase::Finished(Err(e)) => n.phase == (RestoreVerbPhase::Releasing { lease, result: Err(e) }),
            _ => n.phase == (RestoreVerbPhase::Working { lease, op: done }),
        },
{
}

/// A restore in place that is logged goes into the audit trail, gives its lease back, and
/// ends with the version that it restored and no copy.
pub proof fn a_logged_restore_is_seen_through(
    s: RestoreVerb,
    lease: LeaseId,
    from: Option<VersionToken>,
    pre_image: Option<PreImage>,
    size: u64,
    n: RestoreVerb,
    m: RestoreVerb,
    q: Result<(), ChaprError>,
    end: RestoreVerb,
)
    requires
        s.phase == (RestoreVerbPhase::Logging { lease, from, pre_image, size }),
        s.next(Answer::Coord(Ok(())), n),
        n.next(Answer::Coord(Ok(())), m),
        m.next(Answer::Coord(q), end),
    ensures
        n.wants() matches Action::Audit { principal, session_id, path, kind, from_version, to_version: Some(to), detail } && *principal
            == s.principal && *session_id == s.session_id && *path == s.path && kind == AuditKind::Restore && *to == s.version && (from
            matches Some(f) ==> from_version == Some(&f)) && detail@ == "restore in_place"@,
        m.wants() == Action::Release(&lease),
        end.phase == RestoreVerbPhase::Finished(Ok(RestoreResponse { restored_path: None, version: s.version })),
{
}

/// A copy that was made is logged and audited under its own path, and the restore ends with
/// that path and the version.
pub proof fn a_copy_is_seen_through(s: RestoreVerb, restored: CanonicalPath, size: u64, n: RestoreVerb, m: RestoreVerb)
    requires
        s.phase == (RestoreVerbPhase::CopyLogging { restored, size }),
        s.next(Answer::Coord(Ok(())), n),
        n.next(Answer::Coord(Ok(())), m),
    ensures
        s.wants() == (Action::AppendLog {
            path: &restored,
            blob_hash: &s.version,
            writer: &s.principal,
            size,
            event: VersionEvent::Restore,
            pre_image: None,
        }),
        n.wants() matches Action::Audit { principal, session_id, path, kind, from_version: None, to_version: Some(to), detail }
            && *principal == s.principal && *session_id == s.session_id && *path == restored && kind == AuditKind::Restore && *to
            == s.version && detail@ == "restore copy"@,
        m.phase == RestoreVerbPhase::Finished(Ok(RestoreResponse { restored_path: Some(restored), version: s.version })),
{
}

/// A copy is logged once it is made, with the size of what it holds.
pub proof fn a_copy_is_logged_once_made(s: RestoreVerb, copy: RestoreCopy, size: u64, r: Result<(), IoFailure>, n: RestoreVerb)
    requires
        s.phase == (RestoreVerbPhase::Copying { copy, size }),
        copy.phase is Creating,
        s.next(Answer::Done(r), n),
    ensures
        r is Ok ==> n.phase == (RestoreVerbPhase::CopyLogging { restored: copy.restored, size }),
        r is Err ==> n.phase matches RestoreVerbPhase::Finished(Err(_)),
{
}

/// A restore that happened and could not be recorded says so, with the path and the version
/// that is there, and gives its lease back.
pub proof fn an_unrecorded_restore_says_so(s: RestoreVerb, e: ChaprError, n: RestoreVerb, r: Result<(), ChaprError>, end: RestoreVerb)
    requires
        s.phase is Logging || s.phase is Auditing,
        s.next(Answer::Coord(Err(e)), n),
        n.next(Answer::Coord(r), end),
    ensures
        n.wants() is Release,
        end.phase matches RestoreVerbPhase::Finished(Err(ChaprError::CommittedButUnrecorded { path, version, message })) && message@ == e.text() && path
            == s.path
            && version == s.version,
{
}

/// A move begins by having it confirmed that this session read the source at the version it
/// names, then takes one lease for moving on both paths, and works under that lease.
pub proof fn a_move_begins_with_leave(s: MoveVerb, src_base: VersionToken, dst_base: Option<VersionToken>, n: MoveVerb, lease: LeaseId, m: MoveVerb)
    requires
        s.wf(),
        s.phase == (MoveVerbPhase::Asserting { src_base, dst_base }),
        s.next(Answer::Coord(Ok(())), n),
        n.next(Answer::Lease(Ok(lease)), m),
    ensures
        s.wants() == (Action::AssertRead { session_id: &s.session_id, path: &s.src, version: &src_base }),
        n.wants() matches Action::Acquire { principal, session_id, purpose, paths } && *principal == s.principal && *session_id
            == s.session_id && purpose == LeasePurpose::Move && paths@ == seq![s.src, s.dst],
        m.phase matches MoveVerbPhase::Working { lease: l, op } && l == lease && op.kind == s.kind && op.principal == s.principal
            && op.session_id == s.session_id && op.args.src == s.src && op.args.dst == s.dst && op.args.src_base_version == src_base
            && op.args.dst_base_version == dst_base && op.args.lease_id == lease,
{
}

/// A move asks for what the operation on the files asks, gives its lease back when that is
/// over, and ends with what came of it.
pub proof fn a_move_ends_with_what_came_of_it(s: MoveVerb, lease: LeaseId, op: MoveCas, a: Answer, n: MoveVerb)
    requires
        s.phase == (MoveVerbPhase::Working { lease, op }),
        s.next(a, n),
    ensures
        s.wants() == op.wants(),
        exists|done: MoveCas| #[trigger] op.next(a, done) && match done.phase {
            MovePhase::Finished(result) => n.wants() == Action::Release(&lease) && n.phase == (MoveVerbPhase::Releasing { lease, result }),
            _ => n.phase == (MoveVerbPhase::Working { lease, op: done }),
        },
{
}

/// Giving the lease back changes nothing about how a move ended, and a move without leave
/// or lease ends before it touches anything.
pub proof fn a_move_keeps_its_result(s: MoveVerb, a: Answer, n: MoveVerb)
    requires
        s.next(a, n),
    ensures
        s.phase matches MoveVerbPhase::Releasing { lease, result } ==> (a is Coord ==> n.phase == MoveVerbPhase::Finished(result)),
        s.phase is Asserting ==> (a matches Answer::Coord(Err(e)) ==> n.phase == MoveVerbPhase::Finished(Err(e))),
        s.phase is Acquiring ==> (a matches Answer::Lease(Err(e)) ==> n.phase == MoveVerbPhase::Finished(Err(e))),
{
}

proof fn filter_keeps(s: Seq<Seq<char>>, keep: spec_fn(Seq<char>) -> bool, x: Seq<char>)
    ensures
        s.filter(keep).contains(x) <==> s.contains(x) && keep(x),
    decreases s.len(),
{
    reveal(Seq::filter);
    if s.len() > 0 {
        let d = s.drop_last();
        filter_keeps(d, keep, x);
        assert(s =~= d.push(s.last()));
        let f = d.filter(keep);
        if s.contains(x) {
            let i = choose|i: int| 0 <= i < s.len() && s[i] == x;
            if i < d.len() {
                assert(d[i] == x);
            }
        }
        if d.contains(x) {
            let i = choose|i: int| 0 <= i < d.len() && d[i] == x;
            assert(s[i] == x);
        }
        assert(s[s.len() - 1] == s.last());
        if keep(s.last()) {
            let g = f.push(s.last());
            if f.contains(x) {
                let i = choose|i: int| 0 <= i < f.len() && f[i] == x;
                assert(g[i] == x);
            }
            assert(g[g.len() - 1] == s.last());
            if g.contains(x) {
                let i = choose|i: int| 0 <= i < g.len() && g[i] == x;
                if i < f.len() {
                    assert(f[i] == x);
                }
            }
        }
    }
}

proof fn dir_names_are_of_dirs(entries: Seq<RawDirEntry>, x: Seq<char>)
    ensures
        dir_names(entries).contains(x) <==> exists|k: int|
            0 <= k < entries.len() && (#[trigger] entries[k]).entry_type == EntryType::Dir && entries[k].name@ == x,
    decreases entries.len(),
{
    if entries.len() > 0 {
        let d = entries.drop_last();
        dir_names_are_of_dirs(d, x);
        let f = dir_names(d);
        let last = entries[entries.len() - 1];
        if exists|k: int| 0 <= k < entries.len() && (#[trigger] entries[k]).entry_type == EntryType::Dir && entries[k].name@ == x {
            let k = choose|k: int| 0 <= k < entries.len() && (#[trigger] entries[k]).entry_type == EntryType::Dir && entries[k].name@ == x;
            if k < d.len() {
                assert(d[k].entry_type == EntryType::Dir);
            }
        }
        if exists|k: int| 0 <= k < d.len() && (#[trigger] d[k]).entry_type == EntryType::Dir && d[k].name@ == x {
            let k = choose|k: int| 0 <= k < d.len() && (#[trigger] d[k]).entry_type == EntryType::Dir && d[k].name@ == x;
            assert(entries[k].entry_type == EntryType::Dir);
        }
        if last.entry_type == EntryType::Dir {
            let g = f.push(last.name@);
            assert(g[g.len() - 1] == last.name@);
            if f.contains(x) {
                let i = choose|i: int| 0 <= i < f.len() && f[i] == x;
                assert(g[i] == x);
            }
            if g.contains(x) {
                let i = choose|i: int| 0 <= i < g.len() && g[i] == x;
                if i < f.len() {
                    assert(f[i] == x);
                }
            }
        }
    }
}

proof fn similar_are_the_resembling_dirs(s: MkdirVerb, entries: Seq<RawDirEntry>, dir: Seq<char>, name: Seq<char>, x: Seq<char>)
    requires
        s.path@ == dir + name,
        dir.len() == 0 || dir.last() == grammar_of(s.kind).sep_char(),
        forall|i: int| 0 <= i < name.len() ==> name[i] != grammar_of(s.kind).sep_char(),
    ensures
        s.similar_in(entries).contains(x) <==> resembles(name, x) && exists|k: int|
            0 <= k < entries.len() && (#[trigger] entries[k]).entry_type == EntryType::Dir && entries[k].name@ == x,
{
    cut_of(dir, name, grammar_of(s.kind).sep_char());
    let leaf = leaf_text(s.path@, grammar_of(s.kind).sep_char());
    filter_keeps(dir_names(entries), |n: Seq<char>| resembles(leaf, n), x);
    dir_names_are_of_dirs(entries, x);
}

/// The making of a directory is held against the directory above: where that holds a
/// directory whose name resembles the new one, and the caller does not insist, nothing is
/// made, and every such name is told. Files do not count.
pub proof fn a_resembling_directory_stops_the_making(s: MkdirVerb, parent: CanonicalPath, entries: Vec<RawDirEntry>, n: MkdirVerb, dir: Seq<char>, name: Seq<char>, k: int)
    requires
        s.phase == (MkdirVerbPhase::Listing { parent, confirm_new: false }),
        s.next(Answer::Listing(Ok(entries)), n),
        s.path@ == dir + name,
        dir.len() == 0 || dir.last() == grammar_of(s.kind).sep_char(),
        forall|i: int| 0 <= i < name.len() ==> name[i] != grammar_of(s.kind).sep_char(),
        0 <= k < entries@.len(),
        entries@[k].entry_type == EntryType::Dir,
        resembles(name, entries@[k].name@),
    ensures
        s.wants() == Action::List(&parent),
        n.phase matches MkdirVerbPhase::Finished(Err(ChaprError::NearDuplicateName { path, similar })) && path == s.path && views(similar@).contains(
            entries@[k].name@,
        ),
{
    similar_are_the_resembling_dirs(s, entries@, dir, name, entries@[k].name@);
}

/// A directory whose name resembles none that is there, or on which the caller insists, is
/// gone on with: first it is asked whether something of that name is there.
pub proof fn other_directories_are_made(s: MkdirVerb, parent: CanonicalPath, confirm_new: bool, entries: Vec<RawDirEntry>, n: MkdirVerb, dir: Seq<char>, name: Seq<char>)
    requires
        s.phase == (MkdirVerbPhase::Listing { parent, confirm_new }),
        s.next(Answer::Listing(Ok(entries)), n),
        s.path@ == dir + name,
        dir.len() == 0 || dir.last() == grammar_of(s.kind).sep_char(),
        forall|i: int| 0 <= i < name.len() ==> name[i] != grammar_of(s.kind).sep_char(),
        confirm_new || forall|k: int|
            0 <= k < entries@.len() && (#[trigger] entries@[k]).entry_type == EntryType::Dir ==> !resembles(name, entries@[k].name@),
    ensures
        n.wants() == Action::Exists(&s.path),
        n.phase matches MkdirVerbPhase::Working { op, similar } && op.kind == s.kind && op.path == s.path,
{
    let similar = s.similar_in(entries@);
    if similar.len() > 0 {
        let x = similar[0];
        assert(similar.contains(x));
        similar_are_the_resembling_dirs(s, entries@, dir, name, x);
    }
}

/// A misspelled second directory is not made: a name of four characters or more that is one
/// slip away from that of a directory beside it, the slip being no matter of numbers, is
/// refused unless the caller insists.
pub proof fn a_misspelled_directory_is_not_made(
    s: MkdirVerb,
    parent: CanonicalPath,
    entries: Vec<RawDirEntry>,
    n: MkdirVerb,
    dir: Seq<char>,
    name: Seq<char>,
    k: int,
    head: Seq<char>,
    x: char,
    y: char,
    tail: Seq<char>,
)
    requires
        s.phase == (MkdirVerbPhase::Listing { parent, confirm_new: false }),
        s.next(Answer::Listing(Ok(entries)), n),
        s.path@ == dir + name,
        dir.len() == 0 || dir.last() == grammar_of(s.kind).sep_char(),
        forall|i: int| 0 <= i < name.len() ==> name[i] != grammar_of(s.kind).sep_char(),
        0 <= k < entries@.len(),
        entries@[k].entry_type == EntryType::Dir,
        head.len() + tail.len() >= 3,
        unnumbered(plain_form(name)) != unnumbered(plain_form(entries@[k].name@)),
        ({
            let new = plain_form(name);
            let there = plain_form(entries@[k].name@);
            ||| new == head + seq![x] + tail && there == head + seq![y] + tail
            ||| new == head + tail && there == head + seq![y] + tail && new.len() >= 4
            ||| new == head + seq![x] + tail && there == head + tail
            ||| new == head + seq![x, y] + tail && there == head + seq![y, x] + tail
        }),
    ensures
        n.phase matches MkdirVerbPhase::Finished(Err(ChaprError::NearDuplicateName { path, similar })) && path == s.path && views(similar@).contains(
            entries@[k].name@,
        ),
{
    a_slip_in_a_name_is_caught(name, entries@[k].name@, head, x, y, tail);
    a_resembling_directory_stops_the_making(s, parent, entries, n, dir, name, k);
}

/// A directory that was made goes into the audit trail and is reported under its path, with
/// the names it resembles; what stopped the making is what the verb ends with.
pub proof fn a_directory_is_reported_as_made(s: MkdirVerb, op: MakeDir, similar: Vec<String>, a: Answer, n: MkdirVerb, r: Result<(), ChaprError>, end: MkdirVerb)
    requires
        s.phase == (MkdirVerbPhase::Working { op, similar }),
        op.path == s.path,
        s.next(a, n),
        n.next(Answer::Coord(r), end),
    ensures
        s.wants() == op.wants(),
        op.phase is Making && (a matches Answer::Done(Ok(_))) ==> (n.wants() matches Action::Audit {
            principal,
            session_id,
            path,
            kind,
            from_version: None,
            to_version: None,
            detail,
        } && *principal == s.principal && *session_id == s.session_id && *path == s.path && kind == AuditKind::DirCreate)
            && end.phase == MkdirVerbPhase::Finished(Ok(MkdirResponse { canonical_path: s.path, similar_existing: similar })),
        n.wants() is Audit ==> op.phase is Making && (a matches Answer::Done(Ok(_))) || op.phase is Finished,
{
}

/// Where the directory above a new one is missing, it is named, and nothing is made; what
/// else kept it from being listed is told of that directory.
pub proof fn a_directory_needs_its_parent(s: MkdirVerb, parent: CanonicalPath, confirm_new: bool, e: IoFailure, n: MkdirVerb)
    requires
        s.phase == (MkdirVerbPhase::Listing { parent, confirm_new }),
        s.next(Answer::Listing(Err(e)), n),
    ensures
        e.kind == IoKind::NotFound ==> n.phase == MkdirVerbPhase::Finished(Err(ChaprError::ParentMissing { path: s.path, parent })),
        e.kind != IoKind::NotFound ==> n.phase == MkdirVerbPhase::Finished(Err(os_error(parent, e))),
{
}

/// Every name that a refusal or a report lists is that of a directory beside the new one,
/// and resembles it.
pub proof fn only_resembling_names_are_told(s: MkdirVerb, entries: Vec<RawDirEntry>, n: MkdirVerb, dir: Seq<char>, name: Seq<char>, x: Seq<char>)
    requires
        s.phase is Listing,
        s.next(Answer::Listing(Ok(entries)), n),
        s.path@ == dir + name,
        dir.len() == 0 || dir.last() == grammar_of(s.kind).sep_char(),
        forall|i: int| 0 <= i < name.len() ==> name[i] != grammar_of(s.kind).sep_char(),
        match n.phase {
            MkdirVerbPhase::Finished(Err(ChaprError::NearDuplicateName { path, similar })) => views(similar@).contains(x),
            MkdirVerbPhase::Working { op, similar } => views(similar@).contains(x),
            _ => false,
        },
    ensures
        resembles(name, x),
        exists|k: int| 0 <= k < entries@.len() && (#[trigger] entries@[k]).entry_type == EntryType::Dir && entries@[k].name@ == x,
{
    similar_are_the_resembling_dirs(s, entries@, dir, name, x);
}

/// The audit trail says when a directory was made in spite of others, and names them.
pub proof fn insisting_is_audited(similar: Seq<Seq<char>>)
    ensures
        similar.len() == 0 ==> mkdir_detail(similar) == "mkdir"@,
        similar.len() > 0 ==> mentions(mkdir_detail(similar), joined(similar, ", "@)) && mkdir_detail(similar) != "mkdir"@,
{
    reveal_strlit("mkdir");
    reveal_strlit("mkdir with confirm_new past similar: ");
    if similar.len() > 0 {
        assert(mkdir_detail(similar) =~= "mkdir with confirm_new past similar: "@ + joined(similar, ", "@) + Seq::<char>::empty());
        assert(mkdir_detail(similar).len() > 5);
    }
}

} // verus!
