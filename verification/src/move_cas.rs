//! The move: a file under a new name, checked at both ends.
//!
//! The source is held open from its version check until the rename goes through
//! that very handle. A destination that exists is checked, stored and closed
//! before it is replaced. The intent is noted before the rename, so that a move
//! that dies half way can be completed by someone else.
use vstd::prelude::*;

use crate::backend::{
    attribution, last_writer_of, lock_paths, map_os_err, os_error, went_well, Action, Answer, IoFailure, MoveCasArgs,
    MoveReceipt, MAX_PRE_IMAGE_BYTES,
};
use crate::pathgrammar::{every_owner_file_is_known, grammar_of, PathGrammar};
use crate::proto::{blake3_text, BackendKind, CanonicalPath, ChaprError, PreImage, Principal, SessionId, VersionToken};
use crate::text::{decimal, decimal_text, mentions, own};

verus! {

/// Where a move stands: what it has asked for and not yet been told.
pub enum MovePhase {
    /// Whether the lock file number `next` of the source exists.
    Preflight { locks: Vec<CanonicalPath>, next: usize },
    /// The exclusive handle of the source.
    Opening,
    /// The contents of the source.
    Reading,
    /// Who changed the source.
    Attributing { src_now: VersionToken },
    /// Whether there is something at the destination.
    Asking { src_now: VersionToken, size: u64 },
    /// Whether the lock file number `next` of the destination exists.
    DstPreflight { src_now: VersionToken, size: u64, locks: Vec<CanonicalPath>, next: usize },
    /// That this session read the destination at the version it names.
    DstAsserting { src_now: VersionToken, size: u64, base: VersionToken },
    /// The exclusive handle of the destination.
    DstOpening { src_now: VersionToken, size: u64, base: VersionToken },
    /// The contents of the destination.
    DstReading { src_now: VersionToken, size: u64, base: VersionToken },
    /// Who changed the destination.
    DstAttributing { dst_now: VersionToken },
    /// The contents of the destination stored.
    DstStoring { src_now: VersionToken, size: u64, dst_now: VersionToken, bytes: Vec<u8> },
    /// The handle of the destination closed.
    DstClosing { src_now: VersionToken, size: u64, found: PreImage },
    /// The intent noted.
    Recording { src_now: VersionToken, size: u64, pre_image: Option<PreImage> },
    /// The rename.
    Renaming { src_now: VersionToken, size: u64, pre_image: Option<PreImage> },
    /// The note forgotten, the rename having failed.
    Withdrawing { failure: IoFailure },
    /// The handle of the source closed.
    Closing { src_now: VersionToken, size: u64, pre_image: Option<PreImage> },
    /// The coordinator's records carried over.
    Migrating { src_now: VersionToken, size: u64, pre_image: Option<PreImage> },
    /// Nothing more.
    Finished(Result<MoveReceipt, ChaprError>),
}

/// A move on its way.
pub struct MoveCas {
    /// The kind of fileserver.
    pub kind: BackendKind,
    /// Who moves.
    pub principal: Principal,
    /// In which session.
    pub session_id: SessionId,
    /// What is to be moved.
    pub args: MoveCasArgs,
    /// Where the move stands.
    pub phase: MovePhase,
}

/// Whether `p` asks for lock file number `next` of the source, or for its
/// handle where there is none left.
pub open spec fn move_preflight(locks: Vec<CanonicalPath>, next: int, p: MovePhase) -> bool {
    if next < locks@.len() {
        p matches MovePhase::Preflight { locks: l, next: n } && l == locks && n == next
    } else {
        p is Opening
    }
}

pub open spec fn move_too_large(len: nat) -> Seq<char> {
    "destination is "@ + decimal_text(len)
        + " bytes; an overwrite-move snapshots it to history first and the coordinator accepts at most "@
        + decimal_text(MAX_PRE_IMAGE_BYTES as nat)
}

pub open spec fn renamed_but(src: Seq<char>, dst: Seq<char>, e: ChaprError) -> Seq<char> {
    "the file was renamed from "@ + src + " to "@ + dst + ", but "@ + e.text()
}

/// Whether the caller read the destination at this version.
pub open spec fn read_at_dst(args: MoveCasArgs, version: Seq<char>) -> bool {
    args.dst_base_version matches Some(v) && v@ == version
}

/// Whether what is known of the destination is what the caller read there.
pub open spec fn pre_image_read(args: MoveCasArgs, pre_image: Option<PreImage>) -> bool {
    match pre_image {
        Some(p) => read_at_dst(args, p.version@),
        None => true,
    }
}

/// What follows when no lock file of the destination is in the way: the caller
/// must have named the version that it read there.
pub open spec fn checks_dst(args: MoveCasArgs, src_now: VersionToken, size: u64, p: MovePhase) -> bool {
    match args.dst_base_version {
        Some(base) => p == (MovePhase::DstAsserting { src_now, size, base }),
        None => p == MovePhase::Finished(Err(ChaprError::BaseVersionRequired { path: args.dst })),
    }
}

/// Whether `p` asks for lock file number `next` of the destination, or goes on
/// to its version where there is none left.
pub open spec fn dst_preflight(
    args: MoveCasArgs,
    src_now: VersionToken,
    size: u64,
    locks: Vec<CanonicalPath>,
    next: int,
    p: MovePhase,
) -> bool {
    if next < locks@.len() {
        p matches MovePhase::DstPreflight { src_now: v, size: s, locks: l, next: n } && v == src_now && s == size
            && l == locks && n == next
    } else {
        checks_dst(args, src_now, size, p)
    }
}

impl MoveCas {
    /// Whether the move is in a state that it can come to: past the check of an
    /// end, the version found there is the one that the caller read.
    pub open spec fn wf(&self) -> bool {
        let src = self.args.src_base_version@;
        match self.phase {
            MovePhase::Preflight { locks, next } => next < locks@.len(),
            MovePhase::Attributing { src_now } => src_now@ != src,
            MovePhase::Asking { src_now, size } => src_now@ == src,
            MovePhase::DstPreflight { src_now, size, locks, next } => src_now@ == src && next < locks@.len(),
            MovePhase::DstAsserting { src_now, size, base } => src_now@ == src && self.args.dst_base_version == Some(base),
            MovePhase::DstOpening { src_now, size, base } => src_now@ == src && self.args.dst_base_version == Some(base),
            MovePhase::DstReading { src_now, size, base } => src_now@ == src && self.args.dst_base_version == Some(base),
            MovePhase::DstAttributing { dst_now } => !read_at_dst(self.args, dst_now@),
            MovePhase::DstStoring { src_now, size, dst_now, bytes } => src_now@ == src
                && read_at_dst(self.args, dst_now@) && dst_now@ == blake3_text(bytes@)
                && bytes@.len() <= MAX_PRE_IMAGE_BYTES,
            MovePhase::DstClosing { src_now, size, found } => src_now@ == src
                && read_at_dst(self.args, found.version@),
            MovePhase::Recording { src_now, size, pre_image } => src_now@ == src && pre_image_read(self.args, pre_image),
            MovePhase::Renaming { src_now, size, pre_image } => src_now@ == src && pre_image_read(self.args, pre_image),
            MovePhase::Closing { src_now, size, pre_image } => src_now@ == src && pre_image_read(self.args, pre_image),
            MovePhase::Migrating { src_now, size, pre_image } => src_now@ == src && pre_image_read(self.args, pre_image),
            _ => true,
        }
    }

    /// A move at its beginning.
    pub open spec fn started(&self) -> bool {
        exists|locks: Vec<CanonicalPath>|
            locks@.map_values(|p: CanonicalPath| p@) == grammar_of(self.kind).lock_texts(self.args.src@)
                && #[trigger] move_preflight(locks, 0, self.phase)
    }

    /// What a move does once it knows the contents of the destination.
    pub open spec fn compared(&self, src_now: VersionToken, size: u64, base: VersionToken, bytes: Vec<u8>, p: MovePhase) -> bool {
        if blake3_text(bytes@) != base@ {
            p matches MovePhase::DstAttributing { dst_now } && dst_now@ == blake3_text(bytes@)
        } else if bytes@.len() > MAX_PRE_IMAGE_BYTES {
            p matches MovePhase::Finished(Err(ChaprError::Io { path, message })) && path == self.args.dst
                && message@ == move_too_large(bytes@.len())
        } else {
            p matches MovePhase::DstStoring { src_now: v, size: s, dst_now, bytes: b } && v == src_now && s == size
                && dst_now@ == blake3_text(bytes@) && b == bytes
        }
    }

    /// Whether an answer is one to what the move asked for.
    pub open spec fn expects(&self, a: Answer) -> bool {
        match self.phase {
            MovePhase::Preflight { .. } => a is Exists,
            MovePhase::Opening => a is Done,
            MovePhase::Reading => a is Bytes,
            MovePhase::Attributing { .. } => a is History,
            MovePhase::Asking { .. } => a is Exists,
            MovePhase::DstPreflight { .. } => a is Exists,
            MovePhase::DstAsserting { .. } => a is Coord,
            MovePhase::DstOpening { .. } => a is Done,
            MovePhase::DstReading { .. } => a is Bytes,
            MovePhase::DstAttributing { .. } => a is History,
            MovePhase::DstStoring { .. } => a is Coord,
            MovePhase::DstClosing { .. } => a is Closed,
            MovePhase::Recording { .. } => a is Coord,
            MovePhase::Renaming { .. } => a is Done,
            MovePhase::Withdrawing { .. } => a is Coord,
            MovePhase::Closing { .. } => a is Closed,
            MovePhase::Migrating { .. } => a is Coord,
            MovePhase::Finished(_) => false,
        }
    }

    /// Where an answer takes the move.
    pub open spec fn leads(&self, a: Answer, p: MovePhase) -> bool {
        match (self.phase, a) {
            (MovePhase::Preflight { locks, next }, Answer::Exists(there)) => if there {
                p == MovePhase::Finished(
                    Err(ChaprError::OfficeLockPresent { path: self.args.src, lock_file: locks@[next as int] }),
                )
            } else {
                move_preflight(locks, next + 1, p)
            },
            (MovePhase::Opening, Answer::Done(r)) => match r {
                Ok(()) => p is Reading,
                Err(e) => p == MovePhase::Finished(Err(os_error(self.args.src, e))),
            },
            (MovePhase::Reading, Answer::Bytes(r)) => match r {
                Ok(bytes) => if blake3_text(bytes@) != self.args.src_base_version@ {
                    p matches MovePhase::Attributing { src_now } && src_now@ == blake3_text(bytes@)
                } else {
                    p matches MovePhase::Asking { src_now, size } && src_now@ == blake3_text(bytes@)
                        && size == bytes@.len() as u64
                },
                Err(e) => p == MovePhase::Finished(Err(os_error(self.args.src, e))),
            },
            (MovePhase::Attributing { src_now }, Answer::History { reply, now }) => {
                let (last_writer, when) = attribution(reply, now, self.principal);
                p == MovePhase::Finished(
                    Err(ChaprError::Conflict {
                        base_path: self.args.src,
                        current_version: src_now,
                        last_writer,
                        when,
                        sidecar_path: None,
                    }),
                )
            },
            (MovePhase::Asking { src_now, size }, Answer::Exists(there)) => if there {
                exists|locks: Vec<CanonicalPath>|
                    locks@.map_values(|q: CanonicalPath| q@) == grammar_of(self.kind).lock_texts(self.args.dst@)
                        && #[trigger] dst_preflight(self.args, src_now, size, locks, 0, p)
            } else {
                p == (MovePhase::Recording { src_now, size, pre_image: None })
            },
            (MovePhase::DstPreflight { src_now, size, locks, next }, Answer::Exists(there)) => if there {
                p == MovePhase::Finished(
                    Err(ChaprError::OfficeLockPresent { path: self.args.dst, lock_file: locks@[next as int] }),
                )
            } else {
                dst_preflight(self.args, src_now, size, locks, next + 1, p)
            },
            (MovePhase::DstAsserting { src_now, size, base }, Answer::Coord(r)) => match r {
                Ok(()) => p == (MovePhase::DstOpening { src_now, size, base }),
                Err(e) => p == MovePhase::Finished(Err(e)),
            },
            (MovePhase::DstOpening { src_now, size, base }, Answer::Done(r)) => match r {
                Ok(()) => p == (MovePhase::DstReading { src_now, size, base }),
                Err(e) => p == MovePhase::Finished(Err(os_error(self.args.dst, e))),
            },
            (MovePhase::DstReading { src_now, size, base }, Answer::Bytes(r)) => match r {
                Ok(bytes) => self.compared(src_now, size, base, bytes, p),
                Err(e) => p == MovePhase::Finished(Err(os_error(self.args.dst, e))),
            },
            (MovePhase::DstAttributing { dst_now }, Answer::History { reply, now }) => {
                let (last_writer, when) = attribution(reply, now, self.principal);
                p == MovePhase::Finished(
                    Err(ChaprError::Conflict {
                        base_path: self.args.dst,
                        current_version: dst_now,
                        last_writer,
                        when,
                        sidecar_path: None,
                    }),
                )
            },
            (MovePhase::DstStoring { src_now, size, dst_now, bytes }, Answer::Coord(r)) => match r {
                Ok(()) => p == (MovePhase::DstClosing {
                    src_now,
                    size,
                    found: PreImage { version: dst_now, size: bytes@.len() as u64 },
                }),
                Err(e) => p == MovePhase::Finished(Err(e)),
            },
            (MovePhase::DstClosing { src_now, size, found }, Answer::Closed) => {
                p == (MovePhase::Recording { src_now, size, pre_image: Some(found) })
            },
            (MovePhase::Recording { src_now, size, pre_image }, Answer::Coord(r)) => match r {
                Ok(()) => p == (MovePhase::Renaming { src_now, size, pre_image }),
                Err(e) => p == MovePhase::Finished(Err(e)),
            },
            (MovePhase::Renaming { src_now, size, pre_image }, Answer::Done(r)) => match r {
                Ok(()) => p == (MovePhase::Closing { src_now, size, pre_image }),
                Err(failure) => p == (MovePhase::Withdrawing { failure }),
            },
            // The rename failed: whether the note could be taken back changes nothing about that.
            (MovePhase::Withdrawing { failure }, Answer::Coord(_)) => {
                p == MovePhase::Finished(Err(os_error(self.args.dst, failure)))
            },
            (MovePhase::Closing { src_now, size, pre_image }, Answer::Closed) => {
                p == (MovePhase::Migrating { src_now, size, pre_image })
            },
            // The file is at the destination: only the coordinator's records can be behind.
            (MovePhase::Migrating { src_now, size, pre_image }, Answer::Coord(r)) => match r {
                Ok(()) => p == MovePhase::Finished(Ok(MoveReceipt { version: src_now })),
                Err(e) => p matches MovePhase::Finished(Err(ChaprError::CommittedButUnrecorded { path, version, message }))
                    && path == self.args.dst && version == src_now
                    && message@ == renamed_but(self.args.src@, self.args.dst@, e),
            },
            (phase, _) => p == phase,
        }
    }

    /// Whether `n` is this move one answer later.
    pub open spec fn next(&self, a: Answer, n: MoveCas) -> bool {
        &&& n.kind == self.kind
        &&& n.principal == self.principal
        &&& n.session_id == self.session_id
        &&& n.args == self.args
        &&& self.leads(a, n.phase)
    }

    /// What the move needs done.
    pub open spec fn wants(&self) -> Action<'_> {
        match self.phase {
            MovePhase::Preflight { locks, next } => Action::Exists(&locks@[next as int]),
            MovePhase::Opening => Action::Open(&self.args.src),
            MovePhase::Reading => Action::ReadAll(&self.args.src),
            MovePhase::Attributing { src_now } => Action::History(&self.args.src),
            MovePhase::Asking { src_now, size } => Action::Exists(&self.args.dst),
            MovePhase::DstPreflight { src_now, size, locks, next } => Action::Exists(&locks@[next as int]),
            MovePhase::DstAsserting { src_now, size, base } => Action::AssertRead {
                session_id: &self.session_id,
                path: &self.args.dst,
                version: &base,
            },
            MovePhase::DstOpening { src_now, size, base } => Action::Open(&self.args.dst),
            MovePhase::DstReading { src_now, size, base } => Action::ReadAll(&self.args.dst),
            MovePhase::DstAttributing { dst_now } => Action::History(&self.args.dst),
            MovePhase::DstStoring { src_now, size, dst_now, bytes } => Action::PutBlob(&bytes),
            MovePhase::DstClosing { src_now, size, found } => Action::Close(&self.args.dst),
            MovePhase::Recording { src_now, size, pre_image } => Action::OpenMove {
                src: &self.args.src,
                dst: &self.args.dst,
                lease_id: &self.args.lease_id,
                principal: &self.principal,
                session_id: &self.session_id,
                version: &src_now,
                size,
                overwrite: pre_image is Some,
                dst_pre_image: match pre_image {
                    Some(p) => Some(&p),
                    None => None,
                },
            },
            MovePhase::Renaming { src_now, size, pre_image } => Action::Rename {
                src: &self.args.src,
                dst: &self.args.dst,
                replace: pre_image is Some,
            },
            MovePhase::Withdrawing { failure } => Action::ClearMove(&self.args.src),
            MovePhase::Closing { src_now, size, pre_image } => Action::Close(&self.args.src),
            MovePhase::Migrating { src_now, size, pre_image } => Action::MovePaths {
                src: &self.args.src,
                dst: &self.args.dst,
                version: &src_now,
                size,
                overwrite: pre_image is Some,
                principal: &self.principal,
                session_id: &self.session_id,
                dst_pre_image: match pre_image {
                    Some(p) => Some(&p),
                    None => None,
                },
            },
            MovePhase::Finished(_) => Action::Nothing,
        }
    }

    /// A move at its beginning.
    pub fn begin(kind: BackendKind, principal: Principal, session_id: SessionId, args: MoveCasArgs) -> (r: MoveCas)
        ensures
            r.wf(),
            r.started(),
            r.kind == kind,
            r.principal == principal,
            r.session_id == session_id,
            r.args == args,
    {
        let locks = lock_paths(kind, &args.src);
        let ghost all = locks;
        let phase = if locks.len() > 0 {
            MovePhase::Preflight { locks, next: 0 }
        } else {
            MovePhase::Opening
        };
        assert(move_preflight(all, 0, phase));
        MoveCas { kind, principal, session_id, args, phase }
    }

    /// What the move needs done next.
    pub fn action(&self) -> (r: Action<'_>)
        requires
            self.wf(),
        ensures
            r == self.wants(),
    {
        match &self.phase {
            MovePhase::Preflight { locks, next } => Action::Exists(&locks[*next]),
            MovePhase::Opening => Action::Open(&self.args.src),
            MovePhase::Reading => Action::ReadAll(&self.args.src),
            MovePhase::Attributing { src_now: _ } => Action::History(&self.args.src),
            MovePhase::Asking { src_now: _, size: _ } => Action::Exists(&self.args.dst),
            MovePhase::DstPreflight { src_now: _, size: _, locks, next } => Action::Exists(&locks[*next]),
            MovePhase::DstAsserting { src_now: _, size: _, base } => Action::AssertRead {
                session_id: &self.session_id,
                path: &self.args.dst,
                version: base,
            },
            MovePhase::DstOpening { src_now: _, size: _, base: _ } => Action::Open(&self.args.dst),
            MovePhase::DstReading { src_now: _, size: _, base: _ } => Action::ReadAll(&self.args.dst),
            MovePhase::DstAttributing { dst_now: _ } => Action::History(&self.args.dst),
            MovePhase::DstStoring { src_now: _, size: _, dst_now: _, bytes } => Action::PutBlob(bytes),
            MovePhase::DstClosing { src_now: _, size: _, found: _ } => Action::Close(&self.args.dst),
            MovePhase::Recording { src_now, size, pre_image } => Action::OpenMove {
                src: &self.args.src,
                dst: &self.args.dst,
                lease_id: &self.args.lease_id,
                principal: &self.principal,
                session_id: &self.session_id,
                version: src_now,
                size: *size,
                overwrite: pre_image.is_some(),
                dst_pre_image: pre_image.as_ref(),
            },
            MovePhase::Renaming { src_now: _, size: _, pre_image } => Action::Rename {
                src: &self.args.src,
                dst: &self.args.dst,
                replace: pre_image.is_some(),
            },
            MovePhase::Withdrawing { failure: _ } => Action::ClearMove(&self.args.src),
            MovePhase::Closing { src_now: _, size: _, pre_image: _ } => Action::Close(&self.args.src),
            MovePhase::Migrating { src_now, size, pre_image } => Action::MovePaths {
                src: &self.args.src,
                dst: &self.args.dst,
                version: src_now,
                size: *size,
                overwrite: pre_image.is_some(),
                principal: &self.principal,
                session_id: &self.session_id,
                dst_pre_image: pre_image.as_ref(),
            },
            MovePhase::Finished(_) => Action::Nothing,
        }
    }

    fn check_dst(&self, src_now: VersionToken, size: u64) -> (p: MovePhase)
        ensures
            checks_dst(self.args, src_now, size, p),
    {
        match &self.args.dst_base_version {
            Some(base) => MovePhase::DstAsserting { src_now, size, base: base.clone() },
            None => MovePhase::Finished(Err(ChaprError::BaseVersionRequired { path: self.args.dst.clone() })),
        }
    }

    fn look_at_dst(&self, src_now: VersionToken, size: u64) -> (p: MovePhase)
        ensures
            exists|locks: Vec<CanonicalPath>|
                locks@.map_values(|q: CanonicalPath| q@) == grammar_of(self.kind).lock_texts(self.args.dst@)
                    && #[trigger] dst_preflight(self.args, src_now, size, locks, 0, p),
    {
        let locks = lock_paths(self.kind, &self.args.dst);
        let ghost all = locks;
        let ghost v = src_now;
        let p = if locks.len() > 0 {
            MovePhase::DstPreflight { src_now, size, locks, next: 0 }
        } else {
            self.check_dst(src_now, size)
        };
        assert(dst_preflight(self.args, v, size, all, 0, p));
        p
    }

    /// What a move does once it knows the version and the size of the source.
    pub fn compare_src(&self, src_now: VersionToken, size: u64) -> (p: MovePhase)
        ensures
            p == if src_now@ == self.args.src_base_version@ {
                MovePhase::Asking { src_now, size }
            } else {
                MovePhase::Attributing { src_now }
            },
    {
        if src_now.same(&self.args.src_base_version) {
            MovePhase::Asking { src_now, size }
        } else {
            MovePhase::Attributing { src_now }
        }
    }

    /// What a move does once it knows the contents of the destination and their
    /// version.
    pub fn compare_dst(
        &self,
        src_now: VersionToken,
        size: u64,
        base: VersionToken,
        dst_now: VersionToken,
        bytes: Vec<u8>,
    ) -> (p: MovePhase)
        ensures
            if dst_now@ != base@ {
                p == (MovePhase::DstAttributing { dst_now })
            } else if bytes@.len() > MAX_PRE_IMAGE_BYTES {
                p matches MovePhase::Finished(Err(ChaprError::Io { path, message })) && path == self.args.dst
                    && message@ == move_too_large(bytes@.len())
            } else {
                p == (MovePhase::DstStoring { src_now, size, dst_now, bytes })
            },
    {
        if !dst_now.same(&base) {
            return MovePhase::DstAttributing { dst_now };
        }
        if bytes.len() > MAX_PRE_IMAGE_BYTES {
            let mut message = own("destination is ");
            message.append(decimal(bytes.len() as u64).as_str());
            message.append(" bytes; an overwrite-move snapshots it to history first and the coordinator accepts at most ");
            message.append(decimal(MAX_PRE_IMAGE_BYTES as u64).as_str());
            return MovePhase::Finished(Err(ChaprError::Io { path: self.args.dst.clone(), message }));
        }
        MovePhase::DstStoring { src_now, size, dst_now, bytes }
    }

    fn conflict(&self, path: &CanonicalPath, current_version: VersionToken, last_writer: Principal, when: crate::proto::Timestamp) -> (p: MovePhase)
        ensures
            p == MovePhase::Finished(
                Err(ChaprError::Conflict { base_path: *path, current_version, last_writer, when, sidecar_path: None }),
            ),
    {
        MovePhase::Finished(
            Err(
                ChaprError::Conflict {
                    base_path: path.clone(),
                    current_version,
                    last_writer,
                    when,
                    sidecar_path: None,
                },
            ),
        )
    }

    fn unrecorded(&self, src_now: VersionToken, e: ChaprError) -> (p: MovePhase)
        ensures
            p matches MovePhase::Finished(Err(ChaprError::CommittedButUnrecorded { path, version, message }))
                && path == self.args.dst && version == src_now
                && message@ == renamed_but(self.args.src@, self.args.dst@, e),
    {
        let mut message = own("the file was renamed from ");
        message.append(self.args.src.as_str());
        message.append(" to ");
        message.append(self.args.dst.as_str());
        message.append(", but ");
        message.append(e.message().as_str());
        MovePhase::Finished(
            Err(ChaprError::CommittedButUnrecorded { path: self.args.dst.clone(), version: src_now, message }),
        )
    }

    /// Moves the move on by what came of its action. An answer to something
    /// that was not asked changes nothing.
    pub fn advance(self, answer: Answer) -> (n: MoveCas)
        requires
            self.wf(),
        ensures
            n.wf(),
            self.next(answer, n),
    {
        let mut op = self;
        let mut phase = MovePhase::Opening;
        std::mem::swap(&mut op.phase, &mut phase);
        let next = match (phase, answer) {
            (MovePhase::Preflight { locks, next }, Answer::Exists(there)) => {
                let count = locks.len();
                if there {
                    MovePhase::Finished(
                        Err(ChaprError::OfficeLockPresent { path: op.args.src.clone(), lock_file: locks[next].clone() }),
                    )
                } else if count - next > 1 {
                    MovePhase::Preflight { locks, next: next + 1 }
                } else {
                    MovePhase::Opening
                }
            },
            (MovePhase::Opening, Answer::Done(r)) => match r {
                Ok(()) => MovePhase::Reading,
                Err(e) => MovePhase::Finished(Err(map_os_err(&op.args.src, e))),
            },
            (MovePhase::Reading, Answer::Bytes(r)) => match r {
                Ok(bytes) => {
                    let src_now = VersionToken::hash(bytes.as_slice());
                    op.compare_src(src_now, bytes.len() as u64)
                },
                Err(e) => MovePhase::Finished(Err(map_os_err(&op.args.src, e))),
            },
            (MovePhase::Attributing { src_now }, Answer::History { reply, now }) => {
                let (last_writer, when) = last_writer_of(reply, now, &op.principal);
                op.conflict(&op.args.src, src_now, last_writer, when)
            },
            (MovePhase::Asking { src_now, size }, Answer::Exists(there)) => if there {
                op.look_at_dst(src_now, size)
            } else {
                MovePhase::Recording { src_now, size, pre_image: None }
            },
            (MovePhase::DstPreflight { src_now, size, locks, next }, Answer::Exists(there)) => {
                let count = locks.len();
                if there {
                    MovePhase::Finished(
                        Err(ChaprError::OfficeLockPresent { path: op.args.dst.clone(), lock_file: locks[next].clone() }),
                    )
                } else if count - next > 1 {
                    MovePhase::DstPreflight { src_now, size, locks, next: next + 1 }
                } else {
                    op.check_dst(src_now, size)
                }
            },
            (MovePhase::DstAsserting { src_now, size, base }, Answer::Coord(r)) => match r {
                Ok(()) => MovePhase::DstOpening { src_now, size, base },
                Err(e) => MovePhase::Finished(Err(e)),
            },
            (MovePhase::DstOpening { src_now, size, base }, Answer::Done(r)) => match r {
                Ok(()) => MovePhase::DstReading { src_now, size, base },
                Err(e) => MovePhase::Finished(Err(map_os_err(&op.args.dst, e))),
            },
            (MovePhase::DstReading { src_now, size, base }, Answer::Bytes(r)) => match r {
                Ok(bytes) => {
                    let dst_now = VersionToken::hash(bytes.as_slice());
                    op.compare_dst(src_now, size, base, dst_now, bytes)
                },
                Err(e) => MovePhase::Finished(Err(map_os_err(&op.args.dst, e))),
            },
            (MovePhase::DstAttributing { dst_now }, Answer::History { reply, now }) => {
                let (last_writer, when) = last_writer_of(reply, now, &op.principal);
                op.conflict(&op.args.dst, dst_now, last_writer, when)
            },
            (MovePhase::DstStoring { src_now, size, dst_now, bytes }, Answer::Coord(r)) => match r {
                Ok(()) => MovePhase::DstClosing {
                    src_now,
                    size,
                    found: PreImage { version: dst_now, size: bytes.len() as u64 },
                },
                Err(e) => MovePhase::Finished(Err(e)),
            },
            (MovePhase::DstClosing { src_now, size, found }, Answer::Closed) => MovePhase::Recording {
                src_now,
                size,
                pre_image: Some(found),
            },
            (MovePhase::Recording { src_now, size, pre_image }, Answer::Coord(r)) => match r {
                Ok(()) => MovePhase::Renaming { src_now, size, pre_image },
                Err(e) => MovePhase::Finished(Err(e)),
            },
            (MovePhase::Renaming { src_now, size, pre_image }, Answer::Done(r)) => match r {
                Ok(()) => MovePhase::Closing { src_now, size, pre_image },
                Err(failure) => MovePhase::Withdrawing { failure },
            },
            (MovePhase::Withdrawing { failure }, Answer::Coord(_)) => MovePhase::Finished(
                Err(map_os_err(&op.args.dst, failure)),
            ),
            (MovePhase::Closing { src_now, size, pre_image }, Answer::Closed) => MovePhase::Migrating {
                src_now,
                size,
                pre_image,
            },
            (MovePhase::Migrating { src_now, size: _, pre_image: _ }, Answer::Coord(r)) => match r {
                Ok(()) => MovePhase::Finished(Ok(MoveReceipt { version: src_now })),
                Err(e) => op.unrecorded(src_now, e),
            },
            (phase, _) => phase,
        };
        op.phase = next;
        op
    }
}

/// A move from its beginning: each state follows from the one before by an
/// answer to what that one asked.
#[verifier::opaque]
pub open spec fn is_move_run(states: Seq<MoveCas>, answers: Seq<Answer>) -> bool {
    &&& states.len() == answers.len() + 1
    &&& states[0].started()
    &&& forall|i: int| 0 <= i < answers.len() ==> (#[trigger] states[i]).expects(answers[i])
        && states[i].next(answers[i], states[i + 1])
}

proof fn move_step(states: Seq<MoveCas>, answers: Seq<Answer>, i: int)
    requires
        is_move_run(states, answers),
        0 < i < states.len(),
    ensures
        states[i - 1].expects(answers[i - 1]),
        states[i - 1].next(answers[i - 1], states[i]),
        states.len() == answers.len() + 1,
{
    reveal(is_move_run);
    assert(states[i - 1].expects(answers[i - 1]));
}

proof fn move_start(states: Seq<MoveCas>, answers: Seq<Answer>, i: int)
    requires
        is_move_run(states, answers),
        0 <= i < states.len(),
        !(states[i].phase is Preflight),
        !(states[i].phase is Opening),
    ensures
        i > 0,
{
    reveal(is_move_run);
}

/// Every state of a move is one that it can come to.
pub proof fn move_run_is_wf(states: Seq<MoveCas>, answers: Seq<Answer>, i: int)
    requires
        is_move_run(states, answers),
        0 <= i < states.len(),
    ensures
        states[i].wf(),
    decreases i,
{
    if i > 0 {
        move_run_is_wf(states, answers, i - 1);
        move_step(states, answers, i);
    } else {
        reveal(is_move_run);
    }
}

/// A run stays with the move it began as.
pub proof fn move_run_keeps_its_move(states: Seq<MoveCas>, answers: Seq<Answer>, i: int)
    requires
        is_move_run(states, answers),
        0 <= i < states.len(),
    ensures
        states[i].args == states[0].args,
        states[i].kind == states[0].kind,
        states[i].principal == states[0].principal,
        states[i].session_id == states[0].session_id,
    decreases i,
{
    if i > 0 {
        move_step(states, answers, i);
        move_run_keeps_its_move(states, answers, i - 1);
    }
}

/// Nothing is renamed unseen, unsaved or unnoted. When a move asks for the
/// rename, the source is the version that its caller read, and the intent is
/// noted; where the rename replaces something, that is the version which the
/// caller read there, and it is stored in history.
pub proof fn rename_is_guarded(states: Seq<MoveCas>, answers: Seq<Answer>, i: int)
    requires
        is_move_run(states, answers),
        0 <= i < states.len(),
        states[i].phase is Renaming,
    ensures
        i > 0,
        states[i].phase matches MovePhase::Renaming { src_now, size, pre_image } && {
            &&& src_now@ == states[i].args.src_base_version@
            &&& states[i - 1].phase is Recording
            &&& went_well(answers[i - 1])
            &&& pre_image matches Some(p) ==> {
                &&& read_at_dst(states[i].args, p.version@)
                &&& i >= 3
                &&& states[i - 3].phase matches MovePhase::DstStoring { src_now: _, size: _, dst_now, bytes }
                    && dst_now == p.version && dst_now@ == blake3_text(bytes@)
                &&& went_well(answers[i - 3])
            }
        },
{
    move_start(states, answers, i);
    move_step(states, answers, i);
    move_run_is_wf(states, answers, i);
    move_start(states, answers, i - 1);
    move_step(states, answers, i - 1);
    if states[i - 2].phase is DstClosing {
        move_start(states, answers, i - 2);
        move_step(states, answers, i - 2);
        move_run_is_wf(states, answers, i - 3);
    }
}

/// Whether a move holds the source open, having found it at the version that its
/// caller read.
pub open spec fn holds_source(p: MovePhase) -> bool {
    match p {
        MovePhase::Asking { .. } => true,
        MovePhase::DstPreflight { .. } => true,
        MovePhase::DstAsserting { .. } => true,
        MovePhase::DstOpening { .. } => true,
        MovePhase::DstReading { .. } => true,
        MovePhase::DstStoring { .. } => true,
        MovePhase::DstClosing { .. } => true,
        MovePhase::Recording { .. } => true,
        MovePhase::Renaming { .. } => true,
        _ => false,
    }
}

proof fn held_since(states: Seq<MoveCas>, answers: Seq<Answer>, i: int) -> (k: int)
    requires
        is_move_run(states, answers),
        0 <= i < states.len(),
        holds_source(states[i].phase),
    ensures
        0 <= k < i,
        states[k].phase is Reading,
        holds_source(states[k + 1].phase),
        forall|j: int| k < j <= i ==> holds_source((#[trigger] states[j]).phase),
    decreases i,
{
    move_start(states, answers, i);
    move_step(states, answers, i);
    if states[i - 1].phase is Reading {
        i - 1
    } else {
        assert(holds_source(states[i - 1].phase));
        held_since(states, answers, i - 1)
    }
}

/// What is renamed is what was checked. When a move asks for the rename, it has
/// read the source, at the version that its caller read, under the handle that
/// it renames through: from that reading on it asked for no such handle again,
/// and for none of the source to be closed.
pub proof fn source_is_held_until_the_rename(states: Seq<MoveCas>, answers: Seq<Answer>, i: int)
    requires
        is_move_run(states, answers),
        0 <= i < states.len(),
        states[i].phase is Renaming,
        states[i].args.src != states[i].args.dst,
    ensures
        exists|k: int|
            0 <= k < i && (#[trigger] states[k]).wants() == Action::ReadAll(&states[i].args.src) && (answers[k] matches Answer::Bytes(
                Ok(bytes),
            ) && blake3_text(bytes@) == states[i].args.src_base_version@) && forall|j: int|
                k < j <= i ==> (#[trigger] states[j]).wants() != Action::Open(&states[i].args.src) && states[j].wants()
                    != Action::Close(&states[i].args.src),
{
    let k = held_since(states, answers, i);
    move_run_keeps_its_move(states, answers, i);
    move_run_keeps_its_move(states, answers, k);
    move_step(states, answers, k + 1);
    assert(states[k].wants() == Action::ReadAll(&states[i].args.src));
    assert forall|j: int| k < j <= i implies (#[trigger] states[j]).wants() != Action::Open(&states[i].args.src)
        && states[j].wants() != Action::Close(&states[i].args.src) by {
        move_run_keeps_its_move(states, answers, j);
    }
}

/// A rename that replaces nothing was asked for only where nothing was found at
/// the destination.
pub proof fn plain_rename_found_nothing(states: Seq<MoveCas>, answers: Seq<Answer>, i: int)
    requires
        is_move_run(states, answers),
        0 <= i < states.len(),
        states[i].phase matches MovePhase::Renaming { pre_image: None, .. },
    ensures
        i >= 2,
        states[i - 2].phase is Asking,
        answers[i - 2] == Answer::Exists(false),
{
    move_start(states, answers, i);
    move_step(states, answers, i);
    move_start(states, answers, i - 1);
    move_step(states, answers, i - 1);
}

/// After a rename that succeeded a move can end in two ways only: done, or done
/// and not recorded, which names where the file is now.
pub proof fn renamed_is_never_denied(states: Seq<MoveCas>, answers: Seq<Answer>, i: int, k: int)
    requires
        is_move_run(states, answers),
        0 <= k < i < states.len(),
        states[k].phase is Renaming,
        went_well(answers[k]),
        states[i].phase is Finished,
    ensures
        match states[i].phase {
            MovePhase::Finished(Ok(receipt)) => receipt.version@ == states[i].args.src_base_version@,
            MovePhase::Finished(Err(e)) => e matches ChaprError::CommittedButUnrecorded { path, version, message }
                && path == states[i].args.dst && version@ == states[i].args.src_base_version@,
            _ => false,
        },
{
    move_run_is_wf(states, answers, k);
    move_step(states, answers, k + 1);
    if k + 1 < i {
        move_step(states, answers, k + 2);
        if k + 2 < i {
            move_step(states, answers, k + 3);
            if k + 3 < i {
                move_step(states, answers, k + 4);
            }
        }
    }
}

/// After a rename that failed the move fails, naming the destination, whatever
/// becomes of the note.
pub proof fn failed_rename_is_told(states: Seq<MoveCas>, answers: Seq<Answer>, k: int)
    requires
        is_move_run(states, answers),
        0 <= k,
        k + 2 < states.len(),
        states[k].phase is Renaming,
        !went_well(answers[k]),
    ensures
        states[k + 1].wants() == Action::ClearMove(&states[k].args.src),
        answers[k] matches Answer::Done(Err(e))
            && states[k + 2].phase == MovePhase::Finished(Err(os_error(states[k].args.dst, e))),
{
    move_step(states, answers, k + 1);
    move_step(states, answers, k + 2);
}

/// Whether the first `i` steps of a run looked for the lock files `locks` and
/// found none of them.
pub open spec fn move_locks_clear(states: Seq<MoveCas>, answers: Seq<Answer>, locks: Vec<CanonicalPath>, i: int) -> bool {
    &&& locks@.map_values(|p: CanonicalPath| p@) == grammar_of(states[0].kind).lock_texts(states[0].args.src@)
    &&& 0 <= i <= locks@.len()
    &&& forall|j: int| 0 <= j < i ==> (#[trigger] answers[j]) == Answer::Exists(false) && states[j].wants() == Action::Exists(&locks@[j])
}

proof fn move_preflight_so_far(states: Seq<MoveCas>, answers: Seq<Answer>, i: int) -> (locks: Vec<CanonicalPath>)
    requires
        is_move_run(states, answers),
        0 <= i < states.len(),
        states[i].phase is Preflight || states[i].phase is Opening,
    ensures
        move_locks_clear(states, answers, locks, i),
        move_preflight(locks, i, states[i].phase),
    decreases i,
{
    if i == 0 {
        reveal(is_move_run);
        let locks = choose|locks: Vec<CanonicalPath>|
            locks@.map_values(|p: CanonicalPath| p@) == grammar_of(states[0].kind).lock_texts(states[0].args.src@)
                && #[trigger] move_preflight(locks, 0, states[0].phase);
        locks
    } else {
        move_step(states, answers, i);
        assert(states[i - 1].phase is Preflight);
        let locks = move_preflight_so_far(states, answers, i - 1);
        assert(answers[i - 1] == Answer::Exists(false));
        assert(states[i - 1].wants() == Action::Exists(&locks@[i - 1]));
        locks
    }
}

/// What comes after the preflight came after a handle was asked for.
proof fn move_opened_before(states: Seq<MoveCas>, answers: Seq<Answer>, i: int) -> (k: int)
    requires
        is_move_run(states, answers),
        0 <= i < states.len(),
        !(states[i].phase is Preflight),
        !(states[i].phase is Finished),
    ensures
        0 <= k <= i,
        states[k].phase is Opening,
    decreases i,
{
    if states[i].phase is Opening {
        i
    } else {
        move_start(states, answers, i);
        move_step(states, answers, i);
        move_opened_before(states, answers, i - 1)
    }
}

/// A person always wins: whatever a move asks for after its preflight, up to
/// the change itself, it asks for only after every lock file by which a person's
/// program marks the source was looked for and found missing.
pub proof fn a_person_wins_over_a_move(states: Seq<MoveCas>, answers: Seq<Answer>, i: int)
    requires
        is_move_run(states, answers),
        0 <= i < states.len(),
        !(states[i].phase is Preflight),
        !(states[i].phase is Finished),
    ensures
        exists|locks: Vec<CanonicalPath>|
            locks@.len() <= i && #[trigger] move_locks_clear(states, answers, locks, locks@.len() as int),
{
    let k = move_opened_before(states, answers, i);
    let locks = move_preflight_so_far(states, answers, k);
    assert(k == locks@.len());
    assert(move_locks_clear(states, answers, locks, locks@.len() as int));
}

/// Whether a run that found something at the destination in step `from` looked
/// for the first `n` of the lock files `locks` of the destination in the steps
/// that follow, and found none of them.
pub open spec fn dst_locks_clear(states: Seq<MoveCas>, answers: Seq<Answer>, locks: Vec<CanonicalPath>, from: int, n: int) -> bool {
    &&& 0 <= from
    &&& 0 <= n <= locks@.len()
    &&& from + n < answers.len()
    &&& states[from].phase is Asking
    &&& answers[from] == Answer::Exists(true)
    &&& locks@.map_values(|q: CanonicalPath| q@) == grammar_of(states[from].kind).lock_texts(states[from].args.dst@)
    &&& forall|j: int|
        from < j <= from + n ==> (#[trigger] answers[j]) == Answer::Exists(false) && states[j].wants() == Action::Exists(
            &locks@[j - from - 1],
        )
}

/// Whether a move has come past the first `n` lock files of the destination and
/// asks for the next one, or has none left to ask for.
spec fn dst_reached(p: MovePhase, locks: Vec<CanonicalPath>, n: int) -> bool {
    match p {
        MovePhase::DstPreflight { src_now, size, locks: l, next } => l == locks && next == n && n < locks@.len(),
        _ => n >= locks@.len(),
    }
}

proof fn dst_preflight_begins(states: Seq<MoveCas>, answers: Seq<Answer>, i: int) -> (locks: Vec<CanonicalPath>)
    requires
        is_move_run(states, answers),
        0 < i < states.len(),
        states[i - 1].phase is Asking,
        !(states[i].phase is Recording),
    ensures
        dst_locks_clear(states, answers, locks, i - 1, 0),
        dst_reached(states[i].phase, locks, 0),
{
    move_step(states, answers, i);
    let s = states[i - 1];
    match s.phase {
        MovePhase::Asking { src_now, size } => {
            let locks = choose|locks: Vec<CanonicalPath>|
                locks@.map_values(|q: CanonicalPath| q@) == grammar_of(s.kind).lock_texts(s.args.dst@)
                    && #[trigger] dst_preflight(s.args, src_now, size, locks, 0, states[i].phase);
            assert(dst_preflight(s.args, src_now, size, locks, 0, states[i].phase));
            locks
        },
        _ => arbitrary(),
    }
}

proof fn dst_preflight_so_far(states: Seq<MoveCas>, answers: Seq<Answer>, i: int) -> (r: (Vec<CanonicalPath>, int))
    requires
        is_move_run(states, answers),
        0 <= i < states.len(),
        states[i].phase is DstPreflight || states[i].phase is DstAsserting,
    ensures
        0 <= r.1 < i,
        dst_locks_clear(states, answers, r.0, r.1, i - r.1 - 1),
        dst_reached(states[i].phase, r.0, i - r.1 - 1),
    decreases i,
{
    move_start(states, answers, i);
    move_step(states, answers, i);
    if states[i - 1].phase is Asking {
        (dst_preflight_begins(states, answers, i), i - 1)
    } else {
        assert(states[i - 1].phase is DstPreflight);
        let (locks, from) = dst_preflight_so_far(states, answers, i - 1);
        assert(answers[i - 1] == Answer::Exists(false));
        assert(states[i - 1].wants() == Action::Exists(&locks@[i - 1 - from - 1]));
        (locks, from)
    }
}

/// A person wins at the destination as well: a rename that replaces something is
/// asked for only after every lock file by which a person's program marks the
/// destination was looked for and found missing.
pub proof fn a_person_wins_at_the_destination(states: Seq<MoveCas>, answers: Seq<Answer>, i: int)
    requires
        is_move_run(states, answers),
        0 <= i < states.len(),
        states[i].phase matches MovePhase::Renaming { pre_image: Some(_), .. },
    ensures
        exists|locks: Vec<CanonicalPath>, from: int|
            from < i && #[trigger] dst_locks_clear(states, answers, locks, from, locks@.len() as int),
{
    move_start(states, answers, i);
    move_step(states, answers, i);
    move_start(states, answers, i - 1);
    move_step(states, answers, i - 1);
    move_start(states, answers, i - 2);
    move_step(states, answers, i - 2);
    move_start(states, answers, i - 3);
    move_step(states, answers, i - 3);
    move_start(states, answers, i - 4);
    move_step(states, answers, i - 4);
    move_start(states, answers, i - 5);
    move_step(states, answers, i - 5);
    assert(states[i - 6].phase is DstAsserting);
    let (locks, from) = dst_preflight_so_far(states, answers, i - 6);
    assert(dst_locks_clear(states, answers, locks, from, locks@.len() as int));
}

/// A move that was told of a conflict says who won: of the history of the end that
/// changed, newest entry first, the first entry names the writer and the time,
/// whatever entries follow; the caller and the present stand in where there is none.
pub proof fn a_move_conflict_names_the_newest_writer(states: Seq<MoveCas>, answers: Seq<Answer>, i: int)
    requires
        is_move_run(states, answers),
        0 < i < states.len(),
        answers[i - 1] is History,
    ensures
        match (states[i].phase, answers[i - 1]) {
            (
                MovePhase::Finished(Err(ChaprError::Conflict { base_path, last_writer, when, sidecar_path, .. })),
                Answer::History { reply, now },
            ) => {
                &&& states[i - 1].wants() == Action::History(&base_path)
                &&& base_path == states[0].args.src || base_path == states[0].args.dst
                &&& sidecar_path is None
                &&& reply matches Ok(entries) ==> entries@.len() > 0 ==> last_writer == entries@[0].writer && when
                    == entries@[0].timestamp
                &&& reply matches Ok(entries) ==> entries@.len() == 0 ==> last_writer == states[0].principal && when == now
                &&& reply is Err ==> last_writer == states[0].principal && when == now
            },
            _ => false,
        },
{
    move_step(states, answers, i);
    move_run_keeps_its_move(states, answers, i - 1);
}

/// Whether one of the first `i` steps of a move asked for a file of this name and
/// was told that there is none.
pub open spec fn move_found_missing(states: Seq<MoveCas>, answers: Seq<Answer>, i: int, file: Seq<char>) -> bool {
    exists|j: int|
        0 <= j < i && answers[j] == Answer::Exists(false) && ((#[trigger] states[j]).wants() matches Action::Exists(p) && p@ == file)
}

/// A move of a document on a Windows share goes beyond its first questions only if
/// neither owner file of Office is there: not `~$` and the whole name, nor `~$` and
/// the name without its first two characters.
pub proof fn a_move_looks_for_both_owner_files(states: Seq<MoveCas>, answers: Seq<Answer>, i: int, dir: Seq<char>, name: Seq<char>)
    requires
        is_move_run(states, answers),
        0 <= i < states.len(),
        states[0].kind == BackendKind::Smb,
        states[0].args.src@ == dir + name,
        forall|k: int| 0 <= k < name.len() ==> name[k] != '\\',
        dir.len() == 0 || dir.last() == '\\',
        !(states[i].phase is Preflight),
        !(states[i].wants() is Nothing),
    ensures
        move_found_missing(states, answers, i, dir + seq!['~', '$'] + name),
        name.len() > 2 ==> move_found_missing(
            states,
            answers,
            i,
            dir + seq!['~', '$'] + name.subrange(2, name.len() as int),
        ),
{
    let k = move_opened_before(states, answers, i);
    let locks = move_preflight_so_far(states, answers, k);
    assert(k == locks@.len());
    let texts = locks@.map_values(|p: CanonicalPath| p@);
    let whole = dir + seq!['~', '$'] + name;
    every_owner_file_is_known(dir, name, whole);
    let a = choose|a: int| 0 <= a < texts.len() && texts[a] == whole;
    assert(answers[a] == Answer::Exists(false));
    assert(states[a].wants() == Action::Exists(&locks@[a]));
    if name.len() > 2 {
        let short = dir + seq!['~', '$'] + name.subrange(2, name.len() as int);
        let b = choose|b: int| 0 <= b < texts.len() && texts[b] == short;
        assert(answers[b] == Answer::Exists(false));
        assert(states[b].wants() == Action::Exists(&locks@[b]));
    }
}

/// The version and size of the source that a move goes by are those of the bytes
/// that it read there.
proof fn source_was_read(states: Seq<MoveCas>, answers: Seq<Answer>, i: int, src_now: VersionToken, size: u64) -> (k: int)
    requires
        is_move_run(states, answers),
        0 <= i < states.len(),
        match states[i].phase {
            MovePhase::Asking { src_now: v, size: s } => v == src_now && s == size,
            MovePhase::DstPreflight { src_now: v, size: s, .. } => v == src_now && s == size,
            MovePhase::DstAsserting { src_now: v, size: s, .. } => v == src_now && s == size,
            MovePhase::DstOpening { src_now: v, size: s, .. } => v == src_now && s == size,
            MovePhase::DstReading { src_now: v, size: s, .. } => v == src_now && s == size,
            MovePhase::DstStoring { src_now: v, size: s, .. } => v == src_now && s == size,
            MovePhase::DstClosing { src_now: v, size: s, .. } => v == src_now && s == size,
            MovePhase::Recording { src_now: v, size: s, .. } => v == src_now && s == size,
            _ => false,
        },
    ensures
        0 <= k < i,
        states[k].wants() == Action::ReadAll(&states[0].args.src),
        answers[k] matches Answer::Bytes(Ok(bytes)) && blake3_text(bytes@) == states[0].args.src_base_version@ && src_now@
            == blake3_text(bytes@) && size == bytes@.len() as u64,
    decreases i,
{
    move_start(states, answers, i);
    move_step(states, answers, i);
    move_run_keeps_its_move(states, answers, i - 1);
    if states[i - 1].phase is Reading {
        i - 1
    } else {
        source_was_read(states, answers, i - 1, src_now, size)
    }
}

/// Whether one of the first `i` steps of a move read the source, at the version that
/// the caller read, and found it to have this size.
pub open spec fn source_read(states: Seq<MoveCas>, answers: Seq<Answer>, i: int, size: u64) -> bool {
    exists|k: int|
        0 <= k < i && (#[trigger] states[k]).wants() == Action::ReadAll(&states[0].args.src) && (answers[k] matches Answer::Bytes(
            Ok(bytes),
        ) && blake3_text(bytes@) == states[0].args.src_base_version@ && size == bytes@.len() as u64)
}

/// What a move has had done when it asks for the rename: it read the source at the
/// version that the caller read, and the intent was noted, with that version, the
/// size that was found, and what is replaced. Where the rename replaces something,
/// the session's reading of it was confirmed, and it was opened, read whole, found to
/// be the version that the caller read and small enough for history, stored there,
/// and closed. Where it replaces nothing, nothing was found there.
pub proof fn a_rename_was_prepared(states: Seq<MoveCas>, answers: Seq<Answer>, i: int)
    requires
        is_move_run(states, answers),
        0 <= i < states.len(),
        states[i].wants() is Rename,
    ensures
        i >= 2,
        states[i].wants() matches Action::Rename { src, dst, replace } && *src == states[0].args.src && *dst == states[0].args.dst
            && (states[i - 1].wants() matches Action::OpenMove {
            src: s,
            dst: d,
            lease_id,
            principal,
            session_id,
            version,
            size,
            overwrite,
            dst_pre_image,
        } && {
            &&& *s == states[0].args.src
            &&& *d == states[0].args.dst
            &&& *lease_id == states[0].args.lease_id
            &&& *principal == states[0].principal
            &&& *session_id == states[0].session_id
            &&& version@ == states[0].args.src_base_version@
            &&& source_read(states, answers, i, size)
            &&& overwrite == replace
            &&& !replace ==> dst_pre_image is None && states[i - 2].wants() == Action::Exists(&states[0].args.dst) && answers[i - 2]
                == Answer::Exists(false)
            &&& replace ==> i >= 6 && (dst_pre_image matches Some(p) && states[0].args.dst_base_version matches Some(base) && p.version@
                == base@ && {
                &&& states[i - 6].wants() == (Action::AssertRead {
                    session_id: &states[0].session_id,
                    path: &states[0].args.dst,
                    version: &base,
                })
                &&& answers[i - 6] matches Answer::Coord(Ok(_))
                &&& states[i - 5].wants() == Action::Open(&states[0].args.dst)
                &&& answers[i - 5] matches Answer::Done(Ok(_))
                &&& states[i - 4].wants() == Action::ReadAll(&states[0].args.dst)
                &&& answers[i - 4] matches Answer::Bytes(Ok(bytes)) && blake3_text(bytes@) == base@ && bytes@.len() <= 268435456 && p.size
                    == bytes@.len() as u64 && states[i - 3].wants() == Action::PutBlob(&bytes)
                &&& answers[i - 3] matches Answer::Coord(Ok(_))
                &&& states[i - 2].wants() == Action::Close(&states[0].args.dst)
            })
        }),
        answers[i - 1] matches Answer::Coord(Ok(_)),
{
    move_start(states, answers, i);
    move_step(states, answers, i);
    move_run_is_wf(states, answers, i);
    move_run_keeps_its_move(states, answers, i);
    move_run_keeps_its_move(states, answers, i - 1);
    match states[i - 1].phase {
        MovePhase::Recording { src_now, size, pre_image } => {
            let k = source_was_read(states, answers, i - 1, src_now, size);
            assert(source_read(states, answers, i, size)) by {
                assert(states[k].wants() == Action::ReadAll(&states[0].args.src));
            }
        },
        _ => {},
    }
    move_start(states, answers, i - 1);
    move_step(states, answers, i - 1);
    move_run_keeps_its_move(states, answers, i - 2);
    if states[i - 2].phase is DstClosing {
        move_start(states, answers, i - 2);
        move_step(states, answers, i - 2);
        move_run_is_wf(states, answers, i - 3);
        move_run_keeps_its_move(states, answers, i - 3);
        move_start(states, answers, i - 3);
        move_step(states, answers, i - 3);
        move_run_is_wf(states, answers, i - 4);
        move_run_keeps_its_move(states, answers, i - 4);
        move_start(states, answers, i - 4);
        move_step(states, answers, i - 4);
        move_run_is_wf(states, answers, i - 5);
        move_run_keeps_its_move(states, answers, i - 5);
        move_start(states, answers, i - 5);
        move_step(states, answers, i - 5);
        move_run_is_wf(states, answers, i - 6);
        move_run_keeps_its_move(states, answers, i - 6);
    }
}

/// A move that says it succeeded renamed the file, let go of it, and had the records
/// carried over under the version, the size and the replaced contents that it had
/// noted before the rename; its receipt names that version.
pub proof fn a_move_receipt_tells_what_was_done(states: Seq<MoveCas>, answers: Seq<Answer>, i: int)
    requires
        is_move_run(states, answers),
        0 <= i < states.len(),
        states[i].phase matches MovePhase::Finished(Ok(_)),
    ensures
        i >= 4,
        states[i - 3].wants() is Rename,
        answers[i - 3] matches Answer::Done(Ok(_)),
        states[i - 2].wants() == Action::Close(&states[0].args.src),
        states[i - 1].wants() matches Action::MovePaths {
            src,
            dst,
            version,
            size,
            overwrite,
            principal,
            session_id,
            dst_pre_image,
        } && *src == states[0].args.src && *dst == states[0].args.dst && *principal == states[0].principal && *session_id
            == states[0].session_id && (states[i - 4].wants() matches Action::OpenMove {
            version: v,
            size: s,
            overwrite: o,
            dst_pre_image: d,
            ..
        } && *v == *version && s == size && o == overwrite && d == dst_pre_image) && (states[i].phase matches MovePhase::Finished(
            Ok(receipt),
        ) && receipt.version == *version && receipt.version@ == states[0].args.src_base_version@),
        answers[i - 1] matches Answer::Coord(Ok(_)),
{
    move_start(states, answers, i);
    move_step(states, answers, i);
    move_run_keeps_its_move(states, answers, i);
    move_run_keeps_its_move(states, answers, i - 1);
    move_run_is_wf(states, answers, i - 1);
    move_start(states, answers, i - 1);
    move_step(states, answers, i - 1);
    move_run_keeps_its_move(states, answers, i - 2);
    move_start(states, answers, i - 2);
    move_step(states, answers, i - 2);
    move_run_keeps_its_move(states, answers, i - 3);
    move_start(states, answers, i - 3);
    move_step(states, answers, i - 3);
    move_run_keeps_its_move(states, answers, i - 4);
}

/// A move goes by the versions it finds. A source at the version that the caller read
/// goes on to the destination, and a changed one is asked about; the same holds of a
/// destination, whose contents are stored where history can take them.
pub proof fn a_move_goes_by_the_versions(s: MoveCas, bytes: Vec<u8>, n: MoveCas)
    requires
        s.wf(),
        s.wants() is ReadAll,
        s.next(Answer::Bytes(Ok(bytes)), n),
    ensures
        s.phase is Reading && blake3_text(bytes@) == s.args.src_base_version@ ==> n.wants() == Action::Exists(&s.args.dst),
        s.phase is Reading && blake3_text(bytes@) != s.args.src_base_version@ ==> n.wants() == Action::History(&s.args.src),
        s.phase is DstReading && s.args.dst_base_version is Some && blake3_text(bytes@) == (s.args.dst_base_version->0)@ && bytes@.len()
            <= 268435456 ==> n.wants() == Action::PutBlob(&bytes),
        s.phase is DstReading && s.args.dst_base_version is Some && blake3_text(bytes@) != (s.args.dst_base_version->0)@ ==> n.wants()
            == Action::History(&s.args.dst),
        s.phase is Reading || s.phase is DstReading,
{
}

/// A move that fails does so for a reason: a person has one of the documents open,
/// something is at the destination of which the caller names no version, the file
/// system or the coordinator refused something, one of the ends changed, or what
/// would be replaced is too large for history.
pub proof fn a_move_fails_for_a_reason(states: Seq<MoveCas>, answers: Seq<Answer>, i: int, e: ChaprError)
    requires
        is_move_run(states, answers),
        0 < i < states.len(),
        states[i].phase == MovePhase::Finished(Err(e)),
    ensures
        match answers[i - 1] {
            Answer::Exists(there) => {
                ||| there && (e matches ChaprError::OfficeLockPresent { path, lock_file } && (path == states[0].args.src || path
                    == states[0].args.dst) && states[i - 1].wants() == Action::Exists(&lock_file))
                ||| e == (ChaprError::BaseVersionRequired { path: states[0].args.dst }) && states[0].args.dst_base_version is None
            },
            Answer::Done(r) => r matches Err(io) && (states[i - 1].wants() matches Action::Open(p) && e == os_error(*p, io)),
            Answer::Bytes(Err(io)) => states[i - 1].wants() matches Action::ReadAll(p) && e == os_error(*p, io),
            Answer::Bytes(r) => r matches Ok(bytes) ==> bytes@.len() > 268435456 && states[i - 1].wants() == Action::ReadAll(
                &states[0].args.dst,
            ),
            Answer::Coord(r) => {
                ||| r == Err::<(), ChaprError>(e)
                ||| states[i - 1].wants() == Action::ClearMove(&states[0].args.src)
                ||| states[i - 1].wants() is MovePaths && r is Err && (e matches ChaprError::CommittedButUnrecorded { path, version, .. }
                    && path == states[0].args.dst && version@ == states[0].args.src_base_version@)
            },
            Answer::History { .. } => e is Conflict,
            _ => false,
        },
{
    move_step(states, answers, i);
    move_run_keeps_its_move(states, answers, i - 1);
    move_run_is_wf(states, answers, i - 1);
}

/// A rename over something on a Windows share is asked for only if neither owner file
/// of Office is there for what it replaces.
pub proof fn a_move_looks_for_owner_files_at_the_destination(states: Seq<MoveCas>, answers: Seq<Answer>, i: int, dir: Seq<char>, name: Seq<char>)
    requires
        is_move_run(states, answers),
        0 <= i < states.len(),
        states[0].kind == BackendKind::Smb,
        states[0].args.dst@ == dir + name,
        forall|k: int| 0 <= k < name.len() ==> name[k] != '\\',
        dir.len() == 0 || dir.last() == '\\',
        states[i].wants() matches Action::Rename { replace: true, .. },
    ensures
        move_found_missing(states, answers, i, dir + seq!['~', '$'] + name),
        name.len() > 2 ==> move_found_missing(
            states,
            answers,
            i,
            dir + seq!['~', '$'] + name.subrange(2, name.len() as int),
        ),
{
    a_person_wins_at_the_destination(states, answers, i);
    let (locks, from) = choose|locks: Vec<CanonicalPath>, from: int|
        from < i && #[trigger] dst_locks_clear(states, answers, locks, from, locks@.len() as int);
    dst_locks_come_before(states, answers, locks, from, i);
    move_run_keeps_its_move(states, answers, from);
    let texts = locks@.map_values(|p: CanonicalPath| p@);
    let whole = dir + seq!['~', '$'] + name;
    every_owner_file_is_known(dir, name, whole);
    let a = choose|a: int| 0 <= a < texts.len() && texts[a] == whole;
    assert(answers[from + a + 1] == Answer::Exists(false));
    assert(states[from + a + 1].wants() == Action::Exists(&locks@[a]));
    if name.len() > 2 {
        let short = dir + seq!['~', '$'] + name.subrange(2, name.len() as int);
        let b = choose|b: int| 0 <= b < texts.len() && texts[b] == short;
        assert(answers[from + b + 1] == Answer::Exists(false));
        assert(states[from + b + 1].wants() == Action::Exists(&locks@[b]));
    }
}

/// The questions about the destination's lock files come before the rename.
proof fn dst_locks_come_before(states: Seq<MoveCas>, answers: Seq<Answer>, locks: Vec<CanonicalPath>, from: int, i: int)
    requires
        is_move_run(states, answers),
        0 <= from < i < states.len(),
        states[i].phase is Renaming,
        dst_locks_clear(states, answers, locks, from, locks@.len() as int),
    ensures
        from + locks@.len() < i,
{
    if i <= from + locks@.len() {
        assert(answers[i] == Answer::Exists(false));
        assert(states[i].wants() == Action::Exists(&locks@[i - from - 1]));
    }
}

/// An answer to something that was not asked changes nothing.
pub proof fn a_move_heeds_no_other_answer(s: MoveCas, a: Answer, n: MoveCas)
    requires
        s.next(a, n),
        match s.wants() {
            Action::Exists(_) => !(a is Exists),
            Action::Open(_) | Action::Rename { .. } => !(a is Done),
            Action::ReadAll(_) => !(a is Bytes),
            Action::History(_) => !(a is History),
            Action::PutBlob(_) | Action::OpenMove { .. } | Action::ClearMove(_) | Action::MovePaths { .. } | Action::AssertRead { .. } => !(a is Coord),
            Action::Close(_) => !(a is Closed),
            _ => true,
        },
    ensures
        n.phase == s.phase,
{
}

/// Where the records could not be carried over, the reason is told.
pub proof fn an_unrecorded_move_tells_why(src: Seq<char>, dst: Seq<char>, e: ChaprError)
    ensures
        mentions(renamed_but(src, dst, e), e.text()),
        mentions(renamed_but(src, dst, e), src),
        mentions(renamed_but(src, dst, e), dst),
{
    let t = renamed_but(src, dst, e);
    let a = "the file was renamed from "@;
    assert(t =~= a + src + (" to "@ + dst + ", but "@ + e.text()));
    assert(t =~= (a + src + " to "@) + dst + (", but "@ + e.text()));
    assert(t =~= (a + src + " to "@ + dst + ", but "@) + e.text() + Seq::<char>::empty());
}

/// The version that a conflict names is that of what is there: of the bytes that were read
/// at the end it is about.
pub proof fn a_move_conflict_names_what_is_there(states: Seq<MoveCas>, answers: Seq<Answer>, i: int)
    requires
        is_move_run(states, answers),
        0 < i < states.len(),
        answers[i - 1] is History,
    ensures
        i >= 2,
        states[i].phase matches MovePhase::Finished(Err(ChaprError::Conflict { base_path, current_version, .. })) && states[i
            - 2].wants() == Action::ReadAll(&base_path) && (answers[i - 2] matches Answer::Bytes(Ok(bytes)) && current_version@
            == blake3_text(bytes@)),
{
    move_step(states, answers, i);
    move_start(states, answers, i - 1);
    move_step(states, answers, i - 1);
}

} // verus!
