//! The contended write: new contents over a file that must still be the version
//! its writer read.
//!
//! One exclusive handle is held from the version check to the overwrite. What
//! is replaced is stored in history first and the intent noted, so that at no
//! point are the only copies of anyone's bytes half written.
use vstd::prelude::*;

use crate::backend::{
    attribution, is_base64_transcript_of, is_transcript, last_writer_of, lock_paths, map_os_err, os_error, Action,
    went_well, Answer, CommitReceipt, WriteCasArgs, MAX_PRE_IMAGE_BYTES,
};
use crate::pathgrammar::{
    every_owner_file_is_known, grammar_for, grammar_of, is_short_id, is_stamp, sidecar_path, sidecar_text, PathGrammar,
};
use crate::proto::{blake3_text, BackendKind, CanonicalPath, ChaprError, Principal, SessionId, VersionToken, WriteMode};
use crate::text::{decimal, decimal_text, own};

verus! {

/// Where a write stands: what it has asked for and not yet been told.
pub enum WritePhase {
    /// Whether the lock file number `next` exists.
    Preflight { locks: Vec<CanonicalPath>, next: usize },
    /// The exclusive handle.
    Opening,
    /// The current contents.
    Reading,
    /// The submitted contents put aside, the file having changed.
    Parking { v_now: VersionToken, sidecar: CanonicalPath },
    /// The conflict registered.
    Registering { v_now: VersionToken, sidecar: CanonicalPath },
    /// Who changed the file.
    Attributing { v_now: VersionToken, sidecar: CanonicalPath },
    /// The current contents stored.
    Storing { v_now: VersionToken, v_new: VersionToken, current: Vec<u8> },
    /// The intent noted.
    Journaling { v_now: VersionToken, v_new: VersionToken, from_size: u64 },
    /// The new contents written.
    Overwriting { v_now: VersionToken, v_new: VersionToken, from_size: u64 },
    /// The handle closed.
    Closing { v_now: VersionToken, v_new: VersionToken, from_size: u64 },
    /// The note forgotten.
    Clearing { v_now: VersionToken, v_new: VersionToken, from_size: u64 },
    /// Nothing more.
    Finished(Result<CommitReceipt, ChaprError>),
}

/// A write on its way.
pub struct WriteCas {
    /// The kind of fileserver.
    pub kind: BackendKind,
    /// Whether its writes cannot tear.
    pub atomic_writes: bool,
    /// Who writes.
    pub principal: Principal,
    /// In which session.
    pub session_id: SessionId,
    /// What is to be written.
    pub args: WriteCasArgs,
    /// Where the write stands.
    pub phase: WritePhase,
}

/// What is to become of a write that knows the current contents.
#[derive(Clone, Copy, Debug, PartialEq, Eq, Structural)]
pub enum Verdict {
    /// Refused: history cannot take what it would replace.
    TooLarge,
    /// Refused: it would replace a file by its own base64 text.
    Transcript,
    /// The file changed: what was submitted is put aside.
    Conflict,
    /// The contents are swapped.
    Swap,
}

pub open spec fn write_too_large(len: nat) -> Seq<char> {
    "file is "@ + decimal_text(len)
        + " bytes; Chaperone snapshots the previous contents to history on every write and the coordinator accepts at most "@
        + decimal_text(MAX_PRE_IMAGE_BYTES as nat) + " bytes"@
}

/// The refusal of a write that would replace a file by its own base64 text.
pub const TRANSCRIPT_REFUSAL: &'static str = "this write is the base64 TEXT of the file's current binary contents. The read returned encoding=base64; write it back with encoding \"base64\" so the bytes are decoded, or the file would be replaced by its own base64 transcript";

/// Whether `p` asks for lock file number `next` of `locks`, or for the handle
/// where there is none left.
pub open spec fn preflight(locks: Vec<CanonicalPath>, next: int, p: WritePhase) -> bool {
    if next < locks@.len() {
        p matches WritePhase::Preflight { locks: l, next: n } && l == locks && n == next
    } else {
        p is Opening
    }
}

impl WriteCas {
    /// Whether the write is forced past the version check.
    pub open spec fn forced(&self) -> bool {
        self.args.mode is Force
    }

    /// Whether the write is in a state that it can come to.
    pub open spec fn wf(&self) -> bool {
        match self.phase {
            WritePhase::Preflight { locks, next } => next < locks@.len(),
            _ => true,
        }
    }

    /// A write at its beginning: the lock files of the path are looked for.
    pub open spec fn started(&self) -> bool {
        exists|locks: Vec<CanonicalPath>|
            locks@.map_values(|p: CanonicalPath| p@) == grammar_of(self.kind).lock_texts(self.args.path@)
                && #[trigger] preflight(locks, 0, self.phase)
    }

    /// What is to become of the write, the current contents having `len` bytes
    /// and being the version `v_now`, and the submitted ones being the base64
    /// text of them or not.
    pub open spec fn verdict(&self, len: nat, v_now: Seq<char>, transcript: bool) -> Verdict {
        if len > MAX_PRE_IMAGE_BYTES {
            Verdict::TooLarge
        } else if transcript {
            Verdict::Transcript
        } else if !self.forced() && v_now != self.args.base_version@ {
            Verdict::Conflict
        } else {
            Verdict::Swap
        }
    }

    /// What a write does once it knows the current contents.
    pub open spec fn decided(&self, current: Vec<u8>, p: WritePhase) -> bool {
        let v_now = blake3_text(current@);
        match self.verdict(current@.len(), v_now, is_transcript(self.args.content@, current@)) {
            Verdict::TooLarge => p matches WritePhase::Finished(Err(ChaprError::Io { path, message }))
                && path == self.args.path && message@ == write_too_large(current@.len()),
            Verdict::Transcript => p matches WritePhase::Finished(Err(ChaprError::Io { path, message }))
                && path == self.args.path && message@ == TRANSCRIPT_REFUSAL@,
            Verdict::Conflict => p matches WritePhase::Parking { v_now: v, sidecar } && v@ == v_now
                && exists|stamp: Seq<char>, id: Seq<char>|
                    is_stamp(stamp) && is_short_id(id) && sidecar@ == #[trigger] sidecar_text(
                        &grammar_of(self.kind), self.args.path@, self.principal@, stamp, id),
            Verdict::Swap => p matches WritePhase::Storing { v_now: v, v_new, current: c } && v@ == v_now
                && v_new@ == blake3_text(self.args.content@) && c == current,
        }
    }

    /// The receipt of a write that went through.
    pub open spec fn receipt(&self, v_now: VersionToken, v_new: VersionToken, from_size: u64) -> CommitReceipt {
        CommitReceipt {
            from_version: Some(v_now),
            to_version: Some(v_new),
            size: self.args.content@.len() as u64,
            from_size: Some(from_size),
        }
    }

    /// Whether an answer is one to what the write asked for.
    pub open spec fn expects(&self, a: Answer) -> bool {
        match self.phase {
            WritePhase::Preflight { .. } => a is Exists,
            WritePhase::Opening => a is Done,
            WritePhase::Reading => a is Bytes,
            WritePhase::Parking { .. } => a is Done,
            WritePhase::Registering { .. } => a is Coord,
            WritePhase::Attributing { .. } => a is History,
            WritePhase::Storing { .. } => a is Coord,
            WritePhase::Journaling { .. } => a is Coord,
            WritePhase::Overwriting { .. } => a is Done,
            WritePhase::Closing { .. } => a is Closed,
            WritePhase::Clearing { .. } => a is Coord,
            WritePhase::Finished(_) => false,
        }
    }

    /// Where an answer takes the write.
    pub open spec fn leads(&self, a: Answer, p: WritePhase) -> bool {
        match (self.phase, a) {
            (WritePhase::Preflight { locks, next }, Answer::Exists(there)) => if there {
                p == WritePhase::Finished(
                    Err(ChaprError::OfficeLockPresent { path: self.args.path, lock_file: locks@[next as int] }),
                )
            } else {
                preflight(locks, next + 1, p)
            },
            (WritePhase::Opening, Answer::Done(r)) => match r {
                Ok(()) => p is Reading,
                Err(e) => p == WritePhase::Finished(Err(os_error(self.args.path, e))),
            },
            (WritePhase::Reading, Answer::Bytes(r)) => match r {
                Ok(current) => self.decided(current, p),
                Err(e) => p == WritePhase::Finished(Err(os_error(self.args.path, e))),
            },
            (WritePhase::Parking { v_now, sidecar }, Answer::Done(r)) => match r {
                Ok(()) => p == (WritePhase::Registering { v_now, sidecar }),
                Err(e) => p == WritePhase::Finished(Err(os_error(sidecar, e))),
            },
            (WritePhase::Registering { v_now, sidecar }, Answer::Coord(r)) => match r {
                Ok(()) => p == (WritePhase::Attributing { v_now, sidecar }),
                Err(e) => p == WritePhase::Finished(Err(e)),
            },
            (WritePhase::Attributing { v_now, sidecar }, Answer::History { reply, now }) => {
                let (last_writer, when) = attribution(reply, now, self.principal);
                p == WritePhase::Finished(
                    Err(ChaprError::Conflict {
                        base_path: self.args.path,
                        current_version: v_now,
                        last_writer,
                        when,
                        sidecar_path: Some(sidecar),
                    }),
                )
            },
            (WritePhase::Storing { v_now, v_new, current }, Answer::Coord(r)) => match r {
                Ok(()) => if self.atomic_writes {
                    p == (WritePhase::Overwriting { v_now, v_new, from_size: current@.len() as u64 })
                } else {
                    p == (WritePhase::Journaling { v_now, v_new, from_size: current@.len() as u64 })
                },
                Err(e) => p == WritePhase::Finished(Err(e)),
            },
            (WritePhase::Journaling { v_now, v_new, from_size }, Answer::Coord(r)) => match r {
                Ok(()) => p == (WritePhase::Overwriting { v_now, v_new, from_size }),
                Err(e) => p == WritePhase::Finished(Err(e)),
            },
            (WritePhase::Overwriting { v_now, v_new, from_size }, Answer::Done(r)) => match r {
                Ok(()) => p == (WritePhase::Closing { v_now, v_new, from_size }),
                Err(e) => p == WritePhase::Finished(Err(os_error(self.args.path, e))),
            },
            (WritePhase::Closing { v_now, v_new, from_size }, Answer::Closed) => if self.atomic_writes {
                p == WritePhase::Finished(Ok(self.receipt(v_now, v_new, from_size)))
            } else {
                p == (WritePhase::Clearing { v_now, v_new, from_size })
            },
            // The contents are on the share: a note left behind is not a failure.
            (WritePhase::Clearing { v_now, v_new, from_size }, Answer::Coord(_)) => {
                p == WritePhase::Finished(Ok(self.receipt(v_now, v_new, from_size)))
            },
            (phase, _) => p == phase,
        }
    }

    /// Whether `n` is this write one answer later.
    pub open spec fn next(&self, a: Answer, n: WriteCas) -> bool {
        &&& n.kind == self.kind
        &&& n.atomic_writes == self.atomic_writes
        &&& n.principal == self.principal
        &&& n.session_id == self.session_id
        &&& n.args == self.args
        &&& self.leads(a, n.phase)
    }

    /// What the write needs done.
    pub open spec fn wants(&self) -> Action<'_> {
        match self.phase {
            WritePhase::Preflight { locks, next } => Action::Exists(&locks@[next as int]),
            WritePhase::Opening => Action::Open(&self.args.path),
            WritePhase::Reading => Action::ReadAll(&self.args.path),
            WritePhase::Parking { v_now, sidecar } => Action::CreateNew(&sidecar, &self.args.content),
            WritePhase::Registering { v_now, sidecar } => Action::RegisterConflict {
                base_path: &self.args.path,
                sidecar_path: &sidecar,
                losing_principal: &self.principal,
                session_id: &self.session_id,
            },
            WritePhase::Attributing { v_now, sidecar } => Action::History(&self.args.path),
            WritePhase::Storing { v_now, v_new, current } => Action::PutBlob(&current),
            WritePhase::Journaling { v_now, v_new, from_size } => Action::OpenJournal {
                path: &self.args.path,
                lease_id: &self.args.lease_id,
                principal: &self.principal,
                pre_image_version: &v_now,
                intended_version: Some(&v_new),
            },
            WritePhase::Overwriting { v_now, v_new, from_size } => Action::Overwrite(
                &self.args.path,
                &self.args.content,
            ),
            WritePhase::Closing { v_now, v_new, from_size } => Action::Close(&self.args.path),
            WritePhase::Clearing { v_now, v_new, from_size } => Action::ClearJournal(&self.args.path),
            WritePhase::Finished(_) => Action::Nothing,
        }
    }

    /// A write at its beginning.
    pub fn begin(
        kind: BackendKind,
        atomic_writes: bool,
        principal: Principal,
        session_id: SessionId,
        args: WriteCasArgs,
    ) -> (r: WriteCas)
        ensures
            r.wf(),
            r.started(),
            r.kind == kind,
            r.atomic_writes == atomic_writes,
            r.principal == principal,
            r.session_id == session_id,
            r.args == args,
    {
        let locks = lock_paths(kind, &args.path);
        let ghost all = locks;
        let phase = if locks.len() > 0 {
            WritePhase::Preflight { locks, next: 0 }
        } else {
            WritePhase::Opening
        };
        assert(preflight(all, 0, phase));
        WriteCas { kind, atomic_writes, principal, session_id, args, phase }
    }

    /// What the write needs done next.
    pub fn action(&self) -> (r: Action<'_>)
        requires
            self.wf(),
        ensures
            r == self.wants(),
    {
        match &self.phase {
            WritePhase::Preflight { locks, next } => Action::Exists(&locks[*next]),
            WritePhase::Opening => Action::Open(&self.args.path),
            WritePhase::Reading => Action::ReadAll(&self.args.path),
            WritePhase::Parking { v_now: _, sidecar } => Action::CreateNew(sidecar, &self.args.content),
            WritePhase::Registering { v_now: _, sidecar } => Action::RegisterConflict {
                base_path: &self.args.path,
                sidecar_path: sidecar,
                losing_principal: &self.principal,
                session_id: &self.session_id,
            },
            WritePhase::Attributing { v_now: _, sidecar: _ } => Action::History(&self.args.path),
            WritePhase::Storing { v_now: _, v_new: _, current } => Action::PutBlob(current),
            WritePhase::Journaling { v_now, v_new, from_size: _ } => Action::OpenJournal {
                path: &self.args.path,
                lease_id: &self.args.lease_id,
                principal: &self.principal,
                pre_image_version: v_now,
                intended_version: Some(v_new),
            },
            WritePhase::Overwriting { v_now: _, v_new: _, from_size: _ } => Action::Overwrite(
                &self.args.path,
                &self.args.content,
            ),
            WritePhase::Closing { v_now: _, v_new: _, from_size: _ } => Action::Close(&self.args.path),
            WritePhase::Clearing { v_now: _, v_new: _, from_size: _ } => Action::ClearJournal(&self.args.path),
            WritePhase::Finished(_) => Action::Nothing,
        }
    }

    /// What is to become of the write, the current contents having `len` bytes
    /// and being the version `v_now`, and the submitted ones being the base64
    /// text of them or not.
    pub fn judge(&self, len: usize, v_now: &VersionToken, transcript: bool) -> (r: Verdict)
        ensures
            r == self.verdict(len as nat, v_now@, transcript),
    {
        let force = matches!(self.args.mode, WriteMode::Force { .. });
        if len > MAX_PRE_IMAGE_BYTES {
            Verdict::TooLarge
        } else if transcript {
            Verdict::Transcript
        } else if !force && !v_now.same(&self.args.base_version) {
            Verdict::Conflict
        } else {
            Verdict::Swap
        }
    }

    fn decide(&self, current: Vec<u8>) -> (p: WritePhase)
        ensures
            self.decided(current, p),
    {
        let v_now = VersionToken::hash(current.as_slice());
        let transcript = is_base64_transcript_of(self.args.content.as_slice(), current.as_slice());
        match self.judge(current.len(), &v_now, transcript) {
            Verdict::TooLarge => {
                let mut message = own("file is ");
                message.append(decimal(current.len() as u64).as_str());
                message.append(" bytes; Chaperone snapshots the previous contents to history on every write and the coordinator accepts at most ");
                message.append(decimal(MAX_PRE_IMAGE_BYTES as u64).as_str());
                message.append(" bytes");
                WritePhase::Finished(Err(ChaprError::Io { path: self.args.path.clone(), message }))
            },
            Verdict::Transcript => WritePhase::Finished(
                Err(ChaprError::Io { path: self.args.path.clone(), message: own(TRANSCRIPT_REFUSAL) }),
            ),
            Verdict::Conflict => {
                let sidecar = sidecar_path(&grammar_for(self.kind), &self.args.path, &self.principal);
                WritePhase::Parking { v_now, sidecar }
            },
            Verdict::Swap => {
                let v_new = VersionToken::hash(self.args.content.as_slice());
                WritePhase::Storing { v_now, v_new, current }
            },
        }
    }

    fn committed(&self, v_now: VersionToken, v_new: VersionToken, from_size: u64) -> (r: WritePhase)
        ensures
            r == WritePhase::Finished(Ok(self.receipt(v_now, v_new, from_size))),
    {
        WritePhase::Finished(
            Ok(
                CommitReceipt {
                    from_version: Some(v_now),
                    to_version: Some(v_new),
                    size: self.args.content.len() as u64,
                    from_size: Some(from_size),
                },
            ),
        )
    }

    /// Moves the write on by what came of its action. An answer to something
    /// that was not asked changes nothing.
    pub fn advance(self, answer: Answer) -> (n: WriteCas)
        requires
            self.wf(),
        ensures
            n.wf(),
            self.next(answer, n),
    {
        let mut op = self;
        let mut phase = WritePhase::Opening;
        std::mem::swap(&mut op.phase, &mut phase);
        let next = match (phase, answer) {
            (WritePhase::Preflight { locks, next }, Answer::Exists(there)) => {
                let count = locks.len();
                if there {
                    WritePhase::Finished(
                        Err(ChaprError::OfficeLockPresent { path: op.args.path.clone(), lock_file: locks[next].clone() }),
                    )
                } else if count - next > 1 {
                    WritePhase::Preflight { locks, next: next + 1 }
                } else {
                    WritePhase::Opening
                }
            },
            (WritePhase::Opening, Answer::Done(r)) => match r {
                Ok(()) => WritePhase::Reading,
                Err(e) => WritePhase::Finished(Err(map_os_err(&op.args.path, e))),
            },
            (WritePhase::Reading, Answer::Bytes(r)) => match r {
                Ok(current) => op.decide(current),
                Err(e) => WritePhase::Finished(Err(map_os_err(&op.args.path, e))),
            },
            (WritePhase::Parking { v_now, sidecar }, Answer::Done(r)) => match r {
                Ok(()) => WritePhase::Registering { v_now, sidecar },
                Err(e) => WritePhase::Finished(Err(map_os_err(&sidecar, e))),
            },
            (WritePhase::Registering { v_now, sidecar }, Answer::Coord(r)) => match r {
                Ok(()) => WritePhase::Attributing { v_now, sidecar },
                Err(e) => WritePhase::Finished(Err(e)),
            },
            (WritePhase::Attributing { v_now, sidecar }, Answer::History { reply, now }) => {
                let (last_writer, when) = last_writer_of(reply, now, &op.principal);
                WritePhase::Finished(
                    Err(ChaprError::Conflict {
                        base_path: op.args.path.clone(),
                        current_version: v_now,
                        last_writer,
                        when,
                        sidecar_path: Some(sidecar),
                    }),
                )
            },
            (WritePhase::Storing { v_now, v_new, current }, Answer::Coord(r)) => match r {
                Ok(()) => {
                    let from_size = current.len() as u64;
                    if op.atomic_writes {
                        WritePhase::Overwriting { v_now, v_new, from_size }
                    } else {
                        WritePhase::Journaling { v_now, v_new, from_size }
                    }
                },
                Err(e) => WritePhase::Finished(Err(e)),
            },
            (WritePhase::Journaling { v_now, v_new, from_size }, Answer::Coord(r)) => match r {
                Ok(()) => WritePhase::Overwriting { v_now, v_new, from_size },
                Err(e) => WritePhase::Finished(Err(e)),
            },
            (WritePhase::Overwriting { v_now, v_new, from_size }, Answer::Done(r)) => match r {
                Ok(()) => WritePhase::Closing { v_now, v_new, from_size },
                Err(e) => WritePhase::Finished(Err(map_os_err(&op.args.path, e))),
            },
            (WritePhase::Closing { v_now, v_new, from_size }, Answer::Closed) => if op.atomic_writes {
                op.committed(v_now, v_new, from_size)
            } else {
                WritePhase::Clearing { v_now, v_new, from_size }
            },
            (WritePhase::Clearing { v_now, v_new, from_size }, Answer::Coord(_)) => {
                op.committed(v_now, v_new, from_size)
            },
            (phase, _) => phase,
        };
        op.phase = next;
        op
    }
}

/// A write from its beginning: each state follows from the one before by an
/// answer to what that one asked.
#[verifier::opaque]
pub open spec fn is_write_run(states: Seq<WriteCas>, answers: Seq<Answer>) -> bool {
    &&& states.len() == answers.len() + 1
    &&& states[0].started()
    &&& forall|i: int| 0 <= i < answers.len() ==> (#[trigger] states[i]).expects(answers[i])
        && states[i].next(answers[i], states[i + 1])
}

/// Whether step `k` of a run stored the contents `current` in history.
pub open spec fn stored_at(states: Seq<WriteCas>, answers: Seq<Answer>, k: int, current: Vec<u8>, v_now: VersionToken) -> bool {
    &&& 0 <= k < answers.len()
    &&& states[k].phase matches WritePhase::Storing { v_now: v, v_new, current: c } && c == current && v == v_now
    &&& went_well(answers[k])
}

proof fn step_of(states: Seq<WriteCas>, answers: Seq<Answer>, i: int)
    requires
        is_write_run(states, answers),
        0 < i < states.len(),
    ensures
        states[i - 1].expects(answers[i - 1]),
        states[i - 1].next(answers[i - 1], states[i]),
        states.len() == answers.len() + 1,
{
    reveal(is_write_run);
    assert(states[i - 1].expects(answers[i - 1]));
}

/// What a write has done it did after it began.
proof fn start_of(states: Seq<WriteCas>, answers: Seq<Answer>, i: int)
    requires
        is_write_run(states, answers),
        0 <= i < states.len(),
        !(states[i].phase is Preflight),
        !(states[i].phase is Opening),
    ensures
        i > 0,
{
    reveal(is_write_run);
}

/// A run stays with the write it began as.
pub proof fn run_keeps_its_write(states: Seq<WriteCas>, answers: Seq<Answer>, i: int)
    requires
        is_write_run(states, answers),
        0 <= i < states.len(),
    ensures
        states[i].args == states[0].args,
        states[i].kind == states[0].kind,
        states[i].principal == states[0].principal,
        states[i].atomic_writes == states[0].atomic_writes,
    decreases i,
{
    if i > 0 {
        step_of(states, answers, i);
        run_keeps_its_write(states, answers, i - 1);
    }
}

/// Nothing is overwritten unsaved or unseen. When a write asks for the file to
/// be overwritten, it has read the file under the handle that it still holds,
/// nothing but the storing and the noting having been asked for since; the
/// contents it read are the version that its caller read (unless the write is
/// forced), they are stored in history, and the intent is noted wherever a write
/// can tear.
pub proof fn overwrite_is_guarded(states: Seq<WriteCas>, answers: Seq<Answer>, i: int)
    requires
        is_write_run(states, answers),
        0 <= i < states.len(),
        states[i].phase is Overwriting,
    ensures
        exists|k: int, current: Vec<u8>, v_now: VersionToken|
            #[trigger] stored_at(states, answers, k, current, v_now) && i - 2 <= k < i && v_now@ == blake3_text(current@)
                && current@.len() <= MAX_PRE_IMAGE_BYTES && (states[i].forced() || v_now@ == states[i].args.base_version@)
                && !is_transcript(states[i].args.content@, current@)
                && answers[k - 1] == Answer::Bytes(Ok(current)),
        !states[i].atomic_writes ==> states[i - 1].phase is Journaling && went_well(answers[i - 1]),
{
    start_of(states, answers, i);
    step_of(states, answers, i);
    let k = if states[i - 1].phase is Storing { i - 1 } else { i - 2 };
    start_of(states, answers, i - 1);
    step_of(states, answers, i - 1);
    start_of(states, answers, k);
    step_of(states, answers, k);
    match states[k].phase {
        WritePhase::Storing { v_now, v_new, current } => {
            assert(states[k - 1].phase is Reading);
            assert(answers[k - 1] == Answer::Bytes(Ok(current)));
            assert(stored_at(states, answers, k, current, v_now));
        },
        _ => {},
    }
}

/// A conflict never costs its loser anything. When a write ends in a conflict
/// of its own, the contents it submitted are in the file that the conflict
/// names, and the conflict is registered.
pub proof fn conflict_keeps_both(states: Seq<WriteCas>, answers: Seq<Answer>, i: int)
    requires
        is_write_run(states, answers),
        0 < i < states.len(),
        states[i - 1].phase is Attributing,
    ensures
        states[i].phase matches WritePhase::Finished(Err(ChaprError::Conflict { sidecar_path: Some(sidecar), current_version, .. }))
            && i >= 3
            && states[i - 3].wants() == Action::CreateNew(&sidecar, &states[i].args.content)
            && went_well(answers[i - 3])
            && states[i - 2].phase is Registering
            && went_well(answers[i - 2])
            && current_version@ != states[i].args.base_version@,
{
    step_of(states, answers, i);
    start_of(states, answers, i - 1);
    step_of(states, answers, i - 1);
    assert(states[i - 2].phase is Registering);
    start_of(states, answers, i - 2);
    step_of(states, answers, i - 2);
    assert(states[i - 3].phase is Parking);
    start_of(states, answers, i - 3);
    step_of(states, answers, i - 3);
    assert(states[i - 4].phase is Reading);
}

/// A write that ends in a conflict naming a sidecar went through the parking of
/// its contents, unless the coordinator itself answered with such an error.
pub proof fn conflict_comes_from_parking(states: Seq<WriteCas>, answers: Seq<Answer>, i: int)
    requires
        is_write_run(states, answers),
        0 < i < states.len(),
        states[i].phase matches WritePhase::Finished(Err(ChaprError::Conflict { .. })),
        !(answers[i - 1] is Coord),
    ensures
        states[i - 1].phase is Attributing,
{
    step_of(states, answers, i);
}

/// A write that failed changed nothing on the share: if it ends in an error, it
/// was never told that its overwrite succeeded.
pub proof fn failure_means_unchanged(states: Seq<WriteCas>, answers: Seq<Answer>, i: int, k: int)
    requires
        is_write_run(states, answers),
        0 <= k < i < states.len(),
        states[i].phase matches WritePhase::Finished(Err(_)),
        states[k].phase is Overwriting,
    ensures
        !went_well(answers[k]),
{
    if went_well(answers[k]) {
        step_of(states, answers, k + 1);
        assert(states[k + 1].phase is Closing);
        if k + 1 < i {
            step_of(states, answers, k + 2);
            assert(states[k + 2].phase is Clearing || states[k + 2].phase matches WritePhase::Finished(Ok(_)));
            if k + 2 < i {
                step_of(states, answers, k + 3);
                if k + 3 < i {
                    step_of(states, answers, k + 4);
                }
            }
        }
    }
}

/// How a finished write came by its receipt: the state in which the overwrite
/// was under way.
proof fn overwrite_before_receipt(states: Seq<WriteCas>, answers: Seq<Answer>, i: int) -> (k: int)
    requires
        is_write_run(states, answers),
        0 <= i < states.len(),
        states[i].phase matches WritePhase::Finished(Ok(_)),
    ensures
        0 <= k < i,
        went_well(answers[k]),
        states[i].args == states[k].args,
        match (states[k].phase, states[i].phase) {
            (WritePhase::Overwriting { v_now, v_new, from_size }, WritePhase::Finished(Ok(receipt))) => receipt
                == states[k].receipt(v_now, v_new, from_size),
            _ => false,
        },
{
    start_of(states, answers, i);
    step_of(states, answers, i);
    let closing = if states[i - 1].phase is Closing { i - 1 } else { i - 2 };
    start_of(states, answers, i - 1);
    step_of(states, answers, i - 1);
    start_of(states, answers, closing);
    step_of(states, answers, closing);
    closing - 1
}

/// What a write in the middle of its overwrite knows.
proof fn overwriting_knows(states: Seq<WriteCas>, answers: Seq<Answer>, i: int)
    requires
        is_write_run(states, answers),
        0 <= i < states.len(),
        states[i].phase is Overwriting,
    ensures
        states[i].phase matches WritePhase::Overwriting { v_now, v_new, from_size }
            && v_new@ == blake3_text(states[i].args.content@)
            && (states[i].forced() || v_now@ == states[i].args.base_version@),
{
    start_of(states, answers, i);
    step_of(states, answers, i);
    let k = if states[i - 1].phase is Storing { i - 1 } else { i - 2 };
    start_of(states, answers, i - 1);
    step_of(states, answers, i - 1);
    start_of(states, answers, k);
    step_of(states, answers, k);
    assert(states[k - 1].phase is Reading);
}

/// A write that succeeded replaced the version its caller read by the version
/// of the contents it submitted, and was told that the file was overwritten.
pub proof fn success_reports_the_swap(states: Seq<WriteCas>, answers: Seq<Answer>, i: int)
    requires
        is_write_run(states, answers),
        0 <= i < states.len(),
        states[i].phase matches WritePhase::Finished(Ok(_)),
    ensures
        states[i].phase matches WritePhase::Finished(Ok(receipt)) && {
            &&& receipt.to_version matches Some(to) && to@ == blake3_text(states[i].args.content@)
            &&& receipt.from_version matches Some(from) && (states[i].forced() || from@ == states[i].args.base_version@)
            &&& receipt.size == states[i].args.content@.len() as u64
        },
        exists|k: int| 0 <= k < i && (#[trigger] states[k]).phase is Overwriting && went_well(answers[k]),
{
    let k = overwrite_before_receipt(states, answers, i);
    overwriting_knows(states, answers, k);
    assert(states[k].phase is Overwriting && went_well(answers[k]));
}

/// Whether the first `i` steps of a run looked for the lock files `locks` and
/// found none of them.
pub open spec fn locks_clear(states: Seq<WriteCas>, answers: Seq<Answer>, locks: Vec<CanonicalPath>, i: int) -> bool {
    &&& locks@.map_values(|p: CanonicalPath| p@) == grammar_of(states[0].kind).lock_texts(states[0].args.path@)
    &&& 0 <= i <= locks@.len()
    &&& forall|j: int| 0 <= j < i ==> (#[trigger] answers[j]) == Answer::Exists(false) && states[j].wants() == Action::Exists(&locks@[j])
}

proof fn preflight_so_far(states: Seq<WriteCas>, answers: Seq<Answer>, i: int) -> (locks: Vec<CanonicalPath>)
    requires
        is_write_run(states, answers),
        0 <= i < states.len(),
        states[i].phase is Preflight || states[i].phase is Opening,
    ensures
        locks_clear(states, answers, locks, i),
        preflight(locks, i, states[i].phase),
    decreases i,
{
    if i == 0 {
        reveal(is_write_run);
        let locks = choose|locks: Vec<CanonicalPath>|
            locks@.map_values(|p: CanonicalPath| p@) == grammar_of(states[0].kind).lock_texts(states[0].args.path@)
                && #[trigger] preflight(locks, 0, states[0].phase);
        locks
    } else {
        step_of(states, answers, i);
        assert(states[i - 1].phase is Preflight);
        let locks = preflight_so_far(states, answers, i - 1);
        assert(answers[i - 1] == Answer::Exists(false));
        assert(states[i - 1].wants() == Action::Exists(&locks@[i - 1]));
        locks
    }
}

/// What comes after the preflight came after a handle was asked for.
proof fn opened_before(states: Seq<WriteCas>, answers: Seq<Answer>, i: int) -> (k: int)
    requires
        is_write_run(states, answers),
        0 <= i < states.len(),
        !(states[i].phase is Preflight),
        !(states[i].phase is Finished),
    ensures
        0 <= k <= i,
        states[k].phase is Opening,
    decreases i,
{
    if states[i].phase is Opening {
        i
    } else {
        start_of(states, answers, i);
        step_of(states, answers, i);
        opened_before(states, answers, i - 1)
    }
}

/// A person always wins: whatever a write asks for after its preflight, up to
/// the change itself, it asks for only after every lock file by which a person's
/// program marks the document was looked for and found missing.
pub proof fn a_person_always_wins(states: Seq<WriteCas>, answers: Seq<Answer>, i: int)
    requires
        is_write_run(states, answers),
        0 <= i < states.len(),
        !(states[i].phase is Preflight),
        !(states[i].phase is Finished),
    ensures
        exists|locks: Vec<CanonicalPath>|
            locks@.len() <= i && #[trigger] locks_clear(states, answers, locks, locks@.len() as int),
{
    let k = opened_before(states, answers, i);
    let locks = preflight_so_far(states, answers, k);
    assert(k == locks@.len());
    assert(locks_clear(states, answers, locks, locks@.len() as int));
}

/// A write that was told of a conflict says who won. Of the history that the
/// coordinator gives for the file, newest entry first, it is the first entry that
/// names the writer and the time, whatever entries follow; the caller and the
/// present stand in where there is no entry to be had.
pub proof fn a_conflict_names_the_newest_writer(states: Seq<WriteCas>, answers: Seq<Answer>, i: int)
    requires
        is_write_run(states, answers),
        0 < i < states.len(),
        answers[i - 1] is History,
    ensures
        states[i - 1].wants() == Action::History(&states[0].args.path),
        match (states[i].phase, answers[i - 1]) {
            (
                WritePhase::Finished(Err(ChaprError::Conflict { base_path, last_writer, when, .. })),
                Answer::History { reply, now },
            ) => {
                &&& base_path == states[0].args.path
                &&& reply matches Ok(entries) ==> entries@.len() > 0 ==> last_writer == entries@[0].writer && when
                    == entries@[0].timestamp
                &&& reply matches Ok(entries) ==> entries@.len() == 0 ==> last_writer == states[0].principal && when == now
                &&& reply is Err ==> last_writer == states[0].principal && when == now
            },
            _ => false,
        },
{
    step_of(states, answers, i);
    run_keeps_its_write(states, answers, i - 1);
}

/// A conflict of a write's own ends in an answer about the history, so that it is
/// always put down to somebody: any other was the coordinator's own answer.
pub proof fn a_conflict_was_attributed(states: Seq<WriteCas>, answers: Seq<Answer>, i: int)
    requires
        is_write_run(states, answers),
        0 < i < states.len(),
        states[i].phase matches WritePhase::Finished(Err(ChaprError::Conflict { .. })),
    ensures
        answers[i - 1] is History || answers[i - 1] == Answer::Coord(Err(states[i].phase->Finished_0->Err_0)),
{
    step_of(states, answers, i);
}

/// The session that a run is of stays the same.
proof fn run_keeps_its_session(states: Seq<WriteCas>, answers: Seq<Answer>, i: int)
    requires
        is_write_run(states, answers),
        0 <= i < states.len(),
    ensures
        states[i].session_id == states[0].session_id,
    decreases i,
{
    if i > 0 {
        step_of(states, answers, i);
        run_keeps_its_session(states, answers, i - 1);
    }
}

/// What a write has had done when it asks for the file to be overwritten: the file
/// was opened, read whole, found to be the version that the caller read (unless
/// the write is forced) and small enough for history, and exactly the bytes that
/// were read were stored there. Where a write can tear, the intent was noted last:
/// from the version that was read to that of the new contents. What is then written
/// is what the caller submitted, to the path that it named.
pub proof fn an_overwrite_was_prepared(states: Seq<WriteCas>, answers: Seq<Answer>, i: int)
    requires
        is_write_run(states, answers),
        0 <= i < states.len(),
        states[i].wants() is Overwrite,
    ensures
        states[i].wants() == Action::Overwrite(&states[0].args.path, &states[0].args.content),
        ({
            let k = if states[0].atomic_writes { i - 1 } else { i - 2 };
            &&& k >= 2
            &&& states[k - 2].wants() == Action::Open(&states[0].args.path)
            &&& answers[k - 2] matches Answer::Done(Ok(_))
            &&& states[k - 1].wants() == Action::ReadAll(&states[0].args.path)
            &&& answers[k - 1] matches Answer::Bytes(Ok(current)) && {
                &&& states[k].wants() == Action::PutBlob(&current)
                &&& states[0].args.mode is Force || blake3_text(current@) == states[0].args.base_version@
                &&& current@.len() <= 268435456
                &&& !states[0].atomic_writes ==> (states[i - 1].wants() matches Action::OpenJournal {
                    path,
                    lease_id,
                    principal,
                    pre_image_version,
                    intended_version: Some(v),
                } && *path == states[0].args.path && *lease_id == states[0].args.lease_id && *principal == states[0].principal
                    && pre_image_version@ == blake3_text(current@) && v@ == blake3_text(states[0].args.content@))
            }
            &&& answers[k] matches Answer::Coord(Ok(_))
            &&& answers[i - 1] matches Answer::Coord(Ok(_))
        }),
{
    start_of(states, answers, i);
    step_of(states, answers, i);
    run_keeps_its_write(states, answers, i);
    run_keeps_its_write(states, answers, i - 1);
    let k = if states[0].atomic_writes { i - 1 } else { i - 2 };
    start_of(states, answers, i - 1);
    step_of(states, answers, i - 1);
    run_keeps_its_write(states, answers, k);
    assert(states[k].phase is Storing);
    start_of(states, answers, k);
    step_of(states, answers, k);
    run_keeps_its_write(states, answers, k - 1);
    start_of(states, answers, k - 1);
    step_of(states, answers, k - 1);
    run_keeps_its_write(states, answers, k - 2);
}

/// A write that says it succeeded overwrote the file, closed it, and had the note of
/// its intent forgotten; its receipt tells the versions and the sizes of what was
/// there and of what is there now.
pub proof fn a_receipt_tells_what_was_done(states: Seq<WriteCas>, answers: Seq<Answer>, i: int)
    requires
        is_write_run(states, answers),
        0 <= i < states.len(),
        states[i].phase matches WritePhase::Finished(Ok(_)),
    ensures
        ({
            let k = if states[0].atomic_writes { i - 2 } else { i - 3 };
            &&& k >= 0
            &&& states[k].wants() == Action::Overwrite(&states[0].args.path, &states[0].args.content)
            &&& answers[k] matches Answer::Done(Ok(_))
            &&& states[k + 1].wants() == Action::Close(&states[0].args.path)
            &&& !states[0].atomic_writes ==> states[i - 1].wants() == Action::ClearJournal(&states[0].args.path)
            &&& states[i].phase matches WritePhase::Finished(Ok(receipt)) && receipt.to_version matches Some(to)
                && receipt.from_version matches Some(from) && to@ == blake3_text(states[0].args.content@) && receipt.size
                == states[0].args.content@.len() as u64 && (answers[if states[0].atomic_writes { k - 2 } else { k - 3 }] matches Answer::Bytes(
                Ok(current),
            ) && from@ == blake3_text(current@) && receipt.from_size == Some(current@.len() as u64))
        }),
{
    start_of(states, answers, i);
    step_of(states, answers, i);
    run_keeps_its_write(states, answers, i);
    run_keeps_its_write(states, answers, i - 1);
    let k = if states[0].atomic_writes { i - 2 } else { i - 3 };
    start_of(states, answers, i - 1);
    step_of(states, answers, i - 1);
    run_keeps_its_write(states, answers, k + 1);
    start_of(states, answers, k + 1);
    step_of(states, answers, k + 1);
    run_keeps_its_write(states, answers, k);
    start_of(states, answers, k);
    step_of(states, answers, k);
    let s = if states[0].atomic_writes { k - 1 } else { k - 2 };
    start_of(states, answers, k - 1);
    step_of(states, answers, k - 1);
    run_keeps_its_write(states, answers, k - 1);
    run_keeps_its_write(states, answers, s);
    assert(states[s].phase is Storing);
    start_of(states, answers, s);
    step_of(states, answers, s);
}

/// What a stale write does, once it has read the file: its contents go to a new
/// file beside the path, the conflict between the two is registered in its own
/// name, and the history is asked who won.
pub proof fn a_stale_write_is_parked(states: Seq<WriteCas>, answers: Seq<Answer>, i: int)
    requires
        is_write_run(states, answers),
        0 < i < states.len(),
        answers[i - 1] is History,
    ensures
        i >= 4,
        answers[i - 4] matches Answer::Bytes(Ok(current)) && !(states[0].args.mode is Force) && blake3_text(current@)
            != states[0].args.base_version@ && (states[i].phase matches WritePhase::Finished(
            Err(ChaprError::Conflict { current_version, sidecar_path: Some(sidecar), .. }),
        ) && {
            &&& current_version@ == blake3_text(current@)
            &&& states[i - 3].wants() == Action::CreateNew(&sidecar, &states[0].args.content)
            &&& states[i - 2].wants() == (Action::RegisterConflict {
                base_path: &states[0].args.path,
                sidecar_path: &sidecar,
                losing_principal: &states[0].principal,
                session_id: &states[0].session_id,
            })
            &&& exists|stamp: Seq<char>, id: Seq<char>|
                is_stamp(stamp) && is_short_id(id) && sidecar@ == #[trigger] sidecar_text(
                    &grammar_of(states[0].kind),
                    states[0].args.path@,
                    states[0].principal@,
                    stamp,
                    id,
                )
        }),
        answers[i - 3] matches Answer::Done(Ok(_)),
        answers[i - 2] matches Answer::Coord(Ok(_)),
{
    step_of(states, answers, i);
    run_keeps_its_write(states, answers, i - 1);
    start_of(states, answers, i - 1);
    step_of(states, answers, i - 1);
    run_keeps_its_write(states, answers, i - 2);
    run_keeps_its_session(states, answers, i - 2);
    start_of(states, answers, i - 2);
    step_of(states, answers, i - 2);
    run_keeps_its_write(states, answers, i - 3);
    start_of(states, answers, i - 3);
    step_of(states, answers, i - 3);
    run_keeps_its_write(states, answers, i - 4);
}

/// What a write makes of the contents that it read. Unless they are too large for
/// history or the submitted ones are the base64 text of them, it goes on: with
/// storing them where they are the version that the caller read or the write is
/// forced, and with putting the submitted ones aside where not.
pub proof fn a_write_goes_by_the_version(s: WriteCas, current: Vec<u8>, n: WriteCas)
    requires
        s.wants() is ReadAll,
        s.next(Answer::Bytes(Ok(current)), n),
        current@.len() <= 268435456,
        !is_transcript(s.args.content@, current@),
    ensures
        s.args.mode is Force || blake3_text(current@) == s.args.base_version@ ==> n.wants() == Action::PutBlob(&current),
        !(s.args.mode is Force) && blake3_text(current@) != s.args.base_version@ ==> (n.wants() matches Action::CreateNew(_, content)
            && *content == s.args.content),
{
}

/// A write that fails does so for a reason: a person has the document open, the
/// file system or the coordinator refused something, the file changed, it is too
/// large for history, or it would be replaced by its own base64 text.
pub proof fn a_write_fails_for_a_reason(states: Seq<WriteCas>, answers: Seq<Answer>, i: int, e: ChaprError)
    requires
        is_write_run(states, answers),
        0 < i < states.len(),
        states[i].phase == WritePhase::Finished(Err(e)),
    ensures
        match answers[i - 1] {
            Answer::Exists(there) => there && (e matches ChaprError::OfficeLockPresent { path, lock_file } && path == states[0].args.path
                && states[i - 1].wants() == Action::Exists(&lock_file)),
            Answer::Done(r) => r matches Err(io) && match states[i - 1].wants() {
                Action::CreateNew(sidecar, _) => e == os_error(*sidecar, io),
                _ => e == os_error(states[0].args.path, io),
            },
            Answer::Bytes(Err(io)) => e == os_error(states[0].args.path, io),
            Answer::Bytes(r) => r matches Ok(current) ==> current@.len() > 268435456 || is_transcript(
                states[0].args.content@,
                current@,
            ),
            Answer::Coord(r) => r == Err::<(), ChaprError>(e),
            Answer::History { .. } => e is Conflict,
            _ => false,
        },
{
    step_of(states, answers, i);
    run_keeps_its_write(states, answers, i - 1);
}

/// Whether one of the first `i` steps of a run asked for a file of this name and was
/// told that there is none.
pub open spec fn found_missing(states: Seq<WriteCas>, answers: Seq<Answer>, i: int, file: Seq<char>) -> bool {
    exists|j: int|
        0 <= j < i && answers[j] == Answer::Exists(false) && ((#[trigger] states[j]).wants() matches Action::Exists(p) && p@ == file)
}

/// A write to a document on a Windows share goes beyond its first questions only if
/// neither owner file of Office is there: not `~$` and the whole name, nor `~$` and
/// the name without its first two characters.
pub proof fn both_owner_files_are_looked_for(states: Seq<WriteCas>, answers: Seq<Answer>, i: int, dir: Seq<char>, name: Seq<char>)
    requires
        is_write_run(states, answers),
        0 <= i < states.len(),
        states[0].kind == BackendKind::Smb,
        states[0].args.path@ == dir + name,
        forall|k: int| 0 <= k < name.len() ==> name[k] != '\\',
        dir.len() == 0 || dir.last() == '\\',
        !(states[i].wants() is Exists),
        !(states[i].wants() is Nothing),
    ensures
        found_missing(states, answers, i, dir + seq!['~', '$'] + name),
        name.len() > 2 ==> found_missing(states, answers, i, dir + seq!['~', '$'] + name.subrange(2, name.len() as int)),
{
    let k = opened_before(states, answers, i);
    let locks = preflight_so_far(states, answers, k);
    assert(k == locks@.len());
    let texts = locks@.map_values(|p: CanonicalPath| p@);
    let whole = dir + seq!['~', '$'] + name;
    every_owner_file_is_known(dir, name, whole);
    let a = choose|a: int| 0 <= a < texts.len() && texts[a] == whole;
    assert(answers[a] == Answer::Exists(false));
    assert(states[a].wants() == Action::Exists(&locks@[a]));
    if name.len() > 2 {
        let short = dir + seq!['~', '$'] + name.subrange(2, name.len() as int);
        let b = choose|b: int| 0 <= b < texts.len() && texts[b] == short;
        assert(answers[b] == Answer::Exists(false));
        assert(states[b].wants() == Action::Exists(&locks@[b]));
    }
}

/// An owner file that is there ends the write: it is refused for that file, and
/// nothing is touched.
pub proof fn an_owner_file_ends_the_write(states: Seq<WriteCas>, answers: Seq<Answer>, i: int)
    requires
        is_write_run(states, answers),
        0 < i < states.len(),
        answers[i - 1] == Answer::Exists(true),
    ensures
        states[i].phase matches WritePhase::Finished(Err(ChaprError::OfficeLockPresent { path, lock_file })) && path
            == states[0].args.path && states[i - 1].wants() == Action::Exists(&lock_file),
        states[i].wants() is Nothing,
        i == answers.len(),
{
    step_of(states, answers, i);
    run_keeps_its_write(states, answers, i - 1);
    if i < answers.len() {
        step_of(states, answers, i + 1);
    } else {
        reveal(is_write_run);
    }
}

/// An answer to something that was not asked changes nothing.
pub proof fn a_write_heeds_no_other_answer(s: WriteCas, a: Answer, n: WriteCas)
    requires
        s.next(a, n),
        match s.wants() {
            Action::Exists(_) => !(a is Exists),
            Action::Open(_) | Action::Overwrite(..) | Action::CreateNew(..) => !(a is Done),
            Action::ReadAll(_) => !(a is Bytes),
            Action::History(_) => !(a is History),
            Action::PutBlob(_) | Action::OpenJournal { .. } | Action::ClearJournal(_) | Action::RegisterConflict { .. } => !(a is Coord),
            Action::Close(_) => !(a is Closed),
            _ => true,
        },
    ensures
        n.phase == s.phase,
{
}

} // verus!
