//! The restore in place: old contents over a live file, or a deleted file
//! brought back under its own name.
//!
//! The caller says what it saw at the target. A file that is not in that state
//! is left alone, so that a restore never destroys contents that nobody read.
use vstd::prelude::*;

use crate::backend::{
    attribution, last_writer_of, lock_paths, map_os_err, os_error, went_well, Action, Answer, CommitReceipt, IoFailure,
    RestoreInPlaceArgs,
};
use crate::create::{blamed, blames, create_err, create_err_told, Blame};
use crate::pathgrammar::{every_owner_file_is_known, grammar_of, PathGrammar};
use crate::proto::{blake3_text, BackendKind, CanonicalPath, ChaprError, Principal, RestoreBase, VersionToken};

verus! {

/// Where a restore stands: what it has asked for and not yet been told.
pub enum RestorePhase {
    /// Whether the lock file number `next` exists.
    Preflight { locks: Vec<CanonicalPath>, next: usize },
    /// Whether there is a file at the target.
    Asking,
    /// The target made anew, there being none.
    Recreating,
    /// Whether the directory above exists, the making having failed.
    Blaming { parent: CanonicalPath, failure: IoFailure },
    /// The exclusive handle.
    Opening,
    /// The current contents.
    Reading,
    /// Who changed the target.
    Attributing { seen: VersionToken },
    /// The current contents stored.
    Storing { v_prev: VersionToken, current: Vec<u8> },
    /// The intent noted.
    Journaling { v_prev: VersionToken, from_size: u64 },
    /// The old contents written.
    Overwriting { v_prev: VersionToken, from_size: u64 },
    /// The handle closed.
    Closing { v_prev: VersionToken, from_size: u64 },
    /// The note forgotten.
    Clearing { v_prev: VersionToken, from_size: u64 },
    /// Nothing more.
    Finished(Result<CommitReceipt, ChaprError>),
}

/// A restore in place on its way.
pub struct RestoreInPlace {
    /// The kind of fileserver.
    pub kind: BackendKind,
    /// Whether its writes cannot tear.
    pub atomic_writes: bool,
    /// Who restores.
    pub principal: Principal,
    /// What is to be restored.
    pub args: RestoreInPlaceArgs,
    /// Where the restore stands.
    pub phase: RestorePhase,
}

/// Whether `p` asks for lock file number `next`, or for the target where there
/// is none left.
pub open spec fn restore_preflight(locks: Vec<CanonicalPath>, next: int, p: RestorePhase) -> bool {
    if next < locks@.len() {
        p matches RestorePhase::Preflight { locks: l, next: n } && l == locks && n == next
    } else {
        p is Asking
    }
}

/// Whether the caller saw this version at the target.
pub open spec fn saw(base: RestoreBase, version: Seq<char>) -> bool {
    base matches RestoreBase::Version(v) && v@ == version
}

impl RestoreInPlace {
    /// Whether the restore is in a state that it can come to: a target is made
    /// anew only where the caller saw none, and overwritten only at the version
    /// that the caller saw.
    pub open spec fn wf(&self) -> bool {
        match self.phase {
            RestorePhase::Preflight { locks, next } => next < locks@.len(),
            RestorePhase::Recreating => self.args.base is Absent,
            RestorePhase::Blaming { .. } => self.args.base is Absent,
            RestorePhase::Storing { v_prev, current } => saw(self.args.base, v_prev@)
                && v_prev@ == blake3_text(current@),
            RestorePhase::Journaling { v_prev, from_size } => saw(self.args.base, v_prev@),
            RestorePhase::Overwriting { v_prev, from_size } => saw(self.args.base, v_prev@),
            RestorePhase::Closing { v_prev, from_size } => saw(self.args.base, v_prev@),
            RestorePhase::Clearing { v_prev, from_size } => saw(self.args.base, v_prev@),
            _ => true,
        }
    }

    /// A restore at its beginning.
    pub open spec fn started(&self) -> bool {
        exists|locks: Vec<CanonicalPath>|
            locks@.map_values(|p: CanonicalPath| p@) == grammar_of(self.kind).lock_texts(self.args.path@)
                && #[trigger] restore_preflight(locks, 0, self.phase)
    }

    /// The receipt of a file that was brought back.
    pub open spec fn recreated(&self) -> CommitReceipt {
        CommitReceipt {
            from_version: None,
            to_version: Some(self.args.version),
            size: self.args.bytes@.len() as u64,
            from_size: None,
        }
    }

    /// The receipt of a file that was overwritten.
    pub open spec fn replaced(&self, v_prev: VersionToken, from_size: u64) -> CommitReceipt {
        CommitReceipt {
            from_version: Some(v_prev),
            to_version: Some(self.args.version),
            size: self.args.bytes@.len() as u64,
            from_size: Some(from_size),
        }
    }

    /// Whether an answer is one to what the restore asked for.
    pub open spec fn expects(&self, a: Answer) -> bool {
        match self.phase {
            RestorePhase::Preflight { .. } => a is Exists,
            RestorePhase::Asking => a is Exists,
            RestorePhase::Recreating => a is Done,
            RestorePhase::Blaming { .. } => a is Exists,
            RestorePhase::Opening => a is Done,
            RestorePhase::Reading => a is Bytes,
            RestorePhase::Attributing { .. } => a is History,
            RestorePhase::Storing { .. } => a is Coord,
            RestorePhase::Journaling { .. } => a is Coord,
            RestorePhase::Overwriting { .. } => a is Done,
            RestorePhase::Closing { .. } => a is Closed,
            RestorePhase::Clearing { .. } => a is Coord,
            RestorePhase::Finished(_) => false,
        }
    }

    /// Where an answer takes the restore.
    pub open spec fn leads(&self, a: Answer, p: RestorePhase) -> bool {
        match (self.phase, a) {
            (RestorePhase::Preflight { locks, next }, Answer::Exists(there)) => if there {
                p == RestorePhase::Finished(
                    Err(ChaprError::OfficeLockPresent { path: self.args.path, lock_file: locks@[next as int] }),
                )
            } else {
                restore_preflight(locks, next + 1, p)
            },
            (RestorePhase::Asking, Answer::Exists(there)) => if there {
                p is Opening
            } else {
                match self.args.base {
                    RestoreBase::Absent => p is Recreating,
                    RestoreBase::Version(seen) => p == (RestorePhase::Attributing { seen }),
                }
            },
            (RestorePhase::Recreating, Answer::Done(r)) => match r {
                Ok(()) => p == RestorePhase::Finished(Ok(self.recreated())),
                Err(e) => exists|b: Blame| #[trigger] blames(self.kind, self.args.path, e, b) && match b {
                    Blame::Ask { parent, failure } => p == (RestorePhase::Blaming { parent, failure }),
                    Blame::Plain(e) => p == RestorePhase::Finished(Err(e)),
                },
            },
            (RestorePhase::Blaming { parent, failure }, Answer::Exists(there)) => {
                p == RestorePhase::Finished(Err(blamed(self.args.path, parent, failure, there)))
            },
            (RestorePhase::Opening, Answer::Done(r)) => match r {
                Ok(()) => p is Reading,
                Err(e) => p == RestorePhase::Finished(Err(os_error(self.args.path, e))),
            },
            (RestorePhase::Reading, Answer::Bytes(r)) => match r {
                Ok(current) => if saw(self.args.base, blake3_text(current@)) {
                    p matches RestorePhase::Storing { v_prev, current: c } && v_prev@ == blake3_text(current@)
                        && c == current
                } else {
                    p matches RestorePhase::Attributing { seen } && seen@ == blake3_text(current@)
                },
                Err(e) => p == RestorePhase::Finished(Err(os_error(self.args.path, e))),
            },
            (RestorePhase::Attributing { seen }, Answer::History { reply, now }) => {
                let (last_writer, when) = attribution(reply, now, self.principal);
                p == RestorePhase::Finished(
                    Err(ChaprError::Conflict {
                        base_path: self.args.path,
                        current_version: seen,
                        last_writer,
                        when,
                        sidecar_path: None,
                    }),
                )
            },
            (RestorePhase::Storing { v_prev, current }, Answer::Coord(r)) => match r {
                Ok(()) => if self.atomic_writes {
                    p == (RestorePhase::Overwriting { v_prev, from_size: current@.len() as u64 })
                } else {
                    p == (RestorePhase::Journaling { v_prev, from_size: current@.len() as u64 })
                },
                Err(e) => p == RestorePhase::Finished(Err(e)),
            },
            (RestorePhase::Journaling { v_prev, from_size }, Answer::Coord(r)) => match r {
                Ok(()) => p == (RestorePhase::Overwriting { v_prev, from_size }),
                Err(e) => p == RestorePhase::Finished(Err(e)),
            },
            (RestorePhase::Overwriting { v_prev, from_size }, Answer::Done(r)) => match r {
                Ok(()) => p == (RestorePhase::Closing { v_prev, from_size }),
                Err(e) => p == RestorePhase::Finished(Err(os_error(self.args.path, e))),
            },
            (RestorePhase::Closing { v_prev, from_size }, Answer::Closed) => if self.atomic_writes {
                p == RestorePhase::Finished(Ok(self.replaced(v_prev, from_size)))
            } else {
                p == (RestorePhase::Clearing { v_prev, from_size })
            },
            // The contents are on the share: a note left behind is not a failure.
            (RestorePhase::Clearing { v_prev, from_size }, Answer::Coord(_)) => {
                p == RestorePhase::Finished(Ok(self.replaced(v_prev, from_size)))
            },
            (phase, _) => p == phase,
        }
    }

    /// Whether `n` is this restore one answer later.
    pub open spec fn next(&self, a: Answer, n: RestoreInPlace) -> bool {
        &&& n.kind == self.kind
        &&& n.atomic_writes == self.atomic_writes
        &&& n.principal == self.principal
        &&& n.args == self.args
        &&& self.leads(a, n.phase)
    }

    /// What the restore needs done.
    pub open spec fn wants(&self) -> Action<'_> {
        match self.phase {
            RestorePhase::Preflight { locks, next } => Action::Exists(&locks@[next as int]),
            RestorePhase::Asking => Action::Exists(&self.args.path),
            RestorePhase::Recreating => Action::CreateNew(&self.args.path, &self.args.bytes),
            RestorePhase::Blaming { parent, failure } => Action::Exists(&parent),
            RestorePhase::Opening => Action::Open(&self.args.path),
            RestorePhase::Reading => Action::ReadAll(&self.args.path),
            RestorePhase::Attributing { seen } => Action::History(&self.args.path),
            RestorePhase::Storing { v_prev, current } => Action::PutBlob(&current),
            RestorePhase::Journaling { v_prev, from_size } => Action::OpenJournal {
                path: &self.args.path,
                lease_id: &self.args.lease_id,
                principal: &self.principal,
                pre_image_version: &v_prev,
                intended_version: Some(&self.args.version),
            },
            RestorePhase::Overwriting { v_prev, from_size } => Action::Overwrite(&self.args.path, &self.args.bytes),
            RestorePhase::Closing { v_prev, from_size } => Action::Close(&self.args.path),
            RestorePhase::Clearing { v_prev, from_size } => Action::ClearJournal(&self.args.path),
            RestorePhase::Finished(_) => Action::Nothing,
        }
    }

    /// A restore at its beginning.
    pub fn begin(
        kind: BackendKind,
        atomic_writes: bool,
        principal: Principal,
        args: RestoreInPlaceArgs,
    ) -> (r: RestoreInPlace)
        ensures
            r.wf(),
            r.started(),
            r.kind == kind,
            r.atomic_writes == atomic_writes,
            r.principal == principal,
            r.args == args,
    {
        let locks = lock_paths(kind, &args.path);
        let ghost all = locks;
        let phase = if locks.len() > 0 {
            RestorePhase::Preflight { locks, next: 0 }
        } else {
            RestorePhase::Asking
        };
        assert(restore_preflight(all, 0, phase));
        RestoreInPlace { kind, atomic_writes, principal, args, phase }
    }

    /// What the restore needs done next.
    pub fn action(&self) -> (r: Action<'_>)
        requires
            self.wf(),
        ensures
            r == self.wants(),
    {
        match &self.phase {
            RestorePhase::Preflight { locks, next } => Action::Exists(&locks[*next]),
            RestorePhase::Asking => Action::Exists(&self.args.path),
            RestorePhase::Recreating => Action::CreateNew(&self.args.path, &self.args.bytes),
            RestorePhase::Blaming { parent, failure: _ } => Action::Exists(parent),
            RestorePhase::Opening => Action::Open(&self.args.path),
            RestorePhase::Reading => Action::ReadAll(&self.args.path),
            RestorePhase::Attributing { seen: _ } => Action::History(&self.args.path),
            RestorePhase::Storing { v_prev: _, current } => Action::PutBlob(current),
            RestorePhase::Journaling { v_prev, from_size: _ } => Action::OpenJournal {
                path: &self.args.path,
                lease_id: &self.args.lease_id,
                principal: &self.principal,
                pre_image_version: v_prev,
                intended_version: Some(&self.args.version),
            },
            RestorePhase::Overwriting { v_prev: _, from_size: _ } => Action::Overwrite(
                &self.args.path,
                &self.args.bytes,
            ),
            RestorePhase::Closing { v_prev: _, from_size: _ } => Action::Close(&self.args.path),
            RestorePhase::Clearing { v_prev: _, from_size: _ } => Action::ClearJournal(&self.args.path),
            RestorePhase::Finished(_) => Action::Nothing,
        }
    }

    /// What a restore does once it knows the current contents and their version.
    pub fn compare(&self, v_prev: VersionToken, current: Vec<u8>) -> (p: RestorePhase)
        ensures
            p == if saw(self.args.base, v_prev@) {
                RestorePhase::Storing { v_prev, current }
            } else {
                RestorePhase::Attributing { seen: v_prev }
            },
    {
        match &self.args.base {
            RestoreBase::Version(v) => if v_prev.same(v) {
                RestorePhase::Storing { v_prev, current }
            } else {
                RestorePhase::Attributing { seen: v_prev }
            },
            RestoreBase::Absent => RestorePhase::Attributing { seen: v_prev },
        }
    }

    fn committed(&self, v_prev: VersionToken, from_size: u64) -> (r: RestorePhase)
        ensures
            r == RestorePhase::Finished(Ok(self.replaced(v_prev, from_size))),
    {
        RestorePhase::Finished(
            Ok(
                CommitReceipt {
                    from_version: Some(v_prev),
                    to_version: Some(self.args.version.clone()),
                    size: self.args.bytes.len() as u64,
                    from_size: Some(from_size),
                },
            ),
        )
    }

    /// Moves the restore on by what came of its action. An answer to something
    /// that was not asked changes nothing.
    pub fn advance(self, answer: Answer) -> (n: RestoreInPlace)
        requires
            self.wf(),
        ensures
            n.wf(),
            self.next(answer, n),
    {
        let mut op = self;
        let mut phase = RestorePhase::Asking;
        std::mem::swap(&mut op.phase, &mut phase);
        let next = match (phase, answer) {
            (RestorePhase::Preflight { locks, next }, Answer::Exists(there)) => {
                let count = locks.len();
                if there {
                    RestorePhase::Finished(
                        Err(ChaprError::OfficeLockPresent { path: op.args.path.clone(), lock_file: locks[next].clone() }),
                    )
                } else if count - next > 1 {
                    RestorePhase::Preflight { locks, next: next + 1 }
                } else {
                    RestorePhase::Asking
                }
            },
            (RestorePhase::Asking, Answer::Exists(there)) => if there {
                RestorePhase::Opening
            } else {
                match &op.args.base {
                    RestoreBase::Absent => RestorePhase::Recreating,
                    RestoreBase::Version(seen) => RestorePhase::Attributing { seen: seen.clone() },
                }
            },
            (RestorePhase::Recreating, Answer::Done(r)) => match r {
                Ok(()) => RestorePhase::Finished(
                    Ok(
                        CommitReceipt {
                            from_version: None,
                            to_version: Some(op.args.version.clone()),
                            size: op.args.bytes.len() as u64,
                            from_size: None,
                        },
                    ),
                ),
                Err(e) => match create_err(op.kind, &op.args.path, e) {
                    Blame::Ask { parent, failure } => RestorePhase::Blaming { parent, failure },
                    Blame::Plain(e) => RestorePhase::Finished(Err(e)),
                },
            },
            (RestorePhase::Blaming { parent, failure }, Answer::Exists(there)) => RestorePhase::Finished(
                Err(create_err_told(&op.args.path, parent, failure, there)),
            ),
            (RestorePhase::Opening, Answer::Done(r)) => match r {
                Ok(()) => RestorePhase::Reading,
                Err(e) => RestorePhase::Finished(Err(map_os_err(&op.args.path, e))),
            },
            (RestorePhase::Reading, Answer::Bytes(r)) => match r {
                Ok(current) => {
                    let v_prev = VersionToken::hash(current.as_slice());
                    op.compare(v_prev, current)
                },
                Err(e) => RestorePhase::Finished(Err(map_os_err(&op.args.path, e))),
            },
            (RestorePhase::Attributing { seen }, Answer::History { reply, now }) => {
                let (last_writer, when) = last_writer_of(reply, now, &op.principal);
                RestorePhase::Finished(
                    Err(ChaprError::Conflict {
                        base_path: op.args.path.clone(),
                        current_version: seen,
                        last_writer,
                        when,
                        sidecar_path: None,
                    }),
                )
            },
            (RestorePhase::Storing { v_prev, current }, Answer::Coord(r)) => match r {
                Ok(()) => {
                    let from_size = current.len() as u64;
                    if op.atomic_writes {
                        RestorePhase::Overwriting { v_prev, from_size }
                    } else {
                        RestorePhase::Journaling { v_prev, from_size }
                    }
                },
                Err(e) => RestorePhase::Finished(Err(e)),
            },
            (RestorePhase::Journaling { v_prev, from_size }, Answer::Coord(r)) => match r {
                Ok(()) => RestorePhase::Overwriting { v_prev, from_size },
                Err(e) => RestorePhase::Finished(Err(e)),
            },
            (RestorePhase::Overwriting { v_prev, from_size }, Answer::Done(r)) => match r {
                Ok(()) => RestorePhase::Closing { v_prev, from_size },
                Err(e) => RestorePhase::Finished(Err(map_os_err(&op.args.path, e))),
            },
            (RestorePhase::Closing { v_prev, from_size }, Answer::Closed) => if op.atomic_writes {
                op.committed(v_prev, from_size)
            } else {
                RestorePhase::Clearing { v_prev, from_size }
            },
            (RestorePhase::Clearing { v_prev, from_size }, Answer::Coord(_)) => op.committed(v_prev, from_size),
            (phase, _) => phase,
        };
        op.phase = next;
        op
    }
}

/// A restore from its beginning: each state follows from the one before by an
/// answer to what that one asked.
#[verifier::opaque]
pub open spec fn is_restore_run(states: Seq<RestoreInPlace>, answers: Seq<Answer>) -> bool {
    &&& states.len() == answers.len() + 1
    &&& states[0].started()
    &&& forall|i: int| 0 <= i < answers.len() ==> (#[trigger] states[i]).expects(answers[i])
        && states[i].next(answers[i], states[i + 1])
}

proof fn restore_step(states: Seq<RestoreInPlace>, answers: Seq<Answer>, i: int)
    requires
        is_restore_run(states, answers),
        0 < i < states.len(),
    ensures
        states[i - 1].expects(answers[i - 1]),
        states[i - 1].next(answers[i - 1], states[i]),
        states.len() == answers.len() + 1,
{
    reveal(is_restore_run);
    assert(states[i - 1].expects(answers[i - 1]));
}

proof fn restore_start(states: Seq<RestoreInPlace>, answers: Seq<Answer>, i: int)
    requires
        is_restore_run(states, answers),
        0 <= i < states.len(),
        !(states[i].phase is Preflight),
        !(states[i].phase is Asking),
    ensures
        i > 0,
{
    reveal(is_restore_run);
}

/// Whether step `k` of a run stored the contents `current` in history.
pub open spec fn restore_stored_at(states: Seq<RestoreInPlace>, answers: Seq<Answer>, k: int, current: Vec<u8>, v_prev: VersionToken) -> bool {
    &&& 0 <= k < answers.len()
    &&& states[k].phase matches RestorePhase::Storing { v_prev: v, current: c } && c == current && v == v_prev
    &&& went_well(answers[k])
}

/// A restore never overwrites contents that its caller has not seen. When it
/// asks for the file to be overwritten, it has read the file under the handle
/// that it still holds, nothing but the storing and the noting having been asked
/// for since; the contents it read are the version that the caller named, they
/// are stored in history, and the intent is noted wherever a write can tear.
pub proof fn restore_overwrites_only_what_was_seen(states: Seq<RestoreInPlace>, answers: Seq<Answer>, i: int)
    requires
        is_restore_run(states, answers),
        0 <= i < states.len(),
        states[i].phase is Overwriting,
    ensures
        exists|k: int, current: Vec<u8>, v_prev: VersionToken|
            #[trigger] restore_stored_at(states, answers, k, current, v_prev) && i - 2 <= k < i
                && v_prev@ == blake3_text(current@) && saw(states[i].args.base, v_prev@) && states[k - 1].phase is Reading
                && answers[k - 1] == Answer::Bytes(Ok(current)),
        !states[i].atomic_writes ==> states[i - 1].phase is Journaling && went_well(answers[i - 1]),
{
    restore_start(states, answers, i);
    restore_step(states, answers, i);
    let k = if states[i - 1].phase is Storing { i - 1 } else { i - 2 };
    restore_start(states, answers, i - 1);
    restore_step(states, answers, i - 1);
    restore_start(states, answers, k);
    restore_step(states, answers, k);
    match states[k].phase {
        RestorePhase::Storing { v_prev, current } => {
            assert(states[k - 1].phase is Reading);
            assert(answers[k - 1] == Answer::Bytes(Ok(current)));
            assert(restore_stored_at(states, answers, k, current, v_prev));
        },
        _ => {},
    }
}

/// A deleted file comes back under its own name, and only where the caller saw
/// that it was gone and it still is.
pub proof fn restore_recreates_only_what_is_gone(states: Seq<RestoreInPlace>, answers: Seq<Answer>, i: int)
    requires
        is_restore_run(states, answers),
        0 <= i < states.len(),
        states[i].phase is Recreating,
    ensures
        i > 0,
        states[i].args.base is Absent,
        states[i - 1].phase is Asking,
        answers[i - 1] == Answer::Exists(false),
        states[i].wants() == Action::CreateNew(&states[i].args.path, &states[i].args.bytes),
{
    restore_start(states, answers, i);
    restore_step(states, answers, i);
}

/// A restore that failed overwrote nothing.
pub proof fn failed_restore_overwrote_nothing(states: Seq<RestoreInPlace>, answers: Seq<Answer>, i: int, k: int)
    requires
        is_restore_run(states, answers),
        0 <= k < i < states.len(),
        states[i].phase matches RestorePhase::Finished(Err(_)),
        states[k].phase is Overwriting,
    ensures
        !went_well(answers[k]),
{
    if went_well(answers[k]) {
        restore_step(states, answers, k + 1);
        if k + 1 < i {
            restore_step(states, answers, k + 2);
            if k + 2 < i {
                restore_step(states, answers, k + 3);
                if k + 3 < i {
                    restore_step(states, answers, k + 4);
                }
            }
        }
    }
}

/// Whether the first `i` steps of a run looked for the lock files `locks` and
/// found none of them.
pub open spec fn restore_locks_clear(states: Seq<RestoreInPlace>, answers: Seq<Answer>, locks: Vec<CanonicalPath>, i: int) -> bool {
    &&& locks@.map_values(|p: CanonicalPath| p@) == grammar_of(states[0].kind).lock_texts(states[0].args.path@)
    &&& 0 <= i <= locks@.len()
    &&& forall|j: int| 0 <= j < i ==> (#[trigger] answers[j]) == Answer::Exists(false) && states[j].wants() == Action::Exists(&locks@[j])
}

proof fn restore_preflight_so_far(states: Seq<RestoreInPlace>, answers: Seq<Answer>, i: int) -> (locks: Vec<CanonicalPath>)
    requires
        is_restore_run(states, answers),
        0 <= i < states.len(),
        states[i].phase is Preflight || states[i].phase is Asking,
    ensures
        restore_locks_clear(states, answers, locks, i),
        restore_preflight(locks, i, states[i].phase),
    decreases i,
{
    if i == 0 {
        reveal(is_restore_run);
        let locks = choose|locks: Vec<CanonicalPath>|
            locks@.map_values(|p: CanonicalPath| p@) == grammar_of(states[0].kind).lock_texts(states[0].args.path@)
                && #[trigger] restore_preflight(locks, 0, states[0].phase);
        locks
    } else {
        restore_step(states, answers, i);
        assert(states[i - 1].phase is Preflight);
        let locks = restore_preflight_so_far(states, answers, i - 1);
        assert(answers[i - 1] == Answer::Exists(false));
        assert(states[i - 1].wants() == Action::Exists(&locks@[i - 1]));
        locks
    }
}

/// What comes after the preflight came after the target was asked for.
proof fn restore_asked_before(states: Seq<RestoreInPlace>, answers: Seq<Answer>, i: int) -> (k: int)
    requires
        is_restore_run(states, answers),
        0 <= i < states.len(),
        !(states[i].phase is Preflight),
        !(states[i].phase is Finished),
    ensures
        0 <= k <= i,
        states[k].phase is Asking,
    decreases i,
{
    if states[i].phase is Asking {
        i
    } else {
        restore_start(states, answers, i);
        restore_step(states, answers, i);
        restore_asked_before(states, answers, i - 1)
    }
}

/// A person always wins: whatever a restore asks for after its preflight, up to
/// the change itself, it asks for only after every lock file by which a person's
/// program marks the document was looked for and found missing.
pub proof fn a_person_wins_over_a_restore(states: Seq<RestoreInPlace>, answers: Seq<Answer>, i: int)
    requires
        is_restore_run(states, answers),
        0 <= i < states.len(),
        !(states[i].phase is Preflight),
        !(states[i].phase is Finished),
    ensures
        exists|locks: Vec<CanonicalPath>|
            locks@.len() <= i && #[trigger] restore_locks_clear(states, answers, locks, locks@.len() as int),
{
    let k = restore_asked_before(states, answers, i);
    let locks = restore_preflight_so_far(states, answers, k);
    assert(k == locks@.len());
    assert(restore_locks_clear(states, answers, locks, locks@.len() as int));
}

/// A restore stays what it began as.
proof fn restore_keeps_its_args(states: Seq<RestoreInPlace>, answers: Seq<Answer>, i: int)
    requires
        is_restore_run(states, answers),
        0 <= i < states.len(),
    ensures
        states[i].args == states[0].args,
        states[i].kind == states[0].kind,
        states[i].principal == states[0].principal,
        states[i].atomic_writes == states[0].atomic_writes,
    decreases i,
{
    if i > 0 {
        restore_step(states, answers, i);
        restore_keeps_its_args(states, answers, i - 1);
    }
}

/// A restore that was told of a conflict says who won: of the history of the file,
/// newest entry first, the first entry names the writer and the time, whatever
/// entries follow; the caller and the present stand in where there is no entry.
pub proof fn a_restore_conflict_names_the_newest_writer(states: Seq<RestoreInPlace>, answers: Seq<Answer>, i: int)
    requires
        is_restore_run(states, answers),
        0 < i < states.len(),
        answers[i - 1] is History,
    ensures
        states[i - 1].wants() == Action::History(&states[0].args.path),
        match (states[i].phase, answers[i - 1]) {
            (
                RestorePhase::Finished(Err(ChaprError::Conflict { base_path, last_writer, when, sidecar_path, .. })),
                Answer::History { reply, now },
            ) => {
                &&& base_path == states[0].args.path
                &&& sidecar_path is None
                &&& reply matches Ok(entries) ==> entries@.len() > 0 ==> last_writer == entries@[0].writer && when
                    == entries@[0].timestamp
                &&& reply matches Ok(entries) ==> entries@.len() == 0 ==> last_writer == states[0].principal && when == now
                &&& reply is Err ==> last_writer == states[0].principal && when == now
            },
            _ => false,
        },
{
    restore_step(states, answers, i);
    restore_keeps_its_args(states, answers, i - 1);
}

/// Whether one of the first `i` steps of a restore asked for a file of this name and
/// was told that there is none.
pub open spec fn restore_found_missing(states: Seq<RestoreInPlace>, answers: Seq<Answer>, i: int, file: Seq<char>) -> bool {
    exists|j: int|
        0 <= j < i && answers[j] == Answer::Exists(false) && ((#[trigger] states[j]).wants() matches Action::Exists(p) && p@ == file)
}

/// A restore of a document on a Windows share goes beyond its first questions only if
/// neither owner file of Office is there: not `~$` and the whole name, nor `~$` and
/// the name without its first two characters.
pub proof fn a_restore_looks_for_both_owner_files(states: Seq<RestoreInPlace>, answers: Seq<Answer>, i: int, dir: Seq<char>, name: Seq<char>)
    requires
        is_restore_run(states, answers),
        0 <= i < states.len(),
        states[0].kind == BackendKind::Smb,
        states[0].args.path@ == dir + name,
        forall|k: int| 0 <= k < name.len() ==> name[k] != '\\',
        dir.len() == 0 || dir.last() == '\\',
        !(states[i].phase is Preflight),
        !(states[i].wants() is Nothing),
    ensures
        restore_found_missing(states, answers, i, dir + seq!['~', '$'] + name),
        name.len() > 2 ==> restore_found_missing(
            states,
            answers,
            i,
            dir + seq!['~', '$'] + name.subrange(2, name.len() as int),
        ),
{
    let k = restore_asked_before(states, answers, i);
    let locks = restore_preflight_so_far(states, answers, k);
    assert(k == locks@.len());
    let texts = locks@.map_values(|p: CanonicalPath| p@);
    let whole = dir + seq!['~', '$'] + name;
    every_owner_file_is_known(dir, name, whole);
    let a = choose|a: int| 0 <= a < texts.len() && texts[a] == whole;
    assert(answers[a] == Answer::Exists(false));
    assert(states[a].wants() == Action::Exists(&locks@[a]));
    if name.len() > 2 {
        let short = dir + seq!['~', '$'] + name.subrange(2, name.len() as int);
        let b = choose|b: int| 0 <= b < texts.len() && texts[b] == short;
        assert(answers[b] == Answer::Exists(false));
        assert(states[b].wants() == Action::Exists(&locks@[b]));
    }
}

/// What a restore has had done when it asks for the file to be overwritten: the file
/// was opened, read whole, found to be the version that the caller saw there, and
/// exactly the bytes that were read were stored in history; where a write can tear,
/// the intent was noted last. What is then written are the old contents, to the path
/// that was named.
pub proof fn a_restore_was_prepared(states: Seq<RestoreInPlace>, answers: Seq<Answer>, i: int)
    requires
        is_restore_run(states, answers),
        0 <= i < states.len(),
        states[i].wants() is Overwrite,
    ensures
        states[i].wants() == Action::Overwrite(&states[0].args.path, &states[0].args.bytes),
        ({
            let k = if states[0].atomic_writes { i - 1 } else { i - 2 };
            &&& k >= 2
            &&& states[k - 2].wants() == Action::Open(&states[0].args.path)
            &&& answers[k - 2] matches Answer::Done(Ok(_))
            &&& states[k - 1].wants() == Action::ReadAll(&states[0].args.path)
            &&& answers[k - 1] matches Answer::Bytes(Ok(current)) && states[k].wants() == Action::PutBlob(&current)
                && (states[0].args.base matches RestoreBase::Version(v) && v@ == blake3_text(current@)) && (!states[0].atomic_writes
                ==> (states[i - 1].wants() matches Action::OpenJournal {
                path,
                lease_id,
                principal,
                pre_image_version,
                intended_version: Some(v),
            } && *path == states[0].args.path && *lease_id == states[0].args.lease_id && *principal == states[0].principal
                && pre_image_version@ == blake3_text(current@) && *v == states[0].args.version))
            &&& answers[k] matches Answer::Coord(Ok(_))
            &&& answers[i - 1] matches Answer::Coord(Ok(_))
        }),
{
    restore_start(states, answers, i);
    restore_step(states, answers, i);
    restore_keeps_its_args(states, answers, i);
    restore_keeps_its_args(states, answers, i - 1);
    let k = if states[0].atomic_writes { i - 1 } else { i - 2 };
    restore_start(states, answers, i - 1);
    restore_step(states, answers, i - 1);
    restore_keeps_its_args(states, answers, k);
    assert(states[k].phase is Storing);
    restore_start(states, answers, k);
    restore_step(states, answers, k);
    restore_keeps_its_args(states, answers, k - 1);
    restore_start(states, answers, k - 1);
    restore_step(states, answers, k - 1);
    restore_keeps_its_args(states, answers, k - 2);
}

/// A restore that says it succeeded wrote the old contents: over a file, which it
/// then closed, or to a new one where there was none. Its receipt tells the version
/// and size of what is there now, and of what it replaced.
pub proof fn a_restore_receipt_tells_what_was_done(states: Seq<RestoreInPlace>, answers: Seq<Answer>, i: int)
    requires
        is_restore_run(states, answers),
        0 <= i < states.len(),
        states[i].phase matches RestorePhase::Finished(Ok(_)),
    ensures
        states[i].phase matches RestorePhase::Finished(Ok(receipt)) && {
            &&& receipt.to_version == Some(states[0].args.version)
            &&& receipt.size == states[0].args.bytes@.len() as u64
            &&& match states[0].args.base {
                RestoreBase::Absent => {
                    &&& receipt.from_version is None
                    &&& receipt.from_size is None
                    &&& states[i - 1].wants() == Action::CreateNew(&states[0].args.path, &states[0].args.bytes)
                    &&& answers[i - 1] matches Answer::Done(Ok(_))
                },
                RestoreBase::Version(seen) => {
                    let k = if states[0].atomic_writes { i - 2 } else { i - 3 };
                    &&& k >= 3
                    &&& states[k].wants() == Action::Overwrite(&states[0].args.path, &states[0].args.bytes)
                    &&& answers[k] matches Answer::Done(Ok(_))
                    &&& states[k + 1].wants() == Action::Close(&states[0].args.path)
                    &&& !states[0].atomic_writes ==> states[i - 1].wants() == Action::ClearJournal(&states[0].args.path)
                    &&& receipt.from_version matches Some(from) && from@ == seen@
                    &&& answers[if states[0].atomic_writes { k - 2 } else { k - 3 }] matches Answer::Bytes(Ok(current)) && receipt.from_size
                        == Some(current@.len() as u64)
                },
            }
        },
{
    restore_start(states, answers, i);
    restore_step(states, answers, i);
    restore_keeps_its_args(states, answers, i);
    restore_keeps_its_args(states, answers, i - 1);
    restore_start(states, answers, i - 1);
    restore_step(states, answers, i - 1);
    if states[i - 1].phase is Recreating {
        restore_keeps_its_args(states, answers, i - 2);
    } else {
        let k = if states[0].atomic_writes { i - 2 } else { i - 3 };
        restore_keeps_its_args(states, answers, k + 1);
        restore_start(states, answers, k + 1);
        restore_step(states, answers, k + 1);
        restore_keeps_its_args(states, answers, k);
        a_restore_was_prepared(states, answers, k);
        restore_start(states, answers, k);
        restore_step(states, answers, k);
        restore_start(states, answers, k - 1);
        restore_step(states, answers, k - 1);
        if !states[0].atomic_writes {
            restore_step(states, answers, k - 2);
        }
    }
}

/// A restore goes by what the caller saw: contents of that version are stored to be
/// replaced, and others are left alone and asked about.
pub proof fn a_restore_goes_by_what_was_seen(s: RestoreInPlace, current: Vec<u8>, n: RestoreInPlace)
    requires
        s.wants() is ReadAll,
        s.next(Answer::Bytes(Ok(current)), n),
    ensures
        match s.args.base {
            RestoreBase::Version(v) => if v@ == blake3_text(current@) {
                n.wants() == Action::PutBlob(&current)
            } else {
                n.wants() == Action::History(&s.args.path)
            },
            RestoreBase::Absent => n.wants() == Action::History(&s.args.path),
        },
{
}

/// What a restore does once it knows whether there is a file: one that the caller saw
/// gone and that is gone is made anew, and one that is there is opened.
pub proof fn a_restore_opens_what_is_there(states: Seq<RestoreInPlace>, answers: Seq<Answer>, i: int)
    requires
        is_restore_run(states, answers),
        0 <= i < answers.len(),
        states[i].phase is Asking,
    ensures
        states[i].wants() == Action::Exists(&states[0].args.path),
        answers[i] == Answer::Exists(true) ==> states[i + 1].wants() == Action::Open(&states[0].args.path),
        answers[i] == Answer::Exists(false) && states[0].args.base is Absent ==> states[i + 1].wants() == Action::CreateNew(
            &states[0].args.path,
            &states[0].args.bytes,
        ),
{
    assert(states.len() == answers.len() + 1) by {
        reveal(is_restore_run);
    }
    restore_step(states, answers, i + 1);
    restore_keeps_its_args(states, answers, i);
    restore_keeps_its_args(states, answers, i + 1);
}

/// A restore that fails does so for a reason: a person has the document open, the file
/// system or the coordinator refused something, what is there is not what the caller saw,
/// or the directory above is missing.
pub proof fn a_restore_fails_for_a_reason(states: Seq<RestoreInPlace>, answers: Seq<Answer>, i: int, e: ChaprError)
    requires
        is_restore_run(states, answers),
        0 < i < states.len(),
        states[i].phase == RestorePhase::Finished(Err(e)),
    ensures
        match answers[i - 1] {
            Answer::Exists(there) => {
                ||| there && (e matches ChaprError::OfficeLockPresent { path, lock_file } && path == states[0].args.path && states[i
                    - 1].wants() == Action::Exists(&lock_file))
                ||| !there && (e matches ChaprError::ParentMissing { path, parent } && path == states[0].args.path && states[i
                    - 1].wants() == Action::Exists(&parent)) && i >= 2 && answers[i - 2] matches Answer::Done(Err(_))
                ||| there && i >= 2 && (answers[i - 2] matches Answer::Done(Err(_)))
            },
            Answer::Done(r) => r matches Err(io) && e == os_error(states[0].args.path, io),
            Answer::Bytes(r) => r matches Err(io) && e == os_error(states[0].args.path, io),
            Answer::Coord(r) => r == Err::<(), ChaprError>(e),
            Answer::History { .. } => e is Conflict,
            _ => false,
        },
{
    restore_step(states, answers, i);
    restore_keeps_its_args(states, answers, i - 1);
    if states[i - 1].phase is Blaming {
        restore_start(states, answers, i - 1);
        restore_step(states, answers, i - 1);
    }
}

/// An answer to something that was not asked changes nothing.
pub proof fn a_restore_heeds_no_other_answer(s: RestoreInPlace, a: Answer, n: RestoreInPlace)
    requires
        s.next(a, n),
        match s.wants() {
            Action::Exists(_) => !(a is Exists),
            Action::Open(_) | Action::Overwrite(..) | Action::CreateNew(..) => !(a is Done),
            Action::ReadAll(_) => !(a is Bytes),
            Action::History(_) => !(a is History),
            Action::PutBlob(_) | Action::OpenJournal { .. } | Action::ClearJournal(_) => !(a is Coord),
            Action::Close(_) => !(a is Closed),
            _ => true,
        },
    ensures
        n.phase == s.phase,
{
}

/// The version that a conflict names is that of what is there; where there is nothing, it is
/// the version that the caller expected.
pub proof fn a_restore_conflict_names_what_is_there(states: Seq<RestoreInPlace>, answers: Seq<Answer>, i: int)
    requires
        is_restore_run(states, answers),
        0 < i < states.len(),
        answers[i - 1] is History,
    ensures
        i >= 2,
        states[i].phase matches RestorePhase::Finished(Err(ChaprError::Conflict { current_version, .. })) && match answers[i - 2] {
            Answer::Bytes(Ok(current)) => states[i - 2].wants() == Action::ReadAll(&states[0].args.path) && current_version@
                == blake3_text(current@),
            Answer::Exists(there) => !there && states[i - 2].wants() == Action::Exists(&states[0].args.path) && states[0].args.base
                == RestoreBase::Version(current_version),
            _ => false,
        },
{
    restore_step(states, answers, i);
    restore_start(states, answers, i - 1);
    restore_step(states, answers, i - 1);
    restore_keeps_its_args(states, answers, i - 2);
}

/// A file that the caller saw and that is gone is not made anew: the history is asked.
pub proof fn what_was_seen_and_is_gone_is_asked_about(s: RestoreInPlace, seen: VersionToken, n: RestoreInPlace)
    requires
        s.phase is Asking,
        s.args.base == RestoreBase::Version(seen),
        s.next(Answer::Exists(false), n),
    ensures
        n.wants() == Action::History(&s.args.path),
{
}

} // verus!
