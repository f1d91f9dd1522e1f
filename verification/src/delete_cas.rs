//! The soft delete: a file goes, and its contents stay in history.
use vstd::prelude::*;

use crate::backend::{
    attribution, last_writer_of, lock_paths, map_os_err, os_error, went_well, Action, Answer, CommitReceipt,
    DeleteCasArgs,
};
use crate::pathgrammar::{every_owner_file_is_known, grammar_of, PathGrammar};
use crate::proto::{blake3_text, BackendKind, CanonicalPath, ChaprError, Principal, VersionToken};

verus! {

/// Where a delete stands: what it has asked for and not yet been told.
pub enum DeletePhase {
    /// Whether the lock file number `next` exists.
    Preflight { locks: Vec<CanonicalPath>, next: usize },
    /// The exclusive handle.
    Opening,
    /// The current contents.
    Reading,
    /// Who changed the file.
    Attributing { v_now: VersionToken },
    /// The contents stored.
    Storing { v_now: VersionToken, current: Vec<u8> },
    /// The intent noted.
    Journaling { v_now: VersionToken, size: u64 },
    /// The handle closed.
    Closing { v_now: VersionToken, size: u64 },
    /// The file removed.
    Removing { v_now: VersionToken, size: u64 },
    /// The note forgotten.
    Clearing { v_now: VersionToken, size: u64 },
    /// Nothing more.
    Finished(Result<CommitReceipt, ChaprError>),
}

/// A delete on its way.
pub struct DeleteCas {
    /// The kind of fileserver.
    pub kind: BackendKind,
    /// Whether its writes cannot tear.
    pub atomic_writes: bool,
    /// Who deletes.
    pub principal: Principal,
    /// What is to be deleted.
    pub args: DeleteCasArgs,
    /// Where the delete stands.
    pub phase: DeletePhase,
}

/// Whether `p` asks for lock file number `next`, or for the handle where there
/// is none left.
pub open spec fn delete_preflight(locks: Vec<CanonicalPath>, next: int, p: DeletePhase) -> bool {
    if next < locks@.len() {
        p matches DeletePhase::Preflight { locks: l, next: n } && l == locks && n == next
    } else {
        p is Opening
    }
}

/// The receipt of a delete that went through.
pub open spec fn delete_receipt(v_now: VersionToken, size: u64) -> CommitReceipt {
    CommitReceipt { from_version: Some(v_now), to_version: None, size, from_size: None }
}

impl DeleteCas {
    /// Whether the delete is in a state that it can come to: past the version
    /// check, the version found is the one that the caller read.
    pub open spec fn wf(&self) -> bool {
        match self.phase {
            DeletePhase::Preflight { locks, next } => next < locks@.len(),
            DeletePhase::Attributing { v_now } => v_now@ != self.args.base_version@,
            DeletePhase::Storing { v_now, current } => v_now@ == self.args.base_version@
                && v_now@ == blake3_text(current@),
            DeletePhase::Journaling { v_now, size } => v_now@ == self.args.base_version@,
            DeletePhase::Closing { v_now, size } => v_now@ == self.args.base_version@,
            DeletePhase::Removing { v_now, size } => v_now@ == self.args.base_version@,
            DeletePhase::Clearing { v_now, size } => v_now@ == self.args.base_version@,
            _ => true,
        }
    }

    /// A delete at its beginning.
    pub open spec fn started(&self) -> bool {
        exists|locks: Vec<CanonicalPath>|
            locks@.map_values(|p: CanonicalPath| p@) == grammar_of(self.kind).lock_texts(self.args.path@)
                && #[trigger] delete_preflight(locks, 0, self.phase)
    }

    /// Whether an answer is one to what the delete asked for.
    pub open spec fn expects(&self, a: Answer) -> bool {
        match self.phase {
            DeletePhase::Preflight { .. } => a is Exists,
            DeletePhase::Opening => a is Done,
            DeletePhase::Reading => a is Bytes,
            DeletePhase::Attributing { .. } => a is History,
            DeletePhase::Storing { .. } => a is Coord,
            DeletePhase::Journaling { .. } => a is Coord,
            DeletePhase::Closing { .. } => a is Closed,
            DeletePhase::Removing { .. } => a is Done,
            DeletePhase::Clearing { .. } => a is Coord,
            DeletePhase::Finished(_) => false,
        }
    }

    /// Where an answer takes the delete.
    pub open spec fn leads(&self, a: Answer, p: DeletePhase) -> bool {
        match (self.phase, a) {
            (DeletePhase::Preflight { locks, next }, Answer::Exists(there)) => if there {
                p == DeletePhase::Finished(
                    Err(ChaprError::OfficeLockPresent { path: self.args.path, lock_file: locks@[next as int] }),
                )
            } else {
                delete_preflight(locks, next + 1, p)
            },
            (DeletePhase::Opening, Answer::Done(r)) => match r {
                Ok(()) => p is Reading,
                Err(e) => p == DeletePhase::Finished(Err(os_error(self.args.path, e))),
            },
            (DeletePhase::Reading, Answer::Bytes(r)) => match r {
                Ok(current) => if blake3_text(current@) != self.args.base_version@ {
                    p matches DeletePhase::Attributing { v_now } && v_now@ == blake3_text(current@)
                } else {
                    p matches DeletePhase::Storing { v_now, current: c } && v_now@ == blake3_text(current@)
                        && c == current
                },
                Err(e) => p == DeletePhase::Finished(Err(os_error(self.args.path, e))),
            },
            (DeletePhase::Attributing { v_now }, Answer::History { reply, now }) => {
                let (last_writer, when) = attribution(reply, now, self.principal);
                p == DeletePhase::Finished(
                    Err(ChaprError::Conflict {
                        base_path: self.args.path,
                        current_version: v_now,
                        last_writer,
                        when,
                        sidecar_path: None,
                    }),
                )
            },
            (DeletePhase::Storing { v_now, current }, Answer::Coord(r)) => match r {
                Ok(()) => if self.atomic_writes {
                    p == (DeletePhase::Closing { v_now, size: current@.len() as u64 })
                } else {
                    p == (DeletePhase::Journaling { v_now, size: current@.len() as u64 })
                },
                Err(e) => p == DeletePhase::Finished(Err(e)),
            },
            (DeletePhase::Journaling { v_now, size }, Answer::Coord(r)) => match r {
                Ok(()) => p == (DeletePhase::Closing { v_now, size }),
                Err(e) => p == DeletePhase::Finished(Err(e)),
            },
            (DeletePhase::Closing { v_now, size }, Answer::Closed) => p == (DeletePhase::Removing { v_now, size }),
            (DeletePhase::Removing { v_now, size }, Answer::Done(r)) => match r {
                Ok(()) => if self.atomic_writes {
                    p == DeletePhase::Finished(Ok(delete_receipt(v_now, size)))
                } else {
                    p == (DeletePhase::Clearing { v_now, size })
                },
                Err(e) => p == DeletePhase::Finished(Err(os_error(self.args.path, e))),
            },
            // The file is gone: a note left behind is not a failure.
            (DeletePhase::Clearing { v_now, size }, Answer::Coord(_)) => {
                p == DeletePhase::Finished(Ok(delete_receipt(v_now, size)))
            },
            (phase, _) => p == phase,
        }
    }

    /// Whether `n` is this delete one answer later.
    pub open spec fn next(&self, a: Answer, n: DeleteCas) -> bool {
        &&& n.kind == self.kind
        &&& n.atomic_writes == self.atomic_writes
        &&& n.principal == self.principal
        &&& n.args == self.args
        &&& self.leads(a, n.phase)
    }

    /// What the delete needs done.
    pub open spec fn wants(&self) -> Action<'_> {
        match self.phase {
            DeletePhase::Preflight { locks, next } => Action::Exists(&locks@[next as int]),
            DeletePhase::Opening => Action::Open(&self.args.path),
            DeletePhase::Reading => Action::ReadAll(&self.args.path),
            DeletePhase::Attributing { v_now } => Action::History(&self.args.path),
            DeletePhase::Storing { v_now, current } => Action::PutBlob(&current),
            DeletePhase::Journaling { v_now, size } => Action::OpenJournal {
                path: &self.args.path,
                lease_id: &self.args.lease_id,
                principal: &self.principal,
                pre_image_version: &v_now,
                intended_version: None,
            },
            DeletePhase::Closing { v_now, size } => Action::Close(&self.args.path),
            DeletePhase::Removing { v_now, size } => Action::Remove(&self.args.path),
            DeletePhase::Clearing { v_now, size } => Action::ClearJournal(&self.args.path),
            DeletePhase::Finished(_) => Action::Nothing,
        }
    }

    /// A delete at its beginning.
    pub fn begin(kind: BackendKind, atomic_writes: bool, principal: Principal, args: DeleteCasArgs) -> (r: DeleteCas)
        ensures
            r.wf(),
            r.started(),
            r.kind == kind,
            r.atomic_writes == atomic_writes,
            r.principal == principal,
            r.args == args,
    {
        let locks = lock_paths(kind, &args.path);
        let ghost all = locks;
        let phase = if locks.len() > 0 {
            DeletePhase::Preflight { locks, next: 0 }
        } else {
            DeletePhase::Opening
        };
        assert(delete_preflight(all, 0, phase));
        DeleteCas { kind, atomic_writes, principal, args, phase }
    }

    /// What the delete needs done next.
    pub fn action(&self) -> (r: Action<'_>)
        requires
            self.wf(),
        ensures
            r == self.wants(),
    {
        match &self.phase {
            DeletePhase::Preflight { locks, next } => Action::Exists(&locks[*next]),
            DeletePhase::Opening => Action::Open(&self.args.path),
            DeletePhase::Reading => Action::ReadAll(&self.args.path),
            DeletePhase::Attributing { v_now: _ } => Action::History(&self.args.path),
            DeletePhase::Storing { v_now: _, current } => Action::PutBlob(current),
            DeletePhase::Journaling { v_now, size: _ } => Action::OpenJournal {
                path: &self.args.path,
                lease_id: &self.args.lease_id,
                principal: &self.principal,
                pre_image_version: v_now,
                intended_version: None,
            },
            DeletePhase::Closing { v_now: _, size: _ } => Action::Close(&self.args.path),
            DeletePhase::Removing { v_now: _, size: _ } => Action::Remove(&self.args.path),
            DeletePhase::Clearing { v_now: _, size: _ } => Action::ClearJournal(&self.args.path),
            DeletePhase::Finished(_) => Action::Nothing,
        }
    }

    /// What a delete does once it knows the current contents and their version.
    pub fn compare(&self, v_now: VersionToken, current: Vec<u8>) -> (p: DeletePhase)
        ensures
            p == if v_now@ == self.args.base_version@ {
                DeletePhase::Storing { v_now, current }
            } else {
                DeletePhase::Attributing { v_now }
            },
    {
        if v_now.same(&self.args.base_version) {
            DeletePhase::Storing { v_now, current }
        } else {
            DeletePhase::Attributing { v_now }
        }
    }

    /// Moves the delete on by what came of its action. An answer to something
    /// that was not asked changes nothing.
    pub fn advance(self, answer: Answer) -> (n: DeleteCas)
        requires
            self.wf(),
        ensures
            n.wf(),
            self.next(answer, n),
    {
        let mut op = self;
        let mut phase = DeletePhase::Opening;
        std::mem::swap(&mut op.phase, &mut phase);
        let next = match (phase, answer) {
            (DeletePhase::Preflight { locks, next }, Answer::Exists(there)) => {
                let count = locks.len();
                if there {
                    DeletePhase::Finished(
                        Err(ChaprError::OfficeLockPresent { path: op.args.path.clone(), lock_file: locks[next].clone() }),
                    )
                } else if count - next > 1 {
                    DeletePhase::Preflight { locks, next: next + 1 }
                } else {
                    DeletePhase::Opening
                }
            },
            (DeletePhase::Opening, Answer::Done(r)) => match r {
                Ok(()) => DeletePhase::Reading,
                Err(e) => DeletePhase::Finished(Err(map_os_err(&op.args.path, e))),
            },
            (DeletePhase::Reading, Answer::Bytes(r)) => match r {
                Ok(current) => {
                    let v_now = VersionToken::hash(current.as_slice());
                    op.compare(v_now, current)
                },
                Err(e) => DeletePhase::Finished(Err(map_os_err(&op.args.path, e))),
            },
            (DeletePhase::Attributing { v_now }, Answer::History { reply, now }) => {
                let (last_writer, when) = last_writer_of(reply, now, &op.principal);
                DeletePhase::Finished(
                    Err(ChaprError::Conflict {
                        base_path: op.args.path.clone(),
                        current_version: v_now,
                        last_writer,
                        when,
                        sidecar_path: None,
                    }),
                )
            },
            (DeletePhase::Storing { v_now, current }, Answer::Coord(r)) => match r {
                Ok(()) => {
                    let size = current.len() as u64;
                    if op.atomic_writes {
                        DeletePhase::Closing { v_now, size }
                    } else {
                        DeletePhase::Journaling { v_now, size }
                    }
                },
                Err(e) => DeletePhase::Finished(Err(e)),
            },
            (DeletePhase::Journaling { v_now, size }, Answer::Coord(r)) => match r {
                Ok(()) => DeletePhase::Closing { v_now, size },
                Err(e) => DeletePhase::Finished(Err(e)),
            },
            (DeletePhase::Closing { v_now, size }, Answer::Closed) => DeletePhase::Removing { v_now, size },
            (DeletePhase::Removing { v_now, size }, Answer::Done(r)) => match r {
                Ok(()) => if op.atomic_writes {
                    DeletePhase::Finished(
                        Ok(CommitReceipt { from_version: Some(v_now), to_version: None, size, from_size: None }),
                    )
                } else {
                    DeletePhase::Clearing { v_now, size }
                },
                Err(e) => DeletePhase::Finished(Err(map_os_err(&op.args.path, e))),
            },
            (DeletePhase::Clearing { v_now, size }, Answer::Coord(_)) => DeletePhase::Finished(
                Ok(CommitReceipt { from_version: Some(v_now), to_version: None, size, from_size: None }),
            ),
            (phase, _) => phase,
        };
        op.phase = next;
        op
    }
}

/// A delete from its beginning: each state follows from the one before by an
/// answer to what that one asked.
#[verifier::opaque]
pub open spec fn is_delete_run(states: Seq<DeleteCas>, answers: Seq<Answer>) -> bool {
    &&& states.len() == answers.len() + 1
    &&& states[0].started()
    &&& forall|i: int| 0 <= i < answers.len() ==> (#[trigger] states[i]).expects(answers[i])
        && states[i].next(answers[i], states[i + 1])
}

proof fn delete_step(states: Seq<DeleteCas>, answers: Seq<Answer>, i: int)
    requires
        is_delete_run(states, answers),
        0 < i < states.len(),
    ensures
        states[i - 1].expects(answers[i - 1]),
        states[i - 1].next(answers[i - 1], states[i]),
{
    reveal(is_delete_run);
    assert(states[i - 1].expects(answers[i - 1]));
}

proof fn delete_start(states: Seq<DeleteCas>, answers: Seq<Answer>, i: int)
    requires
        is_delete_run(states, answers),
        0 <= i < states.len(),
        !(states[i].phase is Preflight),
        !(states[i].phase is Opening),
    ensures
        i > 0,
{
    reveal(is_delete_run);
}

/// A deleted file can be brought back: when a delete asks for the file to be
/// removed, the contents that it read are the version that its caller read, and
/// they have been stored in history.
pub proof fn removal_is_recoverable(states: Seq<DeleteCas>, answers: Seq<Answer>, i: int)
    requires
        is_delete_run(states, answers),
        0 <= i < states.len(),
        states[i].phase is Removing,
    ensures
        exists|k: int| 0 <= k < i && went_well(answers[k]) && ((#[trigger] states[k]).phase matches DeletePhase::Storing {
            v_now,
            current,
        } && v_now@ == blake3_text(current@) && v_now@ == states[i].args.base_version@),
        !states[i].atomic_writes ==> states[i - 2].phase is Journaling && went_well(answers[i - 2]),
{
    delete_start(states, answers, i);
    delete_step(states, answers, i);
    delete_start(states, answers, i - 1);
    delete_step(states, answers, i - 1);
    let k = if states[i - 2].phase is Storing { i - 2 } else { i - 3 };
    delete_start(states, answers, i - 2);
    delete_step(states, answers, i - 2);
    delete_start(states, answers, k);
    delete_step(states, answers, k);
    assert(states[k].phase is Storing);
    assert(states[k - 1].phase is Reading);
}

/// A delete that failed removed nothing.
pub proof fn failed_delete_removed_nothing(states: Seq<DeleteCas>, answers: Seq<Answer>, i: int, k: int)
    requires
        is_delete_run(states, answers),
        0 <= k < i < states.len(),
        states[i].phase matches DeletePhase::Finished(Err(_)),
        states[k].phase is Removing,
    ensures
        !went_well(answers[k]),
{
    if went_well(answers[k]) {
        delete_step(states, answers, k + 1);
        if k + 1 < i {
            delete_step(states, answers, k + 2);
            if k + 2 < i {
                delete_step(states, answers, k + 3);
            }
        }
    }
}

/// Whether the first `i` steps of a run looked for the lock files `locks` and
/// found none of them.
pub open spec fn delete_locks_clear(states: Seq<DeleteCas>, answers: Seq<Answer>, locks: Vec<CanonicalPath>, i: int) -> bool {
    &&& locks@.map_values(|p: CanonicalPath| p@) == grammar_of(states[0].kind).lock_texts(states[0].args.path@)
    &&& 0 <= i <= locks@.len()
    &&& forall|j: int| 0 <= j < i ==> (#[trigger] answers[j]) == Answer::Exists(false) && states[j].wants() == Action::Exists(&locks@[j])
}

proof fn delete_preflight_so_far(states: Seq<DeleteCas>, answers: Seq<Answer>, i: int) -> (locks: Vec<CanonicalPath>)
    requires
        is_delete_run(states, answers),
        0 <= i < states.len(),
        states[i].phase is Preflight || states[i].phase is Opening,
    ensures
        delete_locks_clear(states, answers, locks, i),
        delete_preflight(locks, i, states[i].phase),
    decreases i,
{
    if i == 0 {
        reveal(is_delete_run);
        let locks = choose|locks: Vec<CanonicalPath>|
            locks@.map_values(|p: CanonicalPath| p@) == grammar_of(states[0].kind).lock_texts(states[0].args.path@)
                && #[trigger] delete_preflight(locks, 0, states[0].phase);
        locks
    } else {
        delete_step(states, answers, i);
        assert(states[i - 1].phase is Preflight);
        let locks = delete_preflight_so_far(states, answers, i - 1);
        assert(answers[i - 1] == Answer::Exists(false));
        assert(states[i - 1].wants() == Action::Exists(&locks@[i - 1]));
        locks
    }
}

/// What comes after the preflight came after a handle was asked for.
proof fn delete_opened_before(states: Seq<DeleteCas>, answers: Seq<Answer>, i: int) -> (k: int)
    requires
        is_delete_run(states, answers),
        0 <= i < states.len(),
        !(states[i].phase is Preflight),
        !(states[i].phase is Finished),
    ensures
        0 <= k <= i,
        states[k].phase is Opening,
    decreases i,
{
    if states[i].phase is Opening {
        i
    } else {
        delete_start(states, answers, i);
        delete_step(states, answers, i);
        delete_opened_before(states, answers, i - 1)
    }
}

/// A person always wins: whatever a delete asks for after its preflight, up to
/// the change itself, it asks for only after every lock file by which a person's
/// program marks the document was looked for and found missing.
pub proof fn a_person_wins_over_a_delete(states: Seq<DeleteCas>, answers: Seq<Answer>, i: int)
    requires
        is_delete_run(states, answers),
        0 <= i < states.len(),
        !(states[i].phase is Preflight),
        !(states[i].phase is Finished),
    ensures
        exists|locks: Vec<CanonicalPath>|
            locks@.len() <= i && #[trigger] delete_locks_clear(states, answers, locks, locks@.len() as int),
{
    let k = delete_opened_before(states, answers, i);
    let locks = delete_preflight_so_far(states, answers, k);
    assert(k == locks@.len());
    assert(delete_locks_clear(states, answers, locks, locks@.len() as int));
}

/// A delete stays what it began as.
proof fn delete_keeps_its_args(states: Seq<DeleteCas>, answers: Seq<Answer>, i: int)
    requires
        is_delete_run(states, answers),
        0 <= i < states.len(),
    ensures
        states[i].args == states[0].args,
        states[i].kind == states[0].kind,
        states[i].principal == states[0].principal,
        states[i].atomic_writes == states[0].atomic_writes,
    decreases i,
{
    if i > 0 {
        delete_step(states, answers, i);
        delete_keeps_its_args(states, answers, i - 1);
    }
}

/// A delete that was told of a conflict says who won: of the history of the file,
/// newest entry first, the first entry names the writer and the time, whatever
/// entries follow; the caller and the present stand in where there is no entry.
pub proof fn a_delete_conflict_names_the_newest_writer(states: Seq<DeleteCas>, answers: Seq<Answer>, i: int)
    requires
        is_delete_run(states, answers),
        0 < i < states.len(),
        answers[i - 1] is History,
    ensures
        states[i - 1].wants() == Action::History(&states[0].args.path),
        match (states[i].phase, answers[i - 1]) {
            (
                DeletePhase::Finished(Err(ChaprError::Conflict { base_path, last_writer, when, sidecar_path, .. })),
                Answer::History { reply, now },
            ) => {
                &&& base_path == states[0].args.path
                &&& sidecar_path is None
                &&& reply matches Ok(entries) ==> entries@.len() > 0 ==> last_writer == entries@[0].writer && when
                    == entries@[0].timestamp
                &&& reply matches Ok(entries) ==> entries@.len() == 0 ==> last_writer == states[0].principal && when == now
                &&& reply is Err ==> last_writer == states[0].principal && when == now
            },
            _ => false,
        },
{
    delete_step(states, answers, i);
    delete_keeps_its_args(states, answers, i - 1);
}

/// Whether one of the first `i` steps of a delete asked for a file of this name and
/// was told that there is none.
pub open spec fn delete_found_missing(states: Seq<DeleteCas>, answers: Seq<Answer>, i: int, file: Seq<char>) -> bool {
    exists|j: int|
        0 <= j < i && answers[j] == Answer::Exists(false) && ((#[trigger] states[j]).wants() matches Action::Exists(p) && p@ == file)
}

/// A delete of a document on a Windows share goes beyond its first questions only if
/// neither owner file of Office is there: not `~$` and the whole name, nor `~$` and
/// the name without its first two characters.
pub proof fn a_delete_looks_for_both_owner_files(states: Seq<DeleteCas>, answers: Seq<Answer>, i: int, dir: Seq<char>, name: Seq<char>)
    requires
        is_delete_run(states, answers),
        0 <= i < states.len(),
        states[0].kind == BackendKind::Smb,
        states[0].args.path@ == dir + name,
        forall|k: int| 0 <= k < name.len() ==> name[k] != '\\',
        dir.len() == 0 || dir.last() == '\\',
        !(states[i].wants() is Exists),
        !(states[i].wants() is Nothing),
    ensures
        delete_found_missing(states, answers, i, dir + seq!['~', '$'] + name),
        name.len() > 2 ==> delete_found_missing(
            states,
            answers,
            i,
            dir + seq!['~', '$'] + name.subrange(2, name.len() as int),
        ),
{
    let k = delete_opened_before(states, answers, i);
    let locks = delete_preflight_so_far(states, answers, k);
    assert(k == locks@.len());
    let texts = locks@.map_values(|p: CanonicalPath| p@);
    let whole = dir + seq!['~', '$'] + name;
    every_owner_file_is_known(dir, name, whole);
    let a = choose|a: int| 0 <= a < texts.len() && texts[a] == whole;
    assert(answers[a] == Answer::Exists(false));
    assert(states[a].wants() == Action::Exists(&locks@[a]));
    if name.len() > 2 {
        let short = dir + seq!['~', '$'] + name.subrange(2, name.len() as int);
        let b = choose|b: int| 0 <= b < texts.len() && texts[b] == short;
        assert(answers[b] == Answer::Exists(false));
        assert(states[b].wants() == Action::Exists(&locks@[b]));
    }
}

/// What a delete has had done when it asks for the file to be removed: the file was
/// opened, read whole, found to be the version that the caller read, and exactly the
/// bytes that were read were stored in history; the intent was noted where a change
/// can tear, and the handle closed. What is removed is the path that was named.
pub proof fn a_removal_was_prepared(states: Seq<DeleteCas>, answers: Seq<Answer>, i: int)
    requires
        is_delete_run(states, answers),
        0 <= i < states.len(),
        states[i].wants() is Remove,
    ensures
        states[i].wants() == Action::Remove(&states[0].args.path),
        ({
            let k = if states[0].atomic_writes { i - 2 } else { i - 3 };
            &&& k >= 2
            &&& states[k - 2].wants() == Action::Open(&states[0].args.path)
            &&& answers[k - 2] matches Answer::Done(Ok(_))
            &&& states[k - 1].wants() == Action::ReadAll(&states[0].args.path)
            &&& answers[k - 1] matches Answer::Bytes(Ok(current)) && states[k].wants() == Action::PutBlob(&current) && blake3_text(
                current@,
            ) == states[0].args.base_version@ && (!states[0].atomic_writes ==> (states[i - 2].wants() matches Action::OpenJournal {
                path,
                lease_id,
                principal,
                pre_image_version,
                intended_version: None,
            } && *path == states[0].args.path && *lease_id == states[0].args.lease_id && *principal == states[0].principal
                && pre_image_version@ == blake3_text(current@)))
            &&& answers[k] matches Answer::Coord(Ok(_))
            &&& answers[i - 2] matches Answer::Coord(Ok(_))
            &&& states[i - 1].wants() == Action::Close(&states[0].args.path)
        }),
{
    delete_start(states, answers, i);
    delete_step(states, answers, i);
    delete_keeps_its_args(states, answers, i);
    delete_keeps_its_args(states, answers, i - 1);
    delete_start(states, answers, i - 1);
    delete_step(states, answers, i - 1);
    delete_keeps_its_args(states, answers, i - 2);
    let k = if states[0].atomic_writes { i - 2 } else { i - 3 };
    delete_start(states, answers, i - 2);
    delete_step(states, answers, i - 2);
    delete_keeps_its_args(states, answers, k);
    assert(states[k].phase is Storing);
    delete_start(states, answers, k);
    delete_step(states, answers, k);
    delete_keeps_its_args(states, answers, k - 1);
    delete_start(states, answers, k - 1);
    delete_step(states, answers, k - 1);
    delete_keeps_its_args(states, answers, k - 2);
}

/// A delete that says it succeeded removed the file, and tells the version and the
/// size of what is gone.
pub proof fn a_delete_receipt_tells_what_is_gone(states: Seq<DeleteCas>, answers: Seq<Answer>, i: int)
    requires
        is_delete_run(states, answers),
        0 <= i < states.len(),
        states[i].phase matches DeletePhase::Finished(Ok(_)),
    ensures
        ({
            let k = if states[0].atomic_writes { i - 1 } else { i - 2 };
            &&& k >= 4
            &&& states[k].wants() == Action::Remove(&states[0].args.path)
            &&& answers[k] matches Answer::Done(Ok(_))
            &&& !states[0].atomic_writes ==> states[i - 1].wants() == Action::ClearJournal(&states[0].args.path)
            &&& states[i].phase matches DeletePhase::Finished(Ok(receipt)) && receipt.to_version is None && receipt.from_size is None
                && (receipt.from_version matches Some(from) && from@ == states[0].args.base_version@)
                && (answers[if states[0].atomic_writes { k - 3 } else { k - 4 }] matches Answer::Bytes(Ok(current)) && receipt.size
                == current@.len() as u64)
        }),
{
    delete_start(states, answers, i);
    delete_step(states, answers, i);
    delete_keeps_its_args(states, answers, i);
    delete_keeps_its_args(states, answers, i - 1);
    let k = if states[0].atomic_writes { i - 1 } else { i - 2 };
    delete_start(states, answers, i - 1);
    delete_step(states, answers, i - 1);
    delete_keeps_its_args(states, answers, k);
    a_removal_was_prepared(states, answers, k);
    delete_start(states, answers, k);
    delete_step(states, answers, k);
    delete_start(states, answers, k - 1);
    delete_step(states, answers, k - 1);
    delete_start(states, answers, k - 2);
    delete_step(states, answers, k - 2);
    if !states[0].atomic_writes {
        delete_step(states, answers, k - 3);
    }
}

/// A delete goes by the version it finds: the contents are stored where they are the
/// ones that the caller read, and where not, the history is asked who changed them.
pub proof fn a_delete_goes_by_the_version(s: DeleteCas, current: Vec<u8>, n: DeleteCas)
    requires
        s.wants() is ReadAll,
        s.next(Answer::Bytes(Ok(current)), n),
    ensures
        blake3_text(current@) == s.args.base_version@ ==> n.wants() == Action::PutBlob(&current),
        blake3_text(current@) != s.args.base_version@ ==> n.wants() == Action::History(&s.args.path),
{
}

/// A delete that fails does so for a reason: a person has the document open, the
/// file system or the coordinator refused something, or the file changed.
pub proof fn a_delete_fails_for_a_reason(states: Seq<DeleteCas>, answers: Seq<Answer>, i: int, e: ChaprError)
    requires
        is_delete_run(states, answers),
        0 < i < states.len(),
        states[i].phase == DeletePhase::Finished(Err(e)),
    ensures
        match answers[i - 1] {
            Answer::Exists(there) => there && (e matches ChaprError::OfficeLockPresent { path, lock_file } && path == states[0].args.path
                && states[i - 1].wants() == Action::Exists(&lock_file)),
            Answer::Done(r) => r matches Err(io) && e == os_error(states[0].args.path, io),
            Answer::Bytes(r) => r matches Err(io) && e == os_error(states[0].args.path, io),
            Answer::Coord(r) => r == Err::<(), ChaprError>(e),
            Answer::History { .. } => e is Conflict,
            _ => false,
        },
{
    delete_step(states, answers, i);
    delete_keeps_its_args(states, answers, i - 1);
}

/// An answer to something that was not asked changes nothing.
pub proof fn a_delete_heeds_no_other_answer(s: DeleteCas, a: Answer, n: DeleteCas)
    requires
        s.next(a, n),
        match s.wants() {
            Action::Exists(_) => !(a is Exists),
            Action::Open(_) | Action::Remove(_) => !(a is Done),
            Action::ReadAll(_) => !(a is Bytes),
            Action::History(_) => !(a is History),
            Action::PutBlob(_) | Action::OpenJournal { .. } | Action::ClearJournal(_) => !(a is Coord),
            Action::Close(_) => !(a is Closed),
            _ => true,
        },
    ensures
        n.phase == s.phase,
{
}

/// The version that a conflict names is that of what is there: of the bytes that were read.
pub proof fn a_delete_conflict_names_what_is_there(states: Seq<DeleteCas>, answers: Seq<Answer>, i: int)
    requires
        is_delete_run(states, answers),
        0 < i < states.len(),
        answers[i - 1] is History,
    ensures
        i >= 2,
        states[i - 2].wants() == Action::ReadAll(&states[0].args.path),
        states[i].phase matches DeletePhase::Finished(Err(ChaprError::Conflict { current_version, .. })) && (answers[i - 2] matches Answer::Bytes(
            Ok(current),
        ) && current_version@ == blake3_text(current@) && current_version@ != states[0].args.base_version@),
{
    delete_step(states, answers, i);
    delete_start(states, answers, i - 1);
    delete_step(states, answers, i - 1);
    delete_keeps_its_args(states, answers, i - 2);
}

} // verus!
