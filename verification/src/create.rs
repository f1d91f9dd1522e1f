//! Operations that make a new name: creating a file, putting a restored copy
//! beside a live one, making a directory.
//!
//! None of them can overwrite anything. What they share is the question that
//! follows a failure: whether the name is missing or the directory above it.
use vstd::prelude::*;

use crate::backend::{
    lock_paths, map_os_err, os_error, parent_of, parent_text, went_well, Action, Answer, CommitReceipt, IoFailure,
    IoKind, MAX_PRE_IMAGE_BYTES,
};
use crate::pathgrammar::{
    every_owner_file_is_known, grammar_for, grammar_of, is_short_id, is_stamp, restored_path, restored_text, PathGrammar,
};
use crate::proto::{blake3_text, BackendKind, CanonicalPath, ChaprError, VersionToken};
use crate::text::{decimal, decimal_text, own};

verus! {

/// What a failure to make a name leads to: where the system says that something
/// is missing and the name has a directory above it, that directory is asked for.
pub enum Blame {
    /// The directory to ask for, and the failure.
    Ask { parent: CanonicalPath, failure: IoFailure },
    /// The failure is what it says.
    Plain(ChaprError),
}

/// What a failure to make `path` leads to.
pub open spec fn blames(kind: BackendKind, path: CanonicalPath, e: IoFailure, b: Blame) -> bool {
    match parent_text(path@, grammar_of(kind).sep_char()) {
        Some(dir) if e.kind == IoKind::NotFound => b matches Blame::Ask { parent, failure } && parent@ == dir
            && failure == e,
        _ => b == Blame::Plain(os_error(path, e)),
    }
}

/// What the answer about the directory makes of the failure.
pub open spec fn blamed(path: CanonicalPath, parent: CanonicalPath, failure: IoFailure, there: bool) -> ChaprError {
    if there {
        os_error(path, failure)
    } else {
        ChaprError::ParentMissing { path, parent }
    }
}

/// What a failure to make `path` leads to.
pub fn create_err(kind: BackendKind, path: &CanonicalPath, e: IoFailure) -> (b: Blame)
    ensures
        blames(kind, *path, e, b),
{
    if e.kind == IoKind::NotFound {
        if let Some(parent) = parent_of(kind, path) {
            return Blame::Ask { parent, failure: e };
        }
    }
    Blame::Plain(map_os_err(path, e))
}

/// Tells of the failure once it is known whether the directory is there.
pub fn create_err_told(path: &CanonicalPath, parent: CanonicalPath, failure: IoFailure, there: bool) -> (r: ChaprError)
    ensures
        r == blamed(*path, parent, failure, there),
{
    if there {
        map_os_err(path, failure)
    } else {
        ChaprError::ParentMissing { path: path.clone(), parent }
    }
}

/// Where a creation stands.
pub enum CreatePhase {
    /// Whether the lock file number `next` exists.
    Preflight { locks: Vec<CanonicalPath>, next: usize },
    /// The new file.
    Creating,
    /// Whether the directory above exists, the creation having failed.
    Blaming { parent: CanonicalPath, failure: IoFailure },
    /// The new contents stored.
    Storing,
    /// Nothing more.
    Finished(Result<CommitReceipt, ChaprError>),
}

/// A creation of a file on its way.
pub struct Create {
    /// The kind of fileserver.
    pub kind: BackendKind,
    /// The file.
    pub path: CanonicalPath,
    /// What it is to hold.
    pub content: Vec<u8>,
    /// Where the creation stands.
    pub phase: CreatePhase,
}

pub open spec fn create_too_large(len: nat) -> Seq<char> {
    "content is "@ + decimal_text(len) + " bytes; the coordinator accepts at most "@
        + decimal_text(MAX_PRE_IMAGE_BYTES as nat)
}

/// Whether `p` asks for lock file number `next`, or for the file itself where
/// there is none left.
pub open spec fn create_preflight(locks: Vec<CanonicalPath>, next: int, p: CreatePhase) -> bool {
    if next < locks@.len() {
        p matches CreatePhase::Preflight { locks: l, next: n } && l == locks && n == next
    } else {
        p is Creating
    }
}

impl Create {
    /// Whether the creation is in a state that it can come to.
    pub open spec fn wf(&self) -> bool {
        match self.phase {
            CreatePhase::Preflight { locks, next } => next < locks@.len(),
            _ => true,
        }
    }

    /// A creation at its beginning. Contents that history could not take are
    /// refused at once.
    pub open spec fn started(&self) -> bool {
        if self.content@.len() > MAX_PRE_IMAGE_BYTES {
            self.phase matches CreatePhase::Finished(Err(ChaprError::Io { path, message })) && path == self.path
                && message@ == create_too_large(self.content@.len())
        } else {
            exists|locks: Vec<CanonicalPath>|
                locks@.map_values(|p: CanonicalPath| p@) == grammar_of(self.kind).lock_texts(self.path@)
                    && #[trigger] create_preflight(locks, 0, self.phase)
        }
    }

    /// Whether an answer is one to what the creation asked for.
    pub open spec fn expects(&self, a: Answer) -> bool {
        match self.phase {
            CreatePhase::Preflight { .. } => a is Exists,
            CreatePhase::Creating => a is Done,
            CreatePhase::Blaming { .. } => a is Exists,
            CreatePhase::Storing => a is Coord,
            CreatePhase::Finished(_) => false,
        }
    }

    /// Where an answer takes the creation.
    pub open spec fn leads(&self, a: Answer, p: CreatePhase) -> bool {
        match (self.phase, a) {
            (CreatePhase::Preflight { locks, next }, Answer::Exists(there)) => if there {
                p == CreatePhase::Finished(
                    Err(ChaprError::OfficeLockPresent { path: self.path, lock_file: locks@[next as int] }),
                )
            } else {
                create_preflight(locks, next + 1, p)
            },
            (CreatePhase::Creating, Answer::Done(r)) => match r {
                Ok(()) => p is Storing,
                Err(e) => exists|b: Blame| #[trigger] blames(self.kind, self.path, e, b) && match b {
                    Blame::Ask { parent, failure } => p == (CreatePhase::Blaming { parent, failure }),
                    Blame::Plain(e) => p == CreatePhase::Finished(Err(e)),
                },
            },
            (CreatePhase::Blaming { parent, failure }, Answer::Exists(there)) => {
                p == CreatePhase::Finished(Err(blamed(self.path, parent, failure, there)))
            },
            // The file is there either way: a copy missing from history is not a failure.
            (CreatePhase::Storing, Answer::Coord(_)) => {
                p matches CreatePhase::Finished(Ok(receipt)) && {
                    &&& receipt.from_version is None
                    &&& receipt.to_version matches Some(v) && v@ == blake3_text(self.content@)
                    &&& receipt.size == self.content@.len() as u64
                    &&& receipt.from_size is None
                }
            },
            (phase, _) => p == phase,
        }
    }

    /// Whether `n` is this creation one answer later.
    pub open spec fn next(&self, a: Answer, n: Create) -> bool {
        &&& n.kind == self.kind
        &&& n.path == self.path
        &&& n.content == self.content
        &&& self.leads(a, n.phase)
    }

    /// What the creation needs done.
    pub open spec fn wants(&self) -> Action<'_> {
        match self.phase {
            CreatePhase::Preflight { locks, next } => Action::Exists(&locks@[next as int]),
            CreatePhase::Creating => Action::CreateNew(&self.path, &self.content),
            CreatePhase::Blaming { parent, failure } => Action::Exists(&parent),
            CreatePhase::Storing => Action::PutBlob(&self.content),
            CreatePhase::Finished(_) => Action::Nothing,
        }
    }

    /// A creation at its beginning.
    pub fn begin(kind: BackendKind, path: CanonicalPath, content: Vec<u8>) -> (r: Create)
        ensures
            r.wf(),
            r.started(),
            r.kind == kind,
            r.path == path,
            r.content == content,
    {
        if content.len() > MAX_PRE_IMAGE_BYTES {
            let mut message = own("content is ");
            message.append(decimal(content.len() as u64).as_str());
            message.append(" bytes; the coordinator accepts at most ");
            message.append(decimal(MAX_PRE_IMAGE_BYTES as u64).as_str());
            let phase = CreatePhase::Finished(Err(ChaprError::Io { path: path.clone(), message }));
            return Create { kind, path, content, phase };
        }
        let locks = lock_paths(kind, &path);
        let ghost all = locks;
        let phase = if locks.len() > 0 {
            CreatePhase::Preflight { locks, next: 0 }
        } else {
            CreatePhase::Creating
        };
        assert(create_preflight(all, 0, phase));
        Create { kind, path, content, phase }
    }

    /// What the creation needs done next.
    pub fn action(&self) -> (r: Action<'_>)
        requires
            self.wf(),
        ensures
            r == self.wants(),
    {
        match &self.phase {
            CreatePhase::Preflight { locks, next } => Action::Exists(&locks[*next]),
            CreatePhase::Creating => Action::CreateNew(&self.path, &self.content),
            CreatePhase::Blaming { parent, failure: _ } => Action::Exists(parent),
            CreatePhase::Storing => Action::PutBlob(&self.content),
            CreatePhase::Finished(_) => Action::Nothing,
        }
    }

    /// Moves the creation on by what came of its action. An answer to something
    /// that was not asked changes nothing.
    pub fn advance(self, answer: Answer) -> (n: Create)
        requires
            self.wf(),
        ensures
            n.wf(),
            self.next(answer, n),
    {
        let mut op = self;
        let mut phase = CreatePhase::Creating;
        std::mem::swap(&mut op.phase, &mut phase);
        let next = match (phase, answer) {
            (CreatePhase::Preflight { locks, next }, Answer::Exists(there)) => {
                let count = locks.len();
                if there {
                    CreatePhase::Finished(
                        Err(ChaprError::OfficeLockPresent { path: op.path.clone(), lock_file: locks[next].clone() }),
                    )
                } else if count - next > 1 {
                    CreatePhase::Preflight { locks, next: next + 1 }
                } else {
                    CreatePhase::Creating
                }
            },
            (CreatePhase::Creating, Answer::Done(r)) => match r {
                Ok(()) => CreatePhase::Storing,
                Err(e) => match create_err(op.kind, &op.path, e) {
                    Blame::Ask { parent, failure } => CreatePhase::Blaming { parent, failure },
                    Blame::Plain(e) => CreatePhase::Finished(Err(e)),
                },
            },
            (CreatePhase::Blaming { parent, failure }, Answer::Exists(there)) => CreatePhase::Finished(
                Err(create_err_told(&op.path, parent, failure, there)),
            ),
            (CreatePhase::Storing, Answer::Coord(_)) => CreatePhase::Finished(
                Ok(
                    CommitReceipt {
                        from_version: None,
                        to_version: Some(VersionToken::hash(op.content.as_slice())),
                        size: op.content.len() as u64,
                        from_size: None,
                    },
                ),
            ),
            (phase, _) => phase,
        };
        op.phase = next;
        op
    }
}

/// A creation reports success exactly when the file was made: the step that
/// makes it is the only one that can lead to a receipt, and once it is made no
/// later answer can turn that into a failure.
pub proof fn created_means_created(s: Create, a: Answer, n: Create)
    requires
        s.wf(),
        s.expects(a),
        s.next(a, n),
    ensures
        n.phase is Storing <==> s.phase is Creating && went_well(a),
        n.phase matches CreatePhase::Finished(Ok(_)) <==> s.phase is Storing,
{
}

/// Where the system says that something is missing, a creation asks for the
/// directory above, and blames that directory exactly where it is not there.
pub proof fn missing_directory_is_named(s: Create, e: IoFailure, m: Create, there: bool, n: Create)
    requires
        s.phase is Creating,
        e.kind == IoKind::NotFound,
        parent_text(s.path@, grammar_of(s.kind).sep_char()) is Some,
        s.next(Answer::Done(Err(e)), m),
        m.next(Answer::Exists(there), n),
    ensures
        m.wants() matches Action::Exists(dir) && Some(dir@) == parent_text(s.path@, grammar_of(s.kind).sep_char()),
        n.phase matches CreatePhase::Finished(Err(r)) && if there {
            r == os_error(s.path, e)
        } else {
            r matches ChaprError::ParentMissing { path, parent } && path == s.path
                && Some(parent@) == parent_text(s.path@, grammar_of(s.kind).sep_char())
        },
{
}

/// A creation from its beginning: each state follows from the one before by an
/// answer to what that one asked.
#[verifier::opaque]
pub open spec fn is_create_run(states: Seq<Create>, answers: Seq<Answer>) -> bool {
    &&& states.len() == answers.len() + 1
    &&& states[0].started()
    &&& forall|i: int| 0 <= i < answers.len() ==> (#[trigger] states[i]).expects(answers[i])
        && states[i].next(answers[i], states[i + 1])
}

/// Whether the first `i` steps of a run looked for the lock files `locks` and
/// found none of them.
pub open spec fn create_locks_clear(states: Seq<Create>, answers: Seq<Answer>, locks: Vec<CanonicalPath>, i: int) -> bool {
    &&& locks@.map_values(|p: CanonicalPath| p@) == grammar_of(states[0].kind).lock_texts(states[0].path@)
    &&& 0 <= i <= locks@.len()
    &&& forall|j: int| 0 <= j < i ==> (#[trigger] answers[j]) == Answer::Exists(false) && states[j].wants() == Action::Exists(&locks@[j])
}

proof fn create_preflight_so_far(states: Seq<Create>, answers: Seq<Answer>, i: int) -> (locks: Vec<CanonicalPath>)
    requires
        is_create_run(states, answers),
        0 <= i < states.len(),
        states[i].phase is Preflight || states[i].phase is Creating,
    ensures
        create_locks_clear(states, answers, locks, i),
        create_preflight(locks, i, states[i].phase),
    decreases i,
{
    reveal(is_create_run);
    if i == 0 {
        let locks = choose|locks: Vec<CanonicalPath>|
            locks@.map_values(|p: CanonicalPath| p@) == grammar_of(states[0].kind).lock_texts(states[0].path@)
                && #[trigger] create_preflight(locks, 0, states[0].phase);
        locks
    } else {
        assert(states[i - 1].expects(answers[i - 1]));
        assert(states[i - 1].phase is Preflight);
        let locks = create_preflight_so_far(states, answers, i - 1);
        assert(answers[i - 1] == Answer::Exists(false));
        assert(states[i - 1].wants() == Action::Exists(&locks@[i - 1]));
        locks
    }
}

/// A person always wins: a creation asks for the file only after every lock file
/// by which a person's program marks a document of that name was looked for and
/// found missing.
pub proof fn a_person_wins_over_a_creation(states: Seq<Create>, answers: Seq<Answer>, i: int)
    requires
        is_create_run(states, answers),
        0 <= i < states.len(),
        states[i].phase is Creating,
    ensures
        exists|locks: Vec<CanonicalPath>| #[trigger] create_locks_clear(states, answers, locks, i) && i == locks@.len(),
{
    let locks = create_preflight_so_far(states, answers, i);
    assert(create_locks_clear(states, answers, locks, i));
}

/// Where a restored copy stands.
pub enum CopyPhase {
    /// The new file.
    Creating,
    /// Nothing more.
    Finished(Result<CanonicalPath, ChaprError>),
}

/// A restored copy on its way.
pub struct RestoreCopy {
    /// The file to be made.
    pub restored: CanonicalPath,
    /// What it is to hold.
    pub bytes: Vec<u8>,
    /// Where the copy stands.
    pub phase: CopyPhase,
}

impl RestoreCopy {
    /// Where an answer takes the copy.
    pub open spec fn leads(&self, a: Answer, p: CopyPhase) -> bool {
        match (self.phase, a) {
            (CopyPhase::Creating, Answer::Done(r)) => match r {
                Ok(()) => p == CopyPhase::Finished(Ok(self.restored)),
                Err(e) => p == CopyPhase::Finished(Err(os_error(self.restored, e))),
            },
            (phase, _) => p == phase,
        }
    }

    /// What the copy needs done.
    pub open spec fn wants(&self) -> Action<'_> {
        match self.phase {
            CopyPhase::Creating => Action::CreateNew(&self.restored, &self.bytes),
            CopyPhase::Finished(_) => Action::Nothing,
        }
    }

    /// A copy of `bytes` beside `path`, under a fresh name.
    pub fn begin(kind: BackendKind, path: &CanonicalPath, bytes: Vec<u8>) -> (r: RestoreCopy)
        ensures
            r.phase is Creating,
            r.bytes == bytes,
            exists|stamp: Seq<char>, id: Seq<char>|
                is_stamp(stamp) && is_short_id(id) && r.restored@ == #[trigger] restored_text(&grammar_of(kind), path@, stamp, id),
    {
        let restored = restored_path(&grammar_for(kind), path);
        RestoreCopy { restored, bytes, phase: CopyPhase::Creating }
    }

    /// What the copy needs done next.
    pub fn action(&self) -> (r: Action<'_>)
        ensures
            r == self.wants(),
    {
        match &self.phase {
            CopyPhase::Creating => Action::CreateNew(&self.restored, &self.bytes),
            CopyPhase::Finished(_) => Action::Nothing,
        }
    }

    /// Moves the copy on by what came of its action.
    pub fn advance(self, answer: Answer) -> (n: RestoreCopy)
        ensures
            n.restored == self.restored,
            n.bytes == self.bytes,
            self.leads(answer, n.phase),
    {
        let mut op = self;
        let mut phase = CopyPhase::Creating;
        std::mem::swap(&mut op.phase, &mut phase);
        let next = match (phase, answer) {
            (CopyPhase::Creating, Answer::Done(r)) => match r {
                Ok(()) => CopyPhase::Finished(Ok(op.restored.clone())),
                Err(e) => CopyPhase::Finished(Err(map_os_err(&op.restored, e))),
            },
            (phase, _) => phase,
        };
        op.phase = next;
        op
    }
}

/// Where the making of a directory stands.
pub enum MkdirPhase {
    /// Whether something is there already.
    Asking,
    /// The directory.
    Making,
    /// Whether the directory above exists, the making having failed.
    Blaming { parent: CanonicalPath, failure: IoFailure },
    /// Nothing more.
    Finished(Result<(), ChaprError>),
}

/// The making of a directory on its way.
pub struct MakeDir {
    /// The kind of fileserver.
    pub kind: BackendKind,
    /// The directory.
    pub path: CanonicalPath,
    /// Where the making stands.
    pub phase: MkdirPhase,
}

impl MakeDir {
    /// Where an answer takes the making.
    pub open spec fn leads(&self, a: Answer, p: MkdirPhase) -> bool {
        match (self.phase, a) {
            (MkdirPhase::Asking, Answer::Exists(there)) => if there {
                p == MkdirPhase::Finished(Err(ChaprError::AlreadyExists { path: self.path }))
            } else {
                p is Making
            },
            (MkdirPhase::Making, Answer::Done(r)) => match r {
                Ok(()) => p matches MkdirPhase::Finished(Ok(_)),
                Err(e) => exists|b: Blame| #[trigger] blames(self.kind, self.path, e, b) && match b {
                    Blame::Ask { parent, failure } => p == (MkdirPhase::Blaming { parent, failure }),
                    Blame::Plain(e) => p == MkdirPhase::Finished(Err(e)),
                },
            },
            (MkdirPhase::Blaming { parent, failure }, Answer::Exists(there)) => {
                p == MkdirPhase::Finished(Err(blamed(self.path, parent, failure, there)))
            },
            (phase, _) => p == phase,
        }
    }

    /// What the making needs done.
    pub open spec fn wants(&self) -> Action<'_> {
        match self.phase {
            MkdirPhase::Asking => Action::Exists(&self.path),
            MkdirPhase::Making => Action::CreateDir(&self.path),
            MkdirPhase::Blaming { parent, failure } => Action::Exists(&parent),
            MkdirPhase::Finished(_) => Action::Nothing,
        }
    }

    /// The making of one directory, at its beginning.
    pub fn begin(kind: BackendKind, path: CanonicalPath) -> (r: MakeDir)
        ensures
            r.kind == kind,
            r.path == path,
            r.phase is Asking,
    {
        MakeDir { kind, path, phase: MkdirPhase::Asking }
    }

    /// What the making needs done next.
    pub fn action(&self) -> (r: Action<'_>)
        ensures
            r == self.wants(),
    {
        match &self.phase {
            MkdirPhase::Asking => Action::Exists(&self.path),
            MkdirPhase::Making => Action::CreateDir(&self.path),
            MkdirPhase::Blaming { parent, failure: _ } => Action::Exists(parent),
            MkdirPhase::Finished(_) => Action::Nothing,
        }
    }

    /// Moves the making on by what came of its action.
    pub fn advance(self, answer: Answer) -> (n: MakeDir)
        ensures
            n.kind == self.kind,
            n.path == self.path,
            self.leads(answer, n.phase),
    {
        let mut op = self;
        let mut phase = MkdirPhase::Asking;
        std::mem::swap(&mut op.phase, &mut phase);
        let next = match (phase, answer) {
            (MkdirPhase::Asking, Answer::Exists(there)) => if there {
                MkdirPhase::Finished(Err(ChaprError::AlreadyExists { path: op.path.clone() }))
            } else {
                MkdirPhase::Making
            },
            (MkdirPhase::Making, Answer::Done(r)) => match r {
                Ok(()) => MkdirPhase::Finished(Ok(())),
                Err(e) => match create_err(op.kind, &op.path, e) {
                    Blame::Ask { parent, failure } => MkdirPhase::Blaming { parent, failure },
                    Blame::Plain(e) => MkdirPhase::Finished(Err(e)),
                },
            },
            (MkdirPhase::Blaming { parent, failure }, Answer::Exists(there)) => MkdirPhase::Finished(
                Err(create_err_told(&op.path, parent, failure, there)),
            ),
            (phase, _) => phase,
        };
        op.phase = next;
        op
    }
}

proof fn create_step(states: Seq<Create>, answers: Seq<Answer>, i: int)
    requires
        is_create_run(states, answers),
        0 < i < states.len(),
    ensures
        states[i - 1].expects(answers[i - 1]),
        states[i - 1].next(answers[i - 1], states[i]),
        states.len() == answers.len() + 1,
{
    reveal(is_create_run);
    assert(states[i - 1].expects(answers[i - 1]));
}

/// A creation stays what it began as.
proof fn create_keeps_its_args(states: Seq<Create>, answers: Seq<Answer>, i: int)
    requires
        is_create_run(states, answers),
        0 <= i < states.len(),
    ensures
        states[i].path == states[0].path,
        states[i].kind == states[0].kind,
        states[i].content == states[0].content,
    decreases i,
{
    if i > 0 {
        create_step(states, answers, i);
        create_keeps_its_args(states, answers, i - 1);
    }
}

/// What comes after the preflight came after the file was asked for.
proof fn create_asked_before(states: Seq<Create>, answers: Seq<Answer>, i: int) -> (k: int)
    requires
        is_create_run(states, answers),
        0 <= i < states.len(),
        !(states[i].phase is Preflight),
        !(states[i].phase is Finished),
    ensures
        0 <= k <= i,
        states[k].phase is Creating,
    decreases i,
{
    if states[i].phase is Creating {
        i
    } else {
        if i == 0 {
            reveal(is_create_run);
        }
        create_step(states, answers, i);
        create_asked_before(states, answers, i - 1)
    }
}

/// Whether one of the first `i` steps of a creation asked for a file of this name and
/// was told that there is none.
pub open spec fn creation_found_missing(states: Seq<Create>, answers: Seq<Answer>, i: int, file: Seq<char>) -> bool {
    exists|j: int|
        0 <= j < i && answers[j] == Answer::Exists(false) && ((#[trigger] states[j]).wants() matches Action::Exists(p) && p@ == file)
}

/// A creation of a document on a Windows share goes beyond its first questions only if
/// neither owner file of Office is there: not `~$` and the whole name, nor `~$` and
/// the name without its first two characters.
pub proof fn a_creation_looks_for_both_owner_files(states: Seq<Create>, answers: Seq<Answer>, i: int, dir: Seq<char>, name: Seq<char>)
    requires
        is_create_run(states, answers),
        0 <= i < states.len(),
        states[0].kind == BackendKind::Smb,
        states[0].path@ == dir + name,
        forall|k: int| 0 <= k < name.len() ==> name[k] != '\\',
        dir.len() == 0 || dir.last() == '\\',
        !(states[i].phase is Preflight),
        !(states[i].wants() is Nothing),
    ensures
        creation_found_missing(states, answers, i, dir + seq!['~', '$'] + name),
        name.len() > 2 ==> creation_found_missing(
            states,
            answers,
            i,
            dir + seq!['~', '$'] + name.subrange(2, name.len() as int),
        ),
{
    let k = create_asked_before(states, answers, i);
    let locks = create_preflight_so_far(states, answers, k);
    assert(k == locks@.len());
    let texts = locks@.map_values(|p: CanonicalPath| p@);
    let whole = dir + seq!['~', '$'] + name;
    every_owner_file_is_known(dir, name, whole);
    let a = choose|a: int| 0 <= a < texts.len() && texts[a] == whole;
    assert(answers[a] == Answer::Exists(false));
    assert(states[a].wants() == Action::Exists(&locks@[a]));
    if name.len() > 2 {
        let short = dir + seq!['~', '$'] + name.subrange(2, name.len() as int);
        let b = choose|b: int| 0 <= b < texts.len() && texts[b] == short;
        assert(answers[b] == Answer::Exists(false));
        assert(states[b].wants() == Action::Exists(&locks@[b]));
    }
}

/// A creation that says it succeeded made a new file of the path that was named,
/// holding what was submitted, and had the same bytes stored in history; its receipt
/// tells their version and size, and that there was nothing before.
pub proof fn a_creation_receipt_tells_what_was_made(states: Seq<Create>, answers: Seq<Answer>, i: int)
    requires
        is_create_run(states, answers),
        0 <= i < states.len(),
        states[i].phase matches CreatePhase::Finished(Ok(_)),
    ensures
        i >= 2,
        states[i - 2].wants() == Action::CreateNew(&states[0].path, &states[0].content),
        answers[i - 2] matches Answer::Done(Ok(_)),
        states[i - 1].wants() == Action::PutBlob(&states[0].content),
        states[i].phase matches CreatePhase::Finished(Ok(receipt)) && receipt.from_version is None && receipt.from_size is None
            && receipt.size == states[0].content@.len() as u64 && (receipt.to_version matches Some(v) && v@ == blake3_text(
            states[0].content@,
        )),
        states[0].content@.len() <= 268435456,
{
    if i <= 1 {
        reveal(is_create_run);
    }
    create_step(states, answers, i);
    create_step(states, answers, i - 1);
    create_keeps_its_args(states, answers, i - 1);
    create_keeps_its_args(states, answers, i - 2);
    create_began_small(states, answers, i - 2);
}

proof fn create_began_small(states: Seq<Create>, answers: Seq<Answer>, i: int)
    requires
        is_create_run(states, answers),
        0 <= i < states.len(),
        !(states[i].phase is Finished),
    ensures
        states[0].content@.len() <= 268435456,
    decreases i,
{
    if i == 0 {
        reveal(is_create_run);
    } else {
        create_step(states, answers, i);
        create_began_small(states, answers, i - 1);
    }
}

/// A creation that fails does so for a reason: what was submitted is too large for
/// history, a person has a document of that name open, or the file system refused;
/// where it was the directory that is missing, that directory is named.
pub proof fn a_creation_fails_for_a_reason(states: Seq<Create>, answers: Seq<Answer>, i: int, e: ChaprError)
    requires
        is_create_run(states, answers),
        0 <= i < states.len(),
        states[i].phase == CreatePhase::Finished(Err(e)),
    ensures
        i == 0 ==> states[0].content@.len() > 268435456,
        i > 0 ==> match answers[i - 1] {
            Answer::Exists(there) => {
                ||| there && (e matches ChaprError::OfficeLockPresent { path, lock_file } && path == states[0].path && states[i - 1].wants()
                    == Action::Exists(&lock_file))
                ||| !there && (e matches ChaprError::ParentMissing { path, parent } && path == states[0].path && states[i - 1].wants()
                    == Action::Exists(&parent)) && i >= 2 && answers[i - 2] matches Answer::Done(Err(_))
                ||| i >= 2 && (answers[i - 2] matches Answer::Done(Err(_))) && there
            },
            Answer::Done(r) => r matches Err(io) && e == os_error(states[0].path, io),
            _ => false,
        },
{
    if i == 0 {
        reveal(is_create_run);
    } else {
        create_step(states, answers, i);
        create_keeps_its_args(states, answers, i - 1);
        if states[i - 1].phase is Blaming {
            if i == 1 {
                reveal(is_create_run);
            }
            create_step(states, answers, i - 1);
        }
    }
}

/// A copy is made under its own new name from the bytes that were asked for, and that
/// name is told once it is made.
pub proof fn a_copy_is_of_the_bytes(s: RestoreCopy, a: Answer, n: RestoreCopy)
    requires
        s.phase is Creating,
        n.restored == s.restored,
        n.bytes == s.bytes,
        s.leads(a, n.phase),
    ensures
        s.wants() == Action::CreateNew(&s.restored, &s.bytes),
        a matches Answer::Done(Ok(_)) ==> n.phase == CopyPhase::Finished(Ok(s.restored)),
        n.phase matches CopyPhase::Finished(Ok(_)) ==> a matches Answer::Done(Ok(_)),
{
}

/// A directory is made where there is nothing, and is refused where there is
/// something; making it is reported exactly when it was made.
pub proof fn a_directory_is_made_once(s: MakeDir, a: Answer, n: MakeDir)
    requires
        n.kind == s.kind,
        n.path == s.path,
        s.leads(a, n.phase),
    ensures
        s.phase is Asking ==> s.wants() == Action::Exists(&s.path),
        s.phase is Asking && a == Answer::Exists(true) ==> n.phase == MkdirPhase::Finished(
            Err(ChaprError::AlreadyExists { path: s.path }),
        ),
        s.phase is Asking && a == Answer::Exists(false) ==> n.wants() == Action::CreateDir(&s.path),
        !(s.phase is Finished) ==> ((n.phase matches MkdirPhase::Finished(Ok(_))) <==> s.wants() == Action::CreateDir(&s.path)
            && (a matches Answer::Done(Ok(_)))),
        s.wants() is CreateDir ==> s.wants() == Action::CreateDir(&s.path),
{
}

/// A name that is taken is told as taken, and every failure but a missing name is told at
/// once for what it is: no directory is asked for.
pub proof fn other_failures_are_told_at_once(s: Create, e: IoFailure, n: Create)
    requires
        s.wants() is CreateNew,
        e.kind != IoKind::NotFound,
        s.next(Answer::Done(Err(e)), n),
    ensures
        n.phase == CreatePhase::Finished(Err(os_error(s.path, e))),
        e.kind == IoKind::AlreadyExists ==> n.phase == CreatePhase::Finished(Err(ChaprError::AlreadyExists { path: s.path })),
{
}

/// The same of a directory; and where the name is missing, it is the directory above that
/// is asked for, and blamed exactly where it is not there.
pub proof fn a_missing_parent_is_named(s: MakeDir, e: IoFailure, m: MakeDir, there: bool, n: MakeDir, dir: Seq<char>)
    requires
        s.phase is Making,
        m.path == s.path,
        m.kind == s.kind,
        s.leads(Answer::Done(Err(e)), m.phase),
        n.path == m.path,
        n.kind == m.kind,
        m.leads(Answer::Exists(there), n.phase),
        parent_text(s.path@, grammar_of(s.kind).sep_char()) == Some(dir),
    ensures
        e.kind != IoKind::NotFound ==> m.phase == MkdirPhase::Finished(Err(os_error(s.path, e))),
        e.kind == IoKind::NotFound ==> (m.wants() matches Action::Exists(p) && p@ == dir),
        e.kind == IoKind::NotFound && !there ==> (n.phase matches MkdirPhase::Finished(Err(ChaprError::ParentMissing { path, parent }))
            && path == s.path && parent@ == dir),
        e.kind == IoKind::NotFound && there ==> n.phase == MkdirPhase::Finished(Err(ChaprError::NotFound { path: s.path })),
{
}

/// An answer to something that was not asked changes nothing.
pub proof fn a_creation_heeds_no_other_answer(s: Create, a: Answer, n: Create)
    requires
        s.next(a, n),
        match s.wants() {
            Action::Exists(_) => !(a is Exists),
            Action::CreateNew(..) => !(a is Done),
            Action::PutBlob(_) => !(a is Coord),
            _ => true,
        },
    ensures
        n.phase == s.phase,
{
}

} // verus!
