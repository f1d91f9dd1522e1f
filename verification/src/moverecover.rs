//! Finishing the moves that an earlier run left half done.
//!
//! A move notes its intent before it renames. Where the note outlived the move,
//! the file itself tells how far the move came: a source that is still there was
//! never renamed, and a destination that holds exactly the version noted was.
use vstd::prelude::*;

use crate::backend::{map_os_err, os_error, Action, Answer, IoFailure, IoKind};
use crate::canon::{continues, is_confined, is_under, is_within_roots, under_is_continuing};
use crate::pathgrammar::{grammar_for, grammar_of, PathGrammar};
use crate::proto::{
    blake3_text, BackendKind, CanonicalPath, ChaprError, FileStat, PreImage, Principal, SessionId, VersionToken,
};
use crate::text::own;

verus! {

/// The note of a move.
#[derive(Debug, PartialEq, Eq)]
pub struct MoveJournalEntry {
    /// Where the file was.
    pub src: CanonicalPath,
    /// Where it was to go.
    pub dst: CanonicalPath,
    /// Who moved it.
    pub principal: Principal,
    /// The version that moved.
    pub version: VersionToken,
    /// Its size.
    pub size: u64,
    /// Whether something was to be replaced.
    pub overwrite: bool,
    /// What was to be replaced.
    pub dst_pre_image: Option<PreImage>,
}

impl Clone for MoveJournalEntry {
    fn clone(&self) -> (r: Self)
        ensures
            r == *self,
    {
        let dst_pre_image = match &self.dst_pre_image {
            Some(p) => Some(p.clone()),
            None => None,
        };
        MoveJournalEntry {
            src: self.src.clone(),
            dst: self.dst.clone(),
            principal: self.principal.clone(),
            version: self.version.clone(),
            size: self.size,
            overwrite: self.overwrite,
            dst_pre_image,
        }
    }
}

/// What became of a half-done move.
#[derive(Debug, PartialEq, Eq)]
pub enum Outcome {
    /// It had renamed, and the coordinator's records now follow.
    Completed,
    /// It had not renamed, and its note is gone.
    Abandoned,
    /// Nobody but a person can tell.
    NeedsHuman(String),
    /// It is outside the coordinated roots.
    NotOurs,
}

/// What a sweep over the half-done moves came to.
#[derive(Debug, PartialEq, Eq)]
pub struct Report {
    /// How many were completed.
    pub completed: usize,
    /// How many were abandoned.
    pub abandoned: usize,
    /// Those that need a person, and why.
    pub needs_human: Vec<(MoveJournalEntry, String)>,
    /// How many were not ours.
    pub not_ours: usize,
    /// Those that could not be finished this time, and why.
    pub failed: Vec<(MoveJournalEntry, ChaprError)>,
}

impl Report {
    /// How many moves the report is about.
    pub open spec fn total(&self) -> nat {
        (self.completed + self.abandoned + self.needs_human@.len() + self.not_ours + self.failed@.len()) as nat
    }

    /// A report about nothing.
    pub fn new() -> (r: Report)
        ensures
            r.total() == 0,
            r.completed == 0 && r.abandoned == 0 && r.not_ours == 0,
            r.needs_human@.len() == 0,
            r.failed@.len() == 0,
    {
        Report { completed: 0, abandoned: 0, needs_human: Vec::new(), not_ours: 0, failed: Vec::new() }
    }

    /// Whether the report is about nothing.
    pub fn is_empty(&self) -> (r: bool)
        ensures
            r == (self.total() == 0),
    {
        self.completed == 0 && self.abandoned == 0 && self.needs_human.len() == 0 && self.not_ours == 0
            && self.failed.len() == 0
    }

    /// This report with one more move in it.
    pub open spec fn counted(&self, entry: MoveJournalEntry, r: Result<Outcome, ChaprError>, n: Report) -> bool {
        &&& n.completed == self.completed + if r matches Ok(Outcome::Completed) { 1int } else { 0int }
        &&& n.abandoned == self.abandoned + if r matches Ok(Outcome::Abandoned) { 1int } else { 0int }
        &&& n.not_ours == self.not_ours + if r matches Ok(Outcome::NotOurs) { 1int } else { 0int }
        &&& n.needs_human@ == match r {
            Ok(Outcome::NeedsHuman(why)) => self.needs_human@.push((entry, why)),
            _ => self.needs_human@,
        }
        &&& n.failed@ == match r {
            Err(e) => self.failed@.push((entry, e)),
            _ => self.failed@,
        }
    }

    /// Counts what became of one move.
    pub fn count(&mut self, entry: MoveJournalEntry, r: Result<Outcome, ChaprError>)
        requires
            old(self).total() < usize::MAX,
        ensures
            old(self).counted(entry, r, *final(self)),
            final(self).total() == old(self).total() + 1,
    {
        match r {
            Ok(Outcome::Completed) => {
                self.completed = self.completed + 1;
            },
            Ok(Outcome::Abandoned) => {
                self.abandoned = self.abandoned + 1;
            },
            Ok(Outcome::NotOurs) => {
                self.not_ours = self.not_ours + 1;
            },
            Ok(Outcome::NeedsHuman(why)) => {
                self.needs_human.push((entry, why));
            },
            Err(e) => {
                self.failed.push((entry, e));
            },
        }
    }
}

/// Where the resolution of a half-done move stands.
pub enum ResolvePhase {
    /// Whether the source is still there.
    CheckingSrc,
    /// The note forgotten.
    Clearing,
    /// The contents of the destination.
    ReadingDst,
    /// The coordinator's records carried over.
    Migrating,
    /// Nothing more.
    Finished(Result<Outcome, ChaprError>),
}

/// The resolution of a half-done move on its way.
pub struct Resolve {
    /// Who resolves it.
    pub principal: Principal,
    /// In which session.
    pub session_id: SessionId,
    /// The note of the move.
    pub entry: MoveJournalEntry,
    /// Where the resolution stands.
    pub phase: ResolvePhase,
}

pub open spec fn nowhere_text(src: Seq<char>, dst: Seq<char>) -> Seq<char> {
    "neither "@ + src + " nor "@ + dst + " exists; the file is not where either name says"@
}

pub open spec fn rewritten_text(dst: Seq<char>, now: Seq<char>, noted: Seq<char>) -> Seq<char> {
    dst + " holds "@ + now + " but the interrupted move recorded "@ + noted
        + "; it has been written since, so completing the migration would record a version the file no longer has"@
}

/// Whether both ends of a move lie within the roots.
pub open spec fn is_ours(kind: BackendKind, roots: Seq<CanonicalPath>, entry: MoveJournalEntry) -> bool {
    let sep = grammar_of(kind).sep_char();
    is_confined(entry.src@, roots, sep) && is_confined(entry.dst@, roots, sep)
}

impl Resolve {
    /// Where an answer takes the resolution.
    pub open spec fn leads(&self, a: Answer, p: ResolvePhase) -> bool {
        match (self.phase, a) {
            (ResolvePhase::CheckingSrc, Answer::Stat(r)) => if r is Ok {
                p is Clearing
            } else {
                p is ReadingDst
            },
            (ResolvePhase::Clearing, Answer::Coord(r)) => match r {
                Ok(()) => p == ResolvePhase::Finished(Ok(Outcome::Abandoned)),
                Err(e) => p == ResolvePhase::Finished(Err(e)),
            },
            (ResolvePhase::ReadingDst, Answer::Bytes(r)) => match r {
                Ok(bytes) => if blake3_text(bytes@) == self.entry.version@ {
                    p is Migrating
                } else {
                    p matches ResolvePhase::Finished(Ok(Outcome::NeedsHuman(why)))
                        && why@ == rewritten_text(self.entry.dst@, blake3_text(bytes@), self.entry.version@)
                },
                Err(e) => if e.kind == IoKind::NotFound {
                    p matches ResolvePhase::Finished(Ok(Outcome::NeedsHuman(why)))
                        && why@ == nowhere_text(self.entry.src@, self.entry.dst@)
                } else {
                    p == ResolvePhase::Finished(Err(os_error(self.entry.dst, e)))
                },
            },
            (ResolvePhase::Migrating, Answer::Coord(r)) => match r {
                Ok(()) => p == ResolvePhase::Finished(Ok(Outcome::Completed)),
                Err(e) => p == ResolvePhase::Finished(Err(e)),
            },
            (phase, _) => p == phase,
        }
    }

    /// Whether `n` is this resolution one answer later.
    pub open spec fn next(&self, a: Answer, n: Resolve) -> bool {
        &&& n.principal == self.principal
        &&& n.session_id == self.session_id
        &&& n.entry == self.entry
        &&& self.leads(a, n.phase)
    }

    /// What the resolution needs done.
    pub open spec fn wants(&self) -> Action<'_> {
        match self.phase {
            ResolvePhase::CheckingSrc => Action::Stat(&self.entry.src),
            ResolvePhase::Clearing => Action::ClearMove(&self.entry.src),
            ResolvePhase::ReadingDst => Action::Read(&self.entry.dst),
            ResolvePhase::Migrating => Action::MovePaths {
                src: &self.entry.src,
                dst: &self.entry.dst,
                version: &self.entry.version,
                size: self.entry.size,
                overwrite: self.entry.overwrite,
                principal: &self.principal,
                session_id: &self.session_id,
                dst_pre_image: match self.entry.dst_pre_image {
                    Some(p) => Some(&p),
                    None => None,
                },
            },
            ResolvePhase::Finished(_) => Action::Nothing,
        }
    }

    /// What the resolution needs done next.
    pub fn action(&self) -> (r: Action<'_>)
        ensures
            r == self.wants(),
    {
        match &self.phase {
            ResolvePhase::CheckingSrc => Action::Stat(&self.entry.src),
            ResolvePhase::Clearing => Action::ClearMove(&self.entry.src),
            ResolvePhase::ReadingDst => Action::Read(&self.entry.dst),
            ResolvePhase::Migrating => Action::MovePaths {
                src: &self.entry.src,
                dst: &self.entry.dst,
                version: &self.entry.version,
                size: self.entry.size,
                overwrite: self.entry.overwrite,
                principal: &self.principal,
                session_id: &self.session_id,
                dst_pre_image: self.entry.dst_pre_image.as_ref(),
            },
            ResolvePhase::Finished(_) => Action::Nothing,
        }
    }

    /// What a resolution does once it knows the version at the destination.
    pub fn judge(&self, now: &VersionToken) -> (p: ResolvePhase)
        ensures
            if now@ == self.entry.version@ {
                p is Migrating
            } else {
                p matches ResolvePhase::Finished(Ok(Outcome::NeedsHuman(why)))
                    && why@ == rewritten_text(self.entry.dst@, now@, self.entry.version@)
            },
    {
        if now.same(&self.entry.version) {
            return ResolvePhase::Migrating;
        }
        let mut why = own(self.entry.dst.as_str());
        why.append(" holds ");
        why.append(now.as_str());
        why.append(" but the interrupted move recorded ");
        why.append(self.entry.version.as_str());
        why.append("; it has been written since, so completing the migration would record a version the file no longer has");
        ResolvePhase::Finished(Ok(Outcome::NeedsHuman(why)))
    }

    /// Moves the resolution on by what came of its action.
    pub fn advance(self, answer: Answer) -> (n: Resolve)
        ensures
            self.next(answer, n),
    {
        let mut op = self;
        let mut phase = ResolvePhase::CheckingSrc;
        std::mem::swap(&mut op.phase, &mut phase);
        let next = match (phase, answer) {
            (ResolvePhase::CheckingSrc, Answer::Stat(r)) => match r {
                Ok(_) => ResolvePhase::Clearing,
                Err(_) => ResolvePhase::ReadingDst,
            },
            (ResolvePhase::Clearing, Answer::Coord(r)) => match r {
                Ok(()) => ResolvePhase::Finished(Ok(Outcome::Abandoned)),
                Err(e) => ResolvePhase::Finished(Err(e)),
            },
            (ResolvePhase::ReadingDst, Answer::Bytes(r)) => match r {
                Ok(bytes) => op.judge(&VersionToken::hash(bytes.as_slice())),
                Err(e) => if e.kind == IoKind::NotFound {
                    let mut why = own("neither ");
                    why.append(op.entry.src.as_str());
                    why.append(" nor ");
                    why.append(op.entry.dst.as_str());
                    why.append(" exists; the file is not where either name says");
                    ResolvePhase::Finished(Ok(Outcome::NeedsHuman(why)))
                } else {
                    ResolvePhase::Finished(Err(map_os_err(&op.entry.dst, e)))
                },
            },
            (ResolvePhase::Migrating, Answer::Coord(r)) => match r {
                Ok(()) => ResolvePhase::Finished(Ok(Outcome::Completed)),
                Err(e) => ResolvePhase::Finished(Err(e)),
            },
            (phase, _) => phase,
        };
        op.phase = next;
        op
    }
}

/// The resolution of a half-done move. One that reaches outside the roots at
/// either end is left alone.
pub fn resolve_one(
    kind: BackendKind,
    roots: &[CanonicalPath],
    principal: &Principal,
    session_id: &SessionId,
    entry: &MoveJournalEntry,
) -> (r: Resolve)
    ensures
        r.principal == *principal,
        r.session_id == *session_id,
        r.entry == *entry,
        if is_ours(kind, roots@, *entry) {
            r.phase is CheckingSrc
        } else {
            r.phase == ResolvePhase::Finished(Ok(Outcome::NotOurs))
        },
{
    let sep = grammar_for(kind).sep();
    let ours = is_within_roots(entry.src.as_str(), roots, sep) && is_within_roots(entry.dst.as_str(), roots, sep);
    let phase = if ours {
        ResolvePhase::CheckingSrc
    } else {
        ResolvePhase::Finished(Ok(Outcome::NotOurs))
    };
    Resolve { principal: principal.clone(), session_id: session_id.clone(), entry: entry.clone(), phase }
}

/// A sweep over the half-done moves on its way.
pub struct Sweep {
    /// The kind of fileserver.
    pub kind: BackendKind,
    /// Who sweeps.
    pub principal: Principal,
    /// In which session.
    pub session_id: SessionId,
    /// The notes found.
    pub entries: Vec<MoveJournalEntry>,
    /// How many of them are done with.
    pub done: usize,
    /// What became of those.
    pub report: Report,
    /// The one being resolved.
    pub current: Option<Resolve>,
}

impl Sweep {
    /// Whether the sweep is in a state that it can come to: the report is about
    /// exactly the moves that are done with, and a move that is being resolved
    /// is the next one, and not done.
    pub open spec fn wf(&self) -> bool {
        &&& self.done <= self.entries@.len()
        &&& self.report.total() == self.done
        &&& match self.current {
            Some(r) => self.done < self.entries@.len() && r.entry == self.entries@[self.done as int] && !(r.phase is Finished),
            None => self.done == self.entries@.len(),
        }
    }

    /// Whether the sweep is over.
    pub fn is_over(&self) -> (r: bool)
        requires
            self.wf(),
        ensures
            r == (self.done == self.entries@.len()),
    {
        self.current.is_none()
    }

    /// Takes up the next move that is not settled by where it lies.
    fn settle(&mut self, roots: &[CanonicalPath])
        requires
            old(self).done <= old(self).entries@.len(),
            old(self).report.total() == old(self).done,
            old(self).current is None,
        ensures
            final(self).wf(),
            settled(*old(self), roots@, *final(self)),
    {
        let ghost start = *self;
        while self.done < self.entries.len()
            invariant
                start == *old(self),
                self.done <= self.entries@.len(),
                self.report.total() == self.done,
                self.current is None,
                passed_over(start, roots@, *self),
            decreases self.entries@.len() - self.done,
        {
            let r = resolve_one(self.kind, roots, &self.principal, &self.session_id, &self.entries[self.done]);
            if !matches!(r.phase, ResolvePhase::Finished(_)) {
                self.current = Some(r);
                return;
            }
            let entry = self.entries[self.done].clone();
            self.report.count(entry, Ok(Outcome::NotOurs));
            self.done = self.done + 1;
        }
    }

    /// What an answer makes of the sweep: it moves the current resolution on,
    /// and where that is over with it, counts it and takes up the next.
    pub open spec fn follows(&self, roots: Seq<CanonicalPath>, a: Answer, n: Sweep) -> bool {
        match self.current {
            None => n == *self,
            Some(r) => exists|r2: Resolve| #[trigger] r.next(a, r2) && match r2.phase {
                ResolvePhase::Finished(result) => exists|report: Report|
                    self.report.counted(r.entry, result, report) && #[trigger] settled(
                        Sweep { done: (self.done + 1) as usize, report, current: None, ..*self },
                        roots,
                        n,
                    ),
                _ => n == (Sweep { current: Some(r2), ..*self }),
            },
        }
    }

    /// Moves the sweep on by what came of the action of the move being resolved.
    pub fn advance(&mut self, roots: &[CanonicalPath], answer: Answer)
        requires
            old(self).wf(),
        ensures
            final(self).wf(),
            old(self).follows(roots@, answer, *final(self)),
    {
        let count = self.entries.len();
        let current = self.current.take();
        if let Some(r) = current {
            let ghost was = r;
            let n = r.advance(answer);
            assert(was.next(answer, n));
            if !matches!(n.phase, ResolvePhase::Finished(_)) {
                self.current = Some(n);
                return;
            }
            match n.phase {
                ResolvePhase::Finished(result) => {
                    self.report.count(n.entry, result);
                    self.done = self.done + 1;
                    let ghost mid = *self;
                    self.settle(roots);
                    assert(settled(mid, roots@, *self));
                    assert(mid == (Sweep { done: (old(self).done + 1) as usize, report: mid.report, current: None, ..*old(self) }));
                },
                _ => {},
            }
        }
    }
}

/// Whether `n` is the sweep `s` with the moves that it came past counted as
/// somebody else's, every one of which reaches outside the roots.
pub open spec fn passed_over(s: Sweep, roots: Seq<CanonicalPath>, n: Sweep) -> bool {
    &&& n.kind == s.kind
    &&& n.principal == s.principal
    &&& n.session_id == s.session_id
    &&& n.entries == s.entries
    &&& s.done <= n.done <= s.entries@.len()
    &&& n.report.completed == s.report.completed
    &&& n.report.abandoned == s.report.abandoned
    &&& n.report.needs_human@ == s.report.needs_human@
    &&& n.report.not_ours == s.report.not_ours + (n.done - s.done)
    &&& n.report.failed@ == s.report.failed@
    &&& forall|i: int| s.done <= i < n.done ==> !is_ours(s.kind, roots, #[trigger] s.entries@[i])
}

/// Whether `n` is the sweep `s` with the next move taken up that lies within
/// the roots.
pub open spec fn settled(s: Sweep, roots: Seq<CanonicalPath>, n: Sweep) -> bool {
    &&& passed_over(s, roots, n)
    &&& match n.current {
        None => n.done == s.entries@.len(),
        Some(r) => r.phase is CheckingSrc && r.entry == s.entries@[n.done as int] && r.principal == s.principal
            && r.session_id == s.session_id && is_ours(s.kind, roots, r.entry),
    }
}

/// A sweep over the notes that the coordinator holds.
pub fn sweep(
    kind: BackendKind,
    roots: &[CanonicalPath],
    principal: Principal,
    session_id: SessionId,
    entries: Vec<MoveJournalEntry>,
) -> (r: Sweep)
    ensures
        r.wf(),
        r.kind == kind,
        r.entries == entries,
        exists|report: Report| report.total() == 0 && #[trigger] settled(
            Sweep { kind, principal, session_id, entries, done: 0, report, current: None },
            roots@,
            r,
        ),
{
    let mut s = Sweep { kind, principal, session_id, entries, done: 0, report: Report::new(), current: None };
    let ghost start = s;
    s.settle(roots);
    assert(settled(start, roots@, s));
    s
}

/// A sweep that is over has an outcome for every note.
pub proof fn every_note_is_accounted_for(s: Sweep)
    requires
        s.wf(),
        s.current is None,
    ensures
        s.report.total() == s.entries@.len(),
{
}

/// The coordinator's records follow a move only where the source is gone and the
/// destination holds exactly the version noted.
pub proof fn only_a_real_rename_is_completed(s: Resolve, a: Answer, n: Resolve)
    requires
        s.next(a, n),
        n.phase is Migrating,
        !(s.phase is Migrating),
    ensures
        s.phase is ReadingDst,
        a matches Answer::Bytes(Ok(bytes)) && blake3_text(bytes@) == s.entry.version@,
{
}

/// The note of a move is dropped only where its source is still there.
pub proof fn only_an_unrenamed_move_is_abandoned(s: Resolve, a: Answer, n: Resolve)
    requires
        s.next(a, n),
        n.phase is Clearing,
        !(s.phase is Clearing),
    ensures
        s.phase is CheckingSrc,
        a matches Answer::Stat(Ok(_)),
{
}

/// A half-done move is resolved by looking first for its source. A source that is still
/// there means that nothing was renamed: the note is dropped, and nothing else is done.
/// Otherwise the destination is read.
pub proof fn the_source_is_looked_for_first(s: Resolve, r: Result<FileStat, IoFailure>, m: Resolve, c: Result<(), ChaprError>, n: Resolve)
    requires
        s.phase is CheckingSrc,
        s.next(Answer::Stat(r), m),
        m.next(Answer::Coord(c), n),
    ensures
        s.wants() == Action::Stat(&s.entry.src),
        r is Ok ==> m.wants() == Action::ClearMove(&s.entry.src) && match c {
            Ok(_) => n.phase == ResolvePhase::Finished(Ok(Outcome::Abandoned)),
            Err(e) => n.phase == ResolvePhase::Finished(Err(e)),
        },
        r is Err ==> m.wants() == Action::Read(&s.entry.dst),
{
}

/// A destination that holds exactly the version that was noted is where the file went: the
/// records are carried over as the note says, and the move is complete. One that holds
/// anything else, or is missing as well, is left to a person, and nothing is carried over.
pub proof fn a_renamed_file_takes_its_records_along(s: Resolve, r: Result<Vec<u8>, IoFailure>, m: Resolve, c: Result<(), ChaprError>, n: Resolve)
    requires
        s.phase is ReadingDst,
        s.next(Answer::Bytes(r), m),
        m.next(Answer::Coord(c), n),
    ensures
        r matches Ok(bytes) ==> (blake3_text(bytes@) == s.entry.version@ ==> (m.wants() matches Action::MovePaths {
            src,
            dst,
            version,
            size,
            overwrite,
            principal,
            session_id,
            dst_pre_image,
        } && *src == s.entry.src && *dst == s.entry.dst && *version == s.entry.version && size == s.entry.size && overwrite
            == s.entry.overwrite && *principal == s.principal && *session_id == s.session_id && (s.entry.dst_pre_image is None
            <==> dst_pre_image is None) && (s.entry.dst_pre_image matches Some(p) ==> dst_pre_image == Some(&p))) && match c {
            Ok(_) => n.phase == ResolvePhase::Finished(Ok(Outcome::Completed)),
            Err(e) => n.phase == ResolvePhase::Finished(Err(e)),
        }),
        r matches Ok(bytes) ==> (blake3_text(bytes@) != s.entry.version@ ==> m.phase matches ResolvePhase::Finished(
            Ok(Outcome::NeedsHuman(_)),
        )),
        r matches Err(e) ==> (e.kind == IoKind::NotFound ==> m.phase matches ResolvePhase::Finished(Ok(Outcome::NeedsHuman(_)))),
        r matches Err(e) ==> (e.kind != IoKind::NotFound ==> m.phase matches ResolvePhase::Finished(Err(_))),
{
}

/// A move is ours exactly where both of its ends are roots or lie below one; without roots
/// every move is.
pub proof fn a_move_is_ours_by_both_ends(kind: BackendKind, roots: Seq<CanonicalPath>, entry: MoveJournalEntry)
    ensures
        ({
            let sep = grammar_of(kind).sep_char();
            is_ours(kind, roots, entry) <==> roots.len() == 0 || ((exists|i: int|
                0 <= i < roots.len() && continues(entry.src@, #[trigger] roots[i]@, sep)) && (exists|i: int|
                0 <= i < roots.len() && continues(entry.dst@, #[trigger] roots[i]@, sep)))
        }),
{
    let sep = grammar_of(kind).sep_char();
    assert forall|i: int, p: Seq<char>| 0 <= i < roots.len() implies #[trigger] is_under(p, roots[i]@, sep) == #[trigger] continues(
        p,
        roots[i]@,
        sep,
    ) by {
        under_is_continuing(p, roots[i]@, sep);
    }
    if is_confined(entry.src@, roots, sep) && roots.len() > 0 {
        let i = choose|i: int| 0 <= i < roots.len() && is_under(entry.src@, #[trigger] roots[i]@, sep);
        assert(continues(entry.src@, roots[i]@, sep));
    }
    if is_confined(entry.dst@, roots, sep) && roots.len() > 0 {
        let i = choose|i: int| 0 <= i < roots.len() && is_under(entry.dst@, #[trigger] roots[i]@, sep);
        assert(continues(entry.dst@, roots[i]@, sep));
    }
    if exists|i: int| 0 <= i < roots.len() && continues(entry.src@, #[trigger] roots[i]@, sep) {
        let i = choose|i: int| 0 <= i < roots.len() && continues(entry.src@, #[trigger] roots[i]@, sep);
        assert(is_under(entry.src@, roots[i]@, sep));
    }
    if exists|i: int| 0 <= i < roots.len() && continues(entry.dst@, #[trigger] roots[i]@, sep) {
        let i = choose|i: int| 0 <= i < roots.len() && continues(entry.dst@, #[trigger] roots[i]@, sep);
        assert(is_under(entry.dst@, roots[i]@, sep));
    }
}

/// One more move in a report is counted once, for what became of it; one that a person has
/// to see, or that failed, stands there itself, behind those before it.
pub proof fn a_move_is_counted_once(s: Report, entry: MoveJournalEntry, r: Result<Outcome, ChaprError>, n: Report)
    requires
        s.counted(entry, r, n),
    ensures
        n.total() == s.total() + 1,
        n.completed > s.completed <==> r matches Ok(Outcome::Completed),
        n.abandoned > s.abandoned <==> r matches Ok(Outcome::Abandoned),
        n.not_ours > s.not_ours <==> r matches Ok(Outcome::NotOurs),
        r matches Ok(Outcome::NeedsHuman(why)) ==> n.needs_human@.last() == (entry, why) && n.needs_human@.drop_last()
            == s.needs_human@,
        r matches Err(e) ==> n.failed@.last() == (entry, e) && n.failed@.drop_last() == s.failed@,
{
    if let Ok(Outcome::NeedsHuman(why)) = r {
        assert(n.needs_human@.drop_last() =~= s.needs_human@);
    }
    if let Err(e) = r {
        assert(n.failed@.drop_last() =~= s.failed@);
    }
}

/// A sweep takes the notes up in their order, and resolves every one that is ours: what it
/// comes past is somebody else's and counted as that, and what it takes up is ours, beginning
/// with its source.
pub proof fn a_sweep_takes_up_what_is_ours(s: Sweep, roots: Seq<CanonicalPath>, n: Sweep, i: int)
    requires
        settled(s, roots, n),
    ensures
        s.done <= i < n.done ==> !is_ours(s.kind, roots, s.entries@[i]),
        n.report.not_ours == s.report.not_ours + (n.done - s.done),
        n.report.completed == s.report.completed,
        n.report.abandoned == s.report.abandoned,
        n.current matches Some(r) ==> r.entry == s.entries@[n.done as int] && is_ours(s.kind, roots, r.entry) && r.wants()
            == Action::Stat(&r.entry.src),
        n.current is None ==> n.done == s.entries@.len(),
{
}

/// A move that is resolved is counted for what became of it, and the sweep goes on behind it.
pub proof fn a_resolved_move_is_counted(s: Sweep, r: Resolve, roots: Seq<CanonicalPath>, a: Answer, n: Sweep)
    requires
        s.wf(),
        s.current == Some(r),
        s.follows(roots, a, n),
    ensures
        exists|next: Resolve| #[trigger] r.next(a, next) && match next.phase {
            ResolvePhase::Finished(Ok(Outcome::Completed)) => n.report.completed == s.report.completed + 1 && n.done > s.done,
            ResolvePhase::Finished(Ok(Outcome::Abandoned)) => n.report.abandoned == s.report.abandoned + 1 && n.done > s.done,
            ResolvePhase::Finished(Ok(Outcome::NeedsHuman(why))) => n.report.needs_human@ == s.report.needs_human@.push((r.entry, why))
                && n.done > s.done,
            ResolvePhase::Finished(Err(e)) => n.report.failed@ == s.report.failed@.push((r.entry, e)) && n.done > s.done,
            ResolvePhase::Finished(_) => n.done > s.done,
            _ => n.current == Some(next) && n.done == s.done,
        },
{
    assert(s.entries.len() == s.entries@.len());
    let next = choose|next: Resolve| #[trigger] r.next(a, next) && match next.phase {
        ResolvePhase::Finished(result) => exists|report: Report|
            s.report.counted(r.entry, result, report) && #[trigger] settled(
                Sweep { done: (s.done + 1) as usize, report, current: None, ..s },
                roots,
                n,
            ),
        _ => n == (Sweep { current: Some(next), ..s }),
    };
    assert(r.next(a, next));
}

} // verus!
