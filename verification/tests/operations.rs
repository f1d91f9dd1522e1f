//! The operations, driven against a share and a coordinator held in memory.
use chapr_endpoint::backend::{
    Action, Answer, CommitReceipt, DeleteCasArgs, HistoryEntry, IoFailure, IoKind, MoveCasArgs, MoveReceipt,
    RestoreInPlaceArgs, WriteCasArgs, MAX_PRE_IMAGE_BYTES,
};
use chapr_endpoint::create::{Create, CreatePhase, MakeDir, MkdirPhase};
use chapr_endpoint::delete_cas::{DeleteCas, DeletePhase};
use chapr_endpoint::envelope::{answer_read, ContentEncoding, ReadAnswer, DEFAULT_MAX_INLINE_BYTES};
use chapr_endpoint::mount::NoMountTable;
use chapr_endpoint::move_cas::{MoveCas, MovePhase};
use chapr_endpoint::moverecover::{resolve_one, sweep, MoveJournalEntry, Outcome, Resolve, ResolvePhase};
use chapr_endpoint::ops::{
    create, delete, mkdir, mv, restore, CreateVerb, CreateVerbPhase, DeleteVerb, DeleteVerbPhase, MkdirVerb,
    MkdirVerbPhase, MoveVerb, MoveVerbPhase, RestoreVerb, RestoreVerbPhase,
};
use chapr_endpoint::proto::{
    AuditKind, BackendDescriptor, BackendKind, CanonicalPath, ChaprError, EntryType, FileStat, JournalState, LeaseId,
    PreImage, Principal, RawDirEntry, RecoveredFrom, Resolved, RestoreBase, RestoreMode, SessionId, Timestamp,
    VersionToken, WriteMode,
};
use chapr_endpoint::read::{
    announces_other, list, read, stat, Integrity, List, ListPhase, Read, ReadConfig, ReadContent, ReadPhase,
    ReadResponse, Stat, StatPhase,
};
use chapr_endpoint::restore_in_place::{RestoreInPlace, RestorePhase};
use chapr_endpoint::server::{write_request, WriteArgs};
use chapr_endpoint::write::{WriteVerb, WriteVerbPhase};
use chapr_endpoint::write_cas::{Verdict, WriteCas, WritePhase};
use std::collections::{BTreeMap, BTreeSet};

fn path(s: &str) -> CanonicalPath {
    CanonicalPath::new_unchecked(s.to_string())
}

fn who() -> Principal {
    Principal::new_unchecked("CONTOSO\\tester".to_string())
}

fn sess() -> SessionId {
    SessionId::new_unchecked("sess-test".to_string())
}

fn lease() -> LeaseId {
    LeaseId::new_unchecked("lease-test".to_string())
}

fn hash(b: &[u8]) -> VersionToken {
    VersionToken::hash(b)
}

fn now() -> Timestamp {
    Timestamp("2026-08-03T12:00:00Z".to_string())
}

fn failure(kind: IoKind, message: &str) -> IoFailure {
    IoFailure { kind, os_code: None, message: message.to_string() }
}

/// A share and a coordinator.
#[derive(Default)]
struct World {
    files: BTreeMap<String, Vec<u8>>,
    dirs: BTreeSet<String>,
    blobs: BTreeMap<String, Vec<u8>>,
    /// Every question to the coordinator, by its name.
    calls: Vec<String>,
    /// The questions that the coordinator answers with this failure.
    failing: BTreeMap<&'static str, &'static str>,
    /// The coordinator does not answer at all.
    down: bool,
    /// The answers about the state of a path, the last one staying.
    states: Vec<Resolved>,
    interrupted: Option<(VersionToken, Option<VersionToken>)>,
    moved: Option<(bool, Option<PreImage>, Principal)>,
    conflicts: Vec<CanonicalPath>,
    audits: Vec<(AuditKind, String)>,
    open: BTreeSet<String>,
    rename_fails: bool,
}

fn clean(cached: Option<VersionToken>) -> Resolved {
    Resolved {
        journal_state: JournalState::Clean,
        cached_version: cached,
        open_conflicts: None,
        backend: None,
        lease_state: None,
    }
}

impl World {
    fn with(files: &[(&str, &[u8])]) -> World {
        let mut w = World::default();
        for (p, b) in files {
            w.files.insert(p.to_string(), b.to_vec());
        }
        w
    }

    fn coord(&mut self, name: &'static str) -> Result<(), ChaprError> {
        self.calls.push(name.to_string());
        if self.down {
            return Err(ChaprError::CoordUnreachable);
        }
        match self.failing.get(name) {
            Some(why) => Err(ChaprError::Internal { message: why.to_string() }),
            None => Ok(()),
        }
    }

    fn perform(&mut self, action: Action<'_>) -> Option<Answer> {
        Some(match action {
            Action::Exists(p) => Answer::Exists(self.files.contains_key(&p.0) || self.dirs.contains(&p.0)),
            Action::Open(p) => {
                if !self.files.contains_key(&p.0) {
                    Answer::Done(Err(failure(IoKind::NotFound, "missing")))
                } else if !self.open.insert(p.0.clone()) {
                    Answer::Done(Err(failure(IoKind::WouldBlock, "held")))
                } else {
                    Answer::Done(Ok(()))
                }
            }
            Action::ReadAll(p) => {
                assert!(self.open.contains(&p.0), "read without a handle");
                Answer::Bytes(Ok(self.files[&p.0].clone()))
            }
            Action::Overwrite(p, b) => {
                assert!(self.open.contains(&p.0), "overwrite without a handle");
                self.files.insert(p.0.clone(), b.clone());
                Answer::Done(Ok(()))
            }
            Action::Rename { src, dst, replace } => {
                assert!(self.open.contains(&src.0), "rename without a handle");
                if self.rename_fails {
                    return Some(Answer::Done(Err(failure(IoKind::NotFound, "no such directory"))));
                }
                assert!(replace || !self.files.contains_key(&dst.0));
                let b = self.files.remove(&src.0).unwrap();
                self.files.insert(dst.0.clone(), b);
                Answer::Done(Ok(()))
            }
            Action::Close(p) => {
                self.open.remove(&p.0);
                Answer::Closed
            }
            Action::CreateNew(p, b) => {
                if self.files.contains_key(&p.0) {
                    Answer::Done(Err(failure(IoKind::AlreadyExists, "there")))
                } else {
                    self.files.insert(p.0.clone(), b.clone());
                    Answer::Done(Ok(()))
                }
            }
            Action::Remove(p) => {
                self.files.remove(&p.0);
                Answer::Done(Ok(()))
            }
            Action::CreateDir(p) => {
                self.dirs.insert(p.0.clone());
                Answer::Done(Ok(()))
            }
            Action::History(_) => Answer::History {
                reply: self.coord("history").map(|_| Vec::<HistoryEntry>::new()),
                now: now(),
            },
            Action::AssertRead { .. } => Answer::Coord(self.coord("assert_read")),
            Action::PutBlob(b) => {
                let r = self.coord("put_blob");
                if r.is_ok() {
                    self.blobs.insert(hash(b).0, b.clone());
                }
                Answer::Coord(r)
            }
            Action::OpenJournal { .. } => Answer::Coord(self.coord("journal_open")),
            Action::ClearJournal(_) => Answer::Coord(self.coord("journal_clear")),
            Action::RegisterConflict { .. } => Answer::Coord(self.coord("register_conflict")),
            Action::OpenMove { .. } => Answer::Coord(self.coord("open_move")),
            Action::ClearMove(_) => Answer::Coord(self.coord("clear_move")),
            Action::MovePaths { overwrite, dst_pre_image, principal, .. } => {
                self.moved = Some((overwrite, dst_pre_image.cloned(), principal.clone()));
                Answer::Coord(self.coord("move_paths"))
            }
            Action::Acquire { .. } => Answer::Lease(self.coord("acquire").map(|_| lease())),
            Action::Release(_) => Answer::Coord(self.coord("release")),
            Action::AppendLog { .. } => Answer::Coord(self.coord("append_log")),
            Action::Audit { kind, detail, .. } => {
                self.audits.push((kind, detail.clone()));
                Answer::Coord(self.coord("audit"))
            }
            Action::RecordRead { .. } => Answer::Coord(self.coord("record_read")),
            Action::GetBlob(v) => {
                let r = self.coord("get_blob");
                Answer::Blob(r.and_then(|_| {
                    self.blobs.get(&v.0).cloned().ok_or(ChaprError::VersionNotFound { path: path("?"), version: v.clone() })
                }))
            }
            Action::List(dir) => {
                if !self.dirs.contains(&dir.0) {
                    return Some(Answer::Listing(Err(failure(IoKind::NotFound, "missing"))));
                }
                let prefix = format!("{}/", dir.0);
                let mut out = Vec::new();
                for d in &self.dirs {
                    if let Some(name) = d.strip_prefix(&prefix) {
                        out.push(RawDirEntry { name: name.to_string(), entry_type: EntryType::Dir, size: 0, mtime: now() });
                    }
                }
                for (f, b) in &self.files {
                    if let Some(name) = f.strip_prefix(&prefix) {
                        out.push(RawDirEntry {
                            name: name.to_string(),
                            entry_type: EntryType::File,
                            size: b.len() as u64,
                            mtime: now(),
                        });
                    }
                }
                Answer::Listing(Ok(out))
            }
            Action::Stat(p) => Answer::Stat(match self.files.get(&p.0) {
                Some(b) => Ok(FileStat { mtime: now(), size: b.len() as u64 }),
                None => Err(failure(IoKind::NotFound, "missing")),
            }),
            Action::Read(p) => Answer::Bytes(match self.files.get(&p.0) {
                Some(b) => Ok(b.clone()),
                None => Err(failure(IoKind::NotFound, "missing")),
            }),
            Action::Resolve { .. } => {
                let r = self.coord("resolve");
                let state = if self.states.len() > 1 { self.states.remove(0) } else { self.states.pop().unwrap_or(clean(None)) };
                let again = Resolved {
                    journal_state: state.journal_state,
                    cached_version: state.cached_version.clone(),
                    open_conflicts: state.open_conflicts,
                    backend: state.backend,
                    lease_state: None,
                };
                if self.states.is_empty() {
                    self.states.push(again);
                }
                Answer::Resolved(r.map(|_| state))
            }
            Action::RefreshIndex { .. } => Answer::Coord(self.coord("refresh_index")),
            Action::Sleep { .. } => {
                self.calls.push("sleep".to_string());
                Answer::Slept
            }
            Action::RecoverJournal { .. } => {
                let r = self.coord("recover");
                Answer::Recovered(r.map(|_| {
                    let (version, intended_version) = self.interrupted.clone().unwrap();
                    RecoveredFrom {
                        version,
                        interrupted_writer: Principal::new_unchecked("CONTOSO\\crashed".to_string()),
                        at: now(),
                        intended_version,
                    }
                }))
            }
            Action::ListConflicts(_) => {
                let r = self.coord("list_conflicts");
                Answer::Conflicts(r.map(|_| self.conflicts.clone()))
            }
            Action::Nothing => return None,
        })
    }
}

/// An operation that can be driven.
trait Driven: Sized {
    fn wanted(&self) -> Action<'_>;
    fn told(self, answer: Answer) -> Self;

    fn run(mut self, w: &mut World) -> Self {
        loop {
            let answer = match w.perform(self.wanted()) {
                Some(a) => a,
                None => {
                    w.open.clear();
                    return self;
                }
            };
            self = self.told(answer);
        }
    }
}

impl Driven for WriteCas {
    fn wanted(&self) -> Action<'_> {
        self.action()
    }
    fn told(self, a: Answer) -> Self {
        self.advance(a)
    }
}

impl Driven for DeleteCas {
    fn wanted(&self) -> Action<'_> {
        self.action()
    }
    fn told(self, a: Answer) -> Self {
        self.advance(a)
    }
}

impl Driven for Create {
    fn wanted(&self) -> Action<'_> {
        self.action()
    }
    fn told(self, a: Answer) -> Self {
        self.advance(a)
    }
}

impl Driven for RestoreInPlace {
    fn wanted(&self) -> Action<'_> {
        self.action()
    }
    fn told(self, a: Answer) -> Self {
        self.advance(a)
    }
}

impl Driven for MoveCas {
    fn wanted(&self) -> Action<'_> {
        self.action()
    }
    fn told(self, a: Answer) -> Self {
        self.advance(a)
    }
}

impl Driven for MakeDir {
    fn wanted(&self) -> Action<'_> {
        self.action()
    }
    fn told(self, a: Answer) -> Self {
        self.advance(a)
    }
}

impl Driven for WriteVerb {
    fn wanted(&self) -> Action<'_> {
        self.action()
    }
    fn told(self, a: Answer) -> Self {
        self.advance(a)
    }
}

impl Driven for CreateVerb {
    fn wanted(&self) -> Action<'_> {
        self.action()
    }
    fn told(self, a: Answer) -> Self {
        self.advance(a)
    }
}

impl Driven for DeleteVerb {
    fn wanted(&self) -> Action<'_> {
        self.action()
    }
    fn told(self, a: Answer) -> Self {
        self.advance(a)
    }
}

impl Driven for RestoreVerb {
    fn wanted(&self) -> Action<'_> {
        self.action()
    }
    fn told(self, a: Answer) -> Self {
        self.advance(a)
    }
}

impl Driven for MoveVerb {
    fn wanted(&self) -> Action<'_> {
        self.action()
    }
    fn told(self, a: Answer) -> Self {
        self.advance(a)
    }
}

impl Driven for MkdirVerb {
    fn wanted(&self) -> Action<'_> {
        self.action()
    }
    fn told(self, a: Answer) -> Self {
        self.advance(a)
    }
}

impl Driven for Read {
    fn wanted(&self) -> Action<'_> {
        self.action()
    }
    fn told(self, a: Answer) -> Self {
        self.advance(a)
    }
}

impl Driven for Stat {
    fn wanted(&self) -> Action<'_> {
        self.action()
    }
    fn told(self, a: Answer) -> Self {
        self.advance(a)
    }
}

impl Driven for Resolve {
    fn wanted(&self) -> Action<'_> {
        self.action()
    }
    fn told(self, a: Answer) -> Self {
        self.advance(a)
    }
}

impl Driven for List {
    fn wanted(&self) -> Action<'_> {
        self.action()
    }
    fn told(self, a: Answer) -> Self {
        self.advance(&NoMountTable, &[], a)
    }
}

const POSIX: BackendKind = BackendKind::Posix;

// ---- the contended write ----

fn run_write(w: &mut World, kind: BackendKind, p: &str, content: &[u8], base: &[u8], mode: WriteMode) -> Result<CommitReceipt, ChaprError> {
    let args = WriteCasArgs {
        path: path(p),
        lease_id: lease(),
        content: content.to_vec(),
        base_version: hash(base),
        mode,
    };
    match WriteCas::begin(kind, false, who(), sess(), args).run(w).phase {
        WritePhase::Finished(r) => r,
        _ => panic!("the write did not finish"),
    }
}

#[test]
fn a_write_stores_and_notes_before_it_overwrites() {
    let mut w = World::with(&[("/s/a.md", b"old")]);
    let r = run_write(&mut w, POSIX, "/s/a.md", b"newer", b"old", WriteMode::Cas).unwrap();
    assert_eq!(w.files["/s/a.md"], b"newer");
    assert_eq!(w.calls, ["put_blob", "journal_open", "journal_clear"]);
    assert_eq!(w.blobs[&hash(b"old").0], b"old");
    assert_eq!(
        r,
        CommitReceipt {
            from_version: Some(hash(b"old")),
            to_version: Some(hash(b"newer")),
            size: 5,
            from_size: Some(3)
        }
    );
}

#[test]
fn a_stale_write_is_parked_and_registered() {
    let mut w = World::with(&[("/s/a.md", b"theirs")]);
    let e = run_write(&mut w, POSIX, "/s/a.md", b"mine", b"what I read", WriteMode::Cas).unwrap_err();
    match e {
        ChaprError::Conflict { base_path, current_version, sidecar_path: Some(sidecar), last_writer, .. } => {
            assert_eq!(base_path, path("/s/a.md"));
            assert_eq!(current_version, hash(b"theirs"));
            assert!(sidecar.as_str().starts_with("/s/a.conflict-CONTOSO_tester-"));
            assert_eq!(w.files[&sidecar.0], b"mine");
            assert_eq!(last_writer, who());
        }
        other => panic!("expected a conflict with a sidecar, got {other:?}"),
    }
    assert_eq!(w.files["/s/a.md"], b"theirs", "nothing was overwritten");
    assert_eq!(w.calls, ["register_conflict", "history"]);
}

#[test]
fn a_forced_write_goes_past_the_version_check() {
    let mut w = World::with(&[("/s/a.md", b"theirs")]);
    let mode = WriteMode::Force { reason: "asked to".to_string() };
    let r = run_write(&mut w, POSIX, "/s/a.md", b"mine", b"what I read", mode).unwrap();
    assert_eq!(r.from_version, Some(hash(b"theirs")));
    assert_eq!(w.files["/s/a.md"], b"mine");
    assert_eq!(w.blobs[&hash(b"theirs").0], b"theirs");
}

#[test]
fn a_write_without_its_snapshot_or_its_note_changes_nothing() {
    for step in ["put_blob", "journal_open"] {
        let mut w = World::with(&[("/s/a.md", b"old")]);
        w.failing.insert(step, "no");
        assert!(run_write(&mut w, POSIX, "/s/a.md", b"new", b"old", WriteMode::Cas).is_err());
        assert_eq!(w.files["/s/a.md"], b"old", "{step}");
    }
}

#[test]
fn a_note_left_behind_is_not_a_failed_write() {
    let mut w = World::with(&[("/s/a.md", b"old")]);
    w.failing.insert("journal_clear", "blip");
    assert!(run_write(&mut w, POSIX, "/s/a.md", b"new", b"old", WriteMode::Cas).is_ok());
    assert_eq!(w.files["/s/a.md"], b"new");
}

#[test]
fn an_atomic_backend_needs_no_note() {
    let mut w = World::with(&[("/s/a.md", b"old")]);
    let args = WriteCasArgs {
        path: path("/s/a.md"),
        lease_id: lease(),
        content: b"new".to_vec(),
        base_version: hash(b"old"),
        mode: WriteMode::Cas,
    };
    let op = WriteCas::begin(POSIX, true, who(), sess(), args).run(&mut w);
    assert!(matches!(op.phase, WritePhase::Finished(Ok(_))));
    assert_eq!(w.calls, ["put_blob"]);
}

#[test]
fn a_document_that_a_person_has_open_is_left_alone() {
    let mut w = World::with(&[("\\\\srv\\s\\q3.docx", b"old"), ("\\\\srv\\s\\~$.docx", b"lock")]);
    let e = run_write(&mut w, BackendKind::Smb, "\\\\srv\\s\\q3.docx", b"new", b"old", WriteMode::Cas).unwrap_err();
    assert_eq!(
        e,
        ChaprError::OfficeLockPresent { path: path("\\\\srv\\s\\q3.docx"), lock_file: path("\\\\srv\\s\\~$.docx") }
    );
    assert!(w.calls.is_empty());
}

#[test]
fn a_file_held_elsewhere_is_a_sharing_violation() {
    let mut w = World::with(&[("/s/a.md", b"old")]);
    w.open.insert("/s/a.md".to_string());
    let e = run_write(&mut w, POSIX, "/s/a.md", b"new", b"old", WriteMode::Cas).unwrap_err();
    assert_eq!(e, ChaprError::SharingViolation { path: path("/s/a.md") });
}

#[test]
fn an_answer_to_another_question_changes_nothing() {
    let args = WriteCasArgs {
        path: path("/s/a.md"),
        lease_id: lease(),
        content: b"new".to_vec(),
        base_version: hash(b"old"),
        mode: WriteMode::Cas,
    };
    let op = WriteCas::begin(POSIX, false, who(), sess(), args).advance(Answer::Closed).advance(Answer::Slept);
    assert!(matches!(op.phase, WritePhase::Opening));
}

// ---- creation ----

fn run_create(w: &mut World, kind: BackendKind, p: &str, content: &[u8]) -> Result<CommitReceipt, ChaprError> {
    match Create::begin(kind, path(p), content.to_vec()).run(w).phase {
        CreatePhase::Finished(r) => r,
        _ => panic!("the creation did not finish"),
    }
}

#[test]
fn create_refuses_while_a_human_has_the_file_open() {
    let mut w = World::with(&[("\\\\srv\\s\\~$new.xlsx", b"lock")]);
    let e = run_create(&mut w, BackendKind::Smb, "\\\\srv\\s\\new.xlsx", b"the agent's file").unwrap_err();
    assert!(matches!(e, ChaprError::OfficeLockPresent { .. }), "expected OfficeLockPresent, got {e:?}");
    assert!(!w.files.contains_key("\\\\srv\\s\\new.xlsx"), "nothing was created");
}

#[test]
fn a_created_file_is_created_even_if_history_missed_it() {
    let mut w = World::default();
    w.failing.insert("put_blob", "full");
    let r = run_create(&mut w, POSIX, "/s/a.md", b"new").unwrap();
    assert_eq!(r.to_version, Some(hash(b"new")));
    assert_eq!((r.from_version, r.from_size, r.size), (None, None, 3));
    assert_eq!(w.files["/s/a.md"], b"new");
}

#[test]
fn an_existing_file_is_not_created_again() {
    let mut w = World::with(&[("/s/a.md", b"old")]);
    let e = run_create(&mut w, POSIX, "/s/a.md", b"new").unwrap_err();
    assert_eq!(e, ChaprError::AlreadyExists { path: path("/s/a.md") });
    assert!(e.message().contains("already exists"));
}

#[test]
fn a_directory_is_made_once() {
    let mut w = World::default();
    let d = MakeDir::begin(POSIX, path("/s/d")).run(&mut w);
    assert!(matches!(d.phase, MkdirPhase::Finished(Ok(()))));
    let again = MakeDir::begin(POSIX, path("/s/d")).run(&mut w);
    assert!(matches!(again.phase, MkdirPhase::Finished(Err(ChaprError::AlreadyExists { .. }))));
}

// ---- deletion ----

fn run_delete(w: &mut World, p: &str, base: &[u8]) -> Result<CommitReceipt, ChaprError> {
    let args = DeleteCasArgs { path: path(p), lease_id: lease(), base_version: hash(base) };
    match DeleteCas::begin(POSIX, false, who(), args).run(w).phase {
        DeletePhase::Finished(r) => r,
        _ => panic!("the deletion did not finish"),
    }
}

#[test]
fn a_deleted_file_stays_in_history() {
    let mut w = World::with(&[("/s/a.md", b"old")]);
    let r = run_delete(&mut w, "/s/a.md", b"old").unwrap();
    assert!(!w.files.contains_key("/s/a.md"));
    assert_eq!(w.blobs[&hash(b"old").0], b"old");
    assert_eq!(
        r,
        CommitReceipt { from_version: Some(hash(b"old")), to_version: None, size: 3, from_size: None }
    );
}

#[test]
fn a_changed_file_is_not_deleted() {
    let mut w = World::with(&[("/s/a.md", b"changed")]);
    let e = run_delete(&mut w, "/s/a.md", b"old").unwrap_err();
    assert!(matches!(e, ChaprError::Conflict { sidecar_path: None, .. }), "{e:?}");
    assert_eq!(w.files["/s/a.md"], b"changed");
    assert_eq!(w.calls, ["history"]);
}

// ---- restore in place ----

const OLD: &[u8] = b"the version being restored";

fn run_restore(w: &mut World, kind: BackendKind, p: &str, base: RestoreBase) -> Result<CommitReceipt, ChaprError> {
    let args = RestoreInPlaceArgs { path: path(p), lease_id: lease(), bytes: OLD.to_vec(), version: hash(OLD), base };
    match RestoreInPlace::begin(kind, false, who(), args).run(w).phase {
        RestorePhase::Finished(r) => r,
        _ => panic!("the restore did not finish"),
    }
}

#[test]
fn restore_in_place_refuses_while_a_human_has_the_file_open() {
    let doc = "\\\\srv\\s\\q3.xlsx";
    let mut w = World::with(&[(doc, b"the human's work"), ("\\\\srv\\s\\~$q3.xlsx", b"lock")]);
    let e = run_restore(&mut w, BackendKind::Smb, doc, RestoreBase::Version(hash(b"whatever is there"))).unwrap_err();
    assert!(matches!(e, ChaprError::OfficeLockPresent { .. }), "expected OfficeLockPresent, got {e:?}");
    assert_eq!(w.files[doc], b"the human's work");
}

#[test]
fn restore_in_place_proceeds_past_the_preflight_without_a_lock() {
    let doc = "\\\\srv\\s\\q3.xlsx";
    let mut w = World::with(&[(doc, b"the human's work")]);
    let e = run_restore(&mut w, BackendKind::Smb, doc, RestoreBase::Version(hash(b"whatever is there"))).unwrap_err();
    assert!(
        !matches!(e, ChaprError::OfficeLockPresent { .. }),
        "pre-flight refused with no lock file present: {e:?}"
    );
}

#[test]
fn a_live_file_at_the_version_the_caller_saw_is_overwritten() {
    let mut w = World::with(&[("/s/f.txt", b"current")]);
    let r = run_restore(&mut w, POSIX, "/s/f.txt", RestoreBase::Version(hash(b"current")))
        .expect("the caller had read the current contents");
    assert_eq!(w.files["/s/f.txt"], OLD);
    assert_eq!(w.blobs[&hash(b"current").0], b"current");
    assert_eq!(r.from_size, Some(7));
}

#[test]
fn a_live_file_that_moved_on_is_refused() {
    let mut w = World::with(&[("/s/f.txt", b"someone else wrote this")]);
    let e = run_restore(&mut w, POSIX, "/s/f.txt", RestoreBase::Version(hash(b"what I read")))
        .expect_err("must not overwrite unseen content");
    match e {
        ChaprError::Conflict { base_path, sidecar_path, .. } => {
            assert_eq!(base_path.as_str(), "/s/f.txt");
            assert!(sidecar_path.is_none(), "a restore parks nothing");
        }
        other => panic!("expected Conflict, got {other:?}"),
    }
    assert_eq!(w.files["/s/f.txt"], b"someone else wrote this");
}

#[test]
fn a_file_where_the_caller_expected_none_is_refused() {
    let mut w = World::with(&[("/s/f.txt", b"created since you looked")]);
    let e = run_restore(&mut w, POSIX, "/s/f.txt", RestoreBase::Absent)
        .expect_err("must not overwrite a file the caller did not know about");
    assert!(matches!(e, ChaprError::Conflict { .. }), "{e:?}");
    assert_eq!(w.files["/s/f.txt"], b"created since you looked");
}

#[test]
fn a_soft_deleted_file_comes_back_at_its_original_name() {
    let mut w = World::default();
    let r = run_restore(&mut w, POSIX, "/s/deleted.txt", RestoreBase::Absent)
        .expect("recovering a deleted file is the point");
    assert_eq!(w.files["/s/deleted.txt"], OLD, "back at its own name");
    assert_eq!(r.to_version, Some(hash(OLD)));
    assert!(r.from_version.is_none(), "nothing was replaced");
}

#[test]
fn an_absent_file_the_caller_thought_was_present_is_refused() {
    let mut w = World::default();
    let e = run_restore(&mut w, POSIX, "/s/gone.txt", RestoreBase::Version(hash(b"what I read")))
        .expect_err("the file the caller read is gone");
    assert!(matches!(e, ChaprError::Conflict { .. }), "{e:?}");
    assert!(!w.files.contains_key("/s/gone.txt"), "and nothing was created");
}

// ---- move ----

fn run_move(w: &mut World, src: &str, dst: &str, src_base: &[u8], dst_base: Option<&[u8]>) -> Result<MoveReceipt, ChaprError> {
    let args = MoveCasArgs {
        src: path(src),
        dst: path(dst),
        src_base_version: hash(src_base),
        dst_base_version: dst_base.map(hash),
        lease_id: lease(),
    };
    match MoveCas::begin(POSIX, who(), sess(), args).run(w).phase {
        MovePhase::Finished(r) => r,
        _ => panic!("the move did not finish"),
    }
}

#[test]
fn renames_and_preserves_the_verified_bytes() {
    let mut w = World::with(&[("/s/src.txt", b"the verified bytes")]);
    let r = run_move(&mut w, "/s/src.txt", "/s/dst.txt", b"the verified bytes", None).expect("move");
    assert_eq!(r.version, hash(b"the verified bytes"));
    assert!(!w.files.contains_key("/s/src.txt"), "the source name must be gone after a rename");
    assert_eq!(w.files["/s/dst.txt"], b"the verified bytes");
    assert_eq!(w.calls, ["open_move", "move_paths"]);
}

#[test]
fn stale_source_version_conflicts_and_moves_nothing() {
    let mut w = World::with(&[("/s/src.txt", b"what is actually on disk")]);
    let e = run_move(&mut w, "/s/src.txt", "/s/dst.txt", b"what we read earlier", None)
        .expect_err("a stale base version must conflict");
    assert!(matches!(e, ChaprError::Conflict { .. }), "expected Conflict, got {e:?}");
    assert!(!w.files.contains_key("/s/dst.txt"), "and the destination must not be created");
    assert_eq!(w.files["/s/src.txt"], b"what is actually on disk");
}

#[test]
fn overwrite_without_dst_base_version_is_refused() {
    let mut w = World::with(&[("/s/src.txt", b"source"), ("/s/dst.txt", b"destination worth keeping")]);
    let e = run_move(&mut w, "/s/src.txt", "/s/dst.txt", b"source", None)
        .expect_err("an overwrite-move needs dst_base_version");
    assert!(matches!(e, ChaprError::BaseVersionRequired { .. }), "expected BaseVersionRequired, got {e:?}");
    assert_eq!(w.files["/s/dst.txt"], b"destination worth keeping", "the destination must be untouched");
}

#[test]
fn stale_destination_version_conflicts() {
    let mut w = World::with(&[("/s/src.txt", b"source"), ("/s/dst.txt", b"dst as it really is")]);
    let e = run_move(&mut w, "/s/src.txt", "/s/dst.txt", b"source", Some(b"dst as we read it"))
        .expect_err("a stale dst base version must conflict");
    assert!(matches!(e, ChaprError::Conflict { .. }), "expected Conflict, got {e:?}");
    assert_eq!(w.files["/s/src.txt"], b"source");
    assert_eq!(w.files["/s/dst.txt"], b"dst as it really is");
}

#[test]
fn overwrite_move_replaces_the_destination() {
    let mut w = World::with(&[("/s/src.txt", b"the winner"), ("/s/dst.txt", b"the replaced")]);
    run_move(&mut w, "/s/src.txt", "/s/dst.txt", b"the winner", Some(b"the replaced")).expect("overwrite move");
    assert!(!w.files.contains_key("/s/src.txt"));
    assert_eq!(w.files["/s/dst.txt"], b"the winner");
    assert_eq!(w.blobs[&hash(b"the replaced").0], b"the replaced");
    assert_eq!(w.calls, ["assert_read", "put_blob", "open_move", "move_paths"]);
    let (overwrite, pre, _) = w.moved.unwrap();
    assert!(overwrite);
    assert_eq!(pre, Some(PreImage { version: hash(b"the replaced"), size: 12 }));
}

#[test]
fn coord_failure_after_the_rename_reports_committed_but_unrecorded() {
    let mut w = World::with(&[("/s/src.txt", b"moved anyway")]);
    w.failing.insert("move_paths", "coord returned HTTP 500");
    let e = run_move(&mut w, "/s/src.txt", "/s/dst.txt", b"moved anyway", None)
        .expect_err("coord refused the bookkeeping");
    match e {
        ChaprError::CommittedButUnrecorded { path: p, message, .. } => {
            assert_eq!(p.as_str(), "/s/dst.txt", "the caller must be sent to where the file now IS");
            assert_eq!(
                message,
                "the file was renamed from /s/src.txt to /s/dst.txt, but internal error: coord returned HTTP 500"
            );
        }
        other => panic!("expected CommittedButUnrecorded, got {other:?}"),
    }
    assert!(!w.files.contains_key("/s/src.txt"), "the rename really happened");
    assert_eq!(w.files["/s/dst.txt"], b"moved anyway");
}

#[test]
fn a_move_that_cannot_record_its_intent_moves_nothing() {
    let mut w = World::with(&[("/s/src.txt", b"stays put")]);
    w.failing.insert("open_move", "coord returned HTTP 500");
    let e = run_move(&mut w, "/s/src.txt", "/s/dst.txt", b"stays put", None)
        .expect_err("the intent could not be recorded");
    assert!(
        !matches!(e, ChaprError::CommittedButUnrecorded { .. }),
        "nothing was committed, so this must not claim otherwise: {e:?}"
    );
    assert!(!w.files.contains_key("/s/dst.txt"), "the destination was created despite refusing");
    assert_eq!(w.files["/s/src.txt"], b"stays put");
}

#[test]
fn a_failed_rename_clears_the_intent_it_opened() {
    let mut w = World::with(&[("/s/src.txt", b"cannot land")]);
    w.rename_fails = true;
    let e = run_move(&mut w, "/s/src.txt", "/s/missing/dst.txt", b"cannot land", None)
        .expect_err("the rename could not land");
    assert!(
        !matches!(e, ChaprError::CommittedButUnrecorded { .. }),
        "a rename that failed must not report a commit: {e:?}"
    );
    assert!(w.files.contains_key("/s/src.txt"), "the source is still there");
    assert_eq!(w.calls, ["open_move", "clear_move"]);
}

// ---- reading ----

fn fast_cfg() -> ReadConfig {
    ReadConfig { live_wait_attempts: 3, live_wait_interval_ms: 1 }
}

fn run_read(w: &mut World, uri: &str) -> Result<ReadResponse, ChaprError> {
    let op = read(BackendKind::Smb, &NoMountTable, &[], fast_cfg(), who(), sess(), uri)?;
    match op.run(w).phase {
        ReadPhase::Finished(r) => r,
        _ => panic!("the read did not finish"),
    }
}

fn inline(resp: &ReadResponse) -> &[u8] {
    match &resp.content {
        ReadContent::Inline { bytes } => bytes,
        _ => panic!("expected inline content"),
    }
}

fn in_state(state: JournalState) -> Resolved {
    Resolved { journal_state: state, ..clean(None) }
}

const A_MD: &str = "\\\\srv\\share\\a.md";

#[test]
fn clean_cache_hit_serves_verified_without_rehash() {
    let cached = hash(b"whatever");
    let mut w = World::with(&[(A_MD, b"file bytes")]);
    w.states.push(clean(Some(cached.clone())));
    let resp = run_read(&mut w, "//srv/share/a.md").unwrap();
    assert_eq!(resp.integrity, Integrity::Verified);
    assert_eq!(resp.version, Some(cached));
    assert_eq!(inline(&resp), b"file bytes");
    assert_eq!(w.calls, ["resolve", "record_read"]);
}

#[test]
fn clean_cache_miss_hashes_and_refreshes() {
    let mut w = World::with(&[(A_MD, b"content")]);
    w.states.push(clean(None));
    let resp = run_read(&mut w, "//srv/share/a.md").unwrap();
    assert_eq!(resp.integrity, Integrity::Verified);
    assert_eq!(resp.version, Some(hash(b"content")));
    assert_eq!(w.calls, ["resolve", "refresh_index", "record_read"]);
}

#[test]
fn coord_unreachable_degrades_open() {
    let mut w = World::with(&[(A_MD, b"served anyway")]);
    w.down = true;
    let resp = run_read(&mut w, "//srv/share/a.md").unwrap();
    assert_eq!(resp.integrity, Integrity::Unverified);
    assert_eq!(resp.version, None);
    assert_eq!(inline(&resp), b"served anyway");
    assert_eq!(w.calls, ["resolve"]);
}

#[test]
fn dangling_serves_recovered_pre_image_not_torn_bytes() {
    let pre = hash(b"good pre-image");
    let mut w = World::with(&[(A_MD, b"TORN GARBAGE")]);
    w.states.push(in_state(JournalState::Dangling));
    w.interrupted = Some((pre.clone(), Some(hash(b"what was intended"))));
    w.blobs.insert(pre.0.clone(), b"good pre-image".to_vec());
    let resp = run_read(&mut w, "//srv/share/a.md").unwrap();
    assert_eq!(resp.integrity, Integrity::Recovered);
    assert_eq!(resp.version, Some(pre));
    assert_eq!(inline(&resp), b"good pre-image");
    assert_eq!(
        resp.recovered_from.unwrap().interrupted_writer,
        Principal::new_unchecked("CONTOSO\\crashed".to_string())
    );
    assert!(!w.calls.contains(&"journal_clear".to_string()), "the note must outlive the read");
    assert_eq!(
        w.audits,
        [(AuditKind::CrashRecover, "served pre-image after interrupted write by CONTOSO\\crashed".to_string())]
    );
}

#[test]
fn dangling_but_committed_is_cleared_and_served() {
    let mut w = World::with(&[(A_MD, b"all of it")]);
    w.states.push(in_state(JournalState::Dangling));
    w.interrupted = Some((hash(b"before"), Some(hash(b"all of it"))));
    let resp = run_read(&mut w, "//srv/share/a.md").unwrap();
    assert_eq!(resp.integrity, Integrity::Verified);
    assert_eq!(resp.version, Some(hash(b"all of it")));
    assert_eq!(w.calls, ["resolve", "recover", "journal_clear", "record_read"]);
}

#[test]
fn live_then_clear_serves_once_the_write_clears() {
    let mut w = World::with(&[(A_MD, b"cleared")]);
    w.states.push(in_state(JournalState::Live));
    w.states.push(clean(Some(hash(b"cleared"))));
    let resp = run_read(&mut w, "//srv/share/a.md").unwrap();
    assert_eq!(resp.integrity, Integrity::Verified);
    assert_eq!(resp.version, Some(hash(b"cleared")));
    assert_eq!(w.calls, ["resolve", "sleep", "resolve", "record_read"]);
}

#[test]
fn live_forever_exhausts_the_retry_budget() {
    let mut w = World::with(&[(A_MD, b"unreachable-under-lock")]);
    w.states.push(in_state(JournalState::Live));
    let e = run_read(&mut w, "//srv/share/a.md").unwrap_err();
    assert_eq!(e, ChaprError::RetryBudgetExhausted { path: path(A_MD), attempts: 3 });
    assert_eq!(w.calls.iter().filter(|c| *c == "sleep").count(), 3);
}

#[test]
fn open_conflicts_surface_on_read() {
    let mut w = World::with(&[(A_MD, b"c")]);
    w.states.push(Resolved { open_conflicts: Some(2), ..clean(Some(hash(b"c"))) });
    assert_eq!(run_read(&mut w, "//srv/share/a.md").unwrap().open_conflicts, Some(2));
}

#[test]
fn missing_file_is_not_found() {
    let mut w = World::default();
    w.down = true;
    let e = run_read(&mut w, "//srv/share/gone.md").unwrap_err();
    assert!(matches!(e, ChaprError::NotFound { .. }));
}

#[test]
fn read_consumes_coord_backend_announcement() {
    let smb = Resolved { backend: Some(BackendDescriptor { kind: BackendKind::Smb }), ..clean(Some(hash(b"body"))) };
    assert!(!announces_other(&smb, BackendKind::Smb));
    assert!(announces_other(&smb, BackendKind::Posix));
    let mut w = World::with(&[(A_MD, b"body")]);
    w.states.push(smb);
    let resp = run_read(&mut w, "//srv/share/a.md").unwrap();
    assert_eq!(resp.integrity, Integrity::Verified);
    assert_eq!(resp.version, Some(hash(b"body")));
}

#[test]
fn stat_hashes_where_nothing_is_on_record() {
    let run = |w: &mut World| match stat(POSIX, &NoMountTable, &[], "/s/a.md").unwrap().run(w).phase {
        StatPhase::Finished(r) => r,
        _ => panic!("the question was not answered"),
    };
    let mut w = World::with(&[("/s/a.md", b"abc")]);
    let r = run(&mut w).unwrap();
    assert_eq!((r.size, r.version), (3, hash(b"abc")));
    assert_eq!(w.calls, ["resolve", "refresh_index"]);

    let mut hit = World::with(&[("/s/a.md", b"abc")]);
    hit.states.push(clean(Some(hash(b"on record"))));
    assert_eq!(run(&mut hit).unwrap().version, hash(b"on record"));

    let mut down = World::with(&[("/s/a.md", b"abc")]);
    down.down = true;
    let r = run(&mut down).unwrap();
    assert_eq!((r.version, r.journal_state, r.lease), (hash(b"abc"), JournalState::Clean, None));
}

#[test]
fn a_listing_counts_open_conflicts() {
    let mut w = World::with(&[("/s/d/a.md", b"abc"), ("/s/d/b.md", b"")]);
    w.dirs.insert("/s/d".to_string());
    w.conflicts = vec![path("/s/d/a.md"), path("/s/d/a.md"), path("/s/other.md")];
    let entries = match list(POSIX, &NoMountTable, &[], "/s//d/").unwrap().run(&mut w).phase {
        ListPhase::Finished(r) => r.unwrap(),
        _ => panic!("the listing did not finish"),
    };
    let shown: Vec<(&str, u64, Option<u32>, &str)> =
        entries.iter().map(|e| (e.name.as_str(), e.size, e.open_conflicts, e.canonical_path.as_str())).collect();
    assert_eq!(shown, [("a.md", 3, Some(2), "/s/d/a.md"), ("b.md", 0, None, "/s/d/b.md")]);

    w.down = true;
    match list(POSIX, &NoMountTable, &[], "/s/d").unwrap().run(&mut w).phase {
        ListPhase::Finished(Ok(entries)) => assert!(entries.iter().all(|e| e.open_conflicts.is_none())),
        _ => panic!("a listing stands without the coordinator"),
    }
}

// ---- the verbs ----

fn run_write_verb(w: &mut World, uri: &str, content: &[u8], base: VersionToken) -> Result<VersionToken, ChaprError> {
    let verb = chapr_endpoint::write::write(POSIX, false, &NoMountTable, &[], who(), sess(), uri, content.to_vec(), base, WriteMode::Cas)?;
    match verb.run(w).phase {
        WriteVerbPhase::Finished(r) => r,
        _ => panic!("the verb did not finish"),
    }
}

#[test]
fn a_write_takes_a_lease_and_gives_it_back() {
    let mut w = World::with(&[("/s/a.md", b"old")]);
    let v = run_write_verb(&mut w, "/s/a.md", b"new", hash(b"old")).unwrap();
    assert_eq!(v, hash(b"new"));
    assert_eq!(
        w.calls,
        [
            "assert_read", "acquire", "put_blob", "journal_open", "journal_clear", "append_log", "audit", "record_read",
            "release"
        ]
    );
    assert_eq!(w.audits, [(AuditKind::WriteCommit, "write".to_string())]);
}

#[test]
fn a_failing_tail_still_gives_the_lease_back() {
    for step in ["append_log", "audit"] {
        let mut w = World::with(&[("/s/a.md", b"old")]);
        w.failing.insert(step, "down");
        match run_write_verb(&mut w, "/s/a.md", b"new", hash(b"old")).unwrap_err() {
            ChaprError::CommittedButUnrecorded { path: p, version, message } => {
                assert_eq!((p, version), (path("/s/a.md"), hash(b"new")));
                assert_eq!(message, "internal error: down");
            }
            other => panic!("expected CommittedButUnrecorded, got {other:?}"),
        }
        assert_eq!(w.calls.last().unwrap(), "release", "{step}");
        assert_eq!(w.files["/s/a.md"], b"new");
    }
}

#[test]
fn a_forced_write_has_to_say_why() {
    let mode = WriteMode::Force { reason: "  ".to_string() };
    let r = chapr_endpoint::write::write(POSIX, false, &NoMountTable, &[], who(), sess(), "/s/a.md", b"x".to_vec(), hash(b"old"), mode);
    assert!(matches!(r, Err(ChaprError::ForceRequiresReason { .. })));
}

#[test]
fn two_concurrent_writes_with_coord_down_both_refuse_and_nothing_lands() {
    let mut w = World::with(&[("/s/tender.md", b"the version everyone read\n")]);
    w.down = true;
    for who in ["A", "B"] {
        let content = format!("rewritten by {who}\n");
        let e = run_write_verb(&mut w, "/s/tender.md", content.as_bytes(), hash(b"the version everyone read\n")).unwrap_err();
        let text = chapr_endpoint::server::tool_error(&e);
        assert!(text.contains("NOTHING WAS CHANGED"), "the caller must be told plainly that nothing landed: {text}");
        assert!(text.contains("IT support") || text.contains("coordinator"), "and pointed at the actual remedy: {text}");
    }
    assert_eq!(w.files.len(), 1, "no sidecar or temp file may appear");
    assert_eq!(w.files["/s/tender.md"], b"the version everyone read\n");
}

#[test]
fn two_subagents_writing_one_file_collide_as_a_conflict_not_a_self_held_lease() {
    let mut w = World::with(&[("/s/case.yaml", b"stage: 1\n")]);
    let base = hash(b"stage: 1\n");
    run_write_verb(&mut w, "/s/case.yaml", b"stage: 2 (by A)\n", base.clone()).unwrap();
    let e = run_write_verb(&mut w, "/s/case.yaml", b"stage: 2 (by B)\n", base).unwrap_err();
    let loser = chapr_endpoint::server::tool_error(&e);
    assert!(loser.contains("conflict"), "the loser should take the CAS path, got: {loser}");
    assert!(!loser.contains("lease held"));
    assert!(loser.contains("NOTHING WAS OVERWRITTEN and NOTHING WAS LOST"));
    assert!(loser.contains("Read the file again"));
    assert_eq!(w.files["/s/case.yaml"], b"stage: 2 (by A)\n");
    assert_eq!(w.files.keys().filter(|n| n.contains("conflict")).count(), 1, "the loser's bytes should be parked");
}

#[test]
fn mcp_stale_write_is_refused_and_disk_is_untouched() {
    let mut w = World::with(&[("/s/race.md", b"current")]);
    let e = run_write_verb(&mut w, "/s/race.md", b"clobber", hash(b"something else entirely")).unwrap_err();
    assert!(e.message().contains("conflict"), "expected a refusal naming the cause, got: {e:?}");
    assert_eq!(w.files["/s/race.md"], b"current", "disk untouched");
}

fn run_create_verb(w: &mut World, uri: &str, content: &[u8]) -> Result<VersionToken, ChaprError> {
    match create(POSIX, &NoMountTable, &[], who(), sess(), uri, content.to_vec())?.run(w).phase {
        CreateVerbPhase::Finished(r) => r,
        _ => panic!("the verb did not finish"),
    }
}

#[test]
fn two_concurrent_creates_on_one_path_yield_exactly_one_winner() {
    let mut w = World::default();
    assert!(run_create_verb(&mut w, "/s/summary.md", b"first draft by A\n").is_ok());
    let e = run_create_verb(&mut w, "/s/summary.md", b"first draft by B\n").unwrap_err();
    let loser = chapr_endpoint::server::tool_error(&e);
    assert!(loser.to_lowercase().contains("already exists"), "the loser must learn the file exists: {loser}");
    assert_eq!(w.files["/s/summary.md"], b"first draft by A\n");
    assert_eq!(w.calls.iter().filter(|c| *c == "release").count(), 2);
}

#[test]
fn a_deletion_is_logged_and_can_be_undone() {
    let mut w = World::with(&[("/s/a.md", b"old")]);
    let verb = delete(POSIX, false, &NoMountTable, &[], who(), sess(), "/s/a.md", hash(b"old")).unwrap().run(&mut w);
    assert!(matches!(verb.phase, DeleteVerbPhase::Finished(Ok(()))));
    assert_eq!(w.audits, [(AuditKind::WriteCommit, "soft delete".to_string())]);
    assert_eq!(w.calls.last().unwrap(), "release");

    let back = restore(
        POSIX,
        false,
        &NoMountTable,
        &[],
        who(),
        sess(),
        "/s/a.md",
        hash(b"old"),
        RestoreMode::InPlace,
        Some(RestoreBase::Absent),
    )
    .unwrap()
    .run(&mut w);
    match back.phase {
        RestoreVerbPhase::Finished(Ok(r)) => assert_eq!((r.restored_path, r.version), (None, hash(b"old"))),
        _ => panic!("the file must come back"),
    }
    assert_eq!(w.files["/s/a.md"], b"old");
    assert_eq!(w.audits[1], (AuditKind::Restore, "restore in_place".to_string()));
}

fn run_restore_verb(w: &mut World, mode: RestoreMode, base: Option<RestoreBase>) -> RestoreVerbPhase {
    restore(POSIX, false, &NoMountTable, &[], who(), sess(), "/s/a.md", hash(b"v1"), mode, base).unwrap().run(w).phase
}

#[test]
fn a_restored_copy_lands_beside_the_file() {
    let mut w = World::with(&[("/s/a.md", b"v2")]);
    w.blobs.insert(hash(b"v1").0, b"v1".to_vec());
    match run_restore_verb(&mut w, RestoreMode::Copy, None) {
        RestoreVerbPhase::Finished(Ok(r)) => {
            let copy = r.restored_path.unwrap();
            assert!(copy.as_str().starts_with("/s/a.restored-") && copy.as_str().ends_with(".md"));
            assert_eq!(w.files[&copy.0], b"v1");
        }
        _ => panic!("the copy must be made"),
    }
    assert_eq!(w.files["/s/a.md"], b"v2");
    assert_eq!(w.calls, ["get_blob", "append_log", "audit"]);
}

#[test]
fn a_restore_in_place_has_to_say_what_it_saw() {
    let mut w = World::with(&[("/s/a.md", b"v2")]);
    w.blobs.insert(hash(b"v1").0, b"v1".to_vec());
    assert!(matches!(
        run_restore_verb(&mut w, RestoreMode::InPlace, None),
        RestoreVerbPhase::Finished(Err(ChaprError::BaseVersionRequired { .. }))
    ));
    assert_eq!(w.calls, ["get_blob"]);
    assert_eq!(w.files["/s/a.md"], b"v2");
}

#[test]
fn a_move_verb_hands_on_the_version() {
    let mut w = World::with(&[("/s/a.md", b"v")]);
    let verb = mv(POSIX, &NoMountTable, &[], who(), sess(), "/s/a.md", "/s/b.md", hash(b"v"), None).unwrap().run(&mut w);
    match verb.phase {
        MoveVerbPhase::Finished(Ok(r)) => assert_eq!(r.version, hash(b"v")),
        _ => panic!("the move must succeed"),
    }
    assert_eq!(w.calls, ["assert_read", "acquire", "open_move", "move_paths", "release"]);
    match mv(POSIX, &NoMountTable, &[], who(), sess(), "/s/a.md", "/s//a.md", hash(b"v"), None) {
        Err(ChaprError::InvalidPath { raw, reason }) => {
            assert_eq!((raw.as_str(), reason.as_str()), ("/s//a.md", "move source and destination are the same path"))
        }
        _ => panic!("a move to itself must be refused"),
    }
}

fn run_mkdir(w: &mut World, uri: &str, confirm: bool) -> Result<Vec<String>, ChaprError> {
    match mkdir(POSIX, &NoMountTable, &[], who(), sess(), uri, confirm)?.run(w).phase {
        MkdirVerbPhase::Finished(r) => r.map(|m| m.similar_existing),
        _ => panic!("the verb did not finish"),
    }
}

#[test]
fn a_near_duplicate_directory_needs_confirmation() {
    let mut w = World::with(&[("/s/Reportz", b"a file, not a directory")]);
    w.dirs.insert("/s".to_string());
    w.dirs.insert("/s/Reports".to_string());
    match run_mkdir(&mut w, "/s/Repotrs", false).unwrap_err() {
        ChaprError::NearDuplicateName { similar, .. } => assert_eq!(similar, ["Reports"]),
        other => panic!("expected NearDuplicateName, got {other:?}"),
    }
    assert!(!w.dirs.contains("/s/Repotrs"));
    assert_eq!(run_mkdir(&mut w, "/s/Repotrs", true).unwrap(), ["Reports"]);
    assert!(w.dirs.contains("/s/Repotrs"));
    assert_eq!(w.audits, [(AuditKind::DirCreate, "mkdir with confirm_new past similar: Reports".to_string())]);
    assert!(run_mkdir(&mut w, "/s/Invoices", false).unwrap().is_empty());
}

#[test]
fn a_directory_needs_the_one_above_it() {
    let mut w = World::default();
    match run_mkdir(&mut w, "/s/missing/d", false).unwrap_err() {
        ChaprError::ParentMissing { path: p, parent } => assert_eq!((p, parent), (path("/s/missing/d"), path("/s/missing"))),
        other => panic!("expected ParentMissing, got {other:?}"),
    }
    match mkdir(BackendKind::Smb, &NoMountTable, &[], who(), sess(), "\\\\srv\\share", false) {
        Err(ChaprError::InvalidPath { reason, .. }) => assert_eq!(reason, "a share root cannot be created"),
        _ => panic!("a share root cannot be made"),
    }
}

// ---- half-done moves ----

fn entry(src: &str, dst: &str, version: VersionToken, pre: Option<PreImage>) -> MoveJournalEntry {
    MoveJournalEntry {
        src: path(src),
        dst: path(dst),
        principal: Principal::new_unchecked("CONTOSO\\interrupted".to_string()),
        version,
        size: 0,
        overwrite: pre.is_some(),
        dst_pre_image: pre,
    }
}

fn run_resolve(w: &mut World, e: &MoveJournalEntry) -> Outcome {
    match resolve_one(POSIX, &[], &who(), &sess(), e).run(w).phase {
        ResolvePhase::Finished(r) => r.unwrap(),
        _ => panic!("the resolution did not finish"),
    }
}

#[test]
fn a_committed_rename_gets_its_migration_finished() {
    let mut w = World::with(&[("/s/dst.txt", b"the moved bytes")]);
    let e = entry("/s/src.txt", "/s/dst.txt", hash(b"the moved bytes"), None);
    assert_eq!(run_resolve(&mut w, &e), Outcome::Completed);
    assert_eq!(w.calls, ["move_paths"]);
}

#[test]
fn a_rename_that_never_happened_is_abandoned_not_completed() {
    let mut w = World::with(&[("/s/src.txt", b"never moved")]);
    let e = entry("/s/src.txt", "/s/dst.txt", hash(b"never moved"), None);
    assert_eq!(run_resolve(&mut w, &e), Outcome::Abandoned);
    assert_eq!(w.calls, ["clear_move"]);
    assert!(w.files.contains_key("/s/src.txt"), "abandoning must not touch the file");
}

#[test]
fn a_destination_written_since_the_move_is_left_for_a_human() {
    let mut w = World::with(&[("/s/dst.txt", b"someone wrote this later")]);
    let e = entry("/s/src.txt", "/s/dst.txt", hash(b"the moved bytes"), None);
    match run_resolve(&mut w, &e) {
        Outcome::NeedsHuman(why) => assert!(why.contains("written since"), "the reason must say what is wrong: {why}"),
        other => panic!("expected NeedsHuman, got {other:?}"),
    }
    assert!(w.calls.is_empty(), "an unresolvable move must change nothing");
}

#[test]
fn neither_path_existing_is_left_for_a_human() {
    let mut w = World::default();
    let e = entry("/s/gone.txt", "/s/also-gone.txt", hash(b"whatever"), None);
    assert_eq!(
        run_resolve(&mut w, &e),
        Outcome::NeedsHuman(
            "neither /s/gone.txt nor /s/also-gone.txt exists; the file is not where either name says".to_string()
        )
    );
    assert!(w.calls.is_empty());
}

#[test]
fn an_overwrite_moves_pre_image_survives_into_the_completion() {
    let mut w = World::with(&[("/s/dst.txt", b"the moved bytes")]);
    let pre = PreImage { version: hash(b"replaced"), size: 8 };
    let e = entry("/s/src.txt", "/s/dst.txt", hash(b"the moved bytes"), Some(pre.clone()));
    assert_eq!(run_resolve(&mut w, &e), Outcome::Completed);
    let (overwrite, sent, acted) = w.moved.unwrap();
    assert_eq!(sent, Some(pre));
    assert!(overwrite);
    assert_eq!(acted, who(), "the recovering principal acted, and the trail should say so");
}

#[test]
fn a_sweep_reports_every_conclusion_it_reached() {
    let mut w = World::with(&[("/s/a-moved.txt", b"moved"), ("/s/b.txt", b"still here")]);
    let entries = vec![
        entry("/s/a.txt", "/s/a-moved.txt", hash(b"moved"), None),
        entry("/elsewhere/x.txt", "/s/x.txt", hash(b"x"), None),
        entry("/s/b.txt", "/s/b-moved.txt", hash(b"still here"), None),
        entry("/s/c.txt", "/s/c-moved.txt", hash(b"gone"), None),
    ];
    let roots = vec![path("/s")];
    let mut s = sweep(POSIX, &roots, who(), sess(), entries);
    while !s.is_over() {
        let answer = w.perform(s.current.as_ref().unwrap().action()).unwrap();
        s.advance(&roots, answer);
    }
    let report = s.report;
    assert_eq!(report.completed, 1);
    assert_eq!(report.abandoned, 1);
    assert_eq!(report.not_ours, 1);
    assert_eq!(report.needs_human.len(), 1);
    assert_eq!(report.needs_human[0].0.src, path("/s/c.txt"));
    assert!(report.failed.is_empty());
    assert!(!report.is_empty());
    assert!(sweep(POSIX, &[], who(), sess(), Vec::new()).report.is_empty());
}

// ---- what a model reads and writes back ----

fn serve(w: &mut World, uri: &str, allow_binary: bool) -> (String, VersionToken) {
    let op = read(POSIX, &NoMountTable, &[], fast_cfg(), who(), sess(), uri).unwrap();
    match op.run(w).phase {
        ReadPhase::Finished(Ok(resp)) => match answer_read(&resp, allow_binary, DEFAULT_MAX_INLINE_BYTES, uri) {
            ReadAnswer::Served(text) => (text, resp.version.unwrap()),
            ReadAnswer::TooLarge(text) => panic!("too large: {text}"),
            ReadAnswer::Refused(r) => panic!("refused: {}", r.message(uri)),
        },
        _ => panic!("the read failed"),
    }
}

fn body(envelope: &str) -> String {
    let parts: Vec<&str> = envelope.split("\n---\n").collect();
    assert_eq!(parts.len(), 3, "envelope must have two fences:\n{envelope}");
    parts[1].to_string()
}

fn write_back(w: &mut World, uri: &str, content: String, encoding: ContentEncoding, base: VersionToken) -> Result<VersionToken, ChaprError> {
    let q = write_request(WriteArgs {
        uri: uri.to_string(),
        content,
        encoding,
        base_version: base.0,
        force_reason: None,
    })
    .unwrap();
    let verb = chapr_endpoint::write::write(POSIX, false, &NoMountTable, &[], who(), sess(), &q.uri, q.content, q.base_version, q.mode)?;
    match verb.run(w).phase {
        WriteVerbPhase::Finished(r) => r,
        _ => panic!("the verb did not finish"),
    }
}

#[test]
fn mcp_round_trip_preserves_binary_bytes() {
    let mut original = vec![0x50, 0x4b, 0x03, 0x04, 0x14, 0x00, 0x00, 0x00];
    original.extend((0u8..=255).rev());
    let mut w = World::with(&[("/s/book.xlsx", &original)]);
    let (out, version) = serve(&mut w, "/s/book.xlsx", true);
    assert!(out.contains("encoding=base64"));
    assert!(!out.contains('\u{FFFD}'), "no lossy replacement chars");
    write_back(&mut w, "/s/book.xlsx", body(&out), ContentEncoding::Base64, version).expect("write");
    assert_eq!(w.files["/s/book.xlsx"], original, "read -> write must not alter the file");
}

#[test]
fn mcp_round_trip_keeps_text_as_text() {
    let original = "# Tilbud\n\nPris: 1.000 kr — inkl. moms\n".as_bytes().to_vec();
    let mut w = World::with(&[("/s/tilbud.md", &original)]);
    let (out, version) = serve(&mut w, "/s/tilbud.md", false);
    assert!(out.contains("encoding=utf8"));
    assert!(out.contains("Pris: 1.000 kr"), "text must be readable in-band");
    write_back(&mut w, "/s/tilbud.md", body(&out), ContentEncoding::Utf8, version).expect("write");
    assert_eq!(w.files["/s/tilbud.md"], original);
}

#[test]
fn any_utf8_write_can_be_read_back_as_text() {
    for (n, text) in [
        "Tilbud til \u{e6}ble A/S\r\nPris: 100 kr\r\n",
        "S\u{f8}ren \u{c5}strup — \u{201c}quoted\u{201d}, \u{20ac}100, 50\u{a0}%",
        "emoji \u{1F600} and CJK \u{4e2d}\u{6587}",
        "\u{feff}a BOM as the first character of the content",
        "",
    ]
    .iter()
    .enumerate()
    {
        let uri = format!("/s/mirror{n}.txt");
        let mut w = World::with(&[(uri.as_str(), b"seed")]);
        let (_, version) = serve(&mut w, &uri, false);
        write_back(&mut w, &uri, text.to_string(), ContentEncoding::Utf8, version).expect("write");
        let (back, _) = serve(&mut w, &uri, false);
        assert!(back.contains("encoding=utf8"), "case {n}");
        assert_eq!(body(&back), *text, "case {n}");
    }
}

#[test]
fn base64_body_written_back_as_text_is_refused() {
    let mut original = vec![0x50, 0x4b, 0x03, 0x04];
    original.extend((0u8..=255).rev());
    let mut w = World::with(&[("/s/book.xlsx", &original)]);
    let (out, version) = serve(&mut w, "/s/book.xlsx", true);
    let e = write_back(&mut w, "/s/book.xlsx", body(&out), ContentEncoding::Utf8, version)
        .expect_err("writing the base64 transcript as text must be refused");
    assert!(e.message().contains("base64"), "the error must name the fix: {e:?}");
    assert_eq!(w.files["/s/book.xlsx"], original, "the file must be untouched");
}

#[test]
fn wrapped_base64_written_back_as_text_is_refused() {
    let mut original = vec![0x50, 0x4b, 0x03, 0x04];
    original.extend((0u8..=255).rev());
    original.extend((0u8..=255).cycle().take(600));
    let mut w = World::with(&[("/s/wrapped.xlsx", &original)]);
    let (out, version) = serve(&mut w, "/s/wrapped.xlsx", true);
    let body = body(&out);
    let wrapped = body
        .as_bytes()
        .chunks(76)
        .map(|c| String::from_utf8_lossy(c).into_owned())
        .collect::<Vec<_>>()
        .join("\n");
    assert_ne!(wrapped.len(), body.len(), "fixture must actually be wrapped");
    let e = write_back(&mut w, "/s/wrapped.xlsx", wrapped, ContentEncoding::Utf8, version)
        .expect_err("a wrapped base64 transcript written as text must be refused");
    assert!(e.message().contains("base64"), "the error must name the fix: {e:?}");
    assert_eq!(w.files["/s/wrapped.xlsx"], original, "the file must be untouched");
}

#[test]
fn ordinary_text_write_still_succeeds_after_the_guard_change() {
    let mut w = World::with(&[("/s/notes.md", b"# gamle noter\n")]);
    let (_, version) = serve(&mut w, "/s/notes.md", false);
    let new = "# nye noter\n\nmed flere linjer\nog en pris: 1.000 kr\n";
    write_back(&mut w, "/s/notes.md", new.to_string(), ContentEncoding::Utf8, version)
        .expect("an ordinary text write must not trip the transcript guard");
    assert_eq!(w.files["/s/notes.md"], new.as_bytes());
}

#[test]
fn a_base64_write_of_code_page_bytes_is_accepted_then_refused_on_read() {
    let mut w = World::with(&[("/s/mirror.txt", b"seed")]);
    let (_, version) = serve(&mut w, "/s/mirror.txt", false);
    let mut cp1252 = b"Tilbud til ".to_vec();
    cp1252.push(0xE6);
    cp1252.extend_from_slice(b"ble\r\n");
    let encoded = "VGlsYnVkIHRpbCDmYmxlDQo=".to_string();
    write_back(&mut w, "/s/mirror.txt", encoded, ContentEncoding::Base64, version).expect("the write path does not guard");
    assert_eq!(w.files["/s/mirror.txt"], cp1252, "bytes land verbatim");
    let op = read(POSIX, &NoMountTable, &[], fast_cfg(), who(), sess(), "/s/mirror.txt").unwrap();
    match op.run(&mut w).phase {
        ReadPhase::Finished(Ok(resp)) => match answer_read(&resp, false, DEFAULT_MAX_INLINE_BYTES, "/s/mirror.txt") {
            ReadAnswer::Refused(r) => assert!(r.message("/s/mirror.txt").contains("single-byte code page")),
            _ => panic!("and the next read refuses it"),
        },
        _ => panic!("the read failed"),
    }
}

#[test]
fn oversized_write_fails_closed_with_the_file_intact() {
    let original = vec![b'a'; 4096];
    assert!(original.len() < chapr_endpoint::backend::MAX_PRE_IMAGE_BYTES);
    let mut w = World::with(&[("/s/big.bin", &original)]);
    let (out, version) = serve(&mut w, "/s/big.bin", false);
    write_back(&mut w, "/s/big.bin", body(&out), ContentEncoding::Utf8, version).expect("write under the cap must succeed");
    assert_eq!(w.files["/s/big.bin"], original);
}

// ---- decisions on versions that are known ----

fn a_write(base: &[u8], mode: WriteMode) -> WriteCas {
    let args = WriteCasArgs {
        path: path("/s/a.md"),
        lease_id: lease(),
        content: b"new".to_vec(),
        base_version: hash(base),
        mode,
    };
    WriteCas::begin(POSIX, false, who(), sess(), args)
}

#[test]
fn a_write_is_judged_by_size_then_form_then_version() {
    let w = a_write(b"old", WriteMode::Cas);
    assert_eq!(w.judge(3, &hash(b"old"), false), Verdict::Swap);
    assert_eq!(w.judge(3, &hash(b"other"), false), Verdict::Conflict);
    assert_eq!(w.judge(3, &hash(b"other"), true), Verdict::Transcript);
    assert_eq!(w.judge(MAX_PRE_IMAGE_BYTES, &hash(b"old"), false), Verdict::Swap);
    assert_eq!(w.judge(MAX_PRE_IMAGE_BYTES + 1, &hash(b"old"), true), Verdict::TooLarge);
    let forced = a_write(b"old", WriteMode::Force { reason: "agreed by phone".to_string() });
    assert_eq!(forced.judge(3, &hash(b"other"), false), Verdict::Swap);
    assert_eq!(forced.judge(3, &hash(b"other"), true), Verdict::Transcript);
}

#[test]
fn a_delete_goes_on_at_the_version_it_names() {
    let args = DeleteCasArgs { path: path("/s/a.md"), lease_id: lease(), base_version: hash(b"old") };
    let op = DeleteCas::begin(POSIX, false, who(), args);
    match op.compare(hash(b"old"), b"old".to_vec()) {
        DeletePhase::Storing { v_now, current } => assert_eq!((v_now, current), (hash(b"old"), b"old".to_vec())),
        _ => panic!("the version is the one that was read"),
    }
    match op.compare(hash(b"changed"), b"changed".to_vec()) {
        DeletePhase::Attributing { v_now } => assert_eq!(v_now, hash(b"changed")),
        _ => panic!("the version is another one"),
    }
}

#[test]
fn a_restore_goes_on_at_the_version_its_caller_saw() {
    let begin = |base| {
        let args =
            RestoreInPlaceArgs { path: path("/s/a.md"), lease_id: lease(), bytes: OLD.to_vec(), version: hash(OLD), base };
        RestoreInPlace::begin(POSIX, false, who(), args)
    };
    let seen = begin(RestoreBase::Version(hash(b"live")));
    assert!(matches!(seen.compare(hash(b"live"), b"live".to_vec()), RestorePhase::Storing { .. }));
    assert!(matches!(seen.compare(hash(b"moved on"), b"moved on".to_vec()), RestorePhase::Attributing { .. }));
    let absent = begin(RestoreBase::Absent);
    assert!(matches!(absent.compare(hash(b"live"), b"live".to_vec()), RestorePhase::Attributing { .. }));
}

#[test]
fn a_move_goes_on_at_the_versions_it_names() {
    let args = MoveCasArgs {
        src: path("/s/a"),
        dst: path("/s/b"),
        src_base_version: hash(b"src"),
        dst_base_version: Some(hash(b"dst")),
        lease_id: lease(),
    };
    let op = MoveCas::begin(POSIX, who(), sess(), args);
    assert!(matches!(op.compare_src(hash(b"src"), 3), MovePhase::Asking { size: 3, .. }));
    assert!(matches!(op.compare_src(hash(b"changed"), 7), MovePhase::Attributing { .. }));
    let at = |now: &[u8]| op.compare_dst(hash(b"src"), 3, hash(b"dst"), hash(now), now.to_vec());
    assert!(matches!(at(b"dst"), MovePhase::DstStoring { .. }));
    assert!(matches!(at(b"changed"), MovePhase::DstAttributing { .. }));
}

#[test]
fn what_an_interrupted_write_left_is_judged_by_its_version() {
    let op = read(POSIX, &NoMountTable, &[], fast_cfg(), who(), sess(), "/s/a.md").unwrap();
    let from = |intended: Option<VersionToken>| RecoveredFrom {
        version: hash(b"before"),
        interrupted_writer: who(),
        at: now(),
        intended_version: intended,
    };
    assert!(matches!(
        op.judge(from(Some(hash(b"after"))), hash(b"after"), b"after".to_vec(), Some(2)),
        ReadPhase::Clearing { open: Some(2), .. }
    ));
    assert!(matches!(
        op.judge(from(Some(hash(b"after"))), hash(b"torn"), b"torn".to_vec(), None),
        ReadPhase::Fetching { .. }
    ));
    assert!(matches!(op.judge(from(None), hash(b"left"), b"left".to_vec(), None), ReadPhase::Fetching { .. }));
}

#[test]
fn an_interrupted_move_is_judged_by_what_is_at_its_destination() {
    let e = entry("/s/src.txt", "/s/dst.txt", hash(b"moved"), None);
    let op = resolve_one(POSIX, &[], &who(), &sess(), &e);
    assert!(matches!(op.judge(&hash(b"moved")), ResolvePhase::Migrating));
    match op.judge(&hash(b"later")) {
        ResolvePhase::Finished(Ok(Outcome::NeedsHuman(why))) => assert_eq!(
            why,
            format!(
                "/s/dst.txt holds {} but the interrupted move recorded {}; it has been written since, so completing the \
                 migration would record a version the file no longer has",
                hash(b"later").as_str(),
                hash(b"moved").as_str()
            )
        ),
        _ => panic!("the destination has been written since"),
    }
}

#[test]
fn a_destination_that_a_person_has_open_is_not_replaced() {
    let (src, dst) = ("\\\\srv\\s\\a.docx", "\\\\srv\\s\\report.docx");
    for lock in ["\\\\srv\\s\\~$report.docx", "\\\\srv\\s\\~$port.docx"] {
        let mut w = World::with(&[(src, b"new"), (dst, b"the person's work"), (lock, b"lock")]);
        let args = MoveCasArgs {
            src: path(src),
            dst: path(dst),
            src_base_version: hash(b"new"),
            dst_base_version: Some(hash(b"the person's work")),
            lease_id: lease(),
        };
        match MoveCas::begin(BackendKind::Smb, who(), sess(), args).run(&mut w).phase {
            MovePhase::Finished(Err(ChaprError::OfficeLockPresent { path: p, lock_file })) => {
                assert_eq!(p, path(dst));
                assert_eq!(lock_file, path(lock));
            }
            _ => panic!("a person has the destination open"),
        }
        assert_eq!(w.files[dst], b"the person's work");
        assert!(w.calls.is_empty(), "nothing was asked of the coordinator");
    }
}

#[test]
fn the_source_is_held_from_its_check_to_the_rename() {
    let mut w = World::with(&[("/s/src.txt", b"the winner"), ("/s/dst.txt", b"the replaced")]);
    let args = MoveCasArgs {
        src: path("/s/src.txt"),
        dst: path("/s/dst.txt"),
        src_base_version: hash(b"the winner"),
        dst_base_version: Some(hash(b"the replaced")),
        lease_id: lease(),
    };
    let mut op = MoveCas::begin(POSIX, who(), sess(), args);
    let mut seen: Vec<String> = Vec::new();
    loop {
        match op.action() {
            Action::Open(p) => seen.push(format!("open {}", p.as_str())),
            Action::ReadAll(p) => seen.push(format!("read {}", p.as_str())),
            Action::Close(p) => seen.push(format!("close {}", p.as_str())),
            Action::Rename { .. } => seen.push("rename".to_string()),
            _ => {}
        }
        match w.perform(op.action()) {
            Some(answer) => op = op.advance(answer),
            None => break,
        }
    }
    assert_eq!(
        seen,
        [
            "open /s/src.txt",
            "read /s/src.txt",
            "open /s/dst.txt",
            "read /s/dst.txt",
            "close /s/dst.txt",
            "rename",
            "close /s/src.txt"
        ]
    );
}
