//! The self-test of a deployment: does this machine, with these settings, get
//! from the share and the coordinator what it needs.
//!
//! A check that could not be made is a skip, and a skip is never a pass.
use vstd::prelude::*;

use crate::proto::{BackendKind, CanonicalPath, ChaprError, VersionToken};
use crate::text::{
    blank, chars_of, decimal, decimal_text, is_blank, join, joined, mentions, own, quoted, quoted_text, same, slice_of,
    spelled, views,
};

verus! {

/// What a check came to.
#[derive(Clone, Copy, Debug, PartialEq, Eq, Structural)]
pub enum Verdict {
    /// It holds.
    Pass,
    /// It does not hold.
    Fail,
    /// It was not made.
    Skip,
}

/// One line of the report.
#[derive(Debug)]
pub struct Line {
    /// What was checked.
    pub what: String,
    /// What it came to.
    pub verdict: Verdict,
    /// What is to be said of it.
    pub detail: String,
}

/// A line by its texts.
pub struct Said {
    /// What was checked.
    pub what: Seq<char>,
    /// What it came to.
    pub verdict: Verdict,
    /// What is to be said of it.
    pub detail: Seq<char>,
}

impl View for Line {
    type V = Said;

    open spec fn view(&self) -> Said {
        Said { what: self.what@, verdict: self.verdict, detail: self.detail@ }
    }
}

/// The lines of a report by their texts.
pub open spec fn said(lines: Seq<Line>) -> Seq<Said> {
    lines.map_values(|l: Line| l@)
}

/// The report.
#[derive(Debug)]
pub struct TestReport {
    /// Its lines, in the order of the checks.
    pub lines: Vec<Line>,
}

/// How many lines came to a verdict.
pub open spec fn tally(lines: Seq<Said>, v: Verdict) -> nat
    decreases lines.len(),
{
    if lines.len() == 0 {
        0
    } else {
        tally(lines.drop_last(), v) + if lines.last().verdict == v { 1nat } else { 0nat }
    }
}

/// A line as it is printed.
pub open spec fn line_text(l: Said) -> Seq<char> {
    (match l.verdict {
        Verdict::Pass => "  PASS  "@,
        Verdict::Fail => "  FAIL  "@,
        Verdict::Skip => "  SKIP  "@,
    }) + l.what + "\n          "@ + l.detail
}

pub open spec fn totals_text(lines: Seq<Said>) -> Seq<char> {
    "\n  "@ + decimal_text(tally(lines, Verdict::Pass)) + " passed, "@ + decimal_text(tally(lines, Verdict::Fail))
        + " failed, "@ + decimal_text(tally(lines, Verdict::Skip)) + " skipped"@
}

/// What is printed of a report: an empty line, the checks, the totals, and a
/// word on skips where there are any.
pub open spec fn printed(lines: Seq<Said>) -> Seq<Seq<char>> {
    seq![""@] + lines.map_values(|l: Said| line_text(l)) + seq![totals_text(lines)] + (if tally(lines, Verdict::Skip) > 0 {
        seq!["  A skipped check was not verified. It is not a pass."@]
    } else {
        Seq::empty()
    })
}

/// The exit code for a number of failures.
pub open spec fn code_of(failed: nat) -> u8 {
    if failed > 255 {
        255
    } else {
        failed as u8
    }
}

proof fn tallies_add_up(lines: Seq<Said>)
    ensures
        tally(lines, Verdict::Pass) + tally(lines, Verdict::Fail) + tally(lines, Verdict::Skip) == lines.len(),
    decreases lines.len(),
{
    if lines.len() > 0 {
        tallies_add_up(lines.drop_last());
    }
}

impl TestReport {
    /// A report without lines.
    pub fn new() -> (r: TestReport)
        ensures
            r.lines@.len() == 0,
    {
        TestReport { lines: Vec::new() }
    }

    /// One more line.
    pub fn add(&mut self, what: &str, verdict: Verdict, detail: String)
        ensures
            said(final(self).lines@) == said(old(self).lines@).push(Said { what: what@, verdict, detail: detail@ }),
    {
        let ghost was = said(self.lines@);
        let ghost text = detail@;
        self.lines.push(Line { what: own(what), verdict, detail });
        assert(said(self.lines@) =~= was.push(Said { what: what@, verdict, detail: text }));
    }

    /// What is to be printed of the report, and the exit code.
    pub fn finish(&self) -> (r: (Vec<String>, u8))
        ensures
            views(r.0@) == printed(said(self.lines@)),
            r.1 == code_of(tally(said(self.lines@), Verdict::Fail)),
    {
        let ghost all = said(self.lines@);
        let mut out: Vec<String> = Vec::new();
        out.push(own(""));
        let mut passed: u64 = 0;
        let mut failed: u64 = 0;
        let mut skipped: u64 = 0;
        let mut i: usize = 0;
        assert(all.take(0) =~= Seq::empty());
        while i < self.lines.len()
            invariant
                all == said(self.lines@),
                i <= self.lines@.len(),
                out@.len() == i + 1,
                out@[0]@ == ""@,
                forall|k: int| 0 <= k < i ==> (#[trigger] out@[k + 1])@ == line_text(all[k]),
                passed == tally(all.take(i as int), Verdict::Pass),
                failed == tally(all.take(i as int), Verdict::Fail),
                skipped == tally(all.take(i as int), Verdict::Skip),
                passed + failed + skipped == i,
            decreases self.lines@.len() - i,
        {
            let l = &self.lines[i];
            let ghost before = out@;
            proof {
                assert(all.take(i + 1).drop_last() =~= all.take(i as int));
                assert(all.take(i + 1).last() == l@);
            }
            let mut s = match l.verdict {
                Verdict::Pass => own("  PASS  "),
                Verdict::Fail => own("  FAIL  "),
                Verdict::Skip => own("  SKIP  "),
            };
            match l.verdict {
                Verdict::Pass => {
                    passed = passed + 1;
                },
                Verdict::Fail => {
                    failed = failed + 1;
                },
                Verdict::Skip => {
                    skipped = skipped + 1;
                },
            }
            s.append(l.what.as_str());
            s.append("\n          ");
            s.append(l.detail.as_str());
            out.push(s);
            assert forall|k: int| 0 <= k < i + 1 implies (#[trigger] out@[k + 1])@ == line_text(all[k]) by {
                if k < i {
                    assert(out@[k + 1] == before[k + 1]);
                }
            }
            i = i + 1;
        }
        assert(all.take(self.lines@.len() as int) =~= all);
        let mut totals = own("\n  ");
        totals.append(decimal(passed).as_str());
        totals.append(" passed, ");
        totals.append(decimal(failed).as_str());
        totals.append(" failed, ");
        totals.append(decimal(skipped).as_str());
        totals.append(" skipped");
        out.push(totals);
        if skipped > 0 {
            out.push(own("  A skipped check was not verified. It is not a pass."));
        }
        proof {
            let p = printed(all);
            assert(views(out@).len() == p.len());
            assert forall|k: int| 0 <= k < p.len() implies #[trigger] views(out@)[k] == p[k] by {
                if 0 < k <= all.len() {
                    let m = k - 1;
                    assert(out@[m + 1]@ == line_text(all[m]));
                }
            }
            assert(views(out@) =~= p);
        }
        let code: u8 = if failed > 255 { 255 } else { failed as u8 };
        (out, code)
    }
}

/// Every line of a report is counted once: as a pass, a failure or a skip.
pub proof fn every_line_is_counted(lines: Seq<Said>)
    ensures
        tally(lines, Verdict::Pass) + tally(lines, Verdict::Fail) + tally(lines, Verdict::Skip) == lines.len(),
{
    tallies_add_up(lines);
}

pub const NO_FOLDER_TEXT: &'static str = "\n  Set CHAPR_SELFTEST_DIR to a folder on the coordinated share to test against,\n  e.g. CHAPR_SELFTEST_DIR=\\\\FILESRV01\\Share\\chapr-selftest\n\n  It must be inside the share this endpoint is configured for. Nothing was run.";

/// The folder to test in: that of its own setting, or else the root.
pub fn test_folder(own_setting: Option<String>, root: Option<String>) -> (r: Option<String>)
    ensures
        r == match own_setting {
            Some(s) => if is_blank(s@) {
                None
            } else {
                Some(s)
            },
            None => match root {
                Some(s) => if is_blank(s@) {
                    None
                } else {
                    Some(s)
                },
                None => None,
            },
        },
{
    let dir = match own_setting {
        Some(s) => Some(s),
        None => root,
    };
    match dir {
        Some(s) => if blank(s.as_str()) {
            None
        } else {
            Some(s)
        },
        None => None,
    }
}

/// Where the part of an address behind the scheme begins, looked for from `i`
/// on.
pub open spec fn scheme_end(s: Seq<char>, i: int) -> int
    decreases s.len() - i,
{
    if i < 0 || i + 3 > s.len() {
        0
    } else if s[i] == ':' && s[i + 1] == '/' && s[i + 2] == '/' {
        i + 3
    } else {
        scheme_end(s, i + 1)
    }
}

/// A text up to the first slash or colon.
pub open spec fn up_to_mark(s: Seq<char>) -> Seq<char>
    decreases s.len(),
{
    if s.len() == 0 || s[0] == '/' || s[0] == ':' {
        Seq::empty()
    } else {
        seq![s[0]] + up_to_mark(s.drop_first())
    }
}

/// The host that an address names.
pub open spec fn host_text(url: Seq<char>) -> Seq<char> {
    up_to_mark(url.skip(scheme_end(url, 0)))
}

/// The host that an address names.
pub fn host_of(url: &str) -> (r: String)
    ensures
        r@ == host_text(url@),
{
    let v = chars_of(url);
    let mut from: usize = 0;
    let mut i: usize = 0;
    let n = v.len();
    while n - i >= 3 && !(v[i] == ':' && v[i + 1] == '/' && v[i + 2] == '/')
        invariant
            n == v@.len(),
            i <= n,
            scheme_end(v@, 0) == scheme_end(v@, i as int),
        decreases n - i,
    {
        i = i + 1;
    }
    if n - i >= 3 {
        from = i + 3;
    }
    assert(from == scheme_end(v@, 0));
    let ghost rest = v@.skip(from as int);
    let mut to: usize = from;
    assert(v@.subrange(from as int, from as int) =~= Seq::<char>::empty());
    assert(Seq::<char>::empty() + up_to_mark(rest) =~= up_to_mark(rest));
    while to < n && v[to] != '/' && v[to] != ':'
        invariant
            n == v@.len(),
            from <= to <= n,
            up_to_mark(rest) == v@.subrange(from as int, to as int) + up_to_mark(v@.skip(to as int)),
        decreases n - to,
    {
        let ghost here = v@.skip(to as int);
        proof {
            assert(here.drop_first() =~= v@.skip(to + 1));
            assert(here[0] == v@[to as int]);
            assert(v@.subrange(from as int, to as int) + (seq![here[0]] + up_to_mark(v@.skip(to + 1)))
                =~= v@.subrange(from as int, to + 1) + up_to_mark(v@.skip(to + 1)));
        }
        to = to + 1;
    }
    proof {
        let here = v@.skip(to as int);
        if to < n {
            assert(here[0] == v@[to as int]);
        }
        assert(up_to_mark(here) =~= Seq::<char>::empty());
        assert(v@.subrange(from as int, to as int) + Seq::<char>::empty() =~= v@.subrange(from as int, to as int));
    }
    spelled(slice_of(&v, from, to).as_slice())
}

/// The names under which a machine reaches itself.
pub open spec fn is_loopback(host: Seq<char>) -> bool {
    host == "127.0.0.1"@ || host == "localhost"@ || host == "::1"@ || host == "0.0.0.0"@
}

/// Whether a path begins with a drive letter.
pub open spec fn on_drive(dir: Seq<char>) -> bool {
    dir.len() >= 2 && dir[1] == ':' && ('a' <= dir[0] <= 'z' || 'A' <= dir[0] <= 'Z')
}

fn looks_like_drive(dir: &str) -> (r: bool)
    ensures
        r == on_drive(dir@),
{
    let v = chars_of(dir);
    v.len() >= 2 && v[1] == ':' && (('a' <= v[0] && v[0] <= 'z') || ('A' <= v[0] && v[0] <= 'Z'))
}

pub const REACHABLE: &'static str = "coordinator reachable";
pub const NOT_LOOPBACK: &'static str = "coordinator URL is not loopback";
pub const BACKEND: &'static str = "backend available";
pub const MAPPED: &'static str = "mapped drive resolves to UNC";
pub const ROOT_USABLE: &'static str = "CHAPR_ROOT is usable";
pub const CONFINED: &'static str = "test folder is inside the coordinated share";
pub const WRITABLE: &'static str = "test folder is writable";
pub const ROUND_TRIP: &'static str = "write then read back, byte-identical";
pub const CONTENTION: &'static str = "two sessions contending on one file";
pub const LOCK: &'static str = "exclusive open is honoured by the server";

pub const UNREACHABLE_HINT: &'static str = ". Check the URL, the port, and — if it is https — whether this laptop trusts the certificate.";
pub const LOOPBACK_HINT: &'static str = ", which on a laptop means this laptop. Every user needs the coordinator's hostname. This is the defect D-032 fixed on the coordinator side — a laptop configured before that fix still carries it.";
pub const NO_DRIVE_HINT: &'static str = ") is not on a drive letter, so nothing was resolved. To exercise this, point CHAPR_SELFTEST_DIR at a mapped drive instead.";
pub const LOCAL_DRIVE_HINT: &'static str = " is on a local disk, not a mapped network drive, so there was nothing to resolve. Point CHAPR_SELFTEST_DIR at a mapped drive on the share to exercise this.";
pub const UNCONFINED_A: &'static str = "CHAPR_ROOT is not set, so confinement is off and every path passes — nothing was actually checked. The path canonicalises to ";
pub const UNCONFINED_B: &'static str = ". Set CHAPR_ROOT to the coordinated share to test this for real.";
pub const DIFFERENT: &'static str = "the bytes on the share differ from what was written";
pub const NO_BASE_FILE: &'static str = "skipped because the base file could not be created";
pub const ONE_WINNER: &'static str = "exactly one writer won and the other was told — no silent lost update";
pub const NOT_ONE_WINNER: &'static str = " refusals; exactly one of each is the only correct outcome. More than one winner means a lost update.";
pub const LOCK_ELSEWHERE: &'static str = "this check is Windows/SMB-specific; the POSIX backend uses advisory flock";
pub const LOCK_FIRST_HINT: &'static str = ". Something else already holds this file — most often antivirus or a backup agent scanning the share. Exclude the share from real-time scanning.";
pub const LOCK_HELD: &'static str = "a second exclusive open was refused while the first was held — the lock is real, so the write path's correctness core holds";
pub const LOCK_BROKEN: &'static str = "a SECOND exclusive open SUCCEEDED. This server is not enforcing FILE_SHARE_NONE, so two sessions can write the same file at once and the write path cannot protect against a lost update. Do not roll out against this share until this is understood.";

/// How one of two contending writers fared.
pub enum Contender {
    /// It wrote.
    Won,
    /// It was refused.
    Refused(ChaprError),
    /// It broke, and how.
    Broken(String),
}

/// Whether a refusal is a correct way to lose: the lock refused, the version
/// check refused, or the version was never current.
pub open spec fn is_fair_loss(e: ChaprError) -> bool {
    e is Conflict || e is LeaseHeld || e is BaseVersionNotRecorded
}

/// How many contenders won.
pub open spec fn winners(c: Seq<Contender>) -> nat
    decreases c.len(),
{
    if c.len() == 0 {
        0
    } else {
        winners(c.drop_last()) + if c.last() is Won { 1nat } else { 0nat }
    }
}

/// How many contenders lost fairly.
pub open spec fn losers(c: Seq<Contender>) -> nat
    decreases c.len(),
{
    if c.len() == 0 {
        0
    } else {
        losers(c.drop_last()) + if c.last() matches Contender::Refused(e) && is_fair_loss(e) { 1nat } else { 0nat }
    }
}

/// What went wrong that should not have.
pub open spec fn surprises(c: Seq<Contender>) -> Seq<Seq<char>>
    decreases c.len(),
{
    if c.len() == 0 {
        Seq::empty()
    } else {
        match c.last() {
            Contender::Refused(e) => if is_fair_loss(e) {
                surprises(c.drop_last())
            } else {
                surprises(c.drop_last()).push(e.text())
            },
            Contender::Broken(how) => surprises(c.drop_last()).push("task panicked: "@ + how@),
            Contender::Won => surprises(c.drop_last()),
        }
    }
}

/// What the contention came to.
pub open spec fn contention_line(c: Seq<Contender>) -> Said {
    if surprises(c).len() > 0 {
        Said { what: CONTENTION@, verdict: Verdict::Fail, detail: "unexpected failures: "@ + joined(surprises(c), "; "@) }
    } else if winners(c) == 1 && losers(c) == 1 {
        Said { what: CONTENTION@, verdict: Verdict::Pass, detail: ONE_WINNER@ }
    } else {
        Said {
            what: CONTENTION@,
            verdict: Verdict::Fail,
            detail: decimal_text(winners(c)) + " winners and "@ + decimal_text(losers(c)) + NOT_ONE_WINNER@,
        }
    }
}

/// Judges how the contenders fared: exactly one must have won, and the other
/// must have been told.
pub fn contention_check(report: &mut TestReport, contenders: &Vec<Contender>)
    ensures
        said(final(report).lines@) == said(old(report).lines@).push(contention_line(contenders@)),
{
    let mut won: u64 = 0;
    let mut told: u64 = 0;
    let mut unexpected: Vec<String> = Vec::new();
    let mut i: usize = 0;
    assert(views(unexpected@) =~= Seq::empty());
    while i < contenders.len()
        invariant
            i <= contenders@.len(),
            won == winners(contenders@.take(i as int)),
            told == losers(contenders@.take(i as int)),
            won + told <= i,
            views(unexpected@) == surprises(contenders@.take(i as int)),
        decreases contenders@.len() - i,
    {
        let ghost was = views(unexpected@);
        assert(contenders@.take(i + 1).drop_last() =~= contenders@.take(i as int));
        match &contenders[i] {
            Contender::Won => {
                won = won + 1;
            },
            Contender::Refused(e) => {
                let fair = matches!(
                    e,
                    ChaprError::Conflict { .. } | ChaprError::LeaseHeld { .. } | ChaprError::BaseVersionNotRecorded { .. }
                );
                if fair {
                    told = told + 1;
                } else {
                    unexpected.push(e.message());
                    assert(views(unexpected@) =~= was.push(e.text()));
                }
            },
            Contender::Broken(how) => {
                let mut s = own("task panicked: ");
                s.append(how.as_str());
                unexpected.push(s);
                assert(views(unexpected@) =~= was.push("task panicked: "@ + how@));
            },
        }
        i = i + 1;
    }
    assert(contenders@.take(contenders@.len() as int) =~= contenders@);
    assert(views(unexpected@).len() == unexpected@.len());
    if unexpected.len() > 0 {
        let mut d = own("unexpected failures: ");
        d.append(join(unexpected.as_slice(), "; ").as_str());
        report.add(CONTENTION, Verdict::Fail, d);
    } else if won == 1 && told == 1 {
        report.add(CONTENTION, Verdict::Pass, own(ONE_WINNER));
    } else {
        let mut d = decimal(won);
        d.append(" winners and ");
        d.append(decimal(told).as_str());
        d.append(NOT_ONE_WINNER);
        report.add(CONTENTION, Verdict::Fail, d);
    }
}

/// A lost update is never reported as a pass.
pub proof fn two_winners_never_pass(c: Seq<Contender>)
    requires
        winners(c) != 1,
    ensures
        contention_line(c).verdict == Verdict::Fail,
{
}

/// What came of opening one file exclusively twice.
pub enum LockProbe {
    /// The system has no such lock.
    Elsewhere,
    /// The test path has no canonical form.
    NoPath(ChaprError),
    /// The test file could not be made.
    NoFile { path: CanonicalPath, why: String },
    /// The first open was refused already.
    FirstRefused(String),
    /// The second open was refused.
    SecondRefused,
    /// The second open succeeded.
    SecondGranted,
}

/// What the lock probe came to.
pub open spec fn lock_line(p: LockProbe) -> Said {
    match p {
        LockProbe::Elsewhere => Said { what: LOCK@, verdict: Verdict::Skip, detail: LOCK_ELSEWHERE@ },
        LockProbe::NoPath(e) => Said {
            what: LOCK@,
            verdict: Verdict::Fail,
            detail: "could not canonicalise a test path: "@ + e.text(),
        },
        LockProbe::NoFile { path, why } => Said {
            what: LOCK@,
            verdict: Verdict::Fail,
            detail: "could not create "@ + path@ + ": "@ + why@,
        },
        LockProbe::FirstRefused(why) => Said {
            what: LOCK@,
            verdict: Verdict::Fail,
            detail: "the FIRST exclusive open failed: "@ + why@ + LOCK_FIRST_HINT@,
        },
        LockProbe::SecondRefused => Said { what: LOCK@, verdict: Verdict::Pass, detail: LOCK_HELD@ },
        LockProbe::SecondGranted => Said { what: LOCK@, verdict: Verdict::Fail, detail: LOCK_BROKEN@ },
    }
}

/// Judges what came of opening one file exclusively twice.
pub fn mandatory_lock_check(report: &mut TestReport, probe: &LockProbe)
    ensures
        said(final(report).lines@) == said(old(report).lines@).push(lock_line(*probe)),
{
    match probe {
        LockProbe::Elsewhere => report.add(LOCK, Verdict::Skip, own(LOCK_ELSEWHERE)),
        LockProbe::NoPath(e) => {
            let mut d = own("could not canonicalise a test path: ");
            d.append(e.message().as_str());
            report.add(LOCK, Verdict::Fail, d);
        },
        LockProbe::NoFile { path, why } => {
            let mut d = own("could not create ");
            d.append(path.as_str());
            d.append(": ");
            d.append(why.as_str());
            report.add(LOCK, Verdict::Fail, d);
        },
        LockProbe::FirstRefused(why) => {
            let mut d = own("the FIRST exclusive open failed: ");
            d.append(why.as_str());
            d.append(LOCK_FIRST_HINT);
            report.add(LOCK, Verdict::Fail, d);
        },
        LockProbe::SecondRefused => report.add(LOCK, Verdict::Pass, own(LOCK_HELD)),
        LockProbe::SecondGranted => report.add(LOCK, Verdict::Fail, own(LOCK_BROKEN)),
    }
}

/// What the self-test needs done next.
#[derive(Debug)]
pub enum TestPhase {
    /// Ask the coordinator whether it is there.
    Probing,
    /// Make the backend.
    Backend,
    /// Ask what share the folder is mounted from.
    Mapping,
    /// Load the coordinated roots.
    Rooting,
    /// Canonicalise the folder.
    Confining { confined: bool },
    /// Make the folder.
    MakingFolder,
    /// Create the test file.
    Creating,
    /// Read the test file.
    Reading { version: VersionToken },
    /// Fetch what is on the share under its name.
    Comparing { version: VersionToken },
    /// Have two sessions write it.
    Contending { version: VersionToken },
    /// Open a file exclusively twice.
    Locking,
    /// Remove what was made, and report.
    Finished,
}

/// What came of what the self-test needed done.
pub enum Told {
    /// The coordinator's answer.
    Health(Result<(), ChaprError>),
    /// Whether the backend could be made.
    Backend(Result<(), String>),
    /// The mount table's answer.
    Mounted(Result<Option<String>, String>),
    /// Which roots could not be used, and whether any could.
    Roots { unusable: Vec<(String, ChaprError)>, any: bool },
    /// The canonical form of the folder.
    Canonical(Result<CanonicalPath, ChaprError>),
    /// Whether the folder could be made.
    Folder(Result<(), String>),
    /// The version of the test file.
    Created(Result<VersionToken, ChaprError>),
    /// Whether the test file could be read.
    Read(Result<(), ChaprError>),
    /// What is on the share under its name.
    OnShare(Option<Vec<u8>>),
    /// How the two sessions fared.
    Contended(Vec<Contender>),
    /// What came of the two opens.
    Locked(LockProbe),
}

/// A self-test on its way.
pub struct SelfTest {
    /// The coordinator's address.
    pub coord_url: String,
    /// The folder to test in.
    pub dir: String,
    /// The kind of fileserver.
    pub kind: BackendKind,
    /// What the test file holds.
    pub payload: Vec<u8>,
    /// The canonical form of the folder, once it is known.
    pub folder: Option<CanonicalPath>,
    /// The report so far.
    pub report: TestReport,
    /// What is needed next.
    pub phase: TestPhase,
}

/// The lines on roots that could not be used.
pub open spec fn root_lines(unusable: Seq<(String, ChaprError)>) -> Seq<Said> {
    unusable.map_values(
        |u: (String, ChaprError)|
            Said {
                what: ROOT_USABLE@,
                verdict: Verdict::Fail,
                detail: quoted_text(u.0@) + " could not be canonicalised: "@ + u.1.text(),
            },
    )
}

/// What an answer adds to a report, and what it makes needed next.
pub struct Heard {
    /// The lines it adds.
    pub lines: Seq<Said>,
    /// What is needed next.
    pub phase: TestPhase,
}

/// A line.
pub open spec fn line(what: Seq<char>, verdict: Verdict, detail: Seq<char>) -> Said {
    Said { what, verdict, detail }
}

/// The two lines on a coordinator that answered: that it did, and whether its
/// address is one that only this machine knows.
pub open spec fn reached_lines(url: Seq<char>) -> Seq<Said> {
    let host = host_text(url);
    seq![
        line(REACHABLE@, Verdict::Pass, url + "/healthz answered ok"@),
        if is_loopback(host) {
            line(NOT_LOOPBACK@, Verdict::Fail, "configured as "@ + quoted_text(host) + LOOPBACK_HINT@)
        } else {
            line(NOT_LOOPBACK@, Verdict::Pass, "host is "@ + quoted_text(host))
        },
    ]
}

impl SelfTest {
    /// What an answer adds and leads to; nothing where it answers something
    /// that was not asked.
    pub open spec fn heard(&self, a: Told) -> Option<Heard> {
        match (self.phase, a) {
            (TestPhase::Probing, Told::Health(Ok(_))) => Some(
                Heard { lines: reached_lines(self.coord_url@), phase: TestPhase::Backend },
            ),
            (TestPhase::Probing, Told::Health(Err(e))) => Some(
                Heard {
                    lines: seq![
                        line(REACHABLE@, Verdict::Fail, self.coord_url@ + "/healthz failed: "@ + e.text() + UNREACHABLE_HINT@),
                    ],
                    phase: TestPhase::Finished,
                },
            ),
            (TestPhase::Backend, Told::Backend(Ok(_))) => {
                let available = line(BACKEND@, Verdict::Pass, "driving "@ + self.kind.name_text());
                if on_drive(self.dir@) {
                    Some(Heard { lines: seq![available], phase: TestPhase::Mapping })
                } else {
                    Some(
                        Heard {
                            lines: seq![
                                available,
                                line(MAPPED@, Verdict::Skip, "the test folder ("@ + self.dir@ + NO_DRIVE_HINT@),
                            ],
                            phase: TestPhase::Rooting,
                        },
                    )
                }
            },
            (TestPhase::Backend, Told::Backend(Err(e))) => Some(
                Heard {
                    lines: seq![line(BACKEND@, Verdict::Fail, self.kind.name_text() + ": "@ + e@)],
                    phase: TestPhase::Finished,
                },
            ),
            (TestPhase::Mapping, Told::Mounted(r)) => Some(
                Heard {
                    lines: seq![
                        match r {
                            Ok(Some(unc)) => line(
                                MAPPED@,
                                Verdict::Pass,
                                self.dir@ + " → "@ + unc@ + "; colleagues with a different letter agree on this key"@,
                            ),
                            Ok(None) => line(MAPPED@, Verdict::Skip, self.dir@ + LOCAL_DRIVE_HINT@),
                            Err(e) => line(MAPPED@, Verdict::Fail, "lookup failed: "@ + e@),
                        },
                    ],
                    phase: TestPhase::Rooting,
                },
            ),
            (TestPhase::Rooting, Told::Roots { unusable, any }) => Some(
                Heard { lines: root_lines(unusable@), phase: TestPhase::Confining { confined: any } },
            ),
            (TestPhase::Confining { confined }, Told::Canonical(Ok(p))) => Some(
                Heard {
                    lines: seq![
                        if confined {
                            line(CONFINED@, Verdict::Pass, "canonical form "@ + p@)
                        } else {
                            line(CONFINED@, Verdict::Skip, UNCONFINED_A@ + p@ + UNCONFINED_B@)
                        },
                    ],
                    phase: TestPhase::MakingFolder,
                },
            ),
            (TestPhase::Confining { confined }, Told::Canonical(Err(e))) => Some(
                Heard {
                    lines: seq![line(CONFINED@, Verdict::Fail, self.dir@ + ": "@ + e.text())],
                    phase: TestPhase::Finished,
                },
            ),
            (TestPhase::MakingFolder, Told::Folder(Ok(_))) => Some(
                Heard { lines: Seq::empty(), phase: TestPhase::Creating },
            ),
            (TestPhase::MakingFolder, Told::Folder(Err(e))) => Some(
                Heard {
                    lines: seq![
                        line(
                            WRITABLE@,
                            Verdict::Fail,
                            (match self.folder {
                                Some(p) => p@,
                                None => self.dir@,
                            }) + ": "@ + e@,
                        ),
                    ],
                    phase: TestPhase::Finished,
                },
            ),
            (TestPhase::Creating, Told::Created(Ok(version))) => Some(
                Heard { lines: Seq::empty(), phase: TestPhase::Reading { version } },
            ),
            (TestPhase::Creating, Told::Created(Err(e))) => Some(
                Heard {
                    lines: seq![
                        line(ROUND_TRIP@, Verdict::Fail, "create failed: "@ + e.text()),
                        line(CONTENTION@, Verdict::Skip, NO_BASE_FILE@),
                    ],
                    phase: TestPhase::Locking,
                },
            ),
            (TestPhase::Reading { version }, Told::Read(Ok(_))) => Some(
                Heard { lines: Seq::empty(), phase: TestPhase::Comparing { version } },
            ),
            (TestPhase::Reading { version }, Told::Read(Err(e))) => Some(
                Heard {
                    lines: seq![line(ROUND_TRIP@, Verdict::Fail, "read failed: "@ + e.text())],
                    phase: TestPhase::Contending { version },
                },
            ),
            (TestPhase::Comparing { version }, Told::OnShare(found)) => Some(
                Heard {
                    lines: seq![
                        if found matches Some(bytes) && bytes@ == self.payload@ {
                            line(
                                ROUND_TRIP@,
                                Verdict::Pass,
                                decimal_text(self.payload@.len()) + " bytes, version "@ + version@,
                            )
                        } else {
                            line(ROUND_TRIP@, Verdict::Fail, DIFFERENT@)
                        },
                    ],
                    phase: TestPhase::Contending { version },
                },
            ),
            (TestPhase::Contending { version }, Told::Contended(c)) => Some(
                Heard { lines: seq![contention_line(c@)], phase: TestPhase::Locking },
            ),
            (TestPhase::Locking, Told::Locked(p)) => Some(
                Heard { lines: seq![lock_line(p)], phase: TestPhase::Finished },
            ),
            _ => None,
        }
    }

    /// Whether `n` is this self-test one answer later.
    pub open spec fn next(&self, a: Told, n: SelfTest) -> bool {
        &&& n.coord_url == self.coord_url
        &&& n.dir == self.dir
        &&& n.kind == self.kind
        &&& n.payload == self.payload
        &&& n.folder == match (self.phase, a) {
            (TestPhase::Confining { confined }, Told::Canonical(Ok(p))) => Some(p),
            _ => self.folder,
        }
        &&& match self.heard(a) {
            Some(h) => said(n.report.lines@) == said(self.report.lines@) + h.lines && n.phase == h.phase,
            None => said(n.report.lines@) == said(self.report.lines@) && n.phase == self.phase,
        }
    }

    /// A self-test at its beginning.
    pub fn begin(coord_url: String, dir: String, kind: BackendKind, payload: Vec<u8>) -> (r: SelfTest)
        ensures
            r.coord_url == coord_url,
            r.dir == dir,
            r.kind == kind,
            r.payload == payload,
            r.folder is None,
            r.report.lines@.len() == 0,
            r.phase is Probing,
    {
        SelfTest { coord_url, dir, kind, payload, folder: None, report: TestReport::new(), phase: TestPhase::Probing }
    }

    fn reached(&mut self)
        ensures
            said(final(self).report.lines@) == said(old(self).report.lines@) + reached_lines(old(self).coord_url@),
            final(self).coord_url == old(self).coord_url,
            final(self).dir == old(self).dir,
            final(self).kind == old(self).kind,
            final(self).payload == old(self).payload,
            final(self).folder == old(self).folder,
    {
        let ghost was = said(self.report.lines@);
        let mut d = self.coord_url.clone();
        d.append("/healthz answered ok");
        self.report.add(REACHABLE, Verdict::Pass, d);
        let host = host_of(self.coord_url.as_str());
        let h = host.as_str();
        let loopback = same(h, "127.0.0.1") || same(h, "localhost") || same(h, "::1") || same(h, "0.0.0.0");
        if loopback {
            let mut d = own("configured as ");
            d.append(quoted(h).as_str());
            d.append(LOOPBACK_HINT);
            self.report.add(NOT_LOOPBACK, Verdict::Fail, d);
        } else {
            let mut d = own("host is ");
            d.append(quoted(h).as_str());
            self.report.add(NOT_LOOPBACK, Verdict::Pass, d);
        }
        assert(said(self.report.lines@) =~= was + reached_lines(self.coord_url@));
    }

    fn rooted(&mut self, unusable: &Vec<(String, ChaprError)>)
        ensures
            said(final(self).report.lines@) == said(old(self).report.lines@) + root_lines(unusable@),
            final(self).coord_url == old(self).coord_url,
            final(self).dir == old(self).dir,
            final(self).kind == old(self).kind,
            final(self).payload == old(self).payload,
            final(self).folder == old(self).folder,
    {
        let ghost was = said(self.report.lines@);
        let ghost start = *self;
        let mut i: usize = 0;
        assert(was + root_lines(unusable@.take(0)) =~= was);
        while i < unusable.len()
            invariant
                start == *old(self),
                was == said(start.report.lines@),
                i <= unusable@.len(),
                said(self.report.lines@) == was + root_lines(unusable@.take(i as int)),
                self.coord_url == start.coord_url,
                self.dir == start.dir,
                self.kind == start.kind,
                self.payload == start.payload,
                self.folder == start.folder,
            decreases unusable@.len() - i,
        {
            let mut d = quoted(unusable[i].0.as_str());
            d.append(" could not be canonicalised: ");
            d.append(unusable[i].1.message().as_str());
            self.report.add(ROOT_USABLE, Verdict::Fail, d);
            i = i + 1;
            assert(said(self.report.lines@) =~= was + root_lines(unusable@.take(i as int)));
        }
        assert(unusable@.take(unusable@.len() as int) =~= unusable@);
    }

    /// Moves the self-test on by what came of what it needed done. An answer to
    /// something that was not asked changes nothing.
    pub fn advance(self, told: Told) -> (n: SelfTest)
        ensures
            self.next(told, n),
    {
        let mut t = self;
        let ghost was = said(t.report.lines@);
        let mut phase = TestPhase::Finished;
        std::mem::swap(&mut t.phase, &mut phase);
        let next = match (phase, told) {
            (TestPhase::Probing, Told::Health(r)) => match r {
                Ok(_) => {
                    t.reached();
                    TestPhase::Backend
                },
                Err(e) => {
                    let mut d = t.coord_url.clone();
                    d.append("/healthz failed: ");
                    d.append(e.message().as_str());
                    d.append(UNREACHABLE_HINT);
                    t.report.add(REACHABLE, Verdict::Fail, d);
                    TestPhase::Finished
                },
            },
            (TestPhase::Backend, Told::Backend(r)) => match r {
                Ok(_) => {
                    let mut d = own("driving ");
                    d.append(t.kind.name());
                    t.report.add(BACKEND, Verdict::Pass, d);
                    if looks_like_drive(t.dir.as_str()) {
                        TestPhase::Mapping
                    } else {
                        let mut d = own("the test folder (");
                        d.append(t.dir.as_str());
                        d.append(NO_DRIVE_HINT);
                        t.report.add(MAPPED, Verdict::Skip, d);
                        TestPhase::Rooting
                    }
                },
                Err(e) => {
                    let mut d = own(t.kind.name());
                    d.append(": ");
                    d.append(e.as_str());
                    t.report.add(BACKEND, Verdict::Fail, d);
                    TestPhase::Finished
                },
            },
            (TestPhase::Mapping, Told::Mounted(r)) => {
                match r {
                    Ok(Some(unc)) => {
                        let mut d = t.dir.clone();
                        d.append(" → ");
                        d.append(unc.as_str());
                        d.append("; colleagues with a different letter agree on this key");
                        t.report.add(MAPPED, Verdict::Pass, d);
                    },
                    Ok(None) => {
                        let mut d = t.dir.clone();
                        d.append(LOCAL_DRIVE_HINT);
                        t.report.add(MAPPED, Verdict::Skip, d);
                    },
                    Err(e) => {
                        let mut d = own("lookup failed: ");
                        d.append(e.as_str());
                        t.report.add(MAPPED, Verdict::Fail, d);
                    },
                }
                TestPhase::Rooting
            },
            (TestPhase::Rooting, Told::Roots { unusable, any }) => {
                t.rooted(&unusable);
                TestPhase::Confining { confined: any }
            },
            (TestPhase::Confining { confined }, Told::Canonical(r)) => match r {
                Ok(p) => {
                    if confined {
                        let mut d = own("canonical form ");
                        d.append(p.as_str());
                        t.report.add(CONFINED, Verdict::Pass, d);
                    } else {
                        let mut d = own(UNCONFINED_A);
                        d.append(p.as_str());
                        d.append(UNCONFINED_B);
                        t.report.add(CONFINED, Verdict::Skip, d);
                    }
                    t.folder = Some(p);
                    TestPhase::MakingFolder
                },
                Err(e) => {
                    let mut d = t.dir.clone();
                    d.append(": ");
                    d.append(e.message().as_str());
                    t.report.add(CONFINED, Verdict::Fail, d);
                    TestPhase::Finished
                },
            },
            (TestPhase::MakingFolder, Told::Folder(r)) => match r {
                Ok(_) => TestPhase::Creating,
                Err(e) => {
                    let mut d = match &t.folder {
                        Some(p) => own(p.as_str()),
                        None => t.dir.clone(),
                    };
                    d.append(": ");
                    d.append(e.as_str());
                    t.report.add(WRITABLE, Verdict::Fail, d);
                    TestPhase::Finished
                },
            },
            (TestPhase::Creating, Told::Created(r)) => match r {
                Ok(version) => TestPhase::Reading { version },
                Err(e) => {
                    let mut d = own("create failed: ");
                    d.append(e.message().as_str());
                    t.report.add(ROUND_TRIP, Verdict::Fail, d);
                    t.report.add(CONTENTION, Verdict::Skip, own(NO_BASE_FILE));
                    TestPhase::Locking
                },
            },
            (TestPhase::Reading { version }, Told::Read(r)) => match r {
                Ok(_) => TestPhase::Comparing { version },
                Err(e) => {
                    let mut d = own("read failed: ");
                    d.append(e.message().as_str());
                    t.report.add(ROUND_TRIP, Verdict::Fail, d);
                    TestPhase::Contending { version }
                },
            },
            (TestPhase::Comparing { version }, Told::OnShare(found)) => {
                let equal = match &found {
                    Some(bytes) => crate::base64text::same_bytes(bytes.as_slice(), t.payload.as_slice()),
                    None => false,
                };
                if equal {
                    let mut d = decimal(t.payload.len() as u64);
                    d.append(" bytes, version ");
                    d.append(version.as_str());
                    t.report.add(ROUND_TRIP, Verdict::Pass, d);
                } else {
                    t.report.add(ROUND_TRIP, Verdict::Fail, own(DIFFERENT));
                }
                TestPhase::Contending { version }
            },
            (TestPhase::Contending { version: _ }, Told::Contended(c)) => {
                contention_check(&mut t.report, &c);
                TestPhase::Locking
            },
            (TestPhase::Locking, Told::Locked(p)) => {
                mandatory_lock_check(&mut t.report, &p);
                TestPhase::Finished
            },
            (phase, _) => phase,
        };
        t.phase = next;
        proof {
            match self.heard(told) {
                Some(h) => {
                    assert(said(t.report.lines@) =~= was + h.lines);
                },
                None => {},
            }
        }
        t
    }
}

/// Without a root in force, nothing is confined, and the check of it is a skip.
pub proof fn unconfined_is_never_a_pass(s: SelfTest, p: CanonicalPath, n: SelfTest)
    requires
        s.phase matches TestPhase::Confining { confined: false },
        s.next(Told::Canonical(Ok(p)), n),
    ensures
        said(n.report.lines@).last().verdict == Verdict::Skip,
{
}

/// A self-test that cannot reach the coordinator fails there and goes no
/// further.
pub proof fn unreachable_ends_the_test(s: SelfTest, e: ChaprError, n: SelfTest)
    requires
        s.phase is Probing,
        s.next(Told::Health(Err(e)), n),
    ensures
        n.phase is Finished,
        said(n.report.lines@).last().verdict == Verdict::Fail,
{
}

proof fn up_to_a_mark(host: Seq<char>, rest: Seq<char>)
    requires
        forall|i: int| 0 <= i < host.len() ==> host[i] != '/' && host[i] != ':',
        rest.len() == 0 || rest[0] == '/' || rest[0] == ':',
    ensures
        up_to_mark(host + rest) == host,
    decreases host.len(),
{
    let s = host + rest;
    if host.len() == 0 {
        assert(s =~= rest);
        assert(host =~= Seq::<char>::empty());
    } else {
        assert(s[0] == host[0]);
        assert(s.drop_first() =~= host.drop_first() + rest);
        up_to_a_mark(host.drop_first(), rest);
        assert(seq![host[0]] + host.drop_first() =~= host);
    }
}

proof fn scheme_ends(s: Seq<char>, n: int, i: int)
    requires
        0 <= i <= n,
        n + 3 <= s.len(),
        forall|k: int| 0 <= k < n ==> s[k] != ':',
        s[n] == ':',
        s[n + 1] == '/',
        s[n + 2] == '/',
    ensures
        scheme_end(s, i) == n + 3,
    decreases n - i,
{
    if i < n {
        scheme_ends(s, n, i + 1);
    }
}

proof fn no_scheme(s: Seq<char>, i: int)
    requires
        0 <= i,
        forall|k: int| 0 <= k && k + 3 <= s.len() ==> !(#[trigger] s[k] == ':' && s[k + 1] == '/' && s[k + 2] == '/'),
    ensures
        scheme_end(s, i) == 0,
    decreases s.len() - i,
{
    if i + 3 <= s.len() {
        no_scheme(s, i + 1);
    }
}

/// The host of an address stands behind the scheme and before the port or the path.
pub proof fn the_host_is_between_scheme_and_port(scheme: Seq<char>, host: Seq<char>, rest: Seq<char>)
    requires
        forall|i: int| 0 <= i < scheme.len() ==> scheme[i] != ':',
        forall|i: int| 0 <= i < host.len() ==> host[i] != '/' && host[i] != ':',
        rest.len() == 0 || rest[0] == '/' || rest[0] == ':',
    ensures
        host_text(scheme + seq![':', '/', '/'] + host + rest) == host,
{
    let s = scheme + seq![':', '/', '/'] + host + rest;
    let n = scheme.len() as int;
    assert forall|k: int| 0 <= k < n implies s[k] != ':' by {
        assert(s[k] == scheme[k]);
    }
    scheme_ends(s, n, 0);
    assert(s.skip(n + 3) =~= host + rest);
    up_to_a_mark(host, rest);
}

/// An address without a scheme begins with its host.
pub proof fn without_a_scheme_the_host_is_first(host: Seq<char>, rest: Seq<char>)
    requires
        forall|i: int| 0 <= i < host.len() ==> host[i] != '/' && host[i] != ':',
        rest.len() == 0 || rest[0] == '/' || rest[0] == ':',
        forall|k: int| 0 <= k && k + 3 <= rest.len() ==> !(#[trigger] rest[k] == ':' && rest[k + 1] == '/' && rest[k + 2] == '/'),
    ensures
        host_text(host + rest) == host,
{
    let s = host + rest;
    assert forall|k: int| 0 <= k && k + 3 <= s.len() implies !(#[trigger] s[k] == ':' && s[k + 1] == '/' && s[k + 2] == '/') by {
        if k < host.len() {
            assert(s[k] == host[k]);
        } else {
            let j = k - host.len();
            assert(s[k] == rest[j] && s[k + 1] == rest[j + 1] && s[k + 2] == rest[j + 2]);
        }
    }
    no_scheme(s, 0);
    assert(s.skip(0) =~= s);
    up_to_a_mark(host, rest);
}

/// A coordinator under a name by which only this machine is reached fails the check of it,
/// and one under any other name passes.
pub proof fn a_loopback_address_fails(s: SelfTest, n: SelfTest, scheme: Seq<char>, host: Seq<char>, rest: Seq<char>)
    requires
        s.phase is Probing,
        s.next(Told::Health(Ok(())), n),
        s.coord_url@ == scheme + seq![':', '/', '/'] + host + rest,
        forall|i: int| 0 <= i < scheme.len() ==> scheme[i] != ':',
        forall|i: int| 0 <= i < host.len() ==> host[i] != '/' && host[i] != ':',
        rest.len() == 0 || rest[0] == '/' || rest[0] == ':',
    ensures
        n.phase is Backend,
        said(n.report.lines@).len() == said(s.report.lines@).len() + 2,
        said(n.report.lines@)[said(s.report.lines@).len() as int].verdict == Verdict::Pass,
        said(n.report.lines@).last().verdict == (if host == "127.0.0.1"@ || host == "localhost"@ || host == "0.0.0.0"@ {
            Verdict::Fail
        } else {
            Verdict::Pass
        }),
{
    the_host_is_between_scheme_and_port(scheme, host, rest);
    reveal_strlit("::1");
    if host == "::1"@ {
        assert(host[0] == ':');
    }
}

/// Two sessions that write one file from one version pass exactly where one of them wrote
/// and the other was refused for the conflict, the lease or the version.
pub proof fn one_must_win_and_one_must_be_told(a: Contender, b: Contender)
    ensures
        ({
            let fair = |c: Contender|
                c matches Contender::Refused(e) && (e is Conflict || e is LeaseHeld || e is BaseVersionNotRecorded);
            contention_line(seq![a, b]).verdict == Verdict::Pass <==> (a is Won && fair(b)) || (b is Won && fair(a))
        }),
        contention_line(seq![a, b]).verdict != Verdict::Skip,
{
    let c = seq![a, b];
    let d = seq![a];
    assert(c.drop_last() =~= d);
    assert(d.drop_last() =~= Seq::<Contender>::empty());
    reveal_with_fuel(winners, 3);
    reveal_with_fuel(losers, 3);
    reveal_with_fuel(surprises, 3);
}

/// The lock of a server passes exactly where a second open is refused while the first is
/// held, and is skipped exactly where there is no such lock.
pub proof fn a_lock_passes_by_refusing(p: LockProbe)
    ensures
        lock_line(p).verdict == Verdict::Pass <==> p is SecondRefused,
        lock_line(p).verdict == Verdict::Skip <==> p is Elsewhere,
{
}

/// The exit code counts the failures, as far as a code reaches, so that it is zero exactly
/// where nothing failed.
pub proof fn the_exit_code_counts_failures(failed: nat)
    ensures
        failed <= 255 ==> code_of(failed) == failed,
        failed > 255 ==> code_of(failed) == 255,
        code_of(failed) == 0 <==> failed == 0,
{
}

/// A report counts every line under its own verdict.
pub proof fn lines_are_counted_by_verdict(lines: Seq<Said>, l: Said, v: Verdict)
    ensures
        tally(lines.push(l), v) == tally(lines, v) + if l.verdict == v {
            1nat
        } else {
            0nat
        },
        tally(Seq::<Said>::empty(), v) == 0,
{
    assert(lines.push(l).drop_last() =~= lines);
}

/// What was written passes only if exactly that is on the share.
pub proof fn a_round_trip_is_byte_identical(s: SelfTest, found: Option<Vec<u8>>, n: SelfTest)
    requires
        s.phase is Comparing,
        s.next(Told::OnShare(found), n),
    ensures
        n.phase is Contending,
        said(n.report.lines@).len() == said(s.report.lines@).len() + 1,
        said(n.report.lines@).last().verdict == (if found matches Some(bytes) && bytes@ == s.payload@ {
            Verdict::Pass
        } else {
            Verdict::Fail
        }),
{
}

/// No answer takes a line away, and no failure that was heard is passed over.
pub proof fn what_was_heard_stays(s: SelfTest, a: Told, n: SelfTest)
    requires
        s.next(a, n),
    ensures
        said(n.report.lines@).len() >= said(s.report.lines@).len(),
        said(n.report.lines@).take(said(s.report.lines@).len() as int) == said(s.report.lines@),
        s.phase is Backend && (a matches Told::Backend(Err(_))) ==> n.phase is Finished && said(n.report.lines@).last().verdict
            == Verdict::Fail,
        s.phase is Confining && (a matches Told::Canonical(Err(_))) ==> n.phase is Finished && said(n.report.lines@).last().verdict
            == Verdict::Fail,
        s.phase is MakingFolder && (a matches Told::Folder(Err(_))) ==> n.phase is Finished && said(n.report.lines@).last().verdict
            == Verdict::Fail,
        s.phase is Mapping && (a matches Told::Mounted(Err(_))) ==> said(n.report.lines@).last().verdict == Verdict::Fail,
        s.phase is Reading && (a matches Told::Read(Err(_))) ==> said(n.report.lines@).last().verdict == Verdict::Fail,
        s.phase is Creating && (a matches Told::Created(Err(_))) ==> said(n.report.lines@)[said(s.report.lines@).len() as int].verdict
            == Verdict::Fail,
{
    let was = said(s.report.lines@);
    if let Some(h) = s.heard(a) {
        assert((was + h.lines).take(was.len() as int) =~= was);
    } else {
        assert(said(n.report.lines@).take(was.len() as int) =~= was);
    }
}

/// A root that cannot be used is told as a failure, each in a line.
pub proof fn unusable_roots_are_told(s: SelfTest, unusable: Vec<(String, ChaprError)>, any: bool, n: SelfTest, i: int)
    requires
        s.phase is Rooting,
        s.next(Told::Roots { unusable, any }, n),
        0 <= i < unusable@.len(),
    ensures
        said(n.report.lines@).len() == said(s.report.lines@).len() + unusable@.len(),
        said(n.report.lines@)[said(s.report.lines@).len() + i].verdict == Verdict::Fail,
        mentions(said(n.report.lines@)[said(s.report.lines@).len() + i].detail, quoted_text(unusable@[i].0@)),
        n.phase == (TestPhase::Confining { confined: any }),
{
    let l = root_lines(unusable@)[i];
    assert(said(n.report.lines@)[said(s.report.lines@).len() + i] == l);
    assert(l.detail =~= Seq::<char>::empty() + quoted_text(unusable@[i].0@) + (" could not be canonicalised: "@
        + unusable@[i].1.text()));
}

/// What is printed of a report has every check in its order, between an empty line and the
/// totals, and points out skips where there are any.
pub proof fn every_check_is_printed(lines: Seq<Said>, i: int)
    requires
        0 <= i < lines.len(),
    ensures
        printed(lines)[i + 1] == line_text(lines[i]),
        printed(lines)[lines.len() as int + 1] == totals_text(lines),
        printed(lines).len() == lines.len() + 2 + (if tally(lines, Verdict::Skip) > 0 {
            1int
        } else {
            0int
        }),
        mentions(line_text(lines[i]), lines[i].what),
        mentions(line_text(lines[i]), lines[i].detail),
        lines[i].verdict == Verdict::Fail ==> mentions(line_text(lines[i]), "  FAIL  "@),
        lines[i].verdict == Verdict::Pass ==> mentions(line_text(lines[i]), "  PASS  "@),
        lines[i].verdict == Verdict::Skip ==> mentions(line_text(lines[i]), "  SKIP  "@),
{
    let l = lines[i];
    let t = line_text(l);
    let mark = match l.verdict {
        Verdict::Pass => "  PASS  "@,
        Verdict::Fail => "  FAIL  "@,
        Verdict::Skip => "  SKIP  "@,
    };
    let gap = "\n          "@;
    assert(t =~= Seq::<char>::empty() + mark + (l.what + gap + l.detail));
    assert(t =~= mark + l.what + (gap + l.detail));
    assert(t =~= (mark + l.what + gap) + l.detail + Seq::<char>::empty());
}

/// The totals are the numbers of checks that passed, failed and were skipped, in that order.
pub proof fn the_totals_are_of_the_lines(lines: Seq<Said>)
    ensures
        totals_text(lines) == "\n  "@ + decimal_text(tally(lines, Verdict::Pass)) + " passed, "@ + decimal_text(
            tally(lines, Verdict::Fail),
        ) + " failed, "@ + decimal_text(tally(lines, Verdict::Skip)) + " skipped"@,
{
}

/// A folder on a drive letter is looked up in the mount table, and for any other the check of
/// the mapping is skipped.
pub proof fn a_drive_is_looked_up(s: SelfTest, n: SelfTest)
    requires
        s.phase is Backend,
        s.next(Told::Backend(Ok(())), n),
    ensures
        ({
            let drive = s.dir@.len() >= 2 && s.dir@[1] == ':' && ('a' <= s.dir@[0] <= 'z' || 'A' <= s.dir@[0] <= 'Z');
            &&& drive ==> n.phase is Mapping && said(n.report.lines@).last().verdict == Verdict::Pass
            &&& !drive ==> n.phase is Rooting && said(n.report.lines@).last().verdict == Verdict::Skip
        }),
{
}

} // verus!
