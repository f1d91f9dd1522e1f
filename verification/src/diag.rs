//! Failures that somebody should hear about.
//!
//! Most ways an operation can end are designed: a conflict, a lease held
//! elsewhere, a name that is not there. They are told to the caller and that is
//! all. What is left is about the environment or about a defect, and is reported
//! with what to do about it.
use vstd::prelude::*;

use crate::proto::{CanonicalPath, ChaprError, Principal, Severity};
use crate::text::{join, joined, own, trim, trimmed, views};

verus! {

/// The size in bytes above which the local log is started afresh.
pub const MAX_LOG_BYTES: u64 = 2097152;

/// One report.
#[derive(Debug, PartialEq, Eq)]
pub struct DiagnosticReport {
    /// What kind of failure it is, for grouping.
    pub code: String,
    /// What happened, in a few words.
    pub title: String,
    /// How badly it matters.
    pub severity: Severity,
    /// The file it is about.
    pub path: Option<CanonicalPath>,
    /// Who was acting.
    pub principal: Principal,
    /// On which machine.
    pub host: Option<String>,
    /// What happened, in full.
    pub detail: String,
    /// What to do about it.
    pub remedy: String,
    /// What is known, by name, in the order of the names.
    pub facts: Vec<(String, String)>,
}

/// What is said of every failure of one kind.
#[derive(Clone, Copy)]
pub struct Entry {
    /// The code.
    pub code: &'static str,
    /// The title.
    pub title: &'static str,
    /// The severity.
    pub severity: Severity,
    /// The remedy.
    pub remedy: &'static str,
}

pub const SHARING_VIOLATION_REMEDY: &'static str = "Something else is holding the file open. On a fileserver this is most often antivirus or a backup agent scanning the share — exclude the share from real-time scanning. It can also be a document someone left open.";

pub const PERMISSION_DENIED_REMEDY: &'static str = "Chaperone acts as the signed-in user and never impersonates, so this is that user's own permissions. Check their NTFS and share rights on this path — including create and delete on the containing folder, which conflict copies need.";

pub const IO_REMEDY: &'static str = "The operating system message below names the cause. Common ones on a share: the path exceeds the length limit, a quota or file-screening rule rejected the name, or the connection dropped mid-operation.";

pub const INVALID_PATH_REMEDY: &'static str = "Use a UNC path, or a full path on a mapped drive. If it names a drive letter, check that mapping exists for this user.";

pub const OUTSIDE_ROOT_REMEDY: &'static str = "Either the caller asked for the wrong place, or CHAPR_ROOT is not what this deployment intended. Compare the resolved path against the roots in the facts — and check the recorded boot time: a root edited after the endpoint started has not been loaded, which looks identical to a wrong one.";

pub const RECOVERY_FAILED_REMEDY: &'static str = "The pre-image is gone from the coordinator's history store, so this file cannot be repaired automatically — restore it from backup. Then check the history retention settings: blob GC may be evicting versions too early.";

pub const COMMITTED_BUT_UNRECORDED_REMEDY: &'static str = "The file itself is correct. What is missing is its history entry, so this version cannot be restored later and the audit trail is incomplete for it. Check the coordinator's database is writable and its volume has free space.";

pub const COORD_UNREACHABLE_REMEDY: &'static str = "Writes deliberately fail closed while the coordinator is unreachable; reading keeps working. Check the coordinator service is running, that the URL configured on this laptop is right, and that nothing between them blocks the port.";

pub const LEASE_LOST_REMEDY: &'static str = "Availability only — correctness never rests on a lease. Usually a brief network interruption to the coordinator. If it repeats, look at the connection between this laptop and coord.";

pub const LEASE_GONE_REMEDY: &'static str = "The operation took longer than the lease's lifetime, or the coordinator reaped it. Correctness is unaffected. If it recurs on the same files, they may be large enough that the write outlives the renewal interval.";

pub const LEASE_LIFETIME_EXCEEDED_REMEDY: &'static str = "An operation held one file far longer than expected. Look for an agent stuck mid-write, or a file large enough that the write cannot finish inside the ceiling.";

pub const INTERNAL_REMEDY: &'static str = "This is a defect rather than a configuration problem. Pass the detail below to whoever maintains Chaperone.";

/// Whether an ending is designed: an answer to the caller, about which nobody
/// else needs to hear.
pub open spec fn is_designed(e: ChaprError) -> bool {
    e is LeaseHeld || e is RetryBudgetExhausted || e is Conflict || e is OfficeLockPresent || e is NotFound
        || e is AlreadyExists || e is VersionNotFound || e is ConflictNotFound || e is ParentMissing
        || e is NearDuplicateName || e is IsADirectory || e is BaseVersionNotRecorded || e is BaseVersionRequired
        || e is ForceRequiresReason
}

/// What is said of a failure, where it is not designed.
pub open spec fn entry_of(e: ChaprError) -> Option<Entry> {
    match e {
        ChaprError::SharingViolation { .. } => Some(Entry {
            code: "SHARING_VIOLATION",
            title: "A file could not be opened exclusively",
            severity: Severity::Error,
            remedy: SHARING_VIOLATION_REMEDY,
        }),
        ChaprError::PermissionDenied { .. } => Some(Entry {
            code: "PERMISSION_DENIED",
            title: "Access was denied on the share",
            severity: Severity::Error,
            remedy: PERMISSION_DENIED_REMEDY,
        }),
        ChaprError::Io { .. } => Some(Entry {
            code: "IO",
            title: "A file operation on the share failed",
            severity: Severity::Error,
            remedy: IO_REMEDY,
        }),
        ChaprError::InvalidPath { .. } => Some(Entry {
            code: "INVALID_PATH",
            title: "A path could not be used",
            severity: Severity::Error,
            remedy: INVALID_PATH_REMEDY,
        }),
        ChaprError::OutsideRoot { .. } => Some(Entry {
            code: "OUTSIDE_ROOT",
            title: "A path resolved outside the coordinated root",
            severity: Severity::Warning,
            remedy: OUTSIDE_ROOT_REMEDY,
        }),
        ChaprError::RecoveryFailed { .. } => Some(Entry {
            code: "RECOVERY_FAILED",
            title: "A torn file could not be repaired from history",
            severity: Severity::Error,
            remedy: RECOVERY_FAILED_REMEDY,
        }),
        ChaprError::CommittedButUnrecorded { .. } => Some(Entry {
            code: "COMMITTED_BUT_UNRECORDED",
            title: "A write landed on the share but was not recorded in history",
            severity: Severity::Error,
            remedy: COMMITTED_BUT_UNRECORDED_REMEDY,
        }),
        ChaprError::CoordUnreachable => Some(Entry {
            code: "COORD_UNREACHABLE",
            title: "The coordination service could not be reached",
            severity: Severity::Error,
            remedy: COORD_UNREACHABLE_REMEDY,
        }),
        ChaprError::LeaseLost { .. } => Some(Entry {
            code: "LEASE_LOST",
            title: "A lease stopped being renewed",
            severity: Severity::Warning,
            remedy: LEASE_LOST_REMEDY,
        }),
        ChaprError::LeaseExpired { .. } => Some(Entry {
            code: "LEASE_GONE",
            title: "A lease was gone before the operation finished",
            severity: Severity::Warning,
            remedy: LEASE_GONE_REMEDY,
        }),
        ChaprError::LeaseNotFound { .. } => Some(Entry {
            code: "LEASE_GONE",
            title: "A lease was gone before the operation finished",
            severity: Severity::Warning,
            remedy: LEASE_GONE_REMEDY,
        }),
        ChaprError::MaxLeaseLifetimeExceeded { .. } => Some(Entry {
            code: "LEASE_LIFETIME_EXCEEDED",
            title: "A lease hit its hard lifetime ceiling",
            severity: Severity::Warning,
            remedy: LEASE_LIFETIME_EXCEEDED_REMEDY,
        }),
        ChaprError::Internal { .. } => Some(Entry {
            code: "INTERNAL",
            title: "Chaperone hit an internal error",
            severity: Severity::Error,
            remedy: INTERNAL_REMEDY,
        }),
        _ => None,
    }
}

fn entry(e: &ChaprError) -> (r: Option<Entry>)
    ensures
        r == entry_of(*e),
{
    match e {
        ChaprError::SharingViolation { .. } => Some(Entry {
            code: "SHARING_VIOLATION",
            title: "A file could not be opened exclusively",
            severity: Severity::Error,
            remedy: SHARING_VIOLATION_REMEDY,
        }),
        ChaprError::PermissionDenied { .. } => Some(Entry {
            code: "PERMISSION_DENIED",
            title: "Access was denied on the share",
            severity: Severity::Error,
            remedy: PERMISSION_DENIED_REMEDY,
        }),
        ChaprError::Io { .. } => Some(Entry {
            code: "IO",
            title: "A file operation on the share failed",
            severity: Severity::Error,
            remedy: IO_REMEDY,
        }),
        ChaprError::InvalidPath { .. } => Some(Entry {
            code: "INVALID_PATH",
            title: "A path could not be used",
            severity: Severity::Error,
            remedy: INVALID_PATH_REMEDY,
        }),
        ChaprError::OutsideRoot { .. } => Some(Entry {
            code: "OUTSIDE_ROOT",
            title: "A path resolved outside the coordinated root",
            severity: Severity::Warning,
            remedy: OUTSIDE_ROOT_REMEDY,
        }),
        ChaprError::RecoveryFailed { .. } => Some(Entry {
            code: "RECOVERY_FAILED",
            title: "A torn file could not be repaired from history",
            severity: Severity::Error,
            remedy: RECOVERY_FAILED_REMEDY,
        }),
        ChaprError::CommittedButUnrecorded { .. } => Some(Entry {
            code: "COMMITTED_BUT_UNRECORDED",
            title: "A write landed on the share but was not recorded in history",
            severity: Severity::Error,
            remedy: COMMITTED_BUT_UNRECORDED_REMEDY,
        }),
        ChaprError::CoordUnreachable => Some(Entry {
            code: "COORD_UNREACHABLE",
            title: "The coordination service could not be reached",
            severity: Severity::Error,
            remedy: COORD_UNREACHABLE_REMEDY,
        }),
        ChaprError::LeaseLost { .. } => Some(Entry {
            code: "LEASE_LOST",
            title: "A lease stopped being renewed",
            severity: Severity::Warning,
            remedy: LEASE_LOST_REMEDY,
        }),
        ChaprError::LeaseExpired { .. } => Some(Entry {
            code: "LEASE_GONE",
            title: "A lease was gone before the operation finished",
            severity: Severity::Warning,
            remedy: LEASE_GONE_REMEDY,
        }),
        ChaprError::LeaseNotFound { .. } => Some(Entry {
            code: "LEASE_GONE",
            title: "A lease was gone before the operation finished",
            severity: Severity::Warning,
            remedy: LEASE_GONE_REMEDY,
        }),
        ChaprError::MaxLeaseLifetimeExceeded { .. } => Some(Entry {
            code: "LEASE_LIFETIME_EXCEEDED",
            title: "A lease hit its hard lifetime ceiling",
            severity: Severity::Warning,
            remedy: LEASE_LIFETIME_EXCEEDED_REMEDY,
        }),
        ChaprError::Internal { .. } => Some(Entry {
            code: "INTERNAL",
            title: "Chaperone hit an internal error",
            severity: Severity::Error,
            remedy: INTERNAL_REMEDY,
        }),
        _ => None,
    }
}

/// What is known of a failure, by name.
pub open spec fn facts_of(e: ChaprError) -> Seq<(Seq<char>, Seq<char>)> {
    match e {
        ChaprError::SharingViolation { path } => seq![("path"@, path@)],
        ChaprError::PermissionDenied { path } => seq![("path"@, path@)],
        ChaprError::Io { path, message } => seq![("os_message"@, message@), ("path"@, path@)],
        ChaprError::InvalidPath { raw, reason } => seq![("raw"@, raw@), ("reason"@, reason@)],
        ChaprError::OutsideRoot { raw, resolved, roots, provenance } => seq![
            ("raw"@, raw@),
            ("resolved"@, resolved@),
            ("root_provenance"@, provenance@),
            ("roots"@, joined(views(roots@), ", "@)),
        ],
        ChaprError::RecoveryFailed { path, missing_version } => seq![
            ("missing_version"@, missing_version@),
            ("path"@, path@),
        ],
        ChaprError::CommittedButUnrecorded { path, version, message } => seq![
            ("cause"@, message@),
            ("path"@, path@),
            ("version"@, version@),
        ],
        ChaprError::LeaseLost { lease_id } => seq![("lease_id"@, lease_id@)],
        ChaprError::LeaseExpired { lease_id } => seq![("lease_id"@, lease_id@)],
        ChaprError::LeaseNotFound { lease_id } => seq![("lease_id"@, lease_id@)],
        ChaprError::MaxLeaseLifetimeExceeded { lease_id, hard_expiry } => seq![
            ("hard_expiry"@, hard_expiry@),
            ("lease_id"@, lease_id@),
        ],
        ChaprError::Internal { message } => seq![("message"@, message@)],
        _ => Seq::empty(),
    }
}

/// The texts of some facts.
pub open spec fn fact_texts(facts: Seq<(String, String)>) -> Seq<(Seq<char>, Seq<char>)> {
    facts.map_values(|f: (String, String)| (f.0@, f.1@))
}

/// One more fact.
pub(crate) fn note(facts: &mut Vec<(String, String)>, name: &str, value: &str)
    ensures
        fact_texts(final(facts)@) == fact_texts(old(facts)@).push((name@, value@)),
{
    let ghost before = facts@;
    facts.push((own(name), own(value)));
    assert(fact_texts(facts@) =~= fact_texts(before).push((name@, value@)));
}

fn facts(e: &ChaprError) -> (r: Vec<(String, String)>)
    ensures
        fact_texts(r@) == facts_of(*e),
{
    let mut f: Vec<(String, String)> = Vec::new();
    assert(fact_texts(f@) =~= Seq::empty());
    match e {
        ChaprError::SharingViolation { path } => note(&mut f, "path", path.as_str()),
        ChaprError::PermissionDenied { path } => note(&mut f, "path", path.as_str()),
        ChaprError::Io { path, message } => {
            note(&mut f, "os_message", message.as_str());
            note(&mut f, "path", path.as_str());
        },
        ChaprError::InvalidPath { raw, reason } => {
            note(&mut f, "raw", raw.as_str());
            note(&mut f, "reason", reason.as_str());
        },
        ChaprError::OutsideRoot { raw, resolved, roots, provenance } => {
            note(&mut f, "raw", raw.as_str());
            note(&mut f, "resolved", resolved.as_str());
            note(&mut f, "root_provenance", provenance.as_str());
            note(&mut f, "roots", join(roots.as_slice(), ", ").as_str());
        },
        ChaprError::RecoveryFailed { path, missing_version } => {
            note(&mut f, "missing_version", missing_version.as_str());
            note(&mut f, "path", path.as_str());
        },
        ChaprError::CommittedButUnrecorded { path, version, message } => {
            note(&mut f, "cause", message.as_str());
            note(&mut f, "path", path.as_str());
            note(&mut f, "version", version.as_str());
        },
        ChaprError::LeaseLost { lease_id } => note(&mut f, "lease_id", lease_id.0.as_str()),
        ChaprError::LeaseExpired { lease_id } => note(&mut f, "lease_id", lease_id.0.as_str()),
        ChaprError::LeaseNotFound { lease_id } => note(&mut f, "lease_id", lease_id.0.as_str()),
        ChaprError::MaxLeaseLifetimeExceeded { lease_id, hard_expiry } => {
            note(&mut f, "hard_expiry", hard_expiry.0.as_str());
            note(&mut f, "lease_id", lease_id.0.as_str());
        },
        ChaprError::Internal { message } => note(&mut f, "message", message.as_str()),
        _ => {},
    }
    assert(fact_texts(f@) =~= facts_of(*e));
    f
}

/// The file that a failure is about.
pub open spec fn path_of(e: ChaprError) -> Option<CanonicalPath> {
    match e {
        ChaprError::SharingViolation { path } => Some(path),
        ChaprError::PermissionDenied { path } => Some(path),
        ChaprError::Io { path, message } => Some(path),
        ChaprError::RecoveryFailed { path, missing_version } => Some(path),
        ChaprError::CommittedButUnrecorded { path, version, message } => Some(path),
        _ => None,
    }
}

fn diagnostic_path(e: &ChaprError) -> (r: Option<CanonicalPath>)
    ensures
        r == path_of(*e),
{
    match e {
        ChaprError::SharingViolation { path } => Some(path.clone()),
        ChaprError::PermissionDenied { path } => Some(path.clone()),
        ChaprError::Io { path, message: _ } => Some(path.clone()),
        ChaprError::RecoveryFailed { path, missing_version: _ } => Some(path.clone()),
        ChaprError::CommittedButUnrecorded { path, version: _, message: _ } => Some(path.clone()),
        _ => None,
    }
}

/// Whether `d` is the report on a failure, as yet without who and where.
pub open spec fn reports(e: ChaprError, d: DiagnosticReport) -> bool {
    entry_of(e) matches Some(t) && {
        &&& d.code@ == t.code@
        &&& d.title@ == t.title@
        &&& d.severity == t.severity
        &&& d.remedy@ == t.remedy@
        &&& d.path == path_of(e)
        &&& d.detail@ == e.text()
        &&& fact_texts(d.facts@) == facts_of(e)
    }
}

/// The report on a failure, where there is one to make. Who was acting and on
/// which machine is filled in when it is delivered.
pub fn classify(e: &ChaprError) -> (r: Option<DiagnosticReport>)
    ensures
        match r {
            Some(d) => reports(*e, d) && d.principal@ == ""@ && d.host is None,
            None => entry_of(*e) is None,
        },
{
    match entry(e) {
        None => None,
        Some(t) => Some(
            DiagnosticReport {
                code: own(t.code),
                title: own(t.title),
                severity: t.severity,
                path: diagnostic_path(e),
                principal: Principal(own("")),
                host: None,
                detail: e.message(),
                remedy: own(t.remedy),
                facts: facts(e),
            },
        ),
    }
}

/// Designed endings are never reported, and every other failure is.
pub proof fn only_the_unexpected_is_reported(e: ChaprError)
    ensures
        entry_of(e) is None <==> is_designed(e),
{
}

/// Where reports go.
pub struct Diagnostics {
    /// The name of this machine.
    pub host: Option<String>,
    /// The local log, if one is kept.
    pub log_path: Option<String>,
}

/// A report ready to be delivered.
pub struct Delivery {
    /// The report.
    pub report: DiagnosticReport,
    /// Whether it goes to the local log alone.
    pub local_only: bool,
}

/// Whether two reports say the same, who and where apart.
pub open spec fn same_finding(a: DiagnosticReport, b: DiagnosticReport) -> bool {
    &&& a.code == b.code
    &&& a.title == b.title
    &&& a.severity == b.severity
    &&& a.path == b.path
    &&& a.detail == b.detail
    &&& a.remedy == b.remedy
    &&& a.facts == b.facts
}

fn copied(s: &Option<String>) -> (r: Option<String>)
    ensures
        r == *s,
{
    match s {
        Some(t) => Some(t.clone()),
        None => None,
    }
}

impl Diagnostics {
    /// A place for reports from the machine `host`.
    pub fn new(host: Option<String>, log_path: Option<String>) -> (r: Diagnostics)
        ensures
            r == (Diagnostics { host, log_path }),
    {
        Diagnostics { host, log_path }
    }

    /// The delivery of a failure, where it is to be reported. An unreachable
    /// coordinator is not told that it is unreachable.
    pub fn report(&self, principal: &Principal, e: &ChaprError) -> (r: Option<Delivery>)
        ensures
            match r {
                Some(d) => reports(*e, d.report) && d.report.principal == *principal && d.report.host == self.host
                    && d.local_only == (e is CoordUnreachable),
                None => is_designed(*e),
            },
    {
        match classify(e) {
            None => None,
            Some(mut report) => {
                report.principal = principal.clone();
                report.host = copied(&self.host);
                let local_only = matches!(e, ChaprError::CoordUnreachable);
                Some(Delivery { report, local_only })
            },
        }
    }

    /// The delivery of a finding that is no failure.
    pub fn record(&self, principal: &Principal, finding: DiagnosticReport) -> (r: Delivery)
        ensures
            same_finding(r.report, finding),
            r.report.principal == *principal,
            r.report.host == self.host,
            !r.local_only,
    {
        let mut report = finding;
        report.principal = principal.clone();
        report.host = copied(&self.host);
        Delivery { report, local_only: false }
    }

    /// Where the local log is kept by default: in the user's own state
    /// directory, as the system has it.
    pub fn default_log_path(
        windows: bool,
        local_app_data: Option<String>,
        state_home: Option<String>,
        home: Option<String>,
    ) -> (r: Option<String>)
        ensures
            match log_base(windows, local_app_data, state_home, home) {
                Some(base) => r matches Some(p) && p@ == below(
                    below(base, "Chaperone"@, windows),
                    "diagnostics.jsonl"@,
                    windows,
                ),
                None => r is None,
            },
    {
        let base = if windows {
            local_app_data
        } else {
            match state_home {
                Some(dir) => Some(dir),
                None => match home {
                    Some(dir) => Some(descend(dir.as_str(), ".local/state", windows)),
                    None => None,
                },
            }
        };
        match base {
            Some(dir) => {
                let folder = descend(dir.as_str(), "Chaperone", windows);
                Some(descend(folder.as_str(), "diagnostics.jsonl", windows))
            },
            None => None,
        }
    }
}

/// The directory that the local log goes below.
pub open spec fn log_base(
    windows: bool,
    local_app_data: Option<String>,
    state_home: Option<String>,
    home: Option<String>,
) -> Option<Seq<char>> {
    if windows {
        match local_app_data {
            Some(dir) => Some(dir@),
            None => None,
        }
    } else {
        match (state_home, home) {
            (Some(dir), _) => Some(dir@),
            (None, Some(dir)) => Some(below(dir@, ".local/state"@, windows)),
            (None, None) => None,
        }
    }
}

/// Whether a directory takes a name behind it as it stands: an empty one, one that
/// ends in a separator, and on Windows a drive without a path.
pub open spec fn is_open_ended(dir: Seq<char>, windows: bool) -> bool {
    ||| dir.len() == 0
    ||| dir.last() == '/'
    ||| windows && dir.last() == '\\'
    ||| windows && dir.len() == 2 && ('a' <= dir[0] <= 'z' || 'A' <= dir[0] <= 'Z') && dir[1] == ':'
}

/// A name below a directory.
pub open spec fn below(dir: Seq<char>, name: Seq<char>, windows: bool) -> Seq<char> {
    if is_open_ended(dir, windows) {
        dir + name
    } else {
        dir.push(if windows { '\\' } else { '/' }) + name
    }
}

fn descend(dir: &str, name: &str, windows: bool) -> (r: String)
    ensures
        r@ == below(dir@, name@, windows),
{
    let v = crate::text::chars_of(dir);
    let n = v.len();
    let open_ended = n == 0 || v[n - 1] == '/' || (windows && v[n - 1] == '\\') || (windows && n == 2 && (('a' <= v[0]
        && v[0] <= 'z') || ('A' <= v[0] && v[0] <= 'Z')) && v[1] == ':');
    let mut r = own(dir);
    if !open_ended {
        r.push(if windows { '\\' } else { '/' });
    }
    r.append(name);
    r
}

/// The view of an optional text.
pub open spec fn text_view(s: Option<String>) -> Option<Seq<char>> {
    match s {
        Some(t) => Some(t@),
        None => None,
    }
}

/// The name of this machine: what the environment says, or else what the name
/// file holds, if that says anything.
pub fn hostname(variable: Option<String>, file: Option<String>) -> (r: Option<String>)
    ensures
        text_view(r) == match (variable, file) {
            (Some(name), _) if name@.len() > 0 => Some(name@),
            (_, Some(contents)) if trimmed(contents@).len() > 0 => Some(trimmed(contents@)),
            _ => None,
        },
{
    if let Some(name) = variable {
        if !name.as_str().is_empty() {
            return Some(name);
        }
    }
    match file {
        Some(contents) => {
            let name = trim(contents.as_str());
            if name.as_str().is_empty() {
                None
            } else {
                Some(name)
            }
        },
        None => None,
    }
}

/// Whether a log of this size is to be started afresh.
pub fn needs_rotation(len: u64) -> (r: bool)
    ensures
        r == (len > MAX_LOG_BYTES),
{
    len > MAX_LOG_BYTES
}

/// What is an answer to the caller concerns nobody else: a file that is not there or is
/// there already, a conflict, a lease that is held, a document that is open, a name that is
/// taken for another, a version that was not read or not named. Everything else is reported.
pub proof fn answers_are_not_faults(e: ChaprError)
    ensures
        entry_of(e) is None <==> e is LeaseHeld || e is RetryBudgetExhausted || e is Conflict || e is OfficeLockPresent || e is NotFound
            || e is AlreadyExists || e is VersionNotFound || e is ConflictNotFound || e is ParentMissing || e is NearDuplicateName || e
            is IsADirectory || e is BaseVersionNotRecorded || e is BaseVersionRequired || e is ForceRequiresReason,
        entry_of(e) matches Some(t) ==> (t.severity == Severity::Warning <==> e is OutsideRoot || e is LeaseLost || e is LeaseExpired
            || e is LeaseNotFound || e is MaxLeaseLifetimeExceeded),
        entry_of(e) matches Some(t) ==> t.severity != Severity::Info,
{
}

/// A report tells what its failure says: the file it is about where there is one, in its
/// path and among its facts, and the whole sentence.
pub proof fn a_report_is_about_its_failure(e: ChaprError, d: DiagnosticReport, p: CanonicalPath)
    requires
        reports(e, d),
        e == (ChaprError::SharingViolation { path: p }) || e == (ChaprError::PermissionDenied { path: p }),
    ensures
        d.path == Some(p),
        d.detail@ == e.text(),
        fact_texts(d.facts@) == seq![("path"@, p@)],
{
}

/// A name below a directory stands behind one separator, which is put in where the directory
/// does not end in one.
pub proof fn a_name_goes_below_its_directory(dir: Seq<char>, name: Seq<char>)
    requires
        dir.len() > 0,
    ensures
        dir[dir.len() - 1] != '/' ==> below(dir, name, false) == dir + seq!['/'] + name,
        dir[dir.len() - 1] == '/' ==> below(dir, name, false) == dir + name,
        dir.len() > 2 && dir[dir.len() - 1] != '/' && dir[dir.len() - 1] != '\\' ==> below(dir, name, true) == dir + seq!['\\'] + name,
        dir[dir.len() - 1] == '\\' ==> below(dir, name, true) == dir + name,
{
    assert(dir.push('/') + name =~= dir + seq!['/'] + name);
    assert(dir.push('\\') + name =~= dir + seq!['\\'] + name);
}

/// The log goes to the local application data on Windows; elsewhere to the state directory,
/// and to the usual place below the home directory where none is set.
pub proof fn the_log_goes_to_the_users_own_state(data: Option<String>, state: String, home: Option<String>)
    ensures
        data matches Some(d) ==> log_base(true, data, None, home) == Some(d@),
        data is None ==> log_base(true, data, Some(state), home) is None,
        log_base(false, data, Some(state), home) == Some(state@),
        home matches Some(h) ==> (h@.len() > 0 && h@[h@.len() - 1] != '/' ==> log_base(false, data, None, home) == Some(
            h@ + seq!['/'] + ".local/state"@,
        )),
        home is None ==> log_base(false, data, None, home) is None,
{
    if let Some(h) = home {
        if h@.len() > 0 {
            a_name_goes_below_its_directory(h@, ".local/state"@);
        }
    }
}

/// The file that a failure is about is among its facts, and so is what the system or the
/// coordinator said of it.
pub proof fn facts_tell_the_file(e: ChaprError, p: CanonicalPath)
    requires
        match e {
            ChaprError::SharingViolation { path } => path == p,
            ChaprError::PermissionDenied { path } => path == p,
            ChaprError::Io { path, .. } => path == p,
            ChaprError::RecoveryFailed { path, .. } => path == p,
            ChaprError::CommittedButUnrecorded { path, .. } => path == p,
            _ => false,
        },
    ensures
        path_of(e) == Some(p),
        facts_of(e).contains(("path"@, p@)),
        e matches ChaprError::Io { path, message } ==> facts_of(e).contains(("os_message"@, message@)),
        e matches ChaprError::CommittedButUnrecorded { path, version, message } ==> facts_of(e).contains(("version"@, version@))
            && facts_of(e).contains(("cause"@, message@)),
{
    let f = facts_of(e);
    match e {
        ChaprError::SharingViolation { .. } | ChaprError::PermissionDenied { .. } => assert(f[0] == ("path"@, p@)),
        ChaprError::Io { message, .. } => assert(f[1] == ("path"@, p@) && f[0] == ("os_message"@, message@)),
        ChaprError::RecoveryFailed { .. } => assert(f[1] == ("path"@, p@)),
        ChaprError::CommittedButUnrecorded { version, message, .. } => {
            assert(f[1] == ("path"@, p@) && f[0] == ("cause"@, message@) && f[2] == ("version"@, version@));
        },
        _ => {},
    }
}

} // verus!
