//! The tools: what they are asked, what they answer, what they tell the model
//! when something stands in the way.
use vstd::prelude::*;

use crate::canon::{join_paths, path_texts};
use crate::coord_client::{lowered_ascii, to_ascii_lowercase};
use crate::envelope::{content_bytes, decode_content, ContentEncoding};
use crate::ops::{MkdirResponse, RestoreResponse};
use crate::proto::{
    is_token_text, CanonicalPath, ChaprError, Principal, RestoreBase, RestoreMode, Timestamp, VersionToken, WriteMode,
};
use crate::text::{decimal, decimal_text, join, joined, mentions, own, quoted, quoted_text, same, views};
use crate::texts::{
    COMMITTED_GUIDANCE, HELD_GUIDANCE, INSTRUCTIONS_HEAD, INSTRUCTIONS_TAIL, NEAR_A, NEAR_B, OFFICE_GUIDANCE,
    PARENT_A, PARENT_B, PARKED_A, PARKED_B, PARKED_C, RETRY_HEAD, RETRY_TAIL, SCOPE_HEAD, SCOPE_OPEN, SCOPE_TAIL,
    SIMILAR_A, SIMILAR_B, UNPARKED_A, UNPARKED_B, UNREACHABLE_GUIDANCE, UNREAD_GUIDANCE,
};

verus! {

/// What `chapr_read` is asked.
#[derive(Debug)]
pub struct ReadArgs {
    /// The file.
    pub uri: String,
    /// Whether bytes are wanted that cannot be read as text.
    pub allow_binary: bool,
}

/// What `chapr_write` is asked.
#[derive(Debug)]
pub struct WriteArgs {
    /// The file.
    pub uri: String,
    /// The new contents.
    pub content: String,
    /// How they are written.
    pub encoding: ContentEncoding,
    /// The version that was read.
    pub base_version: String,
    /// Why to write past the version check.
    pub force_reason: Option<String>,
}

/// What `chapr_list`, `chapr_stat` and `chapr_history` are asked.
#[derive(Debug)]
pub struct UriArgs {
    /// The path.
    pub uri: String,
}

/// What `chapr_create` is asked.
#[derive(Debug)]
pub struct CreateArgs {
    /// The file.
    pub uri: String,
    /// The contents.
    pub content: String,
    /// How they are written.
    pub encoding: ContentEncoding,
}

/// What `chapr_delete` is asked.
#[derive(Debug)]
pub struct DeleteArgs {
    /// The file.
    pub uri: String,
    /// The version that was read.
    pub base_version: String,
}

/// What `chapr_mkdir` is asked.
#[derive(Debug)]
pub struct MkdirArgs {
    /// The directory.
    pub uri: String,
    /// Whether a person confirmed a name that resembles another.
    pub confirm_new: bool,
}

/// What `chapr_restore` is asked.
#[derive(Debug)]
pub struct RestoreArgs {
    /// The file.
    pub uri: String,
    /// The version to restore.
    pub version: String,
    /// Whether to restore over the file itself.
    pub in_place: bool,
    /// What was seen at the file: a version, or `absent`.
    pub base: Option<String>,
}

/// What `chapr_move` is asked.
#[derive(Debug)]
pub struct MoveArgs {
    /// Where the file is.
    pub src_uri: String,
    /// Where it goes.
    pub dst_uri: String,
    /// The version that was read at the source.
    pub src_base_version: String,
    /// The version that was read at the destination.
    pub dst_base_version: Option<String>,
}

/// What `chapr_conflicts` is asked.
#[derive(Debug)]
pub struct ConflictsArgs {
    /// The directory.
    pub scope: String,
}

/// What `chapr_resolve_conflict` is asked.
#[derive(Debug)]
pub struct ResolveConflictArgs {
    /// The conflict.
    pub conflict_id: String,
    /// How it was resolved.
    pub resolution: String,
}

/// How a conflict was resolved.
#[derive(Clone, Copy, Debug, PartialEq, Eq, Structural)]
pub enum ConflictResolution {
    /// The loser's contents were kept.
    KeptMine,
    /// The winner's contents were kept.
    KeptTheirs,
    /// Both were merged.
    Merged,
    /// The loser's contents were thrown away.
    Discarded,
}

impl ConflictResolution {
    /// The word for it.
    pub open spec fn name_text(self) -> Seq<char> {
        match self {
            ConflictResolution::KeptMine => "KeptMine"@,
            ConflictResolution::KeptTheirs => "KeptTheirs"@,
            ConflictResolution::Merged => "Merged"@,
            ConflictResolution::Discarded => "Discarded"@,
        }
    }

    /// The word for it.
    pub fn name(self) -> (r: &'static str)
        ensures
            r@ == self.name_text(),
    {
        match self {
            ConflictResolution::KeptMine => "KeptMine",
            ConflictResolution::KeptTheirs => "KeptTheirs",
            ConflictResolution::Merged => "Merged",
            ConflictResolution::Discarded => "Discarded",
        }
    }
}

/// What a caller may say of how a conflict was resolved.
pub open spec fn resolution_of(s: Seq<char>) -> Option<ConflictResolution> {
    if s == "kept_mine"@ {
        Some(ConflictResolution::KeptMine)
    } else if s == "kept_theirs"@ {
        Some(ConflictResolution::KeptTheirs)
    } else if s == "merged"@ {
        Some(ConflictResolution::Merged)
    } else if s == "discarded"@ {
        Some(ConflictResolution::Discarded)
    } else {
        None
    }
}

/// Reads how a conflict was resolved.
pub fn parse_resolution(s: &str) -> (r: Result<ConflictResolution, String>)
    ensures
        match resolution_of(s@) {
            Some(v) => r == Ok::<ConflictResolution, String>(v),
            None => r matches Err(e) && e@ == "unknown resolution "@ + quoted_text(s@)
                + "; expected kept_mine|kept_theirs|merged|discarded"@,
        },
{
    if same(s, "kept_mine") {
        Ok(ConflictResolution::KeptMine)
    } else if same(s, "kept_theirs") {
        Ok(ConflictResolution::KeptTheirs)
    } else if same(s, "merged") {
        Ok(ConflictResolution::Merged)
    } else if same(s, "discarded") {
        Ok(ConflictResolution::Discarded)
    } else {
        let mut e = own("unknown resolution ");
        e.append(quoted(s).as_str());
        e.append("; expected kept_mine|kept_theirs|merged|discarded");
        Err(e)
    }
}

/// Reads a version that a caller names in the argument `what`.
pub fn parse_version(what: &str, text: String) -> (r: Result<VersionToken, String>)
    ensures
        if is_token_text(text@) {
            r == Ok::<VersionToken, String>(VersionToken(text))
        } else {
            r matches Err(e) && e@ == what@ + " is not a valid version token"@
        },
{
    match VersionToken::from_hex(text) {
        Some(v) => Ok(v),
        None => {
            let mut e = own(what);
            e.append(" is not a valid version token");
            Err(e)
        },
    }
}

/// A write, read from its arguments.
pub struct WriteRequest {
    /// The file.
    pub uri: String,
    /// The new contents.
    pub content: Vec<u8>,
    /// The version that was read.
    pub base_version: VersionToken,
    /// Whether the version has to match.
    pub mode: WriteMode,
}

/// Reads the arguments of a write: the version first, then the contents.
pub fn write_request(args: WriteArgs) -> (r: Result<WriteRequest, String>)
    ensures
        if !is_token_text(args.base_version@) {
            r matches Err(e) && e@ == "base_version"@ + " is not a valid version token"@
        } else {
            match content_bytes(args.content@, args.encoding) {
                Err(why) => r matches Err(e) && e@ == why,
                Ok(bytes) => r matches Ok(q) && q.uri == args.uri && q.content@ == bytes
                    && q.base_version == VersionToken(args.base_version) && q.mode == match args.force_reason {
                    Some(reason) => WriteMode::Force { reason },
                    None => WriteMode::Cas,
                },
            }
        },
{
    let base_version = match parse_version("base_version", args.base_version) {
        Ok(v) => v,
        Err(e) => return Err(e),
    };
    let mode = match args.force_reason {
        Some(reason) => WriteMode::Force { reason },
        None => WriteMode::Cas,
    };
    match decode_content(args.content, args.encoding) {
        Ok(content) => Ok(WriteRequest { uri: args.uri, content, base_version, mode }),
        Err(e) => Err(e),
    }
}

/// A restore, read from its arguments.
pub struct RestoreRequest {
    /// The file.
    pub uri: String,
    /// The version to restore.
    pub version: VersionToken,
    /// Where to.
    pub mode: RestoreMode,
    /// What was seen at the file.
    pub base: Option<RestoreBase>,
}

pub const BAD_BASE_TEXT: &'static str = "base must be a version token from chapr_stat/chapr_read, or \"absent\" for a soft-deleted file";

/// Whether a text says that a file was not there, in whatever case.
pub open spec fn says_absent(s: Seq<char>) -> bool {
    lowered_ascii(s) == "absent"@
}

/// What a caller may say of what it saw at a file; `Err` where it makes no
/// sense, which must not be taken for either meaning.
pub open spec fn base_of(base: Option<String>) -> Result<Option<RestoreBase>, ()> {
    match base {
        None => Ok(None),
        Some(s) => if says_absent(s@) {
            Ok(Some(RestoreBase::Absent))
        } else if is_token_text(s@) {
            Ok(Some(RestoreBase::Version(VersionToken(s))))
        } else {
            Err(())
        },
    }
}

/// Reads the arguments of a restore.
pub fn restore_request(args: RestoreArgs) -> (r: Result<RestoreRequest, String>)
    ensures
        if !is_token_text(args.version@) {
            r matches Err(e) && e@ == "version"@ + " is not a valid version token"@
        } else {
            match base_of(args.base) {
                Err(_) => r matches Err(e) && e@ == BAD_BASE_TEXT@,
                Ok(base) => r matches Ok(q) && q.uri == args.uri && q.version == VersionToken(args.version)
                    && q.mode == (if args.in_place { RestoreMode::InPlace } else { RestoreMode::Copy }) && q.base == base,
            }
        },
{
    let version = match parse_version("version", args.version) {
        Ok(v) => v,
        Err(e) => return Err(e),
    };
    let mode = if args.in_place { RestoreMode::InPlace } else { RestoreMode::Copy };
    let base = match args.base {
        None => None,
        Some(s) => if same(to_ascii_lowercase(s.as_str()).as_str(), "absent") {
            Some(RestoreBase::Absent)
        } else {
            match VersionToken::from_hex(s) {
                Some(v) => Some(RestoreBase::Version(v)),
                None => return Err(own(BAD_BASE_TEXT)),
            }
        },
    };
    Ok(RestoreRequest { uri: args.uri, version, mode, base })
}

/// A move, read from its arguments.
pub struct MoveRequest {
    /// Where the file is.
    pub src_uri: String,
    /// Where it goes.
    pub dst_uri: String,
    /// The version that was read at the source.
    pub src_base_version: VersionToken,
    /// The version that was read at the destination.
    pub dst_base_version: Option<VersionToken>,
}

/// Reads the arguments of a move.
pub fn move_request(args: MoveArgs) -> (r: Result<MoveRequest, String>)
    ensures
        if !is_token_text(args.src_base_version@) {
            r matches Err(e) && e@ == "src_base_version"@ + " is not a valid version token"@
        } else if args.dst_base_version matches Some(d) && !is_token_text(d@) {
            r matches Err(e) && e@ == "dst_base_version"@ + " is not a valid version token"@
        } else {
            r matches Ok(q) && q.src_uri == args.src_uri && q.dst_uri == args.dst_uri
                && q.src_base_version == VersionToken(args.src_base_version) && q.dst_base_version == match args.dst_base_version {
                Some(d) => Some(VersionToken(d)),
                None => None,
            }
        },
{
    let src_base_version = match parse_version("src_base_version", args.src_base_version) {
        Ok(v) => v,
        Err(e) => return Err(e),
    };
    let dst_base_version = match args.dst_base_version {
        Some(d) => match parse_version("dst_base_version", d) {
            Ok(v) => Some(v),
            Err(e) => return Err(e),
        },
        None => None,
    };
    Ok(MoveRequest { src_uri: args.src_uri, dst_uri: args.dst_uri, src_base_version, dst_base_version })
}

/// What is told of a write that went through.
pub fn wrote(uri: &str, version: &VersionToken) -> (r: String)
    ensures
        r@ == "wrote "@ + uri@ + " — new version "@ + version@,
{
    let mut s = own("wrote ");
    s.append(uri);
    s.append(" — new version ");
    s.append(version.as_str());
    s
}

/// What is told of a creation that went through.
pub fn created(uri: &str, version: &VersionToken) -> (r: String)
    ensures
        r@ == "created "@ + uri@ + " — version "@ + version@,
{
    let mut s = own("created ");
    s.append(uri);
    s.append(" — version ");
    s.append(version.as_str());
    s
}

/// What is told of a deletion that went through.
pub fn deleted(uri: &str) -> (r: String)
    ensures
        r@ == "soft-deleted "@ + uri@ + " (recoverable via chapr_restore)"@,
{
    let mut s = own("soft-deleted ");
    s.append(uri);
    s.append(" (recoverable via chapr_restore)");
    s
}

/// What is told of a move that went through.
pub fn moved(src_uri: &str, dst_uri: &str) -> (r: String)
    ensures
        r@ == "moved "@ + src_uri@ + " -> "@ + dst_uri@,
{
    let mut s = own("moved ");
    s.append(src_uri);
    s.append(" -> ");
    s.append(dst_uri);
    s
}

/// What is told of a restore that went through.
pub fn restored(uri: &str, resp: &RestoreResponse) -> (r: String)
    ensures
        r@ == match resp.restored_path {
            Some(p) => "restored "@ + uri@ + " (copy at "@ + p@ + ") — version "@ + resp.version@,
            None => "restored "@ + uri@ + " (in place) — version "@ + resp.version@,
        },
{
    let mut s = own("restored ");
    s.append(uri);
    match &resp.restored_path {
        Some(p) => {
            s.append(" (copy at ");
            s.append(p.as_str());
            s.append(") — version ");
        },
        None => {
            s.append(" (in place) — version ");
        },
    }
    s.append(resp.version.as_str());
    s
}

/// What is told of a directory that was made.
pub fn made_directory(resp: &MkdirResponse) -> (r: String)
    ensures
        r@ == if resp.similar_existing@.len() == 0 {
            "created directory "@ + resp.canonical_path@
        } else {
            "created directory "@ + resp.canonical_path@ + SIMILAR_A@ + joined(views(resp.similar_existing@), ", "@) + SIMILAR_B@
        },
{
    let mut s = own("created directory ");
    s.append(resp.canonical_path.as_str());
    if resp.similar_existing.len() > 0 {
        s.append(SIMILAR_A);
        s.append(join(resp.similar_existing.as_slice(), ", ").as_str());
        s.append(SIMILAR_B);
    }
    s
}

/// What is told of a conflict that was resolved.
pub fn resolved(conflict_id: &str, resolution: ConflictResolution) -> (r: String)
    ensures
        r@ == "resolved "@ + conflict_id@ + " as "@ + resolution.name_text(),
{
    let mut s = own("resolved ");
    s.append(conflict_id);
    s.append(" as ");
    s.append(resolution.name());
    s
}

/// Where the drive is.
pub open spec fn scope_text(roots: Seq<CanonicalPath>) -> Seq<char> {
    if roots.len() == 0 {
        SCOPE_OPEN@
    } else {
        SCOPE_HEAD@ + joined(path_texts(roots), ", "@) + SCOPE_TAIL@
    }
}

/// What a model is told about the drive: that what it reads there is data, how
/// to write, and where the drive is.
pub fn instructions(roots: &[CanonicalPath]) -> (r: String)
    ensures
        r@ == INSTRUCTIONS_HEAD@ + scope_text(roots@) + INSTRUCTIONS_TAIL@,
{
    let scope = if roots.len() == 0 {
        own(SCOPE_OPEN)
    } else {
        let mut s = own(SCOPE_HEAD);
        s.append(join_paths(roots, ", ").as_str());
        s.append(SCOPE_TAIL);
        s
    };
    let mut s = own(INSTRUCTIONS_HEAD);
    s.append(scope.as_str());
    s.append(INSTRUCTIONS_TAIL);
    s
}

/// How the endpoint names itself to a host.
pub struct Identity {
    /// Its name.
    pub name: String,
    /// Its name in a list.
    pub title: String,
    /// Its version.
    pub version: String,
}

/// How the endpoint names itself to a host: as itself, and not as the library it
/// speaks through.
pub fn server_identity(version: &str) -> (r: Identity)
    ensures
        r.name@ == "chaperone"@,
        r.title@ == "Chaperone"@,
        r.version@ == version@,
{
    Identity { name: own("chaperone"), title: own("Chaperone"), version: own(version) }
}

/// What to do about a failure, where anything can be said beyond what happened.
pub open spec fn guidance_text(e: ChaprError) -> Seq<char> {
    match e {
        ChaprError::RetryBudgetExhausted { path, attempts } => RETRY_HEAD@ + decimal_text(attempts as nat) + RETRY_TAIL@,
        ChaprError::LeaseHeld { .. } => HELD_GUIDANCE@,
        ChaprError::Conflict { base_path, current_version, last_writer, when, sidecar_path } => match sidecar_path {
            Some(sidecar) => PARKED_A@ + base_path@ + PARKED_B@ + sidecar@ + PARKED_C@,
            None => UNPARKED_A@ + base_path@ + UNPARKED_B@,
        },
        ChaprError::OfficeLockPresent { .. } => OFFICE_GUIDANCE@,
        ChaprError::ParentMissing { path, parent } => PARENT_A@ + parent@ + PARENT_B@,
        ChaprError::NearDuplicateName { path, similar } => NEAR_A@ + joined(views(similar@), ", "@) + NEAR_B@,
        ChaprError::CommittedButUnrecorded { .. } => COMMITTED_GUIDANCE@,
        ChaprError::CoordUnreachable => UNREACHABLE_GUIDANCE@,
        ChaprError::BaseVersionNotRecorded { .. } => UNREAD_GUIDANCE@,
        _ => ""@,
    }
}

fn guidance(e: &ChaprError) -> (r: String)
    ensures
        r@ == guidance_text(*e),
{
    match e {
        ChaprError::RetryBudgetExhausted { path: _, attempts } => {
            let mut s = own(RETRY_HEAD);
            s.append(decimal(*attempts as u64).as_str());
            s.append(RETRY_TAIL);
            s
        },
        ChaprError::LeaseHeld { .. } => own(HELD_GUIDANCE),
        ChaprError::Conflict { base_path, current_version: _, last_writer: _, when: _, sidecar_path } => match sidecar_path {
            Some(sidecar) => {
                let mut s = own(PARKED_A);
                s.append(base_path.as_str());
                s.append(PARKED_B);
                s.append(sidecar.as_str());
                s.append(PARKED_C);
                s
            },
            None => {
                let mut s = own(UNPARKED_A);
                s.append(base_path.as_str());
                s.append(UNPARKED_B);
                s
            },
        },
        ChaprError::OfficeLockPresent { .. } => own(OFFICE_GUIDANCE),
        ChaprError::ParentMissing { path: _, parent } => {
            let mut s = own(PARENT_A);
            s.append(parent.as_str());
            s.append(PARENT_B);
            s
        },
        ChaprError::NearDuplicateName { path: _, similar } => {
            let mut s = own(NEAR_A);
            s.append(join(similar.as_slice(), ", ").as_str());
            s.append(NEAR_B);
            s
        },
        ChaprError::CommittedButUnrecorded { .. } => own(COMMITTED_GUIDANCE),
        ChaprError::CoordUnreachable => own(UNREACHABLE_GUIDANCE),
        ChaprError::BaseVersionNotRecorded { .. } => own(UNREAD_GUIDANCE),
        _ => own(""),
    }
}

/// What a model is told of a failure: what happened, whether anything changed,
/// and what to do now.
pub fn tool_error(e: &ChaprError) -> (r: String)
    ensures
        r@ == e.text() + guidance_text(*e),
{
    let mut s = e.message();
    s.append(guidance(e).as_str());
    s
}

/// The word under which a refusal goes into the audit trail. Only a decision
/// about somebody's request goes there: not the environment failing, and not the
/// answer that there is no such thing.
pub open spec fn refusal_of(e: ChaprError) -> Option<Seq<char>> {
    match e {
        ChaprError::OutsideRoot { .. } => Some("outside_root"@),
        ChaprError::Conflict { .. } => Some("cas_conflict"@),
        ChaprError::OfficeLockPresent { .. } => Some("office_lock"@),
        ChaprError::NearDuplicateName { .. } => Some("near_duplicate_name"@),
        ChaprError::BaseVersionRequired { .. } => Some("base_version_required"@),
        ChaprError::BaseVersionNotRecorded { .. } => Some("base_version_not_read"@),
        ChaprError::ForceRequiresReason { .. } => Some("force_without_reason"@),
        ChaprError::LeaseHeld { .. } => Some("lease_held"@),
        ChaprError::RetryBudgetExhausted { .. } => Some("retry_budget_exhausted"@),
        ChaprError::PermissionDenied { .. } => Some("permission_denied"@),
        _ => None,
    }
}

/// The word under which a refusal goes into the audit trail.
pub fn refusal_reason(e: &ChaprError) -> (r: Option<&'static str>)
    ensures
        match r {
            Some(reason) => refusal_of(*e) == Some(reason@),
            None => refusal_of(*e) is None,
        },
{
    match e {
        ChaprError::OutsideRoot { .. } => Some("outside_root"),
        ChaprError::Conflict { .. } => Some("cas_conflict"),
        ChaprError::OfficeLockPresent { .. } => Some("office_lock"),
        ChaprError::NearDuplicateName { .. } => Some("near_duplicate_name"),
        ChaprError::BaseVersionRequired { .. } => Some("base_version_required"),
        ChaprError::BaseVersionNotRecorded { .. } => Some("base_version_not_read"),
        ChaprError::ForceRequiresReason { .. } => Some("force_without_reason"),
        ChaprError::LeaseHeld { .. } => Some("lease_held"),
        ChaprError::RetryBudgetExhausted { .. } => Some("retry_budget_exhausted"),
        ChaprError::PermissionDenied { .. } => Some("permission_denied"),
        _ => None,
    }
}

/// The entry in the audit trail for a refusal.
pub fn refusal_detail(verb: &str, reason: &str, message: &str) -> (r: String)
    ensures
        r@ == "refused["@ + reason@ + "] "@ + verb@ + ": "@ + message@,
{
    let mut s = own("refused[");
    s.append(reason);
    s.append("] ");
    s.append(verb);
    s.append(": ");
    s.append(message);
    s
}

/// What is audited as a decision is never a failure of the environment that
/// somebody has to look into, but for access that was denied or a path outside
/// the roots, which are both.
pub proof fn decisions_and_faults(e: ChaprError)
    requires
        refusal_of(e) is Some,
        crate::diag::entry_of(e) is Some,
    ensures
        e is PermissionDenied || e is OutsideRoot,
{
}

/// What a caller saw at a file is taken for what it says: nothing where it says nothing,
/// no file for "absent" in whatever case, the version for a token, and a refusal for
/// anything else, which is never taken for either.
pub proof fn what_was_seen_is_taken_as_said(s: String)
    ensures
        base_of(None) == Ok::<Option<RestoreBase>, ()>(None),
        says_absent(s@) ==> base_of(Some(s)) == Ok::<Option<RestoreBase>, ()>(Some(RestoreBase::Absent)),
        is_token_text(s@) ==> base_of(Some(s)) == Ok::<Option<RestoreBase>, ()>(Some(RestoreBase::Version(VersionToken(s)))),
        !says_absent(s@) && !is_token_text(s@) ==> base_of(Some(s)) is Err,
        says_absent(s@) ==> s@.len() == 6 && !is_token_text(s@),
        s@.len() == 6 && (s@[0] == 'a' || s@[0] == 'A') && (s@[1] == 'b' || s@[1] == 'B') && (s@[2] == 's' || s@[2] == 'S') && (s@[3]
            == 'e' || s@[3] == 'E') && (s@[4] == 'n' || s@[4] == 'N') && (s@[5] == 't' || s@[5] == 'T') ==> says_absent(s@),
{
    reveal_strlit("absent");
    assert(lowered_ascii(s@).len() == s@.len());
    if s@.len() == 6 && (s@[0] == 'a' || s@[0] == 'A') && (s@[1] == 'b' || s@[1] == 'B') && (s@[2] == 's' || s@[2] == 'S') && (s@[3]
        == 'e' || s@[3] == 'E') && (s@[4] == 'n' || s@[4] == 'N') && (s@[5] == 't' || s@[5] == 'T') {
        assert(lowered_ascii(s@) =~= "absent"@);
    }
}

/// Four words say how a conflict was resolved, each its own way, and no other text does.
pub proof fn resolutions_are_said_by_their_words(s: Seq<char>)
    ensures
        resolution_of(s) == Some(ConflictResolution::KeptMine) <==> s == "kept_mine"@,
        resolution_of(s) == Some(ConflictResolution::KeptTheirs) <==> s == "kept_theirs"@,
        resolution_of(s) == Some(ConflictResolution::Merged) <==> s == "merged"@,
        resolution_of(s) == Some(ConflictResolution::Discarded) <==> s == "discarded"@,
{
    reveal_strlit("kept_mine");
    reveal_strlit("kept_theirs");
    reveal_strlit("merged");
    reveal_strlit("discarded");
    assert("kept_mine"@.len() == 9 && "kept_theirs"@.len() == 11 && "merged"@.len() == 6);
    assert("kept_mine"@[0] == 'k' && "discarded"@[0] == 'd');
}

/// A request that was turned down by a decision is audited, under a word of its own; what
/// is no decision, such as a file that is not there or a coordinator out of reach, is not.
pub proof fn decisions_are_audited(e: ChaprError)
    ensures
        refusal_of(e) is Some <==> e is OutsideRoot || e is Conflict || e is OfficeLockPresent || e is NearDuplicateName || e
            is BaseVersionRequired || e is BaseVersionNotRecorded || e is ForceRequiresReason || e is LeaseHeld || e
            is RetryBudgetExhausted || e is PermissionDenied,
        e is Conflict ==> refusal_of(e) == Some("cas_conflict"@),
        e is OfficeLockPresent ==> refusal_of(e) == Some("office_lock"@),
        e is NearDuplicateName ==> refusal_of(e) == Some("near_duplicate_name"@),
{
}

/// A conflict over contents that were put aside tells the caller where they are, and one
/// over nothing of the caller's names the file alone.
pub proof fn a_conflict_guides_to_the_sidecar(
    base_path: CanonicalPath,
    current_version: VersionToken,
    last_writer: Principal,
    when: Timestamp,
    sidecar: CanonicalPath,
)
    ensures
        mentions(
            guidance_text(ChaprError::Conflict { base_path, current_version, last_writer, when, sidecar_path: Some(sidecar) }),
            sidecar@,
        ),
        mentions(
            guidance_text(ChaprError::Conflict { base_path, current_version, last_writer, when, sidecar_path: Some(sidecar) }),
            base_path@,
        ),
        mentions(
            guidance_text(ChaprError::Conflict { base_path, current_version, last_writer, when, sidecar_path: None }),
            base_path@,
        ),
{
    let parked = guidance_text(ChaprError::Conflict { base_path, current_version, last_writer, when, sidecar_path: Some(sidecar) });
    let bare = guidance_text(ChaprError::Conflict { base_path, current_version, last_writer, when, sidecar_path: None });
    assert(parked =~= (PARKED_A@ + base_path@ + PARKED_B@) + sidecar@ + PARKED_C@);
    assert(parked =~= PARKED_A@ + base_path@ + (PARKED_B@ + sidecar@ + PARKED_C@));
    assert(bare =~= UNPARKED_A@ + base_path@ + UNPARKED_B@);
}

/// What a model is told about the drive names every root in force.
pub proof fn the_scope_names_the_roots(roots: Seq<CanonicalPath>)
    requires
        roots.len() > 0,
    ensures
        mentions(scope_text(roots), joined(path_texts(roots), ", "@)),
{
    let list = joined(path_texts(roots), ", "@);
    assert(scope_text(roots) =~= SCOPE_HEAD@ + list + SCOPE_TAIL@);
}

} // verus!
