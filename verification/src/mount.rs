//! Which share a mapped drive letter stands for.
use vstd::prelude::*;

use crate::text::{decimal, decimal_text};

verus! {

/// Resolves a local path to the share it is mounted from.
pub trait MountTable {
    /// The UNC form of an absolute local path: `Ok(None)` when the path is on a
    /// local disk and has no such form, `Err` when it could not be looked up.
    fn universal_name(&self, local_path: &str) -> Result<Option<String>, String>;
}

/// Whether a mount table that is asked for a path can answer with `lookup`.
pub open spec fn asked_for<M: MountTable>(mounts: M, path: Seq<char>, lookup: Result<Option<String>, String>) -> bool {
    exists|p: &str| p@ == path && #[trigger] call_ensures(M::universal_name, (&mounts, p), lookup)
}

/// The table of a machine without mapped drives: every path is local.
pub struct NoMountTable;

impl MountTable for NoMountTable {
    fn universal_name(&self, _local_path: &str) -> (r: Result<Option<String>, String>)
        ensures
            r == Ok::<Option<String>, String>(None),
    {
        Ok(None)
    }
}

/// The mount table of this build: without mapped drives there is none to ask.
pub fn default_mounts() -> (r: NoMountTable)
    ensures
        r == NoMountTable,
{
    NoMountTable
}

/// The success code of a Win32 call.
pub const NO_ERROR: u32 = 0;

/// The buffer was too small; the call left the size it needs.
pub const ERROR_MORE_DATA: u32 = 234;

/// The path names no network connection.
pub const ERROR_NO_NET_OR_BAD_PATH: u32 = 1203;

/// The device is not a redirected one.
pub const ERROR_NOT_CONNECTED: u32 = 2250;

/// The mount table of Windows, asked through `WNetGetUniversalNameW`.
///
/// The system call itself is made by the program; what its answers mean is
/// decided here, one answer at a time.
pub struct WinMountTable;

/// What one answer of `WNetGetUniversalNameW` settles.
pub enum MountStep {
    /// The lookup is over, with this result.
    Settled(Result<Option<String>, String>),
    /// The call is to be repeated with the buffer size that it asked for.
    AskAgain,
}

/// The name that the call left in its buffer.
pub enum MountName {
    /// The pointer in the buffer was null.
    Missing,
    /// The name is not valid UTF-16, for the reason given.
    Undecodable(String),
    /// The universal name.
    Unc(String),
}

pub open spec fn failed_text(code: nat) -> Seq<char> {
    "WNetGetUniversalNameW failed with Win32 error "@ + decimal_text(code)
}

/// What an answer settles: a name on success, a local path where there is no
/// network connection, one more attempt where the buffer was too small at first.
pub open spec fn mount_step(attempt: u32, code: u32, name: MountName, r: MountStep) -> bool {
    if code == NO_ERROR {
        match name {
            MountName::Missing => r matches MountStep::Settled(Err(e))
                && e@ == "WNetGetUniversalNameW returned no name"@,
            MountName::Undecodable(why) => r matches MountStep::Settled(Err(e))
                && e@ == "universal name is not valid UTF-16: "@ + why@,
            MountName::Unc(unc) => r == MountStep::Settled(Ok(Some(unc))),
        }
    } else if code == ERROR_NOT_CONNECTED || code == ERROR_NO_NET_OR_BAD_PATH {
        r == MountStep::Settled(Ok(None))
    } else if code == ERROR_MORE_DATA && attempt == 0 {
        r is AskAgain
    } else {
        r matches MountStep::Settled(Err(e)) && e@ == failed_text(code as nat)
    }
}

impl WinMountTable {
    /// What the answer to attempt number `attempt`, counted from zero, settles.
    /// `name` is what a successful call left behind.
    pub fn settle(attempt: u32, code: u32, name: MountName) -> (r: MountStep)
        ensures
            mount_step(attempt, code, name, r),
    {
        if code == NO_ERROR {
            match name {
                MountName::Missing => MountStep::Settled(
                    Err("WNetGetUniversalNameW returned no name".to_owned()),
                ),
                MountName::Undecodable(why) => {
                    let mut e = "universal name is not valid UTF-16: ".to_owned();
                    e.append(why.as_str());
                    MountStep::Settled(Err(e))
                },
                MountName::Unc(unc) => MountStep::Settled(Ok(Some(unc))),
            }
        } else if code == ERROR_NOT_CONNECTED || code == ERROR_NO_NET_OR_BAD_PATH {
            MountStep::Settled(Ok(None))
        } else if code == ERROR_MORE_DATA && attempt == 0 {
            MountStep::AskAgain
        } else {
            let mut e = "WNetGetUniversalNameW failed with Win32 error ".to_owned();
            e.append(decimal(code as u64).as_str());
            MountStep::Settled(Err(e))
        }
    }
}

/// Two calls are enough: whatever the second answers, the lookup is over.
pub proof fn second_answer_settles(attempt: u32, code: u32, name: MountName, r: MountStep)
    requires
        attempt > 0,
        mount_step(attempt, code, name, r),
    ensures
        r is Settled,
{
}

/// Without mapped drives every path is answered to be local.
pub proof fn nothing_is_mapped(path: Seq<char>, lookup: Result<Option<String>, String>)
    requires
        asked_for(NoMountTable, path, lookup),
    ensures
        lookup == Ok::<Option<String>, String>(None),
{
}

/// A lookup that succeeds with a name gives that name; a path on no network connection is
/// local; a buffer that was too small is asked for once more and no more; and everything
/// else is a failure.
pub proof fn answers_of_the_system_are_taken_for_what_they_say(attempt: u32, code: u32, name: MountName, r: MountStep)
    requires
        mount_step(attempt, code, name, r),
    ensures
        r matches MountStep::Settled(Ok(Some(unc))) <==> code == 0 && name is Unc,
        r matches MountStep::Settled(Ok(Some(unc))) ==> name == MountName::Unc(unc),
        r matches MountStep::Settled(Ok(None)) <==> code == 2250 || code == 1203,
        r is AskAgain <==> code == 234 && attempt == 0,
{
}

} // verus!
