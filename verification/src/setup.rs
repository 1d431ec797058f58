//! What is settled before a pass starts: where the sync document lies, and
//! how a failure to get the wanted or the observed state is told apart.

use crate::sync_structs::{LocalRoot, Root};
use vstd::prelude::*;

verus! {

/// Where the sync document lies when nothing else is said.
pub const DEFAULT_SYNC_FILE: &'static str = "/etc/user-sync.json";

/// The environment variable that may name the sync document.
pub const SYNC_FILE_VARIABLE: &'static str = "USER_SYNC";

/// Why a run ended before anything was changed.
#[derive(Debug, Clone, Copy, PartialEq, Eq, Structural)]
pub enum SetupError {
    /// The sync document could not be read.
    SyncUnreadable,
    /// The users of the host could not be read.
    UsersUnreadable,
    /// The groups of the host could not be read.
    GroupsUnreadable,
    /// The sync document could not be understood.
    SyncInvalid,
    /// The sync document has no local section.
    LocalMissing,
}

impl SetupError {
    /// The exit code that tells this failure from the others.
    pub open spec fn code(self) -> u8 {
        match self {
            SetupError::SyncUnreadable => 1,
            SetupError::UsersUnreadable => 2,
            SetupError::GroupsUnreadable => 3,
            SetupError::SyncInvalid => 4,
            SetupError::LocalMissing => 5,
        }
    }

    /// The exit code of a run that ended with this failure.
    pub fn exit_code(&self) -> (code: u8)
        ensures
            code == self.code(),
    {
        match self {
            SetupError::SyncUnreadable => 1,
            SetupError::UsersUnreadable => 2,
            SetupError::GroupsUnreadable => 3,
            SetupError::SyncInvalid => 4,
            SetupError::LocalMissing => 5,
        }
    }
}

/// The exit code of a run that got as far as the pass, whatever became of the
/// single calls.
pub const SUCCESS: u8 = 0;

/// No failure has the exit code of success, and no two failures share one.
pub proof fn lemma_exit_codes_distinct(one: SetupError, other: SetupError)
    ensures
        one.code() != SUCCESS,
        one.code() == other.code() ==> one == other,
{
}

/// Settles where the sync document lies: where the first argument of the
/// program says, else where the environment variable says, else at the
/// default place.
pub fn get_sync_file_path(argument: Option<String>, variable: Option<String>) -> (path: String)
    ensures
        path@ == match (argument, variable) {
            (Some(given), _) => given@,
            (None, Some(named)) => named@,
            (None, None) => DEFAULT_SYNC_FILE@,
        },
{
    match argument {
        Some(given) => given,
        None => match variable {
            Some(named) => named,
            None => DEFAULT_SYNC_FILE.to_owned(),
        },
    }
}

/// Takes the local section out of the sync document. Without one the run is
/// invalid and nothing is attempted.
pub fn local_section(sync: Root) -> (local: Result<LocalRoot, SetupError>)
    ensures
        match sync.local {
            Some(section) => local == Ok::<LocalRoot, SetupError>(section),
            None => local == Err::<LocalRoot, SetupError>(SetupError::LocalMissing),
        },
{
    match sync.local {
        Some(section) => Ok(section),
        None => Err(SetupError::LocalMissing),
    }
}

} // verus!
