//! Per-entity synchronization status and its storage encoding.

use vstd::prelude::*;

verus! {

/// Synchronization state of one locally stored entity row.
///
/// `Pending` marks local mutations not yet confirmed by the remote side;
/// `Synced` means the row matches the last confirmed remote state.
/// `Conflict` is reserved for divergent-edit detection and is never
/// assigned automatically by this library.
#[derive(Clone, Copy, Debug, PartialEq, Eq, Structural)]
pub enum SyncStatus {
    Synced,
    Pending,
    Conflict,
}

/// The status a storage code string decodes to: unknown codes read as `Synced`.
pub open spec fn status_of_code(s: Seq<char>) -> SyncStatus {
    if s == "pending"@ {
        SyncStatus::Pending
    } else if s == "conflict"@ {
        SyncStatus::Conflict
    } else {
        SyncStatus::Synced
    }
}

/// The storage code string of a status.
pub open spec fn code_of_status(st: SyncStatus) -> Seq<char> {
    match st {
        SyncStatus::Synced => "synced"@,
        SyncStatus::Pending => "pending"@,
        SyncStatus::Conflict => "conflict"@,
    }
}

/// String equality by contents.
pub fn str_eq(a: &str, b: &str) -> (r: bool)
    ensures
        r == (a@ == b@),
{
    a.to_owned() == b.to_owned()
}

impl From<&str> for SyncStatus {
    fn from(s: &str) -> (r: SyncStatus) {
        if str_eq(s, "pending") {
            SyncStatus::Pending
        } else if str_eq(s, "conflict") {
            SyncStatus::Conflict
        } else {
            SyncStatus::Synced
        }
    }
}

impl vstd::std_specs::convert::FromSpecImpl<&str> for SyncStatus {
    open spec fn obeys_from_spec() -> bool {
        true
    }

    open spec fn from_spec(s: &str) -> SyncStatus {
        status_of_code(s@)
    }
}

impl Default for SyncStatus {
    fn default() -> (r: SyncStatus)
        ensures
            r == SyncStatus::Synced,
    {
        SyncStatus::Synced
    }
}

impl SyncStatus {
    /// The storage encoding of this status.
    pub fn to_string(&self) -> (r: String)
        ensures
            r@ == code_of_status(*self),
    {
        match self {
            SyncStatus::Synced => "synced".to_owned(),
            SyncStatus::Pending => "pending".to_owned(),
            SyncStatus::Conflict => "conflict".to_owned(),
        }
    }
}

} // verus!
