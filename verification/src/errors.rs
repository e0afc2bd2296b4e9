//! Error taxonomy of the store and of the synchronization layer.

use vstd::prelude::*;
use vstd::string::StringExecFns;

verus! {

/// Failure of a store operation. The store never panics: constraint
/// violations surface as values.
#[derive(Clone, Copy, Debug, PartialEq, Eq, Structural)]
pub enum StoreError {
    /// A row referencing a user was handed in, but no user with that id exists.
    MissingUser,
    /// A row referencing a project was handed in, but no project with that id exists.
    MissingProject,
    /// A row referencing a content row was handed in, but none with that id exists.
    MissingContent,
    /// A freshly generated id collided with an existing row.
    DuplicateId,
}

/// Failure of one pull or push step. Provider errors are recovered at the
/// engine: they are recorded, never propagated past a pass.
#[derive(Debug, PartialEq, Eq)]
pub enum SyncError {
    /// Transport failure before any response arrived.
    Network(String),
    /// The remote side answered with a rejection and a textual reason.
    RemoteRejected(String),
    /// The remote payload could not be decoded.
    Parse(String),
    /// A local storage constraint could not be satisfied.
    Constraint(String),
}

/// The descriptive text of a sync error.
pub open spec fn sync_error_text(e: SyncError) -> Seq<char> {
    match e {
        SyncError::Network(m) => "network error: "@ + m@,
        SyncError::RemoteRejected(m) => "remote rejected: "@ + m@,
        SyncError::Parse(m) => "parse error: "@ + m@,
        SyncError::Constraint(m) => "constraint violation: "@ + m@,
    }
}

impl SyncError {
    /// One-line description, used for the engine's recorded pass error.
    pub fn describe(&self) -> (r: String)
        ensures
            r@ == sync_error_text(*self),
    {
        match self {
            SyncError::Network(m) => {
                let mut r = "network error: ".to_owned();
                r.append(m.as_str());
                r
            },
            SyncError::RemoteRejected(m) => {
                let mut r = "remote rejected: ".to_owned();
                r.append(m.as_str());
                r
            },
            SyncError::Parse(m) => {
                let mut r = "parse error: ".to_owned();
                r.append(m.as_str());
                r
            },
            SyncError::Constraint(m) => {
                let mut r = "constraint violation: ".to_owned();
                r.append(m.as_str());
                r
            },
        }
    }
}

} // verus!
