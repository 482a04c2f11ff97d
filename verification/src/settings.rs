//! The user's settings for SSH workspaces.

use crate::proto::HistoryRetention;
use vstd::prelude::*;

verus! {

/// How long the output of newly created workspaces is kept. Workspaces that are
/// there keep the policy that they were created with.
#[derive(Clone, Copy, PartialEq, Eq, Structural, Debug)]
pub enum PersistentHistoryRetention {
    UntilWorkspaceDeleted,
    Rolling,
}

impl Default for PersistentHistoryRetention {
    fn default() -> (retention: Self)
        ensures
            retention == PersistentHistoryRetention::UntilWorkspaceDeleted,
    {
        PersistentHistoryRetention::UntilWorkspaceDeleted
    }
}

impl PersistentHistoryRetention {
    pub fn display_name(self) -> (name: &'static str)
        ensures
            name@ == (match self {
                PersistentHistoryRetention::UntilWorkspaceDeleted => "Until workspace deletion"@,
                PersistentHistoryRetention::Rolling => "Most recent 64 MiB"@,
            }),
    {
        match self {
            PersistentHistoryRetention::UntilWorkspaceDeleted => "Until workspace deletion",
            PersistentHistoryRetention::Rolling => "Most recent 64 MiB",
        }
    }

    /// The retention that a request asks for.
    pub fn to_proto(self) -> (retention: HistoryRetention)
        ensures
            retention == (match self {
                PersistentHistoryRetention::UntilWorkspaceDeleted =>
                    HistoryRetention::UntilWorkspaceDeleted,
                PersistentHistoryRetention::Rolling => HistoryRetention::Rolling,
            }),
    {
        match self {
            PersistentHistoryRetention::UntilWorkspaceDeleted =>
                HistoryRetention::UntilWorkspaceDeleted,
            PersistentHistoryRetention::Rolling => HistoryRetention::Rolling,
        }
    }
}

} // verus!
