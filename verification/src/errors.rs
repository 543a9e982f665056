//! The typed errors surfaced by the engine.

use vstd::prelude::*;
use crate::ids::{BranchId, Oid};

verus! {

/// Every failure the engine surfaces.  Local recovery is limited to the head
/// verifier; everything else fails fast and leaves persisted state unchanged.
#[derive(Clone, Debug, PartialEq)]
pub enum Error {
    /// No default target is set for the project.
    TargetMissing,
    /// The repository head is detached; the user must repair it manually.
    DetachedHead,
    /// The head points at a branch other than the integration ref.
    InvalidHead { name: String },
    /// The integration ref does not carry the expected integration commit.
    NoIntegrationCommit,
    /// Two applied branches do not merge; nothing was persisted.
    WorkspaceMergeConflict { branch: BranchId },
    /// A verb referred to a virtual branch that does not exist.
    BranchNotFound { id: BranchId },
    /// A verb referred to a commit outside the branch's linear segment.
    CommitNotFound { commit: Oid },
    /// The operation needs the branch's uncommitted work committed first.
    DirtyWorkingTree,
    /// Granting the requested claim would give two applied branches the same
    /// (path, range).
    OwnershipOverlap,
    /// A branch must be unapplied before it can be deleted.
    BranchStillApplied,
    /// The git adapter failed (I/O, corruption); the cause is chained.
    GitBackend { message: String },
    /// The virtual-branch store could not be read or written.
    Persistence { message: String },
    /// The operation was aborted at a suspension point.
    Cancelled,
}

} // verus!
