//! Error taxonomy of the repartitioning pipeline.
//!
//! Every variant is fatal to the pipeline except where a step's contract
//! says otherwise (filesystem-check warnings and unmount failures are
//! surfaced as warnings by the caller and never become an `Error`).

use vstd::prelude::*;

verus! {

/// The failure modes of planning and of the migration pipeline.
#[derive(Debug, Clone, Copy, PartialEq, Eq, Structural)]
pub enum Error {
    /// A size string was malformed.
    ParseError,
    /// The root size lies outside the policy bounds, or swap/`/var` were
    /// requested on SD media without an override.
    PolicyError,
    /// A device or partition path does not exist.
    NotFoundError,
    /// The target device is the live root disk and no override was given.
    UnsafeTargetError,
    /// An expected pattern was absent from a collaborator tool's report.
    ToolOutputError,
    /// A subprocess exited non-zero during a destructive step.
    ToolExecutionError,
    /// A device node did not appear within the bounded wait.
    DeviceNotReadyError,
    /// The computed `/home` partition would be smaller than half the disk;
    /// `shortfall` is the number of bytes missing from that floor.
    InsufficientSpaceError { shortfall: u64 },
}

} // verus!
