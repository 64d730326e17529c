//! The migration orchestrator.
//!
//! The pipeline of destructive operations is a strictly sequential state
//! machine.  The library decides: for each state it names the next
//! external action, and for each reported outcome it decides the next
//! state, which device paths are recorded, and which error aborts the
//! pipeline.  The caller performs the actions (subprocesses, file I/O)
//! and reports back.  Nothing is rolled back automatically: a fatal
//! outcome parks the machine in its terminal failed state.

use vstd::prelude::*;

use crate::errors::Error;
use crate::sizes::{parse_size, parse_size_spec, GIB, MAX_ROOT_SIZE_GB, MIN_ROOT_SIZE_GB};
use crate::SECTOR_SIZE;

verus! {

/// The externally performed actions, in pipeline order.
#[derive(Debug, Clone, Copy, PartialEq, Eq, Structural)]
pub enum Action {
    /// Run the filesystem consistency check on the existing root
    /// partition; a non-zero result is a warning, never fatal.
    CheckFilesystem,
    /// Shrink the root filesystem to the planned byte size.
    ShrinkRootFs,
    /// Rewrite the root partition's table entry at the new end sector.
    ResizeRootPartition,
    /// Create, probe, await and format the swap partition.
    CreateSwapPartition,
    /// Create, probe, await and format the `/var` partition.
    CreateVarPartition,
    /// Create, probe, await and format the `/home` partition.
    CreateHomePartition,
    /// Ensure the fixed mount-point directories exist.
    CreateMountPoints,
    /// Mount the root partition.
    MountRoot,
    /// Mount the new `/var` partition.
    MountVar,
    /// Mount the new `/home` partition.
    MountHome,
    /// Copy the old `/var` subtree into the new partition.
    CopyVarTree,
    /// Delete the old `/var` subtree; issued only after a full copy.
    RemoveOldVarTree,
    /// Copy the old `/home` subtree into the new partition.
    CopyHomeTree,
    /// Delete the old `/home` subtree; issued only after a full copy.
    RemoveOldHomeTree,
    /// Rewrite the persisted mount table on the new root.
    UpdateFstab,
    /// Unmount `/home`; failure is a warning.
    UnmountHome,
    /// Unmount `/var`; failure is a warning.
    UnmountVar,
    /// Unmount the root; failure is a warning.
    UnmountRoot,
}

/// What the caller reports after performing an action.
#[derive(Debug)]
pub enum StepOutcome {
    /// The action completed.
    Success,
    /// A subprocess exited non-zero, or the required I/O failed.
    Failure,
    /// An expected pattern was absent from a tool's output.
    OutputMismatch,
    /// The new partition's device node never appeared within the
    /// bounded wait.
    DeviceMissing,
    /// The partition was created and formatted; this is its device path.
    CreatedDevice(Vec<u8>),
    /// The subtree to copy does not exist; the migration step is skipped.
    SubtreeAbsent,
}

/// The pipeline's states.  Optional steps are skipped, not entered: with
/// no swap requested the machine moves from `RootResized` straight to
/// the `/var` or `/home` creation.
#[derive(Debug, Clone, Copy, PartialEq, Eq, Structural)]
pub enum State {
    Init,
    FsckChecked,
    RootShrunk,
    RootResized,
    SwapCreated,
    VarCreated,
    HomeCreated,
    MountPointsReady,
    RootMounted,
    VarMounted,
    Mounted,
    VarCopied,
    VarMigrated,
    HomeCopied,
    HomeMigrated,
    FstabUpdated,
    HomeUnmounted,
    VarUnmounted,
    Done,
    Failed,
}

/// Record of the partitions actually created, populated strictly in
/// creation order; a device path enters only after its partition was
/// formatted successfully.
#[derive(Debug)]
pub struct CreatedPartitions {
    /// The root partition, known in advance.
    pub root_device: Vec<u8>,
    /// The swap partition, if one was created.
    pub swap_device: Option<Vec<u8>>,
    /// The `/var` partition, if one was created.
    pub var_device: Option<Vec<u8>>,
    /// The `/home` partition, once created.
    pub home_device: Option<Vec<u8>>,
}

/// The migration pipeline: current state, which optional partitions the
/// plan holds, and the record of created partitions.
#[derive(Debug)]
pub struct Pipeline {
    pub state: State,
    pub has_swap: bool,
    pub has_var: bool,
    pub created: CreatedPartitions,
}

/// The next external action the pipeline asks for, `None` once it is
/// done or failed.
pub open spec fn spec_next_action(p: Pipeline) -> Option<Action> {
    match p.state {
        State::Init => Some(Action::CheckFilesystem),
        State::FsckChecked => Some(Action::ShrinkRootFs),
        State::RootShrunk => Some(Action::ResizeRootPartition),
        State::RootResized => if p.has_swap {
            Some(Action::CreateSwapPartition)
        } else if p.has_var {
            Some(Action::CreateVarPartition)
        } else {
            Some(Action::CreateHomePartition)
        },
        State::SwapCreated => if p.has_var {
            Some(Action::CreateVarPartition)
        } else {
            Some(Action::CreateHomePartition)
        },
        State::VarCreated => Some(Action::CreateHomePartition),
        State::HomeCreated => Some(Action::CreateMountPoints),
        State::MountPointsReady => Some(Action::MountRoot),
        State::RootMounted => if p.has_var {
            Some(Action::MountVar)
        } else {
            Some(Action::MountHome)
        },
        State::VarMounted => Some(Action::MountHome),
        State::Mounted => if p.has_var {
            Some(Action::CopyVarTree)
        } else {
            Some(Action::CopyHomeTree)
        },
        State::VarCopied => Some(Action::RemoveOldVarTree),
        State::VarMigrated => Some(Action::CopyHomeTree),
        State::HomeCopied => Some(Action::RemoveOldHomeTree),
        State::HomeMigrated => Some(Action::UpdateFstab),
        State::FstabUpdated => Some(Action::UnmountHome),
        State::HomeUnmounted => if p.has_var {
            Some(Action::UnmountVar)
        } else {
            Some(Action::UnmountRoot)
        },
        State::VarUnmounted => Some(Action::UnmountRoot),
        State::Done => None,
        State::Failed => None,
    }
}

/// Which outcomes an action can produce.
pub open spec fn outcome_fits(a: Action, o: StepOutcome) -> bool {
    match a {
        Action::CheckFilesystem => o is Success || o is Failure,
        Action::ShrinkRootFs => o is Success || o is Failure,
        Action::ResizeRootPartition => o is Success || o is Failure || o is OutputMismatch,
        Action::CreateSwapPartition | Action::CreateVarPartition | Action::CreateHomePartition =>
            o is CreatedDevice || o is DeviceMissing || o is Failure || o is OutputMismatch,
        Action::CreateMountPoints => o is Success || o is Failure,
        Action::MountRoot | Action::MountVar | Action::MountHome => o is Success || o is Failure,
        Action::CopyVarTree | Action::CopyHomeTree => o is Success || o is SubtreeAbsent
            || o is Failure,
        Action::RemoveOldVarTree | Action::RemoveOldHomeTree => o is Success || o is Failure,
        Action::UpdateFstab => o is Success || o is Failure || o is OutputMismatch,
        Action::UnmountHome | Action::UnmountVar | Action::UnmountRoot => o is Success
            || o is Failure,
    }
}

/// The error a fatal outcome carries.
pub open spec fn spec_outcome_error(o: StepOutcome) -> Error {
    match o {
        StepOutcome::DeviceMissing => Error::DeviceNotReadyError,
        StepOutcome::OutputMismatch => Error::ToolOutputError,
        _ => Error::ToolExecutionError,
    }
}

/// Whether the reported outcome aborts the pipeline.  The filesystem
/// check and the unmounts never abort; a missing source subtree skips
/// its migration step; everything else aborts unless it succeeded.
pub open spec fn spec_outcome_fatal(a: Action, o: StepOutcome) -> bool {
    match a {
        Action::CheckFilesystem => false,
        Action::UnmountHome | Action::UnmountVar | Action::UnmountRoot => false,
        Action::CopyVarTree | Action::CopyHomeTree => o is Failure,
        Action::CreateSwapPartition | Action::CreateVarPartition | Action::CreateHomePartition =>
            !(o is CreatedDevice),
        _ => !(o is Success),
    }
}

/// The state entered when the pending action's outcome is not fatal.
pub open spec fn spec_success_state(p: Pipeline, a: Action, o: StepOutcome) -> State {
    match a {
        Action::CheckFilesystem => State::FsckChecked,
        Action::ShrinkRootFs => State::RootShrunk,
        Action::ResizeRootPartition => State::RootResized,
        Action::CreateSwapPartition => State::SwapCreated,
        Action::CreateVarPartition => State::VarCreated,
        Action::CreateHomePartition => State::HomeCreated,
        Action::CreateMountPoints => State::MountPointsReady,
        Action::MountRoot => State::RootMounted,
        Action::MountVar => State::VarMounted,
        Action::MountHome => State::Mounted,
        Action::CopyVarTree => if o is SubtreeAbsent {
            State::VarMigrated
        } else {
            State::VarCopied
        },
        Action::RemoveOldVarTree => State::VarMigrated,
        Action::CopyHomeTree => if o is SubtreeAbsent {
            State::HomeMigrated
        } else {
            State::HomeCopied
        },
        Action::RemoveOldHomeTree => State::HomeMigrated,
        Action::UpdateFstab => State::FstabUpdated,
        Action::UnmountHome => State::HomeUnmounted,
        Action::UnmountVar => State::VarUnmounted,
        Action::UnmountRoot => State::Done,
    }
}

/// The record of created partitions after the outcome: a device path is
/// recorded exactly when a creation action reports it formatted.
pub open spec fn spec_advanced_created(
    c: CreatedPartitions,
    a: Action,
    o: StepOutcome,
) -> CreatedPartitions {
    match o {
        StepOutcome::CreatedDevice(d) => match a {
            Action::CreateSwapPartition => CreatedPartitions { swap_device: Some(d), ..c },
            Action::CreateVarPartition => CreatedPartitions { var_device: Some(d), ..c },
            Action::CreateHomePartition => CreatedPartitions { home_device: Some(d), ..c },
            _ => c,
        },
        _ => c,
    }
}

impl Pipeline {
    /// A fresh pipeline, before any step ran: nothing created yet.
    pub fn new(root_device: Vec<u8>, has_swap: bool, has_var: bool) -> (r: Pipeline)
        ensures
            r.state == State::Init,
            r.has_swap == has_swap,
            r.has_var == has_var,
            r.created.root_device == root_device,
            r.created.swap_device is None,
            r.created.var_device is None,
            r.created.home_device is None,
    {
        Pipeline {
            state: State::Init,
            has_swap,
            has_var,
            created: CreatedPartitions {
                root_device,
                swap_device: None,
                var_device: None,
                home_device: None,
            },
        }
    }

    /// The next external action to perform, or `None` when the pipeline
    /// is done or has failed.
    pub fn next_action(&self) -> (r: Option<Action>)
        ensures
            r == spec_next_action(*self),
    {
        match self.state {
            State::Init => Some(Action::CheckFilesystem),
            State::FsckChecked => Some(Action::ShrinkRootFs),
            State::RootShrunk => Some(Action::ResizeRootPartition),
            State::RootResized => if self.has_swap {
                Some(Action::CreateSwapPartition)
            } else if self.has_var {
                Some(Action::CreateVarPartition)
            } else {
                Some(Action::CreateHomePartition)
            },
            State::SwapCreated => if self.has_var {
                Some(Action::CreateVarPartition)
            } else {
                Some(Action::CreateHomePartition)
            },
            State::VarCreated => Some(Action::CreateHomePartition),
            State::HomeCreated => Some(Action::CreateMountPoints),
            State::MountPointsReady => Some(Action::MountRoot),
            State::RootMounted => if self.has_var {
                Some(Action::MountVar)
            } else {
                Some(Action::MountHome)
            },
            State::VarMounted => Some(Action::MountHome),
            State::Mounted => if self.has_var {
                Some(Action::CopyVarTree)
            } else {
                Some(Action::CopyHomeTree)
            },
            State::VarCopied => Some(Action::RemoveOldVarTree),
            State::VarMigrated => Some(Action::CopyHomeTree),
            State::HomeCopied => Some(Action::RemoveOldHomeTree),
            State::HomeMigrated => Some(Action::UpdateFstab),
            State::FstabUpdated => Some(Action::UnmountHome),
            State::HomeUnmounted => if self.has_var {
                Some(Action::UnmountVar)
            } else {
                Some(Action::UnmountRoot)
            },
            State::VarUnmounted => Some(Action::UnmountRoot),
            State::Done => None,
            State::Failed => None,
        }
    }

    /// Feed back the outcome of the pending action.  A non-fatal outcome
    /// moves the machine forward; a fatal one parks it in the terminal
    /// failed state, returns the outcome's error, and leaves the record
    /// of created partitions untouched.  In particular: a partition
    /// whose device node never appeared is never recorded, and a failed
    /// subtree copy aborts the pipeline before any deletion is asked
    /// for.
    pub fn advance(&mut self, outcome: StepOutcome) -> (r: Result<(), Error>)
        requires
            spec_next_action(*old(self)) is Some,
            outcome_fits(spec_next_action(*old(self))->Some_0, outcome),
        ensures
            final(self).has_swap == old(self).has_swap,
            final(self).has_var == old(self).has_var,
            spec_outcome_fatal(spec_next_action(*old(self))->Some_0, outcome) ==> {
                &&& final(self).state == State::Failed
                &&& r == Err::<(), Error>(spec_outcome_error(outcome))
                &&& final(self).created == old(self).created
                &&& spec_next_action(*final(self)) is None
            },
            !spec_outcome_fatal(spec_next_action(*old(self))->Some_0, outcome) ==> {
                &&& final(self).state == spec_success_state(
                    *old(self),
                    spec_next_action(*old(self))->Some_0,
                    outcome,
                )
                &&& r == Ok::<(), Error>(())
                &&& final(self).created == spec_advanced_created(
                    old(self).created,
                    spec_next_action(*old(self))->Some_0,
                    outcome,
                )
            },
    {
        let action = match self.next_action() {
            Some(a) => a,
            None => {
                // Unreachable: the caller owes a pending action.
                proof {
                    assert(false);
                }
                return Err(Error::ToolExecutionError);
            },
        };
        let fatal = match action {
            Action::CheckFilesystem => false,
            Action::UnmountHome | Action::UnmountVar | Action::UnmountRoot => false,
            Action::CopyVarTree | Action::CopyHomeTree => matches!(outcome, StepOutcome::Failure),
            Action::CreateSwapPartition | Action::CreateVarPartition
                | Action::CreateHomePartition => !matches!(outcome, StepOutcome::CreatedDevice(_)),
            _ => !matches!(outcome, StepOutcome::Success),
        };
        if fatal {
            self.state = State::Failed;
            let err = match outcome {
                StepOutcome::DeviceMissing => Error::DeviceNotReadyError,
                StepOutcome::OutputMismatch => Error::ToolOutputError,
                _ => Error::ToolExecutionError,
            };
            return Err(err);
        }
        let subtree_absent = matches!(outcome, StepOutcome::SubtreeAbsent);
        match outcome {
            StepOutcome::CreatedDevice(d) => {
                match action {
                    Action::CreateSwapPartition => {
                        self.created.swap_device = Some(d);
                    },
                    Action::CreateVarPartition => {
                        self.created.var_device = Some(d);
                    },
                    Action::CreateHomePartition => {
                        self.created.home_device = Some(d);
                    },
                    _ => {
                        // Unreachable: only creation actions may report
                        // a created device.
                        proof {
                            assert(false);
                        }
                    },
                }
            },
            _ => {},
        }
        self.state = match action {
            Action::CheckFilesystem => State::FsckChecked,
            Action::ShrinkRootFs => State::RootShrunk,
            Action::ResizeRootPartition => State::RootResized,
            Action::CreateSwapPartition => State::SwapCreated,
            Action::CreateVarPartition => State::VarCreated,
            Action::CreateHomePartition => State::HomeCreated,
            Action::CreateMountPoints => State::MountPointsReady,
            Action::MountRoot => State::RootMounted,
            Action::MountVar => State::VarMounted,
            Action::MountHome => State::Mounted,
            Action::CopyVarTree => if subtree_absent {
                State::VarMigrated
            } else {
                State::VarCopied
            },
            Action::RemoveOldVarTree => State::VarMigrated,
            Action::CopyHomeTree => if subtree_absent {
                State::HomeMigrated
            } else {
                State::HomeCopied
            },
            Action::RemoveOldHomeTree => State::HomeMigrated,
            Action::UpdateFstab => State::FstabUpdated,
            Action::UnmountHome => State::HomeUnmounted,
            Action::UnmountVar => State::VarUnmounted,
            Action::UnmountRoot => State::Done,
        };
        Ok(())
    }
}

/// Law: a partition whose device node never appeared within the bounded
/// wait aborts the pipeline with `DeviceNotReadyError`, and its device
/// is never recorded among the created partitions.
pub proof fn lemma_device_missing_never_recorded(p: Pipeline)
    requires
        spec_next_action(p) matches Some(a) && (a == Action::CreateSwapPartition
            || a == Action::CreateVarPartition || a == Action::CreateHomePartition),
    ensures
        spec_outcome_fatal(spec_next_action(p)->Some_0, StepOutcome::DeviceMissing),
        spec_outcome_error(StepOutcome::DeviceMissing) == Error::DeviceNotReadyError,
{
}

/// Law: the deletion of an old subtree can only ever be the pending
/// action in the state that a fully successful copy of that subtree
/// reaches: no other action leads into that state, a skipped copy
/// (absent subtree) bypasses it, and a failed copy parks the machine
/// with no further action.  Deletion therefore only follows a
/// successful copy.
pub proof fn lemma_copy_precedes_removal(p: Pipeline, a: Action, o: StepOutcome)
    ensures
        spec_next_action(p) == Some(Action::RemoveOldVarTree) ==> p.state == State::VarCopied,
        spec_next_action(p) == Some(Action::RemoveOldHomeTree) ==> p.state == State::HomeCopied,
        spec_success_state(p, a, o) == State::VarCopied ==> a == Action::CopyVarTree && !(o
            is SubtreeAbsent),
        spec_success_state(p, a, o) == State::HomeCopied ==> a == Action::CopyHomeTree && !(o
            is SubtreeAbsent),
        spec_outcome_fatal(Action::CopyVarTree, o) <==> o is Failure,
        p.state == State::Failed ==> spec_next_action(p) is None,
{
}

/// The validated partition request that survives the pre-flight gates.
#[derive(Debug)]
pub struct PlanRequest {
    pub root_size: u64,
    pub swap_size: Option<u64>,
    pub var_size: Option<u64>,
}

pub open spec fn opt_bytes_view(o: Option<&[u8]>) -> Option<Seq<u8>> {
    match o {
        Some(t) => Some(t@),
        None => None,
    }
}

/// The pre-flight gates, in the order they are checked: the device must
/// exist; operating on the live root disk demands the explicit
/// override; the root size must parse and lie within policy bounds;
/// optional sizes must parse and hold at least one sector, so that
/// every accepted request yields non-empty, strictly ordered ranges;
/// and swap or a separate `/var` on SD media demand the override.
pub open spec fn spec_preflight(
    device_exists: bool,
    is_active_root: bool,
    allow_active_disk: bool,
    is_sd_card: bool,
    allow_sd_overrides: bool,
    root_text: Seq<u8>,
    swap_text: Option<Seq<u8>>,
    var_text: Option<Seq<u8>>,
) -> Result<PlanRequest, Error> {
    if !device_exists {
        Err(Error::NotFoundError)
    } else if is_active_root && !allow_active_disk {
        Err(Error::UnsafeTargetError)
    } else {
        match parse_size_spec(root_text) {
            None => Err(Error::ParseError),
            Some(root_size) => if !(MIN_ROOT_SIZE_GB * GIB <= root_size <= MAX_ROOT_SIZE_GB
                * GIB) {
                Err(Error::PolicyError)
            } else {
                let swap_parsed = match swap_text {
                    Some(t) => match parse_size_spec(t) {
                        Some(v) => if v < SECTOR_SIZE {
                            Err(Error::PolicyError)
                        } else {
                            Ok(Some(v))
                        },
                        None => Err(Error::ParseError),
                    },
                    None => Ok(None),
                };
                match swap_parsed {
                    Err(e) => Err(e),
                    Ok(swap_size) => {
                        let var_parsed = match var_text {
                            Some(t) => match parse_size_spec(t) {
                                Some(v) => if v < SECTOR_SIZE {
                                    Err(Error::PolicyError)
                                } else {
                                    Ok(Some(v))
                                },
                                None => Err(Error::ParseError),
                            },
                            None => Ok(None),
                        };
                        match var_parsed {
                            Err(e) => Err(e),
                            Ok(var_size) => if is_sd_card && !allow_sd_overrides && (swap_size
                                is Some || var_size is Some) {
                                Err(Error::PolicyError)
                            } else {
                                Ok(PlanRequest { root_size, swap_size, var_size })
                            },
                        }
                    },
                }
            },
        }
    }
}

/// Run the pre-flight gates before any destructive step.
pub fn preflight(
    device_exists: bool,
    is_active_root: bool,
    allow_active_disk: bool,
    is_sd_card: bool,
    allow_sd_overrides: bool,
    root_size_text: &[u8],
    swap_size_text: Option<&[u8]>,
    var_size_text: Option<&[u8]>,
) -> (r: Result<PlanRequest, Error>)
    ensures
        ({
            let expected = spec_preflight(
                device_exists,
                is_active_root,
                allow_active_disk,
                is_sd_card,
                allow_sd_overrides,
                root_size_text@,
                opt_bytes_view(swap_size_text),
                opt_bytes_view(var_size_text),
            );
            match r {
                Ok(plan) => expected matches Ok(p) && p.root_size == plan.root_size
                    && p.swap_size == plan.swap_size && p.var_size == plan.var_size,
                Err(e) => expected == Err::<PlanRequest, Error>(e),
            }
        }),
{
    if !device_exists {
        return Err(Error::NotFoundError);
    }
    if is_active_root && !allow_active_disk {
        return Err(Error::UnsafeTargetError);
    }
    let root_size = match parse_size(root_size_text) {
        Ok(v) => v,
        Err(e) => {
            return Err(e);
        },
    };
    if root_size < MIN_ROOT_SIZE_GB * GIB || root_size > MAX_ROOT_SIZE_GB * GIB {
        return Err(Error::PolicyError);
    }
    let swap_size = match swap_size_text {
        Some(t) => match parse_size(t) {
            Ok(v) => {
                if v < SECTOR_SIZE {
                    return Err(Error::PolicyError);
                }
                Some(v)
            },
            Err(e) => {
                return Err(e);
            },
        },
        None => None,
    };
    let var_size = match var_size_text {
        Some(t) => match parse_size(t) {
            Ok(v) => {
                if v < SECTOR_SIZE {
                    return Err(Error::PolicyError);
                }
                Some(v)
            },
            Err(e) => {
                return Err(e);
            },
        },
        None => None,
    };
    if is_sd_card && !allow_sd_overrides && (swap_size.is_some() || var_size.is_some()) {
        return Err(Error::PolicyError);
    }
    Ok(PlanRequest { root_size, swap_size, var_size })
}

/// Which of the fixed mount-point directories must be created: exactly
/// those that do not exist yet.  Re-running on directories that all
/// exist creates nothing, so the step is idempotent and cannot fail.
pub struct MountPointPlan {
    pub create_root: bool,
    pub create_var: bool,
    pub create_home: bool,
}

/// Decide which mount-point directories to create.
pub fn mount_point_plan(root_exists: bool, var_exists: bool, home_exists: bool) -> (r:
    MountPointPlan)
    ensures
        r.create_root == !root_exists,
        r.create_var == !var_exists,
        r.create_home == !home_exists,
{
    MountPointPlan {
        create_root: !root_exists,
        create_var: !var_exists,
        create_home: !home_exists,
    }
}

/// The indices of the dependencies that were not found, in order: the
/// packages the caller must install.
pub fn missing_dependencies(found: &Vec<bool>) -> (r: Vec<usize>)
    ensures
        forall|k: int| 0 <= k < r@.len() ==> 0 <= #[trigger] r@[k] < found@.len()
            && !found@[r@[k] as int],
        forall|j: int| 0 <= j < found@.len() && !found@[j] ==> r@.contains(j as usize),
        forall|k1: int, k2: int| 0 <= k1 < k2 < r@.len() ==> r@[k1] < r@[k2],
{
    let mut out: Vec<usize> = Vec::new();
    let mut i: usize = 0;
    while i < found.len()
        invariant
            i <= found@.len(),
            forall|k: int| 0 <= k < out@.len() ==> 0 <= #[trigger] out@[k] < i
                && !found@[out@[k] as int],
            forall|j: int| 0 <= j < i && !found@[j] ==> out@.contains(j as usize),
            forall|k1: int, k2: int| 0 <= k1 < k2 < out@.len() ==> out@[k1] < out@[k2],
        decreases found@.len() - i,
    {
        if !found[i] {
            let ghost pre = out@;
            out.push(i);
            proof {
                assert forall|j: int| 0 <= j <= i && !found@[j] implies out@.contains(
                    j as usize,
                ) by {
                    if j < i {
                        let k = choose|k: int| 0 <= k < pre.len() && pre[k] == j as usize;
                        assert(out@[k] == j as usize);
                    } else {
                        assert(out@[pre.len() as int] == i as usize);
                    }
                }
            }
        }
        i = i + 1;
    }
    out
}

/// The package managers the installer knows.
#[derive(Debug, Clone, Copy, PartialEq, Eq, Structural)]
pub enum PackageManager {
    Apt,
    Yum,
}

/// Pick the package manager to install missing dependencies with: apt
/// first, then yum; none present is a fatal execution error.
pub fn choose_package_manager(has_apt: bool, has_yum: bool) -> (r: Result<PackageManager, Error>)
    ensures
        has_apt ==> r == Ok::<PackageManager, Error>(PackageManager::Apt),
        !has_apt && has_yum ==> r == Ok::<PackageManager, Error>(PackageManager::Yum),
        !has_apt && !has_yum ==> r == Err::<PackageManager, Error>(Error::ToolExecutionError),
{
    if has_apt {
        Ok(PackageManager::Apt)
    } else if has_yum {
        Ok(PackageManager::Yum)
    } else {
        Err(Error::ToolExecutionError)
    }
}

} // verus!
