use rpi_fs_shrink::errors::Error;
use rpi_fs_shrink::orchestrator::{
    choose_package_manager, missing_dependencies, mount_point_plan, preflight, Action,
    PackageManager, Pipeline, State, StepOutcome,
};

/// Drive the pipeline with the given outcome and expect progress.
fn step(p: &mut Pipeline, outcome: StepOutcome) {
    p.advance(outcome).unwrap();
}

#[test]
fn full_run_without_swap_or_var() {
    let mut p = Pipeline::new(b"/dev/sda2".to_vec(), false, false);
    assert_eq!(p.next_action(), Some(Action::CheckFilesystem));
    step(&mut p, StepOutcome::Success);
    assert_eq!(p.next_action(), Some(Action::ShrinkRootFs));
    step(&mut p, StepOutcome::Success);
    assert_eq!(p.next_action(), Some(Action::ResizeRootPartition));
    step(&mut p, StepOutcome::Success);
    // No swap and no /var requested: /home is created next.
    assert_eq!(p.next_action(), Some(Action::CreateHomePartition));
    step(&mut p, StepOutcome::CreatedDevice(b"/dev/sda3".to_vec()));
    assert_eq!(p.created.home_device, Some(b"/dev/sda3".to_vec()));
    assert_eq!(p.next_action(), Some(Action::CreateMountPoints));
    step(&mut p, StepOutcome::Success);
    // Mount order: root, then home (no /var).
    assert_eq!(p.next_action(), Some(Action::MountRoot));
    step(&mut p, StepOutcome::Success);
    assert_eq!(p.next_action(), Some(Action::MountHome));
    step(&mut p, StepOutcome::Success);
    // No /var: migration starts with /home.
    assert_eq!(p.next_action(), Some(Action::CopyHomeTree));
    step(&mut p, StepOutcome::Success);
    assert_eq!(p.next_action(), Some(Action::RemoveOldHomeTree));
    step(&mut p, StepOutcome::Success);
    assert_eq!(p.next_action(), Some(Action::UpdateFstab));
    step(&mut p, StepOutcome::Success);
    // Unmount order: home, then root.
    assert_eq!(p.next_action(), Some(Action::UnmountHome));
    step(&mut p, StepOutcome::Success);
    assert_eq!(p.next_action(), Some(Action::UnmountRoot));
    step(&mut p, StepOutcome::Success);
    assert_eq!(p.state, State::Done);
    assert_eq!(p.next_action(), None);
    assert_eq!(p.created.swap_device, None);
    assert_eq!(p.created.var_device, None);
}

#[test]
fn full_run_with_swap_and_var_orders_every_step() {
    let mut p = Pipeline::new(b"/dev/sda2".to_vec(), true, true);
    step(&mut p, StepOutcome::Success);  // fsck
    step(&mut p, StepOutcome::Success);  // shrink
    step(&mut p, StepOutcome::Success);  // resize
    assert_eq!(p.next_action(), Some(Action::CreateSwapPartition));
    step(&mut p, StepOutcome::CreatedDevice(b"/dev/sda3".to_vec()));
    assert_eq!(p.next_action(), Some(Action::CreateVarPartition));
    step(&mut p, StepOutcome::CreatedDevice(b"/dev/sda4".to_vec()));
    assert_eq!(p.next_action(), Some(Action::CreateHomePartition));
    step(&mut p, StepOutcome::CreatedDevice(b"/dev/sda5".to_vec()));
    assert_eq!(p.created.swap_device, Some(b"/dev/sda3".to_vec()));
    assert_eq!(p.created.var_device, Some(b"/dev/sda4".to_vec()));
    assert_eq!(p.created.home_device, Some(b"/dev/sda5".to_vec()));
    step(&mut p, StepOutcome::Success);  // mount points
    // Mount order: root, var, home.
    assert_eq!(p.next_action(), Some(Action::MountRoot));
    step(&mut p, StepOutcome::Success);
    assert_eq!(p.next_action(), Some(Action::MountVar));
    step(&mut p, StepOutcome::Success);
    assert_eq!(p.next_action(), Some(Action::MountHome));
    step(&mut p, StepOutcome::Success);
    // /var migrates before /home; each copy precedes its removal.
    assert_eq!(p.next_action(), Some(Action::CopyVarTree));
    step(&mut p, StepOutcome::Success);
    assert_eq!(p.next_action(), Some(Action::RemoveOldVarTree));
    step(&mut p, StepOutcome::Success);
    assert_eq!(p.next_action(), Some(Action::CopyHomeTree));
    step(&mut p, StepOutcome::Success);
    assert_eq!(p.next_action(), Some(Action::RemoveOldHomeTree));
    step(&mut p, StepOutcome::Success);
    step(&mut p, StepOutcome::Success);  // fstab
    // Unmount order: home, var, root; failures are warnings.
    assert_eq!(p.next_action(), Some(Action::UnmountHome));
    step(&mut p, StepOutcome::Failure);
    assert_eq!(p.next_action(), Some(Action::UnmountVar));
    step(&mut p, StepOutcome::Success);
    assert_eq!(p.next_action(), Some(Action::UnmountRoot));
    step(&mut p, StepOutcome::Success);
    assert_eq!(p.state, State::Done);
}

#[test]
fn fsck_failure_is_a_warning_not_fatal() {
    let mut p = Pipeline::new(b"/dev/sda2".to_vec(), false, false);
    assert_eq!(p.advance(StepOutcome::Failure), Ok(()));
    assert_eq!(p.state, State::FsckChecked);
}

#[test]
fn shrink_failure_is_fatal() {
    let mut p = Pipeline::new(b"/dev/sda2".to_vec(), false, false);
    step(&mut p, StepOutcome::Success);
    assert_eq!(p.advance(StepOutcome::Failure), Err(Error::ToolExecutionError));
    assert_eq!(p.state, State::Failed);
    assert_eq!(p.next_action(), None);
}

#[test]
fn missing_device_node_aborts_and_records_nothing() {
    // Partition creation succeeds but the device node never appears
    // within the bounded wait.
    let mut p = Pipeline::new(b"/dev/sda2".to_vec(), true, false);
    step(&mut p, StepOutcome::Success);
    step(&mut p, StepOutcome::Success);
    step(&mut p, StepOutcome::Success);
    assert_eq!(p.next_action(), Some(Action::CreateSwapPartition));
    assert_eq!(p.advance(StepOutcome::DeviceMissing), Err(Error::DeviceNotReadyError));
    assert_eq!(p.state, State::Failed);
    assert_eq!(p.created.swap_device, None);
    assert_eq!(p.next_action(), None);
}

#[test]
fn failed_var_copy_never_reaches_deletion() {
    let mut p = Pipeline::new(b"/dev/sda2".to_vec(), false, true);
    step(&mut p, StepOutcome::Success);  // fsck
    step(&mut p, StepOutcome::Success);  // shrink
    step(&mut p, StepOutcome::Success);  // resize
    step(&mut p, StepOutcome::CreatedDevice(b"/dev/sda3".to_vec()));  // var
    step(&mut p, StepOutcome::CreatedDevice(b"/dev/sda4".to_vec()));  // home
    step(&mut p, StepOutcome::Success);  // mount points
    step(&mut p, StepOutcome::Success);  // mount root
    step(&mut p, StepOutcome::Success);  // mount var
    step(&mut p, StepOutcome::Success);  // mount home
    assert_eq!(p.next_action(), Some(Action::CopyVarTree));
    // The copy fails mid-way: the pipeline aborts fatally and the
    // deletion of the old subtree is never asked for.
    assert_eq!(p.advance(StepOutcome::Failure), Err(Error::ToolExecutionError));
    assert_eq!(p.state, State::Failed);
    assert_eq!(p.next_action(), None);
}

#[test]
fn absent_subtrees_are_skipped_without_deletion() {
    let mut p = Pipeline::new(b"/dev/sda2".to_vec(), false, true);
    for _ in 0..3 {
        step(&mut p, StepOutcome::Success);
    }
    step(&mut p, StepOutcome::CreatedDevice(b"/dev/sda3".to_vec()));
    step(&mut p, StepOutcome::CreatedDevice(b"/dev/sda4".to_vec()));
    for _ in 0..4 {
        step(&mut p, StepOutcome::Success);
    }
    assert_eq!(p.next_action(), Some(Action::CopyVarTree));
    step(&mut p, StepOutcome::SubtreeAbsent);
    // Straight to the /home migration: no removal of the old /var.
    assert_eq!(p.next_action(), Some(Action::CopyHomeTree));
    step(&mut p, StepOutcome::SubtreeAbsent);
    assert_eq!(p.next_action(), Some(Action::UpdateFstab));
}

#[test]
fn sd_card_with_swap_is_refused_before_any_destructive_step() {
    // Orchestrator aborts with PolicyError; no pipeline is ever built,
    // so no partition can have been created.
    let r = preflight(true, false, false, true, false, b"8G", Some(b"4G"), None);
    assert_eq!(r.unwrap_err(), Error::PolicyError);
    let r = preflight(true, false, false, true, false, b"8G", None, Some(b"4G"));
    assert_eq!(r.unwrap_err(), Error::PolicyError);
    // The same request on non-SD media passes.
    let r = preflight(true, false, false, false, false, b"8G", Some(b"4G"), None);
    let plan = r.unwrap();
    assert_eq!(plan.root_size, 8 * 1024 * 1024 * 1024);
    assert_eq!(plan.swap_size, Some(4 * 1024 * 1024 * 1024));
    assert_eq!(plan.var_size, None);
    // An explicit override permits swap on SD media.
    let r = preflight(true, false, false, true, true, b"8G", Some(b"4G"), None);
    assert!(r.is_ok());
}

#[test]
fn active_root_disk_is_refused_before_size_checks() {
    // The device is the active root and no override was given: the
    // pipeline aborts with UnsafeTargetError even though the size
    // arguments that would be checked later are malformed.
    let r = preflight(true, true, false, false, false, b"not-a-size", None, None);
    assert_eq!(r.unwrap_err(), Error::UnsafeTargetError);
    // With the override, the later checks are reached and reject the size.
    let r = preflight(true, true, true, false, false, b"not-a-size", None, None);
    assert_eq!(r.unwrap_err(), Error::ParseError);
}

#[test]
fn preflight_orders_the_remaining_gates() {
    let r = preflight(false, false, false, false, false, b"8G", None, None);
    assert_eq!(r.unwrap_err(), Error::NotFoundError);
    let r = preflight(true, false, false, false, false, b"4G", None, None);
    assert_eq!(r.unwrap_err(), Error::PolicyError);
    let r = preflight(true, false, false, false, false, b"8G", Some(b"x"), None);
    assert_eq!(r.unwrap_err(), Error::ParseError);
}

#[test]
fn preflight_rejects_sub_sector_optional_sizes() {
    // A swap or /var request below one 512-byte sector would yield an
    // empty partition range; the pre-flight gate refuses it.
    let r = preflight(true, false, false, false, false, b"8G", Some(b"100"), None);
    assert_eq!(r.unwrap_err(), Error::PolicyError);
    let r = preflight(true, false, false, false, false, b"8G", None, Some(b"0.2K"));
    assert_eq!(r.unwrap_err(), Error::PolicyError);
    // One full sector is the smallest accepted optional size.
    let r = preflight(true, false, false, false, false, b"8G", Some(b"512"), None);
    assert_eq!(r.unwrap().swap_size, Some(512));
}

#[test]
fn mount_point_plan_is_idempotent_on_existing_directories() {
    // Re-running on directories that already exist creates nothing.
    let plan = mount_point_plan(true, true, true);
    assert!(!plan.create_root);
    assert!(!plan.create_var);
    assert!(!plan.create_home);
    let plan = mount_point_plan(false, true, false);
    assert!(plan.create_root);
    assert!(!plan.create_var);
    assert!(plan.create_home);
}

#[test]
fn missing_dependencies_lists_exactly_the_absent_ones() {
    let found = vec![true, false, true, false, true];
    assert_eq!(missing_dependencies(&found), vec![1, 3]);
    assert_eq!(missing_dependencies(&vec![true, true]), Vec::<usize>::new());
    assert_eq!(missing_dependencies(&vec![false]), vec![0]);
}

#[test]
fn package_manager_choice_prefers_apt() {
    assert_eq!(choose_package_manager(true, true), Ok(PackageManager::Apt));
    assert_eq!(choose_package_manager(true, false), Ok(PackageManager::Apt));
    assert_eq!(choose_package_manager(false, true), Ok(PackageManager::Yum));
    assert_eq!(choose_package_manager(false, false), Err(Error::ToolExecutionError));
}
