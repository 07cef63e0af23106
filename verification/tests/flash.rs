use flashbang::devices::{Disk, DiskChild, FlashDecision};
use flashbang::flash::{
    FlashEvent, FlashOperation, FlashOutcome, FlashRequest, FlashStage, FlashStep, advance,
    awaits_outcome, start,
};
use flashbang::images::ImageFile;
use flashbang::writer::{ExecutionMode, PreparationStep};

fn request(verify: bool) -> FlashRequest {
    FlashRequest {
        image: ImageFile { path: "/isos/fedora.iso".to_string(), size_bytes: 500 },
        target_path: "/dev/sdb".to_string(),
        verify_after_write: verify,
    }
}

fn part(path: &str, mountpoints: &[&str]) -> DiskChild {
    DiskChild {
        name: "p".to_string(),
        path: path.to_string(),
        device_type: "part".to_string(),
        size_bytes: 100,
        mountpoints: mountpoints.iter().map(|m| m.to_string()).collect(),
        children: vec![],
    }
}

fn disk(path: &str, removable: bool, children: Vec<DiskChild>) -> Disk {
    Disk {
        name: "d".to_string(),
        path: path.to_string(),
        size_bytes: 1000,
        model: Some("Stick".to_string()),
        transport: None,
        removable,
        read_only: false,
        mountpoints: vec![],
        children,
    }
}

fn found(disks: Vec<Disk>) -> FlashOutcome {
    FlashOutcome::DisksDiscovered { disks: Ok(disks) }
}

fn step(req: &FlashRequest, stage: FlashStage, outcome: FlashOutcome) -> (FlashStage, FlashStep) {
    assert!(awaits_outcome(&stage, &outcome));
    advance(req, stage, outcome)
}

fn error_of(op: &FlashOperation) -> String {
    match op {
        FlashOperation::Complete { result: Err(e) } => e.clone(),
        other => panic!("expected a failure, got {other:?}"),
    }
}

fn initial_stage() -> FlashStage {
    start().0
}

#[test]
fn workflow_starts_by_discovering_disks() {
    let (stage, operation) = start();
    assert!(matches!(operation, FlashOperation::DiscoverDisks));
    assert!(matches!(stage, FlashStage::AwaitingDisks));
}

#[test]
fn discovery_failure_ends_the_workflow() {
    let req = request(false);
    let (stage, s) = step(&req, initial_stage(), FlashOutcome::DisksDiscovered { disks: Err("lsblk failed".to_string()) });
    assert!(matches!(stage, FlashStage::Done));
    assert!(s.events.is_empty());
    assert_eq!(error_of(&s.operation), "lsblk failed");
}

#[test]
fn missing_target_is_reported() {
    let req = request(false);
    let (_, s) = step(&req, initial_stage(), found(vec![disk("/dev/sda", false, vec![])]));
    assert_eq!(error_of(&s.operation), "target device was not found by Flashbang: /dev/sdb");
}

#[test]
fn hidden_target_is_refused_after_the_plan() {
    let req = request(false);
    let (stage, s) = step(&req, initial_stage(), found(vec![disk("/dev/sdb", false, vec![])]));
    assert!(matches!(stage, FlashStage::Done));
    assert_eq!(s.events.len(), 1);
    match &s.events[0] {
        FlashEvent::PlanBuilt { target_path, target_model, target_size_bytes, decision, execution_mode, verify_after_write } => {
            assert_eq!(*execution_mode, ExecutionMode::Blocked);
            assert_eq!(target_path, "/dev/sdb");
            assert_eq!(target_model, "Stick");
            assert_eq!(*target_size_bytes, 1000);
            assert_eq!(*decision, FlashDecision::HiddenByDefault);
            assert!(!*verify_after_write);
        }
        other => panic!("unexpected event {other:?}"),
    }
    assert_eq!(error_of(&s.operation), "this target is not writable in its current state");
    assert!(!awaits_outcome(&stage, &found(vec![])));
}

#[test]
fn ready_target_is_written_without_verification() {
    let req = request(false);
    let (stage, s) = step(&req, initial_stage(), found(vec![disk("/dev/sda", false, vec![]), disk("/dev/sdb", true, vec![])]));
    assert_eq!(s.events.len(), 1);
    assert!(matches!(
        s.events[0],
        FlashEvent::PlanBuilt { decision: FlashDecision::ReadyToFlash, execution_mode: ExecutionMode::WriteDirectly, .. }
    ));
    assert!(matches!(s.operation, FlashOperation::DiscoverDisks));
    assert!(matches!(stage, FlashStage::AwaitingRefresh));
    let (stage, s) = step(&req, stage, found(vec![disk("/dev/sdb", true, vec![])]));
    assert!(s.events.is_empty());
    assert!(matches!(s.operation, FlashOperation::WriteImage));
    let (stage, s) = step(&req, stage, FlashOutcome::WriteDone { result: Ok(()) });
    assert!(matches!(stage, FlashStage::Done));
    assert!(matches!(s.events[..], [FlashEvent::WriteFinished, FlashEvent::Finished]));
    assert!(matches!(s.operation, FlashOperation::Complete { result: Ok(()) }));
}

#[test]
fn mounted_target_is_unmounted_step_by_step_then_verified() {
    let req = request(true);
    let mounted = || disk("/dev/sdb", true, vec![part("/dev/sdb1", &["/media/a"]), part("/dev/sdb2", &["/media/b"])]);
    let (stage, s) = step(&req, initial_stage(), found(vec![mounted()]));
    assert_eq!(s.events.len(), 2);
    assert!(matches!(
        s.events[0],
        FlashEvent::PlanBuilt {
            decision: FlashDecision::NeedsUnmount,
            execution_mode: ExecutionMode::UnmountThenWrite,
            verify_after_write: true,
            ..
        }
    ));
    match &s.events[1] {
        FlashEvent::Preparing { step_label } => assert_eq!(step_label, "unmount /dev/sdb1 from /media/a"),
        other => panic!("unexpected event {other:?}"),
    }
    match &s.operation {
        FlashOperation::RunPreparation { step: PreparationStep::Unmount { device_path, mountpoint } } => {
            assert_eq!(device_path, "/dev/sdb1");
            assert_eq!(mountpoint, "/media/a");
        }
        other => panic!("unexpected operation {other:?}"),
    }
    let (stage, s) = step(&req, stage, FlashOutcome::PreparationDone { result: Ok(()) });
    match &s.events[..] {
        [FlashEvent::Preparing { step_label }] => assert_eq!(step_label, "unmount /dev/sdb2 from /media/b"),
        other => panic!("unexpected events {other:?}"),
    }
    let (stage, s) = step(&req, stage, FlashOutcome::PreparationDone { result: Ok(()) });
    assert!(matches!(s.events[..], [FlashEvent::PreparationFinished]));
    assert!(matches!(s.operation, FlashOperation::DiscoverDisks));
    let (stage, s) = step(&req, stage, found(vec![disk("/dev/sdb", true, vec![part("/dev/sdb1", &[])])]));
    assert!(matches!(s.operation, FlashOperation::WriteImage));
    let (stage, s) = step(&req, stage, FlashOutcome::WriteDone { result: Ok(()) });
    assert!(matches!(s.events[..], [FlashEvent::WriteFinished]));
    assert!(matches!(s.operation, FlashOperation::VerifyImage));
    let (stage, s) = step(&req, stage, FlashOutcome::VerifyDone { result: Ok(()) });
    assert!(matches!(s.events[..], [FlashEvent::VerifyFinished, FlashEvent::Finished]));
    assert!(matches!(s.operation, FlashOperation::Complete { result: Ok(()) }));
    assert!(matches!(stage, FlashStage::Done));
}

#[test]
fn target_still_mounted_after_preparation_is_not_written() {
    let req = request(false);
    let mounted = || disk("/dev/sdb", true, vec![part("/dev/sdb1", &["/media/a"])]);
    let (stage, _) = step(&req, initial_stage(), found(vec![mounted()]));
    let (stage, _) = step(&req, stage, FlashOutcome::PreparationDone { result: Ok(()) });
    let (stage, s) = step(&req, stage, found(vec![mounted()]));
    assert!(matches!(stage, FlashStage::Done));
    assert_eq!(error_of(&s.operation), "target is still not ready after preparation: needs unmount first");
}

#[test]
fn target_disappearing_after_preparation_is_reported() {
    let req = request(false);
    let (stage, _) = step(&req, initial_stage(), found(vec![disk("/dev/sdb", true, vec![part("/dev/sdb1", &["/m"])])]));
    let (stage, _) = step(&req, stage, FlashOutcome::PreparationDone { result: Ok(()) });
    let (_, s) = step(&req, stage, found(vec![]));
    assert_eq!(error_of(&s.operation), "target disappeared after preparation: /dev/sdb");
}

#[test]
fn failed_outside_work_ends_the_workflow() {
    let req = request(true);
    let (stage, _) = step(&req, initial_stage(), found(vec![disk("/dev/sdb", true, vec![part("/dev/sdb1", &["/m"])])]));
    let (stage, s) = step(&req, stage, FlashOutcome::PreparationDone { result: Err("umount: target is busy".to_string()) });
    assert!(matches!(stage, FlashStage::Done));
    assert!(s.events.is_empty());
    assert_eq!(error_of(&s.operation), "umount: target is busy");

    let (stage, _) = step(&req, initial_stage(), found(vec![disk("/dev/sdb", true, vec![])]));
    let (stage, _) = step(&req, stage, found(vec![disk("/dev/sdb", true, vec![])]));
    let (_, s) = step(&req, stage, FlashOutcome::WriteDone { result: Err("short write".to_string()) });
    assert_eq!(error_of(&s.operation), "short write");

    let (stage, _) = step(&req, initial_stage(), found(vec![disk("/dev/sdb", true, vec![])]));
    let (stage, _) = step(&req, stage, found(vec![disk("/dev/sdb", true, vec![])]));
    let (stage, _) = step(&req, stage, FlashOutcome::WriteDone { result: Ok(()) });
    let (_, s) = step(&req, stage, FlashOutcome::VerifyDone { result: Err("mismatch at byte 7".to_string()) });
    assert!(s.events.is_empty());
    assert_eq!(error_of(&s.operation), "mismatch at byte 7");
}

#[test]
fn too_large_image_is_refused() {
    let mut req = request(false);
    req.image.size_bytes = 5000;
    let (_, s) = step(&req, initial_stage(), found(vec![disk("/dev/sdb", true, vec![])]));
    assert!(matches!(s.events[0], FlashEvent::PlanBuilt { decision: FlashDecision::ImageTooLarge, .. }));
    assert_eq!(error_of(&s.operation), "this target is not writable in its current state");
}

#[test]
fn outcomes_must_match_the_stage() {
    assert!(!awaits_outcome(&FlashStage::AwaitingDisks, &FlashOutcome::WriteDone { result: Ok(()) }));
    assert!(!awaits_outcome(&FlashStage::Writing, &found(vec![])));
    assert!(!awaits_outcome(&FlashStage::Preparing { steps: vec![], next: 0 }, &FlashOutcome::PreparationDone { result: Ok(()) }));
    assert!(awaits_outcome(&FlashStage::Verifying, &FlashOutcome::VerifyDone { result: Ok(()) }));
}

#[test]
fn first_disk_with_the_target_path_is_used() {
    let req = request(false);
    let (_, s) = step(&req, initial_stage(), found(vec![disk("/dev/sdb", false, vec![]), disk("/dev/sdb", true, vec![])]));
    assert!(matches!(s.events[0], FlashEvent::PlanBuilt { decision: FlashDecision::HiddenByDefault, .. }));
}

#[test]
fn events_can_be_cloned() {
    let event = FlashEvent::Preparing { step_label: "unmount /dev/sdb1 from /m".to_string() };
    match event.clone() {
        FlashEvent::Preparing { step_label } => assert_eq!(step_label, "unmount /dev/sdb1 from /m"),
        other => panic!("unexpected event {other:?}"),
    }
}
