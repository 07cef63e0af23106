use flashbang::devices::{Disk, DiskChild, FlashDecision};
use flashbang::images::ImageFile;
use flashbang::writer::{ExecutionMode, FinalAction, PreparationStep, build_write_plan};

fn disk(mountpoints: &[&str], children: Vec<DiskChild>, model: Option<&str>) -> Disk {
    Disk {
        name: "sdc".to_string(),
        path: "/dev/sdc".to_string(),
        size_bytes: 8000,
        model: model.map(|m| m.to_string()),
        transport: Some("usb".to_string()),
        removable: true,
        read_only: false,
        mountpoints: mountpoints.iter().map(|m| m.to_string()).collect(),
        children,
    }
}

fn part(path: &str, mountpoints: &[&str]) -> DiskChild {
    DiskChild {
        name: "p".to_string(),
        path: path.to_string(),
        device_type: "part".to_string(),
        size_bytes: 100,
        mountpoints: mountpoints.iter().map(|m| m.to_string()).collect(),
        children: vec![],
    }
}

fn steps(plan_steps: &[PreparationStep]) -> Vec<(String, String)> {
    plan_steps
        .iter()
        .map(|s| match s {
            PreparationStep::Unmount { device_path, mountpoint } => (device_path.clone(), mountpoint.clone()),
        })
        .collect()
}

#[test]
fn step_and_action_labels() {
    let step = PreparationStep::Unmount { device_path: "/dev/sdc1".to_string(), mountpoint: "/media/usb".to_string() };
    assert_eq!(step.label(), "unmount /dev/sdc1 from /media/usb");
    assert_eq!(FinalAction::WriteImageBytes.label(), "write image bytes to target disk");
    assert_eq!(FinalAction::SyncTarget.label(), "sync target disk");
}

#[test]
fn plan_for_ready_disk_has_no_steps() {
    let image = ImageFile { path: "/isos/alpine.iso".to_string(), size_bytes: 100 };
    let d = disk(&[], vec![part("/dev/sdc1", &[])], Some("Stick"));
    let plan = build_write_plan(&image, &d);
    assert_eq!(plan.decision, FlashDecision::ReadyToFlash);
    assert_eq!(plan.execution_mode, ExecutionMode::WriteDirectly);
    assert!(plan.execution_mode.can_eventually_write());
    assert!(plan.preparation_steps.is_empty());
    assert_eq!(plan.image_path, "/isos/alpine.iso");
    assert_eq!(plan.image_name, "alpine.iso");
    assert_eq!(plan.image_size_bytes, 100);
    assert_eq!(plan.target_path, "/dev/sdc");
    assert_eq!(plan.target_model, "Stick");
    assert_eq!(plan.target_size_bytes, 8000);
    assert_eq!(plan.final_actions, vec![FinalAction::WriteImageBytes, FinalAction::SyncTarget]);
}

#[test]
fn plan_unmounts_everything_mounted() {
    let image = ImageFile { path: "/isos/alpine.iso".to_string(), size_bytes: 100 };
    let d = disk(&["/media/whole"], vec![part("/dev/sdc1", &["/media/a"]), part("/dev/sdc2", &["/media/b"])], None);
    let plan = build_write_plan(&image, &d);
    assert_eq!(plan.decision, FlashDecision::NeedsUnmount);
    assert_eq!(plan.execution_mode, ExecutionMode::UnmountThenWrite);
    assert!(plan.execution_mode.can_eventually_write());
    assert_eq!(plan.target_model, "unknown model");
    let copy = plan.clone();
    assert_eq!(copy.preparation_steps.len(), 3);
    let expected: Vec<(String, String)> = vec![
        ("/dev/sdc".to_string(), "/media/whole".to_string()),
        ("/dev/sdc1".to_string(), "/media/a".to_string()),
        ("/dev/sdc2".to_string(), "/media/b".to_string()),
    ];
    assert_eq!(steps(&plan.preparation_steps), expected);
}

#[test]
fn plan_for_too_large_image_still_lists_steps() {
    let image = ImageFile { path: "/isos/big.iso".to_string(), size_bytes: 9000 };
    let d = disk(&[], vec![part("/dev/sdc1", &["/media/a"])], None);
    let plan = build_write_plan(&image, &d);
    assert_eq!(plan.decision, FlashDecision::ImageTooLarge);
    assert_eq!(plan.execution_mode, ExecutionMode::Blocked);
    assert!(!plan.execution_mode.can_eventually_write());
    assert_eq!(plan.preparation_steps.len(), 1);
}

#[test]
fn too_large_exactly_when_not_fitting() {
    let d = disk(&[], vec![], None);
    for size in [7999u64, 8000, 8001] {
        let image = ImageFile { path: "/i.iso".to_string(), size_bytes: size };
        let plan = build_write_plan(&image, &d);
        assert_eq!(plan.decision == FlashDecision::ImageTooLarge, !image.fits_in_bytes(d.size_bytes));
    }
}

#[test]
fn unmount_arguments_plain_then_lazy() {
    let step = PreparationStep::Unmount { device_path: "/dev/sdc1".to_string(), mountpoint: "/media/usb".to_string() };
    assert_eq!(step.unmount_arguments(false), vec!["/media/usb".to_string()]);
    assert_eq!(step.unmount_arguments(true), vec!["-l".to_string(), "/media/usb".to_string()]);
}

#[test]
fn execution_modes_follow_decisions() {
    assert_eq!(ExecutionMode::for_decision(FlashDecision::ReadyToFlash), ExecutionMode::WriteDirectly);
    assert_eq!(ExecutionMode::for_decision(FlashDecision::NeedsUnmount), ExecutionMode::UnmountThenWrite);
    for decision in [FlashDecision::NoImageSelected, FlashDecision::ImageTooLarge, FlashDecision::ReadOnly, FlashDecision::HiddenByDefault] {
        assert_eq!(ExecutionMode::for_decision(decision), ExecutionMode::Blocked);
        assert!(!ExecutionMode::for_decision(decision).can_eventually_write());
    }
}
