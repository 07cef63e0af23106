use flashbang::devices::{Disk, DiskChild};
use flashbang::gui::{
    HelperLine, classify_helper_line, device_choices, flash_button_enabled, flash_start_refusal,
    helper_failure_message, phase_after_line, preparation_text, privileged_helper_arguments,
    starting_phase,
};

fn disk(path: &str, removable: bool, mounted: bool, model: Option<&str>) -> Disk {
    Disk {
        name: "d".to_string(),
        path: path.to_string(),
        size_bytes: 2048,
        model: model.map(|m| m.to_string()),
        transport: None,
        removable,
        read_only: false,
        mountpoints: vec![],
        children: vec![DiskChild {
            name: "p".to_string(),
            path: format!("{path}1"),
            device_type: "part".to_string(),
            size_bytes: 1024,
            mountpoints: if mounted { vec!["/media/x".to_string()] } else { vec![] },
            children: vec![],
        }],
    }
}

#[test]
fn hidden_disks_are_not_offered() {
    let disks = vec![
        disk("/dev/sda", false, true, Some("Internal SSD")),
        disk("/dev/sdb", true, false, Some("Stick")),
        disk("/dev/sdc", true, true, None),
    ];
    let choices = device_choices(&disks);
    assert_eq!(choices.len(), 2);
    assert_eq!(choices[0].path, "/dev/sdb");
    assert_eq!(choices[0].model, "Stick");
    assert_eq!(choices[0].size_bytes, 2048);
    assert!(!choices[0].will_unmount);
    assert_eq!(choices[1].path, "/dev/sdc");
    assert_eq!(choices[1].model, "unknown model");
    assert!(choices[1].will_unmount);
    assert!(device_choices(&vec![disk("/dev/sda", false, false, None)]).is_empty());
}

#[test]
fn preparation_words() {
    assert_eq!(preparation_text(false), "ready");
    assert_eq!(preparation_text(true), "will unmount");
}

#[test]
fn flash_needs_image_and_target() {
    assert!(flash_button_enabled(true, true));
    assert!(!flash_button_enabled(true, false));
    assert!(!flash_button_enabled(false, true));
    assert_eq!(flash_start_refusal(false, false), Some("Choose an image first"));
    assert_eq!(flash_start_refusal(false, true), Some("Choose an image first"));
    assert_eq!(flash_start_refusal(true, false), Some("Choose a target device first"));
    assert_eq!(flash_start_refusal(true, true), None);
}

#[test]
fn helper_lines_are_classified() {
    let cases = [
        ("Preparing target: unmount /dev/sdb1 from /media/a", HelperLine::PreparingTarget, Some("Preparing"), Some("Preparing target")),
        ("Writing image to device: /dev/sdb", HelperLine::WritingImage, Some("Writing"), Some("Writing image")),
        ("Verifying written image: /dev/sdb", HelperLine::VerifyingImage, Some("Verifying"), Some("Verifying image")),
        ("Device write complete.", HelperLine::WriteComplete, None, Some("Write complete")),
        ("Verification complete: image matches", HelperLine::VerificationComplete, None, Some("Verification complete")),
        ("Flash operation finished.", HelperLine::FlashFinished, None, Some("Flash operation finished")),
        ("progress: 42.0%", HelperLine::Other, None, None),
        ("", HelperLine::Other, None, None),
    ];
    for (line, kind, phase, status) in cases {
        let got = classify_helper_line(line);
        assert_eq!(got, kind, "{line}");
        assert_eq!(got.phase(), phase);
        assert_eq!(got.status(), status);
    }
}

#[test]
fn earlier_markers_win() {
    assert_eq!(
        classify_helper_line("Writing image to device: done; Preparing target: x"),
        HelperLine::PreparingTarget
    );
}

#[test]
fn helper_failure_messages() {
    assert_eq!(helper_failure_message("exit status: 126", "  \n"), "privileged helper exited with status exit status: 126");
    assert_eq!(helper_failure_message("exit status: 1", "\nImage error: missing\n"), "Image error: missing");
}

#[test]
fn phase_is_carried_across_lines() {
    let lines = [
        ("Flashbang device discovery", "Working"),
        ("progress: 10.0%", "Working"),
        ("Preparing target: unmount /dev/sdb1 from /media/a", "Preparing"),
        ("Preparation finished.", "Preparing"),
        ("Writing image to device:", "Writing"),
        ("progress: 50.0%", "Writing"),
        ("Device write complete.", "Writing"),
        ("Verifying written image:", "Verifying"),
        ("Flash operation finished.", "Verifying"),
    ];
    let mut phase = starting_phase();
    assert_eq!(phase, "Working");
    for (line, expected) in lines {
        phase = phase_after_line(&phase, line);
        assert_eq!(phase, expected, "{line}");
    }
}

#[test]
fn helper_command_line() {
    assert_eq!(
        privileged_helper_arguments("/opt/flashbang/flashbang", "/isos/a.iso", "/dev/sdb", false),
        vec!["/opt/flashbang/flashbang", "/isos/a.iso", "--write-device", "/dev/sdb", "--yes"]
    );
    assert_eq!(
        privileged_helper_arguments("flashbang", "a.iso", "/dev/sdc", true),
        vec!["flashbang", "a.iso", "--write-device", "/dev/sdc", "--yes", "--verify"]
    );
}

#[test]
fn contains_needs_a_whole_run() {
    assert_eq!(classify_helper_line("Preparing target"), HelperLine::Other);
    assert_eq!(classify_helper_line("xxPreparing target:yy"), HelperLine::PreparingTarget);
    assert_eq!(classify_helper_line("Device write complete"), HelperLine::Other);
}
