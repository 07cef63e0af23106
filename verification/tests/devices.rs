use flashbang::devices::{
    Disk, DiskChild, DiskStatus, FlashDecision, LsblkDevice, clean_mountpoints,
    clean_optional_text, convert_child, convert_disk, disks_from_lsblk,
};

fn child(path: &str, mountpoints: &[&str], children: Vec<DiskChild>) -> DiskChild {
    DiskChild {
        name: path.trim_start_matches("/dev/").to_string(),
        path: path.to_string(),
        device_type: "part".to_string(),
        size_bytes: 1000,
        mountpoints: mountpoints.iter().map(|m| m.to_string()).collect(),
        children,
    }
}

fn disk(removable: bool, read_only: bool, size_bytes: u64, mountpoints: &[&str], children: Vec<DiskChild>) -> Disk {
    Disk {
        name: "sdb".to_string(),
        path: "/dev/sdb".to_string(),
        size_bytes,
        model: Some("Flash Stick".to_string()),
        transport: None,
        removable,
        read_only,
        mountpoints: mountpoints.iter().map(|m| m.to_string()).collect(),
        children,
    }
}

fn device(name: &str, device_type: &str) -> LsblkDevice {
    LsblkDevice {
        name: name.to_string(),
        path: None,
        rm: None,
        size: None,
        ro: None,
        model: None,
        tran: None,
        mountpoints: None,
        children: None,
        device_type: device_type.to_string(),
    }
}

#[test]
fn decision_labels_and_actions() {
    let all = [
        (FlashDecision::ReadyToFlash, "ready to flash", "Flash"),
        (FlashDecision::NeedsUnmount, "needs unmount first", "Prepare & Flash"),
        (FlashDecision::NoImageSelected, "no image selected", "Choose image"),
        (FlashDecision::ImageTooLarge, "image too large", "Choose smaller image"),
        (FlashDecision::ReadOnly, "read-only", "Cannot flash"),
        (FlashDecision::HiddenByDefault, "hidden by default", "Hidden"),
    ];
    for (decision, label, action) in all {
        assert_eq!(decision.label(), label);
        assert_eq!(decision.suggested_action(), action);
    }
}

#[test]
fn non_removable_disk_is_hidden_whatever_the_image() {
    let d = disk(false, false, 1000, &[], vec![]);
    assert_eq!(d.flash_decision(None), FlashDecision::HiddenByDefault);
    assert_eq!(d.flash_decision(Some(10)), FlashDecision::HiddenByDefault);
    assert_eq!(d.flash_decision(Some(10_000)), FlashDecision::HiddenByDefault);
    assert_eq!(d.status(), DiskStatus::HiddenByDefault);
}

#[test]
fn read_only_disk_cannot_be_flashed() {
    let d = disk(true, true, 1000, &[], vec![]);
    assert_eq!(d.flash_decision(Some(10)), FlashDecision::ReadOnly);
    assert_eq!(d.flash_decision(None), FlashDecision::ReadOnly);
}

#[test]
fn no_image_selected() {
    let d = disk(true, false, 1000, &[], vec![]);
    assert_eq!(d.flash_decision(None), FlashDecision::NoImageSelected);
}

#[test]
fn image_too_large_and_exact_fit() {
    let d = disk(true, false, 1000, &[], vec![]);
    assert_eq!(d.flash_decision(Some(1001)), FlashDecision::ImageTooLarge);
    assert_eq!(d.flash_decision(Some(1000)), FlashDecision::ReadyToFlash);
    assert_eq!(d.flash_decision(Some(0)), FlashDecision::ReadyToFlash);
}

#[test]
fn mounted_partition_needs_unmount() {
    let nested = child("/dev/sdb1", &[], vec![child("/dev/dm-0", &["/media/deep"], vec![])]);
    let d = disk(true, false, 1000, &[], vec![nested]);
    assert!(d.has_mounts());
    assert_eq!(d.flash_decision(Some(10)), FlashDecision::NeedsUnmount);
    assert_eq!(d.status(), DiskStatus::NeedsUnmount);
}

#[test]
fn unmounted_disk_is_ready() {
    let d = disk(true, false, 1000, &[], vec![child("/dev/sdb1", &[], vec![])]);
    assert!(!d.has_mounts());
    assert!(d.mounted_filesystems().is_empty());
    assert_eq!(d.status(), DiskStatus::ReadyToFlash);
}

#[test]
fn mounted_filesystems_in_depth_first_order() {
    let d = disk(
        true,
        false,
        1000,
        &["/media/whole"],
        vec![
            child("/dev/sdb1", &["/media/a", "/media/b"], vec![child("/dev/dm-0", &["/media/c"], vec![])]),
            child("/dev/sdb2", &["/media/d"], vec![]),
        ],
    );
    let mounted: Vec<(String, String)> = d
        .mounted_filesystems()
        .into_iter()
        .map(|m| (m.device_path, m.mountpoint))
        .collect();
    let expected: Vec<(String, String)> = vec![
        ("/dev/sdb", "/media/whole"),
        ("/dev/sdb1", "/media/a"),
        ("/dev/sdb1", "/media/b"),
        ("/dev/dm-0", "/media/c"),
        ("/dev/sdb2", "/media/d"),
    ]
    .into_iter()
    .map(|(a, b)| (a.to_string(), b.to_string()))
    .collect();
    assert_eq!(mounted, expected);
    assert_eq!(
        d.all_mountpoints(),
        vec!["/media/whole", "/media/a", "/media/b", "/media/c", "/media/d"]
    );
}

#[test]
fn model_and_transport_labels() {
    let mut d = disk(true, false, 1000, &[], vec![]);
    assert_eq!(d.model_label(), "Flash Stick");
    assert_eq!(d.transport_label(), "unknown transport");
    d.model = None;
    d.transport = Some("usb".to_string());
    assert_eq!(d.model_label(), "unknown model");
    assert_eq!(d.transport_label(), "usb");
}

#[test]
fn optional_text_is_trimmed_and_emptiness_dropped() {
    assert_eq!(clean_optional_text(&Some("  SanDisk  ".to_string())), Some("SanDisk".to_string()));
    assert_eq!(clean_optional_text(&Some(" \t\n ".to_string())), None);
    assert_eq!(clean_optional_text(&Some(String::new())), None);
    assert_eq!(clean_optional_text(&None), None);
}

#[test]
fn mountpoints_are_cleaned() {
    let raw = Some(vec![
        None,
        Some(" /media/usb ".to_string()),
        Some("   ".to_string()),
        Some("/boot".to_string()),
        None,
    ]);
    assert_eq!(clean_mountpoints(&raw), vec!["/media/usb".to_string(), "/boot".to_string()]);
    assert!(clean_mountpoints(&None).is_empty());
}

#[test]
fn unknown_flags_default_to_safe_values() {
    let d = convert_disk(&device("sdz", "disk"));
    assert_eq!(d.path, "/dev/sdz");
    assert_eq!(d.size_bytes, 0);
    assert!(!d.removable);
    assert!(d.read_only);
    assert_eq!(d.flash_decision(Some(1)), FlashDecision::HiddenByDefault);
    let mut removable = device("sdy", "disk");
    removable.rm = Some(true);
    let d = convert_disk(&removable);
    assert_eq!(d.flash_decision(Some(0)), FlashDecision::ReadOnly);
}

#[test]
fn disk_conversion_keeps_reported_values() {
    let mut part = device("sdb1", "part");
    part.path = Some("/dev/sdb1".to_string());
    part.size = Some(512);
    part.mountpoints = Some(vec![Some("/media/usb".to_string())]);
    let mut whole = device("sdb", "disk");
    whole.path = Some("/dev/disk/sdb".to_string());
    whole.rm = Some(true);
    whole.ro = Some(false);
    whole.size = Some(4096);
    whole.model = Some(" Cruzer ".to_string());
    whole.tran = Some("usb".to_string());
    whole.children = Some(vec![part]);
    let d = convert_disk(&whole);
    assert_eq!(d.name, "sdb");
    assert_eq!(d.path, "/dev/disk/sdb");
    assert_eq!(d.size_bytes, 4096);
    assert_eq!(d.model, Some("Cruzer".to_string()));
    assert_eq!(d.transport, Some("usb".to_string()));
    assert!(d.removable);
    assert!(!d.read_only);
    assert_eq!(d.children.len(), 1);
    assert_eq!(d.children[0].path, "/dev/sdb1");
    assert_eq!(d.children[0].device_type, "part");
    assert_eq!(d.children[0].size_bytes, 512);
    assert_eq!(d.children[0].mountpoints, vec!["/media/usb".to_string()]);
    assert_eq!(d.flash_decision(Some(100)), FlashDecision::NeedsUnmount);
}

#[test]
fn child_conversion_is_recursive() {
    let mut inner = device("crypt", "crypt");
    inner.mountpoints = Some(vec![Some("/mnt".to_string())]);
    let mut part = device("sdb1", "part");
    part.children = Some(vec![inner]);
    let c = convert_child(&part);
    assert_eq!(c.path, "/dev/sdb1");
    assert_eq!(c.children.len(), 1);
    assert_eq!(c.children[0].path, "/dev/crypt");
    assert_eq!(c.children[0].device_type, "crypt");
    assert_eq!(c.children[0].mountpoints, vec!["/mnt".to_string()]);
}

#[test]
fn only_disks_are_listed() {
    let devices = vec![device("loop0", "loop"), device("sda", "disk"), device("sr0", "rom"), device("sdb", "disk")];
    let disks = disks_from_lsblk(&devices);
    let names: Vec<&str> = disks.iter().map(|d| d.name.as_str()).collect();
    assert_eq!(names, vec!["sda", "sdb"]);
    assert!(disks_from_lsblk(&vec![]).is_empty());
}

#[test]
fn disks_can_be_cloned() {
    let nested = child("/dev/sdb1", &["/media/a"], vec![child("/dev/dm-0", &["/media/b"], vec![])]);
    let d = disk(true, false, 1000, &[], vec![nested]);
    let copy = d.clone();
    assert_eq!(copy.path, d.path);
    assert_eq!(copy.model, d.model);
    assert_eq!(copy.all_mountpoints(), d.all_mountpoints());
    assert_eq!(copy.flash_decision(Some(10)), d.flash_decision(Some(10)));
    let child_copy = d.children[0].clone();
    assert_eq!(child_copy.children[0].mountpoints, vec!["/media/b".to_string()]);
}

#[test]
fn unicode_whitespace_is_trimmed() {
    assert_eq!(clean_optional_text(&Some("\u{a0}\u{3000}Cruzer\u{2009}\n".to_string())), Some("Cruzer".to_string()));
}
