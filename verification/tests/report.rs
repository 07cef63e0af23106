use flashbang::devices::{Disk, DiskStatus};
use flashbang::report::{disks_with_status, yes_no};

fn disk(name: &str, removable: bool, mountpoints: &[&str]) -> Disk {
    Disk {
        name: name.to_string(),
        path: format!("/dev/{name}"),
        size_bytes: 1,
        model: None,
        transport: None,
        removable,
        read_only: false,
        mountpoints: mountpoints.iter().map(|m| m.to_string()).collect(),
        children: vec![],
    }
}

#[test]
fn yes_and_no() {
    assert_eq!(yes_no(true), "yes");
    assert_eq!(yes_no(false), "no");
}

#[test]
fn report_groups_disks_in_order() {
    let disks = vec![
        disk("sda", false, &["/"]),
        disk("sdb", true, &[]),
        disk("sdc", true, &["/media/x"]),
        disk("sdd", true, &[]),
    ];
    assert_eq!(disks_with_status(&disks, DiskStatus::ReadyToFlash), vec![1, 3]);
    assert_eq!(disks_with_status(&disks, DiskStatus::NeedsUnmount), vec![2]);
    assert_eq!(disks_with_status(&disks, DiskStatus::HiddenByDefault), vec![0]);
    assert!(disks_with_status(&vec![], DiskStatus::ReadyToFlash).is_empty());
}
