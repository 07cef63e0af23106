//! Block devices as `lsblk` reports them, and the decision whether an image
//! may be flashed onto one.
use vstd::prelude::*;
use crate::text::{is_white_space, lemma_trimmed_ends, trim_str, trimmed};

verus! {

/// A whole disk, with the partitions (and their children) below it.
#[derive(Debug)]
pub struct Disk {
    pub name: String,
    pub path: String,
    pub size_bytes: u64,
    pub model: Option<String>,
    pub transport: Option<String>,
    pub removable: bool,
    pub read_only: bool,
    pub mountpoints: Vec<String>,
    pub children: Vec<DiskChild>,
}

/// A device below a disk: a partition, or whatever sits on one.
#[derive(Debug)]
pub struct DiskChild {
    pub name: String,
    pub path: String,
    pub device_type: String,
    pub size_bytes: u64,
    pub mountpoints: Vec<String>,
    pub children: Vec<DiskChild>,
}

/// A filesystem mounted from a disk or from one of its descendants.
#[derive(Debug, Clone)]
pub struct MountedFilesystem {
    pub device_path: String,
    pub mountpoint: String,
}

/// A mounted filesystem as plain text: the device path and the mountpoint.
pub struct MountView {
    pub device_path: Seq<char>,
    pub mountpoint: Seq<char>,
}

impl View for MountedFilesystem {
    type V = MountView;

    open spec fn view(&self) -> MountView {
        MountView { device_path: self.device_path@, mountpoint: self.mountpoint@ }
    }
}

/// What Flashbang makes of a disk for a given image.
#[derive(Debug, Clone, Copy, PartialEq, Eq, Structural)]
pub enum FlashDecision {
    ReadyToFlash,
    NeedsUnmount,
    NoImageSelected,
    ImageTooLarge,
    ReadOnly,
    HiddenByDefault,
}

/// How the device report groups a disk, whatever image is chosen.
#[derive(Debug, Clone, Copy, PartialEq, Eq, Structural)]
pub enum DiskStatus {
    ReadyToFlash,
    NeedsUnmount,
    HiddenByDefault,
}

/// The views of a sequence of strings.
pub open spec fn texts(v: Seq<String>) -> Seq<Seq<char>> {
    v.map_values(|s: String| s@)
}

/// The views of a sequence of mounted filesystems.
pub open spec fn mount_views(v: Seq<MountedFilesystem>) -> Seq<MountView> {
    v.map_values(|m: MountedFilesystem| m@)
}

/// One entry per mountpoint of a single device, in order.
pub open spec fn own_mounts(path: Seq<char>, mountpoints: Seq<String>) -> Seq<MountView> {
    mountpoints.map_values(|mp: String| MountView { device_path: path, mountpoint: mp@ })
}

/// The filesystems mounted anywhere in a sequence of child devices: for each
/// child in order, its own mountpoints, then those of its children (pre-order).
pub open spec fn forest_mounts(children: Seq<DiskChild>) -> Seq<MountView>
    decreases children,
{
    if children.len() == 0 {
        Seq::empty()
    } else {
        let last = children.last();
        forest_mounts(children.drop_last()) + own_mounts(last.path@, last.mountpoints@)
            + forest_mounts(last.children@)
    }
}

/// The label text of each decision.
pub open spec fn decision_label(d: FlashDecision) -> Seq<char> {
    match d {
        FlashDecision::ReadyToFlash => "ready to flash"@,
        FlashDecision::NeedsUnmount => "needs unmount first"@,
        FlashDecision::NoImageSelected => "no image selected"@,
        FlashDecision::ImageTooLarge => "image too large"@,
        FlashDecision::ReadOnly => "read-only"@,
        FlashDecision::HiddenByDefault => "hidden by default"@,
    }
}

/// The action a user interface offers for each decision.
pub open spec fn decision_action(d: FlashDecision) -> Seq<char> {
    match d {
        FlashDecision::ReadyToFlash => "Flash"@,
        FlashDecision::NeedsUnmount => "Prepare & Flash"@,
        FlashDecision::NoImageSelected => "Choose image"@,
        FlashDecision::ImageTooLarge => "Choose smaller image"@,
        FlashDecision::ReadOnly => "Cannot flash"@,
        FlashDecision::HiddenByDefault => "Hidden"@,
    }
}

impl FlashDecision {
    pub fn label(&self) -> (r: &'static str)
        ensures
            r@ == decision_label(*self),
    {
        match self {
            FlashDecision::ReadyToFlash => "ready to flash",
            FlashDecision::NeedsUnmount => "needs unmount first",
            FlashDecision::NoImageSelected => "no image selected",
            FlashDecision::ImageTooLarge => "image too large",
            FlashDecision::ReadOnly => "read-only",
            FlashDecision::HiddenByDefault => "hidden by default",
        }
    }

    pub fn suggested_action(&self) -> (r: &'static str)
        ensures
            r@ == decision_action(*self),
    {
        match self {
            FlashDecision::ReadyToFlash => "Flash",
            FlashDecision::NeedsUnmount => "Prepare & Flash",
            FlashDecision::NoImageSelected => "Choose image",
            FlashDecision::ImageTooLarge => "Choose smaller image",
            FlashDecision::ReadOnly => "Cannot flash",
            FlashDecision::HiddenByDefault => "Hidden",
        }
    }
}

impl DiskChild {
    /// Everything mounted from this device or below it.
    pub open spec fn mounts(self) -> Seq<MountView> {
        own_mounts(self.path@, self.mountpoints@) + forest_mounts(self.children@)
    }

    /// Appends to `mounted` one entry per mountpoint of this device, then
    /// those of its children, depth first.
    fn collect_mounted_filesystems(&self, mounted: &mut Vec<MountedFilesystem>)
        ensures
            mount_views(final(mounted)@) == mount_views(old(mounted)@) + self.mounts(),
        decreases self,
    {
        let ghost start = mount_views(mounted@);
        push_own_mounts(&self.path, &self.mountpoints, mounted);
        let mut i: usize = 0;
        while i < self.children.len()
            invariant
                i <= self.children.len(),
                mount_views(mounted@) == start + own_mounts(self.path@, self.mountpoints@)
                    + forest_mounts(self.children@.take(i as int)),
            decreases self.children.len() - i,
        {
            let child = &self.children[i];
            assert(decreases_to!(self => self.children@[i as int]));
            child.collect_mounted_filesystems(mounted);
            assert(self.children@.take(i + 1).drop_last() == self.children@.take(i as int));
            assert(self.children@.take(i + 1).last() == self.children@[i as int]);
            assert(forest_mounts(self.children@.take(i + 1)) == forest_mounts(
                self.children@.take(i as int),
            ) + self.children@[i as int].mounts());
            i = i + 1;
        }
        assert(self.children@.take(self.children.len() as int) == self.children@);
    }
}

/// Appends one entry per mountpoint of the device at `path`.
fn push_own_mounts(path: &String, mountpoints: &Vec<String>, mounted: &mut Vec<MountedFilesystem>)
    ensures
        mount_views(final(mounted)@) == mount_views(old(mounted)@) + own_mounts(path@, mountpoints@),
{
    let ghost start = mount_views(mounted@);
    let mut i: usize = 0;
    while i < mountpoints.len()
        invariant
            i <= mountpoints.len(),
            mount_views(mounted@) == start + own_mounts(path@, mountpoints@.take(i as int)),
        decreases mountpoints.len() - i,
    {
        let ghost before = mounted@;
        mounted.push(MountedFilesystem { device_path: path.clone(), mountpoint: mountpoints[i].clone() });
        assert(mount_views(mounted@) == mount_views(before).push(mounted@.last()@));
        assert(own_mounts(path@, mountpoints@.take(i + 1)) == own_mounts(
            path@,
            mountpoints@.take(i as int),
        ).push(MountView { device_path: path@, mountpoint: mountpoints@[i as int]@ }));
        i = i + 1;
    }
    assert(mountpoints@.take(mountpoints.len() as int) == mountpoints@);
}

impl Disk {
    /// Everything mounted from this disk or from any device below it, the
    /// disk's own mountpoints first, then each child's subtree in order.
    pub open spec fn mounts(self) -> Seq<MountView> {
        own_mounts(self.path@, self.mountpoints@) + forest_mounts(self.children@)
    }

    /// The decision for this disk and an image of the given size, if any.
    pub open spec fn decision_for(self, image_size_bytes: Option<u64>) -> FlashDecision {
        if !self.removable {
            FlashDecision::HiddenByDefault
        } else if self.read_only {
            FlashDecision::ReadOnly
        } else {
            match image_size_bytes {
                None => FlashDecision::NoImageSelected,
                Some(size) => if size > self.size_bytes {
                    FlashDecision::ImageTooLarge
                } else if self.mounts().len() > 0 {
                    FlashDecision::NeedsUnmount
                } else {
                    FlashDecision::ReadyToFlash
                },
            }
        }
    }

    /// The report's grouping of this disk.
    pub open spec fn status_spec(self) -> DiskStatus {
        if !self.removable {
            DiskStatus::HiddenByDefault
        } else if self.mounts().len() > 0 {
            DiskStatus::NeedsUnmount
        } else {
            DiskStatus::ReadyToFlash
        }
    }

    /// How the device report groups this disk: hidden when it is not
    /// removable, else by whether anything is mounted from it.
    pub fn status(&self) -> (r: DiskStatus)
        ensures
            r == self.status_spec(),
            (r == DiskStatus::HiddenByDefault) == !self.removable,
            (r == DiskStatus::NeedsUnmount) == (self.removable && anything_mounted_on(*self)),
            (r == DiskStatus::ReadyToFlash) == (self.removable && !anything_mounted_on(*self)),
    {
        proof {
            lemma_status_groups(*self);
        }
        if !self.removable {
            DiskStatus::HiddenByDefault
        } else if self.has_mounts() {
            DiskStatus::NeedsUnmount
        } else {
            DiskStatus::ReadyToFlash
        }
    }

    /// The mountpoints of everything mounted from this disk, in the order
    /// of `mounted_filesystems`.
    pub fn all_mountpoints(&self) -> (r: Vec<String>)
        ensures
            texts(r@) == self.mounts().map_values(|m: MountView| m.mountpoint),
    {
        let mounted = self.mounted_filesystems();
        let mut points: Vec<String> = Vec::new();
        let mut i: usize = 0;
        while i < mounted.len()
            invariant
                i <= mounted.len(),
                mount_views(mounted@) == self.mounts(),
                texts(points@) == mount_views(mounted@).take(i as int).map_values(
                    |m: MountView| m.mountpoint,
                ),
            decreases mounted.len() - i,
        {
            let ghost before = points@;
            points.push(mounted[i].mountpoint.clone());
            assert(texts(points@) == texts(before).push(mounted@[i as int].mountpoint@));
            assert(mount_views(mounted@).take(i + 1) == mount_views(mounted@).take(i as int).push(
                mount_views(mounted@)[i as int],
            ));
            i = i + 1;
        }
        assert(mount_views(mounted@).take(mounted.len() as int) == mount_views(mounted@));
        points
    }

    pub fn flash_decision(&self, image_size_bytes: Option<u64>) -> (r: FlashDecision)
        ensures
            r == self.decision_for(image_size_bytes),
    {
        if !self.removable {
            return FlashDecision::HiddenByDefault;
        }
        if self.read_only {
            return FlashDecision::ReadOnly;
        }
        let image_size_bytes: u64 = match image_size_bytes {
            Some(size) => size,
            None => {
                return FlashDecision::NoImageSelected;
            },
        };
        if image_size_bytes > self.size_bytes {
            return FlashDecision::ImageTooLarge;
        }
        if self.has_mounts() {
            return FlashDecision::NeedsUnmount;
        }
        FlashDecision::ReadyToFlash
    }

    pub fn model_label(&self) -> (r: &str)
        ensures
            r@ == (match self.model {
                Some(m) => m@,
                None => "unknown model"@,
            }),
    {
        match &self.model {
            Some(m) => m.as_str(),
            None => "unknown model",
        }
    }

    pub fn transport_label(&self) -> (r: &str)
        ensures
            r@ == (match self.transport {
                Some(t) => t@,
                None => "unknown transport"@,
            }),
    {
        match &self.transport {
            Some(t) => t.as_str(),
            None => "unknown transport",
        }
    }

    pub fn has_mounts(&self) -> (r: bool)
        ensures
            r == (self.mounts().len() > 0),
            r == anything_mounted_on(*self),
    {
        proof {
            lemma_mounted_exactly_when_some_device_is(*self);
        }
        let mounted = self.mounted_filesystems();
        mounted.len() > 0
    }

    pub fn mounted_filesystems(&self) -> (r: Vec<MountedFilesystem>)
        ensures
            mount_views(r@) == self.mounts(),
            r@.len() >= self.mountpoints@.len(),
            forall|k: int|
                0 <= k < self.mountpoints@.len() ==> (#[trigger] r@[k]).device_path@ == self.path@
                    && r@[k].mountpoint@ == self.mountpoints@[k]@,
    {
        let mut mounted: Vec<MountedFilesystem> = Vec::new();
        assert(mount_views(mounted@) == Seq::<MountView>::empty());
        push_own_mounts(&self.path, &self.mountpoints, &mut mounted);
        let mut i: usize = 0;
        while i < self.children.len()
            invariant
                i <= self.children.len(),
                mount_views(mounted@) == own_mounts(self.path@, self.mountpoints@)
                    + forest_mounts(self.children@.take(i as int)),
            decreases self.children.len() - i,
        {
            self.children[i].collect_mounted_filesystems(&mut mounted);
            assert(self.children@.take(i + 1).drop_last() == self.children@.take(i as int));
            assert(self.children@.take(i + 1).last() == self.children@[i as int]);
            assert(forest_mounts(self.children@.take(i + 1)) == forest_mounts(
                self.children@.take(i as int),
            ) + self.children@[i as int].mounts());
            i = i + 1;
        }
        assert(self.children@.take(self.children.len() as int) == self.children@);
        assert forall|k: int| 0 <= k < self.mountpoints@.len() implies (#[trigger] mounted@[k]).device_path@
            == self.path@ && mounted@[k].mountpoint@ == self.mountpoints@[k]@ by {
            assert(mount_views(mounted@)[k] == mounted@[k]@);
            assert(self.mounts()[k] == own_mounts(self.path@, self.mountpoints@)[k]);
        }
        mounted
    }
}

/// One device of `lsblk --json --bytes` output, field for field. The names
/// follow `lsblk`'s column names; `device_type` is its `type` column.
#[derive(Debug)]
pub struct LsblkDevice {
    pub name: String,
    pub path: Option<String>,
    pub rm: Option<bool>,
    pub size: Option<u64>,
    pub ro: Option<bool>,
    pub model: Option<String>,
    pub tran: Option<String>,
    pub mountpoints: Option<Vec<Option<String>>>,
    pub children: Option<Vec<LsblkDevice>>,
    pub device_type: String,
}

/// The view of an optional string.
pub open spec fn opt_text(o: Option<String>) -> Option<Seq<char>> {
    match o {
        Some(s) => Some(s@),
        None => None,
    }
}

/// A reported text with surrounding whitespace removed; nothing where that
/// leaves nothing.
pub open spec fn cleaned_text(o: Option<Seq<char>>) -> Option<Seq<char>> {
    match o {
        Some(t) => if trimmed(t).len() > 0 {
            Some(trimmed(t))
        } else {
            None
        },
        None => None,
    }
}

/// The reported mountpoints that say something: each present entry,
/// trimmed, in order, leaving out the absent ones and those that trim to
/// nothing.
pub open spec fn cleaned_mountpoints(entries: Seq<Option<String>>) -> Seq<Seq<char>>
    decreases entries.len(),
{
    if entries.len() == 0 {
        Seq::empty()
    } else {
        let before = cleaned_mountpoints(entries.drop_last());
        match entries.last() {
            Some(t) => if trimmed(t@).len() > 0 {
                before.push(trimmed(t@))
            } else {
                before
            },
            None => before,
        }
    }
}

/// The mountpoint entries `lsblk` reported for a device; none if it
/// reported no list.
pub open spec fn reported_mountpoints(entries: Option<Vec<Option<String>>>) -> Seq<Option<String>> {
    match entries {
        Some(v) => v@,
        None => Seq::empty(),
    }
}

/// The device path: the reported one, else `/dev/` followed by the name.
pub open spec fn device_path(d: LsblkDevice) -> Seq<char> {
    match d.path {
        Some(p) => p@,
        None => "/dev/"@ + d.name@,
    }
}

/// `c` is what the device `d` becomes below a disk, its children included.
pub open spec fn child_from_device(d: LsblkDevice, c: DiskChild) -> bool
    decreases d,
{
    &&& c.name@ == d.name@
    &&& c.path@ == device_path(d)
    &&& c.device_type@ == d.device_type@
    &&& c.size_bytes == (match d.size {
        Some(n) => n,
        None => 0,
    })
    &&& texts(c.mountpoints@) == cleaned_mountpoints(reported_mountpoints(d.mountpoints))
    &&& match d.children {
        Some(v) => {
            &&& c.children@.len() == v@.len()
            &&& forall|i: int|
                0 <= i < v@.len() ==> child_from_device(v@[i], #[trigger] c.children@[i])
        },
        None => c.children@.len() == 0,
    }
}

/// `disk` is what the device `d` becomes as a disk: an unknown removable
/// flag counts as not removable, an unknown read-only flag as read-only.
pub open spec fn disk_from_device(d: LsblkDevice, disk: Disk) -> bool {
    &&& disk.name@ == d.name@
    &&& disk.path@ == device_path(d)
    &&& disk.size_bytes == (match d.size {
        Some(n) => n,
        None => 0,
    })
    &&& opt_text(disk.model) == cleaned_text(opt_text(d.model))
    &&& opt_text(disk.transport) == cleaned_text(opt_text(d.tran))
    &&& disk.removable == (match d.rm {
        Some(b) => b,
        None => false,
    })
    &&& disk.read_only == (match d.ro {
        Some(b) => b,
        None => true,
    })
    &&& texts(disk.mountpoints@) == cleaned_mountpoints(reported_mountpoints(d.mountpoints))
    &&& match d.children {
        Some(v) => {
            &&& disk.children@.len() == v@.len()
            &&& forall|i: int|
                0 <= i < v@.len() ==> child_from_device(v@[i], #[trigger] disk.children@[i])
        },
        None => disk.children@.len() == 0,
    }
}

/// `disks` holds, in order, one disk for each device of type `disk` in
/// `devices`, and nothing else.
pub open spec fn disks_from_devices(devices: Seq<LsblkDevice>, disks: Seq<Disk>) -> bool
    decreases devices.len(),
{
    if devices.len() == 0 {
        disks.len() == 0
    } else if devices.last().device_type@ == "disk"@ {
        &&& disks.len() > 0
        &&& disk_from_device(devices.last(), disks.last())
        &&& disks_from_devices(devices.drop_last(), disks.drop_last())
    } else {
        disks_from_devices(devices.drop_last(), disks)
    }
}

/// A reported text, trimmed; `None` where nothing is left.
pub fn clean_optional_text(value: &Option<String>) -> (r: Option<String>)
    ensures
        opt_text(r) == cleaned_text(opt_text(*value)),
{
    match value {
        Some(text) => {
            let t = trim_str(text.as_str());
            if t.is_empty() {
                None
            } else {
                Some(t.to_string())
            }
        },
        None => None,
    }
}

/// The reported mountpoints, trimmed, without absent or empty entries.
pub fn clean_mountpoints(value: &Option<Vec<Option<String>>>) -> (r: Vec<String>)
    ensures
        texts(r@) == cleaned_mountpoints(reported_mountpoints(*value)),
{
    let mut cleaned: Vec<String> = Vec::new();
    match value {
        Some(entries) => {
            let mut i: usize = 0;
            while i < entries.len()
                invariant
                    i <= entries.len(),
                    texts(cleaned@) == cleaned_mountpoints(entries@.take(i as int)),
                decreases entries.len() - i,
            {
                let ghost before = cleaned@;
                assert(entries@.take(i + 1).drop_last() == entries@.take(i as int));
                assert(entries@.take(i + 1).last() == entries@[i as int]);
                match &entries[i] {
                    Some(text) => {
                        let t = trim_str(text.as_str());
                        if !t.is_empty() {
                            cleaned.push(t.to_string());
                            assert(texts(cleaned@) == texts(before).push(t@));
                        }
                    },
                    None => {},
                }
                i = i + 1;
            }
            assert(entries@.take(entries.len() as int) == entries@);
        },
        None => {},
    }
    cleaned
}

/// The path of a device: the reported one, else `/dev/<name>`.
fn resolve_path(name: &String, path: &Option<String>) -> (r: String)
    ensures
        r@ == (match *path {
            Some(p) => p@,
            None => "/dev/"@ + name@,
        }),
{
    match path {
        Some(p) => p.clone(),
        None => {
            let mut p = "/dev/".to_string();
            p.append(name.as_str());
            p
        },
    }
}

/// The children a device reported, each converted.
fn convert_children(children: &Option<Vec<LsblkDevice>>) -> (r: Vec<DiskChild>)
    ensures
        match *children {
            Some(v) => {
                &&& r@.len() == v@.len()
                &&& forall|i: int| 0 <= i < v@.len() ==> child_from_device(v@[i], #[trigger] r@[i])
            },
            None => r@.len() == 0,
        },
    decreases *children, 0nat,
{
    let mut converted: Vec<DiskChild> = Vec::new();
    match children {
        Some(v) => {
            let mut i: usize = 0;
            while i < v.len()
                invariant
                    i <= v.len(),
                    *children == Some(*v),
                    converted@.len() == i,
                    forall|k: int| 0 <= k < i ==> child_from_device(v@[k], #[trigger] converted@[k]),
                decreases v.len() - i,
            {
                proof {
                    assert(decreases_to!(*children => (*children)->0));
                    assert((*children)->0 == *v);
                    assert(decreases_to!(*v => v@));
                    assert(decreases_to!(v@ => v@[i as int]));
                    assert(decreases_to!(*children => v@[i as int]));
                }
                let c = convert_child(&v[i]);
                converted.push(c);
                i = i + 1;
            }
        },
        None => {},
    }
    converted
}

/// A device below a disk, with its children.
pub fn convert_child(device: &LsblkDevice) -> (r: DiskChild)
    ensures
        child_from_device(*device, r),
        keeps_reported_mountpoints(device.mountpoints, r.mountpoints@),
    decreases *device, 1nat,
{
    let children = convert_children(&device.children);
    let mountpoints = clean_mountpoints(&device.mountpoints);
    proof {
        lemma_kept_mountpoints(device.mountpoints, mountpoints@);
    }
    DiskChild {
        name: device.name.clone(),
        path: resolve_path(&device.name, &device.path),
        device_type: device.device_type.clone(),
        size_bytes: match device.size {
            Some(n) => n,
            None => 0,
        },
        mountpoints,
        children,
    }
}

/// A device reported as a disk, with its children.
pub fn convert_disk(device: &LsblkDevice) -> (r: Disk)
    ensures
        disk_from_device(*device, r),
        keeps_reported_mountpoints(device.mountpoints, r.mountpoints@),
        (exists|j: int|
            0 <= j < (match device.mountpoints {
                Some(v) => v@,
                None => Seq::<Option<String>>::empty(),
            }).len() && (#[trigger] device.mountpoints->0@[j]) is Some && trimmed(
                device.mountpoints->0@[j]->0@,
            ).len() > 0) ==> r.mounts().len() > 0,
{
    let children = convert_children(&device.children);
    let mountpoints = clean_mountpoints(&device.mountpoints);
    proof {
        lemma_kept_mountpoints(device.mountpoints, mountpoints@);
    }
    Disk {
        name: device.name.clone(),
        path: resolve_path(&device.name, &device.path),
        size_bytes: match device.size {
            Some(n) => n,
            None => 0,
        },
        model: clean_optional_text(&device.model),
        transport: clean_optional_text(&device.tran),
        removable: match device.rm {
            Some(b) => b,
            None => false,
        },
        read_only: match device.ro {
            Some(b) => b,
            None => true,
        },
        mountpoints,
        children,
    }
}

/// The disks among the top-level devices of an `lsblk` listing, in order.
pub fn disks_from_lsblk(devices: &Vec<LsblkDevice>) -> (r: Vec<Disk>)
    ensures
        disks_from_devices(devices@, r@),
{
    let kind = "disk".to_string();
    let mut disks: Vec<Disk> = Vec::new();
    let mut i: usize = 0;
    while i < devices.len()
        invariant
            i <= devices.len(),
            kind@ == "disk"@,
            disks_from_devices(devices@.take(i as int), disks@),
        decreases devices.len() - i,
    {
        let ghost before = disks@;
        assert(devices@.take(i + 1).drop_last() == devices@.take(i as int));
        assert(devices@.take(i + 1).last() == devices@[i as int]);
        if devices[i].device_type == kind {
            let d = convert_disk(&devices[i]);
            disks.push(d);
            assert(disks@.drop_last() == before);
        }
        i = i + 1;
    }
    assert(devices@.take(devices.len() as int) == devices@);
    disks
}

/// A disk is hidden by default, whatever image is chosen, exactly when it
/// is not removable.
pub proof fn lemma_hidden_exactly_when_not_removable(disk: Disk, image_size_bytes: Option<u64>)
    ensures
        (disk.decision_for(image_size_bytes) == FlashDecision::HiddenByDefault) == !disk.removable,
        (disk.status_spec() == DiskStatus::HiddenByDefault) == !disk.removable,
{
}

/// A disk is ready to flash for an image exactly when it is removable, not
/// read-only, at least as large as the image and has nothing mounted; it
/// needs unmounting first exactly when all of that holds but something is
/// mounted.
pub proof fn lemma_ready_exactly_when_safe(disk: Disk, image_size_bytes: u64)
    ensures
        (disk.decision_for(Some(image_size_bytes)) == FlashDecision::ReadyToFlash) == (
        disk.removable && !disk.read_only && image_size_bytes <= disk.size_bytes
            && disk.mounts().len() == 0),
        (disk.decision_for(Some(image_size_bytes)) == FlashDecision::NeedsUnmount) == (
        disk.removable && !disk.read_only && image_size_bytes <= disk.size_bytes
            && disk.mounts().len() > 0),
{
}

/// Without an image no disk is ready to flash or in need of unmounting.
pub proof fn lemma_no_image_no_flash(disk: Disk)
    ensures
        disk.decision_for(None) != FlashDecision::ReadyToFlash,
        disk.decision_for(None) != FlashDecision::NeedsUnmount,
        disk.removable && !disk.read_only ==> disk.decision_for(None)
            == FlashDecision::NoImageSelected,
{
}

/// Where `lsblk` leaves a flag unknown, the disk built from its report errs
/// on the safe side: an unknown removable flag hides the disk, an unknown
/// read-only flag keeps it from being flashed.
pub proof fn lemma_unknown_flags_never_flash(
    device: LsblkDevice,
    disk: Disk,
    image_size_bytes: Option<u64>,
)
    requires
        disk_from_device(device, disk),
    ensures
        device.rm is None ==> disk.decision_for(image_size_bytes) == FlashDecision::HiddenByDefault,
        device.ro is None ==> disk.decision_for(image_size_bytes) != FlashDecision::ReadyToFlash
            && disk.decision_for(image_size_bytes) != FlashDecision::NeedsUnmount,
{
}

/// Something is mounted from a sequence of devices exactly when something is
/// mounted from one of them or from below it.
proof fn lemma_forest_mounted(children: Seq<DiskChild>)
    ensures
        (forest_mounts(children).len() > 0) == (exists|i: int|
            0 <= i < children.len() && (#[trigger] children[i]).mounts().len() > 0),
    decreases children,
{
    if children.len() > 0 {
        lemma_forest_mounted(children.drop_last());
        let last = children.last();
        if forest_mounts(children.drop_last()).len() > 0 {
            let i: int = choose|i: int|
                0 <= i < children.drop_last().len() && (#[trigger] children.drop_last()[i]).mounts().len() > 0;
            assert(children[i] == children.drop_last()[i]);
        }
        if last.mounts().len() > 0 {
            assert(children[children.len() - 1] == last);
        }
        if exists|i: int| 0 <= i < children.len() && (#[trigger] children[i]).mounts().len() > 0 {
            let i: int = choose|i: int| 0 <= i < children.len() && (#[trigger] children[i]).mounts().len() > 0;
            if i < children.len() - 1 {
                assert(children.drop_last()[i] == children[i]);
            }
        }
    }
}

/// A disk has something mounted exactly when the disk itself has a
/// mountpoint or one of its children has something mounted from it or from
/// below it, at any depth.
pub proof fn lemma_mounted_exactly_when_some_device_is(disk: Disk)
    ensures
        (disk.mounts().len() > 0) == (disk.mountpoints@.len() > 0 || exists|i: int|
            0 <= i < disk.children@.len() && (#[trigger] disk.children@[i]).mounts().len() > 0),
{
    lemma_forest_mounted(disk.children@);
}

/// Every mountpoint kept from a report says something and has no
/// whitespace at either end.
pub proof fn lemma_cleaned_mountpoints_are_trimmed(entries: Seq<Option<String>>)
    ensures
        forall|k: int|
            0 <= k < cleaned_mountpoints(entries).len() ==> {
                let m = #[trigger] cleaned_mountpoints(entries)[k];
                &&& m.len() > 0
                &&& !is_white_space(m[0])
                &&& !is_white_space(m.last())
            },
    decreases entries.len(),
{
    if entries.len() > 0 {
        lemma_cleaned_mountpoints_are_trimmed(entries.drop_last());
        let before = cleaned_mountpoints(entries.drop_last());
        let all = cleaned_mountpoints(entries);
        match entries.last() {
            Some(t) => {
                lemma_trimmed_ends(t@);
            },
            None => {},
        }
        assert forall|k: int| 0 <= k < all.len() implies {
            let m = #[trigger] all[k];
            &&& m.len() > 0
            &&& !is_white_space(m[0])
            &&& !is_white_space(m.last())
        } by {
            if k < before.len() {
                assert(all[k] == before[k]);
            }
        }
    }
}

/// `copy` holds the same values as `original`, its children included.
pub open spec fn child_copy(original: DiskChild, copy: DiskChild) -> bool
    decreases original,
{
    &&& copy.name@ == original.name@
    &&& copy.path@ == original.path@
    &&& copy.device_type@ == original.device_type@
    &&& copy.size_bytes == original.size_bytes
    &&& texts(copy.mountpoints@) == texts(original.mountpoints@)
    &&& copy.children@.len() == original.children@.len()
    &&& forall|i: int|
        0 <= i < original.children@.len() ==> child_copy(original.children@[i], #[trigger] copy.children@[i])
}

/// `copy` holds the same values as `original`, its children included.
pub open spec fn disk_copy(original: Disk, copy: Disk) -> bool {
    &&& copy.name@ == original.name@
    &&& copy.path@ == original.path@
    &&& copy.size_bytes == original.size_bytes
    &&& opt_text(copy.model) == opt_text(original.model)
    &&& opt_text(copy.transport) == opt_text(original.transport)
    &&& copy.removable == original.removable
    &&& copy.read_only == original.read_only
    &&& texts(copy.mountpoints@) == texts(original.mountpoints@)
    &&& copy.children@.len() == original.children@.len()
    &&& forall|i: int|
        0 <= i < original.children@.len() ==> child_copy(original.children@[i], #[trigger] copy.children@[i])
}

/// A copy of a list of strings.
fn copy_texts(v: &Vec<String>) -> (r: Vec<String>)
    ensures
        texts(r@) == texts(v@),
{
    let mut copied: Vec<String> = Vec::new();
    let mut i: usize = 0;
    while i < v.len()
        invariant
            i <= v.len(),
            texts(copied@) == texts(v@.take(i as int)),
        decreases v.len() - i,
    {
        let ghost before = copied@;
        copied.push(v[i].clone());
        assert(texts(copied@) == texts(before).push(v@[i as int]@));
        assert(v@.take(i + 1) == v@.take(i as int).push(v@[i as int]));
        i = i + 1;
    }
    assert(v@.take(v.len() as int) == v@);
    copied
}

/// A copy of an optional string.
fn copy_optional_text(o: &Option<String>) -> (r: Option<String>)
    ensures
        opt_text(r) == opt_text(*o),
{
    match o {
        Some(t) => Some(t.clone()),
        None => None,
    }
}

/// Copies of child devices, in order.
fn copy_children(children: &Vec<DiskChild>) -> (r: Vec<DiskChild>)
    ensures
        r@.len() == children@.len(),
        forall|i: int| 0 <= i < children@.len() ==> child_copy(children@[i], #[trigger] r@[i]),
    decreases *children, 0nat,
{
    let mut copied: Vec<DiskChild> = Vec::new();
    let mut i: usize = 0;
    while i < children.len()
        invariant
            i <= children.len(),
            copied@.len() == i,
            forall|k: int| 0 <= k < i ==> child_copy(children@[k], #[trigger] copied@[k]),
        decreases children.len() - i,
    {
        proof {
            assert(decreases_to!(*children => children@));
            assert(decreases_to!(children@ => children@[i as int]));
        }
        let c = copy_child(&children[i]);
        copied.push(c);
        i = i + 1;
    }
    copied
}

/// A copy of a child device, with its children.
fn copy_child(child: &DiskChild) -> (r: DiskChild)
    ensures
        child_copy(*child, r),
    decreases *child, 1nat,
{
    DiskChild {
        name: child.name.clone(),
        path: child.path.clone(),
        device_type: child.device_type.clone(),
        size_bytes: child.size_bytes,
        mountpoints: copy_texts(&child.mountpoints),
        children: copy_children(&child.children),
    }
}

impl Clone for DiskChild {
    fn clone(&self) -> (r: Self)
        ensures
            child_copy(*self, r),
    {
        copy_child(self)
    }
}

impl Clone for Disk {
    fn clone(&self) -> (r: Self)
        ensures
            disk_copy(*self, r),
    {
        Disk {
            name: self.name.clone(),
            path: self.path.clone(),
            size_bytes: self.size_bytes,
            model: copy_optional_text(&self.model),
            transport: copy_optional_text(&self.transport),
            removable: self.removable,
            read_only: self.read_only,
            mountpoints: copy_texts(&self.mountpoints),
            children: copy_children(&self.children),
        }
    }
}

/// Every mountpoint entry that says something is kept, trimmed, and
/// nothing else is: each present entry that does not trim to nothing has
/// its trimmed text among the kept ones, and each kept one is the trimmed,
/// non-empty text of some present entry.
pub proof fn lemma_cleaned_mountpoints_keep_every_entry(entries: Seq<Option<String>>)
    ensures
        forall|j: int|
            0 <= j < entries.len() && (#[trigger] entries[j]) is Some && trimmed(entries[j]->0@).len() > 0
                ==> exists|k: int|
                0 <= k < cleaned_mountpoints(entries).len() && #[trigger] cleaned_mountpoints(entries)[k]
                    == trimmed(entries[j]->0@),
        forall|k: int|
            0 <= k < cleaned_mountpoints(entries).len() ==> exists|j: int|
                0 <= j < entries.len() && (#[trigger] entries[j]) is Some
                    && #[trigger] cleaned_mountpoints(entries)[k] == trimmed(entries[j]->0@)
                    && trimmed(entries[j]->0@).len() > 0,
    decreases entries.len(),
{
    if entries.len() > 0 {
        let rest = entries.drop_last();
        let before = cleaned_mountpoints(rest);
        let all = cleaned_mountpoints(entries);
        lemma_cleaned_mountpoints_keep_every_entry(rest);
        assert forall|j: int|
            0 <= j < entries.len() && (#[trigger] entries[j]) is Some && trimmed(entries[j]->0@).len() > 0
            implies exists|k: int| 0 <= k < all.len() && #[trigger] all[k] == trimmed(entries[j]->0@) by {
            if j < entries.len() - 1 {
                assert(rest[j] == entries[j]);
                let k: int = choose|k: int| 0 <= k < before.len() && #[trigger] before[k] == trimmed(rest[j]->0@);
                assert(all[k] == before[k]);
            } else {
                assert(all[all.len() - 1] == trimmed(entries[j]->0@));
            }
        }
        assert forall|k: int| 0 <= k < all.len() implies exists|j: int|
            0 <= j < entries.len() && (#[trigger] entries[j]) is Some && #[trigger] all[k] == trimmed(
                entries[j]->0@,
            ) && trimmed(entries[j]->0@).len() > 0 by {
            if k < before.len() {
                assert(all[k] == before[k]);
                let j: int = choose|j: int|
                    0 <= j < rest.len() && (#[trigger] rest[j]) is Some && #[trigger] before[k] == trimmed(
                        rest[j]->0@,
                    ) && trimmed(rest[j]->0@).len() > 0;
                assert(entries[j] == rest[j]);
            } else {
                assert(entries[entries.len() - 1] == entries.last());
            }
        }
    }
}

/// A disk built from an `lsblk` device keeps every mountpoint the device
/// reported that says something (trimmed), has no other mountpoints, and so
/// has something mounted from it as soon as one reported mountpoint is not
/// blank.
pub proof fn lemma_disk_keeps_reported_mountpoints(device: LsblkDevice, disk: Disk)
    requires
        disk_from_device(device, disk),
    ensures
        forall|j: int|
            0 <= j < (match device.mountpoints {
                Some(v) => v@,
                None => Seq::<Option<String>>::empty(),
            }).len() && (#[trigger] device.mountpoints->0@[j]) is Some && trimmed(
                device.mountpoints->0@[j]->0@,
            ).len() > 0 ==> exists|k: int|
                0 <= k < disk.mountpoints@.len() && (#[trigger] disk.mountpoints@[k])@ == trimmed(
                    device.mountpoints->0@[j]->0@,
                ),
        forall|k: int|
            0 <= k < disk.mountpoints@.len() ==> (#[trigger] disk.mountpoints@[k])@.len() > 0,
        (exists|j: int|
            0 <= j < (match device.mountpoints {
                Some(v) => v@,
                None => Seq::<Option<String>>::empty(),
            }).len() && (#[trigger] device.mountpoints->0@[j]) is Some && trimmed(
                device.mountpoints->0@[j]->0@,
            ).len() > 0) ==> disk.mountpoints@.len() > 0 && disk.mounts().len() > 0,
{
    let entries = reported_mountpoints(device.mountpoints);
    lemma_cleaned_mountpoints_keep_every_entry(entries);
    let kept = cleaned_mountpoints(entries);
    assert(texts(disk.mountpoints@) == kept);
    assert forall|j: int|
        0 <= j < (match device.mountpoints {
            Some(v) => v@,
            None => Seq::<Option<String>>::empty(),
        }).len() && (#[trigger] device.mountpoints->0@[j]) is Some && trimmed(
            device.mountpoints->0@[j]->0@,
        ).len() > 0 implies exists|k: int|
        0 <= k < disk.mountpoints@.len() && (#[trigger] disk.mountpoints@[k])@ == trimmed(
            device.mountpoints->0@[j]->0@,
        ) by {
        assert(entries[j] == device.mountpoints->0@[j]);
        let k: int = choose|k: int| 0 <= k < kept.len() && #[trigger] kept[k] == trimmed(entries[j]->0@);
        assert(texts(disk.mountpoints@)[k] == disk.mountpoints@[k]@);
    }
    assert forall|k: int| 0 <= k < disk.mountpoints@.len() implies (#[trigger] disk.mountpoints@[k])@.len() > 0 by {
        assert(texts(disk.mountpoints@)[k] == disk.mountpoints@[k]@);
        let j: int = choose|j: int|
            0 <= j < entries.len() && (#[trigger] entries[j]) is Some && #[trigger] kept[k] == trimmed(
                entries[j]->0@,
            ) && trimmed(entries[j]->0@).len() > 0;
    }
    if exists|j: int|
        0 <= j < (match device.mountpoints {
            Some(v) => v@,
            None => Seq::<Option<String>>::empty(),
        }).len() && (#[trigger] device.mountpoints->0@[j]) is Some && trimmed(
            device.mountpoints->0@[j]->0@,
        ).len() > 0 {
        let j: int = choose|j: int|
            0 <= j < (match device.mountpoints {
                Some(v) => v@,
                None => Seq::<Option<String>>::empty(),
            }).len() && (#[trigger] device.mountpoints->0@[j]) is Some && trimmed(
                device.mountpoints->0@[j]->0@,
            ).len() > 0;
        assert(entries[j] == device.mountpoints->0@[j]);
        let k: int = choose|k: int| 0 <= k < kept.len() && #[trigger] kept[k] == trimmed(entries[j]->0@);
        assert(kept.len() > 0);
        assert(own_mounts(disk.path@, disk.mountpoints@).len() == disk.mountpoints@.len());
    }
}

/// `kept` holds, trimmed, every reported mountpoint entry that says
/// something, and only non-empty texts: as soon as one reported entry is
/// not blank, something is kept.
pub open spec fn keeps_reported_mountpoints(reported: Option<Vec<Option<String>>>, kept: Seq<String>) -> bool {
    &&& forall|j: int|
        0 <= j < (match reported {
            Some(v) => v@,
            None => Seq::<Option<String>>::empty(),
        }).len() && (#[trigger] reported->0@[j]) is Some && trimmed(reported->0@[j]->0@).len() > 0
            ==> exists|k: int| 0 <= k < kept.len() && (#[trigger] kept[k])@ == trimmed(reported->0@[j]->0@)
    &&& forall|k: int| 0 <= k < kept.len() ==> (#[trigger] kept[k])@.len() > 0
}

/// The mountpoints kept from a report keep every entry that says something.
pub proof fn lemma_kept_mountpoints(reported: Option<Vec<Option<String>>>, kept: Seq<String>)
    requires
        texts(kept) == cleaned_mountpoints(reported_mountpoints(reported)),
    ensures
        keeps_reported_mountpoints(reported, kept),
{
    let entries = reported_mountpoints(reported);
    lemma_cleaned_mountpoints_keep_every_entry(entries);
    let cleaned = cleaned_mountpoints(entries);
    assert forall|j: int|
        0 <= j < (match reported {
            Some(v) => v@,
            None => Seq::<Option<String>>::empty(),
        }).len() && (#[trigger] reported->0@[j]) is Some && trimmed(reported->0@[j]->0@).len() > 0
        implies exists|k: int| 0 <= k < kept.len() && (#[trigger] kept[k])@ == trimmed(reported->0@[j]->0@) by {
        assert(entries[j] == reported->0@[j]);
        let k: int = choose|k: int| 0 <= k < cleaned.len() && #[trigger] cleaned[k] == trimmed(entries[j]->0@);
        assert(texts(kept)[k] == kept[k]@);
    }
    assert forall|k: int| 0 <= k < kept.len() implies (#[trigger] kept[k])@.len() > 0 by {
        assert(texts(kept)[k] == kept[k]@);
        let j: int = choose|j: int|
            0 <= j < entries.len() && (#[trigger] entries[j]) is Some && #[trigger] cleaned[k] == trimmed(
                entries[j]->0@,
            ) && trimmed(entries[j]->0@).len() > 0;
    }
}

/// Something is mounted from `disk` itself or from one of its children (or
/// below that child).
pub open spec fn anything_mounted_on(disk: Disk) -> bool {
    disk.mountpoints@.len() > 0 || exists|c: int|
        0 <= c < disk.children@.len() && (#[trigger] disk.children@[c]).mounts().len() > 0
}

/// The report groups a disk as hidden exactly when it is not removable, as
/// needing unmount first exactly when it is removable and something is
/// mounted from it or from any device below it (a mounted partition is
/// enough), and as ready to flash otherwise.
pub proof fn lemma_status_groups(disk: Disk)
    ensures
        (disk.status_spec() == DiskStatus::HiddenByDefault) == !disk.removable,
        (disk.status_spec() == DiskStatus::NeedsUnmount) == (disk.removable && anything_mounted_on(disk)),
        (disk.status_spec() == DiskStatus::ReadyToFlash) == (disk.removable && !anything_mounted_on(disk)),
        forall|c: int|
            0 <= c < disk.children@.len() && (#[trigger] disk.children@[c]).mountpoints@.len() > 0
                && disk.removable ==> disk.status_spec() == DiskStatus::NeedsUnmount,
{
    lemma_mounted_exactly_when_some_device_is(disk);
    assert forall|c: int|
        0 <= c < disk.children@.len() && (#[trigger] disk.children@[c]).mountpoints@.len() > 0
            && disk.removable implies disk.status_spec() == DiskStatus::NeedsUnmount by {
        let child = disk.children@[c];
        assert(own_mounts(child.path@, child.mountpoints@).len() == child.mountpoints@.len());
        assert(child.mounts().len() > 0);
    }
}

} // verus!
