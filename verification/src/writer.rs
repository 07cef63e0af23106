//! The plan for writing an image onto a disk.
use vstd::prelude::*;
use crate::devices::{Disk, FlashDecision, MountView, MountedFilesystem, mount_views, texts};
use crate::images::{ImageFile, image_label, path_file_name};

verus! {

/// What will be done to write an image onto a disk.
#[derive(Debug, Clone)]
pub struct WritePlan {
    pub image_path: String,
    pub image_name: String,
    pub image_size_bytes: u64,
    pub target_path: String,
    pub target_model: String,
    pub target_size_bytes: u64,
    pub decision: FlashDecision,
    pub execution_mode: ExecutionMode,
    pub preparation_steps: Vec<PreparationStep>,
    pub final_actions: Vec<FinalAction>,
}

/// How a plan can be carried out: by writing at once, by unmounting first,
/// or not at all.
#[derive(Debug, Clone, Copy, PartialEq, Eq, Structural)]
pub enum ExecutionMode {
    WriteDirectly,
    UnmountThenWrite,
    Blocked,
}

/// The execution mode that goes with a decision.
pub open spec fn execution_mode_for(decision: FlashDecision) -> ExecutionMode {
    match decision {
        FlashDecision::ReadyToFlash => ExecutionMode::WriteDirectly,
        FlashDecision::NeedsUnmount => ExecutionMode::UnmountThenWrite,
        _ => ExecutionMode::Blocked,
    }
}

impl ExecutionMode {
    /// The execution mode that goes with a decision.
    pub fn for_decision(decision: FlashDecision) -> (r: ExecutionMode)
        ensures
            r == execution_mode_for(decision),
    {
        match decision {
            FlashDecision::ReadyToFlash => ExecutionMode::WriteDirectly,
            FlashDecision::NeedsUnmount => ExecutionMode::UnmountThenWrite,
            _ => ExecutionMode::Blocked,
        }
    }

    /// Whether a plan in this mode ends in writing, once prepared.
    pub fn can_eventually_write(&self) -> (r: bool)
        ensures
            r == !(*self is Blocked),
    {
        match self {
            ExecutionMode::Blocked => false,
            _ => true,
        }
    }
}

/// Something to do to a disk before its image can be written.
#[derive(Debug, Clone)]
pub enum PreparationStep {
    Unmount { device_path: String, mountpoint: String },
}

/// What is done once the disk is prepared.
#[derive(Debug, Clone, Copy, PartialEq, Eq, Structural)]
pub enum FinalAction {
    WriteImageBytes,
    SyncTarget,
}

impl View for PreparationStep {
    type V = MountView;

    /// The filesystem that the step unmounts.
    open spec fn view(&self) -> MountView {
        match self {
            PreparationStep::Unmount { device_path, mountpoint } => MountView {
                device_path: device_path@,
                mountpoint: mountpoint@,
            },
        }
    }
}

/// The views of a sequence of preparation steps.
pub open spec fn step_views(steps: Seq<PreparationStep>) -> Seq<MountView> {
    steps.map_values(|s: PreparationStep| s@)
}

/// The label of a step that unmounts `mountpoint` from `device_path`.
pub open spec fn unmount_label(device_path: Seq<char>, mountpoint: Seq<char>) -> Seq<char> {
    "unmount "@ + device_path + " from "@ + mountpoint
}

/// The label text of each final action.
pub open spec fn final_action_label(a: FinalAction) -> Seq<char> {
    match a {
        FinalAction::WriteImageBytes => "write image bytes to target disk"@,
        FinalAction::SyncTarget => "sync target disk"@,
    }
}

impl PreparationStep {
    pub fn label(&self) -> (r: String)
        ensures
            r@ == unmount_label(self@.device_path, self@.mountpoint),
    {
        match self {
            PreparationStep::Unmount { device_path, mountpoint } => {
                let mut text = "unmount ".to_string();
                text.append(device_path.as_str());
                text.append(" from ");
                text.append(mountpoint.as_str());
                text
            },
        }
    }
}

/// The arguments for `umount` that carry out an unmount step: the
/// mountpoint, preceded by `-l` for the lazy unmount that is tried when a
/// plain one fails because the filesystem is busy.
pub open spec fn umount_arguments(mountpoint: Seq<char>, lazy: bool) -> Seq<Seq<char>> {
    if lazy {
        seq!["-l"@, mountpoint]
    } else {
        seq![mountpoint]
    }
}

impl PreparationStep {
    /// The arguments for `umount` that carry out this step, lazily or not.
    pub fn unmount_arguments(&self, lazy: bool) -> (r: Vec<String>)
        ensures
            texts(r@) == umount_arguments(self@.mountpoint, lazy),
    {
        match self {
            PreparationStep::Unmount { mountpoint, .. } => {
                let mut arguments: Vec<String> = Vec::new();
                if lazy {
                    arguments.push("-l".to_string());
                }
                arguments.push(mountpoint.clone());
                assert(texts(arguments@) =~= umount_arguments(self@.mountpoint, lazy));
                arguments
            },
        }
    }
}

impl FinalAction {
    pub fn label(&self) -> (r: &'static str)
        ensures
            r@ == final_action_label(*self),
    {
        match self {
            FinalAction::WriteImageBytes => "write image bytes to target disk",
            FinalAction::SyncTarget => "sync target disk",
        }
    }
}

/// The unmount steps for the given mounted filesystems, one each, in order.
fn unmount_steps(mounted: Vec<MountedFilesystem>) -> (r: Vec<PreparationStep>)
    ensures
        step_views(r@) == mount_views(mounted@),
{
    let mut steps: Vec<PreparationStep> = Vec::new();
    let mut i: usize = 0;
    while i < mounted.len()
        invariant
            i <= mounted.len(),
            step_views(steps@) == mount_views(mounted@.take(i as int)),
        decreases mounted.len() - i,
    {
        let ghost before = steps@;
        let filesystem = &mounted[i];
        steps.push(
            PreparationStep::Unmount {
                device_path: filesystem.device_path.clone(),
                mountpoint: filesystem.mountpoint.clone(),
            },
        );
        assert(step_views(steps@) == step_views(before).push(mounted@[i as int]@));
        assert(mounted@.take(i + 1) == mounted@.take(i as int).push(mounted@[i as int]));
        assert(mount_views(mounted@.take(i + 1)) == mount_views(mounted@.take(i as int)).push(
            mounted@[i as int]@,
        ));
        i = i + 1;
    }
    assert(mounted@.take(mounted.len() as int) == mounted@);
    steps
}

/// The plan for writing `image` onto `disk`: the disk's decision for the
/// image, one unmount step per filesystem mounted from the disk or from a
/// device below it (in the order `Disk::mounted_filesystems` lists them),
/// then writing the image bytes and syncing the disk.
pub fn build_write_plan(image: &ImageFile, disk: &Disk) -> (plan: WritePlan)
    ensures
        plan.image_path@ == image.path@,
        plan.image_name@ == image_label(path_file_name(image.path@)),
        plan.image_size_bytes == image.size_bytes,
        plan.target_path@ == disk.path@,
        plan.target_model@ == (match disk.model {
            Some(m) => m@,
            None => "unknown model"@,
        }),
        plan.target_size_bytes == disk.size_bytes,
        plan.decision == disk.decision_for(Some(image.size_bytes)),
        plan.execution_mode == execution_mode_for(plan.decision),
        step_views(plan.preparation_steps@) == disk.mounts(),
        plan.final_actions@ == seq![FinalAction::WriteImageBytes, FinalAction::SyncTarget],
{
    let decision = disk.flash_decision(Some(image.size_bytes));
    let preparation_steps = unmount_steps(disk.mounted_filesystems());
    let model = disk.model_label().to_string();
    let mut final_actions: Vec<FinalAction> = Vec::new();
    final_actions.push(FinalAction::WriteImageBytes);
    final_actions.push(FinalAction::SyncTarget);
    WritePlan {
        image_path: image.path.clone(),
        image_name: image.file_name_label(),
        image_size_bytes: image.size_bytes,
        target_path: disk.path.clone(),
        target_model: model,
        target_size_bytes: disk.size_bytes,
        decision,
        execution_mode: ExecutionMode::for_decision(decision),
        preparation_steps,
        final_actions,
    }
}

/// The plan's steps agree with its decision and execution mode: a plan
/// ready to flash (written directly) has no preparation steps, one that
/// needs unmounting (unmounted, then written) has at least one, and every
/// other decision is one under which the plan must not be carried out.
pub proof fn lemma_plan_steps_agree_with_decision(image: ImageFile, disk: Disk)
    ensures
        disk.decision_for(Some(image.size_bytes)) == FlashDecision::ReadyToFlash
            ==> disk.mounts().len() == 0,
        disk.decision_for(Some(image.size_bytes)) == FlashDecision::NeedsUnmount
            ==> disk.mounts().len() > 0,
        disk.decision_for(Some(image.size_bytes)) != FlashDecision::NoImageSelected,
        execution_mode_for(disk.decision_for(Some(image.size_bytes))) == ExecutionMode::WriteDirectly
            ==> disk.mounts().len() == 0,
        execution_mode_for(disk.decision_for(Some(image.size_bytes))) == ExecutionMode::UnmountThenWrite
            ==> disk.mounts().len() > 0,
{
}

/// For a removable disk that is not read-only, the image is too large
/// exactly when it does not fit in the disk's bytes.
pub proof fn lemma_too_large_exactly_when_not_fitting(image: ImageFile, disk: Disk)
    requires
        disk.removable,
        !disk.read_only,
    ensures
        (disk.decision_for(Some(image.size_bytes)) == FlashDecision::ImageTooLarge) == !(
        image.size_bytes <= disk.size_bytes),
{
}

} // verus!
