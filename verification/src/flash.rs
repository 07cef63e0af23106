//! The flash workflow: which outside work comes next, and what is reported,
//! given what the last piece of outside work gave back.
//!
//! The workflow finds the target disk, builds the write plan and reports it,
//! refuses targets that cannot be written, unmounts what is mounted from the
//! target one step at a time, looks at the disks again, writes only if the
//! target is then ready to flash, and verifies the written image on request.
use vstd::prelude::*;
use crate::devices::{Disk, FlashDecision, MountView, decision_label};
use crate::images::ImageFile;
use crate::writer::{
    ExecutionMode, PreparationStep, build_write_plan, execution_mode_for, step_views, unmount_label,
};

verus! {

/// A request to flash an image onto the device at `target_path`.
#[derive(Debug, Clone)]
pub struct FlashRequest {
    pub image: ImageFile,
    pub target_path: String,
    pub verify_after_write: bool,
}

/// How far writing the image has come.
#[derive(Debug, Clone, Copy, PartialEq, Eq, Structural)]
pub struct WriteProgress {
    pub bytes_written: u64,
    pub total_bytes: u64,
}

/// How far verifying the written image has come.
#[derive(Debug, Clone, Copy, PartialEq, Eq, Structural)]
pub struct VerifyProgress {
    pub bytes_verified: u64,
    pub total_bytes: u64,
}

/// What the workflow reports as it goes.
#[derive(Debug, Clone)]
pub enum FlashEvent {
    PlanBuilt {
        target_path: String,
        target_model: String,
        target_size_bytes: u64,
        decision: FlashDecision,
        execution_mode: ExecutionMode,
        verify_after_write: bool,
    },
    Preparing { step_label: String },
    PreparationFinished,
    Writing { progress: WriteProgress },
    WriteFinished,
    Verifying { progress: VerifyProgress },
    VerifyFinished,
    Finished,
}

/// A reported event as plain values.
pub enum FlashEventView {
    PlanBuilt {
        target_path: Seq<char>,
        target_model: Seq<char>,
        target_size_bytes: u64,
        decision: FlashDecision,
        execution_mode: ExecutionMode,
        verify_after_write: bool,
    },
    Preparing { step_label: Seq<char> },
    PreparationFinished,
    Writing { progress: WriteProgress },
    WriteFinished,
    Verifying { progress: VerifyProgress },
    VerifyFinished,
    Finished,
}

impl View for FlashEvent {
    type V = FlashEventView;

    open spec fn view(&self) -> FlashEventView {
        match self {
            FlashEvent::PlanBuilt {
                target_path,
                target_model,
                target_size_bytes,
                decision,
                execution_mode,
                verify_after_write,
            } => FlashEventView::PlanBuilt {
                target_path: target_path@,
                target_model: target_model@,
                target_size_bytes: *target_size_bytes,
                decision: *decision,
                execution_mode: *execution_mode,
                verify_after_write: *verify_after_write,
            },
            FlashEvent::Preparing { step_label } => FlashEventView::Preparing {
                step_label: step_label@,
            },
            FlashEvent::PreparationFinished => FlashEventView::PreparationFinished,
            FlashEvent::Writing { progress } => FlashEventView::Writing { progress: *progress },
            FlashEvent::WriteFinished => FlashEventView::WriteFinished,
            FlashEvent::Verifying { progress } => FlashEventView::Verifying { progress: *progress },
            FlashEvent::VerifyFinished => FlashEventView::VerifyFinished,
            FlashEvent::Finished => FlashEventView::Finished,
        }
    }
}

/// The views of a sequence of events.
pub open spec fn event_views(events: Seq<FlashEvent>) -> Seq<FlashEventView> {
    events.map_values(|e: FlashEvent| e@)
}

/// Where the workflow stands: which outside work it waits for.
#[derive(Debug)]
pub enum FlashStage {
    /// Waiting for the first look at the disks.
    AwaitingDisks,
    /// Waiting for the preparation step `steps[next]`.
    Preparing { steps: Vec<PreparationStep>, next: usize },
    /// Waiting for the look at the disks after preparation.
    AwaitingRefresh,
    /// Waiting for the image to be written.
    Writing,
    /// Waiting for the written image to be verified.
    Verifying,
    /// Nothing more to do.
    Done,
}

/// A stage as plain values.
pub enum StageView {
    AwaitingDisks,
    Preparing { steps: Seq<MountView>, next: nat },
    AwaitingRefresh,
    Writing,
    Verifying,
    Done,
}

impl View for FlashStage {
    type V = StageView;

    open spec fn view(&self) -> StageView {
        match self {
            FlashStage::AwaitingDisks => StageView::AwaitingDisks,
            FlashStage::Preparing { steps, next } => StageView::Preparing {
                steps: step_views(steps@),
                next: *next as nat,
            },
            FlashStage::AwaitingRefresh => StageView::AwaitingRefresh,
            FlashStage::Writing => StageView::Writing,
            FlashStage::Verifying => StageView::Verifying,
            FlashStage::Done => StageView::Done,
        }
    }
}

/// The outside work that the workflow asks for next.
#[derive(Debug)]
pub enum FlashOperation {
    /// Look at the block devices of the system.
    DiscoverDisks,
    /// Carry out one preparation step.
    RunPreparation { step: PreparationStep },
    /// Write the image onto the target.
    WriteImage,
    /// Compare the target with the image.
    VerifyImage,
    /// Stop, with this result.
    Complete { result: Result<(), String> },
}

/// An operation as plain values.
pub enum OperationView {
    DiscoverDisks,
    RunPreparation { step: MountView },
    WriteImage,
    VerifyImage,
    Complete { result: Result<(), Seq<char>> },
}

/// The view of a result that carries a message on failure.
pub open spec fn result_view(r: Result<(), String>) -> Result<(), Seq<char>> {
    match r {
        Ok(()) => Ok(()),
        Err(e) => Err(e@),
    }
}

impl View for FlashOperation {
    type V = OperationView;

    open spec fn view(&self) -> OperationView {
        match self {
            FlashOperation::DiscoverDisks => OperationView::DiscoverDisks,
            FlashOperation::RunPreparation { step } => OperationView::RunPreparation { step: step@ },
            FlashOperation::WriteImage => OperationView::WriteImage,
            FlashOperation::VerifyImage => OperationView::VerifyImage,
            FlashOperation::Complete { result } => OperationView::Complete {
                result: result_view(*result),
            },
        }
    }
}

/// What the outside work gave back.
#[derive(Debug)]
pub enum FlashOutcome {
    DisksDiscovered { disks: Result<Vec<Disk>, String> },
    PreparationDone { result: Result<(), String> },
    WriteDone { result: Result<(), String> },
    VerifyDone { result: Result<(), String> },
}

/// What to report, and what to do next.
#[derive(Debug)]
pub struct FlashStep {
    pub events: Vec<FlashEvent>,
    pub operation: FlashOperation,
}

/// A step of the workflow as plain values.
pub struct StepView {
    pub stage: StageView,
    pub events: Seq<FlashEventView>,
    pub operation: OperationView,
}

/// Whether the workflow, at `stage`, is waiting for this kind of outcome.
pub open spec fn awaits(stage: StageView, outcome: FlashOutcome) -> bool {
    match stage {
        StageView::AwaitingDisks => outcome is DisksDiscovered,
        StageView::Preparing { steps, next } => outcome is PreparationDone && next < steps.len(),
        StageView::AwaitingRefresh => outcome is DisksDiscovered,
        StageView::Writing => outcome is WriteDone,
        StageView::Verifying => outcome is VerifyDone,
        StageView::Done => false,
    }
}

/// `i` is the position of the first disk whose path is `path`.
pub open spec fn is_first_with_path(disks: Seq<Disk>, path: Seq<char>, i: int) -> bool {
    &&& 0 <= i < disks.len()
    &&& disks[i].path@ == path
    &&& forall|j: int| 0 <= j < i ==> disks[j].path@ != path
}

/// The position of the first disk whose path is `path`, if any.
pub open spec fn target_index(disks: Seq<Disk>, path: Seq<char>) -> Option<int> {
    if exists|i: int| is_first_with_path(disks, path, i) {
        Some(choose|i: int| is_first_with_path(disks, path, i))
    } else {
        None
    }
}

/// The decisions under which the plan's execution mode lets the target be
/// written, after preparation where there are mounted filesystems to
/// unmount.
pub open spec fn allows_writing(decision: FlashDecision) -> bool {
    !(execution_mode_for(decision) is Blocked)
}

/// The model text of a disk, as its label shows it.
pub open spec fn model_text(disk: Disk) -> Seq<char> {
    match disk.model {
        Some(m) => m@,
        None => "unknown model"@,
    }
}

/// A step that ends the workflow with `result` and reports `events`.
pub open spec fn finish(events: Seq<FlashEventView>, result: Result<(), Seq<char>>) -> StepView {
    StepView {
        stage: StageView::Done,
        events,
        operation: OperationView::Complete { result },
    }
}

/// The step after the target `disk` was found on the first look: report the
/// plan; stop if the target cannot be written; else unmount what is mounted
/// from it, one step at a time, then look at the disks again.
pub open spec fn after_target_found(request: FlashRequest, disk: Disk) -> StepView {
    let decision = disk.decision_for(Some(request.image.size_bytes));
    let built = FlashEventView::PlanBuilt {
        target_path: disk.path@,
        target_model: model_text(disk),
        target_size_bytes: disk.size_bytes,
        decision,
        execution_mode: execution_mode_for(decision),
        verify_after_write: request.verify_after_write,
    };
    if !allows_writing(decision) {
        finish(seq![built], Err("this target is not writable in its current state"@))
    } else if disk.mounts().len() == 0 {
        StepView {
            stage: StageView::AwaitingRefresh,
            events: seq![built],
            operation: OperationView::DiscoverDisks,
        }
    } else {
        let first = disk.mounts()[0];
        StepView {
            stage: StageView::Preparing { steps: disk.mounts(), next: 0 },
            events: seq![
                built,
                FlashEventView::Preparing {
                    step_label: unmount_label(first.device_path, first.mountpoint),
                },
            ],
            operation: OperationView::RunPreparation { step: first },
        }
    }
}

/// The step after the second look found the target `disk`: write only if it
/// is now ready to flash.
pub open spec fn after_refresh(request: FlashRequest, disk: Disk) -> StepView {
    let decision = disk.decision_for(Some(request.image.size_bytes));
    if decision != FlashDecision::ReadyToFlash {
        finish(
            Seq::empty(),
            Err("target is still not ready after preparation: "@ + decision_label(decision)),
        )
    } else {
        StepView {
            stage: StageView::Writing,
            events: Seq::empty(),
            operation: OperationView::WriteImage,
        }
    }
}

/// The whole transition: from the stage and what the outside work gave
/// back, the next stage, the events to report and the next operation. Any
/// failure of outside work ends the workflow with that failure's message.
pub open spec fn transition(request: FlashRequest, stage: StageView, outcome: FlashOutcome) -> StepView {
    match (stage, outcome) {
        (StageView::AwaitingDisks, FlashOutcome::DisksDiscovered { disks }) => match disks {
            Err(e) => finish(Seq::empty(), Err(e@)),
            Ok(ds) => match target_index(ds@, request.target_path@) {
                None => finish(
                    Seq::empty(),
                    Err("target device was not found by Flashbang: "@ + request.target_path@),
                ),
                Some(i) => after_target_found(request, ds@[i]),
            },
        },
        (StageView::Preparing { steps, next }, FlashOutcome::PreparationDone { result }) => match result {
            Err(e) => finish(Seq::empty(), Err(e@)),
            Ok(()) => if next + 1 < steps.len() {
                let step = steps[(next + 1) as int];
                StepView {
                    stage: StageView::Preparing { steps, next: next + 1 },
                    events: seq![
                        FlashEventView::Preparing {
                            step_label: unmount_label(step.device_path, step.mountpoint),
                        },
                    ],
                    operation: OperationView::RunPreparation { step },
                }
            } else {
                StepView {
                    stage: StageView::AwaitingRefresh,
                    events: seq![FlashEventView::PreparationFinished],
                    operation: OperationView::DiscoverDisks,
                }
            },
        },
        (StageView::AwaitingRefresh, FlashOutcome::DisksDiscovered { disks }) => match disks {
            Err(e) => finish(Seq::empty(), Err(e@)),
            Ok(ds) => match target_index(ds@, request.target_path@) {
                None => finish(
                    Seq::empty(),
                    Err("target disappeared after preparation: "@ + request.target_path@),
                ),
                Some(i) => after_refresh(request, ds@[i]),
            },
        },
        (StageView::Writing, FlashOutcome::WriteDone { result }) => match result {
            Err(e) => finish(Seq::empty(), Err(e@)),
            Ok(()) => if request.verify_after_write {
                StepView {
                    stage: StageView::Verifying,
                    events: seq![FlashEventView::WriteFinished],
                    operation: OperationView::VerifyImage,
                }
            } else {
                finish(seq![FlashEventView::WriteFinished, FlashEventView::Finished], Ok(()))
            },
        },
        (StageView::Verifying, FlashOutcome::VerifyDone { result }) => match result {
            Err(e) => finish(Seq::empty(), Err(e@)),
            Ok(()) => finish(seq![FlashEventView::VerifyFinished, FlashEventView::Finished], Ok(())),
        },
        // Outcomes that the stage does not wait for: `advance` never sees them.
        _ => finish(Seq::empty(), Ok(())),
    }
}

/// The view of a step together with the stage it leads to.
pub open spec fn step_view(stage: FlashStage, step: FlashStep) -> StepView {
    StepView { stage: stage@, events: event_views(step.events@), operation: step.operation@ }
}

/// How a workflow starts: it asks for a look at the disks and waits for it.
pub fn start() -> (r: (FlashStage, FlashOperation))
    ensures
        r.0@ == StageView::AwaitingDisks,
        r.1@ == OperationView::DiscoverDisks,
{
    (FlashStage::AwaitingDisks, FlashOperation::DiscoverDisks)
}

/// Whether the workflow, at `stage`, is waiting for this kind of outcome.
pub fn awaits_outcome(stage: &FlashStage, outcome: &FlashOutcome) -> (r: bool)
    ensures
        r == awaits(stage@, *outcome),
{
    match (stage, outcome) {
        (FlashStage::AwaitingDisks, FlashOutcome::DisksDiscovered { .. }) => true,
        (FlashStage::Preparing { steps, next }, FlashOutcome::PreparationDone { .. }) => *next
            < steps.len(),
        (FlashStage::AwaitingRefresh, FlashOutcome::DisksDiscovered { .. }) => true,
        (FlashStage::Writing, FlashOutcome::WriteDone { .. }) => true,
        (FlashStage::Verifying, FlashOutcome::VerifyDone { .. }) => true,
        _ => false,
    }
}

/// The position of the first disk at `path`, if any.
fn find_target(disks: &Vec<Disk>, path: &String) -> (r: Option<usize>)
    ensures
        match r {
            Some(i) => target_index(disks@, path@) == Some(i as int),
            None => target_index(disks@, path@) is None,
        },
{
    let mut i: usize = 0;
    while i < disks.len()
        invariant
            i <= disks.len(),
            forall|j: int| 0 <= j < i ==> disks@[j].path@ != path@,
        decreases disks.len() - i,
    {
        if disks[i].path == *path {
            assert(is_first_with_path(disks@, path@, i as int));
            let ghost c: int = choose|c: int| is_first_with_path(disks@, path@, c);
            assert(c == i as int) by {
                if c < i as int {
                    assert(disks@[c].path@ != path@);
                } else if c > i as int {
                    assert(disks@[i as int].path@ != path@);
                }
            }
            return Some(i);
        }
        i = i + 1;
    }
    assert(!exists|c: int| is_first_with_path(disks@, path@, c));
    None
}

/// A message: `prefix` followed by `rest`.
fn message(prefix: &str, rest: &str) -> (r: String)
    ensures
        r@ == prefix@ + rest@,
{
    let mut text = prefix.to_string();
    text.append(rest);
    text
}

/// A copy of a preparation step.
fn copy_step(step: &PreparationStep) -> (r: PreparationStep)
    ensures
        r@ == step@,
{
    match step {
        PreparationStep::Unmount { device_path, mountpoint } => PreparationStep::Unmount {
            device_path: device_path.clone(),
            mountpoint: mountpoint.clone(),
        },
    }
}

/// A step that ends the workflow with `result`, reporting nothing.
fn finish_with(result: Result<(), String>) -> (r: (FlashStage, FlashStep))
    ensures
        step_view(r.0, r.1) == finish(Seq::empty(), result_view(result)),
{
    let events: Vec<FlashEvent> = Vec::new();
    assert(event_views(events@) == Seq::<FlashEventView>::empty());
    (FlashStage::Done, FlashStep { events, operation: FlashOperation::Complete { result } })
}

/// The first look at the disks, with the target found at `disk`.
fn plan_target(request: &FlashRequest, disk: &Disk) -> (r: (FlashStage, FlashStep))
    ensures
        step_view(r.0, r.1) == after_target_found(*request, *disk),
{
    let plan = build_write_plan(&request.image, disk);
    let decision = plan.decision;
    let execution_mode = plan.execution_mode;
    let steps = plan.preparation_steps;
    let built = FlashEvent::PlanBuilt {
        target_path: plan.target_path,
        target_model: plan.target_model,
        target_size_bytes: plan.target_size_bytes,
        decision,
        execution_mode,
        verify_after_write: request.verify_after_write,
    };
    let mut events: Vec<FlashEvent> = Vec::new();
    events.push(built);
    if !execution_mode.can_eventually_write() {
        let operation = FlashOperation::Complete {
            result: Err("this target is not writable in its current state".to_string()),
        };
        assert(event_views(events@) == seq![events@[0]@]);
        return (FlashStage::Done, FlashStep { events, operation });
    }
    if steps.len() == 0 {
        assert(event_views(events@) == seq![events@[0]@]);
        return (FlashStage::AwaitingRefresh, FlashStep { events, operation: FlashOperation::DiscoverDisks });
    }
    assert(steps@[0]@ == step_views(steps@)[0]);
    let label = steps[0].label();
    events.push(FlashEvent::Preparing { step_label: label });
    let step = copy_step(&steps[0]);
    assert(event_views(events@) == seq![events@[0]@, events@[1]@]);
    (
        FlashStage::Preparing { steps, next: 0 },
        FlashStep { events, operation: FlashOperation::RunPreparation { step } },
    )
}

/// The look at the disks after preparation, with the target found at `disk`.
fn check_refreshed(request: &FlashRequest, disk: &Disk) -> (r: (FlashStage, FlashStep))
    ensures
        step_view(r.0, r.1) == after_refresh(*request, *disk),
{
    let decision = disk.flash_decision(Some(request.image.size_bytes));
    if decision != FlashDecision::ReadyToFlash {
        return finish_with(
            Err(message("target is still not ready after preparation: ", decision.label())),
        );
    }
    let events: Vec<FlashEvent> = Vec::new();
    assert(event_views(events@) == Seq::<FlashEventView>::empty());
    (FlashStage::Writing, FlashStep { events, operation: FlashOperation::WriteImage })
}

/// The next step of the workflow for `request`, at `stage`, given what the
/// outside work it asked for gave back.
pub fn advance(request: &FlashRequest, stage: FlashStage, outcome: FlashOutcome) -> (r: (
    FlashStage,
    FlashStep,
))
    requires
        awaits(stage@, outcome),
    ensures
        step_view(r.0, r.1) == transition(*request, stage@, outcome),
{
    let ghost sv = stage@;
    let ghost ov = outcome;
    match (stage, outcome) {
        (FlashStage::AwaitingDisks, FlashOutcome::DisksDiscovered { disks }) => match disks {
            Err(e) => finish_with(Err(e)),
            Ok(ds) => match find_target(&ds, &request.target_path) {
                None => finish_with(
                    Err(
                        message(
                            "target device was not found by Flashbang: ",
                            request.target_path.as_str(),
                        ),
                    ),
                ),
                Some(i) => plan_target(request, &ds[i]),
            },
        },
        (FlashStage::Preparing { steps, next }, FlashOutcome::PreparationDone { result }) => {
            match result {
                Err(e) => finish_with(Err(e)),
                Ok(()) => {
                    assert(step_views(steps@).len() == steps@.len());
                    assert(awaits(sv, ov));
                    assert(next < steps.len());
                    if next + 1 < steps.len() {
                        let following: usize = next + 1;
                        assert(steps@[following as int]@ == step_views(steps@)[following as int]);
                        let label = steps[following].label();
                        let step = copy_step(&steps[following]);
                        let mut events: Vec<FlashEvent> = Vec::new();
                        events.push(FlashEvent::Preparing { step_label: label });
                        assert(event_views(events@) == seq![events@[0]@]);
                        (
                            FlashStage::Preparing { steps, next: following },
                            FlashStep { events, operation: FlashOperation::RunPreparation { step } },
                        )
                    } else {
                        let mut events: Vec<FlashEvent> = Vec::new();
                        events.push(FlashEvent::PreparationFinished);
                        assert(event_views(events@) == seq![events@[0]@]);
                        (
                            FlashStage::AwaitingRefresh,
                            FlashStep { events, operation: FlashOperation::DiscoverDisks },
                        )
                    }
                },
            }
        },
        (FlashStage::AwaitingRefresh, FlashOutcome::DisksDiscovered { disks }) => match disks {
            Err(e) => finish_with(Err(e)),
            Ok(ds) => match find_target(&ds, &request.target_path) {
                None => finish_with(
                    Err(
                        message(
                            "target disappeared after preparation: ",
                            request.target_path.as_str(),
                        ),
                    ),
                ),
                Some(i) => check_refreshed(request, &ds[i]),
            },
        },
        (FlashStage::Writing, FlashOutcome::WriteDone { result }) => match result {
            Err(e) => finish_with(Err(e)),
            Ok(()) => {
                let mut events: Vec<FlashEvent> = Vec::new();
                events.push(FlashEvent::WriteFinished);
                if request.verify_after_write {
                    assert(event_views(events@) == seq![events@[0]@]);
                    (FlashStage::Verifying, FlashStep { events, operation: FlashOperation::VerifyImage })
                } else {
                    events.push(FlashEvent::Finished);
                    assert(event_views(events@) == seq![events@[0]@, events@[1]@]);
                    (
                        FlashStage::Done,
                        FlashStep { events, operation: FlashOperation::Complete { result: Ok(()) } },
                    )
                }
            },
        },
        (FlashStage::Verifying, FlashOutcome::VerifyDone { result }) => match result {
            Err(e) => finish_with(Err(e)),
            Ok(()) => {
                let mut events: Vec<FlashEvent> = Vec::new();
                events.push(FlashEvent::VerifyFinished);
                events.push(FlashEvent::Finished);
                assert(event_views(events@) == seq![events@[0]@, events@[1]@]);
                (
                    FlashStage::Done,
                    FlashStep { events, operation: FlashOperation::Complete { result: Ok(()) } },
                )
            },
        },
        _ => {
            assert(!awaits(sv, ov));
            finish_with(Ok(()))
        },
    }
}

/// The image is written only right after a fresh look at the disks found
/// the target, and only if that target is then removable, not read-only,
/// large enough for the image and has nothing mounted.
pub proof fn lemma_write_only_onto_ready_target(
    request: FlashRequest,
    stage: StageView,
    outcome: FlashOutcome,
)
    requires
        awaits(stage, outcome),
    ensures
        transition(request, stage, outcome).operation is WriteImage ==> {
            &&& stage is AwaitingRefresh
            &&& outcome matches FlashOutcome::DisksDiscovered { disks: Ok(ds) }
            &&& target_index(ds@, request.target_path@) matches Some(i)
            &&& ds@[i].path@ == request.target_path@
            &&& ds@[i].removable
            &&& !ds@[i].read_only
            &&& request.image.size_bytes <= ds@[i].size_bytes
            &&& ds@[i].mounts().len() == 0
        },
        transition(request, stage, outcome).operation is WriteImage ==> transition(
            request,
            stage,
            outcome,
        ).stage is Writing,
{
    match (stage, outcome) {
        (StageView::AwaitingRefresh, FlashOutcome::DisksDiscovered { disks: Ok(ds) }) => {
            if let Some(i) = target_index(ds@, request.target_path@) {
                assert(is_first_with_path(ds@, request.target_path@, i));
            }
        },
        (StageView::AwaitingDisks, FlashOutcome::DisksDiscovered { disks: Ok(ds) }) => {},
        _ => {},
    }
}

/// Only filesystems mounted from the target are unmounted, one at a time in
/// the order of the plan: the first look at the disks starts with the first
/// of the target's mounted filesystems, and each finished step moves on to
/// the next.
pub proof fn lemma_unmounts_follow_the_plan(request: FlashRequest, stage: StageView, outcome: FlashOutcome)
    requires
        awaits(stage, outcome),
    ensures
        transition(request, stage, outcome).operation is RunPreparation ==> {
            &&& transition(request, stage, outcome).stage is Preparing
            &&& transition(request, stage, outcome).stage->next < transition(
                request,
                stage,
                outcome,
            ).stage->steps.len()
            &&& transition(request, stage, outcome).stage->steps[transition(
                request,
                stage,
                outcome,
            ).stage->next as int] == transition(request, stage, outcome).operation->step
        },
        (stage is AwaitingDisks && transition(request, stage, outcome).stage is Preparing) ==> {
            &&& transition(request, stage, outcome).stage->next == 0
            &&& outcome matches FlashOutcome::DisksDiscovered { disks: Ok(ds) }
            &&& target_index(ds@, request.target_path@) matches Some(i)
            &&& transition(request, stage, outcome).stage->steps == ds@[i].mounts()
        },
        (stage is Preparing && transition(request, stage, outcome).stage is Preparing) ==> {
            &&& transition(request, stage, outcome).stage->steps == stage->steps
            &&& transition(request, stage, outcome).stage->next == stage->next + 1
        },
{
}

/// Verification runs only when the request asks for it, and a successful
/// write is always followed by verification when it does.
pub proof fn lemma_verify_exactly_on_request(request: FlashRequest, stage: StageView, outcome: FlashOutcome)
    requires
        awaits(stage, outcome),
    ensures
        transition(request, stage, outcome).operation is VerifyImage ==> request.verify_after_write,
        (stage is Writing && outcome == (FlashOutcome::WriteDone { result: Ok(()) })) ==> (
        transition(request, stage, outcome).operation is VerifyImage) == request.verify_after_write,
{
}

/// The workflow reports `Finished` exactly when it ends in success, and it
/// ends in success only after the image was written (and verified, where
/// that was asked for).
pub proof fn lemma_finished_exactly_on_success(request: FlashRequest, stage: StageView, outcome: FlashOutcome)
    requires
        awaits(stage, outcome),
    ensures
        transition(request, stage, outcome).events.contains(FlashEventView::Finished) == (transition(
            request,
            stage,
            outcome,
        ).operation == OperationView::Complete { result: Ok(()) }),
        transition(request, stage, outcome).operation == (OperationView::Complete { result: Ok(()) })
            ==> (stage is Writing && !request.verify_after_write) || stage is Verifying,
{
    let t = transition(request, stage, outcome);
    match (stage, outcome) {
        (StageView::AwaitingDisks, FlashOutcome::DisksDiscovered { disks: Ok(ds) }) => {
            match target_index(ds@, request.target_path@) {
                Some(i) => {
                    if t.events.contains(FlashEventView::Finished) {
                        let k: int = choose|k: int| 0 <= k < t.events.len() && t.events[k] == FlashEventView::Finished;
                        assert(k == 0 || k == 1);
                    }
                },
                None => {},
            }
        },
        (StageView::Preparing { steps, next }, FlashOutcome::PreparationDone { result: Ok(()) }) => {
            if t.events.contains(FlashEventView::Finished) {
                let k: int = choose|k: int| 0 <= k < t.events.len() && t.events[k] == FlashEventView::Finished;
                assert(k == 0);
            }
        },
        (StageView::Writing, FlashOutcome::WriteDone { result: Ok(()) }) => {
            if !request.verify_after_write {
                assert(t.events[1] == FlashEventView::Finished);
            } else if t.events.contains(FlashEventView::Finished) {
                let k: int = choose|k: int| 0 <= k < t.events.len() && t.events[k] == FlashEventView::Finished;
                assert(k == 0);
            }
        },
        (StageView::Verifying, FlashOutcome::VerifyDone { result: Ok(()) }) => {
            assert(t.events[1] == FlashEventView::Finished);
        },
        _ => {},
    }
}

/// Any failure of outside work ends the workflow with that failure's
/// message, reporting nothing more.
pub proof fn lemma_failures_end_the_workflow(
    request: FlashRequest,
    stage: StageView,
    outcome: FlashOutcome,
    message: String,
)
    requires
        awaits(stage, outcome),
        match outcome {
            FlashOutcome::DisksDiscovered { disks } => disks == Err::<Vec<Disk>, String>(message),
            FlashOutcome::PreparationDone { result } => result == Err::<(), String>(message),
            FlashOutcome::WriteDone { result } => result == Err::<(), String>(message),
            FlashOutcome::VerifyDone { result } => result == Err::<(), String>(message),
        },
    ensures
        transition(request, stage, outcome) == finish(Seq::empty(), Err(message@)),
{
}

/// The first look at the disks reports the plan for the target before
/// anything else, with the target's decision for the image.
pub proof fn lemma_plan_reported_first(request: FlashRequest, outcome: FlashOutcome)
    requires
        awaits(StageView::AwaitingDisks, outcome),
    ensures
        outcome matches FlashOutcome::DisksDiscovered { disks: Ok(ds) } ==> (target_index(
            ds@,
            request.target_path@,
        ) matches Some(i) ==> {
            let t = transition(request, StageView::AwaitingDisks, outcome);
            &&& t.events.len() > 0
            &&& t.events[0] == FlashEventView::PlanBuilt {
                target_path: ds@[i].path@,
                target_model: model_text(ds@[i]),
                target_size_bytes: ds@[i].size_bytes,
                decision: ds@[i].decision_for(Some(request.image.size_bytes)),
                execution_mode: execution_mode_for(ds@[i].decision_for(Some(request.image.size_bytes))),
                verify_after_write: request.verify_after_write,
            }
            &&& !allows_writing(ds@[i].decision_for(Some(request.image.size_bytes))) ==> t.operation
                == OperationView::Complete {
                result: Err("this target is not writable in its current state"@),
            }
        }),
{
    if let FlashOutcome::DisksDiscovered { disks: Ok(ds) } = outcome {
        if let Some(i) = target_index(ds@, request.target_path@) {
            let t = transition(request, StageView::AwaitingDisks, outcome);
            assert(t == after_target_found(request, ds@[i]));
        }
    }
}

/// A stage that the workflow can be in: a preparation stage has a step to
/// wait for.
pub open spec fn stage_well_formed(stage: StageView) -> bool {
    stage matches StageView::Preparing { steps, next } ==> next < steps.len()
}

/// Every step leads to a well-formed stage, and a finished workflow waits
/// for nothing.
pub proof fn lemma_stages_stay_well_formed(request: FlashRequest, stage: StageView, outcome: FlashOutcome)
    requires
        awaits(stage, outcome),
    ensures
        stage_well_formed(transition(request, stage, outcome).stage),
        transition(request, stage, outcome).operation is Complete <==> transition(
            request,
            stage,
            outcome,
        ).stage is Done,
        forall|o: FlashOutcome| !awaits(StageView::Done, o),
{
}

/// How far a stage is from the end: its place in the order of the
/// workflow, and within the preparation, the steps still to run.
pub open spec fn stage_rank(stage: StageView) -> (nat, nat) {
    match stage {
        StageView::AwaitingDisks => (5, 0),
        StageView::Preparing { steps, next } => (4, (steps.len() - next) as nat),
        StageView::AwaitingRefresh => (3, 0),
        StageView::Writing => (2, 0),
        StageView::Verifying => (1, 0),
        StageView::Done => (0, 0),
    }
}

/// `later` comes strictly after `earlier` in the workflow.
pub open spec fn closer_to_end(later: (nat, nat), earlier: (nat, nat)) -> bool {
    later.0 < earlier.0 || (later.0 == earlier.0 && later.1 < earlier.1)
}

/// The workflow never goes back: every step moves it strictly closer to
/// its end, so it asks for at most four operations besides one per
/// preparation step.
pub proof fn lemma_every_step_moves_forward(request: FlashRequest, stage: StageView, outcome: FlashOutcome)
    requires
        awaits(stage, outcome),
    ensures
        closer_to_end(stage_rank(transition(request, stage, outcome).stage), stage_rank(stage)),
{
}

} // verus!
