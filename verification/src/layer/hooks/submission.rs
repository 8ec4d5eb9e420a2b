//! Drawing the overlays of a present: all frames are prepared, then submitted
//! one after the other. What is done between two steps is done downstream.

use vstd::prelude::*;

use super::present_chain::listed;
use super::presentation::{frame_waits, plan_overlay, planned_frames, FramePlan, PresentInfo};
use crate::layer::state::{Devices, Layer, QueueState};
use crate::vk::{Handle, VkResult, NOT_READY};

verus! {

/// A frame that is ready to be submitted: which one, and the semaphore that
/// says that it is done.
#[derive(Debug, Clone, Copy, PartialEq, Eq, Structural)]
pub struct PreparedFrame {
    pub frame: usize,
    pub signal: Handle,
}

#[derive(Debug, Clone, Copy, PartialEq, Eq, Structural)]
pub enum SubmissionStage {
    /// The next frame is prepared as planned.
    Prepare,
    /// That failed, and the frame is only scaled.
    FallBack { reason: VkResult },
    /// That failed too, and the overlay is done without.
    Bypass,
    /// The next prepared frame is submitted.
    Submit,
    /// That failed, and nothing more is submitted.
    Stop,
    Done,
}

/// What is to be done next, and then answered.
#[derive(Debug, PartialEq, Eq)]
pub enum SubmissionAction {
    /// Prepare a frame; the answer is its semaphore.
    PrepareFrame { frame: usize, plan: FramePlan },
    /// Prepare a frame that only scales, for this reason; the answer is its
    /// semaphore.
    PrepareSpatial { frame: usize, plan: FramePlan, reason: VkResult },
    /// Disable the overlay of a swapchain.
    Disable { swapchain: Handle },
    /// Submit a prepared frame, which waits for these semaphores.
    Submit { frame: usize, swapchain: Handle, waits: Vec<Handle> },
    /// Nothing: this semaphore says that all that was submitted is done.
    Finish { handoff: Option<Handle> },
}

pub enum ActionModel {
    PrepareFrame(int, FramePlan),
    PrepareSpatial(int, FramePlan, VkResult),
    Disable(Handle),
    Submit(int, Handle, Seq<Handle>),
    Finish(Option<Handle>),
}

impl View for SubmissionAction {
    type V = ActionModel;

    open spec fn view(&self) -> ActionModel {
        match *self {
            SubmissionAction::PrepareFrame { frame, plan } => {
                ActionModel::PrepareFrame(frame as int, plan)
            },
            SubmissionAction::PrepareSpatial { frame, plan, reason } => {
                ActionModel::PrepareSpatial(frame as int, plan, reason)
            },
            SubmissionAction::Disable { swapchain } => ActionModel::Disable(swapchain),
            SubmissionAction::Submit { frame, swapchain, waits } => {
                ActionModel::Submit(frame as int, swapchain, waits@)
            },
            SubmissionAction::Finish { handoff } => ActionModel::Finish(handoff),
        }
    }
}

/// The frames of a present on their way to the queue.
#[derive(Debug)]
pub struct Submission {
    pub plans: Vec<FramePlan>,
    /// How many frames were prepared, or done without.
    pub at: usize,
    pub prepared: Vec<PreparedFrame>,
    /// How many of the prepared frames were submitted.
    pub sent: usize,
    pub stage: SubmissionStage,
}

#[verifier::ext_equal]
pub struct SubmissionModel {
    pub plans: Seq<FramePlan>,
    pub at: int,
    pub prepared: Seq<PreparedFrame>,
    pub sent: int,
    pub stage: SubmissionStage,
}

impl View for Submission {
    type V = SubmissionModel;

    open spec fn view(&self) -> SubmissionModel {
        SubmissionModel {
            plans: self.plans@,
            at: self.at as int,
            prepared: self.prepared@,
            sent: self.sent as int,
            stage: self.stage,
        }
    }
}

impl SubmissionModel {
    /// Frames are prepared in the order of the present, and none is submitted
    /// before all are prepared or done without.
    pub open spec fn wf(self) -> bool {
        &&& 0 <= self.at <= self.plans.len() <= usize::MAX
        &&& 0 <= self.sent <= self.prepared.len()
        &&& forall|i: int|
            0 <= i < self.prepared.len() ==> (#[trigger] self.prepared[i]).frame < self.at
        &&& forall|i: int, j: int|
            0 <= i < j < self.prepared.len() ==> (#[trigger] self.prepared[i]).frame < (
            #[trigger] self.prepared[j]).frame
        &&& match self.stage {
            SubmissionStage::Prepare
            | SubmissionStage::FallBack { .. }
            | SubmissionStage::Bypass => self.at < self.plans.len() && self.sent == 0,
            SubmissionStage::Submit | SubmissionStage::Stop => self.at == self.plans.len()
                && self.sent < self.prepared.len(),
            SubmissionStage::Done => self.at == self.plans.len(),
        }
    }

    pub open spec fn begun(plans: Seq<FramePlan>) -> SubmissionModel {
        SubmissionModel {
            plans,
            at: 0,
            prepared: Seq::empty(),
            sent: 0,
            stage: if plans.len() == 0 {
                SubmissionStage::Done
            } else {
                SubmissionStage::Prepare
            },
        }
    }

    /// The semaphore of the last frame that was submitted, if one was.
    pub open spec fn handoff(self) -> Option<Handle> {
        if self.sent == 0 {
            None
        } else {
            Some(self.prepared[self.sent - 1].signal)
        }
    }

    /// What is to be done at a stage. The first frame that is submitted waits
    /// for what the present waits for, every later one for the frame before it.
    pub open spec fn next_action(self, waits: Seq<Handle>) -> ActionModel {
        match self.stage {
            SubmissionStage::Prepare => if self.plans[self.at].spatial {
                ActionModel::PrepareSpatial(self.at, self.plans[self.at], NOT_READY)
            } else {
                ActionModel::PrepareFrame(self.at, self.plans[self.at])
            },
            SubmissionStage::FallBack { reason } => ActionModel::PrepareSpatial(
                self.at,
                self.plans[self.at],
                reason,
            ),
            SubmissionStage::Bypass => ActionModel::Disable(self.plans[self.at].swapchain),
            SubmissionStage::Submit => ActionModel::Submit(
                self.prepared[self.sent].frame as int,
                self.plans[self.prepared[self.sent].frame as int].swapchain,
                match self.handoff() {
                    Some(semaphore) => seq![semaphore],
                    None => waits,
                },
            ),
            SubmissionStage::Stop => ActionModel::Disable(
                self.plans[self.prepared[self.sent].frame as int].swapchain,
            ),
            SubmissionStage::Done => ActionModel::Finish(self.handoff()),
        }
    }

    /// The frame at hand is settled: on to the next, or to the submission of
    /// those that were prepared.
    pub open spec fn advanced(self) -> SubmissionModel {
        SubmissionModel {
            at: self.at + 1,
            stage: if self.at + 1 < self.plans.len() {
                SubmissionStage::Prepare
            } else if self.prepared.len() == 0 {
                SubmissionStage::Done
            } else {
                SubmissionStage::Submit
            },
            ..self
        }
    }

    pub open spec fn with_frame(self, signal: Handle) -> SubmissionModel {
        SubmissionModel {
            prepared: self.prepared.push(PreparedFrame { frame: self.at as usize, signal }),
            ..self
        }
    }

    /// What the answer to an action comes to. That an overlay was disabled needs
    /// no particular answer.
    pub open spec fn after(self, answer: Result<Handle, VkResult>) -> SubmissionModel {
        match (self.stage, answer) {
            (SubmissionStage::Prepare, Ok(signal)) => self.with_frame(signal).advanced(),
            (SubmissionStage::Prepare, Err(reason)) => SubmissionModel {
                stage: SubmissionStage::FallBack { reason },
                ..self
            },
            (SubmissionStage::FallBack { .. }, Ok(signal)) => self.with_frame(signal).advanced(),
            (SubmissionStage::FallBack { .. }, Err(_)) => SubmissionModel {
                stage: SubmissionStage::Bypass,
                ..self
            },
            (SubmissionStage::Bypass, _) => self.advanced(),
            (SubmissionStage::Submit, Ok(_)) => SubmissionModel {
                sent: self.sent + 1,
                stage: if self.sent + 1 < self.prepared.len() {
                    SubmissionStage::Submit
                } else {
                    SubmissionStage::Done
                },
                ..self
            },
            (SubmissionStage::Submit, Err(_)) => SubmissionModel {
                stage: SubmissionStage::Stop,
                ..self
            },
            (SubmissionStage::Stop, _) => SubmissionModel { stage: SubmissionStage::Done, ..self },
            (SubmissionStage::Done, _) => self,
        }
    }

    /// How many answers there can be at most.
    pub open spec fn left(self) -> int {
        match self.stage {
            SubmissionStage::Prepare => 6 * (self.plans.len() - self.at) + 2 * self.prepared.len()
                + 3,
            SubmissionStage::FallBack { .. } => 6 * (self.plans.len() - self.at) + 2
                * self.prepared.len() + 2,
            SubmissionStage::Bypass => 6 * (self.plans.len() - self.at) + 2 * self.prepared.len()
                + 1,
            SubmissionStage::Submit => 2 * (self.prepared.len() - self.sent) + 1,
            SubmissionStage::Stop => 1,
            SubmissionStage::Done => 0,
        }
    }
}

impl Submission {
    pub open spec fn wf(&self) -> bool {
        self@.wf()
    }

    pub fn new(plans: Vec<FramePlan>) -> (submission: Self)
        ensures
            submission.wf(),
            submission@ == SubmissionModel::begun(plans@),
    {
        let stage: SubmissionStage = if plans.len() == 0 {
            SubmissionStage::Done
        } else {
            SubmissionStage::Prepare
        };
        let submission: Submission = Submission {
            plans,
            at: 0,
            prepared: Vec::new(),
            sent: 0,
            stage,
        };
        assert(submission@.prepared =~= Seq::empty());
        submission
    }

    /// The semaphore that says that all that was submitted is done.
    pub fn handoff(&self) -> (handoff: Option<Handle>)
        requires
            self.wf(),
        ensures
            handoff == self@.handoff(),
    {
        if self.sent == 0 {
            None
        } else {
            Some(self.prepared[self.sent - 1].signal)
        }
    }

    /// What is to be done next.
    pub fn action(&self, info: &PresentInfo) -> (action: SubmissionAction)
        requires
            self.wf(),
        ensures
            action@ == self@.next_action(listed(info.wait_semaphores)),
    {
        match self.stage {
            SubmissionStage::Prepare => {
                let plan: FramePlan = self.plans[self.at];
                if plan.spatial {
                    SubmissionAction::PrepareSpatial { frame: self.at, plan, reason: NOT_READY }
                } else {
                    SubmissionAction::PrepareFrame { frame: self.at, plan }
                }
            },
            SubmissionStage::FallBack { reason } => SubmissionAction::PrepareSpatial {
                frame: self.at,
                plan: self.plans[self.at],
                reason,
            },
            SubmissionStage::Bypass => SubmissionAction::Disable {
                swapchain: self.plans[self.at].swapchain,
            },
            SubmissionStage::Submit => {
                let frame: usize = self.prepared[self.sent].frame;
                SubmissionAction::Submit {
                    frame,
                    swapchain: self.plans[frame].swapchain,
                    waits: frame_waits(info, self.handoff()),
                }
            },
            SubmissionStage::Stop => {
                let frame: usize = self.prepared[self.sent].frame;
                SubmissionAction::Disable { swapchain: self.plans[frame].swapchain }
            },
            SubmissionStage::Done => SubmissionAction::Finish { handoff: self.handoff() },
        }
    }

    fn advance(&mut self)
        requires
            old(self)@.at < old(self)@.plans.len() <= usize::MAX,
        ensures
            final(self)@ == old(self)@.advanced(),
    {
        self.at = self.at + 1;
        self.stage =
        if self.at < self.plans.len() {
            SubmissionStage::Prepare
        } else if self.prepared.len() == 0 {
            SubmissionStage::Done
        } else {
            SubmissionStage::Submit
        };
    }

    /// Takes the answer to the action at hand.
    pub fn frame_answered(&mut self, answer: Result<Handle, VkResult>)
        requires
            old(self).wf(),
        ensures
            final(self).wf(),
            final(self)@ == old(self)@.after(answer),
    {
        match self.stage {
            SubmissionStage::Prepare | SubmissionStage::FallBack { .. } => match answer {
                Ok(signal) => {
                    let frame: usize = self.at;
                    self.prepared.push(PreparedFrame { frame, signal });
                    self.advance();
                },
                Err(reason) => {
                    self.stage =
                    match self.stage {
                        SubmissionStage::Prepare => SubmissionStage::FallBack { reason },
                        _ => SubmissionStage::Bypass,
                    };
                },
            },
            SubmissionStage::Bypass => {
                self.advance();
            },
            SubmissionStage::Submit => {
                if answer.is_ok() {
                    let count: usize = self.prepared.len();
                    self.sent = self.sent + 1;
                    if self.sent == count {
                        self.stage = SubmissionStage::Done;
                    }
                } else {
                    self.stage = SubmissionStage::Stop;
                }
            },
            SubmissionStage::Stop => {
                self.stage = SubmissionStage::Done;
            },
            SubmissionStage::Done => {},
        }
    }
}

/// Begins to draw the overlays of a present.
pub fn submit_overlay(
    layer: &Layer,
    devices: &Devices,
    queue: QueueState,
    info: &PresentInfo,
) -> (submission: Submission)
    requires
        layer.wf(),
        devices.wf(),
        info.wf(),
    ensures
        submission.wf(),
        submission@ == SubmissionModel::begun(planned_frames(layer@, devices@, queue, *info)),
{
    Submission::new(plan_overlay(layer, devices, queue, info))
}

/// A submission comes to its end, however its actions are answered.
pub proof fn a_submission_ends(submission: SubmissionModel, answer: Result<Handle, VkResult>)
    requires
        submission.wf(),
    ensures
        submission.after(answer).wf(),
        submission.left() >= 0,
        submission.left() == 0 <==> submission.stage is Done,
        submission.left() > 0 ==> submission.after(answer).left() < submission.left(),
{
}

/// The handoff is the semaphore of the last frame that was submitted. Nothing
/// but a submission changes it, and a failed submission is the last.
pub proof fn the_handoff_follows_the_submitted_frames(
    submission: SubmissionModel,
    answer: Result<Handle, VkResult>,
)
    requires
        submission.wf(),
    ensures
        ({
            let after = submission.after(answer);
            if submission.stage is Submit && answer is Ok {
                after.handoff() == Some(submission.prepared[submission.sent].signal)
            } else {
                after.handoff() == submission.handoff()
            }
        }),
        submission.stage is Submit && answer is Err ==> forall|next: Result<Handle, VkResult>|
            (#[trigger] submission.after(answer).after(next)).stage is Done,
{
}

/// A frame is prepared as it was planned; one that cannot be is scaled instead,
/// for the reason that was given, and where that fails too the overlay is
/// disabled and the frame is done without.
pub proof fn a_frame_is_prepared_scaled_or_done_without(
    submission: SubmissionModel,
    signal: Handle,
    reason: VkResult,
    again: VkResult,
    waits: Seq<Handle>,
)
    requires
        submission.wf(),
        submission.stage == SubmissionStage::Prepare,
    ensures
        ({
            let plan = submission.plans[submission.at];
            let ready = submission.after(Ok(signal));
            let failed = submission.after(Err(reason));
            let scaled = failed.after(Ok(signal));
            let lost = failed.after(Err(again));
            let without = lost.after(Ok(signal));
            &&& submission.next_action(waits) == (if plan.spatial {
                ActionModel::PrepareSpatial(submission.at, plan, NOT_READY)
            } else {
                ActionModel::PrepareFrame(submission.at, plan)
            })
            &&& failed.next_action(waits) == ActionModel::PrepareSpatial(
                submission.at,
                plan,
                reason,
            )
            &&& lost.next_action(waits) == ActionModel::Disable(plan.swapchain)
            &&& ready.at == submission.at + 1
            &&& ready.prepared.len() == submission.prepared.len() + 1
            &&& ready.prepared.last().frame == submission.at
            &&& ready.prepared.last().signal == signal
            &&& ready.prepared.drop_last() == submission.prepared
            &&& scaled.at == submission.at + 1
            &&& scaled.prepared == ready.prepared
            &&& without.at == submission.at + 1
            &&& without.prepared == submission.prepared
            &&& without.sent == 0
        }),
        ({
            let without = submission.after(Err(reason)).after(Err(again)).after(Ok(signal));
            &&& submission.at + 1 < submission.plans.len() ==> without.stage
                == SubmissionStage::Prepare
            &&& submission.at + 1 == submission.plans.len() && submission.prepared.len() > 0
                ==> without.stage == SubmissionStage::Submit
            &&& submission.at + 1 == submission.plans.len() && submission.prepared.len() == 0
                ==> without.stage == SubmissionStage::Done
        }),
{
    assert(submission.after(Ok(signal)).prepared.drop_last() =~= submission.prepared);
}

/// Prepared frames are submitted one after the other. The first waits for what
/// the present waits for, each later one for the frame before it. The first that
/// cannot be submitted has its overlay disabled and ends the submission.
pub proof fn frames_are_submitted_one_after_the_other(
    submission: SubmissionModel,
    signal: Handle,
    error: VkResult,
    waits: Seq<Handle>,
)
    requires
        submission.wf(),
        submission.stage == SubmissionStage::Submit,
    ensures
        ({
            let frame = submission.prepared[submission.sent];
            let swapchain = submission.plans[frame.frame as int].swapchain;
            let sent = submission.after(Ok(signal));
            let failed = submission.after(Err(error));
            let ended = failed.after(Ok(signal));
            let handed = if submission.sent == 0 {
                None
            } else {
                Some(submission.prepared[submission.sent - 1].signal)
            };
            &&& submission.next_action(waits) == ActionModel::Submit(
                frame.frame as int,
                swapchain,
                if submission.sent == 0 {
                    waits
                } else {
                    seq![submission.prepared[submission.sent - 1].signal]
                },
            )
            &&& sent.sent == submission.sent + 1
            &&& sent.prepared == submission.prepared
            &&& sent.handoff() == Some(frame.signal)
            &&& sent.sent < sent.prepared.len() ==> sent.stage == SubmissionStage::Submit
            &&& sent.sent == sent.prepared.len() ==> sent.next_action(waits)
                == ActionModel::Finish(Some(frame.signal))
            &&& failed.next_action(waits) == ActionModel::Disable(swapchain)
            &&& failed.handoff() == handed
            &&& ended.next_action(waits) == ActionModel::Finish(handed)
        }),
{
}

/// A submission begins with its first frame, and with nothing prepared or
/// submitted; without frames there is nothing to do.
pub proof fn a_submission_begins_with_its_first_frame(
    plans: Seq<FramePlan>,
    waits: Seq<Handle>,
)
    ensures
        ({
            let begun = SubmissionModel::begun(plans);
            &&& begun.plans == plans
            &&& begun.at == 0
            &&& begun.sent == 0
            &&& begun.prepared.len() == 0
            &&& plans.len() == 0 ==> begun.next_action(waits) == ActionModel::Finish(None)
            &&& plans.len() > 0 ==> begun.stage == SubmissionStage::Prepare
        }),
{
}

} // verus!
