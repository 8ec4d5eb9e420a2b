use tuxscaling::layer::hooks::presentation::{FramePlan, PresentInfo};
use tuxscaling::layer::hooks::submission::{Submission, SubmissionAction, SubmissionStage};
use tuxscaling::vk::{ERROR_DEVICE_LOST, ERROR_INITIALIZATION_FAILED, NOT_READY};

fn plan(swapchain: u64, spatial: bool) -> FramePlan {
    FramePlan {
        swapchain,
        logical_index: 0,
        physical_index: 1,
        spatial,
    }
}

fn present(swapchains: Vec<u64>) -> PresentInfo {
    PresentInfo {
        swapchain_count: swapchains.len() as u32,
        image_indices: Some(vec![0; swapchains.len()]),
        swapchains: Some(swapchains),
        wait_semaphore_count: 2,
        wait_semaphores: Some(vec![70, 71]),
        chain: Vec::new(),
    }
}

#[test]
fn a_submission_without_frames_hands_nothing_over() {
    let submission = Submission::new(Vec::new());
    assert_eq!(
        submission.action(&present(Vec::new())),
        SubmissionAction::Finish { handoff: None }
    );
}

#[test]
fn frames_are_submitted_in_order_once_all_are_prepared() {
    let info = present(vec![4, 5]);
    let (first, second) = (plan(4, false), plan(5, true));
    let mut submission = Submission::new(vec![first, second]);

    assert_eq!(
        submission.action(&info),
        SubmissionAction::PrepareFrame {
            frame: 0,
            plan: first
        }
    );
    submission.frame_answered(Ok(90));
    assert_eq!(
        submission.action(&info),
        SubmissionAction::PrepareSpatial {
            frame: 1,
            plan: second,
            reason: NOT_READY
        }
    );
    submission.frame_answered(Ok(91));
    assert_eq!(submission.handoff(), None);

    assert_eq!(
        submission.action(&info),
        SubmissionAction::Submit {
            frame: 0,
            swapchain: 4,
            waits: vec![70, 71]
        }
    );
    submission.frame_answered(Ok(90));
    assert_eq!(submission.handoff(), Some(90));
    assert_eq!(
        submission.action(&info),
        SubmissionAction::Submit {
            frame: 1,
            swapchain: 5,
            waits: vec![90]
        }
    );
    submission.frame_answered(Ok(91));
    assert_eq!(
        submission.action(&info),
        SubmissionAction::Finish { handoff: Some(91) }
    );
    submission.frame_answered(Ok(0));
    assert_eq!(submission.stage, SubmissionStage::Done);
}

#[test]
fn a_frame_that_cannot_be_prepared_is_scaled_or_done_without() {
    let info = present(vec![4, 5]);
    let (first, second) = (plan(4, false), plan(5, true));
    let mut submission = Submission::new(vec![first, second]);

    submission.frame_answered(Err(ERROR_DEVICE_LOST));
    assert_eq!(
        submission.action(&info),
        SubmissionAction::PrepareSpatial {
            frame: 0,
            plan: first,
            reason: ERROR_DEVICE_LOST
        }
    );
    submission.frame_answered(Err(ERROR_INITIALIZATION_FAILED));
    assert_eq!(
        submission.action(&info),
        SubmissionAction::Disable { swapchain: 4 }
    );
    submission.frame_answered(Ok(0));

    submission.frame_answered(Err(ERROR_INITIALIZATION_FAILED));
    assert_eq!(
        submission.action(&info),
        SubmissionAction::PrepareSpatial {
            frame: 1,
            plan: second,
            reason: ERROR_INITIALIZATION_FAILED
        }
    );
    submission.frame_answered(Ok(91));
    assert_eq!(
        submission.action(&info),
        SubmissionAction::Submit {
            frame: 1,
            swapchain: 5,
            waits: vec![70, 71]
        }
    );
}

#[test]
fn when_nothing_can_be_prepared_nothing_is_submitted() {
    let info = present(vec![4]);
    let mut submission = Submission::new(vec![plan(4, false)]);

    submission.frame_answered(Err(ERROR_DEVICE_LOST));
    submission.frame_answered(Err(ERROR_DEVICE_LOST));
    submission.frame_answered(Ok(0));

    assert_eq!(
        submission.action(&info),
        SubmissionAction::Finish { handoff: None }
    );
}

#[test]
fn a_frame_that_cannot_be_submitted_ends_the_submission() {
    let info = present(vec![4, 5, 6]);
    let mut submission = Submission::new(vec![plan(4, false), plan(5, false), plan(6, false)]);
    for signal in [90, 91, 92] {
        submission.frame_answered(Ok(signal));
    }

    submission.frame_answered(Ok(90));
    submission.frame_answered(Err(ERROR_DEVICE_LOST));
    assert_eq!(
        submission.action(&info),
        SubmissionAction::Disable { swapchain: 5 }
    );
    submission.frame_answered(Ok(0));
    assert_eq!(
        submission.action(&info),
        SubmissionAction::Finish { handoff: Some(90) }
    );
}
