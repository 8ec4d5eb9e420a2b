use tuxscaling::display::presenter::PresenterWindow;
use tuxscaling::display::{Monitor, Rect};
use tuxscaling::layer::state::{
    presenter_ownership_transition, Devices, Layer, PresenterAvailability, PresenterFallbackReason,
    PresenterOwnershipEvent, PresenterOwnershipState, PresenterState, Presenters, QueueState,
};

#[test]
fn presenter_ownership_covers_creation_replacement_and_shutdown() {
    let mut state = PresenterOwnershipState::Absent;

    state = presenter_ownership_transition(state, PresenterOwnershipEvent::WindowCreated);
    assert_eq!(state, PresenterOwnershipState::WindowOwned);
    state = presenter_ownership_transition(state, PresenterOwnershipEvent::SurfaceCreated);
    assert_eq!(state, PresenterOwnershipState::SurfaceOwned);
    state = presenter_ownership_transition(state, PresenterOwnershipEvent::SwapchainCreated);
    assert_eq!(state, PresenterOwnershipState::SwapchainOwned);
    state = presenter_ownership_transition(state, PresenterOwnershipEvent::SwapchainReplaced);
    assert_eq!(state, PresenterOwnershipState::SwapchainOwned);
    state = presenter_ownership_transition(
        state,
        PresenterOwnershipEvent::OriginalSurfaceDestroyed,
    );
    assert_eq!(state, PresenterOwnershipState::Destroyed);
    state = presenter_ownership_transition(state, PresenterOwnershipEvent::InstanceDestroyed);
    assert_eq!(state, PresenterOwnershipState::Destroyed);
}

#[test]
fn presenter_creation_failure_rolls_back_window_and_surface_ownership() {
    assert_eq!(
        presenter_ownership_transition(
            PresenterOwnershipState::WindowOwned,
            PresenterOwnershipEvent::CreationFailed,
        ),
        PresenterOwnershipState::RolledBack
    );
    assert_eq!(
        presenter_ownership_transition(
            PresenterOwnershipState::SurfaceOwned,
            PresenterOwnershipEvent::CreationFailed,
        ),
        PresenterOwnershipState::RolledBack
    );
    assert_eq!(
        presenter_ownership_transition(
            PresenterOwnershipState::RolledBack,
            PresenterOwnershipEvent::WindowCreated,
        ),
        PresenterOwnershipState::RolledBack
    );
}

#[test]
fn device_and_instance_destruction_release_any_remaining_presenter_owner() {
    assert_eq!(
        presenter_ownership_transition(
            PresenterOwnershipState::SurfaceOwned,
            PresenterOwnershipEvent::DeviceDestroyed,
        ),
        PresenterOwnershipState::Destroyed
    );
    assert_eq!(
        presenter_ownership_transition(
            PresenterOwnershipState::WindowOwned,
            PresenterOwnershipEvent::InstanceDestroyed,
        ),
        PresenterOwnershipState::Destroyed
    );
}

#[test]
fn presenter_shutdown_is_idempotent_and_preserves_surface_before_window_order() {
    let state = PresenterOwnershipState::SwapchainOwned;
    let state = presenter_ownership_transition(
        state,
        PresenterOwnershipEvent::PhysicalSwapchainDestroyed,
    );
    assert_eq!(state, PresenterOwnershipState::SurfaceOwned);
    let state = presenter_ownership_transition(
        state,
        PresenterOwnershipEvent::PresenterSurfaceDestroyed,
    );
    assert_eq!(state, PresenterOwnershipState::WindowOwned);
    let state = presenter_ownership_transition(
        state,
        PresenterOwnershipEvent::PresenterWindowDestroyed,
    );
    assert_eq!(state, PresenterOwnershipState::Destroyed);
    assert_eq!(
        presenter_ownership_transition(
            state,
            PresenterOwnershipEvent::PresenterWindowDestroyed,
        ),
        PresenterOwnershipState::Destroyed
    );
}

#[test]
fn retired_logical_tokens_are_explicitly_rejected() {
    let mut layer = Layer::new();
    let token = 0x8000_0000_0000_0055;

    assert!(!layer.is_retired_swapchain(token));
    layer.retire_swapchain(token);
    assert!(layer.is_retired_swapchain(token));
}

#[test]
fn presenters_say_why_they_are_missing() {
    let available = PresenterAvailability::available();
    assert!(available.enabled);
    assert_eq!(available.fallback_reason, None);

    let reason = PresenterFallbackReason::MissingXcbSurfaceExtension;
    let missing = PresenterAvailability::unavailable(reason);
    assert!(!missing.enabled);
    assert_eq!(missing.fallback_reason, Some(reason));
    assert_eq!(reason.as_str(), "missing_vk_khr_xcb_surface");
    assert_eq!(
        PresenterFallbackReason::InstanceMismatch.as_str(),
        "presenter_instance_mismatch"
    );
}

#[test]
fn only_queues_without_creation_flags_are_processed() {
    let mut devices = Devices::new();
    devices.register_queue(7, 1, Some(70), 0);
    devices.register_queue(7, 2, Some(71), 1);
    devices.register_queue(8, 0, Some(80), 0);
    devices.register_queue(8, 0, None, 0);

    assert_eq!(
        devices.queues.get(70),
        Some(&QueueState {
            device: 7,
            family_index: 1,
            processing_allowed: true,
        })
    );
    assert!(!devices.queues.get(71).unwrap().processing_allowed);

    devices.forget(7);
    assert!(devices.queues.get(70).is_none());
    assert!(devices.queues.get(71).is_none());
    assert!(devices.queues.get(80).is_some());
}

#[test]
fn one_recreation_at_a_time_holds_a_surface() {
    let mut layer = Layer::new();

    assert!(layer.begin_surface_recreation(4));
    assert!(!layer.begin_surface_recreation(4));
    assert!(layer.begin_surface_recreation(5));
    layer.end_surface_recreation(4);
    assert!(layer.begin_surface_recreation(4));
}

#[test]
fn only_reserved_handles_that_nobody_tracks_are_unknown() {
    let layer = Layer::new();

    assert!(layer.is_unknown_logical_swapchain(0x8000_0000_0000_0001));
    assert!(!layer.is_unknown_logical_swapchain(1));
    assert!(!layer.is_reconfiguring_swapchain(1));
}

#[test]
fn a_fallback_is_reported_once_for_each_surface_and_reason() {
    let mut presenters = Presenters::new();
    let reason = PresenterFallbackReason::PresenterWindowUnavailable;
    assert!(presenters.record_presenter_fallback(6, reason));
    assert!(!presenters.record_presenter_fallback(6, reason));
    assert!(presenters.record_presenter_fallback(7, reason));
    assert!(presenters.record_presenter_fallback(6, PresenterFallbackReason::InstanceMismatch));
    assert!(!presenters.record_presenter_fallback(7, reason));
}

#[test]
fn a_presenter_is_found_by_the_surface_of_its_game() {
    let mut presenters = Presenters::new();
    let monitor = Monitor::new(Rect::new(0, 0, 1920, 1080));
    presenters.states.insert(
        6,
        PresenterState {
            window: PresenterWindow::new(7, 8, monitor),
            surface: 61,
            instance: 1,
            device: 5,
        },
    );
    assert_eq!(presenters.presenter_surface(6), Some(61));
    assert_eq!(presenters.presenter_surface(61), None);
}
