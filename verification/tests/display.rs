use tuxscaling::display::negotiation::{
    NegotiationFailure, PresentationNegotiation, PresentationState,
};
use tuxscaling::display::windows::{parent_relative_position, select_window_for_pid};
use tuxscaling::display::{
    select_monitor, BorderlessLease, DisplayError, DisplayTarget, Extent, Monitor, Rect,
    SurfaceExtent, WindowSnapshot, X11Window,
};

const SECOND: u64 = 1_000_000_000;

const START: u64 = 40 * SECOND;

#[test]
fn selects_the_monitor_containing_the_window_center() {
    let monitors = [
        Monitor::new(Rect::new(0, 0, 1920, 1080)),
        Monitor::new(Rect::new(1920, 0, 2560, 1440)),
    ];
    let window = Rect::new(1800, 100, 1200, 800);

    assert_eq!(select_monitor(window, &monitors), Some(monitors[1]));
}

#[test]
fn selects_the_largest_valid_window_for_process() {
    let windows = [
        (41, Some(7), Rect::new(0, 0, 1280, 720)),
        (42, Some(9), Rect::new(0, 0, 640, 480)),
        (43, Some(9), Rect::new(0, 0, 1280, 720)),
        (44, Some(9), Rect::new(0, 0, 0, 0)),
    ];

    assert_eq!(select_window_for_pid(&windows, 9), Some(43));
    assert_eq!(select_window_for_pid(&windows, 7), Some(41));
    assert_eq!(select_window_for_pid(&windows, 10), None);
}

#[test]
fn reparented_windows_configure_relative_to_their_parent_origin() {
    assert_eq!(parent_relative_position((652, 1440), (0, 0)), (652, 1440));
    assert_eq!(parent_relative_position((652, 1440), (652, 1479)), (0, -39));
    assert_eq!(parent_relative_position((-1920, 0), (-1920, 0)), (0, 0));
}

#[test]
fn selects_center_monitor_even_when_another_monitor_has_more_intersection() {
    let monitors = [
        Monitor::new(Rect::new(0, 0, 1920, 1080)),
        Monitor::new(Rect::new(1920, 0, 160, 200)),
    ];
    let window = Rect::new(0, 0, 4000, 100);

    assert_eq!(select_monitor(window, &monitors), Some(monitors[1]));
}

#[test]
fn selects_center_monitor_with_negative_origins() {
    let monitors = [
        Monitor::new(Rect::new(-1920, 0, 1920, 1080)),
        Monitor::new(Rect::new(0, 0, 1920, 1080)),
    ];
    let window = Rect::new(-1000, 100, 800, 600);

    assert_eq!(select_monitor(window, &monitors), Some(monitors[0]));
}

#[test]
fn negotiation_requires_exact_geometry_and_surface_extent_before_activation() {
    let target = Rect::new(0, 0, 1920, 1080);
    let mut negotiation = PresentationNegotiation::direct();
    let started = START;

    negotiation.request_borderless(target, started);
    negotiation.borderless_requested(started);
    assert_eq!(negotiation.public_state(), PresentationState::Negotiating);
    assert!(!negotiation.observe(
        Rect::new(0, 0, 1920, 1040),
        true,
        SurfaceExtent::fixed(Extent::new(1920, 1040)),
        started + SECOND,
    ));
    assert_eq!(negotiation.public_state(), PresentationState::Negotiating);

    assert!(!negotiation.observe(
        target,
        true,
        SurfaceExtent::fixed(target.extent()),
        started + 2 * SECOND,
    ));
    assert_eq!(negotiation.public_state(), PresentationState::Negotiating);
    assert!(negotiation.observe(
        target,
        true,
        SurfaceExtent::fixed(target.extent()),
        started + 3 * SECOND,
    ));

    assert!(negotiation.output_recreated(
        target,
        true,
        SurfaceExtent::fixed(target.extent()),
        started + 3 * SECOND,
    ));
    assert_eq!(negotiation.public_state(), PresentationState::Virtualized);
}

#[test]
fn native_output_waits_for_stable_geometry_before_recreation() {
    let target = Rect::new(0, 0, 1920, 1080);
    let mut negotiation = PresentationNegotiation::direct();
    let started = START;

    negotiation.request_borderless(target, started);
    negotiation.borderless_requested(started);

    assert!(!negotiation.observe(
        target,
        true,
        SurfaceExtent::fixed(target.extent()),
        started + SECOND,
    ));
    assert_eq!(negotiation.public_state(), PresentationState::Negotiating);
    assert!(negotiation.observe(
        target,
        true,
        SurfaceExtent::fixed(target.extent()),
        started + 2 * SECOND,
    ));
    assert!(negotiation.output_recreated(
        target,
        true,
        SurfaceExtent::fixed(target.extent()),
        started + 2 * SECOND,
    ));
    assert_eq!(negotiation.public_state(), PresentationState::Virtualized);
}

#[test]
fn negotiation_times_out_after_five_monotonic_seconds() {
    let target = Rect::new(0, 0, 1920, 1080);
    let mut negotiation = PresentationNegotiation::direct();
    let started = START;

    negotiation.request_borderless(target, started);
    negotiation.borderless_requested(started);
    assert!(!negotiation.observe(
        Rect::new(0, 0, 1920, 1040),
        true,
        SurfaceExtent::fixed(Extent::new(1920, 1040)),
        started + 5 * SECOND,
    ));

    assert_eq!(negotiation.public_state(), PresentationState::Failed);
    assert_eq!(
        negotiation.failure(),
        Some(NegotiationFailure::DeadlineExpired)
    );
}

#[test]
fn negotiation_times_out_while_borderless_request_is_unacknowledged() {
    let target = Rect::new(0, 0, 1920, 1080);
    let mut negotiation = PresentationNegotiation::direct();
    let started = START;

    negotiation.request_borderless(target, started);
    assert!(!negotiation.observe(
        target,
        true,
        SurfaceExtent::fixed(target.extent()),
        started + 5 * SECOND,
    ));

    assert_eq!(negotiation.public_state(), PresentationState::Failed);
    assert_eq!(
        negotiation.failure(),
        Some(NegotiationFailure::DeadlineExpired)
    );
}

#[test]
fn negotiation_rejects_exact_geometry_with_rejected_surface_extent() {
    let target = Rect::new(0, 0, 1920, 1080);
    let mut negotiation = PresentationNegotiation::direct();
    let started = START;

    negotiation.request_borderless(target, started);
    negotiation.borderless_requested(started);

    assert!(!negotiation.observe(
        target,
        true,
        SurfaceExtent::fixed(Extent::new(1920, 1040)),
        started + SECOND,
    ));
    assert_eq!(negotiation.public_state(), PresentationState::Negotiating);
}

#[test]
fn negotiation_accepts_a_surface_extent_range_containing_the_target() {
    let target = Rect::new(0, 0, 1920, 1080);
    let mut negotiation = PresentationNegotiation::direct();
    let started = START;

    negotiation.request_borderless(target, started);
    negotiation.borderless_requested(started);

    assert!(!negotiation.observe(
        target,
        true,
        SurfaceExtent::Range {
            minimum: Extent::new(1280, 720),
            maximum: Extent::new(3840, 2160),
        },
        started + SECOND,
    ));
    assert!(negotiation.observe(
        target,
        true,
        SurfaceExtent::Range {
            minimum: Extent::new(1280, 720),
            maximum: Extent::new(3840, 2160),
        },
        started + 2 * SECOND,
    ));
    assert!(negotiation.output_recreated(
        target,
        true,
        SurfaceExtent::Range {
            minimum: Extent::new(1280, 720),
            maximum: Extent::new(3840, 2160),
        },
        started + 2 * SECOND,
    ));
    assert_eq!(negotiation.public_state(), PresentationState::Virtualized);
}

#[test]
fn exact_geometry_counts_as_native_without_the_ewmh_flag() {
    let target = Rect::new(0, 0, 1920, 1080);
    let mut negotiation = PresentationNegotiation::direct();
    let started = START;

    negotiation.request_borderless(target, started);
    negotiation.borderless_requested(started);
    // Wine-owned windows never retain an externally requested
    // _NET_WM_STATE_FULLSCREEN; geometry equality alone must suffice.
    assert!(!negotiation.observe(
        target,
        false,
        SurfaceExtent::fixed(target.extent()),
        started + SECOND,
    ));
    assert_eq!(negotiation.public_state(), PresentationState::Negotiating);

    assert!(negotiation.observe(
        target,
        false,
        SurfaceExtent::fixed(target.extent()),
        started + 2 * SECOND,
    ));
    assert!(negotiation.output_recreated(
        target,
        false,
        SurfaceExtent::fixed(target.extent()),
        started + 2 * SECOND,
    ));
    assert_eq!(negotiation.public_state(), PresentationState::Virtualized);
}

#[test]
fn negotiation_revalidates_geometry_and_extent_during_recreation() {
    let target = Rect::new(-1920, 0, 1920, 1080);
    let drifted = Rect::new(-1920, 0, 1920, 1040);
    let mut negotiation = PresentationNegotiation::direct();
    let started = START;

    negotiation.request_borderless(target, started);
    negotiation.borderless_requested(started);
    assert!(!negotiation.observe(
        target,
        true,
        SurfaceExtent::fixed(target.extent()),
        started + SECOND,
    ));

    assert!(!negotiation.observe(
        drifted,
        true,
        SurfaceExtent::fixed(drifted.extent()),
        started + 2 * SECOND,
    ));
    assert!(!negotiation.output_recreated(
        target,
        true,
        SurfaceExtent::fixed(target.extent()),
        started + 2 * SECOND,
    ));
    assert_eq!(negotiation.public_state(), PresentationState::Negotiating);

    assert!(!negotiation.observe(
        target,
        true,
        SurfaceExtent::fixed(target.extent()),
        started + 3 * SECOND,
    ));
    assert!(negotiation.observe(
        target,
        true,
        SurfaceExtent::fixed(target.extent()),
        started + 4 * SECOND,
    ));
    assert!(negotiation.output_recreated(
        target,
        true,
        SurfaceExtent::fixed(target.extent()),
        started + 4 * SECOND,
    ));
    assert_eq!(negotiation.public_state(), PresentationState::Virtualized);
}

#[test]
fn output_recreation_does_not_activate_with_a_stale_surface_extent() {
    let target = Rect::new(0, 0, 1920, 1080);
    let mut negotiation = PresentationNegotiation::direct();
    let started = START;

    negotiation.request_borderless(target, started);
    negotiation.borderless_requested(started);
    assert!(!negotiation.observe(
        target,
        true,
        SurfaceExtent::fixed(target.extent()),
        started + SECOND,
    ));

    assert!(!negotiation.output_recreated(
        target,
        true,
        SurfaceExtent::fixed(Extent::new(1920, 1040)),
        started + 2 * SECOND,
    ));
    assert_eq!(negotiation.public_state(), PresentationState::Negotiating);
}

#[test]
fn negotiation_times_out_during_output_recreation() {
    let target = Rect::new(0, 0, 1920, 1080);
    let mut negotiation = PresentationNegotiation::direct();
    let started = START;

    negotiation.request_borderless(target, started);
    negotiation.borderless_requested(started);
    assert!(!negotiation.observe(
        target,
        true,
        SurfaceExtent::fixed(target.extent()),
        started + SECOND,
    ));
    assert!(!negotiation.output_recreated(
        target,
        true,
        SurfaceExtent::fixed(target.extent()),
        started + 5 * SECOND,
    ));

    assert_eq!(negotiation.public_state(), PresentationState::Failed);
    assert_eq!(
        negotiation.failure(),
        Some(NegotiationFailure::DeadlineExpired)
    );
}

#[test]
fn active_negotiation_returns_to_waiting_when_native_extent_is_lost() {
    let target = Rect::new(-1920, 0, 1920, 1080);
    let mut negotiation = PresentationNegotiation::direct();
    let started = START;

    negotiation.request_borderless(target, started);
    negotiation.borderless_requested(started);
    assert!(!negotiation.observe(
        target,
        true,
        SurfaceExtent::fixed(target.extent()),
        started + SECOND,
    ));
    assert!(negotiation.observe(
        target,
        true,
        SurfaceExtent::fixed(target.extent()),
        started + 2 * SECOND,
    ));
    assert!(negotiation.output_recreated(
        target,
        true,
        SurfaceExtent::fixed(target.extent()),
        started + 2 * SECOND,
    ));

    assert!(!negotiation.observe(
        Rect::new(-1920, 0, 1920, 1040),
        true,
        SurfaceExtent::fixed(Extent::new(1920, 1040)),
        started + 2 * SECOND,
    ));
    assert_eq!(negotiation.public_state(), PresentationState::Negotiating);
}

#[test]
fn negotiation_keeps_the_first_failure_reason_stable() {
    let mut negotiation = PresentationNegotiation::direct();

    negotiation.fail(NegotiationFailure::BorderlessRequest);
    negotiation.fail(NegotiationFailure::OutputRecreation);

    assert_eq!(negotiation.public_state(), PresentationState::Failed);
    assert_eq!(
        negotiation.failure(),
        Some(NegotiationFailure::BorderlessRequest)
    );
}

#[test]
fn negotiation_maps_internal_stages_to_public_states() {
    let target = Rect::new(0, 0, 1920, 1080);
    let mut negotiation = PresentationNegotiation::direct();

    assert_eq!(negotiation.public_state(), PresentationState::Direct);
    negotiation.request_borderless(target, START);
    assert_eq!(negotiation.public_state(), PresentationState::Negotiating);
    negotiation.fail(NegotiationFailure::BorderlessRequest);
    assert_eq!(negotiation.public_state(), PresentationState::Failed);
}

#[test]
fn domain_types_keep_window_and_output_target_explicit() {
    let window = X11Window::new(42);
    let monitor = Monitor::new(Rect::new(0, 0, 1920, 1080));
    let target = DisplayTarget::new(window, monitor);

    assert_eq!(target.window.id, 42);
    assert_eq!(target.output_extent(), [1920, 1080]);
}

#[test]
fn recognizes_explicit_and_borderless_fullscreen() {
    let monitor = Monitor::new(Rect::new(1920, 0, 1920, 1080));
    let mut window = X11Window::new(42);
    window.rect = Rect::new(2000, 100, 1280, 720);
    assert!(!DisplayTarget::new(window, monitor).is_fullscreen());
    window.fullscreen = true;
    assert!(DisplayTarget::new(window, monitor).is_fullscreen());
    window.fullscreen = false;
    window.rect = monitor.rect;
    assert!(DisplayTarget::new(window, monitor).is_fullscreen());
}

#[test]
fn borderless_lease_snapshots_geometry_and_fullscreen_ownership() {
    let original = WindowSnapshot {
        rect: Rect::new(-1200, 80, 1280, 720),
        fullscreen: false,
    };
    let monitor = Monitor::new(Rect::new(-1920, 0, 1920, 1080));
    let lease = BorderlessLease {
        window: 42,
        original,
        monitor,
    };

    assert_eq!(lease.window, 42);
    assert!(lease.added_fullscreen());
    assert!(lease.should_remove_fullscreen(true));
    assert!(!lease.should_remove_fullscreen(false));
}

#[test]
fn zero_sized_windows_and_monitors_are_rejected() {
    assert!(!Rect::new(0, 0, 0, 100).is_valid());
    assert!(!Rect::new(0, 0, 100, 0).is_valid());
    assert_eq!(
        select_monitor(
            Rect::new(0, 0, 1280, 720),
            &[Monitor::new(Rect::new(0, 0, 0, 1080))]
        ),
        None
    );
}

#[test]
fn display_errors_say_what_went_wrong() {
    assert_eq!(
        DisplayError::Operation("refused".to_string()).message(),
        "X11 operation failed: refused"
    );
    assert_eq!(
        DisplayError::Geometry.message(),
        "X11 window geometry is unavailable"
    );
    assert_eq!(
        DisplayError::Monitor.message(),
        "X11 monitor discovery is unavailable"
    );
}
