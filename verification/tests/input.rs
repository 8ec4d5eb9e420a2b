use x11rb::protocol::xproto::EventMask;
use tuxscaling::input::{
    cursor_owner_after, modifiers, pointer_button, should_accept_event, should_forward_to_game,
    CursorCleanupReason, CursorOwner, FrameEvent, InputAction, InputEvent, InputFrame, InputRoute,
    Modifiers, PointerButton, PointerMode, PointerViewport, X11Input, PASSIVE_EVENT_MASK,
    POINTER_GRAB_MASK,
};

#[test]
fn maps_x11_buttons_to_egui() {
    assert_eq!(pointer_button(1), Some(PointerButton::Primary));
    assert_eq!(pointer_button(3), Some(PointerButton::Secondary));
    assert_eq!(pointer_button(8), None);
}

fn route() -> InputRoute {
    InputRoute::new(
        0x900,
        0x400,
        [2160, 1440],
        [1280, 720],
        PointerViewport {
            offset: [0.0_f32.to_bits(), 0.0_f32.to_bits()],
            extent: [2160.0_f32.to_bits(), 1440.0_f32.to_bits()],
        },
    )
}

#[test]
fn event_and_forwarding_policy_prevents_feedback_when_overlay_is_open() {
    let route = route();

    assert!(should_accept_event(&route, route.event_window));
    assert!(!should_accept_event(&route, route.game_window));
    assert!(should_forward_to_game(&route, false));
    assert!(!should_forward_to_game(&route, true));
    assert!(!should_forward_to_game(
        &InputRoute::new(
            route.game_window,
            route.game_window,
            route.output_extent,
            route.game_extent,
            route.viewport,
        ),
        false,
    ));
}

#[test]
fn input_frame_defaults_to_native_cursor_ownership_without_pointer_presence() {
    let frame = InputFrame::default();

    assert_eq!(frame.cursor_owner, CursorOwner::Native);
    assert!(!frame.pointer_present);
    assert_eq!(frame.pointer_position, None);
}

#[test]
fn every_overlay_cleanup_path_restores_native_cursor_ownership() {
    for reason in [
        CursorCleanupReason::OverlayClosed,
        CursorCleanupReason::FocusLost,
        CursorCleanupReason::PresenterDestroyed,
        CursorCleanupReason::RendererError,
        CursorCleanupReason::Panic,
        CursorCleanupReason::ProcessExit,
    ] {
        assert_eq!(
            cursor_owner_after(CursorOwner::Overlay, reason),
            CursorOwner::Native
        );
    }
}

#[test]
fn the_event_masks_are_those_of_the_protocol() {
    let passive = EventMask::KEY_PRESS
        | EventMask::KEY_RELEASE
        | EventMask::BUTTON_PRESS
        | EventMask::BUTTON_RELEASE
        | EventMask::POINTER_MOTION
        | EventMask::ENTER_WINDOW
        | EventMask::LEAVE_WINDOW
        | EventMask::FOCUS_CHANGE;
    assert_eq!(PASSIVE_EVENT_MASK, i64::from(u32::from(passive)));
    let grabbed = EventMask::BUTTON_PRESS | EventMask::BUTTON_RELEASE | EventMask::POINTER_MOTION;
    assert_eq!(POINTER_GRAB_MASK, u64::from(u32::from(grabbed)));
}

#[test]
fn held_modifiers_are_read_from_the_state() {
    assert_eq!(
        modifiers(0x5),
        Modifiers {
            alt: false,
            ctrl: true,
            shift: true,
        }
    );
    assert_eq!(
        modifiers(0x8),
        Modifiers {
            alt: true,
            ctrl: false,
            shift: false,
        }
    );
}

fn key(pressed: bool) -> InputEvent {
    InputEvent::Key {
        window: 0x900,
        sent: false,
        keycode: 118,
        pressed,
    }
}

fn motion(x: i32, y: i32, x_root: i32, y_root: i32) -> InputEvent {
    InputEvent::Motion {
        window: 0x900,
        sent: false,
        x,
        y,
        x_root,
        y_root,
    }
}

fn button(number: u32, pressed: bool) -> InputEvent {
    InputEvent::Button {
        window: 0x900,
        sent: false,
        x: 10,
        y: 20,
        state: 4,
        button: number,
        pressed,
    }
}

#[test]
fn the_toggle_key_opens_and_closes_the_overlay() {
    let mut input = X11Input::connect(route(), 118);

    let (frame, actions) = input.poll(&[key(true), key(false)]);
    assert!(frame.toggle_overlay);
    assert_eq!(frame.cursor_owner, CursorOwner::Overlay);
    assert_eq!(
        frame.events,
        vec![
            FrameEvent::InsertKey { pressed: true },
            FrameEvent::InsertKey { pressed: false }
        ]
    );
    assert_eq!(actions, vec![InputAction::Grab]);

    let (frame, actions) = input.poll(&[key(true)]);
    assert_eq!(frame.cursor_owner, CursorOwner::Native);
    assert_eq!(actions, vec![InputAction::Ungrab]);
    let other = InputEvent::Key {
        window: 0x900,
        sent: false,
        keycode: 24,
        pressed: true,
    };
    let (frame, actions) = input.poll(&[other]);
    assert!(frame.events.is_empty() && actions.is_empty() && !frame.toggle_overlay);
}

#[test]
fn events_of_others_change_nothing() {
    let mut input = X11Input::connect(route(), 118);
    let sent = InputEvent::Key {
        window: 0x900,
        sent: true,
        keycode: 118,
        pressed: true,
    };
    let foreign = InputEvent::Focus {
        window: 0x400,
        sent: false,
        gained: false,
    };

    let (frame, actions) = input.poll(&[sent, foreign, InputEvent::Other]);

    assert!(frame.events.is_empty() && actions.is_empty());
    assert_eq!(input, X11Input::connect(route(), 118));
}

#[test]
fn a_closed_overlay_passes_the_pointer_to_the_game() {
    let mut input = X11Input::connect(route(), 118);

    let (frame, actions) = input.poll(&[motion(100, 200, 100, 200), button(1, true)]);

    assert!(frame.events.is_empty());
    assert_eq!(frame.pointer_position, Some((100, 200)));
    assert!(frame.pointer_present);
    assert_eq!(
        actions,
        vec![
            InputAction::Warp {
                x: 100,
                y: 200,
                button: false
            },
            InputAction::Warp {
                x: 10,
                y: 20,
                button: true
            },
            InputAction::Button {
                button: 1,
                pressed: true
            },
        ]
    );
    input.set_pointer_mode(PointerMode::Relative);
    let (_, actions) = input.poll(&[motion(1, 1, 300, 400), motion(2, 2, 290, 405)]);
    assert_eq!(
        actions,
        vec![
            InputAction::MoveRelative { dx: 0, dy: 0 },
            InputAction::MoveRelative { dx: -10, dy: 5 },
        ]
    );
}

#[test]
fn an_open_overlay_keeps_the_pointer() {
    let mut input = X11Input::connect(route(), 118);
    input.poll(&[key(true)]);

    let (frame, actions) = input.poll(&[
        motion(3, 4, 3, 4),
        button(3, true),
        button(4, true),
        button(5, true),
        button(5, false),
        InputEvent::Crossing {
            window: 0x900,
            sent: false,
            x: 0,
            y: 0,
            entered: false,
        },
    ]);

    assert!(actions.is_empty());
    let held = modifiers(4);
    assert_eq!(
        frame.events,
        vec![
            FrameEvent::PointerMoved { x: 3, y: 4 },
            FrameEvent::PointerButton {
                x: 10,
                y: 20,
                button: PointerButton::Secondary,
                pressed: true,
                modifiers: held,
            },
            FrameEvent::MouseWheel {
                up: true,
                modifiers: held
            },
            FrameEvent::MouseWheel {
                up: false,
                modifiers: held
            },
            FrameEvent::PointerGone,
        ]
    );
    assert!(!frame.pointer_present);
}

#[test]
fn losing_the_focus_closes_the_overlay() {
    let mut input = X11Input::connect(route(), 118);
    input.poll(&[key(true)]);

    let (frame, actions) = input.poll(&[InputEvent::Focus {
        window: 0x900,
        sent: false,
        gained: false,
    }]);

    assert!(frame.toggle_overlay);
    assert_eq!(
        frame.events,
        vec![FrameEvent::WindowFocused { gained: false }]
    );
    assert_eq!(actions, vec![InputAction::Ungrab]);
    assert_eq!(input.cursor_owner(), CursorOwner::Native);
}

#[test]
fn foreign_and_sent_motions_may_come_from_anywhere() {
    let mut input = X11Input::connect(route(), 118);
    input.poll(&[motion(1, 1, 1, 1)]);
    let far = |window: u64, sent: bool| InputEvent::Motion {
        window,
        sent,
        x: 9,
        y: 9,
        x_root: i32::MIN,
        y_root: i32::MIN,
    };

    let (frame, actions) = input.poll(&[far(0x901, true), far(0x900, true), far(0x901, false)]);

    assert!(frame.events.is_empty());
    assert!(!frame.toggle_overlay);
    assert!(actions.is_empty());
    assert_eq!(frame.pointer_position, Some((1, 1)));
    assert_eq!(input.last_root, Some((1, 1)));
}
