use tuxscaling::display::presenter::{
    presenter_event_mask, presenter_geometry, presenter_lifecycle_transition, PresenterEvent,
    PresenterLifecycle, PresenterTeardown, PresenterWindow,
};
use tuxscaling::display::{select_monitor, Monitor, Rect};
use x11rb::protocol::xproto::EventMask;

#[test]
fn selects_the_monitor_containing_the_presenter_source() {
    let monitors = [
        Monitor::new(Rect::new(0, 0, 1920, 1080)),
        Monitor::new(Rect::new(1920, 0, 2560, 1440)),
    ];

    assert_eq!(
        select_monitor(Rect::new(2100, 80, 640, 360), &monitors),
        Some(monitors[1])
    );
}

#[test]
fn presenter_geometry_matches_the_selected_monitor_rectangle() {
    let monitor = Monitor::new(Rect::new(-1920, 32, 1920, 1080));

    assert_eq!(presenter_geometry(monitor), Some(monitor.rect));
    assert_eq!(
        presenter_geometry(Monitor::new(Rect::new(0, 0, 0, 1080))),
        None
    );
}

#[test]
fn presenter_event_mask_contains_pointer_focus_and_keyboard_events() {
    let mask = EventMask::from(presenter_event_mask());

    assert!(mask.contains(EventMask::POINTER_MOTION));
    assert!(mask.contains(EventMask::BUTTON_PRESS | EventMask::BUTTON_RELEASE));
    assert!(mask.contains(EventMask::ENTER_WINDOW | EventMask::LEAVE_WINDOW));
    assert!(mask.contains(EventMask::FOCUS_CHANGE));
    assert!(mask.contains(EventMask::KEY_PRESS | EventMask::KEY_RELEASE));
}

#[test]
fn presenter_lifecycle_restores_cursor_before_destroying_window() {
    assert_eq!(
        presenter_lifecycle_transition(PresenterLifecycle::Created, PresenterEvent::HideCursor,),
        PresenterLifecycle::CursorHidden
    );
    assert_eq!(
        presenter_lifecycle_transition(
            PresenterLifecycle::CursorHidden,
            PresenterEvent::Destroy,
        ),
        PresenterLifecycle::Destroyed
    );
    assert_eq!(
        presenter_lifecycle_transition(
            PresenterLifecycle::Destroyed,
            PresenterEvent::ShowCursor,
        ),
        PresenterLifecycle::Destroyed
    );
}

#[test]
fn a_presenter_follows_the_server_s_answers() {
    let monitor = Monitor::new(Rect::new(0, 0, 1920, 1080));
    let mut presenter = PresenterWindow::new(7, 8, monitor);

    assert!(presenter.hides_cursor() && !presenter.shows_cursor());
    presenter.hide_cursor(false);
    assert_eq!(presenter.lifecycle(), PresenterLifecycle::Created);
    presenter.hide_cursor(true);
    presenter.hide_cursor(true);
    assert_eq!(presenter.lifecycle(), PresenterLifecycle::CursorHidden);
    assert!(!presenter.hides_cursor() && presenter.shows_cursor());
    presenter.show_cursor(true);
    assert_eq!(presenter.lifecycle(), PresenterLifecycle::Created);
    presenter.hide_cursor(true);
    assert_eq!(
        presenter.destroy(),
        PresenterTeardown {
            show_cursor: true,
            destroy_window: true
        }
    );
    presenter.show_cursor(true);
    assert_eq!(presenter.lifecycle(), PresenterLifecycle::Destroyed);
    assert_eq!(
        presenter.destroy(),
        PresenterTeardown {
            show_cursor: false,
            destroy_window: false
        }
    );
    assert_eq!((presenter.window(), presenter.game_window()), (8, 7));
}
