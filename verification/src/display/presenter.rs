//! The window that shows the scaled output.

use vstd::prelude::*;

use super::{DisplayError, Extent, Monitor, Rect};

verus! {

#[derive(Debug, Clone, Copy, PartialEq, Eq, Structural)]
pub enum PresenterLifecycle {
    Created,
    CursorHidden,
    Destroyed,
}

#[derive(Debug, Clone, Copy, PartialEq, Eq, Structural)]
pub enum PresenterEvent {
    HideCursor,
    ShowCursor,
    Destroy,
}

/// Destruction is final; in between, the cursor is hidden or shown.
pub open spec fn lifecycle_after(
    state: PresenterLifecycle,
    event: PresenterEvent,
) -> PresenterLifecycle {
    match (state, event) {
        (PresenterLifecycle::Destroyed, _) => PresenterLifecycle::Destroyed,
        (_, PresenterEvent::Destroy) => PresenterLifecycle::Destroyed,
        (_, PresenterEvent::HideCursor) => PresenterLifecycle::CursorHidden,
        (_, PresenterEvent::ShowCursor) => PresenterLifecycle::Created,
    }
}

pub fn presenter_lifecycle_transition(
    state: PresenterLifecycle,
    event: PresenterEvent,
) -> (next: PresenterLifecycle)
    ensures
        next == lifecycle_after(state, event),
{
    match (state, event) {
        (PresenterLifecycle::Destroyed, _) => PresenterLifecycle::Destroyed,
        (_, PresenterEvent::Destroy) => PresenterLifecycle::Destroyed,
        (
            PresenterLifecycle::Created,
            PresenterEvent::HideCursor,
        ) => PresenterLifecycle::CursorHidden,
        (
            PresenterLifecycle::CursorHidden,
            PresenterEvent::ShowCursor,
        ) => PresenterLifecycle::Created,
        (state, _) => state,
    }
}

pub const KEY_PRESS_MASK: u32 = 0x01;

pub const KEY_RELEASE_MASK: u32 = 0x02;

pub const BUTTON_PRESS_MASK: u32 = 0x04;

pub const BUTTON_RELEASE_MASK: u32 = 0x08;

pub const ENTER_WINDOW_MASK: u32 = 0x10;

pub const LEAVE_WINDOW_MASK: u32 = 0x20;

pub const POINTER_MOTION_MASK: u32 = 0x40;

pub const FOCUS_CHANGE_MASK: u32 = 0x20_0000;

/// The raw mask of the events that the presenter asks for: pointer motion,
/// buttons, crossings, focus and keys, and nothing else.
pub fn presenter_event_mask() -> (mask: u32)
    ensures
        mask == KEY_PRESS_MASK + KEY_RELEASE_MASK + BUTTON_PRESS_MASK + BUTTON_RELEASE_MASK
            + ENTER_WINDOW_MASK + LEAVE_WINDOW_MASK + POINTER_MOTION_MASK + FOCUS_CHANGE_MASK,
{
    assert(0x40u32 | 0x04u32 | 0x08u32 | 0x10u32 | 0x20u32 | 0x20_0000u32 | 0x01u32 | 0x02u32
        == 0x20_007fu32) by (bit_vector);
    POINTER_MOTION_MASK | BUTTON_PRESS_MASK | BUTTON_RELEASE_MASK | ENTER_WINDOW_MASK
        | LEAVE_WINDOW_MASK | FOCUS_CHANGE_MASK | KEY_PRESS_MASK | KEY_RELEASE_MASK
}

/// The rectangle is not empty and the window protocol can carry it.
pub open spec fn placeable(rect: Rect) -> bool {
    &&& rect.valid()
    &&& -0x8000 <= rect.x < 0x8000
    &&& -0x8000 <= rect.y < 0x8000
    &&& rect.width < 0x1_0000
    &&& rect.height < 0x1_0000
}

pub fn presenter_geometry(monitor: Monitor) -> (rect: Option<Rect>)
    ensures
        rect == (if placeable(monitor.rect) {
            Some(monitor.rect)
        } else {
            None
        }),
{
    let rect: Rect = monitor.rect;
    if rect.is_valid() && -0x8000 <= rect.x && rect.x < 0x8000 && -0x8000 <= rect.y && rect.y
        < 0x8000 && rect.width < 0x1_0000 && rect.height < 0x1_0000 {
        Some(rect)
    } else {
        None
    }
}

/// Where a presenter window goes, in the types of the window protocol.
#[derive(Debug, Clone, Copy, PartialEq, Eq, Structural)]
pub struct Placement {
    pub x: i16,
    pub y: i16,
    pub width: u16,
    pub height: u16,
}

pub fn presenter_placement(monitor: Monitor) -> (result: Result<Placement, DisplayError>)
    ensures
        match result {
            Ok(placement) => {
                &&& placeable(monitor.rect)
                &&& placement.x == monitor.rect.x
                &&& placement.y == monitor.rect.y
                &&& placement.width == monitor.rect.width
                &&& placement.height == monitor.rect.height
            },
            Err(error) => !placeable(monitor.rect) && error == DisplayError::Geometry,
        },
{
    match presenter_geometry(monitor) {
        Some(rect) => Ok(
            Placement {
                x: rect.x as i16,
                y: rect.y as i16,
                width: rect.width as u16,
                height: rect.height as u16,
            },
        ),
        None => Err(DisplayError::Geometry),
    }
}

/// What must be sent to take a presenter window down, in this order.
#[derive(Debug, Clone, Copy, PartialEq, Eq, Structural)]
pub struct PresenterTeardown {
    pub show_cursor: bool,
    pub destroy_window: bool,
}

/// A presenter window and how far it has come.
#[derive(Debug, Clone, Copy, PartialEq, Eq, Structural)]
pub struct PresenterWindow {
    window: u32,
    game_window: u64,
    monitor: Monitor,
    lifecycle: PresenterLifecycle,
}

pub struct PresenterWindowModel {
    pub window: u32,
    pub game_window: u64,
    pub monitor: Monitor,
    pub lifecycle: PresenterLifecycle,
}

impl View for PresenterWindow {
    type V = PresenterWindowModel;

    closed spec fn view(&self) -> PresenterWindowModel {
        PresenterWindowModel {
            window: self.window,
            game_window: self.game_window,
            monitor: self.monitor,
            lifecycle: self.lifecycle,
        }
    }
}

impl PresenterWindow {
    /// Takes over a window that was created for the game window on a monitor.
    pub fn new(game_window: u64, window: u32, monitor: Monitor) -> (presenter: Self)
        ensures
            presenter@ == (PresenterWindowModel {
                window,
                game_window,
                monitor,
                lifecycle: PresenterLifecycle::Created,
            }),
    {
        PresenterWindow { window, game_window, monitor, lifecycle: PresenterLifecycle::Created }
    }

    pub fn window(&self) -> (window: u32)
        ensures
            window == self@.window,
    {
        self.window
    }

    pub fn game_window(&self) -> (window: u64)
        ensures
            window == self@.game_window,
    {
        self.game_window
    }

    pub fn monitor(&self) -> (monitor: Monitor)
        ensures
            monitor == self@.monitor,
    {
        self.monitor
    }

    pub fn surface_extent(&self) -> (extent: Extent)
        ensures
            extent.width == self@.monitor.rect.width,
            extent.height == self@.monitor.rect.height,
    {
        self.monitor.rect.extent()
    }

    pub fn lifecycle(&self) -> (state: PresenterLifecycle)
        ensures
            state == self@.lifecycle,
    {
        self.lifecycle
    }

    /// Whether hiding the cursor takes a request to the server.
    pub fn hides_cursor(&self) -> (needed: bool)
        ensures
            needed == (self@.lifecycle == PresenterLifecycle::Created),
    {
        self.lifecycle == PresenterLifecycle::Created
    }

    /// Whether showing the cursor takes a request to the server.
    pub fn shows_cursor(&self) -> (needed: bool)
        ensures
            needed == (self@.lifecycle == PresenterLifecycle::CursorHidden),
    {
        self.lifecycle == PresenterLifecycle::CursorHidden
    }

    /// Takes in the server's answer to a request to hide the cursor.
    pub fn hide_cursor(&mut self, accepted: bool)
        ensures
            final(self)@ == (PresenterWindowModel {
                lifecycle: if accepted {
                    lifecycle_after(old(self)@.lifecycle, PresenterEvent::HideCursor)
                } else {
                    old(self)@.lifecycle
                },
                ..old(self)@
            }),
    {
        if accepted {
            self.lifecycle =
            presenter_lifecycle_transition(self.lifecycle, PresenterEvent::HideCursor);
        }
    }

    /// Takes in the server's answer to a request to show the cursor.
    pub fn show_cursor(&mut self, accepted: bool)
        ensures
            final(self)@ == (PresenterWindowModel {
                lifecycle: if accepted {
                    lifecycle_after(old(self)@.lifecycle, PresenterEvent::ShowCursor)
                } else {
                    old(self)@.lifecycle
                },
                ..old(self)@
            }),
    {
        if accepted {
            self.lifecycle =
            presenter_lifecycle_transition(self.lifecycle, PresenterEvent::ShowCursor);
        }
    }

    /// Marks the window destroyed and says what has to be sent for it.
    pub fn destroy(&mut self) -> (teardown: PresenterTeardown)
        ensures
            final(self)@ == (PresenterWindowModel {
                lifecycle: PresenterLifecycle::Destroyed,
                ..old(self)@
            }),
            teardown.show_cursor == (old(self)@.lifecycle == PresenterLifecycle::CursorHidden),
            teardown.destroy_window == (old(self)@.lifecycle != PresenterLifecycle::Destroyed),
    {
        let teardown: PresenterTeardown = PresenterTeardown {
            show_cursor: self.shows_cursor(),
            destroy_window: self.lifecycle != PresenterLifecycle::Destroyed,
        };
        self.lifecycle = presenter_lifecycle_transition(self.lifecycle, PresenterEvent::Destroy);
        teardown
    }
}

/// Nothing brings a destroyed presenter back.
pub proof fn a_destroyed_presenter_stays_destroyed(event: PresenterEvent)
    ensures
        lifecycle_after(PresenterLifecycle::Destroyed, event) == PresenterLifecycle::Destroyed,
{
}

/// Showing the cursor undoes hiding it.
pub proof fn showing_undoes_hiding()
    ensures
        lifecycle_after(
            lifecycle_after(PresenterLifecycle::Created, PresenterEvent::HideCursor),
            PresenterEvent::ShowCursor,
        ) == PresenterLifecycle::Created,
{
}

/// A presenter can be placed where it has an area and the window protocol can
/// carry its place and its size: in sixteen bits, the place with a sign.
pub proof fn a_presenter_fits_the_protocol(rect: Rect)
    ensures
        placeable(rect) <==> {
            &&& rect.width > 0
            &&& rect.height > 0
            &&& i16::MIN <= rect.x <= i16::MAX
            &&& i16::MIN <= rect.y <= i16::MAX
            &&& rect.width <= u16::MAX
            &&& rect.height <= u16::MAX
        },
{
}

/// While it is there, hiding hides the cursor of a presenter and showing shows
/// it, whatever was before; destroying ends both.
pub proof fn a_presenter_does_what_it_is_told(state: PresenterLifecycle)
    requires
        state != PresenterLifecycle::Destroyed,
    ensures
        lifecycle_after(state, PresenterEvent::HideCursor) == PresenterLifecycle::CursorHidden,
        lifecycle_after(state, PresenterEvent::ShowCursor) == PresenterLifecycle::Created,
        lifecycle_after(state, PresenterEvent::Destroy) == PresenterLifecycle::Destroyed,
{
}

} // verus!
