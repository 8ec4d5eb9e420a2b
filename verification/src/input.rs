//! Who gets the pointer and the keys: the overlay or the game.

use vstd::prelude::*;

verus! {

pub const CRATE_NAME: &'static str = "tuxscaling-input";

/// The key that opens and closes the overlay.
pub const INSERT_KEYSYM: u64 = 0xff63;

/// The events that are asked for while the pointer is grabbed: buttons and
/// motion.
pub const POINTER_GRAB_MASK: u64 = 0x4c;

/// The events that are asked for of the window at all times.
pub const PASSIVE_EVENT_MASK: i64 = 0x20_007f;

/// Who draws the cursor.
#[derive(Debug, Clone, Copy, PartialEq, Eq, Structural)]
pub enum CursorOwner {
    Native,
    Overlay,
}

impl Default for CursorOwner {
    fn default() -> (owner: Self)
        ensures
            owner == CursorOwner::Native,
    {
        CursorOwner::Native
    }
}

/// Why the overlay gives the cursor up.
#[derive(Debug, Clone, Copy, PartialEq, Eq, Structural)]
pub enum CursorCleanupReason {
    OverlayClosed,
    FocusLost,
    PresenterDestroyed,
    RendererError,
    Panic,
    ProcessExit,
}

/// Whatever the reason, the cursor goes back.
pub fn cursor_owner_after(_owner: CursorOwner, reason: CursorCleanupReason) -> (owner: CursorOwner)
    ensures
        owner == CursorOwner::Native,
{
    match reason {
        CursorCleanupReason::OverlayClosed
        | CursorCleanupReason::FocusLost
        | CursorCleanupReason::PresenterDestroyed
        | CursorCleanupReason::RendererError
        | CursorCleanupReason::Panic
        | CursorCleanupReason::ProcessExit => CursorOwner::Native,
    }
}

/// The part of the output that shows the game. Each number is the bit pattern
/// of a 32-bit float.
#[derive(Debug, Clone, Copy, PartialEq, Eq)]
pub struct PointerViewport {
    pub offset: [u32; 2],
    pub extent: [u32; 2],
}

/// From the window that gets the events to the one of the game.
#[derive(Debug, Clone, Copy, PartialEq, Eq)]
pub struct InputRoute {
    pub event_window: u64,
    pub game_window: u64,
    pub output_extent: [u32; 2],
    pub game_extent: [u32; 2],
    pub viewport: PointerViewport,
}

impl InputRoute {
    pub fn new(
        event_window: u64,
        game_window: u64,
        output_extent: [u32; 2],
        game_extent: [u32; 2],
        viewport: PointerViewport,
    ) -> (route: Self)
        ensures
            route == (InputRoute {
                event_window,
                game_window,
                output_extent,
                game_extent,
                viewport,
            }),
    {
        InputRoute { event_window, game_window, output_extent, game_extent, viewport }
    }

    /// Only events of the event window count.
    pub open spec fn accepts(self, event_window: u64) -> bool {
        self.event_window != 0 && event_window == self.event_window
    }

    /// The game gets what the overlay does not, if it has a window of its own.
    pub open spec fn forwards(self, overlay_open: bool) -> bool {
        &&& !overlay_open
        &&& self.event_window != 0
        &&& self.game_window != 0
        &&& self.event_window != self.game_window
    }
}

/// How the pointer is passed on.
#[derive(Debug, Clone, Copy, PartialEq, Eq, Structural)]
pub enum PointerMode {
    Absolute,
    Relative,
}

pub fn should_accept_event(route: &InputRoute, event_window: u64) -> (accepted: bool)
    ensures
        accepted == route.accepts(event_window),
{
    route.event_window != 0 && event_window == route.event_window
}

pub fn should_forward_to_game(route: &InputRoute, overlay_open: bool) -> (forwarded: bool)
    ensures
        forwarded == route.forwards(overlay_open),
{
    !overlay_open && route.event_window != 0 && route.game_window != 0 && route.event_window
        != route.game_window
}

#[derive(Debug, Clone, Copy, PartialEq, Eq, Structural)]
pub enum PointerButton {
    Primary,
    Secondary,
    Middle,
}

pub open spec fn button_of(detail: u8) -> Option<PointerButton> {
    match detail {
        1 => Some(PointerButton::Primary),
        2 => Some(PointerButton::Middle),
        3 => Some(PointerButton::Secondary),
        _ => None,
    }
}

pub fn pointer_button(detail: u8) -> (button: Option<PointerButton>)
    ensures
        button == button_of(detail),
{
    match detail {
        1 => Some(PointerButton::Primary),
        2 => Some(PointerButton::Middle),
        3 => Some(PointerButton::Secondary),
        _ => None,
    }
}

#[derive(Debug, Clone, Copy, PartialEq, Eq, Structural)]
pub struct Modifiers {
    pub alt: bool,
    pub ctrl: bool,
    pub shift: bool,
}

/// The modifier keys in the state of an event.
pub open spec fn modifiers_of(state: u32) -> Modifiers {
    Modifiers { alt: state & 8 != 0, ctrl: state & 4 != 0, shift: state & 1 != 0 }
}

pub fn modifiers(state: u32) -> (held: Modifiers)
    ensures
        held == modifiers_of(state),
{
    Modifiers { alt: state & 8 != 0, ctrl: state & 4 != 0, shift: state & 1 != 0 }
}

/// An event of the display. A sent one comes from another program.
#[derive(Debug, Clone, Copy, PartialEq, Eq, Structural)]
pub enum InputEvent {
    Key { window: u64, sent: bool, keycode: u32, pressed: bool },
    Motion { window: u64, sent: bool, x: i32, y: i32, x_root: i32, y_root: i32 },
    Button { window: u64, sent: bool, x: i32, y: i32, state: u32, button: u32, pressed: bool },
    Crossing { window: u64, sent: bool, x: i32, y: i32, entered: bool },
    Focus { window: u64, sent: bool, gained: bool },
    Other,
}

impl InputEvent {
    /// The window of an event, if it did not come from another program.
    pub open spec fn genuine_window(self) -> Option<u64> {
        match self {
            InputEvent::Key { window, sent, .. } if !sent => Some(window),
            InputEvent::Motion { window, sent, .. } if !sent => Some(window),
            InputEvent::Button { window, sent, .. } if !sent => Some(window),
            InputEvent::Crossing { window, sent, .. } if !sent => Some(window),
            InputEvent::Focus { window, sent, .. } if !sent => Some(window),
            _ => None,
        }
    }
}

/// What the overlay is told.
#[derive(Debug, Clone, Copy, PartialEq, Eq, Structural)]
pub enum FrameEvent {
    InsertKey { pressed: bool },
    PointerMoved { x: i32, y: i32 },
    MouseMoved { dx: i32, dy: i32 },
    PointerButton { x: i32, y: i32, button: PointerButton, pressed: bool, modifiers: Modifiers },
    /// One line up, or down.
    MouseWheel { up: bool, modifiers: Modifiers },
    PointerGone,
    WindowFocused { gained: bool },
}

/// What is done on the display.
#[derive(Debug, Clone, Copy, PartialEq, Eq, Structural)]
pub enum InputAction {
    /// The keyboard and the pointer are the overlay's, and the native cursor
    /// is hidden.
    Grab,
    /// They are given back, and the native cursor is shown.
    Ungrab,
    /// The game's pointer goes to the place in the game that a place of the
    /// output stands for, if it stands for one. With a button, a place beside
    /// the game stands for the nearest one in it.
    Warp { x: i32, y: i32, button: bool },
    MoveRelative { dx: i32, dy: i32 },
    Button { button: u32, pressed: bool },
}

/// What came in since the last frame.
#[derive(Debug)]
pub struct InputFrame {
    pub events: Vec<FrameEvent>,
    pub toggle_overlay: bool,
    pub pointer_position: Option<(i32, i32)>,
    pub pointer_present: bool,
    pub cursor_owner: CursorOwner,
}

impl Default for InputFrame {
    fn default() -> (frame: Self)
        ensures
            frame.events@.len() == 0,
            !frame.toggle_overlay,
            frame.pointer_position is None,
            !frame.pointer_present,
            frame.cursor_owner == CursorOwner::Native,
    {
        InputFrame {
            events: Vec::new(),
            toggle_overlay: false,
            pointer_position: None,
            pointer_present: false,
            cursor_owner: CursorOwner::Native,
        }
    }
}

/// What is known of the pointer and the overlay on an X11 display.
#[derive(Debug, Clone, Copy, PartialEq, Eq)]
pub struct X11Input {
    pub route: InputRoute,
    pub insert_keycode: u8,
    pub overlay_open: bool,
    pub pointer_mode: PointerMode,
    pub last_root: Option<(i32, i32)>,
    pub last_position: Option<(i32, i32)>,
    pub pointer_present: bool,
}

/// What one event comes to.
#[verifier::ext_equal]
pub struct InputStep {
    pub state: X11Input,
    pub events: Seq<FrameEvent>,
    pub toggled: bool,
    pub actions: Seq<InputAction>,
}

impl X11Input {
    /// Nothing comes of an event.
    pub open spec fn unmoved(self) -> InputStep {
        InputStep {
            state: self,
            events: Seq::empty(),
            toggled: false,
            actions: Seq::empty(),
        }
    }

    /// How far the pointer went since the last motion.
    pub open spec fn moved(self, x_root: i32, y_root: i32) -> (int, int) {
        match self.last_root {
            Some((x, y)) => (x_root - x, y_root - y),
            None => (0, 0),
        }
    }

    /// Actions for the game, if it gets any.
    pub open spec fn to_game(self, actions: Seq<InputAction>) -> Seq<InputAction> {
        if self.route.forwards(self.overlay_open) {
            actions
        } else {
            Seq::empty()
        }
    }

    pub open spec fn after_key(self, keycode: u32, pressed: bool) -> InputStep {
        if keycode as u8 != self.insert_keycode {
            self.unmoved()
        } else if pressed {
            InputStep {
                state: X11Input { overlay_open: !self.overlay_open, ..self },
                events: seq![FrameEvent::InsertKey { pressed }],
                toggled: true,
                actions: seq![
                    if self.overlay_open {
                        InputAction::Ungrab
                    } else {
                        InputAction::Grab
                    },
                ],
            }
        } else {
            InputStep { events: seq![FrameEvent::InsertKey { pressed }], ..self.unmoved() }
        }
    }

    pub open spec fn after_motion(self, x: i32, y: i32, x_root: i32, y_root: i32) -> InputStep {
        let (dx, dy) = self.moved(x_root, y_root);
        let state = X11Input {
            last_root: Some((x_root, y_root)),
            last_position: Some((x, y)),
            pointer_present: true,
            ..self
        };
        if self.overlay_open {
            InputStep {
                events: seq![
                    match self.pointer_mode {
                        PointerMode::Absolute => FrameEvent::PointerMoved { x, y },
                        PointerMode::Relative => FrameEvent::MouseMoved {
                            dx: dx as i32,
                            dy: dy as i32,
                        },
                    },
                ],
                ..state.unmoved()
            }
        } else {
            InputStep {
                actions: self.to_game(
                    seq![
                        match self.pointer_mode {
                            PointerMode::Absolute => InputAction::Warp { x, y, button: false },
                            PointerMode::Relative => InputAction::MoveRelative {
                                dx: dx as i32,
                                dy: dy as i32,
                            },
                        },
                    ],
                ),
                ..state.unmoved()
            }
        }
    }

    /// The wheel turns with the press of a button of its own.
    pub open spec fn is_wheel(button: u32, pressed: bool) -> bool {
        pressed && button_of(button as u8) is None && (button == 4 || button == 5)
    }

    pub open spec fn after_button(
        self,
        x: i32,
        y: i32,
        state: u32,
        button: u32,
        pressed: bool,
    ) -> InputStep {
        if button_of(button as u8) is None && !Self::is_wheel(button, pressed) {
            self.unmoved()
        } else if self.overlay_open {
            InputStep {
                events: seq![
                    match button_of(button as u8) {
                        Some(known) => FrameEvent::PointerButton {
                            x,
                            y,
                            button: known,
                            pressed,
                            modifiers: modifiers_of(state),
                        },
                        None => FrameEvent::MouseWheel {
                            up: button == 4,
                            modifiers: modifiers_of(state),
                        },
                    },
                ],
                ..self.unmoved()
            }
        } else {
            InputStep {
                actions: self.to_game(
                    seq![
                        InputAction::Warp { x, y, button: true },
                        InputAction::Button { button, pressed },
                    ],
                ),
                ..self.unmoved()
            }
        }
    }

    pub open spec fn after_crossing(self, x: i32, y: i32, entered: bool) -> InputStep {
        if entered {
            (X11Input { last_position: Some((x, y)), pointer_present: true, ..self }).unmoved()
        } else {
            InputStep {
                events: if self.overlay_open {
                    seq![FrameEvent::PointerGone]
                } else {
                    Seq::empty()
                },
                ..(X11Input { pointer_present: false, ..self }).unmoved()
            }
        }
    }

    /// Losing the focus closes the overlay.
    pub open spec fn after_focus(self, gained: bool) -> InputStep {
        let events = if self.overlay_open {
            seq![FrameEvent::WindowFocused { gained }]
        } else {
            Seq::empty()
        };
        if gained {
            InputStep { events, ..self.unmoved() }
        } else {
            InputStep {
                state: X11Input { pointer_present: false, overlay_open: false, ..self },
                events,
                toggled: self.overlay_open,
                actions: if self.overlay_open {
                    seq![InputAction::Ungrab]
                } else {
                    Seq::empty()
                },
            }
        }
    }

    pub open spec fn after(self, event: InputEvent) -> InputStep {
        match event.genuine_window() {
            Some(window) if self.route.accepts(window) => match event {
                InputEvent::Key { keycode, pressed, .. } => self.after_key(keycode, pressed),
                InputEvent::Motion { x, y, x_root, y_root, .. } => self.after_motion(
                    x,
                    y,
                    x_root,
                    y_root,
                ),
                InputEvent::Button { x, y, state, button, pressed, .. } => self.after_button(
                    x,
                    y,
                    state,
                    button,
                    pressed,
                ),
                InputEvent::Crossing { x, y, entered, .. } => self.after_crossing(x, y, entered),
                InputEvent::Focus { gained, .. } => self.after_focus(gained),
                InputEvent::Other => self.unmoved(),
            },
            _ => self.unmoved(),
        }
    }

    /// The state of a new connection.
    pub fn connect(route: InputRoute, insert_keycode: u8) -> (state: Self)
        ensures
            state == (X11Input {
                route,
                insert_keycode,
                overlay_open: false,
                pointer_mode: PointerMode::Absolute,
                last_root: None,
                last_position: None,
                pointer_present: false,
            }),
    {
        X11Input {
            route,
            insert_keycode,
            overlay_open: false,
            pointer_mode: PointerMode::Absolute,
            last_root: None,
            last_position: None,
            pointer_present: false,
        }
    }

    pub fn set_pointer_mode(&mut self, mode: PointerMode)
        ensures
            *final(self) == (X11Input { pointer_mode: mode, last_root: None, ..*old(self) }),
    {
        self.pointer_mode = mode;
        self.last_root = None;
    }

    pub open spec fn owner(self) -> CursorOwner {
        if self.overlay_open {
            CursorOwner::Overlay
        } else {
            CursorOwner::Native
        }
    }

    pub fn cursor_owner(&self) -> (owner: CursorOwner)
        ensures
            owner == self.owner(),
    {
        if self.overlay_open {
            CursorOwner::Overlay
        } else {
            CursorOwner::Native
        }
    }

    fn forward(&self, actions: &mut Vec<InputAction>, action: InputAction)
        ensures
            final(actions)@ == (if self.route.forwards(self.overlay_open) {
                old(actions)@.push(action)
            } else {
                old(actions)@
            }),
    {
        if should_forward_to_game(&self.route, self.overlay_open) {
            actions.push(action);
        }
    }

    fn key(
        &mut self,
        keycode: u32,
        pressed: bool,
        frame: &mut InputFrame,
        actions: &mut Vec<InputAction>,
    )
        requires
            old(actions)@.len() == 0,
        ensures
            ({
                let step = old(self).after_key(keycode, pressed);
                &&& *final(self) == step.state
                &&& final(frame).events@ == old(frame).events@ + step.events
                &&& *final(frame) == (InputFrame {
                    events: final(frame).events,
                    toggle_overlay: old(frame).toggle_overlay || step.toggled,
                    ..*old(frame)
                })
                &&& final(actions)@ == step.actions
            }),
    {
        let ghost before = frame.events@;
        let code: u8 = #[verifier::truncate]
        (keycode as u8);
        if code == self.insert_keycode {
            if pressed {
                frame.toggle_overlay = true;
                actions.push(
                    if self.overlay_open {
                        InputAction::Ungrab
                    } else {
                        InputAction::Grab
                    },
                );
                self.overlay_open = !self.overlay_open;
            }
            frame.events.push(FrameEvent::InsertKey { pressed });
        }
        let ghost step = old(self).after_key(keycode, pressed);
        assert(frame.events@ =~= before + step.events);
        assert(actions@ =~= step.actions);
    }

    fn motion(
        &mut self,
        x: i32,
        y: i32,
        x_root: i32,
        y_root: i32,
        frame: &mut InputFrame,
        actions: &mut Vec<InputAction>,
    )
        requires
            old(actions)@.len() == 0,
            i32::MIN <= old(self).moved(x_root, y_root).0 <= i32::MAX,
            i32::MIN <= old(self).moved(x_root, y_root).1 <= i32::MAX,
        ensures
            ({
                let step = old(self).after_motion(x, y, x_root, y_root);
                &&& *final(self) == step.state
                &&& final(frame).events@ == old(frame).events@ + step.events
                &&& *final(frame) == (InputFrame {
                    events: final(frame).events,
                    toggle_overlay: old(frame).toggle_overlay || step.toggled,
                    ..*old(frame)
                })
                &&& final(actions)@ == step.actions
            }),
    {
        let ghost before = frame.events@;
        let (dx, dy): (i32, i32) = match self.last_root {
            Some((last_x, last_y)) => (x_root - last_x, y_root - last_y),
            None => (0, 0),
        };
        self.last_root = Some((x_root, y_root));
        self.last_position = Some((x, y));
        self.pointer_present = true;
        match self.pointer_mode {
            PointerMode::Absolute => {
                if self.overlay_open {
                    frame.events.push(FrameEvent::PointerMoved { x, y });
                } else {
                    self.forward(actions, InputAction::Warp { x, y, button: false });
                }
            },
            PointerMode::Relative => {
                if self.overlay_open {
                    frame.events.push(FrameEvent::MouseMoved { dx, dy });
                } else {
                    self.forward(actions, InputAction::MoveRelative { dx, dy });
                }
            },
        }
        let ghost step = old(self).after_motion(x, y, x_root, y_root);
        assert(frame.events@ =~= before + step.events);
        assert(actions@ =~= step.actions);
    }

    fn button(
        &self,
        x: i32,
        y: i32,
        state: u32,
        button: u32,
        pressed: bool,
        frame: &mut InputFrame,
        actions: &mut Vec<InputAction>,
    )
        requires
            old(actions)@.len() == 0,
        ensures
            ({
                let step = self.after_button(x, y, state, button, pressed);
                &&& *self == step.state
                &&& final(frame).events@ == old(frame).events@ + step.events
                &&& *final(frame) == (InputFrame {
                    events: final(frame).events,
                    toggle_overlay: old(frame).toggle_overlay || step.toggled,
                    ..*old(frame)
                })
                &&& final(actions)@ == step.actions
            }),
    {
        let ghost before = frame.events@;
        let detail: u8 = #[verifier::truncate]
        (button as u8);
        let known: Option<PointerButton> = pointer_button(detail);
        let event: Option<FrameEvent> = match known {
            Some(known) => Some(
                FrameEvent::PointerButton {
                    x,
                    y,
                    button: known,
                    pressed,
                    modifiers: modifiers(state),
                },
            ),
            None => if pressed && (button == 4 || button == 5) {
                Some(FrameEvent::MouseWheel { up: button == 4, modifiers: modifiers(state) })
            } else {
                None
            },
        };
        if let Some(event) = event {
            if self.overlay_open {
                frame.events.push(event);
            } else {
                self.forward(actions, InputAction::Warp { x, y, button: true });
                self.forward(actions, InputAction::Button { button, pressed });
            }
        }
        let ghost step = self.after_button(x, y, state, button, pressed);
        assert(frame.events@ =~= before + step.events);
        assert(actions@ =~= step.actions);
    }

    fn crossing(&mut self, x: i32, y: i32, entered: bool, frame: &mut InputFrame)
        ensures
            ({
                let step = old(self).after_crossing(x, y, entered);
                &&& *final(self) == step.state
                &&& final(frame).events@ == old(frame).events@ + step.events
                &&& *final(frame) == (InputFrame {
                    events: final(frame).events,
                    toggle_overlay: old(frame).toggle_overlay || step.toggled,
                    ..*old(frame)
                })
            }),
    {
        let ghost before = frame.events@;
        if entered {
            self.last_position = Some((x, y));
            self.pointer_present = true;
        } else {
            self.pointer_present = false;
            if self.overlay_open {
                frame.events.push(FrameEvent::PointerGone);
            }
        }
        let ghost step = old(self).after_crossing(x, y, entered);
        assert(frame.events@ =~= before + step.events);
    }

    fn focus(&mut self, gained: bool, frame: &mut InputFrame, actions: &mut Vec<InputAction>)
        requires
            old(actions)@.len() == 0,
        ensures
            ({
                let step = old(self).after_focus(gained);
                &&& *final(self) == step.state
                &&& final(frame).events@ == old(frame).events@ + step.events
                &&& *final(frame) == (InputFrame {
                    events: final(frame).events,
                    toggle_overlay: old(frame).toggle_overlay || step.toggled,
                    ..*old(frame)
                })
                &&& final(actions)@ == step.actions
            }),
    {
        let ghost before = frame.events@;
        if self.overlay_open {
            frame.events.push(FrameEvent::WindowFocused { gained });
        }
        if !gained {
            self.pointer_present = false;
            if self.overlay_open {
                self.overlay_open = false;
                actions.push(InputAction::Ungrab);
                frame.toggle_overlay = true;
            }
        }
        let ghost step = old(self).after_focus(gained);
        assert(frame.events@ =~= before + step.events);
        assert(actions@ =~= step.actions);
    }

    /// Takes one event in: the frame is told of it, and the answer is what is
    /// to be done on the display.
    pub fn handle(&mut self, event: InputEvent, frame: &mut InputFrame) -> (actions: Vec<
        InputAction,
    >)
        requires
            motions_fit(*old(self), event),
        ensures
            ({
                let step = old(self).after(event);
                &&& *final(self) == step.state
                &&& final(frame).events@ == old(frame).events@ + step.events
                &&& *final(frame) == (InputFrame {
                    events: final(frame).events,
                    toggle_overlay: old(frame).toggle_overlay || step.toggled,
                    ..*old(frame)
                })
                &&& actions@ == step.actions
            }),
    {
        let ghost before = frame.events@;
        let mut actions: Vec<InputAction> = Vec::new();
        assert(before + Seq::<FrameEvent>::empty() =~= before);
        assert(actions@ =~= Seq::<InputAction>::empty());
        match event {
            InputEvent::Key { window, sent, keycode, pressed } => {
                if should_accept_event(&self.route, window) && !sent {
                    self.key(keycode, pressed, frame, &mut actions);
                }
            },
            InputEvent::Motion { window, sent, x, y, x_root, y_root } => {
                if should_accept_event(&self.route, window) && !sent {
                    self.motion(x, y, x_root, y_root, frame, &mut actions);
                }
            },
            InputEvent::Button { window, sent, x, y, state, button, pressed } => {
                if should_accept_event(&self.route, window) && !sent {
                    self.button(x, y, state, button, pressed, frame, &mut actions);
                }
            },
            InputEvent::Crossing { window, sent, x, y, entered } => {
                if should_accept_event(&self.route, window) && !sent {
                    self.crossing(x, y, entered, frame);
                }
            },
            InputEvent::Focus { window, sent, gained } => {
                if should_accept_event(&self.route, window) && !sent {
                    self.focus(gained, frame, &mut actions);
                }
            },
            InputEvent::Other => {},
        }
        actions
    }

    /// Ends a frame with what is known of the pointer.
    pub fn complete(&self, frame: &mut InputFrame)
        ensures
            *final(frame) == (InputFrame {
                pointer_position: self.last_position,
                pointer_present: self.pointer_present,
                cursor_owner: self.owner(),
                ..*old(frame)
            }),
    {
        frame.pointer_position = self.last_position;
        frame.pointer_present = self.pointer_present;
        frame.cursor_owner = self.cursor_owner();
    }
}

/// What several events come to, one after the other.
pub open spec fn after_all(state: X11Input, events: Seq<InputEvent>) -> InputStep
    decreases events.len(),
{
    if events.len() == 0 {
        state.unmoved()
    } else {
        let before = after_all(state, events.drop_last());
        let step = before.state.after(events.last());
        InputStep {
            state: step.state,
            events: before.events + step.events,
            toggled: before.toggled || step.toggled,
            actions: before.actions + step.actions,
        }
    }
}

/// The way from one motion to the next can be told in both directions. Motions
/// that do not count may be anywhere.
pub open spec fn motions_fit(state: X11Input, event: InputEvent) -> bool {
    event matches InputEvent::Motion { window, sent, x_root, y_root, .. } ==> !sent
        && state.route.accepts(window) ==> {
        &&& i32::MIN <= state.moved(x_root, y_root).0 <= i32::MAX
        &&& i32::MIN <= state.moved(x_root, y_root).1 <= i32::MAX
    }
}

impl X11Input {
    /// Takes in all events that wait, and says what came of them.
    pub fn poll(&mut self, events: &[InputEvent]) -> (polled: (InputFrame, Vec<InputAction>))
        requires
            forall|i: int|
                0 <= i < events@.len() ==> motions_fit(
                    after_all(*old(self), #[trigger] events@.take(i)).state,
                    events@[i],
                ),
        ensures
            ({
                let step = after_all(*old(self), events@);
                let frame = polled.0;
                &&& *final(self) == step.state
                &&& frame.events@ == step.events
                &&& frame.toggle_overlay == step.toggled
                &&& frame.pointer_position == step.state.last_position
                &&& frame.pointer_present == step.state.pointer_present
                &&& frame.cursor_owner == step.state.owner()
                &&& polled.1@ == step.actions
            }),
    {
        let ghost entry = *self;
        let mut frame: InputFrame = InputFrame::default();
        let mut actions: Vec<InputAction> = Vec::new();
        let mut at: usize = 0;
        assert(events@.take(0) =~= Seq::empty());
        assert(frame.events@ =~= Seq::<FrameEvent>::empty());
        assert(actions@ =~= Seq::<InputAction>::empty());
        while at < events.len()
            invariant
                entry == *old(self),
                at <= events@.len(),
                forall|i: int|
                    0 <= i < events@.len() ==> motions_fit(
                        after_all(entry, #[trigger] events@.take(i)).state,
                        events@[i],
                    ),
                ({
                    let step = after_all(entry, events@.take(at as int));
                    &&& *self == step.state
                    &&& frame.events@ == step.events
                    &&& frame.toggle_overlay == step.toggled
                    &&& actions@ == step.actions
                }),
            decreases events@.len() - at,
        {
            assert(events@.take(at + 1).drop_last() =~= events@.take(at as int));
            assert(motions_fit(
                after_all(entry, events@.take(at as int)).state,
                events@[at as int],
            ));
            let mut done: Vec<InputAction> = self.handle(events[at], &mut frame);
            actions.append(&mut done);
            at = at + 1;
        }
        assert(events@.take(at as int) =~= events@);
        self.complete(&mut frame);
        (frame, actions)
    }
}

/// Events of other windows, and events that another program sent, change
/// nothing.
pub proof fn foreign_events_change_nothing(state: X11Input, event: InputEvent)
    requires
        event.genuine_window() is None || !state.route.accepts(event.genuine_window().unwrap()),
    ensures
        state.after(event) == state.unmoved(),
        motions_fit(state, event),
{
}

/// However many such events wait, taking them in changes nothing: the overlay
/// and the game hear of none, and the pointer is where it was. Nothing is asked
/// of where they happened.
pub proof fn foreign_events_have_no_effect(state: X11Input, events: Seq<InputEvent>)
    requires
        forall|i: int|
            0 <= i < events.len() ==> ((#[trigger] events[i]).genuine_window() is None
                || !state.route.accepts(events[i].genuine_window().unwrap())),
    ensures
        after_all(state, events) == state.unmoved(),
        forall|i: int|
            0 <= i < events.len() ==> motions_fit(
                after_all(state, #[trigger] events.take(i)).state,
                events[i],
            ),
    decreases events.len(),
{
    if events.len() > 0 {
        let before = events.drop_last();
        assert forall|i: int| 0 <= i < before.len() implies ((#[trigger] before[i]).genuine_window()
            is None || !state.route.accepts(before[i].genuine_window().unwrap())) by {
            assert(before[i] == events[i]);
        }
        foreign_events_have_no_effect(state, before);
        foreign_events_change_nothing(state, events.last());
        assert(after_all(state, events) =~= state.unmoved());
        assert forall|i: int| 0 <= i < events.len() implies motions_fit(
            after_all(state, #[trigger] events.take(i)).state,
            events[i],
        ) by {
            if i < before.len() {
                assert(before.take(i) =~= events.take(i));
                assert(before[i] == events[i]);
            } else {
                assert(events.take(i) =~= before);
            }
        }
    }
}

/// While the overlay is open the game gets nothing.
pub proof fn an_open_overlay_keeps_events_from_the_game(
    state: X11Input,
    event: InputEvent,
    at: int,
)
    requires
        state.overlay_open,
        0 <= at < state.after(event).actions.len(),
    ensures
        state.after(event).actions[at] == InputAction::Ungrab,
{
}

/// While the overlay is closed it gets nothing but its own key.
pub proof fn a_closed_overlay_gets_only_its_key(state: X11Input, event: InputEvent, at: int)
    requires
        !state.overlay_open,
        0 <= at < state.after(event).events.len(),
    ensures
        state.after(event).events[at] is InsertKey,
{
}

/// A game window that is the event window itself gets nothing, so that what is
/// passed on never comes back.
pub proof fn nothing_is_fed_back(state: X11Input, event: InputEvent, at: int)
    requires
        state.route.event_window == state.route.game_window,
        0 <= at < state.after(event).actions.len(),
    ensures
        state.after(event).actions[at] == InputAction::Grab || state.after(event).actions[at]
            == InputAction::Ungrab,
{
}

/// The overlay holds the grab exactly while it is open: it is taken and given
/// back with every change, and never else.
pub proof fn the_grab_follows_the_overlay(state: X11Input, event: InputEvent)
    ensures
        ({
            let step = state.after(event);
            &&& step.toggled == (step.state.overlay_open != state.overlay_open)
            &&& step.actions.contains(InputAction::Grab) == (step.toggled
                && step.state.overlay_open)
            &&& step.actions.contains(InputAction::Ungrab) == (step.toggled
                && !step.state.overlay_open)
        }),
{
    let step = state.after(event);
    if step.toggled {
        assert(step.actions[0] == (if state.overlay_open {
            InputAction::Ungrab
        } else {
            InputAction::Grab
        }));
    }
}

/// Losing the focus leaves the cursor to the display, whatever was before.
pub proof fn losing_focus_restores_the_cursor(state: X11Input, window: u64)
    requires
        state.route.accepts(window),
    ensures
        state.after(InputEvent::Focus { window, sent: false, gained: false }).state.owner()
            == CursorOwner::Native,
{
}

/// The game is passed what the overlay does not take, where both windows are
/// there and differ.
pub open spec fn game_listens(state: X11Input) -> bool {
    &&& !state.overlay_open
    &&& state.route.event_window != 0
    &&& state.route.game_window != 0
    &&& state.route.game_window != state.route.event_window
}

/// An event that another program sent, or that is of another window than that
/// of the events, moves nothing.
pub proof fn only_genuine_events_of_the_window_count(state: X11Input, event: InputEvent)
    requires
        match event {
            InputEvent::Key { window, sent, .. }
            | InputEvent::Motion { window, sent, .. }
            | InputEvent::Button { window, sent, .. }
            | InputEvent::Crossing { window, sent, .. }
            | InputEvent::Focus { window, sent, .. } => sent || window != state.route.event_window
                || window == 0,
            InputEvent::Other => true,
        },
    ensures
        ({
            let step = state.after(event);
            &&& step.state == state
            &&& step.events.len() == 0
            &&& step.actions.len() == 0
            &&& !step.toggled
        }),
{
}

/// The overlay's key opens a closed overlay and closes an open one when it is
/// pressed, and the overlay hears of press and release. Other keys do nothing.
pub proof fn the_key_toggles_the_overlay(state: X11Input, keycode: u32, pressed: bool)
    requires
        state.route.event_window != 0,
    ensures
        ({
            let window = state.route.event_window;
            let step = state.after(InputEvent::Key { window, sent: false, keycode, pressed });
            if keycode as u8 == state.insert_keycode {
                &&& step.events == seq![FrameEvent::InsertKey { pressed }]
                &&& step.toggled == pressed
                &&& step.state == X11Input {
                    overlay_open: if pressed {
                        !state.overlay_open
                    } else {
                        state.overlay_open
                    },
                    ..state
                }
                &&& !pressed ==> step.actions.len() == 0
                &&& pressed ==> step.actions.len() == 1 && step.actions[0] == if state.overlay_open {
                    InputAction::Ungrab
                } else {
                    InputAction::Grab
                }
            } else {
                &&& step.state == state
                &&& step.events.len() == 0
                &&& step.actions.len() == 0
                &&& !step.toggled
            }
        }),
{
}

/// A motion is remembered, and told to the overlay where it is open, else to
/// the game where it listens: as the place of the pointer, or as the way from
/// the motion before.
pub proof fn a_motion_goes_to_overlay_or_game(
    state: X11Input,
    x: i32,
    y: i32,
    x_root: i32,
    y_root: i32,
)
    requires
        state.route.event_window != 0,
        motions_fit(
            state,
            InputEvent::Motion {
                window: state.route.event_window,
                sent: false,
                x,
                y,
                x_root,
                y_root,
            },
        ),
    ensures
        ({
            let window = state.route.event_window;
            let step = state.after(
                InputEvent::Motion { window, sent: false, x, y, x_root, y_root },
            );
            &&& step.state == X11Input {
                last_root: Some((x_root, y_root)),
                last_position: Some((x, y)),
                pointer_present: true,
                ..state
            }
            &&& !step.toggled
            &&& state.overlay_open ==> step.events.len() == 1 && step.actions.len() == 0
            &&& !state.overlay_open ==> step.events.len() == 0
            &&& !state.overlay_open ==> step.actions.len() == (if game_listens(state) {
                1int
            } else {
                0int
            })
            &&& state.pointer_mode == PointerMode::Absolute && state.overlay_open ==> step.events[0]
                == (FrameEvent::PointerMoved { x, y })
            &&& state.pointer_mode == PointerMode::Absolute && game_listens(state)
                ==> step.actions[0] == (InputAction::Warp { x, y, button: false })
            &&& state.pointer_mode == PointerMode::Relative && state.overlay_open ==> {
                &&& step.events[0] is MouseMoved
                &&& state.last_root is None ==> step.events[0] == (FrameEvent::MouseMoved {
                    dx: 0,
                    dy: 0,
                })
                &&& state.last_root matches Some(last) ==> step.events[0]->dx == x_root - last.0
                    && step.events[0]->dy == y_root - last.1
            }
            &&& state.pointer_mode == PointerMode::Relative && game_listens(state) ==> {
                &&& step.actions[0] is MoveRelative
                &&& state.last_root is None ==> step.actions[0] == (InputAction::MoveRelative {
                    dx: 0,
                    dy: 0,
                })
                &&& state.last_root matches Some(last) ==> step.actions[0]->dx == x_root - last.0
                    && step.actions[0]->dy == y_root - last.1
            }
        }),
{
}

/// The three buttons of the pointer are told with their press and release, the
/// wheel with its press alone. An open overlay gets them with the modifier keys
/// that are held; a game that listens gets the pointer moved there first and
/// then the button. Other buttons do nothing, and no button changes the state.
pub proof fn a_button_goes_to_overlay_or_game(
    state: X11Input,
    x: i32,
    y: i32,
    keys: u32,
    button: u32,
    pressed: bool,
)
    requires
        state.route.event_window != 0,
    ensures
        ({
            let window = state.route.event_window;
            let step = state.after(
                InputEvent::Button { window, sent: false, x, y, state: keys, button, pressed },
            );
            let detail = button as u8;
            let told = 1 <= detail <= 3 || (pressed && (button == 4 || button == 5));
            let held = Modifiers {
                alt: keys & 8 != 0,
                ctrl: keys & 4 != 0,
                shift: keys & 1 != 0,
            };
            let known = if detail == 1 {
                PointerButton::Primary
            } else if detail == 2 {
                PointerButton::Middle
            } else {
                PointerButton::Secondary
            };
            &&& step.state == state
            &&& !step.toggled
            &&& !told ==> step.events.len() == 0 && step.actions.len() == 0
            &&& told && state.overlay_open ==> {
                &&& step.actions.len() == 0
                &&& step.events.len() == 1
                &&& step.events[0] == if 1 <= detail <= 3 {
                    FrameEvent::PointerButton { x, y, button: known, pressed, modifiers: held }
                } else {
                    FrameEvent::MouseWheel { up: button == 4, modifiers: held }
                }
            }
            &&& told && !state.overlay_open ==> step.events.len() == 0
            &&& told && game_listens(state) ==> {
                &&& step.actions.len() == 2
                &&& step.actions[0] == (InputAction::Warp { x, y, button: true })
                &&& step.actions[1] == (InputAction::Button { button, pressed })
            }
            &&& !game_listens(state) ==> step.actions.len() == 0
        }),
{
}

/// The pointer is there from the moment it enters until it leaves, at the place
/// where it entered. An open overlay hears that it is gone.
pub proof fn the_pointer_comes_and_goes(state: X11Input, x: i32, y: i32)
    requires
        state.route.event_window != 0,
    ensures
        ({
            let window = state.route.event_window;
            let entered = state.after(
                InputEvent::Crossing { window, sent: false, x, y, entered: true },
            );
            let left = state.after(
                InputEvent::Crossing { window, sent: false, x, y, entered: false },
            );
            &&& entered.state == X11Input {
                last_position: Some((x, y)),
                pointer_present: true,
                ..state
            }
            &&& entered.events.len() == 0
            &&& entered.actions.len() == 0
            &&& !entered.toggled
            &&& left.state == X11Input { pointer_present: false, ..state }
            &&& left.events == (if state.overlay_open {
                seq![FrameEvent::PointerGone]
            } else {
                Seq::empty()
            })
            &&& left.actions.len() == 0
            &&& !left.toggled
        }),
{
}

/// An open overlay hears of the focus; losing it closes the overlay and gives
/// the grab back, and the pointer counts as gone.
pub proof fn losing_the_focus_closes_the_overlay(state: X11Input, gained: bool)
    requires
        state.route.event_window != 0,
    ensures
        ({
            let window = state.route.event_window;
            let step = state.after(InputEvent::Focus { window, sent: false, gained });
            &&& step.events == (if state.overlay_open {
                seq![FrameEvent::WindowFocused { gained }]
            } else {
                Seq::empty()
            })
            &&& gained ==> step.state == state && !step.toggled && step.actions.len() == 0
            &&& !gained ==> {
                &&& step.state == X11Input { pointer_present: false, overlay_open: false, ..state }
                &&& step.toggled == state.overlay_open
                &&& step.actions == (if state.overlay_open {
                    seq![InputAction::Ungrab]
                } else {
                    Seq::empty()
                })
            }
        }),
{
}

/// Events are taken in one after the other: what two lots of them come to is
/// what the first comes to, and then what the second comes to from there.
pub proof fn events_are_taken_in_order(
    state: X11Input,
    first: Seq<InputEvent>,
    second: Seq<InputEvent>,
)
    ensures
        ({
            let one = after_all(state, first);
            let two = after_all(one.state, second);
            let both = after_all(state, first + second);
            &&& both.state == two.state
            &&& both.events == one.events + two.events
            &&& both.actions == one.actions + two.actions
            &&& both.toggled == (one.toggled || two.toggled)
        }),
    decreases second.len(),
{
    let one = after_all(state, first);
    if second.len() == 0 {
        assert(first + second =~= first);
        assert(one.events + Seq::<FrameEvent>::empty() =~= one.events);
        assert(one.actions + Seq::<InputAction>::empty() =~= one.actions);
    } else {
        events_are_taken_in_order(state, first, second.drop_last());
        assert((first + second).drop_last() =~= first + second.drop_last());
        let two = after_all(one.state, second);
        let both = after_all(state, first + second);
        assert(both.events =~= one.events + two.events);
        assert(both.actions =~= one.actions + two.actions);
    }
}

/// One event comes to what it comes to.
pub proof fn one_event_is_taken_as_it_is(state: X11Input, event: InputEvent)
    ensures
        ({
            let all = after_all(state, seq![event]);
            let step = state.after(event);
            &&& all.state == step.state
            &&& all.events == step.events
            &&& all.actions == step.actions
            &&& all.toggled == step.toggled
        }),
{
    let none = after_all(state, Seq::empty());
    let all = after_all(state, seq![event]);
    let step = state.after(event);
    assert(seq![event].drop_last() =~= Seq::empty());
    assert(none.state == state);
    assert(all.events =~= step.events);
    assert(all.actions =~= step.actions);
}

/// The cursor is the overlay's exactly while it is open.
pub proof fn the_cursor_follows_the_overlay(state: X11Input)
    ensures
        state.owner() == CursorOwner::Overlay <==> state.overlay_open,
{
}

} // verus!
