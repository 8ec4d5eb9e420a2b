//! Output geometry: rectangles, monitors, windows, and what a surface accepts.

use vstd::prelude::*;
use vstd::string::StringExecFns;

pub mod negotiation;
pub mod presenter;
pub mod windows;

verus! {

#[derive(Debug, Clone, Copy, PartialEq, Eq, Structural)]
pub struct Rect {
    pub x: i32,
    pub y: i32,
    pub width: u32,
    pub height: u32,
}

impl Rect {
    /// Neither side is zero.
    pub open spec fn valid(self) -> bool {
        self.width != 0 && self.height != 0
    }

    /// The centre of `window` lies in this rectangle: on its left and top
    /// edge or inside, and before its right and bottom edge. Coordinates are
    /// doubled, so that the centre is an integer.
    pub open spec fn holds_center(self, window: Rect) -> bool {
        let center_x = 2 * window.x + window.width;
        let center_y = 2 * window.y + window.height;
        &&& self.valid()
        &&& 2 * self.x <= center_x < 2 * (self.x + self.width)
        &&& 2 * self.y <= center_y < 2 * (self.y + self.height)
    }

    pub fn new(x: i32, y: i32, width: u32, height: u32) -> (rect: Self)
        ensures
            rect == (Rect { x, y, width, height }),
    {
        Rect { x, y, width, height }
    }

    pub fn is_valid(self) -> (valid: bool)
        ensures
            valid == self.valid(),
    {
        self.width != 0 && self.height != 0
    }

    pub fn extent(self) -> (extent: Extent)
        ensures
            extent == (Extent { width: self.width, height: self.height }),
    {
        Extent::new(self.width, self.height)
    }

    pub fn contains_center(self, window: Self) -> (inside: bool)
        ensures
            inside == self.holds_center(window),
    {
        if !self.is_valid() {
            return false;
        }
        let center_x: i64 = (window.x as i64) * 2 + (window.width as i64);
        let center_y: i64 = (window.y as i64) * 2 + (window.height as i64);
        let left: i64 = (self.x as i64) * 2;
        let top: i64 = (self.y as i64) * 2;
        let right: i64 = ((self.x as i64) + (self.width as i64)) * 2;
        let bottom: i64 = ((self.y as i64) + (self.height as i64)) * 2;
        left <= center_x && center_x < right && top <= center_y && center_y < bottom
    }
}

#[derive(Debug, Clone, Copy, PartialEq, Eq, Structural)]
pub struct Extent {
    pub width: u32,
    pub height: u32,
}

impl Extent {
    pub open spec fn valid(self) -> bool {
        self.width != 0 && self.height != 0
    }

    pub fn new(width: u32, height: u32) -> (extent: Self)
        ensures
            extent == (Extent { width, height }),
    {
        Extent { width, height }
    }

    pub fn is_valid(self) -> (valid: bool)
        ensures
            valid == self.valid(),
    {
        self.width != 0 && self.height != 0
    }
}

/// The extents that a surface takes: exactly one, or any within bounds.
#[derive(Debug, Clone, Copy, PartialEq, Eq, Structural)]
pub enum SurfaceExtent {
    Fixed(Extent),
    Range { minimum: Extent, maximum: Extent },
}

impl SurfaceExtent {
    pub open spec fn takes(self, target: Extent) -> bool {
        match self {
            SurfaceExtent::Fixed(extent) => extent == target,
            SurfaceExtent::Range { minimum, maximum } => {
                &&& minimum.width <= target.width <= maximum.width
                &&& minimum.height <= target.height <= maximum.height
            },
        }
    }

    pub fn fixed(extent: Extent) -> (surface: Self)
        ensures
            surface == SurfaceExtent::Fixed(extent),
    {
        SurfaceExtent::Fixed(extent)
    }

    pub fn accepts(self, target: Extent) -> (accepted: bool)
        ensures
            accepted == self.takes(target),
    {
        match self {
            SurfaceExtent::Fixed(extent) => extent == target,
            SurfaceExtent::Range { minimum, maximum } => {
                target.width >= minimum.width && target.width <= maximum.width && target.height
                    >= minimum.height && target.height <= maximum.height
            },
        }
    }
}

#[derive(Debug, Clone, Copy, PartialEq, Eq, Structural)]
pub struct Monitor {
    pub rect: Rect,
}

impl Monitor {
    pub fn new(rect: Rect) -> (monitor: Self)
        ensures
            monitor.rect == rect,
    {
        Monitor { rect }
    }
}

#[derive(Debug, Clone, Copy, PartialEq, Eq, Structural)]
pub struct X11Window {
    pub id: u64,
    pub rect: Rect,
    pub fullscreen: bool,
}

impl X11Window {
    pub fn new(id: u64) -> (window: Self)
        ensures
            window == (X11Window {
                id,
                rect: Rect { x: 0, y: 0, width: 0, height: 0 },
                fullscreen: false,
            }),
    {
        X11Window { id, rect: Rect::new(0, 0, 0, 0), fullscreen: false }
    }
}

#[derive(Debug, Clone, Copy, PartialEq, Eq, Structural)]
pub struct WindowSnapshot {
    pub rect: Rect,
    pub fullscreen: bool,
}

/// What a window was before it was promoted, and the monitor it was given.
#[derive(Debug, Clone, Copy, PartialEq, Eq, Structural)]
pub struct BorderlessLease {
    pub window: u64,
    pub original: WindowSnapshot,
    pub monitor: Monitor,
}

impl BorderlessLease {
    /// The promotion, not the window's owner, made the window fullscreen.
    pub fn added_fullscreen(self) -> (added: bool)
        ensures
            added == !self.original.fullscreen,
    {
        !self.original.fullscreen
    }

    pub fn should_remove_fullscreen(self, current_fullscreen: bool) -> (remove: bool)
        ensures
            remove == (!self.original.fullscreen && current_fullscreen),
    {
        self.added_fullscreen() && current_fullscreen
    }
}

#[derive(Debug, Clone, Copy, PartialEq, Eq, Structural)]
pub struct DisplayTarget {
    pub window: X11Window,
    pub monitor: Monitor,
}

impl DisplayTarget {
    /// Fullscreen by its own account, or by covering its monitor exactly.
    pub fn is_fullscreen(self) -> (fullscreen: bool)
        ensures
            fullscreen == (self.window.fullscreen || self.window.rect == self.monitor.rect),
    {
        self.window.fullscreen || self.window.rect == self.monitor.rect
    }

    pub fn new(window: X11Window, monitor: Monitor) -> (target: Self)
        ensures
            target == (DisplayTarget { window, monitor }),
    {
        DisplayTarget { window, monitor }
    }

    pub fn output_extent(self) -> (extent: [u32; 2])
        ensures
            extent@ == seq![self.monitor.rect.width, self.monitor.rect.height],
    {
        [self.monitor.rect.width, self.monitor.rect.height]
    }
}

/// The first monitor that holds the centre of a valid window.
pub open spec fn monitor_of(window: Rect, monitors: Seq<Monitor>) -> Option<Monitor>
    decreases monitors.len(),
{
    if !window.valid() || monitors.len() == 0 {
        None
    } else if monitors[0].rect.holds_center(window) {
        Some(monitors[0])
    } else {
        monitor_of(window, monitors.drop_first())
    }
}

pub fn select_monitor(window: Rect, monitors: &[Monitor]) -> (selected: Option<Monitor>)
    ensures
        selected == monitor_of(window, monitors@),
{
    if !window.is_valid() {
        return None;
    }
    let mut index: usize = 0;
    assert(monitors@.skip(0) == monitors@);
    while index < monitors.len()
        invariant
            index <= monitors.len(),
            window.valid(),
            monitor_of(window, monitors@) == monitor_of(window, monitors@.skip(index as int)),
        decreases monitors.len() - index,
    {
        let monitor: Monitor = monitors[index];
        assert(monitors@.skip(index as int)[0] == monitor);
        if monitor.rect.contains_center(window) {
            return Some(monitor);
        }
        assert(monitors@.skip(index as int).drop_first() == monitors@.skip(index + 1));
        index = index + 1;
    }
    None
}

/// A monitor is selected exactly when the window is valid and some monitor
/// holds its centre; the selected one does, and none before it does.
pub proof fn selection_is_the_first_match(window: Rect, monitors: Seq<Monitor>)
    ensures
        monitor_of(window, monitors) is Some <==> window.valid() && exists|i: int|
            0 <= i < monitors.len() && (#[trigger] monitors[i]).rect.holds_center(window),
        monitor_of(window, monitors) matches Some(monitor) ==> exists|i: int|
            {
                &&& 0 <= i < monitors.len()
                &&& #[trigger] monitors[i] == monitor
                &&& monitor.rect.holds_center(window)
                &&& forall|j: int|
                    0 <= j < i ==> !(#[trigger] monitors[j]).rect.holds_center(window)
            },
    decreases monitors.len(),
{
    if window.valid() && monitors.len() > 0 && !monitors[0].rect.holds_center(window) {
        let rest = monitors.drop_first();
        selection_is_the_first_match(window, rest);
        assert forall|i: int| 0 <= i < rest.len() implies rest[i] == #[trigger] monitors[i + 1] by {
        }
        if monitor_of(window, rest) is Some {
            let i = choose|i: int|
                {
                    &&& 0 <= i < rest.len()
                    &&& #[trigger] rest[i] == monitor_of(window, rest).unwrap()
                    &&& rest[i].rect.holds_center(window)
                    &&& forall|j: int|
                        0 <= j < i ==> !(#[trigger] rest[j]).rect.holds_center(window)
                };
            assert(monitors[i + 1] == rest[i]);
            assert forall|j: int| 0 <= j < i + 1 implies !(
            #[trigger] monitors[j]).rect.holds_center(window) by {
                if j > 0 {
                    assert(rest[j - 1] == monitors[j]);
                }
            }
        } else {
            assert forall|i: int| 0 <= i < monitors.len() implies !(
            #[trigger] monitors[i]).rect.holds_center(window) by {
                if i > 0 {
                    assert(rest[i - 1] == monitors[i]);
                }
            }
        }
    } else if window.valid() && monitors.len() > 0 {
        assert(monitors[0] == monitor_of(window, monitors).unwrap());
    }
}

/// What kept an operation on the display from being carried out.
#[derive(Debug, PartialEq, Eq)]
pub enum DisplayError {
    Operation(String),
    Geometry,
    Monitor,
}

impl DisplayError {
    pub open spec fn text(self) -> Seq<char> {
        match self {
            DisplayError::Operation(reason) => "X11 operation failed: "@ + reason@,
            DisplayError::Geometry => "X11 window geometry is unavailable"@,
            DisplayError::Monitor => "X11 monitor discovery is unavailable"@,
        }
    }

    /// The error in words.
    pub fn message(&self) -> (message: String)
        ensures
            message@ == self.text(),
    {
        match self {
            DisplayError::Operation(reason) => String::from_str("X11 operation failed: ").concat(
                reason.as_str(),
            ),
            DisplayError::Geometry => String::from_str("X11 window geometry is unavailable"),
            DisplayError::Monitor => String::from_str("X11 monitor discovery is unavailable"),
        }
    }
}

/// A window that lies within a monitor is on it, and one that lies beside it is
/// not.
pub proof fn a_window_is_where_its_centre_is(monitor: Rect, window: Rect)
    requires
        window.width > 0,
        window.height > 0,
    ensures
        monitor.x <= window.x && window.x + window.width <= monitor.x + monitor.width && monitor.y
            <= window.y && window.y + window.height <= monitor.y + monitor.height
            ==> monitor.holds_center(window),
        window.x + window.width <= monitor.x || monitor.x + monitor.width <= window.x || window.y
            + window.height <= monitor.y || monitor.y + monitor.height <= window.y
            ==> !monitor.holds_center(window),
        monitor.width == 0 || monitor.height == 0 ==> !monitor.holds_center(window),
{
}

/// Among monitors that lie beside one another, a window within one of them is
/// on that one.
pub proof fn a_window_within_a_monitor_selects_it(
    window: Rect,
    monitors: Seq<Monitor>,
    at: int,
)
    requires
        window.width > 0,
        window.height > 0,
        0 <= at < monitors.len(),
        ({
            let rect = monitors[at].rect;
            &&& rect.x <= window.x
            &&& window.x + window.width <= rect.x + rect.width
            &&& rect.y <= window.y
            &&& window.y + window.height <= rect.y + rect.height
        }),
        forall|j: int|
            0 <= j < at ==> {
                let other = (#[trigger] monitors[j]).rect;
                ||| window.x + window.width <= other.x
                ||| other.x + other.width <= window.x
                ||| window.y + window.height <= other.y
                ||| other.y + other.height <= window.y
            },
    ensures
        monitor_of(window, monitors) == Some(monitors[at]),
    decreases at,
{
    a_window_is_where_its_centre_is(monitors[0].rect, window);
    if at > 0 {
        assert(!monitors[0].rect.holds_center(window));
        let rest = monitors.drop_first();
        assert forall|j: int| 0 <= j < at - 1 implies rest[j] == #[trigger] monitors[j + 1] by {
        }
        assert(rest[at - 1] == monitors[at]);
        assert forall|j: int| 0 <= j < at - 1 implies {
            let other = (#[trigger] rest[j]).rect;
            ||| window.x + window.width <= other.x
            ||| other.x + other.width <= window.x
            ||| window.y + window.height <= other.y
            ||| other.y + other.height <= window.y
        } by {
            assert(rest[j] == monitors[j + 1]);
        }
        a_window_within_a_monitor_selects_it(window, rest, at - 1);
    }
}

/// A surface of one extent takes that one alone; any other takes what lies
/// within its bounds.
pub proof fn surfaces_take_what_they_offer(surface: SurfaceExtent, target: Extent)
    ensures
        surface matches SurfaceExtent::Fixed(extent) ==> (surface.takes(target) <==> target.width
            == extent.width && target.height == extent.height),
        surface matches SurfaceExtent::Range { minimum, maximum } ==> (surface.takes(target)
            <==> minimum.width <= target.width <= maximum.width && minimum.height <= target.height
            <= maximum.height),
{
}

/// An extent is valid where it has an area.
pub proof fn a_valid_extent_has_an_area(extent: Extent)
    ensures
        extent.valid() <==> extent.width * extent.height > 0,
{
    let width = extent.width as int;
    let height = extent.height as int;
    assert(width * height > 0 <==> width > 0 && height > 0) by (nonlinear_arith)
        requires
            width >= 0,
            height >= 0,
    ;
}

} // verus!
