//! Window management, one decision at a time.
//!
//! Requests to the window system are made elsewhere. The functions here say
//! which request comes next and what follows from its answer.

use vstd::prelude::*;

use super::{
    select_monitor, BorderlessLease, DisplayError, Monitor, Rect, WindowSnapshot, X11Window,
};

verus! {

/// A coordinate difference held to the range of a coordinate.
pub open spec fn saturated(value: int) -> int {
    if value < i32::MIN {
        i32::MIN as int
    } else if value > i32::MAX {
        i32::MAX as int
    } else {
        value
    }
}

fn saturating_difference(left: i32, right: i32) -> (difference: i32)
    ensures
        difference == saturated(left - right),
{
    let exact: i64 = (left as i64) - (right as i64);
    if exact < i32::MIN as i64 {
        i32::MIN
    } else if exact > i32::MAX as i64 {
        i32::MAX
    } else {
        exact as i32
    }
}

/// Translates a desired root-relative position into the parent-relative
/// coordinates that a window is configured with. Windows may be reparented
/// into frame windows, so root coordinates are shifted by the parent origin;
/// for directly parented windows the origin is (0, 0).
pub fn parent_relative_position(desired: (i32, i32), parent_origin: (i32, i32)) -> (position: (
    i32,
    i32,
))
    ensures
        position.0 == saturated(desired.0 - parent_origin.0),
        position.1 == saturated(desired.1 - parent_origin.1),
{
    (
        saturating_difference(desired.0, parent_origin.0),
        saturating_difference(desired.1, parent_origin.1),
    )
}

/// A top-level candidate: its id, the process it names, its rectangle.
pub type WindowCandidate = (u64, Option<u32>, Rect);

pub open spec fn belongs(window: WindowCandidate, pid: u32) -> bool {
    window.1 == Some(pid) && window.2.valid()
}

pub open spec fn area(window: WindowCandidate) -> int {
    window.2.width * window.2.height
}

/// Larger windows come first, and among equally large ones the smaller id.
pub open spec fn preferred(window: WindowCandidate, other: WindowCandidate) -> bool {
    area(window) > area(other) || (area(window) == area(other) && window.0 <= other.0)
}

/// A window of the process that is preferred to all others of it.
pub open spec fn best_window(windows: Seq<WindowCandidate>, pid: u32, i: int) -> bool {
    &&& 0 <= i < windows.len()
    &&& belongs(windows[i], pid)
    &&& forall|j: int|
        0 <= j < windows.len() && belongs(#[trigger] windows[j], pid) ==> preferred(
            windows[i],
            windows[j],
        )
}

/// What the search for a process's window gives: the id of the best window,
/// or nothing where the process has no valid one.
pub open spec fn chosen_window(
    windows: Seq<WindowCandidate>,
    pid: u32,
    selected: Option<u64>,
) -> bool {
    match selected {
        Some(id) => exists|i: int| #[trigger]
            best_window(windows, pid, i) && windows[i].0 == id,
        None => forall|j: int| 0 <= j < windows.len() ==> !belongs(#[trigger] windows[j], pid),
    }
}

/// The window of a process is the largest of its valid ones.
pub fn select_window_for_pid(windows: &[WindowCandidate], pid: u32) -> (selected: Option<u64>)
    ensures
        chosen_window(windows@, pid, selected),
{
    let mut best: Option<(u64, u64)> = None;
    let ghost mut witness: int = 0;
    let mut index: usize = 0;
    while index < windows.len()
        invariant
            index <= windows.len(),
            match best {
                Some((id, size)) => {
                    &&& 0 <= witness < index
                    &&& windows@[witness].0 == id
                    &&& area(windows@[witness]) == size
                    &&& belongs(windows@[witness], pid)
                    &&& forall|j: int|
                        0 <= j < index && belongs(#[trigger] windows@[j], pid) ==> preferred(
                            windows@[witness],
                            windows@[j],
                        )
                },
                None => forall|j: int|
                    0 <= j < index ==> !belongs(#[trigger] windows@[j], pid),
            },
        decreases windows.len() - index,
    {
        let (id, window_pid, rect): WindowCandidate = windows[index];
        let matches: bool = match window_pid {
            Some(candidate) => candidate == pid,
            None => false,
        };
        if matches && rect.is_valid() {
            let width: u64 = rect.width as u64;
            let height: u64 = rect.height as u64;
            assert(width * height <= 0xffff_ffff * 0xffff_ffff) by (nonlinear_arith)
                requires
                    width <= 0xffff_ffff,
                    height <= 0xffff_ffff,
            ;
            let size: u64 = width * height;
            assert(area(windows@[index as int]) == size);
            let better: bool = match best {
                Some((best_id, best_size)) => size > best_size || (size == best_size && id
                    <= best_id),
                None => true,
            };
            if better {
                best = Some((id, size));
                proof {
                    witness = index as int;
                }
            }
        }
        index = index + 1;
    }
    match best {
        Some((id, _)) => {
            assert(best_window(windows@, pid, witness));
            Some(id)
        },
        None => None,
    }
}

/// The windows below the root, visited parent by parent.
#[derive(Debug)]
pub struct WindowWalk {
    pending: Vec<u32>,
    found: Vec<WindowCandidate>,
}

#[verifier::ext_equal]
pub struct WindowWalkModel {
    pub pending: Seq<u32>,
    pub found: Seq<WindowCandidate>,
}

impl View for WindowWalk {
    type V = WindowWalkModel;

    closed spec fn view(&self) -> WindowWalkModel {
        WindowWalkModel { pending: self.pending@, found: self.found@ }
    }
}

impl WindowWalk {
    pub fn new(root: u32) -> (walk: Self)
        ensures
            walk@.pending == seq![root],
            walk@.found.len() == 0,
    {
        let mut pending: Vec<u32> = Vec::new();
        pending.push(root);
        WindowWalk { pending, found: Vec::new() }
    }

    /// The window whose children are asked for next: the one seen last.
    pub fn next_parent(&mut self) -> (parent: Option<u32>)
        ensures
            final(self)@.found == old(self)@.found,
            match parent {
                Some(window) => {
                    &&& old(self)@.pending.len() > 0
                    &&& window == old(self)@.pending.last()
                    &&& final(self)@.pending == old(self)@.pending.drop_last()
                },
                None => old(self)@.pending.len() == 0 && final(self)@.pending.len() == 0,
            },
    {
        self.pending.pop()
    }

    /// Takes in one child. A child whose rectangle cannot be had counts as
    /// empty.
    pub fn add_child(&mut self, window: u32, pid: Option<u32>, rect: Option<Rect>)
        ensures
            final(self)@.pending == old(self)@.pending.push(window),
            final(self)@.found == old(self)@.found.push(
                (
                    window as u64,
                    pid,
                    match rect {
                        Some(known) => known,
                        None => Rect { x: 0, y: 0, width: 0, height: 0 },
                    },
                ),
            ),
    {
        let known: Rect = match rect {
            Some(known) => known,
            None => Rect::new(0, 0, 0, 0),
        };
        self.found.push((window as u64, pid, known));
        self.pending.push(window);
    }

    pub fn window_for_process(&self, pid: u32) -> (result: Result<u64, DisplayError>)
        ensures
            match result {
                Ok(id) => chosen_window(self@.found, pid, Some(id)),
                Err(error) => error == DisplayError::Geometry && chosen_window(
                    self@.found,
                    pid,
                    None,
                ),
            },
    {
        match select_window_for_pid(self.found.as_slice(), pid) {
            Some(id) => Ok(id),
            None => Err(DisplayError::Geometry),
        }
    }
}

/// The monitors that count: those reported, or the root window as one monitor
/// where none was reported.
pub open spec fn effective_monitors(
    reported: Option<Seq<Monitor>>,
    root: Option<(u32, u32)>,
) -> Seq<Monitor> {
    match reported {
        Some(list) if list.len() > 0 => list,
        _ => match root {
            Some((width, height)) => seq![Monitor { rect: Rect { x: 0, y: 0, width, height } }],
            None => Seq::empty(),
        },
    }
}

pub open spec fn listed(reported: Option<Vec<Monitor>>) -> Option<Seq<Monitor>> {
    match reported {
        Some(list) => Some(list@),
        None => None,
    }
}

/// The monitor that a window is on.
pub fn monitor_for_window(
    window: Rect,
    reported: Option<Vec<Monitor>>,
    root: Option<(u32, u32)>,
) -> (result: Result<Monitor, DisplayError>)
    ensures
        match result {
            Ok(monitor) => super::monitor_of(
                window,
                effective_monitors(listed(reported), root),
            ) == Some(monitor),
            Err(error) => error == DisplayError::Monitor && super::monitor_of(
                window,
                effective_monitors(listed(reported), root),
            ) is None,
        },
{
    let mut monitors: Vec<Monitor> = Vec::new();
    let mut known: bool = false;
    if let Some(list) = reported {
        if list.len() > 0 {
            monitors = list;
            known = true;
        }
    }
    if !known {
        if let Some((width, height)) = root {
            monitors.push(Monitor::new(Rect::new(0, 0, width, height)));
        }
    }
    assert(monitors@ == effective_monitors(listed(reported), root));
    match select_monitor(window, monitors.as_slice()) {
        Some(monitor) => Ok(monitor),
        None => Err(DisplayError::Monitor),
    }
}

/// A window is fullscreen if its state list names the fullscreen atom; a
/// list or an atom that cannot be had counts as not fullscreen.
pub fn is_fullscreen(fullscreen: Option<u32>, atoms: Option<&[u32]>) -> (r: bool)
    ensures
        r == (fullscreen is Some && atoms is Some && atoms.unwrap()@.contains(
            fullscreen.unwrap(),
        )),
{
    let wanted: u32 = match fullscreen {
        Some(atom) => atom,
        None => {
            return false;
        },
    };
    let list: &[u32] = match atoms {
        Some(list) => list,
        None => {
            return false;
        },
    };
    let mut index: usize = 0;
    while index < list.len()
        invariant
            index <= list.len(),
            fullscreen == Some(wanted),
            atoms == Some(list),
            forall|i: int| 0 <= i < index ==> list@[i] != wanted,
        decreases list.len() - index,
    {
        if list[index] == wanted {
            assert(list@[index as int] == wanted);
            return true;
        }
        index = index + 1;
    }
    false
}

/// The data of the message that asks the window manager to add (1) or to
/// remove (0) the fullscreen state.
pub fn fullscreen_message(enabled: bool, fullscreen: u32) -> (data: [u32; 5])
    ensures
        data@ == seq![
            if enabled {
                1u32
            } else {
                0u32
            },
            fullscreen,
            0u32,
            0u32,
            0u32,
        ],
{
    let action: u32 = if enabled {
        1
    } else {
        0
    };
    [action, fullscreen, 0, 0, 0]
}

/// The list without one of its atoms, the others in their order.
pub open spec fn without(atoms: Seq<u32>, atom: u32) -> Seq<u32>
    decreases atoms.len(),
{
    if atoms.len() == 0 {
        Seq::empty()
    } else if atoms.last() == atom {
        without(atoms.drop_last(), atom)
    } else {
        without(atoms.drop_last(), atom).push(atoms.last())
    }
}

/// The state list with the fullscreen atom put last, or taken out.
pub open spec fn reconciled(atoms: Seq<u32>, fullscreen: u32, enabled: bool) -> Seq<u32> {
    if enabled {
        without(atoms, fullscreen).push(fullscreen)
    } else {
        without(atoms, fullscreen)
    }
}

pub fn reconciled_atoms(atoms: &[u32], fullscreen: u32, enabled: bool) -> (list: Vec<u32>)
    ensures
        list@ == reconciled(atoms@, fullscreen, enabled),
{
    let mut list: Vec<u32> = Vec::new();
    let mut index: usize = 0;
    while index < atoms.len()
        invariant
            index <= atoms.len(),
            list@ == without(atoms@.take(index as int), fullscreen),
        decreases atoms.len() - index,
    {
        proof {
            assert(atoms@.take(index + 1).drop_last() == atoms@.take(index as int));
            assert(atoms@.take(index + 1).last() == atoms@[index as int]);
        }
        if atoms[index] != fullscreen {
            list.push(atoms[index]);
        }
        index = index + 1;
    }
    assert(atoms@.take(atoms@.len() as int) == atoms@);
    if enabled {
        list.push(fullscreen);
    }
    list
}

proof fn lemma_without_members(atoms: Seq<u32>, atom: u32, other: u32)
    ensures
        without(atoms, atom).contains(other) <==> other != atom && atoms.contains(other),
    decreases atoms.len(),
{
    if atoms.len() > 0 {
        let front = atoms.drop_last();
        lemma_without_members(front, atom, other);
        lemma_push_members(front, atoms.last(), other);
        lemma_push_members(without(front, atom), atoms.last(), other);
        assert(front.push(atoms.last()) == atoms);
    }
}

proof fn lemma_push_members(atoms: Seq<u32>, atom: u32, other: u32)
    ensures
        atoms.push(atom).contains(other) <==> atoms.contains(other) || other == atom,
{
    let all = atoms.push(atom);
    assert(all[atoms.len() as int] == atom);
    if atoms.contains(other) {
        assert(all[atoms.index_of(other)] == other);
    }
    if all.contains(other) && other != atom {
        assert(atoms[all.index_of(other)] == other);
    }
}

/// After reconciling, the list names the fullscreen atom exactly if that was
/// wanted, and names every other atom exactly if it did before.
pub proof fn reconciling_touches_only_fullscreen(
    atoms: Seq<u32>,
    fullscreen: u32,
    enabled: bool,
    other: u32,
)
    requires
        other != fullscreen,
    ensures
        reconciled(atoms, fullscreen, enabled).contains(fullscreen) <==> enabled,
        reconciled(atoms, fullscreen, enabled).contains(other) <==> atoms.contains(other),
{
    lemma_without_members(atoms, fullscreen, fullscreen);
    lemma_without_members(atoms, fullscreen, other);
    lemma_push_members(without(atoms, fullscreen), fullscreen, fullscreen);
    lemma_push_members(without(atoms, fullscreen), fullscreen, other);
}

/// How a window is to be configured, relative to its parent.
#[derive(Debug, Clone, Copy, PartialEq, Eq, Structural)]
pub struct WindowConfiguration {
    pub x: i32,
    pub y: i32,
    pub width: u32,
    pub height: u32,
}

/// Places a window on a root-relative rectangle. The origin of a parent other
/// than the root is given; the root's own is zero.
pub fn configure_rect(rect: Rect, parent_origin: Option<(i32, i32)>) -> (result: Result<
    WindowConfiguration,
    DisplayError,
>)
    ensures
        match result {
            Ok(configuration) => {
                let origin = match parent_origin {
                    Some(origin) => origin,
                    None => (0, 0),
                };
                &&& rect.valid()
                &&& configuration.x == saturated(rect.x - origin.0)
                &&& configuration.y == saturated(rect.y - origin.1)
                &&& configuration.width == rect.width
                &&& configuration.height == rect.height
            },
            Err(error) => !rect.valid() && error == DisplayError::Geometry,
        },
{
    if !rect.is_valid() {
        return Err(DisplayError::Geometry);
    }
    let origin: (i32, i32) = match parent_origin {
        Some(origin) => origin,
        None => (0, 0),
    };
    let (x, y): (i32, i32) = parent_relative_position((rect.x, rect.y), origin);
    Ok(WindowConfiguration { x, y, width: rect.width, height: rect.height })
}

/// The rectangle that a window takes when it is resized to a monitor.
pub fn resize_window(monitor: Monitor) -> (result: Result<Rect, DisplayError>)
    ensures
        match result {
            Ok(rect) => monitor.rect.valid() && rect == monitor.rect,
            Err(error) => !monitor.rect.valid() && error == DisplayError::Monitor,
        },
{
    if !monitor.rect.is_valid() {
        return Err(DisplayError::Monitor);
    }
    Ok(monitor.rect)
}

/// What to ask of the window system next. Each is answered by a yes or no:
/// a query by whether the window is fullscreen, any other by whether it was
/// carried out.
#[derive(Debug, Clone, Copy, PartialEq, Eq, Structural)]
pub enum WindowAction {
    QueryFullscreen,
    SetFullscreen(bool),
    Configure(Rect),
    Reconcile(bool),
    Succeed,
    Fail,
}

#[derive(Debug, Clone, Copy, PartialEq, Eq, Structural)]
pub enum PromotionStage {
    Announce,
    Place,
    Withdraw,
    Promoted,
    Refused,
}

/// A window on its way to cover its monitor.
#[derive(Debug, Clone, Copy, PartialEq, Eq, Structural)]
pub struct Promotion {
    pub lease: BorderlessLease,
    pub stage: PromotionStage,
}

impl Promotion {
    pub open spec fn wanted(self) -> WindowAction {
        match self.stage {
            PromotionStage::Announce => WindowAction::SetFullscreen(true),
            PromotionStage::Place => WindowAction::Configure(self.lease.monitor.rect),
            PromotionStage::Withdraw => WindowAction::SetFullscreen(false),
            PromotionStage::Promoted => WindowAction::Succeed,
            PromotionStage::Refused => WindowAction::Fail,
        }
    }

    pub open spec fn answered(self, accepted: bool) -> PromotionStage {
        match self.stage {
            PromotionStage::Announce => if accepted {
                PromotionStage::Place
            } else {
                PromotionStage::Refused
            },
            PromotionStage::Place => if accepted {
                PromotionStage::Promoted
            } else if !self.lease.original.fullscreen {
                PromotionStage::Withdraw
            } else {
                PromotionStage::Refused
            },
            PromotionStage::Withdraw => PromotionStage::Refused,
            ended => ended,
        }
    }

    /// Remembers the window as it is and starts its promotion.
    pub fn promote_borderless(window: u64, current: X11Window, monitor: Monitor) -> (result: Result<
        Self,
        DisplayError,
    >)
        ensures
            match result {
                Ok(promotion) => {
                    &&& current.rect.valid()
                    &&& monitor.rect.valid()
                    &&& promotion.lease == BorderlessLease {
                        window,
                        original: WindowSnapshot {
                            rect: current.rect,
                            fullscreen: current.fullscreen,
                        },
                        monitor,
                    }
                    &&& promotion.stage == (if current.fullscreen {
                        PromotionStage::Place
                    } else {
                        PromotionStage::Announce
                    })
                },
                Err(error) => error == (if !current.rect.valid() {
                    DisplayError::Geometry
                } else {
                    DisplayError::Monitor
                }) && !(current.rect.valid() && monitor.rect.valid()),
            },
    {
        if !current.rect.is_valid() {
            return Err(DisplayError::Geometry);
        }
        if !monitor.rect.is_valid() {
            return Err(DisplayError::Monitor);
        }
        let lease: BorderlessLease = BorderlessLease {
            window,
            original: WindowSnapshot { rect: current.rect, fullscreen: current.fullscreen },
            monitor,
        };
        let stage: PromotionStage = if lease.added_fullscreen() {
            PromotionStage::Announce
        } else {
            PromotionStage::Place
        };
        Ok(Promotion { lease, stage })
    }

    pub fn action(&self) -> (action: WindowAction)
        ensures
            action == self.wanted(),
    {
        match self.stage {
            PromotionStage::Announce => WindowAction::SetFullscreen(true),
            PromotionStage::Place => WindowAction::Configure(self.lease.monitor.rect),
            PromotionStage::Withdraw => WindowAction::SetFullscreen(false),
            PromotionStage::Promoted => WindowAction::Succeed,
            PromotionStage::Refused => WindowAction::Fail,
        }
    }

    pub fn answer(&mut self, accepted: bool)
        ensures
            final(self).lease == old(self).lease,
            final(self).stage == old(self).answered(accepted),
    {
        self.stage =
        match self.stage {
            PromotionStage::Announce => if accepted {
                PromotionStage::Place
            } else {
                PromotionStage::Refused
            },
            PromotionStage::Place => if accepted {
                PromotionStage::Promoted
            } else if self.lease.added_fullscreen() {
                PromotionStage::Withdraw
            } else {
                PromotionStage::Refused
            },
            PromotionStage::Withdraw => PromotionStage::Refused,
            ended => ended,
        };
    }
}

/// A promotion that added the fullscreen state and then could not place the
/// window asks for that state to be taken back before it gives up; one that
/// did not add it never takes it away.
pub proof fn a_refused_promotion_withdraws_what_it_added(promotion: Promotion)
    requires
        promotion.stage == PromotionStage::Place,
    ensures
        ({
            let refused = Promotion { stage: promotion.answered(false), ..promotion };
            &&& refused.wanted() == (if promotion.lease.original.fullscreen {
                WindowAction::Fail
            } else {
                WindowAction::SetFullscreen(false)
            })
            &&& refused.answered(true) == PromotionStage::Refused
            &&& refused.answered(false) == PromotionStage::Refused
        }),
{
}

#[derive(Debug, Clone, Copy, PartialEq, Eq, Structural)]
pub enum RestorationStage {
    Inspect,
    Remove,
    Place,
    Verify,
    Reapply,
    Confirm,
    Reconcile,
    Restored,
    Refused,
}

/// A promoted window on its way back to what it was.
#[derive(Debug, Clone, Copy, PartialEq, Eq, Structural)]
pub struct Restoration {
    pub lease: BorderlessLease,
    pub stage: RestorationStage,
}

impl Restoration {
    pub open spec fn wanted(self) -> WindowAction {
        match self.stage {
            RestorationStage::Inspect
            | RestorationStage::Verify
            | RestorationStage::Confirm => WindowAction::QueryFullscreen,
            RestorationStage::Remove => WindowAction::SetFullscreen(false),
            RestorationStage::Place => WindowAction::Configure(self.lease.original.rect),
            RestorationStage::Reapply => WindowAction::SetFullscreen(
                self.lease.original.fullscreen,
            ),
            RestorationStage::Reconcile => WindowAction::Reconcile(self.lease.original.fullscreen),
            RestorationStage::Restored => WindowAction::Succeed,
            RestorationStage::Refused => WindowAction::Fail,
        }
    }

    pub open spec fn answered(self, answer: bool) -> RestorationStage {
        let wanted_fullscreen = self.lease.original.fullscreen;
        match self.stage {
            RestorationStage::Inspect => if answer && !wanted_fullscreen {
                RestorationStage::Remove
            } else {
                RestorationStage::Place
            },
            RestorationStage::Remove if answer => RestorationStage::Place,
            RestorationStage::Place if answer => RestorationStage::Verify,
            RestorationStage::Verify => if answer == wanted_fullscreen {
                RestorationStage::Restored
            } else {
                RestorationStage::Reapply
            },
            RestorationStage::Reapply if answer => RestorationStage::Confirm,
            RestorationStage::Confirm => if answer == wanted_fullscreen {
                RestorationStage::Restored
            } else {
                RestorationStage::Reconcile
            },
            RestorationStage::Reconcile if answer => RestorationStage::Restored,
            RestorationStage::Restored => RestorationStage::Restored,
            _ => RestorationStage::Refused,
        }
    }

    /// How many requests can still follow.
    pub open spec fn remaining(self) -> nat {
        match self.stage {
            RestorationStage::Inspect => 7,
            RestorationStage::Remove => 6,
            RestorationStage::Place => 5,
            RestorationStage::Verify => 4,
            RestorationStage::Reapply => 3,
            RestorationStage::Confirm => 2,
            RestorationStage::Reconcile => 1,
            RestorationStage::Restored | RestorationStage::Refused => 0,
        }
    }

    pub fn restore(lease: BorderlessLease) -> (restoration: Self)
        ensures
            restoration == (Restoration { lease, stage: RestorationStage::Inspect }),
    {
        Restoration { lease, stage: RestorationStage::Inspect }
    }

    pub fn action(&self) -> (action: WindowAction)
        ensures
            action == self.wanted(),
    {
        match self.stage {
            RestorationStage::Inspect
            | RestorationStage::Verify
            | RestorationStage::Confirm => WindowAction::QueryFullscreen,
            RestorationStage::Remove => WindowAction::SetFullscreen(false),
            RestorationStage::Place => WindowAction::Configure(self.lease.original.rect),
            RestorationStage::Reapply => WindowAction::SetFullscreen(
                self.lease.original.fullscreen,
            ),
            RestorationStage::Reconcile => WindowAction::Reconcile(self.lease.original.fullscreen),
            RestorationStage::Restored => WindowAction::Succeed,
            RestorationStage::Refused => WindowAction::Fail,
        }
    }

    pub fn answer(&mut self, answer: bool)
        ensures
            final(self).lease == old(self).lease,
            final(self).stage == old(self).answered(answer),
    {
        let lease: BorderlessLease = self.lease;
        self.stage =
        match self.stage {
            RestorationStage::Inspect => if lease.should_remove_fullscreen(answer) {
                RestorationStage::Remove
            } else {
                RestorationStage::Place
            },
            RestorationStage::Remove => if answer {
                RestorationStage::Place
            } else {
                RestorationStage::Refused
            },
            RestorationStage::Place => if answer {
                RestorationStage::Verify
            } else {
                RestorationStage::Refused
            },
            RestorationStage::Verify => if lease.original.fullscreen && !answer {
                RestorationStage::Reapply
            } else if lease.added_fullscreen() && answer {
                RestorationStage::Reapply
            } else {
                RestorationStage::Restored
            },
            RestorationStage::Reapply => if answer {
                RestorationStage::Confirm
            } else {
                RestorationStage::Refused
            },
            RestorationStage::Confirm => if answer != lease.original.fullscreen {
                RestorationStage::Reconcile
            } else {
                RestorationStage::Restored
            },
            RestorationStage::Reconcile => if answer {
                RestorationStage::Restored
            } else {
                RestorationStage::Refused
            },
            RestorationStage::Restored => RestorationStage::Restored,
            RestorationStage::Refused => RestorationStage::Refused,
        };
    }
}

/// Every answer brings a restoration closer to its end.
pub proof fn a_restoration_ends(restoration: Restoration, answer: bool)
    requires
        restoration.remaining() > 0,
    ensures
        (Restoration { stage: restoration.answered(answer), ..restoration }).remaining()
            < restoration.remaining(),
{
}

/// A restoration takes the fullscreen state away only where the promotion had
/// added it, and asks for it only where the window had it before.
pub proof fn a_restoration_only_reverts_the_promotion(restoration: Restoration)
    ensures
        restoration.stage != RestorationStage::Remove ==> {
            &&& restoration.wanted() != WindowAction::SetFullscreen(
                !restoration.lease.original.fullscreen,
            )
            &&& restoration.wanted() != WindowAction::Reconcile(
                !restoration.lease.original.fullscreen,
            )
        },
        forall|answer: bool|
            restoration.stage != RestorationStage::Remove && #[trigger] restoration.answered(
                answer,
            ) == RestorationStage::Remove ==> !restoration.lease.original.fullscreen,
{
}

/// A restoration that succeeds saw the window in the state it had before, or
/// wrote that state itself as its last request.
pub proof fn a_restoration_ends_in_the_original_state(restoration: Restoration, answer: bool)
    requires
        restoration.remaining() > 0,
        restoration.answered(answer) == RestorationStage::Restored,
    ensures
        ({
            ||| restoration.wanted() == WindowAction::QueryFullscreen && answer
                == restoration.lease.original.fullscreen
            ||| restoration.wanted() == WindowAction::Reconcile(
                restoration.lease.original.fullscreen,
            ) && answer
        }),
{
}

/// A promotion succeeds only by putting the window over its monitor: the
/// request whose acceptance ends it is for exactly the monitor's rectangle, and
/// a window that was not fullscreen was announced as such before.
pub proof fn a_promoted_window_covers_its_monitor(promotion: Promotion, accepted: bool)
    ensures
        ({
            let next = Promotion { stage: promotion.answered(accepted), ..promotion };
            &&& next.wanted() == WindowAction::Succeed && promotion.wanted() != WindowAction::Succeed
                ==> accepted && promotion.wanted() == WindowAction::Configure(
                promotion.lease.monitor.rect,
            )
            &&& next.wanted() is Configure && !(promotion.wanted() is Configure) ==> accepted
                && promotion.wanted() == WindowAction::SetFullscreen(true)
            &&& promotion.wanted() == WindowAction::SetFullscreen(true) ==> next.wanted() == (
            if accepted {
                WindowAction::Configure(promotion.lease.monitor.rect)
            } else {
                WindowAction::Fail
            })
            &&& promotion.wanted() is Configure ==> promotion.wanted() == WindowAction::Configure(
                promotion.lease.monitor.rect,
            ) && (accepted ==> next.wanted() == WindowAction::Succeed)
            &&& promotion.wanted() == WindowAction::Succeed ==> next.wanted()
                == WindowAction::Succeed
            &&& promotion.wanted() == WindowAction::Fail ==> next.wanted() == WindowAction::Fail
            &&& promotion.wanted() == WindowAction::Fail || promotion.wanted()
                == WindowAction::Succeed <==> promotion.stage == PromotionStage::Refused
                || promotion.stage == PromotionStage::Promoted
        }),
        promotion.stage == PromotionStage::Announce ==> promotion.wanted()
            == WindowAction::SetFullscreen(true),
        promotion.stage == PromotionStage::Place ==> promotion.wanted() is Configure,
{
}

/// A restoration that has put the window anywhere has put it where it was.
pub open spec fn window_is_back(stage: RestorationStage) -> bool {
    stage != RestorationStage::Inspect && stage != RestorationStage::Remove && stage
        != RestorationStage::Place && stage != RestorationStage::Refused
}

/// A restoration succeeds only after the window was put where it was: a request
/// for exactly its old rectangle was carried out, and no other rectangle is
/// ever asked for.
pub proof fn a_restored_window_is_where_it_was(restoration: Restoration, answer: bool)
    ensures
        window_is_back(restoration.answered(answer)) && !window_is_back(restoration.stage)
            ==> answer && restoration.wanted() == WindowAction::Configure(
            restoration.lease.original.rect,
        ),
        restoration.wanted() is Configure ==> restoration.wanted() == WindowAction::Configure(
            restoration.lease.original.rect,
        ),
        restoration.wanted() == WindowAction::Succeed ==> window_is_back(restoration.stage),
        !window_is_back(RestorationStage::Inspect),
{
}

/// Where every request is carried out, a restoration goes on until the window
/// is back: the fullscreen state that the promotion added is taken away first,
/// then the window is placed, and then its state is looked at.
pub proof fn a_restoration_goes_step_by_step(lease: BorderlessLease, fullscreen: bool)
    ensures
        ({
            let inspect = Restoration { lease, stage: RestorationStage::Inspect };
            let second = Restoration { stage: inspect.answered(fullscreen), ..inspect };
            let third = Restoration { stage: second.answered(true), ..second };
            let fourth = Restoration { stage: third.answered(true), ..third };
            &&& inspect.wanted() == WindowAction::QueryFullscreen
            &&& if fullscreen && !lease.original.fullscreen {
                &&& second.wanted() == WindowAction::SetFullscreen(false)
                &&& third.wanted() == WindowAction::Configure(lease.original.rect)
                &&& fourth.wanted() == WindowAction::QueryFullscreen
                &&& second.answered(false) == RestorationStage::Refused
            } else {
                &&& second.wanted() == WindowAction::Configure(lease.original.rect)
                &&& third.wanted() == WindowAction::QueryFullscreen
                &&& second.answered(false) == RestorationStage::Refused
            }
        }),
        ({
            let verify = Restoration { lease, stage: RestorationStage::Verify };
            let seen = Restoration { stage: verify.answered(fullscreen), ..verify };
            let asked = Restoration { stage: seen.answered(true), ..seen };
            let again = Restoration { stage: asked.answered(fullscreen), ..asked };
            let written = Restoration { stage: again.answered(true), ..again };
            if fullscreen == lease.original.fullscreen {
                seen.wanted() == WindowAction::Succeed
            } else {
                &&& seen.wanted() == WindowAction::SetFullscreen(lease.original.fullscreen)
                &&& asked.wanted() == WindowAction::QueryFullscreen
                &&& asked.answered(lease.original.fullscreen) == RestorationStage::Restored
                &&& again.wanted() == WindowAction::Reconcile(lease.original.fullscreen)
                &&& written.wanted() == WindowAction::Succeed
            }
        }),
{
}

/// The window that is chosen for a process names it and has an area, and no
/// other window of the process is larger; among equally large ones it has the
/// smallest id. One is chosen wherever there is one.
pub proof fn the_largest_window_of_a_process_is_chosen(
    windows: Seq<WindowCandidate>,
    pid: u32,
    selected: Option<u64>,
    j: int,
)
    requires
        chosen_window(windows, pid, selected),
        0 <= j < windows.len(),
        windows[j].1 == Some(pid),
        windows[j].2.width > 0,
        windows[j].2.height > 0,
    ensures
        selected is Some,
        exists|i: int|
            {
                &&& 0 <= i < windows.len()
                &&& (#[trigger] windows[i]).0 == selected.unwrap()
                &&& windows[i].1 == Some(pid)
                &&& windows[i].2.width > 0
                &&& windows[i].2.height > 0
                &&& windows[i].2.width * windows[i].2.height >= windows[j].2.width
                    * windows[j].2.height
                &&& windows[i].2.width * windows[i].2.height == windows[j].2.width
                    * windows[j].2.height ==> windows[i].0 <= windows[j].0
            },
{
    assert(belongs(windows[j], pid));
    let i = choose|i: int| #[trigger]
        best_window(windows, pid, i) && windows[i].0 == selected.unwrap();
    assert(preferred(windows[i], windows[j]));
}

/// A process without a window that has an area gets none.
pub proof fn a_process_without_windows_gets_none(
    windows: Seq<WindowCandidate>,
    pid: u32,
    selected: Option<u64>,
)
    requires
        chosen_window(windows, pid, selected),
        forall|j: int|
            0 <= j < windows.len() ==> (#[trigger] windows[j]).1 != Some(pid) || windows[j].2.width
                == 0 || windows[j].2.height == 0,
    ensures
        selected is None,
{
    if selected is Some {
        let i = choose|i: int| #[trigger]
            best_window(windows, pid, i) && windows[i].0 == selected.unwrap();
        assert(belongs(windows[i], pid));
    }
}

/// Reported monitors count as they are reported; without any the root window is
/// the one monitor, from the origin on.
pub proof fn reported_monitors_come_first(
    reported: Option<Vec<Monitor>>,
    root: Option<(u32, u32)>,
)
    ensures
        ({
            let monitors = effective_monitors(listed(reported), root);
            match reported {
                Some(list) if list@.len() > 0 => monitors == list@,
                _ => match root {
                    Some((width, height)) => {
                        &&& monitors.len() == 1
                        &&& monitors[0].rect.x == 0
                        &&& monitors[0].rect.y == 0
                        &&& monitors[0].rect.width == width
                        &&& monitors[0].rect.height == height
                    },
                    None => monitors.len() == 0,
                },
            }
        }),
{
}

/// A position relative to a parent is exact wherever it can be written down,
/// and else the nearest that can.
pub proof fn positions_are_exact_where_they_fit(value: int)
    ensures
        i32::MIN <= value <= i32::MAX ==> saturated(value) == value,
        value > i32::MAX ==> saturated(value) == i32::MAX,
        value < i32::MIN ==> saturated(value) == i32::MIN,
{
}

/// A list that never named the fullscreen atom stays as it is, and one that is
/// to name it names it last.
pub proof fn reconciling_keeps_the_order(atoms: Seq<u32>, fullscreen: u32)
    ensures
        !atoms.contains(fullscreen) ==> reconciled(atoms, fullscreen, false) == atoms,
        reconciled(atoms, fullscreen, true) == reconciled(atoms, fullscreen, false).push(
            fullscreen,
        ),
    decreases atoms.len(),
{
    if atoms.len() > 0 {
        let front = atoms.drop_last();
        reconciling_keeps_the_order(front, fullscreen);
        if !atoms.contains(fullscreen) {
            assert(atoms[atoms.len() - 1] != fullscreen);
            assert forall|i: int| 0 <= i < front.len() implies front[i] != fullscreen by {
                assert(atoms[i] == front[i]);
            }
            assert(front.push(atoms.last()) =~= atoms);
        }
    }
}

} // verus!
