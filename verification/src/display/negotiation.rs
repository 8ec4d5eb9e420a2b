//! The way from direct presentation to a virtualized native output.

use vstd::prelude::*;

use super::{Extent, Rect, SurfaceExtent};

verus! {

/// How long a stage waits, in nanoseconds of the monotonic clock.
pub const NEGOTIATION_TIMEOUT: u64 = 5_000_000_000;

#[derive(Debug, Clone, Copy, PartialEq, Eq, Structural)]
pub enum PresentationState {
    Direct,
    Negotiating,
    Virtualized,
    Failed,
}

#[derive(Debug, Clone, Copy, PartialEq, Eq, Structural)]
pub enum NegotiationFailure {
    BorderlessRequest,
    DeadlineExpired,
    OutputRecreation,
}

/// Where a negotiation stands. Times are nanoseconds of the monotonic clock.
#[derive(Debug, Clone, Copy, PartialEq, Eq, Structural)]
pub enum NegotiationStage {
    Direct,
    RequestingBorderless { target: Rect, deadline: u64 },
    WaitingForNativeExtent { target: Rect, deadline: u64 },
    RecreatingOutput { target: Rect, deadline: u64 },
    Active { target: Rect },
    Failed { reason: NegotiationFailure },
}

/// The window covers the target exactly and the surface takes its extent.
/// Whether the window carries the fullscreen state plays no part: windows
/// that another program manages may never carry it.
pub open spec fn native(target: Rect, window: Rect, surface: SurfaceExtent) -> bool {
    &&& window == target
    &&& surface.takes(Extent { width: target.width, height: target.height })
}

impl NegotiationStage {
    /// The first failure stays.
    pub open spec fn failed(self, reason: NegotiationFailure) -> NegotiationStage {
        match self {
            NegotiationStage::Failed { .. } => self,
            _ => NegotiationStage::Failed { reason },
        }
    }

    pub open spec fn requested(self, target: Rect, now: u64) -> NegotiationStage {
        if self is Direct && target.valid() {
            NegotiationStage::RequestingBorderless {
                target,
                deadline: (now + NEGOTIATION_TIMEOUT) as u64,
            }
        } else {
            self
        }
    }

    pub open spec fn sent(self, now: u64) -> NegotiationStage {
        match self {
            NegotiationStage::RequestingBorderless { target, deadline } => if now < deadline {
                NegotiationStage::WaitingForNativeExtent { target, deadline }
            } else {
                NegotiationStage::Failed { reason: NegotiationFailure::DeadlineExpired }
            },
            _ => self,
        }
    }

    /// The stage waits for something, and its deadline has passed.
    pub open spec fn expired(self, now: u64) -> bool {
        match self {
            NegotiationStage::RequestingBorderless { deadline, .. }
            | NegotiationStage::WaitingForNativeExtent { deadline, .. }
            | NegotiationStage::RecreatingOutput { deadline, .. } => now >= deadline,
            _ => false,
        }
    }

    /// The output was native and no longer is, so that it is waited for again.
    pub open spec fn waits_again(self, window: Rect, surface: SurfaceExtent) -> bool {
        match self {
            NegotiationStage::Active { target } => !native(target, window, surface),
            _ => false,
        }
    }

    pub open spec fn observed(
        self,
        window: Rect,
        surface: SurfaceExtent,
        now: u64,
    ) -> NegotiationStage {
        match self {
            _ if self.expired(now) => NegotiationStage::Failed {
                reason: NegotiationFailure::DeadlineExpired,
            },
            NegotiationStage::WaitingForNativeExtent { target, deadline }
            | NegotiationStage::RecreatingOutput { target, deadline } => if native(
                target,
                window,
                surface,
            ) {
                NegotiationStage::RecreatingOutput { target, deadline }
            } else {
                NegotiationStage::WaitingForNativeExtent { target, deadline }
            },
            NegotiationStage::Active { target } => if native(target, window, surface) {
                self
            } else {
                NegotiationStage::WaitingForNativeExtent {
                    target,
                    deadline: (now + NEGOTIATION_TIMEOUT) as u64,
                }
            },
            _ => self,
        }
    }

    /// The output is being recreated, its deadline has not passed, and the
    /// window is native.
    pub open spec fn current(self, window: Rect, surface: SurfaceExtent, now: u64) -> bool {
        match self {
            NegotiationStage::RecreatingOutput { target, deadline } => now < deadline && native(
                target,
                window,
                surface,
            ),
            _ => false,
        }
    }

    pub open spec fn recreated(
        self,
        window: Rect,
        surface: SurfaceExtent,
        now: u64,
    ) -> NegotiationStage {
        match self {
            NegotiationStage::RecreatingOutput { target, .. } if self.current(
                window,
                surface,
                now,
            ) => NegotiationStage::Active { target },
            NegotiationStage::RecreatingOutput { .. } => self.observed(window, surface, now),
            _ => self,
        }
    }

    pub open spec fn shown(self) -> PresentationState {
        match self {
            NegotiationStage::Direct => PresentationState::Direct,
            NegotiationStage::RequestingBorderless { .. }
            | NegotiationStage::WaitingForNativeExtent { .. }
            | NegotiationStage::RecreatingOutput { .. } => PresentationState::Negotiating,
            NegotiationStage::Active { .. } => PresentationState::Virtualized,
            NegotiationStage::Failed { .. } => PresentationState::Failed,
        }
    }
}

#[derive(Debug, Clone, Copy, PartialEq, Eq, Structural)]
pub struct PresentationNegotiation {
    stage: NegotiationStage,
}

impl View for PresentationNegotiation {
    type V = NegotiationStage;

    closed spec fn view(&self) -> NegotiationStage {
        self.stage
    }
}

impl PresentationNegotiation {
    pub fn direct() -> (negotiation: Self)
        ensures
            negotiation@ == NegotiationStage::Direct,
    {
        PresentationNegotiation { stage: NegotiationStage::Direct }
    }

    pub fn request_borderless(&mut self, target: Rect, now: u64) -> (requested: bool)
        requires
            target.valid() && old(self)@ is Direct ==> now + NEGOTIATION_TIMEOUT <= u64::MAX,
        ensures
            requested == (target.valid() && old(self)@ is Direct),
            final(self)@ == old(self)@.requested(target, now),
    {
        if !target.is_valid() || !matches!(self.stage, NegotiationStage::Direct) {
            return false;
        }
        self.stage =
        NegotiationStage::RequestingBorderless { target, deadline: now + NEGOTIATION_TIMEOUT };
        true
    }

    pub fn borderless_requested(&mut self, now: u64) -> (waiting: bool)
        ensures
            waiting == (old(self)@ is RequestingBorderless && final(self)@
                is WaitingForNativeExtent),
            final(self)@ == old(self)@.sent(now),
    {
        match self.stage {
            NegotiationStage::RequestingBorderless { target, deadline } => {
                if now >= deadline {
                    self.fail(NegotiationFailure::DeadlineExpired);
                    return false;
                }
                self.stage = NegotiationStage::WaitingForNativeExtent { target, deadline };
                true
            },
            _ => false,
        }
    }

    /// Takes in what the window and the surface look like now. The answer is
    /// whether the native output held for two observations in a row.
    pub fn observe(
        &mut self,
        window: Rect,
        fullscreen: bool,
        surface: SurfaceExtent,
        now: u64,
    ) -> (stable: bool)
        requires
            old(self)@.waits_again(window, surface) ==> now + NEGOTIATION_TIMEOUT <= u64::MAX,
        ensures
            stable == old(self)@.current(window, surface, now),
            final(self)@ == old(self)@.observed(window, surface, now),
    {
        match self.stage {
            NegotiationStage::RequestingBorderless { deadline, .. } => {
                if now >= deadline {
                    self.fail(NegotiationFailure::DeadlineExpired);
                }
            },
            NegotiationStage::WaitingForNativeExtent { target, deadline } => {
                if now >= deadline {
                    self.fail(NegotiationFailure::DeadlineExpired);
                    return false;
                }
                if is_native(target, window, fullscreen, surface) {
                    self.stage = NegotiationStage::RecreatingOutput { target, deadline };
                }
            },
            NegotiationStage::RecreatingOutput { target, deadline } => {
                if now >= deadline {
                    self.fail(NegotiationFailure::DeadlineExpired);
                } else if !is_native(target, window, fullscreen, surface) {
                    self.stage = NegotiationStage::WaitingForNativeExtent { target, deadline };
                } else {
                    return true;
                }
            },
            NegotiationStage::Active { target } => {
                if !is_native(target, window, fullscreen, surface) {
                    self.stage =
                    NegotiationStage::WaitingForNativeExtent {
                        target,
                        deadline: now + NEGOTIATION_TIMEOUT,
                    };
                }
            },
            _ => {},
        }
        false
    }

    pub fn output_recreated(
        &mut self,
        window: Rect,
        fullscreen: bool,
        surface: SurfaceExtent,
        now: u64,
    ) -> (active: bool)
        ensures
            active == old(self)@.current(window, surface, now),
            final(self)@ == old(self)@.recreated(window, surface, now),
    {
        match self.stage {
            NegotiationStage::RecreatingOutput { target, deadline } => {
                if now >= deadline {
                    self.fail(NegotiationFailure::DeadlineExpired);
                    return false;
                }
                if !is_native(target, window, fullscreen, surface) {
                    self.stage = NegotiationStage::WaitingForNativeExtent { target, deadline };
                    return false;
                }
                self.stage = NegotiationStage::Active { target };
                true
            },
            _ => false,
        }
    }

    pub fn fail(&mut self, reason: NegotiationFailure)
        ensures
            final(self)@ == old(self)@.failed(reason),
    {
        if !matches!(self.stage, NegotiationStage::Failed { .. }) {
            self.stage = NegotiationStage::Failed { reason };
        }
    }

    pub fn public_state(self) -> (state: PresentationState)
        ensures
            state == self@.shown(),
    {
        match self.stage {
            NegotiationStage::Direct => PresentationState::Direct,
            NegotiationStage::RequestingBorderless { .. }
            | NegotiationStage::WaitingForNativeExtent { .. }
            | NegotiationStage::RecreatingOutput { .. } => PresentationState::Negotiating,
            NegotiationStage::Active { .. } => PresentationState::Virtualized,
            NegotiationStage::Failed { .. } => PresentationState::Failed,
        }
    }

    pub fn failure(self) -> (failure: Option<NegotiationFailure>)
        ensures
            failure == (match self@ {
                NegotiationStage::Failed { reason } => Some(reason),
                _ => None,
            }),
    {
        match self.stage {
            NegotiationStage::Failed { reason } => Some(reason),
            _ => None,
        }
    }

    pub fn output_recreation_ready(self) -> (ready: bool)
        ensures
            ready == (self@ is RecreatingOutput),
    {
        matches!(self.stage, NegotiationStage::RecreatingOutput { .. })
    }

    pub fn native_observation_is_current(
        self,
        window: Rect,
        fullscreen: bool,
        surface: SurfaceExtent,
        now: u64,
    ) -> (current: bool)
        ensures
            current == self@.current(window, surface, now),
    {
        match self.stage {
            NegotiationStage::RecreatingOutput { target, deadline } => now < deadline && is_native(
                target,
                window,
                fullscreen,
                surface,
            ),
            _ => false,
        }
    }
}

/// An exact geometry match is borderless fullscreen by observation, whether
/// or not the window carries the fullscreen state.
pub fn is_native(target: Rect, window: Rect, _fullscreen: bool, surface: SurfaceExtent) -> (r: bool)
    ensures
        r == native(target, window, surface),
{
    window == target && surface.accepts(target.extent())
}

/// A failed negotiation keeps its first reason, whatever comes after it.
pub proof fn the_first_failure_is_stable(
    reason: NegotiationFailure,
    later: NegotiationFailure,
    target: Rect,
    window: Rect,
    surface: SurfaceExtent,
    now: u64,
)
    ensures
        ({
            let failed = NegotiationStage::Failed { reason };
            &&& failed.failed(later) == failed
            &&& failed.requested(target, now) == failed
            &&& failed.sent(now) == failed
            &&& failed.observed(window, surface, now) == failed
            &&& failed.recreated(window, surface, now) == failed
        }),
{
}

/// No step but a confirmed recreation makes a negotiation virtualized, and
/// that one needs an exact native observation before the deadline.
pub proof fn virtualized_only_by_a_native_recreation(
    stage: NegotiationStage,
    reason: NegotiationFailure,
    target: Rect,
    window: Rect,
    surface: SurfaceExtent,
    now: u64,
)
    requires
        stage.shown() != PresentationState::Virtualized,
    ensures
        stage.failed(reason).shown() != PresentationState::Virtualized,
        stage.requested(target, now).shown() != PresentationState::Virtualized,
        stage.sent(now).shown() != PresentationState::Virtualized,
        stage.observed(window, surface, now).shown() != PresentationState::Virtualized,
        stage.recreated(window, surface, now).shown() == PresentationState::Virtualized ==> {
            &&& stage matches NegotiationStage::RecreatingOutput { target: wanted, deadline }
            &&& now < deadline
            &&& window == wanted
            &&& surface.takes(Extent { width: wanted.width, height: wanted.height })
        },
{
}

/// While a negotiation waits, observations never move its target or its
/// deadline.
pub proof fn observations_keep_target_and_deadline(
    target: Rect,
    deadline: u64,
    window: Rect,
    surface: SurfaceExtent,
    now: u64,
)
    requires
        now < deadline,
    ensures
        ({
            let waiting = NegotiationStage::WaitingForNativeExtent { target, deadline };
            let recreating = NegotiationStage::RecreatingOutput { target, deadline };
            &&& waiting.observed(window, surface, now) == waiting || waiting.observed(
                window,
                surface,
                now,
            ) == recreating
            &&& recreating.observed(window, surface, now) == waiting || recreating.observed(
                window,
                surface,
                now,
            ) == recreating
        }),
{
}

/// An observation at or after the deadline fails every waiting stage.
pub proof fn an_expired_wait_fails(
    stage: NegotiationStage,
    window: Rect,
    surface: SurfaceExtent,
    now: u64,
)
    requires
        stage.expired(now),
    ensures
        stage.observed(window, surface, now) == (NegotiationStage::Failed {
            reason: NegotiationFailure::DeadlineExpired,
        }),
{
}

/// One native observation is not enough: the one that starts the recreation
/// does not count as stable.
pub proof fn one_observation_is_not_stable(
    target: Rect,
    deadline: u64,
    window: Rect,
    surface: SurfaceExtent,
    now: u64,
)
    ensures
        !(NegotiationStage::WaitingForNativeExtent { target, deadline }).current(
            window,
            surface,
            now,
        ),
{
}

/// The output is native exactly where the window covers the target, in place
/// and size, and the surface takes the target's size.
pub proof fn a_native_output_covers_its_target(target: Rect, window: Rect, surface: SurfaceExtent)
    ensures
        native(target, window, surface) <==> {
            &&& window.x == target.x
            &&& window.y == target.y
            &&& window.width == target.width
            &&& window.height == target.height
            &&& match surface {
                SurfaceExtent::Fixed(extent) => extent.width == target.width && extent.height
                    == target.height,
                SurfaceExtent::Range { minimum, maximum } => minimum.width <= target.width
                    <= maximum.width && minimum.height <= target.height <= maximum.height,
            }
        },
{
}

/// From direct presentation a request for a target that has an area waits for
/// exactly that target, for five seconds; any other request changes nothing. A
/// request that was sent in time waits on for the same target.
pub proof fn requests_wait_for_their_target(stage: NegotiationStage, target: Rect, now: u64)
    requires
        now + NEGOTIATION_TIMEOUT <= u64::MAX,
    ensures
        stage is Direct && target.width > 0 && target.height > 0 ==> stage.requested(target, now)
            == (NegotiationStage::RequestingBorderless {
            target,
            deadline: (now + 5_000_000_000) as u64,
        }),
        !(stage is Direct) || target.width == 0 || target.height == 0 ==> stage.requested(
            target,
            now,
        ) == stage,
        stage matches NegotiationStage::RequestingBorderless { target: wanted, deadline }
            ==> stage.sent(now) == (if now < deadline {
            NegotiationStage::WaitingForNativeExtent { target: wanted, deadline }
        } else {
            NegotiationStage::Failed { reason: NegotiationFailure::DeadlineExpired }
        }),
        !(stage is RequestingBorderless) ==> stage.sent(now) == stage,
{
}

/// An active output that is no longer native waits for its target again, for
/// five seconds from now; while it is native it stays active.
pub proof fn a_lost_output_is_waited_for_again(
    target: Rect,
    window: Rect,
    surface: SurfaceExtent,
    now: u64,
)
    requires
        now + NEGOTIATION_TIMEOUT <= u64::MAX,
    ensures
        (NegotiationStage::Active { target }).observed(window, surface, now) == (if native(
            target,
            window,
            surface,
        ) {
            NegotiationStage::Active { target }
        } else {
            NegotiationStage::WaitingForNativeExtent {
                target,
                deadline: (now + 5_000_000_000) as u64,
            }
        }),
        (NegotiationStage::Direct).observed(window, surface, now) is Direct,
{
}

/// A recreated output is active where the window is native in time, and only
/// where a recreation was under way.
pub proof fn a_recreated_output_becomes_active(
    stage: NegotiationStage,
    window: Rect,
    surface: SurfaceExtent,
    now: u64,
)
    ensures
        stage matches NegotiationStage::RecreatingOutput { target, deadline } ==> (if now
            >= deadline {
            stage.recreated(window, surface, now) is Failed
        } else if native(target, window, surface) {
            stage.recreated(window, surface, now) == (NegotiationStage::Active { target })
        } else {
            stage.recreated(window, surface, now) == (NegotiationStage::WaitingForNativeExtent {
                target,
                deadline,
            })
        }),
        !(stage is RecreatingOutput) ==> stage.recreated(window, surface, now) == stage,
        stage.current(window, surface, now) <==> stage is RecreatingOutput && now
            < stage->RecreatingOutput_deadline && native(
            stage->RecreatingOutput_target,
            window,
            surface,
        ),
{
}

/// What is shown of a negotiation: virtualized is an active output alone, and
/// every wait is a negotiation.
pub proof fn a_stage_shows_what_it_is(stage: NegotiationStage, reason: NegotiationFailure)
    ensures
        stage is Direct <==> stage.shown() == PresentationState::Direct,
        stage is Active <==> stage.shown() == PresentationState::Virtualized,
        stage is Failed <==> stage.shown() == PresentationState::Failed,
        stage is RequestingBorderless || stage is WaitingForNativeExtent
            || stage is RecreatingOutput <==> stage.shown() == PresentationState::Negotiating,
        stage.failed(reason) is Failed,
        !(stage is Failed) ==> stage.failed(reason) == (NegotiationStage::Failed { reason }),
        stage is Failed ==> stage.failed(reason) == stage,
{
}

/// Only an output that was native is waited for again, and only where the window
/// or the surface no longer covers its target.
pub proof fn only_a_native_output_is_waited_for_again(
    stage: NegotiationStage,
    window: Rect,
    surface: SurfaceExtent,
)
    ensures
        !(stage is Active) ==> !stage.waits_again(window, surface),
        stage matches NegotiationStage::Active { target } ==> stage.waits_again(window, surface)
            == !native(target, window, surface),
{
}

} // verus!
