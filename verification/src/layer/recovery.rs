//! What a virtual swapchain promises the application, and the transaction
//! that replaces its downstream generation.

use vstd::prelude::*;

use crate::display::negotiation::PresentationState;
use crate::seqs::copy_slice;
use crate::vk::{Extent2D, Handle, NULL_HANDLE};

verus! {

/// One downstream swapchain behind a logical one.
#[derive(Debug, Clone, Copy, PartialEq, Eq, Structural)]
pub struct PhysicalGeneration {
    pub id: u64,
    pub handle: Handle,
    pub present_surface: Option<Handle>,
    pub extent: Extent2D,
    pub image_count: usize,
}

impl PhysicalGeneration {
    /// The generation can be shown: it has a handle, an area and images.
    pub open spec fn presentable(self) -> bool {
        &&& self.handle != NULL_HANDLE
        &&& self.extent.width != 0
        &&& self.extent.height != 0
        &&& self.image_count != 0
    }

    pub fn new(id: u64, handle: Handle, extent: Extent2D, image_count: usize) -> (generation: Self)
        ensures
            generation == (PhysicalGeneration {
                id,
                handle,
                present_surface: None,
                extent,
                image_count,
            }),
    {
        PhysicalGeneration { id, handle, present_surface: None, extent, image_count }
    }

    pub fn with_present_surface(self, surface: Handle) -> (generation: Self)
        ensures
            generation == (PhysicalGeneration { present_surface: Some(surface), ..self }),
    {
        PhysicalGeneration { present_surface: Some(surface), ..self }
    }

    pub fn id(self) -> (id: u64)
        ensures
            id == self.id,
    {
        self.id
    }

    pub fn handle(self) -> (handle: Handle)
        ensures
            handle == self.handle,
    {
        self.handle
    }

    pub fn present_surface(self) -> (surface: Option<Handle>)
        ensures
            surface == self.present_surface,
    {
        self.present_surface
    }

    pub fn extent(self) -> (extent: Extent2D)
        ensures
            extent == self.extent,
    {
        self.extent
    }

    pub fn image_count(self) -> (count: usize)
        ensures
            count == self.image_count,
    {
        self.image_count
    }

    pub fn is_presentable(self) -> (presentable: bool)
        ensures
            presentable == self.presentable(),
    {
        !(self.handle == NULL_HANDLE || self.extent.width == 0 || self.extent.height == 0
            || self.image_count == 0)
    }
}

/// A logical image and the downstream image that it is shown in.
#[derive(Debug, Clone, Copy, PartialEq, Eq, Structural)]
pub struct FrameBinding {
    pub logical_index: u32,
    pub physical_index: u32,
}

impl FrameBinding {
    pub fn new(logical_index: u32, physical_index: u32) -> (binding: Self)
        ensures
            binding == (FrameBinding { logical_index, physical_index }),
    {
        FrameBinding { logical_index, physical_index }
    }

    pub fn logical_index(self) -> (index: u32)
        ensures
            index == self.logical_index,
    {
        self.logical_index
    }

    pub fn physical_index(self) -> (index: u32)
        ensures
            index == self.physical_index,
    {
        self.physical_index
    }
}

#[derive(Debug, Clone, Copy, PartialEq, Eq, Structural)]
pub enum PresentationPath {
    SpatialBypass,
    Temporal,
    Direct,
}

pub open spec fn path_of(state: PresentationState) -> PresentationPath {
    match state {
        PresentationState::Negotiating
        | PresentationState::Failed => PresentationPath::SpatialBypass,
        PresentationState::Virtualized => PresentationPath::Temporal,
        PresentationState::Direct => PresentationPath::Direct,
    }
}

/// What the application sees of its swapchain.
#[derive(Debug, PartialEq, Eq)]
pub struct LogicalSnapshot {
    handle: Handle,
    images: Vec<Handle>,
    game_extent: Extent2D,
}

#[verifier::ext_equal]
pub struct LogicalSnapshotModel {
    pub handle: Handle,
    pub images: Seq<Handle>,
    pub game_extent: Extent2D,
}

impl View for LogicalSnapshot {
    type V = LogicalSnapshotModel;

    closed spec fn view(&self) -> LogicalSnapshotModel {
        LogicalSnapshotModel {
            handle: self.handle,
            images: self.images@,
            game_extent: self.game_extent,
        }
    }
}

impl LogicalSnapshot {
    pub fn images(&self) -> (images: &[Handle])
        ensures
            images@ == self@.images,
    {
        self.images.as_slice()
    }
}

/// The application's view of a swapchain, the generation behind it, and how
/// far the negotiation for it has come.
#[derive(Debug, PartialEq, Eq)]
pub struct LogicalSwapchainContract {
    logical: LogicalSnapshot,
    physical: PhysicalGeneration,
    state: PresentationState,
}

#[verifier::ext_equal]
pub struct ContractModel {
    pub logical: LogicalSnapshotModel,
    pub physical: PhysicalGeneration,
    pub state: PresentationState,
}

impl ContractModel {
    /// Both sides have a handle, an area and images.
    pub open spec fn wf(self) -> bool {
        &&& self.logical.handle != NULL_HANDLE
        &&& self.logical.images.len() > 0
        &&& self.logical.game_extent.width != 0
        &&& self.logical.game_extent.height != 0
        &&& self.physical.presentable()
    }

    pub open spec fn replaceable_by(self, physical: PhysicalGeneration) -> bool {
        physical.id > self.physical.id && physical.presentable()
    }

    pub open spec fn binds(self, binding: FrameBinding) -> bool {
        &&& binding.logical_index < self.logical.images.len()
        &&& binding.physical_index < self.physical.image_count
    }
}

impl View for LogicalSwapchainContract {
    type V = ContractModel;

    closed spec fn view(&self) -> ContractModel {
        ContractModel { logical: self.logical@, physical: self.physical, state: self.state }
    }
}

impl LogicalSwapchainContract {
    pub fn new(
        handle: Handle,
        images: Vec<Handle>,
        game_extent: Extent2D,
        physical: PhysicalGeneration,
        state: PresentationState,
    ) -> (result: Result<Self, &'static str>)
        ensures
            ({
                let wanted = ContractModel {
                    logical: LogicalSnapshotModel { handle, images: images@, game_extent },
                    physical,
                    state,
                };
                match result {
                    Ok(contract) => wanted.wf() && contract@ == wanted,
                    Err(reason) => !wanted.wf() && reason@
                        == "invalid swapchain generation contract"@,
                }
            }),
    {
        if handle == NULL_HANDLE || images.len() == 0 || game_extent.width == 0
            || game_extent.height == 0 || !physical.is_presentable() {
            return Err("invalid swapchain generation contract");
        }
        Ok(
            LogicalSwapchainContract {
                logical: LogicalSnapshot { handle, images, game_extent },
                physical,
                state,
            },
        )
    }

    pub fn handle(&self) -> (handle: Handle)
        ensures
            handle == self@.logical.handle,
    {
        self.logical.handle
    }

    pub fn logical_images(&self) -> (images: &[Handle])
        ensures
            images@ == self@.logical.images,
    {
        self.logical.images.as_slice()
    }

    pub fn game_extent(&self) -> (extent: Extent2D)
        ensures
            extent == self@.logical.game_extent,
    {
        self.logical.game_extent
    }

    pub fn generation(&self) -> (generation: PhysicalGeneration)
        ensures
            generation == self@.physical,
    {
        self.physical
    }

    pub fn logical_snapshot(&self) -> (snapshot: LogicalSnapshot)
        ensures
            snapshot@ == self@.logical,
    {
        LogicalSnapshot {
            handle: self.logical.handle,
            images: copy_slice(self.logical.images.as_slice()),
            game_extent: self.logical.game_extent,
        }
    }

    /// The same contract in a value of its own.
    pub fn duplicate(&self) -> (contract: Self)
        ensures
            contract@ == self@,
    {
        LogicalSwapchainContract {
            logical: self.logical_snapshot(),
            physical: self.physical,
            state: self.state,
        }
    }

    /// Puts a newer generation behind the same logical swapchain.
    pub fn replace_generation(
        &mut self,
        physical: PhysicalGeneration,
        state: PresentationState,
    ) -> (result: Result<(), &'static str>)
        ensures
            match result {
                Ok(_) => {
                    &&& old(self)@.replaceable_by(physical)
                    &&& final(self)@ == ContractModel { physical, state, ..old(self)@ }
                },
                Err(reason) => {
                    &&& !old(self)@.replaceable_by(physical)
                    &&& reason@ == "physical generation is not publishable"@
                    &&& final(self)@ == old(self)@
                },
            },
    {
        if physical.id() <= self.physical.id() || !physical.is_presentable() {
            return Err("physical generation is not publishable");
        }
        self.physical = physical;
        self.state = state;
        Ok(())
    }

    pub fn set_state(&mut self, state: PresentationState)
        ensures
            final(self)@ == (ContractModel { state, ..old(self)@ }),
    {
        self.state = state;
    }

    pub fn is_failed(&self) -> (failed: bool)
        ensures
            failed == (self@.state == PresentationState::Failed),
    {
        matches!(self.state, PresentationState::Failed)
    }

    pub fn bind(&self, binding: FrameBinding) -> (result: Result<FrameBinding, &'static str>)
        ensures
            match result {
                Ok(bound) => self@.binds(binding) && bound == binding,
                Err(reason) => !self@.binds(binding) && reason@
                    == "frame index is outside the active generation"@,
            },
    {
        if binding.logical_index() as usize >= self.logical.images.len()
            || binding.physical_index() as usize >= self.physical.image_count() {
            return Err("frame index is outside the active generation");
        }
        Ok(binding)
    }

    pub fn presentation_path(&self) -> (path: PresentationPath)
        ensures
            path == path_of(self@.state),
    {
        match self.state {
            PresentationState::Negotiating
            | PresentationState::Failed => PresentationPath::SpatialBypass,
            PresentationState::Virtualized => PresentationPath::Temporal,
            PresentationState::Direct => PresentationPath::Direct,
        }
    }
}

/// A lease that is given back at most once.
#[derive(Debug, Clone, Copy, PartialEq, Eq, Structural)]
pub struct LeaseCleanup {
    acquired: bool,
    restored: bool,
    restore_count: u32,
}

impl LeaseCleanup {
    pub closed spec fn held(self) -> bool {
        self.acquired && !self.restored
    }

    pub closed spec fn restores(self) -> nat {
        self.restore_count as nat
    }

    /// A lease was given back once if it is no longer held, and else not.
    pub closed spec fn wf(self) -> bool {
        self.acquired && self.restore_count == (if self.restored {
            1u32
        } else {
            0u32
        })
    }

    pub fn acquired() -> (cleanup: Self)
        ensures
            cleanup.wf(),
            cleanup.held(),
            cleanup.restores() == 0,
    {
        LeaseCleanup { acquired: true, restored: false, restore_count: 0 }
    }

    pub fn restore_once(&mut self) -> (restored: bool)
        requires
            old(self).wf(),
        ensures
            final(self).wf(),
            restored == old(self).held(),
            !final(self).held(),
            final(self).restores() == old(self).restores() + (if restored {
                1nat
            } else {
                0nat
            }),
    {
        if !self.acquired || self.restored {
            return false;
        }
        self.restored = true;
        self.restore_count = self.restore_count + 1;
        true
    }

    pub fn restore_count(self) -> (count: u32)
        ensures
            count == self.restores(),
    {
        self.restore_count
    }
}

/// However often it is given back, a lease counts at most one restore, and
/// exactly one once it is no longer held.
pub proof fn a_lease_is_restored_at_most_once(cleanup: LeaseCleanup)
    requires
        cleanup.wf(),
    ensures
        cleanup.restores() <= 1,
        !cleanup.held() <==> cleanup.restores() == 1,
{
}

/// Names the swapchain generation that a reconfiguration replaces.
#[derive(Debug, Clone, Copy, PartialEq, Eq, Structural)]
pub struct ReconfigurationTicket {
    pub logical_handle: Handle,
    pub game_surface: Handle,
    pub generation: u64,
}

impl ReconfigurationTicket {
    pub fn new(logical_handle: Handle, game_surface: Handle, generation: u64) -> (ticket: Self)
        ensures
            ticket == (ReconfigurationTicket { logical_handle, game_surface, generation }),
    {
        ReconfigurationTicket { logical_handle, game_surface, generation }
    }

    pub fn logical_handle(self) -> (handle: Handle)
        ensures
            handle == self.logical_handle,
    {
        self.logical_handle
    }

    pub fn game_surface(self) -> (surface: Handle)
        ensures
            surface == self.game_surface,
    {
        self.game_surface
    }

    pub fn generation(self) -> (generation: u64)
        ensures
            generation == self.generation,
    {
        self.generation
    }
}

/// At most one reconfiguration is under way; a destroy that arrives during it
/// waits until the reconfiguration takes it up.
#[derive(Debug, Clone, Copy, PartialEq, Eq, Structural)]
pub struct ReconfigurationLifecycle {
    active: Option<ReconfigurationTicket>,
    destroy_requested: bool,
    generation: Option<u64>,
}

pub struct LifecycleModel {
    pub active: Option<ReconfigurationTicket>,
    pub destroy_requested: bool,
    pub generation: Option<u64>,
}

impl LifecycleModel {
    pub open spec fn fresh() -> LifecycleModel {
        LifecycleModel { active: None, destroy_requested: false, generation: None }
    }

    /// A destroy waits only while a reconfiguration is under way.
    pub open spec fn wf(self) -> bool {
        self.destroy_requested ==> self.active is Some
    }

    pub open spec fn begun(self, ticket: ReconfigurationTicket) -> LifecycleModel {
        if self.active is None {
            LifecycleModel {
                active: Some(ticket),
                destroy_requested: false,
                generation: Some(ticket.generation),
            }
        } else {
            self
        }
    }

    /// The ticket is the one under way, it still describes the swapchain, and
    /// nobody asked for the swapchain to go.
    pub open spec fn publishable(
        self,
        ticket: ReconfigurationTicket,
        logical_handle: Handle,
        game_surface: Handle,
        generation: u64,
        retired: bool,
    ) -> bool {
        &&& self.active == Some(ticket)
        &&& !self.destroy_requested
        &&& !retired
        &&& ticket == ReconfigurationTicket { logical_handle, game_surface, generation }
    }

    pub open spec fn published(self, generation: u64) -> LifecycleModel {
        LifecycleModel { active: None, generation: Some(generation), ..self }
    }

    pub open spec fn released(self) -> LifecycleModel {
        LifecycleModel { active: None, destroy_requested: false, ..self }
    }

    pub open spec fn destroy_asked(self) -> LifecycleModel {
        LifecycleModel { destroy_requested: self.active is Some, ..self }
    }
}

impl View for ReconfigurationLifecycle {
    type V = LifecycleModel;

    closed spec fn view(&self) -> LifecycleModel {
        LifecycleModel {
            active: self.active,
            destroy_requested: self.destroy_requested,
            generation: self.generation,
        }
    }
}

impl ReconfigurationLifecycle {
    pub fn new() -> (lifecycle: Self)
        ensures
            lifecycle@ == LifecycleModel::fresh(),
    {
        ReconfigurationLifecycle { active: None, destroy_requested: false, generation: None }
    }

    pub fn is_active(&self, ticket: ReconfigurationTicket) -> (active: bool)
        ensures
            active == (self@.active == Some(ticket)),
    {
        match self.active {
            Some(active) => active == ticket,
            None => false,
        }
    }

    pub fn begin(&mut self, ticket: ReconfigurationTicket) -> (begun: bool)
        ensures
            begun == (old(self)@.active is None),
            final(self)@ == old(self)@.begun(ticket),
    {
        if self.active.is_some() {
            return false;
        }
        self.active = Some(ticket);
        self.destroy_requested = false;
        self.generation = Some(ticket.generation());
        true
    }

    pub fn blocks_frame_operations(&self) -> (blocks: bool)
        ensures
            blocks == (self@.active is Some),
    {
        self.active.is_some()
    }

    pub fn can_publish(
        &self,
        ticket: ReconfigurationTicket,
        logical_handle: Handle,
        game_surface: Handle,
        generation: u64,
        retired: bool,
    ) -> (publishable: bool)
        ensures
            publishable == self@.publishable(
                ticket,
                logical_handle,
                game_surface,
                generation,
                retired,
            ),
    {
        self.is_active(ticket) && !self.destroy_requested && !retired && ticket.logical_handle()
            == logical_handle && ticket.game_surface() == game_surface && ticket.generation()
            == generation
    }

    pub fn publish(
        &mut self,
        ticket: ReconfigurationTicket,
        logical_handle: Handle,
        game_surface: Handle,
        generation: u64,
        retired: bool,
    ) -> (published: bool)
        ensures
            published == old(self)@.publishable(
                ticket,
                logical_handle,
                game_surface,
                generation,
                retired,
            ),
            final(self)@ == (if published {
                old(self)@.published(generation)
            } else {
                old(self)@
            }),
    {
        if !self.can_publish(ticket, logical_handle, game_surface, generation, retired) {
            return false;
        }
        self.active = None;
        self.generation = Some(generation);
        true
    }

    pub fn abort(&mut self, ticket: ReconfigurationTicket) -> (aborted: bool)
        ensures
            aborted == (old(self)@.active == Some(ticket)),
            final(self)@ == (if aborted {
                old(self)@.released()
            } else {
                old(self)@
            }),
    {
        if !self.is_active(ticket) {
            return false;
        }
        self.active = None;
        self.destroy_requested = false;
        true
    }

    /// Notes that the application destroyed the swapchain meanwhile.
    pub fn request_destroy(&mut self) -> (noted: bool)
        requires
            old(self)@.wf(),
        ensures
            final(self)@.wf(),
            noted == (old(self)@.active is Some && !old(self)@.destroy_requested),
            final(self)@ == old(self)@.destroy_asked(),
    {
        if self.active.is_none() || self.destroy_requested {
            return false;
        }
        self.destroy_requested = true;
        true
    }

    pub fn destroy_requested(&self) -> (requested: bool)
        ensures
            requested == self@.destroy_requested,
    {
        self.destroy_requested
    }

    pub fn take_destroy_request(&mut self, ticket: ReconfigurationTicket) -> (taken: bool)
        ensures
            taken == (old(self)@.active == Some(ticket) && old(self)@.destroy_requested),
            final(self)@ == (if taken {
                old(self)@.released()
            } else {
                old(self)@
            }),
    {
        if !self.is_active(ticket) || !self.destroy_requested {
            return false;
        }
        self.active = None;
        self.destroy_requested = false;
        true
    }

    pub fn generation(&self) -> (generation: Option<u64>)
        ensures
            generation == self@.generation,
    {
        self.generation
    }
}

/// A second reconfiguration cannot begin while one is under way.
pub proof fn a_running_reconfiguration_keeps_its_ticket(
    lifecycle: LifecycleModel,
    ticket: ReconfigurationTicket,
)
    requires
        lifecycle.active is Some,
    ensures
        lifecycle.begun(ticket) == lifecycle,
        lifecycle.destroy_asked().active == lifecycle.active,
{
}

/// Once a destroy was asked for, the reconfiguration under way cannot be
/// published; its own ticket takes the destroy up once, and frame operations
/// are then free again.
pub proof fn a_deferred_destroy_is_consumed_once(
    lifecycle: LifecycleModel,
    ticket: ReconfigurationTicket,
    logical_handle: Handle,
    game_surface: Handle,
    generation: u64,
    retired: bool,
)
    requires
        lifecycle.wf(),
        lifecycle.active == Some(ticket),
    ensures
        ({
            let asked = lifecycle.destroy_asked();
            &&& asked.destroy_requested
            &&& asked.active == Some(ticket)
            &&& !asked.publishable(ticket, logical_handle, game_surface, generation, retired)
            &&& asked.released().active is None
            &&& !asked.released().destroy_requested
        }),
{
}

/// Beginning and then publishing or aborting leaves no reconfiguration under
/// way; the generation on record is the one that the ticket names.
pub proof fn a_finished_reconfiguration_unblocks_frames(
    lifecycle: LifecycleModel,
    ticket: ReconfigurationTicket,
)
    requires
        lifecycle.active is None,
    ensures
        ({
            let begun = lifecycle.begun(ticket);
            &&& begun.active == Some(ticket)
            &&& begun.publishable(
                ticket,
                ticket.logical_handle,
                ticket.game_surface,
                ticket.generation,
                false,
            )
            &&& begun.published(ticket.generation).active is None
            &&& begun.published(ticket.generation).generation == Some(ticket.generation)
            &&& begun.released().active is None
            &&& begun.released().generation == Some(ticket.generation)
        }),
{
}

/// A replaced generation is newer, and the application's view stays the same.
pub proof fn replacement_preserves_the_logical_swapchain(
    contract: ContractModel,
    physical: PhysicalGeneration,
    state: PresentationState,
)
    requires
        contract.wf(),
        contract.replaceable_by(physical),
    ensures
        ({
            let replaced = ContractModel { physical, state, ..contract };
            &&& replaced.wf()
            &&& replaced.logical == contract.logical
            &&& replaced.physical.id > contract.physical.id
            &&& !replaced.replaceable_by(contract.physical)
        }),
{
}

/// Only a virtualized swapchain has history to work with; one that negotiates or
/// failed is scaled, and a direct one is left alone.
pub proof fn only_a_virtualized_swapchain_uses_history(state: PresentationState)
    ensures
        path_of(state) == PresentationPath::Temporal <==> state == PresentationState::Virtualized,
        path_of(state) == PresentationPath::Direct <==> state == PresentationState::Direct,
        path_of(state) == PresentationPath::SpatialBypass <==> state
            == PresentationState::Negotiating || state == PresentationState::Failed,
{
}

/// A frame is within a promise where both of its images are.
pub proof fn frames_stay_within_the_promise(contract: ContractModel, binding: FrameBinding)
    ensures
        contract.binds(binding) <==> binding.logical_index < contract.logical.images.len()
            && binding.physical_index < contract.physical.image_count,
        contract.wf() <==> {
            &&& contract.logical.handle != 0
            &&& contract.logical.images.len() > 0
            &&& contract.logical.game_extent.width > 0
            &&& contract.logical.game_extent.height > 0
            &&& contract.physical.handle != 0
            &&& contract.physical.extent.width > 0
            &&& contract.physical.extent.height > 0
            &&& contract.physical.image_count > 0
        },
{
}

/// A replacement begins only where none is under way, and then waits for its own
/// ticket; a destroy waits only for a replacement. What ends a replacement ends
/// the wait.
pub proof fn a_replacement_begins_and_ends(
    lifecycle: LifecycleModel,
    ticket: ReconfigurationTicket,
    generation: u64,
)
    ensures
        lifecycle.active is None ==> lifecycle.begun(ticket) == (LifecycleModel {
            active: Some(ticket),
            destroy_requested: false,
            generation: Some(ticket.generation),
        }),
        lifecycle.destroy_asked().destroy_requested == (lifecycle.active is Some),
        lifecycle.destroy_asked().active == lifecycle.active,
        lifecycle.destroy_asked().generation == lifecycle.generation,
        lifecycle.published(generation).active is None,
        lifecycle.published(generation).generation == Some(generation),
        lifecycle.published(generation).destroy_requested == lifecycle.destroy_requested,
        lifecycle.released().active is None,
        !lifecycle.released().destroy_requested,
        lifecycle.released().generation == lifecycle.generation,
        LifecycleModel::fresh().active is None,
        !LifecycleModel::fresh().destroy_requested,
        LifecycleModel::fresh().generation is None,
{
}

} // verus!
