//! Replacing the downstream generation of a virtual swapchain once its window
//! is native. The replacement is a transaction in two phases: while it is
//! under way no frame passes, and it ends either published or undone.

use vstd::prelude::*;

use super::creation::{
    as_extent, negotiation_published, offered_extent, publish_negotiation, surface_extent,
    surface_extent_accepts, surface_negotiates,
};
use super::lifetime::{
    has_live_virtual_swapchain, live_virtual, restore_surface_window, window_restored,
};
use super::surface::PENDING_WIN32_WINDOW;
use super::swapchain_metadata::OwnedHdrMetadata;
use crate::display::negotiation::{
    NegotiationStage, PresentationNegotiation, PresentationState, NEGOTIATION_TIMEOUT,
};
use crate::display::{BorderlessLease, SurfaceExtent, X11Window};
use crate::layer::mapping::MappingModel;
use crate::layer::recovery::{
    ContractModel, LogicalSwapchainContract, PhysicalGeneration, ReconfigurationTicket,
};
use crate::layer::state::{
    lemma_remove_swapchain, lemma_set_swapchain, Layer, LayerModel, SwapchainInfo, SwapchainModel,
    SwapchainState, SwapchainTemplate, TemplateModel,
};
use crate::seqs::{contains_u64, copy_slice};
use crate::vk::{Extent2D, Handle, SurfaceCapabilities, VkResult, NULL_HANDLE, SUCCESS};

verus! {

/// Where an observation of a surface starts.
#[derive(Debug, Clone, Copy, PartialEq, Eq, Structural)]
pub enum ObservationStart {
    /// There is nothing to look at; the surface shows as this.
    Settled(PresentationState),
    /// This window has to be described, and the surface queried.
    Describe { window: u64 },
}

/// A surface that the layer does not know shows as direct. One that still
/// waits for its window, as what it was.
pub fn begin_observation(layer: &Layer, surface: Handle) -> (start: ObservationStart)
    requires
        layer.wf(),
    ensures
        start == (if !layer@.surfaces.contains_key(surface) {
            ObservationStart::Settled(PresentationState::Direct)
        } else if layer@.surfaces[surface].window == PENDING_WIN32_WINDOW {
            ObservationStart::Settled(layer@.surfaces[surface].negotiation@.shown())
        } else {
            ObservationStart::Describe { window: layer@.surfaces[surface].window }
        }),
{
    match layer.surfaces.get(surface) {
        None => ObservationStart::Settled(PresentationState::Direct),
        Some(state) => if state.window == PENDING_WIN32_WINDOW {
            ObservationStart::Settled(state.negotiation.public_state())
        } else {
            ObservationStart::Describe { window: state.window }
        },
    }
}

/// What an observation of a surface came to.
#[derive(Debug, Clone, Copy, PartialEq, Eq, Structural)]
pub struct SurfaceObservation {
    pub state: PresentationState,
    /// A lease to give back to the window.
    pub restore: Option<BorderlessLease>,
    /// The native output is ready to be published.
    pub publish: bool,
}

/// The stage that a surface is in after an observation; one that failed goes
/// back to the start.
pub open spec fn stage_after_observation(
    before: NegotiationStage,
    window: X11Window,
    capabilities: SurfaceCapabilities,
    now: u64,
) -> NegotiationStage {
    let observed = before.observed(window.rect, offered_extent(capabilities), now);
    if observed is Failed {
        NegotiationStage::Direct
    } else {
        observed
    }
}

/// A layer with this negotiation on a surface and the swapchains on it.
pub open spec fn negotiation_spread(
    before: LayerModel,
    after: LayerModel,
    surface: Handle,
    stage: NegotiationStage,
) -> bool {
    &&& after.swapchains == negotiation_published(before, surface, stage)
    &&& after.retired == before.retired
    &&& after.recreating == before.recreating
    &&& after.next_logical == before.next_logical
    &&& after.surfaces.contains_key(surface) == before.surfaces.contains_key(surface)
    &&& before.surfaces.contains_key(surface) ==> after.surfaces[surface].negotiation@ == stage
        && after.surfaces == surface_negotiates(
        before.surfaces,
        surface,
        after.surfaces[surface].negotiation,
    )
    &&& !before.surfaces.contains_key(surface) ==> after.surfaces == before.surfaces
}

/// The layer after a surface was observed: one whose negotiation failed is
/// given up first.
pub open spec fn surface_observed(
    before: LayerModel,
    after: LayerModel,
    surface: Handle,
    window: X11Window,
    capabilities: SurfaceCapabilities,
    now: u64,
) -> bool {
    let stage = before.surfaces[surface].negotiation@;
    if stage.observed(window.rect, offered_extent(capabilities), now) is Failed {
        exists|restored: LayerModel| #[trigger]
            window_restored(before, restored, surface) && negotiation_spread(
                restored,
                after,
                surface,
                NegotiationStage::Direct,
            )
    } else {
        negotiation_spread(
            before,
            after,
            surface,
            stage_after_observation(stage, window, capabilities, now),
        )
    }
}

/// Takes in what a surface's window looks like now.
pub fn observe_surface_negotiation(
    layer: &mut Layer,
    surface: Handle,
    window: X11Window,
    capabilities: SurfaceCapabilities,
    now: u64,
) -> (observation: SurfaceObservation)
    requires
        old(layer).wf(),
        old(layer)@.surfaces.contains_key(surface)
            && old(layer)@.surfaces[surface].negotiation@.waits_again(
            window.rect,
            offered_extent(capabilities),
        ) ==> now + NEGOTIATION_TIMEOUT <= u64::MAX,
    ensures
        final(layer).wf(),
        if old(layer)@.surfaces.contains_key(surface) {
            let before = old(layer)@.surfaces[surface].negotiation@;
            let stage = stage_after_observation(before, window, capabilities, now);
            &&& surface_observed(old(layer)@, final(layer)@, surface, window, capabilities, now)
            &&& observation.state == stage.shown()
            &&& observation.publish == (stage is RecreatingOutput)
            &&& observation.restore == (if before.observed(
                window.rect,
                offered_extent(capabilities),
                now,
            ) is Failed {
                old(layer)@.surfaces[surface].borderless_lease
            } else {
                None
            })
        } else {
            &&& final(layer)@ == old(layer)@
            &&& observation == SurfaceObservation {
                state: PresentationState::Direct,
                restore: None,
                publish: false,
            }
        },
{
    let mut negotiation: PresentationNegotiation = match layer.surfaces.get(surface) {
        None => {
            return SurfaceObservation {
                state: PresentationState::Direct,
                restore: None,
                publish: false,
            };
        },
        Some(state) => state.negotiation,
    };
    negotiation.observe(window.rect, window.fullscreen, surface_extent(capabilities), now);
    let mut restore: Option<BorderlessLease> = None;
    let ghost entry = layer@;
    if negotiation.failure().is_some() {
        restore = restore_surface_window(layer, surface);
        negotiation = PresentationNegotiation::direct();
    }
    let ghost restored = layer@;
    publish_negotiation(layer, surface, negotiation);
    assert(negotiation_spread(restored, layer@, surface, negotiation@));
    SurfaceObservation {
        state: negotiation.public_state(),
        restore,
        publish: negotiation.output_recreation_ready(),
    }
}

/// A virtual swapchain on the surface that can still be replaced.
pub open spec fn replaceable(layer: LayerModel, surface: Handle, handle: Handle) -> bool {
    &&& layer.swapchains.contains_key(handle)
    &&& !layer.retired.contains(handle)
    &&& layer.swapchains[handle].game_surface == surface
    &&& layer.swapchains[handle].is_virtual()
}

fn find_replaceable(layer: &Layer, surface: Handle) -> (found: Option<Handle>)
    requires
        layer.wf(),
    ensures
        match found {
            Some(handle) => replaceable(layer@, surface, handle),
            None => forall|handle: Handle| !#[trigger] replaceable(layer@, surface, handle),
        },
{
    let mut index: usize = 0;
    while index < layer.swapchains.len()
        invariant
            layer.wf(),
            index <= layer.swapchains.key_seq().len(),
            forall|i: int|
                0 <= i < index ==> !replaceable(
                    layer@,
                    surface,
                    #[trigger] layer.swapchains.key_seq()[i],
                ),
        decreases layer.swapchains.key_seq().len() - index,
    {
        let handle: Handle = layer.swapchains.key_at(index);
        let state: &SwapchainState = layer.swapchains.at(index);
        proof {
            layer.swapchains.lemma_at(index as int);
            assert(layer@.swapchains[handle] == state@);
        }
        if !layer.is_retired_swapchain(handle) && state.game_surface == surface
            && state.mapping.is_some() {
            return Some(handle);
        }
        index = index + 1;
    }
    proof {
        assert forall|handle: Handle| !#[trigger] replaceable(layer@, surface, handle) by {
            if layer@.swapchains.contains_key(handle) {
                let i = layer.swapchains.key_seq().index_of(handle);
                assert(layer.swapchains.key_seq()[i] == handle);
            }
        }
    }
    None
}

/// A surface that was claimed for a replacement.
#[derive(Debug, Clone, Copy, PartialEq, Eq, Structural)]
pub struct NativeClaim {
    pub surface: Handle,
    pub logical: Handle,
    pub window: u64,
}

/// Claims a surface for a replacement. Nothing is claimed while another
/// replacement is under way, or where there is no swapchain to replace.
pub fn claim_native_generation(layer: &mut Layer, surface: Handle) -> (claim: Option<NativeClaim>)
    requires
        old(layer).wf(),
    ensures
        final(layer).wf(),
        match claim {
            Some(claim) => {
                &&& !old(layer)@.recreating.contains(surface)
                &&& old(layer)@.surfaces.contains_key(surface)
                &&& replaceable(old(layer)@, surface, claim.logical)
                &&& claim.surface == surface
                &&& claim.window == old(layer)@.surfaces[surface].window
                &&& final(layer)@ == LayerModel {
                    recreating: old(layer)@.recreating.insert(surface),
                    ..old(layer)@
                }
            },
            None => {
                &&& old(layer)@.recreating.contains(surface) || !old(layer)@.surfaces.contains_key(
                    surface,
                ) || forall|handle: Handle| !#[trigger] replaceable(old(layer)@, surface, handle)
                &&& final(layer)@ == old(layer)@
            },
        },
{
    let ghost entry = layer@;
    if !layer.begin_surface_recreation(surface) {
        assert(layer@.recreating =~= entry.recreating);
        return None;
    }
    let found: Option<Handle> = find_replaceable(layer, surface);
    let window: Option<u64> = match layer.surfaces.get(surface) {
        Some(state) => Some(state.window),
        None => None,
    };
    proof {
        assert forall|handle: Handle|
            replaceable(entry, surface, handle) == #[trigger] replaceable(
                layer@,
                surface,
                handle,
            ) by {}
        if found is None {
            assert forall|handle: Handle| !#[trigger] replaceable(entry, surface, handle) by {
                assert(!replaceable(layer@, surface, handle));
            }
        }
    }
    match (found, window) {
        (Some(logical), Some(window)) => Some(NativeClaim { surface, logical, window }),
        _ => {
            layer.end_surface_recreation(surface);
            assert(layer@.recreating =~= entry.recreating);
            None
        },
    }
}

/// What a replacement has to know to be published or undone.
#[derive(Debug)]
pub struct NativeGenerationSnapshot {
    pub ticket: ReconfigurationTicket,
    pub old_physical: Handle,
    pub old_physical_images: Vec<Handle>,
    pub old_runtime_info: SwapchainInfo,
    pub template: SwapchainTemplate,
    pub contract: LogicalSwapchainContract,
    pub negotiation: PresentationNegotiation,
    pub hdr_metadata: Option<OwnedHdrMetadata>,
}

#[verifier::ext_equal]
pub struct SnapshotModel {
    pub ticket: ReconfigurationTicket,
    pub old_physical: Handle,
    pub old_physical_images: Seq<Handle>,
    pub old_runtime_info: SwapchainInfo,
    pub template: TemplateModel,
    pub contract: ContractModel,
    pub negotiation: NegotiationStage,
    pub hdr_metadata: Option<OwnedHdrMetadata>,
}

impl View for NativeGenerationSnapshot {
    type V = SnapshotModel;

    open spec fn view(&self) -> SnapshotModel {
        SnapshotModel {
            ticket: self.ticket,
            old_physical: self.old_physical,
            old_physical_images: self.old_physical_images@,
            old_runtime_info: self.old_runtime_info,
            template: self.template@,
            contract: self.contract@,
            negotiation: self.negotiation@,
            hdr_metadata: self.hdr_metadata,
        }
    }
}

/// The swapchain shows on the surface with nothing in flight, no other
/// replacement is under way, what was observed is native and in time, and
/// the contract speaks of the current generation.
pub open spec fn generation_ready(
    state: SwapchainModel,
    surface: Handle,
    observed: X11Window,
    extent: SurfaceExtent,
    now: u64,
) -> bool {
    &&& state.game_surface == surface
    &&& state.mapping matches Some(mapping)
    &&& mapping.idle()
    &&& !state.blocked()
    &&& state.negotiation.current(observed.rect, extent, now)
    &&& state.contract matches Some(contract)
    &&& contract.physical.id == state.generation
    &&& state.template is Some
}

pub open spec fn ticket_of(state: SwapchainModel) -> ReconfigurationTicket {
    ReconfigurationTicket {
        logical_handle: state.logical_handle,
        game_surface: state.game_surface,
        generation: state.generation,
    }
}

/// What is remembered of a swapchain whose replacement begins.
pub open spec fn snapshot_of(state: SwapchainModel) -> SnapshotModel {
    SnapshotModel {
        ticket: ticket_of(state),
        old_physical: state.physical_handle,
        old_physical_images: state.physical_images,
        old_runtime_info: SwapchainInfo {
            format: state.template.unwrap().image_format,
            color_space: state.template.unwrap().image_color_space,
            extent: state.contract.unwrap().physical.extent,
        },
        template: state.template.unwrap(),
        contract: state.contract.unwrap(),
        negotiation: state.negotiation,
        hdr_metadata: state.hdr_metadata,
    }
}

/// The swapchain while its replacement is under way: the overlay is out, and
/// frames are blocked.
pub open spec fn generation_begun(state: SwapchainModel) -> SwapchainModel {
    SwapchainModel {
        has_overlay: false,
        lifecycle: state.lifecycle.begun(ticket_of(state)),
        ..state
    }
}

/// Begins the replacement of a swapchain's generation.
pub fn begin_native_generation(
    state: &mut SwapchainState,
    surface: Handle,
    observed: X11Window,
    extent: SurfaceExtent,
    now: u64,
) -> (snapshot: Option<NativeGenerationSnapshot>)
    requires
        old(state)@.wf(),
    ensures
        final(state)@.wf(),
        match snapshot {
            Some(snapshot) => {
                &&& generation_ready(old(state)@, surface, observed, extent, now)
                &&& old(state)@.has_overlay
                &&& snapshot@ == snapshot_of(old(state)@)
                &&& final(state)@ == generation_begun(old(state)@)
            },
            None => {
                &&& !(generation_ready(old(state)@, surface, observed, extent, now) && old(
                    state,
                )@.has_overlay)
                &&& final(state)@ == (if generation_ready(
                    old(state)@,
                    surface,
                    observed,
                    extent,
                    now,
                ) {
                    SwapchainModel {
                        lifecycle: old(state)@.lifecycle.begun(ticket_of(old(state)@)).released(),
                        ..old(state)@
                    }
                } else {
                    old(state)@
                })
            },
        },
{
    let idle: bool = match &state.mapping {
        Some(mapping) => mapping.is_idle(),
        None => false,
    };
    if state.game_surface != surface || !idle || state.lifecycle.blocks_frame_operations()
        || !state.negotiation.native_observation_is_current(
        observed.rect,
        observed.fullscreen,
        extent,
        now,
    ) {
        return None;
    }
    let contract: LogicalSwapchainContract = match &state.contract {
        Some(contract) => contract.duplicate(),
        None => {
            return None;
        },
    };
    if contract.generation().id() != state.generation {
        return None;
    }
    let template: SwapchainTemplate = match &state.template {
        Some(template) => template.duplicate(),
        None => {
            return None;
        },
    };
    let ticket: ReconfigurationTicket = ReconfigurationTicket::new(
        state.logical_handle,
        surface,
        state.generation,
    );
    if !state.lifecycle.begin(ticket) {
        return None;
    }
    if !state.has_overlay {
        state.lifecycle.abort(ticket);
        return None;
    }
    state.has_overlay = false;
    let old_runtime_info: SwapchainInfo = SwapchainInfo {
        format: template.image_format,
        color_space: template.image_color_space,
        extent: contract.generation().extent(),
    };
    Some(
        NativeGenerationSnapshot {
            ticket,
            old_physical: state.physical_handle,
            old_physical_images: copy_slice(state.physical_images.as_slice()),
            old_runtime_info,
            template,
            contract,
            negotiation: state.negotiation,
            hdr_metadata: state.hdr_metadata,
        },
    )
}

/// The extent of the window, which the new generation gets.
pub open spec fn window_extent(observed: X11Window) -> Extent2D {
    Extent2D { width: observed.rect.width, height: observed.rect.height }
}

/// What a replacement aims for.
#[derive(Debug, Clone, Copy, PartialEq, Eq, Structural)]
pub struct NativeAim {
    pub extent: Extent2D,
    pub negotiation: PresentationNegotiation,
}

/// Aims at the window's own extent, if what was observed is still native and
/// the surface takes that extent.
pub fn aim_at_window(
    snapshot: &NativeGenerationSnapshot,
    observed: X11Window,
    extent: SurfaceExtent,
    now: u64,
) -> (aim: Option<NativeAim>)
    ensures
        match aim {
            Some(aim) => {
                &&& snapshot@.negotiation.current(observed.rect, extent, now)
                &&& extent.takes(as_extent(window_extent(observed)))
                &&& aim.extent == window_extent(observed)
                &&& aim.negotiation@ == (NegotiationStage::Active { target: observed.rect })
            },
            None => !snapshot@.negotiation.current(observed.rect, extent, now) || !extent.takes(
                as_extent(window_extent(observed)),
            ),
        },
{
    let target: Extent2D = Extent2D { width: observed.rect.width, height: observed.rect.height };
    let mut negotiation: PresentationNegotiation = snapshot.negotiation;
    if !negotiation.output_recreated(observed.rect, observed.fullscreen, extent, now)
        || !surface_extent_accepts(extent, target) {
        return None;
    }
    Some(NativeAim { extent: target, negotiation })
}

/// The downstream swapchain was made.
pub fn generation_created(result: VkResult, physical: Handle) -> (created: bool)
    ensures
        created == (result == SUCCESS && physical != NULL_HANDLE),
{
    result == SUCCESS && physical != NULL_HANDLE
}

pub open spec fn next_generation(generation: u64) -> u64 {
    if generation == u64::MAX {
        generation
    } else {
        (generation + 1) as u64
    }
}

/// The generation that takes over.
pub open spec fn new_generation(
    ticket: ReconfigurationTicket,
    physical: Handle,
    extent: Extent2D,
    image_count: usize,
) -> PhysicalGeneration {
    PhysicalGeneration {
        id: next_generation(ticket.generation),
        handle: physical,
        present_surface: None,
        extent,
        image_count,
    }
}

/// The replacement is still the one under way, nothing is in flight, and the
/// new generation can take over from the old one.
pub open spec fn generation_publishable(
    state: SwapchainModel,
    retired: bool,
    ticket: ReconfigurationTicket,
    generation: PhysicalGeneration,
) -> bool {
    &&& state.mapping matches Some(mapping)
    &&& mapping.idle()
    &&& state.contract matches Some(contract)
    &&& contract.replaceable_by(generation)
    &&& state.lifecycle.publishable(
        ticket,
        state.logical_handle,
        state.game_surface,
        state.generation,
        retired,
    )
}

/// The swapchain with its new generation. What the application sees of it is
/// as it was.
pub open spec fn generation_published(
    state: SwapchainModel,
    old_physical: Handle,
    generation: PhysicalGeneration,
    images: Seq<Handle>,
    stage: NegotiationStage,
) -> SwapchainModel {
    SwapchainModel {
        physical_handle: generation.handle,
        mapping: Some(MappingModel { generation: generation.id, ..state.mapping.unwrap() }),
        negotiation: stage,
        has_overlay: true,
        physical_images: images,
        retired_physical_generations: if old_physical != NULL_HANDLE
            && !state.retired_physical_generations.contains(old_physical) {
            state.retired_physical_generations.push(old_physical)
        } else {
            state.retired_physical_generations
        },
        maintenance_overlay_reported: false,
        maintenance_present_reported: false,
        maintenance_release_reported: false,
        generation: generation.id,
        contract: Some(
            ContractModel {
                physical: generation,
                state: stage.shown(),
                ..state.contract.unwrap()
            },
        ),
        lifecycle: state.lifecycle.published(state.generation),
        ..state
    }
}

fn take_generation(
    state: &mut SwapchainState,
    retired: bool,
    ticket: ReconfigurationTicket,
    old_physical: Handle,
    generation: PhysicalGeneration,
    images: Vec<Handle>,
    negotiation: PresentationNegotiation,
) -> (published: bool)
    requires
        old(state)@.wf(),
    ensures
        final(state)@.wf(),
        published == generation_publishable(old(state)@, retired, ticket, generation),
        final(state)@ == (if published {
            generation_published(
                old(state)@,
                old_physical,
                generation,
                images@,
                negotiation@,
            )
        } else {
            old(state)@
        }),
{
    let ghost entry = state@;
    let shown: PresentationState = negotiation.public_state();
    if !state.lifecycle.can_publish(
        ticket,
        state.logical_handle,
        state.game_surface,
        state.generation,
        retired,
    ) {
        return false;
    }
    let idle: bool = match &state.mapping {
        Some(mapping) => mapping.is_idle(),
        None => false,
    };
    if !idle {
        return false;
    }
    let replaced: bool = match &mut state.contract {
        Some(contract) => contract.replace_generation(generation, shown).is_ok(),
        None => false,
    };
    if !replaced {
        return false;
    }
    if let Some(mapping) = &mut state.mapping {
        mapping.replace_generation(generation.id());
    }
    state.lifecycle.publish(
        ticket,
        state.logical_handle,
        state.game_surface,
        state.generation,
        retired,
    );
    state.negotiation = negotiation;
    state.physical_handle = generation.handle();
    state.physical_images = images;
    state.maintenance_overlay_reported = false;
    state.maintenance_present_reported = false;
    state.maintenance_release_reported = false;
    state.generation = generation.id();
    if old_physical != NULL_HANDLE && !contains_u64(
        state.retired_physical_generations.as_slice(),
        old_physical,
    ) {
        state.retired_physical_generations.push(old_physical);
    }
    state.has_overlay = true;
    true
}

/// Publishes the new generation: the swapchain takes it over, and the
/// negotiation becomes that of the surface and of the swapchains on it.
pub fn publish_native_generation(
    layer: &mut Layer,
    snapshot: &NativeGenerationSnapshot,
    aim: NativeAim,
    physical: Handle,
    images: Vec<Handle>,
) -> (published: bool)
    requires
        old(layer).wf(),
    ensures
        final(layer).wf(),
        ({
            let handle = snapshot.ticket.logical_handle;
            let generation = new_generation(
                snapshot.ticket,
                physical,
                aim.extent,
                images@.len() as usize,
            );
            &&& published == (old(layer)@.swapchains.contains_key(handle)
                && generation_publishable(
                old(layer)@.swapchains[handle],
                old(layer)@.retired.contains(handle),
                snapshot.ticket,
                generation,
            ))
            &&& if published {
                negotiation_spread(
                    old(layer)@.with_swapchain(
                        handle,
                        generation_published(
                            old(layer)@.swapchains[handle],
                            snapshot.old_physical,
                            generation,
                            images@,
                            aim.negotiation@,
                        ),
                    ),
                    final(layer)@,
                    snapshot.ticket.game_surface,
                    aim.negotiation@,
                )
            } else {
                final(layer)@ == old(layer)@
            }
        }),
{
    let ghost entry = layer@;
    let handle: Handle = snapshot.ticket.logical_handle();
    let retired: bool = layer.is_retired_swapchain(handle);
    let current: u64 = snapshot.ticket.generation();
    let id: u64 = if current == u64::MAX {
        current
    } else {
        current + 1
    };
    let generation: PhysicalGeneration = PhysicalGeneration::new(
        id,
        physical,
        aim.extent,
        images.len(),
    );
    let published: bool = match layer.swapchains.find(handle) {
        None => false,
        Some(index) => {
            let ghost before = layer.swapchains;
            proof {
                before.lemma_at(index as int);
                assert(entry.swapchains.contains_key(handle));
                assert(entry.swapchains[handle] == before.value_seq()[index as int]@);
            }
            let state: &mut SwapchainState = layer.swapchains.at_mut(index);
            let published: bool = take_generation(
                state,
                retired,
                snapshot.ticket,
                snapshot.old_physical,
                generation,
                images,
                aim.negotiation,
            );
            proof {
                lemma_set_swapchain(before, layer.swapchains, index as int);
                if !published {
                    assert(layer@ =~= entry);
                }
            }
            published
        },
    };
    if published {
        publish_negotiation(layer, snapshot.ticket.game_surface(), aim.negotiation);
    }
    published
}

/// What is left of a replacement that cannot be undone.
#[derive(Debug)]
pub struct AbandonedGeneration {
    /// Downstream swapchains to destroy, in this order, once the device is
    /// idle and the overlay is gone.
    pub destroy: Vec<Handle>,
    /// A lease to give back to the window.
    pub restore: Option<BorderlessLease>,
}

/// What has to be destroyed: the new generation, and the old one where the
/// swapchain was still in the layer's hands.
pub open spec fn abandoned_handles(owned: bool, old_physical: Handle, new_physical: Handle) -> Seq<
    Handle,
> {
    let made = if new_physical != NULL_HANDLE {
        seq![new_physical]
    } else {
        Seq::empty()
    };
    if owned {
        made.push(old_physical)
    } else {
        made
    }
}

/// The layer without a swapchain whose token is retired.
pub open spec fn swapchain_dropped(layer: LayerModel, swapchain: Handle) -> LayerModel {
    LayerModel {
        swapchains: layer.swapchains.remove(swapchain),
        retired: layer.retired.insert(swapchain),
        ..layer
    }
}

/// The layer without an abandoned swapchain: its token is retired, and its
/// window is restored unless another virtual swapchain shows on it.
pub open spec fn generation_abandoned(
    before: LayerModel,
    after: LayerModel,
    ticket: ReconfigurationTicket,
) -> bool {
    let handle = ticket.logical_handle;
    let dropped = swapchain_dropped(before, handle);
    if !before.swapchains.contains_key(handle) {
        after == before
    } else if live_virtual(dropped, ticket.game_surface) {
        after == dropped
    } else {
        window_restored(dropped, after, ticket.game_surface)
    }
}

/// The lease that an abandoned swapchain gives back: that of its surface,
/// where the swapchain was still in the layer's hands and no other virtual
/// swapchain shows on the surface.
pub open spec fn abandoned_lease(layer: LayerModel, ticket: ReconfigurationTicket) -> Option<
    BorderlessLease,
> {
    if layer.swapchains.contains_key(ticket.logical_handle) && !live_virtual(
        swapchain_dropped(layer, ticket.logical_handle),
        ticket.game_surface,
    ) && layer.surfaces.contains_key(ticket.game_surface) {
        layer.surfaces[ticket.game_surface].borderless_lease
    } else {
        None
    }
}

/// Gives a swapchain up in the middle of its replacement.
pub fn abandon_generation(
    layer: &mut Layer,
    ticket: ReconfigurationTicket,
    old_physical: Handle,
    new_physical: Handle,
) -> (abandoned: AbandonedGeneration)
    requires
        old(layer).wf(),
    ensures
        final(layer).wf(),
        generation_abandoned(old(layer)@, final(layer)@, ticket),
        abandoned.destroy@ == abandoned_handles(
            old(layer)@.swapchains.contains_key(ticket.logical_handle),
            old_physical,
            new_physical,
        ),
        abandoned.restore == abandoned_lease(old(layer)@, ticket),
{
    let ghost entry = layer@;
    let handle: Handle = ticket.logical_handle();
    let mut destroy: Vec<Handle> = Vec::new();
    if new_physical != NULL_HANDLE {
        destroy.push(new_physical);
    }
    let ghost table = layer.swapchains@;
    let owned: bool = layer.swapchains.remove(handle).is_some();
    proof {
        lemma_remove_swapchain(table, handle);
        if !owned {
            assert(layer@.swapchains =~= entry.swapchains);
        }
    }
    let mut restore: Option<BorderlessLease> = None;
    if owned {
        layer.retire_swapchain(handle);
        assert(layer@ =~= swapchain_dropped(entry, handle));
        destroy.push(old_physical);
        if !has_live_virtual_swapchain(layer, ticket.game_surface()) {
            restore = restore_surface_window(layer, ticket.game_surface());
        }
    }
    assert(destroy@ =~= abandoned_handles(owned, old_physical, new_physical));
    AbandonedGeneration { destroy, restore }
}

/// A replacement that failed after the application destroyed the swapchain.
pub open spec fn destroy_waits(layer: LayerModel, ticket: ReconfigurationTicket) -> bool {
    &&& layer.swapchains.contains_key(ticket.logical_handle)
    &&& layer.swapchains[ticket.logical_handle].lifecycle.destroy_requested
}

/// First part of a failed replacement: where the application destroyed the
/// swapchain meanwhile, it is given up. Else the overlay has to go back to the
/// old generation, and the replacement is undone.
pub fn begin_generation_failure(
    layer: &mut Layer,
    snapshot: &NativeGenerationSnapshot,
    new_physical: Handle,
) -> (abandoned: Option<AbandonedGeneration>)
    requires
        old(layer).wf(),
    ensures
        final(layer).wf(),
        abandoned is Some == destroy_waits(old(layer)@, snapshot.ticket),
        match abandoned {
            None => final(layer)@ == old(layer)@,
            Some(abandoned) => {
                &&& generation_abandoned(old(layer)@, final(layer)@, snapshot.ticket)
                &&& abandoned.destroy@ == abandoned_handles(
                    true,
                    snapshot.old_physical,
                    new_physical,
                )
                &&& abandoned.restore == abandoned_lease(old(layer)@, snapshot.ticket)
            },
        },
{
    let waits: bool = match layer.swapchains.get(snapshot.ticket.logical_handle()) {
        Some(state) => state.lifecycle.destroy_requested(),
        None => false,
    };
    if !waits {
        return None;
    }
    Some(abandon_generation(layer, snapshot.ticket, snapshot.old_physical, new_physical))
}

/// How a failed replacement ends.
#[derive(Debug)]
pub enum GenerationCleanup {
    /// The old generation is back; the new one, if it was made, has to go.
    Restored { destroy: Option<Handle> },
    Abandoned(AbandonedGeneration),
}

/// The failed replacement can be undone: the overlay is back on the old
/// generation, and the swapchain still waits for this replacement.
pub open spec fn generation_restorable(
    layer: LayerModel,
    ticket: ReconfigurationTicket,
    output_restored: bool,
) -> bool {
    let handle = ticket.logical_handle;
    let state = layer.swapchains[handle];
    &&& output_restored
    &&& layer.swapchains.contains_key(handle)
    &&& state.lifecycle.publishable(
        ticket,
        state.logical_handle,
        state.game_surface,
        state.generation,
        layer.retired.contains(handle),
    )
}

pub open spec fn generation_restored(state: SwapchainModel) -> SwapchainModel {
    SwapchainModel { has_overlay: true, lifecycle: state.lifecycle.released(), ..state }
}

/// A new generation that was made, and is not the old one, has to go.
pub open spec fn temporary_generation(old_physical: Handle, new_physical: Handle) -> Option<
    Handle,
> {
    if new_physical == NULL_HANDLE || new_physical == old_physical {
        None
    } else {
        Some(new_physical)
    }
}

/// Second part of a failed replacement: the old generation takes over again,
/// or where that is not possible the swapchain is given up.
pub fn finish_generation_failure(
    layer: &mut Layer,
    snapshot: &NativeGenerationSnapshot,
    new_physical: Handle,
    output_restored: bool,
) -> (cleanup: GenerationCleanup)
    requires
        old(layer).wf(),
    ensures
        final(layer).wf(),
        match cleanup {
            GenerationCleanup::Restored { destroy } => {
                let handle = snapshot.ticket.logical_handle;
                &&& generation_restorable(old(layer)@, snapshot.ticket, output_restored)
                &&& destroy == temporary_generation(snapshot.old_physical, new_physical)
                &&& final(layer)@ == old(layer)@.with_swapchain(
                    handle,
                    generation_restored(old(layer)@.swapchains[handle]),
                )
            },
            GenerationCleanup::Abandoned(abandoned) => {
                &&& !generation_restorable(old(layer)@, snapshot.ticket, output_restored)
                &&& generation_abandoned(old(layer)@, final(layer)@, snapshot.ticket)
                &&& abandoned.destroy@ == abandoned_handles(
                    old(layer)@.swapchains.contains_key(snapshot.ticket.logical_handle),
                    snapshot.old_physical,
                    new_physical,
                )
                &&& abandoned.restore == abandoned_lease(old(layer)@, snapshot.ticket)
            },
        },
{
    let handle: Handle = snapshot.ticket.logical_handle();
    let retired: bool = layer.is_retired_swapchain(handle);
    let ghost entry = layer@;
    if output_restored {
        if let Some(index) = layer.swapchains.find(handle) {
            let ghost before = layer.swapchains;
            proof {
                before.lemma_at(index as int);
                assert(entry.swapchains.contains_key(handle));
                assert(entry.swapchains[handle] == before.value_seq()[index as int]@);
            }
            let current: &SwapchainState = layer.swapchains.at(index);
            if current.lifecycle.can_publish(
                snapshot.ticket,
                current.logical_handle,
                current.game_surface,
                current.generation,
                retired,
            ) {
                let state: &mut SwapchainState = layer.swapchains.at_mut(index);
                state.has_overlay = true;
                state.lifecycle.abort(snapshot.ticket);
                proof {
                    lemma_set_swapchain(before, layer.swapchains, index as int);
                    assert(layer@ =~= entry.with_swapchain(
                        handle,
                        generation_restored(entry.swapchains[handle]),
                    ));
                }
                let destroy: Option<Handle> = if new_physical == NULL_HANDLE || new_physical
                    == snapshot.old_physical {
                    None
                } else {
                    Some(new_physical)
                };
                return GenerationCleanup::Restored { destroy };
            }
        }
    }
    GenerationCleanup::Abandoned(
        abandon_generation(layer, snapshot.ticket, snapshot.old_physical, new_physical),
    )
}

/// A replacement that fails at once and is undone leaves the swapchain as it
/// was, except for the generation that the last replacement started from.
pub proof fn a_failed_replacement_changes_nothing(state: SwapchainModel)
    requires
        state.wf(),
        !state.blocked(),
        state.has_overlay,
    ensures
        generation_restored(generation_begun(state)) == (SwapchainModel {
            lifecycle: crate::layer::recovery::LifecycleModel {
                generation: Some(state.generation),
                ..state.lifecycle
            },
            ..state
        }),
{
}

/// A replacement leaves alone what the application sees of its swapchain, and
/// every generation has a larger number than the one before.
pub proof fn a_replacement_keeps_the_logical_swapchain(
    state: SwapchainModel,
    retired: bool,
    ticket: ReconfigurationTicket,
    old_physical: Handle,
    generation: PhysicalGeneration,
    images: Seq<Handle>,
    stage: NegotiationStage,
)
    requires
        state.wf(),
        generation_publishable(state, retired, ticket, generation),
    ensures
        ({
            let after = generation_published(state, old_physical, generation, images, stage);
            &&& after.wf()
            &&& after.logical_handle == state.logical_handle
            &&& after.virtual_images == state.virtual_images
            &&& after.contract.unwrap().logical == state.contract.unwrap().logical
            &&& after.contract.unwrap().physical.id > state.contract.unwrap().physical.id
            &&& after.mapping.unwrap().bound == state.mapping.unwrap().bound
            &&& after.present_ids == state.present_ids
            &&& !after.blocked()
        }),
{
    let before = state.mapping.unwrap();
    let after = generation_published(state, old_physical, generation, images, stage);
    assert forall|i: int| 0 <= i < before.bound.len() implies #[trigger] after.mapping.unwrap().bound[i]
        is None by {
        assert(before.free(i));
    }
}

/// While a replacement is under way the swapchain lets no frame pass, and no
/// second replacement begins.
pub proof fn a_replacement_blocks_frames(
    state: SwapchainModel,
    surface: Handle,
    observed: X11Window,
    extent: SurfaceExtent,
    now: u64,
)
    requires
        generation_ready(state, surface, observed, extent, now),
    ensures
        generation_begun(state).blocked(),
        !generation_ready(generation_begun(state), surface, observed, extent, now),
{
}

/// The old downstream swapchain is kept to be destroyed later, and is kept
/// once however often the swapchain is replaced.
pub proof fn a_replaced_generation_is_retired_once(
    state: SwapchainModel,
    old_physical: Handle,
    generation: PhysicalGeneration,
    images: Seq<Handle>,
    stage: NegotiationStage,
)
    requires
        old_physical != NULL_HANDLE,
        state.retired_physical_generations.no_duplicates(),
    ensures
        ({
            let after = generation_published(state, old_physical, generation, images, stage);
            &&& after.retired_physical_generations.contains(old_physical)
            &&& after.retired_physical_generations.no_duplicates()
        }),
{
    let kept = state.retired_physical_generations;
    let after = generation_published(state, old_physical, generation, images, stage);
    if !kept.contains(old_physical) {
        assert(after.retired_physical_generations[kept.len() as int] == old_physical);
    }
}

/// A generation with the largest number cannot be replaced.
pub proof fn the_last_generation_stays(
    state: SwapchainModel,
    retired: bool,
    ticket: ReconfigurationTicket,
    physical: Handle,
    extent: Extent2D,
    image_count: usize,
)
    requires
        state.contract matches Some(contract) && contract.physical.id == state.generation,
        state.generation == u64::MAX,
    ensures
        !generation_publishable(
            state,
            retired,
            ticket,
            new_generation(ticket, physical, extent, image_count),
        ),
{
}

/// A window that covers its target on a surface that takes its size makes the
/// output ready, as long as the wait has not run out; one that ran out goes
/// back to direct presentation.
pub proof fn an_observed_window_decides_the_stage(
    target: crate::display::Rect,
    deadline: u64,
    window: X11Window,
    capabilities: SurfaceCapabilities,
    now: u64,
)
    ensures
        ({
            let waiting = NegotiationStage::WaitingForNativeExtent { target, deadline };
            let next = stage_after_observation(waiting, window, capabilities, now);
            let size = capabilities.current_extent;
            let fits = if size.width != u32::MAX {
                size.width == target.width && size.height == target.height
            } else {
                &&& capabilities.min_image_extent.width <= target.width
                &&& target.width <= capabilities.max_image_extent.width
                &&& capabilities.min_image_extent.height <= target.height
                &&& target.height <= capabilities.max_image_extent.height
            };
            if now >= deadline {
                next is Direct
            } else if window.rect == target && fits {
                next == (NegotiationStage::RecreatingOutput { target, deadline })
            } else {
                next == waiting
            }
        }),
{
}

/// A swapchain can be replaced exactly when it shows on the surface with no
/// image handed out and no other replacement under way, and the native output
/// is there in time.
pub proof fn a_replacement_waits_for_the_native_output(
    state: SwapchainModel,
    surface: Handle,
    observed: X11Window,
    extent: SurfaceExtent,
    now: u64,
    slot: int,
)
    requires
        generation_ready(state, surface, observed, extent, now),
    ensures
        state.game_surface == surface,
        state.lifecycle.active is None,
        state.mapping is Some,
        0 <= slot < state.mapping.unwrap().bound.len() ==> state.mapping.unwrap().bound[slot]
            is None && !state.mapping.unwrap().reserved[slot],
        state.negotiation is RecreatingOutput,
        now < state.negotiation->RecreatingOutput_deadline,
        observed.rect == state.negotiation->RecreatingOutput_target,
        state.contract is Some,
        state.contract.unwrap().physical.id == state.generation,
        state.template is Some,
{
    if 0 <= slot < state.mapping.unwrap().bound.len() {
        assert(state.mapping.unwrap().free(slot));
    }
}

/// Nothing more is asked for than that.
pub proof fn a_native_output_is_enough_for_a_replacement(
    state: SwapchainModel,
    surface: Handle,
    observed: X11Window,
    now: u64,
)
    requires
        state.game_surface == surface,
        state.lifecycle.active is None,
        state.mapping is Some,
        state.mapping.unwrap().wf(),
        forall|slot: int|
            0 <= slot < state.mapping.unwrap().bound.len() ==> (
            #[trigger] state.mapping.unwrap().bound[slot]) is None
                && !state.mapping.unwrap().reserved[slot],
        state.negotiation is RecreatingOutput,
        now < state.negotiation->RecreatingOutput_deadline,
        observed.rect == state.negotiation->RecreatingOutput_target,
        state.contract is Some,
        state.contract.unwrap().physical.id == state.generation,
        state.template is Some,
    ensures
        generation_ready(
            state,
            surface,
            observed,
            SurfaceExtent::Fixed(
                crate::display::Extent {
                    width: observed.rect.width,
                    height: observed.rect.height,
                },
            ),
            now,
        ),
{
    let mapping = state.mapping.unwrap();
    assert forall|i: int| #![trigger mapping.bound[i]] 0 <= i < mapping.bound.len() implies mapping.free(
        i,
    ) by {
        assert(mapping.bound[i] is None);
    }
}

/// While a replacement is under way its swapchain has no overlay and lets no
/// frame pass, and keeps all else. What is remembered of it is what it was.
pub proof fn a_replacement_remembers_the_swapchain(state: SwapchainModel)
    requires
        state.lifecycle.active is None,
        state.template is Some,
        state.contract is Some,
    ensures
        ({
            let begun = generation_begun(state);
            let kept = snapshot_of(state);
            &&& !begun.has_overlay
            &&& begun.lifecycle.active == Some(kept.ticket)
            &&& !begun.lifecycle.destroy_requested
            &&& begun == SwapchainModel {
                has_overlay: false,
                lifecycle: begun.lifecycle,
                ..state
            }
            &&& kept.ticket.logical_handle == state.logical_handle
            &&& kept.ticket.game_surface == state.game_surface
            &&& kept.ticket.generation == state.generation
            &&& kept.old_physical == state.physical_handle
            &&& kept.old_physical_images == state.physical_images
            &&& kept.old_runtime_info.format == state.template.unwrap().image_format
            &&& kept.old_runtime_info.color_space == state.template.unwrap().image_color_space
            &&& kept.old_runtime_info.extent == state.contract.unwrap().physical.extent
            &&& kept.template == state.template.unwrap()
            &&& kept.contract == state.contract.unwrap()
            &&& kept.negotiation == state.negotiation
            &&& kept.hdr_metadata == state.hdr_metadata
        }),
{
}

/// A new generation has the next number, the window's extent and what was made
/// for it.
pub proof fn a_new_generation_covers_the_window(
    ticket: ReconfigurationTicket,
    physical: Handle,
    observed: X11Window,
    image_count: usize,
)
    ensures
        ({
            let made = new_generation(ticket, physical, window_extent(observed), image_count);
            &&& made.extent.width == observed.rect.width
            &&& made.extent.height == observed.rect.height
            &&& made.handle == physical
            &&& made.image_count == image_count
            &&& made.present_surface is None
            &&& ticket.generation < u64::MAX ==> made.id == ticket.generation + 1
            &&& ticket.generation == u64::MAX ==> made.id == ticket.generation
        }),
{
}

/// A published generation stands behind the swapchain: its downstream
/// swapchain, its images and its number, with the overlay back and frames
/// passing again. The old downstream swapchain is kept to be destroyed, and
/// nothing that was retired before is forgotten.
pub proof fn a_published_generation_stands_behind_the_swapchain(
    state: SwapchainModel,
    old_physical: Handle,
    generation: PhysicalGeneration,
    images: Seq<Handle>,
    stage: NegotiationStage,
    retired: Handle,
)
    requires
        state.mapping is Some,
        state.contract is Some,
    ensures
        ({
            let after = generation_published(state, old_physical, generation, images, stage);
            &&& after.physical_handle == generation.handle
            &&& after.physical_images == images
            &&& after.generation == generation.id
            &&& after.mapping.unwrap().generation == generation.id
            &&& after.mapping.unwrap().bound == state.mapping.unwrap().bound
            &&& after.mapping.unwrap().reserved == state.mapping.unwrap().reserved
            &&& after.contract.unwrap().physical == generation
            &&& after.contract.unwrap().logical == state.contract.unwrap().logical
            &&& after.contract.unwrap().state == stage.shown()
            &&& after.negotiation == stage
            &&& after.has_overlay
            &&& after.lifecycle.active is None
            &&& !after.maintenance_overlay_reported
            &&& !after.maintenance_present_reported
            &&& !after.maintenance_release_reported
            &&& after.device == state.device
            &&& after.game_surface == state.game_surface
            &&& after.present_surface == state.present_surface
            &&& after.logical_handle == state.logical_handle
            &&& after.virtual_images == state.virtual_images
            &&& after.template == state.template
            &&& after.hdr_metadata == state.hdr_metadata
            &&& after.present_ids == state.present_ids
            &&& after.input_route_reported == state.input_route_reported
            &&& old_physical != NULL_HANDLE
                ==> after.retired_physical_generations.contains(old_physical)
            &&& state.retired_physical_generations.contains(retired)
                ==> after.retired_physical_generations.contains(retired)
            &&& after.retired_physical_generations.contains(retired) ==> retired == old_physical
                || state.retired_physical_generations.contains(retired)
        }),
{
    let kept = state.retired_physical_generations;
    let after = generation_published(
        state,
        old_physical,
        generation,
        images,
        stage,
    ).retired_physical_generations;
    if after.len() > kept.len() {
        assert(after[kept.len() as int] == old_physical);
        if kept.contains(retired) {
            assert(after[kept.index_of(retired)] == retired);
        }
        if after.contains(retired) && retired != old_physical {
            assert(kept[after.index_of(retired)] == retired);
        }
    }
}

/// A generation is published only for the replacement that is under way, of a
/// swapchain that is still wanted and has no image handed out, and only with a
/// larger number and something to show.
pub proof fn only_the_replacement_under_way_is_published(
    state: SwapchainModel,
    retired: bool,
    ticket: ReconfigurationTicket,
    generation: PhysicalGeneration,
)
    requires
        state.mapping is Some,
        state.contract is Some,
    ensures
        generation_publishable(state, retired, ticket, generation) <==> {
            &&& state.mapping.unwrap().idle()
            &&& generation.id > state.contract.unwrap().physical.id
            &&& generation.handle != NULL_HANDLE
            &&& generation.extent.width > 0
            &&& generation.extent.height > 0
            &&& generation.image_count > 0
            &&& state.lifecycle.active == Some(ticket)
            &&& !state.lifecycle.destroy_requested
            &&& !retired
            &&& ticket.logical_handle == state.logical_handle
            &&& ticket.game_surface == state.game_surface
            &&& ticket.generation == state.generation
        },
{
}

/// A replacement that failed destroys what it made. Where the swapchain was
/// still the layer's, the old downstream swapchain goes too.
pub proof fn a_failed_replacement_destroys_what_it_made(
    owned: bool,
    old_physical: Handle,
    new_physical: Handle,
    handle: Handle,
)
    ensures
        abandoned_handles(owned, old_physical, new_physical).contains(handle) <==> (new_physical
            != NULL_HANDLE && handle == new_physical) || (owned && handle == old_physical),
        temporary_generation(old_physical, new_physical) == (if new_physical == NULL_HANDLE
            || new_physical == old_physical {
            None
        } else {
            Some(new_physical)
        }),
{
    let gone = abandoned_handles(owned, old_physical, new_physical);
    if new_physical != NULL_HANDLE {
        assert(gone[0] == new_physical);
    }
    if owned {
        assert(gone[gone.len() - 1] == old_physical);
    }
}

/// An abandoned swapchain is gone for good: its token is retired and unknown.
/// Other swapchains stay, and the lease of the window is given back unless
/// another virtual swapchain shows on it.
pub proof fn an_abandoned_swapchain_is_gone(
    before: LayerModel,
    after: LayerModel,
    ticket: ReconfigurationTicket,
    other: Handle,
)
    requires
        generation_abandoned(before, after, ticket),
        before.swapchains.contains_key(ticket.logical_handle),
    ensures
        !after.swapchains.contains_key(ticket.logical_handle),
        after.retired.contains(ticket.logical_handle),
        other != ticket.logical_handle ==> after.swapchains.contains_key(other)
            == before.swapchains.contains_key(other),
        other != ticket.logical_handle && before.swapchains.contains_key(other)
            && before.swapchains[other].game_surface != ticket.game_surface
            ==> after.swapchains[other] == before.swapchains[other],
        before.retired.contains(other) ==> after.retired.contains(other),
        abandoned_lease(before, ticket) is Some ==> before.surfaces.contains_key(
            ticket.game_surface,
        ) && abandoned_lease(before, ticket)
            == before.surfaces[ticket.game_surface].borderless_lease,
        before.surfaces.contains_key(ticket.game_surface) && !(exists|handle: Handle|
            handle != ticket.logical_handle && before.swapchains.contains_key(handle) && (
            #[trigger] before.swapchains[handle]).game_surface == ticket.game_surface
                && before.swapchains[handle].mapping is Some) ==> {
            &&& abandoned_lease(before, ticket)
                == before.surfaces[ticket.game_surface].borderless_lease
            &&& after.surfaces[ticket.game_surface].borderless_lease is None
            &&& after.surfaces[ticket.game_surface].logical_extent is None
        },
{
    let dropped = swapchain_dropped(before, ticket.logical_handle);
    if live_virtual(dropped, ticket.game_surface) {
        let handle = choose|handle: Handle|
            dropped.swapchains.contains_key(handle) && (
            #[trigger] dropped.swapchains[handle]).game_surface == ticket.game_surface
                && dropped.swapchains[handle].is_virtual();
        assert(before.swapchains[handle].game_surface == ticket.game_surface);
    }
}

/// A failed replacement is undone only for the swapchain that still waits for
/// it and has its old output back; undoing gives the overlay back and lets
/// frames pass.
pub proof fn a_failed_replacement_is_undone_where_it_can_be(
    layer: LayerModel,
    ticket: ReconfigurationTicket,
    output_restored: bool,
)
    ensures
        generation_restorable(layer, ticket, output_restored) <==> {
            let state = layer.swapchains[ticket.logical_handle];
            &&& output_restored
            &&& layer.swapchains.contains_key(ticket.logical_handle)
            &&& state.lifecycle.active == Some(ticket)
            &&& !state.lifecycle.destroy_requested
            &&& !layer.retired.contains(ticket.logical_handle)
            &&& ticket.logical_handle == state.logical_handle
            &&& ticket.game_surface == state.game_surface
            &&& ticket.generation == state.generation
        },
        layer.swapchains.contains_key(ticket.logical_handle) ==> {
            let state = layer.swapchains[ticket.logical_handle];
            let after = generation_restored(state);
            &&& after.has_overlay
            &&& after.lifecycle.active is None
            &&& !after.lifecycle.destroy_requested
            &&& after == SwapchainModel {
                has_overlay: true,
                lifecycle: after.lifecycle,
                ..state
            }
        },
        destroy_waits(layer, ticket) <==> layer.swapchains.contains_key(ticket.logical_handle)
            && layer.swapchains[ticket.logical_handle].lifecycle.destroy_requested,
{
}

/// A swapchain can be replaced where it is virtual, not retired and shows on the
/// surface.
pub proof fn a_live_virtual_swapchain_can_be_replaced(
    layer: LayerModel,
    surface: Handle,
    handle: Handle,
)
    ensures
        replaceable(layer, surface, handle) <==> {
            &&& layer.swapchains.contains_key(handle)
            &&& !layer.retired.contains(handle)
            &&& layer.swapchains[handle].game_surface == surface
            &&& layer.swapchains[handle].mapping is Some
        },
{
}

/// After an observation the surface and the swapchains that show on it stand
/// where the negotiation does. One that failed is given up: its lease is gone, its
/// promises are, and its virtual swapchains have failed.
pub proof fn an_observation_reaches_the_surface(
    before: LayerModel,
    after: LayerModel,
    surface: Handle,
    window: X11Window,
    capabilities: SurfaceCapabilities,
    now: u64,
    handle: Handle,
)
    requires
        before.surfaces.contains_key(surface),
        surface_observed(before, after, surface, window, capabilities, now),
    ensures
        ({
            let stage = stage_after_observation(
                before.surfaces[surface].negotiation@,
                window,
                capabilities,
                now,
            );
            let failed = before.surfaces[surface].negotiation@.observed(
                window.rect,
                offered_extent(capabilities),
                now,
            ) is Failed;
            let was = before.swapchains[handle];
            let is = after.swapchains[handle];
            &&& after.surfaces.contains_key(surface)
            &&& after.surfaces[surface].negotiation@ == stage
            &&& after.surfaces[surface].window == before.surfaces[surface].window
            &&& !failed ==> after.surfaces[surface].borderless_lease
                == before.surfaces[surface].borderless_lease
                && after.surfaces[surface].logical_extent == before.surfaces[surface].logical_extent
            &&& failed ==> after.surfaces[surface].borderless_lease is None
                && after.surfaces[surface].logical_extent is None
            &&& after.swapchains.contains_key(handle) == before.swapchains.contains_key(handle)
            &&& before.swapchains.contains_key(handle) && was.game_surface != surface ==> is == was
            &&& before.swapchains.contains_key(handle) && was.game_surface == surface && !failed
                && !before.retired.contains(handle) && !(stage is Direct) ==> is.negotiation
                == stage && is.mapping == was.mapping && is.physical_handle == was.physical_handle
            &&& before.swapchains.contains_key(handle) && was.game_surface == surface && failed
                ==> (was.contract is Some ==> is.contract.unwrap().state
                == PresentationState::Failed)
        }),
{
}

} // verus!
