//! What the layer knows of surfaces and swapchains.

use std::collections::HashSet;

use vstd::prelude::*;

use super::hooks::present_id::{HistoryModel, PresentIdHistory};
use super::hooks::swapchain_create::{
    chain_accepted, collects, first_fault, flags_supported, lacks_base_format, node_models,
    rebuilt, CreateChainModel, SwapchainCompatibilityError, SwapchainCreateChain, SwapchainCreateInfo,
};
use super::hooks::swapchain_metadata::OwnedHdrMetadata;
use super::hooks::wsi_compatibility::DeviceWsiCapabilities;
use super::mapping::{reserved_handle, LogicalSwapchainHandle, Mapping, MappingModel};
use super::recovery::{
    ContractModel, LifecycleModel, LogicalSwapchainContract, ReconfigurationLifecycle,
};
use crate::display::negotiation::{NegotiationStage, PresentationNegotiation};
use crate::display::presenter::PresenterWindow;
use crate::display::BorderlessLease;
use crate::seqs::copy_slice;
use crate::table::{lemma_update, Table};
use crate::vk::{Extent2D, Handle, SurfaceCapabilities, SHARING_MODE_CONCURRENT};

verus! {

#[derive(Debug, Clone, Copy, PartialEq, Eq, Structural)]
pub enum PresenterOwnershipState {
    Absent,
    WindowOwned,
    SurfaceOwned,
    SwapchainOwned,
    RolledBack,
    Destroyed,
}

#[derive(Debug, Clone, Copy, PartialEq, Eq, Structural)]
pub enum PresenterOwnershipEvent {
    WindowCreated,
    SurfaceCreated,
    SwapchainCreated,
    SwapchainReplaced,
    PhysicalSwapchainDestroyed,
    PresenterSurfaceDestroyed,
    PresenterWindowDestroyed,
    OriginalSurfaceDestroyed,
    DeviceDestroyed,
    InstanceDestroyed,
    CreationFailed,
}

/// How many layers of ownership a state holds: window, surface, swapchain.
/// The final states hold none.
pub open spec fn owned_layers(state: PresenterOwnershipState) -> int {
    match state {
        PresenterOwnershipState::WindowOwned => 1,
        PresenterOwnershipState::SurfaceOwned => 2,
        PresenterOwnershipState::SwapchainOwned => 3,
        _ => 0,
    }
}

pub open spec fn holding(layers: int) -> PresenterOwnershipState {
    if layers == 1 {
        PresenterOwnershipState::WindowOwned
    } else if layers == 2 {
        PresenterOwnershipState::SurfaceOwned
    } else {
        PresenterOwnershipState::SwapchainOwned
    }
}

/// Each layer comes on top of the one below it and goes before it; an owner
/// that goes takes all layers with it, and so does a failed creation. Any
/// event that does not fit leaves the state as it is.
pub open spec fn ownership_after(
    state: PresenterOwnershipState,
    event: PresenterOwnershipEvent,
) -> PresenterOwnershipState {
    let layers = owned_layers(state);
    match event {
        PresenterOwnershipEvent::WindowCreated => if state == PresenterOwnershipState::Absent {
            holding(1)
        } else {
            state
        },
        PresenterOwnershipEvent::SurfaceCreated => if layers == 1 {
            holding(2)
        } else {
            state
        },
        PresenterOwnershipEvent::SwapchainCreated => if layers == 2 {
            holding(3)
        } else {
            state
        },
        PresenterOwnershipEvent::SwapchainReplaced => state,
        PresenterOwnershipEvent::PhysicalSwapchainDestroyed => if layers == 3 {
            holding(2)
        } else {
            state
        },
        PresenterOwnershipEvent::PresenterSurfaceDestroyed => if layers == 2 {
            holding(1)
        } else {
            state
        },
        PresenterOwnershipEvent::PresenterWindowDestroyed => if layers == 1 {
            PresenterOwnershipState::Destroyed
        } else {
            state
        },
        PresenterOwnershipEvent::OriginalSurfaceDestroyed
        | PresenterOwnershipEvent::DeviceDestroyed
        | PresenterOwnershipEvent::InstanceDestroyed => if layers > 0 {
            PresenterOwnershipState::Destroyed
        } else {
            state
        },
        PresenterOwnershipEvent::CreationFailed => if layers > 0 {
            PresenterOwnershipState::RolledBack
        } else {
            state
        },
    }
}

pub fn presenter_ownership_transition(
    state: PresenterOwnershipState,
    event: PresenterOwnershipEvent,
) -> (next: PresenterOwnershipState)
    ensures
        next == ownership_after(state, event),
{
    let owned: bool = matches!(
        state,
        PresenterOwnershipState::WindowOwned | PresenterOwnershipState::SurfaceOwned
            | PresenterOwnershipState::SwapchainOwned
    );
    match (state, event) {
        (PresenterOwnershipState::Destroyed, _) | (PresenterOwnershipState::RolledBack, _) => state,
        (
            PresenterOwnershipState::Absent,
            PresenterOwnershipEvent::WindowCreated,
        ) => PresenterOwnershipState::WindowOwned,
        (
            PresenterOwnershipState::WindowOwned,
            PresenterOwnershipEvent::SurfaceCreated,
        ) => PresenterOwnershipState::SurfaceOwned,
        (
            PresenterOwnershipState::SurfaceOwned,
            PresenterOwnershipEvent::SwapchainCreated,
        ) => PresenterOwnershipState::SwapchainOwned,
        (
            PresenterOwnershipState::SwapchainOwned,
            PresenterOwnershipEvent::SwapchainReplaced,
        ) => PresenterOwnershipState::SwapchainOwned,
        (
            PresenterOwnershipState::SwapchainOwned,
            PresenterOwnershipEvent::PhysicalSwapchainDestroyed,
        ) => PresenterOwnershipState::SurfaceOwned,
        (
            PresenterOwnershipState::SurfaceOwned,
            PresenterOwnershipEvent::PresenterSurfaceDestroyed,
        ) => PresenterOwnershipState::WindowOwned,
        (
            PresenterOwnershipState::WindowOwned,
            PresenterOwnershipEvent::PresenterWindowDestroyed,
        ) => PresenterOwnershipState::Destroyed,
        (_, PresenterOwnershipEvent::OriginalSurfaceDestroyed)
        | (_, PresenterOwnershipEvent::DeviceDestroyed)
        | (_, PresenterOwnershipEvent::InstanceDestroyed) => if owned {
            PresenterOwnershipState::Destroyed
        } else {
            state
        },
        (_, PresenterOwnershipEvent::CreationFailed) => if owned {
            PresenterOwnershipState::RolledBack
        } else {
            state
        },
        _ => state,
    }
}

/// Nothing happens to a presenter that is destroyed or rolled back.
pub proof fn presenter_shutdown_is_idempotent(
    state: PresenterOwnershipState,
    event: PresenterOwnershipEvent,
)
    requires
        state == PresenterOwnershipState::Destroyed || state == PresenterOwnershipState::RolledBack,
    ensures
        ownership_after(state, event) == state,
{
}

/// Only an owner's end or a failed creation gives up more than one layer.
pub proof fn layers_go_one_at_a_time(
    state: PresenterOwnershipState,
    event: PresenterOwnershipEvent,
)
    requires
        !(event is OriginalSurfaceDestroyed),
        !(event is DeviceDestroyed),
        !(event is InstanceDestroyed),
        !(event is CreationFailed),
    ensures
        owned_layers(state) - 1 <= owned_layers(ownership_after(state, event)) <= owned_layers(
            state,
        ) + 1,
{
}

#[derive(Debug, Clone, Copy, PartialEq, Eq, Structural)]
pub enum PresenterFallbackReason {
    InstanceExtensionEnumerationUnavailable,
    MissingSurfaceExtension,
    MissingXcbSurfaceExtension,
    PresenterWindowUnavailable,
    PresenterSurfaceUnavailable,
    PresenterQueueUnsupported,
    InstanceMismatch,
}

impl PresenterFallbackReason {
    pub open spec fn text(self) -> Seq<char> {
        match self {
            PresenterFallbackReason::InstanceExtensionEnumerationUnavailable => {
                "instance_extension_enumeration_unavailable"@
            },
            PresenterFallbackReason::MissingSurfaceExtension => "missing_vk_khr_surface"@,
            PresenterFallbackReason::MissingXcbSurfaceExtension => "missing_vk_khr_xcb_surface"@,
            PresenterFallbackReason::PresenterWindowUnavailable => "presenter_window_unavailable"@,
            PresenterFallbackReason::PresenterSurfaceUnavailable => {
                "presenter_surface_unavailable"@
            },
            PresenterFallbackReason::PresenterQueueUnsupported => "presenter_queue_unsupported"@,
            PresenterFallbackReason::InstanceMismatch => "presenter_instance_mismatch"@,
        }
    }

    pub fn as_str(self) -> (text: &'static str)
        ensures
            text@ == self.text(),
    {
        match self {
            PresenterFallbackReason::InstanceExtensionEnumerationUnavailable => {
                "instance_extension_enumeration_unavailable"
            },
            PresenterFallbackReason::MissingSurfaceExtension => "missing_vk_khr_surface",
            PresenterFallbackReason::MissingXcbSurfaceExtension => "missing_vk_khr_xcb_surface",
            PresenterFallbackReason::PresenterWindowUnavailable => "presenter_window_unavailable",
            PresenterFallbackReason::PresenterSurfaceUnavailable => "presenter_surface_unavailable",
            PresenterFallbackReason::PresenterQueueUnsupported => "presenter_queue_unsupported",
            PresenterFallbackReason::InstanceMismatch => "presenter_instance_mismatch",
        }
    }
}

#[derive(Debug, Clone, Copy, PartialEq, Eq, Structural)]
pub struct PresenterAvailability {
    pub enabled: bool,
    pub fallback_reason: Option<PresenterFallbackReason>,
}

impl PresenterAvailability {
    pub fn available() -> (availability: Self)
        ensures
            availability == (PresenterAvailability { enabled: true, fallback_reason: None }),
    {
        PresenterAvailability { enabled: true, fallback_reason: None }
    }

    pub fn unavailable(reason: PresenterFallbackReason) -> (availability: Self)
        ensures
            availability == (PresenterAvailability {
                enabled: false,
                fallback_reason: Some(reason),
            }),
    {
        PresenterAvailability { enabled: false, fallback_reason: Some(reason) }
    }
}

/// The presenter of a game's surface.
#[derive(Debug)]
pub struct PresenterState {
    pub window: PresenterWindow,
    pub surface: Handle,
    pub instance: Handle,
    pub device: Handle,
}

/// The presenters by the surface of their game, and the reasons that were
/// given for doing without one.
#[derive(Debug)]
pub struct Presenters {
    pub states: Table<PresenterState>,
    pub fallbacks: Vec<(Handle, PresenterFallbackReason)>,
}

#[verifier::ext_equal]
pub struct PresentersModel {
    pub states: Map<Handle, PresenterState>,
    pub fallbacks: Set<(Handle, PresenterFallbackReason)>,
}

impl View for Presenters {
    type V = PresentersModel;

    open spec fn view(&self) -> PresentersModel {
        PresentersModel { states: self.states@, fallbacks: self.fallbacks@.to_set() }
    }
}

impl Presenters {
    pub open spec fn wf(&self) -> bool {
        self.states.wf()
    }

    pub fn new() -> (presenters: Self)
        ensures
            presenters.wf(),
            presenters@.states == Map::<Handle, PresenterState>::empty(),
            presenters@.fallbacks == Set::<(Handle, PresenterFallbackReason)>::empty(),
    {
        let presenters = Presenters { states: Table::new(), fallbacks: Vec::new() };
        assert(presenters@.fallbacks =~= Set::empty());
        presenters
    }

    /// Notes why a surface goes without a presenter. The answer is whether this
    /// was not known before, so that each reason is reported once.
    pub fn record_presenter_fallback(
        &mut self,
        game_surface: Handle,
        reason: PresenterFallbackReason,
    ) -> (first: bool)
        requires
            old(self).wf(),
        ensures
            final(self).wf(),
            first == !old(self)@.fallbacks.contains((game_surface, reason)),
            final(self)@ == (PresentersModel {
                fallbacks: old(self)@.fallbacks.insert((game_surface, reason)),
                ..old(self)@
            }),
    {
        let ghost noted = (game_surface, reason);
        let ghost before = self.fallbacks@;
        let mut index: usize = 0;
        while index < self.fallbacks.len()
            invariant
                *self == *old(self),
                self.fallbacks@ == before,
                old(self).wf(),
                noted == (game_surface, reason),
                index <= before.len(),
                forall|i: int| 0 <= i < index ==> before[i] != noted,
            decreases before.len() - index,
        {
            let (surface, given) = self.fallbacks[index];
            if surface == game_surface && given == reason {
                proof {
                    assert(before[index as int] == noted);
                    assert(before.to_set().insert(noted) =~= before.to_set());
                }
                return false;
            }
            index = index + 1;
        }
        self.fallbacks.push((game_surface, reason));
        proof {
            before.lemma_push_to_set_commute(noted);
        }
        true
    }

    /// The surface that stands in for the one of the game.
    pub fn presenter_surface(&self, game_surface: Handle) -> (surface: Option<Handle>)
        requires
            self.wf(),
        ensures
            surface == (if self@.states.contains_key(game_surface) {
                Some(self@.states[game_surface].surface)
            } else {
                None
            }),
    {
        match self.states.get(game_surface) {
            Some(state) => Some(state.surface),
            None => None,
        }
    }
}

/// The parts of a swapchain's creation that every generation of it shares.
#[derive(Debug)]
pub struct SwapchainTemplate {
    pub flags: u32,
    pub min_image_count: u32,
    pub image_format: i32,
    pub image_color_space: i32,
    pub image_array_layers: u32,
    pub image_usage: u32,
    pub image_sharing_mode: i32,
    pub queue_family_indices: Vec<u32>,
    pub pre_transform: u32,
    pub composite_alpha: u32,
    pub present_mode: i32,
    pub clipped: u32,
    pub create_chain: SwapchainCreateChain,
}

#[verifier::ext_equal]
pub struct TemplateModel {
    pub flags: u32,
    pub min_image_count: u32,
    pub image_format: i32,
    pub image_color_space: i32,
    pub image_array_layers: u32,
    pub image_usage: u32,
    pub image_sharing_mode: i32,
    pub queue_family_indices: Seq<u32>,
    pub pre_transform: u32,
    pub composite_alpha: u32,
    pub present_mode: i32,
    pub clipped: u32,
    pub create_chain: CreateChainModel,
}

impl View for SwapchainTemplate {
    type V = TemplateModel;

    open spec fn view(&self) -> TemplateModel {
        TemplateModel {
            flags: self.flags,
            min_image_count: self.min_image_count,
            image_format: self.image_format,
            image_color_space: self.image_color_space,
            image_array_layers: self.image_array_layers,
            image_usage: self.image_usage,
            image_sharing_mode: self.image_sharing_mode,
            queue_family_indices: self.queue_family_indices@,
            pre_transform: self.pre_transform,
            composite_alpha: self.composite_alpha,
            present_mode: self.present_mode,
            clipped: self.clipped,
            create_chain: self.create_chain@,
        }
    }
}

/// The queue families that share the images: those listed where sharing is
/// concurrent, none where it is exclusive.
pub open spec fn sharing_families(info: SwapchainCreateInfo) -> Seq<u32> {
    if info.image_sharing_mode == SHARING_MODE_CONCURRENT && info.queue_family_indices is Some {
        info.queue_family_indices.unwrap()@
    } else {
        Seq::empty()
    }
}

/// What a template takes from a request, given what its chain says.
pub open spec fn template_of(info: SwapchainCreateInfo, chain: CreateChainModel) -> TemplateModel {
    TemplateModel {
        flags: info.flags,
        min_image_count: info.min_image_count,
        image_format: info.image_format,
        image_color_space: info.image_color_space,
        image_array_layers: info.image_array_layers,
        image_usage: info.image_usage,
        image_sharing_mode: info.image_sharing_mode,
        queue_family_indices: sharing_families(info),
        pre_transform: info.pre_transform,
        composite_alpha: info.composite_alpha,
        present_mode: info.present_mode,
        clipped: info.clipped,
        create_chain: chain,
    }
}

/// The flags and the extension chain of a request can be kept.
pub open spec fn chain_kept(info: SwapchainCreateInfo, chain: CreateChainModel) -> bool {
    &&& flags_supported(info.flags)
    &&& chain_accepted(info.chain@)
    &&& collects(info.chain@, chain)
    &&& !lacks_base_format(info.flags, info.image_format, chain.view_formats)
}

/// Why the flags and the extension chain of a request cannot be kept.
pub open spec fn chain_refused(
    info: SwapchainCreateInfo,
    error: SwapchainCompatibilityError,
) -> bool {
    if !flags_supported(info.flags) {
        error == SwapchainCompatibilityError::UnsupportedFlags { bits: info.flags }
    } else if !chain_accepted(info.chain@) {
        first_fault(info.chain@, error)
    } else {
        &&& error == SwapchainCompatibilityError::MissingBaseFormat { base: info.image_format }
        &&& exists|model: CreateChainModel| #[trigger]
            collects(info.chain@, model) && lacks_base_format(
                info.flags,
                info.image_format,
                model.view_formats,
            )
    }
}

/// The request for one generation: what the template says, for this surface,
/// extent and predecessor.
pub open spec fn requests_generation(
    info: SwapchainCreateInfo,
    template: TemplateModel,
    surface: Handle,
    extent: Extent2D,
    old_swapchain: Handle,
) -> bool {
    &&& info.surface == surface
    &&& info.image_extent == extent
    &&& info.old_swapchain == old_swapchain
    &&& info.flags == template.flags
    &&& info.min_image_count == template.min_image_count
    &&& info.image_format == template.image_format
    &&& info.image_color_space == template.image_color_space
    &&& info.image_array_layers == template.image_array_layers
    &&& info.image_usage == template.image_usage
    &&& info.image_sharing_mode == template.image_sharing_mode
    &&& info.queue_family_indices is Some
    &&& info.queue_family_indices.unwrap()@ == template.queue_family_indices
    &&& info.pre_transform == template.pre_transform
    &&& info.composite_alpha == template.composite_alpha
    &&& info.present_mode == template.present_mode
    &&& info.clipped == (if template.clipped != 0 {
        1u32
    } else {
        0u32
    })
    &&& node_models(info.chain@) == rebuilt(template.create_chain)
}

impl SwapchainTemplate {
    pub fn from_create_info(info: &SwapchainCreateInfo) -> (result: Result<
        Self,
        SwapchainCompatibilityError,
    >)
        ensures
            match result {
                Ok(template) => {
                    &&& chain_kept(*info, template@.create_chain)
                    &&& template@ == template_of(*info, template@.create_chain)
                },
                Err(error) => chain_refused(*info, error),
            },
    {
        let create_chain: SwapchainCreateChain = match SwapchainCreateChain::from_create_info(
            info,
        ) {
            Ok(chain) => chain,
            Err(error) => {
                return Err(error);
            },
        };
        let mut queue_family_indices: Vec<u32> = Vec::new();
        if info.image_sharing_mode == SHARING_MODE_CONCURRENT {
            if let Some(indices) = &info.queue_family_indices {
                queue_family_indices = copy_slice(indices.as_slice());
            }
        }
        assert(queue_family_indices@ =~= sharing_families(*info));
        Ok(
            SwapchainTemplate {
                flags: info.flags,
                min_image_count: info.min_image_count,
                image_format: info.image_format,
                image_color_space: info.image_color_space,
                image_array_layers: info.image_array_layers,
                image_usage: info.image_usage,
                image_sharing_mode: info.image_sharing_mode,
                queue_family_indices,
                pre_transform: info.pre_transform,
                composite_alpha: info.composite_alpha,
                present_mode: info.present_mode,
                clipped: info.clipped,
                create_chain,
            },
        )
    }

    /// The creation parameters of one generation.
    pub fn create_info(&self, surface: Handle, extent: Extent2D, old_swapchain: Handle) -> (info:
        SwapchainCreateInfo)
        ensures
            requests_generation(info, self@, surface, extent, old_swapchain),
    {
        SwapchainCreateInfo {
            flags: self.flags,
            surface,
            min_image_count: self.min_image_count,
            image_format: self.image_format,
            image_color_space: self.image_color_space,
            image_extent: extent,
            image_array_layers: self.image_array_layers,
            image_usage: self.image_usage,
            image_sharing_mode: self.image_sharing_mode,
            queue_family_indices: Some(copy_slice(self.queue_family_indices.as_slice())),
            pre_transform: self.pre_transform,
            composite_alpha: self.composite_alpha,
            present_mode: self.present_mode,
            clipped: if self.clipped != 0 {
                1
            } else {
                0
            },
            old_swapchain,
            chain: self.create_chain.rebuilt_nodes(),
        }
    }

    /// The same template in a value of its own.
    pub fn duplicate(&self) -> (template: Self)
        ensures
            template@ == self@,
    {
        SwapchainTemplate {
            flags: self.flags,
            min_image_count: self.min_image_count,
            image_format: self.image_format,
            image_color_space: self.image_color_space,
            image_array_layers: self.image_array_layers,
            image_usage: self.image_usage,
            image_sharing_mode: self.image_sharing_mode,
            queue_family_indices: copy_slice(self.queue_family_indices.as_slice()),
            pre_transform: self.pre_transform,
            composite_alpha: self.composite_alpha,
            present_mode: self.present_mode,
            clipped: self.clipped,
            create_chain: self.create_chain.duplicate(),
        }
    }
}

/// A surface on an X11 window, and what is promised to the application on it.
#[derive(Debug, Clone, Copy, PartialEq, Eq, Structural)]
pub struct X11Surface {
    pub window: u64,
    pub logical_extent: Option<Extent2D>,
    pub logical_capabilities: Option<SurfaceCapabilities>,
    pub borderless_lease: Option<BorderlessLease>,
    pub negotiation: PresentationNegotiation,
}

/// A swapchain that the layer tracks. It is virtual where it has a mapping;
/// its overlay runtime is held elsewhere under the same logical handle.
#[derive(Debug)]
pub struct SwapchainState {
    pub device: Handle,
    pub game_surface: Handle,
    pub present_surface: Option<Handle>,
    /// The application-visible key remains stable when the generation behind
    /// it is replaced.
    pub logical_handle: Handle,
    pub physical_handle: Handle,
    pub mapping: Option<Mapping>,
    pub negotiation: PresentationNegotiation,
    pub has_overlay: bool,
    pub virtual_images: Option<Vec<Handle>>,
    pub physical_images: Vec<Handle>,
    pub retired_physical_generations: Vec<Handle>,
    pub maintenance_overlay_reported: bool,
    pub maintenance_present_reported: bool,
    pub maintenance_release_reported: bool,
    pub input_route_reported: bool,
    pub generation: u64,
    pub template: Option<SwapchainTemplate>,
    pub contract: Option<LogicalSwapchainContract>,
    pub hdr_metadata: Option<OwnedHdrMetadata>,
    pub present_ids: PresentIdHistory,
    pub lifecycle: ReconfigurationLifecycle,
}

#[verifier::ext_equal]
pub struct SwapchainModel {
    pub device: Handle,
    pub game_surface: Handle,
    pub present_surface: Option<Handle>,
    pub logical_handle: Handle,
    pub physical_handle: Handle,
    pub mapping: Option<MappingModel>,
    pub negotiation: NegotiationStage,
    pub has_overlay: bool,
    pub virtual_images: Option<Seq<Handle>>,
    pub physical_images: Seq<Handle>,
    pub retired_physical_generations: Seq<Handle>,
    pub maintenance_overlay_reported: bool,
    pub maintenance_present_reported: bool,
    pub maintenance_release_reported: bool,
    pub input_route_reported: bool,
    pub generation: u64,
    pub template: Option<TemplateModel>,
    pub contract: Option<ContractModel>,
    pub hdr_metadata: Option<OwnedHdrMetadata>,
    pub present_ids: HistoryModel,
    pub lifecycle: LifecycleModel,
}

impl SwapchainModel {
    pub open spec fn wf(self) -> bool {
        &&& self.mapping matches Some(mapping) ==> mapping.wf()
        &&& self.contract matches Some(contract) ==> contract.wf()
        &&& self.present_ids.wf()
        &&& self.lifecycle.wf()
    }

    pub open spec fn is_virtual(self) -> bool {
        self.mapping is Some
    }

    /// A reconfiguration is under way, so no frame may pass.
    pub open spec fn blocked(self) -> bool {
        self.lifecycle.active is Some
    }
}

impl View for SwapchainState {
    type V = SwapchainModel;

    open spec fn view(&self) -> SwapchainModel {
        SwapchainModel {
            device: self.device,
            game_surface: self.game_surface,
            present_surface: self.present_surface,
            logical_handle: self.logical_handle,
            physical_handle: self.physical_handle,
            mapping: match self.mapping {
                Some(mapping) => Some(mapping@),
                None => None,
            },
            negotiation: self.negotiation@,
            has_overlay: self.has_overlay,
            virtual_images: match self.virtual_images {
                Some(images) => Some(images@),
                None => None,
            },
            physical_images: self.physical_images@,
            retired_physical_generations: self.retired_physical_generations@,
            maintenance_overlay_reported: self.maintenance_overlay_reported,
            maintenance_present_reported: self.maintenance_present_reported,
            maintenance_release_reported: self.maintenance_release_reported,
            input_route_reported: self.input_route_reported,
            generation: self.generation,
            template: match self.template {
                Some(template) => Some(template@),
                None => None,
            },
            contract: match self.contract {
                Some(contract) => Some(contract@),
                None => None,
            },
            hdr_metadata: self.hdr_metadata,
            present_ids: self.present_ids@,
            lifecycle: self.lifecycle@,
        }
    }
}

/// What the overlay is told of the images that it draws into.
#[derive(Debug, Clone, Copy, PartialEq, Eq, Structural)]
pub struct SwapchainInfo {
    pub format: i32,
    pub color_space: i32,
    pub extent: Extent2D,
}

/// Everything the layer tracks across commands.
#[derive(Debug)]
pub struct Layer {
    pub swapchains: Table<SwapchainState>,
    pub surfaces: Table<X11Surface>,
    pub retired: HashSet<u64>,
    pub recreating: HashSet<u64>,
    /// The counter behind the next logical handle.
    pub next_logical: u64,
}

#[verifier::ext_equal]
pub struct LayerModel {
    pub swapchains: Map<Handle, SwapchainModel>,
    pub surfaces: Map<Handle, X11Surface>,
    pub retired: Set<Handle>,
    pub recreating: Set<Handle>,
    pub next_logical: u64,
}

pub open spec fn swapchain_models(table: Map<u64, SwapchainState>) -> Map<Handle, SwapchainModel> {
    Map::new(|handle: u64| table.contains_key(handle), |handle: u64| table[handle]@)
}

/// Changing the state at one place of the table changes one swapchain.
pub(crate) proof fn lemma_set_swapchain(
    before: Table<SwapchainState>,
    after: Table<SwapchainState>,
    index: int,
)
    requires
        before.wf(),
        after.wf(),
        0 <= index < before.key_seq().len(),
        after.key_seq() == before.key_seq(),
        after.value_seq() == before.value_seq().update(index, after.value_seq()[index]),
    ensures
        swapchain_models(after@) == swapchain_models(before@).insert(
            before.key_seq()[index],
            after.value_seq()[index]@,
        ),
{
    lemma_update(before.key_seq(), before.value_seq(), index, after.value_seq()[index]);
    lemma_insert_swapchain(before@, before.key_seq()[index], after.value_seq()[index]);
}

pub(crate) proof fn lemma_insert_swapchain(
    table: Map<u64, SwapchainState>,
    handle: Handle,
    state: SwapchainState,
)
    ensures
        swapchain_models(table.insert(handle, state)) == swapchain_models(table).insert(
            handle,
            state@,
        ),
{
    assert(swapchain_models(table.insert(handle, state)) =~= swapchain_models(table).insert(
        handle,
        state@,
    ));
}

pub(crate) proof fn lemma_remove_swapchain(table: Map<u64, SwapchainState>, handle: Handle)
    ensures
        swapchain_models(table.remove(handle)) == swapchain_models(table).remove(handle),
{
    assert(swapchain_models(table.remove(handle)) =~= swapchain_models(table).remove(handle));
}

impl View for Layer {
    type V = LayerModel;

    open spec fn view(&self) -> LayerModel {
        LayerModel {
            swapchains: swapchain_models(self.swapchains@),
            surfaces: self.surfaces@,
            retired: self.retired@,
            recreating: self.recreating@,
            next_logical: self.next_logical,
        }
    }
}

impl LayerModel {
    /// Every tracked swapchain is well formed and stands under its own
    /// logical handle.
    pub open spec fn wf(self) -> bool {
        forall|handle: Handle| #[trigger]
            self.swapchains.contains_key(handle) ==> {
                &&& self.swapchains[handle].wf()
                &&& self.swapchains[handle].logical_handle == handle
            }
    }

    /// A handle of the reserved namespace that the layer does not track.
    pub open spec fn unknown_logical(self, handle: Handle) -> bool {
        reserved_handle(handle) && !self.swapchains.contains_key(handle)
    }

    pub open spec fn reconfiguring(self, handle: Handle) -> bool {
        self.swapchains.contains_key(handle) && self.swapchains[handle].blocked()
    }

    pub open spec fn with_swapchain(self, handle: Handle, state: SwapchainModel) -> LayerModel {
        LayerModel { swapchains: self.swapchains.insert(handle, state), ..self }
    }

    pub open spec fn with_surface(self, handle: Handle, surface: X11Surface) -> LayerModel {
        LayerModel { surfaces: self.surfaces.insert(handle, surface), ..self }
    }
}

impl Layer {
    /// The tables are well formed, and so is what they hold.
    pub open spec fn wf(&self) -> bool {
        &&& self.swapchains.wf()
        &&& self.surfaces.wf()
        &&& self@.wf()
    }

    pub fn new() -> (layer: Self)
        ensures
            layer.wf(),
            layer@.swapchains == Map::<Handle, SwapchainModel>::empty(),
            layer@.surfaces == Map::<Handle, X11Surface>::empty(),
            layer@.retired == Set::<Handle>::empty(),
            layer@.recreating == Set::<Handle>::empty(),
            layer@.next_logical == 1,
    {
        let layer = Layer {
            swapchains: Table::new(),
            surfaces: Table::new(),
            retired: HashSet::new(),
            recreating: HashSet::new(),
            next_logical: 1,
        };
        assert(layer@.swapchains =~= Map::<Handle, SwapchainModel>::empty());
        layer
    }

    pub fn is_reconfiguring_swapchain(&self, swapchain: Handle) -> (reconfiguring: bool)
        requires
            self.wf(),
        ensures
            reconfiguring == self@.reconfiguring(swapchain),
    {
        match self.swapchains.get(swapchain) {
            Some(state) => state.lifecycle.blocks_frame_operations(),
            None => false,
        }
    }

    pub fn retire_swapchain(&mut self, swapchain: Handle)
        requires
            old(self).wf(),
        ensures
            final(self).wf(),
            final(self)@ == (LayerModel {
                retired: old(self)@.retired.insert(swapchain),
                ..old(self)@
            }),
    {
        self.retired.insert(swapchain);
    }

    pub fn is_retired_swapchain(&self, swapchain: Handle) -> (retired: bool)
        ensures
            retired == self@.retired.contains(swapchain),
    {
        self.retired.contains(&swapchain)
    }

    pub fn is_unknown_logical_swapchain(&self, swapchain: Handle) -> (unknown: bool)
        requires
            self.wf(),
        ensures
            unknown == self@.unknown_logical(swapchain),
    {
        LogicalSwapchainHandle::is_reserved(swapchain) && !self.swapchains.contains_key(swapchain)
    }

    /// Claims a surface for a recreation, unless one is under way on it.
    pub fn begin_surface_recreation(&mut self, surface: Handle) -> (begun: bool)
        requires
            old(self).wf(),
        ensures
            final(self).wf(),
            begun == !old(self)@.recreating.contains(surface),
            final(self)@ == (LayerModel {
                recreating: old(self)@.recreating.insert(surface),
                ..old(self)@
            }),
    {
        self.recreating.insert(surface)
    }

    pub fn end_surface_recreation(&mut self, surface: Handle)
        requires
            old(self).wf(),
        ensures
            final(self).wf(),
            final(self)@ == (LayerModel {
                recreating: old(self)@.recreating.remove(surface),
                ..old(self)@
            }),
    {
        self.recreating.remove(&surface);
    }
}

/// A queue that presents.
#[derive(Debug, Clone, Copy, PartialEq, Eq, Structural)]
pub struct QueueState {
    pub device: Handle,
    pub family_index: u32,
    pub processing_allowed: bool,
}

/// What the layer keeps of a device.
#[derive(Debug)]
pub struct DeviceState {
    pub wsi: DeviceWsiCapabilities,
    pub vulkan_api_version: u32,
    /// The raw capability flags of each queue family.
    pub queue_families: Vec<u32>,
}

/// Devices and their queues.
#[derive(Debug)]
pub struct Devices {
    pub devices: Table<DeviceState>,
    pub queues: Table<QueueState>,
}

#[verifier::ext_equal]
pub struct DevicesModel {
    pub devices: Map<Handle, DeviceState>,
    pub queues: Map<Handle, QueueState>,
}

impl View for Devices {
    type V = DevicesModel;

    open spec fn view(&self) -> DevicesModel {
        DevicesModel { devices: self.devices@, queues: self.queues@ }
    }
}

impl DevicesModel {
    /// Neither the device nor any of its queues.
    pub open spec fn without_device(self, device: Handle) -> DevicesModel {
        DevicesModel {
            devices: self.devices.remove(device),
            queues: Map::new(
                |queue: Handle|
                    self.queues.contains_key(queue) && self.queues[queue].device != device,
                |queue: Handle| self.queues[queue],
            ),
        }
    }
}

impl Devices {
    pub open spec fn wf(&self) -> bool {
        self.devices.wf() && self.queues.wf()
    }

    pub fn new() -> (devices: Self)
        ensures
            devices.wf(),
            devices@.devices == Map::<Handle, DeviceState>::empty(),
            devices@.queues == Map::<Handle, QueueState>::empty(),
    {
        Devices { devices: Table::new(), queues: Table::new() }
    }

    /// Notes a queue that the application got, where it got one. Only a queue
    /// without creation flags is processed.
    pub fn register_queue(
        &mut self,
        device: Handle,
        family_index: u32,
        queue: Option<Handle>,
        flags: u32,
    )
        requires
            old(self).wf(),
        ensures
            final(self).wf(),
            final(self)@ == (match queue {
                Some(handle) => DevicesModel {
                    queues: old(self)@.queues.insert(
                        handle,
                        QueueState { device, family_index, processing_allowed: flags == 0 },
                    ),
                    ..old(self)@
                },
                None => old(self)@,
            }),
    {
        if let Some(handle) = queue {
            self.queues.insert(
                handle,
                QueueState { device, family_index, processing_allowed: flags == 0 },
            );
        }
    }

    /// Takes a device in.
    pub fn register_device(&mut self, device: Handle, state: DeviceState)
        requires
            old(self).wf(),
        ensures
            final(self).wf(),
            final(self)@ == (DevicesModel {
                devices: old(self)@.devices.insert(device, state),
                ..old(self)@
            }),
    {
        self.devices.insert(device, state);
    }

    /// Forgets a device and its queues.
    pub fn forget(&mut self, device: Handle)
        requires
            old(self).wf(),
        ensures
            final(self).wf(),
            final(self)@ == old(self)@.without_device(device),
    {
        let ghost model = self@;
        let _ = self.devices.remove(device);
        let mut kept: Table<QueueState> = Table::new();
        let mut index: usize = 0;
        while index < self.queues.len()
            invariant
                self.queues.wf(),
                self.devices.wf(),
                kept.wf(),
                self.queues@ == model.queues,
                self.devices@ == model.devices.remove(device),
                index <= self.queues.key_seq().len(),
                forall|queue: Handle| #[trigger]
                    kept@.contains_key(queue) <==> exists|i: int|
                        0 <= i < index && #[trigger] self.queues.key_seq()[i] == queue
                            && self.queues.value_seq()[i].device != device,
                forall|queue: Handle| #[trigger]
                    kept@.contains_key(queue) ==> kept@[queue] == model.queues[queue],
            decreases self.queues.key_seq().len() - index,
        {
            let key: Handle = self.queues.key_at(index);
            let state: QueueState = *self.queues.at(index);
            let ghost before = kept@;
            proof {
                self.queues.lemma_at(index as int);
            }
            if state.device != device {
                kept.insert(key, state);
            }
            assert forall|queue: Handle| #[trigger] kept@.contains_key(queue) <==> exists|i: int|
                0 <= i < index + 1 && #[trigger] self.queues.key_seq()[i] == queue
                    && self.queues.value_seq()[i].device != device by {
                assert(self.queues.key_seq()[index as int] == key);
                if before.contains_key(queue) {
                    let i = choose|i: int|
                        0 <= i < index && #[trigger] self.queues.key_seq()[i] == queue
                            && self.queues.value_seq()[i].device != device;
                    assert(self.queues.key_seq()[i] == queue);
                }
            }
            index = index + 1;
        }
        proof {
            assert forall|queue: Handle| kept@.contains_key(queue) <==> model.without_device(
                device,
            ).queues.contains_key(queue) by {
                if kept@.contains_key(queue) {
                    let i = choose|i: int|
                        0 <= i < self.queues.key_seq().len()
                            && #[trigger] self.queues.key_seq()[i] == queue
                            && self.queues.value_seq()[i].device != device;
                    self.queues.lemma_at(i);
                }
                if model.queues.contains_key(queue) {
                    let i = self.queues.key_seq().index_of(queue);
                    assert(self.queues.key_seq()[i] == queue);
                    self.queues.lemma_at(i);
                }
            }
            assert(kept@ =~= model.without_device(device).queues);
        }
        self.queues = kept;
    }
}

/// A claim that was granted and given back leaves the layer as it was.
pub proof fn ending_a_recreation_undoes_its_begin(layer: LayerModel, surface: Handle)
    requires
        !layer.recreating.contains(surface),
    ensures
        layer.recreating.insert(surface).remove(surface) == layer.recreating,
{
    assert(layer.recreating.insert(surface).remove(surface) =~= layer.recreating);
}

/// A generation is requested with all that the application asked for, on the
/// surface and in the extent that it is made for.
pub proof fn a_generation_asks_for_what_the_application_did(
    info: SwapchainCreateInfo,
    chain: CreateChainModel,
    request: SwapchainCreateInfo,
    surface: Handle,
    extent: Extent2D,
    old_swapchain: Handle,
)
    requires
        requests_generation(request, template_of(info, chain), surface, extent, old_swapchain),
    ensures
        request.surface == surface,
        request.image_extent == extent,
        request.old_swapchain == old_swapchain,
        request.flags == info.flags,
        request.min_image_count == info.min_image_count,
        request.image_format == info.image_format,
        request.image_color_space == info.image_color_space,
        request.image_array_layers == info.image_array_layers,
        request.image_usage == info.image_usage,
        request.image_sharing_mode == info.image_sharing_mode,
        request.pre_transform == info.pre_transform,
        request.composite_alpha == info.composite_alpha,
        request.present_mode == info.present_mode,
        request.clipped != 0 <==> info.clipped != 0,
        info.image_sharing_mode == 1 && info.queue_family_indices is Some
            ==> request.queue_family_indices.unwrap()@ == info.queue_family_indices.unwrap()@,
        info.image_sharing_mode != 1 ==> request.queue_family_indices.unwrap()@.len() == 0,
        node_models(request.chain@) == rebuilt(chain),
{
}

/// A window, a surface on it and a swapchain on that are taken up one on top of
/// the other, and given up in the opposite order; the end of an owner, or a
/// creation that failed, takes all of them.
pub proof fn a_presenter_is_built_up_and_taken_down(state: PresenterOwnershipState)
    ensures
        ownership_after(
            PresenterOwnershipState::Absent,
            PresenterOwnershipEvent::WindowCreated,
        ) == PresenterOwnershipState::WindowOwned,
        ownership_after(
            PresenterOwnershipState::WindowOwned,
            PresenterOwnershipEvent::SurfaceCreated,
        ) == PresenterOwnershipState::SurfaceOwned,
        ownership_after(
            PresenterOwnershipState::SurfaceOwned,
            PresenterOwnershipEvent::SwapchainCreated,
        ) == PresenterOwnershipState::SwapchainOwned,
        ownership_after(
            PresenterOwnershipState::SwapchainOwned,
            PresenterOwnershipEvent::PhysicalSwapchainDestroyed,
        ) == PresenterOwnershipState::SurfaceOwned,
        ownership_after(
            PresenterOwnershipState::SurfaceOwned,
            PresenterOwnershipEvent::PresenterSurfaceDestroyed,
        ) == PresenterOwnershipState::WindowOwned,
        ownership_after(
            PresenterOwnershipState::WindowOwned,
            PresenterOwnershipEvent::PresenterWindowDestroyed,
        ) == PresenterOwnershipState::Destroyed,
        ownership_after(state, PresenterOwnershipEvent::SwapchainReplaced) == state,
        ({
            let held = state == PresenterOwnershipState::WindowOwned || state
                == PresenterOwnershipState::SurfaceOwned || state
                == PresenterOwnershipState::SwapchainOwned;
            &&& held ==> {
                &&& ownership_after(state, PresenterOwnershipEvent::OriginalSurfaceDestroyed)
                    == PresenterOwnershipState::Destroyed
                &&& ownership_after(state, PresenterOwnershipEvent::DeviceDestroyed)
                    == PresenterOwnershipState::Destroyed
                &&& ownership_after(state, PresenterOwnershipEvent::InstanceDestroyed)
                    == PresenterOwnershipState::Destroyed
                &&& ownership_after(state, PresenterOwnershipEvent::CreationFailed)
                    == PresenterOwnershipState::RolledBack
            }
            &&& state != PresenterOwnershipState::Absent ==> ownership_after(
                state,
                PresenterOwnershipEvent::WindowCreated,
            ) == state
            &&& state != PresenterOwnershipState::WindowOwned ==> ownership_after(
                state,
                PresenterOwnershipEvent::SurfaceCreated,
            ) == state && ownership_after(state, PresenterOwnershipEvent::PresenterWindowDestroyed)
                == state
            &&& state != PresenterOwnershipState::SurfaceOwned ==> ownership_after(
                state,
                PresenterOwnershipEvent::SwapchainCreated,
            ) == state && ownership_after(state, PresenterOwnershipEvent::PresenterSurfaceDestroyed)
                == state
            &&& state != PresenterOwnershipState::SwapchainOwned ==> ownership_after(
                state,
                PresenterOwnershipEvent::PhysicalSwapchainDestroyed,
            ) == state
        }),
{
}

/// A device that goes takes its queues with it, and no others.
pub proof fn a_device_takes_its_queues_with_it(
    devices: DevicesModel,
    device: Handle,
    other: Handle,
    queue: Handle,
)
    ensures
        ({
            let after = devices.without_device(device);
            &&& !after.devices.contains_key(device)
            &&& other != device ==> after.devices.contains_key(other)
                == devices.devices.contains_key(other)
            &&& other != device && devices.devices.contains_key(other) ==> after.devices[other]
                == devices.devices[other]
            &&& after.queues.contains_key(queue) <==> devices.queues.contains_key(queue)
                && devices.queues[queue].device != device
            &&& after.queues.contains_key(queue) ==> after.queues[queue] == devices.queues[queue]
        }),
{
}

/// A token is one of the layer's reserved handles that it does not track; a
/// swapchain is being replaced while a replacement of it is under way; and it is
/// virtual where it hands out slots.
pub proof fn swapchains_are_known_by_their_parts(layer: LayerModel, handle: Handle)
    ensures
        layer.unknown_logical(handle) <==> handle > 0x8000_0000_0000_0000
            && !layer.swapchains.contains_key(handle),
        layer.reconfiguring(handle) <==> layer.swapchains.contains_key(handle)
            && layer.swapchains[handle].lifecycle.active is Some,
        layer.swapchains[handle].is_virtual() <==> layer.swapchains[handle].mapping is Some,
{
}

} // verus!
