//! The creation of a swapchain, from the request to what the application is
//! handed. Each method is one step; what lies between two steps is done
//! downstream or on the display.

use vstd::prelude::*;

use super::acquire::physical_behind;
use super::creation::{
    active_logical_swapchain, allocate_logical_swapchain, are_bounds_ordered, bounds_ordered,
    clear_surface_logical_override, distance, initial_physical_extent, logical_allocated,
    logical_capabilities_for_extent, logical_image_request, nearest_extent, negotiation_published,
    offered_extent, old_swapchain_translated, override_cleared, place_recreation, preflight_fails,
    preflight_logical_image_count, preflight_passes, preflight_swapchain_virtualization,
    publish_negotiation, recreation_placed, surface_extent, temporal_enabled_for_logical_creation,
    translate_old_swapchain, virtual_swapchain_supported, virtualizable,
    ActiveLogicalSwapchain, InitialOutputTarget, LogicalImageRequest, SwapchainVirtualizationPlan,
    NEEDED_FEATURES, NEEDED_USAGE,
};
use super::lifetime::{
    has_live_virtual_swapchain, live_virtual, restore_surface_window, window_restored,
};
use super::present_id::{HistoryModel, PresentIdHistory};
use super::surface::{locked_to, told_capabilities, PENDING_WIN32_WINDOW};
use super::swapchain_create::{
    flags_supported, same_request, supported_swapchain_flags, SwapchainCompatibilityError,
    SwapchainCreateInfo,
};
use super::wsi_compatibility::DeviceWsiCapabilities;
use crate::display::negotiation::{
    NegotiationStage, PresentationNegotiation, PresentationState, NEGOTIATION_TIMEOUT,
};
use crate::display::BorderlessLease;
use crate::layer::mapping::{reserved_handle, Mapping};
use crate::layer::recovery::{
    ContractModel, LifecycleModel, LogicalSnapshotModel, LogicalSwapchainContract,
    PhysicalGeneration, ReconfigurationLifecycle,
};
use crate::layer::state::{
    lemma_insert_swapchain, lemma_remove_swapchain, lemma_set_swapchain, requests_generation,
    sharing_families, Layer, LayerModel, SwapchainInfo, SwapchainModel, SwapchainState,
    SwapchainTemplate, X11Surface,
};
use crate::seqs::copy_slice;
use crate::table::lemma_update;
use crate::vk::{
    contains_flags, has_flags, Extent2D, Handle, SurfaceCapabilities, VkResult,
    ERROR_FEATURE_NOT_PRESENT, ERROR_INITIALIZATION_FAILED, ERROR_OUT_OF_DATE_KHR,
    IMAGE_USAGE_COLOR_ATTACHMENT, IMAGE_USAGE_SAMPLED, NULL_HANDLE, SUCCESS,
};

verus! {

/// A creation under way. The request changes on its way downstream; what the
/// application asked for of the parts that change is kept beside it.
#[derive(Debug)]
pub struct SwapchainCreation {
    pub device: Handle,
    pub info: SwapchainCreateInfo,
    pub requested_usage: u32,
    pub requested_extent: Extent2D,
    pub requested_old: Handle,
    /// The virtual swapchain that this one takes over from.
    pub old: Option<ActiveLogicalSwapchain>,
    pub capabilities: Option<SurfaceCapabilities>,
    pub format_features: u32,
    pub capture_enabled: bool,
    pub plan: Option<SwapchainVirtualizationPlan>,
    pub surface: Option<X11Surface>,
    pub target: Option<InitialOutputTarget>,
    /// The images that stand in for those of the swapchain.
    pub images: Option<Vec<Handle>>,
}

/// A swapchain that a request names as predecessor is virtual.
pub open spec fn active_old(layer: LayerModel, info: SwapchainCreateInfo) -> bool {
    &&& info.old_swapchain != NULL_HANDLE
    &&& layer.swapchains.contains_key(info.old_swapchain)
    &&& layer.swapchains[info.old_swapchain].contract is Some
}

/// What a request is refused with before anything is looked at.
pub open spec fn creation_refusal(layer: LayerModel, info: SwapchainCreateInfo) -> Option<
    VkResult,
> {
    if layer.retired.contains(info.old_swapchain) || layer.reconfiguring(info.old_swapchain) {
        Some(ERROR_OUT_OF_DATE_KHR)
    } else if active_old(layer, info) && layer.swapchains[info.old_swapchain].game_surface
        != info.surface {
        Some(ERROR_OUT_OF_DATE_KHR)
    } else if active_old(layer, info) && layer.recreating.contains(info.surface) {
        Some(ERROR_OUT_OF_DATE_KHR)
    } else {
        match old_swapchain_translated(layer, info.old_swapchain) {
            Ok(_) => None,
            Err(error) => Some(error),
        }
    }
}

impl SwapchainCreation {
    /// The request may be virtual as far as it has been looked at.
    pub open spec fn eligible(self) -> bool {
        self.plan is Some
    }

    /// There is something to scale, or a virtual swapchain to take over from.
    pub open spec fn intent(self) -> bool {
        self.old is Some || self.target is Some
    }

    /// Takes a request in. One that takes over from a virtual swapchain claims
    /// the surface until the creation is over.
    pub fn begin(layer: &mut Layer, device: Handle, info: SwapchainCreateInfo) -> (result: Result<
        Self,
        VkResult,
    >)
        requires
            old(layer).wf(),
        ensures
            final(layer).wf(),
            match result {
                Ok(creation) => {
                    &&& creation_refusal(old(layer)@, info) is None
                    &&& final(layer)@ == (LayerModel {
                        recreating: if active_old(old(layer)@, info) {
                            old(layer)@.recreating.insert(info.surface)
                        } else {
                            old(layer)@.recreating
                        },
                        ..old(layer)@
                    })
                    &&& creation.device == device
                    &&& creation.info == SwapchainCreateInfo {
                        old_swapchain: old_swapchain_translated(
                            old(layer)@,
                            info.old_swapchain,
                        ).unwrap(),
                        ..info
                    }
                    &&& creation.requested_usage == info.image_usage
                    &&& creation.requested_extent == info.image_extent
                    &&& creation.requested_old == info.old_swapchain
                    &&& match creation.old {
                        Some(active) => {
                            let state = old(layer)@.swapchains[info.old_swapchain];
                            &&& active_old(old(layer)@, info)
                            &&& active.surface == info.surface
                            &&& Some(active.contract@) == state.contract
                            &&& active.negotiation@ == state.negotiation
                        },
                        None => !active_old(old(layer)@, info),
                    }
                    &&& creation.capabilities is None
                    &&& creation.format_features == 0
                    &&& !creation.capture_enabled
                    &&& creation.plan is None
                    &&& creation.surface is None
                    &&& creation.target is None
                    &&& creation.images is None
                },
                Err(error) => {
                    &&& creation_refusal(old(layer)@, info) == Some(error)
                    &&& final(layer)@ == old(layer)@
                },
            },
    {
        let ghost entry = layer@;
        let requested_old: Handle = info.old_swapchain;
        if layer.is_retired_swapchain(requested_old) || layer.is_reconfiguring_swapchain(
            requested_old,
        ) {
            return Err(ERROR_OUT_OF_DATE_KHR);
        }
        let active: Option<ActiveLogicalSwapchain> = active_logical_swapchain(layer, requested_old);
        let physical_old: Result<Handle, VkResult> = translate_old_swapchain(layer, requested_old);
        if let Some(active) = &active {
            if active.surface != info.surface {
                return Err(ERROR_OUT_OF_DATE_KHR);
            }
            if !layer.begin_surface_recreation(info.surface) {
                assert(layer@.recreating =~= entry.recreating);
                return Err(ERROR_OUT_OF_DATE_KHR);
            }
        }
        let physical_old: Handle = match physical_old {
            Ok(physical) => physical,
            Err(error) => {
                return Err(error);
            },
        };
        let requested_usage: u32 = info.image_usage;
        let requested_extent: Extent2D = info.image_extent;
        let mut info = info;
        info.old_swapchain = physical_old;
        Ok(
            SwapchainCreation {
                device,
                info,
                requested_usage,
                requested_extent,
                requested_old,
                old: active,
                capabilities: None,
                format_features: 0,
                capture_enabled: false,
                plan: None,
                surface: None,
                target: None,
                images: None,
            },
        )
    }

    /// Takes in what the device offers for the surface and the format. Where
    /// it offers enough, the images get what the layer needs of them; then the
    /// request is checked. The answer is why it cannot be virtual. A device
    /// that the layer does not know offers nothing.
    pub fn inspect(
        &mut self,
        wsi: Option<&DeviceWsiCapabilities>,
        capabilities: Option<SurfaceCapabilities>,
        format_features: u32,
    ) -> (refused: Option<SwapchainCompatibilityError>)
        requires
            wsi is None ==> capabilities is None && format_features == 0,
        ensures
            ({
                let capture = capabilities is Some && has_flags(
                    capabilities.unwrap().supported_usage_flags,
                    NEEDED_USAGE,
                ) && has_flags(format_features, NEEDED_FEATURES);
                let info = SwapchainCreateInfo {
                    image_usage: if capture {
                        old(self).info.image_usage | NEEDED_USAGE
                    } else {
                        old(self).info.image_usage
                    },
                    ..old(self).info
                };
                &&& *final(self) == (SwapchainCreation {
                    info,
                    capabilities,
                    format_features,
                    capture_enabled: capture,
                    plan: final(self).plan,
                    ..*old(self)
                })
                &&& match wsi {
                    None => final(self).plan is None && refused is None,
                    Some(wsi) => match final(self).plan {
                        Some(plan) => refused is None && preflight_passes(
                            *wsi,
                            info,
                            capabilities,
                            format_features,
                            plan,
                        ),
                        None => refused matches Some(error) && preflight_fails(
                            *wsi,
                            info,
                            capabilities,
                            format_features,
                            error,
                        ),
                    },
                }
            }),
    {
        self.capabilities = capabilities;
        self.format_features = format_features;
        self.capture_enabled =
        match capabilities {
            Some(offered) => contains_flags(offered.supported_usage_flags, NEEDED_USAGE)
                && contains_flags(format_features, NEEDED_FEATURES),
            None => false,
        };
        if self.capture_enabled {
            self.info.image_usage = self.info.image_usage | NEEDED_USAGE;
        }
        self.plan = None;
        match wsi {
            None => None,
            Some(wsi) => match preflight_swapchain_virtualization(
                wsi,
                &self.info,
                capabilities,
                format_features,
            ) {
                Ok(plan) => {
                    self.plan = Some(plan);
                    None
                },
                Err(error) => Some(error),
            },
        }
    }

    /// Remembers the surface as it is, and aims at the native output. Only a
    /// request of another extent, without a virtual predecessor, aims at all:
    /// with the monitor's own extent there is nothing to scale.
    pub fn aim(&mut self, layer: &Layer, native_target: Option<InitialOutputTarget>)
        requires
            layer.wf(),
        ensures
            *final(self) == (SwapchainCreation {
                surface: if layer@.surfaces.contains_key(old(self).info.surface) {
                    Some(layer@.surfaces[old(self).info.surface])
                } else {
                    None
                },
                target: match native_target {
                    Some(target) if old(self).old is None && (target.monitor.rect.width != old(
                        self,
                    ).requested_extent.width || target.monitor.rect.height != old(
                        self,
                    ).requested_extent.height) => Some(target),
                    _ => None,
                },
                ..*old(self)
            }),
    {
        self.surface =
        match layer.surfaces.get(self.info.surface) {
            Some(surface) => Some(*surface),
            None => None,
        };
        self.target = None;
        if self.old.is_none() {
            if let Some(target) = native_target {
                if target.monitor.rect.width != self.requested_extent.width
                    || target.monitor.rect.height != self.requested_extent.height {
                    self.target = Some(target);
                }
            }
        }
    }

    /// The images to allocate for the application, where the request may be
    /// virtual: as many as it asked for at least.
    pub fn image_request(&self) -> (request: Option<LogicalImageRequest>)
        requires
            self.info.image_extent == self.requested_extent,
        ensures
            request is Some == (self.eligible() && self.info.min_image_count != 0),
            match request {
                Some(request) => {
                    let plan = self.plan.unwrap();
                    &&& request.count == self.info.min_image_count
                    &&& request.extent == self.requested_extent
                    &&& request.format == self.info.image_format
                    &&& request.usage == self.requested_usage | NEEDED_USAGE | IMAGE_USAGE_SAMPLED
                    &&& request.image_flags == plan.image_flags
                    &&& request.view_formats@ == plan.view_formats@
                    &&& request.queue_family_indices@ == sharing_families(self.info)
                },
                None => true,
            },
    {
        match &self.plan {
            None => None,
            Some(plan) => match preflight_logical_image_count(self.info.min_image_count) {
                None => None,
                Some(count) => Some(
                    logical_image_request(&self.info, self.requested_usage, plan, count),
                ),
            },
        }
    }

    /// Takes the allocated images. Without them the request is not virtual.
    pub fn adopt_images(&mut self, images: Option<Vec<Handle>>)
        ensures
            *final(self) == (if old(self).eligible() && images is Some {
                SwapchainCreation { images, ..*old(self) }
            } else {
                SwapchainCreation { plan: None, images: None, ..*old(self) }
            }),
    {
        if self.plan.is_some() && images.is_some() {
            self.images = images;
        } else {
            self.plan = None;
            self.images = None;
        }
    }

    /// Puts the surface in order. One whose request cannot be virtual is given
    /// up, and the lease to give back is the answer. One whose request could
    /// be virtual but has nothing to scale loses a stale override, unless a
    /// virtual swapchain still shows on it. A request that takes over from a
    /// virtual swapchain but cannot be virtual is refused.
    pub fn settle(&self, layer: &mut Layer) -> (settlement: (
        Option<BorderlessLease>,
        Option<VkResult>,
    ))
        requires
            old(layer).wf(),
        ensures
            final(layer).wf(),
            settlement.1 == (if self.old is Some && !self.eligible() {
                Some(ERROR_FEATURE_NOT_PRESENT)
            } else {
                None
            }),
            ({
                let before = old(layer)@;
                let after = final(layer)@;
                let surface = self.info.surface;
                if !self.eligible() {
                    &&& window_restored(before, after, surface)
                    &&& settlement.0 == (if before.surfaces.contains_key(surface) {
                        before.surfaces[surface].borderless_lease
                    } else {
                        None
                    })
                } else if !self.intent() && !live_virtual(before, surface)
                    && before.surfaces.contains_key(surface) {
                    &&& after == before.with_surface(surface, after.surfaces[surface])
                    &&& override_cleared(before.surfaces[surface], after.surfaces[surface])
                    &&& settlement.0 is None
                } else {
                    after == before && settlement.0 is None
                }
            }),
    {
        if self.plan.is_none() {
            let lease: Option<BorderlessLease> = restore_surface_window(layer, self.info.surface);
            let refused: Option<VkResult> = if self.old.is_some() {
                Some(ERROR_FEATURE_NOT_PRESENT)
            } else {
                None
            };
            return (lease, refused);
        }
        if self.old.is_none() && self.target.is_none() {
            if !has_live_virtual_swapchain(layer, self.info.surface) {
                clear_surface_logical_override(layer, self.info.surface);
            }
        }
        (None, None)
    }

    /// Where the downstream swapchain goes: its extent and its predecessor, or
    /// why there is no place for it.
    pub open spec fn placement(self, current: Option<SurfaceCapabilities>) -> Result<
        (Extent2D, Handle),
        VkResult,
    > {
        if self.intent() && self.eligible() && self.capabilities is Some && !bounds_ordered(
            offered_extent(self.capabilities.unwrap()),
        ) {
            Err(ERROR_INITIALIZATION_FAILED)
        } else if self.old is Some {
            let contract = self.old.unwrap().contract@;
            if current is None || !self.eligible() {
                Err(ERROR_INITIALIZATION_FAILED)
            } else if self.requested_old != contract.logical.handle {
                Err(ERROR_OUT_OF_DATE_KHR)
            } else if !bounds_ordered(offered_extent(current.unwrap())) {
                Err(ERROR_INITIALIZATION_FAILED)
            } else {
                recreation_placed(
                    self.requested_old,
                    self.requested_extent,
                    contract,
                    offered_extent(current.unwrap()),
                )
            }
        } else if self.intent() && self.eligible() && self.capabilities is Some {
            Ok(
                (
                    nearest_extent(
                        self.requested_extent,
                        offered_extent(self.capabilities.unwrap()),
                    ),
                    self.info.old_swapchain,
                ),
            )
        } else {
            Ok((self.requested_extent, self.info.old_swapchain))
        }
    }

    /// Places the downstream swapchain. A request that takes over from a
    /// virtual swapchain is placed by what the surface offers now.
    pub fn place(&mut self, current: Option<SurfaceCapabilities>) -> (result: Result<(), VkResult>)
        requires
            old(self).info.image_extent == old(self).requested_extent,
        ensures
            match old(self).placement(current) {
                Ok((extent, old_swapchain)) => {
                    &&& result is Ok
                    &&& *final(self) == (SwapchainCreation {
                        info: SwapchainCreateInfo {
                            image_extent: extent,
                            old_swapchain,
                            ..old(self).info
                        },
                        ..*old(self)
                    })
                },
                Err(error) => result == Err::<(), VkResult>(error),
            },
    {
        let eligible: bool = self.plan.is_some();
        if (self.old.is_some() || self.target.is_some()) && eligible {
            if let Some(capabilities) = self.capabilities {
                let offered = surface_extent(capabilities);
                if !are_bounds_ordered(offered) {
                    return Err(ERROR_INITIALIZATION_FAILED);
                }
                self.info.image_extent =
                initial_physical_extent(self.requested_extent, offered, true);
            }
        }
        if let Some(active) = &self.old {
            let offered = match current {
                Some(capabilities) => surface_extent(capabilities),
                None => {
                    return Err(ERROR_INITIALIZATION_FAILED);
                },
            };
            if !eligible {
                return Err(ERROR_INITIALIZATION_FAILED);
            }
            if self.requested_old != active.contract.handle() {
                return Err(ERROR_OUT_OF_DATE_KHR);
            }
            if !are_bounds_ordered(offered) {
                return Err(ERROR_INITIALIZATION_FAILED);
            }
            let placed: Result<(Extent2D, Handle), VkResult> = place_recreation(
                self.requested_old,
                self.requested_extent,
                &active.contract,
                offered,
            );
            match placed {
                Ok((extent, old_swapchain)) => {
                    self.info.image_extent = extent;
                    self.info.old_swapchain = old_swapchain;
                },
                Err(error) => {
                    return Err(error);
                },
            }
        }
        Ok(())
    }

    /// The request that goes downstream: rebuilt from the plan where there is
    /// one, else the request as it stands.
    pub fn request(&self) -> (request: SwapchainCreateInfo)
        ensures
            match self.plan {
                Some(plan) => requests_generation(
                    request,
                    plan.template@,
                    self.info.surface,
                    self.info.image_extent,
                    self.info.old_swapchain,
                ),
                None => same_request(request, self.info),
            },
    {
        match &self.plan {
            Some(plan) => plan.template.create_info(
                self.info.surface,
                self.info.image_extent,
                self.info.old_swapchain,
            ),
            None => self.info.duplicate(),
        }
    }

    /// The request asks more of the images than the application did.
    pub open spec fn can_ask_less(self) -> bool {
        self.capture_enabled && self.info.image_usage != self.requested_usage
    }

    /// The request with what the application asked of the images, no more.
    pub open spec fn modest(self) -> SwapchainCreateInfo {
        SwapchainCreateInfo { image_usage: self.requested_usage, ..self.info }
    }

    /// Takes the downstream answer. A failure may come of what the layer asked
    /// for on top; then the creation is to be tried again without it, and the
    /// answer is `None`. Else the answer is the result of the creation.
    pub fn answered(&mut self, wsi: Option<&DeviceWsiCapabilities>, result: VkResult) -> (settled:
        Option<VkResult>)
        ensures
            if result == SUCCESS || !old(self).can_ask_less() {
                settled == Some(result) && *final(self) == *old(self)
            } else {
                &&& *final(self) == (SwapchainCreation {
                    info: old(self).modest(),
                    capture_enabled: false,
                    plan: final(self).plan,
                    ..*old(self)
                })
                &&& match final(self).plan {
                    Some(plan) => old(self).eligible() && wsi is Some && preflight_passes(
                        *wsi.unwrap(),
                        old(self).modest(),
                        old(self).capabilities,
                        old(self).format_features,
                        plan,
                    ),
                    None => old(self).eligible() && wsi is Some ==> exists|error|
                        preflight_fails(
                            *wsi.unwrap(),
                            old(self).modest(),
                            old(self).capabilities,
                            old(self).format_features,
                            error,
                        ),
                }
                &&& settled == (if old(self).eligible() && !final(self).eligible() {
                    Some(ERROR_FEATURE_NOT_PRESENT)
                } else if result == ERROR_FEATURE_NOT_PRESENT {
                    Some(result)
                } else {
                    None
                })
            },
    {
        if result == SUCCESS || !self.capture_enabled || self.info.image_usage
            == self.requested_usage {
            return Some(result);
        }
        self.capture_enabled = false;
        self.info.image_usage = self.requested_usage;
        let eligible: bool = self.plan.is_some();
        let mut plan: Option<SwapchainVirtualizationPlan> = None;
        if eligible {
            if let Some(wsi) = wsi {
                match preflight_swapchain_virtualization(
                    wsi,
                    &self.info,
                    self.capabilities,
                    self.format_features,
                ) {
                    Ok(retried) => {
                        plan = Some(retried);
                    },
                    Err(error) => {
                        assert(preflight_fails(
                            *wsi,
                            self.info,
                            self.capabilities,
                            self.format_features,
                            error,
                        ));
                    },
                }
            }
        }
        let lost: bool = eligible && plan.is_none();
        self.plan = plan;
        if lost {
            return Some(ERROR_FEATURE_NOT_PRESENT);
        }
        if result == ERROR_FEATURE_NOT_PRESENT {
            return Some(result);
        }
        None
    }

    /// The swapchain gets an overlay: its images can be drawn into, and have
    /// one layer and flags that are known.
    pub fn wants_overlay(&self) -> (wanted: bool)
        ensures
            wanted == (has_flags(self.info.image_usage, IMAGE_USAGE_COLOR_ATTACHMENT)
                && self.info.image_array_layers == 1 && flags_supported(self.info.flags)),
    {
        contains_flags(self.info.image_usage, IMAGE_USAGE_COLOR_ATTACHMENT)
            && self.info.image_array_layers == 1 && supported_swapchain_flags(self.info.flags)
    }

    /// Everything is there for a virtual swapchain, except its token.
    pub open spec fn can_be_virtual(self) -> bool {
        self.intent() && self.eligible() && virtualizable(self.info) && self.images is Some
    }

    /// The handle that the application gets for a downstream swapchain: a new
    /// logical one for a virtual swapchain, else the downstream one.
    pub fn identify(&self, layer: &mut Layer, physical: Handle) -> (identity: (Handle, bool))
        requires
            old(layer).wf(),
        ensures
            final(layer).wf(),
            !identity.1 ==> identity.0 == physical,
            if self.can_be_virtual() {
                logical_allocated(
                    old(layer)@,
                    final(layer)@,
                    physical,
                    if identity.1 {
                        Some(identity.0)
                    } else {
                        None
                    },
                )
            } else {
                !identity.1 && final(layer)@ == old(layer)@
            },
    {
        if (self.old.is_some() || self.target.is_some()) && self.plan.is_some()
            && virtual_swapchain_supported(&self.info) && self.images.is_some() {
            return match allocate_logical_swapchain(layer, physical) {
                Some(logical) => (logical, true),
                None => (physical, false),
            };
        }
        (physical, false)
    }

    /// What the overlay is made with.
    pub fn overlay_request(
        &self,
        layer: &Layer,
        virtualized: bool,
        output_images: &[Handle],
    ) -> (request: OverlayRequest)
        requires
            layer.wf(),
            virtualized ==> self.images is Some,
        ensures
            request.info == (SwapchainInfo {
                format: self.info.image_format,
                color_space: self.info.image_color_space,
                extent: self.info.image_extent,
            }),
            request.game_images@ == (if virtualized {
                self.images.unwrap()@
            } else {
                output_images@
            }),
            request.game_extent == (if virtualized {
                self.requested_extent
            } else {
                self.info.image_extent
            }),
            request.output_images@ == output_images@,
            request.capture_enabled == self.capture_enabled,
            request.window == (if layer@.surfaces.contains_key(self.info.surface)
                && layer@.surfaces[self.info.surface].window != PENDING_WIN32_WINDOW {
                Some(layer@.surfaces[self.info.surface].window)
            } else {
                None
            }),
            request.monitor == (match self.target {
                Some(target) => Some(
                    (
                        target.monitor.rect.x,
                        target.monitor.rect.y,
                        target.monitor.rect.width as i32,
                        target.monitor.rect.height as i32,
                    ),
                ),
                None => None,
            }),
            request.temporal_enabled == (!virtualized || self.old is Some
                && self.old.unwrap().negotiation@.shown() == PresentationState::Virtualized),
    {
        let mut game_images: Vec<Handle> = copy_slice(output_images);
        let mut game_extent: Extent2D = self.info.image_extent;
        if virtualized {
            if let Some(images) = &self.images {
                game_images = copy_slice(images.as_slice());
            }
            game_extent = self.requested_extent;
        }
        let window: Option<u64> = match layer.surfaces.get(self.info.surface) {
            Some(surface) => if surface.window != PENDING_WIN32_WINDOW {
                Some(surface.window)
            } else {
                None
            },
            None => None,
        };
        let monitor: Option<(i32, i32, i32, i32)> = match self.target {
            Some(target) => {
                let width: u32 = target.monitor.rect.width;
                let height: u32 = target.monitor.rect.height;
                Some(
                    (
                        target.monitor.rect.x,
                        target.monitor.rect.y,
                        #[verifier::truncate]
                        (width as i32),
                        #[verifier::truncate]
                        (height as i32),
                    ),
                )
            },
            None => None,
        };
        let previous: Option<PresentationState> = match &self.old {
            Some(active) => Some(active.negotiation.public_state()),
            None => None,
        };
        OverlayRequest {
            info: SwapchainInfo {
                format: self.info.image_format,
                color_space: self.info.image_color_space,
                extent: self.info.image_extent,
            },
            game_images,
            game_extent,
            output_images: copy_slice(output_images),
            capture_enabled: self.capture_enabled,
            window,
            monitor,
            temporal_enabled: temporal_enabled_for_logical_creation(virtualized, previous),
        }
    }

    /// The negotiation as the surface had it when it was looked at.
    pub open spec fn persisted(self) -> NegotiationStage {
        match self.surface {
            Some(surface) => surface.negotiation@,
            None => NegotiationStage::Direct,
        }
    }

    /// A new virtual swapchain on a direct surface asks for its target.
    pub open spec fn asks_for_target(self, virtualized: bool) -> bool {
        &&& self.old is None
        &&& virtualized
        &&& self.persisted() is Direct
        &&& self.target matches Some(target) && target.monitor.rect.valid()
    }

    /// The negotiation that a new swapchain starts with: that of its
    /// predecessor, else that of the surface. A virtual swapchain on a direct
    /// surface asks for its target.
    pub open spec fn first_stage(self, virtualized: bool, now: u64) -> NegotiationStage {
        if self.old is Some {
            self.old.unwrap().negotiation@
        } else if virtualized && self.target is Some && self.persisted().shown()
            == PresentationState::Direct {
            self.persisted().requested(self.target.unwrap().monitor.rect, now)
        } else {
            self.persisted()
        }
    }

    fn first_negotiation(&self, virtualized: bool, now: u64) -> (negotiation:
        PresentationNegotiation)
        requires
            self.asks_for_target(virtualized) ==> now + NEGOTIATION_TIMEOUT <= u64::MAX,
        ensures
            negotiation@ == self.first_stage(virtualized, now),
    {
        if let Some(active) = &self.old {
            return active.negotiation;
        }
        let mut negotiation: PresentationNegotiation = match self.surface {
            Some(surface) => surface.negotiation,
            None => PresentationNegotiation::direct(),
        };
        if virtualized {
            if let Some(target) = self.target {
                if negotiation.public_state() == PresentationState::Direct {
                    negotiation.request_borderless(target.monitor.rect, now);
                }
            }
        }
        negotiation
    }

    /// What a virtual swapchain promises, where that can be promised at all.
    pub open spec fn first_contract(
        self,
        handle: Handle,
        physical: Handle,
        image_count: nat,
        stage: NegotiationStage,
    ) -> Option<ContractModel> {
        let contract = ContractModel {
            logical: LogicalSnapshotModel {
                handle,
                images: self.images.unwrap()@,
                game_extent: self.requested_extent,
            },
            physical: PhysicalGeneration {
                id: 0,
                handle: physical,
                present_surface: None,
                extent: self.info.image_extent,
                image_count: image_count as usize,
            },
            state: stage.shown(),
        };
        if contract.wf() {
            Some(contract)
        } else {
            None
        }
    }

    /// The state of a new swapchain. Its mapping holds as many free slots as
    /// it has images of its own.
    pub open spec fn first_state(
        self,
        handle: Handle,
        virtualized: bool,
        physical: Handle,
        output_images: Seq<Handle>,
        stage: NegotiationStage,
        state: SwapchainModel,
    ) -> bool {
        &&& state.device == self.device
        &&& state.game_surface == self.info.surface
        &&& state.present_surface is None
        &&& state.logical_handle == handle
        &&& state.physical_handle == physical
        &&& state.negotiation == stage
        &&& state.has_overlay
        &&& state.physical_images == output_images
        &&& state.retired_physical_generations == Seq::<Handle>::empty()
        &&& !state.maintenance_overlay_reported
        &&& !state.maintenance_present_reported
        &&& !state.maintenance_release_reported
        &&& !state.input_route_reported
        &&& state.generation == 0
        &&& state.hdr_metadata is None
        &&& state.present_ids == HistoryModel::fresh()
        &&& state.lifecycle == LifecycleModel::fresh()
        &&& if virtualized {
            &&& state.mapping matches Some(mapping)
            &&& mapping.generation == 0
            &&& mapping.bound.len() == self.images.unwrap()@.len()
            &&& mapping.idle()
            &&& state.virtual_images == Some(self.images.unwrap()@)
            &&& state.template == Some(self.plan.unwrap().template@)
            &&& state.contract == self.first_contract(
                handle,
                physical,
                output_images.len(),
                stage,
            )
        } else {
            &&& state.mapping is None
            &&& state.virtual_images is None
            &&& state.template is None
            &&& state.contract is None
        }
    }

    /// Puts the new swapchain in the layer's hands under the application's
    /// handle. A virtual predecessor stays there until the application
    /// destroys it, but its token is no longer taken.
    pub fn install(
        &self,
        layer: &mut Layer,
        handle: Handle,
        virtualized: bool,
        physical: Handle,
        output_images: Vec<Handle>,
        now: u64,
    ) -> (negotiation: PresentationNegotiation)
        requires
            old(layer).wf(),
            virtualized ==> self.images is Some && self.plan is Some,
            self.images matches Some(images) ==> images@.len() <= 0x1_0000_0000,
            self.asks_for_target(virtualized) ==> now + NEGOTIATION_TIMEOUT <= u64::MAX,
        ensures
            final(layer).wf(),
            negotiation@ == self.first_stage(virtualized, now),
            self.first_state(
                handle,
                virtualized,
                physical,
                output_images@,
                negotiation@,
                final(layer)@.swapchains[handle],
            ),
            final(layer)@ == (LayerModel {
                swapchains: old(layer)@.swapchains.insert(
                    handle,
                    final(layer)@.swapchains[handle],
                ),
                retired: if self.old is Some {
                    old(layer)@.retired.insert(self.requested_old)
                } else {
                    old(layer)@.retired
                },
                ..old(layer)@
            }),
    {
        let ghost entry = layer@;
        let negotiation: PresentationNegotiation = self.first_negotiation(virtualized, now);
        let mut mapping: Option<Mapping> = None;
        let mut virtual_images: Option<Vec<Handle>> = None;
        let mut template: Option<SwapchainTemplate> = None;
        let mut contract: Option<LogicalSwapchainContract> = None;
        if virtualized {
            if let Some(images) = &self.images {
                mapping = Some(Mapping::new(0, images.len()));
                virtual_images = Some(copy_slice(images.as_slice()));
                contract =
                match LogicalSwapchainContract::new(
                    handle,
                    copy_slice(images.as_slice()),
                    self.requested_extent,
                    PhysicalGeneration::new(
                        0,
                        physical,
                        self.info.image_extent,
                        output_images.len(),
                    ),
                    negotiation.public_state(),
                ) {
                    Ok(contract) => Some(contract),
                    Err(_) => None,
                };
            }
            if let Some(plan) = &self.plan {
                template = Some(plan.template.duplicate());
            }
        }
        let state: SwapchainState = SwapchainState {
            device: self.device,
            game_surface: self.info.surface,
            present_surface: None,
            logical_handle: handle,
            physical_handle: physical,
            mapping,
            negotiation,
            has_overlay: true,
            virtual_images,
            physical_images: output_images,
            retired_physical_generations: Vec::new(),
            maintenance_overlay_reported: false,
            maintenance_present_reported: false,
            maintenance_release_reported: false,
            input_route_reported: false,
            generation: 0,
            template,
            contract,
            hdr_metadata: None,
            present_ids: PresentIdHistory::new(),
            lifecycle: ReconfigurationLifecycle::new(),
        };
        assert(self.first_state(
            handle,
            virtualized,
            physical,
            output_images@,
            negotiation@,
            state@,
        ));
        proof {
            lemma_insert_swapchain(layer.swapchains@, handle, state);
        }
        layer.swapchains.insert(handle, state);
        assert(layer@.wf()) by {
            assert forall|other: Handle| #[trigger] layer@.swapchains.contains_key(
                other,
            ) implies layer@.swapchains[other].wf()
                && layer@.swapchains[other].logical_handle == other by {
                if other != handle {
                    assert(entry.swapchains.contains_key(other));
                }
            }
        }
        if self.old.is_some() {
            layer.retire_swapchain(self.requested_old);
        }
        negotiation
    }

    /// A lease on the target's window that the surface already has; with it,
    /// the window need not be asked again.
    pub fn reusable_lease(&self) -> (lease: Option<BorderlessLease>)
        ensures
            lease == (match (self.surface, self.target) {
                (Some(surface), Some(target)) => match surface.borderless_lease {
                    Some(held) if held.window == target.window && held.monitor
                        == target.monitor => Some(held),
                    _ => None,
                },
                _ => None,
            }),
    {
        match (self.surface, self.target) {
            (Some(surface), Some(target)) => match surface.borderless_lease {
                Some(held) => if held.window == target.window && held.monitor == target.monitor {
                    Some(held)
                } else {
                    None
                },
                None => None,
            },
            _ => None,
        }
    }

    /// The window could not be promoted: the virtual swapchain is forgotten,
    /// and the application gets the downstream handle. The answer is whether
    /// an overlay has to be destroyed.
    pub fn unpromoted(&self, layer: &mut Layer, handle: Handle) -> (overlay: bool)
        requires
            old(layer).wf(),
        ensures
            final(layer).wf(),
            final(layer)@ == (LayerModel {
                swapchains: old(layer)@.swapchains.remove(handle),
                ..old(layer)@
            }),
            overlay == (old(layer)@.swapchains.contains_key(handle)
                && old(layer)@.swapchains[handle].has_overlay),
    {
        let ghost entry = layer@;
        let ghost table = layer.swapchains@;
        let removed: Option<SwapchainState> = layer.swapchains.remove(handle);
        proof {
            lemma_remove_swapchain(table, handle);
            assert forall|other: Handle| #[trigger] layer@.swapchains.contains_key(
                other,
            ) implies layer@.swapchains[other].wf()
                && layer@.swapchains[other].logical_handle == other by {
                assert(entry.swapchains.contains_key(other));
            }
        }
        match removed {
            Some(state) => {
                assert(entry.swapchains[handle] == state@);
                state.has_overlay
            },
            None => false,
        }
    }

    /// The surface of a virtual swapchain: it promises the requested extent.
    pub open spec fn surface_promised(
        self,
        before: X11Surface,
        after: X11Surface,
        stage: NegotiationStage,
        lease: Option<BorderlessLease>,
    ) -> bool {
        &&& after.window == before.window
        &&& after.logical_extent == Some(self.requested_extent)
        &&& after.logical_capabilities == (match (before.logical_capabilities, self.capabilities) {
            (Some(told), _) => Some(locked_to(told, self.requested_extent)),
            (None, Some(queried)) => Some(locked_to(queried, self.requested_extent)),
            (None, None) => None,
        })
        &&& after.negotiation@ == stage
        &&& after.borderless_lease == lease
    }

    /// The layer after a surface made its promise and the negotiation became
    /// that of the swapchains on it. Without a new lease, the old one stays.
    pub open spec fn promise_spread(
        self,
        before: LayerModel,
        after: LayerModel,
        stage: NegotiationStage,
        lease: Option<BorderlessLease>,
    ) -> bool {
        let surface = self.info.surface;
        &&& after.swapchains == negotiation_published(before, surface, stage)
        &&& after.retired == before.retired
        &&& after.recreating == before.recreating
        &&& after.next_logical == before.next_logical
        &&& if before.surfaces.contains_key(surface) {
            &&& after.surfaces == before.surfaces.insert(surface, after.surfaces[surface])
            &&& self.surface_promised(
                before.surfaces[surface],
                after.surfaces[surface],
                stage,
                match lease {
                    Some(_) => lease,
                    None => before.surfaces[surface].borderless_lease,
                },
            )
        } else {
            after.surfaces == before.surfaces
        }
    }

    fn promise(
        &self,
        layer: &mut Layer,
        negotiation: PresentationNegotiation,
        lease: Option<BorderlessLease>,
    )
        requires
            old(layer).wf(),
        ensures
            final(layer).wf(),
            if old(layer)@.surfaces.contains_key(self.info.surface) {
                let before = old(layer)@.surfaces[self.info.surface];
                let after = final(layer)@.surfaces[self.info.surface];
                &&& final(layer)@ == old(layer)@.with_surface(self.info.surface, after)
                &&& self.surface_promised(
                    before,
                    after,
                    negotiation@,
                    match lease {
                        Some(_) => lease,
                        None => before.borderless_lease,
                    },
                )
            } else {
                final(layer)@ == old(layer)@
            },
    {
        if let Some(index) = layer.surfaces.find(self.info.surface) {
            let ghost keys = layer.surfaces.key_seq();
            let ghost values = layer.surfaces.value_seq();
            let surface: &mut X11Surface = layer.surfaces.at_mut(index);
            surface.logical_extent = Some(self.requested_extent);
            surface.logical_capabilities =
            logical_capabilities_for_extent(
                surface.logical_capabilities,
                self.capabilities,
                self.requested_extent,
            );
            surface.negotiation = negotiation;
            if lease.is_some() {
                surface.borderless_lease = lease;
            }
            proof {
                lemma_update(keys, values, index as int, layer.surfaces.value_seq()[index as int]);
            }
        }
    }

    /// The window was promoted for a new virtual swapchain: it waits for the
    /// native output, and the surface promises the requested extent.
    pub fn promoted(&self, layer: &mut Layer, handle: Handle, lease: BorderlessLease, now: u64)
        requires
            old(layer).wf(),
            old(layer)@.swapchains.contains_key(handle),
        ensures
            final(layer).wf(),
            ({
                let state = old(layer)@.swapchains[handle];
                let stage = state.negotiation.sent(now);
                let sent = old(layer)@.with_swapchain(
                    handle,
                    SwapchainModel { negotiation: stage, ..state },
                );
                self.promise_spread(sent, final(layer)@, stage, Some(lease))
            }),
    {
        let ghost entry = layer@;
        let mut negotiation: PresentationNegotiation = PresentationNegotiation::direct();
        if let Some(index) = layer.swapchains.find(handle) {
            let ghost before = layer.swapchains;
            proof {
                before.lemma_at(index as int);
                assert(entry.swapchains[handle] == before.value_seq()[index as int]@);
            }
            let state: &mut SwapchainState = layer.swapchains.at_mut(index);
            let _ = state.negotiation.borderless_requested(now);
            negotiation = state.negotiation;
            proof {
                lemma_set_swapchain(before, layer.swapchains, index as int);
            }
        }
        let ghost sent = layer@;
        self.promise(layer, negotiation, Some(lease));
        let ghost promised = layer@;
        publish_negotiation(layer, self.info.surface, negotiation);
        proof {
            let state = entry.swapchains[handle];
            assert(sent =~= entry.with_swapchain(
                handle,
                SwapchainModel { negotiation: state.negotiation.sent(now), ..state },
            ));
            assert(negotiation_published(promised, self.info.surface, negotiation@)
                =~= negotiation_published(sent, self.info.surface, negotiation@));
            assert(layer@.surfaces =~= if sent.surfaces.contains_key(self.info.surface) {
                sent.surfaces.insert(self.info.surface, layer@.surfaces[self.info.surface])
            } else {
                sent.surfaces
            });
        }
    }

    /// A virtual swapchain took over from another: the surface promises the
    /// requested extent and goes on as it was.
    pub fn recreated(&self, layer: &mut Layer, negotiation: PresentationNegotiation)
        requires
            old(layer).wf(),
        ensures
            final(layer).wf(),
            self.promise_spread(old(layer)@, final(layer)@, negotiation@, None),
    {
        let ghost before = layer@;
        self.promise(layer, negotiation, None);
        let ghost promised = layer@;
        publish_negotiation(layer, self.info.surface, negotiation);
        proof {
            assert(negotiation_published(promised, self.info.surface, negotiation@)
                =~= negotiation_published(before, self.info.surface, negotiation@));
            assert(layer@.surfaces =~= if before.surfaces.contains_key(self.info.surface) {
                before.surfaces.insert(self.info.surface, layer@.surfaces[self.info.surface])
            } else {
                before.surfaces
            });
        }
    }

    /// Ends the creation: a claimed surface is free again.
    pub fn end(self, layer: &mut Layer)
        requires
            old(layer).wf(),
        ensures
            final(layer).wf(),
            final(layer)@ == (LayerModel {
                recreating: if self.old is Some {
                    old(layer)@.recreating.remove(self.info.surface)
                } else {
                    old(layer)@.recreating
                },
                ..old(layer)@
            }),
    {
        if self.old.is_some() {
            layer.end_surface_recreation(self.info.surface);
        }
    }
}

/// What an overlay is made with.
#[derive(Debug)]
pub struct OverlayRequest {
    pub info: SwapchainInfo,
    pub game_images: Vec<Handle>,
    pub game_extent: Extent2D,
    pub output_images: Vec<Handle>,
    pub capture_enabled: bool,
    pub window: Option<u64>,
    /// The monitor to cover: its place and its size.
    pub monitor: Option<(i32, i32, i32, i32)>,
    pub temporal_enabled: bool,
}

/// Once a swapchain was taken over from, its token starts no other creation.
pub proof fn a_replaced_token_starts_nothing(layer: LayerModel, info: SwapchainCreateInfo)
    requires
        layer.retired.contains(info.old_swapchain),
    ensures
        creation_refusal(layer, info) == Some(ERROR_OUT_OF_DATE_KHR),
{
}

/// A request that takes over from nothing known is never refused at once,
/// unless it names a token of the reserved namespace.
pub proof fn an_unknown_predecessor_goes_downstream(layer: LayerModel, info: SwapchainCreateInfo)
    requires
        !layer.swapchains.contains_key(info.old_swapchain),
        !layer.retired.contains(info.old_swapchain),
        !reserved_handle(info.old_swapchain),
    ensures
        creation_refusal(layer, info) is None,
        old_swapchain_translated(layer, info.old_swapchain) == Ok::<Handle, VkResult>(
            info.old_swapchain,
        ),
{
}

/// Once a virtual swapchain has made its promise, the application is told of
/// the extent that it asked for and of no other, whatever the driver offers.
pub proof fn a_promised_surface_tells_the_requested_extent(
    creation: SwapchainCreation,
    before: LayerModel,
    after: LayerModel,
    stage: NegotiationStage,
    lease: Option<BorderlessLease>,
    queried: SurfaceCapabilities,
)
    requires
        before.surfaces.contains_key(creation.info.surface),
        creation.promise_spread(before, after, stage, lease),
    ensures
        ({
            let told = told_capabilities(after, creation.info.surface, queried);
            &&& told.current_extent == creation.requested_extent
            &&& told.min_image_extent == creation.requested_extent
            &&& told.max_image_extent == creation.requested_extent
        }),
{
}

/// A new virtual swapchain answers with the images that were made for the
/// application, and an acquire of it goes to the downstream swapchain.
pub proof fn a_new_virtual_swapchain_stands_for_the_downstream_one(
    creation: SwapchainCreation,
    layer: LayerModel,
    handle: Handle,
    physical: Handle,
    output_images: Seq<Handle>,
    stage: NegotiationStage,
)
    requires
        layer.swapchains.contains_key(handle),
        layer.swapchains[handle].contract is Some,
        creation.first_state(
            handle,
            true,
            physical,
            output_images,
            stage,
            layer.swapchains[handle],
        ),
    ensures
        layer.swapchains[handle].contract.unwrap().logical.images == creation.images.unwrap()@,
        layer.swapchains[handle].contract.unwrap().logical.game_extent
            == creation.requested_extent,
        physical_behind(layer, handle) == Some(physical),
{
}

/// The extent that goes downstream for a swapchain that is to be virtual is
/// one that the surface takes: its current extent where it has one, else one
/// within its bounds and no farther from the request than any other there. A
/// swapchain that takes over is placed by what the surface offers now and goes
/// down without a predecessor, and it keeps the extent of the old generation
/// where the surface still takes it.
pub proof fn the_downstream_extent_fits_the_surface(
    creation: SwapchainCreation,
    current: Option<SurfaceCapabilities>,
    other: Extent2D,
)
    requires
        creation.plan is Some,
        creation.old is Some || creation.target is Some,
        creation.old is None ==> creation.capabilities is Some,
        creation.placement(current) is Ok,
    ensures
        ({
            let (extent, predecessor) = creation.placement(current).unwrap();
            let requested = creation.requested_extent;
            let offered = if creation.old is Some {
                current.unwrap()
            } else {
                creation.capabilities.unwrap()
            };
            let low = offered.min_image_extent;
            let high = offered.max_image_extent;
            let kept = creation.old.unwrap().contract@.physical.extent;
            let keeps = creation.old is Some && low.width <= kept.width <= high.width && low.height
                <= kept.height <= high.height;
            &&& creation.old is Some ==> current is Some && predecessor == NULL_HANDLE
                && extent.width != 0 && extent.height != 0
            &&& creation.old is None ==> predecessor == creation.info.old_swapchain
            &&& offered.current_extent.width != u32::MAX ==> extent == offered.current_extent
            &&& offered.current_extent.width == u32::MAX ==> {
                &&& low.width <= extent.width <= high.width
                &&& low.height <= extent.height <= high.height
                &&& keeps ==> extent == kept
                &&& !keeps && low.width <= other.width <= high.width ==> distance(
                    extent.width,
                    requested.width,
                ) <= distance(other.width, requested.width)
                &&& !keeps && low.height <= other.height <= high.height ==> distance(
                    extent.height,
                    requested.height,
                ) <= distance(other.height, requested.height)
            }
        }),
{
}

/// A takeover that names the swapchain that it takes over from is placed
/// wherever the surface has an area and bounds that are in order.
pub proof fn a_takeover_finds_its_place(creation: SwapchainCreation, current: SurfaceCapabilities)
    requires
        creation.plan is Some,
        creation.old is Some,
        creation.requested_old == creation.old.unwrap().contract@.logical.handle,
        creation.capabilities matches Some(seen) ==> seen.current_extent.width != u32::MAX || (
        seen.min_image_extent.width <= seen.max_image_extent.width && seen.min_image_extent.height
            <= seen.max_image_extent.height),
        if current.current_extent.width != u32::MAX {
            current.current_extent.width != 0 && current.current_extent.height != 0
        } else {
            &&& 0 < current.min_image_extent.width <= current.max_image_extent.width
            &&& 0 < current.min_image_extent.height <= current.max_image_extent.height
        },
    ensures
        creation.placement(Some(current)) is Ok,
{
}

/// A takeover is placed nowhere without a plan, without capabilities, or with
/// another token than that of the swapchain that it takes over from.
pub proof fn a_takeover_without_ground_is_refused(
    creation: SwapchainCreation,
    current: Option<SurfaceCapabilities>,
)
    requires
        creation.old is Some,
        current is None || creation.plan is None || creation.requested_old
            != creation.old.unwrap().contract@.logical.handle,
    ensures
        creation.placement(current) is Err,
{
}

/// A request with nothing to scale goes down with the extent and the
/// predecessor that it has.
pub proof fn a_direct_request_keeps_its_extent(
    creation: SwapchainCreation,
    current: Option<SurfaceCapabilities>,
)
    requires
        creation.old is None,
        creation.target is None || creation.plan is None,
    ensures
        creation.placement(current) == Ok::<(Extent2D, Handle), VkResult>(
            (creation.requested_extent, creation.info.old_swapchain),
        ),
{
}

/// A live virtual swapchain can be taken over from on its own surface, one
/// takeover at a time; the request then names its downstream swapchain.
pub proof fn takeovers_stay_on_their_surface(layer: LayerModel, info: SwapchainCreateInfo)
    requires
        info.old_swapchain != NULL_HANDLE,
        layer.swapchains.contains_key(info.old_swapchain),
        layer.swapchains[info.old_swapchain].contract is Some,
    ensures
        creation_refusal(layer, info) is None <==> {
            &&& !layer.retired.contains(info.old_swapchain)
            &&& layer.swapchains[info.old_swapchain].lifecycle.active is None
            &&& layer.swapchains[info.old_swapchain].game_surface == info.surface
            &&& !layer.recreating.contains(info.surface)
        },
        creation_refusal(layer, info) matches Some(error) ==> error == ERROR_OUT_OF_DATE_KHR,
        old_swapchain_translated(layer, info.old_swapchain) == Ok::<Handle, VkResult>(
            layer.swapchains[info.old_swapchain].physical_handle,
        ),
{
}

/// A second try asks of the images exactly what the application did, and
/// differs in nothing else. There is one only where the first asked for more.
pub proof fn a_second_try_asks_what_the_application_asked(creation: SwapchainCreation)
    ensures
        creation.modest().image_usage == creation.requested_usage,
        creation.modest() == (SwapchainCreateInfo {
            image_usage: creation.modest().image_usage,
            ..creation.info
        }),
        creation.can_ask_less() ==> creation.modest().image_usage != creation.info.image_usage,
        creation.capture_enabled && creation.requested_usage != creation.info.image_usage
            ==> creation.can_ask_less(),
        !creation.capture_enabled ==> !creation.can_ask_less(),
{
}

/// A new virtual swapchain on a direct surface asks for the whole monitor and
/// waits for it five seconds. One that takes over goes on where the old one
/// stands, and any other stays where its surface is.
pub proof fn a_new_virtual_swapchain_asks_for_its_monitor(
    creation: SwapchainCreation,
    virtualized: bool,
    now: u64,
)
    requires
        now + NEGOTIATION_TIMEOUT <= u64::MAX,
    ensures
        ({
            let stage = creation.first_stage(virtualized, now);
            let before = match creation.surface {
                Some(surface) => surface.negotiation@,
                None => NegotiationStage::Direct,
            };
            match creation.old {
                Some(active) => stage == active.negotiation@,
                None => match creation.target {
                    Some(target) if virtualized && before is Direct && target.monitor.rect.width > 0
                        && target.monitor.rect.height > 0 => {
                        &&& stage is RequestingBorderless
                        &&& stage->RequestingBorderless_target == target.monitor.rect
                        &&& stage->RequestingBorderless_deadline == now + 5_000_000_000
                    },
                    _ => stage == before,
                },
            }
        }),
{
}

/// A swapchain that has an extent and images on both sides promises them: to
/// the application its own images in the extent that it asked for, downstream
/// the images of the first generation in the extent that was placed.
pub proof fn a_virtual_swapchain_promises_both_sides(
    creation: SwapchainCreation,
    handle: Handle,
    physical: Handle,
    image_count: usize,
    stage: NegotiationStage,
)
    requires
        creation.images is Some,
    ensures
        ({
            let promised = creation.first_contract(handle, physical, image_count as nat, stage);
            &&& promised is Some <==> {
                &&& handle != NULL_HANDLE
                &&& physical != NULL_HANDLE
                &&& creation.images.unwrap()@.len() > 0
                &&& image_count > 0
                &&& creation.requested_extent.width > 0
                &&& creation.requested_extent.height > 0
                &&& creation.info.image_extent.width > 0
                &&& creation.info.image_extent.height > 0
            }
            &&& promised matches Some(contract) ==> {
                &&& contract.logical.handle == handle
                &&& contract.logical.images == creation.images.unwrap()@
                &&& contract.logical.game_extent == creation.requested_extent
                &&& contract.physical.id == 0
                &&& contract.physical.handle == physical
                &&& contract.physical.extent == creation.info.image_extent
                &&& contract.physical.image_count == image_count
                &&& contract.physical.present_surface is None
                &&& contract.state == stage.shown()
            }
        }),
{
}

/// A new swapchain starts afresh: no image is handed out, no identifier was
/// presented and no generation was retired. A virtual one has as many slots as
/// images of its own, each of them free.
pub proof fn a_new_swapchain_starts_afresh(
    creation: SwapchainCreation,
    handle: Handle,
    virtualized: bool,
    physical: Handle,
    output_images: Seq<Handle>,
    stage: NegotiationStage,
    state: SwapchainModel,
    slot: int,
)
    requires
        creation.first_state(handle, virtualized, physical, output_images, stage, state),
    ensures
        state.device == creation.device,
        state.game_surface == creation.info.surface,
        state.logical_handle == handle,
        state.physical_handle == physical,
        state.physical_images == output_images,
        state.negotiation == stage,
        state.has_overlay,
        state.generation == 0,
        state.retired_physical_generations.len() == 0,
        state.lifecycle.active is None,
        !state.lifecycle.destroy_requested,
        state.present_ids.pending is None,
        state.present_ids.last_committed is None,
        state.present_ids.routes == Map::<u64, super::present_id::PresentIdRoute>::empty(),
        state.mapping is Some == virtualized,
        state.virtual_images == (if virtualized {
            Some(creation.images.unwrap()@)
        } else {
            None
        }),
        virtualized ==> {
            let mapping = state.mapping.unwrap();
            &&& mapping.bound.len() == creation.images.unwrap()@.len()
            &&& 0 <= slot < mapping.bound.len() ==> mapping.bound[slot] is None
                && !mapping.reserved[slot]
            &&& state.template == Some(creation.plan.unwrap().template@)
        },
        !virtualized ==> state.contract is None && state.template is None,
{
    if virtualized && 0 <= slot < state.mapping.unwrap().bound.len() {
        assert(state.mapping.unwrap().free(slot));
    }
}

/// A promise leaves the window where it is, and a lease of its own replaces
/// the one that the surface had. Every swapchain of the surface that is still
/// shown stands where the surface does.
pub proof fn a_promise_reaches_the_surface_and_its_swapchains(
    creation: SwapchainCreation,
    before: LayerModel,
    after: LayerModel,
    stage: NegotiationStage,
    lease: Option<BorderlessLease>,
    handle: Handle,
)
    requires
        creation.promise_spread(before, after, stage, lease),
    ensures
        before.surfaces.contains_key(creation.info.surface) ==> {
            let was = before.surfaces[creation.info.surface];
            let now = after.surfaces[creation.info.surface];
            &&& after.surfaces.contains_key(creation.info.surface)
            &&& now.window == was.window
            &&& now.logical_extent == Some(creation.requested_extent)
            &&& now.negotiation@ == stage
            &&& now.borderless_lease == (if lease is Some {
                lease
            } else {
                was.borderless_lease
            })
        },
        before.swapchains.contains_key(handle) && before.swapchains[handle].game_surface
            == creation.info.surface && !before.retired.contains(handle) && !(stage is Direct)
            ==> after.swapchains[handle].negotiation == stage,
        before.swapchains.contains_key(handle) && before.swapchains[handle].game_surface
            != creation.info.surface ==> after.swapchains[handle] == before.swapchains[handle],
        before.swapchains.contains_key(handle) == after.swapchains.contains_key(handle),
        after.retired == before.retired,
{
}

/// A swapchain becomes virtual where there is something to scale or to take over
/// from, the request passed, and images stand in for its own.
pub proof fn a_swapchain_becomes_virtual_where_it_can(creation: SwapchainCreation)
    ensures
        creation.can_be_virtual() <==> {
            &&& creation.old is Some || creation.target is Some
            &&& creation.plan is Some
            &&& virtualizable(creation.info)
            &&& creation.images is Some
        },
{
}

/// A promise leaves everything else as it was: which swapchains are retired or
/// being recreated, the tokens to come, and the other surfaces.
pub proof fn a_promise_touches_nothing_else(
    creation: SwapchainCreation,
    before: LayerModel,
    after: LayerModel,
    stage: NegotiationStage,
    lease: Option<BorderlessLease>,
    other: Handle,
)
    requires
        creation.promise_spread(before, after, stage, lease),
    ensures
        after.retired == before.retired,
        after.recreating == before.recreating,
        after.next_logical == before.next_logical,
        other != creation.info.surface ==> after.surfaces.contains_key(other)
            == before.surfaces.contains_key(other),
        other != creation.info.surface && before.surfaces.contains_key(other)
            ==> after.surfaces[other] == before.surfaces[other],
{
}

} // verus!
