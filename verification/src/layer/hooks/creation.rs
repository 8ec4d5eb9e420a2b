//! What a swapchain's creation asks for, and whether it can be virtual.

use vstd::prelude::*;

use super::surface::{apply_logical_extent, locked_to};
use super::swapchain_create::{
    a_chain_says_one_thing, collects, flags_mutable, flags_supported, lacks_base_format,
    mutable_format_requested, supported_swapchain_flags, CreateChainModel,
    SwapchainCompatibilityError, SwapchainCreateChain, SwapchainCreateInfo,
};
use super::wsi_compatibility::DeviceWsiCapabilities;
use crate::capture::{capturable, supported_format};
use crate::config::OutputResolution;
use crate::display::negotiation::{
    NegotiationStage, PresentationNegotiation, PresentationState,
};
use crate::display::{Extent, Monitor, SurfaceExtent, X11Window};
use crate::layer::mapping::{
    reserved_handle, LogicalSwapchainHandle, OldSwapchain, LOGICAL_TAG,
};
use crate::layer::recovery::{ContractModel, LogicalSwapchainContract};
use crate::layer::state::{
    chain_kept, chain_refused, sharing_families, template_of, Layer,
    LayerModel, SwapchainModel, SwapchainState, SwapchainTemplate, X11Surface,
};
use crate::seqs::copy_slice;
use crate::table::lemma_update;
use crate::vk::{
    contains_flags, has_flags, Extent2D, Handle, SurfaceCapabilities, VkResult,
    ERROR_EXTENSION_NOT_PRESENT, ERROR_FEATURE_NOT_PRESENT, ERROR_FORMAT_NOT_SUPPORTED,
    ERROR_INITIALIZATION_FAILED, ERROR_OUT_OF_DATE_KHR, FORMAT_FEATURE_BLIT_DST,
    FORMAT_FEATURE_SAMPLED_IMAGE, IMAGE_CREATE_MUTABLE_FORMAT, IMAGE_USAGE_COLOR_ATTACHMENT,
    IMAGE_USAGE_SAMPLED, IMAGE_USAGE_STORAGE, IMAGE_USAGE_TRANSFER_DST, IMAGE_USAGE_TRANSFER_SRC,
    NULL_HANDLE, PRESENT_MODE_SHARED_CONTINUOUS_REFRESH, PRESENT_MODE_SHARED_DEMAND_REFRESH,
    SHARING_MODE_CONCURRENT,
};

verus! {

/// Images with several layers, or shared between families that are not all
/// named, cannot be virtual.
pub open spec fn image_contract_supported(info: SwapchainCreateInfo) -> bool {
    &&& info.image_array_layers == 1
    &&& info.image_sharing_mode == SHARING_MODE_CONCURRENT ==> info.queue_family_indices is Some
        && info.queue_family_indices.unwrap()@.len() >= 2
}

fn supported_image_contract(info: &SwapchainCreateInfo) -> (supported: bool)
    ensures
        supported == image_contract_supported(*info),
{
    if info.image_array_layers != 1 {
        return false;
    }
    if info.image_sharing_mode == SHARING_MODE_CONCURRENT {
        return match &info.queue_family_indices {
            Some(indices) => indices.len() >= 2,
            None => false,
        };
    }
    true
}

/// Nothing in the request itself keeps it from a virtual swapchain.
pub open spec fn virtualizable(info: SwapchainCreateInfo) -> bool {
    image_contract_supported(info) && exists|chain: CreateChainModel| #[trigger]
        chain_kept(info, chain)
}

/// The request can be served by a virtual swapchain.
pub fn virtual_swapchain_supported(info: &SwapchainCreateInfo) -> (supported: bool)
    ensures
        supported == virtualizable(*info),
{
    if !supported_swapchain_flags(info.flags) || !supported_image_contract(info) {
        return false;
    }
    match SwapchainCreateChain::from_create_info(info) {
        Ok(chain) => {
            assert(chain_kept(*info, chain@));
            true
        },
        Err(error) => {
            proof {
                assert(chain_refused(*info, error));
                assert forall|chain: CreateChainModel| !#[trigger] chain_kept(*info, chain) by {
                    if chain_kept(*info, chain) {
                        a_chain_is_kept_or_refused(*info, chain, error);
                    }
                }
            }
            false
        },
    }
}

/// A request is either kept or refused, never both.
pub proof fn a_chain_is_kept_or_refused(
    info: SwapchainCreateInfo,
    chain: CreateChainModel,
    error: SwapchainCompatibilityError,
)
    requires
        chain_kept(info, chain),
    ensures
        !chain_refused(info, error),
{
    if chain_refused(info, error) {
        let model = choose|model: CreateChainModel| #[trigger]
            collects(info.chain@, model)
                && lacks_base_format(
                info.flags,
                info.image_format,
                model.view_formats,
            );
        a_chain_says_one_thing(info.chain@, chain, model);
    }
}

/// The application's image count, or the downstream one where it named none.
pub fn logical_image_count(requested: u32, physical: usize) -> (count: usize)
    ensures
        count == (if requested != 0 {
            requested as usize
        } else {
            physical
        }),
{
    let wanted: usize = requested as usize;
    if wanted != 0 {
        wanted
    } else {
        physical
    }
}

pub fn preflight_logical_image_count(requested: u32) -> (count: Option<usize>)
    ensures
        count == (if requested != 0 {
            Some(requested as usize)
        } else {
            None
        }),
{
    if requested != 0 {
        Some(requested as usize)
    } else {
        None
    }
}

/// What a virtual swapchain is made from.
#[derive(Debug)]
pub struct SwapchainVirtualizationPlan {
    pub template: SwapchainTemplate,
    pub image_flags: u32,
    pub view_formats: Vec<i32>,
}

/// The usage that the layer needs of every image.
pub const NEEDED_USAGE: u32 = 0x1b;

/// The format features that the layer needs.
pub const NEEDED_FEATURES: u32 = 0x801;

/// The layer needs to copy from and to an image, to draw into it and to store
/// into it; to sample the format and to blit into it.
pub proof fn needed_flags()
    ensures
        NEEDED_USAGE == IMAGE_USAGE_TRANSFER_SRC | IMAGE_USAGE_TRANSFER_DST
            | IMAGE_USAGE_COLOR_ATTACHMENT | IMAGE_USAGE_STORAGE,
        NEEDED_FEATURES == FORMAT_FEATURE_SAMPLED_IMAGE | FORMAT_FEATURE_BLIT_DST,
{
    assert(0x1bu32 == 0x1u32 | 0x2u32 | 0x10u32 | 0x8u32) by (bit_vector);
    assert(0x801u32 == 0x1u32 | 0x800u32) by (bit_vector);
}

/// Modes in which the application and the screen share one image.
pub open spec fn shared_present_mode(mode: i32) -> bool {
    mode == PRESENT_MODE_SHARED_DEMAND_REFRESH || mode == PRESENT_MODE_SHARED_CONTINUOUS_REFRESH
}

/// What rules a request out before its chain is read, in the order in which
/// it is looked at; `None` where nothing does.
pub open spec fn preflight_refusal(
    wsi: DeviceWsiCapabilities,
    info: SwapchainCreateInfo,
    capabilities: Option<SurfaceCapabilities>,
    format_features: u32,
) -> Option<VkResult> {
    if !image_contract_supported(info) {
        Some(ERROR_FEATURE_NOT_PRESENT)
    } else if flags_supported(info.flags) && flags_mutable(info.flags) && !wsi.mutable_format {
        Some(ERROR_EXTENSION_NOT_PRESENT)
    } else if flags_supported(info.flags) && (!capturable(info.image_format, info.image_color_space)
        || shared_present_mode(info.present_mode)) {
        Some(ERROR_FORMAT_NOT_SUPPORTED)
    } else if flags_supported(info.flags) && capabilities is None {
        Some(ERROR_INITIALIZATION_FAILED)
    } else if flags_supported(info.flags) && (!has_flags(
        capabilities.unwrap().supported_usage_flags,
        NEEDED_USAGE,
    ) || !has_flags(format_features, NEEDED_FEATURES) || info.min_image_count == 0) {
        Some(ERROR_FEATURE_NOT_PRESENT)
    } else {
        None
    }
}

/// The error that a preflight gives.
pub open spec fn preflight_fails(
    wsi: DeviceWsiCapabilities,
    info: SwapchainCreateInfo,
    capabilities: Option<SurfaceCapabilities>,
    format_features: u32,
    error: SwapchainCompatibilityError,
) -> bool {
    match wsi.incompatible {
        Some(incompatible) => match error {
            SwapchainCompatibilityError::MalformedExtensionNames => incompatible.name@.len() == 0,
            SwapchainCompatibilityError::IncompatibleWsiExtension { name, reason } => {
                incompatible.name@.len() > 0 && name@ == incompatible.name@ && reason@
                    == incompatible.reason@
            },
            _ => false,
        },
        None => match preflight_refusal(wsi, info, capabilities, format_features) {
            Some(code) => error == SwapchainCompatibilityError::UnsupportedImageContract(code),
            None => chain_refused(info, error),
        },
    }
}

/// What a preflight that finds nothing to refuse makes of a request.
pub open spec fn preflight_passes(
    wsi: DeviceWsiCapabilities,
    info: SwapchainCreateInfo,
    capabilities: Option<SurfaceCapabilities>,
    format_features: u32,
    plan: SwapchainVirtualizationPlan,
) -> bool {
    let chain = plan.template@.create_chain;
    &&& wsi.incompatible is None
    &&& preflight_refusal(wsi, info, capabilities, format_features) is None
    &&& chain_kept(info, chain)
    &&& plan.template@ == template_of(info, chain)
    &&& plan.image_flags == (if flags_mutable(info.flags) {
        IMAGE_CREATE_MUTABLE_FORMAT
    } else {
        0
    })
    &&& plan.view_formats@ == (match chain.view_formats {
        Some(formats) => formats,
        None => Seq::empty(),
    })
}

/// Decides whether a request can be virtual on a device, before anything is
/// made for it.
pub fn preflight_swapchain_virtualization(
    wsi: &DeviceWsiCapabilities,
    info: &SwapchainCreateInfo,
    capabilities: Option<SurfaceCapabilities>,
    format_features: u32,
) -> (result: Result<SwapchainVirtualizationPlan, SwapchainCompatibilityError>)
    ensures
        match result {
            Ok(plan) => preflight_passes(*wsi, *info, capabilities, format_features, plan),
            Err(error) => preflight_fails(*wsi, *info, capabilities, format_features, error),
        },
{
    if let Some(incompatible) = &wsi.incompatible {
        return Err(SwapchainCompatibilityError::from_wsi(incompatible));
    }
    if !supported_image_contract(info) {
        return Err(
            SwapchainCompatibilityError::UnsupportedImageContract(ERROR_FEATURE_NOT_PRESENT),
        );
    }
    if !supported_swapchain_flags(info.flags) {
        return Err(SwapchainCompatibilityError::UnsupportedFlags { bits: info.flags });
    }
    if mutable_format_requested(info.flags) && !wsi.mutable_format {
        return Err(
            SwapchainCompatibilityError::UnsupportedImageContract(ERROR_EXTENSION_NOT_PRESENT),
        );
    }
    if !supported_format(info.image_format, info.image_color_space) || info.present_mode
        == PRESENT_MODE_SHARED_DEMAND_REFRESH || info.present_mode
        == PRESENT_MODE_SHARED_CONTINUOUS_REFRESH {
        return Err(
            SwapchainCompatibilityError::UnsupportedImageContract(ERROR_FORMAT_NOT_SUPPORTED),
        );
    }
    let offered: SurfaceCapabilities = match capabilities {
        Some(offered) => offered,
        None => {
            return Err(
                SwapchainCompatibilityError::UnsupportedImageContract(ERROR_INITIALIZATION_FAILED),
            );
        },
    };
    if !contains_flags(offered.supported_usage_flags, NEEDED_USAGE) || !contains_flags(
        format_features,
        NEEDED_FEATURES,
    ) || preflight_logical_image_count(info.min_image_count).is_none() {
        return Err(
            SwapchainCompatibilityError::UnsupportedImageContract(ERROR_FEATURE_NOT_PRESENT),
        );
    }
    let template: SwapchainTemplate = match SwapchainTemplate::from_create_info(info) {
        Ok(template) => template,
        Err(error) => {
            return Err(error);
        },
    };
    let image_flags: u32 = if mutable_format_requested(info.flags) {
        IMAGE_CREATE_MUTABLE_FORMAT
    } else {
        0
    };
    let view_formats: Vec<i32> = match &template.create_chain.view_formats {
        Some(formats) => copy_slice(formats.as_slice()),
        None => Vec::new(),
    };
    assert(view_formats@ =~= (match template@.create_chain.view_formats {
        Some(formats) => formats,
        None => Seq::empty(),
    }));
    Ok(SwapchainVirtualizationPlan { template, image_flags, view_formats })
}

/// The images that stand in for those of the swapchain.
#[derive(Debug)]
pub struct LogicalImageRequest {
    pub count: usize,
    pub extent: Extent2D,
    pub format: i32,
    pub usage: u32,
    pub image_flags: u32,
    pub view_formats: Vec<i32>,
    pub queue_family_indices: Vec<u32>,
}

/// What to allocate for the application: images of the extent and format that
/// it asked for, usable for what it and the layer need.
pub fn logical_image_request(
    info: &SwapchainCreateInfo,
    requested_usage: u32,
    plan: &SwapchainVirtualizationPlan,
    count: usize,
) -> (request: LogicalImageRequest)
    ensures
        request.count == count,
        request.extent == info.image_extent,
        request.format == info.image_format,
        request.usage == requested_usage | NEEDED_USAGE | IMAGE_USAGE_SAMPLED,
        request.image_flags == plan.image_flags,
        request.view_formats@ == plan.view_formats@,
        request.queue_family_indices@ == sharing_families(*info),
{
    let mut queue_family_indices: Vec<u32> = Vec::new();
    if info.image_sharing_mode == SHARING_MODE_CONCURRENT {
        if let Some(indices) = &info.queue_family_indices {
            queue_family_indices = copy_slice(indices.as_slice());
        }
    }
    assert(queue_family_indices@ =~= sharing_families(*info));
    LogicalImageRequest {
        count,
        extent: info.image_extent,
        format: info.image_format,
        usage: requested_usage | NEEDED_USAGE | IMAGE_USAGE_SAMPLED,
        image_flags: plan.image_flags,
        view_formats: copy_slice(plan.view_formats.as_slice()),
        queue_family_indices,
    }
}

/// A swapchain that takes over its surface's negotiation.
pub open spec fn negotiation_taken(
    state: SwapchainModel,
    negotiation: NegotiationStage,
) -> SwapchainModel {
    SwapchainModel {
        negotiation,
        contract: match state.contract {
            Some(contract) => Some(ContractModel { state: negotiation.shown(), ..contract }),
            None => None,
        },
        ..state
    }
}

/// A failed virtual swapchain stays failed when its surface turns direct.
pub open spec fn keeps_failure(state: SwapchainModel, negotiation: NegotiationStage) -> bool {
    &&& negotiation.shown() == PresentationState::Direct
    &&& state.contract matches Some(contract)
    &&& contract.state == PresentationState::Failed
}

/// Every swapchain on the surface takes the negotiation over, except retired
/// ones and those that keep their failure.
pub open spec fn negotiation_published(
    layer: LayerModel,
    surface: Handle,
    negotiation: NegotiationStage,
) -> Map<Handle, SwapchainModel> {
    Map::new(
        |handle: Handle| layer.swapchains.contains_key(handle),
        |handle: Handle|
            {
                let state = layer.swapchains[handle];
                if layer.retired.contains(handle) || state.game_surface != surface || keeps_failure(
                    state,
                    negotiation,
                ) {
                    state
                } else {
                    negotiation_taken(state, negotiation)
                }
            },
    )
}

/// The surfaces after one of them got a negotiation.
pub open spec fn surface_negotiates(
    surfaces: Map<Handle, X11Surface>,
    surface: Handle,
    negotiation: PresentationNegotiation,
) -> Map<Handle, X11Surface> {
    if surfaces.contains_key(surface) {
        surfaces.insert(surface, X11Surface { negotiation, ..surfaces[surface] })
    } else {
        surfaces
    }
}

fn take_negotiation(state: &mut SwapchainState, negotiation: PresentationNegotiation)
    requires
        old(state)@.wf(),
    ensures
        final(state)@.wf(),
        final(state)@ == (if keeps_failure(old(state)@, negotiation@) {
            old(state)@
        } else {
            negotiation_taken(old(state)@, negotiation@)
        }),
{
    let shown: PresentationState = negotiation.public_state();
    let failed: bool = match &state.contract {
        Some(contract) => contract.is_failed(),
        None => false,
    };
    if shown == PresentationState::Direct && failed {
        return;
    }
    state.negotiation = negotiation;
    if let Some(contract) = &mut state.contract {
        contract.set_state(shown);
    }
}

/// Makes a negotiation that of a surface and of the swapchains on it.
pub fn publish_negotiation(
    layer: &mut Layer,
    surface: Handle,
    negotiation: PresentationNegotiation,
)
    requires
        old(layer).wf(),
    ensures
        final(layer).wf(),
        final(layer)@ == (LayerModel {
            swapchains: negotiation_published(old(layer)@, surface, negotiation@),
            surfaces: surface_negotiates(old(layer)@.surfaces, surface, negotiation),
            ..old(layer)@
        }),
{
    let ghost model = layer@;
    if let Some(index) = layer.surfaces.find(surface) {
        let ghost keys = layer.surfaces.key_seq();
        let ghost values = layer.surfaces.value_seq();
        let state: &mut X11Surface = layer.surfaces.at_mut(index);
        state.negotiation = negotiation;
        proof {
            lemma_update(keys, values, index as int, layer.surfaces.value_seq()[index as int]);
        }
    }
    let ghost entry = layer.swapchains;
    let ghost surfaces = layer.surfaces;
    let ghost retired = layer.retired;
    assert forall|i: int| 0 <= i < entry.key_seq().len() implies (
    #[trigger] entry.value_seq()[i])@.wf() by {
        entry.lemma_at(i);
        assert(model.swapchains.contains_key(entry.key_seq()[i]));
        assert(model.swapchains[entry.key_seq()[i]] == entry.value_seq()[i]@);
    }
    let mut index: usize = 0;
    while index < layer.swapchains.len()
        invariant
            layer.swapchains.wf(),
            entry.wf(),
            layer.surfaces == surfaces,
            layer.retired == retired,
            retired@ == model.retired,
            layer.recreating == old(layer).recreating,
            layer.next_logical == old(layer).next_logical,
            layer.swapchains.key_seq() == entry.key_seq(),
            layer.swapchains.value_seq().len() == entry.value_seq().len(),
            index <= entry.key_seq().len(),
            forall|i: int|
                0 <= i < entry.key_seq().len() ==> (#[trigger] entry.value_seq()[i])@.wf(),
            forall|i: int|
                0 <= i < index ==> (#[trigger] layer.swapchains.value_seq()[i])@ == (
                if model.retired.contains(entry.key_seq()[i])
                    || entry.value_seq()[i]@.game_surface != surface || keeps_failure(
                    entry.value_seq()[i]@,
                    negotiation@,
                ) {
                    entry.value_seq()[i]@
                } else {
                    negotiation_taken(entry.value_seq()[i]@, negotiation@)
                }),
            forall|i: int|
                index <= i < entry.key_seq().len() ==> #[trigger] layer.swapchains.value_seq()[i]
                    == entry.value_seq()[i],
        decreases entry.key_seq().len() - index,
    {
        assert(layer.swapchains.value_seq()[index as int] == entry.value_seq()[index as int]);
        let handle: Handle = layer.swapchains.key_at(index);
        if !layer.retired.contains(&handle) {
            let state: &mut SwapchainState = layer.swapchains.at_mut(index);
            if state.game_surface == surface {
                take_negotiation(state, negotiation);
            }
        }
        index = index + 1;
    }
    proof {
        let published = negotiation_published(model, surface, negotiation@);
        assert forall|handle: Handle| model.swapchains.contains_key(handle) implies
            layer@.swapchains.contains_key(handle) && layer@.swapchains[handle]
            == published[handle] by {
            let i = entry.key_seq().index_of(handle);
            assert(entry.key_seq()[i] == handle);
            entry.lemma_at(i);
            layer.swapchains.lemma_at(i);
            assert(layer.swapchains.value_seq()[i]@ == layer@.swapchains[handle]);
        }
        assert(layer@.swapchains =~= published);
        assert(layer@.wf()) by {
            assert forall|handle: Handle| #[trigger] layer@.swapchains.contains_key(
                handle,
            ) implies layer@.swapchains[handle].wf()
                && layer@.swapchains[handle].logical_handle == handle by {
                assert(model.swapchains[handle].wf());
            }
        }
    }
}

/// The downstream swapchain that a request's predecessor stands for; an
/// unknown or retired token has none.
pub open spec fn old_swapchain_translated(layer: LayerModel, logical: Handle) -> Result<
    Handle,
    VkResult,
> {
    if logical == NULL_HANDLE {
        Ok(logical)
    } else if layer.swapchains.contains_key(logical) {
        Ok(layer.swapchains[logical].physical_handle)
    } else if layer.retired.contains(logical) || reserved_handle(logical) {
        Err(ERROR_OUT_OF_DATE_KHR)
    } else {
        Ok(logical)
    }
}

pub fn translate_old_swapchain(layer: &Layer, logical: Handle) -> (result: Result<
    Handle,
    VkResult,
>)
    requires
        layer.wf(),
    ensures
        result == old_swapchain_translated(layer@, logical),
{
    if logical == NULL_HANDLE {
        return Ok(logical);
    }
    match layer.swapchains.get(logical) {
        Some(state) => {
            assert(layer@.swapchains.contains_key(logical));
            assert(layer@.swapchains[logical] == state@);
            match OldSwapchain::translate(
                Some(state.logical_handle),
                state.logical_handle,
                state.physical_handle,
            ) {
                Some(physical) => Ok(physical),
                None => Ok(logical),
            }
        },
        None => {
            if layer.is_retired_swapchain(logical) || layer.is_unknown_logical_swapchain(logical) {
                return Err(ERROR_OUT_OF_DATE_KHR);
            }
            Ok(logical)
        },
    }
}

/// A virtual swapchain that a request names as its predecessor.
#[derive(Debug)]
pub struct ActiveLogicalSwapchain {
    pub surface: Handle,
    pub contract: LogicalSwapchainContract,
    pub negotiation: PresentationNegotiation,
}

pub fn active_logical_swapchain(layer: &Layer, logical: Handle) -> (active: Option<
    ActiveLogicalSwapchain,
>)
    requires
        layer.wf(),
    ensures
        match active {
            Some(swapchain) => {
                &&& logical != NULL_HANDLE
                &&& layer@.swapchains.contains_key(logical)
                &&& layer@.swapchains[logical].contract == Some(swapchain.contract@)
                &&& swapchain.surface == layer@.swapchains[logical].game_surface
                &&& swapchain.negotiation@ == layer@.swapchains[logical].negotiation
            },
            None => logical == NULL_HANDLE || !layer@.swapchains.contains_key(logical)
                || layer@.swapchains[logical].contract is None,
        },
{
    if logical == NULL_HANDLE {
        return None;
    }
    match layer.swapchains.get(logical) {
        None => None,
        Some(state) => {
            assert(layer@.swapchains[logical] == state@);
            match &state.contract {
                None => None,
                Some(contract) => Some(
                    ActiveLogicalSwapchain {
                        surface: state.game_surface,
                        contract: contract.duplicate(),
                        negotiation: state.negotiation,
                    },
                ),
            }
        },
    }
}

pub open spec fn as_extent(extent: Extent2D) -> Extent {
    Extent { width: extent.width, height: extent.height }
}

pub fn surface_extent_accepts(surface: SurfaceExtent, target: Extent2D) -> (accepted: bool)
    ensures
        accepted == surface.takes(as_extent(target)),
{
    match surface {
        SurfaceExtent::Fixed(extent) => extent.width == target.width && extent.height
            == target.height,
        SurfaceExtent::Range { minimum, maximum } => target.width >= minimum.width && target.width
            <= maximum.width && target.height >= minimum.height && target.height <= maximum.height,
    }
}

/// A range whose bounds are in order; one extent always is.
pub open spec fn bounds_ordered(surface: SurfaceExtent) -> bool {
    surface matches SurfaceExtent::Range { minimum, maximum } ==> minimum.width <= maximum.width
        && minimum.height <= maximum.height
}

pub fn are_bounds_ordered(surface: SurfaceExtent) -> (ordered: bool)
    ensures
        ordered == bounds_ordered(surface),
{
    match surface {
        SurfaceExtent::Fixed(_) => true,
        SurfaceExtent::Range { minimum, maximum } => minimum.width <= maximum.width
            && minimum.height <= maximum.height,
    }
}

pub open spec fn clamped(value: u32, minimum: u32, maximum: u32) -> u32 {
    if value < minimum {
        minimum
    } else if value > maximum {
        maximum
    } else {
        value
    }
}

fn clamp(value: u32, minimum: u32, maximum: u32) -> (r: u32)
    ensures
        r == clamped(value, minimum, maximum),
{
    if value < minimum {
        minimum
    } else if value > maximum {
        maximum
    } else {
        value
    }
}

/// The extent nearest to the requested one that a surface takes.
pub open spec fn nearest_extent(requested: Extent2D, surface: SurfaceExtent) -> Extent2D {
    match surface {
        SurfaceExtent::Fixed(extent) => Extent2D { width: extent.width, height: extent.height },
        SurfaceExtent::Range { minimum, maximum } => Extent2D {
            width: clamped(requested.width, minimum.width, maximum.width),
            height: clamped(requested.height, minimum.height, maximum.height),
        },
    }
}

/// The extent of the first downstream generation: the request's own, or for a
/// virtual swapchain the nearest that the surface takes.
pub fn initial_physical_extent(
    requested: Extent2D,
    surface_extent: SurfaceExtent,
    virtual_eligible: bool,
) -> (extent: Extent2D)
    requires
        virtual_eligible ==> bounds_ordered(surface_extent),
    ensures
        extent == (if virtual_eligible {
            nearest_extent(requested, surface_extent)
        } else {
            requested
        }),
{
    if !virtual_eligible {
        return requested;
    }
    match surface_extent {
        SurfaceExtent::Fixed(extent) => Extent2D { width: extent.width, height: extent.height },
        SurfaceExtent::Range { minimum, maximum } => Extent2D {
            width: clamp(requested.width, minimum.width, maximum.width),
            height: clamp(requested.height, minimum.height, maximum.height),
        },
    }
}

/// The nearest extent is one that the surface takes.
pub proof fn the_nearest_extent_is_accepted(requested: Extent2D, surface: SurfaceExtent)
    requires
        bounds_ordered(surface),
    ensures
        surface.takes(as_extent(nearest_extent(requested, surface))),
        surface.takes(as_extent(requested)) ==> nearest_extent(requested, surface) == requested,
{
}

/// The extent of a generation that takes over from another: that of the old
/// one where the surface still takes it, else the nearest to the request.
pub open spec fn successor_extent(
    requested: Extent2D,
    current: Extent2D,
    surface: SurfaceExtent,
) -> Extent2D {
    match surface {
        SurfaceExtent::Range { .. } if surface.takes(as_extent(current)) => current,
        _ => nearest_extent(requested, surface),
    }
}

/// Where the downstream swapchain of a recreated virtual one goes.
pub open spec fn recreation_placed(
    old_swapchain: Handle,
    image_extent: Extent2D,
    old_contract: ContractModel,
    downstream_extent: SurfaceExtent,
) -> Result<(Extent2D, Handle), VkResult> {
    let extent = successor_extent(image_extent, old_contract.physical.extent, downstream_extent);
    if old_swapchain != old_contract.logical.handle {
        Err(ERROR_OUT_OF_DATE_KHR)
    } else if extent.width == 0 || extent.height == 0 {
        Err(ERROR_INITIALIZATION_FAILED)
    } else {
        Ok((extent, NULL_HANDLE))
    }
}

/// Places the downstream swapchain of a recreated virtual one. The previous
/// generation stays active and is not named as predecessor: naming it would
/// retire it in the driver, and waits for identifiers presented to it would
/// become invalid.
pub fn translate_recreation_create_info(
    logical_info: &SwapchainCreateInfo,
    old_contract: &LogicalSwapchainContract,
    downstream_extent: SurfaceExtent,
) -> (result: Result<(Extent2D, Handle), VkResult>)
    requires
        bounds_ordered(downstream_extent),
    ensures
        result == recreation_placed(
            logical_info.old_swapchain,
            logical_info.image_extent,
            old_contract@,
            downstream_extent,
        ),
{
    place_recreation(
        logical_info.old_swapchain,
        logical_info.image_extent,
        old_contract,
        downstream_extent,
    )
}

pub(crate) fn place_recreation(
    old_swapchain: Handle,
    image_extent: Extent2D,
    old_contract: &LogicalSwapchainContract,
    downstream_extent: SurfaceExtent,
) -> (result: Result<(Extent2D, Handle), VkResult>)
    requires
        bounds_ordered(downstream_extent),
    ensures
        result == recreation_placed(
            old_swapchain,
            image_extent,
            old_contract@,
            downstream_extent,
        ),
{
    if old_swapchain != old_contract.handle() {
        return Err(ERROR_OUT_OF_DATE_KHR);
    }
    let current: Extent2D = old_contract.generation().extent();
    let physical_extent: Extent2D = match downstream_extent {
        SurfaceExtent::Fixed(extent) => Extent2D { width: extent.width, height: extent.height },
        SurfaceExtent::Range { minimum, maximum } => if surface_extent_accepts(
            downstream_extent,
            current,
        ) {
            current
        } else {
            Extent2D {
                width: clamp(image_extent.width, minimum.width, maximum.width),
                height: clamp(image_extent.height, minimum.height, maximum.height),
            }
        },
    };
    if physical_extent.width == 0 || physical_extent.height == 0 || !surface_extent_accepts(
        downstream_extent,
        physical_extent,
    ) {
        return Err(ERROR_INITIALIZATION_FAILED);
    }
    Ok((physical_extent, NULL_HANDLE))
}

/// A handle that some swapchain is known by, to the application or downstream.
pub open spec fn handle_taken(layer: LayerModel, candidate: Handle) -> bool {
    layer.swapchains.contains_key(candidate) || exists|handle: Handle|
        layer.swapchains.contains_key(handle) && (
        #[trigger] layer.swapchains[handle]).physical_handle == candidate
}

fn is_handle_taken(layer: &Layer, candidate: Handle) -> (taken: bool)
    requires
        layer.wf(),
    ensures
        taken == handle_taken(layer@, candidate),
{
    let mut index: usize = 0;
    while index < layer.swapchains.len()
        invariant
            layer.wf(),
            index <= layer.swapchains.key_seq().len(),
            forall|i: int|
                0 <= i < index ==> #[trigger] layer.swapchains.key_seq()[i] != candidate
                    && layer.swapchains.value_seq()[i]@.physical_handle != candidate,
        decreases layer.swapchains.key_seq().len() - index,
    {
        proof {
            layer.swapchains.lemma_at(index as int);
            let handle = layer.swapchains.key_seq()[index as int];
            assert(layer@.swapchains.contains_key(handle));
            assert(layer@.swapchains[handle] == layer.swapchains.value_seq()[index as int]@);
        }
        if layer.swapchains.key_at(index) == candidate || layer.swapchains.at(
            index,
        ).physical_handle == candidate {
            return true;
        }
        index = index + 1;
    }
    proof {
        assert forall|handle: Handle| layer@.swapchains.contains_key(handle) implies handle
            != candidate && (#[trigger] layer@.swapchains[handle]).physical_handle
            != candidate by {
            let i = layer.swapchains.key_seq().index_of(handle);
            assert(layer.swapchains.key_seq()[i] == handle);
            layer.swapchains.lemma_at(i);
            assert(layer@.swapchains[handle] == layer.swapchains.value_seq()[i]@);
        }
        if layer@.swapchains.contains_key(candidate) {
            assert(layer@.swapchains[candidate].physical_handle != candidate);
        }
    }
    false
}

/// The handle that a counter names.
pub open spec fn counter_handle(counter: int) -> Handle {
    (LOGICAL_TAG + (counter % 0x1_0000_0000_0000_0000) % (LOGICAL_TAG as int)) as u64
}

/// How many counters are tried for a logical handle.
pub const HANDLE_ATTEMPTS: u32 = 1024;

/// What the search for a logical handle comes to: the first counter whose
/// handle is not taken is used up, with all before it. Where the driver hands
/// out handles of the reserved namespace nothing is tried.
pub open spec fn logical_allocated(
    before: LayerModel,
    after: LayerModel,
    physical: Handle,
    logical: Option<Handle>,
) -> bool {
    &&& after == (LayerModel { next_logical: after.next_logical, ..before })
    &&& match logical {
        Some(handle) => {
            &&& !reserved_handle(physical)
            &&& !handle_taken(before, handle)
            &&& exists|used: int|
                {
                    &&& 0 <= used < HANDLE_ATTEMPTS
                    &&& handle == #[trigger] counter_handle(before.next_logical + used)
                    &&& forall|earlier: int|
                        0 <= earlier < used ==> handle_taken(
                            before,
                            #[trigger] counter_handle(before.next_logical + earlier),
                        )
                    &&& after.next_logical == (before.next_logical + used + 1)
                        % 0x1_0000_0000_0000_0000
                }
        },
        None => if reserved_handle(physical) {
            after.next_logical == before.next_logical
        } else {
            &&& forall|used: int|
                0 <= used < HANDLE_ATTEMPTS ==> handle_taken(
                    before,
                    #[trigger] counter_handle(before.next_logical + used),
                )
            &&& after.next_logical == (before.next_logical + HANDLE_ATTEMPTS)
                % 0x1_0000_0000_0000_0000
        },
    }
}

/// Finds an unused logical handle for a new virtual swapchain. A driver that
/// hands out handles of the reserved namespace gets none: a physical handle
/// must never be taken for a logical identity.
pub fn allocate_logical_swapchain(layer: &mut Layer, physical: Handle) -> (logical: Option<Handle>)
    requires
        old(layer).wf(),
    ensures
        final(layer).wf(),
        logical_allocated(old(layer)@, final(layer)@, physical, logical),
{
    if LogicalSwapchainHandle::is_reserved(physical) {
        return None;
    }
    let ghost first = layer.next_logical;
    let mut attempts: u32 = 0;
    while attempts < HANDLE_ATTEMPTS
        invariant
            layer.wf(),
            first == old(layer).next_logical,
            !reserved_handle(physical),
            attempts <= HANDLE_ATTEMPTS,
            layer.swapchains == old(layer).swapchains,
            layer.surfaces == old(layer).surfaces,
            layer.retired == old(layer).retired,
            layer.recreating == old(layer).recreating,
            layer.next_logical == (first + attempts) % 0x1_0000_0000_0000_0000,
            forall|used: int|
                0 <= used < attempts ==> handle_taken(
                    old(layer)@,
                    #[trigger] counter_handle(first + used),
                ),
        decreases HANDLE_ATTEMPTS - attempts,
    {
        let counter: u64 = layer.next_logical;
        layer.next_logical =
        if counter == u64::MAX {
            0
        } else {
            counter + 1
        };
        let candidate: Handle = LogicalSwapchainHandle::from_counter(counter).raw();
        assert(candidate == counter_handle(first + attempts));
        if !is_handle_taken(layer, candidate) {
            proof {
                assert(candidate == counter_handle(old(layer)@.next_logical + attempts));
                assert(layer@ =~= (LayerModel {
                    next_logical: layer.next_logical,
                    ..old(layer)@
                }));
            }
            return Some(candidate);
        }
        attempts = attempts + 1;
    }
    assert(layer@ =~= (LayerModel { next_logical: layer.next_logical, ..old(layer)@ }));
    None
}

/// Numbers that are a multiple of the tag apart leave the same remainder.
proof fn lemma_same_remainder(x: int, y: int, times: int)
    requires
        x == y + 0x8000_0000_0000_0000 * times,
    ensures
        x % 0x8000_0000_0000_0000 == y % 0x8000_0000_0000_0000,
{
    vstd::arithmetic::div_mod::lemma_mod_multiples_vanish(times, y, 0x8000_0000_0000_0000);
}

proof fn lemma_counter_folds(counter: int)
    ensures
        (counter % 0x1_0000_0000_0000_0000) % 0x8000_0000_0000_0000 == counter
            % 0x8000_0000_0000_0000,
{
    let times = counter / 0x1_0000_0000_0000_0000;
    lemma_same_remainder(counter % 0x1_0000_0000_0000_0000, counter, -2 * times);
}

/// Numbers less than the tag apart leave different remainders.
proof fn lemma_remainders_differ(x: int, apart: int)
    requires
        0 < apart < 0x8000_0000_0000_0000,
    ensures
        x % 0x8000_0000_0000_0000 != (x + apart) % 0x8000_0000_0000_0000,
{
    let low = x / 0x8000_0000_0000_0000;
    let high = (x + apart) / 0x8000_0000_0000_0000;
    assert(x == 0x8000_0000_0000_0000 * low + x % 0x8000_0000_0000_0000);
    assert(x + apart == 0x8000_0000_0000_0000 * high + (x + apart) % 0x8000_0000_0000_0000);
}

#[verifier::spinoff_prover]
proof fn lemma_counters_differ(start: int, used: int, between: int, again: int)
    requires
        0 <= between < LOGICAL_TAG - HANDLE_ATTEMPTS,
        0 <= again < HANDLE_ATTEMPTS,
    ensures
        counter_handle(start + used) != counter_handle(
            ((start + used + 1) % 0x1_0000_0000_0000_0000 + between) % 0x1_0000_0000_0000_0000
                + again,
        ),
{
    let first = start + used;
    let wrapped = (first + 1) % 0x1_0000_0000_0000_0000;
    let later = (wrapped + between) % 0x1_0000_0000_0000_0000;
    let second = first + (1 + between + again);
    let once = (first + 1) / 0x1_0000_0000_0000_0000;
    let twice = (wrapped + between) / 0x1_0000_0000_0000_0000;
    lemma_counter_folds(first);
    lemma_counter_folds(later + again);
    lemma_same_remainder(later + again, second, -2 * once - 2 * twice);
    lemma_remainders_differ(first, 1 + between + again);
}

/// A logical handle is never handed out twice: whatever happens to the layer's
/// tables between two searches, the second finds another handle, unless the
/// counter has gone all the way round in between.
pub proof fn logical_handles_are_never_used_twice(
    before: LayerModel,
    after: LayerModel,
    later: LayerModel,
    latest: LayerModel,
    first_physical: Handle,
    second_physical: Handle,
    first: Handle,
    second: Handle,
    between: int,
)
    requires
        logical_allocated(before, after, first_physical, Some(first)),
        later.next_logical == (after.next_logical + between) % 0x1_0000_0000_0000_0000,
        0 <= between < LOGICAL_TAG - HANDLE_ATTEMPTS,
        logical_allocated(later, latest, second_physical, Some(second)),
    ensures
        first != second,
{
    let used = choose|used: int|
        {
            &&& 0 <= used < HANDLE_ATTEMPTS
            &&& first == #[trigger] counter_handle(before.next_logical + used)
            &&& after.next_logical == (before.next_logical + used + 1) % 0x1_0000_0000_0000_0000
        };
    let again = choose|again: int|
        {
            &&& 0 <= again < HANDLE_ATTEMPTS
            &&& second == #[trigger] counter_handle(later.next_logical + again)
        };
    lemma_counters_differ(before.next_logical as int, used, between, again);
}

/// A handle that was found for a new virtual swapchain is of the reserved
/// namespace, unless the counter behind it is a multiple of the tag.
pub proof fn allocated_handles_are_reserved(counter: int)
    requires
        counter >= 0,
        (counter % 0x1_0000_0000_0000_0000) % (LOGICAL_TAG as int) != 0,
    ensures
        reserved_handle(counter_handle(counter)),
{
}

/// The extents that a surface takes, as its capabilities say: the current
/// one, or a range where there is none.
pub open spec fn offered_extent(capabilities: SurfaceCapabilities) -> SurfaceExtent {
    if capabilities.current_extent.width != u32::MAX {
        SurfaceExtent::Fixed(as_extent(capabilities.current_extent))
    } else {
        SurfaceExtent::Range {
            minimum: as_extent(capabilities.min_image_extent),
            maximum: as_extent(capabilities.max_image_extent),
        }
    }
}

pub fn surface_extent(capabilities: SurfaceCapabilities) -> (extent: SurfaceExtent)
    ensures
        extent == offered_extent(capabilities),
{
    if capabilities.current_extent.width != u32::MAX {
        SurfaceExtent::fixed(
            Extent::new(capabilities.current_extent.width, capabilities.current_extent.height),
        )
    } else {
        SurfaceExtent::Range {
            minimum: Extent::new(
                capabilities.min_image_extent.width,
                capabilities.min_image_extent.height,
            ),
            maximum: Extent::new(
                capabilities.max_image_extent.width,
                capabilities.max_image_extent.height,
            ),
        }
    }
}

/// A failed replacement goes back to the old generation unless the
/// application destroyed the swapchain meanwhile.
pub fn native_generation_failure_can_restore(destroy_requested: bool) -> (restores: bool)
    ensures
        restores == !destroy_requested,
{
    !destroy_requested
}

/// The window and the monitor that a swapchain is to cover.
#[derive(Debug, Clone, Copy, PartialEq, Eq, Structural)]
pub struct InitialOutputTarget {
    pub window: u64,
    pub monitor: Monitor,
}

/// Why no native output is aimed at.
#[derive(Debug, Clone, Copy, PartialEq, Eq, Structural)]
pub enum TargetSkip {
    NotEligible,
    ConfigUnavailable,
    ConfigNotNative,
    NoWindow,
    DisplayUnavailable,
    WindowUnavailable,
    TargetUnavailable,
    InvalidTarget,
}

/// Aims at the monitor that the surface's window is on. What could not be had
/// is `None`, and the first of them decides.
pub fn native_output_target(
    preflight_eligible: bool,
    output_resolution: Option<OutputResolution>,
    window: Option<u64>,
    connected: bool,
    described: Option<X11Window>,
    monitor: Option<Monitor>,
) -> (result: Result<InitialOutputTarget, TargetSkip>)
    ensures
        result == (if !preflight_eligible {
            Err(TargetSkip::NotEligible)
        } else if output_resolution is None {
            Err(TargetSkip::ConfigUnavailable)
        } else if output_resolution != Some(OutputResolution::Native) {
            Err(TargetSkip::ConfigNotNative)
        } else if window is None {
            Err(TargetSkip::NoWindow)
        } else if !connected {
            Err(TargetSkip::DisplayUnavailable)
        } else if described is None {
            Err(TargetSkip::WindowUnavailable)
        } else if monitor is None {
            Err(TargetSkip::TargetUnavailable)
        } else if !monitor.unwrap().rect.valid() {
            Err(TargetSkip::InvalidTarget)
        } else {
            Ok(InitialOutputTarget { window: window.unwrap(), monitor: monitor.unwrap() })
        }),
{
    if !preflight_eligible {
        return Err(TargetSkip::NotEligible);
    }
    match output_resolution {
        None => {
            return Err(TargetSkip::ConfigUnavailable);
        },
        Some(OutputResolution::Native) => {},
        Some(_) => {
            return Err(TargetSkip::ConfigNotNative);
        },
    }
    let window: u64 = match window {
        None => {
            return Err(TargetSkip::NoWindow);
        },
        Some(window) => window,
    };
    if !connected {
        return Err(TargetSkip::DisplayUnavailable);
    }
    if described.is_none() {
        return Err(TargetSkip::WindowUnavailable);
    }
    match monitor {
        None => Err(TargetSkip::TargetUnavailable),
        Some(monitor) => if monitor.rect.extent().is_valid() {
            Ok(InitialOutputTarget { window, monitor })
        } else {
            Err(TargetSkip::InvalidTarget)
        },
    }
}

/// A surface without promises to the application; its window and its lease
/// stay.
pub open spec fn override_cleared(surface: X11Surface, cleared: X11Surface) -> bool {
    &&& cleared.window == surface.window
    &&& cleared.borderless_lease == surface.borderless_lease
    &&& cleared.logical_extent is None
    &&& cleared.logical_capabilities is None
    &&& cleared.negotiation@ == NegotiationStage::Direct
}

/// Drops a stale override of a surface's capabilities, so that queries report
/// what is downstream. Only used where no virtual swapchain shows on the
/// surface; the window and the lease are left alone.
pub fn clear_surface_logical_override(layer: &mut Layer, surface: Handle)
    requires
        old(layer).wf(),
    ensures
        final(layer).wf(),
        if old(layer)@.surfaces.contains_key(surface) {
            &&& final(layer)@ == old(layer)@.with_surface(
                surface,
                final(layer)@.surfaces[surface],
            )
            &&& override_cleared(
                old(layer)@.surfaces[surface],
                final(layer)@.surfaces[surface],
            )
        } else {
            final(layer)@ == old(layer)@
        },
{
    if let Some(index) = layer.surfaces.find(surface) {
        let ghost keys = layer.surfaces.key_seq();
        let ghost values = layer.surfaces.value_seq();
        let state: &mut X11Surface = layer.surfaces.at_mut(index);
        state.logical_extent = None;
        state.logical_capabilities = None;
        state.negotiation = PresentationNegotiation::direct();
        proof {
            lemma_update(keys, values, index as int, layer.surfaces.value_seq()[index as int]);
        }
    }
}

/// The capabilities that the application is told of while its own extent is
/// promised: those told before, else those queried, locked to the extent.
pub fn logical_capabilities_for_extent(
    existing: Option<SurfaceCapabilities>,
    fallback: Option<SurfaceCapabilities>,
    logical_extent: Extent2D,
) -> (capabilities: Option<SurfaceCapabilities>)
    ensures
        capabilities == (match (existing, fallback) {
            (Some(told), _) => Some(locked_to(told, logical_extent)),
            (None, Some(queried)) => Some(locked_to(queried, logical_extent)),
            (None, None) => None,
        }),
{
    let mut capabilities: SurfaceCapabilities = match existing {
        Some(told) => told,
        None => match fallback {
            Some(queried) => queried,
            None => {
                return None;
            },
        },
    };
    apply_logical_extent(&mut capabilities, logical_extent);
    Some(capabilities)
}

/// Temporal processing starts at once, unless a virtual swapchain still has
/// to find its native output.
pub fn temporal_enabled_for_logical_creation(
    virtual_eligible: bool,
    previous_state: Option<PresentationState>,
) -> (enabled: bool)
    ensures
        enabled == (!virtual_eligible || previous_state == Some(PresentationState::Virtualized)),
{
    if !virtual_eligible {
        return true;
    }
    match previous_state {
        Some(PresentationState::Virtualized) => true,
        _ => false,
    }
}

/// How far two sides are apart.
pub open spec fn distance(left: u32, right: u32) -> int {
    if left < right {
        right - left
    } else {
        left - right
    }
}

/// A negotiation reaches every swapchain of its surface that is not retired,
/// and what it promises, and changes nothing else. A virtual swapchain that
/// failed stays failed when the surface turns direct.
pub proof fn a_negotiation_reaches_the_swapchains_of_its_surface(
    layer: LayerModel,
    surface: Handle,
    stage: NegotiationStage,
    handle: Handle,
)
    ensures
        ({
            let after = negotiation_published(layer, surface, stage);
            let was = layer.swapchains[handle];
            let now = after[handle];
            let failed = stage is Direct && was.contract is Some && was.contract.unwrap().state
                == PresentationState::Failed;
            &&& after.contains_key(handle) == layer.swapchains.contains_key(handle)
            &&& layer.swapchains.contains_key(handle) ==> if was.game_surface == surface
                && !layer.retired.contains(handle) && !failed {
                &&& now.negotiation == stage
                &&& now == SwapchainModel {
                    negotiation: now.negotiation,
                    contract: now.contract,
                    ..was
                }
                &&& now.contract is Some == was.contract is Some
                &&& was.contract matches Some(contract) ==> {
                    &&& now.contract.unwrap().logical == contract.logical
                    &&& now.contract.unwrap().physical == contract.physical
                    &&& now.contract.unwrap().state == stage.shown()
                }
            } else {
                now == was
            }
        }),
{
}

/// A surface that a negotiation is written to keeps all else, and so do the
/// other surfaces.
pub proof fn a_surface_takes_its_negotiation(
    surfaces: Map<Handle, X11Surface>,
    surface: Handle,
    negotiation: PresentationNegotiation,
    other: Handle,
)
    ensures
        ({
            let after = surface_negotiates(surfaces, surface, negotiation);
            &&& after.contains_key(other) == surfaces.contains_key(other)
            &&& surfaces.contains_key(surface) ==> {
                let now = after[surface];
                &&& now.negotiation == negotiation
                &&& now.window == surfaces[surface].window
                &&& now.logical_extent == surfaces[surface].logical_extent
                &&& now.logical_capabilities == surfaces[surface].logical_capabilities
                &&& now.borderless_lease == surfaces[surface].borderless_lease
            }
            &&& other != surface && surfaces.contains_key(other) ==> after[other]
                == surfaces[other]
        }),
{
}

/// What a request's predecessor is downstream: nothing for none, the downstream
/// swapchain of one that the layer tracks, itself for one that it does not
/// know, and never a token of the layer.
pub proof fn predecessors_are_translated(layer: LayerModel, logical: Handle)
    ensures
        old_swapchain_translated(layer, NULL_HANDLE) == Ok::<Handle, VkResult>(NULL_HANDLE),
        logical != NULL_HANDLE && layer.swapchains.contains_key(logical)
            ==> old_swapchain_translated(layer, logical) == Ok::<Handle, VkResult>(
            layer.swapchains[logical].physical_handle,
        ),
        logical != NULL_HANDLE && !layer.swapchains.contains_key(logical) && (
        layer.retired.contains(logical) || logical > 0x8000_0000_0000_0000)
            ==> old_swapchain_translated(layer, logical) == Err::<Handle, VkResult>(
            ERROR_OUT_OF_DATE_KHR,
        ),
{
}

/// A request that passes the preflight has images of one layer that can be
/// captured, and a surface and a format that offer what the layer needs.
pub proof fn a_preflight_asks_for_what_the_layer_needs(
    wsi: DeviceWsiCapabilities,
    info: SwapchainCreateInfo,
    capabilities: Option<SurfaceCapabilities>,
    format_features: u32,
    plan: SwapchainVirtualizationPlan,
)
    requires
        preflight_passes(wsi, info, capabilities, format_features, plan),
    ensures
        wsi.incompatible is None,
        info.image_array_layers == 1,
        info.min_image_count > 0,
        info.present_mode != PRESENT_MODE_SHARED_DEMAND_REFRESH,
        info.present_mode != PRESENT_MODE_SHARED_CONTINUOUS_REFRESH,
        capabilities is Some,
        capabilities.unwrap().supported_usage_flags & 0x1b == 0x1b,
        format_features & 0x801 == 0x801,
        info.image_sharing_mode == SHARING_MODE_CONCURRENT ==> info.queue_family_indices is Some
            && info.queue_family_indices.unwrap()@.len() >= 2,
        flags_mutable(info.flags) ==> wsi.mutable_format && plan.image_flags
            == IMAGE_CREATE_MUTABLE_FORMAT,
        !flags_mutable(info.flags) ==> plan.image_flags == 0,
        plan.template@.image_format == info.image_format,
        plan.template@.image_color_space == info.image_color_space,
        plan.template@.image_usage == info.image_usage,
        plan.template@.min_image_count == info.min_image_count,
        plan.template@.present_mode == info.present_mode,
        plan.template@.flags == info.flags,
        plan.template@.create_chain.view_formats matches Some(formats) ==> plan.view_formats@
            == formats,
        plan.template@.create_chain.view_formats is None ==> plan.view_formats@.len() == 0,
{
}

/// A surface that loses its override keeps its window and its lease.
pub proof fn a_cleared_surface_keeps_its_lease(surface: X11Surface, cleared: X11Surface)
    requires
        override_cleared(surface, cleared),
    ensures
        cleared.window == surface.window,
        cleared.borderless_lease == surface.borderless_lease,
        cleared.logical_extent is None,
        cleared.logical_capabilities is None,
        cleared.negotiation@ is Direct,
{
}

/// An ordinary request passes the preflight: images of one layer for one family,
/// in a format that can be captured, on a surface and with a format that offer
/// what the layer needs.
pub proof fn an_ordinary_request_passes_the_preflight(
    wsi: DeviceWsiCapabilities,
    info: SwapchainCreateInfo,
    capabilities: SurfaceCapabilities,
    format_features: u32,
)
    requires
        info.image_array_layers == 1,
        info.image_sharing_mode == 0,
        info.flags == 0,
        info.min_image_count > 0,
        info.image_color_space == 0,
        info.image_format == 37 || info.image_format == 43 || info.image_format == 44
            || info.image_format == 50 || info.image_format == 97,
        info.present_mode != PRESENT_MODE_SHARED_DEMAND_REFRESH,
        info.present_mode != PRESENT_MODE_SHARED_CONTINUOUS_REFRESH,
        capabilities.supported_usage_flags & 0x1b == 0x1b,
        format_features & 0x801 == 0x801,
        info.chain@.len() == 0,
    ensures
        preflight_refusal(wsi, info, Some(capabilities), format_features) is None,
        virtualizable(info),
        chain_kept(
            info,
            CreateChainModel { present_modes: None, scaling: None, view_formats: None },
        ),
{
    assert(0u32 & !(0x8u32 | 0x4u32) == 0u32) by (bit_vector);
    assert(0u32 & 0x4u32 == 0u32) by (bit_vector);
    let none = CreateChainModel { present_modes: None, scaling: None, view_formats: None };
    assert(collects(info.chain@, none));
    assert(chain_kept(info, none));
}

/// A request is refused before its chain is read for images of several layers,
/// a format that cannot be captured, a mode that shares an image with the screen,
/// or what the surface and the format do not offer.
pub proof fn a_preflight_refuses_for_a_reason(
    wsi: DeviceWsiCapabilities,
    info: SwapchainCreateInfo,
    capabilities: Option<SurfaceCapabilities>,
    format_features: u32,
)
    requires
        info.flags == 0,
    ensures
        ({
            let refused = preflight_refusal(wsi, info, capabilities, format_features);
            let one_layer = info.image_array_layers == 1 && (info.image_sharing_mode == 1 ==> (
            info.queue_family_indices matches Some(families) && families@.len() >= 2));
            let shown_alone = info.present_mode != PRESENT_MODE_SHARED_DEMAND_REFRESH
                && info.present_mode != PRESENT_MODE_SHARED_CONTINUOUS_REFRESH;
            let known = capturable(info.image_format, info.image_color_space);
            &&& !one_layer ==> refused == Some(ERROR_FEATURE_NOT_PRESENT)
            &&& one_layer && (!known || !shown_alone) ==> refused == Some(
                ERROR_FORMAT_NOT_SUPPORTED,
            )
            &&& one_layer && known && shown_alone && capabilities is None ==> refused == Some(
                ERROR_INITIALIZATION_FAILED,
            )
            &&& one_layer && known && shown_alone && (capabilities matches Some(offered) && (
            offered.supported_usage_flags & 0x1b != 0x1b || format_features & 0x801 != 0x801
                || info.min_image_count == 0)) ==> refused == Some(ERROR_FEATURE_NOT_PRESENT)
        }),
{
    assert(0u32 & !(0x8u32 | 0x4u32) == 0u32) by (bit_vector);
    assert(0u32 & 0x4u32 == 0u32) by (bit_vector);
}

/// A handle is taken where the application or the driver knows a swapchain by
/// it, and no handle that is taken is handed out.
pub proof fn a_new_handle_is_nobody_s(
    before: LayerModel,
    after: LayerModel,
    physical: Handle,
    logical: Handle,
    other: Handle,
)
    requires
        logical_allocated(before, after, physical, Some(logical)),
    ensures
        !before.swapchains.contains_key(logical),
        before.swapchains.contains_key(other) ==> before.swapchains[other].physical_handle
            != logical,
        physical <= 0x8000_0000_0000_0000,
        logical >= 0x8000_0000_0000_0000,
        after.swapchains == before.swapchains,
        after.surfaces == before.surfaces,
        after.retired == before.retired,
{
}

/// What a surface takes is read from its capabilities: the current extent where
/// there is one, else everything between the smallest and the largest.
pub proof fn capabilities_say_what_a_surface_takes(capabilities: SurfaceCapabilities)
    ensures
        capabilities.current_extent.width != u32::MAX ==> (
        offered_extent(capabilities) matches SurfaceExtent::Fixed(extent) && extent.width
            == capabilities.current_extent.width && extent.height
            == capabilities.current_extent.height),
        capabilities.current_extent.width == u32::MAX ==> (
        offered_extent(capabilities) matches SurfaceExtent::Range { minimum, maximum }
            && minimum.width == capabilities.min_image_extent.width && minimum.height
            == capabilities.min_image_extent.height && maximum.width
            == capabilities.max_image_extent.width && maximum.height
            == capabilities.max_image_extent.height),
{
}

/// A recreated virtual swapchain keeps its extent downstream where a range still
/// takes it, names no predecessor, and is never placed without an area.
pub proof fn a_recreation_is_placed_with_an_area(
    old_swapchain: Handle,
    image_extent: Extent2D,
    old_contract: ContractModel,
    surface: SurfaceExtent,
)
    ensures
        ({
            let placed = recreation_placed(old_swapchain, image_extent, old_contract, surface);
            let old = old_contract.physical.extent;
            &&& old_swapchain != old_contract.logical.handle ==> placed == Err::<
                (Extent2D, Handle),
                VkResult,
            >(ERROR_OUT_OF_DATE_KHR)
            &&& placed matches Ok((extent, predecessor)) ==> extent.width > 0 && extent.height > 0
                && predecessor == 0
            &&& old_swapchain == old_contract.logical.handle && old.width > 0 && old.height > 0 && (
            surface matches SurfaceExtent::Range { minimum, maximum } && minimum.width <= old.width
                <= maximum.width && minimum.height <= old.height <= maximum.height) ==> placed == Ok::<
                (Extent2D, Handle),
                VkResult,
            >((old, 0))
            &&& old_swapchain == old_contract.logical.handle && (
            surface matches SurfaceExtent::Fixed(fixed) && fixed.width > 0 && fixed.height > 0)
                ==> (placed matches Ok((extent, _)) && (
            surface matches SurfaceExtent::Fixed(fixed) && extent.width == fixed.width
                && extent.height == fixed.height))
            &&& old_swapchain == old_contract.logical.handle && (
            surface matches SurfaceExtent::Fixed(fixed) && (fixed.width == 0 || fixed.height == 0))
                ==> placed == Err::<(Extent2D, Handle), VkResult>(ERROR_INITIALIZATION_FAILED)
        }),
{
}

/// The counter goes on by one for every handle that was tried, and stays where it
/// is for a driver that hands out reserved handles, which gets none.
pub proof fn tried_handles_are_counted(
    before: LayerModel,
    after: LayerModel,
    physical: Handle,
    logical: Option<Handle>,
)
    requires
        logical_allocated(before, after, physical, logical),
    ensures
        reserved_handle(physical) ==> logical is None && after.next_logical == before.next_logical,
        !reserved_handle(physical) && logical is None ==> after.next_logical == (
        before.next_logical + 1024) % 0x1_0000_0000_0000_0000,
        logical is Some ==> exists|tried: int|
            1 <= tried <= 1024 && after.next_logical == #[trigger] (before.next_logical + tried)
                % 0x1_0000_0000_0000_0000,
{
    if let Some(handle) = logical {
        let used = choose|used: int|
            {
                &&& 0 <= used < HANDLE_ATTEMPTS
                &&& handle == #[trigger] counter_handle(before.next_logical + used)
                &&& forall|earlier: int|
                    0 <= earlier < used ==> handle_taken(
                        before,
                        #[trigger] counter_handle(before.next_logical + earlier),
                    )
                &&& after.next_logical == (before.next_logical + used + 1)
                    % 0x1_0000_0000_0000_0000
            };
        let tried = used + 1;
        assert((before.next_logical + tried) % 0x1_0000_0000_0000_0000 == after.next_logical);
    }
}

} // verus!
