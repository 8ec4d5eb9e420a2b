//! Which commands the layer answers itself, and where those go that it passes
//! on for a swapchain.

use vstd::prelude::*;
use vstd::string::StringSliceAdditionalSpecFns;

use super::display_timing::{
    all_timings, latest, merges, newer_timings_are_kept, PresentationTiming,
};
use super::lifetime::{unique_handles, unique_physical_handles};
use super::swapchain_metadata::{with_metadata_array, OwnedHdrMetadata};
use super::swapchain_route::{resolve_swapchain_route, route_of, SwapchainRoute};
use crate::layer::state::{
    lemma_set_swapchain, Devices, DevicesModel, Layer, LayerModel, SwapchainModel, SwapchainState,
};
use crate::seqs::{contains_part, has_part, is_named, named, reversed_slice};
use crate::vk::{
    Handle, VkResult, ERROR_EXTENSION_NOT_PRESENT, ERROR_INITIALIZATION_FAILED,
    ERROR_OUT_OF_DATE_KHR, INCOMPLETE, NULL_HANDLE, SUCCESS,
};

verus! {

/// The commands that the layer answers itself.
#[derive(Debug, Clone, Copy, PartialEq, Eq, Structural)]
pub enum Hook {
    CreateInstance,
    CreateDevice,
    DestroyInstance,
    CreateXlibSurface,
    CreateXcbSurface,
    DestroySurface,
    EnumerateDeviceExtensionProperties,
    GetSurfaceCapabilities,
    GetSurfaceCapabilities2,
    GetInstanceProcAddr,
    GetDeviceProcAddr,
    GetDeviceQueue,
    GetDeviceQueue2,
    CreateSwapchain,
    DestroySwapchain,
    GetSwapchainImages,
    AcquireNextImage,
    AcquireNextImage2,
    ReleaseSwapchainImages,
    ReleaseSwapchainImagesKhr,
    GetSwapchainStatus,
    WaitForPresent,
    GetPastPresentationTiming,
    GetRefreshCycleDuration,
    GetSwapchainCounter,
    SetHdrMetadata,
    AcquireFullScreenExclusiveMode,
    ReleaseFullScreenExclusiveMode,
    DestroyDevice,
    QueuePresent,
}

/// Where the address of a command comes from.
#[derive(Debug, Clone, Copy, PartialEq, Eq, Structural)]
pub enum ProcAddress {
    /// There is none.
    Absent,
    Layer(Hook),
    Downstream,
}

/// The layer's answer to a command of a device.
pub open spec fn device_hook(name: Seq<u8>) -> Option<Hook> {
    if named(name, "vkGetDeviceQueue") {
        Some(Hook::GetDeviceQueue)
    } else if named(name, "vkGetDeviceQueue2") {
        Some(Hook::GetDeviceQueue2)
    } else if named(name, "vkCreateSwapchainKHR") {
        Some(Hook::CreateSwapchain)
    } else if named(name, "vkDestroySwapchainKHR") {
        Some(Hook::DestroySwapchain)
    } else if named(name, "vkGetSwapchainImagesKHR") {
        Some(Hook::GetSwapchainImages)
    } else if named(name, "vkAcquireNextImageKHR") {
        Some(Hook::AcquireNextImage)
    } else if named(name, "vkAcquireNextImage2KHR") {
        Some(Hook::AcquireNextImage2)
    } else if named(name, "vkReleaseSwapchainImagesEXT") {
        Some(Hook::ReleaseSwapchainImages)
    } else if named(name, "vkReleaseSwapchainImagesKHR") {
        Some(Hook::ReleaseSwapchainImagesKhr)
    } else if named(name, "vkGetSwapchainStatusKHR") {
        Some(Hook::GetSwapchainStatus)
    } else if named(name, "vkWaitForPresentKHR") {
        Some(Hook::WaitForPresent)
    } else if named(name, "vkGetPastPresentationTimingGOOGLE") {
        Some(Hook::GetPastPresentationTiming)
    } else if named(name, "vkGetRefreshCycleDurationGOOGLE") {
        Some(Hook::GetRefreshCycleDuration)
    } else if named(name, "vkGetSwapchainCounterEXT") {
        Some(Hook::GetSwapchainCounter)
    } else if named(name, "vkSetHdrMetadataEXT") {
        Some(Hook::SetHdrMetadata)
    } else if named(name, "vkAcquireFullScreenExclusiveModeEXT") {
        Some(Hook::AcquireFullScreenExclusiveMode)
    } else if named(name, "vkReleaseFullScreenExclusiveModeEXT") {
        Some(Hook::ReleaseFullScreenExclusiveMode)
    } else if named(name, "vkDestroyDevice") {
        Some(Hook::DestroyDevice)
    } else if named(name, "vkQueuePresentKHR") {
        Some(Hook::QueuePresent)
    } else {
        None
    }
}

fn find_device_hook(name: &[u8]) -> (hook: Option<Hook>)
    ensures
        hook == device_hook(name@),
{
    if is_named(name, "vkGetDeviceQueue") {
        Some(Hook::GetDeviceQueue)
    } else if is_named(name, "vkGetDeviceQueue2") {
        Some(Hook::GetDeviceQueue2)
    } else if is_named(name, "vkCreateSwapchainKHR") {
        Some(Hook::CreateSwapchain)
    } else if is_named(name, "vkDestroySwapchainKHR") {
        Some(Hook::DestroySwapchain)
    } else if is_named(name, "vkGetSwapchainImagesKHR") {
        Some(Hook::GetSwapchainImages)
    } else if is_named(name, "vkAcquireNextImageKHR") {
        Some(Hook::AcquireNextImage)
    } else if is_named(name, "vkAcquireNextImage2KHR") {
        Some(Hook::AcquireNextImage2)
    } else if is_named(name, "vkReleaseSwapchainImagesEXT") {
        Some(Hook::ReleaseSwapchainImages)
    } else if is_named(name, "vkReleaseSwapchainImagesKHR") {
        Some(Hook::ReleaseSwapchainImagesKhr)
    } else if is_named(name, "vkGetSwapchainStatusKHR") {
        Some(Hook::GetSwapchainStatus)
    } else if is_named(name, "vkWaitForPresentKHR") {
        Some(Hook::WaitForPresent)
    } else if is_named(name, "vkGetPastPresentationTimingGOOGLE") {
        Some(Hook::GetPastPresentationTiming)
    } else if is_named(name, "vkGetRefreshCycleDurationGOOGLE") {
        Some(Hook::GetRefreshCycleDuration)
    } else if is_named(name, "vkGetSwapchainCounterEXT") {
        Some(Hook::GetSwapchainCounter)
    } else if is_named(name, "vkSetHdrMetadataEXT") {
        Some(Hook::SetHdrMetadata)
    } else if is_named(name, "vkAcquireFullScreenExclusiveModeEXT") {
        Some(Hook::AcquireFullScreenExclusiveMode)
    } else if is_named(name, "vkReleaseFullScreenExclusiveModeEXT") {
        Some(Hook::ReleaseFullScreenExclusiveMode)
    } else if is_named(name, "vkDestroyDevice") {
        Some(Hook::DestroyDevice)
    } else if is_named(name, "vkQueuePresentKHR") {
        Some(Hook::QueuePresent)
    } else {
        None
    }
}

/// A command that speaks of swapchains or of presenting, by its name.
pub open spec fn swapchain_related(name: Seq<u8>) -> bool {
    has_part(name, "Swapchain".spec_bytes()) || has_part(name, "Present".spec_bytes())
}

pub fn is_swapchain_related_proc(name: &[u8]) -> (related: bool)
    ensures
        related == swapchain_related(name@),
{
    contains_part(name, "Swapchain".as_bytes()) || contains_part(name, "Present".as_bytes())
}

/// A device that the layer does not know, or that has nothing on it that
/// rules virtual swapchains out.
pub open spec fn allows_virtualization(devices: DevicesModel, device: Handle) -> bool {
    devices.devices.contains_key(device) ==> devices.devices[device].wsi.incompatible is None
}

pub fn device_allows_virtualization(devices: &Devices, device: Handle) -> (allowed: bool)
    requires
        devices.wf(),
    ensures
        allowed == allows_virtualization(devices@, device),
{
    match devices.devices.get(device) {
        Some(state) => state.wsi.incompatible.is_none(),
        None => true,
    }
}

/// Only a device that the layer knows has commands downstream.
pub open spec fn below(devices: DevicesModel, device: Handle) -> ProcAddress {
    if devices.devices.contains_key(device) {
        ProcAddress::Downstream
    } else {
        ProcAddress::Absent
    }
}

/// The address of a device's command. A command on swapchains that the layer
/// does not know is kept from a device with virtual swapchains: it would take
/// a token for a swapchain of the driver.
pub open spec fn device_address(
    devices: DevicesModel,
    device: Handle,
    name: Seq<u8>,
) -> ProcAddress {
    match device_hook(name) {
        Some(hook) => ProcAddress::Layer(hook),
        None => if swapchain_related(name) && device != NULL_HANDLE && allows_virtualization(
            devices,
            device,
        ) {
            ProcAddress::Absent
        } else {
            below(devices, device)
        },
    }
}

pub fn get_device_proc_addr_inner(devices: &Devices, device: Handle, name: Option<&[u8]>) -> (
    address: ProcAddress)
    requires
        devices.wf(),
    ensures
        address == (match name {
            Some(name) => device_address(devices@, device, name@),
            None => ProcAddress::Absent,
        }),
{
    let name: &[u8] = match name {
        Some(name) => name,
        None => {
            return ProcAddress::Absent;
        },
    };
    match find_device_hook(name) {
        Some(hook) => ProcAddress::Layer(hook),
        None => {
            if is_swapchain_related_proc(name) && device != NULL_HANDLE
                && device_allows_virtualization(devices, device) {
                return ProcAddress::Absent;
            }
            if devices.devices.contains_key(device) {
                ProcAddress::Downstream
            } else {
                ProcAddress::Absent
            }
        },
    }
}

/// The commands of a device that an instance hands out too.
pub open spec fn handed_out_by_instance(hook: Hook) -> bool {
    hook != Hook::ReleaseSwapchainImagesKhr
}

/// The layer's answer to a command of an instance.
pub open spec fn instance_hook(name: Seq<u8>) -> Option<Hook> {
    if named(name, "vkCreateInstance") {
        Some(Hook::CreateInstance)
    } else if named(name, "vkCreateDevice") {
        Some(Hook::CreateDevice)
    } else if named(name, "vkDestroyInstance") {
        Some(Hook::DestroyInstance)
    } else if named(name, "vkCreateXlibSurfaceKHR") {
        Some(Hook::CreateXlibSurface)
    } else if named(name, "vkCreateXcbSurfaceKHR") {
        Some(Hook::CreateXcbSurface)
    } else if named(name, "vkDestroySurfaceKHR") {
        Some(Hook::DestroySurface)
    } else if named(name, "vkEnumerateDeviceExtensionProperties") {
        Some(Hook::EnumerateDeviceExtensionProperties)
    } else if named(name, "vkGetPhysicalDeviceSurfaceCapabilitiesKHR") {
        Some(Hook::GetSurfaceCapabilities)
    } else if named(name, "vkGetPhysicalDeviceSurfaceCapabilities2KHR") {
        Some(Hook::GetSurfaceCapabilities2)
    } else if named(name, "vkGetInstanceProcAddr") {
        Some(Hook::GetInstanceProcAddr)
    } else if named(name, "vkGetDeviceProcAddr") {
        Some(Hook::GetDeviceProcAddr)
    } else {
        match device_hook(name) {
            Some(hook) if handed_out_by_instance(hook) => Some(hook),
            _ => None,
        }
    }
}

fn find_instance_hook(name: &[u8]) -> (hook: Option<Hook>)
    ensures
        hook == instance_hook(name@),
{
    if is_named(name, "vkCreateInstance") {
        Some(Hook::CreateInstance)
    } else if is_named(name, "vkCreateDevice") {
        Some(Hook::CreateDevice)
    } else if is_named(name, "vkDestroyInstance") {
        Some(Hook::DestroyInstance)
    } else if is_named(name, "vkCreateXlibSurfaceKHR") {
        Some(Hook::CreateXlibSurface)
    } else if is_named(name, "vkCreateXcbSurfaceKHR") {
        Some(Hook::CreateXcbSurface)
    } else if is_named(name, "vkDestroySurfaceKHR") {
        Some(Hook::DestroySurface)
    } else if is_named(name, "vkEnumerateDeviceExtensionProperties") {
        Some(Hook::EnumerateDeviceExtensionProperties)
    } else if is_named(name, "vkGetPhysicalDeviceSurfaceCapabilitiesKHR") {
        Some(Hook::GetSurfaceCapabilities)
    } else if is_named(name, "vkGetPhysicalDeviceSurfaceCapabilities2KHR") {
        Some(Hook::GetSurfaceCapabilities2)
    } else if is_named(name, "vkGetInstanceProcAddr") {
        Some(Hook::GetInstanceProcAddr)
    } else if is_named(name, "vkGetDeviceProcAddr") {
        Some(Hook::GetDeviceProcAddr)
    } else {
        match find_device_hook(name) {
            Some(hook) => if hook != Hook::ReleaseSwapchainImagesKhr {
                Some(hook)
            } else {
                None
            },
            None => None,
        }
    }
}

/// The address of an instance's command; what the layer does not answer comes
/// from below.
pub fn get_instance_proc_addr_inner(name: Option<&[u8]>) -> (address: ProcAddress)
    ensures
        address == (match name {
            Some(name) => match instance_hook(name@) {
                Some(hook) => ProcAddress::Layer(hook),
                None => ProcAddress::Downstream,
            },
            None => ProcAddress::Absent,
        }),
{
    match name {
        None => ProcAddress::Absent,
        Some(name) => match find_instance_hook(name) {
            Some(hook) => ProcAddress::Layer(hook),
            None => ProcAddress::Downstream,
        },
    }
}

/// The address of a physical device's command: of those, the layer answers
/// one. The others come from below, if there is anything below to ask.
pub fn get_physical_device_proc_addr_inner(name: Option<&[u8]>, has_next: bool) -> (address:
    ProcAddress)
    ensures
        address == (match name {
            Some(name) => if named(name@, "vkEnumerateDeviceExtensionProperties") {
                ProcAddress::Layer(Hook::EnumerateDeviceExtensionProperties)
            } else if has_next {
                ProcAddress::Downstream
            } else {
                ProcAddress::Absent
            },
            None => ProcAddress::Absent,
        }),
{
    match name {
        None => ProcAddress::Absent,
        Some(name) => if is_named(name, "vkEnumerateDeviceExtensionProperties") {
            ProcAddress::Layer(Hook::EnumerateDeviceExtensionProperties)
        } else if has_next {
            ProcAddress::Downstream
        } else {
            ProcAddress::Absent
        },
    }
}

/// The downstream swapchain behind a route.
pub open spec fn routed_physical(layer: LayerModel, swapchain: Handle) -> Result<
    Handle,
    VkResult,
> {
    match route_of(layer, swapchain) {
        Ok(SwapchainRoute::Direct(physical)) => Ok(physical),
        Ok(SwapchainRoute::CurrentVirtual { physical, .. }) => Ok(physical),
        Err(error) => Err(error),
    }
}

pub fn current_physical_swapchain(layer: &Layer, swapchain: Handle) -> (result: Result<
    Handle,
    VkResult,
>)
    requires
        layer.wf(),
    ensures
        result == routed_physical(layer@, swapchain),
{
    match resolve_swapchain_route(layer, swapchain) {
        Ok(SwapchainRoute::Direct(physical)) => Ok(physical),
        Ok(SwapchainRoute::CurrentVirtual { physical, .. }) => Ok(physical),
        Err(error) => Err(error),
    }
}

/// Where a command on a swapchain goes: to the downstream swapchain, if the
/// device has the command.
pub open spec fn forwarded(layer: LayerModel, swapchain: Handle, available: bool) -> Result<
    Handle,
    VkResult,
> {
    match routed_physical(layer, swapchain) {
        Err(error) => Err(error),
        Ok(physical) => if available {
            Ok(physical)
        } else {
            Err(ERROR_EXTENSION_NOT_PRESENT)
        },
    }
}

fn forward(layer: &Layer, swapchain: Handle, available: bool) -> (result: Result<Handle, VkResult>)
    requires
        layer.wf(),
    ensures
        result == forwarded(layer@, swapchain, available),
{
    match current_physical_swapchain(layer, swapchain) {
        Err(error) => Err(error),
        Ok(physical) => if available {
            Ok(physical)
        } else {
            Err(ERROR_EXTENSION_NOT_PRESENT)
        },
    }
}

pub fn get_swapchain_status_khr(layer: &Layer, swapchain: Handle, available: bool) -> (result:
    Result<Handle, VkResult>)
    requires
        layer.wf(),
    ensures
        result == forwarded(layer@, swapchain, available),
{
    forward(layer, swapchain, available)
}

pub fn get_refresh_cycle_duration_google(layer: &Layer, swapchain: Handle, available: bool) -> (
    result: Result<Handle, VkResult>)
    requires
        layer.wf(),
    ensures
        result == forwarded(layer@, swapchain, available),
{
    forward(layer, swapchain, available)
}

pub fn get_swapchain_counter_ext(layer: &Layer, swapchain: Handle, available: bool) -> (result:
    Result<Handle, VkResult>)
    requires
        layer.wf(),
    ensures
        result == forwarded(layer@, swapchain, available),
{
    forward(layer, swapchain, available)
}

pub fn reject_acquire_full_screen_exclusive_mode_ext(
    layer: &Layer,
    swapchain: Handle,
    available: bool,
) -> (result: Result<Handle, VkResult>)
    requires
        layer.wf(),
    ensures
        result == forwarded(layer@, swapchain, available),
{
    forward(layer, swapchain, available)
}

pub fn reject_release_full_screen_exclusive_mode_ext(
    layer: &Layer,
    swapchain: Handle,
    available: bool,
) -> (result: Result<Handle, VkResult>)
    requires
        layer.wf(),
    ensures
        result == forwarded(layer@, swapchain, available),
{
    forward(layer, swapchain, available)
}

/// The downstream swapchain that a present with an identifier went to. A
/// virtual swapchain knows it of each identifier, also where the present was
/// to an earlier generation.
pub open spec fn presented_to(
    layer: LayerModel,
    swapchain: Handle,
    present_id: u64,
    available: bool,
) -> Result<Handle, VkResult> {
    let target = match route_of(layer, swapchain) {
        Ok(SwapchainRoute::Direct(physical)) => Ok(physical),
        Ok(SwapchainRoute::CurrentVirtual { .. }) => {
            let routes = layer.swapchains[swapchain].present_ids.routes;
            if routes.contains_key(present_id) {
                Ok(routes[present_id].physical)
            } else {
                Err(ERROR_OUT_OF_DATE_KHR)
            }
        },
        Err(error) => Err(error),
    };
    match target {
        Err(error) => Err(error),
        Ok(physical) => if available {
            Ok(physical)
        } else {
            Err(ERROR_EXTENSION_NOT_PRESENT)
        },
    }
}

/// Where a wait for a present goes.
pub fn wait_for_present_khr(
    layer: &Layer,
    swapchain: Handle,
    present_id: u64,
    available: bool,
) -> (result: Result<Handle, VkResult>)
    requires
        layer.wf(),
    ensures
        result == presented_to(layer@, swapchain, present_id, available),
{
    let physical: Handle = match resolve_swapchain_route(layer, swapchain) {
        Ok(SwapchainRoute::Direct(physical)) => physical,
        Ok(SwapchainRoute::CurrentVirtual { .. }) => match layer.swapchains.get(swapchain) {
            None => {
                return Err(ERROR_OUT_OF_DATE_KHR);
            },
            Some(state) => {
                assert(layer@.swapchains[swapchain] == state@);
                match state.present_ids.resolve(present_id) {
                    Some(route) => route.physical(),
                    None => {
                        return Err(ERROR_OUT_OF_DATE_KHR);
                    },
                }
            },
        },
        Err(error) => {
            return Err(error);
        },
    };
    if available {
        Ok(physical)
    } else {
        Err(ERROR_EXTENSION_NOT_PRESENT)
    }
}

/// Where a query for past timings goes.
#[derive(Debug, PartialEq, Eq)]
pub enum TimingQuery {
    /// To the driver, as it came.
    Direct(Handle),
    /// To each of these downstream swapchains.
    Generations(Vec<Handle>),
}

/// Every generation that a virtual swapchain had, each once, from the oldest to
/// the current one.
pub open spec fn generations_in_order(state: SwapchainModel) -> Seq<Handle> {
    unique_handles(
        seq![state.physical_handle] + state.retired_physical_generations.reverse(),
    ).reverse()
}

/// A query on a virtual swapchain asks every generation that it had, the
/// current one last, so that of two timings the newer one is kept.
pub fn get_past_presentation_timing_google(
    layer: &Layer,
    swapchain: Handle,
    available: bool,
    has_count: bool,
) -> (result: Result<TimingQuery, VkResult>)
    requires
        layer.wf(),
    ensures
        match result {
            Ok(TimingQuery::Direct(physical)) => {
                &&& available
                &&& route_of(layer@, swapchain) == Ok::<SwapchainRoute, VkResult>(
                    SwapchainRoute::Direct(physical),
                )
            },
            Ok(TimingQuery::Generations(handles)) => {
                let state = layer@.swapchains[swapchain];
                &&& available
                &&& route_of(layer@, swapchain) matches Ok(SwapchainRoute::CurrentVirtual { .. })
                &&& has_count
                &&& handles@ == generations_in_order(state)
            },
            Err(error) => if !available {
                error == ERROR_EXTENSION_NOT_PRESENT
            } else {
                match route_of(layer@, swapchain) {
                    Err(refused) => error == refused,
                    Ok(SwapchainRoute::CurrentVirtual { .. }) => !has_count && error
                        == ERROR_INITIALIZATION_FAILED,
                    Ok(_) => false,
                }
            },
        },
{
    if !available {
        return Err(ERROR_EXTENSION_NOT_PRESENT);
    }
    match resolve_swapchain_route(layer, swapchain) {
        Err(error) => Err(error),
        Ok(SwapchainRoute::Direct(physical)) => Ok(TimingQuery::Direct(physical)),
        Ok(SwapchainRoute::CurrentVirtual { .. }) => {
            if !has_count {
                return Err(ERROR_INITIALIZATION_FAILED);
            }
            match layer.swapchains.get(swapchain) {
                None => Err(ERROR_OUT_OF_DATE_KHR),
                Some(state) => {
                    assert(layer@.swapchains[swapchain] == state@);
                    let retired: Vec<Handle> = reversed_slice(
                        state.retired_physical_generations.as_slice(),
                    );
                    let newest_first: Vec<Handle> = unique_physical_handles(
                        state.physical_handle,
                        retired.as_slice(),
                    );
                    Ok(TimingQuery::Generations(reversed_slice(newest_first.as_slice())))
                },
            }
        },
    }
}

/// A timing query ended the whole enumeration.
pub fn timing_query_failed(result: VkResult) -> (failed: bool)
    ensures
        failed == (result != SUCCESS && result != INCOMPLETE),
{
    result != SUCCESS && result != INCOMPLETE
}

/// How many records a generation gave: at most those that there was room for.
pub fn timing_records(room: u32, written: u32) -> (count: u32)
    ensures
        count == (if written < room {
            written
        } else {
            room
        }),
{
    if written < room {
        written
    } else {
        room
    }
}

/// The first swapchain of a list that is out of date, if there is one, keeps
/// the whole list from the driver.
pub open spec fn all_routed(layer: LayerModel, swapchains: Seq<Handle>) -> bool {
    forall|i: int|
        0 <= i < swapchains.len() ==> routed_physical(layer, #[trigger] swapchains[i]) is Ok
}

/// The downstream swapchains of a list.
pub open spec fn physical_list(layer: LayerModel, swapchains: Seq<Handle>) -> Seq<Handle> {
    Seq::new(
        swapchains.len(),
        |i: int| routed_physical(layer, swapchains[i]).unwrap(),
    )
}

pub open spec fn is_routed_virtual(layer: LayerModel, swapchain: Handle) -> bool {
    route_of(layer, swapchain) matches Ok(SwapchainRoute::CurrentVirtual { .. })
}

/// The virtual swapchains of a list keep the metadata that was set for them;
/// of several for one swapchain, the last.
pub open spec fn metadata_kept(
    layer: LayerModel,
    swapchains: Seq<Handle>,
    metadata: Seq<OwnedHdrMetadata>,
) -> LayerModel
    decreases swapchains.len(),
{
    if swapchains.len() == 0 {
        layer
    } else {
        let before = metadata_kept(layer, swapchains.drop_last(), metadata.drop_last());
        let swapchain = swapchains.last();
        if is_routed_virtual(layer, swapchain) {
            before.with_swapchain(
                swapchain,
                SwapchainModel {
                    hdr_metadata: Some(metadata.last()),
                    ..before.swapchains[swapchain]
                },
            )
        } else {
            before
        }
    }
}

/// Metadata changes neither which swapchains there are nor where a command on
/// them goes.
proof fn lemma_metadata_keeps_routes(
    layer: LayerModel,
    swapchains: Seq<Handle>,
    metadata: Seq<OwnedHdrMetadata>,
)
    requires
        layer.wf(),
        swapchains.len() == metadata.len(),
    ensures
        ({
            let after = metadata_kept(layer, swapchains, metadata);
            &&& after.wf()
            &&& after.swapchains.dom() == layer.swapchains.dom()
            &&& after.retired == layer.retired
            &&& forall|swapchain: Handle| #[trigger]
                route_of(after, swapchain) == route_of(layer, swapchain)
        }),
    decreases swapchains.len(),
{
    if swapchains.len() > 0 {
        lemma_metadata_keeps_routes(layer, swapchains.drop_last(), metadata.drop_last());
        let before = metadata_kept(layer, swapchains.drop_last(), metadata.drop_last());
        let after = metadata_kept(layer, swapchains, metadata);
        let changed = swapchains.last();
        if is_routed_virtual(layer, changed) {
            assert(layer.swapchains.dom().contains(changed));
            assert(before.swapchains.dom().contains(changed));
            assert(after.swapchains.dom() =~= layer.swapchains.dom());
            assert(after.wf()) by {
                assert forall|handle: Handle| #[trigger] after.swapchains.contains_key(
                    handle,
                ) implies after.swapchains[handle].wf() && after.swapchains[handle].logical_handle
                    == handle by {
                    assert(before.swapchains.contains_key(handle));
                }
            }
            assert forall|swapchain: Handle| #[trigger]
                route_of(after, swapchain) == route_of(layer, swapchain) by {
                assert(route_of(before, swapchain) == route_of(layer, swapchain));
                assert(before.swapchains.dom().contains(swapchain)
                    == layer.swapchains.dom().contains(swapchain));
            }
        }
    }
}

/// Sets metadata: the answer is the downstream list, or nothing where one of
/// the swapchains is out of date. Virtual swapchains keep theirs, so that a
/// later generation gets it too.
pub fn set_hdr_metadata_ext(
    layer: &mut Layer,
    swapchains: &[Handle],
    metadata: &[OwnedHdrMetadata],
) -> (physical: Option<(Vec<Handle>, Vec<OwnedHdrMetadata>)>)
    requires
        old(layer).wf(),
        swapchains@.len() == metadata@.len(),
    ensures
        final(layer).wf(),
        match physical {
            Some((handles, values)) => {
                &&& all_routed(old(layer)@, swapchains@)
                &&& handles@ == physical_list(old(layer)@, swapchains@)
                &&& values@ == metadata@
                &&& final(layer)@ == metadata_kept(old(layer)@, swapchains@, metadata@)
            },
            None => {
                &&& !all_routed(old(layer)@, swapchains@)
                &&& final(layer)@ == old(layer)@
            },
        },
{
    let ghost entry = layer@;
    let mut physical: Vec<Handle> = Vec::new();
    let mut index: usize = 0;
    while index < swapchains.len()
        invariant
            layer.wf(),
            layer@ == entry,
            entry == old(layer)@,
            index <= swapchains@.len(),
            physical@.len() == index,
            forall|i: int|
                0 <= i < index ==> routed_physical(entry, #[trigger] swapchains@[i]) == Ok::<
                    Handle,
                    VkResult,
                >(physical@[i]),
        decreases swapchains@.len() - index,
    {
        match current_physical_swapchain(layer, swapchains[index]) {
            Ok(handle) => {
                physical.push(handle);
            },
            Err(_) => {
                assert(routed_physical(entry, swapchains@[index as int]) is Err);
                return None;
            },
        }
        index = index + 1;
    }
    assert(physical@ =~= physical_list(entry, swapchains@));
    let arrays: (Vec<Handle>, Vec<OwnedHdrMetadata>) = match with_metadata_array(
        swapchains,
        physical.as_slice(),
        metadata,
    ) {
        Ok(arrays) => arrays,
        Err(_) => {
            return None;
        },
    };
    let mut kept: usize = 0;
    while kept < swapchains.len()
        invariant
            layer.wf(),
            entry.wf(),
            swapchains@.len() == metadata@.len(),
            kept <= swapchains@.len(),
            layer@ == metadata_kept(
                entry,
                swapchains@.take(kept as int),
                metadata@.take(kept as int),
            ),
        decreases swapchains@.len() - kept,
    {
        let handle: Handle = swapchains[kept];
        let ghost before = layer@;
        proof {
            lemma_metadata_keeps_routes(
                entry,
                swapchains@.take(kept as int),
                metadata@.take(kept as int),
            );
            assert(route_of(before, handle) == route_of(entry, handle));
            assert(swapchains@.take(kept + 1).drop_last() =~= swapchains@.take(kept as int));
            assert(metadata@.take(kept + 1).drop_last() =~= metadata@.take(kept as int));
            lemma_metadata_keeps_routes(
                entry,
                swapchains@.take(kept + 1),
                metadata@.take(kept + 1),
            );
        }
        if let Ok(SwapchainRoute::CurrentVirtual { .. }) = resolve_swapchain_route(layer, handle) {
            if let Some(place) = layer.swapchains.find(handle) {
                let ghost table = layer.swapchains;
                proof {
                    table.lemma_at(place as int);
                    assert(before.swapchains[handle] == table.value_seq()[place as int]@);
                }
                let state: &mut SwapchainState = layer.swapchains.at_mut(place);
                state.hdr_metadata = Some(metadata[kept]);
                proof {
                    lemma_set_swapchain(table, layer.swapchains, place as int);
                }
            }
            assert(layer@ =~= metadata_kept(
                entry,
                swapchains@.take(kept + 1),
                metadata@.take(kept + 1),
            ));
        }
        kept = kept + 1;
    }
    assert(swapchains@.take(kept as int) =~= swapchains@);
    assert(metadata@.take(kept as int) =~= metadata@);
    Some(arrays)
}

proof fn lemma_first_is_kept(first: Handle, rest: Seq<Handle>)
    requires
        first != NULL_HANDLE,
    ensures
        unique_handles(seq![first] + rest).len() > 0,
        unique_handles(seq![first] + rest)[0] == first,
    decreases rest.len(),
{
    let all = seq![first] + rest;
    if rest.len() == 0 {
        assert(all.drop_last() =~= Seq::empty());
        assert(unique_handles(all.drop_last()) =~= Seq::empty());
        assert(all.last() == first);
    } else {
        assert(all.drop_last() =~= seq![first] + rest.drop_last());
        lemma_first_is_kept(first, rest.drop_last());
    }
}

/// The timings of the current generation are kept: whatever older generations
/// tell of the same present, the merged list holds what the current one does.
pub proof fn current_timings_are_kept(
    state: SwapchainModel,
    answers: Seq<Result<Vec<PresentationTiming>, VkResult>>,
    merged: Seq<PresentationTiming>,
    id: u32,
)
    requires
        state.physical_handle != NULL_HANDLE,
        answers.len() == generations_in_order(state).len(),
        merges(merged, all_timings(answers)),
    ensures
        generations_in_order(state).last() == state.physical_handle,
        answers.last() matches Ok(current) ==> latest(current@, id) is Some ==> latest(merged, id)
            == latest(current@, id),
{
    lemma_first_is_kept(
        state.physical_handle,
        state.retired_physical_generations.reverse(),
    );
    if answers.last() is Ok {
        newer_timings_are_kept(answers, merged, id);
    }
}

/// The layer answers a command on swapchains itself, or it does not reach a
/// driver below a device that has virtual swapchains.
pub proof fn swapchain_commands_never_pass_unseen(
    devices: DevicesModel,
    device: Handle,
    name: Seq<u8>,
)
    requires
        swapchain_related(name),
        device != NULL_HANDLE,
        allows_virtualization(devices, device),
    ensures
        device_address(devices, device, name) != ProcAddress::Downstream,
{
}

/// A wait for a present goes where the present went, also after the swapchain
/// got a new generation.
pub proof fn waits_follow_their_present(
    layer: LayerModel,
    swapchain: Handle,
    present_id: u64,
    later: SwapchainModel,
)
    requires
        is_routed_virtual(layer, swapchain),
        layer.swapchains[swapchain].present_ids.routes.contains_key(present_id),
        later.present_ids == layer.swapchains[swapchain].present_ids,
        is_routed_virtual(layer.with_swapchain(swapchain, later), swapchain),
    ensures
        presented_to(layer.with_swapchain(swapchain, later), swapchain, present_id, true)
            == presented_to(layer, swapchain, present_id, true),
{
}

/// The layer answers every command of a device that hands out queues, that works
/// on swapchains or that presents, and each with its own hook.
pub proof fn each_device_command_has_its_hook(name: Seq<u8>)
    ensures
        device_hook(name) is Some <==> {
            ||| named(name, "vkGetDeviceQueue")
            ||| named(name, "vkGetDeviceQueue2")
            ||| named(name, "vkCreateSwapchainKHR")
            ||| named(name, "vkDestroySwapchainKHR")
            ||| named(name, "vkGetSwapchainImagesKHR")
            ||| named(name, "vkAcquireNextImageKHR")
            ||| named(name, "vkAcquireNextImage2KHR")
            ||| named(name, "vkReleaseSwapchainImagesEXT")
            ||| named(name, "vkReleaseSwapchainImagesKHR")
            ||| named(name, "vkGetSwapchainStatusKHR")
            ||| named(name, "vkWaitForPresentKHR")
            ||| named(name, "vkGetPastPresentationTimingGOOGLE")
            ||| named(name, "vkGetRefreshCycleDurationGOOGLE")
            ||| named(name, "vkGetSwapchainCounterEXT")
            ||| named(name, "vkSetHdrMetadataEXT")
            ||| named(name, "vkAcquireFullScreenExclusiveModeEXT")
            ||| named(name, "vkReleaseFullScreenExclusiveModeEXT")
            ||| named(name, "vkDestroyDevice")
            ||| named(name, "vkQueuePresentKHR")
        },
        device_hook(name) matches Some(hook) ==> match hook {
            Hook::GetDeviceQueue => named(name, "vkGetDeviceQueue"),
            Hook::GetDeviceQueue2 => named(name, "vkGetDeviceQueue2"),
            Hook::CreateSwapchain => named(name, "vkCreateSwapchainKHR"),
            Hook::DestroySwapchain => named(name, "vkDestroySwapchainKHR"),
            Hook::GetSwapchainImages => named(name, "vkGetSwapchainImagesKHR"),
            Hook::AcquireNextImage => named(name, "vkAcquireNextImageKHR"),
            Hook::AcquireNextImage2 => named(name, "vkAcquireNextImage2KHR"),
            Hook::ReleaseSwapchainImages => named(name, "vkReleaseSwapchainImagesEXT"),
            Hook::ReleaseSwapchainImagesKhr => named(name, "vkReleaseSwapchainImagesKHR"),
            Hook::GetSwapchainStatus => named(name, "vkGetSwapchainStatusKHR"),
            Hook::WaitForPresent => named(name, "vkWaitForPresentKHR"),
            Hook::GetPastPresentationTiming => named(name, "vkGetPastPresentationTimingGOOGLE"),
            Hook::GetRefreshCycleDuration => named(name, "vkGetRefreshCycleDurationGOOGLE"),
            Hook::GetSwapchainCounter => named(name, "vkGetSwapchainCounterEXT"),
            Hook::SetHdrMetadata => named(name, "vkSetHdrMetadataEXT"),
            Hook::AcquireFullScreenExclusiveMode => named(name, "vkAcquireFullScreenExclusiveModeEXT"),
            Hook::ReleaseFullScreenExclusiveMode => named(name, "vkReleaseFullScreenExclusiveModeEXT"),
            Hook::DestroyDevice => named(name, "vkDestroyDevice"),
            Hook::QueuePresent => named(name, "vkQueuePresentKHR"),
            _ => false,
        },
{
}

/// The layer answers the commands of an instance that make or destroy what it
/// keeps track of, that tell of surfaces and that hand out commands, and the
/// commands of a device with them. One of these an instance does not hand out.
pub proof fn each_instance_command_has_its_hook(name: Seq<u8>)
    ensures
        instance_hook(name) is Some <==> {
            ||| named(name, "vkCreateInstance")
            ||| named(name, "vkCreateDevice")
            ||| named(name, "vkDestroyInstance")
            ||| named(name, "vkCreateXlibSurfaceKHR")
            ||| named(name, "vkCreateXcbSurfaceKHR")
            ||| named(name, "vkDestroySurfaceKHR")
            ||| named(name, "vkEnumerateDeviceExtensionProperties")
            ||| named(name, "vkGetPhysicalDeviceSurfaceCapabilitiesKHR")
            ||| named(name, "vkGetPhysicalDeviceSurfaceCapabilities2KHR")
            ||| named(name, "vkGetInstanceProcAddr")
            ||| named(name, "vkGetDeviceProcAddr")
            ||| device_hook(name) is Some && device_hook(name) != Some(
                Hook::ReleaseSwapchainImagesKhr,
            )
        },
        instance_hook(name) matches Some(hook) ==> match hook {
            Hook::CreateInstance => named(name, "vkCreateInstance"),
            Hook::CreateDevice => named(name, "vkCreateDevice"),
            Hook::DestroyInstance => named(name, "vkDestroyInstance"),
            Hook::CreateXlibSurface => named(name, "vkCreateXlibSurfaceKHR"),
            Hook::CreateXcbSurface => named(name, "vkCreateXcbSurfaceKHR"),
            Hook::DestroySurface => named(name, "vkDestroySurfaceKHR"),
            Hook::EnumerateDeviceExtensionProperties => named(name, "vkEnumerateDeviceExtensionProperties"),
            Hook::GetSurfaceCapabilities => named(name, "vkGetPhysicalDeviceSurfaceCapabilitiesKHR"),
            Hook::GetSurfaceCapabilities2 => named(name, "vkGetPhysicalDeviceSurfaceCapabilities2KHR"),
            Hook::GetInstanceProcAddr => named(name, "vkGetInstanceProcAddr"),
            Hook::GetDeviceProcAddr => named(name, "vkGetDeviceProcAddr"),
            other => device_hook(name) == Some(other) && other != Hook::ReleaseSwapchainImagesKhr,
        },
{
}

/// A command that the layer answers is handed out from the layer, whatever the
/// device. Any other comes from below, from a device that the layer knows and
/// from no other, unless it works on swapchains and the device may have virtual
/// ones.
pub proof fn commands_come_from_the_layer_or_from_below(
    devices: DevicesModel,
    device: Handle,
    name: Seq<u8>,
)
    ensures
        ({
            let address = device_address(devices, device, name);
            let known = devices.devices.contains_key(device);
            let clear = !known || devices.devices[device].wsi.incompatible is None;
            let works_on_swapchains = has_part(name, "Swapchain".spec_bytes()) || has_part(
                name,
                "Present".spec_bytes(),
            );
            match device_hook(name) {
                Some(hook) => address == ProcAddress::Layer(hook),
                None => if works_on_swapchains && device != NULL_HANDLE && clear {
                    address == ProcAddress::Absent
                } else if known {
                    address == ProcAddress::Downstream
                } else {
                    address == ProcAddress::Absent
                },
            }
        }),
{
}

/// A command on a swapchain goes to the downstream swapchain behind it, where
/// the device has the command: that of the current generation for a virtual
/// one, itself for any other. One that is retired, being replaced, or a token
/// that the layer does not know is out of date.
pub proof fn commands_go_to_the_swapchain_behind(
    layer: LayerModel,
    swapchain: Handle,
    available: bool,
)
    ensures
        ({
            let state = layer.swapchains[swapchain];
            let known = layer.swapchains.contains_key(swapchain);
            let went = forwarded(layer, swapchain, available);
            let late = Err::<Handle, VkResult>(ERROR_OUT_OF_DATE_KHR);
            if layer.retired.contains(swapchain) || (known && state.lifecycle.active is Some) || (
            !known && swapchain > 0x8000_0000_0000_0000) {
                went == late
            } else if known && state.mapping is Some && (state.contract is None
                || state.mapping.unwrap().generation != state.generation) {
                went == late
            } else if !available {
                went == Err::<Handle, VkResult>(ERROR_EXTENSION_NOT_PRESENT)
            } else if known && state.mapping is Some {
                went == Ok::<Handle, VkResult>(state.physical_handle)
            } else {
                went == Ok::<Handle, VkResult>(swapchain)
            }
        }),
{
}

/// A wait for an identifier goes to the downstream swapchain that the present
/// with it went to; of an identifier that was never presented a virtual
/// swapchain knows nothing.
pub proof fn waits_go_where_the_identifier_went(
    layer: LayerModel,
    swapchain: Handle,
    present_id: u64,
)
    requires
        layer.swapchains.contains_key(swapchain),
        !layer.retired.contains(swapchain),
        layer.swapchains[swapchain].lifecycle.active is None,
        layer.swapchains[swapchain].mapping is Some,
        layer.swapchains[swapchain].contract is Some,
        layer.swapchains[swapchain].mapping.unwrap().generation
            == layer.swapchains[swapchain].generation,
    ensures
        ({
            let routes = layer.swapchains[swapchain].present_ids.routes;
            &&& routes.contains_key(present_id) ==> presented_to(
                layer,
                swapchain,
                present_id,
                true,
            ) == Ok::<Handle, VkResult>(routes[present_id].physical)
            &&& routes.contains_key(present_id) ==> presented_to(
                layer,
                swapchain,
                present_id,
                false,
            ) == Err::<Handle, VkResult>(ERROR_EXTENSION_NOT_PRESENT)
            &&& !routes.contains_key(present_id) ==> presented_to(
                layer,
                swapchain,
                present_id,
                true,
            ) == Err::<Handle, VkResult>(ERROR_OUT_OF_DATE_KHR)
        }),
{
}

/// The generations of a swapchain are its current downstream swapchain and all
/// that were retired, each once and none of them null, with the current one
/// last. Where none was retired twice they come in the order in which they were
/// retired.
pub proof fn generations_are_asked_from_the_oldest_on(state: SwapchainModel, handle: Handle)
    ensures
        generations_in_order(state).contains(handle) <==> handle != NULL_HANDLE && (handle
            == state.physical_handle || state.retired_physical_generations.contains(handle)),
        generations_in_order(state).no_duplicates(),
        ({
            let retired = state.retired_physical_generations;
            retired.push(state.physical_handle).no_duplicates() && !retired.contains(NULL_HANDLE)
                && state.physical_handle != NULL_HANDLE ==> generations_in_order(state)
                == retired.push(state.physical_handle)
        }),
{
    let retired = state.retired_physical_generations;
    let asked = seq![state.physical_handle] + retired.reverse();
    let once = unique_handles(asked);
    super::lifetime::unique_handles_are_a_set(asked);
    assert(asked.contains(handle) <==> handle == state.physical_handle || retired.contains(
        handle,
    )) by {
        assert(asked[0] == state.physical_handle);
        if retired.contains(handle) {
            let i = retired.index_of(handle);
            assert(asked[retired.len() - i] == handle);
        }
        if asked.contains(handle) && handle != state.physical_handle {
            let i = asked.index_of(handle);
            assert(retired[retired.len() - i] == handle);
        }
    }
    assert(once.reverse().contains(handle) <==> once.contains(handle)) by {
        if once.contains(handle) {
            let i = once.index_of(handle);
            assert(once.reverse()[once.len() - 1 - i] == handle);
        }
        if once.reverse().contains(handle) {
            let i = once.reverse().index_of(handle);
            assert(once[once.len() - 1 - i] == handle);
        }
    }
    assert(once.reverse().no_duplicates());
    if retired.push(state.physical_handle).no_duplicates() && !retired.contains(NULL_HANDLE)
        && state.physical_handle != NULL_HANDLE {
        let all = retired.push(state.physical_handle);
        assert forall|i: int, j: int|
            0 <= i < asked.len() && 0 <= j < asked.len() && i != j implies asked[i] != asked[j] by {
            assert(asked[i] == all[all.len() - 1 - i]);
            assert(asked[j] == all[all.len() - 1 - j]);
        }
        assert forall|i: int| 0 <= i < asked.len() implies asked[i] != NULL_HANDLE by {
            assert(asked[i] == all[all.len() - 1 - i]);
            if i > 0 {
                assert(retired.contains(asked[i])) by {
                    assert(retired[retired.len() - i] == asked[i]);
                }
            }
        }
        lemma_unique_stays(asked);
        assert(asked.reverse() =~= all);
    }
}

proof fn lemma_unique_stays(handles: Seq<Handle>)
    requires
        handles.no_duplicates(),
        forall|i: int| 0 <= i < handles.len() ==> handles[i] != NULL_HANDLE,
    ensures
        unique_handles(handles) == handles,
    decreases handles.len(),
{
    if handles.len() > 0 {
        let front = handles.drop_last();
        assert(front.no_duplicates());
        lemma_unique_stays(front);
        assert(!front.contains(handles.last())) by {
            if front.contains(handles.last()) {
                let i = front.index_of(handles.last());
                assert(handles[i] == handles[handles.len() - 1]);
            }
        }
        assert(front.push(handles.last()) =~= handles);
    } else {
        assert(unique_handles(handles) =~= handles);
    }
}

/// Metadata go down for the swapchains behind those that were named, in their
/// order. A virtual swapchain keeps what was set for it last; nothing else
/// changes.
pub proof fn metadata_are_kept_for_virtual_swapchains(
    layer: LayerModel,
    swapchains: Seq<Handle>,
    metadata: Seq<OwnedHdrMetadata>,
    handle: Handle,
    at: int,
)
    requires
        layer.wf(),
        swapchains.len() == metadata.len(),
    ensures
        ({
            let after = metadata_kept(layer, swapchains, metadata);
            let now = after.swapchains[handle];
            &&& after.swapchains.contains_key(handle) == layer.swapchains.contains_key(handle)
            &&& now == SwapchainModel {
                hdr_metadata: now.hdr_metadata,
                ..layer.swapchains[handle]
            }
            &&& !swapchains.contains(handle) ==> now == layer.swapchains[handle]
            &&& !is_routed_virtual(layer, handle) ==> now == layer.swapchains[handle]
            &&& 0 <= at < swapchains.len() && swapchains[at] == handle && is_routed_virtual(
                layer,
                handle,
            ) && (forall|i: int| at < i < swapchains.len() ==> swapchains[i] != handle)
                ==> now.hdr_metadata == Some(metadata[at])
            &&& after.surfaces == layer.surfaces
            &&& after.retired == layer.retired
        }),
        physical_list(layer, swapchains).len() == swapchains.len(),
        0 <= at < swapchains.len() && all_routed(layer, swapchains) ==> Ok::<Handle, VkResult>(
            physical_list(layer, swapchains)[at],
        ) == forwarded(layer, swapchains[at], true),
    decreases swapchains.len(),
{
    if 0 <= at < swapchains.len() && all_routed(layer, swapchains) {
        assert(routed_physical(layer, swapchains[at]) is Ok);
    }
    if swapchains.len() > 0 {
        let front = swapchains.drop_last();
        metadata_are_kept_for_virtual_swapchains(layer, front, metadata.drop_last(), handle, at);
        if front.contains(handle) {
            assert(swapchains[front.index_of(handle)] == handle);
        }
        if swapchains.contains(handle) && !front.contains(handle) {
            let i = swapchains.index_of(handle);
            if i < front.len() {
                assert(front[i] == handle);
            }
        }
        assert(swapchains[swapchains.len() - 1] == swapchains.last());
        if 0 <= at < front.len() {
            assert(front[at] == swapchains[at]);
            assert forall|i: int| at < i < front.len() && (forall|k: int|
                at < k < swapchains.len() ==> swapchains[k] != handle) implies front[i]
                != handle by {
                assert(front[i] == swapchains[i]);
            }
        }
    }
}

/// A list of swapchains goes below where each of them does, in its place and as
/// long as it was.
pub proof fn a_list_goes_below_with_all_its_swapchains(
    layer: LayerModel,
    before: Seq<Handle>,
    swapchain: Handle,
    after: Seq<Handle>,
)
    ensures
        ({
            let all = before + seq![swapchain] + after;
            let listed = physical_list(layer, all);
            &&& listed.len() == before.len() + 1 + after.len()
            &&& all_routed(layer, all) <==> all_routed(layer, before) && all_routed(layer, after)
                && route_of(layer, swapchain) is Ok
            &&& all_routed(layer, all) ==> (match route_of(layer, swapchain).unwrap() {
                SwapchainRoute::Direct(physical) => listed[before.len() as int] == physical,
                SwapchainRoute::CurrentVirtual { physical, .. } => listed[before.len() as int]
                    == physical,
            })
        }),
        all_routed(layer, Seq::empty()),
{
    let all = before + seq![swapchain] + after;
    assert(all[before.len() as int] == swapchain);
    if all_routed(layer, all) {
        assert forall|i: int| 0 <= i < before.len() implies routed_physical(
            layer,
            #[trigger] before[i],
        ) is Ok by {
            assert(all[i] == before[i]);
        }
        assert forall|i: int| 0 <= i < after.len() implies routed_physical(
            layer,
            #[trigger] after[i],
        ) is Ok by {
            assert(all[before.len() + 1 + i] == after[i]);
        }
    }
    if all_routed(layer, before) && all_routed(layer, after) && route_of(layer, swapchain) is Ok {
        assert forall|i: int| 0 <= i < all.len() implies routed_physical(
            layer,
            #[trigger] all[i],
        ) is Ok by {
            if i < before.len() {
                assert(all[i] == before[i]);
            } else if i > before.len() {
                assert(all[i] == after[i - before.len() - 1]);
            }
        }
    }
}

} // verus!
