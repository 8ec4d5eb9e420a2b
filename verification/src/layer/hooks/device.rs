//! What the layer changes about instances and devices on their way down.

use vstd::prelude::*;

use super::maintenance::DeviceCreateInfo;
use super::wsi_compatibility::DeviceWsiCapabilities;
use crate::layer::state::{DeviceState, Devices};
use crate::seqs::contains_u64;
use crate::vk::{
    Handle, VkResult, API_VERSION_1_0, API_VERSION_1_2, ERROR_INITIALIZATION_FAILED,
    STRUCTURE_TYPE_APPLICATION_INFO, STRUCTURE_TYPE_LOADER_DEVICE_CREATE_INFO,
    STRUCTURE_TYPE_PHYSICAL_DEVICE_FEATURES_2, STRUCTURE_TYPE_PHYSICAL_DEVICE_VULKAN_1_2_FEATURES,
};

verus! {

/// The loader's node with the next layer's entry points.
pub const LAYER_LINK_INFO: i32 = 0;

/// The loader's node with the callback that sets its data on an object.
pub const LOADER_DATA_CALLBACK: i32 = 1;

pub const LOADER_INTERFACE_VERSION: u32 = 2;

/// The structure type of a negotiation with the loader.
pub const NEGOTIATE_STRUCTURE_TYPE: u32 = 1;

/// The interface version that the layer and the loader agree on. The loader's
/// request is its structure type and the version that it speaks.
pub fn negotiate_inner(request: Option<(u32, u32)>) -> (result: Result<u32, VkResult>)
    ensures
        result == (match request {
            Some((structure_type, version)) if structure_type == NEGOTIATE_STRUCTURE_TYPE
                && version >= LOADER_INTERFACE_VERSION => Ok(LOADER_INTERFACE_VERSION),
            _ => Err(ERROR_INITIALIZATION_FAILED),
        }),
{
    match request {
        None => Err(ERROR_INITIALIZATION_FAILED),
        Some((structure_type, version)) => {
            if structure_type != NEGOTIATE_STRUCTURE_TYPE || version < LOADER_INTERFACE_VERSION {
                return Err(ERROR_INITIALIZATION_FAILED);
            }
            Ok(LOADER_INTERFACE_VERSION)
        },
    }
}

/// A node of a creation chain, as far as the loader's own nodes need it.
#[derive(Debug, Clone, Copy, PartialEq, Eq, Structural)]
pub struct LoaderNode {
    pub structure_type: i32,
    pub function: i32,
}

/// The node at `at` is the first with this type and function.
pub open spec fn first_node(
    nodes: Seq<LoaderNode>,
    structure_type: i32,
    function: i32,
    at: Option<usize>,
) -> bool {
    let wanted = LoaderNode { structure_type, function };
    match at {
        Some(index) => {
            &&& index < nodes.len()
            &&& nodes[index as int] == wanted
            &&& forall|i: int| 0 <= i < index ==> nodes[i] != wanted
        },
        None => forall|i: int| 0 <= i < nodes.len() ==> nodes[i] != wanted,
    }
}

fn find_node(nodes: &[LoaderNode], structure_type: i32, function: i32) -> (at: Option<usize>)
    ensures
        first_node(nodes@, structure_type, function, at),
{
    let mut index: usize = 0;
    while index < nodes.len()
        invariant
            index <= nodes@.len(),
            forall|i: int|
                0 <= i < index ==> nodes@[i] != (LoaderNode { structure_type, function }),
        decreases nodes@.len() - index,
    {
        if nodes[index].structure_type == structure_type && nodes[index].function == function {
            return Some(index);
        }
        index = index + 1;
    }
    None
}

/// The node that links to the next layer.
pub fn find_layer_link(nodes: &[LoaderNode], expected_type: i32) -> (at: Option<usize>)
    ensures
        first_node(nodes@, expected_type, LAYER_LINK_INFO, at),
{
    find_node(nodes, expected_type, LAYER_LINK_INFO)
}

/// The node with the loader's callback for a device's objects.
pub fn find_device_callback(nodes: &[LoaderNode]) -> (at: Option<usize>)
    ensures
        first_node(
            nodes@,
            STRUCTURE_TYPE_LOADER_DEVICE_CREATE_INFO,
            LOADER_DATA_CALLBACK,
            at,
        ),
{
    find_node(nodes, STRUCTURE_TYPE_LOADER_DEVICE_CREATE_INFO, LOADER_DATA_CALLBACK)
}

/// The version that an application asks for; none, or zero, is the first one.
pub open spec fn asked_version(requested: Option<u32>) -> u32 {
    match requested {
        Some(version) if version != 0 => version,
        _ => API_VERSION_1_0,
    }
}

/// The version that the instance is made with: at least the one that the
/// layer needs, where it can be had, else what the application asked for.
pub fn instance_api_version(requested: Option<u32>, supported: u32) -> (version: u32)
    ensures
        version == (if asked_version(requested) < API_VERSION_1_2 && supported
            >= API_VERSION_1_2 {
            API_VERSION_1_2
        } else {
            asked_version(requested)
        }),
{
    let asked: u32 = match requested {
        Some(version) => if version != 0 {
            version
        } else {
            API_VERSION_1_0
        },
        None => API_VERSION_1_0,
    };
    if asked < API_VERSION_1_2 && supported >= API_VERSION_1_2 {
        API_VERSION_1_2
    } else {
        asked
    }
}

/// The application's own description is passed on, with the version changed,
/// if it is one.
pub fn keeps_application_info(structure_type: Option<i32>) -> (kept: bool)
    ensures
        kept == (structure_type == Some(STRUCTURE_TYPE_APPLICATION_INFO)),
{
    match structure_type {
        Some(found) => found == STRUCTURE_TYPE_APPLICATION_INFO,
        None => false,
    }
}

/// An application never gets an older version than it asked for, and the
/// layer gets what it needs wherever the driver has it.
pub proof fn the_instance_version_only_grows(requested: Option<u32>, supported: u32, version: u32)
    requires
        version == (if asked_version(requested) < API_VERSION_1_2 && supported
            >= API_VERSION_1_2 {
            API_VERSION_1_2
        } else {
            asked_version(requested)
        }),
    ensures
        version >= asked_version(requested),
        supported >= API_VERSION_1_2 ==> version >= API_VERSION_1_2,
{
}

/// An instance and the physical devices that it lists, if it could list them.
#[derive(Debug)]
pub struct InstanceDevices {
    pub instance: Handle,
    pub devices: Option<Vec<Handle>>,
}

pub open spec fn lists(candidate: InstanceDevices, physical_device: Handle) -> bool {
    candidate.devices is Some && candidate.devices.unwrap()@.contains(physical_device)
}

/// The first instance that lists the physical device.
pub fn instance_for_physical_device(candidates: &[InstanceDevices], physical_device: Handle) -> (
    instance: Option<Handle>)
    ensures
        match instance {
            Some(found) => exists|i: int|
                {
                    &&& 0 <= i < candidates@.len()
                    &&& #[trigger] lists(candidates@[i], physical_device)
                    &&& candidates@[i].instance == found
                    &&& forall|j: int|
                        0 <= j < i ==> !#[trigger] lists(candidates@[j], physical_device)
                },
            None => forall|i: int|
                0 <= i < candidates@.len() ==> !#[trigger] lists(candidates@[i], physical_device),
        },
{
    let mut index: usize = 0;
    while index < candidates.len()
        invariant
            index <= candidates@.len(),
            forall|j: int|
                0 <= j < index ==> !#[trigger] lists(candidates@[j], physical_device),
        decreases candidates@.len() - index,
    {
        if let Some(devices) = &candidates[index].devices {
            if contains_u64(devices.as_slice(), physical_device) {
                assert(lists(candidates@[index as int], physical_device));
                return Some(candidates[index].instance);
            }
        }
        assert(!lists(candidates@[index as int], physical_device));
        index = index + 1;
    }
    None
}

/// The device features that the layer works better with.
#[derive(Debug, Clone, Copy, PartialEq, Eq, Structural)]
pub struct ShaderFeatures {
    pub storage_image_write_without_format: bool,
    pub int16: bool,
    pub float16: bool,
}

/// Where 16-bit floats are turned on.
#[derive(Debug, Clone, Copy, PartialEq, Eq, Structural)]
pub enum Float16Place {
    /// They are not.
    Nowhere,
    /// In a structure of the layer's own, in front of the application's chain.
    Inserted,
    /// In the application's own structure.
    Existing,
}

/// How a device's features are turned on.
#[derive(Debug, Clone, Copy, PartialEq, Eq, Structural)]
pub enum FeaturePlan {
    /// The request is passed on as it came.
    Unchanged,
    /// In a copy of the application's feature structure.
    Enabled { storage_write: bool, int16: bool },
    /// In an extended structure in front of the application's chain, in place
    /// of its feature structure, from which it is filled.
    Extended { storage_write: bool, int16: bool, float16: Float16Place },
}

/// The first generation of drivers does not report 16-bit floats.
pub open spec fn usable_features(supported: ShaderFeatures, api_version: u32) -> ShaderFeatures {
    ShaderFeatures { float16: supported.float16 && api_version >= API_VERSION_1_2, ..supported }
}

/// An application that extends its features itself is left alone. Else the
/// layer extends them, if there is anything to turn on.
pub open spec fn planned_features(
    chain: Seq<i32>,
    has_enabled_features: bool,
    usable: ShaderFeatures,
) -> FeaturePlan {
    if !chain.contains(STRUCTURE_TYPE_PHYSICAL_DEVICE_FEATURES_2) && (
    usable.storage_image_write_without_format || usable.int16 || usable.float16) {
        FeaturePlan::Extended {
            storage_write: usable.storage_image_write_without_format,
            int16: usable.int16,
            float16: if !usable.float16 {
                Float16Place::Nowhere
            } else if chain.contains(STRUCTURE_TYPE_PHYSICAL_DEVICE_VULKAN_1_2_FEATURES) {
                Float16Place::Existing
            } else {
                Float16Place::Inserted
            },
        }
    } else if has_enabled_features {
        FeaturePlan::Enabled {
            storage_write: usable.storage_image_write_without_format,
            int16: usable.int16,
        }
    } else {
        FeaturePlan::Unchanged
    }
}

fn holds_type(chain: &[i32], wanted: i32) -> (found: bool)
    ensures
        found == chain@.contains(wanted),
{
    let mut index: usize = 0;
    while index < chain.len()
        invariant
            index <= chain@.len(),
            forall|i: int| 0 <= i < index ==> chain@[i] != wanted,
        decreases chain@.len() - index,
    {
        if chain[index] == wanted {
            assert(chain@[index as int] == wanted);
            return true;
        }
        index = index + 1;
    }
    false
}

/// Decides how the features that the layer needs are turned on. The chain is
/// given by the types of its structures.
pub fn plan_device_features(
    chain: &[i32],
    has_enabled_features: bool,
    supported: ShaderFeatures,
    api_version: u32,
) -> (plan: FeaturePlan)
    ensures
        plan == planned_features(
            chain@,
            has_enabled_features,
            usable_features(supported, api_version),
        ),
{
    let storage_write: bool = supported.storage_image_write_without_format;
    let int16: bool = supported.int16;
    let float16: bool = supported.float16 && api_version >= API_VERSION_1_2;
    if !holds_type(chain, STRUCTURE_TYPE_PHYSICAL_DEVICE_FEATURES_2) && (storage_write || int16
        || float16) {
        let place: Float16Place = if !float16 {
            Float16Place::Nowhere
        } else if holds_type(chain, STRUCTURE_TYPE_PHYSICAL_DEVICE_VULKAN_1_2_FEATURES) {
            Float16Place::Existing
        } else {
            Float16Place::Inserted
        };
        return FeaturePlan::Extended { storage_write, int16, float16: place };
    }
    if has_enabled_features {
        return FeaturePlan::Enabled { storage_write, int16 };
    }
    FeaturePlan::Unchanged
}

/// No feature is turned on that the device does not have.
pub proof fn only_supported_features_are_turned_on(
    chain: Seq<i32>,
    has_enabled_features: bool,
    supported: ShaderFeatures,
    api_version: u32,
)
    ensures
        match planned_features(
            chain,
            has_enabled_features,
            usable_features(supported, api_version),
        ) {
            FeaturePlan::Unchanged => true,
            FeaturePlan::Enabled { storage_write, int16 } => {
                &&& storage_write ==> supported.storage_image_write_without_format
                &&& int16 ==> supported.int16
            },
            FeaturePlan::Extended { storage_write, int16, float16 } => {
                &&& storage_write ==> supported.storage_image_write_without_format
                &&& int16 ==> supported.int16
                &&& float16 != Float16Place::Nowhere ==> supported.float16
            },
        },
{
}

/// Takes a new device in, with what its request says of the extensions that
/// matter here.
pub fn device_created(
    devices: &mut Devices,
    device: Handle,
    info: &DeviceCreateInfo,
    vulkan_api_version: u32,
    queue_families: Vec<u32>,
)
    requires
        old(devices).wf(),
    ensures
        final(devices).wf(),
        final(devices)@.queues == old(devices)@.queues,
        final(devices)@.devices == old(devices)@.devices.insert(
            device,
            final(devices)@.devices[device],
        ),
        final(devices)@.devices[device].vulkan_api_version == vulkan_api_version,
        final(devices)@.devices[device].queue_families == queue_families,
        final(devices)@.devices[device].wsi.describes(*info, vulkan_api_version),
{
    let wsi: DeviceWsiCapabilities = DeviceWsiCapabilities::from_create_info(
        info,
        vulkan_api_version,
    );
    devices.register_device(device, DeviceState { wsi, vulkan_api_version, queue_families });
}

/// An application that asks for no version, or for zero, gets the first one, and
/// any other what it asks for. Half floats are used from the version on that
/// tells of them.
pub proof fn versions_are_taken_as_asked(
    requested: Option<u32>,
    supported: ShaderFeatures,
    api_version: u32,
)
    ensures
        asked_version(None) == API_VERSION_1_0,
        asked_version(Some(0)) == API_VERSION_1_0,
        requested matches Some(version) ==> version != 0 ==> asked_version(requested) == version,
        usable_features(supported, api_version).float16 <==> supported.float16 && api_version
            >= API_VERSION_1_2,
        usable_features(supported, api_version).int16 == supported.int16,
        usable_features(supported, api_version).storage_image_write_without_format
            == supported.storage_image_write_without_format,
{
}

/// Every feature that the layer can use is turned on where the application did
/// not extend its features itself. Where it did, or where there is nothing to
/// turn on, its own plain features are completed, if it gave any.
pub proof fn usable_features_are_turned_on(
    chain: Seq<i32>,
    has_enabled_features: bool,
    usable: ShaderFeatures,
)
    ensures
        ({
            let extends = chain.contains(STRUCTURE_TYPE_PHYSICAL_DEVICE_FEATURES_2);
            let any = usable.storage_image_write_without_format || usable.int16 || usable.float16;
            let planned = planned_features(chain, has_enabled_features, usable);
            &&& !extends && any ==> {
                &&& planned matches FeaturePlan::Extended { storage_write, int16, float16 }
                &&& storage_write == usable.storage_image_write_without_format
                &&& int16 == usable.int16
                &&& float16 == Float16Place::Nowhere <==> !usable.float16
                &&& float16 == Float16Place::Existing <==> usable.float16 && chain.contains(
                    STRUCTURE_TYPE_PHYSICAL_DEVICE_VULKAN_1_2_FEATURES,
                )
            }
            &&& (extends || !any) && has_enabled_features ==> planned == (FeaturePlan::Enabled {
                storage_write: usable.storage_image_write_without_format,
                int16: usable.int16,
            })
            &&& (extends || !any) && !has_enabled_features ==> planned == FeaturePlan::Unchanged
        }),
{
}

/// The node that is found is of the wanted type and function, and none before it
/// is; nothing is found only where none is.
pub proof fn the_first_node_is_found(
    nodes: Seq<LoaderNode>,
    structure_type: i32,
    function: i32,
    at: Option<usize>,
    other: int,
)
    requires
        first_node(nodes, structure_type, function, at),
        0 <= other < nodes.len(),
        nodes[other].structure_type == structure_type,
        nodes[other].function == function,
    ensures
        at matches Some(index) && index <= other && nodes[index as int].structure_type
            == structure_type && nodes[index as int].function == function,
{
}

/// An instance lists a device where the device is among those that it could
/// list.
pub proof fn an_instance_lists_its_devices(candidate: InstanceDevices, device: Handle, at: int)
    ensures
        candidate.devices is None ==> !lists(candidate, device),
        candidate.devices matches Some(list) ==> 0 <= at < list@.len() && list@[at] == device
            ==> lists(candidate, device),
        lists(candidate, device) ==> candidate.devices is Some && exists|i: int|
            0 <= i < candidate.devices.unwrap()@.len() && #[trigger] candidate.devices.unwrap()@[i]
                == device,
{
}

/// Where no structure of the list is wanted, none is found.
pub proof fn a_missing_node_is_not_found(
    nodes: Seq<LoaderNode>,
    structure_type: i32,
    function: i32,
    at: Option<usize>,
)
    requires
        forall|i: int|
            0 <= i < nodes.len() ==> (#[trigger] nodes[i]).structure_type != structure_type
                || nodes[i].function != function,
    ensures
        first_node(nodes, structure_type, function, at) <==> at is None,
{
}

} // verus!
