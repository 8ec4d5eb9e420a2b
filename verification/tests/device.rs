use ash::vk;
use tuxscaling::layer::hooks::device::{
    device_created, find_device_callback, find_layer_link, instance_api_version,
    instance_for_physical_device, keeps_application_info, negotiate_inner, plan_device_features,
    FeaturePlan, Float16Place, InstanceDevices, LoaderNode, ShaderFeatures,
};
use tuxscaling::layer::hooks::maintenance::DeviceCreateInfo;
use tuxscaling::layer::state::Devices;
use tuxscaling::vk::ERROR_INITIALIZATION_FAILED;

const LOADER_INSTANCE: i32 = 47;
const LOADER_DEVICE: i32 = 48;

#[test]
fn the_interface_version_is_agreed_with_the_loader() {
    assert_eq!(negotiate_inner(Some((1, 2))), Ok(2));
    assert_eq!(negotiate_inner(Some((1, 7))), Ok(2));
    assert_eq!(
        negotiate_inner(Some((1, 1))),
        Err(ERROR_INITIALIZATION_FAILED)
    );
    assert_eq!(
        negotiate_inner(Some((2, 2))),
        Err(ERROR_INITIALIZATION_FAILED)
    );
    assert_eq!(negotiate_inner(None), Err(ERROR_INITIALIZATION_FAILED));
}

#[test]
fn the_loader_s_nodes_are_found_by_type_and_function() {
    assert_eq!(
        vk::StructureType::LOADER_INSTANCE_CREATE_INFO.as_raw(),
        LOADER_INSTANCE
    );
    assert_eq!(
        vk::StructureType::LOADER_DEVICE_CREATE_INFO.as_raw(),
        LOADER_DEVICE
    );
    let node = |structure_type, function| LoaderNode {
        structure_type,
        function,
    };
    let nodes = [
        node(LOADER_DEVICE, 1),
        node(LOADER_INSTANCE, 0),
        node(LOADER_DEVICE, 0),
        node(LOADER_DEVICE, 0),
    ];
    assert_eq!(find_layer_link(&nodes, LOADER_DEVICE), Some(2));
    assert_eq!(find_layer_link(&nodes, LOADER_INSTANCE), Some(1));
    assert_eq!(find_device_callback(&nodes), Some(0));
    assert_eq!(find_device_callback(&nodes[1..]), None);
}

#[test]
fn instances_get_the_version_that_the_layer_needs() {
    assert_eq!(
        instance_api_version(None, vk::API_VERSION_1_3),
        vk::API_VERSION_1_2
    );
    assert_eq!(
        instance_api_version(Some(0), vk::API_VERSION_1_1),
        vk::API_VERSION_1_0
    );
    assert_eq!(
        instance_api_version(Some(vk::API_VERSION_1_3), vk::API_VERSION_1_3),
        vk::API_VERSION_1_3
    );
    assert!(keeps_application_info(Some(
        vk::StructureType::APPLICATION_INFO.as_raw()
    )));
    assert!(!keeps_application_info(Some(1)));
    assert!(!keeps_application_info(None));
}

#[test]
fn the_first_instance_that_lists_a_device_owns_it() {
    let candidates = [
        InstanceDevices {
            instance: 1,
            devices: None,
        },
        InstanceDevices {
            instance: 2,
            devices: Some(vec![20, 21]),
        },
        InstanceDevices {
            instance: 3,
            devices: Some(vec![21]),
        },
    ];
    assert_eq!(instance_for_physical_device(&candidates, 21), Some(2));
    assert_eq!(instance_for_physical_device(&candidates, 22), None);
}

#[test]
fn features_are_turned_on_where_the_application_leaves_room() {
    let all = ShaderFeatures {
        storage_image_write_without_format: true,
        int16: true,
        float16: true,
    };
    let none = ShaderFeatures {
        storage_image_write_without_format: false,
        int16: false,
        float16: false,
    };
    let vulkan12 = vk::StructureType::PHYSICAL_DEVICE_VULKAN_1_2_FEATURES.as_raw();
    let features2 = vk::StructureType::PHYSICAL_DEVICE_FEATURES_2.as_raw();

    assert_eq!(
        plan_device_features(&[], true, all, vk::API_VERSION_1_2),
        FeaturePlan::Extended {
            storage_write: true,
            int16: true,
            float16: Float16Place::Inserted,
        }
    );
    assert_eq!(
        plan_device_features(&[vulkan12], true, all, vk::API_VERSION_1_3),
        FeaturePlan::Extended {
            storage_write: true,
            int16: true,
            float16: Float16Place::Existing,
        }
    );
    assert_eq!(
        plan_device_features(&[], false, all, vk::API_VERSION_1_1),
        FeaturePlan::Extended {
            storage_write: true,
            int16: true,
            float16: Float16Place::Nowhere,
        }
    );
    assert_eq!(
        plan_device_features(&[features2], false, all, vk::API_VERSION_1_2),
        FeaturePlan::Unchanged
    );
    assert_eq!(
        plan_device_features(&[], true, none, vk::API_VERSION_1_2),
        FeaturePlan::Enabled {
            storage_write: false,
            int16: false,
        }
    );
}

#[test]
fn a_new_device_is_kept_with_its_capabilities() {
    let mut devices = Devices::new();
    let info = DeviceCreateInfo {
        extension_names: Some(vec![Some(b"VK_EXT_hdr_metadata".to_vec())]),
        chain: Vec::new(),
    };

    device_created(&mut devices, 7, &info, vk::API_VERSION_1_3, vec![3, 4]);

    let state = devices.devices.get(7).unwrap();
    assert!(state.wsi.hdr_metadata);
    assert!(!state.wsi.display_timing);
    assert_eq!(state.queue_families, vec![3, 4]);
    assert_eq!(state.vulkan_api_version, vk::API_VERSION_1_3);
}
