use ash::vk;
use tuxscaling::layer::hooks::maintenance::{
    maintenance1_support, DeviceCreateInfo, FeatureNode, Maintenance1Flavor, Maintenance1Support,
    PresentScaling,
};
use tuxscaling::layer::hooks::swapchain_create::{SwapchainCreateInfo, SwapchainNode};
use tuxscaling::layer::state::SwapchainTemplate;
use tuxscaling::vk::Extent2D;

fn device(names: &[&str], chain: Vec<FeatureNode>) -> DeviceCreateInfo {
    DeviceCreateInfo {
        extension_names: Some(
            names
                .iter()
                .map(|name| Some(name.as_bytes().to_vec()))
                .collect(),
        ),
        chain,
    }
}

fn maintenance_feature(enabled: bool) -> FeatureNode {
    FeatureNode {
        structure_type: vk::StructureType::PHYSICAL_DEVICE_SWAPCHAIN_MAINTENANCE_1_FEATURES_EXT
            .as_raw(),
        enabled,
    }
}

#[test]
fn with_create_info_rebuilds_owned_nodes_for_the_downstream_callback() {
    let modes = vec![
        vk::PresentModeKHR::FIFO.as_raw(),
        vk::PresentModeKHR::MAILBOX.as_raw(),
    ];
    let scaling = PresentScaling {
        behavior: vk::PresentScalingFlagsEXT::ASPECT_RATIO_STRETCH.as_raw(),
        gravity_x: vk::PresentGravityFlagsEXT::CENTERED.as_raw(),
        gravity_y: vk::PresentGravityFlagsEXT::CENTERED.as_raw(),
    };
    let info = SwapchainCreateInfo {
        image_extent: Extent2D {
            width: 1280,
            height: 720,
        },
        chain: vec![
            SwapchainNode::PresentModes(Some(modes)),
            SwapchainNode::Scaling(scaling),
        ],
        ..Default::default()
    };
    let template = SwapchainTemplate::from_create_info(&info).unwrap();

    let physical_info = template.create_info(
        1,
        Extent2D {
            width: 3440,
            height: 1440,
        },
        2,
    );

    assert!(!physical_info.chain.is_empty());
    assert_eq!(physical_info.image_extent.width, 3440);
    assert_eq!(physical_info.image_extent.height, 1440);
    assert_eq!(physical_info.old_swapchain, 2);
}

#[test]
fn enabled_ext_feature_is_detected_without_disabling_overlay() {
    let info = device(
        &["VK_KHR_swapchain", "VK_EXT_swapchain_maintenance1"],
        vec![maintenance_feature(true)],
    );

    assert_eq!(
        maintenance1_support(&info),
        Maintenance1Support {
            enabled: true,
            flavor: Some(Maintenance1Flavor::Ext),
        }
    );
}

#[test]
fn feature_bit_without_an_extension_name_is_not_enabled() {
    let info = device(&[], vec![maintenance_feature(true)]);

    assert_eq!(maintenance1_support(&info), Maintenance1Support::default());
}

#[test]
fn khr_name_is_preferred_when_both_aliases_are_enabled() {
    let info = device(
        &[
            "VK_KHR_swapchain",
            "VK_EXT_swapchain_maintenance1",
            "VK_KHR_swapchain_maintenance1",
        ],
        vec![maintenance_feature(true)],
    );

    assert_eq!(
        maintenance1_support(&info),
        Maintenance1Support {
            enabled: true,
            flavor: Some(Maintenance1Flavor::Khr),
        }
    );
}

#[test]
fn ordinary_device_without_maintenance_remains_disabled() {
    let info = device(&[], Vec::new());

    assert_eq!(maintenance1_support(&info), Maintenance1Support::default());
}

#[test]
fn disabled_feature_bit_does_not_enable_an_extension_alias() {
    let info = device(
        &["VK_EXT_swapchain_maintenance1"],
        vec![maintenance_feature(false)],
    );

    assert_eq!(maintenance1_support(&info), Maintenance1Support::default());
}
