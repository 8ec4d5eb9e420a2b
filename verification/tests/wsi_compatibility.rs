use ash::vk;
use tuxscaling::layer::hooks::maintenance::{DeviceCreateInfo, FeatureNode, Maintenance1Flavor};
use tuxscaling::layer::hooks::wsi_compatibility::{
    extension_support, wsi_command_inventory, wsi_command_support, DeviceWsiCapabilities,
    WsiCommandSupport, WsiExtensionSupport,
};

fn device_info(names: &[&str], chain: Vec<FeatureNode>) -> DeviceCreateInfo {
    DeviceCreateInfo {
        extension_names: Some(
            names
                .iter()
                .map(|name| Some(name.as_bytes().to_vec()))
                .collect(),
        ),
        chain,
    }
}

fn feature(structure_type: vk::StructureType) -> FeatureNode {
    FeatureNode {
        structure_type: structure_type.as_raw(),
        enabled: true,
    }
}

#[test]
fn unrelated_device_extensions_do_not_disable_virtualization() {
    let info = device_info(
        &[
            "VK_KHR_swapchain",
            "VK_KHR_acceleration_structure",
            "VK_EXT_memory_budget",
        ],
        Vec::new(),
    );

    let capabilities = DeviceWsiCapabilities::from_create_info(&info, vk::API_VERSION_1_3);

    assert!(capabilities.incompatible.is_none());
}

#[test]
fn all_translated_extensions_together_are_compatible() {
    let info = device_info(
        &[
            "VK_KHR_swapchain",
            "VK_KHR_swapchain_mutable_format",
            "VK_KHR_incremental_present",
            "VK_KHR_present_id",
            "VK_KHR_present_wait",
            "VK_EXT_hdr_metadata",
            "VK_GOOGLE_display_timing",
            "VK_EXT_display_control",
            "VK_EXT_swapchain_maintenance1",
            "VK_EXT_memory_budget",
        ],
        vec![
            feature(vk::StructureType::PHYSICAL_DEVICE_PRESENT_WAIT_FEATURES_KHR),
            feature(vk::StructureType::PHYSICAL_DEVICE_PRESENT_ID_FEATURES_KHR),
            feature(vk::StructureType::PHYSICAL_DEVICE_SWAPCHAIN_MAINTENANCE_1_FEATURES_EXT),
        ],
    );

    let capabilities = DeviceWsiCapabilities::from_create_info(&info, vk::API_VERSION_1_3);

    assert!(capabilities.incompatible.is_none());
    assert!(capabilities.mutable_format);
    assert!(capabilities.incremental_present);
    assert!(capabilities.present_id);
    assert!(capabilities.present_wait);
    assert!(capabilities.hdr_metadata);
    assert!(capabilities.display_timing);
    assert!(capabilities.display_control);
    assert!(capabilities.maintenance1.enabled);
}

#[test]
fn known_untranslated_wsi_extension_selects_direct_presentation() {
    let info = device_info(
        &["VK_KHR_swapchain", "VK_KHR_shared_presentable_image"],
        Vec::new(),
    );

    let capabilities = DeviceWsiCapabilities::from_create_info(&info, vk::API_VERSION_1_3);

    let incompatible = capabilities
        .incompatible
        .expect("incompatible WSI extension");
    assert_eq!(incompatible.name, b"VK_KHR_shared_presentable_image");
    assert_eq!(
        incompatible.reason,
        "shared presentable image semantics are not translated"
    );
}

#[test]
fn malformed_extension_name_array_is_incompatible() {
    let info = DeviceCreateInfo {
        extension_names: Some(vec![None]),
        chain: Vec::new(),
    };

    let capabilities = DeviceWsiCapabilities::from_create_info(&info, vk::API_VERSION_1_3);

    let incompatible = capabilities
        .incompatible
        .expect("malformed extension array");
    assert!(incompatible.name.is_empty());
    assert_eq!(
        incompatible.reason,
        "device extension name array is malformed"
    );
}

#[test]
fn maintenance_alias_and_feature_detection_remain_independent_of_other_extensions() {
    let info = device_info(
        &[
            "VK_KHR_swapchain",
            "VK_KHR_swapchain_maintenance1",
            "VK_EXT_descriptor_indexing",
        ],
        vec![feature(
            vk::StructureType::PHYSICAL_DEVICE_SWAPCHAIN_MAINTENANCE_1_FEATURES_EXT,
        )],
    );

    let capabilities = DeviceWsiCapabilities::from_create_info(&info, vk::API_VERSION_1_3);

    assert!(capabilities.incompatible.is_none());
    assert!(capabilities.maintenance1.enabled);
    assert_eq!(
        capabilities.maintenance1.flavor,
        Some(Maintenance1Flavor::Khr)
    );
}

#[test]
fn present_id_and_wait_require_their_enabled_feature_bits() {
    let names = [
        "VK_KHR_swapchain",
        "VK_KHR_present_id",
        "VK_KHR_present_wait",
    ];
    let disabled = device_info(&names, Vec::new());
    let disabled_capabilities =
        DeviceWsiCapabilities::from_create_info(&disabled, vk::API_VERSION_1_3);
    assert!(!disabled_capabilities.present_id);
    assert!(!disabled_capabilities.present_wait);

    let enabled = device_info(
        &names,
        vec![
            feature(vk::StructureType::PHYSICAL_DEVICE_PRESENT_WAIT_FEATURES_KHR),
            feature(vk::StructureType::PHYSICAL_DEVICE_PRESENT_ID_FEATURES_KHR),
        ],
    );
    let enabled_capabilities =
        DeviceWsiCapabilities::from_create_info(&enabled, vk::API_VERSION_1_3);
    assert!(enabled_capabilities.present_id);
    assert!(enabled_capabilities.present_wait);
}

#[test]
fn core_image_format_list_support_uses_the_device_api_version() {
    let info = device_info(&["VK_KHR_swapchain_mutable_format"], Vec::new());

    let pre_core = DeviceWsiCapabilities::from_create_info(&info, vk::API_VERSION_1_1);
    assert!(!pre_core.mutable_format);

    let core = DeviceWsiCapabilities::from_create_info(&info, vk::API_VERSION_1_2);
    assert!(core.mutable_format);
}

#[test]
fn every_untranslated_swapchain_extension_disables_promotion() {
    for name in [
        "VK_AMD_display_native_hdr",
        "VK_NV_low_latency2",
        "VK_KHR_display_swapchain",
        "VK_EXT_full_screen_exclusive",
    ] {
        let info = device_info(&[name], Vec::new());
        assert!(
            DeviceWsiCapabilities::from_create_info(&info, vk::API_VERSION_1_3)
                .incompatible
                .is_some(),
            "{name:?}"
        );
    }
}

#[test]
fn unsupported_swapchain_extensions_disable_virtualization_before_promotion() {
    let info = device_info(&["VK_EXT_full_screen_exclusive"], Vec::new());

    assert!(
        DeviceWsiCapabilities::from_create_info(&info, vk::API_VERSION_1_3)
            .incompatible
            .is_some()
    );

    let safe_info = device_info(&[], Vec::new());
    assert!(
        DeviceWsiCapabilities::from_create_info(&safe_info, vk::API_VERSION_1_3)
            .incompatible
            .is_none()
    );
}

#[test]
fn vendor_swapchain_commands_disable_virtualization_before_promotion() {
    let info = device_info(&["VK_NV_present_barrier"], Vec::new());

    assert!(
        DeviceWsiCapabilities::from_create_info(&info, vk::API_VERSION_1_3)
            .incompatible
            .is_some()
    );
}

#[test]
fn maintenance_virtualization_accepts_both_extension_aliases() {
    let ext_info = device_info(&["VK_EXT_swapchain_maintenance1"], Vec::new());
    assert!(
        DeviceWsiCapabilities::from_create_info(&ext_info, vk::API_VERSION_1_3)
            .incompatible
            .is_none()
    );

    let khr_info = device_info(&["VK_KHR_swapchain_maintenance1"], Vec::new());
    assert!(
        DeviceWsiCapabilities::from_create_info(&khr_info, vk::API_VERSION_1_3)
            .incompatible
            .is_none()
    );
}

#[test]
fn surface_maintenance_aliases_remain_safe_with_swapchain_translation() {
    let info = device_info(
        &[
            "VK_KHR_swapchain_maintenance1",
            "VK_KHR_surface_maintenance1",
        ],
        Vec::new(),
    );

    assert!(
        DeviceWsiCapabilities::from_create_info(&info, vk::API_VERSION_1_3)
            .incompatible
            .is_none()
    );
}

#[test]
fn null_enabled_extension_names_disable_virtualization_conservatively() {
    let info = DeviceCreateInfo {
        extension_names: Some(vec![None]),
        chain: Vec::new(),
    };

    assert!(
        DeviceWsiCapabilities::from_create_info(&info, vk::API_VERSION_1_3)
            .incompatible
            .is_some()
    );
}

#[test]
fn audited_registry_distinguishes_translated_incompatible_and_unrelated_extensions() {
    assert_eq!(
        extension_support(b"VK_KHR_swapchain"),
        Some(WsiExtensionSupport::Translated)
    );
    assert_eq!(
        extension_support(b"VK_NV_present_barrier"),
        Some(WsiExtensionSupport::Incompatible)
    );
    assert_eq!(extension_support(b"VK_EXT_memory_budget"), None);
}

#[test]
fn every_pinned_swapchain_command_has_an_explicit_decision() {
    let expected = [
        (
            b"vkCreateSwapchainKHR".as_slice(),
            WsiCommandSupport::Translated,
        ),
        (
            b"vkDestroySwapchainKHR".as_slice(),
            WsiCommandSupport::Translated,
        ),
        (
            b"vkGetSwapchainImagesKHR".as_slice(),
            WsiCommandSupport::Translated,
        ),
        (
            b"vkAcquireNextImageKHR".as_slice(),
            WsiCommandSupport::Translated,
        ),
        (
            b"vkAcquireNextImage2KHR".as_slice(),
            WsiCommandSupport::Translated,
        ),
        (
            b"vkQueuePresentKHR".as_slice(),
            WsiCommandSupport::Translated,
        ),
        (
            b"vkCreateSharedSwapchainsKHR".as_slice(),
            WsiCommandSupport::Incompatible,
        ),
        (
            b"vkGetSwapchainCounterEXT".as_slice(),
            WsiCommandSupport::Translated,
        ),
        (
            b"vkGetRefreshCycleDurationGOOGLE".as_slice(),
            WsiCommandSupport::Translated,
        ),
        (
            b"vkGetPastPresentationTimingGOOGLE".as_slice(),
            WsiCommandSupport::Translated,
        ),
        (
            b"vkSetHdrMetadataEXT".as_slice(),
            WsiCommandSupport::Translated,
        ),
        (
            b"vkGetSwapchainStatusKHR".as_slice(),
            WsiCommandSupport::Translated,
        ),
        (
            b"vkWaitForPresentKHR".as_slice(),
            WsiCommandSupport::Translated,
        ),
        (
            b"vkAcquireFullScreenExclusiveModeEXT".as_slice(),
            WsiCommandSupport::Incompatible,
        ),
        (
            b"vkReleaseFullScreenExclusiveModeEXT".as_slice(),
            WsiCommandSupport::Incompatible,
        ),
        (
            b"vkSetLocalDimmingAMD".as_slice(),
            WsiCommandSupport::Incompatible,
        ),
        (
            b"vkSetLatencySleepModeNV".as_slice(),
            WsiCommandSupport::Incompatible,
        ),
        (
            b"vkLatencySleepNV".as_slice(),
            WsiCommandSupport::Incompatible,
        ),
        (
            b"vkSetLatencyMarkerNV".as_slice(),
            WsiCommandSupport::Incompatible,
        ),
        (
            b"vkGetLatencyTimingsNV".as_slice(),
            WsiCommandSupport::Incompatible,
        ),
    ];
    assert_eq!(wsi_command_inventory(), expected.as_slice());
    for (name, decision) in expected {
        assert_eq!(wsi_command_support(name), Some(decision), "{name:?}");
    }
}

#[test]
fn non_substring_swapchain_commands_are_not_forwarded_from_virtual_tokens() {
    assert_eq!(
        wsi_command_support(b"vkSetLocalDimmingAMD"),
        Some(WsiCommandSupport::Incompatible)
    );
    assert_eq!(
        wsi_command_support(b"vkSetLatencyMarkerNV"),
        Some(WsiCommandSupport::Incompatible)
    );
}
