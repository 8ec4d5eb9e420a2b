use ash::vk as raw;
use tuxscaling::{capture, layer, motion, vk};

#[test]
fn results_are_numbered_as_the_driver_numbers_them() {
    for (ours, theirs) in [
        (vk::SUCCESS, raw::Result::SUCCESS.as_raw()),
        (vk::NOT_READY, raw::Result::NOT_READY.as_raw()),
        (vk::TIMEOUT, raw::Result::TIMEOUT.as_raw()),
        (vk::INCOMPLETE, raw::Result::INCOMPLETE.as_raw()),
        (vk::ERROR_OUT_OF_HOST_MEMORY, raw::Result::ERROR_OUT_OF_HOST_MEMORY.as_raw()),
        (vk::ERROR_OUT_OF_DEVICE_MEMORY, raw::Result::ERROR_OUT_OF_DEVICE_MEMORY.as_raw()),
        (vk::ERROR_INITIALIZATION_FAILED, raw::Result::ERROR_INITIALIZATION_FAILED.as_raw()),
        (vk::ERROR_DEVICE_LOST, raw::Result::ERROR_DEVICE_LOST.as_raw()),
        (vk::ERROR_EXTENSION_NOT_PRESENT, raw::Result::ERROR_EXTENSION_NOT_PRESENT.as_raw()),
        (vk::ERROR_FEATURE_NOT_PRESENT, raw::Result::ERROR_FEATURE_NOT_PRESENT.as_raw()),
        (vk::ERROR_FORMAT_NOT_SUPPORTED, raw::Result::ERROR_FORMAT_NOT_SUPPORTED.as_raw()),
        (vk::ERROR_UNKNOWN, raw::Result::ERROR_UNKNOWN.as_raw()),
        (vk::ERROR_SURFACE_LOST_KHR, raw::Result::ERROR_SURFACE_LOST_KHR.as_raw()),
        (vk::ERROR_NATIVE_WINDOW_IN_USE_KHR, raw::Result::ERROR_NATIVE_WINDOW_IN_USE_KHR.as_raw()),
        (vk::SUBOPTIMAL_KHR, raw::Result::SUBOPTIMAL_KHR.as_raw()),
        (vk::ERROR_OUT_OF_DATE_KHR, raw::Result::ERROR_OUT_OF_DATE_KHR.as_raw()),
    ] {
        assert_eq!(ours, theirs);
    }
}

#[test]
fn structures_are_numbered_as_the_driver_numbers_them() {
    for (ours, theirs) in [
        (vk::STRUCTURE_TYPE_APPLICATION_INFO, raw::StructureType::APPLICATION_INFO.as_raw()),
        (vk::STRUCTURE_TYPE_LOADER_INSTANCE_CREATE_INFO, raw::StructureType::LOADER_INSTANCE_CREATE_INFO.as_raw()),
        (vk::STRUCTURE_TYPE_LOADER_DEVICE_CREATE_INFO, raw::StructureType::LOADER_DEVICE_CREATE_INFO.as_raw()),
        (vk::STRUCTURE_TYPE_PHYSICAL_DEVICE_VULKAN_1_2_FEATURES, raw::StructureType::PHYSICAL_DEVICE_VULKAN_1_2_FEATURES.as_raw()),
        (vk::STRUCTURE_TYPE_PHYSICAL_DEVICE_FEATURES_2, raw::StructureType::PHYSICAL_DEVICE_FEATURES_2.as_raw()),
        (vk::PHYSICAL_DEVICE_SWAPCHAIN_MAINTENANCE_1_FEATURES_EXT, raw::StructureType::PHYSICAL_DEVICE_SWAPCHAIN_MAINTENANCE_1_FEATURES_EXT.as_raw()),
        (vk::PHYSICAL_DEVICE_PRESENT_ID_FEATURES_KHR, raw::StructureType::PHYSICAL_DEVICE_PRESENT_ID_FEATURES_KHR.as_raw()),
        (vk::PHYSICAL_DEVICE_PRESENT_WAIT_FEATURES_KHR, raw::StructureType::PHYSICAL_DEVICE_PRESENT_WAIT_FEATURES_KHR.as_raw()),
        (vk::IMAGE_FORMAT_LIST_CREATE_INFO, raw::StructureType::IMAGE_FORMAT_LIST_CREATE_INFO.as_raw()),
        (vk::SWAPCHAIN_PRESENT_MODES_CREATE_INFO_EXT, raw::StructureType::SWAPCHAIN_PRESENT_MODES_CREATE_INFO_EXT.as_raw()),
        (vk::SWAPCHAIN_PRESENT_SCALING_CREATE_INFO_EXT, raw::StructureType::SWAPCHAIN_PRESENT_SCALING_CREATE_INFO_EXT.as_raw()),
        (vk::PRESENT_REGIONS_KHR, raw::StructureType::PRESENT_REGIONS_KHR.as_raw()),
        (vk::PRESENT_TIMES_INFO_GOOGLE, raw::StructureType::PRESENT_TIMES_INFO_GOOGLE.as_raw()),
        (vk::PRESENT_ID_KHR, raw::StructureType::PRESENT_ID_KHR.as_raw()),
        (vk::SWAPCHAIN_PRESENT_FENCE_INFO_EXT, raw::StructureType::SWAPCHAIN_PRESENT_FENCE_INFO_EXT.as_raw()),
        (vk::SWAPCHAIN_PRESENT_MODE_INFO_EXT, raw::StructureType::SWAPCHAIN_PRESENT_MODE_INFO_EXT.as_raw()),
    ] {
        assert_eq!(ours, theirs);
    }
}

#[test]
fn values_are_numbered_as_the_driver_numbers_them() {
    for (ours, theirs) in [
        (vk::SHARING_MODE_EXCLUSIVE, raw::SharingMode::EXCLUSIVE.as_raw()),
        (vk::SHARING_MODE_CONCURRENT, raw::SharingMode::CONCURRENT.as_raw()),
        (vk::PRESENT_MODE_SHARED_DEMAND_REFRESH, raw::PresentModeKHR::SHARED_DEMAND_REFRESH.as_raw()),
        (vk::PRESENT_MODE_SHARED_CONTINUOUS_REFRESH, raw::PresentModeKHR::SHARED_CONTINUOUS_REFRESH.as_raw()),
        (vk::IMAGE_LAYOUT_UNDEFINED, raw::ImageLayout::UNDEFINED.as_raw()),
        (vk::IMAGE_LAYOUT_GENERAL, raw::ImageLayout::GENERAL.as_raw()),
        (vk::IMAGE_LAYOUT_COLOR_ATTACHMENT_OPTIMAL, raw::ImageLayout::COLOR_ATTACHMENT_OPTIMAL.as_raw()),
        (vk::IMAGE_LAYOUT_SHADER_READ_ONLY_OPTIMAL, raw::ImageLayout::SHADER_READ_ONLY_OPTIMAL.as_raw()),
        (vk::IMAGE_LAYOUT_TRANSFER_SRC_OPTIMAL, raw::ImageLayout::TRANSFER_SRC_OPTIMAL.as_raw()),
        (vk::IMAGE_LAYOUT_TRANSFER_DST_OPTIMAL, raw::ImageLayout::TRANSFER_DST_OPTIMAL.as_raw()),
        (vk::IMAGE_LAYOUT_PRESENT_SRC_KHR, raw::ImageLayout::PRESENT_SRC_KHR.as_raw()),
        (vk::DESCRIPTOR_TYPE_COMBINED_IMAGE_SAMPLER, raw::DescriptorType::COMBINED_IMAGE_SAMPLER.as_raw()),
        (vk::DESCRIPTOR_TYPE_STORAGE_IMAGE, raw::DescriptorType::STORAGE_IMAGE.as_raw()),
        (vk::DESCRIPTOR_TYPE_STORAGE_BUFFER, raw::DescriptorType::STORAGE_BUFFER.as_raw()),
        (capture::FORMAT_R8G8B8A8_UNORM, raw::Format::R8G8B8A8_UNORM.as_raw()),
        (capture::FORMAT_R8G8B8A8_SRGB, raw::Format::R8G8B8A8_SRGB.as_raw()),
        (capture::FORMAT_B8G8R8A8_UNORM, raw::Format::B8G8R8A8_UNORM.as_raw()),
        (capture::FORMAT_B8G8R8A8_SRGB, raw::Format::B8G8R8A8_SRGB.as_raw()),
        (capture::FORMAT_R16G16B16A16_SFLOAT, raw::Format::R16G16B16A16_SFLOAT.as_raw()),
        (motion::FORMAT_R8_UNORM, raw::Format::R8_UNORM.as_raw()),
        (motion::FORMAT_VISUALIZATION, raw::Format::R8G8B8A8_UNORM.as_raw()),
        (motion::FORMAT_R16G16_SFLOAT, raw::Format::R16G16_SFLOAT.as_raw()),
        (
            capture::COLOR_SPACE_SRGB_NONLINEAR,
            raw::ColorSpaceKHR::SRGB_NONLINEAR.as_raw(),
        ),
    ] {
        assert_eq!(ours, theirs);
    }
}

#[test]
fn flags_are_those_of_the_driver() {
    for (ours, theirs) in [
        (vk::SWAPCHAIN_CREATE_PROTECTED, raw::SwapchainCreateFlagsKHR::PROTECTED.as_raw()),
        (vk::SWAPCHAIN_CREATE_MUTABLE_FORMAT, raw::SwapchainCreateFlagsKHR::MUTABLE_FORMAT.as_raw()),
        (vk::SWAPCHAIN_CREATE_DEFERRED_MEMORY_ALLOCATION, raw::SwapchainCreateFlagsKHR::DEFERRED_MEMORY_ALLOCATION_EXT.as_raw()),
        (vk::IMAGE_USAGE_TRANSFER_SRC, raw::ImageUsageFlags::TRANSFER_SRC.as_raw()),
        (vk::IMAGE_USAGE_TRANSFER_DST, raw::ImageUsageFlags::TRANSFER_DST.as_raw()),
        (vk::IMAGE_USAGE_SAMPLED, raw::ImageUsageFlags::SAMPLED.as_raw()),
        (vk::IMAGE_USAGE_STORAGE, raw::ImageUsageFlags::STORAGE.as_raw()),
        (vk::IMAGE_USAGE_COLOR_ATTACHMENT, raw::ImageUsageFlags::COLOR_ATTACHMENT.as_raw()),
        (vk::FORMAT_FEATURE_SAMPLED_IMAGE, raw::FormatFeatureFlags::SAMPLED_IMAGE.as_raw()),
        (vk::FORMAT_FEATURE_BLIT_DST, raw::FormatFeatureFlags::BLIT_DST.as_raw()),
        (vk::IMAGE_CREATE_MUTABLE_FORMAT, raw::ImageCreateFlags::MUTABLE_FORMAT.as_raw()),
        (vk::API_VERSION_1_0, raw::API_VERSION_1_0),
        (vk::API_VERSION_1_1, raw::API_VERSION_1_1),
        (vk::API_VERSION_1_2, raw::API_VERSION_1_2),
        (vk::API_VERSION_1_3, raw::API_VERSION_1_3),
        (
            layer::hooks::creation::NEEDED_USAGE,
            vk::IMAGE_USAGE_TRANSFER_SRC
                | vk::IMAGE_USAGE_TRANSFER_DST
                | vk::IMAGE_USAGE_STORAGE
                | vk::IMAGE_USAGE_COLOR_ATTACHMENT,
        ),
        (
            layer::hooks::creation::NEEDED_FEATURES,
            vk::FORMAT_FEATURE_SAMPLED_IMAGE | vk::FORMAT_FEATURE_BLIT_DST,
        ),
        (
            layer::hooks::presentation::OVERLAY_QUEUE_FLAGS,
            (raw::QueueFlags::GRAPHICS | raw::QueueFlags::COMPUTE).as_raw(),
        ),
        (
            capture::record::CAPTURE_USAGE,
            vk::IMAGE_USAGE_TRANSFER_SRC
                | vk::IMAGE_USAGE_TRANSFER_DST
                | vk::IMAGE_USAGE_SAMPLED
                | vk::IMAGE_USAGE_STORAGE,
        ),
    ] {
        assert_eq!(ours, theirs);
    }
}
