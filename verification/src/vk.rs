//! Vulkan values as plain integers.
//!
//! Handles are the raw 64-bit values, flags the raw bit masks, result codes
//! and enumerants the raw `i32` values of the API.

use vstd::prelude::*;

verus! {

/// A raw result code of a Vulkan command.
pub type VkResult = i32;

/// A raw non-dispatchable or dispatchable handle; zero is the null handle.
pub type Handle = u64;

pub const NULL_HANDLE: u64 = 0;

pub const SUCCESS: i32 = 0;

pub const NOT_READY: i32 = 1;

pub const TIMEOUT: i32 = 2;

pub const INCOMPLETE: i32 = 5;

pub const ERROR_OUT_OF_HOST_MEMORY: i32 = -1;

pub const ERROR_OUT_OF_DEVICE_MEMORY: i32 = -2;

pub const ERROR_INITIALIZATION_FAILED: i32 = -3;

pub const ERROR_DEVICE_LOST: i32 = -4;

pub const ERROR_EXTENSION_NOT_PRESENT: i32 = -7;

pub const ERROR_FEATURE_NOT_PRESENT: i32 = -8;

pub const ERROR_FORMAT_NOT_SUPPORTED: i32 = -11;

pub const ERROR_UNKNOWN: i32 = -13;

pub const ERROR_SURFACE_LOST_KHR: i32 = -1000000000;

pub const ERROR_NATIVE_WINDOW_IN_USE_KHR: i32 = -1000000001;

pub const SUBOPTIMAL_KHR: i32 = 1000001003;

pub const ERROR_OUT_OF_DATE_KHR: i32 = -1000001004;

pub const STRUCTURE_TYPE_APPLICATION_INFO: i32 = 0;

pub const STRUCTURE_TYPE_LOADER_INSTANCE_CREATE_INFO: i32 = 47;

pub const STRUCTURE_TYPE_LOADER_DEVICE_CREATE_INFO: i32 = 48;

pub const STRUCTURE_TYPE_PHYSICAL_DEVICE_VULKAN_1_2_FEATURES: i32 = 51;

pub const STRUCTURE_TYPE_PHYSICAL_DEVICE_FEATURES_2: i32 = 1000059000;

pub const API_VERSION_1_0: u32 = 0x0040_0000;

pub const API_VERSION_1_1: u32 = 0x0040_1000;

pub const API_VERSION_1_2: u32 = 0x0040_2000;

pub const API_VERSION_1_3: u32 = 0x0040_3000;

pub const PHYSICAL_DEVICE_SWAPCHAIN_MAINTENANCE_1_FEATURES_EXT: i32 = 1000275000;

pub const PHYSICAL_DEVICE_PRESENT_ID_FEATURES_KHR: i32 = 1000294001;

pub const PHYSICAL_DEVICE_PRESENT_WAIT_FEATURES_KHR: i32 = 1000248000;

pub const IMAGE_FORMAT_LIST_CREATE_INFO: i32 = 1000147000;

pub const SWAPCHAIN_PRESENT_MODES_CREATE_INFO_EXT: i32 = 1000275002;

pub const SWAPCHAIN_PRESENT_SCALING_CREATE_INFO_EXT: i32 = 1000275004;

pub const SWAPCHAIN_CREATE_PROTECTED: u32 = 0x2;

pub const SWAPCHAIN_CREATE_MUTABLE_FORMAT: u32 = 0x4;

pub const SWAPCHAIN_CREATE_DEFERRED_MEMORY_ALLOCATION: u32 = 0x8;

pub const PRESENT_REGIONS_KHR: i32 = 1000084000;

pub const PRESENT_TIMES_INFO_GOOGLE: i32 = 1000092000;

pub const PRESENT_ID_KHR: i32 = 1000294000;

pub const SWAPCHAIN_PRESENT_FENCE_INFO_EXT: i32 = 1000275001;

pub const SWAPCHAIN_PRESENT_MODE_INFO_EXT: i32 = 1000275003;

pub const SHARING_MODE_EXCLUSIVE: i32 = 0;

pub const SHARING_MODE_CONCURRENT: i32 = 1;

pub const PRESENT_MODE_SHARED_DEMAND_REFRESH: i32 = 1000111000;

pub const PRESENT_MODE_SHARED_CONTINUOUS_REFRESH: i32 = 1000111001;

pub const IMAGE_USAGE_TRANSFER_SRC: u32 = 0x1;

pub const IMAGE_USAGE_TRANSFER_DST: u32 = 0x2;

pub const IMAGE_USAGE_SAMPLED: u32 = 0x4;

pub const IMAGE_USAGE_STORAGE: u32 = 0x8;

pub const IMAGE_USAGE_COLOR_ATTACHMENT: u32 = 0x10;

pub const FORMAT_FEATURE_SAMPLED_IMAGE: u32 = 0x1;

pub const FORMAT_FEATURE_BLIT_DST: u32 = 0x800;

pub const IMAGE_CREATE_MUTABLE_FORMAT: u32 = 0x8;

pub const FILTER_NEAREST: i32 = 0;

pub const FILTER_LINEAR: i32 = 1;

pub const SAMPLER_ADDRESS_MODE_CLAMP_TO_EDGE: i32 = 2;

pub const IMAGE_LAYOUT_UNDEFINED: i32 = 0;

pub const IMAGE_LAYOUT_GENERAL: i32 = 1;

pub const IMAGE_LAYOUT_COLOR_ATTACHMENT_OPTIMAL: i32 = 2;

pub const IMAGE_LAYOUT_SHADER_READ_ONLY_OPTIMAL: i32 = 5;

pub const IMAGE_LAYOUT_TRANSFER_SRC_OPTIMAL: i32 = 6;

pub const IMAGE_LAYOUT_TRANSFER_DST_OPTIMAL: i32 = 7;

pub const IMAGE_LAYOUT_PRESENT_SRC_KHR: i32 = 1000001002;

pub const DESCRIPTOR_TYPE_COMBINED_IMAGE_SAMPLER: i32 = 1;

pub const DESCRIPTOR_TYPE_STORAGE_IMAGE: i32 = 3;

pub const DESCRIPTOR_TYPE_STORAGE_BUFFER: i32 = 7;

/// All wanted flags are set.
pub open spec fn has_flags(flags: u32, wanted: u32) -> bool {
    flags & wanted == wanted
}

pub fn contains_flags(flags: u32, wanted: u32) -> (contained: bool)
    ensures
        contained == has_flags(flags, wanted),
{
    flags & wanted == wanted
}

/// A width and a height in pixels.
#[derive(Debug, Clone, Copy, PartialEq, Eq, Structural)]
pub struct Extent2D {
    pub width: u32,
    pub height: u32,
}

/// What a surface offers, as raw values.
#[derive(Debug, Clone, Copy, PartialEq, Eq, Structural)]
pub struct SurfaceCapabilities {
    pub min_image_count: u32,
    pub max_image_count: u32,
    pub current_extent: Extent2D,
    pub min_image_extent: Extent2D,
    pub max_image_extent: Extent2D,
    pub max_image_array_layers: u32,
    pub supported_transforms: u32,
    pub current_transform: u32,
    pub supported_composite_alpha: u32,
    pub supported_usage_flags: u32,
}

/// A position in pixels.
#[derive(Debug, Clone, Copy, PartialEq, Eq, Structural)]
pub struct Offset2D {
    pub x: i32,
    pub y: i32,
}

/// Flags are set where setting them once more changes nothing.
pub proof fn set_flags_change_nothing(flags: u32, wanted: u32)
    ensures
        has_flags(flags, wanted) <==> flags | wanted == flags,
{
    assert((flags & wanted == wanted) == (flags | wanted == flags)) by (bit_vector);
}

} // verus!
