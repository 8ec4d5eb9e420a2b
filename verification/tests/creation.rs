use ash::vk;
use tuxscaling::config::OutputResolution;
use tuxscaling::display::negotiation::{PresentationNegotiation, PresentationState};
use tuxscaling::display::{
    BorderlessLease, Extent, Monitor, Rect, SurfaceExtent, WindowSnapshot, X11Window,
};
use tuxscaling::layer::hooks::acquire::{
    begin_acquire, get_swapchain_images, ImageQuery, ImagesAnswer,
};
use tuxscaling::layer::hooks::creation::{
    allocate_logical_swapchain, clear_surface_logical_override, initial_physical_extent,
    logical_capabilities_for_extent, logical_image_count, native_generation_failure_can_restore,
    native_output_target, preflight_swapchain_virtualization, surface_extent,
    surface_extent_accepts, temporal_enabled_for_logical_creation, translate_old_swapchain,
    translate_recreation_create_info, virtual_swapchain_supported, InitialOutputTarget, TargetSkip,
};
use tuxscaling::layer::hooks::lifetime::restore_surface_window;
use tuxscaling::layer::hooks::maintenance::DeviceCreateInfo;
use tuxscaling::layer::hooks::surface::get_surface_capabilities;
use tuxscaling::layer::hooks::swapchain_create::{
    SwapchainCompatibilityError, SwapchainCreateInfo, SwapchainNode,
};
use tuxscaling::layer::hooks::swapchain_creation::SwapchainCreation;
use tuxscaling::layer::hooks::wsi_compatibility::{
    DeviceWsiCapabilities, IncompatibleWsiExtension,
};
use tuxscaling::layer::recovery::{
    LogicalSwapchainContract, PhysicalGeneration, ReconfigurationLifecycle,
};
use tuxscaling::layer::state::{Layer, SwapchainState, SwapchainTemplate, X11Surface};
use tuxscaling::vk::{
    Extent2D, SurfaceCapabilities, ERROR_EXTENSION_NOT_PRESENT, ERROR_FEATURE_NOT_PRESENT,
    ERROR_FORMAT_NOT_SUPPORTED, ERROR_INITIALIZATION_FAILED, ERROR_OUT_OF_DATE_KHR,
    ERROR_SURFACE_LOST_KHR, NULL_HANDLE, SUCCESS,
};
use tuxscaling::layer::hooks::present_id::PresentIdHistory;
use tuxscaling::layer::mapping::Mapping;

const TOKEN: u64 = 0x8000_0000_0000_0001;

fn extent(width: u32, height: u32) -> Extent2D {
    Extent2D { width, height }
}

fn direct_swapchain(handle: u64, surface: u64) -> SwapchainState {
    SwapchainState {
        device: 5,
        game_surface: surface,
        present_surface: None,
        logical_handle: handle,
        physical_handle: handle,
        mapping: None,
        negotiation: PresentationNegotiation::direct(),
        has_overlay: true,
        virtual_images: None,
        physical_images: vec![3, 4],
        retired_physical_generations: Vec::new(),
        maintenance_overlay_reported: false,
        maintenance_present_reported: false,
        maintenance_release_reported: false,
        input_route_reported: false,
        generation: 0,
        template: None,
        contract: None,
        hdr_metadata: None,
        present_ids: PresentIdHistory::new(),
        lifecycle: ReconfigurationLifecycle::new(),
    }
}

fn virtual_swapchain(handle: u64, surface: u64, physical: u64) -> SwapchainState {
    SwapchainState {
        physical_handle: physical,
        mapping: Some(Mapping::new(1, 2)),
        virtual_images: Some(vec![1, 2]),
        generation: 1,
        contract: Some(
            LogicalSwapchainContract::new(
                handle,
                vec![1, 2],
                extent(1280, 720),
                PhysicalGeneration::new(1, physical, extent(1280, 720), 2),
                PresentationState::Virtualized,
            )
            .unwrap(),
        ),
        ..direct_swapchain(handle, surface)
    }
}

const MILLISECOND: u64 = 1_000_000;

fn no_capabilities() -> SurfaceCapabilities {
    SurfaceCapabilities {
        min_image_count: 0,
        max_image_count: 0,
        current_extent: extent(0, 0),
        min_image_extent: extent(0, 0),
        max_image_extent: extent(0, 0),
        max_image_array_layers: 0,
        supported_transforms: 0,
        current_transform: 0,
        supported_composite_alpha: 0,
        supported_usage_flags: 0,
    }
}

fn virtualization_capabilities() -> SurfaceCapabilities {
    SurfaceCapabilities {
        current_extent: extent(3440, 1440),
        min_image_extent: extent(1, 1),
        max_image_extent: extent(8192, 8192),
        supported_usage_flags: (vk::ImageUsageFlags::TRANSFER_SRC
            | vk::ImageUsageFlags::TRANSFER_DST
            | vk::ImageUsageFlags::COLOR_ATTACHMENT
            | vk::ImageUsageFlags::STORAGE)
            .as_raw(),
        ..no_capabilities()
    }
}

fn format_features() -> u32 {
    (vk::FormatFeatureFlags::SAMPLED_IMAGE | vk::FormatFeatureFlags::BLIT_DST).as_raw()
}

fn mutable_formats() -> Vec<i32> {
    vec![
        vk::Format::B8G8R8A8_UNORM.as_raw(),
        vk::Format::B8G8R8A8_SRGB.as_raw(),
    ]
}

fn mutable_create_info() -> SwapchainCreateInfo {
    SwapchainCreateInfo {
        flags: vk::SwapchainCreateFlagsKHR::MUTABLE_FORMAT.as_raw(),
        min_image_count: 2,
        image_format: mutable_formats()[0],
        image_color_space: vk::ColorSpaceKHR::SRGB_NONLINEAR.as_raw(),
        image_extent: extent(1280, 720),
        image_array_layers: 1,
        image_usage: vk::ImageUsageFlags::COLOR_ATTACHMENT.as_raw(),
        image_sharing_mode: vk::SharingMode::EXCLUSIVE.as_raw(),
        chain: vec![SwapchainNode::FormatList(Some(mutable_formats()))],
        ..Default::default()
    }
}

fn plain_create_info(surface: u64, image_extent: Extent2D, old_swapchain: u64) -> SwapchainCreateInfo {
    SwapchainCreateInfo {
        surface,
        min_image_count: 2,
        image_format: vk::Format::B8G8R8A8_UNORM.as_raw(),
        image_color_space: vk::ColorSpaceKHR::SRGB_NONLINEAR.as_raw(),
        image_extent,
        image_array_layers: 1,
        image_usage: vk::ImageUsageFlags::COLOR_ATTACHMENT.as_raw(),
        image_sharing_mode: vk::SharingMode::EXCLUSIVE.as_raw(),
        pre_transform: vk::SurfaceTransformFlagsKHR::IDENTITY.as_raw(),
        composite_alpha: vk::CompositeAlphaFlagsKHR::OPAQUE.as_raw(),
        present_mode: vk::PresentModeKHR::FIFO.as_raw(),
        clipped: 1,
        old_swapchain,
        ..Default::default()
    }
}

fn compatible_wsi() -> DeviceWsiCapabilities {
    DeviceWsiCapabilities {
        mutable_format: true,
        ..Default::default()
    }
}

#[test]
fn broad_unrelated_extensions_and_valid_mutable_chain_publish_a_plan() {
    let device_info = DeviceCreateInfo {
        extension_names: Some(
            [
                "VK_KHR_swapchain",
                "VK_KHR_swapchain_mutable_format",
                "VK_EXT_memory_budget",
            ]
            .iter()
            .map(|name| Some(name.as_bytes().to_vec()))
            .collect(),
        ),
        chain: Vec::new(),
    };
    let wsi = DeviceWsiCapabilities::from_create_info(&device_info, vk::API_VERSION_1_2);
    let formats = mutable_formats();

    let plan = preflight_swapchain_virtualization(
        &wsi,
        &mutable_create_info(),
        Some(virtualization_capabilities()),
        format_features(),
    )
    .unwrap();

    assert_eq!(plan.view_formats, formats);
    assert_eq!(
        plan.image_flags,
        vk::ImageCreateFlags::MUTABLE_FORMAT.as_raw()
    );
    assert_eq!(plan.template.image_format, formats[0]);
}

#[test]
fn incompatible_wsi_is_rejected_before_logical_reservation() {
    let wsi = DeviceWsiCapabilities {
        incompatible: Some(IncompatibleWsiExtension {
            name: b"VK_KHR_shared_presentable_image".to_vec(),
            reason: "shared presentable image semantics are not translated",
        }),
        ..compatible_wsi()
    };

    assert!(matches!(
        preflight_swapchain_virtualization(
            &wsi,
            &mutable_create_info(),
            Some(virtualization_capabilities()),
            format_features(),
        ),
        Err(SwapchainCompatibilityError::IncompatibleWsiExtension { name, reason })
            if name == b"VK_KHR_shared_presentable_image"
                && reason == "shared presentable image semantics are not translated"
    ));
}

#[test]
fn initial_and_replacement_generations_share_the_owned_contract() {
    let plan = preflight_swapchain_virtualization(
        &compatible_wsi(),
        &mutable_create_info(),
        Some(virtualization_capabilities()),
        format_features(),
    )
    .unwrap();

    let first = plan.template.create_info(7, extent(1280, 720), NULL_HANDLE);
    let second = plan.template.create_info(7, extent(3440, 1440), 41);

    assert_eq!(first.flags, second.flags);
    assert_eq!(first.image_format, second.image_format);
    assert_eq!(first.image_color_space, second.image_color_space);
    assert_eq!(first.image_usage, second.image_usage);
    assert_eq!(first.image_sharing_mode, second.image_sharing_mode);
    assert!(!first.chain.is_empty());
    assert!(!second.chain.is_empty());
    assert_eq!(first.image_extent, extent(1280, 720));
    assert_eq!(second.image_extent, extent(3440, 1440));
    assert_eq!(first.old_swapchain, NULL_HANDLE);
    assert_eq!(second.old_swapchain, 41);
}

#[test]
fn failed_image_contract_preflight_returns_before_a_logical_handle_exists() {
    let result = preflight_swapchain_virtualization(
        &compatible_wsi(),
        &mutable_create_info(),
        Some(virtualization_capabilities()),
        vk::FormatFeatureFlags::empty().as_raw(),
    );

    assert!(matches!(
        result,
        Err(SwapchainCompatibilityError::UnsupportedImageContract(
            ERROR_FEATURE_NOT_PRESENT
        ))
    ));
    assert!(result.is_err());
}

#[test]
fn rejects_mutable_format_virtual_swapchains() {
    let info = SwapchainCreateInfo {
        flags: vk::SwapchainCreateFlagsKHR::MUTABLE_FORMAT.as_raw(),
        ..Default::default()
    };

    assert!(!virtual_swapchain_supported(&info));
}

#[test]
fn rejects_protected_swapchains() {
    let info = SwapchainCreateInfo {
        flags: vk::SwapchainCreateFlagsKHR::PROTECTED.as_raw(),
        ..Default::default()
    };

    assert!(!virtual_swapchain_supported(&info));
}

#[test]
fn rejects_device_group_swapchains() {
    let info = SwapchainCreateInfo {
        chain: vec![SwapchainNode::Other {
            structure_type: vk::StructureType::DEVICE_GROUP_SWAPCHAIN_CREATE_INFO_KHR.as_raw(),
        }],
        ..Default::default()
    };

    assert!(!virtual_swapchain_supported(&info));
}

#[test]
fn accepts_exclusive_single_layer_swapchains() {
    let info = SwapchainCreateInfo {
        image_array_layers: 1,
        image_sharing_mode: vk::SharingMode::EXCLUSIVE.as_raw(),
        ..Default::default()
    };

    assert!(virtual_swapchain_supported(&info));
}

#[test]
fn layer_gate_requires_exact_observed_native_output_before_recreation() {
    let target = Rect::new(-1920, 0, 1920, 1080);
    let now = 7_000 * MILLISECOND;
    let mut negotiation = PresentationNegotiation::direct();

    assert!(negotiation.request_borderless(target, now));
    assert!(negotiation.borderless_requested(now));
    assert!(!negotiation.observe(
        Rect::new(-1920, 0, 1920, 1040),
        true,
        SurfaceExtent::fixed(Extent::new(1920, 1040)),
        now,
    ));
    assert_eq!(negotiation.public_state(), PresentationState::Negotiating);
    assert!(!negotiation.observe(
        target,
        false,
        SurfaceExtent::fixed(Extent::new(1920, 1080)),
        now + MILLISECOND,
    ));
    assert_eq!(negotiation.public_state(), PresentationState::Negotiating);
    assert!(!negotiation.observe(
        Rect::new(-1920, 0, 1920, 1040),
        true,
        SurfaceExtent::fixed(Extent::new(1920, 1040)),
        now + 2 * MILLISECOND,
    ));
    assert!(!negotiation.observe(
        target,
        true,
        SurfaceExtent::fixed(Extent::new(1920, 1080)),
        now + 3 * MILLISECOND,
    ));
    assert!(negotiation.observe(
        target,
        true,
        SurfaceExtent::fixed(Extent::new(1920, 1080)),
        now + 4 * MILLISECOND,
    ));
    assert!(negotiation.output_recreated(
        target,
        true,
        SurfaceExtent::fixed(Extent::new(1920, 1080)),
        now + 5 * MILLISECOND,
    ));
    assert_eq!(negotiation.public_state(), PresentationState::Virtualized);
}

#[test]
fn retired_old_swapchain_is_rejected_instead_of_forwarded() {
    let mut layer = Layer::new();
    let token = 0x8000_0000_0000_0088;
    layer.retire_swapchain(token);

    assert_eq!(
        translate_old_swapchain(&layer, token),
        Err(ERROR_OUT_OF_DATE_KHR)
    );
}

#[test]
fn creation_keeps_logical_image_count_independent_from_physical_count() {
    assert_eq!(logical_image_count(2, 3), 2);
    assert_eq!(logical_image_count(4, 2), 4);
    assert_eq!(logical_image_count(0, 3), 3);
}

#[test]
fn initial_virtual_generation_uses_fixed_surface_extent_for_physical_swapchain() {
    let requested = extent(1280, 720);
    let native = Extent::new(3440, 1440);

    assert_eq!(
        initial_physical_extent(requested, SurfaceExtent::fixed(native), true),
        extent(3440, 1440)
    );
    assert_eq!(
        initial_physical_extent(requested, SurfaceExtent::fixed(native), false),
        requested
    );
}

#[test]
fn stale_logical_override_is_dropped_for_truthful_direct_fallback() {
    let mut layer = Layer::new();
    let surface = 0xad07;
    layer.surfaces.insert(
        surface,
        X11Surface {
            window: 7,
            logical_extent: Some(extent(1280, 720)),
            logical_capabilities: Some(no_capabilities()),
            borderless_lease: None,
            negotiation: PresentationNegotiation::direct(),
        },
    );

    clear_surface_logical_override(&mut layer, surface);

    let state = layer.surfaces.remove(surface).unwrap();
    assert!(state.logical_extent.is_none());
    assert!(state.logical_capabilities.is_none());
    assert_eq!(state.negotiation.public_state(), PresentationState::Direct);
}

#[test]
fn native_generation_failure_restores_unless_destroy_was_requested() {
    assert!(native_generation_failure_can_restore(false));
    assert!(!native_generation_failure_can_restore(true));
}

#[test]
fn recreation_hook_translates_physical_extent_and_preserves_new_logical_contract() {
    let surface = 0x9001;
    let old_logical = 0x8000_0000_0000_0101;
    let new_logical = 0x8000_0000_0000_0102;
    let logical_images = vec![0x101, 0x102];
    let new_logical_images = vec![0x201, 0x202];
    let old_physical = 0x301;
    let new_physical = 0x302;
    let logical_extent = extent(1280, 720);
    let native_extent = Extent::new(3440, 1440);
    let info = plain_create_info(surface, logical_extent, old_logical);
    let old_contract = LogicalSwapchainContract::new(
        old_logical,
        logical_images,
        logical_extent,
        PhysicalGeneration::new(0, old_physical, logical_extent, 2),
        PresentationState::Virtualized,
    )
    .unwrap();
    let _template = SwapchainTemplate::from_create_info(&info).unwrap();

    let (recorded_extent, recorded_old_swapchain) = translate_recreation_create_info(
        &info,
        &old_contract,
        SurfaceExtent::fixed(native_extent),
    )
    .unwrap();

    let new_contract = LogicalSwapchainContract::new(
        new_logical,
        new_logical_images.clone(),
        logical_extent,
        PhysicalGeneration::new(1, new_physical, recorded_extent, 3),
        PresentationState::Virtualized,
    )
    .unwrap();

    assert_eq!(recorded_extent, extent(3440, 1440));
    assert_eq!(recorded_old_swapchain, NULL_HANDLE);
    assert_eq!(new_contract.handle(), new_logical);
    assert_eq!(new_contract.logical_images(), new_logical_images.as_slice());
    assert_eq!(new_contract.game_extent(), logical_extent);
}

#[test]
fn recreation_accepts_a_changed_logical_extent() {
    let surface = 0x9002;
    let old_logical = 0x8000_0000_0000_0111;
    let old_physical = 0x311;
    let old_extent = extent(1280, 720);
    let new_extent = extent(960, 540);
    let info = plain_create_info(surface, new_extent, old_logical);
    let old_contract = LogicalSwapchainContract::new(
        old_logical,
        vec![0x111],
        old_extent,
        PhysicalGeneration::new(0, old_physical, old_extent, 2),
        PresentationState::Virtualized,
    )
    .unwrap();
    let _template = SwapchainTemplate::from_create_info(&info).unwrap();

    let (physical_extent, physical_old_swapchain) = translate_recreation_create_info(
        &info,
        &old_contract,
        SurfaceExtent::fixed(Extent::new(3440, 1440)),
    )
    .unwrap();

    assert_eq!(physical_extent.width, 3440);
    assert_eq!(physical_extent.height, 1440);
    assert_eq!(physical_old_swapchain, NULL_HANDLE);
}

#[test]
fn active_logical_recreation_keeps_temporal_processing_enabled() {
    assert!(!temporal_enabled_for_logical_creation(
        true,
        Some(PresentationState::Negotiating)
    ));
    assert!(temporal_enabled_for_logical_creation(
        true,
        Some(PresentationState::Virtualized)
    ));
    assert!(temporal_enabled_for_logical_creation(false, None));
}

#[test]
fn each_unfit_request_is_refused_for_its_own_reason() {
    let refused = |wsi: &DeviceWsiCapabilities,
                   info: &SwapchainCreateInfo,
                   capabilities: Option<SurfaceCapabilities>| {
        preflight_swapchain_virtualization(wsi, info, capabilities, format_features()).unwrap_err()
    };
    let offered = Some(virtualization_capabilities());
    let base = || plain_create_info(6, extent(1280, 720), NULL_HANDLE);
    let wsi = compatible_wsi();

    let layers = SwapchainCreateInfo {
        image_array_layers: 2,
        ..base()
    };
    assert_eq!(
        refused(&wsi, &layers, offered),
        SwapchainCompatibilityError::UnsupportedImageContract(ERROR_FEATURE_NOT_PRESENT)
    );
    let flags = SwapchainCreateInfo {
        flags: vk::SwapchainCreateFlagsKHR::PROTECTED.as_raw(),
        ..base()
    };
    assert_eq!(
        refused(&wsi, &flags, offered),
        SwapchainCompatibilityError::UnsupportedFlags {
            bits: vk::SwapchainCreateFlagsKHR::PROTECTED.as_raw(),
        }
    );
    assert_eq!(
        refused(
            &DeviceWsiCapabilities::default(),
            &mutable_create_info(),
            offered
        ),
        SwapchainCompatibilityError::UnsupportedImageContract(ERROR_EXTENSION_NOT_PRESENT)
    );
    let shared = SwapchainCreateInfo {
        present_mode: vk::PresentModeKHR::SHARED_DEMAND_REFRESH.as_raw(),
        ..base()
    };
    assert_eq!(
        refused(&wsi, &shared, offered),
        SwapchainCompatibilityError::UnsupportedImageContract(ERROR_FORMAT_NOT_SUPPORTED)
    );
    assert_eq!(
        refused(&wsi, &base(), None),
        SwapchainCompatibilityError::UnsupportedImageContract(ERROR_INITIALIZATION_FAILED)
    );
    assert_eq!(
        refused(&wsi, &base(), Some(no_capabilities())),
        SwapchainCompatibilityError::UnsupportedImageContract(ERROR_FEATURE_NOT_PRESENT)
    );
}

#[test]
fn ranges_take_the_nearest_extent_and_keep_the_old_one() {
    let range = SurfaceExtent::Range {
        minimum: Extent::new(100, 100),
        maximum: Extent::new(1000, 1000),
    };
    assert_eq!(
        initial_physical_extent(extent(1280, 50), range, true),
        extent(1000, 100)
    );
    assert!(surface_extent_accepts(range, extent(1000, 100)));
    assert!(!surface_extent_accepts(range, extent(1001, 100)));

    let old = LogicalSwapchainContract::new(
        TOKEN,
        vec![1],
        extent(640, 360),
        PhysicalGeneration::new(0, 42, extent(800, 600), 2),
        PresentationState::Virtualized,
    )
    .unwrap();
    let info = plain_create_info(6, extent(320, 180), TOKEN);
    assert_eq!(
        translate_recreation_create_info(&info, &old, range),
        Ok((extent(800, 600), NULL_HANDLE))
    );
    assert_eq!(
        translate_recreation_create_info(&info, &old, SurfaceExtent::fixed(Extent::new(0, 600))),
        Err(ERROR_INITIALIZATION_FAILED)
    );
    let foreign = plain_create_info(6, extent(320, 180), TOKEN + 1);
    assert_eq!(
        translate_recreation_create_info(&foreign, &old, range),
        Err(ERROR_OUT_OF_DATE_KHR)
    );
}

#[test]
fn a_surface_without_an_extent_of_its_own_offers_a_range() {
    assert_eq!(
        surface_extent(virtualization_capabilities()),
        SurfaceExtent::fixed(Extent::new(3440, 1440))
    );
    let free = SurfaceCapabilities {
        current_extent: extent(u32::MAX, u32::MAX),
        ..virtualization_capabilities()
    };
    assert_eq!(
        surface_extent(free),
        SurfaceExtent::Range {
            minimum: Extent::new(1, 1),
            maximum: Extent::new(8192, 8192),
        }
    );
}

#[test]
fn logical_handles_are_tagged_and_never_used_twice() {
    let mut layer = Layer::new();
    let first = allocate_logical_swapchain(&mut layer, 42).unwrap();
    let second = allocate_logical_swapchain(&mut layer, 42).unwrap();
    assert_ne!(first, second);
    assert_eq!(first & 0x8000_0000_0000_0000, 0x8000_0000_0000_0000);
    assert_eq!(second, first + 1);

    let state = SwapchainState {
        physical_handle: second + 1,
        ..direct_swapchain(9, 6)
    };
    layer.swapchains.insert(9, state);
    assert_eq!(allocate_logical_swapchain(&mut layer, 42), Some(second + 2));
    assert_eq!(
        allocate_logical_swapchain(&mut layer, 0x8000_0000_0000_0042),
        None
    );
}

#[test]
fn saved_capabilities_come_before_queried_ones() {
    let told = SurfaceCapabilities {
        max_image_count: 3,
        ..no_capabilities()
    };
    let locked =
        logical_capabilities_for_extent(Some(told), Some(no_capabilities()), extent(4, 5)).unwrap();
    assert_eq!(locked.max_image_count, 3);
    assert_eq!(locked.current_extent, extent(4, 5));
    assert_eq!(
        logical_capabilities_for_extent(None, None, extent(4, 5)),
        None
    );
}

#[test]
fn a_native_target_needs_everything_it_asks_for() {
    let window = X11Window::new(7);
    let monitor = Monitor::new(Rect::new(0, 0, 3440, 1440));
    let native = Some(OutputResolution::Native);
    let target =
        |eligible, output, id, connected, described, monitor| {
            native_output_target(eligible, output, id, connected, described, monitor)
        };

    assert_eq!(
        target(true, native, Some(7), true, Some(window), Some(monitor)),
        Ok(InitialOutputTarget { window: 7, monitor })
    );
    assert_eq!(
        target(false, native, Some(7), true, Some(window), Some(monitor)),
        Err(TargetSkip::NotEligible)
    );
    assert_eq!(
        target(true, None, Some(7), true, Some(window), Some(monitor)),
        Err(TargetSkip::ConfigUnavailable)
    );
    assert_eq!(
        target(true, native, None, true, Some(window), Some(monitor)),
        Err(TargetSkip::NoWindow)
    );
    assert_eq!(
        target(true, native, Some(7), false, Some(window), Some(monitor)),
        Err(TargetSkip::DisplayUnavailable)
    );
    assert_eq!(
        target(true, native, Some(7), true, None, Some(monitor)),
        Err(TargetSkip::WindowUnavailable)
    );
    assert_eq!(
        target(true, native, Some(7), true, Some(window), None),
        Err(TargetSkip::TargetUnavailable)
    );
    let empty = Monitor::new(Rect::new(0, 0, 0, 1440));
    assert_eq!(
        target(true, native, Some(7), true, Some(window), Some(empty)),
        Err(TargetSkip::InvalidTarget)
    );
}

fn monitor() -> Monitor {
    Monitor::new(Rect::new(0, 0, 3440, 1440))
}

fn lease() -> BorderlessLease {
    BorderlessLease {
        window: 7,
        original: WindowSnapshot {
            rect: Rect::new(10, 10, 1280, 720),
            fullscreen: false,
        },
        monitor: monitor(),
    }
}

fn surface(borderless_lease: Option<BorderlessLease>) -> X11Surface {
    X11Surface {
        window: 7,
        logical_extent: None,
        logical_capabilities: None,
        borderless_lease,
        negotiation: PresentationNegotiation::direct(),
    }
}

fn inspected(layer: &mut Layer, old_swapchain: u64) -> SwapchainCreation {
    let info = plain_create_info(6, extent(1280, 720), old_swapchain);
    let mut creation = SwapchainCreation::begin(layer, 5, info).unwrap();
    let refused = creation.inspect(
        Some(&compatible_wsi()),
        Some(virtualization_capabilities()),
        format_features(),
    );
    assert!(refused.is_none());
    creation
}

#[test]
fn a_new_virtual_swapchain_waits_for_its_native_output() {
    let mut layer = Layer::new();
    layer.surfaces.insert(6, surface(None));
    let now = 9 * MILLISECOND;

    let mut creation = inspected(&mut layer, NULL_HANDLE);
    creation.aim(
        &layer,
        Some(InitialOutputTarget {
            window: 7,
            monitor: monitor(),
        }),
    );
    let wanted = creation.image_request().unwrap();
    assert_eq!((wanted.count, wanted.extent), (2, extent(1280, 720)));
    assert_eq!(wanted.usage, 0x1f);
    creation.adopt_images(Some(vec![101, 102]));
    assert_eq!(creation.settle(&mut layer), (None, None));
    assert_eq!(creation.place(None), Ok(()));
    let request = creation.request();
    assert_eq!(request.image_extent, extent(3440, 1440));
    assert_eq!(request.image_usage, 0x1b);
    assert_eq!(
        creation.answered(Some(&compatible_wsi()), SUCCESS),
        Some(SUCCESS)
    );
    assert!(creation.wants_overlay());
    let (handle, virtualized) = creation.identify(&mut layer, 42);
    assert!(virtualized);
    let next = layer.next_logical;
    let (another, _) = creation.identify(&mut layer, 42);
    assert_ne!(another, handle);
    assert_eq!(layer.next_logical, next + 1);
    let overlay = creation.overlay_request(&layer, virtualized, &[201, 202, 203]);
    assert_eq!(overlay.game_images, vec![101, 102]);
    assert_eq!(overlay.output_images, vec![201, 202, 203]);
    assert_eq!(overlay.game_extent, extent(1280, 720));
    assert_eq!(overlay.window, Some(7));
    assert_eq!(overlay.monitor, Some((0, 0, 3440, 1440)));
    assert!(!overlay.temporal_enabled);

    let negotiation = creation.install(&mut layer, handle, true, 42, vec![201, 202, 203], now);
    assert_eq!(negotiation.public_state(), PresentationState::Negotiating);
    assert_eq!(creation.reusable_lease(), None);
    creation.promoted(&mut layer, handle, lease(), now);
    creation.end(&mut layer);

    let state = layer.swapchains.get(handle).unwrap();
    assert_eq!(state.physical_handle, 42);
    assert_eq!(state.virtual_images, Some(vec![101, 102]));
    assert_eq!(state.negotiation.public_state(), PresentationState::Negotiating);
    let shown = layer.surfaces.get(6).unwrap();
    assert_eq!(shown.logical_extent, Some(extent(1280, 720)));
    assert_eq!(shown.borderless_lease, Some(lease()));

    let told = get_surface_capabilities(&layer, 6, SUCCESS, virtualization_capabilities());
    assert_eq!(told.current_extent, extent(1280, 720));
    assert_eq!(told.min_image_extent, extent(1280, 720));
    assert_eq!(told.max_image_extent, extent(1280, 720));
    let answer = get_swapchain_images(&layer, handle, true, Some(2));
    assert_eq!(
        answer,
        ImagesAnswer::Virtual(ImageQuery {
            result: SUCCESS,
            image_count: 2,
            images: vec![101, 102],
        })
    );
    let pending = begin_acquire(&mut layer, handle, true).unwrap();
    assert_eq!((pending.physical, pending.reserved), (42, Some(0)));

    assert_eq!(restore_surface_window(&mut layer, 6), Some(lease()));
    let told = get_surface_capabilities(&layer, 6, SUCCESS, virtualization_capabilities());
    assert_eq!(told, virtualization_capabilities());
}

#[test]
fn a_window_that_is_not_promoted_leaves_a_direct_swapchain() {
    let mut layer = Layer::new();
    layer.surfaces.insert(6, surface(Some(lease())));
    let mut creation = inspected(&mut layer, NULL_HANDLE);
    creation.aim(
        &layer,
        Some(InitialOutputTarget {
            window: 7,
            monitor: monitor(),
        }),
    );
    creation.adopt_images(Some(vec![101, 102]));
    creation.place(None).unwrap();
    assert_eq!(creation.reusable_lease(), Some(lease()));
    let (handle, _) = creation.identify(&mut layer, 42);
    creation.install(&mut layer, handle, true, 42, vec![201], 0);

    let overlay = creation.unpromoted(&mut layer, handle);

    assert!(overlay);
    assert!(layer.swapchains.get(handle).is_none());
}

#[test]
fn a_request_of_the_monitor_s_extent_has_nothing_to_scale() {
    let mut layer = Layer::new();
    layer.surfaces.insert(
        6,
        X11Surface {
            logical_extent: Some(extent(1, 1)),
            ..surface(None)
        },
    );
    let mut creation = inspected(&mut layer, NULL_HANDLE);
    creation.aim(
        &layer,
        Some(InitialOutputTarget {
            window: 7,
            monitor: Monitor::new(Rect::new(0, 0, 1280, 720)),
        }),
    );
    creation.adopt_images(Some(vec![101, 102]));
    assert!(creation.target.is_none());
    assert_eq!(creation.settle(&mut layer), (None, None));
    assert_eq!(layer.surfaces.get(6).unwrap().logical_extent, None);
    assert_eq!(creation.identify(&mut layer, 42), (42, false));
}

#[test]
fn a_request_that_cannot_be_virtual_gives_the_surface_up() {
    let mut layer = Layer::new();
    layer.surfaces.insert(6, surface(Some(lease())));
    let info = plain_create_info(6, extent(1280, 720), NULL_HANDLE);
    let mut creation = SwapchainCreation::begin(&mut layer, 5, info).unwrap();
    let refused = creation.inspect(None, None, 0);
    assert!(refused.is_none());
    assert!(creation.plan.is_none());
    assert!(creation.image_request().is_none());
    creation.adopt_images(None);

    assert_eq!(creation.settle(&mut layer), (Some(lease()), None));
}

#[test]
fn a_failed_creation_is_tried_again_with_less() {
    let mut layer = Layer::new();
    let mut creation = inspected(&mut layer, NULL_HANDLE);
    creation.adopt_images(Some(vec![101, 102]));
    creation.place(None).unwrap();
    assert_eq!(creation.request().image_usage, 0x1b);

    assert_eq!(
        creation.answered(Some(&compatible_wsi()), ERROR_SURFACE_LOST_KHR),
        None
    );

    assert_eq!(creation.request().image_usage, 0x10);
    assert_eq!(
        creation.answered(Some(&compatible_wsi()), ERROR_SURFACE_LOST_KHR),
        Some(ERROR_SURFACE_LOST_KHR)
    );
}

#[test]
fn a_virtual_swapchain_takes_over_from_another() {
    let mut layer = Layer::new();
    layer.surfaces.insert(6, surface(Some(lease())));
    layer
        .swapchains
        .insert(TOKEN, virtual_swapchain(TOKEN, 6, 42));

    let mut creation = inspected(&mut layer, TOKEN);
    let twice = SwapchainCreation::begin(
        &mut layer,
        5,
        plain_create_info(6, extent(1280, 720), TOKEN),
    );
    assert_eq!(twice.err(), Some(ERROR_OUT_OF_DATE_KHR));
    creation.aim(&layer, None);
    creation.adopt_images(Some(vec![101, 102]));
    assert_eq!(creation.settle(&mut layer), (None, None));
    assert_eq!(creation.place(Some(virtualization_capabilities())), Ok(()));
    assert_eq!(creation.request().old_swapchain, NULL_HANDLE);
    let (handle, virtualized) = creation.identify(&mut layer, 43);
    assert!(virtualized);
    let negotiation = creation.install(&mut layer, handle, true, 43, vec![201], 0);
    creation.recreated(&mut layer, negotiation);
    creation.end(&mut layer);

    assert!(layer.is_retired_swapchain(TOKEN));
    assert!(layer.swapchains.get(TOKEN).is_some());
    assert_eq!(layer.swapchains.get(handle).unwrap().physical_handle, 43);
    assert!(layer.begin_surface_recreation(6));
    let again = SwapchainCreation::begin(
        &mut layer,
        5,
        plain_create_info(6, extent(1280, 720), TOKEN),
    );
    assert_eq!(again.err(), Some(ERROR_OUT_OF_DATE_KHR));
}

#[test]
fn a_successor_that_cannot_be_virtual_is_refused() {
    let mut layer = Layer::new();
    layer.surfaces.insert(6, surface(Some(lease())));
    layer
        .swapchains
        .insert(TOKEN, virtual_swapchain(TOKEN, 6, 42));
    let mut creation = inspected(&mut layer, TOKEN);
    creation.adopt_images(None);

    assert_eq!(
        creation.settle(&mut layer),
        (Some(lease()), Some(ERROR_FEATURE_NOT_PRESENT))
    );
}

#[test]
fn predecessors_that_are_not_known_go_downstream() {
    let mut layer = Layer::new();
    let info = plain_create_info(6, extent(1280, 720), 77);
    let creation = SwapchainCreation::begin(&mut layer, 5, info).unwrap();
    assert_eq!(creation.info.old_swapchain, 77);

    let unknown = plain_create_info(6, extent(1280, 720), TOKEN);
    assert_eq!(
        SwapchainCreation::begin(&mut layer, 5, unknown).err(),
        Some(ERROR_OUT_OF_DATE_KHR)
    );
}
