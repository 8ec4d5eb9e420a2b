use tuxscaling::layer::hooks::device::device_created;
use tuxscaling::layer::hooks::dispatch::{
    current_physical_swapchain, device_allows_virtualization, get_device_proc_addr_inner,
    get_instance_proc_addr_inner, get_past_presentation_timing_google,
    get_physical_device_proc_addr_inner, get_swapchain_status_khr, is_swapchain_related_proc,
    reject_acquire_full_screen_exclusive_mode_ext, reject_release_full_screen_exclusive_mode_ext,
    set_hdr_metadata_ext, timing_query_failed, timing_records, wait_for_present_khr, Hook,
    ProcAddress, TimingQuery,
};
use tuxscaling::layer::hooks::maintenance::DeviceCreateInfo;
use tuxscaling::layer::hooks::swapchain_metadata::{OwnedHdrMetadata, OwnedXy};
use tuxscaling::layer::mapping::Mapping;
use tuxscaling::layer::recovery::{
    LogicalSwapchainContract, PhysicalGeneration, ReconfigurationLifecycle, ReconfigurationTicket,
};
use tuxscaling::layer::hooks::present_id::PresentIdHistory;
use tuxscaling::layer::state::{Devices, Layer, SwapchainState};
use tuxscaling::display::negotiation::{PresentationNegotiation, PresentationState};
use tuxscaling::vk::{
    Extent2D, API_VERSION_1_3, ERROR_DEVICE_LOST, ERROR_EXTENSION_NOT_PRESENT,
    ERROR_INITIALIZATION_FAILED, ERROR_OUT_OF_DATE_KHR, INCOMPLETE, SUCCESS,
};

const TOKEN: u64 = 0x8000_0000_0000_0001;

fn virtual_swapchain() -> SwapchainState {
    let extent = Extent2D {
        width: 1280,
        height: 720,
    };
    SwapchainState {
        device: 5,
        game_surface: 6,
        present_surface: None,
        logical_handle: TOKEN,
        physical_handle: 42,
        mapping: Some(Mapping::new(1, 2)),
        negotiation: PresentationNegotiation::direct(),
        has_overlay: true,
        virtual_images: Some(vec![1, 2]),
        physical_images: vec![3, 4],
        retired_physical_generations: vec![41, 42, 41],
        maintenance_overlay_reported: false,
        maintenance_present_reported: false,
        maintenance_release_reported: false,
        input_route_reported: false,
        generation: 1,
        template: None,
        contract: Some(
            LogicalSwapchainContract::new(
                TOKEN,
                vec![1, 2],
                extent,
                PhysicalGeneration::new(1, 42, extent, 2),
                PresentationState::Virtualized,
            )
            .unwrap(),
        ),
        hdr_metadata: None,
        present_ids: PresentIdHistory::new(),
        lifecycle: ReconfigurationLifecycle::new(),
    }
}

fn layer_with_virtual_swapchain() -> Layer {
    let mut layer = Layer::new();
    layer.swapchains.insert(TOKEN, virtual_swapchain());
    layer
}

fn metadata(luminance: f32) -> OwnedHdrMetadata {
    let xy = OwnedXy {
        x: 0.3_f32.to_bits(),
        y: 0.6_f32.to_bits(),
    };
    OwnedHdrMetadata {
        display_primary_red: xy,
        display_primary_green: xy,
        display_primary_blue: xy,
        white_point: xy,
        max_luminance: luminance.to_bits(),
        min_luminance: 0,
        max_content_light_level: 0,
        max_frame_average_light_level: 0,
    }
}

#[test]
fn unknown_swapchain_proc_names_are_not_forwarded_to_downstream() {
    let name = b"vkFutureSwapchainCommandKHR";
    let devices = Devices::new();

    assert!(is_swapchain_related_proc(name));
    assert_eq!(
        get_device_proc_addr_inner(&devices, 0, Some(name)),
        ProcAddress::Absent
    );
}

#[test]
fn known_swapchain_extension_proc_names_have_safe_layer_dispatch() {
    let names = [
        b"vkWaitForPresentKHR".as_slice(),
        b"vkGetPastPresentationTimingGOOGLE".as_slice(),
        b"vkGetRefreshCycleDurationGOOGLE".as_slice(),
        b"vkGetSwapchainCounterEXT".as_slice(),
        b"vkGetSwapchainStatusKHR".as_slice(),
        b"vkReleaseSwapchainImagesEXT".as_slice(),
        b"vkReleaseSwapchainImagesKHR".as_slice(),
        b"vkSetHdrMetadataEXT".as_slice(),
        b"vkAcquireFullScreenExclusiveModeEXT".as_slice(),
        b"vkReleaseFullScreenExclusiveModeEXT".as_slice(),
    ];
    let devices = Devices::new();

    for name in names {
        assert!(matches!(
            get_device_proc_addr_inner(&devices, 0, Some(name)),
            ProcAddress::Layer(_)
        ));
    }
}

#[test]
fn full_screen_exclusive_dispatch_rejects_unknown_tagged_tokens() {
    let token = 0x8000_0000_0000_0fed;
    let layer = Layer::new();

    assert_eq!(
        reject_acquire_full_screen_exclusive_mode_ext(&layer, token, true),
        Err(ERROR_OUT_OF_DATE_KHR)
    );
    assert_eq!(
        reject_release_full_screen_exclusive_mode_ext(&layer, token, true),
        Err(ERROR_OUT_OF_DATE_KHR)
    );
}

#[test]
fn swapchain_commands_stay_away_from_devices_with_virtual_swapchains() {
    let mut devices = Devices::new();
    let safe = DeviceCreateInfo {
        extension_names: Some(Vec::new()),
        chain: Vec::new(),
    };
    let vendor = DeviceCreateInfo {
        extension_names: Some(vec![Some(b"VK_NV_present_barrier".to_vec())]),
        chain: Vec::new(),
    };
    device_created(&mut devices, 7, &safe, API_VERSION_1_3, vec![3]);
    device_created(&mut devices, 8, &vendor, API_VERSION_1_3, vec![3]);
    let name = Some(b"vkFutureSwapchainCommandKHR".as_slice());

    assert!(device_allows_virtualization(&devices, 7));
    assert!(!device_allows_virtualization(&devices, 8));
    assert_eq!(
        get_device_proc_addr_inner(&devices, 7, name),
        ProcAddress::Absent
    );
    assert_eq!(
        get_device_proc_addr_inner(&devices, 8, name),
        ProcAddress::Downstream
    );
    assert_eq!(
        get_device_proc_addr_inner(&devices, 7, Some(b"vkCmdDraw")),
        ProcAddress::Downstream
    );
    assert_eq!(
        get_device_proc_addr_inner(&devices, 9, Some(b"vkCmdDraw")),
        ProcAddress::Absent
    );
    assert_eq!(
        get_device_proc_addr_inner(&devices, 7, None),
        ProcAddress::Absent
    );
}

#[test]
fn instances_hand_out_their_own_commands_and_those_of_devices() {
    assert_eq!(
        get_instance_proc_addr_inner(Some(b"vkCreateInstance")),
        ProcAddress::Layer(Hook::CreateInstance)
    );
    assert_eq!(
        get_instance_proc_addr_inner(Some(b"vkQueuePresentKHR")),
        ProcAddress::Layer(Hook::QueuePresent)
    );
    assert_eq!(
        get_instance_proc_addr_inner(Some(b"vkReleaseSwapchainImagesKHR")),
        ProcAddress::Downstream
    );
    assert_eq!(
        get_instance_proc_addr_inner(Some(b"vkEnumeratePhysicalDevices")),
        ProcAddress::Downstream
    );
    assert_eq!(get_instance_proc_addr_inner(None), ProcAddress::Absent);
    assert_eq!(
        get_physical_device_proc_addr_inner(
            Some(b"vkEnumerateDeviceExtensionProperties"),
            false
        ),
        ProcAddress::Layer(Hook::EnumerateDeviceExtensionProperties)
    );
    assert_eq!(
        get_physical_device_proc_addr_inner(Some(b"vkCreateDevice"), true),
        ProcAddress::Downstream
    );
    assert_eq!(
        get_physical_device_proc_addr_inner(Some(b"vkCreateDevice"), false),
        ProcAddress::Absent
    );
}

#[test]
fn commands_on_a_virtual_swapchain_go_to_its_downstream_one() {
    let mut layer = layer_with_virtual_swapchain();

    assert_eq!(current_physical_swapchain(&layer, TOKEN), Ok(42));
    assert_eq!(current_physical_swapchain(&layer, 77), Ok(77));
    assert_eq!(get_swapchain_status_khr(&layer, TOKEN, true), Ok(42));
    assert_eq!(
        get_swapchain_status_khr(&layer, TOKEN, false),
        Err(ERROR_EXTENSION_NOT_PRESENT)
    );

    layer.retire_swapchain(TOKEN);
    assert_eq!(
        get_swapchain_status_khr(&layer, TOKEN, false),
        Err(ERROR_OUT_OF_DATE_KHR)
    );
}

#[test]
fn waits_go_where_the_present_went() {
    let mut state = virtual_swapchain();
    let first = state.present_ids.stage(0, 41, &[10]).unwrap();
    state.present_ids.commit(first);
    let second = state.present_ids.stage(1, 42, &[20]).unwrap();
    state.present_ids.commit(second);
    let mut layer = Layer::new();
    layer.swapchains.insert(TOKEN, state);

    assert_eq!(wait_for_present_khr(&layer, TOKEN, 10, true), Ok(41));
    assert_eq!(wait_for_present_khr(&layer, TOKEN, 20, true), Ok(42));
    assert_eq!(
        wait_for_present_khr(&layer, TOKEN, 30, true),
        Err(ERROR_OUT_OF_DATE_KHR)
    );
    assert_eq!(
        wait_for_present_khr(&layer, TOKEN, 10, false),
        Err(ERROR_EXTENSION_NOT_PRESENT)
    );
    assert_eq!(wait_for_present_khr(&layer, 5, 30, true), Ok(5));
}

#[test]
fn past_timings_are_asked_of_every_generation_once() {
    let mut layer = layer_with_virtual_swapchain();

    assert_eq!(
        get_past_presentation_timing_google(&layer, TOKEN, true, true),
        Ok(TimingQuery::Generations(vec![41, 42]))
    );
    let mut older = virtual_swapchain();
    older.retired_physical_generations = vec![39, 40, 39, 41];
    let mut history = Layer::new();
    history.swapchains.insert(TOKEN, older);
    assert_eq!(
        get_past_presentation_timing_google(&history, TOKEN, true, true),
        Ok(TimingQuery::Generations(vec![40, 39, 41, 42]))
    );
    assert_eq!(
        get_past_presentation_timing_google(&layer, TOKEN, true, false),
        Err(ERROR_INITIALIZATION_FAILED)
    );
    assert_eq!(
        get_past_presentation_timing_google(&layer, 9, true, false),
        Ok(TimingQuery::Direct(9))
    );
    assert_eq!(
        get_past_presentation_timing_google(&layer, TOKEN, false, true),
        Err(ERROR_EXTENSION_NOT_PRESENT)
    );

    let ticket = ReconfigurationTicket::new(TOKEN, 6, 1);
    let mut blocked = virtual_swapchain();
    assert!(blocked.lifecycle.begin(ticket));
    layer.swapchains.insert(TOKEN, blocked);
    assert_eq!(
        get_past_presentation_timing_google(&layer, TOKEN, true, true),
        Err(ERROR_OUT_OF_DATE_KHR)
    );

    assert!(!timing_query_failed(SUCCESS));
    assert!(!timing_query_failed(INCOMPLETE));
    assert!(timing_query_failed(ERROR_DEVICE_LOST));
    assert_eq!(timing_records(3, 2), 2);
    assert_eq!(timing_records(3, 5), 3);
}

#[test]
fn metadata_reaches_the_driver_and_stays_with_virtual_swapchains() {
    let mut layer = layer_with_virtual_swapchain();
    let values = [metadata(100.0), metadata(200.0), metadata(300.0)];

    let (physical, passed) =
        set_hdr_metadata_ext(&mut layer, &[9, TOKEN, TOKEN], &values).unwrap();

    assert_eq!(physical, vec![9, 42, 42]);
    assert_eq!(passed, values.to_vec());
    assert_eq!(
        layer.swapchains.get(TOKEN).unwrap().hdr_metadata,
        Some(values[2])
    );

    let unknown = 0x8000_0000_0000_0099;
    assert!(set_hdr_metadata_ext(&mut layer, &[TOKEN, unknown], &values[..2]).is_none());
    assert_eq!(
        layer.swapchains.get(TOKEN).unwrap().hdr_metadata,
        Some(values[2])
    );
}
