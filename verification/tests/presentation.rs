use tuxscaling::display::negotiation::{PresentationNegotiation, PresentationState};
use tuxscaling::layer::hooks::acquire::{begin_acquire, finish_acquire};
use tuxscaling::layer::hooks::present_chain::{
    MappedPresentRegions, PresentNode, PresentRegion, RectLayer,
};
use tuxscaling::layer::hooks::present_id::PresentIdHistory;
use tuxscaling::layer::hooks::presentation::{
    begin_present, finish_present, frame_submitted, frame_waits, is_damage_scaled,
    map_present_regions, overlays_to_notify, plan_overlay, present_committed, present_request,
    report_maintenance_present, should_retry_native_publication, surfaces_to_observe,
    translate_present, uses_virtual_output, with_overlay_wait, FramePlan, FrameReports, PresentInfo,
};
use tuxscaling::layer::hooks::wsi_compatibility::DeviceWsiCapabilities;
use tuxscaling::layer::mapping::Mapping;
use tuxscaling::layer::recovery::{
    LogicalSwapchainContract, PhysicalGeneration, ReconfigurationLifecycle,
};
use tuxscaling::layer::state::{DeviceState, Devices, Layer, QueueState, SwapchainState};
use tuxscaling::vk::{
    Extent2D, Offset2D, ERROR_DEVICE_LOST, ERROR_FEATURE_NOT_PRESENT, ERROR_INITIALIZATION_FAILED,
    ERROR_OUT_OF_DATE_KHR, SUBOPTIMAL_KHR, SUCCESS,
};

const TOKEN: u64 = 0x8000_0000_0000_0001;

fn extent(width: u32, height: u32) -> Extent2D {
    Extent2D { width, height }
}

fn direct_swapchain(handle: u64, surface: u64) -> SwapchainState {
    SwapchainState {
        device: 5,
        game_surface: surface,
        present_surface: None,
        logical_handle: handle,
        physical_handle: handle,
        mapping: None,
        negotiation: PresentationNegotiation::direct(),
        has_overlay: true,
        virtual_images: None,
        physical_images: vec![3, 4],
        retired_physical_generations: Vec::new(),
        maintenance_overlay_reported: false,
        maintenance_present_reported: false,
        maintenance_release_reported: false,
        input_route_reported: false,
        generation: 0,
        template: None,
        contract: None,
        hdr_metadata: None,
        present_ids: PresentIdHistory::new(),
        lifecycle: ReconfigurationLifecycle::new(),
    }
}

fn virtual_swapchain(handle: u64, surface: u64, physical: u64) -> SwapchainState {
    SwapchainState {
        physical_handle: physical,
        mapping: Some(Mapping::new(1, 2)),
        virtual_images: Some(vec![1, 2]),
        generation: 1,
        contract: Some(
            LogicalSwapchainContract::new(
                handle,
                vec![1, 2],
                extent(1280, 720),
                PhysicalGeneration::new(1, physical, extent(1280, 720), 2),
                PresentationState::Virtualized,
            )
            .unwrap(),
        ),
        ..direct_swapchain(handle, surface)
    }
}

fn present(swapchains: Vec<u64>, image_indices: Vec<u32>) -> PresentInfo {
    PresentInfo {
        swapchain_count: swapchains.len() as u32,
        swapchains: Some(swapchains),
        image_indices: Some(image_indices),
        wait_semaphore_count: 0,
        wait_semaphores: None,
        chain: Vec::new(),
    }
}

/// A layer with one virtual swapchain whose first slot holds image 1.
fn layer_with_acquired_image() -> Layer {
    let mut layer = Layer::new();
    let mut state = virtual_swapchain(TOKEN, 6, 42);
    state.mapping.as_mut().unwrap().acquire(1).unwrap();
    layer.swapchains.insert(TOKEN, state);
    layer
}

fn slot(layer: &Layer, index: u32) -> Option<u32> {
    let state = layer.swapchains.get(TOKEN).unwrap();
    state.mapping.as_ref().unwrap().resolve(index)
}

#[test]
fn present_hook_rejects_a_retired_logical_token_without_translation_fallback() {
    let mut layer = Layer::new();
    let token = 0x8000_0000_0000_0077;
    layer.retire_swapchain(token);
    let info = present(vec![token], vec![0]);

    assert!(matches!(
        translate_present(&layer, &info),
        Err(ERROR_OUT_OF_DATE_KHR)
    ));
}

#[test]
fn retries_native_publication_after_a_successful_present_release() {
    assert!(should_retry_native_publication(SUCCESS));
    assert!(!should_retry_native_publication(SUBOPTIMAL_KHR));
    assert!(!should_retry_native_publication(ERROR_OUT_OF_DATE_KHR));
}

#[test]
fn defers_native_publication_after_a_suboptimal_present() {
    assert!(!should_retry_native_publication(SUBOPTIMAL_KHR));
    assert!(present_committed(SUBOPTIMAL_KHR));
    assert!(present_committed(SUCCESS));
    assert!(!present_committed(ERROR_OUT_OF_DATE_KHR));
}

#[test]
fn overlay_wait_semaphore_remains_valid_for_downstream_callback() {
    let semaphore = 0xcf00_0000_00cf;

    let (count, waited) = with_overlay_wait(&present(Vec::new(), Vec::new()), Some(semaphore));

    assert_eq!(count, 1);
    assert_eq!(waited.unwrap()[0], semaphore);
}

#[test]
fn without_an_overlay_the_waits_stay() {
    let mut info = present(vec![9], vec![0]);
    info.wait_semaphore_count = 2;
    assert_eq!(with_overlay_wait(&info, None), (2, None));
    info.wait_semaphores = Some(vec![7, 8]);
    assert_eq!(with_overlay_wait(&info, None), (2, Some(vec![7, 8])));
    assert_eq!(frame_waits(&info, None), vec![7, 8]);
    assert_eq!(frame_waits(&info, Some(5)), vec![5]);
}

#[test]
fn presents_go_down_with_downstream_handles_and_images() {
    let layer = layer_with_acquired_image();

    let translation = translate_present(&layer, &present(vec![9, TOKEN], vec![3, 0]))
        .unwrap()
        .unwrap();

    assert_eq!(translation.swapchains, vec![9, 42]);
    assert_eq!(translation.image_indices, vec![3, 1]);
    assert_eq!(translation.releases, vec![(TOKEN, 0)]);
    assert!(translation.present_targets[0].is_none());
    assert_eq!(translation.present_targets[1].unwrap().physical, 42);

    assert!(translate_present(&layer, &present(vec![9], vec![3]))
        .unwrap()
        .is_none());
    assert_eq!(
        translate_present(&layer, &present(vec![TOKEN], vec![1])).err(),
        Some(ERROR_OUT_OF_DATE_KHR)
    );
    let unreadable = PresentInfo {
        image_indices: None,
        ..present(vec![TOKEN], vec![0])
    };
    assert_eq!(
        translate_present(&layer, &unreadable).err(),
        Some(ERROR_INITIALIZATION_FAILED)
    );
}

fn present_with_ids(ids: Vec<u64>) -> PresentInfo {
    PresentInfo {
        chain: vec![PresentNode::Ids {
            count: 1,
            ids: Some(ids),
        }],
        ..present(vec![TOKEN], vec![0])
    }
}

#[test]
fn a_present_that_took_place_keeps_its_identifiers_and_frees_its_image() {
    let mut layer = layer_with_acquired_image();
    let info = present_with_ids(vec![30]);
    let pending = begin_present(&mut layer, &info).unwrap();
    let request = present_request(&info, &pending, Some(77), None).unwrap();
    assert_eq!(request.swapchains, Some(vec![42]));
    assert_eq!(request.image_indices, Some(vec![1]));
    assert_eq!(request.wait_semaphore_count, 1);
    assert_eq!(request.wait_semaphores, Some(vec![77]));
    assert_eq!(
        request.chain,
        Some(vec![PresentNode::Ids {
            count: 1,
            ids: Some(vec![30]),
        }])
    );

    finish_present(&mut layer, pending, SUBOPTIMAL_KHR);

    assert_eq!(slot(&layer, 0), None);
    let history = &layer.swapchains.get(TOKEN).unwrap().present_ids;
    assert_eq!(history.resolve(30).unwrap().physical(), 42);
}

#[test]
fn a_refused_present_leaves_no_trace() {
    let mut layer = layer_with_acquired_image();
    let info = present_with_ids(vec![30]);
    let pending = begin_present(&mut layer, &info).unwrap();

    finish_present(&mut layer, pending, ERROR_DEVICE_LOST);

    assert_eq!(slot(&layer, 0), Some(1));
    let history = &layer.swapchains.get(TOKEN).unwrap().present_ids;
    assert!(history.resolve(30).is_none());
    assert!(begin_present(&mut layer, &info).is_ok());
    assert_eq!(
        begin_present(&mut layer, &info).err(),
        Some(ERROR_FEATURE_NOT_PRESENT)
    );
}

#[test]
fn malformed_structures_of_a_present_are_refused() {
    let mut layer = layer_with_acquired_image();
    let info = PresentInfo {
        chain: vec![PresentNode::Unknown { structure_type: 5 }],
        ..present(vec![TOKEN], vec![0])
    };
    assert_eq!(
        begin_present(&mut layer, &info).err(),
        Some(ERROR_FEATURE_NOT_PRESENT)
    );
    assert_eq!(slot(&layer, 0), Some(1));
}

#[test]
fn direct_presents_go_down_as_they_came() {
    let mut layer = Layer::new();
    let info = present(vec![9], vec![3]);
    let pending = begin_present(&mut layer, &info).unwrap();
    assert!(present_request(&info, &pending, None, None).is_none());
    let request = present_request(&info, &pending, Some(5), None).unwrap();
    assert_eq!(request.swapchains, Some(vec![9]));
    assert!(request.chain.is_none());
    assert!(!uses_virtual_output(&layer, &info));
    assert!(surfaces_to_observe(&layer, &info).is_empty());
}

fn rectangle(x: i32, layer: u32) -> RectLayer {
    RectLayer {
        offset: Offset2D { x, y: 0 },
        extent: extent(10, 10),
        layer,
    }
}

#[test]
fn damage_is_moved_where_the_overlay_scales() {
    let mut layer = layer_with_acquired_image();
    let info = PresentInfo {
        chain: vec![PresentNode::Regions {
            count: 2,
            regions: Some(vec![
                PresentRegion {
                    rectangles: Some(vec![rectangle(1, 4)]),
                },
                PresentRegion {
                    rectangles: Some(vec![rectangle(2, 5)]),
                },
            ]),
        }],
        ..present(vec![TOKEN, 9], vec![0, 3])
    };
    assert!(is_damage_scaled(&layer, TOKEN));
    assert!(!is_damage_scaled(&layer, 9));
    let pending = begin_present(&mut layer, &info).unwrap();
    let chain = pending.chain.as_ref().unwrap();

    let mapped = map_present_regions(
        &layer,
        &info,
        chain,
        &[vec![rectangle(100, 0)], Vec::new()],
    )
    .unwrap();

    assert_eq!(
        mapped,
        MappedPresentRegions::from_rectangles(vec![
            vec![rectangle(100, 4)],
            vec![rectangle(2, 5)],
        ])
    );
}

fn devices() -> Devices {
    let mut devices = Devices::new();
    devices.register_device(
        5,
        DeviceState {
            wsi: DeviceWsiCapabilities::default(),
            vulkan_api_version: 0,
            queue_families: vec![0x3, 0x1],
        },
    );
    devices
}

fn queue(family_index: u32) -> QueueState {
    QueueState {
        device: 5,
        family_index,
        processing_allowed: true,
    }
}

#[test]
fn frames_are_drawn_for_overlays_of_the_queue_s_device() {
    let layer = layer_with_acquired_image();
    let info = present(vec![9, TOKEN], vec![3, 0]);

    assert_eq!(
        plan_overlay(&layer, &devices(), queue(0), &info),
        vec![FramePlan {
            swapchain: TOKEN,
            logical_index: 0,
            physical_index: 1,
            spatial: false,
        }]
    );
    assert!(plan_overlay(&layer, &devices(), queue(1), &info).is_empty());
    assert!(plan_overlay(&layer, &devices(), queue(2), &info).is_empty());
    let refused = QueueState {
        processing_allowed: false,
        ..queue(0)
    };
    assert!(plan_overlay(&layer, &devices(), refused, &info).is_empty());
    let waiting = PresentInfo {
        wait_semaphore_count: 1,
        ..present(vec![TOKEN], vec![0])
    };
    assert!(plan_overlay(&layer, &devices(), queue(0), &waiting).is_empty());
}

#[test]
fn each_first_frame_is_reported_once() {
    let mut layer = layer_with_acquired_image();
    assert_eq!(
        frame_submitted(&mut layer, TOKEN, true),
        FrameReports {
            overlay: true,
            input_route: false,
            maintenance: true,
        }
    );
    assert_eq!(
        frame_submitted(&mut layer, TOKEN, true),
        FrameReports {
            overlay: false,
            input_route: false,
            maintenance: false,
        }
    );
    let info = present(vec![9, TOKEN], vec![0, 0]);
    assert_eq!(report_maintenance_present(&mut layer, &info, 0, 0), None);
    assert_eq!(
        report_maintenance_present(&mut layer, &info, 1, 0),
        Some(TOKEN)
    );
    assert_eq!(report_maintenance_present(&mut layer, &info, 1, 0), None);
}

#[test]
fn overlays_hear_of_presents_that_went_wrong() {
    let layer = layer_with_acquired_image();
    let info = present(vec![9, TOKEN], vec![0, 0]);
    assert!(overlays_to_notify(&layer, &info, SUCCESS).is_empty());
    assert_eq!(
        overlays_to_notify(&layer, &info, SUBOPTIMAL_KHR),
        vec![TOKEN]
    );
    assert!(uses_virtual_output(&layer, &info));
    assert_eq!(surfaces_to_observe(&layer, &info), vec![6]);
}

#[test]
fn an_acquired_image_is_shown_and_its_slot_freed() {
    let mut layer = layer_with_acquired_image();
    let pending = begin_acquire(&mut layer, TOKEN, true).unwrap();
    assert_eq!(pending.physical, 42);
    let outcome = finish_acquire(&mut layer, pending, Some((SUBOPTIMAL_KHR, 0)));
    assert_eq!(outcome.result, SUBOPTIMAL_KHR);
    assert_eq!(outcome.image_index, Some(1));

    let info = present(vec![TOKEN], vec![1]);
    let pending = begin_present(&mut layer, &info).unwrap();
    let request = present_request(&info, &pending, None, None).unwrap();
    assert_eq!(request.swapchains, Some(vec![42]));
    assert_eq!(request.image_indices, Some(vec![0]));
    finish_present(&mut layer, pending, SUCCESS);

    assert_eq!(slot(&layer, 0), Some(1));
    assert_eq!(slot(&layer, 1), None);
}
