use tuxscaling::layer::hooks::acquire::{
    begin_acquire, begin_acquire2, copy_virtual_images, finish_acquire, get_swapchain_images,
    map_acquire_result, reject_retired_swapchain, virtual_physical_swapchain, AcquireOutcome,
    ImagesAnswer,
};
use tuxscaling::layer::mapping::AcquireError;
use tuxscaling::layer::state::{Layer, SwapchainState};
use tuxscaling::vk::{
    Extent2D, ERROR_INITIALIZATION_FAILED, ERROR_OUT_OF_DATE_KHR, INCOMPLETE, SUBOPTIMAL_KHR,
    SUCCESS,
};
use tuxscaling::display::negotiation::{PresentationNegotiation, PresentationState};
use tuxscaling::layer::hooks::present_id::PresentIdHistory;
use tuxscaling::layer::mapping::Mapping;
use tuxscaling::layer::recovery::{
    LogicalSwapchainContract, PhysicalGeneration, ReconfigurationLifecycle,
};

const TOKEN: u64 = 0x8000_0000_0000_0001;

fn extent(width: u32, height: u32) -> Extent2D {
    Extent2D { width, height }
}

fn direct_swapchain(handle: u64, surface: u64) -> SwapchainState {
    SwapchainState {
        device: 5,
        game_surface: surface,
        present_surface: None,
        logical_handle: handle,
        physical_handle: handle,
        mapping: None,
        negotiation: PresentationNegotiation::direct(),
        has_overlay: true,
        virtual_images: None,
        physical_images: vec![3, 4],
        retired_physical_generations: Vec::new(),
        maintenance_overlay_reported: false,
        maintenance_present_reported: false,
        maintenance_release_reported: false,
        input_route_reported: false,
        generation: 0,
        template: None,
        contract: None,
        hdr_metadata: None,
        present_ids: PresentIdHistory::new(),
        lifecycle: ReconfigurationLifecycle::new(),
    }
}

fn virtual_swapchain(handle: u64, surface: u64, physical: u64) -> SwapchainState {
    SwapchainState {
        physical_handle: physical,
        mapping: Some(Mapping::new(1, 2)),
        virtual_images: Some(vec![1, 2]),
        generation: 1,
        contract: Some(
            LogicalSwapchainContract::new(
                handle,
                vec![1, 2],
                extent(1280, 720),
                PhysicalGeneration::new(1, physical, extent(1280, 720), 2),
                PresentationState::Virtualized,
            )
            .unwrap(),
        ),
        ..direct_swapchain(handle, surface)
    }
}

fn images() -> [u64; 3] {
    [1, 2, 3]
}

#[test]
fn reports_virtual_image_count_without_writing() {
    let source = images();

    let query = copy_virtual_images(&source, None);

    assert_eq!(query.result, SUCCESS);
    assert_eq!(query.image_count, source.len() as u32);
    assert!(query.images.is_empty());
}

#[test]
fn copies_all_virtual_images_when_capacity_is_sufficient() {
    let source = images();

    let query = copy_virtual_images(&source, Some(source.len() as u32));

    assert_eq!(query.result, SUCCESS);
    assert_eq!(query.image_count, source.len() as u32);
    assert_eq!(query.images, source.to_vec());
}

#[test]
fn reports_incomplete_and_count_of_written_images() {
    let source = images();

    let query = copy_virtual_images(&source, Some(1));

    assert_eq!(query.result, INCOMPLETE);
    assert_eq!(query.image_count, 1);
    assert_eq!(query.images[0], source[0]);
}

#[test]
fn retired_logical_tokens_return_a_safe_error_without_driver_fallback() {
    let mut layer = Layer::new();
    let token = 0x8000_0000_0000_0066;
    layer.retire_swapchain(token);

    assert_eq!(
        reject_retired_swapchain(&layer, token),
        Err(ERROR_OUT_OF_DATE_KHR)
    );
}

#[test]
fn hook_acquire_present_round_trip_supports_distinct_indices_and_statuses() {
    let mut mapping = Mapping::new(12, 2);
    let logical = map_acquire_result(&mut mapping, SUBOPTIMAL_KHR, 4)
        .unwrap()
        .unwrap();

    assert_eq!(logical, 0);
    assert_eq!(mapping.resolve(logical), Some(4));
    assert_eq!(mapping.present(logical), Ok(4));
    assert_eq!(
        map_acquire_result(&mut mapping, ERROR_OUT_OF_DATE_KHR, 1),
        Err(ERROR_OUT_OF_DATE_KHR)
    );
}

#[test]
fn unequal_logical_count_rejects_before_downstream_acquire() {
    let mut mapping = Mapping::new(3, 1);
    assert_eq!(mapping.acquire(2), Ok(0));

    let mut downstream_acquires = 0;
    let reservation = mapping.reserve_slot();
    if reservation.is_ok() {
        downstream_acquires += 1;
    }

    assert_eq!(reservation, Err(AcquireError::NoLogicalSlot));
    assert_eq!(downstream_acquires, 0);
}

#[test]
fn an_acquired_image_gets_the_slot_that_waited_for_it() {
    let mut layer = Layer::new();
    layer
        .swapchains
        .insert(TOKEN, virtual_swapchain(TOKEN, 6, 42));
    assert_eq!(virtual_physical_swapchain(&layer, TOKEN), Some(42));

    let pending = begin_acquire(&mut layer, TOKEN, true).unwrap();
    assert_eq!(pending.physical, 42);
    assert_eq!(pending.reserved, Some(0));
    let outcome = finish_acquire(&mut layer, pending, Some((SUBOPTIMAL_KHR, 1)));
    assert_eq!(
        outcome,
        AcquireOutcome {
            result: SUBOPTIMAL_KHR,
            image_index: Some(0),
            release: None,
        }
    );

    let pending = begin_acquire(&mut layer, TOKEN, true).unwrap();
    assert_eq!(pending.reserved, Some(1));
    let busy = finish_acquire(&mut layer, pending, Some((SUCCESS, 1)));
    assert_eq!(
        busy,
        AcquireOutcome {
            result: ERROR_OUT_OF_DATE_KHR,
            image_index: None,
            release: Some(1),
        }
    );

    let pending = begin_acquire(&mut layer, TOKEN, true).unwrap();
    assert_eq!(pending.reserved, Some(1));
    let failed = finish_acquire(&mut layer, pending, None);
    assert_eq!(failed.result, ERROR_INITIALIZATION_FAILED);
    assert_eq!(
        layer
            .swapchains
            .get(TOKEN)
            .unwrap()
            .mapping
            .as_ref()
            .unwrap()
            .resolve(0),
        Some(1)
    );
}

#[test]
fn acquires_are_refused_before_they_reserve_anything() {
    let mut layer = Layer::new();
    layer
        .swapchains
        .insert(TOKEN, virtual_swapchain(TOKEN, 6, 42));

    assert_eq!(
        begin_acquire(&mut layer, TOKEN, false),
        Err(ERROR_INITIALIZATION_FAILED)
    );
    assert_eq!(
        begin_acquire2(&mut layer, None, true),
        Err(ERROR_INITIALIZATION_FAILED)
    );
    assert_eq!(
        begin_acquire(&mut layer, TOKEN + 1, true),
        Err(ERROR_OUT_OF_DATE_KHR)
    );
    assert!(begin_acquire2(&mut layer, Some(TOKEN), true).is_ok());
    assert!(begin_acquire(&mut layer, TOKEN, true).is_ok());
    assert_eq!(
        begin_acquire(&mut layer, TOKEN, true),
        Err(ERROR_OUT_OF_DATE_KHR)
    );
    let direct = begin_acquire(&mut layer, 9, true).unwrap();
    assert_eq!((direct.physical, direct.reserved), (9, None));
}

#[test]
fn a_virtual_swapchain_answers_for_its_images() {
    let mut layer = Layer::new();
    layer
        .swapchains
        .insert(TOKEN, virtual_swapchain(TOKEN, 6, 42));

    match get_swapchain_images(&layer, TOKEN, true, Some(5)) {
        ImagesAnswer::Virtual(query) => {
            assert_eq!(query.result, SUCCESS);
            assert_eq!(query.images, vec![1, 2]);
        }
        other => panic!("{other:?}"),
    }
    assert_eq!(
        get_swapchain_images(&layer, 9, true, None),
        ImagesAnswer::Downstream
    );
    assert_eq!(
        get_swapchain_images(&layer, TOKEN, false, None),
        ImagesAnswer::Failed(ERROR_INITIALIZATION_FAILED)
    );
    assert_eq!(
        get_swapchain_images(&layer, TOKEN + 5, true, None),
        ImagesAnswer::Failed(ERROR_OUT_OF_DATE_KHR)
    );
}

#[test]
fn a_swapchain_taken_out_meanwhile_still_hands_its_slot_out() {
    let mut layer = Layer::new();
    layer
        .swapchains
        .insert(TOKEN, virtual_swapchain(TOKEN, 6, 42));
    let pending = begin_acquire(&mut layer, TOKEN, true).unwrap();
    layer.swapchains.remove(TOKEN);

    let outcome = finish_acquire(&mut layer, pending, Some((SUCCESS, 1)));

    assert_eq!(
        outcome,
        AcquireOutcome {
            result: SUCCESS,
            image_index: Some(0),
            release: None,
        }
    );
    assert!(layer.swapchains.get(TOKEN).is_none());
}
