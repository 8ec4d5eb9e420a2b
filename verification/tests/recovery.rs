use tuxscaling::display::negotiation::PresentationState;
use tuxscaling::layer::recovery::{
    FrameBinding, LeaseCleanup, LogicalSwapchainContract, PhysicalGeneration, PresentationPath,
    ReconfigurationLifecycle, ReconfigurationTicket,
};
use tuxscaling::vk::Extent2D;

fn extent(width: u32, height: u32) -> Extent2D {
    Extent2D { width, height }
}

fn generation(
    id: u64,
    handle: u64,
    width: u32,
    height: u32,
    image_count: usize,
) -> PhysicalGeneration {
    PhysicalGeneration::new(id, handle, extent(width, height), image_count)
}

#[test]
fn initial_eligible_creation_exposes_logical_identity_while_negotiating() {
    let logical_handle = 0x8000_0000_0000_0001;
    let logical_images = vec![11, 12];
    let contract = LogicalSwapchainContract::new(
        logical_handle,
        logical_images.clone(),
        extent(1280, 720),
        generation(0, 21, 1280, 720, 2),
        PresentationState::Negotiating,
    )
    .unwrap();

    assert_eq!(contract.handle(), logical_handle);
    assert_eq!(contract.logical_images(), logical_images.as_slice());
    assert_eq!(contract.game_extent(), extent(1280, 720));
    assert_eq!(
        contract.presentation_path(),
        PresentationPath::SpatialBypass
    );
}

#[test]
fn logical_resolution_survives_native_observations() {
    let mut contract = LogicalSwapchainContract::new(
        0x8000_0000_0000_0002,
        vec![31, 32],
        extent(1280, 720),
        generation(0, 41, 1280, 720, 2),
        PresentationState::Negotiating,
    )
    .unwrap();

    contract
        .replace_generation(
            generation(1, 42, 3440, 1408, 3),
            PresentationState::Negotiating,
        )
        .unwrap();
    contract
        .replace_generation(
            generation(2, 43, 3440, 1440, 3),
            PresentationState::Virtualized,
        )
        .unwrap();

    assert_eq!(contract.game_extent(), extent(1280, 720));
    assert_eq!(contract.generation().extent(), extent(3440, 1440));
}

#[test]
fn physical_replacement_preserves_logical_handle_images_extent_and_indices() {
    let logical_handle = 0x8000_0000_0000_0003;
    let logical_images = vec![51, 52];
    let presenter_surface = 0x6201;
    let mut contract = LogicalSwapchainContract::new(
        logical_handle,
        logical_images.clone(),
        extent(1280, 720),
        generation(0, 61, 2160, 1440, 3).with_present_surface(presenter_surface),
        PresentationState::Virtualized,
    )
    .unwrap();
    let before = contract.logical_snapshot();

    contract
        .replace_generation(
            generation(1, 62, 2160, 1440, 3).with_present_surface(presenter_surface),
            PresentationState::Virtualized,
        )
        .unwrap();

    assert_eq!(contract.logical_snapshot(), before);
    assert_eq!(contract.handle(), logical_handle);
    assert_eq!(contract.logical_images(), logical_images.as_slice());
    assert_eq!(
        contract.generation().present_surface(),
        Some(presenter_surface)
    );
    assert_eq!(
        contract.bind(FrameBinding::new(1, 2)),
        Ok(FrameBinding::new(1, 2))
    );
}

#[test]
fn physical_generation_records_presenter_surface_without_changing_logical_contract() {
    let game_surface = 0x3101;
    let presenter_surface = 0x3102;
    let generation = generation(0, 61, 2160, 1440, 3).with_present_surface(presenter_surface);
    let contract = LogicalSwapchainContract::new(
        0x8000_0000_0000_0007,
        vec![91, 92],
        extent(1280, 720),
        generation,
        PresentationState::Virtualized,
    )
    .unwrap();

    assert_eq!(contract.game_extent(), extent(1280, 720));
    assert_eq!(
        contract.generation().present_surface(),
        Some(presenter_surface)
    );
    assert_ne!(game_surface, presenter_surface);
}

#[test]
fn unequal_logical_and_physical_counts_bind_during_processing_and_present() {
    let contract = LogicalSwapchainContract::new(
        0x8000_0000_0000_0004,
        vec![71, 72],
        extent(1280, 720),
        generation(0, 81, 3440, 1440, 3),
        PresentationState::Virtualized,
    )
    .unwrap();

    assert_eq!(
        contract.bind(FrameBinding::new(1, 2)),
        Ok(FrameBinding::new(1, 2))
    );
    assert_eq!(contract.presentation_path(), PresentationPath::Temporal);
}

#[test]
fn failed_virtual_generation_keeps_spatial_fallback_available() {
    let contract = LogicalSwapchainContract::new(
        0x8000_0000_0000_0005,
        vec![81, 82],
        extent(1280, 720),
        generation(0, 91, 1280, 720, 3),
        PresentationState::Failed,
    )
    .unwrap();

    assert_eq!(
        contract.presentation_path(),
        PresentationPath::SpatialBypass
    );
}

#[test]
fn every_failure_path_restores_a_lease_exactly_once() {
    let mut cleanup = LeaseCleanup::acquired();

    assert!(cleanup.restore_once());
    assert!(!cleanup.restore_once());
    assert_eq!(cleanup.restore_count(), 1);
}

#[test]
fn reconfiguration_blocks_acquire_and_present_until_atomic_publication() {
    let logical = 0x8000_0000_0000_0101;
    let surface = 0x2201;
    let ticket = ReconfigurationTicket::new(logical, surface, 4);
    let mut lifecycle = ReconfigurationLifecycle::new();

    assert!(lifecycle.begin(ticket));
    assert!(lifecycle.blocks_frame_operations());
    assert!(!lifecycle.can_publish(ticket, logical, surface, 5, false));

    assert!(lifecycle.publish(ticket, logical, surface, 4, false));
    assert!(!lifecycle.blocks_frame_operations());
}

#[test]
fn failed_physical_creation_keeps_generation_and_clears_reconfiguring() {
    let logical = 0x8000_0000_0000_0102;
    let surface = 0x2202;
    let ticket = ReconfigurationTicket::new(logical, surface, 8);
    let mut lifecycle = ReconfigurationLifecycle::new();

    assert!(lifecycle.begin(ticket));
    assert!(lifecycle.abort(ticket));
    assert!(!lifecycle.blocks_frame_operations());
    assert_eq!(lifecycle.generation(), Some(8));
}

#[test]
fn stale_publication_and_duplicate_begin_are_rejected() {
    let logical = 0x8000_0000_0000_0103;
    let surface = 0x2203;
    let ticket = ReconfigurationTicket::new(logical, surface, 11);
    let mut lifecycle = ReconfigurationLifecycle::new();

    assert!(lifecycle.begin(ticket));
    assert!(!lifecycle.begin(ticket));
    assert!(!lifecycle.can_publish(ticket, logical, surface, 12, false));
    assert!(!lifecycle.can_publish(ticket, logical, surface, 11, true));
    assert!(!lifecycle.publish(ticket, logical, surface, 12, false));
}

#[test]
fn destroy_during_reconfiguration_is_deferred_and_consumed_once() {
    let logical = 0x8000_0000_0000_0104;
    let surface = 0x2204;
    let ticket = ReconfigurationTicket::new(logical, surface, 15);
    let mut lifecycle = ReconfigurationLifecycle::new();

    assert!(lifecycle.begin(ticket));
    assert!(lifecycle.request_destroy());
    assert!(!lifecycle.can_publish(ticket, logical, surface, 15, false));
    assert!(lifecycle.take_destroy_request(ticket));
    assert!(!lifecycle.take_destroy_request(ticket));
    assert!(!lifecycle.blocks_frame_operations());
}

#[test]
fn reentrant_external_callback_can_query_marked_registry() {
    let logical = 0x8000_0000_0000_0105;
    let surface = 0x2205;
    let ticket = ReconfigurationTicket::new(logical, surface, 18);
    let lifecycle = std::sync::Arc::new(std::sync::Mutex::new(ReconfigurationLifecycle::new()));

    {
        let mut state = lifecycle.lock().unwrap();
        assert!(state.begin(ticket));
    }

    let callback_state = lifecycle.clone();
    let callback =
        move || callback_state.lock().unwrap().blocks_frame_operations();

    assert!(callback());
}

#[test]
fn successful_publication_keeps_logical_contract_and_changes_only_physical_generation() {
    let logical = 0x8000_0000_0000_0106;
    let surface = 0x2206;
    let ticket = ReconfigurationTicket::new(logical, surface, 21);
    let mut lifecycle = ReconfigurationLifecycle::new();

    assert!(lifecycle.begin(ticket));
    assert!(lifecycle.publish(ticket, logical, surface, 21, false));
    assert_eq!(lifecycle.generation(), Some(21));
    assert_eq!(ticket.logical_handle(), logical);
    assert_eq!(ticket.game_surface(), surface);
}
