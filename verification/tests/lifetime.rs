use tuxscaling::display::negotiation::NegotiationFailure;
use tuxscaling::display::{BorderlessLease, Monitor, Rect, WindowSnapshot};
use tuxscaling::layer::hooks::lifetime::{
    destroy_device, destroy_swapchain, finish_destroy, has_live_virtual_swapchain,
    restore_surface_window, surfaces_to_restore, suppress_unknown_swapchain_destroy,
    unique_physical_handles, DestroyDecision, SwapchainTeardown,
};
use tuxscaling::layer::recovery::ReconfigurationTicket;
use tuxscaling::layer::state::{Devices, Layer, SwapchainState, X11Surface};
use tuxscaling::vk::Extent2D;
use tuxscaling::display::negotiation::{PresentationNegotiation, PresentationState};
use tuxscaling::layer::hooks::present_id::PresentIdHistory;
use tuxscaling::layer::mapping::Mapping;
use tuxscaling::layer::recovery::{
    LogicalSwapchainContract, PhysicalGeneration, ReconfigurationLifecycle,
};

const TOKEN: u64 = 0x8000_0000_0000_0001;

fn extent(width: u32, height: u32) -> Extent2D {
    Extent2D { width, height }
}

fn direct_swapchain(handle: u64, surface: u64) -> SwapchainState {
    SwapchainState {
        device: 5,
        game_surface: surface,
        present_surface: None,
        logical_handle: handle,
        physical_handle: handle,
        mapping: None,
        negotiation: PresentationNegotiation::direct(),
        has_overlay: true,
        virtual_images: None,
        physical_images: vec![3, 4],
        retired_physical_generations: Vec::new(),
        maintenance_overlay_reported: false,
        maintenance_present_reported: false,
        maintenance_release_reported: false,
        input_route_reported: false,
        generation: 0,
        template: None,
        contract: None,
        hdr_metadata: None,
        present_ids: PresentIdHistory::new(),
        lifecycle: ReconfigurationLifecycle::new(),
    }
}

fn virtual_swapchain(handle: u64, surface: u64, physical: u64) -> SwapchainState {
    SwapchainState {
        physical_handle: physical,
        mapping: Some(Mapping::new(1, 2)),
        virtual_images: Some(vec![1, 2]),
        generation: 1,
        contract: Some(
            LogicalSwapchainContract::new(
                handle,
                vec![1, 2],
                extent(1280, 720),
                PhysicalGeneration::new(1, physical, extent(1280, 720), 2),
                PresentationState::Virtualized,
            )
            .unwrap(),
        ),
        ..direct_swapchain(handle, surface)
    }
}

fn lease() -> BorderlessLease {
    BorderlessLease {
        window: 0,
        original: WindowSnapshot {
            rect: Rect::new(0, 0, 1, 1),
            fullscreen: false,
        },
        monitor: Monitor::new(Rect::new(0, 0, 1, 1)),
    }
}

fn leased_surface(negotiation: PresentationNegotiation) -> X11Surface {
    X11Surface {
        window: 0,
        logical_extent: Some(extent(1, 1)),
        logical_capabilities: None,
        borderless_lease: Some(lease()),
        negotiation,
    }
}

#[test]
fn unknown_reserved_token_is_suppressed_before_downstream_destroy() {
    let layer = Layer::new();
    let token = 0x8000_0000_0000_0abc;

    assert!(layer.is_unknown_logical_swapchain(token));
    assert!(suppress_unknown_swapchain_destroy(&layer, token));
}

#[test]
fn fail_open_cleanup_takes_lease_and_resets_negotiation() {
    let mut layer = Layer::new();
    let surface = 0xfeed;
    let mut negotiation = PresentationNegotiation::direct();
    negotiation.fail(NegotiationFailure::DeadlineExpired);
    layer.surfaces.insert(surface, leased_surface(negotiation));

    let given_back = restore_surface_window(&mut layer, surface);

    assert_eq!(given_back, Some(lease()));
    let state = layer.surfaces.remove(surface).unwrap();
    assert!(state.borderless_lease.is_none());
    assert!(state.logical_extent.is_none());
    assert_eq!(state.negotiation.public_state(), PresentationState::Direct);
}

#[test]
fn retired_physical_generations_are_destroyed_once() {
    let current = 41;
    let retired = [17, current, 0, 17];

    assert_eq!(
        unique_physical_handles(current, &retired),
        vec![current, retired[0]]
    );
}

#[test]
fn a_destroyed_virtual_swapchain_takes_its_generations_along() {
    let mut layer = Layer::new();
    let state = SwapchainState {
        retired_physical_generations: vec![40, 42],
        ..virtual_swapchain(TOKEN, 6, 42)
    };
    layer.swapchains.insert(TOKEN, state);
    layer
        .surfaces
        .insert(6, leased_surface(PresentationNegotiation::direct()));
    assert!(has_live_virtual_swapchain(&layer, 6));

    let teardown = match destroy_swapchain(&mut layer, TOKEN) {
        DestroyDecision::TearDown(teardown) => teardown,
        other => panic!("{other:?}"),
    };

    assert_eq!(teardown.logical_handle, TOKEN);
    assert_eq!(teardown.physical_handles, vec![42, 40]);
    assert_eq!(teardown.restore_surface, Some(6));
    assert!(teardown.virtualized && teardown.overlay);
    assert!(layer.is_retired_swapchain(TOKEN));
    assert!(!has_live_virtual_swapchain(&layer, 6));
    assert_eq!(finish_destroy(&mut layer, Some(6)), Some(lease()));
    assert_eq!(finish_destroy(&mut layer, Some(6)), None);
    assert!(matches!(
        destroy_swapchain(&mut layer, TOKEN),
        DestroyDecision::Suppressed
    ));
}

#[test]
fn a_destroy_waits_for_the_replacement_under_way() {
    let mut layer = Layer::new();
    let mut state = virtual_swapchain(TOKEN, 6, 42);
    let ticket = ReconfigurationTicket::new(TOKEN, 6, 1);
    assert!(state.lifecycle.begin(ticket));
    layer.swapchains.insert(TOKEN, state);

    assert!(matches!(
        destroy_swapchain(&mut layer, TOKEN),
        DestroyDecision::Deferred
    ));

    let state = layer.swapchains.get(TOKEN).unwrap();
    assert!(state.lifecycle.destroy_requested());
}

#[test]
fn unknown_direct_swapchains_are_destroyed_as_they_are() {
    let mut layer = Layer::new();

    match destroy_swapchain(&mut layer, 9) {
        DestroyDecision::TearDown(teardown) => {
            assert_eq!(teardown.physical_handles, vec![9]);
            assert_eq!(teardown.restore_surface, None);
            assert!(!teardown.overlay);
        }
        other => panic!("{other:?}"),
    }
    assert!(!layer.is_retired_swapchain(9));
}

#[test]
fn a_device_takes_all_its_swapchains_along() {
    let mut layer = Layer::new();
    let mut devices = Devices::new();
    layer
        .swapchains
        .insert(TOKEN, virtual_swapchain(TOKEN, 6, 42));
    layer
        .swapchains
        .insert(TOKEN + 1, virtual_swapchain(TOKEN + 1, 6, 43));
    let other = SwapchainState {
        device: 99,
        ..direct_swapchain(50, 7)
    };
    layer.swapchains.insert(50, other);
    devices.register_queue(5, 0, Some(70), 0);

    let teardowns = destroy_device(&mut layer, &mut devices, 5);

    assert_eq!(teardowns.len(), 2);
    assert_eq!(surfaces_to_restore(&teardowns), vec![6]);
    assert!(layer.is_retired_swapchain(TOKEN) && layer.is_retired_swapchain(TOKEN + 1));
    assert!(layer.swapchains.get(50).is_some());
    assert!(devices.queues.get(70).is_none());
}

#[test]
fn giving_a_surface_up_fails_the_swapchains_on_it() {
    let mut layer = Layer::new();
    layer
        .swapchains
        .insert(TOKEN, virtual_swapchain(TOKEN, 6, 42));
    layer.swapchains.insert(9, direct_swapchain(9, 6));
    layer
        .surfaces
        .insert(6, leased_surface(PresentationNegotiation::direct()));

    restore_surface_window(&mut layer, 6);

    let state = layer.swapchains.get(TOKEN).unwrap();
    assert!(state.contract.as_ref().unwrap().is_failed());
    assert_eq!(
        state.negotiation.failure(),
        Some(NegotiationFailure::OutputRecreation)
    );
    let direct = layer.swapchains.get(9).unwrap();
    assert_eq!(direct.negotiation.public_state(), PresentationState::Direct);
}

#[test]
fn surfaces_are_restored_in_the_order_of_the_teardowns() {
    let teardown = |handle: u64, surface: Option<u64>| SwapchainTeardown {
        logical_handle: handle,
        physical_handles: vec![handle],
        restore_surface: surface,
        virtualized: true,
        overlay: false,
    };
    let teardowns = vec![
        teardown(1, Some(9)),
        teardown(2, None),
        teardown(3, Some(4)),
        teardown(4, Some(9)),
        teardown(5, Some(2)),
    ];
    assert_eq!(surfaces_to_restore(&teardowns), vec![9, 4, 2]);
}
