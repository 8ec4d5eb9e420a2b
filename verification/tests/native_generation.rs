use tuxscaling::display::negotiation::{
    NegotiationFailure, PresentationNegotiation, PresentationState,
};
use tuxscaling::display::{
    BorderlessLease, Extent, Monitor, Rect, SurfaceExtent, WindowSnapshot, X11Window,
};
use tuxscaling::layer::hooks::native_generation::{
    aim_at_window, begin_generation_failure, begin_native_generation, begin_observation,
    claim_native_generation, finish_generation_failure, generation_created,
    observe_surface_negotiation, publish_native_generation, GenerationCleanup,
    NativeGenerationSnapshot, ObservationStart,
};
use tuxscaling::layer::hooks::present_id::PresentIdHistory;
use tuxscaling::layer::hooks::swapchain_create::SwapchainCreateInfo;
use tuxscaling::layer::mapping::Mapping;
use tuxscaling::layer::recovery::{
    LogicalSwapchainContract, PhysicalGeneration, ReconfigurationLifecycle,
};
use tuxscaling::layer::state::{Layer, SwapchainState, SwapchainTemplate, X11Surface};
use tuxscaling::vk::{Extent2D, SurfaceCapabilities, NULL_HANDLE, SUCCESS};

const TOKEN: u64 = 0x8000_0000_0000_0001;

fn extent(width: u32, height: u32) -> Extent2D {
    Extent2D { width, height }
}

fn direct_swapchain(handle: u64, surface: u64) -> SwapchainState {
    SwapchainState {
        device: 5,
        game_surface: surface,
        present_surface: None,
        logical_handle: handle,
        physical_handle: handle,
        mapping: None,
        negotiation: PresentationNegotiation::direct(),
        has_overlay: true,
        virtual_images: None,
        physical_images: vec![3, 4],
        retired_physical_generations: Vec::new(),
        maintenance_overlay_reported: false,
        maintenance_present_reported: false,
        maintenance_release_reported: false,
        input_route_reported: false,
        generation: 0,
        template: None,
        contract: None,
        hdr_metadata: None,
        present_ids: PresentIdHistory::new(),
        lifecycle: ReconfigurationLifecycle::new(),
    }
}

fn virtual_swapchain(handle: u64, surface: u64, physical: u64) -> SwapchainState {
    SwapchainState {
        physical_handle: physical,
        mapping: Some(Mapping::new(1, 2)),
        virtual_images: Some(vec![1, 2]),
        generation: 1,
        contract: Some(
            LogicalSwapchainContract::new(
                handle,
                vec![1, 2],
                extent(1280, 720),
                PhysicalGeneration::new(1, physical, extent(1280, 720), 2),
                PresentationState::Virtualized,
            )
            .unwrap(),
        ),
        ..direct_swapchain(handle, surface)
    }
}

fn monitor() -> Rect {
    Rect::new(0, 0, 3440, 1440)
}

fn native() -> SurfaceExtent {
    SurfaceExtent::fixed(Extent::new(3440, 1440))
}

fn window() -> X11Window {
    X11Window {
        id: 7,
        rect: monitor(),
        fullscreen: true,
    }
}

fn lease() -> BorderlessLease {
    BorderlessLease {
        window: 7,
        original: WindowSnapshot {
            rect: Rect::new(10, 10, 1280, 720),
            fullscreen: false,
        },
        monitor: Monitor::new(monitor()),
    }
}

fn capabilities(width: u32, height: u32) -> SurfaceCapabilities {
    SurfaceCapabilities {
        min_image_count: 2,
        max_image_count: 8,
        current_extent: extent(width, height),
        min_image_extent: extent(1, 1),
        max_image_extent: extent(8192, 8192),
        max_image_array_layers: 1,
        supported_transforms: 1,
        current_transform: 1,
        supported_composite_alpha: 1,
        supported_usage_flags: 0x1b,
    }
}

/// A negotiation that waits for the native output.
fn waiting() -> PresentationNegotiation {
    let mut negotiation = PresentationNegotiation::direct();
    assert!(negotiation.request_borderless(monitor(), 0));
    assert!(negotiation.borderless_requested(0));
    negotiation
}

/// A negotiation whose native output was observed.
fn ready() -> PresentationNegotiation {
    let mut negotiation = waiting();
    assert!(!negotiation.observe(monitor(), true, native(), 1));
    assert!(negotiation.observe(monitor(), true, native(), 2));
    negotiation
}

fn replaceable_swapchain() -> SwapchainState {
    let info = SwapchainCreateInfo {
        surface: 6,
        min_image_count: 2,
        image_format: 44,
        image_array_layers: 1,
        image_extent: extent(1280, 720),
        ..Default::default()
    };
    SwapchainState {
        negotiation: ready(),
        template: Some(SwapchainTemplate::from_create_info(&info).unwrap()),
        ..virtual_swapchain(TOKEN, 6, 42)
    }
}

fn layer(negotiation: PresentationNegotiation) -> Layer {
    let mut layer = Layer::new();
    layer.swapchains.insert(TOKEN, replaceable_swapchain());
    layer.surfaces.insert(
        6,
        X11Surface {
            window: 7,
            logical_extent: Some(extent(1280, 720)),
            logical_capabilities: None,
            borderless_lease: Some(lease()),
            negotiation,
        },
    );
    layer
}

fn begun(layer: &mut Layer) -> NativeGenerationSnapshot {
    let mut state = layer.swapchains.remove(TOKEN).unwrap();
    let snapshot = begin_native_generation(&mut state, 6, window(), native(), 3).unwrap();
    layer.swapchains.insert(TOKEN, state);
    snapshot
}

#[test]
fn observations_start_at_the_window() {
    let mut layer = layer(waiting());
    assert_eq!(
        begin_observation(&layer, 6),
        ObservationStart::Describe { window: 7 }
    );
    assert_eq!(
        begin_observation(&layer, 5),
        ObservationStart::Settled(PresentationState::Direct)
    );
    let mut pending = *layer.surfaces.get(6).unwrap();
    pending.window = 0;
    layer.surfaces.insert(6, pending);
    assert_eq!(
        begin_observation(&layer, 6),
        ObservationStart::Settled(PresentationState::Negotiating)
    );
}

#[test]
fn a_native_observation_makes_the_output_ready() {
    let mut layer = layer(waiting());
    let small = X11Window {
        rect: Rect::new(0, 0, 1280, 720),
        ..window()
    };

    let early = observe_surface_negotiation(&mut layer, 6, small, capabilities(1280, 720), 1);
    assert!(!early.publish);
    let observed =
        observe_surface_negotiation(&mut layer, 6, window(), capabilities(3440, 1440), 2);
    assert!(observed.publish);
    assert_eq!(observed.state, PresentationState::Negotiating);
    assert_eq!(observed.restore, None);
    assert!(layer
        .surfaces
        .get(6)
        .unwrap()
        .negotiation
        .output_recreation_ready());
}

#[test]
fn observations_that_set_no_deadline_may_come_at_any_time() {
    let mut layer = layer(PresentationNegotiation::direct());

    for surface in [6, 7] {
        let observed = observe_surface_negotiation(
            &mut layer,
            surface,
            window(),
            capabilities(1280, 720),
            u64::MAX,
        );
        assert_eq!(observed.state, PresentationState::Direct);
        assert_eq!(observed.restore, None);
        assert!(!observed.publish);
    }
}

#[test]
fn an_expired_negotiation_gives_the_window_back() {
    let mut layer = layer(waiting());

    let observed =
        observe_surface_negotiation(&mut layer, 6, window(), capabilities(1, 1), 5_000_000_000);

    assert_eq!(observed.restore, Some(lease()));
    assert_eq!(observed.state, PresentationState::Direct);
    assert!(!observed.publish);
    let surface = layer.surfaces.get(6).unwrap();
    assert_eq!(surface.logical_extent, None);
    assert_eq!(surface.borderless_lease, None);
    assert!(layer
        .swapchains
        .get(TOKEN)
        .unwrap()
        .contract
        .as_ref()
        .unwrap()
        .is_failed());
}

#[test]
fn one_replacement_claims_a_surface() {
    let mut layer = layer(ready());
    let claim = claim_native_generation(&mut layer, 6).unwrap();
    assert_eq!(
        (claim.surface, claim.logical, claim.window),
        (6, TOKEN, 7)
    );
    assert_eq!(claim_native_generation(&mut layer, 6), None);
    layer.end_surface_recreation(6);
    assert!(claim_native_generation(&mut layer, 6).is_some());
    assert_eq!(claim_native_generation(&mut layer, 5), None);
}

#[test]
fn a_published_generation_keeps_the_logical_swapchain() {
    let mut layer = layer(ready());
    let images = layer
        .swapchains
        .get(TOKEN)
        .unwrap()
        .contract
        .as_ref()
        .unwrap()
        .logical_images()
        .to_vec();
    let snapshot = begun(&mut layer);
    assert_eq!(snapshot.old_physical, 42);
    assert!(layer.is_reconfiguring_swapchain(TOKEN));
    let aim = aim_at_window(&snapshot, window(), native(), 4).unwrap();
    assert_eq!(aim.extent, extent(3440, 1440));
    assert!(generation_created(SUCCESS, 43));
    assert!(!generation_created(SUCCESS, NULL_HANDLE));

    assert!(publish_native_generation(
        &mut layer,
        &snapshot,
        aim,
        43,
        vec![301, 302, 303]
    ));

    let state = layer.swapchains.get(TOKEN).unwrap();
    assert!(!layer.is_reconfiguring_swapchain(TOKEN));
    assert_eq!(state.physical_handle, 43);
    assert_eq!(state.physical_images, vec![301, 302, 303]);
    assert_eq!(state.retired_physical_generations, vec![42]);
    assert!(state.has_overlay);
    let contract = state.contract.as_ref().unwrap();
    assert_eq!(contract.handle(), TOKEN);
    assert_eq!(contract.logical_images(), images.as_slice());
    assert_eq!(contract.game_extent(), extent(1280, 720));
    assert_eq!(
        layer.surfaces.get(6).unwrap().negotiation.public_state(),
        PresentationState::Virtualized
    );
}

#[test]
fn a_window_that_changed_is_not_aimed_at() {
    let mut layer = layer(ready());
    let snapshot = begun(&mut layer);
    let moved = X11Window {
        rect: Rect::new(0, 0, 1920, 1080),
        ..window()
    };
    assert_eq!(aim_at_window(&snapshot, moved, native(), 4), None);
    assert_eq!(
        aim_at_window(
            &snapshot,
            window(),
            SurfaceExtent::fixed(Extent::new(1920, 1080)),
            4
        ),
        None
    );
}

#[test]
fn a_failed_replacement_goes_back_to_the_old_generation() {
    let mut layer = layer(ready());
    let snapshot = begun(&mut layer);

    assert!(begin_generation_failure(&mut layer, &snapshot, 43).is_none());
    let cleanup = finish_generation_failure(&mut layer, &snapshot, 43, true);

    assert!(matches!(
        cleanup,
        GenerationCleanup::Restored { destroy: Some(43) }
    ));
    let state = layer.swapchains.get(TOKEN).unwrap();
    assert_eq!(state.physical_handle, 42);
    assert!(state.has_overlay);
    assert!(!layer.is_reconfiguring_swapchain(TOKEN));
}

#[test]
fn a_replacement_that_cannot_be_undone_gives_the_swapchain_up() {
    let mut layer = layer(ready());
    let snapshot = begun(&mut layer);

    match finish_generation_failure(&mut layer, &snapshot, 43, false) {
        GenerationCleanup::Abandoned(abandoned) => {
            assert_eq!(abandoned.destroy, vec![43, 42]);
            assert_eq!(abandoned.restore, Some(lease()));
        }
        other => panic!("{other:?}"),
    }
    assert!(layer.swapchains.get(TOKEN).is_none());
    assert!(layer.is_retired_swapchain(TOKEN));
}

#[test]
fn a_swapchain_destroyed_meanwhile_is_not_restored() {
    let mut layer = layer(ready());
    let snapshot = begun(&mut layer);
    let mut state = layer.swapchains.remove(TOKEN).unwrap();
    assert!(state.lifecycle.request_destroy());
    layer.swapchains.insert(TOKEN, state);

    let abandoned = begin_generation_failure(&mut layer, &snapshot, NULL_HANDLE).unwrap();

    assert_eq!(abandoned.destroy, vec![42]);
    assert_eq!(abandoned.restore, Some(lease()));
}

#[test]
fn a_failed_negotiation_begins_no_replacement() {
    let mut state = replaceable_swapchain();
    state.negotiation.fail(NegotiationFailure::DeadlineExpired);
    assert!(begin_native_generation(&mut state, 6, window(), native(), 3).is_none());
    assert!(state.has_overlay);
}
