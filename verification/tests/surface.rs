use ash::vk;
use tuxscaling::display::negotiation::PresentationNegotiation;
use tuxscaling::display::{BorderlessLease, Monitor, Rect, WindowSnapshot};
use tuxscaling::layer::hooks::surface::{
    apply_logical_extent, destroy_surface, get_surface_capabilities, refresh_pending_win32_surface,
    surface_created, surface_window, win32_surface_created, PENDING_WIN32_WINDOW,
};
use tuxscaling::layer::state::{Layer, X11Surface};
use tuxscaling::vk::{Extent2D, SurfaceCapabilities, ERROR_SURFACE_LOST_KHR, SUCCESS};

fn capabilities() -> SurfaceCapabilities {
    let raw = vk::SurfaceCapabilitiesKHR::default();
    let none = Extent2D {
        width: raw.current_extent.width,
        height: raw.current_extent.height,
    };
    SurfaceCapabilities {
        min_image_count: raw.min_image_count,
        max_image_count: raw.max_image_count,
        current_extent: none,
        min_image_extent: none,
        max_image_extent: none,
        max_image_array_layers: raw.max_image_array_layers,
        supported_transforms: raw.supported_transforms.as_raw(),
        current_transform: raw.current_transform.as_raw(),
        supported_composite_alpha: raw.supported_composite_alpha.as_raw(),
        supported_usage_flags: raw.supported_usage_flags.as_raw(),
    }
}

#[test]
fn logical_capabilities_lock_the_game_extent() {
    let mut capabilities = capabilities();
    let extent = Extent2D {
        width: 1280,
        height: 720,
    };

    apply_logical_extent(&mut capabilities, extent);

    assert_eq!(capabilities.current_extent, extent);
    assert_eq!(capabilities.min_image_extent, extent);
    assert_eq!(capabilities.max_image_extent, extent);
}

#[test]
fn a_promised_extent_is_what_queries_tell() {
    let mut layer = Layer::new();
    let queried = SurfaceCapabilities {
        max_image_count: 8,
        ..capabilities()
    };
    let extent = Extent2D {
        width: 640,
        height: 360,
    };
    layer.surfaces.insert(
        6,
        X11Surface {
            window: 7,
            logical_extent: Some(extent),
            logical_capabilities: None,
            borderless_lease: None,
            negotiation: PresentationNegotiation::direct(),
        },
    );

    let told = get_surface_capabilities(&layer, 6, SUCCESS, queried);
    assert_eq!(told.current_extent, extent);
    assert_eq!(told.max_image_count, 8);
    assert_eq!(
        get_surface_capabilities(&layer, 6, ERROR_SURFACE_LOST_KHR, queried),
        queried
    );
    assert_eq!(
        get_surface_capabilities(&layer, 5, SUCCESS, queried),
        queried
    );

    let saved = SurfaceCapabilities {
        max_image_count: 3,
        ..queried
    };
    let mut surface = *layer.surfaces.get(6).unwrap();
    surface.logical_capabilities = Some(saved);
    layer.surfaces.insert(6, surface);
    assert_eq!(get_surface_capabilities(&layer, 6, SUCCESS, queried), saved);
}

#[test]
fn a_pending_surface_waits_for_its_window() {
    let mut layer = Layer::new();
    win32_surface_created(&mut layer, SUCCESS, true, Some(6), None);
    assert_eq!(layer.surfaces.get(6).unwrap().window, PENDING_WIN32_WINDOW);
    assert_eq!(surface_window(&mut layer, 6, None), None);
    assert_eq!(
        refresh_pending_win32_surface(&mut layer, 6, Some(77)),
        Some(77)
    );
    assert_eq!(surface_window(&mut layer, 6, Some(78)), Some(77));
    assert_eq!(surface_window(&mut layer, 5, Some(78)), None);
}

#[test]
fn only_successful_creations_are_noted() {
    let mut layer = Layer::new();
    surface_created(&mut layer, ERROR_SURFACE_LOST_KHR, Some(7), Some(1));
    surface_created(&mut layer, SUCCESS, None, Some(2));
    surface_created(&mut layer, SUCCESS, Some(7), None);
    surface_created(&mut layer, SUCCESS, Some(7), Some(4));

    assert_eq!(layer.surfaces.len(), 1);
    assert_eq!(layer.surfaces.get(4).unwrap().window, 7);
}

#[test]
fn a_destroyed_surface_hands_its_lease_out() {
    let mut layer = Layer::new();
    surface_created(&mut layer, SUCCESS, Some(7), Some(4));
    let lease = BorderlessLease {
        window: 7,
        original: WindowSnapshot {
            rect: Rect::new(1, 2, 3, 4),
            fullscreen: false,
        },
        monitor: Monitor::new(Rect::new(0, 0, 10, 10)),
    };
    let mut surface = *layer.surfaces.get(4).unwrap();
    surface.borderless_lease = Some(lease);
    layer.surfaces.insert(4, surface);

    assert_eq!(destroy_surface(&mut layer, 4), Some(lease));
    assert_eq!(destroy_surface(&mut layer, 4), None);
}
