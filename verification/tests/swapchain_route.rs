use tuxscaling::layer::hooks::swapchain_route::{
    classify_swapchain_route, resolve_swapchain_route, SwapchainRoute, SwapchainRouteKind,
};
use tuxscaling::layer::state::Layer;
use tuxscaling::vk::ERROR_OUT_OF_DATE_KHR;

#[test]
fn route_classification_covers_direct_current_retired_and_unknown_tagged() {
    assert_eq!(
        classify_swapchain_route(false, false, false, false),
        SwapchainRouteKind::Direct
    );
    assert_eq!(
        classify_swapchain_route(true, true, false, true),
        SwapchainRouteKind::CurrentVirtual
    );
    assert_eq!(
        classify_swapchain_route(false, false, true, true),
        SwapchainRouteKind::Retired
    );
    assert_eq!(
        classify_swapchain_route(false, false, false, true),
        SwapchainRouteKind::UnknownTagged
    );
}

#[test]
fn current_virtual_route_wins_over_tagged_namespace_checks() {
    assert_eq!(
        classify_swapchain_route(true, true, false, true),
        SwapchainRouteKind::CurrentVirtual
    );
}

#[test]
fn handles_that_the_layer_does_not_know_go_by_their_namespace() {
    let mut layer = Layer::new();

    assert_eq!(
        resolve_swapchain_route(&layer, 12),
        Ok(SwapchainRoute::Direct(12))
    );
    assert_eq!(
        resolve_swapchain_route(&layer, 0x8000_0000_0000_0012),
        Err(ERROR_OUT_OF_DATE_KHR)
    );
    layer.retire_swapchain(12);
    assert_eq!(
        resolve_swapchain_route(&layer, 12),
        Err(ERROR_OUT_OF_DATE_KHR)
    );
}
