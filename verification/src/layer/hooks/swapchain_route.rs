//! Where a command on a swapchain goes.

use vstd::prelude::*;

use crate::layer::mapping::{reserved_handle, LogicalSwapchainHandle};
use crate::layer::state::{Layer, LayerModel, SwapchainState};
use crate::vk::{Handle, VkResult, ERROR_OUT_OF_DATE_KHR};

verus! {

#[derive(Debug, Clone, Copy, PartialEq, Eq, Structural)]
pub enum SwapchainRouteKind {
    Direct,
    CurrentVirtual,
    Retired,
    UnknownTagged,
}

/// A tracked virtual swapchain comes before everything else; a retired token
/// before the namespace that it is of.
pub fn classify_swapchain_route(
    known: bool,
    virtualized: bool,
    retired: bool,
    tagged: bool,
) -> (kind: SwapchainRouteKind)
    ensures
        kind == (if known && virtualized {
            SwapchainRouteKind::CurrentVirtual
        } else if retired {
            SwapchainRouteKind::Retired
        } else if tagged {
            SwapchainRouteKind::UnknownTagged
        } else {
            SwapchainRouteKind::Direct
        }),
{
    if known && virtualized {
        SwapchainRouteKind::CurrentVirtual
    } else if retired {
        SwapchainRouteKind::Retired
    } else if tagged {
        SwapchainRouteKind::UnknownTagged
    } else {
        SwapchainRouteKind::Direct
    }
}

#[derive(Debug, Clone, Copy, PartialEq, Eq, Structural)]
pub enum SwapchainRoute {
    Direct(Handle),
    CurrentVirtual {
        logical: Handle,
        physical: Handle,
        game_surface: Handle,
        present_surface: Option<Handle>,
    },
}

/// The swapchain is virtual and its mapping, its contract and its generation
/// agree.
pub open spec fn current_virtual(layer: LayerModel, swapchain: Handle) -> bool {
    let state = layer.swapchains[swapchain];
    &&& layer.swapchains.contains_key(swapchain)
    &&& state.mapping is Some
    &&& state.contract is Some
    &&& state.mapping.unwrap().generation == state.generation
}

/// Retired, reconfiguring and unknown logical swapchains are out of date, and
/// so is a virtual one whose parts disagree. All others go on unchanged, or
/// to the generation behind them.
pub open spec fn route_of(layer: LayerModel, swapchain: Handle) -> Result<
    SwapchainRoute,
    VkResult,
> {
    if layer.retired.contains(swapchain) || layer.reconfiguring(swapchain)
        || layer.unknown_logical(swapchain) {
        Err(ERROR_OUT_OF_DATE_KHR)
    } else if !layer.swapchains.contains_key(swapchain)
        || layer.swapchains[swapchain].mapping is None {
        Ok(SwapchainRoute::Direct(swapchain))
    } else if current_virtual(layer, swapchain) {
        Ok(
            SwapchainRoute::CurrentVirtual {
                logical: swapchain,
                physical: layer.swapchains[swapchain].physical_handle,
                game_surface: layer.swapchains[swapchain].game_surface,
                present_surface: layer.swapchains[swapchain].present_surface,
            },
        )
    } else {
        Err(ERROR_OUT_OF_DATE_KHR)
    }
}

pub fn resolve_swapchain_route(layer: &Layer, swapchain: Handle) -> (result: Result<
    SwapchainRoute,
    VkResult,
>)
    requires
        layer.wf(),
    ensures
        result == route_of(layer@, swapchain),
{
    if layer.is_retired_swapchain(swapchain) || layer.is_reconfiguring_swapchain(swapchain) {
        return Err(ERROR_OUT_OF_DATE_KHR);
    }
    let state: &SwapchainState = match layer.swapchains.get(swapchain) {
        Some(state) => state,
        None => {
            if LogicalSwapchainHandle::is_reserved(swapchain) {
                return Err(ERROR_OUT_OF_DATE_KHR);
            }
            return Ok(SwapchainRoute::Direct(swapchain));
        },
    };
    assert(layer@.swapchains[swapchain] == state@);
    match &state.mapping {
        None => Ok(SwapchainRoute::Direct(swapchain)),
        Some(mapping) => {
            if state.lifecycle.blocks_frame_operations() {
                return Err(ERROR_OUT_OF_DATE_KHR);
            }
            if state.contract.is_none() || mapping.generation() != state.generation {
                return Err(ERROR_OUT_OF_DATE_KHR);
            }
            Ok(
                SwapchainRoute::CurrentVirtual {
                    logical: swapchain,
                    physical: state.physical_handle,
                    game_surface: state.game_surface,
                    present_surface: state.present_surface,
                },
            )
        },
    }
}

/// A token of the layer never reaches the driver: no route of a reserved
/// handle that the layer does not track, or that is retired, is direct.
pub proof fn tokens_never_go_downstream(layer: LayerModel, swapchain: Handle)
    requires
        reserved_handle(swapchain),
        layer.retired.contains(swapchain) || !layer.swapchains.contains_key(swapchain),
    ensures
        route_of(layer, swapchain) == Err::<SwapchainRoute, VkResult>(ERROR_OUT_OF_DATE_KHR),
{
}

/// While a reconfiguration is under way, every command on the swapchain is
/// out of date.
pub proof fn reconfiguration_blocks_routes(layer: LayerModel, swapchain: Handle)
    requires
        layer.reconfiguring(swapchain),
    ensures
        route_of(layer, swapchain) == Err::<SwapchainRoute, VkResult>(ERROR_OUT_OF_DATE_KHR),
{
}

/// Every command on a swapchain goes to one place: to the generation behind a
/// virtual swapchain whose parts agree, to any other swapchain itself, and
/// nowhere where it is out of date.
pub proof fn every_swapchain_has_one_route(layer: LayerModel, swapchain: Handle)
    ensures
        ({
            let state = layer.swapchains[swapchain];
            let known = layer.swapchains.contains_key(swapchain);
            match route_of(layer, swapchain) {
                Err(error) => error == ERROR_OUT_OF_DATE_KHR,
                Ok(SwapchainRoute::Direct(physical)) => physical == swapchain && (known
                    ==> state.mapping is None),
                Ok(SwapchainRoute::CurrentVirtual {
                    logical,
                    physical,
                    game_surface,
                    present_surface,
                }) => {
                    &&& known
                    &&& state.mapping is Some
                    &&& logical == swapchain
                    &&& physical == state.physical_handle
                    &&& game_surface == state.game_surface
                    &&& present_surface == state.present_surface
                },
            }
        }),
        !layer.retired.contains(swapchain) && !layer.swapchains.contains_key(swapchain)
            && swapchain <= 0x8000_0000_0000_0000 ==> route_of(layer, swapchain) == Ok::<
            SwapchainRoute,
            VkResult,
        >(SwapchainRoute::Direct(swapchain)),
        layer.swapchains.contains_key(swapchain) && !layer.retired.contains(swapchain)
            && layer.swapchains[swapchain].lifecycle.active is None
            && layer.swapchains[swapchain].mapping is Some
            && layer.swapchains[swapchain].contract is Some
            && layer.swapchains[swapchain].mapping.unwrap().generation
            == layer.swapchains[swapchain].generation ==> route_of(layer, swapchain) is Ok,
{
}

} // verus!
