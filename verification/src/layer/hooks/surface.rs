//! Surfaces, and what the application is told about them.

use vstd::prelude::*;

use crate::display::negotiation::{NegotiationStage, PresentationNegotiation};
use crate::display::BorderlessLease;
use crate::layer::state::{Layer, LayerModel, X11Surface};
use crate::table::lemma_update;
use crate::vk::{Extent2D, Handle, SurfaceCapabilities, VkResult, SUCCESS};

verus! {

/// Window id used while a Win32 surface has no associated X11 window yet. The
/// entry stays known, so that a later swapchain creation can retry the
/// association without treating an unknown surface as X11.
pub const PENDING_WIN32_WINDOW: u64 = 0;

/// A surface on which nothing is promised yet.
pub open spec fn fresh_surface(surface: X11Surface, window: u64) -> bool {
    &&& surface.window == window
    &&& surface.logical_extent is None
    &&& surface.logical_capabilities is None
    &&& surface.borderless_lease is None
    &&& surface.negotiation@ == NegotiationStage::Direct
}

pub fn register_x11_surface(layer: &mut Layer, surface: Handle, window: u64)
    requires
        old(layer).wf(),
    ensures
        final(layer).wf(),
        final(layer)@ == old(layer)@.with_surface(surface, final(layer)@.surfaces[surface]),
        fresh_surface(final(layer)@.surfaces[surface], window),
{
    layer.surfaces.insert(
        surface,
        X11Surface {
            window,
            logical_extent: None,
            logical_capabilities: None,
            borderless_lease: None,
            negotiation: PresentationNegotiation::direct(),
        },
    );
}

/// A surface command created a surface with the window that its parameters
/// name. Only a success with both parameters and a handle is noted.
pub fn surface_created(
    layer: &mut Layer,
    result: VkResult,
    window: Option<u64>,
    surface: Option<Handle>,
)
    requires
        old(layer).wf(),
    ensures
        final(layer).wf(),
        if result == SUCCESS && window is Some && surface is Some {
            &&& final(layer)@ == old(layer)@.with_surface(
                surface.unwrap(),
                final(layer)@.surfaces[surface.unwrap()],
            )
            &&& fresh_surface(final(layer)@.surfaces[surface.unwrap()], window.unwrap())
        } else {
            final(layer)@ == old(layer)@
        },
{
    if result == SUCCESS {
        if let Some(window) = window {
            if let Some(surface) = surface {
                register_x11_surface(layer, surface, window);
            }
        }
    }
}

/// A Win32 surface was created. Its window is the one found for the process,
/// or pending where there is none yet.
pub fn win32_surface_created(
    layer: &mut Layer,
    result: VkResult,
    has_create_info: bool,
    surface: Option<Handle>,
    found: Option<u64>,
)
    requires
        old(layer).wf(),
    ensures
        final(layer).wf(),
        if result == SUCCESS && has_create_info && surface is Some {
            &&& final(layer)@ == old(layer)@.with_surface(
                surface.unwrap(),
                final(layer)@.surfaces[surface.unwrap()],
            )
            &&& fresh_surface(
                final(layer)@.surfaces[surface.unwrap()],
                match found {
                    Some(window) => window,
                    None => PENDING_WIN32_WINDOW,
                },
            )
        } else {
            final(layer)@ == old(layer)@
        },
{
    if result != SUCCESS || !has_create_info {
        return;
    }
    if let Some(surface) = surface {
        let window: u64 = match found {
            Some(window) => window,
            None => PENDING_WIN32_WINDOW,
        };
        register_x11_surface(layer, surface, window);
    }
}

/// The surface is known and waits for its window.
pub open spec fn pending(layer: LayerModel, surface: Handle) -> bool {
    layer.surfaces.contains_key(surface) && layer.surfaces[surface].window == PENDING_WIN32_WINDOW
}

pub fn is_pending(layer: &Layer, surface: Handle) -> (r: bool)
    requires
        layer.wf(),
    ensures
        r == pending(layer@, surface),
{
    match layer.surfaces.get(surface) {
        Some(state) => state.window == PENDING_WIN32_WINDOW,
        None => false,
    }
}

/// Retries the association of a pending Win32 surface with the window found
/// for the process. The answer is the window where one is known; unknown
/// surfaces are left alone.
pub fn refresh_pending_win32_surface(layer: &mut Layer, surface: Handle, found: Option<u64>) -> (
    window: Option<u64>)
    requires
        old(layer).wf(),
    ensures
        final(layer).wf(),
        if pending(old(layer)@, surface) {
            &&& window == found
            &&& final(layer)@ == (match found {
                Some(id) => old(layer)@.with_surface(
                    surface,
                    X11Surface { window: id, ..old(layer)@.surfaces[surface] },
                ),
                None => old(layer)@,
            })
        } else {
            &&& window == (if old(layer)@.surfaces.contains_key(surface) {
                Some(old(layer)@.surfaces[surface].window)
            } else {
                None
            })
            &&& final(layer)@ == old(layer)@
        },
{
    let ghost model = layer@;
    match layer.surfaces.find(surface) {
        None => None,
        Some(index) => {
            let known: u64 = layer.surfaces.at(index).window;
            if known != PENDING_WIN32_WINDOW {
                return Some(known);
            }
            if let Some(id) = found {
                let ghost keys = layer.surfaces.key_seq();
                let ghost values = layer.surfaces.value_seq();
                let state: &mut X11Surface = layer.surfaces.at_mut(index);
                state.window = id;
                proof {
                    lemma_update(
                        keys,
                        values,
                        index as int,
                        layer.surfaces.value_seq()[index as int],
                    );
                }
            }
            found
        },
    }
}

/// The window that counts for virtualization: a pending surface has none
/// until its window appears.
pub fn surface_window(layer: &mut Layer, surface: Handle, found: Option<u64>) -> (window: Option<
    u64,
>)
    requires
        old(layer).wf(),
    ensures
        final(layer).wf(),
        final(layer)@ == (if pending(old(layer)@, surface) && found is Some {
            old(layer)@.with_surface(
                surface,
                X11Surface { window: found.unwrap(), ..old(layer)@.surfaces[surface] },
            )
        } else {
            old(layer)@
        }),
        window == (if final(layer)@.surfaces.contains_key(surface)
            && final(layer)@.surfaces[surface].window != PENDING_WIN32_WINDOW {
            Some(final(layer)@.surfaces[surface].window)
        } else {
            None
        }),
{
    match refresh_pending_win32_surface(layer, surface, found) {
        Some(window) => if window != PENDING_WIN32_WINDOW {
            Some(window)
        } else {
            None
        },
        None => None,
    }
}

/// Capabilities that offer one extent and no other.
pub open spec fn locked_to(
    capabilities: SurfaceCapabilities,
    logical_extent: Extent2D,
) -> SurfaceCapabilities {
    SurfaceCapabilities {
        current_extent: logical_extent,
        min_image_extent: logical_extent,
        max_image_extent: logical_extent,
        ..capabilities
    }
}

pub fn apply_logical_extent(capabilities: &mut SurfaceCapabilities, logical_extent: Extent2D)
    ensures
        *final(capabilities) == locked_to(*old(capabilities), logical_extent),
{
    capabilities.current_extent = logical_extent;
    capabilities.min_image_extent = logical_extent;
    capabilities.max_image_extent = logical_extent;
}

/// What the application is told of a surface: while a logical extent is
/// promised on it, the saved capabilities, or the queried ones locked to that
/// extent; else the queried ones.
pub open spec fn told_capabilities(
    layer: LayerModel,
    surface: Handle,
    queried: SurfaceCapabilities,
) -> SurfaceCapabilities {
    if layer.surfaces.contains_key(surface) && layer.surfaces[surface].logical_extent is Some {
        match layer.surfaces[surface].logical_capabilities {
            Some(saved) => saved,
            None => locked_to(queried, layer.surfaces[surface].logical_extent.unwrap()),
        }
    } else {
        queried
    }
}

/// The capabilities to report after a downstream query with this result.
pub fn get_surface_capabilities(
    layer: &Layer,
    surface: Handle,
    result: VkResult,
    queried: SurfaceCapabilities,
) -> (told: SurfaceCapabilities)
    requires
        layer.wf(),
    ensures
        told == (if result == SUCCESS {
            told_capabilities(layer@, surface, queried)
        } else {
            queried
        }),
{
    let mut told: SurfaceCapabilities = queried;
    if result == SUCCESS {
        if let Some(state) = layer.surfaces.get(surface) {
            if let Some(extent) = state.logical_extent {
                match state.logical_capabilities {
                    Some(saved) => {
                        told = saved;
                    },
                    None => {
                        apply_logical_extent(&mut told, extent);
                    },
                }
            }
        }
    }
    told
}

/// Destroys a surface for the application. The lease, if the surface had one,
/// is handed out to be given back to the window.
pub fn destroy_surface(layer: &mut Layer, surface: Handle) -> (lease: Option<BorderlessLease>)
    requires
        old(layer).wf(),
    ensures
        final(layer).wf(),
        final(layer)@ == (LayerModel {
            surfaces: old(layer)@.surfaces.remove(surface),
            ..old(layer)@
        }),
        lease == (if old(layer)@.surfaces.contains_key(surface) {
            old(layer)@.surfaces[surface].borderless_lease
        } else {
            None
        }),
{
    match layer.surfaces.remove(surface) {
        Some(state) => state.borderless_lease,
        None => None,
    }
}

/// While a logical extent is promised and no capabilities are saved, exactly
/// that extent is offered.
pub proof fn a_promised_extent_is_the_only_one_offered(
    layer: LayerModel,
    surface: Handle,
    queried: SurfaceCapabilities,
    extent: Extent2D,
)
    requires
        layer.surfaces.contains_key(surface),
        layer.surfaces[surface].logical_extent == Some(extent),
        layer.surfaces[surface].logical_capabilities is None,
    ensures
        ({
            let told = told_capabilities(layer, surface, queried);
            &&& told.current_extent == extent
            &&& told.min_image_extent == extent
            &&& told.max_image_extent == extent
        }),
{
}

/// A surface that promises an extent tells the application of no other, and of
/// everything else as the driver does; one that promises none tells what the
/// driver does.
pub proof fn promised_capabilities_differ_only_in_extent(
    layer: LayerModel,
    surface: Handle,
    queried: SurfaceCapabilities,
    extent: Extent2D,
)
    ensures
        ({
            let locked = locked_to(queried, extent);
            &&& locked.current_extent == extent
            &&& locked.min_image_extent == extent
            &&& locked.max_image_extent == extent
            &&& locked == SurfaceCapabilities {
                current_extent: extent,
                min_image_extent: extent,
                max_image_extent: extent,
                ..queried
            }
        }),
        !layer.surfaces.contains_key(surface) || layer.surfaces[surface].logical_extent is None
            ==> told_capabilities(layer, surface, queried) == queried,
        layer.surfaces.contains_key(surface) && layer.surfaces[surface].logical_extent == Some(
            extent,
        ) && layer.surfaces[surface].logical_capabilities is None ==> {
            let told = told_capabilities(layer, surface, queried);
            &&& told.current_extent == extent
            &&& told.min_image_extent == extent
            &&& told.max_image_extent == extent
            &&& told.supported_usage_flags == queried.supported_usage_flags
            &&& told.min_image_count == queried.min_image_count
        },
        layer.surfaces.contains_key(surface) && layer.surfaces[surface].logical_extent is Some
            ==> (layer.surfaces[surface].logical_capabilities matches Some(saved)
            ==> told_capabilities(layer, surface, queried) == saved),
{
}

/// A new surface promises nothing and holds no lease.
pub proof fn a_new_surface_promises_nothing(surface: X11Surface, window: u64)
    requires
        fresh_surface(surface, window),
    ensures
        surface.window == window,
        surface.logical_extent is None,
        surface.logical_capabilities is None,
        surface.borderless_lease is None,
        surface.negotiation@ is Direct,
{
}

/// A surface waits for its window as long as it is known without one.
pub proof fn a_surface_without_a_window_is_pending(layer: LayerModel, surface: Handle)
    ensures
        !layer.surfaces.contains_key(surface) ==> !pending(layer, surface),
        layer.surfaces.contains_key(surface) ==> pending(layer, surface) == (
        layer.surfaces[surface].window == 0),
{
}

} // verus!
