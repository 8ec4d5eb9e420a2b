//! Taking swapchains, devices and leases down.

use vstd::prelude::*;

use super::acquire::rejected;
use super::surface::told_capabilities;
use crate::display::negotiation::{
    NegotiationFailure, NegotiationStage, PresentationNegotiation, PresentationState,
};
use crate::display::BorderlessLease;
use crate::layer::recovery::ContractModel;
use crate::layer::state::{
    lemma_remove_swapchain, lemma_set_swapchain, Devices, Layer, LayerModel,
    SwapchainModel, SwapchainState, X11Surface,
};
use crate::seqs::contains_u64;
use crate::table::lemma_update;
use crate::vk::{Handle, SurfaceCapabilities, NULL_HANDLE};

verus! {

/// A destroy of a token that is no longer, or never was, a swapchain ends in
/// the layer.
pub fn suppress_unknown_swapchain_destroy(layer: &Layer, swapchain: Handle) -> (suppressed: bool)
    requires
        layer.wf(),
    ensures
        suppressed == rejected(layer@, swapchain),
{
    layer.is_retired_swapchain(swapchain) || layer.is_unknown_logical_swapchain(swapchain)
}

/// The handles that are not null, each where it first occurs.
pub open spec fn unique_handles(handles: Seq<Handle>) -> Seq<Handle>
    decreases handles.len(),
{
    if handles.len() == 0 {
        Seq::empty()
    } else {
        let front = unique_handles(handles.drop_last());
        if handles.last() == NULL_HANDLE || front.contains(handles.last()) {
            front
        } else {
            front.push(handles.last())
        }
    }
}

/// Every downstream swapchain behind a logical one, the current one first.
pub fn unique_physical_handles(current: Handle, retired: &[Handle]) -> (handles: Vec<Handle>)
    ensures
        handles@ == unique_handles(seq![current] + retired@),
{
    let ghost all = seq![current] + retired@;
    let mut handles: Vec<Handle> = Vec::new();
    assert(all.take(0) == Seq::<Handle>::empty());
    assert(all.take(1).drop_last() == all.take(0));
    assert(all.take(1).last() == current);
    assert(unique_handles(all.take(0)) == Seq::<Handle>::empty());
    if current != NULL_HANDLE {
        handles.push(current);
    }
    let mut index: usize = 0;
    while index < retired.len()
        invariant
            all == seq![current] + retired@,
            index <= retired.len(),
            handles@ == unique_handles(all.take(index + 1)),
        decreases retired.len() - index,
    {
        let handle: Handle = retired[index];
        assert(all.take(index + 2).drop_last() == all.take(index + 1));
        assert(all.take(index + 2).last() == handle);
        if handle != NULL_HANDLE && !contains_u64(handles.as_slice(), handle) {
            handles.push(handle);
        }
        index = index + 1;
    }
    assert(all.take(all.len() as int) == all);
    handles
}

/// No handle is destroyed twice, none is null, and none is forgotten.
pub proof fn unique_handles_are_a_set(handles: Seq<Handle>)
    ensures
        unique_handles(handles).no_duplicates(),
        forall|handle: Handle| #[trigger]
            unique_handles(handles).contains(handle) <==> handle != NULL_HANDLE
                && handles.contains(handle),
    decreases handles.len(),
{
    if handles.len() > 0 {
        let front = handles.drop_last();
        let kept = unique_handles(front);
        unique_handles_are_a_set(front);
        let all = unique_handles(handles);
        assert forall|handle: Handle| #[trigger] all.contains(handle) <==> handle != NULL_HANDLE
            && handles.contains(handle) by {
            assert(kept.contains(handle) <==> handle != NULL_HANDLE && front.contains(handle));
            if front.contains(handle) {
                assert(handles[front.index_of(handle)] == handle);
            }
            if handles.contains(handle) && handle != handles.last() {
                assert(front[handles.index_of(handle)] == handle);
            }
            assert(handles[handles.len() - 1] == handles.last());
            if all.len() == kept.len() + 1 {
                assert(all[kept.len() as int] == handles.last());
            }
            if kept.contains(handle) {
                assert(all[kept.index_of(handle)] == handle);
            }
            if all.contains(handle) && !kept.contains(handle) {
                let i = all.index_of(handle);
                if i < kept.len() {
                    assert(kept[i] == handle);
                }
            }
        }
        assert forall|i: int, j: int| 0 <= i < all.len() && 0 <= j < all.len() && i != j implies
            all[i] != all[j] by {
            if i < kept.len() && j < kept.len() {
                assert(kept[i] != kept[j]);
            } else if i < kept.len() {
                assert(kept.contains(kept[i]));
            } else if j < kept.len() {
                assert(kept.contains(kept[j]));
            }
        }
    }
}

/// What has to be taken down for one swapchain.
#[derive(Debug)]
pub struct SwapchainTeardown {
    pub logical_handle: Handle,
    pub physical_handles: Vec<Handle>,
    pub restore_surface: Option<Handle>,
    pub virtualized: bool,
    /// The overlay runtime that stands under the logical handle goes too.
    pub overlay: bool,
}

#[verifier::ext_equal]
pub struct TeardownModel {
    pub logical_handle: Handle,
    pub physical_handles: Seq<Handle>,
    pub restore_surface: Option<Handle>,
    pub virtualized: bool,
    pub overlay: bool,
}

impl View for SwapchainTeardown {
    type V = TeardownModel;

    open spec fn view(&self) -> TeardownModel {
        TeardownModel {
            logical_handle: self.logical_handle,
            physical_handles: self.physical_handles@,
            restore_surface: self.restore_surface,
            virtualized: self.virtualized,
            overlay: self.overlay,
        }
    }
}

pub open spec fn teardown_of(state: SwapchainModel) -> TeardownModel {
    TeardownModel {
        logical_handle: state.logical_handle,
        physical_handles: unique_handles(
            seq![state.physical_handle] + state.retired_physical_generations,
        ),
        restore_surface: if state.is_virtual() {
            Some(state.game_surface)
        } else {
            None
        },
        virtualized: state.is_virtual(),
        overlay: state.has_overlay,
    }
}

pub fn take_swapchain_teardown(state: &SwapchainState) -> (teardown: SwapchainTeardown)
    ensures
        teardown@ == teardown_of(state@),
{
    let virtualized: bool = state.mapping.is_some();
    SwapchainTeardown {
        logical_handle: state.logical_handle,
        physical_handles: unique_physical_handles(
            state.physical_handle,
            state.retired_physical_generations.as_slice(),
        ),
        restore_surface: if virtualized {
            Some(state.game_surface)
        } else {
            None
        },
        virtualized,
        overlay: state.has_overlay,
    }
}

/// How a destroy of a swapchain goes on.
#[derive(Debug)]
pub enum DestroyDecision {
    /// A reconfiguration is under way; it will take the destroy up.
    Deferred,
    /// There is nothing to destroy.
    Suppressed,
    TearDown(SwapchainTeardown),
}

/// The layer without a swapchain; the token of a virtual one stays retired.
pub open spec fn swapchain_forgotten(layer: LayerModel, swapchain: Handle) -> LayerModel {
    if layer.swapchains.contains_key(swapchain) {
        LayerModel {
            swapchains: layer.swapchains.remove(swapchain),
            retired: if layer.swapchains[swapchain].is_virtual() {
                layer.retired.insert(swapchain)
            } else {
                layer.retired
            },
            ..layer
        }
    } else {
        layer
    }
}

/// Forgets a swapchain and says what has to be taken down for it.
fn forget_swapchain(layer: &mut Layer, swapchain: Handle) -> (teardown: Option<SwapchainTeardown>)
    requires
        old(layer).wf(),
    ensures
        final(layer).wf(),
        final(layer)@ == swapchain_forgotten(old(layer)@, swapchain),
        match teardown {
            Some(taken) => old(layer)@.swapchains.contains_key(swapchain) && taken@ == teardown_of(
                old(layer)@.swapchains[swapchain],
            ),
            None => !old(layer)@.swapchains.contains_key(swapchain),
        },
{
    let ghost model = layer@;
    let ghost table = layer.swapchains@;
    match layer.swapchains.remove(swapchain) {
        None => {
            assert(layer@.swapchains =~= model.swapchains);
            None
        },
        Some(state) => {
            proof {
                lemma_remove_swapchain(table, swapchain);
                assert(model.swapchains[swapchain] == state@);
            }
            let teardown: SwapchainTeardown = take_swapchain_teardown(&state);
            if teardown.virtualized {
                layer.retired.insert(swapchain);
            }
            assert(layer@ =~= swapchain_forgotten(model, swapchain));
            Some(teardown)
        },
    }
}

/// Destroys a swapchain for the application.
pub fn destroy_swapchain(layer: &mut Layer, swapchain: Handle) -> (decision: DestroyDecision)
    requires
        old(layer).wf(),
    ensures
        final(layer).wf(),
        if old(layer)@.reconfiguring(swapchain) {
            &&& decision is Deferred
            &&& final(layer)@ == old(layer)@.with_swapchain(
                swapchain,
                SwapchainModel {
                    lifecycle: old(layer)@.swapchains[swapchain].lifecycle.destroy_asked(),
                    ..old(layer)@.swapchains[swapchain]
                },
            )
        } else if old(layer)@.swapchains.contains_key(swapchain) {
            &&& decision matches DestroyDecision::TearDown(teardown)
            &&& teardown@ == teardown_of(old(layer)@.swapchains[swapchain])
            &&& final(layer)@ == swapchain_forgotten(old(layer)@, swapchain)
        } else if rejected(old(layer)@, swapchain) {
            decision is Suppressed && final(layer)@ == old(layer)@
        } else {
            &&& decision matches DestroyDecision::TearDown(teardown)
            &&& teardown@ == TeardownModel {
                logical_handle: swapchain,
                physical_handles: seq![swapchain],
                restore_surface: None,
                virtualized: false,
                overlay: false,
            }
            &&& final(layer)@ == old(layer)@
        },
{
    if let Some(index) = layer.swapchains.find(swapchain) {
        let ghost before = layer.swapchains;
        let ghost model = layer@;
        assert(model.swapchains[swapchain] == before.value_seq()[index as int]@);
        if layer.swapchains.at(index).lifecycle.blocks_frame_operations() {
            let state: &mut SwapchainState = layer.swapchains.at_mut(index);
            let _ = state.lifecycle.request_destroy();
            proof {
                lemma_set_swapchain(before, layer.swapchains, index as int);
                assert(layer@.swapchains[swapchain] =~= SwapchainModel {
                    lifecycle: model.swapchains[swapchain].lifecycle.destroy_asked(),
                    ..model.swapchains[swapchain]
                });
            }
            return DestroyDecision::Deferred;
        }
    }
    match forget_swapchain(layer, swapchain) {
        Some(teardown) => DestroyDecision::TearDown(teardown),
        None => {
            if suppress_unknown_swapchain_destroy(layer, swapchain) {
                return DestroyDecision::Suppressed;
            }
            let mut physical_handles: Vec<Handle> = Vec::new();
            physical_handles.push(swapchain);
            DestroyDecision::TearDown(
                SwapchainTeardown {
                    logical_handle: swapchain,
                    physical_handles,
                    restore_surface: None,
                    virtualized: false,
                    overlay: false,
                },
            )
        },
    }
}

/// Some virtual swapchain shows on the surface.
pub open spec fn live_virtual(layer: LayerModel, surface: Handle) -> bool {
    exists|handle: Handle|
        layer.swapchains.contains_key(handle) && (
        #[trigger] layer.swapchains[handle]).game_surface == surface
            && layer.swapchains[handle].is_virtual()
}

pub fn has_live_virtual_swapchain(layer: &Layer, surface: Handle) -> (live: bool)
    requires
        layer.wf(),
    ensures
        live == live_virtual(layer@, surface),
{
    let mut index: usize = 0;
    while index < layer.swapchains.len()
        invariant
            layer.wf(),
            index <= layer.swapchains.key_seq().len(),
            forall|i: int|
                0 <= i < index ==> !((
                #[trigger] layer.swapchains.value_seq()[i])@.game_surface == surface
                    && layer.swapchains.value_seq()[i]@.is_virtual()),
        decreases layer.swapchains.key_seq().len() - index,
    {
        let state: &SwapchainState = layer.swapchains.at(index);
        if state.game_surface == surface && state.mapping.is_some() {
            proof {
                layer.swapchains.lemma_at(index as int);
                let handle = layer.swapchains.key_seq()[index as int];
                assert(layer@.swapchains[handle] == state@);
            }
            return true;
        }
        index = index + 1;
    }
    proof {
        assert forall|handle: Handle| layer@.swapchains.contains_key(handle) implies !((
        #[trigger] layer@.swapchains[handle]).game_surface == surface
            && layer@.swapchains[handle].is_virtual()) by {
            let i = layer.swapchains.key_seq().index_of(handle);
            assert(layer.swapchains.key_seq()[i] == handle);
            layer.swapchains.lemma_at(i);
            assert(layer@.swapchains[handle] == layer.swapchains.value_seq()[i]@);
        }
    }
    false
}

/// A swapchain whose surface went back to what it was: a virtual one has
/// failed, a direct one is direct.
pub open spec fn fallen_back(state: SwapchainModel) -> SwapchainModel {
    match state.contract {
        Some(contract) => SwapchainModel {
            negotiation: NegotiationStage::Failed { reason: NegotiationFailure::OutputRecreation },
            contract: Some(ContractModel { state: PresentationState::Failed, ..contract }),
            ..state
        },
        None => SwapchainModel { negotiation: NegotiationStage::Direct, ..state },
    }
}

pub fn fall_back(state: &mut SwapchainState)
    requires
        old(state)@.wf(),
    ensures
        final(state)@.wf(),
        final(state)@ == fallen_back(old(state)@),
{
    match &mut state.contract {
        Some(contract) => {
            contract.set_state(PresentationState::Failed);
            let mut failed: PresentationNegotiation = PresentationNegotiation::direct();
            failed.fail(NegotiationFailure::OutputRecreation);
            state.negotiation = failed;
        },
        None => {
            state.negotiation = PresentationNegotiation::direct();
        },
    }
}

/// All swapchains on a surface fall back, the others stay.
pub open spec fn surface_fallen_back(
    swapchains: Map<Handle, SwapchainModel>,
    surface: Handle,
) -> Map<Handle, SwapchainModel> {
    Map::new(
        |handle: Handle| swapchains.contains_key(handle),
        |handle: Handle|
            if swapchains[handle].game_surface == surface {
                fallen_back(swapchains[handle])
            } else {
                swapchains[handle]
            },
    )
}

/// A surface without promises to the application and without a lease.
pub open spec fn surface_reset(surface: X11Surface, restored: X11Surface) -> bool {
    &&& restored.window == surface.window
    &&& restored.logical_extent is None
    &&& restored.logical_capabilities is None
    &&& restored.borderless_lease is None
    &&& restored.negotiation@ == NegotiationStage::Direct
}

/// The layer after a surface was given up: the surface is reset and all
/// swapchains on it fall back.
pub open spec fn window_restored(before: LayerModel, after: LayerModel, surface: Handle) -> bool {
    &&& after.swapchains == surface_fallen_back(before.swapchains, surface)
    &&& after.retired == before.retired
    &&& after.recreating == before.recreating
    &&& after.next_logical == before.next_logical
    &&& if before.surfaces.contains_key(surface) {
        &&& after.surfaces.dom() == before.surfaces.dom()
        &&& after.surfaces == before.surfaces.insert(surface, after.surfaces[surface])
        &&& surface_reset(before.surfaces[surface], after.surfaces[surface])
    } else {
        after.surfaces == before.surfaces
    }
}

/// Gives a surface up. The lease, if the surface had one, is handed out to be
/// given back to the window, and the surface no longer has it.
pub fn restore_surface_window(layer: &mut Layer, surface: Handle) -> (lease: Option<
    BorderlessLease,
>)
    requires
        old(layer).wf(),
    ensures
        final(layer).wf(),
        window_restored(old(layer)@, final(layer)@, surface),
        lease == (if old(layer)@.surfaces.contains_key(surface) {
            old(layer)@.surfaces[surface].borderless_lease
        } else {
            None
        }),
{
    let ghost model = layer@;
    let mut lease: Option<BorderlessLease> = None;
    if let Some(index) = layer.surfaces.find(surface) {
        let ghost keys = layer.surfaces.key_seq();
        let ghost values = layer.surfaces.value_seq();
        let state: &mut X11Surface = layer.surfaces.at_mut(index);
        lease = state.borderless_lease;
        state.logical_extent = None;
        state.logical_capabilities = None;
        state.negotiation = PresentationNegotiation::direct();
        state.borderless_lease = None;
        proof {
            lemma_update(keys, values, index as int, layer.surfaces.value_seq()[index as int]);
            assert(layer@.surfaces.dom() =~= model.surfaces.dom());
        }
    }
    let ghost entry = layer.swapchains;
    let ghost surfaces = layer.surfaces;
    assert forall|i: int| 0 <= i < entry.key_seq().len() implies (
    #[trigger] entry.value_seq()[i])@.wf() by {
        entry.lemma_at(i);
        assert(model.swapchains.contains_key(entry.key_seq()[i]));
        assert(model.swapchains[entry.key_seq()[i]] == entry.value_seq()[i]@);
    }
    let mut index: usize = 0;
    while index < layer.swapchains.len()
        invariant
            layer.swapchains.wf(),
            entry.wf(),
            layer.surfaces == surfaces,
            layer.retired == old(layer).retired,
            layer.recreating == old(layer).recreating,
            layer.next_logical == old(layer).next_logical,
            layer.swapchains.key_seq() == entry.key_seq(),
            layer.swapchains.value_seq().len() == entry.value_seq().len(),
            index <= entry.key_seq().len(),
            forall|i: int|
                0 <= i < entry.key_seq().len() ==> (#[trigger] entry.value_seq()[i])@.wf(),
            forall|i: int|
                0 <= i < index ==> (#[trigger] layer.swapchains.value_seq()[i])@ == (
                if entry.value_seq()[i]@.game_surface == surface {
                    fallen_back(entry.value_seq()[i]@)
                } else {
                    entry.value_seq()[i]@
                }),
            forall|i: int|
                index <= i < entry.key_seq().len() ==> #[trigger] layer.swapchains.value_seq()[i]
                    == entry.value_seq()[i],
        decreases entry.key_seq().len() - index,
    {
        let ghost before = layer.swapchains;
        assert(before.value_seq()[index as int] == entry.value_seq()[index as int]);
        let state: &mut SwapchainState = layer.swapchains.at_mut(index);
        if state.game_surface == surface {
            fall_back(state);
        }
        index = index + 1;
    }
    proof {
        assert forall|handle: Handle| model.swapchains.contains_key(handle) implies
            layer@.swapchains.contains_key(handle) && layer@.swapchains[handle]
            == surface_fallen_back(model.swapchains, surface)[handle] by {
            let i = entry.key_seq().index_of(handle);
            assert(entry.key_seq()[i] == handle);
            entry.lemma_at(i);
            layer.swapchains.lemma_at(i);
            assert(layer.swapchains.value_seq()[i]@ == layer@.swapchains[handle]);
        }
        assert(layer@.swapchains =~= surface_fallen_back(model.swapchains, surface));
        assert(layer@.wf()) by {
            assert forall|handle: Handle| #[trigger] layer@.swapchains.contains_key(
                handle,
            ) implies layer@.swapchains[handle].wf()
                && layer@.swapchains[handle].logical_handle == handle by {
                assert(model.swapchains[handle].wf());
            }
        }
    }
    lease
}

/// Ends the destruction of a virtual swapchain: the window goes back to what
/// it was, unless another virtual swapchain still shows on it.
pub fn finish_destroy(layer: &mut Layer, restore_surface: Option<Handle>) -> (lease: Option<
    BorderlessLease,
>)
    requires
        old(layer).wf(),
    ensures
        final(layer).wf(),
        match restore_surface {
            Some(surface) if !live_virtual(old(layer)@, surface) => {
                &&& window_restored(old(layer)@, final(layer)@, surface)
                &&& lease == (if old(layer)@.surfaces.contains_key(surface) {
                    old(layer)@.surfaces[surface].borderless_lease
                } else {
                    None
                })
            },
            _ => final(layer)@ == old(layer)@ && lease is None,
        },
{
    match restore_surface {
        None => None,
        Some(surface) => {
            if has_live_virtual_swapchain(layer, surface) {
                return None;
            }
            restore_surface_window(layer, surface)
        },
    }
}

/// The layer without some of its swapchains; the tokens of the virtual ones
/// stay retired.
pub open spec fn all_forgotten(layer: LayerModel, gone: Set<Handle>) -> LayerModel {
    LayerModel {
        swapchains: layer.swapchains.remove_keys(gone),
        retired: Set::new(
            |handle: Handle|
                layer.retired.contains(handle) || (gone.contains(handle)
                    && layer.swapchains.contains_key(handle)
                    && layer.swapchains[handle].is_virtual()),
        ),
        ..layer
    }
}

pub open spec fn device_swapchains(layer: LayerModel, device: Handle) -> Set<Handle> {
    Set::new(
        |handle: Handle|
            layer.swapchains.contains_key(handle) && layer.swapchains[handle].device == device,
    )
}

/// The logical handles of all swapchains of a device.
pub fn swapchains_of_device(layer: &Layer, device: Handle) -> (handles: Vec<Handle>)
    requires
        layer.wf(),
    ensures
        handles@.no_duplicates(),
        handles@.to_set() == device_swapchains(layer@, device),
{
    let mut handles: Vec<Handle> = Vec::new();
    let mut index: usize = 0;
    while index < layer.swapchains.len()
        invariant
            layer.wf(),
            index <= layer.swapchains.key_seq().len(),
            handles@.no_duplicates(),
            forall|handle: Handle| #[trigger]
                handles@.contains(handle) <==> exists|i: int|
                    0 <= i < index && #[trigger] layer.swapchains.key_seq()[i] == handle
                        && layer.swapchains.value_seq()[i]@.device == device,
        decreases layer.swapchains.key_seq().len() - index,
    {
        let ghost before = handles@;
        let key: Handle = layer.swapchains.key_at(index);
        if layer.swapchains.at(index).device == device {
            assert(!before.contains(key));
            handles.push(key);
            assert(handles@[before.len() as int] == key);
        }
        assert forall|handle: Handle| #[trigger] handles@.contains(handle) <==> exists|i: int|
            0 <= i < index + 1 && #[trigger] layer.swapchains.key_seq()[i] == handle
                && layer.swapchains.value_seq()[i]@.device == device by {
            assert(layer.swapchains.key_seq()[index as int] == key);
            if before.contains(handle) {
                assert(handles@[before.index_of(handle)] == handle);
                let i = choose|i: int|
                    0 <= i < index && #[trigger] layer.swapchains.key_seq()[i] == handle
                        && layer.swapchains.value_seq()[i]@.device == device;
                assert(layer.swapchains.key_seq()[i] == handle);
            }
            if handles@.contains(handle) && handle != key {
                assert(before[handles@.index_of(handle)] == handle);
            }
        }
        index = index + 1;
    }
    proof {
        assert forall|handle: Handle| handles@.to_set().contains(handle) <==> device_swapchains(
            layer@,
            device,
        ).contains(handle) by {
            if handles@.contains(handle) {
                let i = choose|i: int|
                    0 <= i < layer.swapchains.key_seq().len()
                        && #[trigger] layer.swapchains.key_seq()[i] == handle
                        && layer.swapchains.value_seq()[i]@.device == device;
                layer.swapchains.lemma_at(i);
            }
            if layer@.swapchains.contains_key(handle) {
                let i = layer.swapchains.key_seq().index_of(handle);
                assert(layer.swapchains.key_seq()[i] == handle);
                layer.swapchains.lemma_at(i);
            }
        }
        assert(handles@.to_set() =~= device_swapchains(layer@, device));
    }
    handles
}

/// The surfaces of teardowns, each where it is named first.
pub open spec fn restored_surfaces(teardowns: Seq<SwapchainTeardown>) -> Seq<Handle>
    decreases teardowns.len(),
{
    if teardowns.len() == 0 {
        Seq::empty()
    } else {
        let before = restored_surfaces(teardowns.drop_last());
        match teardowns.last().restore_surface {
            Some(surface) => if before.contains(surface) {
                before
            } else {
                before.push(surface)
            },
            None => before,
        }
    }
}

/// The surfaces to restore, each once and in the order of the teardowns.
pub fn surfaces_to_restore(teardowns: &[SwapchainTeardown]) -> (surfaces: Vec<Handle>)
    ensures
        surfaces@ == restored_surfaces(teardowns@),
        surfaces@.no_duplicates(),
        forall|surface: Handle| #[trigger]
            surfaces@.contains(surface) <==> exists|i: int|
                0 <= i < teardowns@.len() && (#[trigger] teardowns@[i]).restore_surface == Some(
                    surface,
                ),
{
    let mut surfaces: Vec<Handle> = Vec::new();
    let mut index: usize = 0;
    while index < teardowns.len()
        invariant
            index <= teardowns.len(),
            surfaces@ == restored_surfaces(teardowns@.take(index as int)),
            surfaces@.no_duplicates(),
            forall|surface: Handle| #[trigger]
                surfaces@.contains(surface) <==> exists|i: int|
                    0 <= i < index && (#[trigger] teardowns@[i]).restore_surface == Some(surface),
        decreases teardowns.len() - index,
    {
        let ghost before = surfaces@;
        assert(teardowns@.take(index + 1).drop_last() =~= teardowns@.take(index as int));
        if let Some(surface) = teardowns[index].restore_surface {
            if !contains_u64(surfaces.as_slice(), surface) {
                surfaces.push(surface);
            }
            proof {
                assert(teardowns@[index as int].restore_surface == Some(surface));
                assert forall|other: Handle| #[trigger] surfaces@.contains(other) <==> before.contains(
                    other,
                ) || other == surface by {
                    if before.contains(other) {
                        assert(surfaces@[before.index_of(other)] == other);
                    }
                    if surfaces@.len() > before.len() {
                        assert(surfaces@[before.len() as int] == surface);
                        if surfaces@.contains(other) && other != surface {
                            assert(before[surfaces@.index_of(other)] == other);
                        }
                    }
                }
                assert(surfaces@.no_duplicates());
            }
        }
        assert forall|surface: Handle| #[trigger] surfaces@.contains(surface) <==> exists|i: int|
            0 <= i < index + 1 && (#[trigger] teardowns@[i]).restore_surface == Some(surface) by {
            if before.contains(surface) {
                let i = choose|i: int|
                    0 <= i < index && (#[trigger] teardowns@[i]).restore_surface == Some(surface);
                assert(teardowns@[i].restore_surface == Some(surface));
            }
        }
        index = index + 1;
    }
    assert(teardowns@.take(index as int) =~= teardowns@);
    surfaces
}

/// Destroys a device for the application: its queues and all its swapchains
/// are forgotten. The answer says what has to be taken down, one entry for
/// each swapchain.
pub fn destroy_device(layer: &mut Layer, devices: &mut Devices, device: Handle) -> (teardowns: Vec<
    SwapchainTeardown,
>)
    requires
        old(layer).wf(),
        old(devices).wf(),
    ensures
        final(layer).wf(),
        final(devices).wf(),
        final(devices)@ == old(devices)@.without_device(device),
        final(layer)@ == all_forgotten(
            old(layer)@,
            device_swapchains(old(layer)@, device),
        ),
        exists|handles: Seq<Handle>|
            {
                &&& #[trigger] handles.no_duplicates()
                &&& handles.to_set() == device_swapchains(old(layer)@, device)
                &&& teardowns@.len() == handles.len()
                &&& forall|i: int|
                    0 <= i < handles.len() ==> (#[trigger] teardowns@[i])@ == teardown_of(
                        old(layer)@.swapchains[handles[i]],
                    )
            },
{
    devices.forget(device);
    let ghost model = layer@;
    let handles: Vec<Handle> = swapchains_of_device(layer, device);
    let mut teardowns: Vec<SwapchainTeardown> = Vec::new();
    let mut index: usize = 0;
    proof {
        assert(handles@.take(0).to_set() =~= Set::<Handle>::empty());
        assert(all_forgotten(model, Set::<Handle>::empty()) =~= model);
    }
    while index < handles.len()
        invariant
            layer.wf(),
            model.wf(),
            index <= handles.len(),
            handles@.no_duplicates(),
            handles@.to_set() == device_swapchains(model, device),
            layer@ == all_forgotten(model, handles@.take(index as int).to_set()),
            teardowns@.len() == index,
            forall|i: int|
                0 <= i < index ==> (#[trigger] teardowns@[i])@ == teardown_of(
                    model.swapchains[handles@[i]],
                ),
        decreases handles.len() - index,
    {
        let handle: Handle = handles[index];
        let ghost done = handles@.take(index as int);
        let ghost more = handles@.take(index + 1);
        proof {
            assert(handles@.to_set().contains(handle));
            assert(model.swapchains.contains_key(handle));
            assert(!done.contains(handle)) by {
                if done.contains(handle) {
                    let i = done.index_of(handle);
                    assert(handles@[i] == handles@[index as int]);
                }
            }
            assert(layer@.swapchains.contains_key(handle));
            assert(layer@.swapchains[handle] == model.swapchains[handle]);
        }
        let ghost before = layer@;
        match forget_swapchain(layer, handle) {
            Some(teardown) => {
                teardowns.push(teardown);
            },
            None => {
                assert(false);
            },
        }
        proof {
            assert(more =~= done.push(handle));
            assert(more.to_set() =~= done.to_set().insert(handle)) by {
                assert forall|other: Handle| more.contains(other) <==> done.contains(other)
                    || other == handle by {
                    if done.contains(other) {
                        assert(more[done.index_of(other)] == other);
                    }
                    assert(more[index as int] == handle);
                    if more.contains(other) && other != handle {
                        assert(done[more.index_of(other)] == other);
                    }
                }
            }
            assert(layer@.swapchains =~= all_forgotten(model, more.to_set()).swapchains);
            assert(layer@.retired =~= all_forgotten(model, more.to_set()).retired);
            assert(layer@ =~= all_forgotten(model, more.to_set()));
        }
        index = index + 1;
    }
    assert(handles@.take(handles@.len() as int) == handles@);
    teardowns
}

/// After its device is gone, no swapchain of the device is known any more,
/// and the token of each virtual one is retired.
pub proof fn a_destroyed_device_leaves_no_swapchain(
    layer: LayerModel,
    device: Handle,
    handle: Handle,
)
    requires
        layer.swapchains.contains_key(handle),
    ensures
        ({
            let after = all_forgotten(layer, device_swapchains(layer, device));
            if layer.swapchains[handle].device == device {
                &&& !after.swapchains.contains_key(handle)
                &&& layer.swapchains[handle].is_virtual() ==> after.retired.contains(handle)
            } else {
                &&& after.swapchains.contains_key(handle)
                &&& after.swapchains[handle] == layer.swapchains[handle]
            }
        }),
{
}

/// The token of a destroyed virtual swapchain is retired and unknown, so
/// nothing is done for it again.
pub proof fn a_destroyed_virtual_token_is_rejected(layer: LayerModel, swapchain: Handle)
    requires
        layer.swapchains.contains_key(swapchain),
        layer.swapchains[swapchain].is_virtual(),
    ensures
        rejected(swapchain_forgotten(layer, swapchain), swapchain),
        !swapchain_forgotten(layer, swapchain).swapchains.contains_key(swapchain),
{
}

/// Giving a surface up a second time finds no lease and changes no negotiation.
pub proof fn restoring_twice_restores_once(
    layer: LayerModel,
    restored: LayerModel,
    surface: Handle,
)
    requires
        window_restored(layer, restored, surface),
        restored.surfaces.contains_key(surface),
    ensures
        restored.surfaces[surface].borderless_lease is None,
        surface_fallen_back(restored.swapchains, surface) == restored.swapchains,
{
    assert forall|handle: Handle| restored.swapchains.contains_key(handle) implies
        surface_fallen_back(restored.swapchains, surface)[handle]
        == restored.swapchains[handle] by {
        if restored.swapchains[handle].game_surface == surface {
            assert(fallen_back(restored.swapchains[handle]) =~= restored.swapchains[handle]);
        }
    }
    assert(surface_fallen_back(restored.swapchains, surface) =~= restored.swapchains);
}

/// A surface that was given up promises nothing: the application is told what
/// the driver offers.
pub proof fn a_given_up_surface_tells_what_the_driver_offers(
    before: LayerModel,
    after: LayerModel,
    surface: Handle,
    queried: SurfaceCapabilities,
)
    requires
        window_restored(before, after, surface),
    ensures
        told_capabilities(after, surface, queried) == queried,
{
}

/// What is taken down with a swapchain: its current downstream swapchain and all
/// that were retired, each once and none of them null, its overlay, and for a
/// virtual one the promotion of its window.
pub proof fn a_teardown_takes_every_generation(state: SwapchainModel, handle: Handle)
    ensures
        ({
            let teardown = teardown_of(state);
            &&& teardown.logical_handle == state.logical_handle
            &&& teardown.physical_handles.no_duplicates()
            &&& teardown.physical_handles.contains(handle) <==> handle != 0 && (handle
                == state.physical_handle || state.retired_physical_generations.contains(handle))
            &&& teardown.virtualized == (state.mapping is Some)
            &&& teardown.restore_surface == (if state.mapping is Some {
                Some(state.game_surface)
            } else {
                None
            })
            &&& teardown.overlay == state.has_overlay
        }),
{
    let all = seq![state.physical_handle] + state.retired_physical_generations;
    unique_handles_are_a_set(all);
    assert(all[0] == state.physical_handle);
    if state.retired_physical_generations.contains(handle) {
        let i = state.retired_physical_generations.index_of(handle);
        assert(all[i + 1] == handle);
    }
    if all.contains(handle) && handle != state.physical_handle {
        let i = all.index_of(handle);
        assert(state.retired_physical_generations[i - 1] == handle);
    }
}

/// A swapchain that is destroyed is forgotten, and the token of a virtual one is
/// retired; nothing else changes.
pub proof fn a_destroyed_swapchain_is_forgotten(
    layer: LayerModel,
    swapchain: Handle,
    other: Handle,
)
    ensures
        ({
            let after = swapchain_forgotten(layer, swapchain);
            &&& !after.swapchains.contains_key(swapchain)
            &&& other != swapchain ==> after.swapchains.contains_key(other)
                == layer.swapchains.contains_key(other)
            &&& other != swapchain && layer.swapchains.contains_key(other)
                ==> after.swapchains[other] == layer.swapchains[other]
            &&& after.retired.contains(other) <==> layer.retired.contains(other) || (other
                == swapchain && layer.swapchains.contains_key(swapchain)
                && layer.swapchains[swapchain].mapping is Some)
            &&& after.surfaces == layer.surfaces
            &&& after.recreating == layer.recreating
            &&& after.next_logical == layer.next_logical
        }),
{
}

/// A surface that is given up promises nothing and holds no lease; its window
/// stays. The virtual swapchains on it have failed for good and show that to the
/// application, its direct ones are direct. Other surfaces and swapchains stay.
pub proof fn a_given_up_surface_fails_its_swapchains(
    before: LayerModel,
    after: LayerModel,
    surface: Handle,
    handle: Handle,
    other: Handle,
)
    requires
        window_restored(before, after, surface),
    ensures
        before.surfaces.contains_key(surface) ==> {
            let now = after.surfaces[surface];
            &&& after.surfaces.contains_key(surface)
            &&& now.window == before.surfaces[surface].window
            &&& now.logical_extent is None
            &&& now.logical_capabilities is None
            &&& now.borderless_lease is None
            &&& now.negotiation@ is Direct
        },
        other != surface ==> after.surfaces.contains_key(other) == before.surfaces.contains_key(
            other,
        ),
        other != surface && before.surfaces.contains_key(other) ==> after.surfaces[other]
            == before.surfaces[other],
        after.swapchains.contains_key(handle) == before.swapchains.contains_key(handle),
        before.swapchains.contains_key(handle) ==> {
            let was = before.swapchains[handle];
            let now = after.swapchains[handle];
            &&& was.game_surface != surface ==> now == was
            &&& was.game_surface == surface && was.contract is None ==> now.negotiation is Direct
                && now == SwapchainModel { negotiation: now.negotiation, ..was }
            &&& was.game_surface == surface ==> (was.contract matches Some(contract) ==> {
                &&& now.negotiation is Failed
                &&& now.contract.unwrap().state == PresentationState::Failed
                &&& now.contract.unwrap().logical == contract.logical
                &&& now.contract.unwrap().physical == contract.physical
                &&& now == SwapchainModel {
                    negotiation: now.negotiation,
                    contract: now.contract,
                    ..was
                }
            })
        },
        after.retired == before.retired,
{
    if other != surface && before.surfaces.contains_key(surface) {
        assert(after.surfaces.dom().contains(other) == before.surfaces.dom().contains(other));
    }
}

/// A surface has a live virtual swapchain where one that hands out slots shows
/// on it.
pub proof fn virtual_swapchains_keep_their_surface(
    layer: LayerModel,
    surface: Handle,
    handle: Handle,
)
    ensures
        layer.swapchains.contains_key(handle) && layer.swapchains[handle].game_surface == surface
            && layer.swapchains[handle].mapping is Some ==> live_virtual(layer, surface),
        live_virtual(layer, surface) ==> exists|other: Handle|
            layer.swapchains.contains_key(other) && (
            #[trigger] layer.swapchains[other]).game_surface == surface
                && layer.swapchains[other].mapping is Some,
{
    if live_virtual(layer, surface) {
        let other = choose|other: Handle|
            layer.swapchains.contains_key(other) && (
            #[trigger] layer.swapchains[other]).game_surface == surface
                && layer.swapchains[other].is_virtual();
        assert(layer.swapchains[other].mapping is Some);
    }
}

} // verus!
