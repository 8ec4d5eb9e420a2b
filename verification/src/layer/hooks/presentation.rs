//! Presenting: what goes downstream for a present, and what is kept of it.

use vstd::prelude::*;

use super::acquire::{
    acquire_addressed, acquire_begun, acquire_finished, acquire_outcome, hands_out,
    physical_behind, with_mapping, AcquireOutcome, PendingAcquire,
};
use super::present_chain::{
    chain_accepted, collects, listed, nested, node_fault, node_models, rebuilt, with_mapped,
    MappedPresentRegions, PresentChain, PresentChainModel, PresentNode, RectLayer,
};
use super::present_id::{
    HistoryModel, PresentIdReservation, PresentIdRoute, ReservationModel,
};
use crate::display::negotiation::PresentationState;
use crate::layer::mapping::{reserved_handle, rewrite_present_array, LogicalSwapchainHandle};
use crate::layer::recovery::{path_of, FrameBinding, PresentationPath};
use crate::layer::state::{
    lemma_set_swapchain, Devices, DevicesModel, Layer, LayerModel, QueueState, SwapchainModel,
    SwapchainState,
};
use crate::seqs::copy_slice;
use crate::vk::{
    contains_flags, has_flags, Handle, VkResult, ERROR_FEATURE_NOT_PRESENT,
    ERROR_INITIALIZATION_FAILED, ERROR_OUT_OF_DATE_KHR, SUBOPTIMAL_KHR, SUCCESS,
};

verus! {

/// A present as the application asked for it. An array is as long as its
/// count says, or `None` where its pointer is null.
#[derive(Debug)]
pub struct PresentInfo {
    pub swapchain_count: u32,
    pub swapchains: Option<Vec<Handle>>,
    pub image_indices: Option<Vec<u32>>,
    pub wait_semaphore_count: u32,
    pub wait_semaphores: Option<Vec<Handle>>,
    pub chain: Vec<PresentNode>,
}

impl PresentInfo {
    pub open spec fn wf(self) -> bool {
        &&& self.swapchains matches Some(list) ==> list@.len() == self.swapchain_count
        &&& self.image_indices matches Some(list) ==> list@.len() == self.swapchain_count
        &&& self.wait_semaphores matches Some(list) ==> list@.len() == self.wait_semaphore_count
        &&& forall|i: int| 0 <= i < self.chain@.len() ==> (#[trigger] self.chain@[i]).wf()
    }

    /// Both arrays of a present that names swapchains are there.
    pub open spec fn readable(self) -> bool {
        self.swapchains is Some && self.image_indices is Some
    }

    pub open spec fn presented(self) -> Seq<Handle> {
        listed(self.swapchains)
    }

    pub open spec fn indices(self) -> Seq<u32> {
        listed(self.image_indices)
    }

    fn presented_list(&self) -> (list: Vec<Handle>)
        ensures
            list@ == self.presented(),
    {
        match &self.swapchains {
            Some(list) => copy_slice(list.as_slice()),
            None => Vec::new(),
        }
    }
}

/// The downstream swapchain and image of one presented image.
pub open spec fn presented_image(layer: LayerModel, swapchain: Handle, index: u32) -> Result<
    (Handle, u32),
    VkResult,
> {
    if layer.retired.contains(swapchain) || layer.unknown_logical(swapchain)
        || layer.reconfiguring(swapchain) {
        Err(ERROR_OUT_OF_DATE_KHR)
    } else if layer.swapchains.contains_key(swapchain)
        && layer.swapchains[swapchain].mapping is Some {
        match layer.swapchains[swapchain].mapping.unwrap().image(index as int) {
            Some(image) => Ok((layer.swapchains[swapchain].physical_handle, image)),
            None => Err(ERROR_OUT_OF_DATE_KHR),
        }
    } else {
        Ok((swapchain, index))
    }
}

/// The generation of a virtual swapchain that a present goes to.
#[derive(Debug, Clone, Copy, PartialEq, Eq, Structural)]
pub struct PresentIdTarget {
    pub swapchain: Handle,
    pub generation: u64,
    pub physical: Handle,
}

pub open spec fn presented_target(layer: LayerModel, swapchain: Handle) -> Option<
    PresentIdTarget,
> {
    if layer.swapchains.contains_key(swapchain) && layer.swapchains[swapchain].mapping is Some {
        Some(
            PresentIdTarget {
                swapchain,
                generation: layer.swapchains[swapchain].generation,
                physical: layer.swapchains[swapchain].physical_handle,
            },
        )
    } else {
        None
    }
}

/// Identifiers that were staged with one swapchain.
#[derive(Debug)]
pub struct PresentIdReservationRecord {
    pub swapchain: Handle,
    pub reservation: PresentIdReservation,
}

pub open spec fn record_models(records: Seq<PresentIdReservationRecord>) -> Seq<
    (Handle, ReservationModel),
> {
    Seq::new(records.len(), |i: int| (records[i].swapchain, records[i].reservation@))
}

/// A present in the terms of the driver.
#[derive(Debug)]
pub struct PresentTranslation {
    pub swapchains: Vec<Handle>,
    pub image_indices: Vec<u32>,
    /// The slots that a virtual swapchain gets back once the present is done.
    pub releases: Vec<(Handle, u32)>,
    pub present_targets: Vec<Option<PresentIdTarget>>,
    pub present_ids: Vec<PresentIdReservationRecord>,
}

/// The slots of virtual swapchains that a present names.
pub open spec fn presented_slots(
    layer: LayerModel,
    swapchains: Seq<Handle>,
    indices: Seq<u32>,
) -> Seq<(Handle, u32)>
    decreases swapchains.len(),
{
    if swapchains.len() == 0 {
        Seq::empty()
    } else {
        let before = presented_slots(layer, swapchains.drop_last(), indices.drop_last());
        if presented_target(layer, swapchains.last()) is Some {
            before.push((swapchains.last(), indices.last()))
        } else {
            before
        }
    }
}

/// Every image of the present can be presented.
pub open spec fn all_presentable(
    layer: LayerModel,
    swapchains: Seq<Handle>,
    indices: Seq<u32>,
) -> bool {
    forall|i: int|
        0 <= i < swapchains.len() ==> presented_image(
            layer,
            #[trigger] swapchains[i],
            indices[i],
        ) is Ok
}

/// Some swapchain of the present is virtual.
pub open spec fn any_virtual(layer: LayerModel, swapchains: Seq<Handle>) -> bool {
    exists|i: int|
        0 <= i < swapchains.len() && presented_target(layer, #[trigger] swapchains[i]) is Some
}

/// The translation of a present, item by item.
pub open spec fn translates(
    layer: LayerModel,
    swapchains: Seq<Handle>,
    indices: Seq<u32>,
    translation: PresentTranslation,
) -> bool {
    &&& translation.swapchains@ == Seq::new(
        swapchains.len(),
        |i: int| presented_image(layer, swapchains[i], indices[i]).unwrap().0,
    )
    &&& translation.image_indices@ == Seq::new(
        swapchains.len(),
        |i: int| presented_image(layer, swapchains[i], indices[i]).unwrap().1,
    )
    &&& translation.present_targets@ == Seq::new(
        swapchains.len(),
        |i: int| presented_target(layer, swapchains[i]),
    )
    &&& translation.releases@ == presented_slots(layer, swapchains, indices)
}

/// Why a present cannot be translated.
pub open spec fn translation_refusal(layer: LayerModel, info: PresentInfo) -> Option<VkResult> {
    if info.swapchain_count == 0 {
        None
    } else if !info.readable() {
        Some(ERROR_INITIALIZATION_FAILED)
    } else if !all_presentable(layer, info.presented(), info.indices()) {
        Some(ERROR_OUT_OF_DATE_KHR)
    } else {
        None
    }
}

/// Puts a present in the terms of the driver. One without a virtual swapchain
/// goes down as it came.
pub fn translate_present(layer: &Layer, info: &PresentInfo) -> (result: Result<
    Option<PresentTranslation>,
    VkResult,
>)
    requires
        layer.wf(),
        info.wf(),
    ensures
        match result {
            Ok(None) => {
                &&& translation_refusal(layer@, *info) is None
                &&& !any_virtual(layer@, info.presented()) || info.swapchain_count == 0
            },
            Ok(Some(translation)) => {
                &&& translation_refusal(layer@, *info) is None
                &&& info.swapchain_count != 0
                &&& any_virtual(layer@, info.presented())
                &&& translates(layer@, info.presented(), info.indices(), translation)
                &&& translation.present_ids@.len() == 0
            },
            Err(error) => translation_refusal(layer@, *info) == Some(error),
        },
{
    if info.swapchain_count == 0 {
        return Ok(None);
    }
    let (presented, indices) = match (&info.swapchains, &info.image_indices) {
        (Some(presented), Some(indices)) => (presented, indices),
        _ => {
            return Err(ERROR_INITIALIZATION_FAILED);
        },
    };
    let mut swapchains: Vec<Handle> = Vec::new();
    let mut image_indices: Vec<u32> = Vec::new();
    let mut releases: Vec<(Handle, u32)> = Vec::new();
    let mut present_targets: Vec<Option<PresentIdTarget>> = Vec::new();
    let mut changed: bool = false;
    let mut at: usize = 0;
    while at < presented.len()
        invariant
            layer.wf(),
            info.wf(),
            info.swapchain_count != 0,
            info.swapchains == Some(*presented),
            info.image_indices == Some(*indices),
            presented@.len() == indices@.len(),
            at <= presented@.len(),
            swapchains@.len() == at,
            image_indices@.len() == at,
            present_targets@.len() == at,
            forall|i: int|
                0 <= i < at ==> presented_image(layer@, #[trigger] presented@[i], indices@[i])
                    == Ok::<(Handle, u32), VkResult>((swapchains@[i], image_indices@[i])),
            forall|i: int|
                0 <= i < at ==> #[trigger] present_targets@[i] == presented_target(
                    layer@,
                    presented@[i],
                ),
            releases@ == presented_slots(
                layer@,
                presented@.take(at as int),
                indices@.take(at as int),
            ),
            changed == exists|i: int|
                0 <= i < at && presented_target(layer@, #[trigger] presented@[i]) is Some,
        decreases presented@.len() - at,
    {
        let handle: Handle = presented[at];
        let index: u32 = indices[at];
        proof {
            assert(presented@.take(at + 1).drop_last() =~= presented@.take(at as int));
            assert(indices@.take(at + 1).drop_last() =~= indices@.take(at as int));
            assert(presented@.take(at + 1).last() == handle);
            assert(indices@.take(at + 1).last() == index);
        }
        let ghost was_changed = changed;
        if layer.is_retired_swapchain(handle) {
            assert(presented_image(layer@, presented@[at as int], indices@[at as int]) is Err);
            return Err(ERROR_OUT_OF_DATE_KHR);
        }
        match layer.swapchains.get(handle) {
            None => {
                if LogicalSwapchainHandle::is_reserved(handle) {
                    assert(presented_image(
                        layer@,
                        presented@[at as int],
                        indices@[at as int],
                    ) is Err);
                    return Err(ERROR_OUT_OF_DATE_KHR);
                }
                swapchains.push(handle);
                image_indices.push(index);
                present_targets.push(None);
            },
            Some(state) => {
                assert(layer@.swapchains[handle] == state@);
                assert(layer@.swapchains[handle].wf());
                if state.lifecycle.blocks_frame_operations() {
                    assert(presented_image(
                        layer@,
                        presented@[at as int],
                        indices@[at as int],
                    ) is Err);
                    return Err(ERROR_OUT_OF_DATE_KHR);
                }
                match &state.mapping {
                    None => {
                        swapchains.push(handle);
                        image_indices.push(index);
                        present_targets.push(None);
                    },
                    Some(mapping) => {
                        match rewrite_present_array(mapping, state.physical_handle, index) {
                            Err(error) => {
                                assert(presented_image(
                                    layer@,
                                    presented@[at as int],
                                    indices@[at as int],
                                ) is Err);
                                return Err(error);
                            },
                            Ok((physical, physical_index)) => {
                                swapchains.push(physical);
                                image_indices.push(physical_index);
                                releases.push((handle, index));
                                present_targets.push(
                                    Some(
                                        PresentIdTarget {
                                            swapchain: handle,
                                            generation: state.generation,
                                            physical: state.physical_handle,
                                        },
                                    ),
                                );
                                changed = true;
                            },
                        }
                    },
                }
            },
        }
        proof {
            let here = presented_target(layer@, presented@[at as int]);
            assert(changed == (was_changed || here is Some));
            if was_changed {
                let i = choose|i: int|
                    0 <= i < at && presented_target(layer@, #[trigger] presented@[i]) is Some;
                assert(presented_target(layer@, presented@[i]) is Some);
            }
            if here is Some {
                assert(presented_target(layer@, presented@[at as int]) is Some);
            }
        }
        at = at + 1;
    }
    assert(presented@.take(at as int) =~= presented@);
    assert(indices@.take(at as int) =~= indices@);
    if !changed {
        return Ok(None);
    }
    let translation: PresentTranslation = PresentTranslation {
        swapchains,
        image_indices,
        releases,
        present_targets,
        present_ids: Vec::new(),
    };
    proof {
        assert(translation.swapchains@ =~= Seq::new(
            presented@.len(),
            |i: int| presented_image(layer@, presented@[i], indices@[i]).unwrap().0,
        ));
        assert(translation.image_indices@ =~= Seq::new(
            presented@.len(),
            |i: int| presented_image(layer@, presented@[i], indices@[i]).unwrap().1,
        ));
        assert(translation.present_targets@ =~= Seq::new(
            presented@.len(),
            |i: int| presented_target(layer@, presented@[i]),
        ));
    }
    Ok(Some(translation))
}

/// A swapchain with another history of identifiers.
pub open spec fn with_ids(layer: LayerModel, swapchain: Handle, ids: HistoryModel) -> LayerModel {
    layer.with_swapchain(
        swapchain,
        SwapchainModel { present_ids: ids, ..layer.swapchains[swapchain] },
    )
}

/// What staging one identifier with one swapchain comes to.
pub open spec fn staged_one(layer: LayerModel, target: PresentIdTarget, id: u64) -> Result<
    LayerModel,
    VkResult,
> {
    let state = layer.swapchains[target.swapchain];
    if !layer.swapchains.contains_key(target.swapchain) || state.blocked() || state.generation
        != target.generation || state.physical_handle != target.physical {
        Err(ERROR_OUT_OF_DATE_KHR)
    } else if !state.present_ids.stageable(seq![id]) {
        Err(ERROR_FEATURE_NOT_PRESENT)
    } else {
        Ok(
            with_ids(
                layer,
                target.swapchain,
                HistoryModel { pending: Some(reservation_of(target, id)), ..state.present_ids },
            ),
        )
    }
}

pub open spec fn reservation_of(target: PresentIdTarget, id: u64) -> ReservationModel {
    ReservationModel {
        ids: seq![id],
        route: PresentIdRoute { generation: target.generation, physical: target.physical },
    }
}

/// What staging the identifiers of a present comes to: each virtual swapchain
/// gets its own, one after the other.
pub open spec fn staging(
    layer: LayerModel,
    targets: Seq<Option<PresentIdTarget>>,
    ids: Seq<u64>,
) -> Result<LayerModel, VkResult>
    decreases targets.len(),
{
    if targets.len() == 0 {
        Ok(layer)
    } else {
        match staging(layer, targets.drop_last(), ids.drop_last()) {
            Err(error) => Err(error),
            Ok(before) => match targets.last() {
                None => Ok(before),
                Some(target) => staged_one(before, target, ids.last()),
            },
        }
    }
}

/// The reservations that staging makes.
pub open spec fn staged_records(targets: Seq<Option<PresentIdTarget>>, ids: Seq<u64>) -> Seq<
    (Handle, ReservationModel),
>
    decreases targets.len(),
{
    if targets.len() == 0 {
        Seq::empty()
    } else {
        let before = staged_records(targets.drop_last(), ids.drop_last());
        match targets.last() {
            None => before,
            Some(target) => before.push((target.swapchain, reservation_of(target, ids.last()))),
        }
    }
}

/// The layer after reservations were given back.
pub open spec fn unstaged(layer: LayerModel, records: Seq<(Handle, ReservationModel)>) -> LayerModel
    decreases records.len(),
{
    if records.len() == 0 {
        layer
    } else {
        let before = unstaged(layer, records.drop_last());
        let (swapchain, reservation) = records.last();
        if before.swapchains.contains_key(swapchain)
            && before.swapchains[swapchain].present_ids.pending == Some(reservation) {
            with_ids(
                before,
                swapchain,
                HistoryModel { pending: None, ..before.swapchains[swapchain].present_ids },
            )
        } else {
            before
        }
    }
}

/// The layer after reservations became final.
pub open spec fn ids_committed(
    layer: LayerModel,
    records: Seq<(Handle, ReservationModel)>,
) -> LayerModel
    decreases records.len(),
{
    if records.len() == 0 {
        layer
    } else {
        let before = ids_committed(layer, records.drop_last());
        let (swapchain, reservation) = records.last();
        if before.swapchains.contains_key(swapchain)
            && before.swapchains[swapchain].present_ids.pending == Some(reservation) {
            with_ids(before, swapchain, before.swapchains[swapchain].present_ids.committed())
        } else {
            before
        }
    }
}

/// Gives reservations back.
pub fn rollback_present_ids(layer: &mut Layer, records: &[PresentIdReservationRecord])
    requires
        old(layer).wf(),
    ensures
        final(layer).wf(),
        final(layer)@ == unstaged(old(layer)@, record_models(records@)),
{
    let ghost entry = layer@;
    let ghost models = record_models(records@);
    let mut at: usize = 0;
    assert(models.take(0) =~= Seq::empty());
    while at < records.len()
        invariant
            layer.wf(),
            at <= records@.len(),
            models == record_models(records@),
            layer@ == unstaged(entry, models.take(at as int)),
        decreases records@.len() - at,
    {
        let handle: Handle = records[at].swapchain;
        let ghost before = layer@;
        assert(models.take(at + 1).drop_last() =~= models.take(at as int));
        assert(models.take(at + 1).last() == (handle, records@[at as int].reservation@));
        if let Some(place) = layer.swapchains.find(handle) {
            let ghost table = layer.swapchains;
            proof {
                table.lemma_at(place as int);
                assert(before.swapchains.contains_key(handle));
                assert(before.swapchains[handle] == table.value_seq()[place as int]@);
            }
            let state: &mut SwapchainState = layer.swapchains.at_mut(place);
            let _ = state.present_ids.rollback(records[at].reservation.duplicate());
            proof {
                lemma_set_swapchain(table, layer.swapchains, place as int);
                assert(layer@ =~= unstaged(entry, models.take(at + 1)));
            }
        }
        at = at + 1;
    }
    assert(models.take(at as int) =~= models);
}

/// Makes reservations final.
pub fn commit_present_ids(layer: &mut Layer, translation: &mut PresentTranslation)
    requires
        old(layer).wf(),
    ensures
        final(layer).wf(),
        final(layer)@ == ids_committed(
            old(layer)@,
            record_models(old(translation).present_ids@),
        ),
        final(translation).present_ids@.len() == 0,
        *final(translation) == (PresentTranslation {
            present_ids: final(translation).present_ids,
            ..*old(translation)
        }),
{
    let ghost entry = layer@;
    let ghost models = record_models(translation.present_ids@);
    let mut at: usize = 0;
    assert(models.take(0) =~= Seq::empty());
    while at < translation.present_ids.len()
        invariant
            layer.wf(),
            *translation == *old(translation),
            at <= translation.present_ids@.len(),
            models == record_models(translation.present_ids@),
            layer@ == ids_committed(entry, models.take(at as int)),
        decreases translation.present_ids@.len() - at,
    {
        let handle: Handle = translation.present_ids[at].swapchain;
        let ghost before = layer@;
        assert(models.take(at + 1).drop_last() =~= models.take(at as int));
        assert(models.take(at + 1).last() == (
            handle,
            translation.present_ids@[at as int].reservation@,
        ));
        if let Some(place) = layer.swapchains.find(handle) {
            let ghost table = layer.swapchains;
            proof {
                table.lemma_at(place as int);
                assert(before.swapchains.contains_key(handle));
                assert(before.swapchains[handle] == table.value_seq()[place as int]@);
            }
            let state: &mut SwapchainState = layer.swapchains.at_mut(place);
            let _ = state.present_ids.commit(translation.present_ids[at].reservation.duplicate());
            proof {
                lemma_set_swapchain(table, layer.swapchains, place as int);
                assert(layer@ =~= ids_committed(entry, models.take(at + 1)));
            }
        }
        at = at + 1;
    }
    assert(models.take(at as int) =~= models);
    translation.present_ids = Vec::new();
}

/// Staging touches only the swapchains that it has a reservation for, each of
/// them once, and only where none was pending.
proof fn lemma_staging(layer: LayerModel, targets: Seq<Option<PresentIdTarget>>, ids: Seq<u64>)
    requires
        layer.wf(),
        targets.len() == ids.len(),
        staging(layer, targets, ids) is Ok,
    ensures
        ({
            let after = staging(layer, targets, ids).unwrap();
            let records = staged_records(targets, ids);
            &&& after.swapchains.dom() == layer.swapchains.dom()
            &&& after.surfaces == layer.surfaces
            &&& after.retired == layer.retired
            &&& after.recreating == layer.recreating
            &&& after.next_logical == layer.next_logical
            &&& forall|handle: Handle|
                layer.swapchains.contains_key(handle) && (forall|i: int|
                    0 <= i < records.len() ==> (#[trigger] records[i]).0 != handle)
                    ==> #[trigger] after.swapchains[handle] == layer.swapchains[handle]
            &&& forall|i: int|
                0 <= i < records.len() ==> {
                    let (handle, reservation) = #[trigger] records[i];
                    &&& layer.swapchains.contains_key(handle)
                    &&& layer.swapchains[handle].present_ids.pending is None
                    &&& after.swapchains[handle] == SwapchainModel {
                        present_ids: HistoryModel {
                            pending: Some(reservation),
                            ..layer.swapchains[handle].present_ids
                        },
                        ..layer.swapchains[handle]
                    }
                }
            &&& forall|i: int, j: int|
                0 <= i < j < records.len() ==> (#[trigger] records[i]).0 != (
                #[trigger] records[j]).0
        }),
    decreases targets.len(),
{
    if targets.len() > 0 {
        let before = staging(layer, targets.drop_last(), ids.drop_last()).unwrap();
        let after = staging(layer, targets, ids).unwrap();
        let earlier = staged_records(targets.drop_last(), ids.drop_last());
        let records = staged_records(targets, ids);
        lemma_staging(layer, targets.drop_last(), ids.drop_last());
        if let Some(target) = targets.last() {
            let handle = target.swapchain;
            assert(before.swapchains.dom().contains(handle));
            assert(layer.swapchains.dom().contains(handle));
            assert(after.swapchains.dom() =~= layer.swapchains.dom());
            assert forall|i: int| 0 <= i < earlier.len() implies (#[trigger] earlier[i]).0
                != handle by {}
            assert(before.swapchains[handle] == layer.swapchains[handle]);
            assert forall|i: int| 0 <= i < records.len() implies ({
                let (other, reservation) = #[trigger] records[i];
                &&& layer.swapchains.contains_key(other)
                &&& layer.swapchains[other].present_ids.pending is None
                &&& after.swapchains[other] == SwapchainModel {
                    present_ids: HistoryModel {
                        pending: Some(reservation),
                        ..layer.swapchains[other].present_ids
                    },
                    ..layer.swapchains[other]
                }
            }) by {
                if i < earlier.len() {
                    assert(records[i] == earlier[i]);
                }
            }
            assert forall|other: Handle|
                layer.swapchains.contains_key(other) && (forall|i: int|
                    0 <= i < records.len() ==> (#[trigger] records[i]).0
                        != other) implies #[trigger] after.swapchains[other]
                == layer.swapchains[other] by {
                assert(records[records.len() - 1].0 == handle);
                assert forall|i: int| 0 <= i < earlier.len() implies (#[trigger] earlier[i]).0
                    != other by {
                    assert(records[i] == earlier[i]);
                }
            }
            assert forall|i: int, j: int| 0 <= i < j < records.len() implies (
            #[trigger] records[i]).0 != (#[trigger] records[j]).0 by {
                assert(records[i] == earlier[i]);
                if j < earlier.len() {
                    assert(records[j] == earlier[j]);
                }
            }
        }
    }
}

/// Giving reservations back, as far as `count` of them.
proof fn lemma_unstaging(
    layer: LayerModel,
    after: LayerModel,
    records: Seq<(Handle, ReservationModel)>,
    count: int,
)
    requires
        0 <= count <= records.len(),
        after.swapchains.dom() == layer.swapchains.dom(),
        forall|i: int|
            0 <= i < records.len() ==> {
                let (handle, reservation) = #[trigger] records[i];
                &&& layer.swapchains.contains_key(handle)
                &&& layer.swapchains[handle].present_ids.pending is None
                &&& after.swapchains[handle] == SwapchainModel {
                    present_ids: HistoryModel {
                        pending: Some(reservation),
                        ..layer.swapchains[handle].present_ids
                    },
                    ..layer.swapchains[handle]
                }
            },
        forall|i: int, j: int|
            0 <= i < j < records.len() ==> (#[trigger] records[i]).0 != (#[trigger] records[j]).0,
    ensures
        ({
            let now = unstaged(after, records.take(count));
            &&& now.swapchains.dom() == layer.swapchains.dom()
            &&& now.surfaces == after.surfaces
            &&& now.retired == after.retired
            &&& now.recreating == after.recreating
            &&& now.next_logical == after.next_logical
            &&& forall|i: int|
                0 <= i < records.len() ==> now.swapchains[(#[trigger] records[i]).0] == (if i
                    < count {
                    layer.swapchains[records[i].0]
                } else {
                    after.swapchains[records[i].0]
                })
            &&& forall|handle: Handle|
                (forall|i: int| 0 <= i < records.len() ==> (#[trigger] records[i]).0 != handle)
                    ==> #[trigger] now.swapchains[handle] == after.swapchains[handle]
        }),
    decreases count,
{
    if count > 0 {
        lemma_unstaging(layer, after, records, count - 1);
        let before = unstaged(after, records.take(count - 1));
        let now = unstaged(after, records.take(count));
        assert(records.take(count).drop_last() =~= records.take(count - 1));
        let (handle, reservation) = records[count - 1];
        assert(records.take(count).last() == records[count - 1]);
        assert(before.swapchains[handle] == after.swapchains[handle]);
        assert(layer.swapchains.dom().contains(handle));
        assert(before.swapchains.dom().contains(handle));
        assert(now.swapchains.dom() =~= layer.swapchains.dom());
        assert(now.swapchains[handle] == layer.swapchains[handle]);
        assert forall|i: int| 0 <= i < records.len() implies now.swapchains[(
        #[trigger] records[i]).0] == (if i < count {
            layer.swapchains[records[i].0]
        } else {
            after.swapchains[records[i].0]
        }) by {
            if i < count - 1 {
                assert(records[i].0 != records[count - 1].0);
            } else if i > count - 1 {
                assert(records[count - 1].0 != records[i].0);
            }
        }
        assert forall|other: Handle|
            (forall|i: int| 0 <= i < records.len() ==> (#[trigger] records[i]).0
                != other) implies #[trigger] now.swapchains[other] == after.swapchains[other] by {
            assert(records[count - 1].0 != other);
        }
    } else {
        assert(records.take(0) =~= Seq::empty());
    }
}

/// A present that fails leaves no trace of its identifiers: giving back what
/// was staged leaves the layer as it was.
pub proof fn giving_back_undoes_staging(
    layer: LayerModel,
    targets: Seq<Option<PresentIdTarget>>,
    ids: Seq<u64>,
)
    requires
        layer.wf(),
        targets.len() == ids.len(),
        staging(layer, targets, ids) is Ok,
    ensures
        unstaged(
            staging(layer, targets, ids).unwrap(),
            staged_records(targets, ids),
        ) == layer,
{
    let after = staging(layer, targets, ids).unwrap();
    let records = staged_records(targets, ids);
    lemma_staging(layer, targets, ids);
    lemma_unstaging(layer, after, records, records.len() as int);
    assert(records.take(records.len() as int) =~= records);
    let now = unstaged(after, records);
    assert forall|handle: Handle| #[trigger] layer.swapchains.contains_key(
        handle,
    ) implies now.swapchains[handle] == layer.swapchains[handle] by {
        if exists|i: int| 0 <= i < records.len() && (#[trigger] records[i]).0 == handle {
            let i = choose|i: int| 0 <= i < records.len() && (#[trigger] records[i]).0 == handle;
            assert(now.swapchains[records[i].0] == layer.swapchains[handle]);
        }
    }
    assert(now.swapchains =~= layer.swapchains);
    assert(now =~= layer);
}

/// What staging the identifiers of a present is refused with.
pub open spec fn staging_result(
    layer: LayerModel,
    swapchain_count: u32,
    targets: Seq<Option<PresentIdTarget>>,
    ids: Seq<u64>,
) -> Result<LayerModel, VkResult> {
    if ids.len() == 0 {
        Ok(layer)
    } else if ids.len() != targets.len() || ids.len() != swapchain_count {
        Err(ERROR_FEATURE_NOT_PRESENT)
    } else {
        staging(layer, targets, ids)
    }
}

/// Stages the identifiers of a present with its virtual swapchains: all of
/// them, or none.
pub fn stage_present_ids(
    layer: &mut Layer,
    swapchain_count: u32,
    chain: &PresentChain,
    translation: &mut PresentTranslation,
) -> (result: Result<(), VkResult>)
    requires
        old(layer).wf(),
        old(translation).present_ids@.len() == 0,
    ensures
        final(layer).wf(),
        ({
            let ids = listed(chain.ids);
            let targets = old(translation).present_targets@;
            match staging_result(old(layer)@, swapchain_count, targets, ids) {
                Ok(after) => {
                    &&& result is Ok
                    &&& final(layer)@ == after
                    &&& record_models(final(translation).present_ids@) == (if ids.len() == 0 {
                        Seq::empty()
                    } else {
                        staged_records(targets, ids)
                    })
                    &&& *final(translation) == (PresentTranslation {
                        present_ids: final(translation).present_ids,
                        ..*old(translation)
                    })
                },
                Err(error) => {
                    &&& result == Err::<(), VkResult>(error)
                    &&& final(layer)@ == old(layer)@
                    &&& *final(translation) == *old(translation)
                },
            }
        }),
{
    let ghost entry = layer@;
    let ids: Vec<u64> = chain.ids_slice();
    if ids.len() == 0 {
        assert(record_models(translation.present_ids@) =~= Seq::empty());
        return Ok(());
    }
    if ids.len() != translation.present_targets.len() || swapchain_count as usize != ids.len() {
        return Err(ERROR_FEATURE_NOT_PRESENT);
    }
    let ghost targets = translation.present_targets@;
    let mut staged: Vec<PresentIdReservationRecord> = Vec::new();
    let mut at: usize = 0;
    assert(record_models(staged@) =~= staged_records(targets.take(0), ids@.take(0)));
    while at < ids.len()
        invariant
            layer.wf(),
            entry.wf(),
            entry == old(layer)@,
            *translation == *old(translation),
            targets == translation.present_targets@,
            targets.len() == ids@.len(),
            swapchain_count == ids@.len(),
            ids@ == listed(chain.ids),
            ids@.len() > 0,
            at <= ids@.len(),
            staging(entry, targets.take(at as int), ids@.take(at as int)) == Ok::<
                LayerModel,
                VkResult,
            >(layer@),
            record_models(staged@) == staged_records(
                targets.take(at as int),
                ids@.take(at as int),
            ),
        decreases ids@.len() - at,
    {
        let ghost before = layer@;
        proof {
            assert(targets.take(at + 1).drop_last() =~= targets.take(at as int));
            assert(ids@.take(at + 1).drop_last() =~= ids@.take(at as int));
            assert(targets.take(at + 1).last() == targets[at as int]);
            assert(ids@.take(at + 1).last() == ids@[at as int]);
        }
        if let Some(target) = translation.present_targets[at] {
            let one: Vec<u64> = vec![ids[at]];
            assert(one@ =~= seq![ids@[at as int]]);
            let outcome: Result<PresentIdReservation, VkResult> = match layer.swapchains.find(
                target.swapchain,
            ) {
                None => Err(ERROR_OUT_OF_DATE_KHR),
                Some(place) => {
                    let ghost table = layer.swapchains;
                    proof {
                        table.lemma_at(place as int);
                        assert(before.swapchains.contains_key(target.swapchain));
                        assert(before.swapchains[target.swapchain]
                            == table.value_seq()[place as int]@);
                    }
                    let state: &mut SwapchainState = layer.swapchains.at_mut(place);
                    let outcome: Result<PresentIdReservation, VkResult> =
                        if state.lifecycle.blocks_frame_operations() || state.generation
                        != target.generation || state.physical_handle != target.physical {
                        Err(ERROR_OUT_OF_DATE_KHR)
                    } else {
                        match state.present_ids.stage(
                            target.generation,
                            target.physical,
                            one.as_slice(),
                        ) {
                            Ok(reservation) => Ok(reservation),
                            Err(_) => Err(ERROR_FEATURE_NOT_PRESENT),
                        }
                    };
                    proof {
                        lemma_set_swapchain(table, layer.swapchains, place as int);
                        if outcome is Err {
                            assert(layer@ =~= before);
                        }
                    }
                    outcome
                },
            };
            match outcome {
                Err(error) => {
                    proof {
                        assert(staged_one(before, target, ids@[at as int]) == Err::<
                            LayerModel,
                            VkResult,
                        >(error));
                        assert(staging(entry, targets.take(at + 1), ids@.take(at + 1)) == Err::<
                            LayerModel,
                            VkResult,
                        >(error));
                        lemma_refusal_stays(entry, targets, ids@, at + 1);
                        giving_back_undoes_staging(
                            entry,
                            targets.take(at as int),
                            ids@.take(at as int),
                        );
                    }
                    rollback_present_ids(layer, staged.as_slice());
                    return Err(error);
                },
                Ok(reservation) => {
                    let ghost earlier = record_models(staged@);
                    assert(layer@ =~= staged_one(before, target, ids@[at as int]).unwrap());
                    staged.push(
                        PresentIdReservationRecord { swapchain: target.swapchain, reservation },
                    );
                    assert(record_models(staged@) =~= earlier.push(
                        (target.swapchain, reservation_of(target, ids@[at as int])),
                    ));
                },
            }
        }
        at = at + 1;
    }
    assert(targets.take(at as int) =~= targets);
    assert(ids@.take(at as int) =~= ids@);
    translation.present_ids = staged;
    Ok(())
}

/// What stops the staging of the first identifiers stops it for all.
proof fn lemma_refusal_stays(
    layer: LayerModel,
    targets: Seq<Option<PresentIdTarget>>,
    ids: Seq<u64>,
    count: int,
)
    requires
        0 <= count <= targets.len(),
        targets.len() == ids.len(),
        staging(layer, targets.take(count), ids.take(count)) is Err,
    ensures
        staging(layer, targets, ids) == staging(layer, targets.take(count), ids.take(count)),
    decreases targets.len() - count,
{
    if count < targets.len() {
        assert(targets.take(count + 1).drop_last() =~= targets.take(count));
        assert(ids.take(count + 1).drop_last() =~= ids.take(count));
        lemma_refusal_stays(layer, targets, ids, count + 1);
    } else {
        assert(targets.take(count) =~= targets);
        assert(ids.take(count) =~= ids);
    }
}

/// The layer after the slots of a present went back to their swapchains.
pub open spec fn images_released(layer: LayerModel, releases: Seq<(Handle, u32)>) -> LayerModel
    decreases releases.len(),
{
    if releases.len() == 0 {
        layer
    } else {
        let before = images_released(layer, releases.drop_last());
        let (swapchain, slot) = releases.last();
        let state = before.swapchains[swapchain];
        if before.swapchains.contains_key(swapchain) && state.mapping is Some
            && state.mapping.unwrap().image(slot as int) is Some {
            before.with_swapchain(
                swapchain,
                with_mapping(state, state.mapping.unwrap().unbind(slot as int)),
            )
        } else {
            before
        }
    }
}

/// Gives the presented slots back to their swapchains.
pub fn release_presented_images(layer: &mut Layer, translation: &PresentTranslation)
    requires
        old(layer).wf(),
    ensures
        final(layer).wf(),
        final(layer)@ == images_released(old(layer)@, translation.releases@),
{
    let ghost entry = layer@;
    let ghost releases = translation.releases@;
    let mut at: usize = 0;
    assert(releases.take(0) =~= Seq::empty());
    while at < translation.releases.len()
        invariant
            layer.wf(),
            at <= releases.len(),
            releases == translation.releases@,
            layer@ == images_released(entry, releases.take(at as int)),
        decreases releases.len() - at,
    {
        let (handle, slot) = translation.releases[at];
        let ghost before = layer@;
        assert(releases.take(at + 1).drop_last() =~= releases.take(at as int));
        assert(releases.take(at + 1).last() == (handle, slot));
        if let Some(place) = layer.swapchains.find(handle) {
            let ghost table = layer.swapchains;
            proof {
                table.lemma_at(place as int);
                assert(before.swapchains.contains_key(handle));
                assert(before.swapchains[handle] == table.value_seq()[place as int]@);
            }
            let state: &mut SwapchainState = layer.swapchains.at_mut(place);
            if let Some(mapping) = &mut state.mapping {
                let _ = mapping.present(slot);
            }
            proof {
                lemma_set_swapchain(table, layer.swapchains, place as int);
                assert(layer@ =~= images_released(entry, releases.take(at + 1)));
            }
        }
        at = at + 1;
    }
    assert(releases.take(at as int) =~= releases);
}

/// Only a present that went through without reservation lets the native
/// output be published next; after any other the application may recreate.
pub fn should_retry_native_publication(result: VkResult) -> (retry: bool)
    ensures
        retry == (result == SUCCESS),
{
    result == SUCCESS
}

/// The present took place.
pub open spec fn took_place(result: VkResult) -> bool {
    result == SUCCESS || result == SUBOPTIMAL_KHR
}

pub fn present_committed(result: VkResult) -> (committed: bool)
    ensures
        committed == took_place(result),
{
    result == SUCCESS || result == SUBOPTIMAL_KHR
}

/// The array behind a pointer, if there is one.
pub open spec fn array_of<T>(list: Option<Vec<T>>) -> Option<Seq<T>> {
    match list {
        Some(items) => Some(items@),
        None => None,
    }
}

fn copy_array<T: Copy>(list: &Option<Vec<T>>) -> (copy: Option<Vec<T>>)
    ensures
        array_of(copy) == array_of(*list),
{
    match list {
        Some(items) => Some(copy_slice(items.as_slice())),
        None => None,
    }
}

/// The semaphores that a present waits for: once an overlay was drawn, only
/// the one that says that it is done. Otherwise they go down as they came, with
/// their number.
pub fn with_overlay_wait(info: &PresentInfo, overlay_wait: Option<Handle>) -> (waits: (
    u32,
    Option<Vec<Handle>>,
))
    ensures
        match overlay_wait {
            Some(semaphore) => waits.0 == 1 && array_of(waits.1) == Some(seq![semaphore]),
            None => waits.0 == info.wait_semaphore_count && array_of(waits.1) == array_of(
                info.wait_semaphores,
            ),
        },
{
    match overlay_wait {
        Some(semaphore) => {
            let waited: Vec<Handle> = vec![semaphore];
            assert(waited@ =~= seq![semaphore]);
            (1, Some(waited))
        },
        None => (info.wait_semaphore_count, copy_array(&info.wait_semaphores)),
    }
}

/// The surfaces of the presented swapchains that are not being replaced.
pub open spec fn observed_surfaces(layer: LayerModel, presented: Seq<Handle>) -> Seq<Handle>
    decreases presented.len(),
{
    if presented.len() == 0 {
        Seq::empty()
    } else {
        let before = observed_surfaces(layer, presented.drop_last());
        let swapchain = presented.last();
        if layer.swapchains.contains_key(swapchain) && !layer.reconfiguring(swapchain) {
            before.push(layer.swapchains[swapchain].game_surface)
        } else {
            before
        }
    }
}

/// The surfaces to look at around a present.
pub fn surfaces_to_observe(layer: &Layer, info: &PresentInfo) -> (surfaces: Vec<Handle>)
    requires
        layer.wf(),
    ensures
        surfaces@ == observed_surfaces(layer@, info.presented()),
{
    let presented: Vec<Handle> = info.presented_list();
    let mut surfaces: Vec<Handle> = Vec::new();
    let mut at: usize = 0;
    assert(presented@.take(0) =~= Seq::empty());
    while at < presented.len()
        invariant
            layer.wf(),
            at <= presented@.len(),
            surfaces@ == observed_surfaces(layer@, presented@.take(at as int)),
        decreases presented@.len() - at,
    {
        assert(presented@.take(at + 1).drop_last() =~= presented@.take(at as int));
        assert(presented@.take(at + 1).last() == presented@[at as int]);
        if let Some(state) = layer.swapchains.get(presented[at]) {
            assert(layer@.swapchains[presented@[at as int]] == state@);
            if !state.lifecycle.blocks_frame_operations() {
                surfaces.push(state.game_surface);
            }
        }
        at = at + 1;
    }
    assert(presented@.take(at as int) =~= presented@);
    surfaces
}

/// The swapchain has an output of its own that is not being replaced.
pub open spec fn virtual_output(layer: LayerModel, swapchain: Handle) -> bool {
    &&& layer.swapchains.contains_key(swapchain)
    &&& !layer.reconfiguring(swapchain)
    &&& layer.swapchains[swapchain].contract is Some
}

pub open spec fn any_virtual_output(layer: LayerModel, presented: Seq<Handle>) -> bool {
    exists|i: int| 0 <= i < presented.len() && virtual_output(layer, #[trigger] presented[i])
}

/// Some presented swapchain has an output of its own, so that the structures
/// which extend the present have to be read.
pub fn uses_virtual_output(layer: &Layer, info: &PresentInfo) -> (uses: bool)
    requires
        layer.wf(),
    ensures
        uses == any_virtual_output(layer@, info.presented()),
{
    let presented: Vec<Handle> = info.presented_list();
    let mut at: usize = 0;
    while at < presented.len()
        invariant
            layer.wf(),
            at <= presented@.len(),
            presented@ == info.presented(),
            forall|i: int| 0 <= i < at ==> !virtual_output(layer@, #[trigger] presented@[i]),
        decreases presented@.len() - at,
    {
        if let Some(state) = layer.swapchains.get(presented[at]) {
            assert(layer@.swapchains[presented@[at as int]] == state@);
            if !state.lifecycle.blocks_frame_operations() && state.contract.is_some() {
                assert(virtual_output(layer@, presented@[at as int]));
                return true;
            }
        }
        assert(!virtual_output(layer@, presented@[at as int]));
        at = at + 1;
    }
    false
}

/// A present that is on its way down.
#[derive(Debug)]
pub struct PendingPresent {
    pub translation: Option<PresentTranslation>,
    pub chain: Option<PresentChain>,
}

impl PendingPresent {
    pub open spec fn targets(self) -> Seq<Option<PresentIdTarget>> {
        match self.translation {
            Some(translation) => translation.present_targets@,
            None => Seq::empty(),
        }
    }

    pub open spec fn records(self) -> Seq<(Handle, ReservationModel)> {
        match self.translation {
            Some(translation) => record_models(translation.present_ids@),
            None => Seq::empty(),
        }
    }
}

/// The generations that the presented images go to.
pub open spec fn presented_targets(layer: LayerModel, info: PresentInfo) -> Seq<
    Option<PresentIdTarget>,
> {
    Seq::new(info.presented().len(), |i: int| presented_target(layer, info.presented()[i]))
}

/// Some swapchain of a present is virtual, so that it has to be translated.
pub open spec fn is_translated(layer: LayerModel, info: PresentInfo) -> bool {
    info.swapchain_count != 0 && any_virtual(layer, info.presented())
}

/// The identifiers that a present names, where its structures are read.
pub open spec fn present_ids_of(layer: LayerModel, info: PresentInfo, ids: Seq<u64>) -> bool {
    if any_virtual_output(layer, info.presented()) {
        exists|model: PresentChainModel| #[trigger]
            collects(info.chain@, model) && ids == (match model.ids {
                Some(list) => list,
                None => Seq::empty(),
            })
    } else {
        ids == Seq::<u64>::empty()
    }
}

proof fn lemma_accepted_is_sized(
    nodes: Seq<PresentNode>,
    swapchain_count: u32,
    model: PresentChainModel,
)
    requires
        forall|i: int| 0 <= i < nodes.len() ==> (#[trigger] nodes[i]).wf(),
        chain_accepted(nodes, swapchain_count),
        collects(nodes, model),
    ensures
        model.sized(swapchain_count),
{
    assert forall|i: int| 0 <= i < nodes.len() implies (#[trigger] nodes[i]).count()
        == swapchain_count && !nodes[i].lacks_array() by {
        assert(node_fault(nodes, i, swapchain_count) is None);
        assert(!(nodes[i] is Unknown));
    }
}

/// Takes a present in: it is put in the terms of the driver, the structures
/// that extend it are read where a virtual swapchain needs that, and its
/// identifiers are staged.
pub fn begin_present(layer: &mut Layer, info: &PresentInfo) -> (result: Result<
    PendingPresent,
    VkResult,
>)
    requires
        old(layer).wf(),
        info.wf(),
    ensures
        final(layer).wf(),
        match result {
            Ok(pending) => {
                let before = old(layer)@;
                &&& translation_refusal(before, *info) is None
                &&& pending.translation is Some == is_translated(before, *info)
                &&& pending.translation matches Some(translation) ==> translates(
                    before,
                    info.presented(),
                    info.indices(),
                    translation,
                )
                &&& pending.chain is Some == any_virtual_output(before, info.presented())
                &&& pending.chain matches Some(chain) ==> {
                    &&& chain_accepted(info.chain@, info.swapchain_count)
                    &&& collects(info.chain@, chain@)
                    &&& chain@.sized(info.swapchain_count)
                }
                &&& if pending.chain is Some && pending.translation is Some {
                    let ids = listed(pending.chain.unwrap().ids);
                    let targets = pending.targets();
                    &&& staging_result(before, info.swapchain_count, targets, ids) == Ok::<
                        LayerModel,
                        VkResult,
                    >(final(layer)@)
                    &&& pending.records() == (if ids.len() == 0 {
                        Seq::empty()
                    } else {
                        staged_records(targets, ids)
                    })
                } else {
                    final(layer)@ == before && pending.records().len() == 0
                }
            },
            Err(error) => {
                let before = old(layer)@;
                &&& final(layer)@ == before
                &&& match translation_refusal(before, *info) {
                    Some(refused) => error == refused,
                    None => {
                        &&& any_virtual_output(before, info.presented())
                        &&& if !chain_accepted(info.chain@, info.swapchain_count) {
                            error == ERROR_FEATURE_NOT_PRESENT
                        } else {
                            &&& is_translated(before, *info)
                            &&& exists|ids: Seq<u64>| #[trigger]
                                present_ids_of(before, *info, ids) && staging_result(
                                    before,
                                    info.swapchain_count,
                                    presented_targets(before, *info),
                                    ids,
                                ) == Err::<LayerModel, VkResult>(error)
                        }
                    },
                }
            },
        },
{
    let ghost before = layer@;
    let mut translation: Option<PresentTranslation> = match translate_present(layer, info) {
        Ok(translation) => translation,
        Err(error) => {
            return Err(error);
        },
    };
    let mut chain: Option<PresentChain> = None;
    if uses_virtual_output(layer, info) {
        match PresentChain::parse(info.chain.as_slice(), info.swapchain_count) {
            Ok(parsed) => {
                proof {
                    lemma_accepted_is_sized(info.chain@, info.swapchain_count, parsed@);
                }
                chain = Some(parsed);
            },
            Err(_) => {
                return Err(ERROR_FEATURE_NOT_PRESENT);
            },
        }
    }
    if let Some(translation) = &mut translation {
        if let Some(chain) = &chain {
            assert(translation.present_targets@ == presented_targets(before, *info));
            if let Err(error) = stage_present_ids(
                layer,
                info.swapchain_count,
                chain,
                translation,
            ) {
                proof {
                    let ids = listed(chain.ids);
                    assert(collects(info.chain@, chain@));
                    assert(present_ids_of(before, *info, ids));
                }
                return Err(error);
            }
        }
    }
    Ok(PendingPresent { translation, chain })
}

/// The request that goes down in place of the application's, for as many
/// swapchains. Without structures of its own, the application's chain goes along
/// as it is.
#[derive(Debug)]
pub struct PresentRequest {
    pub swapchains: Option<Vec<Handle>>,
    pub image_indices: Option<Vec<u32>>,
    pub wait_semaphore_count: u32,
    pub wait_semaphores: Option<Vec<Handle>>,
    pub chain: Option<Vec<PresentNode>>,
}

/// The request for the driver; `None` where the application's own goes down
/// unchanged, because nothing was drawn and no swapchain is virtual.
pub fn present_request(
    info: &PresentInfo,
    pending: &PendingPresent,
    overlay_wait: Option<Handle>,
    mapped_regions: Option<&MappedPresentRegions>,
) -> (request: Option<PresentRequest>)
    requires
        pending.chain matches Some(chain) ==> chain@.sized(info.swapchain_count),
    ensures
        request is None == (overlay_wait is None && pending.translation is None),
        match request {
            Some(request) => {
                &&& array_of(request.swapchains) == (match pending.translation {
                    Some(translation) => Some(translation.swapchains@),
                    None => array_of(info.swapchains),
                })
                &&& array_of(request.image_indices) == (match pending.translation {
                    Some(translation) => Some(translation.image_indices@),
                    None => array_of(info.image_indices),
                })
                &&& request.wait_semaphore_count == (match overlay_wait {
                    Some(_) => 1,
                    None => info.wait_semaphore_count,
                })
                &&& array_of(request.wait_semaphores) == (match overlay_wait {
                    Some(semaphore) => Some(seq![semaphore]),
                    None => array_of(info.wait_semaphores),
                })
                &&& match (pending.chain, request.chain) {
                    (Some(chain), Some(nodes)) => node_models(nodes@) == rebuilt(
                        with_mapped(
                            chain@,
                            match mapped_regions {
                                Some(mapped) => Some(mapped@),
                                None => None,
                            },
                        ),
                        info.swapchain_count,
                    ),
                    (None, None) => true,
                    _ => false,
                }
            },
            None => true,
        },
{
    if overlay_wait.is_none() && pending.translation.is_none() {
        return None;
    }
    let (wait_semaphore_count, wait_semaphores): (u32, Option<Vec<Handle>>) = with_overlay_wait(
        info,
        overlay_wait,
    );
    let swapchains: Option<Vec<Handle>> = match &pending.translation {
        Some(translation) => Some(copy_slice(translation.swapchains.as_slice())),
        None => copy_array(&info.swapchains),
    };
    let image_indices: Option<Vec<u32>> = match &pending.translation {
        Some(translation) => Some(copy_slice(translation.image_indices.as_slice())),
        None => copy_array(&info.image_indices),
    };
    let chain: Option<Vec<PresentNode>> = match &pending.chain {
        Some(chain) => Some(chain.rebuilt_nodes(info.swapchain_count, mapped_regions)),
        None => None,
    };
    Some(
        PresentRequest {
            swapchains,
            image_indices,
            wait_semaphore_count,
            wait_semaphores,
            chain,
        },
    )
}

/// Whether changed rectangles of a swapchain are in other coordinates than
/// those of its output: it has images of its own and an overlay that scales.
pub open spec fn scales_damage(layer: LayerModel, swapchain: Handle) -> bool {
    &&& layer.swapchains.contains_key(swapchain)
    &&& layer.swapchains[swapchain].virtual_images is Some
    &&& layer.swapchains[swapchain].has_overlay
}

pub fn is_damage_scaled(layer: &Layer, swapchain: Handle) -> (scaled: bool)
    requires
        layer.wf(),
    ensures
        scaled == scales_damage(layer@, swapchain),
{
    match layer.swapchains.get(swapchain) {
        Some(state) => {
            assert(layer@.swapchains[swapchain] == state@);
            state.virtual_images.is_some() && state.has_overlay
        },
        None => false,
    }
}

/// The rectangles of one image where the overlay put them, in the layers that
/// the application named.
pub open spec fn rectangles_moved(source: Seq<RectLayer>, scaled: Seq<RectLayer>) -> Seq<
    RectLayer,
> {
    Seq::new(
        source.len(),
        |j: int|
            RectLayer {
                offset: scaled[j].offset,
                extent: scaled[j].extent,
                layer: source[j].layer,
            },
    )
}

/// The changed rectangles of every image in the coordinates of its output.
pub open spec fn regions_moved(
    layer: LayerModel,
    presented: Seq<Handle>,
    source: Seq<Seq<RectLayer>>,
    scaled: Seq<Seq<RectLayer>>,
) -> Seq<Seq<RectLayer>> {
    Seq::new(
        presented.len(),
        |i: int|
            if scales_damage(layer, presented[i]) {
                rectangles_moved(source[i], scaled[i])
            } else {
                source[i]
            },
    )
}

fn move_rectangles(source: &[RectLayer], scaled: &[RectLayer]) -> (moved: Vec<RectLayer>)
    requires
        source@.len() == scaled@.len(),
    ensures
        moved@ == rectangles_moved(source@, scaled@),
{
    let mut moved: Vec<RectLayer> = Vec::new();
    let mut at: usize = 0;
    while at < source.len()
        invariant
            source@.len() == scaled@.len(),
            at <= source@.len(),
            moved@.len() == at,
            forall|j: int| 0 <= j < at ==> moved@[j] == rectangles_moved(source@, scaled@)[j],
        decreases source@.len() - at,
    {
        moved.push(
            RectLayer {
                offset: scaled[at].offset,
                extent: scaled[at].extent,
                layer: source[at].layer,
            },
        );
        at = at + 1;
    }
    assert(moved@ =~= rectangles_moved(source@, scaled@));
    moved
}

/// The changed rectangles that go down. `scaled` holds what the overlay of
/// each scaling swapchain made of its rectangles.
pub fn map_present_regions(
    layer: &Layer,
    info: &PresentInfo,
    chain: &PresentChain,
    scaled: &[Vec<RectLayer>],
) -> (mapped: Option<MappedPresentRegions>)
    requires
        layer.wf(),
        chain@.regions matches Some(source) ==> forall|i: int|
            0 <= i < source.len() && i < info.presented().len() && scales_damage(
                layer@,
                #[trigger] info.presented()[i],
            ) ==> i < scaled@.len() && scaled@[i]@.len() == source[i].len(),
    ensures
        match mapped {
            Some(mapped) => {
                &&& chain@.regions matches Some(source)
                &&& if info.swapchain_count == 0 || info.swapchains is None {
                    mapped@ == Seq::<Seq<RectLayer>>::empty()
                } else {
                    &&& source.len() == info.presented().len()
                    &&& mapped@ == regions_moved(
                        layer@,
                        info.presented(),
                        source,
                        nested(scaled@),
                    )
                }
            },
            None => match chain@.regions {
                None => true,
                Some(source) => info.swapchain_count != 0 && info.swapchains is Some
                    && source.len() != info.presented().len(),
            },
        },
{
    let lists: &Vec<Vec<RectLayer>> = match &chain.regions {
        None => {
            return None;
        },
        Some(lists) => lists,
    };
    let mut moved: Vec<Vec<RectLayer>> = Vec::new();
    assert(nested(moved@) =~= Seq::<Seq<RectLayer>>::empty());
    if info.swapchain_count == 0 {
        return Some(MappedPresentRegions::from_rectangles(moved));
    }
    let presented: &Vec<Handle> = match &info.swapchains {
        None => {
            return Some(MappedPresentRegions::from_rectangles(moved));
        },
        Some(presented) => presented,
    };
    if lists.len() != presented.len() {
        return None;
    }
    assert forall|i: int|
        0 <= i < presented@.len() && scales_damage(layer@, #[trigger] presented@[i]) implies i
        < scaled@.len() && scaled@[i]@.len() == lists@[i]@.len() by {
        assert(info.presented()[i] == presented@[i]);
        assert(nested(lists@)[i] == lists@[i]@);
    }
    let mut at: usize = 0;
    while at < presented.len()
        invariant
            layer.wf(),
            info.swapchains == Some(*presented),
            chain.regions == Some(*lists),
            lists@.len() == presented@.len(),
            at <= presented@.len(),
            moved@.len() == at,
            forall|i: int|
                0 <= i < presented@.len() && scales_damage(layer@, #[trigger] presented@[i])
                    ==> i < scaled@.len() && scaled@[i]@.len() == lists@[i]@.len(),
            forall|i: int|
                0 <= i < at ==> (#[trigger] moved@[i])@ == regions_moved(
                    layer@,
                    presented@,
                    nested(lists@),
                    nested(scaled@),
                )[i],
        decreases presented@.len() - at,
    {
        if is_damage_scaled(layer, presented[at]) {
            assert(scales_damage(layer@, presented@[at as int]));
            moved.push(move_rectangles(lists[at].as_slice(), scaled[at].as_slice()));
        } else {
            moved.push(copy_slice(lists[at].as_slice()));
        }
        at = at + 1;
    }
    assert(nested(moved@) =~= regions_moved(
        layer@,
        presented@,
        nested(lists@),
        nested(scaled@),
    ));
    Some(MappedPresentRegions::from_rectangles(moved))
}

/// A presented swapchain whose first present with fences or modes was noted.
pub open spec fn unreported(layer: LayerModel, swapchain: Handle) -> bool {
    &&& layer.swapchains.contains_key(swapchain)
    &&& layer.swapchains[swapchain].mapping is Some
    &&& !layer.swapchains[swapchain].maintenance_present_reported
}

/// Notes the first virtual swapchain of a present with fences or modes for
/// which that was not noted before.
pub fn report_maintenance_present(
    layer: &mut Layer,
    info: &PresentInfo,
    fence_count: usize,
    mode_count: usize,
) -> (reported: Option<Handle>)
    requires
        old(layer).wf(),
    ensures
        final(layer).wf(),
        match reported {
            Some(swapchain) => {
                &&& fence_count != 0 || mode_count != 0
                &&& unreported(old(layer)@, swapchain)
                &&& exists|i: int|
                    {
                        &&& 0 <= i < info.presented().len()
                        &&& #[trigger] info.presented()[i] == swapchain
                        &&& forall|j: int|
                            0 <= j < i ==> !unreported(
                                old(layer)@,
                                #[trigger] info.presented()[j],
                            )
                    }
                &&& final(layer)@ == old(layer)@.with_swapchain(
                    swapchain,
                    SwapchainModel {
                        maintenance_present_reported: true,
                        ..old(layer)@.swapchains[swapchain]
                    },
                )
            },
            None => {
                &&& final(layer)@ == old(layer)@
                &&& fence_count == 0 && mode_count == 0 || forall|i: int|
                    0 <= i < info.presented().len() ==> !unreported(
                        old(layer)@,
                        #[trigger] info.presented()[i],
                    )
            },
        },
{
    let ghost before = layer@;
    if fence_count == 0 && mode_count == 0 {
        return None;
    }
    let presented: Vec<Handle> = info.presented_list();
    let mut at: usize = 0;
    while at < presented.len()
        invariant
            layer.wf(),
            layer@ == before,
            before == old(layer)@,
            presented@ == info.presented(),
            fence_count != 0 || mode_count != 0,
            at <= presented@.len(),
            forall|j: int| 0 <= j < at ==> !unreported(before, #[trigger] presented@[j]),
        decreases presented@.len() - at,
    {
        let handle: Handle = presented[at];
        if let Some(place) = layer.swapchains.find(handle) {
            let ghost table = layer.swapchains;
            proof {
                table.lemma_at(place as int);
                assert(before.swapchains.contains_key(handle));
                assert(before.swapchains[handle] == table.value_seq()[place as int]@);
            }
            let state: &SwapchainState = layer.swapchains.at(place);
            if state.mapping.is_some() && !state.maintenance_present_reported {
                let state: &mut SwapchainState = layer.swapchains.at_mut(place);
                state.maintenance_present_reported = true;
                proof {
                    lemma_set_swapchain(table, layer.swapchains, place as int);
                    assert(info.presented()[at as int] == handle);
                    assert(layer@ =~= before.with_swapchain(
                        handle,
                        SwapchainModel {
                            maintenance_present_reported: true,
                            ..before.swapchains[handle]
                        },
                    ));
                }
                return Some(handle);
            }
        }
        assert(!unreported(before, presented@[at as int]));
        at = at + 1;
    }
    None
}

/// The queue family can draw and compute.
pub const OVERLAY_QUEUE_FLAGS: u32 = 0x3;

/// A frame to draw over a presented image.
#[derive(Debug, Clone, Copy, PartialEq, Eq, Structural)]
pub struct FramePlan {
    pub swapchain: Handle,
    pub logical_index: u32,
    pub physical_index: u32,
    /// The image is only scaled, without what earlier frames tell.
    pub spatial: bool,
}

/// The frame of one presented image: none where the swapchain is unknown, of
/// another device, being replaced or without an overlay, and none where the
/// image is not of its current generation.
pub open spec fn frame_of(
    layer: LayerModel,
    device: Handle,
    swapchain: Handle,
    index: u32,
) -> Option<FramePlan> {
    let state = layer.swapchains[swapchain];
    let physical_index = match state.mapping {
        Some(mapping) => match mapping.image(index as int) {
            Some(image) => image,
            None => index,
        },
        None => index,
    };
    if !layer.swapchains.contains_key(swapchain) || state.device != device || state.blocked()
        || !state.has_overlay || (state.contract is Some && !state.contract.unwrap().binds(
        FrameBinding { logical_index: index, physical_index },
    )) {
        None
    } else {
        Some(
            FramePlan {
                swapchain,
                logical_index: index,
                physical_index,
                spatial: state.contract is Some && path_of(state.contract.unwrap().state)
                    != PresentationPath::Temporal,
            },
        )
    }
}

/// The frames of a present, in its order.
pub open spec fn frames_of(
    layer: LayerModel,
    device: Handle,
    swapchains: Seq<Handle>,
    indices: Seq<u32>,
) -> Seq<FramePlan>
    decreases swapchains.len(),
{
    if swapchains.len() == 0 {
        Seq::empty()
    } else {
        let before = frames_of(layer, device, swapchains.drop_last(), indices.drop_last());
        match frame_of(layer, device, swapchains.last(), indices.last()) {
            Some(frame) => before.push(frame),
            None => before,
        }
    }
}

/// The queue may be drawn on: its family can, and nothing speaks against it.
pub open spec fn queue_draws(devices: DevicesModel, queue: QueueState) -> bool {
    &&& devices.devices.contains_key(queue.device)
    &&& queue.processing_allowed
    &&& queue.family_index < devices.devices[queue.device].queue_families@.len()
    &&& has_flags(
        devices.devices[queue.device].queue_families@[queue.family_index as int],
        OVERLAY_QUEUE_FLAGS,
    )
}

/// The present says what to draw on, and what to wait for.
pub open spec fn drawable(info: PresentInfo) -> bool {
    &&& info.swapchain_count != 0
    &&& info.readable()
    &&& info.wait_semaphore_count == 0 || info.wait_semaphores is Some
}

fn plan_frame(layer: &Layer, device: Handle, swapchain: Handle, index: u32) -> (frame: Option<
    FramePlan,
>)
    requires
        layer.wf(),
    ensures
        frame == frame_of(layer@, device, swapchain, index),
{
    let state: &SwapchainState = match layer.swapchains.get(swapchain) {
        Some(state) => state,
        None => {
            return None;
        },
    };
    assert(layer@.swapchains.contains_key(swapchain));
    assert(layer@.swapchains[swapchain] == state@);
    let physical_index: u32 = match &state.mapping {
        Some(mapping) => match mapping.resolve(index) {
            Some(image) => image,
            None => index,
        },
        None => index,
    };
    if state.device != device || state.lifecycle.blocks_frame_operations() {
        return None;
    }
    let mut spatial: bool = false;
    if let Some(contract) = &state.contract {
        spatial = contract.presentation_path() != PresentationPath::Temporal;
        if contract.bind(FrameBinding::new(index, physical_index)).is_err() {
            return None;
        }
    }
    if !state.has_overlay {
        return None;
    }
    Some(FramePlan { swapchain, logical_index: index, physical_index, spatial })
}

/// The frames of a present that are drawn at all.
pub open spec fn planned_frames(
    layer: LayerModel,
    devices: DevicesModel,
    queue: QueueState,
    info: PresentInfo,
) -> Seq<FramePlan> {
    if drawable(info) && queue_draws(devices, queue) {
        frames_of(layer, queue.device, info.presented(), info.indices())
    } else {
        Seq::empty()
    }
}

/// The frames to draw for a present.
pub fn plan_overlay(
    layer: &Layer,
    devices: &Devices,
    queue: QueueState,
    info: &PresentInfo,
) -> (frames: Vec<FramePlan>)
    requires
        layer.wf(),
        devices.wf(),
        info.wf(),
    ensures
        frames@ == planned_frames(layer@, devices@, queue, *info),
{
    let mut frames: Vec<FramePlan> = Vec::new();
    if info.swapchain_count == 0 || (info.wait_semaphore_count != 0
        && info.wait_semaphores.is_none()) {
        return frames;
    }
    let (presented, indices) = match (&info.swapchains, &info.image_indices) {
        (Some(presented), Some(indices)) => (presented, indices),
        _ => {
            return frames;
        },
    };
    let draws: bool = match devices.devices.get(queue.device) {
        None => false,
        Some(device) => {
            let family: usize = queue.family_index as usize;
            queue.processing_allowed && family < device.queue_families.len() && contains_flags(
                device.queue_families[family],
                OVERLAY_QUEUE_FLAGS,
            )
        },
    };
    if !draws {
        return frames;
    }
    let mut at: usize = 0;
    assert(frames@ =~= frames_of(
        layer@,
        queue.device,
        presented@.take(0),
        indices@.take(0),
    ));
    while at < presented.len()
        invariant
            layer.wf(),
            presented@.len() == indices@.len(),
            at <= presented@.len(),
            frames@ == frames_of(
                layer@,
                queue.device,
                presented@.take(at as int),
                indices@.take(at as int),
            ),
        decreases presented@.len() - at,
    {
        proof {
            assert(presented@.take(at + 1).drop_last() =~= presented@.take(at as int));
            assert(indices@.take(at + 1).drop_last() =~= indices@.take(at as int));
            assert(presented@.take(at + 1).last() == presented@[at as int]);
            assert(indices@.take(at + 1).last() == indices@[at as int]);
        }
        if let Some(frame) = plan_frame(layer, queue.device, presented[at], indices[at]) {
            frames.push(frame);
        }
        at = at + 1;
    }
    assert(presented@.take(at as int) =~= presented@);
    assert(indices@.take(at as int) =~= indices@);
    frames
}

/// The semaphores that a frame waits for: the first frame for those of the
/// present, every later one for the frame before it.
pub fn frame_waits(info: &PresentInfo, previous: Option<Handle>) -> (waits: Vec<Handle>)
    ensures
        waits@ == (match previous {
            Some(semaphore) => seq![semaphore],
            None => listed(info.wait_semaphores),
        }),
{
    match previous {
        Some(semaphore) => {
            let waits: Vec<Handle> = vec![semaphore];
            assert(waits@ =~= seq![semaphore]);
            waits
        },
        None => match &info.wait_semaphores {
            Some(list) => copy_slice(list.as_slice()),
            None => Vec::new(),
        },
    }
}

/// What there is to say of a frame that was submitted.
#[derive(Debug, Clone, Copy, PartialEq, Eq, Structural)]
pub struct FrameReports {
    pub overlay: bool,
    pub input_route: bool,
    pub maintenance: bool,
}

/// What is said of the first frames of a swapchain.
pub open spec fn reports_of(state: SwapchainModel, maintenance: bool) -> FrameReports {
    let overlay = state.is_virtual() && !state.maintenance_overlay_reported;
    FrameReports {
        overlay,
        input_route: state.present_surface is Some && !state.input_route_reported,
        maintenance: maintenance && overlay,
    }
}

/// Notes that a frame was submitted. Each thing is said once of a swapchain.
pub fn frame_submitted(layer: &mut Layer, swapchain: Handle, maintenance: bool) -> (reports:
    FrameReports)
    requires
        old(layer).wf(),
    ensures
        final(layer).wf(),
        if old(layer)@.swapchains.contains_key(swapchain)
            && old(layer)@.swapchains[swapchain].has_overlay {
            let state = old(layer)@.swapchains[swapchain];
            &&& reports == reports_of(state, maintenance)
            &&& final(layer)@ == old(layer)@.with_swapchain(
                swapchain,
                SwapchainModel {
                    maintenance_overlay_reported: state.maintenance_overlay_reported
                        || reports.overlay,
                    input_route_reported: state.input_route_reported || reports.input_route,
                    ..state
                },
            )
        } else {
            &&& reports == FrameReports { overlay: false, input_route: false, maintenance: false }
            &&& final(layer)@ == old(layer)@
        },
{
    let ghost before = layer@;
    let mut reports: FrameReports = FrameReports {
        overlay: false,
        input_route: false,
        maintenance: false,
    };
    if let Some(place) = layer.swapchains.find(swapchain) {
        let ghost table = layer.swapchains;
        proof {
            table.lemma_at(place as int);
            assert(before.swapchains.contains_key(swapchain));
            assert(before.swapchains[swapchain] == table.value_seq()[place as int]@);
        }
        let state: &mut SwapchainState = layer.swapchains.at_mut(place);
        if state.has_overlay {
            let overlay: bool = state.mapping.is_some() && !state.maintenance_overlay_reported;
            let input_route: bool = state.present_surface.is_some() && !state.input_route_reported;
            reports = FrameReports { overlay, input_route, maintenance: maintenance && overlay };
            if overlay {
                state.maintenance_overlay_reported = true;
            }
            if input_route {
                state.input_route_reported = true;
            }
        }
        proof {
            lemma_set_swapchain(table, layer.swapchains, place as int);
            if !before.swapchains[swapchain].has_overlay {
                assert(layer@ =~= before);
            }
        }
    }
    reports
}

/// The presented swapchains that have an overlay.
pub open spec fn overlays_of(layer: LayerModel, presented: Seq<Handle>) -> Seq<Handle>
    decreases presented.len(),
{
    if presented.len() == 0 {
        Seq::empty()
    } else {
        let before = overlays_of(layer, presented.drop_last());
        if layer.swapchains.contains_key(presented.last())
            && layer.swapchains[presented.last()].has_overlay {
            before.push(presented.last())
        } else {
            before
        }
    }
}

/// The overlays to tell of a present that did not go through unreservedly.
pub fn overlays_to_notify(layer: &Layer, info: &PresentInfo, result: VkResult) -> (overlays: Vec<
    Handle,
>)
    requires
        layer.wf(),
    ensures
        overlays@ == (if result != SUCCESS {
            overlays_of(layer@, info.presented())
        } else {
            Seq::empty()
        }),
{
    let mut overlays: Vec<Handle> = Vec::new();
    if result == SUCCESS {
        return overlays;
    }
    let presented: Vec<Handle> = info.presented_list();
    let mut at: usize = 0;
    assert(presented@.take(0) =~= Seq::empty());
    while at < presented.len()
        invariant
            layer.wf(),
            at <= presented@.len(),
            overlays@ == overlays_of(layer@, presented@.take(at as int)),
        decreases presented@.len() - at,
    {
        assert(presented@.take(at + 1).drop_last() =~= presented@.take(at as int));
        assert(presented@.take(at + 1).last() == presented@[at as int]);
        if let Some(state) = layer.swapchains.get(presented[at]) {
            assert(layer@.swapchains[presented@[at as int]] == state@);
            if state.has_overlay {
                overlays.push(presented[at]);
            }
        }
        at = at + 1;
    }
    assert(presented@.take(at as int) =~= presented@);
    overlays
}

/// The layer after a translated present: one that took place has its
/// identifiers made final and its slots given back, any other leaves no trace.
pub open spec fn present_finished(
    layer: LayerModel,
    releases: Seq<(Handle, u32)>,
    records: Seq<(Handle, ReservationModel)>,
    result: VkResult,
) -> LayerModel {
    if took_place(result) {
        images_released(ids_committed(layer, records), releases)
    } else {
        unstaged(layer, records)
    }
}

/// Ends a present with the driver's answer.
pub fn finish_present(layer: &mut Layer, pending: PendingPresent, result: VkResult)
    requires
        old(layer).wf(),
    ensures
        final(layer).wf(),
        final(layer)@ == (match pending.translation {
            Some(translation) => present_finished(
                old(layer)@,
                translation.releases@,
                record_models(translation.present_ids@),
                result,
            ),
            None => old(layer)@,
        }),
{
    let mut pending = pending;
    if let Some(translation) = &mut pending.translation {
        if present_committed(result) {
            commit_present_ids(layer, translation);
            release_presented_images(layer, translation);
        } else {
            rollback_present_ids(layer, translation.present_ids.as_slice());
        }
    }
}

/// A present that the driver refuses leaves the layer as it was: its
/// identifiers can be used again, and its images are still the application's.
pub proof fn a_refused_present_changes_nothing(
    layer: LayerModel,
    releases: Seq<(Handle, u32)>,
    targets: Seq<Option<PresentIdTarget>>,
    ids: Seq<u64>,
    result: VkResult,
)
    requires
        layer.wf(),
        targets.len() == ids.len(),
        staging(layer, targets, ids) is Ok,
        !took_place(result),
    ensures
        present_finished(
            staging(layer, targets, ids).unwrap(),
            releases,
            staged_records(targets, ids),
            result,
        ) == layer,
{
    giving_back_undoes_staging(layer, targets, ids);
}

/// Tokens of the layer never reach the driver in a present: what goes down for
/// a virtual swapchain is its downstream swapchain.
pub proof fn presents_name_downstream_swapchains(
    layer: LayerModel,
    swapchains: Seq<Handle>,
    indices: Seq<u32>,
    translation: PresentTranslation,
    at: int,
)
    requires
        0 <= at < swapchains.len(),
        all_presentable(layer, swapchains, indices),
        translates(layer, swapchains, indices, translation),
    ensures
        presented_target(layer, swapchains[at]) is Some ==> translation.swapchains@[at]
            == layer.swapchains[swapchains[at]].physical_handle,
        presented_target(layer, swapchains[at]) is None ==> translation.swapchains@[at]
            == swapchains[at] && (reserved_handle(swapchains[at]) ==> layer.swapchains.contains_key(
            swapchains[at],
        )),
{
    assert(presented_image(layer, swapchains[at], indices[at]) is Ok);
}

/// The image that a virtual swapchain hands out is the one that a present of it
/// shows: the application's index leads back to the driver's image, and a
/// present that took place leaves the layer as it was before the acquire.
pub proof fn an_acquired_image_is_the_one_presented(
    layer: LayerModel,
    swapchain: Handle,
    pending: PendingAcquire,
    result: VkResult,
    image: u32,
)
    requires
        layer.wf(),
        physical_behind(layer, swapchain) is Some,
        !layer.retired.contains(swapchain),
        !layer.reconfiguring(swapchain),
        acquire_addressed(layer, swapchain, pending),
        hands_out(result),
        !layer.swapchains[swapchain].mapping.unwrap().busy(image),
    ensures
        ({
            let slot = pending.reserved.unwrap();
            let answer = Some((result, image));
            let begun = acquire_begun(layer, swapchain, pending);
            let held = acquire_finished(begun, pending, answer);
            &&& acquire_outcome(begun, pending, answer) == (AcquireOutcome {
                result,
                image_index: Some(slot),
                release: None,
            })
            &&& presented_image(held, swapchain, slot) == Ok::<(Handle, u32), VkResult>(
                (layer.swapchains[swapchain].physical_handle, image),
            )
            &&& images_released(held, seq![(swapchain, slot)]) == layer
        }),
{
    let slot = pending.reserved.unwrap();
    let begun = acquire_begun(layer, swapchain, pending);
    let held = acquire_finished(begun, pending, Some((result, image)));
    let state = layer.swapchains[swapchain];
    let mapping = state.mapping.unwrap();
    let reserved = mapping.reserve(slot as int);
    assert(!reserved.busy(image));
    assert(held.swapchains[swapchain] == with_mapping(
        begun.swapchains[swapchain],
        reserved.bind(slot as int, image),
    ));
    assert(reserved.bind(slot as int, image).unbind(slot as int) =~= mapping);
    let releases = seq![(swapchain, slot)];
    assert(releases.drop_last() =~= Seq::empty());
    reveal_with_fuel(images_released, 2);
    assert(images_released(held, releases).swapchains =~= layer.swapchains);
}

/// The frames of two presents, one behind the other, are those of the first and
/// then those of the second.
proof fn lemma_frames_follow(
    layer: LayerModel,
    device: Handle,
    swapchains: Seq<Handle>,
    indices: Seq<u32>,
    more: Seq<Handle>,
    more_indices: Seq<u32>,
)
    requires
        swapchains.len() == indices.len(),
        more.len() == more_indices.len(),
    ensures
        frames_of(layer, device, swapchains + more, indices + more_indices) == frames_of(
            layer,
            device,
            swapchains,
            indices,
        ) + frames_of(layer, device, more, more_indices),
    decreases more.len(),
{
    if more.len() == 0 {
        assert(swapchains + more =~= swapchains);
        assert(indices + more_indices =~= indices);
        assert(frames_of(layer, device, more, more_indices) =~= Seq::empty());
        assert(frames_of(layer, device, swapchains, indices) + Seq::<FramePlan>::empty()
            =~= frames_of(layer, device, swapchains, indices));
    } else {
        lemma_frames_follow(
            layer,
            device,
            swapchains,
            indices,
            more.drop_last(),
            more_indices.drop_last(),
        );
        assert((swapchains + more).drop_last() =~= swapchains + more.drop_last());
        assert((indices + more_indices).drop_last() =~= indices + more_indices.drop_last());
        assert(frames_of(layer, device, swapchains + more, indices + more_indices) =~= frames_of(
            layer,
            device,
            swapchains,
            indices,
        ) + frames_of(layer, device, more, more_indices));
    }
}

proof fn lemma_one_frame(layer: LayerModel, device: Handle, swapchain: Handle, index: u32)
    ensures
        frames_of(layer, device, seq![swapchain], seq![index]) == (match frame_of(
            layer,
            device,
            swapchain,
            index,
        ) {
            Some(frame) => seq![frame],
            None => Seq::empty(),
        }),
{
    assert(seq![swapchain].drop_last() =~= Seq::empty());
    assert(seq![index].drop_last() =~= Seq::empty());
    assert(frames_of(layer, device, Seq::empty(), Seq::empty()) =~= Seq::empty());
    assert(Seq::<FramePlan>::empty() + Seq::<FramePlan>::empty() =~= Seq::<FramePlan>::empty());
    match frame_of(layer, device, swapchain, index) {
        Some(frame) => {
            assert(Seq::<FramePlan>::empty().push(frame) =~= seq![frame]);
        },
        None => {},
    }
}

proof fn lemma_frames_at(
    layer: LayerModel,
    device: Handle,
    swapchains: Seq<Handle>,
    indices: Seq<u32>,
    at: int,
)
    requires
        swapchains.len() == indices.len(),
        0 <= at < swapchains.len(),
    ensures
        frames_of(layer, device, swapchains, indices) == frames_of(
            layer,
            device,
            swapchains.take(at),
            indices.take(at),
        ) + (match frame_of(layer, device, swapchains[at], indices[at]) {
            Some(frame) => seq![frame],
            None => Seq::empty(),
        }) + frames_of(layer, device, swapchains.skip(at + 1), indices.skip(at + 1)),
{
    let one = seq![swapchains[at]];
    let index = seq![indices[at]];
    lemma_one_frame(layer, device, swapchains[at], indices[at]);
    lemma_frames_follow(layer, device, swapchains.take(at), indices.take(at), one, index);
    lemma_frames_follow(
        layer,
        device,
        swapchains.take(at) + one,
        indices.take(at) + index,
        swapchains.skip(at + 1),
        indices.skip(at + 1),
    );
    assert(swapchains =~= swapchains.take(at) + one + swapchains.skip(at + 1));
    assert(indices =~= indices.take(at) + index + indices.skip(at + 1));
}

/// Every presented image of a virtual swapchain that has an overlay, is of the
/// queue's device and is not being replaced gets exactly one frame, in the
/// order of the present, wherever its slot holds an image of its generation.
/// The frame draws the application's image onto the driver's one. It only
/// scales unless the native output is there.
pub proof fn every_presented_image_is_drawn_once(
    layer: LayerModel,
    devices: DevicesModel,
    queue: QueueState,
    info: PresentInfo,
    at: int,
)
    requires
        info.wf(),
        info.swapchains is Some,
        info.image_indices is Some,
        info.wait_semaphore_count == 0 || info.wait_semaphores is Some,
        devices.devices.contains_key(queue.device),
        queue.processing_allowed,
        queue.family_index < devices.devices[queue.device].queue_families@.len(),
        devices.devices[queue.device].queue_families@[queue.family_index as int] & 0x3 == 0x3,
        0 <= at < info.swapchain_count,
        ({
            let state = layer.swapchains[info.swapchains.unwrap()@[at]];
            let index = info.image_indices.unwrap()@[at];
            &&& layer.swapchains.contains_key(info.swapchains.unwrap()@[at])
            &&& state.device == queue.device
            &&& state.has_overlay
            &&& state.lifecycle.active is None
            &&& state.contract is Some
            &&& state.mapping is Some
            &&& index < state.mapping.unwrap().bound.len()
            &&& index < state.contract.unwrap().logical.images.len()
            &&& state.mapping.unwrap().bound[index as int] is Some
            &&& state.mapping.unwrap().bound[index as int].unwrap().index
                < state.contract.unwrap().physical.image_count
        }),
    ensures
        ({
            let swapchains = info.swapchains.unwrap()@;
            let indices = info.image_indices.unwrap()@;
            let state = layer.swapchains[swapchains[at]];
            let frame = FramePlan {
                swapchain: swapchains[at],
                logical_index: indices[at],
                physical_index: state.mapping.unwrap().bound[indices[at] as int].unwrap().index,
                spatial: state.contract.unwrap().state != PresentationState::Virtualized,
            };
            planned_frames(layer, devices, queue, info) == frames_of(
                layer,
                queue.device,
                swapchains.take(at),
                indices.take(at),
            ) + seq![frame] + frames_of(
                layer,
                queue.device,
                swapchains.skip(at + 1),
                indices.skip(at + 1),
            )
        }),
{
    lemma_frames_at(
        layer,
        queue.device,
        info.swapchains.unwrap()@,
        info.image_indices.unwrap()@,
        at,
    );
}

/// A presented image of a swapchain that has no images of its own is drawn on
/// as it is, and never only scaled.
pub proof fn a_direct_image_is_drawn_on_itself(
    layer: LayerModel,
    device: Handle,
    swapchain: Handle,
    index: u32,
)
    requires
        layer.swapchains.contains_key(swapchain),
        layer.swapchains[swapchain].device == device,
        layer.swapchains[swapchain].has_overlay,
        layer.swapchains[swapchain].lifecycle.active is None,
        layer.swapchains[swapchain].mapping is None,
        layer.swapchains[swapchain].contract is None,
    ensures
        frame_of(layer, device, swapchain, index) == Some(
            FramePlan {
                swapchain,
                logical_index: index,
                physical_index: index,
                spatial: false,
            },
        ),
{
}

/// Nothing is drawn for a swapchain that the layer does not know, that is of
/// another device, that is being replaced or that has no overlay, nor for an
/// image beyond those that the swapchain promises. Nothing at all is drawn on
/// a queue that cannot draw and compute.
pub proof fn nothing_else_is_drawn(
    layer: LayerModel,
    devices: DevicesModel,
    queue: QueueState,
    info: PresentInfo,
    swapchain: Handle,
    index: u32,
)
    ensures
        frame_of(layer, queue.device, swapchain, index) matches Some(frame) ==> {
            let state = layer.swapchains[swapchain];
            &&& layer.swapchains.contains_key(swapchain)
            &&& state.device == queue.device
            &&& state.has_overlay
            &&& state.lifecycle.active is None
            &&& frame.swapchain == swapchain
            &&& frame.logical_index == index
            &&& state.contract matches Some(contract) ==> index < contract.logical.images.len()
                && frame.physical_index < contract.physical.image_count
        },
        planned_frames(layer, devices, queue, info).len() > 0 ==> {
            &&& devices.devices.contains_key(queue.device)
            &&& queue.processing_allowed
            &&& queue.family_index < devices.devices[queue.device].queue_families@.len()
            &&& devices.devices[queue.device].queue_families@[queue.family_index as int] & 0x3
                == 0x3
            &&& info.swapchain_count != 0
            &&& info.wait_semaphore_count == 0 || info.wait_semaphores is Some
        },
{
}

/// A presented image goes to the driver's swapchain and to the image behind its
/// slot; a direct one goes as it is. A slot that holds nothing, a retired token
/// and a swapchain that is being replaced are out of date.
pub proof fn presented_images_go_behind_their_slots(
    layer: LayerModel,
    swapchain: Handle,
    index: u32,
)
    ensures
        ({
            let state = layer.swapchains[swapchain];
            let known = layer.swapchains.contains_key(swapchain);
            let went = presented_image(layer, swapchain, index);
            let late = Err::<(Handle, u32), VkResult>(ERROR_OUT_OF_DATE_KHR);
            if layer.retired.contains(swapchain) || (known && state.lifecycle.active is Some) || (
            !known && swapchain > 0x8000_0000_0000_0000) {
                went == late
            } else if known && state.mapping is Some {
                let slots = state.mapping.unwrap().bound;
                if index < slots.len() && slots[index as int] is Some {
                    went == Ok::<(Handle, u32), VkResult>(
                        (state.physical_handle, slots[index as int].unwrap().index),
                    )
                } else {
                    went == late
                }
            } else {
                went == Ok::<(Handle, u32), VkResult>((swapchain, index))
            }
        }),
        presented_target(layer, swapchain) is Some <==> layer.swapchains.contains_key(swapchain)
            && layer.swapchains[swapchain].mapping is Some,
        presented_target(layer, swapchain) matches Some(target) ==> target.swapchain == swapchain
            && target.generation == layer.swapchains[swapchain].generation && target.physical
            == layer.swapchains[swapchain].physical_handle,
{
}

/// A translated present names one driver's swapchain and image for each of the
/// application's, in its order, and gives back exactly the slots of the virtual
/// ones.
pub proof fn a_translation_keeps_the_order(
    layer: LayerModel,
    swapchains: Seq<Handle>,
    indices: Seq<u32>,
    translation: PresentTranslation,
    at: int,
)
    requires
        swapchains.len() == indices.len(),
        all_presentable(layer, swapchains, indices),
        translates(layer, swapchains, indices, translation),
        0 <= at < swapchains.len(),
    ensures
        ({
            let state = layer.swapchains[swapchains[at]];
            let virtual_one = layer.swapchains.contains_key(swapchains[at]) && state.mapping is Some;
            &&& translation.swapchains@.len() == swapchains.len()
            &&& translation.image_indices@.len() == swapchains.len()
            &&& translation.present_targets@.len() == swapchains.len()
            &&& virtual_one ==> {
                &&& translation.swapchains@[at] == state.physical_handle
                &&& state.mapping.unwrap().bound[indices[at] as int] is Some
                &&& translation.image_indices@[at] == state.mapping.unwrap().bound[indices[at] as int].unwrap().index
                &&& translation.present_targets@[at] matches Some(target) && target.swapchain
                    == swapchains[at] && target.physical == state.physical_handle
                    && target.generation == state.generation
                &&& translation.releases@.contains((swapchains[at], indices[at]))
            }
            &&& !virtual_one ==> {
                &&& translation.swapchains@[at] == swapchains[at]
                &&& translation.image_indices@[at] == indices[at]
                &&& translation.present_targets@[at] is None
            }
        }),
        forall|slot: (Handle, u32)| #[trigger]
            translation.releases@.contains(slot) ==> layer.swapchains.contains_key(slot.0)
                && layer.swapchains[slot.0].mapping is Some && exists|i: int|
                0 <= i < swapchains.len() && #[trigger] swapchains[i] == slot.0 && indices[i]
                    == slot.1,
{
    assert(presented_image(layer, swapchains[at], indices[at]) is Ok);
    lemma_slots(layer, swapchains, indices);
}

proof fn lemma_slots(layer: LayerModel, swapchains: Seq<Handle>, indices: Seq<u32>)
    requires
        swapchains.len() == indices.len(),
    ensures
        forall|i: int|
            0 <= i < swapchains.len() && presented_target(layer, #[trigger] swapchains[i]) is Some
                ==> presented_slots(layer, swapchains, indices).contains(
                (swapchains[i], indices[i]),
            ),
        forall|slot: (Handle, u32)| #[trigger]
            presented_slots(layer, swapchains, indices).contains(slot) ==> presented_target(
                layer,
                slot.0,
            ) is Some && exists|i: int|
                0 <= i < swapchains.len() && #[trigger] swapchains[i] == slot.0 && indices[i]
                    == slot.1,
    decreases swapchains.len(),
{
    if swapchains.len() > 0 {
        let front = swapchains.drop_last();
        let front_indices = indices.drop_last();
        let before = presented_slots(layer, front, front_indices);
        let all = presented_slots(layer, swapchains, indices);
        lemma_slots(layer, front, front_indices);
        assert forall|i: int|
            0 <= i < swapchains.len() && presented_target(
                layer,
                #[trigger] swapchains[i],
            ) is Some implies all.contains((swapchains[i], indices[i])) by {
            if i < front.len() {
                assert(front[i] == swapchains[i]);
                let slot = (front[i], front_indices[i]);
                assert(before.contains(slot));
                assert(all[before.index_of(slot)] == slot);
            } else {
                assert(all[before.len() as int] == (swapchains[i], indices[i]));
            }
        }
        assert forall|slot: (Handle, u32)| #[trigger] all.contains(slot) implies presented_target(
            layer,
            slot.0,
        ) is Some && exists|i: int|
            0 <= i < swapchains.len() && #[trigger] swapchains[i] == slot.0 && indices[i]
                == slot.1 by {
            let place = all.index_of(slot);
            if place < before.len() {
                assert(before[place] == slot);
                assert(before.contains(slot));
                let i = choose|i: int|
                    0 <= i < front.len() && #[trigger] front[i] == slot.0 && front_indices[i]
                        == slot.1;
                assert(swapchains[i] == slot.0);
            } else {
                assert(swapchains[swapchains.len() - 1] == slot.0);
            }
        }
    }
}

/// A present is refused exactly where it names swapchains without its arrays,
/// or one whose image cannot be presented.
pub proof fn a_present_is_refused_for_a_reason(layer: LayerModel, info: PresentInfo)
    ensures
        translation_refusal(layer, info) is None <==> info.swapchain_count == 0 || (
        info.swapchains is Some && info.image_indices is Some && forall|i: int|
            0 <= i < info.swapchains.unwrap()@.len() ==> presented_image(
                layer,
                #[trigger] info.swapchains.unwrap()@[i],
                info.image_indices.unwrap()@[i],
            ) is Ok),
        info.swapchain_count != 0 && (info.swapchains is None || info.image_indices is None)
            ==> translation_refusal(layer, info) == Some(ERROR_INITIALIZATION_FAILED),
        info.swapchain_count != 0 && info.swapchains is Some && info.image_indices is Some
            && translation_refusal(layer, info) is Some ==> translation_refusal(layer, info)
            == Some(ERROR_OUT_OF_DATE_KHR),
{
}

/// An identifier is staged with the generation that its image goes to, and
/// with no other swapchain. It is refused where the swapchain has changed, or
/// where it does not lie above all that were presented before.
pub proof fn an_identifier_is_staged_with_its_generation(
    layer: LayerModel,
    target: PresentIdTarget,
    id: u64,
)
    ensures
        ({
            let state = layer.swapchains[target.swapchain];
            let current = layer.swapchains.contains_key(target.swapchain) && state.lifecycle.active
                is None && state.generation == target.generation && state.physical_handle
                == target.physical;
            let fresh = state.present_ids.pending is None && (
            state.present_ids.last_committed matches Some(last) ==> last < id);
            match staged_one(layer, target, id) {
                Ok(after) => {
                    let now = after.swapchains[target.swapchain];
                    &&& current && fresh
                    &&& now.present_ids.pending matches Some(pending)
                    &&& pending.ids == seq![id]
                    &&& pending.route.generation == target.generation
                    &&& pending.route.physical == target.physical
                    &&& now.present_ids.routes == state.present_ids.routes
                    &&& now.present_ids.last_committed == state.present_ids.last_committed
                    &&& now == SwapchainModel { present_ids: now.present_ids, ..state }
                    &&& after == LayerModel {
                        swapchains: layer.swapchains.insert(target.swapchain, now),
                        ..layer
                    }
                },
                Err(error) => if current {
                    !fresh && error == ERROR_FEATURE_NOT_PRESENT
                } else {
                    error == ERROR_OUT_OF_DATE_KHR
                },
            }
        }),
{
    let ids = seq![id];
    let history = layer.swapchains[target.swapchain].present_ids;
    assert(ids[0] == id);
    assert(super::present_id::increasing(ids, history.last_committed) <==> (
    history.last_committed matches Some(last) ==> last < id));
}

/// Identifiers are asked for one by one, and as many as there are swapchains.
pub proof fn identifiers_come_one_for_each_swapchain(
    layer: LayerModel,
    swapchain_count: u32,
    targets: Seq<Option<PresentIdTarget>>,
    ids: Seq<u64>,
)
    ensures
        ids.len() == 0 ==> staging_result(layer, swapchain_count, targets, ids) == Ok::<
            LayerModel,
            VkResult,
        >(layer),
        ids.len() != 0 && ids.len() != swapchain_count ==> staging_result(
            layer,
            swapchain_count,
            targets,
            ids,
        ) == Err::<LayerModel, VkResult>(ERROR_FEATURE_NOT_PRESENT),
{
}

/// A present of one image of a virtual swapchain that took place leaves its
/// identifier for waits, with the generation that it went to, and frees its
/// slot and no other.
pub proof fn a_present_that_took_place_is_remembered(
    layer: LayerModel,
    target: PresentIdTarget,
    id: u64,
    slot: u32,
    result: VkResult,
    other: int,
)
    requires
        layer.wf(),
        result == 0 || result == 1000001003,
        staged_one(layer, target, id) is Ok,
        layer.swapchains[target.swapchain].mapping is Some,
        slot < layer.swapchains[target.swapchain].mapping.unwrap().bound.len(),
        layer.swapchains[target.swapchain].mapping.unwrap().bound[slot as int] is Some,
    ensures
        ({
            let staged = staged_one(layer, target, id).unwrap();
            let record = (
                target.swapchain,
                ReservationModel {
                    ids: seq![id],
                    route: PresentIdRoute {
                        generation: target.generation,
                        physical: target.physical,
                    },
                },
            );
            let after = present_finished(
                staged,
                seq![(target.swapchain, slot)],
                seq![record],
                result,
            );
            let was = layer.swapchains[target.swapchain];
            let now = after.swapchains[target.swapchain];
            &&& now.present_ids.routes.contains_key(id)
            &&& now.present_ids.routes[id].generation == target.generation
            &&& now.present_ids.routes[id].physical == target.physical
            &&& now.present_ids.last_committed == Some(id)
            &&& now.present_ids.pending is None
            &&& now.mapping.unwrap().bound[slot as int] is None
            &&& 0 <= other < was.mapping.unwrap().bound.len() && other != slot
                ==> now.mapping.unwrap().bound[other] == was.mapping.unwrap().bound[other]
            &&& now.mapping.unwrap().reserved == was.mapping.unwrap().reserved
            &&& now.contract == was.contract
            &&& now.physical_handle == was.physical_handle
        }),
{
    let staged = staged_one(layer, target, id).unwrap();
    let record = (target.swapchain, reservation_of(target, id));
    let records = seq![record];
    let releases = seq![(target.swapchain, slot)];
    an_identifier_is_staged_with_its_generation(layer, target, id);
    assert(records.drop_last() =~= Seq::empty());
    assert(releases.drop_last() =~= Seq::empty());
    assert(ids_committed(staged, Seq::empty()) == staged);
    let pending = staged.swapchains[target.swapchain].present_ids.pending.unwrap();
    assert(pending.ids =~= record.1.ids);
    assert(pending == record.1);
    let committed = ids_committed(staged, records);
    assert(committed.swapchains[target.swapchain].present_ids
        == staged.swapchains[target.swapchain].present_ids.committed());
    assert(seq![id].contains(id)) by {
        assert(seq![id][0] == id);
    }
    assert(images_released(committed, Seq::empty()) == committed);
}

/// The surfaces to look at after a present are those of the presented
/// swapchains that the layer tracks and does not replace, and the overlays to
/// tell of a failure are those of the presented swapchains that have one.
pub proof fn presented_swapchains_are_looked_at(
    layer: LayerModel,
    presented: Seq<Handle>,
    at: int,
)
    requires
        0 <= at < presented.len(),
    ensures
        layer.swapchains.contains_key(presented[at])
            && layer.swapchains[presented[at]].lifecycle.active is None ==> observed_surfaces(
            layer,
            presented,
        ).contains(layer.swapchains[presented[at]].game_surface),
        layer.swapchains.contains_key(presented[at])
            && layer.swapchains[presented[at]].has_overlay ==> overlays_of(
            layer,
            presented,
        ).contains(presented[at]),
        forall|surface: Handle| #[trigger]
            observed_surfaces(layer, presented).contains(surface) ==> exists|i: int|
                0 <= i < presented.len() && layer.swapchains.contains_key(
                    #[trigger] presented[i],
                ) && layer.swapchains[presented[i]].lifecycle.active is None
                    && layer.swapchains[presented[i]].game_surface == surface,
        forall|handle: Handle| #[trigger]
            overlays_of(layer, presented).contains(handle) ==> presented.contains(handle)
                && layer.swapchains.contains_key(handle) && layer.swapchains[handle].has_overlay,
    decreases presented.len(),
{
    let front = presented.drop_last();
    let surfaces = observed_surfaces(layer, front);
    let overlays = overlays_of(layer, front);
    let all = observed_surfaces(layer, presented);
    let told = overlays_of(layer, presented);
    if front.len() > 0 {
        presented_swapchains_are_looked_at(
            layer,
            front,
            if at < front.len() {
                at
            } else {
                0
            },
        );
    } else {
        assert(surfaces =~= Seq::empty());
        assert(overlays =~= Seq::empty());
    }
    if at < front.len() {
        assert(front[at] == presented[at]);
        let surface = layer.swapchains[presented[at]].game_surface;
        if surfaces.contains(surface) {
            assert(all[surfaces.index_of(surface)] == surface);
        }
        if overlays.contains(presented[at]) {
            assert(told[overlays.index_of(presented[at])] == presented[at]);
        }
    } else {
        if all.len() > surfaces.len() {
            assert(all[surfaces.len() as int] == layer.swapchains[presented[at]].game_surface);
        }
        if told.len() > overlays.len() {
            assert(told[overlays.len() as int] == presented[at]);
        }
    }
    assert forall|surface: Handle| #[trigger] all.contains(surface) implies exists|i: int|
        0 <= i < presented.len() && layer.swapchains.contains_key(#[trigger] presented[i])
            && layer.swapchains[presented[i]].lifecycle.active is None
            && layer.swapchains[presented[i]].game_surface == surface by {
        let place = all.index_of(surface);
        if place < surfaces.len() {
            assert(surfaces[place] == surface);
            assert(surfaces.contains(surface));
            let i = choose|i: int|
                0 <= i < front.len() && layer.swapchains.contains_key(#[trigger] front[i])
                    && layer.swapchains[front[i]].lifecycle.active is None
                    && layer.swapchains[front[i]].game_surface == surface;
            assert(presented[i] == front[i]);
        } else {
            assert(presented[presented.len() - 1] == presented.last());
        }
    }
    assert forall|handle: Handle| #[trigger] told.contains(handle) implies presented.contains(
        handle,
    ) && layer.swapchains.contains_key(handle) && layer.swapchains[handle].has_overlay by {
        let place = told.index_of(handle);
        if place < overlays.len() {
            assert(overlays[place] == handle);
            assert(overlays.contains(handle));
            assert(presented[front.index_of(handle)] == handle);
        } else {
            assert(presented[presented.len() - 1] == handle);
        }
    }
}

/// Changed rectangles of a swapchain that scales go where the overlay put them,
/// in the layers that the application named; all others stay. None is lost.
pub proof fn damage_moves_with_the_image(
    layer: LayerModel,
    presented: Seq<Handle>,
    source: Seq<Seq<RectLayer>>,
    scaled: Seq<Seq<RectLayer>>,
    at: int,
    j: int,
)
    requires
        0 <= at < presented.len(),
        0 <= j < source[at].len(),
    ensures
        ({
            let moved = regions_moved(layer, presented, source, scaled);
            let state = layer.swapchains[presented[at]];
            &&& moved.len() == presented.len()
            &&& moved[at].len() == source[at].len()
            &&& moved[at][j].layer == source[at][j].layer
            &&& if layer.swapchains.contains_key(presented[at]) && state.virtual_images is Some
                && state.has_overlay {
                moved[at][j].offset == scaled[at][j].offset && moved[at][j].extent
                    == scaled[at][j].extent
            } else {
                moved[at] == source[at]
            }
        }),
{
}

/// What is said of a swapchain's first frames is said once: of a virtual one
/// that its overlay was drawn, and of one with a surface of its own that input
/// is routed.
pub proof fn first_frames_are_reported_once(state: SwapchainModel, maintenance: bool)
    ensures
        reports_of(state, maintenance).overlay <==> state.mapping is Some
            && !state.maintenance_overlay_reported,
        reports_of(state, maintenance).input_route <==> state.present_surface is Some
            && !state.input_route_reported,
        reports_of(state, maintenance).maintenance <==> maintenance && reports_of(
            state,
            maintenance,
        ).overlay,
{
}

/// A present takes place exactly where the driver took it, even if the surface
/// no longer fits.
pub proof fn presents_take_place_where_the_driver_took_them(result: VkResult)
    ensures
        took_place(result) <==> result == 0 || result == 1000001003,
{
}

/// What a present names and waits for goes down as it came: the arrays are
/// those behind the pointers, and none where there is no pointer.
pub proof fn arrays_are_what_their_pointers_say(info: PresentInfo, list: Option<Vec<Handle>>)
    ensures
        list is None ==> array_of(list) is None && listed(list) == Seq::<Handle>::empty(),
        list matches Some(items) ==> array_of(list) == Some(items@) && listed(list) == items@,
        info.swapchains matches Some(items) ==> info.presented() == items@,
        info.image_indices matches Some(items) ==> info.indices() == items@,
{
}

/// A present is translated exactly where one of its swapchains has images of
/// its own, and its structures are read exactly where one of them has an output
/// of its own that is not being replaced.
pub proof fn virtual_swapchains_make_a_present_translated(layer: LayerModel, info: PresentInfo)
    requires
        info.swapchains is Some,
    ensures
        is_translated(layer, info) <==> info.swapchain_count != 0 && exists|i: int|
            0 <= i < info.swapchains.unwrap()@.len() && layer.swapchains.contains_key(
                #[trigger] info.swapchains.unwrap()@[i],
            ) && layer.swapchains[info.swapchains.unwrap()@[i]].mapping is Some,
        any_virtual_output(layer, info.presented()) <==> exists|i: int|
            0 <= i < info.swapchains.unwrap()@.len() && layer.swapchains.contains_key(
                #[trigger] info.swapchains.unwrap()@[i],
            ) && layer.swapchains[info.swapchains.unwrap()@[i]].lifecycle.active is None
                && layer.swapchains[info.swapchains.unwrap()@[i]].contract is Some,
{
    let presented = info.swapchains.unwrap()@;
    if any_virtual(layer, presented) {
        let i = choose|i: int|
            0 <= i < presented.len() && presented_target(layer, #[trigger] presented[i]) is Some;
        assert(layer.swapchains.contains_key(presented[i]));
    }
    if any_virtual_output(layer, presented) {
        let i = choose|i: int|
            0 <= i < presented.len() && virtual_output(layer, #[trigger] presented[i]);
        assert(layer.swapchains.contains_key(presented[i]));
    }
    if exists|i: int|
        0 <= i < presented.len() && layer.swapchains.contains_key(#[trigger] presented[i])
            && layer.swapchains[presented[i]].mapping is Some {
        let i = choose|i: int|
            0 <= i < presented.len() && layer.swapchains.contains_key(#[trigger] presented[i])
                && layer.swapchains[presented[i]].mapping is Some;
        assert(presented_target(layer, presented[i]) is Some);
    }
    if exists|i: int|
        0 <= i < presented.len() && layer.swapchains.contains_key(#[trigger] presented[i])
            && layer.swapchains[presented[i]].lifecycle.active is None
            && layer.swapchains[presented[i]].contract is Some {
        let i = choose|i: int|
            0 <= i < presented.len() && layer.swapchains.contains_key(#[trigger] presented[i])
                && layer.swapchains[presented[i]].lifecycle.active is None
                && layer.swapchains[presented[i]].contract is Some;
        assert(virtual_output(layer, presented[i]));
    }
}

/// Where the identifiers of a present can be staged, each virtual swapchain of it
/// has its own pending, for the generation that its image goes to; other
/// swapchains have none of them.
pub proof fn every_virtual_swapchain_stages_its_own_identifier(
    layer: LayerModel,
    targets: Seq<Option<PresentIdTarget>>,
    ids: Seq<u64>,
    at: int,
    other: Handle,
)
    requires
        layer.wf(),
        targets.len() == ids.len(),
        staging(layer, targets, ids) is Ok,
        0 <= at < targets.len(),
    ensures
        ({
            let after = staging(layer, targets, ids).unwrap();
            &&& targets[at] matches Some(target) ==> {
                let pending = after.swapchains[target.swapchain].present_ids.pending;
                &&& pending is Some
                &&& pending.unwrap().ids.len() == 1
                &&& pending.unwrap().ids[0] == ids[at]
                &&& pending.unwrap().route.generation == target.generation
                &&& pending.unwrap().route.physical == target.physical
            }
            &&& layer.swapchains.contains_key(other) && (forall|i: int|
                0 <= i < targets.len() ==> (#[trigger] targets[i] matches Some(target)
                    ==> target.swapchain != other)) ==> after.swapchains[other]
                == layer.swapchains[other]
        }),
{
    lemma_staging(layer, targets, ids);
    lemma_records(targets, ids, at);
    let records = staged_records(targets, ids);
    if let Some(target) = targets[at] {
        let record = (target.swapchain, reservation_of(target, ids[at]));
        assert(records[records.index_of(record)] == record);
    }
    if forall|i: int|
        0 <= i < targets.len() ==> (#[trigger] targets[i] matches Some(target) ==> target.swapchain
            != other) {
        assert forall|i: int| 0 <= i < records.len() implies (#[trigger] records[i]).0
            != other by {
            lemma_record_of(targets, ids, i);
        }
    }
}

proof fn lemma_records(targets: Seq<Option<PresentIdTarget>>, ids: Seq<u64>, at: int)
    requires
        targets.len() == ids.len(),
        0 <= at < targets.len(),
    ensures
        targets[at] matches Some(target) ==> staged_records(targets, ids).contains(
            (target.swapchain, reservation_of(target, ids[at])),
        ),
    decreases targets.len(),
{
    if let Some(target) = targets[at] {
        let record = (target.swapchain, reservation_of(target, ids[at]));
        let before = staged_records(targets.drop_last(), ids.drop_last());
        let all = staged_records(targets, ids);
        if at < targets.len() - 1 {
            lemma_records(targets.drop_last(), ids.drop_last(), at);
            assert(before.contains(record));
            assert(all[before.index_of(record)] == record);
        } else {
            assert(all[before.len() as int] == record);
        }
    }
}

proof fn lemma_record_of(targets: Seq<Option<PresentIdTarget>>, ids: Seq<u64>, place: int)
    requires
        targets.len() == ids.len(),
        0 <= place < staged_records(targets, ids).len(),
    ensures
        exists|i: int|
            0 <= i < targets.len() && (#[trigger] targets[i] matches Some(target)
                && target.swapchain == staged_records(targets, ids)[place].0),
    decreases targets.len(),
{
    if targets.len() > 0 {
        let front = targets.drop_last();
        let before = staged_records(front, ids.drop_last());
        let all = staged_records(targets, ids);
        if place < before.len() {
            lemma_record_of(front, ids.drop_last(), place);
            let i = choose|i: int|
                0 <= i < front.len() && (#[trigger] front[i] matches Some(target)
                    && target.swapchain == before[place].0);
            assert(targets[i] == front[i]);
        } else {
            assert(targets[targets.len() - 1] == targets.last());
        }
    }
}

/// The identifiers of a present are those of its structure of identifiers, where
/// the structures are read at all.
pub proof fn a_present_names_its_identifiers(
    layer: LayerModel,
    info: PresentInfo,
    ids: Seq<u64>,
    at: int,
)
    requires
        present_ids_of(layer, info, ids),
        0 <= at < info.chain@.len(),
        info.chain@[at] matches PresentNode::Ids { ids: Some(_), .. },
    ensures
        any_virtual_output(layer, info.presented()) ==> (
        info.chain@[at] matches PresentNode::Ids { ids: Some(list), .. } && ids == list@),
        !any_virtual_output(layer, info.presented()) ==> ids.len() == 0,
{
}

/// A first present with fences or modes is told of once for a virtual swapchain.
pub proof fn a_first_present_with_fences_is_told_of_once(layer: LayerModel, swapchain: Handle)
    ensures
        unreported(layer, swapchain) <==> layer.swapchains.contains_key(swapchain)
            && layer.swapchains[swapchain].mapping is Some
            && !layer.swapchains[swapchain].maintenance_present_reported,
{
}

/// A present is translated whole or not at all: it goes on where every one of its
/// images does.
pub proof fn a_present_goes_on_with_all_its_images(
    layer: LayerModel,
    before: Seq<Handle>,
    swapchain: Handle,
    after: Seq<Handle>,
    indices: Seq<u32>,
)
    requires
        indices.len() == before.len() + 1 + after.len(),
        all_presentable(layer, before + seq![swapchain] + after, indices),
    ensures
        !layer.retired.contains(swapchain),
        layer.swapchains.contains_key(swapchain) && layer.swapchains[swapchain].mapping is Some
            ==> layer.swapchains[swapchain].mapping.unwrap().image(
            indices[before.len() as int] as int,
        ) is Some,
{
    let all = before + seq![swapchain] + after;
    assert(all[before.len() as int] == swapchain);
}

/// A present of swapchains that the layer does not know goes on as it is.
pub proof fn a_present_of_others_goes_on(
    layer: LayerModel,
    swapchains: Seq<Handle>,
    indices: Seq<u32>,
)
    requires
        forall|i: int|
            0 <= i < swapchains.len() ==> !layer.retired.contains(#[trigger] swapchains[i])
                && !layer.unknown_logical(swapchains[i]) && !layer.reconfiguring(swapchains[i])
                && !layer.swapchains.contains_key(swapchains[i]),
    ensures
        all_presentable(layer, swapchains, indices),
        !any_virtual(layer, swapchains),
{
}

} // verus!
