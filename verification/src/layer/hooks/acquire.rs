//! Acquiring images and asking for them.

use vstd::prelude::*;

use crate::layer::mapping::{Mapping, MappingModel};
use crate::layer::state::{
    lemma_set_swapchain, Layer, LayerModel, SwapchainModel, SwapchainState,
};
use crate::seqs::copy_slice;
use crate::vk::{
    Handle, VkResult, ERROR_INITIALIZATION_FAILED, ERROR_OUT_OF_DATE_KHR, INCOMPLETE,
    SUBOPTIMAL_KHR, SUCCESS,
};

verus! {

/// A token that must not go downstream: retired, or of the layer's namespace
/// and unknown.
pub open spec fn rejected(layer: LayerModel, swapchain: Handle) -> bool {
    layer.retired.contains(swapchain) || layer.unknown_logical(swapchain)
}

pub fn reject_retired_swapchain(layer: &Layer, swapchain: Handle) -> (result: Result<(), VkResult>)
    requires
        layer.wf(),
    ensures
        match result {
            Ok(_) => !rejected(layer@, swapchain),
            Err(error) => rejected(layer@, swapchain) && error == ERROR_OUT_OF_DATE_KHR,
        },
{
    if layer.is_retired_swapchain(swapchain) || layer.is_unknown_logical_swapchain(swapchain) {
        Err(ERROR_OUT_OF_DATE_KHR)
    } else {
        Ok(())
    }
}

/// The downstream swapchain behind a virtual one.
pub open spec fn physical_behind(layer: LayerModel, logical: Handle) -> Option<Handle> {
    if layer.swapchains.contains_key(logical) && layer.swapchains[logical].mapping is Some
        && layer.swapchains[logical].contract is Some {
        Some(layer.swapchains[logical].physical_handle)
    } else {
        None
    }
}

pub fn virtual_physical_swapchain(layer: &Layer, logical: Handle) -> (physical: Option<Handle>)
    requires
        layer.wf(),
    ensures
        physical == physical_behind(layer@, logical),
{
    match layer.swapchains.get(logical) {
        None => None,
        Some(state) => {
            assert(layer@.swapchains[logical] == state@);
            if state.mapping.is_some() && state.contract.is_some() {
                Some(state.physical_handle)
            } else {
                None
            }
        },
    }
}

/// Takes the mapping out of a state, works on it and puts it back.
pub open spec fn with_mapping(state: SwapchainModel, mapping: MappingModel) -> SwapchainModel {
    SwapchainModel { mapping: Some(mapping), ..state }
}

/// Binds an acquired image to its reserved slot. The answer is the index that
/// the application sees.
pub fn map_acquired_image(state: &mut SwapchainState, logical_index: u32, image_index: u32) -> (
    result: Result<u32, VkResult>)
    requires
        old(state)@.wf(),
    ensures
        final(state)@.wf(),
        match old(state)@.mapping {
            None => result == Ok::<u32, VkResult>(image_index) && final(state)@ == old(state)@,
            Some(mapping) => {
                let bindable = !mapping.busy(image_index) && logical_index < mapping.bound.len()
                    && mapping.reserved[logical_index as int];
                if bindable {
                    &&& result == Ok::<u32, VkResult>(logical_index)
                    &&& final(state)@ == with_mapping(
                        old(state)@,
                        mapping.bind(logical_index as int, image_index),
                    )
                } else {
                    &&& result == Err::<u32, VkResult>(ERROR_OUT_OF_DATE_KHR)
                    &&& final(state)@ == old(state)@
                }
            },
        },
{
    match &mut state.mapping {
        None => Ok(image_index),
        Some(mapping) => match mapping.bind_reserved(logical_index, image_index) {
            Ok(_) => Ok(logical_index),
            Err(_) => Err(ERROR_OUT_OF_DATE_KHR),
        },
    }
}

/// Reserves a slot of a virtual swapchain; a direct one needs none.
pub fn reserve_image_slot(state: &mut SwapchainState) -> (result: Result<Option<u32>, VkResult>)
    requires
        old(state)@.wf(),
    ensures
        final(state)@.wf(),
        match old(state)@.mapping {
            None => result == Ok::<Option<u32>, VkResult>(None) && final(state)@ == old(state)@,
            Some(mapping) => match result {
                Ok(slot) => {
                    &&& slot is Some
                    &&& mapping.first_free(slot.unwrap() as int)
                    &&& final(state)@ == with_mapping(
                        old(state)@,
                        mapping.reserve(slot.unwrap() as int),
                    )
                },
                Err(error) => {
                    &&& error == ERROR_OUT_OF_DATE_KHR
                    &&& mapping.full()
                    &&& final(state)@ == old(state)@
                },
            },
        },
{
    match &mut state.mapping {
        None => Ok(None),
        Some(mapping) => match mapping.reserve_slot() {
            Ok(slot) => Ok(Some(slot)),
            Err(_) => Err(ERROR_OUT_OF_DATE_KHR),
        },
    }
}

pub fn cancel_reserved_image(state: &mut SwapchainState, logical_index: Option<u32>)
    requires
        old(state)@.wf(),
    ensures
        final(state)@.wf(),
        final(state)@ == (match (old(state)@.mapping, logical_index) {
            (Some(mapping), Some(index)) => with_mapping(
                old(state)@,
                mapping.unreserve(index as int),
            ),
            _ => old(state)@,
        }),
{
    if let Some(index) = logical_index {
        if let Some(mapping) = &mut state.mapping {
            mapping.cancel_reservation(index);
        }
    }
}

/// The command handed out an image.
pub open spec fn hands_out(result: VkResult) -> bool {
    result == SUCCESS || result == SUBOPTIMAL_KHR
}

pub fn acquired(result: VkResult) -> (r: bool)
    ensures
        r == hands_out(result),
{
    result == SUCCESS || result == SUBOPTIMAL_KHR
}

pub fn map_acquire_result(mapping: &mut Mapping, result: VkResult, physical_index: u32) -> (mapped:
    Result<Option<u32>, VkResult>)
    requires
        old(mapping)@.wf(),
    ensures
        final(mapping)@.wf(),
        match mapped {
            Ok(slot) => {
                &&& hands_out(result)
                &&& slot is Some
                &&& old(mapping)@.first_free(slot.unwrap() as int)
                &&& !old(mapping)@.busy(physical_index)
                &&& final(mapping)@ == old(mapping)@.bind(slot.unwrap() as int, physical_index)
            },
            Err(error) => {
                &&& final(mapping)@ == old(mapping)@
                &&& if hands_out(result) {
                    &&& error == ERROR_OUT_OF_DATE_KHR
                    &&& old(mapping)@.full() || old(mapping)@.busy(physical_index)
                } else {
                    error == result
                }
            },
        },
{
    if !acquired(result) {
        return Err(result);
    }
    match mapping.acquire(physical_index) {
        Ok(slot) => Ok(Some(slot)),
        Err(_) => Err(ERROR_OUT_OF_DATE_KHR),
    }
}

/// The answer to a query for images: the count to report, and the images to
/// write where a place for them was given.
#[derive(Debug, PartialEq, Eq)]
pub struct ImageQuery {
    pub result: VkResult,
    pub image_count: u32,
    pub images: Vec<Handle>,
}

/// As many images as fit into the place that was given; without a place only
/// their number.
pub fn copy_virtual_images(virtual_images: &[Handle], capacity: Option<u32>) -> (query: ImageQuery)
    requires
        virtual_images@.len() <= u32::MAX,
    ensures
        match capacity {
            None => {
                &&& query.result == SUCCESS
                &&& query.image_count == virtual_images@.len()
                &&& query.images@.len() == 0
            },
            Some(place) => {
                let count = if place < virtual_images@.len() {
                    place as int
                } else {
                    virtual_images@.len() as int
                };
                &&& query.result == (if place < virtual_images@.len() {
                    INCOMPLETE
                } else {
                    SUCCESS
                })
                &&& query.image_count == count
                &&& query.images@ == virtual_images@.take(count)
            },
        },
{
    let total: u32 = virtual_images.len() as u32;
    let place: u32 = match capacity {
        None => {
            return ImageQuery { result: SUCCESS, image_count: total, images: Vec::new() };
        },
        Some(place) => place,
    };
    let count: u32 = if place < total {
        place
    } else {
        total
    };
    let mut images: Vec<Handle> = copy_slice(virtual_images);
    images.truncate(count as usize);
    assert(images@ =~= virtual_images@.take(count as int));
    ImageQuery {
        result: if count < total {
            INCOMPLETE
        } else {
            SUCCESS
        },
        image_count: count,
        images,
    }
}

/// How a query for images is answered.
#[derive(Debug, PartialEq, Eq)]
pub enum ImagesAnswer {
    Failed(VkResult),
    Virtual(ImageQuery),
    Downstream,
}

/// Answers a query for the images of a swapchain. `count` is missing where
/// the application gave no place for it, `capacity` where it asked for the
/// number alone.
pub fn get_swapchain_images(
    layer: &Layer,
    swapchain: Handle,
    has_count: bool,
    capacity: Option<u32>,
) -> (answer: ImagesAnswer)
    requires
        layer.wf(),
        layer@.swapchains.contains_key(swapchain) ==> (
        layer@.swapchains[swapchain].contract matches Some(contract)
            ==> contract.logical.images.len() <= u32::MAX),
    ensures
        if rejected(layer@, swapchain) {
            answer == ImagesAnswer::Failed(ERROR_OUT_OF_DATE_KHR)
        } else if !has_count {
            answer == ImagesAnswer::Failed(ERROR_INITIALIZATION_FAILED)
        } else if layer@.swapchains.contains_key(swapchain)
            && layer@.swapchains[swapchain].contract is Some {
            let images = layer@.swapchains[swapchain].contract.unwrap().logical.images;
            &&& answer matches ImagesAnswer::Virtual(query)
            &&& query.images@ == (match capacity {
                None => Seq::<Handle>::empty(),
                Some(place) => if place < images.len() {
                    images.take(place as int)
                } else {
                    images
                },
            })
            &&& query.image_count == (match capacity {
                Some(place) if place < images.len() => place as int,
                _ => images.len() as int,
            })
            &&& query.result == (match capacity {
                Some(place) if place < images.len() => INCOMPLETE,
                _ => SUCCESS,
            })
        } else {
            answer == ImagesAnswer::Downstream
        },
{
    if let Err(error) = reject_retired_swapchain(layer, swapchain) {
        return ImagesAnswer::Failed(error);
    }
    if !has_count {
        return ImagesAnswer::Failed(ERROR_INITIALIZATION_FAILED);
    }
    match layer.swapchains.get(swapchain) {
        None => ImagesAnswer::Downstream,
        Some(state) => {
            assert(layer@.swapchains[swapchain] == state@);
            match &state.contract {
                None => ImagesAnswer::Downstream,
                Some(contract) => {
                    let query: ImageQuery = copy_virtual_images(
                        contract.logical_images(),
                        capacity,
                    );
                    assert(query.images@ =~= (match capacity {
                        None => Seq::<Handle>::empty(),
                        Some(place) => if place < contract@.logical.images.len() {
                            contract@.logical.images.take(place as int)
                        } else {
                            contract@.logical.images
                        },
                    }));
                    ImagesAnswer::Virtual(query)
                },
            }
        },
    }
}

/// An acquire that goes downstream.
#[derive(Debug, Clone, Copy, PartialEq, Eq, Structural)]
pub struct PendingAcquire {
    pub swapchain: Handle,
    /// The swapchain that the downstream command names.
    pub physical: Handle,
    /// The slot that waits for the image, where the swapchain is virtual.
    pub reserved: Option<u32>,
}

/// What an acquire does to the layer before it goes downstream: a virtual
/// swapchain reserves its first free slot.
pub open spec fn acquire_begun(
    layer: LayerModel,
    swapchain: Handle,
    pending: PendingAcquire,
) -> LayerModel {
    match pending.reserved {
        Some(slot) => layer.with_swapchain(
            swapchain,
            with_mapping(
                layer.swapchains[swapchain],
                layer.swapchains[swapchain].mapping.unwrap().reserve(slot as int),
            ),
        ),
        None => layer,
    }
}

/// The acquire is addressed as the layer's tables say.
pub open spec fn acquire_addressed(
    layer: LayerModel,
    swapchain: Handle,
    pending: PendingAcquire,
) -> bool {
    &&& pending.swapchain == swapchain
    &&& match physical_behind(layer, swapchain) {
        Some(physical) => {
            &&& pending.physical == physical
            &&& pending.reserved matches Some(slot)
            &&& layer.swapchains[swapchain].mapping.unwrap().first_free(slot as int)
        },
        None => pending.physical == swapchain && pending.reserved is None,
    }
}

/// Why an acquire does not go downstream, if it does not.
pub open spec fn acquire_refusal(
    layer: LayerModel,
    swapchain: Handle,
    has_index: bool,
) -> Option<VkResult> {
    if rejected(layer, swapchain) {
        Some(ERROR_OUT_OF_DATE_KHR)
    } else if !has_index {
        Some(ERROR_INITIALIZATION_FAILED)
    } else if physical_behind(layer, swapchain) is Some
        && layer.swapchains[swapchain].mapping.unwrap().full() {
        Some(ERROR_OUT_OF_DATE_KHR)
    } else {
        None
    }
}

/// Starts an acquire. A slot is reserved before the command goes downstream,
/// so a virtual swapchain without a free slot never asks for an image.
pub fn begin_acquire(layer: &mut Layer, swapchain: Handle, has_index: bool) -> (result: Result<
    PendingAcquire,
    VkResult,
>)
    requires
        old(layer).wf(),
    ensures
        final(layer).wf(),
        match result {
            Ok(pending) => {
                &&& acquire_refusal(old(layer)@, swapchain, has_index) is None
                &&& acquire_addressed(old(layer)@, swapchain, pending)
                &&& final(layer)@ == acquire_begun(old(layer)@, swapchain, pending)
            },
            Err(error) => {
                &&& acquire_refusal(old(layer)@, swapchain, has_index) == Some(error)
                &&& final(layer)@ == old(layer)@
            },
        },
{
    if let Err(error) = reject_retired_swapchain(layer, swapchain) {
        return Err(error);
    }
    let behind: Option<Handle> = virtual_physical_swapchain(layer, swapchain);
    if !has_index {
        return Err(ERROR_INITIALIZATION_FAILED);
    }
    let physical: Handle = match behind {
        None => {
            return Ok(PendingAcquire { swapchain, physical: swapchain, reserved: None });
        },
        Some(physical) => physical,
    };
    match layer.swapchains.find(swapchain) {
        None => Err(ERROR_OUT_OF_DATE_KHR),
        Some(index) => {
            let ghost before = layer.swapchains;
            let ghost model = layer@;
            assert(model.swapchains[swapchain] == before.value_seq()[index as int]@);
            let reserved: Result<Option<u32>, VkResult> = reserve_image_slot(
                layer.swapchains.at_mut(index),
            );
            proof {
                lemma_set_swapchain(before, layer.swapchains, index as int);
            }
            match reserved {
                Ok(slot) => {
                    let pending = PendingAcquire { swapchain, physical, reserved: slot };
                    assert(layer@ =~= acquire_begun(model, swapchain, pending));
                    Ok(pending)
                },
                Err(error) => {
                    assert(model.swapchains.insert(swapchain, model.swapchains[swapchain])
                        =~= model.swapchains);
                    Err(error)
                },
            }
        },
    }
}

/// Starts an acquire whose parameters come in a structure: a missing one, or
/// a missing place for the index, comes before everything else.
pub fn begin_acquire2(layer: &mut Layer, swapchain: Option<Handle>, has_index: bool) -> (result:
    Result<PendingAcquire, VkResult>)
    requires
        old(layer).wf(),
    ensures
        final(layer).wf(),
        match result {
            Ok(pending) => {
                &&& swapchain is Some
                &&& has_index
                &&& acquire_refusal(old(layer)@, swapchain.unwrap(), true) is None
                &&& acquire_addressed(old(layer)@, swapchain.unwrap(), pending)
                &&& final(layer)@ == acquire_begun(old(layer)@, swapchain.unwrap(), pending)
            },
            Err(error) => {
                &&& final(layer)@ == old(layer)@
                &&& if swapchain is None || !has_index {
                    error == ERROR_INITIALIZATION_FAILED
                } else {
                    acquire_refusal(old(layer)@, swapchain.unwrap(), true) == Some(error)
                }
            },
        },
{
    match swapchain {
        None => Err(ERROR_INITIALIZATION_FAILED),
        Some(handle) => {
            if !has_index {
                return Err(ERROR_INITIALIZATION_FAILED);
            }
            begin_acquire(layer, handle, true)
        },
    }
}

/// How an acquire ends: the result, the index to hand to the application, and
/// the downstream image to give back at once.
#[derive(Debug, Clone, Copy, PartialEq, Eq, Structural)]
pub struct AcquireOutcome {
    pub result: VkResult,
    pub image_index: Option<u32>,
    pub release: Option<u32>,
}

/// The slot that an acquire reserved can take the image.
pub open spec fn slot_takes(layer: LayerModel, pending: PendingAcquire, image_index: u32) -> bool {
    &&& layer.swapchains.contains_key(pending.swapchain)
    &&& layer.swapchains[pending.swapchain].mapping matches Some(mapping)
    &&& !mapping.busy(image_index)
    &&& pending.reserved.unwrap() < mapping.bound.len()
    &&& mapping.reserved[pending.reserved.unwrap() as int]
}

/// The index that the application gets for a downstream image. A swapchain
/// that was taken out while the acquire was under way keeps the reservation to
/// itself, and hands the slot out all the same.
pub open spec fn acquired_index(
    layer: LayerModel,
    pending: PendingAcquire,
    image_index: u32,
) -> Option<u32> {
    match pending.reserved {
        None => Some(image_index),
        Some(slot) => if !layer.swapchains.contains_key(pending.swapchain) {
            Some(slot)
        } else if layer.swapchains[pending.swapchain].mapping is None {
            Some(image_index)
        } else if slot_takes(layer, pending, image_index) {
            Some(slot)
        } else {
            None
        },
    }
}

/// The reservation of an acquire, given back.
pub open spec fn acquire_cancelled(layer: LayerModel, pending: PendingAcquire) -> LayerModel {
    if pending.reserved is Some && layer.swapchains.contains_key(pending.swapchain)
        && layer.swapchains[pending.swapchain].mapping is Some {
        layer.with_swapchain(
            pending.swapchain,
            with_mapping(
                layer.swapchains[pending.swapchain],
                layer.swapchains[pending.swapchain].mapping.unwrap().unreserve(
                    pending.reserved.unwrap() as int,
                ),
            ),
        )
    } else {
        layer
    }
}

/// What the downstream answer makes of an acquire: without a command to call
/// it fails; a result without an image is passed on; an image is bound to the
/// reserved slot, or given back where the slot cannot take it.
pub open spec fn acquire_outcome(
    layer: LayerModel,
    pending: PendingAcquire,
    answer: Option<(VkResult, u32)>,
) -> AcquireOutcome {
    match answer {
        None => AcquireOutcome {
            result: ERROR_INITIALIZATION_FAILED,
            image_index: None,
            release: None,
        },
        Some((result, image_index)) => if !hands_out(result) {
            AcquireOutcome { result, image_index: None, release: None }
        } else if acquired_index(layer, pending, image_index) is Some {
            AcquireOutcome {
                result,
                image_index: acquired_index(layer, pending, image_index),
                release: None,
            }
        } else {
            AcquireOutcome {
                result: ERROR_OUT_OF_DATE_KHR,
                image_index: None,
                release: Some(image_index),
            }
        },
    }
}

pub open spec fn acquire_finished(
    layer: LayerModel,
    pending: PendingAcquire,
    answer: Option<(VkResult, u32)>,
) -> LayerModel {
    match answer {
        Some((result, image_index)) if hands_out(result) => if pending.reserved is None {
            layer
        } else if slot_takes(layer, pending, image_index) {
            layer.with_swapchain(
                pending.swapchain,
                with_mapping(
                    layer.swapchains[pending.swapchain],
                    layer.swapchains[pending.swapchain].mapping.unwrap().bind(
                        pending.reserved.unwrap() as int,
                        image_index,
                    ),
                ),
            )
        } else {
            acquire_cancelled(layer, pending)
        },
        _ => acquire_cancelled(layer, pending),
    }
}

/// Ends an acquire with the downstream answer, `None` where there is no
/// command to call.
pub fn finish_acquire(
    layer: &mut Layer,
    pending: PendingAcquire,
    answer: Option<(VkResult, u32)>,
) -> (outcome: AcquireOutcome)
    requires
        old(layer).wf(),
    ensures
        final(layer).wf(),
        outcome == acquire_outcome(old(layer)@, pending, answer),
        final(layer)@ == acquire_finished(old(layer)@, pending, answer),
{
    let ghost model = layer@;
    let slot: u32 = match pending.reserved {
        None => {
            return match answer {
                None => AcquireOutcome {
                    result: ERROR_INITIALIZATION_FAILED,
                    image_index: None,
                    release: None,
                },
                Some((result, image_index)) => AcquireOutcome {
                    result,
                    image_index: if acquired(result) {
                        Some(image_index)
                    } else {
                        None
                    },
                    release: None,
                },
            };
        },
        Some(slot) => slot,
    };
    let mut handed_out: Option<u32> = Some(slot);
    if let Some(index) = layer.swapchains.find(pending.swapchain) {
        let ghost before = layer.swapchains;
        assert(model.swapchains[pending.swapchain] == before.value_seq()[index as int]@);
        let state: &mut SwapchainState = layer.swapchains.at_mut(index);
        handed_out = None;
        if let Some((result, image_index)) = answer {
            if acquired(result) {
                if state.mapping.is_none() {
                    handed_out = Some(image_index);
                } else if map_acquired_image(state, slot, image_index).is_ok() {
                    handed_out = Some(slot);
                }
            }
        }
        if handed_out.is_none() && state.mapping.is_some() {
            cancel_reserved_image(state, Some(slot));
        }
        proof {
            lemma_set_swapchain(before, layer.swapchains, index as int);
        }
    }
    proof {
        if model.swapchains.contains_key(pending.swapchain) {
            assert(model.swapchains.insert(
                pending.swapchain,
                model.swapchains[pending.swapchain],
            ) =~= model.swapchains);
        }
        assert(layer@ =~= acquire_finished(model, pending, answer));
    }
    match answer {
        None => AcquireOutcome {
            result: ERROR_INITIALIZATION_FAILED,
            image_index: None,
            release: None,
        },
        Some((result, image_index)) => if !acquired(result) {
            AcquireOutcome { result, image_index: None, release: None }
        } else if handed_out.is_some() {
            AcquireOutcome { result, image_index: handed_out, release: None }
        } else {
            AcquireOutcome {
                result: ERROR_OUT_OF_DATE_KHR,
                image_index: None,
                release: Some(image_index),
            }
        },
    }
}

/// An acquire that gets no image leaves the layer as it was before it.
pub proof fn a_failed_acquire_changes_nothing(
    layer: LayerModel,
    swapchain: Handle,
    pending: PendingAcquire,
    answer: Option<(VkResult, u32)>,
)
    requires
        layer.wf(),
        acquire_addressed(layer, swapchain, pending),
        answer matches Some((result, _)) ==> !hands_out(result),
    ensures
        acquire_finished(acquire_begun(layer, swapchain, pending), pending, answer) == layer,
{
    if pending.reserved is Some {
        let slot = pending.reserved.unwrap() as int;
        let mapping = layer.swapchains[swapchain].mapping.unwrap();
        crate::layer::mapping::cancel_undoes_reserve(mapping, slot);
        let begun = acquire_begun(layer, swapchain, pending);
        let ended = acquire_cancelled(begun, pending);
        assert(ended.swapchains[swapchain] =~= layer.swapchains[swapchain]);
        assert(ended.swapchains =~= layer.swapchains);
        assert(ended =~= layer);
    }
}

/// A virtual swapchain whose slots are all taken asks for no image.
pub proof fn a_full_mapping_never_goes_downstream(layer: LayerModel, swapchain: Handle)
    requires
        physical_behind(layer, swapchain) is Some,
        layer.swapchains[swapchain].mapping.unwrap().full(),
    ensures
        acquire_refusal(layer, swapchain, true) == Some(ERROR_OUT_OF_DATE_KHR),
{
}

/// An acquire goes downstream exactly where its token is good, there is a place
/// for the index, and a virtual swapchain has a slot left.
pub proof fn an_acquire_is_refused_for_a_reason(
    layer: LayerModel,
    swapchain: Handle,
    has_index: bool,
)
    ensures
        ({
            let state = layer.swapchains[swapchain];
            let known = layer.swapchains.contains_key(swapchain);
            let bad = layer.retired.contains(swapchain) || (!known && swapchain
                > 0x8000_0000_0000_0000);
            let virtual_one = known && state.mapping is Some && state.contract is Some;
            let refused = acquire_refusal(layer, swapchain, has_index);
            if bad {
                refused == Some(ERROR_OUT_OF_DATE_KHR)
            } else if !has_index {
                refused == Some(ERROR_INITIALIZATION_FAILED)
            } else if virtual_one && state.mapping.unwrap().full() {
                refused == Some(ERROR_OUT_OF_DATE_KHR)
            } else {
                refused is None
            }
        }),
{
}

/// An acquire of a virtual swapchain asks its downstream swapchain and holds the
/// smallest free slot; any other goes down as it came and holds nothing.
pub proof fn an_acquire_asks_the_swapchain_behind(
    layer: LayerModel,
    swapchain: Handle,
    pending: PendingAcquire,
    other: int,
)
    requires
        acquire_addressed(layer, swapchain, pending),
    ensures
        ({
            let state = layer.swapchains[swapchain];
            let virtual_one = layer.swapchains.contains_key(swapchain) && state.mapping is Some
                && state.contract is Some;
            let begun = acquire_begun(layer, swapchain, pending);
            &&& pending.swapchain == swapchain
            &&& !virtual_one ==> pending.physical == swapchain && pending.reserved is None && begun
                == layer
            &&& virtual_one ==> {
                let slots = state.mapping.unwrap();
                let now = begun.swapchains[swapchain];
                &&& pending.physical == state.physical_handle
                &&& pending.reserved matches Some(slot)
                &&& slot < slots.bound.len()
                &&& slots.bound[slot as int] is None
                &&& !slots.reserved[slot as int]
                &&& 0 <= other < slot ==> slots.bound[other] is Some || slots.reserved[other]
                &&& now == SwapchainModel { mapping: now.mapping, ..state }
                &&& now.mapping.unwrap().bound == slots.bound
                &&& now.mapping.unwrap().reserved == slots.reserved.update(slot as int, true)
                &&& begun == LayerModel {
                    swapchains: layer.swapchains.insert(swapchain, now),
                    ..layer
                }
            }
        }),
{
    if pending.reserved is Some && 0 <= other < pending.reserved.unwrap() {
        assert(!layer.swapchains[swapchain].mapping.unwrap().free(other));
    }
}

/// The driver's image goes to the slot that was held for it, and the application
/// gets the slot. An image that another slot holds already is given back, and the
/// slot is free again. A result without an image is passed on as it is.
pub proof fn an_acquired_image_goes_to_its_slot(
    layer: LayerModel,
    pending: PendingAcquire,
    result: VkResult,
    image: u32,
)
    requires
        layer.wf(),
        layer.swapchains.contains_key(pending.swapchain),
        layer.swapchains[pending.swapchain].mapping is Some,
        pending.reserved is Some,
        pending.reserved.unwrap() < layer.swapchains[pending.swapchain].mapping.unwrap().bound.len(),
        layer.swapchains[pending.swapchain].mapping.unwrap().reserved[pending.reserved.unwrap() as int],
    ensures
        ({
            let slot = pending.reserved.unwrap();
            let before = layer.swapchains[pending.swapchain].mapping.unwrap();
            let outcome = acquire_outcome(layer, pending, Some((result, image)));
            let after = acquire_finished(layer, pending, Some((result, image)));
            let now = after.swapchains[pending.swapchain].mapping.unwrap();
            let came = result == 0 || result == 1000001003;
            let held = exists|i: int|
                0 <= i < before.bound.len() && (#[trigger] before.bound[i] matches Some(other)
                    && other.index == image);
            &&& !came ==> outcome == (AcquireOutcome { result, image_index: None, release: None })
            &&& came && !held ==> {
                &&& outcome == (AcquireOutcome { result, image_index: Some(slot), release: None })
                &&& now.bound[slot as int] matches Some(taken) && taken.index == image
                &&& !now.reserved[slot as int]
            }
            &&& came && held ==> {
                &&& outcome == (AcquireOutcome {
                    result: ERROR_OUT_OF_DATE_KHR,
                    image_index: None,
                    release: Some(image),
                })
                &&& now.bound == before.bound
            }
            &&& !came || held ==> !now.reserved[slot as int] && now.bound == before.bound
        }),
{
    let before = layer.swapchains[pending.swapchain].mapping.unwrap();
    assert(layer.swapchains[pending.swapchain].wf());
    crate::layer::mapping::the_smallest_free_slot_is_taken(before, 0, 0, image);
    if exists|i: int|
        0 <= i < before.bound.len() && (#[trigger] before.bound[i] matches Some(other)
            && other.index == image) {
        let i = choose|i: int|
            0 <= i < before.bound.len() && (#[trigger] before.bound[i] matches Some(other)
                && other.index == image);
        crate::layer::mapping::the_smallest_free_slot_is_taken(before, 0, i, image);
    }
}

/// An acquire of a swapchain without slots of its own hands on what the driver
/// gave; one that could not be made at all fails.
pub proof fn a_direct_acquire_is_passed_on(
    layer: LayerModel,
    pending: PendingAcquire,
    result: VkResult,
    image: u32,
)
    requires
        pending.reserved is None,
    ensures
        acquire_outcome(layer, pending, Some((result, image))) == (AcquireOutcome {
            result,
            image_index: if result == 0 || result == 1000001003 {
                Some(image)
            } else {
                None
            },
            release: None,
        }),
        acquire_finished(layer, pending, Some((result, image))) == layer,
        acquire_outcome(layer, pending, None) == (AcquireOutcome {
            result: ERROR_INITIALIZATION_FAILED,
            image_index: None,
            release: None,
        }),
{
}

/// A slot takes an image where it is one of the mapping's, reserved for the
/// acquire, and no other slot holds the image.
pub proof fn a_reserved_slot_takes_an_image(
    layer: LayerModel,
    pending: PendingAcquire,
    image_index: u32,
    slot: u32,
)
    requires
        pending.reserved == Some(slot),
        layer.swapchains.contains_key(pending.swapchain),
        layer.swapchains[pending.swapchain].mapping is Some,
    ensures
        ({
            let mapping = layer.swapchains[pending.swapchain].mapping.unwrap();
            slot_takes(layer, pending, image_index) <==> slot < mapping.bound.len()
                && mapping.reserved[slot as int] && !mapping.busy(image_index)
        }),
{
}

} // verus!
