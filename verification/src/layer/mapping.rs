//! Application-visible image slots and the downstream images behind them.

use vstd::prelude::*;

use crate::vk::{Handle, VkResult, ERROR_OUT_OF_DATE_KHR};

verus! {

#[derive(Debug, Clone, Copy, PartialEq, Eq, Structural)]
pub enum AcquireError {
    PhysicalBusy,
    NoLogicalSlot,
}

#[derive(Debug, Clone, Copy, PartialEq, Eq, Structural)]
pub enum PresentError {
    UnknownLogicalSlot,
    LogicalSlotIdle,
}

#[derive(Debug, Clone, Copy, PartialEq, Eq, Structural)]
pub enum ReleaseError {
    DuplicateLogicalSlot,
    LogicalSlotIdle,
    OutOfRange,
}

/// The lowest value of the tagged namespace. It is itself not a handle.
pub const LOGICAL_TAG: u64 = 0x8000_0000_0000_0000;

const LOGICAL_PAYLOAD: u64 = 0x7fff_ffff_ffff_ffff;

/// A raw handle that belongs to the layer: tagged, with a payload that is not
/// zero.
pub open spec fn reserved_handle(raw: u64) -> bool {
    raw > LOGICAL_TAG
}

/// Application-visible swapchain keys live in a tagged namespace. Vulkan never
/// dereferences non-dispatchable handles; the layer resolves this token before
/// every downstream call.
#[derive(Debug, Clone, Copy, PartialEq, Eq, Structural)]
pub struct LogicalSwapchainHandle(u64);

impl View for LogicalSwapchainHandle {
    type V = u64;

    closed spec fn view(&self) -> u64 {
        self.0
    }
}

impl LogicalSwapchainHandle {
    pub fn from_counter(counter: u64) -> (handle: Self)
        ensures
            handle@ == LOGICAL_TAG + counter % LOGICAL_TAG,
    {
        assert((0x8000_0000_0000_0000u64 | (counter & 0x7fff_ffff_ffff_ffffu64))
            == 0x8000_0000_0000_0000u64 + counter % 0x8000_0000_0000_0000u64) by (bit_vector);
        LogicalSwapchainHandle(LOGICAL_TAG | (counter & LOGICAL_PAYLOAD))
    }

    pub fn from_raw(raw: u64) -> (handle: Option<Self>)
        ensures
            handle is Some <==> reserved_handle(raw),
            handle matches Some(h) ==> h@ == raw,
    {
        assert((raw & 0x8000_0000_0000_0000u64 != 0) == (raw >= 0x8000_0000_0000_0000u64))
            by (bit_vector);
        if (raw & LOGICAL_TAG != 0) && raw != LOGICAL_TAG {
            Some(LogicalSwapchainHandle(raw))
        } else {
            None
        }
    }

    pub fn raw(self) -> (raw: u64)
        ensures
            raw == self@,
    {
        self.0
    }

    pub fn is_reserved(raw: u64) -> (reserved: bool)
        ensures
            reserved == reserved_handle(raw),
    {
        Self::from_raw(raw).is_some()
    }
}

/// A downstream image of one swapchain generation.
#[derive(Debug, Clone, Copy, PartialEq, Eq, Structural)]
pub struct PhysicalImage {
    pub generation: u64,
    pub index: u32,
}

/// What a [`Mapping`] holds: the current generation, the image behind each
/// slot, and which slots are promised to an acquire that is under way.
#[verifier::ext_equal]
pub struct MappingModel {
    pub generation: u64,
    pub bound: Seq<Option<PhysicalImage>>,
    pub reserved: Seq<bool>,
}

impl MappingModel {
    /// Slot numbers fit their type; a reserved slot is unbound; every bound
    /// image is of the current generation; no image stands behind two slots.
    pub open spec fn wf(self) -> bool {
        &&& self.bound.len() == self.reserved.len()
        &&& self.bound.len() <= 0x1_0000_0000
        &&& forall|i: int|
            0 <= i < self.bound.len() && #[trigger] self.reserved[i] ==> self.bound[i] is None
        &&& forall|i: int|
            0 <= i < self.bound.len() ==> (#[trigger] self.bound[i] matches Some(image)
                ==> image.generation == self.generation)
        &&& forall|i: int, j: int|
            0 <= i < j < self.bound.len() && self.bound[i] is Some ==> #[trigger] self.bound[i]
                != #[trigger] self.bound[j]
    }

    pub open spec fn free(self, slot: int) -> bool {
        &&& 0 <= slot < self.bound.len()
        &&& self.bound[slot] is None
        &&& !self.reserved[slot]
    }

    pub open spec fn full(self) -> bool {
        forall|i: int| #![trigger self.bound[i]] 0 <= i < self.bound.len() ==> !self.free(i)
    }

    /// The free slot with the smallest number.
    pub open spec fn first_free(self, slot: int) -> bool {
        &&& self.free(slot)
        &&& forall|i: int| #![trigger self.bound[i]] 0 <= i < slot ==> !self.free(i)
    }

    pub open spec fn idle(self) -> bool {
        forall|i: int| #![trigger self.bound[i]] 0 <= i < self.bound.len() ==> self.free(i)
    }

    /// Some slot holds this image of the current generation.
    pub open spec fn busy(self, physical_index: u32) -> bool {
        exists|i: int|
            0 <= i < self.bound.len() && #[trigger] self.bound[i] == Some(
                PhysicalImage { generation: self.generation, index: physical_index },
            )
    }

    /// The image index behind a slot, if the slot is bound.
    pub open spec fn image(self, slot: int) -> Option<u32> {
        if 0 <= slot < self.bound.len() {
            match self.bound[slot] {
                Some(image) => Some(image.index),
                None => None,
            }
        } else {
            None
        }
    }

    pub open spec fn reserve(self, slot: int) -> MappingModel {
        MappingModel { reserved: self.reserved.update(slot, true), ..self }
    }

    pub open spec fn unreserve(self, slot: int) -> MappingModel {
        if 0 <= slot < self.reserved.len() {
            MappingModel { reserved: self.reserved.update(slot, false), ..self }
        } else {
            self
        }
    }

    /// A slot leaves its reservation and holds an image of the current
    /// generation.
    pub open spec fn bind(self, slot: int, physical_index: u32) -> MappingModel {
        MappingModel {
            bound: self.bound.update(
                slot,
                Some(PhysicalImage { generation: self.generation, index: physical_index }),
            ),
            reserved: self.reserved.update(slot, false),
            ..self
        }
    }

    pub open spec fn unbind(self, slot: int) -> MappingModel {
        MappingModel { bound: self.bound.update(slot, None), ..self }
    }

    /// Every slot named in `slots` is unbound, all others stay.
    pub open spec fn unbind_all(self, slots: Seq<u32>) -> MappingModel {
        MappingModel {
            bound: Seq::new(
                self.bound.len(),
                |i: int| if slots.contains(i as u32) { None } else { self.bound[i] },
            ),
            ..self
        }
    }

    /// What keeps the request at `position` from being released.
    pub open spec fn release_fault(self, slots: Seq<u32>, position: int) -> Option<ReleaseError> {
        if slots.take(position).contains(slots[position]) {
            Some(ReleaseError::DuplicateLogicalSlot)
        } else if slots[position] >= self.bound.len() {
            Some(ReleaseError::OutOfRange)
        } else if self.bound[slots[position] as int] is None {
            Some(ReleaseError::LogicalSlotIdle)
        } else {
            None
        }
    }

    /// A plan still describes the mapping: its generation, and every image
    /// behind every slot that it names.
    pub open spec fn plan_current(self, plan: ReleasePlanModel) -> bool {
        &&& self.generation == plan.generation
        &&& plan.logical.len() == plan.physical.len()
        &&& forall|p: int|
            0 <= p < plan.logical.len() ==> self.image(#[trigger] plan.logical[p] as int) == Some(
                plan.physical[p],
            )
    }
}

/// The slots that a release gives up and the images behind them.
#[verifier::ext_equal]
pub struct ReleasePlanModel {
    pub generation: u64,
    pub logical: Seq<u32>,
    pub physical: Seq<u32>,
}

#[derive(Debug, PartialEq, Eq)]
pub struct ReleasePlan {
    generation: u64,
    logical_indices: Vec<u32>,
    physical_indices: Vec<u32>,
}

impl View for ReleasePlan {
    type V = ReleasePlanModel;

    closed spec fn view(&self) -> ReleasePlanModel {
        ReleasePlanModel {
            generation: self.generation,
            logical: self.logical_indices@,
            physical: self.physical_indices@,
        }
    }
}

impl ReleasePlan {
    pub fn physical_indices(&self) -> (indices: &[u32])
        ensures
            indices@ == self@.physical,
    {
        self.physical_indices.as_slice()
    }
}

/// Maps application-visible image slots to the images acquired from the
/// current downstream swapchain generation. It deliberately contains no Vulkan
/// handles, so the ownership policy is deterministic.
#[derive(Debug)]
pub struct Mapping {
    generation: u64,
    logical_slots: Vec<Option<PhysicalImage>>,
    reserved_slots: Vec<bool>,
}

impl View for Mapping {
    type V = MappingModel;

    closed spec fn view(&self) -> MappingModel {
        MappingModel {
            generation: self.generation,
            bound: self.logical_slots@,
            reserved: self.reserved_slots@,
        }
    }
}

impl Mapping {
    pub fn new(generation: u64, logical_image_count: usize) -> (mapping: Self)
        requires
            logical_image_count <= 0x1_0000_0000,
        ensures
            mapping@.wf(),
            mapping@.generation == generation,
            mapping@.bound.len() == logical_image_count,
            mapping@.idle(),
    {
        let mut logical_slots: Vec<Option<PhysicalImage>> = Vec::new();
        let mut reserved_slots: Vec<bool> = Vec::new();
        let mut count: usize = 0;
        while count < logical_image_count
            invariant
                count <= logical_image_count,
                logical_slots.len() == count,
                reserved_slots.len() == count,
                forall|i: int| 0 <= i < count ==> logical_slots@[i] is None,
                forall|i: int| 0 <= i < count ==> !reserved_slots@[i],
            decreases logical_image_count - count,
        {
            logical_slots.push(None);
            reserved_slots.push(false);
            count = count + 1;
        }
        Mapping { generation, logical_slots, reserved_slots }
    }

    pub fn generation(&self) -> (generation: u64)
        ensures
            generation == self@.generation,
    {
        self.generation
    }

    pub fn is_idle(&self) -> (idle: bool)
        requires
            self@.wf(),
        ensures
            idle == self@.idle(),
    {
        let mut index: usize = 0;
        while index < self.logical_slots.len()
            invariant
                self@.wf(),
                index <= self.logical_slots.len(),
                forall|i: int| #![trigger self@.bound[i]] 0 <= i < index ==> self@.free(i),
            decreases self.logical_slots.len() - index,
        {
            if self.logical_slots[index].is_some() || self.reserved_slots[index] {
                assert(!self@.free(index as int) && self@.bound[index as int]
                    == self.logical_slots@[index as int]);
                return false;
            }
            index = index + 1;
        }
        true
    }

    /// Reserves the first free slot and binds the image to it.
    pub fn acquire(&mut self, physical_index: u32) -> (result: Result<u32, AcquireError>)
        requires
            old(self)@.wf(),
        ensures
            final(self)@.wf(),
            match result {
                Ok(slot) => {
                    &&& old(self)@.first_free(slot as int)
                    &&& !old(self)@.busy(physical_index)
                    &&& final(self)@ == old(self)@.bind(slot as int, physical_index)
                },
                Err(AcquireError::NoLogicalSlot) => {
                    &&& old(self)@.full()
                    &&& final(self)@ == old(self)@
                },
                Err(AcquireError::PhysicalBusy) => {
                    &&& !old(self)@.full()
                    &&& old(self)@.busy(physical_index)
                    &&& final(self)@ == old(self)@
                },
            },
    {
        let logical_index: u32 = match self.reserve_slot() {
            Ok(logical_index) => logical_index,
            Err(error) => {
                return Err(error);
            },
        };
        match self.bind_reserved(logical_index, physical_index) {
            Err(error) => {
                self.cancel_reservation(logical_index);
                Err(error)
            },
            Ok(()) => Ok(logical_index),
        }
    }

    pub fn reserve_slot(&mut self) -> (result: Result<u32, AcquireError>)
        requires
            old(self)@.wf(),
        ensures
            final(self)@.wf(),
            match result {
                Ok(slot) => {
                    &&& old(self)@.first_free(slot as int)
                    &&& final(self)@ == old(self)@.reserve(slot as int)
                },
                Err(error) => {
                    &&& error == AcquireError::NoLogicalSlot
                    &&& old(self)@.full()
                    &&& final(self)@ == old(self)@
                },
            },
    {
        let mut index: usize = 0;
        while index < self.reserved_slots.len()
            invariant
                self@ == old(self)@,
                self@.wf(),
                index <= self.reserved_slots.len(),
                forall|i: int| #![trigger self@.bound[i]] 0 <= i < index ==> !self@.free(i),
            decreases self.reserved_slots.len() - index,
        {
            if !self.reserved_slots[index] && self.logical_slots[index].is_none() {
                self.reserved_slots.set(index, true);
                return Ok(index as u32);
            }
            index = index + 1;
        }
        Err(AcquireError::NoLogicalSlot)
    }

    pub fn bind_reserved(&mut self, logical_index: u32, physical_index: u32) -> (result: Result<
        (),
        AcquireError,
    >)
        requires
            old(self)@.wf(),
        ensures
            final(self)@.wf(),
            match result {
                Ok(_) => {
                    &&& !old(self)@.busy(physical_index)
                    &&& logical_index < old(self)@.bound.len()
                    &&& old(self)@.reserved[logical_index as int]
                    &&& final(self)@ == old(self)@.bind(logical_index as int, physical_index)
                },
                Err(AcquireError::PhysicalBusy) => {
                    &&& old(self)@.busy(physical_index)
                    &&& final(self)@ == old(self)@
                },
                Err(AcquireError::NoLogicalSlot) => {
                    &&& !old(self)@.busy(physical_index)
                    &&& !(logical_index < old(self)@.bound.len()
                        && old(self)@.reserved[logical_index as int])
                    &&& final(self)@ == old(self)@
                },
            },
    {
        let mut position: usize = 0;
        while position < self.logical_slots.len()
            invariant
                self@ == old(self)@,
                self@.wf(),
                position <= self.logical_slots.len(),
                forall|i: int|
                    0 <= i < position ==> #[trigger] self@.bound[i] != Some(
                        PhysicalImage { generation: self@.generation, index: physical_index },
                    ),
            decreases self.logical_slots.len() - position,
        {
            if let Some(mapped) = self.logical_slots[position] {
                if mapped.generation == self.generation && mapped.index == physical_index {
                    assert(self@.bound[position as int] == Some(mapped));
                    return Err(AcquireError::PhysicalBusy);
                }
            }
            position = position + 1;
        }
        let index: usize = logical_index as usize;
        if index >= self.reserved_slots.len() || !self.reserved_slots[index]
            || self.logical_slots[index].is_some() {
            return Err(AcquireError::NoLogicalSlot);
        }
        self.reserved_slots.set(index, false);
        self.logical_slots.set(
            index,
            Some(PhysicalImage { generation: self.generation, index: physical_index }),
        );
        Ok(())
    }

    pub fn cancel_reservation(&mut self, logical_index: u32)
        requires
            old(self)@.wf(),
        ensures
            final(self)@.wf(),
            final(self)@ == old(self)@.unreserve(logical_index as int),
    {
        if (logical_index as usize) < self.reserved_slots.len() {
            self.reserved_slots.set(logical_index as usize, false);
        }
    }

    pub fn present(&mut self, logical_index: u32) -> (result: Result<u32, PresentError>)
        requires
            old(self)@.wf(),
        ensures
            final(self)@.wf(),
            match result {
                Ok(physical_index) => {
                    &&& old(self)@.image(logical_index as int) == Some(physical_index)
                    &&& final(self)@ == old(self)@.unbind(logical_index as int)
                },
                Err(PresentError::UnknownLogicalSlot) => {
                    &&& logical_index >= old(self)@.bound.len()
                    &&& final(self)@ == old(self)@
                },
                Err(PresentError::LogicalSlotIdle) => {
                    &&& logical_index < old(self)@.bound.len()
                    &&& old(self)@.bound[logical_index as int] is None
                    &&& final(self)@ == old(self)@
                },
            },
    {
        let index: usize = logical_index as usize;
        if index >= self.logical_slots.len() {
            return Err(PresentError::UnknownLogicalSlot);
        }
        match self.logical_slots[index] {
            None => Err(PresentError::LogicalSlotIdle),
            Some(mapped) => {
                self.logical_slots.set(index, None);
                assert(old(self)@.bound[index as int] == Some(mapped));
                if mapped.generation != self.generation {
                    return Err(PresentError::LogicalSlotIdle);
                }
                Ok(mapped.index)
            },
        }
    }

    pub fn resolve(&self, logical_index: u32) -> (physical_index: Option<u32>)
        requires
            self@.wf(),
        ensures
            physical_index == self@.image(logical_index as int),
    {
        let index: usize = logical_index as usize;
        if index >= self.logical_slots.len() {
            return None;
        }
        match self.logical_slots[index] {
            Some(mapped) => {
                assert(self@.bound[index as int] == Some(mapped));
                if mapped.generation == self.generation {
                    Some(mapped.index)
                } else {
                    None
                }
            },
            None => None,
        }
    }

    pub fn plan_release(&self, logical_indices: &[u32]) -> (result: Result<
        ReleasePlan,
        ReleaseError,
    >)
        requires
            self@.wf(),
        ensures
            match result {
                Ok(plan) => {
                    &&& forall|p: int|
                        0 <= p < logical_indices.len() ==> (#[trigger] self@.release_fault(
                            logical_indices@,
                            p,
                        )) is None
                    &&& plan@.generation == self@.generation
                    &&& plan@.logical == logical_indices@
                    &&& plan@.physical.len() == logical_indices.len()
                    &&& self@.plan_current(plan@)
                },
                Err(error) => exists|p: int|
                    {
                        &&& 0 <= p < logical_indices.len()
                        &&& #[trigger] self@.release_fault(logical_indices@, p) == Some(error)
                        &&& forall|q: int|
                            0 <= q < p ==> (#[trigger] self@.release_fault(
                                logical_indices@,
                                q,
                            )) is None
                    },
            },
    {
        let mut physical_indices: Vec<u32> = Vec::new();
        let mut recorded: Vec<u32> = Vec::new();
        let mut position: usize = 0;
        while position < logical_indices.len()
            invariant
                self@.wf(),
                position <= logical_indices.len(),
                physical_indices.len() == position,
                recorded@ == logical_indices@.take(position as int),
                forall|p: int|
                    0 <= p < position ==> (#[trigger] self@.release_fault(
                        logical_indices@,
                        p,
                    )) is None,
                forall|p: int|
                    0 <= p < position ==> self@.image(#[trigger] logical_indices@[p] as int)
                        == Some(physical_indices@[p]),
            decreases logical_indices.len() - position,
        {
            let logical_index: u32 = logical_indices[position];
            let mut earlier: usize = 0;
            #[verifier::loop_isolation(false)]
            while earlier < position
                invariant
                    logical_index == logical_indices@[position as int],
                    earlier <= position,
                    forall|q: int| 0 <= q < earlier ==> logical_indices@[q] != logical_index,
                decreases position - earlier,
            {
                if logical_indices[earlier] == logical_index {
                    assert(logical_indices@.take(position as int)[earlier as int]
                        == logical_index);
                    assert(self@.release_fault(logical_indices@, position as int) == Some(
                        ReleaseError::DuplicateLogicalSlot,
                    ));
                    return Err(ReleaseError::DuplicateLogicalSlot);
                }
                earlier = earlier + 1;
            }
            match self.resolve(logical_index) {
                Some(physical_index) => {
                    physical_indices.push(physical_index);
                },
                None => {
                    if (logical_index as usize) >= self.logical_slots.len() {
                        assert(self@.release_fault(logical_indices@, position as int) == Some(
                            ReleaseError::OutOfRange,
                        ));
                        return Err(ReleaseError::OutOfRange);
                    }
                    assert(self@.release_fault(logical_indices@, position as int) == Some(
                        ReleaseError::LogicalSlotIdle,
                    ));
                    return Err(ReleaseError::LogicalSlotIdle);
                },
            }
            recorded.push(logical_index);
            assert(recorded@ == logical_indices@.take(position + 1));
            position = position + 1;
        }
        assert(recorded@ == logical_indices@);
        Ok(
            ReleasePlan {
                generation: self.generation,
                logical_indices: recorded,
                physical_indices,
            },
        )
    }

    /// Gives up the planned slots, all of them or none.
    pub fn commit_release(&mut self, plan: &ReleasePlan) -> (committed: bool)
        requires
            old(self)@.wf(),
        ensures
            final(self)@.wf(),
            committed == old(self)@.plan_current(plan@),
            final(self)@ == (if committed {
                old(self)@.unbind_all(plan@.logical)
            } else {
                old(self)@
            }),
    {
        if self.generation != plan.generation || plan.logical_indices.len()
            != plan.physical_indices.len() {
            return false;
        }
        let mut position: usize = 0;
        while position < plan.logical_indices.len()
            invariant
                self@ == old(self)@,
                self@.wf(),
                self@.generation == plan@.generation,
                plan.logical_indices.len() == plan.physical_indices.len(),
                position <= plan.logical_indices.len(),
                forall|p: int|
                    0 <= p < position ==> self@.image(#[trigger] plan@.logical[p] as int) == Some(
                        plan@.physical[p],
                    ),
            decreases plan.logical_indices.len() - position,
        {
            let current: Option<u32> = self.resolve(plan.logical_indices[position]);
            let still_current: bool = match current {
                Some(physical_index) => physical_index == plan.physical_indices[position],
                None => false,
            };
            if !still_current {
                assert(self@.image(plan@.logical[position as int] as int) != Some(
                    plan@.physical[position as int],
                ));
                return false;
            }
            position = position + 1;
        }
        let mut released: usize = 0;
        while released < plan.logical_indices.len()
            invariant
                released <= plan.logical_indices.len(),
                old(self)@.wf(),
                old(self)@.plan_current(plan@),
                self@ == old(self)@.unbind_all(plan@.logical.take(released as int)),
            decreases plan.logical_indices.len() - released,
        {
            let slot: u32 = plan.logical_indices[released];
            assert(old(self)@.image(plan@.logical[released as int] as int) is Some);
            let ghost before = self@;
            self.logical_slots.set(slot as usize, None);
            proof {
                let done = plan@.logical.take(released as int);
                let next = plan@.logical.take(released + 1);
                assert(next == done.push(slot));
                assert forall|i: int| 0 <= i < before.bound.len() implies self@.bound[i]
                    == old(self)@.unbind_all(next).bound[i] by {
                    if i == slot {
                        assert(next[released as int] == slot);
                    } else if next.contains(i as u32) {
                        let w = choose|w: int| 0 <= w < next.len() && next[w] == i as u32;
                        assert(done[w] == i as u32);
                    } else if done.contains(i as u32) {
                        let w = choose|w: int| 0 <= w < done.len() && done[w] == i as u32;
                        assert(next[w] == i as u32);
                    }
                }
                assert(self@ =~= old(self)@.unbind_all(next));
            }
            released = released + 1;
        }
        assert(plan@.logical.take(plan@.logical.len() as int) == plan@.logical);
        true
    }

    /// Moves an idle mapping to another generation.
    pub fn replace_generation(&mut self, generation: u64) -> (replaced: bool)
        requires
            old(self)@.wf(),
        ensures
            final(self)@.wf(),
            replaced == old(self)@.idle(),
            final(self)@ == (if replaced {
                MappingModel { generation, ..old(self)@ }
            } else {
                old(self)@
            }),
    {
        if !self.is_idle() {
            return false;
        }
        self.generation = generation;
        true
    }

    /// Presentation stays direct unless the preflight succeeded and the
    /// swapchain is virtualized.
    pub fn direct_fallback(preflight_succeeded: bool, virtualized: bool) -> (direct: bool)
        ensures
            direct <==> !(preflight_succeeded && virtualized),
    {
        !preflight_succeeded || !virtualized
    }
}

/// The downstream swapchain and image that a present of a logical slot names.
pub fn rewrite_present_array(
    mapping: &Mapping,
    physical_swapchain: Handle,
    logical_index: u32,
) -> (result: Result<(Handle, u32), VkResult>)
    requires
        mapping@.wf(),
    ensures
        result == (match mapping@.image(logical_index as int) {
            Some(physical_index) => Ok((physical_swapchain, physical_index)),
            None => Err(ERROR_OUT_OF_DATE_KHR),
        }),
{
    match mapping.resolve(logical_index) {
        Some(physical_index) => Ok((physical_swapchain, physical_index)),
        None => Err(ERROR_OUT_OF_DATE_KHR),
    }
}

pub struct OldSwapchain;

impl OldSwapchain {
    /// Replaces the logical handle by the current downstream one; any other
    /// request stays as it is.
    pub fn translate(requested: Option<u64>, logical: u64, current_physical: u64) -> (translated:
        Option<u64>)
        ensures
            translated == (if requested == Some(logical) {
                Some(current_physical)
            } else {
                requested
            }),
    {
        match requested {
            Some(handle) => if handle == logical {
                Some(current_physical)
            } else {
                Some(handle)
            },
            None => None,
        }
    }
}

/// Every counter whose payload is not zero names a handle of the reserved
/// namespace, and no handle outside of that namespace equals it.
pub proof fn counters_name_reserved_handles(counter: u64, physical: u64)
    requires
        counter % LOGICAL_TAG != 0,
        !reserved_handle(physical),
    ensures
        reserved_handle((LOGICAL_TAG + counter % LOGICAL_TAG) as u64),
        LOGICAL_TAG + counter % LOGICAL_TAG != physical,
{
}

/// Two counters below the tag name two handles.
pub proof fn counters_name_distinct_handles(first: u64, second: u64)
    requires
        first < LOGICAL_TAG,
        second < LOGICAL_TAG,
        first != second,
    ensures
        LOGICAL_TAG + first % LOGICAL_TAG != LOGICAL_TAG + second % LOGICAL_TAG,
{
}

/// Presenting what was just acquired gives the image back and leaves the
/// mapping as it was before the acquire.
pub proof fn present_undoes_acquire(mapping: MappingModel, slot: int, physical_index: u32)
    requires
        mapping.wf(),
        mapping.first_free(slot),
        !mapping.busy(physical_index),
    ensures
        mapping.bind(slot, physical_index).image(slot) == Some(physical_index),
        mapping.bind(slot, physical_index).unbind(slot) == mapping,
{
    assert(mapping.bind(slot, physical_index).unbind(slot) =~= mapping);
}

/// A cancelled reservation leaves the mapping as it was before it.
pub proof fn cancel_undoes_reserve(mapping: MappingModel, slot: int)
    requires
        mapping.wf(),
        mapping.first_free(slot),
    ensures
        mapping.reserve(slot).unreserve(slot) == mapping,
{
    assert(mapping.reserve(slot).unreserve(slot) =~= mapping);
}

/// A plan that names a slot cannot be committed once the mapping has moved to
/// another generation.
pub proof fn stale_plan_is_not_current(
    mapping: MappingModel,
    plan: ReleasePlanModel,
    generation: u64,
)
    requires
        mapping.wf(),
        mapping.plan_current(plan),
        generation != mapping.generation,
    ensures
        !(MappingModel { generation, ..mapping }).plan_current(plan),
{
}

/// A committed plan unbinds exactly the slots that it names; every other slot
/// keeps its image, and no reservation changes.
pub proof fn commit_releases_exactly_the_plan(mapping: MappingModel, plan: ReleasePlanModel)
    requires
        mapping.wf(),
        mapping.plan_current(plan),
    ensures
        forall|slot: u32| #[trigger]
            mapping.unbind_all(plan.logical).image(slot as int) == (if plan.logical.contains(
                slot,
            ) {
                None
            } else {
                mapping.image(slot as int)
            }),
        mapping.unbind_all(plan.logical).reserved == mapping.reserved,
{
}

/// A slot that takes an image holds it, of the current generation, and is no
/// longer reserved; all other slots stay. Freeing or reserving a slot changes
/// that slot alone.
pub proof fn slots_change_one_at_a_time(
    mapping: MappingModel,
    slot: int,
    physical_index: u32,
    other: int,
)
    requires
        mapping.wf(),
        0 <= slot < mapping.bound.len(),
        0 <= other < mapping.bound.len(),
    ensures
        ({
            let bound = mapping.bind(slot, physical_index);
            &&& bound.generation == mapping.generation
            &&& bound.bound.len() == mapping.bound.len()
            &&& bound.bound[slot] is Some
            &&& bound.bound[slot].unwrap().index == physical_index
            &&& bound.bound[slot].unwrap().generation == mapping.generation
            &&& !bound.reserved[slot]
            &&& other != slot ==> bound.bound[other] == mapping.bound[other]
                && bound.reserved[other] == mapping.reserved[other]
        }),
        ({
            let freed = mapping.unbind(slot);
            &&& freed.generation == mapping.generation
            &&& freed.bound[slot] is None
            &&& other != slot ==> freed.bound[other] == mapping.bound[other]
            &&& freed.reserved == mapping.reserved
        }),
        ({
            let reserved = mapping.reserve(slot);
            &&& reserved.generation == mapping.generation
            &&& reserved.bound == mapping.bound
            &&& reserved.reserved[slot]
            &&& other != slot ==> reserved.reserved[other] == mapping.reserved[other]
        }),
        ({
            let given = mapping.unreserve(slot);
            &&& given.generation == mapping.generation
            &&& given.bound == mapping.bound
            &&& !given.reserved[slot]
            &&& other != slot ==> given.reserved[other] == mapping.reserved[other]
        }),
{
}

/// A slot is free where it holds nothing and is not reserved; the one that is
/// taken next is the free one with the smallest number. An image is busy while
/// some slot holds it.
pub proof fn the_smallest_free_slot_is_taken(
    mapping: MappingModel,
    slot: int,
    other: int,
    physical_index: u32,
)
    requires
        mapping.wf(),
    ensures
        mapping.free(slot) <==> 0 <= slot < mapping.bound.len() && mapping.bound[slot] is None
            && !mapping.reserved[slot],
        mapping.first_free(slot) && 0 <= other < mapping.bound.len() && mapping.bound[other] is None
            && !mapping.reserved[other] ==> slot <= other,
        mapping.first_free(slot) ==> mapping.free(slot),
        mapping.full() && 0 <= other < mapping.bound.len() ==> mapping.bound[other] is Some
            || mapping.reserved[other],
        0 <= other < mapping.bound.len() && (mapping.bound[other] matches Some(image)
            && image.index == physical_index) ==> mapping.busy(physical_index),
        mapping.busy(physical_index) ==> exists|i: int|
            0 <= i < mapping.bound.len() && (#[trigger] mapping.bound[i] matches Some(image)
                && image.index == physical_index),
        mapping.image(other) is Some <==> 0 <= other < mapping.bound.len()
            && mapping.bound[other] is Some,
        mapping.image(other) matches Some(index) ==> mapping.bound[other].unwrap().index == index,
{
    if mapping.first_free(slot) && 0 <= other < mapping.bound.len() && mapping.bound[other] is None
        && !mapping.reserved[other] && other < slot {
        assert(mapping.free(other));
    }
    if 0 <= other < mapping.bound.len() && mapping.bound[other] is Some
        && mapping.bound[other].unwrap().index == physical_index {
        assert(mapping.bound[other].unwrap().generation == mapping.generation);
        assert(mapping.bound[other] == Some(
            PhysicalImage { generation: mapping.generation, index: physical_index },
        ));
    }
    if mapping.busy(physical_index) {
        let i = choose|i: int|
            0 <= i < mapping.bound.len() && #[trigger] mapping.bound[i] == Some(
                PhysicalImage { generation: mapping.generation, index: physical_index },
            );
        assert(mapping.bound[i] is Some);
    }
}

/// Slots can be released together where each of them is named once, is there and
/// holds an image.
pub proof fn slots_are_released_for_a_reason(mapping: MappingModel, slots: Seq<u32>, position: int)
    requires
        0 <= position < slots.len(),
    ensures
        mapping.release_fault(slots, position) is None <==> {
            &&& forall|i: int| 0 <= i < position ==> slots[i] != slots[position]
            &&& slots[position] < mapping.bound.len()
            &&& mapping.bound[slots[position] as int] is Some
        },
{
    let before = slots.take(position);
    if before.contains(slots[position]) {
        assert(slots[before.index_of(slots[position])] == slots[position]);
    }
    assert forall|i: int| 0 <= i < position && slots[i] == slots[position] implies before.contains(
        slots[position],
    ) by {
        assert(before[i] == slots[i]);
    }
}

/// A release is planned for one state of the mapping: a plan of another
/// generation is stale, and so is one that names a slot without an image or with
/// another image.
pub proof fn a_plan_is_for_one_state(mapping: MappingModel, plan: ReleasePlanModel, at: int)
    requires
        mapping.plan_current(plan),
    ensures
        plan.generation == mapping.generation,
        plan.physical.len() == plan.logical.len(),
        0 <= at < plan.logical.len() ==> 0 <= plan.logical[at] < mapping.bound.len()
            ==> mapping.image(plan.logical[at] as int) == Some(plan.physical[at]),
{
}

/// A mapping is idle where no slot holds an image or is reserved.
pub proof fn an_idle_mapping_holds_nothing(mapping: MappingModel, slot: int)
    requires
        0 <= slot < mapping.bound.len(),
    ensures
        mapping.idle() ==> mapping.bound[slot] is None && !mapping.reserved[slot],
        mapping.bound[slot] is Some || mapping.reserved[slot] ==> !mapping.idle(),
        (forall|i: int|
            0 <= i < mapping.bound.len() ==> #[trigger] mapping.bound[i] is None
                && !mapping.reserved[i]) ==> mapping.idle(),
{
}

} // verus!
