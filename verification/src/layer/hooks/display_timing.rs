//! Presentation timings of all generations of a swapchain as one list.

use vstd::prelude::*;

use crate::vk::{VkResult, INCOMPLETE, SUCCESS};

verus! {

#[derive(Debug, Clone, Copy, PartialEq, Eq, Structural)]
pub struct PresentationTiming {
    pub present_id: u32,
    pub desired_present_time: u64,
    pub actual_present_time: u64,
    pub earliest_present_time: u64,
    pub present_margin: u64,
}

/// The answer to a timing query: how many timings there are, how many were
/// written, and those.
#[derive(Debug, PartialEq, Eq)]
pub struct TimingEnumeration {
    required_count: u32,
    written_count: u32,
    timings: Vec<PresentationTiming>,
    result: VkResult,
}

#[verifier::ext_equal]
pub struct EnumerationModel {
    pub required_count: u32,
    pub written_count: u32,
    pub timings: Seq<PresentationTiming>,
    pub result: VkResult,
}

impl View for TimingEnumeration {
    type V = EnumerationModel;

    closed spec fn view(&self) -> EnumerationModel {
        EnumerationModel {
            required_count: self.required_count,
            written_count: self.written_count,
            timings: self.timings@,
            result: self.result,
        }
    }
}

impl TimingEnumeration {
    pub fn required_count(&self) -> (count: u32)
        ensures
            count == self@.required_count,
    {
        self.required_count
    }

    pub fn written_count(&self) -> (count: u32)
        ensures
            count == self@.written_count,
    {
        self.written_count
    }

    pub fn timings(&self) -> (timings: &[PresentationTiming])
        ensures
            timings@ == self@.timings,
    {
        self.timings.as_slice()
    }

    pub fn ids(&self) -> (ids: Vec<u32>)
        ensures
            ids@ == Seq::new(self@.timings.len(), |i: int| self@.timings[i].present_id),
    {
        let mut ids: Vec<u32> = Vec::new();
        let mut index: usize = 0;
        while index < self.timings.len()
            invariant
                index <= self.timings.len(),
                ids.len() == index,
                forall|i: int| 0 <= i < index ==> ids@[i] == self.timings@[i].present_id,
            decreases self.timings.len() - index,
        {
            ids.push(self.timings[index].present_id);
            index = index + 1;
        }
        assert(ids@ =~= Seq::new(self@.timings.len(), |i: int| self@.timings[i].present_id));
        ids
    }

    pub fn result(&self) -> (result: VkResult)
        ensures
            result == self@.result,
    {
        self.result
    }
}

/// The last timing with an identifier.
pub open spec fn latest(timings: Seq<PresentationTiming>, id: u32) -> Option<PresentationTiming>
    decreases timings.len(),
{
    if timings.len() == 0 {
        None
    } else if timings.last().present_id == id {
        Some(timings.last())
    } else {
        latest(timings.drop_last(), id)
    }
}

/// The timings of all generations, one generation after the other.
pub open spec fn all_timings(
    generations: Seq<Result<Vec<PresentationTiming>, VkResult>>,
) -> Seq<PresentationTiming>
    decreases generations.len(),
{
    if generations.len() == 0 {
        Seq::empty()
    } else {
        all_timings(generations.drop_last()) + (match generations.last() {
            Ok(timings) => timings@,
            Err(_) => Seq::empty(),
        })
    }
}

pub open spec fn ordered(timings: Seq<PresentationTiming>) -> bool {
    forall|i: int, j: int|
        0 <= i < j < timings.len() ==> timings[i].present_id < timings[j].present_id
}

/// One timing for each identifier, the latest one, in growing order.
pub open spec fn merges(merged: Seq<PresentationTiming>, all: Seq<PresentationTiming>) -> bool {
    ordered(merged) && forall|id: u32| #[trigger] latest(merged, id) == latest(all, id)
}

/// What a query with a capacity gets of the merged timings: without one only
/// their number, else as many as fit.
pub open spec fn enumerated(
    merged: Seq<PresentationTiming>,
    capacity: Option<usize>,
) -> EnumerationModel {
    let required_count = merged.len() as u32;
    let timings = match capacity {
        None => Seq::empty(),
        Some(limit) => if limit < merged.len() {
            merged.take(limit as int)
        } else {
            merged
        },
    };
    EnumerationModel {
        required_count,
        written_count: timings.len() as u32,
        timings,
        result: if capacity is Some && capacity.unwrap() < required_count {
            INCOMPLETE
        } else {
            SUCCESS
        },
    }
}

/// The first generation whose timings could not be had decides the error.
pub open spec fn first_error(
    generations: Seq<Result<Vec<PresentationTiming>, VkResult>>,
) -> Option<VkResult>
    decreases generations.len(),
{
    if generations.len() == 0 {
        None
    } else {
        match generations[0] {
            Err(error) => Some(error),
            Ok(_) => first_error(generations.drop_first()),
        }
    }
}

proof fn lemma_latest_at(timings: Seq<PresentationTiming>, at: int)
    requires
        ordered(timings),
        0 <= at < timings.len(),
    ensures
        latest(timings, timings[at].present_id) == Some(timings[at]),
    decreases timings.len(),
{
    if at < timings.len() - 1 {
        assert(timings[at].present_id < timings.last().present_id);
        assert(timings.drop_last()[at] == timings[at]);
        lemma_latest_at(timings.drop_last(), at);
    }
}

proof fn lemma_latest_none(timings: Seq<PresentationTiming>, id: u32)
    ensures
        latest(timings, id) is None <==> forall|i: int|
            0 <= i < timings.len() ==> (#[trigger] timings[i]).present_id != id,
        latest(timings, id) matches Some(timing) ==> timing.present_id == id && exists|i: int|
            0 <= i < timings.len() && #[trigger] timings[i] == timing,
    decreases timings.len(),
{
    if timings.len() > 0 {
        let front = timings.drop_last();
        lemma_latest_none(front, id);
        if timings.last().present_id == id {
            assert(timings[timings.len() - 1] == timings.last());
        } else if latest(front, id) is None {
            assert forall|i: int| 0 <= i < timings.len() implies (
            #[trigger] timings[i]).present_id != id by {
                if i < timings.len() - 1 {
                    assert(front[i] == timings[i]);
                }
            }
        } else {
            let i = choose|i: int|
                0 <= i < front.len() && #[trigger] front[i] == latest(front, id).unwrap();
            assert(timings[i] == front[i]);
        }
    }
}

/// Only one list merges given timings.
pub proof fn a_merge_is_unique(
    left: Seq<PresentationTiming>,
    right: Seq<PresentationTiming>,
    all: Seq<PresentationTiming>,
)
    requires
        merges(left, all),
        merges(right, all),
    ensures
        left == right,
    decreases left.len(),
{
    assert forall|id: u32| latest(left, id) == latest(right, id) by {
        assert(latest(left, id) == latest(all, id));
        assert(latest(right, id) == latest(all, id));
    }
    lemma_same_lookup(left, right);
}

proof fn lemma_latest_of_both(
    older: Seq<PresentationTiming>,
    newer: Seq<PresentationTiming>,
    id: u32,
)
    ensures
        latest(older + newer, id) == (if latest(newer, id) is Some {
            latest(newer, id)
        } else {
            latest(older, id)
        }),
    decreases newer.len(),
{
    if newer.len() == 0 {
        assert(older + newer =~= older);
    } else {
        assert((older + newer).drop_last() =~= older + newer.drop_last());
        assert((older + newer).last() == newer.last());
        lemma_latest_of_both(older, newer.drop_last(), id);
    }
}

/// Of two timings with the same identifier the one of the last generation is
/// kept.
pub proof fn newer_timings_are_kept(
    generations: Seq<Result<Vec<PresentationTiming>, VkResult>>,
    merged: Seq<PresentationTiming>,
    id: u32,
)
    requires
        generations.len() > 0,
        generations.last() is Ok,
        merges(merged, all_timings(generations)),
    ensures
        latest(merged, id) == (match latest(generations.last()->Ok_0@, id) {
            Some(timing) => Some(timing),
            None => latest(all_timings(generations.drop_last()), id),
        }),
{
    lemma_latest_of_both(
        all_timings(generations.drop_last()),
        generations.last()->Ok_0@,
        id,
    );
    assert(latest(merged, id) == latest(all_timings(generations), id));
}

proof fn lemma_same_lookup(left: Seq<PresentationTiming>, right: Seq<PresentationTiming>)
    requires
        ordered(left),
        ordered(right),
        forall|id: u32| #[trigger] latest(left, id) == latest(right, id),
    ensures
        left == right,
    decreases left.len(),
{
    if left.len() == 0 {
        if right.len() > 0 {
            lemma_latest_at(right, right.len() - 1);
            assert(latest(left, right.last().present_id) is None);
        }
        assert(left =~= right);
    } else {
        lemma_latest_at(left, left.len() - 1);
        lemma_latest_none(right, left.last().present_id);
        assert(latest(left, left.last().present_id) == latest(right, left.last().present_id));
        assert(right.len() > 0);
        lemma_latest_at(right, right.len() - 1);
        lemma_latest_none(left, right.last().present_id);
        assert(latest(left, right.last().present_id) == latest(right, right.last().present_id));
        let in_right = choose|i: int| 0 <= i < right.len() && #[trigger] right[i] == left.last();
        let in_left = choose|i: int| 0 <= i < left.len() && #[trigger] left[i] == right.last();
        assert(left.last() == right.last()) by {
            if in_right < right.len() - 1 {
                assert(right[in_right].present_id < right[right.len() - 1].present_id);
                if in_left < left.len() - 1 {
                    assert(left[in_left].present_id < left[left.len() - 1].present_id);
                }
            }
        }
        let left_front = left.drop_last();
        let right_front = right.drop_last();
        assert forall|id: u32| #[trigger] latest(left_front, id) == latest(right_front, id) by {
            assert(latest(left, id) == latest(right, id));
            if id == left.last().present_id {
                lemma_latest_none(left_front, id);
                lemma_latest_none(right_front, id);
                assert forall|i: int| 0 <= i < left_front.len() implies (
                #[trigger] left_front[i]).present_id != id by {
                    assert(left[i].present_id < left[left.len() - 1].present_id);
                }
                assert forall|i: int| 0 <= i < right_front.len() implies (
                #[trigger] right_front[i]).present_id != id by {
                    assert(right[i].present_id < right[right.len() - 1].present_id);
                }
            }
        }
        lemma_same_lookup(left_front, right_front);
        assert(left =~= left_front.push(left.last()));
        assert(right =~= right_front.push(right.last()));
    }
}

proof fn lemma_lookup_by_members(timings: Seq<PresentationTiming>, timing: PresentationTiming)
    requires
        ordered(timings),
        exists|i: int| 0 <= i < timings.len() && #[trigger] timings[i] == timing,
    ensures
        latest(timings, timing.present_id) == Some(timing),
{
    let i = choose|i: int| 0 <= i < timings.len() && #[trigger] timings[i] == timing;
    lemma_latest_at(timings, i);
}

/// Puts a timing where its identifier belongs, in place of one that has it.
fn merge_one(merged: &mut Vec<PresentationTiming>, timing: PresentationTiming)
    requires
        ordered(old(merged)@),
    ensures
        ordered(final(merged)@),
        forall|id: u32| #[trigger]
            latest(final(merged)@, id) == (if id == timing.present_id {
                Some(timing)
            } else {
                latest(old(merged)@, id)
            }),
{
    let ghost before = merged@;
    let mut position: usize = 0;
    while position < merged.len() && merged[position].present_id < timing.present_id
        invariant
            merged@ == before,
            position <= merged.len(),
            forall|i: int| 0 <= i < position ==> merged@[i].present_id < timing.present_id,
        decreases merged.len() - position,
    {
        position = position + 1;
    }
    let replaces: bool = position < merged.len() && merged[position].present_id
        == timing.present_id;
    if replaces {
        merged.set(position, timing);
    } else {
        merged.insert(position, timing);
    }
    proof {
        let after = merged@;
        let at = position as int;
        if replaces {
            assert(after == before.update(at, timing));
        } else {
            assert(after == before.insert(at, timing));
            assert forall|i: int| at <= i < before.len() implies timing.present_id < (
            #[trigger] before[i]).present_id by {
                if i > at {
                    assert(before[at].present_id < before[i].present_id);
                }
            }
        }
        assert forall|i: int, j: int| 0 <= i < j < after.len() implies after[i].present_id
            < after[j].present_id by {
            if replaces {
                assert(before[i].present_id < before[j].present_id);
            } else {
                let k = if i < at {
                    i
                } else {
                    i - 1
                };
                let l = if j < at {
                    j
                } else {
                    j - 1
                };
                if i != at && j != at {
                    assert(before[k].present_id < before[l].present_id);
                }
            }
        }
        assert(after[at] == timing);
        lemma_latest_at(after, at);
        assert forall|id: u32| id != timing.present_id implies #[trigger] latest(after, id)
            == latest(before, id) by {
            lemma_latest_none(before, id);
            lemma_latest_none(after, id);
            if latest(before, id) is Some {
                let i = choose|i: int|
                    0 <= i < before.len() && #[trigger] before[i] == latest(before, id).unwrap();
                let k = if replaces || i < at {
                    i
                } else {
                    i + 1
                };
                assert(after[k] == before[i]);
                lemma_lookup_by_members(after, before[i]);
            } else {
                assert forall|i: int| 0 <= i < after.len() implies (
                #[trigger] after[i]).present_id != id by {
                    if i != at {
                        let k = if replaces || i < at {
                            i
                        } else {
                            i - 1
                        };
                        assert(before[k] == after[i]);
                    }
                }
            }
        }
    }
}

proof fn lemma_all_timings_step(
    generations: Seq<Result<Vec<PresentationTiming>, VkResult>>,
    at: int,
)
    requires
        0 <= at < generations.len(),
    ensures
        all_timings(generations.take(at + 1)) == all_timings(generations.take(at)) + (
        match generations[at] {
            Ok(timings) => timings@,
            Err(_) => Seq::empty(),
        }),
{
    assert(generations.take(at + 1).drop_last() == generations.take(at));
    assert(generations.take(at + 1).last() == generations[at]);
}

proof fn lemma_latest_push(
    merged: Seq<PresentationTiming>,
    all: Seq<PresentationTiming>,
    timing: PresentationTiming,
    after: Seq<PresentationTiming>,
)
    requires
        merges(merged, all),
        ordered(after),
        forall|id: u32| #[trigger]
            latest(after, id) == (if id == timing.present_id {
                Some(timing)
            } else {
                latest(merged, id)
            }),
    ensures
        merges(after, all.push(timing)),
{
    assert(all.push(timing).drop_last() == all);
    assert forall|id: u32| #[trigger] latest(after, id) == latest(all.push(timing), id) by {
        assert(latest(merged, id) == latest(all, id));
    }
}

/// Merges the timings of all generations, a later generation before an
/// earlier one, and answers a query for them. An error of any generation is
/// the answer in their place.
#[verifier::loop_isolation(false)]
pub fn merge_timing_results(
    generations: &[Result<Vec<PresentationTiming>, VkResult>],
    capacity: Option<usize>,
) -> (result: Result<TimingEnumeration, VkResult>)
    ensures
        match result {
            Ok(enumeration) => first_error(generations@) is None && exists|
                merged: Seq<PresentationTiming>,
            | #[trigger]
                merges(merged, all_timings(generations@)) && enumeration@ == enumerated(
                    merged,
                    capacity,
                ),
            Err(error) => first_error(generations@) == Some(error),
        },
{
    let mut merged: Vec<PresentationTiming> = Vec::new();
    let mut index: usize = 0;
    assert(generations@.skip(0) == generations@);
    assert(generations@.take(0) == Seq::<Result<Vec<PresentationTiming>, VkResult>>::empty());
    while index < generations.len()
        invariant
            index <= generations.len(),
            merges(merged@, all_timings(generations@.take(index as int))),
            first_error(generations@) == first_error(generations@.skip(index as int)),
        decreases generations.len() - index,
    {
        assert(generations@.skip(index as int)[0] == generations@[index as int]);
        match &generations[index] {
            Err(error) => {
                return Err(*error);
            },
            Ok(timings) => {
                let ghost earlier = all_timings(generations@.take(index as int));
                let mut position: usize = 0;
                assert(earlier + timings@.take(0) == earlier);
                while position < timings.len()
                    invariant
                        position <= timings.len(),
                        merges(merged@, earlier + timings@.take(position as int)),
                    decreases timings.len() - position,
                {
                    let ghost before = merged@;
                    let ghost all = earlier + timings@.take(position as int);
                    merge_one(&mut merged, timings[position]);
                    proof {
                        lemma_latest_push(before, all, timings@[position as int], merged@);
                        assert(all.push(timings@[position as int]) == earlier + timings@.take(
                            position + 1,
                        ));
                    }
                    position = position + 1;
                }
                proof {
                    assert(timings@.take(timings@.len() as int) == timings@);
                    lemma_all_timings_step(generations@, index as int);
                    assert(generations@.skip(index as int).drop_first() == generations@.skip(
                        index + 1,
                    ));
                }
            },
        }
        index = index + 1;
    }
    assert(generations@.take(generations@.len() as int) == generations@);
    let required_count: u32 = merged.len() as u32;
    let ghost all_merged = merged@;
    let incomplete: bool = match capacity {
        Some(limit) => limit < required_count as usize,
        None => false,
    };
    match capacity {
        None => {
            merged = Vec::new();
        },
        Some(limit) => {
            if limit < merged.len() {
                merged.truncate(limit);
            }
        },
    }
    let written_count: u32 = merged.len() as u32;
    let enumeration: TimingEnumeration = TimingEnumeration {
        required_count,
        written_count,
        timings: merged,
        result: if incomplete {
            INCOMPLETE
        } else {
            SUCCESS
        },
    };
    assert(enumeration@ =~= enumerated(all_merged, capacity));
    Ok(enumeration)
}

/// A later generation wins: where it has a timing for an identifier, that one
/// is merged, whatever came before it.
pub proof fn newer_generations_win(
    older: Seq<PresentationTiming>,
    newer: Seq<PresentationTiming>,
    id: u32,
)
    requires
        latest(newer, id) is Some,
    ensures
        latest(older + newer, id) == latest(newer, id),
    decreases newer.len(),
{
    if newer.len() > 0 {
        assert((older + newer).last() == newer.last());
        assert((older + newer).drop_last() == older + newer.drop_last());
        if newer.last().present_id != id {
            newer_generations_win(older, newer.drop_last(), id);
        }
    }
}

/// A query without room for timings gets their number alone; one with room gets
/// the first of them, as many as fit, and hears where that was not all.
pub proof fn a_query_gets_what_fits(
    merged: Seq<PresentationTiming>,
    capacity: Option<usize>,
    at: int,
)
    requires
        merged.len() <= u32::MAX,
    ensures
        ({
            let answer = enumerated(merged, capacity);
            &&& answer.required_count == merged.len()
            &&& answer.written_count == answer.timings.len()
            &&& capacity is None ==> answer.timings.len() == 0 && answer.result == 0
            &&& capacity matches Some(limit) ==> {
                &&& answer.timings.len() == (if limit < merged.len() {
                    limit as int
                } else {
                    merged.len() as int
                })
                &&& answer.result == (if limit < merged.len() {
                    5i32
                } else {
                    0i32
                })
            }
            &&& 0 <= at < answer.timings.len() ==> answer.timings[at] == merged[at]
        }),
{
}

/// The latest timing of an identifier is one of the timings with it, and none
/// with it comes later.
pub proof fn the_latest_timing_comes_last(timings: Seq<PresentationTiming>, id: u32)
    ensures
        latest(timings, id) is None <==> forall|i: int|
            0 <= i < timings.len() ==> (#[trigger] timings[i]).present_id != id,
        latest(timings, id) matches Some(timing) ==> exists|i: int|
            {
                &&& 0 <= i < timings.len()
                &&& #[trigger] timings[i] == timing
                &&& timing.present_id == id
                &&& forall|j: int|
                    i < j < timings.len() ==> (#[trigger] timings[j]).present_id != id
            },
    decreases timings.len(),
{
    if timings.len() > 0 {
        let front = timings.drop_last();
        let end = timings.len() - 1;
        assert(timings[end] == timings.last());
        if timings.last().present_id != id {
            the_latest_timing_comes_last(front, id);
            if latest(front, id) is Some {
                let i = choose|i: int|
                    {
                        &&& 0 <= i < front.len()
                        &&& #[trigger] front[i] == latest(front, id).unwrap()
                        &&& front[i].present_id == id
                        &&& forall|j: int|
                            i < j < front.len() ==> (#[trigger] front[j]).present_id != id
                    };
                assert(timings[i] == front[i]);
                assert forall|j: int| i < j < timings.len() implies (
                #[trigger] timings[j]).present_id != id by {
                    if j < front.len() {
                        assert(front[j] == timings[j]);
                    }
                }
            } else {
                assert forall|i: int| 0 <= i < timings.len() implies (
                #[trigger] timings[i]).present_id != id by {
                    if i < front.len() {
                        assert(front[i] == timings[i]);
                    }
                }
            }
        }
    }
}

/// The error of a query is that of the first generation that failed; without a
/// failure there is none.
pub proof fn the_first_failure_is_the_error(
    generations: Seq<Result<Vec<PresentationTiming>, VkResult>>,
)
    ensures
        first_error(generations) is None <==> forall|i: int|
            0 <= i < generations.len() ==> (#[trigger] generations[i]) is Ok,
        first_error(generations) matches Some(error) ==> exists|i: int|
            {
                &&& 0 <= i < generations.len()
                &&& #[trigger] generations[i] == Err::<Vec<PresentationTiming>, VkResult>(error)
                &&& forall|j: int| 0 <= j < i ==> (#[trigger] generations[j]) is Ok
            },
    decreases generations.len(),
{
    if generations.len() > 0 && generations[0] is Ok {
        let rest = generations.drop_first();
        the_first_failure_is_the_error(rest);
        assert forall|i: int| 0 <= i < rest.len() implies rest[i] == #[trigger] generations[i
            + 1] by {
        }
        if first_error(rest) is Some {
            let error = first_error(rest).unwrap();
            let i = choose|i: int|
                {
                    &&& 0 <= i < rest.len()
                    &&& #[trigger] rest[i] == Err::<Vec<PresentationTiming>, VkResult>(error)
                    &&& forall|j: int| 0 <= j < i ==> (#[trigger] rest[j]) is Ok
                };
            assert(generations[i + 1] == rest[i]);
            assert forall|j: int| 0 <= j < i + 1 implies (#[trigger] generations[j]) is Ok by {
                if j > 0 {
                    assert(rest[j - 1] == generations[j]);
                }
            }
        } else {
            assert forall|i: int| 0 <= i < generations.len() implies (
            #[trigger] generations[i]) is Ok by {
                if i > 0 {
                    assert(rest[i - 1] == generations[i]);
                }
            }
        }
    }
}

/// All timings are those of the generations, one behind the other.
pub proof fn timings_of_generations_follow(
    generations: Seq<Result<Vec<PresentationTiming>, VkResult>>,
    newer: Vec<PresentationTiming>,
)
    ensures
        all_timings(generations.push(Ok(newer))) == all_timings(generations) + newer@,
        all_timings(Seq::empty()) == Seq::<PresentationTiming>::empty(),
{
    assert(generations.push(Ok(newer)).drop_last() =~= generations);
}

} // verus!
