//! The structures that may extend a present.

use vstd::prelude::*;

use crate::seqs::copy_slice;
use crate::vk::{
    Extent2D, Handle, Offset2D, PRESENT_ID_KHR, PRESENT_REGIONS_KHR, PRESENT_TIMES_INFO_GOOGLE,
    SWAPCHAIN_PRESENT_FENCE_INFO_EXT, SWAPCHAIN_PRESENT_MODE_INFO_EXT,
};

verus! {

#[derive(Debug, Clone, Copy, PartialEq, Eq, Structural)]
pub enum PresentChainError {
    DuplicateStructure,
    CountMismatch,
    NullArray,
    UnknownStructure,
}

impl PresentChainError {
    pub open spec fn reason_text(self) -> Seq<char> {
        match self {
            PresentChainError::DuplicateStructure => "duplicate_structure"@,
            PresentChainError::CountMismatch => "count_mismatch"@,
            PresentChainError::NullArray => "null_array"@,
            PresentChainError::UnknownStructure => "unknown_structure"@,
        }
    }

    pub fn reason(self) -> (text: &'static str)
        ensures
            text@ == self.reason_text(),
    {
        match self {
            PresentChainError::DuplicateStructure => "duplicate_structure",
            PresentChainError::CountMismatch => "count_mismatch",
            PresentChainError::NullArray => "null_array",
            PresentChainError::UnknownStructure => "unknown_structure",
        }
    }
}

/// A changed rectangle of an image layer.
#[derive(Debug, Clone, Copy, PartialEq, Eq, Structural)]
pub struct RectLayer {
    pub offset: Offset2D,
    pub extent: Extent2D,
    pub layer: u32,
}

#[derive(Debug, Clone, Copy, PartialEq, Eq, Structural)]
pub struct PresentTime {
    pub present_id: u32,
    pub desired_present_time: u64,
}

/// The changed rectangles of one image: `None` where the pointer is null
/// although the count is not zero.
#[derive(Debug, PartialEq, Eq)]
pub struct PresentRegion {
    pub rectangles: Option<Vec<RectLayer>>,
}

/// A structure in the extension chain of a present. Each array is as long as
/// the structure's own count says, or `None` where its pointer is null.
#[derive(Debug, PartialEq, Eq)]
pub enum PresentNode {
    Regions { count: u32, regions: Option<Vec<PresentRegion>> },
    Ids { count: u32, ids: Option<Vec<u64>> },
    Times { count: u32, times: Option<Vec<PresentTime>> },
    Fences { count: u32, fences: Option<Vec<Handle>> },
    Modes { count: u32, modes: Option<Vec<i32>> },
    Unknown { structure_type: i32 },
}

impl PresentNode {
    /// The arrays have the length that the structure gives.
    pub open spec fn wf(self) -> bool {
        match self {
            PresentNode::Regions { count, regions } => regions matches Some(list) ==> list@.len() == count,
            PresentNode::Ids { count, ids } => ids matches Some(list) ==> list@.len() == count,
            PresentNode::Times { count, times } => times matches Some(list) ==> list@.len() == count,
            PresentNode::Fences { count, fences } => fences matches Some(list) ==> list@.len() == count,
            PresentNode::Modes { count, modes } => modes matches Some(list) ==> list@.len() == count,
            PresentNode::Unknown { .. } => true,
        }
    }

    pub open spec fn count(self) -> u32 {
        match self {
            PresentNode::Regions { count, .. } => count,
            PresentNode::Ids { count, .. } => count,
            PresentNode::Times { count, .. } => count,
            PresentNode::Fences { count, .. } => count,
            PresentNode::Modes { count, .. } => count,
            PresentNode::Unknown { .. } => 0,
        }
    }

    /// The structure's array, or that of one of its items, is missing.
    pub open spec fn lacks_array(self) -> bool {
        match self {
            PresentNode::Regions { count, regions } => match regions {
                Some(list) => exists|i: int|
                    0 <= i < list@.len() && (#[trigger] list@[i]).rectangles is None,
                None => count != 0,
            },
            PresentNode::Ids { count, ids } => ids is None && count != 0,
            PresentNode::Times { count, times } => times is None && count != 0,
            PresentNode::Fences { count, fences } => fences is None && count != 0,
            PresentNode::Modes { count, modes } => modes is None && count != 0,
            PresentNode::Unknown { .. } => false,
        }
    }

    pub fn structure_type(&self) -> (structure_type: i32)
        ensures
            structure_type == (match *self {
                PresentNode::Regions { .. } => PRESENT_REGIONS_KHR,
                PresentNode::Ids { .. } => PRESENT_ID_KHR,
                PresentNode::Times { .. } => PRESENT_TIMES_INFO_GOOGLE,
                PresentNode::Fences { .. } => SWAPCHAIN_PRESENT_FENCE_INFO_EXT,
                PresentNode::Modes { .. } => SWAPCHAIN_PRESENT_MODE_INFO_EXT,
                PresentNode::Unknown { structure_type } => structure_type,
            }),
    {
        match self {
            PresentNode::Regions { .. } => PRESENT_REGIONS_KHR,
            PresentNode::Ids { .. } => PRESENT_ID_KHR,
            PresentNode::Times { .. } => PRESENT_TIMES_INFO_GOOGLE,
            PresentNode::Fences { .. } => SWAPCHAIN_PRESENT_FENCE_INFO_EXT,
            PresentNode::Modes { .. } => SWAPCHAIN_PRESENT_MODE_INFO_EXT,
            PresentNode::Unknown { structure_type } => *structure_type,
        }
    }
}

/// Two structures of one kind that the layer understands.
pub open spec fn same_kind(left: PresentNode, right: PresentNode) -> bool {
    ||| left is Regions && right is Regions
    ||| left is Ids && right is Ids
    ||| left is Times && right is Times
    ||| left is Fences && right is Fences
    ||| left is Modes && right is Modes
}

/// What is wrong with the structure at one place of a chain, if anything is.
pub open spec fn node_fault(
    chain: Seq<PresentNode>,
    at: int,
    swapchain_count: u32,
) -> Option<PresentChainError> {
    let node = chain[at];
    if node is Unknown {
        Some(PresentChainError::UnknownStructure)
    } else if exists|j: int| 0 <= j < at && same_kind(#[trigger] chain[j], node) {
        Some(PresentChainError::DuplicateStructure)
    } else if node.count() != swapchain_count {
        Some(PresentChainError::CountMismatch)
    } else if node.lacks_array() {
        Some(PresentChainError::NullArray)
    } else {
        None
    }
}

/// The rectangles of each image.
pub open spec fn rectangles(regions: Seq<PresentRegion>) -> Seq<Seq<RectLayer>> {
    Seq::new(regions.len(), |i: int| regions[i].rectangles.unwrap()@)
}

pub open spec fn nested(lists: Seq<Vec<RectLayer>>) -> Seq<Seq<RectLayer>> {
    Seq::new(lists.len(), |i: int| lists[i]@)
}

/// The items of a list, where a missing one counts as empty.
pub open spec fn listed<T>(list: Option<Vec<T>>) -> Seq<T> {
    match list {
        Some(values) => values@,
        None => Seq::empty(),
    }
}

/// What the structures of a present say, in vectors of the layer's own.
#[derive(Debug, PartialEq, Eq)]
pub struct PresentChain {
    pub regions: Option<Vec<Vec<RectLayer>>>,
    pub ids: Option<Vec<u64>>,
    pub times: Option<Vec<PresentTime>>,
    pub fences: Option<Vec<Handle>>,
    pub modes: Option<Vec<i32>>,
}

#[verifier::ext_equal]
pub struct PresentChainModel {
    pub regions: Option<Seq<Seq<RectLayer>>>,
    pub ids: Option<Seq<u64>>,
    pub times: Option<Seq<PresentTime>>,
    pub fences: Option<Seq<Handle>>,
    pub modes: Option<Seq<i32>>,
}

pub open spec fn items<T>(list: Option<Vec<T>>) -> Option<Seq<T>> {
    match list {
        Some(values) => Some(values@),
        None => None,
    }
}

impl View for PresentChain {
    type V = PresentChainModel;

    open spec fn view(&self) -> PresentChainModel {
        PresentChainModel {
            regions: match self.regions {
                Some(lists) => Some(nested(lists@)),
                None => None,
            },
            ids: items(self.ids),
            times: items(self.times),
            fences: items(self.fences),
            modes: items(self.modes),
        }
    }
}

/// The chain holds exactly what some structures say.
pub open spec fn collects(chain: Seq<PresentNode>, model: PresentChainModel) -> bool {
    &&& model.regions is Some <==> exists|i: int|
        0 <= i < chain.len() && #[trigger] chain[i] is Regions
    &&& model.ids is Some <==> exists|i: int|
        0 <= i < chain.len() && #[trigger] chain[i] is Ids
    &&& model.times is Some <==> exists|i: int|
        0 <= i < chain.len() && #[trigger] chain[i] is Times
    &&& model.fences is Some <==> exists|i: int|
        0 <= i < chain.len() && #[trigger] chain[i] is Fences
    &&& model.modes is Some <==> exists|i: int|
        0 <= i < chain.len() && #[trigger] chain[i] is Modes
    &&& forall|i: int|
        0 <= i < chain.len() ==> match #[trigger] chain[i] {
            PresentNode::Regions { regions, .. } => model.regions == Some(
                rectangles(listed(regions)),
            ),
            PresentNode::Ids { ids, .. } => model.ids == Some(listed(ids)),
            PresentNode::Times { times, .. } => model.times == Some(listed(times)),
            PresentNode::Fences { fences, .. } => model.fences == Some(listed(fences)),
            PresentNode::Modes { modes, .. } => model.modes == Some(listed(modes)),
            PresentNode::Unknown { .. } => false,
        }
}

pub open spec fn chain_accepted(chain: Seq<PresentNode>, swapchain_count: u32) -> bool {
    forall|i: int|
        0 <= i < chain.len() ==> (#[trigger] node_fault(chain, i, swapchain_count)) is None
}

/// The fault of the first structure that has one.
pub open spec fn first_fault(
    chain: Seq<PresentNode>,
    swapchain_count: u32,
    error: PresentChainError,
) -> bool {
    exists|i: int|
        {
            &&& 0 <= i < chain.len()
            &&& #[trigger] node_fault(chain, i, swapchain_count) == Some(error)
            &&& forall|j: int|
                0 <= j < i ==> (#[trigger] node_fault(chain, j, swapchain_count)) is None
        }
}

/// A structure is as many as there are swapchains.
pub fn validate_count(actual: u32, expected: u32) -> (result: Result<(), PresentChainError>)
    ensures
        match result {
            Ok(_) => actual == expected,
            Err(error) => actual != expected && error == PresentChainError::CountMismatch,
        },
{
    if actual == expected {
        Ok(())
    } else {
        Err(PresentChainError::CountMismatch)
    }
}

/// The rectangles of each image, or nothing where one of the arrays is
/// missing.
fn copy_regions(regions: &[PresentRegion]) -> (copy: Option<Vec<Vec<RectLayer>>>)
    ensures
        match copy {
            Some(lists) => {
                &&& forall|i: int|
                    0 <= i < regions@.len() ==> (#[trigger] regions@[i]).rectangles is Some
                &&& nested(lists@) == rectangles(regions@)
            },
            None => exists|i: int|
                0 <= i < regions@.len() && (#[trigger] regions@[i]).rectangles is None,
        },
{
    let mut lists: Vec<Vec<RectLayer>> = Vec::new();
    let mut index: usize = 0;
    while index < regions.len()
        invariant
            index <= regions.len(),
            lists.len() == index,
            forall|i: int|
                0 <= i < index ==> (#[trigger] regions@[i]).rectangles is Some && lists@[i]@
                    == regions@[i].rectangles.unwrap()@,
        decreases regions.len() - index,
    {
        match &regions[index].rectangles {
            Some(list) => {
                let copied: Vec<RectLayer> = copy_slice(list.as_slice());
                lists.push(copied);
            },
            None => {
                assert(regions@[index as int].rectangles is None);
                return None;
            },
        }
        index = index + 1;
    }
    assert(nested(lists@) =~= rectangles(regions@));
    Some(lists)
}

fn copy_list<T: Copy>(list: &Option<Vec<T>>) -> (copy: Vec<T>)
    ensures
        copy@ == listed(*list),
{
    match list {
        Some(values) => copy_slice(values.as_slice()),
        None => Vec::new(),
    }
}

impl PresentChain {
    pub fn empty() -> (chain: Self)
        ensures
            chain@ == (PresentChainModel {
                regions: None,
                ids: None,
                times: None,
                fences: None,
                modes: None,
            }),
    {
        PresentChain { regions: None, ids: None, times: None, fences: None, modes: None }
    }

    /// Takes in one more structure, or says what is wrong with it.
    fn add(&mut self, node: &PresentNode, swapchain_count: u32) -> (result: Result<
        (),
        PresentChainError,
    >)
        requires
            node.wf(),
        ensures
            ({
                let present = match *node {
                    PresentNode::Regions { .. } => old(self)@.regions is Some,
                    PresentNode::Ids { .. } => old(self)@.ids is Some,
                    PresentNode::Times { .. } => old(self)@.times is Some,
                    PresentNode::Fences { .. } => old(self)@.fences is Some,
                    PresentNode::Modes { .. } => old(self)@.modes is Some,
                    PresentNode::Unknown { .. } => false,
                };
                match result {
                    Ok(_) => {
                        &&& !present
                        &&& node.count() == swapchain_count
                        &&& !node.lacks_array()
                        &&& match *node {
                            PresentNode::Regions { regions, .. } => final(self)@
                                == PresentChainModel {
                                regions: Some(rectangles(listed(regions))),
                                ..old(self)@
                            },
                            PresentNode::Ids { ids, .. } => final(self)@ == PresentChainModel {
                                ids: Some(listed(ids)),
                                ..old(self)@
                            },
                            PresentNode::Times { times, .. } => final(self)@ == PresentChainModel {
                                times: Some(listed(times)),
                                ..old(self)@
                            },
                            PresentNode::Fences { fences, .. } => final(self)@ == PresentChainModel {
                                fences: Some(listed(fences)),
                                ..old(self)@
                            },
                            PresentNode::Modes { modes, .. } => final(self)@ == PresentChainModel {
                                modes: Some(listed(modes)),
                                ..old(self)@
                            },
                            PresentNode::Unknown { .. } => false,
                        }
                    },
                    Err(error) => error == (if *node is Unknown {
                        PresentChainError::UnknownStructure
                    } else if present {
                        PresentChainError::DuplicateStructure
                    } else if node.count() != swapchain_count {
                        PresentChainError::CountMismatch
                    } else {
                        PresentChainError::NullArray
                    }) && (*node is Unknown || present || node.count() != swapchain_count
                        || node.lacks_array()),
                }
            }),
    {
        match node {
            PresentNode::Regions { count, regions } => {
                if self.regions.is_some() {
                    return Err(PresentChainError::DuplicateStructure);
                }
                if let Err(error) = validate_count(*count, swapchain_count) {
                    return Err(error);
                }
                let copied: Option<Vec<Vec<RectLayer>>> = match regions {
                    Some(list) => copy_regions(list.as_slice()),
                    None => {
                        if *count != 0 {
                            return Err(PresentChainError::NullArray);
                        }
                        let none: Vec<Vec<RectLayer>> = Vec::new();
                        assert(nested(none@) =~= rectangles(listed(*regions)));
                        Some(none)
                    },
                };
                if copied.is_none() {
                    return Err(PresentChainError::NullArray);
                }
                self.regions = copied;
            },
            PresentNode::Ids { count, ids } => {
                if self.ids.is_some() {
                    return Err(PresentChainError::DuplicateStructure);
                }
                if let Err(error) = validate_count(*count, swapchain_count) {
                    return Err(error);
                }
                if *count != 0 && ids.is_none() {
                    return Err(PresentChainError::NullArray);
                }
                self.ids = Some(copy_list(ids));
            },
            PresentNode::Times { count, times } => {
                if self.times.is_some() {
                    return Err(PresentChainError::DuplicateStructure);
                }
                if let Err(error) = validate_count(*count, swapchain_count) {
                    return Err(error);
                }
                if *count != 0 && times.is_none() {
                    return Err(PresentChainError::NullArray);
                }
                self.times = Some(copy_list(times));
            },
            PresentNode::Fences { count, fences } => {
                if self.fences.is_some() {
                    return Err(PresentChainError::DuplicateStructure);
                }
                if let Err(error) = validate_count(*count, swapchain_count) {
                    return Err(error);
                }
                if *count != 0 && fences.is_none() {
                    return Err(PresentChainError::NullArray);
                }
                self.fences = Some(copy_list(fences));
            },
            PresentNode::Modes { count, modes } => {
                if self.modes.is_some() {
                    return Err(PresentChainError::DuplicateStructure);
                }
                if let Err(error) = validate_count(*count, swapchain_count) {
                    return Err(error);
                }
                if *count != 0 && modes.is_none() {
                    return Err(PresentChainError::NullArray);
                }
                self.modes = Some(copy_list(modes));
            },
            PresentNode::Unknown { .. } => {
                return Err(PresentChainError::UnknownStructure);
            },
        }
        Ok(())
    }

    /// Reads a chain. The structures may come in any order; the first that is
    /// wrong decides.
    pub fn parse(nodes: &[PresentNode], swapchain_count: u32) -> (result: Result<
        Self,
        PresentChainError,
    >)
        requires
            forall|i: int| 0 <= i < nodes@.len() ==> (#[trigger] nodes@[i]).wf(),
        ensures
            match result {
                Ok(chain) => {
                    &&& chain_accepted(nodes@, swapchain_count)
                    &&& collects(nodes@, chain@)
                },
                Err(error) => {
                    &&& !chain_accepted(nodes@, swapchain_count)
                    &&& first_fault(nodes@, swapchain_count, error)
                },
            },
    {
        let mut chain: PresentChain = PresentChain::empty();
        let ghost all = nodes@;
        let mut index: usize = 0;
        while index < nodes.len()
            invariant
                all == nodes@,
                index <= nodes.len(),
                forall|i: int| 0 <= i < nodes@.len() ==> (#[trigger] nodes@[i]).wf(),
                collects(all.take(index as int), chain@),
                forall|i: int|
                    0 <= i < index ==> (#[trigger] node_fault(all, i, swapchain_count)) is None,
            decreases nodes.len() - index,
        {
            let node: &PresentNode = &nodes[index];
            let ghost seen = all.take(index as int);
            let ghost before = chain@;
            assert forall|j: int| 0 <= j < index implies seen[j] == all[j] by {}
            assert(all[index as int] == *node);
            proof {
                lemma_presence(seen, before, *node);
                assert((exists|j: int| 0 <= j < index && same_kind(#[trigger] all[j], *node))
                    == (exists|j: int|
                    0 <= j < seen.len() && same_kind(#[trigger] seen[j], *node))) by {
                    if exists|j: int| 0 <= j < index && same_kind(#[trigger] all[j], *node) {
                        let j = choose|j: int|
                            0 <= j < index && same_kind(#[trigger] all[j], *node);
                        assert(same_kind(seen[j], *node));
                    }
                    if exists|j: int| 0 <= j < seen.len() && same_kind(#[trigger] seen[j], *node) {
                        let j = choose|j: int|
                            0 <= j < seen.len() && same_kind(#[trigger] seen[j], *node);
                        assert(same_kind(all[j], *node));
                    }
                }
            }
            match chain.add(node, swapchain_count) {
                Ok(_) => {
                    proof {
                        assert(node_fault(all, index as int, swapchain_count) is None);
                        lemma_collect_one(seen, before, *node, chain@);
                        assert(all.take(index + 1) == seen.push(*node));
                    }
                },
                Err(error) => {
                    assert(node_fault(all, index as int, swapchain_count) == Some(error));
                    return Err(error);
                },
            }
            index = index + 1;
        }
        assert(all.take(all.len() as int) == all);
        Ok(chain)
    }

    pub fn fences_slice(&self) -> (fences: Vec<Handle>)
        ensures
            fences@ == listed(self.fences),
    {
        copy_list(&self.fences)
    }

    pub fn mode_slice(&self) -> (modes: Vec<i32>)
        ensures
            modes@ == listed(self.modes),
    {
        copy_list(&self.modes)
    }

    pub fn ids_slice(&self) -> (ids: Vec<u64>)
        ensures
            ids@ == listed(self.ids),
    {
        copy_list(&self.ids)
    }

    /// The changed rectangles of each image, none where the chain has none.
    pub fn regions_slice(&self) -> (regions: Vec<Vec<RectLayer>>)
        ensures
            nested(regions@) == (match self@.regions {
                Some(lists) => lists,
                None => Seq::empty(),
            }),
    {
        match &self.regions {
            Some(lists) => copy_nested(lists.as_slice()),
            None => {
                let none: Vec<Vec<RectLayer>> = Vec::new();
                assert(nested(none@) =~= Seq::empty());
                none
            },
        }
    }

    pub fn is_empty(&self) -> (empty: bool)
        ensures
            empty == (self.regions is None && self.ids is None && self.times is None
                && self.fences is None && self.modes is None),
    {
        self.regions.is_none() && self.ids.is_none() && self.times.is_none()
            && self.fences.is_none() && self.modes.is_none()
    }

    /// The structures that go downstream, from the head on. The rectangles
    /// are the mapped ones where there are as many lists of them as before.
    pub fn rebuilt_nodes(
        &self,
        swapchain_count: u32,
        mapped_regions: Option<&MappedPresentRegions>,
    ) -> (nodes: Vec<PresentNode>)
        requires
            self@.sized(swapchain_count),
        ensures
            node_models(nodes@) == rebuilt(
                with_mapped(
                    self@,
                    match mapped_regions {
                        Some(mapped) => Some(mapped@),
                        None => None,
                    },
                ),
                swapchain_count,
            ),
    {
        let mut nodes: Vec<PresentNode> = Vec::new();
        if let Some(lists) = &self.regions {
            let replaced: bool = match mapped_regions {
                Some(mapped) => mapped.rectangles.len() == lists.len(),
                None => false,
            };
            let regions: Vec<PresentRegion> = match mapped_regions {
                Some(mapped) => if replaced {
                    as_regions(mapped.rectangles.as_slice())
                } else {
                    as_regions(lists.as_slice())
                },
                None => as_regions(lists.as_slice()),
            };
            nodes.push(PresentNode::Regions { count: swapchain_count, regions: Some(regions) });
        }
        if let Some(list) = &self.ids {
            nodes.push(
                PresentNode::Ids {
                    count: swapchain_count,
                    ids: Some(copy_slice(list.as_slice())),
                },
            );
        }
        if let Some(list) = &self.times {
            nodes.push(
                PresentNode::Times {
                    count: swapchain_count,
                    times: Some(copy_slice(list.as_slice())),
                },
            );
        }
        if let Some(list) = &self.fences {
            nodes.push(
                PresentNode::Fences {
                    count: swapchain_count,
                    fences: Some(copy_slice(list.as_slice())),
                },
            );
        }
        if let Some(list) = &self.modes {
            nodes.push(
                PresentNode::Modes {
                    count: swapchain_count,
                    modes: Some(copy_slice(list.as_slice())),
                },
            );
        }
        assert(node_models(nodes@) =~= rebuilt(
            with_mapped(
                self@,
                match mapped_regions {
                    Some(mapped) => Some(mapped@),
                    None => None,
                },
            ),
            swapchain_count,
        ));
        nodes
    }
}

fn copy_nested(lists: &[Vec<RectLayer>]) -> (copy: Vec<Vec<RectLayer>>)
    ensures
        nested(copy@) == nested(lists@),
{
    let mut copy: Vec<Vec<RectLayer>> = Vec::new();
    let mut index: usize = 0;
    while index < lists.len()
        invariant
            index <= lists.len(),
            copy.len() == index,
            forall|i: int| 0 <= i < index ==> (#[trigger] copy@[i])@ == lists@[i]@,
        decreases lists.len() - index,
    {
        copy.push(copy_slice(lists[index].as_slice()));
        index = index + 1;
    }
    assert(nested(copy@) =~= nested(lists@));
    copy
}

fn as_regions(lists: &[Vec<RectLayer>]) -> (regions: Vec<PresentRegion>)
    ensures
        regions@.len() == lists@.len(),
        forall|i: int| 0 <= i < regions@.len() ==> (#[trigger] regions@[i]).rectangles is Some,
        rectangles(regions@) == nested(lists@),
{
    let mut regions: Vec<PresentRegion> = Vec::new();
    let mut index: usize = 0;
    while index < lists.len()
        invariant
            index <= lists.len(),
            regions.len() == index,
            forall|i: int|
                0 <= i < index ==> (#[trigger] regions@[i]).rectangles is Some
                    && regions@[i].rectangles.unwrap()@ == lists@[i]@,
        decreases lists.len() - index,
    {
        regions.push(PresentRegion { rectangles: Some(copy_slice(lists[index].as_slice())) });
        index = index + 1;
    }
    assert(rectangles(regions@) =~= nested(lists@));
    regions
}

/// Changed rectangles in the coordinates of the output.
#[derive(Debug, PartialEq, Eq)]
pub struct MappedPresentRegions {
    rectangles: Vec<Vec<RectLayer>>,
}

impl View for MappedPresentRegions {
    type V = Seq<Seq<RectLayer>>;

    closed spec fn view(&self) -> Seq<Seq<RectLayer>> {
        nested(self.rectangles@)
    }
}

impl MappedPresentRegions {
    pub fn from_rectangles(rectangles: Vec<Vec<RectLayer>>) -> (regions: Self)
        ensures
            regions@ == nested(rectangles@),
    {
        MappedPresentRegions { rectangles }
    }

    pub fn lists(&self) -> (lists: &Vec<Vec<RectLayer>>)
        ensures
            nested(lists@) == self@,
    {
        &self.rectangles
    }
}

impl PresentChainModel {
    /// Every list that is there has one item for each swapchain.
    pub open spec fn sized(self, swapchain_count: u32) -> bool {
        &&& self.regions matches Some(list) ==> list.len() == swapchain_count
        &&& self.ids matches Some(list) ==> list.len() == swapchain_count
        &&& self.times matches Some(list) ==> list.len() == swapchain_count
        &&& self.fences matches Some(list) ==> list.len() == swapchain_count
        &&& self.modes matches Some(list) ==> list.len() == swapchain_count
    }
}

/// The chain with other rectangles, where it has rectangles and there are as
/// many lists of them.
pub open spec fn with_mapped(
    chain: PresentChainModel,
    mapped: Option<Seq<Seq<RectLayer>>>,
) -> PresentChainModel {
    if chain.regions is Some && mapped is Some && mapped.unwrap().len()
        == chain.regions.unwrap().len() {
        PresentChainModel { regions: mapped, ..chain }
    } else {
        chain
    }
}

/// What a structure says, with its array as a sequence.
pub enum NodeModel {
    Regions(u32, Seq<Seq<RectLayer>>),
    Ids(u32, Seq<u64>),
    Times(u32, Seq<PresentTime>),
    Fences(u32, Seq<Handle>),
    Modes(u32, Seq<i32>),
    /// A structure that says nothing that the layer can read.
    Unreadable(PresentNode),
}

pub open spec fn node_model(node: PresentNode) -> NodeModel {
    match node {
        PresentNode::Regions { count, regions } => if node.lacks_array() || regions is None {
            NodeModel::Unreadable(node)
        } else {
            NodeModel::Regions(count, rectangles(listed(regions)))
        },
        PresentNode::Ids { count, ids } => match ids {
            Some(list) => NodeModel::Ids(count, list@),
            None => NodeModel::Unreadable(node),
        },
        PresentNode::Times { count, times } => match times {
            Some(list) => NodeModel::Times(count, list@),
            None => NodeModel::Unreadable(node),
        },
        PresentNode::Fences { count, fences } => match fences {
            Some(list) => NodeModel::Fences(count, list@),
            None => NodeModel::Unreadable(node),
        },
        PresentNode::Modes { count, modes } => match modes {
            Some(list) => NodeModel::Modes(count, list@),
            None => NodeModel::Unreadable(node),
        },
        PresentNode::Unknown { .. } => NodeModel::Unreadable(node),
    }
}

pub open spec fn node_models(nodes: Seq<PresentNode>) -> Seq<NodeModel> {
    Seq::new(nodes.len(), |i: int| node_model(nodes[i]))
}

/// Regions, identifiers, times, fences and modes, each where it is there.
pub open spec fn rebuilt(chain: PresentChainModel, count: u32) -> Seq<NodeModel> {
    let regions = match chain.regions {
        Some(list) => seq![NodeModel::Regions(count, list)],
        None => Seq::empty(),
    };
    let ids = match chain.ids {
        Some(list) => seq![NodeModel::Ids(count, list)],
        None => Seq::empty(),
    };
    let times = match chain.times {
        Some(list) => seq![NodeModel::Times(count, list)],
        None => Seq::empty(),
    };
    let fences = match chain.fences {
        Some(list) => seq![NodeModel::Fences(count, list)],
        None => Seq::empty(),
    };
    let modes = match chain.modes {
        Some(list) => seq![NodeModel::Modes(count, list)],
        None => Seq::empty(),
    };
    regions + ids + times + fences + modes
}

proof fn lemma_presence(seen: Seq<PresentNode>, model: PresentChainModel, node: PresentNode)
    requires
        collects(seen, model),
    ensures
        (exists|j: int| 0 <= j < seen.len() && same_kind(#[trigger] seen[j], node)) == (match node {
            PresentNode::Regions { .. } => model.regions is Some,
            PresentNode::Ids { .. } => model.ids is Some,
            PresentNode::Times { .. } => model.times is Some,
            PresentNode::Fences { .. } => model.fences is Some,
            PresentNode::Modes { .. } => model.modes is Some,
            PresentNode::Unknown { .. } => false,
        }),
{
    if node is Regions && model.regions is Some {
        let j = choose|j: int| 0 <= j < seen.len() && #[trigger] seen[j] is Regions;
        assert(same_kind(seen[j], node));
    }
    if node is Ids && model.ids is Some {
        let j = choose|j: int| 0 <= j < seen.len() && #[trigger] seen[j] is Ids;
        assert(same_kind(seen[j], node));
    }
    if node is Times && model.times is Some {
        let j = choose|j: int| 0 <= j < seen.len() && #[trigger] seen[j] is Times;
        assert(same_kind(seen[j], node));
    }
    if node is Fences && model.fences is Some {
        let j = choose|j: int| 0 <= j < seen.len() && #[trigger] seen[j] is Fences;
        assert(same_kind(seen[j], node));
    }
    if node is Modes && model.modes is Some {
        let j = choose|j: int| 0 <= j < seen.len() && #[trigger] seen[j] is Modes;
        assert(same_kind(seen[j], node));
    }
}

proof fn lemma_collect_one(
    seen: Seq<PresentNode>,
    before: PresentChainModel,
    node: PresentNode,
    after: PresentChainModel,
)
    requires
        collects(seen, before),
        match node {
            PresentNode::Regions { regions, .. } => {
                &&& before.regions is None
                &&& after == PresentChainModel {
                    regions: Some(rectangles(listed(regions))),
                    ..before
                }
            },
            PresentNode::Ids { ids, .. } => {
                &&& before.ids is None
                &&& after == PresentChainModel { ids: Some(listed(ids)), ..before }
            },
            PresentNode::Times { times, .. } => {
                &&& before.times is None
                &&& after == PresentChainModel { times: Some(listed(times)), ..before }
            },
            PresentNode::Fences { fences, .. } => {
                &&& before.fences is None
                &&& after == PresentChainModel { fences: Some(listed(fences)), ..before }
            },
            PresentNode::Modes { modes, .. } => {
                &&& before.modes is None
                &&& after == PresentChainModel { modes: Some(listed(modes)), ..before }
            },
            PresentNode::Unknown { .. } => false,
        },
    ensures
        collects(seen.push(node), after),
{
    let more = seen.push(node);
    assert(more[seen.len() as int] == node);
    assert forall|i: int| 0 <= i < seen.len() implies more[i] == seen[i] by {}
    assert(forall|i: int| 0 <= i < seen.len() && seen[i] is Regions ==> more[i] is Regions);
    assert(forall|i: int| 0 <= i < seen.len() && seen[i] is Ids ==> more[i] is Ids);
    assert(forall|i: int| 0 <= i < seen.len() && seen[i] is Times ==> more[i] is Times);
    assert(forall|i: int| 0 <= i < seen.len() && seen[i] is Fences ==> more[i] is Fences);
    assert(forall|i: int| 0 <= i < seen.len() && seen[i] is Modes ==> more[i] is Modes);
}

/// Whatever order the structures of an accepted chain come in, one value is
/// what they say.
pub proof fn order_does_not_matter(
    first: Seq<PresentNode>,
    second: Seq<PresentNode>,
    left: PresentChainModel,
    right: PresentChainModel,
)
    requires
        collects(first, left),
        collects(second, right),
        forall|node: PresentNode| #[trigger] first.contains(node) <==> second.contains(node),
    ensures
        left == right,
{
    if left.regions is Some {
        let i = choose|i: int| 0 <= i < first.len() && #[trigger] first[i] is Regions;
        assert(first.contains(first[i]));
        let j = choose|j: int| 0 <= j < second.len() && second[j] == first[i];
        assert(second[j] is Regions);
    }
    if right.regions is Some {
        let j = choose|j: int| 0 <= j < second.len() && #[trigger] second[j] is Regions;
        assert(second.contains(second[j]));
        assert(first.contains(second[j]));
        let i = choose|i: int| 0 <= i < first.len() && first[i] == second[j];
        assert(first[i] is Regions);
    }
    if left.ids is Some {
        let i = choose|i: int| 0 <= i < first.len() && #[trigger] first[i] is Ids;
        assert(first.contains(first[i]));
        let j = choose|j: int| 0 <= j < second.len() && second[j] == first[i];
        assert(second[j] is Ids);
    }
    if right.ids is Some {
        let j = choose|j: int| 0 <= j < second.len() && #[trigger] second[j] is Ids;
        assert(second.contains(second[j]));
        assert(first.contains(second[j]));
        let i = choose|i: int| 0 <= i < first.len() && first[i] == second[j];
        assert(first[i] is Ids);
    }
    if left.times is Some {
        let i = choose|i: int| 0 <= i < first.len() && #[trigger] first[i] is Times;
        assert(first.contains(first[i]));
        let j = choose|j: int| 0 <= j < second.len() && second[j] == first[i];
        assert(second[j] is Times);
    }
    if right.times is Some {
        let j = choose|j: int| 0 <= j < second.len() && #[trigger] second[j] is Times;
        assert(second.contains(second[j]));
        assert(first.contains(second[j]));
        let i = choose|i: int| 0 <= i < first.len() && first[i] == second[j];
        assert(first[i] is Times);
    }
    if left.fences is Some {
        let i = choose|i: int| 0 <= i < first.len() && #[trigger] first[i] is Fences;
        assert(first.contains(first[i]));
        let j = choose|j: int| 0 <= j < second.len() && second[j] == first[i];
        assert(second[j] is Fences);
    }
    if right.fences is Some {
        let j = choose|j: int| 0 <= j < second.len() && #[trigger] second[j] is Fences;
        assert(second.contains(second[j]));
        assert(first.contains(second[j]));
        let i = choose|i: int| 0 <= i < first.len() && first[i] == second[j];
        assert(first[i] is Fences);
    }
    if left.modes is Some {
        let i = choose|i: int| 0 <= i < first.len() && #[trigger] first[i] is Modes;
        assert(first.contains(first[i]));
        let j = choose|j: int| 0 <= j < second.len() && second[j] == first[i];
        assert(second[j] is Modes);
    }
    if right.modes is Some {
        let j = choose|j: int| 0 <= j < second.len() && #[trigger] second[j] is Modes;
        assert(second.contains(second[j]));
        assert(first.contains(second[j]));
        let i = choose|i: int| 0 <= i < first.len() && first[i] == second[j];
        assert(first[i] is Modes);
    }
}

/// Reading back the structures that a chain writes gives the chain again.
pub proof fn rebuilt_nodes_say_the_same(
    chain: PresentChainModel,
    nodes: Seq<PresentNode>,
    count: u32,
)
    requires
        node_models(nodes) == rebuilt(chain, count),
    ensures
        chain_accepted(nodes, count),
        collects(nodes, chain),
{
    let written = rebuilt(chain, count);
    assert(nodes.len() == written.len());
    assert forall|i: int| 0 <= i < nodes.len() implies node_model(#[trigger] nodes[i])
        == written[i] by {
        assert(node_models(nodes)[i] == written[i]);
    }
    let regions_at = 0int;
    if chain.regions is Some {
        assert(written[regions_at] == NodeModel::Regions(count, chain.regions.unwrap()));
        assert(nodes[regions_at] is Regions);
    }
    let ids_at = regions_at + (if chain.regions is Some {
        1int
    } else {
        0int
    });
    if chain.ids is Some {
        assert(written[ids_at] == NodeModel::Ids(count, chain.ids.unwrap()));
        assert(nodes[ids_at] is Ids);
    }
    let times_at = ids_at + (if chain.ids is Some {
        1int
    } else {
        0int
    });
    if chain.times is Some {
        assert(written[times_at] == NodeModel::Times(count, chain.times.unwrap()));
        assert(nodes[times_at] is Times);
    }
    let fences_at = times_at + (if chain.times is Some {
        1int
    } else {
        0int
    });
    if chain.fences is Some {
        assert(written[fences_at] == NodeModel::Fences(count, chain.fences.unwrap()));
        assert(nodes[fences_at] is Fences);
    }
    let modes_at = fences_at + (if chain.fences is Some {
        1int
    } else {
        0int
    });
    if chain.modes is Some {
        assert(written[modes_at] == NodeModel::Modes(count, chain.modes.unwrap()));
        assert(nodes[modes_at] is Modes);
    }
    assert forall|i: int| 0 <= i < nodes.len() implies (#[trigger] node_fault(
        nodes,
        i,
        count,
    )) is None by {
        assert(node_model(nodes[i]) == written[i]);
        assert forall|j: int| 0 <= j < i implies !same_kind(#[trigger] nodes[j], nodes[i]) by {
            assert(node_model(nodes[j]) == written[j]);
        }
    }
}

/// A structure of a present is at fault where the layer does not know it, where
/// one of its kind stood before it, where it does not speak of as many swapchains
/// as the present, or where its list is missing; a structure of identifiers with
/// one for each swapchain is not.
pub proof fn present_structures_are_at_fault_for_a_reason(
    chain: Seq<PresentNode>,
    at: int,
    before: int,
    count: u32,
)
    requires
        0 <= before < at < chain.len(),
    ensures
        chain[at] is Unknown ==> node_fault(chain, at, count) == Some(
            PresentChainError::UnknownStructure,
        ),
        (chain[at] is Ids && chain[before] is Ids) || (chain[at] is Regions && chain[before]
            is Regions) || (chain[at] is Times && chain[before] is Times) || (chain[at] is Fences
            && chain[before] is Fences) || (chain[at] is Modes && chain[before] is Modes)
            ==> node_fault(chain, at, count) == Some(PresentChainError::DuplicateStructure),
        chain[0] matches PresentNode::Ids { count: given, ids } ==> node_fault(chain, 0, count) == (
        if given != count {
            Some(PresentChainError::CountMismatch)
        } else if ids is None && count != 0 {
            Some(PresentChainError::NullArray)
        } else {
            None
        }),
        chain[0] matches PresentNode::Times { count: given, times } ==> node_fault(
            chain,
            0,
            count,
        ) == (if given != count {
            Some(PresentChainError::CountMismatch)
        } else if times is None && count != 0 {
            Some(PresentChainError::NullArray)
        } else {
            None
        }),
        chain[0] matches PresentNode::Fences { count: given, fences } ==> node_fault(
            chain,
            0,
            count,
        ) == (if given != count {
            Some(PresentChainError::CountMismatch)
        } else if fences is None && count != 0 {
            Some(PresentChainError::NullArray)
        } else {
            None
        }),
        chain[0] matches PresentNode::Modes { count: given, modes } ==> node_fault(
            chain,
            0,
            count,
        ) == (if given != count {
            Some(PresentChainError::CountMismatch)
        } else if modes is None && count != 0 {
            Some(PresentChainError::NullArray)
        } else {
            None
        }),
        chain[0] matches PresentNode::Regions { count: given, regions } ==> {
            let missing = match regions {
                Some(list) => exists|i: int|
                    0 <= i < list@.len() && (#[trigger] list@[i]).rectangles is None,
                None => count != 0,
            };
            node_fault(chain, 0, count) == (if given != count {
                Some(PresentChainError::CountMismatch)
            } else if missing {
                Some(PresentChainError::NullArray)
            } else {
                None
            })
        },
{
    assert(same_kind(chain[before], chain[at]) ==> exists|j: int|
        0 <= j < at && same_kind(#[trigger] chain[j], chain[at]));
}

/// What the structures of a present collect is what they say, each in its list,
/// and nothing of a kind that is not there.
pub proof fn a_present_collects_what_it_holds(
    chain: Seq<PresentNode>,
    model: PresentChainModel,
    at: int,
)
    requires
        collects(chain, model),
        0 <= at < chain.len(),
    ensures
        chain[at] matches PresentNode::Ids { ids: Some(list), .. } ==> model.ids == Some(list@),
        chain[at] matches PresentNode::Times { times: Some(list), .. } ==> model.times == Some(
            list@,
        ),
        chain[at] matches PresentNode::Fences { fences: Some(list), .. } ==> model.fences == Some(
            list@,
        ),
        chain[at] matches PresentNode::Modes { modes: Some(list), .. } ==> model.modes == Some(
            list@,
        ),
        chain[at] matches PresentNode::Regions { regions: Some(list), .. } ==> model.regions
            is Some && model.regions.unwrap().len() == list@.len() && forall|i: int|
            0 <= i < list@.len() ==> #[trigger] model.regions.unwrap()[i]
                == list@[i].rectangles.unwrap()@,
        (forall|i: int| 0 <= i < chain.len() ==> !(#[trigger] chain[i] is Ids))
            ==> model.ids is None,
        (forall|i: int| 0 <= i < chain.len() ==> !(#[trigger] chain[i] is Fences))
            ==> model.fences is None,
        (forall|i: int| 0 <= i < chain.len() ==> !(#[trigger] chain[i] is Modes))
            ==> model.modes is None,
        (forall|i: int| 0 <= i < chain.len() ==> !(#[trigger] chain[i] is Regions))
            ==> model.regions is None,
        (forall|i: int| 0 <= i < chain.len() ==> !(#[trigger] chain[i] is Times))
            ==> model.times is None,
{
}

/// The rebuilt structures of a present say all that it said, each once, for as
/// many swapchains as it has; changed rectangles go where they were mapped, and
/// nothing else changes with them.
pub proof fn rebuilt_structures_say_all(
    chain: PresentChainModel,
    mapped: Option<Seq<Seq<RectLayer>>>,
    count: u32,
)
    ensures
        ({
            let moved = with_mapped(chain, mapped);
            &&& moved.ids == chain.ids
            &&& moved.times == chain.times
            &&& moved.fences == chain.fences
            &&& moved.modes == chain.modes
            &&& moved.regions is Some == chain.regions is Some
            &&& chain.regions is Some && mapped is Some && mapped.unwrap().len()
                == chain.regions.unwrap().len() ==> moved.regions == mapped
            &&& mapped is None ==> moved.regions == chain.regions
        }),
        ({
            let nodes = rebuilt(chain, count);
            let regions: int = if chain.regions is Some {
                1
            } else {
                0
            };
            let ids: int = if chain.ids is Some {
                1
            } else {
                0
            };
            let times: int = if chain.times is Some {
                1
            } else {
                0
            };
            let fences: int = if chain.fences is Some {
                1
            } else {
                0
            };
            let modes: int = if chain.modes is Some {
                1
            } else {
                0
            };
            &&& nodes.len() == regions + ids + times + fences + modes
            &&& chain.regions matches Some(list) ==> nodes[0] == NodeModel::Regions(count, list)
            &&& chain.ids matches Some(list) ==> nodes[regions] == NodeModel::Ids(count, list)
            &&& chain.times matches Some(list) ==> nodes[regions + ids] == NodeModel::Times(
                count,
                list,
            )
            &&& chain.fences matches Some(list) ==> nodes[regions + ids + times]
                == NodeModel::Fences(count, list)
            &&& chain.modes matches Some(list) ==> nodes[regions + ids + times + fences]
                == NodeModel::Modes(count, list)
        }),
{
}

} // verus!
