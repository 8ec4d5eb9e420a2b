//! The structures that may extend a swapchain's creation.

use vstd::prelude::*;
use vstd::string::StringExecFns;

use super::maintenance::PresentScaling;
use super::wsi_compatibility::IncompatibleWsiExtension;
use crate::seqs::copy_slice;
use crate::text::{
    append_hex, format_debug, format_text, from_utf8_lossy, hex_text, lossy_text, result_debug,
    result_text, structure_type_debug, structure_type_text,
};
use crate::vk::{
    Extent2D, Handle, VkResult, IMAGE_FORMAT_LIST_CREATE_INFO, NULL_HANDLE,
    SWAPCHAIN_CREATE_DEFERRED_MEMORY_ALLOCATION, SWAPCHAIN_CREATE_MUTABLE_FORMAT,
    SWAPCHAIN_PRESENT_MODES_CREATE_INFO_EXT, SWAPCHAIN_PRESENT_SCALING_CREATE_INFO_EXT,
};

verus! {

/// A structure in the extension chain of a swapchain's creation. An array is
/// `None` where its pointer is null although its count is not zero.
#[derive(Debug, PartialEq, Eq)]
pub enum SwapchainNode {
    PresentModes(Option<Vec<i32>>),
    Scaling(PresentScaling),
    FormatList(Option<Vec<i32>>),
    Other { structure_type: i32 },
}

impl SwapchainNode {
    pub open spec fn kind(self) -> i32 {
        match self {
            SwapchainNode::PresentModes(_) => SWAPCHAIN_PRESENT_MODES_CREATE_INFO_EXT,
            SwapchainNode::Scaling(_) => SWAPCHAIN_PRESENT_SCALING_CREATE_INFO_EXT,
            SwapchainNode::FormatList(_) => IMAGE_FORMAT_LIST_CREATE_INFO,
            SwapchainNode::Other { structure_type } => structure_type,
        }
    }

    pub fn structure_type(&self) -> (structure_type: i32)
        ensures
            structure_type == self.kind(),
    {
        match self {
            SwapchainNode::PresentModes(_) => SWAPCHAIN_PRESENT_MODES_CREATE_INFO_EXT,
            SwapchainNode::Scaling(_) => SWAPCHAIN_PRESENT_SCALING_CREATE_INFO_EXT,
            SwapchainNode::FormatList(_) => IMAGE_FORMAT_LIST_CREATE_INFO,
            SwapchainNode::Other { structure_type } => *structure_type,
        }
    }
}

/// The parameters of a swapchain's creation, as raw values. The queue family
/// list is `None` where its pointer is null.
#[derive(Debug)]
pub struct SwapchainCreateInfo {
    pub flags: u32,
    pub surface: Handle,
    pub min_image_count: u32,
    pub image_format: i32,
    pub image_color_space: i32,
    pub image_extent: Extent2D,
    pub image_array_layers: u32,
    pub image_usage: u32,
    pub image_sharing_mode: i32,
    pub queue_family_indices: Option<Vec<u32>>,
    pub pre_transform: u32,
    pub composite_alpha: u32,
    pub present_mode: i32,
    pub clipped: u32,
    pub old_swapchain: Handle,
    pub chain: Vec<SwapchainNode>,
}

impl Default for SwapchainCreateInfo {
    fn default() -> (info: Self)
        ensures
            info.flags == 0,
            info.surface == NULL_HANDLE,
            info.min_image_count == 0,
            info.image_format == 0,
            info.image_color_space == 0,
            info.image_extent == (Extent2D { width: 0, height: 0 }),
            info.image_array_layers == 0,
            info.image_usage == 0,
            info.image_sharing_mode == 0,
            info.queue_family_indices is None,
            info.pre_transform == 0,
            info.composite_alpha == 0,
            info.present_mode == 0,
            info.clipped == 0,
            info.old_swapchain == NULL_HANDLE,
            info.chain@.len() == 0,
    {
        SwapchainCreateInfo {
            flags: 0,
            surface: NULL_HANDLE,
            min_image_count: 0,
            image_format: 0,
            image_color_space: 0,
            image_extent: Extent2D { width: 0, height: 0 },
            image_array_layers: 0,
            image_usage: 0,
            image_sharing_mode: 0,
            queue_family_indices: None,
            pre_transform: 0,
            composite_alpha: 0,
            present_mode: 0,
            clipped: 0,
            old_swapchain: NULL_HANDLE,
            chain: Vec::new(),
        }
    }
}

/// Two requests that say the same, with the same structures in their chains.
pub open spec fn same_request(left: SwapchainCreateInfo, right: SwapchainCreateInfo) -> bool {
    &&& left.flags == right.flags
    &&& left.surface == right.surface
    &&& left.min_image_count == right.min_image_count
    &&& left.image_format == right.image_format
    &&& left.image_color_space == right.image_color_space
    &&& left.image_extent == right.image_extent
    &&& left.image_array_layers == right.image_array_layers
    &&& left.image_usage == right.image_usage
    &&& left.image_sharing_mode == right.image_sharing_mode
    &&& left.queue_family_indices is Some == right.queue_family_indices is Some
    &&& left.queue_family_indices is Some ==> left.queue_family_indices.unwrap()@
        == right.queue_family_indices.unwrap()@
    &&& left.pre_transform == right.pre_transform
    &&& left.composite_alpha == right.composite_alpha
    &&& left.present_mode == right.present_mode
    &&& left.clipped == right.clipped
    &&& left.old_swapchain == right.old_swapchain
    &&& node_models(left.chain@) == node_models(right.chain@)
}

impl SwapchainCreateInfo {
    /// The same request in a value of its own.
    pub fn duplicate(&self) -> (info: Self)
        ensures
            same_request(info, *self),
    {
        let mut chain: Vec<SwapchainNode> = Vec::new();
        let mut index: usize = 0;
        while index < self.chain.len()
            invariant
                index <= self.chain.len(),
                chain.len() == index,
                forall|i: int|
                    0 <= i < index ==> node_model(#[trigger] chain@[i]) == node_model(
                        self.chain@[i],
                    ),
            decreases self.chain.len() - index,
        {
            let node: SwapchainNode = match &self.chain[index] {
                SwapchainNode::PresentModes(list) => SwapchainNode::PresentModes(copy_items(list)),
                SwapchainNode::Scaling(scaling) => SwapchainNode::Scaling(*scaling),
                SwapchainNode::FormatList(list) => SwapchainNode::FormatList(copy_items(list)),
                SwapchainNode::Other { structure_type } => SwapchainNode::Other {
                    structure_type: *structure_type,
                },
            };
            chain.push(node);
            index = index + 1;
        }
        assert(node_models(chain@) =~= node_models(self.chain@));
        SwapchainCreateInfo {
            flags: self.flags,
            surface: self.surface,
            min_image_count: self.min_image_count,
            image_format: self.image_format,
            image_color_space: self.image_color_space,
            image_extent: self.image_extent,
            image_array_layers: self.image_array_layers,
            image_usage: self.image_usage,
            image_sharing_mode: self.image_sharing_mode,
            queue_family_indices: match &self.queue_family_indices {
                Some(indices) => Some(copy_slice(indices.as_slice())),
                None => None,
            },
            pre_transform: self.pre_transform,
            composite_alpha: self.composite_alpha,
            present_mode: self.present_mode,
            clipped: self.clipped,
            old_swapchain: self.old_swapchain,
            chain,
        }
    }
}

/// Why a swapchain cannot be virtualized.
#[derive(Debug, PartialEq, Eq)]
pub enum SwapchainCompatibilityError {
    MalformedExtensionNames,
    IncompatibleWsiExtension { name: Vec<u8>, reason: &'static str },
    UnsupportedFlags { bits: u32 },
    UnsupportedPNext { structure_type: i32 },
    DuplicatePNext { structure_type: i32 },
    NullArray { structure_type: i32 },
    EmptyArray { structure_type: i32 },
    MissingBaseFormat { base: i32 },
    UnsupportedImageContract(VkResult),
}

impl SwapchainCompatibilityError {
    pub fn from_wsi(incompatible: &IncompatibleWsiExtension) -> (error: Self)
        ensures
            match error {
                SwapchainCompatibilityError::MalformedExtensionNames => incompatible.name@.len()
                    == 0,
                SwapchainCompatibilityError::IncompatibleWsiExtension { name, reason } => {
                    &&& incompatible.name@.len() > 0
                    &&& name@ == incompatible.name@
                    &&& reason@ == incompatible.reason@
                },
                _ => false,
            },
    {
        if incompatible.name.len() == 0 {
            SwapchainCompatibilityError::MalformedExtensionNames
        } else {
            SwapchainCompatibilityError::IncompatibleWsiExtension {
                name: copy_slice(incompatible.name.as_slice()),
                reason: incompatible.reason,
            }
        }
    }

    pub open spec fn reason_text(self) -> Seq<char> {
        match self {
            SwapchainCompatibilityError::MalformedExtensionNames => "malformed_extension_names"@,
            SwapchainCompatibilityError::IncompatibleWsiExtension { name, .. } => {
                "incompatible_wsi_extension extension="@ + lossy_text(name@)
            },
            SwapchainCompatibilityError::UnsupportedFlags { bits } => {
                "unsupported_flags bits=0x"@ + hex_text(bits as nat)
            },
            SwapchainCompatibilityError::UnsupportedPNext { structure_type } => {
                "unsupported_pnext stype="@ + structure_type_text(structure_type)
            },
            SwapchainCompatibilityError::DuplicatePNext { structure_type } => {
                "duplicate_pnext stype="@ + structure_type_text(structure_type)
            },
            SwapchainCompatibilityError::NullArray { structure_type } => {
                "null_array stype="@ + structure_type_text(structure_type)
            },
            SwapchainCompatibilityError::EmptyArray { structure_type } => {
                "empty_array stype="@ + structure_type_text(structure_type)
            },
            SwapchainCompatibilityError::MissingBaseFormat { base } => {
                "missing_base_format base="@ + format_text(base)
            },
            SwapchainCompatibilityError::UnsupportedImageContract(result) => {
                "unsupported_image_contract result="@ + result_text(result)
            },
        }
    }

    pub fn reason(&self) -> (text: String)
        ensures
            text@ == self.reason_text(),
    {
        match self {
            SwapchainCompatibilityError::MalformedExtensionNames => String::from_str(
                "malformed_extension_names",
            ),
            SwapchainCompatibilityError::IncompatibleWsiExtension { name, .. } => {
                String::from_str("incompatible_wsi_extension extension=").concat(
                    from_utf8_lossy(name.as_slice()).as_str(),
                )
            },
            SwapchainCompatibilityError::UnsupportedFlags { bits } => {
                let mut text: String = String::from_str("unsupported_flags bits=0x");
                append_hex(&mut text, *bits);
                text
            },
            SwapchainCompatibilityError::UnsupportedPNext { structure_type } => {
                String::from_str("unsupported_pnext stype=").concat(
                    structure_type_debug(*structure_type).as_str(),
                )
            },
            SwapchainCompatibilityError::DuplicatePNext { structure_type } => {
                String::from_str("duplicate_pnext stype=").concat(
                    structure_type_debug(*structure_type).as_str(),
                )
            },
            SwapchainCompatibilityError::NullArray { structure_type } => {
                String::from_str("null_array stype=").concat(
                    structure_type_debug(*structure_type).as_str(),
                )
            },
            SwapchainCompatibilityError::EmptyArray { structure_type } => {
                String::from_str("empty_array stype=").concat(
                    structure_type_debug(*structure_type).as_str(),
                )
            },
            SwapchainCompatibilityError::MissingBaseFormat { base } => {
                String::from_str("missing_base_format base=").concat(format_debug(*base).as_str())
            },
            SwapchainCompatibilityError::UnsupportedImageContract(result) => {
                String::from_str("unsupported_image_contract result=").concat(
                    result_debug(*result).as_str(),
                )
            },
        }
    }
}

/// No flag but deferred allocation and mutable format is set.
pub open spec fn flags_supported(flags: u32) -> bool {
    flags & !(SWAPCHAIN_CREATE_DEFERRED_MEMORY_ALLOCATION | SWAPCHAIN_CREATE_MUTABLE_FORMAT) == 0
}

/// The flags ask for views in other formats.
pub open spec fn flags_mutable(flags: u32) -> bool {
    flags & SWAPCHAIN_CREATE_MUTABLE_FORMAT == SWAPCHAIN_CREATE_MUTABLE_FORMAT
}

pub fn supported_swapchain_flags(flags: u32) -> (supported: bool)
    ensures
        supported == flags_supported(flags),
{
    flags & !(SWAPCHAIN_CREATE_DEFERRED_MEMORY_ALLOCATION | SWAPCHAIN_CREATE_MUTABLE_FORMAT) == 0
}

pub fn mutable_format_requested(flags: u32) -> (requested: bool)
    ensures
        requested == flags_mutable(flags),
{
    flags & SWAPCHAIN_CREATE_MUTABLE_FORMAT == SWAPCHAIN_CREATE_MUTABLE_FORMAT
}

/// The extension structures that the layer understands, in vectors of its own.
#[derive(Debug, PartialEq, Eq)]
pub struct SwapchainCreateChain {
    pub present_modes: Option<Vec<i32>>,
    pub scaling: Option<PresentScaling>,
    pub view_formats: Option<Vec<i32>>,
}

/// The items of a list that may be missing.
pub open spec fn items(list: Option<Vec<i32>>) -> Option<Seq<i32>> {
    match list {
        Some(values) => Some(values@),
        None => None,
    }
}

pub fn copy_items(list: &Option<Vec<i32>>) -> (copy: Option<Vec<i32>>)
    ensures
        items(copy) == items(*list),
{
    match list {
        Some(values) => Some(copy_slice(values.as_slice())),
        None => None,
    }
}

#[verifier::ext_equal]
pub struct CreateChainModel {
    pub present_modes: Option<Seq<i32>>,
    pub scaling: Option<PresentScaling>,
    pub view_formats: Option<Seq<i32>>,
}

impl View for SwapchainCreateChain {
    type V = CreateChainModel;

    open spec fn view(&self) -> CreateChainModel {
        CreateChainModel {
            present_modes: items(self.present_modes),
            scaling: self.scaling,
            view_formats: items(self.view_formats),
        }
    }
}

/// What is wrong with an array: too short before missing.
pub open spec fn array_fault(list: Option<Vec<i32>>, kind: i32) -> Option<
    SwapchainCompatibilityError,
> {
    match list {
        Some(values) => if values@.len() == 0 {
            Some(SwapchainCompatibilityError::EmptyArray { structure_type: kind })
        } else {
            None
        },
        None => Some(SwapchainCompatibilityError::NullArray { structure_type: kind }),
    }
}

/// What is wrong with the structure at one place of a chain, if anything is.
pub open spec fn node_fault(chain: Seq<SwapchainNode>, at: int) -> Option<
    SwapchainCompatibilityError,
> {
    let node = chain[at];
    if node is Other {
        Some(SwapchainCompatibilityError::UnsupportedPNext { structure_type: node.kind() })
    } else if exists|j: int| 0 <= j < at && same_kind(#[trigger] chain[j], node) {
        Some(SwapchainCompatibilityError::DuplicatePNext { structure_type: node.kind() })
    } else {
        match node {
            SwapchainNode::PresentModes(list) => array_fault(list, node.kind()),
            SwapchainNode::FormatList(list) => array_fault(list, node.kind()),
            _ => None,
        }
    }
}

/// Two structures of one kind that the layer understands.
pub open spec fn same_kind(left: SwapchainNode, right: SwapchainNode) -> bool {
    ||| left is PresentModes && right is PresentModes
    ||| left is Scaling && right is Scaling
    ||| left is FormatList && right is FormatList
}

/// The chain holds exactly what some structures say: a field is set exactly
/// if one of them sets it, and each of them says what the field holds.
pub open spec fn collects(chain: Seq<SwapchainNode>, model: CreateChainModel) -> bool {
    &&& model.present_modes is Some <==> exists|i: int|
        0 <= i < chain.len() && #[trigger] chain[i] is PresentModes
    &&& model.scaling is Some <==> exists|i: int|
        0 <= i < chain.len() && #[trigger] chain[i] is Scaling
    &&& model.view_formats is Some <==> exists|i: int|
        0 <= i < chain.len() && #[trigger] chain[i] is FormatList
    &&& forall|i: int|
        0 <= i < chain.len() ==> match #[trigger] chain[i] {
            SwapchainNode::PresentModes(list) => model.present_modes == items(list),
            SwapchainNode::Scaling(scaling) => model.scaling == Some(scaling),
            SwapchainNode::FormatList(list) => model.view_formats == items(list),
            SwapchainNode::Other { .. } => false,
        }
}

/// A chain without a fault.
pub open spec fn chain_accepted(chain: Seq<SwapchainNode>) -> bool {
    forall|i: int| 0 <= i < chain.len() ==> (#[trigger] node_fault(chain, i)) is None
}

/// The fault of the first structure that has one.
pub open spec fn first_fault(
    chain: Seq<SwapchainNode>,
    error: SwapchainCompatibilityError,
) -> bool {
    exists|i: int|
        {
            &&& 0 <= i < chain.len()
            &&& #[trigger] node_fault(chain, i) == Some(error)
            &&& forall|j: int| 0 <= j < i ==> (#[trigger] node_fault(chain, j)) is None
        }
}

/// Views in other formats were asked for, and the base format is not among
/// those listed.
pub open spec fn lacks_base_format(
    flags: u32,
    image_format: i32,
    view_formats: Option<Seq<i32>>,
) -> bool {
    flags_mutable(flags) && !(view_formats is Some && view_formats.unwrap().contains(image_format))
}

fn contains_format(formats: &[i32], format: i32) -> (found: bool)
    ensures
        found == formats@.contains(format),
{
    let mut index: usize = 0;
    while index < formats.len()
        invariant
            index <= formats.len(),
            forall|i: int| 0 <= i < index ==> formats@[i] != format,
        decreases formats.len() - index,
    {
        if formats[index] == format {
            assert(formats@[index as int] == format);
            return true;
        }
        index = index + 1;
    }
    false
}

impl SwapchainCreateChain {
    pub fn empty() -> (chain: Self)
        ensures
            chain@ == (CreateChainModel { present_modes: None, scaling: None, view_formats: None }),
    {
        SwapchainCreateChain { present_modes: None, scaling: None, view_formats: None }
    }

    /// Takes in one more structure, or says what is wrong with it.
    fn add(&mut self, node: &SwapchainNode) -> (result: Result<(), SwapchainCompatibilityError>)
        ensures
            match result {
                Ok(_) => match *node {
                    SwapchainNode::PresentModes(list) => {
                        &&& old(self)@.present_modes is None
                        &&& array_fault(list, node.kind()) is None
                        &&& final(self)@ == CreateChainModel {
                            present_modes: items(list),
                            ..old(self)@
                        }
                    },
                    SwapchainNode::Scaling(scaling) => {
                        &&& old(self)@.scaling is None
                        &&& final(self)@ == CreateChainModel {
                            scaling: Some(scaling),
                            ..old(self)@
                        }
                    },
                    SwapchainNode::FormatList(list) => {
                        &&& old(self)@.view_formats is None
                        &&& array_fault(list, node.kind()) is None
                        &&& final(self)@ == CreateChainModel {
                            view_formats: items(list),
                            ..old(self)@
                        }
                    },
                    SwapchainNode::Other { .. } => false,
                },
                Err(error) => {
                    let duplicate = match *node {
                        SwapchainNode::PresentModes(_) => old(self)@.present_modes is Some,
                        SwapchainNode::Scaling(_) => old(self)@.scaling is Some,
                        SwapchainNode::FormatList(_) => old(self)@.view_formats is Some,
                        SwapchainNode::Other { .. } => false,
                    };
                    if *node is Other {
                        error == SwapchainCompatibilityError::UnsupportedPNext {
                            structure_type: node.kind(),
                        }
                    } else if duplicate {
                        error == SwapchainCompatibilityError::DuplicatePNext {
                            structure_type: node.kind(),
                        }
                    } else {
                        match *node {
                            SwapchainNode::PresentModes(list) => array_fault(list, node.kind())
                                == Some(error),
                            SwapchainNode::FormatList(list) => array_fault(list, node.kind())
                                == Some(error),
                            _ => false,
                        }
                    }
                },
            },
    {
        let structure_type: i32 = node.structure_type();
        match node {
            SwapchainNode::PresentModes(list) => {
                if self.present_modes.is_some() {
                    return Err(SwapchainCompatibilityError::DuplicatePNext { structure_type });
                }
                match list {
                    None => {
                        return Err(SwapchainCompatibilityError::NullArray { structure_type });
                    },
                    Some(values) => {
                        if values.len() == 0 {
                            return Err(SwapchainCompatibilityError::EmptyArray { structure_type });
                        }
                    },
                }
                self.present_modes = copy_items(list);
            },
            SwapchainNode::Scaling(scaling) => {
                if self.scaling.is_some() {
                    return Err(SwapchainCompatibilityError::DuplicatePNext { structure_type });
                }
                self.scaling = Some(*scaling);
            },
            SwapchainNode::FormatList(list) => {
                if self.view_formats.is_some() {
                    return Err(SwapchainCompatibilityError::DuplicatePNext { structure_type });
                }
                match list {
                    None => {
                        return Err(SwapchainCompatibilityError::NullArray { structure_type });
                    },
                    Some(values) => {
                        if values.len() == 0 {
                            return Err(SwapchainCompatibilityError::EmptyArray { structure_type });
                        }
                    },
                }
                self.view_formats = copy_items(list);
            },
            SwapchainNode::Other { .. } => {
                return Err(SwapchainCompatibilityError::UnsupportedPNext { structure_type });
            },
        }
        Ok(())
    }

    /// Reads the flags and the chain. The first thing that is wrong decides:
    /// flags, then the structures in order, then a missing base format.
    pub fn from_create_info(info: &SwapchainCreateInfo) -> (result: Result<
        Self,
        SwapchainCompatibilityError,
    >)
        ensures
            match result {
                Ok(chain) => {
                    &&& flags_supported(info.flags)
                    &&& chain_accepted(info.chain@)
                    &&& collects(info.chain@, chain@)
                    &&& !lacks_base_format(info.flags, info.image_format, chain@.view_formats)
                },
                Err(error) => if !flags_supported(info.flags) {
                    error == SwapchainCompatibilityError::UnsupportedFlags { bits: info.flags }
                } else if !chain_accepted(info.chain@) {
                    first_fault(info.chain@, error)
                } else {
                    &&& error == SwapchainCompatibilityError::MissingBaseFormat {
                        base: info.image_format,
                    }
                    &&& exists|model: CreateChainModel| #[trigger]
                        collects(info.chain@, model) && lacks_base_format(
                            info.flags,
                            info.image_format,
                            model.view_formats,
                        )
                },
            },
    {
        if !supported_swapchain_flags(info.flags) {
            return Err(SwapchainCompatibilityError::UnsupportedFlags { bits: info.flags });
        }
        let mut chain: SwapchainCreateChain = SwapchainCreateChain::empty();
        let ghost nodes = info.chain@;
        let mut index: usize = 0;
        while index < info.chain.len()
            invariant
                nodes == info.chain@,
                flags_supported(info.flags),
                index <= info.chain.len(),
                collects(nodes.take(index as int), chain@),
                forall|i: int| 0 <= i < index ==> (#[trigger] node_fault(nodes, i)) is None,
            decreases info.chain.len() - index,
        {
            let node: &SwapchainNode = &info.chain[index];
            let ghost seen = nodes.take(index as int);
            let ghost more = nodes.take(index + 1);
            let ghost before = chain@;
            assert forall|j: int| 0 <= j < index implies seen[j] == nodes[j] by {}
            match chain.add(node) {
                Ok(_) => {
                    proof {
                        assert(nodes[index as int] == *node);
                        assert(!exists|j: int|
                            0 <= j < index && same_kind(#[trigger] nodes[j], *node)) by {
                            if exists|j: int|
                                0 <= j < index && same_kind(#[trigger] nodes[j], *node) {
                                let j = choose|j: int|
                                    0 <= j < index && same_kind(#[trigger] nodes[j], *node);
                                assert(seen[j] == nodes[j]);
                            }
                        }
                        assert(node_fault(nodes, index as int) is None);
                        lemma_collect_one(seen, before, *node, chain@);
                        assert(more == seen.push(*node));
                    }
                },
                Err(error) => {
                    proof {
                        assert(nodes[index as int] == *node);
                        let duplicate = match *node {
                            SwapchainNode::PresentModes(_) => before.present_modes is Some,
                            SwapchainNode::Scaling(_) => before.scaling is Some,
                            SwapchainNode::FormatList(_) => before.view_formats is Some,
                            SwapchainNode::Other { .. } => false,
                        };
                        if duplicate {
                            let j = choose|j: int|
                                0 <= j < seen.len() && same_kind(#[trigger] seen[j], *node);
                            assert(same_kind(nodes[j], *node));
                        } else if !(*node is Other) {
                            assert forall|j: int| 0 <= j < index implies !same_kind(
                                #[trigger] nodes[j],
                                *node,
                            ) by {
                                assert(seen[j] == nodes[j]);
                            }
                        }
                        assert(node_fault(nodes, index as int) == Some(error));
                    }
                    return Err(error);
                },
            }
            index = index + 1;
        }
        assert(nodes.take(nodes.len() as int) == nodes);
        if mutable_format_requested(info.flags) {
            let listed: bool = match &chain.view_formats {
                Some(formats) => contains_format(formats.as_slice(), info.image_format),
                None => false,
            };
            if !listed {
                assert(collects(info.chain@, chain@));
                return Err(
                    SwapchainCompatibilityError::MissingBaseFormat { base: info.image_format },
                );
            }
        }
        Ok(chain)
    }

    /// The structures that say what this chain holds, from the head on: the
    /// format list, the present modes, the scaling.
    pub fn rebuilt_nodes(&self) -> (nodes: Vec<SwapchainNode>)
        ensures
            node_models(nodes@) == rebuilt(self@),
    {
        let mut nodes: Vec<SwapchainNode> = Vec::new();
        if self.view_formats.is_some() {
            nodes.push(SwapchainNode::FormatList(copy_items(&self.view_formats)));
        }
        if self.present_modes.is_some() {
            nodes.push(SwapchainNode::PresentModes(copy_items(&self.present_modes)));
        }
        if let Some(scaling) = self.scaling {
            nodes.push(SwapchainNode::Scaling(scaling));
        }
        assert(node_models(nodes@) =~= rebuilt(self@));
        nodes
    }

    /// The same chain in a value of its own.
    pub fn duplicate(&self) -> (chain: Self)
        ensures
            chain@ == self@,
    {
        SwapchainCreateChain {
            present_modes: copy_items(&self.present_modes),
            scaling: self.scaling,
            view_formats: copy_items(&self.view_formats),
        }
    }
}

/// What a structure says, with its array as a sequence.
pub enum NodeModel {
    PresentModes(Option<Seq<i32>>),
    Scaling(PresentScaling),
    FormatList(Option<Seq<i32>>),
    Other(i32),
}

pub open spec fn node_model(node: SwapchainNode) -> NodeModel {
    match node {
        SwapchainNode::PresentModes(list) => NodeModel::PresentModes(items(list)),
        SwapchainNode::Scaling(scaling) => NodeModel::Scaling(scaling),
        SwapchainNode::FormatList(list) => NodeModel::FormatList(items(list)),
        SwapchainNode::Other { structure_type } => NodeModel::Other(structure_type),
    }
}

pub open spec fn node_models(nodes: Seq<SwapchainNode>) -> Seq<NodeModel> {
    Seq::new(nodes.len(), |i: int| node_model(nodes[i]))
}

pub open spec fn rebuilt(chain: CreateChainModel) -> Seq<NodeModel> {
    let formats = if chain.view_formats is Some {
        seq![NodeModel::FormatList(chain.view_formats)]
    } else {
        Seq::empty()
    };
    let modes = if chain.present_modes is Some {
        seq![NodeModel::PresentModes(chain.present_modes)]
    } else {
        Seq::empty()
    };
    let scaling = match chain.scaling {
        Some(scaling) => seq![NodeModel::Scaling(scaling)],
        None => Seq::empty(),
    };
    formats + modes + scaling
}

proof fn lemma_collect_one(
    seen: Seq<SwapchainNode>,
    before: CreateChainModel,
    node: SwapchainNode,
    after: CreateChainModel,
)
    requires
        collects(seen, before),
        match node {
            SwapchainNode::PresentModes(list) => {
                &&& before.present_modes is None
                &&& items(list) is Some
                &&& after == CreateChainModel { present_modes: items(list), ..before }
            },
            SwapchainNode::Scaling(scaling) => {
                &&& before.scaling is None
                &&& after == CreateChainModel { scaling: Some(scaling), ..before }
            },
            SwapchainNode::FormatList(list) => {
                &&& before.view_formats is None
                &&& items(list) is Some
                &&& after == CreateChainModel { view_formats: items(list), ..before }
            },
            SwapchainNode::Other { .. } => false,
        },
    ensures
        collects(seen.push(node), after),
{
    let more = seen.push(node);
    assert(more[seen.len() as int] == node);
    assert forall|i: int| 0 <= i < seen.len() implies more[i] == seen[i] by {}
    assert(forall|i: int| 0 <= i < seen.len() && seen[i] is PresentModes ==> more[i]
        is PresentModes);
    assert(forall|i: int| 0 <= i < seen.len() && seen[i] is Scaling ==> more[i] is Scaling);
    assert(forall|i: int| 0 <= i < seen.len() && seen[i] is FormatList ==> more[i] is FormatList);
}

/// At most one chain value is what a list of structures says.
pub proof fn a_chain_says_one_thing(
    chain: Seq<SwapchainNode>,
    first: CreateChainModel,
    second: CreateChainModel,
)
    requires
        collects(chain, first),
        collects(chain, second),
    ensures
        first == second,
{
    if first.present_modes is Some {
        let i = choose|i: int| 0 <= i < chain.len() && #[trigger] chain[i] is PresentModes;
        assert(chain[i] is PresentModes);
    }
    if first.scaling is Some {
        let i = choose|i: int| 0 <= i < chain.len() && #[trigger] chain[i] is Scaling;
        assert(chain[i] is Scaling);
    }
    if first.view_formats is Some {
        let i = choose|i: int| 0 <= i < chain.len() && #[trigger] chain[i] is FormatList;
        assert(chain[i] is FormatList);
    }
}

/// Reading back the structures that a chain writes gives the chain again:
/// they have no fault and say just what it holds.
pub proof fn rebuilt_nodes_say_the_same(chain: CreateChainModel, nodes: Seq<SwapchainNode>)
    requires
        node_models(nodes) == rebuilt(chain),
        chain.present_modes matches Some(modes) ==> modes.len() > 0,
        chain.view_formats matches Some(formats) ==> formats.len() > 0,
    ensures
        chain_accepted(nodes),
        collects(nodes, chain),
{
    let written = rebuilt(chain);
    assert(nodes.len() == written.len());
    assert forall|i: int| 0 <= i < nodes.len() implies node_model(#[trigger] nodes[i])
        == written[i] by {
        assert(node_models(nodes)[i] == written[i]);
    }
    let formats_at = 0int;
    let modes_at = if chain.view_formats is Some {
        1int
    } else {
        0int
    };
    let scaling_at = modes_at + (if chain.present_modes is Some {
        1int
    } else {
        0int
    });
    if chain.view_formats is Some {
        assert(written[formats_at] == NodeModel::FormatList(chain.view_formats));
        assert(nodes[formats_at] is FormatList);
    }
    if chain.present_modes is Some {
        assert(written[modes_at] == NodeModel::PresentModes(chain.present_modes));
        assert(nodes[modes_at] is PresentModes);
    }
    if chain.scaling is Some {
        assert(written[scaling_at] == NodeModel::Scaling(chain.scaling.unwrap()));
        assert(nodes[scaling_at] is Scaling);
    }
    assert forall|i: int| 0 <= i < nodes.len() implies (#[trigger] node_fault(nodes, i)) is None by {
        assert(node_model(nodes[i]) == written[i]);
        assert forall|j: int| 0 <= j < i implies !same_kind(#[trigger] nodes[j], nodes[i]) by {
            assert(node_model(nodes[j]) == written[j]);
        }
    }
}

/// A request can be kept where its flags ask for nothing but deferred memory and
/// views in other formats; such views need the base format among those listed.
pub proof fn flags_say_what_can_be_kept(flags: u32, format: i32, formats: Option<Seq<i32>>)
    ensures
        flags_supported(flags) <==> flags & 0xffff_fff3 == 0,
        flags_mutable(flags) <==> flags & 0x4 == 0x4,
        lacks_base_format(flags, format, formats) <==> flags & 0x4 == 0x4 && !(
        formats matches Some(list) && list.contains(format)),
{
    assert(!(0x8u32 | 0x4u32) == 0xffff_fff3u32) by (bit_vector);
}

/// A structure of a chain is at fault where the layer does not know it, where one
/// of its kind stood before it, or where its list is missing or empty; a list of
/// modes or formats with something in it is not.
pub proof fn structures_are_at_fault_for_a_reason(chain: Seq<SwapchainNode>, at: int, before: int)
    requires
        0 <= before < at < chain.len(),
    ensures
        chain[at] is Other ==> node_fault(chain, at) matches Some(
            SwapchainCompatibilityError::UnsupportedPNext { .. },
        ),
        chain[at] is Scaling && chain[before] is Scaling || chain[at] is PresentModes
            && chain[before] is PresentModes || chain[at] is FormatList && chain[before]
            is FormatList ==> node_fault(chain, at) matches Some(
            SwapchainCompatibilityError::DuplicatePNext { .. },
        ),
        chain[0] matches SwapchainNode::FormatList(list) ==> (node_fault(chain, 0) is None
            <==> list is Some && list.unwrap()@.len() > 0),
        chain[0] matches SwapchainNode::PresentModes(list) ==> (node_fault(chain, 0) is None
            <==> list is Some && list.unwrap()@.len() > 0),
        chain[0] is Scaling ==> node_fault(chain, 0) is None,
{
    assert(same_kind(chain[before], chain[at]) ==> exists|j: int|
        0 <= j < at && same_kind(#[trigger] chain[j], chain[at]));
}

/// The rebuilt chain of a request holds each structure that the request had, with
/// all that it said: formats, then modes, then scaling.
pub proof fn a_rebuilt_chain_says_all(chain: CreateChainModel)
    ensures
        ({
            let nodes = rebuilt(chain);
            let formats: int = if chain.view_formats is Some {
                1
            } else {
                0
            };
            let modes: int = if chain.present_modes is Some {
                1
            } else {
                0
            };
            let scaling: int = if chain.scaling is Some {
                1
            } else {
                0
            };
            &&& nodes.len() == formats + modes + scaling
            &&& chain.view_formats is Some ==> nodes[0] == NodeModel::FormatList(chain.view_formats)
            &&& chain.present_modes is Some ==> nodes[formats] == NodeModel::PresentModes(
                chain.present_modes,
            )
            &&& chain.scaling matches Some(value) ==> nodes[formats + modes] == NodeModel::Scaling(
                value,
            )
        }),
{
}

/// What a chain collects is what its structures say: the list of each kind, and
/// nothing of a kind that is not there.
pub proof fn a_chain_collects_what_it_holds(
    chain: Seq<SwapchainNode>,
    model: CreateChainModel,
    at: int,
)
    requires
        collects(chain, model),
        0 <= at < chain.len(),
    ensures
        chain[at] matches SwapchainNode::FormatList(Some(list)) ==> model.view_formats == Some(
            list@,
        ),
        chain[at] matches SwapchainNode::PresentModes(Some(list)) ==> model.present_modes == Some(
            list@,
        ),
        chain[at] matches SwapchainNode::Scaling(scaling) ==> model.scaling == Some(scaling),
        (forall|i: int| 0 <= i < chain.len() ==> !(#[trigger] chain[i] is FormatList))
            ==> model.view_formats is None,
        (forall|i: int| 0 <= i < chain.len() ==> !(#[trigger] chain[i] is PresentModes))
            ==> model.present_modes is None,
        (forall|i: int| 0 <= i < chain.len() ==> !(#[trigger] chain[i] is Scaling))
            ==> model.scaling is None,
{
}

/// Two requests that say the same agree in every field.
pub proof fn same_requests_agree(left: SwapchainCreateInfo, right: SwapchainCreateInfo)
    requires
        same_request(left, right),
    ensures
        left.flags == right.flags,
        left.surface == right.surface,
        left.min_image_count == right.min_image_count,
        left.image_format == right.image_format,
        left.image_color_space == right.image_color_space,
        left.image_extent == right.image_extent,
        left.image_array_layers == right.image_array_layers,
        left.image_usage == right.image_usage,
        left.image_sharing_mode == right.image_sharing_mode,
        left.queue_family_indices matches Some(families) ==> right.queue_family_indices is Some
            && families@ == right.queue_family_indices.unwrap()@,
        left.queue_family_indices is None ==> right.queue_family_indices is None,
        left.pre_transform == right.pre_transform,
        left.composite_alpha == right.composite_alpha,
        left.present_mode == right.present_mode,
        left.clipped == right.clipped,
        left.old_swapchain == right.old_swapchain,
        left.chain@.len() == right.chain@.len(),
{
    assert(node_models(left.chain@).len() == node_models(right.chain@).len());
}

} // verus!
