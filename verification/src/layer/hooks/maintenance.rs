//! Which flavor of swapchain maintenance a device was created with.

use vstd::prelude::*;
use vstd::string::StringSliceAdditionalSpecFns;

use crate::seqs::{is_named, named};
use crate::vk::PHYSICAL_DEVICE_SWAPCHAIN_MAINTENANCE_1_FEATURES_EXT;

verus! {

/// A structure of a device's extension chain: its type, and the feature bit
/// that the layer reads of it where the type is one that it knows.
#[derive(Debug, Clone, Copy, PartialEq, Eq, Structural)]
pub struct FeatureNode {
    pub structure_type: i32,
    pub enabled: bool,
}

/// What the layer reads of a device's creation parameters.
#[derive(Debug)]
pub struct DeviceCreateInfo {
    /// The enabled extension names in order, `None` in place of a null name.
    /// `None` as a whole stands for a missing array with a count above zero.
    pub extension_names: Option<Vec<Option<Vec<u8>>>>,
    pub chain: Vec<FeatureNode>,
}

/// The list names the extension.
pub open spec fn names_extension(names: Option<Vec<Option<Vec<u8>>>>, wanted: &str) -> bool {
    names matches Some(list) && exists|i: int|
        0 <= i < list@.len() && (#[trigger] list@[i] matches Some(name) && named(name@, wanted))
}

pub fn extension_enabled(info: &DeviceCreateInfo, wanted: &str) -> (enabled: bool)
    ensures
        enabled == names_extension(info.extension_names, wanted),
{
    match &info.extension_names {
        None => false,
        Some(list) => {
            let mut index: usize = 0;
            while index < list.len()
                invariant
                    index <= list.len(),
                    info.extension_names == Some(*list),
                    forall|i: int|
                        0 <= i < index ==> !(#[trigger] list@[i] matches Some(name) && named(
                            name@,
                            wanted,
                        )),
                decreases list.len() - index,
            {
                if let Some(name) = &list[index] {
                    if is_named(name.as_slice(), wanted) {
                        assert(list@[index as int] == Some(*name));
                        return true;
                    }
                }
                index = index + 1;
            }
            false
        },
    }
}

/// The feature bit of the first structure of the given type, if there is one.
pub open spec fn first_feature(chain: Seq<FeatureNode>, structure_type: i32) -> Option<bool>
    decreases chain.len(),
{
    if chain.len() == 0 {
        None
    } else if chain[0].structure_type == structure_type {
        Some(chain[0].enabled)
    } else {
        first_feature(chain.drop_first(), structure_type)
    }
}

pub fn find_feature(chain: &[FeatureNode], structure_type: i32) -> (feature: Option<bool>)
    ensures
        feature == first_feature(chain@, structure_type),
{
    let mut index: usize = 0;
    assert(chain@.skip(0) == chain@);
    while index < chain.len()
        invariant
            index <= chain.len(),
            first_feature(chain@, structure_type) == first_feature(
                chain@.skip(index as int),
                structure_type,
            ),
        decreases chain.len() - index,
    {
        let node: FeatureNode = chain[index];
        assert(chain@.skip(index as int)[0] == node);
        if node.structure_type == structure_type {
            return Some(node.enabled);
        }
        assert(chain@.skip(index as int).drop_first() == chain@.skip(index + 1));
        index = index + 1;
    }
    None
}

#[derive(Debug, Clone, Copy, PartialEq, Eq, Structural)]
pub enum Maintenance1Flavor {
    Ext,
    Khr,
}

#[derive(Debug, Clone, Copy, PartialEq, Eq, Structural)]
pub struct Maintenance1Support {
    pub enabled: bool,
    pub flavor: Option<Maintenance1Flavor>,
}

impl Default for Maintenance1Support {
    fn default() -> (support: Self)
        ensures
            support == (Maintenance1Support { enabled: false, flavor: None }),
    {
        Maintenance1Support { enabled: false, flavor: None }
    }
}

/// The flavor in use: none without the feature bit, else the promoted name
/// before the original one.
pub open spec fn maintenance_flavor(info: DeviceCreateInfo) -> Option<Maintenance1Flavor> {
    if first_feature(info.chain@, PHYSICAL_DEVICE_SWAPCHAIN_MAINTENANCE_1_FEATURES_EXT) != Some(
        true,
    ) {
        None
    } else if names_extension(info.extension_names, "VK_KHR_swapchain_maintenance1") {
        Some(Maintenance1Flavor::Khr)
    } else if names_extension(info.extension_names, "VK_EXT_swapchain_maintenance1") {
        Some(Maintenance1Flavor::Ext)
    } else {
        None
    }
}

pub fn maintenance1_support(info: &DeviceCreateInfo) -> (support: Maintenance1Support)
    ensures
        support.flavor == maintenance_flavor(*info),
        support.enabled == (support.flavor is Some),
{
    let feature: Option<bool> = find_feature(
        info.chain.as_slice(),
        PHYSICAL_DEVICE_SWAPCHAIN_MAINTENANCE_1_FEATURES_EXT,
    );
    let feature_enabled: bool = match feature {
        Some(enabled) => enabled,
        None => false,
    };
    if !feature_enabled {
        return Maintenance1Support::default();
    }
    let ext_enabled: bool = extension_enabled(info, "VK_EXT_swapchain_maintenance1");
    let khr_enabled: bool = extension_enabled(info, "VK_KHR_swapchain_maintenance1");
    let flavor: Option<Maintenance1Flavor> = if khr_enabled {
        Some(Maintenance1Flavor::Khr)
    } else if ext_enabled {
        Some(Maintenance1Flavor::Ext)
    } else {
        None
    };
    Maintenance1Support { enabled: flavor.is_some(), flavor }
}

/// How an image is fitted to the surface, as the raw flag bits.
#[derive(Debug, Clone, Copy, PartialEq, Eq, Structural)]
pub struct PresentScaling {
    pub behavior: u32,
    pub gravity_x: u32,
    pub gravity_y: u32,
}

/// A feature is what the first structure of its type says; without one nothing
/// is said of it.
pub proof fn the_first_structure_of_a_type_decides(chain: Seq<FeatureNode>, structure_type: i32)
    ensures
        first_feature(chain, structure_type) is None <==> forall|i: int|
            0 <= i < chain.len() ==> (#[trigger] chain[i]).structure_type != structure_type,
        first_feature(chain, structure_type) matches Some(enabled) ==> exists|i: int|
            {
                &&& 0 <= i < chain.len()
                &&& (#[trigger] chain[i]).structure_type == structure_type
                &&& chain[i].enabled == enabled
                &&& forall|j: int|
                    0 <= j < i ==> (#[trigger] chain[j]).structure_type != structure_type
            },
    decreases chain.len(),
{
    if chain.len() > 0 && chain[0].structure_type != structure_type {
        let rest = chain.drop_first();
        the_first_structure_of_a_type_decides(rest, structure_type);
        assert forall|i: int| 0 <= i < rest.len() implies rest[i] == #[trigger] chain[i + 1] by {
        }
        if first_feature(rest, structure_type) is Some {
            let enabled = first_feature(rest, structure_type).unwrap();
            let i = choose|i: int|
                {
                    &&& 0 <= i < rest.len()
                    &&& (#[trigger] rest[i]).structure_type == structure_type
                    &&& rest[i].enabled == enabled
                    &&& forall|j: int|
                        0 <= j < i ==> (#[trigger] rest[j]).structure_type != structure_type
                };
            assert(chain[i + 1] == rest[i]);
            assert forall|j: int| 0 <= j < i + 1 implies (#[trigger] chain[j]).structure_type
                != structure_type by {
                if j > 0 {
                    assert(rest[j - 1] == chain[j]);
                }
            }
        } else {
            assert forall|i: int| 0 <= i < chain.len() implies (
            #[trigger] chain[i]).structure_type != structure_type by {
                if i > 0 {
                    assert(rest[i - 1] == chain[i]);
                }
            }
        }
    }
}

/// Swapchain maintenance is in use where its feature is on and one of its two
/// extensions was asked for, the promoted one before the other.
pub proof fn maintenance_needs_feature_and_extension(info: DeviceCreateInfo)
    ensures
        ({
            let on = first_feature(
                info.chain@,
                PHYSICAL_DEVICE_SWAPCHAIN_MAINTENANCE_1_FEATURES_EXT,
            ) == Some(true);
            let khr = names_extension(info.extension_names, "VK_KHR_swapchain_maintenance1");
            let ext = names_extension(info.extension_names, "VK_EXT_swapchain_maintenance1");
            &&& maintenance_flavor(info) == Some(Maintenance1Flavor::Khr) <==> on && khr
            &&& maintenance_flavor(info) == Some(Maintenance1Flavor::Ext) <==> on && ext && !khr
            &&& maintenance_flavor(info) is None <==> !on || (!khr && !ext)
        }),
{
}

/// An extension is named where one of the names is its own.
pub proof fn an_extension_is_named_by_its_name(list: Vec<Option<Vec<u8>>>, wanted: &str, at: int)
    requires
        0 <= at < list@.len(),
        list@[at] is Some,
        list@[at].unwrap()@ == wanted.spec_bytes(),
    ensures
        names_extension(Some(list), wanted),
        !names_extension(None, wanted),
{
}

} // verus!
