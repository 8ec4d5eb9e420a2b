//! Which window system extensions and commands the layer can stand behind.

use vstd::prelude::*;
use vstd::string::StringSliceAdditionalSpecFns;

use super::maintenance::{
    extension_enabled, find_feature, first_feature, maintenance1_support, maintenance_flavor,
    names_extension, DeviceCreateInfo, Maintenance1Support,
};
use crate::seqs::{copy_slice, is_named, named, same_bytes};
use crate::vk::{
    API_VERSION_1_2, PHYSICAL_DEVICE_PRESENT_ID_FEATURES_KHR,
    PHYSICAL_DEVICE_PRESENT_WAIT_FEATURES_KHR,
};

verus! {

#[derive(Debug, Clone, Copy, PartialEq, Eq, Structural)]
pub enum WsiExtensionSupport {
    Translated,
    Incompatible,
}

#[derive(Debug, Clone, Copy, PartialEq, Eq, Structural)]
pub enum WsiCommandSupport {
    Translated,
    Incompatible,
}

/// An enabled extension that rules virtualization out, and why. An empty name
/// stands for a name list that cannot be read.
#[derive(Debug, PartialEq, Eq)]
pub struct IncompatibleWsiExtension {
    pub name: Vec<u8>,
    pub reason: &'static str,
}

/// Why an extension cannot be stood behind, for those that cannot.
pub open spec fn refusal(name: Seq<u8>) -> Option<Seq<char>> {
    if named(name, "VK_KHR_display_swapchain") {
        Some("display swapchain sharing semantics are not translated"@)
    } else if named(name, "VK_KHR_shared_presentable_image") {
        Some("shared presentable image semantics are not translated"@)
    } else if named(name, "VK_EXT_full_screen_exclusive") {
        Some("external full-screen ownership semantics are not translated"@)
    } else if named(name, "VK_NV_present_barrier") {
        Some("present barrier semantics are not translated"@)
    } else if named(name, "VK_NV_low_latency2") {
        Some("swapchain latency markers are not translated"@)
    } else if named(name, "VK_AMD_display_native_hdr") {
        Some("native display HDR ownership semantics are not translated"@)
    } else {
        None
    }
}

pub fn incompatible_reason(name: &[u8]) -> (reason: Option<&'static str>)
    ensures
        match reason {
            Some(text) => refusal(name@) == Some(text@),
            None => refusal(name@) is None,
        },
{
    if is_named(name, "VK_KHR_display_swapchain") {
        Some("display swapchain sharing semantics are not translated")
    } else if is_named(name, "VK_KHR_shared_presentable_image") {
        Some("shared presentable image semantics are not translated")
    } else if is_named(name, "VK_EXT_full_screen_exclusive") {
        Some("external full-screen ownership semantics are not translated")
    } else if is_named(name, "VK_NV_present_barrier") {
        Some("present barrier semantics are not translated")
    } else if is_named(name, "VK_NV_low_latency2") {
        Some("swapchain latency markers are not translated")
    } else if is_named(name, "VK_AMD_display_native_hdr") {
        Some("native display HDR ownership semantics are not translated")
    } else {
        None
    }
}

/// The extensions whose commands and structures the layer translates.
pub open spec fn translated_extension(name: Seq<u8>) -> bool {
    ||| named(name, "VK_KHR_swapchain")
    ||| named(name, "VK_KHR_swapchain_mutable_format")
    ||| named(name, "VK_KHR_image_format_list")
    ||| named(name, "VK_KHR_incremental_present")
    ||| named(name, "VK_KHR_present_id")
    ||| named(name, "VK_KHR_present_wait")
    ||| named(name, "VK_EXT_hdr_metadata")
    ||| named(name, "VK_GOOGLE_display_timing")
    ||| named(name, "VK_EXT_display_control")
    ||| named(name, "VK_EXT_swapchain_colorspace")
    ||| named(name, "VK_EXT_swapchain_maintenance1")
    ||| named(name, "VK_KHR_swapchain_maintenance1")
    ||| named(name, "VK_EXT_surface_maintenance1")
    ||| named(name, "VK_KHR_surface_maintenance1")
}

pub fn extension_support(name: &[u8]) -> (support: Option<WsiExtensionSupport>)
    ensures
        support == (if translated_extension(name@) {
            Some(WsiExtensionSupport::Translated)
        } else if refusal(name@) is Some {
            Some(WsiExtensionSupport::Incompatible)
        } else {
            None
        }),
{
    if is_named(name, "VK_KHR_swapchain")
        || is_named(name, "VK_KHR_swapchain_mutable_format")
        || is_named(name, "VK_KHR_image_format_list")
        || is_named(name, "VK_KHR_incremental_present")
        || is_named(name, "VK_KHR_present_id")
        || is_named(name, "VK_KHR_present_wait")
        || is_named(name, "VK_EXT_hdr_metadata")
        || is_named(name, "VK_GOOGLE_display_timing")
        || is_named(name, "VK_EXT_display_control")
        || is_named(name, "VK_EXT_swapchain_colorspace")
        || is_named(name, "VK_EXT_swapchain_maintenance1")
        || is_named(name, "VK_KHR_swapchain_maintenance1")
        || is_named(name, "VK_EXT_surface_maintenance1")
        || is_named(name, "VK_KHR_surface_maintenance1") {
        Some(WsiExtensionSupport::Translated)
    } else if incompatible_reason(name).is_some() {
        Some(WsiExtensionSupport::Incompatible)
    } else {
        None
    }
}

/// Every command that takes a swapchain, and what is done with it.
pub open spec fn command_table() -> Seq<(Seq<u8>, WsiCommandSupport)> {
    seq![
        ("vkCreateSwapchainKHR".spec_bytes(), WsiCommandSupport::Translated),
        ("vkDestroySwapchainKHR".spec_bytes(), WsiCommandSupport::Translated),
        ("vkGetSwapchainImagesKHR".spec_bytes(), WsiCommandSupport::Translated),
        ("vkAcquireNextImageKHR".spec_bytes(), WsiCommandSupport::Translated),
        ("vkAcquireNextImage2KHR".spec_bytes(), WsiCommandSupport::Translated),
        ("vkQueuePresentKHR".spec_bytes(), WsiCommandSupport::Translated),
        ("vkCreateSharedSwapchainsKHR".spec_bytes(), WsiCommandSupport::Incompatible),
        ("vkGetSwapchainCounterEXT".spec_bytes(), WsiCommandSupport::Translated),
        ("vkGetRefreshCycleDurationGOOGLE".spec_bytes(), WsiCommandSupport::Translated),
        ("vkGetPastPresentationTimingGOOGLE".spec_bytes(), WsiCommandSupport::Translated),
        ("vkSetHdrMetadataEXT".spec_bytes(), WsiCommandSupport::Translated),
        ("vkGetSwapchainStatusKHR".spec_bytes(), WsiCommandSupport::Translated),
        ("vkWaitForPresentKHR".spec_bytes(), WsiCommandSupport::Translated),
        ("vkAcquireFullScreenExclusiveModeEXT".spec_bytes(), WsiCommandSupport::Incompatible),
        ("vkReleaseFullScreenExclusiveModeEXT".spec_bytes(), WsiCommandSupport::Incompatible),
        ("vkSetLocalDimmingAMD".spec_bytes(), WsiCommandSupport::Incompatible),
        ("vkSetLatencySleepModeNV".spec_bytes(), WsiCommandSupport::Incompatible),
        ("vkLatencySleepNV".spec_bytes(), WsiCommandSupport::Incompatible),
        ("vkSetLatencyMarkerNV".spec_bytes(), WsiCommandSupport::Incompatible),
        ("vkGetLatencyTimingsNV".spec_bytes(), WsiCommandSupport::Incompatible),
    ]
}

pub fn wsi_command_inventory() -> (inventory: Vec<(&'static [u8], WsiCommandSupport)>)
    ensures
        inventory.len() == command_table().len(),
        forall|i: int|
            0 <= i < inventory.len() ==> (#[trigger] inventory@[i]).0@ == command_table()[i].0
                && inventory@[i].1 == command_table()[i].1,
{
    vec![
        ("vkCreateSwapchainKHR".as_bytes(), WsiCommandSupport::Translated),
        ("vkDestroySwapchainKHR".as_bytes(), WsiCommandSupport::Translated),
        ("vkGetSwapchainImagesKHR".as_bytes(), WsiCommandSupport::Translated),
        ("vkAcquireNextImageKHR".as_bytes(), WsiCommandSupport::Translated),
        ("vkAcquireNextImage2KHR".as_bytes(), WsiCommandSupport::Translated),
        ("vkQueuePresentKHR".as_bytes(), WsiCommandSupport::Translated),
        ("vkCreateSharedSwapchainsKHR".as_bytes(), WsiCommandSupport::Incompatible),
        ("vkGetSwapchainCounterEXT".as_bytes(), WsiCommandSupport::Translated),
        ("vkGetRefreshCycleDurationGOOGLE".as_bytes(), WsiCommandSupport::Translated),
        ("vkGetPastPresentationTimingGOOGLE".as_bytes(), WsiCommandSupport::Translated),
        ("vkSetHdrMetadataEXT".as_bytes(), WsiCommandSupport::Translated),
        ("vkGetSwapchainStatusKHR".as_bytes(), WsiCommandSupport::Translated),
        ("vkWaitForPresentKHR".as_bytes(), WsiCommandSupport::Translated),
        ("vkAcquireFullScreenExclusiveModeEXT".as_bytes(), WsiCommandSupport::Incompatible),
        ("vkReleaseFullScreenExclusiveModeEXT".as_bytes(), WsiCommandSupport::Incompatible),
        ("vkSetLocalDimmingAMD".as_bytes(), WsiCommandSupport::Incompatible),
        ("vkSetLatencySleepModeNV".as_bytes(), WsiCommandSupport::Incompatible),
        ("vkLatencySleepNV".as_bytes(), WsiCommandSupport::Incompatible),
        ("vkSetLatencyMarkerNV".as_bytes(), WsiCommandSupport::Incompatible),
        ("vkGetLatencyTimingsNV".as_bytes(), WsiCommandSupport::Incompatible),
    ]
}

/// The decision on the first entry with the name.
pub open spec fn decision_in(
    table: Seq<(Seq<u8>, WsiCommandSupport)>,
    name: Seq<u8>,
) -> Option<WsiCommandSupport>
    decreases table.len(),
{
    if table.len() == 0 {
        None
    } else if table[0].0 == name {
        Some(table[0].1)
    } else {
        decision_in(table.drop_first(), name)
    }
}

pub fn wsi_command_support(name: &[u8]) -> (support: Option<WsiCommandSupport>)
    ensures
        support == decision_in(command_table(), name@),
{
    let inventory: Vec<(&'static [u8], WsiCommandSupport)> = wsi_command_inventory();
    let ghost table = command_table();
    let mut index: usize = 0;
    assert(table.skip(0) == table);
    while index < inventory.len()
        invariant
            table == command_table(),
            inventory.len() == table.len(),
            index <= inventory.len(),
            forall|i: int|
                0 <= i < inventory.len() ==> (#[trigger] inventory@[i]).0@ == table[i].0
                    && inventory@[i].1 == table[i].1,
            decision_in(table, name@) == decision_in(table.skip(index as int), name@),
        decreases inventory.len() - index,
    {
        assert(table.skip(index as int)[0] == table[index as int]);
        assert(inventory@[index as int].0@ == table[index as int].0);
        if same_bytes(inventory[index].0, name) {
            return Some(inventory[index].1);
        }
        assert(table.skip(index as int).drop_first() == table.skip(index + 1));
        index = index + 1;
    }
    None
}

/// What a device's enabled extensions let the layer do.
#[derive(Debug, PartialEq, Eq)]
pub struct DeviceWsiCapabilities {
    pub maintenance1: Maintenance1Support,
    pub mutable_format: bool,
    pub incremental_present: bool,
    pub present_id: bool,
    pub present_wait: bool,
    pub hdr_metadata: bool,
    pub display_timing: bool,
    pub display_control: bool,
    pub incompatible: Option<IncompatibleWsiExtension>,
}

impl Default for DeviceWsiCapabilities {
    fn default() -> (capabilities: Self)
        ensures
            capabilities.maintenance1 == (Maintenance1Support { enabled: false, flavor: None }),
            !capabilities.mutable_format,
            !capabilities.incremental_present,
            !capabilities.present_id,
            !capabilities.present_wait,
            !capabilities.hdr_metadata,
            !capabilities.display_timing,
            !capabilities.display_control,
            capabilities.incompatible is None,
    {
        DeviceWsiCapabilities {
            maintenance1: Maintenance1Support::default(),
            mutable_format: false,
            incremental_present: false,
            present_id: false,
            present_wait: false,
            hdr_metadata: false,
            display_timing: false,
            display_control: false,
            incompatible: None,
        }
    }
}

/// What the first name that rules virtualization out says: the name and the
/// reason, where a null name counts as one with an empty name.
pub open spec fn first_refusal(names: Seq<Option<Vec<u8>>>) -> Option<(Seq<u8>, Seq<char>)>
    decreases names.len(),
{
    if names.len() == 0 {
        None
    } else {
        match names[0] {
            None => Some((Seq::empty(), "device extension name array is malformed"@)),
            Some(name) => if !translated_extension(name@) && refusal(name@) is Some {
                Some((name@, refusal(name@).unwrap()))
            } else {
                first_refusal(names.drop_first())
            },
        }
    }
}

pub open spec fn device_refusal(
    names: Option<Vec<Option<Vec<u8>>>>,
) -> Option<(Seq<u8>, Seq<char>)> {
    match names {
        None => Some((Seq::empty(), "device extension name array is malformed"@)),
        Some(list) => first_refusal(list@),
    }
}

pub fn find_refusal(names: &Option<Vec<Option<Vec<u8>>>>) -> (found: Option<
    IncompatibleWsiExtension,
>)
    ensures
        match found {
            Some(incompatible) => device_refusal(*names) == Some(
                (incompatible.name@, incompatible.reason@),
            ),
            None => device_refusal(*names) is None,
        },
{
    let list: &Vec<Option<Vec<u8>>> = match names {
        None => {
            return Some(
                IncompatibleWsiExtension {
                    name: Vec::new(),
                    reason: "device extension name array is malformed",
                },
            );
        },
        Some(list) => list,
    };
    let mut index: usize = 0;
    assert(list@.skip(0) == list@);
    while index < list.len()
        invariant
            index <= list.len(),
            *names == Some(*list),
            device_refusal(*names) == first_refusal(list@.skip(index as int)),
        decreases list.len() - index,
    {
        assert(list@.skip(index as int)[0] == list@[index as int]);
        match &list[index] {
            None => {
                let name: Vec<u8> = Vec::new();
                assert(name@ == Seq::<u8>::empty());
                return Some(
                    IncompatibleWsiExtension {
                        name,
                        reason: "device extension name array is malformed",
                    },
                );
            },
            Some(name) => {
                if let Some(WsiExtensionSupport::Incompatible) = extension_support(
                    name.as_slice(),
                ) {
                    if let Some(reason) = incompatible_reason(name.as_slice()) {
                        return Some(
                            IncompatibleWsiExtension { name: copy_slice(name.as_slice()), reason },
                        );
                    }
                }
            },
        }
        assert(list@.skip(index as int).drop_first() == list@.skip(index + 1));
        index = index + 1;
    }
    None
}

/// Whether the first structure of a present feature type has its bit set.
pub fn feature_enabled(info: &DeviceCreateInfo, structure_type: i32) -> (enabled: bool)
    ensures
        enabled == (first_feature(info.chain@, structure_type) == Some(true) && (structure_type
            == PHYSICAL_DEVICE_PRESENT_ID_FEATURES_KHR || structure_type
            == PHYSICAL_DEVICE_PRESENT_WAIT_FEATURES_KHR)),
{
    if structure_type != PHYSICAL_DEVICE_PRESENT_ID_FEATURES_KHR && structure_type
        != PHYSICAL_DEVICE_PRESENT_WAIT_FEATURES_KHR {
        return false;
    }
    match find_feature(info.chain.as_slice(), structure_type) {
        Some(enabled) => enabled,
        None => false,
    }
}

impl DeviceWsiCapabilities {
    /// What a request says of the extensions that matter for presentation.
    pub open spec fn describes(self, info: DeviceCreateInfo, vulkan_api_version: u32) -> bool {
        &&& self.maintenance1.flavor == maintenance_flavor(info)
        &&& self.maintenance1.enabled == (maintenance_flavor(info) is Some)
        &&& self.mutable_format == (names_extension(
            info.extension_names,
            "VK_KHR_swapchain_mutable_format",
        ) && (vulkan_api_version >= API_VERSION_1_2 || names_extension(
            info.extension_names,
            "VK_KHR_image_format_list",
        )))
        &&& self.incremental_present == names_extension(
            info.extension_names,
            "VK_KHR_incremental_present",
        )
        &&& self.present_id == (names_extension(info.extension_names, "VK_KHR_present_id")
            && first_feature(info.chain@, PHYSICAL_DEVICE_PRESENT_ID_FEATURES_KHR) == Some(
            true,
        ))
        &&& self.present_wait == (names_extension(
            info.extension_names,
            "VK_KHR_present_wait",
        ) && first_feature(info.chain@, PHYSICAL_DEVICE_PRESENT_WAIT_FEATURES_KHR) == Some(
            true,
        ))
        &&& self.hdr_metadata == names_extension(
            info.extension_names,
            "VK_EXT_hdr_metadata",
        )
        &&& self.display_timing == names_extension(
            info.extension_names,
            "VK_GOOGLE_display_timing",
        )
        &&& self.display_control == names_extension(
            info.extension_names,
            "VK_EXT_display_control",
        )
        &&& match self.incompatible {
            Some(incompatible) => device_refusal(info.extension_names) == Some(
                (incompatible.name@, incompatible.reason@),
            ),
            None => device_refusal(info.extension_names) is None,
        }
    }

    pub fn from_create_info(info: &DeviceCreateInfo, vulkan_api_version: u32) -> (capabilities:
        Self)
        ensures
            capabilities.describes(*info, vulkan_api_version),
    {
        DeviceWsiCapabilities {
            maintenance1: maintenance1_support(info),
            mutable_format: extension_enabled(info, "VK_KHR_swapchain_mutable_format") && (
            vulkan_api_version >= API_VERSION_1_2 || extension_enabled(
                info,
                "VK_KHR_image_format_list",
            )),
            incremental_present: extension_enabled(info, "VK_KHR_incremental_present"),
            present_id: extension_enabled(info, "VK_KHR_present_id") && feature_enabled(
                info,
                PHYSICAL_DEVICE_PRESENT_ID_FEATURES_KHR,
            ),
            present_wait: extension_enabled(info, "VK_KHR_present_wait") && feature_enabled(
                info,
                PHYSICAL_DEVICE_PRESENT_WAIT_FEATURES_KHR,
            ),
            hdr_metadata: extension_enabled(info, "VK_EXT_hdr_metadata"),
            display_timing: extension_enabled(info, "VK_GOOGLE_display_timing"),
            display_control: extension_enabled(info, "VK_EXT_display_control"),
            incompatible: find_refusal(&info.extension_names),
        }
    }
}

/// A device that enables only extensions without a refusal is never ruled
/// out, whatever else it enables.
pub proof fn unrelated_extensions_rule_nothing_out(names: Seq<Option<Vec<u8>>>)
    requires
        forall|i: int|
            0 <= i < names.len() ==> (#[trigger] names[i] matches Some(name) && refusal(
                name@,
            ) is None),
    ensures
        first_refusal(names) is None,
    decreases names.len(),
{
    if names.len() > 0 {
        assert(names[0] is Some);
        let rest = names.drop_first();
        assert forall|i: int| 0 <= i < rest.len() implies (#[trigger] rest[i] matches Some(name)
            && refusal(name@) is None) by {
            assert(rest[i] == names[i + 1]);
        }
        unrelated_extensions_rule_nothing_out(rest);
    }
}

/// The extensions that rule virtual swapchains out are those whose swapchains or
/// presents the layer cannot stand behind; the others that speak of swapchains
/// are translated.
pub proof fn extensions_that_rule_virtual_swapchains_out(name: Seq<u8>)
    ensures
        refusal(name) is Some <==> {
            ||| named(name, "VK_KHR_display_swapchain")
            ||| named(name, "VK_KHR_shared_presentable_image")
            ||| named(name, "VK_EXT_full_screen_exclusive")
            ||| named(name, "VK_NV_present_barrier")
            ||| named(name, "VK_NV_low_latency2")
            ||| named(name, "VK_AMD_display_native_hdr")
        },
        translated_extension(name) <==> {
            ||| named(name, "VK_KHR_swapchain")
            ||| named(name, "VK_KHR_swapchain_mutable_format")
            ||| named(name, "VK_KHR_image_format_list")
            ||| named(name, "VK_KHR_incremental_present")
            ||| named(name, "VK_KHR_present_id")
            ||| named(name, "VK_KHR_present_wait")
            ||| named(name, "VK_EXT_hdr_metadata")
            ||| named(name, "VK_GOOGLE_display_timing")
            ||| named(name, "VK_EXT_display_control")
            ||| named(name, "VK_EXT_swapchain_colorspace")
            ||| named(name, "VK_EXT_swapchain_maintenance1")
            ||| named(name, "VK_KHR_swapchain_maintenance1")
            ||| named(name, "VK_EXT_surface_maintenance1")
            ||| named(name, "VK_KHR_surface_maintenance1")
        },
{
}

/// A device may have virtual swapchains exactly where its extensions can be read
/// and none of them rules them out. Else the first that does, or that cannot be
/// read, is the reason.
pub proof fn the_first_extension_that_does_not_fit_is_the_reason(names: Seq<Option<Vec<u8>>>)
    ensures
        first_refusal(names) is None <==> forall|i: int|
            0 <= i < names.len() ==> (#[trigger] names[i] matches Some(name) && (
            translated_extension(name@) || refusal(name@) is None)),
        first_refusal(names) matches Some(found) ==> exists|i: int|
            {
                &&& 0 <= i < names.len()
                &&& match #[trigger] names[i] {
                    None => found.0.len() == 0,
                    Some(name) => found.0 == name@ && refusal(name@) == Some(found.1)
                        && !translated_extension(name@),
                }
                &&& forall|j: int|
                    0 <= j < i ==> (#[trigger] names[j] matches Some(name) && (
                    translated_extension(name@) || refusal(name@) is None))
            },
    decreases names.len(),
{
    if names.len() > 0 && names[0] is Some && (translated_extension(names[0].unwrap()@) || refusal(
        names[0].unwrap()@,
    ) is None) {
        let rest = names.drop_first();
        the_first_extension_that_does_not_fit_is_the_reason(rest);
        assert forall|i: int| 0 <= i < rest.len() implies rest[i] == #[trigger] names[i + 1] by {
        }
        if first_refusal(rest) is Some {
            let found = first_refusal(rest).unwrap();
            let i = choose|i: int|
                {
                    &&& 0 <= i < rest.len()
                    &&& match #[trigger] rest[i] {
                        None => found.0.len() == 0,
                        Some(name) => found.0 == name@ && refusal(name@) == Some(found.1)
                            && !translated_extension(name@),
                    }
                    &&& forall|j: int|
                        0 <= j < i ==> (#[trigger] rest[j] matches Some(name) && (
                        translated_extension(name@) || refusal(name@) is None))
                };
            assert(names[i + 1] == rest[i]);
            assert forall|j: int| 0 <= j < i + 1 implies (#[trigger] names[j] matches Some(name)
                && (translated_extension(name@) || refusal(name@) is None)) by {
                if j > 0 {
                    assert(rest[j - 1] == names[j]);
                }
            }
        } else {
            assert forall|i: int| 0 <= i < names.len() implies (#[trigger] names[i] matches Some(
                name,
            ) && (translated_extension(name@) || refusal(name@) is None)) by {
                if i > 0 {
                    assert(rest[i - 1] == names[i]);
                }
            }
        }
    } else if names.len() > 0 {
        assert(!(names[0] matches Some(name) && (translated_extension(name@) || refusal(name@)
            is None)));
    }
}

proof fn lemma_decision(table: Seq<(Seq<u8>, WsiCommandSupport)>, name: Seq<u8>)
    ensures
        decision_in(table, name) is None <==> forall|i: int|
            0 <= i < table.len() ==> (#[trigger] table[i]).0 != name,
        decision_in(table, name) matches Some(support) ==> exists|i: int|
            0 <= i < table.len() && #[trigger] table[i] == (name, support),
    decreases table.len(),
{
    if table.len() > 0 {
        let rest = table.drop_first();
        lemma_decision(rest, name);
        assert forall|i: int| 0 <= i < rest.len() implies rest[i] == #[trigger] table[i + 1] by {
        }
        if table[0].0 != name {
            if decision_in(rest, name) is Some {
                let support = decision_in(rest, name).unwrap();
                let i = choose|i: int|
                    0 <= i < rest.len() && #[trigger] rest[i] == (name, support);
                assert(table[i + 1] == (name, support));
            } else {
                assert forall|i: int| 0 <= i < table.len() implies (#[trigger] table[i]).0
                    != name by {
                    if i > 0 {
                        assert(rest[i - 1] == table[i]);
                    }
                }
            }
        } else {
            assert(table[0] == (name, table[0].1));
        }
    }
}

/// Every command that takes a swapchain is decided on: those that the layer
/// stands behind are translated, the others rule virtual swapchains out. On no
/// other command is anything decided.
pub proof fn every_swapchain_command_is_decided_on(name: Seq<u8>)
    ensures
        decision_in(command_table(), name) == Some(WsiCommandSupport::Translated) ==> {
            ||| named(name, "vkCreateSwapchainKHR")
            ||| named(name, "vkDestroySwapchainKHR")
            ||| named(name, "vkGetSwapchainImagesKHR")
            ||| named(name, "vkAcquireNextImageKHR")
            ||| named(name, "vkAcquireNextImage2KHR")
            ||| named(name, "vkQueuePresentKHR")
            ||| named(name, "vkGetSwapchainCounterEXT")
            ||| named(name, "vkGetRefreshCycleDurationGOOGLE")
            ||| named(name, "vkGetPastPresentationTimingGOOGLE")
            ||| named(name, "vkSetHdrMetadataEXT")
            ||| named(name, "vkGetSwapchainStatusKHR")
            ||| named(name, "vkWaitForPresentKHR")
        },
        decision_in(command_table(), name) == Some(WsiCommandSupport::Incompatible) ==> {
            ||| named(name, "vkCreateSharedSwapchainsKHR")
            ||| named(name, "vkAcquireFullScreenExclusiveModeEXT")
            ||| named(name, "vkReleaseFullScreenExclusiveModeEXT")
            ||| named(name, "vkSetLocalDimmingAMD")
            ||| named(name, "vkSetLatencySleepModeNV")
            ||| named(name, "vkLatencySleepNV")
            ||| named(name, "vkSetLatencyMarkerNV")
            ||| named(name, "vkGetLatencyTimingsNV")
        },
        decision_in(command_table(), name) is Some <==> {
            ||| named(name, "vkCreateSwapchainKHR")
            ||| named(name, "vkDestroySwapchainKHR")
            ||| named(name, "vkGetSwapchainImagesKHR")
            ||| named(name, "vkAcquireNextImageKHR")
            ||| named(name, "vkAcquireNextImage2KHR")
            ||| named(name, "vkQueuePresentKHR")
            ||| named(name, "vkGetSwapchainCounterEXT")
            ||| named(name, "vkGetRefreshCycleDurationGOOGLE")
            ||| named(name, "vkGetPastPresentationTimingGOOGLE")
            ||| named(name, "vkSetHdrMetadataEXT")
            ||| named(name, "vkGetSwapchainStatusKHR")
            ||| named(name, "vkWaitForPresentKHR")
            ||| named(name, "vkCreateSharedSwapchainsKHR")
            ||| named(name, "vkAcquireFullScreenExclusiveModeEXT")
            ||| named(name, "vkReleaseFullScreenExclusiveModeEXT")
            ||| named(name, "vkSetLocalDimmingAMD")
            ||| named(name, "vkSetLatencySleepModeNV")
            ||| named(name, "vkLatencySleepNV")
            ||| named(name, "vkSetLatencyMarkerNV")
            ||| named(name, "vkGetLatencyTimingsNV")
        },
{
    let table = command_table();
    lemma_decision(table, name);
    assert(table[0].0 == "vkCreateSwapchainKHR".spec_bytes());
    assert(table[1].0 == "vkDestroySwapchainKHR".spec_bytes());
    assert(table[2].0 == "vkGetSwapchainImagesKHR".spec_bytes());
    assert(table[3].0 == "vkAcquireNextImageKHR".spec_bytes());
    assert(table[4].0 == "vkAcquireNextImage2KHR".spec_bytes());
    assert(table[5].0 == "vkQueuePresentKHR".spec_bytes());
    assert(table[6].0 == "vkCreateSharedSwapchainsKHR".spec_bytes());
    assert(table[7].0 == "vkGetSwapchainCounterEXT".spec_bytes());
    assert(table[8].0 == "vkGetRefreshCycleDurationGOOGLE".spec_bytes());
    assert(table[9].0 == "vkGetPastPresentationTimingGOOGLE".spec_bytes());
    assert(table[10].0 == "vkSetHdrMetadataEXT".spec_bytes());
    assert(table[11].0 == "vkGetSwapchainStatusKHR".spec_bytes());
    assert(table[12].0 == "vkWaitForPresentKHR".spec_bytes());
    assert(table[13].0 == "vkAcquireFullScreenExclusiveModeEXT".spec_bytes());
    assert(table[14].0 == "vkReleaseFullScreenExclusiveModeEXT".spec_bytes());
    assert(table[15].0 == "vkSetLocalDimmingAMD".spec_bytes());
    assert(table[16].0 == "vkSetLatencySleepModeNV".spec_bytes());
    assert(table[17].0 == "vkLatencySleepNV".spec_bytes());
    assert(table[18].0 == "vkSetLatencyMarkerNV".spec_bytes());
    assert(table[19].0 == "vkGetLatencyTimingsNV".spec_bytes());
}

/// A device offers a service for presents exactly where its request asked for
/// the extension behind it, and turned its feature on where it has one.
pub proof fn a_device_offers_what_its_request_asked_for(
    wsi: DeviceWsiCapabilities,
    info: DeviceCreateInfo,
    version: u32,
)
    requires
        wsi.describes(info, version),
    ensures
        wsi.maintenance1.enabled <==> wsi.maintenance1.flavor is Some,
        wsi.maintenance1.flavor == maintenance_flavor(info),
        wsi.present_id <==> names_extension(info.extension_names, "VK_KHR_present_id")
            && first_feature(info.chain@, PHYSICAL_DEVICE_PRESENT_ID_FEATURES_KHR) == Some(true),
        wsi.present_wait <==> names_extension(info.extension_names, "VK_KHR_present_wait")
            && first_feature(info.chain@, PHYSICAL_DEVICE_PRESENT_WAIT_FEATURES_KHR) == Some(true),
        wsi.hdr_metadata <==> names_extension(info.extension_names, "VK_EXT_hdr_metadata"),
        wsi.display_timing <==> names_extension(info.extension_names, "VK_GOOGLE_display_timing"),
        wsi.display_control <==> names_extension(info.extension_names, "VK_EXT_display_control"),
        wsi.incremental_present <==> names_extension(
            info.extension_names,
            "VK_KHR_incremental_present",
        ),
        wsi.mutable_format ==> names_extension(
            info.extension_names,
            "VK_KHR_swapchain_mutable_format",
        ),
        names_extension(info.extension_names, "VK_KHR_swapchain_mutable_format") && version
            >= API_VERSION_1_2 ==> wsi.mutable_format,
        names_extension(info.extension_names, "VK_KHR_swapchain_mutable_format")
            && names_extension(info.extension_names, "VK_KHR_image_format_list")
            ==> wsi.mutable_format,
        info.extension_names is None ==> wsi.incompatible is Some,
        info.extension_names matches Some(names) ==> (wsi.incompatible is None <==> first_refusal(
            names@,
        ) is None),
{
}

} // verus!
