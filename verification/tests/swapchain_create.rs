use ash::vk;
use tuxscaling::layer::hooks::maintenance::PresentScaling;
use tuxscaling::layer::hooks::swapchain_create::{
    mutable_format_requested, supported_swapchain_flags, SwapchainCompatibilityError,
    SwapchainCreateChain, SwapchainCreateInfo, SwapchainNode,
};
use tuxscaling::layer::hooks::wsi_compatibility::IncompatibleWsiExtension;

fn base_info(flags: vk::SwapchainCreateFlagsKHR) -> SwapchainCreateInfo {
    SwapchainCreateInfo {
        flags: flags.as_raw(),
        image_format: vk::Format::B8G8R8A8_UNORM.as_raw(),
        ..Default::default()
    }
}

fn raw_formats(formats: &[vk::Format]) -> Vec<i32> {
    formats.iter().map(|format| format.as_raw()).collect()
}

#[test]
fn accepts_mutable_format_with_deferred_allocation() {
    let formats = raw_formats(&[vk::Format::B8G8R8A8_UNORM, vk::Format::B8G8R8A8_SRGB]);
    let mut info = base_info(
        vk::SwapchainCreateFlagsKHR::MUTABLE_FORMAT
            | vk::SwapchainCreateFlagsKHR::DEFERRED_MEMORY_ALLOCATION_EXT,
    );
    info.chain.push(SwapchainNode::FormatList(Some(formats.clone())));

    let chain = SwapchainCreateChain::from_create_info(&info).unwrap();

    assert_eq!(chain.view_formats.as_deref(), Some(formats.as_slice()));
}

#[test]
fn view_formats_are_owned_and_not_borrowed_from_the_application() {
    let formats = raw_formats(&[vk::Format::B8G8R8A8_UNORM, vk::Format::B8G8R8A8_SRGB]);
    let mut info = base_info(vk::SwapchainCreateFlagsKHR::MUTABLE_FORMAT);
    info.chain.push(SwapchainNode::FormatList(Some(formats.clone())));

    let chain = SwapchainCreateChain::from_create_info(&info).unwrap();
    let given = match &info.chain[0] {
        SwapchainNode::FormatList(Some(list)) => list.as_ptr(),
        _ => unreachable!(),
    };

    assert_eq!(chain.view_formats.as_deref(), Some(formats.as_slice()));
    assert_ne!(chain.view_formats.as_ref().unwrap().as_ptr(), given);
}

#[test]
fn rebuilt_nodes_are_valid_when_the_input_order_is_reversed() {
    let formats = raw_formats(&[vk::Format::B8G8R8A8_UNORM, vk::Format::B8G8R8A8_SRGB]);
    let modes = vec![
        vk::PresentModeKHR::FIFO.as_raw(),
        vk::PresentModeKHR::MAILBOX.as_raw(),
    ];
    let mut info = base_info(vk::SwapchainCreateFlagsKHR::MUTABLE_FORMAT);
    info.chain.push(SwapchainNode::FormatList(Some(formats)));
    info.chain.push(SwapchainNode::PresentModes(Some(modes)));
    let chain = SwapchainCreateChain::from_create_info(&info).unwrap();

    let nodes = chain.rebuilt_nodes();

    assert_eq!(nodes.len(), 2);
    assert_eq!(
        nodes[0].structure_type(),
        vk::StructureType::IMAGE_FORMAT_LIST_CREATE_INFO.as_raw()
    );
    assert_eq!(
        nodes[1].structure_type(),
        vk::StructureType::SWAPCHAIN_PRESENT_MODES_CREATE_INFO_EXT.as_raw()
    );
}

#[test]
fn mutable_format_requires_the_base_swapchain_format() {
    let formats = raw_formats(&[vk::Format::B8G8R8A8_SRGB]);
    let mut info = base_info(vk::SwapchainCreateFlagsKHR::MUTABLE_FORMAT);
    info.chain.push(SwapchainNode::FormatList(Some(formats)));

    assert_eq!(
        SwapchainCreateChain::from_create_info(&info),
        Err(SwapchainCompatibilityError::MissingBaseFormat {
            base: vk::Format::B8G8R8A8_UNORM.as_raw(),
        })
    );
}

#[test]
fn image_format_list_without_mutable_format_is_preserved() {
    let formats = raw_formats(&[vk::Format::B8G8R8A8_UNORM]);
    let mut info = base_info(vk::SwapchainCreateFlagsKHR::empty());
    info.chain.push(SwapchainNode::FormatList(Some(formats.clone())));

    let chain = SwapchainCreateChain::from_create_info(&info).unwrap();

    assert_eq!(chain.view_formats.as_deref(), Some(formats.as_slice()));
}

#[test]
fn invalid_flags_and_nodes_return_exact_typed_errors() {
    let protected = base_info(vk::SwapchainCreateFlagsKHR::PROTECTED);
    assert_eq!(
        SwapchainCreateChain::from_create_info(&protected),
        Err(SwapchainCompatibilityError::UnsupportedFlags {
            bits: vk::SwapchainCreateFlagsKHR::PROTECTED.as_raw(),
        })
    );

    let group = vk::StructureType::DEVICE_GROUP_SWAPCHAIN_CREATE_INFO_KHR.as_raw();
    let mut group_info = base_info(vk::SwapchainCreateFlagsKHR::empty());
    group_info.chain.push(SwapchainNode::Other {
        structure_type: group,
    });
    assert_eq!(
        SwapchainCreateChain::from_create_info(&group_info),
        Err(SwapchainCompatibilityError::UnsupportedPNext {
            structure_type: group,
        })
    );

    let mut null_info = base_info(vk::SwapchainCreateFlagsKHR::empty());
    null_info.chain.push(SwapchainNode::FormatList(None));
    assert_eq!(
        SwapchainCreateChain::from_create_info(&null_info),
        Err(SwapchainCompatibilityError::NullArray {
            structure_type: vk::StructureType::IMAGE_FORMAT_LIST_CREATE_INFO.as_raw(),
        })
    );
}

#[test]
fn repeated_and_empty_structures_are_refused() {
    let scaling = PresentScaling {
        behavior: 1,
        gravity_x: 2,
        gravity_y: 4,
    };
    let mut twice = base_info(vk::SwapchainCreateFlagsKHR::empty());
    twice.chain.push(SwapchainNode::Scaling(scaling));
    twice.chain.push(SwapchainNode::Scaling(scaling));
    assert_eq!(
        SwapchainCreateChain::from_create_info(&twice),
        Err(SwapchainCompatibilityError::DuplicatePNext {
            structure_type: vk::StructureType::SWAPCHAIN_PRESENT_SCALING_CREATE_INFO_EXT.as_raw(),
        })
    );

    let mut empty = base_info(vk::SwapchainCreateFlagsKHR::empty());
    empty.chain.push(SwapchainNode::PresentModes(Some(Vec::new())));
    assert_eq!(
        SwapchainCreateChain::from_create_info(&empty),
        Err(SwapchainCompatibilityError::EmptyArray {
            structure_type: vk::StructureType::SWAPCHAIN_PRESENT_MODES_CREATE_INFO_EXT.as_raw(),
        })
    );
}

#[test]
fn rebuilding_twice_says_the_same() {
    let mut info = base_info(vk::SwapchainCreateFlagsKHR::empty());
    info.chain.push(SwapchainNode::Scaling(PresentScaling {
        behavior: 1,
        gravity_x: 2,
        gravity_y: 4,
    }));
    info.chain.push(SwapchainNode::PresentModes(Some(vec![2, 1])));
    let chain = SwapchainCreateChain::from_create_info(&info).unwrap();
    let again = SwapchainCreateChain::from_create_info(&SwapchainCreateInfo {
        chain: chain.rebuilt_nodes(),
        ..base_info(vk::SwapchainCreateFlagsKHR::empty())
    })
    .unwrap();

    assert_eq!(chain, again);
    assert_eq!(chain.rebuilt_nodes(), again.rebuilt_nodes());
}

#[test]
fn only_mutable_format_and_deferred_allocation_are_known() {
    let mutable = vk::SwapchainCreateFlagsKHR::MUTABLE_FORMAT;
    let deferred = vk::SwapchainCreateFlagsKHR::DEFERRED_MEMORY_ALLOCATION_EXT;
    assert!(supported_swapchain_flags(0));
    assert!(supported_swapchain_flags((mutable | deferred).as_raw()));
    assert!(!supported_swapchain_flags(
        vk::SwapchainCreateFlagsKHR::PROTECTED.as_raw()
    ));
    assert!(!supported_swapchain_flags(
        (mutable | vk::SwapchainCreateFlagsKHR::SPLIT_INSTANCE_BIND_REGIONS).as_raw()
    ));
    assert!(mutable_format_requested((mutable | deferred).as_raw()));
    assert!(!mutable_format_requested(deferred.as_raw()));
}

#[test]
fn reasons_name_what_they_speak_of() {
    let incompatible = IncompatibleWsiExtension {
        name: b"VK_NV_present_barrier".to_vec(),
        reason: "present barriers are not translated",
    };
    let from_wsi = SwapchainCompatibilityError::from_wsi(&incompatible).reason();
    assert!(from_wsi.contains("VK_NV_present_barrier"));

    let list = vk::StructureType::IMAGE_FORMAT_LIST_CREATE_INFO;
    let null = SwapchainCompatibilityError::NullArray {
        structure_type: list.as_raw(),
    };
    assert!(null.reason().contains(&format!("{list:?}")));

    let format = vk::Format::B8G8R8A8_UNORM;
    let base = SwapchainCompatibilityError::MissingBaseFormat {
        base: format.as_raw(),
    };
    assert!(base.reason().contains(&format!("{format:?}")));

    let code = vk::Result::ERROR_FEATURE_NOT_PRESENT;
    let contract = SwapchainCompatibilityError::UnsupportedImageContract(code.as_raw());
    assert!(contract.reason().contains(&format!("{code:?}")));

    let flags = SwapchainCompatibilityError::UnsupportedFlags { bits: 0x2a };
    assert!(flags.reason().contains("2a"));
}

#[test]
fn a_name_that_is_no_text_still_gives_a_reason() {
    let incompatible = IncompatibleWsiExtension {
        name: vec![0x56, 0xff, 0x4b],
        reason: "not translated",
    };

    let reason = SwapchainCompatibilityError::from_wsi(&incompatible).reason();

    assert!(reason.contains("V\u{fffd}K"));
}
