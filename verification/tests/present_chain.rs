use ash::vk;
use tuxscaling::layer::hooks::present_chain::{
    MappedPresentRegions, PresentChain, PresentChainError, PresentNode, PresentRegion, PresentTime,
    RectLayer,
};
use tuxscaling::vk::{Extent2D, Offset2D};

fn rectangle() -> RectLayer {
    RectLayer {
        offset: Offset2D { x: 0, y: 0 },
        extent: Extent2D {
            width: 0,
            height: 0,
        },
        layer: 0,
    }
}

fn modes(count: u32, values: Vec<i32>) -> PresentNode {
    PresentNode::Modes {
        count,
        modes: Some(values),
    }
}

#[test]
fn combined_present_chain_preserves_supported_nodes_and_order() {
    let fences = vec![21, 22];
    let fifo = vk::PresentModeKHR::FIFO.as_raw();
    let nodes = vec![
        PresentNode::Regions {
            count: 2,
            regions: Some(vec![
                PresentRegion {
                    rectangles: Some(vec![rectangle()]),
                },
                PresentRegion {
                    rectangles: Some(vec![rectangle()]),
                },
            ]),
        },
        PresentNode::Ids {
            count: 2,
            ids: Some(vec![11, 12]),
        },
        PresentNode::Times {
            count: 2,
            times: Some(vec![
                PresentTime {
                    present_id: 11,
                    desired_present_time: 100,
                },
                PresentTime {
                    present_id: 12,
                    desired_present_time: 200,
                },
            ]),
        },
        PresentNode::Fences {
            count: 2,
            fences: Some(fences.clone()),
        },
        modes(2, vec![fifo, fifo]),
    ];

    let parsed = PresentChain::parse(&nodes, 2).unwrap();
    assert_eq!(parsed.fences.as_ref().unwrap().len(), 2);
    assert_eq!(parsed.fences_slice(), fences);
    assert_eq!(parsed.mode_slice(), vec![fifo, fifo]);

    let mapped_rectangle = RectLayer {
        offset: Offset2D { x: 3, y: 4 },
        extent: Extent2D {
            width: 5,
            height: 6,
        },
        layer: 7,
    };
    let mapped_regions = MappedPresentRegions::from_rectangles(vec![
        vec![mapped_rectangle],
        vec![mapped_rectangle],
    ]);
    let downstream = parsed.rebuilt_nodes(2, Some(&mapped_regions));

    let rebuilt = PresentChain::parse(&downstream, 2).unwrap();
    assert_eq!(rebuilt.fences_slice(), fences);
    assert_eq!(rebuilt.mode_slice(), vec![fifo, fifo]);
    let rebuilt_regions = rebuilt.regions_slice();
    assert_eq!(rebuilt_regions.len(), 2);
    for region in rebuilt_regions {
        assert_eq!(region.len(), 1);
        assert_eq!(region[0].offset, mapped_rectangle.offset);
        assert_eq!(region[0].extent, mapped_rectangle.extent);
        assert_eq!(region[0].layer, mapped_rectangle.layer);
    }

    let types: Vec<i32> = downstream.iter().map(|node| node.structure_type()).collect();
    assert_eq!(
        types,
        vec![
            vk::StructureType::PRESENT_REGIONS_KHR.as_raw(),
            vk::StructureType::PRESENT_ID_KHR.as_raw(),
            vk::StructureType::PRESENT_TIMES_INFO_GOOGLE.as_raw(),
            vk::StructureType::SWAPCHAIN_PRESENT_FENCE_INFO_EXT.as_raw(),
            vk::StructureType::SWAPCHAIN_PRESENT_MODE_INFO_EXT.as_raw(),
        ]
    );
}

#[test]
fn reverse_present_chain_order_is_accepted_and_duplicates_are_rejected() {
    let fifo = vk::PresentModeKHR::FIFO.as_raw();
    let reversed = vec![
        modes(1, vec![fifo]),
        PresentNode::Regions {
            count: 1,
            regions: Some(vec![PresentRegion {
                rectangles: Some(Vec::new()),
            }]),
        },
    ];
    assert!(PresentChain::parse(&reversed, 1).is_ok());

    let twice = vec![modes(1, vec![fifo]), modes(1, vec![fifo])];
    assert!(PresentChain::parse(&twice, 1).is_err());
}

#[test]
fn present_chain_rejects_count_mismatch_null_arrays_and_unknown_nodes() {
    let mismatched = [PresentNode::Fences {
        count: 1,
        fences: None,
    }];
    assert!(PresentChain::parse(&mismatched, 2).is_err());

    let null_array = [PresentNode::Modes {
        count: 1,
        modes: None,
    }];
    assert!(PresentChain::parse(&null_array, 1).is_err());

    let unknown = [PresentNode::Unknown {
        structure_type: vk::StructureType::DEVICE_GROUP_SWAPCHAIN_CREATE_INFO_KHR.as_raw(),
    }];
    assert!(PresentChain::parse(&unknown, 1).is_err());
}

#[test]
fn each_fault_of_a_chain_has_its_own_error() {
    let duplicate = vec![modes(1, vec![0]), modes(1, vec![0])];
    assert_eq!(
        PresentChain::parse(&duplicate, 1),
        Err(PresentChainError::DuplicateStructure)
    );
    assert_eq!(
        PresentChain::parse(&[modes(1, vec![0])], 2),
        Err(PresentChainError::CountMismatch)
    );
    assert_eq!(
        PresentChain::parse(
            &[PresentNode::Ids {
                count: 1,
                ids: None
            }],
            1
        ),
        Err(PresentChainError::NullArray)
    );
    assert_eq!(
        PresentChain::parse(
            &[PresentNode::Regions {
                count: 1,
                regions: Some(vec![PresentRegion { rectangles: None }]),
            }],
            1
        ),
        Err(PresentChainError::NullArray)
    );
    assert_eq!(
        PresentChain::parse(&[PresentNode::Unknown { structure_type: 7 }], 1),
        Err(PresentChainError::UnknownStructure)
    );
    assert_eq!(
        PresentChainError::DuplicateStructure.reason(),
        "duplicate_structure"
    );
    assert_eq!(PresentChainError::CountMismatch.reason(), "count_mismatch");
    assert_eq!(PresentChainError::NullArray.reason(), "null_array");
    assert_eq!(
        PresentChainError::UnknownStructure.reason(),
        "unknown_structure"
    );
}

#[test]
fn a_rebuilt_chain_says_what_the_first_one_said() {
    let nodes = vec![
        modes(1, vec![2]),
        PresentNode::Ids {
            count: 1,
            ids: Some(vec![9]),
        },
    ];
    let parsed = PresentChain::parse(&nodes, 1).unwrap();
    assert!(!parsed.is_empty());
    assert_eq!(parsed.ids_slice(), vec![9]);

    let again = PresentChain::parse(&parsed.rebuilt_nodes(1, None), 1).unwrap();

    assert_eq!(parsed, again);
    assert!(PresentChain::parse(&[], 3).unwrap().is_empty());
}
