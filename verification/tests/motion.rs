use ash::vk;
use tuxscaling::motion::{
    motion_bindings, pyramid, pyramid_fits, set_buffers, set_images, visualization_needed, Level,
    MotionBuffer, MotionCommand, MotionEstimator, MotionImage, MotionParams, MotionQuality,
    MotionShader, COLOR_BINDING, COLOR_LAYOUT, STORED_LAYOUT,
};
use tuxscaling::vk::Extent2D;

#[test]
fn quality_profiles_trade_precision_for_work() {
    let ultra = MotionQuality::Ultra.profile(4);
    let balanced = MotionQuality::Balanced.profile(4);
    let performance = MotionQuality::Performance.profile(4);
    assert_eq!(ultra.levels, 4);
    assert!(balanced.levels < ultra.levels);
    assert!(performance.patch_radius < balanced.patch_radius);
    assert!(performance.coarse_radius < ultra.coarse_radius);
}

#[test]
fn skips_visualization_for_the_original_view() {
    assert!(!visualization_needed(0));
    assert!(visualization_needed(1));
    assert!(visualization_needed(2));
    assert!(visualization_needed(3));
    assert!(!visualization_needed(4));
}

#[test]
fn odd_dimensions_keep_all_pixels_and_disjoint_levels() {
    let p = pyramid(127, 65);
    assert_eq!((p[0].width, p[0].height), (64, 33));
    for pair in p.windows(2) {
        assert_eq!(
            pair[1].offset,
            pair[0].offset + pair[0].width * pair[0].height
        );
        assert_eq!(
            pair[1].grid_offset,
            pair[0].grid_offset + pair[0].width.div_ceil(2) * pair[0].height.div_ceil(2)
        );
    }
}

#[test]
fn a_pyramid_stops_at_four_levels_or_small_sides() {
    let levels = pyramid(1920, 1080);
    let sides: Vec<(u32, u32)> = levels
        .iter()
        .map(|level| (level.width, level.height))
        .collect();
    assert_eq!(sides, vec![(960, 540), (480, 270), (240, 135), (120, 68)]);
    assert_eq!(pyramid(1, 1).len(), 1);
}

#[test]
fn a_pyramid_fits_while_its_pixels_can_be_counted() {
    assert!(pyramid_fits(0, 0));
    assert!(pyramid_fits(7680, 4320));
    assert!(pyramid_fits(0x1_0000, 0x1_0000));
    assert!(pyramid_fits(8, u32::MAX / 2 - 1));
    assert!(!pyramid_fits(8, u32::MAX / 2));
    assert!(!pyramid_fits(0x2_0000, 0x2_0000));
    assert!(!pyramid_fits(u32::MAX, u32::MAX));
}

#[test]
fn constants_are_sixteen_words() {
    let level = Level {
        width: 1,
        height: 2,
        offset: 3,
        grid_offset: 4,
    };
    let params = MotionParams {
        level,
        parent: Level { width: 5, ..level },
        index: 6,
        coarsest: true,
        valid: false,
        decode_srgb: true,
        mode: 7,
        cut_low: 0.5_f32.to_bits(),
        cut_high: 0.2_f32.to_bits(),
        control: 0x0201,
    };
    let words: Vec<u32> = params
        .bytes()
        .chunks(4)
        .map(|word| u32::from_ne_bytes([word[0], word[1], word[2], word[3]]))
        .collect();
    assert_eq!(
        words,
        vec![
            1,
            2,
            3,
            4,
            5,
            2,
            3,
            4,
            6,
            1,
            0,
            1,
            7,
            0.5_f32.to_bits(),
            0.2_f32.to_bits(),
            0x0201
        ]
    );
}

#[test]
fn the_two_sets_swap_the_frames() {
    assert_eq!(motion_bindings().len(), 9);
    assert_eq!(set_buffers(0)[0], (1, MotionBuffer::Luma(0)));
    assert_eq!(set_buffers(0)[1], (2, MotionBuffer::Luma(1)));
    assert_eq!(set_buffers(1)[0].1, set_buffers(0)[1].1);
    assert_eq!(set_images()[2], (8, MotionImage::Confidence));
    assert_eq!(
        motion_bindings()[COLOR_BINDING as usize],
        (0, vk::DescriptorType::COMBINED_IMAGE_SAMPLER.as_raw())
    );
    assert_eq!(
        COLOR_LAYOUT,
        vk::ImageLayout::SHADER_READ_ONLY_OPTIMAL.as_raw()
    );
    assert_eq!(STORED_LAYOUT, vk::ImageLayout::GENERAL.as_raw());
}

#[test]
fn an_estimator_samples_the_nearest_pixel() {
    let (_, resources) = MotionEstimator::new(
        Extent2D {
            width: 64,
            height: 64,
        },
        false,
    );

    assert_eq!(resources.filter, vk::Filter::NEAREST.as_raw());
    assert_eq!(
        resources.address_mode,
        vk::SamplerAddressMode::CLAMP_TO_EDGE.as_raw()
    );
    let buffers = vk::BufferUsageFlags::STORAGE_BUFFER
        | vk::BufferUsageFlags::TRANSFER_SRC
        | vk::BufferUsageFlags::TRANSFER_DST;
    assert_eq!(resources.buffer_usage, buffers.as_raw());
    let images = vk::ImageUsageFlags::STORAGE
        | vk::ImageUsageFlags::TRANSFER_SRC
        | vk::ImageUsageFlags::TRANSFER_DST
        | vk::ImageUsageFlags::SAMPLED;
    assert_eq!(resources.image_usage, images.as_raw());
}

#[test]
fn a_frame_is_searched_from_coarse_to_fine_in_both_directions() {
    let (mut estimator, resources) = MotionEstimator::new(
        Extent2D {
            width: 129,
            height: 97,
        },
        true,
    );
    assert_eq!(estimator.cut_low, 0.5_f32.to_bits());
    assert_eq!(estimator.cut_high, 0.2_f32.to_bits());
    let last = *estimator.levels.last().unwrap();
    assert_eq!(
        resources.luma_size,
        4 * u64::from(last.offset + last.width * last.height)
    );
    assert_eq!(resources.grid.width, 129);
    estimator.set_quality(MotionQuality::Performance);
    let active = MotionQuality::Performance
        .profile(estimator.levels.len())
        .levels;

    let commands = estimator.record(1, true, 2);

    assert_eq!(commands[0], MotionCommand::MemoryBarrier);
    assert!(commands.contains(&MotionCommand::BindSet { set: 1 }));
    let searched: Vec<u32> = commands
        .iter()
        .filter_map(|command| match command {
            MotionCommand::Dispatch {
                shader: MotionShader::Flow,
                params,
                ..
            } => Some(params.index),
            _ => None,
        })
        .collect();
    let down: Vec<u32> = (0..active as u32).rev().collect();
    assert_eq!(searched, [down.clone(), down].concat());
    assert!(matches!(
        commands.last().unwrap(),
        MotionCommand::Dispatch {
            shader: MotionShader::Visualize,
            groups_x: 17,
            groups_y: 13,
            ..
        }
    ));

    let later = estimator.record(0, true, 0);
    assert!(!later
        .iter()
        .any(|command| matches!(command, MotionCommand::Fill { .. })));
    assert!(later.len() < commands.len());
}

#[test]
fn dense_outputs_match_processing_extent() {
    let extent = Extent2D {
        width: 129,
        height: 97,
    };
    let (mut estimator, resources) = MotionEstimator::new(extent, false);
    assert_eq!(estimator.grid, extent);
    assert_eq!(resources.grid, extent);

    let commands = estimator.record(0, false, 0);
    let judged: Vec<(u32, u32)> = commands
        .iter()
        .filter_map(|command| match command {
            MotionCommand::Dispatch {
                shader: MotionShader::Confidence | MotionShader::Invalidate,
                groups_x,
                groups_y,
                ..
            } => Some((*groups_x, *groups_y)),
            _ => None,
        })
        .collect();
    assert_eq!(judged, vec![(17, 13), (17, 13)]);
}

#[test]
fn the_metadata_hold_the_exposure_behind_the_scene_cut() {
    let (_, resources) = MotionEstimator::new(
        Extent2D {
            width: 128,
            height: 96,
        },
        false,
    );
    assert_eq!(resources.metadata_size, 32);
}
