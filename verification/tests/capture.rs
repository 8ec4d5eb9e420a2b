use ash::vk;
use tuxscaling::capture::record::{
    Capture, CaptureBinding, CaptureCommand, CaptureImage, ClearColor,
};
use tuxscaling::capture::{
    halton, halton8, requires_scaling, supported_format, JitterOffset, JitterSample, JitterState,
};
use tuxscaling::config::JitterMode;
use tuxscaling::vk::{Extent2D, Offset2D};

fn extent(width: u32, height: u32) -> Extent2D {
    Extent2D { width, height }
}

fn floats(offset: JitterOffset) -> [f64; 2] {
    [
        f64::from(offset.x_eighths) / 8.0,
        f64::from(offset.y_eighteenths) / 18.0,
    ]
}

#[test]
fn identifies_when_capture_requires_scaling() {
    let source = extent(1280, 720);

    assert!(!requires_scaling(source, source));
    assert!(requires_scaling(source, extent(960, 540)));
}

#[test]
fn rejects_hdr_and_accepts_sdr() {
    assert!(supported_format(
        vk::Format::B8G8R8A8_SRGB.as_raw(),
        vk::ColorSpaceKHR::SRGB_NONLINEAR.as_raw()
    ));
    assert!(supported_format(
        vk::Format::R16G16B16A16_SFLOAT.as_raw(),
        vk::ColorSpaceKHR::SRGB_NONLINEAR.as_raw()
    ));
    assert!(!supported_format(
        vk::Format::R8G8B8A8_UNORM.as_raw(),
        vk::ColorSpaceKHR::HDR10_ST2084_EXT.as_raw()
    ));
}

#[test]
fn experimental_halton8_uses_the_exact_centered_zero_mean_sequence() {
    let mut state = JitterState::new(JitterMode::ExperimentalHalton8);
    let samples = (0..8).map(|_| state.sample()).collect::<Vec<_>>();
    let expected_sequence = [
        [0.0, -1.0 / 6.0],
        [-1.0 / 4.0, 1.0 / 6.0],
        [1.0 / 4.0, -7.0 / 18.0],
        [-3.0 / 8.0, -1.0 / 18.0],
        [0.0, 1.0 / 6.0],
        [1.0 / 4.0, -1.0 / 6.0],
        [-1.0 / 4.0, 7.0 / 18.0],
        [3.0 / 8.0, 1.0 / 18.0],
    ];
    for (phase, (sample, expected)) in samples.iter().zip(expected_sequence).enumerate() {
        assert_eq!(sample.phase, phase as u32);
        let current = floats(sample.current);
        assert!((current[0] - expected[0]).abs() < 1e-6);
        assert!((current[1] - expected[1]).abs() < 1e-6);
        let previous = if phase == 0 {
            [0.0, 0.0]
        } else {
            expected_sequence[phase - 1]
        };
        let held = floats(sample.previous);
        assert!((held[0] - previous[0]).abs() < 1e-6);
        assert!((held[1] - previous[1]).abs() < 1e-6);
    }
    let mean = samples.iter().fold([0.0, 0.0], |sum, sample| {
        let current = floats(sample.current);
        [sum[0] + current[0], sum[1] + current[1]]
    });
    assert!(mean[0].abs() < 1e-6);
    assert!(mean[1].abs() < 1e-6);
}

#[test]
fn jitter_wraps_and_reports_a_phase_restart() {
    let mut state = JitterState::new(JitterMode::ExperimentalHalton8);
    for _ in 0..7 {
        let _ = state.sample();
        assert!(!state.take_phase_restart());
    }
    let wrapped = state.sample();
    assert_eq!(wrapped.phase, 7);
    assert!(!state.take_phase_restart());
    let first_after_wrap = state.sample();
    assert_eq!(first_after_wrap.phase, 0);
    assert!(state.take_phase_restart());
    assert!(!state.take_phase_restart());
}

#[test]
fn jitter_mode_transition_and_reset_clear_previous_sample() {
    let mut state = JitterState::new(JitterMode::ExperimentalHalton8);
    let first = state.sample();
    assert_eq!(floats(first.previous), [0.0, 0.0]);
    assert!(state.set_mode(JitterMode::Off));
    let off = state.sample();
    assert_eq!(floats(off.current), [0.0, 0.0]);
    assert_eq!(floats(off.previous), [0.0, 0.0]);
    assert_eq!(off.phase, 0);
    assert!(!state.set_mode(JitterMode::Off));
    assert!(state.set_mode(JitterMode::ExperimentalHalton8));
    let restarted = state.sample();
    assert_eq!(floats(restarted.previous), [0.0, 0.0]);
    state.sample();
    state.reset();
    let reset = state.sample();
    assert_eq!(floats(reset.previous), [0.0, 0.0]);
    assert_eq!(reset.phase, 0);
}

#[test]
fn the_sequence_comes_from_the_radical_inverse() {
    assert_eq!(halton(1, 2), (1, 2));
    assert_eq!(halton(6, 2), (3, 8));
    assert_eq!(halton(5, 3), (7, 9));
    let (x, x_of) = halton(4, 2);
    let (y, y_of) = halton(4, 3);
    let offset = halton8(3);
    assert_eq!(
        f64::from(offset.x_eighths) / 8.0,
        x as f64 / x_of as f64 - 0.5
    );
    assert!((f64::from(offset.y_eighteenths) / 18.0 - (y as f64 / y_of as f64 - 0.5)).abs() < 1e-12);
}

fn barrier(image: CaptureImage, old: vk::ImageLayout, new: vk::ImageLayout) -> CaptureCommand {
    CaptureCommand::Barrier {
        image,
        old_layout: old.as_raw(),
        new_layout: new.as_raw(),
    }
}

#[test]
fn the_resampling_shader_reads_the_copy_and_writes_the_capture() {
    let (_, resources) = Capture::new(extent(640, 360), 44);

    assert_eq!(
        resources.bindings,
        vec![
            CaptureBinding {
                binding: 0,
                descriptor_type: vk::DescriptorType::COMBINED_IMAGE_SAMPLER.as_raw(),
                image: CaptureImage::ResampleSource,
                layout: vk::ImageLayout::SHADER_READ_ONLY_OPTIMAL.as_raw(),
            },
            CaptureBinding {
                binding: 1,
                descriptor_type: vk::DescriptorType::STORAGE_IMAGE.as_raw(),
                image: CaptureImage::Color,
                layout: vk::ImageLayout::GENERAL.as_raw(),
            },
        ]
    );
    assert_eq!(resources.filter, vk::Filter::LINEAR.as_raw());
    assert_eq!(
        resources.address_mode,
        vk::SamplerAddressMode::CLAMP_TO_EDGE.as_raw()
    );
    let usage = vk::ImageUsageFlags::TRANSFER_SRC
        | vk::ImageUsageFlags::TRANSFER_DST
        | vk::ImageUsageFlags::SAMPLED
        | vk::ImageUsageFlags::STORAGE;
    assert_eq!(resources.image_usage, usage.as_raw());
}

#[test]
fn the_first_capture_clears_what_was_before() {
    let (mut capture, resources) = Capture::new(extent(640, 360), 44);
    assert_eq!(resources.image_count, 3);

    let commands = capture.record();

    assert_eq!(
        commands,
        vec![
            barrier(
                CaptureImage::Previous,
                vk::ImageLayout::UNDEFINED,
                vk::ImageLayout::TRANSFER_DST_OPTIMAL
            ),
            CaptureCommand::Clear {
                image: CaptureImage::Previous,
                color: ClearColor {
                    red: 0.0_f32.to_bits(),
                    green: 0.0_f32.to_bits(),
                    blue: 0.0_f32.to_bits(),
                    alpha: 1.0_f32.to_bits(),
                },
            },
            barrier(
                CaptureImage::Previous,
                vk::ImageLayout::TRANSFER_DST_OPTIMAL,
                vk::ImageLayout::SHADER_READ_ONLY_OPTIMAL
            ),
            barrier(
                CaptureImage::Source,
                vk::ImageLayout::PRESENT_SRC_KHR,
                vk::ImageLayout::TRANSFER_SRC_OPTIMAL
            ),
            barrier(
                CaptureImage::Color,
                vk::ImageLayout::UNDEFINED,
                vk::ImageLayout::TRANSFER_DST_OPTIMAL
            ),
            CaptureCommand::Copy {
                from: CaptureImage::Source,
                to: CaptureImage::Color,
                extent: extent(640, 360),
            },
            barrier(
                CaptureImage::Color,
                vk::ImageLayout::TRANSFER_DST_OPTIMAL,
                vk::ImageLayout::SHADER_READ_ONLY_OPTIMAL
            ),
            barrier(
                CaptureImage::Source,
                vk::ImageLayout::TRANSFER_SRC_OPTIMAL,
                vk::ImageLayout::COLOR_ATTACHMENT_OPTIMAL
            ),
        ]
    );
    assert!(capture.initialized);
}

#[test]
fn later_captures_keep_the_one_before_and_resample_with_jitter() {
    let (mut capture, _) = Capture::new(extent(641, 360), 44);
    capture.record();
    let jitter = JitterSample {
        current: JitterOffset {
            x_eighths: 2,
            y_eighteenths: -7,
        },
        estimated: true,
        ..JitterSample::default()
    };

    let commands = capture.record_scaled_from_with_jitter(
        extent(1280, 720),
        vk::ImageLayout::GENERAL.as_raw(),
        vk::ImageLayout::PRESENT_SRC_KHR.as_raw(),
        jitter,
    );

    assert!(commands.contains(&CaptureCommand::Copy {
        from: CaptureImage::Color,
        to: CaptureImage::Previous,
        extent: extent(641, 360),
    }));
    assert!(commands.contains(&CaptureCommand::Resample {
        offset: jitter.current,
        groups_x: 81,
        groups_y: 45,
    }));
    assert!(commands.contains(&CaptureCommand::Blit {
        from: CaptureImage::Source,
        to: CaptureImage::ResampleSource,
        from_corner: Offset2D { x: 1280, y: 720 },
        to_corner: Offset2D { x: 641, y: 360 },
        filter: vk::Filter::LINEAR.as_raw(),
    }));
    let plain = capture.record_scaled_from(extent(1280, 720), 1, 2);
    assert!(!plain
        .iter()
        .any(|command| matches!(command, CaptureCommand::Resample { .. })));
}

#[test]
fn the_constants_are_four_words_in_their_places() {
    let (capture, resources) = Capture::new(extent(0x0102_0304, 7), 44);
    let bytes = capture.resample_constants(0.25_f32.to_bits(), (-0.5_f32).to_bits());

    assert_eq!(bytes.len(), resources.constant_size as usize);
    let words: Vec<u32> = bytes
        .chunks(4)
        .map(|word| u32::from_ne_bytes([word[0], word[1], word[2], word[3]]))
        .collect();
    assert_eq!(
        words,
        vec![
            0x0102_0304,
            7,
            0.25_f32.to_bits(),
            (-0.5_f32).to_bits()
        ]
    );
}
