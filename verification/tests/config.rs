use tuxscaling::config::{
    Config, ConfigError, DebugView, JitterMode, MotionQuality, OutputResolution,
    OutputResolutionError, SettingKey,
};

#[derive(Debug)]
enum ReadError {
    Parse,
    Invalid(ConfigError),
}

fn number(value: &toml::Value) -> Option<u32> {
    let integer = value.as_integer().map(|number| number as f64);
    let number = value.as_float().or(integer)?;
    Some((number as f32).to_bits())
}

/// Gives one setting the value of a file.
fn set(config: &mut Config, key: SettingKey, value: &toml::Value) -> Option<()> {
    match key {
        SettingKey::Enabled => config.enabled = value.as_bool()?,
        SettingKey::Quality => config.quality = value.as_str()?.to_string(),
        SettingKey::ToggleKey => config.toggle_key = value.as_str()?.to_string(),
        SettingKey::DebugView => config.debug_view = DebugView::from_name(value.as_str()?)?,
        SettingKey::JitterMode => config.jitter_mode = JitterMode::from_name(value.as_str()?)?,
        SettingKey::MotionQuality => {
            config.motion_quality = MotionQuality::from_name(value.as_str()?)?;
        }
        SettingKey::OutputResolution => {
            config.output_resolution = OutputResolution::parse(value.as_str()?).ok()?;
        }
        SettingKey::GuidanceScale => config.guidance_scale = number(value)?,
        SettingKey::SceneDistanceThreshold => config.scene_distance_threshold = number(value)?,
        SettingKey::SceneConsistencyThreshold => {
            config.scene_consistency_threshold = number(value)?;
        }
    }
    Some(())
}

/// Reads the settings of a file into the library's own type.
fn read(source: &str) -> Result<Config, ReadError> {
    let table = source
        .parse::<toml::Table>()
        .map_err(|_| ReadError::Parse)?;
    let mut config = Config::default();
    for (key, value) in &table {
        if let Some(key) = SettingKey::from_name(key) {
            set(&mut config, key, value).ok_or(ReadError::Parse)?;
        }
    }
    config.validated().map_err(ReadError::Invalid)
}

#[test]
fn applies_defaults() {
    assert_eq!(read("").unwrap(), Config::default());
}

#[test]
fn rejects_invalid_toml() {
    assert!(matches!(read("enabled = ["), Err(ReadError::Parse)));
}

#[test]
fn validates_diagnostic_options() {
    assert!(read("scene_distance_threshold = nan").is_err());
    assert!(read("scene_consistency_threshold = 1.1").is_err());
    assert!(read("debug_view = 'unknown'").is_err());
    assert_eq!(
        read("debug_view = 'motion'").unwrap().debug_view,
        DebugView::Motion
    );
}

#[test]
fn parses_motion_quality_presets() {
    assert_eq!(
        read("motion_quality = 'performance'")
            .unwrap()
            .motion_quality,
        MotionQuality::Performance
    );
    assert_eq!(Config::default().motion_quality, MotionQuality::Ultra);
}

#[test]
fn validates_legacy_scale_alias() {
    assert!(read("render_scale = 0.75").is_ok());
    assert!(read("render_scale = 0.25").is_err());
}

#[test]
fn defaults_to_native_output_without_guidance_downscale() {
    let config = read("").unwrap();

    assert_eq!(config.output_resolution, OutputResolution::Native);
    assert_eq!(f32::from_bits(config.guidance_scale), 1.0);
}

#[test]
fn defaults_jitter_off_and_parses_experimental_halton_mode() {
    assert_eq!(Config::default().jitter_mode, JitterMode::Off);
    assert_eq!(
        read("jitter_mode = 'experimental_halton8'")
            .unwrap()
            .jitter_mode,
        JitterMode::ExperimentalHalton8
    );
    assert_eq!(
        read("debug_view = 'depth'").unwrap().debug_view,
        DebugView::Depth
    );
    assert_eq!(
        read("debug_view = 'composition'").unwrap().debug_view,
        DebugView::Composition
    );
    assert_eq!(
        read("debug_view = 'exposure'").unwrap().debug_view,
        DebugView::Exposure
    );
    assert_eq!(DebugView::Depth.index(), 8);
    assert_eq!(DebugView::Composition.index(), 9);
    assert_eq!(DebugView::Exposure.index(), 10);
}

#[test]
fn parses_fixed_output_and_legacy_guidance_scale() {
    let config = read("output_resolution = '1920x1080'\nrender_scale = 0.75").unwrap();

    assert_eq!(
        config.output_resolution,
        OutputResolution::Fixed {
            width: 1920,
            height: 1080,
        }
    );
    assert_eq!(f32::from_bits(config.guidance_scale), 0.75);
}

#[test]
fn rejects_invalid_output_resolution_and_guidance_scale() {
    assert!(read("output_resolution = '0x1080'").is_err());
    assert!(read("processing_scale = 1.1").is_err());
}

#[test]
fn defaults_to_full_resolution_guidance_and_ultra_motion() {
    let config = read("").unwrap();

    assert_eq!(f32::from_bits(config.guidance_scale), 1.0);
    assert_eq!(config.motion_quality, MotionQuality::Ultra);
}

#[test]
fn validates_guidance_scale_boundaries() {
    assert!(read("guidance_scale = 0.5").is_ok());
    assert!(read("guidance_scale = 1.0").is_ok());
    assert!(read("guidance_scale = 0.49").is_err());
    assert!(read("guidance_scale = 1.01").is_err());
}

#[test]
fn accepts_legacy_scale_names_as_deserialization_aliases() {
    assert_eq!(
        f32::from_bits(read("processing_scale = 0.75").unwrap().guidance_scale),
        0.75
    );
    assert_eq!(
        f32::from_bits(read("render_scale = 0.75").unwrap().guidance_scale),
        0.75
    );
}

fn in_range(config: &Config) -> bool {
    let guidance = f32::from_bits(config.guidance_scale);
    let distance = f32::from_bits(config.scene_distance_threshold);
    let consistency = f32::from_bits(config.scene_consistency_threshold);
    guidance.is_finite()
        && (0.5..=1.0).contains(&guidance)
        && distance.is_finite()
        && distance > 0.0
        && distance <= 2.0
        && consistency.is_finite()
        && (0.0..=1.0).contains(&consistency)
}

#[test]
fn bit_patterns_are_accepted_as_the_floats_they_stand_for() {
    let values = [
        0.0,
        -0.0,
        f32::MIN_POSITIVE,
        1e-45,
        0.2,
        0.49999997,
        0.5,
        1.0,
        1.0000001,
        1.9999999,
        2.0,
        2.0000002,
        -0.5,
        f32::INFINITY,
        f32::NEG_INFINITY,
        f32::NAN,
    ];
    for value in values {
        let bits = value.to_bits();
        for config in [
            Config {
                guidance_scale: bits,
                ..Config::default()
            },
            Config {
                scene_distance_threshold: bits,
                ..Config::default()
            },
            Config {
                scene_consistency_threshold: bits,
                ..Config::default()
            },
        ] {
            let expected = in_range(&config);
            assert_eq!(config.validated().is_ok(), expected, "{value}");
        }
    }
}

#[test]
fn default_thresholds_are_the_nearest_floats() {
    let config = Config::default();
    assert_eq!(config.scene_distance_threshold, 0.5_f32.to_bits());
    assert_eq!(config.scene_consistency_threshold, 0.2_f32.to_bits());
    assert_eq!(config.toggle_key, "Insert");
    assert_eq!(config.quality, "balanced");
}

#[test]
fn output_resolutions_are_read_as_numbers_are() {
    assert_eq!(
        OutputResolution::parse("native"),
        Ok(OutputResolution::Native)
    );
    assert_eq!(
        OutputResolution::parse("swapchain"),
        Ok(OutputResolution::Swapchain)
    );
    assert_eq!(
        OutputResolution::parse("+640x0360"),
        Ok(OutputResolution::Fixed {
            width: 640,
            height: 360,
        })
    );
    assert_eq!(
        OutputResolution::parse("Native"),
        Err(OutputResolutionError::Shape)
    );
    for text in ["x", "640x", "x360", "640x360x", "-1x2", "4294967296x1", "+x1"] {
        assert_eq!(
            OutputResolution::parse(text),
            Err(OutputResolutionError::Number),
            "{text}"
        );
    }
    assert_eq!(
        OutputResolution::parse("4294967295x0"),
        Err(OutputResolutionError::NotPositive)
    );
}

#[test]
fn errors_say_what_they_ask_for() {
    assert_eq!(
        OutputResolutionError::Shape.message(),
        "output resolution must be native, swapchain, or WIDTHxHEIGHT"
    );
    assert_eq!(
        OutputResolutionError::NotPositive.message(),
        "output resolution dimensions must be positive"
    );
    assert_eq!(
        ConfigError::InvalidThresholds.message(),
        "guidance scale must be finite in [0.5, 1.0] and scene thresholds must be valid"
    );
}

#[test]
fn names_are_those_of_the_settings_file() {
    for (quality, name) in [
        (MotionQuality::High, "high"),
        (MotionQuality::Ultra, "ultra"),
        (MotionQuality::Balanced, "balanced"),
        (MotionQuality::Performance, "performance"),
    ] {
        assert_eq!(quality.name(), name);
        assert_eq!(MotionQuality::from_name(name), Some(quality));
    }
    for (mode, name) in [
        (JitterMode::Off, "off"),
        (JitterMode::ExperimentalHalton8, "experimental_halton8"),
    ] {
        assert_eq!(mode.name(), name);
        assert_eq!(JitterMode::from_name(name), Some(mode));
    }
    let views = [
        "original",
        "luminance",
        "motion",
        "confidence",
        "reconstructed",
        "history",
        "reactive",
        "disocclusion",
        "depth",
        "composition",
        "exposure",
    ];
    for (index, name) in views.iter().enumerate() {
        let view = DebugView::from_name(name).unwrap();
        assert_eq!(view.index() as usize, index);
        assert_eq!(view.name(), *name);
    }
    assert_eq!(MotionQuality::from_name("Ultra"), None);
    assert_eq!(JitterMode::from_name(""), None);
    assert_eq!(DebugView::from_name("motions"), None);
}

#[test]
fn the_guidance_scale_has_three_keys() {
    for key in ["guidance_scale", "processing_scale", "render_scale"] {
        assert_eq!(SettingKey::from_name(key), Some(SettingKey::GuidanceScale));
    }
    assert_eq!(SettingKey::GuidanceScale.name(), "guidance_scale");
    for key in [
        SettingKey::Enabled,
        SettingKey::Quality,
        SettingKey::ToggleKey,
        SettingKey::DebugView,
        SettingKey::JitterMode,
        SettingKey::MotionQuality,
        SettingKey::OutputResolution,
        SettingKey::SceneDistanceThreshold,
        SettingKey::SceneConsistencyThreshold,
    ] {
        assert_eq!(SettingKey::from_name(key.name()), Some(key));
    }
    assert_eq!(SettingKey::from_name("scale"), None);
    assert_eq!(read("scale = 7").unwrap(), Config::default());
}
