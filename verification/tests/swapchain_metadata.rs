use tuxscaling::layer::hooks::swapchain_metadata::{
    validate_metadata_inputs, with_metadata_array, MetadataArrayError, OwnedHdrMetadata, OwnedXy,
};

fn xy(x: f32, y: f32) -> OwnedXy {
    OwnedXy {
        x: x.to_bits(),
        y: y.to_bits(),
    }
}

fn sample_metadata() -> OwnedHdrMetadata {
    OwnedHdrMetadata {
        display_primary_red: xy(0.64, 0.33),
        display_primary_green: xy(0.3, 0.6),
        display_primary_blue: xy(0.15, 0.06),
        white_point: xy(0.3127, 0.329),
        max_luminance: 1000.0_f32.to_bits(),
        min_luminance: 0.01_f32.to_bits(),
        max_content_light_level: 800.0_f32.to_bits(),
        max_frame_average_light_level: 400.0_f32.to_bits(),
    }
}

#[test]
fn mixed_direct_and_virtual_arrays_preserve_order() {
    let handles = [11, 12, 13];
    let physical = [11, 112, 13];
    let metadata = [sample_metadata(); 3];

    let (swapchains, rebuilt) = with_metadata_array(&handles, &physical, &metadata).unwrap();

    assert_eq!(swapchains, physical.to_vec());
    let luminance: Vec<f32> = rebuilt
        .iter()
        .map(|entry| f32::from_bits(entry.max_luminance))
        .collect();
    assert_eq!(luminance, vec![1000.0; 3]);
}

#[test]
fn metadata_count_and_null_inputs_have_exact_errors() {
    assert_eq!(
        validate_metadata_inputs(1, false, false),
        Err(MetadataArrayError::NullSwapchains)
    );
    assert_eq!(
        validate_metadata_inputs(1, true, false),
        Err(MetadataArrayError::NullMetadata)
    );
    assert_eq!(validate_metadata_inputs(0, false, false), Ok(()));
}

#[test]
fn malformed_metadata_array_is_rejected_before_downstream() {
    let handles = [31];
    let metadata: [OwnedHdrMetadata; 0] = [];
    assert_eq!(
        with_metadata_array(&handles, &handles, &metadata).unwrap_err(),
        MetadataArrayError::CountMismatch
    );
}
