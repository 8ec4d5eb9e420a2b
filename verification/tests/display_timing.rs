use tuxscaling::layer::hooks::display_timing::{merge_timing_results, PresentationTiming};
use tuxscaling::vk::{ERROR_DEVICE_LOST, INCOMPLETE, SUCCESS};

fn timing(id: u32, desired: u64) -> PresentationTiming {
    PresentationTiming {
        present_id: id,
        desired_present_time: desired,
        actual_present_time: desired + 1,
        earliest_present_time: desired + 2,
        present_margin: 3,
    }
}

#[test]
fn empty_and_single_generations_have_spec_shaped_results() {
    let empty = merge_timing_results(&[Ok(Vec::new())], None).unwrap();
    assert_eq!(empty.required_count(), 0);
    assert_eq!(empty.written_count(), 0);

    let one = merge_timing_results(&[Ok(vec![timing(4, 100)])], Some(1)).unwrap();
    assert_eq!(one.required_count(), 1);
    assert_eq!(one.written_count(), 1);
    assert_eq!(one.result(), SUCCESS);
}

#[test]
fn overlapping_ids_prefer_newer_generation_and_are_sorted() {
    let old = vec![timing(9, 900), timing(2, 200)];
    let new = vec![timing(9, 999), timing(5, 500)];
    let merged = merge_timing_results(&[Ok(old), Ok(new)], Some(3)).unwrap();

    assert_eq!(merged.ids(), vec![2, 5, 9]);
    assert_eq!(merged.timings()[2].desired_present_time, 999);
}

#[test]
fn undersized_data_query_returns_written_count_and_incomplete() {
    let merged = merge_timing_results(
        &[Ok(vec![timing(1, 10), timing(2, 20), timing(3, 30)])],
        Some(2),
    )
    .unwrap();

    assert_eq!(merged.required_count(), 3);
    assert_eq!(merged.written_count(), 2);
    assert_eq!(merged.result(), INCOMPLETE);
}

#[test]
fn count_only_query_does_not_construct_output_records() {
    let merged = merge_timing_results(&[Ok(vec![timing(1, 10), timing(2, 20)])], None).unwrap();

    assert_eq!(merged.required_count(), 2);
    assert_eq!(merged.written_count(), 0);
    assert!(merged.timings().is_empty());
}

#[test]
fn downstream_failure_is_returned_without_partial_merge() {
    assert_eq!(
        merge_timing_results(
            &[Ok(vec![timing(1, 10)]), Err(ERROR_DEVICE_LOST)],
            Some(4),
        ),
        Err(ERROR_DEVICE_LOST)
    );
}
