use tuxscaling::display::negotiation::{
    NegotiationFailure, PresentationNegotiation, PresentationState, NEGOTIATION_TIMEOUT,
};
use tuxscaling::display::{Extent, Rect, SurfaceExtent};
use tuxscaling::layer::mapping::{
    rewrite_present_array, AcquireError, LogicalSwapchainHandle, Mapping, OldSwapchain,
};
use tuxscaling::vk::{ERROR_DEVICE_LOST, SUCCESS};

const MILLISECOND: u64 = 1_000_000;

const SECOND: u64 = 1_000 * MILLISECOND;

const START: u64 = 40 * SECOND;

#[test]
fn assigns_and_releases_logical_slots_for_physical_images() {
    let mut mapping = Mapping::new(7, 3);

    assert_eq!(mapping.acquire(2), Ok(0));
    assert_eq!(mapping.acquire(0), Ok(1));
    assert_eq!(mapping.present(0), Ok(2));
    assert_eq!(mapping.acquire(1), Ok(0));
    assert_eq!(mapping.present(1), Ok(0));
}

#[test]
fn rejects_a_second_mapping_for_an_acquired_physical_image() {
    let mut mapping = Mapping::new(1, 2);

    assert_eq!(mapping.acquire(3), Ok(0));
    assert_eq!(mapping.acquire(3), Err(AcquireError::PhysicalBusy));
}

#[test]
fn invalidates_mappings_only_when_the_generation_is_idle() {
    let mut mapping = Mapping::new(4, 2);
    assert_eq!(mapping.acquire(0), Ok(0));

    assert!(!mapping.replace_generation(5));
    assert_eq!(mapping.present(0), Ok(0));
    assert!(mapping.replace_generation(5));
    assert_eq!(mapping.generation(), 5);
    assert_eq!(mapping.resolve(0), None);
}

#[test]
fn maps_different_logical_and_physical_image_counts() {
    let mut mapping = Mapping::new(9, 3);

    assert_eq!(mapping.acquire(5), Ok(0));
    assert_eq!(mapping.acquire(1), Ok(1));
    assert_eq!(mapping.acquire(3), Ok(2));
    assert_eq!(mapping.present(1), Ok(1));
    assert_eq!(mapping.acquire(0), Ok(1));
}

#[test]
fn reserves_a_logical_slot_before_unequal_count_downstream_acquire() {
    let mut mapping = Mapping::new(1, 1);
    let reservation = mapping.reserve_slot().unwrap();

    assert_eq!(mapping.reserve_slot(), Err(AcquireError::NoLogicalSlot));
    assert_eq!(mapping.bind_reserved(reservation, 7), Ok(()));
    assert_eq!(mapping.present(reservation), Ok(7));
}

#[test]
fn controlled_downstream_double_receives_rewritten_present_array() {
    let mut mapping = Mapping::new(9, 2);
    let logical_index = mapping.acquire(4).unwrap();
    let physical_swapchain = 33;

    let rewritten = rewrite_present_array(&mapping, physical_swapchain, logical_index);

    assert_eq!(rewritten, Ok((physical_swapchain, 4)));
    assert_eq!(mapping.present(logical_index), Ok(4));
}

#[test]
fn exact_native_confirmation_requires_recreation_before_virtualization() {
    let target = Rect::new(-1920, 0, 1920, 1080);
    let now = START;
    let mut negotiation = PresentationNegotiation::direct();
    assert!(negotiation.request_borderless(target, now));
    assert!(negotiation.borderless_requested(now));

    assert!(!negotiation.observe(
        Rect::new(-1920, 0, 1920, 1040),
        true,
        SurfaceExtent::fixed(Extent::new(1920, 1040)),
        now + MILLISECOND,
    ));
    assert_eq!(negotiation.public_state(), PresentationState::Negotiating);
    assert!(!negotiation.observe(
        target,
        true,
        SurfaceExtent::fixed(Extent::new(1920, 1080)),
        now + 2 * MILLISECOND,
    ));
    assert!(negotiation.observe(
        target,
        true,
        SurfaceExtent::fixed(Extent::new(1920, 1080)),
        now + 3 * MILLISECOND,
    ));
    assert_eq!(negotiation.public_state(), PresentationState::Negotiating);
    assert!(negotiation.output_recreation_ready());
    assert!(negotiation.native_observation_is_current(
        target,
        true,
        SurfaceExtent::fixed(Extent::new(1920, 1080)),
        now + 3 * MILLISECOND,
    ));
    assert!(negotiation.output_recreated(
        target,
        true,
        SurfaceExtent::fixed(Extent::new(1920, 1080)),
        now + 3 * MILLISECOND,
    ));
    assert_eq!(negotiation.public_state(), PresentationState::Virtualized);
}

#[test]
fn persistent_negotiation_fails_open_after_monotonic_deadline() {
    let now = START;
    let target = Rect::new(0, 0, 1920, 1080);
    let mut negotiation = PresentationNegotiation::direct();
    assert!(negotiation.request_borderless(target, now));
    assert!(negotiation.borderless_requested(now));
    assert_eq!(negotiation.public_state(), PresentationState::Negotiating);
    assert!(!negotiation.observe(
        Rect::new(0, 0, 1920, 1040),
        true,
        SurfaceExtent::fixed(Extent::new(1920, 1040)),
        now + NEGOTIATION_TIMEOUT + 1,
    ));
    assert_eq!(negotiation.public_state(), PresentationState::Failed);
    assert_eq!(
        negotiation.failure(),
        Some(NegotiationFailure::DeadlineExpired)
    );
}

#[test]
fn recreated_authoritative_state_stays_virtualized_on_first_present() {
    let now = START;
    let target = Rect::new(0, 0, 1920, 1080);
    let native = SurfaceExtent::fixed(Extent::new(1920, 1080));
    let mut surface = PresentationNegotiation::direct();
    assert!(surface.request_borderless(target, now));
    assert!(surface.borderless_requested(now));
    assert!(!surface.observe(target, true, native, now + SECOND));
    assert!(surface.observe(target, true, native, now + 2 * SECOND));
    assert!(surface.output_recreated(target, true, native, now + 2 * SECOND));

    let mut swapchain = surface;
    assert_eq!(swapchain.public_state(), PresentationState::Virtualized);
    assert!(!swapchain.observe(target, true, native, now + 3 * SECOND));
    assert_eq!(swapchain.public_state(), PresentationState::Virtualized);
}

#[test]
fn translates_a_logical_old_swapchain_to_its_current_physical_handle() {
    let current_physical = 91;

    assert_eq!(
        OldSwapchain::translate(Some(42), 42, current_physical),
        Some(current_physical)
    );
    assert_eq!(
        OldSwapchain::translate(Some(77), 42, current_physical),
        Some(77)
    );
    assert_eq!(OldSwapchain::translate(None, 42, current_physical), None);
}

#[test]
fn release_plan_preserves_mapping_until_downstream_success() {
    let mut mapping = Mapping::new(7, 3);
    let first = mapping.acquire(4).unwrap();
    let second = mapping.acquire(1).unwrap();
    let plan = mapping.plan_release(&[second, first]).unwrap();

    assert_eq!(plan.physical_indices(), &[1, 4]);
    assert_eq!(mapping.resolve(first), Some(4));
    assert!(mapping.commit_release(&plan));
    assert_eq!(mapping.resolve(first), None);
    assert_eq!(mapping.resolve(second), None);
}

#[test]
fn failed_downstream_release_does_not_commit_the_plan() {
    let mut mapping = Mapping::new(71, 1);
    let logical = mapping.acquire(6).unwrap();
    let plan = mapping.plan_release(&[logical]).unwrap();
    let downstream_result = ERROR_DEVICE_LOST;

    if downstream_result == SUCCESS {
        assert!(mapping.commit_release(&plan));
    }

    assert_eq!(mapping.resolve(logical), Some(6));
}

#[test]
fn release_plan_rejects_duplicate_idle_and_out_of_range_slots() {
    let mut mapping = Mapping::new(8, 2);
    let acquired = mapping.acquire(3).unwrap();

    assert!(mapping.plan_release(&[acquired, acquired]).is_err());
    assert!(mapping.plan_release(&[1]).is_err());
    assert!(mapping.plan_release(&[2]).is_err());
    assert!(mapping.plan_release(&[]).is_ok());
}

#[test]
fn stale_release_plan_cannot_commit_after_generation_change() {
    let mut mapping = Mapping::new(9, 1);
    let logical = mapping.acquire(5).unwrap();
    let plan = mapping.plan_release(&[logical]).unwrap();
    assert_eq!(mapping.present(logical), Ok(5));
    assert!(mapping.replace_generation(10));

    assert!(!mapping.commit_release(&plan));
    assert_eq!(mapping.generation(), 10);
}

#[test]
fn direct_fallback_does_not_install_a_mapping() {
    assert!(Mapping::direct_fallback(true, false));
    assert!(Mapping::direct_fallback(false, true));
    assert!(!Mapping::direct_fallback(true, true));
}

#[test]
fn logical_handle_uses_the_reserved_namespace_and_never_equals_a_physical_handle() {
    let physical = 0x1234;
    let logical = LogicalSwapchainHandle::from_counter(1);

    assert_ne!(logical.raw(), physical);
    assert!(LogicalSwapchainHandle::from_raw(logical.raw()).is_some());
    assert!(LogicalSwapchainHandle::from_raw(physical).is_none());
}
