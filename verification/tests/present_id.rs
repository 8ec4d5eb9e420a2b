use tuxscaling::layer::hooks::present_id::{PresentIdHistory, PresentIdRouteError};

#[test]
fn present_id_ranges_remain_routable_across_three_generations() {
    let mut history = PresentIdHistory::new();
    let first = history.stage(0, 11, &[10, 12]).unwrap();
    history.commit(first);
    let second = history.stage(1, 12, &[20]).unwrap();
    history.commit(second);
    let third = history.stage(2, 13, &[31, 40]).unwrap();
    history.commit(third);

    assert_eq!(history.resolve(10).unwrap().generation(), 0);
    assert_eq!(history.resolve(20).unwrap().physical(), 12);
    assert_eq!(history.resolve(40).unwrap().generation(), 2);
}

#[test]
fn gaps_are_allowed_but_non_monotonic_ids_are_rejected() {
    let mut history = PresentIdHistory::new();
    let first = history.stage(0, 21, &[4, 9]).unwrap();
    history.commit(first);

    assert_eq!(
        history.stage(1, 22, &[8]),
        Err(PresentIdRouteError::NonMonotonic)
    );
    assert!(history.stage(1, 22, &[10, 100]).is_ok());
}

#[test]
fn rollback_does_not_consume_the_present_id_range() {
    let mut history = PresentIdHistory::new();
    let pending = history.stage(0, 31, &[50]).unwrap();
    history.rollback(pending);

    assert!(history.stage(0, 31, &[50]).is_ok());
}

#[test]
fn suboptimal_commit_keeps_old_generation_lookup_available() {
    let mut history = PresentIdHistory::new();
    let old = history.stage(0, 41, &[70]).unwrap();
    history.commit(old);
    let replacement = history.stage(1, 42, &[80]).unwrap();
    history.commit(replacement);

    assert_eq!(history.resolve(70).unwrap().physical(), 41);
    assert_eq!(history.resolve(80).unwrap().physical(), 42);
}

#[test]
fn a_second_pending_present_is_rejected_until_the_first_is_committed() {
    let mut history = PresentIdHistory::new();
    let pending = history.stage(0, 51, &[90]).unwrap();

    assert_eq!(
        history.stage(0, 51, &[91]),
        Err(PresentIdRouteError::Pending)
    );
    history.commit(pending);
    assert!(history.stage(0, 51, &[91]).is_ok());
}

#[test]
fn no_identifiers_and_foreign_reservations_are_refused() {
    let mut history = PresentIdHistory::new();
    let mut other = PresentIdHistory::new();
    assert_eq!(history.stage(0, 1, &[]), Err(PresentIdRouteError::Empty));

    let foreign = other.stage(0, 1, &[5]).unwrap();
    let own = history.stage(0, 1, &[6]).unwrap();
    assert!(!history.commit(foreign.duplicate()));
    assert!(!history.rollback(foreign));
    assert!(history.resolve(5).is_none());
    assert!(history.commit(own));
    assert_eq!(history.resolve(6).unwrap().physical(), 1);
}
