use event_escrow::{EscrowError, Event, EventSpec, EventStatus, Outcome};

fn open_event(max: u64, min: u64, price: u128, deadline: u64) -> Event {
    let spec = EventSpec::new(max, min, price, deadline, "bene".to_string());
    Event::new(spec, "owner".to_string()).unwrap()
}

fn pairs(r: &event_escrow::Resolution) -> Vec<(String, u128)> {
    r.transfers.iter().map(|t| (t.recipient.clone(), t.amount)).collect()
}

#[test]
fn scenario_enough_joined_pays_beneficiary() {
    let mut e = open_event(3, 2, 100, 1000);
    assert_eq!(e.join(100, &"A".to_string()), Ok(()));
    assert_eq!(e.join(100, &"B".to_string()), Ok(()));
    let early = e.resolve(999);
    assert_eq!(early.outcome, Outcome::TooEarly);
    assert!(early.transfers.is_empty());
    assert_eq!(e.status, EventStatus::Waiting);
    let done = e.resolve(1000);
    assert_eq!(done.outcome, Outcome::Success);
    assert_eq!(pairs(&done), vec![("bene".to_string(), 200)]);
    assert_eq!(e.status, EventStatus::Success);
}

#[test]
fn scenario_too_few_joined_refunds() {
    let mut e = open_event(3, 2, 100, 1000);
    assert_eq!(e.join(100, &"A".to_string()), Ok(()));
    let done = e.resolve(2000);
    assert_eq!(done.outcome, Outcome::Failed);
    assert_eq!(pairs(&done), vec![("A".to_string(), 100)]);
    assert_eq!(e.status, EventStatus::Failed);
}

#[test]
fn scenario_full_and_duplicate_are_refused() {
    let mut e = open_event(2, 1, 50, 10);
    assert_eq!(e.join(50, &"A".to_string()), Ok(()));
    assert_eq!(e.join(50, &"B".to_string()), Ok(()));
    assert_eq!(e.join(50, &"C".to_string()), Err(EscrowError::EventFull));
    assert_eq!(e.join(50, &"A".to_string()), Err(EscrowError::AlreadyJoined));
    assert_eq!(e.participants, vec!["A".to_string(), "B".to_string()]);
}

#[test]
fn capacity_never_exceeded() {
    let mut e = open_event(3, 1, 7, 10);
    for name in ["a", "b", "c", "d", "e"] {
        let _ = e.join(7, &name.to_string());
        assert!(e.participants.len() as u64 <= e.max_num);
    }
    assert_eq!(e.participants.len(), 3);
    assert_eq!(e.join(7, &"f".to_string()), Err(EscrowError::EventFull));
}

#[test]
fn rejoin_leaves_participants_unchanged() {
    let mut e = open_event(5, 1, 10, 10);
    assert_eq!(e.join(10, &"A".to_string()), Ok(()));
    assert_eq!(e.join(10, &"A".to_string()), Err(EscrowError::AlreadyJoined));
    assert_eq!(e.participants.len(), 1);
}

#[test]
fn wrong_deposit_is_refused_without_change() {
    let mut e = open_event(5, 1, 10, 10);
    assert_eq!(e.join(9, &"A".to_string()), Err(EscrowError::WrongDeposit));
    assert_eq!(e.join(11, &"A".to_string()), Err(EscrowError::WrongDeposit));
    assert_eq!(e.join(0, &"A".to_string()), Err(EscrowError::WrongDeposit));
    assert!(e.participants.is_empty());
    assert_eq!(e.status, EventStatus::Waiting);
}

#[test]
fn deposit_checked_before_membership() {
    let mut e = open_event(1, 1, 10, 10);
    assert_eq!(e.join(10, &"A".to_string()), Ok(()));
    assert_eq!(e.join(3, &"A".to_string()), Err(EscrowError::WrongDeposit));
    assert_eq!(e.join(3, &"B".to_string()), Err(EscrowError::WrongDeposit));
}

#[test]
fn join_after_resolution_is_closed() {
    let mut e = open_event(3, 1, 10, 10);
    assert_eq!(e.join(10, &"A".to_string()), Ok(()));
    assert_eq!(e.resolve(10).outcome, Outcome::Success);
    assert_eq!(e.join(10, &"B".to_string()), Err(EscrowError::EventClosed));
    assert_eq!(e.join(1, &"B".to_string()), Err(EscrowError::EventClosed));
}

#[test]
fn resolution_depends_only_on_count_and_bounds() {
    let mut e1 = open_event(4, 2, 10, 100);
    let mut e2 = open_event(4, 2, 10, 100);
    e1.join(10, &"x".to_string()).unwrap();
    e1.join(10, &"y".to_string()).unwrap();
    e2.join(10, &"p".to_string()).unwrap();
    e2.join(10, &"q".to_string()).unwrap();
    assert_eq!(e1.resolve(100).outcome, e2.resolve(5000).outcome);
}

#[test]
fn second_resolve_is_a_no_op() {
    let mut e = open_event(3, 2, 100, 10);
    e.join(100, &"A".to_string()).unwrap();
    let first = e.resolve(20);
    assert_eq!(first.outcome, Outcome::Failed);
    let second = e.resolve(30);
    assert_eq!(second.outcome, Outcome::AlreadyResolved);
    assert!(second.transfers.is_empty());
    assert_eq!(e.status, EventStatus::Failed);
    assert_eq!(e.participants, vec!["A".to_string()]);
}

#[test]
fn funds_are_conserved_in_both_branches() {
    let mut failed = open_event(5, 4, 33, 10);
    for name in ["a", "b", "c"] {
        failed.join(33, &name.to_string()).unwrap();
    }
    let r = failed.resolve(10);
    assert_eq!(r.outcome, Outcome::Failed);
    assert_eq!(r.transfers.iter().map(|t| t.amount).sum::<u128>(), 99);
    assert_eq!(
        pairs(&r),
        vec![("a".to_string(), 33), ("b".to_string(), 33), ("c".to_string(), 33)]
    );

    let mut success = open_event(5, 2, 33, 10);
    for name in ["a", "b", "c"] {
        success.join(33, &name.to_string()).unwrap();
    }
    let r = success.resolve(11);
    assert_eq!(r.outcome, Outcome::Success);
    assert_eq!(r.transfers.iter().map(|t| t.amount).sum::<u128>(), 99);
}

#[test]
fn resolve_before_deadline_is_too_early() {
    let mut e = open_event(3, 1, 5, 50);
    e.join(5, &"A".to_string()).unwrap();
    for now in [0u64, 1, 49] {
        let r = e.resolve(now);
        assert_eq!(r.outcome, Outcome::TooEarly);
        assert!(r.transfers.is_empty());
        assert_eq!(e.status, EventStatus::Waiting);
    }
}

#[test]
fn empty_event_fails_with_no_transfers() {
    let mut e = open_event(3, 1, 5, 50);
    let r = e.resolve(50);
    assert_eq!(r.outcome, Outcome::Failed);
    assert!(r.transfers.is_empty());
}

#[test]
fn invalid_specs_are_refused() {
    let bad = [(3u64, 0u64, 5u128), (3, 4, 5), (3, 1, 0), (0, 0, 5), (2, 1, u128::MAX)];
    for (max, min, price) in bad {
        let spec = EventSpec::new(max, min, price, 1, "b".to_string());
        assert_eq!(Event::new(spec, "o".to_string()).err(), Some(EscrowError::InvalidSpec));
    }
    let spec = EventSpec::new(1, 1, u128::MAX, 1, "b".to_string());
    assert!(Event::new(spec, "o".to_string()).is_ok());
}

#[test]
fn new_event_is_empty_and_waiting() {
    let e = open_event(u64::MAX, 1, 1, 77);
    assert!(e.participants.is_empty());
    assert_eq!(e.status, EventStatus::Waiting);
    assert_eq!(e.owner, "owner");
    assert_eq!(e.beneficiary, "bene");
    assert_eq!((e.max_num, e.min_num, e.price, e.deadline), (u64::MAX, 1, 1, 77));
}

#[test]
fn full_payout_at_the_largest_price() {
    let mut e = open_event(2, 2, u128::MAX / 2, 0);
    e.join(u128::MAX / 2, &"a".to_string()).unwrap();
    e.join(u128::MAX / 2, &"b".to_string()).unwrap();
    let r = e.resolve(0);
    assert_eq!(pairs(&r), vec![("bene".to_string(), u128::MAX - 1)]);
}
