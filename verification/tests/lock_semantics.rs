use flack::BlockMode;
use flack::LockState;
use flack::LockType;
use flack::acquire_flags;
use flack::flock_outcome;

#[test]
fn exclusive_round_trip_unlocks() {
    let s0 = LockState::Unlocked;
    let s1 = s0.acquire(1, LockType::Exclusive).expect("fresh file must be granted");
    assert!(s1.holds(1));
    assert!(s1.holds_exclusive(1));
    let s2 = s1.release(1);
    assert!(!s2.holds(1));
    assert!(!s2.holds_exclusive(1));
}

#[test]
fn exclusive_blocks_other_holders() {
    let s0 = LockState::Unlocked;
    let s1 = s0.acquire(1, LockType::Exclusive).unwrap();
    assert!(s1.acquire(2, LockType::Exclusive).is_none());
    assert!(s1.acquire(2, LockType::Shared).is_none());
    // the holder's own request converts, never conflicts
    assert!(s1.acquire(1, LockType::Exclusive).is_some());
    assert!(s1.acquire(1, LockType::Shared).is_some());
}

#[test]
fn shared_holders_coexist() {
    let s0 = LockState::Unlocked;
    let s1 = s0.acquire(1, LockType::Shared).unwrap();
    let s2 = s1.acquire(2, LockType::Shared).unwrap();
    assert!(s2.holds_shared(1));
    assert!(s2.holds_shared(2));
    // an exclusive request by a third holder is refused while either remains
    assert!(s2.acquire(3, LockType::Exclusive).is_none());
    let s3 = s2.release(1);
    assert!(s3.acquire(3, LockType::Exclusive).is_none());
    let s4 = s3.release(2);
    assert!(s4.acquire(3, LockType::Exclusive).is_some());
}

#[test]
fn release_without_lock_is_defined() {
    let s0 = LockState::Unlocked;
    let s1 = s0.release(7);
    assert!(!s1.holds(7));
    // releasing as a stranger leaves another holder's lock standing
    let held = LockState::Unlocked.acquire(1, LockType::Shared).unwrap();
    let after = held.release(2);
    assert!(after.holds_shared(1));
    assert!(!after.holds(2));
}

#[test]
fn conversion_between_kinds() {
    let s0 = LockState::Unlocked;
    // sole shared holder may upgrade to exclusive
    let s1 = s0.acquire(1, LockType::Shared).unwrap();
    let s2 = s1.acquire(1, LockType::Exclusive).unwrap();
    assert!(s2.holds_exclusive(1));
    assert!(!s2.holds_shared(1));
    // a shared holder with company may not
    let s3 = s1.acquire(2, LockType::Shared).unwrap();
    assert!(s3.acquire(1, LockType::Exclusive).is_none());
    // an exclusive holder may downgrade to shared
    let s4 = s2.acquire(1, LockType::Shared).unwrap();
    assert!(s4.holds_shared(1));
    assert!(!s4.holds_exclusive(1));
}

#[test]
fn contended_lock_granted_after_release() {
    // Two processes contend for one lock file: the first is granted the
    // exclusive lock, the second's non-blocking request fails with the
    // "resource unavailable" error until the first releases.
    let file = LockState::Unlocked;
    let flags = acquire_flags(LockType::Exclusive, BlockMode::NonBlocking);
    assert_eq!(flags, 6);

    let held = file.acquire(1, LockType::Exclusive).expect("first process is granted");

    // the OS refuses the second process; its native call returns -1 with EAGAIN
    assert!(held.acquire(2, LockType::Exclusive).is_none());
    let denied = flock_outcome(-1, 11);
    assert_eq!(denied.unwrap_err().code, 11);

    let released = held.release(1);
    let regained = released.acquire(2, LockType::Exclusive);
    assert!(regained.is_some());
    assert!(regained.unwrap().holds_exclusive(2));
}
