use flack::BlockMode;
use flack::LockType;
use flack::acquire_flags;
use flack::flags::LOCK_EX;
use flack::flags::LOCK_NB;
use flack::flags::LOCK_SH;
use flack::flags::LOCK_UN;
use flack::flock_outcome;
use flack::release_flags;
use flack::NativeLockFailure;

#[test]
fn kind_flags_match_native_encoding() {
    assert_eq!(LockType::Exclusive.to_flock_flag(), LOCK_EX);
    assert_eq!(LockType::Exclusive.to_flock_flag(), 2);
    assert_eq!(LockType::Shared.to_flock_flag(), LOCK_SH);
    assert_eq!(LockType::Shared.to_flock_flag(), 1);
}

#[test]
fn mode_flags_match_native_encoding() {
    assert_eq!(BlockMode::Blocking.to_flock_flag(), 0);
    assert_eq!(BlockMode::NonBlocking.to_flock_flag(), LOCK_NB);
    assert_eq!(BlockMode::NonBlocking.to_flock_flag(), 4);
}

#[test]
fn acquire_flags_compose_one_kind_and_one_mode() {
    assert_eq!(acquire_flags(LockType::Exclusive, BlockMode::NonBlocking), 6);
    assert_eq!(acquire_flags(LockType::Exclusive, BlockMode::Blocking), 2);
    assert_eq!(acquire_flags(LockType::Shared, BlockMode::NonBlocking), 5);
    assert_eq!(acquire_flags(LockType::Shared, BlockMode::Blocking), 1);
}

#[test]
fn release_flag_is_the_unlock_bit_alone() {
    assert_eq!(release_flags(), LOCK_UN);
    assert_eq!(release_flags(), 8);
}

#[test]
fn nonnegative_return_is_success() {
    assert!(flock_outcome(0, 0).is_ok());
    assert!(flock_outcome(1, 0).is_ok());
}

#[test]
fn negative_return_carries_the_os_error_code() {
    // 11 is EAGAIN, what a conflicting non-blocking request reports.
    let r = flock_outcome(-1, 11);
    assert_eq!(r, Err(NativeLockFailure { code: 11 }));
    let r = flock_outcome(-1, 9);
    assert_eq!(r, Err(NativeLockFailure { code: 9 }));
}
