//! The flag vocabulary of the native whole-file locking call, and how a
//! language-neutral lock request is encoded as one flag word.

use vstd::prelude::*;

verus! {

/// Request a shared lock.
pub const LOCK_SH: i32 = 1;

/// Request an exclusive lock.
pub const LOCK_EX: i32 = 2;

/// Fail at once instead of waiting when the request conflicts.
pub const LOCK_NB: i32 = 4;

/// Drop the lock held through this handle.
pub const LOCK_UN: i32 = 8;

/// The kind of shared access a holder asks for: `Exclusive` admits one
/// holder only, `Shared` admits any number of readers but no exclusive
/// holder beside them.
#[derive(Clone, Copy, Debug, PartialEq, Eq, Structural)]
pub enum LockType {
    Exclusive,
    Shared,
}

impl LockType {
    /// The flag bit that selects this kind in the native call.
    pub open spec fn spec_flock_flag(&self) -> i32 {
        match self {
            LockType::Exclusive => LOCK_EX,
            LockType::Shared => LOCK_SH,
        }
    }

    pub fn to_flock_flag(&self) -> (flag: i32)
        ensures
            flag == self.spec_flock_flag(),
    {
        match self {
            LockType::Exclusive => LOCK_EX,
            LockType::Shared => LOCK_SH,
        }
    }
}

/// Whether an acquisition waits for a conflicting lock to go away
/// (`Blocking`) or reports failure at once (`NonBlocking`).
#[derive(Clone, Copy, Debug, PartialEq, Eq, Structural)]
pub enum BlockMode {
    Blocking,
    NonBlocking,
}

impl BlockMode {
    /// The flag bit this mode adds to the native call: waiting is the
    /// call's default, so `Blocking` contributes nothing.
    pub open spec fn spec_flock_flag(&self) -> i32 {
        match self {
            BlockMode::Blocking => 0,
            BlockMode::NonBlocking => LOCK_NB,
        }
    }

    pub fn to_flock_flag(&self) -> (flag: i32)
        ensures
            flag == self.spec_flock_flag(),
    {
        match self {
            BlockMode::Blocking => 0,
            BlockMode::NonBlocking => LOCK_NB,
        }
    }
}

/// The flag word of one acquisition: exactly one kind bit, joined with
/// the mode's bit.
pub open spec fn spec_acquire_flags(kind: LockType, mode: BlockMode) -> i32 {
    kind.spec_flock_flag() | mode.spec_flock_flag()
}

pub fn acquire_flags(kind: LockType, mode: BlockMode) -> (flags: i32)
    ensures
        flags == spec_acquire_flags(kind, mode),
{
    kind.to_flock_flag() | mode.to_flock_flag()
}

/// The flag word of a release: the fixed unlock bit alone, never combined
/// with a kind or mode.
pub fn release_flags() -> (flags: i32)
    ensures
        flags == LOCK_UN,
{
    LOCK_UN
}

} // verus!
