//! Advisory whole-file locking, verified.
//!
//! The library covers everything about a lock request that can be decided
//! without talking to the operating system: how a request (lock kind and
//! blocking mode) is encoded as the flag word of the native locking call,
//! how the call's return value is normalized into a uniform result, and
//! what the OS-resident lock state guarantees to cooperating holders.
//! The native call itself is a single syscall performed by the thin
//! unverified shell around this crate.

pub mod flags;
pub mod outcome;
pub mod protocol;

pub use crate::flags::BlockMode;
pub use crate::flags::LockType;
pub use crate::flags::acquire_flags;
pub use crate::flags::release_flags;
pub use crate::outcome::NativeLockFailure;
pub use crate::outcome::flock_outcome;
pub use crate::protocol::LockState;
