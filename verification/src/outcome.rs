//! Normalization of the native call's return value into a uniform result.

use vstd::prelude::*;

verus! {

/// The one failure this library reports: the OS rejected the native
/// locking call. `code` is the errno-like value the OS left behind,
/// carried uninterpreted.
#[derive(Clone, Copy, Debug, PartialEq, Eq, Structural)]
pub struct NativeLockFailure {
    pub code: i32,
}

/// Reads the outcome of the POSIX whole-file locking call: a negative
/// return value means the call failed and `errno` (the error state read
/// right after the call) says why; zero or positive means it succeeded.
pub fn flock_outcome(ret: i32, errno: i32) -> (r: Result<(), NativeLockFailure>)
    ensures
        r is Ok <==> ret >= 0,
        r is Err ==> r->Err_0.code == errno,
{
    if ret < 0 {
        Err(NativeLockFailure { code: errno })
    } else {
        Ok(())
    }
}

} // verus!
