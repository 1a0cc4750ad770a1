//! Items the generated code refers to at run time.
pub use bare_metal::CriticalSection;
pub use portable_atomic as atomic;

use vstd::prelude::*;

verus! {

/// Compiles only when `T` can be sent to another thread.
#[inline(always)]
pub fn assert_send<T: Send>() {
}

/// Compiles only when `T` can be shared between threads.
#[inline(always)]
pub fn assert_sync<T: Sync>() {
}

} // verus!
