//! An `#[init]` handler with the wrong return type.
use vstd::prelude::*;

verus! {

/// The context the macro hands to `init`.
pub struct Context {}

/// The `#[init]` handler: it returns `0`, where `init` must return the
/// shared and local resources.
pub fn init(_cx: Context) -> (res: u32)
    ensures
        res == 0,
{
    0
}

} // verus!
