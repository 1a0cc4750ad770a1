//! An `#[idle]` handler that returns instead of diverging.
use vstd::prelude::*;

verus! {

/// The context the macro hands to `idle`.
pub struct Context {}

/// The `#[idle]` handler: it returns `0`, where `idle` must never return.
pub fn idle(_cx: Context) -> (res: u32)
    ensures
        res == 0,
{
    0
}

} // verus!
