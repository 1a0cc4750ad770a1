//! An `#[init]` handler that takes an argument besides its context.
use vstd::prelude::*;

verus! {

/// The `#[shared]` resources of the application: none.
pub struct Shared {}

/// The `#[local]` resources of the application: none.
pub struct Local {}

/// The context the macro hands to `init`.
pub struct Context {}

/// The `#[init]` handler: it takes `_undef` besides its context, where
/// `init` takes its context alone.
pub fn init(_cx: Context, _undef: u32) -> (res: (Shared, Local))
    ensures
        res == (Shared {}, Local {}),
{
    (Shared {}, Local {})
}

} // verus!
