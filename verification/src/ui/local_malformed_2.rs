//! An application whose async task declares a local resource without an
//! initial value (`#[task(local = [a: u32])]`).
use vstd::prelude::*;

verus! {

/// The `#[shared]` resources of the application: none.
pub struct Shared {}

/// The `#[local]` resources of the application: none.
pub struct Local {}

/// The context the macro hands to `init`.
pub struct Context {}

/// The `#[init]` handler: it returns the (empty) shared and local
/// resources.
pub fn init(_cx: Context) -> (res: (Shared, Local))
    ensures
        res == (Shared {}, Local {}),
{
    (Shared {}, Local {})
}

} // verus!
