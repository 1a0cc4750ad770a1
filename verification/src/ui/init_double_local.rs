//! An `#[init]` handler whose attribute names `local` twice
//! (`#[init(local = [A], local = [B])]`).
use vstd::prelude::*;

verus! {

/// The context the macro hands to `init`.
pub struct Context {}

/// The `#[init]` handler: it does nothing.
pub fn init(_cx: Context) {
}

} // verus!
