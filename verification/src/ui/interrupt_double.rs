//! Two hardware tasks bound to the same interrupt (`#[task(binds = UART0)]`).
use vstd::prelude::*;

verus! {

/// The context the macro hands to a hardware task.
pub struct Context {}

/// The first task bound to `UART0`: it does nothing.
pub fn foo(_cx: Context) {
}

/// The second task bound to `UART0`: it does nothing.
pub fn bar(_cx: Context) {
}

} // verus!
