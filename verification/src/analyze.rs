//! The analysis that drives code generation.
use vstd::prelude::*;

verus! {

/// The result of analysing an application.
pub struct Analysis {
    /// The names of the live shared resources, those that must be initialised.
    pub shared_resources: Vec<String>,
    /// The names of the live local resources, those that must be initialised.
    pub local_resources: Vec<String>,
    /// The highest priority an async task may run at, when the hardware
    /// tasks bound it; `None` when nothing does.
    pub max_async_prio: Option<u8>,
}

} // verus!
