//! The interface a distribution implements to bind RTIC to its hardware.
//!
//! Generated code is handed over as Rust source text.
use vstd::prelude::*;

use crate::analyze::Analysis;
use crate::syntax::{App, SyntaxAnalysis};
use crate::text::{opt_view, views};

verus! {

/// Hooks shared by the core pass and the software pass.
pub trait RticBackendBase {
    /// Code that enables interrupts.
    fn enable_interrupts(&self, app: &App) -> String;

    /// Code that disables interrupts.
    fn disable_interrupts(&self, app: &App) -> String;

    /// Code that pends the interrupt of `handler`.
    fn pend_interrupt(&self, app: &App, handler: &String) -> String;

    /// Code that unpends the interrupt of `handler`.
    fn unpend_interrupt(&self, app: &App, handler: &String) -> String;

    /// Global definitions (constants, `use` items, functions) that the
    /// implementation needs in the application's scope.
    fn generate_global_definitions(&self, app: &App, analysis: &Analysis) -> Option<String>;

    /// What `pre_codgen_validation` answers for `app`.
    spec fn spec_pre_codgen_validation(&self, app: App, analysis: SyntaxAnalysis) -> Result<
        (),
        syn::Error,
    >;

    /// Validates the parsed application against what the target supports,
    /// before code generation starts.
    fn pre_codgen_validation(&self, app: &App, analysis: &SyntaxAnalysis) -> (res: Result<
        (),
        syn::Error,
    >)
        ensures
            res == self.spec_pre_codgen_validation(*app, *analysis),
    ;

    /// The application as `pre_codegen_processing` leaves it, or its error.
    spec fn spec_pre_codegen_processing(&self, app: App, analysis: SyntaxAnalysis) -> Result<
        App,
        syn::Error,
    >;

    /// Modifies the application for the target before code generation.
    fn pre_codegen_processing(&self, app: &mut App, analysis: &SyntaxAnalysis) -> (res: Result<
        (),
        syn::Error,
    >)
        ensures
            match self.spec_pre_codegen_processing(*old(app), *analysis) {
                Ok(processed) => res is Ok && *final(app) == processed,
                Err(e) => res == Err::<(), syn::Error>(e),
            },
    ;

    /// Additional compile-time assertions the target needs.
    fn extra_assertions(&self, app: &App, analysis: &SyntaxAnalysis) -> Vec<String>;

    /// Path to the interrupt type.
    fn interrupt_path(&self, app: &App) -> String;

    /// Statements run on entry of the interrupt handler `handler`.
    fn interrupt_entry_statements(
        &self,
        app: &App,
        analysis: &Analysis,
        handler: Option<String>,
    ) -> Option<String>;

    /// Statements run on exit of the interrupt handler `handler`.
    fn interrupt_exit_statements(
        &self,
        app: &App,
        analysis: &Analysis,
        handler: Option<String>,
    ) -> Option<String>;

    /// Attributes put on top of the definition of an interrupt handler.
    fn interrupt_handler_config(
        &self,
        app: &App,
        analysis: &Analysis,
        dispatcher_name: &String,
    ) -> Vec<String>;
}

/// Hooks of the core compilation pass.
pub trait CorePassBackend: RticBackendBase {
    /// What `pre_init` returns for `app`.
    spec fn spec_pre_init(&self, app: App, analysis: Analysis) -> Option<Seq<char>>;

    /// Code run before `#[init]`, with interrupts disabled: enabling the
    /// interrupt lines in use, setting their priorities and the like.
    fn pre_init(&self, app: &App, analysis: &Analysis) -> (res: Option<String>)
        ensures
            opt_view(res) == self.spec_pre_init(*app, *analysis),
    ;

    /// What `post_init` returns for `app`.
    spec fn spec_post_init(&self, app: App, analysis: Analysis) -> Option<Seq<char>>;

    /// Code run after `#[init]` returns and before interrupts are enabled.
    fn post_init(&self, app: &App, analysis: &Analysis) -> (res: Option<String>)
        ensures
            opt_view(res) == self.spec_post_init(*app, *analysis),
    ;

    /// The implementation of the resource proxy `Mutex` of the resource
    /// `name` of type `ty` with priority ceiling `ceiling`, at `ptr`.
    fn impl_mutex(
        &self,
        app: &App,
        analysis: &Analysis,
        cfgs: &Vec<String>,
        resources_prefix: bool,
        name: &String,
        ty: &String,
        ceiling: u8,
        ptr: &String,
    ) -> String;
}

/// Hooks of the software compilation pass.
pub trait SwPassBackend: RticBackendBase {
    /// What `async_prio_limit` returns for `app`.
    spec fn spec_async_prio_limit(&self, app: App, analysis: Analysis) -> Seq<Seq<char>>;

    /// Items that define the maximum priority level of async tasks.
    fn async_prio_limit(&self, app: &App, analysis: &Analysis) -> (res: Vec<String>)
        ensures
            views(res@) == self.spec_async_prio_limit(*app, *analysis),
    ;

    /// Code run before `init` that checks for stack overflow.
    fn check_stack_overflow_before_init(&self, app: &App, analysis: &SyntaxAnalysis) -> String;
}

} // verus!
