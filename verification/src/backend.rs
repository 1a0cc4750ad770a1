//! The backend of the template distribution: it accepts every application
//! unchanged, and of all its hooks only the software pass's priority limit
//! adds code.
use vstd::prelude::*;

use crate::analyze::Analysis;
use crate::backend_traits::{CorePassBackend, RticBackendBase, SwPassBackend};
use crate::syntax::{App, SyntaxAnalysis};
use crate::text::{decimal, push_decimal, views};
use crate::{processed_app, BackendBindings};

verus! {

/// The core pass of the template distribution.
pub struct CortexCorePass;

/// The software pass of the template distribution.
pub struct CortexSwPass;

/// The name of the interrupt type of the device crate.
pub open spec fn interrupt_name() -> Seq<char> {
    "interrupt"@
}

/// The path of the interrupt type in the device crate of `app`.
pub open spec fn interrupt_path_of(app: App) -> Seq<char> {
    app.device@ + "::"@ + interrupt_name()
}

/// The name of the interrupt type of the device crate.
pub fn interrupt_ident() -> (res: String)
    ensures
        res@ == interrupt_name(),
{
    String::from_str("interrupt")
}

/// The path of the interrupt type in the device crate of `app`.
fn device_interrupt_path(app: &App) -> (res: String)
    ensures
        res@ == interrupt_path_of(*app),
{
    let interrupt = interrupt_ident();
    let mut path = app.device.clone();
    path.append("::");
    path.append(interrupt.as_str());
    path
}

/// The highest priority level async tasks may use: the analysed bound as a
/// `u8` literal, or every level the device's NVIC offers when nothing
/// bounds it.
pub open spec fn max_async_prio_text(app: App, analysis: Analysis) -> Seq<char> {
    match analysis.max_async_prio {
        Some(max) => decimal(max as nat) + "u8"@,
        None => "1 << "@ + app.device@ + "::NVIC_PRIO_BITS"@,
    }
}

/// The item that holds the maximum priority level for async HAL drivers.
pub open spec fn async_prio_limit_item(app: App, analysis: Analysis) -> Seq<char> {
    "#[doc = \" Holds the maximum priority level for use by async HAL drivers.\"] #[no_mangle] static RTIC_ASYNC_MAX_LOGICAL_PRIO: u8 = "@
        + max_async_prio_text(app, analysis) + ";"@
}

impl RticBackendBase for CortexCorePass {
    fn enable_interrupts(&self, app: &App) -> (res: String)
        ensures
            res@ == Seq::<char>::empty(),
    {
        String::new()
    }

    fn disable_interrupts(&self, app: &App) -> (res: String)
        ensures
            res@ == Seq::<char>::empty(),
    {
        String::new()
    }

    fn pend_interrupt(&self, app: &App, handler: &String) -> (res: String)
        ensures
            res@ == Seq::<char>::empty(),
    {
        String::new()
    }

    fn unpend_interrupt(&self, app: &App, handler: &String) -> (res: String)
        ensures
            res@ == Seq::<char>::empty(),
    {
        String::new()
    }

    fn generate_global_definitions(&self, app: &App, analysis: &Analysis) -> (res: Option<String>)
        ensures
            res is None,
    {
        None
    }

    open spec fn spec_pre_codgen_validation(&self, app: App, analysis: SyntaxAnalysis) -> Result<
        (),
        syn::Error,
    > {
        Ok(())
    }

    fn pre_codgen_validation(&self, app: &App, analysis: &SyntaxAnalysis) -> (res: Result<
        (),
        syn::Error,
    >) {
        Ok(())
    }

    open spec fn spec_pre_codegen_processing(&self, app: App, analysis: SyntaxAnalysis) -> Result<
        App,
        syn::Error,
    > {
        Ok(app)
    }

    fn pre_codegen_processing(&self, app: &mut App, analysis: &SyntaxAnalysis) -> (res: Result<
        (),
        syn::Error,
    >) {
        Ok(())
    }

    fn extra_assertions(&self, app: &App, analysis: &SyntaxAnalysis) -> (res: Vec<String>)
        ensures
            res@.len() == 0,
    {
        Vec::new()
    }

    fn interrupt_path(&self, app: &App) -> (res: String)
        ensures
            res@ == interrupt_path_of(*app),
    {
        device_interrupt_path(app)
    }

    fn interrupt_entry_statements(
        &self,
        app: &App,
        analysis: &Analysis,
        handler: Option<String>,
    ) -> (res: Option<String>)
        ensures
            res is None,
    {
        None
    }

    fn interrupt_exit_statements(
        &self,
        app: &App,
        analysis: &Analysis,
        handler: Option<String>,
    ) -> (res: Option<String>)
        ensures
            res is None,
    {
        None
    }

    fn interrupt_handler_config(
        &self,
        app: &App,
        analysis: &Analysis,
        dispatcher_name: &String,
    ) -> (res: Vec<String>)
        ensures
            res@.len() == 0,
    {
        Vec::new()
    }
}

impl CorePassBackend for CortexCorePass {
    open spec fn spec_pre_init(&self, app: App, analysis: Analysis) -> Option<Seq<char>> {
        None
    }

    fn pre_init(&self, app: &App, analysis: &Analysis) -> (res: Option<String>) {
        None
    }

    open spec fn spec_post_init(&self, app: App, analysis: Analysis) -> Option<Seq<char>> {
        None
    }

    fn post_init(&self, app: &App, analysis: &Analysis) -> (res: Option<String>) {
        None
    }

    fn impl_mutex(
        &self,
        app: &App,
        analysis: &Analysis,
        cfgs: &Vec<String>,
        resources_prefix: bool,
        name: &String,
        ty: &String,
        ceiling: u8,
        ptr: &String,
    ) -> (res: String)
        ensures
            res@ == Seq::<char>::empty(),
    {
        String::new()
    }
}

impl RticBackendBase for CortexSwPass {
    fn enable_interrupts(&self, app: &App) -> (res: String)
        ensures
            res@ == Seq::<char>::empty(),
    {
        String::new()
    }

    fn disable_interrupts(&self, app: &App) -> (res: String)
        ensures
            res@ == Seq::<char>::empty(),
    {
        String::new()
    }

    fn pend_interrupt(&self, app: &App, handler: &String) -> (res: String)
        ensures
            res@ == Seq::<char>::empty(),
    {
        String::new()
    }

    fn unpend_interrupt(&self, app: &App, handler: &String) -> (res: String)
        ensures
            res@ == Seq::<char>::empty(),
    {
        String::new()
    }

    fn generate_global_definitions(&self, app: &App, analysis: &Analysis) -> (res: Option<String>)
        ensures
            res is None,
    {
        None
    }

    open spec fn spec_pre_codgen_validation(&self, app: App, analysis: SyntaxAnalysis) -> Result<
        (),
        syn::Error,
    > {
        Ok(())
    }

    fn pre_codgen_validation(&self, app: &App, analysis: &SyntaxAnalysis) -> (res: Result<
        (),
        syn::Error,
    >) {
        Ok(())
    }

    open spec fn spec_pre_codegen_processing(&self, app: App, analysis: SyntaxAnalysis) -> Result<
        App,
        syn::Error,
    > {
        Ok(app)
    }

    fn pre_codegen_processing(&self, app: &mut App, analysis: &SyntaxAnalysis) -> (res: Result<
        (),
        syn::Error,
    >) {
        Ok(())
    }

    fn extra_assertions(&self, app: &App, analysis: &SyntaxAnalysis) -> (res: Vec<String>)
        ensures
            res@.len() == 0,
    {
        Vec::new()
    }

    fn interrupt_path(&self, app: &App) -> (res: String)
        ensures
            res@ == interrupt_path_of(*app),
    {
        device_interrupt_path(app)
    }

    fn interrupt_entry_statements(
        &self,
        app: &App,
        analysis: &Analysis,
        handler: Option<String>,
    ) -> (res: Option<String>)
        ensures
            res is None,
    {
        None
    }

    fn interrupt_exit_statements(
        &self,
        app: &App,
        analysis: &Analysis,
        handler: Option<String>,
    ) -> (res: Option<String>)
        ensures
            res is None,
    {
        None
    }

    fn interrupt_handler_config(
        &self,
        app: &App,
        analysis: &Analysis,
        dispatcher_name: &String,
    ) -> (res: Vec<String>)
        ensures
            res@.len() == 0,
    {
        Vec::new()
    }
}

impl SwPassBackend for CortexSwPass {
    open spec fn spec_async_prio_limit(&self, app: App, analysis: Analysis) -> Seq<Seq<char>> {
        seq![async_prio_limit_item(app, analysis)]
    }

    fn async_prio_limit(&self, app: &App, analysis: &Analysis) -> (res: Vec<String>) {
        let mut item = String::from_str(
            "#[doc = \" Holds the maximum priority level for use by async HAL drivers.\"] #[no_mangle] static RTIC_ASYNC_MAX_LOGICAL_PRIO: u8 = ",
        );
        match analysis.max_async_prio {
            Some(max) => {
                push_decimal(&mut item, max);
                item.append("u8");
            },
            None => {
                // No limit
                item.append("1 << ");
                item.append(app.device.as_str());
                item.append("::NVIC_PRIO_BITS");
            },
        }
        item.append(";");
        assert(item@ =~= async_prio_limit_item(*app, *analysis));
        let res: Vec<String> = vec![item];
        assert(views(res@) =~= seq![async_prio_limit_item(*app, *analysis)]);
        res
    }

    fn check_stack_overflow_before_init(&self, app: &App, analysis: &SyntaxAnalysis) -> (res:
        String)
        ensures
            res@ == Seq::<char>::empty(),
    {
        String::new()
    }
}

/// The template distribution accepts every application and leaves it as it
/// was parsed.
pub proof fn template_backend_keeps_app(app: App, analysis: SyntaxAnalysis)
    ensures
        processed_app(BackendBindings { core: CortexCorePass, sw: CortexSwPass }, app, analysis)
            == Ok::<App, syn::Error>(app),
{
}

} // verus!
