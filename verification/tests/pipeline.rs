use proc_macro2::Span;
use rtic_macros::analyze::Analysis;
use rtic_macros::backend::{CortexCorePass, CortexSwPass};
use rtic_macros::backend_traits::{CorePassBackend, RticBackendBase, SwPassBackend};
use rtic_macros::codegen::Sections;
use rtic_macros::syntax::{App, SyntaxAnalysis};
use rtic_macros::{prepare_app, run_macro, run_mock_app, BackendBindings, Expansion};
use vstd::seq::Seq;

fn s(text: &str) -> String {
    text.to_string()
}

fn mock_app() -> App {
    App {
        name: s("app"),
        device: s("mock"),
        core: false,
        shared_resources: vec![],
        local_resources: vec![],
        user_imports: vec![],
        user_code: vec![],
    }
}

fn syntax_analysis() -> SyntaxAnalysis {
    SyntaxAnalysis { shared_resources: vec![], local_resources: vec![] }
}

fn error(message: &str) -> syn::Error {
    syn::Error::new(Span::call_site(), message)
}

/// A backend whose hooks are configured per test.
struct Configurable {
    /// The name `pre_codegen_processing` gives the application, if any.
    rename_to: Option<String>,
    /// The error of `pre_codegen_processing`, if any.
    processing_error: Option<String>,
    /// The error of `pre_codgen_validation`, if any.
    validation_error: Option<String>,
    /// The name the application must have when it is validated, if any.
    expect_name: Option<String>,
}

impl Configurable {
    fn accepting() -> Self {
        Configurable { rename_to: None, processing_error: None, validation_error: None, expect_name: None }
    }
}

impl RticBackendBase for Configurable {
    fn enable_interrupts(&self, _app: &App) -> String {
        String::new()
    }
    fn disable_interrupts(&self, _app: &App) -> String {
        String::new()
    }
    fn pend_interrupt(&self, _app: &App, _handler: &String) -> String {
        String::new()
    }
    fn unpend_interrupt(&self, _app: &App, _handler: &String) -> String {
        String::new()
    }
    fn generate_global_definitions(&self, _app: &App, _analysis: &Analysis) -> Option<String> {
        None
    }
    fn spec_pre_codgen_validation(&self, _app: App, _analysis: SyntaxAnalysis) -> Result<(), syn::Error> {
        panic!("a spec function has no run-time meaning")
    }
    fn pre_codgen_validation(&self, app: &App, _analysis: &SyntaxAnalysis) -> Result<(), syn::Error> {
        if let Some(name) = &self.expect_name {
            if &app.name != name {
                return Err(error("validated before processing"));
            }
        }
        match &self.validation_error {
            Some(message) => Err(error(message)),
            None => Ok(()),
        }
    }
    fn spec_pre_codegen_processing(&self, _app: App, _analysis: SyntaxAnalysis) -> Result<App, syn::Error> {
        panic!("a spec function has no run-time meaning")
    }
    fn pre_codegen_processing(&self, app: &mut App, _analysis: &SyntaxAnalysis) -> Result<(), syn::Error> {
        if let Some(name) = &self.rename_to {
            app.name = name.clone();
        }
        match &self.processing_error {
            Some(message) => Err(error(message)),
            None => Ok(()),
        }
    }
    fn extra_assertions(&self, _app: &App, _analysis: &SyntaxAnalysis) -> Vec<String> {
        vec![]
    }
    fn interrupt_path(&self, app: &App) -> String {
        app.device.clone()
    }
    fn interrupt_entry_statements(&self, _app: &App, _analysis: &Analysis, _handler: Option<String>) -> Option<String> {
        None
    }
    fn interrupt_exit_statements(&self, _app: &App, _analysis: &Analysis, _handler: Option<String>) -> Option<String> {
        None
    }
    fn interrupt_handler_config(&self, _app: &App, _analysis: &Analysis, _dispatcher_name: &String) -> Vec<String> {
        vec![]
    }
}

impl CorePassBackend for Configurable {
    fn spec_pre_init(&self, _app: App, _analysis: Analysis) -> Option<Seq<char>> {
        panic!("a spec function has no run-time meaning")
    }
    fn pre_init(&self, _app: &App, _analysis: &Analysis) -> Option<String> {
        None
    }
    fn spec_post_init(&self, _app: App, _analysis: Analysis) -> Option<Seq<char>> {
        panic!("a spec function has no run-time meaning")
    }
    fn post_init(&self, _app: &App, _analysis: &Analysis) -> Option<String> {
        None
    }
    fn impl_mutex(
        &self,
        _app: &App,
        _analysis: &Analysis,
        _cfgs: &Vec<String>,
        _resources_prefix: bool,
        _name: &String,
        _ty: &String,
        _ceiling: u8,
        _ptr: &String,
    ) -> String {
        String::new()
    }
}

impl SwPassBackend for Configurable {
    fn spec_async_prio_limit(&self, _app: App, _analysis: Analysis) -> Seq<Seq<char>> {
        panic!("a spec function has no run-time meaning")
    }
    fn async_prio_limit(&self, _app: &App, _analysis: &Analysis) -> Vec<String> {
        vec![]
    }
    fn check_stack_overflow_before_init(&self, _app: &App, _analysis: &SyntaxAnalysis) -> String {
        String::new()
    }
}

fn analyze(_analysis: SyntaxAnalysis, _app: &App) -> Analysis {
    Analysis { shared_resources: vec![], local_resources: vec![], max_async_prio: None }
}

fn generate(app: &App, _analysis: &Analysis) -> Sections {
    Sections {
        main: format!("fn main() {{ {}::init(); }}", app.name),
        init: s("fn init() {}"),
        idle: String::new(),
        shared_resources: String::new(),
        local_resources: String::new(),
        hardware_tasks: String::new(),
        software_tasks: String::new(),
        async_dispatchers: String::new(),
    }
}

fn message(expansion: Expansion) -> String {
    match expansion {
        Expansion::Error(e) => e.to_string(),
        Expansion::Code(text) => panic!("expected an error, got {text}"),
    }
}

fn code(expansion: Expansion) -> String {
    match expansion {
        Expansion::Error(e) => panic!("expected code, got the error {e}"),
        Expansion::Code(text) => text,
    }
}

#[test]
fn parse_error_is_the_expansion() {
    let bindings = BackendBindings::new(CortexCorePass, CortexSwPass);
    let out = run_macro(Err(error("expected `fn`")), &bindings, analyze, generate);
    assert_eq!(message(out), "expected `fn`");
}

#[test]
fn template_backend_expands_the_parsed_app() {
    let bindings = BackendBindings::new(CortexCorePass, CortexSwPass);
    let out = code(run_macro(Ok((mock_app(), syntax_analysis())), &bindings, analyze, generate));
    assert_eq!(
        out,
        "#[doc = \" The RTIC application module\"] pub mod app { \
         #[doc = \" Always include the device crate which contains the vector table\"] \
         use mock as you_must_enable_the_rt_feature_for_the_pac_in_your_cargo_toml; \
         #[doc = \" Holds the maximum priority level for use by async HAL drivers.\"] \
         #[no_mangle] static RTIC_ASYNC_MAX_LOGICAL_PRIO: u8 = 1 << mock::NVIC_PRIO_BITS; \
         #[doc = \" User code end\"] fn init() {}       fn main() { app::init(); } }"
    );
}

#[test]
fn template_backend_keeps_the_app() {
    let bindings = BackendBindings::new(CortexCorePass, CortexSwPass);
    let app = prepare_app(mock_app(), &syntax_analysis(), &bindings).unwrap();
    assert_eq!(app.name, "app");
    assert_eq!(app.device, "mock");
}

#[test]
fn core_processing_error_stops_expansion() {
    let mut core = Configurable::accepting();
    core.processing_error = Some(s("core cannot process"));
    let mut sw = Configurable::accepting();
    sw.processing_error = Some(s("sw cannot process"));
    let bindings = BackendBindings::new(core, sw);
    let out = run_macro(Ok((mock_app(), syntax_analysis())), &bindings, analyze, generate);
    assert_eq!(message(out), "core cannot process");
}

#[test]
fn sw_processing_error_stops_expansion() {
    let core = Configurable::accepting();
    let mut sw = Configurable::accepting();
    sw.processing_error = Some(s("sw cannot process"));
    sw.validation_error = Some(s("sw rejects"));
    let bindings = BackendBindings::new(core, sw);
    let out = run_macro(Ok((mock_app(), syntax_analysis())), &bindings, analyze, generate);
    assert_eq!(message(out), "sw cannot process");
}

#[test]
fn core_validation_error_comes_before_sw_validation() {
    let mut core = Configurable::accepting();
    core.validation_error = Some(s("core rejects"));
    let mut sw = Configurable::accepting();
    sw.validation_error = Some(s("sw rejects"));
    let bindings = BackendBindings::new(core, sw);
    let out = run_macro(Ok((mock_app(), syntax_analysis())), &bindings, analyze, generate);
    assert_eq!(message(out), "core rejects");
}

#[test]
fn sw_validation_error_stops_expansion() {
    let core = Configurable::accepting();
    let mut sw = Configurable::accepting();
    sw.validation_error = Some(s("sw rejects"));
    let bindings = BackendBindings::new(core, sw);
    let out = run_macro(Ok((mock_app(), syntax_analysis())), &bindings, analyze, generate);
    assert_eq!(message(out), "sw rejects");
}

#[test]
fn processing_happens_before_validation_and_generation() {
    let mut core = Configurable::accepting();
    core.rename_to = Some(s("renamed"));
    core.expect_name = Some(s("renamed"));
    let mut sw = Configurable::accepting();
    sw.expect_name = Some(s("renamed"));
    let bindings = BackendBindings::new(core, sw);
    let out = code(run_macro(Ok((mock_app(), syntax_analysis())), &bindings, analyze, generate));
    assert!(out.contains("pub mod renamed {"));
    assert!(out.contains("fn main() { renamed::init(); }"));
}

#[test]
fn sw_processing_sees_core_processing() {
    let mut core = Configurable::accepting();
    core.rename_to = Some(s("first"));
    let mut sw = Configurable::accepting();
    sw.rename_to = Some(s("second"));
    let bindings = BackendBindings::new(core, sw);
    let app = prepare_app(mock_app(), &syntax_analysis(), &bindings).unwrap();
    assert_eq!(app.name, "second");
}

#[test]
fn mock_app_expands_to_empty_main() {
    let out = code(run_mock_app(Ok((mock_app(), syntax_analysis()))));
    assert_eq!(out, "fn main() {}");
}

#[test]
fn mock_app_reports_parse_error() {
    let out = run_mock_app(Err(error("this `#[idle]` function must have signature `fn(idle::Context) -> !`")));
    assert_eq!(message(out), "this `#[idle]` function must have signature `fn(idle::Context) -> !`");
}

#[test]
fn expansion_tokens() {
    let tokens = run_mock_app(Ok((mock_app(), syntax_analysis()))).into_token_stream().into_result().unwrap();
    assert_eq!(tokens.to_string(), "fn main () { }");
    let tokens = run_mock_app(Err(error("bad input"))).into_token_stream().into_result().unwrap();
    let text = tokens.to_string();
    assert!(text.contains("compile_error"));
    assert!(text.contains("\"bad input\""));
}

#[test]
fn unlexable_code_is_a_lex_error() {
    assert!(Expansion::Code(s("fn main() {")).into_token_stream().into_result().is_err());
}
