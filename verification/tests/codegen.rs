use rtic_macros::analyze::Analysis;
use rtic_macros::backend::{CortexCorePass, CortexSwPass};
use rtic_macros::backend_traits::{CorePassBackend, RticBackendBase, SwPassBackend};
use rtic_macros::codegen::util::{
    rt_err_ident, static_local_resource_ident, static_shared_resource_ident,
};
use rtic_macros::codegen::{app, post_init, pre_init, Sections};
use rtic_macros::syntax::{App, LocalResource, SharedResource, SyntaxAnalysis};
use rtic_macros::BackendBindings;
use vstd::seq::Seq;

fn s(text: &str) -> String {
    text.to_string()
}

fn empty_app(core: bool) -> App {
    App {
        name: s("app"),
        device: s("mock"),
        core,
        shared_resources: vec![],
        local_resources: vec![],
        user_imports: vec![],
        user_code: vec![],
    }
}

fn no_analysis() -> Analysis {
    Analysis { shared_resources: vec![], local_resources: vec![], max_async_prio: None }
}

/// A backend that adds a statement of its own to each hook.
struct Noisy;

impl RticBackendBase for Noisy {
    fn spec_pre_codgen_validation(&self, _app: App, _analysis: SyntaxAnalysis) -> Result<(), syn::Error> {
        panic!("a spec function has no run-time meaning")
    }
    fn spec_pre_codegen_processing(&self, _app: App, _analysis: SyntaxAnalysis) -> Result<App, syn::Error> {
        panic!("a spec function has no run-time meaning")
    }
    fn enable_interrupts(&self, _app: &App) -> String {
        s("enable();")
    }
    fn disable_interrupts(&self, _app: &App) -> String {
        s("disable();")
    }
    fn pend_interrupt(&self, _app: &App, handler: &String) -> String {
        format!("pend({handler});")
    }
    fn unpend_interrupt(&self, _app: &App, handler: &String) -> String {
        format!("unpend({handler});")
    }
    fn generate_global_definitions(&self, _app: &App, _analysis: &Analysis) -> Option<String> {
        None
    }
    fn pre_codgen_validation(&self, _app: &App, _analysis: &SyntaxAnalysis) -> Result<(), syn::Error> {
        Ok(())
    }
    fn pre_codegen_processing(&self, _app: &mut App, _analysis: &SyntaxAnalysis) -> Result<(), syn::Error> {
        Ok(())
    }
    fn extra_assertions(&self, _app: &App, _analysis: &SyntaxAnalysis) -> Vec<String> {
        vec![]
    }
    fn interrupt_path(&self, app: &App) -> String {
        format!("{}::Interrupt", app.device)
    }
    fn interrupt_entry_statements(&self, _app: &App, _analysis: &Analysis, _handler: Option<String>) -> Option<String> {
        None
    }
    fn interrupt_exit_statements(&self, _app: &App, _analysis: &Analysis, _handler: Option<String>) -> Option<String> {
        None
    }
    fn interrupt_handler_config(&self, _app: &App, _analysis: &Analysis, _dispatcher_name: &String) -> Vec<String> {
        vec![]
    }
}

impl CorePassBackend for Noisy {
    fn spec_pre_init(&self, _app: App, _analysis: Analysis) -> Option<Seq<char>> {
        panic!("a spec function has no run-time meaning")
    }
    fn spec_post_init(&self, _app: App, _analysis: Analysis) -> Option<Seq<char>> {
        panic!("a spec function has no run-time meaning")
    }
    fn pre_init(&self, _app: &App, _analysis: &Analysis) -> Option<String> {
        Some(s("setup_nvic();"))
    }
    fn post_init(&self, _app: &App, _analysis: &Analysis) -> Option<String> {
        Some(s("unmask();"))
    }
    fn impl_mutex(
        &self,
        _app: &App,
        _analysis: &Analysis,
        _cfgs: &Vec<String>,
        _resources_prefix: bool,
        _name: &String,
        _ty: &String,
        _ceiling: u8,
        _ptr: &String,
    ) -> String {
        String::new()
    }
}

impl SwPassBackend for Noisy {
    fn spec_async_prio_limit(&self, _app: App, _analysis: Analysis) -> Seq<Seq<char>> {
        panic!("a spec function has no run-time meaning")
    }
    fn async_prio_limit(&self, _app: &App, _analysis: &Analysis) -> Vec<String> {
        vec![s("const LIMIT: u8 = 3;"), s("const OTHER: u8 = 1;")]
    }
    fn check_stack_overflow_before_init(&self, _app: &App, _analysis: &SyntaxAnalysis) -> String {
        String::new()
    }
}

#[test]
fn static_names() {
    assert_eq!(static_shared_resource_ident(&s("counter")), "__rtic_internal_shared_resource_counter");
    assert_eq!(static_local_resource_ident(&s("buf")), "__rtic_internal_local_resource_buf");
    assert_eq!(
        rt_err_ident(),
        "you_must_enable_the_rt_feature_for_the_pac_in_your_cargo_toml"
    );
}

#[test]
fn pre_init_without_core_peripherals() {
    let bindings = BackendBindings::new(CortexCorePass, CortexSwPass);
    let stmts = pre_init::codegen(&empty_app(false), &no_analysis(), &bindings);
    assert_eq!(stmts, vec![s("rtic::export::interrupt::disable();")]);
}

#[test]
fn pre_init_with_core_peripherals() {
    let bindings = BackendBindings::new(CortexCorePass, CortexSwPass);
    let stmts = pre_init::codegen(&empty_app(true), &no_analysis(), &bindings);
    assert_eq!(
        stmts,
        vec![
            s("rtic::export::interrupt::disable();"),
            s("let mut core: rtic::export::Peripherals = rtic::export::Peripherals::steal().into();"),
        ]
    );
}

#[test]
fn pre_init_appends_backend_code() {
    let bindings = BackendBindings::new(Noisy, CortexSwPass);
    let stmts = pre_init::codegen(&empty_app(false), &no_analysis(), &bindings);
    assert_eq!(
        stmts,
        vec![s("rtic::export::interrupt::disable();"), s("setup_nvic();")]
    );
}

fn app_with_resources() -> App {
    App {
        name: s("app"),
        device: s("mock"),
        core: false,
        shared_resources: vec![
            (s("a"), SharedResource { cfgs: vec![] }),
            (s("b"), SharedResource { cfgs: vec![s("#[cfg(feature = \"x\")]")] }),
            (s("c"), SharedResource { cfgs: vec![] }),
        ],
        local_resources: vec![
            (s("l1"), LocalResource { cfgs: vec![] }),
            (s("l2"), LocalResource { cfgs: vec![] }),
        ],
        user_imports: vec![],
        user_code: vec![],
    }
}

#[test]
fn post_init_initializes_live_resources_only() {
    let bindings = BackendBindings::new(CortexCorePass, CortexSwPass);
    let analysis = Analysis {
        shared_resources: vec![s("c"), s("b")],
        local_resources: vec![s("l2")],
        max_async_prio: None,
    };
    let stmts = post_init::codegen(&app_with_resources(), &analysis, &bindings);
    assert_eq!(
        stmts,
        vec![
            s("#[cfg(feature = \"x\")] __rtic_internal_shared_resource_b.get_mut().write(core::mem::MaybeUninit::new(shared_resources.b));"),
            s("__rtic_internal_shared_resource_c.get_mut().write(core::mem::MaybeUninit::new(shared_resources.c));"),
            s("__rtic_internal_local_resource_l2.get_mut().write(core::mem::MaybeUninit::new(local_resources.l2));"),
            s("rtic::export::interrupt::enable();"),
        ]
    );
}

#[test]
fn post_init_backend_code_before_enable() {
    let bindings = BackendBindings::new(Noisy, CortexSwPass);
    let stmts = post_init::codegen(&empty_app(false), &no_analysis(), &bindings);
    assert_eq!(stmts, vec![s("unmask();"), s("rtic::export::interrupt::enable();")]);
}

#[test]
fn live_resource_initialized_before_enable() {
    let bindings = BackendBindings::new(CortexCorePass, CortexSwPass);
    let analysis = Analysis { shared_resources: vec![s("a")], local_resources: vec![s("l1")], max_async_prio: None };
    let stmts = post_init::codegen(&app_with_resources(), &analysis, &bindings);
    let shared = stmts.iter().position(|t| t.contains("shared_resources.a")).unwrap();
    let local = stmts.iter().position(|t| t.contains("local_resources.l1")).unwrap();
    let enable = stmts.iter().position(|t| t == "rtic::export::interrupt::enable();").unwrap();
    assert!(shared < enable && local < enable);
    assert_eq!(enable, stmts.len() - 1);
    assert!(!stmts.iter().any(|t| t.contains("shared_resources.b") || t.contains("local_resources.l2")));
}

#[test]
fn init_between_disable_and_enable() {
    let bindings = BackendBindings::new(Noisy, CortexSwPass);
    let app = app_with_resources();
    let analysis = no_analysis();
    let pre = pre_init::codegen(&app, &analysis, &bindings);
    let post = post_init::codegen(&app, &analysis, &bindings);
    assert_eq!(pre[0], "rtic::export::interrupt::disable();");
    assert_eq!(post[post.len() - 1], "rtic::export::interrupt::enable();");
}

fn sections() -> Sections {
    Sections {
        main: s("fn main() {}"),
        init: s("fn init() {}"),
        idle: s("fn idle() {}"),
        shared_resources: s("static SHARED: u8 = 0;"),
        local_resources: s("static LOCAL: u8 = 0;"),
        hardware_tasks: s("fn hw() {}"),
        software_tasks: s("fn sw() {}"),
        async_dispatchers: s("fn dispatch() {}"),
    }
}

#[test]
fn application_module_layout() {
    let bindings = BackendBindings::new(CortexCorePass, CortexSwPass);
    let mut rtic_app = empty_app(false);
    rtic_app.user_imports = vec![s("use core::mem;")];
    rtic_app.user_code = vec![s("fn helper() {}")];
    let text = app(&rtic_app, &no_analysis(), &bindings, &sections());
    assert_eq!(
        text,
        "#[doc = \" The RTIC application module\"] pub mod app { \
         #[doc = \" Always include the device crate which contains the vector table\"] \
         use mock as you_must_enable_the_rt_feature_for_the_pac_in_your_cargo_toml; \
         #[doc = \" Holds the maximum priority level for use by async HAL drivers.\"] \
         #[no_mangle] static RTIC_ASYNC_MAX_LOGICAL_PRIO: u8 = 1 << mock::NVIC_PRIO_BITS; \
         use core::mem; fn helper() {} #[doc = \" User code end\"] \
         fn init() {} fn idle() {} fn hw() {} fn sw() {} static SHARED: u8 = 0; \
         static LOCAL: u8 = 0; fn dispatch() {} fn main() {} }"
    );
}

#[test]
fn application_module_holds_async_limit() {
    let bindings = BackendBindings::new(CortexCorePass, Noisy);
    let text = app(&empty_app(false), &no_analysis(), &bindings, &sections());
    assert!(text.contains(
        "you_must_enable_the_rt_feature_for_the_pac_in_your_cargo_toml; const LIMIT: u8 = 3; const OTHER: u8 = 1; #[doc = \" User code end\"]"
    ));
}

#[test]
fn application_module_lexes() {
    let bindings = BackendBindings::new(CortexCorePass, CortexSwPass);
    let text = app(&app_with_resources(), &no_analysis(), &bindings, &sections());
    let tokens: proc_macro2::TokenStream = text.parse().unwrap();
    assert!(tokens.to_string().starts_with("# [doc = \" The RTIC application module\"] pub mod app"));
}

#[test]
fn template_async_prio_limit_from_analysis() {
    let bindings = BackendBindings::new(CortexCorePass, CortexSwPass);
    for (max, text) in [(Some(3u8), "3u8"), (Some(0u8), "0u8"), (Some(42u8), "42u8"), (Some(255u8), "255u8"), (None, "1 << mock::NVIC_PRIO_BITS")] {
        let analysis = Analysis { shared_resources: vec![], local_resources: vec![], max_async_prio: max };
        let items = bindings.sw.async_prio_limit(&empty_app(false), &analysis);
        assert_eq!(
            items,
            vec![format!(
                "#[doc = \" Holds the maximum priority level for use by async HAL drivers.\"] #[no_mangle] static RTIC_ASYNC_MAX_LOGICAL_PRIO: u8 = {text};"
            )]
        );
    }
}

#[test]
fn live_resources_initialized_once() {
    let bindings = BackendBindings::new(CortexCorePass, CortexSwPass);
    let analysis = Analysis {
        shared_resources: vec![s("a"), s("b"), s("c")],
        local_resources: vec![s("l1"), s("l2")],
        max_async_prio: None,
    };
    let stmts = post_init::codegen(&app_with_resources(), &analysis, &bindings);
    for field in ["shared_resources.a)", "shared_resources.b)", "shared_resources.c)", "local_resources.l1)", "local_resources.l2)"] {
        assert_eq!(stmts.iter().filter(|t| t.contains(field)).count(), 1);
    }
}
