use rtic_macros::analyze::Analysis;
use rtic_macros::backend::{interrupt_ident, CortexCorePass, CortexSwPass};
use rtic_macros::backend_traits::{CorePassBackend, RticBackendBase, SwPassBackend};
use rtic_macros::export::{assert_send, assert_sync};
use rtic_macros::out_dir::{ancestors, expansion_file, is_target, output_dir, select_output_dir, Ancestor};
use rtic_macros::syntax::{App, SyntaxAnalysis};
use rtic_macros::text::{contains_name, has_prefix, push_spaced};
use rtic_macros::ui::{
    idle_output, init_double_local, init_input, init_output, interrupt_double, local_malformed_2,
};

fn s(text: &str) -> String {
    text.to_string()
}

fn mock_app() -> App {
    App {
        name: s("app"),
        device: s("lm3s6965"),
        core: true,
        shared_resources: vec![],
        local_resources: vec![],
        user_imports: vec![],
        user_code: vec![],
    }
}

#[test]
fn expansion_goes_to_target_when_it_exists() {
    assert_eq!(expansion_file(true, "/p/target/thumbv7em-none-eabihf/debug/build/rtic-1/out"), "target/rtic-expansion.rs");
    assert_eq!(output_dir(true, ""), "target");
}

#[test]
fn expansion_goes_next_to_the_thumb_target_dir() {
    assert_eq!(
        expansion_file(false, "/p/target/thumbv7em-none-eabihf/debug/build/rtic-1/out"),
        "/p/target/rtic-expansion.rs"
    );
}

#[test]
fn expansion_goes_next_to_the_riscv_target_dir() {
    assert_eq!(
        output_dir(false, "/work/app/tgt/riscv32imac-unknown-none-elf/release/build/rtic-2/out"),
        "/work/app/tgt"
    );
}

#[test]
fn deepest_target_component_wins() {
    assert_eq!(output_dir(false, "/home/thumbv7/proj/target/riscv32i/debug/out"), "/home/thumbv7/proj/target");
}

#[test]
fn out_dir_itself_without_target_component() {
    assert_eq!(output_dir(false, "/tmp/build/out"), "/tmp/build/out");
    assert_eq!(expansion_file(false, "/tmp/build/out"), "/tmp/build/out/rtic-expansion.rs");
}

#[test]
fn unset_out_dir() {
    assert_eq!(output_dir(false, ""), "");
    assert_eq!(expansion_file(false, ""), "/rtic-expansion.rs");
}

#[test]
fn relative_target_component_without_parent_dir() {
    assert_eq!(output_dir(false, "thumbv6m-none-eabi/debug"), "");
}

#[test]
fn ancestors_of_a_path() {
    let anc = ancestors("/a/b");
    let paths: Vec<&str> = anc.iter().map(|a| a.path.as_str()).collect();
    assert_eq!(paths, vec!["/a/b", "/a", "/"]);
    assert_eq!(anc[0].last_component.as_deref(), Some("b"));
    assert_eq!(anc[0].parent.as_deref(), Some("/a"));
    assert_eq!(anc[2].parent, None);
}

#[test]
fn select_output_dir_picks_first_target_ancestor() {
    let anc = vec![
        Ancestor { path: s("x/thumbv7/y"), last_component: Some(s("y")), parent: Some(s("x/thumbv7")) },
        Ancestor { path: s("x/thumbv7"), last_component: Some(s("thumbv7")), parent: Some(s("x")) },
        Ancestor { path: s("x"), last_component: Some(s("x")), parent: Some(s("")) },
    ];
    assert_eq!(select_output_dir("x/thumbv7/y", &anc), "x");
    let no_parent = vec![Ancestor { path: s("riscv"), last_component: Some(s("riscv")), parent: None }];
    assert_eq!(select_output_dir("riscv", &no_parent), "riscv");
    assert_eq!(select_output_dir("fallback", &vec![]), "fallback");
}

#[test]
fn target_components() {
    assert!(is_target("thumbv7em-none-eabihf"));
    assert!(is_target("riscv32imc-unknown-none-elf"));
    assert!(!is_target("x86_64-unknown-linux-gnu"));
    assert!(!is_target("thumb"));
    assert!(!is_target(""));
}

#[test]
fn text_helpers() {
    assert!(has_prefix("thumbv6m", "thumbv"));
    assert!(has_prefix("abc", ""));
    assert!(!has_prefix("ab", "abc"));
    assert!(!has_prefix("abd", "abc"));
    assert!(contains_name(&vec![s("a"), s("b")], &s("b")));
    assert!(!contains_name(&vec![s("a"), s("b")], &s("c")));
    let mut out = s(">");
    push_spaced(&mut out, &vec![s("x"), s("y")]);
    assert_eq!(out, ">x y ");
}

#[test]
fn template_interrupt_names() {
    assert_eq!(interrupt_ident(), "interrupt");
    assert_eq!(CortexCorePass.interrupt_path(&mock_app()), "lm3s6965::interrupt");
    assert_eq!(CortexSwPass.interrupt_path(&mock_app()), "lm3s6965::interrupt");
}

#[test]
fn template_backend_adds_nothing() {
    let app = mock_app();
    let analysis = Analysis { shared_resources: vec![], local_resources: vec![], max_async_prio: None };
    let syntax = SyntaxAnalysis { shared_resources: vec![], local_resources: vec![] };
    assert_eq!(CortexCorePass.pre_init(&app, &analysis), None);
    assert_eq!(CortexCorePass.post_init(&app, &analysis), None);
    assert_eq!(CortexCorePass.generate_global_definitions(&app, &analysis), None);
    assert!(CortexCorePass.extra_assertions(&app, &syntax).is_empty());
    assert!(CortexCorePass.pre_codgen_validation(&app, &syntax).is_ok());
    assert!(CortexCorePass.interrupt_entry_statements(&app, &analysis, Some(s("UART0"))).is_none());
    assert!(CortexCorePass.interrupt_exit_statements(&app, &analysis, None).is_none());
    assert!(CortexCorePass.interrupt_handler_config(&app, &analysis, &s("UART0")).is_empty());
    assert_eq!(
        CortexCorePass.impl_mutex(&app, &analysis, &vec![], true, &s("r"), &s("u32"), 3, &s("&mut R")),
        ""
    );
    assert_eq!(CortexSwPass.check_stack_overflow_before_init(&app, &syntax), "");
    assert!(CortexSwPass.pre_codgen_validation(&app, &syntax).is_ok());
    let mut processed = mock_app();
    assert!(CortexSwPass.pre_codegen_processing(&mut processed, &syntax).is_ok());
    assert!(CortexCorePass.pre_codegen_processing(&mut processed, &syntax).is_ok());
    assert_eq!(processed.name, "app");
    assert_eq!(CortexCorePass.enable_interrupts(&app), "");
    assert_eq!(CortexSwPass.pend_interrupt(&app, &s("UART0")), "");
}

#[test]
fn mock_application_handlers() {
    assert_eq!(idle_output::idle(idle_output::Context {}), 0);
    assert_eq!(init_output::init(init_output::Context {}), 0);
    init_double_local::init(init_double_local::Context {});
    let (_shared, _local) = init_input::init(init_input::Context {}, 7);
    let (_shared, _local) = local_malformed_2::init(local_malformed_2::Context {});
    interrupt_double::foo(interrupt_double::Context {});
    interrupt_double::bar(interrupt_double::Context {});
}

#[test]
fn marker_assertions() {
    assert_send::<u32>();
    assert_sync::<String>();
}

#[test]
fn plain_out_dir_paths() {
    assert_eq!(output_dir(false, "thumbv7em/out"), "");
    assert_eq!(output_dir(false, "/thumbv7em/out"), "/");
    assert_eq!(output_dir(false, "a/b/c"), "a/b/c");
    assert_eq!(output_dir(false, "/a/riscv64/b/thumbv8m/c"), "/a/riscv64/b");
}

#[test]
fn out_dir_with_irregular_separators() {
    assert_eq!(output_dir(false, "/p//target/thumbv7em-none-eabihf/debug/"), "/p//target");
    assert_eq!(output_dir(false, "/p/./target/thumbv7em-none-eabihf"), "/p/./target");
}

#[test]
fn irregular_out_dir_without_target_is_kept() {
    assert_eq!(output_dir(false, "/tmp/b/out/"), "/tmp/b/out/");
    assert_eq!(output_dir(false, "/tmp/./b/../out"), "/tmp/./b/../out");
    assert_eq!(output_dir(false, "/tmp/athumbv/x"), "/tmp/athumbv/x");
    assert_eq!(expansion_file(false, "/tmp/b/out/"), "/tmp/b/out//rtic-expansion.rs");
}

#[test]
fn irregular_out_dir_with_target_component() {
    assert_eq!(output_dir(false, "/p/target/thumbv7em-none-eabihf/debug/"), "/p/target");
    assert_eq!(output_dir(false, "/p/target/./riscv32imac//debug"), "/p/target");
    assert_eq!(output_dir(false, "/tmp/a:thumbv/x"), "/tmp/a:thumbv/x");
    assert_eq!(output_dir(false, "./thumbv7/x"), ".");
}
