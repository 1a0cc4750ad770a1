//! The code that runs before `#[init]`.
use vstd::prelude::*;

use crate::analyze::Analysis;
use crate::backend_traits::{CorePassBackend, SwPassBackend};
use crate::syntax::App;
use crate::text::{opt_seq, views};
use crate::BackendBindings;

verus! {

/// The statement that disables interrupts.
pub open spec fn disable_interrupts_stmt() -> Seq<char> {
    "rtic::export::interrupt::disable();"@
}

/// The statement that takes the core peripherals.
pub open spec fn steal_core_peripherals_stmt() -> Seq<char> {
    "let mut core: rtic::export::Peripherals = rtic::export::Peripherals::steal().into();"@
}

/// The statements that run before `#[init]`: interrupts are disabled first,
/// then the core peripherals are taken if the application asks for them,
/// then comes the backend's own set-up.
pub open spec fn pre_init_stmts<C: CorePassBackend, S: SwPassBackend>(
    app: App,
    analysis: Analysis,
    bindings: BackendBindings<C, S>,
) -> Seq<Seq<char>> {
    seq![disable_interrupts_stmt()] + (if app.core {
        seq![steal_core_peripherals_stmt()]
    } else {
        Seq::empty()
    }) + opt_seq(bindings.core.spec_pre_init(app, analysis))
}

/// The core peripherals are taken exactly when the application asks for them,
/// whatever resources it declares: interrupts are disabled first; with `core`
/// set the peripherals are taken right after that, and without it nothing but
/// the backend's set-up follows; the backend's set-up, when it has one, comes
/// last.
pub proof fn core_peripherals_taken_when_asked<C: CorePassBackend, S: SwPassBackend>(
    app: App,
    analysis: Analysis,
    bindings: BackendBindings<C, S>,
)
    ensures
        ({
            let stmts = pre_init_stmts(app, analysis, bindings);
            let backend = bindings.core.spec_pre_init(app, analysis);
            &&& stmts.len() == 1 + (if app.core {
                1int
            } else {
                0int
            }) + (if backend is Some {
                1int
            } else {
                0int
            })
            &&& stmts[0] == disable_interrupts_stmt()
            &&& app.core ==> stmts[1] == steal_core_peripherals_stmt()
            &&& !app.core ==> stmts.drop_first() == opt_seq(backend)
            &&& backend matches Some(code) ==> stmts.last() == code
        }),
{
}

/// Generates the statements that run before `#[init]`.
pub fn codegen<C: CorePassBackend, S: SwPassBackend>(
    app: &App,
    analysis: &Analysis,
    bindings: &BackendBindings<C, S>,
) -> (stmts: Vec<String>)
    ensures
        views(stmts@) == pre_init_stmts(*app, *analysis, *bindings),
{
    let mut stmts: Vec<String> = Vec::new();
    stmts.push(String::from_str("rtic::export::interrupt::disable();"));
    if app.core {
        stmts.push(
            String::from_str(
                "let mut core: rtic::export::Peripherals = rtic::export::Peripherals::steal().into();",
            ),
        );
    }
    let backend = bindings.core.pre_init(app, analysis);
    match backend {
        Some(code) => {
            stmts.push(code);
        },
        None => {},
    }
    assert(views(stmts@) =~= pre_init_stmts(*app, *analysis, *bindings));
    stmts
}

} // verus!
