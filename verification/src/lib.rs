//! Code generation core of the RTIC application macro.
pub mod analyze;
pub mod backend;
pub mod backend_traits;
pub mod codegen;
pub mod export;
pub mod out_dir;
pub mod outside;
pub mod syntax;
pub mod text;
pub mod ui;

use vstd::prelude::*;

use analyze::Analysis;
use backend_traits::{CorePassBackend, SwPassBackend};
use codegen::{app_text, Sections};
use outside::{compile_error_tokens, lex_tokens, LexedTokens, RenderedError};
use syntax::{App, SyntaxAnalysis};

verus! {

/// The backend of a distribution: the hooks of its core pass and of its
/// software pass.
pub struct BackendBindings<C: CorePassBackend, S: SwPassBackend> {
    /// The hooks of the core pass.
    pub core: C,
    /// The hooks of the software pass.
    pub sw: S,
}

impl<C: CorePassBackend, S: SwPassBackend> BackendBindings<C, S> {
    /// Binds the two passes of a backend together.
    pub fn new(core: C, sw: S) -> (res: Self)
        ensures
            res.core == core,
            res.sw == sw,
    {
        Self { core, sw }
    }
}


/// What the application macro expands to.
pub enum Expansion {
    /// The macro's input is rejected with this error.
    Error(syn::Error),
    /// The macro expands to this source text.
    Code(String),
}

/// The tokens of an expansion: its error rendered, or its code lexed.
pub enum ExpansionTokens {
    /// The error of an `Expansion::Error`, rendered.
    Rendered(RenderedError),
    /// The code of an `Expansion::Code`, lexed.
    Lexed(LexedTokens),
}

impl ExpansionTokens {
    /// The tokens, or the error of lexing the generated code.
    pub fn into_result(self) -> (res: Result<proc_macro2::TokenStream, proc_macro2::LexError>)
        ensures
            match self {
                ExpansionTokens::Rendered(r) => res == Ok::<
                    proc_macro2::TokenStream,
                    proc_macro2::LexError,
                >(r.tokens()),
                ExpansionTokens::Lexed(l) => res == l.tokens(),
            },
    {
        match self {
            ExpansionTokens::Rendered(r) => Ok(r.into_tokens()),
            ExpansionTokens::Lexed(l) => l.into_result(),
        }
    }
}

impl Expansion {
    /// The tokens of the expansion: the error rendered as `compile_error!`
    /// invocations, or the generated text lexed.
    pub fn into_token_stream(self) -> (res: ExpansionTokens)
        ensures
            match self {
                Expansion::Error(e) => res matches ExpansionTokens::Rendered(r) && r.error() == e,
                Expansion::Code(t) => res matches ExpansionTokens::Lexed(l) && l.source() == t@,
            },
    {
        match self {
            Expansion::Error(e) => ExpansionTokens::Rendered(compile_error_tokens(&e)),
            Expansion::Code(text) => ExpansionTokens::Lexed(lex_tokens(text.as_str())),
        }
    }
}

/// The application once the backend has processed it (core pass first, then
/// software pass) and both passes have validated it, or the first error.
pub open spec fn processed_app<C: CorePassBackend, S: SwPassBackend>(
    bindings: BackendBindings<C, S>,
    app: App,
    analysis: SyntaxAnalysis,
) -> Result<App, syn::Error> {
    match bindings.core.spec_pre_codegen_processing(app, analysis) {
        Err(e) => Err(e),
        Ok(after_core) => match bindings.sw.spec_pre_codegen_processing(after_core, analysis) {
            Err(e) => Err(e),
            Ok(after_sw) => match bindings.core.spec_pre_codgen_validation(after_sw, analysis) {
                Err(e) => Err(e),
                Ok(_) => match bindings.sw.spec_pre_codgen_validation(after_sw, analysis) {
                    Err(e) => Err(e),
                    Ok(_) => Ok(after_sw),
                },
            },
        },
    }
}

/// Both passes process the application before either validates it: the core
/// pass processes it first and the software pass processes what the core pass
/// left; both validations then see the application as the software pass left
/// it, the core pass's first. The first error is the answer; with none, the
/// answer is the application as the software pass left it.
pub proof fn validation_follows_processing<C: CorePassBackend, S: SwPassBackend>(
    bindings: BackendBindings<C, S>,
    app: App,
    analysis: SyntaxAnalysis,
)
    ensures
        bindings.core.spec_pre_codegen_processing(app, analysis) matches Err(e) ==> processed_app(
            bindings,
            app,
            analysis,
        ) == Err::<App, syn::Error>(e),
        bindings.core.spec_pre_codegen_processing(app, analysis) matches Ok(after_core)
            ==> match bindings.sw.spec_pre_codegen_processing(after_core, analysis) {
            Err(e) => processed_app(bindings, app, analysis) == Err::<App, syn::Error>(e),
            Ok(after_sw) => {
                &&& bindings.core.spec_pre_codgen_validation(after_sw, analysis) matches Err(e)
                    ==> processed_app(bindings, app, analysis) == Err::<App, syn::Error>(e)
                &&& bindings.core.spec_pre_codgen_validation(after_sw, analysis) is Ok
                    ==> processed_app(bindings, app, analysis) == match bindings.sw.spec_pre_codgen_validation(
                    after_sw,
                    analysis,
                ) {
                    Err(e) => Err::<App, syn::Error>(e),
                    Ok(_) => Ok(after_sw),
                }
            },
        },
{
}

/// Runs the backend's processing and validation on a parsed application.
pub fn prepare_app<C: CorePassBackend, S: SwPassBackend>(
    app: App,
    analysis: &SyntaxAnalysis,
    bindings: &BackendBindings<C, S>,
) -> (res: Result<App, syn::Error>)
    ensures
        res == processed_app(*bindings, app, *analysis),
        bindings.core.spec_pre_codegen_processing(app, *analysis) matches Err(e) ==> res == Err::<
            App,
            syn::Error,
        >(e),
        bindings.core.spec_pre_codegen_processing(app, *analysis) matches Ok(after_core)
            ==> match bindings.sw.spec_pre_codegen_processing(after_core, *analysis) {
            Err(e) => res == Err::<App, syn::Error>(e),
            Ok(after_sw) => match bindings.core.spec_pre_codgen_validation(after_sw, *analysis) {
                Err(e) => res == Err::<App, syn::Error>(e),
                Ok(_) => match bindings.sw.spec_pre_codgen_validation(after_sw, *analysis) {
                    Err(e) => res == Err::<App, syn::Error>(e),
                    Ok(_) => res == Ok::<App, syn::Error>(after_sw),
                },
            },
        },
{
    let mut app = app;
    // Modify app based on backend before continuing
    match bindings.core.pre_codegen_processing(&mut app, analysis) {
        Err(e) => return Err(e),
        Ok(_) => {},
    }
    match bindings.sw.pre_codegen_processing(&mut app, analysis) {
        Err(e) => return Err(e),
        Ok(_) => {},
    }
    // App is not mutable after this point
    let app = app;
    // Pre-codegen validation
    match bindings.core.pre_codgen_validation(&app, analysis) {
        Err(e) => return Err(e),
        Ok(_) => {},
    }
    match bindings.sw.pre_codgen_validation(&app, analysis) {
        Err(e) => return Err(e),
        Ok(_) => {},
    }
    Ok(app)
}

/// Expands an application for the mock macro used in tests: the parse error,
/// or an empty `main`.
pub fn run_mock_app(parsed: Result<(App, SyntaxAnalysis), syn::Error>) -> (res: Expansion)
    ensures
        match parsed {
            Err(e) => res == Expansion::Error(e),
            Ok(_) => res matches Expansion::Code(text) && text@ == "fn main() {}"@,
        },
{
    match parsed {
        Err(e) => Expansion::Error(e),
        Ok(_) => Expansion::Code(String::from_str("fn main() {}")),
    }
}

/// Expands an RTIC application: the backend processes and validates the
/// parsed application, `analyze` analyses the result, `generate` generates
/// its sections, and the application module is assembled from them. The
/// first error stops the expansion and is what the macro expands to.
pub fn run_macro<C, S, A, G>(
    parsed: Result<(App, SyntaxAnalysis), syn::Error>,
    bindings: &BackendBindings<C, S>,
    analyze: A,
    generate: G,
) -> (res: Expansion) where
    C: CorePassBackend,
    S: SwPassBackend,
    A: Fn(SyntaxAnalysis, &App) -> Analysis,
    G: Fn(&App, &Analysis) -> Sections,

    requires
        forall|a: SyntaxAnalysis, app: &App| analyze.requires((a, app)),
        forall|app: &App, a: &Analysis| generate.requires((app, a)),
    ensures
        match parsed {
            Err(e) => res == Expansion::Error(e),
            Ok((app, syntax_analysis)) => match processed_app(*bindings, app, syntax_analysis) {
                Err(e) => res == Expansion::Error(e),
                Ok(ready) => exists|analysis: Analysis, sections: Sections|
                    {
                        &&& analyze.ensures((syntax_analysis, &ready), analysis)
                        &&& generate.ensures((&ready, &analysis), sections)
                        &&& res matches Expansion::Code(text) && text@ == app_text(
                            ready,
                            bindings.sw.spec_async_prio_limit(ready, analysis),
                            sections,
                        )
                    },
            },
        },
{
    let (app, syntax_analysis) = match parsed {
        Err(e) => return Expansion::Error(e),
        Ok(x) => x,
    };
    let app = match prepare_app(app, &syntax_analysis, bindings) {
        Err(e) => return Expansion::Error(e),
        Ok(app) => app,
    };
    let analysis = analyze(syntax_analysis, &app);
    let sections = generate(&app, &analysis);
    let text = codegen::app(&app, &analysis, bindings, &sections);
    Expansion::Code(text)
}

} // verus!
