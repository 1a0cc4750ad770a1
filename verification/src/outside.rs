//! The types and functions of outside crates that the library uses.
use vstd::prelude::*;

use crate::out_dir::{
    is_root_only, occurs_at, path_components, plain_last, plain_parent, plain_path, portable_path,
    segment_start,
};
use crate::text::opt_view;

verus! {

/// `syn::Error`: an error with a message and the source span it points at.
#[verifier::external_type_specification]
#[verifier::external_body]
pub struct ExSynError(syn::Error);

/// `proc_macro2::TokenStream`: a sequence of Rust tokens.
#[verifier::external_type_specification]
#[verifier::external_body]
pub struct ExTokenStream(proc_macro2::TokenStream);

/// `proc_macro2::LexError`: the error of turning text into tokens.
#[verifier::external_type_specification]
#[verifier::external_body]
pub struct ExLexError(proc_macro2::LexError);

/// An error rendered as tokens, together with the error it was made from.
pub struct RenderedError {
    /// The error that was rendered.
    error: Ghost<syn::Error>,
    /// The `compile_error!` invocations.
    tokens: proc_macro2::TokenStream,
}

impl RenderedError {
    /// The error that was rendered.
    pub closed spec fn error(&self) -> syn::Error {
        self.error@
    }

    /// The `compile_error!` invocations.
    pub closed spec fn tokens(&self) -> proc_macro2::TokenStream {
        self.tokens
    }

    /// The `compile_error!` invocations.
    pub fn into_tokens(self) -> (res: proc_macro2::TokenStream)
        ensures
            res == self.tokens(),
    {
        self.tokens
    }
}

/// Text handed to the lexer, together with what the lexer made of it.
pub struct LexedTokens {
    /// The text that was lexed.
    source: Ghost<Seq<char>>,
    /// Its tokens, or the error of lexing it.
    tokens: Result<proc_macro2::TokenStream, proc_macro2::LexError>,
}

impl LexedTokens {
    /// The text that was lexed.
    pub closed spec fn source(&self) -> Seq<char> {
        self.source@
    }

    /// Its tokens, or the error of lexing it.
    pub closed spec fn tokens(&self) -> Result<proc_macro2::TokenStream, proc_macro2::LexError> {
        self.tokens
    }

    /// Its tokens, or the error of lexing it.
    pub fn into_result(self) -> (res: Result<proc_macro2::TokenStream, proc_macro2::LexError>)
        ensures
            res == self.tokens(),
    {
        self.tokens
    }
}

/// Calls `syn::Error::to_compile_error` on `err`, which renders it as
/// `::core::compile_error!` invocations at its spans, and keeps `err` as
/// the error rendered. Nothing is stated of the tokens: their spans are not
/// visible here.
#[verifier::external_body]
pub(crate) fn compile_error_tokens(err: &syn::Error) -> (res: RenderedError)
    ensures
        res.error() == *err,
{
    RenderedError { error: Ghost(*err), tokens: err.to_compile_error() }
}

/// Calls `<proc_macro2::TokenStream as FromStr>::from_str` on `text`, and
/// keeps `text` as the text lexed. Whether the text lexes is left unsaid:
/// inside a procedural macro the compiler's lexer decides it, elsewhere
/// proc-macro2's own.
#[verifier::external_body]
pub(crate) fn lex_tokens(text: &str) -> (res: LexedTokens)
    ensures
        res.source() == text@,
{
    LexedTokens {
        source: Ghost(text@),
        tokens: <proc_macro2::TokenStream as std::str::FromStr>::from_str(text),
    }
}

/// Calls `std::path::Path::parent` on `path` and gives the parent back as a
/// string. The documentation says the parent is `path` without its final
/// component (a shorter prefix), `""` for a relative path of one component,
/// and none for a root or the empty path. What counts as a separator beyond
/// `/` is the platform's, so the parent's text is stated for plain paths
/// only, and its components (those of `path` but the last, as the
/// documentation of `Path::components` normalizes them) for portable paths.
#[verifier::external_body]
pub(crate) fn path_parent(path: &str) -> (res: Option<String>)
    ensures
        res matches Some(p) ==> p@.len() < path@.len() && p@.is_prefix_of(path@),
        plain_path(path@) ==> opt_view(res) == Some(plain_parent(path@)),
        path@.len() == 0 ==> res is None,
        path@ == seq!['/'] ==> res is None,
        portable_path(path@) ==> (res is None <==> path_components(path@).len() == 0
            || is_root_only(path_components(path@))),
        portable_path(path@) ==> (res matches Some(p) ==> path_components(p@) == path_components(
            path@,
        ).drop_last()),
{
    match std::path::Path::new(path).parent() {
        Some(p) => Some(p.to_string_lossy().into_owned()),
        None => None,
    }
}

/// Calls `std::path::Path::components` on `path` and gives the last
/// component back as a string: the last segment of a plain path, none for
/// the empty path, and the root (one separator character) for `/`. In any
/// path, a component longer than `..` is a drive prefix or a normal
/// component, a slice of `path` that starts where a component may start. Of
/// a portable path it is the last of the components that the documentation
/// of `Path::components` describes (the root, of one separator character,
/// when that is all).
/// How other paths split into components is the platform's and is left
/// unsaid.
#[verifier::external_body]
pub(crate) fn path_last_component(path: &str) -> (res: Option<String>)
    ensures
        plain_path(path@) ==> opt_view(res) == Some(plain_last(path@)),
        path@.len() == 0 ==> res is None,
        path@ == seq!['/'] ==> res is Some && res->0@.len() == 1,
        res matches Some(c) ==> c@.len() <= 2 || exists|i: int|
            segment_start(path@, i) && occurs_at(c@, path@, i),
        portable_path(path@) && path_components(path@).len() == 0 ==> res is None,
        portable_path(path@) && path_components(path@).len() > 0 && !is_root_only(
            path_components(path@),
        ) ==> opt_view(res) == Some(path_components(path@).last()),
        portable_path(path@) && is_root_only(path_components(path@)) ==> res is Some
            && res->0@.len() == 1,
{
    match std::path::Path::new(path).components().last() {
        Some(c) => Some(c.as_os_str().to_string_lossy().into_owned()),
        None => None,
    }
}

} // verus!
