//! Diagnostics the pass emits. All are recoverable: the pass records
//! them and continues with its best-effort rewrite.

use vstd::prelude::*;
use crate::ast::Span;

verus! {

/// The kinds of misuse the pass reports.
#[derive(Debug, PartialEq, Eq)]
pub enum DiagKind {
    /// `"use server"` present while the feature is disabled.
    FeatureDisabled,
    /// An inline `"use server"` function on the client layer outside a
    /// server-action file.
    InlineUseServerInClient,
    /// An inline `"use cache"` function on the client layer outside a
    /// cache file.
    InlineUseCacheInClient,
    /// `"use server"` after a non-directive module item.
    ServerDirectiveNotTopOfFile,
    /// `"use cache"` after a non-directive module item.
    CacheDirectiveNotTopOfFile,
    /// `"use server"` after a non-directive statement in a function body.
    ServerDirectiveNotTopOfFn,
    /// `"use cache"` after a non-directive statement in a function body.
    CacheDirectiveNotTopOfFn,
    /// `("use server")` at directive position.
    ServerDirectiveParens,
    /// `("use cache")` at directive position.
    CacheDirectiveParens,
    /// `("use server")` after a non-directive module item.
    ServerDirectiveParensNotTop,
    /// `("use cache")` after a non-directive module item.
    CacheDirectiveParensNotTop,
    /// A string one edit away from `"use server"` at directive position.
    ServerDirectiveTypo { value: String },
    /// A string one edit away from `"use cache"` at directive position.
    CacheDirectiveTypo { value: String },
    /// A function marked as an action is not `async`.
    ActionNotAsync,
    /// An arrow marked as an action or cache function is not `async`.
    ArrowNotAsync,
    /// A function marked as a cache function is not `async`.
    CacheNotAsync,
    /// An export an action or cache file does not allow.
    DisallowedExport,
}

/// One reported problem, attached to the span of the offending node.
#[derive(Debug, PartialEq, Eq)]
pub struct Diag {
    pub span: Span,
    pub kind: DiagKind,
}


/// The message text of a diagnostic.
pub open spec fn message_chars(d: Diag) -> Seq<char> {
    match d.kind {
        DiagKind::FeatureDisabled => "To use Server Actions, please enable the feature flag in your Next.js config."@,
        DiagKind::InlineUseServerInClient => "It is not allowed to define inline \"use server\" annotated Server Actions in Client Components."@,
        DiagKind::InlineUseCacheInClient => "It is not allowed to define inline \"use cache\" annotated Cache Functions in Client Components."@,
        DiagKind::ServerDirectiveNotTopOfFile => "The \"use server\" directive must be at the top of the file."@,
        DiagKind::CacheDirectiveNotTopOfFile => "The \"use cache\" directive must be at the top of the file."@,
        DiagKind::ServerDirectiveNotTopOfFn => "The \"use server\" directive must be at the top of the function body."@,
        DiagKind::CacheDirectiveNotTopOfFn => "The \"use cache\" directive must be at the top of the function body."@,
        DiagKind::ServerDirectiveParens => "The \"use server\" directive cannot be wrapped in parentheses."@,
        DiagKind::CacheDirectiveParens => "The \"use cache\" directive cannot be wrapped in parentheses."@,
        DiagKind::ServerDirectiveParensNotTop => "The \"use server\" directive must be at the top of the file, and cannot be wrapped in parentheses."@,
        DiagKind::CacheDirectiveParensNotTop => "The \"use cache\" directive must be at the top of the file, and cannot be wrapped in parentheses."@,
        DiagKind::ServerDirectiveTypo { value } => "Did you mean \"use server\"? \""@ + value@
            + "\" is not a supported directive name."@,
        DiagKind::CacheDirectiveTypo { value } => "Did you mean \"use cache\"? \""@ + value@
            + "\" is not a supported directive name."@,
        DiagKind::ActionNotAsync => "Server actions must be async functions"@,
        DiagKind::ArrowNotAsync => "Server Actions must be async functions"@,
        DiagKind::CacheNotAsync => "Cache functions must be async functions"@,
        DiagKind::DisallowedExport => "Only async functions are allowed to be exported in a \"use server\" file."@,
    }
}

impl Diag {
    /// Renders the message text of this diagnostic.
    pub fn message(&self) -> (r: String)
        ensures
            r@ == message_chars(*self),
    {
        match &self.kind {
            DiagKind::FeatureDisabled => String::from_str("To use Server Actions, please enable the feature flag in your Next.js config."),
            DiagKind::InlineUseServerInClient => String::from_str("It is not allowed to define inline \"use server\" annotated Server Actions in Client Components."),
            DiagKind::InlineUseCacheInClient => String::from_str("It is not allowed to define inline \"use cache\" annotated Cache Functions in Client Components."),
            DiagKind::ServerDirectiveNotTopOfFile => String::from_str("The \"use server\" directive must be at the top of the file."),
            DiagKind::CacheDirectiveNotTopOfFile => String::from_str("The \"use cache\" directive must be at the top of the file."),
            DiagKind::ServerDirectiveNotTopOfFn => String::from_str("The \"use server\" directive must be at the top of the function body."),
            DiagKind::CacheDirectiveNotTopOfFn => String::from_str("The \"use cache\" directive must be at the top of the function body."),
            DiagKind::ServerDirectiveParens => String::from_str("The \"use server\" directive cannot be wrapped in parentheses."),
            DiagKind::CacheDirectiveParens => String::from_str("The \"use cache\" directive cannot be wrapped in parentheses."),
            DiagKind::ServerDirectiveParensNotTop => String::from_str("The \"use server\" directive must be at the top of the file, and cannot be wrapped in parentheses."),
            DiagKind::CacheDirectiveParensNotTop => String::from_str("The \"use cache\" directive must be at the top of the file, and cannot be wrapped in parentheses."),
            DiagKind::ServerDirectiveTypo { value } => {
                let mut s = String::from_str("Did you mean \"use server\"? \"");
                s.append(value.as_str());
                s.append("\" is not a supported directive name.");
                s
            },
            DiagKind::CacheDirectiveTypo { value } => {
                let mut s = String::from_str("Did you mean \"use cache\"? \"");
                s.append(value.as_str());
                s.append("\" is not a supported directive name.");
                s
            },
            DiagKind::ActionNotAsync => String::from_str("Server actions must be async functions"),
            DiagKind::ArrowNotAsync => String::from_str("Server Actions must be async functions"),
            DiagKind::CacheNotAsync => String::from_str("Cache functions must be async functions"),
            DiagKind::DisallowedExport => String::from_str("Only async functions are allowed to be exported in a \"use server\" file."),
        }
    }
}

} // verus!
