//! The directive scanner: recognizes `"use server"`, `"use cache"` and
//! `"use cache: <kind>"` in the leading run of string-literal expression
//! statements of a module or function body, removes recognized
//! directives, and reports parenthesised, misplaced, or typo'd variants.

use vstd::prelude::*;
use crate::ast::Expr;
use crate::ast::Lit;
use crate::ast::ModuleItem;
use crate::ast::Span;
use crate::ast::Stmt;
use crate::ast::StrLit;
use crate::diag::Diag;
use crate::diag::DiagKind;
use crate::similar::similar_strings;
use crate::strutil::str_eq;
use crate::strutil::str_starts_with;
use vstd::string::StrSliceExecFns;

verus! {

/// The view of an optional owned string.
pub open spec fn opt_str_v(o: Option<String>) -> Option<Seq<char>> {
    match o {
        Some(s) => Some(s@),
        None => None,
    }
}

/// The cache kind a string literal selects: `"use cache"` means the
/// default kind, `"use cache: <kind>"` names one, anything else none.
pub open spec fn cache_kind_of(v: Seq<char>) -> Option<Seq<char>> {
    if v == "use cache"@ {
        Some("default"@)
    } else if v.len() >= "use cache: "@.len() && v.subrange(0, "use cache: "@.len() as int)
        == "use cache: "@ {
        Some(v.skip("use cache: "@.len() as int))
    } else {
        None
    }
}

/// Whether a string is exactly one of the recognized directives.
pub open spec fn is_recognized_directive(v: Seq<char>) -> bool {
    v == "use server"@ || cache_kind_of(v) is Some
}

/// What scanning one module item yields.
pub ghost struct ItemStep {
    /// Whether the item is dropped from the module.
    pub remove: bool,
    /// Whether the item turns the module into an action file.
    pub set_action: bool,
    /// The cache kind the item sets, if any.
    pub cache: Option<Seq<char>>,
    /// Diagnostics the item provokes.
    pub diags: Seq<Diag>,
    /// Whether directive position continues after this item.
    pub next_directive: bool,
}

/// Scanning a bare string-literal expression statement at module level.
pub open spec fn scan_module_str(s: StrLit, enabled: bool, directive: bool) -> ItemStep {
    if s.value@ == "use server"@ {
        if directive {
            ItemStep {
                remove: true,
                set_action: true,
                cache: None,
                diags: if enabled {
                    Seq::empty()
                } else {
                    seq![Diag { span: s.span, kind: DiagKind::FeatureDisabled }]
                },
                next_directive: directive,
            }
        } else {
            ItemStep {
                remove: false,
                set_action: false,
                cache: None,
                diags: seq![Diag { span: s.span, kind: DiagKind::ServerDirectiveNotTopOfFile }],
                next_directive: directive,
            }
        }
    } else if cache_kind_of(s.value@) is Some {
        if directive {
            ItemStep {
                remove: true,
                set_action: false,
                cache: cache_kind_of(s.value@),
                diags: Seq::empty(),
                next_directive: directive,
            }
        } else {
            ItemStep {
                remove: false,
                set_action: false,
                cache: None,
                diags: seq![Diag { span: s.span, kind: DiagKind::CacheDirectiveNotTopOfFile }],
                next_directive: directive,
            }
        }
    } else if directive && similar_strings(s.value@, "use server"@) {
        ItemStep {
            remove: false,
            set_action: false,
            cache: None,
            diags: seq![
                Diag { span: s.span, kind: DiagKind::ServerDirectiveTypo { value: s.value } },
            ],
            next_directive: directive,
        }
    } else if directive && similar_strings(s.value@, "use cache"@) {
        ItemStep {
            remove: false,
            set_action: false,
            cache: None,
            diags: seq![
                Diag { span: s.span, kind: DiagKind::CacheDirectiveTypo { value: s.value } },
            ],
            next_directive: directive,
        }
    } else {
        ItemStep {
            remove: false,
            set_action: false,
            cache: None,
            diags: Seq::empty(),
            next_directive: directive,
        }
    }
}

/// Scanning a parenthesised string-literal expression statement at
/// module level; the diagnostic is attached to the whole statement.
pub open spec fn scan_module_paren_str(s: StrLit, stmt_span: Span, directive: bool) -> ItemStep {
    if s.value@ == "use server"@ || similar_strings(s.value@, "use server"@) {
        ItemStep {
            remove: false,
            set_action: false,
            cache: None,
            diags: seq![
                Diag {
                    span: stmt_span,
                    kind: if directive {
                        DiagKind::ServerDirectiveParens
                    } else {
                        DiagKind::ServerDirectiveParensNotTop
                    },
                },
            ],
            next_directive: directive,
        }
    } else if s.value@ == "use cache"@ || similar_strings(s.value@, "use cache"@) {
        ItemStep {
            remove: false,
            set_action: false,
            cache: None,
            diags: seq![
                Diag {
                    span: stmt_span,
                    kind: if directive {
                        DiagKind::CacheDirectiveParens
                    } else {
                        DiagKind::CacheDirectiveParensNotTop
                    },
                },
            ],
            next_directive: directive,
        }
    } else {
        ItemStep {
            remove: false,
            set_action: false,
            cache: None,
            diags: Seq::empty(),
            next_directive: directive,
        }
    }
}

/// An item that neither is nor resembles a directive; it ends directive
/// position when `ends_directive` (any non-string statement does).
pub open spec fn neutral_step(directive: bool, ends_directive: bool) -> ItemStep {
    ItemStep {
        remove: false,
        set_action: false,
        cache: None,
        diags: Seq::empty(),
        next_directive: directive && !ends_directive,
    }
}

/// Scanning one module item.
pub open spec fn scan_module_item(item: ModuleItem, enabled: bool, directive: bool) -> ItemStep {
    match item {
        ModuleItem::Stmt(st) => match st {
            Stmt::Expr { span: stmt_span, expr } => match expr {
                Expr::Lit(l) => match l {
                    Lit::Str(s) => scan_module_str(s, enabled, directive),
                    Lit::Other { .. } => neutral_step(directive, true),
                },
                Expr::Paren { expr: inner, .. } => match *inner {
                    Expr::Lit(l) => match l {
                        Lit::Str(s) => scan_module_paren_str(s, stmt_span, directive),
                        Lit::Other { .. } => neutral_step(directive, true),
                    },
                    _ => neutral_step(directive, true),
                },
                _ => neutral_step(directive, true),
            },
            _ => neutral_step(directive, true),
        },
        _ => neutral_step(directive, true),
    }
}

/// What scanning a whole module yields.
pub ghost struct ModScanOut {
    pub set_action: bool,
    pub cache: Option<Seq<char>>,
    pub kept: Seq<ModuleItem>,
    pub diags: Seq<Diag>,
}

/// Scanning a run of module items: directives found at directive
/// position are dropped; flags, the last cache kind, and diagnostics
/// accumulate in source order.
pub open spec fn scan_module_items(items: Seq<ModuleItem>, enabled: bool, directive: bool) -> ModScanOut
    decreases items.len(),
{
    if items.len() == 0 {
        ModScanOut { set_action: false, cache: None, kept: Seq::empty(), diags: Seq::empty() }
    } else {
        let step = scan_module_item(items[0], enabled, directive);
        let rest = scan_module_items(items.drop_first(), enabled, step.next_directive);
        ModScanOut {
            set_action: step.set_action || rest.set_action,
            cache: if rest.cache is Some {
                rest.cache
            } else {
                step.cache
            },
            kept: (if step.remove {
                Seq::<ModuleItem>::empty()
            } else {
                seq![items[0]]
            }) + rest.kept,
            diags: step.diags + rest.diags,
        }
    }
}

/// Computes the cache kind a string literal selects, per `cache_kind_of`.
pub fn cache_kind_of_exec(value: &String) -> (r: Option<String>)
    ensures
        opt_str_v(r) == cache_kind_of(value@),
{
    if str_eq(value.as_str(), "use cache") {
        Some(String::from_str("default"))
    } else if str_starts_with(value.as_str(), "use cache: ") {
        let plen = "use cache: ".unicode_len();
        let vlen = value.as_str().unicode_len();
        let kind = value.as_str().substring_char(plen, vlen);
        proof {
            assert(kind@ =~= value@.skip("use cache: "@.len() as int));
        }
        Some(String::from_str(kind))
    } else {
        None
    }
}

/// Scans one module item: appends its diagnostics, and reports whether
/// to drop it, whether it makes this an action file, the cache kind it
/// sets, and whether directive position continues.
pub fn module_item_step(
    item: &ModuleItem,
    enabled: bool,
    directive: bool,
    diags: &mut Vec<Diag>,
) -> (r: (bool, bool, Option<String>, bool))
    ensures
        r.0 == scan_module_item(*item, enabled, directive).remove,
        r.1 == scan_module_item(*item, enabled, directive).set_action,
        opt_str_v(r.2) == scan_module_item(*item, enabled, directive).cache,
        r.3 == scan_module_item(*item, enabled, directive).next_directive,
        final(diags)@ == old(diags)@ + scan_module_item(*item, enabled, directive).diags,
{
    let ghost pre = diags@;
    let mut remove: bool = false;
    let mut set_action: bool = false;
    let mut cache: Option<String> = None;
    let mut next_directive: bool = directive;
    match item {
        ModuleItem::Stmt(st) => match st {
            Stmt::Expr { span: stmt_span, expr } => match expr {
                Expr::Lit(l) => match l {
                    Lit::Str(s) => {
                        if str_eq(s.value.as_str(), "use server") {
                            if directive {
                                remove = true;
                                set_action = true;
                                if !enabled {
                                    diags.push(
                                        Diag { span: s.span, kind: DiagKind::FeatureDisabled },
                                    );
                                }
                            } else {
                                diags.push(
                                    Diag {
                                        span: s.span,
                                        kind: DiagKind::ServerDirectiveNotTopOfFile,
                                    },
                                );
                            }
                        } else {
                            let kind_opt = cache_kind_of_exec(&s.value);
                            match kind_opt {
                                Some(k) => {
                                    if directive {
                                        remove = true;
                                        cache = Some(k);
                                    } else {
                                        diags.push(
                                            Diag {
                                                span: s.span,
                                                kind: DiagKind::CacheDirectiveNotTopOfFile,
                                            },
                                        );
                                    }
                                },
                                None => {
                                    if directive && detect_similar_server(s.value.as_str()) {
                                        diags.push(
                                            Diag {
                                                span: s.span,
                                                kind: DiagKind::ServerDirectiveTypo {
                                                    value: s.value.clone(),
                                                },
                                            },
                                        );
                                    } else if directive && detect_similar_cache(
                                        s.value.as_str(),
                                    ) {
                                        diags.push(
                                            Diag {
                                                span: s.span,
                                                kind: DiagKind::CacheDirectiveTypo {
                                                    value: s.value.clone(),
                                                },
                                            },
                                        );
                                    }
                                },
                            }
                        }
                    },
                    Lit::Other { .. } => {
                        next_directive = false;
                    },
                },
                Expr::Paren { expr: inner, .. } => match &**inner {
                    Expr::Lit(l) => match l {
                        Lit::Str(s) => {
                            if str_eq(s.value.as_str(), "use server") || detect_similar_server(
                                s.value.as_str(),
                            ) {
                                diags.push(
                                    Diag {
                                        span: *stmt_span,
                                        kind: if directive {
                                            DiagKind::ServerDirectiveParens
                                        } else {
                                            DiagKind::ServerDirectiveParensNotTop
                                        },
                                    },
                                );
                            } else if str_eq(s.value.as_str(), "use cache")
                                || detect_similar_cache(s.value.as_str()) {
                                diags.push(
                                    Diag {
                                        span: *stmt_span,
                                        kind: if directive {
                                            DiagKind::CacheDirectiveParens
                                        } else {
                                            DiagKind::CacheDirectiveParensNotTop
                                        },
                                    },
                                );
                            }
                        },
                        Lit::Other { .. } => {
                            next_directive = false;
                        },
                    },
                    _ => {
                        next_directive = false;
                    },
                },
                _ => {
                    next_directive = false;
                },
            },
            _ => {
                next_directive = false;
            },
        },
        _ => {
            next_directive = false;
        },
    }
    proof {
        assert(diags@ =~= pre + scan_module_item(*item, enabled, directive).diags);
    }
    (remove, set_action, cache, next_directive)
}

/// Whether a string is one edit from `"use server"`.
fn detect_similar_server(v: &str) -> (r: bool)
    ensures
        r == similar_strings(v@, "use server"@),
{
    crate::similar::detect_similar_strings(v, "use server")
}

/// Whether a string is one edit from `"use cache"`.
fn detect_similar_cache(v: &str) -> (r: bool)
    ensures
        r == similar_strings(v@, "use cache"@),
{
    crate::similar::detect_similar_strings(v, "use cache")
}

/// Scans a module's items from the top: recognized directives at
/// directive position set the module flags and are removed; misplaced,
/// parenthesised, and typo'd variants are reported.
#[verifier::loop_isolation(false)]
#[verifier::rlimit(100)]
#[verifier::spinoff_prover]
pub fn remove_server_directive_index_in_module(
    stmts: &mut Vec<ModuleItem>,
    in_action_file: &mut bool,
    in_cache_file: &mut Option<String>,
    has_action: &mut bool,
    has_cache: &mut bool,
    enabled: bool,
    diags: &mut Vec<Diag>,
)
    ensures
        final(stmts)@ == scan_module_items(old(stmts)@, enabled, true).kept,
        *final(in_action_file) == (*old(in_action_file) || scan_module_items(
            old(stmts)@,
            enabled,
            true,
        ).set_action),
        *final(has_action) == (*old(has_action) || scan_module_items(
            old(stmts)@,
            enabled,
            true,
        ).set_action),
        opt_str_v(*final(in_cache_file)) == (if scan_module_items(
            old(stmts)@,
            enabled,
            true,
        ).cache is Some {
            scan_module_items(old(stmts)@, enabled, true).cache
        } else {
            opt_str_v(*old(in_cache_file))
        }),
        *final(has_cache) == (*old(has_cache) || scan_module_items(
            old(stmts)@,
            enabled,
            true,
        ).cache is Some),
        final(diags)@ == old(diags)@ + scan_module_items(old(stmts)@, enabled, true).diags,
{
    let ghost inp = stmts@;
    let ghost total = scan_module_items(inp, enabled, true);
    let ghost diags0 = diags@;
    let ghost ia0 = *in_action_file;
    let ghost ha0 = *has_action;
    let ghost hc0 = *has_cache;
    let ghost c0 = opt_str_v(*in_cache_file);
    let mut new_items: Vec<ModuleItem> = Vec::new();
    let mut directive: bool = true;
    let ghost k: int = 0;
    proof {
        assert(inp.skip(0) =~= inp);
    }
    while stmts.len() > 0
        invariant
            0 <= k <= inp.len(),
            stmts@ =~= inp.skip(k),
            (ia0 || total.set_action) == (*in_action_file || scan_module_items(
                inp.skip(k),
                enabled,
                directive,
            ).set_action),
            (ha0 || total.set_action) == (*has_action || scan_module_items(
                inp.skip(k),
                enabled,
                directive,
            ).set_action),
            (hc0 || (total.cache is Some)) == (*has_cache || (scan_module_items(
                inp.skip(k),
                enabled,
                directive,
            ).cache is Some)),
            (if total.cache is Some {
                total.cache
            } else {
                c0
            }) == (if scan_module_items(inp.skip(k), enabled, directive).cache is Some {
                scan_module_items(inp.skip(k), enabled, directive).cache
            } else {
                opt_str_v(*in_cache_file)
            }),
            total.kept == new_items@ + scan_module_items(inp.skip(k), enabled, directive).kept,
            diags0.len() <= diags@.len(),
            diags@.subrange(0, diags0.len() as int) == diags0,
            total.diags == diags@.skip(diags0.len() as int) + scan_module_items(
                inp.skip(k),
                enabled,
                directive,
            ).diags,
        decreases stmts.len(),
    {
        let item = stmts.remove(0);
        proof {
            assert(item == inp.skip(k)[0]);
            assert(inp.skip(k)[0] == inp[k]);
            assert(inp.skip(k).drop_first() =~= inp.skip(k + 1));
            assert(stmts@ =~= inp.skip(k + 1));
        }
        let step = module_item_step(&item, enabled, directive, diags);
        let remove = step.0;
        let set_action = step.1;
        let cache_opt = step.2;
        let next_directive = step.3;
        if set_action {
            *in_action_file = true;
            *has_action = true;
        }
        match cache_opt {
            Some(kind) => {
                *in_cache_file = Some(kind);
                *has_cache = true;
            },
            None => {},
        }
        if !remove {
            new_items.push(item);
        }
        proof {
            assert(total.kept =~= new_items@ + scan_module_items(
                inp.skip(k + 1),
                enabled,
                next_directive,
            ).kept);
            assert(total.diags =~= diags@.skip(diags0.len() as int) + scan_module_items(
                inp.skip(k + 1),
                enabled,
                next_directive,
            ).diags);
            assert(diags@.subrange(0, diags0.len() as int) =~= diags0);
        }
        directive = next_directive;
        proof {
            k = k + 1;
        }
    }
    proof {
        assert(inp.skip(inp.len() as int) =~= Seq::<ModuleItem>::empty());
        assert(total.kept =~= new_items@);
        assert(total.diags =~= diags@.skip(diags0.len() as int));
        assert(diags@ =~= diags0 + diags@.skip(diags0.len() as int));
    }
    *stmts = new_items;
}


/// What scanning one function-body statement yields.
pub ghost struct FnStep {
    pub remove: bool,
    pub is_action: bool,
    pub cache: Option<Seq<char>>,
    pub action_span: Option<Span>,
    pub diags: Seq<Diag>,
    pub next_directive: bool,
}

/// Scanning a bare string-literal expression statement in a function
/// body. An exact `"use server"` records its span wherever it stands.
pub open spec fn scan_fn_str(s: StrLit, enabled: bool, directive: bool) -> FnStep {
    if s.value@ == "use server"@ {
        if directive {
            FnStep {
                remove: true,
                is_action: true,
                cache: None,
                action_span: Some(s.span),
                diags: if enabled {
                    Seq::empty()
                } else {
                    seq![Diag { span: s.span, kind: DiagKind::FeatureDisabled }]
                },
                next_directive: directive,
            }
        } else {
            FnStep {
                remove: false,
                is_action: false,
                cache: None,
                action_span: Some(s.span),
                diags: seq![Diag { span: s.span, kind: DiagKind::ServerDirectiveNotTopOfFn }],
                next_directive: directive,
            }
        }
    } else if cache_kind_of(s.value@) is Some {
        if directive {
            FnStep {
                remove: true,
                is_action: false,
                cache: cache_kind_of(s.value@),
                action_span: None,
                diags: Seq::empty(),
                next_directive: directive,
            }
        } else {
            FnStep {
                remove: false,
                is_action: false,
                cache: None,
                action_span: None,
                diags: seq![Diag { span: s.span, kind: DiagKind::CacheDirectiveNotTopOfFn }],
                next_directive: directive,
            }
        }
    } else if directive && similar_strings(s.value@, "use server"@) {
        FnStep {
            remove: false,
            is_action: false,
            cache: None,
            action_span: None,
            diags: seq![
                Diag { span: s.span, kind: DiagKind::ServerDirectiveTypo { value: s.value } },
            ],
            next_directive: directive,
        }
    } else if directive && similar_strings(s.value@, "use cache"@) {
        FnStep {
            remove: false,
            is_action: false,
            cache: None,
            action_span: None,
            diags: seq![
                Diag { span: s.span, kind: DiagKind::CacheDirectiveTypo { value: s.value } },
            ],
            next_directive: directive,
        }
    } else {
        FnStep {
            remove: false,
            is_action: false,
            cache: None,
            action_span: None,
            diags: Seq::empty(),
            next_directive: directive,
        }
    }
}

/// A function-body statement that is no bare string literal ends
/// directive position.
pub open spec fn fn_neutral_step(directive: bool) -> FnStep {
    FnStep {
        remove: false,
        is_action: false,
        cache: None,
        action_span: None,
        diags: Seq::empty(),
        next_directive: false,
    }
}

/// Scanning one function-body statement.
pub open spec fn scan_fn_stmt(st: Stmt, enabled: bool, directive: bool) -> FnStep {
    match st {
        Stmt::Expr { span: stmt_span, expr } => match expr {
            Expr::Lit(l) => match l {
                Lit::Str(s) => scan_fn_str(s, enabled, directive),
                Lit::Other { .. } => fn_neutral_step(directive),
            },
            _ => fn_neutral_step(directive),
        },
        _ => fn_neutral_step(directive),
    }
}

/// What scanning a whole function body yields.
pub ghost struct FnScanOut {
    pub is_action: bool,
    pub cache: Option<Seq<char>>,
    pub action_span: Option<Span>,
    pub kept: Seq<Stmt>,
    pub diags: Seq<Diag>,
}

/// Scanning a run of function-body statements.
pub open spec fn scan_fn_stmts(stmts: Seq<Stmt>, enabled: bool, directive: bool) -> FnScanOut
    decreases stmts.len(),
{
    if stmts.len() == 0 {
        FnScanOut {
            is_action: false,
            cache: None,
            action_span: None,
            kept: Seq::empty(),
            diags: Seq::empty(),
        }
    } else {
        let step = scan_fn_stmt(stmts[0], enabled, directive);
        let rest = scan_fn_stmts(stmts.drop_first(), enabled, step.next_directive);
        FnScanOut {
            is_action: step.is_action || rest.is_action,
            cache: if rest.cache is Some {
                rest.cache
            } else {
                step.cache
            },
            action_span: if rest.action_span is Some {
                rest.action_span
            } else {
                step.action_span
            },
            kept: (if step.remove {
                Seq::<Stmt>::empty()
            } else {
                seq![stmts[0]]
            }) + rest.kept,
            diags: step.diags + rest.diags,
        }
    }
}

/// Scans one function-body statement, appending its diagnostics.
pub fn fn_stmt_step(
    st: &Stmt,
    enabled: bool,
    directive: bool,
    diags: &mut Vec<Diag>,
) -> (r: (bool, bool, Option<String>, Option<Span>, bool))
    ensures
        r.0 == scan_fn_stmt(*st, enabled, directive).remove,
        r.1 == scan_fn_stmt(*st, enabled, directive).is_action,
        opt_str_v(r.2) == scan_fn_stmt(*st, enabled, directive).cache,
        r.3 == scan_fn_stmt(*st, enabled, directive).action_span,
        final(diags)@ == old(diags)@ + scan_fn_stmt(*st, enabled, directive).diags,
        r.4 == scan_fn_stmt(*st, enabled, directive).next_directive,
{
    let ghost pre = diags@;
    let mut remove: bool = false;
    let mut is_action: bool = false;
    let mut cache: Option<String> = None;
    let mut action_span: Option<Span> = None;
    let mut next_directive: bool = directive;
    match st {
        Stmt::Expr { span: _stmt_span, expr } => match expr {
            Expr::Lit(l) => match l {
                Lit::Str(s) => {
                    if str_eq(s.value.as_str(), "use server") {
                        action_span = Some(s.span);
                        if directive {
                            remove = true;
                            is_action = true;
                            if !enabled {
                                diags.push(
                                    Diag { span: s.span, kind: DiagKind::FeatureDisabled },
                                );
                            }
                        } else {
                            diags.push(
                                Diag { span: s.span, kind: DiagKind::ServerDirectiveNotTopOfFn },
                            );
                        }
                    } else {
                        let kind_opt = cache_kind_of_exec(&s.value);
                        match kind_opt {
                            Some(k) => {
                                if directive {
                                    remove = true;
                                    cache = Some(k);
                                } else {
                                    diags.push(
                                        Diag {
                                            span: s.span,
                                            kind: DiagKind::CacheDirectiveNotTopOfFn,
                                        },
                                    );
                                }
                            },
                            None => {
                                if directive && detect_similar_server(s.value.as_str()) {
                                    diags.push(
                                        Diag {
                                            span: s.span,
                                            kind: DiagKind::ServerDirectiveTypo {
                                                value: s.value.clone(),
                                            },
                                        },
                                    );
                                } else if directive && detect_similar_cache(s.value.as_str()) {
                                    diags.push(
                                        Diag {
                                            span: s.span,
                                            kind: DiagKind::CacheDirectiveTypo {
                                                value: s.value.clone(),
                                            },
                                        },
                                    );
                                }
                            },
                        }
                    }
                },
                Lit::Other { .. } => {
                    next_directive = false;
                },
            },
            _ => {
                next_directive = false;
            },
        },
        _ => {
            next_directive = false;
        },
    }
    proof {
        assert(diags@ =~= pre + scan_fn_stmt(*st, enabled, directive).diags);
    }
    (remove, is_action, cache, action_span, next_directive)
}

/// Scans a function body from the top: recognized directives at
/// directive position classify the function and are removed; misplaced
/// and typo'd variants are reported. The span of an exact
/// `"use server"` is recorded wherever it stands.
#[verifier::loop_isolation(false)]
#[verifier::rlimit(100)]
#[verifier::spinoff_prover]
pub fn remove_server_directive_index_in_fn(
    stmts: &mut Vec<Stmt>,
    is_action_fn: &mut bool,
    cache_type: &mut Option<String>,
    action_span: &mut Option<Span>,
    enabled: bool,
    diags: &mut Vec<Diag>,
)
    ensures
        final(stmts)@ == scan_fn_stmts(old(stmts)@, enabled, true).kept,
        *final(is_action_fn) == (*old(is_action_fn) || scan_fn_stmts(
            old(stmts)@,
            enabled,
            true,
        ).is_action),
        opt_str_v(*final(cache_type)) == (if scan_fn_stmts(old(stmts)@, enabled, true).cache
            is Some {
            scan_fn_stmts(old(stmts)@, enabled, true).cache
        } else {
            opt_str_v(*old(cache_type))
        }),
        *final(action_span) == (if scan_fn_stmts(old(stmts)@, enabled, true).action_span
            is Some {
            scan_fn_stmts(old(stmts)@, enabled, true).action_span
        } else {
            *old(action_span)
        }),
        final(diags)@ == old(diags)@ + scan_fn_stmts(old(stmts)@, enabled, true).diags,
{
    let ghost inp = stmts@;
    let ghost total = scan_fn_stmts(inp, enabled, true);
    let ghost diags0 = diags@;
    let ghost ia0 = *is_action_fn;
    let ghost c0 = opt_str_v(*cache_type);
    let ghost sp0 = *action_span;
    let mut new_stmts: Vec<Stmt> = Vec::new();
    let mut directive: bool = true;
    let ghost k: int = 0;
    proof {
        assert(inp.skip(0) =~= inp);
    }
    while stmts.len() > 0
        invariant
            0 <= k <= inp.len(),
            stmts@ =~= inp.skip(k),
            (ia0 || total.is_action) == (*is_action_fn || scan_fn_stmts(
                inp.skip(k),
                enabled,
                directive,
            ).is_action),
            (if total.cache is Some {
                total.cache
            } else {
                c0
            }) == (if scan_fn_stmts(inp.skip(k), enabled, directive).cache is Some {
                scan_fn_stmts(inp.skip(k), enabled, directive).cache
            } else {
                opt_str_v(*cache_type)
            }),
            (if total.action_span is Some {
                total.action_span
            } else {
                sp0
            }) == (if scan_fn_stmts(inp.skip(k), enabled, directive).action_span is Some {
                scan_fn_stmts(inp.skip(k), enabled, directive).action_span
            } else {
                *action_span
            }),
            total.kept == new_stmts@ + scan_fn_stmts(inp.skip(k), enabled, directive).kept,
            diags0.len() <= diags@.len(),
            diags@.subrange(0, diags0.len() as int) == diags0,
            total.diags == diags@.skip(diags0.len() as int) + scan_fn_stmts(
                inp.skip(k),
                enabled,
                directive,
            ).diags,
        decreases stmts.len(),
    {
        let st0 = stmts.remove(0);
        proof {
            assert(st0 == inp.skip(k)[0]);
            assert(inp.skip(k)[0] == inp[k]);
            assert(inp.skip(k).drop_first() =~= inp.skip(k + 1));
            assert(stmts@ =~= inp.skip(k + 1));
        }
        let step = fn_stmt_step(&st0, enabled, directive, diags);
        let remove = step.0;
        let found_action = step.1;
        let cache_opt = step.2;
        let span_opt = step.3;
        let next_directive = step.4;
        if found_action {
            *is_action_fn = true;
        }
        match cache_opt {
            Some(kind) => {
                *cache_type = Some(kind);
            },
            None => {},
        }
        match span_opt {
            Some(sp) => {
                *action_span = Some(sp);
            },
            None => {},
        }
        if !remove {
            new_stmts.push(st0);
        }
        proof {
            assert(total.kept =~= new_stmts@ + scan_fn_stmts(
                inp.skip(k + 1),
                enabled,
                next_directive,
            ).kept);
            assert(total.diags =~= diags@.skip(diags0.len() as int) + scan_fn_stmts(
                inp.skip(k + 1),
                enabled,
                next_directive,
            ).diags);
            assert(diags@.subrange(0, diags0.len() as int) =~= diags0);
        }
        directive = next_directive;
        proof {
            k = k + 1;
        }
    }
    proof {
        assert(inp.skip(inp.len() as int) =~= Seq::<Stmt>::empty());
        assert(total.kept =~= new_stmts@);
        assert(total.diags =~= diags@.skip(diags0.len() as int));
        assert(diags@ =~= diags0 + diags@.skip(diags0.len() as int));
    }
    *stmts = new_stmts;
}

/// The string value of a bare string-literal expression statement.
pub open spec fn stmt_directive_string(st: Stmt) -> Option<Seq<char>> {
    match st {
        Stmt::Expr { expr, .. } => match expr {
            Expr::Lit(l) => match l {
                Lit::Str(s) => Some(s.value@),
                Lit::Other { .. } => None,
            },
            _ => None,
        },
        _ => None,
    }
}

/// The string value of a bare string-literal expression statement at
/// module level.
pub open spec fn item_directive_string(item: ModuleItem) -> Option<Seq<char>> {
    match item {
        ModuleItem::Stmt(st) => stmt_directive_string(st),
        _ => None,
    }
}

/// No recognized directive stands in the leading run of string-literal
/// expression statements of these items.
pub open spec fn items_prologue_clean(items: Seq<ModuleItem>) -> bool
    decreases items.len(),
{
    if items.len() == 0 {
        true
    } else {
        match item_directive_string(items[0]) {
            Some(v) => !is_recognized_directive(v) && items_prologue_clean(items.drop_first()),
            None => true,
        }
    }
}

/// No recognized directive stands in the leading run of string-literal
/// expression statements of this body.
pub open spec fn stmts_prologue_clean(stmts: Seq<Stmt>) -> bool
    decreases stmts.len(),
{
    if stmts.len() == 0 {
        true
    } else {
        match stmt_directive_string(stmts[0]) {
            Some(v) => !is_recognized_directive(v) && stmts_prologue_clean(stmts.drop_first()),
            None => true,
        }
    }
}

/// Directive scrubbing at module level: after the scan, no recognized
/// directive literal remains at directive position.
pub proof fn lemma_module_scan_scrubs_directives(items: Seq<ModuleItem>, enabled: bool)
    ensures
        items_prologue_clean(scan_module_items(items, enabled, true).kept),
    decreases items.len(),
{
    if items.len() > 0 {
        let step = scan_module_item(items[0], enabled, true);
        let rest = scan_module_items(items.drop_first(), enabled, step.next_directive);
        if step.next_directive {
            lemma_module_scan_scrubs_directives(items.drop_first(), enabled);
            if !step.remove {
                assert(scan_module_items(items, enabled, true).kept == seq![items[0]]
                    + rest.kept);
                match item_directive_string(items[0]) {
                    Some(v) => {
                        assert(!is_recognized_directive(v));
                        assert((seq![items[0]] + rest.kept).drop_first() =~= rest.kept);
                    },
                    None => {},
                }
            } else {
                assert(scan_module_items(items, enabled, true).kept =~= rest.kept);
            }
        } else {
            assert(!step.remove);
            assert(item_directive_string(items[0]) is None);
            assert(scan_module_items(items, enabled, true).kept == seq![items[0]] + rest.kept);
        }
    }
}

/// Directive scrubbing in function bodies: after the scan, no
/// recognized directive literal remains at directive position.
pub proof fn lemma_fn_scan_scrubs_directives(stmts: Seq<Stmt>, enabled: bool)
    ensures
        stmts_prologue_clean(scan_fn_stmts(stmts, enabled, true).kept),
    decreases stmts.len(),
{
    if stmts.len() > 0 {
        let step = scan_fn_stmt(stmts[0], enabled, true);
        let rest = scan_fn_stmts(stmts.drop_first(), enabled, step.next_directive);
        if step.next_directive {
            lemma_fn_scan_scrubs_directives(stmts.drop_first(), enabled);
            if !step.remove {
                assert(scan_fn_stmts(stmts, enabled, true).kept == seq![stmts[0]] + rest.kept);
                match stmt_directive_string(stmts[0]) {
                    Some(v) => {
                        assert(!is_recognized_directive(v));
                        assert((seq![stmts[0]] + rest.kept).drop_first() =~= rest.kept);
                    },
                    None => {},
                }
            } else {
                assert(scan_fn_stmts(stmts, enabled, true).kept =~= rest.kept);
            }
        } else {
            assert(!step.remove);
            assert(stmt_directive_string(stmts[0]) is None);
            assert(scan_fn_stmts(stmts, enabled, true).kept == seq![stmts[0]] + rest.kept);
        }
    }
}

} // verus!
