//! One input per diagnostic kind, and the cache-file export path.

use server_actions::ast::{
    BlockStmt, Callee, CallExpr, Decl, Expr, FnDecl, FnExpr, Function, Ident, Lit, Module,
    ModuleItem, Pat, Span, Stmt, StrLit, VarDecl, VarDeclKind, VarDeclarator,
};
use server_actions::diag::{Diag, DiagKind};
use server_actions::directive::{
    remove_server_directive_index_in_fn, remove_server_directive_index_in_module,
};
use server_actions::{server_actions, Config, TransformOutput};

fn ident(sym: &str, span: Span) -> Ident {
    Ident {
        sym: sym.to_string(),
        span,
        ctxt: 0,
    }
}

fn str_stmt(value: &str, span: Span) -> ModuleItem {
    ModuleItem::Stmt(Stmt::Expr {
        span,
        expr: Expr::Lit(Lit::Str(StrLit {
            value: value.to_string(),
            span,
        })),
    })
}

fn other_stmt(span: Span) -> ModuleItem {
    ModuleItem::Stmt(Stmt::Expr {
        span,
        expr: Expr::Lit(Lit::Other { span }),
    })
}

fn run(items: Vec<ModuleItem>, server_layer: bool) -> TransformOutput {
    server_actions(
        "/a.js",
        Config {
            is_react_server_layer: server_layer,
            enabled: true,
            hash_salt: String::new(),
        },
        Module { span: 0, items },
    )
}

fn scan_module(items: Vec<ModuleItem>) -> (Vec<ModuleItem>, Vec<Diag>) {
    let mut items = items;
    let mut in_action_file = false;
    let mut in_cache_file: Option<String> = None;
    let mut has_action = false;
    let mut has_cache = false;
    let mut diags: Vec<Diag> = Vec::new();
    remove_server_directive_index_in_module(
        &mut items,
        &mut in_action_file,
        &mut in_cache_file,
        &mut has_action,
        &mut has_cache,
        true,
        &mut diags,
    );
    (items, diags)
}

#[test]
fn misplaced_module_directives() {
    let (items, diags) = scan_module(vec![
        other_stmt(1),
        str_stmt("use server", 2),
        str_stmt("use cache", 3),
    ]);
    assert_eq!(items.len(), 3);
    assert_eq!(
        diags,
        vec![
            Diag {
                span: 2,
                kind: DiagKind::ServerDirectiveNotTopOfFile
            },
            Diag {
                span: 3,
                kind: DiagKind::CacheDirectiveNotTopOfFile
            },
        ]
    );
    assert_eq!(
        diags[0].message(),
        "The \"use server\" directive must be at the top of the file."
    );
}

#[test]
fn parenthesised_cache_directive() {
    let paren = |value: &str, span: Span| {
        ModuleItem::Stmt(Stmt::Expr {
            span,
            expr: Expr::Paren {
                span,
                expr: Box::new(Expr::Lit(Lit::Str(StrLit {
                    value: value.to_string(),
                    span,
                }))),
            },
        })
    };
    let (_, diags) = scan_module(vec![paren("use cache", 1)]);
    assert_eq!(
        diags,
        vec![Diag {
            span: 1,
            kind: DiagKind::CacheDirectiveParens
        }]
    );
    // After a non-directive item the message also names the position.
    let (_, diags) = scan_module(vec![other_stmt(1), paren("use server", 2), paren("use cache", 3)]);
    assert_eq!(
        diags,
        vec![
            Diag {
                span: 2,
                kind: DiagKind::ServerDirectiveParensNotTop
            },
            Diag {
                span: 3,
                kind: DiagKind::CacheDirectiveParensNotTop
            },
        ]
    );
}

#[test]
fn cache_typo_in_function_body() {
    let mut stmts = vec![Stmt::Expr {
        span: 1,
        expr: Expr::Lit(Lit::Str(StrLit {
            value: "use caches".to_string(),
            span: 1,
        })),
    }];
    let mut is_action = false;
    let mut cache: Option<String> = None;
    let mut span: Option<Span> = None;
    let mut diags: Vec<Diag> = Vec::new();
    remove_server_directive_index_in_fn(
        &mut stmts,
        &mut is_action,
        &mut cache,
        &mut span,
        true,
        &mut diags,
    );
    assert!(cache.is_none());
    assert_eq!(
        diags,
        vec![Diag {
            span: 1,
            kind: DiagKind::CacheDirectiveTypo {
                value: "use caches".to_string()
            }
        }]
    );
}

#[test]
fn misplaced_cache_directive_in_function_body() {
    let mut stmts = vec![
        Stmt::Expr {
            span: 1,
            expr: Expr::Lit(Lit::Other { span: 1 }),
        },
        Stmt::Expr {
            span: 2,
            expr: Expr::Lit(Lit::Str(StrLit {
                value: "use cache".to_string(),
                span: 2,
            })),
        },
    ];
    let mut is_action = false;
    let mut cache: Option<String> = None;
    let mut span: Option<Span> = None;
    let mut diags: Vec<Diag> = Vec::new();
    remove_server_directive_index_in_fn(
        &mut stmts,
        &mut is_action,
        &mut cache,
        &mut span,
        true,
        &mut diags,
    );
    assert!(cache.is_none());
    assert_eq!(stmts.len(), 2);
    assert_eq!(
        diags,
        vec![Diag {
            span: 2,
            kind: DiagKind::CacheDirectiveNotTopOfFn
        }]
    );
}

#[test]
fn disallowed_exports_in_action_file() {
    // "use server"; export const one = 1; export * from elsewhere
    let items = vec![
        str_stmt("use server", 1),
        ModuleItem::ExportDecl {
            span: 2,
            decl: Decl::Var(VarDecl {
                span: 3,
                kind: VarDeclKind::Const,
                decls: vec![VarDeclarator {
                    span: 4,
                    name: Pat::Id(ident("one", 5)),
                    init: Some(Expr::Lit(Lit::Other { span: 6 })),
                }],
            }),
        },
        ModuleItem::ExportAll {
            span: 7,
            src: StrLit {
                value: "./elsewhere".to_string(),
                span: 8,
            },
        },
    ];
    let out = run(items, true);
    let disallowed: Vec<Span> = out
        .diags
        .iter()
        .filter(|d| matches!(d.kind, DiagKind::DisallowedExport))
        .map(|d| d.span)
        .collect();
    assert_eq!(disallowed, vec![2, 7]);
    assert_eq!(
        out.diags[0].message(),
        "Only async functions are allowed to be exported in a \"use server\" file."
    );
}

#[test]
fn cache_file_exported_function_is_hoisted() {
    // "use cache"; export async function f() { return 1 }
    let items = vec![
        str_stmt("use cache", 1),
        ModuleItem::ExportDecl {
            span: 2,
            decl: Decl::Fn(FnDecl {
                ident: ident("f", 3),
                function: Function {
                    span: 4,
                    params: vec![],
                    body: Some(BlockStmt {
                        span: 5,
                        stmts: vec![Stmt::Return {
                            span: 6,
                            arg: Some(Expr::Lit(Lit::Other { span: 7 })),
                        }],
                    }),
                    is_async: true,
                },
            }),
        },
    ];
    let out = run(items, true);
    assert!(out.diags.is_empty());
    assert_eq!(out.actions.len(), 1);
    assert_eq!(out.actions[0].1, "$$RSC_SERVER_CACHE_0");
    // export function f -> export var f = <proxy>; hoisted cache var precedes it.
    let hoisted = out.module.items.iter().position(|i| {
        matches!(
            i,
            ModuleItem::ExportDecl { decl: Decl::Var(v), .. }
                if matches!(&v.decls[0].name, Pat::Id(id) if id.sym == "$$RSC_SERVER_CACHE_0")
        )
    });
    let rewritten = out.module.items.iter().position(|i| {
        matches!(
            i,
            ModuleItem::ExportDecl { decl: Decl::Var(v), .. }
                if matches!(&v.decls[0].name, Pat::Id(id) if id.sym == "f")
        )
    });
    assert!(hoisted.unwrap() < rewritten.unwrap());
    // The inner definition keeps the original name for stack traces.
    match &out.module.items[hoisted.unwrap()] {
        ModuleItem::ExportDecl { decl: Decl::Var(v), .. } => {
            match v.decls[0].init.as_ref().unwrap() {
                Expr::Call(c) => {
                    assert!(matches!(
                        &c.callee,
                        Callee::Expr(e) if matches!(&**e, Expr::Id(i) if i.sym == "$$cache__")
                    ));
                    assert!(matches!(
                        &c.args[2].expr,
                        Expr::Fn(FnExpr { ident: Some(i), .. }) if i.sym == "f"
                    ));
                }
                _ => panic!("expected the cache wrapper"),
            }
        }
        _ => unreachable!(),
    }
}

#[test]
fn cache_function_must_be_async() {
    // "use cache"; export function f() {}
    let items = vec![
        str_stmt("use cache", 1),
        ModuleItem::ExportDecl {
            span: 2,
            decl: Decl::Fn(FnDecl {
                ident: ident("f", 3),
                function: Function {
                    span: 4,
                    params: vec![],
                    body: Some(BlockStmt {
                        span: 5,
                        stmts: vec![],
                    }),
                    is_async: false,
                },
            }),
        },
    ];
    let out = run(items, true);
    assert!(out
        .diags
        .iter()
        .any(|d| *d == Diag { span: 3, kind: DiagKind::CacheNotAsync }));
    assert_eq!(
        Diag {
            span: 3,
            kind: DiagKind::CacheNotAsync
        }
        .message(),
        "Cache functions must be async functions"
    );
}

#[test]
fn inline_use_cache_on_client_layer() {
    // const g = async function() { "use cache"; } outside a cache file, client layer
    let inner = Expr::Fn(FnExpr {
        ident: None,
        function: Function {
            span: 10,
            params: vec![],
            body: Some(BlockStmt {
                span: 11,
                stmts: vec![Stmt::Expr {
                    span: 12,
                    expr: Expr::Lit(Lit::Str(StrLit {
                        value: "use cache".to_string(),
                        span: 12,
                    })),
                }],
            }),
            is_async: true,
        },
    });
    let items = vec![ModuleItem::Stmt(Stmt::Decl(Decl::Var(VarDecl {
        span: 1,
        kind: VarDeclKind::Const,
        decls: vec![VarDeclarator {
            span: 2,
            name: Pat::Id(ident("g", 3)),
            init: Some(inner),
        }],
    })))];
    let out = run(items, false);
    assert!(out
        .diags
        .iter()
        .any(|d| matches!(d.kind, DiagKind::InlineUseCacheInClient)));
}

#[test]
fn client_layer_action_file_reexports_references() {
    // "use server"; export async function f() {} on the client layer
    let items = vec![
        str_stmt("use server", 1),
        ModuleItem::ExportDecl {
            span: 2,
            decl: Decl::Fn(FnDecl {
                ident: ident("f", 3),
                function: Function {
                    span: 4,
                    params: vec![],
                    body: Some(BlockStmt {
                        span: 5,
                        stmts: vec![],
                    }),
                    is_async: true,
                },
            }),
        },
    ];
    let out = run(items, false);
    assert!(out.diags.is_empty());
    let items = &out.module.items;
    // Import of the client wrapper first; the original item is dropped;
    // the export becomes a createServerReference call.
    assert!(matches!(
        &items[0],
        ModuleItem::Import(d) if d.src.value == "private-next-rsc-action-client-wrapper"
    ));
    assert!(!items.iter().any(|i| matches!(
        i,
        ModuleItem::ExportDecl { decl: Decl::Fn(_), .. }
    )));
    let reexport = items.iter().find_map(|i| match i {
        ModuleItem::ExportDecl { decl: Decl::Var(v), .. } => Some(v),
        _ => None,
    });
    let v = reexport.expect("the export is wrapped in a reference creation");
    assert!(matches!(&v.decls[0].name, Pat::Id(id) if id.sym == "f"));
    match v.decls[0].init.as_ref().unwrap() {
        Expr::Call(CallExpr {
            callee, args, pure, ..
        }) => {
            assert!(matches!(
                callee,
                Callee::Expr(e) if matches!(&**e, Expr::Id(i) if i.sym == "createServerReference")
            ));
            // The reference creation is marked pure for tree shaking.
            assert!(pure);
            assert_eq!(args.len(), 5);
            assert!(matches!(&args[2].expr, Expr::Undefined { .. }));
            assert!(matches!(
                &args[4].expr,
                Expr::Lit(Lit::Str(s)) if s.value == "f"
            ));
        }
        _ => panic!("expected the reference creation call"),
    }
}
