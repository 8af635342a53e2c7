//! End-to-end runs of the pass over small modules.

use server_actions::ast::{
    ArrowExpr, BlockStmt, BlockStmtOrExpr, Callee, CallExpr, Decl, Expr, FnDecl, FnExpr, Function,
    Ident, ImportSpecifier, Lit, MemberProp, Module, ModuleExportName, ModuleItem, Pat, Span, Stmt,
    StrLit, VarDecl, VarDeclKind, VarDeclarator,
};
use server_actions::diag::{Diag, DiagKind};
use server_actions::{server_actions, Config, TransformOutput};
use sha1::{Digest, Sha1};

fn server_config() -> Config {
    Config {
        is_react_server_layer: true,
        enabled: true,
        hash_salt: String::new(),
    }
}

fn ident(sym: &str, span: Span) -> Ident {
    Ident {
        sym: sym.to_string(),
        span,
        ctxt: 0,
    }
}

fn str_stmt(value: &str, span: Span) -> ModuleItem {
    ModuleItem::Stmt(Stmt::Expr {
        span,
        expr: Expr::Lit(Lit::Str(StrLit {
            value: value.to_string(),
            span,
        })),
    })
}

fn expected_id(salt: &str, file: &str, name: &str) -> String {
    let mut hasher = Sha1::new();
    hasher.update(salt.as_bytes());
    hasher.update(file.as_bytes());
    hasher.update(b":");
    hasher.update(name.as_bytes());
    hex::encode(hasher.finalize())
}

fn run(items: Vec<ModuleItem>, config: Config) -> TransformOutput {
    server_actions("/a.js", config, Module { span: 0, items })
}

fn is_import_from(item: &ModuleItem, src: &str) -> bool {
    matches!(item, ModuleItem::Import(d) if d.src.value == src)
}

#[test]
fn server_action_file_single_export() {
    // "use server"; export async function f(a) { return a + 1 }
    let body = BlockStmt {
        span: 5,
        stmts: vec![Stmt::Return {
            span: 6,
            arg: Some(Expr::Other {
                span: 7,
                children: vec![Expr::Id(ident("a", 8)), Expr::Lit(Lit::Other { span: 9 })],
            }),
        }],
    };
    let items = vec![
        str_stmt("use server", 1),
        ModuleItem::ExportDecl {
            span: 2,
            decl: Decl::Fn(FnDecl {
                ident: ident("f", 3),
                function: Function {
                    span: 4,
                    params: vec![Pat::Id(ident("a", 8))],
                    body: Some(body),
                    is_async: true,
                },
            }),
        },
    ];
    let out = run(items, server_config());
    assert!(out.diags.is_empty());

    // Catalogue: exactly the export name under its id.
    let id = expected_id("", "/a.js", "f");
    assert_eq!(out.actions, vec![(id.clone(), "f".to_string())]);
    let comment = out.comment.expect("an action file gets the magic comment");
    assert_eq!(
        comment,
        format!(
            " __next_internal_action_entry_do_not_use__ {{\"{}\":\"f\"}} ",
            id
        )
    );

    // The directive is gone; the export survives; the runtime pieces follow.
    let items = &out.module.items;
    assert_eq!(items.len(), 6);
    assert!(is_import_from(&items[0], "private-next-rsc-server-reference"));
    assert!(is_import_from(&items[1], "private-next-rsc-action-encryption"));
    assert!(matches!(
        &items[2],
        ModuleItem::ExportDecl {
            decl: Decl::Fn(fd),
            ..
        } if fd.ident.sym == "f" && fd.function.is_async
    ));
    // registerServerReference(f, "<id>", null)
    match &items[3] {
        ModuleItem::Stmt(Stmt::Expr { expr: Expr::Call(c), .. }) => {
            match &c.callee {
                Callee::Expr(e) => {
                    assert!(matches!(&**e, Expr::Id(i) if i.sym == "registerServerReference"))
                }
                _ => panic!("expected an identifier callee"),
            }
            assert_eq!(c.args.len(), 3);
            assert!(matches!(&c.args[0].expr, Expr::Id(i) if i.sym == "f"));
            assert!(matches!(&c.args[1].expr, Expr::Lit(Lit::Str(s)) if s.value == id));
            assert!(matches!(&c.args[2].expr, Expr::Null { .. }));
        }
        _ => panic!("expected the annotation statement"),
    }
    assert!(is_import_from(&items[4], "private-next-rsc-action-validate"));
    // ensureServerEntryExports([f]) trails the module.
    match &items[5] {
        ModuleItem::Stmt(Stmt::Expr { expr: Expr::Call(c), .. }) => {
            match &c.callee {
                Callee::Expr(e) => {
                    assert!(matches!(&**e, Expr::Id(i) if i.sym == "ensureServerEntryExports"))
                }
                _ => panic!("expected an identifier callee"),
            }
            assert_eq!(c.args.len(), 1);
            match &c.args[0].expr {
                Expr::Array { elems, .. } => {
                    assert_eq!(elems.len(), 1);
                    assert!(matches!(
                        &elems[0],
                        Some(a) if matches!(&a.expr, Expr::Id(i) if i.sym == "f")
                    ));
                }
                _ => panic!("expected the exported bindings as an array"),
            }
        }
        _ => panic!("expected the validation call"),
    }
}

#[test]
fn inline_action_with_capture() {
    // export function outer(x) { return async function inner() { "use server"; return x } }
    let inner = Expr::Fn(FnExpr {
        ident: Some(ident("inner", 10)),
        function: Function {
            span: 11,
            params: vec![],
            body: Some(BlockStmt {
                span: 12,
                stmts: vec![
                    Stmt::Expr {
                        span: 13,
                        expr: Expr::Lit(Lit::Str(StrLit {
                            value: "use server".to_string(),
                            span: 13,
                        })),
                    },
                    Stmt::Return {
                        span: 14,
                        arg: Some(Expr::Id(ident("x", 15))),
                    },
                ],
            }),
            is_async: true,
        },
    });
    let items = vec![ModuleItem::ExportDecl {
        span: 1,
        decl: Decl::Fn(FnDecl {
            ident: ident("outer", 2),
            function: Function {
                span: 3,
                params: vec![Pat::Id(ident("x", 4))],
                body: Some(BlockStmt {
                    span: 5,
                    stmts: vec![Stmt::Return {
                        span: 6,
                        arg: Some(inner),
                    }],
                }),
                is_async: false,
            },
        }),
    }];
    let out = run(items, server_config());
    assert!(out.diags.is_empty());
    let id = expected_id("", "/a.js", "$$RSC_SERVER_ACTION_0");
    assert_eq!(
        out.actions,
        vec![(id.clone(), "$$RSC_SERVER_ACTION_0".to_string())]
    );

    let items = &out.module.items;
    assert_eq!(items.len(), 4);
    assert!(is_import_from(&items[0], "private-next-rsc-server-reference"));
    assert!(is_import_from(&items[1], "private-next-rsc-action-encryption"));

    // inner is replaced by registerServerReference(...).bind(null, encryptActionBoundArgs("<id>", [x]))
    let outer_ret = match &items[2] {
        ModuleItem::ExportDecl {
            decl: Decl::Fn(fd), ..
        } => match &fd.function.body.as_ref().unwrap().stmts[0] {
            Stmt::Return { arg: Some(e), .. } => e,
            _ => panic!("outer should still return"),
        },
        _ => panic!("outer should stay an export"),
    };
    match outer_ret {
        Expr::Call(bind_call) => {
            match &bind_call.callee {
                Callee::Expr(m) => match &**m {
                    Expr::Member(me) => {
                        assert!(matches!(&me.prop, MemberProp::Ident(p) if p == "bind"));
                        match &*me.obj {
                            Expr::Call(reg) => {
                                assert!(matches!(
                                    &reg.args[0].expr,
                                    Expr::Id(i) if i.sym == "$$RSC_SERVER_ACTION_0"
                                ));
                                assert!(matches!(
                                    &reg.args[1].expr,
                                    Expr::Lit(Lit::Str(s)) if s.value == id
                                ));
                            }
                            _ => panic!("expected the register call"),
                        }
                    }
                    _ => panic!("expected a .bind member callee"),
                },
                _ => panic!("expected an expression callee"),
            }
            // .bind(null, encryptActionBoundArgs("<id>", [x]))
            assert!(matches!(&bind_call.args[0].expr, Expr::Null { .. }));
            match &bind_call.args[1].expr {
                Expr::Call(enc) => {
                    assert!(matches!(
                        &enc.args[0].expr,
                        Expr::Lit(Lit::Str(s)) if s.value == id
                    ));
                    match &enc.args[1].expr {
                        Expr::Array { elems, .. } => {
                            assert_eq!(elems.len(), 1);
                            assert!(matches!(
                                &elems[0],
                                Some(a) if matches!(&a.expr, Expr::Id(i) if i.sym == "x")
                            ));
                        }
                        _ => panic!("expected the captured values array"),
                    }
                }
                _ => panic!("expected the encrypt call"),
            }
        }
        _ => panic!("expected the bound proxy"),
    }

    // The hoisted definition.
    match &items[3] {
        ModuleItem::ExportDecl {
            decl: Decl::Fn(fd), ..
        } => {
            assert_eq!(fd.ident.sym, "$$RSC_SERVER_ACTION_0");
            assert!(fd.function.is_async);
            assert_eq!(fd.function.params.len(), 1);
            assert!(matches!(
                &fd.function.params[0],
                Pat::Id(i) if i.sym == "$$ACTION_CLOSURE_BOUND"
            ));
            let stmts = &fd.function.body.as_ref().unwrap().stmts;
            assert_eq!(stmts.len(), 2);
            // var [$$ACTION_ARG_0] = await decryptActionBoundArgs("<id>", $$ACTION_CLOSURE_BOUND);
            match &stmts[0] {
                Stmt::Decl(Decl::Var(v)) => {
                    assert!(matches!(v.kind, VarDeclKind::Var));
                    match &v.decls[0].name {
                        Pat::Array { elems } => {
                            assert!(matches!(
                                &elems[0],
                                Some(Pat::Id(i)) if i.sym == "$$ACTION_ARG_0"
                            ));
                        }
                        _ => panic!("expected the destructuring pattern"),
                    }
                    match v.decls[0].init.as_ref().unwrap() {
                        Expr::Await { arg, .. } => match &**arg {
                            Expr::Call(c) => {
                                assert!(matches!(
                                    &c.callee,
                                    Callee::Expr(e)
                                        if matches!(&**e, Expr::Id(i) if i.sym == "decryptActionBoundArgs")
                                ));
                                assert!(matches!(
                                    &c.args[0].expr,
                                    Expr::Lit(Lit::Str(s)) if s.value == id
                                ));
                            }
                            _ => panic!("expected the decrypt call"),
                        },
                        _ => panic!("expected an awaited decrypt"),
                    }
                }
                _ => panic!("expected the decrypt declaration first"),
            }
            // return $$ACTION_ARG_0
            assert!(matches!(
                &stmts[1],
                Stmt::Return { arg: Some(Expr::Id(i)), .. } if i.sym == "$$ACTION_ARG_0"
            ));
        }
        _ => panic!("expected the hoisted action"),
    }
}

#[test]
fn cache_arrow() {
    // export const f = async () => { "use cache"; return 1 }
    let arrow = Expr::Arrow(ArrowExpr {
        span: 10,
        params: vec![],
        body: Box::new(BlockStmtOrExpr::Block(BlockStmt {
            span: 11,
            stmts: vec![
                Stmt::Expr {
                    span: 12,
                    expr: Expr::Lit(Lit::Str(StrLit {
                        value: "use cache".to_string(),
                        span: 12,
                    })),
                },
                Stmt::Return {
                    span: 13,
                    arg: Some(Expr::Lit(Lit::Other { span: 14 })),
                },
            ],
        })),
        is_async: true,
    });
    let items = vec![ModuleItem::ExportDecl {
        span: 1,
        decl: Decl::Var(VarDecl {
            span: 2,
            kind: VarDeclKind::Const,
            decls: vec![VarDeclarator {
                span: 3,
                name: Pat::Id(ident("f", 4)),
                init: Some(arrow),
            }],
        }),
    }];
    let out = run(items, server_config());
    assert!(out.diags.is_empty());
    let id = expected_id("", "/a.js", "$$RSC_SERVER_CACHE_0");
    assert_eq!(
        out.actions,
        vec![(id.clone(), "$$RSC_SERVER_CACHE_0".to_string())]
    );

    let items = &out.module.items;
    assert_eq!(items.len(), 5);
    assert!(is_import_from(&items[0], "private-next-rsc-server-reference"));
    assert!(is_import_from(&items[1], "private-next-rsc-action-encryption"));
    assert!(is_import_from(&items[2], "private-next-rsc-cache-wrapper"));
    match &items[2] {
        ModuleItem::Import(d) => match &d.specifiers[0] {
            ImportSpecifier::Named { local, imported } => {
                assert_eq!(local.sym, "$$cache__");
                assert!(matches!(
                    imported,
                    Some(ModuleExportName::Ident(i)) if i.sym == "cache"
                ));
            }
            _ => panic!("expected a named import"),
        },
        _ => unreachable!(),
    }
    // export var $$RSC_SERVER_CACHE_0 = $$cache__("default", "<id>", async function() { return 1 });
    match &items[3] {
        ModuleItem::ExportDecl {
            decl: Decl::Var(v), ..
        } => {
            assert!(matches!(v.kind, VarDeclKind::Var));
            assert!(matches!(
                &v.decls[0].name,
                Pat::Id(i) if i.sym == "$$RSC_SERVER_CACHE_0"
            ));
            match v.decls[0].init.as_ref().unwrap() {
                Expr::Call(c) => {
                    assert!(matches!(
                        &c.callee,
                        Callee::Expr(e) if matches!(&**e, Expr::Id(i) if i.sym == "$$cache__")
                    ));
                    assert!(matches!(
                        &c.args[0].expr,
                        Expr::Lit(Lit::Str(s)) if s.value == "default"
                    ));
                    assert!(matches!(
                        &c.args[1].expr,
                        Expr::Lit(Lit::Str(s)) if s.value == id
                    ));
                    match &c.args[2].expr {
                        Expr::Fn(fe) => {
                            assert!(fe.ident.is_none());
                            assert!(fe.function.is_async);
                            let stmts = &fe.function.body.as_ref().unwrap().stmts;
                            assert_eq!(stmts.len(), 1);
                            assert!(matches!(&stmts[0], Stmt::Return { .. }));
                        }
                        _ => panic!("expected the inner function"),
                    }
                }
                _ => panic!("expected the cache wrapper call"),
            }
        }
        _ => panic!("expected the hoisted cache definition"),
    }
    // The original initialiser is now the proxy.
    match &items[4] {
        ModuleItem::ExportDecl {
            decl: Decl::Var(v), ..
        } => {
            assert!(matches!(&v.decls[0].name, Pat::Id(i) if i.sym == "f"));
            match v.decls[0].init.as_ref().unwrap() {
                Expr::Call(c) => {
                    assert!(matches!(
                        &c.callee,
                        Callee::Expr(e)
                            if matches!(&**e, Expr::Id(i) if i.sym == "registerServerReference")
                    ));
                    assert!(matches!(
                        &c.args[0].expr,
                        Expr::Id(i) if i.sym == "$$RSC_SERVER_CACHE_0"
                    ));
                }
                _ => panic!("expected the proxy call"),
            }
        }
        _ => panic!("expected the rewritten export"),
    }
}

#[test]
fn non_async_action_diagnostic() {
    // "use server"; export function f() {}
    let items = vec![
        str_stmt("use server", 1),
        ModuleItem::ExportDecl {
            span: 2,
            decl: Decl::Fn(FnDecl {
                ident: ident("f", 3),
                function: Function {
                    span: 4,
                    params: vec![],
                    body: Some(BlockStmt {
                        span: 5,
                        stmts: vec![],
                    }),
                    is_async: false,
                },
            }),
        },
    ];
    let out = run(items, server_config());
    assert_eq!(out.diags.len(), 1);
    assert_eq!(
        out.diags[0],
        Diag {
            span: 3,
            kind: DiagKind::ActionNotAsync
        }
    );
    assert_eq!(
        out.diags[0].message(),
        "Server actions must be async functions"
    );
    // The rewrite still happens: the comment and the annotations are emitted.
    assert!(out.comment.is_some());
    assert!(out
        .module
        .items
        .iter()
        .any(|i| is_import_from(i, "private-next-rsc-action-validate")));
}

#[test]
fn directive_typo() {
    // "use servers"; export async function f() {}
    let items = vec![
        str_stmt("use servers", 1),
        ModuleItem::ExportDecl {
            span: 2,
            decl: Decl::Fn(FnDecl {
                ident: ident("f", 3),
                function: Function {
                    span: 4,
                    params: vec![],
                    body: Some(BlockStmt {
                        span: 5,
                        stmts: vec![],
                    }),
                    is_async: true,
                },
            }),
        },
    ];
    let out = run(items, server_config());
    assert_eq!(out.diags.len(), 1);
    assert_eq!(
        out.diags[0],
        Diag {
            span: 1,
            kind: DiagKind::ServerDirectiveTypo {
                value: "use servers".to_string()
            }
        }
    );
    assert_eq!(
        out.diags[0].message(),
        "Did you mean \"use server\"? \"use servers\" is not a supported directive name."
    );
    // Not removed, and no catalogue.
    assert!(out.comment.is_none());
    assert!(out.actions.is_empty());
    assert!(matches!(
        &out.module.items[0],
        ModuleItem::Stmt(Stmt::Expr {
            expr: Expr::Lit(Lit::Str(s)),
            ..
        }) if s.value == "use servers"
    ));
}

#[test]
fn parenthesised_directive() {
    // ("use server"); export async function f() {}
    let items = vec![
        ModuleItem::Stmt(Stmt::Expr {
            span: 1,
            expr: Expr::Paren {
                span: 2,
                expr: Box::new(Expr::Lit(Lit::Str(StrLit {
                    value: "use server".to_string(),
                    span: 3,
                }))),
            },
        }),
        ModuleItem::ExportDecl {
            span: 4,
            decl: Decl::Fn(FnDecl {
                ident: ident("f", 5),
                function: Function {
                    span: 6,
                    params: vec![],
                    body: Some(BlockStmt {
                        span: 7,
                        stmts: vec![],
                    }),
                    is_async: true,
                },
            }),
        },
    ];
    let out = run(items, server_config());
    assert_eq!(out.diags.len(), 1);
    assert_eq!(
        out.diags[0],
        Diag {
            span: 1,
            kind: DiagKind::ServerDirectiveParens
        }
    );
    assert_eq!(
        out.diags[0].message(),
        "The \"use server\" directive cannot be wrapped in parentheses."
    );
    assert!(out.comment.is_none());
    assert!(out.actions.is_empty());
}

#[test]
fn deterministic_output() {
    // The same module and configuration give byte-identical results.
    let make = || {
        vec![
            str_stmt("use server", 1),
            ModuleItem::ExportDecl {
                span: 2,
                decl: Decl::Fn(FnDecl {
                    ident: ident("go", 3),
                    function: Function {
                        span: 4,
                        params: vec![],
                        body: Some(BlockStmt {
                            span: 5,
                            stmts: vec![],
                        }),
                        is_async: true,
                    },
                }),
            },
        ]
    };
    let a = run(make(), server_config());
    let b = run(make(), server_config());
    assert_eq!(a.module, b.module);
    assert_eq!(a.comment, b.comment);
    assert_eq!(a.actions, b.actions);
    assert_eq!(a.diags, b.diags);
}

#[test]
fn inline_use_server_on_client_layer() {
    // const g = async function() { "use server"; return 1 } on the client layer
    let inner = Expr::Fn(FnExpr {
        ident: None,
        function: Function {
            span: 10,
            params: vec![],
            body: Some(BlockStmt {
                span: 11,
                stmts: vec![Stmt::Expr {
                    span: 12,
                    expr: Expr::Lit(Lit::Str(StrLit {
                        value: "use server".to_string(),
                        span: 12,
                    })),
                }],
            }),
            is_async: true,
        },
    });
    let items = vec![ModuleItem::Stmt(Stmt::Decl(Decl::Var(VarDecl {
        span: 1,
        kind: VarDeclKind::Const,
        decls: vec![VarDeclarator {
            span: 2,
            name: Pat::Id(ident("g", 3)),
            init: Some(inner),
        }],
    })))];
    let config = Config {
        is_react_server_layer: false,
        enabled: true,
        hash_salt: String::new(),
    };
    let out = run(items, config);
    assert!(out
        .diags
        .iter()
        .any(|d| matches!(d.kind, DiagKind::InlineUseServerInClient)));
}
