//! Capture selection and default-export hoisting paths.

use server_actions::ast::{
    ArrowExpr, BlockStmt, BlockStmtOrExpr, Callee, Decl, Expr, ExprOrSpread, FnDecl, FnExpr,
    Function, Ident, Lit, Module, ModuleItem, Pat, Span, Stmt, StrLit,
};
use server_actions::{server_actions, Config, TransformOutput};

fn ident(sym: &str, span: Span) -> Ident {
    Ident {
        sym: sym.to_string(),
        span,
        ctxt: 0,
    }
}

fn run(items: Vec<ModuleItem>, server_layer: bool) -> TransformOutput {
    server_actions(
        "/a.js",
        Config {
            is_react_server_layer: server_layer,
            enabled: true,
            hash_salt: String::new(),
        },
        Module { span: 0, items },
    )
}

#[test]
fn captures_exclude_own_parameters_and_module_bindings() {
    // export function outer(x) {
    //     return async function(p) { "use server"; return [p, x, z] }
    // }
    // Only `x` is captured: `p` is the action's own parameter and `z` is
    // not declared in any enclosing function scope.
    let inner = Expr::Fn(FnExpr {
        ident: None,
        function: Function {
            span: 10,
            params: vec![Pat::Id(ident("p", 11))],
            body: Some(BlockStmt {
                span: 12,
                stmts: vec![
                    Stmt::Expr {
                        span: 13,
                        expr: Expr::Lit(Lit::Str(StrLit {
                            value: "use server".to_string(),
                            span: 13,
                        })),
                    },
                    Stmt::Return {
                        span: 14,
                        arg: Some(Expr::Array {
                            span: 15,
                            elems: vec![
                                Some(ExprOrSpread {
                                    spread: false,
                                    expr: Expr::Id(ident("p", 16)),
                                }),
                                Some(ExprOrSpread {
                                    spread: false,
                                    expr: Expr::Id(ident("x", 17)),
                                }),
                                Some(ExprOrSpread {
                                    spread: false,
                                    expr: Expr::Id(ident("z", 18)),
                                }),
                            ],
                        }),
                    },
                ],
            }),
            is_async: true,
        },
    });
    let items = vec![ModuleItem::ExportDecl {
        span: 1,
        decl: Decl::Fn(FnDecl {
            ident: ident("outer", 2),
            function: Function {
                span: 3,
                params: vec![Pat::Id(ident("x", 4))],
                body: Some(BlockStmt {
                    span: 5,
                    stmts: vec![Stmt::Return {
                        span: 6,
                        arg: Some(inner),
                    }],
                }),
                is_async: false,
            },
        }),
    }];
    let out = run(items, true);
    let hoisted = out
        .module
        .items
        .iter()
        .find_map(|i| match i {
            ModuleItem::ExportDecl {
                decl: Decl::Fn(fd), ..
            } if fd.ident.sym.starts_with("$$RSC_SERVER_ACTION_") => Some(fd),
            _ => None,
        })
        .expect("the action is hoisted");
    // One closure argument, then the original parameter.
    assert_eq!(hoisted.function.params.len(), 2);
    assert!(matches!(
        &hoisted.function.params[0],
        Pat::Id(i) if i.sym == "$$ACTION_CLOSURE_BOUND"
    ));
    assert!(matches!(
        &hoisted.function.params[1],
        Pat::Id(i) if i.sym == "p"
    ));
    let stmts = &hoisted.function.body.as_ref().unwrap().stmts;
    // The decrypt head binds exactly one value.
    match &stmts[0] {
        Stmt::Decl(Decl::Var(v)) => match &v.decls[0].name {
            Pat::Array { elems } => assert_eq!(elems.len(), 1),
            _ => panic!("expected the destructuring pattern"),
        },
        _ => panic!("expected the decrypt declaration"),
    }
    // In the body, x became the placeholder; p and z survive.
    match &stmts[1] {
        Stmt::Return {
            arg: Some(Expr::Array { elems, .. }),
            ..
        } => {
            let syms: Vec<&str> = elems
                .iter()
                .map(|e| match e {
                    Some(ExprOrSpread {
                        expr: Expr::Id(i), ..
                    }) => i.sym.as_str(),
                    _ => panic!("expected identifiers"),
                })
                .collect();
            assert_eq!(syms, vec!["p", "$$ACTION_ARG_0", "z"]);
        }
        _ => panic!("expected the rewritten return"),
    }
}

#[test]
fn default_exported_arrow_gets_binding_and_hoists() {
    // "use server"; export default async () => 1
    let arrow = Expr::Arrow(ArrowExpr {
        span: 10,
        params: vec![],
        body: Box::new(BlockStmtOrExpr::Expr(Expr::Lit(Lit::Other { span: 11 }))),
        is_async: true,
    });
    let items = vec![
        ModuleItem::Stmt(Stmt::Expr {
            span: 1,
            expr: Expr::Lit(Lit::Str(StrLit {
                value: "use server".to_string(),
                span: 1,
            })),
        }),
        ModuleItem::ExportDefaultExpr { span: 2, expr: arrow },
    ];
    let out = run(items, true);
    assert!(out.diags.is_empty());
    // The catalogue covers the hoisted action and the default export.
    let names: Vec<&str> = out.actions.iter().map(|(_, n)| n.as_str()).collect();
    assert!(names.contains(&"$$RSC_SERVER_ACTION_1"));
    assert!(names.contains(&"default"));

    // The arrow is hoisted with its expression body as a return.
    let hoisted = out
        .module
        .items
        .iter()
        .find_map(|i| match i {
            ModuleItem::ExportDecl {
                decl: Decl::Fn(fd), ..
            } if fd.ident.sym == "$$RSC_SERVER_ACTION_1" => Some(fd),
            _ => None,
        })
        .expect("the default arrow is hoisted");
    assert!(hoisted.function.is_async);
    let stmts = &hoisted.function.body.as_ref().unwrap().stmts;
    assert_eq!(stmts.len(), 1);
    assert!(matches!(&stmts[0], Stmt::Return { .. }));

    // The default export became ($$ACTION_0 = <proxy>), with the bare
    // declaration `var $$ACTION_0;` emitted alongside.
    let default_expr = out
        .module
        .items
        .iter()
        .find_map(|i| match i {
            ModuleItem::ExportDefaultExpr { expr, .. } => Some(expr),
            _ => None,
        })
        .expect("the default export survives");
    match default_expr {
        Expr::Paren { expr, .. } => match &**expr {
            Expr::Assign { left, right, .. } => {
                assert_eq!(left.sym, "$$ACTION_0");
                assert!(matches!(
                    &**right,
                    Expr::Call(c) if matches!(
                        &c.callee,
                        Callee::Expr(e)
                            if matches!(&**e, Expr::Id(i) if i.sym == "registerServerReference")
                    )
                ));
            }
            _ => panic!("expected the named assignment"),
        },
        _ => panic!("expected the parenthesised assignment"),
    }
    assert!(out.module.items.iter().any(|i| matches!(
        i,
        ModuleItem::Stmt(Stmt::Decl(Decl::Var(v)))
            if matches!(&v.decls[0].name, Pat::Id(id) if id.sym == "$$ACTION_0")
                && v.decls[0].init.is_none()
    )));
}
