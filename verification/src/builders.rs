//! Builders for the code the pass emits: the runtime proxy reference,
//! the cache wrapper call, the decrypt-destructure head of hoisted
//! bodies, synthesised default-export bindings, and import statements.

use vstd::prelude::*;
use crate::ast::CallExpr;
use crate::ast::Callee;
use crate::ast::Expr;
use crate::ast::ExprOrSpread;
use crate::ast::Ident;
use crate::ast::Lit;
use crate::ast::MemberExpr;
use crate::ast::MemberProp;
use crate::ast::ModuleItem;
use crate::ast::Pat;
use crate::ast::Stmt;
use crate::ast::StrLit;
use crate::ast::VarDecl;
use crate::ast::VarDeclKind;
use crate::ast::VarDeclarator;
use crate::ast::DUMMY_SP;
use crate::naming::action_arg_chars;
use crate::naming::gen_arg_ident;

verus! {

/// `e` is the string literal `v`.
pub open spec fn is_str_expr(e: Expr, v: Seq<char>) -> bool {
    match e {
        Expr::Lit(l) => match l {
            Lit::Str(s) => s.value@ == v,
            _ => false,
        },
        _ => false,
    }
}

/// `e` is a bare identifier with the given symbol and hygiene context.
pub open spec fn is_plain_ident_expr(e: Expr, sym: Seq<char>, ctxt: u32) -> bool {
    match e {
        Expr::Id(i) => i.sym@ == sym && i.ctxt == ctxt,
        _ => false,
    }
}

/// `e` is `registerServerReference(<target>, "<id>", null)`.
pub open spec fn is_register_reference_call(
    e: Expr,
    tsym: Seq<char>,
    tspan: crate::ast::Span,
    tctxt: u32,
    id: Seq<char>,
    ctxt: u32,
) -> bool {
    match e {
        Expr::Call(c) => {
            &&& c.span == tspan
            &&& !c.pure
            &&& match c.callee {
                Callee::Expr(ce) => is_plain_ident_expr(*ce, "registerServerReference"@, ctxt),
                _ => false,
            }
            &&& c.args@.len() == 3
            &&& !c.args@[0].spread && match c.args@[0].expr {
                Expr::Id(i) => i.sym@ == tsym && i.span == tspan && i.ctxt == tctxt,
                _ => false,
            }
            &&& !c.args@[1].spread && is_str_expr(c.args@[1].expr, id)
            &&& !c.args@[2].spread
            &&& c.args@[2].expr matches Expr::Null { .. }
        },
        _ => false,
    }
}

/// `e` is `encryptActionBoundArgs("<id>", [bound...])`.
pub open spec fn is_encrypt_bound_args_call(
    e: Expr,
    id: Seq<char>,
    bound: Seq<ExprOrSpread>,
    ctxt: u32,
) -> bool {
    match e {
        Expr::Call(c) => {
            &&& c.span == DUMMY_SP
            &&& !c.pure
            &&& match c.callee {
                Callee::Expr(ce) => is_plain_ident_expr(*ce, "encryptActionBoundArgs"@, ctxt),
                _ => false,
            }
            &&& c.args@.len() == 2
            &&& !c.args@[0].spread && is_str_expr(c.args@[0].expr, id)
            &&& !c.args@[1].spread && match c.args@[1].expr {
                Expr::Array { elems, .. } => elems@.len() == bound.len() && forall|k: int|
                    0 <= k < bound.len() ==> elems@[k] == Some(bound[k]),
                _ => false,
            }
        },
        _ => false,
    }
}

/// `e` is `<proxy>.bind(null, encryptActionBoundArgs("<id>", [bound...]))`.
pub open spec fn is_bound_proxy(
    e: Expr,
    tsym: Seq<char>,
    tspan: crate::ast::Span,
    tctxt: u32,
    id: Seq<char>,
    bound: Seq<ExprOrSpread>,
    ctxt: u32,
) -> bool {
    match e {
        Expr::Call(c) => {
            &&& c.span == DUMMY_SP
            &&& !c.pure
            &&& match c.callee {
                Callee::Expr(ce) => match *ce {
                    Expr::Member(m) => is_register_reference_call(*m.obj, tsym, tspan, tctxt, id, ctxt)
                        && match m.prop {
                        MemberProp::Ident(s) => s@ == "bind"@,
                        _ => false,
                    },
                    _ => false,
                },
                _ => false,
            }
            &&& c.args@.len() == 2
            &&& !c.args@[0].spread
            &&& c.args@[0].expr matches Expr::Null { .. }
            &&& !c.args@[1].spread
            &&& is_encrypt_bound_args_call(c.args@[1].expr, id, bound, ctxt)
        },
        _ => false,
    }
}

/// `e` is the proxy for a hoisted definition: the bare register call
/// with no captures, the bound form otherwise.
pub open spec fn is_reference_proxy(
    e: Expr,
    tsym: Seq<char>,
    tspan: crate::ast::Span,
    tctxt: u32,
    id: Seq<char>,
    bound: Seq<ExprOrSpread>,
    ctxt: u32,
) -> bool {
    if bound.len() == 0 {
        is_register_reference_call(e, tsym, tspan, tctxt, id, ctxt)
    } else {
        is_bound_proxy(e, tsym, tspan, tctxt, id, bound, ctxt)
    }
}

/// Builds the registered-reference proxy for `ident`:
/// `registerServerReference(ident, "<id>", null)`, wrapped in
/// `.bind(null, encryptActionBoundArgs("<id>", [...]))` when captures
/// are bound.
pub fn annotate_ident_as_server_reference(
    ident: Ident,
    bound: Vec<ExprOrSpread>,
    action_id: &String,
    ctxt: u32,
) -> (r: Expr)
    ensures
        is_reference_proxy(r, ident.sym@, ident.span, ident.ctxt, action_id@, bound@, ctxt),
{
    let ghost gident = ident;
    let ghost gbound = bound@;
    let target_span = ident.span;
    let proxy = Expr::Call(
        CallExpr {
            span: target_span,
            pure: false,
            callee: Callee::Expr(
                Box::new(
                    Expr::Id(
                        Ident {
                            sym: String::from_str("registerServerReference"),
                            span: DUMMY_SP,
                            ctxt,
                        },
                    ),
                ),
            ),
            args: {
                let mut args: Vec<ExprOrSpread> = Vec::new();
                args.push(ExprOrSpread { spread: false, expr: Expr::Id(ident) });
                args.push(
                    ExprOrSpread {
                        spread: false,
                        expr: Expr::Lit(
                            Lit::Str(StrLit { value: action_id.clone(), span: DUMMY_SP }),
                        ),
                    },
                );
                args.push(ExprOrSpread { spread: false, expr: Expr::Null { span: DUMMY_SP } });
                args
            },
        },
    );
    proof {
        assert(is_register_reference_call(proxy, gident.sym@, gident.span, gident.ctxt, action_id@, ctxt));
    }
    if bound.len() == 0 {
        proxy
    } else {
        let encrypt = Expr::Call(
            CallExpr {
                span: DUMMY_SP,
                pure: false,
                callee: Callee::Expr(
                    Box::new(
                        Expr::Id(
                            Ident {
                                sym: String::from_str("encryptActionBoundArgs"),
                                span: DUMMY_SP,
                                ctxt,
                            },
                        ),
                    ),
                ),
                args: {
                    let mut args: Vec<ExprOrSpread> = Vec::new();
                    args.push(
                        ExprOrSpread {
                            spread: false,
                            expr: Expr::Lit(
                                Lit::Str(StrLit { value: action_id.clone(), span: DUMMY_SP }),
                            ),
                        },
                    );
                    args.push(
                        ExprOrSpread {
                            spread: false,
                            expr: Expr::Array {
                                span: DUMMY_SP,
                                elems: {
                                    let mut elems: Vec<Option<ExprOrSpread>> = Vec::new();
                                    let mut b = bound;
                                    while b.len() > 0
                                        invariant
                                            gbound =~= elems@.map_values(
                                                |x: Option<ExprOrSpread>| x->Some_0,
                                            ) + b@,
                                            forall|k: int|
                                                0 <= k < elems@.len() ==> (
                                                #[trigger] elems@[k]) is Some,
                                        decreases b.len(),
                                    {
                                        let a = b.remove(0);
                                        elems.push(Some(a));
                                        proof {
                                            assert(gbound =~= elems@.map_values(
                                                |x: Option<ExprOrSpread>| x->Some_0,
                                            ) + b@);
                                        }
                                    }
                                    proof {
                                        assert forall|k: int|
                                            0 <= k < gbound.len() implies elems@[k] == Some(
                                            gbound[k],
                                        ) by {
                                            assert(elems@[k] is Some);
                                            assert(elems@.map_values(
                                                |x: Option<ExprOrSpread>| x->Some_0,
                                            )[k] == gbound[k]);
                                        }
                                    }
                                    elems
                                },
                            },
                        },
                    );
                    args
                },
            },
        );
        proof {
            assert(is_encrypt_bound_args_call(encrypt, action_id@, gbound, ctxt));
        }
        let r = Expr::Call(
            CallExpr {
                span: DUMMY_SP,
                pure: false,
                callee: Callee::Expr(
                    Box::new(
                        Expr::Member(
                            MemberExpr {
                                span: DUMMY_SP,
                                obj: Box::new(proxy),
                                prop: MemberProp::Ident(String::from_str("bind")),
                            },
                        ),
                    ),
                ),
                args: {
                    let mut args: Vec<ExprOrSpread> = Vec::new();
                    args.push(
                        ExprOrSpread { spread: false, expr: Expr::Null { span: DUMMY_SP } },
                    );
                    args.push(ExprOrSpread { spread: false, expr: encrypt });
                    args
                },
            },
        );
        proof {
            assert(is_bound_proxy(r, gident.sym@, gident.span, gident.ctxt, action_id@, gbound, ctxt));
        }
        r
    }
}

/// `e` is `$$cache__("<kind>", "<id>", <inner>)`.
pub open spec fn is_cache_wrap(e: Expr, kind: Seq<char>, id: Seq<char>, inner: Expr, ctxt: u32) -> bool {
    match e {
        Expr::Call(c) => {
            &&& c.span == DUMMY_SP
            &&& !c.pure
            &&& match c.callee {
                Callee::Expr(ce) => is_plain_ident_expr(*ce, "$$cache__"@, ctxt),
                _ => false,
            }
            &&& c.args@.len() == 3
            &&& !c.args@[0].spread && is_str_expr(c.args@[0].expr, kind)
            &&& !c.args@[1].spread && is_str_expr(c.args@[1].expr, id)
            &&& !c.args@[2].spread && c.args@[2].expr == inner
        },
        _ => false,
    }
}

/// Builds `$$cache__("<kind>", "<id>", expr)`.
pub fn wrap_cache_expr(expr: Expr, kind: &String, id: &String, ctxt: u32) -> (r: Expr)
    ensures
        is_cache_wrap(r, kind@, id@, expr, ctxt),
{
    let ghost gexpr = expr;
    let r = Expr::Call(
        CallExpr {
            span: DUMMY_SP,
            pure: false,
            callee: Callee::Expr(
                Box::new(
                    Expr::Id(
                        Ident { sym: String::from_str("$$cache__"), span: DUMMY_SP, ctxt },
                    ),
                ),
            ),
            args: {
                let mut args: Vec<ExprOrSpread> = Vec::new();
                args.push(
                    ExprOrSpread {
                        spread: false,
                        expr: Expr::Lit(Lit::Str(StrLit { value: kind.clone(), span: DUMMY_SP })),
                    },
                );
                args.push(
                    ExprOrSpread {
                        spread: false,
                        expr: Expr::Lit(Lit::Str(StrLit { value: id.clone(), span: DUMMY_SP })),
                    },
                );
                args.push(ExprOrSpread { spread: false, expr });
                args
            },
        },
    );
    r
}

/// `s` is `var [$$ACTION_ARG_0, ...] = await decryptActionBoundArgs("<id>", $$ACTION_CLOSURE_BOUND);`.
pub open spec fn is_decrypt_decl(s: Stmt, n: nat, id: Seq<char>, ctxt: u32) -> bool {
    match s {
        Stmt::Decl(d) => match d {
            crate::ast::Decl::Var(v) => {
                &&& v.kind == VarDeclKind::Var
                &&& v.decls@.len() == 1
                &&& match v.decls@[0].name {
                    Pat::Array { elems } => elems@.len() == n && forall|k: int|
                        0 <= k < n ==> match #[trigger] elems@[k] {
                            Some(p) => match p {
                                Pat::Id(i) => i.sym@ == action_arg_chars(k as nat) && i.ctxt
                                    == ctxt,
                                _ => false,
                            },
                            None => false,
                        },
                    _ => false,
                }
                &&& match v.decls@[0].init {
                    Some(init) => match init {
                        Expr::Await { arg, .. } => match *arg {
                            Expr::Call(c) => {
                                &&& !c.pure
                                &&& match c.callee {
                                    Callee::Expr(ce) => is_plain_ident_expr(
                                        *ce,
                                        "decryptActionBoundArgs"@,
                                        ctxt,
                                    ),
                                    _ => false,
                                }
                                &&& c.args@.len() == 2
                                &&& !c.args@[0].spread && is_str_expr(c.args@[0].expr, id)
                                &&& !c.args@[1].spread && is_plain_ident_expr(
                                    c.args@[1].expr,
                                    "$$ACTION_CLOSURE_BOUND"@,
                                    ctxt,
                                )
                            },
                            _ => false,
                        },
                        _ => false,
                    },
                    None => false,
                }
            },
            _ => false,
        },
        _ => false,
    }
}

/// Builds the decrypt-destructure statement that re-binds `n` closure
/// arguments at the head of a hoisted body.
#[verifier::loop_isolation(false)]
pub fn make_decrypt_decl(n: usize, action_id: &String, ctxt: u32) -> (r: Stmt)
    ensures
        is_decrypt_decl(r, n as nat, action_id@, ctxt),
{
    let mut elems: Vec<Option<Pat>> = Vec::new();
    let mut i: usize = 0;
    while i < n
        invariant
            i <= n,
            elems@.len() == i,
            forall|k: int|
                0 <= k < i ==> match #[trigger] elems@[k] {
                    Some(p) => match p {
                        Pat::Id(id2) => id2.sym@ == action_arg_chars(k as nat) && id2.ctxt == ctxt,
                        _ => false,
                    },
                    None => false,
                },
        decreases n - i,
    {
        elems.push(Some(Pat::Id(Ident { sym: gen_arg_ident(i), span: DUMMY_SP, ctxt })));
        i = i + 1;
    }
    let init = Expr::Await {
        span: DUMMY_SP,
        arg: Box::new(
            Expr::Call(
                CallExpr {
                    span: DUMMY_SP,
                    pure: false,
                    callee: Callee::Expr(
                        Box::new(
                            Expr::Id(
                                Ident {
                                    sym: String::from_str("decryptActionBoundArgs"),
                                    span: DUMMY_SP,
                                    ctxt,
                                },
                            ),
                        ),
                    ),
                    args: {
                        let mut args: Vec<ExprOrSpread> = Vec::new();
                        args.push(
                            ExprOrSpread {
                                spread: false,
                                expr: Expr::Lit(
                                    Lit::Str(StrLit { value: action_id.clone(), span: DUMMY_SP }),
                                ),
                            },
                        );
                        args.push(
                            ExprOrSpread {
                                spread: false,
                                expr: Expr::Id(
                                    Ident {
                                        sym: String::from_str("$$ACTION_CLOSURE_BOUND"),
                                        span: DUMMY_SP,
                                        ctxt,
                                    },
                                ),
                            },
                        );
                        args
                    },
                },
            ),
        ),
    };
    let mut decls: Vec<VarDeclarator> = Vec::new();
    decls.push(VarDeclarator { span: DUMMY_SP, name: Pat::Array { elems }, init: Some(init) });
    Stmt::Decl(crate::ast::Decl::Var(VarDecl { span: DUMMY_SP, kind: VarDeclKind::Var, decls }))
}

/// The parameter that carries the encrypted closure values.
pub fn make_closure_bound_param(ctxt: u32) -> (r: Pat)
    ensures
        r matches Pat::Id(i) && i.sym@ == "$$ACTION_CLOSURE_BOUND"@ && i.ctxt == ctxt,
{
    Pat::Id(Ident { sym: String::from_str("$$ACTION_CLOSURE_BOUND"), span: DUMMY_SP, ctxt })
}

/// Relates `attach_name_to_expr`'s result to its inputs: a parenthesised
/// expression passes through; anything else becomes
/// `(<ident> = <expr>)`.
pub open spec fn is_attached_name(r: Expr, ident: Ident, expr: Expr) -> bool {
    match expr {
        Expr::Paren { .. } => r == expr,
        _ => match r {
            Expr::Paren { expr: inner, .. } => match *inner {
                Expr::Assign { left, right, .. } => left == ident && *right == expr,
                _ => false,
            },
            _ => false,
        },
    }
}

/// `item` is the bare declaration `var <ident>;`.
pub open spec fn is_bare_var_decl_item(item: ModuleItem, ident: Ident) -> bool {
    match item {
        ModuleItem::Stmt(s) => match s {
            Stmt::Decl(d) => match d {
                crate::ast::Decl::Var(v) => {
                    &&& v.kind == VarDeclKind::Var
                    &&& v.decls@.len() == 1
                    &&& v.decls@[0].name == Pat::Id(ident)
                    &&& v.decls@[0].init is None
                },
                _ => false,
            },
            _ => false,
        },
        _ => false,
    }
}

/// Gives an anonymous default-exported expression a binding: appends
/// `var <ident>;` to the extra items and yields `(<ident> = <expr>)`
/// (a parenthesised expression passes through unchanged).
pub fn attach_name_to_expr(ident: Ident, expr: Expr, extra_items: &mut Vec<ModuleItem>) -> (r: Expr)
    ensures
        final(extra_items)@.len() == old(extra_items)@.len() + 1,
        final(extra_items)@ == old(extra_items)@.push(final(extra_items)@.last()),
        is_bare_var_decl_item(final(extra_items)@.last(), ident),
        is_attached_name(r, ident, expr),
{
    let ghost gident = ident;
    let mut decls: Vec<VarDeclarator> = Vec::new();
    decls.push(VarDeclarator { span: DUMMY_SP, name: Pat::Id(ident.clone()), init: None });
    extra_items.push(
        ModuleItem::Stmt(
            Stmt::Decl(
                crate::ast::Decl::Var(
                    VarDecl { span: DUMMY_SP, kind: VarDeclKind::Var, decls },
                ),
            ),
        ),
    );
    let is_paren = match &expr {
        Expr::Paren { .. } => true,
        _ => false,
    };
    if is_paren {
        expr
    } else {
        Expr::Paren {
            span: DUMMY_SP,
            expr: Box::new(
                Expr::Assign { span: DUMMY_SP, left: ident, right: Box::new(expr) },
            ),
        }
    }
}

} // verus!
