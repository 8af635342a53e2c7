//! The closure rewriter: inside a hoisted body, every expression that
//! canonicalises to one of the captured qualified names becomes the
//! positional placeholder `$$ACTION_ARG_<i>`, and a shorthand object
//! property becomes an explicit key-value pair with that placeholder.

use vstd::prelude::*;
use crate::ast::ArrowExpr;
use crate::ast::BlockStmt;
use crate::ast::BlockStmtOrExpr;
use crate::ast::Callee;
use crate::ast::CallExpr;
use crate::ast::ClassDecl;
use crate::ast::ClassMember;
use crate::ast::Decl;
use crate::ast::Expr;
use crate::ast::ExprOrSpread;
use crate::ast::FnDecl;
use crate::ast::FnExpr;
use crate::ast::Function;
use crate::ast::Ident;
use crate::ast::MemberExpr;
use crate::ast::MemberProp;
use crate::ast::ObjectPatProp;
use crate::ast::OptChainBase;
use crate::ast::OptChainExpr;
use crate::ast::Pat;
use crate::ast::Prop;
use crate::ast::PropName;
use crate::ast::PropOrSpread;
use crate::ast::Stmt;
use crate::ast::VarDecl;
use crate::ast::VarDeclarator;
use crate::ast::DUMMY_SP;
use crate::naming::action_arg_chars;
use crate::naming::gen_arg_ident;
use crate::qualname::expr_as_name;
use crate::qualname::ident_name_v;
use crate::qualname::ident_to_name;
use crate::qualname::name_eq;
use crate::qualname::names_v;
use crate::qualname::qn_v;
use crate::qualname::try_expr_to_name;
use crate::qualname::QualName;
use crate::qualname::QualNameV;

verus! {

/// The position of the first occurrence of `q` in `used`.
pub open spec fn is_first_index(used: Seq<QualNameV>, q: QualNameV, i: int) -> bool {
    &&& 0 <= i < used.len()
    &&& used[i] == q
    &&& forall|j: int| 0 <= j < i ==> used[j] != q
}

/// Whether `n` is the placeholder identifier standing for capture `i`.
pub open spec fn is_arg_ident(n: Expr, i: int, ctxt: u32) -> bool {
    match n {
        Expr::Id(id) => id.sym@ == action_arg_chars(i as nat) && id.ctxt == ctxt && id.span
            == DUMMY_SP,
        _ => false,
    }
}

/// Whether `n` is the placeholder for the capture that `q` names.
pub open spec fn is_replacement(n: Expr, used: Seq<QualNameV>, q: QualNameV, ctxt: u32) -> bool {
    exists|i: int| is_first_index(used, q, i) && is_arg_ident(n, i, ctxt)
}

/// Whether the old expression canonicalises to a captured name.
pub open spec fn expr_matches(o: Expr, used: Seq<QualNameV>) -> bool {
    expr_as_name(o) matches Some(q) && used.contains(q)
}

/// Relates an expression to its rewriting: a capture use becomes its
/// placeholder; anything else keeps its shape with rewritten children.
pub open spec fn rewritten_expr(o: Expr, n: Expr, used: Seq<QualNameV>, ctxt: u32) -> bool
    decreases o,
{
    if expr_matches(o, used) {
        is_replacement(n, used, expr_as_name(o)->Some_0, ctxt)
    } else {
        match o {
            Expr::Id(_) => n == o,
            Expr::Lit(_) => n == o,
            Expr::Null { .. } => n == o,
            Expr::Undefined { .. } => n == o,
            Expr::Array { span, elems } => match n {
                Expr::Array { span: nspan, elems: nelems } => nspan == span
                    && rewritten_opt_args(elems@, nelems@, used, ctxt),
                _ => false,
            },
            Expr::Object { span, props } => match n {
                Expr::Object { span: nspan, props: nprops } => nspan == span
                    && rewritten_props(props@, nprops@, used, ctxt),
                _ => false,
            },
            Expr::Fn(f) => match n {
                Expr::Fn(nf) => nf.ident == f.ident && rewritten_function(
                    f.function,
                    nf.function,
                    used,
                    ctxt,
                ),
                _ => false,
            },
            Expr::Arrow(a) => match n {
                Expr::Arrow(na) => na.span == a.span && na.is_async == a.is_async
                    && rewritten_pats(a.params@, na.params@, used, ctxt) && rewritten_body(
                    *a.body,
                    *na.body,
                    used,
                    ctxt,
                ),
                _ => false,
            },
            Expr::Member(m) => match n {
                Expr::Member(nm) => nm.span == m.span && nm.prop == m.prop && rewritten_expr(
                    *m.obj,
                    *nm.obj,
                    used,
                    ctxt,
                ),
                _ => false,
            },
            Expr::OptChain(oc) => match n {
                Expr::OptChain(noc) => noc.span == oc.span && noc.optional == oc.optional
                    && rewritten_opt_base(*oc.base, *noc.base, used, ctxt),
                _ => false,
            },
            Expr::Call(c) => match n {
                Expr::Call(nc) => nc.span == c.span && nc.pure == c.pure && rewritten_callee(
                    c.callee,
                    nc.callee,
                    used,
                    ctxt,
                ) && rewritten_args(c.args@, nc.args@, used, ctxt),
                _ => false,
            },
            Expr::Paren { span, expr } => match n {
                Expr::Paren { span: nspan, expr: nexpr } => nspan == span && rewritten_expr(
                    *expr,
                    *nexpr,
                    used,
                    ctxt,
                ),
                _ => false,
            },
            Expr::Await { span, arg } => match n {
                Expr::Await { span: nspan, arg: narg } => nspan == span && rewritten_expr(
                    *arg,
                    *narg,
                    used,
                    ctxt,
                ),
                _ => false,
            },
            Expr::Assign { span, left, right } => match n {
                Expr::Assign { span: nspan, left: nleft, right: nright } => nspan == span && nleft
                    == left && rewritten_expr(*right, *nright, used, ctxt),
                _ => false,
            },
            Expr::Other { span, children } => match n {
                Expr::Other { span: nspan, children: nchildren } => nspan == span
                    && rewritten_exprs(children@, nchildren@, used, ctxt),
                _ => false,
            },
        }
    }
}

pub open spec fn rewritten_exprs(o: Seq<Expr>, n: Seq<Expr>, used: Seq<QualNameV>, ctxt: u32) -> bool
    decreases o,
{
    n.len() == o.len() && forall|k: int|
        0 <= k < o.len() ==> rewritten_expr(#[trigger] o[k], #[trigger] n[k], used, ctxt)
}

pub open spec fn rewritten_args(
    o: Seq<ExprOrSpread>,
    n: Seq<ExprOrSpread>,
    used: Seq<QualNameV>,
    ctxt: u32,
) -> bool
    decreases o,
{
    n.len() == o.len() && forall|k: int|
        0 <= k < o.len() ==> (#[trigger] n[k]).spread == (#[trigger] o[k]).spread
            && rewritten_expr(o[k].expr, n[k].expr, used, ctxt)
}

pub open spec fn rewritten_opt_args(
    o: Seq<Option<ExprOrSpread>>,
    n: Seq<Option<ExprOrSpread>>,
    used: Seq<QualNameV>,
    ctxt: u32,
) -> bool
    decreases o,
{
    n.len() == o.len() && forall|k: int|
        0 <= k < o.len() ==> match (#[trigger] o[k], #[trigger] n[k]) {
            (Some(oe), Some(ne)) => ne.spread == oe.spread && rewritten_expr(
                oe.expr,
                ne.expr,
                used,
                ctxt,
            ),
            (None, None) => true,
            _ => false,
        }
}

pub open spec fn rewritten_callee(o: Callee, n: Callee, used: Seq<QualNameV>, ctxt: u32) -> bool
    decreases o,
{
    match (o, n) {
        (Callee::Expr(oe), Callee::Expr(ne)) => rewritten_expr(*oe, *ne, used, ctxt),
        (Callee::Other, Callee::Other) => true,
        _ => false,
    }
}

pub open spec fn rewritten_opt_base(
    o: OptChainBase,
    n: OptChainBase,
    used: Seq<QualNameV>,
    ctxt: u32,
) -> bool
    decreases o,
{
    match (o, n) {
        (OptChainBase::Member(om), OptChainBase::Member(nm)) => nm.span == om.span && nm.prop
            == om.prop && rewritten_expr(*om.obj, *nm.obj, used, ctxt),
        (
            OptChainBase::Call { span, callee, args },
            OptChainBase::Call { span: nspan, callee: ncallee, args: nargs },
        ) => nspan == span && rewritten_expr(*callee, *ncallee, used, ctxt) && rewritten_args(
            args@,
            nargs@,
            used,
            ctxt,
        ),
        _ => false,
    }
}

/// A shorthand property naming a capture becomes a key-value pair with
/// the placeholder; all other members keep their shape.
pub open spec fn rewritten_prop(
    o: PropOrSpread,
    n: PropOrSpread,
    used: Seq<QualNameV>,
    ctxt: u32,
) -> bool
    decreases o,
{
    match o {
        PropOrSpread::Prop(p) => match p {
            Prop::Shorthand(i) => {
                if used.contains(ident_name_v(i)) {
                    match n {
                        PropOrSpread::Prop(np) => match np {
                            Prop::KeyValue { key, value } => key == PropName::Ident(i.sym)
                                && is_replacement(value, used, ident_name_v(i), ctxt),
                            _ => false,
                        },
                        _ => false,
                    }
                } else {
                    n == o
                }
            },
            Prop::KeyValue { key, value } => match n {
                PropOrSpread::Prop(np) => match np {
                    Prop::KeyValue { key: nkey, value: nvalue } => nkey == key && rewritten_expr(
                        value,
                        nvalue,
                        used,
                        ctxt,
                    ),
                    _ => false,
                },
                _ => false,
            },
            Prop::Method { key, function } => match n {
                PropOrSpread::Prop(np) => match np {
                    Prop::Method { key: nkey, function: nfunction } => nkey == key
                        && rewritten_function(function, nfunction, used, ctxt),
                    _ => false,
                },
                _ => false,
            },
            Prop::Other => n == o,
        },
        PropOrSpread::Spread(e) => match n {
            PropOrSpread::Spread(ne) => rewritten_expr(e, ne, used, ctxt),
            _ => false,
        },
    }
}

pub open spec fn rewritten_props(
    o: Seq<PropOrSpread>,
    n: Seq<PropOrSpread>,
    used: Seq<QualNameV>,
    ctxt: u32,
) -> bool
    decreases o,
{
    n.len() == o.len() && forall|k: int|
        0 <= k < o.len() ==> rewritten_prop(#[trigger] o[k], #[trigger] n[k], used, ctxt)
}

pub open spec fn rewritten_pat(o: Pat, n: Pat, used: Seq<QualNameV>, ctxt: u32) -> bool
    decreases o,
{
    match o {
        Pat::Id(_) => n == o,
        Pat::Invalid => n == o,
        Pat::Array { elems } => match n {
            Pat::Array { elems: nelems } => rewritten_opt_pats(elems@, nelems@, used, ctxt),
            _ => false,
        },
        Pat::Object { props } => match n {
            Pat::Object { props: nprops } => rewritten_obj_pat_props(props@, nprops@, used, ctxt),
            _ => false,
        },
        Pat::Assign { left, right } => match n {
            Pat::Assign { left: nleft, right: nright } => rewritten_pat(*left, *nleft, used, ctxt)
                && rewritten_expr(*right, *nright, used, ctxt),
            _ => false,
        },
        Pat::Rest { arg } => match n {
            Pat::Rest { arg: narg } => rewritten_pat(*arg, *narg, used, ctxt),
            _ => false,
        },
        Pat::Expr(e) => match n {
            Pat::Expr(ne) => rewritten_expr(*e, *ne, used, ctxt),
            _ => false,
        },
    }
}

pub open spec fn rewritten_pats(o: Seq<Pat>, n: Seq<Pat>, used: Seq<QualNameV>, ctxt: u32) -> bool
    decreases o,
{
    n.len() == o.len() && forall|k: int|
        0 <= k < o.len() ==> rewritten_pat(#[trigger] o[k], #[trigger] n[k], used, ctxt)
}

pub open spec fn rewritten_opt_pats(
    o: Seq<Option<Pat>>,
    n: Seq<Option<Pat>>,
    used: Seq<QualNameV>,
    ctxt: u32,
) -> bool
    decreases o,
{
    n.len() == o.len() && forall|k: int|
        0 <= k < o.len() ==> match (#[trigger] o[k], #[trigger] n[k]) {
            (Some(op), Some(np)) => rewritten_pat(op, np, used, ctxt),
            (None, None) => true,
            _ => false,
        }
}

pub open spec fn rewritten_obj_pat_prop(
    o: ObjectPatProp,
    n: ObjectPatProp,
    used: Seq<QualNameV>,
    ctxt: u32,
) -> bool
    decreases o,
{
    match (o, n) {
        (
            ObjectPatProp::KeyValue { key, value },
            ObjectPatProp::KeyValue { key: nkey, value: nvalue },
        ) => nkey == key && rewritten_pat(*value, *nvalue, used, ctxt),
        (
            ObjectPatProp::Assign { key, value },
            ObjectPatProp::Assign { key: nkey, value: nvalue },
        ) => nkey == key && match (value, nvalue) {
            (Some(e), Some(ne)) => rewritten_expr(*e, *ne, used, ctxt),
            (None, None) => true,
            _ => false,
        },
        (ObjectPatProp::Rest { arg }, ObjectPatProp::Rest { arg: narg }) => rewritten_pat(
            *arg,
            *narg,
            used,
            ctxt,
        ),
        _ => false,
    }
}

pub open spec fn rewritten_obj_pat_props(
    o: Seq<ObjectPatProp>,
    n: Seq<ObjectPatProp>,
    used: Seq<QualNameV>,
    ctxt: u32,
) -> bool
    decreases o,
{
    n.len() == o.len() && forall|k: int|
        0 <= k < o.len() ==> rewritten_obj_pat_prop(#[trigger] o[k], #[trigger] n[k], used, ctxt)
}

pub open spec fn rewritten_function(o: Function, n: Function, used: Seq<QualNameV>, ctxt: u32) -> bool
    decreases o,
{
    n.span == o.span && n.is_async == o.is_async && rewritten_pats(o.params@, n.params@, used, ctxt)
        && match (o.body, n.body) {
        (Some(ob), Some(nb)) => rewritten_block(ob, nb, used, ctxt),
        (None, None) => true,
        _ => false,
    }
}

pub open spec fn rewritten_block(o: BlockStmt, n: BlockStmt, used: Seq<QualNameV>, ctxt: u32) -> bool
    decreases o,
{
    n.span == o.span && rewritten_stmts(o.stmts@, n.stmts@, used, ctxt)
}

pub open spec fn rewritten_body(
    o: BlockStmtOrExpr,
    n: BlockStmtOrExpr,
    used: Seq<QualNameV>,
    ctxt: u32,
) -> bool
    decreases o,
{
    match (o, n) {
        (BlockStmtOrExpr::Block(ob), BlockStmtOrExpr::Block(nb)) => rewritten_block(
            ob,
            nb,
            used,
            ctxt,
        ),
        (BlockStmtOrExpr::Expr(oe), BlockStmtOrExpr::Expr(ne)) => rewritten_expr(
            oe,
            ne,
            used,
            ctxt,
        ),
        _ => false,
    }
}

pub open spec fn rewritten_var_decl(o: VarDecl, n: VarDecl, used: Seq<QualNameV>, ctxt: u32) -> bool
    decreases o,
{
    n.span == o.span && n.kind == o.kind && n.decls@.len() == o.decls@.len() && forall|k: int|
        0 <= k < o.decls@.len() ==> rewritten_var_declarator(
            #[trigger] o.decls@[k],
            #[trigger] n.decls@[k],
            used,
            ctxt,
        )
}

pub open spec fn rewritten_var_declarator(
    o: VarDeclarator,
    n: VarDeclarator,
    used: Seq<QualNameV>,
    ctxt: u32,
) -> bool
    decreases o,
{
    n.span == o.span && rewritten_pat(o.name, n.name, used, ctxt) && match (o.init, n.init) {
        (Some(oe), Some(ne)) => rewritten_expr(oe, ne, used, ctxt),
        (None, None) => true,
        _ => false,
    }
}

pub open spec fn rewritten_decl(o: Decl, n: Decl, used: Seq<QualNameV>, ctxt: u32) -> bool
    decreases o,
{
    match (o, n) {
        (Decl::Fn(of), Decl::Fn(nf)) => nf.ident == of.ident && rewritten_function(
            of.function,
            nf.function,
            used,
            ctxt,
        ),
        (Decl::Var(ov), Decl::Var(nv)) => rewritten_var_decl(ov, nv, used, ctxt),
        (Decl::Class(oc), Decl::Class(nc)) => nc.span == oc.span && nc.ident == oc.ident
            && nc.members@.len() == oc.members@.len() && forall|k: int|
            0 <= k < oc.members@.len() ==> rewritten_class_member(
                #[trigger] oc.members@[k],
                #[trigger] nc.members@[k],
                used,
                ctxt,
            ),
        (Decl::Other { span }, Decl::Other { span: nspan }) => nspan == span,
        _ => false,
    }
}

pub open spec fn rewritten_class_member(
    o: ClassMember,
    n: ClassMember,
    used: Seq<QualNameV>,
    ctxt: u32,
) -> bool
    decreases o,
{
    match (o, n) {
        (
            ClassMember::Method { key, function },
            ClassMember::Method { key: nkey, function: nfunction },
        ) => nkey == key && rewritten_function(function, nfunction, used, ctxt),
        (ClassMember::Other, ClassMember::Other) => true,
        _ => false,
    }
}

pub open spec fn rewritten_stmt(o: Stmt, n: Stmt, used: Seq<QualNameV>, ctxt: u32) -> bool
    decreases o,
{
    match (o, n) {
        (Stmt::Expr { span, expr }, Stmt::Expr { span: nspan, expr: nexpr }) => nspan == span
            && rewritten_expr(expr, nexpr, used, ctxt),
        (Stmt::Decl(od), Stmt::Decl(nd)) => rewritten_decl(od, nd, used, ctxt),
        (Stmt::Return { span, arg }, Stmt::Return { span: nspan, arg: narg }) => nspan == span
            && match (arg, narg) {
            (Some(oe), Some(ne)) => rewritten_expr(oe, ne, used, ctxt),
            (None, None) => true,
            _ => false,
        },
        (Stmt::Block(ob), Stmt::Block(nb)) => rewritten_block(ob, nb, used, ctxt),
        (
            Stmt::Other { span, exprs, stmts },
            Stmt::Other { span: nspan, exprs: nexprs, stmts: nstmts },
        ) => nspan == span && rewritten_exprs(exprs@, nexprs@, used, ctxt) && rewritten_stmts(
            stmts@,
            nstmts@,
            used,
            ctxt,
        ),
        _ => false,
    }
}

pub open spec fn rewritten_stmts(o: Seq<Stmt>, n: Seq<Stmt>, used: Seq<QualNameV>, ctxt: u32) -> bool
    decreases o,
{
    n.len() == o.len() && forall|k: int|
        0 <= k < o.len() ==> rewritten_stmt(#[trigger] o[k], #[trigger] n[k], used, ctxt)
}


/// The position of the first capture equal to `q`, if any.
#[verifier::loop_isolation(false)]
fn find_name_index(used: &Vec<QualName>, q: &QualName) -> (r: Option<usize>)
    ensures
        r matches Some(i) ==> is_first_index(names_v(used@), qn_v(*q), i as int),
        (r is None) == !names_v(used@).contains(qn_v(*q)),
{
    let mut i: usize = 0;
    while i < used.len()
        invariant
            i <= used.len(),
            forall|j: int| 0 <= j < i ==> names_v(used@)[j] != qn_v(*q),
        decreases used.len() - i,
    {
        if name_eq(&used[i], q) {
            proof {
                assert(names_v(used@)[i as int] == qn_v(*q));
            }
            return Some(i);
        }
        i = i + 1;
    }
    proof {
        if names_v(used@).contains(qn_v(*q)) {
            let w = choose|w: int| 0 <= w < names_v(used@).len() && names_v(used@)[w] == qn_v(*q);
            assert(false);
        }
    }
    None
}

/// Rewrites one expression: a capture use becomes its placeholder,
/// everything else keeps its shape with rewritten children.
#[verifier::loop_isolation(false)]
pub fn replace_in_expr(e: &Expr, used: &Vec<QualName>, ctxt: u32) -> (r: Expr)
    ensures
        rewritten_expr(*e, r, names_v(used@), ctxt),
    decreases *e,
{
    let name_opt = try_expr_to_name(e);
    match name_opt {
        Some(q) => {
            match find_name_index(used, &q) {
                Some(i) => {
                    let sym = gen_arg_ident(i);
                    let r = Expr::Id(Ident { sym, span: DUMMY_SP, ctxt });
                    proof {
                        assert(is_arg_ident(r, i as int, ctxt));
                        assert(is_replacement(r, names_v(used@), qn_v(q), ctxt));
                    }
                    return r;
                },
                None => {},
            }
        },
        None => {},
    }
    match e {
        Expr::Id(i) => Expr::Id(i.clone()),
        Expr::Lit(l) => Expr::Lit(l.clone()),
        Expr::Null { span } => Expr::Null { span: *span },
        Expr::Undefined { span } => Expr::Undefined { span: *span },
        Expr::Array { span, elems } => Expr::Array {
            span: *span,
            elems: replace_in_opt_args(elems, used, ctxt),
        },
        Expr::Object { span, props } => Expr::Object {
            span: *span,
            props: replace_in_props(props, used, ctxt),
        },
        Expr::Fn(f) => Expr::Fn(
            FnExpr {
                ident: crate::ast::clone_opt_ident(&f.ident),
                function: replace_in_function(&f.function, used, ctxt),
            },
        ),
        Expr::Arrow(a) => Expr::Arrow(
            ArrowExpr {
                span: a.span,
                params: replace_in_pats(&a.params, used, ctxt),
                body: Box::new(replace_in_body(&a.body, used, ctxt)),
                is_async: a.is_async,
            },
        ),
        Expr::Member(m) => Expr::Member(
            MemberExpr {
                span: m.span,
                obj: Box::new(replace_in_expr(&m.obj, used, ctxt)),
                prop: m.prop.clone(),
            },
        ),
        Expr::OptChain(oc) => Expr::OptChain(
            OptChainExpr {
                span: oc.span,
                optional: oc.optional,
                base: Box::new(replace_in_opt_base(&oc.base, used, ctxt)),
            },
        ),
        Expr::Call(c) => Expr::Call(
            CallExpr {
                span: c.span,
                pure: c.pure,
                callee: replace_in_callee(&c.callee, used, ctxt),
                args: replace_in_args(&c.args, used, ctxt),
            },
        ),
        Expr::Paren { span, expr } => Expr::Paren {
            span: *span,
            expr: Box::new(replace_in_expr(expr, used, ctxt)),
        },
        Expr::Await { span, arg } => Expr::Await {
            span: *span,
            arg: Box::new(replace_in_expr(arg, used, ctxt)),
        },
        Expr::Assign { span, left, right } => Expr::Assign {
            span: *span,
            left: left.clone(),
            right: Box::new(replace_in_expr(right, used, ctxt)),
        },
        Expr::Other { span, children } => Expr::Other {
            span: *span,
            children: replace_in_exprs(children, used, ctxt),
        },
    }
}

#[verifier::loop_isolation(false)]
pub fn replace_in_exprs(v: &Vec<Expr>, used: &Vec<QualName>, ctxt: u32) -> (r: Vec<Expr>)
    ensures
        rewritten_exprs(v@, r@, names_v(used@), ctxt),
    decreases *v,
{
    let mut out: Vec<Expr> = Vec::new();
    let mut i: usize = 0;
    while i < v.len()
        invariant
            i <= v.len(),
            out@.len() == i,
            forall|k: int|
                0 <= k < i ==> rewritten_expr(#[trigger] v@[k], #[trigger] out@[k], names_v(used@), ctxt),
        decreases v.len() - i,
    {
        out.push(replace_in_expr(&v[i], used, ctxt));
        i = i + 1;
    }
    out
}

#[verifier::loop_isolation(false)]
pub fn replace_in_args(v: &Vec<ExprOrSpread>, used: &Vec<QualName>, ctxt: u32) -> (r: Vec<
    ExprOrSpread,
>)
    ensures
        rewritten_args(v@, r@, names_v(used@), ctxt),
    decreases *v,
{
    let mut out: Vec<ExprOrSpread> = Vec::new();
    let mut i: usize = 0;
    while i < v.len()
        invariant
            i <= v.len(),
            out@.len() == i,
            forall|k: int|
                0 <= k < i ==> (#[trigger] out@[k]).spread == (#[trigger] v@[k]).spread
                    && rewritten_expr(v@[k].expr, out@[k].expr, names_v(used@), ctxt),
        decreases v.len() - i,
    {
        let a = &v[i];
        out.push(ExprOrSpread { spread: a.spread, expr: replace_in_expr(&a.expr, used, ctxt) });
        i = i + 1;
    }
    out
}

#[verifier::loop_isolation(false)]
pub fn replace_in_opt_args(
    v: &Vec<Option<ExprOrSpread>>,
    used: &Vec<QualName>,
    ctxt: u32,
) -> (r: Vec<Option<ExprOrSpread>>)
    ensures
        rewritten_opt_args(v@, r@, names_v(used@), ctxt),
    decreases *v,
{
    let mut out: Vec<Option<ExprOrSpread>> = Vec::new();
    let mut i: usize = 0;
    while i < v.len()
        invariant
            i <= v.len(),
            out@.len() == i,
            forall|k: int|
                0 <= k < i ==> match (#[trigger] v@[k], #[trigger] out@[k]) {
                    (Some(oe), Some(ne)) => ne.spread == oe.spread && rewritten_expr(
                        oe.expr,
                        ne.expr,
                        names_v(used@),
                        ctxt,
                    ),
                    (None, None) => true,
                    _ => false,
                },
        decreases v.len() - i,
    {
        match &v[i] {
            Some(a) => {
                out.push(
                    Some(
                        ExprOrSpread {
                            spread: a.spread,
                            expr: replace_in_expr(&a.expr, used, ctxt),
                        },
                    ),
                );
            },
            None => {
                out.push(None);
            },
        }
        i = i + 1;
    }
    out
}

#[verifier::loop_isolation(false)]
pub fn replace_in_callee(c: &Callee, used: &Vec<QualName>, ctxt: u32) -> (r: Callee)
    ensures
        rewritten_callee(*c, r, names_v(used@), ctxt),
    decreases *c,
{
    match c {
        Callee::Expr(e) => Callee::Expr(Box::new(replace_in_expr(e, used, ctxt))),
        Callee::Other => Callee::Other,
    }
}

#[verifier::loop_isolation(false)]
pub fn replace_in_opt_base(b: &OptChainBase, used: &Vec<QualName>, ctxt: u32) -> (r: OptChainBase)
    ensures
        rewritten_opt_base(*b, r, names_v(used@), ctxt),
    decreases *b,
{
    match b {
        OptChainBase::Member(m) => OptChainBase::Member(
            MemberExpr {
                span: m.span,
                obj: Box::new(replace_in_expr(&m.obj, used, ctxt)),
                prop: m.prop.clone(),
            },
        ),
        OptChainBase::Call { span, callee, args } => OptChainBase::Call {
            span: *span,
            callee: Box::new(replace_in_expr(callee, used, ctxt)),
            args: replace_in_args(args, used, ctxt),
        },
    }
}

/// Rewrites one object-literal member; a shorthand property naming a
/// capture becomes an explicit key-value pair with the placeholder.
#[verifier::loop_isolation(false)]
pub fn replace_in_prop(p: &PropOrSpread, used: &Vec<QualName>, ctxt: u32) -> (r: PropOrSpread)
    ensures
        rewritten_prop(*p, r, names_v(used@), ctxt),
    decreases *p,
{
    match p {
        PropOrSpread::Prop(pr) => match pr {
            Prop::Shorthand(i) => {
                let qn = ident_to_name(i);
                match find_name_index(used, &qn) {
                    Some(idx) => {
                        let value = Expr::Id(
                            Ident { sym: gen_arg_ident(idx), span: DUMMY_SP, ctxt },
                        );
                        proof {
                            assert(is_arg_ident(value, idx as int, ctxt));
                            assert(is_replacement(value, names_v(used@), ident_name_v(*i), ctxt));
                        }
                        PropOrSpread::Prop(
                            Prop::KeyValue { key: PropName::Ident(i.sym.clone()), value },
                        )
                    },
                    None => PropOrSpread::Prop(Prop::Shorthand(i.clone())),
                }
            },
            Prop::KeyValue { key, value } => PropOrSpread::Prop(
                Prop::KeyValue {
                    key: key.clone(),
                    value: replace_in_expr(value, used, ctxt),
                },
            ),
            Prop::Method { key, function } => PropOrSpread::Prop(
                Prop::Method {
                    key: key.clone(),
                    function: replace_in_function(function, used, ctxt),
                },
            ),
            Prop::Other => PropOrSpread::Prop(Prop::Other),
        },
        PropOrSpread::Spread(e) => PropOrSpread::Spread(replace_in_expr(e, used, ctxt)),
    }
}

#[verifier::loop_isolation(false)]
pub fn replace_in_props(v: &Vec<PropOrSpread>, used: &Vec<QualName>, ctxt: u32) -> (r: Vec<
    PropOrSpread,
>)
    ensures
        rewritten_props(v@, r@, names_v(used@), ctxt),
    decreases *v,
{
    let mut out: Vec<PropOrSpread> = Vec::new();
    let mut i: usize = 0;
    while i < v.len()
        invariant
            i <= v.len(),
            out@.len() == i,
            forall|k: int|
                0 <= k < i ==> rewritten_prop(#[trigger] v@[k], #[trigger] out@[k], names_v(used@), ctxt),
        decreases v.len() - i,
    {
        out.push(replace_in_prop(&v[i], used, ctxt));
        i = i + 1;
    }
    out
}

#[verifier::loop_isolation(false)]
pub fn replace_in_pat(p: &Pat, used: &Vec<QualName>, ctxt: u32) -> (r: Pat)
    ensures
        rewritten_pat(*p, r, names_v(used@), ctxt),
    decreases *p,
{
    match p {
        Pat::Id(i) => Pat::Id(i.clone()),
        Pat::Invalid => Pat::Invalid,
        Pat::Array { elems } => Pat::Array { elems: replace_in_opt_pats(elems, used, ctxt) },
        Pat::Object { props } => Pat::Object { props: replace_in_obj_pat_props(props, used, ctxt) },
        Pat::Assign { left, right } => Pat::Assign {
            left: Box::new(replace_in_pat(left, used, ctxt)),
            right: Box::new(replace_in_expr(right, used, ctxt)),
        },
        Pat::Rest { arg } => Pat::Rest { arg: Box::new(replace_in_pat(arg, used, ctxt)) },
        Pat::Expr(e) => Pat::Expr(Box::new(replace_in_expr(e, used, ctxt))),
    }
}

#[verifier::loop_isolation(false)]
pub fn replace_in_pats(v: &Vec<Pat>, used: &Vec<QualName>, ctxt: u32) -> (r: Vec<Pat>)
    ensures
        rewritten_pats(v@, r@, names_v(used@), ctxt),
    decreases *v,
{
    let mut out: Vec<Pat> = Vec::new();
    let mut i: usize = 0;
    while i < v.len()
        invariant
            i <= v.len(),
            out@.len() == i,
            forall|k: int|
                0 <= k < i ==> rewritten_pat(#[trigger] v@[k], #[trigger] out@[k], names_v(used@), ctxt),
        decreases v.len() - i,
    {
        out.push(replace_in_pat(&v[i], used, ctxt));
        i = i + 1;
    }
    out
}

#[verifier::loop_isolation(false)]
pub fn replace_in_opt_pats(v: &Vec<Option<Pat>>, used: &Vec<QualName>, ctxt: u32) -> (r: Vec<
    Option<Pat>,
>)
    ensures
        rewritten_opt_pats(v@, r@, names_v(used@), ctxt),
    decreases *v,
{
    let mut out: Vec<Option<Pat>> = Vec::new();
    let mut i: usize = 0;
    while i < v.len()
        invariant
            i <= v.len(),
            out@.len() == i,
            forall|k: int|
                0 <= k < i ==> match (#[trigger] v@[k], #[trigger] out@[k]) {
                    (Some(op), Some(np)) => rewritten_pat(op, np, names_v(used@), ctxt),
                    (None, None) => true,
                    _ => false,
                },
        decreases v.len() - i,
    {
        match &v[i] {
            Some(pp) => {
                out.push(Some(replace_in_pat(pp, used, ctxt)));
            },
            None => {
                out.push(None);
            },
        }
        i = i + 1;
    }
    out
}

#[verifier::loop_isolation(false)]
pub fn replace_in_obj_pat_props(
    v: &Vec<ObjectPatProp>,
    used: &Vec<QualName>,
    ctxt: u32,
) -> (r: Vec<ObjectPatProp>)
    ensures
        rewritten_obj_pat_props(v@, r@, names_v(used@), ctxt),
    decreases *v,
{
    let mut out: Vec<ObjectPatProp> = Vec::new();
    let mut i: usize = 0;
    while i < v.len()
        invariant
            i <= v.len(),
            out@.len() == i,
            forall|k: int|
                0 <= k < i ==> rewritten_obj_pat_prop(
                    #[trigger] v@[k],
                    #[trigger] out@[k],
                    names_v(used@),
                    ctxt,
                ),
        decreases v.len() - i,
    {
        let np = match &v[i] {
            ObjectPatProp::KeyValue { key, value } => ObjectPatProp::KeyValue {
                key: key.clone(),
                value: Box::new(replace_in_pat(value, used, ctxt)),
            },
            ObjectPatProp::Assign { key, value } => ObjectPatProp::Assign {
                key: key.clone(),
                value: match value {
                    Some(e) => Some(Box::new(replace_in_expr(e, used, ctxt))),
                    None => None,
                },
            },
            ObjectPatProp::Rest { arg } => ObjectPatProp::Rest {
                arg: Box::new(replace_in_pat(arg, used, ctxt)),
            },
        };
        out.push(np);
        i = i + 1;
    }
    out
}

#[verifier::loop_isolation(false)]
pub fn replace_in_function(f: &Function, used: &Vec<QualName>, ctxt: u32) -> (r: Function)
    ensures
        rewritten_function(*f, r, names_v(used@), ctxt),
    decreases *f,
{
    Function {
        span: f.span,
        params: replace_in_pats(&f.params, used, ctxt),
        body: match &f.body {
            Some(b) => Some(replace_in_block(b, used, ctxt)),
            None => None,
        },
        is_async: f.is_async,
    }
}

#[verifier::loop_isolation(false)]
pub fn replace_in_block(b: &BlockStmt, used: &Vec<QualName>, ctxt: u32) -> (r: BlockStmt)
    ensures
        rewritten_block(*b, r, names_v(used@), ctxt),
    decreases *b,
{
    BlockStmt { span: b.span, stmts: replace_in_stmts(&b.stmts, used, ctxt) }
}

#[verifier::loop_isolation(false)]
pub fn replace_in_body(b: &BlockStmtOrExpr, used: &Vec<QualName>, ctxt: u32) -> (r: BlockStmtOrExpr)
    ensures
        rewritten_body(*b, r, names_v(used@), ctxt),
    decreases *b,
{
    match b {
        BlockStmtOrExpr::Block(bb) => BlockStmtOrExpr::Block(replace_in_block(bb, used, ctxt)),
        BlockStmtOrExpr::Expr(e) => BlockStmtOrExpr::Expr(replace_in_expr(e, used, ctxt)),
    }
}

#[verifier::loop_isolation(false)]
pub fn replace_in_var_decl(v: &VarDecl, used: &Vec<QualName>, ctxt: u32) -> (r: VarDecl)
    ensures
        rewritten_var_decl(*v, r, names_v(used@), ctxt),
    decreases *v,
{
    let mut decls: Vec<VarDeclarator> = Vec::new();
    let mut i: usize = 0;
    while i < v.decls.len()
        invariant
            i <= v.decls.len(),
            decls@.len() == i,
            forall|k: int|
                0 <= k < i ==> rewritten_var_declarator(
                    #[trigger] v.decls@[k],
                    #[trigger] decls@[k],
                    names_v(used@),
                    ctxt,
                ),
        decreases v.decls.len() - i,
    {
        let d = &v.decls[i];
        decls.push(
            VarDeclarator {
                span: d.span,
                name: replace_in_pat(&d.name, used, ctxt),
                init: match &d.init {
                    Some(e) => Some(replace_in_expr(e, used, ctxt)),
                    None => None,
                },
            },
        );
        i = i + 1;
    }
    VarDecl { span: v.span, kind: v.kind, decls }
}

#[verifier::loop_isolation(false)]
pub fn replace_in_decl(d: &Decl, used: &Vec<QualName>, ctxt: u32) -> (r: Decl)
    ensures
        rewritten_decl(*d, r, names_v(used@), ctxt),
    decreases *d,
{
    match d {
        Decl::Fn(f) => Decl::Fn(
            FnDecl { ident: f.ident.clone(), function: replace_in_function(&f.function, used, ctxt) },
        ),
        Decl::Var(v) => Decl::Var(replace_in_var_decl(v, used, ctxt)),
        Decl::Class(c) => {
            let mut members: Vec<ClassMember> = Vec::new();
            let mut i: usize = 0;
            while i < c.members.len()
                invariant
                    i <= c.members.len(),
                    members@.len() == i,
                    forall|k: int|
                        0 <= k < i ==> rewritten_class_member(
                            #[trigger] c.members@[k],
                            #[trigger] members@[k],
                            names_v(used@),
                            ctxt,
                        ),
                decreases c.members.len() - i,
            {
                let nm = match &c.members[i] {
                    ClassMember::Method { key, function } => ClassMember::Method {
                        key: key.clone(),
                        function: replace_in_function(function, used, ctxt),
                    },
                    ClassMember::Other => ClassMember::Other,
                };
                members.push(nm);
                i = i + 1;
            }
            Decl::Class(ClassDecl { span: c.span, ident: c.ident.clone(), members })
        },
        Decl::Other { span } => Decl::Other { span: *span },
    }
}

#[verifier::loop_isolation(false)]
pub fn replace_in_stmt(s: &Stmt, used: &Vec<QualName>, ctxt: u32) -> (r: Stmt)
    ensures
        rewritten_stmt(*s, r, names_v(used@), ctxt),
    decreases *s,
{
    match s {
        Stmt::Expr { span, expr } => Stmt::Expr {
            span: *span,
            expr: replace_in_expr(expr, used, ctxt),
        },
        Stmt::Decl(d) => Stmt::Decl(replace_in_decl(d, used, ctxt)),
        Stmt::Return { span, arg } => Stmt::Return {
            span: *span,
            arg: match arg {
                Some(e) => Some(replace_in_expr(e, used, ctxt)),
                None => None,
            },
        },
        Stmt::Block(b) => Stmt::Block(replace_in_block(b, used, ctxt)),
        Stmt::Other { span, exprs, stmts } => Stmt::Other {
            span: *span,
            exprs: replace_in_exprs(exprs, used, ctxt),
            stmts: replace_in_stmts(stmts, used, ctxt),
        },
    }
}

#[verifier::loop_isolation(false)]
pub fn replace_in_stmts(v: &Vec<Stmt>, used: &Vec<QualName>, ctxt: u32) -> (r: Vec<Stmt>)
    ensures
        rewritten_stmts(v@, r@, names_v(used@), ctxt),
    decreases *v,
{
    let mut out: Vec<Stmt> = Vec::new();
    let mut i: usize = 0;
    while i < v.len()
        invariant
            i <= v.len(),
            out@.len() == i,
            forall|k: int|
                0 <= k < i ==> rewritten_stmt(#[trigger] v@[k], #[trigger] out@[k], names_v(used@), ctxt),
        decreases v.len() - i,
    {
        out.push(replace_in_stmt(&v[i], used, ctxt));
        i = i + 1;
    }
    out
}


/// The captured names never carry the given hygiene context: captures
/// come from user scopes, the context is the pass's own.
pub open spec fn foreign_ctxt(used: Seq<QualNameV>, ctxt: u32) -> bool {
    forall|k: int| 0 <= k < used.len() ==> (#[trigger] used[k]).ctxt != ctxt
}

/// No expression in this tree canonicalises to a captured name.
pub open spec fn no_capture_use_expr(e: Expr, used: Seq<QualNameV>) -> bool
    decreases e,
{
    &&& !expr_matches(e, used)
    &&& match e {
        Expr::Id(_) => true,
        Expr::Lit(_) => true,
        Expr::Null { .. } => true,
        Expr::Undefined { .. } => true,
        Expr::Array { elems, .. } => no_capture_use_opt_args(elems@, used),
        Expr::Object { props, .. } => no_capture_use_props(props@, used),
        Expr::Fn(f) => no_capture_use_function(f.function, used),
        Expr::Arrow(a) => no_capture_use_pats(a.params@, used) && no_capture_use_body(
            *a.body,
            used,
        ),
        Expr::Member(m) => no_capture_use_expr(*m.obj, used),
        Expr::OptChain(oc) => no_capture_use_opt_base(*oc.base, used),
        Expr::Call(c) => no_capture_use_callee(c.callee, used) && no_capture_use_args(
            c.args@,
            used,
        ),
        Expr::Paren { expr, .. } => no_capture_use_expr(*expr, used),
        Expr::Await { arg, .. } => no_capture_use_expr(*arg, used),
        Expr::Assign { right, .. } => no_capture_use_expr(*right, used),
        Expr::Other { children, .. } => no_capture_use_exprs(children@, used),
    }
}

pub open spec fn no_capture_use_exprs(s: Seq<Expr>, used: Seq<QualNameV>) -> bool
    decreases s,
{
    forall|k: int| 0 <= k < s.len() ==> no_capture_use_expr(#[trigger] s[k], used)
}

pub open spec fn no_capture_use_args(s: Seq<ExprOrSpread>, used: Seq<QualNameV>) -> bool
    decreases s,
{
    forall|k: int| 0 <= k < s.len() ==> no_capture_use_expr((#[trigger] s[k]).expr, used)
}

pub open spec fn no_capture_use_opt_args(s: Seq<Option<ExprOrSpread>>, used: Seq<QualNameV>) -> bool
    decreases s,
{
    forall|k: int|
        0 <= k < s.len() ==> match #[trigger] s[k] {
            Some(a) => no_capture_use_expr(a.expr, used),
            None => true,
        }
}

pub open spec fn no_capture_use_callee(c: Callee, used: Seq<QualNameV>) -> bool
    decreases c,
{
    match c {
        Callee::Expr(e) => no_capture_use_expr(*e, used),
        Callee::Other => true,
    }
}

pub open spec fn no_capture_use_opt_base(b: OptChainBase, used: Seq<QualNameV>) -> bool
    decreases b,
{
    match b {
        OptChainBase::Member(m) => no_capture_use_expr(*m.obj, used),
        OptChainBase::Call { callee, args, .. } => no_capture_use_expr(*callee, used)
            && no_capture_use_args(args@, used),
    }
}

/// A shorthand property naming a capture counts as a capture use.
pub open spec fn no_capture_use_prop(p: PropOrSpread, used: Seq<QualNameV>) -> bool
    decreases p,
{
    match p {
        PropOrSpread::Prop(pr) => match pr {
            Prop::Shorthand(i) => !used.contains(ident_name_v(i)),
            Prop::KeyValue { value, .. } => no_capture_use_expr(value, used),
            Prop::Method { function, .. } => no_capture_use_function(function, used),
            Prop::Other => true,
        },
        PropOrSpread::Spread(e) => no_capture_use_expr(e, used),
    }
}

pub open spec fn no_capture_use_props(s: Seq<PropOrSpread>, used: Seq<QualNameV>) -> bool
    decreases s,
{
    forall|k: int| 0 <= k < s.len() ==> no_capture_use_prop(#[trigger] s[k], used)
}

pub open spec fn no_capture_use_pat(p: Pat, used: Seq<QualNameV>) -> bool
    decreases p,
{
    match p {
        Pat::Id(_) => true,
        Pat::Invalid => true,
        Pat::Array { elems } => no_capture_use_opt_pats(elems@, used),
        Pat::Object { props } => no_capture_use_obj_pat_props(props@, used),
        Pat::Assign { left, right } => no_capture_use_pat(*left, used) && no_capture_use_expr(
            *right,
            used,
        ),
        Pat::Rest { arg } => no_capture_use_pat(*arg, used),
        Pat::Expr(e) => no_capture_use_expr(*e, used),
    }
}

pub open spec fn no_capture_use_pats(s: Seq<Pat>, used: Seq<QualNameV>) -> bool
    decreases s,
{
    forall|k: int| 0 <= k < s.len() ==> no_capture_use_pat(#[trigger] s[k], used)
}

pub open spec fn no_capture_use_opt_pats(s: Seq<Option<Pat>>, used: Seq<QualNameV>) -> bool
    decreases s,
{
    forall|k: int|
        0 <= k < s.len() ==> match #[trigger] s[k] {
            Some(p) => no_capture_use_pat(p, used),
            None => true,
        }
}

pub open spec fn no_capture_use_obj_pat_props(s: Seq<ObjectPatProp>, used: Seq<QualNameV>) -> bool
    decreases s,
{
    forall|k: int|
        0 <= k < s.len() ==> match #[trigger] s[k] {
            ObjectPatProp::KeyValue { value, .. } => no_capture_use_pat(*value, used),
            ObjectPatProp::Assign { value, .. } => match value {
                Some(e) => no_capture_use_expr(*e, used),
                None => true,
            },
            ObjectPatProp::Rest { arg } => no_capture_use_pat(*arg, used),
        }
}

pub open spec fn no_capture_use_function(f: Function, used: Seq<QualNameV>) -> bool
    decreases f,
{
    no_capture_use_pats(f.params@, used) && match f.body {
        Some(b) => no_capture_use_block(b, used),
        None => true,
    }
}

pub open spec fn no_capture_use_block(b: BlockStmt, used: Seq<QualNameV>) -> bool
    decreases b,
{
    no_capture_use_stmts(b.stmts@, used)
}

pub open spec fn no_capture_use_body(b: BlockStmtOrExpr, used: Seq<QualNameV>) -> bool
    decreases b,
{
    match b {
        BlockStmtOrExpr::Block(bb) => no_capture_use_block(bb, used),
        BlockStmtOrExpr::Expr(e) => no_capture_use_expr(e, used),
    }
}

pub open spec fn no_capture_use_var_decl(v: VarDecl, used: Seq<QualNameV>) -> bool
    decreases v,
{
    forall|k: int|
        0 <= k < v.decls@.len() ==> no_capture_use_pat((#[trigger] v.decls@[k]).name, used)
            && match v.decls@[k].init {
            Some(e) => no_capture_use_expr(e, used),
            None => true,
        }
}

pub open spec fn no_capture_use_decl(d: Decl, used: Seq<QualNameV>) -> bool
    decreases d,
{
    match d {
        Decl::Fn(f) => no_capture_use_function(f.function, used),
        Decl::Var(v) => no_capture_use_var_decl(v, used),
        Decl::Class(c) => forall|k: int|
            0 <= k < c.members@.len() ==> match #[trigger] c.members@[k] {
                ClassMember::Method { function, .. } => no_capture_use_function(function, used),
                ClassMember::Other => true,
            },
        Decl::Other { .. } => true,
    }
}

pub open spec fn no_capture_use_stmt(s: Stmt, used: Seq<QualNameV>) -> bool
    decreases s,
{
    match s {
        Stmt::Expr { expr, .. } => no_capture_use_expr(expr, used),
        Stmt::Decl(d) => no_capture_use_decl(d, used),
        Stmt::Return { arg, .. } => match arg {
            Some(e) => no_capture_use_expr(e, used),
            None => true,
        },
        Stmt::Block(b) => no_capture_use_block(b, used),
        Stmt::Other { exprs, stmts, .. } => no_capture_use_exprs(exprs@, used)
            && no_capture_use_stmts(stmts@, used),
    }
}

pub open spec fn no_capture_use_stmts(s: Seq<Stmt>, used: Seq<QualNameV>) -> bool
    decreases s,
{
    forall|k: int| 0 <= k < s.len() ==> no_capture_use_stmt(#[trigger] s[k], used)
}


/// A rewritten expression canonicalises either to a name in the pass's
/// own hygiene context or to the very name of its original.
pub proof fn lemma_rewritten_name(o: Expr, n: Expr, used: Seq<QualNameV>, ctxt: u32)
    requires
        rewritten_expr(o, n, used, ctxt),
    ensures
        expr_as_name(n) matches Some(q) ==> q.ctxt == ctxt || expr_as_name(o) == Some(q),
    decreases o,
{
    if expr_matches(o, used) {
        let q0 = expr_as_name(o)->Some_0;
        assert(is_replacement(n, used, q0, ctxt));
        let i = choose|i: int| is_first_index(used, q0, i) && is_arg_ident(n, i, ctxt);
        assert(is_arg_ident(n, i, ctxt));
        match n {
            Expr::Id(id) => {
                assert(expr_as_name(n) == Some(ident_name_v(id)));
                assert(ident_name_v(id).ctxt == ctxt);
            },
            _ => {},
        }
    } else {
        match o {
            Expr::Member(m) => {
                match n {
                    Expr::Member(nm) => {
                        assert(rewritten_expr(*m.obj, *nm.obj, used, ctxt));
                        lemma_rewritten_name(*m.obj, *nm.obj, used, ctxt);
                        match m.prop {
                            MemberProp::Ident(p) => {
                                assert(nm.prop == m.prop);
                                match expr_as_name(*nm.obj) {
                                    Some(qo) => {
                                        if qo.ctxt == ctxt {
                                            assert(expr_as_name(n)->Some_0.ctxt == ctxt);
                                        } else {
                                            assert(expr_as_name(*m.obj) == Some(qo));
                                            assert(expr_as_name(o) == expr_as_name(n));
                                        }
                                    },
                                    None => {
                                        assert(expr_as_name(n) is None);
                                    },
                                }
                            },
                            MemberProp::Other => {
                                assert(expr_as_name(n) is None);
                            },
                        }
                    },
                    _ => {},
                }
            },
            Expr::OptChain(oc) => {
                match n {
                    Expr::OptChain(noc) => {
                        assert(rewritten_opt_base(*oc.base, *noc.base, used, ctxt));
                        assert(noc.optional == oc.optional);
                        match (*oc.base, *noc.base) {
                            (OptChainBase::Member(m), OptChainBase::Member(nm)) => {
                                assert(rewritten_expr(*m.obj, *nm.obj, used, ctxt));
                                lemma_rewritten_name(*m.obj, *nm.obj, used, ctxt);
                                match m.prop {
                                    MemberProp::Ident(p) => {
                                        assert(nm.prop == m.prop);
                                        match expr_as_name(*nm.obj) {
                                            Some(qo) => {
                                                if qo.ctxt == ctxt {
                                                    assert(expr_as_name(n)->Some_0.ctxt == ctxt);
                                                } else {
                                                    assert(expr_as_name(*m.obj) == Some(qo));
                                                    assert(expr_as_name(o) == expr_as_name(n));
                                                }
                                            },
                                            None => {
                                                assert(expr_as_name(n) is None);
                                            },
                                        }
                                    },
                                    MemberProp::Other => {
                                        assert(expr_as_name(n) is None);
                                    },
                                }
                            },
                            _ => {
                                assert(expr_as_name(n) is None);
                            },
                        }
                    },
                    _ => {},
                }
            },
            _ => {},
        }
    }
}

/// The placeholder the rewriter substitutes never names a capture.
proof fn lemma_replacement_free(n: Expr, used: Seq<QualNameV>, q: QualNameV, ctxt: u32)
    requires
        is_replacement(n, used, q, ctxt),
        foreign_ctxt(used, ctxt),
    ensures
        no_capture_use_expr(n, used),
{
    let i = choose|i: int| is_first_index(used, q, i) && is_arg_ident(n, i, ctxt);
    assert(is_arg_ident(n, i, ctxt));
    if expr_matches(n, used) {
        let qn = expr_as_name(n)->Some_0;
        assert(qn.ctxt == ctxt);
        let w = choose|w: int| 0 <= w < used.len() && used[w] == qn;
        assert(used[w].ctxt != ctxt);
        assert(false);
    }
}

/// After the rewrite and under foreign hygiene, the top of the
/// expression no longer names a capture.
proof fn lemma_rewritten_top_free(o: Expr, n: Expr, used: Seq<QualNameV>, ctxt: u32)
    requires
        rewritten_expr(o, n, used, ctxt),
        foreign_ctxt(used, ctxt),
        !expr_matches(o, used),
    ensures
        !expr_matches(n, used),
{
    lemma_rewritten_name(o, n, used, ctxt);
    if expr_matches(n, used) {
        let qn = expr_as_name(n)->Some_0;
        let w = choose|w: int| 0 <= w < used.len() && used[w] == qn;
        if qn.ctxt == ctxt {
            assert(used[w].ctxt != ctxt);
            assert(false);
        } else {
            assert(expr_as_name(o) == Some(qn));
            assert(false);
        }
    }
}

/// Closure completeness for expressions: rewriting removes every
/// capture use.
pub proof fn lemma_rewrite_no_capture_expr(o: Expr, n: Expr, used: Seq<QualNameV>, ctxt: u32)
    requires
        rewritten_expr(o, n, used, ctxt),
        foreign_ctxt(used, ctxt),
    ensures
        no_capture_use_expr(n, used),
    decreases o,
{
    if expr_matches(o, used) {
        lemma_replacement_free(n, used, expr_as_name(o)->Some_0, ctxt);
    } else {
        lemma_rewritten_top_free(o, n, used, ctxt);
        match o {
            Expr::Id(_) => {},
            Expr::Lit(_) => {},
            Expr::Null { .. } => {},
            Expr::Undefined { .. } => {},
            Expr::Array { elems, .. } => {
                match n {
                    Expr::Array { elems: nelems, .. } => {
                        lemma_rewrite_no_capture_opt_args(elems@, nelems@, used, ctxt);
                    },
                    _ => {},
                }
            },
            Expr::Object { props, .. } => {
                match n {
                    Expr::Object { props: nprops, .. } => {
                        lemma_rewrite_no_capture_props(props@, nprops@, used, ctxt);
                    },
                    _ => {},
                }
            },
            Expr::Fn(f) => {
                match n {
                    Expr::Fn(nf) => {
                        lemma_rewrite_no_capture_function(f.function, nf.function, used, ctxt);
                    },
                    _ => {},
                }
            },
            Expr::Arrow(a) => {
                match n {
                    Expr::Arrow(na) => {
                        lemma_rewrite_no_capture_pats(a.params@, na.params@, used, ctxt);
                        lemma_rewrite_no_capture_body(*a.body, *na.body, used, ctxt);
                    },
                    _ => {},
                }
            },
            Expr::Member(m) => {
                match n {
                    Expr::Member(nm) => {
                        lemma_rewrite_no_capture_expr(*m.obj, *nm.obj, used, ctxt);
                    },
                    _ => {},
                }
            },
            Expr::OptChain(oc) => {
                match n {
                    Expr::OptChain(noc) => {
                        lemma_rewrite_no_capture_opt_base(*oc.base, *noc.base, used, ctxt);
                    },
                    _ => {},
                }
            },
            Expr::Call(c) => {
                match n {
                    Expr::Call(nc) => {
                        lemma_rewrite_no_capture_callee(c.callee, nc.callee, used, ctxt);
                        lemma_rewrite_no_capture_args(c.args@, nc.args@, used, ctxt);
                    },
                    _ => {},
                }
            },
            Expr::Paren { expr, .. } => {
                match n {
                    Expr::Paren { expr: nexpr, .. } => {
                        lemma_rewrite_no_capture_expr(*expr, *nexpr, used, ctxt);
                    },
                    _ => {},
                }
            },
            Expr::Await { arg, .. } => {
                match n {
                    Expr::Await { arg: narg, .. } => {
                        lemma_rewrite_no_capture_expr(*arg, *narg, used, ctxt);
                    },
                    _ => {},
                }
            },
            Expr::Assign { right, .. } => {
                match n {
                    Expr::Assign { right: nright, .. } => {
                        lemma_rewrite_no_capture_expr(*right, *nright, used, ctxt);
                    },
                    _ => {},
                }
            },
            Expr::Other { children, .. } => {
                match n {
                    Expr::Other { children: nchildren, .. } => {
                        lemma_rewrite_no_capture_exprs(children@, nchildren@, used, ctxt);
                    },
                    _ => {},
                }
            },
        }
    }
}

pub proof fn lemma_rewrite_no_capture_exprs(
    o: Seq<Expr>,
    n: Seq<Expr>,
    used: Seq<QualNameV>,
    ctxt: u32,
)
    requires
        rewritten_exprs(o, n, used, ctxt),
        foreign_ctxt(used, ctxt),
    ensures
        no_capture_use_exprs(n, used),
    decreases o,
{
    assert forall|k: int| 0 <= k < n.len() implies no_capture_use_expr(#[trigger] n[k], used) by {
        assert(rewritten_expr(o[k], n[k], used, ctxt));
        lemma_rewrite_no_capture_expr(o[k], n[k], used, ctxt);
    }
}

pub proof fn lemma_rewrite_no_capture_args(
    o: Seq<ExprOrSpread>,
    n: Seq<ExprOrSpread>,
    used: Seq<QualNameV>,
    ctxt: u32,
)
    requires
        rewritten_args(o, n, used, ctxt),
        foreign_ctxt(used, ctxt),
    ensures
        no_capture_use_args(n, used),
    decreases o,
{
    assert forall|k: int|
        0 <= k < n.len() implies no_capture_use_expr((#[trigger] n[k]).expr, used) by {
        assert(rewritten_expr(o[k].expr, n[k].expr, used, ctxt));
        lemma_rewrite_no_capture_expr(o[k].expr, n[k].expr, used, ctxt);
    }
}

pub proof fn lemma_rewrite_no_capture_opt_args(
    o: Seq<Option<ExprOrSpread>>,
    n: Seq<Option<ExprOrSpread>>,
    used: Seq<QualNameV>,
    ctxt: u32,
)
    requires
        rewritten_opt_args(o, n, used, ctxt),
        foreign_ctxt(used, ctxt),
    ensures
        no_capture_use_opt_args(n, used),
    decreases o,
{
    assert forall|k: int| 0 <= k < n.len() implies match #[trigger] n[k] {
        Some(a) => no_capture_use_expr(a.expr, used),
        None => true,
    } by {
        match (o[k], n[k]) {
            (Some(oa), Some(na)) => {
                assert(rewritten_expr(oa.expr, na.expr, used, ctxt));
                lemma_rewrite_no_capture_expr(oa.expr, na.expr, used, ctxt);
            },
            _ => {},
        }
    }
}

pub proof fn lemma_rewrite_no_capture_callee(
    o: Callee,
    n: Callee,
    used: Seq<QualNameV>,
    ctxt: u32,
)
    requires
        rewritten_callee(o, n, used, ctxt),
        foreign_ctxt(used, ctxt),
    ensures
        no_capture_use_callee(n, used),
    decreases o,
{
    match (o, n) {
        (Callee::Expr(oe), Callee::Expr(ne)) => {
            lemma_rewrite_no_capture_expr(*oe, *ne, used, ctxt);
        },
        _ => {},
    }
}

pub proof fn lemma_rewrite_no_capture_opt_base(
    o: OptChainBase,
    n: OptChainBase,
    used: Seq<QualNameV>,
    ctxt: u32,
)
    requires
        rewritten_opt_base(o, n, used, ctxt),
        foreign_ctxt(used, ctxt),
    ensures
        no_capture_use_opt_base(n, used),
    decreases o,
{
    match (o, n) {
        (OptChainBase::Member(om), OptChainBase::Member(nm)) => {
            lemma_rewrite_no_capture_expr(*om.obj, *nm.obj, used, ctxt);
        },
        (
            OptChainBase::Call { callee, args, .. },
            OptChainBase::Call { callee: ncallee, args: nargs, .. },
        ) => {
            lemma_rewrite_no_capture_expr(*callee, *ncallee, used, ctxt);
            lemma_rewrite_no_capture_args(args@, nargs@, used, ctxt);
        },
        _ => {},
    }
}

pub proof fn lemma_rewrite_no_capture_prop(
    o: PropOrSpread,
    n: PropOrSpread,
    used: Seq<QualNameV>,
    ctxt: u32,
)
    requires
        rewritten_prop(o, n, used, ctxt),
        foreign_ctxt(used, ctxt),
    ensures
        no_capture_use_prop(n, used),
    decreases o,
{
    match o {
        PropOrSpread::Prop(p) => match p {
            Prop::Shorthand(i) => {
                if used.contains(ident_name_v(i)) {
                    match n {
                        PropOrSpread::Prop(np) => match np {
                            Prop::KeyValue { value, .. } => {
                                lemma_replacement_free(value, used, ident_name_v(i), ctxt);
                            },
                            _ => {},
                        },
                        _ => {},
                    }
                }
            },
            Prop::KeyValue { value, .. } => {
                match n {
                    PropOrSpread::Prop(np) => match np {
                        Prop::KeyValue { value: nvalue, .. } => {
                            lemma_rewrite_no_capture_expr(value, nvalue, used, ctxt);
                        },
                        _ => {},
                    },
                    _ => {},
                }
            },
            Prop::Method { function, .. } => {
                match n {
                    PropOrSpread::Prop(np) => match np {
                        Prop::Method { function: nfunction, .. } => {
                            lemma_rewrite_no_capture_function(function, nfunction, used, ctxt);
                        },
                        _ => {},
                    },
                    _ => {},
                }
            },
            Prop::Other => {},
        },
        PropOrSpread::Spread(e) => {
            match n {
                PropOrSpread::Spread(ne) => {
                    lemma_rewrite_no_capture_expr(e, ne, used, ctxt);
                },
                _ => {},
            }
        },
    }
}

pub proof fn lemma_rewrite_no_capture_props(
    o: Seq<PropOrSpread>,
    n: Seq<PropOrSpread>,
    used: Seq<QualNameV>,
    ctxt: u32,
)
    requires
        rewritten_props(o, n, used, ctxt),
        foreign_ctxt(used, ctxt),
    ensures
        no_capture_use_props(n, used),
    decreases o,
{
    assert forall|k: int| 0 <= k < n.len() implies no_capture_use_prop(#[trigger] n[k], used) by {
        assert(rewritten_prop(o[k], n[k], used, ctxt));
        lemma_rewrite_no_capture_prop(o[k], n[k], used, ctxt);
    }
}

pub proof fn lemma_rewrite_no_capture_pat(o: Pat, n: Pat, used: Seq<QualNameV>, ctxt: u32)
    requires
        rewritten_pat(o, n, used, ctxt),
        foreign_ctxt(used, ctxt),
    ensures
        no_capture_use_pat(n, used),
    decreases o,
{
    match o {
        Pat::Id(_) => {},
        Pat::Invalid => {},
        Pat::Array { elems } => {
            match n {
                Pat::Array { elems: nelems } => {
                    lemma_rewrite_no_capture_opt_pats(elems@, nelems@, used, ctxt);
                },
                _ => {},
            }
        },
        Pat::Object { props } => {
            match n {
                Pat::Object { props: nprops } => {
                    lemma_rewrite_no_capture_obj_pat_props(props@, nprops@, used, ctxt);
                },
                _ => {},
            }
        },
        Pat::Assign { left, right } => {
            match n {
                Pat::Assign { left: nleft, right: nright } => {
                    lemma_rewrite_no_capture_pat(*left, *nleft, used, ctxt);
                    lemma_rewrite_no_capture_expr(*right, *nright, used, ctxt);
                },
                _ => {},
            }
        },
        Pat::Rest { arg } => {
            match n {
                Pat::Rest { arg: narg } => {
                    lemma_rewrite_no_capture_pat(*arg, *narg, used, ctxt);
                },
                _ => {},
            }
        },
        Pat::Expr(e) => {
            match n {
                Pat::Expr(ne) => {
                    lemma_rewrite_no_capture_expr(*e, *ne, used, ctxt);
                },
                _ => {},
            }
        },
    }
}

pub proof fn lemma_rewrite_no_capture_pats(
    o: Seq<Pat>,
    n: Seq<Pat>,
    used: Seq<QualNameV>,
    ctxt: u32,
)
    requires
        rewritten_pats(o, n, used, ctxt),
        foreign_ctxt(used, ctxt),
    ensures
        no_capture_use_pats(n, used),
    decreases o,
{
    assert forall|k: int| 0 <= k < n.len() implies no_capture_use_pat(#[trigger] n[k], used) by {
        assert(rewritten_pat(o[k], n[k], used, ctxt));
        lemma_rewrite_no_capture_pat(o[k], n[k], used, ctxt);
    }
}

pub proof fn lemma_rewrite_no_capture_opt_pats(
    o: Seq<Option<Pat>>,
    n: Seq<Option<Pat>>,
    used: Seq<QualNameV>,
    ctxt: u32,
)
    requires
        rewritten_opt_pats(o, n, used, ctxt),
        foreign_ctxt(used, ctxt),
    ensures
        no_capture_use_opt_pats(n, used),
    decreases o,
{
    assert forall|k: int| 0 <= k < n.len() implies match #[trigger] n[k] {
        Some(p) => no_capture_use_pat(p, used),
        None => true,
    } by {
        match (o[k], n[k]) {
            (Some(op), Some(np)) => {
                assert(rewritten_pat(op, np, used, ctxt));
                lemma_rewrite_no_capture_pat(op, np, used, ctxt);
            },
            _ => {},
        }
    }
}

pub proof fn lemma_rewrite_no_capture_obj_pat_props(
    o: Seq<ObjectPatProp>,
    n: Seq<ObjectPatProp>,
    used: Seq<QualNameV>,
    ctxt: u32,
)
    requires
        rewritten_obj_pat_props(o, n, used, ctxt),
        foreign_ctxt(used, ctxt),
    ensures
        no_capture_use_obj_pat_props(n, used),
    decreases o,
{
    assert forall|k: int| 0 <= k < n.len() implies match #[trigger] n[k] {
        ObjectPatProp::KeyValue { value, .. } => no_capture_use_pat(*value, used),
        ObjectPatProp::Assign { value, .. } => match value {
            Some(e) => no_capture_use_expr(*e, used),
            None => true,
        },
        ObjectPatProp::Rest { arg } => no_capture_use_pat(*arg, used),
    } by {
        assert(rewritten_obj_pat_prop(o[k], n[k], used, ctxt));
        match (o[k], n[k]) {
            (
                ObjectPatProp::KeyValue { value, .. },
                ObjectPatProp::KeyValue { value: nvalue, .. },
            ) => {
                lemma_rewrite_no_capture_pat(*value, *nvalue, used, ctxt);
            },
            (
                ObjectPatProp::Assign { value, .. },
                ObjectPatProp::Assign { value: nvalue, .. },
            ) => {
                match (value, nvalue) {
                    (Some(e), Some(ne)) => {
                        lemma_rewrite_no_capture_expr(*e, *ne, used, ctxt);
                    },
                    _ => {},
                }
            },
            (ObjectPatProp::Rest { arg }, ObjectPatProp::Rest { arg: narg }) => {
                lemma_rewrite_no_capture_pat(*arg, *narg, used, ctxt);
            },
            _ => {},
        }
    }
}

pub proof fn lemma_rewrite_no_capture_function(
    o: Function,
    n: Function,
    used: Seq<QualNameV>,
    ctxt: u32,
)
    requires
        rewritten_function(o, n, used, ctxt),
        foreign_ctxt(used, ctxt),
    ensures
        no_capture_use_function(n, used),
    decreases o,
{
    lemma_rewrite_no_capture_pats(o.params@, n.params@, used, ctxt);
    match (o.body, n.body) {
        (Some(ob), Some(nb)) => {
            lemma_rewrite_no_capture_block(ob, nb, used, ctxt);
        },
        _ => {},
    }
}

pub proof fn lemma_rewrite_no_capture_block(
    o: BlockStmt,
    n: BlockStmt,
    used: Seq<QualNameV>,
    ctxt: u32,
)
    requires
        rewritten_block(o, n, used, ctxt),
        foreign_ctxt(used, ctxt),
    ensures
        no_capture_use_block(n, used),
    decreases o,
{
    lemma_rewrite_no_capture_stmts(o.stmts@, n.stmts@, used, ctxt);
}

pub proof fn lemma_rewrite_no_capture_body(
    o: BlockStmtOrExpr,
    n: BlockStmtOrExpr,
    used: Seq<QualNameV>,
    ctxt: u32,
)
    requires
        rewritten_body(o, n, used, ctxt),
        foreign_ctxt(used, ctxt),
    ensures
        no_capture_use_body(n, used),
    decreases o,
{
    match (o, n) {
        (BlockStmtOrExpr::Block(ob), BlockStmtOrExpr::Block(nb)) => {
            lemma_rewrite_no_capture_block(ob, nb, used, ctxt);
        },
        (BlockStmtOrExpr::Expr(oe), BlockStmtOrExpr::Expr(ne)) => {
            lemma_rewrite_no_capture_expr(oe, ne, used, ctxt);
        },
        _ => {},
    }
}

pub proof fn lemma_rewrite_no_capture_var_decl(
    o: VarDecl,
    n: VarDecl,
    used: Seq<QualNameV>,
    ctxt: u32,
)
    requires
        rewritten_var_decl(o, n, used, ctxt),
        foreign_ctxt(used, ctxt),
    ensures
        no_capture_use_var_decl(n, used),
    decreases o,
{
    assert forall|k: int|
        0 <= k < n.decls@.len() implies no_capture_use_pat(
        (#[trigger] n.decls@[k]).name,
        used,
    ) && match n.decls@[k].init {
        Some(e) => no_capture_use_expr(e, used),
        None => true,
    } by {
        assert(rewritten_var_declarator(o.decls@[k], n.decls@[k], used, ctxt));
        lemma_rewrite_no_capture_pat(o.decls@[k].name, n.decls@[k].name, used, ctxt);
        match (o.decls@[k].init, n.decls@[k].init) {
            (Some(oe), Some(ne)) => {
                lemma_rewrite_no_capture_expr(oe, ne, used, ctxt);
            },
            _ => {},
        }
    }
}

pub proof fn lemma_rewrite_no_capture_decl(o: Decl, n: Decl, used: Seq<QualNameV>, ctxt: u32)
    requires
        rewritten_decl(o, n, used, ctxt),
        foreign_ctxt(used, ctxt),
    ensures
        no_capture_use_decl(n, used),
    decreases o,
{
    match (o, n) {
        (Decl::Fn(of), Decl::Fn(nf)) => {
            lemma_rewrite_no_capture_function(of.function, nf.function, used, ctxt);
        },
        (Decl::Var(ov), Decl::Var(nv)) => {
            lemma_rewrite_no_capture_var_decl(ov, nv, used, ctxt);
        },
        (Decl::Class(oc), Decl::Class(nc)) => {
            assert forall|k: int| 0 <= k < nc.members@.len() implies match #[trigger] nc.members@[k] {
                ClassMember::Method { function, .. } => no_capture_use_function(function, used),
                ClassMember::Other => true,
            } by {
                assert(rewritten_class_member(oc.members@[k], nc.members@[k], used, ctxt));
                match (oc.members@[k], nc.members@[k]) {
                    (
                        ClassMember::Method { function, .. },
                        ClassMember::Method { function: nfunction, .. },
                    ) => {
                        lemma_rewrite_no_capture_function(function, nfunction, used, ctxt);
                    },
                    _ => {},
                }
            }
        },
        _ => {},
    }
}

pub proof fn lemma_rewrite_no_capture_stmt(o: Stmt, n: Stmt, used: Seq<QualNameV>, ctxt: u32)
    requires
        rewritten_stmt(o, n, used, ctxt),
        foreign_ctxt(used, ctxt),
    ensures
        no_capture_use_stmt(n, used),
    decreases o,
{
    match (o, n) {
        (Stmt::Expr { expr, .. }, Stmt::Expr { expr: nexpr, .. }) => {
            lemma_rewrite_no_capture_expr(expr, nexpr, used, ctxt);
        },
        (Stmt::Decl(od), Stmt::Decl(nd)) => {
            lemma_rewrite_no_capture_decl(od, nd, used, ctxt);
        },
        (Stmt::Return { arg, .. }, Stmt::Return { arg: narg, .. }) => {
            match (arg, narg) {
                (Some(oe), Some(ne)) => {
                    lemma_rewrite_no_capture_expr(oe, ne, used, ctxt);
                },
                _ => {},
            }
        },
        (Stmt::Block(ob), Stmt::Block(nb)) => {
            lemma_rewrite_no_capture_block(ob, nb, used, ctxt);
        },
        (
            Stmt::Other { exprs, stmts, .. },
            Stmt::Other { exprs: nexprs, stmts: nstmts, .. },
        ) => {
            lemma_rewrite_no_capture_exprs(exprs@, nexprs@, used, ctxt);
            lemma_rewrite_no_capture_stmts(stmts@, nstmts@, used, ctxt);
        },
        _ => {},
    }
}

/// Closure completeness: in a rewritten body no expression, and no
/// shorthand property, names a captured qualified name any more; every
/// such use became its positional placeholder.
pub proof fn lemma_rewrite_no_capture_stmts(
    o: Seq<Stmt>,
    n: Seq<Stmt>,
    used: Seq<QualNameV>,
    ctxt: u32,
)
    requires
        rewritten_stmts(o, n, used, ctxt),
        foreign_ctxt(used, ctxt),
    ensures
        no_capture_use_stmts(n, used),
    decreases o,
{
    assert forall|k: int| 0 <= k < n.len() implies no_capture_use_stmt(#[trigger] n[k], used) by {
        assert(rewritten_stmt(o[k], n[k], used, ctxt));
        lemma_rewrite_no_capture_stmt(o[k], n[k], used, ctxt);
    }
}

} // verus!
