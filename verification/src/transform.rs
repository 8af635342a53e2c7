//! The pass itself: a stateful depth-first transform over the module
//! that classifies function-likes, hoists actions and cache functions
//! into exported definitions with stable ids, replaces the originals
//! with registered proxies, rewrites module exports, and assembles the
//! imports and the catalogue comment.

use vstd::prelude::*;
use crate::ast::ArrowExpr;
use crate::ast::BlockStmt;
use crate::ast::BlockStmtOrExpr;
use crate::ast::Decl;
use crate::ast::Expr;
use crate::ast::ExprOrSpread;
use crate::ast::FnDecl;
use crate::ast::FnExpr;
use crate::ast::Function;
use crate::ast::Ident;
use crate::ast::MemberExpr;
use crate::ast::ModuleItem;
use crate::ast::PropOrSpread;
use crate::ast::Pat;
use crate::ast::Span;
use crate::ast::Stmt;
use crate::ast::StrLit;
use crate::ast::VarDecl;
use crate::ast::VarDeclKind;
use crate::ast::VarDeclarator;
use crate::ast::DUMMY_SP;
use crate::actionid::action_id_chars;
use crate::actionid::generate_action_id;
use crate::builders::is_bound_proxy;
use crate::builders::is_cache_wrap;
use crate::builders::is_decrypt_decl;
use crate::builders::is_register_reference_call;
use crate::builders::annotate_ident_as_server_reference;
use crate::builders::make_closure_bound_param;
use crate::builders::make_decrypt_decl;
use crate::builders::wrap_cache_expr;
use crate::catalogue::strs_v;
use crate::closure::replace_in_block;
use crate::closure::rewritten_expr;
use crate::closure::rewritten_stmts;
use crate::diag::Diag;
use crate::diag::DiagKind;
use crate::directive::opt_str_v;
use crate::directive::scan_fn_stmts;
use crate::naming::action_ident_chars;
use crate::naming::bump;
use crate::naming::cache_ident_chars;
use crate::naming::gen_action_ident;
use crate::naming::gen_cache_ident;
use crate::qualname::expr_as_name;
use crate::qualname::names_v;
use crate::qualname::parts_v;
use crate::qualname::qn_v;
use crate::qualname::try_expr_to_name;
use crate::qualname::wf_name;
use crate::qualname::name_to_expr;
use crate::qualname::QualName;
use crate::qualname::QualNameV;
use crate::Config;

verus! {

/// The single mutable owner of the pass's state, created once per
/// module and consumed by the module-scope post-processing.
pub struct ServerActions {
    pub config: Config,
    pub file_name: String,
    /// The hygiene context of every identifier the pass invents.
    pub private_ctxt: u32,
    pub in_action_file: bool,
    pub in_cache_file: Option<String>,
    pub in_export_decl: bool,
    pub in_default_export_decl: bool,
    pub in_callee: bool,
    pub has_action: bool,
    pub has_cache: bool,
    pub reference_index: u64,
    pub in_module_level: bool,
    pub should_track_names: bool,
    pub names: Vec<QualName>,
    pub declared_idents: Vec<Ident>,
    pub exported_idents: Vec<(Ident, String)>,
    pub annotations: Vec<Stmt>,
    pub extra_items: Vec<ModuleItem>,
    pub hoisted_extra_items: Vec<ModuleItem>,
    pub export_actions: Vec<String>,
    pub diags: Vec<Diag>,
}

impl ServerActions {
    /// Every observed name is one canonicalisation can produce.
    pub open spec fn names_wf(self) -> bool {
        forall|k: int| 0 <= k < self.names@.len() ==> wf_name(#[trigger] names_v(self.names@)[k])
    }

    /// The fields a hoisting step never touches.
    pub open spec fn hoist_frame(pre: ServerActions, post: ServerActions) -> bool {
        &&& post.config == pre.config
        &&& post.file_name == pre.file_name
        &&& post.private_ctxt == pre.private_ctxt
        &&& post.in_action_file == pre.in_action_file
        &&& post.in_cache_file == pre.in_cache_file
        &&& post.in_export_decl == pre.in_export_decl
        &&& post.in_default_export_decl == pre.in_default_export_decl
        &&& post.in_callee == pre.in_callee
        &&& post.in_module_level == pre.in_module_level
        &&& post.should_track_names == pre.should_track_names
        &&& post.names == pre.names
        &&& post.declared_idents == pre.declared_idents
        &&& post.exported_idents == pre.exported_idents
        &&& post.annotations == pre.annotations
        &&& post.diags == pre.diags
        &&& post.reference_index == bump(pre.reference_index)
    }
}

/// The name the next hoisted action definition receives.
pub open spec fn next_action_name(st: ServerActions) -> Seq<char> {
    action_ident_chars(st.reference_index as nat)
}

/// The name the next hoisted cache definition receives.
pub open spec fn next_cache_name(st: ServerActions) -> Seq<char> {
    cache_ident_chars(st.reference_index as nat)
}

/// The stable id of `name` under this state's salt and filename.
pub open spec fn id_of(st: ServerActions, name: Seq<char>) -> Seq<char> {
    action_id_chars(st.config.hash_salt@, st.file_name@, name)
}

/// All captured names are well formed.
pub open spec fn captures_wf(ids: Seq<QualNameV>) -> bool {
    forall|k: int| 0 <= k < ids.len() ==> wf_name(#[trigger] ids[k])
}

/// One bound argument: a non-spread expression canonicalising back to
/// the captured qualified name.
pub open spec fn is_capture_arg(a: ExprOrSpread, q: QualNameV) -> bool {
    !a.spread && expr_as_name(a.expr) == Some(q)
}

/// The argument list binding the captures, one per captured name.
pub open spec fn are_capture_args(args: Seq<ExprOrSpread>, ids: Seq<QualNameV>) -> bool {
    args.len() == ids.len() && forall|k: int|
        0 <= k < ids.len() ==> is_capture_arg(#[trigger] args[k], #[trigger] ids[k])
}

/// `e` is the proxy for a hoisted definition named `sym`: the register
/// call alone without captures, otherwise bound to the encrypted
/// capture list.
pub open spec fn is_capture_proxy(
    e: Expr,
    sym: Seq<char>,
    tspan: Span,
    id: Seq<char>,
    ids: Seq<QualNameV>,
    ctxt: u32,
) -> bool {
    if ids.len() == 0 {
        is_register_reference_call(e, sym, tspan, ctxt, id, ctxt)
    } else {
        exists|args: Seq<ExprOrSpread>|
            #[trigger] are_capture_args(args, ids) && is_bound_proxy(
                e,
                sym,
                tspan,
                ctxt,
                id,
                args,
                ctxt,
            )
    }
}

/// The parameters of a hoisted definition: the closure-bound parameter
/// first when captures exist, then the original parameters unchanged.
pub open spec fn hoisted_params_ok(
    params: Seq<Pat>,
    orig_params: Seq<Pat>,
    n_caps: nat,
    ctxt: u32,
) -> bool {
    if n_caps == 0 {
        params == orig_params
    } else {
        &&& params.len() == orig_params.len() + 1
        &&& match params[0] {
            Pat::Id(i) => i.sym@ == "$$ACTION_CLOSURE_BOUND"@ && i.ctxt == ctxt,
            _ => false,
        }
        &&& params.skip(1) == orig_params
    }
}

/// The body of a hoisted function definition: the decrypt-destructure
/// head when captures exist, then the closure-rewritten original
/// statements.
pub open spec fn hoisted_fn_body_ok(
    body: Option<BlockStmt>,
    orig_body: Option<BlockStmt>,
    ids: Seq<QualNameV>,
    id: Seq<char>,
    ctxt: u32,
) -> bool {
    match orig_body {
        Some(ob) => match body {
            Some(b) => if ids.len() == 0 {
                rewritten_stmts(ob.stmts@, b.stmts@, ids, ctxt)
            } else {
                &&& b.stmts@.len() == ob.stmts@.len() + 1
                &&& is_decrypt_decl(b.stmts@[0], ids.len(), id, ctxt)
                &&& rewritten_stmts(ob.stmts@, b.stmts@.skip(1), ids, ctxt)
            },
            None => false,
        },
        None => if ids.len() == 0 {
            body is None
        } else {
            match body {
                Some(b) => b.stmts@.len() == 1 && is_decrypt_decl(b.stmts@[0], ids.len(), id, ctxt),
                None => false,
            }
        },
    }
}

/// The body statements of a hoisted arrow: an expression body becomes a
/// single rewritten `return`.
pub open spec fn hoisted_arrow_stmts_ok(
    stmts: Seq<Stmt>,
    orig_body: BlockStmtOrExpr,
    ids: Seq<QualNameV>,
    id: Seq<char>,
    ctxt: u32,
) -> bool {
    let head: int = if ids.len() == 0 {
        0
    } else {
        1
    };
    &&& (ids.len() > 0 ==> stmts.len() >= 1 && is_decrypt_decl(stmts[0], ids.len(), id, ctxt))
    &&& match orig_body {
        BlockStmtOrExpr::Block(b) => rewritten_stmts(b.stmts@, stmts.skip(head), ids, ctxt),
        BlockStmtOrExpr::Expr(e) => stmts.len() == head + 1 && match stmts[head] {
            Stmt::Return { arg, .. } => match arg {
                Some(ne) => rewritten_expr(e, ne, ids, ctxt),
                None => false,
            },
            _ => false,
        },
    }
}

/// `item` is `export async function <name>(...) { ... }`, the hoisted
/// form of an action function body.
pub open spec fn is_hoisted_action_fn_item(
    item: ModuleItem,
    name: Seq<char>,
    id: Seq<char>,
    ids: Seq<QualNameV>,
    orig_params: Seq<Pat>,
    orig_body: Option<BlockStmt>,
    span: Span,
    ctxt: u32,
) -> bool {
    match item {
        ModuleItem::ExportDecl { decl, .. } => match decl {
            Decl::Fn(fd) => {
                &&& fd.ident.sym@ == name
                &&& fd.ident.ctxt == ctxt
                &&& fd.ident.span == span
                &&& fd.function.is_async
                &&& hoisted_params_ok(fd.function.params@, orig_params, ids.len(), ctxt)
                &&& hoisted_fn_body_ok(fd.function.body, orig_body, ids, id, ctxt)
            },
            _ => false,
        },
        _ => false,
    }
}

/// `item` is `export async function <name>(...) { ... }`, the hoisted
/// form of an action arrow.
pub open spec fn is_hoisted_action_arrow_item(
    item: ModuleItem,
    name: Seq<char>,
    id: Seq<char>,
    ids: Seq<QualNameV>,
    orig: ArrowExpr,
    ctxt: u32,
) -> bool {
    match item {
        ModuleItem::ExportDecl { decl, .. } => match decl {
            Decl::Fn(fd) => {
                &&& fd.ident.sym@ == name
                &&& fd.ident.ctxt == ctxt
                &&& fd.ident.span == orig.span
                &&& fd.function.is_async
                &&& hoisted_params_ok(fd.function.params@, orig.params@, ids.len(), ctxt)
                &&& match fd.function.body {
                    Some(b) => hoisted_arrow_stmts_ok(b.stmts@, *orig.body, ids, id, ctxt),
                    None => false,
                }
            },
            _ => false,
        },
        _ => false,
    }
}

/// The hoisted inner function of a cache definition.
pub open spec fn is_cache_inner_fn(
    inner: Expr,
    fn_name: Option<Ident>,
    ids: Seq<QualNameV>,
    orig_params: Seq<Pat>,
    orig_body: Option<BlockStmt>,
    id: Seq<char>,
    ctxt: u32,
) -> bool {
    match inner {
        Expr::Fn(fe) => {
            &&& fe.ident == fn_name
            &&& fe.function.is_async
            &&& hoisted_params_ok(fe.function.params@, orig_params, ids.len(), ctxt)
            &&& hoisted_fn_body_ok(fe.function.body, orig_body, ids, id, ctxt)
        },
        _ => false,
    }
}

/// The hoisted inner function of a cache definition built from an arrow.
pub open spec fn is_cache_inner_arrow(
    inner: Expr,
    ids: Seq<QualNameV>,
    orig: ArrowExpr,
    id: Seq<char>,
    ctxt: u32,
) -> bool {
    match inner {
        Expr::Fn(fe) => {
            &&& fe.ident is None
            &&& fe.function.is_async
            &&& hoisted_params_ok(fe.function.params@, orig.params@, ids.len(), ctxt)
            &&& match fe.function.body {
                Some(b) => hoisted_arrow_stmts_ok(b.stmts@, *orig.body, ids, id, ctxt),
                None => false,
            }
        },
        _ => false,
    }
}

/// `item` is `export var <name> = $$cache__("<kind>", "<id>", async function ...)`,
/// the hoisted form of a cache function.
pub open spec fn is_hoisted_cache_fn_item(
    item: ModuleItem,
    name: Seq<char>,
    kind: Seq<char>,
    id: Seq<char>,
    ids: Seq<QualNameV>,
    fn_name: Option<Ident>,
    orig_params: Seq<Pat>,
    orig_body: Option<BlockStmt>,
    ctxt: u32,
) -> bool {
    match item {
        ModuleItem::ExportDecl { decl, .. } => match decl {
            Decl::Var(v) => {
                &&& v.kind == VarDeclKind::Var
                &&& v.decls@.len() == 1
                &&& match v.decls@[0].name {
                    Pat::Id(i) => i.sym@ == name && i.ctxt == ctxt,
                    _ => false,
                }
                &&& match v.decls@[0].init {
                    Some(init) => exists|inner: Expr|
                        #[trigger] is_cache_wrap(init, kind, id, inner, ctxt)
                            && is_cache_inner_fn(inner, fn_name, ids, orig_params, orig_body, id, ctxt),
                    None => false,
                }
            },
            _ => false,
        },
        _ => false,
    }
}

/// `item` is `export var <name> = $$cache__("<kind>", "<id>", async function ...)`,
/// the hoisted form of a cache arrow.
pub open spec fn is_hoisted_cache_arrow_item(
    item: ModuleItem,
    name: Seq<char>,
    kind: Seq<char>,
    id: Seq<char>,
    ids: Seq<QualNameV>,
    orig: ArrowExpr,
    ctxt: u32,
) -> bool {
    match item {
        ModuleItem::ExportDecl { decl, .. } => match decl {
            Decl::Var(v) => {
                &&& v.kind == VarDeclKind::Var
                &&& v.decls@.len() == 1
                &&& match v.decls@[0].name {
                    Pat::Id(i) => i.sym@ == name && i.ctxt == ctxt,
                    _ => false,
                }
                &&& match v.decls@[0].init {
                    Some(init) => exists|inner: Expr|
                        #[trigger] is_cache_wrap(init, kind, id, inner, ctxt)
                            && is_cache_inner_arrow(inner, ids, orig, id, ctxt),
                    None => false,
                }
            },
            _ => false,
        },
        _ => false,
    }
}


/// A hoisted action definition in outline: an exported async function
/// under the hoisted name whose body, when captures exist, starts with
/// the decrypt-destructure of that many closure values under the id,
/// after the closure-bound parameter.
pub open spec fn is_hoisted_action_def(
    item: ModuleItem,
    name: Seq<char>,
    id: Seq<char>,
    n_caps: nat,
    ctxt: u32,
) -> bool {
    match item {
        ModuleItem::ExportDecl { decl, .. } => match decl {
            Decl::Fn(fd) => {
                &&& fd.ident.sym@ == name
                &&& fd.ident.ctxt == ctxt
                &&& fd.function.is_async
                &&& (n_caps > 0 ==> fd.function.params@.len() >= 1 && (match fd.function.params@[0] {
                    Pat::Id(i) => i.sym@ == "$$ACTION_CLOSURE_BOUND"@ && i.ctxt == ctxt,
                    _ => false,
                }))
                &&& (n_caps > 0 ==> (match fd.function.body {
                    Some(b) => b.stmts@.len() >= 1 && is_decrypt_decl(b.stmts@[0], n_caps, id, ctxt),
                    None => false,
                }))
            },
            _ => false,
        },
        _ => false,
    }
}

/// A hoisted cache definition in outline: `export var <name> =
/// $$cache__("<kind>", "<id>", async function ...)`, the inner function
/// decrypt-headed when captures exist.
pub open spec fn is_hoisted_cache_def(
    item: ModuleItem,
    name: Seq<char>,
    kind: Seq<char>,
    id: Seq<char>,
    n_caps: nat,
    ctxt: u32,
) -> bool {
    match item {
        ModuleItem::ExportDecl { decl, .. } => match decl {
            Decl::Var(v) => {
                &&& v.kind == VarDeclKind::Var
                &&& v.decls@.len() == 1
                &&& (match v.decls@[0].name {
                    Pat::Id(i) => i.sym@ == name && i.ctxt == ctxt,
                    _ => false,
                })
                &&& (match v.decls@[0].init {
                    Some(init) => exists|inner: Expr|
                        #[trigger] is_cache_wrap(init, kind, id, inner, ctxt) && (match inner {
                            Expr::Fn(fe) => fe.function.is_async && (n_caps > 0 ==> (
                            match fe.function.body {
                                Some(b) => b.stmts@.len() >= 1 && is_decrypt_decl(
                                    b.stmts@[0],
                                    n_caps,
                                    id,
                                    ctxt,
                                ),
                                None => false,
                            })),
                            _ => false,
                        }),
                    None => false,
                })
            },
            _ => false,
        },
        _ => false,
    }
}

/// An inline action was hoisted: the proxy and the definition appended
/// last to the items belong together, under one fresh name, one id
/// derived from this state's salt and filename, and one capture list.
pub open spec fn action_hoist_result(
    proxy: Expr,
    items: Seq<ModuleItem>,
    tspan: Span,
    st: ServerActions,
) -> bool {
    exists|n: nat, caps: Seq<QualNameV>|
        items.len() > 0 && is_hoisted_action_def(
            items.last(),
            action_ident_chars(n),
            action_id_chars(st.config.hash_salt@, st.file_name@, action_ident_chars(n)),
            caps.len(),
            st.private_ctxt,
        ) && #[trigger] is_capture_proxy(
            proxy,
            action_ident_chars(n),
            tspan,
            action_id_chars(st.config.hash_salt@, st.file_name@, action_ident_chars(n)),
            caps,
            st.private_ctxt,
        )
}

/// An inline cache function was hoisted, analogously.
pub open spec fn cache_hoist_result(
    proxy: Expr,
    items: Seq<ModuleItem>,
    kind: Seq<char>,
    st: ServerActions,
) -> bool {
    exists|n: nat, caps: Seq<QualNameV>|
        items.len() > 0 && is_hoisted_cache_def(
            items.last(),
            cache_ident_chars(n),
            kind,
            action_id_chars(st.config.hash_salt@, st.file_name@, cache_ident_chars(n)),
            caps.len(),
            st.private_ctxt,
        ) && #[trigger] is_capture_proxy(
            proxy,
            cache_ident_chars(n),
            DUMMY_SP,
            action_id_chars(st.config.hash_salt@, st.file_name@, cache_ident_chars(n)),
            caps,
            st.private_ctxt,
        )
}

/// The initialiser of `var <ident> = <proxy>;`, when `r` has that shape.
pub open spec fn proxy_decl_init(r: Decl, ident: Ident) -> Option<Expr> {
    match r {
        Decl::Var(v) => if v.kind == VarDeclKind::Var && v.decls@.len() == 1 && v.decls@[0].name
            == Pat::Id(ident) {
            v.decls@[0].init
        } else {
            None
        },
        _ => None,
    }
}

/// The cache kind a classified function-like receives: in an export
/// declaration of a cache file the module's kind, otherwise the kind
/// its own body directive names.
pub open spec fn effective_cache_kind(
    sc: crate::directive::FnScanOut,
    st: ServerActions,
) -> Option<Seq<char>> {
    if st.in_export_decl && !st.in_action_file && (st.in_cache_file is Some) {
        opt_str_v(st.in_cache_file)
    } else {
        sc.cache
    }
}

impl ServerActions {
    /// Turns the captured names into the bound-argument expressions the
    /// proxy closes over.
    #[verifier::loop_isolation(false)]
    fn capture_args(ids: &Vec<QualName>) -> (r: Vec<ExprOrSpread>)
        requires
            captures_wf(names_v(ids@)),
        ensures
            are_capture_args(r@, names_v(ids@)),
    {
        let mut out: Vec<ExprOrSpread> = Vec::new();
        let mut k: usize = 0;
        while k < ids.len()
            invariant
                k <= ids.len(),
                out@.len() == k,
                forall|j: int|
                    0 <= j < k ==> is_capture_arg(#[trigger] out@[j], #[trigger] names_v(ids@)[j]),
            decreases ids.len() - k,
        {
            proof {
                assert(wf_name(names_v(ids@)[k as int]));
                assert(qn_v(ids@[k as int]) == names_v(ids@)[k as int]);
            }
            let cl = ids[k].clone();
            proof {
                assert(qn_v(cl) == names_v(ids@)[k as int]);
                assert(wf_name(qn_v(cl)));
            }
            let ghost gcl = cl;
            let e = name_to_expr(cl);
            proof {
                assert(expr_as_name(e) == Some(qn_v(gcl)));
                assert(expr_as_name(e) == Some(names_v(ids@)[k as int]));
            }
            let ghost ge = e;
            let ghost pre_out = out@;
            out.push(ExprOrSpread { spread: false, expr: e });
            proof {
                assert forall|j: int|
                    0 <= j < k + 1 implies is_capture_arg(
                    #[trigger] out@[j],
                    #[trigger] names_v(ids@)[j],
                ) by {
                    if j < k {
                        assert(out@[j] == pre_out[j]);
                        assert(is_capture_arg(pre_out[j], names_v(ids@)[j]));
                    } else {
                        assert(out@[j] == ExprOrSpread { spread: false, expr: ge });
                        assert(expr_as_name(ge) == Some(names_v(ids@)[k as int]));
                        assert(is_capture_arg(out@[j], names_v(ids@)[j]));
                    }
                }
            }
            k = k + 1;
        }
        out
    }

    /// Hoists an action function body into a top-level exported async
    /// function and yields the registered proxy that replaces it.
    #[verifier::loop_isolation(false)]
    fn maybe_hoist_and_create_proxy_for_server_action_function(
        &mut self,
        ids_from_closure: Vec<QualName>,
        function: Function,
    ) -> (r: Expr)
        requires
            captures_wf(names_v(ids_from_closure@)),
        ensures
            ServerActions::hoist_frame(*old(self), *final(self)),
            final(self).has_action,
            final(self).has_cache == old(self).has_cache,
            final(self).hoisted_extra_items == old(self).hoisted_extra_items,
            strs_v(final(self).export_actions@) == strs_v(old(self).export_actions@).push(
                next_action_name(*old(self)),
            ),
            final(self).extra_items@.len() == old(self).extra_items@.len() + 1,
            final(self).extra_items@ == old(self).extra_items@.push(final(self).extra_items@.last()),
            is_hoisted_action_fn_item(
                final(self).extra_items@.last(),
                next_action_name(*old(self)),
                id_of(*old(self), next_action_name(*old(self))),
                names_v(ids_from_closure@),
                function.params@,
                function.body,
                function.span,
                old(self).private_ctxt,
            ),
            is_capture_proxy(
                r,
                next_action_name(*old(self)),
                function.span,
                id_of(*old(self), next_action_name(*old(self))),
                names_v(ids_from_closure@),
                old(self).private_ctxt,
            ),
    {
        let ghost pre = *self;
        let action_name = gen_action_ident(&mut self.reference_index);
        self.has_action = true;
        self.export_actions.push(action_name.clone());
        proof {
            assert(strs_v(self.export_actions@) =~= strs_v(pre.export_actions@).push(
                next_action_name(pre),
            ));
        }
        let action_ident = Ident {
            sym: action_name.clone(),
            span: function.span,
            ctxt: self.private_ctxt,
        };
        let action_id = generate_action_id(
            self.config.hash_salt.as_str(),
            self.file_name.as_str(),
            action_name.as_str(),
        );
        let bound = Self::capture_args(&ids_from_closure);
        let ghost gbound = bound@;
        let register_action_expr = annotate_ident_as_server_reference(
            action_ident,
            bound,
            &action_id,
            self.private_ctxt,
        );
        let Function { span, params, body, is_async: _ } = function;
        let n_caps = ids_from_closure.len();
        let new_body: Option<BlockStmt> = match &body {
            Some(b) => {
                let mut nb = replace_in_block(b, &ids_from_closure, self.private_ctxt);
                if n_caps > 0 {
                    let ghost tail = nb.stmts@;
                    let decl = make_decrypt_decl(n_caps, &action_id, self.private_ctxt);
                    nb.stmts.insert(0, decl);
                    proof {
                        assert(nb.stmts@.skip(1) =~= tail);
                    }
                }
                Some(nb)
            },
            None => {
                if n_caps > 0 {
                    let mut stmts: Vec<Stmt> = Vec::new();
                    stmts.push(make_decrypt_decl(n_caps, &action_id, self.private_ctxt));
                    Some(BlockStmt { span: DUMMY_SP, stmts })
                } else {
                    None
                }
            },
        };
        let mut new_params: Vec<Pat> = Vec::new();
        if n_caps > 0 {
            new_params.push(make_closure_bound_param(self.private_ctxt));
        }
        let ghost head = new_params@;
        let mut old_params = params;
        new_params.append(&mut old_params);
        proof {
            assert(new_params@ =~= head + params@);
            if n_caps > 0 {
                assert(new_params@.skip(1) =~= params@);
            }
        }
        let hoisted = ModuleItem::ExportDecl {
            span: DUMMY_SP,
            decl: Decl::Fn(
                FnDecl {
                    ident: Ident {
                        sym: action_name,
                        span,
                        ctxt: self.private_ctxt,
                    },
                    function: Function {
                        span: DUMMY_SP,
                        params: new_params,
                        body: new_body,
                        is_async: true,
                    },
                },
            ),
        };
        self.extra_items.push(hoisted);
        proof {
            assert(self.extra_items@ =~= pre.extra_items@.push(self.extra_items@.last()));
            if names_v(ids_from_closure@).len() > 0 {
                assert(are_capture_args(gbound, names_v(ids_from_closure@)));
            }
        }
        register_action_expr
    }

    /// Hoists an action arrow into a top-level exported async function
    /// and yields the registered proxy that replaces it.
    #[verifier::loop_isolation(false)]
    fn maybe_hoist_and_create_proxy_for_server_action_arrow_expr(
        &mut self,
        ids_from_closure: Vec<QualName>,
        arrow: ArrowExpr,
    ) -> (r: Expr)
        requires
            captures_wf(names_v(ids_from_closure@)),
        ensures
            ServerActions::hoist_frame(*old(self), *final(self)),
            final(self).has_action,
            final(self).has_cache == old(self).has_cache,
            final(self).hoisted_extra_items == old(self).hoisted_extra_items,
            strs_v(final(self).export_actions@) == strs_v(old(self).export_actions@).push(
                next_action_name(*old(self)),
            ),
            final(self).extra_items@.len() == old(self).extra_items@.len() + 1,
            final(self).extra_items@ == old(self).extra_items@.push(
                final(self).extra_items@.last(),
            ),
            is_hoisted_action_arrow_item(
                final(self).extra_items@.last(),
                next_action_name(*old(self)),
                id_of(*old(self), next_action_name(*old(self))),
                names_v(ids_from_closure@),
                arrow,
                old(self).private_ctxt,
            ),
            is_capture_proxy(
                r,
                next_action_name(*old(self)),
                arrow.span,
                id_of(*old(self), next_action_name(*old(self))),
                names_v(ids_from_closure@),
                old(self).private_ctxt,
            ),
    {
        let ghost pre = *self;
        let action_name = gen_action_ident(&mut self.reference_index);
        self.has_action = true;
        self.export_actions.push(action_name.clone());
        proof {
            assert(strs_v(self.export_actions@) =~= strs_v(pre.export_actions@).push(
                next_action_name(pre),
            ));
        }
        let action_ident = Ident {
            sym: action_name.clone(),
            span: arrow.span,
            ctxt: self.private_ctxt,
        };
        let action_id = generate_action_id(
            self.config.hash_salt.as_str(),
            self.file_name.as_str(),
            action_name.as_str(),
        );
        let bound = Self::capture_args(&ids_from_closure);
        let ghost gbound = bound@;
        let register_action_expr = annotate_ident_as_server_reference(
            action_ident,
            bound,
            &action_id,
            self.private_ctxt,
        );
        let ArrowExpr { span, params, body, is_async: _ } = arrow;
        let n_caps = ids_from_closure.len();
        let new_body = crate::closure::replace_in_body(&body, &ids_from_closure, self.private_ctxt);
        let mut stmts: Vec<Stmt> = Vec::new();
        if n_caps > 0 {
            stmts.push(make_decrypt_decl(n_caps, &action_id, self.private_ctxt));
        }
        let ghost head_len: int = stmts@.len() as int;
        match new_body {
            BlockStmtOrExpr::Block(b) => {
                let ghost gbs = b.stmts@;
                let mut bs = b.stmts;
                stmts.append(&mut bs);
                proof {
                    assert(stmts@.skip(head_len) =~= gbs);
                }
            },
            BlockStmtOrExpr::Expr(e) => {
                let ghost ge2 = e;
                stmts.push(Stmt::Return { span: DUMMY_SP, arg: Some(e) });
                proof {
                    assert(stmts@[head_len] == Stmt::Return { span: DUMMY_SP, arg: Some(ge2) });
                    assert(stmts@.len() == head_len + 1);
                }
            },
        }
        proof {
            assert(hoisted_arrow_stmts_ok(
                stmts@,
                *arrow.body,
                names_v(ids_from_closure@),
                id_of(pre, next_action_name(pre)),
                pre.private_ctxt,
            ));
        }
        let mut new_params: Vec<Pat> = Vec::new();
        if n_caps > 0 {
            new_params.push(make_closure_bound_param(self.private_ctxt));
        }
        let ghost head = new_params@;
        let mut old_params = params;
        new_params.append(&mut old_params);
        proof {
            assert(new_params@ =~= head + params@);
            if n_caps > 0 {
                assert(new_params@.skip(1) =~= params@);
            }
        }
        let hoisted = ModuleItem::ExportDecl {
            span: DUMMY_SP,
            decl: Decl::Fn(
                FnDecl {
                    ident: Ident { sym: action_name, span, ctxt: self.private_ctxt },
                    function: Function {
                        span: DUMMY_SP,
                        params: new_params,
                        body: Some(BlockStmt { span: DUMMY_SP, stmts }),
                        is_async: true,
                    },
                },
            ),
        };
        self.extra_items.push(hoisted);
        proof {
            assert(self.extra_items@ =~= pre.extra_items@.push(self.extra_items@.last()));
            if names_v(ids_from_closure@).len() > 0 {
                assert(are_capture_args(gbound, names_v(ids_from_closure@)));
            }
        }
        register_action_expr
    }

    /// Hoists a cache function body into a top-level exported
    /// `$$cache__`-wrapped definition and yields its registered proxy.
    #[verifier::loop_isolation(false)]
    fn maybe_hoist_and_create_proxy_for_cache_function(
        &mut self,
        ids_from_closure: Vec<QualName>,
        fn_name: Option<Ident>,
        cache_kind: &String,
        function: Function,
    ) -> (r: Expr)
        requires
            captures_wf(names_v(ids_from_closure@)),
        ensures
            ServerActions::hoist_frame(*old(self), *final(self)),
            final(self).has_action,
            final(self).has_cache,
            final(self).extra_items == old(self).extra_items,
            strs_v(final(self).export_actions@) == strs_v(old(self).export_actions@).push(
                next_cache_name(*old(self)),
            ),
            final(self).hoisted_extra_items@.len() == old(self).hoisted_extra_items@.len() + 1,
            final(self).hoisted_extra_items@ == old(self).hoisted_extra_items@.push(
                final(self).hoisted_extra_items@.last(),
            ),
            is_hoisted_cache_fn_item(
                final(self).hoisted_extra_items@.last(),
                next_cache_name(*old(self)),
                cache_kind@,
                id_of(*old(self), next_cache_name(*old(self))),
                names_v(ids_from_closure@),
                fn_name,
                function.params@,
                function.body,
                old(self).private_ctxt,
            ),
            is_capture_proxy(
                r,
                next_cache_name(*old(self)),
                DUMMY_SP,
                id_of(*old(self), next_cache_name(*old(self))),
                names_v(ids_from_closure@),
                old(self).private_ctxt,
            ),
    {
        let ghost pre = *self;
        let cache_name = gen_cache_ident(&mut self.reference_index);
        self.has_cache = true;
        self.has_action = true;
        self.export_actions.push(cache_name.clone());
        proof {
            assert(strs_v(self.export_actions@) =~= strs_v(pre.export_actions@).push(
                next_cache_name(pre),
            ));
        }
        let cache_ident = Ident {
            sym: cache_name.clone(),
            span: DUMMY_SP,
            ctxt: self.private_ctxt,
        };
        let reference_id = generate_action_id(
            self.config.hash_salt.as_str(),
            self.file_name.as_str(),
            cache_name.as_str(),
        );
        let bound = Self::capture_args(&ids_from_closure);
        let ghost gbound = bound@;
        let register_action_expr = annotate_ident_as_server_reference(
            cache_ident.clone(),
            bound,
            &reference_id,
            self.private_ctxt,
        );
        let Function { span: _, params, body, is_async: _ } = function;
        let n_caps = ids_from_closure.len();
        let new_body: Option<BlockStmt> = match &body {
            Some(b) => {
                let mut nb = replace_in_block(b, &ids_from_closure, self.private_ctxt);
                if n_caps > 0 {
                    let ghost tail = nb.stmts@;
                    let decl = make_decrypt_decl(n_caps, &reference_id, self.private_ctxt);
                    nb.stmts.insert(0, decl);
                    proof {
                        assert(nb.stmts@.skip(1) =~= tail);
                    }
                }
                Some(nb)
            },
            None => {
                if n_caps > 0 {
                    let mut stmts: Vec<Stmt> = Vec::new();
                    stmts.push(make_decrypt_decl(n_caps, &reference_id, self.private_ctxt));
                    Some(BlockStmt { span: DUMMY_SP, stmts })
                } else {
                    None
                }
            },
        };
        let mut new_params: Vec<Pat> = Vec::new();
        if n_caps > 0 {
            new_params.push(make_closure_bound_param(self.private_ctxt));
        }
        let ghost head = new_params@;
        let mut old_params = params;
        new_params.append(&mut old_params);
        proof {
            assert(new_params@ =~= head + params@);
            if n_caps > 0 {
                assert(new_params@.skip(1) =~= params@);
            }
        }
        let inner = Expr::Fn(
            FnExpr {
                ident: fn_name,
                function: Function {
                    span: DUMMY_SP,
                    params: new_params,
                    body: new_body,
                    is_async: true,
                },
            },
        );
        let ghost ginner = inner;
        let init = wrap_cache_expr(inner, cache_kind, &reference_id, self.private_ctxt);
        proof {
            assert(is_cache_inner_fn(
                ginner,
                fn_name,
                names_v(ids_from_closure@),
                function.params@,
                function.body,
                id_of(pre, next_cache_name(pre)),
                pre.private_ctxt,
            ));
        }
        let mut decls: Vec<VarDeclarator> = Vec::new();
        decls.push(VarDeclarator { span: DUMMY_SP, name: Pat::Id(cache_ident), init: Some(init) });
        let hoisted = ModuleItem::ExportDecl {
            span: DUMMY_SP,
            decl: Decl::Var(VarDecl { span: DUMMY_SP, kind: VarDeclKind::Var, decls }),
        };
        self.hoisted_extra_items.push(hoisted);
        proof {
            assert(self.hoisted_extra_items@ =~= pre.hoisted_extra_items@.push(
                self.hoisted_extra_items@.last(),
            ));
            if names_v(ids_from_closure@).len() > 0 {
                assert(are_capture_args(gbound, names_v(ids_from_closure@)));
            }
        }
        register_action_expr
    }

    /// Hoists a cache arrow into a top-level exported
    /// `$$cache__`-wrapped definition and yields its registered proxy.
    #[verifier::loop_isolation(false)]
    fn maybe_hoist_and_create_proxy_for_cache_arrow_expr(
        &mut self,
        ids_from_closure: Vec<QualName>,
        cache_kind: &String,
        arrow: ArrowExpr,
    ) -> (r: Expr)
        requires
            captures_wf(names_v(ids_from_closure@)),
        ensures
            ServerActions::hoist_frame(*old(self), *final(self)),
            final(self).has_action,
            final(self).has_cache,
            final(self).extra_items == old(self).extra_items,
            strs_v(final(self).export_actions@) == strs_v(old(self).export_actions@).push(
                next_cache_name(*old(self)),
            ),
            final(self).hoisted_extra_items@.len() == old(self).hoisted_extra_items@.len() + 1,
            final(self).hoisted_extra_items@ == old(self).hoisted_extra_items@.push(
                final(self).hoisted_extra_items@.last(),
            ),
            is_hoisted_cache_arrow_item(
                final(self).hoisted_extra_items@.last(),
                next_cache_name(*old(self)),
                cache_kind@,
                id_of(*old(self), next_cache_name(*old(self))),
                names_v(ids_from_closure@),
                arrow,
                old(self).private_ctxt,
            ),
            is_capture_proxy(
                r,
                next_cache_name(*old(self)),
                DUMMY_SP,
                id_of(*old(self), next_cache_name(*old(self))),
                names_v(ids_from_closure@),
                old(self).private_ctxt,
            ),
    {
        let ghost pre = *self;
        let cache_name = gen_cache_ident(&mut self.reference_index);
        self.has_cache = true;
        self.has_action = true;
        self.export_actions.push(cache_name.clone());
        proof {
            assert(strs_v(self.export_actions@) =~= strs_v(pre.export_actions@).push(
                next_cache_name(pre),
            ));
        }
        let cache_ident = Ident {
            sym: cache_name.clone(),
            span: DUMMY_SP,
            ctxt: self.private_ctxt,
        };
        let reference_id = generate_action_id(
            self.config.hash_salt.as_str(),
            self.file_name.as_str(),
            cache_name.as_str(),
        );
        let bound = Self::capture_args(&ids_from_closure);
        let ghost gbound = bound@;
        let register_action_expr = annotate_ident_as_server_reference(
            cache_ident.clone(),
            bound,
            &reference_id,
            self.private_ctxt,
        );
        let ArrowExpr { span: _, params, body, is_async: _ } = arrow;
        let n_caps = ids_from_closure.len();
        let new_body = crate::closure::replace_in_body(&body, &ids_from_closure, self.private_ctxt);
        let mut stmts: Vec<Stmt> = Vec::new();
        if n_caps > 0 {
            stmts.push(make_decrypt_decl(n_caps, &reference_id, self.private_ctxt));
        }
        let ghost head_len: int = stmts@.len() as int;
        match new_body {
            BlockStmtOrExpr::Block(b) => {
                let ghost gbs = b.stmts@;
                let mut bs = b.stmts;
                stmts.append(&mut bs);
                proof {
                    assert(stmts@.skip(head_len) =~= gbs);
                }
            },
            BlockStmtOrExpr::Expr(e) => {
                let ghost ge2 = e;
                stmts.push(Stmt::Return { span: DUMMY_SP, arg: Some(e) });
                proof {
                    assert(stmts@[head_len] == Stmt::Return { span: DUMMY_SP, arg: Some(ge2) });
                    assert(stmts@.len() == head_len + 1);
                }
            },
        }
        proof {
            assert(hoisted_arrow_stmts_ok(
                stmts@,
                *arrow.body,
                names_v(ids_from_closure@),
                id_of(pre, next_cache_name(pre)),
                pre.private_ctxt,
            ));
        }
        let mut new_params: Vec<Pat> = Vec::new();
        if n_caps > 0 {
            new_params.push(make_closure_bound_param(self.private_ctxt));
        }
        let ghost head = new_params@;
        let mut old_params = params;
        new_params.append(&mut old_params);
        proof {
            assert(new_params@ =~= head + params@);
            if n_caps > 0 {
                assert(new_params@.skip(1) =~= params@);
            }
        }
        let inner = Expr::Fn(
            FnExpr {
                ident: None,
                function: Function {
                    span: DUMMY_SP,
                    params: new_params,
                    body: Some(BlockStmt { span: DUMMY_SP, stmts }),
                    is_async: true,
                },
            },
        );
        let ghost ginner = inner;
        let init = wrap_cache_expr(inner, cache_kind, &reference_id, self.private_ctxt);
        proof {
            assert(is_cache_inner_arrow(
                ginner,
                names_v(ids_from_closure@),
                arrow,
                id_of(pre, next_cache_name(pre)),
                pre.private_ctxt,
            ));
        }
        let mut decls: Vec<VarDeclarator> = Vec::new();
        decls.push(VarDeclarator { span: DUMMY_SP, name: Pat::Id(cache_ident), init: Some(init) });
        let hoisted = ModuleItem::ExportDecl {
            span: DUMMY_SP,
            decl: Decl::Var(VarDecl { span: DUMMY_SP, kind: VarDeclKind::Var, decls }),
        };
        self.hoisted_extra_items.push(hoisted);
        proof {
            assert(self.hoisted_extra_items@ =~= pre.hoisted_extra_items@.push(
                self.hoisted_extra_items@.last(),
            ));
            if names_v(ids_from_closure@).len() > 0 {
                assert(are_capture_args(gbound, names_v(ids_from_closure@)));
            }
        }
        register_action_expr
    }
}


/// The scan of an optional function body.
pub open spec fn opt_block_scan(b: Option<BlockStmt>, enabled: bool) -> crate::directive::FnScanOut {
    match b {
        Some(bb) => scan_fn_stmts(bb.stmts@, enabled, true),
        None => crate::directive::FnScanOut {
            is_action: false,
            cache: None,
            action_span: None,
            kept: Seq::empty(),
            diags: Seq::empty(),
        },
    }
}

/// An option's value, or a default.
pub open spec fn span_or(o: Option<Span>, d: Span) -> Span {
    match o {
        Some(s) => s,
        None => d,
    }
}

/// The diagnostics for inline directives on the client layer: an inline
/// `"use server"` outside a server-action file, or an inline
/// `"use cache"` outside a cache file.
pub open spec fn inline_diags(
    sc: crate::directive::FnScanOut,
    st: ServerActions,
    body_span: Span,
) -> Seq<Diag> {
    (if sc.is_action && !st.config.is_react_server_layer && !st.in_action_file {
        seq![
            Diag {
                span: span_or(sc.action_span, body_span),
                kind: DiagKind::InlineUseServerInClient,
            },
        ]
    } else {
        Seq::empty()
    }) + (if sc.cache is Some && !st.config.is_react_server_layer && st.in_cache_file is None {
        seq![
            Diag {
                span: span_or(sc.action_span, body_span),
                kind: DiagKind::InlineUseCacheInClient,
            },
        ]
    } else {
        Seq::empty()
    })
}

/// Everything but the diagnostics is unchanged.
pub open spec fn same_but_diags(pre: ServerActions, post: ServerActions) -> bool {
    &&& post.config == pre.config
    &&& post.file_name == pre.file_name
    &&& post.private_ctxt == pre.private_ctxt
    &&& post.in_action_file == pre.in_action_file
    &&& post.in_cache_file == pre.in_cache_file
    &&& post.in_export_decl == pre.in_export_decl
    &&& post.in_default_export_decl == pre.in_default_export_decl
    &&& post.in_callee == pre.in_callee
    &&& post.has_action == pre.has_action
    &&& post.has_cache == pre.has_cache
    &&& post.reference_index == pre.reference_index
    &&& post.in_module_level == pre.in_module_level
    &&& post.should_track_names == pre.should_track_names
    &&& post.names == pre.names
    &&& post.declared_idents == pre.declared_idents
    &&& post.exported_idents == pre.exported_idents
    &&& post.annotations == pre.annotations
    &&& post.extra_items == pre.extra_items
    &&& post.hoisted_extra_items == pre.hoisted_extra_items
    &&& post.export_actions == pre.export_actions
}

impl ServerActions {
    /// Classifies a function-like from its body directives and the
    /// export context: body directives make it an action or cache
    /// function; in an action (or cache) file, every function in an
    /// export declaration is one. Reports inline client-layer misuse.
    #[verifier::loop_isolation(false)]
    #[verifier::rlimit(100)]
    #[verifier::spinoff_prover]
    fn get_body_info(&mut self, body: Option<&BlockStmt>) -> (r: (bool, Option<String>))
        ensures
            same_but_diags(*old(self), *final(self)),
            ({
                let sc = opt_block_scan(
                    match body {
                        Some(b) => Some(*b),
                        None => None,
                    },
                    old(self).config.enabled,
                );
                &&& r.0 == (sc.is_action || (old(self).in_export_decl && old(self).in_action_file))
                &&& opt_str_v(r.1) == (if old(self).in_export_decl && !old(self).in_action_file
                    && old(self).in_cache_file is Some {
                    opt_str_v(old(self).in_cache_file)
                } else {
                    sc.cache
                })
                &&& final(self).diags@ == old(self).diags@ + sc.diags + (match body {
                    Some(b) => inline_diags(sc, *old(self), b.span),
                    None => Seq::<Diag>::empty(),
                })
            }),
    {
        let mut is_action_fn: bool = false;
        let mut cache_type: Option<String> = None;
        match body {
            Some(b) => {
                let ghost sc = scan_fn_stmts(b.stmts@, self.config.enabled, true);
                let ghost diags0 = self.diags@;
                let mut span: Option<Span> = None;
                let mut directive: bool = true;
                let mut i: usize = 0;
                let enabled = self.config.enabled;
                proof {
                    assert(b.stmts@.skip(0) =~= b.stmts@);
                }
                while i < b.stmts.len()
                    invariant
                        i <= b.stmts.len(),
                        same_but_diags(*old(self), *self),
                        sc.is_action == (is_action_fn || scan_fn_stmts(
                            b.stmts@.skip(i as int),
                            enabled,
                            directive,
                        ).is_action),
                        sc.cache == (if scan_fn_stmts(
                            b.stmts@.skip(i as int),
                            enabled,
                            directive,
                        ).cache is Some {
                            scan_fn_stmts(b.stmts@.skip(i as int), enabled, directive).cache
                        } else {
                            opt_str_v(cache_type)
                        }),
                        sc.action_span == (if scan_fn_stmts(
                            b.stmts@.skip(i as int),
                            enabled,
                            directive,
                        ).action_span is Some {
                            scan_fn_stmts(b.stmts@.skip(i as int), enabled, directive).action_span
                        } else {
                            span
                        }),
                        diags0.len() <= self.diags@.len(),
                        self.diags@.subrange(0, diags0.len() as int) == diags0,
                        sc.diags == self.diags@.skip(diags0.len() as int) + scan_fn_stmts(
                            b.stmts@.skip(i as int),
                            enabled,
                            directive,
                        ).diags,
                    decreases b.stmts.len() - i,
                {
                    proof {
                        assert(b.stmts@.skip(i as int)[0] == b.stmts@[i as int]);
                        assert(b.stmts@.skip(i as int).drop_first() =~= b.stmts@.skip(i as int + 1));
                    }
                    let step = crate::directive::fn_stmt_step(
                        &b.stmts[i],
                        enabled,
                        directive,
                        &mut self.diags,
                    );
                    if step.1 {
                        is_action_fn = true;
                    }
                    match step.2 {
                        Some(k) => {
                            cache_type = Some(k);
                        },
                        None => {},
                    }
                    match step.3 {
                        Some(sp) => {
                            span = Some(sp);
                        },
                        None => {},
                    }
                    directive = step.4;
                    proof {
                        assert(self.diags@.subrange(0, diags0.len() as int) =~= diags0);
                        assert(sc.diags =~= self.diags@.skip(diags0.len() as int) + scan_fn_stmts(
                            b.stmts@.skip(i as int + 1),
                            enabled,
                            directive,
                        ).diags);
                    }
                    i = i + 1;
                }
                proof {
                    assert(b.stmts@.skip(b.stmts@.len() as int) =~= Seq::<Stmt>::empty());
                    assert(sc.diags =~= self.diags@.skip(diags0.len() as int));
                    assert(self.diags@ =~= diags0 + sc.diags);
                }
                if is_action_fn && !self.config.is_react_server_layer && !self.in_action_file {
                    let sp = match span {
                        Some(s) => s,
                        None => b.span,
                    };
                    self.diags.push(Diag { span: sp, kind: DiagKind::InlineUseServerInClient });
                }
                let is_cache = match &cache_type {
                    Some(_) => true,
                    None => false,
                };
                let in_cache_none = match &self.in_cache_file {
                    Some(_) => false,
                    None => true,
                };
                if is_cache && !self.config.is_react_server_layer && in_cache_none {
                    let sp = match span {
                        Some(s) => s,
                        None => b.span,
                    };
                    self.diags.push(Diag { span: sp, kind: DiagKind::InlineUseCacheInClient });
                }
                proof {
                    assert(self.diags@ =~= diags0 + sc.diags + inline_diags(
                        sc,
                        *old(self),
                        b.span,
                    ));
                }
            },
            None => {},
        }
        if self.in_export_decl {
            if self.in_action_file {
                is_action_fn = true;
            } else {
                match &self.in_cache_file {
                    Some(kind) => {
                        cache_type = Some(kind.clone());
                    },
                    None => {},
                }
            }
        }
        (is_action_fn, cache_type)
    }

    /// Removes the recognized directives of an already scanned and
    /// rewritten body, reporting nothing: the diagnostics were emitted
    /// when the body was classified.
    #[verifier::loop_isolation(false)]
    fn strip_directives(&self, stmts: Vec<Stmt>) -> (r: Vec<Stmt>)
        ensures
            r@ == scan_fn_stmts(stmts@, self.config.enabled, true).kept,
    {
        let enabled = self.config.enabled;
        let ghost inp = stmts@;
        let ghost total = scan_fn_stmts(inp, enabled, true);
        let mut scratch: Vec<Diag> = Vec::new();
        let mut out: Vec<Stmt> = Vec::new();
        let mut directive: bool = true;
        let mut rest = stmts;
        let ghost k: int = 0;
        proof {
            assert(inp.skip(0) =~= inp);
        }
        while rest.len() > 0
            invariant
                0 <= k <= inp.len(),
                rest@ =~= inp.skip(k),
                total.kept == out@ + scan_fn_stmts(inp.skip(k), enabled, directive).kept,
            decreases rest.len(),
        {
            let st0 = rest.remove(0);
            proof {
                assert(st0 == inp.skip(k)[0]);
                assert(inp.skip(k)[0] == inp[k]);
                assert(inp.skip(k).drop_first() =~= inp.skip(k + 1));
                assert(rest@ =~= inp.skip(k + 1));
            }
            let step = crate::directive::fn_stmt_step(&st0, enabled, directive, &mut scratch);
            if !step.0 {
                out.push(st0);
            }
            proof {
                assert(total.kept =~= out@ + scan_fn_stmts(
                    inp.skip(k + 1),
                    enabled,
                    step.4,
                ).kept);
            }
            directive = step.4;
            proof {
                k = k + 1;
            }
        }
        proof {
            assert(inp.skip(inp.len() as int) =~= Seq::<Stmt>::empty());
            assert(total.kept =~= out@);
        }
        out
    }

    /// Strips the directives of an optional body.
    fn strip_opt_body(&self, body: Option<BlockStmt>) -> (r: Option<BlockStmt>)
        ensures
            match body {
                Some(b) => r matches Some(b2) && b2.span == b.span && b2.stmts@ == scan_fn_stmts(
                    b.stmts@,
                    self.config.enabled,
                    true,
                ).kept,
                None => r is None,
            },
    {
        match body {
            Some(b) => {
                let BlockStmt { span, stmts } = b;
                Some(BlockStmt { span, stmts: self.strip_directives(stmts) })
            },
            None => None,
        }
    }
}

/// Identifiers a statement declares, per its variable declarations.
pub open spec fn stmt_decl_ids(s: Stmt) -> Seq<(Seq<char>, u32)> {
    match s {
        Stmt::Decl(d) => match d {
            Decl::Var(v) => crate::qualname::var_decls_ids(v.decls@),
            _ => Seq::empty(),
        },
        _ => Seq::empty(),
    }
}

/// Collects the identifiers a statement's variable declarations bind.
pub fn collect_decl_idents_in_stmt(s: &Stmt, idents: &mut Vec<Ident>)
    ensures
        crate::qualname::idents_v(final(idents)@) == crate::qualname::idents_v(old(idents)@)
            + stmt_decl_ids(*s),
        old(idents)@.len() <= final(idents)@.len(),
{
    let ghost pre = idents@;
    match s {
        Stmt::Decl(d) => match d {
            Decl::Var(v) => {
                crate::qualname::collect_idents_in_var_decls(&v.decls, idents);
            },
            _ => {},
        },
        _ => {},
    }
    proof {
        assert(crate::qualname::idents_v(idents@) =~= crate::qualname::idents_v(pre)
            + stmt_decl_ids(*s));
    }
}



impl ServerActions {
    /// Records the variable bindings of a statement as declared — but
    /// only inside a closure: module-level bindings never enter the
    /// declared identifiers and so can never become captures.
    fn note_closure_stmt_decls(&mut self, s: &Stmt)
        ensures
            *final(self) == (ServerActions {
                declared_idents: final(self).declared_idents,
                ..*old(self)
            }),
            crate::qualname::idents_v(final(self).declared_idents@) == crate::qualname::idents_v(
                old(self).declared_idents@,
            ) + (if old(self).in_module_level {
                Seq::<(Seq<char>, u32)>::empty()
            } else {
                stmt_decl_ids(*s)
            }),
            old(self).declared_idents@.len() <= final(self).declared_idents@.len(),
    {
        if !self.in_module_level {
            collect_decl_idents_in_stmt(s, &mut self.declared_idents);
        } else {
            proof {
                assert(crate::qualname::idents_v(self.declared_idents@)
                    =~= crate::qualname::idents_v(self.declared_idents@) + Seq::<
                    (Seq<char>, u32),
                >::empty());
            }
        }
    }

    /// Records the bindings of a visited parameter as declared — but
    /// only inside a closure, as for statements.
    fn note_closure_param_decls(&mut self, p: &Pat)
        ensures
            *final(self) == (ServerActions {
                declared_idents: final(self).declared_idents,
                ..*old(self)
            }),
            crate::qualname::idents_v(final(self).declared_idents@) == crate::qualname::idents_v(
                old(self).declared_idents@,
            ) + (if old(self).in_module_level {
                Seq::<(Seq<char>, u32)>::empty()
            } else {
                crate::qualname::pat_ids(*p)
            }),
            old(self).declared_idents@.len() <= final(self).declared_idents@.len(),
    {
        if !self.in_module_level {
            crate::qualname::collect_idents_in_pat(p, &mut self.declared_idents);
        } else {
            proof {
                assert(crate::qualname::idents_v(self.declared_idents@)
                    =~= crate::qualname::idents_v(self.declared_idents@) + Seq::<
                    (Seq<char>, u32),
                >::empty());
            }
        }
    }
}

/// The state discipline of one traversal step: settings and module
/// flags unchanged, scope flags restored, module-level queues
/// untouched, declared identifiers only extended.
pub open spec fn visit_frame(pre: ServerActions, post: ServerActions) -> bool {
    &&& post.config == pre.config
    &&& post.file_name == pre.file_name
    &&& post.private_ctxt == pre.private_ctxt
    &&& post.in_action_file == pre.in_action_file
    &&& post.in_cache_file == pre.in_cache_file
    &&& post.in_export_decl == pre.in_export_decl
    &&& post.in_default_export_decl == pre.in_default_export_decl
    &&& post.in_callee == pre.in_callee
    &&& post.in_module_level == pre.in_module_level
    &&& post.should_track_names == pre.should_track_names
    &&& post.exported_idents == pre.exported_idents
    &&& post.annotations == pre.annotations
    &&& pre.declared_idents@.len() <= post.declared_idents@.len()
    &&& diags_extended(pre.diags@, post.diags@)
    &&& (pre.has_action ==> post.has_action)
    &&& (pre.has_cache ==> post.has_cache)
}

/// The diagnostics only grow: the old ones stay, in place.
pub open spec fn diags_extended(pre: Seq<Diag>, post: Seq<Diag>) -> bool {
    post.len() >= pre.len() && forall|k: int| 0 <= k < pre.len() ==> post[k] == #[trigger] pre[k]
}

impl ServerActions {
    /// Appends clones of `src`'s names to `dst`.
    #[verifier::loop_isolation(false)]
    fn extend_names(dst: &mut Vec<QualName>, src: &Vec<QualName>)
        ensures
            names_v(final(dst)@) == names_v(old(dst)@) + names_v(src@),
    {
        let ghost pre = names_v(dst@);
        let mut i: usize = 0;
        while i < src.len()
            invariant
                i <= src.len(),
                names_v(dst@) =~= pre + names_v(src@).take(i as int),
            decreases src.len() - i,
        {
            let c = src[i].clone();
            let ghost gc = c;
            let ghost dpre = dst@;
            dst.push(c);
            proof {
                assert(qn_v(gc) == names_v(src@)[i as int]);
                assert(names_v(dst@) =~= names_v(dpre).push(qn_v(gc)));
                assert(names_v(src@).take(i as int + 1) =~= names_v(src@).take(i as int).push(
                    names_v(src@)[i as int],
                ));
                assert(names_v(dst@) =~= pre + names_v(src@).take(i as int + 1));
            }
            i = i + 1;
        }
        proof {
            assert(names_v(src@).take(src@.len() as int) =~= names_v(src@));
        }
    }

    /// Takes the name accumulator, leaving it empty.
    fn take_names(&mut self) -> (r: Vec<QualName>)
        ensures
            r == old(self).names,
            final(self).names@ == Seq::<QualName>::empty(),
            *final(self) == (ServerActions { names: final(self).names, ..*old(self) }),
    {
        let mut taken: Vec<QualName> = Vec::new();
        core::mem::swap(&mut taken, &mut self.names);
        proof {
            assert(self.names@ =~= Seq::<QualName>::empty());
        }
        taken
    }

    /// Transforms one expression: track a qualified-name use (the
    /// receiver only, in callee position), descend into children, and
    /// let classified functions and arrows hoist themselves.
    #[verifier::loop_isolation(false)]
    fn transform_expr(&mut self, e: Expr) -> (r: Expr)
        requires
            old(self).names_wf(),
        ensures
            visit_frame(*old(self), *final(self)),
            final(self).names_wf(),
        decreases e,
    {
        let mut noted: bool = false;
        if !self.in_module_level && self.should_track_names {
            let name_opt = try_expr_to_name(&e);
            match name_opt {
                Some(name) => {
                    let mut name = name;
                    if self.in_callee && name.parts.len() > 0 {
                        let ghost gparts = parts_v(name.parts@);
                        let _last = name.parts.pop();
                        proof {
                            assert(parts_v(name.parts@) =~= gparts.drop_last());
                        }
                    }
                    proof {
                        assert(wf_name(qn_v(name))) by {
                            assert(forall|i: int|
                                0 <= i < qn_v(name).parts.len()
                                    ==> #[trigger] qn_v(name).parts[i] == expr_as_name(
                                    e,
                                )->Some_0.parts[i]);
                        }
                    }
                    let ghost gname = name;
                    let ghost prenames = names_v(self.names@);
                    self.names.push(name);
                    proof {
                        assert(names_v(self.names@) =~= prenames.push(qn_v(gname)));
                        assert(self.names_wf());
                    }
                    self.should_track_names = false;
                    noted = true;
                },
                None => {},
            }
        }
        let r = match e {
            Expr::Id(i) => Expr::Id(i),
            Expr::Lit(l) => Expr::Lit(l),
            Expr::Null { span } => Expr::Null { span },
            Expr::Undefined { span } => Expr::Undefined { span },
            Expr::Array { span, elems } => Expr::Array {
                span,
                elems: self.transform_opt_args(elems),
            },
            Expr::Object { span, props } => Expr::Object {
                span,
                props: self.transform_props(props),
            },
            Expr::Fn(f) => self.transform_fn_expr(f),
            Expr::Arrow(a) => self.transform_arrow(a),
            Expr::Member(m) => {
                let MemberExpr { span, obj, prop } = m;
                Expr::Member(
                    MemberExpr { span, obj: Box::new(self.transform_expr(*obj)), prop },
                )
            },
            Expr::OptChain(oc) => {
                let crate::ast::OptChainExpr { span, optional, base } = oc;
                let new_base = match *base {
                    crate::ast::OptChainBase::Member(m) => {
                        let MemberExpr { span: mspan, obj, prop } = m;
                        crate::ast::OptChainBase::Member(
                            MemberExpr {
                                span: mspan,
                                obj: Box::new(self.transform_expr(*obj)),
                                prop,
                            },
                        )
                    },
                    crate::ast::OptChainBase::Call { span: cspan, callee, args } => {
                        crate::ast::OptChainBase::Call {
                            span: cspan,
                            callee: Box::new(self.transform_expr(*callee)),
                            args: self.transform_args(args),
                        }
                    },
                };
                Expr::OptChain(
                    crate::ast::OptChainExpr { span, optional, base: Box::new(new_base) },
                )
            },
            Expr::Call(c) => {
                let crate::ast::CallExpr { span, callee, args, pure } = c;
                let new_callee = match callee {
                    crate::ast::Callee::Expr(ce) => {
                        let old_in_callee = self.in_callee;
                        self.in_callee = true;
                        let ce2 = self.transform_expr(*ce);
                        self.in_callee = old_in_callee;
                        crate::ast::Callee::Expr(Box::new(ce2))
                    },
                    crate::ast::Callee::Other => crate::ast::Callee::Other,
                };
                Expr::Call(
                    crate::ast::CallExpr {
                        span,
                        pure,
                        callee: new_callee,
                        args: self.transform_args(args),
                    },
                )
            },
            Expr::Paren { span, expr } => Expr::Paren {
                span,
                expr: Box::new(self.transform_expr(*expr)),
            },
            Expr::Await { span, arg } => Expr::Await {
                span,
                arg: Box::new(self.transform_expr(*arg)),
            },
            Expr::Assign { span, left, right } => Expr::Assign {
                span,
                left,
                right: Box::new(self.transform_expr(*right)),
            },
            Expr::Other { span, children } => Expr::Other {
                span,
                children: self.transform_exprs(children),
            },
        };
        if noted {
            self.should_track_names = true;
        }
        r
    }

    #[verifier::loop_isolation(false)]
    fn transform_exprs(&mut self, v: Vec<Expr>) -> (r: Vec<Expr>)
        requires
            old(self).names_wf(),
        ensures
            visit_frame(*old(self), *final(self)),
            final(self).names_wf(),
        decreases v,
    {
        let ghost inp = v@;
        let mut rest = v;
        let mut out: Vec<Expr> = Vec::new();
        let ghost k: int = 0;
        while rest.len() > 0
            invariant
                0 <= k <= inp.len(),
                rest@ =~= inp.skip(k),
                visit_frame(*old(self), *self),
                self.names_wf(),
            decreases rest.len(),
        {
            let x = rest.remove(0);
            proof {
                assert(x == inp.skip(k)[0]);
                assert(inp.skip(k)[0] == inp[k]);
                assert(inp.skip(k).drop_first() =~= inp.skip(k + 1));
                assert(rest@ =~= inp.skip(k + 1));
            }
            let y = self.transform_expr(x);
            out.push(y);
            proof {
                k = k + 1;
            }
        }
        out
    }

    #[verifier::loop_isolation(false)]
    fn transform_args(&mut self, v: Vec<ExprOrSpread>) -> (r: Vec<ExprOrSpread>)
        requires
            old(self).names_wf(),
        ensures
            visit_frame(*old(self), *final(self)),
            final(self).names_wf(),
        decreases v,
    {
        let ghost inp = v@;
        let mut rest = v;
        let mut out: Vec<ExprOrSpread> = Vec::new();
        let ghost k: int = 0;
        while rest.len() > 0
            invariant
                0 <= k <= inp.len(),
                rest@ =~= inp.skip(k),
                visit_frame(*old(self), *self),
                self.names_wf(),
            decreases rest.len(),
        {
            let x = rest.remove(0);
            proof {
                assert(x == inp.skip(k)[0]);
                assert(inp.skip(k)[0] == inp[k]);
                assert(inp.skip(k).drop_first() =~= inp.skip(k + 1));
                assert(rest@ =~= inp.skip(k + 1));
            }
            let ExprOrSpread { spread, expr } = x;
            out.push(ExprOrSpread { spread, expr: self.transform_expr(expr) });
            proof {
                k = k + 1;
            }
        }
        out
    }

    #[verifier::loop_isolation(false)]
    fn transform_opt_args(&mut self, v: Vec<Option<ExprOrSpread>>) -> (r: Vec<Option<ExprOrSpread>>)
        requires
            old(self).names_wf(),
        ensures
            visit_frame(*old(self), *final(self)),
            final(self).names_wf(),
        decreases v,
    {
        let ghost inp = v@;
        let mut rest = v;
        let mut out: Vec<Option<ExprOrSpread>> = Vec::new();
        let ghost k: int = 0;
        while rest.len() > 0
            invariant
                0 <= k <= inp.len(),
                rest@ =~= inp.skip(k),
                visit_frame(*old(self), *self),
                self.names_wf(),
            decreases rest.len(),
        {
            let x = rest.remove(0);
            proof {
                assert(x == inp.skip(k)[0]);
                assert(inp.skip(k)[0] == inp[k]);
                assert(inp.skip(k).drop_first() =~= inp.skip(k + 1));
                assert(rest@ =~= inp.skip(k + 1));
            }
            match x {
                Some(a) => {
                    let ExprOrSpread { spread, expr } = a;
                    out.push(Some(ExprOrSpread { spread, expr: self.transform_expr(expr) }));
                },
                None => {
                    out.push(None);
                },
            }
            proof {
                k = k + 1;
            }
        }
        out
    }

    /// Transforms an object member; a shorthand property in a tracked
    /// scope records its name, and a method resets the export flags.
    #[verifier::loop_isolation(false)]
    fn transform_prop(&mut self, p: PropOrSpread) -> (r: PropOrSpread)
        requires
            old(self).names_wf(),
        ensures
            visit_frame(*old(self), *final(self)),
            final(self).names_wf(),
        decreases p,
    {
        match p {
            PropOrSpread::Prop(pr) => match pr {
                crate::ast::Prop::Shorthand(i) => {
                    if !self.in_module_level && self.should_track_names {
                        let name = crate::qualname::ident_to_name(&i);
                        let ghost gname = name;
                        let ghost prenames = names_v(self.names@);
                        self.names.push(name);
                        proof {
                            assert(names_v(self.names@) =~= prenames.push(qn_v(gname)));
                            assert(wf_name(qn_v(gname)));
                            assert(self.names_wf());
                        }
                    }
                    PropOrSpread::Prop(crate::ast::Prop::Shorthand(i))
                },
                crate::ast::Prop::KeyValue { key, value } => PropOrSpread::Prop(
                    crate::ast::Prop::KeyValue { key, value: self.transform_expr(value) },
                ),
                crate::ast::Prop::Method { key, function } => {
                    let old_in_export_decl = self.in_export_decl;
                    let old_in_default = self.in_default_export_decl;
                    self.in_export_decl = false;
                    self.in_default_export_decl = false;
                    let f2 = self.transform_function(function);
                    self.in_export_decl = old_in_export_decl;
                    self.in_default_export_decl = old_in_default;
                    PropOrSpread::Prop(crate::ast::Prop::Method { key, function: f2 })
                },
                crate::ast::Prop::Other => PropOrSpread::Prop(crate::ast::Prop::Other),
            },
            PropOrSpread::Spread(e) => PropOrSpread::Spread(self.transform_expr(e)),
        }
    }

    #[verifier::loop_isolation(false)]
    fn transform_props(&mut self, v: Vec<PropOrSpread>) -> (r: Vec<PropOrSpread>)
        requires
            old(self).names_wf(),
        ensures
            visit_frame(*old(self), *final(self)),
            final(self).names_wf(),
        decreases v,
    {
        let ghost inp = v@;
        let mut rest = v;
        let mut out: Vec<PropOrSpread> = Vec::new();
        let ghost k: int = 0;
        while rest.len() > 0
            invariant
                0 <= k <= inp.len(),
                rest@ =~= inp.skip(k),
                visit_frame(*old(self), *self),
                self.names_wf(),
            decreases rest.len(),
        {
            let x = rest.remove(0);
            proof {
                assert(x == inp.skip(k)[0]);
                assert(inp.skip(k)[0] == inp[k]);
                assert(inp.skip(k).drop_first() =~= inp.skip(k + 1));
                assert(rest@ =~= inp.skip(k + 1));
            }
            let y = self.transform_prop(x);
            out.push(y);
            proof {
                k = k + 1;
            }
        }
        out
    }

    #[verifier::loop_isolation(false)]
    fn transform_pat(&mut self, p: Pat) -> (r: Pat)
        requires
            old(self).names_wf(),
        ensures
            visit_frame(*old(self), *final(self)),
            final(self).names_wf(),
        decreases p,
    {
        match p {
            Pat::Id(i) => Pat::Id(i),
            Pat::Invalid => Pat::Invalid,
            Pat::Array { elems } => Pat::Array { elems: self.transform_opt_pats(elems) },
            Pat::Object { props } => Pat::Object { props: self.transform_obj_pat_props(props) },
            Pat::Assign { left, right } => Pat::Assign {
                left: Box::new(self.transform_pat(*left)),
                right: Box::new(self.transform_expr(*right)),
            },
            Pat::Rest { arg } => Pat::Rest { arg: Box::new(self.transform_pat(*arg)) },
            Pat::Expr(e) => Pat::Expr(Box::new(self.transform_expr(*e))),
        }
    }

    #[verifier::loop_isolation(false)]
    fn transform_pats(&mut self, v: Vec<Pat>) -> (r: Vec<Pat>)
        requires
            old(self).names_wf(),
        ensures
            visit_frame(*old(self), *final(self)),
            final(self).names_wf(),
        decreases v,
    {
        let ghost inp = v@;
        let mut rest = v;
        let mut out: Vec<Pat> = Vec::new();
        let ghost k: int = 0;
        while rest.len() > 0
            invariant
                0 <= k <= inp.len(),
                rest@ =~= inp.skip(k),
                visit_frame(*old(self), *self),
                self.names_wf(),
            decreases rest.len(),
        {
            let x = rest.remove(0);
            proof {
                assert(x == inp.skip(k)[0]);
                assert(inp.skip(k)[0] == inp[k]);
                assert(inp.skip(k).drop_first() =~= inp.skip(k + 1));
                assert(rest@ =~= inp.skip(k + 1));
            }
            let y = self.transform_pat(x);
            out.push(y);
            proof {
                k = k + 1;
            }
        }
        out
    }

    #[verifier::loop_isolation(false)]
    fn transform_opt_pats(&mut self, v: Vec<Option<Pat>>) -> (r: Vec<Option<Pat>>)
        requires
            old(self).names_wf(),
        ensures
            visit_frame(*old(self), *final(self)),
            final(self).names_wf(),
        decreases v,
    {
        let ghost inp = v@;
        let mut rest = v;
        let mut out: Vec<Option<Pat>> = Vec::new();
        let ghost k: int = 0;
        while rest.len() > 0
            invariant
                0 <= k <= inp.len(),
                rest@ =~= inp.skip(k),
                visit_frame(*old(self), *self),
                self.names_wf(),
            decreases rest.len(),
        {
            let x = rest.remove(0);
            proof {
                assert(x == inp.skip(k)[0]);
                assert(inp.skip(k)[0] == inp[k]);
                assert(inp.skip(k).drop_first() =~= inp.skip(k + 1));
                assert(rest@ =~= inp.skip(k + 1));
            }
            match x {
                Some(pp) => {
                    out.push(Some(self.transform_pat(pp)));
                },
                None => {
                    out.push(None);
                },
            }
            proof {
                k = k + 1;
            }
        }
        out
    }

    #[verifier::loop_isolation(false)]
    fn transform_obj_pat_props(&mut self, v: Vec<crate::ast::ObjectPatProp>) -> (r: Vec<
        crate::ast::ObjectPatProp,
    >)
        requires
            old(self).names_wf(),
        ensures
            visit_frame(*old(self), *final(self)),
            final(self).names_wf(),
        decreases v,
    {
        let ghost inp = v@;
        let mut rest = v;
        let mut out: Vec<crate::ast::ObjectPatProp> = Vec::new();
        let ghost k: int = 0;
        while rest.len() > 0
            invariant
                0 <= k <= inp.len(),
                rest@ =~= inp.skip(k),
                visit_frame(*old(self), *self),
                self.names_wf(),
            decreases rest.len(),
        {
            let x = rest.remove(0);
            proof {
                assert(x == inp.skip(k)[0]);
                assert(inp.skip(k)[0] == inp[k]);
                assert(inp.skip(k).drop_first() =~= inp.skip(k + 1));
                assert(rest@ =~= inp.skip(k + 1));
            }
            let y = match x {
                crate::ast::ObjectPatProp::KeyValue { key, value } => {
                    crate::ast::ObjectPatProp::KeyValue {
                        key,
                        value: Box::new(self.transform_pat(*value)),
                    }
                },
                crate::ast::ObjectPatProp::Assign { key, value } => {
                    crate::ast::ObjectPatProp::Assign {
                        key,
                        value: match value {
                            Some(e) => Some(Box::new(self.transform_expr(*e))),
                            None => None,
                        },
                    }
                },
                crate::ast::ObjectPatProp::Rest { arg } => crate::ast::ObjectPatProp::Rest {
                    arg: Box::new(self.transform_pat(*arg)),
                },
            };
            out.push(y);
            proof {
                k = k + 1;
            }
        }
        out
    }

    /// Transforms a function generically (methods and class members):
    /// parameters are visited and, inside a closure, their bindings
    /// recorded; the body is traversed without directive handling.
    #[verifier::loop_isolation(false)]
    fn transform_function(&mut self, f: Function) -> (r: Function)
        requires
            old(self).names_wf(),
        ensures
            visit_frame(*old(self), *final(self)),
            final(self).names_wf(),
        decreases f,
    {
        let Function { span, params, body, is_async } = f;
        let new_params = self.transform_params_collect(params);
        let new_body = match body {
            Some(b) => Some(self.transform_block(b)),
            None => None,
        };
        Function { span, params: new_params, body: new_body, is_async }
    }

    /// Transforms function parameters; inside a closure each visited
    /// parameter's bindings join the declared identifiers.
    #[verifier::loop_isolation(false)]
    fn transform_params_collect(&mut self, v: Vec<Pat>) -> (r: Vec<Pat>)
        requires
            old(self).names_wf(),
        ensures
            visit_frame(*old(self), *final(self)),
            final(self).names_wf(),
        decreases v,
    {
        let ghost inp = v@;
        let mut rest = v;
        let mut out: Vec<Pat> = Vec::new();
        let ghost k: int = 0;
        while rest.len() > 0
            invariant
                0 <= k <= inp.len(),
                rest@ =~= inp.skip(k),
                visit_frame(*old(self), *self),
                self.names_wf(),
            decreases rest.len(),
        {
            let x = rest.remove(0);
            proof {
                assert(x == inp.skip(k)[0]);
                assert(inp.skip(k)[0] == inp[k]);
                assert(inp.skip(k).drop_first() =~= inp.skip(k + 1));
                assert(rest@ =~= inp.skip(k + 1));
            }
            let y = self.transform_pat(x);
            self.note_closure_param_decls(&y);
            out.push(y);
            proof {
                k = k + 1;
            }
        }
        out
    }

    #[verifier::loop_isolation(false)]
    fn transform_block(&mut self, b: BlockStmt) -> (r: BlockStmt)
        requires
            old(self).names_wf(),
        ensures
            visit_frame(*old(self), *final(self)),
            final(self).names_wf(),
        decreases b,
    {
        let BlockStmt { span, stmts } = b;
        BlockStmt { span, stmts: self.transform_stmts(stmts) }
    }

    /// Transforms a run of statements, flushing any pending annotation
    /// statements after each one.
    #[verifier::loop_isolation(false)]
    fn transform_stmts(&mut self, stmts: Vec<Stmt>) -> (r: Vec<Stmt>)
        requires
            old(self).names_wf(),
        ensures
            visit_frame(*old(self), *final(self)),
            final(self).names_wf(),
        decreases stmts,
    {
        let ghost pre_annotations = self.annotations;
        let mut old_annotations: Vec<Stmt> = Vec::new();
        core::mem::swap(&mut old_annotations, &mut self.annotations);
        let ghost inp = stmts@;
        let mut rest = stmts;
        let mut out: Vec<Stmt> = Vec::new();
        let ghost k: int = 0;
        while rest.len() > 0
            invariant
                0 <= k <= inp.len(),
                rest@ =~= inp.skip(k),
                old_annotations == pre_annotations,
                self.config == old(self).config,
                self.file_name == old(self).file_name,
                self.private_ctxt == old(self).private_ctxt,
                self.in_action_file == old(self).in_action_file,
                self.in_cache_file == old(self).in_cache_file,
                self.in_export_decl == old(self).in_export_decl,
                self.in_default_export_decl == old(self).in_default_export_decl,
                self.in_callee == old(self).in_callee,
                self.in_module_level == old(self).in_module_level,
                self.should_track_names == old(self).should_track_names,
                self.exported_idents == old(self).exported_idents,
                old(self).declared_idents@.len() <= self.declared_idents@.len(),
                diags_extended(old(self).diags@, self.diags@),
                (old(self).has_action ==> self.has_action),
                (old(self).has_cache ==> self.has_cache),
                self.names_wf(),
            decreases rest.len(),
        {
            let x = rest.remove(0);
            proof {
                assert(x == inp.skip(k)[0]);
                assert(inp.skip(k)[0] == inp[k]);
                assert(inp.skip(k).drop_first() =~= inp.skip(k + 1));
                assert(rest@ =~= inp.skip(k + 1));
            }
            let y = self.transform_stmt(x);
            out.push(y);
            let mut drained: Vec<Stmt> = Vec::new();
            core::mem::swap(&mut drained, &mut self.annotations);
            out.append(&mut drained);
            proof {
                k = k + 1;
            }
        }
        core::mem::swap(&mut old_annotations, &mut self.annotations);
        out
    }

    /// Transforms one statement; inside a closure its variable
    /// declarations join the declared identifiers afterwards.
    #[verifier::loop_isolation(false)]
    fn transform_stmt(&mut self, s: Stmt) -> (r: Stmt)
        requires
            old(self).names_wf(),
        ensures
            visit_frame(*old(self), *final(self)),
            final(self).names_wf(),
        decreases s,
    {
        let r = match s {
            Stmt::Expr { span, expr } => Stmt::Expr { span, expr: self.transform_expr(expr) },
            Stmt::Decl(d) => Stmt::Decl(self.transform_decl(d)),
            Stmt::Return { span, arg } => Stmt::Return {
                span,
                arg: match arg {
                    Some(e) => Some(self.transform_expr(e)),
                    None => None,
                },
            },
            Stmt::Block(b) => Stmt::Block(self.transform_block(b)),
            Stmt::Other { span, exprs, stmts } => Stmt::Other {
                span,
                exprs: self.transform_exprs(exprs),
                stmts: self.transform_stmts(stmts),
            },
        };
        self.note_closure_stmt_decls(&r);
        r
    }

    /// Transforms one declaration; a classified function declaration
    /// comes back as the proxy variable declaration that replaces it.
    #[verifier::loop_isolation(false)]
    fn transform_decl(&mut self, d: Decl) -> (r: Decl)
        requires
            old(self).names_wf(),
        ensures
            visit_frame(*old(self), *final(self)),
            final(self).names_wf(),
        decreases d,
    {
        match d {
            Decl::Fn(f) => self.transform_fn_decl(f),
            Decl::Var(v) => {
                let VarDecl { span, kind, decls } = v;
                let ghost inp = decls@;
                let mut rest = decls;
                let mut out: Vec<VarDeclarator> = Vec::new();
                let ghost k: int = 0;
                while rest.len() > 0
                    invariant
                        0 <= k <= inp.len(),
                        rest@ =~= inp.skip(k),
                        visit_frame(*old(self), *self),
                        self.names_wf(),
                    decreases rest.len(),
                {
                    let x = rest.remove(0);
                    proof {
                        assert(x == inp.skip(k)[0]);
                        assert(inp.skip(k)[0] == inp[k]);
                        assert(inp.skip(k).drop_first() =~= inp.skip(k + 1));
                        assert(rest@ =~= inp.skip(k + 1));
                    }
                    let VarDeclarator { span: dspan, name, init } = x;
                    out.push(
                        VarDeclarator {
                            span: dspan,
                            name: self.transform_pat(name),
                            init: match init {
                                Some(e) => Some(self.transform_expr(e)),
                                None => None,
                            },
                        },
                    );
                    proof {
                        k = k + 1;
                    }
                }
                Decl::Var(VarDecl { span, kind, decls: out })
            },
            Decl::Class(c) => {
                let crate::ast::ClassDecl { span, ident, members } = c;
                let ghost inp = members@;
                let mut rest = members;
                let mut out: Vec<crate::ast::ClassMember> = Vec::new();
                let ghost k: int = 0;
                while rest.len() > 0
                    invariant
                        0 <= k <= inp.len(),
                        rest@ =~= inp.skip(k),
                        visit_frame(*old(self), *self),
                        self.names_wf(),
                    decreases rest.len(),
                {
                    let x = rest.remove(0);
                    proof {
                        assert(x == inp.skip(k)[0]);
                        assert(inp.skip(k)[0] == inp[k]);
                        assert(inp.skip(k).drop_first() =~= inp.skip(k + 1));
                        assert(rest@ =~= inp.skip(k + 1));
                    }
                    let y = match x {
                        crate::ast::ClassMember::Method { key, function } => {
                            let old_in_export_decl = self.in_export_decl;
                            let old_in_default = self.in_default_export_decl;
                            self.in_export_decl = false;
                            self.in_default_export_decl = false;
                            let f2 = self.transform_function(function);
                            self.in_export_decl = old_in_export_decl;
                            self.in_default_export_decl = old_in_default;
                            crate::ast::ClassMember::Method { key, function: f2 }
                        },
                        crate::ast::ClassMember::Other => crate::ast::ClassMember::Other,
                    };
                    out.push(y);
                    proof {
                        k = k + 1;
                    }
                }
                Decl::Class(crate::ast::ClassDecl { span, ident, members: out })
            },
            Decl::Other { span } => Decl::Other { span },
        }
    }
}


/// Every name of the sequence is one canonicalisation can produce.
pub open spec fn all_names_wf(s: Seq<QualName>) -> bool {
    forall|k: int| 0 <= k < s.len() ==> wf_name(#[trigger] names_v(s)[k])
}

/// Well-formedness passes to any list whose names all occur in a
/// well-formed list.
pub proof fn lemma_all_wf_from_contains(sub: Seq<QualNameV>, sup: Seq<QualNameV>)
    requires
        forall|k: int| 0 <= k < sub.len() ==> sup.contains(#[trigger] sub[k]),
        forall|k: int| 0 <= k < sup.len() ==> wf_name(#[trigger] sup[k]),
    ensures
        forall|k: int| 0 <= k < sub.len() ==> wf_name(#[trigger] sub[k]),
{
    assert forall|k: int| 0 <= k < sub.len() implies wf_name(#[trigger] sub[k]) by {
        let w = choose|w: int| 0 <= w < sup.len() && sup[w] == sub[k];
    }
}

impl ServerActions {
    /// Closes a child scope over the name accumulator: under tracking,
    /// the child's names are handed back and also merged into the
    /// parent's; otherwise the accumulator is drained.
    fn merge_child_names(&mut self, current_names: Vec<QualName>) -> (r: Vec<QualName>)
        requires
            old(self).names_wf(),
            all_names_wf(current_names@),
        ensures
            *final(self) == (ServerActions { names: final(self).names, ..*old(self) }),
            final(self).names_wf(),
            all_names_wf(r@),
    {
        if self.should_track_names {
            let names = self.take_names();
            let ghost child_v = names_v(names@);
            let mut cur = current_names;
            core::mem::swap(&mut self.names, &mut cur);
            proof {
                assert(names_v(self.names@) == names_v(current_names@));
            }
            Self::extend_names(&mut self.names, &names);
            proof {
                assert(names_v(self.names@) == names_v(current_names@) + child_v);
                assert(child_v == names_v(old(self).names@));
                assert forall|k: int|
                    0 <= k < self.names@.len() implies wf_name(
                    #[trigger] names_v(self.names@)[k],
                ) by {
                    if k < names_v(current_names@).len() {
                        assert(names_v(self.names@)[k] == names_v(current_names@)[k]);
                        assert(wf_name(names_v(current_names@)[k]));
                    } else {
                        assert(names_v(self.names@)[k] == names_v(old(self).names@)[k
                            - names_v(current_names@).len()]);
                        assert(wf_name(names_v(old(self).names@)[k - names_v(
                            current_names@,
                        ).len()]));
                    }
                }
            }
            names
        } else {
            let names = self.take_names();
            names
        }
    }

    /// Transforms a function expression: classify it, traverse its
    /// children with capture tracking, and replace it by a registered
    /// proxy when it is an inline action or cache function.
    #[verifier::loop_isolation(false)]
    fn transform_fn_expr(&mut self, f: FnExpr) -> (r: Expr)
        requires
            old(self).names_wf(),
        ensures
            visit_frame(*old(self), *final(self)),
            final(self).names_wf(),
            ({
                let pre = *old(self);
                let post = *final(self);
                let sc = opt_block_scan(f.function.body, pre.config.enabled);
                let module_cache = pre.in_export_decl && !pre.in_action_file && (pre.in_cache_file
                    is Some);
                let as_cache = module_cache || (sc.cache is Some);
                let as_action = sc.is_action || (pre.in_export_decl && pre.in_action_file);
                let eff = effective_cache_kind(sc, pre);
                let cache_exempt = (pre.in_cache_file is Some) && pre.in_export_decl;
                let action_exempt = pre.in_action_file && pre.in_export_decl;
                &&& (((as_action || as_cache) && !f.function.is_async) ==> post.diags@.contains(
                    (Diag { span: f.function.span, kind: DiagKind::ActionNotAsync }),
                ))
                &&& (eff matches Some(kindv) ==> (!cache_exempt ==> cache_hoist_result(
                    r,
                    post.hoisted_extra_items@,
                    kindv,
                    post,
                )))
                &&& (((eff is Some) && cache_exempt) ==> (r matches Expr::Fn(fe) && fe.ident
                    == f.ident))
                &&& (((eff is None) && as_action && !action_exempt) ==> action_hoist_result(
                    r,
                    post.extra_items@,
                    f.function.span,
                    post,
                ))
                &&& (((eff is None) && !(as_action && !action_exempt)) ==> (r matches Expr::Fn(fe)
                    && fe.ident == f.ident))
            }),
        decreases f,
    {
        let FnExpr { ident, function } = f;
        let Function { span: fspan, params, body, is_async } = function;
        let body_ref: Option<&BlockStmt> = match &body {
            Some(b) => Some(b),
            None => None,
        };
        let info = self.get_body_info(body_ref);
        proof {
            assert(diags_extended(old(self).diags@, self.diags@)) by {
                assert forall|k: int|
                    0 <= k < old(self).diags@.len() implies self.diags@[k] == old(
                    self,
                ).diags@[k] by {}
            }
        }
        let is_action_fn = info.0;
        let cache_type = info.1;
        let declared_until = self.declared_idents.len();
        let current_names = self.take_names();
        let old_in_module = self.in_module_level;
        let old_track = self.should_track_names;
        let old_export = self.in_export_decl;
        let old_default = self.in_default_export_decl;
        self.in_module_level = false;
        self.should_track_names = is_action_fn || old_track;
        self.in_export_decl = false;
        self.in_default_export_decl = false;
        let new_params = self.transform_params_collect(params);
        let new_body = match body {
            Some(b) => Some(self.transform_block(b)),
            None => None,
        };
        self.in_module_level = old_in_module;
        self.should_track_names = old_track;
        self.in_export_decl = old_export;
        self.in_default_export_decl = old_default;
        let mut child_names = self.merge_child_names(current_names);
        proof {
            assert(diags_extended(old(self).diags@, self.diags@));
        }
        let is_cache = match &cache_type {
            Some(_) => true,
            None => false,
        };
        if (is_action_fn || is_cache) && !is_async {
            self.diags.push(Diag { span: fspan, kind: DiagKind::ActionNotAsync });
            proof {
                assert(self.diags@.last() == Diag { span: fspan, kind: DiagKind::ActionNotAsync });
            }
        }
        let in_cache_file_now = match &self.in_cache_file {
            Some(_) => true,
            None => false,
        };
        match cache_type {
            Some(kind) => {
                if !(in_cache_file_now && self.in_export_decl) {
                    let named_ident: Option<Ident> = match ident {
                        Some(i) => Some(i),
                        None => Some(
                            Ident {
                                sym: gen_cache_ident(&mut self.reference_index),
                                span: DUMMY_SP,
                                ctxt: self.private_ctxt,
                            },
                        ),
                    };
                    let ghost pre_child = names_v(child_names@);
                    crate::qualname::retain_names_from_declared_idents(
                        &mut child_names,
                        &self.declared_idents,
                        declared_until,
                    );
                    proof {
                        lemma_all_wf_from_contains(names_v(child_names@), pre_child);
                    }
                    let stripped = self.strip_opt_body(new_body);
                    let fx = Function { span: fspan, params: new_params, body: stripped, is_async };
                    let ghost gcaps = names_v(child_names@);
                    let ghost mid = *self;
                    let proxy = self.maybe_hoist_and_create_proxy_for_cache_function(
                        child_names,
                        named_ident,
                        &kind,
                        fx,
                    );
                    proof {
                        assert(is_hoisted_cache_def(
                            self.hoisted_extra_items@.last(),
                            cache_ident_chars(mid.reference_index as nat),
                            kind@,
                            action_id_chars(
                                self.config.hash_salt@,
                                self.file_name@,
                                cache_ident_chars(mid.reference_index as nat),
                            ),
                            gcaps.len(),
                            self.private_ctxt,
                        ));
                        assert(is_capture_proxy(
                            proxy,
                            cache_ident_chars(mid.reference_index as nat),
                            DUMMY_SP,
                            action_id_chars(
                                self.config.hash_salt@,
                                self.file_name@,
                                cache_ident_chars(mid.reference_index as nat),
                            ),
                            gcaps,
                            self.private_ctxt,
                        ));
                        assert(cache_hoist_result(proxy, self.hoisted_extra_items@, kind@, *self));
                    }
                    return proxy;
                } else {
                    let stripped = self.strip_opt_body(new_body);
                    return Expr::Fn(
                        FnExpr {
                            ident,
                            function: Function {
                                span: fspan,
                                params: new_params,
                                body: stripped,
                                is_async,
                            },
                        },
                    );
                }
            },
            None => {},
        }
        if is_action_fn && !(self.in_action_file && self.in_export_decl) {
            let _synthesised: Option<Ident> = match &ident {
                Some(_) => None,
                None => Some(
                    Ident {
                        sym: gen_action_ident(&mut self.reference_index),
                        span: DUMMY_SP,
                        ctxt: self.private_ctxt,
                    },
                ),
            };
            let ghost pre_child = names_v(child_names@);
            crate::qualname::retain_names_from_declared_idents(
                &mut child_names,
                &self.declared_idents,
                declared_until,
            );
            proof {
                lemma_all_wf_from_contains(names_v(child_names@), pre_child);
            }
            let stripped = self.strip_opt_body(new_body);
            let fx = Function { span: fspan, params: new_params, body: stripped, is_async };
            let ghost gcaps = names_v(child_names@);
            let ghost mid = *self;
            let proxy = self.maybe_hoist_and_create_proxy_for_server_action_function(
                child_names,
                fx,
            );
            proof {
                assert(is_hoisted_action_def(
                    self.extra_items@.last(),
                    action_ident_chars(mid.reference_index as nat),
                    action_id_chars(
                        self.config.hash_salt@,
                        self.file_name@,
                        action_ident_chars(mid.reference_index as nat),
                    ),
                    gcaps.len(),
                    self.private_ctxt,
                ));
                assert(is_capture_proxy(
                    proxy,
                    action_ident_chars(mid.reference_index as nat),
                    fspan,
                    action_id_chars(
                        self.config.hash_salt@,
                        self.file_name@,
                        action_ident_chars(mid.reference_index as nat),
                    ),
                    gcaps,
                    self.private_ctxt,
                ));
                assert(action_hoist_result(proxy, self.extra_items@, fspan, *self));
            }
            return proxy;
        }
        let stripped = self.strip_opt_body(new_body);
        Expr::Fn(
            FnExpr {
                ident,
                function: Function { span: fspan, params: new_params, body: stripped, is_async },
            },
        )
    }

    /// Transforms a function declaration: classify it, traverse its
    /// children with capture tracking, and replace it by a proxy
    /// variable declaration when it is an action or cache function.
    #[verifier::loop_isolation(false)]
    fn transform_fn_decl(&mut self, f: FnDecl) -> (r: Decl)
        requires
            old(self).names_wf(),
        ensures
            visit_frame(*old(self), *final(self)),
            final(self).names_wf(),
            ({
                let pre = *old(self);
                let post = *final(self);
                let sc = opt_block_scan(f.function.body, pre.config.enabled);
                let module_cache = pre.in_export_decl && !pre.in_action_file && (pre.in_cache_file
                    is Some);
                let as_cache = module_cache || (sc.cache is Some);
                let as_action = sc.is_action || (pre.in_export_decl && pre.in_action_file);
                let eff = effective_cache_kind(sc, pre);
                let action_exempt = pre.in_action_file && pre.in_export_decl;
                &&& ((as_cache && !f.function.is_async) ==> post.diags@.contains(
                    (Diag { span: f.ident.span, kind: DiagKind::CacheNotAsync }),
                ))
                &&& ((!as_cache && as_action && !f.function.is_async) ==> post.diags@.contains(
                    (Diag { span: f.ident.span, kind: DiagKind::ActionNotAsync }),
                ))
                &&& (eff matches Some(kindv) ==> (proxy_decl_init(r, f.ident) matches Some(p)
                    && cache_hoist_result(p, post.hoisted_extra_items@, kindv, post)))
                &&& (((eff is None) && as_action && !action_exempt) ==> (proxy_decl_init(r, f.ident)
                    matches Some(p) && action_hoist_result(
                    p,
                    post.extra_items@,
                    f.function.span,
                    post,
                )))
                &&& (((eff is None) && !(as_action && !action_exempt)) ==> (r matches Decl::Fn(fd)
                    && fd.ident == f.ident))
            }),
        decreases f,
    {
        let FnDecl { ident, function } = f;
        let Function { span: fspan, params, body, is_async } = function;
        let body_ref: Option<&BlockStmt> = match &body {
            Some(b) => Some(b),
            None => None,
        };
        let info = self.get_body_info(body_ref);
        proof {
            assert(diags_extended(old(self).diags@, self.diags@)) by {
                assert forall|k: int|
                    0 <= k < old(self).diags@.len() implies self.diags@[k] == old(
                    self,
                ).diags@[k] by {}
            }
        }
        let is_action_fn = info.0;
        let cache_type = info.1;
        let declared_until = self.declared_idents.len();
        let current_names = self.take_names();
        let old_in_module = self.in_module_level;
        let old_track = self.should_track_names;
        let old_export = self.in_export_decl;
        let old_default = self.in_default_export_decl;
        self.in_module_level = false;
        self.should_track_names = is_action_fn || old_track;
        self.in_export_decl = false;
        self.in_default_export_decl = false;
        let new_params = self.transform_params_collect(params);
        let new_body = match body {
            Some(b) => Some(self.transform_block(b)),
            None => None,
        };
        self.in_module_level = old_in_module;
        self.should_track_names = old_track;
        self.in_export_decl = old_export;
        self.in_default_export_decl = old_default;
        let mut child_names = self.merge_child_names(current_names);
        proof {
            assert(diags_extended(old(self).diags@, self.diags@));
        }
        match cache_type {
            Some(kind) => {
                if !is_async {
                    self.diags.push(Diag { span: ident.span, kind: DiagKind::CacheNotAsync });
                    proof {
                        assert(self.diags@.last() == Diag {
                            span: ident.span,
                            kind: DiagKind::CacheNotAsync,
                        });
                    }
                }
                let stripped = self.strip_opt_body(new_body);
                let fx = Function { span: fspan, params: new_params, body: stripped, is_async };
                let no_captures: Vec<QualName> = Vec::new();
                proof {
                    assert(names_v(no_captures@) =~= Seq::<QualNameV>::empty());
                }
                let fn_name = Some(ident.clone());
                let ghost mid = *self;
                let proxy = self.maybe_hoist_and_create_proxy_for_cache_function(
                    no_captures,
                    fn_name,
                    &kind,
                    fx,
                );
                let ghost gproxy = proxy;
                proof {
                    assert(is_hoisted_cache_def(
                        self.hoisted_extra_items@.last(),
                        cache_ident_chars(mid.reference_index as nat),
                        kind@,
                        action_id_chars(
                            self.config.hash_salt@,
                            self.file_name@,
                            cache_ident_chars(mid.reference_index as nat),
                        ),
                        0,
                        self.private_ctxt,
                    ));
                    assert(cache_hoist_result(
                        gproxy,
                        self.hoisted_extra_items@,
                        kind@,
                        *self,
                    ));
                }
                let mut decls: Vec<VarDeclarator> = Vec::new();
                let ghost gident = ident;
                decls.push(
                    VarDeclarator { span: DUMMY_SP, name: Pat::Id(ident), init: Some(proxy) },
                );
                let out = Decl::Var(VarDecl { span: DUMMY_SP, kind: VarDeclKind::Var, decls });
                proof {
                    assert(proxy_decl_init(out, gident) == Some(gproxy));
                }
                return out;
            },
            None => {},
        }
        if is_action_fn {
            if !is_async {
                self.diags.push(Diag { span: ident.span, kind: DiagKind::ActionNotAsync });
                proof {
                    assert(self.diags@.last() == Diag {
                        span: ident.span,
                        kind: DiagKind::ActionNotAsync,
                    });
                }
            }
            if !(self.in_action_file && self.in_export_decl) {
                let ghost pre_child = names_v(child_names@);
                crate::qualname::retain_names_from_declared_idents(
                    &mut child_names,
                    &self.declared_idents,
                    declared_until,
                );
                proof {
                    lemma_all_wf_from_contains(names_v(child_names@), pre_child);
                }
                let stripped = self.strip_opt_body(new_body);
                let fx = Function { span: fspan, params: new_params, body: stripped, is_async };
                let ghost gcaps = names_v(child_names@);
                let ghost mid = *self;
                let proxy = self.maybe_hoist_and_create_proxy_for_server_action_function(
                    child_names,
                    fx,
                );
                let ghost gproxy = proxy;
                proof {
                    assert(is_hoisted_action_def(
                        self.extra_items@.last(),
                        action_ident_chars(mid.reference_index as nat),
                        action_id_chars(
                            self.config.hash_salt@,
                            self.file_name@,
                            action_ident_chars(mid.reference_index as nat),
                        ),
                        gcaps.len(),
                        self.private_ctxt,
                    ));
                    assert(is_capture_proxy(
                        gproxy,
                        action_ident_chars(mid.reference_index as nat),
                        fspan,
                        action_id_chars(
                            self.config.hash_salt@,
                            self.file_name@,
                            action_ident_chars(mid.reference_index as nat),
                        ),
                        gcaps,
                        self.private_ctxt,
                    ));
                    assert(action_hoist_result(gproxy, self.extra_items@, fspan, *self));
                }
                let mut decls: Vec<VarDeclarator> = Vec::new();
                let ghost gident = ident;
                decls.push(
                    VarDeclarator { span: DUMMY_SP, name: Pat::Id(ident), init: Some(proxy) },
                );
                let out = Decl::Var(VarDecl { span: DUMMY_SP, kind: VarDeclKind::Var, decls });
                proof {
                    assert(proxy_decl_init(out, gident) == Some(gproxy));
                }
                return out;
            }
        }
        let stripped = self.strip_opt_body(new_body);
        Decl::Fn(
            FnDecl {
                ident,
                function: Function { span: fspan, params: new_params, body: stripped, is_async },
            },
        )
    }

    /// Transforms an arrow: classify it, traverse its children with
    /// capture tracking, and replace it by a registered proxy when it
    /// is an inline action or cache function.
    #[verifier::loop_isolation(false)]
    #[verifier::rlimit(100)]
    #[verifier::spinoff_prover]
    fn transform_arrow(&mut self, a: ArrowExpr) -> (r: Expr)
        requires
            old(self).names_wf(),
        ensures
            visit_frame(*old(self), *final(self)),
            final(self).names_wf(),
            ({
                let pre = *old(self);
                let post = *final(self);
                let sc = opt_block_scan(
                    (match *a.body {
                        BlockStmtOrExpr::Block(b) => Some(b),
                        BlockStmtOrExpr::Expr(_) => None,
                    }),
                    pre.config.enabled,
                );
                let module_cache = pre.in_export_decl && !pre.in_action_file && (pre.in_cache_file
                    is Some);
                let as_cache = module_cache || (sc.cache is Some);
                let as_action = sc.is_action || (pre.in_export_decl && pre.in_action_file);
                let eff = effective_cache_kind(sc, pre);
                &&& (((as_action || as_cache) && !a.is_async) ==> post.diags@.contains(
                    (Diag { span: a.span, kind: DiagKind::ArrowNotAsync }),
                ))
                &&& (as_action ==> action_hoist_result(r, post.extra_items@, a.span, post))
                &&& (!as_action ==> (eff matches Some(kindv) ==> cache_hoist_result(
                    r,
                    post.hoisted_extra_items@,
                    kindv,
                    post,
                )))
                &&& ((!as_action && (eff is None)) ==> (r matches Expr::Arrow(na) && na.span
                    == a.span && na.is_async == a.is_async))
            }),
        decreases a,
    {
        let ArrowExpr { span, params, body, is_async } = a;
        let body_ref: Option<&BlockStmt> = match &*body {
            BlockStmtOrExpr::Block(b) => Some(b),
            BlockStmtOrExpr::Expr(_) => None,
        };
        let info = self.get_body_info(body_ref);
        proof {
            assert(diags_extended(old(self).diags@, self.diags@)) by {
                assert forall|k: int|
                    0 <= k < old(self).diags@.len() implies self.diags@[k] == old(
                    self,
                ).diags@[k] by {}
            }
        }
        let is_action_fn = info.0;
        let cache_type = info.1;
        let declared_until = self.declared_idents.len();
        let current_names = self.take_names();
        let old_in_module = self.in_module_level;
        let old_track = self.should_track_names;
        let old_export = self.in_export_decl;
        let old_default = self.in_default_export_decl;
        self.in_module_level = false;
        self.should_track_names = is_action_fn || old_track;
        self.in_export_decl = false;
        self.in_default_export_decl = false;
        let ghost mid = *self;
        let mut i: usize = 0;
        while i < params.len()
            invariant
                i <= params.len(),
                *self == (ServerActions { declared_idents: self.declared_idents, ..mid }),
                mid.declared_idents@.len() <= self.declared_idents@.len(),
            decreases params.len() - i,
        {
            crate::qualname::collect_idents_in_pat(&params[i], &mut self.declared_idents);
            i = i + 1;
        }
        let new_params = self.transform_pats(params);
        let new_body: BlockStmtOrExpr = match *body {
            BlockStmtOrExpr::Block(b) => BlockStmtOrExpr::Block(self.transform_block(b)),
            BlockStmtOrExpr::Expr(e) => BlockStmtOrExpr::Expr(self.transform_expr(e)),
        };
        self.in_module_level = old_in_module;
        self.should_track_names = old_track;
        self.in_export_decl = old_export;
        self.in_default_export_decl = old_default;
        let mut child_names = self.merge_child_names(current_names);
        proof {
            assert(diags_extended(old(self).diags@, self.diags@));
        }
        let is_cache = match &cache_type {
            Some(_) => true,
            None => false,
        };
        let stripped_body: BlockStmtOrExpr = match new_body {
            BlockStmtOrExpr::Block(b) => {
                let BlockStmt { span: bspan, stmts } = b;
                BlockStmtOrExpr::Block(
                    BlockStmt { span: bspan, stmts: self.strip_directives(stmts) },
                )
            },
            BlockStmtOrExpr::Expr(e) => BlockStmtOrExpr::Expr(e),
        };
        if !is_action_fn && !is_cache {
            return Expr::Arrow(
                ArrowExpr { span, params: new_params, body: Box::new(stripped_body), is_async },
            );
        }
        if !is_async {
            self.diags.push(Diag { span, kind: DiagKind::ArrowNotAsync });
            proof {
                assert(self.diags@.last() == Diag { span, kind: DiagKind::ArrowNotAsync });
            }
        }
        let ghost pre_child = names_v(child_names@);
        crate::qualname::retain_names_from_declared_idents(
            &mut child_names,
            &self.declared_idents,
            declared_until,
        );
        proof {
            lemma_all_wf_from_contains(names_v(child_names@), pre_child);
        }
        let rebuilt = ArrowExpr {
            span,
            params: new_params,
            body: Box::new(stripped_body),
            is_async,
        };
        let ghost gcaps = names_v(child_names@);
        let ghost mid = *self;
        if is_action_fn {
            let proxy = self.maybe_hoist_and_create_proxy_for_server_action_arrow_expr(
                child_names,
                rebuilt,
            );
            proof {
                assert(is_hoisted_action_def(
                    self.extra_items@.last(),
                    action_ident_chars(mid.reference_index as nat),
                    action_id_chars(
                        self.config.hash_salt@,
                        self.file_name@,
                        action_ident_chars(mid.reference_index as nat),
                    ),
                    gcaps.len(),
                    self.private_ctxt,
                ));
                assert(is_capture_proxy(
                    proxy,
                    action_ident_chars(mid.reference_index as nat),
                    span,
                    action_id_chars(
                        self.config.hash_salt@,
                        self.file_name@,
                        action_ident_chars(mid.reference_index as nat),
                    ),
                    gcaps,
                    self.private_ctxt,
                ));
                assert(action_hoist_result(proxy, self.extra_items@, span, *self));
            }
            proxy
        } else {
            match cache_type {
                Some(kind) => {
                    let proxy = self.maybe_hoist_and_create_proxy_for_cache_arrow_expr(
                        child_names,
                        &kind,
                        rebuilt,
                    );
                    proof {
                        assert(is_hoisted_cache_def(
                            self.hoisted_extra_items@.last(),
                            cache_ident_chars(mid.reference_index as nat),
                            kind@,
                            action_id_chars(
                                self.config.hash_salt@,
                                self.file_name@,
                                cache_ident_chars(mid.reference_index as nat),
                            ),
                            gcaps.len(),
                            self.private_ctxt,
                        ));
                        assert(is_capture_proxy(
                            proxy,
                            cache_ident_chars(mid.reference_index as nat),
                            DUMMY_SP,
                            action_id_chars(
                                self.config.hash_salt@,
                                self.file_name@,
                                cache_ident_chars(mid.reference_index as nat),
                            ),
                            gcaps,
                            self.private_ctxt,
                        ));
                        assert(cache_hoist_result(proxy, self.hoisted_extra_items@, kind@, *self));
                    }
                    proxy
                },
                None => Expr::Arrow(rebuilt),
            }
        }
    }
}


/// The export names of the recorded exported identifiers.
pub open spec fn exported_names_v(s: Seq<(Ident, String)>) -> Seq<Seq<char>> {
    s.map_values(|p: (Ident, String)| p.1@)
}

/// The names the catalogue covers: every hoisted action, and, in an
/// action file, every exported name.
pub open spec fn catalogue_names(st: ServerActions) -> Seq<Seq<char>> {
    strs_v(st.export_actions@) + (if st.in_action_file {
        exported_names_v(st.exported_idents@)
    } else {
        Seq::empty()
    })
}



/// `item` is an import from the given module specifier.
pub open spec fn is_import_of(item: ModuleItem, src: Seq<char>) -> bool {
    match item {
        ModuleItem::Import(d) => d.src.value@ == src,
        _ => false,
    }
}

/// `e` is `createServerReference("<id>", callServer, undefined,
/// findSourceMapURL, "<name>")`.
pub open spec fn is_create_reference_call(e: Expr, id: Seq<char>, name: Seq<char>, ctxt: u32) -> bool {
    match e {
        Expr::Call(c) => {
            &&& c.pure
            &&& (match c.callee {
                crate::ast::Callee::Expr(ce) => crate::builders::is_plain_ident_expr(
                    *ce,
                    "createServerReference"@,
                    ctxt,
                ),
                _ => false,
            })
            &&& c.args@.len() == 5
            &&& !c.args@[0].spread && crate::builders::is_str_expr(c.args@[0].expr, id)
            &&& !c.args@[1].spread && crate::builders::is_plain_ident_expr(
                c.args@[1].expr,
                "callServer"@,
                ctxt,
            )
            &&& !c.args@[2].spread
            &&& (c.args@[2].expr matches Expr::Undefined { .. })
            &&& !c.args@[3].spread && crate::builders::is_plain_ident_expr(
                c.args@[3].expr,
                "findSourceMapURL"@,
                ctxt,
            )
            &&& !c.args@[4].spread && crate::builders::is_str_expr(c.args@[4].expr, name)
        },
        _ => false,
    }
}

/// On the client layer an action file's export becomes a reference
/// creation: a default export expression, or `export var <name> = ...`.
pub open spec fn is_client_reexport(
    item: ModuleItem,
    pair: (Ident, String),
    id: Seq<char>,
    ctxt: u32,
) -> bool {
    if pair.1@ == "default"@ {
        match item {
            ModuleItem::ExportDefaultExpr { span, expr } => span == pair.0.span
                && is_create_reference_call(expr, id, pair.1@, ctxt),
            _ => false,
        }
    } else {
        match item {
            ModuleItem::ExportDecl { decl, .. } => match decl {
                Decl::Var(v) => {
                    &&& v.kind == VarDeclKind::Var
                    &&& v.decls@.len() == 1
                    &&& (match v.decls@[0].name {
                        Pat::Id(i) => i.sym@ == pair.1@ && i.span == pair.0.span && i.ctxt == 0,
                        _ => false,
                    })
                    &&& (match v.decls@[0].init {
                        Some(e) => is_create_reference_call(e, id, pair.1@, ctxt),
                        None => false,
                    })
                },
                _ => false,
            },
            _ => false,
        }
    }
}

/// The statement `registerServerReference(<binding>, "<id>", null);`.
pub open spec fn is_register_annotation_stmt(s: Stmt, ident: Ident, id: Seq<char>, ctxt: u32) -> bool {
    match s {
        Stmt::Expr { expr, .. } => crate::builders::is_register_reference_call(
            expr,
            ident.sym@,
            ident.span,
            ident.ctxt,
            id,
            ctxt,
        ),
        _ => false,
    }
}

/// The module item carrying a registration annotation statement.
pub open spec fn is_register_annotation(item: ModuleItem, ident: Ident, id: Seq<char>, ctxt: u32) -> bool {
    match item {
        ModuleItem::Stmt(s) => is_register_annotation_stmt(s, ident, id, ctxt),
        _ => false,
    }
}

/// The statement `ensureServerEntryExports([<bindings>...]);` over the
/// recorded exported bindings, in order.
pub open spec fn is_ensure_call(item: ModuleItem, pairs: Seq<(Ident, String)>, ctxt: u32) -> bool {
    match item {
        ModuleItem::Stmt(s) => match s {
            Stmt::Expr { expr, .. } => match expr {
                Expr::Call(c) => {
                    &&& !c.pure
                    &&& (match c.callee {
                        crate::ast::Callee::Expr(ce) => crate::builders::is_plain_ident_expr(
                            *ce,
                            "ensureServerEntryExports"@,
                            ctxt,
                        ),
                        _ => false,
                    })
                    &&& c.args@.len() == 1
                    &&& !c.args@[0].spread
                    &&& (match c.args@[0].expr {
                        Expr::Array { elems, .. } => elems@.len() == pairs.len() && forall|k: int|
                            0 <= k < pairs.len() ==> #[trigger] elems@[k] == Some(
                                ExprOrSpread { spread: false, expr: Expr::Id(pairs[k].0) },
                            ),
                        _ => false,
                    })
                },
                _ => false,
            },
            _ => false,
        },
        _ => false,
    }
}


/// The closing items of a server-layer action file: one registration
/// annotation per export, then the validation import, then the trailing
/// `ensureServerEntryExports` call over all exported bindings.
pub open spec fn server_action_tail(
    out: Seq<ModuleItem>,
    pairs: Seq<(Ident, String)>,
    salt: Seq<char>,
    file: Seq<char>,
    ctxt: u32,
) -> bool {
    let e = pairs.len() as int;
    &&& out.len() >= e + 2
    &&& forall|j: int|
        0 <= j < e ==> is_register_annotation(
            #[trigger] out[out.len() - 2 - e + j],
            pairs[j].0,
            action_id_chars(salt, file, pairs[j].1@),
            ctxt,
        )
    &&& is_import_of(out[out.len() - 2], "private-next-rsc-action-validate"@)
    &&& is_ensure_call(out[out.len() - 1], pairs, ctxt)
}

/// The closing items of a client-layer action file: one reference
/// creation per exported binding.
pub open spec fn client_reexport_tail(
    out: Seq<ModuleItem>,
    pairs: Seq<(Ident, String)>,
    salt: Seq<char>,
    file: Seq<char>,
    ctxt: u32,
) -> bool {
    let e = pairs.len() as int;
    &&& out.len() >= e
    &&& forall|j: int|
        0 <= j < e ==> is_client_reexport(
            #[trigger] out[out.len() - e + j],
            pairs[j],
            action_id_chars(salt, file, pairs[j].1@),
            ctxt,
        )
}

/// Prepending an item leaves a module's closing run in place.
pub proof fn lemma_server_tail_prepend(
    pre: Seq<ModuleItem>,
    v: ModuleItem,
    pairs: Seq<(Ident, String)>,
    salt: Seq<char>,
    file: Seq<char>,
    ctxt: u32,
)
    requires
        server_action_tail(pre, pairs, salt, file, ctxt),
    ensures
        server_action_tail(seq![v] + pre, pairs, salt, file, ctxt),
{
    let out = seq![v] + pre;
    let e = pairs.len() as int;
    assert(out[out.len() - 2] == pre[pre.len() - 2]);
    assert(out[out.len() - 1] == pre[pre.len() - 1]);
    assert forall|j: int| 0 <= j < e implies is_register_annotation(
        #[trigger] out[out.len() - 2 - e + j],
        pairs[j].0,
        action_id_chars(salt, file, pairs[j].1@),
        ctxt,
    ) by {
        assert(out[out.len() - 2 - e + j] == pre[pre.len() - 2 - e + j]);
    }
}

/// Prepending an item leaves a module's closing run in place.
pub proof fn lemma_client_tail_prepend(
    pre: Seq<ModuleItem>,
    v: ModuleItem,
    pairs: Seq<(Ident, String)>,
    salt: Seq<char>,
    file: Seq<char>,
    ctxt: u32,
)
    requires
        client_reexport_tail(pre, pairs, salt, file, ctxt),
    ensures
        client_reexport_tail(seq![v] + pre, pairs, salt, file, ctxt),
{
    let out = seq![v] + pre;
    let e = pairs.len() as int;
    assert forall|j: int| 0 <= j < e implies is_client_reexport(
        #[trigger] out[out.len() - e + j],
        pairs[j],
        action_id_chars(salt, file, pairs[j].1@),
        ctxt,
    ) by {
        assert(out[out.len() - e + j] == pre[pre.len() - e + j]);
    }
}

/// The view of recorded exports: binding identity and export name.
pub open spec fn exported_pairs_v(s: Seq<(Ident, String)>) -> Seq<((Seq<char>, u32), Seq<char>)> {
    s.map_values(|p: (Ident, String)| ((p.0.sym@, p.0.ctxt), p.1@))
}

/// The pairs an exported variable declaration records: each bound
/// identifier under its own symbol.
pub open spec fn var_export_pairs(ids: Seq<(Seq<char>, u32)>) -> Seq<((Seq<char>, u32), Seq<char>)> {
    ids.map_values(|p: (Seq<char>, u32)| (p, p.0))
}

/// The pairs a named export's specifiers record, in order.
pub open spec fn named_export_pairs(specs: Seq<crate::ast::ExportSpecifier>) -> Seq<
    ((Seq<char>, u32), Seq<char>),
>
    decreases specs,
{
    if specs.len() == 0 {
        Seq::empty()
    } else {
        named_export_pairs(specs.drop_last()) + (match specs.last() {
            crate::ast::ExportSpecifier::Named { orig, exported } => match orig {
                crate::ast::ModuleExportName::Ident(i) => match exported {
                    Some(en) => match en {
                        crate::ast::ModuleExportName::Ident(i2) => seq![
                            ((i.sym@, i.ctxt), i2.sym@),
                        ],
                        crate::ast::ModuleExportName::Str(s) => seq![((i.sym@, i.ctxt), s.value@)],
                    },
                    None => seq![((i.sym@, i.ctxt), i.sym@)],
                },
                crate::ast::ModuleExportName::Str(_) => Seq::empty(),
            },
            crate::ast::ExportSpecifier::Other => Seq::empty(),
        })
    }
}

/// Whether export bookkeeping invents a fresh default binding for this
/// item (an anonymous default function, or a default arrow or call).
pub open spec fn export_synthesises(item: ModuleItem) -> bool {
    match item {
        ModuleItem::ExportDefaultDecl { decl, .. } => match decl {
            crate::ast::DefaultDecl::Fn(fe) => fe.ident is None,
            _ => false,
        },
        ModuleItem::ExportDefaultExpr { expr, .. } => match expr {
            Expr::Arrow(a) => a.is_async,
            Expr::Call(_) => true,
            _ => false,
        },
        _ => false,
    }
}

/// The (binding, export-name) pairs one module item of an action or
/// cache file records; a synthesised default binding takes the next
/// fresh name.
pub open spec fn item_export_pairs(item: ModuleItem, ref_index: u64, ctxt: u32) -> Seq<
    ((Seq<char>, u32), Seq<char>),
> {
    match item {
        ModuleItem::ExportDecl { decl, .. } => match decl {
            Decl::Fn(f) => seq![((f.ident.sym@, f.ident.ctxt), f.ident.sym@)],
            Decl::Var(v) => var_export_pairs(crate::qualname::var_decls_ids(v.decls@)),
            _ => Seq::empty(),
        },
        ModuleItem::ExportNamed { specifiers, src, .. } => match src {
            Some(_) => Seq::empty(),
            None => named_export_pairs(specifiers@),
        },
        ModuleItem::ExportDefaultDecl { decl, .. } => match decl {
            crate::ast::DefaultDecl::Fn(fe) => match fe.ident {
                Some(i) => seq![((i.sym@, i.ctxt), "default"@)],
                None => seq![((action_ident_chars(ref_index as nat), ctxt), "default"@)],
            },
            _ => Seq::empty(),
        },
        ModuleItem::ExportDefaultExpr { expr, .. } => match expr {
            Expr::Fn(_) => Seq::empty(),
            Expr::Arrow(a) => if a.is_async {
                seq![((crate::naming::attached_ident_chars(ref_index as nat), ctxt), "default"@)]
            } else {
                Seq::empty()
            },
            Expr::Id(i) => seq![((i.sym@, i.ctxt), "default"@)],
            Expr::Call(_) => seq![
                ((crate::naming::attached_ident_chars(ref_index as nat), ctxt), "default"@),
            ],
            _ => Seq::empty(),
        },
        _ => Seq::empty(),
    }
}

/// The span an action or cache file blames for a disallowed export, if
/// this item holds one.
pub open spec fn disallowed_export_span(item: ModuleItem) -> Option<Span> {
    match item {
        ModuleItem::ExportDecl { span, decl } => match decl {
            Decl::Fn(_) => None,
            Decl::Var(v) => if exists|k: int|
                0 <= k < v.decls@.len() && ((#[trigger] v.decls@[k].init) matches Some(e)
                    && e matches Expr::Lit(_)) {
                Some(span)
            } else {
                None
            },
            _ => Some(span),
        },
        ModuleItem::ExportNamed { span, specifiers, src } => match src {
            Some(_) => Some(span),
            None => if exists|k: int|
                0 <= k < specifiers@.len() && !((#[trigger] specifiers@[k])
                    matches crate::ast::ExportSpecifier::Named {
                    orig: crate::ast::ModuleExportName::Ident(_),
                    ..
                }) {
                Some(span)
            } else {
                None
            },
        },
        ModuleItem::ExportDefaultDecl { span, decl } => match decl {
            crate::ast::DefaultDecl::Fn(_) => None,
            _ => Some(span),
        },
        ModuleItem::ExportDefaultExpr { span, expr } => match expr {
            Expr::Fn(_) => None,
            Expr::Arrow(a) => if a.is_async {
                None
            } else {
                Some(span)
            },
            Expr::Id(_) => None,
            Expr::Call(_) => None,
            _ => Some(span),
        },
        ModuleItem::ExportAll { span, .. } => Some(span),
        _ => None,
    }
}

/// What export bookkeeping leaves unchanged.
pub open spec fn note_frame(pre: ServerActions, post: ServerActions) -> bool {
    &&& post.config == pre.config
    &&& post.file_name == pre.file_name
    &&& post.private_ctxt == pre.private_ctxt
    &&& post.in_action_file == pre.in_action_file
    &&& post.in_cache_file == pre.in_cache_file
    &&& post.in_export_decl == pre.in_export_decl
    &&& post.in_default_export_decl == pre.in_default_export_decl
    &&& post.in_callee == pre.in_callee
    &&& post.in_module_level == pre.in_module_level
    &&& post.should_track_names == pre.should_track_names
    &&& post.names == pre.names
    &&& post.declared_idents == pre.declared_idents
    &&& post.annotations == pre.annotations
    &&& post.hoisted_extra_items == pre.hoisted_extra_items
    &&& post.has_action == pre.has_action
    &&& post.has_cache == pre.has_cache
}

impl ServerActions {
    /// Records one exported identifier under its export name.
    fn push_exported(&mut self, ident: Ident, name: String)
        ensures
            *final(self) == (ServerActions {
                exported_idents: final(self).exported_idents,
                ..*old(self)
            }),
            final(self).exported_idents@ == old(self).exported_idents@.push((ident, name)),
    {
        self.exported_idents.push((ident, name));
    }

    /// Bookkeeping for one module item of an action or cache file:
    /// records every permitted export under its name, gives anonymous
    /// default exports a fresh binding, and reports disallowed exports.
    #[verifier::loop_isolation(false)]
    #[verifier::rlimit(100)]
    #[verifier::spinoff_prover]
    fn note_exports(&mut self, item: &mut ModuleItem)
        ensures
            note_frame(*old(self), *final(self)),
            exported_pairs_v(final(self).exported_idents@) == exported_pairs_v(
                old(self).exported_idents@,
            ) + item_export_pairs(*old(item), old(self).reference_index, old(self).private_ctxt),
            final(self).diags@ == (match disallowed_export_span(*old(item)) {
                Some(sp) => old(self).diags@.push(
                    (Diag { span: sp, kind: DiagKind::DisallowedExport }),
                ),
                None => old(self).diags@,
            }),
            final(self).reference_index == (if export_synthesises(*old(item)) {
                bump(old(self).reference_index)
            } else {
                old(self).reference_index
            }),
            old(self).extra_items@.is_prefix_of(final(self).extra_items@),
    {
        let ghost pre_pairs = exported_pairs_v(self.exported_idents@);
        let ghost expected = item_export_pairs(*item, self.reference_index, self.private_ctxt);
        let mut disallowed: Option<Span> = None;
        match item {
            ModuleItem::ExportDecl { span, decl } => match decl {
                Decl::Fn(f) => {
                    let name = f.ident.sym.clone();
                    self.exported_idents.push((f.ident.clone(), name));
                    proof {
                        assert(exported_pairs_v(self.exported_idents@) =~= pre_pairs + expected);
                    }
                },
                Decl::Var(var) => {
                    let mut idents: Vec<Ident> = Vec::new();
                    crate::qualname::collect_idents_in_var_decls(&var.decls, &mut idents);
                    proof {
                        assert(crate::qualname::idents_v(idents@)
                            == crate::qualname::var_decls_ids(var.decls@));
                    }
                    let mut i: usize = 0;
                    while i < idents.len()
                        invariant
                            i <= idents.len(),
                            note_frame(*old(self), *self),
                            self.diags == old(self).diags,
                            self.extra_items == old(self).extra_items,
                            self.reference_index == old(self).reference_index,
                            exported_pairs_v(self.exported_idents@) =~= pre_pairs
                                + var_export_pairs(
                                crate::qualname::idents_v(idents@).take(i as int),
                            ),
                        decreases idents.len() - i,
                    {
                        let ghost epre = exported_pairs_v(self.exported_idents@);
                        let name = idents[i].sym.clone();
                        self.exported_idents.push((idents[i].clone(), name));
                        proof {
                            assert(exported_pairs_v(self.exported_idents@) =~= epre.push(
                                ((idents@[i as int].sym@, idents@[i as int].ctxt), idents@[
                                    i as int
                                ].sym@),
                            ));
                            assert(crate::qualname::idents_v(idents@)[i as int] == (
                                idents@[i as int].sym@,
                                idents@[i as int].ctxt,
                            ));
                            assert(var_export_pairs(
                                crate::qualname::idents_v(idents@).take(i as int + 1),
                            ) =~= var_export_pairs(
                                crate::qualname::idents_v(idents@).take(i as int),
                            ).push(
                                ((idents@[i as int].sym@, idents@[i as int].ctxt), idents@[
                                    i as int
                                ].sym@),
                            ));
                            assert(exported_pairs_v(self.exported_idents@) =~= pre_pairs
                                + var_export_pairs(
                                crate::qualname::idents_v(idents@).take(i as int + 1),
                            ));
                        }
                        i = i + 1;
                    }
                    proof {
                        assert(crate::qualname::idents_v(idents@).take(idents@.len() as int)
                            =~= crate::qualname::idents_v(idents@));
                        assert(exported_pairs_v(self.exported_idents@) =~= pre_pairs + expected);
                    }
                    let mut has_lit: bool = false;
                    let mut j: usize = 0;
                    while j < var.decls.len()
                        invariant
                            j <= var.decls.len(),
                            has_lit == (exists|k: int|
                                0 <= k < j && ((#[trigger] var.decls@[k].init) matches Some(e)
                                    && e matches Expr::Lit(_))),
                        decreases var.decls.len() - j,
                    {
                        let step_lit = match &var.decls[j].init {
                            Some(e) => match e {
                                Expr::Lit(_) => true,
                                _ => false,
                            },
                            None => false,
                        };
                        proof {
                            if step_lit {
                                assert((var.decls@[j as int].init) matches Some(e)
                                    && e matches Expr::Lit(_));
                            }
                            assert forall|k: int|
                                0 <= k < j + 1 && ((#[trigger] var.decls@[k].init)
                                    matches Some(e) && e matches Expr::Lit(_)) implies (has_lit
                                || step_lit) by {}
                        }
                        if step_lit {
                            has_lit = true;
                        }
                        j = j + 1;
                    }
                    if has_lit {
                        disallowed = Some(*span);
                    }
                },
                _ => {
                    disallowed = Some(*span);
                },
            },
            ModuleItem::ExportNamed { span, specifiers, src } => {
                match src {
                    Some(_) => {
                        disallowed = Some(*span);
                    },
                    None => {
                        let mut has_bad: bool = false;
                        let mut i: usize = 0;
                        while i < specifiers.len()
                            invariant
                                i <= specifiers.len(),
                                note_frame(*old(self), *self),
                                self.diags == old(self).diags,
                                self.extra_items == old(self).extra_items,
                                self.reference_index == old(self).reference_index,
                                exported_pairs_v(self.exported_idents@) =~= pre_pairs
                                    + named_export_pairs(specifiers@.take(i as int)),
                                has_bad == (exists|k: int|
                                    0 <= k < i && !((#[trigger] specifiers@[k])
                                        matches crate::ast::ExportSpecifier::Named {
                                        orig: crate::ast::ModuleExportName::Ident(_),
                                        ..
                                    })),
                            decreases specifiers.len() - i,
                        {
                            proof {
                                assert(specifiers@.take(i as int + 1).drop_last()
                                    =~= specifiers@.take(i as int));
                                assert(specifiers@.take(i as int + 1).last()
                                    == specifiers@[i as int]);
                            }
                            let ghost epre = exported_pairs_v(self.exported_idents@);
                            let mut step_bad: bool = false;
                            match &specifiers[i] {
                                crate::ast::ExportSpecifier::Named { orig, exported } => {
                                    match orig {
                                        crate::ast::ModuleExportName::Ident(ident) => {
                                            match exported {
                                                Some(en) => match en {
                                                    crate::ast::ModuleExportName::Ident(i2) => {
                                                        self.exported_idents.push(
                                                            (ident.clone(), i2.sym.clone()),
                                                        );
                                                        proof {
                                                            assert(exported_pairs_v(
                                                                self.exported_idents@,
                                                            ) =~= epre.push(
                                                                ((ident.sym@, ident.ctxt), i2.sym@),
                                                            ));
                                                        }
                                                    },
                                                    crate::ast::ModuleExportName::Str(s) => {
                                                        self.exported_idents.push(
                                                            (ident.clone(), s.value.clone()),
                                                        );
                                                        proof {
                                                            assert(exported_pairs_v(
                                                                self.exported_idents@,
                                                            ) =~= epre.push(
                                                                ((ident.sym@, ident.ctxt), s.value@),
                                                            ));
                                                        }
                                                    },
                                                },
                                                None => {
                                                    self.exported_idents.push(
                                                        (ident.clone(), ident.sym.clone()),
                                                    );
                                                    proof {
                                                        assert(exported_pairs_v(
                                                            self.exported_idents@,
                                                        ) =~= epre.push(
                                                            ((ident.sym@, ident.ctxt), ident.sym@),
                                                        ));
                                                    }
                                                },
                                            }
                                        },
                                        crate::ast::ModuleExportName::Str(_) => {
                                            step_bad = true;
                                        },
                                    }
                                },
                                crate::ast::ExportSpecifier::Other => {
                                    step_bad = true;
                                },
                            }
                            proof {
                                assert(exported_pairs_v(self.exported_idents@) =~= pre_pairs
                                    + named_export_pairs(specifiers@.take(i as int + 1)));
                                assert forall|k: int|
                                    0 <= k < i + 1 && !((#[trigger] specifiers@[k])
                                        matches crate::ast::ExportSpecifier::Named {
                                        orig: crate::ast::ModuleExportName::Ident(_),
                                        ..
                                    }) implies (has_bad || step_bad) by {}
                            }
                            if step_bad {
                                has_bad = true;
                            }
                            i = i + 1;
                        }
                        proof {
                            assert(specifiers@.take(specifiers@.len() as int) =~= specifiers@);
                            assert(exported_pairs_v(self.exported_idents@) =~= pre_pairs
                                + expected);
                        }
                        if has_bad {
                            disallowed = Some(*span);
                        }
                    },
                }
            },
            ModuleItem::ExportDefaultDecl { span, decl } => match decl {
                crate::ast::DefaultDecl::Fn(f) => {
                    match &f.ident {
                        Some(ident) => {
                            let name = String::from_str("default");
                            self.exported_idents.push((ident.clone(), name));
                        },
                        None => {
                            let ni = Ident {
                                sym: gen_action_ident(&mut self.reference_index),
                                span: f.function.span,
                                ctxt: self.private_ctxt,
                            };
                            f.ident = Some(ni.clone());
                            let name = String::from_str("default");
                            self.exported_idents.push((ni, name));
                        },
                    }
                    proof {
                        assert(exported_pairs_v(self.exported_idents@) =~= pre_pairs + expected);
                    }
                },
                _ => {
                    disallowed = Some(*span);
                },
            },
            ModuleItem::ExportDefaultExpr { span, expr } => {
                let mut attach_ident: Option<Ident> = None;
                match &*expr {
                    Expr::Fn(_) => {},
                    Expr::Arrow(arrow) => {
                        if !arrow.is_async {
                            disallowed = Some(*span);
                        } else {
                            let ni = Ident {
                                sym: crate::naming::gen_attached_ident(&mut self.reference_index),
                                span: arrow.span,
                                ctxt: self.private_ctxt,
                            };
                            self.exported_idents.push(
                                (ni.clone(), String::from_str("default")),
                            );
                            attach_ident = Some(ni);
                        }
                    },
                    Expr::Id(ident) => {
                        let name = String::from_str("default");
                        self.exported_idents.push((ident.clone(), name));
                    },
                    Expr::Call(call) => {
                        let ni = Ident {
                            sym: crate::naming::gen_attached_ident(&mut self.reference_index),
                            span: call.span,
                            ctxt: self.private_ctxt,
                        };
                        self.exported_idents.push((ni.clone(), String::from_str("default")));
                        attach_ident = Some(ni);
                    },
                    _ => {
                        disallowed = Some(*span);
                    },
                }
                proof {
                    assert(exported_pairs_v(self.exported_idents@) =~= pre_pairs + expected);
                }
                match attach_ident {
                    Some(ni) => {
                        let mut taken = Expr::Null { span: DUMMY_SP };
                        core::mem::swap(expr, &mut taken);
                        let mut attached = crate::builders::attach_name_to_expr(
                            ni,
                            taken,
                            &mut self.extra_items,
                        );
                        core::mem::swap(expr, &mut attached);
                    },
                    None => {},
                }
            },
            ModuleItem::ExportAll { span, .. } => {
                disallowed = Some(*span);
            },
            _ => {},
        }
        proof {
            assert(exported_pairs_v(self.exported_idents@) =~= pre_pairs + expected);
        }
        match disallowed {
            Some(sp) => {
                self.diags.push(Diag { span: sp, kind: DiagKind::DisallowedExport });
            },
            None => {},
        }
    }

    /// Visits one module item, dispatching through the export-context
    /// flags; a hoisted default function comes back as a default
    /// export of its proxy expression.
    #[verifier::loop_isolation(false)]
    fn transform_module_item(&mut self, item: ModuleItem) -> (r: ModuleItem)
        requires
            old(self).names_wf(),
        ensures
            visit_frame(*old(self), *final(self)),
            final(self).names_wf(),
        decreases item,
    {
        match item {
            ModuleItem::Stmt(s) => ModuleItem::Stmt(self.transform_stmt(s)),
            ModuleItem::ExportDecl { span, decl } => {
                let old_export = self.in_export_decl;
                self.in_export_decl = true;
                let d2 = self.transform_decl(decl);
                self.in_export_decl = old_export;
                ModuleItem::ExportDecl { span, decl: d2 }
            },
            ModuleItem::ExportDefaultDecl { span, decl } => {
                match decl {
                    crate::ast::DefaultDecl::Fn(f) => {
                        let old_export = self.in_export_decl;
                        let old_default = self.in_default_export_decl;
                        self.in_export_decl = true;
                        self.in_default_export_decl = true;
                        let e = self.transform_fn_expr(f);
                        self.in_export_decl = old_export;
                        self.in_default_export_decl = old_default;
                        match e {
                            Expr::Fn(f2) => ModuleItem::ExportDefaultDecl {
                                span,
                                decl: crate::ast::DefaultDecl::Fn(f2),
                            },
                            other => ModuleItem::ExportDefaultExpr { span: DUMMY_SP, expr: other },
                        }
                    },
                    crate::ast::DefaultDecl::Other { span: s2 } => ModuleItem::ExportDefaultDecl {
                        span,
                        decl: crate::ast::DefaultDecl::Other { span: s2 },
                    },
                }
            },
            ModuleItem::ExportDefaultExpr { span, expr } => {
                let old_export = self.in_export_decl;
                let old_default = self.in_default_export_decl;
                self.in_export_decl = true;
                self.in_default_export_decl = true;
                let e2 = self.transform_expr(expr);
                self.in_export_decl = old_export;
                self.in_default_export_decl = old_default;
                ModuleItem::ExportDefaultExpr { span, expr: e2 }
            },
            other => other,
        }
    }
}


impl ServerActions {

    /// On the client layer of an action file: prepend the client
    /// wrapper import and append one reference creation per export.
    #[verifier::loop_isolation(false)]
    #[verifier::rlimit(100)]
    #[verifier::spinoff_prover]
    fn emit_client_reexports(&self, new_items: &mut Vec<ModuleItem>)
        ensures
            final(new_items)@.len() == old(new_items)@.len() + 1 + self.exported_idents@.len(),
            is_import_of(final(new_items)@[0], "private-next-rsc-action-client-wrapper"@),
            client_reexport_tail(
                final(new_items)@,
                self.exported_idents@,
                self.config.hash_salt@,
                self.file_name@,
                self.private_ctxt,
            ),
    {
        let ghost salt = self.config.hash_salt@;
        let ghost file = self.file_name@;
        let ghost gctxt = self.private_ctxt;
        let ghost gpairs = self.exported_idents@;
        let create_ref = Ident {
            sym: String::from_str("createServerReference"),
            span: DUMMY_SP,
            ctxt: self.private_ctxt,
        };
        let call_server = Ident {
            sym: String::from_str("callServer"),
            span: DUMMY_SP,
            ctxt: self.private_ctxt,
        };
        let find_map = Ident {
            sym: String::from_str("findSourceMapURL"),
            span: DUMMY_SP,
            ctxt: self.private_ctxt,
        };
        let mut specs: Vec<crate::ast::ImportSpecifier> = Vec::new();
        specs.push(
            crate::ast::ImportSpecifier::Named {
                local: create_ref.clone(),
                imported: None,
            },
        );
        specs.push(
            crate::ast::ImportSpecifier::Named {
                local: call_server.clone(),
                imported: None,
            },
        );
        specs.push(
            crate::ast::ImportSpecifier::Named { local: find_map.clone(), imported: None },
        );
        let client_import = ModuleItem::Import(
            crate::ast::ImportDecl {
                span: DUMMY_SP,
                specifiers: specs,
                src: StrLit {
                    value: String::from_str("private-next-rsc-action-client-wrapper"),
                    span: DUMMY_SP,
                },
            },
        );
        let ghost gclient = client_import;
        let ghost before_ins = new_items@;
        new_items.insert(0, client_import);
        proof {
            assert(new_items@ =~= seq![gclient] + before_ins);
            assert(is_import_of(new_items@[0], "private-next-rsc-action-client-wrapper"@));
        }
        let ghost ls = *self;
        let ghost cbase = new_items@.len() as int;
        let ghost cpre = new_items@;
        let mut i: usize = 0;
        while i < self.exported_idents.len()
            invariant
                i <= self.exported_idents.len(),
                *self == ls,
                new_items@.len() == cbase + i,
                new_items@.subrange(0, cbase) == cpre,
                forall|j: int|
                    0 <= j < i ==> is_client_reexport(
                        #[trigger] new_items@[cbase + j],
                        self.exported_idents@[j],
                        action_id_chars(salt, file, self.exported_idents@[j].1@),
                        gctxt,
                    ),
            decreases self.exported_idents.len() - i,
        {
            let ident = self.exported_idents[i].0.clone();
            let export_name = self.exported_idents[i].1.clone();
            let action_id = generate_action_id(
                self.config.hash_salt.as_str(),
                self.file_name.as_str(),
                export_name.as_str(),
            );
            let is_default = crate::strutil::str_eq(export_name.as_str(), "default");
            let mut args: Vec<ExprOrSpread> = Vec::new();
            args.push(
                ExprOrSpread {
                    spread: false,
                    expr: Expr::Lit(
                        crate::ast::Lit::Str(StrLit { value: action_id, span: DUMMY_SP }),
                    ),
                },
            );
            args.push(
                ExprOrSpread { spread: false, expr: Expr::Id(call_server.clone()) },
            );
            args.push(
                ExprOrSpread { spread: false, expr: Expr::Undefined { span: DUMMY_SP } },
            );
            args.push(ExprOrSpread { spread: false, expr: Expr::Id(find_map.clone()) });
            args.push(
                ExprOrSpread {
                    spread: false,
                    expr: Expr::Lit(
                        crate::ast::Lit::Str(
                            StrLit { value: export_name.clone(), span: DUMMY_SP },
                        ),
                    ),
                },
            );
            let call = Expr::Call(
                crate::ast::CallExpr {
                    span: DUMMY_SP,
                    pure: true,
                    callee: crate::ast::Callee::Expr(
                        Box::new(Expr::Id(create_ref.clone())),
                    ),
                    args,
                },
            );
            proof {
                assert(is_create_reference_call(
                    call,
                    action_id_chars(salt, file, self.exported_idents@[i as int].1@),
                    self.exported_idents@[i as int].1@,
                    gctxt,
                ));
            }
            let out_item = if is_default {
                ModuleItem::ExportDefaultExpr { span: ident.span, expr: call }
            } else {
                let mut decls: Vec<VarDeclarator> = Vec::new();
                decls.push(
                    VarDeclarator {
                        span: DUMMY_SP,
                        name: Pat::Id(
                            Ident { sym: export_name, span: ident.span, ctxt: 0 },
                        ),
                        init: Some(call),
                    },
                );
                ModuleItem::ExportDecl {
                    span: DUMMY_SP,
                    decl: Decl::Var(
                        VarDecl { span: DUMMY_SP, kind: VarDeclKind::Var, decls },
                    ),
                }
            };
            let ghost gout = out_item;
            proof {
                assert(is_client_reexport(
                    gout,
                    self.exported_idents@[i as int],
                    action_id_chars(salt, file, self.exported_idents@[i as int].1@),
                    gctxt,
                ));
            }
            let ghost np = new_items@;
            new_items.push(out_item);
            proof {
                assert(new_items@ =~= np.push(gout));
                assert(new_items@.subrange(0, cbase) =~= cpre);
            }
            i = i + 1;
        }
        proof {
            assert(client_reexport_tail(new_items@, gpairs, salt, file, gctxt));
        }
    }

    /// On the server layer of an action file: flush the hoisted
    /// definitions, then append the validation import, the
    /// `ensureServerEntryExports` call, and one registration
    /// annotation per export.
    #[verifier::loop_isolation(false)]
    #[verifier::rlimit(100)]
    #[verifier::spinoff_prover]
    fn emit_server_action_exports(&mut self, new_items: &mut Vec<ModuleItem>)
        requires
            old(self).annotations@.len() == 0,
        ensures
            *final(self) == (ServerActions {
                annotations: final(self).annotations,
                extra_items: final(self).extra_items,
                ..*old(self)
            }),
            final(self).annotations@.len() == 0,
            server_action_tail(
                final(new_items)@,
                old(self).exported_idents@,
                old(self).config.hash_salt@,
                old(self).file_name@,
                old(self).private_ctxt,
            ),
    {
        let ghost salt = self.config.hash_salt@;
        let ghost file = self.file_name@;
        let ghost gctxt = self.private_ctxt;
        let ghost gpairs = self.exported_idents@;
        let ghost e = gpairs.len() as int;

        let ghost ls = *self;
        let ghost ann0 = self.annotations@;
        proof {
            assert(ann0.len() == 0);
        }
        let mut i: usize = 0;
        while i < self.exported_idents.len()
            invariant
                i <= self.exported_idents.len(),
                *self == (ServerActions { annotations: self.annotations, ..ls }),
                self.annotations@.len() == ann0.len() + i,
                self.annotations@.subrange(0, ann0.len() as int) == ann0,
                forall|j: int|
                    0 <= j < i ==> is_register_annotation_stmt(
                        #[trigger] self.annotations@[ann0.len() + j],
                        self.exported_idents@[j].0,
                        action_id_chars(salt, file, self.exported_idents@[j].1@),
                        gctxt,
                    ),
            decreases self.exported_idents.len() - i,
        {
            let ident = self.exported_idents[i].0.clone();
            let export_name = self.exported_idents[i].1.clone();
            let action_id = generate_action_id(
                self.config.hash_salt.as_str(),
                self.file_name.as_str(),
                export_name.as_str(),
            );
            let empty_bound: Vec<ExprOrSpread> = Vec::new();
            let ann = annotate_ident_as_server_reference(
                ident,
                empty_bound,
                &action_id,
                self.private_ctxt,
            );
            let ghost gann = ann;
            let ghost ap = self.annotations@;
            self.annotations.push(Stmt::Expr { span: DUMMY_SP, expr: ann });
            proof {
                assert(self.annotations@ =~= ap.push(
                    (Stmt::Expr { span: DUMMY_SP, expr: gann }),
                ));
                assert(self.annotations@.subrange(0, ann0.len() as int) =~= ann0);
                assert(is_register_annotation_stmt(
                    (Stmt::Expr { span: DUMMY_SP, expr: gann }),
                    self.exported_idents@[i as int].0,
                    action_id_chars(salt, file, self.exported_idents@[i as int].1@),
                    gctxt,
                ));
            }
            i = i + 1;
        }
        let mut extra: Vec<ModuleItem> = Vec::new();
        core::mem::swap(&mut extra, &mut self.extra_items);
        new_items.append(&mut extra);
        let ghost dbase = new_items@.len() as int;
        let ghost before_drain = new_items@;
        let mut anns: Vec<Stmt> = Vec::new();
        core::mem::swap(&mut anns, &mut self.annotations);
        let ghost ganns = anns@;
        let mut rest_a = anns;
        let ghost k: int = 0;
        while rest_a.len() > 0
            invariant
                0 <= k <= ganns.len(),
                rest_a@ =~= ganns.skip(k),
                new_items@.len() == dbase + k,
                new_items@.subrange(0, dbase) == before_drain,
                forall|m: int|
                    0 <= m < k ==> #[trigger] new_items@[dbase + m] == ModuleItem::Stmt(
                        ganns[m],
                    ),
            decreases rest_a.len(),
        {
            let a = rest_a.remove(0);
            proof {
                assert(a == ganns.skip(k)[0]);
                assert(ganns.skip(k)[0] == ganns[k]);
                assert(ganns.skip(k).drop_first() =~= ganns.skip(k + 1));
                assert(rest_a@ =~= ganns.skip(k + 1));
            }
            let ghost np = new_items@;
            new_items.push(ModuleItem::Stmt(a));
            proof {
                assert(new_items@ =~= np.push(ModuleItem::Stmt(ganns[k])));
                assert(new_items@.subrange(0, dbase) =~= before_drain);
                k = k + 1;
            }
        }
        proof {
            assert(ganns.skip(ganns.len() as int) =~= Seq::<Stmt>::empty());
            assert(ganns.len() == ann0.len() + e);
        }
        let ghost after_drain = new_items@;
        let ensure_ident = Ident {
            sym: String::from_str("ensureServerEntryExports"),
            span: DUMMY_SP,
            ctxt: self.private_ctxt,
        };
        let mut specs: Vec<crate::ast::ImportSpecifier> = Vec::new();
        specs.push(
            crate::ast::ImportSpecifier::Named {
                local: ensure_ident.clone(),
                imported: None,
            },
        );
        let validate_import = ModuleItem::Import(
            crate::ast::ImportDecl {
                span: DUMMY_SP,
                specifiers: specs,
                src: StrLit {
                    value: String::from_str("private-next-rsc-action-validate"),
                    span: DUMMY_SP,
                },
            },
        );
        let ghost gvalidate = validate_import;
        new_items.push(validate_import);
        proof {
            assert(new_items@ =~= after_drain.push(gvalidate));
        }
        let ghost ls2 = *self;
        let mut elems: Vec<Option<ExprOrSpread>> = Vec::new();
        let mut j: usize = 0;
        while j < self.exported_idents.len()
            invariant
                j <= self.exported_idents.len(),
                *self == ls2,
                elems@.len() == j,
                forall|k: int|
                    0 <= k < j ==> #[trigger] elems@[k] == Some(
                        ExprOrSpread {
                            spread: false,
                            expr: Expr::Id(self.exported_idents@[k].0),
                        },
                    ),
            decreases self.exported_idents.len() - j,
        {
            let b = self.exported_idents[j].0.clone();
            let ghost gb = b;
            elems.push(Some(ExprOrSpread { spread: false, expr: Expr::Id(b) }));
            proof {
                assert(elems@.last() == Some(
                    ExprOrSpread { spread: false, expr: Expr::Id(gb) },
                ));
            }
            j = j + 1;
        }
        let mut args: Vec<ExprOrSpread> = Vec::new();
        args.push(
            ExprOrSpread {
                spread: false,
                expr: Expr::Array { span: DUMMY_SP, elems },
            },
        );
        let ensure_call = ModuleItem::Stmt(
            Stmt::Expr {
                span: DUMMY_SP,
                expr: Expr::Call(
                    crate::ast::CallExpr {
                        span: DUMMY_SP,
                        pure: false,
                        callee: crate::ast::Callee::Expr(
                            Box::new(Expr::Id(ensure_ident)),
                        ),
                        args,
                    },
                ),
            },
        );
        let ghost gcall = ensure_call;
        proof {
            assert(is_ensure_call(gcall, gpairs, gctxt));
        }
        let ghost before_call = new_items@;
        new_items.push(ensure_call);
        proof {
            assert(new_items@ =~= before_call.push(gcall));
            assert(server_action_tail(new_items@, gpairs, salt, file, gctxt)) by {
                let out = new_items@;
                assert(out.len() == dbase + e + 2);
                assert(out[out.len() - 1] == gcall);
                assert(out[out.len() - 2] == gvalidate);
                assert forall|q: int| 0 <= q < e implies is_register_annotation(
                    #[trigger] out[out.len() - 2 - e + q],
                    gpairs[q].0,
                    action_id_chars(salt, file, gpairs[q].1@),
                    gctxt,
                ) by {
                    assert(out[dbase + q] == after_drain[dbase + q]);
                    assert(after_drain[dbase + q] == ModuleItem::Stmt(ganns[ann0.len() + q]));
                    assert(is_register_annotation_stmt(
                        ganns[ann0.len() + q],
                        gpairs[q].0,
                        action_id_chars(salt, file, gpairs[q].1@),
                        gctxt,
                    ));
                }
            }
        }
    }


    /// Builds the catalogue and the magic comment text for the actions
    /// this pass emitted: the id-sorted map over every hoisted action
    /// and, in an action file, every exported name.
    #[verifier::loop_isolation(false)]
    #[verifier::rlimit(100)]
    #[verifier::spinoff_prover]
    fn build_catalogue(&self) -> (r: (Option<String>, Vec<(String, String)>))
        ensures
            (r.0 is Some) == self.has_action,
            r.0 matches Some(c) ==> c@ == crate::catalogue::actions_comment_chars(
                crate::catalogue::pairs_v(r.1@),
            ),
            self.has_action ==> crate::catalogue::pairs_v(r.1@)
                == crate::catalogue::actions_map_of(
                catalogue_names(*self),
                self.config.hash_salt@,
                self.file_name@,
            ),
            self.has_action ==> crate::catalogue::keys_sorted(crate::catalogue::pairs_v(r.1@)),
            self.has_action ==> forall|k: int|
                0 <= k < crate::catalogue::pairs_v(r.1@).len() ==> (
                #[trigger] crate::catalogue::pairs_v(r.1@)[k]).0 == action_id_chars(
                    self.config.hash_salt@,
                    self.file_name@,
                    crate::catalogue::pairs_v(r.1@)[k].1,
                ),
            !self.has_action ==> r.1@ == Seq::<(String, String)>::empty(),
    {
        let mut comment_opt: Option<String> = None;
        let mut actions_map: Vec<(String, String)> = Vec::new();
        if self.has_action {
            let mut names: Vec<String> = Vec::new();
            let mut i: usize = 0;
            proof {
                assert(strs_v(names@) =~= strs_v(self.export_actions@).take(0));
            }
            while i < self.export_actions.len()
                invariant
                    i <= self.export_actions.len(),
                    strs_v(names@) =~= strs_v(self.export_actions@).take(i as int),
                decreases self.export_actions.len() - i,
            {
                let n = self.export_actions[i].clone();
                let ghost gn = n;
                let ghost npre = names@;
                names.push(n);
                proof {
                    assert(strs_v(names@) =~= strs_v(npre).push(gn@));
                    assert(strs_v(self.export_actions@).take(i as int + 1) =~= strs_v(
                        self.export_actions@,
                    ).take(i as int).push(strs_v(self.export_actions@)[i as int]));
                    assert(strs_v(names@) =~= strs_v(self.export_actions@).take(i as int + 1));
                }
                i = i + 1;
            }
            proof {
                assert(strs_v(self.export_actions@).take(self.export_actions@.len() as int)
                    =~= strs_v(self.export_actions@));
            }
            if self.in_action_file {
                let mut j: usize = 0;
                while j < self.exported_idents.len()
                    invariant
                        j <= self.exported_idents.len(),
                        strs_v(names@) =~= strs_v(self.export_actions@) + exported_names_v(
                            self.exported_idents@,
                        ).take(j as int),
                    decreases self.exported_idents.len() - j,
                {
                    let n = self.exported_idents[j].1.clone();
                    let ghost gn = n;
                    let ghost npre = names@;
                    names.push(n);
                    proof {
                        assert(strs_v(names@) =~= strs_v(npre).push(gn@));
                        assert(gn@ == exported_names_v(self.exported_idents@)[j as int]);
                        assert(exported_names_v(self.exported_idents@).take(j as int + 1)
                            =~= exported_names_v(self.exported_idents@).take(j as int).push(
                            exported_names_v(self.exported_idents@)[j as int],
                        ));
                        assert(strs_v(names@) =~= strs_v(self.export_actions@)
                            + exported_names_v(self.exported_idents@).take(j as int + 1));
                    }
                    j = j + 1;
                }
                proof {
                    assert(exported_names_v(self.exported_idents@).take(
                        self.exported_idents@.len() as int,
                    ) =~= exported_names_v(self.exported_idents@));
                }
            }
            proof {
                assert(strs_v(names@) =~= catalogue_names(*self));
            }
            let map = crate::catalogue::build_actions_map(
                &names,
                &self.config.hash_salt,
                &self.file_name,
            );
            proof {
                crate::catalogue::lemma_actions_map_props(
                    strs_v(names@),
                    self.config.hash_salt@,
                    self.file_name@,
                );
                assert forall|k: int|
                    0 <= k < crate::catalogue::pairs_v(map@).len() implies (
                #[trigger] crate::catalogue::pairs_v(map@)[k]).0 == action_id_chars(
                    self.config.hash_salt@,
                    self.file_name@,
                    crate::catalogue::pairs_v(map@)[k].1,
                ) by {
                    assert(crate::catalogue::pairs_v(map@).contains(
                        crate::catalogue::pairs_v(map@)[k],
                    ));
                }
            }
            let comment = crate::catalogue::generate_server_actions_comment(&map);
            comment_opt = Some(comment);
            actions_map = map;
        }
        (comment_opt, actions_map)
    }

    /// Runs the pass over a module's items: scans the module
    /// directives, books and rewrites exports, visits every item, and
    /// assembles the output with hoisted definitions, annotations,
    /// imports, the catalogue, and the magic comment text.
    #[verifier::loop_isolation(false)]
    #[verifier::rlimit(100)]
    #[verifier::spinoff_prover]
    pub fn transform_module_items(&mut self, items: Vec<ModuleItem>) -> (r: (
        Vec<ModuleItem>,
        Option<String>,
        Vec<(String, String)>,
    ))
        requires
            old(self).names_wf(),
            old(self).annotations@.len() == 0,
        ensures
            final(self).config == old(self).config,
            final(self).file_name == old(self).file_name,
            final(self).private_ctxt == old(self).private_ctxt,
            (r.1 is Some) == final(self).has_action,
            r.1 matches Some(c) ==> c@ == crate::catalogue::actions_comment_chars(
                crate::catalogue::pairs_v(r.2@),
            ),
            final(self).has_action ==> crate::catalogue::pairs_v(r.2@)
                == crate::catalogue::actions_map_of(
                catalogue_names(*final(self)),
                final(self).config.hash_salt@,
                final(self).file_name@,
            ),
            final(self).has_action ==> crate::catalogue::keys_sorted(
                crate::catalogue::pairs_v(r.2@),
            ),
            final(self).has_action ==> forall|k: int|
                0 <= k < crate::catalogue::pairs_v(r.2@).len() ==> (
                #[trigger] crate::catalogue::pairs_v(r.2@)[k]).0 == action_id_chars(
                    final(self).config.hash_salt@,
                    final(self).file_name@,
                    crate::catalogue::pairs_v(r.2@)[k].1,
                ),
            !final(self).has_action ==> r.2@ == Seq::<(String, String)>::empty(),
            ({
                let pre = *old(self);
                let post = *final(self);
                let msc = crate::directive::scan_module_items(items@, pre.config.enabled, true);
                let server = pre.config.is_react_server_layer;
                let out = r.0@;
                &&& post.in_action_file == (pre.in_action_file || msc.set_action)
                &&& opt_str_v(post.in_cache_file) == (if msc.cache is Some {
                    msc.cache
                } else {
                    opt_str_v(pre.in_cache_file)
                })
                &&& ((pre.has_action || msc.set_action) ==> post.has_action)
                &&& ((pre.has_cache || (msc.cache is Some)) ==> post.has_cache)
                &&& diags_extended(pre.diags@ + msc.diags, post.diags@)
                &&& ((server && (post.has_action || post.has_cache)) ==> out.len() >= 2
                    && is_import_of(out[0], "private-next-rsc-server-reference"@) && is_import_of(
                    out[1],
                    "private-next-rsc-action-encryption"@,
                ))
                &&& ((server && (post.has_action || post.has_cache) && post.has_cache) ==> out.len()
                    >= 3 && is_import_of(out[2], "private-next-rsc-cache-wrapper"@))
                &&& ((!server && post.has_cache) ==> out.len() >= 1 && is_import_of(
                    out[0],
                    "private-next-rsc-cache-wrapper"@,
                ))
                &&& ((!server && post.in_action_file && !post.has_cache) ==> out.len() >= 1
                    && is_import_of(out[0], "private-next-rsc-action-client-wrapper"@))
                &&& ((!server && post.in_action_file && post.has_cache) ==> out.len() >= 2
                    && is_import_of(out[1], "private-next-rsc-action-client-wrapper"@))
                &&& ((server && post.in_action_file) ==> server_action_tail(
                    out,
                    post.exported_idents@,
                    post.config.hash_salt@,
                    post.file_name@,
                    post.private_ctxt,
                ))
                &&& ((!server && post.in_action_file) ==> client_reexport_tail(
                    out,
                    post.exported_idents@,
                    post.config.hash_salt@,
                    post.file_name@,
                    post.private_ctxt,
                ))
            }),
    {
        let enabled = self.config.enabled;
        let server_layer = self.config.is_react_server_layer;
        let mut items = items;
        let ghost gitems = items@;
        let ghost msc = crate::directive::scan_module_items(gitems, enabled, true);
        let mut in_action_file = self.in_action_file;
        let mut in_cache_file: Option<String> = None;
        core::mem::swap(&mut in_cache_file, &mut self.in_cache_file);
        let mut has_action = self.has_action;
        let mut has_cache = self.has_cache;
        let mut diags: Vec<Diag> = Vec::new();
        core::mem::swap(&mut diags, &mut self.diags);
        crate::directive::remove_server_directive_index_in_module(
            &mut items,
            &mut in_action_file,
            &mut in_cache_file,
            &mut has_action,
            &mut has_cache,
            enabled,
            &mut diags,
        );
        self.in_action_file = in_action_file;
        core::mem::swap(&mut self.in_cache_file, &mut in_cache_file);
        self.has_action = has_action;
        self.has_cache = has_cache;
        core::mem::swap(&mut self.diags, &mut diags);
        let ghost sia = self.in_action_file;
        let ghost sic = opt_str_v(self.in_cache_file);
        let ghost dscan = self.diags@;
        proof {
            assert(sia == (old(self).in_action_file || msc.set_action));
            assert(sic == (if msc.cache is Some {
                msc.cache
            } else {
                opt_str_v(old(self).in_cache_file)
            }));
            assert(dscan =~= old(self).diags@ + msc.diags);
            assert((old(self).has_action || msc.set_action) ==> self.has_action);
            assert((old(self).has_cache || (msc.cache is Some)) ==> self.has_cache);
        }
        let mut new_items: Vec<ModuleItem> = Vec::new();
        let mut rest = items;
        while rest.len() > 0
            invariant
                self.names_wf(),
                self.config == old(self).config,
                self.file_name == old(self).file_name,
                self.private_ctxt == old(self).private_ctxt,
                self.in_action_file == sia,
                opt_str_v(self.in_cache_file) == sic,
                ((old(self).has_action || msc.set_action) ==> self.has_action),
                ((old(self).has_cache || (msc.cache is Some)) ==> self.has_cache),
                diags_extended(dscan, self.diags@),
                self.annotations@.len() == 0,
            decreases rest.len(),
        {
            let mut item = rest.remove(0);
            let in_cache_now = match &self.in_cache_file {
                Some(_) => true,
                None => false,
            };
            if self.in_action_file || in_cache_now {
                self.note_exports(&mut item);
            }
            let item2 = self.transform_module_item(item);
            proof {
                assert(diags_extended(dscan, self.diags@));
            }
            if self.config.is_react_server_layer || !self.in_action_file {
                let mut hoisted: Vec<ModuleItem> = Vec::new();
                core::mem::swap(&mut hoisted, &mut self.hoisted_extra_items);
                new_items.append(&mut hoisted);
                new_items.push(item2);
                let mut anns: Vec<Stmt> = Vec::new();
                core::mem::swap(&mut anns, &mut self.annotations);
                let mut rest_a = anns;
                while rest_a.len() > 0
                    decreases rest_a.len(),
                {
                    let a = rest_a.remove(0);
                    new_items.push(ModuleItem::Stmt(a));
                }
                let mut extra: Vec<ModuleItem> = Vec::new();
                core::mem::swap(&mut extra, &mut self.extra_items);
                new_items.append(&mut extra);
            }
        }
        let ghost salt = self.config.hash_salt@;
        let ghost file = self.file_name@;
        let ghost gctxt = self.private_ctxt;
        let ghost gpairs = self.exported_idents@;
        let ghost e = gpairs.len() as int;
        if self.in_action_file {
            if !self.config.is_react_server_layer {
                self.emit_client_reexports(&mut new_items);
            } else {
                self.emit_server_action_exports(&mut new_items);
            }
        }
        let catalogue = self.build_catalogue();
        let comment_opt = catalogue.0;
        let actions_map = catalogue.1;
        if self.has_cache {
            let mut specs: Vec<crate::ast::ImportSpecifier> = Vec::new();
            specs.push(
                crate::ast::ImportSpecifier::Named {
                    local: Ident {
                        sym: String::from_str("$$cache__"),
                        span: DUMMY_SP,
                        ctxt: self.private_ctxt,
                    },
                    imported: Some(
                        crate::ast::ModuleExportName::Ident(
                            Ident { sym: String::from_str("cache"), span: DUMMY_SP, ctxt: 0 },
                        ),
                    ),
                },
            );
            let cache_import = ModuleItem::Import(
                crate::ast::ImportDecl {
                    span: DUMMY_SP,
                    specifiers: specs,
                    src: StrLit {
                        value: String::from_str("private-next-rsc-cache-wrapper"),
                        span: DUMMY_SP,
                    },
                },
            );
            let ghost gcache = cache_import;
            let ghost before_ins = new_items@;
            new_items.insert(0, cache_import);
            proof {
                assert(new_items@ =~= seq![gcache] + before_ins);
                assert(is_import_of(new_items@[0], "private-next-rsc-cache-wrapper"@));
                if sia && !server_layer {
                    lemma_client_tail_prepend(before_ins, gcache, gpairs, salt, file, gctxt);
                }
                if sia && server_layer {
                    lemma_server_tail_prepend(before_ins, gcache, gpairs, salt, file, gctxt);
                }
            }
        }
        if (self.has_action || self.has_cache) && self.config.is_react_server_layer {
            let mut enc_specs: Vec<crate::ast::ImportSpecifier> = Vec::new();
            enc_specs.push(
                crate::ast::ImportSpecifier::Named {
                    local: Ident {
                        sym: String::from_str("encryptActionBoundArgs"),
                        span: DUMMY_SP,
                        ctxt: self.private_ctxt,
                    },
                    imported: None,
                },
            );
            enc_specs.push(
                crate::ast::ImportSpecifier::Named {
                    local: Ident {
                        sym: String::from_str("decryptActionBoundArgs"),
                        span: DUMMY_SP,
                        ctxt: self.private_ctxt,
                    },
                    imported: None,
                },
            );
            let enc_import = ModuleItem::Import(
                crate::ast::ImportDecl {
                    span: DUMMY_SP,
                    specifiers: enc_specs,
                    src: StrLit {
                        value: String::from_str("private-next-rsc-action-encryption"),
                        span: DUMMY_SP,
                    },
                },
            );
            let ghost genc = enc_import;
            let ghost before_enc = new_items@;
            new_items.insert(0, enc_import);
            proof {
                assert(new_items@ =~= seq![genc] + before_enc);
                if sia && server_layer {
                    lemma_server_tail_prepend(before_enc, genc, gpairs, salt, file, gctxt);
                }
            }
            let mut reg_specs: Vec<crate::ast::ImportSpecifier> = Vec::new();
            reg_specs.push(
                crate::ast::ImportSpecifier::Named {
                    local: Ident {
                        sym: String::from_str("registerServerReference"),
                        span: DUMMY_SP,
                        ctxt: self.private_ctxt,
                    },
                    imported: None,
                },
            );
            let reg_import = ModuleItem::Import(
                crate::ast::ImportDecl {
                    span: DUMMY_SP,
                    specifiers: reg_specs,
                    src: StrLit {
                        value: String::from_str("private-next-rsc-server-reference"),
                        span: DUMMY_SP,
                    },
                },
            );
            let ghost greg = reg_import;
            let ghost before_reg = new_items@;
            new_items.insert(0, reg_import);
            proof {
                assert(new_items@ =~= seq![greg] + before_reg);
                assert(is_import_of(new_items@[0], "private-next-rsc-server-reference"@));
                assert(is_import_of(new_items@[1], "private-next-rsc-action-encryption"@));
                if sia && server_layer {
                    lemma_server_tail_prepend(before_reg, greg, gpairs, salt, file, gctxt);
                }
            }
        }
        (new_items, comment_opt, actions_map)
    }
}

} // verus!
