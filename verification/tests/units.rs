//! Unit tests for the pass's building blocks.

use server_actions::actionid::generate_action_id;
use server_actions::ast::{
    CallExpr, Callee, Expr, Ident, Lit, MemberExpr, MemberProp, ModuleItem, ObjectPatProp,
    OptChainBase, OptChainExpr, Pat, Prop, PropName, PropOrSpread, Span, Stmt, StrLit,
};
use server_actions::catalogue::{build_actions_map, generate_server_actions_comment};
use server_actions::closure::{replace_in_expr, replace_in_prop};
use server_actions::diag::{Diag, DiagKind};
use server_actions::directive::{
    remove_server_directive_index_in_fn, remove_server_directive_index_in_module,
};
use server_actions::naming::{gen_action_ident, gen_arg_ident, gen_cache_ident};
use server_actions::qualname::{
    collect_idents_in_pat, ident_to_name, name_eq, name_to_expr, retain_names_from_declared_idents,
    try_expr_to_name, NamePart, QualName,
};
use server_actions::similar::detect_similar_strings;
use server_actions::strutil::{str_eq, str_lt, str_starts_with};
use sha1::{Digest, Sha1};
use std::collections::BTreeMap;

fn ident(sym: &str) -> Ident {
    Ident {
        sym: sym.to_string(),
        span: 0,
        ctxt: 0,
    }
}

fn member(obj: Expr, prop: &str) -> Expr {
    Expr::Member(MemberExpr {
        span: 0,
        obj: Box::new(obj),
        prop: MemberProp::Ident(prop.to_string()),
    })
}

#[test]
fn similar_strings_single_edit() {
    for typo in [
        "use servers",
        "use-server",
        "use sevrer",
        "use srever",
        "use servre",
        "user server",
    ] {
        assert!(detect_similar_strings(typo, "use server"), "{typo}");
    }
    assert!(!detect_similar_strings("use server", "use server"));
    assert!(!detect_similar_strings("use", "use server"));
    assert!(!detect_similar_strings("use cache", "use server"));
    assert!(detect_similar_strings("use cach", "use cache"));
    assert!(detect_similar_strings("", "a"));
    assert!(!detect_similar_strings("", ""));
}

#[test]
fn action_id_is_stable_lowercase_hex() {
    let id = generate_action_id("salt", "/app/x.js", "doIt");
    assert_eq!(id.len(), 40);
    assert!(id
        .chars()
        .all(|c| c.is_ascii_digit() || ('a'..='f').contains(&c)));
    // Equals the digest of salt ++ filename ++ ":" ++ name.
    let mut hasher = Sha1::new();
    hasher.update(b"salt/app/x.js:doIt");
    assert_eq!(id, hex::encode(hasher.finalize()));
    // Depends only on the three inputs.
    assert_eq!(id, generate_action_id("salt", "/app/x.js", "doIt"));
    assert_ne!(id, generate_action_id("salt2", "/app/x.js", "doIt"));
}

#[test]
fn fresh_names_count_up() {
    let mut cnt: u64 = 0;
    assert_eq!(gen_action_ident(&mut cnt), "$$RSC_SERVER_ACTION_0");
    assert_eq!(gen_cache_ident(&mut cnt), "$$RSC_SERVER_CACHE_1");
    assert_eq!(gen_action_ident(&mut cnt), "$$RSC_SERVER_ACTION_2");
    assert_eq!(cnt, 3);
    assert_eq!(gen_arg_ident(12), "$$ACTION_ARG_12");
    assert_eq!(gen_arg_ident(0), "$$ACTION_ARG_0");
}

#[test]
fn string_helpers() {
    assert!(str_eq("abc", "abc"));
    assert!(!str_eq("abc", "abd"));
    assert!(!str_eq("abc", "ab"));
    assert!(str_starts_with("use cache: remote", "use cache: "));
    assert!(!str_starts_with("use cache", "use cache: "));
    assert!(str_lt("abc", "abd"));
    assert!(str_lt("ab", "abc"));
    assert!(!str_lt("abc", "abc"));
    assert!(!str_lt("b", "abc"));
}

#[test]
fn actions_map_sorts_by_id_and_replaces_duplicates() {
    let names = vec!["beta".to_string(), "alpha".to_string(), "beta".to_string()];
    let map = build_actions_map(&names, &"s".to_string(), &"/f.js".to_string());
    assert_eq!(map.len(), 2);
    assert!(map[0].0 < map[1].0);
    let mut expected: Vec<(String, String)> = names
        .iter()
        .map(|n| (generate_action_id("s", "/f.js", n), n.clone()))
        .collect();
    expected.sort();
    expected.dedup();
    assert_eq!(map, expected);
}

#[test]
fn comment_text_matches_serde_json() {
    let names = vec!["f".to_string(), "g".to_string()];
    let map = build_actions_map(&names, &String::new(), &"/a.js".to_string());
    let comment = generate_server_actions_comment(&map);
    let tree: BTreeMap<String, String> = map.iter().cloned().collect();
    let expected = format!(
        " __next_internal_action_entry_do_not_use__ {} ",
        serde_json::to_string(&tree).unwrap()
    );
    assert_eq!(comment, expected);
}

#[test]
fn qualified_name_canonicalisation() {
    // a.b?.c canonicalises; a().b and a[b] do not.
    let chain = Expr::OptChain(OptChainExpr {
        span: 0,
        optional: true,
        base: Box::new(OptChainBase::Member(MemberExpr {
            span: 0,
            obj: Box::new(member(Expr::Id(ident("a")), "b")),
            prop: MemberProp::Ident("c".to_string()),
        })),
    });
    let name = try_expr_to_name(&chain).expect("a.b?.c is a qualified name");
    assert_eq!(name.sym, "a");
    assert_eq!(name.parts.len(), 2);
    assert_eq!(name.parts[0].prop, "b");
    assert!(name.parts[0].is_member);
    assert_eq!(name.parts[1].prop, "c");
    assert!(!name.parts[1].is_member);
    assert!(name.parts[1].optional);

    let call = Expr::Call(CallExpr {
        span: 0,
        pure: false,
        callee: Callee::Expr(Box::new(Expr::Id(ident("a")))),
        args: vec![],
    });
    assert!(try_expr_to_name(&member(call, "b")).is_none());
    let computed = Expr::Member(MemberExpr {
        span: 0,
        obj: Box::new(Expr::Id(ident("a"))),
        prop: MemberProp::Other,
    });
    assert!(try_expr_to_name(&computed).is_none());

    // Rebuilding the expression round-trips through canonicalisation.
    let rebuilt = name_to_expr(name.clone());
    let again = try_expr_to_name(&rebuilt).expect("the rebuilt expression is a qualified name");
    assert!(name_eq(&name, &again));
}

#[test]
fn pattern_bindings_are_collected() {
    // { key: [x, ...rest], other = 1 }
    let pat = Pat::Object {
        props: vec![
            ObjectPatProp::KeyValue {
                key: PropName::Ident("key".to_string()),
                value: Box::new(Pat::Array {
                    elems: vec![
                        Some(Pat::Id(ident("x"))),
                        Some(Pat::Rest {
                            arg: Box::new(Pat::Id(ident("rest"))),
                        }),
                    ],
                }),
            },
            ObjectPatProp::Assign {
                key: ident("other"),
                value: None,
            },
        ],
    };
    let mut out: Vec<Ident> = Vec::new();
    collect_idents_in_pat(&pat, &mut out);
    let names: Vec<&str> = out.iter().map(|i| i.sym.as_str()).collect();
    assert_eq!(names, vec!["key", "x", "rest", "other"]);
}

#[test]
fn retained_names_are_declared_uncovered_and_unique() {
    let a = ident_to_name(&ident("a"));
    let mut a_b = ident_to_name(&ident("a"));
    a_b.parts.push(NamePart {
        prop: "b".to_string(),
        is_member: true,
        optional: false,
    });
    let undeclared = ident_to_name(&ident("z"));
    let mut names: Vec<QualName> = vec![a_b.clone(), a.clone(), a.clone(), undeclared];
    let declared = vec![ident("a"), ident("z")];
    // Only the first two identifiers count as enclosing-scope declarations.
    retain_names_from_declared_idents(&mut names, &declared, 1);
    // `a` covers `a.b`; duplicates collapse; `z` is not declared in range.
    assert_eq!(names.len(), 1);
    assert!(name_eq(&names[0], &a));
}

#[test]
fn closure_rewriter_replaces_capture_uses() {
    let x = ident_to_name(&ident("x"));
    let mut a_b = ident_to_name(&ident("a"));
    a_b.parts.push(NamePart {
        prop: "b".to_string(),
        is_member: true,
        optional: false,
    });
    let used = vec![x, a_b];
    // x + a.b.c, with x and a.b captured
    let e = Expr::Other {
        span: 0,
        children: vec![
            Expr::Id(ident("x")),
            member(member(Expr::Id(ident("a")), "b"), "c"),
            Expr::Id(ident("y")),
        ],
    };
    let r = replace_in_expr(&e, &used, 7);
    match r {
        Expr::Other { children, .. } => {
            assert!(matches!(
                &children[0],
                Expr::Id(i) if i.sym == "$$ACTION_ARG_0" && i.ctxt == 7
            ));
            // a.b becomes the placeholder; the outer .c access stays.
            match &children[1] {
                Expr::Member(m) => {
                    assert!(matches!(&m.prop, MemberProp::Ident(p) if p == "c"));
                    assert!(matches!(
                        &*m.obj,
                        Expr::Id(i) if i.sym == "$$ACTION_ARG_1" && i.ctxt == 7
                    ));
                }
                _ => panic!("expected the member access to survive"),
            }
            assert!(matches!(&children[2], Expr::Id(i) if i.sym == "y"));
        }
        _ => panic!("expected the node shape to survive"),
    }
}

#[test]
fn closure_rewriter_expands_shorthand() {
    let used = vec![ident_to_name(&ident("x"))];
    let p = PropOrSpread::Prop(Prop::Shorthand(ident("x")));
    match replace_in_prop(&p, &used, 9) {
        PropOrSpread::Prop(Prop::KeyValue { key, value }) => {
            assert!(matches!(key, PropName::Ident(k) if k == "x"));
            assert!(matches!(value, Expr::Id(i) if i.sym == "$$ACTION_ARG_0" && i.ctxt == 9));
        }
        _ => panic!("expected the shorthand to become key-value"),
    }
    let other = PropOrSpread::Prop(Prop::Shorthand(ident("y")));
    assert!(matches!(
        replace_in_prop(&other, &used, 9),
        PropOrSpread::Prop(Prop::Shorthand(i)) if i.sym == "y"
    ));
}

#[test]
fn module_scan_sets_flags_and_removes_directives() {
    let mut items = vec![
        ModuleItem::Stmt(Stmt::Expr {
            span: 1,
            expr: Expr::Lit(Lit::Str(StrLit {
                value: "use server".to_string(),
                span: 1,
            })),
        }),
        ModuleItem::Stmt(Stmt::Expr {
            span: 2,
            expr: Expr::Lit(Lit::Str(StrLit {
                value: "use cache: remote".to_string(),
                span: 2,
            })),
        }),
        ModuleItem::Stmt(Stmt::Expr {
            span: 3,
            expr: Expr::Lit(Lit::Other { span: 3 }),
        }),
    ];
    let mut in_action_file = false;
    let mut in_cache_file: Option<String> = None;
    let mut has_action = false;
    let mut has_cache = false;
    let mut diags: Vec<Diag> = Vec::new();
    remove_server_directive_index_in_module(
        &mut items,
        &mut in_action_file,
        &mut in_cache_file,
        &mut has_action,
        &mut has_cache,
        true,
        &mut diags,
    );
    assert!(in_action_file && has_action && has_cache);
    assert_eq!(in_cache_file.as_deref(), Some("remote"));
    assert!(diags.is_empty());
    assert_eq!(items.len(), 1);
}

#[test]
fn misplaced_fn_directive_is_reported_and_kept() {
    let mut stmts = vec![
        Stmt::Expr {
            span: 1,
            expr: Expr::Lit(Lit::Other { span: 1 }),
        },
        Stmt::Expr {
            span: 2,
            expr: Expr::Lit(Lit::Str(StrLit {
                value: "use server".to_string(),
                span: 2,
            })),
        },
    ];
    let mut is_action = false;
    let mut cache: Option<String> = None;
    let mut span: Option<Span> = None;
    let mut diags: Vec<Diag> = Vec::new();
    remove_server_directive_index_in_fn(
        &mut stmts,
        &mut is_action,
        &mut cache,
        &mut span,
        true,
        &mut diags,
    );
    assert!(!is_action);
    assert!(cache.is_none());
    assert_eq!(span, Some(2));
    assert_eq!(stmts.len(), 2);
    assert_eq!(
        diags,
        vec![Diag {
            span: 2,
            kind: DiagKind::ServerDirectiveNotTopOfFn
        }]
    );
    assert_eq!(
        diags[0].message(),
        "The \"use server\" directive must be at the top of the function body."
    );
}

#[test]
fn feature_disabled_is_reported() {
    let mut items = vec![ModuleItem::Stmt(Stmt::Expr {
        span: 1,
        expr: Expr::Lit(Lit::Str(StrLit {
            value: "use server".to_string(),
            span: 1,
        })),
    })];
    let mut in_action_file = false;
    let mut in_cache_file: Option<String> = None;
    let mut has_action = false;
    let mut has_cache = false;
    let mut diags: Vec<Diag> = Vec::new();
    remove_server_directive_index_in_module(
        &mut items,
        &mut in_action_file,
        &mut in_cache_file,
        &mut has_action,
        &mut has_cache,
        false,
        &mut diags,
    );
    assert!(in_action_file);
    assert_eq!(
        diags,
        vec![Diag {
            span: 1,
            kind: DiagKind::FeatureDisabled
        }]
    );
}
