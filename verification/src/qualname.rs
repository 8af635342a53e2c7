//! Qualified names: a base identifier plus an ordered list of plain
//! property accesses. Expressions with computed, call, or non-identifier
//! parts refuse canonicalisation. Also the collection of identifiers
//! bound by patterns and the filter that keeps only genuine captures.

use vstd::prelude::*;
use crate::ast::Expr;
use crate::ast::Ident;
use crate::ast::MemberExpr;
use crate::ast::MemberProp;
use crate::ast::ObjectPatProp;
use crate::ast::OptChainBase;
use crate::ast::OptChainExpr;
use crate::ast::Pat;
use crate::ast::PropName;
use crate::ast::VarDeclarator;
use crate::ast::DUMMY_SP;
use crate::strutil::str_eq;

verus! {

/// One property access of a qualified name.
#[derive(Debug, PartialEq, Eq)]
pub struct NamePart {
    pub prop: String,
    /// True for `a.b`, false for the optional-chain form `a?.b`.
    pub is_member: bool,
    pub optional: bool,
}

impl Clone for NamePart {
    fn clone(&self) -> (r: Self)
        ensures
            r == *self,
    {
        NamePart { prop: self.prop.clone(), is_member: self.is_member, optional: self.optional }
    }
}

/// A qualified name: base identifier (symbol and hygiene context) and
/// its property accesses.
#[derive(Debug, PartialEq, Eq)]
pub struct QualName {
    pub sym: String,
    pub ctxt: u32,
    pub parts: Vec<NamePart>,
}

impl Clone for QualName {
    fn clone(&self) -> (r: Self)
        ensures
            qn_v(r) == qn_v(*self),
    {
        let mut parts: Vec<NamePart> = Vec::new();
        let mut i: usize = 0;
        while i < self.parts.len()
            invariant
                i <= self.parts.len(),
                parts@ =~= self.parts@.subrange(0, i as int),
            decreases self.parts.len() - i,
        {
            parts.push(self.parts[i].clone());
            i = i + 1;
        }
        proof {
            assert(parts@ =~= self.parts@);
            assert(qn_v(QualName { sym: self.sym, ctxt: self.ctxt, parts }) =~= qn_v(*self));
        }
        QualName { sym: self.sym.clone(), ctxt: self.ctxt, parts }
    }
}

/// The mathematical value of one name part.
#[verifier::ext_equal]
pub ghost struct PartV {
    pub prop: Seq<char>,
    pub is_member: bool,
    pub optional: bool,
}

/// The mathematical value of a qualified name.
#[verifier::ext_equal]
pub ghost struct QualNameV {
    pub sym: Seq<char>,
    pub ctxt: u32,
    pub parts: Seq<PartV>,
}

pub open spec fn part_v(p: NamePart) -> PartV {
    PartV { prop: p.prop@, is_member: p.is_member, optional: p.optional }
}

pub open spec fn parts_v(s: Seq<NamePart>) -> Seq<PartV> {
    s.map_values(|p: NamePart| part_v(p))
}

pub open spec fn qn_v(n: QualName) -> QualNameV {
    QualNameV { sym: n.sym@, ctxt: n.ctxt, parts: parts_v(n.parts@) }
}

pub open spec fn names_v(s: Seq<QualName>) -> Seq<QualNameV> {
    s.map_values(|n: QualName| qn_v(n))
}

/// The identity of an identifier: symbol and hygiene context, without
/// its position.
pub open spec fn ident_id(i: Ident) -> (Seq<char>, u32) {
    (i.sym@, i.ctxt)
}

pub open spec fn idents_v(s: Seq<Ident>) -> Seq<(Seq<char>, u32)> {
    s.map_values(|i: Ident| ident_id(i))
}

/// The qualified name of a bare identifier.
pub open spec fn ident_name_v(i: Ident) -> QualNameV {
    QualNameV { sym: i.sym@, ctxt: i.ctxt, parts: Seq::empty() }
}

/// A part as canonicalisation produces it: a plain member access never
/// carries the optional flag.
pub open spec fn wf_part(p: PartV) -> bool {
    p.is_member ==> !p.optional
}

/// Every part of the name is as canonicalisation produces it.
pub open spec fn wf_name(q: QualNameV) -> bool {
    forall|i: int| 0 <= i < q.parts.len() ==> wf_part(#[trigger] q.parts[i])
}

/// Canonicalises an expression to a qualified name, when it is an
/// identifier or a chain of plain (optionally optional) member accesses.
pub open spec fn expr_as_name(e: Expr) -> Option<QualNameV>
    decreases e,
{
    match e {
        Expr::Id(i) => Some(ident_name_v(i)),
        Expr::Member(m) => member_as_name(m),
        Expr::OptChain(o) => optchain_as_name(o),
        _ => None,
    }
}

pub open spec fn member_as_name(m: MemberExpr) -> Option<QualNameV>
    decreases m,
{
    match m.prop {
        MemberProp::Ident(p) => match expr_as_name(*m.obj) {
            Some(q) => Some(
                QualNameV {
                    sym: q.sym,
                    ctxt: q.ctxt,
                    parts: q.parts.push(PartV { prop: p@, is_member: true, optional: false }),
                },
            ),
            None => None,
        },
        MemberProp::Other => None,
    }
}

pub open spec fn optchain_as_name(o: OptChainExpr) -> Option<QualNameV>
    decreases o,
{
    match *o.base {
        OptChainBase::Member(m) => match m.prop {
            MemberProp::Ident(p) => match expr_as_name(*m.obj) {
                Some(q) => Some(
                    QualNameV {
                        sym: q.sym,
                        ctxt: q.ctxt,
                        parts: q.parts.push(
                            PartV { prop: p@, is_member: false, optional: o.optional },
                        ),
                    },
                ),
                None => None,
            },
            MemberProp::Other => None,
        },
        OptChainBase::Call { .. } => None,
    }
}

/// Canonicalisation only produces well-formed names.
pub proof fn lemma_expr_as_name_wf(e: Expr)
    ensures
        expr_as_name(e) matches Some(q) ==> wf_name(q),
    decreases e,
{
    match e {
        Expr::Member(m) => {
            match m.prop {
                MemberProp::Ident(p) => {
                    lemma_expr_as_name_wf(*m.obj);
                    match expr_as_name(*m.obj) {
                        Some(q) => {
                            let part = PartV { prop: p@, is_member: true, optional: false };
                            assert forall|i: int|
                                0 <= i < q.parts.push(part).len() implies wf_part(
                                #[trigger] q.parts.push(part)[i],
                            ) by {
                                if i < q.parts.len() {
                                    assert(q.parts.push(part)[i] == q.parts[i]);
                                }
                            }
                        },
                        None => {},
                    }
                },
                MemberProp::Other => {},
            }
        },
        Expr::OptChain(o) => {
            match *o.base {
                OptChainBase::Member(m) => {
                    match m.prop {
                        MemberProp::Ident(p) => {
                            lemma_expr_as_name_wf(*m.obj);
                            match expr_as_name(*m.obj) {
                                Some(q) => {
                                    let part = PartV {
                                        prop: p@,
                                        is_member: false,
                                        optional: o.optional,
                                    };
                                    assert forall|i: int|
                                        0 <= i < q.parts.push(part).len() implies wf_part(
                                        #[trigger] q.parts.push(part)[i],
                                    ) by {
                                        if i < q.parts.len() {
                                            assert(q.parts.push(part)[i] == q.parts[i]);
                                        }
                                    }
                                },
                                None => {},
                            }
                        },
                        MemberProp::Other => {},
                    }
                },
                OptChainBase::Call { .. } => {},
            }
        },
        _ => {},
    }
}

/// The qualified name of an expression, or `None` where the expression
/// has computed, call, or non-identifier parts.
pub fn try_expr_to_name(e: &Expr) -> (r: Option<QualName>)
    ensures
        (r is Some) == (expr_as_name(*e) is Some),
        r matches Some(n) ==> expr_as_name(*e) == Some(qn_v(n)),
        r matches Some(n) ==> wf_name(qn_v(n)),
    decreases *e,
{
    proof {
        lemma_expr_as_name_wf(*e);
    }
    match e {
        Expr::Id(i) => Some(QualName { sym: i.sym.clone(), ctxt: i.ctxt, parts: Vec::new() }),
        Expr::Member(m) => match &m.prop {
            MemberProp::Ident(p) => match try_expr_to_name(&m.obj) {
                Some(mut q) => {
                    q.parts.push(
                        NamePart { prop: p.clone(), is_member: true, optional: false },
                    );
                    proof {
                        assert(parts_v(q.parts@) =~= expr_as_name(*m.obj)->Some_0.parts.push(
                            PartV { prop: p@, is_member: true, optional: false },
                        ));
                    }
                    Some(q)
                },
                None => None,
            },
            MemberProp::Other => None,
        },
        Expr::OptChain(o) => match &*o.base {
            OptChainBase::Member(m) => match &m.prop {
                MemberProp::Ident(p) => match try_expr_to_name(&m.obj) {
                    Some(mut q) => {
                        q.parts.push(
                            NamePart { prop: p.clone(), is_member: false, optional: o.optional },
                        );
                        proof {
                            assert(parts_v(q.parts@) =~= expr_as_name(*m.obj)->Some_0.parts.push(
                                PartV { prop: p@, is_member: false, optional: o.optional },
                            ));
                        }
                        Some(q)
                    },
                    None => None,
                },
                MemberProp::Other => None,
            },
            OptChainBase::Call { .. } => None,
        },
        _ => None,
    }
}

/// The qualified name of a bare identifier.
pub fn ident_to_name(i: &Ident) -> (r: QualName)
    ensures
        qn_v(r) == ident_name_v(*i),
        wf_name(qn_v(r)),
{
    let r = QualName { sym: i.sym.clone(), ctxt: i.ctxt, parts: Vec::new() };
    proof {
        assert(qn_v(r) =~= ident_name_v(*i));
    }
    r
}

/// Whether two qualified names denote the same binding and accesses.
pub fn name_eq(a: &QualName, b: &QualName) -> (r: bool)
    ensures
        r == (qn_v(*a) == qn_v(*b)),
{
    if !str_eq(a.sym.as_str(), b.sym.as_str()) {
        return false;
    }
    if a.ctxt != b.ctxt {
        return false;
    }
    if a.parts.len() != b.parts.len() {
        proof {
            assert(parts_v(a.parts@).len() != parts_v(b.parts@).len());
        }
        return false;
    }
    let mut i: usize = 0;
    while i < a.parts.len()
        invariant
            i <= a.parts.len(),
            a.parts.len() == b.parts.len(),
            forall|j: int| 0 <= j < i ==> parts_v(a.parts@)[j] == parts_v(b.parts@)[j],
        decreases a.parts.len() - i,
    {
        let pa = &a.parts[i];
        let pb = &b.parts[i];
        if !str_eq(pa.prop.as_str(), pb.prop.as_str()) || pa.is_member != pb.is_member
            || pa.optional != pb.optional {
            proof {
                assert(parts_v(a.parts@)[i as int] != parts_v(b.parts@)[i as int]);
            }
            return false;
        }
        proof {
            assert(parts_v(a.parts@)[i as int] =~= parts_v(b.parts@)[i as int]);
        }
        i = i + 1;
    }
    proof {
        assert(parts_v(a.parts@) =~= parts_v(b.parts@));
        assert(qn_v(*a) =~= qn_v(*b));
    }
    true
}

/// Rebuilds the expression a qualified name stands for: the base
/// identifier wrapped in its member or optional-chain accesses.
#[verifier::loop_isolation(false)]
pub fn name_to_expr(n: QualName) -> (r: Expr)
    requires
        wf_name(qn_v(n)),
    ensures
        expr_as_name(r) == Some(qn_v(n)),
{
    let QualName { sym, ctxt, mut parts } = n;
    let ghost all_parts = parts_v(parts@);
    let mut expr = Expr::Id(Ident { sym, span: DUMMY_SP, ctxt });
    let mut k: usize = 0;
    proof {
        assert(expr_as_name(expr)->Some_0.parts =~= all_parts.take(0));
    }
    let len = parts.len();
    while k < len
        invariant
            k <= len,
            len == parts.len(),
            parts_v(parts@) == all_parts,
            expr_as_name(expr) matches Some(q) && q.sym == qn_v(n).sym && q.ctxt == qn_v(n).ctxt
                && q.parts == all_parts.take(k as int),
        decreases len - k,
    {
        let NamePart { prop, is_member, optional } = parts[k].clone();
        if is_member {
            expr = Expr::Member(
                MemberExpr {
                    span: DUMMY_SP,
                    obj: Box::new(expr),
                    prop: MemberProp::Ident(prop),
                },
            );
        } else {
            expr = Expr::OptChain(
                OptChainExpr {
                    span: DUMMY_SP,
                    optional,
                    base: Box::new(
                        OptChainBase::Member(
                            MemberExpr {
                                span: DUMMY_SP,
                                obj: Box::new(expr),
                                prop: MemberProp::Ident(prop),
                            },
                        ),
                    ),
                },
            );
        }
        proof {
            assert(all_parts.take(k as int + 1) =~= all_parts.take(k as int).push(
                all_parts[k as int],
            ));
            assert(all_parts == qn_v(n).parts);
            assert(wf_part(qn_v(n).parts[k as int]));
            assert(expr_as_name(expr)->Some_0.parts =~= all_parts.take(k as int + 1));
        }
        k = k + 1;
    }
    proof {
        assert(all_parts.take(len as int) =~= all_parts);
        assert(expr_as_name(expr)->Some_0 =~= qn_v(n));
    }
    expr
}


/// Identifiers bound by a pattern, in collection order.
pub open spec fn pat_ids(p: Pat) -> Seq<(Seq<char>, u32)>
    decreases p,
{
    match p {
        Pat::Id(i) => seq![ident_id(i)],
        Pat::Array { elems } => array_pat_ids(elems@),
        Pat::Object { props } => object_pat_ids(props@),
        Pat::Assign { left, .. } => pat_ids(*left),
        Pat::Rest { arg } => match *arg {
            Pat::Id(i) => seq![ident_id(i)],
            _ => Seq::empty(),
        },
        Pat::Expr(_) => Seq::empty(),
        Pat::Invalid => Seq::empty(),
    }
}

/// Identifiers bound by the elements of an array pattern.
pub open spec fn array_pat_ids(elems: Seq<Option<Pat>>) -> Seq<(Seq<char>, u32)>
    decreases elems,
{
    if elems.len() == 0 {
        Seq::empty()
    } else {
        array_pat_ids(elems.drop_last()) + match elems.last() {
            Some(p) => pat_ids(p),
            None => Seq::empty(),
        }
    }
}

/// The key of a key-value object-pattern member, as a binding with an
/// empty hygiene context, when it is a plain name.
pub open spec fn object_key_ids(p: ObjectPatProp) -> Seq<(Seq<char>, u32)> {
    match p {
        ObjectPatProp::KeyValue { key, .. } => match key {
            PropName::Ident(s) => seq![(s@, 0u32)],
            PropName::Other => Seq::empty(),
        },
        _ => Seq::empty(),
    }
}

/// Identifiers one member of an object pattern contributes.
pub open spec fn object_pat_step_ids(p: ObjectPatProp) -> Seq<(Seq<char>, u32)>
    decreases p,
{
    match p {
        ObjectPatProp::KeyValue { value, .. } => object_key_ids(p) + kv_value_ids(*value),
        ObjectPatProp::Assign { key, .. } => seq![ident_id(key)],
        ObjectPatProp::Rest { arg } => match *arg {
            Pat::Id(i) => seq![ident_id(i)],
            _ => Seq::empty(),
        },
    }
}

/// Identifiers bound by the members of an object pattern. A key-value
/// member contributes its plain key (with an empty hygiene context) and
/// the bindings of a plain, array, or object value pattern.
pub open spec fn object_pat_ids(props: Seq<ObjectPatProp>) -> Seq<(Seq<char>, u32)>
    decreases props,
{
    if props.len() == 0 {
        Seq::empty()
    } else {
        object_pat_ids(props.drop_last()) + object_pat_step_ids(props.last())
    }
}

/// Identifiers bound by the value of a key-value object-pattern member;
/// only plain, array, and object values contribute.
pub open spec fn kv_value_ids(p: Pat) -> Seq<(Seq<char>, u32)>
    decreases p,
{
    match p {
        Pat::Id(i) => seq![ident_id(i)],
        Pat::Array { elems } => array_pat_ids(elems@),
        Pat::Object { props } => object_pat_ids(props@),
        _ => Seq::empty(),
    }
}

/// Identifiers bound by the declarators of a variable declaration.
pub open spec fn var_decls_ids(decls: Seq<VarDeclarator>) -> Seq<(Seq<char>, u32)>
    decreases decls,
{
    if decls.len() == 0 {
        Seq::empty()
    } else {
        var_decls_ids(decls.drop_last()) + pat_ids(decls.last().name)
    }
}

/// Collects the identifiers a pattern binds, in order, onto `idents`.
#[verifier::loop_isolation(false)]
pub fn collect_idents_in_pat(pat: &Pat, idents: &mut Vec<Ident>)
    ensures
        idents_v(final(idents)@) == idents_v(old(idents)@) + pat_ids(*pat),
        old(idents)@.len() <= final(idents)@.len(),
    decreases *pat,
{
    let ghost pre = idents@;
    match pat {
        Pat::Id(i) => {
            idents.push(i.clone());
        },
        Pat::Array { elems } => {
            collect_idents_in_array_pat(elems, idents);
        },
        Pat::Object { props } => {
            collect_idents_in_object_pat(props, idents);
        },
        Pat::Assign { left, .. } => {
            collect_idents_in_pat(left, idents);
        },
        Pat::Rest { arg } => {
            match &**arg {
                Pat::Id(i) => {
                    idents.push(i.clone());
                },
                _ => {},
            }
        },
        Pat::Expr(_) => {},
        Pat::Invalid => {},
    }
    proof {
        assert(idents_v(idents@) =~= idents_v(pre) + pat_ids(*pat));
    }
}

/// Collects the identifiers the elements of an array pattern bind.
#[verifier::loop_isolation(false)]
pub fn collect_idents_in_array_pat(elems: &Vec<Option<Pat>>, idents: &mut Vec<Ident>)
    ensures
        idents_v(final(idents)@) == idents_v(old(idents)@) + array_pat_ids(elems@),
        old(idents)@.len() <= final(idents)@.len(),
    decreases *elems,
{
    let ghost pre = idents@;
    let mut i: usize = 0;
    while i < elems.len()
        invariant
            i <= elems.len(),
            idents_v(idents@) == idents_v(pre) + array_pat_ids(elems@.take(i as int)),
        decreases elems.len() - i,
    {
        proof {
            assert(elems@.take(i as int + 1).drop_last() =~= elems@.take(i as int));
            assert(elems@.take(i as int + 1).last() == elems@[i as int]);
        }
        match &elems[i] {
            Some(p) => {
                collect_idents_in_pat(p, idents);
            },
            None => {},
        }
        proof {
            assert(idents_v(idents@) =~= idents_v(pre) + array_pat_ids(
                elems@.take(i as int + 1),
            ));
        }
        i = i + 1;
    }
    proof {
        assert(elems@.take(elems@.len() as int) =~= elems@);
    }
}

/// Collects the identifiers the members of an object pattern bind.
#[verifier::loop_isolation(false)]
pub fn collect_idents_in_object_pat(props: &Vec<ObjectPatProp>, idents: &mut Vec<Ident>)
    ensures
        idents_v(final(idents)@) == idents_v(old(idents)@) + object_pat_ids(props@),
        old(idents)@.len() <= final(idents)@.len(),
    decreases *props,
{
    let ghost pre = idents@;
    let mut i: usize = 0;
    while i < props.len()
        invariant
            i <= props.len(),
            idents_v(idents@) == idents_v(pre) + object_pat_ids(props@.take(i as int)),
        decreases props.len() - i,
    {
        proof {
            assert(props@.take(i as int + 1).drop_last() =~= props@.take(i as int));
            assert(props@.take(i as int + 1).last() == props@[i as int]);
        }
        let ghost step_pre = idents@;
        match &props[i] {
            ObjectPatProp::KeyValue { key, value } => {
                match key {
                    PropName::Ident(s) => {
                        idents.push(Ident { sym: s.clone(), span: DUMMY_SP, ctxt: 0 });
                    },
                    PropName::Other => {},
                }
                proof {
                    assert(idents_v(idents@) =~= idents_v(step_pre) + object_key_ids(
                        props@[i as int],
                    ));
                }
                let ghost mid = idents@;
                match &**value {
                    Pat::Id(i2) => {
                        idents.push(i2.clone());
                    },
                    Pat::Array { elems } => {
                        collect_idents_in_array_pat(elems, idents);
                    },
                    Pat::Object { props: inner } => {
                        collect_idents_in_object_pat(inner, idents);
                    },
                    _ => {},
                }
                proof {
                    assert(idents_v(idents@) =~= idents_v(mid) + kv_value_ids(**value));
                    assert(object_pat_step_ids(props@[i as int]) == object_key_ids(
                        props@[i as int],
                    ) + kv_value_ids(**value));
                    assert(idents_v(idents@) =~= idents_v(step_pre) + object_pat_step_ids(
                        props@[i as int],
                    ));
                }
            },
            ObjectPatProp::Assign { key, .. } => {
                idents.push(key.clone());
                proof {
                    assert(idents_v(idents@) =~= idents_v(step_pre) + object_pat_step_ids(
                        props@[i as int],
                    ));
                }
            },
            ObjectPatProp::Rest { arg } => {
                match &**arg {
                    Pat::Id(i2) => {
                        idents.push(i2.clone());
                    },
                    _ => {},
                }
                proof {
                    assert(idents_v(idents@) =~= idents_v(step_pre) + object_pat_step_ids(
                        props@[i as int],
                    ));
                }
            },
        }
        proof {
            assert(object_pat_ids(props@.take(i as int + 1)) == object_pat_ids(
                props@.take(i as int),
            ) + object_pat_step_ids(props@[i as int]));
            assert(idents_v(idents@) =~= idents_v(pre) + object_pat_ids(
                props@.take(i as int + 1),
            ));
        }
        i = i + 1;
    }
    proof {
        assert(props@.take(props@.len() as int) =~= props@);
    }
}

/// Collects the identifiers bound by the declarators of a variable
/// declaration.
#[verifier::loop_isolation(false)]
pub fn collect_idents_in_var_decls(decls: &Vec<VarDeclarator>, idents: &mut Vec<Ident>)
    ensures
        idents_v(final(idents)@) == idents_v(old(idents)@) + var_decls_ids(decls@),
        old(idents)@.len() <= final(idents)@.len(),
    decreases *decls,
{
    let ghost pre = idents@;
    let mut i: usize = 0;
    while i < decls.len()
        invariant
            i <= decls.len(),
            idents_v(idents@) == idents_v(pre) + var_decls_ids(decls@.take(i as int)),
        decreases decls.len() - i,
    {
        proof {
            assert(decls@.take(i as int + 1).drop_last() =~= decls@.take(i as int));
            assert(decls@.take(i as int + 1).last() == decls@[i as int]);
        }
        collect_idents_in_pat(&decls[i].name, idents);
        proof {
            assert(idents_v(idents@) =~= idents_v(pre) + var_decls_ids(
                decls@.take(i as int + 1),
            ));
        }
        i = i + 1;
    }
    proof {
        assert(decls@.take(decls@.len() as int) =~= decls@);
    }
}


/// Whether `m` properly covers `n`: a different name with the same base
/// whose parts are a prefix of `n`'s.
pub open spec fn is_proper_cover(m: QualNameV, n: QualNameV) -> bool {
    m != n && m.sym == n.sym && m.ctxt == n.ctxt && m.parts.len() <= n.parts.len()
        && m.parts == n.parts.subrange(0, m.parts.len() as int)
}

/// Whether some name of `names` properly covers `n`.
pub open spec fn covered_by(names: Seq<QualNameV>, n: QualNameV) -> bool {
    exists|j: int| 0 <= j < names.len() && is_proper_cover(#[trigger] names[j], n)
}


/// Whether the `j`-th observed name survives the filter: its base is
/// declared, no observed name properly covers it, and it is the first
/// occurrence of its value.
pub open spec fn retained_at(
    all: Seq<QualNameV>,
    declared: Seq<(Seq<char>, u32)>,
    j: int,
) -> bool {
    &&& declared.contains((all[j].sym, all[j].ctxt))
    &&& !covered_by(all, all[j])
    &&& (forall|j2: int| 0 <= j2 < j ==> all[j2] != all[j])
}

/// The survivors of the first `i` observed names, in first-occurrence
/// order.
pub open spec fn retained_prefix(
    all: Seq<QualNameV>,
    declared: Seq<(Seq<char>, u32)>,
    i: int,
) -> Seq<QualNameV>
    decreases i,
{
    if i <= 0 {
        Seq::empty()
    } else {
        retained_prefix(all, declared, i - 1) + (if retained_at(all, declared, i - 1) {
            seq![all[i - 1]]
        } else {
            Seq::empty()
        })
    }
}

/// Membership in the survivor list is survival of some earlier index.
proof fn lemma_retained_prefix_membership(
    all: Seq<QualNameV>,
    declared: Seq<(Seq<char>, u32)>,
    i: int,
    v: QualNameV,
)
    requires
        i >= 0,
    ensures
        retained_prefix(all, declared, i).contains(v) <==> exists|j: int|
            0 <= j < i && #[trigger] all[j] == v && retained_at(all, declared, j),
    decreases i,
{
    if i > 0 {
        lemma_retained_prefix_membership(all, declared, i - 1, v);
        let prev = retained_prefix(all, declared, i - 1);
        let cur = retained_prefix(all, declared, i);
        if retained_at(all, declared, i - 1) {
            assert(cur =~= prev.push(all[i - 1]));
        } else {
            assert(cur =~= prev);
        }
        if cur.contains(v) {
            let w = choose|w: int| 0 <= w < cur.len() && cur[w] == v;
            if w < prev.len() {
                assert(prev[w] == v);
                assert(prev.contains(v));
            } else {
                assert(all[i - 1] == v && retained_at(all, declared, i - 1));
            }
        }
        if exists|j: int| 0 <= j < i && #[trigger] all[j] == v && retained_at(all, declared, j) {
            let j = choose|j: int|
                0 <= j < i && #[trigger] all[j] == v && retained_at(all, declared, j);
            if j < i - 1 {
                assert(prev.contains(v));
                let w = choose|w: int| 0 <= w < prev.len() && prev[w] == v;
                assert(cur[w] == v);
            } else {
                assert(cur.last() == v);
            }
        }
    }
}

/// Among equal observed names there is an earliest occurrence.
proof fn lemma_first_occurrence(s: Seq<QualNameV>, v: QualNameV, i: int)
    requires
        exists|j: int| 0 <= j < i && #[trigger] s[j] == v,
    ensures
        exists|j0: int|
            0 <= j0 < i && #[trigger] s[j0] == v && (forall|j2: int| 0 <= j2 < j0 ==> s[j2] != v),
    decreases i,
{
    let j = choose|j: int| 0 <= j < i && #[trigger] s[j] == v;
    if exists|j2: int| 0 <= j2 < j && #[trigger] s[j2] == v {
        lemma_first_occurrence(s, v, j);
        let j0 = choose|j0: int|
            0 <= j0 < j && #[trigger] s[j0] == v && (forall|j2: int| 0 <= j2 < j0 ==> s[j2] != v);
        assert(0 <= j0 < i && s[j0] == v && (forall|j2: int| 0 <= j2 < j0 ==> s[j2] != v));
    } else {
        assert(0 <= j < i && s[j] == v && (forall|j2: int| 0 <= j2 < j ==> s[j2] != v));
    }
}

/// Whether two exec parts have the same value.
fn part_eq(a: &NamePart, b: &NamePart) -> (r: bool)
    ensures
        r == (part_v(*a) == part_v(*b)),
{
    let r = str_eq(a.prop.as_str(), b.prop.as_str()) && a.is_member == b.is_member
        && a.optional == b.optional;
    proof {
        if r {
            assert(part_v(*a) =~= part_v(*b));
        }
    }
    r
}

/// Whether `m` properly covers `n`, per `is_proper_cover`.
#[verifier::loop_isolation(false)]
fn covers(m: &QualName, n: &QualName) -> (r: bool)
    ensures
        r == is_proper_cover(qn_v(*m), qn_v(*n)),
{
    if !str_eq(m.sym.as_str(), n.sym.as_str()) || m.ctxt != n.ctxt {
        return false;
    }
    if m.parts.len() > n.parts.len() {
        proof {
            assert(parts_v(m.parts@).len() > parts_v(n.parts@).len());
        }
        return false;
    }
    if name_eq(m, n) {
        return false;
    }
    let mut i: usize = 0;
    while i < m.parts.len()
        invariant
            i <= m.parts.len(),
            forall|j: int| 0 <= j < i ==> parts_v(m.parts@)[j] == parts_v(n.parts@)[j],
        decreases m.parts.len() - i,
    {
        if !part_eq(&m.parts[i], &n.parts[i]) {
            proof {
                assert(qn_v(*m).parts[i as int] != qn_v(*n).parts.subrange(
                    0,
                    qn_v(*m).parts.len() as int,
                )[i as int]);
            }
            return false;
        }
        i = i + 1;
    }
    proof {
        assert(qn_v(*m).parts =~= qn_v(*n).parts.subrange(0, qn_v(*m).parts.len() as int));
    }
    true
}

/// Whether the base of `n` occurs among the first `until` identifiers.
#[verifier::loop_isolation(false)]
fn declared_has_base(declared: &Vec<Ident>, until: usize, n: &QualName) -> (r: bool)
    requires
        until <= declared.len(),
    ensures
        r == idents_v(declared@.take(until as int)).contains((qn_v(*n).sym, qn_v(*n).ctxt)),
{
    let mut i: usize = 0;
    while i < until
        invariant
            i <= until,
            forall|j: int|
                0 <= j < i ==> idents_v(declared@.take(until as int))[j] != (
                qn_v(*n).sym,
                qn_v(*n).ctxt,
            ),
        decreases until - i,
    {
        if str_eq(declared[i].sym.as_str(), n.sym.as_str()) && declared[i].ctxt == n.ctxt {
            proof {
                assert(idents_v(declared@.take(until as int))[i as int] == (
                    qn_v(*n).sym,
                    qn_v(*n).ctxt,
                ));
            }
            return true;
        }
        i = i + 1;
    }
    proof {
        if idents_v(declared@.take(until as int)).contains((qn_v(*n).sym, qn_v(*n).ctxt)) {
            let w = choose|w: int|
                0 <= w < idents_v(declared@.take(until as int)).len() && idents_v(
                    declared@.take(until as int),
                )[w] == (qn_v(*n).sym, qn_v(*n).ctxt);
            assert(false);
        }
    }
    false
}

/// Whether a name with the value of `n` is already in `v`.
#[verifier::loop_isolation(false)]
fn names_contain(v: &Vec<QualName>, n: &QualName) -> (r: bool)
    ensures
        r == names_v(v@).contains(qn_v(*n)),
{
    let mut i: usize = 0;
    while i < v.len()
        invariant
            i <= v.len(),
            forall|j: int| 0 <= j < i ==> names_v(v@)[j] != qn_v(*n),
        decreases v.len() - i,
    {
        if name_eq(&v[i], n) {
            proof {
                assert(names_v(v@)[i as int] == qn_v(*n));
            }
            return true;
        }
        i = i + 1;
    }
    proof {
        if names_v(v@).contains(qn_v(*n)) {
            let w = choose|w: int| 0 <= w < names_v(v@).len() && names_v(v@)[w] == qn_v(*n);
            assert(false);
        }
    }
    false
}

/// Whether some name of `v` properly covers `n`.
#[verifier::loop_isolation(false)]
fn any_covers(v: &Vec<QualName>, n: &QualName) -> (r: bool)
    ensures
        r == covered_by(names_v(v@), qn_v(*n)),
{
    let mut i: usize = 0;
    while i < v.len()
        invariant
            i <= v.len(),
            forall|j: int| 0 <= j < i ==> !is_proper_cover(#[trigger] names_v(v@)[j], qn_v(*n)),
        decreases v.len() - i,
    {
        if covers(&v[i], n) {
            proof {
                assert(is_proper_cover(names_v(v@)[i as int], qn_v(*n)));
            }
            return true;
        }
        i = i + 1;
    }
    false
}

/// Keeps, of the names observed in a child scope, only genuine captures:
/// names whose base identifier was declared in an enclosing function
/// scope (the first `until` entries of `declared`), dropping any name
/// another observed name properly covers, without duplicates.
#[verifier::loop_isolation(false)]
pub fn retain_names_from_declared_idents(
    child_names: &mut Vec<QualName>,
    declared: &Vec<Ident>,
    until: usize,
)
    requires
        until <= declared.len(),
    ensures
        forall|k: int|
            0 <= k < names_v(final(child_names)@).len() ==> {
                &&& names_v(old(child_names)@).contains(#[trigger] names_v(final(child_names)@)[k])
                &&& idents_v(declared@.take(until as int)).contains(
                    (names_v(final(child_names)@)[k].sym, names_v(final(child_names)@)[k].ctxt),
                )
                &&& !covered_by(names_v(old(child_names)@), names_v(final(child_names)@)[k])
            },
        forall|j: int|
            0 <= j < names_v(old(child_names)@).len() ==> {
                (idents_v(declared@.take(until as int)).contains(
                    (
                        #[trigger] names_v(old(child_names)@)[j].sym,
                        names_v(old(child_names)@)[j].ctxt,
                    ),
                ) && !covered_by(names_v(old(child_names)@), names_v(old(child_names)@)[j]))
                    ==> names_v(final(child_names)@).contains(names_v(old(child_names)@)[j])
            },
        forall|k1: int, k2: int|
            0 <= k1 < k2 < names_v(final(child_names)@).len() ==> names_v(final(child_names)@)[k1]
                != names_v(final(child_names)@)[k2],
        names_v(final(child_names)@) == retained_prefix(
            names_v(old(child_names)@),
            idents_v(declared@.take(until as int)),
            old(child_names)@.len() as int,
        ),
{
    let ghost inp = names_v(child_names@);
    let ghost decl = idents_v(declared@.take(until as int));
    let mut retained: Vec<QualName> = Vec::new();
    let mut i: usize = 0;
    while i < child_names.len()
        invariant
            i <= child_names.len(),
            names_v(child_names@) == inp,
            forall|k: int|
                0 <= k < names_v(retained@).len() ==> {
                    &&& inp.contains(#[trigger] names_v(retained@)[k])
                    &&& idents_v(declared@.take(until as int)).contains(
                        (names_v(retained@)[k].sym, names_v(retained@)[k].ctxt),
                    )
                    &&& !covered_by(inp, names_v(retained@)[k])
                },
            forall|j: int|
                0 <= j < i ==> {
                    (idents_v(declared@.take(until as int)).contains(
                        (#[trigger] inp[j].sym, inp[j].ctxt),
                    ) && !covered_by(inp, inp[j])) ==> names_v(retained@).contains(inp[j])
                },
            forall|k1: int, k2: int|
                0 <= k1 < k2 < names_v(retained@).len() ==> names_v(retained@)[k1] != names_v(
                    retained@,
                )[k2],
            names_v(retained@) == retained_prefix(inp, decl, i as int),
        decreases child_names.len() - i,
    {
        let name = &child_names[i];
        proof {
            assert(qn_v(*name) == inp[i as int]);
        }
        let keep = !any_covers(child_names, name) && declared_has_base(declared, until, name)
            && !names_contain(&retained, name);
        proof {
            lemma_retained_prefix_membership(inp, decl, i as int, inp[i as int]);
            assert(keep == retained_at(inp, decl, i as int)) by {
                if keep {
                    if exists|j2: int| 0 <= j2 < i && #[trigger] inp[j2] == inp[i as int] {
                        lemma_first_occurrence(inp, inp[i as int], i as int);
                        let j0 = choose|j0: int|
                            0 <= j0 < i && #[trigger] inp[j0] == inp[i as int] && (forall|j2: int|
                                0 <= j2 < j0 ==> inp[j2] != inp[i as int]);
                        assert(retained_at(inp, decl, j0));
                        assert(names_v(retained@).contains(inp[i as int]));
                        assert(false);
                    }
                } else {
                    if retained_at(inp, decl, i as int) {
                        assert(names_v(retained@).contains(inp[i as int]));
                        let j = choose|j: int|
                            0 <= j < i && #[trigger] inp[j] == inp[i as int] && retained_at(
                                inp,
                                decl,
                                j,
                            );
                        assert(false);
                    }
                }
            }
        }
        let ghost pre = names_v(retained@);
        if keep {
            let n2 = name.clone();
            retained.push(n2);
            proof {
                assert(names_v(retained@) =~= pre.push(qn_v(*name)));
                assert(inp.contains(inp[i as int]));
            }
        }
        proof {
            assert(retained_prefix(inp, decl, i as int + 1) == retained_prefix(inp, decl, i as int)
                + (if retained_at(inp, decl, i as int) {
                seq![inp[i as int]]
            } else {
                Seq::<QualNameV>::empty()
            }));
            assert(names_v(retained@) =~= retained_prefix(inp, decl, i as int + 1));
            assert forall|j: int| 0 <= j < i + 1 implies {
                (idents_v(declared@.take(until as int)).contains(
                    (#[trigger] inp[j].sym, inp[j].ctxt),
                ) && !covered_by(inp, inp[j])) ==> names_v(retained@).contains(inp[j])
            } by {
                if j < i {
                    if pre.contains(inp[j]) {
                        let w = choose|w: int| 0 <= w < pre.len() && pre[w] == inp[j];
                        assert(names_v(retained@)[w] == inp[j]);
                    }
                } else {
                    if keep {
                        assert(names_v(retained@)[pre.len() as int] == inp[i as int]);
                    }
                }
            }
        }
        i = i + 1;
    }
    proof {
        assert(names_v(retained@) == retained_prefix(inp, decl, inp.len() as int));
    }
    *child_names = retained;
}

} // verus!
