//! Substitution of the target parameter by the synthetic result parameter
//! inside type expressions and `where` clauses.
//!
//! The generated routine's signature replaces the mapped parameter (say `T`)
//! by a fresh result parameter everywhere in the instantiation and in the
//! bounds that must be re-expressed.  `subst_type` performs that rewrite on
//! one type expression and reports whether anything was replaced; only a
//! bare occurrence of the parameter as a path head is a replacement site,
//! matching how the parameter can legally occur in a bound or bounded type.
use crate::ast::{Sym, TypeArg, TypeExpr, WherePredicate};
use vstd::prelude::*;

verus! {

broadcast use vstd::std_specs::vec::group_vec_axioms;

/// `r` is `t` with every bare occurrence of `p` replaced by `tgt`.
pub open spec fn spec_substed(t: TypeExpr, p: Sym, tgt: Sym, r: TypeExpr) -> bool
    decreases t,
{
    match (t, r) {
        (TypeExpr::ParamRef(n), TypeExpr::ParamRef(m)) => m == if n == p {
            tgt
        } else {
            n
        },
        (
            TypeExpr::Named { qualified, head, args },
            TypeExpr::Named { qualified: q2, head: h2, args: args2 },
        ) => {
            &&& q2 == qualified
            &&& h2 == if !qualified && head == p {
                tgt
            } else {
                head
            }
            &&& args2.len() == args.len()
            &&& forall|i: int|
                0 <= i < args.len() ==> spec_arg_substed(args[i], p, tgt, #[trigger] args2@[i])
        },
        (TypeExpr::Tuple(es), TypeExpr::Tuple(es2)) => {
            &&& es2.len() == es.len()
            &&& forall|i: int|
                0 <= i < es.len() ==> spec_substed(es[i], p, tgt, #[trigger] es2@[i])
        },
        (TypeExpr::Array(e, n), TypeExpr::Array(e2, n2)) => n2 == n && spec_substed(
            *e,
            p,
            tgt,
            *e2,
        ),
        (TypeExpr::Grouping(e), TypeExpr::Grouping(e2)) => spec_substed(*e, p, tgt, *e2),
        (TypeExpr::Opaque(is), TypeExpr::Opaque(is2)) => {
            &&& is2.len() == is.len()
            &&& forall|i: int|
                0 <= i < is.len() ==> spec_substed(is[i], p, tgt, #[trigger] is2@[i])
        },
        _ => false,
    }
}

/// `r` is the generic argument `a` with `p` replaced by `tgt`.
pub open spec fn spec_arg_substed(a: TypeArg, p: Sym, tgt: Sym, r: TypeArg) -> bool
    decreases a,
{
    match (a, r) {
        (TypeArg::Type(t), TypeArg::Type(t2)) => spec_substed(t, p, tgt, t2),
        (TypeArg::Lifetime, TypeArg::Lifetime) => true,
        (TypeArg::Const, TypeArg::Const) => true,
        _ => false,
    }
}

/// Whether substituting `p` in `t` replaces anything.
pub open spec fn spec_subst_changes(t: TypeExpr, p: Sym) -> bool
    decreases t,
{
    match t {
        TypeExpr::ParamRef(n) => n == p,
        TypeExpr::Named { qualified, head, args } => (!qualified && head == p) || exists|i: int|
            0 <= i < args.len() && spec_arg_changes(#[trigger] args[i], p),
        TypeExpr::Tuple(es) => exists|i: int|
            0 <= i < es.len() && spec_subst_changes(#[trigger] es[i], p),
        TypeExpr::Array(e, _) => spec_subst_changes(*e, p),
        TypeExpr::Grouping(e) => spec_subst_changes(*e, p),
        TypeExpr::Opaque(is) => exists|i: int|
            0 <= i < is.len() && spec_subst_changes(#[trigger] is[i], p),
    }
}

/// Whether substituting `p` in the generic argument `a` replaces anything.
pub open spec fn spec_arg_changes(a: TypeArg, p: Sym) -> bool
    decreases a,
{
    match a {
        TypeArg::Type(t) => spec_subst_changes(t, p),
        TypeArg::Lifetime => false,
        TypeArg::Const => false,
    }
}

/// Rewrites `t`, replacing every bare occurrence of `p` by `tgt`; the flag
/// reports whether anything was replaced.
#[verifier::loop_isolation(false)]
pub fn subst_type(t: &TypeExpr, p: Sym, tgt: Sym) -> (r: (TypeExpr, bool))
    ensures
        spec_substed(*t, p, tgt, r.0),
        r.1 == spec_subst_changes(*t, p),
    decreases *t,
{
    match t {
        TypeExpr::ParamRef(n) => {
            if *n == p {
                (TypeExpr::ParamRef(tgt), true)
            } else {
                (TypeExpr::ParamRef(*n), false)
            }
        },
        TypeExpr::Named { qualified, head, args } => {
            let new_head = if !*qualified && *head == p {
                tgt
            } else {
                *head
            };
            let mut changed = !*qualified && *head == p;
            let mut out: Vec<TypeArg> = Vec::new();
            let mut i: usize = 0;
            while i < args.len()
                invariant
                    0 <= i <= args.len(),
                    out@.len() == i,
                    forall|j: int|
                        0 <= j < i ==> spec_arg_substed(args@[j], p, tgt, #[trigger] out@[j]),
                    changed == ((!*qualified && *head == p) || exists|j: int|
                        0 <= j < i && spec_arg_changes(#[trigger] args@[j], p)),
                decreases args.len() - i,
            {
                match &args[i] {
                    TypeArg::Type(sub) => {
                        let (s2, c2) = subst_type(sub, p, tgt);
                        proof {
                            if c2 {
                                assert(spec_arg_changes(args@[i as int], p));
                            }
                        }
                        out.push(TypeArg::Type(s2));
                        changed = changed || c2;
                    },
                    TypeArg::Lifetime => {
                        out.push(TypeArg::Lifetime);
                    },
                    TypeArg::Const => {
                        out.push(TypeArg::Const);
                    },
                }
                i += 1;
            }
            (TypeExpr::Named { qualified: *qualified, head: new_head, args: out }, changed)
        },
        TypeExpr::Tuple(es) => {
            let mut changed = false;
            let mut out: Vec<TypeExpr> = Vec::new();
            let mut i: usize = 0;
            while i < es.len()
                invariant
                    0 <= i <= es.len(),
                    out@.len() == i,
                    forall|j: int| 0 <= j < i ==> spec_substed(es@[j], p, tgt, #[trigger] out@[j]),
                    changed == exists|j: int|
                        0 <= j < i && spec_subst_changes(#[trigger] es@[j], p),
                decreases es.len() - i,
            {
                let (s2, c2) = subst_type(&es[i], p, tgt);
                proof {
                    if c2 {
                        assert(spec_subst_changes(es@[i as int], p));
                    }
                }
                out.push(s2);
                changed = changed || c2;
                i += 1;
            }
            (TypeExpr::Tuple(out), changed)
        },
        TypeExpr::Array(e, n) => {
            let (s2, c2) = subst_type(e, p, tgt);
            (TypeExpr::Array(Box::new(s2), *n), c2)
        },
        TypeExpr::Grouping(e) => {
            let (s2, c2) = subst_type(e, p, tgt);
            (TypeExpr::Grouping(Box::new(s2)), c2)
        },
        TypeExpr::Opaque(is) => {
            let mut changed = false;
            let mut out: Vec<TypeExpr> = Vec::new();
            let mut i: usize = 0;
            while i < is.len()
                invariant
                    0 <= i <= is.len(),
                    out@.len() == i,
                    forall|j: int| 0 <= j < i ==> spec_substed(is@[j], p, tgt, #[trigger] out@[j]),
                    changed == exists|j: int|
                        0 <= j < i && spec_subst_changes(#[trigger] is@[j], p),
                decreases is.len() - i,
            {
                let (s2, c2) = subst_type(&is[i], p, tgt);
                proof {
                    if c2 {
                        assert(spec_subst_changes(is@[i as int], p));
                    }
                }
                out.push(s2);
                changed = changed || c2;
                i += 1;
            }
            (TypeExpr::Opaque(out), changed)
        },
    }
}

/// `r` is the predicate `pred` with `p` replaced by `tgt` in its bounded
/// type and in each of its bounds.
pub open spec fn spec_pred_substed(
    pred: WherePredicate,
    p: Sym,
    tgt: Sym,
    r: WherePredicate,
) -> bool {
    &&& spec_substed(pred.bounded_ty, p, tgt, r.bounded_ty)
    &&& r.bounds.len() == pred.bounds.len()
    &&& forall|i: int|
        0 <= i < pred.bounds.len() ==> spec_substed(
            pred.bounds@[i],
            p,
            tgt,
            #[trigger] r.bounds@[i],
        )
}

/// Whether substituting `p` anywhere in the predicate replaces anything.
pub open spec fn spec_pred_changes(pred: WherePredicate, p: Sym) -> bool {
    spec_subst_changes(pred.bounded_ty, p) || exists|i: int|
        0 <= i < pred.bounds.len() && spec_subst_changes(#[trigger] pred.bounds@[i], p)
}

/// Whether a whole `where` clause mentions `p` at a replacement site.
pub open spec fn spec_where_mentions(wc: Seq<WherePredicate>, p: Sym) -> bool {
    exists|i: int| 0 <= i < wc.len() && spec_pred_changes(#[trigger] wc[i], p)
}

/// Rewrites one `where` predicate; the flag reports whether anything was
/// replaced.
#[verifier::loop_isolation(false)]
pub fn subst_predicate(pred: &WherePredicate, p: Sym, tgt: Sym) -> (r: (WherePredicate, bool))
    ensures
        spec_pred_substed(*pred, p, tgt, r.0),
        r.1 == spec_pred_changes(*pred, p),
{
    let (bty, c0) = subst_type(&pred.bounded_ty, p, tgt);
    let mut changed = c0;
    let mut out: Vec<TypeExpr> = Vec::new();
    let mut i: usize = 0;
    while i < pred.bounds.len()
        invariant
            0 <= i <= pred.bounds.len(),
            out@.len() == i,
            forall|j: int|
                0 <= j < i ==> spec_substed(pred.bounds@[j], p, tgt, #[trigger] out@[j]),
            changed == (c0 || exists|j: int|
                0 <= j < i && spec_subst_changes(#[trigger] pred.bounds@[j], p)),
        decreases pred.bounds.len() - i,
    {
        let (b2, c2) = subst_type(&pred.bounds[i], p, tgt);
        proof {
            if c2 {
                assert(spec_subst_changes(pred.bounds@[i as int], p));
            }
        }
        out.push(b2);
        changed = changed || c2;
        i += 1;
    }
    (WherePredicate { bounded_ty: bty, bounds: out }, changed)
}

} // verus!
