//! The containment analyzer: does a type expression mention a given
//! parameter?
//!
//! Two notions are distinguished.  `spec_contains` is containment *for
//! mapping*: opaque positions never contain the parameter, since they are
//! never mapped into.  `spec_mentions` is the syntactic scan: it also looks
//! inside opaque positions, and a bare parameter name used as a path head
//! counts even when arguments follow.  The synthesizer uses the first to
//! decide what to map and the second to tell "does not mention the parameter"
//! (pass through) apart from "mentions it with no mapping strategy" (a
//! synthesis failure).
use crate::ast::{Sym, TypeArg, TypeExpr};
use vstd::prelude::*;

verus! {

broadcast use vstd::std_specs::vec::group_vec_axioms;

/// Containment for mapping purposes: `true` iff the parameter occurs at a
/// mappable position of `t`.  Opaque positions are defined to never contain
/// the parameter.
pub open spec fn spec_contains(t: TypeExpr, p: Sym) -> bool
    decreases t,
{
    match t {
        TypeExpr::ParamRef(name) => name == p,
        TypeExpr::Named { qualified, head, args } => (!qualified && head == p && args.len() == 0)
            || exists|i: int| 0 <= i < args.len() && spec_arg_contains(#[trigger] args[i], p),
        TypeExpr::Tuple(elems) => exists|i: int|
            0 <= i < elems.len() && spec_contains(#[trigger] elems[i], p),
        TypeExpr::Array(elem, _) => spec_contains(*elem, p),
        TypeExpr::Grouping(inner) => spec_contains(*inner, p),
        TypeExpr::Opaque(_) => false,
    }
}

/// Containment of one generic argument: only type arguments can contain the
/// parameter.
pub open spec fn spec_arg_contains(a: TypeArg, p: Sym) -> bool
    decreases a,
{
    match a {
        TypeArg::Type(t) => spec_contains(t, p),
        TypeArg::Lifetime => false,
        TypeArg::Const => false,
    }
}

/// The syntactic scan: `true` iff the parameter's name occurs anywhere in
/// `t`, opaque positions included.
pub open spec fn spec_mentions(t: TypeExpr, p: Sym) -> bool
    decreases t,
{
    match t {
        TypeExpr::ParamRef(name) => name == p,
        TypeExpr::Named { qualified, head, args } => (!qualified && head == p) || exists|i: int|
            0 <= i < args.len() && spec_arg_mentions(#[trigger] args[i], p),
        TypeExpr::Tuple(elems) => exists|i: int|
            0 <= i < elems.len() && spec_mentions(#[trigger] elems[i], p),
        TypeExpr::Array(elem, _) => spec_mentions(*elem, p),
        TypeExpr::Grouping(inner) => spec_mentions(*inner, p),
        TypeExpr::Opaque(inners) => exists|i: int|
            0 <= i < inners.len() && spec_mentions(#[trigger] inners[i], p),
    }
}

/// Syntactic scan of one generic argument.
pub open spec fn spec_arg_mentions(a: TypeArg, p: Sym) -> bool
    decreases a,
{
    match a {
        TypeArg::Type(t) => spec_mentions(t, p),
        TypeArg::Lifetime => false,
        TypeArg::Const => false,
    }
}

/// Decides whether `t` contains the parameter `p` at a mappable position.
#[verifier::loop_isolation(false)]
pub fn type_contains_param(t: &TypeExpr, p: Sym) -> (r: bool)
    ensures
        r == spec_contains(*t, p),
    decreases *t,
{
    match t {
        TypeExpr::ParamRef(name) => *name == p,
        TypeExpr::Named { qualified, head, args } => {
            if !*qualified && *head == p && args.len() == 0 {
                return true;
            }
            let mut i: usize = 0;
            while i < args.len()
                invariant
                    0 <= i <= args.len(),
                    forall|j: int| 0 <= j < i ==> !spec_arg_contains(#[trigger] args@[j], p),
                decreases args.len() - i,
            {
                match &args[i] {
                    TypeArg::Type(te) => {
                        if type_contains_param(te, p) {
                            proof {
                                assert(spec_arg_contains(args@[i as int], p));
                            }
                            return true;
                        }
                    },
                    TypeArg::Lifetime => {},
                    TypeArg::Const => {},
                }
                i += 1;
            }
            false
        },
        TypeExpr::Tuple(elems) => {
            let mut i: usize = 0;
            while i < elems.len()
                invariant
                    0 <= i <= elems.len(),
                    forall|j: int| 0 <= j < i ==> !spec_contains(#[trigger] elems@[j], p),
                decreases elems.len() - i,
            {
                if type_contains_param(&elems[i], p) {
                    return true;
                }
                i += 1;
            }
            false
        },
        TypeExpr::Array(elem, _) => type_contains_param(elem, p),
        TypeExpr::Grouping(inner) => type_contains_param(inner, p),
        TypeExpr::Opaque(_) => false,
    }
}

/// Decides whether `t` mentions the parameter `p` anywhere, opaque positions
/// included.
#[verifier::loop_isolation(false)]
pub fn type_mentions_param(t: &TypeExpr, p: Sym) -> (r: bool)
    ensures
        r == spec_mentions(*t, p),
    decreases *t,
{
    match t {
        TypeExpr::ParamRef(name) => *name == p,
        TypeExpr::Named { qualified, head, args } => {
            if !*qualified && *head == p {
                return true;
            }
            let mut i: usize = 0;
            while i < args.len()
                invariant
                    0 <= i <= args.len(),
                    forall|j: int| 0 <= j < i ==> !spec_arg_mentions(#[trigger] args@[j], p),
                decreases args.len() - i,
            {
                match &args[i] {
                    TypeArg::Type(te) => {
                        if type_mentions_param(te, p) {
                            proof {
                                assert(spec_arg_mentions(args@[i as int], p));
                            }
                            return true;
                        }
                    },
                    TypeArg::Lifetime => {},
                    TypeArg::Const => {},
                }
                i += 1;
            }
            false
        },
        TypeExpr::Tuple(elems) => {
            let mut i: usize = 0;
            while i < elems.len()
                invariant
                    0 <= i <= elems.len(),
                    forall|j: int| 0 <= j < i ==> !spec_mentions(#[trigger] elems@[j], p),
                decreases elems.len() - i,
            {
                if type_mentions_param(&elems[i], p) {
                    return true;
                }
                i += 1;
            }
            false
        },
        TypeExpr::Array(elem, _) => type_mentions_param(elem, p),
        TypeExpr::Grouping(inner) => type_mentions_param(inner, p),
        TypeExpr::Opaque(inners) => {
            let mut i: usize = 0;
            while i < inners.len()
                invariant
                    0 <= i <= inners.len(),
                    forall|j: int| 0 <= j < i ==> !spec_mentions(#[trigger] inners@[j], p),
                decreases inners.len() - i,
            {
                if type_mentions_param(&inners[i], p) {
                    return true;
                }
                i += 1;
            }
            false
        },
    }
}

/// Containment implies a mention: the syntactic scan sees everything the
/// mapping scan sees.
pub proof fn lemma_contains_implies_mentions(t: TypeExpr, p: Sym)
    requires
        spec_contains(t, p),
    ensures
        spec_mentions(t, p),
    decreases t,
{
    match t {
        TypeExpr::ParamRef(_) => {},
        TypeExpr::Named { qualified, head, args } => {
            if !(!qualified && head == p && args.len() == 0) {
                let i = choose|i: int| 0 <= i < args.len() && spec_arg_contains(#[trigger] args[i], p);
                match args[i] {
                    TypeArg::Type(te) => {
                        lemma_contains_implies_mentions(te, p);
                        assert(spec_arg_mentions(args[i], p));
                    },
                    _ => {},
                }
            }
        },
        TypeExpr::Tuple(elems) => {
            let i = choose|i: int| 0 <= i < elems.len() && spec_contains(#[trigger] elems[i], p);
            lemma_contains_implies_mentions(elems[i], p);
        },
        TypeExpr::Array(elem, _) => lemma_contains_implies_mentions(*elem, p),
        TypeExpr::Grouping(inner) => lemma_contains_implies_mentions(*inner, p),
        TypeExpr::Opaque(_) => {},
    }
}

} // verus!
