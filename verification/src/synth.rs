//! The field-mapping synthesizer: for one field's type expression and one
//! target parameter, produce the expression that transforms a value of that
//! type.
//!
//! The produced `MappingExpr` is an abstract expression tree; the front end
//! renders it.  One tree serves both the infallible and the fallible
//! routine: the renderer turns `Apply` into a plain application or a
//! short-circuiting one, `Delegate` into the plain or the short-circuiting
//! per-position operation, and `ArrayMap` into the plain or the
//! all-or-nothing elementwise map.  What a synthesized tree computes — and
//! that it computes exactly the mapping semantics the laws are proved of —
//! is stated and proved in `eval`.
//!
//! Synthesis fails (`None`) exactly when a structurally opaque position that
//! would have to be transformed mentions the parameter: such a position has
//! no mapping strategy, and the failure is propagated to the assembler,
//! which rejects the whole generation request.
use crate::ast::{FieldId, Sym, TypeArg, TypeExpr};
use crate::contains::{
    spec_arg_contains, spec_contains, spec_mentions, type_contains_param, type_mentions_param,
};
use vstd::prelude::*;

verus! {

broadcast use vstd::std_specs::vec::group_vec_axioms;

/// The synthesized expression for one field position.
#[derive(PartialEq, Eq, Debug)]
pub enum MappingExpr {
    /// The placeholder bound by an enclosing closure.
    Var,
    /// A field of `self`.
    SelfField(FieldId),
    /// A plain binding introduced by a match arm.
    Binding(FieldId),
    /// Tuple projection: the `index`-th component of `base`.
    Proj { base: Box<MappingExpr>, index: u64 },
    /// Direct application of the user function.
    Apply(Box<MappingExpr>),
    /// Delegation to the receiver type's own mapping operation for type
    /// argument position `pos`.
    Delegate { recv: Box<MappingExpr>, pos: u64, arg: DelegateArg },
    /// A tuple literal of the mapped components.
    Tuple(Vec<MappingExpr>),
    /// An elementwise map over a fixed-size array.
    ArrayMap { recv: Box<MappingExpr>, body: Box<MappingExpr> },
}

/// What a delegation passes on: the user function itself, or a closure over
/// the placeholder.
#[derive(PartialEq, Eq, Debug)]
pub enum DelegateArg {
    UserFn,
    Closure(Box<MappingExpr>),
}

/// The mathematical form of a `MappingExpr`.
pub enum MappingExprV {
    Var,
    SelfField(FieldId),
    Binding(FieldId),
    Proj { base: Box<MappingExprV>, index: u64 },
    Apply(Box<MappingExprV>),
    Delegate { recv: Box<MappingExprV>, pos: u64, arg: DelegateArgV },
    Tuple(Seq<MappingExprV>),
    ArrayMap { recv: Box<MappingExprV>, body: Box<MappingExprV> },
}

/// The mathematical form of a `DelegateArg`.
pub enum DelegateArgV {
    UserFn,
    Closure(Box<MappingExprV>),
}

/// The mathematical form of an expression tree.
pub open spec fn mexpr_view(e: MappingExpr) -> MappingExprV
    decreases e,
{
    match e {
        MappingExpr::Var => MappingExprV::Var,
        MappingExpr::SelfField(id) => MappingExprV::SelfField(id),
        MappingExpr::Binding(id) => MappingExprV::Binding(id),
        MappingExpr::Proj { base, index } => MappingExprV::Proj {
            base: Box::new(mexpr_view(*base)),
            index,
        },
        MappingExpr::Apply(inner) => MappingExprV::Apply(Box::new(mexpr_view(*inner))),
        MappingExpr::Delegate { recv, pos, arg } => MappingExprV::Delegate {
            recv: Box::new(mexpr_view(*recv)),
            pos,
            arg: match arg {
                DelegateArg::UserFn => DelegateArgV::UserFn,
                DelegateArg::Closure(body) => DelegateArgV::Closure(Box::new(mexpr_view(*body))),
            },
        },
        MappingExpr::Tuple(ms) => MappingExprV::Tuple(mexprs_view(ms@)),
        MappingExpr::ArrayMap { recv, body } => MappingExprV::ArrayMap {
            recv: Box::new(mexpr_view(*recv)),
            body: Box::new(mexpr_view(*body)),
        },
    }
}

/// The mathematical form of a list of expression trees.
pub open spec fn mexprs_view(ms: Seq<MappingExpr>) -> Seq<MappingExprV>
    decreases ms,
{
    if ms.len() == 0 {
        Seq::empty()
    } else {
        mexprs_view(ms.drop_last()).push(mexpr_view(ms.last()))
    }
}

impl View for MappingExpr {
    type V = MappingExprV;

    open spec fn view(&self) -> MappingExprV {
        mexpr_view(*self)
    }
}

/// `mexprs_view` maps the view elementwise.
pub proof fn lemma_mexprs_view(ms: Seq<MappingExpr>)
    ensures
        mexprs_view(ms).len() == ms.len(),
        forall|i: int| 0 <= i < ms.len() ==> mexprs_view(ms)[i] == mexpr_view(#[trigger] ms[i]),
    decreases ms,
{
    if ms.len() > 0 {
        lemma_mexprs_view(ms.drop_last());
        assert forall|i: int| 0 <= i < ms.len() implies mexprs_view(ms)[i] == mexpr_view(
            #[trigger] ms[i],
        ) by {
            if i < ms.len() - 1 {
                assert(ms.drop_last()[i] == ms[i]);
                assert(mexprs_view(ms)[i] == mexprs_view(ms.drop_last())[i]);
            } else {
                assert(ms.last() == ms[i]);
            }
        };
    }
}

/// What the synthesizer produces for a type expression `t`, parameter `p`
/// and subject expression `acc`, or `None` when an opaque position that
/// mentions `p` stands in the way.
///
/// The boolean is the `Terminal` tag: the produced expression is a direct
/// application of the user function to the subject, so a delegation may
/// forward the user function instead of wrapping a closure.
pub open spec fn spec_synth(t: TypeExpr, p: Sym, acc: MappingExprV) -> Option<(MappingExprV, bool)>
    decreases t, 0int,
{
    match t {
        TypeExpr::Opaque(_) => if spec_mentions(t, p) {
            Option::None
        } else {
            Option::Some((acc, false))
        },
        _ => if !spec_contains(t, p) {
            Option::Some((acc, false))
        } else {
            match t {
                TypeExpr::ParamRef(_) => Option::Some((MappingExprV::Apply(Box::new(acc)), true)),
                TypeExpr::Named { qualified, head, args } => {
                    if !qualified && head == p && args.len() == 0 {
                        Option::Some((MappingExprV::Apply(Box::new(acc)), true))
                    } else {
                        match spec_synth_args(args@, 0, p, acc) {
                            Option::Some(m) => Option::Some((m, false)),
                            Option::None => Option::None,
                        }
                    }
                },
                TypeExpr::Tuple(elems) => match spec_synth_tuple(elems@, 0, p, acc) {
                    Option::Some(ms) => Option::Some((MappingExprV::Tuple(ms), false)),
                    Option::None => Option::None,
                },
                TypeExpr::Array(elem, _) => match spec_synth(*elem, p, MappingExprV::Var) {
                    Option::Some((body, _)) => Option::Some(
                        (
                            MappingExprV::ArrayMap {
                                recv: Box::new(acc),
                                body: Box::new(body),
                            },
                            false,
                        ),
                    ),
                    Option::None => Option::None,
                },
                TypeExpr::Grouping(inner) => spec_synth(*inner, p, acc),
                TypeExpr::Opaque(_) => Option::None,
            }
        },
    }
}

/// The delegation chain for the type arguments of a named type, from
/// position `i` on: each argument position containing `p` wraps the
/// accumulated subject in a delegation addressed to that position.
pub open spec fn spec_synth_args(
    args: Seq<TypeArg>,
    i: int,
    p: Sym,
    acc: MappingExprV,
) -> Option<MappingExprV>
    decreases args, args.len() - i,
{
    if i < 0 || i >= args.len() {
        Option::Some(acc)
    } else if !spec_arg_contains(args[i], p) {
        spec_synth_args(args, i + 1, p, acc)
    } else {
        match args[i] {
            TypeArg::Type(t) => match spec_synth(t, p, MappingExprV::Var) {
                Option::Some((m, is_end)) => {
                    let darg = if is_end {
                        DelegateArgV::UserFn
                    } else {
                        DelegateArgV::Closure(Box::new(m))
                    };
                    spec_synth_args(
                        args,
                        i + 1,
                        p,
                        MappingExprV::Delegate { recv: Box::new(acc), pos: i as u64, arg: darg },
                    )
                },
                Option::None => Option::None,
            },
            TypeArg::Lifetime => spec_synth_args(args, i + 1, p, acc),
            TypeArg::Const => spec_synth_args(args, i + 1, p, acc),
        }
    }
}

/// The componentwise expressions for a tuple type, from component `i` on.
pub open spec fn spec_synth_tuple(
    elems: Seq<TypeExpr>,
    i: int,
    p: Sym,
    acc: MappingExprV,
) -> Option<Seq<MappingExprV>>
    decreases elems, elems.len() - i,
{
    if i < 0 || i >= elems.len() {
        Option::Some(Seq::empty())
    } else {
        match spec_synth(
            elems[i],
            p,
            MappingExprV::Proj { base: Box::new(acc), index: i as u64 },
        ) {
            Option::Some((m, _)) => match spec_synth_tuple(elems, i + 1, p, acc) {
                Option::Some(rest) => Option::Some(seq![m] + rest),
                Option::None => Option::None,
            },
            Option::None => Option::None,
        }
    }
}

/// The positions of the delegations wrapped around a subject, innermost
/// first: the order in which the per-position operations are applied.
pub open spec fn spine_positions(m: MappingExprV) -> Seq<u64>
    decreases m,
{
    match m {
        MappingExprV::Delegate { recv, pos, arg } => spine_positions(*recv).push(pos),
        _ => Seq::empty(),
    }
}

/// The argument positions from `i` on that participate in mapping, in
/// left-to-right order, counted over all generic arguments.
pub open spec fn containing_positions(args: Seq<TypeArg>, i: int, p: Sym) -> Seq<u64>
    decreases args.len() - i,
{
    if i < 0 || i >= args.len() {
        Seq::empty()
    } else if spec_arg_contains(args[i], p) {
        seq![i as u64] + containing_positions(args, i + 1, p)
    } else {
        containing_positions(args, i + 1, p)
    }
}

/// Synthesis for a named field type — the declared type itself or a
/// mutually recursive type included — wraps the subject in exactly one
/// delegation per argument position that contains the parameter, in
/// left-to-right order, addressed to the field type's *declared*
/// per-position capability.  The synthesizer consumes only the field's
/// type expression, never any declaration body, so generation terminates
/// with recursion bounded by that expression's size, independent of any
/// value-level recursion depth, and no cycle detection is needed.
pub proof fn lemma_synth_named_delegation(
    qualified: bool,
    head: Sym,
    args: Seq<TypeArg>,
    p: Sym,
    acc: MappingExprV,
    m: MappingExprV,
)
    requires
        !(!qualified && head == p && args.len() == 0),
        spec_synth_args(args, 0, p, acc) == Option::Some(m),
    ensures
        spine_positions(m) == spine_positions(acc) + containing_positions(args, 0, p),
{
    lemma_synth_args_spine(args, 0, p, acc, m);
}

/// The induction behind the delegation-spine law.
proof fn lemma_synth_args_spine(args: Seq<TypeArg>, i: int, p: Sym, acc: MappingExprV, m: MappingExprV)
    requires
        spec_synth_args(args, i, p, acc) == Option::Some(m),
    ensures
        spine_positions(m) == spine_positions(acc) + containing_positions(args, i, p),
    decreases args.len() - i,
{
    if i < 0 || i >= args.len() {
        assert(spine_positions(acc) + Seq::<u64>::empty() =~= spine_positions(acc));
    } else if !spec_arg_contains(args[i], p) {
        lemma_synth_args_spine(args, i + 1, p, acc, m);
    } else {
        match args[i] {
            TypeArg::Type(t) => {
                if let Option::Some((sub, is_end)) = spec_synth(t, p, MappingExprV::Var) {
                    let darg = if is_end {
                        DelegateArgV::UserFn
                    } else {
                        DelegateArgV::Closure(Box::new(sub))
                    };
                    let grown = MappingExprV::Delegate {
                        recv: Box::new(acc),
                        pos: i as u64,
                        arg: darg,
                    };
                    lemma_synth_args_spine(args, i + 1, p, grown, m);
                    assert(spine_positions(grown) == spine_positions(acc).push(i as u64));
                    assert(spine_positions(acc).push(i as u64) + containing_positions(
                        args,
                        i + 1,
                        p,
                    ) =~= spine_positions(acc) + (seq![i as u64] + containing_positions(
                        args,
                        i + 1,
                        p,
                    )));
                }
            },
            TypeArg::Lifetime => {},
            TypeArg::Const => {},
        }
    }
}

/// A verified structural copy of an expression tree.
#[verifier::loop_isolation(false)]
pub fn mexpr_dup(e: &MappingExpr) -> (r: MappingExpr)
    ensures
        r@ == e@,
    decreases *e,
{
    match e {
        MappingExpr::Var => MappingExpr::Var,
        MappingExpr::SelfField(id) => MappingExpr::SelfField(*id),
        MappingExpr::Binding(id) => MappingExpr::Binding(*id),
        MappingExpr::Proj { base, index } => MappingExpr::Proj {
            base: Box::new(mexpr_dup(base)),
            index: *index,
        },
        MappingExpr::Apply(inner) => MappingExpr::Apply(Box::new(mexpr_dup(inner))),
        MappingExpr::Delegate { recv, pos, arg } => MappingExpr::Delegate {
            recv: Box::new(mexpr_dup(recv)),
            pos: *pos,
            arg: match arg {
                DelegateArg::UserFn => DelegateArg::UserFn,
                DelegateArg::Closure(body) => DelegateArg::Closure(Box::new(mexpr_dup(body))),
            },
        },
        MappingExpr::Tuple(ms) => {
            let mut out: Vec<MappingExpr> = Vec::new();
            let mut i: usize = 0;
            while i < ms.len()
                invariant
                    0 <= i <= ms.len(),
                    out@.len() == i,
                    forall|j: int| 0 <= j < i ==> out@[j]@ == #[trigger] ms@[j]@,
                decreases ms.len() - i,
            {
                let d = mexpr_dup(&ms[i]);
                out.push(d);
                i += 1;
            }
            proof {
                lemma_mexprs_view(ms@);
                lemma_mexprs_view(out@);
                assert forall|k: int| 0 <= k < ms@.len() implies mexprs_view(out@)[k]
                    == mexprs_view(ms@)[k] by {
                    assert(out@[k]@ == ms@[k]@);
                };
                assert(mexprs_view(out@) =~= mexprs_view(ms@));
            }
            MappingExpr::Tuple(out)
        },
        MappingExpr::ArrayMap { recv, body } => MappingExpr::ArrayMap {
            recv: Box::new(mexpr_dup(recv)),
            body: Box::new(mexpr_dup(body)),
        },
    }
}

/// Synthesizes the mapping expression for one field type.
///
/// `acc` is the subject expression the result transforms.  The result is
/// `None` exactly when an opaque position that mentions `p` would have to be
/// transformed; the boolean of a successful result is the `Terminal` tag.
#[verifier::loop_isolation(false)]
pub fn synthesize(t: &TypeExpr, p: Sym, acc: MappingExpr) -> (r: Option<(MappingExpr, bool)>)
    ensures
        (match r {
            Option::Some((m, is_end)) => spec_synth(*t, p, acc@) == Option::Some((m@, is_end)),
            Option::None => spec_synth(*t, p, acc@) == Option::<(MappingExprV, bool)>::None,
        }),
    decreases *t,
{
    match t {
        TypeExpr::Opaque(_) => {
            if type_mentions_param(t, p) {
                Option::None
            } else {
                Option::Some((acc, false))
            }
        },
        _ => {
            if !type_contains_param(t, p) {
                return Option::Some((acc, false));
            }
            match t {
                TypeExpr::ParamRef(_) => Option::Some((MappingExpr::Apply(Box::new(acc)), true)),
                TypeExpr::Named { qualified, head, args } => {
                    if !*qualified && *head == p && args.len() == 0 {
                        return Option::Some((MappingExpr::Apply(Box::new(acc)), true));
                    }
                    let ghost acc0 = acc@;
                    let mut tokens = acc;
                    let mut i: usize = 0;
                    while i < args.len()
                        invariant
                            0 <= i <= args.len(),
                            spec_synth_args(args@, 0, p, acc0) == spec_synth_args(
                                args@,
                                i as int,
                                p,
                                tokens@,
                            ),
                        decreases args.len() - i,
                    {
                        match &args[i] {
                            TypeArg::Type(sub) => {
                                if type_contains_param(sub, p) {
                                    match synthesize(sub, p, MappingExpr::Var) {
                                        Option::Some((m, is_end)) => {
                                            let darg = if is_end {
                                                DelegateArg::UserFn
                                            } else {
                                                DelegateArg::Closure(Box::new(m))
                                            };
                                            tokens = MappingExpr::Delegate {
                                                recv: Box::new(tokens),
                                                pos: i as u64,
                                                arg: darg,
                                            };
                                        },
                                        Option::None => {
                                            return Option::None;
                                        },
                                    }
                                }
                            },
                            TypeArg::Lifetime => {},
                            TypeArg::Const => {},
                        }
                        i += 1;
                    }
                    Option::Some((tokens, false))
                },
                TypeExpr::Tuple(elems) => {
                    let mut out: Vec<MappingExpr> = Vec::new();
                    let mut i: usize = 0;
                    while i < elems.len()
                        invariant
                            0 <= i <= elems.len(),
                            mexprs_view(out@).len() == i,
                            spec_synth_tuple(elems@, 0, p, acc@) == (match spec_synth_tuple(
                                elems@,
                                i as int,
                                p,
                                acc@,
                            ) {
                                Option::Some(rest) => Option::Some(mexprs_view(out@) + rest),
                                Option::None => Option::<Seq<MappingExprV>>::None,
                            }),
                        decreases elems.len() - i,
                    {
                        proof {
                            lemma_mexprs_view(out@);
                        }
                        let base = mexpr_dup(&acc);
                        match synthesize(
                            &elems[i],
                            p,
                            MappingExpr::Proj { base: Box::new(base), index: i as u64 },
                        ) {
                            Option::Some((m, _)) => {
                                let ghost oldout = out@;
                                let ghost mv = m@;
                                out.push(m);
                                proof {
                                    lemma_mexprs_view(oldout);
                                    lemma_mexprs_view(out@);
                                    assert forall|k: int|
                                        0 <= k < out@.len() implies mexprs_view(out@)[k]
                                        == mexprs_view(oldout).push(mv)[k] by {
                                        if k < oldout.len() {
                                            assert(out@[k] == oldout[k]);
                                        } else {
                                            assert(out@[k] == m);
                                        }
                                    };
                                    assert(mexprs_view(out@) =~= mexprs_view(oldout).push(mv));
                                    if let Option::Some(rest) = spec_synth_tuple(
                                        elems@,
                                        i + 1,
                                        p,
                                        acc@,
                                    ) {
                                        assert(mexprs_view(oldout) + (seq![mv] + rest)
                                            =~= mexprs_view(out@) + rest);
                                    }
                                }
                            },
                            Option::None => {
                                return Option::None;
                            },
                        }
                        i += 1;
                    }
                    proof {
                        lemma_mexprs_view(out@);
                        assert(mexprs_view(out@) + Seq::<MappingExprV>::empty() =~= mexprs_view(
                            out@,
                        ));
                    }
                    Option::Some((MappingExpr::Tuple(out), false))
                },
                TypeExpr::Array(elem, _) => {
                    match synthesize(elem, p, MappingExpr::Var) {
                        Option::Some((body, _)) => Option::Some(
                            (
                                MappingExpr::ArrayMap {
                                    recv: Box::new(acc),
                                    body: Box::new(body),
                                },
                                false,
                            ),
                        ),
                        Option::None => Option::None,
                    }
                },
                TypeExpr::Grouping(inner) => synthesize(inner, p, acc),
                TypeExpr::Opaque(_) => Option::None,
            }
        },
    }
}

} // verus!
