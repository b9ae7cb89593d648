use functor_derive::ast::{FieldDescriptor, FieldId, FieldsShape, Sym, TypeArg, TypeExpr};
use functor_derive::contains::{type_contains_param, type_mentions_param};
use functor_derive::synth::{mexpr_dup, synthesize, DelegateArg, MappingExpr};

const P: Sym = Sym(1);
const Q: Sym = Sym(2);
const VEC: Sym = Sym(10);
const PAIR: Sym = Sym(11);

fn param() -> TypeExpr {
    TypeExpr::ParamRef(P)
}

fn vec_of(t: TypeExpr) -> TypeExpr {
    TypeExpr::Named { qualified: false, head: VEC, args: vec![TypeArg::Type(t)] }
}

fn access() -> MappingExpr {
    MappingExpr::SelfField(FieldId::Named(Sym(100)))
}

#[test]
fn contains_direct_param() {
    assert!(type_contains_param(&param(), P));
    assert!(!type_contains_param(&param(), Q));
}

#[test]
fn contains_through_nesting() {
    let t = vec_of(vec_of(param()));
    assert!(type_contains_param(&t, P));
    assert!(!type_contains_param(&t, Q));
}

#[test]
fn contains_tuple_and_array() {
    let t = TypeExpr::Tuple(vec![TypeExpr::ParamRef(Q), TypeExpr::Array(Box::new(param()), 3)]);
    assert!(type_contains_param(&t, P));
    assert!(type_contains_param(&t, Q));
}

#[test]
fn contains_skips_opaque_positions() {
    // A reference to the parameter: mentioned, but never mapped into.
    let t = TypeExpr::Opaque(vec![param()]);
    assert!(!type_contains_param(&t, P));
    assert!(type_mentions_param(&t, P));
}

#[test]
fn contains_ignores_non_type_arguments() {
    let t = TypeExpr::Named {
        qualified: false,
        head: VEC,
        args: vec![TypeArg::Lifetime, TypeArg::Const],
    };
    assert!(!type_contains_param(&t, P));
}

#[test]
fn contains_bare_param_with_args_counts_as_mention_only() {
    // The parameter used as a path head with arguments: not a plain use.
    let t = TypeExpr::Named { qualified: false, head: P, args: vec![TypeArg::Lifetime] };
    assert!(!type_contains_param(&t, P));
    assert!(type_mentions_param(&t, P));
}

#[test]
fn synth_pass_through() {
    let t = TypeExpr::ParamRef(Q);
    let r = synthesize(&t, P, access());
    assert_eq!(r, Some((access(), false)));
}

#[test]
fn synth_terminal_application() {
    let r = synthesize(&param(), P, access());
    assert_eq!(r, Some((MappingExpr::Apply(Box::new(access())), true)));
}

#[test]
fn synth_delegates_into_container() {
    let r = synthesize(&vec_of(param()), P, access());
    assert_eq!(
        r,
        Some((
            MappingExpr::Delegate {
                recv: Box::new(access()),
                pos: 0,
                arg: DelegateArg::UserFn,
            },
            false
        ))
    );
}

#[test]
fn synth_nested_container_wraps_closure() {
    let r = synthesize(&vec_of(vec_of(param())), P, access());
    assert_eq!(
        r,
        Some((
            MappingExpr::Delegate {
                recv: Box::new(access()),
                pos: 0,
                arg: DelegateArg::Closure(Box::new(MappingExpr::Delegate {
                    recv: Box::new(MappingExpr::Var),
                    pos: 0,
                    arg: DelegateArg::UserFn,
                })),
            },
            false
        ))
    );
}

#[test]
fn synth_two_positions_in_order() {
    // A pair type parameterized identically in both slots: each position is
    // mapped independently, left to right.
    let t = TypeExpr::Named {
        qualified: false,
        head: PAIR,
        args: vec![TypeArg::Type(param()), TypeArg::Type(param())],
    };
    let r = synthesize(&t, P, access());
    assert_eq!(
        r,
        Some((
            MappingExpr::Delegate {
                recv: Box::new(MappingExpr::Delegate {
                    recv: Box::new(access()),
                    pos: 0,
                    arg: DelegateArg::UserFn,
                }),
                pos: 1,
                arg: DelegateArg::UserFn,
            },
            false
        ))
    );
}

#[test]
fn synth_position_index_counts_every_argument() {
    // A lifetime and a const argument sit before the mapped one: the
    // delegation is addressed to position 2.
    let t = TypeExpr::Named {
        qualified: false,
        head: PAIR,
        args: vec![TypeArg::Lifetime, TypeArg::Const, TypeArg::Type(param())],
    };
    let r = synthesize(&t, P, access());
    assert_eq!(
        r,
        Some((
            MappingExpr::Delegate {
                recv: Box::new(access()),
                pos: 2,
                arg: DelegateArg::UserFn,
            },
            false
        ))
    );
}

#[test]
fn synth_tuple_projects_componentwise() {
    let t = TypeExpr::Tuple(vec![param(), TypeExpr::ParamRef(Q)]);
    let r = synthesize(&t, P, access());
    assert_eq!(
        r,
        Some((
            MappingExpr::Tuple(vec![
                MappingExpr::Apply(Box::new(MappingExpr::Proj {
                    base: Box::new(access()),
                    index: 0,
                })),
                MappingExpr::Proj { base: Box::new(access()), index: 1 },
            ]),
            false
        ))
    );
}

#[test]
fn synth_array_maps_elementwise() {
    let t = TypeExpr::Array(Box::new(param()), 3);
    let r = synthesize(&t, P, access());
    assert_eq!(
        r,
        Some((
            MappingExpr::ArrayMap {
                recv: Box::new(access()),
                body: Box::new(MappingExpr::Apply(Box::new(MappingExpr::Var))),
            },
            false
        ))
    );
}

#[test]
fn synth_grouping_is_transparent() {
    let t = TypeExpr::Grouping(Box::new(param()));
    let r = synthesize(&t, P, access());
    assert_eq!(r, Some((MappingExpr::Apply(Box::new(access())), true)));
}

#[test]
fn synth_fails_on_opaque_mention() {
    let t = TypeExpr::Opaque(vec![param()]);
    assert_eq!(synthesize(&t, P, access()), None);
}

#[test]
fn synth_failure_propagates_from_tuple() {
    let t = TypeExpr::Tuple(vec![TypeExpr::Opaque(vec![param()]), param()]);
    assert_eq!(synthesize(&t, P, access()), None);
}

#[test]
fn dup_copies_structurally() {
    let e = MappingExpr::Tuple(vec![
        MappingExpr::Apply(Box::new(MappingExpr::Var)),
        MappingExpr::Delegate {
            recv: Box::new(access()),
            pos: 7,
            arg: DelegateArg::Closure(Box::new(MappingExpr::Var)),
        },
    ]);
    assert_eq!(mexpr_dup(&e), e);
}

#[test]
fn field_descriptor_holds_type() {
    let fd = FieldDescriptor { id: FieldId::Position(0), ty: param() };
    assert!(type_contains_param(&fd.ty, P));
    let shape = FieldsShape::Positional(vec![fd]);
    match shape {
        FieldsShape::Positional(fs) => assert_eq!(fs.len(), 1),
        _ => panic!("wrong shape"),
    }
}
