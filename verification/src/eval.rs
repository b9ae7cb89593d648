//! The evaluation of synthesized expression trees, and the theorem tying
//! the synthesizer to the mapping semantics.
//!
//! `eval` says what a rendered `MappingExpr` computes on the model values:
//! the subject leaves denote the field's value, `Apply` applies the user
//! function at a parameter leaf, a delegation maps one argument position of
//! a constructor through the handed-on operation, and tuple and array nodes
//! work componentwise.  The theorem: whenever synthesis succeeds for a
//! field type, the synthesized tree evaluates — on every value shaped like
//! that type — to exactly `map_value`, the semantics all the mapping laws
//! are proved of.  Together with the laws this closes the chain from the
//! tree the synthesizer builds to the behaviour the library promises.
use crate::assemble::{spec_assemble_fields, spec_field_subject, FieldInitV};
use crate::ast::{FieldDescriptor, GenError, Sym, TypeArg, TypeExpr};
use crate::contains::{spec_arg_contains, spec_contains};
use crate::semantics::{map_record, map_slot, map_value, spec_contains_arg_at, wf, wf_slot, Value};
use crate::synth::{spec_synth, spec_synth_args, spec_synth_tuple, DelegateArgV, MappingExprV};
use vstd::prelude::*;

verus! {

broadcast use vstd::std_specs::vec::group_vec_axioms;

/// The user function applied at a parameter leaf; any other value is
/// untouched.
pub open spec fn apply_param(f: spec_fn(u64) -> u64, w: Value) -> Value {
    match w {
        Value::Param(x) => Value::Param(f(x)),
        _ => w,
    }
}

/// What a synthesized expression computes: `base` is the value of the
/// subject leaves (a `self` field or a match binding), `var` the value
/// bound by the nearest enclosing closure.
pub open spec fn eval(m: MappingExprV, f: spec_fn(u64) -> u64, base: Value, var: Value) -> Value
    decreases m, 0int,
{
    match m {
        MappingExprV::Var => var,
        MappingExprV::SelfField(_) => base,
        MappingExprV::Binding(_) => base,
        MappingExprV::Proj { base: inner, index } => match eval(*inner, f, base, var) {
            Value::Tup(vs) => vs[index as int],
            w => w,
        },
        MappingExprV::Apply(inner) => apply_param(f, eval(*inner, f, base, var)),
        MappingExprV::Delegate { recv, pos, arg } => match eval(*recv, f, base, var) {
            Value::Ctor(slots) => Value::Ctor(
                Seq::new(
                    slots.len(),
                    |j: int|
                        if j == pos as int && 0 <= j < slots.len() {
                            eval_slot(arg, f, slots[j])
                        } else {
                            slots[j]
                        },
                ),
            ),
            w => w,
        },
        MappingExprV::Tuple(ms) => Value::Tup(
            Seq::new(
                ms.len(),
                |j: int|
                    if 0 <= j < ms.len() {
                        eval(ms[j], f, base, var)
                    } else {
                        var
                    },
            ),
        ),
        MappingExprV::ArrayMap { recv, body } => match eval(*recv, f, base, var) {
            Value::Arr(vs) => Value::Arr(
                Seq::new(
                    vs.len(),
                    |j: int|
                        if 0 <= j < vs.len() {
                            eval(*body, f, vs[j], vs[j])
                        } else {
                            vs[j]
                        },
                ),
            ),
            w => w,
        },
    }
}

/// What a delegation's argument does to the elements of the addressed
/// slot: the forwarded user function applies at the leaves directly; a
/// closure binds each element as the placeholder of its body.
pub open spec fn eval_slot(arg: DelegateArgV, f: spec_fn(u64) -> u64, slot: Seq<Value>) -> Seq<
    Value,
>
    decreases arg, 1int,
{
    match arg {
        DelegateArgV::UserFn => Seq::new(
            slot.len(),
            |k: int|
                if 0 <= k < slot.len() {
                    apply_param(f, slot[k])
                } else {
                    slot[k]
                },
        ),
        DelegateArgV::Closure(body) => Seq::new(
            slot.len(),
            |k: int|
                if 0 <= k < slot.len() {
                    eval(*body, f, slot[k], slot[k])
                } else {
                    slot[k]
                },
        ),
    }
}

/// The synthesized expression, with the terminal tag dropped.
pub open spec fn spec_synth_expr(t: TypeExpr, p: Sym, acc: MappingExprV) -> Option<MappingExprV> {
    match spec_synth(t, p, acc) {
        Option::Some((m, _)) => Option::Some(m),
        Option::None => Option::None,
    }
}

/// A terminal synthesis means the type is a plain use of the parameter:
/// its mapping is the user function applied at the leaf.
proof fn lemma_synth_terminal(t: TypeExpr, p: Sym, acc: MappingExprV, m: MappingExprV, f: spec_fn(
    u64,
) -> u64, w: Value)
    requires
        spec_synth(t, p, acc) == Option::Some((m, true)),
    ensures
        spec_contains(t, p),
        map_value(t, p, f, w) == apply_param(f, w),
    decreases t,
{
    match t {
        TypeExpr::Grouping(inner) => {
            lemma_synth_terminal(*inner, p, acc, m, f, w);
        },
        _ => {},
    }
}

/// The componentwise characterization of tuple synthesis: component `k` of
/// the result is the synthesis of element `i + k` against its projection.
proof fn lemma_synth_tuple_index(
    es: Seq<TypeExpr>,
    i: int,
    p: Sym,
    acc: MappingExprV,
    ms: Seq<MappingExprV>,
)
    requires
        0 <= i <= es.len(),
        spec_synth_tuple(es, i, p, acc) == Option::Some(ms),
    ensures
        ms.len() == es.len() - i,
        forall|k: int|
            0 <= k < ms.len() ==> spec_synth_expr(
                es[i + k],
                p,
                MappingExprV::Proj { base: Box::new(acc), index: (i + k) as u64 },
            ) == Option::Some(#[trigger] ms[k]),
    decreases es.len() - i,
{
    if i < es.len() {
        if let Option::Some((m, _)) = spec_synth(
            es[i],
            p,
            MappingExprV::Proj { base: Box::new(acc), index: i as u64 },
        ) {
            if let Option::Some(rest) = spec_synth_tuple(es, i + 1, p, acc) {
                lemma_synth_tuple_index(es, i + 1, p, acc, rest);
                assert(ms == seq![m] + rest);
                assert forall|k: int| 0 <= k < ms.len() implies spec_synth_expr(
                    es[i + k],
                    p,
                    MappingExprV::Proj { base: Box::new(acc), index: (i + k) as u64 },
                ) == Option::Some(#[trigger] ms[k]) by {
                    if k == 0 {
                        assert(ms[0] == m);
                    } else {
                        assert(ms[k] == rest[k - 1]);
                    }
                }
            }
        }
    }
}

/// The slots of a constructor with the positions before `i` that
/// participate in mapping already mapped.
pub open spec fn slots_mapped_below(
    args: Seq<TypeArg>,
    slots: Seq<Seq<Value>>,
    p: Sym,
    f: spec_fn(u64) -> u64,
    i: int,
) -> Seq<Seq<Value>> {
    Seq::new(
        slots.len(),
        |j: int|
            if 0 <= j < args.len() && spec_contains_arg_at(args, j, p) && j < i {
                map_slot(args[j], p, f, slots[j])
            } else {
                slots[j]
            },
    )
}

/// The synthesized tree, evaluated, computes the mapping semantics: for
/// every value shaped like the field's type, the expression the
/// synthesizer builds over a subject evaluating to that value evaluates to
/// exactly `map_value` of it.
pub proof fn lemma_synth_evaluates_to_map(
    t: TypeExpr,
    p: Sym,
    acc: MappingExprV,
    m: MappingExprV,
    end: bool,
    f: spec_fn(u64) -> u64,
    v: Value,
    base: Value,
    var: Value,
)
    requires
        wf(t, p, v),
        spec_synth(t, p, acc) == Option::Some((m, end)),
        eval(acc, f, base, var) == v,
    ensures
        eval(m, f, base, var) == map_value(t, p, f, v),
    decreases t, 0int,
{
    if !spec_contains(t, p) {
    } else {
        match t {
            TypeExpr::ParamRef(_) => {},
            TypeExpr::Named { qualified, head, args } => {
                if !(!qualified && head == p && args.len() == 0) {
                    if let Value::Ctor(slots) = v {
                        assert(args.len() <= usize::MAX);
                        assert(args@.len() <= u64::MAX);
                        assert(slots_mapped_below(args@, slots, p, f, 0) =~= slots);
                        lemma_synth_args_evaluates(
                            args@,
                            0,
                            p,
                            acc,
                            m,
                            f,
                            slots,
                            base,
                            var,
                        );
                        assert(map_value(t, p, f, v)->Ctor_0 =~= slots_mapped_below(
                            args@,
                            slots,
                            p,
                            f,
                            args@.len() as int,
                        ));
                    }
                }
            },
            TypeExpr::Tuple(es) => {
                if let Value::Tup(vs) = v {
                    if let Option::Some(ms) = spec_synth_tuple(es@, 0, p, acc) {
                        lemma_synth_tuple_index(es@, 0, p, acc, ms);
                        assert forall|j: int| 0 <= j < ms.len() implies eval(m, f, base, var)->Tup_0[j]
                            == map_value(t, p, f, v)->Tup_0[j] by {
                            let accj = MappingExprV::Proj { base: Box::new(acc), index: j as u64 };
                            assert(eval(accj, f, base, var) == vs[j]);
                            if let Option::Some((mj, endj)) = spec_synth(es@[j], p, accj) {
                                assert(ms[j] == mj);
                                lemma_synth_evaluates_to_map(
                                    es@[j],
                                    p,
                                    accj,
                                    mj,
                                    endj,
                                    f,
                                    vs[j],
                                    base,
                                    var,
                                );
                            }
                        }
                        assert(eval(m, f, base, var)->Tup_0 =~= map_value(t, p, f, v)->Tup_0);
                    }
                }
            },
            TypeExpr::Array(e, _) => {
                if let Value::Arr(vs) = v {
                    if let Option::Some((body, endb)) = spec_synth(*e, p, MappingExprV::Var) {
                        assert forall|j: int| 0 <= j < vs.len() implies eval(m, f, base, var)->Arr_0[j]
                            == map_value(t, p, f, v)->Arr_0[j] by {
                            assert(eval(MappingExprV::Var, f, vs[j], vs[j]) == vs[j]);
                            lemma_synth_evaluates_to_map(
                                *e,
                                p,
                                MappingExprV::Var,
                                body,
                                endb,
                                f,
                                vs[j],
                                vs[j],
                                vs[j],
                            );
                        }
                        assert(eval(m, f, base, var)->Arr_0 =~= map_value(t, p, f, v)->Arr_0);
                    }
                }
            },
            TypeExpr::Grouping(inner) => {
                lemma_synth_evaluates_to_map(*inner, p, acc, m, end, f, v, base, var);
            },
            TypeExpr::Opaque(_) => {},
        }
    }
}

/// The componentwise characterization of field assembly: entry `k` of the
/// assembled list addresses field `i + k` and carries the synthesis of
/// that field's type against its subject.
proof fn lemma_assemble_fields_index(
    fields: Seq<FieldDescriptor>,
    i: int,
    p: Sym,
    in_variant: bool,
    variant: Option<Sym>,
    inits: Seq<FieldInitV>,
)
    requires
        0 <= i <= fields.len(),
        spec_assemble_fields(fields, i, p, in_variant, variant) == Result::<
            Seq<FieldInitV>,
            GenError,
        >::Ok(inits),
    ensures
        inits.len() == fields.len() - i,
        forall|k: int|
            0 <= k < inits.len() ==> (#[trigger] inits[k]).id == fields[i + k].id
                && spec_synth_expr(
                fields[i + k].ty,
                p,
                spec_field_subject(in_variant, fields[i + k].id),
            ) == Option::Some(inits[k].expr),
    decreases fields.len() - i,
{
    if i < fields.len() {
        if let Option::Some((m, _)) = spec_synth(
            fields[i].ty,
            p,
            spec_field_subject(in_variant, fields[i].id),
        ) {
            if let Result::Ok(rest) = spec_assemble_fields(fields, i + 1, p, in_variant, variant) {
                lemma_assemble_fields_index(fields, i + 1, p, in_variant, variant, rest);
                assert(inits == seq![FieldInitV { id: fields[i].id, expr: m }] + rest);
                assert forall|k: int| 0 <= k < inits.len() implies (#[trigger] inits[k]).id
                    == fields[i + k].id && spec_synth_expr(
                    fields[i + k].ty,
                    p,
                    spec_field_subject(in_variant, fields[i + k].id),
                ) == Option::Some(inits[k].expr) by {
                    if k == 0 {
                        assert(inits[0] == FieldInitV { id: fields[i].id, expr: m });
                    } else {
                        assert(inits[k] == rest[k - 1]);
                    }
                }
            }
        }
    }
}

/// The assembled aggregate, evaluated, computes the record mapping
/// semantics: each field expression of a successful assembly, evaluated on
/// that field's value, is exactly the aggregate mapping at that field, in
/// declaration order.
pub proof fn lemma_assemble_evaluates_to_map(
    fields: Seq<FieldDescriptor>,
    p: Sym,
    in_variant: bool,
    variant: Option<Sym>,
    inits: Seq<FieldInitV>,
    f: spec_fn(u64) -> u64,
    vals: Seq<Value>,
    k: int,
)
    requires
        spec_assemble_fields(fields, 0, p, in_variant, variant) == Result::<
            Seq<FieldInitV>,
            GenError,
        >::Ok(inits),
        vals.len() == fields.len(),
        forall|j: int| 0 <= j < fields.len() ==> wf(fields[j].ty, p, #[trigger] vals[j]),
        0 <= k < fields.len(),
    ensures
        inits.len() == fields.len(),
        inits[k].id == fields[k].id,
        eval(inits[k].expr, f, vals[k], vals[k]) == map_record(fields, p, f, vals)[k],
{
    lemma_assemble_fields_index(fields, 0, p, in_variant, variant, inits);
    let subject = spec_field_subject(in_variant, fields[k].id);
    assert(eval(subject, f, vals[k], vals[k]) == vals[k]);
    if let Option::Some((m, end)) = spec_synth(fields[k].ty, p, subject) {
        assert(inits[k].expr == m);
        lemma_synth_evaluates_to_map(
            fields[k].ty,
            p,
            subject,
            m,
            end,
            f,
            vals[k],
            vals[k],
            vals[k],
        );
    }
}

/// The induction behind the named-type case: delegating position by
/// position maps each participating slot once, so the whole chain turns
/// the constructor with positions below `i` mapped into the constructor
/// with every participating position mapped.
proof fn lemma_synth_args_evaluates(
    args: Seq<TypeArg>,
    i: int,
    p: Sym,
    acc: MappingExprV,
    m: MappingExprV,
    f: spec_fn(u64) -> u64,
    slots: Seq<Seq<Value>>,
    base: Value,
    var: Value,
)
    requires
        0 <= i,
        args.len() <= u64::MAX,
        args.len() == slots.len(),
        forall|j: int| 0 <= j < args.len() ==> wf_slot(args[j], p, #[trigger] slots[j]),
        spec_synth_args(args, i, p, acc) == Option::Some(m),
        eval(acc, f, base, var) == Value::Ctor(slots_mapped_below(args, slots, p, f, i)),
    ensures
        eval(m, f, base, var) == Value::Ctor(
            slots_mapped_below(args, slots, p, f, args.len() as int),
        ),
    decreases args, args.len() - i,
{
    if i >= args.len() {
        assert(slots_mapped_below(args, slots, p, f, i) =~= slots_mapped_below(
            args,
            slots,
            p,
            f,
            args.len() as int,
        ));
    } else if !spec_arg_contains(args[i], p) {
        assert(slots_mapped_below(args, slots, p, f, i) =~= slots_mapped_below(
            args,
            slots,
            p,
            f,
            i + 1,
        ));
        lemma_synth_args_evaluates(args, i + 1, p, acc, m, f, slots, base, var);
    } else {
        match args[i] {
            TypeArg::Type(tsub) => {
                if let Option::Some((sub, is_end)) = spec_synth(tsub, p, MappingExprV::Var) {
                    let darg = if is_end {
                        DelegateArgV::UserFn
                    } else {
                        DelegateArgV::Closure(Box::new(sub))
                    };
                    let grown = MappingExprV::Delegate {
                        recv: Box::new(acc),
                        pos: i as u64,
                        arg: darg,
                    };
                    assert(i as u64 as int == i);
                    // The delegation maps exactly slot `i`.
                    assert forall|k: int| 0 <= k < slots[i].len() implies eval_slot(
                        darg,
                        f,
                        slots[i],
                    )[k] == map_slot(args[i], p, f, slots[i])[k] by {
                        if is_end {
                            lemma_synth_terminal(
                                tsub,
                                p,
                                MappingExprV::Var,
                                sub,
                                f,
                                slots[i][k],
                            );
                        } else {
                            assert(eval(MappingExprV::Var, f, slots[i][k], slots[i][k])
                                == slots[i][k]);
                            lemma_synth_evaluates_to_map(
                                tsub,
                                p,
                                MappingExprV::Var,
                                sub,
                                false,
                                f,
                                slots[i][k],
                                slots[i][k],
                                slots[i][k],
                            );
                        }
                    }
                    assert(eval_slot(darg, f, slots[i]) =~= map_slot(args[i], p, f, slots[i]));
                    let before = slots_mapped_below(args, slots, p, f, i);
                    assert(before[i as int] == slots[i]);
                    assert forall|j: int| 0 <= j < slots.len() implies eval(
                        grown,
                        f,
                        base,
                        var,
                    )->Ctor_0[j] == slots_mapped_below(args, slots, p, f, i + 1)[j] by {
                        if j != i {
                            assert(before[j] == slots_mapped_below(args, slots, p, f, i + 1)[j]);
                        }
                    }
                    assert(eval(grown, f, base, var)->Ctor_0 =~= slots_mapped_below(
                        args,
                        slots,
                        p,
                        f,
                        i + 1,
                    ));
                    lemma_synth_args_evaluates(args, i + 1, p, grown, m, f, slots, base, var);
                }
            },
            TypeArg::Lifetime => {},
            TypeArg::Const => {},
        }
    }
}

} // verus!
