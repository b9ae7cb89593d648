//! The intended meaning of a generated mapping routine, and the laws it
//! obeys.
//!
//! A `Value` is a model of one runtime value, shaped like a type
//! expression: a value of the mapped parameter's type is a `Param` leaf, an
//! instance of a named type keeps, per type-argument position, the
//! collection of values sitting at that position, and tuples and arrays
//! keep their components.  `map_value` is the meaning of the infallible
//! routine — apply the user function at every occurrence of the parameter,
//! touch nothing else — and `try_map_value` the meaning of the fallible
//! one, which stops at the first failure in traversal order (fields left to
//! right, positions in order, elements in order, depth first).
//!
//! The laws proved here: mapping with the identity reproduces the value;
//! mapping composes; positions whose type does not involve the parameter
//! are untouched; two parameters map independently; mapping preserves the
//! value's shape and applies the user function at exactly the parameter's
//! occurrences, in traversal order; the fallible routine returns exactly
//! the first failure.
use crate::ast::{FieldDescriptor, Sym, TypeArg, TypeExpr};
use crate::contains::spec_contains;
use vstd::prelude::*;

verus! {

broadcast use vstd::std_specs::vec::group_vec_axioms;

/// A model of one runtime value, shaped like a type expression.
pub enum Value {
    /// A value of the mapped parameter's type.
    Param(u64),
    /// A value of any other atomic type (another parameter included).
    Base(u64),
    /// An instance of a named type: slot `i` holds the values at type
    /// argument position `i`, however deeply the container nests them.
    Ctor(Seq<Seq<Value>>),
    /// A tuple value.
    Tup(Seq<Value>),
    /// A fixed-size array value.
    Arr(Seq<Value>),
    /// The contents of a structurally opaque position.
    Opq(u64),
}

/// The value `v` is shaped like the type `t`, with `Param` leaves exactly
/// at the occurrences of the parameter `p`.
pub open spec fn wf(t: TypeExpr, p: Sym, v: Value) -> bool
    decreases t, v, 0int,
{
    match t {
        TypeExpr::ParamRef(n) => if n == p {
            v is Param
        } else {
            v is Base
        },
        TypeExpr::Named { qualified, head, args } => {
            if !qualified && head == p && args.len() == 0 {
                v is Param
            } else {
                match v {
                    Value::Ctor(slots) => {
                        &&& slots.len() == args.len()
                        &&& forall|i: int|
                            0 <= i < args.len() ==> wf_slot(args[i], p, #[trigger] slots[i])
                    },
                    _ => false,
                }
            }
        },
        TypeExpr::Tuple(es) => match v {
            Value::Tup(vs) => {
                &&& vs.len() == es.len()
                &&& forall|i: int| 0 <= i < es.len() ==> wf(es[i], p, #[trigger] vs[i])
            },
            _ => false,
        },
        TypeExpr::Array(e, n) => match v {
            Value::Arr(vs) => {
                &&& vs.len() == n
                &&& forall|i: int| 0 <= i < vs.len() ==> wf(*e, p, #[trigger] vs[i])
            },
            _ => false,
        },
        TypeExpr::Grouping(e) => wf(*e, p, v),
        TypeExpr::Opaque(_) => v is Opq,
    }
}

/// The values of one type-argument slot are each shaped like the argument.
pub open spec fn wf_slot(a: TypeArg, p: Sym, slot: Seq<Value>) -> bool
    decreases a, slot, 1int,
{
    match a {
        TypeArg::Type(t) => forall|k: int| 0 <= k < slot.len() ==> wf(t, p, #[trigger] slot[k]),
        TypeArg::Lifetime => slot.len() == 0,
        TypeArg::Const => slot.len() == 0,
    }
}

/// The meaning of the infallible mapping routine: apply `f` at every
/// occurrence of the parameter, touch nothing else.  A position whose type
/// does not involve the parameter is passed through unchanged, exactly as
/// the synthesizer passes it through.
pub open spec fn map_value(t: TypeExpr, p: Sym, f: spec_fn(u64) -> u64, v: Value) -> Value
    decreases t,
{
    if !spec_contains(t, p) {
        v
    } else {
        match t {
            TypeExpr::ParamRef(_) => match v {
                Value::Param(x) => Value::Param(f(x)),
                _ => v,
            },
            TypeExpr::Named { qualified, head, args } => {
                if !qualified && head == p && args.len() == 0 {
                    match v {
                        Value::Param(x) => Value::Param(f(x)),
                        _ => v,
                    }
                } else {
                    match v {
                        Value::Ctor(slots) => Value::Ctor(
                            Seq::new(
                                slots.len(),
                                |i: int|
                                    if 0 <= i < args.len() && spec_contains_arg_at(args@, i, p) {
                                        map_slot(args[i], p, f, slots[i])
                                    } else {
                                        slots[i]
                                    },
                            ),
                        ),
                        _ => v,
                    }
                }
            },
            TypeExpr::Tuple(es) => match v {
                Value::Tup(vs) => Value::Tup(
                    Seq::new(
                        vs.len(),
                        |i: int|
                            if 0 <= i < es.len() {
                                map_value(es[i], p, f, vs[i])
                            } else {
                                vs[i]
                            },
                    ),
                ),
                _ => v,
            },
            TypeExpr::Array(e, _) => match v {
                Value::Arr(vs) => Value::Arr(
                    Seq::new(
                        vs.len(),
                        |i: int|
                            if 0 <= i < vs.len() {
                                map_value(*e, p, f, vs[i])
                            } else {
                                vs[i]
                            },
                    ),
                ),
                _ => v,
            },
            TypeExpr::Grouping(e) => map_value(*e, p, f, v),
            TypeExpr::Opaque(_) => v,
        }
    }
}

/// Whether the type argument at position `i` participates in mapping.
pub open spec fn spec_contains_arg_at(args: Seq<TypeArg>, i: int, p: Sym) -> bool {
    crate::contains::spec_arg_contains(args[i], p)
}

/// The meaning of mapping one type-argument slot.
pub open spec fn map_slot(a: TypeArg, p: Sym, f: spec_fn(u64) -> u64, slot: Seq<Value>) -> Seq<
    Value,
>
    decreases a,
{
    match a {
        TypeArg::Type(t) => Seq::new(
            slot.len(),
            |k: int|
                if 0 <= k < slot.len() {
                    map_value(t, p, f, slot[k])
                } else {
                    slot[k]
                },
        ),
        TypeArg::Lifetime => slot,
        TypeArg::Const => slot,
    }
}

/// The meaning of one mapping routine applied to a whole aggregate: each
/// field's value is transformed against its own type, in declaration order.
pub open spec fn map_record(
    fields: Seq<FieldDescriptor>,
    p: Sym,
    f: spec_fn(u64) -> u64,
    vals: Seq<Value>,
) -> Seq<Value> {
    Seq::new(
        vals.len(),
        |i: int|
            if 0 <= i < fields.len() {
                map_value(fields[i].ty, p, f, vals[i])
            } else {
                vals[i]
            },
    )
}

/// Positions whose type does not involve the parameter are untouched: the
/// non-interference law, at a single position.
pub proof fn lemma_map_untouched(t: TypeExpr, p: Sym, f: spec_fn(u64) -> u64, v: Value)
    requires
        !spec_contains(t, p),
    ensures
        map_value(t, p, f, v) == v,
{
}

/// Non-interference for a whole aggregate: every field whose type does not
/// involve the target parameter is returned bit for bit unchanged.
pub proof fn lemma_record_non_interference(
    fields: Seq<FieldDescriptor>,
    p: Sym,
    f: spec_fn(u64) -> u64,
    vals: Seq<Value>,
    i: int,
)
    requires
        0 <= i < fields.len(),
        i < vals.len(),
        !spec_contains(fields[i].ty, p),
    ensures
        map_record(fields, p, f, vals)[i] == vals[i],
{
}

/// Independent multi-parameter mapping: mapping over `p` leaves every field
/// typed by a different parameter `q` (and not involving `p`) unchanged,
/// and symmetrically.
pub proof fn lemma_record_independent(
    fields: Seq<FieldDescriptor>,
    p: Sym,
    q: Sym,
    f: spec_fn(u64) -> u64,
    vals: Seq<Value>,
    i: int,
)
    requires
        0 <= i < fields.len(),
        i < vals.len(),
        spec_contains(fields[i].ty, q),
        !spec_contains(fields[i].ty, p),
    ensures
        map_record(fields, p, f, vals)[i] == vals[i],
{
}

/// Mapping preserves well-shapedness: the result is structurally isomorphic
/// to the input, shaped like the same type.
pub proof fn lemma_map_preserves_wf(t: TypeExpr, p: Sym, f: spec_fn(u64) -> u64, v: Value)
    requires
        wf(t, p, v),
    ensures
        wf(t, p, map_value(t, p, f, v)),
    decreases t, v, 0int,
{
    if !spec_contains(t, p) {
    } else {
        match t {
            TypeExpr::Named { qualified, head, args } => {
                if !(!qualified && head == p && args.len() == 0) {
                    if let Value::Ctor(slots) = v {
                        assert forall|i: int| 0 <= i < args.len() implies wf_slot(
                            args[i],
                            p,
                            #[trigger] map_value(t, p, f, v)->Ctor_0[i],
                        ) by {
                            if spec_contains_arg_at(args@, i, p) {
                                lemma_map_slot_preserves_wf(args[i], p, f, slots[i]);
                            }
                        }
                    }
                }
            },
            TypeExpr::Tuple(es) => {
                if let Value::Tup(vs) = v {
                    assert forall|i: int| 0 <= i < es.len() implies wf(
                        es[i],
                        p,
                        #[trigger] map_value(t, p, f, v)->Tup_0[i],
                    ) by {
                        lemma_map_preserves_wf(es[i], p, f, vs[i]);
                    }
                }
            },
            TypeExpr::Array(e, _) => {
                if let Value::Arr(vs) = v {
                    assert forall|i: int|
                        0 <= i < map_value(t, p, f, v)->Arr_0.len() implies wf(
                        *e,
                        p,
                        #[trigger] map_value(t, p, f, v)->Arr_0[i],
                    ) by {
                        lemma_map_preserves_wf(*e, p, f, vs[i]);
                    }
                }
            },
            TypeExpr::Grouping(e) => {
                lemma_map_preserves_wf(*e, p, f, v);
            },
            _ => {},
        }
    }
}

/// Mapping preserves the shape of one slot.
pub proof fn lemma_map_slot_preserves_wf(a: TypeArg, p: Sym, f: spec_fn(u64) -> u64, slot: Seq<
    Value,
>)
    requires
        wf_slot(a, p, slot),
    ensures
        wf_slot(a, p, map_slot(a, p, f, slot)),
    decreases a, slot, 1int,
{
    match a {
        TypeArg::Type(t) => {
            assert forall|k: int| 0 <= k < slot.len() implies wf(
                t,
                p,
                #[trigger] map_slot(a, p, f, slot)[k],
            ) by {
                lemma_map_preserves_wf(t, p, f, slot[k]);
            }
        },
        _ => {},
    }
}

/// Structural fidelity: mapping with the identity function reproduces an
/// equal value.
pub proof fn lemma_map_identity(t: TypeExpr, p: Sym, f: spec_fn(u64) -> u64, v: Value)
    requires
        wf(t, p, v),
        forall|x: u64| #[trigger] f(x) == x,
    ensures
        map_value(t, p, f, v) == v,
    decreases t, v, 0int,
{
    if !spec_contains(t, p) {
    } else {
        match t {
            TypeExpr::Named { qualified, head, args } => {
                if !(!qualified && head == p && args.len() == 0) {
                    if let Value::Ctor(slots) = v {
                        assert forall|i: int| 0 <= i < slots.len() implies map_value(
                            t,
                            p,
                            f,
                            v,
                        )->Ctor_0[i] == slots[i] by {
                            if 0 <= i < args.len() && spec_contains_arg_at(args@, i, p) {
                                lemma_map_slot_identity(args[i], p, f, slots[i]);
                            }
                        }
                        assert(map_value(t, p, f, v)->Ctor_0 =~= slots);
                    }
                }
            },
            TypeExpr::Tuple(es) => {
                if let Value::Tup(vs) = v {
                    assert forall|i: int| 0 <= i < vs.len() implies map_value(
                        t,
                        p,
                        f,
                        v,
                    )->Tup_0[i] == vs[i] by {
                        if 0 <= i < es.len() {
                            lemma_map_identity(es[i], p, f, vs[i]);
                        }
                    }
                    assert(map_value(t, p, f, v)->Tup_0 =~= vs);
                }
            },
            TypeExpr::Array(e, _) => {
                if let Value::Arr(vs) = v {
                    assert forall|i: int| 0 <= i < vs.len() implies map_value(
                        t,
                        p,
                        f,
                        v,
                    )->Arr_0[i] == vs[i] by {
                        lemma_map_identity(*e, p, f, vs[i]);
                    }
                    assert(map_value(t, p, f, v)->Arr_0 =~= vs);
                }
            },
            TypeExpr::Grouping(e) => {
                lemma_map_identity(*e, p, f, v);
            },
            _ => {},
        }
    }
}

/// Identity on one slot.
pub proof fn lemma_map_slot_identity(a: TypeArg, p: Sym, f: spec_fn(u64) -> u64, slot: Seq<Value>)
    requires
        wf_slot(a, p, slot),
        forall|x: u64| #[trigger] f(x) == x,
    ensures
        map_slot(a, p, f, slot) == slot,
    decreases a, slot, 1int,
{
    match a {
        TypeArg::Type(t) => {
            assert forall|k: int| 0 <= k < slot.len() implies map_slot(a, p, f, slot)[k]
                == slot[k] by {
                lemma_map_identity(t, p, f, slot[k]);
            }
            assert(map_slot(a, p, f, slot) =~= slot);
        },
        _ => {},
    }
}

/// The composition law: mapping with `f` and then with `g` equals mapping
/// once with their composition.
pub proof fn lemma_map_compose(
    t: TypeExpr,
    p: Sym,
    f: spec_fn(u64) -> u64,
    g: spec_fn(u64) -> u64,
    v: Value,
)
    requires
        wf(t, p, v),
    ensures
        map_value(t, p, g, map_value(t, p, f, v)) == map_value(
            t,
            p,
            |x: u64| g(f(x)),
            v,
        ),
    decreases t, v, 0int,
{
    let gf = |x: u64| g(f(x));
    if !spec_contains(t, p) {
    } else {
        match t {
            TypeExpr::Named { qualified, head, args } => {
                if !(!qualified && head == p && args.len() == 0) {
                    if let Value::Ctor(slots) = v {
                        let w = map_value(t, p, f, v);
                        assert forall|i: int| 0 <= i < slots.len() implies map_value(
                            t,
                            p,
                            g,
                            w,
                        )->Ctor_0[i] == map_value(t, p, gf, v)->Ctor_0[i] by {
                            if 0 <= i < args.len() && spec_contains_arg_at(args@, i, p) {
                                lemma_map_slot_compose(args[i], p, f, g, slots[i]);
                            }
                        }
                        assert(map_value(t, p, g, w)->Ctor_0 =~= map_value(t, p, gf, v)->Ctor_0);
                    }
                }
            },
            TypeExpr::Tuple(es) => {
                if let Value::Tup(vs) = v {
                    let w = map_value(t, p, f, v);
                    assert forall|i: int| 0 <= i < vs.len() implies map_value(t, p, g, w)->Tup_0[i]
                        == map_value(t, p, gf, v)->Tup_0[i] by {
                        if 0 <= i < es.len() {
                            lemma_map_compose(es[i], p, f, g, vs[i]);
                        }
                    }
                    assert(map_value(t, p, g, w)->Tup_0 =~= map_value(t, p, gf, v)->Tup_0);
                }
            },
            TypeExpr::Array(e, _) => {
                if let Value::Arr(vs) = v {
                    let w = map_value(t, p, f, v);
                    assert forall|i: int| 0 <= i < vs.len() implies map_value(t, p, g, w)->Arr_0[i]
                        == map_value(t, p, gf, v)->Arr_0[i] by {
                        lemma_map_compose(*e, p, f, g, vs[i]);
                    }
                    assert(map_value(t, p, g, w)->Arr_0 =~= map_value(t, p, gf, v)->Arr_0);
                }
            },
            TypeExpr::Grouping(e) => {
                lemma_map_compose(*e, p, f, g, v);
            },
            _ => {},
        }
    }
}

/// The values at the occurrences of the parameter inside `v`, in traversal
/// order: positions in order, elements in order, depth first.
pub open spec fn leaves(t: TypeExpr, p: Sym, v: Value) -> Seq<u64>
    decreases t, v, 0int,
{
    if !spec_contains(t, p) {
        Seq::empty()
    } else {
        match t {
            TypeExpr::ParamRef(_) => match v {
                Value::Param(x) => seq![x],
                _ => Seq::empty(),
            },
            TypeExpr::Named { qualified, head, args } => {
                if !qualified && head == p && args.len() == 0 {
                    match v {
                        Value::Param(x) => seq![x],
                        _ => Seq::empty(),
                    }
                } else {
                    match v {
                        Value::Ctor(slots) => leaves_slots(args@, p, slots, 0),
                        _ => Seq::empty(),
                    }
                }
            },
            TypeExpr::Tuple(es) => match v {
                Value::Tup(vs) => leaves_tuple(es@, p, vs, 0),
                _ => Seq::empty(),
            },
            TypeExpr::Array(e, _) => match v {
                Value::Arr(vs) => leaves_list(*e, p, vs, 0),
                _ => Seq::empty(),
            },
            TypeExpr::Grouping(e) => leaves(*e, p, v),
            TypeExpr::Opaque(_) => Seq::empty(),
        }
    }
}

/// The parameter occurrences inside the slots of a constructor, from
/// position `i` on.
pub open spec fn leaves_slots(args: Seq<TypeArg>, p: Sym, slots: Seq<Seq<Value>>, i: int) -> Seq<
    u64,
>
    decreases args, slots, slots.len() - i,
{
    if i < 0 || i >= slots.len() {
        Seq::empty()
    } else {
        let head = if 0 <= i < args.len() && spec_contains_arg_at(args, i, p) {
            match args[i] {
                TypeArg::Type(t) => leaves_list(t, p, slots[i], 0),
                TypeArg::Lifetime => Seq::empty(),
                TypeArg::Const => Seq::empty(),
            }
        } else {
            Seq::empty()
        };
        head + leaves_slots(args, p, slots, i + 1)
    }
}

/// The parameter occurrences inside a list of values of one type, from
/// element `k` on.
pub open spec fn leaves_list(t: TypeExpr, p: Sym, vs: Seq<Value>, k: int) -> Seq<u64>
    decreases t, vs, vs.len() - k,
{
    if k < 0 || k >= vs.len() {
        Seq::empty()
    } else {
        leaves(t, p, vs[k]) + leaves_list(t, p, vs, k + 1)
    }
}

/// The parameter occurrences inside the components of a tuple, from
/// component `i` on.
pub open spec fn leaves_tuple(es: Seq<TypeExpr>, p: Sym, vs: Seq<Value>, i: int) -> Seq<u64>
    decreases es, vs, vs.len() - i,
{
    if i < 0 || i >= vs.len() {
        Seq::empty()
    } else {
        let head = if i < es.len() {
            leaves(es[i], p, vs[i])
        } else {
            Seq::empty()
        };
        head + leaves_tuple(es, p, vs, i + 1)
    }
}

/// Mapping applies the user function at every occurrence of the parameter,
/// and at nothing else: the result's occurrences are exactly the input's
/// occurrences passed through `f`, in the same traversal order.  Together
/// with `lemma_map_preserves_wf` this says the result is structurally
/// isomorphic to the input with `f` applied at every leaf occurrence.
pub proof fn lemma_map_leaves(t: TypeExpr, p: Sym, f: spec_fn(u64) -> u64, v: Value)
    requires
        wf(t, p, v),
    ensures
        leaves(t, p, map_value(t, p, f, v)) == leaves(t, p, v).map_values(f),
    decreases t, v, 0int,
{
    if !spec_contains(t, p) {
        assert(leaves(t, p, v).map_values(f) =~= Seq::empty());
    } else {
        let w = map_value(t, p, f, v);
        match t {
            TypeExpr::ParamRef(_) => {
                if let Value::Param(x) = v {
                    assert(seq![x].map_values(f) =~= seq![f(x)]);
                }
            },
            TypeExpr::Named { qualified, head, args } => {
                if !qualified && head == p && args.len() == 0 {
                    if let Value::Param(x) = v {
                        assert(seq![x].map_values(f) =~= seq![f(x)]);
                    }
                } else {
                    if let Value::Ctor(slots) = v {
                        lemma_map_leaves_slots(args@, p, f, slots, 0);
                        let mapped = Seq::new(
                            slots.len(),
                            |j: int|
                                if 0 <= j < args@.len() && spec_contains_arg_at(args@, j, p) {
                                    map_slot(args@[j], p, f, slots[j])
                                } else {
                                    slots[j]
                                },
                        );
                        assert(w->Ctor_0 =~= mapped);
                    }
                }
            },
            TypeExpr::Tuple(es) => {
                if let Value::Tup(vs) = v {
                    lemma_map_leaves_tuple(es@, p, f, vs, 0);
                    let mapped = Seq::new(
                        vs.len(),
                        |j: int|
                            if 0 <= j < es@.len() {
                                map_value(es@[j], p, f, vs[j])
                            } else {
                                vs[j]
                            },
                    );
                    assert(w->Tup_0 =~= mapped);
                }
            },
            TypeExpr::Array(e, _) => {
                if let Value::Arr(vs) = v {
                    let ws = w->Arr_0;
                    assert forall|j: int| 0 <= j < vs.len() implies wf(*e, p, #[trigger] vs[j])
                        && ws[j] == map_value(*e, p, f, vs[j]) by {}
                    lemma_map_leaves_list(*e, p, f, vs, ws, 0);
                }
            },
            TypeExpr::Grouping(e) => {
                lemma_map_leaves(*e, p, f, v);
            },
            TypeExpr::Opaque(_) => {},
        }
    }
}

/// The leaves law for the slots of a constructor.
proof fn lemma_map_leaves_slots(
    args: Seq<TypeArg>,
    p: Sym,
    f: spec_fn(u64) -> u64,
    slots: Seq<Seq<Value>>,
    i: int,
)
    requires
        forall|j: int| 0 <= j < args.len() ==> wf_slot(args[j], p, #[trigger] slots[j]),
        args.len() == slots.len(),
    ensures
        leaves_slots(
            args,
            p,
            Seq::new(
                slots.len(),
                |j: int|
                    if 0 <= j < args.len() && spec_contains_arg_at(args, j, p) {
                        map_slot(args[j], p, f, slots[j])
                    } else {
                        slots[j]
                    },
            ),
            i,
        ) == leaves_slots(args, p, slots, i).map_values(f),
    decreases args, slots, slots.len() - i,
{
    let mapped = Seq::new(
        slots.len(),
        |j: int|
            if 0 <= j < args.len() && spec_contains_arg_at(args, j, p) {
                map_slot(args[j], p, f, slots[j])
            } else {
                slots[j]
            },
    );
    if i < 0 || i >= slots.len() {
        assert(leaves_slots(args, p, slots, i).map_values(f) =~= Seq::empty());
    } else {
        lemma_map_leaves_slots(args, p, f, slots, i + 1);
        let head = if 0 <= i < args.len() && spec_contains_arg_at(args, i, p) {
            match args[i] {
                TypeArg::Type(t) => leaves_list(t, p, slots[i], 0),
                TypeArg::Lifetime => Seq::empty(),
                TypeArg::Const => Seq::empty(),
            }
        } else {
            Seq::empty()
        };
        if 0 <= i < args.len() && spec_contains_arg_at(args, i, p) {
            match args[i] {
                TypeArg::Type(t) => {
                    let ws = map_slot(args[i], p, f, slots[i]);
                    assert forall|k: int| 0 <= k < slots[i].len() implies wf(
                        t,
                        p,
                        #[trigger] slots[i][k],
                    ) && ws[k] == map_value(t, p, f, slots[i][k]) by {}
                    lemma_map_leaves_list(t, p, f, slots[i], ws, 0);
                },
                _ => {},
            }
        }
        assert((head + leaves_slots(args, p, slots, i + 1)).map_values(f) =~= head.map_values(f)
            + leaves_slots(args, p, slots, i + 1).map_values(f));
    }
}

/// The leaves law for a list of values of one type, stated against any
/// elementwise-mapped copy of the list.
proof fn lemma_map_leaves_list(
    t: TypeExpr,
    p: Sym,
    f: spec_fn(u64) -> u64,
    vs: Seq<Value>,
    ws: Seq<Value>,
    k: int,
)
    requires
        ws.len() == vs.len(),
        forall|j: int|
            0 <= j < vs.len() ==> wf(t, p, #[trigger] vs[j]) && ws[j] == map_value(
                t,
                p,
                f,
                vs[j],
            ),
    ensures
        leaves_list(t, p, ws, k) == leaves_list(t, p, vs, k).map_values(f),
    decreases t, vs, vs.len() - k,
{
    if k < 0 || k >= vs.len() {
        assert(leaves_list(t, p, vs, k).map_values(f) =~= Seq::empty());
    } else {
        lemma_map_leaves(t, p, f, vs[k]);
        lemma_map_leaves_list(t, p, f, vs, ws, k + 1);
        assert((leaves(t, p, vs[k]) + leaves_list(t, p, vs, k + 1)).map_values(f) =~= leaves(
            t,
            p,
            vs[k],
        ).map_values(f) + leaves_list(t, p, vs, k + 1).map_values(f));
    }
}

/// The leaves law for the components of a tuple.
proof fn lemma_map_leaves_tuple(
    es: Seq<TypeExpr>,
    p: Sym,
    f: spec_fn(u64) -> u64,
    vs: Seq<Value>,
    i: int,
)
    requires
        vs.len() == es.len(),
        forall|j: int| 0 <= j < es.len() ==> wf(es[j], p, #[trigger] vs[j]),
    ensures
        leaves_tuple(
            es,
            p,
            Seq::new(
                vs.len(),
                |j: int|
                    if 0 <= j < es.len() {
                        map_value(es[j], p, f, vs[j])
                    } else {
                        vs[j]
                    },
            ),
            i,
        ) == leaves_tuple(es, p, vs, i).map_values(f),
    decreases es, vs, vs.len() - i,
{
    if i < 0 || i >= vs.len() {
        assert(leaves_tuple(es, p, vs, i).map_values(f) =~= Seq::empty());
    } else {
        lemma_map_leaves(es[i], p, f, vs[i]);
        lemma_map_leaves_tuple(es, p, f, vs, i + 1);
        assert((leaves(es[i], p, vs[i]) + leaves_tuple(es, p, vs, i + 1)).map_values(f) =~= leaves(
            es[i],
            p,
            vs[i],
        ).map_values(f) + leaves_tuple(es, p, vs, i + 1).map_values(f));
    }
}

/// The outcome of the user-supplied fallible function on one occurrence.
pub enum TryRes {
    Good(u64),
    Bad(u64),
}

/// The outcome of fallibly mapping one value.
pub enum TryVal {
    Done(Value),
    Fail(u64),
}

/// The outcome of fallibly mapping a list of values.
pub enum TrySeq {
    DoneS(Seq<Value>),
    FailS(u64),
}

/// The outcome of fallibly mapping the slots of a constructor.
pub enum TrySlots {
    DoneC(Seq<Seq<Value>>),
    FailC(u64),
}

/// The meaning of the fallible mapping routine: apply `tf` at every
/// occurrence of the parameter in traversal order — positions in order,
/// elements in order, depth first — and stop at the first failure, whose
/// error becomes the whole routine's result.
pub open spec fn try_map_value(t: TypeExpr, p: Sym, tf: spec_fn(u64) -> TryRes, v: Value) -> TryVal
    decreases t, v, 0int,
{
    if !spec_contains(t, p) {
        TryVal::Done(v)
    } else {
        match t {
            TypeExpr::ParamRef(_) => match v {
                Value::Param(x) => match tf(x) {
                    TryRes::Good(y) => TryVal::Done(Value::Param(y)),
                    TryRes::Bad(e) => TryVal::Fail(e),
                },
                _ => TryVal::Done(v),
            },
            TypeExpr::Named { qualified, head, args } => {
                if !qualified && head == p && args.len() == 0 {
                    match v {
                        Value::Param(x) => match tf(x) {
                            TryRes::Good(y) => TryVal::Done(Value::Param(y)),
                            TryRes::Bad(e) => TryVal::Fail(e),
                        },
                        _ => TryVal::Done(v),
                    }
                } else {
                    match v {
                        Value::Ctor(slots) => match try_map_slots(args@, p, tf, slots, 0) {
                            TrySlots::DoneC(ws) => TryVal::Done(Value::Ctor(ws)),
                            TrySlots::FailC(e) => TryVal::Fail(e),
                        },
                        _ => TryVal::Done(v),
                    }
                }
            },
            TypeExpr::Tuple(es) => match v {
                Value::Tup(vs) => match try_map_tuple(es@, p, tf, vs, 0) {
                    TrySeq::DoneS(ws) => TryVal::Done(Value::Tup(ws)),
                    TrySeq::FailS(e) => TryVal::Fail(e),
                },
                _ => TryVal::Done(v),
            },
            TypeExpr::Array(e, _) => match v {
                Value::Arr(vs) => match try_map_list(*e, p, tf, vs, 0) {
                    TrySeq::DoneS(ws) => TryVal::Done(Value::Arr(ws)),
                    TrySeq::FailS(err) => TryVal::Fail(err),
                },
                _ => TryVal::Done(v),
            },
            TypeExpr::Grouping(e) => try_map_value(*e, p, tf, v),
            TypeExpr::Opaque(_) => TryVal::Done(v),
        }
    }
}

/// Fallibly maps the slots of a constructor, position by position.
pub open spec fn try_map_slots(
    args: Seq<TypeArg>,
    p: Sym,
    tf: spec_fn(u64) -> TryRes,
    slots: Seq<Seq<Value>>,
    i: int,
) -> TrySlots
    decreases args, slots, slots.len() - i,
{
    if i < 0 || i >= slots.len() {
        TrySlots::DoneC(Seq::empty())
    } else {
        let head = if 0 <= i < args.len() && spec_contains_arg_at(args, i, p) {
            match args[i] {
                TypeArg::Type(t) => try_map_list(t, p, tf, slots[i], 0),
                TypeArg::Lifetime => TrySeq::DoneS(slots[i]),
                TypeArg::Const => TrySeq::DoneS(slots[i]),
            }
        } else {
            TrySeq::DoneS(slots[i])
        };
        match head {
            TrySeq::DoneS(w) => match try_map_slots(args, p, tf, slots, i + 1) {
                TrySlots::DoneC(rest) => TrySlots::DoneC(seq![w] + rest),
                TrySlots::FailC(e) => TrySlots::FailC(e),
            },
            TrySeq::FailS(e) => TrySlots::FailC(e),
        }
    }
}

/// Fallibly maps a list of values of one type, element by element.
pub open spec fn try_map_list(
    t: TypeExpr,
    p: Sym,
    tf: spec_fn(u64) -> TryRes,
    vs: Seq<Value>,
    k: int,
) -> TrySeq
    decreases t, vs, vs.len() - k,
{
    if k < 0 || k >= vs.len() {
        TrySeq::DoneS(Seq::empty())
    } else {
        match try_map_value(t, p, tf, vs[k]) {
            TryVal::Done(w) => match try_map_list(t, p, tf, vs, k + 1) {
                TrySeq::DoneS(rest) => TrySeq::DoneS(seq![w] + rest),
                TrySeq::FailS(e) => TrySeq::FailS(e),
            },
            TryVal::Fail(e) => TrySeq::FailS(e),
        }
    }
}

/// Fallibly maps the components of a tuple, left to right.
pub open spec fn try_map_tuple(
    es: Seq<TypeExpr>,
    p: Sym,
    tf: spec_fn(u64) -> TryRes,
    vs: Seq<Value>,
    i: int,
) -> TrySeq
    decreases es, vs, vs.len() - i,
{
    if i < 0 || i >= vs.len() {
        TrySeq::DoneS(Seq::empty())
    } else {
        let head = if i < es.len() {
            try_map_value(es[i], p, tf, vs[i])
        } else {
            TryVal::Done(vs[i])
        };
        match head {
            TryVal::Done(w) => match try_map_tuple(es, p, tf, vs, i + 1) {
                TrySeq::DoneS(rest) => TrySeq::DoneS(seq![w] + rest),
                TrySeq::FailS(e) => TrySeq::FailS(e),
            },
            TryVal::Fail(e) => TrySeq::FailS(e),
        }
    }
}

/// The meaning of the fallible routine over a whole aggregate: each field
/// in declaration order, stopping at the first failure.
pub open spec fn try_map_record(
    fields: Seq<FieldDescriptor>,
    p: Sym,
    tf: spec_fn(u64) -> TryRes,
    vals: Seq<Value>,
    i: int,
) -> TrySeq
    decreases fields, vals, vals.len() - i,
{
    if i < 0 || i >= vals.len() {
        TrySeq::DoneS(Seq::empty())
    } else {
        let head = if i < fields.len() {
            try_map_value(fields[i].ty, p, tf, vals[i])
        } else {
            TryVal::Done(vals[i])
        };
        match head {
            TryVal::Done(w) => match try_map_record(fields, p, tf, vals, i + 1) {
                TrySeq::DoneS(rest) => TrySeq::DoneS(seq![w] + rest),
                TrySeq::FailS(e) => TrySeq::FailS(e),
            },
            TryVal::Fail(e) => TrySeq::FailS(e),
        }
    }
}

/// Fallible short-circuit: when every field before `i` can be mapped and
/// field `i` fails with `e`, the whole aggregate mapping is exactly that
/// failure — fields after `i` play no part in the result.
pub proof fn lemma_record_first_failure(
    fields: Seq<FieldDescriptor>,
    p: Sym,
    tf: spec_fn(u64) -> TryRes,
    vals: Seq<Value>,
    i: int,
    e: u64,
)
    requires
        0 <= i < fields.len(),
        fields.len() == vals.len(),
        forall|j: int|
            0 <= j < i ==> (#[trigger] try_map_value(fields[j].ty, p, tf, vals[j])) is Done,
        try_map_value(fields[i].ty, p, tf, vals[i]) == TryVal::Fail(e),
    ensures
        try_map_record(fields, p, tf, vals, 0) == TrySeq::FailS(e),
{
    lemma_record_first_failure_from(fields, p, tf, vals, 0, i, e);
}

/// The induction behind the short-circuit law, from a start index.
proof fn lemma_record_first_failure_from(
    fields: Seq<FieldDescriptor>,
    p: Sym,
    tf: spec_fn(u64) -> TryRes,
    vals: Seq<Value>,
    k: int,
    i: int,
    e: u64,
)
    requires
        0 <= k <= i < fields.len(),
        fields.len() == vals.len(),
        forall|j: int|
            k <= j < i ==> (#[trigger] try_map_value(fields[j].ty, p, tf, vals[j])) is Done,
        try_map_value(fields[i].ty, p, tf, vals[i]) == TryVal::Fail(e),
    ensures
        try_map_record(fields, p, tf, vals, k) == TrySeq::FailS(e),
    decreases i - k,
{
    if k < i {
        lemma_record_first_failure_from(fields, p, tf, vals, k + 1, i, e);
    }
}

/// The same short-circuit law inside one fixed-size array: when every
/// element before `i` can be mapped and element `i` fails with `e`, the
/// elementwise mapping is exactly that failure.
pub proof fn lemma_list_first_failure(
    t: TypeExpr,
    p: Sym,
    tf: spec_fn(u64) -> TryRes,
    vs: Seq<Value>,
    i: int,
    e: u64,
)
    requires
        0 <= i < vs.len(),
        forall|j: int| 0 <= j < i ==> (#[trigger] try_map_value(t, p, tf, vs[j])) is Done,
        try_map_value(t, p, tf, vs[i]) == TryVal::Fail(e),
    ensures
        try_map_list(t, p, tf, vs, 0) == TrySeq::FailS(e),
{
    lemma_list_first_failure_from(t, p, tf, vs, 0, i, e);
}

/// The induction behind the elementwise short-circuit law.
proof fn lemma_list_first_failure_from(
    t: TypeExpr,
    p: Sym,
    tf: spec_fn(u64) -> TryRes,
    vs: Seq<Value>,
    k: int,
    i: int,
    e: u64,
)
    requires
        0 <= k <= i < vs.len(),
        forall|j: int| k <= j < i ==> (#[trigger] try_map_value(t, p, tf, vs[j])) is Done,
        try_map_value(t, p, tf, vs[i]) == TryVal::Fail(e),
    ensures
        try_map_list(t, p, tf, vs, k) == TrySeq::FailS(e),
    decreases i - k,
{
    if k < i {
        assert(try_map_value(t, p, tf, vs[k]) is Done);
        lemma_list_first_failure_from(t, p, tf, vs, k + 1, i, e);
        assert(try_map_list(t, p, tf, vs, k + 1) == TrySeq::FailS(e));
    } else {
        assert(try_map_value(t, p, tf, vs[k]) == TryVal::Fail(e));
    }
}

/// Composition on one slot.
pub proof fn lemma_map_slot_compose(
    a: TypeArg,
    p: Sym,
    f: spec_fn(u64) -> u64,
    g: spec_fn(u64) -> u64,
    slot: Seq<Value>,
)
    requires
        wf_slot(a, p, slot),
    ensures
        map_slot(a, p, g, map_slot(a, p, f, slot)) == map_slot(a, p, |x: u64| g(f(x)), slot),
    decreases a, slot, 1int,
{
    let gf = |x: u64| g(f(x));
    match a {
        TypeArg::Type(t) => {
            let w = map_slot(a, p, f, slot);
            assert forall|k: int| 0 <= k < slot.len() implies map_slot(a, p, g, w)[k] == map_slot(
                a,
                p,
                gf,
                slot,
            )[k] by {
                lemma_map_compose(t, p, f, g, slot[k]);
            }
            assert(map_slot(a, p, g, w) =~= map_slot(a, p, gf, slot));
        },
        _ => {},
    }
}

} // verus!
