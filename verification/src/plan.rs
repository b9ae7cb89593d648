//! The declaration planner: turns one type declaration and its
//! configuration directive into the set of mapping declarations handed to
//! the emitter.
//!
//! For the requested parameter (the directive's default, or the first
//! declared type parameter when no directive is given) and for each
//! `parameter as name` request, the planner validates the request —
//! the parameter must be a declared type parameter, some field must depend
//! on it, and every dependent field must be mappable — and produces one
//! declaration carrying the routine pair's body and the bounds its
//! signature needs.  Any violation rejects the whole invocation.
//!
//! Besides the requested exposures, every declared type parameter whose
//! fields can all be synthesized gets a per-position declaration (the
//! capability other generated routines delegate to); a parameter whose
//! fields cannot be synthesized is simply not given a per-position
//! operation, unless it was itself requested.
//!
//! A declaration is exposed as the uniform operation exactly when its
//! signature needs no bounds (`fn_where` empty); otherwise it becomes an
//! inherent method.  The position index counts all declared parameters,
//! lifetime and const parameters included, matching the argument positions
//! a delegation addresses.
use crate::assemble::{assemble, spec_assemble, AggregateExpr};
use crate::ast::{
    DataBody, FieldDescriptor, FieldsShape, GenError, GenericParam, ParamKind, Request, Sym,
    TypeDeclaration, TypeExpr, WherePredicate,
};
use crate::contains::{spec_contains, type_contains_param};
use crate::subst::{
    spec_pred_changes, spec_pred_substed, spec_substed, spec_where_mentions, subst_predicate,
    subst_type,
};
use vstd::prelude::*;

verus! {

broadcast use vstd::std_specs::vec::group_vec_axioms;

/// How one generated routine pair is exposed.
#[derive(PartialEq, Eq, Structural, Clone, Copy, Debug)]
pub enum Exposure {
    /// The default pair, `fmap`/`try_fmap`.
    Default,
    /// An ad hoc pair under a chosen name.
    Named(Sym),
    /// The per-position pair other generated routines delegate to.
    Position,
}

/// One planned routine pair: its exposure, its parameter and that
/// parameter's position among all declared parameters, the bounds the
/// routine's own signature must carry (empty means the uniform operation
/// applies), and the reconstruction expression serving both the infallible
/// and the fallible routine.
#[derive(PartialEq, Eq, Debug)]
pub struct Declaration {
    pub exposure: Exposure,
    pub param: Sym,
    pub index: u64,
    pub fn_where: Vec<WherePredicate>,
    pub body: AggregateExpr,
}

/// The first declared type parameter named `ident`, at or after `i`,
/// counting every declared parameter.
pub open spec fn spec_find_index_from(params: Seq<GenericParam>, i: int, ident: Sym) -> Option<int>
    decreases params.len() - i,
{
    if i < 0 || i >= params.len() {
        Option::None
    } else if params[i].kind is Type && params[i].name == ident {
        Option::Some(i)
    } else {
        spec_find_index_from(params, i + 1, ident)
    }
}

/// The name of the first declared type parameter, if any.
pub open spec fn spec_first_type_param_from(params: Seq<GenericParam>, i: int) -> Option<Sym>
    decreases params.len() - i,
{
    if i < 0 || i >= params.len() {
        Option::None
    } else if params[i].kind is Type {
        Option::Some(params[i].name)
    } else {
        spec_first_type_param_from(params, i + 1)
    }
}

/// Whether some field of the list depends on `p`.
pub open spec fn spec_fields_depend(fs: Seq<FieldDescriptor>, p: Sym) -> bool {
    exists|i: int| 0 <= i < fs.len() && spec_contains(#[trigger] fs[i].ty, p)
}

/// Whether some field of the shape depends on `p`.
pub open spec fn spec_shape_depends(shape: FieldsShape, p: Sym) -> bool {
    match shape {
        FieldsShape::Named(fs) => spec_fields_depend(fs@, p),
        FieldsShape::Positional(fs) => spec_fields_depend(fs@, p),
        FieldsShape::Unit => false,
    }
}

/// Whether some field anywhere in the declaration depends on `p`.
pub open spec fn spec_body_depends(body: DataBody, p: Sym) -> bool {
    match body {
        DataBody::Struct(shape) => spec_shape_depends(shape, p),
        DataBody::Enum(vs) => exists|i: int|
            0 <= i < vs.len() && spec_shape_depends(#[trigger] vs[i].fields, p),
    }
}

/// The declared type parameters that carry bounds, in order, from `i` on.
pub open spec fn spec_bounded_params(params: Seq<GenericParam>, i: int) -> Seq<GenericParam>
    decreases params.len() - i,
{
    if i < 0 || i >= params.len() {
        Seq::empty()
    } else if params[i].kind is Type && params[i].bounds.len() > 0 {
        seq![params[i]] + spec_bounded_params(params, i + 1)
    } else {
        spec_bounded_params(params, i + 1)
    }
}

/// The declared type parameters that get a per-position declaration, in
/// order, from `i` on: those whose dependent fields can all be synthesized.
pub open spec fn spec_ref_params(decl: TypeDeclaration, i: int) -> Seq<GenericParam>
    decreases decl.params.len() - i,
{
    if i < 0 || i >= decl.params.len() {
        Seq::empty()
    } else if decl.params[i].kind is Type && spec_assemble(decl, decl.params[i].name) is Ok {
        seq![decl.params[i]] + spec_ref_params(decl, i + 1)
    } else {
        spec_ref_params(decl, i + 1)
    }
}

/// The number of predicates the rewritten `where` clause contributes: all
/// of them when the clause mentions the parameter, none otherwise.
pub open spec fn spec_fnwc_base(wc: Seq<WherePredicate>, p: Sym) -> int {
    if spec_where_mentions(wc, p) {
        wc.len() as int
    } else {
        0
    }
}

/// The predicate restating the bounds of one declared parameter against the
/// routine's own signature: the bounded type is the parameter itself (the
/// synthetic result parameter, if it is the mapped one), and each bound has
/// the mapped parameter replaced.
pub open spec fn spec_param_pred(gp: GenericParam, p: Sym, tgt: Sym, r: WherePredicate) -> bool {
    &&& r.bounded_ty == TypeExpr::ParamRef(
        if gp.name == p {
            tgt
        } else {
            gp.name
        },
    )
    &&& r.bounds.len() == gp.bounds.len()
    &&& forall|j: int|
        0 <= j < gp.bounds.len() ==> spec_substed(gp.bounds@[j], p, tgt, #[trigger] r.bounds@[j])
}

/// What the routine's own `where` clause must hold, given the type's
/// `where` clause and declared parameters.
pub open spec fn spec_fn_where_rel(
    wc: Seq<WherePredicate>,
    params: Seq<GenericParam>,
    p: Sym,
    tgt: Sym,
    out: Seq<WherePredicate>,
) -> bool {
    let base = spec_fnwc_base(wc, p);
    let bps = spec_bounded_params(params, 0);
    &&& out.len() == base + bps.len()
    &&& forall|i: int| 0 <= i < base ==> spec_pred_substed(wc[i], p, tgt, #[trigger] out[i])
    &&& forall|k: int|
        0 <= k < bps.len() ==> spec_param_pred(bps[k], p, tgt, #[trigger] out[base + k])
}

/// Why planning one requested parameter fails, if it does: the parameter
/// must be declared as a type parameter, some field must depend on it, and
/// its assembly must succeed.
pub open spec fn spec_plan_one_err(decl: TypeDeclaration, p: Sym) -> Option<GenError> {
    if spec_find_index_from(decl.params@, 0, p) is None {
        Option::Some(GenError::NoMappableParameter)
    } else if !spec_body_depends(decl.body, p) {
        Option::Some(GenError::NoDependentField(p))
    } else {
        match spec_assemble(decl, p) {
            Result::Ok(_) => Option::None,
            Result::Err(e) => Option::Some(e),
        }
    }
}

/// The first exposed name that collides with an earlier one, if any.
pub open spec fn spec_first_dup_from(pairs: Seq<(Sym, Sym)>, i: int) -> Option<Sym>
    decreases pairs.len() - i,
{
    if i < 0 || i >= pairs.len() {
        Option::None
    } else if exists|k: int| 0 <= k < i && (#[trigger] pairs[k]).1 == pairs[i].1 {
        Option::Some(pairs[i].1)
    } else {
        spec_first_dup_from(pairs, i + 1)
    }
}

/// The first error among the named requests, in request order.
pub open spec fn spec_named_err_from(
    decl: TypeDeclaration,
    pairs: Seq<(Sym, Sym)>,
    i: int,
) -> Option<GenError>
    decreases pairs.len() - i,
{
    if i < 0 || i >= pairs.len() {
        Option::None
    } else {
        match spec_plan_one_err(decl, pairs[i].0) {
            Option::Some(e) => Option::Some(e),
            Option::None => spec_named_err_from(decl, pairs, i + 1),
        }
    }
}

/// The default parameter a request selects: the directive's default, or
/// with no directive the first declared type parameter.
pub open spec fn spec_default_param(decl: TypeDeclaration, req: Option<Request>) -> Option<Sym> {
    match req {
        Option::None => spec_first_type_param_from(decl.params@, 0),
        Option::Some(rq) => rq.default,
    }
}

/// Why the whole planning invocation fails, if it does, in the order the
/// checks are made: exposed-name collisions first, then a missing mappable
/// parameter when no directive names one and none is declared, then the
/// default request, then each named request in order.
pub open spec fn spec_plan_err(decl: TypeDeclaration, req: Option<Request>) -> Option<GenError> {
    let pairs = spec_name_map(req);
    match spec_first_dup_from(pairs, 0) {
        Option::Some(n) => Option::Some(GenError::DuplicateExposedName(n)),
        Option::None => {
            if req is None && spec_first_type_param_from(decl.params@, 0) is None {
                Option::Some(GenError::NoMappableParameter)
            } else {
                match spec_default_param(decl, req) {
                    Option::Some(d) => match spec_plan_one_err(decl, d) {
                        Option::Some(e) => Option::Some(e),
                        Option::None => spec_named_err_from(decl, pairs, 0),
                    },
                    Option::None => spec_named_err_from(decl, pairs, 0),
                }
            }
        },
    }
}

/// The named-exposure pairs of a request; none without a directive.
pub open spec fn spec_name_map(req: Option<Request>) -> Seq<(Sym, Sym)> {
    match req {
        Option::None => Seq::empty(),
        Option::Some(rq) => rq.name_map@,
    }
}

/// One planned declaration is exactly what the plan promises for its
/// parameter and exposure.
pub open spec fn spec_decl_rel(
    decl: TypeDeclaration,
    p: Sym,
    exp: Exposure,
    tgt: Sym,
    d: Declaration,
) -> bool {
    &&& d.exposure == exp
    &&& d.param == p
    &&& Option::Some(d.index as int) == spec_find_index_from(decl.params@, 0, p)
    &&& spec_fn_where_rel(decl.where_clause@, decl.params@, p, tgt, d.fn_where@)
    &&& spec_assemble(decl, p) == Result::<
        crate::assemble::AggregateExprV,
        GenError,
    >::Ok(d.body@)
}

/// Finds the position of the type parameter named `ident` among all
/// declared parameters.
#[verifier::loop_isolation(false)]
pub fn find_index(params: &Vec<GenericParam>, ident: Sym) -> (r: Option<usize>)
    ensures
        (match r {
            Option::Some(i) => spec_find_index_from(params@, 0, ident) == Option::Some(i as int),
            Option::None => spec_find_index_from(params@, 0, ident) is None,
        }),
{
    let mut i: usize = 0;
    while i < params.len()
        invariant
            0 <= i <= params.len(),
            spec_find_index_from(params@, 0, ident) == spec_find_index_from(
                params@,
                i as int,
                ident,
            ),
        decreases params.len() - i,
    {
        let gp = &params[i];
        if matches!(gp.kind, ParamKind::Type) && gp.name == ident {
            return Option::Some(i);
        }
        i += 1;
    }
    Option::None
}

/// Finds the first declared type parameter.
#[verifier::loop_isolation(false)]
pub fn first_type_param(params: &Vec<GenericParam>) -> (r: Option<Sym>)
    ensures
        r == spec_first_type_param_from(params@, 0),
{
    let mut i: usize = 0;
    while i < params.len()
        invariant
            0 <= i <= params.len(),
            spec_first_type_param_from(params@, 0) == spec_first_type_param_from(
                params@,
                i as int,
            ),
        decreases params.len() - i,
    {
        let gp = &params[i];
        if matches!(gp.kind, ParamKind::Type) {
            return Option::Some(gp.name);
        }
        i += 1;
    }
    Option::None
}

/// Whether some field of the list depends on `p`.
#[verifier::loop_isolation(false)]
pub fn fields_depend(fs: &Vec<FieldDescriptor>, p: Sym) -> (r: bool)
    ensures
        r == spec_fields_depend(fs@, p),
{
    let mut i: usize = 0;
    while i < fs.len()
        invariant
            0 <= i <= fs.len(),
            forall|j: int| 0 <= j < i ==> !spec_contains(#[trigger] fs@[j].ty, p),
        decreases fs.len() - i,
    {
        if type_contains_param(&fs[i].ty, p) {
            proof {
                assert(spec_contains(fs@[i as int].ty, p));
            }
            return true;
        }
        i += 1;
    }
    false
}

/// Whether some field anywhere in the declaration depends on `p`.
#[verifier::loop_isolation(false)]
pub fn has_dependent_field(decl: &TypeDeclaration, p: Sym) -> (r: bool)
    ensures
        r == spec_body_depends(decl.body, p),
{
    match &decl.body {
        DataBody::Struct(shape) => match shape {
            FieldsShape::Named(fs) => fields_depend(fs, p),
            FieldsShape::Positional(fs) => fields_depend(fs, p),
            FieldsShape::Unit => false,
        },
        DataBody::Enum(vs) => {
            let mut i: usize = 0;
            while i < vs.len()
                invariant
                    0 <= i <= vs.len(),
                    forall|j: int| 0 <= j < i ==> !spec_shape_depends(#[trigger] vs@[j].fields, p),
                decreases vs.len() - i,
            {
                let dep = match &vs[i].fields {
                    FieldsShape::Named(fs) => fields_depend(fs, p),
                    FieldsShape::Positional(fs) => fields_depend(fs, p),
                    FieldsShape::Unit => false,
                };
                if dep {
                    proof {
                        assert(spec_shape_depends(vs@[i as int].fields, p));
                    }
                    return true;
                }
                i += 1;
            }
            false
        },
    }
}

/// Computes the `where` clause of one generated routine: the type's own
/// clause rewritten, when it mentions the parameter, plus one predicate per
/// declared parameter that carries bounds.  An empty result means the
/// routine can be the uniform operation.
#[verifier::loop_isolation(false)]
pub fn create_fn_where_clause(
    wc: &Vec<WherePredicate>,
    params: &Vec<GenericParam>,
    p: Sym,
    tgt: Sym,
) -> (r: Vec<WherePredicate>)
    ensures
        spec_fn_where_rel(wc@, params@, p, tgt, r@),
{
    let mut mapped: Vec<WherePredicate> = Vec::new();
    let mut mentions = false;
    let mut i: usize = 0;
    while i < wc.len()
        invariant
            0 <= i <= wc.len(),
            mapped@.len() == i,
            forall|j: int| 0 <= j < i ==> spec_pred_substed(wc@[j], p, tgt, #[trigger] mapped@[j]),
            mentions == exists|j: int| 0 <= j < i && spec_pred_changes(#[trigger] wc@[j], p),
        decreases wc.len() - i,
    {
        let (pr, ch) = subst_predicate(&wc[i], p, tgt);
        proof {
            if ch {
                assert(spec_pred_changes(wc@[i as int], p));
            }
        }
        mapped.push(pr);
        mentions = mentions || ch;
        i += 1;
    }
    let mut out: Vec<WherePredicate> = if mentions {
        mapped
    } else {
        Vec::new()
    };
    let ghost base = spec_fnwc_base(wc@, p);
    proof {
        assert(base == out@.len());
    }
    let mut k: usize = 0;
    let ghost mut gps = Seq::<GenericParam>::empty();
    while k < params.len()
        invariant
            0 <= k <= params.len(),
            spec_bounded_params(params@, 0) == gps + spec_bounded_params(params@, k as int),
            out@.len() == base + gps.len(),
            forall|j: int| 0 <= j < base ==> spec_pred_substed(wc@[j], p, tgt, #[trigger] out@[j]),
            forall|j: int|
                0 <= j < gps.len() ==> spec_param_pred(gps[j], p, tgt, #[trigger] out@[base + j]),
        decreases params.len() - k,
    {
        let gp = &params[k];
        if matches!(gp.kind, ParamKind::Type) && gp.bounds.len() > 0 {
            let bounded = if gp.name == p {
                TypeExpr::ParamRef(tgt)
            } else {
                TypeExpr::ParamRef(gp.name)
            };
            let mut bs: Vec<TypeExpr> = Vec::new();
            let mut j: usize = 0;
            while j < gp.bounds.len()
                invariant
                    0 <= j <= gp.bounds.len(),
                    bs@.len() == j,
                    forall|l: int|
                        0 <= l < j ==> spec_substed(gp.bounds@[l], p, tgt, #[trigger] bs@[l]),
                decreases gp.bounds.len() - j,
            {
                let (b2, _) = subst_type(&gp.bounds[j], p, tgt);
                bs.push(b2);
                j += 1;
            }
            let pred = WherePredicate { bounded_ty: bounded, bounds: bs };
            proof {
                assert(spec_param_pred(params@[k as int], p, tgt, pred));
            }
            out.push(pred);
            proof {
                let old_gps = gps;
                gps = gps.push(params@[k as int]);
                assert(old_gps + (seq![params@[k as int]] + spec_bounded_params(params@, k + 1))
                    =~= gps + spec_bounded_params(params@, k + 1));
            }
        }
        k += 1;
    }
    proof {
        assert(gps + Seq::<GenericParam>::empty() =~= gps);
        assert(gps == spec_bounded_params(params@, 0));
    }
    out
}

/// A declared type parameter is always found by the index scan.
pub proof fn lemma_find_index_some(params: Seq<GenericParam>, lo: int, j: int)
    requires
        0 <= lo <= j < params.len(),
        params[j].kind is Type,
    ensures
        spec_find_index_from(params, lo, params[j].name) is Some,
    decreases j - lo,
{
    if !(params[lo].kind is Type && params[lo].name == params[j].name) {
        lemma_find_index_some(params, lo + 1, j);
    }
}

/// Plans one requested parameter: validates it and produces its
/// declaration.
pub fn plan_one(decl: &TypeDeclaration, p: Sym, exp: Exposure, tgt: Sym) -> (r: Result<
    Declaration,
    GenError,
>)
    ensures
        (match r {
            Result::Ok(d) => spec_plan_one_err(*decl, p) is None && spec_decl_rel(
                *decl,
                p,
                exp,
                tgt,
                d,
            ),
            Result::Err(e) => spec_plan_one_err(*decl, p) == Option::Some(e),
        }),
{
    match find_index(&decl.params, p) {
        Option::None => Result::Err(GenError::NoMappableParameter),
        Option::Some(ix) => {
            if !has_dependent_field(decl, p) {
                Result::Err(GenError::NoDependentField(p))
            } else {
                match assemble(decl, p) {
                    Result::Err(e) => Result::Err(e),
                    Result::Ok(body) => {
                        let fn_where = create_fn_where_clause(
                            &decl.where_clause,
                            &decl.params,
                            p,
                            tgt,
                        );
                        Result::Ok(
                            Declaration {
                                exposure: exp,
                                param: p,
                                index: ix as u64,
                                fn_where,
                                body,
                            },
                        )
                    },
                }
            }
        },
    }
}

/// The requested exposures already planned, at the head of the output: the
/// default pair if one was requested, then one pair per named request.
pub open spec fn spec_head_rel(
    decl: TypeDeclaration,
    dp: Option<Sym>,
    nm: Seq<(Sym, Sym)>,
    upto: int,
    tgt: Sym,
    out: Seq<Declaration>,
) -> bool {
    let dcount: int = if dp is Some {
        1
    } else {
        0
    };
    &&& out.len() == dcount + upto
    &&& (dp matches Option::Some(d) ==> spec_decl_rel(decl, d, Exposure::Default, tgt, out[0]))
    &&& forall|j: int|
        0 <= j < upto ==> spec_decl_rel(
            decl,
            (#[trigger] nm[j]).0,
            Exposure::Named(nm[j].1),
            tgt,
            out[dcount + j],
        )
}

/// Plans a whole generation request: the default exposure, the named
/// exposures, and the per-position capability table, in that order; or the
/// first error that rejects the invocation.
#[verifier::loop_isolation(false)]
pub fn plan(decl: &TypeDeclaration, req: &Option<Request>, tgt: Sym) -> (r: Result<
    Vec<Declaration>,
    GenError,
>)
    ensures
        (match r {
            Result::Ok(ds) => {
                let dp = spec_default_param(*decl, *req);
                let nm = spec_name_map(*req);
                let rps = spec_ref_params(*decl, 0);
                let dcount: int = if dp is Some {
                    1
                } else {
                    0
                };
                &&& spec_plan_err(*decl, *req) is None
                &&& ds@.len() == dcount + nm.len() + rps.len()
                &&& spec_head_rel(*decl, dp, nm, nm.len() as int, tgt, ds@.take(
                    dcount + nm.len(),
                ))
                &&& forall|j: int|
                    0 <= j < rps.len() ==> spec_decl_rel(
                        *decl,
                        (#[trigger] rps[j]).name,
                        Exposure::Position,
                        tgt,
                        ds@[dcount + nm.len() + j],
                    )
            },
            Result::Err(e) => spec_plan_err(*decl, *req) == Option::Some(e),
        }),
{
    let ghost nm = spec_name_map(*req);
    // Reject colliding exposed names first.
    if let Option::Some(rq) = req {
        let mut i: usize = 0;
        while i < rq.name_map.len()
            invariant
                0 <= i <= rq.name_map.len(),
                spec_first_dup_from(nm, 0) == spec_first_dup_from(nm, i as int),
            decreases rq.name_map.len() - i,
        {
            let name = rq.name_map[i].1;
            let mut k: usize = 0;
            let mut found = false;
            while k < i
                invariant
                    0 <= k <= i,
                    found == exists|l: int| 0 <= l < k && (#[trigger] nm[l]).1 == name,
                decreases i - k,
            {
                if rq.name_map[k].1 == name {
                    proof {
                        assert((nm[k as int]).1 == name);
                    }
                    found = true;
                }
                k += 1;
            }
            if found {
                return Result::Err(GenError::DuplicateExposedName(name));
            }
            i += 1;
        }
    }
    // Resolve the default parameter.
    let dp: Option<Sym> = match req {
        Option::None => match first_type_param(&decl.params) {
            Option::Some(s) => Option::Some(s),
            Option::None => {
                return Result::Err(GenError::NoMappableParameter);
            },
        },
        Option::Some(rq) => rq.default,
    };
    let mut out: Vec<Declaration> = Vec::new();
    let ghost dcount: int = if dp is Some {
        1int
    } else {
        0int
    };
    // The default exposure.
    if let Option::Some(d) = dp {
        match plan_one(decl, d, Exposure::Default, tgt) {
            Result::Ok(dd) => {
                out.push(dd);
            },
            Result::Err(e) => {
                return Result::Err(e);
            },
        }
    }
    // The named exposures, in request order.
    if let Option::Some(rq) = req {
        let mut i: usize = 0;
        while i < rq.name_map.len()
            invariant
                0 <= i <= rq.name_map.len(),
                spec_named_err_from(*decl, nm, 0) == spec_named_err_from(*decl, nm, i as int),
                spec_head_rel(*decl, dp, nm, i as int, tgt, out@),
            decreases rq.name_map.len() - i,
        {
            let p = rq.name_map[i].0;
            let name = rq.name_map[i].1;
            match plan_one(decl, p, Exposure::Named(name), tgt) {
                Result::Ok(dd) => {
                    out.push(dd);
                },
                Result::Err(e) => {
                    return Result::Err(e);
                },
            }
            i += 1;
        }
    }
    let ghost head_len = dcount + nm.len();
    proof {
        assert(out@.len() == head_len);
        assert(out@.take(head_len as int) =~= out@);
    }
    // The per-position capability table.
    let mut k: usize = 0;
    let ghost mut rps = Seq::<GenericParam>::empty();
    while k < decl.params.len()
        invariant
            0 <= k <= decl.params.len(),
            spec_ref_params(*decl, 0) == rps + spec_ref_params(*decl, k as int),
            out@.len() == head_len + rps.len(),
            spec_head_rel(*decl, dp, nm, nm.len() as int, tgt, out@.take(head_len as int)),
            forall|j: int|
                0 <= j < rps.len() ==> spec_decl_rel(
                    *decl,
                    (#[trigger] rps[j]).name,
                    Exposure::Position,
                    tgt,
                    out@[head_len + j],
                ),
        decreases decl.params.len() - k,
    {
        let gp_kind_type = matches!(decl.params[k].kind, ParamKind::Type);
        if gp_kind_type {
            let pname = decl.params[k].name;
            match assemble(decl, pname) {
                Result::Ok(body) => {
                    let ix = match find_index(&decl.params, pname) {
                        Option::Some(ix) => ix,
                        Option::None => {
                            proof {
                                lemma_find_index_some(decl.params@, 0, k as int);
                            }
                            unreached()
                        },
                    };
                    let fn_where = create_fn_where_clause(
                        &decl.where_clause,
                        &decl.params,
                        pname,
                        tgt,
                    );
                    let ghost oldout = out@;
                    out.push(
                        Declaration {
                            exposure: Exposure::Position,
                            param: pname,
                            index: ix as u64,
                            fn_where,
                            body,
                        },
                    );
                    proof {
                        let old_rps = rps;
                        rps = rps.push(decl.params@[k as int]);
                        assert(old_rps + (seq![decl.params@[k as int]] + spec_ref_params(
                            *decl,
                            k + 1,
                        )) =~= rps + spec_ref_params(*decl, k + 1));
                        assert(out@.take(head_len as int) =~= oldout.take(head_len as int));
                    }
                },
                Result::Err(_) => {
                },
            }
        }
        k += 1;
    }
    proof {
        assert(rps + Seq::<GenericParam>::empty() =~= rps);
        assert(rps == spec_ref_params(*decl, 0));
        assert(out@.take(head_len as int) =~= out@.subrange(0, head_len as int));
    }
    Result::Ok(out)
}

} // verus!
