//! The aggregate assembler: iterates over a declaration's fields or
//! variants, synthesizes the per-field mapping expressions, and assembles
//! the full reconstruction expression for the mapping routine.
//!
//! For a struct, each field is transformed against a `self` access and the
//! whole value is rebuilt as a struct literal or constructor application.
//! For an enum, each variant becomes one match arm binding its fields and
//! rebuilding the same variant.  A synthesis failure in any field aborts
//! the whole assembly with a located error; assembly never emits a partial
//! result.
use crate::ast::{
    DataBody, FieldDescriptor, FieldId, FieldPath, FieldsShape, GenError, Sym, TypeDeclaration,
    VariantDescriptor,
};
use crate::synth::{mexpr_view, spec_synth, synthesize, MappingExpr, MappingExprV};
use vstd::prelude::*;

verus! {

broadcast use vstd::std_specs::vec::group_vec_axioms;

/// One field of the rebuilt aggregate: where it goes and the expression
/// that fills it.
#[derive(PartialEq, Eq, Debug)]
pub struct FieldInit {
    pub id: FieldId,
    pub expr: MappingExpr,
}

/// The shape of one rebuilt variant.
#[derive(PartialEq, Eq, Structural, Clone, Copy, Debug)]
pub enum ShapeKind {
    Named,
    Positional,
    Unit,
}

/// One match arm: the variant, its shape, and the expressions that rebuild
/// its fields (in declaration order).
#[derive(PartialEq, Eq, Debug)]
pub struct VariantInit {
    pub variant: Sym,
    pub shape: ShapeKind,
    pub fields: Vec<FieldInit>,
}

/// The whole reconstruction expression for one mapping routine.
#[derive(PartialEq, Eq, Debug)]
pub enum AggregateExpr {
    /// A struct literal (`named` true) or tuple-struct constructor
    /// application (`named` false).
    StructLit { name: Sym, named: bool, fields: Vec<FieldInit> },
    /// A match over `self` rebuilding each variant.
    EnumMatch { name: Sym, arms: Vec<VariantInit> },
}

/// The mathematical form of a `FieldInit`.
pub struct FieldInitV {
    pub id: FieldId,
    pub expr: MappingExprV,
}

/// The mathematical form of a `VariantInit`.
pub struct VariantInitV {
    pub variant: Sym,
    pub shape: ShapeKind,
    pub fields: Seq<FieldInitV>,
}

/// The mathematical form of an `AggregateExpr`.
pub enum AggregateExprV {
    StructLit { name: Sym, named: bool, fields: Seq<FieldInitV> },
    EnumMatch { name: Sym, arms: Seq<VariantInitV> },
}

/// The mathematical form of one rebuilt field.
pub open spec fn finit_view(f: FieldInit) -> FieldInitV {
    FieldInitV { id: f.id, expr: mexpr_view(f.expr) }
}

/// The mathematical form of a list of rebuilt fields.
pub open spec fn finits_view(fs: Seq<FieldInit>) -> Seq<FieldInitV> {
    fs.map_values(|f: FieldInit| finit_view(f))
}

/// The mathematical form of one match arm.
pub open spec fn varinit_view(v: VariantInit) -> VariantInitV {
    VariantInitV { variant: v.variant, shape: v.shape, fields: finits_view(v.fields@) }
}

/// The mathematical form of a list of match arms.
pub open spec fn varinits_view(vs: Seq<VariantInit>) -> Seq<VariantInitV> {
    vs.map_values(|v: VariantInit| varinit_view(v))
}

/// The mathematical form of an `AggregateExpr`.
pub open spec fn agg_view(a: AggregateExpr) -> AggregateExprV {
    match a {
        AggregateExpr::StructLit { name, named, fields } => AggregateExprV::StructLit {
            name,
            named,
            fields: finits_view(fields@),
        },
        AggregateExpr::EnumMatch { name, arms } => AggregateExprV::EnumMatch {
            name,
            arms: varinits_view(arms@),
        },
    }
}

impl View for AggregateExpr {
    type V = AggregateExprV;

    open spec fn view(&self) -> AggregateExprV {
        agg_view(*self)
    }
}

/// The subject expression a field of the aggregate is transformed against:
/// a `self` access for struct fields, a match binding for variant fields.
pub open spec fn spec_field_subject(in_variant: bool, id: FieldId) -> MappingExprV {
    if in_variant {
        MappingExprV::Binding(id)
    } else {
        MappingExprV::SelfField(id)
    }
}

/// The rebuilt fields of one field list, from index `i` on: each field's
/// expression is synthesized against its subject, and the first synthesis
/// failure aborts with the failing field's place.
pub open spec fn spec_assemble_fields(
    fields: Seq<FieldDescriptor>,
    i: int,
    p: Sym,
    in_variant: bool,
    variant: Option<Sym>,
) -> Result<Seq<FieldInitV>, GenError>
    decreases fields, fields.len() - i,
{
    if i < 0 || i >= fields.len() {
        Result::Ok(Seq::empty())
    } else {
        match spec_synth(fields[i].ty, p, spec_field_subject(in_variant, fields[i].id)) {
            Option::Some((m, _)) => match spec_assemble_fields(fields, i + 1, p, in_variant, variant) {
                Result::Ok(rest) => Result::Ok(
                    seq![FieldInitV { id: fields[i].id, expr: m }] + rest,
                ),
                Result::Err(e) => Result::Err(e),
            },
            Option::None => Result::Err(
                GenError::UnsupportedFieldShape(p, FieldPath { variant, field: fields[i].id }),
            ),
        }
    }
}

/// The match arms for the variants of an enum, from index `i` on.
pub open spec fn spec_assemble_variants(
    variants: Seq<VariantDescriptor>,
    i: int,
    p: Sym,
) -> Result<Seq<VariantInitV>, GenError>
    decreases variants, variants.len() - i,
{
    if i < 0 || i >= variants.len() {
        Result::Ok(Seq::empty())
    } else {
        let arm = match variants[i].fields {
            FieldsShape::Named(fs) => match spec_assemble_fields(
                fs@,
                0,
                p,
                true,
                Option::Some(variants[i].name),
            ) {
                Result::Ok(fields) => Result::Ok(
                    VariantInitV { variant: variants[i].name, shape: ShapeKind::Named, fields },
                ),
                Result::Err(e) => Result::Err(e),
            },
            FieldsShape::Positional(fs) => match spec_assemble_fields(
                fs@,
                0,
                p,
                true,
                Option::Some(variants[i].name),
            ) {
                Result::Ok(fields) => Result::Ok(
                    VariantInitV {
                        variant: variants[i].name,
                        shape: ShapeKind::Positional,
                        fields,
                    },
                ),
                Result::Err(e) => Result::Err(e),
            },
            FieldsShape::Unit => Result::Ok(
                VariantInitV {
                    variant: variants[i].name,
                    shape: ShapeKind::Unit,
                    fields: Seq::empty(),
                },
            ),
        };
        match arm {
            Result::Ok(a) => match spec_assemble_variants(variants, i + 1, p) {
                Result::Ok(rest) => Result::Ok(seq![a] + rest),
                Result::Err(e) => Result::Err(e),
            },
            Result::Err(e) => Result::Err(e),
        }
    }
}

/// The whole reconstruction expression for `decl` mapped over `p`, or the
/// error that rejects the request.  A unit struct has nothing to map.
pub open spec fn spec_assemble(decl: TypeDeclaration, p: Sym) -> Result<AggregateExprV, GenError> {
    match decl.body {
        DataBody::Struct(shape) => match shape {
            FieldsShape::Named(fs) => match spec_assemble_fields(fs@, 0, p, false, Option::None) {
                Result::Ok(fields) => Result::Ok(
                    AggregateExprV::StructLit { name: decl.name, named: true, fields },
                ),
                Result::Err(e) => Result::Err(e),
            },
            FieldsShape::Positional(fs) => match spec_assemble_fields(
                fs@,
                0,
                p,
                false,
                Option::None,
            ) {
                Result::Ok(fields) => Result::Ok(
                    AggregateExprV::StructLit { name: decl.name, named: false, fields },
                ),
                Result::Err(e) => Result::Err(e),
            },
            FieldsShape::Unit => Result::Err(GenError::NoDependentField(p)),
        },
        DataBody::Enum(variants) => match spec_assemble_variants(variants@, 0, p) {
            Result::Ok(arms) => Result::Ok(
                AggregateExprV::EnumMatch { name: decl.name, arms },
            ),
            Result::Err(e) => Result::Err(e),
        },
    }
}

/// Rebuilds one field list.
#[verifier::loop_isolation(false)]
pub fn assemble_fields(
    fields: &Vec<FieldDescriptor>,
    p: Sym,
    in_variant: bool,
    variant: Option<Sym>,
) -> (r: Result<Vec<FieldInit>, GenError>)
    ensures
        (match r {
            Result::Ok(out) => spec_assemble_fields(fields@, 0, p, in_variant, variant)
                == Result::<Seq<FieldInitV>, GenError>::Ok(finits_view(out@)),
            Result::Err(e) => spec_assemble_fields(fields@, 0, p, in_variant, variant)
                == Result::<Seq<FieldInitV>, GenError>::Err(e),
        }),
{
    let mut out: Vec<FieldInit> = Vec::new();
    let mut i: usize = 0;
    while i < fields.len()
        invariant
            0 <= i <= fields.len(),
            out@.len() == i,
            spec_assemble_fields(fields@, 0, p, in_variant, variant) == (match
                spec_assemble_fields(fields@, i as int, p, in_variant, variant) {
                Result::Ok(rest) => Result::<Seq<FieldInitV>, GenError>::Ok(
                    finits_view(out@) + rest,
                ),
                Result::Err(e) => Result::<Seq<FieldInitV>, GenError>::Err(e),
            }),
        decreases fields.len() - i,
    {
        let fd = &fields[i];
        let subject = if in_variant {
            MappingExpr::Binding(fd.id)
        } else {
            MappingExpr::SelfField(fd.id)
        };
        match synthesize(&fd.ty, p, subject) {
            Option::Some((m, _)) => {
                let ghost oldout = out@;
                let ghost mv = mexpr_view(m);
                out.push(FieldInit { id: fd.id, expr: m });
                proof {
                    let newv = FieldInitV { id: fields@[i as int].id, expr: mv };
                    assert(finits_view(out@) =~= finits_view(oldout).push(newv));
                    if let Result::Ok(rest) = spec_assemble_fields(
                        fields@,
                        i + 1,
                        p,
                        in_variant,
                        variant,
                    ) {
                        assert(finits_view(oldout) + (seq![newv] + rest) =~= finits_view(out@)
                            + rest);
                    }
                }
            },
            Option::None => {
                return Result::Err(
                    GenError::UnsupportedFieldShape(p, FieldPath { variant, field: fd.id }),
                );
            },
        }
        i += 1;
    }
    proof {
        assert(finits_view(out@) + Seq::<FieldInitV>::empty() =~= finits_view(out@));
    }
    Result::Ok(out)
}

/// Assembles the full reconstruction expression for `decl` mapped over `p`.
#[verifier::loop_isolation(false)]
pub fn assemble(decl: &TypeDeclaration, p: Sym) -> (r: Result<AggregateExpr, GenError>)
    ensures
        (match r {
            Result::Ok(a) => spec_assemble(*decl, p) == Result::<AggregateExprV, GenError>::Ok(a@),
            Result::Err(e) => spec_assemble(*decl, p) == Result::<AggregateExprV, GenError>::Err(
                e,
            ),
        }),
{
    match &decl.body {
        DataBody::Struct(shape) => match shape {
            FieldsShape::Named(fs) => match assemble_fields(fs, p, false, Option::None) {
                Result::Ok(fields) => Result::Ok(
                    AggregateExpr::StructLit { name: decl.name, named: true, fields },
                ),
                Result::Err(e) => Result::Err(e),
            },
            FieldsShape::Positional(fs) => match assemble_fields(fs, p, false, Option::None) {
                Result::Ok(fields) => Result::Ok(
                    AggregateExpr::StructLit { name: decl.name, named: false, fields },
                ),
                Result::Err(e) => Result::Err(e),
            },
            FieldsShape::Unit => Result::Err(GenError::NoDependentField(p)),
        },
        DataBody::Enum(variants) => {
            let mut arms: Vec<VariantInit> = Vec::new();
            let mut i: usize = 0;
            while i < variants.len()
                invariant
                    0 <= i <= variants.len(),
                    arms@.len() == i,
                    spec_assemble_variants(variants@, 0, p) == (match spec_assemble_variants(
                        variants@,
                        i as int,
                        p,
                    ) {
                        Result::Ok(rest) => Result::<Seq<VariantInitV>, GenError>::Ok(
                            varinits_view(arms@) + rest,
                        ),
                        Result::Err(e) => Result::<Seq<VariantInitV>, GenError>::Err(e),
                    }),
                decreases variants.len() - i,
            {
                let v = &variants[i];
                let arm: VariantInit = match &v.fields {
                    FieldsShape::Named(fs) => match assemble_fields(
                        fs,
                        p,
                        true,
                        Option::Some(v.name),
                    ) {
                        Result::Ok(fields) => VariantInit {
                            variant: v.name,
                            shape: ShapeKind::Named,
                            fields,
                        },
                        Result::Err(e) => {
                            return Result::Err(e);
                        },
                    },
                    FieldsShape::Positional(fs) => match assemble_fields(
                        fs,
                        p,
                        true,
                        Option::Some(v.name),
                    ) {
                        Result::Ok(fields) => VariantInit {
                            variant: v.name,
                            shape: ShapeKind::Positional,
                            fields,
                        },
                        Result::Err(e) => {
                            return Result::Err(e);
                        },
                    },
                    FieldsShape::Unit => VariantInit {
                        variant: v.name,
                        shape: ShapeKind::Unit,
                        fields: Vec::new(),
                    },
                };
                let ghost oldarms = arms@;
                let ghost av = varinit_view(arm);
                proof {
                    if variants@[i as int].fields is Unit {
                        assert(av.fields =~= Seq::<FieldInitV>::empty());
                    }
                }
                arms.push(arm);
                proof {
                    assert(varinits_view(arms@) =~= varinits_view(oldarms).push(av));
                    if let Result::Ok(rest) = spec_assemble_variants(variants@, i + 1, p) {
                        assert(varinits_view(oldarms) + (seq![av] + rest) =~= varinits_view(arms@)
                            + rest);
                    }
                }
                i += 1;
            }
            proof {
                assert(varinits_view(arms@) + Seq::<VariantInitV>::empty() =~= varinits_view(
                    arms@,
                ));
            }
            Result::Ok(AggregateExpr::EnumMatch { name: decl.name, arms })
        },
    }
}

} // verus!
