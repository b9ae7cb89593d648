use functor_derive::assemble::{assemble, AggregateExpr, FieldInit, ShapeKind, VariantInit};
use functor_derive::ast::{
    DataBody, FieldDescriptor, FieldId, FieldPath, FieldsShape, GenError, GenericParam, ParamKind,
    Request, Sym, TypeArg, TypeDeclaration, TypeExpr, VariantDescriptor, WherePredicate,
};
use functor_derive::plan::{create_fn_where_clause, find_index, plan, Declaration, Exposure};
use functor_derive::subst::subst_type;
use functor_derive::synth::{DelegateArg, MappingExpr};

const T: Sym = Sym(1);
const S: Sym = Sym(2);
const B: Sym = Sym(9);
const NAME: Sym = Sym(20);
const VALUE: Sym = Sym(21);
const TAG: Sym = Sym(22);
const CLONE: Sym = Sym(23);
const VEC: Sym = Sym(24);
const LEAF: Sym = Sym(25);
const NODE: Sym = Sym(26);
const EXPOSED: Sym = Sym(27);

fn tparam(name: Sym) -> GenericParam {
    GenericParam { kind: ParamKind::Type, name, bounds: vec![] }
}

fn simple_struct() -> TypeDeclaration {
    // A two-field record: one field of the parameter's type, one plain field.
    TypeDeclaration {
        name: NAME,
        params: vec![tparam(T)],
        where_clause: vec![],
        body: DataBody::Struct(FieldsShape::Named(vec![
            FieldDescriptor { id: FieldId::Named(VALUE), ty: TypeExpr::ParamRef(T) },
            FieldDescriptor {
                id: FieldId::Named(TAG),
                ty: TypeExpr::Named { qualified: false, head: TAG, args: vec![] },
            },
        ])),
    }
}

#[test]
fn assemble_struct_maps_value_and_passes_tag() {
    let decl = simple_struct();
    let r = assemble(&decl, T).unwrap();
    assert_eq!(
        r,
        AggregateExpr::StructLit {
            name: NAME,
            named: true,
            fields: vec![
                FieldInit {
                    id: FieldId::Named(VALUE),
                    expr: MappingExpr::Apply(Box::new(MappingExpr::SelfField(FieldId::Named(
                        VALUE
                    )))),
                },
                FieldInit {
                    id: FieldId::Named(TAG),
                    expr: MappingExpr::SelfField(FieldId::Named(TAG)),
                },
            ],
        }
    );
}

#[test]
fn assemble_positional_struct() {
    let decl = TypeDeclaration {
        name: NAME,
        params: vec![tparam(T)],
        where_clause: vec![],
        body: DataBody::Struct(FieldsShape::Positional(vec![FieldDescriptor {
            id: FieldId::Position(0),
            ty: TypeExpr::ParamRef(T),
        }])),
    };
    let r = assemble(&decl, T).unwrap();
    assert_eq!(
        r,
        AggregateExpr::StructLit {
            name: NAME,
            named: false,
            fields: vec![FieldInit {
                id: FieldId::Position(0),
                expr: MappingExpr::Apply(Box::new(MappingExpr::SelfField(FieldId::Position(0)))),
            }],
        }
    );
}

#[test]
fn assemble_enum_binds_and_rebuilds() {
    let decl = TypeDeclaration {
        name: NAME,
        params: vec![tparam(T)],
        where_clause: vec![],
        body: DataBody::Enum(vec![
            VariantDescriptor {
                name: LEAF,
                fields: FieldsShape::Unit,
            },
            VariantDescriptor {
                name: NODE,
                fields: FieldsShape::Positional(vec![FieldDescriptor {
                    id: FieldId::Position(0),
                    ty: TypeExpr::ParamRef(T),
                }]),
            },
        ]),
    };
    let r = assemble(&decl, T).unwrap();
    assert_eq!(
        r,
        AggregateExpr::EnumMatch {
            name: NAME,
            arms: vec![
                VariantInit { variant: LEAF, shape: ShapeKind::Unit, fields: vec![] },
                VariantInit {
                    variant: NODE,
                    shape: ShapeKind::Positional,
                    fields: vec![FieldInit {
                        id: FieldId::Position(0),
                        expr: MappingExpr::Apply(Box::new(MappingExpr::Binding(
                            FieldId::Position(0)
                        ))),
                    }],
                },
            ],
        }
    );
}

#[test]
fn assemble_unit_struct_is_rejected() {
    let decl = TypeDeclaration {
        name: NAME,
        params: vec![tparam(T)],
        where_clause: vec![],
        body: DataBody::Struct(FieldsShape::Unit),
    };
    assert_eq!(assemble(&decl, T), Err(GenError::NoDependentField(T)));
}

#[test]
fn assemble_reports_opaque_field() {
    let decl = TypeDeclaration {
        name: NAME,
        params: vec![tparam(T)],
        where_clause: vec![],
        body: DataBody::Struct(FieldsShape::Named(vec![FieldDescriptor {
            id: FieldId::Named(VALUE),
            ty: TypeExpr::Tuple(vec![
                TypeExpr::Opaque(vec![TypeExpr::ParamRef(T)]),
                TypeExpr::ParamRef(T),
            ]),
        }])),
    };
    assert_eq!(
        assemble(&decl, T),
        Err(GenError::UnsupportedFieldShape(
            T,
            FieldPath { variant: None, field: FieldId::Named(VALUE) }
        ))
    );
}

#[test]
fn find_index_counts_every_parameter() {
    // A const parameter stands before the type parameter: its position
    // still counts.
    let params = vec![
        GenericParam { kind: ParamKind::Const, name: S, bounds: vec![] },
        tparam(T),
    ];
    assert_eq!(find_index(&params, T), Some(1));
    assert_eq!(find_index(&params, S), None);
}

#[test]
fn subst_replaces_bare_occurrences() {
    let t = TypeExpr::Named {
        qualified: false,
        head: VEC,
        args: vec![TypeArg::Type(TypeExpr::ParamRef(T))],
    };
    let (r, changed) = subst_type(&t, T, B);
    assert!(changed);
    assert_eq!(
        r,
        TypeExpr::Named {
            qualified: false,
            head: VEC,
            args: vec![TypeArg::Type(TypeExpr::ParamRef(B))],
        }
    );
    let (r2, changed2) = subst_type(&t, S, B);
    assert!(!changed2);
    assert_eq!(r2, t);
}

#[test]
fn fn_where_clause_empty_without_bounds() {
    let r = create_fn_where_clause(&vec![], &vec![tparam(T)], T, B);
    assert!(r.is_empty());
}

#[test]
fn fn_where_clause_restates_parameter_bounds() {
    let params = vec![GenericParam {
        kind: ParamKind::Type,
        name: T,
        bounds: vec![TypeExpr::Named { qualified: false, head: CLONE, args: vec![] }],
    }];
    let r = create_fn_where_clause(&vec![], &params, T, B);
    assert_eq!(
        r,
        vec![WherePredicate {
            bounded_ty: TypeExpr::ParamRef(B),
            bounds: vec![TypeExpr::Named { qualified: false, head: CLONE, args: vec![] }],
        }]
    );
}

#[test]
fn fn_where_clause_keeps_clause_that_mentions_parameter() {
    let wc = vec![WherePredicate {
        bounded_ty: TypeExpr::ParamRef(T),
        bounds: vec![TypeExpr::Named { qualified: false, head: CLONE, args: vec![] }],
    }];
    let r = create_fn_where_clause(&wc, &vec![tparam(T)], T, B);
    assert_eq!(
        r,
        vec![WherePredicate {
            bounded_ty: TypeExpr::ParamRef(B),
            bounds: vec![TypeExpr::Named { qualified: false, head: CLONE, args: vec![] }],
        }]
    );
}

#[test]
fn fn_where_clause_drops_unrelated_clause() {
    let wc = vec![WherePredicate {
        bounded_ty: TypeExpr::Named { qualified: false, head: TAG, args: vec![] },
        bounds: vec![TypeExpr::Named { qualified: false, head: CLONE, args: vec![] }],
    }];
    let r = create_fn_where_clause(&wc, &vec![tparam(T)], T, B);
    assert!(r.is_empty());
}

#[test]
fn plan_default_uses_first_type_parameter() {
    let decl = simple_struct();
    let ds = plan(&decl, &None, B).unwrap();
    // The default pair, then the per-position pair for the same parameter.
    assert_eq!(ds.len(), 2);
    assert_eq!(ds[0].exposure, Exposure::Default);
    assert_eq!(ds[0].param, T);
    assert_eq!(ds[0].index, 0);
    assert!(ds[0].fn_where.is_empty());
    assert_eq!(ds[1].exposure, Exposure::Position);
    assert_eq!(ds[1].param, T);
    assert_eq!(ds[0].body, ds[1].body);
}

#[test]
fn plan_named_exposure() {
    let decl = simple_struct();
    let req = Some(Request { default: None, name_map: vec![(T, EXPOSED)] });
    let ds = plan(&decl, &req, B).unwrap();
    assert_eq!(ds.len(), 2);
    assert_eq!(ds[0].exposure, Exposure::Named(EXPOSED));
    assert_eq!(ds[0].param, T);
}

#[test]
fn plan_rejects_duplicate_exposed_names() {
    let decl = simple_struct();
    let req = Some(Request { default: None, name_map: vec![(T, EXPOSED), (T, EXPOSED)] });
    assert_eq!(plan(&decl, &req, B), Err(GenError::DuplicateExposedName(EXPOSED)));
}

#[test]
fn plan_rejects_unknown_parameter() {
    let decl = simple_struct();
    let req = Some(Request { default: Some(S), name_map: vec![] });
    assert_eq!(plan(&decl, &req, B), Err(GenError::NoMappableParameter));
}

#[test]
fn plan_rejects_declaration_without_type_parameters() {
    let decl = TypeDeclaration {
        name: NAME,
        params: vec![],
        where_clause: vec![],
        body: DataBody::Struct(FieldsShape::Unit),
    };
    assert_eq!(plan(&decl, &None, B), Err(GenError::NoMappableParameter));
}

#[test]
fn plan_rejects_parameter_without_dependent_field() {
    // Two parameters, but no field depends on the second.
    let mut decl = simple_struct();
    decl.params.push(tparam(S));
    let req = Some(Request { default: Some(S), name_map: vec![] });
    assert_eq!(plan(&decl, &req, B), Err(GenError::NoDependentField(S)));
}

#[test]
fn plan_bounded_parameter_is_ad_hoc() {
    let mut decl = simple_struct();
    decl.params[0].bounds =
        vec![TypeExpr::Named { qualified: false, head: CLONE, args: vec![] }];
    let ds = plan(&decl, &None, B).unwrap();
    assert!(!ds[0].fn_where.is_empty());
}

#[test]
fn plan_two_parameters_make_two_position_pairs() {
    let decl = TypeDeclaration {
        name: NAME,
        params: vec![tparam(T), tparam(S)],
        where_clause: vec![],
        body: DataBody::Struct(FieldsShape::Named(vec![
            FieldDescriptor { id: FieldId::Named(VALUE), ty: TypeExpr::ParamRef(T) },
            FieldDescriptor { id: FieldId::Named(TAG), ty: TypeExpr::ParamRef(S) },
        ])),
    };
    let ds = plan(&decl, &None, B).unwrap();
    let positions: Vec<&Declaration> =
        ds.iter().filter(|d| d.exposure == Exposure::Position).collect();
    assert_eq!(positions.len(), 2);
    assert_eq!(positions[0].param, T);
    assert_eq!(positions[0].index, 0);
    assert_eq!(positions[1].param, S);
    assert_eq!(positions[1].index, 1);
}

#[test]
fn plan_recursive_declaration_terminates() {
    // An optional self-owned nested occurrence: the declaration mentions
    // itself; planning needs no cycle detection.
    let decl = TypeDeclaration {
        name: NODE,
        params: vec![tparam(T)],
        where_clause: vec![],
        body: DataBody::Struct(FieldsShape::Named(vec![
            FieldDescriptor {
                id: FieldId::Named(VALUE),
                ty: TypeExpr::ParamRef(T),
            },
            FieldDescriptor {
                id: FieldId::Named(TAG),
                ty: TypeExpr::Named {
                    qualified: false,
                    head: VEC,
                    args: vec![TypeArg::Type(TypeExpr::Named {
                        qualified: false,
                        head: NODE,
                        args: vec![TypeArg::Type(TypeExpr::ParamRef(T))],
                    })],
                },
            },
        ])),
    };
    let ds = plan(&decl, &None, B).unwrap();
    assert_eq!(ds[0].param, T);
    match &ds[0].body {
        AggregateExpr::StructLit { fields, .. } => {
            // The self-referential field delegates into the nested
            // occurrence's own operation.
            assert_eq!(
                fields[1].expr,
                MappingExpr::Delegate {
                    recv: Box::new(MappingExpr::SelfField(FieldId::Named(TAG))),
                    pos: 0,
                    arg: DelegateArg::Closure(Box::new(MappingExpr::Delegate {
                        recv: Box::new(MappingExpr::Var),
                        pos: 0,
                        arg: DelegateArg::UserFn,
                    })),
                }
            );
        },
        _ => panic!("expected a struct literal"),
    }
}
