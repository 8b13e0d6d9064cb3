use fuzz_target::fuzzable_type::FuzzableType;
use fuzz_target::generic_param_map::{
    GenericBound, GenericParamDef, GenericParamDefKind, GenericParamMap, Generics, ImplId, TraitImplIndex,
    WherePredicate, combine_impl_sets, is_solvable_bound,
};
use fuzz_target::types::{GenericArgs, Path, PathSegment, PrimitiveType, Type};

fn prim(p: PrimitiveType) -> FuzzableType {
    FuzzableType::Primitive(p)
}

fn trait_path(def_id: u64, name: &str) -> Path {
    Path {
        def_id,
        segments: vec![PathSegment { name: name.to_string(), args: GenericArgs::AngleBracketed(vec![]) }],
    }
}

fn closure_path() -> Path {
    Path {
        def_id: 77,
        segments: vec![PathSegment {
            name: "Fn".to_string(),
            args: GenericArgs::Parenthesized { inputs: vec![Type::Primitive(PrimitiveType::U8)], output: None },
        }],
    }
}

fn type_param(name: &str, bounds: Vec<GenericBound>) -> GenericParamDef {
    GenericParamDef {
        name: name.to_string(),
        kind: GenericParamDefKind::Type { bounds, default: None, synthetic: false },
    }
}

const DISPLAY_ID: u64 = 500;

/// Knows one implementation: `i32: Display`, with id 42.
struct DisplayIndex {
    asked: usize,
}

impl TraitImplIndex for DisplayIndex {
    fn extract_type_impls_with_bounds(&mut self, type_: &Type, bounds: &Vec<Path>) -> Option<Vec<ImplId>> {
        self.asked += 1;
        let all_display = bounds.iter().all(|b| b.def_id == DISPLAY_ID);
        match type_ {
            Type::Primitive(PrimitiveType::I32) if all_display => Some(vec![42]),
            _ => None,
        }
    }
}

fn display_scope() -> GenericParamMap {
    let mut m = GenericParamMap::new();
    let generics = Generics {
        params: vec![type_param("T", vec![GenericBound::TraitBound(trait_path(DISPLAY_ID, "Display"))])],
        where_predicates: vec![],
    };
    m.add_generics(&generics, None);
    m
}

#[test]
fn fixed_tuple_lengths() {
    let t = FuzzableType::Tuple(vec![prim(PrimitiveType::U8), prim(PrimitiveType::U32), prim(PrimitiveType::U64)]);
    assert_eq!(t._min_length(), 13);
    assert!(t._is_fixed_length());
    assert_eq!(t._fixed_part_length(), 13);
    assert_eq!(t._dynamic_length_param_number(), 0);
    assert!(!t._is_multiple_dynamic_length());
}

#[test]
fn struct_with_str_and_u8_lengths() {
    let s = FuzzableType::Struct(
        "S".to_string(),
        None,
        vec![("name".to_string(), FuzzableType::RefStr), ("tag".to_string(), prim(PrimitiveType::U8))],
    );
    assert_eq!(s._min_length(), 1);
    assert_eq!(s._dynamic_length_param_number(), 1);
    assert_eq!(s._fixed_part_length(), 1);
    assert!(!s._is_fixed_length());
}

#[test]
fn primitive_widths() {
    assert_eq!(prim(PrimitiveType::Bool)._min_length(), 1);
    assert_eq!(prim(PrimitiveType::I16)._min_length(), 2);
    assert_eq!(prim(PrimitiveType::Char)._min_length(), 4);
    assert_eq!(prim(PrimitiveType::Usize)._min_length(), 8);
    assert_eq!(prim(PrimitiveType::U128)._min_length(), 16);
    assert_eq!(FuzzableType::NoFuzzable._min_length(), 0);
}

#[test]
fn slice_lengths_and_nesting() {
    let bytes = FuzzableType::RefSlice(Box::new(prim(PrimitiveType::U16)));
    assert_eq!(bytes._min_length(), 2);
    assert!(!bytes._is_fixed_length());
    assert_eq!(bytes._fixed_part_length(), 0);
    assert_eq!(bytes._dynamic_length_param_number(), 1);
    assert!(!bytes._is_multiple_dynamic_length());
    let strings = FuzzableType::RefSlice(Box::new(FuzzableType::RefStr));
    assert!(strings._is_multiple_dynamic_length());
    let nested = FuzzableType::Tuple(vec![prim(PrimitiveType::U8), strings]);
    assert!(nested._is_multiple_dynamic_length());
    assert_eq!(nested._dynamic_length_param_number(), 1);
    assert_eq!(nested._fixed_part_length(), 1);
}

#[test]
fn type_strings() {
    let t = FuzzableType::Tuple(vec![
        prim(PrimitiveType::U8),
        FuzzableType::RefStr,
        FuzzableType::RefSlice(Box::new(prim(PrimitiveType::I64))),
    ]);
    assert_eq!(t._to_type_string(), "(u8 ,&str ,&[i64])");
    assert_eq!(FuzzableType::Tuple(vec![])._to_type_string(), "()");
    assert_eq!(FuzzableType::NoFuzzable._to_type_string(), "nofuzzable");
    assert!(FuzzableType::RefStr.is_fuzzable());
    assert!(!FuzzableType::NoFuzzable.is_fuzzable());
}

#[test]
fn check_solution_accepts_implementing_type() {
    let m = display_scope();
    let mut index = DisplayIndex { asked: 0 };
    let r = m.check_solution(&vec![Type::Primitive(PrimitiveType::I32)], &mut index);
    assert_eq!(r, Some(vec![42]));
    assert_eq!(index.asked, 1);
}

#[test]
fn check_solution_rejects_type_without_impl() {
    let m = display_scope();
    let mut index = DisplayIndex { asked: 0 };
    let r = m.check_solution(&vec![Type::Generic("T".to_string())], &mut index);
    assert_eq!(r, None);
}

#[test]
fn check_solution_substitutes_where_clauses_and_stops_early() {
    let mut m = GenericParamMap::new();
    let generics = Generics {
        params: vec![type_param("A", vec![]), type_param("B", vec![GenericBound::TraitBound(trait_path(DISPLAY_ID, "Display"))])],
        where_predicates: vec![WherePredicate::BoundPredicate {
            ty: Type::Generic("A".to_string()),
            bounds: vec![GenericBound::TraitBound(trait_path(DISPLAY_ID, "Display"))],
        }],
    };
    m.add_generics(&generics, None);
    let good = vec![Type::Primitive(PrimitiveType::I32), Type::Primitive(PrimitiveType::I32)];
    let queries = m.solution_queries(&good);
    assert_eq!(queries.len(), 2);
    assert!(matches!(queries[1].0, Type::Primitive(PrimitiveType::I32)));
    let mut index = DisplayIndex { asked: 0 };
    assert_eq!(m.check_solution(&good, &mut index), Some(vec![42]));
    assert_eq!(index.asked, 2);
    let bad = vec![Type::Primitive(PrimitiveType::U8), Type::Primitive(PrimitiveType::U8)];
    let mut index = DisplayIndex { asked: 0 };
    assert_eq!(m.check_solution(&bad, &mut index), None);
    assert_eq!(index.asked, 1);
}

#[test]
fn combine_unions_and_deduplicates() {
    assert_eq!(combine_impl_sets(&vec![Some(vec![1, 2]), Some(vec![2, 3])]), Some(vec![1, 2, 3]));
    assert_eq!(combine_impl_sets(&vec![Some(vec![1]), None]), None);
    assert_eq!(combine_impl_sets(&vec![]), Some(vec![]));
}

#[test]
fn parenthesized_bound_is_not_solvable() {
    assert!(!is_solvable_bound(&closure_path()));
    assert!(is_solvable_bound(&trait_path(DISPLAY_ID, "Display")));
    let mut m = display_scope();
    assert!(m.is_solvable());
    m.add_generic_bounds("F", &[GenericBound::TraitBound(closure_path())]);
    assert!(!m.is_solvable());
    let mut w = GenericParamMap::new();
    w.add_generics(
        &Generics {
            params: vec![],
            where_predicates: vec![WherePredicate::BoundPredicate {
                ty: Type::Generic("G".to_string()),
                bounds: vec![GenericBound::TraitBound(closure_path())],
            }],
        },
        None,
    );
    assert!(!w.is_solvable());
}

#[test]
fn add_generics_skips_defaults_ignored_synthetic_and_non_types() {
    let mut m = GenericParamMap::new();
    let generics = Generics {
        params: vec![
            GenericParamDef { name: "'a".to_string(), kind: GenericParamDefKind::Lifetime },
            type_param("Self", vec![]),
            GenericParamDef {
                name: "D".to_string(),
                kind: GenericParamDefKind::Type {
                    bounds: vec![],
                    default: Some(Type::Primitive(PrimitiveType::U8)),
                    synthetic: false,
                },
            },
            GenericParamDef {
                name: "impl Display".to_string(),
                kind: GenericParamDefKind::Type { bounds: vec![], default: None, synthetic: true },
            },
            GenericParamDef { name: "N".to_string(), kind: GenericParamDefKind::Const },
            type_param("T", vec![GenericBound::Outlives("'a".to_string()), GenericBound::TraitBound(trait_path(DISPLAY_ID, "Display"))]),
        ],
        where_predicates: vec![
            WherePredicate::RegionPredicate { lifetime: "'a".to_string(), bounds: vec![] },
            WherePredicate::EqPredicate { lhs: Type::Infer, rhs: Type::Infer },
        ],
    };
    m.add_generics(&generics, Some("Self".to_string()));
    assert_eq!(m.generic_defs, vec!["T".to_string()]);
    assert_eq!(m.get_bounds("T").len(), 1);
    assert_eq!(m.get_bounds("T")[0].def_id, DISPLAY_ID);
    assert!(m.type_pred.is_empty());
    assert_eq!(m.iter().len(), 1);
}

#[test]
fn first_registration_wins() {
    let mut m = GenericParamMap::new();
    m.add_generic_bounds("T", &[GenericBound::TraitBound(trait_path(1, "Clone"))]);
    m.add_generic_bounds("T", &[GenericBound::TraitBound(trait_path(2, "Copy"))]);
    assert_eq!(m.generic_defs.len(), 2);
    assert_eq!(m.iter().len(), 1);
    assert_eq!(m.get_bounds("T")[0].def_id, 1);
    m.remove_type_param("T");
    assert!(m.iter().is_empty());
    assert_eq!(m.generic_defs.len(), 2);
}

#[test]
fn set_self_type_replaces_receiver() {
    let mut m = GenericParamMap::new();
    let generic_trait = Path {
        def_id: 9,
        segments: vec![PathSegment {
            name: "PartialEq".to_string(),
            args: GenericArgs::AngleBracketed(vec![fuzz_target::types::GenericArg::Type(Type::Generic("Self".to_string()))]),
        }],
    };
    m.add_generics(
        &Generics {
            params: vec![],
            where_predicates: vec![WherePredicate::BoundPredicate {
                ty: Type::Tuple(vec![Type::Generic("Self".to_string())]),
                bounds: vec![GenericBound::TraitBound(generic_trait)],
            }],
        },
        None,
    );
    m.set_self_type(&Type::Primitive(PrimitiveType::U16));
    match &m.type_pred[0].0 {
        Type::Tuple(v) => assert!(matches!(v[0], Type::Primitive(PrimitiveType::U16))),
        other => panic!("unexpected {:?}", other),
    }
    match &m.type_pred[0].1[0].segments[0].args {
        GenericArgs::AngleBracketed(args) => assert!(matches!(
            args[0],
            fuzz_target::types::GenericArg::Type(Type::Primitive(PrimitiveType::U16))
        )),
        other => panic!("unexpected {:?}", other),
    }
}
