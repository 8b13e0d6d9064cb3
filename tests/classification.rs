use fuzz_target::call_type::CallType;
use fuzz_target::classify::fuzzable_call_type;
use fuzz_target::fuzzable_type::{FuzzableCallType, FuzzableType};
use fuzz_target::index::{FieldDef, FieldKind, FullNameMap, StructDef};
use fuzz_target::prelude_type::{PreludeError, PreludeType, _PreludeHelper, _prelude_type_need_special_dealing};
use fuzz_target::types::{CtorKind, GenericArg, GenericArgs, Mutability, Path, PathSegment, PrimitiveType, Type};

const OPTION_ID: u64 = 1;
const RESULT_ID: u64 = 2;
const POINT_ID: u64 = 10;
const HOLDER_ID: u64 = 11;
const NAMED_ID: u64 = 12;
const NODE_ID: u64 = 13;

fn prim(p: PrimitiveType) -> Type {
    Type::Primitive(p)
}

fn reference(lifetime: Option<&str>, mutability: Mutability, t: Type) -> Type {
    Type::BorrowedRef {
        lifetime: lifetime.map(|l| l.to_string()),
        mutability,
        type_: Box::new(t),
    }
}

fn path_type(def_id: u64, name: &str, args: Vec<Type>) -> Type {
    Type::Path {
        path: Path {
            def_id,
            segments: vec![PathSegment {
                name: name.to_string(),
                args: GenericArgs::AngleBracketed(args.into_iter().map(GenericArg::Type).collect()),
            }],
        },
    }
}

fn field(name: &str, t: Type) -> FieldDef {
    FieldDef { name: name.to_string(), kind: FieldKind::StructField(t) }
}

fn index() -> FullNameMap {
    let mut m = FullNameMap::new();
    m.names.push((OPTION_ID, "std::option::Option".to_string()));
    m.names.push((RESULT_ID, "std::result::Result".to_string()));
    m.structs.push(StructDef {
        def_id: POINT_ID,
        name: "geo::Point".to_string(),
        ctor_kind: Some(CtorKind::Fn),
        fields: vec![field("0", prim(PrimitiveType::U8)), field("1", prim(PrimitiveType::U32))],
    });
    m.structs.push(StructDef {
        def_id: HOLDER_ID,
        name: "geo::Holder".to_string(),
        ctor_kind: None,
        fields: vec![field("id", prim(PrimitiveType::U8)), field("shape", Type::DynTrait)],
    });
    m.structs.push(StructDef {
        def_id: NAMED_ID,
        name: "geo::Named".to_string(),
        ctor_kind: None,
        fields: vec![
            field("label", reference(None, Mutability::Not, prim(PrimitiveType::Str))),
            FieldDef {
                name: "tag".to_string(),
                kind: FieldKind::Stripped(Box::new(FieldKind::StructField(prim(PrimitiveType::U8)))),
            },
        ],
    });
    m.structs.push(StructDef {
        def_id: NODE_ID,
        name: "geo::Node".to_string(),
        ctor_kind: None,
        fields: vec![field(
            "next",
            reference(None, Mutability::Not, path_type(NODE_ID, "Node", vec![])),
        )],
    });
    m
}

fn classify(t: &Type) -> FuzzableCallType {
    fuzzable_call_type(t, &index()).unwrap()
}

fn is_no_fuzzable(f: &FuzzableCallType) -> bool {
    matches!(f, FuzzableCallType::NoFuzzable)
}

fn is_rejected(p: &(FuzzableType, CallType)) -> bool {
    matches!(p, (FuzzableType::NoFuzzable, CallType::NotCompatible))
}

#[test]
fn primitive_tuple_projects_direct() {
    let t = Type::Tuple(vec![
        prim(PrimitiveType::U8),
        prim(PrimitiveType::U32),
        prim(PrimitiveType::U64),
    ]);
    let (ft, ct) = classify(&t).generate_fuzzable_type_and_call_type();
    assert!(matches!(ct, CallType::DirectCall));
    match ft {
        FuzzableType::Tuple(v) => {
            assert_eq!(v.len(), 3);
            assert!(matches!(v[0], FuzzableType::Primitive(PrimitiveType::U8)));
            assert!(matches!(v[1], FuzzableType::Primitive(PrimitiveType::U32)));
            assert!(matches!(v[2], FuzzableType::Primitive(PrimitiveType::U64)));
        }
        other => panic!("unexpected {:?}", other),
    }
}

#[test]
fn str_reference_without_lifetime_is_str() {
    let t = reference(None, Mutability::Not, prim(PrimitiveType::Str));
    let c = classify(&t);
    assert!(matches!(c, FuzzableCallType::Str));
    let p = c.generate_fuzzable_type_and_call_type();
    assert!(matches!(p, (FuzzableType::RefStr, CallType::DirectCall)));
}

#[test]
fn str_reference_with_named_lifetime_is_str() {
    let t = reference(Some("'a"), Mutability::Not, prim(PrimitiveType::Str));
    assert!(matches!(classify(&t), FuzzableCallType::Str));
}

#[test]
fn static_str_reference_is_not_fuzzable() {
    let t = reference(Some("'static"), Mutability::Not, prim(PrimitiveType::Str));
    assert!(is_no_fuzzable(&classify(&t)));
}

#[test]
fn mutable_str_reference_is_not_fuzzable() {
    let t = reference(None, Mutability::Mut, prim(PrimitiveType::Str));
    assert!(is_no_fuzzable(&classify(&t)));
}

#[test]
fn bare_str_is_not_fuzzable() {
    assert!(is_no_fuzzable(&classify(&prim(PrimitiveType::Str))));
}

#[test]
fn option_of_i32_wraps_to_option() {
    let t = path_type(OPTION_ID, "Option", vec![prim(PrimitiveType::I32)]);
    let c = classify(&t);
    match &c {
        FuzzableCallType::ToOption(inner) => {
            assert!(matches!(**inner, FuzzableCallType::Primitive(PrimitiveType::I32)))
        }
        other => panic!("unexpected {:?}", other),
    }
    let (ft, ct) = c.generate_fuzzable_type_and_call_type();
    assert!(matches!(ft, FuzzableType::Primitive(PrimitiveType::I32)));
    match ct {
        CallType::ToOption(inner) => assert!(matches!(*inner, CallType::DirectCall)),
        other => panic!("unexpected {:?}", other),
    }
}

#[test]
fn result_is_never_an_input() {
    let t = path_type(RESULT_ID, "Result", vec![prim(PrimitiveType::U8), prim(PrimitiveType::U16)]);
    assert!(is_no_fuzzable(&classify(&t)));
}

#[test]
fn malformed_option_is_an_error() {
    let t = path_type(OPTION_ID, "Option", vec![prim(PrimitiveType::U8), prim(PrimitiveType::U8)]);
    assert!(matches!(fuzzable_call_type(&t, &index()), Err(PreludeError::MalformedOption)));
}

#[test]
fn malformed_result_is_an_error() {
    let t = path_type(RESULT_ID, "Result", vec![prim(PrimitiveType::U8)]);
    assert!(matches!(fuzzable_call_type(&t, &index()), Err(PreludeError::MalformedResult)));
}

#[test]
fn struct_with_trait_object_field_is_not_fuzzable() {
    let t = path_type(HOLDER_ID, "Holder", vec![]);
    assert!(is_no_fuzzable(&classify(&t)));
}

#[test]
fn struct_with_plain_fields_is_fuzzable() {
    let t = path_type(POINT_ID, "Point", vec![]);
    match classify(&t) {
        FuzzableCallType::Struct(name, kind, fields) => {
            assert_eq!(name, "geo::Point");
            assert_eq!(kind, Some(CtorKind::Fn));
            assert_eq!(fields.len(), 2);
            assert_eq!(fields[0].0, "0");
            assert_eq!(fields[1].0, "1");
        }
        other => panic!("unexpected {:?}", other),
    }
}

#[test]
fn self_referencing_struct_is_not_fuzzable() {
    let t = path_type(NODE_ID, "Node", vec![]);
    assert!(is_no_fuzzable(&classify(&t)));
}

#[test]
fn unknown_path_is_not_fuzzable() {
    let t = path_type(99, "Thing", vec![]);
    assert!(is_no_fuzzable(&classify(&t)));
}

#[test]
fn opaque_shapes_are_not_fuzzable() {
    for t in [Type::Generic("T".to_string()), Type::BareFunction, Type::DynTrait, Type::ImplTrait, Type::Infer] {
        assert!(is_no_fuzzable(&classify(&t)));
    }
    let q = Type::QPath { self_type: Box::new(Type::Generic("T".to_string())), name: "Item".to_string() };
    assert!(is_no_fuzzable(&classify(&q)));
}

#[test]
fn no_fuzzable_is_absorbing_in_composition() {
    let bad = Type::DynTrait;
    let shapes = vec![
        Type::Tuple(vec![prim(PrimitiveType::U8), Type::DynTrait]),
        Type::Slice(Box::new(Type::DynTrait)),
        Type::Array(Box::new(Type::DynTrait), "4".to_string()),
        Type::RawPointer(Mutability::Mut, Box::new(Type::DynTrait)),
        reference(None, Mutability::Not, bad),
    ];
    for t in shapes.iter() {
        let c = classify(t);
        assert!(is_no_fuzzable(&c));
        assert!(is_rejected(&c.generate_fuzzable_type_and_call_type()));
    }
}

#[test]
fn no_fuzzable_projects_to_rejected_pair() {
    assert!(is_rejected(&FuzzableCallType::NoFuzzable.generate_fuzzable_type_and_call_type()));
}

#[test]
fn direct_slice_is_rejected_by_projection() {
    let c = classify(&Type::Slice(Box::new(prim(PrimitiveType::U8))));
    assert!(matches!(c, FuzzableCallType::Slice(_)));
    assert!(is_rejected(&c.generate_fuzzable_type_and_call_type()));
    let a = classify(&Type::Array(Box::new(prim(PrimitiveType::U8)), "3".to_string()));
    assert!(is_rejected(&a.generate_fuzzable_type_and_call_type()));
}

#[test]
fn slice_reference_of_either_mutability_is_ref_slice() {
    for m in [Mutability::Not, Mutability::Mut] {
        let t = reference(None, m, Type::Slice(Box::new(prim(PrimitiveType::U16))));
        let (ft, ct) = classify(&t).generate_fuzzable_type_and_call_type();
        assert!(matches!(ct, CallType::DirectCall));
        match ft {
            FuzzableType::RefSlice(inner) => {
                assert!(matches!(*inner, FuzzableType::Primitive(PrimitiveType::U16)))
            }
            other => panic!("unexpected {:?}", other),
        }
    }
}

#[test]
fn pointer_and_reference_wrap_call_type() {
    let t = Type::RawPointer(Mutability::Not, Box::new(reference(None, Mutability::Mut, prim(PrimitiveType::U8))));
    let (ft, ct) = classify(&t).generate_fuzzable_type_and_call_type();
    assert!(matches!(ft, FuzzableType::Primitive(PrimitiveType::U8)));
    match ct {
        CallType::ConstRawPointer(inner, pointee) => {
            assert!(matches!(pointee, Type::BorrowedRef { mutability: Mutability::Mut, .. }));
            match *inner {
                CallType::MutBorrowedRef(direct) => assert!(matches!(*direct, CallType::DirectCall)),
                other => panic!("unexpected {:?}", other),
            }
        }
        other => panic!("unexpected {:?}", other),
    }
}

#[test]
fn reference_inside_tuple_is_rejected() {
    let t = Type::Tuple(vec![reference(None, Mutability::Not, prim(PrimitiveType::U8))]);
    let c = classify(&t);
    assert!(matches!(c, FuzzableCallType::Tuple(_)));
    assert!(is_rejected(&c.generate_fuzzable_type_and_call_type()));
}

#[test]
fn prelude_recognition() {
    let m = index();
    let opt = path_type(OPTION_ID, "Option", vec![prim(PrimitiveType::U8)]);
    let res = path_type(RESULT_ID, "Result", vec![prim(PrimitiveType::U8), prim(PrimitiveType::Bool)]);
    assert!(_prelude_type_need_special_dealing(&opt, &m));
    assert!(_prelude_type_need_special_dealing(&res, &m));
    assert!(!_prelude_type_need_special_dealing(&prim(PrimitiveType::U8), &m));
    match PreludeType::from_type(&res, &m) {
        Ok(Some(p)) => {
            assert!(matches!(p._get_final_type(), Type::Primitive(PrimitiveType::U8)));
            assert!(matches!(p._unwrap_call_type(&CallType::DirectCall), CallType::UnwrapResult(_)));
            assert!(matches!(p._to_call_type(&CallType::DirectCall), CallType::ToResult(_)));
        }
        other => panic!("unexpected {:?}", other),
    }
    match PreludeType::from_type(&opt, &m) {
        Ok(Some(p)) => {
            assert!(matches!(p._unwrap_call_type(&CallType::DirectCall), CallType::UnwrapOption(_)));
            assert!(matches!(p._to_call_type(&CallType::DirectCall), CallType::ToOption(_)));
        }
        other => panic!("unexpected {:?}", other),
    }
}

#[test]
fn helpers_are_listed_once() {
    let c = CallType::UnwrapOption(Box::new(CallType::BorrowedRef(Box::new(CallType::UnwrapOption(
        Box::new(CallType::UnwrapResult(Box::new(CallType::DirectCall))),
    )))));
    let helpers = _PreludeHelper::_from_call_type(&c);
    assert_eq!(helpers.len(), 2);
    assert!(helpers.contains(&_PreludeHelper::_OptionHelper));
    assert!(helpers.contains(&_PreludeHelper::_ResultHelper));
    assert!(_PreludeHelper::_from_call_type(&CallType::DirectCall).is_empty());
    assert!(_PreludeHelper::_ResultHelper._to_helper_function().starts_with("fn _unwrap_result<T, E>"));
    assert!(_PreludeHelper::_OptionHelper._to_helper_function().starts_with("fn _unwrap_option<T>"));
}

#[test]
fn named_struct_with_str_field_layout() {
    let t = path_type(NAMED_ID, "Named", vec![]);
    let (ft, ct) = classify(&t).generate_fuzzable_type_and_call_type();
    assert!(matches!(ct, CallType::DirectCall));
    assert!(matches!(ft, FuzzableType::Struct(_, None, _)));
    assert_eq!(ft._min_length(), 1);
    assert_eq!(ft._dynamic_length_param_number(), 1);
    assert_eq!(ft._fixed_part_length(), 1);
    assert!(!ft._is_fixed_length());
    assert_eq!(ft._to_type_string(), "geo::Named");
}
