//! Classification of a declared type into a call-type tree.
//!
//! Struct layouts come from the documentation index. Each expansion of a struct
//! spends one unit of fuel, and a classification starts with as many units as the
//! index holds structs: a chain of expansions longer than that repeats a struct,
//! and a struct that contains itself by value or by reference cannot be built from
//! finitely many bytes, so running out of fuel yields `NoFuzzable`.
use vstd::prelude::*;
use crate::fuzzable_type::{
    FctM,
    FuzzableCallType,
    fcts_model,
    field_fcts_model,
    field_names,
    lemma_field_fcts_model,
};
use crate::index::{FieldDef, FullNameMap, field_type, find_name, find_struct};
use crate::prelude_type::{
    OPTION_PATH,
    PreludeError,
    RESULT_PATH,
    extract_result,
    result_payloads,
    single_type_arg,
    single_type_arg_position,
    string_eq,
};
use crate::types::{
    GenericArg,
    GenericArgs,
    Mutability,
    Path,
    PathM,
    PrimitiveType,
    Type,
    TypeM,
    clone_type,
    lemma_arg_list_model,
    lemma_segments_model,
    lemma_types_model,
    type_model,
    types_model,
};

verus! {

pub open spec fn fct_result_model(r: Result<FuzzableCallType, PreludeError>) -> Result<
    FctM,
    PreludeError,
> {
    match r {
        Ok(f) => Ok(f@),
        Err(e) => Err(e),
    }
}

pub open spec fn field_def_names(fs: Seq<FieldDef>) -> Seq<Seq<char>> {
    fs.map_values(|f: FieldDef| f.name@)
}

/// Wraps a classified child, unless it cannot be built.
pub open spec fn wrap_child(
    r: Result<FctM, PreludeError>,
    wrap: spec_fn(FctM) -> FctM,
) -> Result<FctM, PreludeError> {
    match r {
        Err(e) => Err(e),
        Ok(c) => if c is NoFuzzable {
            Ok(FctM::NoFuzzable)
        } else {
            Ok(wrap(c))
        },
    }
}

/// Classification of a declared type, with `fuel` struct expansions left.
pub open spec fn classify(t: TypeM, m: FullNameMap, fuel: nat) -> Result<FctM, PreludeError>
    decreases fuel, 2nat, t,
{
    match t {
        TypeM::Primitive(p) => if p == PrimitiveType::Str {
            Ok(FctM::NoFuzzable)
        } else {
            Ok(FctM::Primitive(p))
        },
        TypeM::Path(p) => match classify_struct(p, m, fuel) {
            Err(e) => Err(e),
            Ok(s) => if !(s is NoFuzzable) {
                Ok(s)
            } else {
                let name = find_name(m.names@, p.def_id);
                if name == Some(OPTION_PATH@) {
                    let k = single_type_arg_position(p.segments, 0);
                    if 0 <= k < p.segments.len() && single_type_arg(p.segments[k]) {
                        wrap_child(
                            classify(p.segments[k].args->AngleBracketed_0[0]->Type_0, m, fuel),
                            |c: FctM| FctM::ToOption(Box::new(c)),
                        )
                    } else {
                        Err(PreludeError::MalformedOption)
                    }
                } else if name == Some(RESULT_PATH@) {
                    if result_payloads(p) is Some {
                        Ok(FctM::NoFuzzable)
                    } else {
                        Err(PreludeError::MalformedResult)
                    }
                } else {
                    Ok(FctM::NoFuzzable)
                }
            },
        },
        TypeM::Tuple(s) => match classify_list(s, m, fuel) {
            Err(e) => Err(e),
            Ok(None) => Ok(FctM::NoFuzzable),
            Ok(Some(v)) => Ok(FctM::Tuple(v)),
        },
        TypeM::Slice(b) => wrap_child(classify(*b, m, fuel), |c: FctM| FctM::Slice(Box::new(c))),
        TypeM::Array(b, _) => wrap_child(
            classify(*b, m, fuel),
            |c: FctM| FctM::Array(Box::new(c)),
        ),
        TypeM::RawPointer(mu, b) => wrap_child(
            classify(*b, m, fuel),
            |c: FctM|
                if mu == Mutability::Mut {
                    FctM::MutRawPointer(Box::new(c), *b)
                } else {
                    FctM::ConstRawPointer(Box::new(c), *b)
                },
        ),
        TypeM::BorrowedRef(lt, mu, b) => if *b == TypeM::Primitive(PrimitiveType::Str) {
            if lt == Some("'static"@) {
                Ok(FctM::NoFuzzable)
            } else if mu == Mutability::Not {
                Ok(FctM::Str)
            } else {
                Ok(FctM::NoFuzzable)
            }
        } else {
            wrap_child(
                classify(*b, m, fuel),
                |c: FctM|
                    if mu == Mutability::Mut && !(*b is Slice) {
                        FctM::MutBorrowedRef(Box::new(c))
                    } else {
                        FctM::BorrowedRef(Box::new(c))
                    },
            )
        },
        _ => Ok(FctM::NoFuzzable),
    }
}

/// A path read as a struct of the index: `NoFuzzable` where it names none, where
/// no fuel is left, or where a member cannot be built.
pub open spec fn classify_struct(p: PathM, m: FullNameMap, fuel: nat) -> Result<FctM, PreludeError>
    decreases fuel, 1nat, p,
{
    match find_struct(m.structs@, p.def_id) {
        Some(sd) => if fuel == 0 {
            Ok(FctM::NoFuzzable)
        } else {
            match classify_fields(sd.fields@, m, fuel) {
                Err(e) => Err(e),
                Ok(None) => Ok(FctM::NoFuzzable),
                Ok(Some(fs)) => Ok(
                    FctM::Struct(sd.name@, sd.ctor_kind, field_def_names(sd.fields@), fs),
                ),
            }
        },
        None => Ok(FctM::NoFuzzable),
    }
}

/// The members of a tuple, left to right, up to the first that cannot be built.
pub open spec fn classify_list(s: Seq<TypeM>, m: FullNameMap, fuel: nat) -> Result<
    Option<Seq<FctM>>,
    PreludeError,
>
    decreases fuel, 2nat, s,
{
    if s.len() == 0 {
        Ok(Some(Seq::empty()))
    } else {
        match classify_list(s.subrange(0, s.len() - 1), m, fuel) {
            Err(e) => Err(e),
            Ok(None) => Ok(None),
            Ok(Some(v)) => match classify(s[s.len() - 1], m, fuel) {
                Err(e) => Err(e),
                Ok(c) => if c is NoFuzzable {
                    Ok(None)
                } else {
                    Ok(Some(v.push(c)))
                },
            },
        }
    }
}

/// The fields of a struct, in order, up to the first that cannot be built or
/// is not a plain field; each is classified with one unit of fuel less.
pub open spec fn classify_fields(fs: Seq<FieldDef>, m: FullNameMap, fuel: nat) -> Result<
    Option<Seq<FctM>>,
    PreludeError,
>
    decreases fuel, 0nat, fs,
{
    if fuel == 0 {
        Ok(None)
    } else if fs.len() == 0 {
        Ok(Some(Seq::empty()))
    } else {
        match classify_fields(fs.subrange(0, fs.len() - 1), m, fuel) {
            Err(e) => Err(e),
            Ok(None) => Ok(None),
            Ok(Some(v)) => match field_type(fs[fs.len() - 1].kind) {
                None => Ok(None),
                Some(ty) => match classify(type_model(ty), m, (fuel - 1) as nat) {
                    Err(e) => Err(e),
                    Ok(c) => if c is NoFuzzable {
                        Ok(None)
                    } else {
                        Ok(Some(v.push(c)))
                    },
                },
            },
        }
    }
}

proof fn lemma_classify_list_stops(s: Seq<TypeM>, m: FullNameMap, fuel: nat, k: int)
    requires
        0 <= k <= s.len(),
        !(classify_list(s.subrange(0, k), m, fuel) is Ok && classify_list(
            s.subrange(0, k),
            m,
            fuel,
        )->Ok_0 is Some),
    ensures
        classify_list(s, m, fuel) == classify_list(s.subrange(0, k), m, fuel),
    decreases s.len(),
{
    if k < s.len() {
        let pre = s.subrange(0, s.len() - 1);
        assert(pre.subrange(0, k) =~= s.subrange(0, k));
        lemma_classify_list_stops(pre, m, fuel, k);
    } else {
        assert(s.subrange(0, k) =~= s);
    }
}

proof fn lemma_classify_fields_stops(fs: Seq<FieldDef>, m: FullNameMap, fuel: nat, k: int)
    requires
        0 <= k <= fs.len(),
        fuel > 0,
        !(classify_fields(fs.subrange(0, k), m, fuel) is Ok && classify_fields(
            fs.subrange(0, k),
            m,
            fuel,
        )->Ok_0 is Some),
    ensures
        classify_fields(fs, m, fuel) == classify_fields(fs.subrange(0, k), m, fuel),
    decreases fs.len(),
{
    if k < fs.len() {
        let pre = fs.subrange(0, fs.len() - 1);
        assert(pre.subrange(0, k) =~= fs.subrange(0, k));
        lemma_classify_fields_stops(pre, m, fuel, k);
    } else {
        assert(fs.subrange(0, k) =~= fs);
    }
}

/// Decides whether a value of the declared type can be built from bytes, and
/// how it is wrapped to match the declaration. An error only where a standard
/// container is recognised by name but its generic arguments are malformed.
pub fn fuzzable_call_type(ty_: &Type, full_name_map: &FullNameMap) -> (r: Result<
    FuzzableCallType,
    PreludeError,
>)
    ensures
        fct_result_model(r) == classify(
            ty_@,
            *full_name_map,
            full_name_map.structs@.len() as nat,
        ),
{
    classify_with_fuel(ty_, full_name_map, full_name_map.structs.len())
}

/// The argument of an optional-value path, by reference into the path.
fn option_arg(path: &Path) -> (r: Option<&Type>)
    ensures
        match r {
            Some(t) => {
                let k = single_type_arg_position(path@.segments, 0);
                &&& 0 <= k < path@.segments.len()
                &&& single_type_arg(path@.segments[k])
                &&& t@ == path@.segments[k].args->AngleBracketed_0[0]->Type_0
                &&& decreases_to!(*path => *t)
            },
            None => {
                let k = single_type_arg_position(path@.segments, 0);
                !(0 <= k < path@.segments.len() && single_type_arg(path@.segments[k]))
            },
        },
{
    let ghost segs = path@.segments;
    proof {
        lemma_segments_model(path.segments@);
    }
    let mut i: usize = 0;
    while i < path.segments.len()
        invariant
            segs == path@.segments,
            segs.len() == path.segments@.len(),
            forall|j: int| 0 <= j < segs.len() ==> #[trigger] segs[j] == path.segments@[j]@,
            i <= segs.len(),
            single_type_arg_position(segs, 0) == single_type_arg_position(segs, i as int),
        decreases segs.len() - i,
    {
        let segment = &path.segments[i];
        if let GenericArgs::AngleBracketed(args) = &segment.args {
            proof {
                lemma_arg_list_model(args@);
            }
            if args.len() == 1 {
                if let GenericArg::Type(arg_type) = &args[0] {
                    proof {
                        assert(decreases_to!(path.segments => path.segments[i as int]));
                        assert(decreases_to!(*args => args[0]));
                    }
                    return Some(arg_type);
                }
            }
        }
        i = i + 1;
    }
    None
}

fn classify_with_fuel(ty_: &Type, m: &FullNameMap, fuel: usize) -> (r: Result<
    FuzzableCallType,
    PreludeError,
>)
    ensures
        fct_result_model(r) == classify(ty_@, *m, fuel as nat),
    decreases fuel, 2nat, ty_,
{
    match ty_ {
        Type::Path { path } => {
            assert(ty_@ == TypeM::Path(path@));
            let res = match is_fuzzable_struct(ty_, m, fuel) {
                Ok(res) => res,
                Err(e) => return Err(e),
            };
            if res.is_fuzzable() {
                return Ok(res);
            }
            let name = match m.display_name(path.def_id) {
                Some(name) => name,
                None => return Ok(FuzzableCallType::NoFuzzable),
            };
            if string_eq(name, &OPTION_PATH.to_owned()) {
                match option_arg(path) {
                    Some(inner_type) => {
                        let inner = match classify_with_fuel(inner_type, m, fuel) {
                            Ok(inner) => inner,
                            Err(e) => return Err(e),
                        };
                        if !inner.is_fuzzable() {
                            return Ok(FuzzableCallType::NoFuzzable);
                        }
                        Ok(FuzzableCallType::ToOption(Box::new(inner)))
                    },
                    None => Err(PreludeError::MalformedOption),
                }
            } else if string_eq(name, &RESULT_PATH.to_owned()) {
                // A fallible value is never an input: only its shape is checked.
                match extract_result(path, ty_) {
                    Ok(_) => Ok(FuzzableCallType::NoFuzzable),
                    Err(e) => Err(e),
                }
            } else {
                Ok(FuzzableCallType::NoFuzzable)
            }
        },
        Type::Generic(_) => Ok(FuzzableCallType::NoFuzzable),
        Type::Primitive(primitive_type) => match primitive_type {
            PrimitiveType::Str => Ok(FuzzableCallType::NoFuzzable),
            _ => Ok(FuzzableCallType::Primitive(*primitive_type)),
        },
        Type::BareFunction => Ok(FuzzableCallType::NoFuzzable),
        Type::Tuple(types) => match classify_members(types, m, fuel) {
            Ok(Some(v)) => Ok(FuzzableCallType::Tuple(v)),
            Ok(None) => Ok(FuzzableCallType::NoFuzzable),
            Err(e) => Err(e),
        },
        Type::Slice(inner_type) => {
            let inner = match classify_with_fuel(inner_type, m, fuel) {
                Ok(inner) => inner,
                Err(e) => return Err(e),
            };
            if !inner.is_fuzzable() {
                return Ok(FuzzableCallType::NoFuzzable);
            }
            Ok(FuzzableCallType::Slice(Box::new(inner)))
        },
        Type::Array(inner_type, _) => {
            let inner = match classify_with_fuel(inner_type, m, fuel) {
                Ok(inner) => inner,
                Err(e) => return Err(e),
            };
            if !inner.is_fuzzable() {
                return Ok(FuzzableCallType::NoFuzzable);
            }
            Ok(FuzzableCallType::Array(Box::new(inner)))
        },
        Type::RawPointer(mutability, inner_type) => {
            let inner = match classify_with_fuel(inner_type, m, fuel) {
                Ok(inner) => inner,
                Err(e) => return Err(e),
            };
            if !inner.is_fuzzable() {
                return Ok(FuzzableCallType::NoFuzzable);
            }
            match mutability {
                Mutability::Mut => Ok(
                    FuzzableCallType::MutRawPointer(Box::new(inner), clone_type(inner_type)),
                ),
                Mutability::Not => Ok(
                    FuzzableCallType::ConstRawPointer(Box::new(inner), clone_type(inner_type)),
                ),
            }
        },
        Type::BorrowedRef { lifetime, mutability, type_ } => {
            if let Type::Primitive(PrimitiveType::Str) = &**type_ {
                // A string that must live for the whole program cannot be built.
                if let Some(lifetime_) = lifetime {
                    if string_eq(lifetime_, &"'static".to_owned()) {
                        return Ok(FuzzableCallType::NoFuzzable);
                    }
                }
                proof {
                    assert(type_model(**type_) == TypeM::Primitive(PrimitiveType::Str));
                }
                return match mutability {
                    Mutability::Not => Ok(FuzzableCallType::Str),
                    Mutability::Mut => Ok(FuzzableCallType::NoFuzzable),
                };
            }
            proof {
                assert(type_model(**type_) != TypeM::Primitive(PrimitiveType::Str));
            }
            let inner = match classify_with_fuel(type_, m, fuel) {
                Ok(inner) => inner,
                Err(e) => return Err(e),
            };
            if !inner.is_fuzzable() {
                return Ok(FuzzableCallType::NoFuzzable);
            }
            // A slice is read the same way behind either kind of reference.
            let is_slice = match &**type_ {
                Type::Slice(_) => true,
                _ => false,
            };
            match mutability {
                Mutability::Mut if !is_slice => Ok(
                    FuzzableCallType::MutBorrowedRef(Box::new(inner)),
                ),
                _ => Ok(FuzzableCallType::BorrowedRef(Box::new(inner))),
            }
        },
        Type::QPath { .. } => Ok(FuzzableCallType::NoFuzzable),
        Type::ImplTrait => Ok(FuzzableCallType::NoFuzzable),
        Type::Infer => Ok(FuzzableCallType::NoFuzzable),
        Type::DynTrait => Ok(FuzzableCallType::NoFuzzable),
    }
}

/// The members of a tuple, left to right; `None` at the first that cannot be built.
fn classify_members(types: &Vec<Type>, m: &FullNameMap, fuel: usize) -> (r: Result<
    Option<Vec<FuzzableCallType>>,
    PreludeError,
>)
    ensures
        match r {
            Ok(Some(v)) => classify_list(types_model(types@), *m, fuel as nat) == Ok::<
                Option<Seq<FctM>>,
                PreludeError,
            >(Some(fcts_model(v@))),
            Ok(None) => classify_list(types_model(types@), *m, fuel as nat) == Ok::<
                Option<Seq<FctM>>,
                PreludeError,
            >(None),
            Err(e) => classify_list(types_model(types@), *m, fuel as nat) == Err::<
                Option<Seq<FctM>>,
                PreludeError,
            >(e),
        },
    decreases fuel, 2nat, types,
{
    let ghost s = types_model(types@);
    proof {
        lemma_types_model(types@);
    }
    let mut vec: Vec<FuzzableCallType> = Vec::new();
    let mut i: usize = 0;
    while i < types.len()
        invariant
            s == types_model(types@),
            s.len() == types@.len(),
            forall|j: int| 0 <= j < s.len() ==> #[trigger] s[j] == types@[j]@,
            i <= s.len(),
            classify_list(s.subrange(0, i as int), *m, fuel as nat) == Ok::<
                Option<Seq<FctM>>,
                PreludeError,
            >(Some(fcts_model(vec@))),
        decreases s.len() - i,
    {
        let inner = classify_with_fuel(&types[i], m, fuel);
        proof {
            let pre = s.subrange(0, i + 1);
            assert(pre.subrange(0, i as int) =~= s.subrange(0, i as int));
            assert(pre[i as int] == s[i as int]);
        }
        match inner {
            Err(e) => {
                proof {
                    lemma_classify_list_stops(s, *m, fuel as nat, i + 1);
                }
                return Err(e);
            },
            Ok(inner) => {
                if !inner.is_fuzzable() {
                    proof {
                        lemma_classify_list_stops(s, *m, fuel as nat, i + 1);
                    }
                    return Ok(None);
                }
                let ghost before = vec@;
                vec.push(inner);
                proof {
                    assert(vec@.subrange(0, vec@.len() - 1) =~= before);
                }
            },
        }
        i = i + 1;
    }
    proof {
        assert(s.subrange(0, s.len() as int) =~= s);
    }
    Ok(Some(vec))
}

/// A path read as a struct of the index, with its members classified in order.
fn is_fuzzable_struct(ty: &Type, full_name_map: &FullNameMap, fuel: usize) -> (r: Result<
    FuzzableCallType,
    PreludeError,
>)
    requires
        ty is Path,
    ensures
        fct_result_model(r) == classify_struct(ty@->Path_0, *full_name_map, fuel as nat),
    decreases fuel, 1nat, ty,
{
    let path = match ty {
        Type::Path { path } => path,
        _ => {
            proof {
                assert(false);
            }
            return Ok(FuzzableCallType::NoFuzzable);
        },
    };
    assert(ty@ == TypeM::Path(path@));
    let pos = match full_name_map.struct_position(path.def_id) {
        Some(pos) => pos,
        None => return Ok(FuzzableCallType::NoFuzzable),
    };
    if fuel == 0 {
        return Ok(FuzzableCallType::NoFuzzable);
    }
    let struct_ = &full_name_map.structs[pos];
    let ghost fs = struct_.fields@;
    let mut res: Vec<(String, FuzzableCallType)> = Vec::new();
    let mut i: usize = 0;
    while i < struct_.fields.len()
        invariant
            fuel > 0,
            fs == struct_.fields@,
            find_struct(full_name_map.structs@, path.def_id) == Some(*struct_),
            ty@ == TypeM::Path(path@),
            i <= fs.len(),
            res@.len() == i,
            forall|j: int| 0 <= j < i ==> (#[trigger] res@[j]).0@ == fs[j].name@,
            classify_fields(fs.subrange(0, i as int), *full_name_map, fuel as nat) == Ok::<
                Option<Seq<FctM>>,
                PreludeError,
            >(Some(field_fcts_model(res@))),
        decreases fs.len() - i,
    {
        let field = &struct_.fields[i];
        proof {
            let pre = fs.subrange(0, i + 1);
            assert(pre.subrange(0, i as int) =~= fs.subrange(0, i as int));
            assert(pre[i as int] == fs[i as int]);
        }
        let type_ = match field.kind.field_type() {
            Some(type_) => type_,
            None => {
                // Not a plain field: the struct cannot be built member by member.
                proof {
                    lemma_classify_fields_stops(fs, *full_name_map, fuel as nat, i + 1);
                }
                return Ok(FuzzableCallType::NoFuzzable);
            },
        };
        let r = match classify_with_fuel(type_, full_name_map, fuel - 1) {
            Ok(r) => r,
            Err(e) => {
                proof {
                    lemma_classify_fields_stops(fs, *full_name_map, fuel as nat, i + 1);
                }
                return Err(e);
            },
        };
        if !r.is_fuzzable() {
            proof {
                lemma_classify_fields_stops(fs, *full_name_map, fuel as nat, i + 1);
            }
            return Ok(FuzzableCallType::NoFuzzable);
        }
        let ghost before = res@;
        res.push((field.name.clone(), r));
        proof {
            assert(res@.subrange(0, res@.len() - 1) =~= before);
        }
        i = i + 1;
    }
    proof {
        assert(fs.subrange(0, fs.len() as int) =~= fs);
        lemma_field_fcts_model(res@);
        assert(field_names(res@) =~= field_def_names(fs));
    }
    let kind = struct_.ctor_kind;
    Ok(FuzzableCallType::Struct(struct_.name.clone(), kind, res))
}

} // verus!
