//! Facts about classification and projection that hold for all inputs.
use vstd::prelude::*;
use crate::call_type::CallTypeM;
use crate::classify::{classify, classify_fields, classify_list, classify_struct};
use crate::fuzzable_type::{FctM, FtM, embeddable, lemma_project_list, project, project_list, rejected};
use crate::index::{FieldDef, FullNameMap, field_type, find_struct};
use crate::types::{Mutability, PathM, PrimitiveType, TypeM, type_model};

verus! {

/// Every leaf of the type grammar classifies without error: primitives other
/// than `str` are read directly, and generic parameters, function pointers,
/// projections, `impl Trait`, inferred types, trait objects and `str` itself
/// cannot be built.
pub proof fn lemma_leaves_classify(m: FullNameMap, fuel: nat, p: PrimitiveType, name: Seq<char>, q: TypeM)
    ensures
        p != PrimitiveType::Str ==> classify(TypeM::Primitive(p), m, fuel) == Ok::<
            FctM,
            crate::prelude_type::PreludeError,
        >(FctM::Primitive(p)),
        classify(TypeM::Primitive(PrimitiveType::Str), m, fuel) == Ok::<
            FctM,
            crate::prelude_type::PreludeError,
        >(FctM::NoFuzzable),
        classify(TypeM::Generic(name), m, fuel) == Ok::<FctM, crate::prelude_type::PreludeError>(
            FctM::NoFuzzable,
        ),
        classify(TypeM::BareFunction, m, fuel) == Ok::<FctM, crate::prelude_type::PreludeError>(
            FctM::NoFuzzable,
        ),
        classify(TypeM::QPath(Box::new(q), name), m, fuel) == Ok::<
            FctM,
            crate::prelude_type::PreludeError,
        >(FctM::NoFuzzable),
        classify(TypeM::ImplTrait, m, fuel) == Ok::<FctM, crate::prelude_type::PreludeError>(
            FctM::NoFuzzable,
        ),
        classify(TypeM::Infer, m, fuel) == Ok::<FctM, crate::prelude_type::PreludeError>(
            FctM::NoFuzzable,
        ),
        classify(TypeM::DynTrait, m, fuel) == Ok::<FctM, crate::prelude_type::PreludeError>(
            FctM::NoFuzzable,
        ),
{
}

/// A node that cannot be built projects to the rejected pair.
pub proof fn lemma_no_fuzzable_projects_rejected()
    ensures
        project(FctM::NoFuzzable) == (FtM::NoFuzzable, CallTypeM::NotCompatible),
{
}

/// A child that cannot be built makes every wrapper around it unbuildable:
/// slices, arrays, raw pointers and references. The one exception is the
/// string slice, unbuildable alone and buildable behind a shared reference.
pub proof fn lemma_no_fuzzable_absorbing_wrappers(
    t: TypeM,
    m: FullNameMap,
    fuel: nat,
    mu: Mutability,
    lt: Option<Seq<char>>,
    len: Seq<char>,
)
    requires
        classify(t, m, fuel) == Ok::<FctM, crate::prelude_type::PreludeError>(FctM::NoFuzzable),
    ensures
        classify(TypeM::Slice(Box::new(t)), m, fuel) == classify(t, m, fuel),
        classify(TypeM::Array(Box::new(t), len), m, fuel) == classify(t, m, fuel),
        classify(TypeM::RawPointer(mu, Box::new(t)), m, fuel) == classify(t, m, fuel),
        t != TypeM::Primitive(PrimitiveType::Str) ==> classify(
            TypeM::BorrowedRef(lt, mu, Box::new(t)),
            m,
            fuel,
        ) == classify(t, m, fuel),
{
}

/// A tuple member that cannot be built, after members that classify without
/// error, makes the tuple unbuildable.
pub proof fn lemma_no_fuzzable_absorbing_tuple(s: Seq<TypeM>, m: FullNameMap, fuel: nat, k: int)
    requires
        0 <= k < s.len(),
        classify(s[k], m, fuel) == Ok::<FctM, crate::prelude_type::PreludeError>(FctM::NoFuzzable),
        forall|j: int| 0 <= j < k ==> #[trigger] classify(s[j], m, fuel) is Ok,
    ensures
        classify(TypeM::Tuple(s), m, fuel) == Ok::<FctM, crate::prelude_type::PreludeError>(
            FctM::NoFuzzable,
        ),
{
    lemma_classify_list_none(s, m, fuel, k);
}

proof fn lemma_classify_list_none(s: Seq<TypeM>, m: FullNameMap, fuel: nat, k: int)
    requires
        0 <= k < s.len(),
        classify(s[k], m, fuel) == Ok::<FctM, crate::prelude_type::PreludeError>(FctM::NoFuzzable),
        forall|j: int| 0 <= j < k ==> #[trigger] classify(s[j], m, fuel) is Ok,
    ensures
        classify_list(s, m, fuel) == Ok::<Option<Seq<FctM>>, crate::prelude_type::PreludeError>(
            None,
        ),
    decreases s.len(),
{
    let pre = s.subrange(0, s.len() - 1);
    if k < s.len() - 1 {
        assert forall|j: int| 0 <= j < k implies #[trigger] classify(pre[j], m, fuel) is Ok by {
            assert(pre[j] == s[j]);
        }
        assert(pre[k] == s[k]);
        lemma_classify_list_none(pre, m, fuel, k);
    } else {
        lemma_classify_list_ok(pre, m, fuel);
    }
}

proof fn lemma_classify_list_ok(s: Seq<TypeM>, m: FullNameMap, fuel: nat)
    requires
        forall|j: int| 0 <= j < s.len() ==> #[trigger] classify(s[j], m, fuel) is Ok,
    ensures
        classify_list(s, m, fuel) is Ok,
    decreases s.len(),
{
    if s.len() > 0 {
        let pre = s.subrange(0, s.len() - 1);
        assert forall|j: int| 0 <= j < pre.len() implies #[trigger] classify(pre[j], m, fuel) is Ok by {
            assert(pre[j] == s[j]);
        }
        lemma_classify_list_ok(pre, m, fuel);
        assert(classify(s[s.len() - 1], m, fuel) is Ok);
    }
}

/// A struct with a field that cannot be built, after fields that classify
/// without error, cannot be built either.
pub proof fn lemma_no_fuzzable_absorbing_struct(p: PathM, m: FullNameMap, fuel: nat, k: int)
    requires
        find_struct(m.structs@, p.def_id) is Some,
        fuel > 0,
        ({
            let fs = find_struct(m.structs@, p.def_id)->0.fields@;
            &&& 0 <= k < fs.len()
            &&& field_type(fs[k].kind) is Some
            &&& classify(type_model(field_type(fs[k].kind)->0), m, (fuel - 1) as nat) == Ok::<
                FctM,
                crate::prelude_type::PreludeError,
            >(FctM::NoFuzzable)
            &&& forall|j: int|
                0 <= j < k ==> field_type(#[trigger] fs[j].kind) is Some && classify(
                    type_model(field_type(fs[j].kind)->0),
                    m,
                    (fuel - 1) as nat,
                ) is Ok
        }),
    ensures
        classify_struct(p, m, fuel) == Ok::<FctM, crate::prelude_type::PreludeError>(
            FctM::NoFuzzable,
        ),
{
    let fs = find_struct(m.structs@, p.def_id)->0.fields@;
    lemma_classify_fields_none(fs, m, fuel, k);
}

proof fn lemma_classify_fields_none(fs: Seq<FieldDef>, m: FullNameMap, fuel: nat, k: int)
    requires
        fuel > 0,
        0 <= k < fs.len(),
        field_type(fs[k].kind) is Some,
        classify(type_model(field_type(fs[k].kind)->0), m, (fuel - 1) as nat) == Ok::<
            FctM,
            crate::prelude_type::PreludeError,
        >(FctM::NoFuzzable),
        forall|j: int|
            0 <= j < k ==> field_type(#[trigger] fs[j].kind) is Some && classify(
                type_model(field_type(fs[j].kind)->0),
                m,
                (fuel - 1) as nat,
            ) is Ok,
    ensures
        classify_fields(fs, m, fuel) == Ok::<Option<Seq<FctM>>, crate::prelude_type::PreludeError>(
            None,
        ),
    decreases fs.len(),
{
    let pre = fs.subrange(0, fs.len() - 1);
    if k < fs.len() - 1 {
        assert forall|j: int| 0 <= j < k implies field_type(#[trigger] pre[j].kind) is Some
            && classify(type_model(field_type(pre[j].kind)->0), m, (fuel - 1) as nat) is Ok by {
            assert(pre[j] == fs[j]);
        }
        assert(pre[k] == fs[k]);
        lemma_classify_fields_none(pre, m, fuel, k);
    } else {
        lemma_classify_fields_ok(pre, m, fuel);
    }
}

proof fn lemma_classify_fields_ok(fs: Seq<FieldDef>, m: FullNameMap, fuel: nat)
    requires
        fuel > 0,
        forall|j: int|
            0 <= j < fs.len() ==> field_type(#[trigger] fs[j].kind) is Some && classify(
                type_model(field_type(fs[j].kind)->0),
                m,
                (fuel - 1) as nat,
            ) is Ok,
    ensures
        classify_fields(fs, m, fuel) is Ok,
    decreases fs.len(),
{
    if fs.len() > 0 {
        let pre = fs.subrange(0, fs.len() - 1);
        assert forall|j: int| 0 <= j < pre.len() implies field_type(#[trigger] pre[j].kind) is Some
            && classify(type_model(field_type(pre[j].kind)->0), m, (fuel - 1) as nat) is Ok by {
            assert(pre[j] == fs[j]);
        }
        lemma_classify_fields_ok(pre, m, fuel);
        assert(field_type(fs[fs.len() - 1].kind) is Some);
    }
}

/// Indirection cannot be embedded in an aggregate, and a wrapper around an
/// unbuildable node is unbuildable: a child that projects to the rejected pair
/// rejects the tuple, the struct and every wrapper around it, except a shared
/// reference to a slice, which reads the slice's elements instead.
pub proof fn lemma_project_absorbing(s: Seq<FctM>, k: int, n: Seq<char>, kind: Option<crate::types::CtorKind>, names: Seq<Seq<char>>, t: TypeM)
    requires
        0 <= k < s.len(),
        project(s[k]) == rejected(),
    ensures
        project(FctM::Tuple(s)) == rejected(),
        project(FctM::Struct(n, kind, names, s)) == rejected(),
        project(FctM::ConstRawPointer(Box::new(s[k]), t)) == rejected(),
        project(FctM::MutRawPointer(Box::new(s[k]), t)) == rejected(),
        !(s[k] is Slice) ==> project(FctM::BorrowedRef(Box::new(s[k]))) == rejected(),
        project(FctM::MutBorrowedRef(Box::new(s[k]))) == rejected(),
        project(FctM::ToOption(Box::new(s[k]))) == rejected(),
{
    lemma_project_list(s);
    assert(!embeddable(project(s[k])));
}

/// A tuple of primitives projects to the tuple of the same primitives, passed directly.
pub proof fn lemma_primitive_tuple_projects_direct(s: Seq<PrimitiveType>)
    ensures
        project(FctM::Tuple(s.map_values(|p: PrimitiveType| FctM::Primitive(p)))) == (
            FtM::Tuple(s.map_values(|p: PrimitiveType| FtM::Primitive(p))),
            CallTypeM::DirectCall,
        ),
{
    let c = s.map_values(|p: PrimitiveType| FctM::Primitive(p));
    lemma_project_list(c);
    assert forall|i: int| 0 <= i < c.len() implies embeddable(#[trigger] project(c[i])) by {}
    assert(project_list(c)->0 =~= s.map_values(|p: PrimitiveType| FtM::Primitive(p)));
}

/// A shared string reference without the static lifetime is a string input
/// passed directly; with the static lifetime, or mutable, it cannot be built.
pub proof fn lemma_str_reference(m: FullNameMap, fuel: nat, lt: Option<Seq<char>>, mu: Mutability)
    ensures
        lt != Some("'static"@) && mu == Mutability::Not ==> classify(
            TypeM::BorrowedRef(lt, mu, Box::new(TypeM::Primitive(PrimitiveType::Str))),
            m,
            fuel,
        ) == Ok::<FctM, crate::prelude_type::PreludeError>(FctM::Str),
        lt == Some("'static"@) || mu == Mutability::Mut ==> classify(
            TypeM::BorrowedRef(lt, mu, Box::new(TypeM::Primitive(PrimitiveType::Str))),
            m,
            fuel,
        ) == Ok::<FctM, crate::prelude_type::PreludeError>(FctM::NoFuzzable),
        project(FctM::Str) == (FtM::RefStr, CallTypeM::DirectCall),
{
}

} // verus!
