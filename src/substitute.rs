//! Replacement of generic parameters by concrete types.
use vstd::prelude::*;
use crate::prelude_type::string_eq;
use crate::types::{
    ArgM,
    ArgsM,
    GenericArg,
    GenericArgs,
    Path,
    PathM,
    PathSegment,
    SegmentM,
    Type,
    TypeM,
    clone_string,
    clone_type,
};

verus! {

/// The value bound to the first occurrence of `n` among `names`.
pub open spec fn lookup_value(names: Seq<Seq<char>>, values: Seq<TypeM>, n: Seq<char>) -> Option<
    TypeM,
>
    decreases names.len(),
{
    if names.len() == 0 || values.len() == 0 {
        None
    } else if names[0] == n {
        Some(values[0])
    } else {
        lookup_value(
            names.subrange(1, names.len() as int),
            values.subrange(1, values.len() as int),
            n,
        )
    }
}

/// The model of `t` with each generic parameter named in `names` replaced by
/// its value; a replaced node is not looked into again.
pub open spec fn subst_type(t: Type, names: Seq<Seq<char>>, values: Seq<TypeM>) -> TypeM
    decreases t,
{
    match t {
        Type::Generic(n) => match lookup_value(names, values, n@) {
            Some(v) => v,
            None => TypeM::Generic(n@),
        },
        Type::Primitive(p) => TypeM::Primitive(p),
        Type::Path { path } => TypeM::Path(subst_path(path, names, values)),
        Type::Tuple(v) => TypeM::Tuple(subst_types(v@, names, values)),
        Type::Slice(b) => TypeM::Slice(Box::new(subst_type(*b, names, values))),
        Type::Array(b, n) => TypeM::Array(Box::new(subst_type(*b, names, values)), n@),
        Type::RawPointer(m, b) => TypeM::RawPointer(m, Box::new(subst_type(*b, names, values))),
        Type::BorrowedRef { lifetime, mutability, type_ } => TypeM::BorrowedRef(
            match lifetime {
                Some(l) => Some(l@),
                None => None,
            },
            mutability,
            Box::new(subst_type(*type_, names, values)),
        ),
        Type::QPath { self_type, name } => TypeM::QPath(
            Box::new(subst_type(*self_type, names, values)),
            name@,
        ),
        Type::BareFunction => TypeM::BareFunction,
        Type::DynTrait => TypeM::DynTrait,
        Type::ImplTrait => TypeM::ImplTrait,
        Type::Infer => TypeM::Infer,
    }
}

pub open spec fn subst_types(s: Seq<Type>, names: Seq<Seq<char>>, values: Seq<TypeM>) -> Seq<TypeM>
    decreases s,
{
    if s.len() == 0 {
        Seq::empty()
    } else {
        subst_types(s.subrange(0, s.len() - 1), names, values).push(
            subst_type(s[s.len() - 1], names, values),
        )
    }
}

pub open spec fn subst_path(p: Path, names: Seq<Seq<char>>, values: Seq<TypeM>) -> PathM
    decreases p,
{
    PathM { def_id: p.def_id, segments: subst_segments(p.segments@, names, values) }
}

pub open spec fn subst_segments(
    s: Seq<PathSegment>,
    names: Seq<Seq<char>>,
    values: Seq<TypeM>,
) -> Seq<SegmentM>
    decreases s,
{
    if s.len() == 0 {
        Seq::empty()
    } else {
        subst_segments(s.subrange(0, s.len() - 1), names, values).push(
            SegmentM {
                name: s[s.len() - 1].name@,
                args: subst_args(s[s.len() - 1].args, names, values),
            },
        )
    }
}

pub open spec fn subst_args(a: GenericArgs, names: Seq<Seq<char>>, values: Seq<TypeM>) -> ArgsM
    decreases a,
{
    match a {
        GenericArgs::AngleBracketed(v) => ArgsM::AngleBracketed(
            subst_arg_list(v@, names, values),
        ),
        GenericArgs::Parenthesized { inputs, output } => ArgsM::Parenthesized(
            subst_types(inputs@, names, values),
            match output {
                Some(o) => Some(Box::new(subst_type(*o, names, values))),
                None => None,
            },
        ),
    }
}

pub open spec fn subst_arg_list(s: Seq<GenericArg>, names: Seq<Seq<char>>, values: Seq<TypeM>) -> Seq<
    ArgM,
>
    decreases s,
{
    if s.len() == 0 {
        Seq::empty()
    } else {
        subst_arg_list(s.subrange(0, s.len() - 1), names, values).push(
            match s[s.len() - 1] {
                GenericArg::Lifetime(l) => ArgM::Lifetime(l@),
                GenericArg::Type(t) => ArgM::Type(subst_type(t, names, values)),
                GenericArg::Const(c) => ArgM::Const(c@),
            },
        )
    }
}

pub open spec fn names_model(names: Seq<String>) -> Seq<Seq<char>> {
    names.map_values(|n: String| n@)
}

pub open spec fn values_model(values: Seq<Type>) -> Seq<TypeM> {
    values.map_values(|t: Type| t@)
}

/// The value bound to `n`, by position of `n` among `names`.
pub fn find_value<'a>(names: &Vec<String>, values: &'a Vec<Type>, n: &String) -> (r: Option<&'a Type>)
    ensures
        match r {
            Some(v) => lookup_value(names_model(names@), values_model(values@), n@) == Some(v@),
            None => lookup_value(names_model(names@), values_model(values@), n@) is None,
        },
{
    let ghost ns = names_model(names@);
    let ghost vs = values_model(values@);
    let mut i: usize = 0;
    proof {
        assert(ns.subrange(0, ns.len() as int) =~= ns);
        assert(vs.subrange(0, vs.len() as int) =~= vs);
    }
    while i < names.len() && i < values.len()
        invariant
            ns == names_model(names@),
            vs == values_model(values@),
            i <= names@.len(),
            i <= values@.len(),
            lookup_value(ns, vs, n@) == lookup_value(
                ns.subrange(i as int, ns.len() as int),
                vs.subrange(i as int, vs.len() as int),
                n@,
            ),
        decreases names.len() - i,
    {
        proof {
            let rn = ns.subrange(i as int, ns.len() as int);
            let rv = vs.subrange(i as int, vs.len() as int);
            assert(rn.subrange(1, rn.len() as int) =~= ns.subrange(i + 1, ns.len() as int));
            assert(rv.subrange(1, rv.len() as int) =~= vs.subrange(i + 1, vs.len() as int));
            assert(rn[0] == names@[i as int]@);
            assert(rv[0] == values@[i as int]@);
        }
        if string_eq(&names[i], n) {
            return Some(&values[i]);
        }
        i = i + 1;
    }
    None
}

/// `t` with each generic parameter named in `names` replaced by the type at
/// the same position in `values`.
pub fn substitute(t: &Type, names: &Vec<String>, values: &Vec<Type>) -> (r: Type)
    ensures
        r@ == subst_type(*t, names_model(names@), values_model(values@)),
    decreases t,
{
    match t {
        Type::Generic(n) => match find_value(names, values, n) {
            Some(v) => clone_type(v),
            None => Type::Generic(clone_string(n)),
        },
        Type::Primitive(p) => Type::Primitive(*p),
        Type::Path { path } => Type::Path { path: substitute_path(path, names, values) },
        Type::Tuple(v) => Type::Tuple(substitute_types(v, names, values)),
        Type::Slice(b) => Type::Slice(Box::new(substitute(b, names, values))),
        Type::Array(b, n) => Type::Array(Box::new(substitute(b, names, values)), clone_string(n)),
        Type::RawPointer(m, b) => Type::RawPointer(*m, Box::new(substitute(b, names, values))),
        Type::BorrowedRef { lifetime, mutability, type_ } => Type::BorrowedRef {
            lifetime: match lifetime {
                Some(l) => Some(clone_string(l)),
                None => None,
            },
            mutability: *mutability,
            type_: Box::new(substitute(type_, names, values)),
        },
        Type::QPath { self_type, name } => Type::QPath {
            self_type: Box::new(substitute(self_type, names, values)),
            name: clone_string(name),
        },
        Type::BareFunction => Type::BareFunction,
        Type::DynTrait => Type::DynTrait,
        Type::ImplTrait => Type::ImplTrait,
        Type::Infer => Type::Infer,
    }
}

pub fn substitute_types(v: &Vec<Type>, names: &Vec<String>, values: &Vec<Type>) -> (r: Vec<Type>)
    ensures
        crate::types::types_model(r@) == subst_types(v@, names_model(names@), values_model(values@)),
    decreases v,
{
    let ghost ns = names_model(names@);
    let ghost vs = values_model(values@);
    let mut out: Vec<Type> = Vec::new();
    let mut i: usize = 0;
    assert(v@.subrange(0, 0) =~= Seq::<Type>::empty());
    while i < v.len()
        invariant
            ns == names_model(names@),
            vs == values_model(values@),
            i <= v@.len(),
            crate::types::types_model(out@) == subst_types(v@.subrange(0, i as int), ns, vs),
        decreases v.len() - i,
    {
        let ghost before = out@;
        out.push(substitute(&v[i], names, values));
        proof {
            assert(out@.subrange(0, out@.len() - 1) =~= before);
            assert(v@.subrange(0, i + 1).subrange(0, i as int) =~= v@.subrange(0, i as int));
        }
        i = i + 1;
    }
    proof {
        assert(v@.subrange(0, v@.len() as int) =~= v@);
    }
    out
}

pub fn substitute_path(p: &Path, names: &Vec<String>, values: &Vec<Type>) -> (r: Path)
    ensures
        r@ == subst_path(*p, names_model(names@), values_model(values@)),
    decreases p,
{
    let ghost ns = names_model(names@);
    let ghost vs = values_model(values@);
    let mut out: Vec<PathSegment> = Vec::new();
    let mut i: usize = 0;
    assert(p.segments@.subrange(0, 0) =~= Seq::<PathSegment>::empty());
    while i < p.segments.len()
        invariant
            ns == names_model(names@),
            vs == values_model(values@),
            i <= p.segments@.len(),
            crate::types::segments_model(out@) == subst_segments(
                p.segments@.subrange(0, i as int),
                ns,
                vs,
            ),
        decreases p.segments.len() - i,
    {
        let seg = &p.segments[i];
        let ghost before = out@;
        out.push(substitute_segment(seg, names, values));
        proof {
            assert(out@.subrange(0, out@.len() - 1) =~= before);
            assert(p.segments@.subrange(0, i + 1).subrange(0, i as int) =~= p.segments@.subrange(
                0,
                i as int,
            ));
            assert(p.segments@.subrange(0, i + 1)[i as int] == *seg);
        }
        i = i + 1;
    }
    proof {
        assert(p.segments@.subrange(0, p.segments@.len() as int) =~= p.segments@);
    }
    Path { def_id: p.def_id, segments: out }
}

fn substitute_segment(seg: &PathSegment, names: &Vec<String>, values: &Vec<Type>) -> (r: PathSegment)
    ensures
        r@ == (SegmentM {
            name: seg.name@,
            args: subst_args(seg.args, names_model(names@), values_model(values@)),
        }),
    decreases seg,
{
    PathSegment { name: clone_string(&seg.name), args: substitute_args(&seg.args, names, values) }
}

pub fn substitute_args(a: &GenericArgs, names: &Vec<String>, values: &Vec<Type>) -> (r: GenericArgs)
    ensures
        r@ == subst_args(*a, names_model(names@), values_model(values@)),
    decreases a,
{
    match a {
        GenericArgs::AngleBracketed(v) => GenericArgs::AngleBracketed(
            substitute_arg_list(v, names, values),
        ),
        GenericArgs::Parenthesized { inputs, output } => GenericArgs::Parenthesized {
            inputs: substitute_types(inputs, names, values),
            output: match output {
                Some(o) => Some(Box::new(substitute(o, names, values))),
                None => None,
            },
        },
    }
}

pub fn substitute_arg_list(v: &Vec<GenericArg>, names: &Vec<String>, values: &Vec<Type>) -> (r: Vec<
    GenericArg,
>)
    ensures
        crate::types::arg_list_model(r@) == subst_arg_list(
            v@,
            names_model(names@),
            values_model(values@),
        ),
    decreases v,
{
    let ghost ns = names_model(names@);
    let ghost vs = values_model(values@);
    let mut out: Vec<GenericArg> = Vec::new();
    let mut i: usize = 0;
    assert(v@.subrange(0, 0) =~= Seq::<GenericArg>::empty());
    while i < v.len()
        invariant
            ns == names_model(names@),
            vs == values_model(values@),
            i <= v@.len(),
            crate::types::arg_list_model(out@) == subst_arg_list(v@.subrange(0, i as int), ns, vs),
        decreases v.len() - i,
    {
        let ghost before = out@;
        out.push(substitute_arg(&v[i], names, values));
        proof {
            assert(out@.subrange(0, out@.len() - 1) =~= before);
            assert(v@.subrange(0, i + 1).subrange(0, i as int) =~= v@.subrange(0, i as int));
        }
        i = i + 1;
    }
    proof {
        assert(v@.subrange(0, v@.len() as int) =~= v@);
    }
    out
}

pub fn substitute_arg(a: &GenericArg, names: &Vec<String>, values: &Vec<Type>) -> (r: GenericArg)
    ensures
        r@ == match *a {
            GenericArg::Lifetime(l) => ArgM::Lifetime(l@),
            GenericArg::Type(t) => ArgM::Type(subst_type(t, names_model(names@), values_model(values@))),
            GenericArg::Const(c) => ArgM::Const(c@),
        },
    decreases a,
{
    match a {
        GenericArg::Lifetime(l) => GenericArg::Lifetime(clone_string(l)),
        GenericArg::Type(t) => GenericArg::Type(substitute(t, names, values)),
        GenericArg::Const(c) => GenericArg::Const(clone_string(c)),
    }
}

} // verus!
