//! Whether a value of a declared type can be built from raw bytes, and how the
//! built value is adapted to the call site.
use vstd::prelude::*;
use crate::call_type::{CallType, CallTypeM};
use crate::types::{CtorKind, PrimitiveType, Type, TypeM, type_model};

verus! {

/// One node per construct of a declared type: whether it can be built, and
/// how the built value is wrapped.
#[derive(Debug)]
pub enum FuzzableCallType {
    NoFuzzable,
    Primitive(PrimitiveType),
    Tuple(Vec<FuzzableCallType>),
    Slice(Box<FuzzableCallType>),
    Array(Box<FuzzableCallType>),
    ConstRawPointer(Box<FuzzableCallType>, Type),
    MutRawPointer(Box<FuzzableCallType>, Type),
    Str,
    BorrowedRef(Box<FuzzableCallType>),
    MutBorrowedRef(Box<FuzzableCallType>),
    ToOption(Box<FuzzableCallType>),
    /// Display name, constructor kind (`None`: no direct constructor), named fields.
    Struct(String, Option<CtorKind>, Vec<(String, FuzzableCallType)>),
}

/// The shape of the value that is built from bytes, without call-site wrapping.
#[derive(Debug)]
pub enum FuzzableType {
    NoFuzzable,
    Primitive(PrimitiveType),
    RefSlice(Box<FuzzableType>),
    RefStr,
    Struct(String, Option<CtorKind>, Vec<(String, FuzzableType)>),
    Tuple(Vec<FuzzableType>),
}

/// Mathematical model of a [`FuzzableCallType`]; a struct's field names and
/// field nodes stand in two sequences of equal length.
pub enum FctM {
    NoFuzzable,
    Primitive(PrimitiveType),
    Tuple(Seq<FctM>),
    Slice(Box<FctM>),
    Array(Box<FctM>),
    ConstRawPointer(Box<FctM>, TypeM),
    MutRawPointer(Box<FctM>, TypeM),
    Str,
    BorrowedRef(Box<FctM>),
    MutBorrowedRef(Box<FctM>),
    ToOption(Box<FctM>),
    Struct(Seq<char>, Option<CtorKind>, Seq<Seq<char>>, Seq<FctM>),
}

/// Mathematical model of a [`FuzzableType`].
pub enum FtM {
    NoFuzzable,
    Primitive(PrimitiveType),
    RefSlice(Box<FtM>),
    RefStr,
    Struct(Seq<char>, Option<CtorKind>, Seq<Seq<char>>, Seq<FtM>),
    Tuple(Seq<FtM>),
}

pub open spec fn field_names<X>(s: Seq<(String, X)>) -> Seq<Seq<char>> {
    s.map_values(|p: (String, X)| p.0@)
}

pub open spec fn fct_model(f: FuzzableCallType) -> FctM
    decreases f,
{
    match f {
        FuzzableCallType::NoFuzzable => FctM::NoFuzzable,
        FuzzableCallType::Primitive(p) => FctM::Primitive(p),
        FuzzableCallType::Tuple(v) => FctM::Tuple(fcts_model(v@)),
        FuzzableCallType::Slice(b) => FctM::Slice(Box::new(fct_model(*b))),
        FuzzableCallType::Array(b) => FctM::Array(Box::new(fct_model(*b))),
        FuzzableCallType::ConstRawPointer(b, t) => FctM::ConstRawPointer(
            Box::new(fct_model(*b)),
            type_model(t),
        ),
        FuzzableCallType::MutRawPointer(b, t) => FctM::MutRawPointer(
            Box::new(fct_model(*b)),
            type_model(t),
        ),
        FuzzableCallType::Str => FctM::Str,
        FuzzableCallType::BorrowedRef(b) => FctM::BorrowedRef(Box::new(fct_model(*b))),
        FuzzableCallType::MutBorrowedRef(b) => FctM::MutBorrowedRef(Box::new(fct_model(*b))),
        FuzzableCallType::ToOption(b) => FctM::ToOption(Box::new(fct_model(*b))),
        FuzzableCallType::Struct(n, k, v) => FctM::Struct(
            n@,
            k,
            field_names(v@),
            field_fcts_model(v@),
        ),
    }
}

pub open spec fn fcts_model(s: Seq<FuzzableCallType>) -> Seq<FctM>
    decreases s,
{
    if s.len() == 0 {
        Seq::empty()
    } else {
        fcts_model(s.subrange(0, s.len() - 1)).push(fct_model(s[s.len() - 1]))
    }
}

pub open spec fn field_fcts_model(s: Seq<(String, FuzzableCallType)>) -> Seq<FctM>
    decreases s,
{
    if s.len() == 0 {
        Seq::empty()
    } else {
        field_fcts_model(s.subrange(0, s.len() - 1)).push(fct_model(s[s.len() - 1].1))
    }
}

pub open spec fn ft_model(f: FuzzableType) -> FtM
    decreases f,
{
    match f {
        FuzzableType::NoFuzzable => FtM::NoFuzzable,
        FuzzableType::Primitive(p) => FtM::Primitive(p),
        FuzzableType::RefSlice(b) => FtM::RefSlice(Box::new(ft_model(*b))),
        FuzzableType::RefStr => FtM::RefStr,
        FuzzableType::Struct(n, k, v) => FtM::Struct(
            n@,
            k,
            field_names(v@),
            field_fts_model(v@),
        ),
        FuzzableType::Tuple(v) => FtM::Tuple(fts_model(v@)),
    }
}

pub open spec fn fts_model(s: Seq<FuzzableType>) -> Seq<FtM>
    decreases s,
{
    if s.len() == 0 {
        Seq::empty()
    } else {
        fts_model(s.subrange(0, s.len() - 1)).push(ft_model(s[s.len() - 1]))
    }
}

pub open spec fn field_fts_model(s: Seq<(String, FuzzableType)>) -> Seq<FtM>
    decreases s,
{
    if s.len() == 0 {
        Seq::empty()
    } else {
        field_fts_model(s.subrange(0, s.len() - 1)).push(ft_model(s[s.len() - 1].1))
    }
}

impl View for FuzzableCallType {
    type V = FctM;

    open spec fn view(&self) -> FctM {
        fct_model(*self)
    }
}

impl View for FuzzableType {
    type V = FtM;

    open spec fn view(&self) -> FtM {
        ft_model(*self)
    }
}

pub proof fn lemma_fcts_model(s: Seq<FuzzableCallType>)
    ensures
        fcts_model(s).len() == s.len(),
        forall|i: int| 0 <= i < s.len() ==> #[trigger] fcts_model(s)[i] == fct_model(s[i]),
    decreases s.len(),
{
    if s.len() > 0 {
        lemma_fcts_model(s.subrange(0, s.len() - 1));
    }
}

pub proof fn lemma_field_fcts_model(s: Seq<(String, FuzzableCallType)>)
    ensures
        field_fcts_model(s).len() == s.len(),
        forall|i: int|
            0 <= i < s.len() ==> #[trigger] field_fcts_model(s)[i] == fct_model(s[i].1),
    decreases s.len(),
{
    if s.len() > 0 {
        lemma_field_fcts_model(s.subrange(0, s.len() - 1));
    }
}

pub proof fn lemma_fts_model(s: Seq<FuzzableType>)
    ensures
        fts_model(s).len() == s.len(),
        forall|i: int| 0 <= i < s.len() ==> #[trigger] fts_model(s)[i] == ft_model(s[i]),
    decreases s.len(),
{
    if s.len() > 0 {
        lemma_fts_model(s.subrange(0, s.len() - 1));
    }
}

pub proof fn lemma_field_fts_model(s: Seq<(String, FuzzableType)>)
    ensures
        field_fts_model(s).len() == s.len(),
        forall|i: int| 0 <= i < s.len() ==> #[trigger] field_fts_model(s)[i] == ft_model(s[i].1),
    decreases s.len(),
{
    if s.len() > 0 {
        lemma_field_fts_model(s.subrange(0, s.len() - 1));
    }
}

/// The pair that marks a node that cannot be built or cannot be passed.
pub open spec fn rejected() -> (FtM, CallTypeM) {
    (FtM::NoFuzzable, CallTypeM::NotCompatible)
}

/// A projected child that a wrapper (pointer, reference, option) can wrap.
pub open spec fn wrappable(p: (FtM, CallTypeM)) -> bool {
    !(p.0 is NoFuzzable) && !(p.1 is NotCompatible)
}

/// A projected child that an aggregate (tuple, struct) can hold.
pub open spec fn embeddable(p: (FtM, CallTypeM)) -> bool {
    !(p.0 is NoFuzzable) && p.1 is DirectCall
}

/// The fold of a call-type tree into the value shape and the call-site expression.
pub open spec fn project(f: FctM) -> (FtM, CallTypeM)
    decreases f,
{
    match f {
        FctM::NoFuzzable => rejected(),
        FctM::Primitive(p) => (FtM::Primitive(p), CallTypeM::DirectCall),
        FctM::Str => (FtM::RefStr, CallTypeM::DirectCall),
        FctM::Slice(_) => rejected(),
        FctM::Array(_) => rejected(),
        FctM::Tuple(s) => match project_list(s) {
            Some(v) => (FtM::Tuple(v), CallTypeM::DirectCall),
            None => rejected(),
        },
        FctM::Struct(n, k, names, s) => match project_list(s) {
            Some(v) => (FtM::Struct(n, k, names, v), CallTypeM::DirectCall),
            None => rejected(),
        },
        FctM::ConstRawPointer(c, t) => {
            let p = project(*c);
            if wrappable(p) {
                (p.0, CallTypeM::ConstRawPointer(Box::new(p.1), t))
            } else {
                rejected()
            }
        },
        FctM::MutRawPointer(c, t) => {
            let p = project(*c);
            if wrappable(p) {
                (p.0, CallTypeM::MutRawPointer(Box::new(p.1), t))
            } else {
                rejected()
            }
        },
        FctM::BorrowedRef(c) => match *c {
            FctM::Slice(inner) => {
                let p = project(*inner);
                if wrappable(p) {
                    (FtM::RefSlice(Box::new(p.0)), CallTypeM::DirectCall)
                } else {
                    rejected()
                }
            },
            _ => {
                let p = project(*c);
                if wrappable(p) {
                    (p.0, CallTypeM::BorrowedRef(Box::new(p.1)))
                } else {
                    rejected()
                }
            },
        },
        FctM::MutBorrowedRef(c) => {
            let p = project(*c);
            if wrappable(p) {
                (p.0, CallTypeM::MutBorrowedRef(Box::new(p.1)))
            } else {
                rejected()
            }
        },
        FctM::ToOption(c) => {
            let p = project(*c);
            if wrappable(p) {
                (p.0, CallTypeM::ToOption(Box::new(p.1)))
            } else {
                rejected()
            }
        },
    }
}

/// The value shapes of all children, when every child is embeddable.
pub open spec fn project_list(s: Seq<FctM>) -> Option<Seq<FtM>>
    decreases s,
{
    if s.len() == 0 {
        Some(Seq::empty())
    } else {
        match project_list(s.subrange(0, s.len() - 1)) {
            Some(v) => {
                let p = project(s[s.len() - 1]);
                if embeddable(p) {
                    Some(v.push(p.0))
                } else {
                    None
                }
            },
            None => None,
        }
    }
}

/// A list projects when and only when each of its children is embeddable.
pub proof fn lemma_project_list(s: Seq<FctM>)
    ensures
        project_list(s) is Some <==> forall|i: int|
            0 <= i < s.len() ==> embeddable(#[trigger] project(s[i])),
        project_list(s) is Some ==> project_list(s)->0.len() == s.len() && forall|i: int|
            0 <= i < s.len() ==> #[trigger] project_list(s)->0[i] == project(s[i]).0,
    decreases s.len(),
{
    if s.len() > 0 {
        let pre = s.subrange(0, s.len() - 1);
        lemma_project_list(pre);
        if project_list(s) is Some {
            assert forall|i: int| 0 <= i < s.len() implies embeddable(#[trigger] project(s[i])) by {
                if i < s.len() - 1 {
                    assert(pre[i] == s[i]);
                }
            }
        }
        if forall|i: int| 0 <= i < s.len() ==> embeddable(#[trigger] project(s[i])) {
            assert forall|i: int| 0 <= i < pre.len() implies embeddable(#[trigger] project(pre[i])) by {
                assert(pre[i] == s[i]);
                assert(embeddable(project(s[i])));
            }
            assert(embeddable(project(s[s.len() - 1])));
        }
    }
}

impl FuzzableType {
    pub fn is_fuzzable(&self) -> (r: bool)
        ensures
            r == !(self@ is NoFuzzable),
    {
        match self {
            FuzzableType::NoFuzzable => false,
            _ => true,
        }
    }
}

impl FuzzableCallType {
    pub fn is_fuzzable(&self) -> (r: bool)
        ensures
            r == !(self@ is NoFuzzable),
    {
        match self {
            FuzzableCallType::NoFuzzable => false,
            _ => true,
        }
    }

    /// Folds the tree into the shape of the value to build and the expression
    /// that passes it: wrappers add a layer to the call-site expression and
    /// leave the shape alone; aggregates need every child passed directly.
    pub fn generate_fuzzable_type_and_call_type(&self) -> (r: (FuzzableType, CallType))
        ensures
            (r.0@, r.1@) == project(self@),
        decreases self,
    {
        match self {
            FuzzableCallType::Struct(full_name, kind, fields) => {
                match project_fields(fields) {
                    Some(res) => {
                        proof {
                            assert(field_names(res@) =~= field_names(fields@));
                        }
                        (FuzzableType::Struct(full_name.clone(), *kind, res), CallType::DirectCall)
                    },
                    None => (FuzzableType::NoFuzzable, CallType::NotCompatible),
                }
            },
            FuzzableCallType::NoFuzzable => (FuzzableType::NoFuzzable, CallType::NotCompatible),
            FuzzableCallType::Primitive(primitive) => (
                FuzzableType::Primitive(*primitive),
                CallType::DirectCall,
            ),
            FuzzableCallType::Tuple(types) => {
                match project_children(types) {
                    Some(res) => (FuzzableType::Tuple(res), CallType::DirectCall),
                    None => (FuzzableType::NoFuzzable, CallType::NotCompatible),
                }
            },
            FuzzableCallType::ConstRawPointer(inner, type_) => {
                let (fuzzable_type, inner_call_type) = inner.generate_fuzzable_type_and_call_type();
                if !fuzzable_type.is_fuzzable() || !inner_call_type.is_compatible() {
                    return (FuzzableType::NoFuzzable, CallType::NotCompatible);
                }
                (
                    fuzzable_type,
                    CallType::ConstRawPointer(Box::new(inner_call_type), crate::types::clone_type(type_)),
                )
            },
            FuzzableCallType::MutRawPointer(inner, type_) => {
                let (fuzzable_type, inner_call_type) = inner.generate_fuzzable_type_and_call_type();
                if !fuzzable_type.is_fuzzable() || !inner_call_type.is_compatible() {
                    return (FuzzableType::NoFuzzable, CallType::NotCompatible);
                }
                (
                    fuzzable_type,
                    CallType::MutRawPointer(Box::new(inner_call_type), crate::types::clone_type(type_)),
                )
            },
            FuzzableCallType::BorrowedRef(inner) => {
                if let FuzzableCallType::Slice(slice_inner) = &**inner {
                    assert(fct_model(**inner) == FctM::Slice(Box::new(fct_model(**slice_inner))));
                    let (fuzzable_type, inner_call_type) =
                        slice_inner.generate_fuzzable_type_and_call_type();
                    if !fuzzable_type.is_fuzzable() || !inner_call_type.is_compatible() {
                        return (FuzzableType::NoFuzzable, CallType::NotCompatible);
                    }
                    return (FuzzableType::RefSlice(Box::new(fuzzable_type)), CallType::DirectCall);
                }
                let (fuzzable_type, inner_call_type) = inner.generate_fuzzable_type_and_call_type();
                if !fuzzable_type.is_fuzzable() || !inner_call_type.is_compatible() {
                    return (FuzzableType::NoFuzzable, CallType::NotCompatible);
                }
                (fuzzable_type, CallType::BorrowedRef(Box::new(inner_call_type)))
            },
            FuzzableCallType::MutBorrowedRef(inner) => {
                let (fuzzable_type, inner_call_type) = inner.generate_fuzzable_type_and_call_type();
                if !fuzzable_type.is_fuzzable() || !inner_call_type.is_compatible() {
                    return (FuzzableType::NoFuzzable, CallType::NotCompatible);
                }
                (fuzzable_type, CallType::MutBorrowedRef(Box::new(inner_call_type)))
            },
            FuzzableCallType::Str => (FuzzableType::RefStr, CallType::DirectCall),
            FuzzableCallType::ToOption(inner) => {
                let (fuzzable_type, inner_call_type) = inner.generate_fuzzable_type_and_call_type();
                if !fuzzable_type.is_fuzzable() || !inner_call_type.is_compatible() {
                    return (FuzzableType::NoFuzzable, CallType::NotCompatible);
                }
                (fuzzable_type, CallType::ToOption(Box::new(inner_call_type)))
            },
            FuzzableCallType::Array(_) | FuzzableCallType::Slice(_) => (
                FuzzableType::NoFuzzable,
                CallType::NotCompatible,
            ),
        }
    }
}

/// Projects each child of a tuple; `None` as soon as one is not embeddable.
fn project_children(types: &Vec<FuzzableCallType>) -> (r: Option<Vec<FuzzableType>>)
    ensures
        match r {
            Some(v) => project_list(fcts_model(types@)) == Some(fts_model(v@)),
            None => project_list(fcts_model(types@)) is None,
        },
    decreases types,
{
    let mut fuzzable_types: Vec<FuzzableType> = Vec::new();
    let mut i: usize = 0;
    proof {
        lemma_fcts_model(types@);
    }
    while i < types.len()
        invariant
            i <= types.len(),
            fuzzable_types@.len() == i,
            fcts_model(types@).len() == types@.len(),
            forall|j: int|
                0 <= j < types@.len() ==> #[trigger] fcts_model(types@)[j] == fct_model(types@[j]),
            forall|j: int| 0 <= j < i ==> embeddable(#[trigger] project(fct_model(types@[j]))),
            forall|j: int|
                0 <= j < i ==> (#[trigger] fuzzable_types@[j])@ == project(fct_model(types@[j])).0,
        decreases types.len() - i,
    {
        let (fuzzable_type, call_type) = types[i].generate_fuzzable_type_and_call_type();
        if !fuzzable_type.is_fuzzable() || !call_type.is_direct() {
            proof {
                let s = fcts_model(types@);
                lemma_project_list(s);
                assert(!embeddable(project(s[i as int])));
            }
            return None;
        }
        fuzzable_types.push(fuzzable_type);
        i = i + 1;
    }
    proof {
        let s = fcts_model(types@);
        lemma_project_list(s);
        lemma_fts_model(fuzzable_types@);
        assert(fts_model(fuzzable_types@) =~= project_list(s)->0);
    }
    Some(fuzzable_types)
}

/// Projects each field of a struct; `None` as soon as one is not embeddable.
fn project_fields(fields: &Vec<(String, FuzzableCallType)>) -> (r: Option<Vec<(String, FuzzableType)>>)
    ensures
        match r {
            Some(v) => project_list(field_fcts_model(fields@)) == Some(field_fts_model(v@))
                && v@.len() == fields@.len()
                && forall|j: int| 0 <= j < v@.len() ==> (#[trigger] v@[j]).0@ == fields@[j].0@,
            None => project_list(field_fcts_model(fields@)) is None,
        },
    decreases fields,
{
    let mut res: Vec<(String, FuzzableType)> = Vec::new();
    let mut i: usize = 0;
    proof {
        lemma_field_fcts_model(fields@);
    }
    while i < fields.len()
        invariant
            i <= fields.len(),
            res@.len() == i,
            field_fcts_model(fields@).len() == fields@.len(),
            forall|j: int|
                0 <= j < fields@.len() ==> #[trigger] field_fcts_model(fields@)[j] == fct_model(
                    fields@[j].1,
                ),
            forall|j: int| 0 <= j < i ==> (#[trigger] res@[j]).0@ == fields@[j].0@,
            forall|j: int| 0 <= j < i ==> embeddable(#[trigger] project(fct_model(fields@[j].1))),
            forall|j: int|
                0 <= j < i ==> (#[trigger] res@[j]).1@ == project(fct_model(fields@[j].1)).0,
        decreases fields.len() - i,
    {
        let field = &fields[i];
        let (fuzzable, call) = field.1.generate_fuzzable_type_and_call_type();
        if !call.is_direct() || !fuzzable.is_fuzzable() {
            proof {
                let s = field_fcts_model(fields@);
                lemma_project_list(s);
                assert(!embeddable(project(s[i as int])));
            }
            return None;
        }
        res.push((field.0.clone(), fuzzable));
        i = i + 1;
    }
    proof {
        let s = field_fcts_model(fields@);
        lemma_project_list(s);
        lemma_field_fts_model(res@);
        assert(field_fts_model(res@) =~= project_list(s)->0);
    }
    Some(res)
}

} // verus!
