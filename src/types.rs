//! The type grammar that the analyses read, with a mathematical model of each
//! node, and deep copies that keep the model.
use vstd::prelude::*;

verus! {

/// Identifier of an item (struct, enum, trait) known to the documentation index.
pub type DefId = u64;

#[derive(Clone, Copy, Debug, PartialEq, Eq, Structural)]
pub enum PrimitiveType {
    Isize,
    I8,
    I16,
    I32,
    I64,
    I128,
    Usize,
    U8,
    U16,
    U32,
    U64,
    U128,
    F32,
    F64,
    Char,
    Bool,
    Str,
    Unit,
    Never,
}

#[derive(Clone, Copy, Debug, PartialEq, Eq, Structural)]
pub enum Mutability {
    Not,
    Mut,
}

/// How a struct is constructed: `S(..)`, `S`, or `S { .. }`.
#[derive(Clone, Copy, Debug, PartialEq, Eq, Structural)]
pub enum CtorKind {
    Fn,
    Const,
}

/// A declared type, as the type-inspection collaborator hands it over.
#[derive(Debug)]
pub enum Type {
    Primitive(PrimitiveType),
    Path { path: Path },
    Tuple(Vec<Type>),
    Slice(Box<Type>),
    Array(Box<Type>, String),
    RawPointer(Mutability, Box<Type>),
    BorrowedRef { lifetime: Option<String>, mutability: Mutability, type_: Box<Type> },
    Generic(String),
    QPath { self_type: Box<Type>, name: String },
    BareFunction,
    DynTrait,
    ImplTrait,
    Infer,
}

/// A path to a named item, with the generic arguments of each segment.
#[derive(Debug)]
pub struct Path {
    pub def_id: DefId,
    pub segments: Vec<PathSegment>,
}

#[derive(Debug)]
pub struct PathSegment {
    pub name: String,
    pub args: GenericArgs,
}

#[derive(Debug)]
pub enum GenericArgs {
    AngleBracketed(Vec<GenericArg>),
    Parenthesized { inputs: Vec<Type>, output: Option<Box<Type>> },
}

#[derive(Debug)]
pub enum GenericArg {
    Lifetime(String),
    Type(Type),
    Const(String),
}

/// Mathematical model of a [`Type`].
pub enum TypeM {
    Primitive(PrimitiveType),
    Path(PathM),
    Tuple(Seq<TypeM>),
    Slice(Box<TypeM>),
    Array(Box<TypeM>, Seq<char>),
    RawPointer(Mutability, Box<TypeM>),
    BorrowedRef(Option<Seq<char>>, Mutability, Box<TypeM>),
    Generic(Seq<char>),
    QPath(Box<TypeM>, Seq<char>),
    BareFunction,
    DynTrait,
    ImplTrait,
    Infer,
}

pub struct PathM {
    pub def_id: DefId,
    pub segments: Seq<SegmentM>,
}

pub struct SegmentM {
    pub name: Seq<char>,
    pub args: ArgsM,
}

pub enum ArgsM {
    AngleBracketed(Seq<ArgM>),
    Parenthesized(Seq<TypeM>, Option<Box<TypeM>>),
}

pub enum ArgM {
    Lifetime(Seq<char>),
    Type(TypeM),
    Const(Seq<char>),
}

pub open spec fn type_model(t: Type) -> TypeM
    decreases t,
{
    match t {
        Type::Primitive(p) => TypeM::Primitive(p),
        Type::Path { path } => TypeM::Path(path_model(path)),
        Type::Tuple(v) => TypeM::Tuple(types_model(v@)),
        Type::Slice(b) => TypeM::Slice(Box::new(type_model(*b))),
        Type::Array(b, n) => TypeM::Array(Box::new(type_model(*b)), n@),
        Type::RawPointer(m, b) => TypeM::RawPointer(m, Box::new(type_model(*b))),
        Type::BorrowedRef { lifetime, mutability, type_ } => TypeM::BorrowedRef(
            match lifetime {
                Some(l) => Some(l@),
                None => None,
            },
            mutability,
            Box::new(type_model(*type_)),
        ),
        Type::Generic(n) => TypeM::Generic(n@),
        Type::QPath { self_type, name } => TypeM::QPath(Box::new(type_model(*self_type)), name@),
        Type::BareFunction => TypeM::BareFunction,
        Type::DynTrait => TypeM::DynTrait,
        Type::ImplTrait => TypeM::ImplTrait,
        Type::Infer => TypeM::Infer,
    }
}

pub open spec fn types_model(s: Seq<Type>) -> Seq<TypeM>
    decreases s,
{
    if s.len() == 0 {
        Seq::empty()
    } else {
        types_model(s.subrange(0, s.len() - 1)).push(type_model(s[s.len() - 1]))
    }
}

pub open spec fn path_model(p: Path) -> PathM
    decreases p,
{
    PathM { def_id: p.def_id, segments: segments_model(p.segments@) }
}

pub open spec fn segments_model(s: Seq<PathSegment>) -> Seq<SegmentM>
    decreases s,
{
    if s.len() == 0 {
        Seq::empty()
    } else {
        segments_model(s.subrange(0, s.len() - 1)).push(segment_model(s[s.len() - 1]))
    }
}

pub open spec fn segment_model(s: PathSegment) -> SegmentM
    decreases s,
{
    SegmentM { name: s.name@, args: args_model(s.args) }
}

pub open spec fn args_model(a: GenericArgs) -> ArgsM
    decreases a,
{
    match a {
        GenericArgs::AngleBracketed(v) => ArgsM::AngleBracketed(arg_list_model(v@)),
        GenericArgs::Parenthesized { inputs, output } => ArgsM::Parenthesized(
            types_model(inputs@),
            match output {
                Some(o) => Some(Box::new(type_model(*o))),
                None => None,
            },
        ),
    }
}

pub open spec fn arg_list_model(s: Seq<GenericArg>) -> Seq<ArgM>
    decreases s,
{
    if s.len() == 0 {
        Seq::empty()
    } else {
        arg_list_model(s.subrange(0, s.len() - 1)).push(arg_model(s[s.len() - 1]))
    }
}

pub open spec fn arg_model(a: GenericArg) -> ArgM
    decreases a,
{
    match a {
        GenericArg::Lifetime(l) => ArgM::Lifetime(l@),
        GenericArg::Type(t) => ArgM::Type(type_model(t)),
        GenericArg::Const(c) => ArgM::Const(c@),
    }
}

impl View for Type {
    type V = TypeM;

    open spec fn view(&self) -> TypeM {
        type_model(*self)
    }
}

impl View for Path {
    type V = PathM;

    open spec fn view(&self) -> PathM {
        path_model(*self)
    }
}

impl View for PathSegment {
    type V = SegmentM;

    open spec fn view(&self) -> SegmentM {
        segment_model(*self)
    }
}

impl View for GenericArgs {
    type V = ArgsM;

    open spec fn view(&self) -> ArgsM {
        args_model(*self)
    }
}

impl View for GenericArg {
    type V = ArgM;

    open spec fn view(&self) -> ArgM {
        arg_model(*self)
    }
}

pub proof fn lemma_types_model(s: Seq<Type>)
    ensures
        types_model(s).len() == s.len(),
        forall|i: int| 0 <= i < s.len() ==> #[trigger] types_model(s)[i] == type_model(s[i]),
    decreases s.len(),
{
    if s.len() > 0 {
        lemma_types_model(s.subrange(0, s.len() - 1));
    }
}

pub proof fn lemma_segments_model(s: Seq<PathSegment>)
    ensures
        segments_model(s).len() == s.len(),
        forall|i: int| 0 <= i < s.len() ==> #[trigger] segments_model(s)[i] == segment_model(s[i]),
    decreases s.len(),
{
    if s.len() > 0 {
        lemma_segments_model(s.subrange(0, s.len() - 1));
    }
}

pub proof fn lemma_arg_list_model(s: Seq<GenericArg>)
    ensures
        arg_list_model(s).len() == s.len(),
        forall|i: int| 0 <= i < s.len() ==> #[trigger] arg_list_model(s)[i] == arg_model(s[i]),
    decreases s.len(),
{
    if s.len() > 0 {
        lemma_arg_list_model(s.subrange(0, s.len() - 1));
    }
}

/// Two lists of types with pointwise equal models have equal models.
pub proof fn lemma_types_model_eq(a: Seq<Type>, b: Seq<Type>)
    requires
        a.len() == b.len(),
        forall|i: int| 0 <= i < a.len() ==> type_model(#[trigger] a[i]) == type_model(b[i]),
    ensures
        types_model(a) == types_model(b),
{
    lemma_types_model(a);
    lemma_types_model(b);
    assert(types_model(a) =~= types_model(b));
}

pub fn clone_string(s: &String) -> (r: String)
    ensures
        r@ == s@,
{
    s.clone()
}

pub fn clone_type(t: &Type) -> (r: Type)
    ensures
        r@ == t@,
    decreases t,
{
    match t {
        Type::Primitive(p) => Type::Primitive(*p),
        Type::Path { path } => Type::Path { path: clone_path(path) },
        Type::Tuple(v) => Type::Tuple(clone_types(v)),
        Type::Slice(b) => Type::Slice(Box::new(clone_type(b))),
        Type::Array(b, n) => Type::Array(Box::new(clone_type(b)), clone_string(n)),
        Type::RawPointer(m, b) => Type::RawPointer(*m, Box::new(clone_type(b))),
        Type::BorrowedRef { lifetime, mutability, type_ } => Type::BorrowedRef {
            lifetime: match lifetime {
                Some(l) => Some(clone_string(l)),
                None => None,
            },
            mutability: *mutability,
            type_: Box::new(clone_type(type_)),
        },
        Type::Generic(n) => Type::Generic(clone_string(n)),
        Type::QPath { self_type, name } => Type::QPath {
            self_type: Box::new(clone_type(self_type)),
            name: clone_string(name),
        },
        Type::BareFunction => Type::BareFunction,
        Type::DynTrait => Type::DynTrait,
        Type::ImplTrait => Type::ImplTrait,
        Type::Infer => Type::Infer,
    }
}

pub fn clone_types(v: &Vec<Type>) -> (r: Vec<Type>)
    ensures
        r@.len() == v@.len(),
        forall|j: int| 0 <= j < v@.len() ==> (#[trigger] r@[j])@ == v@[j]@,
        types_model(r@) == types_model(v@),
    decreases v,
{
    let mut out: Vec<Type> = Vec::new();
    let mut i: usize = 0;
    while i < v.len()
        invariant
            i <= v.len(),
            out@.len() == i,
            forall|j: int| 0 <= j < i ==> (#[trigger] out@[j])@ == v@[j]@,
        decreases v.len() - i,
    {
        out.push(clone_type(&v[i]));
        i = i + 1;
    }
    proof {
        lemma_types_model_eq(out@, v@);
    }
    out
}

pub fn clone_path(p: &Path) -> (r: Path)
    ensures
        r@ == p@,
    decreases p,
{
    let mut out: Vec<PathSegment> = Vec::new();
    let mut i: usize = 0;
    while i < p.segments.len()
        invariant
            i <= p.segments.len(),
            out@.len() == i,
            forall|j: int| 0 <= j < i ==> (#[trigger] out@[j])@ == p.segments@[j]@,
        decreases p.segments.len() - i,
    {
        let seg = &p.segments[i];
        out.push(PathSegment { name: clone_string(&seg.name), args: clone_args(&seg.args) });
        i = i + 1;
    }
    proof {
        lemma_segments_model(out@);
        lemma_segments_model(p.segments@);
        assert(segments_model(out@) =~= segments_model(p.segments@));
    }
    Path { def_id: p.def_id, segments: out }
}

pub fn clone_args(a: &GenericArgs) -> (r: GenericArgs)
    ensures
        r@ == a@,
    decreases a,
{
    match a {
        GenericArgs::AngleBracketed(v) => GenericArgs::AngleBracketed(clone_arg_list(v)),
        GenericArgs::Parenthesized { inputs, output } => GenericArgs::Parenthesized {
            inputs: clone_types(inputs),
            output: match output {
                Some(o) => Some(Box::new(clone_type(o))),
                None => None,
            },
        },
    }
}

pub fn clone_arg_list(v: &Vec<GenericArg>) -> (r: Vec<GenericArg>)
    ensures
        arg_list_model(r@) == arg_list_model(v@),
    decreases v,
{
    let mut out: Vec<GenericArg> = Vec::new();
    let mut i: usize = 0;
    while i < v.len()
        invariant
            i <= v.len(),
            out@.len() == i,
            forall|j: int| 0 <= j < i ==> (#[trigger] out@[j])@ == v@[j]@,
        decreases v.len() - i,
    {
        out.push(clone_arg(&v[i]));
        i = i + 1;
    }
    proof {
        lemma_arg_list_model(out@);
        lemma_arg_list_model(v@);
        assert(arg_list_model(out@) =~= arg_list_model(v@));
    }
    out
}

pub fn clone_arg(a: &GenericArg) -> (r: GenericArg)
    ensures
        r@ == a@,
    decreases a,
{
    match a {
        GenericArg::Lifetime(l) => GenericArg::Lifetime(clone_string(l)),
        GenericArg::Type(t) => GenericArg::Type(clone_type(t)),
        GenericArg::Const(c) => GenericArg::Const(clone_string(c)),
    }
}

} // verus!
