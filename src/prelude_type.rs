//! The two standard containers that get special handling: the optional value
//! (`Option<T>`) and the fallible value (`Result<T, E>`).
use vstd::prelude::*;
use crate::call_type::{CallType, CallTypeM};
use crate::index::{FullNameMap, find_name};
use crate::types::{
    GenericArg,
    GenericArgs,
    Path,
    PathM,
    SegmentM,
    Type,
    TypeM,
    clone_type,
    lemma_arg_list_model,
    lemma_segments_model,
};

verus! {

pub const OPTION_PATH: &'static str = "std::option::Option";

pub const RESULT_PATH: &'static str = "std::result::Result";

/// A container recognised by name whose generic arguments do not have the
/// documented shape: the type data handed over is malformed.
#[derive(Clone, Copy, Debug, PartialEq, Eq, Structural)]
pub enum PreludeError {
    MalformedOption,
    MalformedResult,
}

#[derive(Debug)]
pub enum PreludeType {
    PreludeOption(Type),
    PreludeResult { ok_type: Type, err_type: Type },
}

/// Mathematical model of a [`PreludeType`].
pub enum PreludeM {
    PreludeOption(TypeM),
    PreludeResult(TypeM, TypeM),
}

impl View for PreludeType {
    type V = PreludeM;

    open spec fn view(&self) -> PreludeM {
        match self {
            PreludeType::PreludeOption(t) => PreludeM::PreludeOption(t@),
            PreludeType::PreludeResult { ok_type, err_type } => PreludeM::PreludeResult(
                ok_type@,
                err_type@,
            ),
        }
    }
}

/// A segment whose arguments are exactly one type.
pub open spec fn single_type_arg(seg: SegmentM) -> bool {
    &&& seg.args is AngleBracketed
    &&& seg.args->AngleBracketed_0.len() == 1
    &&& seg.args->AngleBracketed_0[0] is Type
}

/// The first segment at or after `from` whose arguments are exactly one type; -1 if none.
pub open spec fn single_type_arg_position(segs: Seq<SegmentM>, from: int) -> int
    decreases segs.len() - from,
{
    if from < 0 || from >= segs.len() {
        -1
    } else if single_type_arg(segs[from]) {
        from
    } else {
        single_type_arg_position(segs, from + 1)
    }
}

/// The payload of an optional-value path: the argument of its first segment
/// that carries exactly one type.
pub open spec fn option_payload(p: PathM) -> Option<TypeM> {
    let k = single_type_arg_position(p.segments, 0);
    if 0 <= k < p.segments.len() && single_type_arg(p.segments[k]) {
        Some(p.segments[k].args->AngleBracketed_0[0]->Type_0)
    } else {
        None
    }
}

/// The success and error payloads of a fallible-value path: the two type
/// arguments of its last segment.
pub open spec fn result_payloads(p: PathM) -> Option<(TypeM, TypeM)> {
    if p.segments.len() == 0 {
        None
    } else {
        let args = p.segments[p.segments.len() - 1].args;
        if args is AngleBracketed && args->AngleBracketed_0.len() == 2
            && args->AngleBracketed_0[0] is Type && args->AngleBracketed_0[1] is Type {
            Some((args->AngleBracketed_0[0]->Type_0, args->AngleBracketed_0[1]->Type_0))
        } else {
            None
        }
    }
}

/// Which standard container a type is, if any; an error where the name
/// matches and the arguments do not.
pub open spec fn prelude_of(t: TypeM, m: FullNameMap) -> Result<Option<PreludeM>, PreludeError> {
    match t {
        TypeM::Path(p) => {
            let name = find_name(m.names@, p.def_id);
            if name == Some(OPTION_PATH@) {
                match option_payload(p) {
                    Some(a) => Ok(Some(PreludeM::PreludeOption(a))),
                    None => Err(PreludeError::MalformedOption),
                }
            } else if name == Some(RESULT_PATH@) {
                match result_payloads(p) {
                    Some(ab) => Ok(Some(PreludeM::PreludeResult(ab.0, ab.1))),
                    None => Err(PreludeError::MalformedResult),
                }
            } else {
                Ok(None)
            }
        },
        _ => Ok(None),
    }
}

pub open spec fn prelude_result_model(r: Result<Option<PreludeType>, PreludeError>) -> Result<
    Option<PreludeM>,
    PreludeError,
> {
    match r {
        Ok(Some(p)) => Ok(Some(p@)),
        Ok(None) => Ok(None),
        Err(e) => Err(e),
    }
}

/// The type that the value of a container is made from: the payload of an
/// optional value, the success payload of a fallible one.
pub open spec fn final_type(p: PreludeM) -> TypeM {
    match p {
        PreludeM::PreludeOption(t) => t,
        PreludeM::PreludeResult(ok, _) => ok,
    }
}

/// Source of the routine that takes the value out of a fallible value.
pub const UNWRAP_RESULT_SOURCE: &'static str = "fn _unwrap_result<T, E>(_res: Result<T, E>) -> T {
    match _res {
        Ok(_t) => _t,
        Err(_) => {
            use std::process;
            process::exit(0);
        },
    }
}\n";

/// Source of the routine that takes the value out of an optional value.
pub const UNWRAP_OPTION_SOURCE: &'static str = "fn _unwrap_option<T>(_opt: Option<T>) -> T {
    match _opt {
        Some(_t) => _t,
        None => {
            use std::process;
            process::exit(0);
        }
    }
}\n";

pub(crate) fn string_eq(a: &String, b: &String) -> (r: bool)
    ensures
        r == (a@ == b@),
{
    *a == *b
}

impl PreludeType {
    /// Recognises the two standard containers by the display name of the path.
    pub fn from_type(type_: &Type, full_name_map: &FullNameMap) -> (r: Result<
        Option<PreludeType>,
        PreludeError,
    >)
        ensures
            prelude_result_model(r) == prelude_of(type_@, *full_name_map),
    {
        match type_ {
            Type::Path { path } => {
                let name = full_name_map.display_name(path.def_id);
                match name {
                    Some(name) => {
                        let option_path = OPTION_PATH.to_owned();
                        let result_path = RESULT_PATH.to_owned();
                        if string_eq(name, &option_path) {
                            match extract_option(path, type_) {
                                Ok(p) => Ok(Some(p)),
                                Err(e) => Err(e),
                            }
                        } else if string_eq(name, &result_path) {
                            match extract_result(path, type_) {
                                Ok(p) => Ok(Some(p)),
                                Err(e) => Err(e),
                            }
                        } else {
                            Ok(None)
                        }
                    },
                    None => Ok(None),
                }
            },
            _ => Ok(None),
        }
    }

    pub fn _get_final_type(&self) -> (r: Type)
        ensures
            r@ == final_type(self@),
    {
        match self {
            PreludeType::PreludeOption(type_) => clone_type(type_),
            PreludeType::PreludeResult { ok_type, .. } => clone_type(ok_type),
        }
    }

    /// The call that takes the value out of the container around `inner_call_type`.
    pub fn _unwrap_call_type(&self, inner_call_type: &CallType) -> (r: CallType)
        ensures
            r@ == match self@ {
                PreludeM::PreludeOption(_) => CallTypeM::UnwrapOption(Box::new(inner_call_type@)),
                PreludeM::PreludeResult(_, _) => CallTypeM::UnwrapResult(
                    Box::new(inner_call_type@),
                ),
            },
    {
        match self {
            PreludeType::PreludeOption(_) => CallType::UnwrapOption(
                Box::new(inner_call_type.duplicate()),
            ),
            PreludeType::PreludeResult { .. } => CallType::UnwrapResult(
                Box::new(inner_call_type.duplicate()),
            ),
        }
    }

    /// The call that puts the value produced by `inner_call_type` into the container.
    pub fn _to_call_type(&self, inner_call_type: &CallType) -> (r: CallType)
        ensures
            r@ == match self@ {
                PreludeM::PreludeOption(_) => CallTypeM::ToOption(Box::new(inner_call_type@)),
                PreludeM::PreludeResult(_, _) => CallTypeM::ToResult(Box::new(inner_call_type@)),
            },
    {
        match self {
            PreludeType::PreludeOption(_) => CallType::ToOption(
                Box::new(inner_call_type.duplicate()),
            ),
            PreludeType::PreludeResult { .. } => CallType::ToResult(
                Box::new(inner_call_type.duplicate()),
            ),
        }
    }
}

/// The payload of an optional-value path.
pub fn extract_option(path: &Path, type_: &Type) -> (r: Result<PreludeType, PreludeError>)
    ensures
        match option_payload(path@) {
            Some(a) => r is Ok && r->Ok_0@ == PreludeM::PreludeOption(a),
            None => r == Err::<PreludeType, PreludeError>(PreludeError::MalformedOption),
        },
{
    let ghost segs = path@.segments;
    proof {
        lemma_segments_model(path.segments@);
    }
    let mut i: usize = 0;
    while i < path.segments.len()
        invariant
            segs == path@.segments,
            segs.len() == path.segments@.len(),
            forall|j: int| 0 <= j < segs.len() ==> #[trigger] segs[j] == path.segments@[j]@,
            i <= segs.len(),
            single_type_arg_position(segs, 0) == single_type_arg_position(segs, i as int),
        decreases segs.len() - i,
    {
        let segment = &path.segments[i];
        if let GenericArgs::AngleBracketed(args) = &segment.args {
            proof {
                lemma_arg_list_model(args@);
            }
            if args.len() == 1 {
                if let GenericArg::Type(arg_type) = &args[0] {
                    return Ok(PreludeType::PreludeOption(clone_type(arg_type)));
                }
            }
        }
        i = i + 1;
    }
    Err(PreludeError::MalformedOption)
}

/// The success and error payloads of a fallible-value path.
pub fn extract_result(path: &Path, type_: &Type) -> (r: Result<PreludeType, PreludeError>)
    ensures
        match result_payloads(path@) {
            Some(ab) => r is Ok && r->Ok_0@ == PreludeM::PreludeResult(ab.0, ab.1),
            None => r == Err::<PreludeType, PreludeError>(PreludeError::MalformedResult),
        },
{
    proof {
        lemma_segments_model(path.segments@);
    }
    let n = path.segments.len();
    if n == 0 {
        return Err(PreludeError::MalformedResult);
    }
    let segment = &path.segments[n - 1];
    if let GenericArgs::AngleBracketed(args) = &segment.args {
        proof {
            lemma_arg_list_model(args@);
        }
        if args.len() == 2 {
            if let GenericArg::Type(ok_type) = &args[0] {
                if let GenericArg::Type(err_type) = &args[1] {
                    return Ok(
                        PreludeType::PreludeResult {
                            ok_type: clone_type(ok_type),
                            err_type: clone_type(err_type),
                        },
                    );
                }
            }
        }
    }
    Err(PreludeError::MalformedResult)
}

/// Whether the type is named as one of the two standard containers.
pub fn _prelude_type_need_special_dealing(type_: &Type, full_name_map: &FullNameMap) -> (r: bool)
    ensures
        r == (prelude_of(type_@, *full_name_map) != Ok::<Option<PreludeM>, PreludeError>(None)),
{
    match PreludeType::from_type(type_, full_name_map) {
        Ok(None) => false,
        _ => true,
    }
}

/// The helper routines that generated call sites may need.
#[derive(Clone, Copy, Debug, PartialEq, Eq, Structural)]
pub enum _PreludeHelper {
    _ResultHelper,
    _OptionHelper,
}

/// The helpers that a call-site expression uses.
pub open spec fn helpers_of(c: CallTypeM) -> Set<_PreludeHelper>
    decreases c,
{
    match c {
        CallTypeM::DirectCall | CallTypeM::NotCompatible | CallTypeM::AsConvert(_) => Set::empty(),
        CallTypeM::BorrowedRef(b) => helpers_of(*b),
        CallTypeM::MutBorrowedRef(b) => helpers_of(*b),
        CallTypeM::ConstRawPointer(b, _) => helpers_of(*b),
        CallTypeM::MutRawPointer(b, _) => helpers_of(*b),
        CallTypeM::Deref(b) => helpers_of(*b),
        CallTypeM::UnsafeDeref(b) => helpers_of(*b),
        CallTypeM::ToOption(b) => helpers_of(*b),
        CallTypeM::ToResult(b) => helpers_of(*b),
        CallTypeM::UnwrapOption(b) => helpers_of(*b).insert(_PreludeHelper::_OptionHelper),
        CallTypeM::UnwrapResult(b) => helpers_of(*b).insert(_PreludeHelper::_ResultHelper),
    }
}

fn insert_helper(v: &mut Vec<_PreludeHelper>, h: _PreludeHelper)
    requires
        old(v)@.no_duplicates(),
    ensures
        final(v)@.no_duplicates(),
        final(v)@.to_set() == old(v)@.to_set().insert(h),
{
    let mut i: usize = 0;
    while i < v.len()
        invariant
            i <= v@.len(),
            v@ == old(v)@,
            v@.no_duplicates(),
            forall|j: int| 0 <= j < i ==> v@[j] != h,
        decreases v.len() - i,
    {
        if v[i] == h {
            proof {
                assert(v@.to_set().insert(h) =~= v@.to_set());
            }
            return;
        }
        i = i + 1;
    }
    let ghost before = v@;
    v.push(h);
    proof {
        assert(v@.to_set() =~= before.to_set().insert(h)) by {
            assert forall|x| v@.to_set().contains(x) <==> before.to_set().insert(h).contains(x) by {
                if x == h {
                    assert(v@[before.len() as int] == h);
                } else if before.contains(x) {
                    let k = choose|k: int| 0 <= k < before.len() && before[k] == x;
                    assert(v@[k] == x);
                }
            }
        }
    }
}

impl _PreludeHelper {
    /// The helpers that a call-site expression uses, each once.
    pub fn _from_call_type(call_type: &CallType) -> (r: Vec<_PreludeHelper>)
        ensures
            r@.no_duplicates(),
            r@.to_set() == helpers_of(call_type@),
        decreases call_type,
    {
        match call_type {
            CallType::DirectCall | CallType::NotCompatible | CallType::AsConvert(_) => {
                let r: Vec<_PreludeHelper> = Vec::new();
                proof {
                    assert(r@.to_set() =~= Set::empty());
                }
                r
            },
            CallType::BorrowedRef(inner)
            | CallType::MutBorrowedRef(inner)
            | CallType::ConstRawPointer(inner, _)
            | CallType::MutRawPointer(inner, _)
            | CallType::Deref(inner)
            | CallType::ToOption(inner)
            | CallType::ToResult(inner)
            | CallType::UnsafeDeref(inner) => _PreludeHelper::_from_call_type(inner),
            CallType::UnwrapOption(inner) => {
                let mut inner_helpers = _PreludeHelper::_from_call_type(inner);
                insert_helper(&mut inner_helpers, _PreludeHelper::_OptionHelper);
                inner_helpers
            },
            CallType::UnwrapResult(inner) => {
                let mut inner_helpers = _PreludeHelper::_from_call_type(inner);
                insert_helper(&mut inner_helpers, _PreludeHelper::_ResultHelper);
                inner_helpers
            },
        }
    }

    /// Source text of the helper routine.
    pub fn _to_helper_function(&self) -> (r: &'static str)
        ensures
            r@ == match self {
                _PreludeHelper::_ResultHelper => UNWRAP_RESULT_SOURCE@,
                _PreludeHelper::_OptionHelper => UNWRAP_OPTION_SOURCE@,
            },
    {
        match self {
            _PreludeHelper::_ResultHelper => _unwrap_result_function(),
            _PreludeHelper::_OptionHelper => _unwrap_option_function(),
        }
    }
}

pub fn _unwrap_result_function() -> (r: &'static str)
    ensures
        r@ == UNWRAP_RESULT_SOURCE@,
{
    UNWRAP_RESULT_SOURCE
}

pub fn _unwrap_option_function() -> (r: &'static str)
    ensures
        r@ == UNWRAP_OPTION_SOURCE@,
{
    UNWRAP_OPTION_SOURCE
}

} // verus!
