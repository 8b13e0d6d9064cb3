//! Read-only measures of a finished value shape, for the byte layout of inputs.
use vstd::prelude::*;
use vstd::string::StringExecFns;
use crate::fuzzable_type::{FuzzableType, FtM, lemma_fts_model, lemma_field_fts_model};
use crate::types::PrimitiveType;

verus! {

/// Bytes that one primitive takes; zero for those that are not read from bytes.
pub open spec fn primitive_width(p: PrimitiveType) -> nat {
    match p {
        PrimitiveType::I8 | PrimitiveType::U8 | PrimitiveType::Bool => 1,
        PrimitiveType::I16 | PrimitiveType::U16 => 2,
        PrimitiveType::I32 | PrimitiveType::U32 | PrimitiveType::Char | PrimitiveType::F32 => 4,
        PrimitiveType::I64
        | PrimitiveType::U64
        | PrimitiveType::F64
        | PrimitiveType::Usize
        | PrimitiveType::Isize => 8,
        PrimitiveType::I128 | PrimitiveType::U128 => 16,
        _ => 0,
    }
}

/// The children of an aggregate shape; empty for every other shape.
pub open spec fn children(f: FtM) -> Seq<FtM> {
    match f {
        FtM::Tuple(s) => s,
        FtM::Struct(_, _, _, s) => s,
        _ => Seq::empty(),
    }
}

pub open spec fn is_fixed_length(f: FtM) -> bool
    decreases f,
{
    match f {
        FtM::NoFuzzable => true,
        FtM::Primitive(_) => true,
        FtM::RefSlice(_) => false,
        FtM::RefStr => false,
        FtM::Tuple(s) => all_fixed_length(s),
        FtM::Struct(_, _, _, s) => all_fixed_length(s),
    }
}

pub open spec fn all_fixed_length(s: Seq<FtM>) -> bool
    decreases s,
{
    if s.len() == 0 {
        true
    } else {
        all_fixed_length(s.subrange(0, s.len() - 1)) && is_fixed_length(s[s.len() - 1])
    }
}

pub open spec fn min_length(f: FtM) -> nat
    decreases f,
{
    match f {
        FtM::NoFuzzable => 0,
        FtM::Primitive(p) => primitive_width(p),
        FtM::RefSlice(c) => min_length(*c),
        FtM::RefStr => 0,
        FtM::Tuple(s) => sum_min_length(s),
        FtM::Struct(_, _, _, s) => sum_min_length(s),
    }
}

pub open spec fn sum_min_length(s: Seq<FtM>) -> nat
    decreases s,
{
    if s.len() == 0 {
        0
    } else {
        sum_min_length(s.subrange(0, s.len() - 1)) + min_length(s[s.len() - 1])
    }
}

pub open spec fn fixed_part_length(f: FtM) -> nat
    decreases f,
{
    if is_fixed_length(f) {
        min_length(f)
    } else {
        match f {
            FtM::Tuple(s) => sum_fixed_part_length(s),
            FtM::Struct(_, _, _, s) => sum_fixed_part_length(s),
            _ => 0,
        }
    }
}

pub open spec fn sum_fixed_part_length(s: Seq<FtM>) -> nat
    decreases s,
{
    if s.len() == 0 {
        0
    } else {
        sum_fixed_part_length(s.subrange(0, s.len() - 1)) + fixed_part_length(s[s.len() - 1])
    }
}

pub open spec fn dynamic_length_count(f: FtM) -> nat
    decreases f,
{
    if is_fixed_length(f) {
        0
    } else {
        match f {
            FtM::RefStr => 1,
            FtM::RefSlice(_) => 1,
            FtM::Tuple(s) => sum_dynamic_length_count(s),
            FtM::Struct(_, _, _, s) => sum_dynamic_length_count(s),
            _ => 0,
        }
    }
}

pub open spec fn sum_dynamic_length_count(s: Seq<FtM>) -> nat
    decreases s,
{
    if s.len() == 0 {
        0
    } else {
        sum_dynamic_length_count(s.subrange(0, s.len() - 1)) + dynamic_length_count(
            s[s.len() - 1],
        )
    }
}

pub open spec fn is_multiple_dynamic_length(f: FtM) -> bool
    decreases f,
{
    match f {
        FtM::RefSlice(c) => !is_fixed_length(*c),
        FtM::Tuple(s) => any_multiple_dynamic_length(s),
        FtM::Struct(_, _, _, s) => any_multiple_dynamic_length(s),
        _ => false,
    }
}

pub open spec fn any_multiple_dynamic_length(s: Seq<FtM>) -> bool
    decreases s,
{
    if s.len() == 0 {
        false
    } else {
        any_multiple_dynamic_length(s.subrange(0, s.len() - 1)) || is_multiple_dynamic_length(
            s[s.len() - 1],
        )
    }
}

pub open spec fn primitive_name(p: PrimitiveType) -> Seq<char> {
    match p {
        PrimitiveType::Isize => "isize"@,
        PrimitiveType::I8 => "i8"@,
        PrimitiveType::I16 => "i16"@,
        PrimitiveType::I32 => "i32"@,
        PrimitiveType::I64 => "i64"@,
        PrimitiveType::I128 => "i128"@,
        PrimitiveType::Usize => "usize"@,
        PrimitiveType::U8 => "u8"@,
        PrimitiveType::U16 => "u16"@,
        PrimitiveType::U32 => "u32"@,
        PrimitiveType::U64 => "u64"@,
        PrimitiveType::U128 => "u128"@,
        PrimitiveType::F32 => "f32"@,
        PrimitiveType::F64 => "f64"@,
        PrimitiveType::Char => "char"@,
        PrimitiveType::Bool => "bool"@,
        PrimitiveType::Str => "str"@,
        PrimitiveType::Unit => "()"@,
        PrimitiveType::Never => "!"@,
    }
}

/// The name of a primitive type as written in source.
pub fn primitive_as_sym(p: PrimitiveType) -> (r: &'static str)
    ensures
        r@ == primitive_name(p),
{
    match p {
        PrimitiveType::Isize => "isize",
        PrimitiveType::I8 => "i8",
        PrimitiveType::I16 => "i16",
        PrimitiveType::I32 => "i32",
        PrimitiveType::I64 => "i64",
        PrimitiveType::I128 => "i128",
        PrimitiveType::Usize => "usize",
        PrimitiveType::U8 => "u8",
        PrimitiveType::U16 => "u16",
        PrimitiveType::U32 => "u32",
        PrimitiveType::U64 => "u64",
        PrimitiveType::U128 => "u128",
        PrimitiveType::F32 => "f32",
        PrimitiveType::F64 => "f64",
        PrimitiveType::Char => "char",
        PrimitiveType::Bool => "bool",
        PrimitiveType::Str => "str",
        PrimitiveType::Unit => "()",
        PrimitiveType::Never => "!",
    }
}

/// Structural rendering: `(a ,b)` for tuples, `&[a]` for slices, bare names otherwise.
pub open spec fn type_string(f: FtM) -> Seq<char>
    decreases f,
{
    match f {
        FtM::NoFuzzable => "nofuzzable"@,
        FtM::Primitive(p) => primitive_name(p),
        FtM::RefSlice(c) => "&["@ + type_string(*c) + "]"@,
        FtM::RefStr => "&str"@,
        FtM::Tuple(s) => "("@ + tuple_body(s) + ")"@,
        FtM::Struct(name, _, _, _) => name,
    }
}

pub open spec fn tuple_body(s: Seq<FtM>) -> Seq<char>
    decreases s,
{
    if s.len() == 0 {
        Seq::empty()
    } else if s.len() == 1 {
        type_string(s[0])
    } else {
        tuple_body(s.subrange(0, s.len() - 1)) + " ,"@ + type_string(s[s.len() - 1])
    }
}

proof fn lemma_sum_min_length_prefix(s: Seq<FtM>, k: int)
    requires
        0 <= k <= s.len(),
    ensures
        sum_min_length(s.subrange(0, k)) <= sum_min_length(s),
    decreases s.len(),
{
    if k < s.len() {
        let pre = s.subrange(0, s.len() - 1);
        lemma_sum_min_length_prefix(pre, k);
        assert(pre.subrange(0, k) =~= s.subrange(0, k));
    } else {
        assert(s.subrange(0, k) =~= s);
    }
}

proof fn lemma_sum_fixed_part_prefix(s: Seq<FtM>, k: int)
    requires
        0 <= k <= s.len(),
    ensures
        sum_fixed_part_length(s.subrange(0, k)) <= sum_fixed_part_length(s),
    decreases s.len(),
{
    if k < s.len() {
        let pre = s.subrange(0, s.len() - 1);
        lemma_sum_fixed_part_prefix(pre, k);
        assert(pre.subrange(0, k) =~= s.subrange(0, k));
    } else {
        assert(s.subrange(0, k) =~= s);
    }
}

proof fn lemma_sum_dynamic_prefix(s: Seq<FtM>, k: int)
    requires
        0 <= k <= s.len(),
    ensures
        sum_dynamic_length_count(s.subrange(0, k)) <= sum_dynamic_length_count(s),
    decreases s.len(),
{
    if k < s.len() {
        let pre = s.subrange(0, s.len() - 1);
        lemma_sum_dynamic_prefix(pre, k);
        assert(pre.subrange(0, k) =~= s.subrange(0, k));
    } else {
        assert(s.subrange(0, k) =~= s);
    }
}

proof fn lemma_prefix_step(s: Seq<FtM>, i: int)
    requires
        0 <= i < s.len(),
    ensures
        s.subrange(0, i + 1).subrange(0, i) == s.subrange(0, i),
        s.subrange(0, i + 1)[i] == s[i],
        s.subrange(0, i + 1).len() == i + 1,
{
    assert(s.subrange(0, i + 1).subrange(0, i) =~= s.subrange(0, i));
}

impl FuzzableType {
    /// How many children an aggregate shape has; zero for every other shape.
    pub fn child_count(&self) -> (r: usize)
        ensures
            r == children(self@).len(),
    {
        match self {
            FuzzableType::Tuple(v) => {
                proof {
                    lemma_fts_model(v@);
                }
                v.len()
            },
            FuzzableType::Struct(_, _, v) => {
                proof {
                    lemma_field_fts_model(v@);
                }
                v.len()
            },
            _ => 0,
        }
    }

    /// The child at position `i` of an aggregate shape.
    pub fn child(&self, i: usize) -> (r: &FuzzableType)
        requires
            i < children(self@).len(),
        ensures
            r@ == children(self@)[i as int],
            decreases_to!(*self => *r),
    {
        match self {
            FuzzableType::Tuple(v) => {
                proof {
                    lemma_fts_model(v@);
                    assert(decreases_to!(*v => v[i as int]));
                }
                &v[i]
            },
            FuzzableType::Struct(_, _, v) => {
                proof {
                    lemma_field_fts_model(v@);
                    assert(decreases_to!(*v => v[i as int]));
                    assert(decreases_to!(v[i as int] => v[i as int].1));
                }
                &v[i].1
            },
            _ => {
                proof {
                    assert(false);
                }
                self
            },
        }
    }

    /// Whether every leaf has a constant width.
    pub fn _is_fixed_length(&self) -> (r: bool)
        ensures
            r == is_fixed_length(self@),
        decreases self,
    {
        match self {
            FuzzableType::NoFuzzable => true,
            FuzzableType::Primitive(_) => true,
            FuzzableType::RefSlice(_) => false,
            FuzzableType::RefStr => false,
            _ => {
                let n = self.child_count();
                let ghost s = children(self@);
                let mut i: usize = 0;
                while i < n
                    invariant
                        n == s.len(),
                        s == children(self@),
                        i <= n,
                        all_fixed_length(s.subrange(0, i as int)),
                    decreases n - i,
                {
                    let c = self.child(i);
                    proof {
                        lemma_prefix_step(s, i as int);
                    }
                    if !c._is_fixed_length() {
                        proof {
                            lemma_all_fixed_length(s);
                        }
                        return false;
                    }
                    i = i + 1;
                }
                proof {
                    assert(s.subrange(0, n as int) =~= s);
                }
                true
            },
        }
    }

    /// The fewest bytes from which a value of this shape can be built.
    pub fn _min_length(&self) -> (r: usize)
        requires
            min_length(self@) <= usize::MAX,
        ensures
            r == min_length(self@),
        decreases self,
    {
        match self {
            FuzzableType::NoFuzzable => 0,
            FuzzableType::Primitive(p) => primitive_min_length(*p),
            FuzzableType::RefSlice(inner) => inner._min_length(),
            FuzzableType::RefStr => 0,
            _ => {
                let n = self.child_count();
                let ghost s = children(self@);
                let mut total_length: usize = 0;
                let mut i: usize = 0;
                while i < n
                    invariant
                        n == s.len(),
                        s == children(self@),
                        i <= n,
                        sum_min_length(s) == min_length(self@),
                        min_length(self@) <= usize::MAX,
                        total_length == sum_min_length(s.subrange(0, i as int)),
                    decreases n - i,
                {
                    let c = self.child(i);
                    proof {
                        lemma_prefix_step(s, i as int);
                        lemma_sum_min_length_prefix(s, i + 1);
                    }
                    total_length = total_length + c._min_length();
                    i = i + 1;
                }
                proof {
                    assert(s.subrange(0, n as int) =~= s);
                }
                total_length
            },
        }
    }

    /// Bytes taken by the statically sized parts; a string or slice adds none.
    pub fn _fixed_part_length(&self) -> (r: usize)
        requires
            fixed_part_length(self@) <= usize::MAX,
        ensures
            r == fixed_part_length(self@),
        decreases self,
    {
        if self._is_fixed_length() {
            return self._min_length();
        }
        match self {
            FuzzableType::Tuple(_) | FuzzableType::Struct(_, _, _) => {
                let n = self.child_count();
                let ghost s = children(self@);
                let mut fixed_part: usize = 0;
                let mut i: usize = 0;
                while i < n
                    invariant
                        n == s.len(),
                        s == children(self@),
                        i <= n,
                        sum_fixed_part_length(s) == fixed_part_length(self@),
                        fixed_part_length(self@) <= usize::MAX,
                        fixed_part == sum_fixed_part_length(s.subrange(0, i as int)),
                    decreases n - i,
                {
                    let c = self.child(i);
                    proof {
                        lemma_prefix_step(s, i as int);
                        lemma_sum_fixed_part_prefix(s, i + 1);
                    }
                    fixed_part = fixed_part + c._fixed_part_length();
                    i = i + 1;
                }
                proof {
                    assert(s.subrange(0, n as int) =~= s);
                }
                fixed_part
            },
            _ => 0,
        }
    }

    /// How many strings and slices, each read with its own length, the shape holds.
    pub fn _dynamic_length_param_number(&self) -> (r: usize)
        requires
            dynamic_length_count(self@) <= usize::MAX,
        ensures
            r == dynamic_length_count(self@),
        decreases self,
    {
        if self._is_fixed_length() {
            return 0;
        }
        match self {
            FuzzableType::RefStr => 1,
            FuzzableType::RefSlice(_) => 1,
            FuzzableType::Tuple(_) | FuzzableType::Struct(_, _, _) => {
                let n = self.child_count();
                let ghost s = children(self@);
                let mut inner_numbers: usize = 0;
                let mut i: usize = 0;
                while i < n
                    invariant
                        n == s.len(),
                        s == children(self@),
                        i <= n,
                        sum_dynamic_length_count(s) == dynamic_length_count(self@),
                        dynamic_length_count(self@) <= usize::MAX,
                        inner_numbers == sum_dynamic_length_count(s.subrange(0, i as int)),
                    decreases n - i,
                {
                    let c = self.child(i);
                    proof {
                        lemma_prefix_step(s, i as int);
                        lemma_sum_dynamic_prefix(s, i + 1);
                    }
                    inner_numbers = inner_numbers + c._dynamic_length_param_number();
                    i = i + 1;
                }
                proof {
                    assert(s.subrange(0, n as int) =~= s);
                }
                inner_numbers
            },
            _ => 0,
        }
    }

    /// Whether decoding needs two or more nested levels of length prefixes,
    /// as for `&[&str]` or `&[&[u8]]`.
    pub fn _is_multiple_dynamic_length(&self) -> (r: bool)
        ensures
            r == is_multiple_dynamic_length(self@),
        decreases self,
    {
        match self {
            FuzzableType::RefSlice(inner) => !inner._is_fixed_length(),
            FuzzableType::Tuple(_) | FuzzableType::Struct(_, _, _) => {
                let n = self.child_count();
                let ghost s = children(self@);
                let mut i: usize = 0;
                while i < n
                    invariant
                        n == s.len(),
                        s == children(self@),
                        i <= n,
                        !any_multiple_dynamic_length(s.subrange(0, i as int)),
                    decreases n - i,
                {
                    let c = self.child(i);
                    proof {
                        lemma_prefix_step(s, i as int);
                    }
                    if c._is_multiple_dynamic_length() {
                        proof {
                            lemma_any_multiple(s, i as int);
                        }
                        return true;
                    }
                    i = i + 1;
                }
                proof {
                    assert(s.subrange(0, n as int) =~= s);
                }
                false
            },
            _ => false,
        }
    }

    /// The structural rendering of the shape, for diagnostics and keys.
    pub fn _to_type_string(&self) -> (r: String)
        ensures
            r@ == type_string(self@),
        decreases self,
    {
        match self {
            FuzzableType::NoFuzzable => "nofuzzable".to_owned(),
            FuzzableType::Primitive(p) => primitive_as_sym(*p).to_owned(),
            FuzzableType::RefSlice(inner) => {
                let inner_string = inner._to_type_string();
                let mut res = "&[".to_owned();
                res.append(inner_string.as_str());
                res.append("]");
                res
            },
            FuzzableType::RefStr => "&str".to_owned(),
            FuzzableType::Tuple(_) => {
                let n = self.child_count();
                let ghost s = children(self@);
                let mut res = "(".to_owned();
                if n == 0 {
                    res.append(")");
                    proof {
                        assert(res@ =~= "("@ + tuple_body(s) + ")"@);
                    }
                    return res;
                }
                let first = self.child(0)._to_type_string();
                res.append(first.as_str());
                proof {
                    assert(s.subrange(0, 1)[0] == s[0]);
                    assert(tuple_body(s.subrange(0, 1)) == type_string(s[0]));
                }
                let mut i: usize = 1;
                while i < n
                    invariant
                        n == s.len(),
                        s == children(self@),
                        1 <= i <= n,
                        res@ == "("@ + tuple_body(s.subrange(0, i as int)),
                    decreases n - i,
                {
                    let c = self.child(i);
                    proof {
                        lemma_prefix_step(s, i as int);
                    }
                    res.append(" ,");
                    let type_string = c._to_type_string();
                    res.append(type_string.as_str());
                    proof {
                        let pre = s.subrange(0, i as int);
                        assert(res@ =~= "("@ + (tuple_body(pre) + " ,"@ + type_string@));
                    }
                    i = i + 1;
                }
                proof {
                    assert(s.subrange(0, n as int) =~= s);
                }
                res.append(")");
                res
            },
            FuzzableType::Struct(name, _, _) => name.clone(),
        }
    }
}

/// Bytes that one primitive takes.
pub fn primitive_min_length(p: PrimitiveType) -> (r: usize)
    ensures
        r == primitive_width(p),
{
    match p {
        PrimitiveType::I8 | PrimitiveType::U8 | PrimitiveType::Bool => 1,
        PrimitiveType::I16 | PrimitiveType::U16 => 2,
        PrimitiveType::I32 | PrimitiveType::U32 | PrimitiveType::Char | PrimitiveType::F32 => 4,
        PrimitiveType::I64
        | PrimitiveType::U64
        | PrimitiveType::F64
        | PrimitiveType::Usize
        | PrimitiveType::Isize => 8,
        PrimitiveType::I128 | PrimitiveType::U128 => 16,
        _ => 0,
    }
}

proof fn lemma_all_fixed_length(s: Seq<FtM>)
    ensures
        all_fixed_length(s) <==> forall|i: int| 0 <= i < s.len() ==> is_fixed_length(#[trigger] s[i]),
    decreases s.len(),
{
    if s.len() > 0 {
        let pre = s.subrange(0, s.len() - 1);
        lemma_all_fixed_length(pre);
        assert forall|i: int| 0 <= i < pre.len() implies pre[i] == s[i] by {}
    }
}

proof fn lemma_any_multiple(s: Seq<FtM>, k: int)
    requires
        0 <= k < s.len(),
        is_multiple_dynamic_length(s[k]),
    ensures
        any_multiple_dynamic_length(s),
    decreases s.len(),
{
    if k < s.len() - 1 {
        let pre = s.subrange(0, s.len() - 1);
        assert(pre[k] == s[k]);
        lemma_any_multiple(pre, k);
    }
}

} // verus!
