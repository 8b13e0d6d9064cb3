//! What the documentation index tells about named items: struct layouts and
//! display names.
use vstd::prelude::*;
use crate::types::{CtorKind, DefId, Type};

verus! {

/// The declared kind of a struct member.
#[derive(Debug)]
pub enum FieldKind {
    StructField(Type),
    /// A member hidden from the documentation; wraps the real kind one level deep.
    Stripped(Box<FieldKind>),
    Other,
}

#[derive(Debug)]
pub struct FieldDef {
    pub name: String,
    pub kind: FieldKind,
}

#[derive(Debug)]
pub struct StructDef {
    pub def_id: DefId,
    /// Display name of the struct.
    pub name: String,
    /// `None` where the struct has no direct constructor.
    pub ctor_kind: Option<CtorKind>,
    pub fields: Vec<FieldDef>,
}

/// The structs of the analysed crate and the display names of all items it names.
#[derive(Debug)]
pub struct FullNameMap {
    pub structs: Vec<StructDef>,
    pub names: Vec<(DefId, String)>,
}

/// The first struct registered under `id`.
pub open spec fn find_struct(s: Seq<StructDef>, id: DefId) -> Option<StructDef>
    decreases s.len(),
{
    if s.len() == 0 {
        None
    } else if s[0].def_id == id {
        Some(s[0])
    } else {
        find_struct(s.subrange(1, s.len() as int), id)
    }
}

/// The first display name registered under `id`.
pub open spec fn find_name(s: Seq<(DefId, String)>, id: DefId) -> Option<Seq<char>>
    decreases s.len(),
{
    if s.len() == 0 {
        None
    } else if s[0].0 == id {
        Some(s[0].1@)
    } else {
        find_name(s.subrange(1, s.len() as int), id)
    }
}

/// The type of a struct member, looking through one level of hiding.
pub open spec fn field_type(k: FieldKind) -> Option<Type> {
    match k {
        FieldKind::StructField(t) => Some(t),
        FieldKind::Stripped(inner) => match *inner {
            FieldKind::StructField(t) => Some(t),
            _ => None,
        },
        FieldKind::Other => None,
    }
}

impl FieldKind {
    pub fn field_type(&self) -> (r: Option<&Type>)
        ensures
            match r {
                Some(t) => field_type(*self) == Some(*t),
                None => field_type(*self) is None,
            },
    {
        match self {
            FieldKind::StructField(t) => Some(t),
            FieldKind::Stripped(inner) => match &**inner {
                FieldKind::StructField(t) => Some(t),
                _ => None,
            },
            FieldKind::Other => None,
        }
    }
}

impl FullNameMap {
    pub fn new() -> (r: FullNameMap)
        ensures
            r.structs@.len() == 0,
            r.names@.len() == 0,
    {
        FullNameMap { structs: Vec::new(), names: Vec::new() }
    }

    /// Position of the first struct registered under `id`.
    pub fn struct_position(&self, id: DefId) -> (r: Option<usize>)
        ensures
            match r {
                Some(i) => i < self.structs@.len() && find_struct(self.structs@, id) == Some(
                    self.structs@[i as int],
                ),
                None => find_struct(self.structs@, id) is None,
            },
    {
        let ghost s = self.structs@;
        let mut i: usize = 0;
        assert(s.subrange(0, s.len() as int) =~= s);
        while i < self.structs.len()
            invariant
                s == self.structs@,
                i <= s.len(),
                find_struct(s, id) == find_struct(s.subrange(i as int, s.len() as int), id),
            decreases s.len() - i,
        {
            proof {
                let rest = s.subrange(i as int, s.len() as int);
                assert(rest.subrange(1, rest.len() as int) =~= s.subrange(i + 1, s.len() as int));
                assert(rest[0] == s[i as int]);
            }
            if self.structs[i].def_id == id {
                return Some(i);
            }
            i = i + 1;
        }
        None
    }

    /// The display name of the item `id`.
    pub fn display_name(&self, id: DefId) -> (r: Option<&String>)
        ensures
            match r {
                Some(n) => find_name(self.names@, id) == Some(n@),
                None => find_name(self.names@, id) is None,
            },
    {
        let ghost s = self.names@;
        let mut i: usize = 0;
        assert(s.subrange(0, s.len() as int) =~= s);
        while i < self.names.len()
            invariant
                s == self.names@,
                i <= s.len(),
                find_name(s, id) == find_name(s.subrange(i as int, s.len() as int), id),
            decreases s.len() - i,
        {
            proof {
                let rest = s.subrange(i as int, s.len() as int);
                assert(rest.subrange(1, rest.len() as int) =~= s.subrange(i + 1, s.len() as int));
                assert(rest[0] == s[i as int]);
            }
            if self.names[i].0 == id {
                return Some(&self.names[i].1);
            }
            i = i + 1;
        }
        None
    }
}

} // verus!
