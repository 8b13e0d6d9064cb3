//! The expression that adapts a constructed value to the shape a call site needs.
use vstd::prelude::*;
use crate::types::{Type, TypeM, clone_type, type_model};

verus! {

#[derive(Debug)]
pub enum CallType {
    DirectCall,
    BorrowedRef(Box<CallType>),
    MutBorrowedRef(Box<CallType>),
    ConstRawPointer(Box<CallType>, Type),
    MutRawPointer(Box<CallType>, Type),
    AsConvert(String),
    UnsafeDeref(Box<CallType>),
    Deref(Box<CallType>),
    UnwrapResult(Box<CallType>),
    UnwrapOption(Box<CallType>),
    ToOption(Box<CallType>),
    ToResult(Box<CallType>),
    NotCompatible,
}

/// Mathematical model of a [`CallType`].
pub enum CallTypeM {
    DirectCall,
    BorrowedRef(Box<CallTypeM>),
    MutBorrowedRef(Box<CallTypeM>),
    ConstRawPointer(Box<CallTypeM>, TypeM),
    MutRawPointer(Box<CallTypeM>, TypeM),
    AsConvert(Seq<char>),
    UnsafeDeref(Box<CallTypeM>),
    Deref(Box<CallTypeM>),
    UnwrapResult(Box<CallTypeM>),
    UnwrapOption(Box<CallTypeM>),
    ToOption(Box<CallTypeM>),
    ToResult(Box<CallTypeM>),
    NotCompatible,
}

pub open spec fn call_type_model(c: CallType) -> CallTypeM
    decreases c,
{
    match c {
        CallType::DirectCall => CallTypeM::DirectCall,
        CallType::BorrowedRef(b) => CallTypeM::BorrowedRef(Box::new(call_type_model(*b))),
        CallType::MutBorrowedRef(b) => CallTypeM::MutBorrowedRef(Box::new(call_type_model(*b))),
        CallType::ConstRawPointer(b, t) => CallTypeM::ConstRawPointer(
            Box::new(call_type_model(*b)),
            type_model(t),
        ),
        CallType::MutRawPointer(b, t) => CallTypeM::MutRawPointer(
            Box::new(call_type_model(*b)),
            type_model(t),
        ),
        CallType::AsConvert(s) => CallTypeM::AsConvert(s@),
        CallType::UnsafeDeref(b) => CallTypeM::UnsafeDeref(Box::new(call_type_model(*b))),
        CallType::Deref(b) => CallTypeM::Deref(Box::new(call_type_model(*b))),
        CallType::UnwrapResult(b) => CallTypeM::UnwrapResult(Box::new(call_type_model(*b))),
        CallType::UnwrapOption(b) => CallTypeM::UnwrapOption(Box::new(call_type_model(*b))),
        CallType::ToOption(b) => CallTypeM::ToOption(Box::new(call_type_model(*b))),
        CallType::ToResult(b) => CallTypeM::ToResult(Box::new(call_type_model(*b))),
        CallType::NotCompatible => CallTypeM::NotCompatible,
    }
}

impl View for CallType {
    type V = CallTypeM;

    open spec fn view(&self) -> CallTypeM {
        call_type_model(*self)
    }
}

impl CallType {
    pub fn is_direct(&self) -> (r: bool)
        ensures
            r == (self@ is DirectCall),
    {
        match self {
            CallType::DirectCall => true,
            _ => false,
        }
    }

    pub fn is_compatible(&self) -> (r: bool)
        ensures
            r == !(self@ is NotCompatible),
    {
        match self {
            CallType::NotCompatible => false,
            _ => true,
        }
    }

    /// A copy with the same model.
    pub fn duplicate(&self) -> (r: CallType)
        ensures
            r@ == self@,
        decreases self,
    {
        match self {
            CallType::DirectCall => CallType::DirectCall,
            CallType::BorrowedRef(b) => CallType::BorrowedRef(Box::new(b.duplicate())),
            CallType::MutBorrowedRef(b) => CallType::MutBorrowedRef(Box::new(b.duplicate())),
            CallType::ConstRawPointer(b, t) => CallType::ConstRawPointer(
                Box::new(b.duplicate()),
                clone_type(t),
            ),
            CallType::MutRawPointer(b, t) => CallType::MutRawPointer(
                Box::new(b.duplicate()),
                clone_type(t),
            ),
            CallType::AsConvert(s) => CallType::AsConvert(s.clone()),
            CallType::UnsafeDeref(b) => CallType::UnsafeDeref(Box::new(b.duplicate())),
            CallType::Deref(b) => CallType::Deref(Box::new(b.duplicate())),
            CallType::UnwrapResult(b) => CallType::UnwrapResult(Box::new(b.duplicate())),
            CallType::UnwrapOption(b) => CallType::UnwrapOption(Box::new(b.duplicate())),
            CallType::ToOption(b) => CallType::ToOption(Box::new(b.duplicate())),
            CallType::ToResult(b) => CallType::ToResult(Box::new(b.duplicate())),
            CallType::NotCompatible => CallType::NotCompatible,
        }
    }
}

} // verus!
