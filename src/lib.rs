//! Decides, for the parameter types of a public API, whether a value can be
//! built from raw bytes and how it is adapted to the call site, and checks
//! candidate substitutions for generic parameters against their bounds.
//!
//! - `types`: the type grammar and its model.
//! - `index`: struct layouts and display names of the documentation index.
//! - `classify`: declared type to call-type tree.
//! - `prelude_type`: the optional-value and fallible-value containers.
//! - `fuzzable_type`, `call_type`: the call-type tree and its projection onto
//!   the value shape and the call-site expression.
//! - `layout`: measures of a value shape for the byte layout of inputs.
//! - `substitute`, `generic_param_map`: generic bounds and the solution check.
//! - `theorems`: facts that hold for every input.
use vstd::prelude::*;

pub mod types;
pub mod call_type;
pub mod fuzzable_type;
pub mod layout;
pub mod index;
pub mod prelude_type;
pub mod classify;
pub mod substitute;
pub mod generic_param_map;
pub mod theorems;

verus! {

} // verus!
