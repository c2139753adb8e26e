//! Checks that the `id` attributes of `view!` templates take their values from
//! a generated `Ids` registry: a scanner that finds the value bound to each
//! `id` attribute in a macro call's unexpanded tokens, two rules that report
//! string literals and other non-registry values, and the validation and
//! naming behind the registry's generated enum.

use vstd::prelude::*;

pub mod helpers;
pub mod lints;
pub mod pascal_case;
pub mod registry;
pub mod tokens;

verus! {

} // verus!
