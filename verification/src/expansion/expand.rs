//! Expansion of the arguments of a command (see [`crate::executor::expand`] for the
//! rules, which this module shares).
use vstd::prelude::*;
use crate::executor::expand::spec_expand_args;
use crate::strmap::StringMap;
use crate::text::views;

verus! {

/// Expands every argument with the session's variables and drops those that expand to
/// nothing.
pub fn expand_args(vars: &StringMap, args: &[String]) -> (r: Vec<String>)
    ensures
        views(r@) == spec_expand_args(vars@, views(args@)),
{
    crate::executor::expand::expand_args(vars, args)
}

} // verus!
