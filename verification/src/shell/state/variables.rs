//! Shell variables.
use vstd::prelude::*;
use crate::shell::state::ShellState;
use crate::strmap::StringMap;

verus! {

/// The variables of a session.
pub fn variables_registry(state: &ShellState) -> (r: &StringMap)
    ensures
        r@ == state.variables@,
{
    &state.variables
}

/// Sets `name` to `value`.
pub fn set_variable(vars: &mut StringMap, name: String, value: String)
    ensures
        final(vars)@ == old(vars)@.insert(name@, value@),
{
    vars.insert(name, value);
}

/// The value of `name`, if it is set.
pub fn get_variable(vars: &StringMap, name: &str) -> (r: Option<String>)
    ensures
        match r {
            Some(v) => vars@.contains_key(name@) && v@ == vars@[name@],
            None => !vars@.contains_key(name@),
        },
{
    vars.get(name)
}

/// A value set is read back unchanged, and setting one variable leaves the others alone.
pub proof fn lemma_set_then_get(vars: Map<Seq<char>, Seq<char>>, name: Seq<char>, value: Seq<char>, other: Seq<char>)
    requires
        other != name,
    ensures
        vars.insert(name, value).contains_key(name),
        vars.insert(name, value)[name] == value,
        vars.insert(name, value).contains_key(other) == vars.contains_key(other),
        vars.contains_key(other) ==> vars.insert(name, value)[other] == vars[other],
{
}

} // verus!
