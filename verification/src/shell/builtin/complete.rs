//! `complete` over string-slice arguments.
use vstd::prelude::*;
use crate::parser::ast::Redirect;
use crate::shell::builtin::{str_views, to_strings};
use crate::shell::builtins::complete::spec_complete;
use crate::shell::builtins::{effect_models, Effect};
use crate::strmap::StringMap;

verus! {

/// Registers (`-C SCRIPT CMD`), shows (`-p CMD`) or removes (`-r CMD`) a completion
/// specification, as [`spec_complete`] states.
pub fn execute(registry: &mut StringMap, args: &[&str], stdout: &Redirect) -> (r: Vec<Effect>)
    ensures
        (final(registry)@, effect_models(r@)) == spec_complete(old(registry)@, str_views(args@), stdout@),
{
    let owned_args = to_strings(args);
    crate::shell::builtins::complete::execute(registry, owned_args.as_slice(), stdout)
}

} // verus!
