//! `pwd`: print the working directory.
use vstd::prelude::*;
use crate::parser::ast::Redirect;
use crate::shell::builtins::{effect_models, Effect, EffectModel};
use crate::text::push_char;

verus! {

/// Prints the working directory `cwd` and a newline; nothing when it could not be read.
pub fn execute(cwd: Option<String>, stdout: &Redirect) -> (r: Vec<Effect>)
    ensures
        effect_models(r@) == match cwd {
            Some(d) => seq![EffectModel::Print(d@.push('\n'), stdout@)],
            None => Seq::<EffectModel>::empty(),
        },
{
    match cwd {
        Some(d) => {
            let mut text = d;
            push_char(&mut text, '\n');
            let r = vec![Effect::Print(text, stdout.duplicate())];
            assert(effect_models(r@) =~= seq![EffectModel::Print(d@.push('\n'), stdout@)]);
            r
        },
        None => {
            let r: Vec<Effect> = Vec::new();
            assert(effect_models(r@) =~= Seq::<EffectModel>::empty());
            r
        },
    }
}

} // verus!
