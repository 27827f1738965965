//! `echo`: print the arguments.
use vstd::prelude::*;
use crate::parser::ast::{Redirect, RedirectModel};
use crate::shell::builtins::{effect_models, Effect, EffectModel};
use crate::text::{join, join_strings, push_char, views};

verus! {

/// What `echo` prints: its arguments separated by blanks, and a newline.
pub open spec fn echo_text(args: Seq<Seq<char>>) -> Seq<char> {
    join(args, " "@).push('\n')
}

/// Prints the arguments, separated by blanks, followed by a newline.
pub fn execute(args: &[String], stdout: &Redirect) -> (r: Vec<Effect>)
    ensures
        effect_models(r@) == seq![EffectModel::Print(echo_text(views(args@)), stdout@)],
{
    let mut text = join_strings(args, " ");
    push_char(&mut text, '\n');
    let r = vec![Effect::Print(text, stdout.duplicate())];
    assert(effect_models(r@) =~= seq![EffectModel::Print(echo_text(views(args@)), stdout@)]);
    r
}

} // verus!
