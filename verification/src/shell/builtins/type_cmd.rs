//! `type`: tell how a command name would be run.
use vstd::prelude::*;
use crate::parser::ast::Redirect;
use crate::shell::builtins::{effect_models, is_builtin_command, is_builtin_name, Effect, EffectModel};
use crate::text::{owned, push_str, views};

verus! {

/// What `type NAME` prints: that it is a built-in, the path of the executable that
/// the search of `PATH` found for it, or that it was not found.
pub open spec fn type_text(name: Seq<char>, executable: Option<Seq<char>>) -> Seq<char> {
    if is_builtin_name(name) {
        name + " is a shell builtin\n"@
    } else {
        match executable {
            Some(p) => name + " is "@ + p + "\n"@,
            None => name + ": not found\n"@,
        }
    }
}

/// What `type NAME` prints (see [`type_text`]), `executable` being where the search of
/// `PATH` found a program named `name`.
pub fn describe(name: &str, executable: &Option<String>) -> (r: String)
    ensures
        r@ == type_text(name@, match executable { Some(p) => Some(p@), None => None }),
{
    let mut text = owned(name);
    if is_builtin_command(name) {
        push_str(&mut text, " is a shell builtin\n");
    } else {
        match executable {
            Some(p) => {
                push_str(&mut text, " is ");
                push_str(&mut text, p.as_str());
                push_str(&mut text, "\n");
            },
            None => {
                push_str(&mut text, ": not found\n");
            },
        }
    }
    text
}

/// Describes the first argument; `executable` is where the search of `PATH` found a
/// program of that name, if it did.
pub fn execute(args: &[String], stdout: &Redirect, executable: Option<String>) -> (r: Vec<Effect>)
    ensures
        args@.len() == 0 ==> effect_models(r@) == Seq::<EffectModel>::empty(),
        args@.len() > 0 ==> effect_models(r@) == seq![
            EffectModel::Print(
                type_text(args@[0]@, match executable { Some(p) => Some(p@), None => None }),
                stdout@,
            ),
        ],
{
    if args.len() == 0 {
        let r: Vec<Effect> = Vec::new();
        assert(effect_models(r@) =~= Seq::<EffectModel>::empty());
        return r;
    }
    let text = describe(args[0].as_str(), &executable);
    let r = vec![Effect::Print(text, stdout.duplicate())];
    assert(effect_models(r@) =~= seq![
        EffectModel::Print(
            type_text(args@[0]@, match executable { Some(p) => Some(p@), None => None }),
            stdout@,
        ),
    ]);
    r
}

} // verus!
