//! The first set of built-in commands, which take their arguments as string slices:
//! `exit`, `echo`, `type`, `pwd`, `cd` and `complete`.  Their effects are those of
//! [`crate::shell::builtins`].
use vstd::prelude::*;
use crate::parser::ast::{Redirect, RedirectModel};
use crate::shell::builtins::{effect_models, Effect, EffectModel, HostFacts};
use crate::shell::builtins::echo::echo_text;
use crate::shell::state::ShellState;
use crate::strmap::StringMap;
use crate::text::{join, lemma_views_push, owned, push_char, push_str, str_eq, views};

pub mod complete;
pub mod jobs;

verus! {

/// The outcome of running a command as one of these built-ins.
#[derive(Clone, Copy, Debug, PartialEq, Eq, Structural)]
pub enum BuiltinStatus {
    Handled,
    NotHandled,
    Exit,
}

/// The views of a sequence of string slices.
pub open spec fn str_views(v: Seq<&str>) -> Seq<Seq<char>> {
    v.map_values(|t: &str| t@)
}

/// Owned copies of string slices.
pub fn to_strings(args: &[&str]) -> (r: Vec<String>)
    ensures
        views(r@) == str_views(args@),
{
    let mut r: Vec<String> = Vec::new();
    let mut i: usize = 0;
    while i < args.len()
        invariant
            i <= args@.len(),
            views(r@) == str_views(args@.take(i as int)),
        decreases args.len() - i,
    {
        let s = owned(args[i]);
        proof {
            lemma_views_push(r@, s);
        }
        r.push(s);
        assert(str_views(args@.take(i + 1)) =~= str_views(args@.take(i as int)).push(args@[i as int]@));
        i = i + 1;
    }
    assert(args@.take(args@.len() as int) =~= args@);
    r
}

/// The names of these built-ins.
pub open spec fn is_first_builtin_name(n: Seq<char>) -> bool {
    n == "exit"@ || n == "echo"@ || n == "type"@ || n == "pwd"@ || n == "cd"@ || n == "complete"@
}

/// Whether `name` is one of these built-ins.
pub fn is_first_builtin(name: &str) -> (b: bool)
    ensures
        b == is_first_builtin_name(name@),
{
    str_eq(name, "exit") || str_eq(name, "echo") || str_eq(name, "type") || str_eq(name, "pwd")
        || str_eq(name, "cd") || str_eq(name, "complete")
}

/// What `type NAME` prints here: that it is one of these built-ins, where the search of
/// `PATH` found it, or that it was not found.
pub open spec fn first_type_text(name: Seq<char>, executable: Option<Seq<char>>) -> Seq<char> {
    if is_first_builtin_name(name) {
        name + " is a shell builtin\n"@
    } else {
        match executable {
            Some(p) => name + " is "@ + p + "\n"@,
            None => name + ": not found\n"@,
        }
    }
}

/// The completion specifications registered with `complete -C`.
pub fn completion_registry(state: &ShellState) -> (r: &StringMap)
    ensures
        r@ == state.completions@,
{
    &state.completions
}

proof fn lemma_first_names_differ()
    ensures
        "exit"@ != "echo"@,
        "exit"@ != "type"@,
        "echo"@ != "type"@,
        "exit"@.len() == 4 && "echo"@.len() == 4 && "type"@.len() == 4,
        "pwd"@.len() == 3 && "cd"@.len() == 2 && "complete"@.len() == 8,
{
    reveal_strlit("exit");
    reveal_strlit("echo");
    reveal_strlit("type");
    reveal_strlit("pwd");
    reveal_strlit("cd");
    reveal_strlit("complete");
    assert("exit"@[1] != "echo"@[1]);
    assert("exit"@[0] != "type"@[0] && "echo"@[0] != "type"@[0]);
}

/// Runs `command ARGS` if it is one of these built-ins.  `echo` prints to `stdout`;
/// `type` and `pwd` print to standard output, `pwd` reporting on standard error when
/// the working directory cannot be read; `cd` and `complete` do what their counterparts
/// in [`crate::shell::builtins`] do.
pub fn execute(
    state: &mut ShellState,
    command: &str,
    args: &[&str],
    stdout: &Redirect,
    host: &HostFacts,
) -> (r: (BuiltinStatus, Vec<Effect>))
    ensures
        r.0 == (if command@ == "exit"@ {
            BuiltinStatus::Exit
        } else if is_first_builtin_name(command@) {
            BuiltinStatus::Handled
        } else {
            BuiltinStatus::NotHandled
        }),
        command@ != "complete"@ ==> *final(state) == *old(state),
        !is_first_builtin_name(command@) || command@ == "exit"@ ==> r.1@.len() == 0,
        command@ == "echo"@ ==> effect_models(r.1@) == seq![
            EffectModel::Print(echo_text(str_views(args@)), stdout@),
        ],
        command@ == "type"@ ==> effect_models(r.1@) == (if args@.len() == 0 {
            Seq::<EffectModel>::empty()
        } else {
            seq![
                EffectModel::Print(
                    first_type_text(
                        args@[0]@,
                        match host.executable { Some(p) => Some(p@), None => None },
                    ),
                    RedirectModel::Inherit,
                ),
            ]
        }),
        command@ == "pwd"@ ==> effect_models(r.1@) == match host.cwd {
            Some(d) => seq![EffectModel::Print(d@.push('\n'), RedirectModel::Inherit)],
            None => seq![EffectModel::PrintError("pwd: error retrieving current directory\n"@)],
        },
        command@ == "cd"@ ==> ({
            let target = crate::shell::builtins::cd::cd_target(str_views(args@));
            effect_models(r.1@) == seq![
                EffectModel::ChangeDirectory(
                    if target == "~"@ { host.home@ } else { target },
                    "cd: "@ + target + ": No such file or directory\n"@,
                ),
            ]
        }),
        command@ == "complete"@ ==> {
            &&& (final(state).completions@, effect_models(r.1@))
                == crate::shell::builtins::complete::spec_complete(
                old(state).completions@,
                str_views(args@),
                stdout@,
            )
            &&& final(state).variables == old(state).variables
            &&& final(state).history == old(state).history
            &&& final(state).jobs == old(state).jobs
            &&& final(state).transactions == old(state).transactions
        },
{
    proof {
        lemma_first_names_differ();
    }
    if str_eq(command, "exit") {
        (BuiltinStatus::Exit, Vec::new())
    } else if str_eq(command, "echo") {
        let owned_args = to_strings(args);
        (BuiltinStatus::Handled, crate::shell::builtins::echo::execute(owned_args.as_slice(), stdout))
    } else if str_eq(command, "type") {
        if args.len() == 0 {
            let r: Vec<Effect> = Vec::new();
            assert(effect_models(r@) =~= Seq::<EffectModel>::empty());
            return (BuiltinStatus::Handled, r);
        }
        let target = args[0];
        let mut text = owned(target);
        if is_first_builtin(target) {
            push_str(&mut text, " is a shell builtin\n");
        } else {
            match &host.executable {
                Some(p) => {
                    push_str(&mut text, " is ");
                    push_str(&mut text, p.as_str());
                    push_str(&mut text, "\n");
                },
                None => {
                    push_str(&mut text, ": not found\n");
                },
            }
        }
        let r = vec![Effect::Print(text, Redirect::Inherit)];
        assert(effect_models(r@) =~= seq![
            EffectModel::Print(
                first_type_text(
                    args@[0]@,
                    match host.executable { Some(p) => Some(p@), None => None },
                ),
                RedirectModel::Inherit,
            ),
        ]);
        (BuiltinStatus::Handled, r)
    } else if str_eq(command, "pwd") {
        let r = match &host.cwd {
            Some(d) => {
                let mut text = d.clone();
                push_char(&mut text, '\n');
                vec![Effect::Print(text, Redirect::Inherit)]
            },
            None => vec![Effect::PrintError(owned("pwd: error retrieving current directory\n"))],
        };
        assert(effect_models(r@) =~= match host.cwd {
            Some(d) => seq![EffectModel::Print(d@.push('\n'), RedirectModel::Inherit)],
            None => seq![EffectModel::PrintError("pwd: error retrieving current directory\n"@)],
        });
        (BuiltinStatus::Handled, r)
    } else if str_eq(command, "cd") {
        let owned_args = to_strings(args);
        (BuiltinStatus::Handled, crate::shell::builtins::cd::execute(owned_args.as_slice(), host.home.as_str()))
    } else if str_eq(command, "complete") {
        (BuiltinStatus::Handled, complete::execute(&mut state.completions, args, stdout))
    } else {
        (BuiltinStatus::NotHandled, Vec::new())
    }
}

} // verus!
