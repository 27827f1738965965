//! The shell's built-in commands.  Each computes what it prints and what it asks of
//! the host (files, directories, processes) as a list of [`Effect`]s, which the
//! caller carries out in order.
use vstd::prelude::*;
use crate::parser::ast::{Redirect, RedirectModel};
use crate::shell::state::jobs::{job_models, list_report, mark_finished, not_done};
use crate::shell::state::ShellState;
use crate::strmap::StringMap;
use crate::order::{insert_unique, str_lt};
use crate::text::{has_prefix, owned, starts_with, str_eq, views};
use vstd::relations::sorted_by;

pub mod cd;
pub mod complete;
pub mod declare;
pub mod echo;
pub mod history;
pub mod jobs;
pub mod purge;
pub mod pwd;
pub mod redo;
pub mod transactions;
pub mod type_cmd;
pub mod undo;

verus! {

/// The outcome of running a command as a built-in.
#[derive(Clone, Copy, Debug, PartialEq, Eq, Structural)]
pub enum BuiltinStatus {
    Handled,
    NotHandled,
    Exit,
}

/// Something a built-in asks its caller to do.
pub enum Effect {
    /// Write the text to standard output, or to the redirect's file.
    Print(String, Redirect),
    /// Write the text to standard error.
    PrintError(String),
    /// Make the path the working directory; when that fails, write the message to
    /// standard output.
    ChangeDirectory(String, String),
    /// Add the lines of the history file at the path to the history.
    ReadHistory(String),
    /// Write the whole history to the file at the path.
    WriteHistory(String),
    /// Append the entries the file at the path has not received yet.
    AppendHistory(String),
    /// Restore the snapshots of these transactions, in this order.
    Undo(Vec<usize>),
    /// Run the command given by these tokens.
    Run(Vec<String>),
    /// Save the transaction registry.
    SaveTransactions,
    /// Delete the snapshots, reporting to standard output or the redirect's file.
    PurgeSnapshots(Redirect),
}

/// The model of an [`Effect`].
pub enum EffectModel {
    Print(Seq<char>, RedirectModel),
    PrintError(Seq<char>),
    ChangeDirectory(Seq<char>, Seq<char>),
    ReadHistory(Seq<char>),
    WriteHistory(Seq<char>),
    AppendHistory(Seq<char>),
    Undo(Seq<usize>),
    Run(Seq<Seq<char>>),
    SaveTransactions,
    PurgeSnapshots(RedirectModel),
}

impl View for Effect {
    type V = EffectModel;

    open spec fn view(&self) -> EffectModel {
        match self {
            Effect::Print(t, r) => EffectModel::Print(t@, r@),
            Effect::PrintError(t) => EffectModel::PrintError(t@),
            Effect::ChangeDirectory(p, m) => EffectModel::ChangeDirectory(p@, m@),
            Effect::ReadHistory(p) => EffectModel::ReadHistory(p@),
            Effect::WriteHistory(p) => EffectModel::WriteHistory(p@),
            Effect::AppendHistory(p) => EffectModel::AppendHistory(p@),
            Effect::Undo(v) => EffectModel::Undo(v@),
            Effect::Run(v) => EffectModel::Run(views(v@)),
            Effect::SaveTransactions => EffectModel::SaveTransactions,
            Effect::PurgeSnapshots(r) => EffectModel::PurgeSnapshots(r@),
        }
    }
}

/// The models of a list of effects.
pub open spec fn effect_models(v: Seq<Effect>) -> Seq<EffectModel> {
    v.map_values(|e: Effect| e@)
}

pub proof fn lemma_effects_push(v: Seq<Effect>, e: Effect)
    ensures
        effect_models(v.push(e)) == effect_models(v).push(e@),
{
    assert(effect_models(v.push(e)) =~= effect_models(v).push(e@));
}

/// The effects of printing each text to the same place, in order.
pub open spec fn prints(texts: Seq<Seq<char>>, to: RedirectModel) -> Seq<EffectModel> {
    texts.map_values(|t: Seq<char>| EffectModel::Print(t, to))
}

/// Effects that print each of the texts to `stdout`.
pub fn print_all(texts: Vec<String>, stdout: &Redirect) -> (r: Vec<Effect>)
    ensures
        effect_models(r@) == prints(views(texts@), stdout@),
{
    let mut r: Vec<Effect> = Vec::new();
    let mut i: usize = 0;
    while i < texts.len()
        invariant
            i <= texts@.len(),
            effect_models(r@) == prints(views(texts@).take(i as int), stdout@),
        decreases texts.len() - i,
    {
        let e = Effect::Print(texts[i].clone(), stdout.duplicate());
        proof {
            lemma_effects_push(r@, e);
        }
        r.push(e);
        i = i + 1;
        assert(effect_models(r@) =~= prints(views(texts@).take(i as int), stdout@));
    }
    assert(views(texts@).take(texts@.len() as int) =~= views(texts@));
    r
}

/// The names of the built-in commands.
pub open spec fn is_builtin_name(n: Seq<char>) -> bool {
    n == "exit"@ || n == "echo"@ || n == "type"@ || n == "pwd"@ || n == "cd"@ || n == "complete"@
        || n == "jobs"@ || n == "history"@ || n == "declare"@
}

/// Whether `cmd` names a built-in command.
pub fn is_builtin_command(cmd: &str) -> (b: bool)
    ensures
        b == is_builtin_name(cmd@),
{
    str_eq(cmd, "exit") || str_eq(cmd, "echo") || str_eq(cmd, "type") || str_eq(cmd, "pwd")
        || str_eq(cmd, "cd") || str_eq(cmd, "complete") || str_eq(cmd, "jobs") || str_eq(
        cmd,
        "history",
    ) || str_eq(cmd, "declare")
}

/// What the host knows of the world outside the shell when a built-in runs.
pub struct HostFacts {
    /// The working directory, when it can be read.
    pub cwd: Option<String>,
    /// The home directory (`HOME`, empty when unset).
    pub home: String,
    /// Where the search of `PATH` found a program named by the first argument.
    pub executable: Option<String>,
    /// For each background job, whether its process has finished.
    pub finished_jobs: Vec<bool>,
}

/// The outcome of `command` as a built-in: `exit` asks the shell to stop, the other
/// built-in names are handled, anything else is left to the caller.
pub open spec fn builtin_status(command: Seq<char>) -> BuiltinStatus {
    if command == "exit"@ {
        BuiltinStatus::Exit
    } else if is_builtin_name(command) {
        BuiltinStatus::Handled
    } else {
        BuiltinStatus::NotHandled
    }
}

/// The session state apart from the completion registry and the variables is the same.
pub open spec fn same_history_jobs_transactions(a: ShellState, b: ShellState) -> bool {
    &&& a.history == b.history
    &&& a.jobs == b.jobs
    &&& a.transactions == b.transactions
}

/// The built-in names are pairwise different.
proof fn lemma_builtin_names_differ()
    ensures
        "exit"@ != "echo"@,
        "exit"@ != "type"@,
        "exit"@ != "jobs"@,
        "echo"@ != "type"@,
        "echo"@ != "jobs"@,
        "type"@ != "jobs"@,
        "history"@ != "declare"@,
        "exit"@.len() == 4 && "echo"@.len() == 4 && "type"@.len() == 4 && "jobs"@.len() == 4,
        "pwd"@.len() == 3 && "cd"@.len() == 2 && "complete"@.len() == 8,
        "history"@.len() == 7 && "declare"@.len() == 7,
{
    reveal_strlit("exit");
    reveal_strlit("echo");
    reveal_strlit("type");
    reveal_strlit("jobs");
    reveal_strlit("pwd");
    reveal_strlit("cd");
    reveal_strlit("complete");
    reveal_strlit("history");
    reveal_strlit("declare");
    assert("exit"@[1] != "echo"@[1]);
    assert("exit"@[0] != "type"@[0] && "exit"@[0] != "jobs"@[0]);
    assert("echo"@[0] != "type"@[0] && "echo"@[0] != "jobs"@[0]);
    assert("type"@[0] != "jobs"@[0]);
    assert("history"@[0] != "declare"@[0]);
}

/// Runs `command ARGS` if it is a built-in, and says which effects the caller is to
/// carry out.  Each built-in does what its own module states; a name that is no
/// built-in changes nothing.
pub fn execute(
    state: &mut ShellState,
    command: &str,
    args: &[String],
    stdout: &Redirect,
    host: &HostFacts,
) -> (r: (BuiltinStatus, Vec<Effect>))
    requires
        command@ == "jobs"@ ==> host.finished_jobs@.len() == old(state).jobs@.len(),
    ensures
        r.0 == builtin_status(command@),
        command@ != "complete"@ && command@ != "declare"@ && command@ != "jobs"@ ==> *final(state)
            == *old(state),
        !is_builtin_name(command@) || command@ == "exit"@ ==> r.1@.len() == 0,
        command@ == "echo"@ ==> effect_models(r.1@) == seq![
            EffectModel::Print(echo::echo_text(views(args@)), stdout@),
        ],
        command@ == "pwd"@ ==> effect_models(r.1@) == match host.cwd {
            Some(d) => seq![EffectModel::Print(d@.push('\n'), stdout@)],
            None => Seq::<EffectModel>::empty(),
        },
        command@ == "cd"@ ==> ({
            let target = cd::cd_target(views(args@));
            effect_models(r.1@) == seq![
                EffectModel::ChangeDirectory(
                    if target == "~"@ { host.home@ } else { target },
                    "cd: "@ + target + ": No such file or directory\n"@,
                ),
            ]
        }),
        command@ == "type"@ ==> effect_models(r.1@) == (if args@.len() == 0 {
            Seq::<EffectModel>::empty()
        } else {
            seq![
                EffectModel::Print(
                    type_cmd::type_text(
                        args@[0]@,
                        match host.executable { Some(p) => Some(p@), None => None },
                    ),
                    stdout@,
                ),
            ]
        }),
        command@ == "complete"@ ==> {
            &&& (final(state).completions@, effect_models(r.1@)) == complete::spec_complete(
                old(state).completions@,
                views(args@),
                stdout@,
            )
            &&& final(state).variables == old(state).variables
            &&& same_history_jobs_transactions(*final(state), *old(state))
        },
        command@ == "jobs"@ ==> {
            &&& effect_models(r.1@) == prints(
                list_report(
                    mark_finished(job_models(old(state).jobs@), host.finished_jobs@),
                    "  "@,
                    old(state).jobs@.len() as int,
                ),
                stdout@,
            )
            &&& job_models(final(state).jobs@) == not_done(
                mark_finished(job_models(old(state).jobs@), host.finished_jobs@),
            )
            &&& final(state).variables == old(state).variables
            &&& final(state).completions == old(state).completions
            &&& final(state).history == old(state).history
            &&& final(state).transactions == old(state).transactions
        },
        command@ == "history"@ ==> effect_models(r.1@) == history::spec_history(
            views(old(state).history.entries@),
            views(args@),
            stdout@,
        ),
        command@ == "declare"@ ==> {
            &&& (final(state).variables@, effect_models(r.1@)) == declare::spec_declare(
                old(state).variables@,
                views(args@),
            )
            &&& final(state).completions == old(state).completions
            &&& same_history_jobs_transactions(*final(state), *old(state))
        },
{
    proof {
        lemma_builtin_names_differ();
    }
    if str_eq(command, "exit") {
        (BuiltinStatus::Exit, Vec::new())
    } else if str_eq(command, "echo") {
        (BuiltinStatus::Handled, echo::execute(args, stdout))
    } else if str_eq(command, "pwd") {
        (BuiltinStatus::Handled, pwd::execute(host.cwd.clone(), stdout))
    } else if str_eq(command, "cd") {
        (BuiltinStatus::Handled, cd::execute(args, host.home.as_str()))
    } else if str_eq(command, "type") {
        (BuiltinStatus::Handled, type_cmd::execute(args, stdout, host.executable.clone()))
    } else if str_eq(command, "complete") {
        (BuiltinStatus::Handled, complete::execute(&mut state.completions, args, stdout))
    } else if str_eq(command, "jobs") {
        (BuiltinStatus::Handled, jobs::execute(&mut state.jobs, host.finished_jobs.as_slice(), stdout))
    } else if str_eq(command, "history") {
        (BuiltinStatus::Handled, history::execute(&state.history, args, stdout))
    } else if str_eq(command, "declare") {
        (BuiltinStatus::Handled, declare::execute(&mut state.variables, args, stdout))
    } else {
        (BuiltinStatus::NotHandled, Vec::new())
    }
}

/// The completion specifications registered with `complete -C`.
pub fn completion_registry(state: &ShellState) -> (r: &StringMap)
    ensures
        r@ == state.completions@,
{
    &state.completions
}

/// The completion script registered for `cmd`, if any.
pub fn get_completer(state: &ShellState, cmd: &str) -> (r: Option<String>)
    ensures
        r matches Some(s) ==> state.completions@.contains_key(cmd@) && s@ == state.completions@[cmd@],
        r is None ==> !state.completions@.contains_key(cmd@),
{
    state.completions.get(cmd)
}

/// The names of the built-in commands.
pub open spec fn builtin_names() -> Seq<Seq<char>> {
    seq![
        "exit"@,
        "echo"@,
        "type"@,
        "pwd"@,
        "cd"@,
        "complete"@,
        "jobs"@,
        "history"@,
        "declare"@,
    ]
}

/// The command names that complete `prefix`: the built-ins and the programs found on
/// `PATH` that begin with it.
pub open spec fn command_completions(prefix: Seq<char>, programs: Seq<Seq<char>>) -> Set<Seq<char>> {
    Set::new(
        |n: Seq<char>|
            has_prefix(n, prefix) && (builtin_names().contains(n) || programs.contains(n)),
    )
}

/// The command names that complete `prefix`, each once, in increasing order;
/// `programs` are the names of the executable files in the directories of `PATH`.
pub fn autocomplete(prefix: &str, programs: &[String]) -> (r: Vec<String>)
    ensures
        sorted_by(views(r@), |a: Seq<char>, b: Seq<char>| str_lt(a, b)),
        views(r@).to_set() == command_completions(prefix@, views(programs@)),
{
    let names: Vec<&str> = vec!["exit", "echo", "type", "pwd", "cd", "complete", "jobs", "history", "declare"];
    let ghost bn = names@.map_values(|t: &str| t@);
    assert(bn =~= builtin_names());
    let ghost pv = views(programs@);
    let mut r: Vec<String> = Vec::new();
    assert(views(r@).to_set() =~= Set::<Seq<char>>::empty());
    let mut i: usize = 0;
    while i < names.len()
        invariant
            i <= names@.len(),
            bn == names@.map_values(|t: &str| t@),
            bn == builtin_names(),
            sorted_by(views(r@), |a: Seq<char>, b: Seq<char>| str_lt(a, b)),
            views(r@).to_set() == Set::new(
                |n: Seq<char>| has_prefix(n, prefix@) && bn.take(i as int).contains(n),
            ),
        decreases names.len() - i,
    {
        let ghost old_set = views(r@).to_set();
        let name = names[i];
        assert(bn[i as int] == name@);
        if starts_with(name, prefix) {
            insert_unique(&mut r, owned(name));
        }
        proof {
            assert(bn.take(i + 1) =~= bn.take(i as int).push(name@));
            assert forall|n: Seq<char>| views(r@).to_set().contains(n) <==> (has_prefix(n, prefix@)
                && bn.take(i + 1).contains(n)) by {
                if bn.take(i + 1).contains(n) && n != name@ {
                    let k = choose|k: int| 0 <= k < i + 1 && #[trigger] bn.take(i + 1)[k] == n;
                    assert(bn.take(i as int)[k] == n);
                }
                if bn.take(i as int).contains(n) {
                    let k = choose|k: int| 0 <= k < i && #[trigger] bn.take(i as int)[k] == n;
                    assert(bn.take(i + 1)[k] == n);
                }
                if n == name@ {
                    assert(bn.take(i + 1)[i as int] == n);
                }
            }
            assert(views(r@).to_set() =~= Set::new(
                |n: Seq<char>| has_prefix(n, prefix@) && bn.take(i + 1).contains(n),
            ));
        }
        i = i + 1;
    }
    assert(bn.take(names@.len() as int) =~= bn);
    let mut j: usize = 0;
    while j < programs.len()
        invariant
            j <= programs@.len(),
            pv == views(programs@),
            sorted_by(views(r@), |a: Seq<char>, b: Seq<char>| str_lt(a, b)),
            views(r@).to_set() == Set::new(
                |n: Seq<char>|
                    has_prefix(n, prefix@) && (builtin_names().contains(n) || pv.take(j as int).contains(n)),
            ),
        decreases programs.len() - j,
    {
        let p = programs[j].clone();
        assert(pv[j as int] == p@);
        let ghost pn = p@;
        if starts_with(p.as_str(), prefix) {
            insert_unique(&mut r, p);
        }
        proof {
            assert(pv.take(j + 1) =~= pv.take(j as int).push(pn));
            assert forall|n: Seq<char>| views(r@).to_set().contains(n) <==> (has_prefix(n, prefix@) && (
            builtin_names().contains(n) || pv.take(j + 1).contains(n))) by {
                if pv.take(j + 1).contains(n) && n != pn {
                    let k = choose|k: int| 0 <= k < j + 1 && #[trigger] pv.take(j + 1)[k] == n;
                    assert(pv.take(j as int)[k] == n);
                }
                if pv.take(j as int).contains(n) {
                    let k = choose|k: int| 0 <= k < j && #[trigger] pv.take(j as int)[k] == n;
                    assert(pv.take(j + 1)[k] == n);
                }
                if n == pn {
                    assert(pv.take(j + 1)[j as int] == n);
                }
            }
            assert(views(r@).to_set() =~= Set::new(
                |n: Seq<char>|
                    has_prefix(n, prefix@) && (builtin_names().contains(n) || pv.take(j + 1).contains(n)),
            ));
        }
        j = j + 1;
    }
    assert(pv.take(programs@.len() as int) =~= pv);
    assert(views(r@).to_set() =~= command_completions(prefix@, views(programs@)));
    r
}

} // verus!
