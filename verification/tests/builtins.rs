use chronos::parser::ast::Redirect;
use chronos::shell::builtin;
use chronos::shell::builtins::{autocomplete, execute, get_completer, BuiltinStatus, Effect, HostFacts};
use chronos::shell::state::history::add_history;
use chronos::shell::state::jobs::add_job;
use chronos::shell::state::variables::get_variable;
use chronos::shell::state::ShellState;

fn host() -> HostFacts {
    HostFacts {
        cwd: Some("/work".to_string()),
        home: "/home/me".to_string(),
        executable: None,
        finished_jobs: Vec::new(),
    }
}

fn s(items: &[&str]) -> Vec<String> {
    items.iter().map(|x| x.to_string()).collect()
}

/// The texts of the effects that print, standard error marked with `!`.
fn printed(effects: &[Effect]) -> Vec<String> {
    effects
        .iter()
        .map(|e| match e {
            Effect::Print(t, _) => t.clone(),
            Effect::PrintError(t) => format!("!{}", t),
            _ => panic!("not a print"),
        })
        .collect()
}

#[test]
fn dispatch_exit_stops_without_effects() {
    let mut state = ShellState::new(Vec::new());
    let (status, effects) = execute(&mut state, "exit", &[], &Redirect::Inherit, &host());
    assert_eq!(status, BuiltinStatus::Exit);
    assert!(effects.is_empty());
}

#[test]
fn dispatch_unknown_is_not_handled() {
    let mut state = ShellState::new(Vec::new());
    let (status, effects) = execute(&mut state, "ls", &s(&["-l"]), &Redirect::Inherit, &host());
    assert_eq!(status, BuiltinStatus::NotHandled);
    assert!(effects.is_empty());
}

#[test]
fn dispatch_echo_joins_arguments() {
    let mut state = ShellState::new(Vec::new());
    let out = Redirect::Overwrite("out.txt".to_string());
    let (status, effects) = execute(&mut state, "echo", &s(&["a", "b c"]), &out, &host());
    assert_eq!(status, BuiltinStatus::Handled);
    assert_eq!(effects.len(), 1);
    match &effects[0] {
        Effect::Print(t, Redirect::Overwrite(p)) => {
            assert_eq!(t, "a b c\n");
            assert_eq!(p, "out.txt");
        },
        _ => panic!("expected a print to the file"),
    }
}

#[test]
fn dispatch_pwd_prints_working_directory() {
    let mut state = ShellState::new(Vec::new());
    let (_, effects) = execute(&mut state, "pwd", &[], &Redirect::Inherit, &host());
    assert_eq!(printed(&effects), s(&["/work\n"]));
    let mut h = host();
    h.cwd = None;
    let (_, effects) = execute(&mut state, "pwd", &[], &Redirect::Inherit, &h);
    assert!(effects.is_empty());
}

#[test]
fn dispatch_cd_goes_home_by_default() {
    let mut state = ShellState::new(Vec::new());
    let (_, effects) = execute(&mut state, "cd", &[], &Redirect::Inherit, &host());
    match &effects[0] {
        Effect::ChangeDirectory(p, m) => {
            assert_eq!(p, "/home/me");
            assert_eq!(m, "cd: ~: No such file or directory\n");
        },
        _ => panic!("expected a change of directory"),
    }
    let (_, effects) = execute(&mut state, "cd", &s(&["/nowhere"]), &Redirect::Inherit, &host());
    match &effects[0] {
        Effect::ChangeDirectory(p, m) => {
            assert_eq!(p, "/nowhere");
            assert_eq!(m, "cd: /nowhere: No such file or directory\n");
        },
        _ => panic!("expected a change of directory"),
    }
}

#[test]
fn dispatch_type_describes_commands() {
    let mut state = ShellState::new(Vec::new());
    let (_, effects) = execute(&mut state, "type", &s(&["history"]), &Redirect::Inherit, &host());
    assert_eq!(printed(&effects), s(&["history is a shell builtin\n"]));
    let mut h = host();
    h.executable = Some("/bin/ls".to_string());
    let (_, effects) = execute(&mut state, "type", &s(&["ls"]), &Redirect::Inherit, &h);
    assert_eq!(printed(&effects), s(&["ls is /bin/ls\n"]));
    let (_, effects) = execute(&mut state, "type", &s(&["nope"]), &Redirect::Inherit, &host());
    assert_eq!(printed(&effects), s(&["nope: not found\n"]));
    let (_, effects) = execute(&mut state, "type", &[], &Redirect::Inherit, &host());
    assert!(effects.is_empty());
}

#[test]
fn complete_register_show_remove() {
    let mut state = ShellState::new(Vec::new());
    let h = host();
    execute(&mut state, "complete", &s(&["-C", "/opt/comp.sh", "git"]), &Redirect::Inherit, &h);
    assert_eq!(get_completer(&state, "git"), Some("/opt/comp.sh".to_string()));
    let (_, effects) = execute(&mut state, "complete", &s(&["-p", "git"]), &Redirect::Inherit, &h);
    assert_eq!(printed(&effects), s(&["complete -C '/opt/comp.sh' git\n"]));
    execute(&mut state, "complete", &s(&["-r", "git"]), &Redirect::Inherit, &h);
    assert_eq!(get_completer(&state, "git"), None);
    let (_, effects) = execute(&mut state, "complete", &s(&["-p", "git"]), &Redirect::Inherit, &h);
    assert_eq!(printed(&effects), s(&["complete: git: no completion specification\n"]));
}

#[test]
fn declare_sets_and_shows_variables() {
    let mut state = ShellState::new(Vec::new());
    let h = host();
    let (_, effects) = execute(&mut state, "declare", &s(&["NAME=value", "EMPTY"]), &Redirect::Inherit, &h);
    assert!(effects.is_empty());
    assert_eq!(get_variable(&state.variables, "NAME"), Some("value".to_string()));
    assert_eq!(get_variable(&state.variables, "EMPTY"), Some(String::new()));
    let (_, effects) = execute(&mut state, "declare", &s(&["-p", "NAME", "MISSING"]), &Redirect::Inherit, &h);
    assert_eq!(printed(&effects), s(&["declare -- NAME=\"value\"\n", "declare: MISSING: not found\n"]));
}

#[test]
fn declare_rejects_invalid_names() {
    let mut state = ShellState::new(Vec::new());
    let (_, effects) = execute(&mut state, "declare", &s(&["1X=2", "A=b=c"]), &Redirect::Inherit, &host());
    assert_eq!(printed(&effects), s(&["!declare: `1X=2': not a valid identifier\n"]));
    assert_eq!(get_variable(&state.variables, "A"), Some("b=c".to_string()));
    assert_eq!(get_variable(&state.variables, "1X"), None);
}

#[test]
fn history_lists_numbered_entries() {
    let mut state = ShellState::new(Vec::new());
    add_history(&mut state.history, "ls".to_string());
    add_history(&mut state.history, "pwd".to_string());
    add_history(&mut state.history, "echo hi".to_string());
    let (_, effects) = execute(&mut state, "history", &[], &Redirect::Inherit, &host());
    assert_eq!(printed(&effects), s(&["    1 ls\n", "    2 pwd\n", "    3 echo hi\n"]));
    let (_, effects) = execute(&mut state, "history", &s(&["2"]), &Redirect::Inherit, &host());
    assert_eq!(printed(&effects), s(&["    2 pwd\n", "    3 echo hi\n"]));
    let (_, effects) = execute(&mut state, "history", &s(&["+10"]), &Redirect::Inherit, &host());
    assert_eq!(effects.len(), 3);
}

#[test]
fn history_file_flags_become_effects() {
    let mut state = ShellState::new(Vec::new());
    let (_, effects) = execute(&mut state, "history", &s(&["-w", "/tmp/h"]), &Redirect::Inherit, &host());
    assert!(matches!(&effects[0], Effect::WriteHistory(p) if p == "/tmp/h"));
    let (_, effects) = execute(&mut state, "history", &s(&["-a", "/tmp/h"]), &Redirect::Inherit, &host());
    assert!(matches!(&effects[0], Effect::AppendHistory(p) if p == "/tmp/h"));
    let (_, effects) = execute(&mut state, "history", &s(&["-r", "/tmp/h"]), &Redirect::Inherit, &host());
    assert!(matches!(&effects[0], Effect::ReadHistory(p) if p == "/tmp/h"));
    let (_, effects) = execute(&mut state, "history", &s(&["-r"]), &Redirect::Inherit, &host());
    assert!(effects.is_empty());
}

#[test]
fn jobs_lists_and_forgets_finished() {
    let mut state = ShellState::new(Vec::new());
    add_job(&mut state.jobs, "sleep 5 &".to_string());
    add_job(&mut state.jobs, "sleep 9 &".to_string());
    let mut h = host();
    h.finished_jobs = vec![true, false];
    let (_, effects) = execute(&mut state, "jobs", &[], &Redirect::Inherit, &h);
    assert_eq!(
        printed(&effects),
        s(&["[1]-  Done                    sleep 5\n", "[2]+  Running                 sleep 9 &\n"])
    );
    assert_eq!(state.jobs.len(), 1);
    assert_eq!(state.jobs[0].id, 2);
}

#[test]
fn autocomplete_merges_builtins_and_programs() {
    let programs = s(&["env", "emacs", "ls", "echo", "env"]);
    assert_eq!(autocomplete("e", &programs), s(&["echo", "emacs", "env", "exit"]));
    assert_eq!(autocomplete("his", &[]), s(&["history"]));
    assert!(autocomplete("zz", &programs).is_empty());
}

#[test]
fn first_builtins_dispatch() {
    let mut state = ShellState::new(Vec::new());
    let mut h = host();
    h.executable = Some("/usr/bin/jobs".to_string());
    let (status, effects) = builtin::execute(&mut state, "type", &["jobs"], &Redirect::Inherit, &h);
    assert_eq!(status, builtin::BuiltinStatus::Handled);
    assert_eq!(printed(&effects), s(&["jobs is /usr/bin/jobs\n"]));
    let (_, effects) = builtin::execute(&mut state, "type", &["cd"], &Redirect::Inherit, &h);
    assert_eq!(printed(&effects), s(&["cd is a shell builtin\n"]));
    h.cwd = None;
    let (_, effects) = builtin::execute(&mut state, "pwd", &[], &Redirect::Inherit, &h);
    assert_eq!(printed(&effects), s(&["!pwd: error retrieving current directory\n"]));
    let (status, _) = builtin::execute(&mut state, "jobs", &[], &Redirect::Inherit, &h);
    assert_eq!(status, builtin::BuiltinStatus::NotHandled);
    let (status, _) = builtin::execute(&mut state, "exit", &[], &Redirect::Inherit, &h);
    assert_eq!(status, builtin::BuiltinStatus::Exit);
}

#[test]
fn first_builtins_complete_and_jobs() {
    let mut state = ShellState::new(Vec::new());
    builtin::complete::execute(&mut state.completions, &["-C", "s.sh", "cargo"], &Redirect::Inherit);
    assert_eq!(builtin::completion_registry(&state).get("cargo"), Some("s.sh".to_string()));
    add_job(&mut state.jobs, "make &".to_string());
    let effects = builtin::jobs::execute(&mut state.jobs, &[true], &[], &Redirect::Inherit);
    assert_eq!(printed(&effects), s(&["[1]+ Done                    make\n"]));
    assert!(state.jobs.is_empty());
}
