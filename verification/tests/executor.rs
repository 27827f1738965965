use chronos::chronos::ai::client::{
    gemini_url, parse_error_message, analysis_prompt, strip_code_fence, AIAnalysis, AIRecommendation,
};
use chronos::chronos::risk::analyzer::RiskLevel;
use chronos::chronos::state::tracker::{track_targets, FsTarget};
use chronos::executor::executor::{execute_pipeline, Route};
use chronos::executor::pipeline::{plan_pipeline, Stage, StdinSource};
use chronos::executor::process::{background_command_line, job_started_line};
use chronos::executor::single::{
    ai_decision, blocked_by_user, capture_builtin, consults_ai, is_builtin, is_meta_command, launch,
    not_found_message, prepare, risk_label, steps, stops_shell, target_report, tracks_targets,
    user_confirms, Launch, Step, Verdict,
};
use chronos::parser::ast::{Command, Redirect};
use chronos::shell::builtins::BuiltinStatus;
use chronos::shell::repl::accept_line;
use chronos::shell::state::history::{add_history, History};
use chronos::shell::state::variables::set_variable;
use chronos::strmap::StringMap;

fn s(items: &[&str]) -> Vec<String> {
    items.iter().map(|x| x.to_string()).collect()
}

#[test]
fn single_command_route() {
    match execute_pipeline("ls -l") {
        Route::Single(c) => assert_eq!(c, s(&["ls", "-l"])),
        _ => panic!("expected a single command"),
    }
    match execute_pipeline("") {
        Route::Single(c) => assert!(c.is_empty()),
        _ => panic!("expected a single command"),
    }
}

#[test]
fn pipeline_route_splits_at_pipes() {
    match execute_pipeline("cat f | grep x | wc -l") {
        Route::Pipeline(cs) => {
            assert_eq!(cs, vec![s(&["cat", "f"]), s(&["grep", "x"]), s(&["wc", "-l"])]);
        },
        _ => panic!("expected a pipeline"),
    }
    match execute_pipeline("echo 'a|b' | tr a b") {
        Route::Pipeline(cs) => assert_eq!(cs.len(), 2),
        _ => panic!("expected a pipeline"),
    }
    match execute_pipeline("a |") {
        Route::Pipeline(cs) => assert_eq!(cs, vec![s(&["a"]), s(&[])]),
        _ => panic!("expected a pipeline"),
    }
}

#[test]
fn pipeline_stages_connect_commands() {
    let chunks = vec![s(&["echo", "hi"]), s(&["grep", "h"]), s(&["wc"])];
    let plan = plan_pipeline(&chunks);
    assert!(matches!(&plan[0], Stage::Capture(c) if c.name == "echo"));
    assert!(matches!(&plan[1], Stage::External(c, StdinSource::Captured, true, true) if c.name == "grep"));
    assert!(matches!(&plan[2], Stage::External(c, StdinSource::Previous, false, false) if c.name == "wc"));
    let chunks = vec![s(&["ls"]), s(&[]), s(&["echo", "x"])];
    let plan = plan_pipeline(&chunks);
    assert!(matches!(&plan[0], Stage::External(_, StdinSource::Inherit, false, true)));
    assert!(matches!(&plan[1], Stage::Skip));
    assert!(matches!(&plan[2], Stage::Builtin(c) if c.args == s(&["x"])));
}

#[test]
fn prepare_strips_background_and_expands() {
    let mut vars = StringMap::new();
    set_variable(&mut vars, "DIR".to_string(), "build".to_string());
    let p = prepare(&vars, s(&["rm", "-rf", "$DIR", "&"])).unwrap();
    assert!(p.background);
    assert_eq!(p.command.name, "rm");
    assert_eq!(p.command.args, s(&["-rf", "build"]));
    assert_eq!(p.command_line, "rm -rf $DIR &");
    assert_eq!(p.assessment.level, RiskLevel::VeryHigh);
    assert!(!p.is_meta);
    let p = prepare(&vars, s(&["history", "$NOPE"])).unwrap();
    assert!(p.is_meta);
    assert!(p.command.args.is_empty());
    assert!(prepare(&vars, Vec::new()).is_none());
}

#[test]
fn command_classes() {
    assert!(is_builtin("declare"));
    assert!(!is_builtin("undo"));
    assert!(is_meta_command("purge"));
    assert!(!is_meta_command("rm"));
    assert!(tracks_targets(RiskLevel::Destructive));
    assert!(!tracks_targets(RiskLevel::Unknown));
    assert!(consults_ai(RiskLevel::Unknown, false));
    assert!(!consults_ai(RiskLevel::VeryHigh, true));
    assert!(!consults_ai(RiskLevel::Destructive, false));
    assert_eq!(risk_label(RiskLevel::Destructive), "\x1b[31mDANGEROUS\x1b[0m");
    assert!(stops_shell(BuiltinStatus::Exit));
    assert!(!stops_shell(BuiltinStatus::Handled));
}

fn analysis(r: AIRecommendation) -> Result<AIAnalysis, String> {
    Ok(AIAnalysis { intent: "clean up".to_string(), explanation: "deletes files".to_string(), recommendation: r })
}

#[test]
fn ai_analysis_decides() {
    let (lines, v) = ai_decision(RiskLevel::Unknown, &analysis(AIRecommendation::Proceed));
    assert_eq!(lines.len(), 5);
    assert_eq!(lines[1], "\u{2502} \x1b[36mIntent:\x1b[0m clean up\n");
    assert_eq!(lines[3], "\u{2502} \x1b[36mRecommendation:\x1b[0m Proceed\n");
    assert!(matches!(v, Verdict::Proceed));
    let (lines, v) = ai_decision(RiskLevel::Unknown, &analysis(AIRecommendation::Block));
    assert_eq!(lines[5], "[CHRONOS] \x1b[31mCommand blocked by AI Semantic Layer recommendation.\x1b[0m\n");
    assert!(matches!(v, Verdict::Block));
    let (_, v) = ai_decision(RiskLevel::Unknown, &analysis(AIRecommendation::Escalate));
    assert!(matches!(v, Verdict::Confirm(p) if p.contains("AI Escalate / Very High Risk")));
    let (_, v) = ai_decision(RiskLevel::VeryHigh, &analysis(AIRecommendation::ProceedWithTransaction));
    assert!(matches!(v, Verdict::Confirm(_)));
}

#[test]
fn ai_failure_policy() {
    let (lines, v) = ai_decision(RiskLevel::VeryHigh, &Err("timeout".to_string()));
    assert_eq!(lines[0], "[CHRONOS] \x1b[31m\u{26a0} AI Analysis Failed (Timeout/Network): timeout\x1b[0m\n");
    assert_eq!(lines.len(), 2);
    assert!(matches!(v, Verdict::Block));
    let (lines, v) = ai_decision(RiskLevel::Unknown, &Err("timeout".to_string()));
    assert_eq!(lines.len(), 1);
    assert!(matches!(v, Verdict::Confirm(p) if p.contains("POLICY: Escalate")));
}

#[test]
fn user_replies() {
    assert!(user_confirms("y\n"));
    assert!(user_confirms("  Y "));
    assert!(!user_confirms("yes"));
    assert!(!user_confirms(""));
    assert_eq!(blocked_by_user(), "[CHRONOS] Command blocked by user.\n");
}

#[test]
fn captured_builtin_output() {
    let mut h = History::new();
    add_history(&mut h, "ls".to_string());
    add_history(&mut h, "pwd".to_string());
    assert_eq!(capture_builtin("echo", &s(&["a", "b"]), None, None, &h), "a b\n");
    assert_eq!(capture_builtin("pwd", &[], Some("/w".to_string()), None, &h), "/w\n");
    assert_eq!(capture_builtin("pwd", &[], None, None, &h), "");
    assert_eq!(capture_builtin("type", &s(&["cd"]), None, None, &h), "cd is a shell builtin\n");
    assert_eq!(capture_builtin("type", &s(&["gcc"]), None, Some("/usr/bin/gcc".to_string()), &h), "gcc is /usr/bin/gcc\n");
    assert_eq!(capture_builtin("history", &[], None, None, &h), "    1  ls\n    2  pwd\n");
    assert_eq!(capture_builtin("history", &s(&["1"]), None, None, &h), "    2  pwd\n");
    assert_eq!(capture_builtin("cd", &[], None, None, &h), "");
}

#[test]
fn tracked_targets_report() {
    let targets = vec![
        FsTarget { path: "a.txt".to_string(), exists: true, is_dir: false, readonly: true },
        FsTarget { path: "d".to_string(), exists: true, is_dir: true, readonly: false },
        FsTarget { path: "new".to_string(), exists: false, is_dir: false, readonly: false },
    ];
    assert_eq!(
        target_report(&targets, false),
        s(&[
            "[CHRONOS] Tracking Filesystem Targets:\n",
            "  -> a.txt: Exists (File - Read-Only)\n",
            "  -> d: Exists (Directory - Writable)\n",
            "  -> new: Does Not Exist\n",
        ])
    );
    assert!(target_report(&targets, true).is_empty());
    assert!(target_report(&[], false).is_empty());
}

#[test]
fn tracked_paths_with_globs_and_redirects() {
    let cmd = Command {
        name: "rm".to_string(),
        args: s(&["-f", "*.log", "keep"]),
        stdout: Redirect::Append("out".to_string()),
        stderr: Redirect::Inherit,
    };
    let entries = s(&["a.log", "b.txt", "c.log"]);
    assert_eq!(track_targets(&cmd, &entries), s(&["a.log", "c.log", "keep", "out"]));
}

#[test]
fn messages_of_started_programs() {
    assert_eq!(not_found_message("frob"), "frob: command not found\n");
    assert_eq!(background_command_line("sleep", &s(&["10"])), "sleep 10 &");
    assert_eq!(background_command_line("yes", &[]), "yes &");
    assert_eq!(job_started_line(3, 4242), "[3] 4242\n");
}

#[test]
fn model_answers_are_unfenced() {
    assert_eq!(strip_code_fence("  ```json\n{\"a\":1}\n```  "), "{\"a\":1}");
    assert_eq!(strip_code_fence("```{}```"), "{}");
    assert_eq!(strip_code_fence("{}"), "{}");
    assert_eq!(parse_error_message("eof", "{"), "JSON Parse Error: eof. Raw text: {");
}

#[test]
fn model_request_text() {
    assert_eq!(
        gemini_url("KEY"),
        "https://generativelanguage.googleapis.com/v1beta/models/gemini-3.5-flash:generateContent?key=KEY"
    );
    let p = analysis_prompt("rm x", "{r}", "[t]");
    assert!(p.starts_with("You are the AI Semantic Layer for Chronos, a transactional POSIX shell.\nAnalyze the following command context:\n\nCommand: rm x\nDeterministic Risk Profile:\n{r}\nFilesystem Targets State:\n[t]\n\nReturn ONLY"));
    assert!(p.ends_with("Do NOT output markdown, backticks, or conversational text."));
}

#[test]
fn prompt_lines() {
    assert_eq!(accept_line("  ls -l \n"), Some("ls -l".to_string()));
    assert_eq!(accept_line(" \t "), None);
}

#[test]
fn steps_of_a_command() {
    assert_eq!(
        steps(false, RiskLevel::VeryHigh),
        vec![
            Step::ReportRisk,
            Step::TrackTargets,
            Step::ConsultAi,
            Step::OpenTransaction,
            Step::Snapshot,
            Step::TouchRedirects,
            Step::RunCommand,
            Step::CommitTransaction,
        ]
    );
    assert_eq!(
        steps(false, RiskLevel::Safe),
        vec![
            Step::ReportRisk,
            Step::OpenTransaction,
            Step::StartExecuting,
            Step::TouchRedirects,
            Step::RunCommand,
            Step::CommitTransaction,
        ]
    );
    assert_eq!(steps(true, RiskLevel::ShellStateChange), vec![Step::TouchRedirects, Step::RunCommand]);
    assert_eq!(
        steps(false, RiskLevel::Unknown),
        vec![
            Step::ReportRisk,
            Step::ConsultAi,
            Step::OpenTransaction,
            Step::StartExecuting,
            Step::TouchRedirects,
            Step::RunCommand,
            Step::CommitTransaction,
        ]
    );
}

#[test]
fn launching_programs() {
    assert!(matches!(launch(BuiltinStatus::Handled, false, false, "echo"), Launch::Done));
    assert!(matches!(launch(BuiltinStatus::NotHandled, true, true, "sleep"), Launch::Background));
    assert!(matches!(launch(BuiltinStatus::NotHandled, true, false, "ls"), Launch::Foreground));
    assert!(matches!(launch(BuiltinStatus::NotHandled, false, false, "frob"), Launch::NotFound(m) if m == "frob: command not found\n"));
}
