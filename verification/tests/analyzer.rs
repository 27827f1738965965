use chronos::chronos::risk::analyzer::{analyze_command, Effect, RiskAssessment, RiskLevel, RiskReason};
use chronos::parser::ast::{Command, Redirect};

fn make_cmd(name: &str, args: Vec<&str>, stdout: Redirect) -> Command {
    Command {
        name: name.to_string(),
        args: args.into_iter().map(|s| s.to_string()).collect(),
        stdout,
        stderr: Redirect::Inherit,
    }
}

/// The confidence of an assessment as a fraction: tenths over ten, times 0.8 for each
/// wildcard argument.
fn confidence(a: &RiskAssessment) -> f32 {
    let mut c = a.confidence_tenths as f32 / 10.0;
    for _ in 0..a.wildcard_discounts {
        c *= 0.8;
    }
    c
}

#[test]
fn test_risk_matrix() {
    assert_eq!(analyze_command(&make_cmd("ls", vec![], Redirect::Inherit)).level, RiskLevel::Safe);
    assert_eq!(analyze_command(&make_cmd("pwd", vec![], Redirect::Inherit)).level, RiskLevel::Safe);
    assert_eq!(analyze_command(&make_cmd("cd", vec!["project"], Redirect::Inherit)).level, RiskLevel::ShellStateChange);
    assert_eq!(analyze_command(&make_cmd("touch", vec!["a"], Redirect::Inherit)).level, RiskLevel::StateChanging);
    assert_eq!(analyze_command(&make_cmd("mkdir", vec!["project"], Redirect::Inherit)).level, RiskLevel::StateChanging);
    assert_eq!(analyze_command(&make_cmd("cp", vec!["a", "b"], Redirect::Inherit)).level, RiskLevel::StateChanging);
    assert_eq!(analyze_command(&make_cmd("mv", vec!["a", "b"], Redirect::Inherit)).level, RiskLevel::StateChanging);
    assert_eq!(analyze_command(&make_cmd("rm", vec!["a"], Redirect::Inherit)).level, RiskLevel::Destructive);
    assert_eq!(analyze_command(&make_cmd("rm", vec!["-r", "dir"], Redirect::Inherit)).level, RiskLevel::VeryHigh);
    assert_eq!(analyze_command(&make_cmd("rm", vec!["-rf", "dir/*"], Redirect::Inherit)).level, RiskLevel::VeryHigh);
    assert_eq!(analyze_command(&make_cmd("echo", vec!["x"], Redirect::Overwrite("a".to_string()))).level, RiskLevel::StateChanging);
    assert_eq!(analyze_command(&make_cmd("unknown", vec![], Redirect::Inherit)).level, RiskLevel::Unknown);
    assert_eq!(analyze_command(&make_cmd("./script.sh", vec![], Redirect::Inherit)).level, RiskLevel::Unknown);
}

// --- Score value tests ---

#[test]
fn test_safe_command_score_zero() {
    let a = analyze_command(&make_cmd("ls", vec![], Redirect::Inherit));
    assert_eq!(a.score, 0);
    assert!((confidence(&a) - 1.0).abs() < f32::EPSILON);
}

#[test]
fn test_shell_state_score() {
    let a = analyze_command(&make_cmd("cd", vec!["dir"], Redirect::Inherit));
    assert_eq!(a.score, 10);
}

#[test]
fn test_creation_score() {
    let a = analyze_command(&make_cmd("touch", vec!["f"], Redirect::Inherit));
    assert_eq!(a.score, 20);
}

#[test]
fn test_mutation_score() {
    let a = analyze_command(&make_cmd("cp", vec!["a", "b"], Redirect::Inherit));
    assert_eq!(a.score, 30);
}

#[test]
fn test_destructive_base_score() {
    let a = analyze_command(&make_cmd("rm", vec!["file"], Redirect::Inherit));
    assert_eq!(a.score, 70);
}

#[test]
fn test_unknown_command_score() {
    let a = analyze_command(&make_cmd("./unknown", vec![], Redirect::Inherit));
    assert_eq!(a.score, 50);
}

// --- Confidence tests ---

#[test]
fn test_unknown_command_low_confidence() {
    let a = analyze_command(&make_cmd("./random_script", vec![], Redirect::Inherit));
    assert!(confidence(&a) < 0.5, "Unknown commands should have low confidence, got {}", confidence(&a));
}

#[test]
fn test_safe_command_full_confidence() {
    let a = analyze_command(&make_cmd("echo", vec!["hi"], Redirect::Inherit));
    assert!((confidence(&a) - 1.0).abs() < f32::EPSILON);
}

// --- Redirection escalation tests ---

#[test]
fn test_stdout_overwrite_escalates_safe() {
    let a = analyze_command(&make_cmd("echo", vec!["data"], Redirect::Overwrite("out.txt".into())));
    assert_eq!(a.level, RiskLevel::StateChanging);
    assert!(a.score >= 40);
}

#[test]
fn test_stdout_append_escalates() {
    let a = analyze_command(&make_cmd("echo", vec!["data"], Redirect::Append("log.txt".into())));
    assert_eq!(a.level, RiskLevel::StateChanging);
}

#[test]
fn test_stderr_redirect_escalates() {
    let cmd = Command {
        name: "echo".to_string(),
        args: vec!["hi".to_string()],
        stdout: Redirect::Inherit,
        stderr: Redirect::Overwrite("err.txt".into()),
    };
    let a = analyze_command(&cmd);
    assert_eq!(a.level, RiskLevel::StateChanging);
}

// --- Flag detection tests ---

#[test]
fn test_recursive_flag_escalates_rm() {
    let a = analyze_command(&make_cmd("rm", vec!["-R", "dir"], Redirect::Inherit));
    assert_eq!(a.level, RiskLevel::VeryHigh);
    assert!(a.reasons.contains(&RiskReason::RecursiveFlag));
}

#[test]
fn test_force_flag_detected() {
    let a = analyze_command(&make_cmd("rm", vec!["-f", "file"], Redirect::Inherit));
    assert!(a.reasons.contains(&RiskReason::ForceFlag));
}

#[test]
fn test_combined_rf_flag() {
    let a = analyze_command(&make_cmd("rm", vec!["-rf", "dir"], Redirect::Inherit));
    assert!(a.reasons.contains(&RiskReason::RecursiveFlag));
    assert!(a.reasons.contains(&RiskReason::ForceFlag));
}

#[test]
fn test_fr_flag_order() {
    let a = analyze_command(&make_cmd("rm", vec!["-fr", "dir"], Redirect::Inherit));
    assert_eq!(a.level, RiskLevel::VeryHigh);
}

// --- Wildcard tests ---

#[test]
fn test_wildcard_increases_score() {
    let base = analyze_command(&make_cmd("rm", vec!["file"], Redirect::Inherit));
    let wild = analyze_command(&make_cmd("rm", vec!["*"], Redirect::Inherit));
    assert!(wild.score > base.score);
    assert!(wild.reasons.contains(&RiskReason::WildcardTarget));
}

#[test]
fn test_wildcard_reduces_confidence() {
    let base = analyze_command(&make_cmd("rm", vec!["file"], Redirect::Inherit));
    let wild = analyze_command(&make_cmd("rm", vec!["*"], Redirect::Inherit));
    assert!(confidence(&wild) < confidence(&base));
}

// --- Root directory tests ---

#[test]
fn test_root_directory_maxes_score() {
    let a = analyze_command(&make_cmd("rm", vec!["-rf", "/"], Redirect::Inherit));
    assert_eq!(a.level, RiskLevel::VeryHigh);
    assert_eq!(a.score, 100);
    assert!(a.reasons.contains(&RiskReason::RootDirectoryTarget));
}

#[test]
fn test_root_glob_maxes_score() {
    let a = analyze_command(&make_cmd("rm", vec!["-rf", "/*"], Redirect::Inherit));
    assert_eq!(a.score, 100);
}

// --- Network command tests ---

#[test]
fn test_network_command_classification() {
    for cmd_name in &["ping", "curl", "wget"] {
        let a = analyze_command(&make_cmd(cmd_name, vec!["example.com"], Redirect::Inherit));
        assert_eq!(a.level, RiskLevel::Unknown, "Failed for {}", cmd_name);
        assert!(a.effects.contains(&Effect::NetworkActivity));
    }
}

// --- Effects tests ---

#[test]
fn test_safe_command_readonly_effect() {
    let a = analyze_command(&make_cmd("cat", vec!["file"], Redirect::Inherit));
    assert!(a.effects.contains(&Effect::ReadOnly));
}

#[test]
fn test_rm_has_delete_effect() {
    let a = analyze_command(&make_cmd("rm", vec!["file"], Redirect::Inherit));
    assert!(a.effects.contains(&Effect::FilesystemDelete));
}

#[test]
fn test_touch_has_create_effect() {
    let a = analyze_command(&make_cmd("touch", vec!["new_file"], Redirect::Inherit));
    assert!(a.effects.contains(&Effect::FilesystemCreate));
}

#[test]
fn test_cp_has_create_and_modify_effects() {
    let a = analyze_command(&make_cmd("cp", vec!["a", "b"], Redirect::Inherit));
    assert!(a.effects.contains(&Effect::FilesystemCreate));
    assert!(a.effects.contains(&Effect::FilesystemModify));
}

// --- Score clamping ---

#[test]
fn test_score_never_exceeds_100() {
    let a = analyze_command(&make_cmd("rm", vec!["-rf", "/", "*", "-f"], Redirect::Overwrite("x".into())));
    assert!(a.score <= 100, "Score {} exceeded 100", a.score);
}

// --- All read-only commands ---

#[test]
fn test_all_safe_commands() {
    for name in &["ls", "pwd", "echo", "cat", "grep", "type", "history", "jobs"] {
        let a = analyze_command(&make_cmd(name, vec![], Redirect::Inherit));
        assert_eq!(a.level, RiskLevel::Safe, "Expected Safe for '{}'", name);
    }
}

// --- All shell-state commands ---

#[test]
fn test_all_shell_state_commands() {
    for name in &["cd", "declare", "export", "exit", "transactions", "undo", "redo", "purge"] {
        let a = analyze_command(&make_cmd(name, vec![], Redirect::Inherit));
        assert_eq!(a.level, RiskLevel::ShellStateChange, "Expected ShellStateChange for '{}'", name);
    }
}
