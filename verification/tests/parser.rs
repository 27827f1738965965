use chronos::parser::ast::{Command, Redirect};
use chronos::parser::parser::parse;

fn v(tokens: &[&str]) -> Vec<String> {
    tokens.iter().map(|s| s.to_string()).collect()
}

#[test]
fn test_parse_empty() {
    assert!(parse(v(&[])).is_none());
}

#[test]
fn test_parse_single_command() {
    let cmd = parse(v(&["ls"])).unwrap();
    assert_eq!(cmd.name, "ls");
    assert!(cmd.args.is_empty());
    assert!(matches!(cmd.stdout, Redirect::Inherit));
    assert!(matches!(cmd.stderr, Redirect::Inherit));
}

#[test]
fn test_parse_command_with_args() {
    let cmd = parse(v(&["echo", "hello", "world"])).unwrap();
    assert_eq!(cmd.name, "echo");
    assert_eq!(cmd.args, v(&["hello", "world"]));
}

#[test]
fn test_parse_stdout_overwrite() {
    let cmd = parse(v(&["echo", "hi", ">", "file.txt"])).unwrap();
    assert!(matches!(cmd.stdout, Redirect::Overwrite(ref s) if s == "file.txt"));
}

#[test]
fn test_parse_stdout_append() {
    let cmd = parse(v(&["echo", "hi", ">>", "file.txt"])).unwrap();
    assert!(matches!(cmd.stdout, Redirect::Append(ref s) if s == "file.txt"));
}

#[test]
fn test_parse_stderr_overwrite() {
    let cmd = parse(v(&["cmd", "2>", "err.txt"])).unwrap();
    assert!(matches!(cmd.stderr, Redirect::Overwrite(ref s) if s == "err.txt"));
}

#[test]
fn test_parse_stderr_append() {
    let cmd = parse(v(&["cmd", "2>>", "err.txt"])).unwrap();
    assert!(matches!(cmd.stderr, Redirect::Append(ref s) if s == "err.txt"));
}

#[test]
fn test_parse_both_redirects() {
    let cmd = parse(v(&["cmd", ">", "out", "2>", "err"])).unwrap();
    assert!(matches!(cmd.stdout, Redirect::Overwrite(ref s) if s == "out"));
    assert!(matches!(cmd.stderr, Redirect::Overwrite(ref s) if s == "err"));
}

#[test]
fn test_parse_named_stdout() {
    let cmd = parse(v(&["cmd", "1>", "out"])).unwrap();
    assert!(matches!(cmd.stdout, Redirect::Overwrite(ref s) if s == "out"));
}

#[test]
fn test_parse_named_stdout_append() {
    let cmd = parse(v(&["cmd", "1>>", "out"])).unwrap();
    assert!(matches!(cmd.stdout, Redirect::Append(ref s) if s == "out"));
}

#[test]
fn test_parse_args_before_redirect() {
    let cmd = parse(v(&["grep", "-rn", "pat", ">", "out"])).unwrap();
    assert_eq!(cmd.args, v(&["-rn", "pat"]));
    assert!(matches!(cmd.stdout, Redirect::Overwrite(ref s) if s == "out"));
}

#[test]
fn test_parse_args_after_redirect() {
    let cmd = parse(v(&["cmd", ">", "out", "extra"])).unwrap();
    assert_eq!(cmd.args, v(&["extra"]));
    assert!(matches!(cmd.stdout, Redirect::Overwrite(ref s) if s == "out"));
}

#[test]
fn test_parse_dangling_redirect() {
    let cmd = parse(v(&["cmd", ">"])).unwrap();
    assert!(matches!(cmd.stdout, Redirect::Inherit));
}

#[test]
fn test_parse_multiple_stdout_last_wins() {
    let cmd = parse(v(&["cmd", ">", "a", ">", "b"])).unwrap();
    assert!(matches!(cmd.stdout, Redirect::Overwrite(ref s) if s == "b"));
}

#[test]
fn test_parse_many_args() {
    let expected_args: Vec<String> = (0..49).map(|i| i.to_string()).collect();
    let mut tokens_str: Vec<String> = vec!["cmd".to_string()];
    tokens_str.extend(expected_args.clone());
    let cmd = parse(tokens_str).unwrap();
    assert_eq!(cmd.args, expected_args);
}

#[test]
fn test_ast_redirect_none_default() {
    let cmd = Command {
        name: "test".to_string(),
        args: vec![],
        stdout: Redirect::Inherit,
        stderr: Redirect::Inherit,
    };
    assert!(matches!(cmd.stdout, Redirect::Inherit));
}

#[test]
fn test_ast_command_fields_complete() {
    let cmd = Command {
        name: "cmd".to_string(),
        args: v(&["arg1"]),
        stdout: Redirect::Overwrite("out".to_string()),
        stderr: Redirect::Append("err".to_string()),
    };
    assert_eq!(cmd.name, "cmd");
    assert_eq!(cmd.args, v(&["arg1"]));
    assert!(matches!(cmd.stdout, Redirect::Overwrite(ref s) if s == "out"));
    assert!(matches!(cmd.stderr, Redirect::Append(ref s) if s == "err"));
}

#[test]
fn test_ast_redirect_overwrite_contains_path() {
    let redir = Redirect::Overwrite("file".to_string());
    assert!(matches!(redir, Redirect::Overwrite(ref s) if s == "file"));
}
