use chronos::order::{sort_strings, str_less};
use chronos::shell::completion::{autocomplete_filename, longest_common_prefix, split_search_word};
use chronos::shell::state::history::{
    add_history, append_from_lines, history_registry, last_appended_idx, mark_saved, pending_entries,
    History,
};
use chronos::chronos::transaction::manager::transaction_registry;
use chronos::shell::state::jobs::{add_job, jobs_registry, reap_jobs, strip_background_marker};
use chronos::shell::state::variables::{get_variable, set_variable, variables_registry};
use chronos::shell::state::ShellState;
use chronos::strmap::StringMap;

fn s(items: &[&str]) -> Vec<String> {
    items.iter().map(|x| x.to_string()).collect()
}

#[test]
fn history_saves_only_new_entries() {
    let mut h = History::new();
    add_history(&mut h, "ls".to_string());
    add_history(&mut h, "pwd".to_string());
    assert_eq!(pending_entries(&h), s(&["ls", "pwd"]));
    mark_saved(&mut h);
    assert_eq!(last_appended_idx(&h), 2);
    assert!(pending_entries(&h).is_empty());
    add_history(&mut h, "make".to_string());
    assert_eq!(pending_entries(&h), s(&["make"]));
    assert_eq!(history_registry(&h), &s(&["ls", "pwd", "make"]));
}

#[test]
fn history_file_lines_skip_blanks() {
    let mut h = History::new();
    add_history(&mut h, "first".to_string());
    append_from_lines(&mut h, &s(&["a", "   ", "", "b"]));
    assert_eq!(history_registry(&h), &s(&["first", "a", "b"]));
    assert_eq!(last_appended_idx(&h), 3);
}

#[test]
fn variables_round_trip() {
    let mut state = ShellState::new(Vec::new());
    set_variable(&mut state.variables, "A".to_string(), "1".to_string());
    set_variable(&mut state.variables, "B".to_string(), "2".to_string());
    set_variable(&mut state.variables, "A".to_string(), "3".to_string());
    assert_eq!(get_variable(&state.variables, "A"), Some("3".to_string()));
    assert_eq!(get_variable(&state.variables, "B"), Some("2".to_string()));
    assert_eq!(get_variable(&state.variables, "C"), None);
    assert_eq!(variables_registry(&state).len(), 2);
}

#[test]
fn string_map_insert_remove() {
    let mut m = StringMap::new();
    m.insert("k".to_string(), "v".to_string());
    assert_eq!(m.len(), 1);
    m.remove("k");
    assert_eq!(m.get("k"), None);
    assert_eq!(m.len(), 0);
}

#[test]
fn job_ids_follow_the_greatest() {
    let mut jobs = Vec::new();
    assert_eq!(add_job(&mut jobs, "a &".to_string()), 1);
    assert_eq!(add_job(&mut jobs, "b &".to_string()), 2);
    let report = reap_jobs(&mut jobs, &[true, false]);
    assert_eq!(report, s(&["[1]- Done                    a\n"]));
    assert_eq!(add_job(&mut jobs, "c &".to_string()), 3);
    assert_eq!(strip_background_marker("x & &"), "x");
}

#[test]
fn common_prefix_of_candidates() {
    assert_eq!(longest_common_prefix(&s(&["apple", "apply", "apt"])), "ap");
    assert_eq!(longest_common_prefix(&s(&["abc"])), "abc");
    assert_eq!(longest_common_prefix(&s(&["abc", "xyz"])), "");
    assert_eq!(longest_common_prefix(&[]), "");
    assert_eq!(longest_common_prefix(&s(&["h\u{e9}llo", "h\u{e9}lp"])), "h\u{e9}l");
}

#[test]
fn file_name_completion() {
    assert_eq!(
        split_search_word("src/ma"),
        ("src/".to_string(), "ma".to_string(), "src/".to_string())
    );
    assert_eq!(split_search_word("ma"), (".".to_string(), "ma".to_string(), String::new()));
    let entries = vec![
        ("main.rs".to_string(), false),
        ("lib.rs".to_string(), false),
        ("macros".to_string(), true),
    ];
    assert_eq!(autocomplete_filename("src/ma", &entries), s(&["src/macros/", "src/main.rs"]));
    assert_eq!(autocomplete_filename("", &entries), s(&["lib.rs", "macros/", "main.rs"]));
}

#[test]
fn string_order_is_that_of_str() {
    let mut v = s(&["b", "a", "ab", "", "B", "\u{e9}", "z"]);
    let sorted = sort_strings(v.clone());
    v.sort();
    assert_eq!(sorted, v);
    assert!(str_less("ab", "b"));
    assert!(str_less("a", "ab"));
    assert!(!str_less("a", "a"));
}

#[test]
fn session_registries() {
    let mut state = ShellState::new(Vec::new());
    add_job(&mut state.jobs, "sleep 1 &".to_string());
    assert_eq!(jobs_registry(&state).len(), 1);
    assert!(transaction_registry(&state).is_empty());
}
