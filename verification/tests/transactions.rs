use chronos::chronos::risk::analyzer::analyze_command;
use chronos::chronos::state::tracker::{inspect_path, FsTarget};
use chronos::chronos::transaction::manager::{
    crash_notice, parse_transaction_range, parse_transaction_targets, record_transaction,
    recover_crashed_transactions, restore_notice, sort_descending, Transaction, TransactionStatus,
};
use chronos::chronos::transaction::snapshot::{kept_targets, restore_plan, snapshot_name, RestoreStep};
use chronos::executor::single::{after_snapshot, commit, opening_lines};
use chronos::parser::ast::{Command, Redirect};
use chronos::shell::builtins::undo::{undo_announcement, undo_outcome, undo_summary};
use chronos::shell::builtins::{purge, redo, transactions, undo, Effect};

fn s(items: &[&str]) -> Vec<String> {
    items.iter().map(|x| x.to_string()).collect()
}

fn target(path: &str, exists: bool, is_dir: bool) -> FsTarget {
    FsTarget { path: path.to_string(), exists, is_dir, readonly: false }
}

fn tx(line: &str, seq: usize, status: TransactionStatus, targets: Vec<FsTarget>) -> Transaction {
    let chunk = s(&line.split(' ').collect::<Vec<_>>());
    let cmd = Command {
        name: chunk[0].clone(),
        args: chunk[1..].to_vec(),
        stdout: Redirect::Inherit,
        stderr: Redirect::Inherit,
    };
    let mut t = Transaction::new(line.to_string(), chunk, analyze_command(&cmd), targets, 1000, seq);
    t.transition_to(status);
    t
}

fn printed(effects: &[Effect]) -> Vec<String> {
    effects
        .iter()
        .map(|e| match e {
            Effect::Print(t, _) => t.clone(),
            _ => panic!("not a print"),
        })
        .collect()
}

fn registry() -> Vec<Transaction> {
    vec![
        tx("touch a", 0, TransactionStatus::Committed, vec![target("a", false, false)]),
        tx("rm b", 1, TransactionStatus::RolledBack, vec![target("b", true, false)]),
        tx("mkdir d", 2, TransactionStatus::Committed, vec![target("d", false, true)]),
    ]
}

#[test]
fn transaction_ids_name_time_and_sequence() {
    let t = tx("ls", 7, TransactionStatus::Pending, vec![]);
    assert_eq!(t.id, "tx_1000_7");
    assert_eq!(t.status, TransactionStatus::Pending);
}

#[test]
fn targets_selection_and_errors() {
    let reg = registry();
    assert_eq!(parse_transaction_targets(&s(&["--cascade"]), &reg), Ok(vec![]));
    assert_eq!(parse_transaction_targets(&s(&["tx_1000_2", "tx_1000_0"]), &reg), Ok(vec![2, 0]));
    assert_eq!(
        parse_transaction_targets(&s(&["tx_9"]), &reg),
        Err("Transaction ID tx_9 not found.".to_string())
    );
    assert_eq!(parse_transaction_targets(&s(&["--cascade", "tx_1000_1"]), &reg), Ok(vec![1, 2]));
    assert_eq!(
        parse_transaction_targets(&s(&["--cascade", "tx_1000_1", "tx_1000_2"]), &reg),
        Err("--cascade requires exactly one transaction ID.".to_string())
    );
    assert_eq!(parse_transaction_targets(&s(&["--range", "tx_1000_2", "tx_1000_0"]), &reg), Ok(vec![0, 1, 2]));
    assert_eq!(
        parse_transaction_targets(&s(&["--range", "tx_1000_2"]), &reg),
        Err("--range requires exactly two transaction IDs.".to_string())
    );
}

#[test]
fn range_selection() {
    let reg = registry();
    assert_eq!(parse_transaction_range(&s(&[]), &reg), Ok(None));
    assert_eq!(parse_transaction_range(&s(&["tx_1000_2", "tx_1000_1"]), &reg), Ok(Some((1, 2))));
    assert!(parse_transaction_range(&s(&["tx_5"]), &reg).is_err());
}

#[test]
fn descending_sort() {
    assert_eq!(sort_descending(&[2, 9, 4, 9]), vec![9, 9, 4, 2]);
}

#[test]
fn undo_on_empty_registry() {
    let effects = undo::execute(&[], &[], &Redirect::Inherit);
    assert_eq!(printed(&effects), s(&["No transactions recorded in this session.\n"]));
}

#[test]
fn undo_defaults_to_latest_undoable() {
    let reg = registry();
    let effects = undo::execute(&reg, &[], &Redirect::Inherit);
    assert!(matches!(&effects[0], Effect::Undo(v) if v == &vec![2]));
}

#[test]
fn undo_refuses_with_newer_descendants() {
    let reg = registry();
    let effects = undo::execute(&reg, &s(&["tx_1000_0"]), &Redirect::Inherit);
    assert_eq!(
        printed(&effects),
        s(&[
            "[CHRONOS] \u{26a0} ERROR: Transaction has newer committed descendants.\n",
            "[CHRONOS] Undoing it alone may invalidate later state. Use `undo --cascade <id>`.\n",
        ])
    );
    let effects = undo::execute(&reg, &s(&["--cascade", "tx_1000_0"]), &Redirect::Inherit);
    assert!(matches!(&effects[0], Effect::Undo(v) if v == &vec![2, 1, 0]));
}

#[test]
fn undo_reports_unknown_id() {
    let reg = registry();
    let effects = undo::execute(&reg, &s(&["tx_42"]), &Redirect::Inherit);
    assert_eq!(printed(&effects), s(&["[CHRONOS] \u{26a0} Transaction ID tx_42 not found.\n"]));
}

#[test]
fn undo_steps_mark_rolled_back() {
    let mut reg = registry();
    assert_eq!(undo_announcement(&reg, 1), None);
    assert_eq!(undo_announcement(&reg, 0), Some("\n[CHRONOS] Undoing transaction: tx_1000_0\n".to_string()));
    let (line, ok) = undo_outcome(&mut reg, 0, Ok(()));
    assert!(ok);
    assert_eq!(line, "[CHRONOS] Successfully restored files from snapshot.\n");
    assert_eq!(reg[0].status, TransactionStatus::RolledBack);
    let (line, ok) = undo_outcome(&mut reg, 2, Err("disk full".to_string()));
    assert!(!ok);
    assert_eq!(line, "[CHRONOS] \u{26a0} Failed to restore snapshot: disk full\n");
    assert_eq!(reg[2].status, TransactionStatus::Committed);
    assert_eq!(undo_summary(0), Some("No undoable transactions found in selection.\n".to_string()));
    assert_eq!(undo_summary(1), None);
}

#[test]
fn redo_defaults_to_latest_rolled_back() {
    let reg = registry();
    let effects = redo::execute(&reg, &[], &Redirect::Inherit);
    assert_eq!(effects.len(), 2);
    assert!(matches!(&effects[0], Effect::Print(t, _) if t == "\n[CHRONOS] Redoing transaction: tx_1000_1\n"));
    assert!(matches!(&effects[1], Effect::Run(v) if v == &s(&["rm", "b"])));
}

#[test]
fn redo_range_and_nothing_to_redo() {
    let reg = registry();
    let effects = redo::execute(&reg, &s(&["tx_1000_2", "tx_1000_0"]), &Redirect::Inherit);
    assert_eq!(effects.len(), 2);
    let effects = redo::execute(&reg, &s(&["tx_1000_2"]), &Redirect::Inherit);
    assert_eq!(printed(&effects), s(&["No rolled back transactions found in that range.\n"]));
    let only_committed = vec![tx("touch a", 0, TransactionStatus::Committed, vec![])];
    let effects = redo::execute(&only_committed, &[], &Redirect::Inherit);
    assert_eq!(printed(&effects), s(&["No rolled back transactions found to redo.\n"]));
}

#[test]
fn transactions_table_rows() {
    let effects = transactions::execute(&[], &[], &Redirect::Inherit);
    assert_eq!(printed(&effects), s(&["No transactions recorded in this session.\n"]));
    let reg = vec![tx("rm b", 3, TransactionStatus::RolledBack, vec![])];
    let text = printed(&transactions::execute(&reg, &[], &Redirect::Inherit)).remove(0);
    let row = " tx_1000_3              \u{2502} \x1b[33mROLLED BACK\x1b[0m  \u{2502} \x1b[31mDestructive\x1b[0m     \u{2502} rm b\n";
    assert!(text.starts_with("\n \x1b[1mTRANSACTION ID\x1b[0m \u{2502} \x1b[1mSTATUS\x1b[0m \u{2502} \x1b[1mRISK\x1b[0m    \u{2502} \x1b[1mCOMMAND\x1b[0m\n"));
    assert!(text.ends_with(&format!("{}\n", row)));
}

#[test]
fn purge_empties_registry() {
    let mut reg = registry();
    let effects = purge::execute(&mut reg, &Redirect::Inherit);
    assert!(reg.is_empty());
    assert!(matches!(effects[0], Effect::SaveTransactions));
    assert!(matches!(effects[1], Effect::PurgeSnapshots(Redirect::Inherit)));
    assert_eq!(
        purge::purge_report(Ok(())),
        "[CHRONOS] Transaction history and physical snapshots successfully purged.\n"
    );
    assert_eq!(
        purge::purge_report(Err("busy".to_string())),
        "[CHRONOS] \u{26a0} Failed to delete physical snapshots: busy\n"
    );
}

#[test]
fn crash_recovery_rolls_back_incomplete() {
    let mut reg = registry();
    reg.push(tx("cp x y", 3, TransactionStatus::Executing, vec![]));
    reg.push(tx("mv x y", 4, TransactionStatus::Prepared, vec![]));
    let found = recover_crashed_transactions(&mut reg);
    assert_eq!(found, vec![(3, TransactionStatus::Executing), (4, TransactionStatus::Prepared)]);
    assert_eq!(reg[3].status, TransactionStatus::RolledBack);
    assert_eq!(reg[4].status, TransactionStatus::RolledBack);
    assert_eq!(reg[0].status, TransactionStatus::Committed);
    assert_eq!(
        crash_notice("tx_1", TransactionStatus::Executing),
        "[CHRONOS] \u{26a0} CRASH RECOVERY: Found incomplete transaction tx_1 (was Executing)\n"
    );
    assert_eq!(restore_notice("tx_1", Ok(())), "[CHRONOS] Successfully rolled back partial state for tx_1.\n");
    assert_eq!(
        restore_notice("tx_1", Err("gone".to_string())),
        "[CHRONOS] \u{26a0} Failed to restore partial state for tx_1: gone\n"
    );
}

#[test]
fn record_appends() {
    let mut reg = Vec::new();
    record_transaction(&mut reg, tx("ls", 0, TransactionStatus::Committed, vec![]));
    assert_eq!(reg.len(), 1);
}

#[test]
fn snapshot_names_and_plans() {
    assert_eq!(snapshot_name("dir/sub\\f.txt"), "dir_sub_f.txt");
    let targets = vec![target("new", false, false), target("old", true, false), target("d", true, true)];
    assert_eq!(kept_targets(&targets), vec![1]);
    let plan = restore_plan(&targets);
    assert_eq!(plan.len(), 2);
    assert!(matches!(plan[0], RestoreStep::Remove(0)));
    assert!(matches!(plan[1], RestoreStep::CopyBack(1)));
}

#[test]
fn inspected_paths_are_read_only_only_when_present() {
    let t = inspect_path("f", true, false, Some(true));
    assert!(t.readonly);
    assert!(!inspect_path("f", false, false, Some(true)).readonly);
    assert!(!inspect_path("f", true, false, None).readonly);
}

#[test]
fn transaction_life_cycle() {
    let mut t = tx("rm b", 5, TransactionStatus::Pending, vec![target("b", true, false)]);
    assert_eq!(
        opening_lines(&t),
        s(&["[CHRONOS] Transaction Created: tx_1000_5\n", "[CHRONOS] Securing targets...\n"])
    );
    let effects = after_snapshot(&mut t, Err("no space".to_string()));
    assert_eq!(t.status, TransactionStatus::Executing);
    assert!(matches!(&effects[0], Effect::PrintError(m) if m == "[CHRONOS] \u{26a0} WARNING: Failed to create snapshot: no space\n"));
    let effects = after_snapshot(&mut t, Ok(()));
    assert!(matches!(&effects[0], Effect::Print(m, Redirect::Inherit) if m == "[CHRONOS] Snapshot secured successfully.\n"));
    assert_eq!(commit(&mut t), "[CHRONOS] Transaction Committed.\n");
    assert_eq!(t.status, TransactionStatus::Committed);
    let safe = tx("ls", 6, TransactionStatus::Pending, vec![]);
    assert_eq!(opening_lines(&safe), s(&["[CHRONOS] Transaction Created: tx_1000_6\n"]));
}
