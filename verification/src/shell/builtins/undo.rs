//! `undo`: choose the transactions whose snapshots are restored.
use vstd::prelude::*;
use crate::chronos::transaction::manager::{
    descending, ids, parse_transaction_targets, seq_max, sort_descending, spec_parse_targets,
    Transaction, TransactionStatus,
};
use crate::parser::ast::{Redirect, RedirectModel};
use crate::shell::builtins::{effect_models, Effect, EffectModel};
use crate::text::{owned, push_str, str_eq, views};

verus! {

/// A transaction can be undone: it was committed and it touched some path.
pub open spec fn undoable(t: Transaction) -> bool {
    t.status == TransactionStatus::Committed && t.targets@.len() > 0
}

/// Whether a transaction can be undone.
pub fn is_undoable(t: &Transaction) -> (b: bool)
    ensures
        b == undoable(*t),
{
    t.status == TransactionStatus::Committed && t.targets.len() > 0
}

/// The index of the last transaction that can be undone.
pub open spec fn latest_undoable(reg: Seq<Transaction>) -> Option<usize>
    decreases reg.len(),
{
    if reg.len() == 0 {
        None
    } else if undoable(reg.last()) {
        Some((reg.len() - 1) as usize)
    } else {
        latest_undoable(reg.drop_last())
    }
}

/// The index of the last committed transaction.
pub open spec fn latest_committed(reg: Seq<Transaction>) -> Option<usize>
    decreases reg.len(),
{
    if reg.len() == 0 {
        None
    } else if reg.last().status == TransactionStatus::Committed {
        Some((reg.len() - 1) as usize)
    } else {
        latest_committed(reg.drop_last())
    }
}

pub open spec fn no_transactions_text() -> Seq<char> {
    "No transactions recorded in this session.\n"@
}

pub open spec fn descendants_text() -> Seq<char> {
    "[CHRONOS] \u{26a0} ERROR: Transaction has newer committed descendants.\n"@
}

pub open spec fn cascade_hint_text() -> Seq<char> {
    "[CHRONOS] Undoing it alone may invalidate later state. Use `undo --cascade <id>`.\n"@
}

/// What `undo ARGS` does.  Without a named transaction the last one that can be undone
/// is chosen.  Unless `--cascade` is given, undoing is refused when a committed
/// transaction newer than every chosen one exists.  Otherwise the chosen transactions
/// are restored, newest first.
pub open spec fn spec_undo(reg: Seq<Transaction>, args: Seq<Seq<char>>, stdout: RedirectModel) -> Seq<
    EffectModel,
> {
    if reg.len() == 0 {
        seq![EffectModel::Print(no_transactions_text(), stdout)]
    } else {
        match spec_parse_targets(args, ids(reg)) {
            Err(e) => seq![EffectModel::Print("[CHRONOS] \u{26a0} "@ + e + "\n"@, stdout)],
            Ok(ix) => {
                let chosen = if ix.len() == 0 {
                    match latest_undoable(reg) {
                        Some(i) => Some(seq![i]),
                        None => None,
                    }
                } else {
                    Some(ix)
                };
                match chosen {
                    None => seq![EffectModel::Print("No undoable transactions found.\n"@, stdout)],
                    Some(sel) => if !args.contains("--cascade"@) && (latest_committed(reg) matches Some(
                        l,
                    ) && l > seq_max(sel)) {
                        seq![
                            EffectModel::Print(descendants_text(), stdout),
                            EffectModel::Print(cascade_hint_text(), stdout),
                        ]
                    } else {
                        seq![EffectModel::Undo(descending(sel))]
                    },
                }
            },
        }
    }
}

fn find_latest_undoable(reg: &[Transaction]) -> (r: Option<usize>)
    ensures
        r == latest_undoable(reg@),
{
    let mut i = reg.len();
    assert(reg@.take(reg@.len() as int) =~= reg@);
    while i > 0
        invariant
            i <= reg@.len(),
            latest_undoable(reg@) == latest_undoable(reg@.take(i as int)),
        decreases i,
    {
        let ghost t = reg@.take(i as int);
        assert(t.last() == reg@[i - 1]);
        if is_undoable(&reg[i - 1]) {
            return Some(i - 1);
        }
        assert(t.drop_last() =~= reg@.take(i - 1));
        i = i - 1;
    }
    assert(reg@.take(0) =~= Seq::<Transaction>::empty());
    None
}

fn find_latest_committed(reg: &[Transaction]) -> (r: Option<usize>)
    ensures
        r == latest_committed(reg@),
{
    let mut i = reg.len();
    assert(reg@.take(reg@.len() as int) =~= reg@);
    while i > 0
        invariant
            i <= reg@.len(),
            latest_committed(reg@) == latest_committed(reg@.take(i as int)),
        decreases i,
    {
        let ghost t = reg@.take(i as int);
        assert(t.last() == reg@[i - 1]);
        if reg[i - 1].status == TransactionStatus::Committed {
            return Some(i - 1);
        }
        assert(t.drop_last() =~= reg@.take(i - 1));
        i = i - 1;
    }
    assert(reg@.take(0) =~= Seq::<Transaction>::empty());
    None
}

/// The greatest of a non-empty list of indices.
pub fn max_index(v: &[usize]) -> (m: usize)
    requires
        v@.len() > 0,
    ensures
        m == seq_max(v@),
{
    let mut m = v[0];
    let mut i: usize = 1;
    assert(v@.take(1) =~= seq![v@[0]]);
    while i < v.len()
        invariant
            1 <= i <= v@.len(),
            m == seq_max(v@.take(i as int)),
        decreases v.len() - i,
    {
        let ghost t = v@.take(i + 1);
        assert(t.drop_last() =~= v@.take(i as int));
        if v[i] > m {
            m = v[i];
        }
        i = i + 1;
    }
    assert(v@.take(v@.len() as int) =~= v@);
    m
}

fn has_cascade(args: &[String]) -> (b: bool)
    ensures
        b == views(args@).contains("--cascade"@),
{
    let mut i: usize = 0;
    while i < args.len()
        invariant
            i <= args@.len(),
            forall|k: int| 0 <= k < i ==> args@[k]@ != "--cascade"@,
        decreases args.len() - i,
    {
        if str_eq(args[i].as_str(), "--cascade") {
            assert(views(args@)[i as int] == "--cascade"@);
            return true;
        }
        i = i + 1;
    }
    assert forall|k: int| 0 <= k < views(args@).len() implies views(args@)[k] != "--cascade"@ by {
        assert(views(args@)[k] == args@[k]@);
    }
    false
}

/// Decides what `undo ARGS` does with the transaction registry (see [`spec_undo`]).
pub fn execute(registry: &[Transaction], args: &[String], stdout: &Redirect) -> (r: Vec<Effect>)
    ensures
        effect_models(r@) == spec_undo(registry@, views(args@), stdout@),
{
    if registry.len() == 0 {
        let r = vec![Effect::Print(owned("No transactions recorded in this session.\n"), stdout.duplicate())];
        assert(effect_models(r@) =~= spec_undo(registry@, views(args@), stdout@));
        return r;
    }
    let is_cascade = has_cascade(args);
    let indices = match parse_transaction_targets(args, registry) {
        Ok(v) => v,
        Err(e) => {
            let mut text = owned("[CHRONOS] \u{26a0} ");
            push_str(&mut text, e.as_str());
            push_str(&mut text, "\n");
            let r = vec![Effect::Print(text, stdout.duplicate())];
            assert(effect_models(r@) =~= spec_undo(registry@, views(args@), stdout@));
            return r;
        },
    };
    let selected = if indices.len() == 0 {
        match find_latest_undoable(registry) {
            Some(i) => {
                let v = vec![i];
                assert(v@ =~= seq![i]);
                v
            },
            None => {
                let r = vec![Effect::Print(owned("No undoable transactions found.\n"), stdout.duplicate())];
                assert(effect_models(r@) =~= spec_undo(registry@, views(args@), stdout@));
                return r;
            },
        }
    } else {
        indices
    };
    if !is_cascade {
        let max_target = max_index(selected.as_slice());
        match find_latest_committed(registry) {
            Some(latest) => {
                if latest > max_target {
                    let r = vec![
                        Effect::Print(
                            owned("[CHRONOS] \u{26a0} ERROR: Transaction has newer committed descendants.\n"),
                            stdout.duplicate(),
                        ),
                        Effect::Print(
                            owned("[CHRONOS] Undoing it alone may invalidate later state. Use `undo --cascade <id>`.\n"),
                            stdout.duplicate(),
                        ),
                    ];
                    assert(effect_models(r@) =~= spec_undo(registry@, views(args@), stdout@));
                    return r;
                }
            },
            None => {},
        }
    }
    let order = sort_descending(selected.as_slice());
    let r = vec![Effect::Undo(order)];
    assert(effect_models(r@) =~= spec_undo(registry@, views(args@), stdout@));
    r
}

/// How undoing the transaction at `i` starts: nothing when it cannot be undone (not
/// committed, or without targets, or already rolled back by an earlier step), otherwise
/// the announcement printed before its snapshot is restored.
pub fn undo_announcement(registry: &[Transaction], i: usize) -> (r: Option<String>)
    requires
        i < registry@.len(),
    ensures
        r is None <==> !undoable(registry@[i as int]),
        r matches Some(t) ==> t@ == "\n[CHRONOS] Undoing transaction: "@ + registry@[i as int].id@
            + "\n"@,
{
    if is_undoable(&registry[i]) {
        let mut t = owned("\n[CHRONOS] Undoing transaction: ");
        push_str(&mut t, registry[i].id.as_str());
        push_str(&mut t, "\n");
        Some(t)
    } else {
        None
    }
}

/// A transaction once undone: the same, rolled back.
pub open spec fn rolled_back(t: Transaction) -> Transaction {
    Transaction { status: TransactionStatus::RolledBack, ..t }
}

/// The registry after one step of undoing, at index `i`, whose snapshot was restored
/// (`restored`) or not: only a transaction that can be undone and whose snapshot was
/// restored is rolled back; otherwise nothing changes.
pub open spec fn undo_step(reg: Seq<Transaction>, i: int, restored: bool) -> Seq<Transaction> {
    if 0 <= i < reg.len() && undoable(reg[i]) && restored {
        reg.update(i, rolled_back(reg[i]))
    } else {
        reg
    }
}

/// The registry after undoing the transactions of `order` in turn, with the outcome of
/// each snapshot restore in `restored`.
pub open spec fn undo_all(reg: Seq<Transaction>, order: Seq<usize>, restored: Seq<bool>) -> Seq<
    Transaction,
>
    decreases order.len(),
{
    if order.len() == 0 || restored.len() == 0 {
        reg
    } else {
        undo_step(
            undo_all(reg, order.drop_last(), restored.drop_last()),
            order.last() as int,
            restored.last(),
        )
    }
}

/// Undoing changes no field of a transaction but its status, and a status only from
/// committed to rolled back, for a transaction with targets; the registry keeps its
/// length.  (Refused selections produce no undo steps at all, see [`spec_undo`].)
pub proof fn lemma_undo_changes_only_status(
    reg: Seq<Transaction>,
    order: Seq<usize>,
    restored: Seq<bool>,
)
    ensures
        undo_all(reg, order, restored).len() == reg.len(),
        forall|k: int|
            0 <= k < reg.len() ==> #[trigger] undo_all(reg, order, restored)[k] == reg[k] || (
            undoable(reg[k]) && undo_all(reg, order, restored)[k] == rolled_back(reg[k])),
    decreases order.len(),
{
    if order.len() > 0 && restored.len() > 0 {
        let d = undo_all(reg, order.drop_last(), restored.drop_last());
        lemma_undo_changes_only_status(reg, order.drop_last(), restored.drop_last());
        let r = undo_all(reg, order, restored);
        let i = order.last() as int;
        assert forall|k: int| 0 <= k < reg.len() implies #[trigger] r[k] == reg[k] || (undoable(reg[k])
            && r[k] == rolled_back(reg[k])) by {
            assert(d[k] == reg[k] || (undoable(reg[k]) && d[k] == rolled_back(reg[k])));
            if k == i && 0 <= i < d.len() && undoable(d[i]) && restored.last() {
                assert(d[k] == reg[k]);
            }
        }
    }
}

/// Records the outcome of restoring the snapshot of the transaction at `i`, which can be
/// undone (see [`undo_announcement`]): a success marks it rolled back.  Gives the line to
/// print and whether it succeeded.
pub fn undo_outcome(registry: &mut Vec<Transaction>, i: usize, outcome: Result<(), String>) -> (r: (
    String,
    bool,
))
    requires
        i < old(registry)@.len(),
        undoable(old(registry)@[i as int]),
    ensures
        final(registry)@ == undo_step(old(registry)@, i as int, outcome is Ok),
        r.1 == outcome is Ok,
        final(registry)@.len() == old(registry)@.len(),
        forall|k: int| 0 <= k < old(registry)@.len() && k != i ==> #[trigger] final(registry)@[k]
            == old(registry)@[k],
        outcome is Ok ==> final(registry)@[i as int] == (Transaction {
            status: TransactionStatus::RolledBack,
            ..old(registry)@[i as int]
        }),
        outcome is Err ==> final(registry)@[i as int] == old(registry)@[i as int],
        r.0@ == match outcome {
            Ok(_) => "[CHRONOS] Successfully restored files from snapshot.\n"@,
            Err(e) => "[CHRONOS] \u{26a0} Failed to restore snapshot: "@ + e@ + "\n"@,
        },
{
    let ghost before = registry@;
    match outcome {
        Ok(_) => {
            registry[i].status = TransactionStatus::RolledBack;
            assert(registry@ =~= before.update(i as int, rolled_back(before[i as int])));
            (owned("[CHRONOS] Successfully restored files from snapshot.\n"), true)
        },
        Err(e) => {
            let mut t = owned("[CHRONOS] \u{26a0} Failed to restore snapshot: ");
            push_str(&mut t, e.as_str());
            push_str(&mut t, "\n");
            (t, false)
        },
    }
}

/// What is printed after the chosen transactions were processed: a notice when none of
/// them could be undone.
pub fn undo_summary(restored: usize) -> (r: Option<String>)
    ensures
        r is None <==> restored > 0,
        r matches Some(t) ==> t@ == "No undoable transactions found in selection.\n"@,
{
    if restored == 0 {
        Some(owned("No undoable transactions found in selection.\n"))
    } else {
        None
    }
}

} // verus!
