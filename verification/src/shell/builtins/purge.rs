//! `purge`: forget every transaction and delete the snapshots.
use vstd::prelude::*;
use crate::chronos::transaction::manager::Transaction;
use crate::parser::ast::Redirect;
use crate::shell::builtins::{effect_models, Effect, EffectModel};

verus! {

/// Empties the registry; the caller then saves it and deletes the snapshots.
pub fn execute(registry: &mut Vec<Transaction>, stdout: &Redirect) -> (r: Vec<Effect>)
    ensures
        final(registry)@ == Seq::<Transaction>::empty(),
        effect_models(r@) == seq![EffectModel::SaveTransactions, EffectModel::PurgeSnapshots(stdout@)],
{
    registry.clear();
    let r = vec![Effect::SaveTransactions, Effect::PurgeSnapshots(stdout.duplicate())];
    assert(effect_models(r@) =~= seq![EffectModel::SaveTransactions, EffectModel::PurgeSnapshots(stdout@)]);
    r
}

/// What is printed once the snapshots were deleted, or their deletion failed.
pub fn purge_report(outcome: Result<(), String>) -> (r: String)
    ensures
        r@ == match outcome {
            Ok(_) => "[CHRONOS] Transaction history and physical snapshots successfully purged.\n"@,
            Err(e) => "[CHRONOS] \u{26a0} Failed to delete physical snapshots: "@ + e@ + "\n"@,
        },
{
    match outcome {
        Ok(_) => crate::text::owned(
            "[CHRONOS] Transaction history and physical snapshots successfully purged.\n",
        ),
        Err(e) => {
            let mut t = crate::text::owned("[CHRONOS] \u{26a0} Failed to delete physical snapshots: ");
            crate::text::push_str(&mut t, e.as_str());
            crate::text::push_str(&mut t, "\n");
            t
        },
    }
}

} // verus!
