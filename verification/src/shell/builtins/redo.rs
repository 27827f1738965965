//! `redo`: run rolled-back transactions again.
use vstd::prelude::*;
use crate::chronos::transaction::manager::{
    ids, lemma_selection_in_bounds, parse_transaction_range, spec_parse_range, Transaction,
    TransactionStatus,
};
use crate::parser::ast::{Redirect, RedirectModel};
use crate::shell::builtins::{effect_models, lemma_effects_push, Effect, EffectModel};
use crate::shell::builtins::undo::no_transactions_text;
use crate::text::{owned, push_str, split_words, views, words};

verus! {

/// The index of the last rolled-back transaction.
pub open spec fn latest_rolled_back(reg: Seq<Transaction>) -> Option<usize>
    decreases reg.len(),
{
    if reg.len() == 0 {
        None
    } else if reg.last().status == TransactionStatus::RolledBack {
        Some((reg.len() - 1) as usize)
    } else {
        latest_rolled_back(reg.drop_last())
    }
}

/// The rolled-back transactions with index in `lo..end`, oldest first.
pub open spec fn rolled_back_between(reg: Seq<Transaction>, lo: int, end: int) -> Seq<usize>
    decreases end - lo,
{
    if end <= lo {
        Seq::empty()
    } else {
        let rest = rolled_back_between(reg, lo, end - 1);
        if reg[end - 1].status == TransactionStatus::RolledBack {
            rest.push((end - 1) as usize)
        } else {
            rest
        }
    }
}

pub open spec fn redo_text(id: Seq<char>) -> Seq<char> {
    "\n[CHRONOS] Redoing transaction: "@ + id + "\n"@
}

/// For each chosen transaction: announce it, then run its command line again (split
/// at whitespace).
pub open spec fn redo_effects(reg: Seq<Transaction>, sel: Seq<usize>, stdout: RedirectModel) -> Seq<
    EffectModel,
>
    decreases sel.len(),
{
    if sel.len() == 0 {
        Seq::empty()
    } else {
        let t = reg[sel.last() as int];
        redo_effects(reg, sel.drop_last(), stdout).push(
            EffectModel::Print(redo_text(t.id@), stdout),
        ).push(EffectModel::Run(words(t.command_line@)))
    }
}

/// What `redo ARGS` does: without a named transaction the last rolled-back one runs
/// again; otherwise every rolled-back transaction in the selected span does, oldest first.
pub open spec fn spec_redo(reg: Seq<Transaction>, args: Seq<Seq<char>>, stdout: RedirectModel) -> Seq<
    EffectModel,
> {
    if reg.len() == 0 {
        seq![EffectModel::Print(no_transactions_text(), stdout)]
    } else {
        match spec_parse_range(args, ids(reg)) {
            Err(e) => seq![EffectModel::Print("[CHRONOS] \u{26a0} "@ + e + "\n"@, stdout)],
            Ok(None) => match latest_rolled_back(reg) {
                Some(i) => redo_effects(reg, seq![i], stdout),
                None => seq![
                    EffectModel::Print("No rolled back transactions found to redo.\n"@, stdout),
                ],
            },
            Ok(Some((lo, hi))) => {
                let sel = rolled_back_between(reg, lo as int, hi + 1);
                if sel.len() == 0 {
                    seq![
                        EffectModel::Print(
                            "No rolled back transactions found in that range.\n"@,
                            stdout,
                        ),
                    ]
                } else {
                    redo_effects(reg, sel, stdout)
                }
            },
        }
    }
}

fn push_redo(r: &mut Vec<Effect>, t: &Transaction, stdout: &Redirect)
    ensures
        effect_models(final(r)@) == effect_models(old(r)@).push(
            EffectModel::Print(redo_text(t.id@), stdout@),
        ).push(EffectModel::Run(words(t.command_line@))),
{
    let mut text = owned("\n[CHRONOS] Redoing transaction: ");
    push_str(&mut text, t.id.as_str());
    push_str(&mut text, "\n");
    let e1 = Effect::Print(text, stdout.duplicate());
    proof {
        lemma_effects_push(r@, e1);
    }
    r.push(e1);
    let e2 = Effect::Run(split_words(t.command_line.as_str()));
    proof {
        lemma_effects_push(r@, e2);
    }
    r.push(e2);
}

/// Decides what `redo ARGS` does with the transaction registry (see [`spec_redo`]).
pub fn execute(registry: &[Transaction], args: &[String], stdout: &Redirect) -> (r: Vec<Effect>)
    ensures
        effect_models(r@) == spec_redo(registry@, views(args@), stdout@),
{
    let ghost reg = registry@;
    if registry.len() == 0 {
        let r = vec![Effect::Print(owned("No transactions recorded in this session.\n"), stdout.duplicate())];
        assert(effect_models(r@) =~= spec_redo(reg, views(args@), stdout@));
        return r;
    }
    proof {
        lemma_selection_in_bounds(views(args@), ids(reg));
    }
    match parse_transaction_range(args, registry) {
        Err(e) => {
            let mut text = owned("[CHRONOS] \u{26a0} ");
            push_str(&mut text, e.as_str());
            push_str(&mut text, "\n");
            let r = vec![Effect::Print(text, stdout.duplicate())];
            assert(effect_models(r@) =~= spec_redo(reg, views(args@), stdout@));
            r
        },
        Ok(None) => {
            let mut i = registry.len();
            assert(reg.take(reg.len() as int) =~= reg);
            while i > 0
                invariant
                    i <= reg.len(),
                    reg == registry@,
                    reg.len() > 0,
                    spec_parse_range(views(args@), ids(reg)) == Ok::<
                        Option<(usize, usize)>,
                        Seq<char>,
                    >(None),
                    latest_rolled_back(reg) == latest_rolled_back(reg.take(i as int)),
                decreases i,
            {
                let ghost t = reg.take(i as int);
                assert(t.last() == reg[i - 1]);
                if registry[i - 1].status == TransactionStatus::RolledBack {
                    let mut r: Vec<Effect> = Vec::new();
                    assert(effect_models(r@) =~= Seq::<EffectModel>::empty());
                    push_redo(&mut r, &registry[i - 1], stdout);
                    proof {
                        let sel = seq![(i - 1) as usize];
                        assert(latest_rolled_back(t) == Some((i - 1) as usize));
                        assert(sel.drop_last() =~= Seq::<usize>::empty());
                        assert(sel.last() == (i - 1) as usize);
                        assert(redo_effects(reg, sel.drop_last(), stdout@) =~= Seq::<EffectModel>::empty());
                        assert(effect_models(r@) =~= redo_effects(reg, sel, stdout@));
                    }
                    return r;
                }
                assert(t.drop_last() =~= reg.take(i - 1));
                i = i - 1;
            }
            assert(reg.take(0) =~= Seq::<Transaction>::empty());
            let r = vec![
                Effect::Print(owned("No rolled back transactions found to redo.\n"), stdout.duplicate()),
            ];
            assert(effect_models(r@) =~= spec_redo(reg, views(args@), stdout@));
            r
        },
        Ok(Some((lo, hi))) => {
            let mut r: Vec<Effect> = Vec::new();
            let mut i = lo;
            let ghost mut sel: Seq<usize> = Seq::empty();
            assert(effect_models(r@) =~= redo_effects(reg, sel, stdout@));
            while i <= hi
                invariant
                    lo <= i <= hi + 1,
                    hi < reg.len(),
                    reg == registry@,
                    sel == rolled_back_between(reg, lo as int, i as int),
                    effect_models(r@) == redo_effects(reg, sel, stdout@),
                decreases hi + 1 - i,
            {
                if registry[i].status == TransactionStatus::RolledBack {
                    push_redo(&mut r, &registry[i], stdout);
                    proof {
                        let s2 = sel.push(i);
                        assert(s2.drop_last() =~= sel);
                        sel = s2;
                    }
                }
                i = i + 1;
            }
            if r.len() == 0 {
                proof {
                    if sel.len() > 0 {
                        assert(effect_models(r@).len() > 0);
                    }
                }
                let r2 = vec![
                    Effect::Print(
                        owned("No rolled back transactions found in that range.\n"),
                        stdout.duplicate(),
                    ),
                ];
                assert(effect_models(r2@) =~= spec_redo(reg, views(args@), stdout@));
                return r2;
            }
            proof {
                if sel.len() == 0 {
                    assert(effect_models(r@) =~= Seq::<EffectModel>::empty());
                }
            }
            r
        },
    }
}

proof fn lemma_span_holds_rolled_back(reg: Seq<Transaction>, lo: int, end: int, k: int)
    requires
        lo <= k < end,
        end <= reg.len(),
        0 <= k,
        reg[k].status == TransactionStatus::RolledBack,
    ensures
        rolled_back_between(reg, lo, end).contains(k as usize),
    decreases end - lo,
{
    let rest = rolled_back_between(reg, lo, end - 1);
    if k == end - 1 {
        assert(rest.push((end - 1) as usize)[rest.len() as int] == k as usize);
    } else {
        lemma_span_holds_rolled_back(reg, lo, end - 1, k);
        let j = choose|j: int| 0 <= j < rest.len() && rest[j] == k as usize;
        if reg[end - 1].status == TransactionStatus::RolledBack {
            assert(rest.push((end - 1) as usize)[j] == k as usize);
        }
    }
}

proof fn lemma_redo_effects_run(reg: Seq<Transaction>, sel: Seq<usize>, stdout: RedirectModel, k: usize)
    requires
        sel.contains(k),
    ensures
        redo_effects(reg, sel, stdout).contains(
            EffectModel::Print(redo_text(reg[k as int].id@), stdout),
        ),
        redo_effects(reg, sel, stdout).contains(EffectModel::Run(words(reg[k as int].command_line@))),
    decreases sel.len(),
{
    let rest = redo_effects(reg, sel.drop_last(), stdout);
    let t = reg[sel.last() as int];
    let p = EffectModel::Print(redo_text(t.id@), stdout);
    let q = EffectModel::Run(words(t.command_line@));
    let all = rest.push(p).push(q);
    if sel.last() == k {
        assert(all[rest.len() as int] == p);
        assert(all[rest.len() + 1int] == q);
    } else {
        let j = choose|j: int| 0 <= j < sel.len() && sel[j] == k;
        assert(sel.drop_last()[j] == k);
        lemma_redo_effects_run(reg, sel.drop_last(), stdout, k);
        let a = choose|a: int|
            0 <= a < rest.len() && rest[a] == EffectModel::Print(redo_text(reg[k as int].id@), stdout);
        let b = choose|b: int|
            0 <= b < rest.len() && rest[b] == EffectModel::Run(words(reg[k as int].command_line@));
        assert(all[a] == rest[a]);
        assert(all[b] == rest[b]);
    }
}

/// Every rolled-back transaction of the selected span, its last one included, is run
/// again and announced: in particular `redo ID` of one rolled-back transaction runs it.
pub proof fn lemma_redo_runs_span(
    reg: Seq<Transaction>,
    args: Seq<Seq<char>>,
    stdout: RedirectModel,
    lo: usize,
    hi: usize,
    k: int,
)
    requires
        spec_parse_range(args, ids(reg)) == Ok::<Option<(usize, usize)>, Seq<char>>(Some((lo, hi))),
        lo <= k <= hi,
        k < reg.len(),
        reg[k].status == TransactionStatus::RolledBack,
    ensures
        spec_redo(reg, args, stdout).contains(EffectModel::Run(words(reg[k].command_line@))),
        spec_redo(reg, args, stdout).contains(EffectModel::Print(redo_text(reg[k].id@), stdout)),
{
    let sel = rolled_back_between(reg, lo as int, hi + 1);
    lemma_selection_in_bounds(args, ids(reg));
    assert(ids(reg).len() == reg.len());
    lemma_span_holds_rolled_back(reg, lo as int, hi + 1, k);
    lemma_redo_effects_run(reg, sel, stdout, k as usize);
}

} // verus!
