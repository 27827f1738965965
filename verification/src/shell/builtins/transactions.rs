//! `transactions`: the table of the session's transactions.
use vstd::prelude::*;
use crate::chronos::risk::analyzer::RiskLevel;
use crate::chronos::transaction::manager::{Transaction, TransactionStatus};
use crate::parser::ast::{Redirect, RedirectModel};
use crate::shell::builtins::{effect_models, Effect, EffectModel};
use crate::shell::builtins::undo::no_transactions_text;
use crate::text::{blanks, chars_of, owned, pad_right, push_blanks, push_padded_right, push_str};

verus! {

/// The escape sequence that ends a colored span.
pub open spec fn reset() -> Seq<char> {
    "\x1b[0m"@
}

/// `raw` in `color`, followed by the blanks that pad `raw` to `width` characters, so
/// that the escape sequences do not disturb the alignment.
pub open spec fn colored(color: Seq<char>, raw: Seq<char>, width: nat) -> Seq<char> {
    if raw.len() < width {
        color + raw + reset() + blanks((width - raw.len()) as nat)
    } else {
        color + raw + reset()
    }
}

/// The color and the label under which a status is shown.
pub open spec fn status_label(s: TransactionStatus) -> (Seq<char>, Seq<char>) {
    match s {
        TransactionStatus::Committed => ("\x1b[32m"@, "COMMITTED"@),
        TransactionStatus::RolledBack => ("\x1b[33m"@, "ROLLED BACK"@),
        TransactionStatus::Failed => ("\x1b[31m"@, "FAILED"@),
        _ => ("\x1b[36m"@, "PENDING"@),
    }
}

/// The color and the label under which a risk level is shown.
pub open spec fn risk_label(l: RiskLevel) -> (Seq<char>, Seq<char>) {
    match l {
        RiskLevel::Safe => ("\x1b[32m"@, "Safe"@),
        RiskLevel::ShellStateChange => ("\x1b[36m"@, "Shell State"@),
        RiskLevel::StateChanging => ("\x1b[33m"@, "State Changing"@),
        RiskLevel::Destructive => ("\x1b[31m"@, "Destructive"@),
        RiskLevel::VeryHigh => ("\x1b[1;31m"@, "VERY HIGH"@),
        RiskLevel::Unknown => ("\x1b[35m"@, "Unknown"@),
    }
}

/// The header line and the rule below it.
pub open spec fn table_header() -> Seq<char> {
    " "@ + pad_right("\x1b[1mTRANSACTION ID\x1b[0m"@, 22) + " \u{2502} "@ + pad_right(
        "\x1b[1mSTATUS\x1b[0m"@,
        12,
    ) + " \u{2502} "@ + pad_right("\x1b[1mRISK\x1b[0m"@, 15) + " \u{2502} "@
        + "\x1b[1mCOMMAND\x1b[0m"@ + "\n"@
        + "\u{2500}\u{2500}\u{2500}\u{2500}\u{2500}\u{2500}\u{2500}\u{2500}\u{2500}\u{2500}\u{2500}\u{2500}\u{2500}\u{2500}\u{2500}\u{2500}\u{2500}\u{2500}\u{2500}\u{2500}\u{2500}\u{2500}\u{2500}\u{2500}\u{253c}\u{2500}\u{2500}\u{2500}\u{2500}\u{2500}\u{2500}\u{2500}\u{2500}\u{2500}\u{2500}\u{2500}\u{2500}\u{2500}\u{2500}\u{253c}\u{2500}\u{2500}\u{2500}\u{2500}\u{2500}\u{2500}\u{2500}\u{2500}\u{2500}\u{2500}\u{2500}\u{2500}\u{2500}\u{2500}\u{2500}\u{2500}\u{2500}\u{253c}\u{2500}\u{2500}\u{2500}\u{2500}\u{2500}\u{2500}\u{2500}\u{2500}\u{2500}\u{2500}\u{2500}\u{2500}\u{2500}\u{2500}\u{2500}\u{2500}\u{2500}\u{2500}\u{2500}\u{2500}\u{2500}\u{2500}\u{2500}\u{2500}\u{2500}\u{2500}\u{2500}\u{2500}\u{2500}\u{2500}\u{2500}\u{2500}\u{2500}\u{2500}\u{2500}\u{2500}\n"@
}

/// The row of one transaction: its identifier, status, risk and command line.
pub open spec fn table_row(t: Transaction) -> Seq<char> {
    let (sc, sr) = status_label(t.status);
    let (rc, rr) = risk_label(t.assessment.level);
    " "@ + pad_right(t.id@, 22) + " \u{2502} "@ + colored(sc, sr, 12) + " \u{2502} "@ + colored(
        rc,
        rr,
        15,
    ) + " \u{2502} "@ + t.command_line@ + "\n"@
}

/// The rows of the transactions, oldest first.
pub open spec fn table_rows(reg: Seq<Transaction>) -> Seq<char>
    decreases reg.len(),
{
    if reg.len() == 0 {
        Seq::empty()
    } else {
        table_rows(reg.drop_last()) + table_row(reg.last())
    }
}

/// What `transactions` prints: the table of the registry, or a notice that it is empty.
pub open spec fn spec_transactions(reg: Seq<Transaction>, stdout: RedirectModel) -> Seq<EffectModel> {
    if reg.len() == 0 {
        seq![EffectModel::Print(no_transactions_text(), stdout)]
    } else {
        seq![EffectModel::Print("\n"@ + table_header() + table_rows(reg) + "\n"@, stdout)]
    }
}

fn status_parts(s: TransactionStatus) -> (r: (&'static str, &'static str))
    ensures
        (r.0@, r.1@) == status_label(s),
{
    match s {
        TransactionStatus::Committed => ("\x1b[32m", "COMMITTED"),
        TransactionStatus::RolledBack => ("\x1b[33m", "ROLLED BACK"),
        TransactionStatus::Failed => ("\x1b[31m", "FAILED"),
        _ => ("\x1b[36m", "PENDING"),
    }
}

fn risk_parts(l: RiskLevel) -> (r: (&'static str, &'static str))
    ensures
        (r.0@, r.1@) == risk_label(l),
{
    match l {
        RiskLevel::Safe => ("\x1b[32m", "Safe"),
        RiskLevel::ShellStateChange => ("\x1b[36m", "Shell State"),
        RiskLevel::StateChanging => ("\x1b[33m", "State Changing"),
        RiskLevel::Destructive => ("\x1b[31m", "Destructive"),
        RiskLevel::VeryHigh => ("\x1b[1;31m", "VERY HIGH"),
        RiskLevel::Unknown => ("\x1b[35m", "Unknown"),
    }
}

fn push_colored(s: &mut String, color: &str, raw: &str, width: usize)
    ensures
        final(s)@ == old(s)@ + colored(color@, raw@, width as nat),
{
    let n = chars_of(raw).len();
    push_str(s, color);
    push_str(s, raw);
    push_str(s, "\x1b[0m");
    if n < width {
        push_blanks(s, width - n);
    }
    assert(s@ =~= old(s)@ + colored(color@, raw@, width as nat));
}

fn push_row(s: &mut String, t: &Transaction)
    ensures
        final(s)@ == old(s)@ + table_row(*t),
{
    let (sc, sr) = status_parts(t.status);
    let (rc, rr) = risk_parts(t.assessment.level);
    push_str(s, " ");
    push_padded_right(s, t.id.as_str(), 22);
    push_str(s, " \u{2502} ");
    push_colored(s, sc, sr, 12);
    push_str(s, " \u{2502} ");
    push_colored(s, rc, rr, 15);
    push_str(s, " \u{2502} ");
    push_str(s, t.command_line.as_str());
    push_str(s, "\n");
    assert(s@ =~= old(s)@ + table_row(*t));
}

/// Decides what `transactions` prints (see [`spec_transactions`]); the arguments are
/// not used.
pub fn execute(registry: &[Transaction], args: &[String], stdout: &Redirect) -> (r: Vec<Effect>)
    ensures
        effect_models(r@) == spec_transactions(registry@, stdout@),
{
    let ghost reg = registry@;
    if registry.len() == 0 {
        let r = vec![Effect::Print(owned("No transactions recorded in this session.\n"), stdout.duplicate())];
        assert(effect_models(r@) =~= spec_transactions(reg, stdout@));
        return r;
    }
    let mut out = owned("\n");
    push_str(&mut out, " ");
    push_padded_right(&mut out, "\x1b[1mTRANSACTION ID\x1b[0m", 22);
    push_str(&mut out, " \u{2502} ");
    push_padded_right(&mut out, "\x1b[1mSTATUS\x1b[0m", 12);
    push_str(&mut out, " \u{2502} ");
    push_padded_right(&mut out, "\x1b[1mRISK\x1b[0m", 15);
    push_str(&mut out, " \u{2502} ");
    push_str(&mut out, "\x1b[1mCOMMAND\x1b[0m");
    push_str(&mut out, "\n");
    push_str(
        &mut out,
        "\u{2500}\u{2500}\u{2500}\u{2500}\u{2500}\u{2500}\u{2500}\u{2500}\u{2500}\u{2500}\u{2500}\u{2500}\u{2500}\u{2500}\u{2500}\u{2500}\u{2500}\u{2500}\u{2500}\u{2500}\u{2500}\u{2500}\u{2500}\u{2500}\u{253c}\u{2500}\u{2500}\u{2500}\u{2500}\u{2500}\u{2500}\u{2500}\u{2500}\u{2500}\u{2500}\u{2500}\u{2500}\u{2500}\u{2500}\u{253c}\u{2500}\u{2500}\u{2500}\u{2500}\u{2500}\u{2500}\u{2500}\u{2500}\u{2500}\u{2500}\u{2500}\u{2500}\u{2500}\u{2500}\u{2500}\u{2500}\u{2500}\u{253c}\u{2500}\u{2500}\u{2500}\u{2500}\u{2500}\u{2500}\u{2500}\u{2500}\u{2500}\u{2500}\u{2500}\u{2500}\u{2500}\u{2500}\u{2500}\u{2500}\u{2500}\u{2500}\u{2500}\u{2500}\u{2500}\u{2500}\u{2500}\u{2500}\u{2500}\u{2500}\u{2500}\u{2500}\u{2500}\u{2500}\u{2500}\u{2500}\u{2500}\u{2500}\u{2500}\u{2500}\n",
    );
    let ghost head = out@;
    assert(head =~= "\n"@ + table_header());
    assert(reg.take(0) =~= Seq::<Transaction>::empty());
    let mut i: usize = 0;
    while i < registry.len()
        invariant
            i <= reg.len(),
            reg == registry@,
            out@ == head + table_rows(reg.take(i as int)),
        decreases reg.len() - i,
    {
        push_row(&mut out, &registry[i]);
        assert(reg.take(i + 1).drop_last() =~= reg.take(i as int));
        i = i + 1;
        assert(out@ =~= head + table_rows(reg.take(i as int)));
    }
    assert(reg.take(reg.len() as int) =~= reg);
    push_str(&mut out, "\n");
    let r = vec![Effect::Print(out, stdout.duplicate())];
    assert(effect_models(r@) =~= spec_transactions(reg, stdout@));
    r
}

} // verus!
