//! Transactions: the record of each state-changing command and the selection of
//! transactions to undo or redo.
use vstd::prelude::*;
use crate::chronos::risk::analyzer::RiskAssessment;
use crate::chronos::state::tracker::FsTarget;
use crate::text::{decimal, has_prefix, owned, push_char, push_decimal, push_str, starts_with, str_eq, views};

verus! {

/// The life cycle of a transaction.
#[derive(Clone, Copy, Debug, PartialEq, Eq, Structural)]
pub enum TransactionStatus {
    Pending,
    Prepared,
    Executing,
    Committed,
    RolledBack,
    Failed,
}

/// One command run under the shell's protection.
pub struct Transaction {
    pub id: String,
    pub timestamp: u128,
    pub command_line: String,
    pub chunk: Vec<String>,
    pub assessment: RiskAssessment,
    pub targets: Vec<FsTarget>,
    pub status: TransactionStatus,
}

/// The identifier of the transaction created at `timestamp` (milliseconds since the
/// Unix epoch) as the `sequence`-th of the session: `tx_<timestamp>_<sequence>`.
pub open spec fn tx_id(timestamp: nat, sequence: nat) -> Seq<char> {
    ("tx_"@ + decimal(timestamp)).push('_') + decimal(sequence)
}

impl Transaction {
    /// A pending transaction for a command line.
    pub fn new(
        command_line: String,
        chunk: Vec<String>,
        assessment: RiskAssessment,
        targets: Vec<FsTarget>,
        timestamp: u128,
        sequence: usize,
    ) -> (tx: Transaction)
        ensures
            tx.id@ == tx_id(timestamp as nat, sequence as nat),
            tx.timestamp == timestamp,
            tx.command_line == command_line,
            tx.chunk == chunk,
            tx.assessment == assessment,
            tx.targets == targets,
            tx.status == TransactionStatus::Pending,
    {
        let mut id = owned("tx_");
        push_decimal(&mut id, timestamp);
        push_char(&mut id, '_');
        push_decimal(&mut id, sequence as u128);
        Transaction {
            id,
            timestamp,
            command_line,
            chunk,
            assessment,
            targets,
            status: TransactionStatus::Pending,
        }
    }

    /// Moves the transaction to `new_status`.
    pub fn transition_to(&mut self, new_status: TransactionStatus)
        ensures
            final(self).status == new_status,
            final(self).id == old(self).id,
            final(self).timestamp == old(self).timestamp,
            final(self).command_line == old(self).command_line,
            final(self).chunk == old(self).chunk,
            final(self).assessment == old(self).assessment,
            final(self).targets == old(self).targets,
    {
        self.status = new_status;
    }
}

/// The identifiers of the transactions of a registry, in order.
pub open spec fn ids(registry: Seq<Transaction>) -> Seq<Seq<char>> {
    registry.map_values(|t: Transaction| t.id@)
}

/// The arguments that name transactions (those starting with `tx_`), in order.
pub open spec fn named_ids(args: Seq<Seq<char>>) -> Seq<Seq<char>>
    decreases args.len(),
{
    if args.len() == 0 {
        Seq::empty()
    } else {
        let rest = named_ids(args.drop_last());
        if has_prefix(args.last(), "tx_"@) {
            rest.push(args.last())
        } else {
            rest
        }
    }
}

/// The position of the first transaction with identifier `id`.
pub open spec fn first_position(ids: Seq<Seq<char>>, id: Seq<char>) -> Option<nat>
    decreases ids.len(),
{
    if ids.len() == 0 {
        None
    } else if ids[0] == id {
        Some(0)
    } else {
        match first_position(ids.drop_first(), id) {
            Some(p) => Some(p + 1),
            None => None,
        }
    }
}

/// The positions of the named transactions, or the first name that has none.
pub open spec fn positions(ids: Seq<Seq<char>>, names: Seq<Seq<char>>) -> Result<Seq<usize>, Seq<char>>
    decreases names.len(),
{
    if names.len() == 0 {
        Ok(Seq::empty())
    } else {
        match positions(ids, names.drop_last()) {
            Err(e) => Err(e),
            Ok(ps) => match first_position(ids, names.last()) {
                Some(p) => Ok(ps.push(p as usize)),
                None => Err(names.last()),
            },
        }
    }
}

/// The indices `lo, lo + 1, ..., hi`.
pub open spec fn index_range(lo: int, hi: int) -> Seq<usize> {
    Seq::new((hi - lo + 1) as nat, |k: int| (lo + k) as usize)
}

pub open spec fn not_found_message(id: Seq<char>) -> Seq<char> {
    "Transaction ID "@ + id + " not found."@
}

pub open spec fn cascade_message() -> Seq<char> {
    "--cascade requires exactly one transaction ID."@
}

pub open spec fn range_message() -> Seq<char> {
    "--range requires exactly two transaction IDs."@
}

/// The transactions that the arguments of `undo`/`redo` select, by index: none when no
/// argument names one; every transaction from the named one on with `--cascade`; every
/// transaction between the two named ones with `--range`; the named ones otherwise.
pub open spec fn spec_parse_targets(args: Seq<Seq<char>>, ids: Seq<Seq<char>>) -> Result<
    Seq<usize>,
    Seq<char>,
> {
    let names = named_ids(args);
    if names.len() == 0 {
        Ok(Seq::empty())
    } else {
        match positions(ids, names) {
            Err(id) => Err(not_found_message(id)),
            Ok(ps) => if args.contains("--cascade"@) {
                if ps.len() != 1 {
                    Err(cascade_message())
                } else {
                    Ok(index_range(ps[0] as int, ids.len() - 1))
                }
            } else if args.contains("--range"@) {
                if ps.len() != 2 {
                    Err(range_message())
                } else {
                    let lo = if ps[0] <= ps[1] { ps[0] } else { ps[1] };
                    let hi = if ps[0] <= ps[1] { ps[1] } else { ps[0] };
                    Ok(index_range(lo as int, hi as int))
                }
            } else {
                Ok(ps)
            },
        }
    }
}

proof fn lemma_first_position(ids: Seq<Seq<char>>, id: Seq<char>)
    ensures
        match first_position(ids, id) {
            Some(p) => p < ids.len() && ids[p as int] == id && forall|k: int| 0 <= k < p ==> ids[k] != id,
            None => forall|k: int| 0 <= k < ids.len() ==> ids[k] != id,
        },
    decreases ids.len(),
{
    if ids.len() > 0 && ids[0] != id {
        let t = ids.drop_first();
        lemma_first_position(t, id);
        assert forall|k: int| 1 <= k < ids.len() implies ids[k] == t[k - 1] by {}
    }
}

proof fn lemma_positions_bounded(ids: Seq<Seq<char>>, names: Seq<Seq<char>>)
    ensures
        positions(ids, names) matches Ok(ps) ==> ps.len() == names.len() && forall|k: int|
            0 <= k < ps.len() ==> ps[k] < ids.len(),
    decreases names.len(),
{
    if names.len() > 0 {
        lemma_positions_bounded(ids, names.drop_last());
        lemma_first_position(ids, names.last());
    }
}

/// Whether `args` holds the argument `flag`.
fn has_arg(args: &[String], flag: &str) -> (b: bool)
    ensures
        b == views(args@).contains(flag@),
{
    let mut i: usize = 0;
    while i < args.len()
        invariant
            i <= args@.len(),
            forall|k: int| 0 <= k < i ==> args@[k]@ != flag@,
        decreases args.len() - i,
    {
        if str_eq(args[i].as_str(), flag) {
            assert(views(args@)[i as int] == flag@);
            return true;
        }
        i = i + 1;
    }
    assert forall|k: int| 0 <= k < views(args@).len() implies views(args@)[k] != flag@ by {
        assert(views(args@)[k] == args@[k]@);
    }
    false
}

/// The position of the first transaction whose identifier is `id`.
fn find_transaction(registry: &[Transaction], id: &str) -> (r: Option<usize>)
    ensures
        match r {
            Some(p) => first_position(ids(registry@), id@) == Some(p as nat),
            None => first_position(ids(registry@), id@) is None,
        },
{
    proof {
        lemma_first_position(ids(registry@), id@);
    }
    let mut i: usize = 0;
    while i < registry.len()
        invariant
            i <= registry@.len(),
            forall|k: int| 0 <= k < i ==> registry@[k].id@ != id@,
            match first_position(ids(registry@), id@) {
                Some(p) => p < registry@.len() && ids(registry@)[p as int] == id@ && forall|k: int|
                    0 <= k < p ==> ids(registry@)[k] != id@,
                None => forall|k: int| 0 <= k < registry@.len() ==> ids(registry@)[k] != id@,
            },
        decreases registry.len() - i,
    {
        if str_eq(registry[i].id.as_str(), id) {
            assert(ids(registry@)[i as int] == id@);
            return Some(i);
        }
        assert(ids(registry@)[i as int] == registry@[i as int].id@);
        i = i + 1;
    }
    None
}

/// Selects transactions by the arguments of `undo` or `redo` (see [`spec_parse_targets`]).
pub fn parse_transaction_targets(args: &[String], registry: &[Transaction]) -> (r: Result<
    Vec<usize>,
    String,
>)
    ensures
        match r {
            Ok(v) => spec_parse_targets(views(args@), ids(registry@)) == Ok::<Seq<usize>, Seq<char>>(v@),
            Err(e) => spec_parse_targets(views(args@), ids(registry@)) == Err::<Seq<usize>, Seq<char>>(e@),
        },
{
    let ghost a = views(args@);
    let is_cascade = has_arg(args, "--cascade");
    let is_range = has_arg(args, "--range");
    let mut names: Vec<String> = Vec::new();
    let mut i: usize = 0;
    assert(views(names@) =~= named_ids(a.take(0)));
    while i < args.len()
        invariant
            i <= args@.len(),
            a == views(args@),
            views(names@) == named_ids(a.take(i as int)),
        decreases args.len() - i,
    {
        let ghost t = a.take(i + 1);
        assert(t.drop_last() =~= a.take(i as int));
        assert(t.last() == args@[i as int]@);
        if starts_with(args[i].as_str(), "tx_") {
            let c = args[i].clone();
            proof {
                crate::text::lemma_views_push(names@, c);
            }
            names.push(c);
        }
        i = i + 1;
    }
    assert(a.take(args@.len() as int) =~= a);
    if names.len() == 0 {
        return Ok(Vec::new());
    }
    let mut indices: Vec<usize> = Vec::new();
    let mut j: usize = 0;
    assert(views(names@).take(0) =~= Seq::<Seq<char>>::empty());
    while j < names.len()
        invariant
            j <= names@.len(),
            names@.len() > 0,
            views(names@) == named_ids(views(args@)),
            positions(ids(registry@), views(names@).take(j as int)) == Ok::<Seq<usize>, Seq<char>>(
                indices@,
            ),
        decreases names.len() - j,
    {
        let ghost t = views(names@).take(j + 1);
        assert(t.drop_last() =~= views(names@).take(j as int));
        assert(t.last() == names@[j as int]@);
        match find_transaction(registry, names[j].as_str()) {
            Some(p) => {
                indices.push(p);
            },
            None => {
                let mut msg = owned("Transaction ID ");
                push_str(&mut msg, names[j].as_str());
                push_str(&mut msg, " not found.");
                proof {
                    lemma_positions_prefix_err(ids(registry@), views(names@), j as int);
                }
                return Err(msg);
            },
        }
        j = j + 1;
    }
    assert(views(names@).take(names@.len() as int) =~= views(names@));
    proof {
        lemma_positions_bounded(ids(registry@), views(names@));
    }
    if is_cascade {
        if indices.len() != 1 {
            return Err(owned("--cascade requires exactly one transaction ID."));
        }
        let start = indices[0];
        let rl = registry.len();
        let end = rl - 1;
        let mut out: Vec<usize> = Vec::new();
        let mut k = start;
        while k <= end
            invariant
                start <= k <= end + 1,
                end < rl,
                rl == registry@.len(),
                out@ == index_range(start as int, k - 1),
            decreases end + 1 - k,
        {
            out.push(k);
            k = k + 1;
            assert(out@ =~= index_range(start as int, k - 1));
        }
        assert(ids(registry@).len() == registry@.len());
        return Ok(out);
    }
    if is_range {
        if indices.len() != 2 {
            return Err(owned("--range requires exactly two transaction IDs."));
        }
        let lo = if indices[0] <= indices[1] { indices[0] } else { indices[1] };
        let hi = if indices[0] <= indices[1] { indices[1] } else { indices[0] };
        let mut out: Vec<usize> = Vec::new();
        let rl = registry.len();
        let mut k = lo;
        while k <= hi
            invariant
                lo <= k <= hi + 1,
                hi < rl,
                rl == registry@.len(),
                out@ == index_range(lo as int, k - 1),
            decreases hi + 1 - k,
        {
            out.push(k);
            k = k + 1;
            assert(out@ =~= index_range(lo as int, k - 1));
        }
        return Ok(out);
    }
    Ok(indices)
}

proof fn lemma_positions_prefix_err(ids: Seq<Seq<char>>, names: Seq<Seq<char>>, j: int)
    requires
        0 <= j < names.len(),
        positions(ids, names.take(j)) is Ok,
        first_position(ids, names[j]) is None,
    ensures
        positions(ids, names) == Err::<Seq<usize>, Seq<char>>(names[j]),
    decreases names.len(),
{
    if j < names.len() - 1 {
        let d = names.drop_last();
        assert(d.take(j) =~= names.take(j));
        lemma_positions_prefix_err(ids, d, j);
    } else {
        assert(names.drop_last() =~= names.take(j));
    }
}

/// The least element of a non-empty sequence.
pub open spec fn seq_min(v: Seq<usize>) -> usize
    decreases v.len(),
{
    if v.len() <= 1 {
        v[0]
    } else {
        let m = seq_min(v.drop_last());
        if v.last() < m {
            v.last()
        } else {
            m
        }
    }
}

/// The greatest element of a non-empty sequence.
pub open spec fn seq_max(v: Seq<usize>) -> usize
    decreases v.len(),
{
    if v.len() <= 1 {
        v[0]
    } else {
        let m = seq_max(v.drop_last());
        if v.last() > m {
            v.last()
        } else {
            m
        }
    }
}

/// The span of the transactions that the arguments select: `None` when no argument
/// names one, else the least and the greatest selected index.
pub open spec fn spec_parse_range(args: Seq<Seq<char>>, ids: Seq<Seq<char>>) -> Result<
    Option<(usize, usize)>,
    Seq<char>,
> {
    match spec_parse_targets(args, ids) {
        Err(e) => Err(e),
        Ok(v) => if v.len() == 0 {
            Ok(None)
        } else {
            Ok(Some((seq_min(v), seq_max(v))))
        },
    }
}

/// The span of the transactions that the arguments of `redo` select.
pub fn parse_transaction_range(args: &[String], registry: &[Transaction]) -> (r: Result<
    Option<(usize, usize)>,
    String,
>)
    ensures
        match r {
            Ok(span) => spec_parse_range(views(args@), ids(registry@)) == Ok::<
                Option<(usize, usize)>,
                Seq<char>,
            >(span),
            Err(e) => spec_parse_range(views(args@), ids(registry@)) == Err::<
                Option<(usize, usize)>,
                Seq<char>,
            >(e@),
        },
{
    match parse_transaction_targets(args, registry) {
        Err(e) => Err(e),
        Ok(v) => {
            if v.len() == 0 {
                return Ok(None);
            }
            let mut lo = v[0];
            let mut hi = v[0];
            let mut i: usize = 1;
            assert(v@.take(1).drop_last().len() == 0);
            assert(v@.take(1) =~= seq![v@[0]]);
            while i < v.len()
                invariant
                    1 <= i <= v@.len(),
                    lo == seq_min(v@.take(i as int)),
                    hi == seq_max(v@.take(i as int)),
                decreases v.len() - i,
            {
                let ghost t = v@.take(i + 1);
                assert(t.drop_last() =~= v@.take(i as int));
                if v[i] < lo {
                    lo = v[i];
                }
                if v[i] > hi {
                    hi = v[i];
                }
                i = i + 1;
            }
            assert(v@.take(v@.len() as int) =~= v@);
            Ok(Some((lo, hi)))
        },
    }
}

/// A transaction left behind by a crash: it was prepared or executing.
pub open spec fn incomplete(s: TransactionStatus) -> bool {
    s == TransactionStatus::Executing || s == TransactionStatus::Prepared
}

/// The incomplete transactions of a registry, with their index and status, in order.
pub open spec fn incomplete_entries(registry: Seq<Transaction>) -> Seq<(usize, TransactionStatus)>
    decreases registry.len(),
{
    if registry.len() == 0 {
        Seq::empty()
    } else {
        let rest = incomplete_entries(registry.drop_last());
        if incomplete(registry.last().status) {
            rest.push(((registry.len() - 1) as usize, registry.last().status))
        } else {
            rest
        }
    }
}

/// The registry after crash recovery: every incomplete transaction rolled back.
pub open spec fn recovered(t: Transaction) -> Transaction {
    if incomplete(t.status) {
        Transaction { status: TransactionStatus::RolledBack, ..t }
    } else {
        t
    }
}

/// After crash recovery no transaction is left prepared or executing, and the others
/// keep their status.
pub proof fn lemma_recovery_completes(t: Transaction)
    ensures
        !incomplete(recovered(t).status),
        !incomplete(t.status) ==> recovered(t) == t,
        incomplete(t.status) ==> recovered(t).status == TransactionStatus::RolledBack,
{
}

/// Marks every transaction that a crash left prepared or executing as rolled back, and
/// returns those transactions (index and former status), whose snapshots the caller
/// then restores.
pub fn recover_crashed_transactions(registry: &mut Vec<Transaction>) -> (found: Vec<
    (usize, TransactionStatus),
>)
    ensures
        final(registry)@.len() == old(registry)@.len(),
        forall|k: int|
            0 <= k < old(registry)@.len() ==> #[trigger] final(registry)@[k] == recovered(
                old(registry)@[k],
            ),
        found@ == incomplete_entries(old(registry)@),
{
    let ghost original = registry@;
    let mut found: Vec<(usize, TransactionStatus)> = Vec::new();
    let mut i: usize = 0;
    assert(original.take(0) =~= Seq::<Transaction>::empty());
    while i < registry.len()
        invariant
            registry@.len() == original.len(),
            i <= original.len(),
            forall|k: int| 0 <= k < i ==> #[trigger] registry@[k] == recovered(original[k]),
            forall|k: int| i <= k < original.len() ==> #[trigger] registry@[k] == original[k],
            found@ == incomplete_entries(original.take(i as int)),
        decreases original.len() - i,
    {
        let ghost t = original.take(i + 1);
        assert(t.drop_last() =~= original.take(i as int));
        let status = registry[i].status;
        if status == TransactionStatus::Executing || status == TransactionStatus::Prepared {
            found.push((i, status));
            registry[i].status = TransactionStatus::RolledBack;
        }
        i = i + 1;
    }
    assert(original.take(original.len() as int) =~= original);
    found
}

/// The name under which a status is shown.
pub open spec fn status_name(s: TransactionStatus) -> Seq<char> {
    match s {
        TransactionStatus::Pending => "Pending"@,
        TransactionStatus::Prepared => "Prepared"@,
        TransactionStatus::Executing => "Executing"@,
        TransactionStatus::Committed => "Committed"@,
        TransactionStatus::RolledBack => "RolledBack"@,
        TransactionStatus::Failed => "Failed"@,
    }
}

fn status_text(s: TransactionStatus) -> (r: &'static str)
    ensures
        r@ == status_name(s),
{
    match s {
        TransactionStatus::Pending => "Pending",
        TransactionStatus::Prepared => "Prepared",
        TransactionStatus::Executing => "Executing",
        TransactionStatus::Committed => "Committed",
        TransactionStatus::RolledBack => "RolledBack",
        TransactionStatus::Failed => "Failed",
    }
}

/// The line that reports an incomplete transaction found at start-up.
pub fn crash_notice(id: &str, status: TransactionStatus) -> (r: String)
    ensures
        r@ == "[CHRONOS] \u{26a0} CRASH RECOVERY: Found incomplete transaction "@ + id@ + " (was "@
            + status_name(status) + ")\n"@,
{
    let mut r = owned("[CHRONOS] \u{26a0} CRASH RECOVERY: Found incomplete transaction ");
    push_str(&mut r, id);
    push_str(&mut r, " (was ");
    push_str(&mut r, status_text(status));
    push_str(&mut r, ")\n");
    r
}

/// The line that reports the outcome of restoring an incomplete transaction's
/// snapshot: success, or the failure with its message.
pub fn restore_notice(id: &str, outcome: Result<(), String>) -> (r: String)
    ensures
        r@ == match outcome {
            Ok(_) => "[CHRONOS] Successfully rolled back partial state for "@ + id@ + ".\n"@,
            Err(e) => "[CHRONOS] \u{26a0} Failed to restore partial state for "@ + id@ + ": "@ + e@
                + "\n"@,
        },
{
    match outcome {
        Ok(_) => {
            let mut r = owned("[CHRONOS] Successfully rolled back partial state for ");
            push_str(&mut r, id);
            push_str(&mut r, ".\n");
            r
        },
        Err(e) => {
            let mut r = owned("[CHRONOS] \u{26a0} Failed to restore partial state for ");
            push_str(&mut r, id);
            push_str(&mut r, ": ");
            push_str(&mut r, e.as_str());
            push_str(&mut r, "\n");
            r
        },
    }
}

/// The transactions of the session, oldest first.
pub fn transaction_registry(state: &crate::shell::state::ShellState) -> (r: &Vec<Transaction>)
    ensures
        r == state.transactions,
{
    &state.transactions
}

/// Adds a finished transaction to the registry.
pub fn record_transaction(registry: &mut Vec<Transaction>, tx: Transaction)
    ensures
        final(registry)@ == old(registry)@.push(tx),
{
    registry.push(tx);
}

/// `a` comes before `b` in descending order.
pub open spec fn at_least(a: usize, b: usize) -> bool {
    a >= b
}

/// The indices in descending order.
pub open spec fn descending(v: Seq<usize>) -> Seq<usize> {
    v.sort_by(|a: usize, b: usize| at_least(a, b))
}

proof fn lemma_at_least_total()
    ensures
        vstd::relations::total_ordering(|a: usize, b: usize| at_least(a, b)),
{
}

/// Sorts indices in descending order.
pub fn sort_descending(v: &[usize]) -> (r: Vec<usize>)
    ensures
        r@ == descending(v@),
{
    let ghost leq = |a: usize, b: usize| at_least(a, b);
    let mut r: Vec<usize> = Vec::new();
    let mut i: usize = 0;
    assert(v@.take(0) =~= Seq::<usize>::empty());
    while i < v.len()
        invariant
            i <= v@.len(),
            leq == (|a: usize, b: usize| at_least(a, b)),
            vstd::relations::sorted_by(r@, leq),
            r@.to_multiset() == v@.take(i as int).to_multiset(),
        decreases v.len() - i,
    {
        let x = v[i];
        let mut p: usize = 0;
        while p < r.len() && r[p] >= x
            invariant
                p <= r@.len(),
                forall|k: int| 0 <= k < p ==> r@[k] >= x,
            decreases r.len() - p,
        {
            p = p + 1;
        }
        let ghost before = r@;
        r.insert(p, x);
        proof {
            assert(r@ == before.insert(p as int, x));
            assert forall|a: int, b: int| 0 <= a < b < r@.len() implies #[trigger] leq(r@[a], r@[b]) by {
                if b < p {
                    assert(r@[a] == before[a] && r@[b] == before[b]);
                    assert(leq(before[a], before[b]));
                } else if b == p {
                    assert(r@[a] == before[a]);
                } else if a == p {
                    assert(r@[b] == before[b - 1]);
                    if b - 1 > p {
                        assert(leq(before[p as int], before[b - 1]));
                    }
                } else if a < p {
                    assert(r@[a] == before[a] && r@[b] == before[b - 1]);
                    assert(leq(before[a], before[b - 1]));
                } else {
                    assert(r@[a] == before[a - 1] && r@[b] == before[b - 1]);
                    assert(leq(before[a - 1], before[b - 1]));
                }
            }
            let t = v@.take(i + 1);
            assert(t =~= v@.take(i as int).push(x));
            vstd::seq_lib::to_multiset_insert(before, p as int, x);
            vstd::seq_lib::to_multiset_build(v@.take(i as int), x);
        }
        i = i + 1;
    }
    assert(v@.take(v@.len() as int) =~= v@);
    proof {
        lemma_at_least_total();
        v@.lemma_sort_by_ensures(leq);
        vstd::seq_lib::lemma_sorted_unique(r@, descending(v@), leq);
    }
    r
}

proof fn lemma_seq_bounds(v: Seq<usize>, n: int)
    requires
        v.len() > 0,
        forall|k: int| 0 <= k < v.len() ==> #[trigger] v[k] < n,
    ensures
        seq_max(v) < n,
        seq_min(v) <= seq_max(v),
        seq_min(v) < n,
    decreases v.len(),
{
    if v.len() > 1 {
        let d = v.drop_last();
        assert forall|k: int| 0 <= k < d.len() implies #[trigger] d[k] < n by {
            assert(d[k] == v[k]);
        }
        lemma_seq_bounds(d, n);
        assert(v.last() == v[v.len() - 1]);
    }
}

/// Every transaction that `undo` or `redo` arguments select exists in the registry.
pub proof fn lemma_selection_in_bounds(args: Seq<Seq<char>>, ids: Seq<Seq<char>>)
    ensures
        spec_parse_targets(args, ids) matches Ok(v) ==> forall|k: int|
            0 <= k < v.len() ==> #[trigger] v[k] < ids.len(),
        spec_parse_range(args, ids) matches Ok(Some((lo, hi))) ==> lo <= hi < ids.len(),
{
    let names = named_ids(args);
    lemma_positions_bounded(ids, names);
    if let Ok(v) = spec_parse_targets(args, ids) {
        if v.len() > 0 {
            lemma_seq_bounds(v, ids.len() as int);
        }
    }
}

} // verus!
