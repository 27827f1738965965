//! What snapshots hold and how they are restored.
use vstd::prelude::*;
use crate::chronos::state::tracker::FsTarget;
use crate::text::{chars_of, push_char};

verus! {

/// The file name under which a target's content is kept in a snapshot: its path with
/// each `/` and `\` replaced by `_`.
pub open spec fn spec_snapshot_name(path: Seq<char>) -> Seq<char> {
    path.map_values(|c: char| if c == '/' || c == '\\' { '_' } else { c })
}

/// The file name under which a target is kept in a snapshot.
pub fn snapshot_name(path: &str) -> (r: String)
    ensures
        r@ == spec_snapshot_name(path@),
{
    let v = chars_of(path);
    let mut r = String::new();
    let mut i: usize = 0;
    while i < v.len()
        invariant
            v@ == path@,
            i <= v@.len(),
            r@ == spec_snapshot_name(v@.take(i as int)),
        decreases v.len() - i,
    {
        let c = v[i];
        if c == '/' || c == '\\' {
            push_char(&mut r, '_');
        } else {
            push_char(&mut r, c);
        }
        i = i + 1;
        assert(r@ =~= spec_snapshot_name(v@.take(i as int)));
    }
    assert(v@.take(v@.len() as int) =~= v@);
    r
}

/// A target whose content a snapshot keeps: an existing file.
pub open spec fn kept(t: FsTarget) -> bool {
    t.exists && !t.is_dir
}

/// The positions of the targets whose content is copied into a snapshot, in order.
pub open spec fn spec_kept_targets(targets: Seq<FsTarget>) -> Seq<usize>
    decreases targets.len(),
{
    if targets.len() == 0 {
        Seq::empty()
    } else {
        let rest = spec_kept_targets(targets.drop_last());
        if kept(targets.last()) {
            rest.push((targets.len() - 1) as usize)
        } else {
            rest
        }
    }
}

/// The positions of the targets whose content is copied into a snapshot.
pub fn kept_targets(targets: &[FsTarget]) -> (r: Vec<usize>)
    ensures
        r@ == spec_kept_targets(targets@),
{
    let mut r: Vec<usize> = Vec::new();
    let mut i: usize = 0;
    while i < targets.len()
        invariant
            i <= targets@.len(),
            r@ == spec_kept_targets(targets@.take(i as int)),
        decreases targets.len() - i,
    {
        let ghost t = targets@.take(i + 1);
        assert(t.drop_last() =~= targets@.take(i as int));
        if targets[i].exists && !targets[i].is_dir {
            r.push(i);
        }
        i = i + 1;
    }
    assert(targets@.take(targets@.len() as int) =~= targets@);
    r
}

/// One step of restoring a snapshot.
pub enum RestoreStep {
    /// The target did not exist before the command: remove whatever is there now.
    Remove(usize),
    /// The target was a file: copy its kept content back.
    CopyBack(usize),
}

/// The steps that restore the targets, in order; directories that existed are left alone.
pub open spec fn spec_restore_plan(targets: Seq<FsTarget>) -> Seq<RestoreStep>
    decreases targets.len(),
{
    if targets.len() == 0 {
        Seq::empty()
    } else {
        let rest = spec_restore_plan(targets.drop_last());
        let k = (targets.len() - 1) as usize;
        if !targets.last().exists {
            rest.push(RestoreStep::Remove(k))
        } else if !targets.last().is_dir {
            rest.push(RestoreStep::CopyBack(k))
        } else {
            rest
        }
    }
}

/// The steps that restore the targets of a transaction from its snapshot.
pub fn restore_plan(targets: &[FsTarget]) -> (r: Vec<RestoreStep>)
    ensures
        r@ == spec_restore_plan(targets@),
{
    let mut r: Vec<RestoreStep> = Vec::new();
    let mut i: usize = 0;
    while i < targets.len()
        invariant
            i <= targets@.len(),
            r@ == spec_restore_plan(targets@.take(i as int)),
        decreases targets.len() - i,
    {
        let ghost t = targets@.take(i + 1);
        assert(t.drop_last() =~= targets@.take(i as int));
        if !targets[i].exists {
            r.push(RestoreStep::Remove(i));
        } else if !targets[i].is_dir {
            r.push(RestoreStep::CopyBack(i));
        }
        i = i + 1;
    }
    assert(targets@.take(targets@.len() as int) =~= targets@);
    r
}

/// The targets that a restore copies back, in order.
pub open spec fn copied_back(plan: Seq<RestoreStep>) -> Seq<usize>
    decreases plan.len(),
{
    if plan.len() == 0 {
        Seq::empty()
    } else {
        let rest = copied_back(plan.drop_last());
        match plan.last() {
            RestoreStep::CopyBack(k) => rest.push(k),
            RestoreStep::Remove(_) => rest,
        }
    }
}

/// The targets that a restore removes, in order.
pub open spec fn removed(plan: Seq<RestoreStep>) -> Seq<usize>
    decreases plan.len(),
{
    if plan.len() == 0 {
        Seq::empty()
    } else {
        let rest = removed(plan.drop_last());
        match plan.last() {
            RestoreStep::Remove(k) => rest.push(k),
            RestoreStep::CopyBack(_) => rest,
        }
    }
}

/// A restore copies back exactly the files that the snapshot kept, in the same order,
/// and removes exactly the targets that did not exist before the command.
pub proof fn lemma_restore_matches_snapshot(targets: Seq<FsTarget>)
    requires
        targets.len() <= usize::MAX,
    ensures
        copied_back(spec_restore_plan(targets)) == spec_kept_targets(targets),
        forall|k: int|
            0 <= k < removed(spec_restore_plan(targets)).len() ==> !targets[#[trigger] removed(
                spec_restore_plan(targets),
            )[k] as int].exists,
        forall|k: int| 0 <= k < removed(spec_restore_plan(targets)).len() ==> #[trigger] removed(spec_restore_plan(targets))[k] < targets.len(),
    decreases targets.len(),
{
    if targets.len() > 0 {
        let d = targets.drop_last();
        lemma_restore_matches_snapshot(d);
        let p = spec_restore_plan(targets);
        let pd = spec_restore_plan(d);
        if p.len() > pd.len() {
            assert(p.drop_last() =~= pd);
        }
        let r = removed(p);
        let rd = removed(pd);
        assert forall|k: int| 0 <= k < r.len() implies #[trigger] r[k] < targets.len()
            && !targets[r[k] as int].exists by {
            if k < rd.len() {
                assert(r[k] == rd[k]);
                assert(targets[rd[k] as int] == d[rd[k] as int]);
            } else {
                assert(p.len() > pd.len());
                assert(!targets.last().exists);
                assert(p.last() == RestoreStep::Remove((targets.len() - 1) as usize));
                assert(removed(p) == removed(p.drop_last()).push((targets.len() - 1) as usize));
                assert(r[k] == targets.len() - 1);
            }
        }
    }
}

} // verus!
