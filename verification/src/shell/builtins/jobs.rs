//! `jobs`: list the background jobs.
use vstd::prelude::*;
use crate::parser::ast::Redirect;
use crate::shell::builtins::{effect_models, print_all, prints, Effect};
use crate::shell::state::jobs::{job_models, list_jobs, list_report, mark_finished, not_done, Job};

verus! {

/// Lists the jobs (those whose process finished, as `finished` tells, marked `Done`),
/// one print per job, then forgets the finished ones.
pub fn execute(jobs: &mut Vec<Job>, finished: &[bool], stdout: &Redirect) -> (r: Vec<Effect>)
    requires
        finished@.len() == old(jobs)@.len(),
    ensures
        effect_models(r@) == prints(
            list_report(mark_finished(job_models(old(jobs)@), finished@), "  "@, old(jobs)@.len() as int),
            stdout@,
        ),
        job_models(final(jobs)@) == not_done(mark_finished(job_models(old(jobs)@), finished@)),
{
    let lines = list_jobs(jobs, finished, "  ");
    print_all(lines, stdout)
}

} // verus!
