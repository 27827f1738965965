//! Background jobs: their numbering, and the report of those that finished.
use vstd::prelude::*;
use crate::text::{chars_of, decimal, has_suffix, owned, pad_right, push_char, push_chars, push_decimal, push_padded_right, push_str, str_eq};

verus! {

/// A background job.  The process itself is held by the caller, by the job's id.
pub struct Job {
    pub id: usize,
    pub command: String,
    pub status: String,
}

/// The model of a [`Job`].
pub struct JobModel {
    pub id: usize,
    pub command: Seq<char>,
    pub status: Seq<char>,
}

impl View for Job {
    type V = JobModel;

    open spec fn view(&self) -> JobModel {
        JobModel { id: self.id, command: self.command@, status: self.status@ }
    }
}

/// The models of a list of jobs.
pub open spec fn job_models(jobs: Seq<Job>) -> Seq<JobModel> {
    jobs.map_values(|j: Job| j@)
}

/// The greatest id among the jobs (0 when there are none).
pub open spec fn max_id(jobs: Seq<JobModel>) -> usize
    decreases jobs.len(),
{
    if jobs.len() == 0 {
        0
    } else {
        let m = max_id(jobs.drop_last());
        if jobs.last().id > m {
            jobs.last().id
        } else {
            m
        }
    }
}

proof fn lemma_max_id(jobs: Seq<JobModel>)
    ensures
        forall|k: int| 0 <= k < jobs.len() ==> #[trigger] jobs[k].id <= max_id(jobs),
        jobs.len() == 0 || exists|k: int| 0 <= k < jobs.len() && #[trigger] jobs[k].id == max_id(jobs),
    decreases jobs.len(),
{
    if jobs.len() > 0 {
        let d = jobs.drop_last();
        lemma_max_id(d);
        assert forall|k: int| 0 <= k < jobs.len() implies #[trigger] jobs[k].id <= max_id(jobs) by {
            if k < d.len() {
                assert(jobs[k] == d[k]);
            }
        }
        assert(jobs[jobs.len() - 1] == jobs.last());
        if jobs.last().id <= max_id(d) && d.len() > 0 {
            let k = choose|k: int| 0 <= k < d.len() && #[trigger] d[k].id == max_id(d);
            assert(jobs[k] == d[k]);
            assert(jobs[k].id == max_id(jobs));
        } else {
            assert(jobs[jobs.len() - 1].id == max_id(jobs));
        }
    }
}

/// The id a new job receives (one more than the greatest in use) is that of no
/// registered job.
pub proof fn lemma_new_job_id_fresh(jobs: Seq<JobModel>)
    ensures
        forall|k: int| 0 <= k < jobs.len() ==> #[trigger] jobs[k].id != max_id(jobs) + 1,
{
    lemma_max_id(jobs);
}

/// The background jobs of the session, in the order they started.
pub fn jobs_registry(state: &crate::shell::state::ShellState) -> (r: &Vec<Job>)
    ensures
        r == state.jobs,
{
    &state.jobs
}

/// Registers a job running `command`; its id is one more than the greatest id in use.
pub fn add_job(jobs: &mut Vec<Job>, command: String) -> (id: usize)
    requires
        forall|k: int| 0 <= k < old(jobs)@.len() ==> #[trigger] old(jobs)@[k].id < usize::MAX,
    ensures
        id == max_id(job_models(old(jobs)@)) + 1,
        job_models(final(jobs)@) == job_models(old(jobs)@).push(
            JobModel { id, command: command@, status: "Running"@ },
        ),
{
    let mut m: usize = 0;
    let mut i: usize = 0;
    let ghost models = job_models(jobs@);
    proof {
        lemma_max_id(models);
    }
    while i < jobs.len()
        invariant
            i <= jobs@.len(),
            models == job_models(jobs@),
            m == max_id(models.take(i as int)),
            forall|k: int| 0 <= k < jobs@.len() ==> #[trigger] jobs@[k].id < usize::MAX,
            jobs.len() == 0 || exists|k: int| 0 <= k < models.len() && #[trigger] models[k].id == max_id(models),
        decreases jobs.len() - i,
    {
        let ghost t = models.take(i + 1);
        assert(t.drop_last() =~= models.take(i as int));
        if jobs[i].id > m {
            m = jobs[i].id;
        }
        i = i + 1;
    }
    assert(models.take(models.len() as int) =~= models);
    proof {
        if jobs@.len() > 0 {
            let k = choose|k: int| 0 <= k < models.len() && #[trigger] models[k].id == max_id(models);
            assert(models[k] == jobs@[k]@);
        }
    }
    let id = m + 1;
    let job = Job { id, command, status: owned("Running") };
    jobs.push(job);
    assert(job_models(jobs@) =~= models.push(JobModel { id, command: job.command@, status: "Running"@ }));
    id
}

/// `s` with every trailing ` &` removed (`str::trim_end_matches(" &")`).
pub open spec fn strip_background(s: Seq<char>) -> Seq<char>
    decreases s.len(),
{
    if s.len() >= 2 && s[s.len() - 2] == ' ' && s[s.len() - 1] == '&' {
        strip_background(s.take(s.len() - 2))
    } else {
        s
    }
}

/// The command line a finished job is reported with.
pub fn strip_background_marker(command: &str) -> (r: String)
    ensures
        r@ == strip_background(command@),
{
    let v = chars_of(command);
    let mut n = v.len();
    assert(v@.take(n as int) =~= v@);
    loop
        invariant
            n <= v@.len(),
            v@ == command@,
            strip_background(v@.take(n as int)) == strip_background(command@),
        ensures
            n < 2 || v@[n - 2] != ' ' || v@[n - 1] != '&',
        decreases n,
    {
        if n < 2 {
            break;
        }
        if v[n - 2] != ' ' || v[n - 1] != '&' {
            break;
        }
        let ghost t = v@.take(n as int);
        assert(t[t.len() - 2] == ' ' && t[t.len() - 1] == '&');
        assert(t.take(n - 2) =~= v@.take(n - 2));
        n = n - 2;
    }
    let ghost t = v@.take(n as int);
    assert(!(t.len() >= 2 && t[t.len() - 2] == ' ' && t[t.len() - 1] == '&'));
    let mut r = String::new();
    push_chars(&mut r, v.as_slice(), 0, n);
    assert(v@.subrange(0, n as int) =~= v@.take(n as int));
    r
}

/// The marker of the job at `index` of `total`: `+` for the last, `-` for the one before it.
pub open spec fn marker(index: int, total: int) -> char {
    if index == total - 1 {
        '+'
    } else if total > 1 && index == total - 2 {
        '-'
    } else {
        ' '
    }
}

pub fn job_marker(index: usize, total: usize) -> (c: char)
    ensures
        c == marker(index as int, total as int),
{
    if total > 0 && index == total - 1 {
        '+'
    } else if total > 1 && index == total - 2 {
        '-'
    } else {
        ' '
    }
}

/// A line of a job report: `[id]` and the marker, a separator, the status padded to 24
/// characters, then the command.
pub open spec fn job_line(id: usize, mark: char, sep: Seq<char>, status: Seq<char>, command: Seq<char>) -> Seq<char> {
    (seq!['['] + decimal(id as nat)).push(']').push(mark) + sep + pad_right(status, 24) + command
        + seq!['\n']
}

/// Writes a job report line.
pub fn format_job_line(id: usize, mark: char, sep: &str, status: &str, command: &str) -> (r: String)
    ensures
        r@ == job_line(id, mark, sep@, status@, command@),
{
    let mut r = String::new();
    push_char(&mut r, '[');
    push_decimal(&mut r, id as u128);
    push_char(&mut r, ']');
    push_char(&mut r, mark);
    push_str(&mut r, sep);
    push_padded_right(&mut r, status, 24);
    push_str(&mut r, command);
    push_char(&mut r, '\n');
    assert(r@ =~= job_line(id, mark, sep@, status@, command@));
    r
}

/// The jobs with those that finished marked `Done`.
pub open spec fn mark_finished(jobs: Seq<JobModel>, finished: Seq<bool>) -> Seq<JobModel> {
    Seq::new(
        jobs.len(),
        |k: int| if finished[k] { JobModel { status: "Done"@, ..jobs[k] } } else { jobs[k] },
    )
}

/// The jobs that are not `Done`, in order.
pub open spec fn not_done(jobs: Seq<JobModel>) -> Seq<JobModel>
    decreases jobs.len(),
{
    if jobs.len() == 0 {
        Seq::empty()
    } else {
        let rest = not_done(jobs.drop_last());
        if jobs.last().status == "Done"@ {
            rest
        } else {
            rest.push(jobs.last())
        }
    }
}

/// The report of the jobs that finished, in order, one line each.
pub open spec fn reap_report(jobs: Seq<JobModel>, finished: Seq<bool>, total: int) -> Seq<Seq<char>>
    decreases jobs.len(),
{
    if jobs.len() == 0 {
        Seq::empty()
    } else {
        let rest = reap_report(jobs.drop_last(), finished.drop_last(), total);
        if finished.last() {
            let j = jobs.last();
            rest.push(
                job_line(j.id, marker(jobs.len() - 1, total), " "@, "Done"@, strip_background(j.command)),
            )
        } else {
            rest
        }
    }
}

/// Removes the jobs that are `Done`.
pub fn remove_done(jobs: &mut Vec<Job>)
    ensures
        job_models(final(jobs)@) == not_done(job_models(old(jobs)@)),
{
    let ghost models = job_models(jobs@);
    let mut i: usize = 0;
    let ghost mut j: int = 0;
    assert(job_models(jobs@) =~= not_done(models.take(0)) + models.skip(0));
    while i < jobs.len()
        invariant
            0 <= j <= models.len(),
            job_models(jobs@) == not_done(models.take(j)) + models.skip(j),
            i == not_done(models.take(j)).len(),
            i <= jobs@.len(),
            jobs@.len() - i == models.len() - j,
        decreases jobs.len() - i,
    {
        let ghost before = jobs@;
        let ghost t = models.take(j + 1);
        assert(t.drop_last() =~= models.take(j));
        assert(job_models(jobs@)[i as int] == models[j]);
        assert(t.last() == models[j]);
        if str_eq(jobs[i].status.as_str(), "Done") {
            jobs.remove(i);
            proof {
                assert(job_models(jobs@) =~= not_done(models.take(j + 1)) + models.skip(j + 1)) by {
                    assert(job_models(jobs@) =~= job_models(before).remove(i as int));
                }
                j = j + 1;
            }
        } else {
            proof {
                assert(job_models(jobs@) =~= not_done(models.take(j + 1)) + models.skip(j + 1));
                j = j + 1;
            }
            i = i + 1;
        }
    }
    assert(models.take(j) =~= models);
    assert(models.skip(j) =~= Seq::<JobModel>::empty());
    assert(job_models(jobs@) =~= not_done(models));
}

/// The line of the report of all jobs for one job.
pub open spec fn listed_line(j: JobModel, mark: char, sep: Seq<char>) -> Seq<char> {
    job_line(
        j.id,
        mark,
        sep,
        j.status,
        if j.status == "Done"@ { strip_background(j.command) } else { j.command },
    )
}

/// The report of all jobs, one line each.
pub open spec fn list_report(jobs: Seq<JobModel>, sep: Seq<char>, total: int) -> Seq<Seq<char>>
    decreases jobs.len(),
{
    if jobs.len() == 0 {
        Seq::empty()
    } else {
        list_report(jobs.drop_last(), sep, total).push(
            listed_line(jobs.last(), marker(jobs.len() - 1, total), sep),
        )
    }
}

/// Marks the jobs whose process finished as `Done`.
fn mark_done(jobs: &mut Vec<Job>, finished: &[bool]) -> (any: bool)
    requires
        finished@.len() == old(jobs)@.len(),
    ensures
        job_models(final(jobs)@) == mark_finished(job_models(old(jobs)@), finished@),
        any == finished@.contains(true),
{
    let ghost models = job_models(jobs@);
    let mut any = false;
    let mut i: usize = 0;
    while i < jobs.len()
        invariant
            finished@.len() == models.len() == jobs@.len(),
            i <= jobs@.len(),
            forall|k: int| 0 <= k < i ==> #[trigger] job_models(jobs@)[k] == mark_finished(models, finished@)[k],
            forall|k: int| i <= k < jobs@.len() ==> #[trigger] job_models(jobs@)[k] == models[k],
            any == finished@.take(i as int).contains(true),
        decreases jobs.len() - i,
    {
        let ghost t = finished@.take(i + 1);
        assert(t.drop_last() =~= finished@.take(i as int));
        assert(t.last() == finished@[i as int]);
        if finished[i] {
            assert(t[i as int] == true);
            let ghost before = jobs@;
            assert(job_models(before)[i as int] == before[i as int]@);
            jobs[i].status = owned("Done");
            assert(jobs@[i as int]@ == JobModel { status: "Done"@, ..models[i as int] });
            assert forall|k: int| 0 <= k < jobs@.len() && k != i implies jobs@[k] == before[k] by {}
            assert forall|k: int| 0 <= k <= i implies #[trigger] job_models(jobs@)[k] == mark_finished(models, finished@)[k] by {
                if k < i {
                    assert(job_models(before)[k] == job_models(jobs@)[k]);
                }
            }
            assert forall|k: int| i < k < jobs@.len() implies #[trigger] job_models(jobs@)[k] == models[k] by {
                assert(job_models(before)[k] == job_models(jobs@)[k]);
            }
            any = true;
        } else {
            assert(t.contains(true) ==> t.drop_last().contains(true)) by {
                if t.contains(true) {
                    let k = choose|k: int| 0 <= k < t.len() && t[k] == true;
                    assert(t.drop_last()[k] == true);
                }
            }
        }
        i = i + 1;
    }
    assert(finished@.take(finished@.len() as int) =~= finished@);
    assert(job_models(jobs@) =~= mark_finished(models, finished@));
    any
}

/// Reports the jobs whose process finished (as the shell does before each prompt) and
/// drops them.
pub fn reap_jobs(jobs: &mut Vec<Job>, finished: &[bool]) -> (report: Vec<String>)
    requires
        finished@.len() == old(jobs)@.len(),
    ensures
        crate::text::views(report@) == reap_report(job_models(old(jobs)@), finished@, old(jobs)@.len() as int),
        job_models(final(jobs)@) == if finished@.contains(true) {
            not_done(mark_finished(job_models(old(jobs)@), finished@))
        } else {
            job_models(old(jobs)@)
        },
{
    let ghost models = job_models(jobs@);
    let total = jobs.len();
    let mut report: Vec<String> = Vec::new();
    let mut i: usize = 0;
    assert(crate::text::views(report@) =~= reap_report(models.take(0), finished@.take(0), total as int));
    while i < total
        invariant
            total == jobs@.len() == models.len() == finished@.len(),
            models == job_models(jobs@),
            i <= total,
            crate::text::views(report@) == reap_report(models.take(i as int), finished@.take(i as int), total as int),
        decreases total - i,
    {
        let ghost tm = models.take(i + 1);
        let ghost tf = finished@.take(i + 1);
        assert(tm.drop_last() =~= models.take(i as int));
        assert(tf.drop_last() =~= finished@.take(i as int));
        assert(tm.last() == jobs@[i as int]@);
        if finished[i] {
            let shown = strip_background_marker(jobs[i].command.as_str());
            let line = format_job_line(jobs[i].id, job_marker(i, total), " ", "Done", shown.as_str());
            proof {
                crate::text::lemma_views_push(report@, line);
            }
            report.push(line);
        }
        i = i + 1;
    }
    assert(models.take(total as int) =~= models);
    assert(finished@.take(total as int) =~= finished@);
    if mark_done(jobs, finished) {
        remove_done(jobs);
    }
    report
}

/// Lists every job, finished ones marked `Done` with their trailing ` &` removed, each
/// line with `sep` between marker and status; then drops the finished ones.
pub fn list_jobs(jobs: &mut Vec<Job>, finished: &[bool], sep: &str) -> (report: Vec<String>)
    requires
        finished@.len() == old(jobs)@.len(),
    ensures
        crate::text::views(report@) == list_report(
            mark_finished(job_models(old(jobs)@), finished@),
            sep@,
            old(jobs)@.len() as int,
        ),
        job_models(final(jobs)@) == not_done(mark_finished(job_models(old(jobs)@), finished@)),
{
    mark_done(jobs, finished);
    let ghost models = job_models(jobs@);
    let total = jobs.len();
    let mut report: Vec<String> = Vec::new();
    let mut i: usize = 0;
    assert(crate::text::views(report@) =~= list_report(models.take(0), sep@, total as int));
    while i < total
        invariant
            total == jobs@.len() == models.len(),
            models == job_models(jobs@),
            i <= total,
            crate::text::views(report@) == list_report(models.take(i as int), sep@, total as int),
        decreases total - i,
    {
        let ghost tm = models.take(i + 1);
        assert(tm.drop_last() =~= models.take(i as int));
        assert(tm.last() == jobs@[i as int]@);
        let line = if str_eq(jobs[i].status.as_str(), "Done") {
            let shown = strip_background_marker(jobs[i].command.as_str());
            format_job_line(jobs[i].id, job_marker(i, total), sep, jobs[i].status.as_str(), shown.as_str())
        } else {
            format_job_line(
                jobs[i].id,
                job_marker(i, total),
                sep,
                jobs[i].status.as_str(),
                jobs[i].command.as_str(),
            )
        };
        proof {
            crate::text::lemma_views_push(report@, line);
        }
        report.push(line);
        i = i + 1;
    }
    assert(models.take(total as int) =~= models);
    remove_done(jobs);
    report
}

} // verus!
