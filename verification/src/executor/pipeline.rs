//! How the commands of a pipeline are connected.
use vstd::prelude::*;
use crate::executor::executor::chunk_views;
use crate::executor::single::copy_strings;
use crate::parser::ast::{Command, CommandModel};
use crate::parser::parser::{parse, spec_parse};
use crate::shell::builtins::{is_builtin_command, is_builtin_name};
use crate::text::views;

verus! {

/// Where a command of a pipeline reads its standard input from.
#[derive(Clone, Copy, Debug, PartialEq, Eq, Structural)]
pub enum StdinSource {
    /// The output of the command before it.
    Previous,
    /// A pipe that is fed the captured output of the built-in before it.
    Captured,
    /// The shell's own standard input.
    Inherit,
}

/// What is done with one command of a pipeline.
pub enum Stage {
    /// Its tokens do not form a command: it is passed over.
    Skip,
    /// A built-in that is not the last command: its output is captured (see
    /// `capture_builtin`) to feed the next program.
    Capture(Command),
    /// A built-in that is the last command: it runs as usual.
    Builtin(Command),
    /// A program, with where it reads from, whether the captured output of a built-in
    /// is written to its input, and whether its output goes on down the pipeline.
    External(Command, StdinSource, bool, bool),
}

/// The model of a [`Stage`].
pub enum StageModel {
    Skip,
    Capture(CommandModel),
    Builtin(CommandModel),
    External(CommandModel, StdinSource, bool, bool),
}

impl View for Stage {
    type V = StageModel;

    open spec fn view(&self) -> StageModel {
        match self {
            Stage::Skip => StageModel::Skip,
            Stage::Capture(c) => StageModel::Capture(c@),
            Stage::Builtin(c) => StageModel::Builtin(c@),
            Stage::External(c, s, f, p) => StageModel::External(c@, *s, *f, *p),
        }
    }
}

/// The models of a list of stages.
pub open spec fn stage_models(v: Seq<Stage>) -> Seq<StageModel> {
    v.map_values(|s: Stage| s@)
}

/// One command of the pipeline, given whether it is the last one, whether the command
/// before left output to read and whether captured output waits to be written.  Gives
/// the stage and the two conditions for the next command.
pub open spec fn plan_step(tokens: Seq<Seq<char>>, last: bool, previous: bool, pending: bool) -> (
    StageModel,
    bool,
    bool,
) {
    match spec_parse(tokens) {
        None => (StageModel::Skip, previous, pending),
        Some(c) => if is_builtin_name(c.name) {
            if last {
                (StageModel::Builtin(c), previous, pending)
            } else {
                (StageModel::Capture(c), false, true)
            }
        } else {
            let source = if previous {
                StdinSource::Previous
            } else if pending {
                StdinSource::Captured
            } else {
                StdinSource::Inherit
            };
            (StageModel::External(c, source, pending, !last), !last, false)
        },
    }
}

/// The stages of the commands `i..` of a pipeline.
pub open spec fn plan_from(chunks: Seq<Seq<Seq<char>>>, i: int, previous: bool, pending: bool) -> Seq<
    StageModel,
>
    decreases chunks.len() - i,
{
    if i < 0 || i >= chunks.len() {
        Seq::empty()
    } else {
        let (stage, p2, q2) = plan_step(chunks[i], i == chunks.len() - 1, previous, pending);
        seq![stage] + plan_from(chunks, i + 1, p2, q2)
    }
}

/// The stages of a whole pipeline.  A program reads the output of the program before
/// it, or else the captured output of a built-in before it, or else the shell's input;
/// all but the last command write into the pipe.
pub open spec fn spec_plan(chunks: Seq<Seq<Seq<char>>>) -> Seq<StageModel> {
    plan_from(chunks, 0, false, false)
}

/// Decides how each command of a pipeline runs (see [`spec_plan`]).
pub fn plan_pipeline(chunks: &Vec<Vec<String>>) -> (r: Vec<Stage>)
    ensures
        stage_models(r@) == spec_plan(chunk_views(chunks@)),
{
    let ghost cv = chunk_views(chunks@);
    let mut r: Vec<Stage> = Vec::new();
    let mut previous = false;
    let mut pending = false;
    let n = chunks.len();
    let mut i: usize = 0;
    assert(stage_models(r@) + plan_from(cv, 0, previous, pending) =~= spec_plan(cv));
    while i < n
        invariant
            n == chunks@.len() == cv.len(),
            i <= n,
            cv == chunk_views(chunks@),
            stage_models(r@) + plan_from(cv, i as int, previous, pending) == spec_plan(cv),
        decreases n - i,
    {
        let ghost before = stage_models(r@);
        let last = i + 1 == n;
        let tokens = copy_strings(chunks[i].as_slice());
        assert(views(tokens@) == cv[i as int]);
        let ghost step = plan_step(cv[i as int], last, previous, pending);
        let stage = match parse(tokens) {
            None => Stage::Skip,
            Some(c) => {
                if is_builtin_command(c.name.as_str()) {
                    if last {
                        Stage::Builtin(c)
                    } else {
                        previous = false;
                        pending = true;
                        Stage::Capture(c)
                    }
                } else {
                    let source = if previous {
                        StdinSource::Previous
                    } else if pending {
                        StdinSource::Captured
                    } else {
                        StdinSource::Inherit
                    };
                    let feed = pending;
                    previous = !last;
                    pending = false;
                    Stage::External(c, source, feed, !last)
                }
            },
        };
        assert(stage@ == step.0 && previous == step.1 && pending == step.2);
        r.push(stage);
        assert(stage_models(r@) =~= before.push(step.0));
        i = i + 1;
        assert(before.push(step.0) + plan_from(cv, i as int, previous, pending) =~= before + (seq![
            step.0,
        ] + plan_from(cv, i as int, previous, pending)));
    }
    assert(plan_from(cv, n as int, previous, pending) =~= Seq::<StageModel>::empty());
    assert(stage_models(r@) + Seq::<StageModel>::empty() =~= stage_models(r@));
    r
}

proof fn lemma_plan_from(chunks: Seq<Seq<Seq<char>>>, i: int, previous: bool, pending: bool)
    requires
        0 <= i <= chunks.len(),
    ensures
        plan_from(chunks, i, previous, pending).len() == chunks.len() - i,
        forall|k: int|
            0 <= k < chunks.len() - i ==> match #[trigger] plan_from(chunks, i, previous, pending)[k] {
                StageModel::External(_, _, _, piped) => piped == (i + k != chunks.len() - 1),
                StageModel::Capture(_) => i + k != chunks.len() - 1,
                StageModel::Builtin(_) => i + k == chunks.len() - 1,
                StageModel::Skip => true,
            },
    decreases chunks.len() - i,
{
    if i < chunks.len() {
        let (stage, p2, q2) = plan_step(chunks[i], i == chunks.len() - 1, previous, pending);
        lemma_plan_from(chunks, i + 1, p2, q2);
        let rest = plan_from(chunks, i + 1, p2, q2);
        let all = plan_from(chunks, i, previous, pending);
        assert(all == seq![stage] + rest);
        assert forall|k: int| 0 <= k < chunks.len() - i implies match #[trigger] all[k] {
            StageModel::External(_, _, _, piped) => piped == (i + k != chunks.len() - 1),
            StageModel::Capture(_) => i + k != chunks.len() - 1,
            StageModel::Builtin(_) => i + k == chunks.len() - 1,
            StageModel::Skip => true,
        } by {
            if k > 0 {
                assert(all[k] == rest[k - 1]);
            }
        }
    }
}

/// A pipeline has one stage per command.  Every program but the last writes into the
/// pipe and the last writes to the shell's output; a built-in is captured unless it is
/// the last command, which runs as usual.
pub proof fn lemma_plan_shape(chunks: Seq<Seq<Seq<char>>>)
    ensures
        spec_plan(chunks).len() == chunks.len(),
        forall|k: int|
            0 <= k < chunks.len() ==> match #[trigger] spec_plan(chunks)[k] {
                StageModel::External(_, _, _, piped) => piped == (k != chunks.len() - 1),
                StageModel::Capture(_) => k != chunks.len() - 1,
                StageModel::Builtin(_) => k == chunks.len() - 1,
                StageModel::Skip => true,
            },
{
    lemma_plan_from(chunks, 0, false, false);
}

} // verus!
