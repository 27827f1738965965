//! The decisions taken while one simple command runs: how its line is prepared, what
//! is reported of its risk and targets, how the AI analysis and the user's answer decide
//! whether it runs, and what its transaction goes through.  The caller performs the
//! input and output in between, in the order these functions describe.
use vstd::prelude::*;
use crate::chronos::ai::client::{AIAnalysis, AIRecommendation};
use crate::chronos::risk::analyzer::{analyze_command, spec_analyze, RiskAssessment, RiskLevel};
use crate::chronos::state::tracker::FsTarget;
use crate::chronos::transaction::manager::{Transaction, TransactionStatus};
use crate::executor::expand::{expand_args, spec_expand_args};
use crate::parser::ast::{Command, CommandModel, Redirect, RedirectModel};
use crate::parser::parser::{parse, spec_parse};
use crate::shell::builtins::{effect_models, is_builtin_command, is_builtin_name, BuiltinStatus, Effect, EffectModel};
use crate::strmap::StringMap;
use crate::shell::builtins::echo::echo_text;
use crate::shell::builtins::history::{format_history_line, history_limit};
use crate::shell::builtins::type_cmd::{describe, type_text};
use crate::shell::state::history::History;
use crate::text::{
    decimal, join, join_strings, lemma_views_push, owned, pad_left, parse_decimal, push_char, push_str, str_eq,
    trim, trimmed, views,
};

verus! {

/// Whether `name` is a built-in command.
pub fn is_builtin(cmd: &str) -> (b: bool)
    ensures
        b == is_builtin_name(cmd@),
{
    is_builtin_command(cmd)
}

/// Commands about the shell's own bookkeeping: they are neither reported nor recorded
/// as transactions.
pub open spec fn is_meta_name(n: Seq<char>) -> bool {
    n == "undo"@ || n == "redo"@ || n == "transactions"@ || n == "history"@ || n == "exit"@ || n
        == "purge"@
}

/// Whether `name` is one of the bookkeeping commands.
pub fn is_meta_command(name: &str) -> (b: bool)
    ensures
        b == is_meta_name(name@),
{
    str_eq(name, "undo") || str_eq(name, "redo") || str_eq(name, "transactions") || str_eq(
        name,
        "history",
    ) || str_eq(name, "exit") || str_eq(name, "purge")
}

/// A command line made ready to run.
pub struct Prepared {
    /// The tokens joined by single blanks.
    pub command_line: String,
    /// The tokens as they came.
    pub chunk: Vec<String>,
    /// The parsed command, without a trailing `&`, its arguments expanded.
    pub command: Command,
    /// A trailing `&` asked for the command to run in the background.
    pub background: bool,
    /// The assessment of the prepared command.
    pub assessment: RiskAssessment,
    /// It is one of the bookkeeping commands.
    pub is_meta: bool,
}

/// The command that runs for `tokens`: the parsed command without a trailing `&`
/// argument, its arguments expanded; and whether that `&` was there.
pub open spec fn spec_prepare(vars: Map<Seq<char>, Seq<char>>, tokens: Seq<Seq<char>>) -> Option<
    (CommandModel, bool),
> {
    match spec_parse(tokens) {
        None => None,
        Some(c) => {
            let background = c.args.len() > 0 && c.args.last() == "&"@;
            let args = if background {
                c.args.drop_last()
            } else {
                c.args
            };
            Some((CommandModel { args: spec_expand_args(vars, args), ..c }, background))
        },
    }
}

/// A copy of a list of strings.
pub fn copy_strings(v: &[String]) -> (r: Vec<String>)
    ensures
        views(r@) == views(v@),
{
    let mut r: Vec<String> = Vec::new();
    let mut i: usize = 0;
    while i < v.len()
        invariant
            i <= v@.len(),
            views(r@) == views(v@.take(i as int)),
        decreases v.len() - i,
    {
        let s = v[i].clone();
        proof {
            lemma_views_push(r@, s);
            assert(v@.take(i + 1) =~= v@.take(i as int).push(v@[i as int]));
            lemma_views_push(v@.take(i as int), v@[i as int]);
        }
        r.push(s);
        i = i + 1;
    }
    assert(v@.take(v@.len() as int) =~= v@);
    r
}

/// Parses the tokens of a command line, strips a trailing `&`, expands the arguments
/// with the session's variables and assesses the result; `None` when the tokens do not
/// form a command.
pub fn prepare(vars: &StringMap, chunk: Vec<String>) -> (r: Option<Prepared>)
    ensures
        r is None <==> spec_prepare(vars@, views(chunk@)) is None,
        r matches Some(p) ==> {
            &&& spec_prepare(vars@, views(chunk@)) == Some((p.command@, p.background))
            &&& p.command_line@ == join(views(chunk@), " "@)
            &&& p.chunk == chunk
            &&& p.assessment@ == spec_analyze(p.command@)
            &&& p.is_meta == is_meta_name(p.command.name@)
        },
{
    let command_line = join_strings(chunk.as_slice(), " ");
    let tokens = copy_strings(chunk.as_slice());
    match parse(tokens) {
        None => None,
        Some(parsed) => {
            let ghost c = parsed@;
            let Command { name, args, stdout, stderr } = parsed;
            let mut args = args;
            let n = args.len();
            let background = n > 0 && str_eq(args[n - 1].as_str(), "&");
            if background {
                args.pop();
                assert(views(args@) =~= c.args.drop_last());
            }
            let expanded = expand_args(vars, args.as_slice());
            let command = Command { name, args: expanded, stdout, stderr };
            let assessment = analyze_command(&command);
            let is_meta = is_meta_command(command.name.as_str());
            assert(command@ == CommandModel {
                args: spec_expand_args(vars@, if background { c.args.drop_last() } else { c.args }),
                ..c
            });
            Some(Prepared { command_line, chunk, command, background, assessment, is_meta })
        },
    }
}

/// Levels at which the targets of a command are tracked and snapshotted.
pub open spec fn tracked_level(level: RiskLevel) -> bool {
    level == RiskLevel::StateChanging || level == RiskLevel::Destructive || level
        == RiskLevel::VeryHigh
}

/// Whether the targets of a command at `level` are tracked and snapshotted.
pub fn tracks_targets(level: RiskLevel) -> (b: bool)
    ensures
        b == tracked_level(level),
{
    level == RiskLevel::StateChanging || level == RiskLevel::Destructive || level
        == RiskLevel::VeryHigh
}

/// Whether the AI analysis is consulted: for a command that is no bookkeeping command
/// and whose level is unknown or very high.
pub fn consults_ai(level: RiskLevel, is_meta: bool) -> (b: bool)
    ensures
        b == (!is_meta && (level == RiskLevel::Unknown || level == RiskLevel::VeryHigh)),
{
    !is_meta && (level == RiskLevel::Unknown || level == RiskLevel::VeryHigh)
}

/// The colored label of a risk level in the risk report.
pub open spec fn risk_label_text(level: RiskLevel) -> Seq<char> {
    match level {
        RiskLevel::Safe => "\x1b[32mSAFE\x1b[0m"@,
        RiskLevel::ShellStateChange => "\x1b[36mSHELL-STATE\x1b[0m"@,
        RiskLevel::StateChanging => "\x1b[33mSTATE-CHANGING\x1b[0m"@,
        RiskLevel::Destructive => "\x1b[31mDANGEROUS\x1b[0m"@,
        RiskLevel::VeryHigh => "\x1b[1;31mVERY HIGH\x1b[0m"@,
        RiskLevel::Unknown => "\x1b[35mUNKNOWN\x1b[0m"@,
    }
}

/// The colored label of a risk level.
pub fn risk_label(level: RiskLevel) -> (r: &'static str)
    ensures
        r@ == risk_label_text(level),
{
    match level {
        RiskLevel::Safe => "\x1b[32mSAFE\x1b[0m",
        RiskLevel::ShellStateChange => "\x1b[36mSHELL-STATE\x1b[0m",
        RiskLevel::StateChanging => "\x1b[33mSTATE-CHANGING\x1b[0m",
        RiskLevel::Destructive => "\x1b[31mDANGEROUS\x1b[0m",
        RiskLevel::VeryHigh => "\x1b[1;31mVERY HIGH\x1b[0m",
        RiskLevel::Unknown => "\x1b[35mUNKNOWN\x1b[0m",
    }
}

/// How a target was found before the command ran.
pub open spec fn target_status(t: FsTarget) -> Seq<char> {
    if t.exists {
        "Exists ("@ + (if t.is_dir { "Directory"@ } else { "File"@ }) + " - "@ + (if t.readonly {
            "Read-Only"@
        } else {
            "Writable"@
        }) + ")"@
    } else {
        "Does Not Exist"@
    }
}

/// The report line of one target.
pub open spec fn target_line(t: FsTarget) -> Seq<char> {
    "  -> "@ + t.path@ + ": "@ + target_status(t) + "\n"@
}

/// The lines that report the tracked targets: none for a bookkeeping command or when
/// there are no targets, else a heading and one line per target.
pub open spec fn spec_target_report(targets: Seq<FsTarget>, is_meta: bool) -> Seq<Seq<char>> {
    if is_meta || targets.len() == 0 {
        Seq::empty()
    } else {
        seq!["[CHRONOS] Tracking Filesystem Targets:\n"@] + targets.map_values(
            |t: FsTarget| target_line(t),
        )
    }
}

fn status_text(t: &FsTarget) -> (r: String)
    ensures
        r@ == target_status(*t),
{
    if t.exists {
        let mut r = owned("Exists (");
        push_str(&mut r, if t.is_dir { "Directory" } else { "File" });
        push_str(&mut r, " - ");
        push_str(&mut r, if t.readonly { "Read-Only" } else { "Writable" });
        push_str(&mut r, ")");
        r
    } else {
        owned("Does Not Exist")
    }
}

/// The lines that report the tracked targets (see [`spec_target_report`]).
pub fn target_report(targets: &[FsTarget], is_meta: bool) -> (r: Vec<String>)
    ensures
        views(r@) == spec_target_report(targets@, is_meta),
{
    let mut r: Vec<String> = Vec::new();
    if is_meta || targets.len() == 0 {
        assert(views(r@) =~= spec_target_report(targets@, is_meta));
        return r;
    }
    let head = owned("[CHRONOS] Tracking Filesystem Targets:\n");
    proof {
        lemma_views_push(r@, head);
    }
    r.push(head);
    let mut i: usize = 0;
    while i < targets.len()
        invariant
            i <= targets@.len(),
            views(r@) == seq!["[CHRONOS] Tracking Filesystem Targets:\n"@] + targets@.take(
                i as int,
            ).map_values(|t: FsTarget| target_line(t)),
        decreases targets.len() - i,
    {
        let mut line = owned("  -> ");
        push_str(&mut line, targets[i].path.as_str());
        push_str(&mut line, ": ");
        let st = status_text(&targets[i]);
        push_str(&mut line, st.as_str());
        push_str(&mut line, "\n");
        proof {
            lemma_views_push(r@, line);
        }
        r.push(line);
        assert(targets@.take(i + 1).map_values(|t: FsTarget| target_line(t)) =~= targets@.take(
            i as int,
        ).map_values(|t: FsTarget| target_line(t)).push(target_line(targets@[i as int])));
        i = i + 1;
    }
    assert(targets@.take(targets@.len() as int) =~= targets@);
    r
}

/// What the analysis recommends, as it is shown.
pub open spec fn recommendation_name(r: AIRecommendation) -> Seq<char> {
    match r {
        AIRecommendation::Proceed => "Proceed"@,
        AIRecommendation::ProceedWithTransaction => "ProceedWithTransaction"@,
        AIRecommendation::Block => "Block"@,
        AIRecommendation::Escalate => "Escalate"@,
    }
}

fn recommendation_text(r: AIRecommendation) -> (s: &'static str)
    ensures
        s@ == recommendation_name(r),
{
    match r {
        AIRecommendation::Proceed => "Proceed",
        AIRecommendation::ProceedWithTransaction => "ProceedWithTransaction",
        AIRecommendation::Block => "Block",
        AIRecommendation::Escalate => "Escalate",
    }
}

/// The box in which the AI analysis is shown.
pub open spec fn analysis_box(intent: Seq<char>, explanation: Seq<char>, r: AIRecommendation) -> Seq<
    Seq<char>,
> {
    seq![
        "\n\u{250c}\u{2500}\u{2500}\u{2500}\u{2500}\u{2500}\u{2500}\u{2500}\u{2500}\u{2500}\u{2500}\u{2500}\u{2500}\u{2500}\u{2500}\u{2500}\u{2500} \x1b[1mAI SEMANTIC ANALYSIS\x1b[0m \u{2500}\u{2500}\u{2500}\u{2500}\u{2500}\u{2500}\u{2500}\u{2500}\u{2500}\u{2500}\u{2500}\u{2500}\u{2500}\u{2500}\u{2500}\u{2500}\u{2510}\n"@,
        "\u{2502} \x1b[36mIntent:\x1b[0m "@ + intent + "\n"@,
        "\u{2502} \x1b[36mExplanation:\x1b[0m "@ + explanation + "\n"@,
        "\u{2502} \x1b[36mRecommendation:\x1b[0m "@ + recommendation_name(r) + "\n"@,
        "\u{2514}\u{2500}\u{2500}\u{2500}\u{2500}\u{2500}\u{2500}\u{2500}\u{2500}\u{2500}\u{2500}\u{2500}\u{2500}\u{2500}\u{2500}\u{2500}\u{2500}\u{2500}\u{2500}\u{2500}\u{2500}\u{2500}\u{2500}\u{2500}\u{2500}\u{2500}\u{2500}\u{2500}\u{2500}\u{2500}\u{2500}\u{2500}\u{2500}\u{2500}\u{2500}\u{2500}\u{2500}\u{2500}\u{2500}\u{2500}\u{2500}\u{2500}\u{2500}\u{2500}\u{2500}\u{2500}\u{2500}\u{2500}\u{2500}\u{2500}\u{2500}\u{2500}\u{2500}\u{2500}\u{2500}\u{2518}\n\n"@,
    ]
}

/// Whether a command goes on after the AI analysis.
pub enum Verdict {
    /// It runs.
    Proceed,
    /// It does not run.
    Block,
    /// The user is asked, with this prompt, whether it runs.
    Confirm(String),
}

/// The model of a [`Verdict`].
pub enum VerdictModel {
    Proceed,
    Block,
    Confirm(Seq<char>),
}

impl View for Verdict {
    type V = VerdictModel;

    open spec fn view(&self) -> VerdictModel {
        match self {
            Verdict::Proceed => VerdictModel::Proceed,
            Verdict::Block => VerdictModel::Block,
            Verdict::Confirm(p) => VerdictModel::Confirm(p@),
        }
    }
}

/// What follows the analysis of a command at `level`, and the lines shown first.  An
/// analysis that came back is shown; `Block` stops the command; `Escalate`, or a very
/// high risk, asks the user.  When the analysis failed, a very high risk command is
/// stopped (the layer fails closed) and any other asks the user.
pub open spec fn spec_ai_decision(
    level: RiskLevel,
    outcome: Result<(Seq<char>, Seq<char>, AIRecommendation), Seq<char>>,
) -> (Seq<Seq<char>>, VerdictModel) {
    match outcome {
        Ok((intent, explanation, r)) => {
            let shown = analysis_box(intent, explanation, r);
            if r == AIRecommendation::Block {
                (
                    shown.push(
                        "[CHRONOS] \x1b[31mCommand blocked by AI Semantic Layer recommendation.\x1b[0m\n"@,
                    ),
                    VerdictModel::Block,
                )
            } else if r == AIRecommendation::Escalate || level == RiskLevel::VeryHigh {
                (
                    shown,
                    VerdictModel::Confirm(
                        "[CHRONOS] \x1b[33mAI Escalate / Very High Risk. Proceed with execution? [y/N]: \x1b[0m"@,
                    ),
                )
            } else {
                (shown, VerdictModel::Proceed)
            }
        },
        Err(e) => {
            let failed = "[CHRONOS] \x1b[31m\u{26a0} AI Analysis Failed (Timeout/Network): "@ + e
                + "\x1b[0m\n"@;
            if level == RiskLevel::VeryHigh {
                (
                    seq![
                        failed,
                        "[CHRONOS] \x1b[31mPOLICY: Fail-Closed. Very High risk commands are blocked when AI is unavailable.\x1b[0m\n"@,
                    ],
                    VerdictModel::Block,
                )
            } else {
                (
                    seq![failed],
                    VerdictModel::Confirm(
                        "[CHRONOS] \x1b[33mPOLICY: Escalate. Unknown command with no AI guidance. Proceed? [y/N]: \x1b[0m"@,
                    ),
                )
            }
        },
    }
}

/// The model of the outcome of the AI analysis.
pub open spec fn analysis_outcome(outcome: Result<AIAnalysis, String>) -> Result<
    (Seq<char>, Seq<char>, AIRecommendation),
    Seq<char>,
> {
    match outcome {
        Ok(a) => Ok((a.intent@, a.explanation@, a.recommendation)),
        Err(e) => Err(e@),
    }
}

/// Decides what follows the AI analysis (see [`spec_ai_decision`]).
pub fn ai_decision(level: RiskLevel, outcome: &Result<AIAnalysis, String>) -> (r: (
    Vec<String>,
    Verdict,
))
    ensures
        (views(r.0@), r.1@) == spec_ai_decision(level, analysis_outcome(*outcome)),
{
    match outcome {
        Ok(a) => {
            let mut lines: Vec<String> = Vec::new();
            lines.push(owned("\n\u{250c}\u{2500}\u{2500}\u{2500}\u{2500}\u{2500}\u{2500}\u{2500}\u{2500}\u{2500}\u{2500}\u{2500}\u{2500}\u{2500}\u{2500}\u{2500}\u{2500} \x1b[1mAI SEMANTIC ANALYSIS\x1b[0m \u{2500}\u{2500}\u{2500}\u{2500}\u{2500}\u{2500}\u{2500}\u{2500}\u{2500}\u{2500}\u{2500}\u{2500}\u{2500}\u{2500}\u{2500}\u{2500}\u{2510}\n"));
            let mut l1 = owned("\u{2502} \x1b[36mIntent:\x1b[0m ");
            push_str(&mut l1, a.intent.as_str());
            push_str(&mut l1, "\n");
            lines.push(l1);
            let mut l2 = owned("\u{2502} \x1b[36mExplanation:\x1b[0m ");
            push_str(&mut l2, a.explanation.as_str());
            push_str(&mut l2, "\n");
            lines.push(l2);
            let mut l3 = owned("\u{2502} \x1b[36mRecommendation:\x1b[0m ");
            push_str(&mut l3, recommendation_text(a.recommendation));
            push_str(&mut l3, "\n");
            lines.push(l3);
            lines.push(owned("\u{2514}\u{2500}\u{2500}\u{2500}\u{2500}\u{2500}\u{2500}\u{2500}\u{2500}\u{2500}\u{2500}\u{2500}\u{2500}\u{2500}\u{2500}\u{2500}\u{2500}\u{2500}\u{2500}\u{2500}\u{2500}\u{2500}\u{2500}\u{2500}\u{2500}\u{2500}\u{2500}\u{2500}\u{2500}\u{2500}\u{2500}\u{2500}\u{2500}\u{2500}\u{2500}\u{2500}\u{2500}\u{2500}\u{2500}\u{2500}\u{2500}\u{2500}\u{2500}\u{2500}\u{2500}\u{2500}\u{2500}\u{2500}\u{2500}\u{2500}\u{2500}\u{2500}\u{2500}\u{2500}\u{2500}\u{2518}\n\n"));
            assert(views(lines@) =~= analysis_box(a.intent@, a.explanation@, a.recommendation));
            if a.recommendation == AIRecommendation::Block {
                let b = owned(
                    "[CHRONOS] \x1b[31mCommand blocked by AI Semantic Layer recommendation.\x1b[0m\n",
                );
                proof {
                    lemma_views_push(lines@, b);
                }
                lines.push(b);
                (lines, Verdict::Block)
            } else if a.recommendation == AIRecommendation::Escalate || level == RiskLevel::VeryHigh {
                (
                    lines,
                    Verdict::Confirm(
                        owned(
                            "[CHRONOS] \x1b[33mAI Escalate / Very High Risk. Proceed with execution? [y/N]: \x1b[0m",
                        ),
                    ),
                )
            } else {
                (lines, Verdict::Proceed)
            }
        },
        Err(e) => {
            let mut failed = owned("[CHRONOS] \x1b[31m\u{26a0} AI Analysis Failed (Timeout/Network): ");
            push_str(&mut failed, e.as_str());
            push_str(&mut failed, "\x1b[0m\n");
            if level == RiskLevel::VeryHigh {
                let lines = vec![
                    failed,
                    owned(
                        "[CHRONOS] \x1b[31mPOLICY: Fail-Closed. Very High risk commands are blocked when AI is unavailable.\x1b[0m\n",
                    ),
                ];
                assert(views(lines@) =~= spec_ai_decision(level, analysis_outcome(*outcome)).0);
                (lines, Verdict::Block)
            } else {
                let lines = vec![failed];
                assert(views(lines@) =~= spec_ai_decision(level, analysis_outcome(*outcome)).0);
                (
                    lines,
                    Verdict::Confirm(
                        owned(
                            "[CHRONOS] \x1b[33mPOLICY: Escalate. Unknown command with no AI guidance. Proceed? [y/N]: \x1b[0m",
                        ),
                    ),
                )
            }
        },
    }
}

/// Whether the user's reply to a prompt agrees: `y` or `Y`, blanks around it ignored.
pub open spec fn agrees(reply: Seq<char>) -> bool {
    trim(reply) == "y"@ || trim(reply) == "Y"@
}

/// Whether the reply agrees to running the command.
pub fn user_confirms(reply: &str) -> (b: bool)
    ensures
        b == agrees(reply@),
{
    let t = trimmed(reply);
    str_eq(t.as_str(), "y") || str_eq(t.as_str(), "Y")
}

/// The line shown when the user refused to run the command.
pub fn blocked_by_user() -> (r: String)
    ensures
        r@ == "[CHRONOS] Command blocked by user.\n"@,
{
    owned("[CHRONOS] Command blocked by user.\n")
}

/// The lines shown when the transaction of a command is opened: its identifier, and
/// for a tracked level that its targets are being secured.
pub fn opening_lines(tx: &Transaction) -> (r: Vec<String>)
    ensures
        views(r@) == if tracked_level(tx.assessment.level) {
            seq!["[CHRONOS] Transaction Created: "@ + tx.id@ + "\n"@, "[CHRONOS] Securing targets...\n"@]
        } else {
            seq!["[CHRONOS] Transaction Created: "@ + tx.id@ + "\n"@]
        },
{
    let mut first = owned("[CHRONOS] Transaction Created: ");
    push_str(&mut first, tx.id.as_str());
    push_str(&mut first, "\n");
    if tracks_targets(tx.assessment.level) {
        let r = vec![first, owned("[CHRONOS] Securing targets...\n")];
        assert(views(r@) =~= seq!["[CHRONOS] Transaction Created: "@ + tx.id@ + "\n"@, "[CHRONOS] Securing targets...\n"@]);
        r
    } else {
        let r = vec![first];
        assert(views(r@) =~= seq!["[CHRONOS] Transaction Created: "@ + tx.id@ + "\n"@]);
        r
    }
}

/// Records the outcome of the snapshot of a transaction's targets: a failure is
/// reported on standard error and marks the transaction failed, a success marks it
/// prepared; either way the transaction then moves on to executing.
pub fn after_snapshot(tx: &mut Transaction, outcome: Result<(), String>) -> (r: Vec<Effect>)
    ensures
        final(tx).status == TransactionStatus::Executing,
        final(tx).id == old(tx).id,
        final(tx).timestamp == old(tx).timestamp,
        final(tx).command_line == old(tx).command_line,
        final(tx).chunk == old(tx).chunk,
        final(tx).assessment == old(tx).assessment,
        final(tx).targets == old(tx).targets,
        effect_models(r@) == match outcome {
            Ok(_) => seq![
                EffectModel::Print("[CHRONOS] Snapshot secured successfully.\n"@, RedirectModel::Inherit),
            ],
            Err(e) => seq![
                EffectModel::PrintError("[CHRONOS] \u{26a0} WARNING: Failed to create snapshot: "@ + e@ + "\n"@),
            ],
        },
{
    let r = match outcome {
        Ok(_) => {
            tx.transition_to(TransactionStatus::Prepared);
            vec![Effect::Print(owned("[CHRONOS] Snapshot secured successfully.\n"), Redirect::Inherit)]
        },
        Err(e) => {
            tx.transition_to(TransactionStatus::Failed);
            let mut m = owned("[CHRONOS] \u{26a0} WARNING: Failed to create snapshot: ");
            push_str(&mut m, e.as_str());
            push_str(&mut m, "\n");
            vec![Effect::PrintError(m)]
        },
    };
    tx.transition_to(TransactionStatus::Executing);
    assert(effect_models(r@) =~= match outcome {
        Ok(_) => seq![
            EffectModel::Print("[CHRONOS] Snapshot secured successfully.\n"@, RedirectModel::Inherit),
        ],
        Err(e) => seq![
            EffectModel::PrintError("[CHRONOS] \u{26a0} WARNING: Failed to create snapshot: "@ + e@ + "\n"@),
        ],
    });
    r
}

/// Marks the transaction committed once its command ran, and gives the line that says so.
pub fn commit(tx: &mut Transaction) -> (r: String)
    ensures
        final(tx).status == TransactionStatus::Committed,
        final(tx).id == old(tx).id,
        final(tx).timestamp == old(tx).timestamp,
        final(tx).command_line == old(tx).command_line,
        final(tx).chunk == old(tx).chunk,
        final(tx).assessment == old(tx).assessment,
        final(tx).targets == old(tx).targets,
        r@ == "[CHRONOS] Transaction Committed.\n"@,
{
    tx.transition_to(TransactionStatus::Committed);
    owned("[CHRONOS] Transaction Committed.\n")
}

/// The message for a command that is neither a built-in nor found on `PATH`; it goes to
/// standard error or to the file standard error is redirected to.
pub fn not_found_message(name: &str) -> (r: String)
    ensures
        r@ == name@ + ": command not found\n"@,
{
    let mut r = owned(name);
    push_str(&mut r, ": command not found\n");
    r
}

/// Whether the shell stops after a command with this outcome: only after `exit`.
pub fn stops_shell(status: BuiltinStatus) -> (b: bool)
    ensures
        b == (status == BuiltinStatus::Exit),
{
    status == BuiltinStatus::Exit
}

/// The lines `history` gives inside a pipeline for the entries `start..end`: each
/// number right aligned in five columns, two blanks, and the command.
pub open spec fn piped_history(entries: Seq<Seq<char>>, start: int, end: int) -> Seq<char>
    decreases end - start,
{
    if end <= start {
        Seq::empty()
    } else {
        piped_history(entries, start, end - 1) + pad_left(decimal(end as nat), 5) + "  "@
            + entries[end - 1] + "\n"@
    }
}

/// What a built-in writes into a pipeline when it is not the last command of it: `echo`
/// and `pwd` as usual, `type` its description, `history` the last `N` entries (all when
/// no number is given); other built-ins write nothing.
pub open spec fn spec_capture(
    command: Seq<char>,
    args: Seq<Seq<char>>,
    cwd: Option<Seq<char>>,
    executable: Option<Seq<char>>,
    entries: Seq<Seq<char>>,
) -> Seq<char> {
    if command == "echo"@ {
        echo_text(args)
    } else if command == "pwd"@ {
        match cwd {
            Some(d) => d.push('\n'),
            None => Seq::empty(),
        }
    } else if command == "type"@ {
        if args.len() > 0 {
            type_text(args[0], executable)
        } else {
            Seq::empty()
        }
    } else if command == "history"@ {
        let total = entries.len();
        let limit = history_limit(args, total);
        let start = if limit >= total { 0 } else { total - limit };
        piped_history(entries, start as int, total as int)
    } else {
        Seq::empty()
    }
}

proof fn lemma_capture_names_differ()
    ensures
        "echo"@ != "pwd"@,
        "echo"@ != "type"@,
        "echo"@ != "history"@,
        "pwd"@ != "type"@,
        "pwd"@ != "history"@,
        "type"@ != "history"@,
{
    reveal_strlit("echo");
    reveal_strlit("pwd");
    reveal_strlit("type");
    reveal_strlit("history");
    assert("echo"@[0] != "type"@[0]);
    assert("pwd"@.len() == 3 && "history"@.len() == 7 && "echo"@.len() == 4 && "type"@.len() == 4);
}

/// The output of a built-in that feeds the next command of a pipeline (see
/// [`spec_capture`]); `cwd` is the working directory when it can be read and
/// `executable` where the search of `PATH` found a program named by the first argument.
pub fn capture_builtin(
    command: &str,
    args: &[String],
    cwd: Option<String>,
    executable: Option<String>,
    history: &History,
) -> (r: String)
    ensures
        r@ == spec_capture(
            command@,
            views(args@),
            match cwd { Some(d) => Some(d@), None => None },
            match executable { Some(p) => Some(p@), None => None },
            views(history.entries@),
        ),
{
    proof {
        lemma_capture_names_differ();
    }
    if str_eq(command, "echo") {
        let mut text = join_strings(args, " ");
        push_char(&mut text, '\n');
        assert(text@ =~= echo_text(views(args@)));
        text
    } else if str_eq(command, "pwd") {
        match cwd {
            Some(d) => {
                let mut text = d;
                push_char(&mut text, '\n');
                assert(text@ =~= d@.push('\n'));
                text
            },
            None => String::new(),
        }
    } else if str_eq(command, "type") {
        if args.len() > 0 {
            describe(args[0].as_str(), &executable)
        } else {
            String::new()
        }
    } else if str_eq(command, "history") {
        let ghost entries = views(history.entries@);
        let total = history.entries.len();
        let mut limit = total;
        if args.len() > 0 {
            match parse_decimal(args[0].as_str()) {
                Some(n) => {
                    limit = n;
                },
                None => {},
            }
        }
        let start = if limit >= total { 0 } else { total - limit };
        let mut out = String::new();
        let mut i = start;
        while i < total
            invariant
                start <= i <= total == history.entries@.len(),
                entries == views(history.entries@),
                out@ == piped_history(entries, start as int, i as int),
            decreases total - i,
        {
            let line = format_history_line(i, history.entries[i].as_str(), "  ");
            push_str(&mut out, line.as_str());
            assert(entries[i as int] == history.entries@[i as int]@);
            i = i + 1;
        }
        out
    } else {
        String::new()
    }
}

/// One step of running a prepared command.
#[derive(Clone, Copy, Debug, PartialEq, Eq, Structural)]
pub enum Step {
    /// Show the assessed risk.
    ReportRisk,
    /// Find and inspect the paths the command may touch, and report them.
    TrackTargets,
    /// Ask the AI analysis, and stop or ask the user as [`ai_decision`] says.
    ConsultAi,
    /// Open the command's transaction and announce it.
    OpenTransaction,
    /// Snapshot the targets and record the outcome (see [`after_snapshot`]).
    Snapshot,
    /// Move the transaction to executing without a snapshot.
    StartExecuting,
    /// Create the files the command's output is redirected to.
    TouchRedirects,
    /// Run the command: as a built-in, or else as a program (see [`launch`]).
    RunCommand,
    /// Commit the transaction and record it (see [`commit`]).
    CommitTransaction,
}

/// The steps of running a command, in order.  A bookkeeping command is neither
/// reported nor recorded; targets are tracked and snapshotted at the levels that change
/// the filesystem; the AI analysis is consulted as [`consults_ai`] says.
pub open spec fn spec_steps(is_meta: bool, level: RiskLevel) -> Seq<Step> {
    let report: Seq<Step> = if is_meta { Seq::empty() } else { seq![Step::ReportRisk] };
    let track: Seq<Step> = if tracked_level(level) { seq![Step::TrackTargets] } else { Seq::empty() };
    let consult: Seq<Step> = if !is_meta && (level == RiskLevel::Unknown || level == RiskLevel::VeryHigh) {
        seq![Step::ConsultAi]
    } else {
        Seq::empty()
    };
    let open: Seq<Step> = if is_meta {
        Seq::empty()
    } else if tracked_level(level) {
        seq![Step::OpenTransaction, Step::Snapshot]
    } else {
        seq![Step::OpenTransaction, Step::StartExecuting]
    };
    let close: Seq<Step> = if is_meta { Seq::empty() } else { seq![Step::CommitTransaction] };
    report + track + consult + open + seq![Step::TouchRedirects, Step::RunCommand] + close
}

/// The steps of running a prepared command (see [`spec_steps`]).
pub fn steps(is_meta: bool, level: RiskLevel) -> (r: Vec<Step>)
    ensures
        r@ == spec_steps(is_meta, level),
{
    let mut r: Vec<Step> = Vec::new();
    if !is_meta {
        r.push(Step::ReportRisk);
    }
    if tracks_targets(level) {
        r.push(Step::TrackTargets);
    }
    if consults_ai(level, is_meta) {
        r.push(Step::ConsultAi);
    }
    if !is_meta {
        r.push(Step::OpenTransaction);
        if tracks_targets(level) {
            r.push(Step::Snapshot);
        } else {
            r.push(Step::StartExecuting);
        }
    }
    r.push(Step::TouchRedirects);
    r.push(Step::RunCommand);
    if !is_meta {
        r.push(Step::CommitTransaction);
    }
    assert(r@ =~= spec_steps(is_meta, level));
    r
}

/// What happens to a command after the built-ins were asked to run it.
pub enum Launch {
    /// A built-in ran it.
    Done,
    /// The program found on `PATH` starts in the background.
    Background,
    /// The program found on `PATH` runs and is waited for.
    Foreground,
    /// Nothing runs it: this message goes to standard error or its redirect.
    NotFound(String),
}

/// Decides how a command runs once the built-ins had their turn: a command no
/// built-in handled runs as the program found on `PATH`, in the background when a `&`
/// asked for it, and is reported as not found when there is none.
pub fn launch(status: BuiltinStatus, found: bool, background: bool, name: &str) -> (r: Launch)
    ensures
        status != BuiltinStatus::NotHandled ==> r is Done,
        status == BuiltinStatus::NotHandled && found && background ==> r is Background,
        status == BuiltinStatus::NotHandled && found && !background ==> r is Foreground,
        status == BuiltinStatus::NotHandled && !found ==> (r matches Launch::NotFound(m) && m@
            == name@ + ": command not found\n"@),
{
    if status != BuiltinStatus::NotHandled {
        Launch::Done
    } else if found {
        if background {
            Launch::Background
        } else {
            Launch::Foreground
        }
    } else {
        Launch::NotFound(not_found_message(name))
    }
}

} // verus!
