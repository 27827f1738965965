//! The deterministic risk rating of a command.
use vstd::prelude::*;
use crate::parser::ast::{Command, Redirect, RedirectModel};
use crate::text::{contains_char, str_eq, views};

verus! {

/// How risky a command is judged to be.
#[derive(Clone, Copy, Debug, PartialEq, Eq, Structural)]
pub enum RiskLevel {
    Safe,
    ShellStateChange,
    StateChanging,
    Destructive,
    VeryHigh,
    Unknown,
}

/// Why a command received its rating.
#[derive(Clone, Copy, Debug, PartialEq, Eq, Structural)]
pub enum RiskReason {
    ReadOnlyCommand,
    ShellStateCommand,
    StateAlteringCommand,
    DestructiveCommand,
    UnknownCommand,
    RecursiveFlag,
    ForceFlag,
    WildcardTarget,
    RootDirectoryTarget,
    FileOverwrite,
    FileAppend,
    StderrRedirect,
    NetworkCommand,
}

/// What a command may do.
#[derive(Clone, Copy, Debug, PartialEq, Eq, Structural)]
pub enum Effect {
    ReadOnly,
    ShellStateChange,
    FilesystemCreate,
    FilesystemModify,
    FilesystemDelete,
    ProcessSpawn,
    NetworkActivity,
}

/// The rating of a command.  The confidence is the fraction
/// `confidence_tenths / 10` multiplied by `0.8` once for each wildcard argument;
/// it is kept in this exact form and turned into a number only for display.
pub struct RiskAssessment {
    pub level: RiskLevel,
    pub score: u8,
    pub reasons: Vec<RiskReason>,
    pub effects: Vec<Effect>,
    pub confidence_tenths: u8,
    pub wildcard_discounts: usize,
}

/// The model of a [`RiskAssessment`].
pub struct AssessmentModel {
    pub level: RiskLevel,
    pub score: u8,
    pub reasons: Seq<RiskReason>,
    pub effects: Seq<Effect>,
    pub confidence_tenths: u8,
    pub wildcard_discounts: nat,
}

impl View for RiskAssessment {
    type V = AssessmentModel;

    open spec fn view(&self) -> AssessmentModel {
        AssessmentModel {
            level: self.level,
            score: self.score,
            reasons: self.reasons@,
            effects: self.effects@,
            confidence_tenths: self.confidence_tenths,
            wildcard_discounts: self.wildcard_discounts as nat,
        }
    }
}

impl RiskAssessment {
    /// A copy of this assessment.
    pub fn duplicate(&self) -> (r: RiskAssessment)
        ensures
            r@ == self@,
    {
        RiskAssessment {
            level: self.level,
            score: self.score,
            reasons: self.reasons.clone(),
            effects: self.effects.clone(),
            confidence_tenths: self.confidence_tenths,
            wildcard_discounts: self.wildcard_discounts,
        }
    }
}

/// Read-only commands.
pub open spec fn is_safe_name(n: Seq<char>) -> bool {
    n == "ls"@ || n == "pwd"@ || n == "echo"@ || n == "cat"@ || n == "grep"@ || n == "type"@
        || n == "history"@ || n == "jobs"@
}

/// Commands that change only the shell's own state.
pub open spec fn is_shell_state_name(n: Seq<char>) -> bool {
    n == "cd"@ || n == "declare"@ || n == "export"@ || n == "exit"@ || n == "transactions"@
        || n == "undo"@ || n == "redo"@ || n == "purge"@
}

pub open spec fn is_create_name(n: Seq<char>) -> bool {
    n == "touch"@ || n == "mkdir"@
}

pub open spec fn is_copy_name(n: Seq<char>) -> bool {
    n == "cp"@ || n == "mv"@
}

pub open spec fn is_delete_name(n: Seq<char>) -> bool {
    n == "rm"@ || n == "rmdir"@
}

pub open spec fn is_network_name(n: Seq<char>) -> bool {
    n == "ping"@ || n == "curl"@ || n == "wget"@
}

pub open spec fn model(
    level: RiskLevel,
    score: u8,
    reasons: Seq<RiskReason>,
    effects: Seq<Effect>,
    tenths: u8,
) -> AssessmentModel {
    AssessmentModel {
        level,
        score,
        reasons,
        effects,
        confidence_tenths: tenths,
        wildcard_discounts: 0,
    }
}

/// The rating that a command's name alone gives.
pub open spec fn base_assessment(n: Seq<char>) -> AssessmentModel {
    if is_safe_name(n) {
        model(RiskLevel::Safe, 0, seq![RiskReason::ReadOnlyCommand], seq![Effect::ReadOnly], 10)
    } else if is_shell_state_name(n) {
        model(
            RiskLevel::ShellStateChange,
            10,
            seq![RiskReason::ShellStateCommand],
            seq![Effect::ShellStateChange],
            10,
        )
    } else if is_create_name(n) {
        model(
            RiskLevel::StateChanging,
            20,
            seq![RiskReason::StateAlteringCommand],
            seq![Effect::FilesystemCreate],
            9,
        )
    } else if is_copy_name(n) {
        model(
            RiskLevel::StateChanging,
            30,
            seq![RiskReason::StateAlteringCommand],
            seq![Effect::FilesystemCreate, Effect::FilesystemModify],
            9,
        )
    } else if is_delete_name(n) {
        model(
            RiskLevel::Destructive,
            70,
            seq![RiskReason::DestructiveCommand],
            seq![Effect::FilesystemDelete],
            9,
        )
    } else if is_network_name(n) {
        model(
            RiskLevel::Unknown,
            50,
            seq![RiskReason::NetworkCommand],
            seq![Effect::NetworkActivity, Effect::ProcessSpawn],
            8,
        )
    } else {
        model(
            RiskLevel::Unknown,
            50,
            seq![RiskReason::UnknownCommand],
            seq![Effect::ProcessSpawn],
            1,
        )
    }
}

/// `u8::saturating_add`.
pub open spec fn sat_add(a: u8, b: u8) -> u8 {
    if a + b > 255 {
        255
    } else {
        (a + b) as u8
    }
}

pub open spec fn max_u8(a: u8, b: u8) -> u8 {
    if a >= b {
        a
    } else {
        b
    }
}

pub open spec fn min_u8(a: u8, b: u8) -> u8 {
    if a <= b {
        a
    } else {
        b
    }
}

/// `s` with `x` appended unless it already holds it.
pub open spec fn add_once<T>(s: Seq<T>, x: T) -> Seq<T> {
    if s.contains(x) {
        s
    } else {
        s.push(x)
    }
}

/// Levels that a file redirect raises to `StateChanging`.
pub open spec fn raised_by_redirect(l: RiskLevel) -> bool {
    l == RiskLevel::Safe || l == RiskLevel::Unknown || l == RiskLevel::ShellStateChange
}

/// The effect of a redirect of standard output.
pub open spec fn apply_stdout(a: AssessmentModel, r: RedirectModel) -> AssessmentModel {
    match r {
        RedirectModel::Inherit => a,
        _ => {
            let (level, score) = if raised_by_redirect(a.level) {
                (RiskLevel::StateChanging, max_u8(a.score, 40))
            } else {
                (a.level, a.score)
            };
            let reason = if r is Overwrite {
                RiskReason::FileOverwrite
            } else {
                RiskReason::FileAppend
            };
            AssessmentModel {
                level,
                score,
                reasons: a.reasons.push(reason),
                effects: add_once(a.effects, Effect::FilesystemModify),
                ..a
            }
        },
    }
}

/// The effect of a redirect of standard error.
pub open spec fn apply_stderr(a: AssessmentModel, r: RedirectModel) -> AssessmentModel {
    match r {
        RedirectModel::Inherit => a,
        _ => {
            let (level, score) = if raised_by_redirect(a.level) {
                (RiskLevel::StateChanging, max_u8(a.score, 30))
            } else {
                (a.level, a.score)
            };
            AssessmentModel {
                level,
                score,
                reasons: a.reasons.push(RiskReason::StderrRedirect),
                effects: add_once(a.effects, Effect::FilesystemModify),
                ..a
            }
        },
    }
}

pub open spec fn is_recursive_flag(arg: Seq<char>) -> bool {
    arg == "-r"@ || arg == "-R"@ || arg == "-rf"@ || arg == "-fr"@
}

pub open spec fn is_force_flag(arg: Seq<char>) -> bool {
    arg == "-f"@ || arg == "-rf"@ || arg == "-fr"@
}

pub open spec fn is_root_target(arg: Seq<char>) -> bool {
    arg == "/"@ || arg == "/*"@
}

pub open spec fn destructive(l: RiskLevel) -> bool {
    l == RiskLevel::Destructive || l == RiskLevel::VeryHigh
}

pub open spec fn recursive_step(a: AssessmentModel, arg: Seq<char>) -> AssessmentModel {
    if is_recursive_flag(arg) {
        let (level, score) = if a.level == RiskLevel::Destructive {
            (RiskLevel::VeryHigh, sat_add(a.score, 15))
        } else {
            (a.level, sat_add(a.score, 5))
        };
        AssessmentModel {
            level,
            score,
            reasons: add_once(a.reasons, RiskReason::RecursiveFlag),
            ..a
        }
    } else {
        a
    }
}

pub open spec fn force_step(a: AssessmentModel, arg: Seq<char>) -> AssessmentModel {
    if is_force_flag(arg) {
        AssessmentModel {
            score: if destructive(a.level) {
                sat_add(a.score, 10)
            } else {
                a.score
            },
            reasons: add_once(a.reasons, RiskReason::ForceFlag),
            ..a
        }
    } else {
        a
    }
}

pub open spec fn wildcard_step(a: AssessmentModel, arg: Seq<char>) -> AssessmentModel {
    if arg.contains('*') {
        AssessmentModel {
            score: sat_add(a.score, 10),
            wildcard_discounts: a.wildcard_discounts + 1,
            reasons: add_once(a.reasons, RiskReason::WildcardTarget),
            ..a
        }
    } else {
        a
    }
}

pub open spec fn root_step(a: AssessmentModel, arg: Seq<char>) -> AssessmentModel {
    if is_root_target(arg) && destructive(a.level) {
        AssessmentModel {
            level: RiskLevel::VeryHigh,
            score: 100,
            reasons: add_once(a.reasons, RiskReason::RootDirectoryTarget),
            ..a
        }
    } else {
        a
    }
}

/// The effect of one argument.
pub open spec fn arg_step(a: AssessmentModel, arg: Seq<char>) -> AssessmentModel {
    root_step(wildcard_step(force_step(recursive_step(a, arg), arg), arg), arg)
}

/// The effect of the arguments, in order.
pub open spec fn apply_args(a: AssessmentModel, args: Seq<Seq<char>>) -> AssessmentModel
    decreases args.len(),
{
    if args.len() == 0 {
        a
    } else {
        arg_step(apply_args(a, args.drop_last()), args.last())
    }
}

/// The rating of a command: from its name, then its redirects, then each argument,
/// the score capped at 100.
pub open spec fn spec_analyze(c: crate::parser::ast::CommandModel) -> AssessmentModel {
    let a = apply_args(apply_stderr(apply_stdout(base_assessment(c.name), c.stdout), c.stderr), c.args);
    AssessmentModel { score: min_u8(a.score, 100), ..a }
}

fn is_safe_command(n: &str) -> (b: bool)
    ensures
        b == is_safe_name(n@),
{
    str_eq(n, "ls") || str_eq(n, "pwd") || str_eq(n, "echo") || str_eq(n, "cat") || str_eq(n, "grep")
        || str_eq(n, "type") || str_eq(n, "history") || str_eq(n, "jobs")
}

fn is_shell_state_command(n: &str) -> (b: bool)
    ensures
        b == is_shell_state_name(n@),
{
    str_eq(n, "cd") || str_eq(n, "declare") || str_eq(n, "export") || str_eq(n, "exit") || str_eq(
        n,
        "transactions",
    ) || str_eq(n, "undo") || str_eq(n, "redo") || str_eq(n, "purge")
}

fn make(
    level: RiskLevel,
    score: u8,
    reasons: Vec<RiskReason>,
    effects: Vec<Effect>,
    tenths: u8,
) -> (a: RiskAssessment)
    ensures
        a@ == model(level, score, reasons@, effects@, tenths),
{
    RiskAssessment { level, score, reasons, effects, confidence_tenths: tenths, wildcard_discounts: 0 }
}

fn base(n: &str) -> (a: RiskAssessment)
    ensures
        a@ == base_assessment(n@),
{
    if is_safe_command(n) {
        let r = vec![RiskReason::ReadOnlyCommand];
        let e = vec![Effect::ReadOnly];
        assert(r@ =~= seq![RiskReason::ReadOnlyCommand] && e@ =~= seq![Effect::ReadOnly]);
        make(RiskLevel::Safe, 0, r, e, 10)
    } else if is_shell_state_command(n) {
        let r = vec![RiskReason::ShellStateCommand];
        let e = vec![Effect::ShellStateChange];
        assert(r@ =~= seq![RiskReason::ShellStateCommand] && e@ =~= seq![Effect::ShellStateChange]);
        make(RiskLevel::ShellStateChange, 10, r, e, 10)
    } else if str_eq(n, "touch") || str_eq(n, "mkdir") {
        let r = vec![RiskReason::StateAlteringCommand];
        let e = vec![Effect::FilesystemCreate];
        assert(r@ =~= seq![RiskReason::StateAlteringCommand] && e@ =~= seq![Effect::FilesystemCreate]);
        make(RiskLevel::StateChanging, 20, r, e, 9)
    } else if str_eq(n, "cp") || str_eq(n, "mv") {
        let r = vec![RiskReason::StateAlteringCommand];
        let e = vec![Effect::FilesystemCreate, Effect::FilesystemModify];
        assert(r@ =~= seq![RiskReason::StateAlteringCommand] && e@ =~= seq![
            Effect::FilesystemCreate,
            Effect::FilesystemModify,
        ]);
        make(RiskLevel::StateChanging, 30, r, e, 9)
    } else if str_eq(n, "rm") || str_eq(n, "rmdir") {
        let r = vec![RiskReason::DestructiveCommand];
        let e = vec![Effect::FilesystemDelete];
        assert(r@ =~= seq![RiskReason::DestructiveCommand] && e@ =~= seq![Effect::FilesystemDelete]);
        make(RiskLevel::Destructive, 70, r, e, 9)
    } else if str_eq(n, "ping") || str_eq(n, "curl") || str_eq(n, "wget") {
        let r = vec![RiskReason::NetworkCommand];
        let e = vec![Effect::NetworkActivity, Effect::ProcessSpawn];
        assert(r@ =~= seq![RiskReason::NetworkCommand] && e@ =~= seq![
            Effect::NetworkActivity,
            Effect::ProcessSpawn,
        ]);
        make(RiskLevel::Unknown, 50, r, e, 8)
    } else {
        let r = vec![RiskReason::UnknownCommand];
        let e = vec![Effect::ProcessSpawn];
        assert(r@ =~= seq![RiskReason::UnknownCommand] && e@ =~= seq![Effect::ProcessSpawn]);
        make(RiskLevel::Unknown, 50, r, e, 1)
    }
}

fn has_reason(v: &Vec<RiskReason>, x: RiskReason) -> (b: bool)
    ensures
        b == v@.contains(x),
{
    let mut i: usize = 0;
    while i < v.len()
        invariant
            i <= v@.len(),
            forall|k: int| 0 <= k < i ==> v@[k] != x,
        decreases v.len() - i,
    {
        if v[i] == x {
            return true;
        }
        i = i + 1;
    }
    false
}

fn has_effect(v: &Vec<Effect>, x: Effect) -> (b: bool)
    ensures
        b == v@.contains(x),
{
    let mut i: usize = 0;
    while i < v.len()
        invariant
            i <= v@.len(),
            forall|k: int| 0 <= k < i ==> v@[k] != x,
        decreases v.len() - i,
    {
        if v[i] == x {
            return true;
        }
        i = i + 1;
    }
    false
}

fn add_reason_once(v: &mut Vec<RiskReason>, x: RiskReason)
    ensures
        final(v)@ == add_once(old(v)@, x),
{
    if !has_reason(v, x) {
        v.push(x);
    }
}

fn add_effect_once(v: &mut Vec<Effect>, x: Effect)
    ensures
        final(v)@ == add_once(old(v)@, x),
{
    if !has_effect(v, x) {
        v.push(x);
    }
}

fn sat_add_u8(a: u8, b: u8) -> (r: u8)
    ensures
        r == sat_add(a, b),
{
    if a as u16 + b as u16 > 255 {
        255
    } else {
        a + b
    }
}

fn raise_for_redirect(a: &mut RiskAssessment, floor: u8)
    ensures
        final(a).level == (if raised_by_redirect(old(a).level) {
            RiskLevel::StateChanging
        } else {
            old(a).level
        }),
        final(a).score == (if raised_by_redirect(old(a).level) {
            max_u8(old(a).score, floor)
        } else {
            old(a).score
        }),
        final(a).reasons == old(a).reasons,
        final(a).effects == old(a).effects,
        final(a).confidence_tenths == old(a).confidence_tenths,
        final(a).wildcard_discounts == old(a).wildcard_discounts,
{
    if a.level == RiskLevel::Safe || a.level == RiskLevel::Unknown || a.level
        == RiskLevel::ShellStateChange {
        a.level = RiskLevel::StateChanging;
        if a.score < floor {
            a.score = floor;
        }
    }
}

fn apply_argument(a: &mut RiskAssessment, arg: &str)
    requires
        old(a).wildcard_discounts < usize::MAX,
    ensures
        final(a)@ == arg_step(old(a)@, arg@),
        final(a).wildcard_discounts <= old(a).wildcard_discounts + 1,
{
    if str_eq(arg, "-r") || str_eq(arg, "-R") || str_eq(arg, "-rf") || str_eq(arg, "-fr") {
        if a.level == RiskLevel::Destructive {
            a.level = RiskLevel::VeryHigh;
            a.score = sat_add_u8(a.score, 15);
        } else {
            a.score = sat_add_u8(a.score, 5);
        }
        add_reason_once(&mut a.reasons, RiskReason::RecursiveFlag);
    }
    let ghost after_recursive = a@;
    assert(after_recursive == recursive_step(old(a)@, arg@));
    if str_eq(arg, "-f") || str_eq(arg, "-rf") || str_eq(arg, "-fr") {
        if a.level == RiskLevel::Destructive || a.level == RiskLevel::VeryHigh {
            a.score = sat_add_u8(a.score, 10);
        }
        add_reason_once(&mut a.reasons, RiskReason::ForceFlag);
    }
    let ghost after_force = a@;
    assert(after_force == force_step(after_recursive, arg@));
    if contains_char(arg, '*') {
        a.score = sat_add_u8(a.score, 10);
        a.wildcard_discounts = a.wildcard_discounts + 1;
        add_reason_once(&mut a.reasons, RiskReason::WildcardTarget);
    }
    let ghost after_wildcard = a@;
    assert(after_wildcard == wildcard_step(after_force, arg@));
    if str_eq(arg, "/") || str_eq(arg, "/*") {
        if a.level == RiskLevel::Destructive || a.level == RiskLevel::VeryHigh {
            a.level = RiskLevel::VeryHigh;
            a.score = 100;
            add_reason_once(&mut a.reasons, RiskReason::RootDirectoryTarget);
        }
    }
}

/// Rates a command by its name, its redirects and its arguments.
pub fn analyze_command(cmd: &Command) -> (a: RiskAssessment)
    ensures
        a@ == spec_analyze(cmd@),
{
    let mut a = base(cmd.name.as_str());
    let ghost a0 = a@;
    match &cmd.stdout {
        Redirect::Inherit => {},
        Redirect::Overwrite(_) => {
            raise_for_redirect(&mut a, 40);
            a.reasons.push(RiskReason::FileOverwrite);
            add_effect_once(&mut a.effects, Effect::FilesystemModify);
        },
        Redirect::Append(_) => {
            raise_for_redirect(&mut a, 40);
            a.reasons.push(RiskReason::FileAppend);
            add_effect_once(&mut a.effects, Effect::FilesystemModify);
        },
    }
    let ghost a1 = a@;
    assert(a1 == apply_stdout(a0, cmd.stdout@));
    if cmd.stderr.is_file() {
        raise_for_redirect(&mut a, 30);
        a.reasons.push(RiskReason::StderrRedirect);
        add_effect_once(&mut a.effects, Effect::FilesystemModify);
    }
    let ghost a2 = a@;
    assert(a2 == apply_stderr(a1, cmd.stderr@));
    let n = cmd.args.len();
    let mut i: usize = 0;
    while i < n
        invariant
            n == cmd.args@.len(),
            i <= n,
            a.wildcard_discounts <= i,
            a@ == apply_args(a2, views(cmd.args@).take(i as int)),
        decreases n - i,
    {
        apply_argument(&mut a, cmd.args[i].as_str());
        proof {
            let t = views(cmd.args@).take(i + 1);
            assert(t.drop_last() =~= views(cmd.args@).take(i as int));
            assert(t.last() == cmd.args@[i as int]@);
        }
        i = i + 1;
    }
    assert(views(cmd.args@).take(n as int) =~= views(cmd.args@));
    if a.score > 100 {
        a.score = 100;
    }
    a
}

proof fn lemma_args_keep_levels(a: AssessmentModel, args: Seq<Seq<char>>, name: Seq<char>)
    requires
        destructive(a.level) ==> is_delete_name(name),
    ensures
        destructive(apply_args(a, args).level) ==> is_delete_name(name),
        !raised_by_redirect(a.level) ==> !raised_by_redirect(apply_args(a, args).level),
    decreases args.len(),
{
    if args.len() > 0 {
        lemma_args_keep_levels(a, args.drop_last(), name);
    }
}

/// The score of any command is at most 100.
pub proof fn lemma_score_capped(c: crate::parser::ast::CommandModel)
    ensures
        spec_analyze(c).score <= 100,
{
}

/// Only `rm` and `rmdir` are ever rated `Destructive` or `VeryHigh`, whatever their
/// arguments and redirects.
pub proof fn lemma_only_deletions_destructive(c: crate::parser::ast::CommandModel)
    ensures
        destructive(spec_analyze(c).level) ==> is_delete_name(c.name),
{
    let a = apply_stderr(apply_stdout(base_assessment(c.name), c.stdout), c.stderr);
    lemma_args_keep_levels(a, c.args, c.name);
}

/// A command whose output or error stream goes to a file is never rated `Safe`,
/// `ShellStateChange` or `Unknown`.
pub proof fn lemma_redirect_changes_state(c: crate::parser::ast::CommandModel)
    requires
        !(c.stdout is Inherit) || !(c.stderr is Inherit),
    ensures
        !raised_by_redirect(spec_analyze(c).level),
{
    let a = apply_stderr(apply_stdout(base_assessment(c.name), c.stdout), c.stderr);
    lemma_args_keep_levels(a, c.args, c.name);
}

/// `rm` or `rmdir` with a recursive flag (`-r`, `-R`, `-rf`, `-fr`) among its arguments
/// is rated `VeryHigh`.
pub proof fn lemma_recursive_delete_very_high(c: crate::parser::ast::CommandModel, k: int)
    requires
        is_delete_name(c.name),
        0 <= k < c.args.len(),
        is_recursive_flag(c.args[k]),
    ensures
        spec_analyze(c).level == RiskLevel::VeryHigh,
{
    let a = apply_stderr(apply_stdout(base_assessment(c.name), c.stdout), c.stderr);
    lemma_delete_names_distinct(c.name);
    assert(a.level == RiskLevel::Destructive);
    lemma_recursive_reaches_very_high(a, c.args, k);
}

proof fn lemma_delete_names_distinct(n: Seq<char>)
    requires
        is_delete_name(n),
    ensures
        !is_safe_name(n),
        !is_shell_state_name(n),
        !is_create_name(n),
        !is_copy_name(n),
{
    reveal_strlit("rm");
    reveal_strlit("rmdir");
    reveal_strlit("ls");
    reveal_strlit("pwd");
    reveal_strlit("echo");
    reveal_strlit("cat");
    reveal_strlit("grep");
    reveal_strlit("type");
    reveal_strlit("history");
    reveal_strlit("jobs");
    reveal_strlit("cd");
    reveal_strlit("declare");
    reveal_strlit("export");
    reveal_strlit("exit");
    reveal_strlit("transactions");
    reveal_strlit("undo");
    reveal_strlit("redo");
    reveal_strlit("purge");
    reveal_strlit("touch");
    reveal_strlit("mkdir");
    reveal_strlit("cp");
    reveal_strlit("mv");
    if n == "rm"@ {
        assert(n[0] == 'r' && n[1] == 'm');
        assert("ls"@[0] == 'l' && "cd"@[0] == 'c' && "cp"@[0] == 'c' && "mv"@[0] == 'm');
    } else {
        assert(n[0] == 'r' && n[1] == 'm' && n[2] == 'd');
        assert("touch"@[0] == 't' && "mkdir"@[0] == 'm' && "purge"@[0] == 'p');
    }
}

proof fn lemma_recursive_reaches_very_high(a: AssessmentModel, args: Seq<Seq<char>>, k: int)
    requires
        a.level == RiskLevel::Destructive,
        0 <= k < args.len(),
        is_recursive_flag(args[k]),
    ensures
        apply_args(a, args).level == RiskLevel::VeryHigh,
    decreases args.len(),
{
    let d = args.drop_last();
    if k == args.len() - 1 {
        lemma_stays_destructive(a, d);
    } else {
        assert(d[k] == args[k]);
        lemma_recursive_reaches_very_high(a, d, k);
    }
}

proof fn lemma_stays_destructive(a: AssessmentModel, args: Seq<Seq<char>>)
    requires
        destructive(a.level),
    ensures
        destructive(apply_args(a, args).level),
    decreases args.len(),
{
    if args.len() > 0 {
        lemma_stays_destructive(a, args.drop_last());
    }
}

proof fn lemma_args_keep_mild_level(a: AssessmentModel, args: Seq<Seq<char>>)
    requires
        !destructive(a.level),
    ensures
        apply_args(a, args).level == a.level,
    decreases args.len(),
{
    if args.len() > 0 {
        lemma_args_keep_mild_level(a, args.drop_last());
    }
}

/// Arguments change the level only of a command already rated destructive: for any
/// other command the level is the one its name and redirects give, whatever flags,
/// patterns or paths follow.
pub proof fn lemma_arguments_keep_level(c: crate::parser::ast::CommandModel)
    requires
        !destructive(apply_stderr(apply_stdout(base_assessment(c.name), c.stdout), c.stderr).level),
    ensures
        spec_analyze(c).level == apply_stderr(apply_stdout(base_assessment(c.name), c.stdout), c.stderr).level,
{
    lemma_args_keep_mild_level(apply_stderr(apply_stdout(base_assessment(c.name), c.stdout), c.stderr), c.args);
}

/// A read-only command (`ls`, `pwd`, `echo`, `cat`, `grep`, `type`, `history`, `jobs`)
/// whose output and error are not redirected is rated `Safe`, whatever its arguments
/// (`grep -r`, for instance, stays `Safe`).
pub proof fn lemma_read_only_stays_safe(c: crate::parser::ast::CommandModel)
    requires
        is_safe_name(c.name),
        (c.stdout is Inherit),
        (c.stderr is Inherit),
    ensures
        spec_analyze(c).level == RiskLevel::Safe,
{
    lemma_args_keep_mild_level(base_assessment(c.name), c.args);
}

} // verus!
