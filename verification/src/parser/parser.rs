//! Building a [`Command`] from the tokens of a command line.
use vstd::prelude::*;
use crate::parser::ast::{Command, CommandModel, Redirect, RedirectModel};
use crate::text::{chars_of, lemma_views_push, views};

verus! {

/// The redirection operators that `parse` recognises.
pub enum RedirectOp {
    /// `>` or `1>`
    Stdout,
    /// `>>` or `1>>`
    StdoutAppend,
    /// `2>`
    Stderr,
    /// `2>>`
    StderrAppend,
    /// any other token
    Word,
}

pub open spec fn redirect_op(t: Seq<char>) -> RedirectOp {
    if t == seq!['>'] || t == seq!['1', '>'] {
        RedirectOp::Stdout
    } else if t == seq!['>', '>'] || t == seq!['1', '>', '>'] {
        RedirectOp::StdoutAppend
    } else if t == seq!['2', '>'] {
        RedirectOp::Stderr
    } else if t == seq!['2', '>', '>'] {
        RedirectOp::StderrAppend
    } else {
        RedirectOp::Word
    }
}

/// The command built from `tokens[i..]`, given what was built from the tokens before.
/// A redirect operator takes the next token as its file, the last one for a stream
/// winning; an operator with no token after it ends the command without effect.
pub open spec fn parse_from(tokens: Seq<Seq<char>>, i: nat, acc: CommandModel) -> CommandModel
    decreases tokens.len() - i,
{
    if i >= tokens.len() {
        acc
    } else {
        let t = tokens[i as int];
        let has_file = i + 1 < tokens.len();
        match redirect_op(t) {
            RedirectOp::Word => parse_from(
                tokens,
                i + 1,
                CommandModel { args: acc.args.push(t), ..acc },
            ),
            RedirectOp::Stdout => if has_file {
                parse_from(
                    tokens,
                    i + 2,
                    CommandModel { stdout: RedirectModel::Overwrite(tokens[i + 1int]), ..acc },
                )
            } else {
                acc
            },
            RedirectOp::StdoutAppend => if has_file {
                parse_from(
                    tokens,
                    i + 2,
                    CommandModel { stdout: RedirectModel::Append(tokens[i + 1int]), ..acc },
                )
            } else {
                acc
            },
            RedirectOp::Stderr => if has_file {
                parse_from(
                    tokens,
                    i + 2,
                    CommandModel { stderr: RedirectModel::Overwrite(tokens[i + 1int]), ..acc },
                )
            } else {
                acc
            },
            RedirectOp::StderrAppend => if has_file {
                parse_from(
                    tokens,
                    i + 2,
                    CommandModel { stderr: RedirectModel::Append(tokens[i + 1int]), ..acc },
                )
            } else {
                acc
            },
        }
    }
}

/// The command that a non-empty token list denotes: the first token names it.
pub open spec fn spec_parse(tokens: Seq<Seq<char>>) -> Option<CommandModel> {
    if tokens.len() == 0 {
        None
    } else {
        Some(
            parse_from(
                tokens,
                1,
                CommandModel {
                    name: tokens[0],
                    args: Seq::empty(),
                    stdout: RedirectModel::Inherit,
                    stderr: RedirectModel::Inherit,
                },
            ),
        )
    }
}

/// Classifies a token as a redirection operator or a word.
pub fn classify(t: &str) -> (op: RedirectOp)
    ensures
        op == redirect_op(t@),
{
    let v = chars_of(t);
    if v.len() == 1 && v[0] == '>' {
        assert(v@ =~= seq!['>']);
        RedirectOp::Stdout
    } else if v.len() == 2 && v[0] == '1' && v[1] == '>' {
        assert(v@ =~= seq!['1', '>']);
        RedirectOp::Stdout
    } else if v.len() == 2 && v[0] == '>' && v[1] == '>' {
        assert(v@ =~= seq!['>', '>']);
        RedirectOp::StdoutAppend
    } else if v.len() == 3 && v[0] == '1' && v[1] == '>' && v[2] == '>' {
        assert(v@ =~= seq!['1', '>', '>']);
        RedirectOp::StdoutAppend
    } else if v.len() == 2 && v[0] == '2' && v[1] == '>' {
        assert(v@ =~= seq!['2', '>']);
        RedirectOp::Stderr
    } else if v.len() == 3 && v[0] == '2' && v[1] == '>' && v[2] == '>' {
        assert(v@ =~= seq!['2', '>', '>']);
        RedirectOp::StderrAppend
    } else {
        assert(v@ != seq!['>'] && v@ != seq!['1', '>'] && v@ != seq!['>', '>']) by {
            if v@ == seq!['>'] {
                assert(v@[0] == '>');
            }
            if v@ == seq!['1', '>'] {
                assert(v@[0] == '1' && v@[1] == '>');
            }
            if v@ == seq!['>', '>'] {
                assert(v@[0] == '>' && v@[1] == '>');
            }
        }
        assert(v@ != seq!['1', '>', '>'] && v@ != seq!['2', '>'] && v@ != seq!['2', '>', '>']) by {
            if v@ == seq!['1', '>', '>'] {
                assert(v@[0] == '1' && v@[1] == '>' && v@[2] == '>');
            }
            if v@ == seq!['2', '>'] {
                assert(v@[0] == '2' && v@[1] == '>');
            }
            if v@ == seq!['2', '>', '>'] {
                assert(v@[0] == '2' && v@[1] == '>' && v@[2] == '>');
            }
        }
        RedirectOp::Word
    }
}

/// Builds a command from its tokens; `None` for an empty token list.
pub fn parse(tokens: Vec<String>) -> (cmd: Option<Command>)
    ensures
        match cmd {
            Some(c) => spec_parse(views(tokens@)) == Some(c@),
            None => spec_parse(views(tokens@)) is None,
        },
{
    if tokens.len() == 0 {
        return None;
    }
    let ghost t = views(tokens@);
    let name = tokens[0].clone();
    let mut args: Vec<String> = Vec::new();
    let mut stdout = Redirect::Inherit;
    let mut stderr = Redirect::Inherit;
    let n = tokens.len();
    let mut i: usize = 1;
    let mut stopped = false;
    assert(views(args@) =~= Seq::<Seq<char>>::empty());
    while i < n && !stopped
        invariant
            n == tokens@.len(),
            t == views(tokens@),
            1 <= i <= n,
            !stopped ==> parse_from(
                t,
                i as nat,
                (CommandModel { name: name@, args: views(args@), stdout: stdout@, stderr: stderr@ }),
            ) == spec_parse(t)->0,
            stopped ==> (CommandModel {
                name: name@,
                args: views(args@),
                stdout: stdout@,
                stderr: stderr@,
            }) == spec_parse(t)->0,
        decreases n - i, if stopped { 0int } else { 1int },
    {
        let op = classify(tokens[i].as_str());
        assert(t[i as int] == tokens@[i as int]@);
        match op {
            RedirectOp::Word => {
                let w = tokens[i].clone();
                proof {
                    lemma_views_push(args@, w);
                }
                args.push(w);
                i = i + 1;
            },
            _ => {
                if i + 1 < n {
                    let file = tokens[i + 1].clone();
                    assert(t[i + 1] == file@);
                    match op {
                        RedirectOp::Stdout => {
                            stdout = Redirect::Overwrite(file);
                        },
                        RedirectOp::StdoutAppend => {
                            stdout = Redirect::Append(file);
                        },
                        RedirectOp::Stderr => {
                            stderr = Redirect::Overwrite(file);
                        },
                        _ => {
                            stderr = Redirect::Append(file);
                        },
                    }
                    i = i + 2;
                } else {
                    stopped = true;
                }
            },
        }
    }
    Some(Command { name, args, stdout, stderr })
}

proof fn lemma_words_only_from(tokens: Seq<Seq<char>>, i: nat, acc: CommandModel)
    requires
        i <= tokens.len(),
        forall|k: int| i <= k < tokens.len() ==> (redirect_op(#[trigger] tokens[k]) is Word),
    ensures
        parse_from(tokens, i, acc) == (CommandModel { args: acc.args + tokens.skip(i as int), ..acc }),
    decreases tokens.len() - i,
{
    if i == tokens.len() {
        assert(acc.args + tokens.skip(i as int) =~= acc.args);
    } else {
        assert(redirect_op(tokens[i as int]) is Word);
        lemma_words_only_from(tokens, i + 1, CommandModel { args: acc.args.push(tokens[i as int]), ..acc });
        assert(acc.args.push(tokens[i as int]) + tokens.skip(i + 1 as int) =~= acc.args + tokens.skip(i as int));
    }
}

/// A command line without redirection operators: the first token names the command,
/// all the others are its arguments, in order, and neither stream is redirected.
pub proof fn lemma_parse_words(tokens: Seq<Seq<char>>)
    requires
        tokens.len() > 0,
        forall|k: int| 1 <= k < tokens.len() ==> (redirect_op(#[trigger] tokens[k]) is Word),
    ensures
        spec_parse(tokens) == Some(
            CommandModel {
                name: tokens[0],
                args: tokens.skip(1),
                stdout: RedirectModel::Inherit,
                stderr: RedirectModel::Inherit,
            },
        ),
{
    let acc = CommandModel {
        name: tokens[0],
        args: Seq::empty(),
        stdout: RedirectModel::Inherit,
        stderr: RedirectModel::Inherit,
    };
    lemma_words_only_from(tokens, 1, acc);
    assert(Seq::<Seq<char>>::empty() + tokens.skip(1) =~= tokens.skip(1));
}

proof fn lemma_words_then_rest(tokens: Seq<Seq<char>>, i: nat, j: nat, acc: CommandModel)
    requires
        i <= j <= tokens.len(),
        forall|k: int| i <= k < j ==> (redirect_op(#[trigger] tokens[k]) is Word),
    ensures
        parse_from(tokens, i, acc) == parse_from(
            tokens,
            j,
            CommandModel { args: acc.args + tokens.subrange(i as int, j as int), ..acc },
        ),
    decreases j - i,
{
    if i == j {
        assert(acc.args + tokens.subrange(i as int, j as int) =~= acc.args);
    } else {
        assert(redirect_op(tokens[i as int]) is Word);
        let acc2 = CommandModel { args: acc.args.push(tokens[i as int]), ..acc };
        lemma_words_then_rest(tokens, i + 1, j, acc2);
        assert(acc2.args + tokens.subrange(i + 1int, j as int) =~= acc.args + tokens.subrange(
            i as int,
            j as int,
        ));
    }
}

/// The stream a redirect operator sends to `file`, applied to `c`.
pub open spec fn redirected(c: CommandModel, op: RedirectOp, file: Seq<char>) -> CommandModel {
    match op {
        RedirectOp::Stdout => CommandModel { stdout: RedirectModel::Overwrite(file), ..c },
        RedirectOp::StdoutAppend => CommandModel { stdout: RedirectModel::Append(file), ..c },
        RedirectOp::Stderr => CommandModel { stderr: RedirectModel::Overwrite(file), ..c },
        RedirectOp::StderrAppend => CommandModel { stderr: RedirectModel::Append(file), ..c },
        RedirectOp::Word => c,
    }
}

/// A redirect operator takes the token after it as its file, and neither of the two
/// becomes an argument: for words `t` (the name and its arguments), a redirect `op`
/// with file `f`, and more words `u`, the arguments are those of `t` followed by `u`,
/// and only the redirected stream changes.
pub proof fn lemma_redirect_takes_file(
    t: Seq<Seq<char>>,
    op: Seq<char>,
    f: Seq<char>,
    u: Seq<Seq<char>>,
)
    requires
        t.len() > 0,
        forall|k: int| 0 <= k < t.len() ==> (redirect_op(#[trigger] t[k]) is Word),
        forall|k: int| 0 <= k < u.len() ==> (redirect_op(#[trigger] u[k]) is Word),
        !(redirect_op(op) is Word),
    ensures
        spec_parse(t + seq![op, f] + u) == Some(
            redirected(
                CommandModel {
                    name: t[0],
                    args: t.skip(1) + u,
                    stdout: RedirectModel::Inherit,
                    stderr: RedirectModel::Inherit,
                },
                redirect_op(op),
                f,
            ),
        ),
{
    let tokens = t + seq![op, f] + u;
    let n = t.len();
    let acc = CommandModel {
        name: t[0],
        args: Seq::empty(),
        stdout: RedirectModel::Inherit,
        stderr: RedirectModel::Inherit,
    };
    assert forall|k: int| 1 <= k < n implies (redirect_op(#[trigger] tokens[k]) is Word) by {
        assert(tokens[k] == t[k]);
    }
    lemma_words_then_rest(tokens, 1, n, acc);
    let acc1 = CommandModel { args: acc.args + tokens.subrange(1, n as int), ..acc };
    assert(tokens.subrange(1, n as int) =~= t.skip(1));
    assert(tokens[n as int] == op);
    assert(tokens[n + 1int] == f);
    let acc2 = redirected(acc1, redirect_op(op), f);
    assert(parse_from(tokens, n, acc1) == parse_from(tokens, n + 2, acc2));
    assert forall|k: int| n + 2 <= k < tokens.len() implies (redirect_op(#[trigger] tokens[k]) is Word) by {
        assert(tokens[k] == u[k - n - 2]);
    }
    lemma_words_only_from(tokens, n + 2, acc2);
    assert(tokens.skip(n + 2int) =~= u);
    assert(acc1.args + u =~= t.skip(1) + u);
}

} // verus!
