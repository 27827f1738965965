//! `history`: list the command history, or read and write history files.
use vstd::prelude::*;
use crate::parser::ast::{Redirect, RedirectModel};
use crate::shell::builtins::{effect_models, lemma_effects_push, Effect, EffectModel};
use crate::shell::state::history::History;
use crate::text::{decimal, pad_left, parse_decimal, parse_usize, push_char, push_decimal, push_padded_left, push_str, str_eq, views};

verus! {

/// The line `history` prints for the entry at `index`: its number (from 1) right
/// aligned in five columns, a blank, and the command.
pub open spec fn history_line(index: int, entry: Seq<char>) -> Seq<char> {
    pad_left(decimal((index + 1) as nat), 5) + " "@ + entry + "\n"@
}

/// How many entries `history ARGS` lists: the number given as first argument, or all.
pub open spec fn history_limit(args: Seq<Seq<char>>, total: nat) -> nat {
    if args.len() > 0 && parse_usize(args[0]) is Some {
        parse_usize(args[0])->0
    } else {
        total
    }
}

/// What `history ARGS` does.  `-r FILE`, `-w FILE` and `-a FILE` read the history from,
/// write it to, or append its new entries to a file; otherwise the last `N` entries (all
/// when no number is given) are printed, one print each.
pub open spec fn spec_history(entries: Seq<Seq<char>>, args: Seq<Seq<char>>, stdout: RedirectModel) -> Seq<
    EffectModel,
> {
    if args.len() > 0 && args[0] == "-r"@ {
        if args.len() > 1 { seq![EffectModel::ReadHistory(args[1])] } else { Seq::empty() }
    } else if args.len() > 0 && args[0] == "-w"@ {
        if args.len() > 1 { seq![EffectModel::WriteHistory(args[1])] } else { Seq::empty() }
    } else if args.len() > 0 && args[0] == "-a"@ {
        if args.len() > 1 { seq![EffectModel::AppendHistory(args[1])] } else { Seq::empty() }
    } else {
        let total = entries.len();
        let limit = history_limit(args, total);
        let start = if limit >= total { 0 } else { total - limit };
        Seq::new(
            (total - start) as nat,
            |k: int| EffectModel::Print(history_line(start + k, entries[start + k]), stdout),
        )
    }
}

/// The line printed for one history entry.
pub fn format_history_line(index: usize, entry: &str, sep: &str) -> (r: String)
    requires
        index < usize::MAX,
    ensures
        r@ == pad_left(decimal((index + 1) as nat), 5) + sep@ + entry@ + "\n"@,
{
    let number = crate::text::decimal_string(index as u128 + 1);
    let mut r = String::new();
    push_padded_left(&mut r, number.as_str(), 5);
    push_str(&mut r, sep);
    push_str(&mut r, entry);
    push_str(&mut r, "\n");
    r
}

/// Runs `history` on the session's history.
pub fn execute(h: &History, args: &[String], stdout: &Redirect) -> (r: Vec<Effect>)
    ensures
        effect_models(r@) == spec_history(views(h.entries@), views(args@), stdout@),
{
    let ghost a = views(args@);
    let mut r: Vec<Effect> = Vec::new();
    if args.len() > 0 {
        assert(a[0] == args@[0]@);
        let flag = args[0].as_str();
        let is_r = str_eq(flag, "-r");
        let is_w = str_eq(flag, "-w");
        let is_a = str_eq(flag, "-a");
        if is_r || is_w || is_a {
            if args.len() > 1 {
                assert(a[1] == args@[1]@);
                let path = args[1].clone();
                let e = if is_r {
                    Effect::ReadHistory(path)
                } else if is_w {
                    Effect::WriteHistory(path)
                } else {
                    Effect::AppendHistory(path)
                };
                r.push(e);
            }
            assert(effect_models(r@) =~= spec_history(views(h.entries@), a, stdout@));
            return r;
        }
    }
    let total = h.entries.len();
    let mut limit = total;
    if args.len() > 0 {
        match parse_decimal(args[0].as_str()) {
            Some(n) => {
                limit = n;
            },
            None => {},
        }
    }
    let start = if limit >= total { 0 } else { total - limit };
    let mut i = start;
    let ghost expected = spec_history(views(h.entries@), a, stdout@);
    assert(effect_models(r@) =~= expected.take(0));
    while i < total
        invariant
            start <= i <= total == h.entries@.len(),
            expected.len() == total - start,
            forall|k: int| 0 <= k < total - start ==> #[trigger] expected[k] == EffectModel::Print(
                history_line(start + k, views(h.entries@)[start + k]),
                stdout@,
            ),
            effect_models(r@) == expected.take(i - start),
        decreases total - i,
    {
        let line = format_history_line(i, h.entries[i].as_str(), " ");
        let e = Effect::Print(line, stdout.duplicate());
        proof {
            lemma_effects_push(r@, e);
            assert(views(h.entries@)[i as int] == h.entries@[i as int]@);
        }
        r.push(e);
        i = i + 1;
        assert(effect_models(r@) =~= expected.take(i - start));
    }
    assert(expected.take(total - start) =~= expected);
    r
}

} // verus!
