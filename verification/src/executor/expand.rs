//! Expansion of `$NAME` and `${NAME}` references in command arguments.
use vstd::prelude::*;
use crate::strmap::StringMap;
use crate::text::{chars_of, lemma_views_push, push_char, push_str, string_of, views};

verus! {

/// Where the expander stands after reading some characters.
pub enum ExpandMode {
    /// Plain text.
    Text,
    /// Just after a `$`.
    Dollar,
    /// Inside `${...}`, with the name read so far.
    Braced(Seq<char>),
    /// Inside `$NAME`, with the name read so far.
    Named(Seq<char>),
}

/// Characters that may continue an unbraced variable name.
pub open spec fn word_char(c: char) -> bool {
    ('a' <= c && c <= 'z') || ('A' <= c && c <= 'Z') || ('0' <= c && c <= '9') || c == '_'
}

/// What a reference to `name` expands to: the variable's value, or nothing when the
/// name is empty or the variable is not set.
pub open spec fn lookup(vars: Map<Seq<char>, Seq<char>>, name: Seq<char>) -> Seq<char> {
    if name.len() > 0 && vars.contains_key(name) {
        vars[name]
    } else {
        Seq::empty()
    }
}

/// Reading `c` as plain text.
pub open spec fn text_step(out: Seq<char>, c: char) -> (Seq<char>, ExpandMode) {
    if c == '$' {
        (out, ExpandMode::Dollar)
    } else {
        (out.push(c), ExpandMode::Text)
    }
}

/// Reading `c` in mode `mode` with output `out` so far.
pub open spec fn expand_step(
    vars: Map<Seq<char>, Seq<char>>,
    out: Seq<char>,
    mode: ExpandMode,
    c: char,
) -> (Seq<char>, ExpandMode) {
    match mode {
        ExpandMode::Text => text_step(out, c),
        ExpandMode::Dollar => if c == '{' {
            (out, ExpandMode::Braced(Seq::empty()))
        } else if word_char(c) {
            (out, ExpandMode::Named(seq![c]))
        } else {
            text_step(out.push('$'), c)
        },
        ExpandMode::Braced(name) => if c == '}' {
            (out + lookup(vars, name), ExpandMode::Text)
        } else {
            (out, ExpandMode::Braced(name.push(c)))
        },
        ExpandMode::Named(name) => if word_char(c) {
            (out, ExpandMode::Named(name.push(c)))
        } else {
            text_step(out + lookup(vars, name), c)
        },
    }
}

/// The output once the input is exhausted: a lone `$` stays, an unterminated
/// `${NAME` or a trailing `$NAME` expands as if it were closed.
pub open spec fn expand_finish(
    vars: Map<Seq<char>, Seq<char>>,
    out: Seq<char>,
    mode: ExpandMode,
) -> Seq<char> {
    match mode {
        ExpandMode::Text => out,
        ExpandMode::Dollar => out.push('$'),
        ExpandMode::Braced(name) => out + lookup(vars, name),
        ExpandMode::Named(name) => out + lookup(vars, name),
    }
}

pub open spec fn expand_from(
    vars: Map<Seq<char>, Seq<char>>,
    s: Seq<char>,
    i: nat,
    out: Seq<char>,
    mode: ExpandMode,
) -> Seq<char>
    decreases s.len() - i,
{
    if i >= s.len() {
        expand_finish(vars, out, mode)
    } else {
        let (out2, mode2) = expand_step(vars, out, mode, s[i as int]);
        expand_from(vars, s, i + 1, out2, mode2)
    }
}

/// The expansion of `s`: each `$NAME` (a run of ASCII letters, digits and `_`) and each
/// `${NAME}` is replaced by the variable's value, or by nothing when it is unset; the
/// values are not expanded again.
pub open spec fn spec_expand(vars: Map<Seq<char>, Seq<char>>, s: Seq<char>) -> Seq<char> {
    expand_from(vars, s, 0, Seq::empty(), ExpandMode::Text)
}

/// The arguments after expansion, with those that expanded to nothing left out.
pub open spec fn spec_expand_args(vars: Map<Seq<char>, Seq<char>>, args: Seq<Seq<char>>) -> Seq<
    Seq<char>,
>
    decreases args.len(),
{
    if args.len() == 0 {
        Seq::empty()
    } else {
        let rest = spec_expand_args(vars, args.drop_last());
        let e = spec_expand(vars, args.last());
        if e.len() == 0 {
            rest
        } else {
            rest.push(e)
        }
    }
}

/// Whether `c` may continue an unbraced variable name.
pub fn is_word_char(c: char) -> (b: bool)
    ensures
        b == word_char(c),
{
    ('a' <= c && c <= 'z') || ('A' <= c && c <= 'Z') || ('0' <= c && c <= '9') || c == '_'
}

enum Mode {
    Text,
    Dollar,
    Braced,
    Named,
}

fn append_lookup(out: &mut String, vars: &StringMap, name: &Vec<char>)
    ensures
        final(out)@ == old(out)@ + lookup(vars@, name@),
{
    if name.len() > 0 {
        let key = string_of(name.as_slice());
        match vars.get(key.as_str()) {
            Some(v) => push_str(out, v.as_str()),
            None => {
                assert(out@ =~= old(out)@ + lookup(vars@, name@));
            },
        }
    } else {
        assert(out@ =~= old(out)@ + lookup(vars@, name@));
    }
}

/// Expands the variable references in one string.
pub fn expand_string(vars: &StringMap, input: &str) -> (r: String)
    ensures
        r@ == spec_expand(vars@, input@),
{
    let chars = chars_of(input);
    let n = chars.len();
    let mut out = String::new();
    let mut mode = Mode::Text;
    let mut name: Vec<char> = Vec::new();
    let mut i: usize = 0;
    while i < n
        invariant
            n == chars@.len(),
            chars@ == input@,
            i <= n,
            expand_from(
                vars@,
                chars@,
                i as nat,
                out@,
                match mode {
                    Mode::Text => ExpandMode::Text,
                    Mode::Dollar => ExpandMode::Dollar,
                    Mode::Braced => ExpandMode::Braced(name@),
                    Mode::Named => ExpandMode::Named(name@),
                },
            ) == spec_expand(vars@, input@),
        decreases n - i,
    {
        let c = chars[i];
        let mut as_text = false;
        match mode {
            Mode::Text => {
                as_text = true;
            },
            Mode::Dollar => {
                if c == '{' {
                    name = Vec::new();
                    mode = Mode::Braced;
                } else if is_word_char(c) {
                    name = Vec::new();
                    name.push(c);
                    mode = Mode::Named;
                } else {
                    push_char(&mut out, '$');
                    as_text = true;
                }
            },
            Mode::Braced => {
                if c == '}' {
                    append_lookup(&mut out, vars, &name);
                    mode = Mode::Text;
                } else {
                    name.push(c);
                }
            },
            Mode::Named => {
                if is_word_char(c) {
                    name.push(c);
                } else {
                    append_lookup(&mut out, vars, &name);
                    as_text = true;
                }
            },
        }
        if as_text {
            if c == '$' {
                mode = Mode::Dollar;
            } else {
                push_char(&mut out, c);
                mode = Mode::Text;
            }
        }
        i = i + 1;
    }
    match mode {
        Mode::Text => {},
        Mode::Dollar => push_char(&mut out, '$'),
        _ => append_lookup(&mut out, vars, &name),
    }
    out
}

/// Expands every argument and drops those that expand to nothing.
pub fn expand_args(vars: &StringMap, args: &[String]) -> (r: Vec<String>)
    ensures
        views(r@) == spec_expand_args(vars@, views(args@)),
{
    let mut r: Vec<String> = Vec::new();
    let mut i: usize = 0;
    assert(views(r@) =~= spec_expand_args(vars@, views(args@).take(0)));
    while i < args.len()
        invariant
            i <= args@.len(),
            views(r@) == spec_expand_args(vars@, views(args@).take(i as int)),
        decreases args.len() - i,
    {
        let e = expand_string(vars, args[i].as_str());
        let ghost prefix = views(args@).take(i + 1);
        assert(prefix.drop_last() =~= views(args@).take(i as int));
        assert(prefix.last() == args@[i as int]@);
        if !e.as_str().is_empty() {
            proof {
                lemma_views_push(r@, e);
            }
            r.push(e);
        }
        i = i + 1;
    }
    assert(views(args@).take(args@.len() as int) =~= views(args@));
    r
}

proof fn lemma_plain_from(vars: Map<Seq<char>, Seq<char>>, s: Seq<char>, i: nat, out: Seq<char>)
    requires
        i <= s.len(),
        !s.contains('$'),
    ensures
        expand_from(vars, s, i, out, ExpandMode::Text) == out + s.skip(i as int),
    decreases s.len() - i,
{
    if i == s.len() {
        assert(s.skip(i as int) =~= Seq::<char>::empty());
        assert(out + s.skip(i as int) =~= out);
    } else {
        assert(s[i as int] != '$');
        lemma_plain_from(vars, s, i + 1, out.push(s[i as int]));
        assert(out.push(s[i as int]) + s.skip(i + 1 as int) =~= out + s.skip(i as int));
    }
}

/// Text without `$` expands to itself.
pub proof fn lemma_expand_plain(vars: Map<Seq<char>, Seq<char>>, s: Seq<char>)
    requires
        !s.contains('$'),
    ensures
        spec_expand(vars, s) == s,
{
    lemma_plain_from(vars, s, 0, Seq::empty());
    assert(Seq::<char>::empty() + s.skip(0) =~= s);
}

proof fn lemma_named_from(
    vars: Map<Seq<char>, Seq<char>>,
    name: Seq<char>,
    k: nat,
    out: Seq<char>,
)
    requires
        1 <= k <= name.len(),
        forall|j: int| 0 <= j < name.len() ==> word_char(#[trigger] name[j]),
    ensures
        expand_from(vars, seq!['$'] + name, k + 1, out, ExpandMode::Named(name.take(k as int)))
            == out + lookup(vars, name),
    decreases name.len() - k,
{
    let s = seq!['$'] + name;
    if k == name.len() {
        assert(name.take(k as int) =~= name);
    } else {
        assert(s[k + 1 as int] == name[k as int]);
        assert(name.take(k as int).push(name[k as int]) =~= name.take(k + 1 as int));
        lemma_named_from(vars, name, k + 1, out);
    }
}

/// `$NAME`, for a name of ASCII letters, digits and `_`, expands to the variable's value
/// as it stands (or to nothing when it is unset): the value is not expanded again.
pub proof fn lemma_expand_named(vars: Map<Seq<char>, Seq<char>>, name: Seq<char>)
    requires
        name.len() > 0,
        forall|j: int| 0 <= j < name.len() ==> word_char(#[trigger] name[j]),
    ensures
        spec_expand(vars, seq!['$'] + name) == lookup(vars, name),
        vars.contains_key(name) ==> spec_expand(vars, seq!['$'] + name) == vars[name],
{
    let s = seq!['$'] + name;
    assert(s[0] == '$');
    assert(s[1] == name[0]);
    assert(name.take(1) =~= seq![name[0]]);
    lemma_named_from(vars, name, 1, Seq::empty());
    let e = Seq::<char>::empty();
    assert(expand_from(vars, s, 1, e, ExpandMode::Dollar) == expand_from(
        vars,
        s,
        2,
        e,
        ExpandMode::Named(seq![name[0]]),
    ));
    assert(spec_expand(vars, s) == expand_from(vars, s, 1, e, ExpandMode::Dollar));
    assert(Seq::<char>::empty() + lookup(vars, name) =~= lookup(vars, name));
}

proof fn lemma_braced_from(
    vars: Map<Seq<char>, Seq<char>>,
    name: Seq<char>,
    k: nat,
    out: Seq<char>,
)
    requires
        k <= name.len(),
        !name.contains('}'),
    ensures
        expand_from(
            vars,
            seq!['$', '{'] + name + seq!['}'],
            k + 2,
            out,
            ExpandMode::Braced(name.take(k as int)),
        ) == out + lookup(vars, name),
    decreases name.len() - k,
{
    let s = seq!['$', '{'] + name + seq!['}'];
    if k == name.len() {
        assert(s[k + 2 as int] == '}');
        assert(name.take(k as int) =~= name);
        assert(s.len() == k + 3);
        assert(expand_from(vars, s, k + 3, out + lookup(vars, name), ExpandMode::Text) == out
            + lookup(vars, name));
    } else {
        assert(s[k + 2 as int] == name[k as int]);
        assert(name[k as int] != '}');
        assert(name.take(k as int).push(name[k as int]) =~= name.take(k + 1 as int));
        lemma_braced_from(vars, name, k + 1, out);
    }
}

/// `${NAME}`, for a name without `}`, expands to the variable's value as it stands (or
/// to nothing when it is unset or the name is empty).
pub proof fn lemma_expand_braced(vars: Map<Seq<char>, Seq<char>>, name: Seq<char>)
    requires
        !name.contains('}'),
    ensures
        spec_expand(vars, seq!['$', '{'] + name + seq!['}']) == lookup(vars, name),
{
    let s = seq!['$', '{'] + name + seq!['}'];
    assert(s[0] == '$');
    assert(s[1] == '{');
    assert(name.take(0) =~= Seq::<char>::empty());
    lemma_braced_from(vars, name, 0, Seq::empty());
    let e = Seq::<char>::empty();
    assert(expand_from(vars, s, 1, e, ExpandMode::Dollar) == expand_from(
        vars,
        s,
        2,
        e,
        ExpandMode::Braced(e),
    ));
    assert(spec_expand(vars, s) == expand_from(vars, s, 1, e, ExpandMode::Dollar));
    assert(Seq::<char>::empty() + lookup(vars, name) =~= lookup(vars, name));
}

/// No argument is empty after expansion.
pub proof fn lemma_expanded_args_nonempty(vars: Map<Seq<char>, Seq<char>>, args: Seq<Seq<char>>)
    ensures
        forall|j: int| 0 <= j < spec_expand_args(vars, args).len()
            ==> #[trigger] spec_expand_args(vars, args)[j].len() > 0,
    decreases args.len(),
{
    if args.len() > 0 {
        lemma_expanded_args_nonempty(vars, args.drop_last());
        let rest = spec_expand_args(vars, args.drop_last());
        let e = spec_expand(vars, args.last());
        if e.len() > 0 {
            assert forall|j: int| 0 <= j < rest.push(e).len() implies #[trigger] rest.push(e)[j].len()
                > 0 by {
                if j < rest.len() {
                    assert(rest.push(e)[j] == rest[j]);
                }
            }
        }
    }
}

proof fn lemma_step_extends(vars: Map<Seq<char>, Seq<char>>, out: Seq<char>, mode: ExpandMode, c: char)
    ensures
        expand_step(vars, out, mode, c).1 == expand_step(vars, Seq::empty(), mode, c).1,
        expand_step(vars, out, mode, c).0 == out + expand_step(vars, Seq::empty(), mode, c).0,
{
    let e = Seq::<char>::empty();
    match mode {
        ExpandMode::Text => {
            assert(out + e.push(c) =~= out.push(c));
            assert(out + e =~= out);
        },
        ExpandMode::Dollar => {
            assert(out + e =~= out);
            assert(out + e.push('$') =~= out.push('$'));
            assert(out + e.push('$').push(c) =~= out.push('$').push(c));
        },
        ExpandMode::Braced(name) => {
            assert(out + (e + lookup(vars, name)) =~= out + lookup(vars, name));
            assert(out + e =~= out);
        },
        ExpandMode::Named(name) => {
            let l = lookup(vars, name);
            assert(out + e =~= out);
            assert(out + (e + l) =~= out + l);
            assert(out + (e + l).push(c) =~= (out + l).push(c));
        },
    }
}

proof fn lemma_from_extends(
    vars: Map<Seq<char>, Seq<char>>,
    s: Seq<char>,
    i: nat,
    out: Seq<char>,
    mode: ExpandMode,
)
    ensures
        expand_from(vars, s, i, out, mode) == out + expand_from(vars, s, i, Seq::empty(), mode),
    decreases s.len() - i,
{
    let e = Seq::<char>::empty();
    if i >= s.len() {
        match mode {
            ExpandMode::Text => {
                assert(out + e =~= out);
            },
            ExpandMode::Dollar => {
                assert(out + e.push('$') =~= out.push('$'));
            },
            ExpandMode::Braced(name) => {
                assert(out + (e + lookup(vars, name)) =~= out + lookup(vars, name));
            },
            ExpandMode::Named(name) => {
                assert(out + (e + lookup(vars, name)) =~= out + lookup(vars, name));
            },
        }
    } else {
        let c = s[i as int];
        lemma_step_extends(vars, out, mode, c);
        let (o2, m2) = expand_step(vars, e, mode, c);
        lemma_from_extends(vars, s, i + 1, out + o2, m2);
        lemma_from_extends(vars, s, i + 1, o2, m2);
        assert(out + o2 + expand_from(vars, s, i + 1, e, m2) =~= out + (o2 + expand_from(
            vars,
            s,
            i + 1,
            e,
            m2,
        )));
    }
}

proof fn lemma_from_shift(
    vars: Map<Seq<char>, Seq<char>>,
    p: Seq<char>,
    b: Seq<char>,
    j: nat,
    out: Seq<char>,
    mode: ExpandMode,
)
    requires
        j <= b.len(),
    ensures
        expand_from(vars, p + b, p.len() + j, out, mode) == expand_from(vars, b, j, out, mode),
    decreases b.len() - j,
{
    if j < b.len() {
        assert((p + b)[p.len() + j as int] == b[j as int]);
        let (o2, m2) = expand_step(vars, out, mode, b[j as int]);
        lemma_from_shift(vars, p, b, j + 1, o2, m2);
    }
}

proof fn lemma_named_then_rest(
    vars: Map<Seq<char>, Seq<char>>,
    name: Seq<char>,
    rest: Seq<char>,
    k: nat,
    out: Seq<char>,
)
    requires
        1 <= k <= name.len(),
        forall|j: int| 0 <= j < name.len() ==> word_char(#[trigger] name[j]),
        rest.len() == 0 || !word_char(rest[0]),
    ensures
        expand_from(vars, seq!['$'] + name + rest, k + 1, out, ExpandMode::Named(name.take(k as int)))
            == out + lookup(vars, name) + spec_expand(vars, rest),
    decreases name.len() - k,
{
    let s = seq!['$'] + name + rest;
    let e = Seq::<char>::empty();
    if k == name.len() {
        assert(name.take(k as int) =~= name);
        let o = out + lookup(vars, name);
        if rest.len() == 0 {
            assert(s.len() == k + 1);
            assert(spec_expand(vars, rest) == e);
            assert(o + e =~= o);
        } else {
            let c = rest[0];
            assert(s[k + 1int] == c);
            assert(expand_from(vars, s, k + 1, out, ExpandMode::Named(name)) == expand_from(
                vars,
                s,
                k + 1,
                o,
                ExpandMode::Text,
            ));
            assert(s =~= (seq!['$'] + name) + rest);
            lemma_from_shift(vars, seq!['$'] + name, rest, 0, o, ExpandMode::Text);
            lemma_from_extends(vars, rest, 0, o, ExpandMode::Text);
        }
    } else {
        assert(s[k + 1int] == name[k as int]);
        assert(name.take(k as int).push(name[k as int]) =~= name.take(k + 1int));
        lemma_named_then_rest(vars, name, rest, k + 1, out);
    }
}

/// An unbraced name ends at the first character that is not an ASCII letter, digit or
/// `_`: `$NAME` followed by such a character (or by nothing) expands to the variable's
/// value, and the rest of the text expands on its own, as if it stood alone.
pub proof fn lemma_expand_named_then_text(
    vars: Map<Seq<char>, Seq<char>>,
    name: Seq<char>,
    rest: Seq<char>,
)
    requires
        name.len() > 0,
        forall|j: int| 0 <= j < name.len() ==> word_char(#[trigger] name[j]),
        rest.len() == 0 || !word_char(rest[0]),
    ensures
        spec_expand(vars, seq!['$'] + name + rest) == lookup(vars, name) + spec_expand(vars, rest),
{
    let s = seq!['$'] + name + rest;
    let e = Seq::<char>::empty();
    assert(s[0] == '$');
    assert(s[1] == name[0]);
    assert(name.take(1) =~= seq![name[0]]);
    lemma_named_then_rest(vars, name, rest, 1, e);
    assert(expand_from(vars, s, 1, e, ExpandMode::Dollar) == expand_from(
        vars,
        s,
        2,
        e,
        ExpandMode::Named(seq![name[0]]),
    ));
    assert(spec_expand(vars, s) == expand_from(vars, s, 1, e, ExpandMode::Dollar));
    assert(e + lookup(vars, name) =~= lookup(vars, name));
}

} // verus!
