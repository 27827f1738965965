//! `declare`: set and show shell variables.
use vstd::prelude::*;
use crate::parser::ast::{Redirect, RedirectModel};
use crate::shell::builtins::{effect_models, lemma_effects_push, Effect, EffectModel};
use crate::strmap::StringMap;
use crate::text::{chars_of, owned, push_char, push_chars, push_str, str_eq, string_of, views};

verus! {

pub open spec fn ascii_alpha(c: char) -> bool {
    ('a' <= c && c <= 'z') || ('A' <= c && c <= 'Z')
}

pub open spec fn ascii_alnum(c: char) -> bool {
    ascii_alpha(c) || ('0' <= c && c <= '9')
}

/// A variable name: an ASCII letter or `_`, then ASCII letters, digits and `_`.
pub open spec fn valid_identifier(n: Seq<char>) -> bool {
    &&& n.len() > 0
    &&& ascii_alpha(n[0]) || n[0] == '_'
    &&& forall|k: int| 1 <= k < n.len() ==> ascii_alnum(#[trigger] n[k]) || n[k] == '_'
}

/// Whether `name` is a valid variable name.
pub fn is_valid_identifier(name: &[char]) -> (b: bool)
    ensures
        b == valid_identifier(name@),
{
    if name.len() == 0 {
        return false;
    }
    let first = name[0];
    if !(('a' <= first && first <= 'z') || ('A' <= first && first <= 'Z')) && first != '_' {
        return false;
    }
    let mut i: usize = 1;
    while i < name.len()
        invariant
            1 <= i <= name@.len(),
            forall|k: int| 1 <= k < i ==> ascii_alnum(#[trigger] name@[k]) || name@[k] == '_',
        decreases name.len() - i,
    {
        let c = name[i];
        if !(('a' <= c && c <= 'z') || ('A' <= c && c <= 'Z') || ('0' <= c && c <= '9')) && c != '_' {
            assert(!(ascii_alnum(name@[i as int]) || name@[i as int] == '_'));
            return false;
        }
        i = i + 1;
    }
    true
}

/// The position of the first `=` in `s`, if any.
pub open spec fn first_eq(s: Seq<char>) -> Option<int> {
    if s.contains('=') {
        Some(choose|k: int| 0 <= k < s.len() && s[k] == '=' && forall|j: int| 0 <= j < k ==> s[j] != '=')
    } else {
        None
    }
}

/// The name and the value an argument of `declare` assigns: split at the first `=`
/// (`str::split_once`), or the whole argument with an empty value.
pub open spec fn assignment(arg: Seq<char>) -> (Seq<char>, Seq<char>) {
    match first_eq(arg) {
        Some(k) => (arg.take(k), arg.skip(k + 1)),
        None => (arg, Seq::empty()),
    }
}

pub open spec fn invalid_message(arg: Seq<char>) -> Seq<char> {
    "declare: `"@ + arg + "': not a valid identifier\n"@
}

/// The variables and the error messages after assigning each argument in turn.
pub open spec fn assign_all(vars: Map<Seq<char>, Seq<char>>, args: Seq<Seq<char>>) -> (
    Map<Seq<char>, Seq<char>>,
    Seq<EffectModel>,
)
    decreases args.len(),
{
    if args.len() == 0 {
        (vars, Seq::empty())
    } else {
        let (m, e) = assign_all(vars, args.drop_last());
        let (name, value) = assignment(args.last());
        if valid_identifier(name) {
            (m.insert(name, value), e)
        } else {
            (m, e.push(EffectModel::PrintError(invalid_message(args.last()))))
        }
    }
}

/// What `declare -p NAME` prints for one name.
pub open spec fn show_text(vars: Map<Seq<char>, Seq<char>>, name: Seq<char>) -> Seq<char> {
    if vars.contains_key(name) {
        "declare -- "@ + name + "=\""@ + vars[name] + "\"\n"@
    } else {
        "declare: "@ + name + ": not found\n"@
    }
}

/// The variables after `declare ARGS`, and what it prints.  `-p NAME...` shows the
/// variables; otherwise each `NAME=VALUE` or `NAME` argument sets a variable (to the
/// empty string for a bare name), and an invalid name is reported on standard error.
pub open spec fn spec_declare(vars: Map<Seq<char>, Seq<char>>, args: Seq<Seq<char>>) -> (
    Map<Seq<char>, Seq<char>>,
    Seq<EffectModel>,
) {
    if args.len() == 0 {
        (vars, Seq::empty())
    } else if args[0] == "-p"@ {
        (
            vars,
            args.skip(1).map_values(
                |n: Seq<char>| EffectModel::Print(show_text(vars, n), RedirectModel::Inherit),
            ),
        )
    } else {
        assign_all(vars, args)
    }
}

/// Splits an argument of `declare` into name and value.
fn split_assignment(arg: &str) -> (r: (String, String))
    ensures
        (r.0@, r.1@) == assignment(arg@),
{
    let v = chars_of(arg);
    let mut k: usize = 0;
    while k < v.len() && v[k] != '='
        invariant
            k <= v@.len(),
            v@ == arg@,
            forall|j: int| 0 <= j < k ==> v@[j] != '=',
        decreases v.len() - k,
    {
        k = k + 1;
    }
    if k == v.len() {
        assert(!arg@.contains('='));
        (owned(arg), String::new())
    } else {
        let ghost kk = choose|j: int| 0 <= j < arg@.len() && arg@[j] == '=' && forall|i: int| 0 <= i < j ==> arg@[i] != '=';
        assert(arg@[k as int] == '=');
        assert(kk == k) by {
            if kk < k {
                assert(v@[kk] != '=');
            } else if kk > k {
                assert(arg@[k as int] != '=');
            }
        }
        let mut name = String::new();
        push_chars(&mut name, v.as_slice(), 0, k);
        let mut value = String::new();
        push_chars(&mut value, v.as_slice(), k + 1, v.len());
        assert(name@ =~= arg@.take(k as int));
        assert(value@ =~= arg@.skip(k + 1));
        (name, value)
    }
}

/// Runs `declare` on the shell's variables.
pub fn execute(vars: &mut StringMap, args: &[String], stdout: &Redirect) -> (r: Vec<Effect>)
    ensures
        (final(vars)@, effect_models(r@)) == spec_declare(old(vars)@, views(args@)),
{
    let ghost a = views(args@);
    let mut r: Vec<Effect> = Vec::new();
    assert(effect_models(r@) =~= Seq::<EffectModel>::empty());
    if args.len() == 0 {
        return r;
    }
    assert(a[0] == args@[0]@);
    if str_eq(args[0].as_str(), "-p") {
        let mut i: usize = 1;
        while i < args.len()
            invariant
                1 <= i <= args@.len(),
                a == views(args@),
                a[0] == "-p"@,
                vars@ == old(vars)@,
                effect_models(r@) == a.subrange(1, i as int).map_values(
                    |n: Seq<char>| EffectModel::Print(show_text(vars@, n), RedirectModel::Inherit),
                ),
            decreases args.len() - i,
        {
            let name = args[i].as_str();
            let text = match vars.get(name) {
                Some(val) => {
                    let mut t = owned("declare -- ");
                    push_str(&mut t, name);
                    push_str(&mut t, "=\"");
                    push_str(&mut t, val.as_str());
                    push_str(&mut t, "\"\n");
                    t
                },
                None => {
                    let mut t = owned("declare: ");
                    push_str(&mut t, name);
                    push_str(&mut t, ": not found\n");
                    t
                },
            };
            let e = Effect::Print(text, Redirect::Inherit);
            proof {
                lemma_effects_push(r@, e);
            }
            r.push(e);
            i = i + 1;
            assert(effect_models(r@) =~= a.subrange(1, i as int).map_values(
                |n: Seq<char>| EffectModel::Print(show_text(vars@, n), RedirectModel::Inherit),
            ));
        }
        assert(a.subrange(1, a.len() as int) =~= a.skip(1));
        return r;
    }
    let mut i: usize = 0;
    assert(a.take(0) =~= Seq::<Seq<char>>::empty());
    while i < args.len()
        invariant
            i <= args@.len(),
            a == views(args@),
            (vars@, effect_models(r@)) == assign_all(old(vars)@, a.take(i as int)),
        decreases args.len() - i,
    {
        let ghost t = a.take(i + 1);
        assert(t.drop_last() =~= a.take(i as int));
        assert(t.last() == args@[i as int]@);
        let (name, value) = split_assignment(args[i].as_str());
        let nv = chars_of(name.as_str());
        if is_valid_identifier(nv.as_slice()) {
            vars.insert(name, value);
        } else {
            let mut text = owned("declare: `");
            push_str(&mut text, args[i].as_str());
            push_str(&mut text, "': not a valid identifier\n");
            let e = Effect::PrintError(text);
            proof {
                lemma_effects_push(r@, e);
            }
            r.push(e);
        }
        i = i + 1;
    }
    assert(a.take(args@.len() as int) =~= a);
    r
}

proof fn lemma_assignment_split(name: Seq<char>, value: Seq<char>)
    requires
        valid_identifier(name),
    ensures
        assignment(name + seq!['='] + value) == (name, value),
{
    let arg = name + seq!['='] + value;
    let n = name.len() as int;
    assert(arg[n] == '=');
    assert(arg.contains('='));
    let k = choose|k: int| 0 <= k < arg.len() && arg[k] == '=' && forall|j: int| 0 <= j < k ==> arg[j] != '=';
    assert(0 <= k < arg.len() && arg[k] == '=' && forall|j: int| 0 <= j < k ==> arg[j] != '=');
    if k < n {
        assert(arg[k] == name[k]);
        if k == 0 {
            assert(ascii_alpha(name[0]) || name[0] == '_');
        } else {
            assert(ascii_alnum(name[k]) || name[k] == '_');
        }
    }
    if k > n {
        assert(arg[n] != '=');
    }
    assert(k == n);
    assert(arg.take(n) =~= name);
    assert(arg.skip(n + 1) =~= value);
}

/// After `declare NAME=VALUE` (for a valid name) the variable holds the value, and
/// `declare -p NAME` then shows `declare -- NAME="VALUE"`.
pub proof fn lemma_declare_then_show(vars: Map<Seq<char>, Seq<char>>, name: Seq<char>, value: Seq<char>)
    requires
        valid_identifier(name),
    ensures
        spec_declare(vars, seq![name + seq!['='] + value]).0 == vars.insert(name, value),
        spec_declare(vars, seq![name + seq!['='] + value]).1.len() == 0,
        spec_declare(spec_declare(vars, seq![name + seq!['='] + value]).0, seq!["-p"@, name]).1
            == seq![
            EffectModel::Print(
                "declare -- "@ + name + "=\""@ + value + "\"\n"@,
                RedirectModel::Inherit,
            ),
        ],
{
    reveal_strlit("-p");
    let arg = name + seq!['='] + value;
    let args = seq![arg];
    lemma_assignment_split(name, value);
    assert(arg[0] == name[0]);
    assert("-p"@[0] == '-');
    assert(args[0] != "-p"@);
    assert(args.drop_last() =~= Seq::<Seq<char>>::empty());
    assert(args.last() == arg);
    assert(assign_all(vars, args.drop_last()) == (vars, Seq::<EffectModel>::empty()));
    assert(assign_all(vars, args) == (vars.insert(name, value), Seq::<EffectModel>::empty()));
    let m = vars.insert(name, value);
    let show = seq!["-p"@, name];
    assert(show[0] == "-p"@);
    assert(show.skip(1) =~= seq![name]);
    assert(show.skip(1).map_values(
        |n: Seq<char>| EffectModel::Print(show_text(m, n), RedirectModel::Inherit),
    ) =~= seq![EffectModel::Print(show_text(m, name), RedirectModel::Inherit)]);
}

} // verus!
