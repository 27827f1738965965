//! Which filesystem paths a command may touch.
use vstd::prelude::*;
use crate::parser::ast::{Command, Redirect, RedirectModel};
use crate::text::{chars_of, has_prefix, has_suffix, lemma_views_push, starts_with, string_of, views};

verus! {

/// A path that a command may touch, with what was found there before it ran.
pub struct FsTarget {
    pub path: String,
    pub exists: bool,
    pub is_dir: bool,
    pub readonly: bool,
}

impl FsTarget {
    /// A copy of this target.
    pub fn duplicate(&self) -> (r: FsTarget)
        ensures
            r.path@ == self.path@,
            r.exists == self.exists,
            r.is_dir == self.is_dir,
            r.readonly == self.readonly,
    {
        FsTarget {
            path: self.path.clone(),
            exists: self.exists,
            is_dir: self.is_dir,
            readonly: self.readonly,
        }
    }
}

/// What is recorded of a path: whether it exists and is a directory, as the host found
/// it, and whether it is read-only, which holds only for a path that exists and whose
/// metadata (`metadata`, when it could be read) says so.
pub fn inspect_path(path: &str, exists: bool, is_dir: bool, metadata: Option<bool>) -> (t: FsTarget)
    ensures
        t.path@ == path@,
        t.exists == exists,
        t.is_dir == is_dir,
        t.readonly == (exists && metadata == Some(true)),
{
    let readonly = if exists {
        match metadata {
            Some(ro) => ro,
            None => false,
        }
    } else {
        false
    };
    FsTarget { path: crate::text::owned(path), exists, is_dir, readonly }
}

/// The characters of `s` before its first `c` (all of `s` when there is none).
pub open spec fn before_first(s: Seq<char>, c: char) -> Seq<char>
    decreases s.len(),
{
    if s.len() == 0 || s[0] == c {
        Seq::empty()
    } else {
        seq![s[0]] + before_first(s.drop_first(), c)
    }
}

/// The characters of `s` after its last `c` (all of `s` when there is none).
pub open spec fn after_last(s: Seq<char>, c: char) -> Seq<char>
    decreases s.len(),
{
    if s.len() == 0 || s.last() == c {
        Seq::empty()
    } else {
        after_last(s.drop_last(), c).push(s.last())
    }
}

/// A directory entry matches a pattern with `*` when it starts with the text before
/// the first `*` and ends with the text after the last one.
pub open spec fn glob_match(pattern: Seq<char>, name: Seq<char>) -> bool {
    has_prefix(name, before_first(pattern, '*')) && has_suffix(name, after_last(pattern, '*'))
}

/// The entries of `entries` that match `pattern`, in order.
pub open spec fn glob_matches(pattern: Seq<char>, entries: Seq<Seq<char>>) -> Seq<Seq<char>>
    decreases entries.len(),
{
    if entries.len() == 0 {
        Seq::empty()
    } else {
        let rest = glob_matches(pattern, entries.drop_last());
        if glob_match(pattern, entries.last()) {
            rest.push(entries.last())
        } else {
            rest
        }
    }
}

/// The paths that one argument names: none for an option, the matching entries of the
/// working directory for a pattern with `*`, the argument itself otherwise.
pub open spec fn arg_paths(arg: Seq<char>, entries: Seq<Seq<char>>) -> Seq<Seq<char>> {
    if has_prefix(arg, seq!['-']) {
        Seq::empty()
    } else if arg.contains('*') {
        glob_matches(arg, entries)
    } else {
        seq![arg]
    }
}

pub open spec fn args_paths(args: Seq<Seq<char>>, entries: Seq<Seq<char>>) -> Seq<Seq<char>>
    decreases args.len(),
{
    if args.len() == 0 {
        Seq::empty()
    } else {
        args_paths(args.drop_last(), entries) + arg_paths(args.last(), entries)
    }
}

pub open spec fn redirect_paths(r: RedirectModel) -> Seq<Seq<char>> {
    match r {
        RedirectModel::Inherit => Seq::empty(),
        RedirectModel::Overwrite(p) => seq![p],
        RedirectModel::Append(p) => seq![p],
    }
}

/// The paths a command may touch, given the entries of the working directory: those
/// its arguments name, then its output file, then its error file.
pub open spec fn spec_track_targets(
    c: crate::parser::ast::CommandModel,
    entries: Seq<Seq<char>>,
) -> Seq<Seq<char>> {
    args_paths(c.args, entries) + redirect_paths(c.stdout) + redirect_paths(c.stderr)
}

/// Positions of the first and last `*` in `v`, if it has one.
fn star_bounds(v: &Vec<char>) -> (r: Option<(usize, usize)>)
    ensures
        match r {
            Some((a, b)) => a <= b < v@.len() && v@.subrange(0, a as int) == before_first(v@, '*')
                && v@.subrange(b + 1, v@.len() as int) == after_last(v@, '*') && v@.contains('*'),
            None => !v@.contains('*'),
        },
{
    let n = v.len();
    let mut a: usize = 0;
    while a < n && v[a] != '*'
        invariant
            a <= n == v@.len(),
            forall|k: int| 0 <= k < a ==> v@[k] != '*',
        decreases n - a,
    {
        a = a + 1;
    }
    if a == n {
        return None;
    }
    let mut b: usize = n - 1;
    while v[b] != '*'
        invariant
            a <= b < n == v@.len(),
            v@[a as int] == '*',
            forall|k: int| b < k < n ==> v@[k] != '*',
        decreases b,
    {
        b = b - 1;
    }
    proof {
        lemma_before_first(v@, a as int);
        lemma_after_last(v@, b as int);
    }
    Some((a, b))
}

proof fn lemma_before_first(s: Seq<char>, a: int)
    requires
        0 <= a < s.len(),
        s[a] == '*',
        forall|k: int| 0 <= k < a ==> s[k] != '*',
    ensures
        s.subrange(0, a) == before_first(s, '*'),
    decreases s.len(),
{
    if a > 0 {
        let t = s.drop_first();
        assert forall|k: int| 0 <= k < a - 1 implies t[k] != '*' by {
            assert(t[k] == s[k + 1]);
        }
        lemma_before_first(t, a - 1);
        assert(s.subrange(0, a) =~= seq![s[0]] + t.subrange(0, a - 1));
    } else {
        assert(s.subrange(0, 0) =~= Seq::<char>::empty());
    }
}

proof fn lemma_after_last(s: Seq<char>, b: int)
    requires
        0 <= b < s.len(),
        s[b] == '*',
        forall|k: int| b < k < s.len() ==> s[k] != '*',
    ensures
        s.subrange(b + 1, s.len() as int) == after_last(s, '*'),
    decreases s.len(),
{
    if b < s.len() - 1 {
        let t = s.drop_last();
        lemma_after_last(t, b);
        assert(s.subrange(b + 1, s.len() as int) =~= t.subrange(b + 1, t.len() as int).push(
            s.last(),
        ));
    } else {
        assert(s.subrange(b + 1, s.len() as int) =~= Seq::<char>::empty());
    }
}

/// Whether `name` matches the pattern whose prefix is `v[..a]` and suffix `v[b+1..]`.
fn matches_bounds(v: &Vec<char>, a: usize, b: usize, name: &str) -> (r: bool)
    requires
        a <= b < v@.len(),
    ensures
        r == (has_prefix(name@, v@.subrange(0, a as int)) && has_suffix(
            name@,
            v@.subrange(b + 1, v@.len() as int),
        )),
{
    let w = chars_of(name);
    let m = w.len();
    let vl = v.len();
    assert(b < vl);
    let start = b + 1;
    let suffix_len = vl - start;
    if a > m || suffix_len > m {
        return false;
    }
    let mut k: usize = 0;
    while k < a
        invariant
            a <= m == w@.len(),
            w@ == name@,
            a <= b < v@.len(),
            k <= a,
            forall|j: int| 0 <= j < k ==> w@[j] == v@[j],
        decreases a - k,
    {
        if w[k] != v[k] {
            assert(w@.take(a as int)[k as int] != v@.subrange(0, a as int)[k as int]);
            return false;
        }
        k = k + 1;
    }
    assert(w@.take(a as int) =~= v@.subrange(0, a as int));
    let mut j: usize = 0;
    while j < suffix_len
        invariant
            suffix_len <= m == w@.len(),
            w@ == name@,
            suffix_len == v@.len() - b - 1,
            start == b + 1,
            vl == v@.len(),
            a <= b < v@.len(),
            has_prefix(name@, v@.subrange(0, a as int)),
            j <= suffix_len,
            forall|i: int| 0 <= i < j ==> #[trigger] w@.skip(m - suffix_len)[i] == v@.subrange(b + 1, v@.len() as int)[i],
        decreases suffix_len - j,
    {
        if w[m - suffix_len + j] != v[start + j] {
            assert(w@.skip(m - suffix_len)[j as int] != v@.subrange(b + 1, v@.len() as int)[j as int]);
            return false;
        }
        j = j + 1;
    }
    assert(w@.skip(m - suffix_len) =~= v@.subrange(b + 1, v@.len() as int));
    true
}

fn push_path(out: &mut Vec<String>, p: &String)
    ensures
        views(final(out)@) == views(old(out)@).push(p@),
{
    let c = p.clone();
    proof {
        lemma_views_push(out@, c);
    }
    out.push(c);
}

/// The paths that a command may touch, given the names in its working directory
/// (empty when the directory cannot be read), in the order it names them.
pub fn track_targets(cmd: &Command, dir_entries: &[String]) -> (paths: Vec<String>)
    ensures
        views(paths@) == spec_track_targets(cmd@, views(dir_entries@)),
{
    let mut out: Vec<String> = Vec::new();
    let ghost entries = views(dir_entries@);
    let n = cmd.args.len();
    let mut i: usize = 0;
    assert(views(out@) =~= args_paths(views(cmd.args@).take(0), entries));
    while i < n
        invariant
            n == cmd.args@.len(),
            i <= n,
            entries == views(dir_entries@),
            views(out@) == args_paths(views(cmd.args@).take(i as int), entries),
        decreases n - i,
    {
        let arg = &cmd.args[i];
        let ghost before = views(out@);
        let ghost t = views(cmd.args@).take(i + 1);
        assert(t.drop_last() =~= views(cmd.args@).take(i as int));
        assert(t.last() == arg@);
        let dash = ['-'];
        assert(dash@ =~= seq!['-']);
        let dash_str = string_of(&dash);
        if starts_with(arg.as_str(), dash_str.as_str()) {
            assert(views(out@) =~= before + arg_paths(arg@, entries));
        } else {
            let v = chars_of(arg.as_str());
            match star_bounds(&v) {
                Some((a, b)) => {
                    let m = dir_entries.len();
                    let mut j: usize = 0;
                    assert(views(out@) =~= before + glob_matches(arg@, entries.take(0)));
                    while j < m
                        invariant
                            m == dir_entries@.len(),
                            j <= m,
                            a <= b < v@.len(),
                            v@ == arg@,
                            v@.subrange(0, a as int) == before_first(v@, '*'),
                            v@.subrange(b + 1, v@.len() as int) == after_last(v@, '*'),
                            entries == views(dir_entries@),
                            views(out@) == before + glob_matches(arg@, entries.take(j as int)),
                        decreases m - j,
                    {
                        let ghost e = entries.take(j + 1);
                        assert(e.drop_last() =~= entries.take(j as int));
                        assert(e.last() == dir_entries@[j as int]@);
                        if matches_bounds(&v, a, b, dir_entries[j].as_str()) {
                            push_path(&mut out, &dir_entries[j]);
                        }
                        j = j + 1;
                    }
                    assert(entries.take(m as int) =~= entries);
                    assert(views(out@) =~= before + arg_paths(arg@, entries));
                },
                None => {
                    push_path(&mut out, arg);
                    assert(views(out@) =~= before + arg_paths(arg@, entries));
                },
            }
        }
        i = i + 1;
    }
    assert(views(cmd.args@).take(n as int) =~= views(cmd.args@));
    let ghost after_args = views(out@);
    match &cmd.stdout {
        Redirect::Inherit => {},
        Redirect::Overwrite(p) => push_path(&mut out, p),
        Redirect::Append(p) => push_path(&mut out, p),
    }
    let ghost after_out = views(out@);
    assert(after_out =~= after_args + redirect_paths(cmd.stdout@));
    match &cmd.stderr {
        Redirect::Inherit => {},
        Redirect::Overwrite(p) => push_path(&mut out, p),
        Redirect::Append(p) => push_path(&mut out, p),
    }
    assert(views(out@) =~= after_out + redirect_paths(cmd.stderr@));
    out
}

} // verus!
