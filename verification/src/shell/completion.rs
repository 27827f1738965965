//! Helpers for tab completion.
use vstd::prelude::*;
use crate::order::{sort_strings, str_le};
use crate::text::{chars_of, has_prefix, lemma_views_push, owned, push_char, push_chars, push_str, starts_with, views};

verus! {

/// The longest prefix of `a` that `b` begins with.
pub open spec fn common_prefix2(a: Seq<char>, b: Seq<char>) -> Seq<char>
    decreases a.len(),
{
    if a.len() == 0 || has_prefix(b, a) {
        a
    } else {
        common_prefix2(a.drop_last(), b)
    }
}

/// The longest common prefix of the strings; empty when there are none.
pub open spec fn common_prefix(strs: Seq<Seq<char>>) -> Seq<char>
    decreases strs.len(),
{
    if strs.len() == 0 {
        Seq::empty()
    } else if strs.len() == 1 {
        strs[0]
    } else {
        common_prefix2(common_prefix(strs.drop_last()), strs.last())
    }
}

/// Whether `s` begins with the first `k` characters of `p`.
fn starts_with_first(s: &[char], p: &[char], k: usize) -> (r: bool)
    requires
        k <= p@.len(),
    ensures
        r == has_prefix(s@, p@.take(k as int)),
{
    if k > s.len() {
        return false;
    }
    let mut i: usize = 0;
    while i < k
        invariant
            k <= p@.len(),
            k <= s@.len(),
            i <= k,
            forall|j: int| 0 <= j < i ==> s@[j] == p@[j],
        decreases k - i,
    {
        if s[i] != p[i] {
            assert(s@.take(k as int)[i as int] != p@.take(k as int)[i as int]);
            return false;
        }
        i = i + 1;
    }
    assert(s@.take(k as int) =~= p@.take(k as int));
    true
}

/// The longest common prefix of the strings, as completion inserts it when several
/// candidates match; empty for no strings.
pub fn longest_common_prefix(strings: &[String]) -> (r: String)
    ensures
        r@ == common_prefix(views(strings@)),
{
    if strings.len() == 0 {
        return String::new();
    }
    let p = chars_of(strings[0].as_str());
    let mut k: usize = p.len();
    assert(views(strings@.take(1)) =~= seq![strings@[0]@]);
    assert(p@.take(k as int) =~= p@);
    let mut i: usize = 1;
    while i < strings.len()
        invariant
            1 <= i <= strings@.len(),
            k <= p@.len(),
            p@.take(k as int) == common_prefix(views(strings@.take(i as int))),
        decreases strings@.len() - i,
    {
        let s = chars_of(strings[i].as_str());
        let ghost before = p@.take(k as int);
        while !starts_with_first(s.as_slice(), p.as_slice(), k)
            invariant
                k <= p@.len(),
                common_prefix2(p@.take(k as int), s@) == common_prefix2(before, s@),
            decreases k,
        {
            proof {
                if k == 0 {
                    assert(s@.take(0) =~= p@.take(0));
                }
            }
            assert(p@.take(k as int).drop_last() =~= p@.take(k - 1));
            k = k - 1;
        }
        let ghost all = views(strings@.take(i + 1));
        assert(all.drop_last() =~= views(strings@.take(i as int)));
        assert(all.last() == s@);
        i = i + 1;
    }
    assert(strings@.take(strings@.len() as int) =~= strings@);
    let mut r = String::new();
    push_chars(&mut r, p.as_slice(), 0, k);
    assert(p@.subrange(0, k as int) =~= p@.take(k as int));
    r
}

proof fn lemma_common_prefix2_bounds(a: Seq<char>, b: Seq<char>)
    ensures
        has_prefix(a, common_prefix2(a, b)),
        has_prefix(b, common_prefix2(a, b)),
    decreases a.len(),
{
    if a.len() == 0 {
        assert(b.take(0) =~= a);
        assert(a.take(0) =~= a);
    } else if has_prefix(b, a) {
        assert(a.take(a.len() as int) =~= a);
    } else {
        lemma_common_prefix2_bounds(a.drop_last(), b);
        let c = common_prefix2(a.drop_last(), b);
        assert(a.take(c.len() as int) =~= a.drop_last().take(c.len() as int));
    }
}

proof fn lemma_common_prefix2_longest(a: Seq<char>, b: Seq<char>, q: Seq<char>)
    requires
        has_prefix(a, q),
        has_prefix(b, q),
    ensures
        has_prefix(common_prefix2(a, b), q),
    decreases a.len(),
{
    if a.len() == 0 || has_prefix(b, a) {
    } else {
        if q.len() == a.len() {
            assert(a.take(a.len() as int) =~= a);
        }
        assert(a.drop_last().take(q.len() as int) =~= a.take(q.len() as int));
        lemma_common_prefix2_longest(a.drop_last(), b, q);
    }
}

/// What [`longest_common_prefix`] returns is a prefix of every string, and every
/// prefix that all the strings share is a prefix of it: it is the longest one.
pub proof fn lemma_common_prefix_longest(strs: Seq<Seq<char>>, q: Seq<char>)
    ensures
        forall|j: int| 0 <= j < strs.len() ==> has_prefix(#[trigger] strs[j], common_prefix(strs)),
        strs.len() > 0 && (forall|j: int| 0 <= j < strs.len() ==> has_prefix(#[trigger] strs[j], q))
            ==> has_prefix(common_prefix(strs), q),
    decreases strs.len(),
{
    if strs.len() == 0 {
    } else if strs.len() == 1 {
        assert(strs[0].take(strs[0].len() as int) =~= strs[0]);
    } else {
        let d = strs.drop_last();
        lemma_common_prefix_longest(d, q);
        let c = common_prefix(d);
        lemma_common_prefix2_bounds(c, strs.last());
        let r = common_prefix2(c, strs.last());
        assert forall|j: int| 0 <= j < strs.len() implies has_prefix(#[trigger] strs[j], r) by {
            if j < strs.len() - 1 {
                assert(d[j] == strs[j]);
                assert(has_prefix(d[j], c));
                assert(strs[j].take(r.len() as int) =~= c.take(r.len() as int));
            }
        }
        if forall|j: int| 0 <= j < strs.len() ==> has_prefix(#[trigger] strs[j], q) {
            assert forall|j: int| 0 <= j < d.len() implies has_prefix(#[trigger] d[j], q) by {
                assert(d[j] == strs[j]);
            }
            assert(has_prefix(strs[strs.len() - 1], q));
            lemma_common_prefix2_longest(c, strs.last(), q);
        }
    }
}

/// The position of the last `c` in `s`, if any.
pub open spec fn last_index_of(s: Seq<char>, c: char) -> Option<int>
    decreases s.len(),
{
    if s.len() == 0 {
        None
    } else if s.last() == c {
        Some(s.len() - 1)
    } else {
        last_index_of(s.drop_last(), c)
    }
}

/// A word being completed as a file name, split into the directory to read, the
/// beginning of the file name, and the directory as it is written back: up to and
/// including its last `/`, or the current directory (written as nothing) without one.
pub open spec fn search_parts(word: Seq<char>) -> (Seq<char>, Seq<char>, Seq<char>) {
    match last_index_of(word, '/') {
        Some(k) => (word.take(k + 1), word.skip(k + 1), word.take(k + 1)),
        None => ("."@, word, Seq::empty()),
    }
}

proof fn lemma_last_index_of(s: Seq<char>, c: char)
    ensures
        last_index_of(s, c) matches Some(k) ==> 0 <= k < s.len() && s[k] == c && forall|j: int|
            k < j < s.len() ==> s[j] != c,
        last_index_of(s, c) is None ==> forall|j: int| 0 <= j < s.len() ==> s[j] != c,
    decreases s.len(),
{
    if s.len() > 0 && s.last() != c {
        lemma_last_index_of(s.drop_last(), c);
        assert forall|j: int| 0 <= j < s.len() - 1 implies s[j] == s.drop_last()[j] by {}
    }
}

/// Splits a word being completed as a file name (see [`search_parts`]).
pub fn split_search_word(word: &str) -> (r: (String, String, String))
    ensures
        (r.0@, r.1@, r.2@) == search_parts(word@),
{
    let v = chars_of(word);
    let mut i = v.len();
    proof {
        lemma_last_index_of(word@, '/');
    }
    while i > 0 && v[i - 1] != '/'
        invariant
            v@ == word@,
            i <= v@.len(),
            forall|j: int| i <= j < v@.len() ==> v@[j] != '/',
        decreases i,
    {
        i = i - 1;
    }
    if i == 0 {
        proof {
            if let Some(k) = last_index_of(word@, '/') {
                assert(v@[k] == '/');
            }
        }
        (owned("."), owned(word), String::new())
    } else {
        proof {
            let k = last_index_of(word@, '/');
            if k is None {
                assert(v@[i - 1] == '/');
            } else {
                let kk = k->0;
                if kk < i - 1 {
                    assert(v@[i - 1] == '/');
                } else if kk > i - 1 {
                    assert(v@[kk] == '/');
                }
            }
        }
        let mut dir = String::new();
        push_chars(&mut dir, v.as_slice(), 0, i);
        let mut rest = String::new();
        push_chars(&mut rest, v.as_slice(), i, v.len());
        assert(v@.subrange(0, i as int) =~= word@.take(i as int));
        assert(v@.subrange(i as int, v@.len() as int) =~= word@.skip(i as int));
        let shown = dir.clone();
        (dir, rest, shown)
    }
}

/// The views of directory entries: each name, and whether it is a directory.
pub open spec fn entry_views(v: Seq<(String, bool)>) -> Seq<(Seq<char>, bool)> {
    v.map_values(|e: (String, bool)| (e.0@, e.1))
}

/// The completions from a directory's entries, in the order of the entries: each name
/// that begins with `prefix`, after `shown_dir`, with a `/` for a directory.
pub open spec fn entry_completions(
    shown_dir: Seq<char>,
    prefix: Seq<char>,
    entries: Seq<(Seq<char>, bool)>,
) -> Seq<Seq<char>>
    decreases entries.len(),
{
    if entries.len() == 0 {
        Seq::empty()
    } else {
        let rest = entry_completions(shown_dir, prefix, entries.drop_last());
        let (name, is_dir) = entries.last();
        if has_prefix(name, prefix) {
            rest.push(
                if is_dir {
                    (shown_dir + name).push('/')
                } else {
                    shown_dir + name
                },
            )
        } else {
            rest
        }
    }
}

/// The file names that complete `search_word`, in increasing order; `entries` are the
/// entries of the directory the word names (see [`split_search_word`]), each with
/// whether it is a directory.
pub fn autocomplete_filename(search_word: &str, entries: &[(String, bool)]) -> (r: Vec<String>)
    ensures
        ({
            let (_, prefix, shown) = search_parts(search_word@);
            views(r@) == entry_completions(shown, prefix, entry_views(entries@)).sort_by(
                |a: Seq<char>, b: Seq<char>| str_le(a, b),
            )
        }),
{
    let (_dir, prefix, shown) = split_search_word(search_word);
    let ghost ev = entry_views(entries@);
    let mut found: Vec<String> = Vec::new();
    let mut i: usize = 0;
    assert(views(found@) =~= entry_completions(shown@, prefix@, ev.take(0)));
    while i < entries.len()
        invariant
            i <= entries@.len(),
            ev == entry_views(entries@),
            views(found@) == entry_completions(shown@, prefix@, ev.take(i as int)),
        decreases entries.len() - i,
    {
        let ghost t = ev.take(i + 1);
        assert(t.drop_last() =~= ev.take(i as int));
        assert(t.last() == (entries@[i as int].0@, entries@[i as int].1));
        let name = entries[i].0.as_str();
        if starts_with(name, prefix.as_str()) {
            let mut full = shown.clone();
            push_str(&mut full, name);
            if entries[i].1 {
                push_char(&mut full, '/');
            }
            proof {
                lemma_views_push(found@, full);
            }
            found.push(full);
        }
        i = i + 1;
    }
    assert(ev.take(entries@.len() as int) =~= ev);
    sort_strings(found)
}

} // verus!
