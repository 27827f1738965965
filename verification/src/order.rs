//! The order of strings (that of `str`: by characters, a proper prefix first) and
//! sorting by it.
use vstd::prelude::*;
use vstd::relations::{sorted_by, total_ordering};
use crate::text::{chars_of, str_eq, views};

verus! {

/// `a` comes before `b`: at the first position where they differ the character of `a`
/// is smaller, or `a` is a proper prefix of `b`.  For UTF-8 text this is the order of
/// the bytes, which `str` compares.
pub open spec fn str_lt(a: Seq<char>, b: Seq<char>) -> bool
    decreases a.len(),
{
    if a.len() == 0 {
        b.len() > 0
    } else if b.len() == 0 {
        false
    } else if a[0] == b[0] {
        str_lt(a.drop_first(), b.drop_first())
    } else {
        a[0] < b[0]
    }
}

/// `a` comes before `b` or is equal to it.
pub open spec fn str_le(a: Seq<char>, b: Seq<char>) -> bool {
    a == b || str_lt(a, b)
}

proof fn lemma_same_tail(a: Seq<char>, b: Seq<char>)
    requires
        a.len() > 0,
        b.len() > 0,
        a[0] == b[0],
        a.drop_first() == b.drop_first(),
    ensures
        a == b,
{
    assert(a =~= seq![a[0]] + a.drop_first());
    assert(b =~= seq![b[0]] + b.drop_first());
}

/// No string comes before itself, and of two strings at most one comes first.
pub proof fn lemma_str_lt_asymmetric(a: Seq<char>, b: Seq<char>)
    ensures
        str_lt(a, b) ==> !str_lt(b, a),
        !str_lt(a, a),
    decreases a.len(),
{
    if a.len() > 0 && b.len() > 0 && a[0] == b[0] {
        lemma_str_lt_asymmetric(a.drop_first(), b.drop_first());
    }
    if a.len() > 0 {
        lemma_str_lt_asymmetric(a.drop_first(), a.drop_first());
    }
}

/// The order is transitive.
pub proof fn lemma_str_lt_transitive(a: Seq<char>, b: Seq<char>, c: Seq<char>)
    requires
        str_lt(a, b),
        str_lt(b, c),
    ensures
        str_lt(a, c),
    decreases a.len(),
{
    if a.len() > 0 && b.len() > 0 && c.len() > 0 && a[0] == b[0] && b[0] == c[0] {
        lemma_str_lt_transitive(a.drop_first(), b.drop_first(), c.drop_first());
    }
}

/// Of two different strings one comes first.
pub proof fn lemma_str_lt_total(a: Seq<char>, b: Seq<char>)
    ensures
        a == b || str_lt(a, b) || str_lt(b, a),
    decreases a.len(),
{
    if a.len() == 0 {
        if b.len() == 0 {
            assert(a =~= b);
        }
    } else if b.len() > 0 && a[0] == b[0] {
        lemma_str_lt_total(a.drop_first(), b.drop_first());
        if a.drop_first() == b.drop_first() {
            lemma_same_tail(a, b);
        }
    }
}

/// `str_le` is a total order.
pub proof fn lemma_str_le_total_ordering()
    ensures
        total_ordering(|a: Seq<char>, b: Seq<char>| str_le(a, b)),
{
    assert forall|a: Seq<char>, b: Seq<char>, c: Seq<char>|
        #[trigger] str_le(a, b) && #[trigger] str_le(b, c) implies str_le(a, c) by {
        if a != b && b != c {
            lemma_str_lt_transitive(a, b, c);
        }
    }
    assert forall|a: Seq<char>, b: Seq<char>|
        #[trigger] str_le(a, b) && #[trigger] str_le(b, a) implies a == b by {
        lemma_str_lt_asymmetric(a, b);
    }
    assert forall|a: Seq<char>, b: Seq<char>| #[trigger] str_le(a, b) || #[trigger] str_le(b, a) by {
        lemma_str_lt_total(a, b);
    }
}

/// Whether `a` comes before `b`.
pub fn str_less(a: &str, b: &str) -> (r: bool)
    ensures
        r == str_lt(a@, b@),
{
    let va = chars_of(a);
    let vb = chars_of(b);
    let mut i: usize = 0;
    assert(a@.skip(0) =~= a@ && b@.skip(0) =~= b@);
    while i < va.len() && i < vb.len() && va[i] == vb[i]
        invariant
            va@ == a@,
            vb@ == b@,
            i <= va@.len(),
            i <= vb@.len(),
            str_lt(a@, b@) == str_lt(a@.skip(i as int), b@.skip(i as int)),
        decreases va.len() - i,
    {
        assert(a@.skip(i as int).drop_first() =~= a@.skip(i + 1));
        assert(b@.skip(i as int).drop_first() =~= b@.skip(i + 1));
        i = i + 1;
    }
    if i == va.len() {
        i < vb.len()
    } else if i == vb.len() {
        false
    } else {
        assert(a@.skip(i as int)[0] == va@[i as int]);
        assert(b@.skip(i as int)[0] == vb@[i as int]);
        va[i] < vb[i]
    }
}

/// Puts `x` into a strictly increasing list, unless it is there already.
pub fn insert_unique(v: &mut Vec<String>, x: String)
    requires
        sorted_by(views(old(v)@), |a: Seq<char>, b: Seq<char>| str_lt(a, b)),
    ensures
        sorted_by(views(final(v)@), |a: Seq<char>, b: Seq<char>| str_lt(a, b)),
        views(final(v)@).to_set() == views(old(v)@).to_set().insert(x@),
{
    let ghost lt = |a: Seq<char>, b: Seq<char>| str_lt(a, b);
    let ghost before = views(v@);
    let n = v.len();
    let mut p: usize = 0;
    while p < n && str_less(v[p].as_str(), x.as_str())
        invariant
            n == v@.len(),
            before == views(v@),
            p <= n,
            forall|k: int| 0 <= k < p ==> str_lt(#[trigger] before[k], x@),
        decreases n - p,
    {
        p = p + 1;
    }
    if p < n && str_eq(v[p].as_str(), x.as_str()) {
        assert(before[p as int] == x@);
        assert(before.to_set().insert(x@) =~= before.to_set());
        return;
    }
    proof {
        if p < n {
            assert(before[p as int] == v@[p as int]@);
            lemma_str_lt_total(before[p as int], x@);
        }
    }
    v.insert(p, x);
    proof {
        let after = views(v@);
        assert(after =~= before.insert(p as int, x@));
        assert forall|a: int, b: int| 0 <= a < b < after.len() implies #[trigger] lt(after[a], after[b]) by {
            if b < p {
                assert(lt(before[a], before[b]));
            } else if b == p {
                assert(after[a] == before[a]);
            } else if a == p {
                assert(after[b] == before[b - 1]);
                if b - 1 > p {
                    assert(lt(before[p as int], before[b - 1]));
                    lemma_str_lt_transitive(x@, before[p as int], before[b - 1]);
                }
            } else if a < p {
                assert(lt(before[a], before[b - 1]));
            } else {
                assert(lt(before[a - 1], before[b - 1]));
            }
        }
        assert forall|s: Seq<char>| after.to_set().contains(s) <==> before.to_set().insert(x@).contains(s) by {
            if after.contains(s) {
                let k = choose|k: int| 0 <= k < after.len() && after[k] == s;
                if k < p {
                    assert(before[k] == s);
                } else if k > p {
                    assert(before[k - 1] == s);
                }
            }
            if before.contains(s) {
                let k = choose|k: int| 0 <= k < before.len() && before[k] == s;
                if k < p {
                    assert(after[k] == s);
                } else {
                    assert(after[k + 1] == s);
                }
            }
            if s == x@ {
                assert(after[p as int] == s);
            }
        }
        assert(after.to_set() =~= before.to_set().insert(x@));
    }
}

/// Puts `x` into a list in increasing order, after the elements equal to it.
pub fn insert_ordered(v: &mut Vec<String>, x: String)
    requires
        sorted_by(views(old(v)@), |a: Seq<char>, b: Seq<char>| str_le(a, b)),
    ensures
        sorted_by(views(final(v)@), |a: Seq<char>, b: Seq<char>| str_le(a, b)),
        views(final(v)@).to_multiset() == views(old(v)@).to_multiset().insert(x@),
{
    let ghost le = |a: Seq<char>, b: Seq<char>| str_le(a, b);
    let ghost before = views(v@);
    let n = v.len();
    let mut p: usize = 0;
    while p < n && !str_less(x.as_str(), v[p].as_str())
        invariant
            n == v@.len(),
            before == views(v@),
            p <= n,
            forall|k: int| 0 <= k < p ==> str_le(#[trigger] before[k], x@),
        decreases n - p,
    {
        proof {
            lemma_str_lt_total(before[p as int], x@);
        }
        p = p + 1;
    }
    v.insert(p, x);
    proof {
        let after = views(v@);
        assert(after =~= before.insert(p as int, x@));
        assert forall|a: int, b: int| 0 <= a < b < after.len() implies #[trigger] le(after[a], after[b]) by {
            if b < p {
                assert(le(before[a], before[b]));
            } else if b == p {
                assert(after[a] == before[a]);
            } else if a == p {
                assert(after[b] == before[b - 1]);
                assert(str_lt(x@, before[p as int]));
                if b - 1 > p {
                    assert(le(before[p as int], before[b - 1]));
                    if before[p as int] != before[b - 1] {
                        lemma_str_lt_transitive(x@, before[p as int], before[b - 1]);
                    }
                }
            } else if a < p {
                assert(le(before[a], before[b - 1]));
            } else {
                assert(le(before[a - 1], before[b - 1]));
            }
        }
        vstd::seq_lib::to_multiset_insert(before, p as int, x@);
    }
}

/// The strings in increasing order, equal ones kept, as `sort` leaves a `Vec<String>`.
pub fn sort_strings(v: Vec<String>) -> (r: Vec<String>)
    ensures
        views(r@) == views(v@).sort_by(|a: Seq<char>, b: Seq<char>| str_le(a, b)),
{
    let ghost le = |a: Seq<char>, b: Seq<char>| str_le(a, b);
    let ghost src = views(v@);
    let mut r: Vec<String> = Vec::new();
    let mut rest = v;
    let mut i: usize = 0;
    let n = rest.len();
    assert(src.take(0) =~= Seq::<Seq<char>>::empty());
    assert(views(r@) =~= Seq::<Seq<char>>::empty());
    while i < n
        invariant
            n == rest@.len(),
            i <= n,
            src == views(rest@),
            le == (|a: Seq<char>, b: Seq<char>| str_le(a, b)),
            sorted_by(views(r@), le),
            views(r@).to_multiset() == src.take(i as int).to_multiset(),
        decreases n - i,
    {
        let x = rest[i].clone();
        assert(x@ == src[i as int]);
        insert_ordered(&mut r, x);
        proof {
            assert(src.take(i + 1) =~= src.take(i as int).push(src[i as int]));
            vstd::seq_lib::to_multiset_build(src.take(i as int), src[i as int]);
        }
        i = i + 1;
    }
    assert(src.take(n as int) =~= src);
    proof {
        lemma_str_le_total_ordering();
        src.lemma_sort_by_ensures(le);
        vstd::seq_lib::lemma_sorted_unique(views(r@), src.sort_by(le), le);
    }
    r
}

} // verus!
