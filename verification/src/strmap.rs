//! A map from strings to strings, kept as a list of entries with distinct keys.
use vstd::prelude::*;
use crate::text::str_eq;

verus! {

/// The map that a list of entries denotes, later entries overriding earlier ones.
pub open spec fn map_of(e: Seq<(String, String)>) -> Map<Seq<char>, Seq<char>>
    decreases e.len(),
{
    if e.len() == 0 {
        Map::empty()
    } else {
        map_of(e.drop_last()).insert(e.last().0@, e.last().1@)
    }
}

/// No two entries share a key.
pub open spec fn distinct_keys(e: Seq<(String, String)>) -> bool {
    forall|i: int, j: int| 0 <= i < j < e.len() ==> #[trigger] e[i].0@ != #[trigger] e[j].0@
}

proof fn lemma_map_of_lookup(e: Seq<(String, String)>, k: Seq<char>)
    requires
        distinct_keys(e),
    ensures
        map_of(e).contains_key(k) <==> exists|i: int| 0 <= i < e.len() && #[trigger] e[i].0@ == k,
        forall|i: int| 0 <= i < e.len() && #[trigger] e[i].0@ == k ==> map_of(e)[k] == e[i].1@,
    decreases e.len(),
{
    if e.len() > 0 {
        let d = e.drop_last();
        assert(distinct_keys(d)) by {
            assert forall|i: int, j: int| 0 <= i < j < d.len() implies #[trigger] d[i].0@ != #[trigger] d[j].0@ by {
                assert(d[i] == e[i] && d[j] == e[j]);
            }
        }
        lemma_map_of_lookup(d, k);
        if map_of(e).contains_key(k) {
            if k == e.last().0@ {
                assert(e[e.len() - 1].0@ == k);
            } else {
                let i = choose|i: int| 0 <= i < d.len() && #[trigger] d[i].0@ == k;
                assert(e[i] == d[i]);
            }
        }
        if exists|i: int| 0 <= i < e.len() && #[trigger] e[i].0@ == k {
            let i = choose|i: int| 0 <= i < e.len() && #[trigger] e[i].0@ == k;
            if i < e.len() - 1 {
                assert(d[i] == e[i]);
            }
        }
        assert forall|i: int| 0 <= i < e.len() && #[trigger] e[i].0@ == k implies map_of(e)[k]
            == e[i].1@ by {
            if i < e.len() - 1 {
                assert(d[i] == e[i]);
                assert(e[i].0@ != e[e.len() - 1].0@);
            }
        }
    }
}

proof fn lemma_map_of_update(e: Seq<(String, String)>, i: int, entry: (String, String))
    requires
        distinct_keys(e),
        0 <= i < e.len(),
        e[i].0@ == entry.0@,
    ensures
        map_of(e.update(i, entry)) == map_of(e).insert(entry.0@, entry.1@),
        distinct_keys(e.update(i, entry)),
    decreases e.len(),
{
    let u = e.update(i, entry);
    let d = e.drop_last();
    assert(distinct_keys(d)) by {
        assert forall|a: int, b: int| 0 <= a < b < d.len() implies #[trigger] d[a].0@ != #[trigger] d[b].0@ by {
            assert(d[a] == e[a] && d[b] == e[b]);
        }
    }
    assert forall|a: int, b: int| 0 <= a < b < u.len() implies #[trigger] u[a].0@ != #[trigger] u[b].0@ by {
        assert(e[a].0@ != e[b].0@);
    }
    if i == e.len() - 1 {
        assert(u.drop_last() =~= d);
        assert(map_of(u) =~= map_of(e).insert(entry.0@, entry.1@));
    } else {
        lemma_map_of_update(d, i, entry);
        assert(u.drop_last() =~= d.update(i, entry));
        assert(e.last().0@ != entry.0@) by {
            assert(e[i].0@ != e[e.len() - 1].0@);
        }
        assert(map_of(u) =~= map_of(e).insert(entry.0@, entry.1@));
    }
}

proof fn lemma_map_of_push(e: Seq<(String, String)>, entry: (String, String))
    requires
        distinct_keys(e),
        !map_of(e).contains_key(entry.0@),
    ensures
        map_of(e.push(entry)) == map_of(e).insert(entry.0@, entry.1@),
        distinct_keys(e.push(entry)),
{
    let p = e.push(entry);
    assert(p.drop_last() =~= e);
    lemma_map_of_lookup(e, entry.0@);
    assert forall|a: int, b: int| 0 <= a < b < p.len() implies #[trigger] p[a].0@ != #[trigger] p[b].0@ by {
        if b == e.len() {
            assert(p[a] == e[a]);
            if e[a].0@ == entry.0@ {
                assert(map_of(e).contains_key(entry.0@));
            }
        } else {
            assert(p[a] == e[a] && p[b] == e[b]);
        }
    }
}

proof fn lemma_map_of_remove(e: Seq<(String, String)>, i: int)
    requires
        distinct_keys(e),
        0 <= i < e.len(),
    ensures
        map_of(e.remove(i)) == map_of(e).remove(e[i].0@),
        distinct_keys(e.remove(i)),
    decreases e.len(),
{
    let r = e.remove(i);
    let d = e.drop_last();
    let k = e[i].0@;
    assert(distinct_keys(d)) by {
        assert forall|a: int, b: int| 0 <= a < b < d.len() implies #[trigger] d[a].0@ != #[trigger] d[b].0@ by {
            assert(d[a] == e[a] && d[b] == e[b]);
        }
    }
    assert forall|a: int, b: int| 0 <= a < b < r.len() implies #[trigger] r[a].0@ != #[trigger] r[b].0@ by {
        let ea = if a < i { a } else { a + 1 };
        let eb = if b < i { b } else { b + 1 };
        assert(r[a] == e[ea] && r[b] == e[eb]);
        assert(e[ea].0@ != e[eb].0@);
    }
    if i == e.len() - 1 {
        assert(r =~= d);
        lemma_map_of_lookup(d, k);
        if d.len() > 0 {
            assert forall|a: int| 0 <= a < d.len() implies #[trigger] d[a].0@ != k by {
                assert(d[a] == e[a]);
            }
        }
        assert(map_of(r) =~= map_of(e).remove(k));
    } else {
        lemma_map_of_remove(d, i);
        assert(r.drop_last() =~= d.remove(i));
        assert(r.last() == e.last());
        assert(d[i] == e[i]);
        assert(e.last().0@ != k) by {
            assert(e[i].0@ != e[e.len() - 1].0@);
        }
        assert(map_of(r) =~= map_of(e).remove(k));
    }
}

/// A map from strings to strings (the shell's variables and completion specifications).
pub struct StringMap {
    entries: Vec<(String, String)>,
}

impl View for StringMap {
    type V = Map<Seq<char>, Seq<char>>;

    closed spec fn view(&self) -> Map<Seq<char>, Seq<char>> {
        map_of(self.entries@)
    }
}

impl StringMap {
    #[verifier::type_invariant]
    closed spec fn distinct(self) -> bool {
        distinct_keys(self.entries@)
    }

    /// An empty map.
    pub fn new() -> (m: StringMap)
        ensures
            m@ == Map::<Seq<char>, Seq<char>>::empty(),
    {
        StringMap { entries: Vec::new() }
    }

    /// The number of keys.
    pub fn len(&self) -> (n: usize)
        ensures
            n == self@.dom().len(),
    {
        proof {
            use_type_invariant(self);
            lemma_map_of_len(self.entries@);
        }
        self.entries.len()
    }

    fn position(&self, key: &str) -> (r: Option<usize>)
        ensures
            match r {
                Some(i) => i < self.entries@.len() && self.entries@[i as int].0@ == key@,
                None => forall|i: int| 0 <= i < self.entries@.len() ==> #[trigger] self.entries@[i].0@ != key@,
            },
    {
        let mut i: usize = 0;
        while i < self.entries.len()
            invariant
                i <= self.entries@.len(),
                forall|j: int| 0 <= j < i ==> #[trigger] self.entries@[j].0@ != key@,
            decreases self.entries.len() - i,
        {
            if str_eq(self.entries[i].0.as_str(), key) {
                return Some(i);
            }
            i = i + 1;
        }
        None
    }

    /// The value bound to `key`, if any.
    pub fn get(&self, key: &str) -> (r: Option<String>)
        ensures
            match r {
                Some(v) => self@.contains_key(key@) && v@ == self@[key@],
                None => !self@.contains_key(key@),
            },
    {
        proof {
            use_type_invariant(self);
            lemma_map_of_lookup(self.entries@, key@);
        }
        match self.position(key) {
            Some(i) => Some(self.entries[i].1.clone()),
            None => None,
        }
    }

    /// Binds `key` to `value`, replacing any earlier binding.
    pub fn insert(&mut self, key: String, value: String)
        ensures
            final(self)@ == old(self)@.insert(key@, value@),
    {
        proof {
            use_type_invariant(&*self);
            lemma_map_of_lookup(self.entries@, key@);
        }
        match self.position(key.as_str()) {
            Some(i) => {
                proof {
                    lemma_map_of_update(self.entries@, i as int, (key, value));
                }
                let mut e: Vec<(String, String)> = Vec::new();
                std::mem::swap(&mut e, &mut self.entries);
                e.set(i, (key, value));
                self.entries = e;
            },
            None => {
                proof {
                    lemma_map_of_push(self.entries@, (key, value));
                }
                let mut e: Vec<(String, String)> = Vec::new();
                std::mem::swap(&mut e, &mut self.entries);
                e.push((key, value));
                self.entries = e;
            },
        }
    }

    /// Removes the binding of `key`, if there is one.
    pub fn remove(&mut self, key: &str)
        ensures
            final(self)@ == old(self)@.remove(key@),
    {
        proof {
            use_type_invariant(&*self);
            lemma_map_of_lookup(self.entries@, key@);
        }
        match self.position(key) {
            Some(i) => {
                proof {
                    lemma_map_of_remove(self.entries@, i as int);
                }
                let mut e: Vec<(String, String)> = Vec::new();
                std::mem::swap(&mut e, &mut self.entries);
                e.remove(i);
                self.entries = e;
            },
            None => {
                assert(self@ =~= old(self)@.remove(key@));
            },
        }
    }
}

proof fn lemma_map_of_len(e: Seq<(String, String)>)
    requires
        distinct_keys(e),
    ensures
        map_of(e).dom().finite(),
        map_of(e).dom().len() == e.len(),
    decreases e.len(),
{
    if e.len() > 0 {
        let d = e.drop_last();
        assert(distinct_keys(d)) by {
            assert forall|a: int, b: int| 0 <= a < b < d.len() implies #[trigger] d[a].0@ != #[trigger] d[b].0@ by {
                assert(d[a] == e[a] && d[b] == e[b]);
            }
        }
        lemma_map_of_len(d);
        lemma_map_of_lookup(d, e.last().0@);
        assert forall|a: int| 0 <= a < d.len() implies #[trigger] d[a].0@ != e.last().0@ by {
            assert(d[a] == e[a]);
            assert(e[a].0@ != e[e.len() - 1].0@);
        }
    }
}

} // verus!
