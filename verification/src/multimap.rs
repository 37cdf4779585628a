//! An insertion-ordered map from string keys to lists of values.
//!
//! Used by the selector database and the category registry, which both
//! group entries under a string key.

use vstd::prelude::*;

use crate::text::str_eq;

verus! {

/// Whether no key occurs twice in an association list.
pub open spec fn distinct_keys<V>(s: Seq<(Seq<char>, Seq<V>)>) -> bool {
    forall|i: int, j: int| 0 <= i < j < s.len() ==> s[i].0 != s[j].0
}

/// Position of `k` in the association list, if present.
pub open spec fn key_index<V>(s: Seq<(Seq<char>, Seq<V>)>, k: Seq<char>) -> Option<int> {
    if exists|i: int| 0 <= i < s.len() && s[i].0 == k {
        Some(choose|i: int| 0 <= i < s.len() && s[i].0 == k)
    } else {
        None
    }
}

/// The values stored under `k` (empty when `k` is absent).
pub open spec fn values_of<V>(s: Seq<(Seq<char>, Seq<V>)>, k: Seq<char>) -> Seq<V> {
    match key_index(s, k) {
        Some(i) => s[i].1,
        None => seq![],
    }
}

/// The association list after appending `v` under `k`: a new key goes
/// last, an existing key keeps its place.
pub open spec fn push_value<V>(s: Seq<(Seq<char>, Seq<V>)>, k: Seq<char>, v: V) -> Seq<
    (Seq<char>, Seq<V>),
> {
    match key_index(s, k) {
        Some(i) => s.update(i, (k, s[i].1.push(v))),
        None => s.push((k, seq![v])),
    }
}

pub proof fn lemma_key_index_unique<V>(s: Seq<(Seq<char>, Seq<V>)>, k: Seq<char>, i: int)
    requires
        distinct_keys(s),
        0 <= i < s.len(),
        s[i].0 == k,
    ensures
        key_index(s, k) == Some(i),
{
}

/// After appending `v` under `k`, the values of `k` are the former
/// values followed by `v`, and every other key keeps its values.
pub proof fn lemma_push_then_values<V>(
    s: Seq<(Seq<char>, Seq<V>)>,
    k: Seq<char>,
    v: V,
    other: Seq<char>,
)
    requires
        distinct_keys(s),
    ensures
        distinct_keys(push_value(s, k, v)),
        values_of(push_value(s, k, v), k) == values_of(s, k).push(v),
        other != k ==> values_of(push_value(s, k, v), other) == values_of(s, other),
{
    let ns = push_value(s, k, v);
    match key_index(s, k) {
        Some(i) => {
            assert(distinct_keys(ns)) by {
                assert forall|a: int, b: int| 0 <= a < b < ns.len() implies ns[a].0 != ns[b].0 by {
                    assert(ns[a].0 == s[a].0);
                    assert(ns[b].0 == s[b].0);
                }
            }
            lemma_key_index_unique(ns, k, i);
            if other != k {
                match key_index(s, other) {
                    Some(j) => {
                        lemma_key_index_unique(ns, other, j);
                    },
                    None => {
                        if exists|j: int| 0 <= j < ns.len() && ns[j].0 == other {
                            let j = choose|j: int| 0 <= j < ns.len() && ns[j].0 == other;
                            assert(s[j].0 == other);
                        }
                    },
                }
            }
        },
        None => {
            let i = s.len() as int;
            assert(distinct_keys(ns)) by {
                assert forall|a: int, b: int| 0 <= a < b < ns.len() implies ns[a].0 != ns[b].0 by {
                    if b == i {
                        assert(s[a].0 != k);
                    }
                }
            }
            lemma_key_index_unique(ns, k, i);
            assert(Seq::<V>::empty().push(v) =~= seq![v]);
            if other != k {
                match key_index(s, other) {
                    Some(j) => {
                        lemma_key_index_unique(ns, other, j);
                    },
                    None => {
                        if exists|j: int| 0 <= j < ns.len() && ns[j].0 == other {
                            let j = choose|j: int| 0 <= j < ns.len() && ns[j].0 == other;
                            assert(j < s.len());
                            assert(s[j].0 == other);
                        }
                    },
                }
            }
        },
    }
}

/// Lists of values grouped under string keys, in order of first insertion.
pub struct MultiMap<V> {
    keys: Vec<String>,
    lists: Vec<Vec<V>>,
}

impl<V> MultiMap<V> {
    /// The two vectors have the same length and no key occurs twice.
    pub closed spec fn wf(self) -> bool {
        &&& self.keys.len() == self.lists.len()
        &&& distinct_keys(self.view())
    }

    /// The association list held by the map.
    pub closed spec fn view(self) -> Seq<(Seq<char>, Seq<V>)> {
        Seq::new(self.keys.len() as nat, |i: int| (self.keys@[i]@, self.lists@[i]@))
    }

    pub fn new() -> (m: Self)
        ensures
            m.wf(),
            m.view() == Seq::<(Seq<char>, Seq<V>)>::empty(),
    {
        let m = MultiMap { keys: Vec::new(), lists: Vec::new() };
        assert(m.view() =~= Seq::<(Seq<char>, Seq<V>)>::empty());
        m
    }

    /// Position of `key`, if present.
    pub fn find_key(&self, key: &str) -> (r: Option<usize>)
        requires
            self.wf(),
        ensures
            match r {
                Some(i) => i < self.view().len() && self.view()[i as int].0 == key@ && key_index(
                    self.view(),
                    key@,
                ) == Some(i as int),
                None => key_index(self.view(), key@) is None,
            },
    {
        let mut i: usize = 0;
        while i < self.keys.len()
            invariant
                self.keys.len() == self.lists.len(),
                distinct_keys(self.view()),
                i <= self.keys.len(),
                forall|j: int| 0 <= j < i ==> self.view()[j].0 != key@,
            decreases self.keys.len() - i,
        {
            if str_eq(self.keys[i].as_str(), key) {
                proof {
                    lemma_key_index_unique(self.view(), key@, i as int);
                }
                return Some(i);
            }
            i = i + 1;
        }
        None
    }

    /// Number of keys.
    pub fn len(&self) -> (n: usize)
        requires
            self.wf(),
        ensures
            n == self.view().len(),
            distinct_keys(self.view()),
    {
        self.keys.len()
    }

    /// The key at position `i`.
    pub fn key_at(&self, i: usize) -> (k: &String)
        requires
            self.wf(),
            i < self.view().len(),
        ensures
            k@ == self.view()[i as int].0,
    {
        &self.keys[i]
    }

    /// The values at position `i`.
    pub fn values_at(&self, i: usize) -> (l: &Vec<V>)
        requires
            self.wf(),
            i < self.view().len(),
        ensures
            l@ == self.view()[i as int].1,
    {
        &self.lists[i]
    }

    /// Values stored under `key`.
    pub fn get(&self, key: &str) -> (r: Option<&Vec<V>>)
        requires
            self.wf(),
        ensures
            match r {
                Some(l) => key_index(self.view(), key@) is Some && l@ == values_of(
                    self.view(),
                    key@,
                ),
                None => key_index(self.view(), key@) is None,
            },
    {
        match self.find_key(key) {
            Some(i) => Some(self.values_at(i)),
            None => None,
        }
    }

    /// Appends `v` to the values of `key`.
    pub fn push(&mut self, key: String, v: V)
        requires
            old(self).wf(),
        ensures
            final(self).wf(),
            final(self).view() == push_value(old(self).view(), key@, v),
            distinct_keys(final(self).view()),
    {
        let ghost s = self.view();
        let found = self.find_key(key.as_str());
        match found {
            Some(i) => {
                let mut l = self.lists.remove(i);
                l.push(v);
                self.lists.insert(i, l);
                assert(self.view() =~= s.update(i as int, (key@, s[i as int].1.push(v))));
            },
            None => {
                let ghost kv = key@;
                self.keys.push(key);
                let mut l: Vec<V> = Vec::new();
                l.push(v);
                self.lists.push(l);
                assert(self.view() =~= s.push((kv, seq![v])));
                assert(distinct_keys(self.view())) by {
                    assert forall|a: int, b: int|
                        0 <= a < b < self.view().len() implies self.view()[a].0 != self.view()[b].0 by {
                        if b == s.len() {
                            assert(s[a].0 != kv);
                        }
                    }
                }
            },
        }
    }
}

} // verus!
