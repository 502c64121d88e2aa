//! A verified associative store from string keys to values, abstracted as a
//! `Map<Seq<char>, V>`. The registry's four indices are all instances of it.

use vstd::prelude::*;

verus! {

/// The map described by a sequence of key/value entries; a later entry for a
/// key shadows an earlier one, though well-formed stores never hold two
/// entries for one key.
pub open spec fn map_of<V>(s: Seq<(String, V)>) -> Map<Seq<char>, V>
    decreases s.len(),
{
    if s.len() == 0 {
        Map::empty()
    } else {
        map_of(s.drop_last()).insert(s.last().0@, s.last().1)
    }
}

/// No two entries share a key.
pub open spec fn distinct_keys<V>(s: Seq<(String, V)>) -> bool {
    forall|i: int, j: int| 0 <= i < j < s.len() ==> s[i].0@ != s[j].0@
}

proof fn lemma_map_of_contains<V>(s: Seq<(String, V)>, k: Seq<char>)
    ensures
        map_of(s).contains_key(k) <==> exists|i: int| 0 <= i < s.len() && s[i].0@ == k,
    decreases s.len(),
{
    if s.len() > 0 {
        lemma_map_of_contains(s.drop_last(), k);
        if map_of(s).contains_key(k) {
            if s.last().0@ != k {
                let i = choose|i: int| 0 <= i < s.drop_last().len() && s.drop_last()[i].0@ == k;
                assert(s[i].0@ == k);
            } else {
                assert(s[s.len() - 1].0@ == k);
            }
        }
        if exists|i: int| 0 <= i < s.len() && s[i].0@ == k {
            let i = choose|i: int| 0 <= i < s.len() && s[i].0@ == k;
            if i < s.len() - 1 {
                assert(s.drop_last()[i].0@ == k);
            }
        }
    }
}

proof fn lemma_map_of_index<V>(s: Seq<(String, V)>, i: int)
    requires
        distinct_keys(s),
        0 <= i < s.len(),
    ensures
        map_of(s).contains_key(s[i].0@),
        map_of(s)[s[i].0@] == s[i].1,
    decreases s.len(),
{
    lemma_map_of_contains(s, s[i].0@);
    if i < s.len() - 1 {
        assert(s[i].0@ != s.last().0@);
        assert(s.drop_last()[i] == s[i]);
        lemma_map_of_index(s.drop_last(), i);
    }
}

proof fn lemma_map_of_remove<V>(s: Seq<(String, V)>, i: int)
    requires
        distinct_keys(s),
        0 <= i < s.len(),
    ensures
        distinct_keys(s.remove(i)),
        map_of(s.remove(i)) == map_of(s).remove(s[i].0@),
    decreases s.len(),
{
    let k = s[i].0@;
    lemma_map_of_contains(s, k);
    if i == s.len() - 1 {
        assert(s.remove(i) =~= s.drop_last());
        lemma_map_of_contains(s.drop_last(), k);
        assert(map_of(s.drop_last()) =~= map_of(s).remove(k));
    } else {
        let t = s.drop_last();
        assert(s.remove(i).drop_last() =~= t.remove(i));
        assert(s.remove(i).last() == s.last());
        lemma_map_of_remove(t, i);
        assert(map_of(s.remove(i)) =~= map_of(s).remove(k));
    }
}

/// A store from `String` keys to `V` values with no repeated key, viewed as
/// the finite map its entries describe.
pub struct StrMap<V> {
    entries: Vec<(String, V)>,
}

impl<V> View for StrMap<V> {
    type V = Map<Seq<char>, V>;

    closed spec fn view(&self) -> Map<Seq<char>, V> {
        map_of(self.entries@)
    }
}

impl<V> StrMap<V> {
    /// The entries hold each key at most once.
    pub closed spec fn wf(&self) -> bool {
        distinct_keys(self.entries@)
    }

    pub fn new() -> (r: StrMap<V>)
        ensures
            r.wf(),
            r@ == Map::<Seq<char>, V>::empty(),
    {
        StrMap { entries: Vec::new() }
    }

    /// The position of the entry for `k`, if one exists.
    fn find(&self, k: &String) -> (r: Option<usize>)
        ensures
            match r {
                Some(i) => i < self.entries@.len() && self.entries@[i as int].0@ == k@,
                None => forall|i: int|
                    0 <= i < self.entries@.len() ==> self.entries@[i].0@ != k@,
            },
    {
        let mut i: usize = 0;
        while i < self.entries.len()
            invariant
                i <= self.entries@.len(),
                forall|j: int| 0 <= j < i ==> self.entries@[j].0@ != k@,
            decreases self.entries@.len() - i,
        {
            if self.entries[i].0 == *k {
                return Some(i);
            }
            i = i + 1;
        }
        None
    }

    pub fn contains(&self, k: &String) -> (r: bool)
        ensures
            r == self@.contains_key(k@),
    {
        proof {
            lemma_map_of_contains(self.entries@, k@);
        }
        self.find(k).is_some()
    }

    pub fn get(&self, k: &String) -> (r: Option<&V>)
        requires
            self.wf(),
        ensures
            match r {
                Some(v) => self@.contains_key(k@) && *v == self@[k@],
                None => !self@.contains_key(k@),
            },
    {
        proof {
            lemma_map_of_contains(self.entries@, k@);
        }
        match self.find(k) {
            Some(i) => {
                proof {
                    lemma_map_of_index(self.entries@, i as int);
                }
                Some(&self.entries[i].1)
            },
            None => None,
        }
    }

    /// Installs `v` under `k`, returning the value it displaces.
    pub fn insert(&mut self, k: String, v: V) -> (r: Option<V>)
        requires
            old(self).wf(),
        ensures
            final(self).wf(),
            final(self)@ == old(self)@.insert(k@, v),
            match r {
                Some(p) => old(self)@.contains_key(k@) && p == old(self)@[k@],
                None => !old(self)@.contains_key(k@),
            },
    {
        let prior = self.remove(&k);
        let ghost pre = self.entries@;
        self.entries.push((k, v));
        proof {
            assert(self.entries@.drop_last() =~= pre);
            lemma_map_of_contains(pre, k@);
            assert forall|i: int| 0 <= i < pre.len() implies #[trigger] pre[i].0@ != k@ by {}
            assert forall|i: int, j: int|
                0 <= i < j < self.entries@.len() implies self.entries@[i].0@
                != self.entries@[j].0@ by {
                assert(0 <= i < pre.len() ==> self.entries@[i] == pre[i]);
                assert(0 <= j < pre.len() ==> self.entries@[j] == pre[j]);
            }
            assert(self@ =~= old(self)@.insert(k@, v));
        }
        prior
    }

    /// Hands the entries out as plain pairs, for callers that persist the
    /// map outside the registry.
    pub fn into_pairs(self) -> (r: Vec<(String, V)>)
        requires
            self.wf(),
        ensures
            distinct_keys(r@),
            map_of(r@) == self@,
    {
        let StrMap { entries } = self;
        entries
    }

    /// Rebuilds a map from plain pairs, refusing a list that holds any key
    /// twice.
    pub fn from_pairs(pairs: Vec<(String, V)>) -> (r: Option<StrMap<V>>)
        ensures
            match r {
                Some(m) => m.wf() && m@ == map_of(pairs@) && distinct_keys(pairs@),
                None => !distinct_keys(pairs@),
            },
    {
        let n = pairs.len();
        let mut i: usize = 0;
        while i < n
            invariant
                n == pairs@.len(),
                i <= n,
                forall|a: int, b: int| 0 <= a < b < n && a < i ==> pairs@[a].0@ != pairs@[b].0@,
            decreases n - i,
        {
            let mut j: usize = i + 1;
            while j < n
                invariant
                    n == pairs@.len(),
                    i < j || i + 1 == j,
                    i < n,
                    j <= n,
                    forall|b: int| i < b < j ==> pairs@[i as int].0@ != pairs@[b].0@,
                decreases n - j,
            {
                if pairs[i].0 == pairs[j].0 {
                    return None;
                }
                j = j + 1;
            }
            i = i + 1;
        }
        Some(StrMap { entries: pairs })
    }

    /// Deletes the entry for `k`, returning the value it held.
    pub fn remove(&mut self, k: &String) -> (r: Option<V>)
        requires
            old(self).wf(),
        ensures
            final(self).wf(),
            final(self)@ == old(self)@.remove(k@),
            match r {
                Some(p) => old(self)@.contains_key(k@) && p == old(self)@[k@],
                None => !old(self)@.contains_key(k@) && *final(self) == *old(self),
            },
    {
        proof {
            lemma_map_of_contains(self.entries@, k@);
        }
        match self.find(k) {
            Some(i) => {
                proof {
                    lemma_map_of_index(self.entries@, i as int);
                    lemma_map_of_remove(self.entries@, i as int);
                }
                let (_, v) = self.entries.remove(i);
                Some(v)
            },
            None => {
                proof {
                    assert(self@ =~= self@.remove(k@));
                }
                None
            },
        }
    }
}

} // verus!
