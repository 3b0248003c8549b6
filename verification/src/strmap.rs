//! A small string-keyed map for headers and host tables, kept as a list of
//! pairs in insertion order with no key occurring twice.
use vstd::prelude::*;

verus! {

/// The pairs of a map, as character sequences, in order.
pub open spec fn pair_view(e: Seq<(String, String)>) -> Seq<(Seq<char>, Seq<char>)> {
    e.map_values(|p: (String, String)| (p.0@, p.1@))
}

/// No key occurs twice.
pub open spec fn keys_distinct(p: Seq<(Seq<char>, Seq<char>)>) -> bool {
    forall|i: int, j: int| 0 <= i < j < p.len() ==> #[trigger] p[i].0 != #[trigger] p[j].0
}

/// The map that a list of pairs stands for (a later pair wins).
pub open spec fn pairs_to_map(p: Seq<(Seq<char>, Seq<char>)>) -> Map<Seq<char>, Seq<char>>
    decreases p.len(),
{
    if p.len() == 0 {
        Map::empty()
    } else {
        pairs_to_map(p.drop_last()).insert(p.last().0, p.last().1)
    }
}

/// A map from strings to strings.
#[derive(Debug)]
pub struct StrMap {
    entries: Vec<(String, String)>,
}

impl StrMap {
    /// The pairs, in insertion order.
    pub closed spec fn pairs(self) -> Seq<(Seq<char>, Seq<char>)> {
        pair_view(self.entries@)
    }

    /// The map held.
    pub open spec fn view(self) -> Map<Seq<char>, Seq<char>> {
        pairs_to_map(self.pairs())
    }

    /// Well-formed: no key occurs twice among the pairs.
    pub open spec fn wf(self) -> bool {
        keys_distinct(self.pairs())
    }

    /// An empty map.
    pub fn new() -> (m: Self)
        ensures
            m.wf(),
            m.pairs().len() == 0,
            m@ == Map::<Seq<char>, Seq<char>>::empty(),
    {
        let m = StrMap { entries: Vec::new() };
        assert(m.pairs() =~= Seq::<(Seq<char>, Seq<char>)>::empty());
        m
    }

    /// The position of `key` among the pairs, if it is there.
    fn position(&self, key: &String) -> (r: Option<usize>)
        ensures
            match r {
                Some(i) => i < self.pairs().len() && self.pairs()[i as int].0 == key@,
                None => forall|j: int| 0 <= j < self.pairs().len() ==> self.pairs()[j].0 != key@,
            },
    {
        let mut i: usize = 0;
        while i < self.entries.len()
            invariant
                i <= self.entries.len(),
                self.pairs() == pair_view(self.entries@),
                forall|j: int| 0 <= j < i ==> self.pairs()[j].0 != key@,
            decreases self.entries.len() - i,
        {
            if self.entries[i].0 == *key {
                return Some(i);
            }
            i += 1;
        }
        None
    }

    /// Sets `key` to `value`; a key already present keeps its place. Returns
    /// the value it had before.
    pub fn insert(&mut self, key: String, value: String) -> (r: Option<String>)
        requires
            old(self).wf(),
        ensures
            final(self).wf(),
            final(self)@ == old(self)@.insert(key@, value@),
            match r {
                Some(v) => old(self)@.contains_key(key@) && old(self)@[key@] == v@,
                None => !old(self)@.contains_key(key@),
            },
    {
        let ghost p0 = self.pairs();
        proof {
            lemma_map_of_distinct(p0);
        }
        match self.position(&key) {
            Some(i) => {
                let old_value = self.entries[i].1.clone();
                let ghost kv = key@;
                let ghost vv = value@;
                self.entries.set(i, (key, value));
                proof {
                    let p1 = self.pairs();
                    assert(p1 =~= p0.update(i as int, (kv, vv)));
                    lemma_update_value(p0, i as int, vv);
                }
                Some(old_value)
            },
            None => {
                let ghost kv = key@;
                let ghost vv = value@;
                self.entries.push((key, value));
                proof {
                    let p1 = self.pairs();
                    assert(p1 =~= p0.push((kv, vv)));
                    assert(p1.drop_last() =~= p0);
                }
                None
            },
        }
    }

    /// The value of `key`, if it is present.
    pub fn get(&self, key: &str) -> (r: Option<&String>)
        requires
            self.wf(),
        ensures
            match r {
                Some(v) => self@.contains_key(key@) && self@[key@] == v@,
                None => !self@.contains_key(key@),
            },
    {
        proof {
            lemma_map_of_distinct(self.pairs());
        }
        let k = key.to_owned();
        match self.position(&k) {
            Some(i) => Some(&self.entries[i].1),
            None => None,
        }
    }

    /// Whether `key` is present.
    pub fn contains_key(&self, key: &str) -> (r: bool)
        requires
            self.wf(),
        ensures
            r == self@.contains_key(key@),
    {
        self.get(key).is_some()
    }

    /// The number of keys.
    pub fn len(&self) -> (r: usize)
        requires
            self.wf(),
        ensures
            r == self@.len(),
            r == self.pairs().len(),
    {
        proof {
            lemma_map_len(self.pairs());
        }
        self.entries.len()
    }

    /// Whether the map is empty.
    pub fn is_empty(&self) -> (r: bool)
        requires
            self.wf(),
        ensures
            r == (self@.len() == 0),
    {
        self.len() == 0
    }

    /// The pairs, in insertion order.
    pub fn entries(&self) -> (r: &Vec<(String, String)>)
        ensures
            pair_view(r@) == self.pairs(),
    {
        &self.entries
    }
}

impl Default for StrMap {
    fn default() -> (m: Self)
        ensures
            m.wf(),
            m@ == Map::<Seq<char>, Seq<char>>::empty(),
    {
        StrMap::new()
    }
}

impl Clone for StrMap {
    fn clone(&self) -> (m: Self)
        ensures
            m.pairs() == self.pairs(),
    {
        let mut out: Vec<(String, String)> = Vec::new();
        let mut i: usize = 0;
        while i < self.entries.len()
            invariant
                i <= self.entries.len(),
                pair_view(out@) =~= pair_view(self.entries@).take(i as int),
            decreases self.entries.len() - i,
        {
            let k = self.entries[i].0.clone();
            let v = self.entries[i].1.clone();
            let ghost before = out@;
            out.push((k, v));
            proof {
                let all = pair_view(self.entries@);
                assert(pair_view(out@) =~= pair_view(before).push(all[i as int]));
                assert(all.take(i + 1) =~= all.take(i as int).push(all[i as int]));
            }
            i += 1;
        }
        StrMap { entries: out }
    }
}

/// With distinct keys, a key is in the map exactly when some pair holds it,
/// and its value is that pair's.
pub proof fn lemma_map_of_distinct(p: Seq<(Seq<char>, Seq<char>)>)
    requires
        keys_distinct(p),
    ensures
        forall|k: Seq<char>| #[trigger]
            pairs_to_map(p).contains_key(k) <==> exists|i: int| 0 <= i < p.len() && p[i].0 == k,
        forall|i: int|
            0 <= i < p.len() ==> #[trigger] pairs_to_map(p)[p[i].0] == p[i].1,
    decreases p.len(),
{
    if p.len() > 0 {
        let q = p.drop_last();
        let last = p.last();
        assert(keys_distinct(q));
        lemma_map_of_distinct(q);
        assert(pairs_to_map(p) == pairs_to_map(q).insert(last.0, last.1));
        assert forall|k: Seq<char>| #[trigger]
            pairs_to_map(p).contains_key(k) <==> exists|i: int| 0 <= i < p.len() && p[i].0 == k by {
            if pairs_to_map(p).contains_key(k) {
                if k == last.0 {
                    assert(p[p.len() - 1].0 == k);
                } else {
                    assert(pairs_to_map(q).contains_key(k));
                    let i = choose|i: int| 0 <= i < q.len() && q[i].0 == k;
                    assert(p[i] == q[i]);
                    assert(0 <= i < p.len() && p[i].0 == k);
                }
            }
            if exists|i: int| 0 <= i < p.len() && p[i].0 == k {
                let i = choose|i: int| 0 <= i < p.len() && p[i].0 == k;
                if i < p.len() - 1 {
                    assert(q[i] == p[i]);
                    assert(0 <= i < q.len() && q[i].0 == k);
                    assert(pairs_to_map(q).contains_key(k));
                } else {
                    assert(k == last.0);
                }
            }
        }
        assert forall|i: int| 0 <= i < p.len() implies #[trigger] pairs_to_map(p)[p[i].0]
            == p[i].1 by {
            if i < p.len() - 1 {
                assert(q[i] == p[i]);
                assert(p[i].0 != p[p.len() - 1].0);
                assert(pairs_to_map(q)[q[i].0] == q[i].1);
            }
        }
    }
}

/// Replacing the value of the pair at `i` sets that key to the new value.
pub proof fn lemma_update_value(p: Seq<(Seq<char>, Seq<char>)>, i: int, v: Seq<char>)
    requires
        keys_distinct(p),
        0 <= i < p.len(),
    ensures
        keys_distinct(p.update(i, (p[i].0, v))),
        pairs_to_map(p.update(i, (p[i].0, v))) == pairs_to_map(p).insert(p[i].0, v),
{
    let q = p.update(i, (p[i].0, v));
    assert(keys_distinct(q)) by {
        assert forall|a: int, b: int| 0 <= a < b < q.len() implies #[trigger] q[a].0
            != #[trigger] q[b].0 by {
            assert(q[a].0 == p[a].0);
            assert(q[b].0 == p[b].0);
        }
    }
    lemma_map_of_distinct(p);
    lemma_map_of_distinct(q);
    let m = pairs_to_map(p).insert(p[i].0, v);
    assert forall|k: Seq<char>| #[trigger] pairs_to_map(q).contains_key(k) <==> m.contains_key(k) by {
        if pairs_to_map(q).contains_key(k) {
            let j = choose|j: int| 0 <= j < q.len() && q[j].0 == k;
            assert(p[j].0 == k);
        }
        if pairs_to_map(p).contains_key(k) {
            let j = choose|j: int| 0 <= j < p.len() && p[j].0 == k;
            assert(q[j].0 == k);
        }
        if k == p[i].0 {
            assert(q[i].0 == k);
        }
    }
    assert forall|k: Seq<char>| #[trigger] pairs_to_map(q).contains_key(k) implies pairs_to_map(
        q,
    )[k] == m[k] by {
        let j = choose|j: int| 0 <= j < q.len() && q[j].0 == k;
        assert(pairs_to_map(q)[q[j].0] == q[j].1);
        if j != i {
            assert(q[j] == p[j]);
            assert(pairs_to_map(p)[p[j].0] == p[j].1);
        }
    }
    assert(pairs_to_map(q) =~= m);
}

/// With distinct keys, the map has as many keys as there are pairs.
pub proof fn lemma_map_len(p: Seq<(Seq<char>, Seq<char>)>)
    requires
        keys_distinct(p),
    ensures
        pairs_to_map(p).dom().finite(),
        pairs_to_map(p).len() == p.len(),
    decreases p.len(),
{
    if p.len() > 0 {
        let q = p.drop_last();
        assert(keys_distinct(q));
        lemma_map_len(q);
        lemma_map_of_distinct(q);
        assert(!pairs_to_map(q).contains_key(p.last().0)) by {
            if pairs_to_map(q).contains_key(p.last().0) {
                let i = choose|i: int| 0 <= i < q.len() && q[i].0 == p.last().0;
                assert(p[i].0 == p[p.len() - 1].0);
            }
        }
    }
}

/// A read gives back what the last write wrote: once `insert` set `k` to
/// `v` in a map, `get(k)` finds `v`, and every other key keeps its value.
pub proof fn law_get_after_insert(m: StrMap, k: Seq<char>, v: Seq<char>, other: Seq<char>)
    requires
        other != k,
    ensures
        m@.insert(k, v).contains_key(k),
        m@.insert(k, v)[k] == v,
        m@.insert(k, v).contains_key(other) == m@.contains_key(other),
        m@.contains_key(other) ==> m@.insert(k, v)[other] == m@[other],
{
}

} // verus!
