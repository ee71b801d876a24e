//! A small string-keyed map: the per-card state, an embed's props, its `on:`
//! handlers and the card registry are all of this shape.
use vstd::prelude::*;
use crate::text::{chars_of, vec_eq};

verus! {

/// The map described by a sequence of `(key, value)` writes, later writes
/// winning.
pub open spec fn pairs_map<V>(s: Seq<(Seq<char>, V)>) -> Map<Seq<char>, V>
    decreases s.len(),
{
    if s.len() == 0 {
        Map::empty()
    } else {
        pairs_map(s.drop_last()).insert(s.last().0, s.last().1)
    }
}

/// A map from string keys to values; `insert` overwrites.
#[derive(Clone)]
pub struct KeyedMap<V> {
    entries: Vec<(String, V)>,
}

impl<V: View> KeyedMap<V> {
    /// The writes made so far, keys and values taken by their views.
    pub closed spec fn writes(&self) -> Seq<(Seq<char>, V::V)> {
        self.entries@.map_values(|e: (String, V)| (e.0@, e.1@))
    }
}

impl<V: View> View for KeyedMap<V> {
    type V = Map<Seq<char>, V::V>;

    closed spec fn view(&self) -> Map<Seq<char>, V::V> {
        pairs_map(self.writes())
    }
}

/// The value the last write of `k` in `s` wrote, searching writes `< n`.
proof fn lemma_pairs_map_last<V>(s: Seq<(Seq<char>, V)>, k: Seq<char>, n: int)
    requires
        0 <= n <= s.len(),
        forall|m: int| n <= m < s.len() ==> s[m].0 != k,
    ensures
        pairs_map(s).contains_key(k) == pairs_map(s.take(n)).contains_key(k),
        pairs_map(s).contains_key(k) ==> pairs_map(s)[k] == pairs_map(s.take(n))[k],
    decreases s.len(),
{
    if n < s.len() {
        lemma_pairs_map_last(s.drop_last(), k, n);
        assert(s.drop_last().take(n) =~= s.take(n));
    } else {
        assert(s.take(n) =~= s);
    }
}

impl<V: View> KeyedMap<V> {
    /// An empty map.
    pub fn new() -> (m: Self)
        ensures
            m@ == Map::<Seq<char>, V::V>::empty(),
    {
        let m = KeyedMap { entries: Vec::new() };
        assert(m.writes() =~= Seq::<(Seq<char>, V::V)>::empty());
        m
    }

    /// Binds `key` to `value`, replacing any earlier binding.
    pub fn insert(&mut self, key: String, value: V)
        ensures
            final(self)@ == old(self)@.insert(key@, value@),
    {
        let ghost k = key@;
        let ghost v = value@;
        self.entries.push((key, value));
        assert(self.writes().drop_last() =~= old(self).writes());
        assert(self.writes().last() == (k, v));
    }

    /// The value bound to the key whose characters are `key`.
    pub fn get_chars(&self, key: &Vec<char>) -> (r: Option<&V>)
        ensures
            match r {
                Some(v) => self@.contains_key(key@) && self@[key@] == v@,
                None => !self@.contains_key(key@),
            },
    {
        let mut n = self.entries.len();
        while n > 0
            invariant
                n <= self.entries.len(),
                forall|m: int| n <= m < self.entries.len() ==> self.writes()[m].0 != key@,
            decreases n,
        {
            let e = &self.entries[n - 1];
            let kc = chars_of(e.0.as_str());
            if vec_eq(&kc, key) {
                proof {
                    let s = self.writes();
                    lemma_pairs_map_last(s, key@, n as int);
                    assert(s.take(n as int).drop_last() =~= s.take(n - 1));
                    assert(s.take(n as int).last() == s[n - 1]);
                }
                return Some(&e.1);
            }
            n -= 1;
        }
        proof {
            let s = self.writes();
            lemma_pairs_map_last(s, key@, 0);
            assert(s.take(0) =~= Seq::<(Seq<char>, V::V)>::empty());
        }
        None
    }

    /// The value bound to `key`.
    pub fn get(&self, key: &str) -> (r: Option<&V>)
        ensures
            match r {
                Some(v) => self@.contains_key(key@) && self@[key@] == v@,
                None => !self@.contains_key(key@),
            },
    {
        let k = chars_of(key);
        self.get_chars(&k)
    }
}

} // verus!
