//! The key/value data of the state machine: each key maps to at most one value.
use vstd::prelude::*;

verus! {

/// Whether no two pairs of `s` have the same key.
pub open spec fn keys_distinct(s: Seq<(String, String)>) -> bool {
    forall|i: int, j: int| 0 <= i < j < s.len() ==> #[trigger] s[i].0@ != #[trigger] s[j].0@
}

/// The map that pairs given in order build when each pair overwrites the earlier value of its key.
pub open spec fn pairs_to_map(s: Seq<(String, String)>) -> Map<Seq<char>, Seq<char>>
    decreases s.len(),
{
    if s.len() == 0 {
        Map::empty()
    } else {
        pairs_to_map(s.drop_last()).insert(s.last().0@, s.last().1@)
    }
}

/// A map from string keys to string values.
#[derive(Debug)]
pub struct KvMap {
    pairs: Vec<(String, String)>,
}

/// The position of the pair with key `k`, for a sequence with distinct keys.
spec fn position_of_key(s: Seq<(String, String)>, k: Seq<char>) -> int {
    choose|i: int| 0 <= i < s.len() && s[i].0@ == k
}

spec fn has_key(s: Seq<(String, String)>, k: Seq<char>) -> bool {
    exists|i: int| 0 <= i < s.len() && s[i].0@ == k
}

spec fn seq_map(s: Seq<(String, String)>) -> Map<Seq<char>, Seq<char>> {
    Map::new(|k: Seq<char>| has_key(s, k), |k: Seq<char>| s[position_of_key(s, k)].1@)
}

proof fn lemma_seq_map_at(s: Seq<(String, String)>, i: int)
    requires
        keys_distinct(s),
        0 <= i < s.len(),
    ensures
        seq_map(s).contains_key(s[i].0@),
        seq_map(s)[s[i].0@] == s[i].1@,
{
    assert(has_key(s, s[i].0@));
    let j = position_of_key(s, s[i].0@);
    if j != i {
        if j < i {
            assert(s[j].0@ != s[i].0@);
        } else {
            assert(s[i].0@ != s[j].0@);
        }
    }
}

proof fn lemma_pairs_to_map_is_seq_map(s: Seq<(String, String)>)
    requires
        keys_distinct(s),
    ensures
        pairs_to_map(s) == seq_map(s),
    decreases s.len(),
{
    if s.len() > 0 {
        let p = s.drop_last();
        assert(keys_distinct(p));
        lemma_pairs_to_map_is_seq_map(p);
        let last = s.last();
        assert forall|q: Seq<char>| has_key(s, q) == (has_key(p, q) || q == last.0@) by {
            if has_key(s, q) {
                let j = choose|j: int| 0 <= j < s.len() && s[j].0@ == q;
                if j < p.len() {
                    assert(p[j].0@ == q);
                }
            }
            if has_key(p, q) {
                let j = choose|j: int| 0 <= j < p.len() && p[j].0@ == q;
                assert(s[j].0@ == q);
            }
            if q == last.0@ {
                assert(s[s.len() - 1].0@ == q);
            }
        }
        assert forall|q: Seq<char>| #[trigger] seq_map(s).contains_key(q) implies seq_map(s)[q]
            == seq_map(p).insert(last.0@, last.1@)[q] by {
            let j = choose|j: int| 0 <= j < s.len() && s[j].0@ == q;
            lemma_seq_map_at(s, j);
            if j < p.len() {
                lemma_seq_map_at(p, j);
                assert(s[j].0@ != s[s.len() - 1].0@);
            }
        }
        assert(seq_map(s) =~= seq_map(p).insert(last.0@, last.1@));
    } else {
        assert(seq_map(s) =~= Map::empty());
    }
}

impl View for KvMap {
    type V = Map<Seq<char>, Seq<char>>;

    closed spec fn view(&self) -> Map<Seq<char>, Seq<char>> {
        seq_map(self.pairs@)
    }
}

impl KvMap {
    #[verifier::type_invariant]
    spec fn inv(self) -> bool {
        keys_distinct(self.pairs@)
    }

    /// The map with no key.
    pub fn new() -> (r: KvMap)
        ensures
            r@ == Map::<Seq<char>, Seq<char>>::empty(),
    {
        let r = KvMap { pairs: Vec::new() };
        proof {
            assert(r@ =~= Map::<Seq<char>, Seq<char>>::empty());
        }
        r
    }

    /// Builds the map that the pairs give when each overwrites the earlier value of its key.
    pub fn from_pairs(pairs: Vec<(String, String)>) -> (r: KvMap)
        ensures
            r@ == pairs_to_map(pairs@),
    {
        let mut r = KvMap::new();
        let mut i: usize = 0;
        while i < pairs.len()
            invariant
                i <= pairs@.len(),
                r@ == pairs_to_map(pairs@.take(i as int)),
            decreases pairs@.len() - i,
        {
            let key = pairs[i].0.clone();
            let value = pairs[i].1.clone();
            r.insert(key, value);
            proof {
                assert(pairs@.take(i + 1).drop_last() =~= pairs@.take(i as int));
            }
            i = i + 1;
        }
        proof {
            assert(pairs@.take(pairs@.len() as int) =~= pairs@);
        }
        r
    }

    /// The pairs of the map, each key once.
    pub fn to_pairs(&self) -> (r: Vec<(String, String)>)
        ensures
            keys_distinct(r@),
            pairs_to_map(r@) == self@,
    {
        proof {
            use_type_invariant(self);
        }
        let mut r: Vec<(String, String)> = Vec::new();
        let mut i: usize = 0;
        while i < self.pairs.len()
            invariant
                i <= self.pairs@.len(),
                r@ == self.pairs@.take(i as int),
            decreases self.pairs@.len() - i,
        {
            let key = self.pairs[i].0.clone();
            let value = self.pairs[i].1.clone();
            r.push((key, value));
            i = i + 1;
            proof {
                assert(r@ =~= self.pairs@.take(i as int));
            }
        }
        proof {
            assert(r@ =~= self.pairs@);
            lemma_pairs_to_map_is_seq_map(r@);
        }
        r
    }

    fn find(&self, key: &String) -> (r: Option<usize>)
        ensures
            match r {
                Some(i) => i < self.pairs@.len() && self.pairs@[i as int].0@ == key@,
                None => !has_key(self.pairs@, key@),
            },
    {
        let mut i: usize = 0;
        while i < self.pairs.len()
            invariant
                i <= self.pairs@.len(),
                forall|j: int| 0 <= j < i ==> self.pairs@[j].0@ != key@,
            decreases self.pairs@.len() - i,
        {
            if self.pairs[i].0 == *key {
                return Some(i);
            }
            i = i + 1;
        }
        None
    }

    /// Whether `key` has a value.
    pub fn contains_key(&self, key: &String) -> (r: bool)
        ensures
            r == self@.contains_key(key@),
    {
        self.find(key).is_some()
    }

    /// The value of `key`, if it has one.
    pub fn get(&self, key: &String) -> (r: Option<String>)
        ensures
            match r {
                Some(v) => self@.contains_key(key@) && v@ == self@[key@],
                None => !self@.contains_key(key@),
            },
    {
        proof {
            use_type_invariant(self);
        }
        match self.find(key) {
            Some(i) => {
                proof {
                    lemma_seq_map_at(self.pairs@, i as int);
                }
                Some(self.pairs[i].1.clone())
            },
            None => None,
        }
    }

    /// Sets the value of `key`, replacing the value it had.
    pub fn insert(&mut self, key: String, value: String)
        ensures
            final(self)@ == old(self)@.insert(key@, value@),
    {
        proof {
            use_type_invariant(&*self);
        }
        let ghost old_pairs = self.pairs@;
        match self.find(&key) {
            Some(i) => {
                let ghost k = key@;
                let ghost v = value@;
                let mut pairs: Vec<(String, String)> = Vec::new();
                std::mem::swap(&mut pairs, &mut self.pairs);
                pairs.set(i, (key, value));
                proof {
                    let s = pairs@;
                    assert(s == old_pairs.update(i as int, s[i as int]));
                    assert forall|a: int, b: int| 0 <= a < b < s.len() implies #[trigger] s[a].0@
                        != #[trigger] s[b].0@ by {
                        assert(old_pairs[a].0@ != old_pairs[b].0@);
                    }
                }
                self.pairs = pairs;
                proof {
                    let s = self.pairs@;
                    assert forall|q: Seq<char>| has_key(s, q) == has_key(old_pairs, q) by {
                        if has_key(s, q) {
                            let j = choose|j: int| 0 <= j < s.len() && s[j].0@ == q;
                            assert(old_pairs[j].0@ == q);
                        }
                        if has_key(old_pairs, q) {
                            let j = choose|j: int| 0 <= j < old_pairs.len() && old_pairs[j].0@ == q;
                            assert(s[j].0@ == q);
                        }
                    }
                    assert forall|q: Seq<char>| #[trigger] seq_map(s).contains_key(q) implies
                        seq_map(s)[q] == seq_map(old_pairs).insert(k, v)[q] by {
                        let j = choose|j: int| 0 <= j < s.len() && s[j].0@ == q;
                        lemma_seq_map_at(s, j);
                        if j != i {
                            lemma_seq_map_at(old_pairs, j);
                        }
                    }
                    assert(seq_map(s) =~= seq_map(old_pairs).insert(k, v));
                }
            },
            None => {
                let ghost k = key@;
                let ghost v = value@;
                let mut pairs: Vec<(String, String)> = Vec::new();
                std::mem::swap(&mut pairs, &mut self.pairs);
                pairs.push((key, value));
                proof {
                    let s = pairs@;
                    assert forall|a: int, b: int| 0 <= a < b < s.len() implies #[trigger] s[a].0@
                        != #[trigger] s[b].0@ by {
                        if b == s.len() - 1 {
                            assert(!has_key(old_pairs, k));
                            assert(old_pairs[a].0@ == s[a].0@);
                        } else {
                            assert(old_pairs[a].0@ != old_pairs[b].0@);
                        }
                    }
                }
                self.pairs = pairs;
                proof {
                    let s = self.pairs@;
                    assert(s == old_pairs.push(s.last()));
                    assert forall|q: Seq<char>| has_key(s, q) == (has_key(old_pairs, q) || q == k) by {
                        if has_key(s, q) {
                            let j = choose|j: int| 0 <= j < s.len() && s[j].0@ == q;
                            if j < old_pairs.len() {
                                assert(old_pairs[j].0@ == q);
                            }
                        }
                        if has_key(old_pairs, q) {
                            let j = choose|j: int| 0 <= j < old_pairs.len() && old_pairs[j].0@ == q;
                            assert(s[j].0@ == q);
                        }
                        if q == k {
                            assert(s[s.len() - 1].0@ == q);
                        }
                    }
                    assert forall|q: Seq<char>| #[trigger] seq_map(s).contains_key(q) implies
                        seq_map(s)[q] == seq_map(old_pairs).insert(k, v)[q] by {
                        let j = choose|j: int| 0 <= j < s.len() && s[j].0@ == q;
                        lemma_seq_map_at(s, j);
                        if j < old_pairs.len() {
                            lemma_seq_map_at(old_pairs, j);
                        }
                    }
                    assert(seq_map(s) =~= seq_map(old_pairs).insert(k, v));
                }
            },
        }
    }
}

} // verus!
