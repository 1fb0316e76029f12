//! Small keyed stores with linear lookup, as the ledgers in this crate use
//! them: every key appears at most once, and keys keep the order in which
//! they were first inserted.
use vstd::prelude::*;

verus! {

/// A map from string keys to `Copy` values.
pub struct Table<V> {
    keys: Vec<String>,
    vals: Vec<V>,
    contents: Ghost<Map<Seq<char>, V>>,
}

impl<V: Copy> Table<V> {
    /// The keys in insertion order.
    pub closed spec fn key_seq(&self) -> Seq<Seq<char>> {
        Seq::new(self.keys@.len(), |i: int| self.keys@[i]@)
    }

    pub closed spec fn view(&self) -> Map<Seq<char>, V> {
        self.contents@
    }

    pub closed spec fn wf(&self) -> bool {
        &&& self.keys@.len() == self.vals@.len()
        &&& forall|i: int, j: int|
            0 <= i < j < self.keys@.len() ==> #[trigger] self.keys@[i]@ != #[trigger] self.keys@[j]@
        &&& forall|i: int|
            0 <= i < self.keys@.len() ==> self.contents@.contains_key(#[trigger] self.keys@[i]@)
                && self.contents@[self.keys@[i]@] == self.vals@[i]
        &&& forall|k: Seq<char>|
            #[trigger] self.contents@.contains_key(k) ==> exists|i: int|
                0 <= i < self.keys@.len() && #[trigger] self.keys@[i]@ == k
    }

    /// What `wf` gives a caller: the key sequence lists the map's domain
    /// once each.
    pub proof fn lemma_keys(&self)
        requires
            self.wf(),
        ensures
            self.key_seq().no_duplicates(),
            forall|i: int|
                0 <= i < self.key_seq().len() ==> self@.contains_key(#[trigger] self.key_seq()[i]),
            forall|k: Seq<char>| #[trigger]
                self@.contains_key(k) ==> self.key_seq().contains(k),
    {
        assert forall|k: Seq<char>| #[trigger] self@.contains_key(k) implies self.key_seq().contains(
            k,
        ) by {
            let i = choose|i: int| 0 <= i < self.keys@.len() && #[trigger] self.keys@[i]@ == k;
            assert(self.key_seq()[i] == k);
        }
    }

    pub fn new() -> (t: Self)
        ensures
            t.wf(),
            t@ == Map::<Seq<char>, V>::empty(),
            t.key_seq() == Seq::<Seq<char>>::empty(),
    {
        let t = Table { keys: Vec::new(), vals: Vec::new(), contents: Ghost(Map::empty()) };
        assert(t.key_seq() =~= Seq::<Seq<char>>::empty());
        t
    }

    pub fn len(&self) -> (n: usize)
        requires
            self.wf(),
        ensures
            n == self.key_seq().len(),
    {
        self.keys.len()
    }

    /// The key at position `i` of the insertion order.
    pub fn key_at(&self, i: usize) -> (k: &String)
        requires
            self.wf(),
            i < self.key_seq().len(),
        ensures
            k@ == self.key_seq()[i as int],
    {
        &self.keys[i]
    }

    /// The value stored under the key at position `i`.
    pub fn value_at(&self, i: usize) -> (v: V)
        requires
            self.wf(),
            i < self.key_seq().len(),
        ensures
            self@.contains_key(self.key_seq()[i as int]),
            v == self@[self.key_seq()[i as int]],
    {
        self.vals[i]
    }

    /// Position of `key` in the insertion order, if present.
    fn find(&self, key: &String) -> (r: Option<usize>)
        requires
            self.wf(),
        ensures
            match r {
                Some(i) => i < self.keys@.len() && self.keys@[i as int]@ == key@,
                None => !self@.contains_key(key@),
            },
    {
        let mut i: usize = 0;
        while i < self.keys.len()
            invariant
                self.wf(),
                i <= self.keys@.len(),
                forall|j: int| 0 <= j < i ==> self.keys@[j]@ != key@,
            decreases self.keys@.len() - i,
        {
            if self.keys[i] == *key {
                return Some(i);
            }
            i += 1;
        }
        None
    }

    pub fn get(&self, key: &String) -> (r: Option<V>)
        requires
            self.wf(),
        ensures
            r == (if self@.contains_key(key@) {
                Some(self@[key@])
            } else {
                None
            }),
    {
        match self.find(key) {
            Some(i) => Some(self.vals[i]),
            None => None,
        }
    }

    pub fn contains(&self, key: &String) -> (b: bool)
        requires
            self.wf(),
        ensures
            b == self@.contains_key(key@),
    {
        self.find(key).is_some()
    }

    /// Stores `v` under `key`, replacing what was there. A new key goes to
    /// the end of the insertion order.
    pub fn insert(&mut self, key: &String, v: V)
        requires
            old(self).wf(),
        ensures
            final(self).wf(),
            final(self)@ == old(self)@.insert(key@, v),
            final(self).key_seq() == (if old(self)@.contains_key(key@) {
                old(self).key_seq()
            } else {
                old(self).key_seq().push(key@)
            }),
    {
        match self.find(key) {
            Some(i) => {
                self.vals.set(i, v);
                self.contents = Ghost(self.contents@.insert(key@, v));
                assert(self.key_seq() =~= old(self).key_seq());
                assert forall|k: Seq<char>| #[trigger]
                    self.contents@.contains_key(k) implies exists|j: int|
                    0 <= j < self.keys@.len() && #[trigger] self.keys@[j]@ == k by {
                    if k != key@ {
                        assert(old(self).contents@.contains_key(k));
                    } else {
                        assert(self.keys@[i as int]@ == k);
                    }
                }
            },
            None => {
                let ghost n = self.keys@.len();
                self.keys.push(key.clone());
                self.vals.push(v);
                self.contents = Ghost(self.contents@.insert(key@, v));
                assert(self.key_seq() =~= old(self).key_seq().push(key@));
                assert forall|i: int| 0 <= i < self.keys@.len() implies self.contents@.contains_key(
                    #[trigger] self.keys@[i]@,
                ) && self.contents@[self.keys@[i]@] == self.vals@[i] by {
                    if i < n {
                        assert(old(self).contents@.contains_key(old(self).keys@[i]@));
                    }
                }
                assert forall|k: Seq<char>| #[trigger]
                    self.contents@.contains_key(k) implies exists|j: int|
                    0 <= j < self.keys@.len() && #[trigger] self.keys@[j]@ == k by {
                    if k != key@ {
                        assert(old(self).contents@.contains_key(k));
                        let j = choose|j: int|
                            0 <= j < old(self).keys@.len() && #[trigger] old(self).keys@[j]@ == k;
                        assert(self.keys@[j]@ == k);
                    } else {
                        assert(self.keys@[n as int]@ == k);
                    }
                }
            },
        }
    }
}


/// A map from pairs of string keys to `Copy` values.
pub struct PairTable<V> {
    firsts: Vec<String>,
    seconds: Vec<String>,
    vals: Vec<V>,
    contents: Ghost<Map<(Seq<char>, Seq<char>), V>>,
}

impl<V: Copy> PairTable<V> {
    spec fn pair_at(&self, i: int) -> (Seq<char>, Seq<char>) {
        (self.firsts@[i]@, self.seconds@[i]@)
    }

    pub closed spec fn view(&self) -> Map<(Seq<char>, Seq<char>), V> {
        self.contents@
    }

    pub closed spec fn wf(&self) -> bool {
        &&& self.firsts@.len() == self.vals@.len()
        &&& self.seconds@.len() == self.vals@.len()
        &&& forall|i: int, j: int|
            0 <= i < j < self.vals@.len() ==> #[trigger] self.pair_at(i) != #[trigger] self.pair_at(j)
        &&& forall|i: int|
            0 <= i < self.vals@.len() ==> self.contents@.contains_key(#[trigger] self.pair_at(i))
                && self.contents@[self.pair_at(i)] == self.vals@[i]
        &&& forall|k: (Seq<char>, Seq<char>)|
            #[trigger] self.contents@.contains_key(k) ==> exists|i: int|
                0 <= i < self.vals@.len() && #[trigger] self.pair_at(i) == k
    }

    pub fn new() -> (t: Self)
        ensures
            t.wf(),
            t@ == Map::<(Seq<char>, Seq<char>), V>::empty(),
    {
        PairTable {
            firsts: Vec::new(),
            seconds: Vec::new(),
            vals: Vec::new(),
            contents: Ghost(Map::empty()),
        }
    }

    fn find(&self, a: &String, b: &String) -> (r: Option<usize>)
        requires
            self.wf(),
        ensures
            match r {
                Some(i) => i < self.vals@.len() && self.pair_at(i as int) == (a@, b@),
                None => !self@.contains_key((a@, b@)),
            },
    {
        let mut i: usize = 0;
        while i < self.vals.len()
            invariant
                self.wf(),
                i <= self.vals@.len(),
                forall|j: int| 0 <= j < i ==> self.pair_at(j) != (a@, b@),
            decreases self.vals@.len() - i,
        {
            if self.firsts[i] == *a && self.seconds[i] == *b {
                return Some(i);
            }
            i += 1;
        }
        None
    }

    pub fn get(&self, a: &String, b: &String) -> (r: Option<V>)
        requires
            self.wf(),
        ensures
            r == (if self@.contains_key((a@, b@)) {
                Some(self@[(a@, b@)])
            } else {
                None
            }),
    {
        match self.find(a, b) {
            Some(i) => Some(self.vals[i]),
            None => None,
        }
    }

    /// Stores `v` under `(a, b)`, replacing what was there.
    pub fn insert(&mut self, a: &String, b: &String, v: V)
        requires
            old(self).wf(),
        ensures
            final(self).wf(),
            final(self)@ == old(self)@.insert((a@, b@), v),
    {
        let ghost key = (a@, b@);
        match self.find(a, b) {
            Some(i) => {
                self.vals.set(i, v);
                self.contents = Ghost(self.contents@.insert(key, v));
                assert forall|i2: int| 0 <= i2 < self.vals@.len() implies self.contents@.contains_key(
                    #[trigger] self.pair_at(i2),
                ) && self.contents@[self.pair_at(i2)] == self.vals@[i2] by {
                    assert(old(self).pair_at(i2) == self.pair_at(i2));
                }
                assert forall|k: (Seq<char>, Seq<char>)| #[trigger]
                    self.contents@.contains_key(k) implies exists|j: int|
                    0 <= j < self.vals@.len() && #[trigger] self.pair_at(j) == k by {
                    if k != key {
                        let j = choose|j: int|
                            0 <= j < old(self).vals@.len() && #[trigger] old(self).pair_at(j) == k;
                        assert(self.pair_at(j) == k);
                    } else {
                        assert(self.pair_at(i as int) == k);
                    }
                }
                assert forall|i2: int, j: int| 0 <= i2 < j < self.vals@.len() implies #[trigger] self.pair_at(i2)
                    != #[trigger] self.pair_at(j) by {
                    assert(old(self).pair_at(i2) == self.pair_at(i2));
                    assert(old(self).pair_at(j) == self.pair_at(j));
                }
            },
            None => {
                let ghost n = self.vals@.len() as int;
                self.firsts.push(a.clone());
                self.seconds.push(b.clone());
                self.vals.push(v);
                self.contents = Ghost(self.contents@.insert(key, v));
                assert(self.pair_at(n) == key);
                assert forall|i2: int| 0 <= i2 < n implies #[trigger] self.pair_at(i2) == old(self).pair_at(i2) by {}
                assert forall|i2: int| 0 <= i2 < self.vals@.len() implies self.contents@.contains_key(
                    #[trigger] self.pair_at(i2),
                ) && self.contents@[self.pair_at(i2)] == self.vals@[i2] by {
                    if i2 < n {
                        assert(old(self).contents@.contains_key(old(self).pair_at(i2)));
                    }
                }
                assert forall|k: (Seq<char>, Seq<char>)| #[trigger]
                    self.contents@.contains_key(k) implies exists|j: int|
                    0 <= j < self.vals@.len() && #[trigger] self.pair_at(j) == k by {
                    if k != key {
                        let j = choose|j: int|
                            0 <= j < old(self).vals@.len() && #[trigger] old(self).pair_at(j) == k;
                        assert(self.pair_at(j) == k);
                    } else {
                        assert(self.pair_at(n) == k);
                    }
                }
            },
        }
    }
}

} // verus!
