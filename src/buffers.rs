//! Byte-string sets and maps kept in vectors with unique keys.
use vstd::prelude::*;

verus! {

/// Returns whether two byte strings are equal.
pub fn bytes_eq(a: &Vec<u8>, b: &Vec<u8>) -> (r: bool)
    ensures
        r == (a@ == b@),
{
    if a.len() != b.len() {
        return false;
    }
    let mut i: usize = 0;
    while i < a.len()
        invariant
            a.len() == b.len(),
            0 <= i <= a.len(),
            forall|j: int| 0 <= j < i ==> a@[j] == b@[j],
        decreases a.len() - i,
    {
        if a[i] != b[i] {
            return false;
        }
        i = i + 1;
    }
    assert(a@ =~= b@);
    true
}

/// Returns a copy of a byte string.
pub fn copy_bytes(a: &Vec<u8>) -> (r: Vec<u8>)
    ensures
        r@ == a@,
{
    let mut r: Vec<u8> = Vec::new();
    let mut i: usize = 0;
    while i < a.len()
        invariant
            0 <= i <= a.len(),
            r@ == a@.subrange(0, i as int),
        decreases a.len() - i,
    {
        r.push(a[i]);
        i = i + 1;
        assert(r@ =~= a@.subrange(0, i as int));
    }
    assert(a@.subrange(0, a.len() as int) =~= a@);
    r
}

/// A set of byte strings.
pub struct KeySet {
    items: Vec<Vec<u8>>,
}

impl View for KeySet {
    type V = Set<Seq<u8>>;

    closed spec fn view(&self) -> Set<Seq<u8>> {
        Set::new(|k: Seq<u8>| exists|i: int| 0 <= i < self.items.len() && self.items@[i]@ == k)
    }
}

impl KeySet {
    /// No key is held twice.
    pub closed spec fn wf(&self) -> bool {
        forall|i: int, j: int|
            0 <= i < self.items.len() && 0 <= j < self.items.len() && i != j
                ==> self.items@[i]@ != self.items@[j]@
    }

    /// An empty set.
    pub fn new() -> (r: KeySet)
        ensures
            r.wf(),
            r@ == Set::<Seq<u8>>::empty(),
    {
        let r = KeySet { items: Vec::new() };
        assert(r@ =~= Set::<Seq<u8>>::empty());
        r
    }

    fn index_of(&self, k: &Vec<u8>) -> (r: Option<usize>)
        ensures
            match r {
                Some(i) => i < self.items.len() && self.items@[i as int]@ == k@,
                None => forall|j: int| 0 <= j < self.items.len() ==> self.items@[j]@ != k@,
            },
    {
        let mut i: usize = 0;
        while i < self.items.len()
            invariant
                0 <= i <= self.items.len(),
                forall|j: int| 0 <= j < i ==> self.items@[j]@ != k@,
            decreases self.items.len() - i,
        {
            if bytes_eq(&self.items[i], k) {
                return Some(i);
            }
            i = i + 1;
        }
        None
    }

    /// Whether the set holds `k`.
    pub fn contains(&self, k: &Vec<u8>) -> (r: bool)
        ensures
            r == self@.contains(k@),
    {
        match self.index_of(k) {
            Some(i) => true,
            None => false,
        }
    }

    /// Whether the set is empty.
    pub fn is_empty(&self) -> (r: bool)
        ensures
            r == (self@ == Set::<Seq<u8>>::empty()),
    {
        if self.items.len() == 0 {
            assert(self@ =~= Set::<Seq<u8>>::empty());
            true
        } else {
            assert(self@.contains(self.items@[0]@));
            false
        }
    }

    /// Adds `k`.
    pub fn insert(&mut self, k: Vec<u8>)
        requires
            old(self).wf(),
        ensures
            final(self).wf(),
            final(self)@ == old(self)@.insert(k@),
    {
        match self.index_of(&k) {
            Some(i) => {
                assert(self@ =~= old(self)@.insert(k@));
            },
            None => {
                let ghost kv = k@;
                self.items.push(k);
                assert(self.items@[self.items.len() - 1]@ == kv);
                assert forall|x: Seq<u8>| self@.contains(x) == old(self)@.insert(kv).contains(x) by {
                    if old(self)@.contains(x) {
                        let i = choose|i: int| 0 <= i < old(self).items.len() && old(self).items@[i]@ == x;
                        assert(self.items@[i] == old(self).items@[i]);
                    }
                    if self@.contains(x) && x != kv {
                        let i = choose|i: int| 0 <= i < self.items.len() && self.items@[i]@ == x;
                        assert(old(self).items@[i] == self.items@[i]);
                    }
                }
                assert(self@ =~= old(self)@.insert(kv));
            },
        }
    }

    /// Takes `k` out.
    pub fn remove(&mut self, k: &Vec<u8>)
        requires
            old(self).wf(),
        ensures
            final(self).wf(),
            final(self)@ == old(self)@.remove(k@),
    {
        match self.index_of(k) {
            None => {
                assert(self@ =~= old(self)@.remove(k@));
            },
            Some(i) => {
                let ghost olds = self.items@;
                self.items.remove(i);
                assert forall|x: Seq<u8>| self@.contains(x) == old(self)@.remove(k@).contains(x) by {
                    if old(self)@.contains(x) && x != k@ {
                        let j = choose|j: int| 0 <= j < olds.len() && olds[j]@ == x;
                        if j < i {
                            assert(self.items@[j] == olds[j]);
                        } else {
                            assert(j != i);
                            assert(self.items@[j - 1] == olds[j]);
                        }
                    }
                    if self@.contains(x) {
                        let j = choose|j: int| 0 <= j < self.items.len() && self.items@[j]@ == x;
                        if j < i {
                            assert(self.items@[j] == olds[j]);
                        } else {
                            assert(self.items@[j] == olds[j + 1]);
                        }
                    }
                }
                assert(self@ =~= old(self)@.remove(k@));
            },
        }
    }

    /// The keys, each once, in no particular order.
    pub fn to_vec(&self) -> (r: Vec<Vec<u8>>)
        requires
            self.wf(),
        ensures
            keys_of(r@) == self@,
            keys_unique(r@),
    {
        let mut r: Vec<Vec<u8>> = Vec::new();
        let mut i: usize = 0;
        while i < self.items.len()
            invariant
                0 <= i <= self.items.len(),
                r.len() == i,
                forall|j: int| 0 <= j < i ==> r@[j]@ == self.items@[j]@,
            decreases self.items.len() - i,
        {
            r.push(copy_bytes(&self.items[i]));
            i = i + 1;
        }
        assert forall|k: Seq<u8>| keys_of(r@).contains(k) == self@.contains(k) by {
            if keys_of(r@).contains(k) {
                let j = choose|j: int| 0 <= j < r.len() && r@[j]@ == k;
                assert(self.items@[j]@ == k);
            }
            if self@.contains(k) {
                let j = choose|j: int| 0 <= j < self.items.len() && self.items@[j]@ == k;
                assert(r@[j]@ == k);
            }
        }
        assert(keys_of(r@) =~= self@);
        r
    }
}

/// The set of byte strings listed in `s`.
pub open spec fn keys_of(s: Seq<Vec<u8>>) -> Set<Seq<u8>> {
    Set::new(|k: Seq<u8>| exists|i: int| 0 <= i < s.len() && s[i]@ == k)
}

/// No byte string is listed twice in `s`.
pub open spec fn keys_unique(s: Seq<Vec<u8>>) -> bool {
    forall|i: int, j: int| 0 <= i < s.len() && 0 <= j < s.len() && i != j ==> s[i]@ != s[j]@
}

/// A key and its value.
pub struct Record {
    pub key: Vec<u8>,
    pub val: Vec<u8>,
}

/// The map from key to value that the records of `s` give.
pub open spec fn records_map(s: Seq<Record>) -> Map<Seq<u8>, Seq<u8>> {
    Map::new(
        |k: Seq<u8>| exists|i: int| 0 <= i < s.len() && s[i].key@ == k,
        |k: Seq<u8>| s[choose|i: int| 0 <= i < s.len() && s[i].key@ == k].val@,
    )
}

/// No key is listed twice in `s`.
pub open spec fn record_keys_unique(s: Seq<Record>) -> bool {
    forall|i: int, j: int| 0 <= i < s.len() && 0 <= j < s.len() && i != j ==> s[i].key@ != s[j].key@
}

/// With unique keys, the record at `i` gives the value of its key.
pub proof fn lemma_records_map_at(s: Seq<Record>, i: int)
    requires
        record_keys_unique(s),
        0 <= i < s.len(),
    ensures
        records_map(s).contains_key(s[i].key@),
        records_map(s)[s[i].key@] == s[i].val@,
{
    let k = s[i].key@;
    assert(records_map(s).contains_key(k));
    let j = choose|j: int| 0 <= j < s.len() && s[j].key@ == k;
    assert(j == i);
}

/// A map from byte strings to byte strings.
pub struct KeyMap {
    entries: Vec<Record>,
}

impl View for KeyMap {
    type V = Map<Seq<u8>, Seq<u8>>;

    closed spec fn view(&self) -> Map<Seq<u8>, Seq<u8>> {
        records_map(self.entries@)
    }
}

impl KeyMap {
    /// No key is held twice.
    pub closed spec fn wf(&self) -> bool {
        record_keys_unique(self.entries@)
    }

    /// An empty map.
    pub fn new() -> (r: KeyMap)
        ensures
            r.wf(),
            r@ == Map::<Seq<u8>, Seq<u8>>::empty(),
    {
        let r = KeyMap { entries: Vec::new() };
        assert(r@ =~= Map::<Seq<u8>, Seq<u8>>::empty());
        r
    }

    fn index_of(&self, k: &Vec<u8>) -> (r: Option<usize>)
        ensures
            match r {
                Some(i) => i < self.entries.len() && self.entries@[i as int].key@ == k@,
                None => forall|j: int| 0 <= j < self.entries.len() ==> self.entries@[j].key@ != k@,
            },
    {
        let mut i: usize = 0;
        while i < self.entries.len()
            invariant
                0 <= i <= self.entries.len(),
                forall|j: int| 0 <= j < i ==> self.entries@[j].key@ != k@,
            decreases self.entries.len() - i,
        {
            if bytes_eq(&self.entries[i].key, k) {
                return Some(i);
            }
            i = i + 1;
        }
        None
    }

    /// The value of `k`, if the map holds it.
    pub fn get(&self, k: &Vec<u8>) -> (r: Option<Vec<u8>>)
        requires
            self.wf(),
        ensures
            match r {
                Some(v) => self@.contains_key(k@) && self@[k@] == v@,
                None => !self@.contains_key(k@),
            },
    {
        match self.index_of(k) {
            Some(i) => {
                proof {
                    lemma_records_map_at(self.entries@, i as int);
                }
                Some(copy_bytes(&self.entries[i].val))
            },
            None => None,
        }
    }

    /// Sets the value of `k` to `v`.
    pub fn insert(&mut self, k: Vec<u8>, v: Vec<u8>)
        requires
            old(self).wf(),
        ensures
            final(self).wf(),
            final(self)@ == old(self)@.insert(k@, v@),
    {
        let ghost kv = k@;
        let ghost vv = v@;
        let ghost olds = self.entries@;
        let idx = self.index_of(&k);
        match idx {
            Some(i) => {
                self.entries.set(i, Record { key: k, val: v });
            },
            None => {
                self.entries.push(Record { key: k, val: v });
            },
        }
        let ghost n = self.entries.len();
        assert forall|a: int, b: int| 0 <= a < n && 0 <= b < n && a != b implies self.entries@[a].key@
            != self.entries@[b].key@ by {
            assert(a < olds.len() ==> (self.entries@[a].key@ == olds[a].key@));
            assert(b < olds.len() ==> (self.entries@[b].key@ == olds[b].key@));
        }
        assert forall|x: Seq<u8>| #[trigger] self@.contains_key(x) == old(self)@.insert(kv, vv).contains_key(x) by {
            if old(self)@.contains_key(x) {
                let j = choose|j: int| 0 <= j < olds.len() && olds[j].key@ == x;
                assert(self.entries@[j].key@ == x);
            }
            if self@.contains_key(x) && x != kv {
                let j = choose|j: int| 0 <= j < n && self.entries@[j].key@ == x;
                assert(olds[j].key@ == x);
            }
            if x == kv {
                let w: int = match idx { Some(i) => i as int, None => olds.len() as int };
                assert(self.entries@[w].key@ == kv);
            }
        }
        assert forall|x: Seq<u8>| #[trigger] self@.contains_key(x) implies self@[x] == old(self)@.insert(kv, vv)[x] by {
            let j = choose|j: int| 0 <= j < n && self.entries@[j].key@ == x;
            lemma_records_map_at(self.entries@, j);
            if x != kv {
                lemma_records_map_at(olds, j);
            }
        }
        assert(self@ =~= old(self)@.insert(kv, vv));
    }

    /// Takes `k` out.
    pub fn remove(&mut self, k: &Vec<u8>)
        requires
            old(self).wf(),
        ensures
            final(self).wf(),
            final(self)@ == old(self)@.remove(k@),
    {
        match self.index_of(k) {
            None => {
                assert(self@ =~= old(self)@.remove(k@));
            },
            Some(i) => {
                let ghost olds = self.entries@;
                self.entries.remove(i);
                let ghost n = self.entries.len();
                assert forall|a: int| 0 <= a < n implies #[trigger] self.entries@[a] == olds[if a < i { a } else { a + 1 }] by {}
                assert forall|a: int, b: int| 0 <= a < n && 0 <= b < n && a != b implies self.entries@[a].key@
                    != self.entries@[b].key@ by {
                    assert(self.entries@[a] == olds[if a < i { a } else { a + 1 }]);
                    assert(self.entries@[b] == olds[if b < i { b } else { b + 1 }]);
                }
                assert forall|x: Seq<u8>| #[trigger] self@.contains_key(x) == old(self)@.remove(k@).contains_key(x) by {
                    if old(self)@.contains_key(x) && x != k@ {
                        let j = choose|j: int| 0 <= j < olds.len() && olds[j].key@ == x;
                        if j < i {
                            assert(self.entries@[j] == olds[j]);
                        } else {
                            assert(self.entries@[j - 1] == olds[j]);
                        }
                    }
                    if self@.contains_key(x) {
                        let j = choose|j: int| 0 <= j < n && self.entries@[j].key@ == x;
                        assert(self.entries@[j] == olds[if j < i { j } else { j + 1 }]);
                    }
                }
                assert forall|x: Seq<u8>| #[trigger] self@.contains_key(x) implies self@[x] == old(self)@.remove(k@)[x] by {
                    let j = choose|j: int| 0 <= j < n && self.entries@[j].key@ == x;
                    lemma_records_map_at(self.entries@, j);
                    assert(self.entries@[j] == olds[if j < i { j } else { j + 1 }]);
                    lemma_records_map_at(olds, if j < i { j } else { j + 1 });
                }
                assert(self@ =~= old(self)@.remove(k@));
            },
        }
    }

    /// The records, each key once, in no particular order.
    pub fn to_vec(&self) -> (r: Vec<Record>)
        requires
            self.wf(),
        ensures
            records_map(r@) == self@,
            record_keys_unique(r@),
    {
        let mut r: Vec<Record> = Vec::new();
        let mut i: usize = 0;
        while i < self.entries.len()
            invariant
                0 <= i <= self.entries.len(),
                r.len() == i,
                forall|j: int| 0 <= j < i ==> r@[j].key@ == self.entries@[j].key@ && r@[j].val@ == self.entries@[j].val@,
            decreases self.entries.len() - i,
        {
            r.push(Record { key: copy_bytes(&self.entries[i].key), val: copy_bytes(&self.entries[i].val) });
            i = i + 1;
        }
        assert forall|x: Seq<u8>| #[trigger] records_map(r@).contains_key(x) == self@.contains_key(x) by {
            if records_map(r@).contains_key(x) {
                let j = choose|j: int| 0 <= j < r.len() && r@[j].key@ == x;
                assert(self.entries@[j].key@ == x);
            }
            if self@.contains_key(x) {
                let j = choose|j: int| 0 <= j < r.len() && self.entries@[j].key@ == x;
                assert(r@[j].key@ == x);
            }
        }
        assert forall|x: Seq<u8>| #[trigger] records_map(r@).contains_key(x) implies records_map(r@)[x] == self@[x] by {
            let j = choose|j: int| 0 <= j < r.len() && r@[j].key@ == x;
            lemma_records_map_at(r@, j);
            lemma_records_map_at(self.entries@, j);
        }
        assert(records_map(r@) =~= self@);
        r
    }
}

} // verus!
