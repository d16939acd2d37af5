//! A small map keyed by text, kept as a list of distinct keys.
use vstd::prelude::*;

verus! {

/// The keys of the entries are distinct.
pub open spec fn distinct_keys<V>(s: Seq<(String, V)>) -> bool {
    forall|i: int, j: int|
        0 <= i < s.len() && 0 <= j < s.len() && i != j ==> #[trigger] s[i].0@ != #[trigger] s[j].0@
}

/// `k` is the key of some entry.
pub open spec fn has_key<V>(s: Seq<(String, V)>, k: Seq<char>) -> bool {
    exists|i: int| 0 <= i < s.len() && #[trigger] s[i].0@ == k
}

/// The position of the entry with key `k`.
pub open spec fn key_index<V>(s: Seq<(String, V)>, k: Seq<char>) -> int {
    choose|i: int| 0 <= i < s.len() && #[trigger] s[i].0@ == k
}

/// The map the entries stand for.
pub open spec fn entries_map<V>(s: Seq<(String, V)>) -> Map<Seq<char>, V> {
    Map::new(|k: Seq<char>| has_key(s, k), |k: Seq<char>| s[key_index(s, k)].1)
}

/// A map from text keys to values.
pub struct TextMap<V> {
    entries: Vec<(String, V)>,
}

impl<V> View for TextMap<V> {
    type V = Map<Seq<char>, V>;

    closed spec fn view(&self) -> Map<Seq<char>, V> {
        entries_map(self.entries@)
    }
}

/// With distinct keys, an entry's position is the one its key names.
proof fn lemma_key_index<V>(s: Seq<(String, V)>, i: int)
    requires
        distinct_keys(s),
        0 <= i < s.len(),
    ensures
        has_key(s, s[i].0@),
        key_index(s, s[i].0@) == i,
        entries_map(s)[s[i].0@] == s[i].1,
{
    assert(has_key(s, s[i].0@));
    let j = key_index(s, s[i].0@);
    assert(s[j].0@ == s[i].0@);
}

impl<V> TextMap<V> {
    #[verifier::type_invariant]
    closed spec fn well_formed(self) -> bool {
        distinct_keys(self.entries@)
    }

    /// An empty map.
    pub fn new() -> (m: Self)
        ensures
            m@ == Map::<Seq<char>, V>::empty(),
    {
        let m = TextMap { entries: Vec::new() };
        assert(m@ =~= Map::<Seq<char>, V>::empty());
        m
    }

    /// The number of keys.
    pub fn len(&self) -> (n: usize)
        ensures
            n == self@.dom().len(),
    {
        proof {
            use_type_invariant(self);
            lemma_dom_len(self.entries@);
        }
        self.entries.len()
    }

    /// Position of `key` among the entries.
    fn position(&self, key: &String) -> (r: Option<usize>)
        ensures
            r matches Some(i) ==> i < self.entries@.len() && self.entries@[i as int].0@ == key@,
            r is None ==> !has_key(self.entries@, key@),
    {
        let mut i: usize = 0;
        while i < self.entries.len()
            invariant
                i <= self.entries@.len(),
                forall|j: int| 0 <= j < i ==> #[trigger] self.entries@[j].0@ != key@,
            decreases self.entries@.len() - i,
        {
            if self.entries[i].0 == *key {
                return Some(i);
            }
            i = i + 1;
        }
        None
    }

    /// Whether `key` has a value.
    pub fn contains_key(&self, key: &String) -> (r: bool)
        ensures
            r == self@.dom().contains(key@),
    {
        self.position(key).is_some()
    }

    /// The value of `key`, if any.
    pub fn get(&self, key: &String) -> (r: Option<&V>)
        ensures
            r is Some == self@.dom().contains(key@),
            r matches Some(v) ==> *v == self@[key@],
    {
        proof { use_type_invariant(self); }
        match self.position(key) {
            Some(i) => {
                proof { lemma_key_index(self.entries@, i as int); }
                Some(&self.entries[i].1)
            },
            None => None,
        }
    }

    /// Sets the value of `key`, replacing any earlier one.
    pub fn insert(&mut self, key: String, value: V)
        ensures
            final(self)@ == old(self)@.insert(key@, value),
    {
        proof { use_type_invariant(&*self); }
        let ghost old_entries = self.entries@;
        match self.position(&key) {
            Some(i) => {
                let ghost k = key@;
                let mut entries: Vec<(String, V)> = Vec::new();
                std::mem::swap(&mut entries, &mut self.entries);
                entries.set(i, (key, value));
                assert(entries@ == old_entries.update(i as int, (entries@[i as int].0, value)));
                proof {
                    assert(distinct_keys(entries@)) by {
                        assert forall|a: int, b: int|
                            0 <= a < entries@.len() && 0 <= b < entries@.len() && a != b
                            implies #[trigger] entries@[a].0@ != #[trigger] entries@[b].0@ by {
                            if a != i && b != i {
                                assert(entries@[a] == old_entries[a] && entries@[b] == old_entries[b]);
                            } else if a == i {
                                assert(entries@[b] == old_entries[b]);
                            } else {
                                assert(entries@[a] == old_entries[a]);
                            }
                        }
                    }
                    assert forall|q: Seq<char>| has_key(entries@, q) == has_key(old_entries, q) by {
                        if has_key(old_entries, q) {
                            let j = key_index(old_entries, q);
                            assert(entries@[j].0@ == q);
                        }
                        if has_key(entries@, q) {
                            let j = key_index(entries@, q);
                            assert(old_entries[j].0@ == q);
                        }
                    }
                    assert forall|q: Seq<char>| #[trigger] has_key(entries@, q) implies entries_map(entries@)[q]
                        == (if q == k { value } else { entries_map(old_entries)[q] }) by {
                        let j = key_index(entries@, q);
                        lemma_key_index(entries@, j);
                        if q != k {
                            assert(j != i);
                            lemma_key_index(old_entries, j);
                        }
                    }
                    assert(entries_map(entries@) =~= entries_map(old_entries).insert(k, value));
                }
                self.entries = entries;
            },
            None => {
                let ghost k = key@;
                let mut entries: Vec<(String, V)> = Vec::new();
                std::mem::swap(&mut entries, &mut self.entries);
                entries.push((key, value));
                proof {
                    let n = old_entries.len() as int;
                    assert(entries@ == old_entries.push(entries@[n]));
                    assert(distinct_keys(entries@)) by {
                        assert forall|a: int, b: int|
                            0 <= a < entries@.len() && 0 <= b < entries@.len() && a != b
                            implies #[trigger] entries@[a].0@ != #[trigger] entries@[b].0@ by {
                            if a < n && b < n {
                                assert(entries@[a] == old_entries[a] && entries@[b] == old_entries[b]);
                            } else if a == n {
                                assert(entries@[b] == old_entries[b]);
                            } else {
                                assert(entries@[a] == old_entries[a]);
                            }
                        }
                    }
                    assert forall|q: Seq<char>| #[trigger] has_key(entries@, q) == (has_key(old_entries, q) || q == k) by {
                        if has_key(old_entries, q) {
                            let j = key_index(old_entries, q);
                            assert(entries@[j].0@ == q);
                        }
                        if has_key(entries@, q) && q != k {
                            let j = key_index(entries@, q);
                            assert(j != n);
                            assert(old_entries[j].0@ == q);
                        }
                        if q == k {
                            assert(entries@[n].0@ == q);
                        }
                    }
                    assert forall|q: Seq<char>| #[trigger] has_key(entries@, q) implies entries_map(entries@)[q]
                        == (if q == k { value } else { entries_map(old_entries)[q] }) by {
                        let j = key_index(entries@, q);
                        lemma_key_index(entries@, j);
                        if q != k {
                            assert(j != n);
                            lemma_key_index(old_entries, j);
                        }
                    }
                    assert(entries_map(entries@) =~= entries_map(old_entries).insert(k, value));
                }
                self.entries = entries;
            },
        }
    }

    /// The keys, each once.
    pub fn keys(&self) -> (r: Vec<String>)
        ensures
            self@.dom().finite(),
            r@.len() == self@.dom().len(),
            forall|i: int, j: int| 0 <= i < j < r@.len() ==> #[trigger] r@[i]@ != #[trigger] r@[j]@,
            forall|i: int| 0 <= i < r@.len() ==> self@.dom().contains(#[trigger] r@[i]@),
            forall|k: Seq<char>| self@.dom().contains(k) ==> exists|i: int| 0 <= i < r@.len() && #[trigger] r@[i]@ == k,
    {
        proof {
            use_type_invariant(self);
            lemma_dom_len(self.entries@);
        }
        let mut r: Vec<String> = Vec::new();
        let mut i: usize = 0;
        while i < self.entries.len()
            invariant
                i <= self.entries@.len(),
                r@.len() == i,
                forall|j: int| 0 <= j < i ==> #[trigger] r@[j]@ == self.entries@[j].0@,
            decreases self.entries@.len() - i,
        {
            r.push(self.entries[i].0.clone());
            i = i + 1;
        }
        proof {
            assert forall|j: int| 0 <= j < r@.len() implies self@.dom().contains(#[trigger] r@[j]@) by {
                assert(has_key(self.entries@, self.entries@[j].0@));
            }
            assert forall|k: Seq<char>| self@.dom().contains(k) implies exists|j: int|
                0 <= j < r@.len() && #[trigger] r@[j]@ == k by {
                let j = key_index(self.entries@, k);
                assert(r@[j]@ == k);
            }
        }
        r
    }

    /// Removes `key` and gives back its value, if it had one.
    pub fn remove(&mut self, key: &String) -> (r: Option<V>)
        ensures
            r is Some == old(self)@.dom().contains(key@),
            r matches Some(v) ==> v == old(self)@[key@],
            final(self)@ == old(self)@.remove(key@),
    {
        proof { use_type_invariant(&*self); }
        let ghost old_entries = self.entries@;
        match self.position(key) {
            Some(i) => {
                proof { lemma_key_index(old_entries, i as int); }
                let ghost k = key@;
                let mut entries: Vec<(String, V)> = Vec::new();
                std::mem::swap(&mut entries, &mut self.entries);
                let (_, v) = entries.remove(i);
                proof {
                    let n = entries@;
                    assert(n == old_entries.remove(i as int));
                    assert forall|a: int| 0 <= a < n.len() implies #[trigger] n[a] == old_entries[if a < i {
                        a
                    } else {
                        a + 1
                    }] by {}
                    assert(distinct_keys(n)) by {
                        assert forall|a: int, b: int| 0 <= a < n.len() && 0 <= b < n.len() && a != b
                            implies #[trigger] n[a].0@ != #[trigger] n[b].0@ by {
                            let a2 = if a < i { a } else { a + 1 };
                            let b2 = if b < i { b } else { b + 1 };
                            assert(n[a] == old_entries[a2] && n[b] == old_entries[b2]);
                        }
                    }
                    assert forall|q: Seq<char>| #[trigger] has_key(n, q) == (has_key(old_entries, q) && q != k) by {
                        if has_key(old_entries, q) && q != k {
                            let j = key_index(old_entries, q);
                            assert(j != i);
                            let j2 = if j < i { j } else { j - 1 };
                            assert(n[j2] == old_entries[j]);
                        }
                        if has_key(n, q) {
                            let j = key_index(n, q);
                            let j2 = if j < i { j } else { j + 1 };
                            assert(n[j] == old_entries[j2]);
                            assert(j2 != i);
                        }
                    }
                    assert forall|q: Seq<char>| #[trigger] has_key(n, q) implies entries_map(n)[q]
                        == entries_map(old_entries)[q] by {
                        let j = key_index(n, q);
                        lemma_key_index(n, j);
                        let j2 = if j < i { j } else { j + 1 };
                        assert(n[j] == old_entries[j2]);
                        lemma_key_index(old_entries, j2);
                    }
                    assert(entries_map(n) =~= entries_map(old_entries).remove(k));
                }
                self.entries = entries;
                Some(v)
            },
            None => {
                assert(entries_map(old_entries).remove(key@) =~= entries_map(old_entries));
                None
            },
        }
    }
}

/// The number of keys is the number of entries.
proof fn lemma_dom_len<V>(s: Seq<(String, V)>)
    requires
        distinct_keys(s),
    ensures
        entries_map(s).dom().finite(),
        entries_map(s).dom().len() == s.len(),
    decreases s.len(),
{
    if s.len() == 0 {
        assert(entries_map(s).dom() =~= Set::empty());
    } else {
        let p = s.drop_last();
        let k = s.last().0@;
        assert(distinct_keys(p)) by {
            assert forall|a: int, b: int| 0 <= a < p.len() && 0 <= b < p.len() && a != b
                implies #[trigger] p[a].0@ != #[trigger] p[b].0@ by {
                assert(p[a] == s[a] && p[b] == s[b]);
            }
        }
        lemma_dom_len(p);
        assert forall|q: Seq<char>| #[trigger] has_key(s, q) == (has_key(p, q) || q == k) by {
            if has_key(p, q) {
                let j = key_index(p, q);
                assert(s[j].0@ == q);
            }
            if has_key(s, q) && q != k {
                let j = key_index(s, q);
                assert(j != s.len() - 1);
                assert(p[j].0@ == q);
            }
            if q == k {
                assert(s[s.len() - 1].0@ == q);
            }
        }
        assert(!has_key(p, k)) by {
            if has_key(p, k) {
                let j = key_index(p, k);
                assert(s[j].0@ == k);
                assert(s[s.len() - 1].0@ == k);
            }
        }
        assert(entries_map(s).dom() =~= entries_map(p).dom().insert(k));
    }
}

/// A read after a write gives what was written; other keys keep their
/// values; a removed key is gone and the others stay.
pub proof fn law_read_after_write<V>(m: Map<Seq<char>, V>, k: Seq<char>, v: V, other: Seq<char>)
    requires
        other != k,
    ensures
        m.insert(k, v).dom().contains(k) && m.insert(k, v)[k] == v,
        m.insert(k, v).dom().contains(other) == m.dom().contains(other),
        m.dom().contains(other) ==> m.insert(k, v)[other] == m[other],
        !m.remove(k).dom().contains(k),
        m.dom().contains(other) ==> m.remove(k).dom().contains(other) && m.remove(k)[other] == m[other],
{
}

} // verus!
