//! A key-value memory of strings: each key holds one value, a write replaces
//! the value of its key, and entries keep the order in which their keys first
//! arrived.
use vstd::prelude::*;

verus! {

/// An entry of the memory, by the views of its key and value.
pub type EntryView = (Seq<char>, Seq<char>);

/// The map that a list of entries with distinct keys denotes.
pub open spec fn to_map(s: Seq<EntryView>) -> Map<Seq<char>, Seq<char>>
    decreases s.len(),
{
    if s.len() == 0 {
        Map::empty()
    } else {
        to_map(s.drop_last()).insert(s.last().0, s.last().1)
    }
}

/// No two entries share a key.
pub open spec fn keys_distinct(s: Seq<EntryView>) -> bool {
    forall|i: int, j: int| 0 <= i < j < s.len() ==> s[i].0 != s[j].0
}

/// The position of the entry whose key is `k`, searching from `i`.
pub open spec fn key_index_from(s: Seq<EntryView>, k: Seq<char>, i: int) -> Option<int>
    decreases s.len() - i,
{
    if i < 0 || i >= s.len() {
        None
    } else if s[i].0 == k {
        Some(i)
    } else {
        key_index_from(s, k, i + 1)
    }
}

/// The position of the entry whose key is `k`.
pub open spec fn key_index(s: Seq<EntryView>, k: Seq<char>) -> Option<int> {
    key_index_from(s, k, 0)
}

/// The entries after writing `v` under `k`: the entry of `k` takes the new
/// value in place, or a new entry goes last.
pub open spec fn write_entry(s: Seq<EntryView>, k: Seq<char>, v: Seq<char>) -> Seq<EntryView> {
    match key_index(s, k) {
        Some(j) => s.update(j, (k, v)),
        None => s.push((k, v)),
    }
}

proof fn lemma_key_index_from(s: Seq<EntryView>, k: Seq<char>, i: int)
    requires
        0 <= i,
    ensures
        key_index_from(s, k, i) matches Some(j) ==> i <= j < s.len() && s[j].0 == k,
        key_index_from(s, k, i) is None ==> forall|j: int| i <= j < s.len() ==> s[j].0 != k,
    decreases s.len() - i,
{
    if i < s.len() && s[i].0 != k {
        lemma_key_index_from(s, k, i + 1);
    }
}

/// Every entry is in the map, with its value.
proof fn lemma_to_map_entry(s: Seq<EntryView>, i: int)
    requires
        keys_distinct(s),
        0 <= i < s.len(),
    ensures
        to_map(s).contains_key(s[i].0),
        to_map(s)[s[i].0] == s[i].1,
    decreases s.len(),
{
    if i < s.len() - 1 {
        assert(s.drop_last()[i] == s[i]);
        lemma_to_map_entry(s.drop_last(), i);
    }
}

/// A key of no entry is not in the map.
proof fn lemma_to_map_absent(s: Seq<EntryView>, k: Seq<char>)
    requires
        forall|j: int| 0 <= j < s.len() ==> s[j].0 != k,
    ensures
        !to_map(s).contains_key(k),
    decreases s.len(),
{
    if s.len() > 0 {
        assert forall|j: int| 0 <= j < s.drop_last().len() implies s.drop_last()[j].0 != k by {
            assert(s.drop_last()[j] == s[j]);
        }
        lemma_to_map_absent(s.drop_last(), k);
    }
}

/// Replacing the value of an entry in place writes that value into the map.
proof fn lemma_to_map_update(s: Seq<EntryView>, j: int, v: Seq<char>)
    requires
        keys_distinct(s),
        0 <= j < s.len(),
    ensures
        to_map(s.update(j, (s[j].0, v))) == to_map(s).insert(s[j].0, v),
    decreases s.len(),
{
    let t = s.update(j, (s[j].0, v));
    if j == s.len() - 1 {
        assert(t.drop_last() =~= s.drop_last());
        assert(to_map(t) =~= to_map(s).insert(s[j].0, v));
    } else {
        assert(t.drop_last() =~= s.drop_last().update(j, (s[j].0, v)));
        assert(s.drop_last()[j] == s[j]);
        lemma_to_map_update(s.drop_last(), j, v);
        assert(s.last().0 != s[j].0);
        assert(to_map(t) =~= to_map(s).insert(s[j].0, v));
    }
}

/// The map of the entries after a write is the old map with that write.
proof fn lemma_write_entry(s: Seq<EntryView>, k: Seq<char>, v: Seq<char>)
    requires
        keys_distinct(s),
    ensures
        keys_distinct(write_entry(s, k, v)),
        to_map(write_entry(s, k, v)) == to_map(s).insert(k, v),
{
    lemma_key_index_from(s, k, 0);
    match key_index(s, k) {
        Some(j) => {
            lemma_to_map_update(s, j, v);
        },
        None => {
            let t = s.push((k, v));
            assert(t.drop_last() =~= s);
            assert forall|a: int, b: int| 0 <= a < b < t.len() implies t[a].0 != t[b].0 by {
                if b == t.len() - 1 {
                    assert(t[a] == s[a]);
                } else {
                    assert(t[a] == s[a] && t[b] == s[b]);
                }
            }
        },
    }
}

/// A string memory: at most one entry per key, in the order in which the keys
/// first arrived.
pub struct Memory {
    entries: Vec<(String, String)>,
}

impl Memory {
    /// The entries, in order, by the views of their keys and values.
    pub closed spec fn entry_views(&self) -> Seq<EntryView> {
        self.entries@.map_values(|e: (String, String)| (e.0@, e.1@))
    }

    #[verifier::type_invariant]
    closed spec fn inv(&self) -> bool {
        keys_distinct(self.entry_views())
    }

    /// An empty memory.
    pub fn new() -> (m: Memory)
        ensures
            m@ == Map::<Seq<char>, Seq<char>>::empty(),
            m.entry_views() == Seq::<EntryView>::empty(),
    {
        let m = Memory { entries: Vec::new() };
        assert(m.entry_views() =~= Seq::<EntryView>::empty());
        m
    }

    /// The number of entries.
    pub fn len(&self) -> (n: usize)
        ensures
            n == self.entry_views().len(),
    {
        self.entries.len()
    }

    /// Whether the memory holds no entry.
    pub fn is_empty(&self) -> (b: bool)
        ensures
            b == (self.entry_views().len() == 0),
            b == (self@ == Map::<Seq<char>, Seq<char>>::empty()),
    {
        proof {
            use_type_invariant(self);
            if self.entry_views().len() > 0 {
                lemma_to_map_entry(self.entry_views(), 0);
            }
        }
        self.entries.len() == 0
    }

    /// The key and value of entry `i`.
    pub fn entry(&self, i: usize) -> (r: (&String, &String))
        requires
            i < self.entry_views().len(),
        ensures
            (r.0@, r.1@) == self.entry_views()[i as int],
    {
        (&self.entries[i].0, &self.entries[i].1)
    }

    /// Where the entry of `key` stands, if there is one.
    fn position(&self, key: &String) -> (r: Option<usize>)
        ensures
            match r {
                Some(j) => key_index(self.entry_views(), key@) == Some(j as int),
                None => key_index(self.entry_views(), key@) is None,
            },
    {
        let n = self.entries.len();
        let mut i: usize = 0;
        while i < n
            invariant
                i <= n == self.entries@.len(),
                key_index(self.entry_views(), key@) == key_index_from(
                    self.entry_views(),
                    key@,
                    i as int,
                ),
            decreases n - i,
        {
            if self.entries[i].0 == *key {
                return Some(i);
            }
            i = i + 1;
        }
        None
    }

    /// Writes `value` under `key`, replacing any value the key held.
    pub fn insert(&mut self, key: String, value: String)
        ensures
            final(self)@ == old(self)@.insert(key@, value@),
            final(self).entry_views() == write_entry(old(self).entry_views(), key@, value@),
    {
        proof {
            use_type_invariant(&*self);
            lemma_write_entry(self.entry_views(), key@, value@);
        }
        let ghost k = key@;
        let ghost v = value@;
        let ghost before = self.entry_views();
        let pos = self.position(&key);
        let mut entries: Vec<(String, String)> = Vec::new();
        std::mem::swap(&mut entries, &mut self.entries);
        assert(entries@.map_values(|e: (String, String)| (e.0@, e.1@)) == before);
        proof {
            lemma_key_index_from(before, k, 0);
        }
        match pos {
            Some(j) => {
                entries.set(j, (key, value));
                assert(entries@.map_values(|e: (String, String)| (e.0@, e.1@)) =~= before.update(
                    j as int,
                    (k, v),
                ));
            },
            None => {
                entries.push((key, value));
                assert(entries@.map_values(|e: (String, String)| (e.0@, e.1@)) =~= before.push(
                    (k, v),
                ));
            },
        }
        self.entries = entries;
    }

    /// The value held under `key`, if any.
    pub fn get(&self, key: &str) -> (r: Option<&String>)
        ensures
            match r {
                Some(v) => self@.contains_key(key@) && v@ == self@[key@],
                None => !self@.contains_key(key@),
            },
    {
        proof {
            use_type_invariant(self);
        }
        let k = String::from_str(key);
        match self.position(&k) {
            Some(j) => {
                proof {
                    lemma_key_index_from(self.entry_views(), k@, 0);
                    lemma_to_map_entry(self.entry_views(), j as int);
                }
                Some(&self.entries[j].1)
            },
            None => {
                proof {
                    lemma_key_index_from(self.entry_views(), k@, 0);
                    lemma_to_map_absent(self.entry_views(), k@);
                }
                None
            },
        }
    }
}

impl View for Memory {
    type V = Map<Seq<char>, Seq<char>>;

    closed spec fn view(&self) -> Map<Seq<char>, Seq<char>> {
        to_map(self.entry_views())
    }
}

/// What a read gives back of a write: writing `v` under `k` into entries
/// with distinct keys keeps the keys distinct, after it `k` holds `v`, and
/// every other key holds what it held before, or stays absent.
pub proof fn law_read_after_write(s: Seq<EntryView>, k: Seq<char>, v: Seq<char>, other: Seq<char>)
    requires
        keys_distinct(s),
        other != k,
    ensures
        keys_distinct(write_entry(s, k, v)),
        to_map(write_entry(s, k, v)).contains_key(k),
        to_map(write_entry(s, k, v))[k] == v,
        to_map(write_entry(s, k, v)).contains_key(other) == to_map(s).contains_key(other),
        to_map(s).contains_key(other) ==> to_map(write_entry(s, k, v))[other] == to_map(s)[other],
{
    lemma_write_entry(s, k, v);
}

/// A write under a key that no entry has appends a new entry.
pub proof fn lemma_write_fresh_key(s: Seq<EntryView>, k: Seq<char>, v: Seq<char>)
    requires
        forall|j: int| 0 <= j < s.len() ==> s[j].0 != k,
    ensures
        write_entry(s, k, v) == s.push((k, v)),
{
    lemma_key_index_from(s, k, 0);
}

/// A write adds at most one entry: the entry of its key is replaced or
/// appended, and every other entry stays where it was.
pub proof fn law_write_adds_at_most_one_entry(s: Seq<EntryView>, k: Seq<char>, v: Seq<char>)
    ensures
        s.len() <= write_entry(s, k, v).len() <= s.len() + 1,
        forall|i: int|
            0 <= i < s.len() && s[i].0 != k ==> #[trigger] write_entry(s, k, v)[i] == s[i],
{
    lemma_key_index_from(s, k, 0);
}

} // verus!
