//! The transaction index: raw transaction bytes, keyed by the rendered
//! content hash of the transaction. Entries are added or overwritten, never
//! removed.

use vstd::prelude::*;
use crate::ledger::copy_bytes;

verus! {

/// One entry of the index.
#[derive(Debug, PartialEq, Eq)]
struct IndexEntry {
    key: String,
    raw: Vec<u8>,
}

/// The map that a sequence of entries stands for: later entries win.
spec fn entries_map(s: Seq<IndexEntry>) -> Map<Seq<char>, Seq<u8>>
    decreases s.len(),
{
    if s.len() == 0 {
        Map::empty()
    } else {
        entries_map(s.drop_last()).insert(s.last().key@, s.last().raw@)
    }
}

/// No key occurs twice.
spec fn distinct_keys(s: Seq<IndexEntry>) -> bool {
    forall|i: int, j: int| 0 <= i < j < s.len() ==> s[i].key@ != s[j].key@
}

/// Position of the last entry with key `k`, or -1.
spec fn find(s: Seq<IndexEntry>, k: Seq<char>) -> int
    decreases s.len(),
{
    if s.len() == 0 {
        -1
    } else if s.last().key@ == k {
        s.len() - 1
    } else {
        find(s.drop_last(), k)
    }
}

proof fn lemma_find(s: Seq<IndexEntry>, k: Seq<char>)
    ensures
        -1 <= find(s, k) < s.len(),
        find(s, k) >= 0 ==> s[find(s, k)].key@ == k,
        find(s, k) >= 0 <==> entries_map(s).dom().contains(k),
        find(s, k) >= 0 ==> entries_map(s)[k] == s[find(s, k)].raw@,
        find(s, k) < 0 ==> forall|i: int| 0 <= i < s.len() ==> s[i].key@ != k,
    decreases s.len(),
{
    if s.len() > 0 {
        lemma_find(s.drop_last(), k);
        if find(s, k) < 0 {
            assert forall|i: int| 0 <= i < s.len() implies s[i].key@ != k by {
                if i < s.len() - 1 {
                    assert(s.drop_last()[i].key@ != k);
                }
            }
        }
    }
}

proof fn lemma_find_distinct(s: Seq<IndexEntry>, i: int)
    requires
        distinct_keys(s),
        0 <= i < s.len(),
    ensures
        find(s, s[i].key@) == i,
    decreases s.len(),
{
    if i < s.len() - 1 {
        assert(s.last().key@ != s[i].key@);
        assert(distinct_keys(s.drop_last()));
        lemma_find_distinct(s.drop_last(), i);
    }
}

proof fn lemma_finite(s: Seq<IndexEntry>)
    ensures
        entries_map(s).dom().finite(),
        distinct_keys(s) ==> entries_map(s).dom().len() == s.len(),
    decreases s.len(),
{
    if s.len() > 0 {
        lemma_finite(s.drop_last());
        lemma_find(s.drop_last(), s.last().key@);
        if distinct_keys(s) {
            assert(distinct_keys(s.drop_last()));
            if find(s.drop_last(), s.last().key@) >= 0 {
                let j = find(s.drop_last(), s.last().key@);
                assert(s[j].key@ == s.drop_last()[j].key@);
                assert(s[j].key@ == s[s.len() - 1].key@);
            }
        }
    }
}

proof fn lemma_overwrite(s: Seq<IndexEntry>, i: int, e: IndexEntry)
    requires
        distinct_keys(s),
        0 <= i < s.len(),
        s[i].key@ == e.key@,
    ensures
        entries_map(s.update(i, e)) == entries_map(s).insert(e.key@, e.raw@),
        distinct_keys(s.update(i, e)),
    decreases s.len(),
{
    let t = s.update(i, e);
    if i == s.len() - 1 {
        assert(t.drop_last() == s.drop_last());
    } else {
        assert(distinct_keys(s.drop_last()));
        lemma_overwrite(s.drop_last(), i, e);
        assert(t.drop_last() == s.drop_last().update(i, e));
        assert(t.last() == s.last());
        assert(s.last().key@ != s[i].key@);
    }
    assert(entries_map(t) =~= entries_map(s).insert(e.key@, e.raw@));
}

/// A map from rendered content hashes to raw transaction bytes.
#[derive(Debug, PartialEq, Eq)]
pub struct TransactionIndex {
    entries: Vec<IndexEntry>,
}

impl View for TransactionIndex {
    type V = Map<Seq<char>, Seq<u8>>;

    closed spec fn view(&self) -> Map<Seq<char>, Seq<u8>> {
        entries_map(self.entries@)
    }
}

impl TransactionIndex {
    #[verifier::type_invariant]
    spec fn well_formed(self) -> bool {
        distinct_keys(self.entries@)
    }

    /// An index without entries.
    pub fn new() -> (index: TransactionIndex)
        ensures
            index@ == Map::<Seq<char>, Seq<u8>>::empty(),
    {
        TransactionIndex { entries: Vec::new() }
    }

    /// Records `raw` under `key`, replacing what was recorded under that
    /// key before. Every other entry stays as it was.
    pub fn insert(&mut self, key: String, raw: Vec<u8>)
        ensures
            final(self)@ == old(self)@.insert(key@, raw@),
    {
        proof {
            use_type_invariant(&*self);
        }
        let mut entries: Vec<IndexEntry> = Vec::new();
        std::mem::swap(&mut self.entries, &mut entries);
        let mut i: usize = 0;
        let mut found: bool = false;
        while i < entries.len() && !found
            invariant
                i <= entries.len(),
                found ==> i < entries.len() && entries@[i as int].key@ == key@,
                forall|j: int| 0 <= j < i ==> entries@[j].key@ != key@,
            decreases entries.len() - i, if found { 0int } else { 1int },
        {
            if entries[i].key == key {
                found = true;
            } else {
                i = i + 1;
            }
        }
        let entry = IndexEntry { key, raw };
        if found {
            proof {
                lemma_overwrite(entries@, i as int, entry);
            }
            entries.set(i, entry);
        } else {
            proof {
                assert(entries@.push(entry).drop_last() == entries@);
                assert(distinct_keys(entries@.push(entry)));
            }
            entries.push(entry);
        }
        self.entries = entries;
    }

    /// The bytes recorded under `key`, if any.
    pub fn get(&self, key: &String) -> (r: Option<Vec<u8>>)
        ensures
            r is Some <==> self@.dom().contains(key@),
            r matches Some(raw) ==> raw@ == self@[key@],
    {
        proof {
            use_type_invariant(self);
        }
        let mut i: usize = 0;
        while i < self.entries.len()
            invariant
                i <= self.entries.len(),
                distinct_keys(self.entries@),
                forall|j: int| 0 <= j < i ==> self.entries@[j].key@ != key@,
            decreases self.entries.len() - i,
        {
            if self.entries[i].key == *key {
                proof {
                    lemma_find_distinct(self.entries@, i as int);
                    lemma_find(self.entries@, key@);
                }
                return Some(copy_bytes(&self.entries[i].raw));
            }
            i = i + 1;
        }
        proof {
            lemma_find(self.entries@, key@);
            if find(self.entries@, key@) >= 0 {
                assert(self.entries@[find(self.entries@, key@)].key@ == key@);
            }
        }
        None
    }

    /// Whether anything is recorded under `key`.
    pub fn contains_key(&self, key: &String) -> (b: bool)
        ensures
            b == self@.dom().contains(key@),
    {
        self.get(key).is_some()
    }

    /// Number of entries: one per key.
    pub fn len(&self) -> (n: usize)
        ensures
            self@.dom().finite(),
            n == self@.dom().len(),
    {
        proof {
            use_type_invariant(self);
            lemma_finite(self.entries@);
        }
        self.entries.len()
    }

    /// The recorded keys, each once.
    pub fn keys(&self) -> (keys: Vec<String>)
        ensures
            keys@.len() == self@.dom().len(),
            forall|i: int| 0 <= i < keys@.len() ==> self@.dom().contains(#[trigger] keys@[i]@),
            forall|k: Seq<char>|
                self@.dom().contains(k) ==> exists|i: int|
                    0 <= i < keys@.len() && #[trigger] keys@[i]@ == k,
            forall|i: int, j: int| 0 <= i < j < keys@.len() ==> keys@[i]@ != keys@[j]@,
    {
        proof {
            use_type_invariant(self);
            lemma_finite(self.entries@);
        }
        let mut keys: Vec<String> = Vec::new();
        let mut i: usize = 0;
        while i < self.entries.len()
            invariant
                i <= self.entries.len(),
                keys@.len() == i,
                forall|j: int| 0 <= j < i ==> (#[trigger] keys@[j])@ == self.entries@[j].key@,
            decreases self.entries.len() - i,
        {
            keys.push(self.entries[i].key.clone());
            i = i + 1;
        }
        proof {
            assert forall|j: int| 0 <= j < keys@.len() implies self@.dom().contains(
                #[trigger] keys@[j]@,
            ) by {
                lemma_find_distinct(self.entries@, j);
                lemma_find(self.entries@, self.entries@[j].key@);
            }
            assert forall|k: Seq<char>| self@.dom().contains(k) implies exists|i: int|
                0 <= i < keys@.len() && #[trigger] keys@[i]@ == k by {
                lemma_find(self.entries@, k);
                let p = find(self.entries@, k);
                assert(keys@[p]@ == k);
            }
        }
        keys
    }
}

} // verus!
