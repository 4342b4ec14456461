//! The response cache: from the exact bytes of a reading to the bytes that
//! answer it.
//!
//! Entries are never evicted. No key is held twice, so a lookup has one
//! answer whichever way the entries are walked.

use vstd::prelude::*;

verus! {

/// One cached answer.
struct Entry {
    key: Vec<u8>,
    value: Vec<u8>,
}

/// The cache that all connections share.
pub struct Cache {
    entries: Vec<Entry>,
}

/// Whether some entry has this key.
spec fn holds(entries: Seq<Entry>, key: Seq<u8>) -> bool {
    exists|i: int| 0 <= i < entries.len() && #[trigger] entries[i].key@ == key
}

/// The place of an entry with this key.
spec fn place(entries: Seq<Entry>, key: Seq<u8>) -> int {
    choose|i: int| 0 <= i < entries.len() && #[trigger] entries[i].key@ == key
}

/// Whether no key occurs twice.
spec fn distinct(entries: Seq<Entry>) -> bool {
    forall|i: int, j: int|
        0 <= i < j < entries.len() ==> #[trigger] entries[i].key@ != #[trigger] entries[j].key@
}

/// The mapping that the entries stand for.
spec fn mapping(entries: Seq<Entry>) -> Map<Seq<u8>, Seq<u8>> {
    Map::new(|key: Seq<u8>| holds(entries, key), |key: Seq<u8>| entries[place(entries, key)].value@)
}

impl View for Cache {
    type V = Map<Seq<u8>, Seq<u8>>;

    closed spec fn view(&self) -> Map<Seq<u8>, Seq<u8>> {
        mapping(self.entries@)
    }
}

/// Whether two byte strings are the same.
fn same_bytes(left: &[u8], right: &[u8]) -> (same: bool)
    ensures
        same == (left@ == right@),
{
    if left.len() != right.len() {
        return false;
    }
    let mut i: usize = 0;
    while i < left.len()
        invariant
            i <= left.len(),
            left.len() == right.len(),
            forall|j: int| 0 <= j < i ==> left@[j] == right@[j],
        decreases left.len() - i,
    {
        if left[i] != right[i] {
            return false;
        }
        i = i + 1;
    }
    assert(left@ =~= right@);
    true
}

impl Cache {
    #[verifier::type_invariant]
    spec fn keys_are_distinct(self) -> bool {
        distinct(self.entries@)
    }

    /// The place of `key` among the entries, if it is cached.
    fn find(&self, key: &[u8]) -> (found: Option<usize>)
        ensures
            match found {
                Some(i) => i < self.entries@.len() && self.entries@[i as int].key@ == key@,
                None => !holds(self.entries@, key@),
            },
    {
        let mut i: usize = 0;
        while i < self.entries.len()
            invariant
                i <= self.entries@.len(),
                forall|j: int| 0 <= j < i ==> self.entries@[j].key@ != key@,
            decreases self.entries@.len() - i,
        {
            if same_bytes(self.entries[i].key.as_slice(), key) {
                return Some(i);
            }
            i = i + 1;
        }
        None
    }

    /// Whether an answer to `key` is cached.
    pub fn contains_key(&self, key: &[u8]) -> (cached: bool)
        ensures
            cached == self@.contains_key(key@),
    {
        self.find(key).is_some()
    }

    /// The cached answer to `key`.
    pub fn get(&self, key: &[u8]) -> (value: Option<&Vec<u8>>)
        ensures
            match value {
                Some(bytes) => self@.contains_key(key@) && self@[key@] == bytes@,
                None => !self@.contains_key(key@),
            },
    {
        match self.find(key) {
            Some(i) => {
                proof {
                    use_type_invariant(self);
                    assert(holds(self.entries@, key@));
                }
                Some(&self.entries[i].value)
            },
            None => None,
        }
    }

    /// Caches `value` as the answer to `key`, in place of an earlier one.
    pub fn put(&mut self, key: Vec<u8>, value: Vec<u8>)
        ensures
            final(self)@ == old(self)@.insert(key@, value@),
    {
        proof {
            use_type_invariant(&*self);
        }
        let found = self.find(key.as_slice());
        let entry = Entry { key, value };
        let mut entries: Vec<Entry> = Vec::new();
        std::mem::swap(&mut entries, &mut self.entries);
        let ghost before = entries@;
        match found {
            Some(i) => {
                entries.set(i, entry);
                proof {
                    lemma_replaced(before, i as int, entry);
                }
            },
            None => {
                entries.push(entry);
                proof {
                    lemma_appended(before, entry);
                }
            },
        }
        self.entries = entries;
    }

    /// The number of cached answers.
    pub fn len(&self) -> (count: usize)
        ensures
            count == self@.len(),
            self@.dom().finite(),
    {
        proof {
            use_type_invariant(self);
            lemma_count(self.entries@);
        }
        self.entries.len()
    }
}

/// Replacing the value of an entry maps its key to the new value and leaves
/// the other keys as they were.
proof fn lemma_replaced(entries: Seq<Entry>, i: int, entry: Entry)
    requires
        distinct(entries),
        0 <= i < entries.len(),
        entries[i].key@ == entry.key@,
    ensures
        distinct(entries.update(i, entry)),
        mapping(entries.update(i, entry)) == mapping(entries).insert(entry.key@, entry.value@),
{
    let after = entries.update(i, entry);
    assert forall|key: Seq<u8>| holds(after, key) == holds(entries, key) by {
        if holds(entries, key) {
            let j = place(entries, key);
            assert(after[j].key@ == key);
        }
        if holds(after, key) {
            let j = place(after, key);
            assert(entries[j].key@ == key);
        }
    }
    assert forall|key: Seq<u8>| holds(after, key) implies mapping(after)[key] == mapping(
        entries,
    ).insert(entry.key@, entry.value@)[key] by {
        let j = place(after, key);
        let k = place(entries, key);
        assert(after[j].key@ == key && entries[k].key@ == key);
        assert(after[k].key@ == key);
        assert(j == k);
    }
    assert(holds(entries, entry.key@));
    assert(mapping(after) =~= mapping(entries).insert(entry.key@, entry.value@));
}

/// Appending an entry with a new key adds that key and leaves the others as
/// they were.
proof fn lemma_appended(entries: Seq<Entry>, entry: Entry)
    requires
        distinct(entries),
        !holds(entries, entry.key@),
    ensures
        distinct(entries.push(entry)),
        mapping(entries.push(entry)) == mapping(entries).insert(entry.key@, entry.value@),
{
    let after = entries.push(entry);
    assert(distinct(after)) by {
        assert forall|i: int, j: int| 0 <= i < j < after.len() implies #[trigger] after[i].key@
            != #[trigger] after[j].key@ by {
            if j == entries.len() {
                assert(entries[i].key@ == after[i].key@);
            } else {
                assert(entries[i].key@ == after[i].key@ && entries[j].key@ == after[j].key@);
            }
        }
    }
    assert(after[entries.len() as int].key@ == entry.key@);
    assert forall|key: Seq<u8>| holds(after, key) == (holds(entries, key) || key
        == entry.key@) by {
        if holds(entries, key) {
            let j = place(entries, key);
            assert(after[j].key@ == key);
        }
        if holds(after, key) && key != entry.key@ {
            let j = place(after, key);
            assert(entries[j].key@ == key);
        }
    }
    assert forall|key: Seq<u8>| holds(after, key) implies mapping(after)[key] == mapping(
        entries,
    ).insert(entry.key@, entry.value@)[key] by {
        let j = place(after, key);
        assert(after[j].key@ == key);
        if key != entry.key@ {
            let k = place(entries, key);
            assert(entries[j].key@ == key);
            assert(entries[k].key@ == key);
            assert(after[k].key@ == key);
            assert(j == k);
        } else {
            if j < entries.len() {
                assert(entries[j].key@ == key);
            }
        }
    }
    assert(mapping(after) =~= mapping(entries).insert(entry.key@, entry.value@));
}

/// Entries with distinct keys stand for a mapping of as many keys.
proof fn lemma_count(entries: Seq<Entry>)
    requires
        distinct(entries),
    ensures
        mapping(entries).dom().finite(),
        mapping(entries).len() == entries.len(),
    decreases entries.len(),
{
    if entries.len() == 0 {
        assert(mapping(entries) =~= Map::<Seq<u8>, Seq<u8>>::empty());
    } else {
        let front = entries.drop_last();
        let last = entries.last();
        assert(distinct(front)) by {
            assert forall|i: int, j: int| 0 <= i < j < front.len() implies #[trigger] front[i].key@
                != #[trigger] front[j].key@ by {
                assert(entries[i].key@ == front[i].key@ && entries[j].key@ == front[j].key@);
            }
        }
        assert(!holds(front, last.key@)) by {
            if holds(front, last.key@) {
                let j = place(front, last.key@);
                assert(entries[j].key@ == front[j].key@);
                assert(entries[entries.len() - 1].key@ == last.key@);
            }
        }
        lemma_count(front);
        lemma_appended(front, last);
        assert(front.push(last) =~= entries);
    }
}

/// A cache without entries.
pub fn new_cache() -> (cache: Cache)
    ensures
        cache@ == Map::<Seq<u8>, Seq<u8>>::empty(),
{
    let cache = Cache { entries: Vec::new() };
    assert(cache@ =~= Map::<Seq<u8>, Seq<u8>>::empty());
    cache
}

} // verus!
