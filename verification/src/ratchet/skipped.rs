//! The store of skipped message keys: message keys derived ahead of time for messages
//! that have not arrived yet, looked up by (sender ratchet key, message number).

use vstd::prelude::*;

use crate::bytes::{bytes_equal, to_vec};

verus! {

broadcast use vstd::seq_lib::seq_to_set_is_finite;

/// One stored message key.
struct SkippedEntry {
    dh: Vec<u8>,
    number: u32,
    key: Vec<u8>,
}

/// The lookup key of an entry: (sender ratchet key, message number).
spec fn entry_id(e: SkippedEntry) -> (Seq<u8>, u32) {
    (e.dh@, e.number)
}

/// Whether no two entries share a lookup key.
spec fn ids_distinct(s: Seq<SkippedEntry>) -> bool {
    forall|i: int, j: int|
        0 <= i < s.len() && 0 <= j < s.len() && i != j ==> #[trigger] entry_id(s[i])
            != #[trigger] entry_id(s[j])
}

/// The map from lookup key to message key that a list of entries stands for.
spec fn entries_map(s: Seq<SkippedEntry>) -> Map<(Seq<u8>, u32), Seq<u8>> {
    Map::new(
        |k: (Seq<u8>, u32)| exists|i: int| 0 <= i < s.len() && #[trigger] entry_id(s[i]) == k,
        |k: (Seq<u8>, u32)| s[choose|i: int| 0 <= i < s.len() && #[trigger] entry_id(s[i]) == k].key@,
    )
}

proof fn lemma_value_at(s: Seq<SkippedEntry>, i: int)
    requires
        ids_distinct(s),
        0 <= i < s.len(),
    ensures
        entries_map(s).contains_key(entry_id(s[i])),
        entries_map(s)[entry_id(s[i])] == s[i].key@,
{
    let k = entry_id(s[i]);
    assert(exists|j: int| 0 <= j < s.len() && #[trigger] entry_id(s[j]) == k);
    let j = choose|j: int| 0 <= j < s.len() && #[trigger] entry_id(s[j]) == k;
    assert(j == i);
}

proof fn lemma_finite_len(s: Seq<SkippedEntry>)
    requires
        ids_distinct(s),
    ensures
        entries_map(s).dom().finite(),
        entries_map(s).len() == s.len(),
{
    let ids = s.map_values(|e: SkippedEntry| entry_id(e));
    assert(entries_map(s).dom() =~= ids.to_set()) by {
        assert forall|k: (Seq<u8>, u32)| entries_map(s).dom().contains(k) implies ids.to_set().contains(k) by {
            let i = choose|i: int| 0 <= i < s.len() && #[trigger] entry_id(s[i]) == k;
            assert(ids[i] == k);
        }
        assert forall|k: (Seq<u8>, u32)| ids.to_set().contains(k) implies entries_map(s).dom().contains(k) by {
            let i = choose|i: int| 0 <= i < ids.len() && ids[i] == k;
            assert(entry_id(s[i]) == k);
        }
    }
    assert(ids.no_duplicates()) by {
        assert forall|i: int, j: int| 0 <= i < ids.len() && 0 <= j < ids.len() && i != j implies ids[i] != ids[j] by {
            assert(entry_id(s[i]) != entry_id(s[j]));
        }
    }
    ids.unique_seq_to_set();
}

proof fn lemma_push(s: Seq<SkippedEntry>, e: SkippedEntry)
    requires
        ids_distinct(s),
        !entries_map(s).contains_key(entry_id(e)),
    ensures
        ids_distinct(s.push(e)),
        entries_map(s.push(e)) =~= entries_map(s).insert(entry_id(e), e.key@),
{
    let t = s.push(e);
    assert forall|i: int| 0 <= i < s.len() implies #[trigger] entry_id(s[i]) != entry_id(e) by {
        lemma_value_at(s, i);
    }
    assert(ids_distinct(t)) by {
        assert forall|i: int, j: int|
            0 <= i < t.len() && 0 <= j < t.len() && i != j implies #[trigger] entry_id(t[i])
                != #[trigger] entry_id(t[j]) by {
            if i < s.len() && j < s.len() {
                assert(t[i] == s[i] && t[j] == s[j]);
            } else if i < s.len() {
                assert(t[i] == s[i] && t[j] == e);
            } else {
                assert(t[j] == s[j] && t[i] == e);
            }
        }
    }
    let m = entries_map(s).insert(entry_id(e), e.key@);
    assert forall|k: (Seq<u8>, u32)| entries_map(t).contains_key(k) <==> m.contains_key(k) by {
        if entries_map(s).contains_key(k) {
            let i = choose|i: int| 0 <= i < s.len() && #[trigger] entry_id(s[i]) == k;
            assert(entry_id(t[i]) == k);
        }
        if k == entry_id(e) {
            assert(entry_id(t[s.len() as int]) == k);
        }
        if entries_map(t).contains_key(k) {
            let i = choose|i: int| 0 <= i < t.len() && #[trigger] entry_id(t[i]) == k;
            if i < s.len() {
                assert(entry_id(s[i]) == k);
            }
        }
    }
    assert forall|k: (Seq<u8>, u32)| entries_map(t).contains_key(k) implies entries_map(t)[k] == m[k] by {
        let i = choose|i: int| 0 <= i < t.len() && #[trigger] entry_id(t[i]) == k;
        lemma_value_at(t, i);
        if i < s.len() {
            assert(t[i] == s[i]);
            lemma_value_at(s, i);
        }
    }
}

proof fn lemma_update(s: Seq<SkippedEntry>, i: int, e: SkippedEntry)
    requires
        ids_distinct(s),
        0 <= i < s.len(),
        entry_id(e) == entry_id(s[i]),
    ensures
        ids_distinct(s.update(i, e)),
        entries_map(s.update(i, e)) =~= entries_map(s).insert(entry_id(e), e.key@),
{
    let t = s.update(i, e);
    assert(ids_distinct(t)) by {
        assert forall|a: int, b: int|
            0 <= a < t.len() && 0 <= b < t.len() && a != b implies #[trigger] entry_id(t[a])
                != #[trigger] entry_id(t[b]) by {
            assert(entry_id(t[a]) == entry_id(s[a]));
            assert(entry_id(t[b]) == entry_id(s[b]));
        }
    }
    let m = entries_map(s).insert(entry_id(e), e.key@);
    assert forall|k: (Seq<u8>, u32)| entries_map(t).contains_key(k) <==> m.contains_key(k) by {
        if entries_map(s).contains_key(k) {
            let j = choose|j: int| 0 <= j < s.len() && #[trigger] entry_id(s[j]) == k;
            assert(entry_id(t[j]) == k);
        }
        if k == entry_id(e) {
            assert(entry_id(t[i]) == k);
        }
        if entries_map(t).contains_key(k) {
            let j = choose|j: int| 0 <= j < t.len() && #[trigger] entry_id(t[j]) == k;
            assert(entry_id(s[j]) == k);
        }
    }
    assert forall|k: (Seq<u8>, u32)| entries_map(t).contains_key(k) implies entries_map(t)[k] == m[k] by {
        let j = choose|j: int| 0 <= j < t.len() && #[trigger] entry_id(t[j]) == k;
        lemma_value_at(t, j);
        if j != i {
            lemma_value_at(s, j);
        }
    }
}

proof fn lemma_remove(s: Seq<SkippedEntry>, i: int)
    requires
        ids_distinct(s),
        0 <= i < s.len(),
    ensures
        ids_distinct(s.remove(i)),
        entries_map(s.remove(i)) =~= entries_map(s).remove(entry_id(s[i])),
{
    let t = s.remove(i);
    assert forall|a: int| 0 <= a < t.len() implies #[trigger] t[a] == s[if a < i { a } else { a + 1 }] by {}
    assert(ids_distinct(t)) by {
        assert forall|a: int, b: int|
            0 <= a < t.len() && 0 <= b < t.len() && a != b implies #[trigger] entry_id(t[a])
                != #[trigger] entry_id(t[b]) by {
            let a2 = if a < i { a } else { a + 1 };
            let b2 = if b < i { b } else { b + 1 };
            assert(t[a] == s[a2] && t[b] == s[b2]);
            assert(entry_id(s[a2]) != entry_id(s[b2]));
        }
    }
    let m = entries_map(s).remove(entry_id(s[i]));
    assert forall|k: (Seq<u8>, u32)| entries_map(t).contains_key(k) <==> m.contains_key(k) by {
        if entries_map(t).contains_key(k) {
            let a = choose|a: int| 0 <= a < t.len() && #[trigger] entry_id(t[a]) == k;
            let a2 = if a < i { a } else { a + 1 };
            assert(t[a] == s[a2]);
            assert(entry_id(s[a2]) == k);
            assert(entry_id(s[a2]) != entry_id(s[i]));
        }
        if m.contains_key(k) {
            let j = choose|j: int| 0 <= j < s.len() && #[trigger] entry_id(s[j]) == k;
            assert(j != i);
            let j2 = if j < i { j } else { j - 1 };
            assert(t[j2] == s[j]);
            assert(entry_id(t[j2]) == k);
        }
    }
    assert forall|k: (Seq<u8>, u32)| entries_map(t).contains_key(k) implies entries_map(t)[k] == m[k] by {
        let a = choose|a: int| 0 <= a < t.len() && #[trigger] entry_id(t[a]) == k;
        let a2 = if a < i { a } else { a + 1 };
        assert(t[a] == s[a2]);
        lemma_value_at(t, a);
        lemma_value_at(s, a2);
    }
}

/// Skipped message keys, keyed by (sender ratchet key, message number). No key occurs
/// twice, and every stored message key is 32 bytes long.
pub struct SkippedKeys {
    entries: Vec<SkippedEntry>,
}

impl View for SkippedKeys {
    type V = Map<(Seq<u8>, u32), Seq<u8>>;

    closed spec fn view(&self) -> Map<(Seq<u8>, u32), Seq<u8>> {
        entries_map(self.entries@)
    }
}

impl SkippedKeys {
    #[verifier::type_invariant]
    spec fn well_formed(self) -> bool {
        &&& ids_distinct(self.entries@)
        &&& forall|i: int| 0 <= i < self.entries@.len() ==> (#[trigger] self.entries@[i]).key@.len() == 32
    }

    /// An empty store.
    pub fn new() -> (r: Self)
        ensures
            r@ == Map::<(Seq<u8>, u32), Seq<u8>>::empty(),
    {
        let r = SkippedKeys { entries: Vec::new() };
        assert(r@ =~= Map::<(Seq<u8>, u32), Seq<u8>>::empty());
        r
    }

    /// A copy of the store.
    pub fn duplicate(&self) -> (r: Self)
        ensures
            r@ == self@,
    {
        proof {
            use_type_invariant(self);
        }
        let mut entries: Vec<SkippedEntry> = Vec::new();
        let mut i: usize = 0;
        while i < self.entries.len()
            invariant
                i <= self.entries@.len(),
                entries@.len() == i,
                forall|j: int| 0 <= j < i ==> entry_id(#[trigger] entries@[j]) == entry_id(self.entries@[j])
                    && entries@[j].key@ == self.entries@[j].key@,
            decreases self.entries@.len() - i,
        {
            let e = &self.entries[i];
            entries.push(SkippedEntry { dh: to_vec(e.dh.as_slice()), number: e.number, key: to_vec(e.key.as_slice()) });
            i = i + 1;
        }
        proof {
            let s = self.entries@;
            let t = entries@;
            assert forall|a: int, b: int|
                0 <= a < t.len() && 0 <= b < t.len() && a != b implies #[trigger] entry_id(t[a]) != #[trigger] entry_id(
                    t[b],
                ) by {
                assert(entry_id(s[a]) != entry_id(s[b]));
            }
            assert forall|j: int| 0 <= j < t.len() implies (#[trigger] t[j]).key@.len() == 32 by {
                assert(s[j].key@.len() == 32);
            }
            assert forall|k: (Seq<u8>, u32)| entries_map(t).contains_key(k) <==> entries_map(s).contains_key(k) by {
                if entries_map(s).contains_key(k) {
                    let j = choose|j: int| 0 <= j < s.len() && #[trigger] entry_id(s[j]) == k;
                    assert(entry_id(t[j]) == k);
                }
                if entries_map(t).contains_key(k) {
                    let j = choose|j: int| 0 <= j < t.len() && #[trigger] entry_id(t[j]) == k;
                    assert(entry_id(s[j]) == k);
                }
            }
            assert forall|k: (Seq<u8>, u32)| entries_map(t).contains_key(k) implies entries_map(t)[k] == entries_map(s)[k] by {
                let j = choose|j: int| 0 <= j < t.len() && #[trigger] entry_id(t[j]) == k;
                lemma_value_at(t, j);
                lemma_value_at(s, j);
            }
            assert(entries_map(t) =~= entries_map(s));
        }
        SkippedKeys { entries }
    }

    /// The number of stored keys.
    pub fn len(&self) -> (r: usize)
        ensures
            r == self@.len(),
    {
        proof {
            use_type_invariant(self);
            lemma_finite_len(self.entries@);
        }
        self.entries.len()
    }

    fn find(&self, dh: &[u8], number: u32) -> (r: Option<usize>)
        ensures
            r matches Some(i) ==> i < self.entries@.len() && entry_id(self.entries@[i as int]) == (dh@, number),
            r is None ==> !self@.contains_key((dh@, number)),
    {
        let mut i: usize = 0;
        while i < self.entries.len()
            invariant
                i <= self.entries@.len(),
                forall|j: int| 0 <= j < i ==> #[trigger] entry_id(self.entries@[j]) != (dh@, number),
            decreases self.entries@.len() - i,
        {
            if self.entries[i].number == number && bytes_equal(self.entries[i].dh.as_slice(), dh) {
                return Some(i);
            }
            i = i + 1;
        }
        None
    }

    /// Whether a key is stored under (`dh`, `number`).
    pub fn contains(&self, dh: &[u8], number: u32) -> (r: bool)
        ensures
            r == self@.contains_key((dh@, number)),
    {
        proof {
            use_type_invariant(self);
        }
        match self.find(dh, number) {
            Some(i) => {
                proof {
                    lemma_value_at(self.entries@, i as int);
                }
                true
            },
            None => false,
        }
    }

    /// Store `key` under (`dh`, `number`), replacing any key stored there.
    pub fn insert(&mut self, dh: Vec<u8>, number: u32, key: Vec<u8>)
        requires
            key@.len() == 32,
        ensures
            final(self)@ == old(self)@.insert((dh@, number), key@),
    {
        proof {
            use_type_invariant(&*self);
        }
        let e = SkippedEntry { dh, number, key };
        let ghost s = self.entries@;
        let found = self.find(e.dh.as_slice(), number);
        let mut entries: Vec<SkippedEntry> = Vec::new();
        core::mem::swap(&mut entries, &mut self.entries);
        match found {
            Some(i) => {
                proof {
                    lemma_update(s, i as int, e);
                }
                entries.set(i, e);
            },
            None => {
                proof {
                    lemma_push(s, e);
                }
                entries.push(e);
            },
        }
        self.entries = entries;
    }

    /// Take out the key stored under (`dh`, `number`), if any.
    pub fn remove(&mut self, dh: &[u8], number: u32) -> (r: Option<Vec<u8>>)
        ensures
            old(self)@.contains_key((dh@, number)) ==> (r matches Some(k) && k@ == old(self)@[(
                dh@,
                number,
            )] && final(self)@ == old(self)@.remove((dh@, number))),
            !old(self)@.contains_key((dh@, number)) ==> (r is None && final(self)@ == old(self)@),
            r matches Some(k) ==> k@.len() == 32,
    {
        proof {
            use_type_invariant(&*self);
        }
        let ghost s = self.entries@;
        match self.find(dh, number) {
            Some(i) => {
                proof {
                    lemma_value_at(s, i as int);
                    lemma_remove(s, i as int);
                }
                let mut entries: Vec<SkippedEntry> = Vec::new();
                core::mem::swap(&mut entries, &mut self.entries);
                let e = entries.remove(i);
                self.entries = entries;
                Some(e.key)
            },
            None => None,
        }
    }
}

} // verus!
