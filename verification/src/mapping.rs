//! A mapping from textual keys to command templates, with unique,
//! case-sensitive keys.

use vstd::prelude::*;
use crate::text::{option_text, owned};

verus! {

/// One key with its command template.
pub struct Entry {
    pub key: String,
    pub value: String,
}

/// A finite mapping from keys to command templates. No key occurs twice.
pub struct Mapping {
    entries: Vec<Entry>,
}

/// Some entry of `entries` has the key `key`.
pub open spec fn has_key(entries: Seq<Entry>, key: Seq<char>) -> bool {
    exists|i: int| 0 <= i < entries.len() && #[trigger] entries[i].key@ == key
}

/// The position of an entry with the key `key`.
pub open spec fn position_of(entries: Seq<Entry>, key: Seq<char>) -> int {
    choose|i: int| 0 <= i < entries.len() && #[trigger] entries[i].key@ == key
}

/// No two entries share a key.
pub open spec fn distinct_keys(entries: Seq<Entry>) -> bool {
    forall|i: int, j: int|
        0 <= i < j < entries.len() ==> (#[trigger] entries[i]).key@ != (#[trigger] entries[j]).key@
}

/// The mapping that a sequence of entries stands for.
pub open spec fn mapping_of(entries: Seq<Entry>) -> Map<Seq<char>, Seq<char>> {
    Map::new(
        |k: Seq<char>| has_key(entries, k),
        |k: Seq<char>| entries[position_of(entries, k)].value@,
    )
}

impl View for Mapping {
    type V = Map<Seq<char>, Seq<char>>;

    closed spec fn view(&self) -> Map<Seq<char>, Seq<char>> {
        mapping_of(self.entries@)
    }
}

impl Mapping {
    /// The keys of the mapping are unique.
    pub closed spec fn wf(&self) -> bool {
        distinct_keys(self.entries@)
    }

    /// The empty mapping.
    pub fn new() -> (m: Mapping)
        ensures
            m.wf(),
            m@ == Map::<Seq<char>, Seq<char>>::empty(),
    {
        let m = Mapping { entries: Vec::new() };
        assert(m@ =~= Map::<Seq<char>, Seq<char>>::empty());
        m
    }

    fn find(&self, key: &String) -> (r: Option<usize>)
        requires
            self.wf(),
        ensures
            match r {
                Some(i) => i < self.entries@.len() && self.entries@[i as int].key@ == key@
                    && has_key(self.entries@, key@) && position_of(self.entries@, key@) == i,
                None => !has_key(self.entries@, key@),
            },
    {
        let mut i: usize = 0;
        while i < self.entries.len()
            invariant
                self.wf(),
                i <= self.entries.len(),
                forall|j: int| 0 <= j < i ==> self.entries@[j].key@ != key@,
            decreases self.entries.len() - i,
        {
            if self.entries[i].key == *key {
                proof {
                    lemma_position(self.entries@, i as int);
                }
                return Some(i);
            }
            i += 1;
        }
        None
    }

    /// The number of keys.
    pub fn len(&self) -> (n: usize)
        requires
            self.wf(),
        ensures
            n == self@.dom().len(),
            self@.dom().finite(),
    {
        proof {
            lemma_domain_size(self.entries@);
        }
        self.entries.len()
    }

    /// Whether the mapping holds `key`.
    pub fn contains_key(&self, key: &str) -> (r: bool)
        requires
            self.wf(),
        ensures
            r == self@.contains_key(key@),
    {
        let k = owned(key);
        self.find(&k).is_some()
    }

    /// The template under `key`, if the mapping holds that key. Keys are
    /// compared character by character.
    pub fn get(&self, key: &str) -> (r: Option<String>)
        requires
            self.wf(),
        ensures
            option_text(r) == (if self@.contains_key(key@) {
                Some(self@[key@])
            } else {
                None
            }),
    {
        let k = owned(key);
        match self.find(&k) {
            Some(i) => Some(self.entries[i].value.clone()),
            None => None,
        }
    }

    /// Puts `value` under `key`, in place of what stood there. Returns what
    /// stood there.
    pub fn insert(&mut self, key: String, value: String) -> (prev: Option<String>)
        requires
            old(self).wf(),
        ensures
            final(self).wf(),
            final(self)@ == old(self)@.insert(key@, value@),
            option_text(prev) == (if old(self)@.contains_key(key@) {
                Some(old(self)@[key@])
            } else {
                None
            }),
    {
        let ghost before = self.entries@;
        let ghost entry = Entry { key, value };
        match self.find(&key) {
            Some(i) => {
                let prev = self.entries[i].value.clone();
                self.entries.set(i, Entry { key, value });
                proof {
                    lemma_replaced(before, i as int, entry);
                }
                Some(prev)
            },
            None => {
                self.entries.push(Entry { key, value });
                proof {
                    lemma_pushed(before, entry);
                }
                None
            },
        }
    }
}

/// The mapping that comes of putting the entries in one after the other, so
/// that of two entries with one key the later one stays.
pub open spec fn collected(entries: Seq<Entry>) -> Map<Seq<char>, Seq<char>>
    decreases entries.len(),
{
    if entries.len() == 0 {
        Map::empty()
    } else {
        collected(entries.drop_last()).insert(entries.last().key@, entries.last().value@)
    }
}

impl Mapping {
    /// The mapping that holds the given entries; where a key comes twice, the
    /// later entry stays.
    pub fn from_entries(entries: Vec<Entry>) -> (m: Mapping)
        ensures
            m.wf(),
            m@ == collected(entries@),
    {
        let mut m = Mapping::new();
        let mut i: usize = 0;
        assert(entries@.take(0) =~= Seq::<Entry>::empty());
        while i < entries.len()
            invariant
                i <= entries.len(),
                m.wf(),
                m@ == collected(entries@.take(i as int)),
            decreases entries.len() - i,
        {
            let key = entries[i].key.clone();
            let value = entries[i].value.clone();
            m.insert(key, value);
            assert(entries@.take(i + 1).drop_last() =~= entries@.take(i as int));
            i += 1;
        }
        assert(entries@.take(entries.len() as int) =~= entries@);
        m
    }
}

/// With distinct keys, the entry at a position is the one found by its key.
pub proof fn lemma_position(entries: Seq<Entry>, i: int)
    requires
        distinct_keys(entries),
        0 <= i < entries.len(),
    ensures
        has_key(entries, entries[i].key@),
        position_of(entries, entries[i].key@) == i,
{
    assert(entries[i].key@ == entries[i].key@);
    let p = position_of(entries, entries[i].key@);
    if p < i {
        assert(entries[p].key@ != entries[i].key@);
    } else if i < p {
        assert(entries[i].key@ != entries[p].key@);
    }
}

proof fn lemma_replaced(entries: Seq<Entry>, i: int, entry: Entry)
    requires
        distinct_keys(entries),
        0 <= i < entries.len(),
        entries[i].key@ == entry.key@,
    ensures
        distinct_keys(entries.update(i, entry)),
        mapping_of(entries.update(i, entry)) == mapping_of(entries).insert(entry.key@, entry.value@),
{
    let after = entries.update(i, entry);
    assert forall|a: int, b: int| 0 <= a < b < after.len() implies (#[trigger] after[a]).key@ != (
    #[trigger] after[b]).key@ by {
        assert(entries[a].key@ != entries[b].key@);
    }
    let target = mapping_of(entries).insert(entry.key@, entry.value@);
    assert forall|k: Seq<char>| has_key(after, k) == has_key(entries, k) by {
        if has_key(after, k) {
            let p = position_of(after, k);
            assert(entries[p].key@ == k);
        }
        if has_key(entries, k) {
            let p = position_of(entries, k);
            assert(after[p].key@ == k);
        }
    }
    assert(entries[i].key@ == entry.key@);
    assert forall|k: Seq<char>| has_key(after, k) implies #[trigger] mapping_of(after)[k]
        == target[k] by {
        let p = position_of(after, k);
        lemma_position(after, p);
        if k == entry.key@ {
            lemma_position(after, i);
        } else {
            assert(entries[p].key@ == k);
            lemma_position(entries, p);
        }
    }
    assert(mapping_of(after) =~= target);
}

proof fn lemma_pushed(entries: Seq<Entry>, entry: Entry)
    requires
        distinct_keys(entries),
        !has_key(entries, entry.key@),
    ensures
        distinct_keys(entries.push(entry)),
        mapping_of(entries.push(entry)) == mapping_of(entries).insert(entry.key@, entry.value@),
{
    let after = entries.push(entry);
    let n = entries.len() as int;
    assert forall|a: int, b: int| 0 <= a < b < after.len() implies (#[trigger] after[a]).key@ != (
    #[trigger] after[b]).key@ by {
        if b < n {
            assert(entries[a].key@ != entries[b].key@);
        } else {
            if after[a].key@ == entry.key@ {
                assert(entries[a].key@ == entry.key@);
            }
        }
    }
    let target = mapping_of(entries).insert(entry.key@, entry.value@);
    assert(after[n].key@ == entry.key@);
    assert forall|k: Seq<char>| has_key(after, k) == (has_key(entries, k) || k == entry.key@) by {
        if has_key(after, k) {
            let p = position_of(after, k);
            if p < n {
                assert(entries[p].key@ == k);
            }
        }
        if has_key(entries, k) {
            let p = position_of(entries, k);
            assert(after[p].key@ == k);
        }
    }
    assert forall|k: Seq<char>| has_key(after, k) implies #[trigger] mapping_of(after)[k]
        == target[k] by {
        let p = position_of(after, k);
        lemma_position(after, p);
        if k == entry.key@ {
            lemma_position(after, n);
        } else {
            assert(entries[p].key@ == k);
            lemma_position(entries, p);
        }
    }
    assert(mapping_of(after) =~= target);
}

proof fn lemma_domain_size(entries: Seq<Entry>)
    requires
        distinct_keys(entries),
    ensures
        mapping_of(entries).dom().finite(),
        mapping_of(entries).dom().len() == entries.len(),
    decreases entries.len(),
{
    if entries.len() == 0 {
        assert(mapping_of(entries).dom() =~= Set::<Seq<char>>::empty());
    } else {
        let init = entries.drop_last();
        let last = entries.last();
        assert forall|a: int, b: int| 0 <= a < b < init.len() implies (#[trigger] init[a]).key@ != (
        #[trigger] init[b]).key@ by {
            assert(entries[a].key@ != entries[b].key@);
        }
        if has_key(init, last.key@) {
            let p = position_of(init, last.key@);
            assert(entries[p].key@ != entries[entries.len() - 1].key@);
        }
        lemma_domain_size(init);
        lemma_pushed(init, last);
        assert(init.push(last) =~= entries);
        assert(mapping_of(entries).dom() =~= mapping_of(init).dom().insert(last.key@));
        assert(!mapping_of(init).dom().contains(last.key@));
    }
}

} // verus!
