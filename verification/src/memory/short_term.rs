//! Short-term memory: text values filed under text keys, kept for the
//! length of a run.
use vstd::prelude::*;
use vstd::string::*;

use crate::text::{contains_str, contains_text};

verus! {

/// Entries of a memory: pairs of key and value, in the order the keys were
/// first stored.
pub type Entries = Seq<(Seq<char>, Seq<char>)>;

/// The position of the entry for `key`, or -1 when there is none.
pub open spec fn key_position(entries: Entries, key: Seq<char>) -> int
    decreases entries.len(),
{
    if entries.len() == 0 {
        -1
    } else {
        let p = key_position(entries.drop_last(), key);
        if p >= 0 {
            p
        } else if entries.last().0 == key {
            entries.len() - 1
        } else {
            -1
        }
    }
}

/// The value filed under `key`, if any.
pub open spec fn lookup(entries: Entries, key: Seq<char>) -> Option<Seq<char>> {
    let p = key_position(entries, key);
    if p >= 0 {
        Some(entries[p].1)
    } else {
        None
    }
}

/// The entries after `value` is stored under `key`: the entry for `key` is
/// replaced in place, or a new entry is appended.
pub open spec fn stored(entries: Entries, key: Seq<char>, value: Seq<char>) -> Entries {
    let p = key_position(entries, key);
    if p >= 0 {
        entries.update(p, (key, value))
    } else {
        entries.push((key, value))
    }
}

/// The values that contain `query`, in entry order.
pub open spec fn matching_values(entries: Entries, query: Seq<char>) -> Seq<Seq<char>>
    decreases entries.len(),
{
    if entries.len() == 0 {
        Seq::empty()
    } else {
        let before = matching_values(entries.drop_last(), query);
        if contains_text(entries.last().1, query) {
            before.push(entries.last().1)
        } else {
            before
        }
    }
}

/// Search looks at every entry on its own: the values matching `query` in
/// entries `a` followed by entries `b` are those in `a`, then those in `b`.
pub proof fn lemma_matching_values_concat(a: Entries, b: Entries, query: Seq<char>)
    ensures
        matching_values(a + b, query) == matching_values(a, query) + matching_values(b, query),
    decreases b.len(),
{
    if b.len() == 0 {
        assert(a + b =~= a);
        assert(matching_values(a, query) + matching_values(b, query) =~= matching_values(a, query));
    } else {
        lemma_matching_values_concat(a, b.drop_last(), query);
        assert((a + b).drop_last() =~= a + b.drop_last());
        assert((a + b).last() == b.last());
        if contains_text(b.last().1, query) {
            assert(matching_values(a, query) + matching_values(b.drop_last(), query).push(b.last().1)
                =~= (matching_values(a, query) + matching_values(b.drop_last(), query)).push(
                b.last().1,
            ));
        }
    }
}

/// One entry yields its value exactly when the value contains `query`.
pub proof fn lemma_matching_values_single(key: Seq<char>, value: Seq<char>, query: Seq<char>)
    ensures
        matching_values(seq![(key, value)], query) == if contains_text(value, query) {
            seq![value]
        } else {
            Seq::<Seq<char>>::empty()
        },
{
    let e: Entries = seq![(key, value)];
    assert(e.drop_last() =~= Seq::<(Seq<char>, Seq<char>)>::empty());
    assert(e.last() == (key, value));
    assert(matching_values(e.drop_last(), query) == Seq::<Seq<char>>::empty());
    if contains_text(value, query) {
        assert(Seq::<Seq<char>>::empty().push(value) =~= seq![value]);
    }
}

/// Whether an entry's value contains `query`.
pub open spec fn value_contains(query: Seq<char>) -> spec_fn((Seq<char>, Seq<char>)) -> bool {
    |e: (Seq<char>, Seq<char>)| contains_text(e.1, query)
}

/// An entry's value.
pub open spec fn value_of(e: (Seq<char>, Seq<char>)) -> Seq<char> {
    e.1
}

/// The values matching `query` are the values of all the entries whose value
/// contains it, every one of them, in entry order, repeats included.
pub proof fn lemma_matching_values_are_all_matches(entries: Entries, query: Seq<char>)
    ensures
        matching_values(entries, query) == entries.filter(value_contains(query)).map_values(
            |e: (Seq<char>, Seq<char>)| value_of(e),
        ),
    decreases entries.len(),
{
    let val = |e: (Seq<char>, Seq<char>)| value_of(e);
    reveal(Seq::filter);
    if entries.len() == 0 {
        assert(entries.filter(value_contains(query)).map_values(val) =~= Seq::<Seq<char>>::empty());
    } else {
        lemma_matching_values_are_all_matches(entries.drop_last(), query);
        let sub = entries.drop_last().filter(value_contains(query));
        if contains_text(entries.last().1, query) {
            assert(value_contains(query)(entries.last()));
            assert(entries.filter(value_contains(query)) == sub.push(entries.last()));
            assert(sub.push(entries.last()).map_values(val) =~= sub.map_values(val).push(
                entries.last().1,
            ));
        } else {
            assert(!value_contains(query)(entries.last()));
            assert(entries.filter(value_contains(query)) == sub);
        }
    }
}

/// Storing a value under a key not yet filed adds that value to what a
/// search for `query` finds, after the earlier matches, whenever it
/// contains `query`, even when an equal value is already filed under
/// another key.
pub proof fn lemma_store_new_key_adds_match(
    entries: Entries,
    key: Seq<char>,
    value: Seq<char>,
    query: Seq<char>,
)
    requires
        forall|i: int| 0 <= i < entries.len() ==> #[trigger] entries[i].0 != key,
    ensures
        matching_values(stored(entries, key, value), query) == if contains_text(value, query) {
            matching_values(entries, query).push(value)
        } else {
            matching_values(entries, query)
        },
{
    lemma_key_position(entries, key);
    if key_position(entries, key) >= 0 {
        let p = key_position(entries, key);
        assert(entries[p].0 == key);
    }
    assert(entries.push((key, value)).drop_last() =~= entries);
}

/// No key is filed twice.
pub open spec fn keys_unique(entries: Entries) -> bool {
    forall|i: int, j: int|
        0 <= i < entries.len() && 0 <= j < entries.len() && i != j ==> #[trigger] entries[i].0
            != #[trigger] entries[j].0
}

/// What `key_position` means: the first entry with that key, or none.
pub proof fn lemma_key_position(entries: Entries, key: Seq<char>)
    ensures
        key_position(entries, key) >= 0 ==> {
            let p = key_position(entries, key);
            &&& p < entries.len()
            &&& entries[p].0 == key
            &&& forall|j: int| 0 <= j < p ==> #[trigger] entries[j].0 != key
        },
        key_position(entries, key) < 0 ==> key_position(entries, key) == -1 && forall|j: int|
            0 <= j < entries.len() ==> #[trigger] entries[j].0 != key,
    decreases entries.len(),
{
    if entries.len() > 0 {
        lemma_key_position(entries.drop_last(), key);
        assert forall|j: int| 0 <= j < entries.len() - 1 implies #[trigger] entries[j]
            == entries.drop_last()[j] by {}
    }
}

/// Positions depend on the keys alone.
proof fn lemma_position_same_keys(a: Entries, b: Entries, key: Seq<char>)
    requires
        a.len() == b.len(),
        forall|i: int| 0 <= i < a.len() ==> #[trigger] a[i].0 == b[i].0,
    ensures
        key_position(a, key) == key_position(b, key),
    decreases a.len(),
{
    if a.len() > 0 {
        assert forall|i: int| 0 <= i < a.len() - 1 implies #[trigger] a.drop_last()[i].0
            == b.drop_last()[i].0 by {
            assert(a.drop_last()[i] == a[i]);
            assert(b.drop_last()[i] == b[i]);
        }
        lemma_position_same_keys(a.drop_last(), b.drop_last(), key);
    }
}

/// A value stored under a key is what a later lookup of that key gives.
pub proof fn lemma_lookup_after_store(entries: Entries, key: Seq<char>, value: Seq<char>)
    ensures
        lookup(stored(entries, key, value), key) == Some(value),
{
    lemma_key_position(entries, key);
    let p = key_position(entries, key);
    let after = stored(entries, key, value);
    if p >= 0 {
        lemma_position_same_keys(entries, after, key);
    } else {
        assert(after.drop_last() =~= entries);
    }
}

/// Storing under one key leaves what every other key gives unchanged.
pub proof fn lemma_store_keeps_other_keys(
    entries: Entries,
    key: Seq<char>,
    value: Seq<char>,
    other: Seq<char>,
)
    requires
        other != key,
    ensures
        lookup(stored(entries, key, value), other) == lookup(entries, other),
{
    lemma_key_position(entries, key);
    lemma_key_position(entries, other);
    let p = key_position(entries, key);
    let after = stored(entries, key, value);
    if p >= 0 {
        lemma_position_same_keys(entries, after, other);
        let q = key_position(entries, other);
        if q >= 0 {
            assert(q != p);
        }
    } else {
        assert(after.drop_last() =~= entries);
    }
}

/// Every value a search finds contains the query and is stored under some
/// key.
pub proof fn lemma_matching_values_sound(entries: Entries, query: Seq<char>, k: int)
    requires
        0 <= k < matching_values(entries, query).len(),
    ensures
        contains_text(matching_values(entries, query)[k], query),
        exists|i: int| 0 <= i < entries.len() && entries[i].1 == matching_values(entries, query)[k],
    decreases entries.len(),
{
    let before = matching_values(entries.drop_last(), query);
    if k < before.len() {
        lemma_matching_values_sound(entries.drop_last(), query, k);
        let i = choose|i: int|
            0 <= i < entries.drop_last().len() && entries.drop_last()[i].1 == before[k];
        assert(entries[i] == entries.drop_last()[i]);
    } else {
        assert(entries[entries.len() - 1] == entries.last());
    }
}

/// Values filed under text keys for the length of a run. A later store
/// under a key replaces the earlier value; searches go through the values
/// in the order their keys were first stored.
///
/// The entries are kept as a vector of key-value pairs with the type
/// invariant that no key occurs twice, rather than in a
/// `HashMap<String, String>`: vstd's specification of `HashMap` speaks only
/// for keys whose hashing model is assumed (integers and the like), not for
/// `String`, and its `StringHashMap` offers no way to go through the values,
/// which `search` needs. A hash map walks its values in no fixed order; the
/// order of first storage is one such order.
#[derive(Debug)]
pub struct ShortTermMemory {
    storage: Vec<(String, String)>,
}

impl View for ShortTermMemory {
    type V = Entries;

    closed spec fn view(&self) -> Entries {
        self.storage@.map_values(|e: (String, String)| (e.0@, e.1@))
    }
}

impl ShortTermMemory {
    #[verifier::type_invariant]
    spec fn inv(&self) -> bool {
        keys_unique(self@)
    }

    /// An empty memory.
    pub fn new() -> (memory: Self)
        ensures
            memory@ == Seq::<(Seq<char>, Seq<char>)>::empty(),
    {
        let memory = ShortTermMemory { storage: Vec::new() };
        assert(memory@ =~= Seq::<(Seq<char>, Seq<char>)>::empty());
        memory
    }

    /// The position of the entry for `key`, if any.
    fn find(&self, key: &str) -> (p: Option<usize>)
        ensures
            match p {
                Some(i) => i == key_position(self@, key@),
                None => key_position(self@, key@) == -1,
            },
    {
        proof {
            lemma_key_position(self@, key@);
        }
        let wanted = key.to_string();
        let mut i: usize = 0;
        while i < self.storage.len()
            invariant
                i <= self.storage@.len(),
                self@.len() == self.storage@.len(),
                wanted@ == key@,
                forall|j: int| 0 <= j < i ==> #[trigger] self@[j].0 != key@,
            decreases self.storage.len() - i,
        {
            assert(self@[i as int].0 == self.storage@[i as int].0@);
            if self.storage[i].0 == wanted {
                proof {
                    lemma_key_position(self@, key@);
                }
                return Some(i);
            }
            i = i + 1;
        }
        None
    }

    /// Files `value` under `key`, replacing what was there.
    pub fn store(&mut self, key: &str, value: &str)
        ensures
            final(self)@ == stored(old(self)@, key@, value@),
    {
        proof {
            use_type_invariant(&*self);
            lemma_key_position(self@, key@);
        }
        let entry = (key.to_string(), value.to_string());
        let found = self.find(key);
        let ghost before = self@;
        let mut storage: Vec<(String, String)> = Vec::new();
        std::mem::swap(&mut storage, &mut self.storage);
        assert(storage@.map_values(|e: (String, String)| (e.0@, e.1@)) == before);
        match found {
            Some(i) => {
                storage.set(i, entry);
                proof {
                    let after = storage@.map_values(|e: (String, String)| (e.0@, e.1@));
                    assert(after =~= before.update(i as int, (key@, value@)));
                    assert forall|a: int, b: int|
                        0 <= a < after.len() && 0 <= b < after.len() && a != b implies #[trigger] after[a].0
                        != #[trigger] after[b].0 by {
                        assert(after[a].0 == before[a].0);
                        assert(after[b].0 == before[b].0);
                    }
                }
            },
            None => {
                storage.push(entry);
                proof {
                    let after = storage@.map_values(|e: (String, String)| (e.0@, e.1@));
                    assert(after =~= before.push((key@, value@)));
                    assert forall|a: int, b: int|
                        0 <= a < after.len() && 0 <= b < after.len() && a != b implies #[trigger] after[a].0
                        != #[trigger] after[b].0 by {
                        if a < before.len() {
                            assert(after[a] == before[a]);
                        }
                        if b < before.len() {
                            assert(after[b] == before[b]);
                        }
                    }
                }
            },
        }
        self.storage = storage;
    }

    /// The value filed under `key`, if any.
    pub fn retrieve(&self, key: &str) -> (value: Option<String>)
        ensures
            match value {
                Some(v) => lookup(self@, key@) == Some(v@),
                None => lookup(self@, key@) is None,
            },
    {
        proof {
            lemma_key_position(self@, key@);
        }
        match self.find(key) {
            Some(i) => {
                assert(self@.len() == self.storage@.len());
                assert(self@[i as int].1 == self.storage@[i as int].1@);
                Some(self.storage[i].1.clone())
            },
            None => None,
        }
    }

    /// At most `limit` of the values that contain `query`, the first ones in
    /// entry order.
    pub fn search(&self, query: &str, limit: usize) -> (found: Vec<String>)
        ensures
            found@.map_values(|v: String| v@) == matching_values(self@, query@).take(
                if limit < matching_values(self@, query@).len() {
                    limit as int
                } else {
                    matching_values(self@, query@).len() as int
                },
            ),
    {
        let mut found: Vec<String> = Vec::new();
        let mut i: usize = 0;
        while i < self.storage.len()
            invariant
                i <= self.storage@.len(),
                self@.len() == self.storage@.len(),
                found@.len() <= limit,
                found@.map_values(|v: String| v@) == matching_values(self@.take(i as int), query@).take(
                    if limit < matching_values(self@.take(i as int), query@).len() {
                        limit as int
                    } else {
                        matching_values(self@.take(i as int), query@).len() as int
                    },
                ),
            decreases self.storage.len() - i,
        {
            let ghost prefix = self@.take(i as int);
            let ghost before = matching_values(prefix, query@);
            assert(self@.take(i + 1).drop_last() =~= prefix);
            assert(self@.take(i + 1).last() == self@[i as int]);
            assert(self@[i as int].1 == self.storage@[i as int].1@);
            let ghost old_found = found@.map_values(|v: String| v@);
            if contains_str(self.storage[i].1.as_str(), query) {
                if found.len() < limit {
                    let v = self.storage[i].1.clone();
                    found.push(v);
                    assert(found@.map_values(|v: String| v@) =~= old_found.push(self@[i as int].1));
                    assert(before.push(self@[i as int].1).take(before.len() + 1int) =~= before.push(
                        self@[i as int].1,
                    ));
                    assert(before.take(before.len() as int) =~= before);
                } else {
                    assert(old_found.len() == found@.len());
                    assert(limit <= before.len());
                    assert(before.push(self@[i as int].1).take(limit as int) =~= before.take(
                        limit as int,
                    ));
                }
            }
            i = i + 1;
        }
        assert(self@.take(self.storage.len() as int) =~= self@);
        found
    }
}

} // verus!
