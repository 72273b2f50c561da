//! An ordered map from names to values, kept sorted by the byte order of the
//! names so that walking it yields entries in the same order as a
//! `BTreeMap<String, _>` would.
use vstd::prelude::*;
use crate::text::{
    bytes_less, lemma_bytes_less_irreflexive, lemma_bytes_less_total, lemma_bytes_less_transitive,
    str_eq, str_less,
};
use vstd::utf8::encode_utf8;

verus! {

/// The value stored under `key`: the first entry whose name equals `key`.
pub open spec fn lookup<V>(entries: Seq<(String, V)>, key: Seq<char>) -> Option<V>
    decreases entries.len(),
{
    if entries.len() == 0 {
        None
    } else if entries[0].0@ == key {
        Some(entries[0].1)
    } else {
        lookup(entries.drop_first(), key)
    }
}

/// `lookup` finds the first entry carrying the key.
pub proof fn lemma_lookup_first<V>(entries: Seq<(String, V)>, key: Seq<char>, i: int)
    requires
        0 <= i < entries.len(),
        entries[i].0@ == key,
        forall|j: int| 0 <= j < i ==> entries[j].0@ != key,
    ensures
        lookup(entries, key) == Some(entries[i].1),
    decreases i,
{
    if i > 0 {
        lemma_lookup_first(entries.drop_first(), key, i - 1);
    }
}

/// `lookup` finds nothing when no entry carries the key.
pub proof fn lemma_lookup_absent<V>(entries: Seq<(String, V)>, key: Seq<char>)
    requires
        forall|j: int| 0 <= j < entries.len() ==> entries[j].0@ != key,
    ensures
        lookup(entries, key) is None,
    decreases entries.len(),
{
    if entries.len() > 0 {
        lemma_lookup_absent(entries.drop_first(), key);
    }
}

/// Inserting an entry under a key that is absent leaves every other key's
/// value alone and makes the key map to the new value.
pub proof fn lemma_lookup_insert_absent<V>(
    entries: Seq<(String, V)>,
    i: int,
    entry: (String, V),
    key: Seq<char>,
)
    requires
        0 <= i <= entries.len(),
        lookup(entries, entry.0@) is None,
    ensures
        lookup(entries.insert(i, entry), key) == if key == entry.0@ {
            Some(entry.1)
        } else {
            lookup(entries, key)
        },
    decreases i,
{
    if i == 0 {
        assert(entries.insert(0, entry).drop_first() =~= entries);
    } else {
        assert(entries.len() > 0);
        assert(entries.insert(i, entry).drop_first() =~= entries.drop_first().insert(i - 1, entry));
        if entries[0].0@ != entry.0@ {
            lemma_lookup_insert_absent(entries.drop_first(), i - 1, entry, key);
        }
    }
}

/// Replacing the value of the first entry carrying a key.
pub proof fn lemma_lookup_replace<V>(
    entries: Seq<(String, V)>,
    i: int,
    entry: (String, V),
    key: Seq<char>,
)
    requires
        0 <= i < entries.len(),
        entries[i].0@ == entry.0@,
        forall|j: int| 0 <= j < i ==> entries[j].0@ != entry.0@,
    ensures
        lookup(entries.update(i, entry), key) == if key == entry.0@ {
            Some(entry.1)
        } else {
            lookup(entries, key)
        },
    decreases i,
{
    if i > 0 {
        assert(entries.update(i, entry).drop_first() =~= entries.drop_first().update(i - 1, entry));
        lemma_lookup_replace(entries.drop_first(), i - 1, entry, key);
    } else {
        assert(entries.update(0, entry).drop_first() =~= entries.drop_first());
    }
}

/// The UTF-8 bytes of an entry's name, by which entries are ordered.
pub open spec fn name_bytes<V>(entry: (String, V)) -> Seq<u8> {
    encode_utf8(entry.0@)
}

/// The names of `entries` strictly increase in byte order (the order of a
/// `BTreeMap<String, _>`).
pub open spec fn names_increase<V>(entries: Seq<(String, V)>) -> bool {
    forall|i: int, j: int|
        0 <= i < j < entries.len() ==> bytes_less(
            #[trigger] name_bytes(entries[i]),
            #[trigger] name_bytes(entries[j]),
        )
}

/// Entries whose names increase carry each name at most once.
pub proof fn lemma_increasing_names_unique<V>(entries: Seq<(String, V)>, i: int, j: int)
    requires
        names_increase(entries),
        0 <= i < entries.len(),
        0 <= j < entries.len(),
        i != j,
    ensures
        entries[i].0@ != entries[j].0@,
{
    if entries[i].0@ == entries[j].0@ {
        lemma_bytes_less_irreflexive(name_bytes(entries[i]));
        if i < j {
            assert(bytes_less(name_bytes(entries[i]), name_bytes(entries[j])));
        } else {
            assert(bytes_less(name_bytes(entries[j]), name_bytes(entries[i])));
        }
    }
}

/// In entries whose names increase, `lookup` finds the entry carrying a name.
pub proof fn lemma_lookup_increasing<V>(entries: Seq<(String, V)>, i: int)
    requires
        names_increase(entries),
        0 <= i < entries.len(),
    ensures
        lookup(entries, entries[i].0@) == Some(entries[i].1),
{
    assert forall|j: int| 0 <= j < i implies entries[j].0@ != entries[i].0@ by {
        lemma_increasing_names_unique(entries, j, i);
    }
    lemma_lookup_first(entries, entries[i].0@, i);
}

/// The position of the first entry named `key`.
fn position_in<V>(entries: &Vec<(String, V)>, key: &str) -> (r: Option<usize>)
    ensures
        r matches Some(i) ==> i < entries@.len() && entries@[i as int].0@ == key@ && forall|j: int|
            0 <= j < i ==> entries@[j].0@ != key@,
        r is None ==> forall|j: int| 0 <= j < entries@.len() ==> entries@[j].0@ != key@,
{
    let mut i: usize = 0;
    while i < entries.len()
        invariant
            i <= entries@.len(),
            forall|j: int| 0 <= j < i ==> entries@[j].0@ != key@,
        decreases entries@.len() - i,
    {
        if str_eq(entries[i].0.as_str(), key) {
            return Some(i);
        }
        i += 1;
    }
    None
}

/// A map from names to values whose entries are kept in byte order of the names.
#[derive(Debug)]
pub struct NameMap<V> {
    entries: Vec<(String, V)>,
}

impl<V: Clone> Clone for NameMap<V> {
    /// A copy with the same names in the same order.
    fn clone(&self) -> (r: Self)
        ensures
            r.entries().len() == self.entries().len(),
            forall|i: int| 0 <= i < r.entries().len() ==> #[trigger] r.entries()[i].0@ == self.entries()[i].0@,
    {
        proof {
            use_type_invariant(self);
        }
        let mut entries: Vec<(String, V)> = Vec::new();
        let mut i: usize = 0;
        while i < self.entries.len()
            invariant
                i <= self.entries@.len(),
                entries@.len() == i,
                names_increase(self.entries@),
                forall|j: int| 0 <= j < i ==> #[trigger] entries@[j].0@ == self.entries@[j].0@,
            decreases self.entries@.len() - i,
        {
            let name = self.entries[i].0.clone();
            let value = self.entries[i].1.clone();
            entries.push((name, value));
            i += 1;
        }
        assert forall|a: int, b: int| 0 <= a < b < entries@.len() implies bytes_less(
            #[trigger] name_bytes(entries@[a]),
            #[trigger] name_bytes(entries@[b]),
        ) by {
            assert(name_bytes(entries@[a]) == name_bytes(self.entries@[a]));
            assert(name_bytes(entries@[b]) == name_bytes(self.entries@[b]));
        }
        NameMap { entries }
    }
}

impl<V> NameMap<V> {
    /// The entries in iteration order.
    pub closed spec fn entries(&self) -> Seq<(String, V)> {
        self.entries@
    }

    /// The names increase along the entries.
    #[verifier::type_invariant]
    closed spec fn well_formed(&self) -> bool {
        names_increase(self.entries@)
    }

    /// The value stored under `key`, if any.
    pub open spec fn spec_get(&self, key: Seq<char>) -> Option<V> {
        lookup(self.entries(), key)
    }

    /// An empty map.
    pub fn new() -> (m: Self)
        ensures
            m.entries().len() == 0,
            forall|k: Seq<char>| m.spec_get(k) is None,
    {
        NameMap { entries: Vec::new() }
    }

    /// The number of entries.
    pub fn len(&self) -> (n: usize)
        ensures
            n == self.entries().len(),
            names_increase(self.entries()),
    {
        proof {
            use_type_invariant(self);
        }
        self.entries.len()
    }

    /// Whether the map has no entries.
    pub fn is_empty(&self) -> (b: bool)
        ensures
            b == (self.entries().len() == 0),
    {
        self.entries.len() == 0
    }

    /// The `i`-th entry in iteration (name) order, which is the one stored
    /// under its name.
    pub fn entry_at(&self, i: usize) -> (r: (&String, &V))
        requires
            i < self.entries().len(),
        ensures
            *r.0 == self.entries()[i as int].0,
            *r.1 == self.entries()[i as int].1,
            self.spec_get(r.0@) == Some(*r.1),
            names_increase(self.entries()),
    {
        proof {
            use_type_invariant(self);
            lemma_lookup_increasing(self.entries@, i as int);
        }
        let entry = &self.entries[i];
        (&entry.0, &entry.1)
    }

    /// The value stored under `key`.
    pub fn get(&self, key: &str) -> (r: Option<&V>)
        ensures
            r matches Some(v) ==> self.spec_get(key@) == Some(*v),
            r is None ==> self.spec_get(key@) is None,
    {
        match position_in(&self.entries, key) {
            Some(i) => {
                proof {
                    lemma_lookup_first(self.entries@, key@, i as int);
                }
                Some(&self.entries[i].1)
            },
            None => {
                proof {
                    lemma_lookup_absent(self.entries@, key@);
                }
                None
            },
        }
    }

    /// Whether some entry is named `key`.
    pub fn contains_key(&self, key: &str) -> (b: bool)
        ensures
            b == self.spec_get(key@) is Some,
    {
        self.get(key).is_some()
    }

    /// Stores `value` under `key`, replacing a value already stored there;
    /// the names still increase along the entries afterwards.
    pub fn insert(&mut self, key: String, value: V)
        ensures
            forall|k: Seq<char>|
                #[trigger] final(self).spec_get(k) == if k == key@ {
                    Some(value)
                } else {
                    old(self).spec_get(k)
                },
            names_increase(final(self).entries()),
    {
        let mut taken: NameMap<V> = NameMap::new();
        core::mem::swap(&mut taken, self);
        proof {
            use_type_invariant(&taken);
        }
        let NameMap { entries: mut entries } = taken;
        let ghost old_entries = entries@;
        let ghost key_view = key@;
        match position_in(&entries, key.as_str()) {
            Some(i) => {
                let ghost entry = (key, value);
                proof {
                    assert forall|k: Seq<char>|
                        lookup(old_entries.update(i as int, entry), k) == if k == key_view {
                            Some(value)
                        } else {
                            lookup(old_entries, k)
                        } by {
                        lemma_lookup_replace(old_entries, i as int, entry, k);
                    }
                }
                entries.set(i, (key, value));
                assert(entries@ == old_entries.update(i as int, entry));
                assert(names_increase(entries@)) by {
                    assert forall|a: int, b: int| 0 <= a < b < entries@.len() implies bytes_less(
                        name_bytes(entries@[a]),
                        name_bytes(entries@[b]),
                    ) by {
                        assert(name_bytes(entries@[a]) == name_bytes(old_entries[a]));
                        assert(name_bytes(entries@[b]) == name_bytes(old_entries[b]));
                    }
                }
            },
            None => {
                let mut at: usize = 0;
                while at < entries.len()
                    invariant
                        at <= entries@.len(),
                        entries@ == old_entries,
                        key@ == key_view,
                        forall|j: int|
                            0 <= j < at ==> !bytes_less(encode_utf8(key_view), name_bytes(#[trigger] entries@[j])),
                    ensures
                        at <= entries@.len(),
                        entries@ == old_entries,
                        forall|j: int|
                            0 <= j < at ==> !bytes_less(encode_utf8(key_view), name_bytes(#[trigger] entries@[j])),
                        at < entries@.len() ==> bytes_less(encode_utf8(key_view), name_bytes(entries@[at as int])),
                    decreases entries@.len() - at,
                {
                    if str_less(key.as_str(), entries[at].0.as_str()) {
                        break;
                    }
                    assert(!bytes_less(encode_utf8(key_view), name_bytes(entries@[at as int])));
                    at += 1;
                }
                let ghost entry = (key, value);
                proof {
                    lemma_lookup_absent(old_entries, key_view);
                    assert forall|k: Seq<char>|
                        lookup(old_entries.insert(at as int, entry), k) == if k == key_view {
                            Some(value)
                        } else {
                            lookup(old_entries, k)
                        } by {
                        lemma_lookup_insert_absent(old_entries, at as int, entry, k);
                    }
                    let kb = encode_utf8(key_view);
                    assert forall|j: int| 0 <= j < at implies bytes_less(name_bytes(#[trigger] old_entries[j]), kb) by {
                        vstd::utf8::encode_utf8_decode_utf8(key_view);
                        vstd::utf8::encode_utf8_decode_utf8(old_entries[j].0@);
                        lemma_bytes_less_total(name_bytes(old_entries[j]), kb);
                    }
                    assert forall|j: int| at <= j < old_entries.len() implies bytes_less(kb, name_bytes(#[trigger] old_entries[j])) by {
                        if j > at {
                            lemma_bytes_less_transitive(kb, name_bytes(old_entries[at as int]), name_bytes(old_entries[j]));
                        }
                    }
                }
                entries.insert(at, (key, value));
                assert(entries@ == old_entries.insert(at as int, entry));
                assert(names_increase(entries@)) by {
                    assert forall|a: int, b: int| 0 <= a < b < entries@.len() implies bytes_less(
                        #[trigger] name_bytes(entries@[a]),
                        #[trigger] name_bytes(entries@[b]),
                    ) by {
                        if b < at {
                        } else if a < at && b == at {
                        } else if a < at {
                            assert(entries@[b] == old_entries[b - 1]);
                            lemma_bytes_less_transitive(
                                name_bytes(old_entries[a]),
                                encode_utf8(key_view),
                                name_bytes(old_entries[b - 1]),
                            );
                        } else if a == at {
                            assert(entries@[b] == old_entries[b - 1]);
                        } else {
                            assert(entries@[a] == old_entries[a - 1]);
                            assert(entries@[b] == old_entries[b - 1]);
                        }
                    }
                }
            },
        }
        let mut rebuilt = NameMap { entries };
        core::mem::swap(&mut rebuilt, self);
    }
}

} // verus!
