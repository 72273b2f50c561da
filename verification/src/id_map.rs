//! A small map keyed by local ids.
use vstd::prelude::*;

verus! {

/// A map from `u32` ids to values.
pub struct IdMap<V> {
    entries: Vec<(u32, V)>,
}

impl<V> IdMap<V> {
    /// The entries in insertion order; each id occurs at most once.
    pub closed spec fn entries(&self) -> Seq<(u32, V)> {
        self.entries@
    }

    /// The map as a mathematical map.
    pub closed spec fn view_map(&self) -> Map<u32, V> {
        Map::new(
            |k: u32| exists|i: int| 0 <= i < self.entries@.len() && self.entries@[i].0 == k,
            |k: u32| self.entries@[choose|i: int| 0 <= i < self.entries@.len() && self.entries@[i].0 == k].1,
        )
    }

    /// Each id occurs at most once.
    #[verifier::type_invariant]
    pub closed spec fn well_formed(&self) -> bool {
        forall|i: int, j: int|
            0 <= i < self.entries@.len() && 0 <= j < self.entries@.len() && i != j
                ==> self.entries@[i].0 != self.entries@[j].0
    }

    /// An empty map.
    pub fn new() -> (m: Self)
        ensures
            m.view_map() == Map::<u32, V>::empty(),
    {
        let m = IdMap { entries: Vec::new() };
        assert(m.view_map() =~= Map::<u32, V>::empty());
        m
    }

    fn position(&self, id: u32) -> (r: Option<usize>)
        ensures
            r matches Some(i) ==> i < self.entries@.len() && self.entries@[i as int].0 == id,
            r is None ==> forall|j: int| 0 <= j < self.entries@.len() ==> self.entries@[j].0 != id,
    {
        let mut i: usize = 0;
        while i < self.entries.len()
            invariant
                i <= self.entries@.len(),
                forall|j: int| 0 <= j < i ==> self.entries@[j].0 != id,
            decreases self.entries@.len() - i,
        {
            if self.entries[i].0 == id {
                return Some(i);
            }
            i += 1;
        }
        None
    }

    /// The value stored under `id`.
    pub fn get(&self, id: u32) -> (r: Option<&V>)
        ensures
            r matches Some(v) ==> self.view_map().contains_key(id) && self.view_map()[id] == *v,
            r is None ==> !self.view_map().contains_key(id),
    {
        proof {
            use_type_invariant(self);
        }
        match self.position(id) {
            Some(i) => {
                proof {
                    let k = choose|j: int| 0 <= j < self.entries@.len() && self.entries@[j].0 == id;
                    assert(k == i as int);
                }
                Some(&self.entries[i].1)
            },
            None => None,
        }
    }

    /// Stores `value` under `id`, replacing a value already stored there.
    pub fn insert(&mut self, id: u32, value: V)
        ensures
            final(self).view_map() == old(self).view_map().insert(id, value),
    {
        let mut taken: IdMap<V> = IdMap::new();
        core::mem::swap(&mut taken, self);
        proof {
            use_type_invariant(&taken);
        }
        let position = taken.position(id);
        let ghost old_map = taken.view_map();
        let IdMap { entries: mut entries } = taken;
        let ghost old_entries = entries@;
        match position {
            Some(i) => {
                entries.set(i, (id, value));
            },
            None => {
                entries.push((id, value));
            },
        }
        let mut rebuilt = IdMap { entries };
        proof {
            lemma_insert_view(old_entries, rebuilt.entries@, id, value, position, old_map, rebuilt.view_map());
        }
        core::mem::swap(&mut rebuilt, self);
    }
}

proof fn lemma_insert_view<V>(
    old_entries: Seq<(u32, V)>,
    new_entries: Seq<(u32, V)>,
    id: u32,
    value: V,
    position: Option<usize>,
    old_map: Map<u32, V>,
    new_map: Map<u32, V>,
)
    requires
        forall|i: int, j: int|
            0 <= i < old_entries.len() && 0 <= j < old_entries.len() && i != j
                ==> old_entries[i].0 != old_entries[j].0,
        position matches Some(i) ==> i < old_entries.len() && old_entries[i as int].0 == id
            && new_entries == old_entries.update(i as int, (id, value)),
        position is None ==> (forall|j: int| 0 <= j < old_entries.len() ==> old_entries[j].0 != id)
            && new_entries == old_entries.push((id, value)),
        old_map == Map::new(
            |k: u32| exists|i: int| 0 <= i < old_entries.len() && old_entries[i].0 == k,
            |k: u32| old_entries[choose|i: int| 0 <= i < old_entries.len() && old_entries[i].0 == k].1,
        ),
        new_map == Map::new(
            |k: u32| exists|i: int| 0 <= i < new_entries.len() && new_entries[i].0 == k,
            |k: u32| new_entries[choose|i: int| 0 <= i < new_entries.len() && new_entries[i].0 == k].1,
        ),
    ensures
        forall|i: int, j: int|
            0 <= i < new_entries.len() && 0 <= j < new_entries.len() && i != j
                ==> new_entries[i].0 != new_entries[j].0,
        new_map == old_map.insert(id, value),
{
    let n = old_entries.len() as int;
    let at: int = match position {
        Some(i) => i as int,
        None => n,
    };
    assert(new_entries[at].0 == id);
    assert forall|k: u32| #[trigger] new_map.contains_key(k) == old_map.insert(id, value).contains_key(k) by {
        if k != id && old_map.contains_key(k) {
            let w = choose|j: int| 0 <= j < old_entries.len() && old_entries[j].0 == k;
            assert(new_entries[w].0 == k);
        }
        if k != id && new_map.contains_key(k) {
            let w = choose|j: int| 0 <= j < new_entries.len() && new_entries[j].0 == k;
            assert(w != at);
            assert(old_entries[w].0 == k);
        }
    }
    assert forall|k: u32| #[trigger] new_map.contains_key(k) implies new_map[k] == old_map.insert(id, value)[k] by {
        let w = choose|j: int| 0 <= j < new_entries.len() && new_entries[j].0 == k;
        if k == id {
            assert(w == at);
        } else {
            let v = choose|j: int| 0 <= j < old_entries.len() && old_entries[j].0 == k;
            assert(new_entries[v].0 == k);
            assert(v == w);
        }
    }
    assert(new_map =~= old_map.insert(id, value));
}

} // verus!
