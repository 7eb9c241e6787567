//! The runs that traces are kept of, and maps from runs to values.
use vstd::prelude::*;

verus! {

/// The identifier of a virtual machine.
pub type VmId = u64;

/// The virtual machine that is started first.
pub const ROOT_VM_ID: VmId = 0;

/// A run of a program: a virtual machine, and how often its program was replaced before.
#[derive(Copy, Clone, Debug, PartialEq, Eq, Hash, Structural)]
pub struct CollectorKey {
    /// The virtual machine.
    pub vm_id: VmId,
    /// How often its program was replaced.
    pub generation_id: u64,
}

/// A map from runs to values.
#[derive(Debug)]
pub struct KeyMap<V> {
    entries: Vec<(CollectorKey, V)>,
}

/// The map that a list of entries stands for.
pub open spec fn entries_map<V>(entries: Seq<(CollectorKey, V)>) -> Map<CollectorKey, V>
    decreases entries.len(),
{
    if entries.len() == 0 {
        Map::empty()
    } else {
        entries_map(entries.drop_last()).insert(entries.last().0, entries.last().1)
    }
}

/// No run occurs twice in a list of entries.
pub open spec fn distinct_keys<V>(entries: Seq<(CollectorKey, V)>) -> bool {
    forall|i: int, j: int|
        0 <= i < j < entries.len() ==> (#[trigger] entries[i]).0 != (#[trigger] entries[j]).0
}

/// A list of entries holds a run if and only if its map does, and with the same value.
pub proof fn lemma_entries_map<V>(entries: Seq<(CollectorKey, V)>)
    requires
        distinct_keys(entries),
    ensures
        forall|i: int|
            0 <= i < entries.len() ==> {
                &&& entries_map(entries).contains_key((#[trigger] entries[i]).0)
                &&& entries_map(entries)[entries[i].0] == entries[i].1
            },
        forall|key: CollectorKey| #[trigger]
            entries_map(entries).contains_key(key) ==> exists|i: int|
                0 <= i < entries.len() && (#[trigger] entries[i]).0 == key,
        entries_map(entries).dom().finite(),
        entries_map(entries).dom().len() == entries.len(),
    decreases entries.len(),
{
    if entries.len() > 0 {
        let front = entries.drop_last();
        assert forall|i: int, j: int| 0 <= i < j < front.len() implies (#[trigger] front[i]).0 != (
        #[trigger] front[j]).0 by {
            assert(front[i] == entries[i] && front[j] == entries[j]);
        }
        lemma_entries_map(front);
        assert forall|i: int| 0 <= i < entries.len() implies {
            &&& entries_map(entries).contains_key((#[trigger] entries[i]).0)
            &&& entries_map(entries)[entries[i].0] == entries[i].1
        } by {
            if i < front.len() {
                assert(front[i] == entries[i]);
                assert(entries[i].0 != entries[entries.len() - 1].0);
            }
        }
        assert forall|key: CollectorKey| #[trigger]
            entries_map(entries).contains_key(key) implies exists|i: int|
            0 <= i < entries.len() && (#[trigger] entries[i]).0 == key by {
            if key == entries.last().0 {
                assert(entries[entries.len() - 1].0 == key);
            } else {
                assert(entries_map(front).contains_key(key));
                let i = choose|i: int| 0 <= i < front.len() && (#[trigger] front[i]).0 == key;
                assert(entries[i].0 == key);
            }
        }
        assert(!entries_map(front).contains_key(entries.last().0)) by {
            if entries_map(front).contains_key(entries.last().0) {
                let i = choose|i: int|
                    0 <= i < front.len() && (#[trigger] front[i]).0 == entries.last().0;
                assert(entries[i].0 != entries[entries.len() - 1].0);
            }
        }
        assert(entries_map(entries).dom() =~= entries_map(front).dom().insert(entries.last().0));
    }
}

/// A list of entries has the map that it was shown to hold entry by entry.
proof fn lemma_entries_map_is<V>(entries: Seq<(CollectorKey, V)>, map: Map<CollectorKey, V>)
    requires
        distinct_keys(entries),
        forall|i: int|
            0 <= i < entries.len() ==> {
                &&& map.contains_key((#[trigger] entries[i]).0)
                &&& map[entries[i].0] == entries[i].1
            },
        forall|key: CollectorKey| #[trigger]
            map.contains_key(key) ==> exists|i: int|
                0 <= i < entries.len() && (#[trigger] entries[i]).0 == key,
    ensures
        entries_map(entries) == map,
{
    lemma_entries_map(entries);
    assert forall|key: CollectorKey| entries_map(entries).contains_key(key)
        == #[trigger] map.contains_key(key) by {
        if map.contains_key(key) {
            let i = choose|i: int| 0 <= i < entries.len() && (#[trigger] entries[i]).0 == key;
            assert(entries_map(entries).contains_key(entries[i].0));
        }
        if entries_map(entries).contains_key(key) {
            let i = choose|i: int| 0 <= i < entries.len() && (#[trigger] entries[i]).0 == key;
            assert(map.contains_key(entries[i].0));
        }
    }
    assert forall|key: CollectorKey| #[trigger] map.contains_key(key) implies entries_map(
        entries,
    )[key] == map[key] by {
        let i = choose|i: int| 0 <= i < entries.len() && (#[trigger] entries[i]).0 == key;
        assert(map[entries[i].0] == entries[i].1);
    }
    assert(entries_map(entries) =~= map);
}

impl<V> View for KeyMap<V> {
    type V = Map<CollectorKey, V>;

    closed spec fn view(&self) -> Map<CollectorKey, V> {
        entries_map(self.entries@)
    }
}

impl<V> KeyMap<V> {
    #[verifier::type_invariant]
    spec fn well_formed(self) -> bool {
        distinct_keys(self.entries@)
    }

    /// The empty map.
    pub fn new() -> (map: Self)
        ensures
            map@ == Map::<CollectorKey, V>::empty(),
    {
        KeyMap { entries: Vec::new() }
    }

    /// Where the entry of `key` is.
    fn find(&self, key: &CollectorKey) -> (found: Option<usize>)
        ensures
            match found {
                Some(i) => i < self.entries@.len() && self.entries@[i as int].0 == *key,
                None => forall|i: int|
                    0 <= i < self.entries@.len() ==> (#[trigger] self.entries@[i]).0 != *key,
            },
    {
        let mut i: usize = 0;
        while i < self.entries.len()
            invariant
                i <= self.entries@.len(),
                forall|j: int| 0 <= j < i ==> (#[trigger] self.entries@[j]).0 != *key,
            decreases self.entries@.len() - i,
        {
            if self.entries[i].0 == *key {
                return Some(i);
            }
            i = i + 1;
        }
        None
    }

    /// How many runs there are.
    pub fn len(&self) -> (len: usize)
        ensures
            self@.dom().finite(),
            len == self@.len(),
    {
        proof {
            use_type_invariant(self);
            lemma_entries_map(self.entries@);
        }
        self.entries.len()
    }

    /// The value of a run.
    pub fn get(&self, key: &CollectorKey) -> (value: Option<&V>)
        ensures
            match value {
                Some(value) => self@.contains_key(*key) && self@[*key] == *value,
                None => !self@.contains_key(*key),
            },
    {
        proof {
            use_type_invariant(self);
            lemma_entries_map(self.entries@);
        }
        match self.find(key) {
            Some(i) => Some(&self.entries[i].1),
            None => None,
        }
    }

    /// Whether a run has a value.
    pub fn contains_key(&self, key: &CollectorKey) -> (found: bool)
        ensures
            found == self@.contains_key(*key),
    {
        self.get(key).is_some()
    }

    /// Takes out the value of a run.
    pub fn remove(&mut self, key: &CollectorKey) -> (value: Option<V>)
        ensures
            final(self)@ == old(self)@.remove(*key),
            match value {
                Some(value) => old(self)@.contains_key(*key) && old(self)@[*key] == value,
                None => !old(self)@.contains_key(*key),
            },
    {
        proof {
            use_type_invariant(&*self);
            lemma_entries_map(self.entries@);
        }
        match self.find(key) {
            Some(i) => {
                let mut entries: Vec<(CollectorKey, V)> = Vec::new();
                std::mem::swap(&mut entries, &mut self.entries);
                let ghost before = entries@;
                let entry = entries.remove(i);
                proof {
                    assert(distinct_keys(entries@)) by {
                        assert forall|a: int, b: int| 0 <= a < b < entries@.len() implies (
                        #[trigger] entries@[a]).0 != (#[trigger] entries@[b]).0 by {
                            let c = if a < i { a } else { a + 1 };
                            let d = if b < i { b } else { b + 1 };
                            assert(entries@[a] == before[c] && entries@[b] == before[d]);
                        }
                    }
                    let map = entries_map(before).remove(*key);
                    assert forall|j: int| 0 <= j < entries@.len() implies {
                        &&& map.contains_key((#[trigger] entries@[j]).0)
                        &&& map[entries@[j].0] == entries@[j].1
                    } by {
                        let c = if j < i { j } else { j + 1 };
                        assert(entries@[j] == before[c]);
                        if c < i {
                            assert(before[c].0 != before[i as int].0);
                        } else {
                            assert(before[i as int].0 != before[c].0);
                        }
                    }
                    assert forall|k: CollectorKey| #[trigger] map.contains_key(k) implies exists|
                        j: int,
                    | 0 <= j < entries@.len() && (#[trigger] entries@[j]).0 == k by {
                        let c = choose|c: int|
                            0 <= c < before.len() && (#[trigger] before[c]).0 == k;
                        let j = if c < i { c } else { c - 1 };
                        assert(entries@[j].0 == k);
                    }
                    lemma_entries_map_is(entries@, map);
                }
                self.entries = entries;
                Some(entry.1)
            },
            None => {
                assert(!self@.contains_key(*key));
                assert(self@.remove(*key) =~= self@);
                None
            },
        }
    }

    /// Gives a run a value, in place of the value that it had.
    pub fn insert(&mut self, key: CollectorKey, value: V)
        ensures
            final(self)@ == old(self)@.insert(key, value),
    {
        let _ = self.remove(&key);
        proof {
            use_type_invariant(&*self);
            lemma_entries_map(self.entries@);
        }
        let ghost map = self@;
        let mut entries: Vec<(CollectorKey, V)> = Vec::new();
        std::mem::swap(&mut entries, &mut self.entries);
        let ghost before = entries@;
        entries.push((key, value));
        proof {
            assert(entries@.drop_last() =~= before);
            assert forall|a: int, b: int| 0 <= a < b < entries@.len() implies (
            #[trigger] entries@[a]).0 != (#[trigger] entries@[b]).0 by {
                assert(entries@[a] == before[a]);
                if b < before.len() {
                    assert(entries@[b] == before[b]);
                } else {
                    assert(map.contains_key(before[a].0));
                }
            }
            assert(map.insert(key, value) =~= old(self)@.insert(key, value));
        }
        self.entries = entries;
    }

    /// Takes out some run with its value.
    pub fn pop(&mut self) -> (entry: Option<(CollectorKey, V)>)
        ensures
            match entry {
                Some((key, value)) => {
                    &&& old(self)@.contains_key(key)
                    &&& old(self)@[key] == value
                    &&& final(self)@ == old(self)@.remove(key)
                },
                None => final(self)@ == old(self)@ && old(self)@ == Map::<
                    CollectorKey,
                    V,
                >::empty(),
            },
            old(self)@.dom().finite(),
            final(self)@.dom().finite(),
            entry is Some ==> final(self)@.len() < old(self)@.len(),
    {
        proof {
            use_type_invariant(&*self);
            lemma_entries_map(self.entries@);
        }
        let mut entries: Vec<(CollectorKey, V)> = Vec::new();
        std::mem::swap(&mut entries, &mut self.entries);
        let ghost before = entries@;
        let entry = entries.pop();
        proof {
            if entry is Some {
                let key = (entry->0).0;
                assert(entries@ == before.drop_last());
                assert(distinct_keys(entries@)) by {
                    assert forall|a: int, b: int| 0 <= a < b < entries@.len() implies (
                    #[trigger] entries@[a]).0 != (#[trigger] entries@[b]).0 by {
                        assert(entries@[a] == before[a] && entries@[b] == before[b]);
                    }
                }
                lemma_entries_map(entries@);
                assert(!entries_map(entries@).contains_key(key)) by {
                    if entries_map(entries@).contains_key(key) {
                        let j = choose|j: int|
                            0 <= j < entries@.len() && (#[trigger] entries@[j]).0 == key;
                        assert(before[j].0 != before[before.len() - 1].0);
                    }
                }
                assert(entries_map(entries@) =~= entries_map(before).remove(key));
            } else {
                assert(entries@ =~= before);
            }
        }
        self.entries = entries;
        entry
    }

    /// The runs.
    pub fn keys(&self) -> (keys: Vec<CollectorKey>)
        ensures
            keys@.no_duplicates(),
            forall|key: CollectorKey| #[trigger]
                keys@.contains(key) <==> self@.contains_key(key),
    {
        proof {
            use_type_invariant(self);
            lemma_entries_map(self.entries@);
        }
        let mut keys: Vec<CollectorKey> = Vec::new();
        let mut i: usize = 0;
        while i < self.entries.len()
            invariant
                i <= self.entries@.len(),
                keys@.len() == i,
                forall|j: int| 0 <= j < i ==> #[trigger] keys@[j] == self.entries@[j].0,
            decreases self.entries@.len() - i,
        {
            keys.push(self.entries[i].0);
            i = i + 1;
        }
        proof {
            assert forall|a: int, b: int|
                0 <= a < keys@.len() && 0 <= b < keys@.len() && a != b implies keys@[a]
                != keys@[b] by {
                if a < b {
                    assert(self.entries@[a].0 != self.entries@[b].0);
                } else {
                    assert(self.entries@[b].0 != self.entries@[a].0);
                }
            }
            assert forall|key: CollectorKey| #[trigger]
                keys@.contains(key) <==> self@.contains_key(key) by {
                if keys@.contains(key) {
                    let j = choose|j: int| 0 <= j < keys@.len() && keys@[j] == key;
                    assert(self@.contains_key(self.entries@[j].0));
                }
                if self@.contains_key(key) {
                    let j = choose|j: int|
                        0 <= j < self.entries@.len() && (#[trigger] self.entries@[j]).0 == key;
                    assert(keys@[j] == key);
                }
            }
        }
        keys
    }
}

impl<V: Clone> Clone for KeyMap<V> {
    /// A map with the same runs, and with clones of their values.
    fn clone(&self) -> (map: Self)
        ensures
            map@.dom() == self@.dom(),
            forall|key: CollectorKey| #[trigger]
                map@.contains_key(key) ==> cloned::<V>(self@[key], map@[key]),
    {
        proof {
            use_type_invariant(self);
            lemma_entries_map(self.entries@);
        }
        let mut entries: Vec<(CollectorKey, V)> = Vec::new();
        let mut i: usize = 0;
        while i < self.entries.len()
            invariant
                i <= self.entries@.len(),
                entries@.len() == i,
                forall|j: int|
                    0 <= j < i ==> {
                        &&& (#[trigger] entries@[j]).0 == self.entries@[j].0
                        &&& cloned::<V>(self.entries@[j].1, entries@[j].1)
                    },
            decreases self.entries@.len() - i,
        {
            entries.push((self.entries[i].0, self.entries[i].1.clone()));
            i = i + 1;
        }
        proof {
            assert forall|a: int, b: int| 0 <= a < b < entries@.len() implies (
            #[trigger] entries@[a]).0 != (#[trigger] entries@[b]).0 by {
                assert(self.entries@[a].0 != self.entries@[b].0);
            }
            lemma_entries_map(entries@);
            assert forall|key: CollectorKey| #[trigger]
                entries_map(entries@).contains_key(key) == self@.contains_key(key) by {
                if entries_map(entries@).contains_key(key) {
                    let j = choose|j: int|
                        0 <= j < entries@.len() && (#[trigger] entries@[j]).0 == key;
                    assert(self@.contains_key(self.entries@[j].0));
                }
                if self@.contains_key(key) {
                    let j = choose|j: int|
                        0 <= j < self.entries@.len() && (#[trigger] self.entries@[j]).0 == key;
                    assert(entries_map(entries@).contains_key(entries@[j].0));
                }
            }
            assert forall|key: CollectorKey| #[trigger]
                entries_map(entries@).contains_key(key) implies cloned::<V>(
                self@[key],
                entries_map(entries@)[key],
            ) by {
                let j = choose|j: int|
                    0 <= j < entries@.len() && (#[trigger] entries@[j]).0 == key;
                assert(self@[self.entries@[j].0] == self.entries@[j].1);
            }
            assert(entries_map(entries@).dom() =~= self@.dom());
        }
        KeyMap { entries }
    }
}

} // verus!
