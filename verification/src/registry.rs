//! The interface registry: an owned mapping from interface to whatever the
//! daemon keeps for it. Keys are unique; the order of insertion carries no
//! meaning.

use crate::interface::{ids, Interface, InterfaceId};
use vstd::prelude::*;

verus! {

struct Entry<T> {
    key: Interface,
    value: T,
}

/// A finite map keyed by interface identity. Its view is the map itself.
pub struct Registry<T> {
    entries: Vec<Entry<T>>,
}

impl<T> View for Registry<T> {
    type V = Map<InterfaceId, T>;

    closed spec fn view(&self) -> Map<InterfaceId, T> {
        Map::new(
            |id: InterfaceId| self.holds(id),
            |id: InterfaceId| self.entries@[self.slot(id)].value,
        )
    }
}

impl<T> Registry<T> {
    spec fn key_at(&self, i: int) -> InterfaceId {
        self.entries@[i].key@
    }

    spec fn keys(&self) -> Seq<InterfaceId> {
        Seq::new(self.entries@.len(), |i: int| self.key_at(i))
    }

    spec fn holds(&self, id: InterfaceId) -> bool {
        exists|i: int| 0 <= i < self.entries@.len() && self.key_at(i) == id
    }

    spec fn slot(&self, id: InterfaceId) -> int {
        choose|i: int| 0 <= i < self.entries@.len() && self.key_at(i) == id
    }

    /// No interface is held twice.
    pub closed spec fn wf(&self) -> bool {
        forall|i: int, j: int|
            0 <= i < j < self.entries@.len() ==> self.key_at(i) != self.key_at(j)
    }

    proof fn lemma_slot(&self, i: int)
        requires
            self.wf(),
            0 <= i < self.entries@.len(),
        ensures
            self.holds(self.key_at(i)),
            self.slot(self.key_at(i)) == i,
            self@.dom().contains(self.key_at(i)),
            self@[self.key_at(i)] == self.entries@[i].value,
    {
        let id = self.key_at(i);
        let j = self.slot(id);
        assert(0 <= j < self.entries@.len() && self.key_at(j) == id);
        if j < i {
            assert(self.key_at(j) != self.key_at(i));
        } else if i < j {
            assert(self.key_at(i) != self.key_at(j));
        }
    }

    proof fn lemma_dom(&self)
        ensures
            forall|id: InterfaceId| #[trigger] self@.dom().contains(id) <==> self.holds(id),
    {
    }

    /// A well-formed registry is finite, and holds as many interfaces as its
    /// view has keys.
    pub proof fn lemma_finite(&self)
        requires
            self.wf(),
        ensures
            self@.dom().finite(),
            self@.len() == self.size(),
    {
        let keys = self.keys();
        assert(keys.no_duplicates());
        keys.unique_seq_to_set();
        vstd::seq_lib::seq_to_set_is_finite(keys);
        assert(self@.dom() =~= keys.to_set()) by {
            assert forall|id: InterfaceId| self@.dom().contains(id) implies keys.to_set().contains(
                id,
            ) by {
                let i = self.slot(id);
                assert(keys[i] == id);
            }
            assert forall|id: InterfaceId| keys.to_set().contains(id) implies self@.dom().contains(
                id,
            ) by {
                let i = choose|i: int| 0 <= i < keys.len() && keys[i] == id;
                assert(self.key_at(i) == id);
            }
        }
    }

    /// How many interfaces the registry holds.
    pub closed spec fn size(&self) -> nat {
        self.entries@.len()
    }

    /// An empty registry.
    pub fn new() -> (registry: Registry<T>)
        ensures
            registry.wf(),
            registry@ == Map::<InterfaceId, T>::empty(),
    {
        let registry = Registry { entries: Vec::new() };
        assert(registry@ =~= Map::<InterfaceId, T>::empty());
        registry
    }

    /// The number of interfaces held.
    pub fn len(&self) -> (n: usize)
        requires
            self.wf(),
        ensures
            n == self@.len(),
            self@.dom().finite(),
    {
        proof {
            self.lemma_finite();
        }
        self.entries.len()
    }

    /// Whether the registry holds no interface.
    pub fn is_empty(&self) -> (empty: bool)
        requires
            self.wf(),
        ensures
            empty == (self@ == Map::<InterfaceId, T>::empty()),
    {
        proof {
            if self.entries@.len() == 0 {
                assert(self@ =~= Map::<InterfaceId, T>::empty());
            } else {
                self.lemma_slot(0);
            }
        }
        self.entries.len() == 0
    }

    fn position(&self, key: &Interface) -> (found: Option<usize>)
        requires
            self.wf(),
        ensures
            match found {
                Some(i) => i < self.entries@.len() && self.key_at(i as int) == key@,
                None => !self.holds(key@),
            },
    {
        let mut i: usize = 0;
        while i < self.entries.len()
            invariant
                i <= self.entries@.len(),
                forall|j: int| 0 <= j < i ==> self.key_at(j) != key@,
            decreases self.entries@.len() - i,
        {
            if self.entries[i].key == *key {
                return Some(i);
            }
            i += 1;
        }
        None
    }

    /// Whether the registry holds the interface.
    pub fn contains_key(&self, key: &Interface) -> (held: bool)
        requires
            self.wf(),
        ensures
            held == self@.dom().contains(key@),
    {
        self.position(key).is_some()
    }

    /// What the registry holds for the interface, if anything.
    pub fn get(&self, key: &Interface) -> (value: Option<&T>)
        requires
            self.wf(),
        ensures
            match value {
                Some(held) => self@.dom().contains(key@) && *held == self@[key@],
                None => !self@.dom().contains(key@),
            },
    {
        match self.position(key) {
            Some(i) => {
                proof {
                    self.lemma_slot(i as int);
                }
                Some(&self.entries[i].value)
            },
            None => None,
        }
    }

    /// Maps the interface to `value`. What was held for it before, if
    /// anything, is handed back; every other interface keeps what it had.
    pub fn insert(&mut self, key: Interface, value: T) -> (displaced: Option<T>)
        requires
            old(self).wf(),
        ensures
            final(self).wf(),
            final(self)@ == old(self)@.insert(key@, value),
            displaced == if old(self)@.dom().contains(key@) {
                Some(old(self)@[key@])
            } else {
                None::<T>
            },
    {
        let ghost id = key@;
        let displaced = self.remove(&key);
        let ghost before = *self;
        self.entries.push(Entry { key, value });
        proof {
            let last = before.entries@.len() as int;
            before.lemma_dom();
            self.lemma_dom();
            assert(!before@.dom().contains(id));
            assert(!before.holds(id));
            assert forall|i: int| 0 <= i < last implies self.key_at(i) == before.key_at(i) by {}
            assert(self.key_at(last) == id);
            assert forall|i: int, j: int| 0 <= i < j < self.entries@.len() implies self.key_at(i)
                != self.key_at(j) by {
                if j < last {
                    assert(before.key_at(i) != before.key_at(j));
                } else {
                    assert(before.key_at(i) != id);
                }
            }
            self.lemma_slot(last);
            assert forall|other: InterfaceId| #[trigger]
                self@.dom().contains(other) <==> (other == id || before@.dom().contains(
                    other,
                )) by {
                if before.holds(other) {
                    let i = before.slot(other);
                    assert(self.key_at(i) == other);
                }
                if self.holds(other) && other != id {
                    let i = self.slot(other);
                    assert(before.key_at(i) == other);
                }
            }
            assert forall|other: InterfaceId|
                other != id && before@.dom().contains(other) implies #[trigger] self@[other]
                == before@[other] by {
                let i = before.slot(other);
                before.lemma_slot(i);
                assert(self.key_at(i) == other);
                self.lemma_slot(i);
            }
            assert(self@ =~= before@.insert(id, value));
        }
        displaced
    }

    /// Takes the interface out of the registry and hands back what was held
    /// for it; every other interface keeps what it had.
    pub fn remove(&mut self, key: &Interface) -> (removed: Option<T>)
        requires
            old(self).wf(),
        ensures
            final(self).wf(),
            final(self)@ == old(self)@.remove(key@),
            removed == if old(self)@.dom().contains(key@) {
                Some(old(self)@[key@])
            } else {
                None::<T>
            },
    {
        match self.position(key) {
            Some(at) => {
                proof {
                    self.lemma_slot(at as int);
                }
                let ghost before = *self;
                let entry = self.entries.remove(at);
                proof {
                    let id = key@;
                    before.lemma_dom();
                    self.lemma_dom();
                    assert forall|i: int| 0 <= i < self.entries@.len() implies self.key_at(i) == (
                    if i < at {
                        before.key_at(i)
                    } else {
                        before.key_at(i + 1)
                    }) by {}
                    assert(self.wf()) by {
                        assert forall|i: int, j: int|
                            0 <= i < j < self.entries@.len() implies self.key_at(i) != self.key_at(
                            j,
                        ) by {
                            let oi = if i < at { i } else { i + 1 };
                            let oj = if j < at { j } else { j + 1 };
                            assert(before.key_at(oi) != before.key_at(oj));
                        }
                    }
                    assert forall|other: InterfaceId| #[trigger]
                        self@.dom().contains(other) <==> (other != id && before@.dom().contains(
                            other,
                        )) by {
                        if before.holds(other) && other != id {
                            let oi = before.slot(other);
                            let i = if oi < at { oi } else { oi - 1 };
                            assert(self.key_at(i) == other);
                        }
                        if self.holds(other) {
                            let i = self.slot(other);
                            let oi = if i < at { i } else { i + 1 };
                            assert(before.key_at(oi) == other);
                            if other == id {
                                if oi < at {
                                    assert(before.key_at(oi) != before.key_at(at as int));
                                } else {
                                    assert(before.key_at(at as int) != before.key_at(oi));
                                }
                            }
                        }
                    }
                    assert forall|other: InterfaceId|
                        self@.dom().contains(other) implies #[trigger] self@[other]
                        == before@[other] by {
                        let i = self.slot(other);
                        self.lemma_slot(i);
                        let oi = if i < at { i } else { i + 1 };
                        assert(before.key_at(oi) == other);
                        before.lemma_slot(oi);
                    }
                    assert(self@ =~= before@.remove(id));
                }
                Some(entry.value)
            },
            None => {
                proof {
                    assert(self@ =~= self@.remove(key@));
                }
                None
            },
        }
    }

    /// The interfaces held, each once, in no particular order.
    pub fn interfaces(&self) -> (held: Vec<Interface>)
        requires
            self.wf(),
        ensures
            ids(held@).no_duplicates(),
            ids(held@).to_set() == self@.dom(),
            held@.len() == self@.len(),
    {
        let mut held: Vec<Interface> = Vec::new();
        let mut i: usize = 0;
        while i < self.entries.len()
            invariant
                i <= self.entries@.len(),
                held@.len() == i,
                forall|j: int| 0 <= j < i ==> (#[trigger] held@[j])@ == self.key_at(j),
            decreases self.entries@.len() - i,
        {
            held.push(self.entries[i].key.clone());
            i += 1;
        }
        proof {
            self.lemma_finite();
            let found = ids(held@);
            assert(found =~= self.keys());
            assert(self@.dom() =~= found.to_set()) by {
                assert forall|id: InterfaceId| self@.dom().contains(id) implies found.to_set().contains(
                    id,
                ) by {
                    let k = self.slot(id);
                    assert(found[k] == id);
                }
                assert forall|id: InterfaceId| found.to_set().contains(id) implies self@.dom().contains(
                    id,
                ) by {
                    let k = choose|k: int| 0 <= k < found.len() && found[k] == id;
                    assert(self.key_at(k) == id);
                }
            }
        }
        held
    }
}

} // verus!
