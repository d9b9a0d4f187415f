//! Who gets the packets of which connection.

use crate::error::StreamError;
use crate::key::{KeyView, QuicKey};
use vstd::prelude::*;

verus! {

/// The connections that are alive, each with the way to hand it its packets.
#[derive(Debug)]
pub struct Registry<V> {
    entries: Vec<(QuicKey, V)>,
}

/// The entry at this place has this key.
spec fn holds<V>(entries: Seq<(QuicKey, V)>, i: int, key: KeyView) -> bool {
    0 <= i < entries.len() && entries[i].0@ == key
}

impl<V> View for Registry<V> {
    type V = Map<KeyView, V>;

    closed spec fn view(&self) -> Map<KeyView, V> {
        Map::new(
            |key: KeyView| exists|i: int| holds(self.entries@, i, key),
            |key: KeyView| self.entries@[choose|i: int| holds(self.entries@, i, key)].1,
        )
    }
}

impl<V> Registry<V> {
    /// No connection is registered twice.
    pub closed spec fn wf(self) -> bool {
        forall|i: int, j: int|
            0 <= i < j < self.entries@.len() ==> (#[trigger] self.entries@[i]).0@ != (
            #[trigger] self.entries@[j]).0@
    }

    /// Where a key is found is its value.
    proof fn lemma_found(self, i: int, key: KeyView)
        requires
            self.wf(),
            holds(self.entries@, i, key),
        ensures
            self@.contains_key(key),
            self@[key] == self.entries@[i].1,
    {
        let j = choose|j: int| holds(self.entries@, j, key);
    }

    /// A registry with no connections.
    pub fn new() -> (registry: Registry<V>)
        ensures
            registry.wf(),
            registry@ == Map::<KeyView, V>::empty(),
    {
        let registry: Registry<V> = Registry { entries: Vec::new() };
        registry
    }

    /// Where a key is.
    fn find(&self, key: &QuicKey) -> (place: Option<usize>)
        ensures
            match place {
                Some(i) => holds(self.entries@, i as int, key@),
                None => !self@.contains_key(key@),
            },
    {
        let mut i: usize = 0;
        while i < self.entries.len()
            invariant
                i <= self.entries@.len(),
                forall|j: int| 0 <= j < i ==> (#[trigger] self.entries@[j]).0@ != key@,
            decreases self.entries@.len() - i,
        {
            if self.entries[i].0 == *key {
                return Some(i);
            }
            i += 1;
        }
        None
    }

    /// How to hand a connection its packets, if it is registered.
    pub fn get(&self, key: &QuicKey) -> (value: Option<&V>)
        requires
            self.wf(),
        ensures
            match value {
                Some(v) => self@.contains_key(key@) && self@[key@] == *v,
                None => !self@.contains_key(key@),
            },
    {
        match self.find(key) {
            Some(i) => {
                proof {
                    self.lemma_found(i as int, key@);
                }
                Some(&self.entries[i].1)
            },
            None => None,
        }
    }

    /// Registers a connection, unless one with the same key is registered already.
    pub fn reserve(&mut self, key: QuicKey, value: V) -> (result: Result<(), StreamError>)
        requires
            old(self).wf(),
        ensures
            final(self).wf(),
            old(self)@.contains_key(key@) ==> result == Err::<(), StreamError>(
                StreamError::StreamExists,
            ) && final(self)@ == old(self)@,
            !old(self)@.contains_key(key@) ==> result == Ok::<(), StreamError>(()) && final(self)@
                == old(self)@.insert(key@, value),
    {
        match self.find(&key) {
            Some(i) => {
                proof {
                    self.lemma_found(i as int, key@);
                }
                Err(StreamError::StreamExists)
            },
            None => {
                let ghost name = key@;
                let ghost before = self.entries@;
                self.entries.push((key, value));
                proof {
                    assert forall|i: int, j: int| 0 <= i < j < self.entries@.len() implies (
                    #[trigger] self.entries@[i]).0@ != (#[trigger] self.entries@[j]).0@ by {
                        assert(!holds(before, i, name));
                    }
                    assert forall|k: KeyView|
                        #![trigger self@.dom().contains(k)]
                        #![trigger self@[k]]
                        self@.contains_key(k) == old(self)@.insert(name, value).contains_key(k) && (
                        self@.contains_key(k) ==> self@[k] == old(self)@.insert(name, value)[k]) by {
                        if k == name {
                            self.lemma_found(before.len() as int, k);
                        } else if exists|i: int| holds(before, i, k) {
                            let i = choose|i: int| holds(before, i, k);
                            old(self).lemma_found(i, k);
                            self.lemma_found(i, k);
                        } else {
                            assert forall|i: int| !holds(self.entries@, i, k) by {
                                assert(!holds(before, i, k));
                            }
                        }
                    }
                }
                Ok(())
            },
        }
    }

    /// Forgets a connection, and gives back what was registered for it.
    pub fn remove(&mut self, key: &QuicKey) -> (value: Option<V>)
        requires
            old(self).wf(),
        ensures
            final(self).wf(),
            final(self)@ == old(self)@.remove(key@),
            match value {
                Some(v) => old(self)@.contains_key(key@) && old(self)@[key@] == v,
                None => !old(self)@.contains_key(key@),
            },
    {
        match self.find(key) {
            Some(place) => {
                let ghost name = key@;
                let ghost before = self.entries@;
                let (_, value) = self.entries.swap_remove(place);
                proof {
                    old(self).lemma_found(place as int, name);
                    let last = before.len() - 1;
                    assert forall|k: KeyView|
                        #![trigger self@.dom().contains(k)]
                        #![trigger self@[k]]
                        self@.contains_key(k) == old(self)@.remove(name).contains_key(k) && (
                        self@.contains_key(k) ==> self@[k] == old(self)@.remove(name)[k]) by {
                        if exists|i: int| holds(self.entries@, i, k) {
                            let i = choose|i: int| holds(self.entries@, i, k);
                            self.lemma_found(i, k);
                            let j = if i == place { last } else { i };
                            old(self).lemma_found(j, k);
                        } else if k != name && exists|i: int| holds(before, i, k) {
                            let j = choose|i: int| holds(before, i, k);
                            let i = if j == last { place as int } else { j };
                            assert(holds(self.entries@, i, k));
                        }
                    }
                }
                Some(value)
            },
            None => None,
        }
    }
}

/// Forgetting a connection undoes its registration: everything is as it was before.
pub proof fn law_remove_undoes_reserve<V>(registry: Map<KeyView, V>, key: KeyView, value: V)
    requires
        !registry.contains_key(key),
    ensures
        registry.insert(key, value).remove(key) == registry,
{
}

} // verus!
