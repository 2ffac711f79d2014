//! An index-based arena: a vector of optional slots keyed by stable integer
//! identifiers. The connection table's allocator — an identifier stays valid
//! for the whole life of its entry and is only reused after removal.

use vstd::prelude::*;

verus! {

/// An arena of optional slots. Viewed as a map from identifier to live value.
pub struct Arena<T> {
    slots: Vec<Option<T>>,
}

impl<T> View for Arena<T> {
    type V = Map<int, T>;

    closed spec fn view(&self) -> Map<int, T> {
        Map::new(
            |i: int| 0 <= i < self.slots@.len() && self.slots@[i] is Some,
            |i: int| self.slots@[i]->0,
        )
    }
}

impl<T> Arena<T> {
    /// How many slots exist, live or vacant. Identifiers are always below it.
    pub closed spec fn capacity(&self) -> nat {
        self.slots@.len()
    }

    pub fn new() -> (a: Arena<T>)
        ensures
            a@ == Map::<int, T>::empty(),
            a.capacity() == 0,
    {
        let a = Arena { slots: Vec::new() };
        proof {
            assert(a@ =~= Map::<int, T>::empty());
        }
        a
    }

    /// Stores `v` in the lowest vacant slot, growing the arena when none is
    /// vacant, and returns the slot's identifier: a fresh identifier, never
    /// one that is still live.
    pub fn insert(&mut self, v: T) -> (id: usize)
        ensures
            !old(self)@.contains_key(id as int),
            final(self)@ == old(self)@.insert(id as int, v),
            id < final(self).capacity(),
            final(self).capacity() >= old(self).capacity(),
    {
        let ghost pre = self.slots@;
        let mut i: usize = 0;
        while i < self.slots.len()
            invariant
                pre == old(self).slots@,
                self.slots@ == pre,
                i <= pre.len(),
                forall|j: int| 0 <= j < i ==> pre[j] is Some,
            decreases pre.len() - i,
        {
            if self.slots[i].is_none() {
                self.slots.push(Some(v));
                let _prev = self.slots.swap_remove(i);
                proof {
                    assert(self.slots@ =~= pre.update(i as int, Some(v)));
                    assert(self@ =~= old(self)@.insert(i as int, v));
                }
                return i;
            }
            i += 1;
        }
        let id = self.slots.len();
        self.slots.push(Some(v));
        proof {
            assert(self.slots@ =~= pre.push(Some(v)));
            assert(self@ =~= old(self)@.insert(id as int, v));
        }
        id
    }

    /// Removes and returns the entry under `id`, when one is live there.
    /// Safe for any identifier: an unknown one returns `None` and changes
    /// nothing.
    pub fn take(&mut self, id: usize) -> (r: Option<T>)
        ensures
            final(self)@ == old(self)@.remove(id as int),
            final(self).capacity() == old(self).capacity(),
            r matches Some(x) ==> old(self)@.contains_key(id as int) && x == old(self)@[id as int],
            r is None ==> !old(self)@.contains_key(id as int),
    {
        if id >= self.slots.len() {
            proof {
                assert(self@ =~= self@.remove(id as int));
            }
            return None;
        }
        self.slots.push(None);
        let r = self.slots.swap_remove(id);
        proof {
            assert(self.slots@ =~= old(self).slots@.update(id as int, None));
            assert(self@ =~= old(self)@.remove(id as int));
        }
        r
    }

    /// Stores `v` under the vacant identifier `id`.
    pub fn put(&mut self, id: usize, v: T)
        requires
            id < old(self).capacity(),
            !old(self)@.contains_key(id as int),
        ensures
            final(self)@ == old(self)@.insert(id as int, v),
            final(self).capacity() == old(self).capacity(),
    {
        self.slots.push(Some(v));
        let _prev = self.slots.swap_remove(id);
        proof {
            assert(self.slots@ =~= old(self).slots@.update(id as int, Some(v)));
            assert(self@ =~= old(self)@.insert(id as int, v));
        }
    }

    /// Grows the arena with vacant slots until at least `n` exist.
    pub fn reserve_to(&mut self, n: usize)
        ensures
            final(self)@ == old(self)@,
            final(self).capacity() >= n,
            final(self).capacity() >= old(self).capacity(),
    {
        while self.slots.len() < n
            invariant
                self@ == old(self)@,
                self.capacity() >= old(self).capacity(),
            decreases n - self.slots@.len(),
        {
            self.slots.push(None);
            proof {
                assert(self@ =~= old(self)@);
            }
        }
    }

    /// A live identifier always lies below the capacity.
    pub proof fn lemma_key_lt_capacity(&self, id: int)
        requires
            self@.contains_key(id),
        ensures
            0 <= id < self.capacity(),
    {
    }

    pub fn contains(&self, id: usize) -> (r: bool)
        ensures
            r == self@.contains_key(id as int),
    {
        id < self.slots.len() && self.slots[id].is_some()
    }

    pub fn get(&self, id: usize) -> (r: Option<&T>)
        ensures
            r matches Some(x) ==> self@.contains_key(id as int) && *x == self@[id as int],
            r is None ==> !self@.contains_key(id as int),
    {
        if id < self.slots.len() {
            self.slots[id].as_ref()
        } else {
            None
        }
    }

    /// The live identifiers, in increasing order, each exactly once.
    pub fn ids(&self) -> (r: Vec<usize>)
        ensures
            forall|j: int| 0 <= j < r@.len() ==> self@.contains_key(#[trigger] r@[j] as int),
            forall|k: int| self@.contains_key(k) ==> r@.contains(k as usize),
            forall|j1: int, j2: int| 0 <= j1 < j2 < r@.len() ==> r@[j1] < r@[j2],
    {
        let mut r: Vec<usize> = Vec::new();
        let mut i: usize = 0;
        while i < self.slots.len()
            invariant
                i <= self.slots@.len(),
                forall|j: int| 0 <= j < r@.len() ==> #[trigger] r@[j] < i,
                forall|j: int| 0 <= j < r@.len() ==> self@.contains_key(#[trigger] r@[j] as int),
                forall|k: int| 0 <= k < i && self@.contains_key(k) ==> r@.contains(k as usize),
                forall|j1: int, j2: int| 0 <= j1 < j2 < r@.len() ==> r@[j1] < r@[j2],
            decreases self.slots@.len() - i,
        {
            if self.slots[i].is_some() {
                let ghost r0 = r@;
                r.push(i);
                proof {
                    assert forall|k: int| 0 <= k < i + 1 && self@.contains_key(k) implies r@.contains(
                        k as usize,
                    ) by {
                        if k == i as int {
                            assert(r@[r@.len() - 1] == i);
                        } else {
                            assert(r0.contains(k as usize));
                            let j = choose|j: int| 0 <= j < r0.len() && r0[j] == k as usize;
                            assert(r@[j] == k as usize);
                        }
                    }
                }
            } else {
                proof {
                    assert forall|k: int| 0 <= k < i + 1 && self@.contains_key(k) implies r@.contains(
                        k as usize,
                    ) by {
                        if k < i as int {
                            assert(r@.contains(k as usize));
                        }
                    }
                }
            }
            i += 1;
        }
        r
    }
}

} // verus!
