//! A key-addressed arena: records stored under their addresses, each address
//! allocated at most once and never freed.

use vstd::prelude::*;
use crate::address::Address;

verus! {

/// Records of one kind, each under its own address.
pub struct Arena<T> {
    addresses: Vec<Address>,
    records: Vec<T>,
}

impl<T: View> View for Arena<T> {
    type V = Map<Seq<u8>, T::V>;

    /// The records by address.
    closed spec fn view(&self) -> Map<Seq<u8>, T::V> {
        Map::new(|a: Seq<u8>| self.slotted(a), |a: Seq<u8>| self.records[self.slot(a)]@)
    }
}

impl<T: View> Arena<T> {
    /// No address stands in two slots.
    pub closed spec fn wf(&self) -> bool {
        &&& self.addresses.len() == self.records.len()
        &&& forall|i: int, j: int|
            0 <= i < j < self.addresses.len() ==> self.addresses[i]@ != self.addresses[j]@
    }

    spec fn slotted(&self, a: Seq<u8>) -> bool {
        exists|i: int| 0 <= i < self.addresses.len() && #[trigger] self.addresses[i]@ == a
    }

    spec fn slot(&self, a: Seq<u8>) -> int {
        choose|i: int| 0 <= i < self.addresses.len() && #[trigger] self.addresses[i]@ == a
    }

    proof fn lemma_slot(&self, i: int)
        requires
            self.wf(),
            0 <= i < self.addresses.len(),
        ensures
            self.slotted(self.addresses[i]@),
            self.slot(self.addresses[i]@) == i,
            self@.dom().contains(self.addresses[i]@),
            self@[self.addresses[i]@] == self.records[i]@,
    {
        let a = self.addresses[i]@;
        assert(self.addresses[i]@ == a);
        let j = self.slot(a);
        assert(0 <= j < self.addresses.len() && self.addresses[j]@ == a);
        if j < i {
            assert(self.addresses[j]@ != self.addresses[i]@);
        }
        if i < j {
            assert(self.addresses[i]@ != self.addresses[j]@);
        }
    }

    /// An arena that holds nothing.
    pub fn new() -> (arena: Arena<T>)
        ensures
            arena.wf(),
            arena@ == Map::<Seq<u8>, T::V>::empty(),
    {
        let arena = Arena { addresses: Vec::new(), records: Vec::new() };
        assert(arena@ =~= Map::<Seq<u8>, T::V>::empty());
        arena
    }

    fn find(&self, address: &Address) -> (r: Option<usize>)
        requires
            self.wf(),
        ensures
            match r {
                Some(i) => i < self.addresses.len() && self.addresses[i as int]@ == address@,
                None => !self.slotted(address@),
            },
    {
        let mut i: usize = 0;
        while i < self.addresses.len()
            invariant
                i <= self.addresses.len(),
                forall|j: int| 0 <= j < i ==> self.addresses[j]@ != address@,
            decreases self.addresses.len() - i,
        {
            if self.addresses[i].same(address) {
                return Some(i);
            }
            i += 1;
        }
        None
    }

    /// Whether a record stands under `address`.
    pub fn contains(&self, address: &Address) -> (r: bool)
        requires
            self.wf(),
        ensures
            r == self@.dom().contains(address@),
    {
        match self.find(address) {
            Some(i) => {
                proof {
                    self.lemma_slot(i as int);
                }
                true
            },
            None => false,
        }
    }

    /// The record under `address`, if there is one.
    pub fn get(&self, address: &Address) -> (r: Option<&T>)
        requires
            self.wf(),
        ensures
            match r {
                Some(record) => self@.dom().contains(address@) && record@ == self@[address@],
                None => !self@.dom().contains(address@),
            },
    {
        match self.find(address) {
            Some(i) => {
                proof {
                    self.lemma_slot(i as int);
                }
                Some(&self.records[i])
            },
            None => None,
        }
    }

    /// Allocates `address` for `record` if nothing stands there yet.
    pub fn allocate(&mut self, address: Address, record: T) -> (r: bool)
        requires
            old(self).wf(),
        ensures
            final(self).wf(),
            r == !old(self)@.dom().contains(address@),
            r ==> final(self)@ == old(self)@.insert(address@, record@),
            !r ==> final(self)@ == old(self)@,
    {
        match self.find(&address) {
            Some(i) => {
                proof {
                    self.lemma_slot(i as int);
                }
                false
            },
            None => {
                let ghost before = *self;
                let ghost a = address@;
                let ghost n = self.addresses.len() as int;
                self.addresses.push(address);
                self.records.push(record);
                proof {
                    assert(self.wf());
                    self.lemma_slot(n);
                    assert forall|k: Seq<u8>| self@.dom().contains(k) <==> before@.insert(
                        a,
                        record@,
                    ).dom().contains(k) by {
                        if before.slotted(k) {
                            let j = before.slot(k);
                            assert(self.addresses[j]@ == k);
                        }
                        if self.slotted(k) && k != a {
                            let j = self.slot(k);
                            assert(before.addresses[j]@ == k);
                        }
                    }
                    assert forall|k: Seq<u8>| self@.dom().contains(k) implies self@[k]
                        == before@.insert(a, record@)[k] by {
                        if k != a {
                            let j = before.slot(k);
                            assert(before.addresses[j]@ == k);
                            before.lemma_slot(j);
                            self.lemma_slot(j);
                        }
                    }
                    assert(self@ =~= before@.insert(a, record@));
                }
                true
            },
        }
    }

    /// Puts `record` in place of the record under `address`.
    pub fn replace(&mut self, address: &Address, record: T)
        requires
            old(self).wf(),
            old(self)@.dom().contains(address@),
        ensures
            final(self).wf(),
            final(self)@ == old(self)@.insert(address@, record@),
    {
        match self.find(address) {
            Some(i) => {
                let ghost before = *self;
                let ghost a = address@;
                self.records.set(i, record);
                proof {
                    assert(self.wf());
                    self.lemma_slot(i as int);
                    assert forall|k: Seq<u8>| self@.dom().contains(k) <==> before@.insert(
                        a,
                        record@,
                    ).dom().contains(k) by {
                        if before.slotted(k) {
                            let j = before.slot(k);
                            assert(self.addresses[j]@ == k);
                        }
                        if self.slotted(k) {
                            let j = self.slot(k);
                            assert(before.addresses[j]@ == k);
                        }
                    }
                    assert forall|k: Seq<u8>| self@.dom().contains(k) implies self@[k]
                        == before@.insert(a, record@)[k] by {
                        if k != a {
                            let j = before.slot(k);
                            assert(before.addresses[j]@ == k);
                            before.lemma_slot(j);
                            self.lemma_slot(j);
                        }
                    }
                    assert(self@ =~= before@.insert(a, record@));
                }
            },
            None => {
                assert(false);
            },
        }
    }
}

} // verus!
