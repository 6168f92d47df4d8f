//! The channel table: a fixed number of slots, each holding one channel's
//! data. A slot's number is the channel id this client advertises.
use vstd::prelude::*;

verus! {

/// How many channels can be open at once.
pub const REGISTRY_CAPACITY: usize = 64;

pub struct ChannelRegistry<T> {
    slots: Vec<Option<T>>,
}

impl<T> ChannelRegistry<T> {
    /// The occupied slots and what they hold.
    pub closed spec fn view(&self) -> Map<u32, T> {
        Map::new(
            |k: u32| k < self.slots@.len() && self.slots@[k as int] is Some,
            |k: u32| self.slots@[k as int]->Some_0,
        )
    }

    pub closed spec fn wf(&self) -> bool {
        self.slots@.len() == REGISTRY_CAPACITY
    }

    /// An empty table.
    pub fn new() -> (r: ChannelRegistry<T>)
        ensures
            r.wf(),
            r.view() == Map::<u32, T>::empty(),
    {
        let mut slots: Vec<Option<T>> = Vec::new();
        let mut i: usize = 0;
        while i < REGISTRY_CAPACITY
            invariant
                i <= REGISTRY_CAPACITY,
                slots@.len() == i,
                forall|j: int| 0 <= j < i ==> slots@[j] is None,
            decreases REGISTRY_CAPACITY - i,
        {
            slots.push(None);
            i += 1;
        }
        let r = ChannelRegistry { slots };
        assert(r.view() =~= Map::<u32, T>::empty());
        r
    }

    /// Puts `value` in the lowest free slot and returns its number; gives
    /// `value` back when every slot is taken.
    pub fn insert(&mut self, value: T) -> (r: Result<u32, T>)
        requires
            old(self).wf(),
        ensures
            final(self).wf(),
            match r {
                Ok(slot) => {
                    &&& (slot as int) < REGISTRY_CAPACITY
                    &&& !old(self).view().contains_key(slot)
                    &&& forall|k: u32| k < slot ==> old(self).view().contains_key(k)
                    &&& final(self).view() == old(self).view().insert(slot, value)
                },
                Err(v) => {
                    &&& v == value
                    &&& final(self).view() == old(self).view()
                    &&& forall|k: u32| (k as int) < REGISTRY_CAPACITY ==> old(self).view().contains_key(k)
                },
            },
    {
        let mut i: usize = 0;
        while i < self.slots.len()
            invariant
                self.wf(),
                self.slots@ == old(self).slots@,
                i <= self.slots@.len(),
                forall|j: int| 0 <= j < i ==> self.slots@[j] is Some,
            decreases self.slots@.len() - i,
        {
            if self.slots[i].is_none() {
                let ghost before = self.view();
                self.slots.set(i, Some(value));
                assert(self.view() =~= before.insert(i as u32, value));
                return Ok(i as u32);
            }
            i += 1;
        }
        Err(value)
    }

    /// What slot `slot` holds, if anything.
    pub fn get(&self, slot: u32) -> (r: Option<&T>)
        requires
            self.wf(),
        ensures
            match r {
                Some(v) => self.view().contains_key(slot) && *v == self.view()[slot],
                None => !self.view().contains_key(slot),
            },
    {
        if (slot as usize) < self.slots.len() {
            match &self.slots[slot as usize] {
                Some(v) => Some(v),
                None => None,
            }
        } else {
            None
        }
    }

    /// Empties slot `slot` and returns what it held. The slot is free for
    /// later inserts.
    pub fn remove(&mut self, slot: u32) -> (r: Option<T>)
        requires
            old(self).wf(),
        ensures
            final(self).wf(),
            final(self).view() == old(self).view().remove(slot),
            r is Some ==> (slot as int) < REGISTRY_CAPACITY,
            match r {
                Some(v) => old(self).view().contains_key(slot) && v == old(self).view()[slot],
                None => !old(self).view().contains_key(slot),
            },
    {
        if (slot as usize) < self.slots.len() {
            let mut taken: Option<T> = None;
            let ghost before = self.view();
            self.slots.set_and_swap(slot as usize, &mut taken);
            assert(self.view() =~= before.remove(slot));
            taken
        } else {
            assert(self.view() =~= old(self).view().remove(slot));
            None
        }
    }

    /// Puts `value` back in the free slot `slot`.
    pub fn put_back(&mut self, slot: u32, value: T)
        requires
            old(self).wf(),
            (slot as int) < REGISTRY_CAPACITY,
            !old(self).view().contains_key(slot),
        ensures
            final(self).wf(),
            final(self).view() == old(self).view().insert(slot, value),
    {
        let ghost before = self.view();
        self.slots.set(slot as usize, Some(value));
        assert(self.view() =~= before.insert(slot, value));
    }
}

/// Slot reuse: once a slot is removed, looking it up finds nothing, and
/// the next insert takes it again when every lower slot is in use.
pub proof fn lemma_slot_reuse<T>(before: Map<u32, T>, slot: u32)
    requires
        (slot as int) < REGISTRY_CAPACITY,
        forall|k: u32| k < slot ==> before.contains_key(k),
    ensures
        !before.remove(slot).contains_key(slot),
        forall|k: u32| k < slot ==> #[trigger] before.remove(slot).contains_key(k),
{
}

} // verus!
