use ink_prelude::vec::Vec;
use vstd::prelude::*;

verus! {

/// What a [`Stash`] holds: the stored items by id, the ids that were given back and
/// not handed out again yet, oldest first, and how many ids were ever handed out.
#[verifier::ext_equal]
pub struct StashView<T> {
    pub items: Map<u32, T>,
    pub vacant: Seq<u32>,
    pub slots: nat,
}

impl<T> StashView<T> {
    /// The ids below `slots` are either in use or vacant, never both.
    pub open spec fn inv(self) -> bool {
        &&& self.slots <= u32::MAX
        &&& self.vacant.no_duplicates()
        &&& forall|i: int| 0 <= i < self.vacant.len() ==> #[trigger] self.vacant[i] < self.slots
        &&& forall|id: u32|
            #![trigger self.items.contains_key(id)]
            #![trigger self.vacant.contains(id)]
            self.items.contains_key(id) <==> id < self.slots && !self.vacant.contains(id)
        &&& self.items.dom().finite()
        &&& self.items.len() + self.vacant.len() == self.slots
    }

    /// No id is left to hand out.
    pub open spec fn is_full(self) -> bool {
        self.vacant.len() == 0 && self.slots >= u32::MAX
    }

    /// The id that the next item gets: the one given back last, else a fresh one.
    pub open spec fn next_id(self) -> u32 {
        if self.vacant.len() == 0 {
            self.slots as u32
        } else {
            self.vacant.last()
        }
    }

    pub open spec fn put(self, item: T) -> Self {
        StashView {
            items: self.items.insert(self.next_id(), item),
            vacant: if self.vacant.len() == 0 { self.vacant } else { self.vacant.drop_last() },
            slots: if self.vacant.len() == 0 { self.slots + 1 } else { self.slots },
        }
    }

    /// Without the item stored under `id`; nothing changes where there is none.
    pub open spec fn take(self, id: u32) -> Self {
        if self.items.contains_key(id) {
            StashView {
                items: self.items.remove(id),
                vacant: self.vacant.push(id),
                slots: self.slots,
            }
        } else {
            self
        }
    }

    /// Storing an item keeps the ids consistent and uses an id that was not in use.
    pub proof fn lemma_put(self, item: T)
        requires
            self.inv(),
            !self.is_full(),
        ensures
            self.put(item).inv(),
            !self.items.contains_key(self.next_id()),
    {
        let after = self.put(item);
        if self.vacant.len() == 0 {
            assert forall|id: u32| after.items.contains_key(id) <==> id < after.slots
                && !after.vacant.contains(id) by {
                assert(self.items.contains_key(id) <==> id < self.slots);
            }
        } else {
            let id = self.vacant.last();
            assert(self.vacant[self.vacant.len() - 1] == id);
            assert(self.vacant.contains(id));
            assert forall|other: u32| after.vacant.contains(other) <==> other != id
                && self.vacant.contains(other) by {
                if self.vacant.contains(other) && other != id {
                    let i = self.vacant.index_of(other);
                    assert(after.vacant[i] == other);
                }
            }
        }
    }

    /// Taking an item out keeps the ids consistent.
    pub proof fn lemma_take(self, id: u32)
        requires
            self.inv(),
        ensures
            self.take(id).inv(),
    {
        if self.items.contains_key(id) {
            let after = self.take(id);
            assert forall|other: u32| after.vacant.contains(other) <==> other == id
                || self.vacant.contains(other) by {
                assert(after.vacant[self.vacant.len() as int] == id);
                if self.vacant.contains(other) {
                    let i = self.vacant.index_of(other);
                    assert(after.vacant[i] == other);
                }
            }
        }
    }
}

/// A store that gives each item an id which stays the same until the item is taken out.
pub struct Stash<T> {
    entries: Vec<Option<T>>,
    vacant: Vec<u32>,
}

impl<T> View for Stash<T> {
    type V = StashView<T>;

    closed spec fn view(&self) -> StashView<T> {
        StashView {
            items: Map::new(
                |id: u32| id < self.entries@.len() && self.entries@[id as int] is Some,
                |id: u32| self.entries@[id as int]->0,
            ),
            vacant: self.vacant@,
            slots: self.entries@.len(),
        }
    }
}

impl<T> Stash<T> {
    pub fn new() -> (stash: Self)
        ensures
            stash@.inv(),
            stash@.items == Map::<u32, T>::empty(),
            stash@.vacant == Seq::<u32>::empty(),
            stash@.slots == 0,
    {
        let stash = Stash { entries: Vec::new(), vacant: Vec::new() };
        assert(stash@.items =~= Map::<u32, T>::empty());
        stash
    }

    /// How many items are stored.
    pub fn len(&self) -> (n: u32)
        requires
            self@.inv(),
        ensures
            n == self@.items.len(),
    {
        (self.entries.len() - self.vacant.len()) as u32
    }

    /// How many ids were ever handed out; every id in use is below it.
    pub fn slots(&self) -> (n: u32)
        requires
            self@.inv(),
        ensures
            n == self@.slots,
    {
        self.entries.len() as u32
    }

    /// Whether an id is left to hand out.
    pub fn is_full(&self) -> (full: bool)
        requires
            self@.inv(),
        ensures
            full == self@.is_full(),
            full <==> self@.vacant.len() == 0 && self@.slots == u32::MAX,
    {
        self.vacant.len() == 0 && self.entries.len() >= u32::MAX as usize
    }

    pub fn get(&self, id: u32) -> (item: Option<&T>)
        ensures
            item is Some <==> self@.items.contains_key(id),
            item is Some ==> *item->0 == self@.items[id],
    {
        if (id as usize) < self.entries.len() {
            self.entries[id as usize].as_ref()
        } else {
            None
        }
    }

    /// Stores `item` and returns its id.
    pub fn put(&mut self, item: T) -> (id: u32)
        requires
            old(self)@.inv(),
            !old(self)@.is_full(),
        ensures
            final(self)@.inv(),
            id == old(self)@.next_id(),
            !old(self)@.items.contains_key(id),
            final(self)@ == old(self)@.put(item),
            final(self)@.items == old(self)@.items.insert(id, item),
            old(self)@.vacant.len() == 0 ==> {
                &&& id == old(self)@.slots
                &&& final(self)@.slots == old(self)@.slots + 1
                &&& final(self)@.vacant.len() == 0
            },
            old(self)@.vacant.len() > 0 ==> {
                &&& final(self)@.slots == old(self)@.slots
                &&& final(self)@.vacant.push(id) == old(self)@.vacant
            },
    {
        proof {
            self@.lemma_put(item);
        }
        let ghost before = self@;
        let id: u32 = match self.vacant.pop() {
            Some(id) => {
                self.entries[id as usize] = Some(item);
                id
            },
            None => {
                let id: u32 = self.entries.len() as u32;
                self.entries.push(Some(item));
                id
            },
        };
        assert(self@ =~= before.put(item));
        assert(before.vacant.len() > 0 ==> self@.vacant.push(id) =~= before.vacant);
        id
    }

    /// Takes the item stored under `id` out of the stash.
    pub fn take(&mut self, id: u32) -> (item: Option<T>)
        requires
            old(self)@.inv(),
        ensures
            final(self)@.inv(),
            item is Some <==> old(self)@.items.contains_key(id),
            item is Some ==> item->0 == old(self)@.items[id],
            final(self)@ == old(self)@.take(id),
            final(self)@.slots == old(self)@.slots,
            item is Some ==> {
                &&& final(self)@.items == old(self)@.items.remove(id)
                &&& final(self)@.vacant == old(self)@.vacant.push(id)
            },
            item is None ==> final(self)@ == old(self)@,
    {
        proof {
            self@.lemma_take(id);
        }
        let ghost before = self@;
        if (id as usize) < self.entries.len() {
            let item = self.entries[id as usize].take();
            if item.is_some() {
                self.vacant.push(id);
            }
            assert(self@ =~= before.take(id));
            item
        } else {
            None
        }
    }
}

} // verus!
