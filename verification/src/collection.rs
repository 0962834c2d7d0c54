//! Slot-indexed collections of item stacks.
//!
//! Two variants: a bounded collection whose length is fixed at construction,
//! with empty slots represented by air-filler stacks, and a growable one
//! that appends. Every structural change is recorded as an
//! [`ItemCollectionEvent`] in the collection's event log; the caller drains
//! the log with `take_events` and fans the events out to its listeners after
//! releasing any lock, so a slow observer never blocks a mutation.

use vstd::prelude::*;

use crate::item::{same_stack, Item, ItemStack};

verus! {

/// Why a collection operation failed.
#[derive(PartialEq, Eq, Structural, Clone, Copy, Debug)]
pub enum ItemCollectionError {
    /// The item collection is full and cannot accept any more items.
    Full,
    /// The item collection is empty and cannot remove any more items.
    Empty,
    /// The item collection does not contain the item.
    NotFound,
}

impl ItemCollectionError {
    /// A human-readable description of the failure.
    pub fn message(&self) -> (r: String)
        ensures
            self is Full ==> r@ == "Item collection is full"@,
            self is Empty ==> r@ == "Item collection is empty"@,
            self is NotFound ==> r@ == "Item not found in collection"@,
    {
        match self {
            ItemCollectionError::Full => "Item collection is full".to_owned(),
            ItemCollectionError::Empty => "Item collection is empty".to_owned(),
            ItemCollectionError::NotFound => "Item not found in collection".to_owned(),
        }
    }
}

/// One structural change, recorded at the point of mutation.
#[derive(Debug)]
pub enum ItemCollectionEvent {
    Add { index: usize, item: ItemStack },
    Remove { index: usize, item: ItemStack },
    Clear,
    ManualRefresh,
}

/// The air-filler stack marking an empty slot.
pub open spec fn air_slot() -> ItemStack {
    ItemStack { item: Item::Air, count: 1 }
}

/// Build one air-filler stack.
pub fn new_air_slot() -> (r: ItemStack)
    ensures
        r == air_slot(),
{
    ItemStack { item: Item::Air, count: 1 }
}

/// Whether some slot holds air.
pub open spec fn has_air(s: Seq<ItemStack>) -> bool {
    exists|i: int| 0 <= i < s.len() && (#[trigger] s[i]).is_air_spec()
}

/// The first air-holding slot, or the length if none holds air.
pub open spec fn first_air_index(s: Seq<ItemStack>) -> int
    decreases s.len(),
{
    if s.len() == 0 {
        0
    } else if s.first().is_air_spec() {
        0
    } else {
        1 + first_air_index(s.drop_first())
    }
}

/// `first_air_index` really is the first air slot: everything before it is
/// occupied, and it is in range exactly when some slot holds air.
pub proof fn lemma_first_air(s: Seq<ItemStack>)
    ensures
        0 <= first_air_index(s) <= s.len(),
        has_air(s) <==> first_air_index(s) < s.len(),
        first_air_index(s) < s.len() ==> s[first_air_index(s)].is_air_spec(),
        forall|j: int| 0 <= j < first_air_index(s) ==> !(#[trigger] s[j]).is_air_spec(),
    decreases s.len(),
{
    if s.len() > 0 {
        let t = s.drop_first();
        lemma_first_air(t);
        assert(s.first() == s[0]);
        if s.first().is_air_spec() {
            assert(has_air(s));
        } else {
            let idx = first_air_index(s);
            assert(idx == 1 + first_air_index(t));
            assert forall|j: int| 0 <= j < idx implies !(#[trigger] s[j]).is_air_spec() by {
                if j > 0 {
                    assert(t[j - 1] == s[j]);
                }
            }
            if has_air(s) {
                let i = choose|i: int| 0 <= i < s.len() && (#[trigger] s[i]).is_air_spec();
                assert(i != 0);
                assert(t[i - 1] == s[i]);
                assert(has_air(t));
            }
            if has_air(t) {
                let i = choose|i: int| 0 <= i < t.len() && (#[trigger] t[i]).is_air_spec();
                assert(s[i + 1] == t[i]);
                assert(has_air(s));
            }
            if idx < s.len() {
                assert(t[idx - 1] == s[idx]);
            }
        }
    }
}

/// Find the first air slot of a vector, if any.
fn find_first_air(items: &Vec<ItemStack>) -> (r: Option<usize>)
    ensures
        r matches Some(i) ==> i as int == first_air_index(items@) && (i as int) < items@.len(),
        r is None ==> !has_air(items@),
{
    proof {
        lemma_first_air(items@);
    }
    let mut i: usize = 0;
    while i < items.len()
        invariant
            0 <= i <= items.len(),
            forall|j: int| 0 <= j < i ==> !(#[trigger] items@[j]).is_air_spec(),
        decreases items.len() - i,
    {
        if items[i].is_air() {
            proof {
                // i is the first air slot, so it matches the spec index.
                lemma_first_air(items@);
                let idx = first_air_index(items@);
                if idx < i as int {
                    assert(items@[idx].is_air_spec());
                }
                if (i as int) < idx {
                    assert(!items@[i as int].is_air_spec());
                }
            }
            return Some(i);
        }
        i = i + 1;
    }
    proof {
        if has_air(items@) {
            let k = choose|k: int| 0 <= k < items@.len() && (#[trigger] items@[k]).is_air_spec();
            assert(!items@[k].is_air_spec());
        }
    }
    None
}

/// Shared slot read: `NotFound` when the index is out of range or the slot
/// holds air; air is a true absence marker, never a valid result.
fn slot_get(items: &Vec<ItemStack>, index: usize) -> (r: Result<&ItemStack, ItemCollectionError>)
    ensures
        r is Ok <==> (index as int) < items@.len() && !items@[index as int].is_air_spec(),
        r matches Ok(s) ==> *s == items@[index as int],
        r is Err ==> r == Err::<&ItemStack, ItemCollectionError>(ItemCollectionError::NotFound),
{
    if index < items.len() {
        let s = &items[index];
        if s.is_air() {
            Err(ItemCollectionError::NotFound)
        } else {
            Ok(s)
        }
    } else {
        Err(ItemCollectionError::NotFound)
    }
}

/// Shared in-place slot write, with the same `NotFound` condition as a read;
/// records no event — the caller follows up with a manual refresh.
fn slot_set(items: &mut Vec<ItemStack>, index: usize, stack: ItemStack) -> (r: Result<
    (),
    ItemCollectionError,
>)
    ensures
        r is Ok <==> (index as int) < old(items)@.len() && !old(items)@[index as int].is_air_spec(),
        r is Ok ==> final(items)@ == old(items)@.update(index as int, stack),
        r is Err ==> final(items)@ == old(items)@ && r == Err::<(), ItemCollectionError>(
            ItemCollectionError::NotFound,
        ),
{
    if index < items.len() {
        let occupied = !items[index].is_air();
        if occupied {
            items.set(index, stack);
            Ok(())
        } else {
            Err(ItemCollectionError::NotFound)
        }
    } else {
        Err(ItemCollectionError::NotFound)
    }
}

/// Shared slot removal: an occupied slot is swapped for a fresh air stack,
/// the removed stack is returned, and a `Remove` event is recorded.
fn slot_remove(
    items: &mut Vec<ItemStack>,
    events: &mut Vec<ItemCollectionEvent>,
    index: usize,
) -> (r: Result<ItemStack, ItemCollectionError>)
    ensures
        r is Ok <==> (index as int) < old(items)@.len() && !old(items)@[index as int].is_air_spec(),
        r matches Ok(st) ==> st == old(items)@[index as int] && final(items)@ == old(items)@.update(index as int, air_slot()) && final(events)@.len() == old(events)@.len() + 1 && final(events)@.drop_last() == old(events)@ && (final(events)@.last() matches ItemCollectionEvent::Remove {
            index: i,
            item,
        } && i == index && same_stack(item, st)),
        r is Err ==> final(items)@ == old(items)@ && final(events)@ == old(events)@ && r == Err::<
            ItemStack,
            ItemCollectionError,
        >(ItemCollectionError::NotFound),
{
    if index < items.len() {
        let occupied = !items[index].is_air();
        if occupied {
            let mut slot = new_air_slot();
            items.set_and_swap(index, &mut slot);
            events.push(ItemCollectionEvent::Remove { index, item: slot.clone() });
            proof {
                assert(events@.drop_last() =~= old(events)@);
            }
            Ok(slot)
        } else {
            Err(ItemCollectionError::NotFound)
        }
    } else {
        Err(ItemCollectionError::NotFound)
    }
}

/// Drain an event log, leaving it empty.
fn drain_events(events: &mut Vec<ItemCollectionEvent>) -> (r: Vec<ItemCollectionEvent>)
    ensures
        r@ == old(events)@,
        final(events)@.len() == 0,
{
    let mut out: Vec<ItemCollectionEvent> = Vec::new();
    core::mem::swap(events, &mut out);
    out
}

/// A growable collection of item stacks.
#[derive(Debug)]
pub struct ItemCollectionUnsized {
    pub items: Vec<ItemStack>,
    pub events: Vec<ItemCollectionEvent>,
}

impl ItemCollectionUnsized {
    /// An empty collection with an empty event log.
    pub fn new() -> (r: ItemCollectionUnsized)
        ensures
            r.items@.len() == 0,
            r.events@.len() == 0,
    {
        ItemCollectionUnsized { items: Vec::new(), events: Vec::new() }
    }

    /// Append a stack; always succeeds. The recorded index is the slot the
    /// stack lands in.
    pub fn add_item(&mut self, item: ItemStack) -> (r: Result<(), ItemCollectionError>)
        ensures
            r is Ok,
            final(self).items@ == old(self).items@.push(item),
            final(self).events@.len() == old(self).events@.len() + 1,
            final(self).events@.drop_last() == old(self).events@,
            final(self).events@.last() matches ItemCollectionEvent::Add { index, item: it }
                && index as int == old(self).items@.len() && same_stack(it, item),
    {
        let index = self.items.len();
        self.events.push(ItemCollectionEvent::Add { index, item: item.clone() });
        self.items.push(item);
        proof {
            assert(self.events@.drop_last() =~= old(self).events@);
        }
        Ok(())
    }

    /// Read a slot; fails with `NotFound` when the index is out of range or
    /// the slot holds air.
    pub fn get_item(&self, index: usize) -> (r: Result<&ItemStack, ItemCollectionError>)
        ensures
            r is Ok <==> (index as int) < self.items@.len() && !self.items@[
                index as int
            ].is_air_spec(),
            r matches Ok(s) ==> *s == self.items@[index as int],
            r is Err ==> r == Err::<&ItemStack, ItemCollectionError>(
                ItemCollectionError::NotFound,
            ),
    {
        slot_get(&self.items, index)
    }

    /// Overwrite an occupied slot in place; fails with `NotFound` under the
    /// same condition as a read. Records no event: follow up with
    /// [`Self::refresh`].
    pub fn set_item(&mut self, index: usize, stack: ItemStack) -> (r: Result<
        (),
        ItemCollectionError,
    >)
        ensures
            r is Ok <==> (index as int) < old(self).items@.len() && !old(self).items@[
                index as int
            ].is_air_spec(),
            r is Ok ==> final(self).items@ == old(self).items@.update(index as int, stack),
            r is Err ==> final(self).items@ == old(self).items@ && r == Err::<
                (),
                ItemCollectionError,
            >(ItemCollectionError::NotFound),
            final(self).events@ == old(self).events@,
    {
        slot_set(&mut self.items, index, stack)
    }

    /// Remove the stack of an occupied slot, leaving air behind.
    pub fn remove_item(&mut self, index: usize) -> (r: Result<ItemStack, ItemCollectionError>)
        ensures
            r is Ok <==> (index as int) < old(self).items@.len() && !old(self).items@[
                index as int
            ].is_air_spec(),
            r matches Ok(st) ==> st == old(self).items@[index as int] && final(self).items@ == old(self).items@.update(index as int, air_slot()) && final(self).events@.len() == old(self).events@.len() + 1 && final(self).events@.drop_last() == old(self).events@ && (final(self).events@.last() matches ItemCollectionEvent::Remove { index: i, item } && i == index
                && same_stack(item, st)),
            r is Err ==> final(self).items@ == old(self).items@ && final(self).events@ == old(self).events@ && r == Err::<ItemStack, ItemCollectionError>(ItemCollectionError::NotFound),
    {
        slot_remove(&mut self.items, &mut self.events, index)
    }

    pub fn len(&self) -> (r: usize)
        ensures
            r == self.items@.len(),
    {
        self.items.len()
    }

    pub fn is_empty(&self) -> (r: bool)
        ensures
            r == (self.items@.len() == 0),
    {
        self.items.is_empty()
    }

    /// Drop every slot and record a `Clear` event.
    pub fn clear(&mut self)
        ensures
            final(self).items@.len() == 0,
            final(self).events@.len() == old(self).events@.len() + 1,
            final(self).events@.drop_last() == old(self).events@,
            final(self).events@.last() is Clear,
    {
        self.items.clear();
        self.events.push(ItemCollectionEvent::Clear);
        proof {
            assert(self.events@.drop_last() =~= old(self).events@);
        }
    }

    /// Record a manual-refresh notification; the contents never change.
    pub fn refresh(&mut self)
        ensures
            final(self).items@ == old(self).items@,
            final(self).events@.len() == old(self).events@.len() + 1,
            final(self).events@.drop_last() == old(self).events@,
            final(self).events@.last() is ManualRefresh,
    {
        self.events.push(ItemCollectionEvent::ManualRefresh);
        proof {
            assert(self.events@.drop_last() =~= old(self).events@);
        }
    }

    /// Hand the pending events out, emptying the log.
    pub fn take_events(&mut self) -> (r: Vec<ItemCollectionEvent>)
        ensures
            r@ == old(self).events@,
            final(self).events@.len() == 0,
            final(self).items@ == old(self).items@,
    {
        drain_events(&mut self.events)
    }

    /// Borrow the backing slots.
    pub fn get_items(&self) -> (r: &Vec<ItemStack>)
        ensures
            r == &self.items,
    {
        &self.items
    }
}

/// A bounded collection: the length is fixed at construction, and empty
/// slots hold air-filler stacks rather than being absent.
#[derive(Debug)]
pub struct ItemCollectionSized {
    pub items: Vec<ItemStack>,
    pub events: Vec<ItemCollectionEvent>,
    pub size: usize,
}

impl ItemCollectionSized {
    /// Well-formed: the slot count always equals the declared size.
    pub open spec fn wf(self) -> bool {
        self.items@.len() == self.size
    }

    /// A collection of `size` slots, all holding air.
    pub fn new(size: usize) -> (r: ItemCollectionSized)
        ensures
            r.wf(),
            r.size == size,
            forall|i: int| 0 <= i < size ==> #[trigger] r.items@[i] == air_slot(),
            r.events@.len() == 0,
    {
        let mut items: Vec<ItemStack> = Vec::new();
        let mut i: usize = 0;
        while i < size
            invariant
                0 <= i <= size,
                items@.len() == i,
                forall|j: int| 0 <= j < i ==> #[trigger] items@[j] == air_slot(),
            decreases size - i,
        {
            items.push(new_air_slot());
            i = i + 1;
        }
        ItemCollectionSized { items, events: Vec::new(), size }
    }

    /// The declared slot count.
    pub fn get_size(&self) -> (r: usize)
        ensures
            r == self.size,
    {
        self.size
    }

    /// Place a stack into the first air slot; fails with `Full` when no slot
    /// holds air.
    pub fn add_item(&mut self, item: ItemStack) -> (r: Result<(), ItemCollectionError>)
        requires
            old(self).wf(),
        ensures
            final(self).wf(),
            final(self).size == old(self).size,
            has_air(old(self).items@) <==> r is Ok,
            r is Ok ==> final(self).items@ == old(self).items@.update(
                first_air_index(old(self).items@),
                item,
            ) && final(self).events@.len() == old(self).events@.len() + 1 && final(self).events@.drop_last() == old(self).events@ && (final(self).events@.last()
                matches ItemCollectionEvent::Add { index, item: it } && index as int
                == first_air_index(old(self).items@) && same_stack(it, item)),
            r is Err ==> final(self).items@ == old(self).items@ && final(self).events@ == old(self).events@ && r == Err::<(), ItemCollectionError>(ItemCollectionError::Full),
    {
        proof {
            lemma_first_air(self.items@);
        }
        match find_first_air(&self.items) {
            Some(index) => {
                self.events.push(ItemCollectionEvent::Add { index, item: item.clone() });
                self.items.set(index, item);
                proof {
                    assert(self.events@.drop_last() =~= old(self).events@);
                }
                Ok(())
            },
            None => Err(ItemCollectionError::Full),
        }
    }

    /// Read a slot; fails with `NotFound` when the index is out of range or
    /// the slot holds air.
    pub fn get_item(&self, index: usize) -> (r: Result<&ItemStack, ItemCollectionError>)
        ensures
            r is Ok <==> (index as int) < self.items@.len() && !self.items@[
                index as int
            ].is_air_spec(),
            r matches Ok(s) ==> *s == self.items@[index as int],
            r is Err ==> r == Err::<&ItemStack, ItemCollectionError>(
                ItemCollectionError::NotFound,
            ),
    {
        slot_get(&self.items, index)
    }

    /// Overwrite an occupied slot in place; fails with `NotFound` under the
    /// same condition as a read. Records no event: follow up with
    /// [`Self::refresh`].
    pub fn set_item(&mut self, index: usize, stack: ItemStack) -> (r: Result<
        (),
        ItemCollectionError,
    >)
        requires
            old(self).wf(),
        ensures
            final(self).wf(),
            final(self).size == old(self).size,
            r is Ok <==> (index as int) < old(self).items@.len() && !old(self).items@[
                index as int
            ].is_air_spec(),
            r is Ok ==> final(self).items@ == old(self).items@.update(index as int, stack),
            r is Err ==> final(self).items@ == old(self).items@ && r == Err::<
                (),
                ItemCollectionError,
            >(ItemCollectionError::NotFound),
            final(self).events@ == old(self).events@,
    {
        slot_set(&mut self.items, index, stack)
    }

    /// Remove the stack of an occupied slot, leaving air behind; the length
    /// never changes.
    pub fn remove_item(&mut self, index: usize) -> (r: Result<ItemStack, ItemCollectionError>)
        requires
            old(self).wf(),
        ensures
            final(self).wf(),
            final(self).size == old(self).size,
            r is Ok <==> (index as int) < old(self).items@.len() && !old(self).items@[
                index as int
            ].is_air_spec(),
            r matches Ok(st) ==> st == old(self).items@[index as int] && final(self).items@ == old(self).items@.update(index as int, air_slot()) && final(self).events@.len() == old(self).events@.len() + 1 && final(self).events@.drop_last() == old(self).events@ && (final(self).events@.last() matches ItemCollectionEvent::Remove { index: i, item } && i == index
                && same_stack(item, st)),
            r is Err ==> final(self).items@ == old(self).items@ && final(self).events@ == old(self).events@ && r == Err::<ItemStack, ItemCollectionError>(ItemCollectionError::NotFound),
    {
        slot_remove(&mut self.items, &mut self.events, index)
    }

    pub fn len(&self) -> (r: usize)
        ensures
            r == self.items@.len(),
    {
        self.items.len()
    }

    pub fn is_empty(&self) -> (r: bool)
        ensures
            r == (self.items@.len() == 0),
    {
        self.items.is_empty()
    }

    /// Reset every slot to air, keeping the length, and record a `Clear`
    /// event.
    pub fn clear(&mut self)
        requires
            old(self).wf(),
        ensures
            final(self).wf(),
            final(self).size == old(self).size,
            final(self).items@.len() == old(self).items@.len(),
            forall|i: int|
                0 <= i < final(self).items@.len() ==> #[trigger] final(self).items@[i]
                    == air_slot(),
            final(self).events@.len() == old(self).events@.len() + 1,
            final(self).events@.drop_last() == old(self).events@,
            final(self).events@.last() is Clear,
    {
        let mut i: usize = 0;
        while i < self.items.len()
            invariant
                0 <= i <= self.items@.len(),
                self.items@.len() == old(self).items@.len(),
                self.size == old(self).size,
                self.events@ == old(self).events@,
                forall|j: int| 0 <= j < i ==> #[trigger] self.items@[j] == air_slot(),
                forall|j: int|
                    i <= j < self.items@.len() ==> #[trigger] self.items@[j] == old(self).items@[j],
            decreases self.items@.len() - i,
        {
            self.items.set(i, new_air_slot());
            i = i + 1;
        }
        self.events.push(ItemCollectionEvent::Clear);
        proof {
            assert(self.events@.drop_last() =~= old(self).events@);
        }
    }

    /// Record a manual-refresh notification; the contents never change.
    pub fn refresh(&mut self)
        ensures
            final(self).items@ == old(self).items@,
            final(self).size == old(self).size,
            final(self).events@.len() == old(self).events@.len() + 1,
            final(self).events@.drop_last() == old(self).events@,
            final(self).events@.last() is ManualRefresh,
    {
        self.events.push(ItemCollectionEvent::ManualRefresh);
        proof {
            assert(self.events@.drop_last() =~= old(self).events@);
        }
    }

    /// Hand the pending events out, emptying the log.
    pub fn take_events(&mut self) -> (r: Vec<ItemCollectionEvent>)
        ensures
            r@ == old(self).events@,
            final(self).events@.len() == 0,
            final(self).items@ == old(self).items@,
            final(self).size == old(self).size,
    {
        drain_events(&mut self.events)
    }

    /// Borrow the backing slots.
    pub fn get_items(&self) -> (r: &Vec<ItemStack>)
        ensures
            r == &self.items,
    {
        &self.items
    }
}

/// One manual refresh, seen as a relation between the collection before and
/// after: a `ManualRefresh` notification is appended and nothing else moves.
pub open spec fn refresh_step(a: ItemCollectionSized, b: ItemCollectionSized) -> bool {
    &&& b.items@ == a.items@
    &&& b.size == a.size
    &&& b.events@ == a.events@.push(ItemCollectionEvent::ManualRefresh)
}

/// Law: manual refreshes are idempotent on the observable state. Any two
/// consecutive refreshes leave the slots exactly as they were and only append
/// their two notifications to the log.
pub proof fn lemma_refresh_idempotent(
    c0: ItemCollectionSized,
    c1: ItemCollectionSized,
    c2: ItemCollectionSized,
)
    requires
        refresh_step(c0, c1),
        refresh_step(c1, c2),
    ensures
        c2.items@ == c0.items@,
        c2.size == c0.size,
        c2.events@ == c0.events@ + seq![
            ItemCollectionEvent::ManualRefresh,
            ItemCollectionEvent::ManualRefresh,
        ],
{
    assert(c2.events@ =~= c0.events@ + seq![
        ItemCollectionEvent::ManualRefresh,
        ItemCollectionEvent::ManualRefresh,
    ]);
}

} // verus!
