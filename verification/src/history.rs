//! A fixed-capacity, newest-first log.

use std::collections::VecDeque;
use vstd::prelude::*;

verus! {

/// What a log of capacity `capacity` holding `log` (newest first) holds after
/// `item` is pushed: the item in front of the old contents, cut to the capacity.
pub open spec fn pushed<T>(log: Seq<T>, capacity: nat, item: T) -> Seq<T> {
    let grown = seq![item] + log;
    if grown.len() <= capacity {
        grown
    } else {
        grown.take(capacity as int)
    }
}

/// What the log holds after the items of `items` are pushed one by one,
/// `items[0]` first.
pub open spec fn pushed_all<T>(log: Seq<T>, capacity: nat, items: Seq<T>) -> Seq<T>
    decreases items.len(),
{
    if items.len() == 0 {
        log
    } else {
        pushed(pushed_all(log, capacity, items.drop_last()), capacity, items.last())
    }
}

/// The last `capacity` items of `items` (all of them where there are fewer),
/// the last one first.
pub open spec fn newest_first<T>(items: Seq<T>, capacity: nat) -> Seq<T> {
    let kept = if items.len() <= capacity {
        items.len()
    } else {
        capacity
    };
    Seq::new(kept, |i: int| items[items.len() - 1 - i])
}

/// A log within its capacity stays within it, whatever is pushed.
pub proof fn lemma_pushed_is_bounded<T>(log: Seq<T>, capacity: nat, item: T)
    requires
        log.len() <= capacity,
    ensures
        pushed(log, capacity, item).len() <= capacity,
        capacity > 0 ==> pushed(log, capacity, item).len() > 0 && pushed(log, capacity, item)[0]
            == item,
{
}

/// Pushing onto a log that holds the most recent of `earlier` gives the most
/// recent of `earlier` followed by `items`.
pub proof fn lemma_pushed_all_extends<T>(earlier: Seq<T>, capacity: nat, items: Seq<T>)
    ensures
        pushed_all(newest_first(earlier, capacity), capacity, items) == newest_first(
            earlier + items,
            capacity,
        ),
    decreases items.len(),
{
    if items.len() == 0 {
        assert(earlier + items =~= earlier);
    } else {
        let front = items.drop_last();
        lemma_pushed_all_extends(earlier, capacity, front);
        assert(earlier + items =~= (earlier + front).push(items.last()));
        assert(pushed(newest_first(earlier + front, capacity), capacity, items.last())
            =~= newest_first((earlier + front).push(items.last()), capacity));
    }
}

/// After any number of pushes onto an empty log, the log holds exactly the
/// most recent items, newest first: all of them while they are no more than
/// the capacity, the last `capacity` of them after that.
pub proof fn lemma_history_keeps_most_recent<T>(capacity: nat, items: Seq<T>)
    ensures
        pushed_all(Seq::<T>::empty(), capacity, items) == newest_first(items, capacity),
        items.len() <= capacity ==> pushed_all(Seq::<T>::empty(), capacity, items)
            == items.reverse(),
        items.len() > capacity ==> pushed_all(Seq::<T>::empty(), capacity, items)
            == items.skip(items.len() - capacity).reverse(),
{
    lemma_pushed_all_extends(Seq::<T>::empty(), capacity, items);
    assert(newest_first(Seq::<T>::empty(), capacity) =~= Seq::<T>::empty());
    assert(Seq::<T>::empty() + items =~= items);
    if items.len() <= capacity {
        assert(newest_first(items, capacity) =~= items.reverse());
    } else {
        assert(newest_first(items, capacity) =~= items.skip(items.len() - capacity).reverse());
    }
}

/// A rotating buffer that keeps the most recent items, newest first.
pub struct RingBuffer<T> {
    items: VecDeque<T>,
    capacity: usize,
}

impl<T> View for RingBuffer<T> {
    type V = Seq<T>;

    closed spec fn view(&self) -> Seq<T> {
        self.items@
    }
}

impl<T> RingBuffer<T> {
    /// The number of items the buffer keeps at most.
    pub closed spec fn spec_capacity(&self) -> nat {
        self.capacity as nat
    }

    /// What holds of every buffer: it holds no more than its capacity.
    #[verifier::type_invariant]
    pub open spec fn bounded(&self) -> bool {
        self@.len() <= self.spec_capacity()
    }

    /// An empty buffer that keeps at most `capacity` items. Room is taken
    /// as items arrive, never for more than `capacity` of them at a time.
    pub fn with_capacity(capacity: usize) -> (buffer: Self)
        ensures
            buffer@ == Seq::<T>::empty(),
            buffer.spec_capacity() == capacity,
    {
        RingBuffer { items: VecDeque::new(), capacity }
    }

    /// The number of items the buffer keeps at most.
    pub fn capacity(&self) -> (capacity: usize)
        ensures
            capacity == self.spec_capacity(),
    {
        self.capacity
    }

    /// The number of items held, which never exceeds the capacity.
    pub fn len(&self) -> (len: usize)
        ensures
            len == self@.len(),
            len <= self.spec_capacity(),
    {
        proof {
            use_type_invariant(self);
        }
        self.items.len()
    }

    /// Puts `item` in front. A full buffer first drops its oldest item.
    pub fn push(&mut self, item: T)
        ensures
            final(self)@ == pushed(old(self)@, old(self).spec_capacity(), item),
            final(self).spec_capacity() == old(self).spec_capacity(),
    {
        proof {
            use_type_invariant(&*self);
        }
        if self.capacity == 0 {
            return;
        }
        // The deque is rearranged outside `self`, where the bound need not
        // hold between the two steps.
        let mut items: VecDeque<T> = VecDeque::new();
        core::mem::swap(&mut self.items, &mut items);
        if items.len() == self.capacity {
            items.pop_back();
        }
        items.push_front(item);
        core::mem::swap(&mut self.items, &mut items);
    }

    /// The item at position `index`, counted from the newest.
    pub fn get(&self, index: usize) -> (item: Option<&T>)
        ensures
            index < self@.len() ==> item == Some(&self@[index as int]),
            index >= self@.len() ==> item is None,
    {
        if index < self.items.len() {
            Some(&self.items[index])
        } else {
            None
        }
    }

    /// The items held, newest first.
    pub fn snapshot(&self) -> (items: Vec<&T>)
        ensures
            items@.len() == self@.len(),
            forall|i: int| 0 <= i < self@.len() ==> *items@[i] == self@[i],
    {
        let mut out: Vec<&T> = Vec::new();
        let mut i: usize = 0;
        while i < self.items.len()
            invariant
                i <= self.items@.len(),
                out@.len() == i,
                forall|j: int| 0 <= j < i ==> *out@[j] == self.items@[j],
            decreases self.items@.len() - i,
        {
            out.push(&self.items[i]);
            i += 1;
        }
        out
    }
}

impl<T> Default for RingBuffer<T> {
    /// An empty buffer for ten items.
    fn default() -> (buffer: Self)
        ensures
            buffer@ == Seq::<T>::empty(),
            buffer.spec_capacity() == 10,
    {
        RingBuffer::with_capacity(10)
    }
}

} // verus!
