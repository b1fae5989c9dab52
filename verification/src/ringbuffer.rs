//! A ring buffer that presents a table of slots and a pair of bounds as a
//! first-in, first-out queue.
//!
//! The queue is kept in two forms. [`RingBuffer`] is the form at rest: the
//! slots and the bounds that were last committed. [`RingBufferTransient`] is
//! the form in use: it is opened on a buffer at rest, pushed to and popped
//! from, and closed again, which commits the bounds it has moved. Between
//! opening and closing, the bounds at rest stay as they are until they are
//! committed; pushes and pops move only the bounds in use.
//!
//! A queue over `BufferIndex` holds at most 255 items. A push onto a full
//! queue drops the oldest item.

use crate::table::Table;
use crate::utilities::BufferIndex;
use vstd::prelude::*;

verus! {

/// The ring buffer as a queue.
pub trait RingBufferTrait<Item> {
    /// The items in the queue, oldest first.
    spec fn queue(&self) -> Seq<Item>;

    /// The largest number of items the queue holds.
    spec fn capacity(&self) -> nat;

    /// Whether the bounds at rest are those in use.
    spec fn is_committed(&self) -> bool;

    /// Stores the bounds in use as the bounds at rest.
    fn commit(&mut self)
        ensures
            final(self).queue() == old(self).queue(),
            final(self).capacity() == old(self).capacity(),
            final(self).is_committed(),
    ;

    /// Pushes an item onto the end of the queue. A full queue loses its
    /// oldest item to make room.
    fn push(&mut self, i: Item)
        ensures
            final(self).capacity() == old(self).capacity(),
            final(self).queue() == if old(self).queue().len() < old(self).capacity() {
                old(self).queue().push(i)
            } else {
                old(self).queue().skip(1).push(i)
            },
    ;

    /// Pops the oldest item from the queue, or returns `None` if the queue
    /// is empty.
    fn pop(&mut self) -> (r: Option<Item>)
        ensures
            final(self).capacity() == old(self).capacity(),
            old(self).queue().len() == 0 ==> r.is_none()
                && final(self).queue() == old(self).queue(),
            old(self).queue().len() > 0 ==> r == Some(old(self).queue()[0])
                && final(self).queue() == old(self).queue().skip(1),
    ;

    /// Whether the queue is empty.
    fn is_empty(&self) -> (r: bool)
        ensures
            r == (self.queue().len() == 0),
    ;
}

/// Addition and subtraction that wrap around at the type's bound.
pub trait WrappingOps: Sized {
    /// How many values the type has.
    spec fn modulus() -> nat;

    /// The value as a natural number.
    spec fn value(self) -> nat;

    /// `self + rhs`, wrapped around.
    fn wrapping_add(self, rhs: Self) -> (r: Self)
        ensures
            r.value() == (self.value() + rhs.value()) % Self::modulus(),
    ;

    /// `self - rhs`, wrapped around.
    fn wrapping_sub(self, rhs: Self) -> (r: Self)
        ensures
            r.value() == (self.value() + Self::modulus() - rhs.value()) % (
            Self::modulus() as int),
    ;
}

impl WrappingOps for u8 {
    open spec fn modulus() -> nat {
        0x100
    }

    open spec fn value(self) -> nat {
        self as nat
    }

    fn wrapping_add(self, rhs: Self) -> (r: Self) {
        self.wrapping_add(rhs)
    }

    fn wrapping_sub(self, rhs: Self) -> (r: Self) {
        self.wrapping_sub(rhs)
    }
}

impl WrappingOps for u16 {
    open spec fn modulus() -> nat {
        0x1_0000
    }

    open spec fn value(self) -> nat {
        self as nat
    }

    fn wrapping_add(self, rhs: Self) -> (r: Self) {
        self.wrapping_add(rhs)
    }

    fn wrapping_sub(self, rhs: Self) -> (r: Self) {
        self.wrapping_sub(rhs)
    }
}

impl WrappingOps for u32 {
    open spec fn modulus() -> nat {
        0x1_0000_0000
    }

    open spec fn value(self) -> nat {
        self as nat
    }

    fn wrapping_add(self, rhs: Self) -> (r: Self) {
        self.wrapping_add(rhs)
    }

    fn wrapping_sub(self, rhs: Self) -> (r: Self) {
        self.wrapping_sub(rhs)
    }
}

impl WrappingOps for u64 {
    open spec fn modulus() -> nat {
        0x1_0000_0000_0000_0000
    }

    open spec fn value(self) -> nat {
        self as nat
    }

    fn wrapping_add(self, rhs: Self) -> (r: Self) {
        self.wrapping_add(rhs)
    }

    fn wrapping_sub(self, rhs: Self) -> (r: Self) {
        self.wrapping_sub(rhs)
    }
}

/// How many items lie between the bounds `start` and `end`.
pub open spec fn live(start: BufferIndex, end: BufferIndex) -> nat {
    if end >= start {
        (end - start) as nat
    } else {
        (end + 0x100 - start) as nat
    }
}

/// The index `offset` places after `start`, wrapped around.
pub open spec fn slot(start: BufferIndex, offset: int) -> BufferIndex {
    ((start + offset) % 0x100) as BufferIndex
}

/// A ring buffer as a mathematical value: what the slots hold, and the
/// bounds, which are the index of the oldest item and the index one past the
/// newest.
pub struct Ring<Item> {
    pub slots: Map<BufferIndex, Item>,
    pub bounds: (BufferIndex, BufferIndex),
}

impl<Item> Ring<Item> {
    /// The ring with no slot written and both bounds at 0.
    pub open spec fn empty() -> Ring<Item> {
        Ring { slots: Map::empty(), bounds: (0, 0) }
    }

    /// The slots between the bounds all hold an item.
    pub open spec fn filled(self) -> bool {
        forall|i: int|
            0 <= i < live(self.bounds.0, self.bounds.1) ==> self.slots.contains_key(
                #[trigger] slot(self.bounds.0, i),
            )
    }

    /// The items between the bounds, oldest first.
    pub open spec fn queue(self) -> Seq<Item> {
        Seq::new(live(self.bounds.0, self.bounds.1), |i: int| self.slots[slot(self.bounds.0, i)])
    }

    /// The ring after a push: the item is written at the end, the end moves
    /// on by one, and the start moves on with it where the end would run
    /// into it.
    pub open spec fn push(self, item: Item) -> Ring<Item> {
        let next = slot(self.bounds.1, 1);
        Ring {
            slots: self.slots.insert(self.bounds.1, item),
            bounds: (
                if next == self.bounds.0 {
                    slot(self.bounds.0, 1)
                } else {
                    self.bounds.0
                },
                next,
            ),
        }
    }

    /// The ring after the items were pushed in order.
    pub open spec fn push_all(self, items: Seq<Item>) -> Ring<Item>
        decreases items.len(),
    {
        if items.len() == 0 {
            self
        } else {
            self.push_all(items.drop_last()).push(items.last())
        }
    }

    /// The ring after a pop: the slot at the start is cleared and the start
    /// moves on by one. An empty ring stays as it is.
    pub open spec fn pop(self) -> Ring<Item> {
        if self.bounds.0 == self.bounds.1 {
            self
        } else {
            Ring {
                slots: self.slots.remove(self.bounds.0),
                bounds: (slot(self.bounds.0, 1), self.bounds.1),
            }
        }
    }

    /// A push puts the item at the end of the queue; a queue of 255 items
    /// loses its first.
    pub proof fn lemma_push(self, item: Item)
        requires
            self.filled(),
        ensures
            self.push(item).filled(),
            self.push(item).queue() == if self.queue().len() < 0xff {
                self.queue().push(item)
            } else {
                self.queue().skip(1).push(item)
            },
    {
        let after = self.push(item);
        let start = self.bounds.0;
        let end = self.bounds.1;
        let new_start = after.bounds.0;
        let n = live(start, end);
        let m = live(new_start, after.bounds.1);
        let full = slot(end, 1) == start;
        assert(m == if full { n } else { n + 1 });
        assert forall|j: int| 0 <= j < m implies after.slots.contains_key(
            #[trigger] slot(new_start, j),
        ) by {
            if full {
                if j + 1 < n {
                    assert(slot(new_start, j) == slot(start, j + 1));
                } else {
                    assert(slot(new_start, j) == end);
                }
            } else {
                if j < n {
                    assert(slot(new_start, j) == slot(start, j));
                } else {
                    assert(slot(new_start, j) == end);
                }
            }
        }
        let wanted = if n < 0xff {
            self.queue().push(item)
        } else {
            self.queue().skip(1).push(item)
        };
        assert forall|j: int| 0 <= j < m implies after.queue()[j] == wanted[j] by {
            if full {
                if j + 1 < n {
                    assert(slot(new_start, j) == slot(start, j + 1));
                    assert(slot(start, j + 1) != end);
                } else {
                    assert(slot(new_start, j) == end);
                }
            } else {
                if j < n {
                    assert(slot(new_start, j) == slot(start, j));
                    assert(slot(start, j) != end);
                } else {
                    assert(slot(new_start, j) == end);
                }
            }
        }
        assert(after.queue() =~= wanted);
    }

    /// A pop takes the first item off the queue.
    pub proof fn lemma_pop(self)
        requires
            self.filled(),
        ensures
            self.pop().filled(),
            self.pop().queue() == if self.queue().len() > 0 {
                self.queue().skip(1)
            } else {
                self.queue()
            },
    {
        if self.bounds.0 != self.bounds.1 {
            let after = self.pop();
            let start = self.bounds.0;
            let end = self.bounds.1;
            let new_start = after.bounds.0;
            let n = live(start, end);
            assert(live(new_start, end) == n - 1);
            assert forall|j: int| 0 <= j < n - 1 implies after.slots.contains_key(
                #[trigger] slot(new_start, j),
            ) && after.slots[slot(new_start, j)] == self.slots[slot(start, j + 1)] by {
                assert(slot(new_start, j) == slot(start, j + 1));
                assert(slot(start, j + 1) != start);
            }
            assert(after.queue() =~= self.queue().skip(1));
        }
    }
}

/// A ring buffer at rest: the slots and the committed bounds.
pub struct RingBuffer<Item> {
    bounds: (BufferIndex, BufferIndex),
    slots: Table<BufferIndex, Item>,
}

impl<Item> View for RingBuffer<Item> {
    type V = Ring<Item>;

    closed spec fn view(&self) -> Ring<Item> {
        Ring { slots: self.slots@, bounds: self.bounds }
    }
}

impl<Item> RingBuffer<Item> {
    #[verifier::type_invariant]
    spec fn inv(&self) -> bool {
        self@.filled()
    }

    /// The empty buffer, with both bounds at 0.
    pub fn new() -> (r: Self)
        ensures
            r@ == Ring::<Item>::empty(),
            r@.filled(),
            r@.queue() == Seq::<Item>::empty(),
    {
        let r = RingBuffer { bounds: (0, 0), slots: Table::new() };
        assert(r@.queue() =~= Seq::<Item>::empty());
        r
    }

    /// The committed bounds.
    pub fn range(&self) -> (r: (BufferIndex, BufferIndex))
        ensures
            r == self@.bounds,
            self@.filled(),
    {
        proof {
            use_type_invariant(self);
        }
        self.bounds
    }

    /// What the slot at `index` holds, if anything.
    pub fn value(&self, index: BufferIndex) -> (r: Option<&Item>)
        ensures
            match r {
                Some(v) => self@.slots.contains_key(index) && *v == self@.slots[index],
                None => !self@.slots.contains_key(index),
            },
    {
        self.slots.get(&index)
    }

    /// The oldest item, if the queue is not empty.
    pub fn oldest(&self) -> (r: Option<&Item>)
        ensures
            match r {
                Some(v) => self@.queue().len() > 0 && *v == self@.queue()[0],
                None => self@.queue().len() == 0,
            },
    {
        proof {
            use_type_invariant(self);
        }
        if self.bounds.0 == self.bounds.1 {
            None
        } else {
            assert(slot(self.bounds.0, 0) == self.bounds.0);
            self.slots.get(&self.bounds.0)
        }
    }
}

/// A ring buffer in use. Pushes and pops move its own bounds; the bounds at
/// rest follow when they are committed.
pub struct RingBufferTransient<Item> {
    start: BufferIndex,
    end: BufferIndex,
    committed: (BufferIndex, BufferIndex),
    slots: Table<BufferIndex, Item>,
}

impl<Item> RingBufferTransient<Item> {
    #[verifier::type_invariant]
    spec fn inv(&self) -> bool {
        self.ring().filled()
    }

    /// The slots and the bounds in use.
    pub closed spec fn ring(&self) -> Ring<Item> {
        Ring { slots: self.slots@, bounds: (self.start, self.end) }
    }

    /// The bounds at rest: those that the buffer was opened with, or those
    /// that were in use when the bounds were last committed.
    pub closed spec fn committed(&self) -> (BufferIndex, BufferIndex) {
        self.committed
    }

    /// A buffer in use that holds nothing: no slot is written, both bounds
    /// are at 0, and so are the bounds at rest.
    fn vacant() -> (r: Self)
        ensures
            r.ring() == Ring::<Item>::empty(),
            r.ring().filled(),
            r.queue() == Seq::<Item>::empty(),
            r.committed() == (0u8, 0u8),
    {
        let r = RingBufferTransient { start: 0, end: 0, committed: (0, 0), slots: Table::new() };
        assert(r.ring().queue() =~= Seq::<Item>::empty());
        r
    }

    /// Opens the buffer, starting from its committed bounds.
    pub fn new(buffer: RingBuffer<Item>) -> (r: Self)
        ensures
            r.ring() == buffer@,
            r.ring().filled(),
            r.capacity() == 0xff,
            r.committed() == buffer@.bounds,
    {
        proof {
            use_type_invariant(&buffer);
        }
        let RingBuffer { bounds, slots } = buffer;
        RingBufferTransient { start: bounds.0, end: bounds.1, committed: bounds, slots }
    }

    /// Commits the bounds and hands the buffer back at rest.
    pub fn close(self) -> (r: RingBuffer<Item>)
        ensures
            r@ == self.ring(),
            r@.filled(),
    {
        proof {
            use_type_invariant(&self);
        }
        let RingBufferTransient { start, end, committed: _, slots } = self;
        RingBuffer { bounds: (start, end), slots }
    }
}

impl<Item> RingBufferTrait<Item> for RingBufferTransient<Item> {
    open spec fn queue(&self) -> Seq<Item> {
        self.ring().queue()
    }

    open spec fn capacity(&self) -> nat {
        0xff
    }

    open spec fn is_committed(&self) -> bool {
        self.committed() == self.ring().bounds
    }

    fn commit(&mut self)
        ensures
            final(self).ring() == old(self).ring(),
    {
        proof {
            use_type_invariant(&*self);
        }
        self.committed = (self.start, self.end);
    }

    fn push(&mut self, i: Item)
        ensures
            final(self).ring() == old(self).ring().push(i),
            final(self).ring().filled(),
            final(self).committed() == old(self).committed(),
    {
        proof {
            use_type_invariant(&*self);
            self.ring().lemma_push(i);
        }
        let mut this = RingBufferTransient::vacant();
        core::mem::swap(self, &mut this);
        let RingBufferTransient { start, end, committed, mut slots } = this;
        let next_index = WrappingOps::wrapping_add(end, 1u8);
        let new_start = if next_index == start {
            WrappingOps::wrapping_add(start, 1u8)
        } else {
            start
        };
        slots.insert(end, i);
        *self = RingBufferTransient { start: new_start, end: next_index, committed, slots };
    }

    fn pop(&mut self) -> (r: Option<Item>)
        ensures
            final(self).ring() == old(self).ring().pop(),
            final(self).ring().filled(),
            final(self).committed() == old(self).committed(),
    {
        proof {
            use_type_invariant(&*self);
            self.ring().lemma_pop();
        }
        if self.is_empty() {
            return None;
        }
        let mut this = RingBufferTransient::vacant();
        core::mem::swap(self, &mut this);
        let RingBufferTransient { start, end, committed, mut slots } = this;
        let new_start = WrappingOps::wrapping_add(start, 1u8);
        assert(slot(start, 0) == start);
        let item = slots.remove(&start);
        *self = RingBufferTransient { start: new_start, end, committed, slots };
        item
    }

    fn is_empty(&self) -> (r: bool) {
        self.start == self.end
    }
}

} // verus!
