//! Rectangles by draw order.

use crate::geometry::Bounds;
use crate::scalar::Coordinate;
use vstd::prelude::*;

verus! {

/// A rectangle and the order at which it is drawn.
#[derive(Clone, Copy, Debug)]
pub struct Placed<T> {
    pub bounds: Bounds<T>,
    pub order: u32,
}

/// Rectangles that were painted so far, which answers how high the next one
/// must go to cover all that it overlaps.
#[derive(Debug)]
pub struct BoundsTree<T> {
    entries: Vec<Placed<T>>,
}

/// The highest order among the rectangles that overlap `bounds`, and 0 where
/// none does.
pub open spec fn top_order<T: Coordinate>(entries: Seq<Placed<T>>, bounds: Bounds<T>) -> u32
    decreases entries.len(),
{
    if entries.len() == 0 {
        0
    } else {
        let below = top_order(entries.drop_last(), bounds);
        let last = entries.last();
        if last.bounds.meets(bounds) && below < last.order {
            last.order
        } else {
            below
        }
    }
}

/// The next order after `order`, but for the highest, which stays.
pub open spec fn next_order(order: u32) -> u32 {
    if order == u32::MAX {
        order
    } else {
        (order + 1) as u32
    }
}

impl<T> View for BoundsTree<T> {
    type V = Seq<Placed<T>>;

    closed spec fn view(&self) -> Seq<Placed<T>> {
        self.entries@
    }
}

impl<T: Coordinate> BoundsTree<T> {
    /// A tree that holds nothing.
    pub fn new() -> (result: Self)
        ensures
            result@ == Seq::<Placed<T>>::empty(),
    {
        BoundsTree { entries: Vec::new() }
    }

    /// Forgets everything.
    pub fn clear(&mut self)
        ensures
            final(self)@ == Seq::<Placed<T>>::empty(),
    {
        self.entries.clear();
    }

    /// The highest order among the rectangles that overlap `bounds`, and 0 where
    /// none does.
    pub fn highest_under(&self, bounds: &Bounds<T>) -> (top: u32)
        ensures
            top == top_order(self@, *bounds),
    {
        let mut top: u32 = 0;
        let mut index: usize = 0;
        while index < self.entries.len()
            invariant
                index <= self.entries.len(),
                top == top_order(self.entries@.take(index as int), *bounds),
            decreases self.entries.len() - index,
        {
            assert(self.entries@.take(index + 1).drop_last() =~= self.entries@.take(index as int));
            let entry = self.entries[index];
            if entry.bounds.intersects(bounds) && top < entry.order {
                top = entry.order;
            }
            index = index + 1;
        }
        assert(self.entries@.take(index as int) =~= self.entries@);
        top
    }

    /// Adds a rectangle just above everything it overlaps, and returns its
    /// order.
    pub fn insert(&mut self, bounds: Bounds<T>) -> (order: u32)
        ensures
            order == next_order(top_order(old(self)@, bounds)),
            final(self)@ == old(self)@.push(Placed { bounds, order }),
    {
        let order: u32 = self.highest_under(&bounds).saturating_add(1);
        self.entries.push(Placed { bounds, order });
        order
    }

    /// Adds a rectangle at a given order.
    pub fn insert_with_order(&mut self, bounds: Bounds<T>, order: u32)
        ensures
            final(self)@ == old(self)@.push(Placed { bounds, order }),
    {
        self.entries.push(Placed { bounds, order });
    }
}

/// Law: the highest overlapping order is at least the order of each rectangle
/// that overlaps.
pub proof fn lemma_top_order_covers<T: Coordinate>(
    entries: Seq<Placed<T>>,
    bounds: Bounds<T>,
    i: int,
)
    requires
        0 <= i < entries.len(),
        entries[i].bounds.meets(bounds),
    ensures
        entries[i].order <= top_order(entries, bounds),
    decreases entries.len(),
{
    if i < entries.len() - 1 {
        lemma_top_order_covers(entries.drop_last(), bounds, i);
    }
}

/// Law: a rectangle added above what it overlaps goes strictly above each of
/// them, unless that one is as high as orders go.
pub proof fn lemma_insert_goes_above<T: Coordinate>(
    entries: Seq<Placed<T>>,
    bounds: Bounds<T>,
    i: int,
)
    requires
        0 <= i < entries.len(),
        entries[i].bounds.meets(bounds),
        entries[i].order < u32::MAX,
    ensures
        entries[i].order < next_order(top_order(entries, bounds)),
{
    lemma_top_order_covers(entries, bounds, i);
}

/// Law: the highest overlapping order is that of a rectangle that overlaps, or 0
/// where none does.
pub proof fn lemma_top_order_is_taken<T: Coordinate>(entries: Seq<Placed<T>>, bounds: Bounds<T>)
    ensures
        top_order(entries, bounds) == 0 || exists|i: int|
            0 <= i < entries.len() && (#[trigger] entries[i]).bounds.meets(bounds)
                && entries[i].order == top_order(entries, bounds),
    decreases entries.len(),
{
    if entries.len() > 0 {
        let less = entries.drop_last();
        lemma_top_order_is_taken(less, bounds);
        if top_order(entries, bounds) == top_order(less, bounds) && top_order(less, bounds) != 0 {
            let i = choose|i: int|
                0 <= i < less.len() && (#[trigger] less[i]).bounds.meets(bounds) && less[i].order
                    == top_order(less, bounds);
            assert(entries[i] == less[i]);
        } else if top_order(entries, bounds) != top_order(less, bounds) {
            assert(entries[entries.len() - 1].order == top_order(entries, bounds));
        }
    }
}

/// Law: the next order is one more, and the highest order there is stays.
pub proof fn lemma_next_order_is_one_more(order: u32)
    ensures
        order < u32::MAX ==> next_order(order) == order + 1,
        order == u32::MAX ==> next_order(order) == order,
{
}

} // verus!
