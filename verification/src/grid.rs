//! The slot grid: a window of time, cut into slots of one length, with one
//! boolean for each slot.

use crate::slots::all_false;
use crate::slots::get_num_slots;
use crate::slots::mark_span;
use crate::slots::marked;
use crate::slots::new_matrix;
use crate::slots::slot_count;
use crate::slots::slot_index_of;
use crate::slots::subtract_of;
use crate::slots::subtract_true;
use crate::slots::union;
use crate::slots::union_of;
use crate::slots::MIN_GRANULARITY;
use vstd::prelude::*;

verus! {

/// A window `[start, end)` with its slots. A grid is well formed where it has
/// as many slots as its window holds at its granularity.
#[derive(Debug)]
pub struct SlotGrid {
    start: i64,
    end: i64,
    granularity: i64,
    slots: Vec<bool>,
}

impl View for SlotGrid {
    type V = Seq<bool>;

    closed spec fn view(&self) -> Seq<bool> {
        self.slots@
    }
}

impl SlotGrid {
    /// The start of the window.
    pub closed spec fn window_start(&self) -> int {
        self.start as int
    }

    /// The end of the window.
    pub closed spec fn window_end(&self) -> int {
        self.end as int
    }

    /// The length of one slot, in seconds.
    pub closed spec fn slot_length(&self) -> int {
        self.granularity as int
    }

    /// The invariant of the type.
    pub open spec fn wf(&self) -> bool {
        &&& self.slot_length() >= MIN_GRANULARITY
        &&& self@.len() == slot_count(self.window_start(), self.window_end(), self.slot_length())
    }

    /// Whether two grids cut the same window into slots of the same length.
    pub open spec fn same_shape(&self, other: &SlotGrid) -> bool {
        &&& self.window_start() == other.window_start()
        &&& self.window_end() == other.window_end()
        &&& self.slot_length() == other.slot_length()
    }

    /// The grid of the window `[start, end)`, every slot closed.
    pub fn new(start: i64, end: i64, granularity: i64) -> (grid: SlotGrid)
        requires
            granularity >= MIN_GRANULARITY,
            slot_count(start as int, end as int, granularity as int) <= usize::MAX,
        ensures
            grid.wf(),
            grid.window_start() == start,
            grid.window_end() == end,
            grid.slot_length() == granularity,
            grid@ == all_false(slot_count(start as int, end as int, granularity as int)),
    {
        let num_slots = get_num_slots(start, end, granularity);
        SlotGrid { start, end, granularity, slots: new_matrix(num_slots) }
    }

    /// Opens every slot from the one that `sub_start` falls in up to, but not
    /// including, the one that `sub_end` falls in. What of the span lies
    /// outside the window is left out: it is not moved into the first or the
    /// last slot.
    pub fn mark_true(&mut self, sub_start: i64, sub_end: i64)
        requires
            old(self).wf(),
        ensures
            final(self).wf(),
            final(self).same_shape(old(self)),
            final(self)@ == marked(
                old(self)@,
                slot_index_of(
                    old(self).window_start(),
                    sub_start as int,
                    old(self).slot_length(),
                    old(self)@.len() as int,
                ),
                slot_index_of(
                    old(self).window_start(),
                    sub_end as int,
                    old(self).slot_length(),
                    old(self)@.len() as int,
                ),
            ),
    {
        mark_span(&mut self.slots, self.start, self.granularity, sub_start, sub_end);
    }

    /// Opens the slots of one occurrence of an event.
    pub fn map_occurrence(&mut self, occurrence_start: i64, occurrence_end: i64)
        requires
            old(self).wf(),
        ensures
            final(self).wf(),
            final(self).same_shape(old(self)),
            final(self)@ == marked(
                old(self)@,
                slot_index_of(
                    old(self).window_start(),
                    occurrence_start as int,
                    old(self).slot_length(),
                    old(self)@.len() as int,
                ),
                slot_index_of(
                    old(self).window_start(),
                    occurrence_end as int,
                    old(self).slot_length(),
                    old(self)@.len() as int,
                ),
            ),
    {
        self.mark_true(occurrence_start, occurrence_end);
    }

    /// The grid that is open where this one or `other` is.
    pub fn union(&self, other: &SlotGrid) -> (grid: SlotGrid)
        requires
            self.wf(),
            other.wf(),
            self.same_shape(other),
        ensures
            grid.wf(),
            grid.same_shape(self),
            grid@ == union_of(self@, other@),
    {
        SlotGrid {
            start: self.start,
            end: self.end,
            granularity: self.granularity,
            slots: union(&self.slots, &other.slots),
        }
    }

    /// The grid that is open where this one is and `other` is not.
    pub fn subtract_true(&self, other: &SlotGrid) -> (grid: SlotGrid)
        requires
            self.wf(),
            other.wf(),
            self.same_shape(other),
        ensures
            grid.wf(),
            grid.same_shape(self),
            grid@ == subtract_of(self@, other@),
    {
        SlotGrid {
            start: self.start,
            end: self.end,
            granularity: self.granularity,
            slots: subtract_true(&self.slots, &other.slots),
        }
    }

    /// The start of the window.
    pub fn start(&self) -> (t: i64)
        ensures
            t == self.window_start(),
    {
        self.start
    }

    /// The end of the window.
    pub fn end(&self) -> (t: i64)
        ensures
            t == self.window_end(),
    {
        self.end
    }

    /// The length of one slot, in seconds.
    pub fn granularity(&self) -> (g: i64)
        ensures
            g == self.slot_length(),
    {
        self.granularity
    }

    /// The slots of the grid, in order.
    pub fn slots(&self) -> (slots: &Vec<bool>)
        ensures
            slots@ == self@,
    {
        &self.slots
    }
}

} // verus!
