//! The dashboard's navigation state: which of the six tables is
//! selected, and the selected row of each. Pure index arithmetic; the
//! drawing lives outside the library.
use vstd::prelude::*;

verus! {

/// How many tables the dashboard shows.
pub const TABLE_COUNT: usize = 6;

/// Which table is selected and which row of each table.
pub struct TuiState {
    pub selected_table: usize,
    pub table_selections: [usize; 6],
}

impl TuiState {
    /// The selected table is always one of the six.
    pub open spec fn wf(&self) -> bool {
        self.selected_table < 6
    }

    /// The first table selected, every row selection at the top.
    pub fn new() -> (r: TuiState)
        ensures
            r.wf(),
            r.selected_table == 0,
            forall|i: int| 0 <= i < 6 ==> r.table_selections@[i] == 0,
    {
        TuiState { selected_table: 0, table_selections: [0, 0, 0, 0, 0, 0] }
    }

    /// Moves the table selection one to the right, wrapping around.
    pub fn next_table(&mut self)
        requires
            old(self).wf(),
        ensures
            final(self).wf(),
            final(self).selected_table == (old(self).selected_table + 1) % 6,
            final(self).table_selections == old(self).table_selections,
    {
        self.selected_table = (self.selected_table + 1) % 6;
    }

    /// Moves the table selection one to the left, wrapping around.
    pub fn previous_table(&mut self)
        requires
            old(self).wf(),
        ensures
            final(self).wf(),
            final(self).selected_table == (old(self).selected_table + 5) % 6,
            final(self).table_selections == old(self).table_selections,
    {
        self.selected_table = if self.selected_table == 0 {
            5
        } else {
            self.selected_table - 1
        };
    }

    /// Moves the selected table's row selection one down, wrapping
    /// around among its `max_items` rows; an empty table is untouched.
    pub fn next_item(&mut self, max_items: usize)
        requires
            old(self).wf(),
        ensures
            final(self).wf(),
            final(self).selected_table == old(self).selected_table,
            max_items > 0 ==> final(self).table_selections@ == old(
                self,
            ).table_selections@.update(
                old(self).selected_table as int,
                (((old(self).table_selections@[old(self).selected_table as int] + 1) as int % (
                max_items as int)) as usize),
            ),
            max_items == 0 ==> final(self).table_selections == old(self).table_selections,
    {
        if max_items > 0 {
            let st = self.selected_table;
            let cur = self.table_selections[st];
            let next = (cur % max_items + 1) % max_items;
            proof {
                assert((cur % max_items + 1) % (max_items as int) == (cur + 1) % (
                max_items as int)) by (nonlinear_arith)
                    requires
                        max_items > 0,
                        cur >= 0,
                ;
            }
            self.table_selections[st] = next;
        }
    }

    /// Moves the selected table's row selection one up, wrapping
    /// around among its `max_items` rows; an empty table is untouched.
    pub fn previous_item(&mut self, max_items: usize)
        requires
            old(self).wf(),
        ensures
            final(self).wf(),
            final(self).selected_table == old(self).selected_table,
            max_items > 0 ==> final(self).table_selections@ == old(
                self,
            ).table_selections@.update(
                old(self).selected_table as int,
                if old(self).table_selections@[old(self).selected_table as int] == 0 {
                    (max_items - 1) as usize
                } else {
                    (old(self).table_selections@[old(self).selected_table as int] - 1) as usize
                },
            ),
            max_items == 0 ==> final(self).table_selections == old(self).table_selections,
    {
        if max_items > 0 {
            let st = self.selected_table;
            let cur = self.table_selections[st];
            let next = if cur == 0 {
                max_items - 1
            } else {
                cur - 1
            };
            self.table_selections[st] = next;
        }
    }

    /// The selected row of the selected table.
    pub fn current_selection(&self) -> (r: usize)
        requires
            self.wf(),
        ensures
            r == self.table_selections@[self.selected_table as int],
    {
        self.table_selections[self.selected_table]
    }
}

} // verus!
