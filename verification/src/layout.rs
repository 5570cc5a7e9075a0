//! Index map of the register window.
//!
//! The window has two symmetric halves. The send half comes first: its data
//! slots, then its info register, then its control/status register. The
//! receive half follows in the same order. The standard window has 62 data
//! slots per half and 128 cells in all; a smaller capacity gives a smaller
//! window of the same shape.

use vstd::prelude::*;

verus! {

/// First data slot of the send half of the standard window.
pub const SEND_BASE_INDEX: usize = 0;

/// Info register of the send half of the standard window.
pub const SEND_IR_INDEX: usize = 62;

/// Control/status register of the send half of the standard window.
pub const SEND_CSR_INDEX: usize = 63;

/// First data slot of the receive half of the standard window.
pub const RECEIVE_BASE_INDEX: usize = 64;

/// Info register of the receive half of the standard window.
pub const RECEIVE_IR_INDEX: usize = 126;

/// Control/status register of the receive half of the standard window.
pub const RECEIVE_CSR_INDEX: usize = 127;

/// Number of cells of the standard window.
pub const WINDOW_CELLS: usize = 128;

/// Shape of a register window: the number of data slots of each half.
#[derive(Clone, Copy, Debug, PartialEq, Eq, Structural)]
pub struct Layout {
    pub capacity: u64,
}

impl Layout {
    /// A ring needs two slots to hold one word, and a cursor is one byte.
    pub open spec fn wf(self) -> bool {
        2 <= self.capacity <= 256
    }

    /// Words that a ring can hold: one slot stays empty to tell full from
    /// empty.
    pub open spec fn usable_depth(self) -> int {
        self.capacity - 1
    }

    pub open spec fn send_base(self) -> int {
        0
    }

    pub open spec fn send_ir(self) -> int {
        self.capacity as int
    }

    pub open spec fn send_csr(self) -> int {
        self.capacity + 1
    }

    pub open spec fn receive_base(self) -> int {
        self.capacity + 2
    }

    pub open spec fn receive_ir(self) -> int {
        2 * self.capacity + 2
    }

    pub open spec fn receive_csr(self) -> int {
        2 * self.capacity + 3
    }

    /// One half of the window: the data slots and the two registers.
    pub open spec fn half(self) -> int {
        self.capacity + 2
    }

    pub open spec fn cell_count(self) -> int {
        2 * self.capacity + 4
    }

    /// Whether `value` is a cursor into a ring of this capacity.
    pub open spec fn is_cursor(self, value: int) -> bool {
        0 <= value < self.capacity
    }

    /// The layout with `capacity` data slots per half, if there is one.
    pub fn new(capacity: u64) -> (layout: Option<Layout>)
        ensures
            layout.is_some() <==> 2 <= capacity <= 256,
            layout.is_some() ==> layout.unwrap().capacity == capacity && layout.unwrap().wf(),
    {
        if 2 <= capacity && capacity <= 256 {
            Some(Layout { capacity })
        } else {
            None
        }
    }

    /// The standard window: 62 data slots per half, 128 cells.
    pub fn standard() -> (layout: Layout)
        ensures
            layout.wf(),
            layout.capacity == 62,
            layout.usable_depth() == 61,
            layout.send_base() == SEND_BASE_INDEX,
            layout.send_ir() == SEND_IR_INDEX,
            layout.send_csr() == SEND_CSR_INDEX,
            layout.receive_base() == RECEIVE_BASE_INDEX,
            layout.receive_ir() == RECEIVE_IR_INDEX,
            layout.receive_csr() == RECEIVE_CSR_INDEX,
            layout.cell_count() == WINDOW_CELLS,
    {
        Layout { capacity: 62 }
    }

    pub fn send_base_index(&self) -> (index: usize)
        ensures
            index == self.send_base(),
    {
        0
    }

    pub fn send_ir_index(&self) -> (index: usize)
        requires
            self.wf(),
        ensures
            index == self.send_ir(),
    {
        self.capacity as usize
    }

    pub fn send_csr_index(&self) -> (index: usize)
        requires
            self.wf(),
        ensures
            index == self.send_csr(),
    {
        self.capacity as usize + 1
    }

    pub fn receive_base_index(&self) -> (index: usize)
        requires
            self.wf(),
        ensures
            index == self.receive_base(),
    {
        self.capacity as usize + 2
    }

    pub fn receive_ir_index(&self) -> (index: usize)
        requires
            self.wf(),
        ensures
            index == self.receive_ir(),
    {
        2 * (self.capacity as usize) + 2
    }

    pub fn receive_csr_index(&self) -> (index: usize)
        requires
            self.wf(),
        ensures
            index == self.receive_csr(),
    {
        2 * (self.capacity as usize) + 3
    }

    pub fn cells(&self) -> (count: usize)
        requires
            self.wf(),
        ensures
            count == self.cell_count(),
    {
        2 * (self.capacity as usize) + 4
    }

    /// Index of the send data slot that a cursor points at.
    pub fn send_slot(&self, cursor: u64) -> (index: usize)
        requires
            self.wf(),
            cursor < self.capacity,
        ensures
            index == self.send_base() + cursor,
    {
        cursor as usize
    }

    /// Index of the receive data slot that a cursor points at.
    pub fn receive_slot(&self, cursor: u64) -> (index: usize)
        requires
            self.wf(),
            cursor < self.capacity,
        ensures
            index == self.receive_base() + cursor,
    {
        self.capacity as usize + 2 + cursor as usize
    }
}

} // verus!
