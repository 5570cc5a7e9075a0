//! An owned register window.
//!
//! `RegisterFile` holds the cells of a window in memory. It stands for the
//! device wherever the protocol is run without one, and it is the state over
//! which the effect of the protocol is stated.

use crate::layout::Layout;
use crate::model::mirrored;
use crate::platform::Action;
use vstd::prelude::*;

verus! {

/// The cells of a register window, with the layout that they follow.
pub struct RegisterFile {
    layout: Layout,
    cells: Vec<u64>,
}

impl View for RegisterFile {
    type V = Seq<u64>;

    closed spec fn view(&self) -> Seq<u64> {
        self.cells@
    }
}

impl RegisterFile {
    /// The layout that the cells follow.
    pub closed spec fn layout(&self) -> Layout {
        self.layout
    }

    /// The window holds every register of its layout.
    pub open spec fn wf(&self) -> bool {
        &&& self.layout().wf()
        &&& self@.len() >= self.layout().cell_count()
    }

    /// A window of the given layout with every cell zero.
    pub fn new(layout: Layout) -> (regs: RegisterFile)
        requires
            layout.wf(),
        ensures
            regs.wf(),
            regs.layout() == layout,
            regs@ == Seq::new(layout.cell_count() as nat, |i: int| 0u64),
    {
        let count: usize = layout.cells();
        let mut cells: Vec<u64> = Vec::new();
        while cells.len() < count
            invariant
                cells.len() <= count,
                forall|i: int| 0 <= i < cells.len() ==> cells[i] == 0,
            decreases count - cells.len(),
        {
            cells.push(0);
        }
        assert(cells@ =~= Seq::new(layout.cell_count() as nat, |i: int| 0u64));
        RegisterFile { layout, cells }
    }

    /// A window over the given cells, if they hold every register of the
    /// layout.
    pub fn from_cells(layout: Layout, cells: Vec<u64>) -> (regs: Option<RegisterFile>)
        requires
            layout.wf(),
        ensures
            regs.is_some() <==> cells.len() >= layout.cell_count(),
            regs.is_some() ==> regs.unwrap().wf() && regs.unwrap().layout() == layout
                && regs.unwrap()@ == cells@,
    {
        if cells.len() >= layout.cells() {
            Some(RegisterFile { layout, cells })
        } else {
            None
        }
    }

    pub fn get_layout(&self) -> (layout: Layout)
        ensures
            layout == self.layout(),
    {
        self.layout
    }

    /// Number of cells that the window holds.
    pub fn len(&self) -> (n: usize)
        ensures
            n == self@.len(),
    {
        self.cells.len()
    }

    /// A copy of the cells, in index order.
    pub fn to_cells(&self) -> (cells: Vec<u64>)
        ensures
            cells@ == self@,
    {
        self.cells.clone()
    }

    /// Reads one register.
    pub fn read_reg(&self, index: usize) -> (value: u64)
        requires
            self.wf(),
            index < self.layout().cell_count(),
        ensures
            value == self@[index as int],
    {
        self.cells[index]
    }

    /// Writes one register and leaves every other cell as it was.
    pub fn write_reg(&mut self, val: u64, index: usize)
        requires
            old(self).wf(),
            index < old(self).layout().cell_count(),
        ensures
            final(self)@ == old(self)@.update(index as int, val),
            final(self).layout() == old(self).layout(),
            final(self).wf(),
    {
        self.cells.set(index, val);
    }

    /// Performs one action on the cells and returns what the platform would
    /// hand to the next step: the value read, or zero. Lock operations and
    /// the acknowledgement always succeed here and touch no cell.
    pub fn perform(&mut self, action: Action) -> (input: u64)
        requires
            old(self).wf(),
            action.within(old(self).layout().cell_count()),
        ensures
            final(self).wf(),
            final(self).layout() == old(self).layout(),
            final(self)@ == Self::cells_after(old(self)@, action),
            input == Self::input_after(old(self)@, action),
    {
        match action {
            Action::Read { index } => self.read_reg(index),
            Action::Write { index, value } => {
                self.write_reg(value, index);
                0
            },
            _ => 0,
        }
    }

    /// The cells after `action` has been performed on them.
    pub open spec fn cells_after(cells: Seq<u64>, action: Action) -> Seq<u64> {
        match action {
            Action::Write { index, value } => cells.update(index as int, value),
            _ => cells,
        }
    }

    /// What performing `action` on the cells hands to the next step.
    pub open spec fn input_after(cells: Seq<u64>, action: Action) -> u64 {
        match action {
            Action::Read { index } => cells[index as int],
            _ => 0,
        }
    }

    /// The window as the peer sees it: what is the send half here is the
    /// receive half there.
    pub fn peer_view(&self) -> (peer: RegisterFile)
        requires
            self.wf(),
        ensures
            peer.wf(),
            peer.layout() == self.layout(),
            peer@ == mirrored(self.layout(), self@),
    {
        let half: usize = self.layout.receive_base_index();
        let count: usize = self.layout.cells();
        let mut cells: Vec<u64> = Vec::new();
        let mut j: usize = 0;
        while j < self.cells.len()
            invariant
                self.wf(),
                half == self.layout().half(),
                count == self.layout().cell_count(),
                j <= self.cells.len(),
                cells.len() == j,
                forall|i: int| 0 <= i < j ==> cells[i] == mirrored(self.layout(), self@)[i],
            decreases self.cells.len() - j,
        {
            let value: u64 = if j < half {
                self.cells[j + half]
            } else if j < count {
                self.cells[j - half]
            } else {
                self.cells[j]
            };
            cells.push(value);
            j += 1;
        }
        assert(cells@ =~= mirrored(self.layout(), self@));
        RegisterFile { layout: self.layout, cells }
    }
}

} // verus!
