//! Initial programming of the receive side.

use crate::codec::{ENABLE_BIT, VALID_MASK};
use crate::layout::Layout;
use crate::platform::Action;
use crate::window::RegisterFile;
use vstd::prelude::*;

verus! {

/// What the receive control/status register holds once the receive side is
/// set up: the interrupt enabled and every valid bit set.
pub open spec fn armed_csr() -> u64 {
    (ENABLE_BIT + VALID_MASK) as u64
}

/// The window after the receive side has been set up.
pub open spec fn initialized_cells(layout: Layout, cells: Seq<u64>) -> Seq<u64> {
    cells.update(layout.receive_csr(), armed_csr())
}

/// The one register write that sets up the receive side. It has to be
/// performed before an interrupt can be delivered.
pub fn init_action(layout: Layout) -> (action: Action)
    requires
        layout.wf(),
    ensures
        action == (Action::Write { index: layout.receive_csr() as usize, value: armed_csr() }),
        action.within(layout.cell_count()),
{
    assert(0x8000_0000_0000_0000u64 | 0x7fff_ffff_ffff_ffffu64 == 0xffff_ffff_ffff_ffffu64)
        by (bit_vector);
    Action::Write { index: layout.receive_csr_index(), value: ENABLE_BIT | VALID_MASK }
}

/// Sets up the receive side of an owned window: the receive control/status
/// register gets the enable bit and the full valid mask, and no other cell
/// changes.
pub fn pre_init(regs: &mut RegisterFile)
    requires
        old(regs).wf(),
    ensures
        final(regs).wf(),
        final(regs).layout() == old(regs).layout(),
        final(regs)@ == initialized_cells(old(regs).layout(), old(regs)@),
{
    let action = init_action(regs.get_layout());
    regs.perform(action);
}

} // verus!
