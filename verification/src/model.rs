//! The state of a window as the protocol sees it.
//!
//! The send info register is written by this side only: its head byte is this
//! side's read cursor into the receive ring, its tail byte this side's write
//! cursor into the send ring. The receive info register is written by the peer
//! only and holds the peer's two cursors in the same places. Each ring thus has
//! its producer cursor in one register and its consumer cursor in the other.

use crate::codec::{free, head_of, rearmed, tail_of, used, with_head, with_tail, wrap, DOORBELL};
use crate::layout::Layout;
use vstd::prelude::*;

verus! {

/// This side's read cursor into the receive ring.
pub open spec fn rx_head(layout: Layout, cells: Seq<u64>) -> int {
    head_of(cells[layout.send_ir()])
}

/// The peer's write cursor into the receive ring.
pub open spec fn rx_tail(layout: Layout, cells: Seq<u64>) -> int {
    tail_of(cells[layout.receive_ir()])
}

/// This side's write cursor into the send ring.
pub open spec fn tx_tail(layout: Layout, cells: Seq<u64>) -> int {
    tail_of(cells[layout.send_ir()])
}

/// The peer's read cursor into the send ring.
pub open spec fn tx_head(layout: Layout, cells: Seq<u64>) -> int {
    head_of(cells[layout.receive_ir()])
}

/// Both cursors of the receive ring are below the capacity.
pub open spec fn rx_ready(layout: Layout, cells: Seq<u64>) -> bool {
    layout.is_cursor(rx_tail(layout, cells)) && layout.is_cursor(rx_head(layout, cells))
}

/// Both cursors of the send ring are below the capacity.
pub open spec fn tx_ready(layout: Layout, cells: Seq<u64>) -> bool {
    layout.is_cursor(tx_tail(layout, cells)) && layout.is_cursor(tx_head(layout, cells))
}

/// The `count` words of a ring that start at cursor `start`, in ring order.
pub open spec fn ring_words(cells: Seq<u64>, base: int, capacity: int, start: int, count: int) -> Seq<
    u64,
> {
    Seq::new(count as nat, |i: int| cells[base + wrap(start + i, capacity)])
}

/// Words of the receive ring that this side has not read yet.
pub open spec fn rx_used(layout: Layout, cells: Seq<u64>) -> int {
    used(rx_tail(layout, cells), rx_head(layout, cells), layout.capacity as int)
}

/// Words of the send ring that the peer has not read yet.
pub open spec fn tx_used(layout: Layout, cells: Seq<u64>) -> int {
    used(tx_tail(layout, cells), tx_head(layout, cells), layout.capacity as int)
}

/// Slots of the send ring that can be written.
pub open spec fn tx_free(layout: Layout, cells: Seq<u64>) -> int {
    free(tx_tail(layout, cells), tx_head(layout, cells), layout.capacity as int)
}

/// The unread words of the receive ring, oldest first.
pub open spec fn rx_pending(layout: Layout, cells: Seq<u64>) -> Seq<u64> {
    ring_words(
        cells,
        layout.receive_base(),
        layout.capacity as int,
        rx_head(layout, cells),
        rx_used(layout, cells),
    )
}

/// The words of the send ring that the peer has not read yet, oldest first.
pub open spec fn tx_in_flight(layout: Layout, cells: Seq<u64>) -> Seq<u64> {
    ring_words(
        cells,
        layout.send_base(),
        layout.capacity as int,
        tx_head(layout, cells),
        tx_used(layout, cells),
    )
}

/// The window after the receive interrupt has been re-armed: the valid mask
/// of the receive control/status register is kept and its enable bit set.
pub open spec fn rearmed_cells(layout: Layout, cells: Seq<u64>) -> Seq<u64> {
    cells.update(layout.receive_csr(), rearmed(cells[layout.receive_csr()]) as u64)
}

/// The window after a drain: re-armed, and this side's read cursor moved up
/// to the peer's write cursor. Nothing else changes.
pub open spec fn drained_cells(layout: Layout, cells: Seq<u64>) -> Seq<u64> {
    rearmed_cells(layout, cells).update(
        layout.send_ir(),
        with_head(cells[layout.send_ir()], rx_tail(layout, cells)) as u64,
    )
}

/// Number of words of `words` that fit into the send ring as it stands.
pub open spec fn sendable(layout: Layout, cells: Seq<u64>, words: Seq<u64>) -> int {
    if words.len() == 0 {
        0
    } else if words.len() <= tx_free(layout, cells) {
        words.len() as int
    } else {
        tx_free(layout, cells)
    }
}

/// The window after the first `count` words of `words` have been written to
/// the send slots that follow this side's write cursor.
pub open spec fn written_cells(layout: Layout, cells: Seq<u64>, words: Seq<u64>, count: int) -> Seq<
    u64,
> {
    Seq::new(
        cells.len(),
        |j: int|
            if 0 <= j < layout.capacity && used(j, tx_tail(layout, cells), layout.capacity as int)
                < count {
                words[used(j, tx_tail(layout, cells), layout.capacity as int)]
            } else {
                cells[j]
            },
    )
}

/// The window after as many words as fit have been sent: the words stand in
/// the slots behind the old write cursor, the write cursor has moved past
/// them, and the doorbell has been rung. With nothing sent nothing changes.
pub open spec fn sent_cells(layout: Layout, cells: Seq<u64>, words: Seq<u64>) -> Seq<u64> {
    let count = sendable(layout, cells, words);
    if count == 0 {
        cells
    } else {
        written_cells(layout, cells, words, count).update(
            layout.send_ir(),
            with_tail(
                cells[layout.send_ir()],
                wrap(tx_tail(layout, cells) + count, layout.capacity as int),
            ) as u64,
        ).update(layout.send_csr(), DOORBELL)
    }
}

/// The window as the peer sees it: the two halves change places.
pub open spec fn mirrored(layout: Layout, cells: Seq<u64>) -> Seq<u64> {
    Seq::new(
        cells.len(),
        |j: int|
            if 0 <= j < layout.half() {
                cells[j + layout.half()]
            } else if j < layout.cell_count() {
                cells[j - layout.half()]
            } else {
                cells[j]
            },
    )
}

} // verus!
