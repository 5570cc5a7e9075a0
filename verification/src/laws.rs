//! What holds of the protocol as a whole.
//!
//! The statements are over the window model: the cells before an operation
//! and the cells that the operation leaves, as the contracts of
//! `rx_irq_handle` and `block_send` give them.

use crate::codec::{free, head_of, rearmed, tail_of, upper_of, with_head, with_tail, wrap};
use crate::codec::{lemma_occupancy, lemma_repack_same, lemma_with_head_fields};
use crate::codec::{lemma_fields_determine, lemma_rearm_idempotent, lemma_with_tail_fields};
use crate::codec::DOORBELL;
use crate::drain::DrainState;
use crate::layout::Layout;
use crate::model::{drained_cells, mirrored, rearmed_cells};
use crate::model::{rx_head, rx_pending, rx_ready, rx_tail};
use crate::model::{sendable, sent_cells};
use crate::model::{tx_free, tx_head, tx_in_flight, tx_ready, tx_tail, tx_used};
use crate::platform::Action;
use crate::send::TransmitState;
use vstd::prelude::*;

verus! {

/// The window after the peer has drained the send ring. The peer runs the
/// drain on its own view of the window.
pub open spec fn peer_drained_cells(layout: Layout, cells: Seq<u64>) -> Seq<u64> {
    mirrored(layout, drained_cells(layout, mirrored(layout, cells)))
}

/// The words that the peer gets when it drains the send ring.
pub open spec fn peer_pending(layout: Layout, cells: Seq<u64>) -> Seq<u64> {
    rx_pending(layout, mirrored(layout, cells))
}

/// Everything that the peer receives when `words` are sent through the
/// window: the peer drains, this side sends what fits, and so on until no
/// word is left and the peer has drained a last time.
pub open spec fn exchanged(layout: Layout, cells: Seq<u64>, words: Seq<u64>) -> Seq<u64>
    decreases words.len(),
{
    let received = peer_pending(layout, cells);
    let emptied = peer_drained_cells(layout, cells);
    let count = sendable(layout, emptied, words);
    if 0 < count <= words.len() {
        received + exchanged(layout, sent_cells(layout, emptied, words), words.skip(count))
    } else {
        received
    }
}

/// Seen from the peer, the send ring is the receive ring: the same cursors
/// and the same words.
pub proof fn lemma_peer_sees_send_ring(layout: Layout, cells: Seq<u64>)
    requires
        layout.wf(),
        cells.len() >= layout.cell_count(),
    ensures
        rx_head(layout, mirrored(layout, cells)) == tx_head(layout, cells),
        rx_tail(layout, mirrored(layout, cells)) == tx_tail(layout, cells),
        rx_ready(layout, mirrored(layout, cells)) == tx_ready(layout, cells),
        tx_ready(layout, cells) ==> peer_pending(layout, cells) == tx_in_flight(layout, cells),
        mirrored(layout, mirrored(layout, cells)) == cells,
{
    let peer = mirrored(layout, cells);
    let capacity = layout.capacity as int;
    assert(mirrored(layout, peer) =~= cells);
    if tx_ready(layout, cells) {
        lemma_occupancy(tx_tail(layout, cells), tx_head(layout, cells), capacity);
        assert(peer_pending(layout, cells) =~= tx_in_flight(layout, cells));
    }
}

/// A drain by the peer re-arms the peer's interrupt and moves the peer's read
/// cursor up to this side's write cursor. The send ring is then empty and
/// every usable slot is free.
pub proof fn lemma_peer_drain(layout: Layout, cells: Seq<u64>)
    requires
        layout.wf(),
        cells.len() >= layout.cell_count(),
        tx_ready(layout, cells),
    ensures
        peer_drained_cells(layout, cells) == cells.update(
            layout.send_csr(),
            rearmed(cells[layout.send_csr()]) as u64,
        ).update(
            layout.receive_ir(),
            with_head(cells[layout.receive_ir()], tx_tail(layout, cells)) as u64,
        ),
        peer_drained_cells(layout, cells).len() == cells.len(),
        tx_ready(layout, peer_drained_cells(layout, cells)),
        tx_tail(layout, peer_drained_cells(layout, cells)) == tx_tail(layout, cells),
        tx_head(layout, peer_drained_cells(layout, cells)) == tx_tail(layout, cells),
        tx_used(layout, peer_drained_cells(layout, cells)) == 0,
        tx_free(layout, peer_drained_cells(layout, cells)) == layout.usable_depth(),
        tx_in_flight(layout, peer_drained_cells(layout, cells)) == Seq::<u64>::empty(),
{
    let capacity = layout.capacity as int;
    let tail = tx_tail(layout, cells);
    let after = cells.update(layout.send_csr(), rearmed(cells[layout.send_csr()]) as u64).update(
        layout.receive_ir(),
        with_head(cells[layout.receive_ir()], tail) as u64,
    );
    lemma_peer_sees_send_ring(layout, cells);
    lemma_with_head_fields(cells[layout.receive_ir()], tail);
    assert(peer_drained_cells(layout, cells) =~= after);
    lemma_occupancy(tail, tail, capacity);
    assert(tx_in_flight(layout, after) =~= Seq::<u64>::empty());
}

/// A send leaves the peer's cursor alone, moves this side's write cursor past
/// the words sent, and uses up as many free slots as it sent words. The
/// occupancy stays within the usable depth.
pub proof fn lemma_send_cursors(layout: Layout, cells: Seq<u64>, words: Seq<u64>)
    requires
        layout.wf(),
        cells.len() >= layout.cell_count(),
        tx_ready(layout, cells),
    ensures
        0 <= sendable(layout, cells, words) <= tx_free(layout, cells),
        sendable(layout, cells, words) <= words.len(),
        sent_cells(layout, cells, words).len() == cells.len(),
        tx_ready(layout, sent_cells(layout, cells, words)),
        tx_head(layout, sent_cells(layout, cells, words)) == tx_head(layout, cells),
        tx_tail(layout, sent_cells(layout, cells, words)) == wrap(
            tx_tail(layout, cells) + sendable(layout, cells, words),
            layout.capacity as int,
        ),
        tx_used(layout, sent_cells(layout, cells, words)) == tx_used(layout, cells) + sendable(
            layout,
            cells,
            words,
        ),
        0 <= tx_used(layout, sent_cells(layout, cells, words)) <= layout.usable_depth(),
        0 <= tx_free(layout, sent_cells(layout, cells, words)),
{
    let capacity = layout.capacity as int;
    let count = sendable(layout, cells, words);
    let tail = tx_tail(layout, cells);
    let head = tx_head(layout, cells);
    lemma_occupancy(tail, head, capacity);
    if count > 0 {
        lemma_with_tail_fields(cells[layout.send_ir()], wrap(tail + count, capacity));
        lemma_occupancy(wrap(tail + count, capacity), head, capacity);
    }
}

/// A send appends the words that fit to the words in flight and disturbs
/// none of those that were in flight before.
pub proof fn lemma_send_extends(layout: Layout, cells: Seq<u64>, words: Seq<u64>)
    requires
        layout.wf(),
        cells.len() >= layout.cell_count(),
        tx_ready(layout, cells),
    ensures
        tx_in_flight(layout, sent_cells(layout, cells, words)) == tx_in_flight(layout, cells)
            + words.take(sendable(layout, cells, words)),
{
    let capacity = layout.capacity as int;
    let count = sendable(layout, cells, words);
    let tail = tx_tail(layout, cells);
    let head = tx_head(layout, cells);
    let before = tx_in_flight(layout, cells);
    let after = tx_in_flight(layout, sent_cells(layout, cells, words));
    lemma_occupancy(tail, head, capacity);
    lemma_send_cursors(layout, cells, words);
    if count == 0 {
        assert(words.take(0) =~= Seq::<u64>::empty());
        assert(after =~= before + words.take(count));
    } else {
        let expected = before + words.take(count);
        assert(after.len() == expected.len());
        assert forall|i: int| 0 <= i < after.len() implies after[i] == expected[i] by {
            let slot = wrap(head + i, capacity);
            lemma_occupancy(slot, tail, capacity);
        }
        assert(after =~= expected);
    }
}

/// Round trip: whatever the window holds in flight, followed by the words
/// sent, is what the peer receives, in order and without loss or
/// duplication.
pub proof fn lemma_round_trip(layout: Layout, cells: Seq<u64>, words: Seq<u64>)
    requires
        layout.wf(),
        cells.len() >= layout.cell_count(),
        tx_ready(layout, cells),
    ensures
        exchanged(layout, cells, words) == tx_in_flight(layout, cells) + words,
    decreases words.len(),
{
    let received = peer_pending(layout, cells);
    let emptied = peer_drained_cells(layout, cells);
    let count = sendable(layout, emptied, words);
    lemma_peer_sees_send_ring(layout, cells);
    lemma_peer_drain(layout, cells);
    lemma_send_cursors(layout, emptied, words);
    if words.len() == 0 {
        assert(received + words =~= received);
    } else {
        let refilled = sent_cells(layout, emptied, words);
        lemma_send_extends(layout, emptied, words);
        lemma_round_trip(layout, refilled, words.skip(count));
        assert(Seq::<u64>::empty() + words.take(count) =~= words.take(count));
        assert(words.take(count) + words.skip(count) =~= words);
        assert(received + (words.take(count) + words.skip(count)) =~= received + words.take(count)
            + words.skip(count));
    }
}

/// Wraparound: from an empty ring, wherever its cursors stand, sending as
/// many words as the usable depth leaves no free slot; once the peer has read
/// one word there is exactly one.
pub proof fn lemma_fill_then_read_one(capacity: int, head: int)
    requires
        2 <= capacity,
        0 <= head < capacity,
    ensures
        free(head, head, capacity) == capacity - 1,
        free(wrap(head + capacity - 1, capacity), head, capacity) == 0,
        free(wrap(head + capacity - 1, capacity), wrap(head + 1, capacity), capacity) == 1,
{
}

/// Wraparound on the window: a send of as many words as the usable depth into
/// an empty ring takes them all and fills the ring.
pub proof fn lemma_send_fills(layout: Layout, cells: Seq<u64>, words: Seq<u64>)
    requires
        layout.wf(),
        cells.len() >= layout.cell_count(),
        tx_ready(layout, cells),
        tx_head(layout, cells) == tx_tail(layout, cells),
        words.len() == layout.usable_depth(),
    ensures
        sendable(layout, cells, words) == layout.usable_depth(),
        tx_free(layout, sent_cells(layout, cells, words)) == 0,
        tx_in_flight(layout, sent_cells(layout, cells, words)) == words,
{
    let capacity = layout.capacity as int;
    let tail = tx_tail(layout, cells);
    lemma_occupancy(tail, tail, capacity);
    lemma_send_cursors(layout, cells, words);
    lemma_send_extends(layout, cells, words);
    assert(tx_in_flight(layout, cells) =~= Seq::<u64>::empty());
    assert(words.take(words.len() as int) =~= words);
    assert(Seq::<u64>::empty() + words =~= words);
}

/// Re-arming is idempotent: a drain that finds the ring empty yields no word
/// and leaves both info registers as they were; it still re-arms the
/// interrupt, and a second such drain changes nothing more.
pub proof fn lemma_empty_drain(layout: Layout, cells: Seq<u64>)
    requires
        layout.wf(),
        cells.len() >= layout.cell_count(),
        rx_ready(layout, cells),
        rx_head(layout, cells) == rx_tail(layout, cells),
    ensures
        rx_pending(layout, cells) == Seq::<u64>::empty(),
        drained_cells(layout, cells) == rearmed_cells(layout, cells),
        drained_cells(layout, cells)[layout.send_ir()] == cells[layout.send_ir()],
        drained_cells(layout, cells)[layout.receive_ir()] == cells[layout.receive_ir()],
        drained_cells(layout, cells)[layout.receive_csr()] == rearmed(cells[layout.receive_csr()]),
        drained_cells(layout, drained_cells(layout, cells)) == drained_cells(layout, cells),
{
    let capacity = layout.capacity as int;
    let head = rx_head(layout, cells);
    lemma_occupancy(head, head, capacity);
    lemma_repack_same(cells[layout.send_ir()]);
    lemma_rearm_idempotent(cells[layout.receive_csr()]);
    assert(rx_pending(layout, cells) =~= Seq::<u64>::empty());
    assert(drained_cells(layout, cells) =~= rearmed_cells(layout, cells));
    assert(drained_cells(layout, drained_cells(layout, cells)) =~= drained_cells(layout, cells));
}

/// A drain always leaves the ring empty, so a drain that follows it at once
/// finds nothing.
pub proof fn lemma_drain_empties(layout: Layout, cells: Seq<u64>)
    requires
        layout.wf(),
        cells.len() >= layout.cell_count(),
        rx_ready(layout, cells),
    ensures
        rx_ready(layout, drained_cells(layout, cells)),
        rx_head(layout, drained_cells(layout, cells)) == rx_tail(layout, cells),
        rx_tail(layout, drained_cells(layout, cells)) == rx_tail(layout, cells),
        rx_pending(layout, drained_cells(layout, cells)) == Seq::<u64>::empty(),
{
    let capacity = layout.capacity as int;
    let tail = rx_tail(layout, cells);
    lemma_with_head_fields(cells[layout.send_ir()], tail);
    lemma_occupancy(tail, tail, capacity);
    assert(rx_pending(layout, drained_cells(layout, cells)) =~= Seq::<u64>::empty());
}

/// Byte isolation of the drain: it writes the head byte of the send info
/// register and nothing else of the two info registers. The tail byte and
/// the upper bits stay as they were, and the head that it publishes is the
/// peer's write cursor whatever those other bits hold.
pub proof fn lemma_drain_isolation(layout: Layout, cells: Seq<u64>)
    requires
        layout.wf(),
        cells.len() >= layout.cell_count(),
        rx_ready(layout, cells),
    ensures
        head_of(drained_cells(layout, cells)[layout.send_ir()]) == rx_tail(layout, cells),
        tail_of(drained_cells(layout, cells)[layout.send_ir()]) == tail_of(
            cells[layout.send_ir()],
        ),
        upper_of(drained_cells(layout, cells)[layout.send_ir()]) == upper_of(
            cells[layout.send_ir()],
        ),
        drained_cells(layout, cells)[layout.receive_ir()] == cells[layout.receive_ir()],
        forall|j: int|
            0 <= j < cells.len() && j != layout.send_ir() && j != layout.receive_csr()
                ==> drained_cells(layout, cells)[j] == cells[j],
{
    lemma_with_head_fields(cells[layout.send_ir()], rx_tail(layout, cells));
}

/// Byte isolation of the send: it writes the tail byte of the send info
/// register and nothing else of the two info registers. The head byte and
/// the upper bits stay as they were.
pub proof fn lemma_send_isolation(layout: Layout, cells: Seq<u64>, words: Seq<u64>)
    requires
        layout.wf(),
        cells.len() >= layout.cell_count(),
        tx_ready(layout, cells),
    ensures
        head_of(sent_cells(layout, cells, words)[layout.send_ir()]) == head_of(
            cells[layout.send_ir()],
        ),
        upper_of(sent_cells(layout, cells, words)[layout.send_ir()]) == upper_of(
            cells[layout.send_ir()],
        ),
        sent_cells(layout, cells, words)[layout.receive_ir()] == cells[layout.receive_ir()],
        forall|j: int|
            layout.receive_base() <= j < cells.len() ==> sent_cells(layout, cells, words)[j]
                == cells[j],
{
    let capacity = layout.capacity as int;
    let count = sendable(layout, cells, words);
    let tail = tx_tail(layout, cells);
    lemma_send_cursors(layout, cells, words);
    if count > 0 {
        lemma_with_tail_fields(cells[layout.send_ir()], wrap(tail + count, capacity));
    }
}

/// The two directions share the info registers and do not disturb each
/// other: a drain leaves the send ring as it was, and a send leaves the
/// receive ring as it was.
pub proof fn lemma_directions_independent(layout: Layout, cells: Seq<u64>, words: Seq<u64>)
    requires
        layout.wf(),
        cells.len() >= layout.cell_count(),
        rx_ready(layout, cells),
        tx_ready(layout, cells),
    ensures
        tx_ready(layout, drained_cells(layout, cells)),
        tx_in_flight(layout, drained_cells(layout, cells)) == tx_in_flight(layout, cells),
        tx_free(layout, drained_cells(layout, cells)) == tx_free(layout, cells),
        rx_ready(layout, sent_cells(layout, cells, words)),
        rx_pending(layout, sent_cells(layout, cells, words)) == rx_pending(layout, cells),
{
    let capacity = layout.capacity as int;
    lemma_drain_isolation(layout, cells);
    lemma_send_isolation(layout, cells, words);
    lemma_occupancy(tx_tail(layout, cells), tx_head(layout, cells), capacity);
    lemma_occupancy(rx_tail(layout, cells), rx_head(layout, cells), capacity);
    assert(tx_in_flight(layout, drained_cells(layout, cells)) =~= tx_in_flight(layout, cells));
    assert(rx_pending(layout, sent_cells(layout, cells, words)) =~= rx_pending(layout, cells));
}

/// Byte isolation under interference: whatever is put into the byte that an
/// operation does not write, before or after it, the byte that it does write
/// comes out the same, and the other byte is not disturbed.
pub proof fn lemma_foreign_byte(reg: u64, head: int, tail: int)
    requires
        0 <= head < 256,
        0 <= tail < 256,
    ensures
        0 <= with_tail(reg, tail) <= u64::MAX,
        0 <= with_head(reg, head) <= u64::MAX,
        head_of(with_head(with_tail(reg, tail) as u64, head) as u64) == head,
        tail_of(with_head(with_tail(reg, tail) as u64, head) as u64) == tail,
        tail_of(with_tail(with_head(reg, head) as u64, tail) as u64) == tail,
        head_of(with_tail(with_head(reg, head) as u64, tail) as u64) == head,
        with_head(with_tail(reg, tail) as u64, head) == with_tail(
            with_head(reg, head) as u64,
            tail,
        ),
{
    lemma_with_tail_fields(reg, tail);
    lemma_with_head_fields(reg, head);
    lemma_with_head_fields(with_tail(reg, tail) as u64, head);
    lemma_with_tail_fields(with_head(reg, head) as u64, tail);
    lemma_fields_determine(
        with_head(with_tail(reg, tail) as u64, head) as u64,
        with_tail(with_head(reg, head) as u64, tail) as u64,
    );
}

/// A drain comes to an end whatever the device hands back: it asks for at
/// most ten actions more than the ring has slots, and every step that asks
/// for another action leaves fewer to go.
pub proof fn lemma_drain_bounded(s: DrainState, input: u64)
    requires
        s.wf(),
    ensures
        0 <= s.steps_left() <= s.layout.capacity + 10,
        !s.action(input).is_terminal() ==> 0 <= s.next(input).steps_left() < s.steps_left(),
{
    let capacity = s.layout.capacity as int;
    if s.phase is ReadingWord {
        lemma_occupancy(s.tail as int, s.head as int, capacity);
        lemma_occupancy(s.tail as int, wrap(s.head + 1, capacity), capacity);
    }
    if s.phase is ReadingOwnIr && head_of(input) < capacity {
        lemma_occupancy(s.tail as int, head_of(input), capacity);
    }
}

/// Whatever the device hands back, a drain writes two registers only. It
/// re-arms the receive control/status register, and it writes the send info
/// register back as it has just read it but for the head byte.
pub proof fn lemma_drain_writes(s: DrainState, input: u64)
    requires
        s.wf(),
    ensures
        s.action(input) matches Action::Write { index, value } ==> {
            ||| index == s.layout.receive_csr() && value == rearmed(input)
            ||| {
                &&& index == s.layout.send_ir()
                &&& head_of(value) == s.tail
                &&& tail_of(value) == tail_of(input)
                &&& upper_of(value) == upper_of(input)
            }
        },
{
    if s.phase is ReadingForPublish {
        lemma_with_head_fields(input, s.tail as int);
    }
}

/// Whatever the device hands back, a send writes to the send half only: a
/// word to a data slot, the doorbell to the control/status register, or the
/// send info register as it has just read it but for the tail byte.
pub proof fn lemma_send_writes(s: TransmitState, input: u64)
    requires
        s.wf(),
    ensures
        s.action(input) matches Action::Write { index, value } ==> {
            ||| {
                &&& s.layout.send_base() <= index < s.layout.send_ir()
                &&& s.next(input).phase is WritingWord
                &&& value == s.words[s.next(input).sent + s.next(input).written]
            }
            ||| index == s.layout.send_csr() && value == DOORBELL
            ||| {
                &&& index == s.layout.send_ir()
                &&& tail_of(value) == wrap(s.tail + s.count, s.layout.capacity as int)
                &&& head_of(value) == head_of(input)
                &&& upper_of(value) == upper_of(input)
            }
        },
{
    let capacity = s.layout.capacity as int;
    if s.phase is ReadingForPublish {
        lemma_with_tail_fields(input, wrap(s.tail + s.count, capacity));
    }
}

/// Whatever the device hands back, a drain touches the registers only while
/// it holds the lock: it asks for the lock first, for the acknowledgement
/// last, after the lock has been released, and it reads nothing but the two
/// info registers, the receive control/status register and receive slots.
pub proof fn lemma_drain_accesses(s: DrainState, input: u64)
    requires
        s.wf(),
    ensures
        s.action(input) is Lock <==> s.phase is Idle,
        s.action(input) is Unlock <==> s.phase is Publishing,
        s.action(input) is Acknowledge <==> s.phase is Unlocking,
        s.action(input) is Read || s.action(input) is Write ==> !(s.phase is Idle) && !(s.phase
            is Publishing) && !(s.phase is Unlocking) && !(s.phase is Acknowledging),
        s.action(input) matches Action::Read { index } ==> {
            ||| index == s.layout.receive_csr()
            ||| index == s.layout.receive_ir()
            ||| index == s.layout.send_ir()
            ||| s.layout.receive_base() <= index < s.layout.receive_ir()
        },
{
}

/// Whatever the device hands back, a send asks for register accesses only:
/// it takes no lock and acknowledges nothing. It reads the two info
/// registers and nothing else, and it is finished only when every word has
/// been delivered.
pub proof fn lemma_send_accesses(s: TransmitState, input: u64)
    requires
        s.wf(),
    ensures
        !(s.action(input) is Lock),
        !(s.action(input) is Unlock),
        !(s.action(input) is Acknowledge),
        s.action(input) matches Action::Read { index } ==> index == s.layout.send_ir() || index
            == s.layout.receive_ir(),
        s.action(input) is Finished ==> s.next(input).sent == s.words.len(),
        s.words.len() == 0 ==> (s.phase is Idle ==> s.action(input) is Finished),
{
}

} // verus!
