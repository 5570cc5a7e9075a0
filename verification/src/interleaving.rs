//! The protocol against a peer that works at the same time.
//!
//! Between any two steps of a send the peer may take words from the front of
//! the send ring and move its read cursor. Between any two steps of a drain
//! it may put words behind the unread ones and move its write cursor. The
//! steps work on values that may be out of date by then. What is stated here
//! holds all the same: no word is lost, duplicated or reordered.
//!
//! The moves of the peer are those of the other end of one ring. A send and
//! a drain on the same side are not moves of each other: both write the send
//! info register of their side, each after reading it, so the caller has to
//! keep one from running between the read and the write of the other.

use crate::codec::{free, head_of, tail_of, used, wrap, DOORBELL};
use crate::codec::{lemma_occupancy, lemma_with_head_fields, lemma_with_tail_fields};
use crate::drain::{DrainPhase, DrainState};
use crate::layout::Layout;
use crate::laws::lemma_peer_sees_send_ring;
use crate::model::{mirrored, rx_head, rx_pending, rx_ready, rx_tail, rx_used};
use crate::model::{tx_free, tx_head, tx_in_flight, tx_ready, tx_tail, tx_used};
use crate::platform::Action;
use crate::send::{TransmitPhase, TransmitState};
use crate::window::RegisterFile;
use vstd::prelude::*;

verus! {

/// What the peer may do to the window while a send is under way. It takes
/// the `taken` oldest words in flight and moves its read cursor past them.
/// It may change its own half and the send control/status register as it
/// likes. It never writes a send slot or the send info register.
pub open spec fn consumer_moves(layout: Layout, before: Seq<u64>, after: Seq<u64>, taken: int) -> bool {
    &&& after.len() == before.len()
    &&& 0 <= taken <= tx_used(layout, before)
    &&& tx_head(layout, after) == wrap(tx_head(layout, before) + taken, layout.capacity as int)
    &&& forall|j: int| 0 <= j <= layout.send_ir() ==> after[j] == before[j]
}

/// Words that a send has published to the ring: those of the passes that are
/// complete, and those of the pass under way once its write cursor is out.
pub open spec fn published(s: TransmitState) -> int {
    if s.phase is Publishing || s.phase is Ringing {
        s.sent + s.count
    } else {
        s.sent as int
    }
}

/// Words that the step from `s` puts in flight: those of the pass under way
/// where the step publishes the write cursor, none otherwise.
pub open spec fn appended(s: TransmitState) -> Seq<u64> {
    if s.phase is ReadingForPublish {
        s.words.subrange(s.sent as int, s.sent + s.count)
    } else {
        Seq::empty()
    }
}

/// Whether send slot number `i` behind the write cursor `tail` holds word
/// number `i` of the pass under way.
pub open spec fn slot_holds(s: TransmitState, cells: Seq<u64>, i: int) -> bool {
    cells[s.layout.send_base() + wrap(s.tail + i, s.layout.capacity as int)] == s.words[s.sent + i]
}

/// What holds between the steps of a send and the moves of the peer, in any
/// order. The send started when `before` was in flight; the window now holds
/// `cells`, the action under way brought back `input`, and the peer has taken
/// `consumed` since the start.
pub open spec fn sending(
    before: Seq<u64>,
    s: TransmitState,
    cells: Seq<u64>,
    input: u64,
    consumed: Seq<u64>,
) -> bool {
    let layout = s.layout;
    let capacity = layout.capacity as int;
    let tail = tx_tail(layout, cells);
    &&& cells.len() >= layout.cell_count()
    &&& tx_ready(layout, cells)
    &&& consumed + tx_in_flight(layout, cells) == before + s.words.take(published(s))
    &&& match s.phase {
        TransmitPhase::Idle => true,
        TransmitPhase::ReadingOwnIr => input == cells[layout.send_ir()],
        TransmitPhase::Polling => input == cells[layout.send_ir()],
        TransmitPhase::ReadingPeerIr => {
            &&& s.tail == tail
            &&& layout.is_cursor(head_of(input))
            &&& free(tail, head_of(input), capacity) <= tx_free(layout, cells)
        },
        TransmitPhase::WritingWord => {
            &&& s.tail == tail
            &&& s.count <= tx_free(layout, cells)
            &&& forall|i: int| 0 <= i <= s.written ==> #[trigger] slot_holds(s, cells, i)
        },
        TransmitPhase::ReadingForPublish => {
            &&& s.tail == tail
            &&& s.count <= tx_free(layout, cells)
            &&& forall|i: int| 0 <= i < s.count ==> #[trigger] slot_holds(s, cells, i)
            &&& input == cells[layout.send_ir()]
        },
        TransmitPhase::Publishing => tail == wrap(s.tail + s.count, capacity),
        TransmitPhase::Ringing => tail == wrap(s.tail + s.count, capacity),
        TransmitPhase::Done => true,
        TransmitPhase::Failed { fault } => false,
    }
}

/// A send that has not started meets the invariant on any window whose send
/// cursors are in range, with nothing taken yet.
pub proof fn lemma_sending_starts(s: TransmitState, cells: Seq<u64>, input: u64)
    requires
        s.wf(),
        s.phase is Idle,
        cells.len() >= s.layout.cell_count(),
        tx_ready(s.layout, cells),
    ensures
        sending(tx_in_flight(s.layout, cells), s, cells, input, Seq::<u64>::empty()),
{
    let before = tx_in_flight(s.layout, cells);
    assert(s.words.take(0) =~= Seq::<u64>::empty());
    assert(Seq::<u64>::empty() + before =~= before + s.words.take(0));
}

/// A write to a free send slot changes neither the cursors nor the words in
/// flight.
proof fn lemma_write_free_slot(layout: Layout, cells: Seq<u64>, offset: int, value: u64)
    requires
        layout.wf(),
        cells.len() >= layout.cell_count(),
        tx_ready(layout, cells),
        0 <= offset < tx_free(layout, cells),
    ensures
        ({
            let index = layout.send_base() + wrap(
                tx_tail(layout, cells) + offset,
                layout.capacity as int,
            );
            &&& tx_in_flight(layout, cells.update(index, value)) == tx_in_flight(layout, cells)
            &&& tx_tail(layout, cells.update(index, value)) == tx_tail(layout, cells)
            &&& tx_head(layout, cells.update(index, value)) == tx_head(layout, cells)
        }),
{
    let capacity = layout.capacity as int;
    let index = layout.send_base() + wrap(tx_tail(layout, cells) + offset, capacity);
    lemma_occupancy(tx_tail(layout, cells), tx_head(layout, cells), capacity);
    assert(tx_in_flight(layout, cells.update(index, value)) =~= tx_in_flight(layout, cells));
}

/// A write to the send control/status register changes neither the cursors
/// nor the words in flight.
proof fn lemma_write_doorbell(layout: Layout, cells: Seq<u64>, value: u64)
    requires
        layout.wf(),
        cells.len() >= layout.cell_count(),
        tx_ready(layout, cells),
    ensures
        tx_in_flight(layout, cells.update(layout.send_csr(), value)) == tx_in_flight(
            layout,
            cells,
        ),
        tx_tail(layout, cells.update(layout.send_csr(), value)) == tx_tail(layout, cells),
        tx_head(layout, cells.update(layout.send_csr(), value)) == tx_head(layout, cells),
{
    let capacity = layout.capacity as int;
    lemma_occupancy(tx_tail(layout, cells), tx_head(layout, cells), capacity);
    assert(tx_in_flight(layout, cells.update(layout.send_csr(), value)) =~= tx_in_flight(
        layout,
        cells,
    ));
}

/// Publishing the write cursor of a pass whose words stand in their slots
/// puts those words in flight, behind the words that were in flight before.
proof fn lemma_publish_extends(s: TransmitState, cells: Seq<u64>, input: u64)
    requires
        s.wf(),
        s.phase is ReadingForPublish,
        cells.len() >= s.layout.cell_count(),
        tx_ready(s.layout, cells),
        s.tail == tx_tail(s.layout, cells),
        s.count <= tx_free(s.layout, cells),
        forall|i: int| 0 <= i < s.count ==> #[trigger] slot_holds(s, cells, i),
        input == cells[s.layout.send_ir()],
    ensures
        s.action(input) is Write,
        tx_in_flight(s.layout, RegisterFile::cells_after(cells, s.action(input))) == tx_in_flight(
            s.layout,
            cells,
        ) + appended(s),
        tx_tail(s.layout, RegisterFile::cells_after(cells, s.action(input))) == wrap(
            s.tail + s.count,
            s.layout.capacity as int,
        ),
        tx_head(s.layout, RegisterFile::cells_after(cells, s.action(input))) == tx_head(
            s.layout,
            cells,
        ),
{
    let layout = s.layout;
    let capacity = layout.capacity as int;
    let head = tx_head(layout, cells);
    let moved = wrap(s.tail + s.count, capacity);
    let after = RegisterFile::cells_after(cells, s.action(input));
    let old_flight = tx_in_flight(layout, cells);
    let new_flight = tx_in_flight(layout, after);
    let pass = appended(s);
    lemma_occupancy(s.tail as int, head, capacity);
    lemma_with_tail_fields(input, moved);
    lemma_occupancy(moved, head, capacity);
    assert(new_flight.len() == old_flight.len() + s.count);
    assert forall|i: int| 0 <= i < new_flight.len() implies new_flight[i] == (old_flight
        + pass)[i] by {
        if i >= old_flight.len() {
            assert(slot_holds(s, cells, i - old_flight.len()));
        }
    }
    assert(new_flight =~= old_flight + pass);
}

/// What a step of the send does to the ring: it puts the words that it
/// publishes behind those in flight and moves the write cursor past them; it
/// never has more of them than there are free slots, it never writes a slot
/// that holds a word in flight, and it leaves the peer's info register alone.
pub proof fn lemma_sending_effect(
    before: Seq<u64>,
    s: TransmitState,
    cells: Seq<u64>,
    input: u64,
    consumed: Seq<u64>,
)
    requires
        s.wf(),
        sending(before, s, cells, input, consumed),
    ensures
        !(s.action(input) is Fail),
        s.action(input).within(s.layout.cell_count()),
        tx_in_flight(s.layout, RegisterFile::cells_after(cells, s.action(input))) == tx_in_flight(
            s.layout,
            cells,
        ) + appended(s),
        tx_tail(s.layout, RegisterFile::cells_after(cells, s.action(input))) == wrap(
            tx_tail(s.layout, cells) + appended(s).len(),
            s.layout.capacity as int,
        ),
        tx_head(s.layout, RegisterFile::cells_after(cells, s.action(input))) == tx_head(
            s.layout,
            cells,
        ),
        appended(s).len() <= tx_free(s.layout, cells),
        RegisterFile::cells_after(cells, s.action(input))[s.layout.receive_ir()]
            == cells[s.layout.receive_ir()],
        s.next(input).words.take(published(s.next(input))) == s.words.take(published(s))
            + appended(s),
{
    let layout = s.layout;
    let capacity = layout.capacity as int;
    let tail = tx_tail(layout, cells);
    let head = tx_head(layout, cells);
    let old_flight = tx_in_flight(layout, cells);
    lemma_occupancy(tail, head, capacity);
    if s.phase is ReadingForPublish {
        lemma_publish_extends(s, cells, input);
        assert(s.words.take(s.sent + s.count) =~= s.words.take(s.sent as int) + appended(s));
    } else {
        assert(old_flight + appended(s) =~= old_flight);
        assert(s.words.take(published(s)) + appended(s) =~= s.words.take(published(s)));
        match s.phase {
            TransmitPhase::ReadingPeerIr => {
                lemma_occupancy(tail, head_of(input), capacity);
                if s.next(input).phase is WritingWord {
                    lemma_write_free_slot(layout, cells, 0, s.words[s.sent as int]);
                }
            },
            TransmitPhase::WritingWord => {
                if s.next(input).phase is WritingWord {
                    let offset = s.written + 1;
                    lemma_write_free_slot(layout, cells, offset, s.words[s.sent + offset]);
                }
            },
            TransmitPhase::Publishing => {
                lemma_write_doorbell(layout, cells, DOORBELL);
            },
            _ => {},
        }
    }
}

/// A step of the send keeps the invariant.
pub proof fn lemma_sending_step(
    before: Seq<u64>,
    s: TransmitState,
    cells: Seq<u64>,
    input: u64,
    consumed: Seq<u64>,
)
    requires
        s.wf(),
        sending(before, s, cells, input, consumed),
    ensures
        sending(
            before,
            s.next(input),
            RegisterFile::cells_after(cells, s.action(input)),
            RegisterFile::input_after(cells, s.action(input)),
            consumed,
        ),
{
    let layout = s.layout;
    let capacity = layout.capacity as int;
    let tail = tx_tail(layout, cells);
    let head = tx_head(layout, cells);
    let t = s.next(input);
    let after = RegisterFile::cells_after(cells, s.action(input));
    let old_flight = tx_in_flight(layout, cells);
    let old_words = s.words.take(published(s));
    lemma_sending_effect(before, s, cells, input, consumed);
    assert(consumed + tx_in_flight(layout, after) == before + t.words.take(published(t))) by {
        assert(consumed + (old_flight + appended(s)) =~= (consumed + old_flight) + appended(s));
        assert(before + (old_words + appended(s)) =~= (before + old_words) + appended(s));
    }
    lemma_occupancy(tail, head, capacity);
    match s.phase {
        TransmitPhase::ReadingPeerIr => {
            lemma_occupancy(tail, head_of(input), capacity);
            if t.phase is WritingWord {
                assert(slot_holds(t, after, 0));
            }
        },
        TransmitPhase::WritingWord => {
            if t.phase is WritingWord {
                assert forall|i: int| 0 <= i <= t.written implies #[trigger] slot_holds(
                    t,
                    after,
                    i,
                ) by {
                    if i < t.written {
                        assert(slot_holds(s, cells, i));
                    }
                }
            } else {
                assert forall|i: int| 0 <= i < t.count implies #[trigger] slot_holds(
                    t,
                    after,
                    i,
                ) by {
                    assert(slot_holds(s, cells, i));
                }
            }
        },
        _ => {},
    }
}

/// A move of the peer keeps the invariant: what it takes goes from the words
/// in flight to the words taken, and nothing that the send relies on changes.
pub proof fn lemma_sending_peer(
    before: Seq<u64>,
    s: TransmitState,
    cells: Seq<u64>,
    input: u64,
    consumed: Seq<u64>,
    after: Seq<u64>,
    taken: int,
)
    requires
        s.wf(),
        sending(before, s, cells, input, consumed),
        consumer_moves(s.layout, cells, after, taken),
    ensures
        sending(before, s, after, input, consumed + tx_in_flight(s.layout, cells).take(taken)),
{
    let layout = s.layout;
    let capacity = layout.capacity as int;
    let tail = tx_tail(layout, cells);
    let head = tx_head(layout, cells);
    let moved = tx_head(layout, after);
    let old_flight = tx_in_flight(layout, cells);
    let new_flight = tx_in_flight(layout, after);
    lemma_occupancy(tail, head, capacity);
    lemma_occupancy(tail, moved, capacity);
    assert(new_flight =~= old_flight.skip(taken));
    assert(old_flight.take(taken) + old_flight.skip(taken) =~= old_flight);
    assert((consumed + old_flight.take(taken)) + new_flight =~= consumed + old_flight);
    match s.phase {
        TransmitPhase::WritingWord => {
            assert forall|i: int| 0 <= i <= s.written implies #[trigger] slot_holds(
                s,
                after,
                i,
            ) by {
                assert(slot_holds(s, cells, i));
            }
        },
        TransmitPhase::ReadingForPublish => {
            assert forall|i: int| 0 <= i < s.count implies #[trigger] slot_holds(s, after, i) by {
                assert(slot_holds(s, cells, i));
            }
        },
        _ => {},
    }
}

/// When the send is finished, the words that the peer has taken, followed by
/// those still in flight, are what was in flight at the start followed by
/// every word sent: nothing is lost, duplicated or out of order.
pub proof fn lemma_sending_done(
    before: Seq<u64>,
    s: TransmitState,
    cells: Seq<u64>,
    input: u64,
    consumed: Seq<u64>,
)
    requires
        s.wf(),
        sending(before, s, cells, input, consumed),
        s.action(input) is Finished,
    ensures
        consumed + tx_in_flight(s.layout, cells) == before + s.words,
        s.next(input).sent == s.words.len(),
{
    lemma_sending_step(before, s, cells, input, consumed);
    let t = s.next(input);
    assert(t.words.take(t.words.len() as int) =~= t.words);
}

/// What the peer may do to the window while a drain is under way. It puts
/// the words `added` into free receive slots and moves its write cursor past
/// them, so that they follow the unread words. It may change the rest of its
/// own half as it likes. It never writes the send info register.
pub open spec fn producer_moves(layout: Layout, before: Seq<u64>, after: Seq<u64>, added: Seq<u64>) -> bool {
    &&& after.len() == before.len()
    &&& added.len() <= free(rx_tail(layout, before), rx_head(layout, before), layout.capacity as int)
    &&& rx_tail(layout, after) == wrap(
        rx_tail(layout, before) + added.len(),
        layout.capacity as int,
    )
    &&& after[layout.send_ir()] == before[layout.send_ir()]
    &&& rx_pending(layout, after) == rx_pending(layout, before) + added
}

/// Whether the drain has published its read cursor.
pub open spec fn has_published(s: DrainState) -> bool {
    ||| s.phase is Publishing
    ||| s.phase is Unlocking
    ||| s.phase is Acknowledging
    ||| s.phase is Done
    ||| s.phase is Failed
}

/// What holds between the steps of a drain and the moves of the peer, in any
/// order. `total` is what the ring held unread when the drain started,
/// followed by everything that the peer has added since; the window now holds
/// `cells`, and the action under way brought back `input`.
pub open spec fn draining(total: Seq<u64>, s: DrainState, cells: Seq<u64>, input: u64) -> bool {
    let layout = s.layout;
    let capacity = layout.capacity as int;
    let head = rx_head(layout, cells);
    let pending = rx_pending(layout, cells);
    let count = s.words.len() as int;
    &&& cells.len() >= layout.cell_count()
    &&& rx_ready(layout, cells)
    &&& if has_published(s) {
        s.words + pending == total
    } else {
        pending == total && count <= pending.len() && s.words == pending.take(count)
    }
    &&& match s.phase {
        DrainPhase::ReadingPeerIr => {
            &&& layout.is_cursor(tail_of(input))
            &&& used(tail_of(input), head, capacity) <= rx_used(layout, cells)
        },
        DrainPhase::ReadingOwnIr => {
            &&& used(s.tail as int, head, capacity) <= rx_used(layout, cells)
            &&& input == cells[layout.send_ir()]
        },
        DrainPhase::ReadingWord => {
            &&& used(s.tail as int, head, capacity) <= rx_used(layout, cells)
            &&& count < used(s.tail as int, head, capacity)
            &&& s.head == wrap(head + count, capacity)
            &&& input == cells[layout.receive_base() + s.head]
        },
        DrainPhase::ReadingForPublish => {
            &&& used(s.tail as int, head, capacity) <= rx_used(layout, cells)
            &&& count == used(s.tail as int, head, capacity)
            &&& input == cells[layout.send_ir()]
        },
        DrainPhase::Failed { fault } => fault is AcknowledgeFailed,
        _ => true,
    }
}

/// A drain that has not started meets the invariant on any window whose
/// receive cursors are in range.
pub proof fn lemma_draining_starts(s: DrainState, cells: Seq<u64>, input: u64)
    requires
        s.wf(),
        s.phase is Idle,
        cells.len() >= s.layout.cell_count(),
        rx_ready(s.layout, cells),
    ensures
        draining(rx_pending(s.layout, cells), s, cells, input),
{
    let pending = rx_pending(s.layout, cells);
    lemma_occupancy(
        rx_tail(s.layout, cells),
        rx_head(s.layout, cells),
        s.layout.capacity as int,
    );
    assert(s.words =~= pending.take(0));
}

/// A step of the drain keeps the invariant. It fails only where the
/// acknowledgement fails, and by then it is complete.
pub proof fn lemma_draining_step(total: Seq<u64>, s: DrainState, cells: Seq<u64>, input: u64)
    requires
        s.wf(),
        draining(total, s, cells, input),
    ensures
        s.action(input).within(s.layout.cell_count()),
        s.action(input) is Fail ==> s.phase is Acknowledging || s.phase is Failed,
        draining(
            total,
            s.next(input),
            RegisterFile::cells_after(cells, s.action(input)),
            RegisterFile::input_after(cells, s.action(input)),
        ),
{
    let layout = s.layout;
    let capacity = layout.capacity as int;
    let head = rx_head(layout, cells);
    let tail = rx_tail(layout, cells);
    let pending = rx_pending(layout, cells);
    let t = s.next(input);
    let action = s.action(input);
    let after = RegisterFile::cells_after(cells, action);
    lemma_occupancy(tail, head, capacity);
    match s.phase {
        DrainPhase::ReadingCsr => {
            assert(rx_pending(layout, after) =~= pending);
        },
        DrainPhase::ReadingPeerIr => {
            lemma_occupancy(tail_of(input), head, capacity);
        },
        DrainPhase::ReadingOwnIr => {
            lemma_occupancy(s.tail as int, head, capacity);
        },
        DrainPhase::ReadingWord => {
            let count = s.words.len() as int;
            lemma_occupancy(s.tail as int, head, capacity);
            lemma_occupancy(s.tail as int, s.head as int, capacity);
            assert(pending[count] == input);
            assert(s.words.push(input) =~= pending.take(count + 1));
        },
        DrainPhase::ReadingForPublish => {
            let count = s.words.len() as int;
            lemma_with_head_fields(input, s.tail as int);
            lemma_occupancy(s.tail as int, head, capacity);
            lemma_occupancy(tail, s.tail as int, capacity);
            assert(rx_pending(layout, after) =~= pending.skip(count));
            assert(pending.take(count) + pending.skip(count) =~= pending);
        },
        _ => {},
    }
}

/// A move of the peer keeps the invariant: what it adds follows the unread
/// words, and nothing that the drain relies on changes.
pub proof fn lemma_draining_peer(
    total: Seq<u64>,
    s: DrainState,
    cells: Seq<u64>,
    input: u64,
    after: Seq<u64>,
    added: Seq<u64>,
)
    requires
        s.wf(),
        draining(total, s, cells, input),
        producer_moves(s.layout, cells, after, added),
    ensures
        draining(total + added, s, after, input),
{
    let layout = s.layout;
    let capacity = layout.capacity as int;
    let head = rx_head(layout, cells);
    let tail = rx_tail(layout, cells);
    let pending = rx_pending(layout, cells);
    let grown = rx_pending(layout, after);
    let count = s.words.len() as int;
    lemma_occupancy(tail, head, capacity);
    lemma_occupancy(rx_tail(layout, after), head, capacity);
    if has_published(s) {
        assert(s.words + (pending + added) =~= (s.words + pending) + added);
    } else {
        assert(grown.take(count) =~= pending.take(count));
        if s.phase is ReadingWord {
            assert(grown[count] == pending[count]);
        }
    }
}

/// When the drain is complete, the words that it hands out, followed by the
/// words still unread, are what was unread at the start followed by
/// everything that the peer has added: nothing is lost, duplicated or out of
/// order. The same holds where the acknowledgement has failed.
pub proof fn lemma_draining_done(total: Seq<u64>, s: DrainState, cells: Seq<u64>, input: u64)
    requires
        s.wf(),
        draining(total, s, cells, input),
        s.action(input).is_terminal(),
    ensures
        s.next(input).words + rx_pending(s.layout, cells) == total,
        s.next(input).words.len() <= s.layout.usable_depth(),
{
    lemma_draining_step(total, s, cells, input);
}

/// The invariant of a drain does not look at what a lock operation or the
/// acknowledgement brought back: whatever status the platform hands over,
/// it holds as before.
pub proof fn lemma_draining_status(
    total: Seq<u64>,
    s: DrainState,
    cells: Seq<u64>,
    input: u64,
    status: u64,
)
    requires
        draining(total, s, cells, input),
        s.phase is Locking || s.phase is Unlocking || s.phase is Acknowledging,
    ensures
        draining(total, s, cells, status),
{
}

/// Words that the drain under way has taken out of flight: all that it has
/// read once it has published its cursor, none before.
pub open spec fn taken_by(d: DrainState) -> Seq<u64> {
    if has_published(d) {
        d.words
    } else {
        Seq::empty()
    }
}

/// The window after the peer has performed `action` on its view of it.
pub open spec fn cells_after_peer(layout: Layout, cells: Seq<u64>, action: Action) -> Seq<u64> {
    mirrored(layout, RegisterFile::cells_after(mirrored(layout, cells), action))
}

/// What holds while this side sends and the peer drains the same ring, the
/// steps of the two in any order. `before` was in flight when the send
/// started, `earlier` is what the drains before this one have handed out.
pub open spec fn exchanging(
    before: Seq<u64>,
    earlier: Seq<u64>,
    s: TransmitState,
    s_input: u64,
    d: DrainState,
    d_input: u64,
    cells: Seq<u64>,
) -> bool {
    let peer = mirrored(s.layout, cells);
    &&& s.wf()
    &&& d.wf()
    &&& d.layout == s.layout
    &&& sending(before, s, cells, s_input, earlier + taken_by(d))
    &&& draining(taken_by(d) + rx_pending(d.layout, peer), d, peer, d_input)
}

/// Seen from the peer, a step of the send is a move of a producer: it adds
/// the words that it publishes behind the unread ones and touches nothing
/// that the peer's drain relies on.
pub proof fn lemma_send_step_produces(
    before: Seq<u64>,
    s: TransmitState,
    cells: Seq<u64>,
    input: u64,
    consumed: Seq<u64>,
)
    requires
        s.wf(),
        sending(before, s, cells, input, consumed),
    ensures
        producer_moves(
            s.layout,
            mirrored(s.layout, cells),
            mirrored(s.layout, RegisterFile::cells_after(cells, s.action(input))),
            appended(s),
        ),
{
    let layout = s.layout;
    let after = RegisterFile::cells_after(cells, s.action(input));
    lemma_sending_effect(before, s, cells, input, consumed);
    lemma_peer_sees_send_ring(layout, cells);
    lemma_peer_sees_send_ring(layout, after);
}

/// A step of the send is a move that the draining peer allows for, and keeps
/// what holds of the two together.
pub proof fn lemma_exchange_send_step(
    before: Seq<u64>,
    earlier: Seq<u64>,
    s: TransmitState,
    s_input: u64,
    d: DrainState,
    d_input: u64,
    cells: Seq<u64>,
)
    requires
        exchanging(before, earlier, s, s_input, d, d_input, cells),
    ensures
        exchanging(
            before,
            earlier,
            s.next(s_input),
            RegisterFile::input_after(cells, s.action(s_input)),
            d,
            d_input,
            RegisterFile::cells_after(cells, s.action(s_input)),
        ),
{
    let layout = s.layout;
    let after = RegisterFile::cells_after(cells, s.action(s_input));
    let peer = mirrored(layout, cells);
    let peer_after = mirrored(layout, after);
    let consumed = earlier + taken_by(d);
    let total = taken_by(d) + rx_pending(layout, peer);
    lemma_sending_step(before, s, cells, s_input, consumed);
    lemma_send_step_produces(before, s, cells, s_input, consumed);
    lemma_draining_peer(total, d, peer, d_input, peer_after, appended(s));
    assert(total + appended(s) =~= taken_by(d) + rx_pending(layout, peer_after));
}

/// A step of the peer's drain is a move that the send allows for, and keeps
/// what holds of the two together.
pub proof fn lemma_exchange_drain_step(
    before: Seq<u64>,
    earlier: Seq<u64>,
    s: TransmitState,
    s_input: u64,
    d: DrainState,
    d_input: u64,
    cells: Seq<u64>,
)
    requires
        exchanging(before, earlier, s, s_input, d, d_input, cells),
    ensures
        exchanging(
            before,
            earlier,
            s,
            s_input,
            d.next(d_input),
            RegisterFile::input_after(mirrored(s.layout, cells), d.action(d_input)),
            cells_after_peer(s.layout, cells, d.action(d_input)),
        ),
{
    let layout = s.layout;
    let capacity = layout.capacity as int;
    let action = d.action(d_input);
    let peer = mirrored(layout, cells);
    let peer_after = RegisterFile::cells_after(peer, action);
    let after = cells_after_peer(layout, cells, action);
    let total = taken_by(d) + rx_pending(layout, peer);
    let t = d.next(d_input);
    lemma_draining_step(total, d, peer, d_input);
    lemma_peer_sees_send_ring(layout, cells);
    lemma_peer_sees_send_ring(layout, after);
    lemma_peer_sees_send_ring(layout, peer_after);
    assert(mirrored(layout, after) =~= peer_after);
    lemma_occupancy(tx_tail(layout, cells), tx_head(layout, cells), capacity);
    let taken = if d.phase is ReadingForPublish {
        d.words.len() as int
    } else {
        0
    };
    if d.phase is ReadingForPublish {
        lemma_with_head_fields(d_input, d.tail as int);
        lemma_occupancy(d.tail as int, rx_head(layout, peer), capacity);
        assert(taken_by(t) =~= tx_in_flight(layout, cells).take(taken));
        assert(taken_by(d) =~= Seq::<u64>::empty());
    } else {
        assert(tx_in_flight(layout, cells).take(0) =~= Seq::<u64>::empty());
        assert(taken_by(t) =~= taken_by(d));
    }
    assert(consumer_moves(layout, cells, after, taken));
    lemma_sending_peer(before, s, cells, s_input, earlier + taken_by(d), after, taken);
    assert((earlier + taken_by(d)) + tx_in_flight(layout, cells).take(taken) =~= earlier
        + taken_by(t));
    // What the drain holds of its own total carries over to the total as it
    // is counted after the step.
    if has_published(t) {
        assert(t.words + rx_pending(layout, peer_after) == total);
        assert(taken_by(t) + rx_pending(layout, peer_after) =~= total);
    } else {
        assert(rx_pending(layout, peer_after) == total);
        assert(taken_by(t) + rx_pending(layout, peer_after) =~= total);
    }
}

/// What holds of the two together does not depend on the status that the
/// platform hands to the peer's drain after a lock operation or the
/// acknowledgement.
pub proof fn lemma_exchange_status(
    before: Seq<u64>,
    earlier: Seq<u64>,
    s: TransmitState,
    s_input: u64,
    d: DrainState,
    d_input: u64,
    cells: Seq<u64>,
    status: u64,
)
    requires
        exchanging(before, earlier, s, s_input, d, d_input, cells),
        d.phase is Locking || d.phase is Unlocking || d.phase is Acknowledging,
    ensures
        exchanging(before, earlier, s, s_input, d, status, cells),
{
}

/// When a drain of the peer has come to its end the next one may start: what
/// the finished drain has handed out counts among the earlier words.
pub proof fn lemma_exchange_next_drain(
    before: Seq<u64>,
    earlier: Seq<u64>,
    s: TransmitState,
    s_input: u64,
    d: DrainState,
    d_input: u64,
    cells: Seq<u64>,
    fresh: DrainState,
    fresh_input: u64,
)
    requires
        exchanging(before, earlier, s, s_input, d, d_input, cells),
        d.phase is Done || d.phase is Failed,
        fresh.wf(),
        fresh.phase is Idle,
        fresh.layout == s.layout,
    ensures
        exchanging(before, earlier + d.words, s, s_input, fresh, fresh_input, cells),
{
    let layout = s.layout;
    let peer = mirrored(layout, cells);
    lemma_draining_starts(fresh, peer, fresh_input);
    assert(taken_by(fresh) =~= Seq::<u64>::empty());
    assert(taken_by(fresh) + rx_pending(layout, peer) =~= rx_pending(layout, peer));
    assert((earlier + d.words) + taken_by(fresh) =~= earlier + taken_by(d));
}

/// Round trip under any interleaving: once the send is finished, what the
/// peer's drains have handed out, followed by what is still in flight, is
/// what was in flight at the start followed by every word sent. Nothing is
/// lost, duplicated or out of order.
pub proof fn lemma_exchange_done(
    before: Seq<u64>,
    earlier: Seq<u64>,
    s: TransmitState,
    s_input: u64,
    d: DrainState,
    d_input: u64,
    cells: Seq<u64>,
)
    requires
        exchanging(before, earlier, s, s_input, d, d_input, cells),
        s.phase is Done,
    ensures
        earlier + taken_by(d) + tx_in_flight(s.layout, cells) == before + s.words,
{
    assert(s.words.take(s.words.len() as int) =~= s.words);
}

/// A send and a drain that have not started, on a window whose send cursors
/// are in range, meet what holds of the two together.
pub proof fn lemma_exchange_starts(
    s: TransmitState,
    s_input: u64,
    d: DrainState,
    d_input: u64,
    cells: Seq<u64>,
)
    requires
        s.wf(),
        d.wf(),
        s.phase is Idle,
        d.phase is Idle,
        d.layout == s.layout,
        cells.len() >= s.layout.cell_count(),
        tx_ready(s.layout, cells),
    ensures
        exchanging(
            tx_in_flight(s.layout, cells),
            Seq::<u64>::empty(),
            s,
            s_input,
            d,
            d_input,
            cells,
        ),
{
    let layout = s.layout;
    let peer = mirrored(layout, cells);
    lemma_peer_sees_send_ring(layout, cells);
    lemma_sending_starts(s, cells, s_input);
    lemma_draining_starts(d, peer, d_input);
    assert(Seq::<u64>::empty() + taken_by(d) =~= Seq::<u64>::empty());
    assert(taken_by(d) + rx_pending(layout, peer) =~= rx_pending(layout, peer));
}

} // verus!
