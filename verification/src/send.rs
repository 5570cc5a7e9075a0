//! Flow-controlled send.
//!
//! `Transmit` is the send as a sequence of steps, in the manner of the drain.
//! While the ring is full it asks for the cursors again and again: the wait
//! has no bound. `block_send` runs the steps on an owned window, where no peer
//! makes room in the meantime, and so stops where the steps begin to wait.

use crate::codec::{free_slots, head_field, pack_tail, tail_field, u64_min, u64_mod};
use crate::codec::{free, head_of, tail_of, with_tail, wrap, DOORBELL};
use crate::codec::{lemma_occupancy, lemma_with_tail_fields};
use crate::laws::lemma_send_cursors;
use crate::layout::Layout;
use crate::model::{sendable, sent_cells, written_cells};
use crate::model::{tx_head, tx_ready, tx_tail};
use crate::platform::{Action, Fault};
use crate::window::RegisterFile;
use vstd::prelude::*;
use vstd::slice::slice_to_vec;

verus! {

/// Where a send stands. Each phase but the first and the last two is named
/// after the action that is under way.
#[derive(Clone, Copy, Debug, PartialEq, Eq, Structural)]
pub enum TransmitPhase {
    /// Nothing has been asked for yet.
    Idle,
    /// The send info register is being read for this side's write cursor.
    ReadingOwnIr,
    /// The send info register is being read again because the ring was full.
    Polling,
    /// The receive info register is being read for the peer's read cursor.
    ReadingPeerIr,
    /// A word is being written to its data slot.
    WritingWord,
    /// The send info register is being read again, to publish into it.
    ReadingForPublish,
    /// The new write cursor is being written to the send info register.
    Publishing,
    /// The doorbell is being rung.
    Ringing,
    /// Every word has been delivered.
    Done,
    /// The send stopped on a fault.
    Failed { fault: Fault },
}

/// A send in progress.
pub struct Transmit {
    pub layout: Layout,
    pub phase: TransmitPhase,
    /// The words to deliver.
    pub words: Vec<u64>,
    /// Words delivered by the passes that are complete.
    pub sent: usize,
    /// This side's write cursor at the start of the pass under way.
    pub tail: u64,
    /// Words that the pass under way delivers.
    pub count: u64,
    /// Words of the pass under way whose write is complete.
    pub written: u64,
}

/// A send in progress, with the words as a sequence.
pub struct TransmitState {
    pub layout: Layout,
    pub phase: TransmitPhase,
    pub words: Seq<u64>,
    pub sent: nat,
    pub tail: u64,
    pub count: u64,
    pub written: u64,
}

impl TransmitState {
    /// Whether the phase belongs to a pass that writes words.
    pub open spec fn in_pass(self) -> bool {
        ||| self.phase is WritingWord
        ||| self.phase is ReadingForPublish
        ||| self.phase is Publishing
        ||| self.phase is Ringing
    }

    /// The counters are consistent in the phases that use them.
    pub open spec fn wf(self) -> bool {
        &&& self.layout.wf()
        &&& self.sent <= self.words.len()
        &&& self.phase is Idle ==> self.sent == 0
        &&& (self.phase is ReadingOwnIr || self.phase is Polling || self.phase is ReadingPeerIr)
            ==> self.sent < self.words.len()
        &&& (self.phase is ReadingPeerIr || self.in_pass()) ==> self.tail < self.layout.capacity
        &&& self.in_pass() ==> {
            &&& 0 < self.count < self.layout.capacity
            &&& self.sent + self.count <= self.words.len()
        }
        &&& self.phase is WritingWord ==> self.written < self.count
        &&& self.phase is Done ==> self.sent == self.words.len()
    }

    /// Words of the pass that starts when the ring has `room` free slots.
    pub open spec fn pass_count(self, room: int) -> int {
        if self.words.len() - self.sent < room {
            self.words.len() - self.sent
        } else {
            room
        }
    }

    /// The state that follows when the action under way brought back `input`.
    pub open spec fn next(self, input: u64) -> TransmitState {
        let capacity = self.layout.capacity as int;
        match self.phase {
            TransmitPhase::Idle => if self.words.len() == 0 {
                TransmitState { phase: TransmitPhase::Done, ..self }
            } else {
                TransmitState { phase: TransmitPhase::ReadingOwnIr, ..self }
            },
            TransmitPhase::ReadingOwnIr | TransmitPhase::Polling => if tail_of(input) < capacity {
                TransmitState {
                    phase: TransmitPhase::ReadingPeerIr,
                    tail: tail_of(input) as u64,
                    ..self
                }
            } else {
                TransmitState {
                    phase: TransmitPhase::Failed { fault: Fault::TailOutOfRange },
                    ..self
                }
            },
            TransmitPhase::ReadingPeerIr => if head_of(input) >= capacity {
                TransmitState {
                    phase: TransmitPhase::Failed { fault: Fault::HeadOutOfRange },
                    ..self
                }
            } else if free(self.tail as int, head_of(input), capacity) == 0 {
                TransmitState { phase: TransmitPhase::Polling, ..self }
            } else {
                TransmitState {
                    phase: TransmitPhase::WritingWord,
                    count: self.pass_count(free(self.tail as int, head_of(input), capacity)) as u64,
                    written: 0,
                    ..self
                }
            },
            TransmitPhase::WritingWord => TransmitState {
                phase: if self.written + 1 < self.count {
                    TransmitPhase::WritingWord
                } else {
                    TransmitPhase::ReadingForPublish
                },
                written: (self.written + 1) as u64,
                ..self
            },
            TransmitPhase::ReadingForPublish => TransmitState {
                phase: TransmitPhase::Publishing,
                ..self
            },
            TransmitPhase::Publishing => TransmitState { phase: TransmitPhase::Ringing, ..self },
            TransmitPhase::Ringing => TransmitState {
                phase: if self.sent + self.count == self.words.len() {
                    TransmitPhase::Done
                } else {
                    TransmitPhase::ReadingOwnIr
                },
                sent: self.sent + self.count as nat,
                ..self
            },
            TransmitPhase::Done => self,
            TransmitPhase::Failed { fault } => self,
        }
    }

    /// The action that a step asks for when the action under way brought
    /// back `input`. It is the action of the phase that the step enters.
    pub open spec fn action(self, input: u64) -> Action {
        let layout = self.layout;
        let capacity = layout.capacity as int;
        let after = self.next(input);
        match after.phase {
            TransmitPhase::Idle => Action::Finished,
            TransmitPhase::ReadingOwnIr => Action::Read { index: layout.send_ir() as usize },
            TransmitPhase::Polling => Action::Read { index: layout.send_ir() as usize },
            TransmitPhase::ReadingPeerIr => Action::Read { index: layout.receive_ir() as usize },
            TransmitPhase::WritingWord => Action::Write {
                index: (layout.send_base() + wrap(after.tail + after.written, capacity)) as usize,
                value: after.words[after.sent + after.written],
            },
            TransmitPhase::ReadingForPublish => Action::Read { index: layout.send_ir() as usize },
            TransmitPhase::Publishing => Action::Write {
                index: layout.send_ir() as usize,
                value: with_tail(input, wrap(self.tail + self.count, capacity)) as u64,
            },
            TransmitPhase::Ringing => Action::Write {
                index: layout.send_csr() as usize,
                value: DOORBELL,
            },
            TransmitPhase::Done => Action::Finished,
            TransmitPhase::Failed { fault } => Action::Fail { fault },
        }
    }
}

impl View for Transmit {
    type V = TransmitState;

    open spec fn view(&self) -> TransmitState {
        TransmitState {
            layout: self.layout,
            phase: self.phase,
            words: self.words@,
            sent: self.sent as nat,
            tail: self.tail,
            count: self.count,
            written: self.written,
        }
    }
}

impl Transmit {
    /// A send of `words` that has not started.
    pub fn new(layout: Layout, words: Vec<u64>) -> (transmit: Transmit)
        requires
            layout.wf(),
        ensures
            transmit@.wf(),
            transmit@ == (TransmitState {
                layout,
                phase: TransmitPhase::Idle,
                words: words@,
                sent: 0,
                tail: 0,
                count: 0,
                written: 0,
            }),
    {
        Transmit { layout, phase: TransmitPhase::Idle, words, sent: 0, tail: 0, count: 0, written: 0 }
    }

    /// Takes what the action under way brought back and names the next
    /// action. `input` is the value read after a `Read` and is not looked at
    /// otherwise.
    pub fn step(&mut self, input: u64) -> (action: Action)
        requires
            old(self)@.wf(),
        ensures
            final(self)@.wf(),
            final(self)@ == old(self)@.next(input),
            action == old(self)@.action(input),
            action.within(old(self)@.layout.cell_count()),
    {
        let layout = self.layout;
        let len = self.words.len();
        match self.phase {
            TransmitPhase::Idle => {
                if len == 0 {
                    self.phase = TransmitPhase::Done;
                    Action::Finished
                } else {
                    self.phase = TransmitPhase::ReadingOwnIr;
                    Action::Read { index: layout.send_ir_index() }
                }
            },
            TransmitPhase::ReadingOwnIr | TransmitPhase::Polling => {
                let tail = tail_field(input);
                if tail < layout.capacity {
                    self.tail = tail;
                    self.phase = TransmitPhase::ReadingPeerIr;
                    Action::Read { index: layout.receive_ir_index() }
                } else {
                    self.phase = TransmitPhase::Failed { fault: Fault::TailOutOfRange };
                    Action::Fail { fault: Fault::TailOutOfRange }
                }
            },
            TransmitPhase::ReadingPeerIr => {
                let head = head_field(input);
                if head >= layout.capacity {
                    self.phase = TransmitPhase::Failed { fault: Fault::HeadOutOfRange };
                    Action::Fail { fault: Fault::HeadOutOfRange }
                } else {
                    let room = free_slots(self.tail, head, layout.capacity);
                    if room == 0 {
                        self.phase = TransmitPhase::Polling;
                        Action::Read { index: layout.send_ir_index() }
                    } else {
                        let remaining = len - self.sent;
                        self.count = u64_min(remaining as u64, room);
                        self.written = 0;
                        self.phase = TransmitPhase::WritingWord;
                        Action::Write {
                            index: layout.send_slot(self.tail),
                            value: self.words[self.sent],
                        }
                    }
                }
            },
            TransmitPhase::WritingWord => {
                self.written = self.written + 1;
                if self.written < self.count {
                    let cursor = u64_mod(self.tail + self.written, layout.capacity);
                    Action::Write {
                        index: layout.send_slot(cursor),
                        value: self.words[self.sent + self.written as usize],
                    }
                } else {
                    self.phase = TransmitPhase::ReadingForPublish;
                    Action::Read { index: layout.send_ir_index() }
                }
            },
            TransmitPhase::ReadingForPublish => {
                let tail = u64_mod(self.tail + self.count, layout.capacity);
                self.phase = TransmitPhase::Publishing;
                Action::Write { index: layout.send_ir_index(), value: pack_tail(input, tail) }
            },
            TransmitPhase::Publishing => {
                self.phase = TransmitPhase::Ringing;
                Action::Write { index: layout.send_csr_index(), value: DOORBELL }
            },
            TransmitPhase::Ringing => {
                self.sent = self.sent + self.count as usize;
                if self.sent == len {
                    self.phase = TransmitPhase::Done;
                    Action::Finished
                } else {
                    self.phase = TransmitPhase::ReadingOwnIr;
                    Action::Read { index: layout.send_ir_index() }
                }
            },
            TransmitPhase::Done => Action::Finished,
            TransmitPhase::Failed { fault } => Action::Fail { fault },
        }
    }

    /// Words delivered by the passes that are complete.
    pub fn delivered(&self) -> (sent: usize)
        ensures
            sent == self@.sent,
    {
        self.sent
    }

    /// Whether the send found the ring full and asks for the cursors again.
    pub fn is_waiting(&self) -> (waiting: bool)
        ensures
            waiting == (self@.phase is Polling),
    {
        match self.phase {
            TransmitPhase::Polling => true,
            _ => false,
        }
    }
}

/// The fault that stops a send on a window whose send cursors are not both
/// below the capacity. This side's write cursor is looked at first.
pub open spec fn send_fault(layout: Layout, cells: Seq<u64>) -> Fault {
    if layout.is_cursor(tx_tail(layout, cells)) {
        Fault::HeadOutOfRange
    } else {
        Fault::TailOutOfRange
    }
}

/// The window after the words of a pass have been written and the new write
/// cursor published, before the doorbell is rung.
spec fn published_cells(layout: Layout, cells: Seq<u64>, words: Seq<u64>) -> Seq<u64> {
    let count = sendable(layout, cells, words);
    written_cells(layout, cells, words, count).update(
        layout.send_ir(),
        with_tail(
            cells[layout.send_ir()],
            wrap(tx_tail(layout, cells) + count, layout.capacity as int),
        ) as u64,
    )
}

/// What holds of a send on an owned window between two passes: either no
/// pass has run, or one pass has filled the ring and words are left.
spec fn send_between(start: Seq<u64>, s: TransmitState, cells: Seq<u64>) -> bool {
    let count = sendable(s.layout, start, s.words);
    ||| s.sent == 0 && cells == start
    ||| {
        &&& tx_ready(s.layout, start)
        &&& 0 < count < s.words.len()
        &&& s.sent == count
        &&& cells == sent_cells(s.layout, start, s.words)
    }
}

/// What holds of a send on an owned window during its one pass.
spec fn send_passing(start: Seq<u64>, s: TransmitState) -> bool {
    &&& s.sent == 0
    &&& tx_ready(s.layout, start)
    &&& s.tail == tx_tail(s.layout, start)
    &&& s.count == sendable(s.layout, start, s.words)
}

/// What holds between the steps of a send that started on the window
/// `start`, when the window now holds `cells` and the action under way
/// brought back `input`.
spec fn send_inv(start: Seq<u64>, s: TransmitState, cells: Seq<u64>, input: u64) -> bool {
    let layout = s.layout;
    let count = sendable(layout, start, s.words);
    match s.phase {
        TransmitPhase::Idle => cells == start,
        TransmitPhase::ReadingOwnIr => {
            &&& input == cells[layout.send_ir()]
            &&& send_between(start, s, cells)
        },
        TransmitPhase::ReadingPeerIr => {
            &&& input == cells[layout.receive_ir()]
            &&& s.tail == tx_tail(layout, cells)
            &&& send_between(start, s, cells)
        },
        TransmitPhase::Polling => {
            &&& tx_ready(layout, start)
            &&& s.sent == count
            &&& cells == sent_cells(layout, start, s.words)
        },
        TransmitPhase::WritingWord => {
            &&& send_passing(start, s)
            &&& cells == written_cells(layout, start, s.words, s.written + 1)
        },
        TransmitPhase::ReadingForPublish => {
            &&& send_passing(start, s)
            &&& cells == written_cells(layout, start, s.words, count)
            &&& input == start[layout.send_ir()]
        },
        TransmitPhase::Publishing => {
            &&& send_passing(start, s)
            &&& cells == published_cells(layout, start, s.words)
        },
        TransmitPhase::Ringing => {
            &&& send_passing(start, s)
            &&& cells == sent_cells(layout, start, s.words)
        },
        TransmitPhase::Done => {
            &&& s.words.len() == 0 || tx_ready(layout, start)
            &&& s.sent == count
            &&& cells == sent_cells(layout, start, s.words)
        },
        TransmitPhase::Failed { fault } => {
            &&& s.words.len() > 0
            &&& !tx_ready(layout, start)
            &&& fault == send_fault(layout, start)
            &&& cells == start
        },
    }
}

/// An upper bound on the steps that a send on an owned window has left
/// before it completes, fails or begins to wait.
spec fn send_fuel(s: TransmitState) -> int {
    let capacity = s.layout.capacity as int;
    let ahead = if s.sent == 0 {
        2 * capacity + 20
    } else {
        0
    };
    match s.phase {
        TransmitPhase::Idle => 4 * capacity + 40,
        TransmitPhase::ReadingOwnIr => ahead + capacity + 10,
        TransmitPhase::ReadingPeerIr => ahead + capacity + 9,
        TransmitPhase::WritingWord => ahead + 5 + (s.count - s.written),
        TransmitPhase::ReadingForPublish => ahead + 4,
        TransmitPhase::Publishing => ahead + 3,
        TransmitPhase::Ringing => ahead + 2,
        TransmitPhase::Polling => 0,
        TransmitPhase::Done => 0,
        TransmitPhase::Failed { fault } => 0,
    }
}

/// One step of a send on an owned window keeps what holds between steps,
/// stays inside the window, and uses up fuel until the send waits.
proof fn lemma_send_step(start: Seq<u64>, s: TransmitState, cells: Seq<u64>, input: u64)
    requires
        s.wf(),
        !(s.phase is Polling),
        start.len() >= s.layout.cell_count(),
        send_inv(start, s, cells, input),
    ensures
        s.action(input).within(s.layout.cell_count()),
        s.next(input).phase is Polling ==> send_inv(start, s.next(input), cells, input),
        !s.action(input).is_terminal() && !(s.next(input).phase is Polling) ==> {
            &&& send_inv(
                start,
                s.next(input),
                RegisterFile::cells_after(cells, s.action(input)),
                RegisterFile::input_after(cells, s.action(input)),
            )
            &&& 0 <= send_fuel(s.next(input)) < send_fuel(s)
        },
        s.action(input) is Finished ==> send_inv(start, s.next(input), cells, input) && s.next(
            input,
        ).phase is Done,
        s.action(input) is Fail ==> send_inv(start, s.next(input), cells, input) && s.next(
            input,
        ).phase is Failed && s.action(input)->fault == send_fault(s.layout, start),
{
    let layout = s.layout;
    let capacity = layout.capacity as int;
    let words = s.words;
    let count = sendable(layout, start, words);
    let tail = tx_tail(layout, start);
    let head = tx_head(layout, start);
    if tx_ready(layout, start) {
        lemma_occupancy(tail, head, capacity);
        lemma_send_cursors(layout, start, words);
    }
    match s.phase {
        TransmitPhase::ReadingPeerIr => {
            if s.next(input).phase is WritingWord {
                assert(cells.update(layout.send_base() + tail, words[0]) =~= written_cells(
                    layout,
                    start,
                    words,
                    1,
                ));
            }
        },
        TransmitPhase::WritingWord => {
            let done = s.written + 1;
            if done < count {
                assert(cells.update(layout.send_base() + wrap(tail + done, capacity), words[done])
                    =~= written_cells(layout, start, words, done + 1));
            }
        },
        TransmitPhase::ReadingForPublish => {
            lemma_with_tail_fields(input, wrap(tail + count, capacity));
        },
        _ => {},
    }
}

/// Sends as many words of `msg` as the send ring of an owned window can take.
///
/// An empty `msg` returns at once and touches no register. Otherwise, with
/// both send cursors below the capacity, the words that fit are written behind
/// the write cursor, the cursor is published past them and the doorbell is
/// rung; the number of words sent comes back. Where that is less than the
/// length of `msg` the ring is full, and sending the rest has to wait for the
/// peer. With a cursor out of range nothing is written.
pub fn block_send(regs: &mut RegisterFile, msg: &[u64]) -> (result: Result<usize, Fault>)
    requires
        old(regs).wf(),
    ensures
        final(regs).wf(),
        final(regs).layout() == old(regs).layout(),
        result is Ok <==> msg@.len() == 0 || tx_ready(old(regs).layout(), old(regs)@),
        result matches Ok(sent) ==> {
            &&& sent == sendable(old(regs).layout(), old(regs)@, msg@)
            &&& final(regs)@ == sent_cells(old(regs).layout(), old(regs)@, msg@)
        },
        result matches Err(fault) ==> {
            &&& fault == send_fault(old(regs).layout(), old(regs)@)
            &&& final(regs)@ == old(regs)@
        },
{
    let ghost start = regs@;
    let layout = regs.get_layout();
    let mut transmit = Transmit::new(layout, slice_to_vec(msg));
    let mut input: u64 = 0;
    loop
        invariant
            regs.wf(),
            regs.layout() == layout,
            layout == old(regs).layout(),
            start == old(regs)@,
            start.len() >= layout.cell_count(),
            transmit@.wf(),
            transmit@.layout == layout,
            transmit@.words == msg@,
            !(transmit@.phase is Polling),
            send_inv(start, transmit@, regs@, input),
        decreases send_fuel(transmit@),
    {
        proof {
            lemma_send_step(start, transmit@, regs@, input);
        }
        let action = transmit.step(input);
        match action {
            Action::Finished => {
                return Ok(transmit.delivered());
            },
            Action::Fail { fault } => {
                return Err(fault);
            },
            _ => {
                if transmit.is_waiting() {
                    return Ok(transmit.delivered());
                }
                input = regs.perform(action);
            },
        }
    }
}

} // verus!
