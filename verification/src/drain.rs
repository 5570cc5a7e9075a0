//! Receive drain, run when the mailbox interrupt fires.
//!
//! `Drain` is the drain as a sequence of steps. Each step takes the value that
//! the previous action brought back and names the next action. `rx_irq_handle`
//! runs those steps on an owned window and states what they do to it.

use crate::codec::{head_field, pack_head, rearm, tail_field, u64_mod};
use crate::codec::{head_of, rearmed, tail_of, used, with_head, wrap};
use crate::codec::{lemma_occupancy, lemma_with_head_fields};
use crate::layout::Layout;
use crate::model::{drained_cells, rearmed_cells, ring_words};
use crate::model::{rx_head, rx_pending, rx_ready, rx_tail, rx_used};
use crate::platform::{Action, Fault};
use crate::window::RegisterFile;
use vstd::prelude::*;

verus! {

/// Where a drain stands. Each phase but the first and the last two is named
/// after the action that is under way.
#[derive(Clone, Copy, Debug, PartialEq, Eq, Structural)]
pub enum DrainPhase {
    /// Nothing has been asked for yet.
    Idle,
    /// The lock is being taken.
    Locking,
    /// The receive control/status register is being read.
    ReadingCsr,
    /// The receive control/status register is being re-armed.
    Rearming,
    /// The receive info register is being read for the peer's write cursor.
    ReadingPeerIr,
    /// The send info register is being read for this side's read cursor.
    ReadingOwnIr,
    /// The data slot at the read cursor is being read.
    ReadingWord,
    /// The send info register is being read again, to publish into it.
    ReadingForPublish,
    /// The new read cursor is being written to the send info register.
    Publishing,
    /// The lock is being released.
    Unlocking,
    /// The interrupt is being acknowledged.
    Acknowledging,
    /// The drain is complete.
    Done,
    /// The drain stopped on a fault.
    Failed { fault: Fault },
}

/// A drain in progress.
pub struct Drain {
    pub layout: Layout,
    pub phase: DrainPhase,
    /// This side's read cursor, once it has been read.
    pub head: u64,
    /// The peer's write cursor, once it has been read.
    pub tail: u64,
    /// The words read so far, oldest first.
    pub words: Vec<u64>,
}

/// A drain in progress, with the words as a sequence.
pub struct DrainState {
    pub layout: Layout,
    pub phase: DrainPhase,
    pub head: u64,
    pub tail: u64,
    pub words: Seq<u64>,
}

impl DrainState {
    /// Whether the drain has not read this side's cursor yet.
    pub open spec fn before_words(self) -> bool {
        ||| self.phase is Idle
        ||| self.phase is Locking
        ||| self.phase is ReadingCsr
        ||| self.phase is Rearming
        ||| self.phase is ReadingPeerIr
        ||| self.phase is ReadingOwnIr
    }

    /// The cursors are below the capacity in the phases that use them, and
    /// the words read, with those still to read, never exceed the usable
    /// depth.
    pub open spec fn wf(self) -> bool {
        &&& self.layout.wf()
        &&& (self.phase is ReadingOwnIr || self.phase is ReadingForPublish || self.phase
            is ReadingWord) ==> self.tail < self.layout.capacity
        &&& self.words.len() <= self.layout.usable_depth()
        &&& self.before_words() ==> self.words.len() == 0
        &&& self.phase is ReadingWord ==> {
            &&& self.head < self.layout.capacity
            &&& self.head != self.tail
            &&& self.words.len() + used(
                self.tail as int,
                self.head as int,
                self.layout.capacity as int,
            ) <= self.layout.usable_depth()
        }
    }

    /// An upper bound on the actions that the drain still asks for.
    pub open spec fn steps_left(self) -> int {
        let capacity = self.layout.capacity as int;
        match self.phase {
            DrainPhase::Idle => capacity + 10,
            DrainPhase::Locking => capacity + 9,
            DrainPhase::ReadingCsr => capacity + 8,
            DrainPhase::Rearming => capacity + 7,
            DrainPhase::ReadingPeerIr => capacity + 6,
            DrainPhase::ReadingOwnIr => capacity + 5,
            DrainPhase::ReadingWord => 4 + used(self.tail as int, self.head as int, capacity),
            DrainPhase::ReadingForPublish => 4,
            DrainPhase::Publishing => 3,
            DrainPhase::Unlocking => 2,
            DrainPhase::Acknowledging => 1,
            DrainPhase::Done => 0,
            DrainPhase::Failed { fault } => 0,
        }
    }

    /// The state that follows when the action under way brought back `input`.
    pub open spec fn next(self, input: u64) -> DrainState {
        let capacity = self.layout.capacity as int;
        match self.phase {
            DrainPhase::Idle => DrainState { phase: DrainPhase::Locking, ..self },
            DrainPhase::Locking => DrainState { phase: DrainPhase::ReadingCsr, ..self },
            DrainPhase::ReadingCsr => DrainState { phase: DrainPhase::Rearming, ..self },
            DrainPhase::Rearming => DrainState { phase: DrainPhase::ReadingPeerIr, ..self },
            DrainPhase::ReadingPeerIr => if tail_of(input) < capacity {
                DrainState { phase: DrainPhase::ReadingOwnIr, tail: tail_of(input) as u64, ..self }
            } else {
                DrainState { phase: DrainPhase::Failed { fault: Fault::TailOutOfRange }, ..self }
            },
            DrainPhase::ReadingOwnIr => if head_of(input) >= capacity {
                DrainState { phase: DrainPhase::Failed { fault: Fault::HeadOutOfRange }, ..self }
            } else if head_of(input) == self.tail {
                DrainState {
                    phase: DrainPhase::ReadingForPublish,
                    head: head_of(input) as u64,
                    ..self
                }
            } else {
                DrainState { phase: DrainPhase::ReadingWord, head: head_of(input) as u64, ..self }
            },
            DrainPhase::ReadingWord => {
                let head = wrap(self.head + 1, capacity) as u64;
                DrainState {
                    phase: if head == self.tail {
                        DrainPhase::ReadingForPublish
                    } else {
                        DrainPhase::ReadingWord
                    },
                    head,
                    words: self.words.push(input),
                    ..self
                }
            },
            DrainPhase::ReadingForPublish => DrainState { phase: DrainPhase::Publishing, ..self },
            DrainPhase::Publishing => DrainState { phase: DrainPhase::Unlocking, ..self },
            DrainPhase::Unlocking => DrainState { phase: DrainPhase::Acknowledging, ..self },
            DrainPhase::Acknowledging => if input == 0 {
                DrainState { phase: DrainPhase::Done, ..self }
            } else {
                DrainState { phase: DrainPhase::Failed { fault: Fault::AcknowledgeFailed }, ..self }
            },
            DrainPhase::Done => self,
            DrainPhase::Failed { fault } => self,
        }
    }

    /// The action that a step asks for when the action under way brought
    /// back `input`. It is the action of the phase that the step enters.
    pub open spec fn action(self, input: u64) -> Action {
        let layout = self.layout;
        let after = self.next(input);
        match after.phase {
            DrainPhase::Idle => Action::Finished,
            DrainPhase::Locking => Action::Lock,
            DrainPhase::ReadingCsr => Action::Read { index: layout.receive_csr() as usize },
            DrainPhase::Rearming => Action::Write {
                index: layout.receive_csr() as usize,
                value: rearmed(input) as u64,
            },
            DrainPhase::ReadingPeerIr => Action::Read { index: layout.receive_ir() as usize },
            DrainPhase::ReadingOwnIr => Action::Read { index: layout.send_ir() as usize },
            DrainPhase::ReadingWord => Action::Read {
                index: (layout.receive_base() + after.head) as usize,
            },
            DrainPhase::ReadingForPublish => Action::Read { index: layout.send_ir() as usize },
            DrainPhase::Publishing => Action::Write {
                index: layout.send_ir() as usize,
                value: with_head(input, self.tail as int) as u64,
            },
            DrainPhase::Unlocking => Action::Unlock,
            DrainPhase::Acknowledging => Action::Acknowledge,
            DrainPhase::Done => Action::Finished,
            DrainPhase::Failed { fault } => Action::Fail { fault },
        }
    }
}

impl View for Drain {
    type V = DrainState;

    open spec fn view(&self) -> DrainState {
        DrainState {
            layout: self.layout,
            phase: self.phase,
            head: self.head,
            tail: self.tail,
            words: self.words@,
        }
    }
}

impl Drain {
    /// A drain that has not started.
    pub fn new(layout: Layout) -> (drain: Drain)
        requires
            layout.wf(),
        ensures
            drain@.wf(),
            drain@ == (DrainState {
                layout,
                phase: DrainPhase::Idle,
                head: 0,
                tail: 0,
                words: Seq::empty(),
            }),
    {
        Drain { layout, phase: DrainPhase::Idle, head: 0, tail: 0, words: Vec::new() }
    }

    /// Takes what the action under way brought back and names the next
    /// action. `input` is the value read after a `Read`, the status after an
    /// `Acknowledge`, and is not looked at otherwise.
    pub fn step(&mut self, input: u64) -> (action: Action)
        requires
            old(self)@.wf(),
        ensures
            final(self)@.wf(),
            final(self)@ == old(self)@.next(input),
            action == old(self)@.action(input),
            action.within(old(self)@.layout.cell_count()),
    {
        let layout = self.layout;
        proof {
            if self.phase is ReadingOwnIr && head_of(input) < layout.capacity {
                lemma_occupancy(self.tail as int, head_of(input), layout.capacity as int);
            }
            if self.phase is ReadingWord {
                lemma_occupancy(self.tail as int, self.head as int, layout.capacity as int);
                lemma_occupancy(
                    self.tail as int,
                    wrap(self.head + 1, layout.capacity as int),
                    layout.capacity as int,
                );
            }
        }
        match self.phase {
            DrainPhase::Idle => {
                self.phase = DrainPhase::Locking;
                Action::Lock
            },
            DrainPhase::Locking => {
                self.phase = DrainPhase::ReadingCsr;
                Action::Read { index: layout.receive_csr_index() }
            },
            DrainPhase::ReadingCsr => {
                self.phase = DrainPhase::Rearming;
                Action::Write { index: layout.receive_csr_index(), value: rearm(input) }
            },
            DrainPhase::Rearming => {
                self.phase = DrainPhase::ReadingPeerIr;
                Action::Read { index: layout.receive_ir_index() }
            },
            DrainPhase::ReadingPeerIr => {
                let tail = tail_field(input);
                if tail < layout.capacity {
                    self.tail = tail;
                    self.phase = DrainPhase::ReadingOwnIr;
                    Action::Read { index: layout.send_ir_index() }
                } else {
                    self.phase = DrainPhase::Failed { fault: Fault::TailOutOfRange };
                    Action::Fail { fault: Fault::TailOutOfRange }
                }
            },
            DrainPhase::ReadingOwnIr => {
                let head = head_field(input);
                if head >= layout.capacity {
                    self.phase = DrainPhase::Failed { fault: Fault::HeadOutOfRange };
                    Action::Fail { fault: Fault::HeadOutOfRange }
                } else if head == self.tail {
                    self.head = head;
                    self.phase = DrainPhase::ReadingForPublish;
                    Action::Read { index: layout.send_ir_index() }
                } else {
                    self.head = head;
                    self.phase = DrainPhase::ReadingWord;
                    Action::Read { index: layout.receive_slot(head) }
                }
            },
            DrainPhase::ReadingWord => {
                self.words.push(input);
                let head = u64_mod(self.head + 1, layout.capacity);
                self.head = head;
                if head == self.tail {
                    self.phase = DrainPhase::ReadingForPublish;
                    Action::Read { index: layout.send_ir_index() }
                } else {
                    Action::Read { index: layout.receive_slot(head) }
                }
            },
            DrainPhase::ReadingForPublish => {
                self.phase = DrainPhase::Publishing;
                Action::Write { index: layout.send_ir_index(), value: pack_head(input, self.tail) }
            },
            DrainPhase::Publishing => {
                self.phase = DrainPhase::Unlocking;
                Action::Unlock
            },
            DrainPhase::Unlocking => {
                self.phase = DrainPhase::Acknowledging;
                Action::Acknowledge
            },
            DrainPhase::Acknowledging => {
                if input == 0 {
                    self.phase = DrainPhase::Done;
                    Action::Finished
                } else {
                    self.phase = DrainPhase::Failed { fault: Fault::AcknowledgeFailed };
                    Action::Fail { fault: Fault::AcknowledgeFailed }
                }
            },
            DrainPhase::Done => Action::Finished,
            DrainPhase::Failed { fault } => Action::Fail { fault },
        }
    }

    /// Hands out the words read so far, oldest first.
    pub fn into_words(self) -> (words: Vec<u64>)
        ensures
            words@ == self@.words,
    {
        self.words
    }
}

/// The fault that stops a drain of a window whose receive cursors are not
/// both below the capacity. The peer's write cursor is looked at first.
pub open spec fn drain_fault(layout: Layout, cells: Seq<u64>) -> Fault {
    if layout.is_cursor(rx_tail(layout, cells)) {
        Fault::HeadOutOfRange
    } else {
        Fault::TailOutOfRange
    }
}

/// What holds between the steps of a drain that started on the window
/// `start`, when the window now holds `cells` and the action under way
/// brought back `input`.
spec fn drain_inv(start: Seq<u64>, s: DrainState, cells: Seq<u64>, input: u64) -> bool {
    let layout = s.layout;
    let capacity = layout.capacity as int;
    let armed = rearmed_cells(layout, start);
    let drained = drained_cells(layout, start);
    match s.phase {
        DrainPhase::Idle => cells == start && s.words.len() == 0,
        DrainPhase::Locking => cells == start && s.words.len() == 0,
        DrainPhase::ReadingCsr => {
            &&& cells == start
            &&& s.words.len() == 0
            &&& input == start[layout.receive_csr()]
        },
        DrainPhase::Rearming => cells == armed && s.words.len() == 0,
        DrainPhase::ReadingPeerIr => {
            &&& cells == armed
            &&& s.words.len() == 0
            &&& input == start[layout.receive_ir()]
        },
        DrainPhase::ReadingOwnIr => {
            &&& cells == armed
            &&& s.words.len() == 0
            &&& input == start[layout.send_ir()]
            &&& s.tail == rx_tail(layout, start)
        },
        DrainPhase::ReadingWord => {
            &&& cells == armed
            &&& rx_ready(layout, start)
            &&& s.tail == rx_tail(layout, start)
            &&& s.words.len() < rx_used(layout, start)
            &&& s.head == wrap(rx_head(layout, start) + s.words.len(), capacity)
            &&& input == start[layout.receive_base() + s.head]
            &&& s.words == ring_words(
                start,
                layout.receive_base(),
                capacity,
                rx_head(layout, start),
                s.words.len() as int,
            )
        },
        DrainPhase::ReadingForPublish => {
            &&& cells == armed
            &&& rx_ready(layout, start)
            &&& s.tail == rx_tail(layout, start)
            &&& s.words == rx_pending(layout, start)
            &&& input == start[layout.send_ir()]
        },
        DrainPhase::Publishing | DrainPhase::Unlocking | DrainPhase::Done => {
            &&& cells == drained
            &&& rx_ready(layout, start)
            &&& s.words == rx_pending(layout, start)
        },
        DrainPhase::Acknowledging => {
            &&& cells == drained
            &&& rx_ready(layout, start)
            &&& s.words == rx_pending(layout, start)
            &&& input == 0
        },
        DrainPhase::Failed { fault } => {
            &&& cells == armed
            &&& !rx_ready(layout, start)
            &&& fault == drain_fault(layout, start)
        },
    }
}

/// One step of a drain on an owned window keeps what holds between steps,
/// stays inside the window, and uses up fuel.
proof fn lemma_drain_step(start: Seq<u64>, s: DrainState, cells: Seq<u64>, input: u64)
    requires
        s.wf(),
        start.len() >= s.layout.cell_count(),
        drain_inv(start, s, cells, input),
    ensures
        s.action(input).within(s.layout.cell_count()),
        !s.action(input).is_terminal() ==> {
            &&& drain_inv(
                start,
                s.next(input),
                RegisterFile::cells_after(cells, s.action(input)),
                RegisterFile::input_after(cells, s.action(input)),
            )
            &&& 0 <= s.next(input).steps_left() < s.steps_left()
        },
        s.action(input) is Finished ==> {
            &&& rx_ready(s.layout, start)
            &&& s.next(input).words == rx_pending(s.layout, start)
            &&& cells == drained_cells(s.layout, start)
        },
        s.action(input) is Fail ==> {
            &&& !rx_ready(s.layout, start)
            &&& cells == rearmed_cells(s.layout, start)
            &&& s.action(input)->fault == drain_fault(s.layout, start)
        },
{
    let layout = s.layout;
    let capacity = layout.capacity as int;
    let head = rx_head(layout, start);
    let tail = rx_tail(layout, start);
    if rx_ready(layout, start) {
        lemma_occupancy(tail, head, capacity);
    }
    match s.phase {
        DrainPhase::ReadingOwnIr => {
            if s.next(input).phase is ReadingWord {
                assert(s.next(input).words =~= ring_words(
                    start,
                    layout.receive_base(),
                    capacity,
                    head,
                    0,
                ));
            }
            if s.next(input).phase is ReadingForPublish {
                assert(s.words =~= rx_pending(layout, start));
            }
        },
        DrainPhase::ReadingWord => {
            let count = s.words.len() as int;
            assert(s.words.push(input) =~= ring_words(
                start,
                layout.receive_base(),
                capacity,
                head,
                count + 1,
            ));
            lemma_occupancy(s.tail as int, s.head as int, capacity);
            lemma_occupancy(s.tail as int, s.next(input).head as int, capacity);
        },
        DrainPhase::ReadingForPublish => {
            lemma_with_head_fields(input, s.tail as int);
        },
        _ => {},
    }
}

/// Drains the receive ring of an owned window.
///
/// With both receive cursors below the capacity the unread words come back,
/// oldest first, the receive interrupt is re-armed and this side's read
/// cursor is published at the peer's write cursor. Otherwise the drain stops
/// with a fault once the interrupt has been re-armed.
pub fn rx_irq_handle(regs: &mut RegisterFile) -> (result: Result<Vec<u64>, Fault>)
    requires
        old(regs).wf(),
    ensures
        final(regs).wf(),
        final(regs).layout() == old(regs).layout(),
        result is Ok <==> rx_ready(old(regs).layout(), old(regs)@),
        result matches Ok(words) ==> {
            &&& words@.len() <= old(regs).layout().usable_depth()
            &&& words@ == rx_pending(old(regs).layout(), old(regs)@)
            &&& final(regs)@ == drained_cells(old(regs).layout(), old(regs)@)
        },
        result matches Err(fault) ==> {
            &&& fault == drain_fault(old(regs).layout(), old(regs)@)
            &&& final(regs)@ == rearmed_cells(old(regs).layout(), old(regs)@)
        },
{
    let ghost start = regs@;
    let layout = regs.get_layout();
    let mut drain = Drain::new(layout);
    let mut input: u64 = 0;
    loop
        invariant
            regs.wf(),
            regs.layout() == layout,
            layout == old(regs).layout(),
            start == old(regs)@,
            start.len() >= layout.cell_count(),
            drain@.wf(),
            drain@.layout == layout,
            drain_inv(start, drain@, regs@, input),
        decreases drain@.steps_left(),
    {
        proof {
            lemma_drain_step(start, drain@, regs@, input);
        }
        let action = drain.step(input);
        match action {
            Action::Finished => {
                return Ok(drain.into_words());
            },
            Action::Fail { fault } => {
                return Err(fault);
            },
            _ => {
                input = regs.perform(action);
            },
        }
    }
}

} // verus!
