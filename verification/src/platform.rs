//! What the protocol asks of the platform.
//!
//! The protocol never touches the device itself. Each step names one action:
//! a register access, a lock operation or the interrupt acknowledgement. The
//! caller performs it and hands the value that came back to the next step, so
//! every access happens once, in the order in which the steps ask for it.

use vstd::prelude::*;

verus! {

/// Why a transfer stopped without completing. None of these is recoverable:
/// the caller is expected to fail fast.
#[derive(Clone, Copy, Debug, PartialEq, Eq, Structural)]
pub enum Fault {
    /// A consumer cursor read from an info register is not below the capacity.
    HeadOutOfRange,
    /// A producer cursor read from an info register is not below the capacity.
    TailOutOfRange,
    /// The platform reported a failure when the interrupt was acknowledged.
    /// Going on would risk an interrupt line that stays asserted.
    AcknowledgeFailed,
}

/// One request to the platform.
#[derive(Clone, Copy, Debug, PartialEq, Eq, Structural)]
pub enum Action {
    /// Take the driver-wide lock, blocking until it is free.
    Lock,
    /// Release the driver-wide lock.
    Unlock,
    /// Read the register at `index` once and hand its value to the next step.
    Read { index: usize },
    /// Write `value` to the register at `index` once.
    Write { index: usize, value: u64 },
    /// Acknowledge the interrupt and hand the status to the next step.
    Acknowledge,
    /// The transfer is complete.
    Finished,
    /// The transfer cannot go on. A drain that stops on a cursor out of
    /// range has taken the lock and does not release it.
    Fail { fault: Fault },
}

impl Action {
    /// Whether the action is an access to a register below `cells`, or no
    /// register access at all.
    pub open spec fn within(self, cells: int) -> bool {
        match self {
            Action::Read { index } => index < cells,
            Action::Write { index, value } => index < cells,
            _ => true,
        }
    }

    /// Whether the action ends the transfer.
    pub open spec fn is_terminal(self) -> bool {
        self is Finished || self is Fail
    }
}

} // verus!
