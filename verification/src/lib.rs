//! Transfer protocol of a bidirectional hardware mailbox.
//!
//! Two processing domains share a small register window. Each direction is a
//! ring of data slots with a packed head/tail info register and a
//! control/status register. This crate holds the protocol that runs on one
//! side of the window: the bit-field codec, the interrupt-driven receive
//! drain and the flow-controlled send.
//!
//! The crate never touches a device. `drain::Drain` and `send::Transmit` run
//! the protocol one step at a time: a step takes what the last register
//! access brought back and names the next one, so the caller alone performs
//! the accesses, one at a time and in order. The peer may change the window
//! between any two of them; what the steps do holds whatever they read.
//!
//! `window::RegisterFile` is a window held in memory. `init::pre_init`,
//! `drain::rx_irq_handle` and `send::block_send` run the same steps on it,
//! and their contracts state the effect on the cells. `laws` states what
//! follows for the protocol as a whole: words arrive complete and in order,
//! the ring never overflows, and each side writes only the bytes it owns.
//! `interleaving` states the same of a send and a drain at the two ends of
//! one ring whose steps alternate in any order.

pub mod codec;
pub mod drain;
pub mod init;
pub mod interleaving;
pub mod laws;
pub mod layout;
pub mod model;
pub mod platform;
pub mod send;
pub mod window;
