//! A userspace, poll-mode packet-I/O model: device configuration and its
//! state machine, queue setup, bounded-batch receive/transmit against
//! per-queue rings, reference-counted segment-chained packet buffers drawn
//! from fixed-size pools, and a deferred transmit-buffering layer.

pub mod errors;
pub mod ethdev;
pub mod flags;
pub mod mbuf;
pub mod txbuffer;
