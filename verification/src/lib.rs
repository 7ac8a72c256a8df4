//! Driver core for paravirtualized devices that exchange buffers with a
//! hypervisor over split virtqueues.
//!
//! The crate has two halves. The transport half ([`transport`]) drives a
//! discovered device from reset to operational state: a status handshake and
//! a feature negotiation whose result is the intersection of what the device
//! offers and what the driver supports. The queue half ([`queue`]) moves
//! scatter-gather buffer sets to the device through a descriptor table, an
//! available ring and a used ring, and retrieves completions, enforcing the
//! ring invariants: the free list and the descriptors held by outstanding
//! chains partition the descriptor space at every step.
//!
//! The device itself is an independently scheduled party. It is reached
//! through the [`transport::Transport`] trait; [`sim`] provides an in-process
//! device model for exercising the synchronous request path, and [`v9p`] a
//! filesystem-transport adapter built on the queue engine.

pub mod errors;
pub mod hal;
pub mod queue;
pub mod sim;
pub mod transport;
pub mod v9p;
