//! The decisions of a bidirectional UDP transport bridge.
//!
//! Two workers move datagrams between a socket and the rest of a program,
//! each through a bounded first-in, first-out queue. The outgoing worker
//! takes datagrams from its queue and writes them to the socket, calling
//! again with what is left after a partial write. The incoming worker reads
//! datagrams from the socket and puts them into its queue. A full queue
//! holds its producer back; a closed queue ends the worker.
//!
//! This crate holds every decision that the workers and the queue make, as
//! functions from a state and what happened to the next state. Waiting,
//! threads and the socket calls themselves belong to the caller, which does
//! what a state asks for and hands back what came of it.
//!
//! - [`queue`]: the bounded queue, and what holds of every use of it.
//! - [`outgoing`]: the worker between a queue and the socket's send call.
//! - [`incoming`]: the worker between the socket's receive call and a queue.
//! - [`datagram`], [`address`]: what the workers move.
//! - [`tracker`]: the interface of a tracker client, which the bridge
//!   serves and does not use.
pub mod address;
pub mod datagram;
pub mod queue;
pub mod outgoing;
pub mod incoming;
pub mod tracker;
