//! The interface that a tracker client offers, whatever protocol it speaks.
//!
//! The bridge neither implements nor calls this interface. It is the one
//! shape that each tracker protocol, over UDP or over HTTP, is fitted to by
//! its own client, so that the rest of a program can use any of them.
use vstd::prelude::*;
use crate::address::{IpAddress, SocketAddress};

verus! {

/// The error of an I/O operation, `std::io::Error`, carried through as it
/// is: nothing is known of what it holds.
#[verifier::external_type_specification]
#[verifier::external_body]
pub struct ExIoError(std::io::Error);

/// The receiving end of a channel, `std::sync::mpsc::Receiver`, carried
/// through as it is: nothing is known of what it holds.
#[verifier::external_type_specification]
#[verifier::external_body]
#[verifier::reject_recursive_types(T)]
pub struct ExReceiver<T>(std::sync::mpsc::Receiver<T>);

/// How a swarm stands, as a tracker counts it.
#[derive(Clone, Copy, Debug, PartialEq, Eq)]
pub struct ScrapeInfo {
    /// How many peers are still downloading.
    pub leechers: i32,
    /// How many peers have the whole torrent.
    pub seeders: i32,
    /// How many times the torrent has been downloaded completely.
    pub downloads: i32,
}

/// What a tracker answers to an announce: the state of the swarm that the
/// client is now part of.
pub struct AnnounceInfo {
    /// Signals each time the next update is due.
    pub interval: std::sync::mpsc::Receiver<()>,
    /// How many peers in the swarm are still downloading.
    pub leechers: i32,
    /// How many peers in the swarm have the whole torrent.
    pub seeders: i32,
    /// Where peers of the swarm can be reached.
    pub peers: Vec<SocketAddress>,
}

/// What every tracker client can do, whatever protocol it speaks. Each
/// operation blocks until the tracker has answered, and each may fail with
/// an I/O error.
pub trait Tracker {
    /// The local IP address from which the tracker is reached.
    fn local_ip(&mut self) -> Result<IpAddress, std::io::Error>;

    /// Asks how the swarm of one torrent stands, without joining it.
    fn scrape(&mut self) -> Result<ScrapeInfo, std::io::Error>;

    /// Announces that a download of `total_bytes` begins. The client joins
    /// the swarm by this, and stays in it as long as it sends an update,
    /// with `update_announce`, whenever `interval` signals.
    fn start_announce(&mut self, total_bytes: usize) -> Result<AnnounceInfo, std::io::Error>;

    /// Announces how far the download has come. The tracker takes this as
    /// the sign that the client is still there and wants to stay in the
    /// swarm.
    fn update_announce(&mut self, total_down: usize, total_left: usize, total_up: usize) -> Result<
        AnnounceInfo,
        std::io::Error,
    >;

    /// Announces that the client leaves, so that the tracker takes it out
    /// of the swarm.
    fn stop_announce(&mut self, total_down: usize, total_left: usize, total_up: usize) -> Result<
        (),
        std::io::Error,
    >;

    /// Announces that the download of `total_bytes` is complete.
    fn complete_announce(&mut self, total_bytes: usize) -> Result<(), std::io::Error>;
}

} // verus!
