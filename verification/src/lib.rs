//! A minimal append-only ledger shared by loosely connected nodes.
//!
//! Each node keeps an ordered sequence of blocks linked by content digests and
//! exchanges blocks with its peers through a small length-prefixed protocol.
//!
//! The library holds the data model and every decision of the protocol, with
//! contracts that Verus checks: how a block is sealed, what keeps a chain
//! linked, how a message becomes a frame and back, what a listener does with
//! a request, and when a remote chain replaces the local one. It reads the
//! clock and nothing else: sockets, locks and the terminal belong to the
//! program that embeds it.
//!
//! Three crates are called and trusted as their contracts here say: `time`
//! for the clock, `sha1` for the digest, and `bincode` for the layout of
//! values in bytes.

pub mod address;
pub mod block;
pub mod blocks;
pub mod chain;
pub mod clock;
pub mod codec;
pub mod digest;
pub mod error;
pub mod hash_content;
pub mod message;
pub mod peers;
pub mod sync;
pub mod wire;
