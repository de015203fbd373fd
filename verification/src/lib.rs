//! Vsock packets over guest memory.
//!
//! A packet reaches the device as a chain of one or two descriptors: the head holds the packet
//! header, and an optional second descriptor holds the packet data. [`packet::VsockPacket`] is
//! assembled from such a chain, for either direction, and keeps a local copy of the header.
//!
//! - [`endian`]: little-endian integers as bytes.
//! - [`header`]: the packet header and its layout in memory.
//! - [`memory`]: guest memory, and everything that is believed about it without proof.
//! - [`descriptor`]: the descriptor chain.
//! - [`packet`]: the packet.
//! - [`buffer`]: access to the packet data where it lies.
//! - [`laws`]: what holds across several operations.

pub mod buffer;
pub mod descriptor;
pub mod endian;
pub mod error;
pub mod header;
pub mod laws;
pub mod memory;
pub mod packet;
