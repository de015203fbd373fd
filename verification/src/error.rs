use vstd::prelude::*;

verus! {

/// The error of the standard library's I/O functions, carried through unopened.
#[verifier::external_type_specification]
#[verifier::external_body]
pub struct ExIoError(std::io::Error);

/// Why an access to guest memory failed.
#[derive(Debug)]
pub enum GuestMemoryError {
    /// The address lies in no region of the guest's memory.
    InvalidGuestAddress(u64),
    /// Reading from or writing to a file or stream failed. No access to packets ends so.
    IOError(std::io::Error),
    /// Only the first `completed` of the `expected` bytes could be accessed.
    PartialBuffer { expected: usize, completed: usize },
    /// The range runs past the end of the region that it starts in.
    InvalidBackendAddress,
    /// The region has no address in the host's memory. No access to packets ends so.
    HostAddressNotAvailable,
}

/// Why a packet could not be assembled, or not be written back.
#[derive(Debug)]
pub enum VsockError {
    /// The descriptor is write-only where a readable one is needed.
    UnreadableDescriptor,
    /// The descriptor is read-only where a writable one is needed.
    UnwritableDescriptor,
    /// The packet header does not lie in guest memory.
    GuestMemoryBounds,
    /// The header descriptor, whose length this is, cannot hold a packet header.
    HdrDescTooSmall(u32),
    /// The chain ends before the data descriptor.
    BufDescMissing,
    /// The data descriptor cannot hold the data that the header announces.
    BufDescTooSmall,
    /// The header announces this length, which is more than a packet may carry.
    InvalidPktLen(u32),
    /// Guest memory could not be accessed.
    GuestMemoryMmap(GuestMemoryError),
}

} // verus!
