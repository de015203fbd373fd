//! Access to the data of a packet where it lies in guest memory.

use crate::memory::{
    agrees, guest_bytes, guest_regions, in_one_region, lemma_backed_prefix,
    lemma_in_one_region, read_slice, store, write_slice,
};
use vm_memory::GuestMemoryMmap;
use vstd::prelude::*;

verus! {

/// The data buffer of a packet, for reading.
pub struct PacketBuf<'m> {
    /// The memory that the buffer lies in.
    pub mem: &'m GuestMemoryMmap,
    /// The guest address of its first byte.
    pub addr: u64,
    /// Its size in bytes.
    pub size: usize,
}

/// The data buffer of a packet, for writing.
pub struct PacketBufMut<'m> {
    /// The memory that the buffer lies in.
    pub mem: &'m mut GuestMemoryMmap,
    /// The guest address of its first byte.
    pub addr: u64,
    /// Its size in bytes.
    pub size: usize,
}

/// Whether the `size` bytes at `addr` are a buffer in one region of `mem`.
pub open spec fn is_buffer(mem: GuestMemoryMmap, addr: u64, size: usize) -> bool {
    &&& in_one_region(guest_regions(mem), addr as int, size as int)
    &&& addr + size <= u64::MAX
}

impl<'m> PacketBuf<'m> {
    /// Whether the buffer lies in its memory.
    pub open spec fn wf(self) -> bool {
        is_buffer(*self.mem, self.addr, self.size)
    }

    /// The size of the buffer, which may be larger than the length of the packet data.
    pub fn len(&self) -> (r: usize)
        ensures
            r == self.size,
    {
        self.size
    }

    /// Fills `out` with the bytes of the buffer from `offset` on.
    pub fn read(&self, offset: usize, out: &mut [u8])
        requires
            self.wf(),
            offset + old(out)@.len() <= self.size,
        ensures
            final(out)@.len() == old(out)@.len(),
            agrees(guest_bytes(*self.mem), self.addr + offset, final(out)@),
    {
        if out.len() > 0 {
            proof {
                lemma_in_one_region(guest_regions(*self.mem), self.addr as int, self.size as int);
            }
            // The range lies in the buffer, so the copy cannot fail.
            let r = read_slice(self.mem, out, self.addr + offset as u64);
            assert(r is Ok);
        }
    }
}

impl<'m> PacketBufMut<'m> {
    /// Whether the buffer lies in its memory.
    pub open spec fn wf(self) -> bool {
        is_buffer(*self.mem, self.addr, self.size)
    }

    /// The size of the buffer, which may be larger than the length of the packet data.
    pub fn len(&self) -> (r: usize)
        ensures
            r == self.size,
    {
        self.size
    }

    /// Puts `data` into the buffer from `offset` on.
    pub fn write(&mut self, offset: usize, data: &[u8])
        requires
            old(self).wf(),
            offset + data@.len() <= old(self).size,
        ensures
            final(self).wf(),
            final(self).addr == old(self).addr,
            final(self).size == old(self).size,
            guest_regions(*final(self).mem) == guest_regions(*old(self).mem),
            guest_bytes(*final(self).mem) == store(
                guest_bytes(*old(self).mem),
                old(self).addr + offset,
                data@,
            ),
            *final(final(self).mem) == *final(old(self).mem),
    {
        if data.len() > 0 {
            proof {
                let regions = guest_regions(*self.mem);
                lemma_in_one_region(regions, self.addr as int, self.size as int);
                lemma_backed_prefix(regions, self.addr + offset, data@.len() as int);
                assert(data@.take(data@.len() as int) =~= data@);
            }
            // The range lies in the buffer, so the copy cannot fail.
            let r = write_slice(self.mem, data, self.addr + offset as u64);
            assert(r is Ok);
        } else {
            assert(store(guest_bytes(*self.mem), self.addr + offset, data@) =~= guest_bytes(
                *self.mem,
            ));
        }
    }
}

} // verus!
