//! Descriptor chains of a virtio queue.

use vm_memory::GuestMemoryMmap;
use vstd::prelude::*;
use vstd::slice::slice_subrange;

verus! {

/// The chain goes on after this descriptor.
pub const VIRTQ_DESC_F_NEXT: u16 = 1;

/// The device may write to the memory of this descriptor, and not read it.
pub const VIRTQ_DESC_F_WRITE: u16 = 2;

/// One descriptor: a range of guest memory, and what it may be used for.
#[derive(Clone, Copy, Debug, PartialEq, Eq, Structural)]
pub struct Descriptor {
    /// The guest address at which the range starts.
    pub addr: u64,
    /// The length of the range in bytes.
    pub len: u32,
    /// `VIRTQ_DESC_F_*` flags.
    pub flags: u16,
}

impl Descriptor {
    /// Whether the device may only write to the descriptor's memory.
    pub open spec fn write_only(self) -> bool {
        self.flags & VIRTQ_DESC_F_WRITE != 0
    }

    /// Whether the descriptor says that the chain goes on.
    pub open spec fn has_next(self) -> bool {
        self.flags & VIRTQ_DESC_F_NEXT != 0
    }
}

/// A descriptor chain, seen from one of its descriptors on.
pub struct DescriptorChain<'a> {
    /// The memory that the descriptors' addresses lie in.
    pub mem: &'a GuestMemoryMmap,
    /// The descriptor at hand.
    pub desc: Descriptor,
    /// The descriptors that are linked behind it.
    pub rest: &'a [Descriptor],
}

impl<'a> DescriptorChain<'a> {
    /// The descriptor behind the one at hand. A descriptor without `VIRTQ_DESC_F_NEXT` ends the
    /// chain, whatever is linked behind it.
    pub open spec fn next(self) -> Option<Descriptor> {
        if self.desc.has_next() && self.rest@.len() > 0 {
            Some(self.rest@[0])
        } else {
            None
        }
    }

    /// Whether the device may only write to the memory of the descriptor at hand.
    pub fn is_write_only(&self) -> (r: bool)
        ensures
            r == self.desc.write_only(),
    {
        self.desc.flags & VIRTQ_DESC_F_WRITE != 0
    }

    /// The chain from the next descriptor on, or `None` where this descriptor is the last.
    pub fn next_descriptor(&self) -> (r: Option<DescriptorChain<'a>>)
        ensures
            r is Some <==> self.next() is Some,
            r matches Some(chain) ==> {
                &&& chain.mem == self.mem
                &&& Some(chain.desc) == self.next()
                &&& chain.rest@ == self.rest@.skip(1)
            },
    {
        if self.desc.flags & VIRTQ_DESC_F_NEXT != 0 && self.rest.len() > 0 {
            Some(
                DescriptorChain {
                    mem: self.mem,
                    desc: self.rest[0],
                    rest: slice_subrange(self.rest, 1, self.rest.len()),
                },
            )
        } else {
            None
        }
    }
}

} // verus!
