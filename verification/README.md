# vsock_packet

Vsock packets over guest memory, verified with Verus.

A packet comes as a chain of one or two virtio descriptors: the head holds a 44-byte header, the
optional second descriptor holds the data. `VsockPacket` is assembled from a TX or an RX chain,
keeps a local copy of the header, and says where in guest memory the data lies.

- `src/endian.rs`: little-endian integers
- `src/header.rs`: what a header says, and its layout in memory
- `src/memory.rs`: guest memory (`vm_memory::GuestMemoryMmap`), with all that is believed about it
- `src/descriptor.rs`: descriptor chains
- `src/packet.rs`: the header and the packet
- `src/buffer.rs`: reading and writing the packet data where it lies
- `src/laws.rs`: what holds across several operations
- `app/`: glue that needs `unsafe`

Guest memory is shared with a running guest. Contracts speak of the bytes that nothing else stores
to; of all others they say only what holds whatever is read.
