//! Vsock packets.
//!
//! There is one packet to a descriptor chain. The chain head holds the header, and an optional
//! second descriptor holds the data; it is only there for packets that carry data.

use crate::buffer::{PacketBuf, PacketBufMut};
use crate::descriptor::{Descriptor, DescriptorChain};
use crate::endian::{
    from_le, le_value, lemma_bytes_of_value, lemma_le_value_bound, lemma_span,
    lemma_value_of_bytes, u16_to_le, u32_to_le, u64_to_le,
};
use crate::error::VsockError;
use crate::header::{HeaderView, VSOCK_PKT_HDR_SIZE};
use crate::memory::{
    agrees, backed_prefix, check_range, copy_result, covers, get_slice, guest_bytes,
    guest_regions, lemma_agrees_load, load, range_backed, read_slice, slice_result, store,
    write_slice,
};
use vm_memory::GuestMemoryMmap;
use vstd::prelude::*;

verus! {

/// The most data that a packet may carry, in bytes.
pub const MAX_PKT_BUF_SIZE: usize = 65536;

/// A packet header, held field by field as the bytes that it has in memory.
#[derive(Clone, Copy, Debug)]
pub struct VsockPacketHeader {
    src_cid: [u8; 8],
    dst_cid: [u8; 8],
    src_port: [u8; 4],
    dst_port: [u8; 4],
    len: [u8; 4],
    type_: [u8; 2],
    op: [u8; 2],
    flags: [u8; 4],
    buf_alloc: [u8; 4],
    fwd_cnt: [u8; 4],
}

impl View for VsockPacketHeader {
    type V = HeaderView;

    closed spec fn view(&self) -> HeaderView {
        HeaderView {
            src_cid: le_value(self.src_cid@) as u64,
            dst_cid: le_value(self.dst_cid@) as u64,
            src_port: le_value(self.src_port@) as u32,
            dst_port: le_value(self.dst_port@) as u32,
            len: le_value(self.len@) as u32,
            type_: le_value(self.type_@) as u16,
            op: le_value(self.op@) as u16,
            flags: le_value(self.flags@) as u32,
            buf_alloc: le_value(self.buf_alloc@) as u32,
            fwd_cnt: le_value(self.fwd_cnt@) as u32,
        }
    }
}

impl Default for VsockPacketHeader {
    /// The header in which every field is zero.
    fn default() -> (hdr: Self)
        ensures
            hdr@ == HeaderView::zero(),
    {
        let hdr = VsockPacketHeader {
            src_cid: u64_to_le(0),
            dst_cid: u64_to_le(0),
            src_port: u32_to_le(0),
            dst_port: u32_to_le(0),
            len: u32_to_le(0),
            type_: u16_to_le(0),
            op: u16_to_le(0),
            flags: u32_to_le(0),
            buf_alloc: u32_to_le(0),
            fwd_cnt: u32_to_le(0),
        };
        proof {
            lemma_span();
            lemma_value_of_bytes(0, 8);
            lemma_value_of_bytes(0, 4);
            lemma_value_of_bytes(0, 2);
        }
        hdr
    }
}

impl VsockPacketHeader {
    /// The header that has these bytes in memory.
    pub fn from_bytes(b: &[u8; VSOCK_PKT_HDR_SIZE]) -> (hdr: VsockPacketHeader)
        ensures
            hdr@ == HeaderView::from_wire(b@),
    {
        let hdr = VsockPacketHeader {
            src_cid: [b[0], b[1], b[2], b[3], b[4], b[5], b[6], b[7]],
            dst_cid: [b[8], b[9], b[10], b[11], b[12], b[13], b[14], b[15]],
            src_port: [b[16], b[17], b[18], b[19]],
            dst_port: [b[20], b[21], b[22], b[23]],
            len: [b[24], b[25], b[26], b[27]],
            type_: [b[28], b[29]],
            op: [b[30], b[31]],
            flags: [b[32], b[33], b[34], b[35]],
            buf_alloc: [b[36], b[37], b[38], b[39]],
            fwd_cnt: [b[40], b[41], b[42], b[43]],
        };
        proof {
            assert(hdr.src_cid@ =~= b@.subrange(0, 8));
            assert(hdr.dst_cid@ =~= b@.subrange(8, 16));
            assert(hdr.src_port@ =~= b@.subrange(16, 20));
            assert(hdr.dst_port@ =~= b@.subrange(20, 24));
            assert(hdr.len@ =~= b@.subrange(24, 28));
            assert(hdr.type_@ =~= b@.subrange(28, 30));
            assert(hdr.op@ =~= b@.subrange(30, 32));
            assert(hdr.flags@ =~= b@.subrange(32, 36));
            assert(hdr.buf_alloc@ =~= b@.subrange(36, 40));
            assert(hdr.fwd_cnt@ =~= b@.subrange(40, 44));
        }
        hdr
    }

    /// The bytes that the header has in memory.
    pub fn to_bytes(&self) -> (bytes: [u8; VSOCK_PKT_HDR_SIZE])
        ensures
            bytes@ == self@.to_wire(),
    {
        let (s, d, p, q) = (&self.src_cid, &self.dst_cid, &self.src_port, &self.dst_port);
        let (l, t, o, f) = (&self.len, &self.type_, &self.op, &self.flags);
        let (a, c) = (&self.buf_alloc, &self.fwd_cnt);
        let bytes = [
            s[0], s[1], s[2], s[3], s[4], s[5], s[6], s[7],
            d[0], d[1], d[2], d[3], d[4], d[5], d[6], d[7],
            p[0], p[1], p[2], p[3], q[0], q[1], q[2], q[3],
            l[0], l[1], l[2], l[3], t[0], t[1], o[0], o[1],
            f[0], f[1], f[2], f[3], a[0], a[1], a[2], a[3],
            c[0], c[1], c[2], c[3],
        ];
        proof {
            lemma_span();
            lemma_bytes_of_value(s@);
            lemma_bytes_of_value(d@);
            lemma_bytes_of_value(p@);
            lemma_bytes_of_value(q@);
            lemma_bytes_of_value(l@);
            lemma_bytes_of_value(t@);
            lemma_bytes_of_value(o@);
            lemma_bytes_of_value(f@);
            lemma_bytes_of_value(a@);
            lemma_bytes_of_value(c@);
            assert(bytes@ =~= s@ + d@ + p@ + q@ + l@ + t@ + o@ + f@ + a@ + c@);
        }
        bytes
    }
}

/// What a packet is made of.
pub struct PacketView {
    /// The guest address of the header.
    pub hdr_addr: u64,
    /// The local copy of the header.
    pub hdr: HeaderView,
    /// The guest address of the data buffer, where there is one.
    pub buf: Option<u64>,
    /// The size of the data buffer in bytes.
    pub buf_size: usize,
}

/// A vsock packet: a local copy of the header, and the place of the data in guest memory.
pub struct VsockPacket {
    hdr_addr: u64,
    /// The local copy of the header: read from guest memory once, or written there once.
    pub hdr: VsockPacketHeader,
    buf: Option<u64>,
    buf_size: usize,
}

impl View for VsockPacket {
    type V = PacketView;

    closed spec fn view(&self) -> PacketView {
        PacketView {
            hdr_addr: self.hdr_addr,
            hdr: self.hdr@,
            buf: self.buf,
            buf_size: self.buf_size,
        }
    }
}

/// The header of a packet is its field `hdr`, and its view is made of its other fields as they are:
/// whoever assigns to `hdr` finds the accessors reading the header assigned.
proof fn law_packet_is_its_fields(pkt: VsockPacket)
    ensures
        pkt@.hdr == pkt.hdr@,
        pkt@.hdr_addr == pkt.hdr_addr,
        pkt@.buf == pkt.buf,
        pkt@.buf_size == pkt.buf_size,
{
}

/// The outcome of an assembly, with the packet as its view.
pub open spec fn outcome(r: Result<VsockPacket, VsockError>) -> Result<PacketView, VsockError> {
    match r {
        Ok(pkt) => Ok(pkt@),
        Err(e) => Err(e),
    }
}

/// Whether `desc` is usable in the wanted direction, and else the error.
pub open spec fn direction_result(desc: Descriptor, expected_write_only: bool) -> Result<
    (),
    VsockError,
> {
    if desc.write_only() == expected_write_only {
        Ok(())
    } else if desc.write_only() {
        Err(VsockError::UnreadableDescriptor)
    } else {
        Err(VsockError::UnwritableDescriptor)
    }
}

/// Whether `desc` is usable for a packet header, and else the error.
pub open spec fn hdr_desc_result(
    regions: Seq<(u64, u64)>,
    desc: Descriptor,
    expected_write_only: bool,
) -> Result<(), VsockError> {
    if direction_result(desc, expected_write_only) is Err {
        direction_result(desc, expected_write_only)
    } else if !range_backed(regions, desc.addr as int, VSOCK_PKT_HDR_SIZE as int) {
        Err(VsockError::GuestMemoryBounds)
    } else if desc.len < VSOCK_PKT_HDR_SIZE {
        Err(VsockError::HdrDescTooSmall(desc.len))
    } else {
        Ok(())
    }
}

/// Whether the descriptor behind the head is usable for packet data, and else the error.
pub open spec fn buf_desc_result(
    regions: Seq<(u64, u64)>,
    next: Option<Descriptor>,
    expected_write_only: bool,
) -> Result<(), VsockError> {
    match next {
        None => Err(VsockError::BufDescMissing),
        Some(desc) => if direction_result(desc, expected_write_only) is Err {
            direction_result(desc, expected_write_only)
        } else {
            match slice_result(regions, desc.addr, desc.len as nat) {
                Ok(_) => Ok(()),
                Err(e) => Err(VsockError::GuestMemoryMmap(e)),
            }
        },
    }
}

/// What comes of a TX chain whose head is in order and holds the header `hdr`.
pub open spec fn tx_data_outcome(
    regions: Seq<(u64, u64)>,
    head: Descriptor,
    next: Option<Descriptor>,
    hdr: HeaderView,
) -> Result<PacketView, VsockError> {
    if hdr.len == 0 {
        Ok(PacketView { hdr_addr: head.addr, hdr, buf: None, buf_size: 0 })
    } else if hdr.len > MAX_PKT_BUF_SIZE {
        Err(VsockError::InvalidPktLen(hdr.len))
    } else {
        match buf_desc_result(regions, next, false) {
            Err(e) => Err(e),
            Ok(_) => if next->0.len < hdr.len {
                Err(VsockError::BufDescTooSmall)
            } else {
                Ok(
                    PacketView {
                        hdr_addr: head.addr,
                        hdr,
                        buf: Some(next->0.addr),
                        buf_size: next->0.len as usize,
                    },
                )
            },
        }
    }
}

/// What comes of a TX chain whose head holds the header `hdr`.
pub open spec fn tx_outcome(
    regions: Seq<(u64, u64)>,
    head: Descriptor,
    next: Option<Descriptor>,
    hdr: HeaderView,
) -> Result<PacketView, VsockError> {
    match hdr_desc_result(regions, head, false) {
        Err(e) => Err(e),
        Ok(_) => tx_data_outcome(regions, head, next, hdr),
    }
}

/// What comes of an RX chain.
pub open spec fn rx_outcome(
    regions: Seq<(u64, u64)>,
    head: Descriptor,
    next: Option<Descriptor>,
) -> Result<PacketView, VsockError> {
    match hdr_desc_result(regions, head, true) {
        Err(e) => Err(e),
        Ok(_) => match buf_desc_result(regions, next, true) {
            Err(e) => Err(e),
            Ok(_) => Ok(
                PacketView {
                    hdr_addr: head.addr,
                    hdr: HeaderView::zero(),
                    buf: Some(next->0.addr),
                    buf_size: next->0.len as usize,
                },
            ),
        },
    }
}

/// What writing a header to guest memory at `addr` returns.
pub open spec fn commit_result(regions: Seq<(u64, u64)>, addr: u64) -> Result<(), VsockError> {
    match copy_result(regions, addr, VSOCK_PKT_HDR_SIZE as nat) {
        Ok(_) => Ok(()),
        Err(e) => Err(VsockError::GuestMemoryMmap(e)),
    }
}

impl VsockPacket {
    fn check_desc_write_only(desc: &DescriptorChain, expected_write_only: bool) -> (r: Result<
        (),
        VsockError,
    >)
        ensures
            r == direction_result(desc.desc, expected_write_only),
    {
        if desc.is_write_only() != expected_write_only {
            return if desc.is_write_only() {
                Err(VsockError::UnreadableDescriptor)
            } else {
                Err(VsockError::UnwritableDescriptor)
            };
        }
        Ok(())
    }

    fn check_hdr_desc(hdr_desc: &DescriptorChain, expected_write_only: bool) -> (r: Result<
        (),
        VsockError,
    >)
        ensures
            r == hdr_desc_result(
                guest_regions(*hdr_desc.mem),
                hdr_desc.desc,
                expected_write_only,
            ),
    {
        Self::check_desc_write_only(hdr_desc, expected_write_only)?;

        if !check_range(hdr_desc.mem, hdr_desc.desc.addr, VSOCK_PKT_HDR_SIZE) {
            return Err(VsockError::GuestMemoryBounds);
        }
        // The packet header should fit inside the head descriptor.
        if hdr_desc.desc.len < VSOCK_PKT_HDR_SIZE as u32 {
            return Err(VsockError::HdrDescTooSmall(hdr_desc.desc.len));
        }
        Ok(())
    }

    fn init_buf(&mut self, hdr_desc: &DescriptorChain, expected_write_only: bool) -> (r: Result<
        (),
        VsockError,
    >)
        ensures
            r == buf_desc_result(
                guest_regions(*hdr_desc.mem),
                hdr_desc.next(),
                expected_write_only,
            ),
            r is Err ==> *final(self) == *old(self),
            r is Ok ==> final(self)@ == (PacketView {
                buf: Some(hdr_desc.next()->0.addr),
                buf_size: hdr_desc.next()->0.len as usize,
                ..old(self)@
            }),
    {
        let buf_desc = match hdr_desc.next_descriptor() {
            Some(desc) => desc,
            None => return Err(VsockError::BufDescMissing),
        };
        let buf_size: usize = buf_desc.desc.len as usize;

        Self::check_desc_write_only(&buf_desc, expected_write_only)?;

        match get_slice(buf_desc.mem, buf_desc.desc.addr, buf_size) {
            Ok(()) => {},
            Err(e) => return Err(VsockError::GuestMemoryMmap(e)),
        }
        self.buf = Some(buf_desc.desc.addr);
        self.buf_size = buf_size;
        Ok(())
    }

    /// Assembles the packet of a TX chain whose head has been checked, and whose header has been
    /// read and is `hdr`.
    pub fn from_tx_header(hdr_desc: &DescriptorChain, hdr: VsockPacketHeader) -> (r: Result<
        Self,
        VsockError,
    >)
        ensures
            outcome(r) == tx_data_outcome(
                guest_regions(*hdr_desc.mem),
                hdr_desc.desc,
                hdr_desc.next(),
                hdr@,
            ),
    {
        let mut pkt = VsockPacket { hdr_addr: hdr_desc.desc.addr, hdr, buf: None, buf_size: 0 };

        // No point looking for a data descriptor if the packet is zero-lengthed.
        if pkt.len() == 0 {
            return Ok(pkt);
        }
        // Reject weirdly-sized packets.
        if pkt.len() > MAX_PKT_BUF_SIZE as u32 {
            return Err(VsockError::InvalidPktLen(pkt.len()));
        }
        pkt.init_buf(hdr_desc, false)?;

        // The data buffer should be large enough for the data that the header announces.
        if pkt.buf_size < pkt.len() as usize {
            return Err(VsockError::BufDescTooSmall);
        }
        Ok(pkt)
    }

    /// Assembles a packet from the head of a TX chain.
    ///
    /// The head is expected to hold a packet header, which is read once, here. Where the header
    /// announces data, a second descriptor has to hold it. Both must be readable.
    ///
    /// The bytes that were read make the header that decides, whatever they are. Where nothing else
    /// stores to them, they are the bytes that lie in guest memory.
    pub fn from_tx_virtq_head(hdr_desc: &DescriptorChain) -> (r: Result<Self, VsockError>)
        ensures
            exists|bytes: Seq<u8>|
                #![trigger HeaderView::from_wire(bytes)]
                bytes.len() == VSOCK_PKT_HDR_SIZE && agrees(
                    guest_bytes(*hdr_desc.mem),
                    hdr_desc.desc.addr as int,
                    bytes,
                ) && outcome(r) == tx_outcome(
                    guest_regions(*hdr_desc.mem),
                    hdr_desc.desc,
                    hdr_desc.next(),
                    HeaderView::from_wire(bytes),
                ),
            covers(
                guest_bytes(*hdr_desc.mem),
                hdr_desc.desc.addr as int,
                VSOCK_PKT_HDR_SIZE as nat,
            ) ==> outcome(r) == tx_outcome(
                guest_regions(*hdr_desc.mem),
                hdr_desc.desc,
                hdr_desc.next(),
                HeaderView::from_wire(
                    load(
                        guest_bytes(*hdr_desc.mem),
                        hdr_desc.desc.addr as int,
                        VSOCK_PKT_HDR_SIZE as nat,
                    ),
                ),
            ),
    {
        let ghost addr = hdr_desc.desc.addr as int;
        let ghost lying = guest_bytes(*hdr_desc.mem);
        match Self::check_hdr_desc(hdr_desc, false) {
            Ok(()) => {},
            Err(e) => {
                let r: Result<Self, VsockError> = Err(e);
                // Nothing was read: whatever lies there, the outcome is the same.
                assert(outcome(r) == tx_outcome(
                    guest_regions(*hdr_desc.mem),
                    hdr_desc.desc,
                    hdr_desc.next(),
                    HeaderView::from_wire(load(lying, addr, VSOCK_PKT_HDR_SIZE as nat)),
                ));
                return r;
            },
        }
        let mut bytes: [u8; VSOCK_PKT_HDR_SIZE] = [0;VSOCK_PKT_HDR_SIZE];
        match read_slice(hdr_desc.mem, &mut bytes, hdr_desc.desc.addr) {
            Ok(()) => {},
            Err(e) => return Err(VsockError::GuestMemoryMmap(e)),
        }
        proof {
            if covers(lying, addr, VSOCK_PKT_HDR_SIZE as nat) {
                lemma_agrees_load(lying, addr, bytes@);
            }
        }
        Self::from_tx_header(hdr_desc, VsockPacketHeader::from_bytes(&bytes))
    }

    /// Assembles a packet from the head of an RX chain.
    ///
    /// There must be two descriptors, one for the header and one for the data, both writable. The
    /// header starts out as all zeros; it is filled in locally, and written to guest memory by
    /// [`VsockPacket::commit_hdr`].
    pub fn from_rx_virtq_head(hdr_desc: &DescriptorChain) -> (r: Result<Self, VsockError>)
        ensures
            outcome(r) == rx_outcome(
                guest_regions(*hdr_desc.mem),
                hdr_desc.desc,
                hdr_desc.next(),
            ),
    {
        Self::check_hdr_desc(hdr_desc, true)?;

        let mut pkt = VsockPacket {
            hdr_addr: hdr_desc.desc.addr,
            hdr: VsockPacketHeader::default(),
            buf: None,
            buf_size: 0,
        };
        pkt.init_buf(hdr_desc, true)?;
        Ok(pkt)
    }

    /// The local copy of the packet header.
    pub fn hdr(&self) -> (r: &VsockPacketHeader)
        ensures
            r@ == self@.hdr,
    {
        &self.hdr
    }

    /// Writes the local copy of the packet header to guest memory.
    ///
    /// Where the regions hold only the first part of the header's range, that part is written.
    pub fn commit_hdr(&self, mem: &mut GuestMemoryMmap) -> (r: Result<(), VsockError>)
        ensures
            r == commit_result(guest_regions(*old(mem)), self@.hdr_addr),
            guest_regions(*final(mem)) == guest_regions(*old(mem)),
            guest_bytes(*final(mem)) == store(
                guest_bytes(*old(mem)),
                self@.hdr_addr as int,
                self@.hdr.to_wire().take(
                    backed_prefix(
                        guest_regions(*old(mem)),
                        self@.hdr_addr as int,
                        VSOCK_PKT_HDR_SIZE as int,
                    ),
                ),
            ),
    {
        let bytes = self.hdr.to_bytes();
        match write_slice(mem, &bytes, self.hdr_addr) {
            Ok(()) => Ok(()),
            Err(e) => Err(VsockError::GuestMemoryMmap(e)),
        }
    }

    /// Access to the packet's data buffer in `mem`, for reading, where it lies.
    ///
    /// Packets without data (a connection request, a reset) have no buffer: for them this is
    /// `None`, as it is where `mem` does not hold the buffer. The length of what is returned is the
    /// size of the buffer, which is often larger than the length of the packet data; that length
    /// is [`VsockPacket::len`].
    pub fn buf<'m>(&self, mem: &'m GuestMemoryMmap) -> (r: Option<PacketBuf<'m>>)
        ensures
            r is Some <==> self@.buf is Some && slice_result(
                guest_regions(*mem),
                self@.buf->0,
                self@.buf_size as nat,
            ) is Ok,
            r matches Some(b) ==> {
                &&& b.wf()
                &&& *b.mem == *mem
                &&& b.addr == self@.buf->0
                &&& b.size == self@.buf_size
            },
    {
        let addr: u64 = match self.buf {
            Some(addr) => addr,
            None => return None,
        };
        match get_slice(mem, addr, self.buf_size) {
            Ok(()) => Some(PacketBuf { mem, addr, size: self.buf_size }),
            Err(_) => None,
        }
    }

    /// Access to the packet's data buffer in `mem`, for writing, where it lies.
    ///
    /// It is `None` in the same cases as [`VsockPacket::buf`]. The packet itself does not change.
    pub fn buf_mut<'m>(&mut self, mem: &'m mut GuestMemoryMmap) -> (r: Option<PacketBufMut<'m>>)
        ensures
            *final(self) == *old(self),
            r is Some <==> old(self)@.buf is Some && slice_result(
                guest_regions(*old(mem)),
                old(self)@.buf->0,
                old(self)@.buf_size as nat,
            ) is Ok,
            r matches Some(b) ==> {
                &&& b.wf()
                &&& *b.mem == *old(mem)
                &&& *final(mem) == *final(b.mem)
                &&& b.addr == old(self)@.buf->0
                &&& b.size == old(self)@.buf_size
            },
            r is None ==> *final(mem) == *old(mem),
    {
        let addr: u64 = match self.buf {
            Some(addr) => addr,
            None => return None,
        };
        match get_slice(mem, addr, self.buf_size) {
            Ok(()) => Some(PacketBufMut { mem, addr, size: self.buf_size }),
            Err(_) => None,
        }
    }

    /// The source context id.
    pub fn src_cid(&self) -> (r: u64)
        ensures
            r == self@.hdr.src_cid,
    {
        proof {
            lemma_span();
            lemma_le_value_bound(self.hdr.src_cid@);
        }
        from_le(&self.hdr.src_cid)
    }

    /// Sets the source context id.
    pub fn set_src_cid(&mut self, cid: u64) -> (r: &mut Self)
        ensures
            r@ == (PacketView { hdr: HeaderView { src_cid: cid, ..old(self)@.hdr }, ..old(self)@ }),
            *final(self) == *final(r),
    {
        self.hdr.src_cid = u64_to_le(cid);
        proof {
            lemma_span();
            lemma_value_of_bytes(cid as nat, 8);
        }
        self
    }

    /// The destination context id.
    pub fn dst_cid(&self) -> (r: u64)
        ensures
            r == self@.hdr.dst_cid,
    {
        proof {
            lemma_span();
            lemma_le_value_bound(self.hdr.dst_cid@);
        }
        from_le(&self.hdr.dst_cid)
    }

    /// Sets the destination context id.
    pub fn set_dst_cid(&mut self, cid: u64) -> (r: &mut Self)
        ensures
            r@ == (PacketView { hdr: HeaderView { dst_cid: cid, ..old(self)@.hdr }, ..old(self)@ }),
            *final(self) == *final(r),
    {
        self.hdr.dst_cid = u64_to_le(cid);
        proof {
            lemma_span();
            lemma_value_of_bytes(cid as nat, 8);
        }
        self
    }

    /// The source port.
    pub fn src_port(&self) -> (r: u32)
        ensures
            r == self@.hdr.src_port,
    {
        proof {
            lemma_span();
            lemma_le_value_bound(self.hdr.src_port@);
        }
        from_le(&self.hdr.src_port) as u32
    }

    /// Sets the source port.
    pub fn set_src_port(&mut self, port: u32) -> (r: &mut Self)
        ensures
            r@ == (PacketView { hdr: HeaderView { src_port: port, ..old(self)@.hdr }, ..old(self)@ }),
            *final(self) == *final(r),
    {
        self.hdr.src_port = u32_to_le(port);
        proof {
            lemma_span();
            lemma_value_of_bytes(port as nat, 4);
        }
        self
    }

    /// The destination port.
    pub fn dst_port(&self) -> (r: u32)
        ensures
            r == self@.hdr.dst_port,
    {
        proof {
            lemma_span();
            lemma_le_value_bound(self.hdr.dst_port@);
        }
        from_le(&self.hdr.dst_port) as u32
    }

    /// Sets the destination port.
    pub fn set_dst_port(&mut self, port: u32) -> (r: &mut Self)
        ensures
            r@ == (PacketView { hdr: HeaderView { dst_port: port, ..old(self)@.hdr }, ..old(self)@ }),
            *final(self) == *final(r),
    {
        self.hdr.dst_port = u32_to_le(port);
        proof {
            lemma_span();
            lemma_value_of_bytes(port as nat, 4);
        }
        self
    }

    /// The length of the packet data in bytes.
    pub fn len(&self) -> (r: u32)
        ensures
            r == self@.hdr.len,
    {
        proof {
            lemma_span();
            lemma_le_value_bound(self.hdr.len@);
        }
        from_le(&self.hdr.len) as u32
    }

    /// Sets the length of the packet data.
    pub fn set_len(&mut self, len: u32) -> (r: &mut Self)
        ensures
            r@ == (PacketView { hdr: HeaderView { len: len, ..old(self)@.hdr }, ..old(self)@ }),
            *final(self) == *final(r),
    {
        self.hdr.len = u32_to_le(len);
        proof {
            lemma_span();
            lemma_value_of_bytes(len as nat, 4);
        }
        self
    }

    /// The socket type.
    pub fn type_(&self) -> (r: u16)
        ensures
            r == self@.hdr.type_,
    {
        proof {
            lemma_span();
            lemma_le_value_bound(self.hdr.type_@);
        }
        from_le(&self.hdr.type_) as u16
    }

    /// Sets the socket type.
    pub fn set_type(&mut self, type_: u16) -> (r: &mut Self)
        ensures
            r@ == (PacketView { hdr: HeaderView { type_: type_, ..old(self)@.hdr }, ..old(self)@ }),
            *final(self) == *final(r),
    {
        self.hdr.type_ = u16_to_le(type_);
        proof {
            lemma_span();
            lemma_value_of_bytes(type_ as nat, 2);
        }
        self
    }

    /// The operation.
    pub fn op(&self) -> (r: u16)
        ensures
            r == self@.hdr.op,
    {
        proof {
            lemma_span();
            lemma_le_value_bound(self.hdr.op@);
        }
        from_le(&self.hdr.op) as u16
    }

    /// Sets the operation.
    pub fn set_op(&mut self, op: u16) -> (r: &mut Self)
        ensures
            r@ == (PacketView { hdr: HeaderView { op: op, ..old(self)@.hdr }, ..old(self)@ }),
            *final(self) == *final(r),
    {
        self.hdr.op = u16_to_le(op);
        proof {
            lemma_span();
            lemma_value_of_bytes(op as nat, 2);
        }
        self
    }

    /// The options of the operation.
    pub fn flags(&self) -> (r: u32)
        ensures
            r == self@.hdr.flags,
    {
        proof {
            lemma_span();
            lemma_le_value_bound(self.hdr.flags@);
        }
        from_le(&self.hdr.flags) as u32
    }

    /// Sets all options of the operation.
    pub fn set_flags(&mut self, flags: u32) -> (r: &mut Self)
        ensures
            r@ == (PacketView { hdr: HeaderView { flags: flags, ..old(self)@.hdr }, ..old(self)@ }),
            *final(self) == *final(r),
    {
        self.hdr.flags = u32_to_le(flags);
        proof {
            lemma_span();
            lemma_value_of_bytes(flags as nat, 4);
        }
        self
    }

    /// Sets `flag` among the flags, and leaves the others as they are.
    pub fn set_flag(&mut self, flag: u32) -> (r: &mut Self)
        ensures
            r@ == (PacketView { hdr: old(self)@.hdr.with_flag(flag), ..old(self)@ }),
            *final(self) == *final(r),
    {
        let flags: u32 = self.flags() | flag;
        self.set_flags(flags)
    }

    /// The size of the sender's receive buffer for this connection.
    pub fn buf_alloc(&self) -> (r: u32)
        ensures
            r == self@.hdr.buf_alloc,
    {
        proof {
            lemma_span();
            lemma_le_value_bound(self.hdr.buf_alloc@);
        }
        from_le(&self.hdr.buf_alloc) as u32
    }

    /// Sets the size of the sender's receive buffer.
    pub fn set_buf_alloc(&mut self, buf_alloc: u32) -> (r: &mut Self)
        ensures
            r@ == (PacketView { hdr: HeaderView { buf_alloc: buf_alloc, ..old(self)@.hdr }, ..old(self)@ }),
            *final(self) == *final(r),
    {
        self.hdr.buf_alloc = u32_to_le(buf_alloc);
        proof {
            lemma_span();
            lemma_value_of_bytes(buf_alloc as nat, 4);
        }
        self
    }

    /// The number of bytes that the sender has received and consumed on this connection.
    pub fn fwd_cnt(&self) -> (r: u32)
        ensures
            r == self@.hdr.fwd_cnt,
    {
        proof {
            lemma_span();
            lemma_le_value_bound(self.hdr.fwd_cnt@);
        }
        from_le(&self.hdr.fwd_cnt) as u32
    }

    /// Sets the number of bytes that the sender has received and consumed.
    pub fn set_fwd_cnt(&mut self, fwd_cnt: u32) -> (r: &mut Self)
        ensures
            r@ == (PacketView { hdr: HeaderView { fwd_cnt: fwd_cnt, ..old(self)@.hdr }, ..old(self)@ }),
            *final(self) == *final(r),
    {
        self.hdr.fwd_cnt = u32_to_le(fwd_cnt);
        proof {
            lemma_span();
            lemma_value_of_bytes(fwd_cnt as nat, 4);
        }
        self
    }
}

} // verus!
