use vm_memory::{Bytes, GuestAddress, GuestMemoryMmap};
use vsock_packet::descriptor::{
    Descriptor, DescriptorChain, VIRTQ_DESC_F_NEXT, VIRTQ_DESC_F_WRITE,
};
use vsock_packet::error::VsockError;
use vsock_packet::header::VSOCK_PKT_HDR_SIZE;
use vsock_packet::packet::{VsockPacket, VsockPacketHeader, MAX_PKT_BUF_SIZE};

struct TestContext {
    mem: GuestMemoryMmap,
    txvq: [Descriptor; 2],
    rxvq: [Descriptor; 2],
}

fn create_context() -> TestContext {
    let ctx = TestContext {
        mem: GuestMemoryMmap::from_ranges(&[(GuestAddress(0), 128 << 20)]).unwrap(),
        txvq: [
            Descriptor {
                addr: 0x0050_0000,
                len: VSOCK_PKT_HDR_SIZE as u32,
                flags: VIRTQ_DESC_F_NEXT,
            },
            Descriptor {
                addr: 0x0050_1000,
                len: 4096,
                flags: 0,
            },
        ],
        rxvq: [
            Descriptor {
                addr: 0x0040_0000,
                len: VSOCK_PKT_HDR_SIZE as u32,
                flags: VIRTQ_DESC_F_WRITE | VIRTQ_DESC_F_NEXT,
            },
            Descriptor {
                addr: 0x0040_1000,
                len: 4096,
                flags: VIRTQ_DESC_F_WRITE,
            },
        ],
    };
    // For TX packets, hdr.len should be set to a valid value.
    set_pkt_len(1024, &ctx.txvq[0], &ctx.mem);
    ctx
}

impl TestContext {
    fn pop_tx(&self) -> DescriptorChain<'_> {
        DescriptorChain {
            mem: &self.mem,
            desc: self.txvq[0],
            rest: &self.txvq[1..],
        }
    }

    fn pop_rx(&self) -> DescriptorChain<'_> {
        DescriptorChain {
            mem: &self.mem,
            desc: self.rxvq[0],
            rest: &self.rxvq[1..],
        }
    }

    fn tx_error(&self) -> VsockError {
        match VsockPacket::from_tx_virtq_head(&self.pop_tx()) {
            Ok(_) => panic!("Packet assembly should've failed!"),
            Err(e) => e,
        }
    }

    fn rx_error(&self) -> VsockError {
        match VsockPacket::from_rx_virtq_head(&self.pop_rx()) {
            Ok(_) => panic!("Packet assembly should've failed!"),
            Err(e) => e,
        }
    }
}

fn set_pkt_len(len: u32, desc: &Descriptor, mem: &GuestMemoryMmap) {
    // The length comes after two context ids and two ports.
    mem.write_slice(&len.to_le_bytes(), GuestAddress(desc.addr + 24))
        .unwrap();
}

#[test]
fn test_packet_hdr_size() {
    assert_eq!(VSOCK_PKT_HDR_SIZE, std::mem::size_of::<VsockPacketHeader>());
}

#[test]
fn test_tx_packet_assembly() {
    // Test case: successful TX packet assembly.
    {
        let ctx = create_context();
        let pkt = VsockPacket::from_tx_virtq_head(&ctx.pop_tx()).unwrap();
        assert_eq!(
            pkt.buf(&ctx.mem).unwrap().len(),
            ctx.txvq[1].len as usize
        );
    }

    // Test case: error on write-only hdr descriptor.
    {
        let mut ctx = create_context();
        ctx.txvq[0].flags = VIRTQ_DESC_F_WRITE;
        assert!(matches!(ctx.tx_error(), VsockError::UnreadableDescriptor));
    }

    // Test case: header descriptor has insufficient space to hold the packet header.
    {
        let mut ctx = create_context();
        ctx.txvq[0].len = VSOCK_PKT_HDR_SIZE as u32 - 1;
        assert!(matches!(ctx.tx_error(), VsockError::HdrDescTooSmall(_)));
    }

    // Test case: zero-length TX packet.
    {
        let mut ctx = create_context();
        set_pkt_len(0, &ctx.txvq[0], &ctx.mem);
        let mut pkt = VsockPacket::from_tx_virtq_head(&ctx.pop_tx()).unwrap();
        assert!(pkt.buf(&ctx.mem).is_none());
        assert!(pkt.buf_mut(&mut ctx.mem).is_none());
    }

    // Test case: TX packet has more data than we can handle.
    {
        let ctx = create_context();
        set_pkt_len(MAX_PKT_BUF_SIZE as u32 + 1, &ctx.txvq[0], &ctx.mem);
        assert!(matches!(ctx.tx_error(), VsockError::InvalidPktLen(_)));
    }

    // Test case:
    // - packet header advertises some data length; and
    // - the data descriptor is missing.
    {
        let mut ctx = create_context();
        set_pkt_len(1024, &ctx.txvq[0], &ctx.mem);
        ctx.txvq[0].flags = 0;
        assert!(matches!(ctx.tx_error(), VsockError::BufDescMissing));
    }

    // Test case: error on write-only buf descriptor.
    {
        let mut ctx = create_context();
        ctx.txvq[1].flags = VIRTQ_DESC_F_WRITE;
        assert!(matches!(ctx.tx_error(), VsockError::UnreadableDescriptor));
    }

    // Test case: the buffer descriptor cannot fit all the data advertised by the the
    // packet header `len` field.
    {
        let mut ctx = create_context();
        set_pkt_len(8 * 1024, &ctx.txvq[0], &ctx.mem);
        ctx.txvq[1].len = 4 * 1024;
        assert!(matches!(ctx.tx_error(), VsockError::BufDescTooSmall));
    }
}

#[test]
fn test_rx_packet_assembly() {
    // Test case: successful RX packet assembly.
    {
        let ctx = create_context();
        let pkt = VsockPacket::from_rx_virtq_head(&ctx.pop_rx()).unwrap();
        assert_eq!(
            pkt.buf(&ctx.mem).unwrap().len(),
            ctx.rxvq[1].len as usize
        );
    }

    // Test case: read-only RX packet header.
    {
        let mut ctx = create_context();
        ctx.rxvq[0].flags = 0;
        assert!(matches!(ctx.rx_error(), VsockError::UnwritableDescriptor));
    }

    // Test case: RX descriptor head cannot fit the entire packet header.
    {
        let mut ctx = create_context();
        ctx.rxvq[0].len = VSOCK_PKT_HDR_SIZE as u32 - 1;
        assert!(matches!(ctx.rx_error(), VsockError::HdrDescTooSmall(_)));
    }

    // Test case: RX descriptor chain is missing the packet buffer descriptor.
    {
        let mut ctx = create_context();
        ctx.rxvq[0].flags = VIRTQ_DESC_F_WRITE;
        assert!(matches!(ctx.rx_error(), VsockError::BufDescMissing));
    }
}

#[test]
fn test_packet_hdr_accessors() {
    const SRC_CID: u64 = 1;
    const DST_CID: u64 = 2;
    const SRC_PORT: u32 = 3;
    const DST_PORT: u32 = 4;
    const LEN: u32 = 5;
    const TYPE: u16 = 6;
    const OP: u16 = 7;
    const FLAGS: u32 = 8;
    const BUF_ALLOC: u32 = 9;
    const FWD_CNT: u32 = 10;

    let ctx = create_context();
    let mut pkt = VsockPacket::from_rx_virtq_head(&ctx.pop_rx()).unwrap();

    // Test field accessors.
    pkt.set_src_cid(SRC_CID)
        .set_dst_cid(DST_CID)
        .set_src_port(SRC_PORT)
        .set_dst_port(DST_PORT)
        .set_len(LEN)
        .set_type(TYPE)
        .set_op(OP)
        .set_flags(FLAGS)
        .set_buf_alloc(BUF_ALLOC)
        .set_fwd_cnt(FWD_CNT);

    assert_eq!(pkt.src_cid(), SRC_CID);
    assert_eq!(pkt.dst_cid(), DST_CID);
    assert_eq!(pkt.src_port(), SRC_PORT);
    assert_eq!(pkt.dst_port(), DST_PORT);
    assert_eq!(pkt.len(), LEN);
    assert_eq!(pkt.type_(), TYPE);
    assert_eq!(pkt.op(), OP);
    assert_eq!(pkt.flags(), FLAGS);
    assert_eq!(pkt.buf_alloc(), BUF_ALLOC);
    assert_eq!(pkt.fwd_cnt(), FWD_CNT);

    // Test individual flag setting.
    let flags = pkt.flags() | 0b1000;
    pkt.set_flag(0b1000);
    assert_eq!(pkt.flags(), flags);

    pkt.hdr = VsockPacketHeader::default();
    assert_eq!(pkt.src_cid(), 0);
    assert_eq!(pkt.dst_cid(), 0);
    assert_eq!(pkt.src_port(), 0);
    assert_eq!(pkt.dst_port(), 0);
    assert_eq!(pkt.len(), 0);
    assert_eq!(pkt.type_(), 0);
    assert_eq!(pkt.op(), 0);
    assert_eq!(pkt.flags(), 0);
    assert_eq!(pkt.buf_alloc(), 0);
    assert_eq!(pkt.fwd_cnt(), 0);
}

#[test]
fn test_packet_buf() {
    let mut ctx = create_context();
    let mut pkt = VsockPacket::from_rx_virtq_head(&ctx.pop_rx()).unwrap();

    assert_eq!(
        pkt.buf(&ctx.mem).unwrap().len(),
        ctx.rxvq[1].len as usize
    );
    assert_eq!(
        pkt.buf_mut(&mut ctx.mem).unwrap().len(),
        ctx.rxvq[1].len as usize
    );

    for i in 0..pkt.buf(&ctx.mem).unwrap().len() {
        pkt.buf_mut(&mut ctx.mem)
            .unwrap()
            .write(i, &[(i % 0x100) as u8]);
        let mut byte = [0xffu8];
        pkt.buf(&ctx.mem).unwrap().read(i, &mut byte);
        assert_eq!(byte[0], (i % 0x100) as u8);
    }
}
