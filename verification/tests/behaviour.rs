use vm_memory::{Bytes, GuestAddress, GuestMemoryMmap};
use vsock_packet::descriptor::{
    Descriptor, DescriptorChain, VIRTQ_DESC_F_NEXT, VIRTQ_DESC_F_WRITE,
};
use vsock_packet::endian::{from_le, u16_to_le, u32_to_le, u64_to_le};
use vsock_packet::error::{GuestMemoryError, VsockError};
use vsock_packet::packet::{VsockPacket, VsockPacketHeader, MAX_PKT_BUF_SIZE};

const HDR: u64 = 0x1000;
const BUF: u64 = 0x2000;

/// Two regions that touch, the second running from 0x4000 to 0x8000, and a hole behind them.
fn memory() -> GuestMemoryMmap {
    GuestMemoryMmap::from_ranges(&[(GuestAddress(0), 0x4000), (GuestAddress(0x4000), 0x4000)])
        .unwrap()
}

fn desc(addr: u64, len: u32, flags: u16) -> Descriptor {
    Descriptor { addr, len, flags }
}

fn tx(mem: &GuestMemoryMmap, descs: &[Descriptor]) -> Result<VsockPacket, VsockError> {
    VsockPacket::from_tx_virtq_head(&DescriptorChain {
        mem,
        desc: descs[0],
        rest: &descs[1..],
    })
}

fn rx(mem: &GuestMemoryMmap, descs: &[Descriptor]) -> Result<VsockPacket, VsockError> {
    VsockPacket::from_rx_virtq_head(&DescriptorChain {
        mem,
        desc: descs[0],
        rest: &descs[1..],
    })
}

fn rx_descs() -> [Descriptor; 2] {
    [
        desc(HDR, 44, VIRTQ_DESC_F_WRITE | VIRTQ_DESC_F_NEXT),
        desc(BUF, 0x100, VIRTQ_DESC_F_WRITE),
    ]
}

fn tx_descs() -> [Descriptor; 2] {
    [desc(HDR, 44, VIRTQ_DESC_F_NEXT), desc(BUF, 0x100, 0)]
}

fn set_len(mem: &GuestMemoryMmap, hdr: u64, len: u32) {
    mem.write_slice(&len.to_le_bytes(), GuestAddress(hdr + 24))
        .unwrap();
}

fn bytes_at(mem: &GuestMemoryMmap, addr: u64, len: usize) -> Vec<u8> {
    let mut out = vec![0u8; len];
    mem.read_slice(&mut out, GuestAddress(addr)).unwrap();
    out
}

fn fill(pkt: &mut VsockPacket) {
    pkt.set_src_cid(0x0102_0304_0506_0708)
        .set_dst_cid(0x1112_1314_1516_1718)
        .set_src_port(0x2122_2324)
        .set_dst_port(0x3132_3334)
        .set_len(0x20)
        .set_type(0x5152)
        .set_op(0x6162)
        .set_flags(0x7172_7374)
        .set_buf_alloc(0x8182_8384)
        .set_fwd_cnt(0x9192_9394);
}

const FILLED: [u8; 44] = [
    0x08, 0x07, 0x06, 0x05, 0x04, 0x03, 0x02, 0x01, 0x18, 0x17, 0x16, 0x15, 0x14, 0x13, 0x12, 0x11,
    0x24, 0x23, 0x22, 0x21, 0x34, 0x33, 0x32, 0x31, 0x20, 0x00, 0x00, 0x00, 0x52, 0x51, 0x62, 0x61,
    0x74, 0x73, 0x72, 0x71, 0x84, 0x83, 0x82, 0x81, 0x94, 0x93, 0x92, 0x91,
];

#[test]
fn little_endian_integers() {
    assert_eq!(u16_to_le(0x0102), [2, 1]);
    assert_eq!(u32_to_le(0x0102_0304), [4, 3, 2, 1]);
    assert_eq!(u64_to_le(0x0102_0304_0506_0708), [8, 7, 6, 5, 4, 3, 2, 1]);
    assert_eq!(u64_to_le(u64::MAX), [0xff; 8]);
    assert_eq!(from_le(&[]), 0);
    assert_eq!(from_le(&[2, 1]), 0x0102);
    assert_eq!(from_le(&[0xff; 8]), u64::MAX);
    assert_eq!(from_le(&u64_to_le(0x8000_0000_0000_0001)), 0x8000_0000_0000_0001);
}

#[test]
fn header_is_recovered_from_its_bytes() {
    let hdr = VsockPacketHeader::from_bytes(&FILLED);
    assert_eq!(hdr.to_bytes(), FILLED);
    assert_eq!(VsockPacketHeader::default().to_bytes(), [0u8; 44]);
}

#[test]
fn header_fields_lie_where_they_belong() {
    let mem = memory();
    let mut pkt = rx(&mem, &rx_descs()).unwrap();
    fill(&mut pkt);
    assert_eq!(pkt.hdr().to_bytes(), FILLED);
}

#[test]
fn header_is_read_from_memory() {
    let mem = memory();
    mem.write_slice(&FILLED, GuestAddress(HDR)).unwrap();
    let pkt = tx(&mem, &tx_descs()).unwrap();
    assert_eq!(pkt.src_cid(), 0x0102_0304_0506_0708);
    assert_eq!(pkt.dst_cid(), 0x1112_1314_1516_1718);
    assert_eq!(pkt.src_port(), 0x2122_2324);
    assert_eq!(pkt.dst_port(), 0x3132_3334);
    assert_eq!(pkt.len(), 0x20);
    assert_eq!(pkt.type_(), 0x5152);
    assert_eq!(pkt.op(), 0x6162);
    assert_eq!(pkt.flags(), 0x7172_7374);
    assert_eq!(pkt.buf_alloc(), 0x8182_8384);
    assert_eq!(pkt.fwd_cnt(), 0x9192_9394);
    assert_eq!(pkt.hdr().to_bytes(), FILLED);
}

#[test]
fn header_is_read_once() {
    let mem = memory();
    mem.write_slice(&FILLED, GuestAddress(HDR)).unwrap();
    let pkt = tx(&mem, &tx_descs()).unwrap();
    mem.write_slice(&[0u8; 44], GuestAddress(HDR)).unwrap();
    assert_eq!(pkt.hdr().to_bytes(), FILLED);
}

#[test]
fn committed_header_is_read_back() {
    let mut mem = memory();
    let mut pkt = rx(&mem, &rx_descs()).unwrap();
    fill(&mut pkt);
    // Nothing reaches guest memory before the header is committed.
    assert_eq!(bytes_at(&mem, HDR, 44), vec![0u8; 44]);
    mem.write_slice(&[0xaa; 4], GuestAddress(HDR - 4)).unwrap();
    mem.write_slice(&[0xbb; 4], GuestAddress(HDR + 44)).unwrap();
    assert!(pkt.commit_hdr(&mut mem).is_ok());
    assert_eq!(bytes_at(&mem, HDR, 44), FILLED.to_vec());
    assert_eq!(bytes_at(&mem, HDR - 4, 4), vec![0xaa; 4]);
    assert_eq!(bytes_at(&mem, HDR + 44, 4), vec![0xbb; 4]);

    let read = tx(&mem, &tx_descs()).unwrap();
    assert_eq!(read.hdr().to_bytes(), FILLED);
}

#[test]
fn commit_fails_outside_memory() {
    let mem = memory();
    let mut pkt = rx(&mem, &rx_descs()).unwrap();
    fill(&mut pkt);
    let mut elsewhere =
        GuestMemoryMmap::from_ranges(&[(GuestAddress(0x10000), 0x1000)]).unwrap();
    match pkt.commit_hdr(&mut elsewhere) {
        Err(VsockError::GuestMemoryMmap(GuestMemoryError::InvalidGuestAddress(addr))) => {
            assert_eq!(addr, HDR)
        }
        other => panic!("{:?}", other),
    }
}

#[test]
fn commit_writes_what_fits() {
    let mem = memory();
    let mut pkt = rx(&mem, &rx_descs()).unwrap();
    fill(&mut pkt);
    let mut small = GuestMemoryMmap::from_ranges(&[(GuestAddress(0), 0x1010)]).unwrap();
    match pkt.commit_hdr(&mut small) {
        Err(VsockError::GuestMemoryMmap(GuestMemoryError::PartialBuffer {
            expected,
            completed,
        })) => {
            assert_eq!(expected, 44);
            assert_eq!(completed, 0x10);
        }
        other => panic!("{:?}", other),
    }
    assert_eq!(bytes_at(&small, HDR, 0x10), FILLED[..0x10].to_vec());
}

#[test]
fn rx_header_is_zero() {
    let mem = memory();
    mem.write_slice(&FILLED, GuestAddress(HDR)).unwrap();
    let pkt = rx(&mem, &rx_descs()).unwrap();
    assert_eq!(pkt.hdr().to_bytes(), [0u8; 44]);
}

#[test]
fn header_outside_memory_is_refused() {
    let mem = memory();
    for addr in [0x8000, 0x8000 - 43, u64::MAX, u64::MAX - 44] {
        let mut t = tx_descs();
        t[0].addr = addr;
        assert!(matches!(tx(&mem, &t), Err(VsockError::GuestMemoryBounds)));
        let mut r = rx_descs();
        r[0].addr = addr;
        assert!(matches!(rx(&mem, &r), Err(VsockError::GuestMemoryBounds)));
    }
}

#[test]
fn header_may_span_regions() {
    let mut mem = memory();
    let mut t = tx_descs();
    t[0].addr = 0x4000 - 20;
    mem.write_slice(&FILLED, GuestAddress(t[0].addr)).unwrap();
    let pkt = tx(&mem, &t).unwrap();
    assert_eq!(pkt.hdr().to_bytes(), FILLED);

    let mut r = rx_descs();
    r[0].addr = 0x4000 - 3;
    let mut pkt = rx(&mem, &r).unwrap();
    fill(&mut pkt);
    assert!(pkt.commit_hdr(&mut mem).is_ok());
    assert_eq!(bytes_at(&mem, 0x4000 - 3, 44), FILLED.to_vec());
}

#[test]
fn header_may_end_with_memory() {
    let mem = memory();
    let mut t = tx_descs();
    t[0].addr = 0x8000 - 44;
    assert!(tx(&mem, &t).is_ok());
}

#[test]
fn buffer_must_lie_in_one_region() {
    let mem = memory();
    let mut r = rx_descs();
    r[1].addr = 0x4000 - 0xff;
    assert!(matches!(
        rx(&mem, &r),
        Err(VsockError::GuestMemoryMmap(
            GuestMemoryError::InvalidBackendAddress
        ))
    ));
    r[1].addr = 0x4000 - 0x100;
    assert!(rx(&mem, &r).is_ok());

    set_len(&mem, HDR, 1);
    let mut t = tx_descs();
    t[1].addr = 0x4000 - 0xff;
    assert!(matches!(
        tx(&mem, &t),
        Err(VsockError::GuestMemoryMmap(
            GuestMemoryError::InvalidBackendAddress
        ))
    ));
}

#[test]
fn buffer_outside_memory_is_refused() {
    let mem = memory();
    let mut r = rx_descs();
    r[1].addr = 0x8000;
    match rx(&mem, &r) {
        Err(VsockError::GuestMemoryMmap(GuestMemoryError::InvalidGuestAddress(addr))) => {
            assert_eq!(addr, 0x8000)
        }
        _ => panic!("the buffer lies outside memory"),
    }
    // An empty buffer needs an address in memory too.
    r[1].len = 0;
    assert!(matches!(
        rx(&mem, &r),
        Err(VsockError::GuestMemoryMmap(
            GuestMemoryError::InvalidGuestAddress(0x8000)
        ))
    ));
    r[1].addr = 0x7fff;
    let pkt = rx(&mem, &r).unwrap();
    assert_eq!(pkt.buf(&mem).unwrap().len(), 0);
}

#[test]
fn read_only_rx_buffer_is_refused() {
    let mem = memory();
    let mut r = rx_descs();
    r[1].flags = 0;
    assert!(matches!(
        rx(&mem, &r),
        Err(VsockError::UnwritableDescriptor)
    ));
}

#[test]
fn errors_carry_the_lengths() {
    let mem = memory();
    let mut t = tx_descs();
    t[0].len = 43;
    assert!(matches!(
        tx(&mem, &t),
        Err(VsockError::HdrDescTooSmall(43))
    ));
    let mut r = rx_descs();
    r[0].len = 0;
    assert!(matches!(rx(&mem, &r), Err(VsockError::HdrDescTooSmall(0))));

    set_len(&mem, HDR, MAX_PKT_BUF_SIZE as u32 + 1);
    assert!(matches!(
        tx(&mem, &tx_descs()),
        Err(VsockError::InvalidPktLen(65537))
    ));
}

#[test]
fn largest_packet_is_accepted() {
    let mem = GuestMemoryMmap::from_ranges(&[(GuestAddress(0), 0x20000)]).unwrap();
    set_len(&mem, HDR, MAX_PKT_BUF_SIZE as u32);
    let mut t = tx_descs();
    t[1].len = MAX_PKT_BUF_SIZE as u32;
    let pkt = tx(&mem, &t).unwrap();
    assert_eq!(pkt.len(), 65536);
    assert_eq!(pkt.buf(&mem).unwrap().len(), 65536);
}

#[test]
fn checks_come_in_order() {
    let mem = memory();
    // The direction of the head comes before its place, its place before its length.
    let bad = [desc(0x8000, 1, VIRTQ_DESC_F_WRITE)];
    assert!(matches!(
        tx(&mem, &bad),
        Err(VsockError::UnreadableDescriptor)
    ));
    let bad = [desc(0x8000, 1, 0)];
    assert!(matches!(tx(&mem, &bad), Err(VsockError::GuestMemoryBounds)));
    assert!(matches!(
        rx(&mem, &bad),
        Err(VsockError::UnwritableDescriptor)
    ));
    // The direction of the buffer comes before its place, its place before its length.
    set_len(&mem, HDR, 0x200);
    let mut t = tx_descs();
    t[1] = desc(0x8000, 1, VIRTQ_DESC_F_WRITE);
    assert!(matches!(
        tx(&mem, &t),
        Err(VsockError::UnreadableDescriptor)
    ));
    t[1] = desc(0x8000, 1, 0);
    assert!(matches!(tx(&mem, &t), Err(VsockError::GuestMemoryMmap(_))));
    t[1] = desc(BUF, 0x1ff, 0);
    assert!(matches!(tx(&mem, &t), Err(VsockError::BufDescTooSmall)));
    t[1] = desc(BUF, 0x200, 0);
    assert!(tx(&mem, &t).is_ok());
}

#[test]
fn zero_length_packet_ignores_the_rest_of_the_chain() {
    let mem = memory();
    for second in [
        desc(0x8000, 1, VIRTQ_DESC_F_WRITE),
        desc(BUF, 0, 0),
        desc(BUF, 0x100, 0),
    ] {
        let mut t = tx_descs();
        t[1] = second;
        let pkt = tx(&mem, &t).unwrap();
        assert!(pkt.buf(&mem).is_none());
    }
    assert!(tx(&mem, &tx_descs()[..1]).is_ok());
}

#[test]
fn a_chain_serves_one_direction() {
    let mem = memory();
    assert!(tx(&mem, &tx_descs()).is_ok());
    assert!(rx(&mem, &tx_descs()).is_err());
    assert!(rx(&mem, &rx_descs()).is_ok());
    assert!(tx(&mem, &rx_descs()).is_err());
}

#[test]
fn header_read_beforehand_decides() {
    let mem = memory();
    let t = tx_descs();
    let chain = DescriptorChain {
        mem: &mem,
        desc: t[0],
        rest: &t[1..],
    };
    let mut bytes = FILLED;
    let pkt = VsockPacket::from_tx_header(&chain, VsockPacketHeader::from_bytes(&bytes)).unwrap();
    assert_eq!(pkt.hdr().to_bytes(), FILLED);
    assert_eq!(pkt.buf(&mem).unwrap().len(), 0x100);
    bytes[25] = 1;
    assert!(matches!(
        VsockPacket::from_tx_header(&chain, VsockPacketHeader::from_bytes(&bytes)),
        Err(VsockError::BufDescTooSmall)
    ));
    bytes[26] = 1;
    assert!(matches!(
        VsockPacket::from_tx_header(&chain, VsockPacketHeader::from_bytes(&bytes)),
        Err(VsockError::InvalidPktLen(0x1_0120))
    ));
}

#[test]
fn buffer_is_guest_memory() {
    let mut mem = memory();
    let mut pkt = rx(&mem, &rx_descs()).unwrap();
    mem.write_slice(&[1, 2, 3, 4], GuestAddress(BUF)).unwrap();
    let mut out = [0u8; 2];
    pkt.buf(&mem).unwrap().read(1, &mut out);
    assert_eq!(out, [2, 3]);

    pkt.buf_mut(&mut mem).unwrap().write(2, &[7, 8, 9]);
    assert_eq!(bytes_at(&mem, BUF, 6), vec![1, 2, 7, 8, 9, 0]);

    // Empty accesses are fine anywhere in the buffer, its end included.
    pkt.buf_mut(&mut mem).unwrap().write(0x100, &[]);
    pkt.buf(&mem).unwrap().read(0x100, &mut []);
    pkt.buf_mut(&mut mem).unwrap().write(0xff, &[5]);
    pkt.buf(&mem).unwrap().read(0xff, &mut out[..1]);
    assert_eq!(out[0], 5);
}

#[test]
fn header_and_buffer_do_not_disturb_each_other() {
    let mut mem = memory();
    let mut pkt = rx(&mem, &rx_descs()).unwrap();
    pkt.buf_mut(&mut mem).unwrap().write(0, &[0x5a; 0x100]);
    fill(&mut pkt);
    assert!(pkt.commit_hdr(&mut mem).is_ok());
    let mut out = [0u8; 0x100];
    pkt.buf(&mem).unwrap().read(0, &mut out);
    assert_eq!(out, [0x5a; 0x100]);
    pkt.buf_mut(&mut mem).unwrap().write(0, &[0xa5; 0x100]);
    assert_eq!(bytes_at(&mem, HDR, 44), FILLED.to_vec());
    assert_eq!(pkt.hdr().to_bytes(), FILLED);
}

#[test]
fn buffer_is_not_found_in_other_memory() {
    let mem = memory();
    let mut pkt = rx(&mem, &rx_descs()).unwrap();
    let mut small = GuestMemoryMmap::from_ranges(&[(GuestAddress(0), 0x20ff)]).unwrap();
    assert!(pkt.buf(&small).is_none());
    assert!(pkt.buf_mut(&mut small).is_none());
    assert!(pkt.buf(&mem).is_some());
}

#[test]
fn flags_accumulate() {
    let mem = memory();
    let mut pkt = rx(&mem, &rx_descs()).unwrap();
    pkt.set_op(4).set_flag(0b0001).set_flag(0b0100).set_flag(0b0001);
    assert_eq!(pkt.flags(), 0b0101);
    assert_eq!(pkt.op(), 4);
    pkt.set_flags(0b1000);
    pkt.set_flag(0b0100).set_flag(0b0001);
    assert_eq!(pkt.flags(), 0b1101);
}

#[test]
fn setters_touch_one_field() {
    let mem = memory();
    let mut pkt = rx(&mem, &rx_descs()).unwrap();
    fill(&mut pkt);
    pkt.set_src_port(u32::MAX);
    let mut expected = FILLED;
    expected[16..20].copy_from_slice(&[0xff; 4]);
    assert_eq!(pkt.hdr().to_bytes(), expected);
    pkt.set_dst_cid(u64::MAX);
    expected[8..16].copy_from_slice(&[0xff; 8]);
    assert_eq!(pkt.hdr().to_bytes(), expected);
    pkt.set_type(u16::MAX);
    expected[28..30].copy_from_slice(&[0xff; 2]);
    assert_eq!(pkt.hdr().to_bytes(), expected);
}

#[test]
fn chain_is_walked_by_flags() {
    let mem = memory();
    let rest = [
        desc(2, 20, VIRTQ_DESC_F_WRITE | VIRTQ_DESC_F_NEXT),
        desc(3, 30, 0),
        desc(4, 40, 0),
    ];
    let head = DescriptorChain {
        mem: &mem,
        desc: desc(1, 10, VIRTQ_DESC_F_NEXT),
        rest: &rest,
    };
    assert!(!head.is_write_only());
    let second = head.next_descriptor().unwrap();
    assert_eq!(second.desc, rest[0]);
    assert!(second.is_write_only());
    let third = second.next_descriptor().unwrap();
    assert_eq!(third.desc, rest[1]);
    assert!(!third.is_write_only());
    // The third descriptor does not say that the chain goes on.
    assert!(third.next_descriptor().is_none());
    let cut = DescriptorChain {
        mem: &mem,
        desc: desc(1, 10, VIRTQ_DESC_F_NEXT),
        rest: &[],
    };
    assert!(cut.next_descriptor().is_none());
}
