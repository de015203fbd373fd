//! What holds across several operations.

use crate::descriptor::{Descriptor, DescriptorChain};
use crate::endian::{
    le_bytes, le_value, lemma_bytes_of_value, lemma_le_bytes_len, lemma_span, lemma_value_of_bytes,
};
use crate::error::{GuestMemoryError, VsockError};
use crate::header::{HeaderView, VSOCK_PKT_HDR_SIZE};
use crate::memory::{
    agrees, backed, backed_prefix, copy_result, covers, in_one_region, lemma_agrees_load,
    lemma_backed_prefix, lemma_in_one_region, load, range_backed, slice_result, store,
};
use crate::packet::{
    commit_result, outcome, rx_outcome, tx_data_outcome, tx_outcome, PacketView, VsockPacket,
    MAX_PKT_BUF_SIZE,
};
use vstd::arithmetic::div_mod::lemma_div_denominator;
use vstd::arithmetic::power::{lemma_pow_positive, pow};
use vstd::prelude::*;

verus! {

/// A header is read back from the bytes that it has in memory, and those are as many as a header
/// takes.
pub proof fn law_header_is_recovered(hdr: HeaderView)
    ensures
        hdr.to_wire().len() == VSOCK_PKT_HDR_SIZE,
        HeaderView::from_wire(hdr.to_wire()) == hdr,
{
    let wire = hdr.to_wire();
    lemma_span();
    lemma_le_bytes_len(hdr.src_cid as nat, 8);
    lemma_le_bytes_len(hdr.dst_cid as nat, 8);
    lemma_le_bytes_len(hdr.src_port as nat, 4);
    lemma_le_bytes_len(hdr.dst_port as nat, 4);
    lemma_le_bytes_len(hdr.len as nat, 4);
    lemma_le_bytes_len(hdr.type_ as nat, 2);
    lemma_le_bytes_len(hdr.op as nat, 2);
    lemma_le_bytes_len(hdr.flags as nat, 4);
    lemma_le_bytes_len(hdr.buf_alloc as nat, 4);
    lemma_le_bytes_len(hdr.fwd_cnt as nat, 4);
    lemma_value_of_bytes(hdr.src_cid as nat, 8);
    lemma_value_of_bytes(hdr.dst_cid as nat, 8);
    lemma_value_of_bytes(hdr.src_port as nat, 4);
    lemma_value_of_bytes(hdr.dst_port as nat, 4);
    lemma_value_of_bytes(hdr.len as nat, 4);
    lemma_value_of_bytes(hdr.type_ as nat, 2);
    lemma_value_of_bytes(hdr.op as nat, 2);
    lemma_value_of_bytes(hdr.flags as nat, 4);
    lemma_value_of_bytes(hdr.buf_alloc as nat, 4);
    lemma_value_of_bytes(hdr.fwd_cnt as nat, 4);
    assert(wire.subrange(0, 8) =~= le_bytes(hdr.src_cid as nat, 8));
    assert(wire.subrange(8, 16) =~= le_bytes(hdr.dst_cid as nat, 8));
    assert(wire.subrange(16, 20) =~= le_bytes(hdr.src_port as nat, 4));
    assert(wire.subrange(20, 24) =~= le_bytes(hdr.dst_port as nat, 4));
    assert(wire.subrange(24, 28) =~= le_bytes(hdr.len as nat, 4));
    assert(wire.subrange(28, 30) =~= le_bytes(hdr.type_ as nat, 2));
    assert(wire.subrange(30, 32) =~= le_bytes(hdr.op as nat, 2));
    assert(wire.subrange(32, 36) =~= le_bytes(hdr.flags as nat, 4));
    assert(wire.subrange(36, 40) =~= le_bytes(hdr.buf_alloc as nat, 4));
    assert(wire.subrange(40, 44) =~= le_bytes(hdr.fwd_cnt as nat, 4));
}

/// Any bytes of the right number are a header, and that header has these bytes in memory.
pub proof fn law_bytes_are_recovered(bytes: Seq<u8>)
    requires
        bytes.len() == VSOCK_PKT_HDR_SIZE,
    ensures
        HeaderView::from_wire(bytes).to_wire() == bytes,
{
    lemma_span();
    lemma_bytes_of_value(bytes.subrange(0, 8));
    lemma_bytes_of_value(bytes.subrange(8, 16));
    lemma_bytes_of_value(bytes.subrange(16, 20));
    lemma_bytes_of_value(bytes.subrange(20, 24));
    lemma_bytes_of_value(bytes.subrange(24, 28));
    lemma_bytes_of_value(bytes.subrange(28, 30));
    lemma_bytes_of_value(bytes.subrange(30, 32));
    lemma_bytes_of_value(bytes.subrange(32, 36));
    lemma_bytes_of_value(bytes.subrange(36, 40));
    lemma_bytes_of_value(bytes.subrange(40, 44));
    assert(HeaderView::from_wire(bytes).to_wire() =~= bytes);
}

/// Byte `i` is the digit that counts the `256^i`s of the number, and the number has no further
/// digits.
pub proof fn law_le_value_digits(bytes: Seq<u8>)
    ensures
        le_value(bytes) < pow(256, bytes.len()),
        forall|i: int|
            0 <= i < bytes.len() ==> #[trigger] bytes[i] == (le_value(bytes) as int / pow(
                256,
                i as nat,
            )) % 256,
    decreases bytes.len(),
{
    reveal(pow);
    if bytes.len() > 0 {
        let rest = bytes.drop_first();
        let x = le_value(bytes) as int;
        law_le_value_digits(rest);
        assert(x / 256 == le_value(rest));
        assert forall|i: int| 0 <= i < bytes.len() implies #[trigger] bytes[i] == (x / pow(
            256,
            i as nat,
        )) % 256 by {
            if i > 0 {
                let p = pow(256, (i - 1) as nat);
                lemma_pow_positive(256, (i - 1) as nat);
                assert(pow(256, i as nat) == 256 * p);
                lemma_div_denominator(x, 256, p);
                assert(x / pow(256, i as nat) == le_value(rest) as int / p);
                assert(rest[i - 1] == (le_value(rest) as int / p) % 256);
            } else {
                assert(pow(256, 0) == 1);
                assert(x == bytes[0] + 256 * le_value(rest));
            }
        }
    }
}

/// A number is written as its digits to base 256, the lowest first.
pub proof fn law_le_bytes_digits(x: nat, n: nat)
    ensures
        le_bytes(x, n).len() == n,
        forall|i: int|
            0 <= i < n ==> #[trigger] le_bytes(x, n)[i] == (x as int / pow(256, i as nat)) % 256,
    decreases n,
{
    reveal(pow);
    lemma_le_bytes_len(x, n);
    if n > 0 {
        let rest = le_bytes(x / 256, (n - 1) as nat);
        law_le_bytes_digits(x / 256, (n - 1) as nat);
        assert forall|i: int| 0 <= i < n implies #[trigger] le_bytes(x, n)[i] == (x as int / pow(
            256,
            i as nat,
        )) % 256 by {
            if i > 0 {
                let p = pow(256, (i - 1) as nat);
                lemma_pow_positive(256, (i - 1) as nat);
                assert(pow(256, i as nat) == 256 * p);
                lemma_div_denominator(x as int, 256, p);
                assert(le_bytes(x, n)[i] == rest[i - 1]);
            } else {
                assert(pow(256, 0) == 1);
            }
        }
    }
}

proof fn lemma_value_of_two(b: Seq<u8>, i: int)
    requires
        0 <= i <= b.len() - 2,
    ensures
        le_value(b.subrange(i, i + 2)) == b[i] + 0x100 * b[i + 1],
{
    reveal_with_fuel(le_value, 3);
}

proof fn lemma_value_of_four(b: Seq<u8>, i: int)
    requires
        0 <= i <= b.len() - 4,
    ensures
        le_value(b.subrange(i, i + 4)) == b[i] + 0x100 * b[i + 1] + 0x1_0000 * b[i + 2]
            + 0x100_0000 * b[i + 3],
{
    reveal_with_fuel(le_value, 5);
}

proof fn lemma_value_of_eight(b: Seq<u8>, i: int)
    requires
        0 <= i <= b.len() - 8,
    ensures
        le_value(b.subrange(i, i + 8)) == b[i] + 0x100 * b[i + 1] + 0x1_0000 * b[i + 2]
            + 0x100_0000 * b[i + 3] + 0x1_0000_0000 * b[i + 4] + 0x100_0000_0000 * b[i + 5]
            + 0x1_0000_0000_0000 * b[i + 6] + 0x100_0000_0000_0000 * b[i + 7],
{
    reveal_with_fuel(le_value, 9);
}

/// Where each field of the header lies among its bytes. Every field is read from its own bytes, the
/// lowest first, whatever the other bytes are.
pub proof fn law_fields_are_read_in_place(b: Seq<u8>)
    requires
        b.len() == 44,
    ensures
        HeaderView::from_wire(b).src_cid == b[0] + 0x100 * b[1] + 0x1_0000 * b[2]
            + 0x100_0000 * b[3] + 0x1_0000_0000 * b[4] + 0x100_0000_0000 * b[5]
            + 0x1_0000_0000_0000 * b[6] + 0x100_0000_0000_0000 * b[7],
        HeaderView::from_wire(b).dst_cid == b[8] + 0x100 * b[9] + 0x1_0000 * b[10]
            + 0x100_0000 * b[11] + 0x1_0000_0000 * b[12] + 0x100_0000_0000 * b[13]
            + 0x1_0000_0000_0000 * b[14] + 0x100_0000_0000_0000 * b[15],
        HeaderView::from_wire(b).src_port == b[16] + 0x100 * b[17] + 0x1_0000 * b[18]
            + 0x100_0000 * b[19],
        HeaderView::from_wire(b).dst_port == b[20] + 0x100 * b[21] + 0x1_0000 * b[22]
            + 0x100_0000 * b[23],
        HeaderView::from_wire(b).len == b[24] + 0x100 * b[25] + 0x1_0000 * b[26]
            + 0x100_0000 * b[27],
        HeaderView::from_wire(b).type_ == b[28] + 0x100 * b[29],
        HeaderView::from_wire(b).op == b[30] + 0x100 * b[31],
        HeaderView::from_wire(b).flags == b[32] + 0x100 * b[33] + 0x1_0000 * b[34]
            + 0x100_0000 * b[35],
        HeaderView::from_wire(b).buf_alloc == b[36] + 0x100 * b[37] + 0x1_0000 * b[38]
            + 0x100_0000 * b[39],
        HeaderView::from_wire(b).fwd_cnt == b[40] + 0x100 * b[41] + 0x1_0000 * b[42]
            + 0x100_0000 * b[43],
{
    lemma_span();
    lemma_bytes_of_value(b.subrange(0, 8));
    lemma_value_of_eight(b, 0);
    lemma_bytes_of_value(b.subrange(8, 16));
    lemma_value_of_eight(b, 8);
    lemma_bytes_of_value(b.subrange(16, 20));
    lemma_value_of_four(b, 16);
    lemma_bytes_of_value(b.subrange(20, 24));
    lemma_value_of_four(b, 20);
    lemma_bytes_of_value(b.subrange(24, 28));
    lemma_value_of_four(b, 24);
    lemma_bytes_of_value(b.subrange(28, 30));
    lemma_value_of_two(b, 28);
    lemma_bytes_of_value(b.subrange(30, 32));
    lemma_value_of_two(b, 30);
    lemma_bytes_of_value(b.subrange(32, 36));
    lemma_value_of_four(b, 32);
    lemma_bytes_of_value(b.subrange(36, 40));
    lemma_value_of_four(b, 36);
    lemma_bytes_of_value(b.subrange(40, 44));
    lemma_value_of_four(b, 40);
}

/// Every field of the header is written to its own bytes, the lowest first, whatever the other
/// fields are.
pub proof fn law_fields_are_written_in_place(hdr: HeaderView)
    ensures
        hdr.to_wire().len() == 44,
        hdr.src_cid == hdr.to_wire()[0] + 0x100 * hdr.to_wire()[1] + 0x1_0000 * hdr.to_wire()[2]
            + 0x100_0000 * hdr.to_wire()[3] + 0x1_0000_0000 * hdr.to_wire()[4]
            + 0x100_0000_0000 * hdr.to_wire()[5] + 0x1_0000_0000_0000 * hdr.to_wire()[6]
            + 0x100_0000_0000_0000 * hdr.to_wire()[7],
        hdr.dst_cid == hdr.to_wire()[8] + 0x100 * hdr.to_wire()[9] + 0x1_0000 * hdr.to_wire()[10]
            + 0x100_0000 * hdr.to_wire()[11] + 0x1_0000_0000 * hdr.to_wire()[12]
            + 0x100_0000_0000 * hdr.to_wire()[13] + 0x1_0000_0000_0000 * hdr.to_wire()[14]
            + 0x100_0000_0000_0000 * hdr.to_wire()[15],
        hdr.src_port == hdr.to_wire()[16] + 0x100 * hdr.to_wire()[17]
            + 0x1_0000 * hdr.to_wire()[18] + 0x100_0000 * hdr.to_wire()[19],
        hdr.dst_port == hdr.to_wire()[20] + 0x100 * hdr.to_wire()[21]
            + 0x1_0000 * hdr.to_wire()[22] + 0x100_0000 * hdr.to_wire()[23],
        hdr.len == hdr.to_wire()[24] + 0x100 * hdr.to_wire()[25] + 0x1_0000 * hdr.to_wire()[26]
            + 0x100_0000 * hdr.to_wire()[27],
        hdr.type_ == hdr.to_wire()[28] + 0x100 * hdr.to_wire()[29],
        hdr.op == hdr.to_wire()[30] + 0x100 * hdr.to_wire()[31],
        hdr.flags == hdr.to_wire()[32] + 0x100 * hdr.to_wire()[33] + 0x1_0000 * hdr.to_wire()[34]
            + 0x100_0000 * hdr.to_wire()[35],
        hdr.buf_alloc == hdr.to_wire()[36] + 0x100 * hdr.to_wire()[37]
            + 0x1_0000 * hdr.to_wire()[38] + 0x100_0000 * hdr.to_wire()[39],
        hdr.fwd_cnt == hdr.to_wire()[40] + 0x100 * hdr.to_wire()[41]
            + 0x1_0000 * hdr.to_wire()[42] + 0x100_0000 * hdr.to_wire()[43],
{
    law_header_is_recovered(hdr);
    law_fields_are_read_in_place(hdr.to_wire());
}

/// The zero header has nothing but zeros, and so have its bytes.
pub proof fn law_zero_header()
    ensures
        HeaderView::zero().src_cid == 0,
        HeaderView::zero().dst_cid == 0,
        HeaderView::zero().src_port == 0,
        HeaderView::zero().dst_port == 0,
        HeaderView::zero().len == 0,
        HeaderView::zero().type_ == 0,
        HeaderView::zero().op == 0,
        HeaderView::zero().flags == 0,
        HeaderView::zero().buf_alloc == 0,
        HeaderView::zero().fwd_cnt == 0,
        forall|i: int| 0 <= i < 44 ==> #[trigger] HeaderView::zero().to_wire()[i] == 0,
{
    law_fields_are_written_in_place(HeaderView::zero());
}

/// A descriptor is write-only if and only if bit 1 of its flags is set, and the chain goes on behind
/// it if and only if bit 0 is. No other bit, and neither address nor length, matters.
pub proof fn law_descriptor_flags(desc: Descriptor)
    ensures
        desc.write_only() <==> (desc.flags / 2) % 2 == 1,
        desc.has_next() <==> desc.flags % 2 == 1,
{
    let f = desc.flags;
    assert(f & 2 != 0 <==> (f / 2) % 2 == 1) by (bit_vector);
    assert(f & 1 != 0 <==> f % 2 == 1) by (bit_vector);
}

/// The next descriptor is the first of those linked behind, where there is one and the descriptor
/// at hand says that the chain goes on.
pub proof fn law_next_descriptor(chain: DescriptorChain)
    ensures
        chain.next() is Some <==> chain.desc.flags % 2 == 1 && chain.rest@.len() > 0,
        chain.next() is Some ==> chain.next()->0 == chain.rest@[0],
{
    law_descriptor_flags(chain.desc);
}

/// An address is backed by memory if and only if it lies in some region, behind its start and
/// before its end. A range is backed if and only if each of its addresses is.
pub proof fn law_backed(regions: Seq<(u64, u64)>, addr: int, len: int)
    ensures
        forall|a: int| #[trigger]
            backed(regions, a) <==> exists|k: int|
                #![trigger regions[k]]
                0 <= k < regions.len() && regions[k].0 <= a && a - regions[k].0 < regions[k].1,
        range_backed(regions, addr, len) <==> forall|a: int|
            addr <= a < addr + len ==> #[trigger] backed(regions, a),
        in_one_region(regions, addr, len) <==> exists|k: int|
            #![trigger regions[k]]
            0 <= k < regions.len() && regions[k].0 <= addr && addr - regions[k].0 < regions[k].1
                && addr - regions[k].0 + len <= regions[k].1,
{
}

/// A copy fails with the address where its first address is not backed, and else with the number of
/// bytes before the first that is not. It succeeds where there is no such byte.
pub proof fn law_copy_result(regions: Seq<(u64, u64)>, addr: u64, len: nat)
    requires
        0 < len <= usize::MAX,
    ensures
        copy_result(regions, addr, len) is Ok <==> forall|a: int|
            addr <= a < addr + len ==> #[trigger] backed(regions, a),
        !backed(regions, addr as int) ==> copy_result(regions, addr, len) == Err::<
            (),
            GuestMemoryError,
        >(GuestMemoryError::InvalidGuestAddress(addr)),
        backed(regions, addr as int) && copy_result(regions, addr, len) is Err ==> {
            let e = copy_result(regions, addr, len)->Err_0;
            &&& e is PartialBuffer
            &&& e->expected == len
            &&& 0 < e->completed < len
            &&& range_backed(regions, addr as int, e->completed as int)
            &&& !backed(regions, addr + e->completed)
        },
{
    law_backed_prefix(regions, addr as int, len as int);
    if !backed(regions, addr as int) {
        assert(addr <= addr as int && addr < addr + len);
    }
}

/// The backed part of a range is as long as can be: all of it is backed, and it ends with the range
/// or before an address that is not.
pub proof fn law_backed_prefix(regions: Seq<(u64, u64)>, addr: int, len: int)
    requires
        0 <= len,
    ensures
        0 <= backed_prefix(regions, addr, len) <= len,
        range_backed(regions, addr, backed_prefix(regions, addr, len)),
        backed_prefix(regions, addr, len) < len ==> !backed(
            regions,
            addr + backed_prefix(regions, addr, len),
        ),
        backed_prefix(regions, addr, len) == len <==> range_backed(regions, addr, len),
    decreases len,
{
    lemma_backed_prefix(regions, addr, len);
    if len > 0 && backed(regions, addr) {
        law_backed_prefix(regions, addr + 1, len - 1);
    }
}

/// A slice is refused with the address where that is not backed, and else where no region that
/// holds the address reaches to the end.
pub proof fn law_slice_result(regions: Seq<(u64, u64)>, addr: u64, len: nat)
    ensures
        slice_result(regions, addr, len) is Ok <==> in_one_region(
            regions,
            addr as int,
            len as int,
        ),
        !backed(regions, addr as int) ==> slice_result(regions, addr, len) == Err::<
            (),
            GuestMemoryError,
        >(GuestMemoryError::InvalidGuestAddress(addr)),
        backed(regions, addr as int) && !in_one_region(regions, addr as int, len as int)
            ==> slice_result(regions, addr, len) == Err::<(), GuestMemoryError>(
            GuestMemoryError::InvalidBackendAddress,
        ),
{
}

/// Writing a header back succeeds if and only if all 44 bytes of its place are backed, and else
/// fails as the copy does.
pub proof fn law_commit_result(regions: Seq<(u64, u64)>, addr: u64)
    ensures
        commit_result(regions, addr) is Ok <==> forall|a: int|
            addr <= a < addr + 44 ==> #[trigger] backed(regions, a),
        commit_result(regions, addr) is Err ==> commit_result(regions, addr) == Err::<
            (),
            VsockError,
        >(VsockError::GuestMemoryMmap(copy_result(regions, addr, 44)->Err_0)),
{
    law_copy_result(regions, addr, 44);
}

/// What is loaded is what lies there, byte by byte; what covers a range has each of its addresses;
/// and what agrees with memory is, at every address that memory has, the byte there.
pub proof fn law_reading_is_by_address(
    bytes: Map<int, u8>,
    addr: int,
    len: nat,
    data: Seq<u8>,
)
    ensures
        load(bytes, addr, len).len() == len,
        forall|i: int| 0 <= i < len ==> #[trigger] load(bytes, addr, len)[i] == bytes[addr + i],
        covers(bytes, addr, len) <==> forall|a: int|
            addr <= a < addr + len ==> #[trigger] bytes.contains_key(a),
        agrees(bytes, addr, data) <==> forall|i: int|
            0 <= i < data.len() && bytes.contains_key(addr + i) ==> #[trigger] data[i]
                == bytes[addr + i],
{
    if forall|i: int|
        0 <= i < data.len() && bytes.contains_key(addr + i) ==> #[trigger] data[i] == bytes[addr
            + i] {
        assert forall|a: int|
            addr <= a < addr + data.len() && #[trigger] bytes.contains_key(a) implies bytes[a]
            == data[a - addr] by {
            assert(addr + (a - addr) == a);
        }
    }
}

/// What is stored lies at its addresses and nowhere else, and no address comes or goes.
pub proof fn law_storing_is_by_address(bytes: Map<int, u8>, addr: int, data: Seq<u8>, a: int)
    ensures
        store(bytes, addr, data).contains_key(a) <==> bytes.contains_key(a),
        bytes.contains_key(a) && addr <= a < addr + data.len() ==> store(bytes, addr, data)[a]
            == data[a - addr],
        bytes.contains_key(a) && !(addr <= a < addr + data.len()) ==> store(bytes, addr, data)[a]
            == bytes[a],
{
}

/// When a TX chain makes a packet: the head is readable, lies in memory and can hold a header; and
/// unless the header announces no data, it announces no more than a packet may carry, and there is
/// a second descriptor, readable, in one region, and long enough.
pub proof fn law_tx_accepts(
    regions: Seq<(u64, u64)>,
    head: Descriptor,
    next: Option<Descriptor>,
    hdr: HeaderView,
)
    ensures
        tx_outcome(regions, head, next, hdr) is Ok <==> {
            &&& !head.write_only()
            &&& range_backed(regions, head.addr as int, VSOCK_PKT_HDR_SIZE as int)
            &&& head.len >= VSOCK_PKT_HDR_SIZE
            &&& hdr.len == 0 || {
                &&& hdr.len <= MAX_PKT_BUF_SIZE
                &&& next is Some
                &&& !next->0.write_only()
                &&& in_one_region(regions, next->0.addr as int, next->0.len as int)
                &&& next->0.len >= hdr.len
            }
        },
{
    if let Some(desc) = next {
        lemma_slice_result(regions, desc.addr, desc.len as nat);
    }
}

/// When an RX chain makes a packet: the head is writable, lies in memory and can hold a header, and
/// there is a second descriptor, writable, in one region.
pub proof fn law_rx_accepts(regions: Seq<(u64, u64)>, head: Descriptor, next: Option<Descriptor>)
    ensures
        rx_outcome(regions, head, next) is Ok <==> {
            &&& head.write_only()
            &&& range_backed(regions, head.addr as int, VSOCK_PKT_HDR_SIZE as int)
            &&& head.len >= VSOCK_PKT_HDR_SIZE
            &&& next is Some
            &&& next->0.write_only()
            &&& in_one_region(regions, next->0.addr as int, next->0.len as int)
        },
{
    if let Some(desc) = next {
        lemma_slice_result(regions, desc.addr, desc.len as nat);
    }
}

proof fn lemma_slice_result(regions: Seq<(u64, u64)>, addr: u64, len: nat)
    ensures
        slice_result(regions, addr, len) is Ok <==> in_one_region(
            regions,
            addr as int,
            len as int,
        ),
{
}

/// A chain makes a packet in one direction at most.
pub proof fn law_one_direction(
    regions: Seq<(u64, u64)>,
    head: Descriptor,
    next: Option<Descriptor>,
    hdr: HeaderView,
)
    ensures
        !(tx_outcome(regions, head, next, hdr) is Ok && rx_outcome(regions, head, next) is Ok),
{
}

/// A TX packet has a buffer if and only if its header announces data, and the buffer holds all of
/// it. The header is the one that was read.
pub proof fn law_tx_packet(
    regions: Seq<(u64, u64)>,
    head: Descriptor,
    next: Option<Descriptor>,
    hdr: HeaderView,
    pkt: PacketView,
)
    requires
        tx_outcome(regions, head, next, hdr) == Ok::<PacketView, VsockError>(pkt),
    ensures
        pkt.hdr == hdr,
        pkt.hdr_addr == head.addr,
        pkt.buf is Some <==> hdr.len > 0,
        hdr.len <= pkt.buf_size,
        hdr.len <= MAX_PKT_BUF_SIZE,
{
}

/// An RX packet has a buffer, and a header of zeros.
pub proof fn law_rx_packet(
    regions: Seq<(u64, u64)>,
    head: Descriptor,
    next: Option<Descriptor>,
    pkt: PacketView,
)
    requires
        rx_outcome(regions, head, next) == Ok::<PacketView, VsockError>(pkt),
    ensures
        pkt.hdr == HeaderView::zero(),
        pkt.hdr_addr == head.addr,
        pkt.buf is Some,
{
}

/// Where the header announces no data, nothing behind the head of a TX chain is looked at.
pub proof fn law_zero_length_tx(
    regions: Seq<(u64, u64)>,
    head: Descriptor,
    next: Option<Descriptor>,
    other: Option<Descriptor>,
    hdr: HeaderView,
)
    requires
        hdr.len == 0,
    ensures
        tx_outcome(regions, head, next, hdr) == tx_outcome(regions, head, other, hdr),
{
}

/// The checks made when a packet is assembled are enough for all that follows: the header can be
/// written back as a whole, and the buffer, where there is one, is found in memory.
pub proof fn law_assembled_packet_is_in_memory(
    regions: Seq<(u64, u64)>,
    head: Descriptor,
    next: Option<Descriptor>,
    hdr: HeaderView,
    pkt: PacketView,
)
    requires
        tx_outcome(regions, head, next, hdr) == Ok::<PacketView, VsockError>(pkt) || rx_outcome(
            regions,
            head,
            next,
        ) == Ok::<PacketView, VsockError>(pkt),
    ensures
        commit_result(regions, pkt.hdr_addr) is Ok,
        backed_prefix(regions, pkt.hdr_addr as int, VSOCK_PKT_HDR_SIZE as int)
            == VSOCK_PKT_HDR_SIZE,
        pkt.buf is Some ==> slice_result(regions, pkt.buf->0, pkt.buf_size as nat) is Ok,
        pkt.buf is Some ==> range_backed(regions, pkt.buf->0 as int, pkt.buf_size as int),
{
    lemma_backed_prefix(regions, pkt.hdr_addr as int, VSOCK_PKT_HDR_SIZE as int);
    if pkt.buf is Some {
        lemma_slice_result(regions, pkt.buf->0, pkt.buf_size as nat);
        lemma_in_one_region(regions, pkt.buf->0 as int, pkt.buf_size as int);
    }
}

/// A header that was committed is the one that is read there afterwards. `before` are the bytes of
/// guest memory when the header was committed.
pub proof fn law_committed_header_is_read(
    regions: Seq<(u64, u64)>,
    before: Map<int, u8>,
    addr: u64,
    hdr: HeaderView,
)
    requires
        commit_result(regions, addr) is Ok,
        covers(before, addr as int, VSOCK_PKT_HDR_SIZE as nat),
    ensures
        ({
            let after = store(
                before,
                addr as int,
                hdr.to_wire().take(
                    backed_prefix(regions, addr as int, VSOCK_PKT_HDR_SIZE as int),
                ),
            );
            &&& covers(after, addr as int, VSOCK_PKT_HDR_SIZE as nat)
            &&& HeaderView::from_wire(load(after, addr as int, VSOCK_PKT_HDR_SIZE as nat)) == hdr
        }),
{
    law_header_is_recovered(hdr);
    lemma_backed_prefix(regions, addr as int, VSOCK_PKT_HDR_SIZE as int);
    assert(hdr.to_wire().take(VSOCK_PKT_HDR_SIZE as int) =~= hdr.to_wire());
    law_stored_bytes_are_read(before, addr as int, hdr.to_wire());
}

/// Data that was stored is what is read there afterwards.
pub proof fn law_stored_bytes_are_read(before: Map<int, u8>, addr: int, data: Seq<u8>)
    requires
        covers(before, addr, data.len()),
    ensures
        covers(store(before, addr, data), addr, data.len()),
        load(store(before, addr, data), addr, data.len()) == data,
        forall|out: Seq<u8>|
            out.len() == data.len() && #[trigger] agrees(store(before, addr, data), addr, out)
                ==> out == data,
{
    let after = store(before, addr, data);
    assert forall|a: int| addr <= a < addr + data.len() implies #[trigger] after.contains_key(
        a,
    ) by {
        assert(before.contains_key(a));
    }
    assert forall|i: int| 0 <= i < data.len() implies #[trigger] load(
        after,
        addr,
        data.len(),
    )[i] == data[i] by {
        assert(after.contains_key(addr + i));
    }
    assert(load(after, addr, data.len()) =~= data);
    assert forall|out: Seq<u8>|
        out.len() == data.len() && #[trigger] agrees(after, addr, out) implies out == data by {
        lemma_agrees_load(after, addr, out);
    }
}

/// Storing data leaves the rest of memory as it was: what is committed to the header stays out of
/// a buffer that does not overlap it, and the other way round.
pub proof fn law_other_bytes_stay(
    before: Map<int, u8>,
    addr: int,
    data: Seq<u8>,
    other: int,
    len: nat,
)
    requires
        covers(before, other, len),
        other + len <= addr || addr + data.len() <= other,
    ensures
        covers(store(before, addr, data), other, len),
        load(store(before, addr, data), other, len) == load(before, other, len),
{
    let after = store(before, addr, data);
    assert forall|a: int| other <= a < other + len implies #[trigger] after.contains_key(
        a,
    ) by {
        assert(before.contains_key(a));
    }
    assert forall|i: int| 0 <= i < len implies #[trigger] load(after, other, len)[i] == load(
        before,
        other,
        len,
    )[i] by {
        assert(before.contains_key(other + i));
    }
    assert(load(after, other, len) =~= load(before, other, len));
}

/// Setting a flag sets it, keeps the flags that were set, and changes nothing but the flags. Setting
/// it again changes nothing, and the order in which flags are set does not matter.
pub proof fn law_flags_accumulate(hdr: HeaderView, flag: u32, other: u32)
    ensures
        hdr.with_flag(flag).flags & flag == flag,
        hdr.with_flag(flag).flags & hdr.flags == hdr.flags,
        hdr.with_flag(flag) == (HeaderView { flags: hdr.with_flag(flag).flags, ..hdr }),
        hdr.with_flag(flag).with_flag(flag) == hdr.with_flag(flag),
        hdr.with_flag(flag).with_flag(other) == hdr.with_flag(other).with_flag(flag),
{
    let f = hdr.flags;
    assert((f | flag) & flag == flag) by (bit_vector);
    assert((f | flag) & f == f) by (bit_vector);
    assert((f | flag) | flag == f | flag) by (bit_vector);
    assert((f | flag) | other == (f | other) | flag) by (bit_vector);
}

/// The outcome of an assembly is its packet, or its error, and nothing else.
pub proof fn law_outcome(r: Result<VsockPacket, VsockError>)
    ensures
        r is Ok ==> outcome(r) == Ok::<PacketView, VsockError>(r->Ok_0@),
        r is Err ==> outcome(r) == Err::<PacketView, VsockError>(r->Err_0),
{
}

/// The head of a TX chain is refused where it is write-only, then where its memory does not hold a
/// header, then where it is too short for one. Else the data decides.
pub proof fn law_tx_head(
    regions: Seq<(u64, u64)>,
    head: Descriptor,
    next: Option<Descriptor>,
    hdr: HeaderView,
)
    ensures
        ({
            let r = tx_outcome(regions, head, next, hdr);
            let held = forall|a: int|
                head.addr <= a < head.addr + 44 ==> #[trigger] backed(regions, a);
            if (head.flags / 2) % 2 == 1 {
                r == Err::<PacketView, VsockError>(VsockError::UnreadableDescriptor)
            } else if !held {
                r == Err::<PacketView, VsockError>(VsockError::GuestMemoryBounds)
            } else if head.len < 44 {
                r == Err::<PacketView, VsockError>(VsockError::HdrDescTooSmall(head.len))
            } else {
                r == tx_data_outcome(regions, head, next, hdr)
            }
        }),
{
    law_descriptor_flags(head);
}

/// The data buffer of a TX packet is the range of the second descriptor, and no other: it starts at
/// that descriptor's address and has its length. A packet that announces no data has none. The
/// header is the one that was read, and its place is the head's address.
pub proof fn law_tx_packet_is_its_chain(
    regions: Seq<(u64, u64)>,
    head: Descriptor,
    next: Option<Descriptor>,
    hdr: HeaderView,
    pkt: PacketView,
)
    requires
        tx_data_outcome(regions, head, next, hdr) == Ok::<PacketView, VsockError>(pkt),
    ensures
        pkt.hdr_addr == head.addr,
        pkt.hdr == hdr,
        hdr.len > 0 ==> next is Some && pkt.buf == Some(next->0.addr) && pkt.buf_size
            == next->0.len,
        hdr.len == 0 ==> pkt.buf is None && pkt.buf_size == 0,
{
}

/// When the data of a TX chain is refused, and with what error: a length over the limit first, then
/// a missing descriptor, a write-only one, one whose address is not backed, one that runs out of
/// its region, and one that is shorter than the data. Nothing else is refused.
pub proof fn law_tx_data(
    regions: Seq<(u64, u64)>,
    head: Descriptor,
    next: Option<Descriptor>,
    hdr: HeaderView,
)
    ensures
        ({
            let r = tx_data_outcome(regions, head, next, hdr);
            let d = next->0;
            if hdr.len == 0 {
                r is Ok
            } else if hdr.len > 65536 {
                r == Err::<PacketView, VsockError>(VsockError::InvalidPktLen(hdr.len))
            } else if next is None {
                r == Err::<PacketView, VsockError>(VsockError::BufDescMissing)
            } else if (d.flags / 2) % 2 == 1 {
                r == Err::<PacketView, VsockError>(VsockError::UnreadableDescriptor)
            } else if !backed(regions, d.addr as int) {
                r == Err::<PacketView, VsockError>(
                    VsockError::GuestMemoryMmap(GuestMemoryError::InvalidGuestAddress(d.addr)),
                )
            } else if !in_one_region(regions, d.addr as int, d.len as int) {
                r == Err::<PacketView, VsockError>(
                    VsockError::GuestMemoryMmap(GuestMemoryError::InvalidBackendAddress),
                )
            } else if d.len < hdr.len {
                r == Err::<PacketView, VsockError>(VsockError::BufDescTooSmall)
            } else {
                r is Ok
            }
        }),
{
    if let Some(d) = next {
        law_descriptor_flags(d);
        law_slice_result(regions, d.addr, d.len as nat);
    }
}

/// The data buffer of an RX packet is the range of the second descriptor, and no other: it starts at
/// that descriptor's address and has its length. Every field of the header is zero, and its place
/// is the head's address.
pub proof fn law_rx_packet_is_its_chain(
    regions: Seq<(u64, u64)>,
    head: Descriptor,
    next: Option<Descriptor>,
    pkt: PacketView,
)
    requires
        rx_outcome(regions, head, next) == Ok::<PacketView, VsockError>(pkt),
    ensures
        pkt.hdr_addr == head.addr,
        next is Some,
        pkt.buf == Some(next->0.addr),
        pkt.buf_size == next->0.len,
        pkt.hdr.src_cid == 0,
        pkt.hdr.dst_cid == 0,
        pkt.hdr.src_port == 0,
        pkt.hdr.dst_port == 0,
        pkt.hdr.len == 0,
        pkt.hdr.type_ == 0,
        pkt.hdr.op == 0,
        pkt.hdr.flags == 0,
        pkt.hdr.buf_alloc == 0,
        pkt.hdr.fwd_cnt == 0,
{
}

/// When an RX chain is refused, and with what error: a head that is read-only, not backed or too
/// short; then a missing second descriptor, a read-only one, one whose address is not backed, and
/// one that runs out of its region. Nothing else is refused.
pub proof fn law_rx_refusals(regions: Seq<(u64, u64)>, head: Descriptor, next: Option<Descriptor>)
    ensures
        ({
            let r = rx_outcome(regions, head, next);
            let held = forall|a: int|
                head.addr <= a < head.addr + 44 ==> #[trigger] backed(regions, a);
            let d = next->0;
            if (head.flags / 2) % 2 == 0 {
                r == Err::<PacketView, VsockError>(VsockError::UnwritableDescriptor)
            } else if !held {
                r == Err::<PacketView, VsockError>(VsockError::GuestMemoryBounds)
            } else if head.len < 44 {
                r == Err::<PacketView, VsockError>(VsockError::HdrDescTooSmall(head.len))
            } else if next is None {
                r == Err::<PacketView, VsockError>(VsockError::BufDescMissing)
            } else if (d.flags / 2) % 2 == 0 {
                r == Err::<PacketView, VsockError>(VsockError::UnwritableDescriptor)
            } else if !backed(regions, d.addr as int) {
                r == Err::<PacketView, VsockError>(
                    VsockError::GuestMemoryMmap(GuestMemoryError::InvalidGuestAddress(d.addr)),
                )
            } else if !in_one_region(regions, d.addr as int, d.len as int) {
                r == Err::<PacketView, VsockError>(
                    VsockError::GuestMemoryMmap(GuestMemoryError::InvalidBackendAddress),
                )
            } else {
                r is Ok
            }
        }),
{
    law_descriptor_flags(head);
    if let Some(d) = next {
        law_descriptor_flags(d);
        law_slice_result(regions, d.addr, d.len as nat);
    }
}

/// Setting flags sets those and no others: a bit is set afterwards if and only if it was set before
/// or is among the flags to be set. No other field changes.
pub proof fn law_flag_by_flag(hdr: HeaderView, flag: u32)
    ensures
        forall|i: u32|
            i < 32 ==> (#[trigger] (hdr.with_flag(flag).flags >> i) % 2 == 1 <==> (hdr.flags >> i)
                % 2 == 1 || (flag >> i) % 2 == 1),
        hdr.with_flag(flag).flags & !(hdr.flags | flag) == 0,
        hdr.with_flag(flag).src_cid == hdr.src_cid,
        hdr.with_flag(flag).dst_cid == hdr.dst_cid,
        hdr.with_flag(flag).src_port == hdr.src_port,
        hdr.with_flag(flag).dst_port == hdr.dst_port,
        hdr.with_flag(flag).len == hdr.len,
        hdr.with_flag(flag).type_ == hdr.type_,
        hdr.with_flag(flag).op == hdr.op,
        hdr.with_flag(flag).buf_alloc == hdr.buf_alloc,
        hdr.with_flag(flag).fwd_cnt == hdr.fwd_cnt,
{
    let f = hdr.flags;
    assert((f | flag) & !(f | flag) == 0) by (bit_vector);
    assert forall|i: u32| i < 32 implies (#[trigger] (hdr.with_flag(flag).flags >> i) % 2 == 1
        <==> (hdr.flags >> i) % 2 == 1 || (flag >> i) % 2 == 1) by {
        assert(((f | flag) >> i) % 2 == 1 <==> (f >> i) % 2 == 1 || (flag >> i) % 2 == 1)
            by (bit_vector)
            requires
                i < 32,
        ;
    }
}

} // verus!
