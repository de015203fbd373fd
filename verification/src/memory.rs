//! Guest memory.
//!
//! Guest memory is a `vm_memory::GuestMemoryMmap`: a collection of regions, each a range of guest
//! addresses that is mapped into this process. Two things about such a value are named here, the
//! regions and the bytes. The functions at the end of this file call into `vm_memory`; what their
//! contracts say is believed, not proved.

use crate::error::GuestMemoryError;
use vm_memory::{
    Bytes, GuestAddress, GuestMemory, GuestMemoryError as AccessError, GuestMemoryMmap,
};
use vstd::prelude::*;

verus! {

/// Guest memory that is mapped into this process. Nothing inside it is visible to proofs.
#[verifier::external_type_specification]
#[verifier::external_body]
#[verifier::reject_recursive_types(B)]
pub struct ExGuestMemoryMmap<B>(vm_memory::GuestMemoryMmap<B>);

/// The regions of `mem`, each as its first guest address and its length in bytes. None is empty, no
/// two overlap, none reaches past the last 64-bit address, and no operation on `mem` changes them.
pub uninterp spec fn guest_regions(mem: GuestMemoryMmap) -> Seq<(u64, u64)>;

/// The bytes of guest memory, by guest address, at those addresses to which nothing stores but
/// [`write_slice`], through an exclusive borrow of this value and that very address. An address to
/// which anything else may store (the running guest, another handle on the same regions, a shared
/// borrow of this one, a second mapping of the same file) is not in the map: what is read there is
/// up to the machine, and nothing is claimed of it.
pub uninterp spec fn guest_bytes(mem: GuestMemoryMmap) -> Map<int, u8>;

/// Whether one of `regions` holds the address `addr`.
pub open spec fn backed(regions: Seq<(u64, u64)>, addr: int) -> bool {
    exists|i: int|
        #![trigger regions[i]]
        0 <= i < regions.len() && regions[i].0 <= addr < regions[i].0 + regions[i].1
}

/// Whether `regions` together hold all `len` addresses from `addr` on.
pub open spec fn range_backed(regions: Seq<(u64, u64)>, addr: int, len: int) -> bool {
    forall|a: int| addr <= a < addr + len ==> #[trigger] backed(regions, a)
}

/// How many of the `len` addresses from `addr` on come before the first that no region holds.
pub open spec fn backed_prefix(regions: Seq<(u64, u64)>, addr: int, len: int) -> int
    decreases len,
{
    if len <= 0 || !backed(regions, addr) {
        0
    } else {
        1 + backed_prefix(regions, addr + 1, len - 1)
    }
}

/// Whether `addr` and the `len` addresses from it on all lie in a single one of `regions`.
pub open spec fn in_one_region(regions: Seq<(u64, u64)>, addr: int, len: int) -> bool {
    exists|i: int|
        #![trigger regions[i]]
        0 <= i < regions.len() && regions[i].0 <= addr < regions[i].0 + regions[i].1 && addr + len
            <= regions[i].0 + regions[i].1
}

/// What a copy of `len` bytes between guest memory at `addr` and a buffer returns.
pub open spec fn copy_result(regions: Seq<(u64, u64)>, addr: u64, len: nat) -> Result<
    (),
    GuestMemoryError,
> {
    if range_backed(regions, addr as int, len as int) {
        Ok(())
    } else if !backed(regions, addr as int) {
        Err(GuestMemoryError::InvalidGuestAddress(addr))
    } else {
        Err(
            GuestMemoryError::PartialBuffer {
                expected: len as usize,
                completed: backed_prefix(regions, addr as int, len as int) as usize,
            },
        )
    }
}

/// What a request for `len` bytes of one region at `addr` returns.
pub open spec fn slice_result(regions: Seq<(u64, u64)>, addr: u64, len: nat) -> Result<
    (),
    GuestMemoryError,
> {
    if !backed(regions, addr as int) {
        Err(GuestMemoryError::InvalidGuestAddress(addr))
    } else if !in_one_region(regions, addr as int, len as int) {
        Err(GuestMemoryError::InvalidBackendAddress)
    } else {
        Ok(())
    }
}

/// Whether `bytes` has all `len` addresses from `addr` on.
pub open spec fn covers(bytes: Map<int, u8>, addr: int, len: nat) -> bool {
    forall|a: int| addr <= a < addr + len ==> #[trigger] bytes.contains_key(a)
}

/// The `len` bytes from `addr` on.
pub open spec fn load(bytes: Map<int, u8>, addr: int, len: nat) -> Seq<u8> {
    Seq::new(len, |i: int| bytes[addr + i])
}

/// `bytes` with `data` put in from `addr` on, where it has those addresses.
pub open spec fn store(bytes: Map<int, u8>, addr: int, data: Seq<u8>) -> Map<int, u8> {
    Map::new(
        |a: int| bytes.contains_key(a),
        |a: int|
            if addr <= a < addr + data.len() {
                data[a - addr]
            } else {
                bytes[a]
            },
    )
}

/// Whether `data` is what `bytes` has from `addr` on, wherever it has anything.
pub open spec fn agrees(bytes: Map<int, u8>, addr: int, data: Seq<u8>) -> bool {
    forall|a: int|
        addr <= a < addr + data.len() && #[trigger] bytes.contains_key(a) ==> bytes[a] == data[a
            - addr]
}

/// A range in one region is a range that the regions hold.
pub proof fn lemma_in_one_region(regions: Seq<(u64, u64)>, addr: int, len: int)
    requires
        in_one_region(regions, addr, len),
    ensures
        range_backed(regions, addr, len),
{
    let k = choose|i: int|
        #![trigger regions[i]]
        0 <= i < regions.len() && regions[i].0 <= addr < regions[i].0 + regions[i].1 && addr + len
            <= regions[i].0 + regions[i].1;
    assert forall|a: int| addr <= a < addr + len implies #[trigger] backed(regions, a) by {
        assert(regions[k].0 <= a < regions[k].0 + regions[k].1);
    }
}

/// Nothing of a range that the regions hold is cut off.
pub proof fn lemma_backed_prefix(regions: Seq<(u64, u64)>, addr: int, len: int)
    requires
        0 <= len,
    ensures
        0 <= backed_prefix(regions, addr, len) <= len,
        backed_prefix(regions, addr, len) == len <==> range_backed(regions, addr, len),
    decreases len,
{
    if len > 0 {
        lemma_backed_prefix(regions, addr + 1, len - 1);
        if backed(regions, addr) {
            assert(range_backed(regions, addr, len) <==> range_backed(regions, addr + 1, len - 1));
        }
    }
}

/// Bytes that cover a range and agree with `data` there are loaded as `data`.
pub proof fn lemma_agrees_load(bytes: Map<int, u8>, addr: int, data: Seq<u8>)
    requires
        covers(bytes, addr, data.len()),
        agrees(bytes, addr, data),
    ensures
        load(bytes, addr, data.len()) == data,
{
    assert forall|i: int| 0 <= i < data.len() implies bytes[addr + i] == data[i] by {
        assert(bytes.contains_key(addr + i));
    }
    assert(load(bytes, addr, data.len()) =~= data);
}

/// Calls `GuestMemory::check_range`. For a range that is not empty it tells whether the regions
/// hold every address of the range; the range may run from one region into the next.
#[verifier::external_body]
pub(crate) fn check_range(mem: &GuestMemoryMmap, addr: u64, len: usize) -> (r: bool)
    requires
        len > 0,
    ensures
        r == range_backed(guest_regions(*mem), addr as int, len as int),
{
    mem.check_range(GuestAddress(addr), len)
}

/// Calls `GuestMemory::get_slice`, which finds the host memory of a range of guest addresses. It
/// fails where no region holds the first address, and where the region that does ends before the
/// range. A region never reaches past the last 64-bit address, so neither does a range that was
/// found. Where in the host's memory the range lies is left unsaid, and not kept.
#[verifier::external_body]
pub(crate) fn get_slice(mem: &GuestMemoryMmap, addr: u64, len: usize) -> (r: Result<
    (),
    GuestMemoryError,
>)
    ensures
        r == slice_result(guest_regions(*mem), addr, len as nat),
        r is Ok ==> addr + len <= u64::MAX,
{
    mem.get_slice(GuestAddress(addr), len).map(|_slice| ()).map_err(
        |e|
            match e {
                AccessError::InvalidGuestAddress(a) => GuestMemoryError::InvalidGuestAddress(a.0),
                AccessError::IOError(io) => GuestMemoryError::IOError(io),
                AccessError::PartialBuffer { expected, completed } =>
                    GuestMemoryError::PartialBuffer { expected, completed },
                AccessError::InvalidBackendAddress => GuestMemoryError::InvalidBackendAddress,
                AccessError::HostAddressNotAvailable => GuestMemoryError::HostAddressNotAvailable,
            },
    )
}

/// Calls `Bytes::read_slice`, which fills `out` from guest memory at `addr`. It succeeds where the
/// regions hold the whole range, and else says how far they do. Of the bytes that it reads, those
/// in `guest_bytes` are what is there; of the others, and of what `out` holds after a failure,
/// nothing is said.
#[verifier::external_body]
pub(crate) fn read_slice(mem: &GuestMemoryMmap, out: &mut [u8], addr: u64) -> (r: Result<
    (),
    GuestMemoryError,
>)
    requires
        old(out)@.len() > 0,
    ensures
        final(out)@.len() == old(out)@.len(),
        r == copy_result(guest_regions(*mem), addr, old(out)@.len()),
        r is Ok ==> agrees(guest_bytes(*mem), addr as int, final(out)@),
{
    mem.read_slice(out, GuestAddress(addr)).map_err(
        |e|
            match e {
                AccessError::InvalidGuestAddress(a) => GuestMemoryError::InvalidGuestAddress(a.0),
                AccessError::IOError(io) => GuestMemoryError::IOError(io),
                AccessError::PartialBuffer { expected, completed } =>
                    GuestMemoryError::PartialBuffer { expected, completed },
                AccessError::InvalidBackendAddress => GuestMemoryError::InvalidBackendAddress,
                AccessError::HostAddressNotAvailable => GuestMemoryError::HostAddressNotAvailable,
            },
    )
}

/// Calls `Bytes::write_slice`, which copies `data` into guest memory at `addr`. It succeeds where
/// the regions hold the whole range. Else it says how far they do, and what comes before that has
/// been written. The regions stay as they are.
#[verifier::external_body]
pub(crate) fn write_slice(mem: &mut GuestMemoryMmap, data: &[u8], addr: u64) -> (r: Result<
    (),
    GuestMemoryError,
>)
    requires
        data@.len() > 0,
    ensures
        r == copy_result(guest_regions(*old(mem)), addr, data@.len()),
        guest_regions(*final(mem)) == guest_regions(*old(mem)),
        guest_bytes(*final(mem)) == store(
            guest_bytes(*old(mem)),
            addr as int,
            data@.take(backed_prefix(guest_regions(*old(mem)), addr as int, data@.len() as int)),
        ),
{
    mem.write_slice(data, GuestAddress(addr)).map_err(
        |e|
            match e {
                AccessError::InvalidGuestAddress(a) => GuestMemoryError::InvalidGuestAddress(a.0),
                AccessError::IOError(io) => GuestMemoryError::IOError(io),
                AccessError::PartialBuffer { expected, completed } =>
                    GuestMemoryError::PartialBuffer { expected, completed },
                AccessError::InvalidBackendAddress => GuestMemoryError::InvalidBackendAddress,
                AccessError::HostAddressNotAvailable => GuestMemoryError::HostAddressNotAvailable,
            },
    )
}

} // verus!
