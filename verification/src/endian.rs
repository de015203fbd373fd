//! Little-endian integers.

use vstd::prelude::*;

verus! {

/// The number that `bytes` stand for, least significant byte first.
pub open spec fn le_value(bytes: Seq<u8>) -> nat
    decreases bytes.len(),
{
    if bytes.len() == 0 {
        0
    } else {
        bytes[0] as nat + 256 * le_value(bytes.drop_first())
    }
}

/// The lowest `n` bytes of `x`, least significant byte first.
pub open spec fn le_bytes(x: nat, n: nat) -> Seq<u8>
    decreases n,
{
    if n == 0 {
        Seq::empty()
    } else {
        seq![(x % 256) as u8] + le_bytes(x / 256, (n - 1) as nat)
    }
}

/// How many numbers `n` bytes can tell apart.
pub open spec fn span(n: nat) -> nat
    decreases n,
{
    if n == 0 {
        1
    } else {
        256 * span((n - 1) as nat)
    }
}

pub proof fn lemma_span()
    ensures
        span(2) == 0x1_0000,
        span(4) == 0x1_0000_0000,
        span(8) == 0x1_0000_0000_0000_0000,
{
    reveal_with_fuel(span, 9);
}

pub proof fn lemma_le_bytes_len(x: nat, n: nat)
    ensures
        le_bytes(x, n).len() == n,
    decreases n,
{
    if n > 0 {
        lemma_le_bytes_len(x / 256, (n - 1) as nat);
    }
}

pub proof fn lemma_le_value_bound(bytes: Seq<u8>)
    ensures
        le_value(bytes) < span(bytes.len()),
    decreases bytes.len(),
{
    if bytes.len() > 0 {
        lemma_le_value_bound(bytes.drop_first());
    }
}

/// A number that fits in `n` bytes is what its `n` bytes stand for.
pub proof fn lemma_value_of_bytes(x: nat, n: nat)
    requires
        x < span(n),
    ensures
        le_value(le_bytes(x, n)) == x,
    decreases n,
{
    if n > 0 {
        let rest = le_bytes(x / 256, (n - 1) as nat);
        lemma_value_of_bytes(x / 256, (n - 1) as nat);
        assert(le_bytes(x, n).drop_first() =~= rest);
    }
}

/// Bytes are recovered from the number that they stand for, which fits in them.
pub proof fn lemma_bytes_of_value(bytes: Seq<u8>)
    ensures
        le_value(bytes) < span(bytes.len()),
        le_bytes(le_value(bytes), bytes.len()) == bytes,
    decreases bytes.len(),
{
    lemma_le_value_bound(bytes);
    if bytes.len() > 0 {
        let rest = bytes.drop_first();
        lemma_bytes_of_value(rest);
        assert(le_value(bytes) / 256 == le_value(rest));
        assert(seq![bytes[0]] + rest =~= bytes);
    }
}

/// The number that at most eight bytes stand for.
pub fn from_le(bytes: &[u8]) -> (x: u64)
    requires
        bytes@.len() <= 8,
    ensures
        x == le_value(bytes@),
{
    let mut x: u64 = 0;
    let mut i: usize = bytes.len();
    while i > 0
        invariant
            i <= bytes@.len() <= 8,
            x == le_value(bytes@.skip(i as int)),
        decreases i,
    {
        proof {
            let tail = bytes@.skip(i as int);
            lemma_le_value_bound(tail);
            reveal_with_fuel(span, 9);
            assert(bytes@.skip(i - 1).drop_first() =~= tail);
        }
        i = i - 1;
        x = bytes[i] as u64 + 256 * x;
    }
    assert(bytes@.skip(0) =~= bytes@);
    x
}

/// The eight bytes of `x`.
pub fn u64_to_le(x: u64) -> (bytes: [u8; 8])
    ensures
        bytes@ == le_bytes(x as nat, 8),
{
    let (x1, x2): (u64, u64) = (x / 0x100, x / 0x1_0000);
    let (x3, x4): (u64, u64) = (x2 / 0x100, x2 / 0x1_0000);
    let (x5, x6): (u64, u64) = (x4 / 0x100, x4 / 0x1_0000);
    let x7: u64 = x6 / 0x100;
    let bytes = [
        (x % 0x100) as u8,
        (x1 % 0x100) as u8,
        (x2 % 0x100) as u8,
        (x3 % 0x100) as u8,
        (x4 % 0x100) as u8,
        (x5 % 0x100) as u8,
        (x6 % 0x100) as u8,
        x7 as u8,
    ];
    proof {
        reveal_with_fuel(le_bytes, 9);
        assert(bytes@ =~= le_bytes(x as nat, 8));
    }
    bytes
}

/// The four bytes of `x`.
pub fn u32_to_le(x: u32) -> (bytes: [u8; 4])
    ensures
        bytes@ == le_bytes(x as nat, 4),
{
    let low = u16_to_le((x % 0x1_0000) as u16);
    let high = u16_to_le((x / 0x1_0000) as u16);
    let bytes = [low[0], low[1], high[0], high[1]];
    proof {
        reveal_with_fuel(le_bytes, 5);
        assert(bytes@ =~= le_bytes(x as nat, 4));
    }
    bytes
}

/// The two bytes of `x`.
pub fn u16_to_le(x: u16) -> (bytes: [u8; 2])
    ensures
        bytes@ == le_bytes(x as nat, 2),
{
    let bytes = [(x % 256) as u8, (x / 256) as u8];
    proof {
        reveal_with_fuel(le_bytes, 3);
        assert(bytes@ =~= le_bytes(x as nat, 2));
    }
    bytes
}

} // verus!
