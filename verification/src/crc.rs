//! The CRC-16 that closes every RTU frame: reflected, polynomial 0xA001,
//! register preset to 0xFFFF, no final inversion.

use vstd::prelude::*;

verus! {

/// The register after one bit has been shifted out.
pub open spec fn shift_once(reg: u16) -> u16 {
    if reg & 1 == 1 {
        (reg >> 1) ^ 0xA001
    } else {
        reg >> 1
    }
}

/// The register after `n` bits have been shifted out.
pub open spec fn shift_bits(reg: u16, n: nat) -> u16
    decreases n,
{
    if n == 0 {
        reg
    } else {
        shift_bits(shift_once(reg), (n - 1) as nat)
    }
}

/// The register after one more byte of the message has been taken in.
pub open spec fn absorb(reg: u16, byte: u8) -> u16 {
    shift_bits(reg ^ (byte as u16), 8)
}

/// The checksum of a message: the preset register after every byte, first to
/// last, has been taken in.
pub open spec fn checksum(data: Seq<u8>) -> u16
    decreases data.len(),
{
    if data.len() == 0 {
        0xFFFF
    } else {
        absorb(checksum(data.drop_last()), data.last())
    }
}

/// Shifting one bit out loses nothing: distinct registers stay distinct.
pub proof fn lemma_shift_once_injective(a: u16, b: u16)
    requires
        a != b,
    ensures
        shift_once(a) != shift_once(b),
{
    assert(a != b ==> (if a & 1 == 1 {
        (a >> 1) ^ 0xA001
    } else {
        a >> 1
    }) != (if b & 1 == 1 {
        (b >> 1) ^ 0xA001
    } else {
        b >> 1
    })) by (bit_vector);
}

/// Shifting any number of bits out keeps distinct registers distinct.
pub proof fn lemma_shift_bits_injective(a: u16, b: u16, n: nat)
    requires
        a != b,
    ensures
        shift_bits(a, n) != shift_bits(b, n),
    decreases n,
{
    if n > 0 {
        lemma_shift_once_injective(a, b);
        lemma_shift_bits_injective(shift_once(a), shift_once(b), (n - 1) as nat);
    }
}

/// Taking in a byte keeps apart what differs in the register or in the byte.
pub proof fn lemma_absorb_injective(r1: u16, b1: u8, r2: u16, b2: u8)
    requires
        (r1 == r2 && b1 != b2) || (r1 != r2 && b1 == b2),
    ensures
        absorb(r1, b1) != absorb(r2, b2),
{
    let x: u16 = b1 as u16;
    let y: u16 = b2 as u16;
    assert(x != y ==> (r1 ^ x) != (r1 ^ y)) by (bit_vector);
    assert(r1 != r2 ==> (r1 ^ x) != (r2 ^ x)) by (bit_vector);
    lemma_shift_bits_injective(r1 ^ x, r2 ^ y, 8);
}

/// Every change confined to one byte of a message changes its checksum: two
/// messages of one length that differ at exactly one index never share a
/// checksum.
pub proof fn lemma_checksum_detects_byte_change(a: Seq<u8>, b: Seq<u8>, at: int)
    requires
        a.len() == b.len(),
        0 <= at < a.len(),
        a[at] != b[at],
        forall|i: int| 0 <= i < a.len() && i != at ==> a[i] == b[i],
    ensures
        checksum(a) != checksum(b),
    decreases a.len(),
{
    let last = a.len() - 1;
    if at == last {
        assert(a.drop_last() =~= b.drop_last());
        lemma_absorb_injective(checksum(a.drop_last()), a.last(), checksum(b.drop_last()), b.last());
    } else {
        lemma_checksum_detects_byte_change(a.drop_last(), b.drop_last(), at);
        lemma_absorb_injective(checksum(a.drop_last()), a.last(), checksum(b.drop_last()), b.last());
    }
}

/// Computes the checksum of `data`.
pub fn crc16(data: &[u8]) -> (crc: u16)
    ensures
        crc == checksum(data@),
{
    let mut reg: u16 = 0xFFFF;
    let mut i: usize = 0;
    while i < data.len()
        invariant
            i <= data.len(),
            reg == checksum(data@.take(i as int)),
        decreases data.len() - i,
    {
        let ghost before = reg;
        reg = reg ^ (data[i] as u16);
        let mut k: u8 = 0;
        while k < 8
            invariant
                k <= 8,
                i < data.len(),
                shift_bits(reg, (8 - k) as nat) == absorb(before, data@[i as int]),
            decreases 8 - k,
        {
            reg = if reg & 1 == 1 {
                (reg >> 1) ^ 0xA001
            } else {
                reg >> 1
            };
            k = k + 1;
        }
        proof {
            let next = data@.take(i + 1);
            assert(next.drop_last() =~= data@.take(i as int));
            assert(next.last() == data@[i as int]);
        }
        i = i + 1;
    }
    proof {
        assert(data@.take(i as int) =~= data@);
    }
    reg
}

} // verus!
