//! The two MSP checksums: XOR for MSPv1 and CRC-8/DVB-S2 for MSPv2.

use crc_any::CRC;
use vstd::prelude::*;

verus! {

/// One shift step of the CRC-8 register with polynomial 0xD5, most
/// significant bit first.
pub open spec fn crc8_shift(v: u8) -> u8 {
    if v & 0x80 == 0 {
        v << 1
    } else {
        (v << 1) ^ 0xD5
    }
}

/// Eight shift steps: the register after one whole byte has been absorbed.
pub open spec fn crc8_byte(v: u8) -> u8 {
    crc8_shift(
        crc8_shift(
            crc8_shift(crc8_shift(crc8_shift(crc8_shift(crc8_shift(crc8_shift(v)))))),
        ),
    )
}

/// CRC-8/DVB-S2 of a byte sequence: polynomial 0xD5, initial value 0, no
/// reflection, no final XOR.
pub open spec fn crc8_dvb_s2(data: Seq<u8>) -> u8
    decreases data.len(),
{
    if data.len() == 0 {
        0
    } else {
        crc8_byte(crc8_dvb_s2(data.drop_last()) ^ data.last())
    }
}

/// XOR of all bytes of a sequence, the MSPv1 checksum.
pub open spec fn xor_sum(data: Seq<u8>) -> u8
    decreases data.len(),
{
    if data.len() == 0 {
        0
    } else {
        xor_sum(data.drop_last()) ^ data.last()
    }
}

/// Computes CRC-8/DVB-S2 with `crc_any`: a `CRC` made by
/// `CRC::create_crc(0xd5, 8, 0, 0, false)` digests `data` and `get_crc` is
/// read back. Trusted: the contract restates what the crate computes for
/// these parameters (a table of `crc8_byte`, applied to the register XOR the
/// next byte, starting from zero); it is not proved.
#[verifier::external_body]
pub(crate) fn crc8_dvb_s2_digest(data: &[u8]) -> (crc: u8)
    ensures
        crc == crc8_dvb_s2(data@),
{
    let mut crc = CRC::create_crc(0xd5, 8, 0x0, 0x0, false);
    crc.digest(data);
    crc.get_crc() as u8
}

/// Computes the XOR of all bytes of `data`.
pub fn xor_checksum(data: &[u8]) -> (sum: u8)
    ensures
        sum == xor_sum(data@),
{
    let mut sum: u8 = 0;
    let mut i: usize = 0;
    while i < data.len()
        invariant
            i <= data.len(),
            sum == xor_sum(data@.take(i as int)),
        decreases data.len() - i,
    {
        assert(data@.take(i + 1).drop_last() =~= data@.take(i as int));
        sum = sum ^ data[i];
        i = i + 1;
    }
    assert(data@.take(i as int) =~= data@);
    sum
}

/// Absorbing a byte is a one-to-one map of the CRC register.
#[verifier::rlimit(30)]
pub proof fn lemma_crc8_byte_injective(u: u8, v: u8)
    by (bit_vector)
    ensures
        crc8_byte(u) == crc8_byte(v) ==> u == v,
{
}

/// XOR with a fixed byte is one-to-one.
pub proof fn lemma_xor_injective(u: u8, v: u8, b: u8)
    by (bit_vector)
    ensures
        u ^ b == v ^ b ==> u == v,
        b ^ u == b ^ v ==> u == v,
{
}

/// Two sequences that differ in exactly one byte.
pub open spec fn differ_at(a: Seq<u8>, b: Seq<u8>, at: int) -> bool {
    &&& a.len() == b.len()
    &&& 0 <= at < a.len()
    &&& a[at] != b[at]
    &&& forall|i: int| 0 <= i < a.len() && i != at ==> a[i] == b[i]
}

/// CRC-8/DVB-S2 tells apart any two sequences that differ in one byte, so
/// every single flipped bit changes the checksum.
pub proof fn lemma_crc8_detects_byte(a: Seq<u8>, b: Seq<u8>, at: int)
    requires
        differ_at(a, b, at),
    ensures
        crc8_dvb_s2(a) != crc8_dvb_s2(b),
    decreases a.len(),
{
    let ra = crc8_dvb_s2(a.drop_last());
    let rb = crc8_dvb_s2(b.drop_last());
    if at == a.len() - 1 {
        assert(a.drop_last() =~= b.drop_last());
        lemma_xor_injective(a.last(), b.last(), ra);
    } else {
        assert(differ_at(a.drop_last(), b.drop_last(), at));
        lemma_crc8_detects_byte(a.drop_last(), b.drop_last(), at);
        lemma_xor_injective(ra, rb, a.last());
    }
    lemma_crc8_byte_injective(ra ^ a.last(), rb ^ b.last());
}

/// The XOR checksum tells apart any two sequences that differ in one byte.
pub proof fn lemma_xor_detects_byte(a: Seq<u8>, b: Seq<u8>, at: int)
    requires
        differ_at(a, b, at),
    ensures
        xor_sum(a) != xor_sum(b),
    decreases a.len(),
{
    let ra = xor_sum(a.drop_last());
    let rb = xor_sum(b.drop_last());
    if at == a.len() - 1 {
        assert(a.drop_last() =~= b.drop_last());
        lemma_xor_injective(a.last(), b.last(), ra);
    } else {
        assert(differ_at(a.drop_last(), b.drop_last(), at));
        lemma_xor_detects_byte(a.drop_last(), b.drop_last(), at);
        lemma_xor_injective(ra, rb, a.last());
    }
}

/// Flipping one bit of a byte changes the byte.
pub proof fn lemma_bit_flip_changes(b: u8, bit: u8)
    by (bit_vector)
    requires
        bit < 8,
    ensures
        b ^ (1u8 << bit) != b,
{
}

} // verus!
