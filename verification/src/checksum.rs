//! The checksum that the bootloader computes over flash contents.

use crate::error::Error;
use vstd::prelude::*;

verus! {

/// The CRC-32/MPEG-2 checksum of `data`: what `crc_any::CRC::crc32mpeg2()` reports after it
/// has digested `data`.
pub uninterp spec fn crc32_mpeg2(data: Seq<u8>) -> u32;

/// Computes the CRC-32/MPEG-2 checksum of `data` with `crc_any`: a fresh
/// `CRC::crc32mpeg2()` digests `data` and `get_crc` reads the sum.
///
/// Trusted: the result is a function of the bytes alone, named [`crc32_mpeg2`].
#[verifier::external_body]
pub(crate) fn crc32_mpeg2_digest(data: &[u8]) -> (crc: u32)
    ensures
        crc == crc32_mpeg2(data@),
{
    let mut crc = crc_any::CRC::crc32mpeg2();
    crc.digest(data);
    crc.get_crc() as u32
}

/// `data` as the target feeds it to its checksum unit: cut into words of four bytes, the last
/// one filled up with zeros, and the bytes of each word in reverse order.
pub open spec fn word_swapped(data: Seq<u8>) -> Seq<u8> {
    Seq::new(
        ((data.len() + 3) / 4 * 4) as nat,
        |i: int|
            {
                let source = i / 4 * 4 + (3 - i % 4);
                if source < data.len() {
                    data[source]
                } else {
                    0u8
                }
            },
    )
}

/// The checksum that the target reports for a memory area that holds `data`.
pub open spec fn crc32_of(data: Seq<u8>) -> u32 {
    crc32_mpeg2(word_swapped(data))
}

/// The byte at `index`, or zero behind the end of `data`.
fn byte_or_zero(data: &[u8], index: usize) -> (byte: u8)
    ensures
        byte == if index < data@.len() {
            data@[index as int]
        } else {
            0u8
        },
{
    if index < data.len() {
        data[index]
    } else {
        0
    }
}

/// Returns `data` cut into words of four bytes, the last one filled up with zeros, and the
/// bytes of each word in reverse order.
pub fn swap_words(data: &[u8]) -> (words: Vec<u8>)
    ensures
        words@ == word_swapped(data@),
{
    let mut words: Vec<u8> = Vec::new();
    let mut start: usize = 0;
    while start < data.len()
        invariant
            start <= data@.len(),
            start % 4 == 0 || start == data@.len(),
            words@ == word_swapped(data@).take((start + 3) / 4 * 4),
        decreases data.len() - start,
    {
        let ghost before = words@;
        let left: usize = data.len() - start;
        words.push(byte_or_zero(data, if left > 3 { start + 3 } else { data.len() }));
        words.push(byte_or_zero(data, if left > 2 { start + 2 } else { data.len() }));
        words.push(byte_or_zero(data, if left > 1 { start + 1 } else { data.len() }));
        words.push(data[start]);
        let next: usize = if left > 4 { start + 4 } else { data.len() };
        assert(words@ =~= word_swapped(data@).take((next + 3) / 4 * 4));
        start = next;
    }
    assert(words@ =~= word_swapped(data@));
    words
}

/// Calculates the checksum of a byte buffer in the way the target does it.
pub fn crc32(buff: &[u8]) -> (crc: u32)
    ensures
        crc == crc32_of(buff@),
{
    let words = swap_words(buff);
    crc32_mpeg2_digest(words.as_slice())
}

/// Compares the checksum that the target reported with the one computed here.
pub fn compare_checksums(reported: u32, computed: u32) -> (result: Result<(), Error>)
    ensures
        result is Ok <==> reported == computed,
        result matches Err(error) ==> error == Error::VerificationError,
{
    if reported == computed {
        Ok(())
    } else {
        Err(Error::VerificationError)
    }
}

/// The checksum depends on nothing but the bytes: equal input gives equal output.
pub proof fn lemma_crc32_deterministic(first: Seq<u8>, second: Seq<u8>)
    requires
        first == second,
    ensures
        crc32_of(first) == crc32_of(second),
{
}

/// Data whose length is a multiple of four is fed to the checksum unit at its own length;
/// other data is padded to the next multiple of four.
pub proof fn lemma_word_swapped_len(data: Seq<u8>)
    ensures
        word_swapped(data).len() % 4 == 0,
        data.len() <= word_swapped(data).len() < data.len() + 4,
{
}

} // verus!
