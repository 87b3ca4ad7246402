//! The stream file: an 8-byte little-endian record count followed by the
//! encoded payload. A loaded stream is the payload followed by `PADDING`
//! zero bytes, so that a decoder may read past the last record.

use vstd::prelude::*;

verus! {

/// Length of the record-count header at the start of a stream file.
pub const HEADER_LEN: usize = 8;

/// Number of zero bytes appended to the payload of a loaded stream.
pub const PADDING: usize = 16;

/// Why a stream file could not be loaded.
#[derive(Debug, Clone, Copy, PartialEq, Eq)]
pub enum LoadError {
    /// The file is shorter than the record-count header.
    TruncatedHeader,
}

/// The number that `s` spells in base 256, least significant byte first.
pub open spec fn le_value(s: Seq<u8>) -> nat
    decreases s.len(),
{
    if s.len() == 0 {
        0
    } else {
        s[0] as nat + 256 * le_value(s.drop_first())
    }
}

/// `n` zero bytes.
pub open spec fn zeros(n: nat) -> Seq<u8> {
    Seq::new(n, |i: int| 0u8)
}

/// The record count that the header of `file` holds.
pub open spec fn header_count(file: Seq<u8>) -> nat {
    le_value(file.take(HEADER_LEN as int))
}

/// The decoder-ready buffer of `file`: what follows the header, then the padding.
pub open spec fn padded_payload(file: Seq<u8>) -> Seq<u8> {
    file.skip(HEADER_LEN as int) + zeros(PADDING as nat)
}

/// A little-endian number of `n` bytes is below `256^n`; written out for the
/// eight lengths a header prefix can have.
proof fn lemma_le_value_bound(s: Seq<u8>)
    requires
        s.len() <= 8,
    ensures
        s.len() == 0 ==> le_value(s) == 0,
        s.len() == 1 ==> le_value(s) < 0x100,
        s.len() == 2 ==> le_value(s) < 0x1_0000,
        s.len() == 3 ==> le_value(s) < 0x100_0000,
        s.len() == 4 ==> le_value(s) < 0x1_0000_0000,
        s.len() == 5 ==> le_value(s) < 0x100_0000_0000,
        s.len() == 6 ==> le_value(s) < 0x1_0000_0000_0000,
        s.len() == 7 ==> le_value(s) < 0x100_0000_0000_0000,
        s.len() == 8 ==> le_value(s) < 0x1_0000_0000_0000_0000,
    decreases s.len(),
{
    if s.len() > 0 {
        lemma_le_value_bound(s.drop_first());
    }
}

/// Reads the record count out of the first `HEADER_LEN` bytes of `file`.
pub fn read_record_count(file: &[u8]) -> (count: u64)
    requires
        file@.len() >= HEADER_LEN,
    ensures
        count == header_count(file@),
{
    let ghost header = file@.take(HEADER_LEN as int);
    let mut count: u64 = 0;
    let mut i: usize = HEADER_LEN;
    while i > 0
        invariant
            i <= HEADER_LEN,
            file@.len() >= HEADER_LEN,
            header == file@.take(HEADER_LEN as int),
            count == le_value(header.skip(i as int)),
        decreases i,
    {
        i = i - 1;
        proof {
            let tail = header.skip(i as int);
            assert(tail.drop_first() == header.skip(i as int + 1));
            assert(tail[0] == file@[i as int]);
            lemma_le_value_bound(tail.drop_first());
            lemma_le_value_bound(tail);
        }
        count = count * 256 + file[i] as u64;
    }
    proof {
        assert(header.skip(0) == header);
    }
    count
}

/// Splits the contents of a stream file into the decoder-ready buffer and the
/// record count.
///
/// The file must hold the whole header; everything after it is payload, of
/// any length, and is followed in the result by `PADDING` zero bytes.
pub fn load_stream(file: &[u8]) -> (loaded: Result<(Vec<u8>, u64), LoadError>)
    ensures
        match loaded {
            Ok((bytes, count)) => {
                &&& file@.len() >= HEADER_LEN
                &&& bytes@ == padded_payload(file@)
                &&& bytes@.len() == file@.len() - HEADER_LEN + PADDING
                &&& count == header_count(file@)
            },
            Err(e) => file@.len() < HEADER_LEN && e == LoadError::TruncatedHeader,
        },
{
    if file.len() < HEADER_LEN {
        return Err(LoadError::TruncatedHeader);
    }
    let count = read_record_count(file);
    let mut bytes: Vec<u8> = Vec::new();
    let mut i: usize = HEADER_LEN;
    while i < file.len()
        invariant
            HEADER_LEN <= i <= file@.len(),
            bytes@ == file@.subrange(HEADER_LEN as int, i as int),
        decreases file@.len() - i,
    {
        bytes.push(file[i]);
        i = i + 1;
    }
    let mut k: usize = 0;
    while k < PADDING
        invariant
            k <= PADDING,
            bytes@ == file@.skip(HEADER_LEN as int) + zeros(k as nat),
        decreases PADDING - k,
    {
        bytes.push(0u8);
        k = k + 1;
    }
    Ok((bytes, count))
}

} // verus!
