//! The byte transforms that archives are packed with.
//!
//! Compression and the encoding of byte strings are the work of other
//! crates. What a Snappy stream returns is not spelled out here: each result
//! has a name, and the functions below say only that they return what the
//! name stands for. Of what a brotli stream returns nothing is said at all.
//! The encoding of a byte string is simple enough to be written down.

use vstd::prelude::*;

verus! {

/// What a `snap::read::FrameDecoder` yields when it is read to its end over
/// `input`; `None` where `input` is not a stream of Snappy frames.
pub uninterp spec fn snap_read(input: Seq<u8>) -> Option<Seq<u8>>;

/// What a `snap::write::FrameEncoder` has written once `input` was written
/// to it and it was closed; `None` where writing fails.
pub uninterp spec fn snap_written(input: Seq<u8>) -> Option<Seq<u8>>;

/// The number that eight bytes stand for, the least significant byte first.
pub open spec fn le_u64(bytes: Seq<u8>) -> int {
    bytes[0] + bytes[1] * 0x100 + bytes[2] * 0x1_0000 + bytes[3] * 0x100_0000 + bytes[4]
        * 0x1_0000_0000 + bytes[5] * 0x100_0000_0000 + bytes[6] * 0x1_0000_0000_0000 + bytes[7]
        * 0x100_0000_0000_0000
}

/// The byte string that `bincode` decodes from the beginning of `input`:
/// eight bytes give its length, the least significant byte first, and the
/// bytes that follow them are its contents. What comes after the contents
/// is not looked at. `None` where `input` is shorter than that.
pub open spec fn bincode_bytes(input: Seq<u8>) -> Option<Seq<u8>> {
    if input.len() < 8 {
        None
    } else {
        let len = le_u64(input.subrange(0, 8));
        if 8 + len > input.len() {
            None
        } else {
            Some(input.subrange(8, 8 + len))
        }
    }
}

/// The greatest buffer size that can be asked of the brotli streams: a
/// buffer cannot be larger than half the address space.
pub open spec fn max_buf_size() -> usize {
    usize::MAX / 2
}

/// Reads a `brotli::CompressorReader` over `bytes` to its end; `None` where
/// the stream reports an error. Nothing is claimed of the bytes that come
/// out: the encoder weighs its choices with floating-point logarithms, whose
/// last digits are not the same on every machine. The buffer is allocated up
/// front, which is why its size is bounded.
#[verifier::external_body]
pub(crate) fn brotli_reader(bytes: &[u8], buf_size: usize, quality: u32, window_size: u32) -> (out: Option<
    Vec<u8>,
>)
    requires
        buf_size <= max_buf_size(),
{
    let mut out = Vec::new();
    let mut reader = brotli::CompressorReader::new(bytes, buf_size, quality, window_size);
    match std::io::Read::read_to_end(&mut reader, &mut out) {
        Ok(_) => Some(out),
        Err(_) => None,
    }
}

/// Writes `bytes` to a `brotli::CompressorWriter` and closes it; `None` where
/// the stream reports an error. Nothing is claimed of the bytes that come
/// out, for the same reason as in `brotli_reader`.
#[verifier::external_body]
pub(crate) fn brotli_writer(bytes: &[u8], buf_size: usize, quality: u32, window_size: u32) -> (out: Option<
    Vec<u8>,
>)
    requires
        buf_size <= max_buf_size(),
{
    let mut writer = brotli::CompressorWriter::new(Vec::new(), buf_size, quality, window_size);
    match std::io::Write::write_all(&mut writer, bytes) {
        Ok(()) => Some(writer.into_inner()),
        Err(_) => None,
    }
}

/// Reads a `snap::read::FrameDecoder` over `bytes` to its end. The result is
/// `snap_read` of the argument, of which nothing more is claimed.
#[verifier::external_body]
pub(crate) fn snap_reader(bytes: &[u8]) -> (out: Option<Vec<u8>>)
    ensures
        match out {
            Some(read) => snap_read(bytes@) == Some(read@),
            None => snap_read(bytes@) is None,
        },
{
    let mut out = Vec::new();
    let mut reader = snap::read::FrameDecoder::new(bytes);
    match std::io::Read::read_to_end(&mut reader, &mut out) {
        Ok(_) => Some(out),
        Err(_) => None,
    }
}

/// Writes `bytes` to a `snap::write::FrameEncoder` and closes it. The result
/// is `snap_written` of the argument, of which nothing more is claimed.
#[verifier::external_body]
pub(crate) fn snap_writer(bytes: &[u8]) -> (out: Option<Vec<u8>>)
    ensures
        match out {
            Some(written) => snap_written(bytes@) == Some(written@),
            None => snap_written(bytes@) is None,
        },
{
    let mut writer = snap::write::FrameEncoder::new(Vec::new());
    match std::io::Write::write_all(&mut writer, bytes) {
        Ok(()) => writer.into_inner().ok(),
        Err(_) => None,
    }
}

/// Decodes a byte string with `bincode::deserialize_from`, which reads
/// integers of fixed width with the least significant byte first, sets no
/// limit and allows bytes to follow the value: a length of eight bytes comes
/// first, then as many bytes as it says. Decoding fails where fewer bytes
/// are there.
#[verifier::external_body]
pub(crate) fn bincode_reader(bytes: &[u8]) -> (out: Option<Vec<u8>>)
    ensures
        match out {
            Some(decoded) => bincode_bytes(bytes@) == Some(decoded@),
            None => bincode_bytes(bytes@) is None,
        },
{
    bincode::deserialize_from::<&[u8], Vec<u8>>(bytes).ok()
}

} // verus!
