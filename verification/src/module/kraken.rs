//! Kraken decompression: the buffer that the decompressor is given, and
//! what is made of its answer. The decompressor itself is foreign code and
//! is called by the program that uses this crate.
use crate::common::errors::{DecompressionError, Error, Result};
use vstd::prelude::*;

verus! {

/// The number of bytes by which the decompressor's buffer exceeds the
/// output that is expected, so that the decompressor's wide writes stay
/// inside the buffer.
pub const SCRATCH_PADDING: usize = 8;

/// The buffer that the decompressor is given to decompress `size` bytes
/// into: `size` bytes and the padding, all zero.
pub fn scratch_buffer(size: usize) -> (r: Vec<u8>)
    requires
        size + SCRATCH_PADDING <= usize::MAX,
    ensures
        r@.len() == size + SCRATCH_PADDING,
        forall|i: int| 0 <= i < r@.len() ==> r@[i] == 0,
{
    vec![0u8; size + SCRATCH_PADDING]
}

/// What a run of the decompressor amounts to, given its return code
/// `result` and the buffer that it wrote into: the first `result` bytes of
/// the buffer, or the error.
pub open spec fn decompressed(result: i32, buffer: Seq<u8>) -> Result<Seq<u8>> {
    if result < 0 {
        Err(Error::DecompressionError(DecompressionError::DecompressionFailed(result)))
    } else if result > buffer.len() {
        Err(Error::DecompressionError(DecompressionError::BufferSizeOverflow))
    } else {
        Ok(buffer.take(result as int))
    }
}

/// Takes the answer of the decompressor: its return code `result` and the
/// buffer that it wrote into.
///
/// A negative code is the decompressor's error. A code above the size of
/// the buffer is an overflow. Otherwise the code is the number of bytes
/// that were decompressed: `output_buffer` becomes the buffer cut to that
/// size, and the code is returned. An error leaves `output_buffer` as it
/// was.
pub fn decompress(result: i32, buffer: Vec<u8>, output_buffer: &mut Vec<u8>) -> (r: Result<i32>)
    ensures
        match decompressed(result, buffer@) {
            Ok(bytes) => r == Ok::<i32, Error>(result) && final(output_buffer)@ == bytes,
            Err(e) => r == Err::<i32, Error>(e) && final(output_buffer)@ == old(output_buffer)@,
        },
{
    if result < 0 {
        return Err(Error::DecompressionError(DecompressionError::DecompressionFailed(result)));
    }
    let result_usize: usize = result as usize;
    if result_usize > buffer.len() {
        return Err(Error::DecompressionError(DecompressionError::BufferSizeOverflow));
    }
    let mut buffer: Vec<u8> = buffer;
    buffer.truncate(result_usize);
    *output_buffer = buffer;
    Ok(result)
}

} // verus!
