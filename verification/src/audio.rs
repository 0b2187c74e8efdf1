//! The audio of a recording: captured samples are queued as bytes and handed
//! to the encoder in chunks of a fixed number of frames.

use std::collections::VecDeque;
use vstd::prelude::*;

verus! {

/// The frames per second of a recording.
pub const TARGET_FPS: u32 = 60;

/// The audio samples per second of a recording.
pub const AUDIO_SAMPLE_RATE: u32 = 48_000;

/// The audio channels of a recording.
pub const AUDIO_CHANNELS: u32 = 2;

/// The audio frames that are handed to the encoder at once.
pub const AUDIO_CHUNK_FRAMES: u32 = 2048;

/// The bytes of one chunk, for audio frames of `block_align` bytes.
pub fn chunk_bytes(block_align: u32) -> (bytes: u64)
    ensures
        bytes == block_align * AUDIO_CHUNK_FRAMES,
{
    let align: u64 = block_align as u64;
    assert(align * 2048 <= 0xFFFF_FFFF * 2048) by (nonlinear_arith)
        requires
            align <= 0xFFFF_FFFF,
    ;
    align * 2048
}

/// Whether the queue holds a whole chunk.
pub open spec fn has_chunk(queued: Seq<u8>, chunk_bytes: int) -> bool {
    0 < chunk_bytes <= queued.len()
}

/// Takes the next chunk off the front of the queue.
///
/// While the queue holds at least `chunk_bytes` bytes, its first
/// `chunk_bytes` bytes are taken off, in order. A shorter queue is left as it
/// is, and so is any queue where a chunk has no bytes.
pub fn take_chunk(queue: &mut VecDeque<u8>, chunk_bytes: usize) -> (chunk: Option<Vec<u8>>)
    ensures
        match chunk {
            Some(bytes) => {
                &&& has_chunk(old(queue)@, chunk_bytes as int)
                &&& bytes@ == old(queue)@.subrange(0, chunk_bytes as int)
                &&& final(queue)@ == old(queue)@.subrange(
                    chunk_bytes as int,
                    old(queue)@.len() as int,
                )
            },
            None => !has_chunk(old(queue)@, chunk_bytes as int) && final(queue)@ == old(queue)@,
        },
{
    if chunk_bytes == 0 || queue.len() < chunk_bytes {
        return None;
    }
    let mut bytes: Vec<u8> = Vec::new();
    let mut taken: usize = 0;
    assert(queue@ =~= old(queue)@.subrange(0, old(queue)@.len() as int));
    while taken < chunk_bytes
        invariant
            taken <= chunk_bytes <= old(queue)@.len(),
            bytes@ == old(queue)@.subrange(0, taken as int),
            queue@ == old(queue)@.subrange(taken as int, old(queue)@.len() as int),
        decreases chunk_bytes - taken,
    {
        let byte = queue.pop_front();
        match byte {
            Some(b) => {
                bytes.push(b);
            },
            None => {},
        }
        taken += 1;
        assert(bytes@ =~= old(queue)@.subrange(0, taken as int));
        assert(queue@ =~= old(queue)@.subrange(taken as int, old(queue)@.len() as int));
    }
    Some(bytes)
}

} // verus!
