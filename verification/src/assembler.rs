//! The coordinator's reading of a result: from a result record and its
//! payload to the pixels of the tile.
//!
//! The record says where in the payload the identification echo and the
//! pixel stream lie. A result is taken only if the echo is the identification
//! that went out with the task and the stream holds one pixel for every pixel
//! of the tile.

use crate::message::{FragmentResult, PixelIntensity};
use crate::pixels::{
    lemma_pixels_round_trip, parsed_pixels, pixel_stream, transform_data_to_vec_pixel_intensity,
};
use crate::message::FragmentTask;
use vstd::prelude::*;
use vstd::slice::slice_to_vec;

verus! {

/// Why a result was not taken.
#[derive(Debug, Clone, Copy, PartialEq, Eq, Structural)]
pub enum AssemblyError {
    /// The payload ends before the identification echo or the pixel stream
    /// does.
    Truncated,
    /// The echo is not the identification that went out with the task.
    IdentificationMismatch,
    /// The record does not announce one pixel per pixel of the tile.
    PixelCountMismatch,
}

/// The bytes of the payload where the record says the identification echo
/// lies.
pub open spec fn echoed_identification(result: FragmentResult, payload: Seq<u8>) -> Seq<u8>
    recommends
        result.id.offset + result.id.count <= payload.len(),
{
    payload.subrange(result.id.offset as int, result.id.offset + result.id.count)
}

/// The bytes of the payload where the record says the pixel stream lies.
pub open spec fn announced_stream(result: FragmentResult, payload: Seq<u8>) -> Seq<u8>
    recommends
        result.pixels.offset + 8 * result.pixels.count <= payload.len(),
{
    payload.subrange(result.pixels.offset as int, result.pixels.offset + 8 * result.pixels.count)
}

/// The pixels of a result, or why it is not taken. The checks are made in
/// this order: the echo lies within the payload; it equals `identification`;
/// the record announces `nx * ny` pixels; the stream lies within the payload.
pub open spec fn assembled(
    result: FragmentResult,
    payload: Seq<u8>,
    identification: Seq<u8>,
) -> Result<Seq<PixelIntensity>, AssemblyError> {
    if result.id.offset + result.id.count > payload.len() {
        Err(AssemblyError::Truncated)
    } else if echoed_identification(result, payload) != identification {
        Err(AssemblyError::IdentificationMismatch)
    } else if result.pixels.count != result.resolution.num_pixels() {
        Err(AssemblyError::PixelCountMismatch)
    } else if result.pixels.offset + 8 * result.pixels.count > payload.len() {
        Err(AssemblyError::Truncated)
    } else {
        Ok(parsed_pixels(announced_stream(result, payload)))
    }
}

/// Reads the pixels of `result` out of `payload`, or says why the result is
/// not taken.
pub fn assemble(result: &FragmentResult, payload: &[u8], identification: &[u8]) -> (r: Result<
    Vec<PixelIntensity>,
    AssemblyError,
>)
    ensures
        match assembled(*result, payload@, identification@) {
            Ok(pixels) => r matches Ok(found) && found@ == pixels,
            Err(e) => r == Err::<Vec<PixelIntensity>, AssemblyError>(e),
        },
{
    let len: u64 = payload.len() as u64;
    let id_start: u64 = result.id.offset as u64;
    let id_end: u64 = id_start + result.id.count as u64;
    if id_end > len {
        return Err(AssemblyError::Truncated);
    }
    if !same_bytes(&payload[id_start as usize..id_end as usize], identification) {
        return Err(AssemblyError::IdentificationMismatch);
    }
    if result.pixels.count != result.resolution.pixel_count() {
        return Err(AssemblyError::PixelCountMismatch);
    }
    let stream_start: u64 = result.pixels.offset as u64;
    let stream_end: u64 = stream_start + 8 * (result.pixels.count as u64);
    if stream_end > len {
        return Err(AssemblyError::Truncated);
    }
    let stream = slice_to_vec(&payload[stream_start as usize..stream_end as usize]);
    Ok(transform_data_to_vec_pixel_intensity(stream))
}

/// Whether two byte strings are equal.
fn same_bytes(a: &[u8], b: &[u8]) -> (same: bool)
    ensures
        same == (a@ == b@),
{
    if a.len() != b.len() {
        return false;
    }
    let mut i: usize = 0;
    while i < a.len()
        invariant
            i <= a@.len(),
            a@.len() == b@.len(),
            a@.subrange(0, i as int) == b@.subrange(0, i as int),
        decreases a@.len() - i,
    {
        if a[i] != b[i] {
            assert(a@[i as int] != b@[i as int]);
            return false;
        }
        i += 1;
        assert(a@.subrange(0, i as int) =~= a@.subrange(0, i - 1).push(a@[i - 1]));
        assert(b@.subrange(0, i as int) =~= b@.subrange(0, i - 1).push(b@[i - 1]));
    }
    assert(a@ =~= a@.subrange(0, i as int));
    assert(b@ =~= b@.subrange(0, i as int));
    true
}

/// A worker's reply is taken, and read back as the pixels it was made of:
/// if the kernel gave one pixel per pixel of the tile and the task came with
/// as many identification bytes as it announces, then the record and payload
/// that the worker packs assemble to those pixels, and the payload starts
/// with the identification.
pub proof fn lemma_reply_is_taken(
    task: FragmentTask,
    identification: Seq<u8>,
    pixels: Seq<PixelIntensity>,
)
    requires
        pixels.len() == task.resolution.num_pixels(),
        identification.len() == task.id.count,
    ensures
        pixels.len() <= u32::MAX,
        (identification + pixel_stream(pixels)).subrange(0, identification.len() as int)
            == identification,
        assembled(
            task.result_record(pixels.len() as u32),
            identification + pixel_stream(pixels),
            identification,
        ) == Ok::<Seq<PixelIntensity>, AssemblyError>(pixels),
{
    assert(task.resolution.nx * task.resolution.ny <= 0xffff * 0xffff) by (nonlinear_arith)
        requires
            task.resolution.nx <= 0xffff,
            task.resolution.ny <= 0xffff,
    ;
    let result = task.result_record(pixels.len() as u32);
    let payload = identification + pixel_stream(pixels);
    lemma_pixels_round_trip(pixels);
    assert(payload.subrange(0, identification.len() as int) =~= identification);
    assert(echoed_identification(result, payload) =~= identification);
    assert(announced_stream(result, payload) =~= pixel_stream(pixels));
}

} // verus!
