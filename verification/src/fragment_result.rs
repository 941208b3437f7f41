//! The worker's reply to a task: the result record and the payload that goes
//! with it.
//!
//! The payload is the identification bytes that came with the task, followed
//! by the pixel stream.

use crate::bytes::append;
use crate::message::{FragmentResult, FragmentTask, PixelData, PixelIntensity, U8Data};
use crate::pixels::pixel_stream;
use vstd::prelude::*;

verus! {

impl PixelData {
    /// A stream of `pixels` pixels that starts at `offset`, or at the start
    /// of the payload if no offset is given.
    pub fn create_pixel_data(pixels: u32, offset: Option<u32>) -> (data: PixelData)
        ensures
            data.count == pixels,
            data.offset == match offset {
                Some(at) => at,
                None => 0,
            },
    {
        PixelData {
            offset: match offset {
                Some(at) => at,
                None => 0,
            },
            count: pixels,
        }
    }
}

impl FragmentResult {
    /// This result with its pixel stream moved to `offset`. The receiver is
    /// left as it was.
    pub fn update_offset(&mut self, offset: u32) -> (moved: FragmentResult)
        ensures
            *final(self) == *old(self),
            moved == (FragmentResult {
                pixels: PixelData { offset, count: old(self).pixels.count },
                ..*old(self)
            }),
    {
        FragmentResult {
            id: self.id,
            resolution: self.resolution,
            range: self.range,
            pixels: PixelData { offset, count: self.pixels.count },
        }
    }
}

impl FragmentTask {
    /// The result record of a reply with `pixel_count` pixels: resolution and
    /// range are echoed, the identification is said to lie at the start of
    /// the payload and the pixel stream right behind it.
    pub open spec fn result_record(&self, pixel_count: u32) -> FragmentResult {
        FragmentResult {
            id: U8Data { offset: 0, count: self.id.count },
            resolution: self.resolution,
            range: self.range,
            pixels: PixelData { offset: self.id.count, count: pixel_count },
        }
    }

    /// Packs what the kernel computed as a reply: the result record, and the
    /// payload made of `data_id` followed by the stream of `pixels`.
    ///
    /// `data_id` is the payload that came with the task; `pixels` is what the
    /// kernel named by `self.fractal` computed for `self.range` at
    /// `self.resolution`, in row-major order.
    pub fn calculate_fractal(&self, data_id: Vec<u8>, pixels: Vec<PixelIntensity>) -> (reply: (
        FragmentResult,
        Vec<u8>,
    ))
        requires
            pixels@.len() <= u32::MAX,
        ensures
            reply.0 == self.result_record(pixels@.len() as u32),
            reply.1@ == data_id@ + pixel_stream(pixels@),
    {
        let pixel_count: u32 = pixels.len() as u32;
        let stream = self.transform_vec_pixel_intensity_to_vec_u8(pixels);
        let mut payload: Vec<u8> = Vec::new();
        append(&mut payload, as_bytes(data_id.as_slice()));
        append(&mut payload, as_bytes(stream.as_slice()));
        (
            FragmentResult {
                id: U8Data { offset: 0, count: self.id.count },
                resolution: self.resolution,
                range: self.range,
                pixels: PixelData::create_pixel_data(pixel_count, Some(self.id.count)),
            },
            payload,
        )
    }
}

/// Whether `result` is a record that answers `task`: resolution and range
/// are echoed, the identification echo is as long as the task's
/// identification and leads the payload, and the pixel stream follows it at
/// once with one pixel for every pixel of the tile.
pub open spec fn answers(result: FragmentResult, task: FragmentTask) -> bool {
    &&& result.resolution == task.resolution
    &&& result.range == task.range
    &&& result.id == (U8Data { offset: 0, count: task.id.count })
    &&& result.pixels.offset == result.id.offset + result.id.count
    &&& result.pixels.count == task.resolution.num_pixels()
}

/// The record that a worker packs answers the task whenever the kernel gave
/// one pixel for every pixel of the tile.
pub proof fn lemma_record_answers_task(task: FragmentTask, pixel_count: u32)
    requires
        pixel_count == task.resolution.num_pixels(),
    ensures
        answers(task.result_record(pixel_count), task),
{
}

/// `image::EncodableLayout::as_bytes` on a byte slice: the bytes of a slice
/// of bytes are that slice.
#[verifier::external_body]
fn as_bytes(bytes: &[u8]) -> (same: &[u8])
    ensures
        same@ == bytes@,
{
    image::EncodableLayout::as_bytes(bytes)
}

} // verus!
