//! The pixel stream: how a tile's intensities lie in a payload.
//!
//! Each pixel takes eight bytes: the binary32 pattern of `zn`, then that of
//! `count`, both big-endian. Pixels follow one another in row-major order
//! with nothing between them.

use crate::message::{FragmentTask, PixelIntensity};
use crate::bytes::{
    be32, be32_value, lemma_be32_of_be32_value, lemma_be32_value_of_be32, push_be32, read_be32,
};
use vstd::prelude::*;

verus! {

/// The number of bytes that one pixel takes in the stream.
pub const PIXEL_BYTES: usize = 8;

/// The eight bytes of one pixel.
pub open spec fn pixel_bytes(p: PixelIntensity) -> Seq<u8> {
    be32(p.zn) + be32(p.count)
}

/// The stream of `pixels`: byte `i` is byte `i % 8` of pixel `i / 8`.
pub open spec fn pixel_stream(pixels: Seq<PixelIntensity>) -> Seq<u8> {
    Seq::new(8 * pixels.len(), |i: int| pixel_bytes(pixels[i / 8])[i % 8])
}

/// The pixel that the eight bytes from `8 * k` on spell.
pub open spec fn pixel_at(data: Seq<u8>, k: int) -> PixelIntensity {
    PixelIntensity {
        zn: be32_value(data.subrange(8 * k, 8 * k + 4)) as u32,
        count: be32_value(data.subrange(8 * k + 4, 8 * k + 8)) as u32,
    }
}

/// The pixels that `data` spells, as many as it holds whole ones.
pub open spec fn parsed_pixels(data: Seq<u8>) -> Seq<PixelIntensity> {
    Seq::new((data.len() / 8) as nat, |k: int| pixel_at(data, k))
}

impl FragmentTask {
    /// Lays `vec_pixel_intensity` out as a pixel stream.
    pub fn transform_vec_pixel_intensity_to_vec_u8(
        &self,
        vec_pixel_intensity: Vec<PixelIntensity>,
    ) -> (stream: Vec<u8>)
        ensures
            stream@ == pixel_stream(vec_pixel_intensity@),
    {
        let mut stream: Vec<u8> = Vec::new();
        let mut k: usize = 0;
        while k < vec_pixel_intensity.len()
            invariant
                k <= vec_pixel_intensity@.len(),
                stream@ == pixel_stream(vec_pixel_intensity@.subrange(0, k as int)),
            decreases vec_pixel_intensity@.len() - k,
        {
            let pixel = vec_pixel_intensity[k];
            let ghost before = stream@;
            push_be32(&mut stream, pixel.zn);
            push_be32(&mut stream, pixel.count);
            proof {
                let done = vec_pixel_intensity@.subrange(0, k as int);
                let more = vec_pixel_intensity@.subrange(0, k + 1);
                assert(more =~= done.push(pixel));
                lemma_pixel_stream_push(done, pixel);
                assert(stream@ =~= before + pixel_bytes(pixel));
            }
            k += 1;
        }
        assert(vec_pixel_intensity@.subrange(0, k as int) =~= vec_pixel_intensity@);
        stream
    }
}

/// The binary32 pattern that the first four bytes spell, most significant
/// first.
pub fn transform_u8_to_f32(bytes: &[u8]) -> (bits: u32)
    requires
        bytes@.len() >= 4,
    ensures
        bits == be32_value(bytes@),
{
    assert(bytes@.subrange(0, 4)[0] == bytes@[0]);
    assert(bytes@.subrange(0, 4)[1] == bytes@[1]);
    assert(bytes@.subrange(0, 4)[2] == bytes@[2]);
    assert(bytes@.subrange(0, 4)[3] == bytes@[3]);
    read_be32(bytes, 0)
}

/// The pixel that eight bytes spell.
pub fn transform_chunk_data_to_pixel_intensity(chunk_data: &[u8]) -> (pixel: PixelIntensity)
    requires
        chunk_data@.len() == 8,
    ensures
        pixel == pixel_at(chunk_data@, 0),
{
    PixelIntensity { zn: read_be32(chunk_data, 0), count: read_be32(chunk_data, 4) }
}

/// Reads a pixel stream back into pixels.
pub fn transform_data_to_vec_pixel_intensity(data: Vec<u8>) -> (pixels: Vec<PixelIntensity>)
    requires
        data@.len() % 8 == 0,
    ensures
        pixels@ == parsed_pixels(data@),
{
    let mut pixels: Vec<PixelIntensity> = Vec::new();
    let mut at: usize = 0;
    while at < data.len()
        invariant
            at <= data@.len(),
            at % 8 == 0,
            data@.len() % 8 == 0,
            pixels@.len() == at / 8,
            forall|k: int| 0 <= k < pixels@.len() ==> pixels@[k] == pixel_at(data@, k),
        decreases data@.len() - at,
    {
        let chunk = &data.as_slice()[at..at + PIXEL_BYTES];
        let pixel = transform_chunk_data_to_pixel_intensity(chunk);
        proof {
            let k = at as int / 8;
            assert(chunk@.subrange(0, 4) =~= data@.subrange(8 * k, 8 * k + 4));
            assert(chunk@.subrange(4, 8) =~= data@.subrange(8 * k + 4, 8 * k + 8));
        }
        pixels.push(pixel);
        at += PIXEL_BYTES;
    }
    assert(pixels@ =~= parsed_pixels(data@));
    pixels
}

/// The stream grows by one pixel's bytes when a pixel is added.
pub proof fn lemma_pixel_stream_push(pixels: Seq<PixelIntensity>, p: PixelIntensity)
    ensures
        pixel_stream(pixels.push(p)) == pixel_stream(pixels) + pixel_bytes(p),
{
    assert(pixel_stream(pixels.push(p)) =~= pixel_stream(pixels) + pixel_bytes(p));
}

/// In the stream of `pixels`, the two words of pixel `k` start at byte
/// `8 * k` and spell its `zn` and its `count`, big-endian.
pub proof fn lemma_pixel_stream_words(pixels: Seq<PixelIntensity>, k: int)
    requires
        0 <= k < pixels.len(),
    ensures
        pixel_stream(pixels).subrange(8 * k, 8 * k + 4) == be32(pixels[k].zn),
        pixel_stream(pixels).subrange(8 * k + 4, 8 * k + 8) == be32(pixels[k].count),
        pixel_at(pixel_stream(pixels), k) == pixels[k],
{
    let stream = pixel_stream(pixels);
    assert(stream.subrange(8 * k, 8 * k + 4) =~= be32(pixels[k].zn));
    assert(stream.subrange(8 * k + 4, 8 * k + 8) =~= be32(pixels[k].count));
    lemma_be32_value_of_be32(pixels[k].zn);
    lemma_be32_value_of_be32(pixels[k].count);
}

/// Reading a pixel stream gives back the pixels it was made of.
pub proof fn lemma_pixels_round_trip(pixels: Seq<PixelIntensity>)
    ensures
        pixel_stream(pixels).len() == 8 * pixels.len(),
        parsed_pixels(pixel_stream(pixels)) == pixels,
{
    let back = parsed_pixels(pixel_stream(pixels));
    assert(back.len() == pixels.len());
    assert forall|k: int| 0 <= k < pixels.len() implies back[k] == pixels[k] by {
        lemma_pixel_stream_words(pixels, k);
    }
    assert(back =~= pixels);
}

/// Bytes that are a whole number of pixels are the stream of the pixels they
/// spell: no two streams read the same.
pub proof fn lemma_stream_of_parsed(data: Seq<u8>)
    requires
        data.len() % 8 == 0,
    ensures
        pixel_stream(parsed_pixels(data)) == data,
{
    let pixels = parsed_pixels(data);
    let stream = pixel_stream(pixels);
    assert(stream.len() == data.len());
    assert forall|i: int| 0 <= i < data.len() implies stream[i] == data[i] by {
        let k = i / 8;
        let zn_bytes = data.subrange(8 * k, 8 * k + 4);
        let count_bytes = data.subrange(8 * k + 4, 8 * k + 8);
        lemma_be32_of_be32_value(zn_bytes);
        lemma_be32_of_be32_value(count_bytes);
        assert(pixel_bytes(pixels[k]) =~= zn_bytes + count_bytes);
    }
    assert(stream =~= data);
}

} // verus!
