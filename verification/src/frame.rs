//! The frame around every message on the wire.
//!
//! ```text
//! total_size (4 bytes) | json_size (4 bytes) | JSON text | payload
//! ```
//!
//! Both sizes are big-endian. `total_size` counts the JSON text and the
//! payload, not the eight bytes of the two sizes themselves. The payload is
//! opaque here: it is carried, never read.

use crate::bytes::{append, be32, be32_value, lemma_be32_value_of_be32, push_be32, read_be32};
use vstd::prelude::*;
use vstd::slice::slice_to_vec;
use vstd::string::StringSliceAdditionalSpecFns;
use vstd::utf8::valid_utf8;

verus! {

/// Why a frame could not be written or read.
#[derive(Debug, Clone, Copy, PartialEq, Eq, Structural)]
pub enum FrameError {
    /// JSON text and payload together are longer than a 32-bit size can say.
    TooLarge,
    /// The bytes end before the header, or before the end that the header
    /// announces.
    Truncated,
    /// The header's `json_size` is larger than its `total_size`.
    SizeMismatch,
    /// The JSON segment is not UTF-8.
    NotUtf8,
}

/// The number of bytes of the two sizes that lead a frame.
pub const HEADER_LEN: usize = 8;

/// The two sizes that lead a frame.
#[derive(Debug, Clone, Copy, PartialEq, Eq, Structural)]
pub struct FrameHeader {
    pub total_size: u32,
    pub json_size: u32,
}

impl FrameHeader {
    /// The JSON text is part of the total.
    pub open spec fn wf(&self) -> bool {
        self.json_size <= self.total_size
    }

    /// The header that the first eight bytes of `bytes` spell, with the error
    /// that reading it gives.
    pub open spec fn parsed(bytes: Seq<u8>) -> Result<FrameHeader, FrameError> {
        if bytes.len() < 8 {
            Err(FrameError::Truncated)
        } else {
            let header = FrameHeader {
                total_size: be32_value(bytes.subrange(0, 4)) as u32,
                json_size: be32_value(bytes.subrange(4, 8)) as u32,
            };
            if header.wf() {
                Ok(header)
            } else {
                Err(FrameError::SizeMismatch)
            }
        }
    }

    /// The header of a frame whose JSON text is `json_len` bytes long and
    /// whose payload is `payload_len` bytes long.
    ///
    /// Fails only when the two together are too long for a 32-bit size.
    pub fn for_lengths(json_len: usize, payload_len: usize) -> (r: Result<FrameHeader, FrameError>)
        ensures
            json_len + payload_len <= u32::MAX ==> r == Ok::<FrameHeader, FrameError>(
                FrameHeader {
                    total_size: (json_len + payload_len) as u32,
                    json_size: json_len as u32,
                },
            ),
            json_len + payload_len > u32::MAX ==> r == Err::<FrameHeader, FrameError>(
                FrameError::TooLarge,
            ),
    {
        if json_len > 0xffff_ffff {
            return Err(FrameError::TooLarge);
        }
        let json_size: u32 = json_len as u32;
        if payload_len > (0xffff_ffff - json_size) as usize {
            return Err(FrameError::TooLarge);
        }
        Ok(FrameHeader { total_size: json_size + payload_len as u32, json_size })
    }

    /// Reads the header at the start of `bytes`.
    pub fn parse(bytes: &[u8]) -> (r: Result<FrameHeader, FrameError>)
        ensures
            r == Self::parsed(bytes@),
    {
        if bytes.len() < HEADER_LEN {
            return Err(FrameError::Truncated);
        }
        let total_size = read_be32(bytes, 0);
        let json_size = read_be32(bytes, 4);
        if json_size > total_size {
            return Err(FrameError::SizeMismatch);
        }
        Ok(FrameHeader { total_size, json_size })
    }

    /// The number of payload bytes that follow the JSON text.
    pub fn payload_size(&self) -> (n: u32)
        requires
            self.wf(),
        ensures
            n == self.total_size - self.json_size,
    {
        self.total_size - self.json_size
    }
}

/// The bytes that an optional payload stands for: none at all when it is
/// absent.
pub open spec fn payload_bytes(data: Option<Vec<u8>>) -> Seq<u8> {
    match data {
        Some(d) => d@,
        None => Seq::empty(),
    }
}

/// The frame that carries `json` and `payload`.
pub open spec fn frame_bytes(json: Seq<u8>, payload: Seq<u8>) -> Seq<u8> {
    be32((json.len() + payload.len()) as u32) + be32(json.len() as u32) + json + payload
}

/// The JSON text and the payload of the frame at the start of `bytes`, with
/// the error that reading it gives. Bytes after the frame are left alone.
pub open spec fn parse_frame(bytes: Seq<u8>) -> Result<(Seq<u8>, Seq<u8>), FrameError> {
    match FrameHeader::parsed(bytes) {
        Err(e) => Err(e),
        Ok(header) => {
            if bytes.len() < 8 + header.total_size {
                Err(FrameError::Truncated)
            } else {
                Ok(
                    (
                        bytes.subrange(8, 8 + header.json_size),
                        bytes.subrange(8 + header.json_size, 8 + header.total_size),
                    ),
                )
            }
        },
    }
}

/// Frames `json` and the payload, if there is one, as a single buffer.
///
/// Fails only when the two together are too long for the header.
pub fn encode_frame(json: &[u8], data: &Option<Vec<u8>>) -> (r: Result<Vec<u8>, FrameError>)
    ensures
        json@.len() + payload_bytes(*data).len() <= u32::MAX ==> (r matches Ok(frame) && frame@
            == frame_bytes(json@, payload_bytes(*data))),
        json@.len() + payload_bytes(*data).len() > u32::MAX ==> r == Err::<Vec<u8>, FrameError>(
            FrameError::TooLarge,
        ),
{
    let data_len: usize = match data {
        Some(d) => d.len(),
        None => 0,
    };
    let header = match FrameHeader::for_lengths(json.len(), data_len) {
        Ok(header) => header,
        Err(e) => {
            return Err(e);
        },
    };
    let mut frame: Vec<u8> = Vec::new();
    push_be32(&mut frame, header.total_size);
    push_be32(&mut frame, header.json_size);
    append(&mut frame, json);
    match data {
        Some(d) => {
            append(&mut frame, d.as_slice());
        },
        None => {},
    }
    assert(frame@ =~= frame_bytes(json@, payload_bytes(*data)));
    Ok(frame)
}

/// Splits the frame at the start of `bytes` into its JSON text and its
/// payload.
pub fn decode_frame(bytes: &[u8]) -> (r: Result<(Vec<u8>, Vec<u8>), FrameError>)
    ensures
        match parse_frame(bytes@) {
            Ok((json, payload)) => r matches Ok(parts) && parts.0@ == json && parts.1@ == payload,
            Err(e) => r == Err::<(Vec<u8>, Vec<u8>), FrameError>(e),
        },
{
    let header = match FrameHeader::parse(bytes) {
        Ok(header) => header,
        Err(e) => {
            return Err(e);
        },
    };
    let rest: usize = bytes.len() - HEADER_LEN;
    if rest < header.total_size as usize {
        return Err(FrameError::Truncated);
    }
    let json_end: usize = HEADER_LEN + header.json_size as usize;
    let frame_end: usize = HEADER_LEN + header.total_size as usize;
    let json = slice_to_vec(&bytes[HEADER_LEN..json_end]);
    let payload = slice_to_vec(&bytes[json_end..frame_end]);
    Ok((json, payload))
}

/// The JSON segment of a frame as text.
///
/// Fails with [`FrameError::NotUtf8`] exactly when the bytes are not UTF-8;
/// otherwise the text has the same bytes.
pub fn json_text(json: &[u8]) -> (r: Result<&str, FrameError>)
    ensures
        valid_utf8(json@) ==> (r matches Ok(text) && text.spec_bytes() == json@),
        !valid_utf8(json@) ==> r == Err::<&str, FrameError>(FrameError::NotUtf8),
{
    match utf8_str(json) {
        Some(text) => Ok(text),
        None => Err(FrameError::NotUtf8),
    }
}

/// `std::str::from_utf8`: the text that `bytes` encode, if they are valid
/// UTF-8; the text then has exactly those bytes. The error's position is
/// dropped.
#[verifier::external_body]
fn utf8_str(bytes: &[u8]) -> (r: Option<&str>)
    ensures
        r.is_some() == valid_utf8(bytes@),
        r matches Some(text) ==> text.spec_bytes() == bytes@,
{
    std::str::from_utf8(bytes).ok()
}

/// Reading a frame gives back what was framed, byte for byte, whatever
/// follows the frame.
pub proof fn lemma_frame_round_trip(json: Seq<u8>, payload: Seq<u8>, tail: Seq<u8>)
    requires
        json.len() + payload.len() <= u32::MAX,
    ensures
        parse_frame(frame_bytes(json, payload) + tail) == Ok::<(Seq<u8>, Seq<u8>), FrameError>(
            (json, payload),
        ),
{
    let total = (json.len() + payload.len()) as u32;
    let size = json.len() as u32;
    let bytes = frame_bytes(json, payload) + tail;
    lemma_be32_value_of_be32(total);
    lemma_be32_value_of_be32(size);
    assert(bytes.subrange(0, 4) =~= be32(total));
    assert(bytes.subrange(4, 8) =~= be32(size));
    assert(bytes.subrange(8, 8 + size) =~= json);
    assert(bytes.subrange(8 + size, 8 + total) =~= payload);
}

/// The header of a frame says how long its parts are: the first word is the
/// length of JSON text and payload together, the second the length of the
/// JSON text, and the frame is eight bytes longer than the first word says.
pub proof fn lemma_frame_accounting(json: Seq<u8>, payload: Seq<u8>)
    requires
        json.len() + payload.len() <= u32::MAX,
    ensures
        frame_bytes(json, payload).len() == 8 + json.len() + payload.len(),
        be32_value(frame_bytes(json, payload).subrange(0, 4)) == json.len() + payload.len(),
        be32_value(frame_bytes(json, payload).subrange(4, 8)) == json.len(),
        FrameHeader::parsed(frame_bytes(json, payload)) == Ok::<FrameHeader, FrameError>(
            FrameHeader {
                total_size: (json.len() + payload.len()) as u32,
                json_size: json.len() as u32,
            },
        ),
{
    let total = (json.len() + payload.len()) as u32;
    let size = json.len() as u32;
    let bytes = frame_bytes(json, payload);
    lemma_be32_value_of_be32(total);
    lemma_be32_value_of_be32(size);
    assert(bytes.subrange(0, 4) =~= be32(total));
    assert(bytes.subrange(4, 8) =~= be32(size));
}

} // verus!
