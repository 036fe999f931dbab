//! LZ4 frame compression, through the `lz4_flex` crate.
use vstd::prelude::*;

use crate::error::{error_of_io_kind, Error, ErrorType};
use std::io::Read;
use std::io::Write;

verus! {

/// What `lz4_flex`'s `FrameDecoder` reads to the end from the bytes: the
/// data, or `None` where the bytes are no valid frame.
pub uninterp spec fn lz4_unframe(bytes: Seq<u8>) -> Option<Seq<u8>>;

/// Why a compression failed.
pub enum Lz4Failure {
    /// Writing the data into the encoder failed.
    Write(std::io::Error),
    /// Finishing the frame failed; the text of the encoder's error.
    Finish(String),
}

/// Compresses with `lz4_flex::frame::FrameEncoder::new` over a new
/// vector, `write_all` and `finish`. With the default frame settings and
/// a vector to write into, nothing in the encoder fails, so it succeeds;
/// decoding the frame it gives back gives back the data (the frame format
/// is lossless). Which bytes the frame holds is left unsaid: the encoder's
/// hash depends on the machine's pointer width.
#[verifier::external_body]
fn frame_compress(data: &[u8]) -> (r: Result<Vec<u8>, Lz4Failure>)
    ensures
        r is Ok,
        r matches Ok(v) ==> lz4_unframe(v@) == Some(data@),
{
    let mut encoder = lz4_flex::frame::FrameEncoder::new(Vec::new());
    match encoder.write_all(data) {
        Ok(()) => {},
        Err(e) => return Err(Lz4Failure::Write(e)),
    }
    encoder.finish().map_err(|e| Lz4Failure::Finish(e.to_string()))
}

/// Decompresses with `lz4_flex::frame::FrameDecoder::new` over the bytes
/// and `read_to_end`. It succeeds exactly when the bytes decode, and then
/// gives back what `lz4_unframe` names.
#[verifier::external_body]
fn frame_decompress(bytes: &[u8]) -> (r: Result<Vec<u8>, std::io::Error>)
    ensures
        match r {
            Ok(v) => lz4_unframe(bytes@) == Some(v@),
            Err(_) => lz4_unframe(bytes@) is None,
        },
{
    let mut decoder = lz4_flex::frame::FrameDecoder::new(bytes);
    let mut out = Vec::new();
    decoder.read_to_end(&mut out).map(|_| out)
}

/// LZ4 frame compression.
pub struct Lz4;

impl Lz4 {
    /// The data as an LZ4 frame, which always succeeds: decoding the frame
    /// gives back the data.
    pub fn compress(data: &[u8]) -> (r: Result<Vec<u8>, Error>)
        ensures
            r is Ok,
            r matches Ok(v) ==> lz4_unframe(v@) == Some(data@),
    {
        match frame_compress(data) {
            Ok(v) => Ok(v),
            Err(Lz4Failure::Write(e)) => Err(Error::from_io_error(e)),
            Err(Lz4Failure::Finish(m)) => Err(Error::parse_error(m.as_str())),
        }
    }

    /// The data of an LZ4 frame; bytes that are no frame give an error of
    /// the kind of the decoder's I/O error.
    pub fn decompress(compressed_data: &[u8]) -> (r: Result<Vec<u8>, Error>)
        ensures
            match r {
                Ok(v) => lz4_unframe(compressed_data@) == Some(v@),
                Err(e) => lz4_unframe(compressed_data@) is None && exists|name: Seq<char>|
                    e.error_type == error_of_io_kind(name),
            },
    {
        match frame_decompress(compressed_data) {
            Ok(v) => Ok(v),
            Err(e) => Err(Error::from_io_error(e)),
        }
    }
}

} // verus!
