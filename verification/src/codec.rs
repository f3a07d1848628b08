//! Taking one layer off in memory: the single-stream compressors and Base64.

use vstd::prelude::*;
use std::io::Read;
use crate::error::{Base64Flaw, UnwrapError, UnwrapErrorView};
use crate::format::WrappedFormat;

verus! {

/// What a decoder produced from a stream.
#[derive(Clone, Debug, PartialEq, Eq)]
pub struct Decoded {
    /// The decoded bytes: all of them where `flaw` is `None`, else those that came out before
    /// the decoder gave up. They are kept either way.
    pub data: Vec<u8>,
    /// Why the decoder gave up, in its own words, if it did.
    pub flaw: Option<String>,
}

impl Decoded {
    /// `self` is what a decoder hands back for a stream that decodes to `whole`, or, where
    /// `whole` is `None`, for a stream that it cannot decode to the end.
    pub open spec fn renders(self, whole: Option<Seq<u8>>) -> bool {
        match self.flaw {
            None => whole == Some(self.data@),
            Some(_) => whole is None,
        }
    }
}

/// The bytes that the gzip member at the start of `input` holds, if it can be decoded to its
/// end and its checksum holds.
pub uninterp spec fn gzip_decoded(input: Seq<u8>) -> Option<Seq<u8>>;

/// The bytes that the bzip2 stream at the start of `input` holds, if it can be decoded to its
/// end.
pub uninterp spec fn bzip2_decoded(input: Seq<u8>) -> Option<Seq<u8>>;

/// The bytes that the xz stream at the start of `input` holds, or the stream of the older lzma
/// format, if it can be decoded to its end.
pub uninterp spec fn xz_decoded(input: Seq<u8>) -> Option<Seq<u8>>;

/// The bytes that the Base64 text `text` stands for in the standard alphabet, with or without
/// padding at its end, or what is wrong with the text.
pub uninterp spec fn base64_decoded(text: Seq<char>) -> Result<Seq<u8>, Base64Flaw>;

/// Reads `flate2::read::GzDecoder` over `input` to its end. The decoder takes the first gzip
/// member and stops there; it fails on a bad header, a malformed deflate stream, or a checksum
/// or length that does not match. The claim: the output with no error is the decoded member.
#[verifier::external_body]
fn gzip_decode(input: &[u8]) -> (decoded: Decoded)
    ensures
        decoded.renders(gzip_decoded(input@)),
{
    let mut data = Vec::new();
    match flate2::read::GzDecoder::new(input).read_to_end(&mut data) {
        Ok(_) => Decoded { data, flaw: None },
        Err(e) => Decoded { data, flaw: Some(e.to_string()) },
    }
}

/// Reads `bzip2::read::BzDecoder` over `input` to its end. The decoder takes the first bzip2
/// stream and stops there; it fails on malformed data and on input that ends too early. The
/// claim: the output with no error is the decoded stream.
#[verifier::external_body]
fn bzip2_decode(input: &[u8]) -> (decoded: Decoded)
    ensures
        decoded.renders(bzip2_decoded(input@)),
{
    let mut data = Vec::new();
    match bzip2::read::BzDecoder::new(input).read_to_end(&mut data) {
        Ok(_) => Decoded { data, flaw: None },
        Err(e) => Decoded { data, flaw: Some(e.to_string()) },
    }
}

/// Makes `lzma::LzmaReader::new_decompressor` over `input` and reads it to its end. The reader
/// hands the bytes to liblzma, which tells an xz stream from one of the older lzma format and
/// decodes one stream without a memory limit; it fails where the decoder cannot be set up, on
/// bytes of neither format, and on corrupt or truncated data. The claim: the output with no
/// error is the decoded stream.
#[verifier::external_body]
fn xz_decode(input: &[u8]) -> (decoded: Decoded)
    ensures
        decoded.renders(xz_decoded(input@)),
{
    let mut data = Vec::new();
    match lzma::LzmaReader::new_decompressor(input) {
        Ok(mut reader) => match reader.read_to_end(&mut data) {
            Ok(_) => Decoded { data, flaw: None },
            Err(e) => Decoded { data, flaw: Some(e.to_string()) },
        },
        Err(e) => Decoded { data, flaw: Some(e.to_string()) },
    }
}

/// Calls `base64::decode`, which decodes with the standard alphabet, takes padding at the end
/// without asking for it, and refuses a last symbol with bits left over. The claim: the bytes
/// or the error are those of the text, always the same for the same text.
#[verifier::external_body]
fn base64_decode(text: &str) -> (r: Result<Vec<u8>, Base64Flaw>)
    ensures
        match r {
            Ok(bytes) => base64_decoded(text@) == Ok::<Seq<u8>, Base64Flaw>(bytes@),
            Err(flaw) => base64_decoded(text@) == Err::<Seq<u8>, Base64Flaw>(flaw),
        },
{
    match base64::decode(text) {
        Ok(bytes) => Ok(bytes),
        Err(base64::DecodeError::InvalidByte(offset, byte)) => Err(
            Base64Flaw::InvalidByte { offset, byte },
        ),
        Err(base64::DecodeError::InvalidLength) => Err(Base64Flaw::InvalidLength),
        Err(base64::DecodeError::InvalidLastSymbol(offset, byte)) => Err(
            Base64Flaw::InvalidLastSymbol { offset, byte },
        ),
    }
}

/// Routes `input` to the decoder of `format` and hands back what it produced. Only the
/// single-stream compressors have a decoder here: for any other format the result is `None`.
pub fn decode_stream(format: WrappedFormat, input: &[u8]) -> (decoded: Option<Decoded>)
    ensures
        decoded is Some <==> format.is_compressor(),
        match format {
            WrappedFormat::Gzip => decoded matches Some(d) && d.renders(gzip_decoded(input@)),
            WrappedFormat::Bzip2 => decoded matches Some(d) && d.renders(bzip2_decoded(input@)),
            WrappedFormat::Xz => decoded matches Some(d) && d.renders(xz_decoded(input@)),
            _ => decoded is None,
        },
{
    match format {
        WrappedFormat::Gzip => Some(gzip_decode(input)),
        WrappedFormat::Bzip2 => Some(bzip2_decode(input)),
        WrappedFormat::Xz => Some(xz_decode(input)),
        _ => None,
    }
}

/// The bytes that the Base64 text `input` stands for. Nothing is written anywhere: the bytes
/// are handed back to be reported.
pub fn unwrap_base64(input: &str) -> (r: Result<Vec<u8>, UnwrapError>)
    ensures
        match base64_decoded(input@) {
            Ok(bytes) => r matches Ok(v) && v@ == bytes,
            Err(flaw) => r matches Err(e) && e@ == (UnwrapErrorView::Base64Decode { flaw }),
        },
{
    match base64_decode(input) {
        Ok(bytes) => Ok(bytes),
        Err(flaw) => Err(UnwrapError::Base64Decode { flaw }),
    }
}

} // verus!
