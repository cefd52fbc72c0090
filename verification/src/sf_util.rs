use vstd::prelude::*;

use std::io::Read;

use crate::binary_reader::BinaryReader;
use crate::binary_reader::i32_at;
use crate::dcx::CompressionType;
use crate::dcx::DCX;
use crate::dcx::classified;
use crate::dcx::decompress_outcome;
use crate::dcx::is_container;
use crate::error::DcxError;
use crate::error::matches_bytes;
use crate::oodle::OodleCompressor;

verus! {

/// What a zlib-wrapped deflate stream inflates to: `Some` of the raw bytes
/// exactly when flate2's zlib decoder accepts the stream, `None` when it
/// reports corruption. A function of the input bytes alone.
pub uninterp spec fn zlib_inflate_of(s: Seq<u8>) -> Option<Seq<u8>>;

/// What a headerless deflate stream inflates to, as flate2's raw deflate
/// decoder computes it. A function of the input bytes alone.
pub uninterp spec fn raw_inflate_of(s: Seq<u8>) -> Option<Seq<u8>>;

/// Relies on flate2::read::ZlibDecoder: reading the decoder to its end
/// yields the inflated stream, or an error for a corrupt stream, and the
/// outcome depends on the input bytes alone.
#[verifier::external_body]
pub(crate) fn inflate_zlib(data: &[u8]) -> (r: Result<Vec<u8>, DcxError>)
    ensures
        r is Ok <==> zlib_inflate_of(data@) is Some,
        r is Ok ==> r.unwrap()@ == zlib_inflate_of(data@).unwrap(),
        r is Err ==> r.unwrap_err() == DcxError::ChecksumOrStream,
{
    let mut decoder = flate2::read::ZlibDecoder::new(data);
    let mut out: Vec<u8> = Vec::new();
    match decoder.read_to_end(&mut out) {
        Ok(_) => Ok(out),
        Err(_) => Err(DcxError::ChecksumOrStream),
    }
}

/// Relies on flate2::read::DeflateDecoder: reading the decoder to its end
/// yields the inflated stream of a headerless deflate block, or an error for
/// a corrupt stream, and the outcome depends on the input bytes alone.
#[verifier::external_body]
pub(crate) fn inflate_raw(data: &[u8]) -> (r: Result<Vec<u8>, DcxError>)
    ensures
        r is Ok <==> raw_inflate_of(data@) is Some,
        r is Ok ==> r.unwrap()@ == raw_inflate_of(data@).unwrap(),
        r is Err ==> r.unwrap_err() == DcxError::ChecksumOrStream,
{
    let mut decoder = flate2::read::DeflateDecoder::new(data);
    let mut out: Vec<u8> = Vec::new();
    match decoder.read_to_end(&mut out) {
        Ok(_) => Ok(out),
        Err(_) => Err(DcxError::ChecksumOrStream),
    }
}

/// The second byte of a standard zlib stream header, next to 0x78.
pub open spec fn zlib_flag_byte(b: u8) -> bool {
    b == 0x01 || b == 0x5E || b == 0x9C || b == 0xDA
}

/// The outcome of reading a zlib stream of `csize` declared bytes at `p`:
/// the two header bytes are validated, and the remaining `csize - 2` bytes
/// are inflated as one zlib stream.
pub open spec fn read_zlib_spec(m: Seq<u8>, p: int, csize: int) -> Result<Seq<u8>, DcxError> {
    if p + 1 > m.len() {
        Err(DcxError::OutOfBounds)
    } else if m[p] != 0x78 {
        Err(DcxError::FieldValidation)
    } else if p + 2 > m.len() {
        Err(DcxError::OutOfBounds)
    } else if !zlib_flag_byte(m[p + 1]) {
        Err(DcxError::FieldValidation)
    } else if csize < 2 || p + csize > m.len() {
        Err(DcxError::OutOfBounds)
    } else {
        match zlib_inflate_of(m.subrange(p + 2, p + csize)) {
            Some(d) => Ok(d),
            None => Err(DcxError::ChecksumOrStream),
        }
    }
}

/// Helpers shared by every container family that ends in a contiguous
/// deflate stream.
pub struct SFUtil {}

impl SFUtil {
    /// Validates the two-byte zlib stream header at the current position and
    /// inflates the following `compression_size - 2` bytes as one zlib
    /// stream, leaving the position just past the declared stream.
    pub fn read_zlib(br: &mut BinaryReader, compression_size: usize) -> (r: Result<
        Vec<u8>,
        DcxError,
    >)
        ensures
            final(br).big_endian == old(br).big_endian,
            final(br).memory@ == old(br).memory@,
            final(br).steps@ == old(br).steps@,
            matches_bytes(
                r,
                read_zlib_spec(old(br).memory@, old(br).position as int, compression_size as int),
            ),
            r is Ok ==> final(br).position == old(br).position + compression_size,
    {
        let b0 = match br.read_byte() {
            Ok(b) => b,
            Err(e) => {
                return Err(e);
            },
        };
        if b0 != 0x78 {
            return Err(DcxError::FieldValidation);
        }
        let b1 = match br.read_byte() {
            Ok(b) => b,
            Err(e) => {
                return Err(e);
            },
        };
        if !(b1 == 0x01 || b1 == 0x5E || b1 == 0x9C || b1 == 0xDA) {
            return Err(DcxError::FieldValidation);
        }
        if compression_size < 2 {
            return Err(DcxError::OutOfBounds);
        }
        let compressed = match br.read_bytes(compression_size - 2) {
            Ok(v) => v,
            Err(e) => {
                return Err(e);
            },
        };
        inflate_zlib(compressed.as_slice())
    }

    /// Sniffs the buffer behind the reader: a container is decompressed in
    /// place, replacing the reader's buffer with the decoded bytes, while
    /// any other buffer is left untouched and recorded as uncompressed.
    pub fn decompress_if_neccessary<C: OodleCompressor>(
        br: &mut BinaryReader,
        compression: &mut CompressionType,
        codec: &mut C,
    ) -> (r: Result<(), DcxError>)
        ensures
            !is_container(old(br).memory@) ==> r == Ok::<(), DcxError>(()) && final(br).memory@
                == old(br).memory@ && *final(compression) == CompressionType::NoCompression,
            is_container(old(br).memory@) ==> *final(compression) == classified(old(br).memory@),
            is_container(old(br).memory@) ==> match decompress_outcome(
                old(br).memory@,
                old(codec).oodle6_available(),
                old(codec).oodle8_available(),
            ) {
                Some(Ok(s)) => r == Ok::<(), DcxError>(()) && final(br).memory@ == s,
                Some(Err(e)) => r == Err::<(), DcxError>(e) && final(br).memory@ == old(br).memory@,
                None => {
                    &&& r is Err ==> final(br).memory@ == old(br).memory@
                    &&& r is Ok ==> final(br).memory@.len() == i32_at(old(br).memory@, 28, true)
                },
            },
    {
        if DCX::is(br) {
            let bytes = match DCX::decompress(br, compression, codec) {
                Ok(b) => b,
                Err(e) => {
                    return Err(e);
                },
            };
            br.memory = bytes;
        } else {
            *compression = CompressionType::NoCompression;
        }
        Ok(())
    }
}

} // verus!
