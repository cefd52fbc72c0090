use vstd::prelude::*;

use crate::binary_reader::BinaryReader;
use crate::binary_reader::also;
use crate::binary_reader::be_u32_at;
use crate::binary_reader::bounds_err;
use crate::binary_reader::byte_err;
use crate::binary_reader::i32_at;
use crate::binary_reader::i32_err;
use crate::binary_reader::tag_at;
use crate::binary_reader::tag_err;
use crate::error::DcxError;
use crate::error::matches_bytes;
use crate::oodle::Oodle;
use crate::oodle::OodleCompressor;
use crate::oodle::select_codec;
use crate::sf_util::SFUtil;
use crate::sf_util::raw_inflate_of;
use crate::sf_util::read_zlib_spec;

verus! {

/// The compression variants a container buffer can carry. Exactly one is
/// selected per buffer; `Unknown` is the explicit unrecognized outcome and
/// `NoCompression` marks a buffer that is no container at all.
#[allow(non_camel_case_types)]
#[derive(Debug, Clone, Copy, PartialEq, Eq, Structural)]
pub enum CompressionType {
    Unknown,
    NoCompression,
    Zlib,
    DCP_EDGE,
    DCP_DFLT,
    DCX_EDGE,
    DCX_DFLT_10000_24_9,
    DCX_DFLT_10000_44_9,
    DCX_DFLT_11000_44_8,
    DCX_DFLT_11000_44_9,
    DCX_DFLT_11000_44_9_15,
    DCX_KRAK,
}

/// The buffer opens with the "DCP\0" magic.
pub open spec fn is_dcp_magic(m: Seq<u8>) -> bool {
    tag_at(m, 0, 0x44, 0x43, 0x50, 0x00)
}

/// The buffer opens with the "DCX\0" magic.
pub open spec fn is_dcx_magic(m: Seq<u8>) -> bool {
    tag_at(m, 0, 0x44, 0x43, 0x58, 0x00)
}

/// The buffer is a container: at least four bytes, opening with one of the
/// two container magics.
pub open spec fn is_container(m: Seq<u8>) -> bool {
    m.len() >= 4 && (is_dcp_magic(m) || is_dcx_magic(m))
}

/// The final classification heuristic: a buffer whose extended-header
/// sub-tag is unrecognized is inline zlib when its first two raw bytes form
/// a standard zlib stream header, else unrecognized.
pub open spec fn zlib_heuristic(m: Seq<u8>) -> CompressionType {
    if m[0] == 0x78 && (m[1] == 0x01 || m[1] == 0x5E || m[1] == 0x9C || m[1] == 0xDA) {
        CompressionType::Zlib
    } else {
        CompressionType::Unknown
    }
}

/// The five extended-header deflate shapes, keyed by the four header fields
/// that distinguish them, falling through to the zlib heuristic when no
/// combination matches.
pub open spec fn classify_dcx_dflt(m: Seq<u8>) -> CompressionType {
    let u04 = i32_at(m, 0x4, true);
    let u10 = i32_at(m, 0x10, true);
    let b30 = m[0x30];
    let b38 = m[0x38];
    if u04 == 0x10000 && u10 == 0x24 && b30 == 9 && b38 == 0 {
        CompressionType::DCX_DFLT_10000_24_9
    } else if u04 == 0x10000 && u10 == 0x44 && b30 == 9 && b38 == 0 {
        CompressionType::DCX_DFLT_10000_44_9
    } else if u04 == 0x11000 && u10 == 0x44 && b30 == 8 && b38 == 0 {
        CompressionType::DCX_DFLT_11000_44_8
    } else if u04 == 0x11000 && u10 == 0x44 && b30 == 9 && b38 == 0 {
        CompressionType::DCX_DFLT_11000_44_9
    } else if u04 == 0x11000 && u10 == 0x44 && b30 == 9 && b38 == 15 {
        CompressionType::DCX_DFLT_11000_44_9_15
    } else {
        zlib_heuristic(m)
    }
}

/// The total classification of a buffer. Every buffer yields exactly one
/// variant or one of two explicit failures: `NotAContainer` when neither
/// magic opens it, `OutOfBounds` when a header field that classification
/// must inspect lies past the end of the buffer.
pub open spec fn classify_spec(m: Seq<u8>) -> Result<CompressionType, DcxError> {
    if m.len() < 4 {
        Err(DcxError::OutOfBounds)
    } else if is_dcp_magic(m) {
        if m.len() < 8 {
            Err(DcxError::OutOfBounds)
        } else if tag_at(m, 4, 0x45, 0x44, 0x47, 0x45) {  // "EDGE"
            Ok(CompressionType::DCP_EDGE)
        } else if tag_at(m, 4, 0x44, 0x46, 0x4C, 0x54) {  // "DFLT"
            Ok(CompressionType::DCP_DFLT)
        } else {
            Ok(CompressionType::Unknown)
        }
    } else if is_dcx_magic(m) {
        if m.len() < 0x2C {
            Err(DcxError::OutOfBounds)
        } else if tag_at(m, 0x28, 0x45, 0x44, 0x47, 0x45) {  // "EDGE"
            Ok(CompressionType::DCX_EDGE)
        } else if tag_at(m, 0x28, 0x44, 0x46, 0x4C, 0x54) {  // "DFLT"
            if m.len() < 0x39 {
                Err(DcxError::OutOfBounds)
            } else {
                Ok(classify_dcx_dflt(m))
            }
        } else if tag_at(m, 0x28, 0x4B, 0x52, 0x41, 0x4B) {  // "KRAK"
            Ok(CompressionType::DCX_KRAK)
        } else {
            Ok(zlib_heuristic(m))
        }
    } else {
        Err(DcxError::NotAContainer)
    }
}

/// The variant a buffer is recorded under once classification ran: its
/// classified variant, or `Unknown` where classification itself failed.
pub open spec fn classified(m: Seq<u8>) -> CompressionType {
    match classify_spec(m) {
        Ok(v) => v,
        Err(_) => CompressionType::Unknown,
    }
}

/// Classification is total and deterministic: it is a pure function of the
/// bytes, and every buffer yields either one of the defined variants or one
/// of the two explicit classification failures — nothing else.
pub proof fn lemma_classify_total(m: Seq<u8>)
    ensures
        classify_spec(m) is Ok || classify_spec(m) == Err::<CompressionType, DcxError>(
            DcxError::OutOfBounds,
        ) || classify_spec(m) == Err::<CompressionType, DcxError>(DcxError::NotAContainer),
{
}

/// How the fixed leading header of the inline-compression EDGE/DFLT families
/// fails, if it does: the "DCP\0" magic, the family tag, six constant
/// fields, the "DCS\0" tag, and the bounds for the two declared sizes.
pub open spec fn dcp_dflt_pre(m: Seq<u8>) -> Option<DcxError> {
    also(
        tag_err(m, 0, 0x44, 0x43, 0x50, 0x00),  // "DCP\0"
        also(
            tag_err(m, 4, 0x44, 0x46, 0x4C, 0x54),  // "DFLT"
            also(
                i32_err(m, 8, 0x20),
                also(
                    i32_err(m, 12, 0x9000000),
                    also(
                        i32_err(m, 16, 0),
                        also(
                            i32_err(m, 20, 0),
                            also(
                                i32_err(m, 24, 0),
                                also(
                                    i32_err(m, 28, 0x00010100),
                                    also(
                                        tag_err(m, 32, 0x44, 0x43, 0x53, 0x00),  // "DCS\0"
                                        bounds_err(m, 44),
                                    ),
                                ),
                            ),
                        ),
                    ),
                ),
            ),
        ),
    )
}

/// The outcome of decoding an inline-compression DFLT container: validate
/// the fixed header, inflate the declared zlib span behind it, then validate
/// the "DCA\0" trailer. A negative declared size can describe no span and is
/// out of bounds.
pub open spec fn dcp_dflt_spec(m: Seq<u8>) -> Result<Seq<u8>, DcxError> {
    match dcp_dflt_pre(m) {
        Some(e) => Err(e),
        None => {
            let cs = i32_at(m, 40, true);
            if cs < 0 {
                Err(DcxError::OutOfBounds)
            } else {
                match read_zlib_spec(m, 44, cs) {
                    Err(e) => Err(e),
                    Ok(body) => match also(
                        tag_err(m, 44 + cs, 0x44, 0x43, 0x41, 0x00),  // "DCA\0"
                        i32_err(m, 48 + cs, 8),
                    ) {
                        Some(e) => Err(e),
                        None => Ok(body),
                    },
                }
            }
        },
    }
}

/// The four header constants that distinguish the five extended-header
/// deflate shapes: the size-class tag, the struct-size tag, its companion
/// field, and the two tuning bytes.
pub open spec fn dflt_params(c: CompressionType) -> (int, int, int, u8, u8) {
    (
        if c == CompressionType::DCX_DFLT_10000_24_9 || c == CompressionType::DCX_DFLT_10000_44_9 {
            0x10000
        } else {
            0x11000
        },
        if c == CompressionType::DCX_DFLT_10000_24_9 {
            0x24
        } else {
            0x44
        },
        if c == CompressionType::DCX_DFLT_10000_24_9 {
            0x2C
        } else {
            0x4C
        },
        if c == CompressionType::DCX_DFLT_11000_44_8 {
            8u8
        } else {
            9u8
        },
        if c == CompressionType::DCX_DFLT_11000_44_9_15 {
            15u8
        } else {
            0u8
        },
    )
}

/// How the leading header of an extended-header DFLT container fails, if it
/// does, for the given shape.
pub open spec fn dcx_dflt_pre(m: Seq<u8>, c: CompressionType) -> Option<DcxError> {
    let p = dflt_params(c);
    also(
        tag_err(m, 0, 0x44, 0x43, 0x58, 0x00),  // "DCX\0"
        also(
            i32_err(m, 4, p.0),
            also(
                i32_err(m, 8, 0x18),
                also(
                    i32_err(m, 12, 0x24),
                    also(
                        i32_err(m, 16, p.1),
                        also(
                            i32_err(m, 20, p.2),
                            also(
                                tag_err(m, 24, 0x44, 0x43, 0x53, 0x00),  // "DCS\0"
                                bounds_err(m, 36),
                            ),
                        ),
                    ),
                ),
            ),
        ),
    )
}

/// The outcome of decoding an extended-header DFLT container of the given
/// shape: every fixed field used for classification is validated again,
/// together with the deeper constants, and the declared zlib span behind the
/// "DCA\0" header is inflated. No trailer follows the stream.
pub open spec fn dcx_dflt_spec(m: Seq<u8>, c: CompressionType) -> Result<Seq<u8>, DcxError> {
    let p = dflt_params(c);
    match dcx_dflt_pre(m, c) {
        Some(e) => Err(e),
        None => {
            let cs = i32_at(m, 32, true);
            if cs < 0 {
                Err(DcxError::OutOfBounds)
            } else {
                match also(
                    tag_err(m, 36, 0x44, 0x43, 0x50, 0x00),  // "DCP\0"
                    also(
                        tag_err(m, 40, 0x44, 0x46, 0x4C, 0x54),  // "DFLT"
                        also(
                            i32_err(m, 44, 0x20),
                            also(
                                byte_err(m, 48, p.3),
                                also(
                                    byte_err(m, 49, 0),
                                    also(
                                        byte_err(m, 50, 0),
                                        also(
                                            byte_err(m, 51, 0),
                                            also(
                                                i32_err(m, 52, 0),
                                                also(
                                                    byte_err(m, 56, p.4),
                                                    also(
                                                        byte_err(m, 57, 0),
                                                        also(
                                                            byte_err(m, 58, 0),
                                                            also(
                                                                byte_err(m, 59, 0),
                                                                also(
                                                                    i32_err(m, 60, 0),
                                                                    also(
                                                                        i32_err(m, 64, 0x00010100),
                                                                        also(
                                                                            tag_err(
                                                                                m,
                                                                                68,
                                                                                0x44,
                                                                                0x43,
                                                                                0x41,
                                                                                0x00,
                                                                            ),  // "DCA\0"
                                                                            bounds_err(m, 76),
                                                                        ),
                                                                    ),
                                                                ),
                                                            ),
                                                        ),
                                                    ),
                                                ),
                                            ),
                                        ),
                                    ),
                                ),
                            ),
                        ),
                    ),
                ) {
                    Some(e) => Err(e),
                    None => read_zlib_spec(m, 76, cs),
                }
            }
        },
    }
}

/// The compression level a Kraken decode runs under: the caller's hint, or 6
/// where none was given.
pub open spec fn level_of(o: Option<u8>) -> u8 {
    match o {
        Some(cl) => cl,
        None => 6,
    }
}

/// The outcome of validating a Kraken container and locating its compressed
/// span: on success the raw span that is handed to the external codec
/// service, else the first validation failure.
pub open spec fn krak_spec(m: Seq<u8>, level: u8) -> Result<Seq<u8>, DcxError> {
    match also(
        tag_err(m, 0, 0x44, 0x43, 0x58, 0x00),  // "DCX\0"
        also(
            i32_err(m, 4, 0x11000),
            also(
                i32_err(m, 8, 0x18),
                also(
                    i32_err(m, 12, 0x24),
                    also(
                        i32_err(m, 16, 0x44),
                        also(
                            i32_err(m, 20, 0x4C),
                            also(
                                tag_err(m, 24, 0x44, 0x43, 0x53, 0x00),  // "DCS\0"
                                bounds_err(m, 36),
                            ),
                        ),
                    ),
                ),
            ),
        ),
    ) {
        Some(e) => Err(e),
        None => {
            let us = i32_at(m, 28, true);
            let cs = i32_at(m, 32, true);
            if us < 0 || cs < 0 {
                Err(DcxError::OutOfBounds)
            } else {
                match also(
                    tag_err(m, 36, 0x44, 0x43, 0x50, 0x00),  // "DCP\0"
                    also(
                        tag_err(m, 40, 0x4B, 0x52, 0x41, 0x4B),  // "KRAK"
                        also(
                            i32_err(m, 44, 0x20),
                            also(
                                byte_err(m, 48, level),
                                also(
                                    byte_err(m, 49, 0),
                                    also(
                                        byte_err(m, 50, 0),
                                        also(
                                            byte_err(m, 51, 0),
                                            also(
                                                i32_err(m, 52, 0),
                                                also(
                                                    i32_err(m, 56, 0),
                                                    also(
                                                        i32_err(m, 60, 0),
                                                        also(
                                                            i32_err(m, 64, 0x10100),
                                                            also(
                                                                tag_err(m, 68, 0x44, 0x43, 0x41, 0x00),  // "DCA\0"
                                                                also(
                                                                    i32_err(m, 72, 8),
                                                                    bounds_err(m, 76 + cs),
                                                                ),
                                                            ),
                                                        ),
                                                    ),
                                                ),
                                            ),
                                        ),
                                    ),
                                ),
                            ),
                        ),
                    ),
                ) {
                    Some(e) => Err(e),
                    None => Ok(m.subrange(76, 76 + cs)),
                }
            }
        },
    }
}

/// The outcome of one chunk-table entry at table offset `t`: a
/// reserved-must-be-zero field, the chunk's offset relative to `base`, its
/// size, and a 0/1 compressed flag. The chunk's bytes are fetched from the
/// original buffer and inflated as a headerless deflate block when the flag
/// says so.
pub open spec fn chunk_entry_spec(m: Seq<u8>, t: int, base: int) -> Result<Seq<u8>, DcxError> {
    match i32_err(m, t, 0) {
        Some(e) => Err(e),
        None => if t + 12 > m.len() {
            Err(DcxError::OutOfBounds)
        } else {
            let off = i32_at(m, t + 4, true);
            let size = i32_at(m, t + 8, true);
            if t + 16 > m.len() {
                Err(DcxError::OutOfBounds)
            } else {
                let flag = i32_at(m, t + 12, true);
                if flag != 0 && flag != 1 {
                    Err(DcxError::FieldValidation)
                } else if off < 0 || size < 0 || base + off < 0 || base + off + size > m.len() {
                    Err(DcxError::OutOfBounds)
                } else {
                    let chunk = m.subrange(base + off, base + off + size);
                    if flag == 1 {
                        match raw_inflate_of(chunk) {
                            Some(d) => Ok(d),
                            None => Err(DcxError::ChecksumOrStream),
                        }
                    } else {
                        Ok(chunk)
                    }
                }
            }
        },
    }
}

/// The concatenation of `count` chunks whose table starts at `t`, applied
/// strictly in table order; the first failing entry aborts the whole
/// reconstruction with its error.
pub open spec fn chunks_spec(m: Seq<u8>, t: int, base: int, count: int) -> Result<Seq<u8>, DcxError>
    decreases count,
{
    if count <= 0 {
        Ok(Seq::empty())
    } else {
        match chunk_entry_spec(m, t, base) {
            Err(e) => Err(e),
            Ok(piece) => match chunks_spec(m, t + 16, base, count - 1) {
                Err(e) => Err(e),
                Ok(rest) => Ok(piece + rest),
            },
        }
    }
}

/// The reconstructed output buffer: the chunk bytes, zero-padded up to the
/// declared uncompressed size when they fall short of it, and kept whole
/// when they exceed it. The output buffer is predeclared at that size and
/// chunks overwrite it from the start.
pub open spec fn pad_to(s: Seq<u8>, n: int) -> Seq<u8> {
    if s.len() >= n {
        s
    } else {
        s + Seq::new((n - s.len()) as nat, |i: int| 0u8)
    }
}

/// How the fixed leading header of an inline-compression EDGE container
/// fails, if it does.
pub open spec fn dcp_edge_pre(m: Seq<u8>) -> Option<DcxError> {
    also(
        tag_err(m, 0, 0x44, 0x43, 0x50, 0x00),  // "DCP\0"
        also(
            tag_err(m, 4, 0x45, 0x44, 0x47, 0x45),  // "EDGE"
            also(
                i32_err(m, 8, 0x20),
                also(
                    i32_err(m, 12, 0x9000000),
                    also(
                        i32_err(m, 16, 0x10000),
                        also(
                            i32_err(m, 20, 0),
                            also(
                                i32_err(m, 24, 0),
                                also(
                                    i32_err(m, 28, 0x00100100),
                                    also(
                                        tag_err(m, 32, 0x44, 0x43, 0x53, 0x00),  // "DCS\0"
                                        bounds_err(m, 44),
                                    ),
                                ),
                            ),
                        ),
                    ),
                ),
            ),
        ),
    )
}

/// The outcome of decoding an inline-compression EDGE container: the fixed
/// header, the declared sizes, a skip over the compressed data section to
/// the trailing "DCA\0"/"EgdT" sub-header, the chunk-table-size consistency
/// check, and the chunk reconstruction anchored at the start of the data
/// section.
/// How the trailing "DCA\0"/"EgdT" sub-header of an inline-compression EDGE
/// container fails, if it does, with the data section `cs` bytes long.
pub open spec fn dcp_edge_mid(m: Seq<u8>, cs: int) -> Option<DcxError> {
    also(
        i32_err(m, 44, 0),
        also(
            bounds_err(m, 48 + cs),  // the skip over the data section
            also(
                tag_err(m, 48 + cs, 0x44, 0x43, 0x41, 0x00),  // "DCA\0"
                also(
                    bounds_err(m, 56 + cs),  // the sub-header size field
                    also(
                        tag_err(m, 56 + cs, 0x45, 0x67, 0x64, 0x54),  // "EgdT"
                        also(
                            i32_err(m, 60 + cs, 0x00010000),
                            also(
                                i32_err(m, 64 + cs, 0x20),
                                also(
                                    i32_err(m, 68 + cs, 0x10),
                                    also(
                                        i32_err(m, 72 + cs, 0x10000),
                                        also(
                                            bounds_err(m, 84 + cs),  // table size and chunk count
                                            i32_err(m, 84 + cs, 0x100000),
                                        ),
                                    ),
                                ),
                            ),
                        ),
                    ),
                ),
            ),
        ),
    )
}

pub open spec fn dcp_edge_spec(m: Seq<u8>) -> Result<Seq<u8>, DcxError> {
    match dcp_edge_pre(m) {
        Some(e) => Err(e),
        None => {
            let us = i32_at(m, 36, true);
            let cs = i32_at(m, 40, true);
            if us < 0 || cs < 0 {
                Err(DcxError::OutOfBounds)
            } else {
                match dcp_edge_mid(m, cs) {
                    Some(e) => Err(e),
                    None => {
                        let egdt_size = i32_at(m, 76 + cs, true);
                        let chunk_count = i32_at(m, 80 + cs, true);
                        if egdt_size != 0x20 + chunk_count * 0x10 {
                            Err(DcxError::ChunkTableSizeMismatch)
                        } else {
                            match chunks_spec(m, 88 + cs, 48, chunk_count) {
                                Err(e) => Err(e),
                                Ok(s) => Ok(pad_to(s, us)),
                            }
                        }
                    },
                }
            }
        },
    }
}

/// How the fixed leading header of an extended-header EDGE container fails,
/// if it does.
pub open spec fn dcx_edge_pre(m: Seq<u8>) -> Option<DcxError> {
    also(
        tag_err(m, 0, 0x44, 0x43, 0x58, 0x00),  // "DCX\0"
        also(
            i32_err(m, 4, 0x10000),
            also(
                i32_err(m, 8, 0x18),
                also(
                    i32_err(m, 12, 0x24),
                    also(
                        i32_err(m, 16, 0x24),
                        also(
                            bounds_err(m, 24),  // the chunk-region-size field
                            also(
                                tag_err(m, 24, 0x44, 0x43, 0x53, 0x00),  // "DCS\0"
                                bounds_err(m, 36),
                            ),
                        ),
                    ),
                ),
            ),
        ),
    )
}

/// The outcome of decoding an extended-header EDGE container: the fixed
/// headers, the trailing-chunk-size check against the declared uncompressed
/// size, the chunk-region and chunk-table consistency checks, and the chunk
/// reconstruction anchored at the end of the embedded "DCA\0" sub-header.
/// How the embedded "DCP\0"/"EDGE" header and "DCA\0"/"EgdT" sub-header of
/// an extended-header EDGE container fail, if they do.
pub open spec fn dcx_edge_mid(m: Seq<u8>) -> Option<DcxError> {
    also(
        tag_err(m, 36, 0x44, 0x43, 0x50, 0x00),  // "DCP\0"
        also(
            tag_err(m, 40, 0x45, 0x44, 0x47, 0x45),  // "EDGE"
            also(
                i32_err(m, 44, 0x20),
                also(
                    i32_err(m, 48, 0x9000000),
                    also(
                        i32_err(m, 52, 0x10000),
                        also(
                            i32_err(m, 56, 0),
                            also(
                                i32_err(m, 60, 0),
                                also(
                                    i32_err(m, 64, 0x00100100),
                                    also(
                                        tag_err(m, 68, 0x44, 0x43, 0x41, 0x00),  // "DCA\0"
                                        also(
                                            bounds_err(m, 76),  // the sub-header size
                                            also(
                                                tag_err(m, 76, 0x45, 0x67, 0x64, 0x54),  // "EgdT"
                                                also(
                                                    i32_err(m, 80, 0x00010100),
                                                    also(
                                                        i32_err(m, 84, 0x24),
                                                        also(
                                                            i32_err(m, 88, 0x10),
                                                            also(
                                                                i32_err(m, 92, 0x10000),
                                                                bounds_err(m, 100),  // the trailing-chunk-size field
                                                            ),
                                                        ),
                                                    ),
                                                ),
                                            ),
                                        ),
                                    ),
                                ),
                            ),
                        ),
                    ),
                ),
            ),
        ),
    )
}

pub open spec fn dcx_edge_spec(m: Seq<u8>) -> Result<Seq<u8>, DcxError> {
    match dcx_edge_pre(m) {
        Some(e) => Err(e),
        None => {
            let unk1 = i32_at(m, 20, true);
            let us = i32_at(m, 28, true);
            if us < 0 {
                Err(DcxError::OutOfBounds)
            } else {
                match dcx_edge_mid(m) {
                    Some(e) => Err(e),
                    None => {
                        let trailing = i32_at(m, 96, true);
                        if trailing != us % 0x10000 && trailing != 0x10000 {
                            Err(DcxError::UnexpectedTrailingChunkSize)
                        } else {
                            match also(bounds_err(m, 108), i32_err(m, 108, 0x100000)) {
                                Some(e) => Err(e),
                                None => {
                                    let dca_size = i32_at(m, 72, true);
                                    let egdt_size = i32_at(m, 100, true);
                                    let chunk_count = i32_at(m, 104, true);
                                    if unk1 != 0x50 + chunk_count * 0x10 {
                                        Err(DcxError::UnexpectedChunkRegionSize)
                                    } else if egdt_size != 0x24 + chunk_count * 0x10 {
                                        Err(DcxError::ChunkTableSizeMismatch)
                                    } else {
                                        match chunks_spec(m, 112, 68 + dca_size, chunk_count) {
                                            Err(e) => Err(e),
                                            Ok(s) => Ok(pad_to(s, us)),
                                        }
                                    }
                                },
                            }
                        }
                    },
                }
            }
        },
    }
}

/// A chunk-table-size field inconsistent with the chunk count is fatal on
/// its own: an inline-compression EDGE container whose checks up to the
/// chunk table all pass, but whose declared sub-header size disagrees with
/// `0x20 + 16 * chunk_count`, fails with `ChunkTableSizeMismatch` before
/// any chunk bytes are read, whatever the table and the chunks hold.
pub proof fn lemma_dcp_edge_table_size_mismatch(m: Seq<u8>)
    requires
        dcp_edge_pre(m) is None,
        i32_at(m, 36, true) >= 0,
        i32_at(m, 40, true) >= 0,
        dcp_edge_mid(m, i32_at(m, 40, true)) is None,
        i32_at(m, 76 + i32_at(m, 40, true), true) != 0x20 + i32_at(
            m,
            80 + i32_at(m, 40, true),
            true,
        ) * 0x10,
    ensures
        dcp_edge_spec(m) == Err::<Seq<u8>, DcxError>(DcxError::ChunkTableSizeMismatch),
{
}

/// The same chunk-table-size consistency rule for the extended-header EDGE
/// container: with every earlier check passing, a sub-header size that
/// disagrees with `0x24 + 16 * chunk_count` fails with
/// `ChunkTableSizeMismatch` before any chunk bytes are read.
pub proof fn lemma_dcx_edge_table_size_mismatch(m: Seq<u8>)
    requires
        dcx_edge_pre(m) is None,
        i32_at(m, 28, true) >= 0,
        dcx_edge_mid(m) is None,
        i32_at(m, 96, true) == i32_at(m, 28, true) % 0x10000 || i32_at(m, 96, true) == 0x10000,
        also(bounds_err(m, 108), i32_err(m, 108, 0x100000)) is None,
        i32_at(m, 20, true) == 0x50 + i32_at(m, 104, true) * 0x10,
        i32_at(m, 100, true) != 0x24 + i32_at(m, 104, true) * 0x10,
    ensures
        dcx_edge_spec(m) == Err::<Seq<u8>, DcxError>(DcxError::ChunkTableSizeMismatch),
{
}

/// One of the five extended-header deflate shapes.
pub open spec fn is_dcx_dflt_shape(c: CompressionType) -> bool {
    c == CompressionType::DCX_DFLT_10000_24_9 || c == CompressionType::DCX_DFLT_10000_44_9 || c
        == CompressionType::DCX_DFLT_11000_44_8 || c == CompressionType::DCX_DFLT_11000_44_9 || c
        == CompressionType::DCX_DFLT_11000_44_9_15
}

/// Changing any single byte of a big-endian 32-bit field changes the value
/// the field reads as.
pub proof fn lemma_i32_field_changes(m: Seq<u8>, p: int, b: u8, q: int)
    requires
        0 <= q <= p < q + 4,
        p < m.len(),
        q + 4 <= m.len(),
        b != m[p],
    ensures
        i32_at(m.update(p, b), q, true) != i32_at(m, q, true),
{
    let m2 = m.update(p, b);
    if p == q {
        assert(be_u32_at(m2, q) - be_u32_at(m, q) == ((b as int) - (m[p] as int)) * 0x1000000);
    } else if p == q + 1 {
        assert(be_u32_at(m2, q) - be_u32_at(m, q) == ((b as int) - (m[p] as int)) * 0x10000);
    } else if p == q + 2 {
        assert(be_u32_at(m2, q) - be_u32_at(m, q) == ((b as int) - (m[p] as int)) * 0x100);
    } else {
        assert(be_u32_at(m2, q) - be_u32_at(m, q) == (b as int) - (m[p] as int));
    }
}

/// The byte positions of an extended-header DFLT container that hold fixed
/// constants the classifier never inspects: the deeper header fields, the
/// nested tags and the reserved zero bytes, all validated only at decode
/// time.
pub open spec fn dcx_dflt_decode_only_constant(p: int) -> bool {
    (8 <= p < 16) || (20 <= p < 28) || (36 <= p < 40) || (44 <= p < 48) || (49 <= p < 52) || (52
        <= p < 56) || (57 <= p < 60) || (60 <= p < 72)
}

/// Field validation rejects corruption: flipping any single byte of a fixed
/// constant that classification does not inspect, in a valid
/// extended-header DFLT container, leaves the classification unchanged and
/// makes the decode fail with `FieldValidation` — never succeed.
pub proof fn lemma_corrupt_constant_rejected(m: Seq<u8>, p: int, b: u8, six: bool, eight: bool)
    requires
        classify_spec(m) is Ok,
        is_dcx_dflt_shape(classify_spec(m)->Ok_0),
        dcx_dflt_spec(m, classify_spec(m)->Ok_0) is Ok,
        dcx_dflt_decode_only_constant(p),
        p < m.len(),
        b != m[p],
    ensures
        classify_spec(m.update(p, b)) == classify_spec(m),
        decompress_outcome(m.update(p, b), six, eight) == Some(
            Err::<Seq<u8>, DcxError>(DcxError::FieldValidation),
        ),
{
    let m2 = m.update(p, b);
    let c = classify_spec(m)->Ok_0;
    assert(m2.len() == m.len());
    if 8 <= p < 12 {
        lemma_i32_field_changes(m, p, b, 8);
    } else if 12 <= p < 16 {
        lemma_i32_field_changes(m, p, b, 12);
    } else if 20 <= p < 24 {
        lemma_i32_field_changes(m, p, b, 20);
    } else if 44 <= p < 48 {
        lemma_i32_field_changes(m, p, b, 44);
    } else if 52 <= p < 56 {
        lemma_i32_field_changes(m, p, b, 52);
    } else if 60 <= p < 64 {
        lemma_i32_field_changes(m, p, b, 60);
    } else if 64 <= p < 68 {
        lemma_i32_field_changes(m, p, b, 64);
    }
    assert(classify_spec(m2) == classify_spec(m));
    assert(dcx_dflt_spec(m2, c) == Err::<Seq<u8>, DcxError>(DcxError::FieldValidation));
}

/// Truncated-buffer safety: cutting a valid extended-header DFLT container
/// anywhere before the end of its declared compressed stream makes the
/// pipeline fail with `OutOfBounds` — it never reads adjacent memory and
/// never returns undersized output silently.
pub proof fn lemma_dcx_dflt_truncation(m: Seq<u8>, k: int, six: bool, eight: bool)
    requires
        classify_spec(m) is Ok,
        is_dcx_dflt_shape(classify_spec(m)->Ok_0),
        dcx_dflt_spec(m, classify_spec(m)->Ok_0) is Ok,
        0 <= k < 76 + i32_at(m, 32, true),
    ensures
        decompress_outcome(m.take(k), six, eight) == Some(
            Err::<Seq<u8>, DcxError>(DcxError::OutOfBounds),
        ),
{
    let m2 = m.take(k);
    let c = classify_spec(m)->Ok_0;
    let cs = i32_at(m, 32, true);
    assert(m2.len() == k);
    if k < 0x39 {
        assert(classify_spec(m2) == Err::<CompressionType, DcxError>(DcxError::OutOfBounds));
    } else {
        assert(classify_spec(m2) == Ok::<CompressionType, DcxError>(c));
        assert(dcx_dflt_spec(m2, c) == Err::<Seq<u8>, DcxError>(DcxError::OutOfBounds));
    }
}

/// Where the span of the chunk whose table entry sits at index `i` of the
/// table at `t` ends in the buffer.
pub open spec fn chunk_span_end(m: Seq<u8>, t: int, base: int, i: int) -> int {
    base + i32_at(m, t + 16 * i + 4, true) + i32_at(m, t + 16 * i + 8, true)
}

/// Truncating a buffer so that the cut lands inside the chunk table, or cuts
/// some chunk's span short, makes the reconstruction run out of bounds:
/// entries wholly below the cut still read their chunks, and the first entry
/// crossing it fails its read.
pub proof fn lemma_chunks_truncation(m: Seq<u8>, k: int, t: int, base: int, count: int)
    requires
        chunks_spec(m, t, base, count) is Ok,
        0 <= t <= k <= m.len(),
        k < t + 16 * count || exists|i: int|
            0 <= i < count && #[trigger] chunk_span_end(m, t, base, i) > k,
    ensures
        chunks_spec(m.take(k), t, base, count) == Err::<Seq<u8>, DcxError>(DcxError::OutOfBounds),
    decreases count,
{
    let m2 = m.take(k);
    if count <= 0 {
        if k < t + 16 * count {
            assert(false);
        } else {
            let i = choose|i: int| 0 <= i < count && #[trigger] chunk_span_end(m, t, base, i) > k;
            assert(false);
        }
    }
    assert(chunk_entry_spec(m, t, base) is Ok);
    if k < t + 16 {
        assert(chunk_entry_spec(m2, t, base) == Err::<Seq<u8>, DcxError>(DcxError::OutOfBounds));
    } else {
        let off = i32_at(m, t + 4, true);
        let size = i32_at(m, t + 8, true);
        assert(i32_at(m2, t, true) == i32_at(m, t, true));
        assert(i32_at(m2, t + 4, true) == i32_at(m, t + 4, true));
        assert(i32_at(m2, t + 8, true) == i32_at(m, t + 8, true));
        assert(i32_at(m2, t + 12, true) == i32_at(m, t + 12, true));
        assert(off >= 0 && size >= 0 && base + off >= 0 && base + off + size <= m.len());
        if base + off + size > k {
            assert(chunk_entry_spec(m2, t, base) == Err::<Seq<u8>, DcxError>(
                DcxError::OutOfBounds,
            ));
        } else {
            assert(m2.subrange(base + off, base + off + size) =~= m.subrange(
                base + off,
                base + off + size,
            ));
            assert(chunk_entry_spec(m2, t, base) == chunk_entry_spec(m, t, base));
            if k < t + 16 * count {
                assert(k < (t + 16) + 16 * (count - 1));
            } else {
                let i = choose|i: int|
                    0 <= i < count && #[trigger] chunk_span_end(m, t, base, i) > k;
                assert(chunk_span_end(m, t, base, 0) == base + off + size);
                assert(i != 0);
                assert(chunk_span_end(m, t + 16, base, i - 1) == chunk_span_end(m, t, base, i));
                assert(0 <= i - 1 < count - 1 && chunk_span_end(m, t + 16, base, i - 1) > k);
            }
            lemma_chunks_truncation(m, k, t + 16, base, count - 1);
        }
    }
}

/// A chunk table whose reconstruction succeeds lies whole inside the
/// buffer.
pub proof fn lemma_chunks_table_in_bounds(m: Seq<u8>, t: int, base: int, count: int)
    requires
        chunks_spec(m, t, base, count) is Ok,
        0 <= t <= m.len(),
    ensures
        t + 16 * count <= m.len(),
    decreases count,
{
    if count > 0 {
        assert(chunk_entry_spec(m, t, base) is Ok);
        lemma_chunks_table_in_bounds(m, t + 16, base, count - 1);
    }
}

/// Truncated-buffer safety for the inline-compression DFLT container:
/// cutting a decodable buffer anywhere before the end of its "DCA\0"
/// trailer, the last region the decode reads, makes the pipeline fail with
/// `OutOfBounds`.
pub proof fn lemma_dcp_dflt_truncation(m: Seq<u8>, k: int, six: bool, eight: bool)
    requires
        classify_spec(m) == Ok::<CompressionType, DcxError>(CompressionType::DCP_DFLT),
        dcp_dflt_spec(m) is Ok,
        0 <= k < 52 + i32_at(m, 40, true),
    ensures
        decompress_outcome(m.take(k), six, eight) == Some(
            Err::<Seq<u8>, DcxError>(DcxError::OutOfBounds),
        ),
{
    let cs = i32_at(m, 40, true);
    let m2 = m.take(k);
    assert(m2.len() == k);
    if k < 8 {
        assert(classify_spec(m2) == Err::<CompressionType, DcxError>(DcxError::OutOfBounds));
    } else {
        assert(classify_spec(m2) == Ok::<CompressionType, DcxError>(CompressionType::DCP_DFLT));
        if k >= 44 + cs {
            assert(m2.subrange(46, 44 + cs) =~= m.subrange(46, 44 + cs));
        }
        assert(dcp_dflt_spec(m2) == Err::<Seq<u8>, DcxError>(DcxError::OutOfBounds));
    }
}

/// Truncated-buffer safety for the inline-compression EDGE container:
/// cutting a decodable buffer anywhere before the end of its chunk table,
/// which is the last region the decode reads, makes the pipeline fail with
/// `OutOfBounds`.
pub proof fn lemma_dcp_edge_truncation(m: Seq<u8>, k: int, six: bool, eight: bool)
    requires
        classify_spec(m) == Ok::<CompressionType, DcxError>(CompressionType::DCP_EDGE),
        dcp_edge_spec(m) is Ok,
        0 <= k,
        k < 88 + i32_at(m, 40, true) + 16 * i32_at(m, 80 + i32_at(m, 40, true), true),
    ensures
        decompress_outcome(m.take(k), six, eight) == Some(
            Err::<Seq<u8>, DcxError>(DcxError::OutOfBounds),
        ),
{
    let cs = i32_at(m, 40, true);
    let cc = i32_at(m, 80 + cs, true);
    let m2 = m.take(k);
    lemma_chunks_table_in_bounds(m, 88 + cs, 48, cc);
    assert(m2.len() == k);
    if k < 8 {
        assert(classify_spec(m2) == Err::<CompressionType, DcxError>(DcxError::OutOfBounds));
    } else {
        assert(classify_spec(m2) == Ok::<CompressionType, DcxError>(CompressionType::DCP_EDGE));
        if k < 88 + cs {
            assert(dcp_edge_spec(m2) == Err::<Seq<u8>, DcxError>(DcxError::OutOfBounds));
        } else {
            lemma_chunks_truncation(m, k, 88 + cs, 48, cc);
            assert(dcp_edge_spec(m2) == Err::<Seq<u8>, DcxError>(DcxError::OutOfBounds));
        }
    }
}

/// Truncated-buffer safety for the extended-header EDGE container: cutting
/// a decodable buffer anywhere inside the region the decode reads — before
/// the end of the chunk table at its fixed offset, or short of any chunk's
/// span behind it — makes the pipeline fail with `OutOfBounds`.
pub proof fn lemma_dcx_edge_truncation(m: Seq<u8>, k: int, six: bool, eight: bool)
    requires
        classify_spec(m) == Ok::<CompressionType, DcxError>(CompressionType::DCX_EDGE),
        dcx_edge_spec(m) is Ok,
        0 <= k <= m.len(),
        k < 112 + 16 * i32_at(m, 104, true) || exists|i: int|
            0 <= i < i32_at(m, 104, true) && #[trigger] chunk_span_end(
                m,
                112,
                68 + i32_at(m, 72, true),
                i,
            ) > k,
    ensures
        decompress_outcome(m.take(k), six, eight) == Some(
            Err::<Seq<u8>, DcxError>(DcxError::OutOfBounds),
        ),
{
    let dca_size = i32_at(m, 72, true);
    let cc = i32_at(m, 104, true);
    let m2 = m.take(k);
    assert(m2.len() == k);
    if k < 0x2C {
        assert(classify_spec(m2) == Err::<CompressionType, DcxError>(DcxError::OutOfBounds));
    } else {
        assert(classify_spec(m2) == Ok::<CompressionType, DcxError>(CompressionType::DCX_EDGE));
        if k < 112 {
            assert(dcx_edge_spec(m2) == Err::<Seq<u8>, DcxError>(DcxError::OutOfBounds));
        } else {
            lemma_chunks_truncation(m, k, 112, 68 + dca_size, cc);
            assert(dcx_edge_spec(m2) == Err::<Seq<u8>, DcxError>(DcxError::OutOfBounds));
        }
    }
}

/// Truncated-buffer safety for the Kraken container: cutting a buffer whose
/// header validates anywhere before the end of its declared compressed span
/// makes the pipeline fail with `OutOfBounds`, whatever codec revisions are
/// present.
pub proof fn lemma_krak_truncation(m: Seq<u8>, k: int, six: bool, eight: bool)
    requires
        classify_spec(m) == Ok::<CompressionType, DcxError>(CompressionType::DCX_KRAK),
        krak_spec(m, 6) is Ok,
        0 <= k < 76 + i32_at(m, 32, true),
    ensures
        decompress_outcome(m.take(k), six, eight) == Some(
            Err::<Seq<u8>, DcxError>(DcxError::OutOfBounds),
        ),
{
    let m2 = m.take(k);
    assert(m2.len() == k);
    if k < 0x2C {
        assert(classify_spec(m2) == Err::<CompressionType, DcxError>(DcxError::OutOfBounds));
    } else {
        assert(classify_spec(m2) == Ok::<CompressionType, DcxError>(CompressionType::DCX_KRAK));
        assert(krak_spec(m2, 6) == Err::<Seq<u8>, DcxError>(DcxError::OutOfBounds));
    }
}

/// The byte positions of a Kraken container that hold fixed constants the
/// classifier never inspects, including the level hint byte: everything of
/// the fixed header but the magic, the "KRAK" sub-tag and the two declared
/// sizes.
pub open spec fn krak_decode_only_constant(p: int) -> bool {
    (4 <= p < 28) || (36 <= p < 40) || (44 <= p < 76)
}

/// Field validation rejects corruption of a Kraken container as well:
/// flipping any single constant byte that classification does not inspect
/// leaves the classification unchanged and fails the decode with
/// `FieldValidation` before the codec is ever consulted.
pub proof fn lemma_krak_corrupt_constant_rejected(m: Seq<u8>, p: int, b: u8, six: bool, eight: bool)
    requires
        classify_spec(m) == Ok::<CompressionType, DcxError>(CompressionType::DCX_KRAK),
        krak_spec(m, 6) is Ok,
        krak_decode_only_constant(p),
        p < m.len(),
        b != m[p],
    ensures
        classify_spec(m.update(p, b)) == classify_spec(m),
        decompress_outcome(m.update(p, b), six, eight) == Some(
            Err::<Seq<u8>, DcxError>(DcxError::FieldValidation),
        ),
{
    let m2 = m.update(p, b);
    assert(m2.len() == m.len());
    if 4 <= p < 8 {
        lemma_i32_field_changes(m, p, b, 4);
    } else if 8 <= p < 12 {
        lemma_i32_field_changes(m, p, b, 8);
    } else if 12 <= p < 16 {
        lemma_i32_field_changes(m, p, b, 12);
    } else if 16 <= p < 20 {
        lemma_i32_field_changes(m, p, b, 16);
    } else if 20 <= p < 24 {
        lemma_i32_field_changes(m, p, b, 20);
    } else if 44 <= p < 48 {
        lemma_i32_field_changes(m, p, b, 44);
    } else if 52 <= p < 56 {
        lemma_i32_field_changes(m, p, b, 52);
    } else if 56 <= p < 60 {
        lemma_i32_field_changes(m, p, b, 56);
    } else if 60 <= p < 64 {
        lemma_i32_field_changes(m, p, b, 60);
    } else if 64 <= p < 68 {
        lemma_i32_field_changes(m, p, b, 64);
    } else if 72 <= p < 76 {
        lemma_i32_field_changes(m, p, b, 72);
    }
    assert(classify_spec(m2) == classify_spec(m));
    assert(krak_spec(m2, 6) == Err::<Seq<u8>, DcxError>(DcxError::FieldValidation));
}

/// The fixed-offset byte positions of an inline-compression EDGE container
/// that hold constants the classifier never inspects: the six header fields,
/// the "DCS\0" tag and the reserved word before the data section.
pub open spec fn dcp_edge_decode_only_constant(p: int) -> bool {
    (8 <= p < 36) || (44 <= p < 48)
}

/// Field validation rejects corruption of the fixed leading header of an
/// inline-compression EDGE container: flipping any single constant byte the
/// classifier does not inspect leaves the classification unchanged and
/// fails the decode with `FieldValidation` before any chunk is touched.
pub proof fn lemma_dcp_edge_corrupt_constant_rejected(
    m: Seq<u8>,
    p: int,
    b: u8,
    six: bool,
    eight: bool,
)
    requires
        classify_spec(m) == Ok::<CompressionType, DcxError>(CompressionType::DCP_EDGE),
        dcp_edge_spec(m) is Ok,
        dcp_edge_decode_only_constant(p),
        p < m.len(),
        b != m[p],
    ensures
        classify_spec(m.update(p, b)) == classify_spec(m),
        decompress_outcome(m.update(p, b), six, eight) == Some(
            Err::<Seq<u8>, DcxError>(DcxError::FieldValidation),
        ),
{
    let m2 = m.update(p, b);
    assert(m2.len() == m.len());
    if 8 <= p < 12 {
        lemma_i32_field_changes(m, p, b, 8);
    } else if 12 <= p < 16 {
        lemma_i32_field_changes(m, p, b, 12);
    } else if 16 <= p < 20 {
        lemma_i32_field_changes(m, p, b, 16);
    } else if 20 <= p < 24 {
        lemma_i32_field_changes(m, p, b, 20);
    } else if 24 <= p < 28 {
        lemma_i32_field_changes(m, p, b, 24);
    } else if 28 <= p < 32 {
        lemma_i32_field_changes(m, p, b, 28);
    } else if 44 <= p < 48 {
        lemma_i32_field_changes(m, p, b, 44);
    }
    assert(classify_spec(m2) == classify_spec(m));
    assert(dcp_edge_spec(m2) == Err::<Seq<u8>, DcxError>(DcxError::FieldValidation));
}

/// The fixed-offset byte positions of an extended-header EDGE container
/// that hold constants the classifier never inspects: the outer and nested
/// header fields, the "DCS\0", "DCP\0", "DCA\0" and "EgdT" tags, and the
/// sub-header constants up to the trailing-chunk-size field.
pub open spec fn dcx_edge_decode_only_constant(p: int) -> bool {
    (4 <= p < 20) || (24 <= p < 28) || (36 <= p < 40) || (44 <= p < 72) || (76 <= p < 96) || (108
        <= p < 112)
}

/// The same corruption rule for the extended-header EDGE container, over its
/// fixed-offset constants.
#[verifier::rlimit(100)]
pub proof fn lemma_dcx_edge_corrupt_constant_rejected(
    m: Seq<u8>,
    p: int,
    b: u8,
    six: bool,
    eight: bool,
)
    requires
        classify_spec(m) == Ok::<CompressionType, DcxError>(CompressionType::DCX_EDGE),
        dcx_edge_spec(m) is Ok,
        dcx_edge_decode_only_constant(p),
        p < m.len(),
        b != m[p],
    ensures
        classify_spec(m.update(p, b)) == classify_spec(m),
        decompress_outcome(m.update(p, b), six, eight) == Some(
            Err::<Seq<u8>, DcxError>(DcxError::FieldValidation),
        ),
{
    let m2 = m.update(p, b);
    assert(m2.len() == m.len());
    if 4 <= p < 8 {
        lemma_i32_field_changes(m, p, b, 4);
    } else if 8 <= p < 12 {
        lemma_i32_field_changes(m, p, b, 8);
    } else if 12 <= p < 16 {
        lemma_i32_field_changes(m, p, b, 12);
    } else if 16 <= p < 20 {
        lemma_i32_field_changes(m, p, b, 16);
    } else if 44 <= p < 48 {
        lemma_i32_field_changes(m, p, b, 44);
    } else if 48 <= p < 52 {
        lemma_i32_field_changes(m, p, b, 48);
    } else if 52 <= p < 56 {
        lemma_i32_field_changes(m, p, b, 52);
    } else if 56 <= p < 60 {
        lemma_i32_field_changes(m, p, b, 56);
    } else if 60 <= p < 64 {
        lemma_i32_field_changes(m, p, b, 60);
    } else if 64 <= p < 68 {
        lemma_i32_field_changes(m, p, b, 64);
    } else if 80 <= p < 84 {
        lemma_i32_field_changes(m, p, b, 80);
    } else if 84 <= p < 88 {
        lemma_i32_field_changes(m, p, b, 84);
    } else if 88 <= p < 92 {
        lemma_i32_field_changes(m, p, b, 88);
    } else if 92 <= p < 96 {
        lemma_i32_field_changes(m, p, b, 92);
    } else if 108 <= p < 112 {
        lemma_i32_field_changes(m, p, b, 108);
    }
    assert(classify_spec(m2) == classify_spec(m));
    assert(dcx_edge_spec(m2) == Err::<Seq<u8>, DcxError>(DcxError::FieldValidation));
}

/// The outcome of the whole pipeline on a buffer, given which native codec
/// revisions are present: `Some` of the exact result wherever the buffer
/// alone decides it, `None` only for a valid Kraken container with a
/// selectable codec, where the result is whatever the host's codec produced.
pub open spec fn decompress_outcome(m: Seq<u8>, six: bool, eight: bool) -> Option<
    Result<Seq<u8>, DcxError>,
> {
    match classify_spec(m) {
        Err(e) => Some(Err(e)),
        Ok(v) => match v {
            CompressionType::Zlib => Some(read_zlib_spec(m, 0, m.len() as int)),
            CompressionType::DCP_EDGE => Some(dcp_edge_spec(m)),
            CompressionType::DCP_DFLT => Some(dcp_dflt_spec(m)),
            CompressionType::DCX_EDGE => Some(dcx_edge_spec(m)),
            CompressionType::DCX_DFLT_10000_24_9 => Some(dcx_dflt_spec(m, v)),
            CompressionType::DCX_DFLT_10000_44_9 => Some(dcx_dflt_spec(m, v)),
            CompressionType::DCX_DFLT_11000_44_8 => Some(dcx_dflt_spec(m, v)),
            CompressionType::DCX_DFLT_11000_44_9 => Some(dcx_dflt_spec(m, v)),
            CompressionType::DCX_DFLT_11000_44_9_15 => Some(dcx_dflt_spec(m, v)),
            CompressionType::DCX_KRAK => match krak_spec(m, 6) {
                Err(e) => Some(Err(e)),
                Ok(_) => match select_codec(6, six, eight) {
                    Err(e) => Some(Err(e)),
                    Ok(_) => None,
                },
            },
            _ => Some(Err(DcxError::UnknownContainerFormat)),
        },
    }
}

/// The container decompression pipeline: format sniffing, variant
/// classification, and one decode routine per variant.
pub struct DCX {}

impl DCX {
    /// The format sniff: the buffer is at least four bytes long and opens
    /// with one of the two container magics. Nothing is consumed.
    pub fn is(br: &mut BinaryReader) -> (r: bool)
        ensures
            *final(br) == *old(br),
            r == is_container(old(br).memory@),
    {
        if br.len() < 4 {
            return false;
        }
        let b0 = match br.get_byte(0) {
            Ok(b) => b,
            Err(_) => {
                return false;
            },
        };
        let b1 = match br.get_byte(1) {
            Ok(b) => b,
            Err(_) => {
                return false;
            },
        };
        let b2 = match br.get_byte(2) {
            Ok(b) => b,
            Err(_) => {
                return false;
            },
        };
        let b3 = match br.get_byte(3) {
            Ok(b) => b,
            Err(_) => {
                return false;
            },
        };
        b0 == 0x44 && b1 == 0x43 && (b2 == 0x50 || b2 == 0x58) && b3 == 0x00
    }

    /// Selects the compression variant of a container buffer by inspecting
    /// header fields at fixed offsets, without moving the cursor.
    pub fn classify(br: &mut BinaryReader) -> (r: Result<CompressionType, DcxError>)
        requires
            old(br).big_endian,
        ensures
            final(br).big_endian == old(br).big_endian,
            final(br).memory@ == old(br).memory@,
            final(br).steps@ == old(br).steps@,
            final(br).position == old(br).position,
            r == classify_spec(old(br).memory@),
    {
        if br.len() < 4 {
            return Err(DcxError::OutOfBounds);
        }
        let b0 = br.get_byte(0)?;
        let b1 = br.get_byte(1)?;
        let b2 = br.get_byte(2)?;
        let b3 = br.get_byte(3)?;
        if b0 == 0x44 && b1 == 0x43 && b2 == 0x50 && b3 == 0x00 {
            // "DCP\0": the secondary tag sits right behind the magic.
            let f0 = br.get_byte(4)?;
            let f1 = br.get_byte(5)?;
            let f2 = br.get_byte(6)?;
            let f3 = br.get_byte(7)?;
            if f0 == 0x45 && f1 == 0x44 && f2 == 0x47 && f3 == 0x45 {
                Ok(CompressionType::DCP_EDGE)
            } else if f0 == 0x44 && f1 == 0x46 && f2 == 0x4C && f3 == 0x54 {
                Ok(CompressionType::DCP_DFLT)
            } else {
                Ok(CompressionType::Unknown)
            }
        } else if b0 == 0x44 && b1 == 0x43 && b2 == 0x58 && b3 == 0x00 {
            // "DCX\0": the secondary tag sits at the fixed deeper offset.
            let f0 = br.get_byte(0x28)?;
            let f1 = br.get_byte(0x29)?;
            let f2 = br.get_byte(0x2A)?;
            let f3 = br.get_byte(0x2B)?;
            if f0 == 0x45 && f1 == 0x44 && f2 == 0x47 && f3 == 0x45 {
                Ok(CompressionType::DCX_EDGE)
            } else if f0 == 0x44 && f1 == 0x46 && f2 == 0x4C && f3 == 0x54 {
                let u04 = br.get_i32(0x4)?;
                let u10 = br.get_i32(0x10)?;
                let b30 = br.get_byte(0x30)?;
                let b38 = br.get_byte(0x38)?;
                if u04 == 0x10000 && u10 == 0x24 && b30 == 9 && b38 == 0 {
                    Ok(CompressionType::DCX_DFLT_10000_24_9)
                } else if u04 == 0x10000 && u10 == 0x44 && b30 == 9 && b38 == 0 {
                    Ok(CompressionType::DCX_DFLT_10000_44_9)
                } else if u04 == 0x11000 && u10 == 0x44 && b30 == 8 && b38 == 0 {
                    Ok(CompressionType::DCX_DFLT_11000_44_8)
                } else if u04 == 0x11000 && u10 == 0x44 && b30 == 9 && b38 == 0 {
                    Ok(CompressionType::DCX_DFLT_11000_44_9)
                } else if u04 == 0x11000 && u10 == 0x44 && b30 == 9 && b38 == 15 {
                    Ok(CompressionType::DCX_DFLT_11000_44_9_15)
                } else {
                    Ok(Self::heuristic(br))
                }
            } else if f0 == 0x4B && f1 == 0x52 && f2 == 0x41 && f3 == 0x4B {
                Ok(CompressionType::DCX_KRAK)
            } else {
                Ok(Self::heuristic(br))
            }
        } else {
            Err(DcxError::NotAContainer)
        }
    }

    /// Classifies the buffer and runs the matching decode routine from the
    /// buffer origin, recording the classified variant in `compression`.
    /// Wherever the buffer alone decides the outcome, the result is exactly
    /// `decompress_outcome`; only a valid Kraken container with a
    /// discoverable codec returns whatever the host's codec produced.
    pub fn decompress<C: OodleCompressor>(
        br: &mut BinaryReader,
        compression: &mut CompressionType,
        codec: &mut C,
    ) -> (r: Result<Vec<u8>, DcxError>)
        ensures
            final(br).memory@ == old(br).memory@,
            *final(compression) == classified(old(br).memory@),
            match decompress_outcome(
                old(br).memory@,
                old(codec).oodle6_available(),
                old(codec).oodle8_available(),
            ) {
                Some(out) => matches_bytes(r, out),
                None => r is Ok ==> r.unwrap()@.len() == i32_at(old(br).memory@, 28, true),
            },
    {
        br.big_endian = true;
        *compression = CompressionType::Unknown;
        let c = match Self::classify(br) {
            Ok(v) => v,
            Err(e) => {
                return Err(e);
            },
        };
        *compression = c;
        br.position = 0;
        match c {
            CompressionType::Zlib => {
                let compression_size = br.len();
                SFUtil::read_zlib(br, compression_size)
            },
            CompressionType::DCP_EDGE => Self::decompress_dcp_edge(br),
            CompressionType::DCP_DFLT => Self::decompress_dcp_dflt(br),
            CompressionType::DCX_EDGE => Self::decompress_dcx_edge(br),
            CompressionType::DCX_DFLT_10000_24_9
            | CompressionType::DCX_DFLT_10000_44_9
            | CompressionType::DCX_DFLT_11000_44_8
            | CompressionType::DCX_DFLT_11000_44_9
            | CompressionType::DCX_DFLT_11000_44_9_15 => {
                let chosen = *compression;
                Self::decompress_dcx_dflt(br, &chosen)
            },
            CompressionType::DCX_KRAK => Self::decompress_dcx_krak(br, Option::None, codec),
            _ => Err(DcxError::UnknownContainerFormat),
        }
    }

    /// Reads four bytes at the cursor and demands that they are exactly the
    /// given tag.
    fn check_tag(br: &mut BinaryReader, a: u8, b: u8, c: u8, d: u8) -> (r: Result<(), DcxError>)
        ensures
            final(br).big_endian == old(br).big_endian,
            final(br).memory@ == old(br).memory@,
            final(br).steps@ == old(br).steps@,
            match tag_err(old(br).memory@, old(br).position as int, a, b, c, d) {
                None => r == Ok::<(), DcxError>(()) && final(br).position == old(br).position + 4,
                Some(e) => r == Err::<(), DcxError>(e),
            },
    {
        let bytes = match br.read_bytes(4) {
            Ok(v) => v,
            Err(e) => {
                return Err(e);
            },
        };
        if bytes[0] == a && bytes[1] == b && bytes[2] == c && bytes[3] == d {
            Ok(())
        } else {
            Err(DcxError::FieldValidation)
        }
    }

    /// Reads a big-endian 32-bit field at the cursor and demands that it is
    /// exactly `v`.
    fn check_i32(br: &mut BinaryReader, v: i32) -> (r: Result<(), DcxError>)
        requires
            old(br).big_endian,
        ensures
            final(br).big_endian == old(br).big_endian,
            final(br).memory@ == old(br).memory@,
            final(br).steps@ == old(br).steps@,
            match i32_err(old(br).memory@, old(br).position as int, v as int) {
                None => r == Ok::<(), DcxError>(()) && final(br).position == old(br).position + 4,
                Some(e) => r == Err::<(), DcxError>(e),
            },
    {
        let value = match br.read_i32() {
            Ok(x) => x,
            Err(e) => {
                return Err(e);
            },
        };
        if value == v {
            Ok(())
        } else {
            Err(DcxError::FieldValidation)
        }
    }

    /// Reads one byte at the cursor and demands that it is exactly `v`.
    fn check_byte(br: &mut BinaryReader, v: u8) -> (r: Result<(), DcxError>)
        ensures
            final(br).big_endian == old(br).big_endian,
            final(br).memory@ == old(br).memory@,
            final(br).steps@ == old(br).steps@,
            match byte_err(old(br).memory@, old(br).position as int, v) {
                None => r == Ok::<(), DcxError>(()) && final(br).position == old(br).position + 1,
                Some(e) => r == Err::<(), DcxError>(e),
            },
    {
        let value = match br.read_byte() {
            Ok(x) => x,
            Err(e) => {
                return Err(e);
            },
        };
        if value == v {
            Ok(())
        } else {
            Err(DcxError::FieldValidation)
        }
    }

    /// Walks the chunk descriptor table at the cursor, applies every chunk
    /// in table order — fetching its bytes from `base` plus its declared
    /// offset and raw-inflating the ones whose flag says they are
    /// compressed — and pads the assembled output with zeros up to the
    /// declared uncompressed size where the chunks fall short of it.
    #[verifier::loop_isolation(false)]
    fn reconstruct_chunks(
        br: &mut BinaryReader,
        base: i64,
        chunk_count: i32,
        uncompressed_size: i32,
    ) -> (r: Result<Vec<u8>, DcxError>)
        requires
            old(br).big_endian,
            uncompressed_size >= 0,
            -0x200000000 <= base <= 0x200000000,
        ensures
            final(br).big_endian == old(br).big_endian,
            final(br).memory@ == old(br).memory@,
            final(br).steps@ == old(br).steps@,
            matches_bytes(
                r,
                match chunks_spec(
                    old(br).memory@,
                    old(br).position as int,
                    base as int,
                    chunk_count as int,
                ) {
                    Err(e) => Err(e),
                    Ok(s) => Ok(pad_to(s, uncompressed_size as int)),
                },
            ),
    {
        let ghost m = old(br).memory@;
        let ghost t0 = old(br).position as int;
        let n: i32 = if chunk_count < 0 {
            0
        } else {
            chunk_count
        };
        proof {
            if chunk_count <= 0 {
                assert(chunks_spec(m, t0, base as int, chunk_count as int) == Ok::<
                    Seq<u8>,
                    DcxError,
                >(Seq::<u8>::empty()));
                assert(chunks_spec(m, t0, base as int, n as int) == Ok::<Seq<u8>, DcxError>(
                    Seq::<u8>::empty(),
                ));
            }
        }
        let mut out: Vec<u8> = Vec::new();
        let mut i: i32 = 0;
        while i < n
            invariant
                0 <= i <= n,
                br.big_endian,
                br.memory@ == m,
                br.steps@ == old(br).steps@,
                br.position == t0 + 16 * i,
                match chunks_spec(m, t0 + 16 * i, base as int, (n - i) as int) {
                    Ok(rest) => chunks_spec(m, t0, base as int, n as int) == Ok::<Seq<u8>, DcxError>(
                        out@ + rest,
                    ),
                    Err(e) => chunks_spec(m, t0, base as int, n as int) == Err::<Seq<u8>, DcxError>(
                        e,
                    ),
                },
            decreases n - i,
        {
            let ghost ti = t0 + 16 * i;
            match Self::check_i32(br, 0) {
                Ok(()) => {},
                Err(e) => {
                    return Err(e);
                },
            }
            let offset = match br.read_i32() {
                Ok(x) => x,
                Err(e) => {
                    return Err(e);
                },
            };
            let size = match br.read_i32() {
                Ok(x) => x,
                Err(e) => {
                    return Err(e);
                },
            };
            let flag = match br.read_i32() {
                Ok(x) => x,
                Err(e) => {
                    return Err(e);
                },
            };
            if flag != 0 && flag != 1 {
                return Err(DcxError::FieldValidation);
            }
            if offset < 0 || size < 0 {
                return Err(DcxError::OutOfBounds);
            }
            let chunk_pos: i64 = base + (offset as i64);
            if chunk_pos < 0 {
                return Err(DcxError::OutOfBounds);
            }
            let total = br.len();
            if (chunk_pos as u64) > (total as u64) || (size as u64) > (total as u64) - (
            chunk_pos as u64) {
                return Err(DcxError::OutOfBounds);
            }
            let chunk = match br.get_bytes(chunk_pos as usize, size as usize) {
                Ok(v) => v,
                Err(e) => {
                    return Err(e);
                },
            };
            let ghost piece_spec = chunk_entry_spec(m, ti, base as int)->Ok_0;
            let ghost out_before = out@;
            if flag == 1 {
                let mut piece = match crate::sf_util::inflate_raw(chunk.as_slice()) {
                    Ok(p) => p,
                    Err(e) => {
                        return Err(e);
                    },
                };
                out.append(&mut piece);
            } else {
                let mut raw = chunk;
                out.append(&mut raw);
            }
            proof {
                assert(chunk_entry_spec(m, ti, base as int) == Ok::<Seq<u8>, DcxError>(piece_spec));
                assert(out@ == out_before + piece_spec);
                let suffix_next = chunks_spec(m, ti + 16, base as int, (n - i - 1) as int);
                if suffix_next is Ok {
                    let rest = suffix_next->Ok_0;
                    assert(out_before + (piece_spec + rest) =~= (out_before + piece_spec) + rest);
                }
            }
            i = i + 1;
        }
        proof {
            assert(chunks_spec(m, t0 + 16 * i, base as int, 0) == Ok::<Seq<u8>, DcxError>(
                Seq::<u8>::empty(),
            ));
            assert(out@ + Seq::<u8>::empty() =~= out@);
        }
        let target: usize = uncompressed_size as usize;
        let ghost concat = out@;
        while out.len() < target
            invariant
                concat.len() <= out@.len(),
                out@.len() <= concat.len() || out@.len() <= target,
                out@.subrange(0, concat.len() as int) == concat,
                forall|j: int| concat.len() <= j < out@.len() ==> out@[j] == 0u8,
            decreases target - out@.len(),
        {
            out.push(0u8);
            assert(out@.subrange(0, concat.len() as int) =~= concat);
        }
        proof {
            assert(out@ =~= pad_to(concat, target as int));
        }
        Ok(out)
    }

    /// Decodes an inline-compression EDGE container: a fixed header, the
    /// compressed data section, and a trailing "DCA\0"/"EgdT" sub-header
    /// whose chunk table reassembles the output, anchored at the start of
    /// the data section.
    fn decompress_dcp_edge(br: &mut BinaryReader) -> (r: Result<Vec<u8>, DcxError>)
        requires
            old(br).big_endian,
            old(br).position == 0,
        ensures
            final(br).big_endian == old(br).big_endian,
            final(br).memory@ == old(br).memory@,
            final(br).steps@ == old(br).steps@,
            matches_bytes(r, dcp_edge_spec(old(br).memory@)),
    {
        Self::check_tag(br, 0x44, 0x43, 0x50, 0x00)?;  // "DCP\0"
        Self::check_tag(br, 0x45, 0x44, 0x47, 0x45)?;  // "EDGE"
        Self::check_i32(br, 0x20)?;
        Self::check_i32(br, 0x9000000)?;
        Self::check_i32(br, 0x10000)?;
        Self::check_i32(br, 0)?;
        Self::check_i32(br, 0)?;
        Self::check_i32(br, 0x00100100)?;
        Self::check_tag(br, 0x44, 0x43, 0x53, 0x00)?;  // "DCS\0"
        let uncompressed_size = br.read_i32()?;
        let compressed_size = br.read_i32()?;
        if uncompressed_size < 0 || compressed_size < 0 {
            return Err(DcxError::OutOfBounds);
        }
        Self::check_i32(br, 0)?;
        let data_start = br.position;
        br.skip(compressed_size as usize)?;
        Self::check_tag(br, 0x44, 0x43, 0x41, 0x00)?;  // "DCA\0"
        let _dca_size = br.read_i32()?;
        Self::check_tag(br, 0x45, 0x67, 0x64, 0x54)?;  // "EgdT"
        Self::check_i32(br, 0x00010000)?;
        Self::check_i32(br, 0x20)?;
        Self::check_i32(br, 0x10)?;
        Self::check_i32(br, 0x10000)?;
        let egdt_size = br.read_i32()?;
        let chunk_count = br.read_i32()?;
        Self::check_i32(br, 0x100000)?;
        if (egdt_size as i64) != 0x20 + (chunk_count as i64) * 0x10 {
            return Err(DcxError::ChunkTableSizeMismatch);
        }
        Self::reconstruct_chunks(br, data_start as i64, chunk_count, uncompressed_size)
    }

    /// Decodes an extended-header EDGE container: two nested fixed headers,
    /// the trailing-chunk-size and chunk-region consistency checks, and the
    /// chunk table anchored at the end of the embedded "DCA\0" sub-header.
    fn decompress_dcx_edge(br: &mut BinaryReader) -> (r: Result<Vec<u8>, DcxError>)
        requires
            old(br).big_endian,
            old(br).position == 0,
        ensures
            final(br).big_endian == old(br).big_endian,
            final(br).memory@ == old(br).memory@,
            final(br).steps@ == old(br).steps@,
            matches_bytes(r, dcx_edge_spec(old(br).memory@)),
    {
        Self::check_tag(br, 0x44, 0x43, 0x58, 0x00)?;  // "DCX\0"
        Self::check_i32(br, 0x10000)?;
        Self::check_i32(br, 0x18)?;
        Self::check_i32(br, 0x24)?;
        Self::check_i32(br, 0x24)?;
        let unk1 = br.read_i32()?;
        Self::check_tag(br, 0x44, 0x43, 0x53, 0x00)?;  // "DCS\0"
        let uncompressed_size = br.read_i32()?;
        let _compressed_size = br.read_i32()?;
        if uncompressed_size < 0 {
            return Err(DcxError::OutOfBounds);
        }
        Self::check_tag(br, 0x44, 0x43, 0x50, 0x00)?;  // "DCP\0"
        Self::check_tag(br, 0x45, 0x44, 0x47, 0x45)?;  // "EDGE"
        Self::check_i32(br, 0x20)?;
        Self::check_i32(br, 0x9000000)?;
        Self::check_i32(br, 0x10000)?;
        Self::check_i32(br, 0)?;
        Self::check_i32(br, 0)?;
        Self::check_i32(br, 0x00100100)?;
        Self::check_tag(br, 0x44, 0x43, 0x41, 0x00)?;  // "DCA\0"
        let dca_size = br.read_i32()?;
        Self::check_tag(br, 0x45, 0x67, 0x64, 0x54)?;  // "EgdT"
        Self::check_i32(br, 0x00010100)?;
        Self::check_i32(br, 0x24)?;
        Self::check_i32(br, 0x10)?;
        Self::check_i32(br, 0x10000)?;
        let trailing = br.read_i32()?;
        if trailing != uncompressed_size % 0x10000 && trailing != 0x10000 {
            return Err(DcxError::UnexpectedTrailingChunkSize);
        }
        let egdt_size = br.read_i32()?;
        let chunk_count = br.read_i32()?;
        Self::check_i32(br, 0x100000)?;
        if (unk1 as i64) != 0x50 + (chunk_count as i64) * 0x10 {
            return Err(DcxError::UnexpectedChunkRegionSize);
        }
        if (egdt_size as i64) != 0x24 + (chunk_count as i64) * 0x10 {
            return Err(DcxError::ChunkTableSizeMismatch);
        }
        Self::reconstruct_chunks(br, 68 + (dca_size as i64), chunk_count, uncompressed_size)
    }

    /// Decodes an inline-compression DFLT container: a fixed header, one
    /// contiguous zlib stream, and a "DCA\0" trailer.
    fn decompress_dcp_dflt(br: &mut BinaryReader) -> (r: Result<Vec<u8>, DcxError>)
        requires
            old(br).big_endian,
            old(br).position == 0,
        ensures
            final(br).big_endian == old(br).big_endian,
            final(br).memory@ == old(br).memory@,
            final(br).steps@ == old(br).steps@,
            matches_bytes(r, dcp_dflt_spec(old(br).memory@)),
    {
        Self::check_tag(br, 0x44, 0x43, 0x50, 0x00)?;  // "DCP\0"
        Self::check_tag(br, 0x44, 0x46, 0x4C, 0x54)?;  // "DFLT"
        Self::check_i32(br, 0x20)?;
        Self::check_i32(br, 0x9000000)?;
        Self::check_i32(br, 0)?;
        Self::check_i32(br, 0)?;
        Self::check_i32(br, 0)?;
        Self::check_i32(br, 0x00010100)?;
        Self::check_tag(br, 0x44, 0x43, 0x53, 0x00)?;  // "DCS\0"
        let _uncompressed_size = br.read_i32()?;
        let compressed_size = br.read_i32()?;
        if compressed_size < 0 {
            return Err(DcxError::OutOfBounds);
        }
        let decompressed = SFUtil::read_zlib(br, compressed_size as usize)?;
        Self::check_tag(br, 0x44, 0x43, 0x41, 0x00)?;  // "DCA\0"
        Self::check_i32(br, 8)?;
        Ok(decompressed)
    }

    /// Decodes an extended-header DFLT container of the given shape,
    /// re-validating every fixed field already used for classification: a
    /// corrupt but accidentally classifiable buffer must still fail before
    /// decompression.
    fn decompress_dcx_dflt(br: &mut BinaryReader, compression: &CompressionType) -> (r: Result<
        Vec<u8>,
        DcxError,
    >)
        requires
            old(br).big_endian,
            old(br).position == 0,
            *compression == CompressionType::DCX_DFLT_10000_24_9 || *compression
                == CompressionType::DCX_DFLT_10000_44_9 || *compression
                == CompressionType::DCX_DFLT_11000_44_8 || *compression
                == CompressionType::DCX_DFLT_11000_44_9 || *compression
                == CompressionType::DCX_DFLT_11000_44_9_15,
        ensures
            final(br).big_endian == old(br).big_endian,
            final(br).memory@ == old(br).memory@,
            final(br).steps@ == old(br).steps@,
            matches_bytes(r, dcx_dflt_spec(old(br).memory@, *compression)),
    {
        let unk04: i32 = if *compression == CompressionType::DCX_DFLT_10000_24_9 || *compression
            == CompressionType::DCX_DFLT_10000_44_9 {
            0x10000
        } else {
            0x11000
        };
        let unk10: i32 = if *compression == CompressionType::DCX_DFLT_10000_24_9 {
            0x24
        } else {
            0x44
        };
        let unk14: i32 = if *compression == CompressionType::DCX_DFLT_10000_24_9 {
            0x2C
        } else {
            0x4C
        };
        let unk30: u8 = if *compression == CompressionType::DCX_DFLT_11000_44_8 {
            8
        } else {
            9
        };
        let unk38: u8 = if *compression == CompressionType::DCX_DFLT_11000_44_9_15 {
            15
        } else {
            0
        };
        Self::check_tag(br, 0x44, 0x43, 0x58, 0x00)?;  // "DCX\0"
        Self::check_i32(br, unk04)?;
        Self::check_i32(br, 0x18)?;
        Self::check_i32(br, 0x24)?;
        Self::check_i32(br, unk10)?;
        Self::check_i32(br, unk14)?;
        Self::check_tag(br, 0x44, 0x43, 0x53, 0x00)?;  // "DCS\0"
        let _uncompressed_size = br.read_i32()?;
        let compressed_size = br.read_i32()?;
        if compressed_size < 0 {
            return Err(DcxError::OutOfBounds);
        }
        Self::check_tag(br, 0x44, 0x43, 0x50, 0x00)?;  // "DCP\0"
        Self::check_tag(br, 0x44, 0x46, 0x4C, 0x54)?;  // "DFLT"
        Self::check_i32(br, 0x20)?;
        Self::check_byte(br, unk30)?;
        Self::check_byte(br, 0)?;
        Self::check_byte(br, 0)?;
        Self::check_byte(br, 0)?;
        Self::check_i32(br, 0)?;
        Self::check_byte(br, unk38)?;
        Self::check_byte(br, 0)?;
        Self::check_byte(br, 0)?;
        Self::check_byte(br, 0)?;
        Self::check_i32(br, 0)?;
        Self::check_i32(br, 0x00010100)?;
        Self::check_tag(br, 0x44, 0x43, 0x41, 0x00)?;  // "DCA\0"
        let _compressed_header_length = br.read_i32()?;
        SFUtil::read_zlib(br, compressed_size as usize)
    }

    /// Decodes a Kraken container: validates the fixed header, then hands
    /// the raw compressed span and the declared uncompressed size to
    /// whichever discoverable codec revision the policy selects for the
    /// requested level. With no revision present this fails with
    /// `CodecUnavailable`, and keeps failing until one appears.
    fn decompress_dcx_krak<C: OodleCompressor>(
        br: &mut BinaryReader,
        compression_level: Option<u8>,
        codec: &mut C,
    ) -> (r: Result<Vec<u8>, DcxError>)
        requires
            old(br).big_endian,
            old(br).position == 0,
        ensures
            final(br).big_endian == old(br).big_endian,
            final(br).memory@ == old(br).memory@,
            final(br).steps@ == old(br).steps@,
            krak_spec(old(br).memory@, level_of(compression_level)) is Err ==> r == Err::<
                Vec<u8>,
                DcxError,
            >(krak_spec(old(br).memory@, level_of(compression_level))->Err_0),
            krak_spec(old(br).memory@, level_of(compression_level)) is Ok && select_codec(
                level_of(compression_level) as int,
                old(codec).oodle6_available(),
                old(codec).oodle8_available(),
            ) is Err ==> r == Err::<Vec<u8>, DcxError>(DcxError::CodecUnavailable),
            r is Ok ==> r.unwrap()@.len() == i32_at(old(br).memory@, 28, true),
    {
        let level: u8 = match compression_level {
            Some(cl) => cl,
            None => 6,
        };
        Self::check_tag(br, 0x44, 0x43, 0x58, 0x00)?;  // "DCX\0"
        Self::check_i32(br, 0x11000)?;
        Self::check_i32(br, 0x18)?;
        Self::check_i32(br, 0x24)?;
        Self::check_i32(br, 0x44)?;
        Self::check_i32(br, 0x4C)?;
        Self::check_tag(br, 0x44, 0x43, 0x53, 0x00)?;  // "DCS\0"
        let uncompressed_size = br.read_i32()?;
        let compressed_size = br.read_i32()?;
        if uncompressed_size < 0 || compressed_size < 0 {
            return Err(DcxError::OutOfBounds);
        }
        Self::check_tag(br, 0x44, 0x43, 0x50, 0x00)?;  // "DCP\0"
        Self::check_tag(br, 0x4B, 0x52, 0x41, 0x4B)?;  // "KRAK"
        Self::check_i32(br, 0x20)?;
        Self::check_byte(br, level)?;
        Self::check_byte(br, 0)?;
        Self::check_byte(br, 0)?;
        Self::check_byte(br, 0)?;
        Self::check_i32(br, 0)?;
        Self::check_i32(br, 0)?;
        Self::check_i32(br, 0)?;
        Self::check_i32(br, 0x10100)?;
        Self::check_tag(br, 0x44, 0x43, 0x41, 0x00)?;  // "DCA\0"
        Self::check_i32(br, 8)?;
        let compressed = br.read_bytes(compressed_size as usize)?;
        let six = codec.can_use_oodle6();
        let eight = codec.can_use_oodle8();
        match Oodle::get_oodle_compressor(level as i32, six, eight) {
            Ok(revision) => codec.decompress(
                revision,
                compressed.as_slice(),
                uncompressed_size as usize,
            ),
            Err(e) => Err(e),
        }
    }

    /// The zlib heuristic over the first two raw bytes of the buffer.
    fn heuristic(br: &mut BinaryReader) -> (r: CompressionType)
        requires
            old(br).memory@.len() >= 2,
        ensures
            *final(br) == *old(br),
            r == zlib_heuristic(old(br).memory@),
    {
        let b0 = match br.get_byte(0) {
            Ok(b) => b,
            Err(_) => {
                return CompressionType::Unknown;
            },
        };
        let b1 = match br.get_byte(1) {
            Ok(b) => b,
            Err(_) => {
                return CompressionType::Unknown;
            },
        };
        if b0 == 0x78 && (b1 == 0x01 || b1 == 0x5E || b1 == 0x9C || b1 == 0xDA) {
            CompressionType::Zlib
        } else {
            CompressionType::Unknown
        }
    }
}

/// The caller-facing operation: sniff the buffer, classify it and decode it,
/// returning the decompressed bytes or the first typed failure. A buffer
/// that carries neither container magic fails with `NotAContainer`.
pub fn decompress_container<C: OodleCompressor>(bytes: Vec<u8>, codec: &mut C) -> (r: Result<
    Vec<u8>,
    DcxError,
>)
    ensures
        !is_container(bytes@) ==> r == Err::<Vec<u8>, DcxError>(DcxError::NotAContainer),
        is_container(bytes@) ==> match decompress_outcome(
            bytes@,
            old(codec).oodle6_available(),
            old(codec).oodle8_available(),
        ) {
            Some(out) => matches_bytes(r, out),
            None => r is Ok ==> r.unwrap()@.len() == i32_at(bytes@, 28, true),
        },
{
    let mut br = BinaryReader::new(false, bytes);
    if !DCX::is(&mut br) {
        return Err(DcxError::NotAContainer);
    }
    let mut compression = CompressionType::Unknown;
    DCX::decompress(&mut br, &mut compression, codec)
}

} // verus!
