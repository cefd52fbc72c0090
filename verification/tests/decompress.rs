use std::io::Write;

use dcx::BinaryReader;
use dcx::CodecRevision;
use dcx::CompressionType;
use dcx::DCX;
use dcx::DcxError;
use dcx::OodleCompressor;
use dcx::SFUtil;
use dcx::decompress_container;

/// A host environment with no native Kraken backend.
struct NoCodec;

impl OodleCompressor for NoCodec {
    fn oodle6_available(&self) -> bool {
        false
    }

    fn oodle8_available(&self) -> bool {
        false
    }

    fn can_use_oodle6(&self) -> bool {
        false
    }

    fn can_use_oodle8(&self) -> bool {
        false
    }

    fn decompress(
        &mut self,
        _revision: CodecRevision,
        _source: &[u8],
        _uncompressed_size: usize,
    ) -> Result<Vec<u8>, DcxError> {
        Err(DcxError::CodecUnavailable)
    }
}

fn be32(v: i32) -> [u8; 4] {
    v.to_be_bytes()
}

fn zlib_compress(plain: &[u8]) -> Vec<u8> {
    let mut enc = flate2::write::ZlibEncoder::new(Vec::new(), flate2::Compression::new(6));
    enc.write_all(plain).unwrap();
    enc.finish().unwrap()
}

fn deflate_compress(plain: &[u8]) -> Vec<u8> {
    let mut enc = flate2::write::DeflateEncoder::new(Vec::new(), flate2::Compression::new(6));
    enc.write_all(plain).unwrap();
    enc.finish().unwrap()
}

/// The compressed section every inline-deflate shape embeds: a two-byte
/// zlib header in front of a complete zlib stream.
fn zlib_section(plain: &[u8]) -> Vec<u8> {
    let mut section = vec![0x78, 0x9C];
    section.extend_from_slice(&zlib_compress(plain));
    section
}

fn build_dcp_dflt(plain: &[u8]) -> Vec<u8> {
    let section = zlib_section(plain);
    let mut buf = Vec::new();
    buf.extend_from_slice(b"DCP\0");
    buf.extend_from_slice(b"DFLT");
    for v in [0x20, 0x9000000, 0, 0, 0, 0x00010100] {
        buf.extend_from_slice(&be32(v));
    }
    buf.extend_from_slice(b"DCS\0");
    buf.extend_from_slice(&be32(plain.len() as i32));
    buf.extend_from_slice(&be32(section.len() as i32));
    buf.extend_from_slice(&section);
    buf.extend_from_slice(b"DCA\0");
    buf.extend_from_slice(&be32(8));
    buf
}

fn build_dcx_dflt(plain: &[u8], u04: i32, u10: i32, u14: i32, u30: u8, u38: u8) -> Vec<u8> {
    let section = zlib_section(plain);
    let mut buf = Vec::new();
    buf.extend_from_slice(b"DCX\0");
    for v in [u04, 0x18, 0x24, u10, u14] {
        buf.extend_from_slice(&be32(v));
    }
    buf.extend_from_slice(b"DCS\0");
    buf.extend_from_slice(&be32(plain.len() as i32));
    buf.extend_from_slice(&be32(section.len() as i32));
    buf.extend_from_slice(b"DCP\0");
    buf.extend_from_slice(b"DFLT");
    buf.extend_from_slice(&be32(0x20));
    buf.extend_from_slice(&[u30, 0, 0, 0]);
    buf.extend_from_slice(&be32(0));
    buf.extend_from_slice(&[u38, 0, 0, 0]);
    buf.extend_from_slice(&be32(0));
    buf.extend_from_slice(&be32(0x00010100));
    buf.extend_from_slice(b"DCA\0");
    buf.extend_from_slice(&be32(8));
    buf.extend_from_slice(&section);
    buf
}

/// One chunk of an EDGE container: its payload as stored, and whether that
/// payload is a headerless deflate block.
struct Chunk {
    stored: Vec<u8>,
    offset: i32,
    compressed: bool,
}

/// Lays the stored chunk spans into a data section in the given physical
/// order, assigning each chunk its offset.
fn lay_out_chunks(chunks: &mut [Chunk], physical_order: &[usize]) -> Vec<u8> {
    let mut data = Vec::new();
    for &ix in physical_order {
        chunks[ix].offset = data.len() as i32;
        let stored = chunks[ix].stored.clone();
        data.extend_from_slice(&stored);
    }
    data
}

fn chunk_table(chunks: &[Chunk]) -> Vec<u8> {
    let mut table = Vec::new();
    for c in chunks {
        table.extend_from_slice(&be32(0));
        table.extend_from_slice(&be32(c.offset));
        table.extend_from_slice(&be32(c.stored.len() as i32));
        table.extend_from_slice(&be32(if c.compressed { 1 } else { 0 }));
    }
    table
}

fn build_dcp_edge(uncompressed_size: i32, chunks: &[Chunk], data: &[u8]) -> Vec<u8> {
    let n = chunks.len() as i32;
    let mut buf = Vec::new();
    buf.extend_from_slice(b"DCP\0");
    buf.extend_from_slice(b"EDGE");
    for v in [0x20, 0x9000000, 0x10000, 0, 0, 0x00100100] {
        buf.extend_from_slice(&be32(v));
    }
    buf.extend_from_slice(b"DCS\0");
    buf.extend_from_slice(&be32(uncompressed_size));
    buf.extend_from_slice(&be32(data.len() as i32));
    buf.extend_from_slice(&be32(0));
    buf.extend_from_slice(data);
    buf.extend_from_slice(b"DCA\0");
    buf.extend_from_slice(&be32(0x20 + n * 0x10));
    buf.extend_from_slice(b"EgdT");
    for v in [0x00010000, 0x20, 0x10, 0x10000] {
        buf.extend_from_slice(&be32(v));
    }
    buf.extend_from_slice(&be32(0x20 + n * 0x10));
    buf.extend_from_slice(&be32(n));
    buf.extend_from_slice(&be32(0x100000));
    buf.extend_from_slice(&chunk_table(chunks));
    buf
}

fn build_dcx_edge(uncompressed_size: i32, chunks: &[Chunk], data: &[u8]) -> Vec<u8> {
    let n = chunks.len() as i32;
    let trailing = if uncompressed_size % 0x10000 == 0 {
        0x10000
    } else {
        uncompressed_size % 0x10000
    };
    let mut buf = Vec::new();
    buf.extend_from_slice(b"DCX\0");
    for v in [0x10000, 0x18, 0x24, 0x24, 0x50 + n * 0x10] {
        buf.extend_from_slice(&be32(v));
    }
    buf.extend_from_slice(b"DCS\0");
    buf.extend_from_slice(&be32(uncompressed_size));
    buf.extend_from_slice(&be32(data.len() as i32));
    buf.extend_from_slice(b"DCP\0");
    buf.extend_from_slice(b"EDGE");
    for v in [0x20, 0x9000000, 0x10000, 0, 0, 0x00100100] {
        buf.extend_from_slice(&be32(v));
    }
    // The embedded sub-header runs from "DCA\0" to the end of the chunk
    // table; its declared size anchors the chunk offsets right behind it.
    buf.extend_from_slice(b"DCA\0");
    buf.extend_from_slice(&be32(44 + n * 0x10));
    buf.extend_from_slice(b"EgdT");
    for v in [0x00010100, 0x24, 0x10, 0x10000] {
        buf.extend_from_slice(&be32(v));
    }
    buf.extend_from_slice(&be32(trailing));
    buf.extend_from_slice(&be32(0x24 + n * 0x10));
    buf.extend_from_slice(&be32(n));
    buf.extend_from_slice(&be32(0x100000));
    buf.extend_from_slice(&chunk_table(chunks));
    buf.extend_from_slice(data);
    buf
}

fn decode(buf: &[u8]) -> Result<Vec<u8>, DcxError> {
    let mut codec = NoCodec;
    decompress_container(buf.to_vec(), &mut codec)
}

#[test]
fn sniff_accepts_both_magics_only() {
    let mut br = BinaryReader::new(false, b"DCP\0rest".to_vec());
    assert!(DCX::is(&mut br));
    let mut br = BinaryReader::new(false, b"DCX\0rest".to_vec());
    assert!(DCX::is(&mut br));
    let mut br = BinaryReader::new(false, b"BND4rest".to_vec());
    assert!(!DCX::is(&mut br));
    let mut br = BinaryReader::new(false, b"DC".to_vec());
    assert!(!DCX::is(&mut br));
}

#[test]
fn not_a_container_is_rejected_up_front() {
    assert_eq!(decode(b"plain text"), Err(DcxError::NotAContainer));
    assert_eq!(decode(b""), Err(DcxError::NotAContainer));
}

#[test]
fn classify_recognizes_every_header_shape() {
    let plain = b"classified";
    let cases: Vec<(Vec<u8>, CompressionType)> = vec![
        (build_dcp_dflt(plain), CompressionType::DCP_DFLT),
        (build_dcx_dflt(plain, 0x10000, 0x24, 0x2C, 9, 0), CompressionType::DCX_DFLT_10000_24_9),
        (build_dcx_dflt(plain, 0x10000, 0x44, 0x4C, 9, 0), CompressionType::DCX_DFLT_10000_44_9),
        (build_dcx_dflt(plain, 0x11000, 0x44, 0x4C, 8, 0), CompressionType::DCX_DFLT_11000_44_8),
        (build_dcx_dflt(plain, 0x11000, 0x44, 0x4C, 9, 0), CompressionType::DCX_DFLT_11000_44_9),
        (
            build_dcx_dflt(plain, 0x11000, 0x44, 0x4C, 9, 15),
            CompressionType::DCX_DFLT_11000_44_9_15,
        ),
    ];
    for (buf, want) in cases {
        let mut br = BinaryReader::new(true, buf);
        assert_eq!(DCX::classify(&mut br).unwrap(), want);
    }
}

#[test]
fn classify_yields_unknown_for_unrecognized_shapes() {
    // A recognized magic with an alien sub-tag.
    let mut buf = b"DCX\0".to_vec();
    buf.resize(0x28, 0);
    buf.extend_from_slice(b"ZZZZ");
    buf.resize(0x40, 0);
    let mut br = BinaryReader::new(true, buf.clone());
    assert_eq!(DCX::classify(&mut br).unwrap(), CompressionType::Unknown);
    assert_eq!(decode(&buf), Err(DcxError::UnknownContainerFormat));

    // An unmatched tuning-field combination under the "DFLT" sub-tag.
    let tweaked = {
        let mut b = build_dcx_dflt(b"x", 0x11000, 0x44, 0x4C, 9, 0);
        b[0x30] = 7;
        b
    };
    let mut br = BinaryReader::new(true, tweaked.clone());
    assert_eq!(DCX::classify(&mut br).unwrap(), CompressionType::Unknown);
    assert_eq!(decode(&tweaked), Err(DcxError::UnknownContainerFormat));
}

#[test]
fn classify_needs_the_classification_fields_in_bounds() {
    let mut br = BinaryReader::new(true, b"DCX\0short".to_vec());
    assert_eq!(DCX::classify(&mut br), Err(DcxError::OutOfBounds));
    let mut br = BinaryReader::new(true, b"DCP".to_vec());
    assert_eq!(DCX::classify(&mut br), Err(DcxError::OutOfBounds));
}

#[test]
fn round_trip_dcp_dflt() {
    let plain = b"The quick brown fox jumps over the lazy dog".to_vec();
    assert_eq!(decode(&build_dcp_dflt(&plain)).unwrap(), plain);
}

#[test]
fn round_trip_every_dcx_dflt_shape() {
    let plain = b"seven header shapes, one deflate stream".to_vec();
    let shapes = [
        (0x10000, 0x24, 0x2C, 9u8, 0u8),
        (0x10000, 0x44, 0x4C, 9, 0),
        (0x11000, 0x44, 0x4C, 8, 0),
        (0x11000, 0x44, 0x4C, 9, 0),
        (0x11000, 0x44, 0x4C, 9, 15),
    ];
    for (u04, u10, u14, u30, u38) in shapes {
        let buf = build_dcx_dflt(&plain, u04, u10, u14, u30, u38);
        assert_eq!(decode(&buf).unwrap(), plain);
    }
}

#[test]
fn round_trip_raw_zlib_stream() {
    let plain = b"a bare zlib stream with its marker bytes".to_vec();
    let section = zlib_section(&plain);
    let mut br = BinaryReader::new(true, section.clone());
    assert_eq!(SFUtil::read_zlib(&mut br, section.len()).unwrap(), plain);
}

#[test]
fn read_zlib_rejects_a_bad_header_pair() {
    let mut br = BinaryReader::new(true, vec![0x79, 0x9C, 0, 0]);
    assert_eq!(SFUtil::read_zlib(&mut br, 4), Err(DcxError::FieldValidation));
    let mut br = BinaryReader::new(true, vec![0x78, 0x9D, 0, 0]);
    assert_eq!(SFUtil::read_zlib(&mut br, 4), Err(DcxError::FieldValidation));
}

#[test]
fn read_zlib_rejects_a_corrupt_stream() {
    let plain = b"corrupt me".to_vec();
    let mut section = zlib_section(&plain);
    let last = section.len() - 1;
    section[last] ^= 0xFF;
    section[last - 1] ^= 0xFF;
    let mut br = BinaryReader::new(true, section.clone());
    assert_eq!(SFUtil::read_zlib(&mut br, section.len()), Err(DcxError::ChecksumOrStream));
}

#[test]
fn chunk_reconstruction_keeps_table_order() {
    // Chunk 0 raw "AAA", chunk 1 deflate-compressed "BBBBBB", chunk 2 raw
    // "C"; stored physically as 1, 2, 0 to show the table order governs.
    let mut chunks = vec![
        Chunk { stored: b"AAA".to_vec(), offset: 0, compressed: false },
        Chunk { stored: deflate_compress(b"BBBBBB"), offset: 0, compressed: true },
        Chunk { stored: b"C".to_vec(), offset: 0, compressed: false },
    ];
    let data = lay_out_chunks(&mut chunks, &[1, 2, 0]);
    let expected = b"AAABBBBBBC".to_vec();

    let dcp = build_dcp_edge(expected.len() as i32, &chunks, &data);
    assert_eq!(decode(&dcp).unwrap(), expected);

    let dcx = build_dcx_edge(expected.len() as i32, &chunks, &data);
    assert_eq!(decode(&dcx).unwrap(), expected);
}

#[test]
fn chunk_reconstruction_pads_short_output_with_zeros() {
    let mut chunks = vec![Chunk { stored: b"AB".to_vec(), offset: 0, compressed: false }];
    let data = lay_out_chunks(&mut chunks, &[0]);
    let buf = build_dcp_edge(4, &chunks, &data);
    assert_eq!(decode(&buf).unwrap(), vec![0x41, 0x42, 0, 0]);
}

#[test]
fn chunk_table_size_mismatch_is_fatal() {
    let mut chunks = vec![Chunk { stored: b"AAA".to_vec(), offset: 0, compressed: false }];
    let data = lay_out_chunks(&mut chunks, &[0]);

    let mut dcp = build_dcp_edge(3, &chunks, &data);
    // The sub-header size field sits 12 bytes before the end of the table.
    let egdt_at = dcp.len() - 16 - 12;
    dcp[egdt_at..egdt_at + 4].copy_from_slice(&be32(0x21 + 0x10));
    assert_eq!(decode(&dcp), Err(DcxError::ChunkTableSizeMismatch));

    let mut dcxb = build_dcx_edge(3, &chunks, &data);
    let egdt_at = 100;
    dcxb[egdt_at..egdt_at + 4].copy_from_slice(&be32(0x25 + 0x10));
    assert_eq!(decode(&dcxb), Err(DcxError::ChunkTableSizeMismatch));
}

#[test]
fn chunk_region_size_mismatch_is_fatal() {
    let mut chunks = vec![Chunk { stored: b"AAA".to_vec(), offset: 0, compressed: false }];
    let data = lay_out_chunks(&mut chunks, &[0]);
    let mut buf = build_dcx_edge(3, &chunks, &data);
    buf[20..24].copy_from_slice(&be32(0x51 + 0x10));
    assert_eq!(decode(&buf), Err(DcxError::UnexpectedChunkRegionSize));
}

#[test]
fn trailing_chunk_size_mismatch_is_fatal() {
    let mut chunks = vec![Chunk { stored: b"AAA".to_vec(), offset: 0, compressed: false }];
    let data = lay_out_chunks(&mut chunks, &[0]);
    let mut buf = build_dcx_edge(3, &chunks, &data);
    buf[96..100].copy_from_slice(&be32(5));
    assert_eq!(decode(&buf), Err(DcxError::UnexpectedTrailingChunkSize));
}

#[test]
fn chunk_with_corrupt_deflate_block_is_a_stream_error() {
    // A headerless deflate block may not use the reserved block type.
    let mut chunks = vec![Chunk { stored: vec![0xFF, 0xFF, 0xFF, 0xFF], offset: 0, compressed: true }];
    let data = lay_out_chunks(&mut chunks, &[0]);
    let buf = build_dcp_edge(4, &chunks, &data);
    assert_eq!(decode(&buf), Err(DcxError::ChecksumOrStream));
}

#[test]
fn chunk_flag_other_than_zero_or_one_is_rejected() {
    let mut chunks = vec![Chunk { stored: b"AAA".to_vec(), offset: 0, compressed: false }];
    let data = lay_out_chunks(&mut chunks, &[0]);
    let mut buf = build_dcp_edge(3, &chunks, &data);
    let flag_at = buf.len() - 4;
    buf[flag_at..].copy_from_slice(&be32(2));
    assert_eq!(decode(&buf), Err(DcxError::FieldValidation));
}

#[test]
fn field_validation_rejects_flipped_constants() {
    let plain = b"validated".to_vec();
    let buf = build_dcx_dflt(&plain, 0x11000, 0x44, 0x4C, 9, 0);
    // Every one of these offsets holds a fixed constant that classification
    // never reads; corrupting any of them must fail field validation, never
    // decode.
    let flips: [usize; 10] = [8, 12, 20, 25, 37, 47, 49, 57, 64, 68];
    for at in flips {
        let mut bad = buf.clone();
        bad[at] ^= 0x01;
        assert_eq!(decode(&bad), Err(DcxError::FieldValidation), "flip at {}", at);
    }
    // The zlib stream marker behind the header is a fixed constant too.
    let mut bad = buf.clone();
    bad[76] = 0x79;
    assert_eq!(decode(&bad), Err(DcxError::FieldValidation));
}

#[test]
fn field_validation_rejects_flipped_trailer_in_dcp_dflt() {
    let plain = b"trailer".to_vec();
    let buf = build_dcp_dflt(&plain);
    let mut bad = buf.clone();
    let dca_at = buf.len() - 8;
    bad[dca_at] ^= 0x01;
    assert_eq!(decode(&bad), Err(DcxError::FieldValidation));
}

#[test]
fn truncation_anywhere_is_out_of_bounds_for_dcx_dflt() {
    let plain = b"truncate everything once".to_vec();
    let buf = build_dcx_dflt(&plain, 0x11000, 0x44, 0x4C, 9, 0);
    let mut codec = NoCodec;
    for k in 0..buf.len() {
        let mut br = BinaryReader::new(false, buf[..k].to_vec());
        let mut compression = CompressionType::Unknown;
        let got = DCX::decompress(&mut br, &mut compression, &mut codec);
        assert_eq!(got, Err(DcxError::OutOfBounds), "truncated at {}", k);
    }
}

#[test]
fn truncation_anywhere_is_out_of_bounds_for_edge() {
    let mut chunks = vec![
        Chunk { stored: b"AAA".to_vec(), offset: 0, compressed: false },
        Chunk { stored: deflate_compress(b"BBBBBB"), offset: 0, compressed: true },
    ];
    let data = lay_out_chunks(&mut chunks, &[0, 1]);
    let buf = build_dcp_edge(9, &chunks, &data);
    let mut codec = NoCodec;
    for k in 0..buf.len() {
        let mut br = BinaryReader::new(false, buf[..k].to_vec());
        let mut compression = CompressionType::Unknown;
        let got = DCX::decompress(&mut br, &mut compression, &mut codec);
        assert_eq!(got, Err(DcxError::OutOfBounds), "truncated at {}", k);
    }
}

#[test]
fn decompress_records_the_classified_variant() {
    let plain = b"recorded".to_vec();
    let buf = build_dcp_dflt(&plain);
    let mut br = BinaryReader::new(false, buf);
    let mut compression = CompressionType::Unknown;
    let mut codec = NoCodec;
    let got = DCX::decompress(&mut br, &mut compression, &mut codec).unwrap();
    assert_eq!(got, plain);
    assert_eq!(compression, CompressionType::DCP_DFLT);
}

#[test]
fn decompress_if_neccessary_replaces_the_buffer_in_place() {
    let plain = b"in place".to_vec();
    let buf = build_dcp_dflt(&plain);
    let mut br = BinaryReader::new(false, buf);
    let mut compression = CompressionType::Unknown;
    let mut codec = NoCodec;
    SFUtil::decompress_if_neccessary(&mut br, &mut compression, &mut codec).unwrap();
    assert_eq!(br.memory, plain);
    assert_eq!(compression, CompressionType::DCP_DFLT);
}

#[test]
fn decompress_if_neccessary_leaves_other_buffers_alone() {
    let raw = b"no container here".to_vec();
    let mut br = BinaryReader::new(false, raw.clone());
    let mut compression = CompressionType::Unknown;
    let mut codec = NoCodec;
    SFUtil::decompress_if_neccessary(&mut br, &mut compression, &mut codec).unwrap();
    assert_eq!(br.memory, raw);
    assert_eq!(compression, CompressionType::NoCompression);
}

#[test]
fn field_validation_rejects_flipped_constants_in_edge() {
    let mut chunks = vec![Chunk { stored: b"EDGE DATA".to_vec(), offset: 0, compressed: false }];
    let data = lay_out_chunks(&mut chunks, &[0]);
    let buf = build_dcp_edge(9, &chunks, &data);
    // Constants the classifier never reads: the fixed header fields, the
    // "DCS\0" tag, the reserved word before the data section, and the
    // "EgdT" tag behind it.
    let egdt_tag_at = 48 + data.len() + 8;
    let flips = [8, 13, 25, 33, 45, egdt_tag_at];
    for at in flips {
        let mut bad = buf.clone();
        bad[at] ^= 0x01;
        assert_eq!(decode(&bad), Err(DcxError::FieldValidation), "flip at {}", at);
    }
}
