use dcx::BinaryReader;
use dcx::DcxError;

#[test]
fn new_reader_starts_at_origin() {
    let mut br = BinaryReader::new(true, vec![1, 2, 3]);
    assert_eq!(br.position, 0);
    assert!(br.big_endian);
    assert_eq!(br.len(), 3);
}

#[test]
fn read_byte_advances_and_stops_at_end() {
    let mut br = BinaryReader::new(false, vec![10, 20]);
    assert_eq!(br.read_byte(), Ok(10));
    assert_eq!(br.read_byte(), Ok(20));
    assert_eq!(br.read_byte(), Err(DcxError::OutOfBounds));
    assert_eq!(br.position, 2);
}

#[test]
fn read_i32_big_endian() {
    let mut br = BinaryReader::new(true, vec![0x00, 0x01, 0x00, 0x00]);
    assert_eq!(br.read_i32(), Ok(0x10000));
}

#[test]
fn read_i32_little_endian() {
    let mut br = BinaryReader::new(false, vec![0x00, 0x00, 0x01, 0x00]);
    assert_eq!(br.read_i32(), Ok(0x10000));
}

#[test]
fn read_i32_negative_value() {
    let mut br = BinaryReader::new(true, vec![0xFF, 0xFF, 0xFF, 0xFE]);
    assert_eq!(br.read_i32(), Ok(-2));
}

#[test]
fn read_i32_short_buffer_is_out_of_bounds() {
    let mut br = BinaryReader::new(true, vec![1, 2, 3]);
    assert_eq!(br.read_i32(), Err(DcxError::OutOfBounds));
    assert_eq!(br.position, 0);
}

#[test]
fn skip_moves_and_checks_bounds() {
    let mut br = BinaryReader::new(true, vec![0; 8]);
    assert_eq!(br.skip(5), Ok(()));
    assert_eq!(br.position, 5);
    assert_eq!(br.skip(4), Err(DcxError::OutOfBounds));
    assert_eq!(br.position, 5);
}

#[test]
fn get_reads_do_not_move_the_cursor() {
    let mut br = BinaryReader::new(true, vec![0xAB, 0x00, 0x00, 0x00, 0x07]);
    br.position = 1;
    assert_eq!(br.get_byte(0), Ok(0xAB));
    assert_eq!(br.get_i32(1), Ok(7));
    assert_eq!(br.get_bytes(0, 2).unwrap(), vec![0xAB, 0x00]);
    assert_eq!(br.position, 1);
    assert_eq!(br.get_byte(5), Err(DcxError::OutOfBounds));
    assert_eq!(br.get_i32(2), Err(DcxError::OutOfBounds));
}

#[test]
fn read_bytes_returns_the_span() {
    let mut br = BinaryReader::new(true, vec![1, 2, 3, 4, 5]);
    br.position = 1;
    assert_eq!(br.read_bytes(3).unwrap(), vec![2, 3, 4]);
    assert_eq!(br.position, 4);
    assert_eq!(br.read_bytes(2), Err(DcxError::OutOfBounds));
}

#[test]
fn step_in_and_out_restore_the_position() {
    let mut br = BinaryReader::new(true, vec![0; 16]);
    br.position = 3;
    br.step_in(10);
    assert_eq!(br.position, 10);
    br.step_in(12);
    assert_eq!(br.position, 12);
    assert_eq!(br.step_out(), Ok(()));
    assert_eq!(br.position, 10);
    assert_eq!(br.step_out(), Ok(()));
    assert_eq!(br.position, 3);
}

#[test]
fn step_out_with_empty_stack_underflows() {
    let mut br = BinaryReader::new(true, vec![0; 4]);
    assert_eq!(br.step_out(), Err(DcxError::CursorStackUnderflow));
}

#[test]
fn assert_value_accepts_listed_values_only() {
    let mut br = BinaryReader::new(true, vec![]);
    assert_eq!(br.assert_value(5, &[1, 5, 9]), Ok(5));
    assert_eq!(br.assert_value(7, &[1, 5, 9]), Err(DcxError::FieldValidation));
}

#[test]
fn assert_byte_validates_the_read_byte() {
    let mut br = BinaryReader::new(true, vec![0x78, 0x9C]);
    assert_eq!(br.assert_byte(&[0x78]), Ok(0x78));
    assert_eq!(br.assert_byte(&[0x01, 0x5E, 0x9C, 0xDA]), Ok(0x9C));
    assert_eq!(br.assert_byte(&[0x01]), Err(DcxError::OutOfBounds));
}

#[test]
fn assert_i32_validates_the_read_field() {
    let mut br = BinaryReader::new(true, vec![0x00, 0x00, 0x00, 0x20, 0x00, 0x00, 0x00, 0x21]);
    assert_eq!(br.assert_i32(&[0x20]), Ok(0x20));
    assert_eq!(br.assert_i32(&[0x20]), Err(DcxError::FieldValidation));
}

#[test]
fn read_ascii_decodes_ascii_bytes() {
    let mut br = BinaryReader::new(true, vec![0x44, 0x43, 0x50, 0x00, 0xFF]);
    assert_eq!(br.read_ascii(4).unwrap(), "DCP\0");
    assert_eq!(br.position, 4);
    assert_eq!(br.read_ascii(1), Err(DcxError::FieldValidation));
}

#[test]
fn get_ascii_reads_at_an_offset_without_moving() {
    let mut br = BinaryReader::new(true, vec![0x44, 0x43, 0x58, 0x00, 0x45, 0x44, 0x47, 0x45]);
    assert_eq!(br.get_ascii(4, 4).unwrap(), "EDGE");
    assert_eq!(br.position, 0);
    assert_eq!(br.get_ascii(6, 4), Err(DcxError::OutOfBounds));
}

#[test]
fn assert_ascii_matches_a_candidate_tag() {
    let mut br = BinaryReader::new(true, vec![0x44, 0x43, 0x50, 0x00, 0x44, 0x46, 0x4C, 0x54]);
    assert_eq!(br.assert_ascii(&["DCP\0", "DCX\0"]).unwrap(), "DCP\0");
    assert_eq!(br.assert_ascii(&["EDGE"]), Err(DcxError::FieldValidation));
}

#[test]
fn get_value_reads_at_an_offset_and_restores() {
    let mut br = BinaryReader::new(true, vec![0, 0, 0, 9, 7]);
    br.position = 1;
    let v = br.get_value(0, |r: &mut BinaryReader| r.read_i32());
    assert_eq!(v, Ok(9));
    assert_eq!(br.position, 1);
}

#[test]
fn read_ascii_decodes_multibyte_utf8() {
    // 0xC3 0xA9 is the two-byte UTF-8 encoding of one character.
    let mut br = BinaryReader::new(true, vec![0xC3, 0xA9, 0x21]);
    assert_eq!(br.read_ascii(2).unwrap(), "\u{e9}");
    assert_eq!(br.position, 2);
    assert_eq!(br.read_ascii(1).unwrap(), "!");
}

#[test]
fn get_ascii_rejects_invalid_utf8() {
    let mut br = BinaryReader::new(true, vec![0x41, 0xC3, 0x28]);
    assert_eq!(br.get_ascii(0, 1).unwrap(), "A");
    assert_eq!(br.get_ascii(1, 2), Err(DcxError::FieldValidation));
}
