use nbs::error::NbsErrorKind;
use nbs::io::write_flag;
use nbs::io::write_i16;
use nbs::io::write_i32;
use nbs::io::write_i8;
use nbs::io::write_string;
use nbs::io::ByteReader;

#[test]
fn i16_is_written_low_byte_first() {
    let mut out = Vec::new();
    write_i16(&mut out, 0x1234);
    assert_eq!(out, vec![0x34, 0x12]);
}

#[test]
fn negative_i16_is_written_in_twos_complement() {
    let mut out = Vec::new();
    write_i16(&mut out, -2);
    write_i16(&mut out, i16::MIN);
    write_i16(&mut out, i16::MAX);
    assert_eq!(out, vec![0xfe, 0xff, 0x00, 0x80, 0xff, 0x7f]);
}

#[test]
fn i32_is_written_low_byte_first() {
    let mut out = Vec::new();
    write_i32(&mut out, 0x0102_0304);
    write_i32(&mut out, -1_000_000);
    assert_eq!(out, vec![0x04, 0x03, 0x02, 0x01, 0xc0, 0xbd, 0xf0, 0xff]);
}

#[test]
fn i8_and_flags_take_one_byte() {
    let mut out = Vec::new();
    write_i8(&mut out, -1);
    write_i8(&mut out, 100);
    write_flag(&mut out, true);
    write_flag(&mut out, false);
    assert_eq!(out, vec![0xff, 100, 1, 0]);
}

#[test]
fn writes_append_to_what_is_there() {
    let mut out = vec![9u8, 9];
    write_i16(&mut out, 1);
    assert_eq!(out, vec![9, 9, 1, 0]);
}

#[test]
fn i16_is_read_low_byte_first() {
    let data = [0x34u8, 0x12, 0xfe, 0xff, 0x00, 0x80];
    let mut reader = ByteReader::new(&data);
    assert_eq!(reader.read_i16().unwrap(), 0x1234);
    assert_eq!(reader.read_i16().unwrap(), -2);
    assert_eq!(reader.read_i16().unwrap(), i16::MIN);
}

#[test]
fn i32_is_read_low_byte_first() {
    let data = [0x04u8, 0x03, 0x02, 0x01, 0xc0, 0xbd, 0xf0, 0xff];
    let mut reader = ByteReader::new(&data);
    assert_eq!(reader.read_i32().unwrap(), 0x0102_0304);
    assert_eq!(reader.read_i32().unwrap(), -1_000_000);
}

#[test]
fn i8_is_read_as_a_signed_byte() {
    let data = [0xffu8, 0x7f, 0x80, 0x00];
    let mut reader = ByteReader::new(&data);
    assert_eq!(reader.read_i8().unwrap(), -1);
    assert_eq!(reader.read_i8().unwrap(), 127);
    assert_eq!(reader.read_i8().unwrap(), -128);
    assert_eq!(reader.read_i8().unwrap(), 0);
}

#[test]
fn only_the_byte_one_is_a_true_flag() {
    let data = [1u8, 0, 2, 0xff];
    let mut reader = ByteReader::new(&data);
    assert!(reader.read_flag().unwrap());
    assert!(!reader.read_flag().unwrap());
    assert!(!reader.read_flag().unwrap());
    assert!(!reader.read_flag().unwrap());
}

#[test]
fn every_integer_survives_writing_and_reading() {
    let mut out = Vec::new();
    for v in [i16::MIN, -300, -1, 0, 1, 255, 256, i16::MAX] {
        write_i16(&mut out, v);
    }
    for v in [i32::MIN, -70_000, -1, 0, 1, 65_536, 16_777_216, i32::MAX] {
        write_i32(&mut out, v);
    }
    for v in [i8::MIN, -1, 0, 1, i8::MAX] {
        write_i8(&mut out, v);
    }
    let mut reader = ByteReader::new(&out);
    for v in [i16::MIN, -300, -1, 0, 1, 255, 256, i16::MAX] {
        assert_eq!(reader.read_i16().unwrap(), v);
    }
    for v in [i32::MIN, -70_000, -1, 0, 1, 65_536, 16_777_216, i32::MAX] {
        assert_eq!(reader.read_i32().unwrap(), v);
    }
    for v in [i8::MIN, -1, 0, 1, i8::MAX] {
        assert_eq!(reader.read_i8().unwrap(), v);
    }
    assert_eq!(reader.read_i8().unwrap_err().kind(), NbsErrorKind::IoError);
}

#[test]
fn a_source_that_ends_inside_a_field_is_an_io_error() {
    let data = [1u8];
    let mut reader = ByteReader::new(&data);
    assert_eq!(reader.read_i16().unwrap_err().kind(), NbsErrorKind::IoError);
    assert_eq!(reader.read_i32().unwrap_err().kind(), NbsErrorKind::IoError);
    assert_eq!(reader.read_i8().unwrap(), 1);
    assert_eq!(reader.read_i8().unwrap_err().kind(), NbsErrorKind::IoError);
    assert_eq!(reader.read_flag().unwrap_err().kind(), NbsErrorKind::IoError);
}

#[test]
fn the_io_error_of_a_short_source_is_an_unexpected_end() {
    let data = [1u8];
    let mut reader = ByteReader::new(&data);
    match reader.read_i16().unwrap_err() {
        nbs::error::NbsError::IoError(e) => {
            assert_eq!(e.kind(), std::io::ErrorKind::UnexpectedEof)
        }
        other => panic!("an io error was expected, not {:?}", other),
    }
}

#[test]
fn a_failed_read_leaves_the_reader_in_place() {
    let data = [7u8, 0, 0];
    let mut reader = ByteReader::new(&data);
    assert!(reader.read_i32().is_err());
    assert_eq!(reader.read_i16().unwrap(), 7);
    assert!(reader.read_i16().is_err());
    assert_eq!(reader.read_i8().unwrap(), 0);
}

#[test]
fn a_string_is_written_behind_its_length() {
    let mut out = Vec::new();
    write_string(&mut out, "abc").unwrap();
    assert_eq!(out, vec![3, 0, 0, 0, b'a', b'b', b'c']);
}

#[test]
fn the_length_of_a_string_counts_bytes() {
    let mut out = Vec::new();
    write_string(&mut out, "h\u{e9}\u{20ac}").unwrap();
    assert_eq!(out, vec![6, 0, 0, 0, b'h', 0xc3, 0xa9, 0xe2, 0x82, 0xac]);
}

#[test]
fn a_string_is_read_behind_its_length() {
    let data = [6u8, 0, 0, 0, b'h', 0xc3, 0xa9, 0xe2, 0x82, 0xac, 42];
    let mut reader = ByteReader::new(&data);
    assert_eq!(reader.read_string().unwrap(), "h\u{e9}\u{20ac}");
    assert_eq!(reader.read_i8().unwrap(), 42);
}

#[test]
fn a_string_of_length_zero_is_empty() {
    let data = [0u8, 0, 0, 0, 5];
    let mut reader = ByteReader::new(&data);
    assert_eq!(reader.read_string().unwrap(), "");
    assert_eq!(reader.read_i8().unwrap(), 5);
}

#[test]
fn an_empty_string_is_written_as_its_length_alone() {
    let mut out = Vec::new();
    write_string(&mut out, "").unwrap();
    assert_eq!(out, vec![0, 0, 0, 0]);
}

#[test]
fn bytes_that_are_no_utf8_are_a_string_error() {
    let data = [2u8, 0, 0, 0, 0xff, 0xfe, 1];
    let mut reader = ByteReader::new(&data);
    assert_eq!(reader.read_string().unwrap_err().kind(), NbsErrorKind::InvalidString);
    assert_eq!(reader.read_i32().unwrap(), 2);
}

#[test]
fn a_truncated_multi_byte_character_is_a_string_error() {
    let data = [1u8, 0, 0, 0, 0xc3, 0xa9];
    let mut reader = ByteReader::new(&data);
    assert_eq!(reader.read_string().unwrap_err().kind(), NbsErrorKind::InvalidString);
}

#[test]
fn a_negative_string_length_is_malformed() {
    let data = [0xffu8, 0xff, 0xff, 0xff, b'a'];
    let mut reader = ByteReader::new(&data);
    assert_eq!(reader.read_string().unwrap_err().kind(), NbsErrorKind::InvalidFormat);
}

#[test]
fn a_string_longer_than_the_source_is_an_io_error() {
    let data = [4u8, 0, 0, 0, b'a', b'b', b'c'];
    let mut reader = ByteReader::new(&data);
    assert_eq!(reader.read_string().unwrap_err().kind(), NbsErrorKind::IoError);
    let short = [4u8, 0, 0];
    let mut reader = ByteReader::new(&short);
    assert_eq!(reader.read_string().unwrap_err().kind(), NbsErrorKind::IoError);
}

#[test]
fn strings_survive_writing_and_reading() {
    let mut out = Vec::new();
    for s in ["", "plain", "\u{1f3b5} notes \u{1f3b6}", "\u{0}", "a\nb"] {
        write_string(&mut out, s).unwrap();
    }
    let mut reader = ByteReader::new(&out);
    for s in ["", "plain", "\u{1f3b5} notes \u{1f3b6}", "\u{0}", "a\nb"] {
        assert_eq!(reader.read_string().unwrap(), s);
    }
}
