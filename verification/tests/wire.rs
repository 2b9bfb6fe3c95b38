use csgo_server::{byte, float, long, long_long, short, string, DecodeError, Reader};

#[test]
fn byte_reads_one_and_moves_on() {
    let data = [7u8, 9];
    let mut r = Reader::new(&data);
    assert_eq!(byte(&mut r), Ok(7));
    assert_eq!(r.len(), 1);
    assert_eq!(byte(&mut r), Ok(9));
    assert_eq!(byte(&mut r), Err(DecodeError::UnexpectedEnd));
    assert_eq!(r.len(), 0);
}

#[test]
fn short_is_little_endian_and_signed() {
    let data = [0x87u8, 0x69, 0xFF, 0xFF, 0x00, 0x80, 0x01];
    let mut r = Reader::new(&data);
    assert_eq!(short(&mut r), Ok(27015));
    assert_eq!(short(&mut r), Ok(-1));
    assert_eq!(short(&mut r), Ok(i16::MIN));
    assert_eq!(short(&mut r), Err(DecodeError::UnexpectedEnd));
    assert_eq!(r.len(), 1);
}

#[test]
fn long_is_little_endian_and_signed() {
    let data = [0x1Du8, 0, 0, 0, 0xFE, 0xFF, 0xFF, 0xFF, 0, 0, 0, 0x80, 1, 2, 3];
    let mut r = Reader::new(&data);
    assert_eq!(long(&mut r), Ok(29));
    assert_eq!(long(&mut r), Ok(-2));
    assert_eq!(long(&mut r), Ok(i32::MIN));
    assert_eq!(long(&mut r), Err(DecodeError::UnexpectedEnd));
    assert_eq!(r.len(), 3);
}

#[test]
fn long_long_is_little_endian() {
    let data = [0x08u8, 0x07, 0x06, 0x05, 0x04, 0x03, 0x02, 0x01, 0xFF];
    let mut r = Reader::new(&data);
    assert_eq!(long_long(&mut r), Ok(0x0102_0304_0506_0708));
    assert_eq!(long_long(&mut r), Err(DecodeError::UnexpectedEnd));
    let top = [0xFFu8; 8];
    assert_eq!(long_long(&mut Reader::new(&top)), Ok(u64::MAX));
}

#[test]
fn float_gives_the_bits_of_the_single() {
    let data = [0x00u8, 0x00, 0x80, 0x3F, 0xCC, 0x61, 0xAF, 0x46, 0x00];
    let mut r = Reader::new(&data);
    let one = float(&mut r).unwrap();
    assert_eq!(one, 0x3F80_0000);
    assert_eq!(f32::from_bits(one), 1.0);
    let long_stay = float(&mut r).unwrap();
    assert_eq!(f32::from_bits(long_stay), 22448.8984375);
    assert_eq!(float(&mut r), Err(DecodeError::UnexpectedEnd));
}

#[test]
fn string_stops_at_the_terminator() {
    let data = b"dz_ember\0next\0";
    let mut r = Reader::new(data);
    assert_eq!(string(&mut r), Ok(String::from("dz_ember")));
    assert_eq!(r.len(), 5);
    assert_eq!(string(&mut r), Ok(String::from("next")));
    assert_eq!(r.len(), 0);
}

#[test]
fn string_may_be_empty() {
    let data = [0u8, 1];
    let mut r = Reader::new(&data);
    assert_eq!(string(&mut r), Ok(String::new()));
    assert_eq!(r.len(), 1);
}

#[test]
fn string_decodes_multibyte_text() {
    // "$till™" then a terminator: the trade mark sign takes three bytes.
    let data = [36u8, 116, 105, 108, 108, 226, 132, 162, 0];
    let mut r = Reader::new(&data);
    let s = string(&mut r).unwrap();
    assert_eq!(s, "$till\u{2122}");
    assert_eq!(s.chars().count(), 6);
}

#[test]
fn string_without_terminator_is_cut_short() {
    let data = b"dz_emb";
    let mut r = Reader::new(data);
    assert_eq!(string(&mut r), Err(DecodeError::UnexpectedEnd));
    assert_eq!(r.len(), 6);
    assert_eq!(string(&mut Reader::new(&[])), Err(DecodeError::UnexpectedEnd));
}

#[test]
fn string_rejects_invalid_utf8() {
    let data = [b'a', 0xFF, b'b', 0, 5];
    let mut r = Reader::new(&data);
    assert_eq!(string(&mut r), Err(DecodeError::InvalidUtf8));
    assert_eq!(r.len(), 5);
    // A lone continuation byte, and a sequence cut before its end.
    assert_eq!(string(&mut Reader::new(&[0x80, 0])), Err(DecodeError::InvalidUtf8));
    assert_eq!(string(&mut Reader::new(&[0xE2, 0x84, 0])), Err(DecodeError::InvalidUtf8));
}

#[test]
fn advance_skips_or_fails_in_place() {
    let data = [1u8, 2, 3, 4, 5, 6];
    let mut r = Reader::new(&data);
    assert_eq!(r.advance(5), Ok(()));
    assert_eq!(byte(&mut r), Ok(6));
    assert_eq!(r.advance(1), Err(DecodeError::UnexpectedEnd));
    assert_eq!(r.advance(0), Ok(()));
}
