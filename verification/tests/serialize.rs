use lifx::serialize::ByteDecoder;
use lifx::serialize::ByteEncoder;
use lifx::serialize::DecodeError;

fn written(write: fn(&mut ByteEncoder)) -> Vec<u8> {
    let mut s = ByteEncoder::new();
    write(&mut s);
    s.into_bytes()
}

#[test]
fn new_encoder_is_empty() {
    let s = ByteEncoder::new();
    assert_eq!(s.len(), 0);
    assert_eq!(s.into_bytes(), Vec::<u8>::new());
}

#[test]
fn unsigned_integers_are_little_endian() {
    assert_eq!(written(|s| s.emit_u8(0xab)), vec![0xab]);
    assert_eq!(written(|s| s.emit_u16(0x1234)), vec![0x34, 0x12]);
    assert_eq!(written(|s| s.emit_u32(0x12345678)), vec![0x78, 0x56, 0x34, 0x12]);
    assert_eq!(
        written(|s| s.emit_u64(0x0102030405060708)),
        vec![0x08, 0x07, 0x06, 0x05, 0x04, 0x03, 0x02, 0x01]
    );
    assert_eq!(written(|s| s.emit_u16(0)), vec![0, 0]);
    assert_eq!(written(|s| s.emit_u16(u16::MAX)), vec![0xff, 0xff]);
    assert_eq!(written(|s| s.emit_u64(u64::MAX)), vec![0xff; 8]);
}

#[test]
fn signed_integers_are_twos_complement() {
    assert_eq!(written(|s| s.emit_i8(-1)), vec![0xff]);
    assert_eq!(written(|s| s.emit_i8(-128)), vec![0x80]);
    assert_eq!(written(|s| s.emit_i8(127)), vec![0x7f]);
    assert_eq!(written(|s| s.emit_i16(-2)), vec![0xfe, 0xff]);
    assert_eq!(written(|s| s.emit_i16(0x0102)), vec![0x02, 0x01]);
    assert_eq!(written(|s| s.emit_i32(-1)), vec![0xff; 4]);
    assert_eq!(written(|s| s.emit_i32(i32::MIN)), vec![0, 0, 0, 0x80]);
    assert_eq!(written(|s| s.emit_i64(-1000)), (-1000i64).to_le_bytes().to_vec());
    assert_eq!(written(|s| s.emit_i64(i64::MIN)), vec![0, 0, 0, 0, 0, 0, 0, 0x80]);
}

#[test]
fn machine_words_take_their_own_width() {
    assert_eq!(written(|s| s.emit_usize(0x0102)), 0x0102usize.to_le_bytes().to_vec());
    assert_eq!(written(|s| s.emit_isize(-3)), (-3isize).to_le_bytes().to_vec());
    let bytes = usize::MAX.to_le_bytes();
    let mut d = ByteDecoder::new(&bytes);
    assert_eq!(d.read_usize(), Ok(usize::MAX));
    let bytes = (-3isize).to_le_bytes();
    let mut d = ByteDecoder::new(&bytes);
    assert_eq!(d.read_isize(), Ok(-3));
    let mut d = ByteDecoder::new(&bytes[1..]);
    assert_eq!(d.read_isize(), Err(DecodeError::UnexpectedEnd));
    assert_eq!(d.read_usize(), Err(DecodeError::UnexpectedEnd));
}

#[test]
fn bool_nil_and_none() {
    assert_eq!(written(|s| s.emit_bool(true)), vec![1]);
    assert_eq!(written(|s| s.emit_bool(false)), vec![0]);
    assert_eq!(written(|s| s.emit_nil()), Vec::<u8>::new());
    assert_eq!(written(|s| s.emit_option_none()), vec![0]);
    assert_eq!(written(|s| s.emit_bytes(&[9, 8, 7])), vec![9, 8, 7]);
}

#[test]
fn fields_lie_back_to_back() {
    let mut s = ByteEncoder::new();
    s.emit_u8(1);
    s.emit_u16(2);
    s.emit_bytes(&[3, 3]);
    s.emit_u32(4);
    assert_eq!(s.len(), 9);
    assert_eq!(s.into_bytes(), vec![1, 2, 0, 3, 3, 4, 0, 0, 0]);
}

#[test]
fn reads_invert_writes() {
    let mut s = ByteEncoder::new();
    s.emit_u8(0xab);
    s.emit_u16(0x1234);
    s.emit_u32(0xdeadbeef);
    s.emit_u64(0x0102030405060708);
    s.emit_i8(-5);
    s.emit_i16(-1000);
    s.emit_i32(-100000);
    s.emit_i64(-10000000000);
    s.emit_bool(true);
    s.emit_bool(false);
    let bytes = s.into_bytes();
    let mut d = ByteDecoder::new(&bytes);
    assert_eq!(d.unread(), bytes.len());
    assert_eq!(d.read_u8(), Ok(0xab));
    assert_eq!(d.read_u16(), Ok(0x1234));
    assert_eq!(d.read_u32(), Ok(0xdeadbeef));
    assert_eq!(d.read_u64(), Ok(0x0102030405060708));
    assert_eq!(d.read_i8(), Ok(-5));
    assert_eq!(d.read_i16(), Ok(-1000));
    assert_eq!(d.read_i32(), Ok(-100000));
    assert_eq!(d.read_i64(), Ok(-10000000000));
    assert_eq!(d.read_bool(), Ok(true));
    assert_eq!(d.read_bool(), Ok(false));
    assert_eq!(d.read_nil(), Ok(()));
    assert_eq!(d.unread(), 0);
}

#[test]
fn read_of_given_bytes() {
    let bytes = [0x34, 0x12, 0x78, 0x56, 0x34, 0x12, 0xff, 0xff, 0x02];
    let mut d = ByteDecoder::new(&bytes);
    assert_eq!(d.read_u16(), Ok(0x1234));
    assert_eq!(d.read_u32(), Ok(0x12345678));
    assert_eq!(d.read_i16(), Ok(-1));
    assert_eq!(d.read_bool(), Ok(true));
}

#[test]
fn a_read_that_fails_reads_nothing() {
    let bytes = [1, 2, 3];
    let mut d = ByteDecoder::new(&bytes);
    assert_eq!(d.read_u32(), Err(DecodeError::UnexpectedEnd));
    assert_eq!(d.read_i32(), Err(DecodeError::UnexpectedEnd));
    assert_eq!(d.read_u64(), Err(DecodeError::UnexpectedEnd));
    assert_eq!(d.read_i64(), Err(DecodeError::UnexpectedEnd));
    assert_eq!(d.unread(), 3);
    assert_eq!(d.read_bytes(4), Err(DecodeError::UnexpectedEnd));
    assert_eq!(d.read_u16(), Ok(0x0201));
    assert_eq!(d.read_u16(), Err(DecodeError::UnexpectedEnd));
    assert_eq!(d.read_i16(), Err(DecodeError::UnexpectedEnd));
    assert_eq!(d.unread(), 1);
    assert_eq!(d.read_u8(), Ok(3));
    assert_eq!(d.read_u8(), Err(DecodeError::UnexpectedEnd));
    assert_eq!(d.read_i8(), Err(DecodeError::UnexpectedEnd));
    assert_eq!(d.read_bool(), Err(DecodeError::UnexpectedEnd));
    assert_eq!(d.read_char(), Err(DecodeError::UnexpectedEnd));
    assert_eq!(d.read_str(), Err(DecodeError::UnexpectedEnd));
    assert_eq!(d.read_bytes(0), Ok(&bytes[3..]));
}

#[test]
fn read_bytes_hands_out_the_input() {
    let bytes = [1, 2, 3, 4, 5];
    let mut d = ByteDecoder::new(&bytes);
    assert_eq!(d.read_bytes(2), Ok(&bytes[0..2]));
    assert_eq!(d.read_bytes(3), Ok(&bytes[2..5]));
    assert_eq!(d.unread(), 0);
}

#[test]
fn chars_are_utf8() {
    let mut s = ByteEncoder::new();
    s.emit_char('a');
    s.emit_char('\u{e9}');
    s.emit_char('\u{20ac}');
    s.emit_char('\u{1f600}');
    s.emit_char('\0');
    s.emit_char('\u{7f}');
    s.emit_char('\u{80}');
    s.emit_char('\u{7ff}');
    s.emit_char('\u{800}');
    s.emit_char('\u{ffff}');
    s.emit_char('\u{10000}');
    s.emit_char('\u{10ffff}');
    let bytes = s.into_bytes();
    assert_eq!(bytes, "a\u{e9}\u{20ac}\u{1f600}\0\u{7f}\u{80}\u{7ff}\u{800}\u{ffff}\u{10000}\u{10ffff}".as_bytes());
    assert_eq!(&bytes[..10], &[0x61, 0xc3, 0xa9, 0xe2, 0x82, 0xac, 0xf0, 0x9f, 0x98, 0x80]);
    let mut d = ByteDecoder::new(&bytes);
    assert_eq!(d.read_char(), Ok('a'));
    assert_eq!(d.read_char(), Ok('\u{e9}'));
    assert_eq!(d.read_char(), Ok('\u{20ac}'));
    assert_eq!(d.read_char(), Ok('\u{1f600}'));
    assert_eq!(d.read_char(), Ok('\0'));
    assert_eq!(d.read_char(), Ok('\u{7f}'));
    assert_eq!(d.read_char(), Ok('\u{80}'));
    assert_eq!(d.read_char(), Ok('\u{7ff}'));
    assert_eq!(d.read_char(), Ok('\u{800}'));
    assert_eq!(d.read_char(), Ok('\u{ffff}'));
    assert_eq!(d.read_char(), Ok('\u{10000}'));
    assert_eq!(d.read_char(), Ok('\u{10ffff}'));
    assert_eq!(d.unread(), 0);
}

#[test]
fn every_char_round_trips() {
    let mut code: u32 = 0;
    while code <= 0x10ffff {
        if let Some(c) = char::from_u32(code) {
            let mut s = ByteEncoder::new();
            s.emit_char(c);
            let bytes = s.into_bytes();
            assert_eq!(bytes, c.to_string().as_bytes());
            let mut d = ByteDecoder::new(&bytes);
            assert_eq!(d.read_char(), Ok(c));
            assert_eq!(d.unread(), 0);
        }
        code += if code < 0x3000 { 1 } else { 97 };
    }
}

#[test]
fn read_char_with_first_byte_reads_the_rest() {
    let bytes = [0xa9, 0x82, 0xac, 0x9f, 0x98, 0x80];
    let mut d = ByteDecoder::new(&bytes);
    assert_eq!(d.read_char_with_first_byte(0x41), Ok('A'));
    assert_eq!(d.unread(), 6);
    assert_eq!(d.read_char_with_first_byte(0xc3), Ok('\u{e9}'));
    assert_eq!(d.unread(), 5);
    assert_eq!(d.read_char_with_first_byte(0xe2), Ok('\u{20ac}'));
    assert_eq!(d.unread(), 3);
    assert_eq!(d.read_char_with_first_byte(0xf0), Ok('\u{1f600}'));
    assert_eq!(d.unread(), 0);
}

#[test]
fn bytes_that_begin_no_char_are_refused() {
    let bytes = [0x80, 0x80, 0x80, 0x80, 0x80];
    for first in [0x80u8, 0xbf, 0xf8, 0xfb, 0xfc, 0xfe, 0xff] {
        let mut d = ByteDecoder::new(&bytes);
        assert_eq!(d.read_char_with_first_byte(first), Err(DecodeError::InvalidText));
        assert_eq!(d.unread(), 5);
    }
}

#[test]
fn a_char_cut_short_is_an_unexpected_end() {
    let mut d = ByteDecoder::new(&[]);
    assert_eq!(d.read_char_with_first_byte(0xc3), Err(DecodeError::UnexpectedEnd));
    let bytes = [0x82];
    let mut d = ByteDecoder::new(&bytes);
    assert_eq!(d.read_char_with_first_byte(0xe2), Err(DecodeError::UnexpectedEnd));
    assert_eq!(d.unread(), 1);
    let bytes = [0xf0, 0x9f, 0x98];
    let mut d = ByteDecoder::new(&bytes);
    assert_eq!(d.read_char(), Err(DecodeError::UnexpectedEnd));
    assert_eq!(d.unread(), 3);
}

#[test]
fn malformed_chars_are_refused() {
    let cases: [&[u8]; 8] = [
        &[0xc3, 0x41],             // no continuation byte
        &[0xc0, 0x80],             // two bytes for U+0000
        &[0xc1, 0xbf],             // two bytes for U+007F
        &[0xe0, 0x80, 0x80],       // three bytes for U+0000
        &[0xed, 0xa0, 0x80],       // a surrogate
        &[0xf0, 0x80, 0x80, 0x80], // four bytes for U+0000
        &[0xf4, 0x90, 0x80, 0x80], // beyond U+10FFFF
        &[0xe2, 0x82, 0x00],       // zero byte in place of a continuation byte
    ];
    for bytes in cases.iter() {
        let mut d = ByteDecoder::new(bytes);
        assert_eq!(d.read_char(), Err(DecodeError::InvalidText), "{:?}", bytes);
        assert_eq!(d.unread(), bytes.len());
    }
}

#[test]
fn strings_end_with_a_zero_byte() {
    let mut s = ByteEncoder::new();
    s.emit_str("hi");
    s.emit_str("");
    s.emit_str("gr\u{fc}n \u{1f4a1}");
    s.emit_u8(7);
    let bytes = s.into_bytes();
    assert_eq!(&bytes[..4], &[b'h', b'i', 0, 0]);
    assert_eq!(bytes.len(), 3 + 1 + 11 + 1);
    let mut d = ByteDecoder::new(&bytes);
    assert_eq!(d.read_str(), Ok("hi".to_string()));
    assert_eq!(d.read_str(), Ok("".to_string()));
    assert_eq!(d.read_str(), Ok("gr\u{fc}n \u{1f4a1}".to_string()));
    assert_eq!(d.read_u8(), Ok(7));
}

#[test]
fn a_string_without_end_is_an_unexpected_end() {
    let mut d = ByteDecoder::new(b"abc");
    assert_eq!(d.read_str(), Err(DecodeError::UnexpectedEnd));
    assert_eq!(d.unread(), 3);
    assert_eq!(d.read_u8(), Ok(b'a'));
}

#[test]
fn a_string_that_is_not_utf8_is_refused() {
    let bytes = [b'a', 0xff, b'b', 0];
    let mut d = ByteDecoder::new(&bytes);
    assert_eq!(d.read_str(), Err(DecodeError::InvalidText));
    assert_eq!(d.unread(), 4);
    let bytes = [b'a', 0xc3, 0];
    let mut d = ByteDecoder::new(&bytes);
    assert_eq!(d.read_str(), Err(DecodeError::InvalidText));
    let bytes = [b'a', 0xc3];
    let mut d = ByteDecoder::new(&bytes);
    assert_eq!(d.read_str(), Err(DecodeError::UnexpectedEnd));
}

#[test]
fn a_nul_character_cuts_a_string_short() {
    let mut s = ByteEncoder::new();
    s.emit_str("a\0b");
    let bytes = s.into_bytes();
    assert_eq!(bytes, vec![b'a', 0, b'b', 0]);
    let mut d = ByteDecoder::new(&bytes);
    assert_eq!(d.read_str(), Ok("a".to_string()));
    assert_eq!(d.read_str(), Ok("b".to_string()));
}
