//! Text on the wire: UTF-8, either in a field of fixed width, padded with
//! zero bytes, or of any length and ended by one zero byte.

use crate::serialize::DecodeError;
use crate::wire::zeros;
use vstd::prelude::*;
use vstd::utf8::char_is_scalar;
use vstd::utf8::char_u32_cast;
use vstd::utf8::decode_first_scalar;
use vstd::utf8::decode_utf8;
use vstd::utf8::encode_scalar;
use vstd::utf8::encode_utf8;
use vstd::utf8::encode_utf8_decode_utf8;
use vstd::utf8::encode_utf8_first_scalar;
use vstd::utf8::encode_utf8_valid_utf8;
use vstd::utf8::is_leading_byte_width_1;
use vstd::utf8::is_leading_byte_width_2;
use vstd::utf8::is_leading_byte_width_3;
use vstd::utf8::is_leading_byte_width_4;
use vstd::utf8::is_scalar;
use vstd::utf8::valid_first_scalar;
use vstd::utf8::valid_utf8;

verus! {

/// Whether no character of `text` is the NUL character, which ends the text
/// of a field.
pub open spec fn text_plain(text: Seq<char>) -> bool {
    forall|i: int| 0 <= i < text.len() ==> text[i] as u32 != 0
}

/// The index of the first zero byte of `field`, or its length where it has
/// none: where the text in a fixed-width field ends.
pub open spec fn text_end(field: Seq<u8>) -> int
    decreases field.len(),
{
    if field.len() == 0 || field[0] == 0 {
        0
    } else {
        1 + text_end(field.drop_first())
    }
}

/// The text that a fixed-width field holds: its bytes before the first zero
/// byte, read as UTF-8.
pub open spec fn parse_text(field: Seq<u8>) -> Result<Seq<char>, DecodeError> {
    let bytes = field.take(text_end(field));
    if valid_utf8(bytes) {
        Ok(decode_utf8(bytes))
    } else {
        Err(DecodeError::InvalidText)
    }
}

/// Whether the UTF-8 form of `text` fits a field of `width` bytes.
pub open spec fn text_fits(text: Seq<char>, width: nat) -> bool {
    encode_utf8(text).len() <= width
}

/// The field of `width` bytes that holds `text`: its UTF-8 form, then zero
/// bytes up to the width.
pub open spec fn text_field(text: Seq<char>, width: nat) -> Seq<u8> {
    encode_utf8(text) + zeros((width - encode_utf8(text).len()) as nat)
}

/// The number of bytes of the UTF-8 form of a character that begins with
/// the byte `first`; 0 where no character begins with it.
pub open spec fn char_width(first: u8) -> nat {
    if is_leading_byte_width_1(first) {
        1
    } else if is_leading_byte_width_2(first) {
        2
    } else if is_leading_byte_width_3(first) {
        3
    } else if is_leading_byte_width_4(first) {
        4
    } else {
        0
    }
}

/// The character that `bytes` are the UTF-8 form of.
pub open spec fn char_of(bytes: Seq<u8>) -> Result<char, DecodeError> {
    if valid_first_scalar(bytes) {
        Ok(decode_first_scalar(bytes) as char)
    } else {
        Err(DecodeError::InvalidText)
    }
}

/// The character whose UTF-8 form lies in `s` from index `at` on, with the
/// number of bytes that it takes.
pub open spec fn parse_char(s: Seq<u8>, at: int) -> Result<(char, nat), DecodeError> {
    if s.len() - at < 1 {
        Err(DecodeError::UnexpectedEnd)
    } else if char_width(s[at]) == 0 {
        Err(DecodeError::InvalidText)
    } else if s.len() - at < char_width(s[at]) {
        Err(DecodeError::UnexpectedEnd)
    } else {
        match char_of(s.subrange(at, at + char_width(s[at]))) {
            Ok(c) => Ok((c, char_width(s[at]))),
            Err(e) => Err(e),
        }
    }
}

/// The string that lies in `s` from index `at` on, with the number of bytes
/// that it takes: characters in UTF-8 up to a zero byte, which ends it and
/// is counted.
pub open spec fn parse_str(s: Seq<u8>, at: int) -> Result<(Seq<char>, nat), DecodeError>
    decreases s.len() - at,
{
    if s.len() - at < 1 {
        Err(DecodeError::UnexpectedEnd)
    } else if s[at] == 0 {
        Ok((Seq::empty(), 1))
    } else {
        match parse_char(s, at) {
            Err(e) => Err(e),
            Ok((c, width)) => match parse_str(s, at + width) {
                Err(e) => Err(e),
                Ok((rest, n)) => Ok((seq![c] + rest, width + n)),
            },
        }
    }
}

/// Where the text of a field ends, counted from any index up to the end.
pub proof fn lemma_text_end_from(field: Seq<u8>, k: int)
    requires
        0 <= k <= field.len(),
        forall|j: int| 0 <= j < k ==> field[j] != 0,
    ensures
        text_end(field) == k + text_end(field.skip(k)),
    decreases k,
{
    if k > 0 {
        lemma_text_end_from(field, k - 1);
        assert(field.skip(k - 1).drop_first() =~= field.skip(k));
    } else {
        assert(field.skip(0) =~= field);
    }
}

/// The UTF-8 form of a character other than NUL has no zero byte.
proof fn lemma_scalar_bytes_nonzero(c: u32)
    requires
        is_scalar(c),
        c != 0,
    ensures
        forall|i: int| 0 <= i < encode_scalar(c).len() ==> encode_scalar(c)[i] != 0,
{
    assert(c != 0 && c <= 0x7F ==> (c & 0x7F) as u8 != 0) by (bit_vector);
    assert((0xC0u8 | ((c >> 6) & 0x1F) as u8) != 0) by (bit_vector);
    assert((0xE0u8 | ((c >> 12) & 0x0F) as u8) != 0) by (bit_vector);
    assert((0xF0u8 | ((c >> 18) & 0x7) as u8) != 0) by (bit_vector);
    assert((0x80u8 | (c & 0x3F) as u8) != 0) by (bit_vector);
    assert((0x80u8 | ((c >> 6) & 0x3F) as u8) != 0) by (bit_vector);
    assert((0x80u8 | ((c >> 12) & 0x3F) as u8) != 0) by (bit_vector);
}

/// The UTF-8 form of a text without NUL characters has no zero byte.
proof fn lemma_text_bytes_nonzero(text: Seq<char>)
    requires
        text_plain(text),
    ensures
        forall|i: int| 0 <= i < encode_utf8(text).len() ==> encode_utf8(text)[i] != 0,
    decreases text.len(),
{
    if text.len() > 0 {
        let first = encode_scalar(text[0] as u32);
        let rest = encode_utf8(text.drop_first());
        char_is_scalar(text[0]);
        lemma_scalar_bytes_nonzero(text[0] as u32);
        assert(text_plain(text.drop_first())) by {
            assert forall|i: int| 0 <= i < text.drop_first().len() implies text.drop_first()[i]
                as u32 != 0 by {
                assert(text.drop_first()[i] == text[i + 1]);
            }
        }
        lemma_text_bytes_nonzero(text.drop_first());
        assert forall|i: int| 0 <= i < encode_utf8(text).len() implies encode_utf8(text)[i]
            != 0 by {
            if i < first.len() {
                assert(encode_utf8(text)[i] == first[i]);
            } else {
                assert(encode_utf8(text)[i] == rest[i - first.len()]);
            }
        }
    }
}

/// A text that fits its field and has no NUL character is read back from
/// the field.
pub proof fn lemma_text_round_trip(text: Seq<char>, width: nat)
    requires
        text_fits(text, width),
        text_plain(text),
    ensures
        text_field(text, width).len() == width,
        parse_text(text_field(text, width)) == Ok::<Seq<char>, DecodeError>(text),
{
    let bytes = encode_utf8(text);
    let field = text_field(text, width);
    lemma_text_bytes_nonzero(text);
    assert forall|j: int| 0 <= j < bytes.len() implies field[j] != 0 by {
        assert(field[j] == bytes[j]);
    }
    lemma_text_end_from(field, bytes.len() as int);
    assert(text_end(field.skip(bytes.len() as int)) == 0);
    assert(field.take(text_end(field)) =~= bytes);
    encode_utf8_valid_utf8(text);
    encode_utf8_decode_utf8(text);
}

/// A character is read back from wherever its UTF-8 form lies.
pub proof fn lemma_parse_char_of_encoding(s: Seq<u8>, at: int, c: char)
    requires
        0 <= at,
        at + encode_scalar(c as u32).len() <= s.len(),
        s.subrange(at, at + encode_scalar(c as u32).len()) == encode_scalar(c as u32),
    ensures
        parse_char(s, at) == Ok::<(char, nat), DecodeError>((c, encode_scalar(c as u32).len())),
{
    let bytes = encode_scalar(c as u32);
    let one = seq![c];
    assert(encode_utf8(one.drop_first()) =~= Seq::<u8>::empty());
    assert(encode_utf8(one) =~= bytes);
    encode_utf8_first_scalar(one);
    char_u32_cast(c, decode_first_scalar(bytes));
    assert(s[at] == s.subrange(at, at + bytes.len())[0]);
}

/// A string without NUL characters is read back from wherever its UTF-8
/// form, ended by a zero byte, lies.
pub proof fn lemma_parse_str_of_encoding(s: Seq<u8>, at: int, text: Seq<char>)
    requires
        text_plain(text),
        0 <= at,
        at + encode_utf8(text).len() + 1 <= s.len(),
        s.subrange(at, at + encode_utf8(text).len() + 1) == encode_utf8(text) + seq![0u8],
    ensures
        parse_str(s, at) == Ok::<(Seq<char>, nat), DecodeError>(
            (text, encode_utf8(text).len() + 1),
        ),
    decreases text.len(),
{
    let whole = encode_utf8(text) + seq![0u8];
    let end = at + encode_utf8(text).len() + 1;
    if text.len() == 0 {
        assert(s[at] == s.subrange(at, end)[0]);
        assert(text =~= Seq::<char>::empty());
    } else {
        let first = encode_scalar(text[0] as u32);
        let rest = text.drop_first();
        char_is_scalar(text[0]);
        lemma_scalar_bytes_nonzero(text[0] as u32);
        assert(s[at] == s.subrange(at, end)[0]);
        assert(whole[0] == first[0]);
        assert(s.subrange(at, at + first.len()) =~= first) by {
            assert forall|i: int| 0 <= i < first.len() implies s.subrange(at, at + first.len())[i]
                == first[i] by {
                assert(s.subrange(at, end)[i] == s[at + i]);
                assert(whole[i] == first[i]);
            }
        }
        lemma_parse_char_of_encoding(s, at, text[0]);
        assert(text_plain(rest)) by {
            assert forall|i: int| 0 <= i < rest.len() implies rest[i] as u32 != 0 by {
                assert(rest[i] == text[i + 1]);
            }
        }
        assert(s.subrange(at + first.len(), end) =~= encode_utf8(rest) + seq![0u8]) by {
            assert forall|i: int| 0 <= i < encode_utf8(rest).len() + 1 implies s.subrange(
                at + first.len(),
                end,
            )[i] == (encode_utf8(rest) + seq![0u8])[i] by {
                assert(s.subrange(at, end)[first.len() + i] == s[at + first.len() + i]);
            }
        }
        assert(encode_utf8(text) == first + encode_utf8(rest));
        lemma_parse_str_of_encoding(s, at + first.len(), rest);
        assert(seq![text[0]] + rest =~= text);
    }
}

} // verus!
