//! The binary codec: a flat little-endian byte stream, an encoder that
//! appends to it and a decoder that reads from it.
//!
//! Integers are written at their natural width. A `bool` is one byte. Nothing
//! frames a structure or a variant: the fields of a value lie back to back in
//! declaration order.

use crate::text::char_of;
use crate::text::char_width;
use crate::text::parse_char;
use crate::text::parse_str;
use crate::wire;
use crate::wire::le_at;
use crate::wire::le_bytes;
use crate::wire::signed;
use crate::wire::unsigned;
use vstd::prelude::*;
use vstd::slice::slice_subrange;
use vstd::utf8::char_is_scalar;
use vstd::utf8::char_u32_cast;
use vstd::utf8::decode_utf8;
use vstd::utf8::encode_scalar;
use vstd::utf8::encode_utf8;
use vstd::utf8::is_scalar;
use vstd::utf8::valid_utf8;

verus! {

/// Why a value has no wire form.
#[derive(Debug, Clone, Copy, PartialEq, Eq, Structural)]
pub enum EncodeError {
    /// A string is longer than the fixed-width field that carries it.
    StringTooLong,
}

/// Why bytes could not be read as a value.
#[derive(Debug, Clone, Copy, PartialEq, Eq, Structural)]
pub enum DecodeError {
    /// The input ends before the value does.
    UnexpectedEnd,
    /// The bytes of a character or a string are not UTF-8.
    InvalidText,
    /// The type code names no known message.
    UnrecognizedMessage,
}

/// The number of bytes of a `usize` or an `isize` on this machine.
pub open spec fn word_width() -> nat {
    (usize::BITS / 8) as nat
}

/// An append-only byte buffer. Its view is the bytes written so far.
pub struct ByteEncoder {
    bytes: Vec<u8>,
}

impl View for ByteEncoder {
    type V = Seq<u8>;

    closed spec fn view(&self) -> Seq<u8> {
        self.bytes@
    }
}

impl ByteEncoder {
    /// An encoder that has written nothing.
    pub fn new() -> (s: ByteEncoder)
        ensures
            s@ == Seq::<u8>::empty(),
    {
        ByteEncoder { bytes: Vec::new() }
    }

    /// The bytes written so far.
    pub fn into_bytes(self) -> (bytes: Vec<u8>)
        ensures
            bytes@ == self@,
    {
        self.bytes
    }

    /// The number of bytes written so far.
    pub fn len(&self) -> (n: usize)
        ensures
            n == self@.len(),
    {
        self.bytes.len()
    }

    /// Appends `bytes` as they are, with no length before them.
    pub fn emit_bytes(&mut self, bytes: &[u8])
        ensures
            final(self)@ == old(self)@ + bytes@,
    {
        self.bytes.extend_from_slice(bytes);
        assert(self.bytes@ =~= old(self).bytes@ + bytes@);
    }

    /// The unit value takes no bytes.
    pub fn emit_nil(&mut self)
        ensures
            final(self)@ == old(self)@,
    {
    }

    /// Appends `v` in as many bytes as the machine's word has.
    pub fn emit_usize(&mut self, v: usize)
        ensures
            final(self)@ == old(self)@ + le_bytes(v as nat, word_width()),
    {
        if usize::BITS == 32 {
            self.emit_u32(v as u32)
        } else {
            self.emit_u64(v as u64)
        }
    }

    /// Appends the eight bytes of `v`, low byte first.
    pub fn emit_u64(&mut self, v: u64)
        ensures
            final(self)@ == old(self)@ + le_bytes(v as nat, 8),
    {
        let b = wire::write_u64(v);
        self.emit_bytes(b.as_slice());
    }

    /// Appends the four bytes of `v`, low byte first.
    pub fn emit_u32(&mut self, v: u32)
        ensures
            final(self)@ == old(self)@ + le_bytes(v as nat, 4),
    {
        let b = wire::write_u32(v);
        self.emit_bytes(b.as_slice());
    }

    /// Appends the two bytes of `v`, low byte first.
    pub fn emit_u16(&mut self, v: u16)
        ensures
            final(self)@ == old(self)@ + le_bytes(v as nat, 2),
    {
        let b = wire::write_u16(v);
        self.emit_bytes(b.as_slice());
    }

    /// Appends `v`.
    pub fn emit_u8(&mut self, v: u8)
        ensures
            final(self)@ == old(self)@.push(v),
    {
        self.bytes.push(v);
    }

    /// Appends the two's complement of `v` in as many bytes as the machine's
    /// word has.
    pub fn emit_isize(&mut self, v: isize)
        ensures
            final(self)@ == old(self)@ + le_bytes(unsigned(v as int, word_width()), word_width()),
    {
        if isize::BITS == 32 {
            self.emit_i32(v as i32)
        } else {
            self.emit_i64(v as i64)
        }
    }

    /// Appends the two's complement of `v` in eight bytes, low byte first.
    pub fn emit_i64(&mut self, v: i64)
        ensures
            final(self)@ == old(self)@ + le_bytes(unsigned(v as int, 8), 8),
    {
        let b = wire::write_i64(v);
        self.emit_bytes(b.as_slice());
    }

    /// Appends the two's complement of `v` in four bytes, low byte first.
    pub fn emit_i32(&mut self, v: i32)
        ensures
            final(self)@ == old(self)@ + le_bytes(unsigned(v as int, 4), 4),
    {
        let b = wire::write_i32(v);
        self.emit_bytes(b.as_slice());
    }

    /// Appends the two's complement of `v` in two bytes, low byte first.
    pub fn emit_i16(&mut self, v: i16)
        ensures
            final(self)@ == old(self)@ + le_bytes(unsigned(v as int, 2), 2),
    {
        let b = wire::write_i16(v);
        self.emit_bytes(b.as_slice());
    }

    /// Appends the two's complement of `v`.
    pub fn emit_i8(&mut self, v: i8)
        ensures
            final(self)@ == old(self)@.push(unsigned(v as int, 1) as u8),
    {
        let b: u8 = v as u8;
        proof {
            wire::lemma_radix_values();
            assert(b == if v < 0 {
                (v + 256) as u8
            } else {
                v as u8
            }) by (bit_vector)
                requires
                    b == v as u8,
            ;
        }
        self.emit_u8(b);
    }

    /// Appends one byte: 1 for `true`, 0 for `false`.
    pub fn emit_bool(&mut self, v: bool)
        ensures
            final(self)@ == old(self)@.push(if v { 1u8 } else { 0u8 }),
    {
        self.emit_u8(if v { 1 } else { 0 });
    }

    /// Appends the UTF-8 form of `v`: one to four bytes.
    pub fn emit_char(&mut self, v: char)
        ensures
            final(self)@ == old(self)@ + encode_scalar(v as u32),
    {
        let c: u32 = v as u32;
        proof {
            char_is_scalar(v);
        }
        if c <= 0x7F {
            self.emit_u8((c & 0x7F) as u8);
        } else if c <= 0x7FF {
            self.emit_u8(0xC0 | ((c >> 6) & 0x1F) as u8);
            self.emit_u8(0x80 | (c & 0x3F) as u8);
        } else if c <= 0xFFFF {
            self.emit_u8(0xE0 | ((c >> 12) & 0x0F) as u8);
            self.emit_u8(0x80 | ((c >> 6) & 0x3F) as u8);
            self.emit_u8(0x80 | (c & 0x3F) as u8);
        } else {
            self.emit_u8(0xF0 | ((c >> 18) & 0x7) as u8);
            self.emit_u8(0x80 | ((c >> 12) & 0x3F) as u8);
            self.emit_u8(0x80 | ((c >> 6) & 0x3F) as u8);
            self.emit_u8(0x80 | (c & 0x3F) as u8);
        }
        assert(self@ =~= old(self)@ + encode_scalar(c));
    }

    /// Appends the UTF-8 form of `v`, and one zero byte that ends it.
    pub fn emit_str(&mut self, v: &str)
        ensures
            final(self)@ == old(self)@ + encode_utf8(v@) + seq![0u8],
    {
        self.emit_bytes(v.as_bytes());
        self.emit_u8(0);
        assert(self@ =~= old(self)@ + encode_utf8(v@) + seq![0u8]);
    }

    /// The mark of an absent optional value: one zero byte.
    pub fn emit_option_none(&mut self)
        ensures
            final(self)@ == old(self)@.push(0u8),
    {
        self.emit_u8(0);
    }
}

/// `String::from_utf8` of the standard library: the string that `bytes` are
/// the UTF-8 form of, and none where they are the UTF-8 form of no string.
#[verifier::external_body]
pub(crate) fn string_from_utf8(bytes: Vec<u8>) -> (r: Option<String>)
    ensures
        r is Some <==> valid_utf8(bytes@),
        r matches Some(text) ==> text@ == decode_utf8(bytes@),
{
    String::from_utf8(bytes).ok()
}

/// `char::from_u32` of the standard library: the character with the code
/// `v`, and none where `v` is a surrogate or lies beyond the last code.
#[verifier::external_body]
pub(crate) fn char_from_u32(v: u32) -> (r: Option<char>)
    ensures
        r is Some <==> is_scalar(v),
        r matches Some(c) ==> c as u32 == v,
{
    char::from_u32(v)
}

/// `String::push` of the standard library: `c` is added at the end of `s`.
#[verifier::external_body]
pub(crate) fn string_push(s: &mut String, c: char)
    ensures
        final(s)@ == old(s)@.push(c),
{
    s.push(c)
}

/// What `parse_str` gives from the start of a string, where the characters
/// `before`, of `width` bytes in all, were read already and `rest` is what
/// it gives from there on.
pub open spec fn str_after(
    before: Seq<char>,
    width: nat,
    rest: Result<(Seq<char>, nat), DecodeError>,
) -> Result<(Seq<char>, nat), DecodeError> {
    match rest {
        Ok((text, n)) => Ok((before + text, width + n)),
        Err(e) => Err(e),
    }
}

/// A reader over a byte slice. Its state is the input and the position of
/// the next unread byte; a read that fails leaves the position where it was.
#[derive(Clone, Copy)]
pub struct ByteDecoder<'a> {
    bytes: &'a [u8],
    pos: usize,
}

impl<'a> ByteDecoder<'a> {
    /// The position never lies beyond the end of the input.
    #[verifier::type_invariant]
    pub closed spec fn in_bounds(self) -> bool {
        self.pos <= self.bytes@.len()
    }

    /// What `in_bounds` says, over the decoder's public state.
    pub proof fn lemma_in_bounds(self)
        requires
            self.in_bounds(),
        ensures
            self.remaining() >= 0,
    {
    }

    /// The whole input, read and unread.
    pub closed spec fn input(&self) -> Seq<u8> {
        self.bytes@
    }

    /// The index in the input of the next unread byte.
    pub closed spec fn position(&self) -> nat {
        self.pos as nat
    }

    /// The number of unread bytes.
    pub open spec fn remaining(&self) -> int {
        self.input().len() - self.position()
    }

    /// The next `n` unread bytes.
    pub open spec fn next_bytes(&self, n: int) -> Seq<u8> {
        self.input().subrange(self.position() as int, self.position() + n)
    }

    /// `after` reads the same input as `self`, `n` bytes further on.
    pub open spec fn advanced(&self, after: &Self, n: int) -> bool {
        after.input() == self.input() && after.position() == self.position() + n
    }

    /// A decoder at the start of `bytes`.
    pub fn new(bytes: &'a [u8]) -> (d: ByteDecoder<'a>)
        ensures
            d.input() == bytes@,
            d.position() == 0,
    {
        ByteDecoder { bytes, pos: 0 }
    }

    /// The number of unread bytes.
    pub fn unread(&self) -> (n: usize)
        ensures
            n == self.remaining(),
    {
        proof {
            use_type_invariant(self);
        }
        self.bytes.len() - self.pos
    }

    /// The next `n` bytes, or none of them where fewer are left.
    pub fn read_bytes(&mut self, n: usize) -> (r: Result<&'a [u8], DecodeError>)
        ensures
            old(self).remaining() >= n ==> old(self).advanced(final(self), n as int) && r is Ok
                && r->Ok_0@ == old(self).next_bytes(n as int),
            old(self).remaining() < n ==> old(self).advanced(final(self), 0) && r == Err::<
                &[u8],
                DecodeError,
            >(DecodeError::UnexpectedEnd),
    {
        proof {
            use_type_invariant(&*self);
        }
        if self.bytes.len() - self.pos < n {
            return Err(DecodeError::UnexpectedEnd);
        }
        let field = slice_subrange(self.bytes, self.pos, self.pos + n);
        self.pos = self.pos + n;
        Ok(field)
    }

    /// The unit value takes no bytes.
    pub fn read_nil(&mut self) -> (r: Result<(), DecodeError>)
        ensures
            r is Ok,
            old(self).advanced(final(self), 0),
    {
        Ok(())
    }

    /// Reads a number of as many bytes as the machine's word has.
    pub fn read_usize(&mut self) -> (r: Result<usize, DecodeError>)
        ensures
            old(self).remaining() >= word_width() ==> old(self).advanced(
                final(self),
                word_width() as int,
            ) && r == Ok::<usize, DecodeError>(
                le_at(old(self).input(), old(self).position() as int, word_width()) as usize,
            ),
            old(self).remaining() < word_width() ==> old(self).advanced(final(self), 0) && r
                == Err::<usize, DecodeError>(DecodeError::UnexpectedEnd),
    {
        if usize::BITS == 32 {
            match self.read_u32() {
                Ok(v) => Ok(v as usize),
                Err(e) => Err(e),
            }
        } else {
            match self.read_u64() {
                Ok(v) => Ok(v as usize),
                Err(e) => Err(e),
            }
        }
    }

    /// Reads a number of eight bytes, low byte first.
    pub fn read_u64(&mut self) -> (r: Result<u64, DecodeError>)
        ensures
            old(self).remaining() >= 8 ==> old(self).advanced(final(self), 8) && r == Ok::<
                u64,
                DecodeError,
            >(le_at(old(self).input(), old(self).position() as int, 8) as u64),
            old(self).remaining() < 8 ==> old(self).advanced(final(self), 0) && r == Err::<
                u64,
                DecodeError,
            >(DecodeError::UnexpectedEnd),
    {
        let field = self.read_bytes(8)?;
        assert(field@.take(8) =~= field@);
        Ok(wire::read_u64(field))
    }

    /// Reads a number of four bytes, low byte first.
    pub fn read_u32(&mut self) -> (r: Result<u32, DecodeError>)
        ensures
            old(self).remaining() >= 4 ==> old(self).advanced(final(self), 4) && r == Ok::<
                u32,
                DecodeError,
            >(le_at(old(self).input(), old(self).position() as int, 4) as u32),
            old(self).remaining() < 4 ==> old(self).advanced(final(self), 0) && r == Err::<
                u32,
                DecodeError,
            >(DecodeError::UnexpectedEnd),
    {
        let field = self.read_bytes(4)?;
        assert(field@.take(4) =~= field@);
        Ok(wire::read_u32(field))
    }

    /// Reads a number of two bytes, low byte first.
    pub fn read_u16(&mut self) -> (r: Result<u16, DecodeError>)
        ensures
            old(self).remaining() >= 2 ==> old(self).advanced(final(self), 2) && r == Ok::<
                u16,
                DecodeError,
            >(le_at(old(self).input(), old(self).position() as int, 2) as u16),
            old(self).remaining() < 2 ==> old(self).advanced(final(self), 0) && r == Err::<
                u16,
                DecodeError,
            >(DecodeError::UnexpectedEnd),
    {
        let field = self.read_bytes(2)?;
        assert(field@.take(2) =~= field@);
        Ok(wire::read_u16(field))
    }

    /// Reads one byte.
    pub fn read_u8(&mut self) -> (r: Result<u8, DecodeError>)
        ensures
            old(self).remaining() >= 1 ==> old(self).advanced(final(self), 1) && r == Ok::<
                u8,
                DecodeError,
            >(old(self).input()[old(self).position() as int]),
            old(self).remaining() < 1 ==> old(self).advanced(final(self), 0) && r == Err::<
                u8,
                DecodeError,
            >(DecodeError::UnexpectedEnd),
    {
        let field = self.read_bytes(1)?;
        Ok(field[0])
    }

    /// Reads a signed number of as many bytes as the machine's word has.
    pub fn read_isize(&mut self) -> (r: Result<isize, DecodeError>)
        ensures
            old(self).remaining() >= word_width() ==> old(self).advanced(
                final(self),
                word_width() as int,
            ) && r == Ok::<isize, DecodeError>(
                signed(
                    le_at(old(self).input(), old(self).position() as int, word_width()),
                    word_width(),
                ) as isize,
            ),
            old(self).remaining() < word_width() ==> old(self).advanced(final(self), 0) && r
                == Err::<isize, DecodeError>(DecodeError::UnexpectedEnd),
    {
        if isize::BITS == 32 {
            match self.read_i32() {
                Ok(v) => Ok(v as isize),
                Err(e) => Err(e),
            }
        } else {
            match self.read_i64() {
                Ok(v) => Ok(v as isize),
                Err(e) => Err(e),
            }
        }
    }

    /// Reads a signed number of eight bytes in two's complement, low byte first.
    pub fn read_i64(&mut self) -> (r: Result<i64, DecodeError>)
        ensures
            old(self).remaining() >= 8 ==> old(self).advanced(final(self), 8) && r == Ok::<
                i64,
                DecodeError,
            >(signed(le_at(old(self).input(), old(self).position() as int, 8), 8) as i64),
            old(self).remaining() < 8 ==> old(self).advanced(final(self), 0) && r == Err::<
                i64,
                DecodeError,
            >(DecodeError::UnexpectedEnd),
    {
        let field = self.read_bytes(8)?;
        assert(field@.take(8) =~= field@);
        Ok(wire::read_i64(field))
    }

    /// Reads a signed number of four bytes in two's complement, low byte first.
    pub fn read_i32(&mut self) -> (r: Result<i32, DecodeError>)
        ensures
            old(self).remaining() >= 4 ==> old(self).advanced(final(self), 4) && r == Ok::<
                i32,
                DecodeError,
            >(signed(le_at(old(self).input(), old(self).position() as int, 4), 4) as i32),
            old(self).remaining() < 4 ==> old(self).advanced(final(self), 0) && r == Err::<
                i32,
                DecodeError,
            >(DecodeError::UnexpectedEnd),
    {
        let field = self.read_bytes(4)?;
        assert(field@.take(4) =~= field@);
        Ok(wire::read_i32(field))
    }

    /// Reads a signed number of two bytes in two's complement, low byte first.
    pub fn read_i16(&mut self) -> (r: Result<i16, DecodeError>)
        ensures
            old(self).remaining() >= 2 ==> old(self).advanced(final(self), 2) && r == Ok::<
                i16,
                DecodeError,
            >(signed(le_at(old(self).input(), old(self).position() as int, 2), 2) as i16),
            old(self).remaining() < 2 ==> old(self).advanced(final(self), 0) && r == Err::<
                i16,
                DecodeError,
            >(DecodeError::UnexpectedEnd),
    {
        let field = self.read_bytes(2)?;
        assert(field@.take(2) =~= field@);
        Ok(wire::read_i16(field))
    }

    /// Reads a signed number of one byte in two's complement.
    pub fn read_i8(&mut self) -> (r: Result<i8, DecodeError>)
        ensures
            old(self).remaining() >= 1 ==> old(self).advanced(final(self), 1) && r == Ok::<
                i8,
                DecodeError,
            >(signed(old(self).input()[old(self).position() as int] as nat, 1) as i8),
            old(self).remaining() < 1 ==> old(self).advanced(final(self), 0) && r == Err::<
                i8,
                DecodeError,
            >(DecodeError::UnexpectedEnd),
    {
        let b: u8 = self.read_u8()?;
        let v: i8 = b as i8;
        proof {
            wire::lemma_radix_values();
            assert(v == if b >= 128 {
                (b - 256) as i8
            } else {
                b as i8
            }) by (bit_vector)
                requires
                    v == b as i8,
            ;
        }
        Ok(v)
    }

    /// Reads one byte: zero is `false`, anything else `true`.
    pub fn read_bool(&mut self) -> (r: Result<bool, DecodeError>)
        ensures
            old(self).remaining() >= 1 ==> old(self).advanced(final(self), 1) && r == Ok::<
                bool,
                DecodeError,
            >(old(self).input()[old(self).position() as int] > 0),
            old(self).remaining() < 1 ==> old(self).advanced(final(self), 0) && r == Err::<
                bool,
                DecodeError,
            >(DecodeError::UnexpectedEnd),
    {
        let b: u8 = self.read_u8()?;
        Ok(b > 0)
    }

    /// Reads the rest of a character in UTF-8 whose first byte, `first`, was
    /// read already. The bytes must be the one form of the character that
    /// UTF-8 allows: no other first byte, no byte out of place, no longer
    /// form than needed, no surrogate.
    pub fn read_char_with_first_byte(&mut self, first: u8) -> (r: Result<char, DecodeError>)
        ensures
            char_width(first) == 0 ==> r == Err::<char, DecodeError>(DecodeError::InvalidText)
                && old(self).advanced(final(self), 0),
            char_width(first) > 0 && old(self).remaining() < char_width(first) - 1 ==> r == Err::<
                char,
                DecodeError,
            >(DecodeError::UnexpectedEnd) && old(self).advanced(final(self), 0),
            char_width(first) > 0 && old(self).remaining() >= char_width(first) - 1 ==> match char_of(
                seq![first] + old(self).next_bytes(char_width(first) - 1),
            ) {
                Ok(c) => r == Ok::<char, DecodeError>(c) && old(self).advanced(
                    final(self),
                    char_width(first) - 1,
                ),
                Err(e) => r == Err::<char, DecodeError>(e) && old(self).advanced(final(self), 0),
            },
    {
        let width: usize = if first <= 0x7f {
            1
        } else if 0xc0 <= first && first <= 0xdf {
            2
        } else if 0xe0 <= first && first <= 0xef {
            3
        } else if 0xf0 <= first && first <= 0xf7 {
            4
        } else {
            return Err(DecodeError::InvalidText);
        };
        let mut rest = *self;
        let more = rest.read_bytes(width - 1)?;
        let ghost bytes = seq![first] + more@;
        let code: u32 = if width == 1 {
            assert((first & 0x7F) as u32 <= 0x7F) by (bit_vector);
            (first & 0x7F) as u32
        } else if width == 2 {
            if !(0x80 <= more[0] && more[0] <= 0xbf) {
                return Err(DecodeError::InvalidText);
            }
            let m0: u8 = more[0];
            assert((((first & 0x1F) as u32) << 6) | ((m0 & 0x3f) as u32) <= 0x7FF) by (bit_vector);
            (((first & 0x1F) as u32) << 6) | ((m0 & 0x3f) as u32)
        } else if width == 3 {
            if !(0x80 <= more[0] && more[0] <= 0xbf && 0x80 <= more[1] && more[1] <= 0xbf) {
                return Err(DecodeError::InvalidText);
            }
            let m0: u8 = more[0];
            let m1: u8 = more[1];
            assert((((first & 0x0F) as u32) << 12) | (((m0 & 0x3f) as u32) << 6) | ((m1
                & 0x3f) as u32) <= 0xFFFF) by (bit_vector);
            (((first & 0x0F) as u32) << 12) | (((m0 & 0x3f) as u32) << 6) | ((m1 & 0x3f) as u32)
        } else {
            if !(0x80 <= more[0] && more[0] <= 0xbf && 0x80 <= more[1] && more[1] <= 0xbf && 0x80
                <= more[2] && more[2] <= 0xbf) {
                return Err(DecodeError::InvalidText);
            }
            (((first & 0x07) as u32) << 18) | (((more[0] & 0x3f) as u32) << 12) | (((more[1]
                & 0x3f) as u32) << 6) | ((more[2] & 0x3f) as u32)
        };
        assert(code == vstd::utf8::decode_first_codepoint(bytes));
        let overlong: bool = (width == 2 && code < 0x80) || (width == 3 && code < 0x800) || (width
            == 4 && !(0x10000 <= code && code <= 0x10ffff));
        let surrogate: bool = 0xD800 <= code && code <= 0xDFFF;
        if overlong || surrogate {
            return Err(DecodeError::InvalidText);
        }
        assert(vstd::utf8::valid_first_scalar(bytes));
        assert(is_scalar(code));
        match char_from_u32(code) {
            Some(c) => {
                proof {
                    char_u32_cast(c, code);
                }
                *self = rest;
                Ok(c)
            },
            None => Err(DecodeError::InvalidText),
        }
    }

    /// Reads a character in UTF-8.
    pub fn read_char(&mut self) -> (r: Result<char, DecodeError>)
        ensures
            match parse_char(old(self).input(), old(self).position() as int) {
                Ok((c, n)) => r == Ok::<char, DecodeError>(c) && old(self).advanced(
                    final(self),
                    n as int,
                ),
                Err(e) => r == Err::<char, DecodeError>(e) && old(self).advanced(final(self), 0),
            },
    {
        let mut rest = *self;
        let first: u8 = rest.read_u8()?;
        let ghost at = old(self).position() as int;
        let ghost width = char_width(first);
        assert(width > 0 && rest.remaining() >= width - 1 ==> seq![first] + rest.next_bytes(
            width - 1,
        ) =~= old(self).input().subrange(at, at + width));
        let c = rest.read_char_with_first_byte(first)?;
        *self = rest;
        Ok(c)
    }

    /// Reads a string: characters in UTF-8 up to a zero byte, which ends the
    /// string and is read too.
    pub fn read_str(&mut self) -> (r: Result<String, DecodeError>)
        ensures
            match parse_str(old(self).input(), old(self).position() as int) {
                Ok((text, n)) => r is Ok && r->Ok_0@ == text && old(self).advanced(
                    final(self),
                    n as int,
                ),
                Err(e) => r == Err::<String, DecodeError>(e) && old(self).advanced(final(self), 0),
            },
    {
        let mut s = String::new();
        let mut rest = *self;
        let mut ended: bool = false;
        let ghost input = self.input();
        let ghost start = self.position();
        proof {
            use_type_invariant(&*self);
            assert(Seq::<char>::empty() + Seq::<char>::empty() =~= Seq::<char>::empty());
        }
        while !ended
            invariant
                rest.input() == input,
                rest.position() >= start,
                rest.remaining() >= 0,
                self.input() == input,
                self.position() == start,
                !ended ==> parse_str(input, start as int) == str_after(
                    s@,
                    (rest.position() - start) as nat,
                    parse_str(input, rest.position() as int),
                ),
                ended ==> parse_str(input, start as int) == Ok::<(Seq<char>, nat), DecodeError>(
                    (s@, (rest.position() - start) as nat),
                ),
            decreases rest.remaining() + (if ended { 0int } else { 1int }),
        {
            let ghost at = rest.position() as int;
            let ghost before = s@;
            let b: u8 = rest.read_u8()?;
            if b == 0b0000_0000 {
                ended = true;
                assert(before + Seq::<char>::empty() =~= before);
            } else {
                let ghost width = char_width(b);
                assert(width > 0 && rest.remaining() >= width - 1 ==> seq![b] + rest.next_bytes(
                    width - 1,
                ) =~= input.subrange(at, at + width));
                let c = rest.read_char_with_first_byte(b)?;
                string_push(&mut s, c);
                proof {
                    let next = parse_str(input, at + width);
                    if let Ok((text, n)) = next {
                        assert(before + (seq![c] + text) =~= before.push(c) + text);
                    }
                }
            }
        }
        *self = rest;
        Ok(s)
    }
}

/// A value with a wire form.
pub trait Encodable {
    /// Whether the value can be written: whether each of its strings fits the
    /// field that carries it.
    spec fn encodable(&self) -> bool;

    /// The bytes of the value on the wire.
    spec fn wire(&self) -> Seq<u8>;

    /// Appends the wire form of the value, or appends nothing where it has
    /// none.
    fn encode(&self, s: &mut ByteEncoder) -> (r: Result<(), EncodeError>)
        ensures
            self.encodable() ==> r is Ok && final(s)@ == old(s)@ + self.wire(),
            !self.encodable() ==> r == Err::<(), EncodeError>(EncodeError::StringTooLong)
                && final(s)@ == old(s)@,
    ;
}

/// A value that can be read from the wire.
pub trait Decodable: Sized + View {
    /// The value that the bytes of `s` from index `at` on hold, with the
    /// number of bytes that it takes.
    spec fn parse(s: Seq<u8>, at: int) -> Result<(Self::V, nat), DecodeError>;

    /// Reads a value from where the decoder stands, and moves past it.
    fn decode(d: &mut ByteDecoder) -> (r: Result<Self, DecodeError>)
        ensures
            match Self::parse(old(d).input(), old(d).position() as int) {
                Ok((v, n)) => r is Ok && r->Ok_0@ == v && old(d).advanced(final(d), n as int),
                Err(e) => r == Err::<Self, DecodeError>(e) && old(d).advanced(final(d), 0),
            },
    ;
}

/// The wire form of `data`.
pub fn encode<T: Encodable>(data: &T) -> (r: Result<Vec<u8>, EncodeError>)
    ensures
        data.encodable() ==> r is Ok && r->Ok_0@ == data.wire(),
        !data.encodable() ==> r == Err::<Vec<u8>, EncodeError>(EncodeError::StringTooLong),
{
    let mut encoder = ByteEncoder::new();
    match data.encode(&mut encoder) {
        Ok(()) => {
            assert(Seq::<u8>::empty() + data.wire() =~= data.wire());
            Ok(encoder.into_bytes())
        },
        Err(e) => Err(e),
    }
}

/// The value at the start of `data`. Bytes after it are not looked at.
pub fn decode<T: Decodable>(data: &[u8]) -> (r: Result<T, DecodeError>)
    ensures
        match T::parse(data@, 0) {
            Ok((v, n)) => r is Ok && r->Ok_0@ == v,
            Err(e) => r == Err::<T, DecodeError>(e),
        },
{
    let mut decoder = ByteDecoder::new(data);
    T::decode(&mut decoder)
}

} // verus!
