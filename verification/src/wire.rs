//! Little-endian integer layouts: what the bytes of a number are, and the
//! calls into `byteorder` that produce and consume them.
//!
//! Unsigned numbers are laid out as base-256 digits, least significant digit
//! first. Signed numbers are laid out as their two's complement.

use byteorder::ByteOrder;
use byteorder::LittleEndian;
use vstd::prelude::*;

verus! {

/// `256^width`: the number of values that `width` bytes can hold.
pub open spec fn radix(width: nat) -> nat
    decreases width,
{
    if width == 0 {
        1
    } else {
        256 * radix((width - 1) as nat)
    }
}

/// The `width` low-order base-256 digits of `v`, least significant first.
pub open spec fn le_bytes(v: nat, width: nat) -> Seq<u8>
    decreases width,
{
    if width == 0 {
        Seq::empty()
    } else {
        seq![(v % 256) as u8] + le_bytes(v / 256, (width - 1) as nat)
    }
}

/// The number whose base-256 digits, least significant first, are `s`.
pub open spec fn le_value(s: Seq<u8>) -> nat
    decreases s.len(),
{
    if s.len() == 0 {
        0
    } else {
        s[0] as nat + 256 * le_value(s.drop_first())
    }
}

/// The number that the `width` bytes of `s` from index `at` on denote.
pub open spec fn le_at(s: Seq<u8>, at: int, width: nat) -> nat {
    le_value(s.subrange(at, at + width))
}

/// `n` zero bytes: what a reserved field holds.
pub open spec fn zeros(n: nat) -> Seq<u8> {
    Seq::new(n, |i: int| 0u8)
}

/// The two's complement of `v` in `width` bytes.
pub open spec fn unsigned(v: int, width: nat) -> nat {
    if v < 0 {
        (v + radix(width)) as nat
    } else {
        v as nat
    }
}

/// The signed number whose two's complement in `width` bytes is `u`.
pub open spec fn signed(u: nat, width: nat) -> int {
    if 2 * u >= radix(width) {
        u - radix(width)
    } else {
        u as int
    }
}

/// The values of `radix` at the widths of the machine integers.
pub proof fn lemma_radix_values()
    ensures
        radix(0) == 1,
        radix(1) == 0x100,
        radix(2) == 0x1_0000,
        radix(4) == 0x1_0000_0000,
        radix(8) == 0x1_0000_0000_0000_0000,
{
    reveal_with_fuel(radix, 9);
}

/// `le_bytes` yields exactly `width` bytes.
pub broadcast proof fn lemma_le_bytes_len(v: nat, width: nat)
    ensures
        #[trigger] le_bytes(v, width).len() == width,
    decreases width,
{
    if width > 0 {
        lemma_le_bytes_len(v / 256, (width - 1) as nat);
    }
}

/// A sequence of `n` bytes denotes a number below `256^n`.
pub proof fn lemma_le_value_bound(s: Seq<u8>)
    ensures
        le_value(s) < radix(s.len()),
    decreases s.len(),
{
    if s.len() > 0 {
        lemma_le_value_bound(s.drop_first());
    }
}

/// Reading back the digits of a number that fits gives the number.
pub proof fn lemma_le_value_of_bytes(v: nat, width: nat)
    requires
        v < radix(width),
    ensures
        le_value(le_bytes(v, width)) == v,
    decreases width,
{
    if width > 0 {
        let rest = le_bytes(v / 256, (width - 1) as nat);
        let all = le_bytes(v, width);
        lemma_le_value_of_bytes(v / 256, (width - 1) as nat);
        lemma_le_bytes_len(v / 256, (width - 1) as nat);
        assert(all.drop_first() =~= rest);
        assert(all[0] == (v % 256) as u8);
    }
}

/// Writing out the number that a byte sequence denotes gives the sequence.
pub proof fn lemma_le_bytes_of_value(s: Seq<u8>)
    ensures
        le_bytes(le_value(s), s.len()) == s,
    decreases s.len(),
{
    if s.len() > 0 {
        let v = le_value(s);
        lemma_le_bytes_of_value(s.drop_first());
        assert(v % 256 == s[0] as nat);
        assert(v / 256 == le_value(s.drop_first()));
        assert(le_bytes(v, s.len()) =~= s);
    }
}

/// The digits of zero are zero bytes.
pub proof fn lemma_le_bytes_zero(width: nat)
    ensures
        le_bytes(0, width) == zeros(width),
    decreases width,
{
    if width > 0 {
        lemma_le_bytes_zero((width - 1) as nat);
        lemma_le_bytes_len(0, (width - 1) as nat);
    }
    lemma_le_bytes_len(0, width);
    assert(le_bytes(0, width) =~= zeros(width));
}

/// Where the digits of a number that fits lie in `s` from `at` on, the number
/// is read back from there.
pub proof fn lemma_le_at_of_bytes(s: Seq<u8>, at: int, v: nat, width: nat)
    requires
        0 <= at,
        at + width <= s.len(),
        s.subrange(at, at + width) == le_bytes(v, width),
        v < radix(width),
    ensures
        le_at(s, at, width) == v,
{
    lemma_le_value_of_bytes(v, width);
}

/// Where `w` lies in `s` from `at` on, and the digits of a number that fits
/// lie in `w` from `off` on, the number is read back from `s` at `at + off`.
pub proof fn lemma_le_at_within(s: Seq<u8>, at: int, w: Seq<u8>, off: int, v: nat, width: nat)
    requires
        0 <= at,
        at + w.len() <= s.len(),
        s.subrange(at, at + w.len()) == w,
        0 <= off,
        off + width <= w.len(),
        w.subrange(off, off + width) == le_bytes(v, width),
        v < radix(width),
    ensures
        le_at(s, at + off, width) == v,
{
    assert(s.subrange(at + off, at + off + width) =~= w.subrange(off, off + width));
    lemma_le_value_of_bytes(v, width);
}

/// Two's complement loses nothing of a number that fits in `width` bytes.
pub proof fn lemma_signed_of_unsigned(v: int, width: nat)
    requires
        -(radix(width) as int) <= 2 * v < radix(width),
    ensures
        unsigned(v, width) < radix(width),
        signed(unsigned(v, width), width) == v,
{
}

/// `byteorder::LittleEndian::write_u16` on a buffer of two bytes: the buffer
/// then holds the two digits of `v`, low digit first.
#[verifier::external_body]
pub(crate) fn write_u16(v: u16) -> (out: [u8; 2])
    ensures
        out@ == le_bytes(v as nat, 2),
{
    let mut out = [0u8; 2];
    LittleEndian::write_u16(&mut out, v);
    out
}

/// `byteorder::LittleEndian::write_u32` on a buffer of four bytes: the buffer
/// then holds the four digits of `v`, low digit first.
#[verifier::external_body]
pub(crate) fn write_u32(v: u32) -> (out: [u8; 4])
    ensures
        out@ == le_bytes(v as nat, 4),
{
    let mut out = [0u8; 4];
    LittleEndian::write_u32(&mut out, v);
    out
}

/// `byteorder::LittleEndian::write_u64` on a buffer of eight bytes: the
/// buffer then holds the eight digits of `v`, low digit first.
#[verifier::external_body]
pub(crate) fn write_u64(v: u64) -> (out: [u8; 8])
    ensures
        out@ == le_bytes(v as nat, 8),
{
    let mut out = [0u8; 8];
    LittleEndian::write_u64(&mut out, v);
    out
}

/// `byteorder::LittleEndian::write_i16` on a buffer of two bytes: the buffer
/// then holds the two's complement of `v`, low digit first.
#[verifier::external_body]
pub(crate) fn write_i16(v: i16) -> (out: [u8; 2])
    ensures
        out@ == le_bytes(unsigned(v as int, 2), 2),
{
    let mut out = [0u8; 2];
    LittleEndian::write_i16(&mut out, v);
    out
}

/// `byteorder::LittleEndian::write_i32` on a buffer of four bytes: the buffer
/// then holds the two's complement of `v`, low digit first.
#[verifier::external_body]
pub(crate) fn write_i32(v: i32) -> (out: [u8; 4])
    ensures
        out@ == le_bytes(unsigned(v as int, 4), 4),
{
    let mut out = [0u8; 4];
    LittleEndian::write_i32(&mut out, v);
    out
}

/// `byteorder::LittleEndian::write_i64` on a buffer of eight bytes: the
/// buffer then holds the two's complement of `v`, low digit first.
#[verifier::external_body]
pub(crate) fn write_i64(v: i64) -> (out: [u8; 8])
    ensures
        out@ == le_bytes(unsigned(v as int, 8), 8),
{
    let mut out = [0u8; 8];
    LittleEndian::write_i64(&mut out, v);
    out
}

/// `byteorder::LittleEndian::read_u16`, which panics on fewer than two
/// bytes: the number whose digits are the first two bytes, low digit first.
#[verifier::external_body]
pub(crate) fn read_u16(buf: &[u8]) -> (v: u16)
    requires
        buf@.len() >= 2,
    ensures
        v as nat == le_value(buf@.take(2)),
{
    LittleEndian::read_u16(buf)
}

/// `byteorder::LittleEndian::read_u32`, which panics on fewer than four
/// bytes: the number whose digits are the first four bytes, low digit first.
#[verifier::external_body]
pub(crate) fn read_u32(buf: &[u8]) -> (v: u32)
    requires
        buf@.len() >= 4,
    ensures
        v as nat == le_value(buf@.take(4)),
{
    LittleEndian::read_u32(buf)
}

/// `byteorder::LittleEndian::read_u64`, which panics on fewer than eight
/// bytes: the number whose digits are the first eight bytes, low digit first.
#[verifier::external_body]
pub(crate) fn read_u64(buf: &[u8]) -> (v: u64)
    requires
        buf@.len() >= 8,
    ensures
        v as nat == le_value(buf@.take(8)),
{
    LittleEndian::read_u64(buf)
}

/// `byteorder::LittleEndian::read_i16`, which panics on fewer than two
/// bytes: the signed number whose two's complement the first two bytes hold,
/// low digit first.
#[verifier::external_body]
pub(crate) fn read_i16(buf: &[u8]) -> (v: i16)
    requires
        buf@.len() >= 2,
    ensures
        v as int == signed(le_value(buf@.take(2)), 2),
{
    LittleEndian::read_i16(buf)
}

/// `byteorder::LittleEndian::read_i32`, which panics on fewer than four
/// bytes: the signed number whose two's complement the first four bytes
/// hold, low digit first.
#[verifier::external_body]
pub(crate) fn read_i32(buf: &[u8]) -> (v: i32)
    requires
        buf@.len() >= 4,
    ensures
        v as int == signed(le_value(buf@.take(4)), 4),
{
    LittleEndian::read_i32(buf)
}

/// `byteorder::LittleEndian::read_i64`, which panics on fewer than eight
/// bytes: the signed number whose two's complement the first eight bytes
/// hold, low digit first.
#[verifier::external_body]
pub(crate) fn read_i64(buf: &[u8]) -> (v: i64)
    requires
        buf@.len() >= 8,
    ensures
        v as int == signed(le_value(buf@.take(8)), 8),
{
    LittleEndian::read_i64(buf)
}

} // verus!
