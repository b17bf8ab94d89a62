//! The 36-byte header that begins every message: frame, frame address and
//! protocol header.
//!
//! | bytes    | field                                                        |
//! |----------|--------------------------------------------------------------|
//! | 0..2     | size of the whole message                                    |
//! | 2..4     | origin (bits 14-15), tagged (13), addressable (12), protocol |
//! | 4..8     | source                                                       |
//! | 8..16    | target                                                       |
//! | 16..22   | reserved, zero                                               |
//! | 22       | ack required (bit 1), response required (bit 0)              |
//! | 23       | sequence                                                     |
//! | 24..32   | reserved, zero                                               |
//! | 32..34   | type                                                         |
//! | 34..36   | reserved, zero                                               |

use crate::serialize::ByteDecoder;
use crate::serialize::ByteEncoder;
use crate::serialize::Decodable;
use crate::serialize::DecodeError;
use crate::serialize::Encodable;
use crate::serialize::EncodeError;
use crate::wire::le_at;
use crate::wire::le_bytes;
use crate::wire::lemma_le_at_of_bytes;
use crate::wire::lemma_le_bytes_len;
use crate::wire::lemma_le_bytes_zero;
use crate::wire::lemma_le_value_bound;
use crate::wire::lemma_radix_values;
use crate::wire::zeros;
use vstd::prelude::*;

verus! {

/// The number of bytes of a header on the wire.
pub const HEADER_SIZE: u16 = 36;

/// The protocol number that every message carries.
pub const PROTOCOL: u16 = 1024;

/// The fields of a header.
pub struct HeaderView {
    pub size: u16,
    pub origin: u8,
    pub tagged: bool,
    pub addressable: bool,
    pub protocol: u16,
    pub source: u32,
    pub target: u64,
    pub ack_required: bool,
    pub res_required: bool,
    pub sequence: u8,
    pub typ: u16,
}

impl HeaderView {
    /// The origin fits its two bits and the protocol number its twelve.
    pub open spec fn wf(self) -> bool {
        self.origin <= 3 && self.protocol <= 0xFFF
    }

    /// The 16-bit word at offset 2.
    pub open spec fn frame_word(self) -> nat {
        (self.origin * 0x4000 + (if self.tagged {
            0x2000int
        } else {
            0
        }) + (if self.addressable {
            0x1000int
        } else {
            0
        }) + self.protocol) as nat
    }

    /// The byte at offset 22.
    pub open spec fn flags_byte(self) -> u8 {
        ((if self.ack_required {
            2int
        } else {
            0
        }) + (if self.res_required {
            1int
        } else {
            0
        })) as u8
    }

    /// The 36 bytes of the header on the wire.
    pub open spec fn wire(self) -> Seq<u8> {
        le_bytes(self.size as nat, 2) + le_bytes(self.frame_word(), 2) + le_bytes(
            self.source as nat,
            4,
        ) + le_bytes(self.target as nat, 8) + zeros(6) + seq![self.flags_byte()]
            + seq![self.sequence] + zeros(8) + le_bytes(self.typ as nat, 2) + zeros(2)
    }
}

/// The header that the 36 bytes of `s` from index `at` on hold. Reserved
/// bytes are passed over, whatever they hold.
pub open spec fn parse_header(s: Seq<u8>, at: int) -> Result<(HeaderView, nat), DecodeError> {
    if s.len() - at < 36 {
        Err(DecodeError::UnexpectedEnd)
    } else {
        let word = le_at(s, at + 2, 2);
        let flags = s[at + 22];
        Ok(
            (
                HeaderView {
                    size: le_at(s, at, 2) as u16,
                    origin: (word / 0x4000) as u8,
                    tagged: (word / 0x2000) % 2 == 1,
                    addressable: (word / 0x1000) % 2 == 1,
                    protocol: (word % 0x1000) as u16,
                    source: le_at(s, at + 4, 4) as u32,
                    target: le_at(s, at + 8, 8) as u64,
                    ack_required: (flags / 2) % 2 == 1,
                    res_required: flags % 2 == 1,
                    sequence: s[at + 23],
                    typ: le_at(s, at + 32, 2) as u16,
                },
                36,
            ),
        )
    }
}

/// A message header.
#[derive(Debug, Clone, Copy, PartialEq, Eq, Structural)]
pub struct Header {
    size: u16,
    origin: u8,
    tagged: bool,
    addressable: bool,
    protocol: u16,
    source: u32,
    target: u64,
    ack_required: bool,
    res_required: bool,
    sequence: u8,
    typ: u16,
}

impl View for Header {
    type V = HeaderView;

    closed spec fn view(&self) -> HeaderView {
        HeaderView {
            size: self.size,
            origin: self.origin,
            tagged: self.tagged,
            addressable: self.addressable,
            protocol: self.protocol,
            source: self.source,
            target: self.target,
            ack_required: self.ack_required,
            res_required: self.res_required,
            sequence: self.sequence,
            typ: self.typ,
        }
    }
}

impl Header {
    /// Every header is well formed.
    #[verifier::type_invariant]
    pub open spec fn fits(self) -> bool {
        self@.wf()
    }

    /// A header with origin 0, the addressable flag set and the protocol
    /// number 1024.
    pub fn new(
        size: u16,
        tagged: bool,
        source: u32,
        target: u64,
        ack_required: bool,
        res_required: bool,
        sequence: u8,
        typ: u16,
    ) -> (h: Header)
        ensures
            h@ == (HeaderView {
                size,
                origin: 0,
                tagged,
                addressable: true,
                protocol: PROTOCOL,
                source,
                target,
                ack_required,
                res_required,
                sequence,
                typ,
            }),
    {
        Header {
            size,
            origin: 0,
            tagged,
            addressable: true,
            protocol: PROTOCOL,
            source,
            target,
            ack_required,
            res_required,
            sequence,
            typ,
        }
    }

    /// The device that the message is for; 0 for all devices.
    pub fn target(&self) -> (target: u64)
        ensures
            target == self@.target,
    {
        self.target
    }

    /// The type code of the payload.
    pub fn typ(&self) -> (typ: u16)
        ensures
            typ == self@.typ,
    {
        self.typ
    }

    /// The size of the whole message in bytes.
    pub fn size(&self) -> (size: u16)
        ensures
            size == self@.size,
    {
        self.size
    }

    /// The number of bytes of a header on the wire.
    pub fn mem_size() -> (n: u16)
        ensures
            n == HEADER_SIZE,
    {
        HEADER_SIZE
    }
}

impl Default for Header {
    /// The header of an empty message to all devices that asks for an
    /// acknowledgement and a response.
    fn default() -> (h: Header)
        ensures
            h@ == (HeaderView {
                size: 0,
                origin: 0,
                tagged: true,
                addressable: true,
                protocol: PROTOCOL,
                source: 0,
                target: 0,
                ack_required: true,
                res_required: true,
                sequence: 0,
                typ: 0,
            }),
    {
        Header::new(0, true, 0, 0, true, true, 0, 0)
    }
}

impl Encodable for Header {
    open spec fn encodable(&self) -> bool {
        true
    }

    open spec fn wire(&self) -> Seq<u8> {
        self@.wire()
    }

    fn encode(&self, s: &mut ByteEncoder) -> (r: Result<(), EncodeError>) {
        proof {
            use_type_invariant(self);
        }
        // frame
        s.emit_u16(self.size);
        let mut value: u16 = (self.origin as u16) << 14;
        if self.tagged {
            value = value | 0x2000;
        }
        if self.addressable {
            value = value | 0x1000;
        }
        let word: u16 = self.protocol | value;
        proof {
            let origin = self.origin;
            let protocol = self.protocol;
            let shifted: u16 = (origin as u16) << 14;
            assert(shifted == origin * 0x4000 && (protocol | shifted) == protocol + shifted
                && (protocol | (shifted | 0x2000)) == protocol + shifted + 0x2000 && (protocol | (
            shifted | 0x1000)) == protocol + shifted + 0x1000 && (protocol | ((shifted | 0x2000)
                | 0x1000)) == protocol + shifted + 0x3000) by (bit_vector)
                requires
                    origin <= 3,
                    protocol <= 0xFFF,
                    shifted == (origin as u16) << 14,
            ;
            assert(word as nat == self@.frame_word());
        }
        s.emit_u16(word);
        s.emit_u32(self.source);
        // frame address
        s.emit_u64(self.target);
        let mut i: usize = 0;
        while i < 6
            invariant
                i <= 6,
                s@ == old(s)@ + le_bytes(self@.size as nat, 2) + le_bytes(self@.frame_word(), 2)
                    + le_bytes(self@.source as nat, 4) + le_bytes(self@.target as nat, 8) + zeros(
                    i as nat,
                ),
            decreases 6 - i,
        {
            s.emit_u8(0);
            i = i + 1;
            assert(zeros((i - 1) as nat).push(0u8) =~= zeros(i as nat));
        }
        let mut flags: u8 = 0;
        if self.ack_required {
            flags = flags | 0b0000_0010;
        }
        if self.res_required {
            flags = flags | 0b0000_0001;
        }
        proof {
            assert(0u8 | 2u8 == 2u8 && 0u8 | 1u8 == 1u8 && (0u8 | 2u8) | 1u8 == 3u8)
                by (bit_vector);
            assert(flags == self@.flags_byte());
        }
        s.emit_u8(flags);
        s.emit_u8(self.sequence);
        // protocol header
        s.emit_u64(0);
        s.emit_u16(self.typ);
        s.emit_u16(0);
        proof {
            lemma_le_bytes_zero(8);
            lemma_le_bytes_zero(2);
            assert(s@ =~= old(s)@ + self@.wire());
        }
        Ok(())
    }
}

impl Decodable for Header {
    open spec fn parse(s: Seq<u8>, at: int) -> Result<(HeaderView, nat), DecodeError> {
        parse_header(s, at)
    }

    fn decode(d: &mut ByteDecoder) -> (r: Result<Header, DecodeError>) {
        if d.unread() < 36 {
            return Err(DecodeError::UnexpectedEnd);
        }
        // frame
        let size: u16 = d.read_u16()?;
        let word: u16 = d.read_u16()?;
        let origin: u8 = ((word & 0b1100_0000_0000_0000) >> 14) as u8;
        let tagged: bool = (word & 0b0010_0000_0000_0000) > 0;
        let addressable: bool = (word & 0b0001_0000_0000_0000) > 0;
        let protocol: u16 = word & 0b0000_1111_1111_1111;
        let source: u32 = d.read_u32()?;
        // frame address
        let target: u64 = d.read_u64()?;
        let mut i: usize = 0;
        while i < 6
            invariant
                i <= 6,
                old(d).advanced(d, 16 + i as int),
                old(d).remaining() >= 36,
            decreases 6 - i,
        {
            let _ = d.read_u8()?;
            i = i + 1;
        }
        let flags: u8 = d.read_u8()?;
        let ack_required: bool = flags & 0b0000_0010 > 0;
        let res_required: bool = flags & 0b0000_0001 > 0;
        let sequence: u8 = d.read_u8()?;
        // protocol header
        let _ = d.read_u64()?;
        let typ: u16 = d.read_u16()?;
        let _ = d.read_u16()?;
        proof {
            assert(((word & 0b1100_0000_0000_0000) >> 14) == word / 0x4000 && ((word
                & 0b0010_0000_0000_0000) > 0) == ((word / 0x2000) % 2 == 1) && ((word
                & 0b0001_0000_0000_0000) > 0) == ((word / 0x1000) % 2 == 1) && (word
                & 0b0000_1111_1111_1111) == word % 0x1000 && word / 0x4000 <= 3) by (bit_vector);
            assert(((flags & 0b0000_0010) > 0) == ((flags / 2) % 2 == 1) && ((flags & 0b0000_0001)
                > 0) == (flags % 2 == 1)) by (bit_vector);
            lemma_radix_values();
            lemma_le_value_bound(
                old(d).input().subrange(old(d).position() as int + 2, old(d).position() as int + 4),
            );
        }
        Ok(
            Header {
                size,
                origin,
                tagged,
                addressable,
                protocol,
                source,
                target,
                ack_required,
                res_required,
                sequence,
                typ,
            },
        )
    }
}

/// A well-formed header is read back from wherever its wire form lies.
pub proof fn lemma_parse_header_of_wire(s: Seq<u8>, at: int, h: HeaderView)
    requires
        h.wf(),
        0 <= at,
        at + 36 <= s.len(),
        s.subrange(at, at + 36) == h.wire(),
    ensures
        parse_header(s, at) == Ok::<(HeaderView, nat), DecodeError>((h, 36)),
{
    let p0 = le_bytes(h.size as nat, 2);
    let p1 = le_bytes(h.frame_word(), 2);
    let p2 = le_bytes(h.source as nat, 4);
    let p3 = le_bytes(h.target as nat, 8);
    let p8 = le_bytes(h.typ as nat, 2);
    let c1 = p0 + p1;
    let c2 = c1 + p2;
    let c3 = c2 + p3;
    let c4 = c3 + zeros(6);
    let c5 = c4 + seq![h.flags_byte()];
    let c6 = c5 + seq![h.sequence];
    let c7 = c6 + zeros(8);
    let c8 = c7 + p8;
    let w = c8 + zeros(2);
    assert(w == h.wire());
    lemma_radix_values();
    lemma_le_bytes_len(h.size as nat, 2);
    lemma_le_bytes_len(h.frame_word(), 2);
    lemma_le_bytes_len(h.source as nat, 4);
    lemma_le_bytes_len(h.target as nat, 8);
    lemma_le_bytes_len(h.typ as nat, 2);
    assert(c1.len() == 4 && c2.len() == 8 && c3.len() == 16 && c4.len() == 22 && c5.len() == 23
        && c6.len() == 24 && c7.len() == 32 && c8.len() == 34 && w.len() == 36);
    let t = s.subrange(at, at + 36);
    assert(s.subrange(at, at + 2) =~= t.subrange(0, 2));
    assert(s.subrange(at + 2, at + 4) =~= t.subrange(2, 4));
    assert(s.subrange(at + 4, at + 8) =~= t.subrange(4, 8));
    assert(s.subrange(at + 8, at + 16) =~= t.subrange(8, 16));
    assert(s.subrange(at + 32, at + 34) =~= t.subrange(32, 34));
    assert(w.subrange(0, 2) =~= p0);
    assert(w.subrange(2, 4) =~= p1);
    assert(w.subrange(4, 8) =~= p2);
    assert(w.subrange(8, 16) =~= p3);
    assert(w.subrange(32, 34) =~= p8);
    lemma_le_at_of_bytes(s, at, h.size as nat, 2);
    lemma_le_at_of_bytes(s, at + 2, h.frame_word(), 2);
    lemma_le_at_of_bytes(s, at + 4, h.source as nat, 4);
    lemma_le_at_of_bytes(s, at + 8, h.target as nat, 8);
    lemma_le_at_of_bytes(s, at + 32, h.typ as nat, 2);
    assert(s[at + 22] == t[22] && s[at + 23] == t[23]);
    assert(w[22] == h.flags_byte() && w[23] == h.sequence);
}

/// Decoding the wire form of a well-formed header gives the header back.
pub proof fn lemma_header_round_trip(h: HeaderView)
    requires
        h.wf(),
    ensures
        h.wire().len() == 36,
        parse_header(h.wire(), 0) == Ok::<(HeaderView, nat), DecodeError>((h, 36)),
{
    lemma_le_bytes_len(h.size as nat, 2);
    lemma_le_bytes_len(h.frame_word(), 2);
    lemma_le_bytes_len(h.source as nat, 4);
    lemma_le_bytes_len(h.target as nat, 8);
    lemma_le_bytes_len(h.typ as nat, 2);
    assert(h.wire().subrange(0, 36) =~= h.wire());
    lemma_parse_header_of_wire(h.wire(), 0, h);
}

} // verus!
