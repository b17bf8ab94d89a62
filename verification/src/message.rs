//! A message: a header and the payload that it announces.

use crate::header::lemma_parse_header_of_wire;
use crate::header::parse_header;
use crate::header::Header;
use crate::header::HeaderView;
use crate::header::PROTOCOL;
use crate::payload::lemma_parse_payload_of_wire;
use crate::payload::lemma_wire_len;
use crate::payload::parse_payload;
use crate::payload::Payload;
use crate::payload::PayloadView;
use crate::serialize::ByteDecoder;
use crate::serialize::ByteEncoder;
use crate::serialize::Decodable;
use crate::serialize::DecodeError;
use crate::serialize::Encodable;
use crate::serialize::EncodeError;
use vstd::prelude::*;

verus! {

/// The source that this client writes into the header of what it sends.
pub const CLIENT_ID: u32 = 1111;

/// The header and the payload of a message.
pub struct MessageView {
    pub header: HeaderView,
    pub payload: PayloadView,
}

impl MessageView {
    /// The message that carries `payload` to `target` under the sequence
    /// number `seq`: the header takes its size, type code and flags from the
    /// payload.
    pub open spec fn new(payload: PayloadView, ack_required: bool, target: u64, seq: u8) -> Self {
        MessageView {
            header: HeaderView {
                size: (payload.size() + 36) as u16,
                origin: 0,
                tagged: payload.tagged(),
                addressable: true,
                protocol: PROTOCOL,
                source: CLIENT_ID,
                target,
                ack_required,
                res_required: payload.requires_response(),
                sequence: seq,
                typ: payload.typ(),
            },
            payload,
        }
    }

    /// The bytes of the message on the wire: the header, then the payload,
    /// with nothing between them.
    pub open spec fn wire(self) -> Seq<u8> {
        self.header.wire() + self.payload.wire()
    }
}

/// The message that the bytes of `s` from index `at` on hold: a header, and
/// after it the payload of the type that the header names.
pub open spec fn parse_message(s: Seq<u8>, at: int) -> Result<(MessageView, nat), DecodeError> {
    match parse_header(s, at) {
        Err(e) => Err(e),
        Ok((header, n)) => match parse_payload(header.typ, s, at + n) {
            Err(e) => Err(e),
            Ok((payload, m)) => Ok((MessageView { header, payload }, n + m)),
        },
    }
}

/// A header with its payload.
#[derive(Debug, Clone, PartialEq, Eq)]
pub struct Message {
    header: Header,
    payload: Payload,
}

impl View for Message {
    type V = MessageView;

    closed spec fn view(&self) -> MessageView {
        MessageView { header: self.header@, payload: self.payload@ }
    }
}

impl Message {
    /// creates a new message.
    pub fn new(msg: Payload, ack_required: bool, target: u64, seq: u8) -> (m: Message)
        ensures
            m@ == MessageView::new(msg@, ack_required, target, seq),
    {
        Message {
            header: Header::new(
                msg.size() + Header::mem_size(),
                msg.tagged(),
                CLIENT_ID,
                target,
                ack_required,
                msg.requires_response(),
                seq,
                msg.typ(),
            ),
            payload: msg,
        }
    }

    /// unpacks a message into a tuple of (payload, target).
    pub fn unpack(self) -> (r: (Payload, u64))
        ensures
            r.0@ == self@.payload,
            r.1 == self@.header.target,
    {
        (self.payload, self.header.target())
    }

    /// The header of the message.
    pub fn header(&self) -> (header: &Header)
        ensures
            header@ == self@.header,
    {
        &self.header
    }

    /// The payload of the message.
    pub fn payload(&self) -> (payload: &Payload)
        ensures
            payload@ == self@.payload,
    {
        &self.payload
    }
}

impl Encodable for Message {
    open spec fn encodable(&self) -> bool {
        self@.payload.encodable()
    }

    open spec fn wire(&self) -> Seq<u8> {
        self@.wire()
    }

    fn encode(&self, s: &mut ByteEncoder) -> (r: Result<(), EncodeError>) {
        let mut whole = ByteEncoder::new();
        let _ = self.header.encode(&mut whole);
        self.payload.encode(&mut whole)?;
        let bytes = whole.into_bytes();
        s.emit_bytes(bytes.as_slice());
        assert(bytes@ =~= self@.wire());
        Ok(())
    }
}

impl Decodable for Message {
    open spec fn parse(s: Seq<u8>, at: int) -> Result<(MessageView, nat), DecodeError> {
        parse_message(s, at)
    }

    fn decode(d: &mut ByteDecoder) -> (r: Result<Message, DecodeError>) {
        let mut fields = *d;
        let header = Header::decode(&mut fields)?;
        let message = Payload::decode(&mut fields, header.typ())?;
        *d = fields;
        Ok(Message { header: header, payload: message })
    }
}

/// A message made by `Message::new` is read back from its wire form, field
/// for field, if each label of its payload fits its field and has no NUL
/// character. The size in its header is the length of its wire form.
pub proof fn lemma_message_round_trip(
    payload: PayloadView,
    ack_required: bool,
    target: u64,
    seq: u8,
)
    requires
        payload.encodable(),
        payload.plain(),
    ensures
        ({
            let m = MessageView::new(payload, ack_required, target, seq);
            &&& m.wire().len() == m.header.size
            &&& parse_message(m.wire(), 0) == Ok::<(MessageView, nat), DecodeError>(
                (m, m.header.size as nat),
            )
        }),
{
    let m = MessageView::new(payload, ack_required, target, seq);
    let w = m.wire();
    lemma_wire_len(payload);
    crate::header::lemma_header_round_trip(m.header);
    assert(w.subrange(0, 36) =~= m.header.wire());
    lemma_parse_header_of_wire(w, 0, m.header);
    assert(w.subrange(36, 36 + payload.size()) =~= payload.wire());
    lemma_parse_payload_of_wire(w, 36, payload);
}

} // verus!
