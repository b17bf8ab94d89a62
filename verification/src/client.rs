//! The session: the devices found so far, the sequence counter and the
//! closed flag, and what the session does with each datagram that arrives
//! and each message that leaves.
//!
//! Nothing here touches a socket. The caller receives and sends datagrams
//! and sleeps between them; the session decides what they mean.

use crate::message::parse_message;
use crate::message::Message;
use crate::message::MessageView;
use crate::payload::Device;
use crate::payload::DeviceView;
use crate::payload::Payload;
use crate::payload::PayloadView;
use crate::payload::Service;
use crate::serialize::decode;
use crate::serialize::encode;
use crate::serialize::DecodeError;
use std::collections::HashMap;
use vstd::prelude::*;

verus! {

/// How long to wait after a message to a device before the next one, in
/// milliseconds.
pub const MESSAGE_INTERVAL: u8 = 50;

/// How long a read or a write on the socket may block, in milliseconds, so
/// that a closed session is noticed soon.
pub const SOCKET_TIMEOUT: u32 = 500;

/// The port that devices listen on.
pub const DEFAULT_PORT: u16 = 56700;

/// udp broadcast ip address and lifx default port.
pub const BROADCAST_IP: &'static str = "255.255.255.255:56700";

/// Why a message did not leave.
#[derive(Debug, Clone, Copy, PartialEq, Eq, Structural)]
pub enum SendError {
    /// The message has no wire form.
    FailedToEncode,
    /// The transport refused the datagram.
    FailedToSend,
    /// The transport took fewer or more bytes than the message has.
    WrongNumberOfBytes,
}

/// sequence number counter used to confirm acks. Its view is the number
/// that the next message gets.
pub struct SequenceCounter {
    next: u8,
}

impl View for SequenceCounter {
    type V = u8;

    closed spec fn view(&self) -> u8 {
        self.next
    }
}

impl SequenceCounter {
    /// A counter that starts at 0.
    pub fn new() -> (counter: SequenceCounter)
        ensures
            counter@ == 0,
    {
        SequenceCounter { next: 0 }
    }
}

/// The sequence number that follows `seq`: one more, and 0 after 255.
pub open spec fn sequence_after(seq: u8) -> u8 {
    ((seq + 1) % 256) as u8
}

/// The sequence number that the counter holds after `calls` calls of
/// `next_sequence`, if it held `start` before them.
pub open spec fn sequence_after_calls(start: u8, calls: nat) -> u8
    decreases calls,
{
    if calls == 0 {
        start
    } else {
        sequence_after(sequence_after_calls(start, (calls - 1) as nat))
    }
}

/// returns the next sequence number, and moves the counter on.
pub fn next_sequence(counter: &mut SequenceCounter) -> (seq: u8)
    ensures
        seq == old(counter)@,
        final(counter)@ == sequence_after(old(counter)@),
{
    let seq: u8 = counter.next;
    counter.next = seq.wrapping_add(1);
    seq
}

/// The sequence numbers count up modulo 256: the call after `calls` calls
/// returns `(start + calls) % 256`. So a counter that starts at 0 returns 0
/// to 255 in order, and after every 256 calls it is back where it was.
pub proof fn lemma_sequence_wraps(start: u8, calls: nat)
    ensures
        sequence_after_calls(start, calls) == (start + calls) % 256,
        sequence_after_calls(start, calls + 256) == sequence_after_calls(start, calls),
    decreases calls,
{
    lemma_sequence_counts(start, calls);
    lemma_sequence_counts(start, calls + 256);
}

proof fn lemma_sequence_counts(start: u8, calls: nat)
    ensures
        sequence_after_calls(start, calls) == (start + calls) % 256,
    decreases calls,
{
    if calls > 0 {
        lemma_sequence_counts(start, (calls - 1) as nat);
    }
}

/// What a discovery round asks of each known device, as a set of flags.
#[derive(Debug, Clone, Copy, PartialEq, Eq, Structural)]
pub struct DiscoverOptions {
    bits: u8,
}

/// Ask each device for its label.
pub const GET_LABEL: u8 = 0b0000_0001;

/// Ask each device for the firmware of its wifi.
pub const GET_WIFI: u8 = 0b0000_0010;

/// Ask each device for its location.
pub const GET_LOCATION: u8 = 0b0000_0100;

/// Ask each device for the firmware of its host.
pub const GET_HOST_FIRMWARE: u8 = 0b0000_1000;

/// Ask each device for its group.
pub const GET_GROUP: u8 = 0b0001_0000;

/// Ask each device for its power level.
pub const GET_POWER: u8 = 0b0010_0000;

/// Ask each device for the state of its host.
pub const GET_HOST_INFO: u8 = 0b0100_0000;

/// Ask each device for everything.
pub const GET_ALL: u8 = 0b0111_1111;

impl View for DiscoverOptions {
    type V = u8;

    closed spec fn view(&self) -> u8 {
        self.bits
    }
}

impl DiscoverOptions {
    /// Whether the set has one of `flags`.
    pub open spec fn has(self, flags: u8) -> bool {
        self@ & flags != 0
    }

    /// No flag.
    pub fn empty() -> (options: DiscoverOptions)
        ensures
            options@ == 0,
    {
        DiscoverOptions { bits: 0 }
    }

    /// Every flag.
    pub fn all() -> (options: DiscoverOptions)
        ensures
            options@ == GET_ALL,
    {
        DiscoverOptions { bits: GET_ALL }
    }

    /// The flags as bits.
    pub fn bits(&self) -> (bits: u8)
        ensures
            bits == self@,
    {
        self.bits
    }

    /// The set of the flags among `bits`, if every bit is a flag.
    pub fn from_bits(bits: u8) -> (options: Option<DiscoverOptions>)
        ensures
            match options {
                Some(set) => set@ == bits && bits & GET_ALL == bits,
                None => bits & GET_ALL != bits,
            },
    {
        if bits & GET_ALL == bits {
            Some(DiscoverOptions { bits })
        } else {
            None
        }
    }

    /// The set of the flags among `bits`; a bit that is no flag is dropped.
    pub fn from_bits_truncate(bits: u8) -> (options: DiscoverOptions)
        ensures
            options@ == bits & GET_ALL,
    {
        DiscoverOptions { bits: bits & GET_ALL }
    }

    /// Whether the set has no flag.
    pub fn is_empty(&self) -> (none: bool)
        ensures
            none == (self@ == 0),
    {
        self.bits == 0
    }

    /// Whether the set has one of `flags`.
    pub fn intersects(&self, flags: u8) -> (shared: bool)
        ensures
            shared == self.has(flags),
    {
        self.bits & flags != 0
    }

    /// Whether the set has each of `flags`.
    pub fn contains(&self, flags: u8) -> (all: bool)
        ensures
            all == (self@ & flags == flags),
    {
        self.bits & flags == flags
    }
}

/// `request` if `asked`, else nothing.
pub open spec fn request_if(asked: bool, request: DeviceView) -> Seq<PayloadView> {
    if asked {
        seq![PayloadView::Device(request)]
    } else {
        Seq::empty()
    }
}

/// What a discovery round sends to each known device, in order: one request
/// for each flag of `options`.
pub open spec fn requests_for(options: DiscoverOptions) -> Seq<PayloadView> {
    request_if(options.has(GET_LABEL), DeviceView::GetLabel) + request_if(
        options.has(GET_POWER),
        DeviceView::GetPower,
    ) + request_if(options.has(GET_LOCATION), DeviceView::GetLocation) + request_if(
        options.has(GET_GROUP),
        DeviceView::GetGroup,
    ) + request_if(options.has(GET_HOST_INFO), DeviceView::GetHostInfo) + request_if(
        options.has(GET_HOST_FIRMWARE),
        DeviceView::GetHostFirmware,
    ) + request_if(options.has(GET_WIFI), DeviceView::GetWifiFirmware)
}

/// The views of the payloads of `payloads`.
pub open spec fn payload_views(payloads: Seq<Payload>) -> Seq<PayloadView> {
    payloads.map_values(|p: Payload| p@)
}

/// What begins a discovery round, sent to all devices at `BROADCAST_IP`:
/// the payload, whether an acknowledgement is asked for, and the target.
pub fn discover_broadcast() -> (r: (Payload, bool, u64))
    ensures
        r.0@ == PayloadView::Device(DeviceView::GetService),
        !r.1,
        r.2 == 0,
{
    (Payload::Device(Device::GetService), false, 0)
}

/// What a discovery round sends to each known device after the broadcast,
/// in order.
pub fn discover_requests(options: DiscoverOptions) -> (requests: Vec<Payload>)
    ensures
        payload_views(requests@) == requests_for(options),
{
    let mut requests: Vec<Payload> = Vec::new();
    assert(payload_views(requests@) =~= Seq::empty());
    if options.intersects(GET_LABEL) {
        requests.push(Payload::Device(Device::GetLabel));
    }
    let ghost r1 = requests@;
    assert(payload_views(r1) =~= request_if(options.has(GET_LABEL), DeviceView::GetLabel));
    if options.intersects(GET_POWER) {
        requests.push(Payload::Device(Device::GetPower));
    }
    let ghost r2 = requests@;
    assert(payload_views(r2) =~= payload_views(r1) + request_if(
        options.has(GET_POWER),
        DeviceView::GetPower,
    ));
    if options.intersects(GET_LOCATION) {
        requests.push(Payload::Device(Device::GetLocation));
    }
    let ghost r3 = requests@;
    assert(payload_views(r3) =~= payload_views(r2) + request_if(
        options.has(GET_LOCATION),
        DeviceView::GetLocation,
    ));
    if options.intersects(GET_GROUP) {
        requests.push(Payload::Device(Device::GetGroup));
    }
    let ghost r4 = requests@;
    assert(payload_views(r4) =~= payload_views(r3) + request_if(
        options.has(GET_GROUP),
        DeviceView::GetGroup,
    ));
    if options.intersects(GET_HOST_INFO) {
        requests.push(Payload::Device(Device::GetHostInfo));
    }
    let ghost r5 = requests@;
    assert(payload_views(r5) =~= payload_views(r4) + request_if(
        options.has(GET_HOST_INFO),
        DeviceView::GetHostInfo,
    ));
    if options.intersects(GET_HOST_FIRMWARE) {
        requests.push(Payload::Device(Device::GetHostFirmware));
    }
    let ghost r6 = requests@;
    assert(payload_views(r6) =~= payload_views(r5) + request_if(
        options.has(GET_HOST_FIRMWARE),
        DeviceView::GetHostFirmware,
    ));
    if options.intersects(GET_WIFI) {
        requests.push(Payload::Device(Device::GetWifiFirmware));
    }
    assert(payload_views(requests@) =~= payload_views(r6) + request_if(
        options.has(GET_WIFI),
        DeviceView::GetWifiFirmware,
    ));
    requests
}

/// What is known of a device.
pub struct BulbView<A> {
    pub label: Option<Seq<char>>,
    pub location: Option<Seq<char>>,
    pub ip: A,
    pub port: u32,
    pub target: u64,
}

/// a bulb is a LiFX device where the service is Udp.
#[derive(Debug, Clone)]
pub struct Bulb<A> {
    label: Option<String>,
    location: Option<String>,
    ip: A,
    port: u32,
    target: u64,
}

/// The text of an optional string.
pub open spec fn text_of(s: Option<String>) -> Option<Seq<char>> {
    match s {
        Some(text) => Some(text@),
        None => None,
    }
}

impl<A> View for Bulb<A> {
    type V = BulbView<A>;

    closed spec fn view(&self) -> BulbView<A> {
        BulbView {
            label: text_of(self.label),
            location: text_of(self.location),
            ip: self.ip,
            port: self.port,
            target: self.target,
        }
    }
}

impl<A> Bulb<A> {
    /// returns the label of the bulb, if one was received.
    pub fn label(&self) -> (label: Option<&str>)
        ensures
            match label {
                Some(text) => self@.label == Some(text@),
                None => self@.label is None,
            },
    {
        match self.label {
            Some(ref label) => Some(label.as_str()),
            None => None,
        }
    }

    /// returns the label of the location of the bulb, if one was received.
    pub fn location(&self) -> (location: Option<&str>)
        ensures
            match location {
                Some(text) => self@.location == Some(text@),
                None => self@.location is None,
            },
    {
        match self.location {
            Some(ref location) => Some(location.as_str()),
            None => None,
        }
    }

    /// The address that the bulb answered from.
    pub fn ip(&self) -> (ip: &A)
        ensures
            *ip == self@.ip,
    {
        &self.ip
    }

    /// The port that the bulb offers its service on.
    pub fn port(&self) -> (port: u32)
        ensures
            port == self@.port,
    {
        self.port
    }

    /// The identifier of the bulb.
    pub fn target(&self) -> (target: u64)
        ensures
            target == self@.target,
    {
        self.target
    }
}

/// The state of a session.
pub struct ClientView<A> {
    /// Whether the session was closed. A closed session stays closed.
    pub closed: bool,
    /// The devices found so far, by their identifiers.
    pub devices: Map<u64, BulbView<A>>,
    /// The sequence number of the next message.
    pub sequence: u8,
}

impl<A> ClientView<A> {
    /// The state after a message with `payload` arrived from the device
    /// `target` at the address `src`.
    ///
    /// A `StateService` for UDP registers the device, unless it is known
    /// already: the first answer stands. A `StateLabel` or a `StateLocation`
    /// fills in the label or the location of a known device, and does nothing
    /// for an unknown one. Nothing else changes the state.
    pub open spec fn receive(self, payload: PayloadView, target: u64, src: A) -> Self {
        match payload {
            PayloadView::Device(DeviceView::StateService(Service::Udp, port)) => {
                if self.devices.contains_key(target) {
                    self
                } else {
                    ClientView {
                        devices: self.devices.insert(
                            target,
                            BulbView { label: None, location: None, ip: src, port, target },
                        ),
                        ..self
                    }
                }
            },
            PayloadView::Device(DeviceView::StateLabel(label)) => {
                if self.devices.contains_key(target) {
                    ClientView {
                        devices: self.devices.insert(
                            target,
                            BulbView { label: Some(label), ..self.devices[target] },
                        ),
                        ..self
                    }
                } else {
                    self
                }
            },
            PayloadView::Device(DeviceView::StateLocation(_, location, _)) => {
                if self.devices.contains_key(target) {
                    ClientView {
                        devices: self.devices.insert(
                            target,
                            BulbView { location: Some(location), ..self.devices[target] },
                        ),
                        ..self
                    }
                } else {
                    self
                }
            },
            _ => self,
        }
    }
}

/// What is known of each device of `devices`.
pub open spec fn bulb_views<A>(devices: Map<u64, Bulb<A>>) -> Map<u64, BulbView<A>> {
    devices.map_values(|b: Bulb<A>| b@)
}

/// the client handles device messages from from any lifx bulb.
pub struct Client<A> {
    closed: bool,
    devices: HashMap<u64, Bulb<A>>,
    sequence: SequenceCounter,
}

impl<A> View for Client<A> {
    type V = ClientView<A>;

    closed spec fn view(&self) -> ClientView<A> {
        ClientView {
            closed: self.closed,
            devices: bulb_views(self.devices@),
            sequence: self.sequence@,
        }
    }
}

impl<A> Client<A> {
    /// creates a new client: open, with no device, at sequence number 0.
    pub fn new() -> (client: Client<A>)
        ensures
            client@ == (ClientView::<A> { closed: false, devices: Map::empty(), sequence: 0 }),
    {
        let client = Client {
            closed: false,
            devices: HashMap::new(),
            sequence: SequenceCounter::new(),
        };
        assert(client@.devices =~= Map::empty());
        client
    }

    /// Takes in a message that arrived from the device `target` at the
    /// address `src`, and updates the client object accordingly.
    pub fn update(&mut self, payload: Payload, target: u64, src: A)
        ensures
            final(self)@ == old(self)@.receive(payload@, target, src),
    {
        match payload {
            Payload::Device(Device::StateService(Service::Udp, port)) => {
                if !self.devices.contains_key(&target) {
                    let bulb = Bulb { label: None, location: None, ip: src, port: port, target: target };
                    self.devices.insert(target, bulb);
                    assert(self@.devices =~= old(self)@.devices.insert(target, bulb@));
                }
            },
            Payload::Device(Device::StateLabel(label)) => {
                match self.devices.remove(&target) {
                    Some(bulb) => {
                        let bulb = Bulb { label: Some(label), ..bulb };
                        self.devices.insert(target, bulb);
                        assert(self@.devices =~= old(self)@.devices.insert(target, bulb@));
                    },
                    None => {
                        assert(self.devices@ =~= old(self).devices@);
                    },
                }
            },
            Payload::Device(Device::StateLocation(_, location, _)) => {
                match self.devices.remove(&target) {
                    Some(bulb) => {
                        let bulb = Bulb { location: Some(location), ..bulb };
                        self.devices.insert(target, bulb);
                        assert(self@.devices =~= old(self)@.devices.insert(target, bulb@));
                    },
                    None => {
                        assert(self.devices@ =~= old(self).devices@);
                    },
                }
            },
            _ => (),
        }
    }

    /// Takes in a datagram that arrived from the address `src`. Bytes that
    /// are no message change nothing: the error says why they are none.
    pub fn receive(&mut self, datagram: &[u8], src: A) -> (r: Result<(), DecodeError>)
        ensures
            match parse_message(datagram@, 0) {
                Ok((message, _)) => r is Ok && final(self)@ == old(self)@.receive(
                    message.payload,
                    message.header.target,
                    src,
                ),
                Err(e) => r == Err::<(), DecodeError>(e) && final(self)@ == old(self)@,
            },
    {
        match decode::<Message>(datagram) {
            Ok(message) => {
                let (payload, target) = message.unpack();
                self.update(payload, target, src);
                Ok(())
            },
            Err(e) => Err(e),
        }
    }

    /// Gives the next message its sequence number, and returns the number
    /// with the datagram to send. The number is used up even where the
    /// payload has no wire form.
    pub fn prepare_msg(&mut self, payload: Payload, ack_required: bool, target: u64) -> (r: Result<
        (u8, Vec<u8>),
        SendError,
    >)
        ensures
            final(self)@ == (ClientView {
                sequence: sequence_after(old(self)@.sequence),
                ..old(self)@
            }),
            payload@.encodable() ==> r is Ok && r->Ok_0.0 == old(self)@.sequence && r->Ok_0.1@
                == MessageView::new(payload@, ack_required, target, old(self)@.sequence).wire(),
            !payload@.encodable() ==> r == Err::<(u8, Vec<u8>), SendError>(
                SendError::FailedToEncode,
            ),
    {
        let seq: u8 = next_sequence(&mut self.sequence);
        let msg = Message::new(payload, ack_required, target, seq);
        match encode(&msg) {
            Ok(encoded) => Ok((seq, encoded)),
            Err(_) => Err(SendError::FailedToEncode),
        }
    }

    /// returns the devices that the client has found.
    pub fn devices(&self) -> (devices: &HashMap<u64, Bulb<A>>)
        ensures
            bulb_views(devices@) == self@.devices,
    {
        &self.devices
    }

    /// returns a particular device, given its target id.
    pub fn device(&self, target: u64) -> (device: Option<&Bulb<A>>)
        ensures
            match device {
                Some(bulb) => self@.devices.contains_key(target) && self@.devices[target]
                    == bulb@,
                None => !self@.devices.contains_key(target),
            },
    {
        self.devices.get(&target)
    }

    /// closes a client. it will no longer receive responses from the socket.
    pub fn close(&mut self)
        ensures
            final(self)@ == (ClientView { closed: true, ..old(self)@ }),
    {
        self.closed = true;
    }

    /// checks if a client is closed.
    pub fn is_closed(&self) -> (closed: bool)
        ensures
            closed == self@.closed,
    {
        self.closed
    }
}

/// What came of handing the transport a message of `expected` bytes under
/// the sequence number `seq`: the number, if the transport took the datagram
/// and took all of it. `written` is the number of bytes that the transport
/// took, or none where it refused the datagram.
pub fn confirm_sent(seq: u8, expected: usize, written: Option<usize>) -> (r: Result<u8, SendError>)
    ensures
        r == match written {
            None => Err::<u8, SendError>(SendError::FailedToSend),
            Some(n) => if n == expected {
                Ok::<u8, SendError>(seq)
            } else {
                Err::<u8, SendError>(SendError::WrongNumberOfBytes)
            },
        },
{
    match written {
        None => Err(SendError::FailedToSend),
        Some(bytes) => {
            if bytes == expected {
                Ok(seq)
            } else {
                Err(SendError::WrongNumberOfBytes)
            }
        },
    }
}

/// An answer for a device that is not registered changes nothing.
pub proof fn lemma_unknown_device_ignored<A>(
    client: ClientView<A>,
    payload: PayloadView,
    target: u64,
    src: A,
)
    requires
        !client.devices.contains_key(target),
        payload matches PayloadView::Device(m) && (m is StateLabel || m is StateLocation),
    ensures
        client.receive(payload, target, src) == client,
{
}

/// A `StateService` for a device that is registered changes nothing: the
/// first answer stands.
pub proof fn lemma_first_seen_wins<A>(
    client: ClientView<A>,
    service: Service,
    port: u32,
    target: u64,
    src: A,
)
    requires
        client.devices.contains_key(target),
    ensures
        client.receive(
            PayloadView::Device(DeviceView::StateService(service, port)),
            target,
            src,
        ) == client,
{
}

/// No message that arrives closes or reopens a session, or touches its
/// sequence counter, or removes a device.
pub proof fn lemma_receive_keeps<A>(
    client: ClientView<A>,
    payload: PayloadView,
    target: u64,
    src: A,
)
    ensures
        client.receive(payload, target, src).closed == client.closed,
        client.receive(payload, target, src).sequence == client.sequence,
        forall|id: u64|
            client.devices.contains_key(id) ==> #[trigger] client.receive(
                payload,
                target,
                src,
            ).devices.contains_key(id),
{
}

} // verus!
