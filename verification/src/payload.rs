//! The catalogue of messages: what each carries, its type code, its flags,
//! its size and its layout on the wire.
//!
//! A payload does not carry its own type code. The code travels in the
//! header, and `Payload::decode` is handed it.

use crate::serialize::ByteDecoder;
use crate::serialize::ByteEncoder;
use crate::serialize::Decodable;
use crate::serialize::DecodeError;
use crate::serialize::Encodable;
use crate::serialize::EncodeError;
use crate::text::lemma_text_end_from;
use crate::text::lemma_text_round_trip;
use crate::text::parse_text;
use crate::text::text_end;
use crate::text::text_field;
use crate::text::text_fits;
use crate::text::text_plain;
use crate::wire::le_at;
use crate::wire::le_bytes;
use crate::wire::lemma_le_at_within;
use crate::wire::lemma_le_bytes_len;
use crate::wire::lemma_le_bytes_zero;
use crate::wire::lemma_radix_values;
use crate::wire::zeros;
use crate::serialize::string_from_utf8;
use vstd::prelude::*;
use vstd::slice::slice_subrange;
use vstd::slice::slice_to_vec;
use vstd::std_specs::convert::FromSpecImpl;
use vstd::utf8::encode_utf8;

verus! {

/// Max allowable brightness.
pub const MAX_BRIGHTNESS: u16 = 65535;

/// Max allowable saturation.
pub const MAX_SATURATION: u16 = 65535;

/// The colour temperature of the preset colours that have one.
pub const DEFAULT_KELVIN: u16 = 3500;

/// The lowest colour temperature that `HSBK::new` takes.
pub const MIN_KELVIN: u16 = 2500;

/// The highest colour temperature that `HSBK::new` takes.
pub const MAX_KELVIN: u16 = 9000;

/// The width in bytes of a label on the wire.
pub const LABEL_SIZE: usize = 32;

/// The fields of a colour.
pub struct HsbkView {
    pub hue: u16,
    pub saturation: u16,
    pub brightness: u16,
    pub kelvin: u16,
}

impl HsbkView {
    /// The eight bytes of the colour on the wire.
    pub open spec fn wire(self) -> Seq<u8> {
        le_bytes(self.hue as nat, 2) + le_bytes(self.saturation as nat, 2) + le_bytes(
            self.brightness as nat,
            2,
        ) + le_bytes(self.kelvin as nat, 2)
    }
}

/// The colour in the eight bytes of `s` from index `at` on.
pub open spec fn hsbk_at(s: Seq<u8>, at: int) -> HsbkView {
    HsbkView {
        hue: le_at(s, at, 2) as u16,
        saturation: le_at(s, at + 2, 2) as u16,
        brightness: le_at(s, at + 4, 2) as u16,
        kelvin: le_at(s, at + 6, 2) as u16,
    }
}

/// HSBK (Hue, Saturation, Brightness, Kelvin)
#[derive(Debug, Clone, Copy, PartialEq, Eq, Structural)]
pub struct HSBK {
    hue: u16,
    saturation: u16,
    brightness: u16,
    kelvin: u16,
}

impl View for HSBK {
    type V = HsbkView;

    closed spec fn view(&self) -> HsbkView {
        HsbkView {
            hue: self.hue,
            saturation: self.saturation,
            brightness: self.brightness,
            kelvin: self.kelvin,
        }
    }
}

impl HSBK {
    /// A colour of a temperature between 2500 and 9000 kelvin.
    pub fn new(h: u16, s: u16, b: u16, k: u16) -> (c: HSBK)
        requires
            MIN_KELVIN <= k <= MAX_KELVIN,
        ensures
            c@ == (HsbkView { hue: h, saturation: s, brightness: b, kelvin: k }),
    {
        HSBK { hue: h, saturation: s, brightness: b, kelvin: k }
    }

    /// The colour that `new` gives, or none where the temperature is not
    /// between 2500 and 9000 kelvin.
    pub fn checked_new(h: u16, s: u16, b: u16, k: u16) -> (r: Option<HSBK>)
        ensures
            r is Some <==> MIN_KELVIN <= k <= MAX_KELVIN,
            r matches Some(c) ==> c@ == (HsbkView {
                hue: h,
                saturation: s,
                brightness: b,
                kelvin: k,
            }),
    {
        if MIN_KELVIN <= k && k <= MAX_KELVIN {
            Some(HSBK::new(h, s, b, k))
        } else {
            None
        }
    }
}

/// Preseeded HSBK values for convenience.
#[derive(Debug, Clone, Copy, PartialEq, Eq, Structural)]
pub enum Color {
    Red,
    Blue,
    Green,
    Violet,
    Yellow,
    White,
}

impl Color {
    /// The colour at the given brightness.
    pub open spec fn hsbk(self, brightness: u16) -> HsbkView {
        match self {
            Color::Red => HsbkView {
                hue: 0,
                saturation: MAX_SATURATION,
                brightness,
                kelvin: DEFAULT_KELVIN,
            },
            Color::Green => HsbkView {
                hue: 120,
                saturation: MAX_SATURATION,
                brightness,
                kelvin: DEFAULT_KELVIN,
            },
            Color::Blue | Color::Violet | Color::Yellow | Color::White => HsbkView {
                hue: 0,
                saturation: 0,
                brightness,
                kelvin: DEFAULT_KELVIN,
            },
        }
    }

    /// Converts a Color enum value to a HSBK with varying brightness. The
    /// temperature of every colour is one that `HSBK::new` takes.
    pub fn to_hsbk(self, brightness: u16) -> (c: HSBK)
        ensures
            c@ == self.hsbk(brightness),
            MIN_KELVIN <= c@.kelvin <= MAX_KELVIN,
    {
        match self {
            Color::Red => HSBK::new(0, MAX_SATURATION, brightness, DEFAULT_KELVIN),
            Color::Blue => HSBK::new(0, 0, brightness, DEFAULT_KELVIN),
            Color::Green => HSBK::new(120, MAX_SATURATION, brightness, DEFAULT_KELVIN),
            Color::Violet => HSBK::new(0, 0, brightness, DEFAULT_KELVIN),
            Color::Yellow => HSBK::new(0, 0, brightness, DEFAULT_KELVIN),
            Color::White => HSBK::new(0, 0, brightness, DEFAULT_KELVIN),
        }
    }
}

/// Service enumeration.
#[derive(Debug, Clone, Copy, PartialEq, Eq, Structural)]
pub enum Service {
    Udp,
    Reserved,
}

impl Service {
    /// The service that a byte stands for: 1 is UDP, anything else reserved.
    pub open spec fn of(b: u8) -> Service {
        if b == 1 {
            Service::Udp
        } else {
            Service::Reserved
        }
    }

    /// The byte that stands for the service.
    pub open spec fn code(self) -> u8 {
        match self {
            Service::Udp => 1,
            Service::Reserved => 5,
        }
    }
}

impl From<u8> for Service {
    fn from(b: u8) -> (service: Service) {
        match b {
            1 => Service::Udp,
            _ => Service::Reserved,
        }
    }
}

impl FromSpecImpl<u8> for Service {
    open spec fn obeys_from_spec() -> bool {
        true
    }

    open spec fn from_spec(b: u8) -> Service {
        Service::of(b)
    }
}

impl From<Service> for u8 {
    fn from(service: Service) -> (b: u8) {
        match service {
            Service::Udp => 1,
            Service::Reserved => 5,
        }
    }
}

impl FromSpecImpl<Service> for u8 {
    open spec fn obeys_from_spec() -> bool {
        true
    }

    open spec fn from_spec(service: Service) -> u8 {
        service.code()
    }
}

/// Power level for Device::SetPower and Device::GetPower.
#[derive(Debug, Clone, Copy, PartialEq, Eq, Structural)]
pub enum Power {
    Standby,
    Max,
}

impl Power {
    /// The power level that a number stands for: 0 is standby, anything else
    /// full power.
    pub open spec fn of(v: u16) -> Power {
        if v == 0 {
            Power::Standby
        } else {
            Power::Max
        }
    }

    /// The number that stands for the power level.
    pub open spec fn level(self) -> u16 {
        match self {
            Power::Standby => 0,
            Power::Max => 65535,
        }
    }
}

impl From<u16> for Power {
    fn from(v: u16) -> (power: Power) {
        match v {
            0 => Power::Standby,
            _ => Power::Max,
        }
    }
}

impl FromSpecImpl<u16> for Power {
    open spec fn obeys_from_spec() -> bool {
        true
    }

    open spec fn from_spec(v: u16) -> Power {
        Power::of(v)
    }
}

impl From<Power> for u16 {
    fn from(power: Power) -> (v: u16) {
        match power {
            Power::Standby => 0,
            Power::Max => 65535,
        }
    }
}

impl FromSpecImpl<Power> for u16 {
    open spec fn obeys_from_spec() -> bool {
        true
    }

    open spec fn from_spec(power: Power) -> u16 {
        power.level()
    }
}

/// Each service and each power level is the one that its own number stands
/// for.
pub proof fn lemma_codes_round_trip(service: Service, power: Power)
    ensures
        Service::of(service.code()) == service,
        Power::of(power.level()) == power,
{
}

/// What a device message carries.
pub enum DeviceView {
    GetService,
    StateService(Service, u32),
    GetHostInfo,
    StateHostInfo(u32, u32, u32),
    GetHostFirmware,
    StateHostFirmware(u64, u32),
    GetWifiInfo,
    StateWifiInfo(u32, u32, u32),
    GetWifiFirmware,
    StateWifiFirmware(u64, u32),
    GetPower,
    SetPower(Power),
    StatePower(Power),
    GetLabel,
    StateLabel(Seq<char>),
    GetVersion,
    StateVersion(u32, u32, u32),
    GetInfo,
    StateInfo(u64, u64, u64),
    Acknowledgement,
    GetLocation,
    StateLocation(Seq<u8>, Seq<char>, u64),
    GetGroup,
    StateGroup(Seq<u8>, Seq<char>, u64),
    EchoRequest(Seq<u8>),
    EchoResponse(Seq<u8>),
}

impl DeviceView {
    /// The type code of the message.
    pub open spec fn typ(self) -> u16 {
        match self {
            DeviceView::GetService => 2,
            DeviceView::StateService(_, _) => 3,
            DeviceView::GetHostInfo => 12,
            DeviceView::StateHostInfo(_, _, _) => 13,
            DeviceView::GetHostFirmware => 14,
            DeviceView::StateHostFirmware(_, _) => 15,
            DeviceView::GetWifiInfo => 16,
            DeviceView::StateWifiInfo(_, _, _) => 17,
            DeviceView::GetWifiFirmware => 18,
            DeviceView::StateWifiFirmware(_, _) => 19,
            DeviceView::GetPower => 20,
            DeviceView::SetPower(_) => 21,
            DeviceView::StatePower(_) => 22,
            DeviceView::GetLabel => 23,
            DeviceView::StateLabel(_) => 25,
            DeviceView::GetVersion => 32,
            DeviceView::StateVersion(_, _, _) => 33,
            DeviceView::GetInfo => 34,
            DeviceView::StateInfo(_, _, _) => 35,
            DeviceView::Acknowledgement => 45,
            DeviceView::GetLocation => 48,
            DeviceView::StateLocation(_, _, _) => 50,
            DeviceView::GetGroup => 51,
            DeviceView::StateGroup(_, _, _) => 53,
            DeviceView::EchoRequest(_) => 58,
            DeviceView::EchoResponse(_) => 59,
        }
    }

    /// Whether the message is for any device rather than for one.
    pub open spec fn tagged(self) -> bool {
        self is GetService
    }

    /// Whether the message asks for a reply: a request for state and an echo
    /// request do, a message that sets or reports state does not.
    pub open spec fn requires_response(self) -> bool {
        match self {
            DeviceView::GetService
            | DeviceView::GetHostInfo
            | DeviceView::GetHostFirmware
            | DeviceView::GetWifiInfo
            | DeviceView::GetWifiFirmware
            | DeviceView::GetPower
            | DeviceView::GetLabel
            | DeviceView::GetVersion
            | DeviceView::GetInfo
            | DeviceView::GetLocation
            | DeviceView::GetGroup
            | DeviceView::EchoRequest(_) => true,
            _ => false,
        }
    }

    /// The number of bytes of the message on the wire, after the header.
    pub open spec fn size(self) -> u16 {
        body_size(self.typ())
    }

    /// Each label fits its field of 32 bytes, and each byte array has its
    /// length.
    pub open spec fn encodable(self) -> bool {
        match self {
            DeviceView::StateLabel(label) => text_fits(label, 32),
            DeviceView::StateLocation(id, label, _) => id.len() == 16 && text_fits(label, 32),
            DeviceView::StateGroup(id, label, _) => id.len() == 16 && text_fits(label, 32),
            DeviceView::EchoRequest(bytes) => bytes.len() == 64,
            DeviceView::EchoResponse(bytes) => bytes.len() == 64,
            _ => true,
        }
    }

    /// The bytes of the message on the wire, after the header. A reserved
    /// field is zero.
    pub open spec fn wire(self) -> Seq<u8> {
        match self {
            DeviceView::StateService(service, port) => seq![service.code()] + le_bytes(
                port as nat,
                4,
            ),
            DeviceView::StateHostInfo(signal, tx, rx) => le_bytes(signal as nat, 4) + le_bytes(
                tx as nat,
                4,
            ) + le_bytes(rx as nat, 4) + zeros(2),
            DeviceView::StateHostFirmware(build, version) => le_bytes(build as nat, 8) + zeros(8)
                + le_bytes(version as nat, 4),
            DeviceView::StateWifiInfo(signal, tx, rx) => le_bytes(signal as nat, 4) + le_bytes(
                tx as nat,
                4,
            ) + le_bytes(rx as nat, 4) + zeros(2),
            DeviceView::StateWifiFirmware(build, version) => le_bytes(build as nat, 8) + zeros(8)
                + le_bytes(version as nat, 4),
            DeviceView::SetPower(level) => le_bytes(level.level() as nat, 2),
            DeviceView::StatePower(level) => le_bytes(level.level() as nat, 2),
            DeviceView::StateLabel(label) => text_field(label, 32),
            DeviceView::StateVersion(vendor, product, version) => le_bytes(vendor as nat, 4)
                + le_bytes(product as nat, 4) + le_bytes(version as nat, 4),
            DeviceView::StateInfo(time, uptime, downtime) => le_bytes(time as nat, 8) + le_bytes(
                uptime as nat,
                8,
            ) + le_bytes(downtime as nat, 8),
            DeviceView::StateLocation(id, label, updated_at) => id + text_field(label, 32)
                + le_bytes(updated_at as nat, 8),
            DeviceView::StateGroup(id, label, updated_at) => id + text_field(label, 32) + le_bytes(
                updated_at as nat,
                8,
            ),
            DeviceView::EchoRequest(bytes) => bytes,
            DeviceView::EchoResponse(bytes) => bytes,
            _ => Seq::empty(),
        }
    }
}

/// What a light message carries.
pub enum LightView {
    Get,
    SetColor(HsbkView, u32),
    State(HsbkView, u16, Seq<char>),
    GetPower,
    SetPower(Power, u32),
    StatePower(Power),
}

impl LightView {
    /// The type code of the message.
    pub open spec fn typ(self) -> u16 {
        match self {
            LightView::Get => 101,
            LightView::SetColor(_, _) => 102,
            LightView::State(_, _, _) => 107,
            LightView::GetPower => 116,
            LightView::SetPower(_, _) => 117,
            LightView::StatePower(_) => 118,
        }
    }

    /// No light message is for any device.
    pub open spec fn tagged(self) -> bool {
        false
    }

    /// Whether the message asks for a reply: a request for state does, a
    /// message that sets or reports state does not.
    pub open spec fn requires_response(self) -> bool {
        match self {
            LightView::Get | LightView::GetPower => true,
            _ => false,
        }
    }

    /// The number of bytes of the message on the wire, after the header.
    pub open spec fn size(self) -> u16 {
        body_size(self.typ())
    }

    /// The label fits its field of 32 bytes.
    pub open spec fn encodable(self) -> bool {
        match self {
            LightView::State(_, _, label) => text_fits(label, 32),
            _ => true,
        }
    }

    /// The bytes of the message on the wire, after the header. A reserved
    /// field is zero.
    pub open spec fn wire(self) -> Seq<u8> {
        match self {
            LightView::SetColor(color, duration) => zeros(1) + color.wire() + le_bytes(
                duration as nat,
                4,
            ),
            LightView::State(color, power, label) => color.wire() + zeros(2) + le_bytes(
                power as nat,
                2,
            ) + text_field(label, 32) + zeros(8),
            LightView::SetPower(level, duration) => le_bytes(level.level() as nat, 2) + le_bytes(
                duration as nat,
                4,
            ),
            LightView::StatePower(level) => le_bytes(level.level() as nat, 2),
            _ => Seq::empty(),
        }
    }
}

/// What a message carries.
pub enum PayloadView {
    Device(DeviceView),
    Light(LightView),
}

impl PayloadView {
    /// The type code of the message.
    pub open spec fn typ(self) -> u16 {
        match self {
            PayloadView::Device(m) => m.typ(),
            PayloadView::Light(m) => m.typ(),
        }
    }

    /// Whether the message is for any device rather than for one.
    pub open spec fn tagged(self) -> bool {
        match self {
            PayloadView::Device(m) => m.tagged(),
            PayloadView::Light(m) => m.tagged(),
        }
    }

    /// Whether the message asks for a reply.
    pub open spec fn requires_response(self) -> bool {
        match self {
            PayloadView::Device(m) => m.requires_response(),
            PayloadView::Light(m) => m.requires_response(),
        }
    }

    /// The number of bytes of the message on the wire, after the header.
    pub open spec fn size(self) -> u16 {
        match self {
            PayloadView::Device(m) => m.size(),
            PayloadView::Light(m) => m.size(),
        }
    }

    /// Whether the message has a wire form.
    pub open spec fn encodable(self) -> bool {
        match self {
            PayloadView::Device(m) => m.encodable(),
            PayloadView::Light(m) => m.encodable(),
        }
    }

    /// The bytes of the message on the wire, after the header.
    pub open spec fn wire(self) -> Seq<u8> {
        match self {
            PayloadView::Device(m) => m.wire(),
            PayloadView::Light(m) => m.wire(),
        }
    }
}

/// Whether `tag` is the type code of a message of the catalogue.
pub open spec fn known_type(tag: u16) -> bool {
    tag == 2 || tag == 3 || (12 <= tag <= 23) || tag == 25 || (32 <= tag <= 35) || tag == 45
        || tag == 48 || tag == 50 || tag == 51 || tag == 53 || tag == 58 || tag == 59 || tag
        == 101 || tag == 102 || tag == 107 || (116 <= tag <= 118)
}

/// The number of bytes, after the header, of a message of type `tag`; 0 for
/// a code that names no message.
pub open spec fn body_size(tag: u16) -> u16 {
    if tag == 3 {
        5
    } else if tag == 13 || tag == 17 {
        14
    } else if tag == 15 || tag == 19 {
        20
    } else if tag == 21 || tag == 22 || tag == 118 {
        2
    } else if tag == 25 {
        32
    } else if tag == 33 {
        12
    } else if tag == 35 {
        24
    } else if tag == 50 || tag == 53 {
        56
    } else if tag == 58 || tag == 59 {
        64
    } else if tag == 102 {
        13
    } else if tag == 107 {
        52
    } else if tag == 117 {
        6
    } else {
        0
    }
}

/// The message of type `tag` whose fields lie in `s` from index `at` on,
/// where `s` is long enough. A reserved field is passed over, whatever it
/// holds.
pub open spec fn payload_at(tag: u16, s: Seq<u8>, at: int) -> Result<PayloadView, DecodeError> {
    if tag == 2 {
        Ok(PayloadView::Device(DeviceView::GetService))
    } else if tag == 3 {
        Ok(
            PayloadView::Device(
                DeviceView::StateService(Service::of(s[at]), le_at(s, at + 1, 4) as u32),
            ),
        )
    } else if tag == 12 {
        Ok(PayloadView::Device(DeviceView::GetHostInfo))
    } else if tag == 13 {
        Ok(
            PayloadView::Device(
                DeviceView::StateHostInfo(
                    le_at(s, at, 4) as u32,
                    le_at(s, at + 4, 4) as u32,
                    le_at(s, at + 8, 4) as u32,
                ),
            ),
        )
    } else if tag == 14 {
        Ok(PayloadView::Device(DeviceView::GetHostFirmware))
    } else if tag == 15 {
        Ok(
            PayloadView::Device(
                DeviceView::StateHostFirmware(le_at(s, at, 8) as u64, le_at(s, at + 16, 4) as u32),
            ),
        )
    } else if tag == 16 {
        Ok(PayloadView::Device(DeviceView::GetWifiInfo))
    } else if tag == 17 {
        Ok(
            PayloadView::Device(
                DeviceView::StateWifiInfo(
                    le_at(s, at, 4) as u32,
                    le_at(s, at + 4, 4) as u32,
                    le_at(s, at + 8, 4) as u32,
                ),
            ),
        )
    } else if tag == 18 {
        Ok(PayloadView::Device(DeviceView::GetWifiFirmware))
    } else if tag == 19 {
        Ok(
            PayloadView::Device(
                DeviceView::StateWifiFirmware(le_at(s, at, 8) as u64, le_at(s, at + 16, 4) as u32),
            ),
        )
    } else if tag == 20 {
        Ok(PayloadView::Device(DeviceView::GetPower))
    } else if tag == 21 {
        Ok(PayloadView::Device(DeviceView::SetPower(Power::of(le_at(s, at, 2) as u16))))
    } else if tag == 22 {
        Ok(PayloadView::Device(DeviceView::StatePower(Power::of(le_at(s, at, 2) as u16))))
    } else if tag == 23 {
        Ok(PayloadView::Device(DeviceView::GetLabel))
    } else if tag == 25 {
        match parse_text(s.subrange(at, at + 32)) {
            Ok(label) => Ok(PayloadView::Device(DeviceView::StateLabel(label))),
            Err(e) => Err(e),
        }
    } else if tag == 32 {
        Ok(PayloadView::Device(DeviceView::GetVersion))
    } else if tag == 33 {
        Ok(
            PayloadView::Device(
                DeviceView::StateVersion(
                    le_at(s, at, 4) as u32,
                    le_at(s, at + 4, 4) as u32,
                    le_at(s, at + 8, 4) as u32,
                ),
            ),
        )
    } else if tag == 34 {
        Ok(PayloadView::Device(DeviceView::GetInfo))
    } else if tag == 35 {
        Ok(
            PayloadView::Device(
                DeviceView::StateInfo(
                    le_at(s, at, 8) as u64,
                    le_at(s, at + 8, 8) as u64,
                    le_at(s, at + 16, 8) as u64,
                ),
            ),
        )
    } else if tag == 45 {
        Ok(PayloadView::Device(DeviceView::Acknowledgement))
    } else if tag == 48 {
        Ok(PayloadView::Device(DeviceView::GetLocation))
    } else if tag == 50 {
        match parse_text(s.subrange(at + 16, at + 48)) {
            Ok(label) => Ok(
                PayloadView::Device(
                    DeviceView::StateLocation(
                        s.subrange(at, at + 16),
                        label,
                        le_at(s, at + 48, 8) as u64,
                    ),
                ),
            ),
            Err(e) => Err(e),
        }
    } else if tag == 51 {
        Ok(PayloadView::Device(DeviceView::GetGroup))
    } else if tag == 53 {
        match parse_text(s.subrange(at + 16, at + 48)) {
            Ok(label) => Ok(
                PayloadView::Device(
                    DeviceView::StateGroup(
                        s.subrange(at, at + 16),
                        label,
                        le_at(s, at + 48, 8) as u64,
                    ),
                ),
            ),
            Err(e) => Err(e),
        }
    } else if tag == 58 {
        Ok(PayloadView::Device(DeviceView::EchoRequest(s.subrange(at, at + 64))))
    } else if tag == 59 {
        Ok(PayloadView::Device(DeviceView::EchoResponse(s.subrange(at, at + 64))))
    } else if tag == 101 {
        Ok(PayloadView::Light(LightView::Get))
    } else if tag == 102 {
        Ok(
            PayloadView::Light(
                LightView::SetColor(hsbk_at(s, at + 1), le_at(s, at + 9, 4) as u32),
            ),
        )
    } else if tag == 107 {
        match parse_text(s.subrange(at + 12, at + 44)) {
            Ok(label) => Ok(
                PayloadView::Light(
                    LightView::State(hsbk_at(s, at), le_at(s, at + 10, 2) as u16, label),
                ),
            ),
            Err(e) => Err(e),
        }
    } else if tag == 116 {
        Ok(PayloadView::Light(LightView::GetPower))
    } else if tag == 117 {
        Ok(
            PayloadView::Light(
                LightView::SetPower(Power::of(le_at(s, at, 2) as u16), le_at(s, at + 2, 4) as u32),
            ),
        )
    } else if tag == 118 {
        Ok(PayloadView::Light(LightView::StatePower(Power::of(le_at(s, at, 2) as u16))))
    } else {
        Err(DecodeError::UnrecognizedMessage)
    }
}

/// The message of type `tag` that the bytes of `s` from index `at` on hold,
/// with the number of bytes that it takes.
pub open spec fn parse_payload(tag: u16, s: Seq<u8>, at: int) -> Result<
    (PayloadView, nat),
    DecodeError,
> {
    if !known_type(tag) {
        Err(DecodeError::UnrecognizedMessage)
    } else if s.len() - at < body_size(tag) {
        Err(DecodeError::UnexpectedEnd)
    } else {
        match payload_at(tag, s, at) {
            Ok(payload) => Ok((payload, body_size(tag) as nat)),
            Err(e) => Err(e),
        }
    }
}

/// Device message.
#[derive(Debug, Clone, PartialEq, Eq)]
pub enum Device {
    GetService,
    StateService(Service, u32),
    GetHostInfo,
    /// Signal strength, as the bits of the 32-bit float on the wire, then the
    /// bytes sent and received.
    StateHostInfo(u32, u32, u32),
    GetHostFirmware,
    StateHostFirmware(u64, u32),
    GetWifiInfo,
    /// Signal strength, as the bits of the 32-bit float on the wire, then the
    /// bytes sent and received.
    StateWifiInfo(u32, u32, u32),
    GetWifiFirmware,
    StateWifiFirmware(u64, u32),
    GetPower,
    SetPower(Power),
    StatePower(Power),
    GetLabel,
    StateLabel(String),
    GetVersion,
    StateVersion(u32, u32, u32),
    GetInfo,
    StateInfo(u64, u64, u64),
    Acknowledgement,
    GetLocation,
    StateLocation([u8; 16], String, u64),
    GetGroup,
    StateGroup([u8; 16], String, u64),
    EchoRequest([u8; 64]),
    EchoResponse([u8; 64]),
}

impl View for Device {
    type V = DeviceView;

    open spec fn view(&self) -> DeviceView {
        match *self {
            Device::GetService => DeviceView::GetService,
            Device::StateService(service, port) => DeviceView::StateService(service, port),
            Device::GetHostInfo => DeviceView::GetHostInfo,
            Device::StateHostInfo(signal, tx, rx) => DeviceView::StateHostInfo(signal, tx, rx),
            Device::GetHostFirmware => DeviceView::GetHostFirmware,
            Device::StateHostFirmware(build, version) => DeviceView::StateHostFirmware(
                build,
                version,
            ),
            Device::GetWifiInfo => DeviceView::GetWifiInfo,
            Device::StateWifiInfo(signal, tx, rx) => DeviceView::StateWifiInfo(signal, tx, rx),
            Device::GetWifiFirmware => DeviceView::GetWifiFirmware,
            Device::StateWifiFirmware(build, version) => DeviceView::StateWifiFirmware(
                build,
                version,
            ),
            Device::GetPower => DeviceView::GetPower,
            Device::SetPower(level) => DeviceView::SetPower(level),
            Device::StatePower(level) => DeviceView::StatePower(level),
            Device::GetLabel => DeviceView::GetLabel,
            Device::StateLabel(label) => DeviceView::StateLabel(label@),
            Device::GetVersion => DeviceView::GetVersion,
            Device::StateVersion(vendor, product, version) => DeviceView::StateVersion(
                vendor,
                product,
                version,
            ),
            Device::GetInfo => DeviceView::GetInfo,
            Device::StateInfo(time, uptime, downtime) => DeviceView::StateInfo(
                time,
                uptime,
                downtime,
            ),
            Device::Acknowledgement => DeviceView::Acknowledgement,
            Device::GetLocation => DeviceView::GetLocation,
            Device::StateLocation(id, label, updated_at) => DeviceView::StateLocation(
                id@,
                label@,
                updated_at,
            ),
            Device::GetGroup => DeviceView::GetGroup,
            Device::StateGroup(id, label, updated_at) => DeviceView::StateGroup(
                id@,
                label@,
                updated_at,
            ),
            Device::EchoRequest(bytes) => DeviceView::EchoRequest(bytes@),
            Device::EchoResponse(bytes) => DeviceView::EchoResponse(bytes@),
        }
    }
}

impl Device {
    /// The type code of the message.
    pub fn typ(&self) -> (typ: u16)
        ensures
            typ == self@.typ(),
    {
        match *self {
            Device::GetService => 2,
            Device::StateService(_, _) => 3,
            Device::GetHostInfo => 12,
            Device::StateHostInfo(_, _, _) => 13,
            Device::GetHostFirmware => 14,
            Device::StateHostFirmware(_, _) => 15,
            Device::GetWifiInfo => 16,
            Device::StateWifiInfo(_, _, _) => 17,
            Device::GetWifiFirmware => 18,
            Device::StateWifiFirmware(_, _) => 19,
            Device::GetPower => 20,
            Device::SetPower(_) => 21,
            Device::StatePower(_) => 22,
            Device::GetLabel => 23,
            Device::StateLabel(_) => 25,
            Device::GetVersion => 32,
            Device::StateVersion(_, _, _) => 33,
            Device::GetInfo => 34,
            Device::StateInfo(_, _, _) => 35,
            Device::Acknowledgement => 45,
            Device::GetLocation => 48,
            Device::StateLocation(_, _, _) => 50,
            Device::GetGroup => 51,
            Device::StateGroup(_, _, _) => 53,
            Device::EchoRequest(_) => 58,
            Device::EchoResponse(_) => 59,
        }
    }

    /// Whether the message is for any device rather than for one.
    pub fn tagged(&self) -> (tagged: bool)
        ensures
            tagged == self@.tagged(),
    {
        match *self {
            Device::GetService => true,
            _ => false,
        }
    }

    /// Whether the message asks for a reply.
    pub fn requires_response(&self) -> (asks: bool)
        ensures
            asks == self@.requires_response(),
    {
        match *self {
            Device::GetService
            | Device::GetHostInfo
            | Device::GetHostFirmware
            | Device::GetWifiInfo
            | Device::GetWifiFirmware
            | Device::GetPower
            | Device::GetLabel
            | Device::GetVersion
            | Device::GetInfo
            | Device::GetLocation
            | Device::GetGroup
            | Device::EchoRequest(_) => true,
            _ => false,
        }
    }

    /// The number of bytes of the message on the wire, after the header.
    pub fn size(&self) -> (size: u16)
        ensures
            size == self@.size(),
    {
        match *self {
            Device::GetService
            | Device::GetHostInfo
            | Device::GetHostFirmware
            | Device::GetWifiInfo
            | Device::GetWifiFirmware
            | Device::GetPower
            | Device::GetLabel
            | Device::GetVersion
            | Device::GetInfo
            | Device::Acknowledgement
            | Device::GetLocation
            | Device::GetGroup => 0,
            Device::SetPower(_) | Device::StatePower(_) => 2,
            Device::StateService(_, _) => 5,
            Device::StateVersion(_, _, _) => 12,
            Device::StateHostInfo(_, _, _) | Device::StateWifiInfo(_, _, _) => 14,
            Device::StateHostFirmware(_, _) | Device::StateWifiFirmware(_, _) => 20,
            Device::StateInfo(_, _, _) => 24,
            Device::StateLabel(_) => 32,
            Device::StateLocation(_, _, _) | Device::StateGroup(_, _, _) => 56,
            Device::EchoRequest(_) | Device::EchoResponse(_) => 64,
        }
    }
}

/// Light messages.
#[derive(Debug, Clone, PartialEq, Eq)]
pub enum Light {
    Get,
    SetColor(HSBK, u32),
    State(HSBK, u16, String),
    GetPower,
    SetPower(Power, u32),
    StatePower(Power),
}

impl View for Light {
    type V = LightView;

    open spec fn view(&self) -> LightView {
        match *self {
            Light::Get => LightView::Get,
            Light::SetColor(color, duration) => LightView::SetColor(color@, duration),
            Light::State(color, power, label) => LightView::State(color@, power, label@),
            Light::GetPower => LightView::GetPower,
            Light::SetPower(level, duration) => LightView::SetPower(level, duration),
            Light::StatePower(level) => LightView::StatePower(level),
        }
    }
}

impl Light {
    /// The type code of the message.
    pub fn typ(&self) -> (typ: u16)
        ensures
            typ == self@.typ(),
    {
        match *self {
            Light::Get => 101,
            Light::SetColor(_, _) => 102,
            Light::State(_, _, _) => 107,
            Light::GetPower => 116,
            Light::SetPower(_, _) => 117,
            Light::StatePower(_) => 118,
        }
    }

    /// No light message is for any device.
    pub fn tagged(&self) -> (tagged: bool)
        ensures
            tagged == self@.tagged(),
    {
        false
    }

    /// Whether the message asks for a reply.
    pub fn requires_response(&self) -> (asks: bool)
        ensures
            asks == self@.requires_response(),
    {
        match *self {
            Light::Get | Light::GetPower => true,
            _ => false,
        }
    }

    /// The number of bytes of the message on the wire, after the header.
    pub fn size(&self) -> (size: u16)
        ensures
            size == self@.size(),
    {
        match *self {
            Light::Get | Light::GetPower => 0,
            Light::StatePower(_) => 2,
            Light::SetPower(_, _) => 6,
            Light::SetColor(_, _) => 13,
            Light::State(_, _, _) => 52,
        }
    }
}

/// Payload enumeration.
#[derive(Debug, Clone, PartialEq, Eq)]
pub enum Payload {
    Device(Device),
    Light(Light),
}

impl View for Payload {
    type V = PayloadView;

    open spec fn view(&self) -> PayloadView {
        match *self {
            Payload::Device(m) => PayloadView::Device(m@),
            Payload::Light(m) => PayloadView::Light(m@),
        }
    }
}

impl Payload {
    /// The type code of the message.
    pub fn typ(&self) -> (typ: u16)
        ensures
            typ == self@.typ(),
    {
        match *self {
            Payload::Device(ref devm) => devm.typ(),
            Payload::Light(ref lightm) => lightm.typ(),
        }
    }

    /// Whether the message is for any device rather than for one.
    pub fn tagged(&self) -> (tagged: bool)
        ensures
            tagged == self@.tagged(),
    {
        match *self {
            Payload::Device(ref devm) => devm.tagged(),
            Payload::Light(ref lightm) => lightm.tagged(),
        }
    }

    /// The number of bytes of the message on the wire, after the header.
    pub fn size(&self) -> (size: u16)
        ensures
            size == self@.size(),
    {
        match *self {
            Payload::Device(ref devm) => devm.size(),
            Payload::Light(ref lightm) => lightm.size(),
        }
    }

    /// Whether the message asks for a reply.
    pub fn requires_response(&self) -> (asks: bool)
        ensures
            asks == self@.requires_response(),
    {
        match *self {
            Payload::Device(ref devm) => devm.requires_response(),
            Payload::Light(ref lightm) => lightm.requires_response(),
        }
    }
}

/// Writes `text` into a field of 32 bytes: its UTF-8 form, then zero bytes
/// up to the width. Writes nothing where the text is longer than the field.
pub fn encode_32_byte_str(s: &mut ByteEncoder, text: &str) -> (r: Result<(), EncodeError>)
    ensures
        text_fits(text@, 32) ==> r is Ok && final(s)@ == old(s)@ + text_field(text@, 32),
        !text_fits(text@, 32) ==> r == Err::<(), EncodeError>(EncodeError::StringTooLong)
            && final(s)@ == old(s)@,
{
    let bytes = text.as_bytes();
    if bytes.len() > LABEL_SIZE {
        return Err(EncodeError::StringTooLong);
    }
    s.emit_bytes(bytes);
    let mut i: usize = bytes.len();
    while i < LABEL_SIZE
        invariant
            bytes@.len() <= i <= LABEL_SIZE,
            s@ == old(s)@ + bytes@ + zeros((i - bytes@.len()) as nat),
        decreases LABEL_SIZE - i,
    {
        s.emit_u8(0);
        i = i + 1;
        assert(zeros((i - 1 - bytes@.len()) as nat).push(0u8) =~= zeros((i - bytes@.len()) as nat));
    }
    assert(s@ =~= old(s)@ + text_field(text@, 32));
    Ok(())
}

impl Encodable for HSBK {
    open spec fn encodable(&self) -> bool {
        true
    }

    open spec fn wire(&self) -> Seq<u8> {
        self@.wire()
    }

    fn encode(&self, s: &mut ByteEncoder) -> (r: Result<(), EncodeError>) {
        s.emit_u16(self.hue);
        s.emit_u16(self.saturation);
        s.emit_u16(self.brightness);
        s.emit_u16(self.kelvin);
        Ok(())
    }
}

impl Encodable for Service {
    open spec fn encodable(&self) -> bool {
        true
    }

    open spec fn wire(&self) -> Seq<u8> {
        seq![self.code()]
    }

    fn encode(&self, s: &mut ByteEncoder) -> (r: Result<(), EncodeError>) {
        let id: u8 = (*self).into();
        s.emit_u8(id);
        assert(s@ =~= old(s)@ + seq![self.code()]);
        Ok(())
    }
}

impl Encodable for Power {
    open spec fn encodable(&self) -> bool {
        true
    }

    open spec fn wire(&self) -> Seq<u8> {
        le_bytes(self.level() as nat, 2)
    }

    fn encode(&self, s: &mut ByteEncoder) -> (r: Result<(), EncodeError>) {
        let id: u16 = (*self).into();
        s.emit_u16(id);
        Ok(())
    }
}

impl Encodable for Device {
    open spec fn encodable(&self) -> bool {
        self@.encodable()
    }

    open spec fn wire(&self) -> Seq<u8> {
        self@.wire()
    }

    fn encode(&self, s: &mut ByteEncoder) -> (r: Result<(), EncodeError>) {
        proof {
            lemma_le_bytes_zero(2);
            lemma_le_bytes_zero(8);
            lemma_radix_values();
            assert(old(s)@ + Seq::<u8>::empty() =~= old(s)@);
        }
        match self {
            Device::GetService
            | Device::GetHostInfo
            | Device::GetHostFirmware
            | Device::GetWifiInfo
            | Device::GetWifiFirmware
            | Device::GetPower
            | Device::GetLabel
            | Device::GetVersion
            | Device::GetInfo
            | Device::Acknowledgement
            | Device::GetLocation
            | Device::GetGroup => {
                s.emit_nil();
                Ok(())
            },
            Device::StateService(service, port) => {
                let _ = service.encode(s);
                s.emit_u32(*port);
                Ok(())
            },
            Device::StateHostInfo(signal, tx, rx) | Device::StateWifiInfo(signal, tx, rx) => {
                s.emit_u32(*signal);
                s.emit_u32(*tx);
                s.emit_u32(*rx);
                s.emit_i16(0);
                Ok(())
            },
            Device::StateHostFirmware(build, version)
            | Device::StateWifiFirmware(build, version) => {
                s.emit_u64(*build);
                s.emit_u64(0);
                s.emit_u32(*version);
                Ok(())
            },
            Device::SetPower(level) | Device::StatePower(level) => {
                let _ = level.encode(s);
                Ok(())
            },
            Device::StateLabel(label) => encode_32_byte_str(s, label.as_str()),
            Device::StateVersion(vendor, product, version) => {
                s.emit_u32(*vendor);
                s.emit_u32(*product);
                s.emit_u32(*version);
                Ok(())
            },
            Device::StateInfo(time, uptime, downtime) => {
                s.emit_u64(*time);
                s.emit_u64(*uptime);
                s.emit_u64(*downtime);
                Ok(())
            },
            Device::StateLocation(id, label, updated_at)
            | Device::StateGroup(id, label, updated_at) => {
                assert(id@.len() == 16);
                if label.as_str().as_bytes().len() > LABEL_SIZE {
                    return Err(EncodeError::StringTooLong);
                }
                s.emit_bytes(id.as_slice());
                let _ = encode_32_byte_str(s, label.as_str());
                s.emit_u64(*updated_at);
                Ok(())
            },
            Device::EchoRequest(bytes) | Device::EchoResponse(bytes) => {
                assert(bytes@.len() == 64);
                s.emit_bytes(bytes.as_slice());
                Ok(())
            },
        }
    }
}

impl Encodable for Light {
    open spec fn encodable(&self) -> bool {
        self@.encodable()
    }

    open spec fn wire(&self) -> Seq<u8> {
        self@.wire()
    }

    fn encode(&self, s: &mut ByteEncoder) -> (r: Result<(), EncodeError>) {
        proof {
            lemma_le_bytes_zero(2);
            lemma_le_bytes_zero(8);
            assert(old(s)@ + Seq::<u8>::empty() =~= old(s)@);
        }
        match self {
            Light::Get => {
                s.emit_nil();
                Ok(())
            },
            Light::SetColor(color, duration) => {
                s.emit_u8(0);
                let _ = color.encode(s);
                s.emit_u32(*duration);
                assert(s@ =~= old(s)@ + self@.wire());
                Ok(())
            },
            Light::State(color, power, label) => {
                if label.as_str().as_bytes().len() > LABEL_SIZE {
                    return Err(EncodeError::StringTooLong);
                }
                let _ = color.encode(s);
                s.emit_u16(0);
                s.emit_u16(*power);
                let _ = encode_32_byte_str(s, label.as_str());
                s.emit_u64(0);
                Ok(())
            },
            Light::GetPower => {
                s.emit_nil();
                Ok(())
            },
            Light::SetPower(level, duration) => {
                let _ = level.encode(s);
                s.emit_u32(*duration);
                Ok(())
            },
            Light::StatePower(level) => {
                let _ = level.encode(s);
                Ok(())
            },
        }
    }
}

impl Encodable for Payload {
    open spec fn encodable(&self) -> bool {
        self@.encodable()
    }

    open spec fn wire(&self) -> Seq<u8> {
        self@.wire()
    }

    fn encode(&self, s: &mut ByteEncoder) -> (r: Result<(), EncodeError>) {
        match self {
            Payload::Device(devm) => devm.encode(s),
            Payload::Light(lightm) => lightm.encode(s),
        }
    }
}

/// Reads the text in a field of 32 bytes: the bytes before the first zero
/// byte, which have to be UTF-8.
pub fn decode_32_byte_str(d: &mut ByteDecoder) -> (r: Result<String, DecodeError>)
    ensures
        old(d).remaining() < 32 ==> r == Err::<String, DecodeError>(DecodeError::UnexpectedEnd)
            && old(d).advanced(final(d), 0),
        old(d).remaining() >= 32 ==> match parse_text(old(d).next_bytes(32)) {
            Ok(text) => r is Ok && r->Ok_0@ == text && old(d).advanced(final(d), 32),
            Err(e) => r == Err::<String, DecodeError>(e) && old(d).advanced(final(d), 0),
        },
{
    let mut field_end = *d;
    let field = field_end.read_bytes(LABEL_SIZE)?;
    let mut end: usize = 0;
    while end < LABEL_SIZE && field[end] != 0
        invariant
            end <= LABEL_SIZE,
            field@.len() == LABEL_SIZE,
            forall|j: int| 0 <= j < end ==> field@[j] != 0,
        decreases LABEL_SIZE - end,
    {
        end = end + 1;
    }
    proof {
        lemma_text_end_from(field@, end as int);
    }
    let bytes = slice_to_vec(slice_subrange(field, 0, end));
    assert(bytes@ =~= field@.take(text_end(field@)));
    match string_from_utf8(bytes) {
        Some(text) => {
            *d = field_end;
            Ok(text)
        },
        None => Err(DecodeError::InvalidText),
    }
}

/// Reads 16 bytes as they are.
pub fn decode_16_byte_arr(d: &mut ByteDecoder) -> (r: Result<[u8; 16], DecodeError>)
    ensures
        old(d).remaining() < 16 ==> r == Err::<[u8; 16], DecodeError>(DecodeError::UnexpectedEnd)
            && old(d).advanced(final(d), 0),
        old(d).remaining() >= 16 ==> r is Ok && r->Ok_0@ == old(d).next_bytes(16) && old(
            d,
        ).advanced(final(d), 16),
{
    let field = d.read_bytes(16)?;
    let mut arr: [u8; 16] = [0; 16];
    let mut i: usize = 0;
    while i < 16
        invariant
            i <= 16,
            field@.len() == 16,
            forall|j: int| 0 <= j < i ==> arr@[j] == field@[j],
        decreases 16 - i,
    {
        arr[i] = field[i];
        i = i + 1;
    }
    assert(arr@ =~= field@);
    Ok(arr)
}

/// Reads 64 bytes as they are.
pub fn decode_64_byte_arr(d: &mut ByteDecoder) -> (r: Result<[u8; 64], DecodeError>)
    ensures
        old(d).remaining() < 64 ==> r == Err::<[u8; 64], DecodeError>(DecodeError::UnexpectedEnd)
            && old(d).advanced(final(d), 0),
        old(d).remaining() >= 64 ==> r is Ok && r->Ok_0@ == old(d).next_bytes(64) && old(
            d,
        ).advanced(final(d), 64),
{
    let field = d.read_bytes(64)?;
    let mut arr: [u8; 64] = [0; 64];
    let mut i: usize = 0;
    while i < 64
        invariant
            i <= 64,
            field@.len() == 64,
            forall|j: int| 0 <= j < i ==> arr@[j] == field@[j],
        decreases 64 - i,
    {
        arr[i] = field[i];
        i = i + 1;
    }
    assert(arr@ =~= field@);
    Ok(arr)
}

impl Decodable for HSBK {
    open spec fn parse(s: Seq<u8>, at: int) -> Result<(HsbkView, nat), DecodeError> {
        if s.len() - at < 8 {
            Err(DecodeError::UnexpectedEnd)
        } else {
            Ok((hsbk_at(s, at), 8))
        }
    }

    fn decode(d: &mut ByteDecoder) -> (r: Result<HSBK, DecodeError>) {
        let mut fields = *d;
        let hue: u16 = fields.read_u16()?;
        let saturation: u16 = fields.read_u16()?;
        let brightness: u16 = fields.read_u16()?;
        let kelvin: u16 = fields.read_u16()?;
        *d = fields;
        Ok(HSBK { hue, saturation, brightness, kelvin })
    }
}

impl Payload {
    /// Reads the message whose type code, taken from the header, is `tag`.
    /// A code that names no message of the catalogue is an error, and so is
    /// a body shorter than the message; neither moves the decoder.
    pub fn decode(d: &mut ByteDecoder, tag: u16) -> (r: Result<Payload, DecodeError>)
        ensures
            match parse_payload(tag, old(d).input(), old(d).position() as int) {
                Ok((payload, n)) => r is Ok && r->Ok_0@ == payload && old(d).advanced(
                    final(d),
                    n as int,
                ),
                Err(e) => r == Err::<Payload, DecodeError>(e) && old(d).advanced(final(d), 0),
            },
            !known_type(tag) ==> r == Err::<Payload, DecodeError>(
                DecodeError::UnrecognizedMessage,
            ),
    {
        let mut body = *d;
        proof {
            use_type_invariant(&*d);
            d.lemma_in_bounds();
        }
        let payload = match tag {
            2 => Payload::Device(Device::GetService),
            3 => {
                let service = Service::from(body.read_u8()?);
                let port: u32 = body.read_u32()?;

                Payload::Device(Device::StateService(service, port))
            },
            12 => Payload::Device(Device::GetHostInfo),
            13 => {
                let signal: u32 = body.read_u32()?;
                let tx: u32 = body.read_u32()?;
                let rx: u32 = body.read_u32()?;
                let _ = body.read_i16()?;

                Payload::Device(Device::StateHostInfo(signal, tx, rx))
            },
            14 => Payload::Device(Device::GetHostFirmware),
            15 => {
                let build: u64 = body.read_u64()?;
                let _ = body.read_u64()?;
                let version: u32 = body.read_u32()?;

                Payload::Device(Device::StateHostFirmware(build, version))
            },
            16 => Payload::Device(Device::GetWifiInfo),
            17 => {
                let signal: u32 = body.read_u32()?;
                let tx: u32 = body.read_u32()?;
                let rx: u32 = body.read_u32()?;
                let _ = body.read_i16()?;

                Payload::Device(Device::StateWifiInfo(signal, tx, rx))
            },
            18 => Payload::Device(Device::GetWifiFirmware),
            19 => {
                let build: u64 = body.read_u64()?;
                let _ = body.read_u64()?;
                let version: u32 = body.read_u32()?;

                Payload::Device(Device::StateWifiFirmware(build, version))
            },
            20 => Payload::Device(Device::GetPower),
            21 => Payload::Device(Device::SetPower(Power::from(body.read_u16()?))),
            22 => Payload::Device(Device::StatePower(Power::from(body.read_u16()?))),
            23 => Payload::Device(Device::GetLabel),
            25 => {
                let label = decode_32_byte_str(&mut body)?;

                Payload::Device(Device::StateLabel(label))
            },
            32 => Payload::Device(Device::GetVersion),
            33 => {
                let vendor: u32 = body.read_u32()?;
                let product: u32 = body.read_u32()?;
                let version: u32 = body.read_u32()?;

                Payload::Device(Device::StateVersion(vendor, product, version))
            },
            34 => Payload::Device(Device::GetInfo),
            35 => {
                let time: u64 = body.read_u64()?;
                let uptime: u64 = body.read_u64()?;
                let downtime: u64 = body.read_u64()?;

                Payload::Device(Device::StateInfo(time, uptime, downtime))
            },
            45 => Payload::Device(Device::Acknowledgement),
            48 => Payload::Device(Device::GetLocation),
            50 => {
                // A short body is short whatever its label holds: look at
                // the length before the label.
                if body.unread() < 56 {
                    return Err(DecodeError::UnexpectedEnd);
                }
                let location = decode_16_byte_arr(&mut body)?;
                let label = decode_32_byte_str(&mut body)?;
                let updated: u64 = body.read_u64()?;

                Payload::Device(Device::StateLocation(location, label, updated))
            },
            51 => Payload::Device(Device::GetGroup),
            53 => {
                // A short body is short whatever its label holds: look at
                // the length before the label.
                if body.unread() < 56 {
                    return Err(DecodeError::UnexpectedEnd);
                }
                let group = decode_16_byte_arr(&mut body)?;
                let label = decode_32_byte_str(&mut body)?;
                let updated: u64 = body.read_u64()?;

                Payload::Device(Device::StateGroup(group, label, updated))
            },
            58 => Payload::Device(Device::EchoRequest(decode_64_byte_arr(&mut body)?)),
            59 => Payload::Device(Device::EchoResponse(decode_64_byte_arr(&mut body)?)),
            101 => Payload::Light(Light::Get),
            102 => {
                let _ = body.read_u8()?;
                let color = HSBK::decode(&mut body)?;
                let duration: u32 = body.read_u32()?;

                Payload::Light(Light::SetColor(color, duration))
            },
            107 => {
                // A short body is short whatever its label holds: look at
                // the length before the label.
                if body.unread() < 52 {
                    return Err(DecodeError::UnexpectedEnd);
                }
                let color = HSBK::decode(&mut body)?;
                let _ = body.read_i16()?;
                let power: u16 = body.read_u16()?;
                let label = decode_32_byte_str(&mut body)?;
                let _ = body.read_u64()?;

                Payload::Light(Light::State(color, power, label))
            },
            116 => Payload::Light(Light::GetPower),
            117 => {
                let level = Power::from(body.read_u16()?);
                let duration: u32 = body.read_u32()?;

                Payload::Light(Light::SetPower(level, duration))
            },
            118 => Payload::Light(Light::StatePower(Power::from(body.read_u16()?))),
            _ => return Err(DecodeError::UnrecognizedMessage),
        };
        *d = body;
        Ok(payload)
    }
}

impl DeviceView {
    /// Whether every label of the message is free of NUL characters.
    pub open spec fn plain(self) -> bool {
        match self {
            DeviceView::StateLabel(label) => text_plain(label),
            DeviceView::StateLocation(_, label, _) => text_plain(label),
            DeviceView::StateGroup(_, label, _) => text_plain(label),
            _ => true,
        }
    }
}

impl LightView {
    /// Whether the label of the message is free of NUL characters.
    pub open spec fn plain(self) -> bool {
        match self {
            LightView::State(_, _, label) => text_plain(label),
            _ => true,
        }
    }
}

impl PayloadView {
    /// Whether every label of the message is free of NUL characters.
    pub open spec fn plain(self) -> bool {
        match self {
            PayloadView::Device(m) => m.plain(),
            PayloadView::Light(m) => m.plain(),
        }
    }
}

/// The wire form of a message has the length that goes with its type code.
pub proof fn lemma_wire_len(p: PayloadView)
    requires
        p.encodable(),
    ensures
        p.wire().len() == p.size(),
        p.size() == body_size(p.typ()),
        known_type(p.typ()),
{
    broadcast use lemma_le_bytes_len;

}

/// A message is read back from wherever its wire form lies, given its type
/// code, if each of its labels fits its field and has no NUL character.
pub proof fn lemma_parse_payload_of_wire(s: Seq<u8>, at: int, p: PayloadView)
    requires
        p.encodable(),
        p.plain(),
        0 <= at,
        at + p.size() <= s.len(),
        s.subrange(at, at + p.size()) == p.wire(),
    ensures
        parse_payload(p.typ(), s, at) == Ok::<(PayloadView, nat), DecodeError>(
            (p, p.size() as nat),
        ),
{
    broadcast use lemma_le_bytes_len;

    lemma_wire_len(p);
    lemma_radix_values();
    let w = p.wire();
    match p {
        PayloadView::Device(DeviceView::StateService(service, port)) => {
            assert(s[at] == s.subrange(at, at + 5)[0]);
            assert(w.subrange(1, 5) =~= le_bytes(port as nat, 4));
            lemma_le_at_within(s, at, w, 1, port as nat, 4);
        },
        PayloadView::Device(DeviceView::StateHostInfo(signal, tx, rx)) => {
            assert(w.subrange(0, 4) =~= le_bytes(signal as nat, 4));
            assert(w.subrange(4, 8) =~= le_bytes(tx as nat, 4));
            assert(w.subrange(8, 12) =~= le_bytes(rx as nat, 4));
            lemma_le_at_within(s, at, w, 0, signal as nat, 4);
            lemma_le_at_within(s, at, w, 4, tx as nat, 4);
            lemma_le_at_within(s, at, w, 8, rx as nat, 4);
        },
        PayloadView::Device(DeviceView::StateWifiInfo(signal, tx, rx)) => {
            assert(w.subrange(0, 4) =~= le_bytes(signal as nat, 4));
            assert(w.subrange(4, 8) =~= le_bytes(tx as nat, 4));
            assert(w.subrange(8, 12) =~= le_bytes(rx as nat, 4));
            lemma_le_at_within(s, at, w, 0, signal as nat, 4);
            lemma_le_at_within(s, at, w, 4, tx as nat, 4);
            lemma_le_at_within(s, at, w, 8, rx as nat, 4);
        },
        PayloadView::Device(DeviceView::StateHostFirmware(build, version)) => {
            assert(w.subrange(0, 8) =~= le_bytes(build as nat, 8));
            assert(w.subrange(16, 20) =~= le_bytes(version as nat, 4));
            lemma_le_at_within(s, at, w, 0, build as nat, 8);
            lemma_le_at_within(s, at, w, 16, version as nat, 4);
        },
        PayloadView::Device(DeviceView::StateWifiFirmware(build, version)) => {
            assert(w.subrange(0, 8) =~= le_bytes(build as nat, 8));
            assert(w.subrange(16, 20) =~= le_bytes(version as nat, 4));
            lemma_le_at_within(s, at, w, 0, build as nat, 8);
            lemma_le_at_within(s, at, w, 16, version as nat, 4);
        },
        PayloadView::Device(DeviceView::SetPower(level)) => {
            assert(w.subrange(0, 2) =~= le_bytes(level.level() as nat, 2));
            lemma_le_at_within(s, at, w, 0, level.level() as nat, 2);
        },
        PayloadView::Device(DeviceView::StatePower(level)) => {
            assert(w.subrange(0, 2) =~= le_bytes(level.level() as nat, 2));
            lemma_le_at_within(s, at, w, 0, level.level() as nat, 2);
        },
        PayloadView::Device(DeviceView::StateLabel(label)) => {
            lemma_text_round_trip(label, 32);
        },
        PayloadView::Device(DeviceView::StateVersion(vendor, product, version)) => {
            assert(w.subrange(0, 4) =~= le_bytes(vendor as nat, 4));
            assert(w.subrange(4, 8) =~= le_bytes(product as nat, 4));
            assert(w.subrange(8, 12) =~= le_bytes(version as nat, 4));
            lemma_le_at_within(s, at, w, 0, vendor as nat, 4);
            lemma_le_at_within(s, at, w, 4, product as nat, 4);
            lemma_le_at_within(s, at, w, 8, version as nat, 4);
        },
        PayloadView::Device(DeviceView::StateInfo(time, uptime, downtime)) => {
            assert(w.subrange(0, 8) =~= le_bytes(time as nat, 8));
            assert(w.subrange(8, 16) =~= le_bytes(uptime as nat, 8));
            assert(w.subrange(16, 24) =~= le_bytes(downtime as nat, 8));
            lemma_le_at_within(s, at, w, 0, time as nat, 8);
            lemma_le_at_within(s, at, w, 8, uptime as nat, 8);
            lemma_le_at_within(s, at, w, 16, downtime as nat, 8);
        },
        PayloadView::Device(DeviceView::StateLocation(id, label, updated_at)) => {
            lemma_text_round_trip(label, 32);
            assert(s.subrange(at, at + 16) =~= w.subrange(0, 16));
            assert(w.subrange(0, 16) =~= id);
            assert(s.subrange(at + 16, at + 48) =~= w.subrange(16, 48));
            assert(w.subrange(16, 48) =~= text_field(label, 32));
            assert(w.subrange(48, 56) =~= le_bytes(updated_at as nat, 8));
            lemma_le_at_within(s, at, w, 48, updated_at as nat, 8);
        },
        PayloadView::Device(DeviceView::StateGroup(id, label, updated_at)) => {
            lemma_text_round_trip(label, 32);
            assert(s.subrange(at, at + 16) =~= w.subrange(0, 16));
            assert(w.subrange(0, 16) =~= id);
            assert(s.subrange(at + 16, at + 48) =~= w.subrange(16, 48));
            assert(w.subrange(16, 48) =~= text_field(label, 32));
            assert(w.subrange(48, 56) =~= le_bytes(updated_at as nat, 8));
            lemma_le_at_within(s, at, w, 48, updated_at as nat, 8);
        },
        PayloadView::Light(LightView::SetColor(color, duration)) => {
            assert(w.subrange(1, 3) =~= le_bytes(color.hue as nat, 2));
            assert(w.subrange(3, 5) =~= le_bytes(color.saturation as nat, 2));
            assert(w.subrange(5, 7) =~= le_bytes(color.brightness as nat, 2));
            assert(w.subrange(7, 9) =~= le_bytes(color.kelvin as nat, 2));
            assert(w.subrange(9, 13) =~= le_bytes(duration as nat, 4));
            lemma_le_at_within(s, at, w, 1, color.hue as nat, 2);
            lemma_le_at_within(s, at, w, 3, color.saturation as nat, 2);
            lemma_le_at_within(s, at, w, 5, color.brightness as nat, 2);
            lemma_le_at_within(s, at, w, 7, color.kelvin as nat, 2);
            lemma_le_at_within(s, at, w, 9, duration as nat, 4);
        },
        PayloadView::Light(LightView::State(color, power, label)) => {
            lemma_text_round_trip(label, 32);
            assert(w.subrange(0, 2) =~= le_bytes(color.hue as nat, 2));
            assert(w.subrange(2, 4) =~= le_bytes(color.saturation as nat, 2));
            assert(w.subrange(4, 6) =~= le_bytes(color.brightness as nat, 2));
            assert(w.subrange(6, 8) =~= le_bytes(color.kelvin as nat, 2));
            assert(w.subrange(10, 12) =~= le_bytes(power as nat, 2));
            lemma_le_at_within(s, at, w, 0, color.hue as nat, 2);
            lemma_le_at_within(s, at, w, 2, color.saturation as nat, 2);
            lemma_le_at_within(s, at, w, 4, color.brightness as nat, 2);
            lemma_le_at_within(s, at, w, 6, color.kelvin as nat, 2);
            lemma_le_at_within(s, at, w, 10, power as nat, 2);
            assert(s.subrange(at + 12, at + 44) =~= w.subrange(12, 44));
            assert(w.subrange(12, 44) =~= text_field(label, 32));
        },
        PayloadView::Light(LightView::SetPower(level, duration)) => {
            assert(w.subrange(0, 2) =~= le_bytes(level.level() as nat, 2));
            assert(w.subrange(2, 6) =~= le_bytes(duration as nat, 4));
            lemma_le_at_within(s, at, w, 0, level.level() as nat, 2);
            lemma_le_at_within(s, at, w, 2, duration as nat, 4);
        },
        PayloadView::Light(LightView::StatePower(level)) => {
            assert(w.subrange(0, 2) =~= le_bytes(level.level() as nat, 2));
            lemma_le_at_within(s, at, w, 0, level.level() as nat, 2);
        },
        _ => {},
    }
}

/// Decoding the wire form of a message, given its type code, gives the
/// message back, field for field, if each of its labels fits its field and
/// has no NUL character.
pub proof fn lemma_payload_round_trip(p: PayloadView)
    requires
        p.encodable(),
        p.plain(),
    ensures
        parse_payload(p.typ(), p.wire(), 0) == Ok::<(PayloadView, nat), DecodeError>(
            (p, p.size() as nat),
        ),
{
    lemma_wire_len(p);
    assert(p.wire().subrange(0, p.size() as int) =~= p.wire());
    lemma_parse_payload_of_wire(p.wire(), 0, p);
}

} // verus!
