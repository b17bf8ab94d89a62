use lifx::message::CLIENT_ID;
use lifx::serialize;
use lifx::serialize::DecodeError;
use lifx::serialize::EncodeError;
use lifx::Device;
use lifx::Header;
use lifx::Light;
use lifx::Message;
use lifx::Payload;
use lifx::Power;
use lifx::Service;
use lifx::HSBK;

#[test]
fn new_takes_the_header_from_the_payload() {
    let message = Message::new(Payload::Light(Light::SetPower(Power::Max, 500)), true, 77, 9);
    assert_eq!(*message.header(), Header::new(42, false, CLIENT_ID, 77, true, false, 9, 117));
    assert_eq!(*message.payload(), Payload::Light(Light::SetPower(Power::Max, 500)));
    assert_eq!(CLIENT_ID, 1111);

    let probe = Message::new(Payload::Device(Device::GetService), false, 0, 0);
    assert_eq!(*probe.header(), Header::new(36, true, 1111, 0, false, true, 0, 2));

    let state = Message::new(Payload::Device(Device::StateLabel("a".to_string())), false, 5, 255);
    assert_eq!(*state.header(), Header::new(68, false, 1111, 5, false, false, 255, 25));
}

#[test]
fn only_requests_leave_with_the_response_bit() {
    let get = serialize::encode(&Message::new(Payload::Light(Light::GetPower), false, 1, 0)).unwrap();
    assert_eq!(get[22], 0b01);
    let set =
        serialize::encode(&Message::new(Payload::Light(Light::SetPower(Power::Max, 0)), false, 1, 0))
            .unwrap();
    assert_eq!(set[22], 0b00);
    let color = serialize::encode(&Message::new(
        Payload::Light(Light::SetColor(HSBK::new(0, 0, 0, 3500), 0)),
        true,
        1,
        0,
    ))
    .unwrap();
    assert_eq!(color[22], 0b10);
    let power =
        serialize::encode(&Message::new(Payload::Device(Device::SetPower(Power::Max)), false, 1, 0))
            .unwrap();
    assert_eq!(power[22], 0b00);
}

#[test]
fn unpack_gives_payload_and_target() {
    let message = Message::new(Payload::Device(Device::StateService(Service::Udp, 56700)), false, 0xd073d5001337, 1);
    assert_eq!(
        message.unpack(),
        (Payload::Device(Device::StateService(Service::Udp, 56700)), 0xd073d5001337)
    );
}

#[test]
fn wire_form_is_header_then_payload() {
    let payload = Payload::Light(Light::SetColor(HSBK::new(1, 2, 3, 3500), 4));
    let message = Message::new(payload.clone(), false, 8, 3);
    let bytes = serialize::encode(&message).unwrap();
    let mut expected = serialize::encode(message.header()).unwrap();
    expected.extend_from_slice(&serialize::encode(&payload).unwrap());
    assert_eq!(bytes, expected);
    assert_eq!(bytes.len(), 49);
    assert_eq!(&bytes[0..2], &[49, 0]);
    assert_eq!(message.header().size(), 49);
}

#[test]
fn set_power_datagram() {
    let message = Message::new(Payload::Light(Light::SetPower(Power::Max, 500)), true, 3732340569040, 7);
    let bytes = serialize::encode(&message).unwrap();
    assert_eq!(
        bytes,
        vec![
            0x2a, 0x00, 0x00, 0x14, 0x57, 0x04, 0x00, 0x00, 0xd0, 0x73, 0xd5, 0x00, 0x65, 0x03,
            0x00, 0x00, 0x00, 0x00, 0x00, 0x00, 0x00, 0x00, 0x02, 0x07, 0x00, 0x00, 0x00, 0x00,
            0x00, 0x00, 0x00, 0x00, 0x75, 0x00, 0x00, 0x00, 0xff, 0xff, 0xf4, 0x01, 0x00, 0x00,
        ]
    );
}

#[test]
fn messages_round_trip() {
    let payloads = vec![
        Payload::Device(Device::GetService),
        Payload::Device(Device::StateService(Service::Udp, 56700)),
        Payload::Device(Device::StateLabel("Hall".to_string())),
        Payload::Device(Device::StateLocation([9; 16], "Home".to_string(), 77)),
        Payload::Light(Light::State(HSBK::new(1, 2, 3, 2500), 4, "Desk".to_string())),
        Payload::Light(Light::GetPower),
    ];
    for payload in payloads {
        for seq in [0u8, 1, 255] {
            let message = Message::new(payload.clone(), seq % 2 == 0, 0x0102030405060708, seq);
            let bytes = serialize::encode(&message).unwrap();
            assert_eq!(bytes.len(), message.header().size() as usize);
            let back: Message = serialize::decode(&bytes).unwrap();
            assert_eq!(back, message);
        }
    }
}

#[test]
fn a_message_without_wire_form() {
    let message = Message::new(Payload::Device(Device::StateLabel("z".repeat(40))), false, 1, 1);
    assert_eq!(serialize::encode(&message), Err(EncodeError::StringTooLong));
}

#[test]
fn decode_of_what_is_no_message() {
    let message = Message::new(Payload::Device(Device::StateLabel("Hall".to_string())), false, 1, 1);
    let bytes = serialize::encode(&message).unwrap();
    for n in 0..bytes.len() {
        let r: Result<Message, DecodeError> = serialize::decode(&bytes[..n]);
        assert_eq!(r, Err(DecodeError::UnexpectedEnd));
    }
    let mut unknown = bytes.clone();
    unknown[32] = 0x0f;
    unknown[33] = 0x27;
    let r: Result<Message, DecodeError> = serialize::decode(&unknown);
    assert_eq!(r, Err(DecodeError::UnrecognizedMessage));
    let mut garbled = bytes.clone();
    garbled[36] = 0xff;
    let r: Result<Message, DecodeError> = serialize::decode(&garbled);
    assert_eq!(r, Err(DecodeError::InvalidText));
}

#[test]
fn the_type_in_the_header_selects_the_payload() {
    let mut bytes =
        serialize::encode(&Message::new(Payload::Device(Device::StatePower(Power::Max)), false, 1, 1))
            .unwrap();
    bytes[32] = 118;
    let back: Message = serialize::decode(&bytes).unwrap();
    assert_eq!(*back.payload(), Payload::Light(Light::StatePower(Power::Max)));
    assert_eq!(back.header().typ(), 118);
}
