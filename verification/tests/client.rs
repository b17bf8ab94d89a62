use lifx::client::confirm_sent;
use lifx::client::discover_broadcast;
use lifx::client::discover_requests;
use lifx::client::next_sequence;
use lifx::client::SendError;
use lifx::client::SequenceCounter;
use lifx::client::GET_ALL;
use lifx::client::GET_GROUP;
use lifx::client::GET_HOST_FIRMWARE;
use lifx::client::GET_HOST_INFO;
use lifx::client::GET_LABEL;
use lifx::client::GET_LOCATION;
use lifx::client::GET_POWER;
use lifx::client::GET_WIFI;
use lifx::serialize;
use lifx::serialize::DecodeError;
use lifx::Client;
use lifx::Device;
use lifx::DiscoverOptions;
use lifx::Light;
use lifx::Message;
use lifx::Payload;
use lifx::Power;
use lifx::Service;

#[test]
fn test_sequence_counter_overflow() {
    let mut counter = SequenceCounter::new();

    assert_eq!(0, next_sequence(&mut counter));
    for _ in 1..(u8::MAX as usize) + 1 {
        next_sequence(&mut counter);
    }
    assert_eq!(0, next_sequence(&mut counter));
    for _ in 1..(u8::MAX as usize) + 1 {
        next_sequence(&mut counter);
    }
    assert_eq!(0, next_sequence(&mut counter));
}

#[test]
fn sequence_counts_up_in_order() {
    let mut counter = SequenceCounter::new();
    for round in 0..3 {
        for expected in 0..=255u8 {
            assert_eq!(next_sequence(&mut counter), expected, "round {}", round);
        }
    }
}

fn datagram(payload: Payload, target: u64) -> Vec<u8> {
    serialize::encode(&Message::new(payload, false, target, 0)).unwrap()
}

#[test]
fn new_client_is_open_and_empty() {
    let client: Client<u32> = Client::new();
    assert!(!client.is_closed());
    assert_eq!(client.devices().len(), 0);
    assert!(client.device(1).is_none());
}

#[test]
fn close_is_one_way() {
    let mut client: Client<u32> = Client::new();
    client.close();
    assert!(client.is_closed());
    client.close();
    assert!(client.is_closed());
    client.update(Payload::Device(Device::StateService(Service::Udp, 56700)), 1, 9);
    assert!(client.is_closed());
    let _ = client.prepare_msg(Payload::Light(Light::Get), false, 1);
    assert!(client.is_closed());
}

#[test]
fn state_service_registers_a_device() {
    let mut client: Client<u32> = Client::new();
    client.update(Payload::Device(Device::StateService(Service::Udp, 56700)), 42, 7);
    assert_eq!(client.devices().len(), 1);
    let bulb = client.device(42).unwrap();
    assert_eq!(bulb.target(), 42);
    assert_eq!(bulb.port(), 56700);
    assert_eq!(*bulb.ip(), 7);
    assert_eq!(bulb.label(), None);
    assert_eq!(bulb.location(), None);
}

#[test]
fn state_service_for_another_service_is_ignored() {
    let mut client: Client<u32> = Client::new();
    client.update(Payload::Device(Device::StateService(Service::Reserved, 56700)), 42, 7);
    assert_eq!(client.devices().len(), 0);
}

#[test]
fn first_state_service_wins() {
    let mut client: Client<u32> = Client::new();
    client.update(Payload::Device(Device::StateService(Service::Udp, 56700)), 42, 7);
    client.update(Payload::Device(Device::StateLabel("kitchen".to_string())), 42, 7);
    client.update(Payload::Device(Device::StateService(Service::Udp, 1234)), 42, 8);
    assert_eq!(client.devices().len(), 1);
    let bulb = client.device(42).unwrap();
    assert_eq!(bulb.port(), 56700);
    assert_eq!(*bulb.ip(), 7);
    assert_eq!(bulb.label(), Some("kitchen"));
}

#[test]
fn state_label_for_an_unknown_device_is_ignored() {
    let mut client: Client<u32> = Client::new();
    client.update(Payload::Device(Device::StateService(Service::Udp, 56700)), 42, 7);
    client.update(Payload::Device(Device::StateLabel("hall".to_string())), 43, 7);
    client.update(Payload::Device(Device::StateLocation([1; 16], "home".to_string(), 5)), 43, 7);
    assert_eq!(client.devices().len(), 1);
    assert!(client.device(43).is_none());
    let bulb = client.device(42).unwrap();
    assert_eq!(bulb.label(), None);
    assert_eq!(bulb.location(), None);
}

#[test]
fn state_label_and_location_fill_in_a_known_device() {
    let mut client: Client<u32> = Client::new();
    client.update(Payload::Device(Device::StateService(Service::Udp, 56700)), 42, 7);
    client.update(Payload::Device(Device::StateLabel("hall".to_string())), 42, 99);
    {
        let bulb = client.device(42).unwrap();
        assert_eq!(bulb.label(), Some("hall"));
        assert_eq!(bulb.location(), None);
        assert_eq!(*bulb.ip(), 7);
    }
    client.update(Payload::Device(Device::StateLocation([1; 16], "home".to_string(), 5)), 42, 99);
    client.update(Payload::Device(Device::StateLabel("landing".to_string())), 42, 99);
    let bulb = client.device(42).unwrap();
    assert_eq!(bulb.label(), Some("landing"));
    assert_eq!(bulb.location(), Some("home"));
    assert_eq!(bulb.port(), 56700);
}

#[test]
fn other_payloads_change_nothing() {
    let mut client: Client<u32> = Client::new();
    client.update(Payload::Device(Device::StateService(Service::Udp, 56700)), 42, 7);
    client.update(Payload::Device(Device::StateGroup([1; 16], "upstairs".to_string(), 5)), 42, 7);
    client.update(Payload::Device(Device::StatePower(Power::Max)), 42, 7);
    client.update(Payload::Device(Device::Acknowledgement), 42, 7);
    client.update(Payload::Light(Light::StatePower(Power::Standby)), 42, 7);
    assert_eq!(client.devices().len(), 1);
    let bulb = client.device(42).unwrap();
    assert_eq!(bulb.label(), None);
    assert_eq!(bulb.location(), None);
}

#[test]
fn receive_decodes_and_updates() {
    let mut client: Client<u32> = Client::new();
    let found = datagram(Payload::Device(Device::StateService(Service::Udp, 56700)), 0xd073d5001337);
    assert_eq!(client.receive(&found[..], 3), Ok(()));
    let named = datagram(Payload::Device(Device::StateLabel("desk".to_string())), 0xd073d5001337);
    assert_eq!(client.receive(&named[..], 3), Ok(()));
    let bulb = client.device(0xd073d5001337).unwrap();
    assert_eq!(bulb.label(), Some("desk"));
    assert_eq!(*bulb.ip(), 3);
}

#[test]
fn receive_of_foreign_bytes_changes_nothing() {
    let mut client: Client<u32> = Client::new();
    let found = datagram(Payload::Device(Device::StateService(Service::Udp, 56700)), 5);
    assert_eq!(client.receive(&found[..], 3), Ok(()));

    assert_eq!(client.receive(&[1, 2, 3], 3), Err(DecodeError::UnexpectedEnd));

    let mut unknown = datagram(Payload::Device(Device::StateLabel("desk".to_string())), 5);
    unknown[32] = 0x0f;
    unknown[33] = 0x27;
    assert_eq!(client.receive(&unknown[..], 3), Err(DecodeError::UnrecognizedMessage));

    let named = datagram(Payload::Device(Device::StateLabel("desk".to_string())), 5);
    assert_eq!(client.receive(&named[..40], 3), Err(DecodeError::UnexpectedEnd));

    assert_eq!(client.devices().len(), 1);
    assert_eq!(client.device(5).unwrap().label(), None);
}

#[test]
fn prepare_msg_numbers_and_encodes() {
    let mut client: Client<u32> = Client::new();
    let (seq, bytes) = client.prepare_msg(Payload::Light(Light::SetPower(Power::Max, 500)), true, 77).unwrap();
    assert_eq!(seq, 0);
    assert_eq!(
        bytes,
        serialize::encode(&Message::new(Payload::Light(Light::SetPower(Power::Max, 500)), true, 77, 0))
            .unwrap()
    );
    assert_eq!(bytes.len(), 42);
    let (seq, bytes) = client.prepare_msg(Payload::Device(Device::GetService), false, 0).unwrap();
    assert_eq!(seq, 1);
    assert_eq!(bytes[23], 1);
    assert_eq!(bytes.len(), 36);
}

#[test]
fn prepare_msg_wraps_after_256() {
    let mut client: Client<u32> = Client::new();
    for expected in 0..=255u8 {
        let (seq, _) = client.prepare_msg(Payload::Light(Light::Get), false, 1).unwrap();
        assert_eq!(seq, expected);
    }
    let (seq, _) = client.prepare_msg(Payload::Light(Light::Get), false, 1).unwrap();
    assert_eq!(seq, 0);
}

#[test]
fn prepare_msg_uses_up_a_number_on_failure() {
    let mut client: Client<u32> = Client::new();
    let long = "x".repeat(33);
    assert_eq!(
        client.prepare_msg(Payload::Device(Device::StateLabel(long)), false, 1),
        Err(SendError::FailedToEncode)
    );
    let (seq, _) = client.prepare_msg(Payload::Light(Light::Get), false, 1).unwrap();
    assert_eq!(seq, 1);
}

#[test]
fn confirm_sent_checks_the_count() {
    assert_eq!(confirm_sent(9, 36, Some(36)), Ok(9));
    assert_eq!(confirm_sent(9, 36, Some(35)), Err(SendError::WrongNumberOfBytes));
    assert_eq!(confirm_sent(9, 36, Some(37)), Err(SendError::WrongNumberOfBytes));
    assert_eq!(confirm_sent(9, 36, None), Err(SendError::FailedToSend));
    assert_eq!(confirm_sent(0, 0, Some(0)), Ok(0));
}

#[test]
fn a_discovery_round_begins_with_get_service_for_all() {
    assert_eq!(discover_broadcast(), (Payload::Device(Device::GetService), false, 0));
    let (payload, _, _) = discover_broadcast();
    assert!(payload.tagged());
    assert!(payload.requires_response());
}

#[test]
fn discover_requests_follow_the_flags() {
    assert_eq!(discover_requests(DiscoverOptions::empty()), vec![]);
    assert_eq!(
        discover_requests(DiscoverOptions::from_bits_truncate(GET_LABEL)),
        vec![Payload::Device(Device::GetLabel)]
    );
    assert_eq!(
        discover_requests(DiscoverOptions::from_bits_truncate(GET_WIFI | GET_POWER)),
        vec![Payload::Device(Device::GetPower), Payload::Device(Device::GetWifiFirmware)]
    );
    assert_eq!(
        discover_requests(DiscoverOptions::from_bits_truncate(GET_ALL)),
        vec![
            Payload::Device(Device::GetLabel),
            Payload::Device(Device::GetPower),
            Payload::Device(Device::GetLocation),
            Payload::Device(Device::GetGroup),
            Payload::Device(Device::GetHostInfo),
            Payload::Device(Device::GetHostFirmware),
            Payload::Device(Device::GetWifiFirmware),
        ]
    );
    assert_eq!(discover_requests(DiscoverOptions::all()).len(), 7);
}

#[test]
fn discover_options_are_flags() {
    assert_eq!(
        GET_LABEL | GET_WIFI | GET_LOCATION | GET_HOST_FIRMWARE | GET_GROUP | GET_POWER | GET_HOST_INFO,
        GET_ALL
    );
    let options = DiscoverOptions::from_bits_truncate(GET_LABEL | GET_GROUP | 0b1000_0000);
    assert_eq!(options.bits(), GET_LABEL | GET_GROUP);
    assert!(options.contains(GET_LABEL | GET_GROUP));
    assert!(!options.contains(GET_LABEL | GET_POWER));
    assert!(options.intersects(GET_LABEL | GET_POWER));
    assert!(!options.intersects(GET_POWER));
    assert!(!options.is_empty());
    assert!(DiscoverOptions::empty().is_empty());
    assert_eq!(DiscoverOptions::from_bits(0b1000_0000), None);
    assert_eq!(DiscoverOptions::from_bits(GET_ALL), Some(DiscoverOptions::all()));
}
