use lifx::serialize;
use lifx::serialize::DecodeError;
use lifx::Header;

#[test]
fn test_header_encode_correctness() {
    let correct = [
        0x24, 0x0, 0x0, 0x34, 0x29, 0xb9, 0x36, 0xa9, 0x0, 0x0, 0x0, 0x0, 0x0, 0x0, 0x0, 0x0, 0x0,
        0x0, 0x0, 0x0, 0x0, 0x0, 0x1, 0x0, 0x0, 0x0, 0x0, 0x0, 0x0, 0x0, 0x0, 0x0, 0x2, 0x0, 0x0,
        0x0,
    ];

    let header: Header = Header::new(36, true, 2838935849, 0, false, true, 0, 2);

    assert_eq!(&correct[..], &serialize::encode(&header).unwrap()[..])
}

#[test]
fn test_encode_decode_serializer() {
    let header: Header = Header::new(128, true, 256, 1000, false, false, 1, 12);
    let encode = serialize::encode(&header).unwrap();
    let decode: Header = serialize::decode(&encode[..]).unwrap();

    assert_eq!(decode, header);
}

#[test]
fn header_has_36_bytes() {
    let header = Header::new(0, false, 0, 0, false, false, 0, 0);
    assert_eq!(serialize::encode(&header).unwrap().len(), 36);
    assert_eq!(Header::mem_size(), 36);
}

#[test]
fn header_getters() {
    let header = Header::new(49, false, 7, 0xd073d5001337, true, false, 200, 117);
    assert_eq!(header.size(), 49);
    assert_eq!(header.target(), 0xd073d5001337);
    assert_eq!(header.typ(), 117);
}

#[test]
fn header_default_is_tagged_and_asks_for_both() {
    let header = Header::default();
    assert_eq!(header, Header::new(0, true, 0, 0, true, true, 0, 0));
    let bytes = serialize::encode(&header).unwrap();
    assert_eq!(&bytes[2..4], &[0x00, 0x34]);
    assert_eq!(bytes[22], 0b11);
}

#[test]
fn header_flag_word_untagged() {
    let header = Header::new(36, false, 0, 0, false, false, 0, 0);
    let bytes = serialize::encode(&header).unwrap();
    // protocol 1024 | addressable
    assert_eq!(&bytes[2..4], &[0x00, 0x14]);
    assert_eq!(bytes[22], 0);
}

#[test]
fn header_ack_and_response_bits() {
    let ack = serialize::encode(&Header::new(36, false, 0, 0, true, false, 0, 0)).unwrap();
    let res = serialize::encode(&Header::new(36, false, 0, 0, false, true, 0, 0)).unwrap();
    assert_eq!(ack[22], 0b10);
    assert_eq!(res[22], 0b01);
}

#[test]
fn header_fields_are_little_endian() {
    let header = Header::new(0x0102, false, 0x0a0b0c0d, 0x1122334455667788, false, false, 0x5a, 0x0304);
    let bytes = serialize::encode(&header).unwrap();
    assert_eq!(&bytes[0..2], &[0x02, 0x01]);
    assert_eq!(&bytes[4..8], &[0x0d, 0x0c, 0x0b, 0x0a]);
    assert_eq!(&bytes[8..16], &[0x88, 0x77, 0x66, 0x55, 0x44, 0x33, 0x22, 0x11]);
    assert_eq!(&bytes[16..22], &[0, 0, 0, 0, 0, 0]);
    assert_eq!(bytes[23], 0x5a);
    assert_eq!(&bytes[24..32], &[0, 0, 0, 0, 0, 0, 0, 0]);
    assert_eq!(&bytes[32..34], &[0x04, 0x03]);
    assert_eq!(&bytes[34..36], &[0, 0]);
}

#[test]
fn header_round_trips_for_many_values() {
    let sizes = [0u16, 36, 100, 65535];
    let targets = [0u64, 1, 0xd073d5001337, u64::MAX];
    let flags = [false, true];
    for &size in sizes.iter() {
        for &target in targets.iter() {
            for &tagged in flags.iter() {
                for &ack in flags.iter() {
                    for &res in flags.iter() {
                        let header =
                            Header::new(size, tagged, 0xdeadbeef, target, ack, res, 255, 9999);
                        let bytes = serialize::encode(&header).unwrap();
                        let back: Header = serialize::decode(&bytes[..]).unwrap();
                        assert_eq!(back, header);
                    }
                }
            }
        }
    }
}

#[test]
fn header_decode_skips_reserved_bytes() {
    let header = Header::new(36, true, 1, 2, true, false, 3, 4);
    let mut bytes = serialize::encode(&header).unwrap();
    for i in 16..22 {
        bytes[i] = 0xff;
    }
    for i in 24..32 {
        bytes[i] = 0xff;
    }
    bytes[34] = 0xff;
    bytes[35] = 0xff;
    bytes[22] |= 0b1111_1100;
    let back: Header = serialize::decode(&bytes[..]).unwrap();
    assert_eq!(back, header);
}

#[test]
fn header_decode_keeps_origin() {
    let mut bytes = serialize::encode(&Header::new(36, true, 1, 2, true, false, 3, 4)).unwrap();
    bytes[3] |= 0b1000_0000;
    let with_origin: Header = serialize::decode(&bytes[..]).unwrap();
    assert_ne!(with_origin, Header::new(36, true, 1, 2, true, false, 3, 4));
    assert_eq!(serialize::encode(&with_origin).unwrap(), bytes);
}

#[test]
fn header_decode_of_short_input_fails() {
    let bytes = serialize::encode(&Header::new(36, true, 1, 2, true, false, 3, 4)).unwrap();
    for n in 0..36 {
        let r: Result<Header, DecodeError> = serialize::decode(&bytes[..n]);
        assert_eq!(r, Err(DecodeError::UnexpectedEnd));
    }
}

#[test]
fn header_decode_ignores_what_follows() {
    let header = Header::new(36, true, 1, 2, true, false, 3, 4);
    let mut bytes = serialize::encode(&header).unwrap();
    bytes.extend_from_slice(&[1, 2, 3]);
    let back: Header = serialize::decode(&bytes[..]).unwrap();
    assert_eq!(back, header);
}
