use msp_bridge::msp::{MspDirection, MspError, MspFrame, MspMessage, MspVersion};
use msp_bridge::payload::{MspAttitude, MspBytes, MspIdent};

/// An eighteen-byte payload under function id 0x4242.
type Special = MspBytes<0x4242, 18>;

fn hello() -> Special {
    MspBytes(
        "Hello flying world"
            .as_bytes()
            .try_into()
            .expect("unable to convert to array"),
    )
}

fn hello_bytes() -> Vec<u8> {
    vec![
        0x24u8, 0x58, 0x3e, 0xa5, 0x42, 0x42, 0x12, 0x00, 0x48, 0x65, 0x6c, 0x6c, 0x6f, 0x20,
        0x66, 0x6c, 0x79, 0x69, 0x6e, 0x67, 0x20, 0x77, 0x6f, 0x72, 0x6c, 0x64, 0x82,
    ]
}

fn hello_message() -> MspMessage<Special> {
    MspMessage {
        version: MspVersion::V2,
        direction: MspDirection::Response,
        flag: Some(0xa5),
        function: 0x4242,
        payload: Some(hello()),
    }
}

#[test]
fn pure_bytes_to_mspv2() {
    let buf = [0x24u8, 0x58, 0x3c, 0, 0x64, 0, 0, 0, 0x8f];

    let message: MspMessage<MspIdent> = MspMessage {
        version: MspVersion::V2,
        direction: MspDirection::Request,
        flag: Some(0),
        function: 100,
        payload: None,
    };

    let new_message = MspMessage::decode(&buf[..]).expect("unable to decode new_message");
    let new_buf = message.encode();

    assert_eq!(buf.to_vec(), new_buf);
    assert_eq!(message, new_message);
}

#[test]
fn pure_bytes_to_mspv2_payload() {
    let buf = vec![
        0x24u8, 0x58, 0x3e, 0xa5, 0x42, 0x42, 0x12, 0x00, 0x48, 0x65, 0x6c, 0x6c, 0x6f, 0x20,
        0x66, 0x6c, 0x79, 0x69, 0x6e, 0x67, 0x20, 0x77, 0x6f, 0x72, 0x6c, 0x64, 0x82,
    ];

    let message: MspMessage<Special> = MspMessage {
        version: MspVersion::V2,
        direction: MspDirection::Response,
        flag: Some(0xa5),
        function: 0x4242,
        payload: Some(hello()),
    };

    let new_message: MspMessage<Special> =
        MspMessage::decode(&buf[..]).expect("unable to decode new_message");

    let new_buf = message.encode();

    assert_eq!(buf, new_buf);
    assert_eq!(message, new_message);
}

#[test]
fn noised_bytes_to_mspv2() {
    let buf = vec![
        0x30, 0x60, 0x13, 0x24, 0x58, 0x3e, 0xa5, 0x42, 0x42, 0x12, 0x00, 0x48, 0x65, 0x6c,
        0x6c, 0x6f, 0x20, 0x66, 0x6c, 0x79, 0x69, 0x6e, 0x67, 0x20, 0x77, 0x6f, 0x72, 0x6c,
        0x64, 0x82, 0x25,
    ];

    let message: MspMessage<Special> = MspMessage {
        version: MspVersion::V2,
        direction: MspDirection::Response,
        flag: Some(0xa5),
        function: 0x4242,
        payload: Some(hello()),
    };

    let new_message: MspMessage<Special> =
        MspMessage::decode(&buf[..]).expect("unable to decode new_message");

    assert_eq!(message, new_message);
}

#[test]
fn pure_bytes_to_mspv2_checksum_error() {
    let buf = vec![
        0x24u8, 0x58, 0x3e, 0xa5, 0x42, 0x42, 0x12, 0x00, 0x48, 0x65, 0x6c, 0x6c, 0x6f, 0x20,
        0x66, 0x6c, 0x79, 0x69, 0x6e, 0x67, 0x20, 0x77, 0x6f, 0x72, 0x6c, 0x64, 0x81,
    ];

    let result: Result<MspMessage<Special>, MspError> = MspMessage::decode(&buf[..]);
    assert!(result.is_err());
    assert_eq!(result, Err(MspError::CrcMismatch));
}

#[test]
fn direction_and_version_bytes() {
    assert_eq!(u8::from(&MspDirection::Request), b'<');
    assert_eq!(u8::from(&MspDirection::Response), b'>');
    assert_eq!(u8::from(&MspDirection::Error), b'!');
    assert_eq!(u8::from(&MspVersion::V1), b'M');
    assert_eq!(u8::from(&MspVersion::V2), b'X');
    for byte in 0..=255u8 {
        match MspDirection::try_from(byte) {
            Ok(direction) => assert_eq!(u8::from(&direction), byte),
            Err(e) => {
                assert_eq!(e, MspError::UnknownDirection);
                assert!(byte != b'<' && byte != b'>' && byte != b'!');
            }
        }
        match MspVersion::try_from(byte) {
            Ok(version) => assert_eq!(u8::from(&version), byte),
            Err(e) => {
                assert_eq!(e, MspError::UnknownVersion);
                assert!(byte != b'M' && byte != b'X');
            }
        }
    }
}

#[test]
fn ser_is_the_frame_without_its_checksum() {
    let message = hello_message();
    let wire = hello_bytes();
    assert_eq!(message.ser(), wire[..wire.len() - 1].to_vec());
    assert_eq!(message.checksum(), 0x82);
    let frame = message.to_frame();
    assert_eq!(frame.payload, b"Hello flying world".to_vec());
    assert_eq!(frame.ser(), wire[..wire.len() - 1].to_vec());
    assert_eq!(frame.checksum(), 0x82);
    assert_eq!(frame.encode(), wire);
}

/// CRC-8 with polynomial 0xD5 and initial value zero, bit by bit.
fn crc8_bitwise(data: &[u8]) -> u8 {
    let mut crc = 0u8;
    for byte in data {
        crc ^= byte;
        for _ in 0..8 {
            crc = if crc & 0x80 != 0 { (crc << 1) ^ 0xD5 } else { crc << 1 };
        }
    }
    crc
}

#[test]
fn v2_checksum_is_crc8_dvb_s2_of_flag_to_payload() {
    // the check value of CRC-8/DVB-S2
    assert_eq!(crc8_bitwise(b"123456789"), 0xBC);
    for len in [0usize, 1, 5, 64, 300] {
        let frame = MspFrame {
            version: MspVersion::V2,
            direction: MspDirection::Request,
            flag: Some(0x31),
            function: 0x3332,
            payload: (0..len).map(|i| (i * 13 + 1) as u8).collect(),
        };
        let wire = frame.encode();
        let expected = crc8_bitwise(&wire[3..wire.len() - 1]);
        assert_eq!(frame.checksum(), expected);
        assert_eq!(*wire.last().unwrap(), expected);
    }
    // flag 0, function 100, length 0
    assert_eq!(crc8_bitwise(&[0, 100, 0, 0, 0]), 0x8f);
}

#[test]
fn v1_frame_layout_and_xor_checksum() {
    let frame = MspFrame {
        version: MspVersion::V1,
        direction: MspDirection::Request,
        flag: None,
        function: 100,
        payload: vec![1, 2, 3],
    };
    // $ M < function length payload xor(length, payload)
    let wire = vec![0x24, 0x4d, 0x3c, 100, 3, 1, 2, 3, 3 ^ 1 ^ 2 ^ 3];
    assert_eq!(frame.encode(), wire);
    assert_eq!(frame.checksum(), 3);
    assert_eq!(MspFrame::decode(&wire), Ok(frame));

    let empty = MspFrame {
        version: MspVersion::V1,
        direction: MspDirection::Error,
        flag: None,
        function: 7,
        payload: vec![],
    };
    let wire = vec![0x24, 0x4d, 0x21, 7, 0, 0];
    assert_eq!(empty.encode(), wire);
    assert_eq!(MspFrame::decode(&wire), Ok(empty));
}

#[test]
fn v1_uses_the_low_byte_of_the_function_and_no_flag() {
    let frame = MspFrame {
        version: MspVersion::V1,
        direction: MspDirection::Response,
        flag: Some(9),
        function: 0x1234,
        payload: vec![0xaa],
    };
    let wire = frame.encode();
    assert_eq!(wire, vec![0x24, 0x4d, 0x3e, 0x34, 1, 0xaa, 1 ^ 0xaa]);
    let back = MspFrame::decode(&wire).expect("a frame");
    assert_eq!(back.flag, None);
    assert_eq!(back.function, 0x34);
    assert_eq!(back.payload, vec![0xaa]);
}

#[test]
fn v1_jumbo_frame_round_trip() {
    for len in [254usize, 255, 256, 300, 65535] {
        let payload: Vec<u8> = (0..len).map(|i| (i * 7 + 3) as u8).collect();
        let frame = MspFrame {
            version: MspVersion::V1,
            direction: MspDirection::Response,
            flag: None,
            function: 42,
            payload: payload.clone(),
        };
        let wire = frame.encode();
        if len < 255 {
            assert_eq!(wire.len(), 5 + len + 1);
            assert_eq!(wire[4], len as u8);
        } else {
            assert_eq!(wire.len(), 7 + len + 1);
            assert_eq!(wire[4], 255);
            assert_eq!(wire[5], (len % 256) as u8);
            assert_eq!(wire[6], (len / 256) as u8);
        }
        let mut xor = 0u8;
        for byte in &wire[4..wire.len() - 1] {
            xor ^= byte;
        }
        assert_eq!(*wire.last().unwrap(), xor);
        assert_eq!(MspFrame::decode(&wire), Ok(frame));
    }
}

#[test]
fn v2_largest_payload_round_trip() {
    let payload: Vec<u8> = (0..65535usize).map(|i| (i % 251) as u8).collect();
    let frame = MspFrame {
        version: MspVersion::V2,
        direction: MspDirection::Response,
        flag: Some(1),
        function: 0xffff,
        payload,
    };
    let wire = frame.encode();
    assert_eq!(wire.len(), 8 + 65535 + 1);
    assert_eq!(&wire[..8], &[0x24, 0x58, 0x3e, 1, 0xff, 0xff, 0xff, 0xff]);
    assert_eq!(MspFrame::decode(&wire), Ok(frame));
}

#[test]
fn v2_without_flag_is_sent_with_flag_zero() {
    let message: MspMessage<MspIdent> = MspMessage {
        version: MspVersion::V2,
        direction: MspDirection::Request,
        flag: None,
        function: 100,
        payload: None,
    };
    let wire = message.encode();
    assert_eq!(wire, vec![0x24u8, 0x58, 0x3c, 0, 0x64, 0, 0, 0, 0x8f]);
    let back: MspMessage<MspIdent> = MspMessage::decode(&wire).expect("a message");
    assert_eq!(back.flag, Some(0));
    assert_eq!(back.function, 100);
    assert_eq!(back.payload, None);
}

#[test]
fn unknown_version_is_refused() {
    let result = MspFrame::decode(&[0x24, b'Q', b'<', 0, 0]);
    assert_eq!(result, Err(MspError::UnknownVersion));
    // `$` directly behind `$` is no version either.
    assert_eq!(MspFrame::decode(&[0x24, 0x24, 0x58]), Err(MspError::UnknownVersion));
}

#[test]
fn unknown_direction_is_refused() {
    let result = MspFrame::decode(&[0x24, b'X', b'?', 0, 0]);
    assert_eq!(result, Err(MspError::UnknownDirection));
    let result = MspFrame::decode(&[0x24, b'M', b'X', 0, 0]);
    assert_eq!(result, Err(MspError::UnknownDirection));
}

#[test]
fn truncated_input_is_unexpected_eof() {
    let wire = hello_bytes();
    for end in 0..wire.len() {
        assert_eq!(MspFrame::decode(&wire[..end]), Err(MspError::UnexpectedEof));
    }
    assert_eq!(MspFrame::decode(&[]), Err(MspError::UnexpectedEof));
    assert_eq!(MspFrame::decode(&[1, 2, 3]), Err(MspError::UnexpectedEof));
}

#[test]
fn payload_length_mismatch_is_refused() {
    // A frame under function id 100 with three payload bytes instead of seven.
    let frame = MspFrame {
        version: MspVersion::V2,
        direction: MspDirection::Response,
        flag: Some(0),
        function: 100,
        payload: vec![1, 2, 3],
    };
    let wire = frame.encode();
    let result: Result<MspMessage<MspIdent>, MspError> = MspMessage::decode(&wire);
    assert_eq!(result, Err(MspError::PayloadLengthMismatch));
    assert_eq!(
        MspMessage::<MspIdent>::from_frame(&frame),
        Err(MspError::PayloadLengthMismatch)
    );
}

#[test]
fn payload_of_another_function_is_refused() {
    let frame = MspFrame {
        version: MspVersion::V2,
        direction: MspDirection::Response,
        flag: Some(0),
        function: 101,
        payload: vec![1, 2, 3, 4, 5, 6, 7],
    };
    let wire = frame.encode();
    let result: Result<MspMessage<MspIdent>, MspError> = MspMessage::decode(&wire);
    assert_eq!(result, Err(MspError::UnknownFunction));
}

#[test]
fn frame_without_payload_is_a_message_without_payload() {
    let frame = MspFrame {
        version: MspVersion::V2,
        direction: MspDirection::Error,
        flag: Some(3),
        function: 555,
        payload: vec![],
    };
    let message = MspMessage::<MspIdent>::from_frame(&frame).expect("a message");
    assert_eq!(
        message,
        MspMessage {
            version: MspVersion::V2,
            direction: MspDirection::Error,
            flag: Some(3),
            function: 555,
            payload: None,
        }
    );
    assert_eq!(message.to_frame(), frame);
}

#[test]
fn query_asks_for_the_schema() {
    let query = MspMessage::<MspAttitude>::query();
    assert_eq!(
        query,
        MspMessage {
            version: MspVersion::V2,
            direction: MspDirection::Request,
            flag: None,
            function: 108,
            payload: None,
        }
    );
    let wire = query.encode();
    assert_eq!(&wire[..8], &[0x24, 0x58, 0x3c, 0, 108, 0, 0, 0]);
    assert_eq!(wire.len(), 9);
}

#[test]
fn fetch_reads_the_payload_of_the_reply() {
    let reply = MspMessage {
        version: MspVersion::V2,
        direction: MspDirection::Response,
        flag: Some(0),
        function: 108,
        payload: Some(MspAttitude { angx: -123, angy: 456, heading: 270 }),
    };
    let wire = reply.encode();
    assert_eq!(
        MspMessage::<MspAttitude>::fetch(&wire),
        Ok(MspAttitude { angx: -123, angy: 456, heading: 270 })
    );
    // noise in front of the reply is skipped
    let mut noisy = vec![0u8, 1, 2, 0x58];
    noisy.extend_from_slice(&wire);
    assert_eq!(
        MspMessage::<MspAttitude>::fetch(&noisy),
        Ok(MspAttitude { angx: -123, angy: 456, heading: 270 })
    );
}

#[test]
fn fetch_refuses_a_reply_without_payload() {
    let reply = MspMessage::<MspAttitude> {
        version: MspVersion::V2,
        direction: MspDirection::Error,
        flag: Some(0),
        function: 108,
        payload: None,
    };
    let wire = reply.encode();
    assert_eq!(
        MspMessage::<MspAttitude>::fetch(&wire),
        Err(MspError::PayloadLengthMismatch)
    );
    assert_eq!(
        MspMessage::<MspAttitude>::fetch(&wire[..5]),
        Err(MspError::UnexpectedEof)
    );
    let mut bad = wire.clone();
    let last = bad.len() - 1;
    bad[last] ^= 1;
    assert_eq!(MspMessage::<MspAttitude>::fetch(&bad), Err(MspError::CrcMismatch));
}

#[test]
fn frame_round_trip_over_versions_and_directions() {
    for version in [MspVersion::V1, MspVersion::V2] {
        for direction in [MspDirection::Request, MspDirection::Response, MspDirection::Error] {
            for len in [0usize, 1, 2, 17, 254] {
                let frame = MspFrame {
                    version,
                    direction,
                    flag: if version == MspVersion::V2 { Some(len as u8) } else { None },
                    function: if version == MspVersion::V2 { 0x1200 + len as u16 } else { len as u16 },
                    payload: (0..len).map(|i| (i * 31 + 24) as u8).collect(),
                };
                let wire = frame.encode();
                assert_eq!(MspFrame::decode(&wire), Ok(frame));
            }
        }
    }
}

#[test]
fn every_flipped_bit_under_the_checksum_is_detected() {
    let wire = hello_bytes();
    // flag, function, payload and the checksum byte itself
    let guarded = (3..6).chain(8..wire.len());
    for at in guarded {
        for bit in 0..8 {
            let mut bad = wire.clone();
            bad[at] ^= 1 << bit;
            let result: Result<MspMessage<Special>, MspError> = MspMessage::decode(&bad);
            assert_eq!(result, Err(MspError::CrcMismatch), "byte {} bit {}", at, bit);
        }
    }
}

#[test]
fn every_flipped_payload_bit_of_a_v1_frame_is_detected() {
    let frame = MspFrame {
        version: MspVersion::V1,
        direction: MspDirection::Response,
        flag: None,
        function: 108,
        payload: vec![0x10, 0x20, 0x30, 0x40, 0x50, 0x60],
    };
    let wire = frame.encode();
    for at in 5..wire.len() {
        for bit in 0..8 {
            let mut bad = wire.clone();
            bad[at] ^= 1 << bit;
            assert_eq!(MspFrame::decode(&bad), Err(MspError::CrcMismatch));
        }
    }
}

#[test]
fn a_flipped_direction_bit_is_not_under_the_checksum() {
    // `<` and `>` differ in one bit, and no checksum covers the direction.
    let mut wire = hello_bytes();
    wire[2] ^= 0x02;
    let message: MspMessage<Special> = MspMessage::decode(&wire).expect("a message");
    assert_eq!(message.direction, MspDirection::Request);
    assert_eq!(message.payload, Some(hello()));
}

#[test]
fn every_error_has_its_message() {
    assert_eq!(MspError::UnknownVersion.message(), "unknown msp version");
    assert_eq!(MspError::UnknownDirection.message(), "unknown Msp direction");
    assert_eq!(MspError::CrcMismatch.message(), "wrong Msp checksum");
    assert_eq!(
        MspError::PayloadLengthMismatch.message(),
        "MSP payload of unexpected length"
    );
    assert_eq!(MspError::UnknownFunction.message(), "unknown Msp function");
    assert_eq!(MspError::UnexpectedEof.message(), "input ended inside an MSP frame");
}
