use msp_bridge::msp::{MspDirection, MspError, MspMessage, MspPayload, MspVersion};
use msp_bridge::payload::{
    registered_size, MspAltitude, MspAnalog, MspAttitude, MspBytes, MspChannels, MspCompGps,
    MspIdent, MspMotor, MspMotorPins, MspRawGps, MspRawImu, MspRc, MspRcTuning, MspServo,
    MspSetHead, MspSetMotor, MspSetRawGps, MspSetRawRc, MspSetRcTuning, MspSetWp, MspStatus,
    MspValue, MspWp,
};
use rand::random;

/// Encodes, decodes and encodes again: value and bytes must come back.
fn payload_round_trip<P: MspPayload + PartialEq + std::fmt::Debug>(payload: P) {
    let buf = payload.encode();
    assert_eq!(buf.len(), P::SIZE);
    let new_payload = P::decode(&buf).expect("unable to decode");
    let new_buf = new_payload.encode();
    assert_eq!(payload, new_payload);
    assert_eq!(buf, new_buf);
    // one byte more or less is refused
    let mut longer = buf.clone();
    longer.push(0);
    assert_eq!(P::decode(&longer).err(), Some(MspError::PayloadLengthMismatch));
    assert_eq!(P::decode(&buf[1..]).err(), Some(MspError::PayloadLengthMismatch));
}

/// Decodes and encodes: the bytes must come back.
fn bytes_round_trip<P: MspPayload>(bytes: &[u8]) {
    assert_eq!(bytes.len(), P::SIZE);
    let payload = P::decode(bytes).expect("unable to decode");
    assert_eq!(payload.encode(), bytes.to_vec());
}

/// Sends the payload in an MSPv2 response and reads it back.
fn message_round_trip<P: MspPayload + Clone + PartialEq + std::fmt::Debug>(payload: P) {
    let message = MspMessage {
        version: MspVersion::V2,
        direction: MspDirection::Response,
        flag: Some(random()),
        function: P::ID,
        payload: Some(payload),
    };
    let buf = message.encode();
    assert_eq!(buf.len(), 8 + P::SIZE + 1);
    let new_message: MspMessage<P> = MspMessage::decode(&buf).expect("unable to decode");
    let new_buf = new_message.encode();
    assert_eq!(message, new_message);
    assert_eq!(buf, new_buf);
}

fn random_bytes(len: usize) -> Vec<u8> {
    (0..len).map(|_| random()).collect()
}

#[test]
fn msp_ident_encode_decode_test() {
    assert_eq!(MspIdent::ID, 100);
    assert_eq!(MspIdent::SIZE, 7);
    for _ in 0..32 {
        payload_round_trip(MspIdent {
            version: random(),
            multitype: random(),
            msp_version: random(),
            capability: random(),
        });
        bytes_round_trip::<MspIdent>(&random_bytes(7));
    }
}

#[test]
fn msp_ident_message_encode_decode_test() {
    message_round_trip(MspIdent {
        version: random(),
        multitype: random(),
        msp_version: random(),
        capability: random(),
    });
}

#[test]
fn msp_status_encode_decode_test() {
    assert_eq!(MspStatus::ID, 101);
    assert_eq!(MspStatus::SIZE, 11);
    for _ in 0..32 {
        payload_round_trip(MspStatus {
            cycle_time: random(),
            i2c_errors_count: random(),
            sensor: random(),
            flag: random(),
            global_conf_current_set: random(),
        });
        bytes_round_trip::<MspStatus>(&random_bytes(11));
    }
}

#[test]
fn msp_status_message_encode_decode_test() {
    message_round_trip(MspStatus {
        cycle_time: random(),
        i2c_errors_count: random(),
        sensor: random(),
        flag: random(),
        global_conf_current_set: random(),
    });
}

#[test]
fn msp_raw_imu_encode_decode_test() {
    assert_eq!(MspRawImu::ID, 102);
    assert_eq!(MspRawImu::SIZE, 18);
    for _ in 0..32 {
        payload_round_trip(MspRawImu {
            accx: random(),
            accy: random(),
            accz: random(),
            gyrx: random(),
            gyry: random(),
            gyrz: random(),
            magx: random(),
            magy: random(),
            magz: random(),
        });
        bytes_round_trip::<MspRawImu>(&random_bytes(18));
    }
}

#[test]
fn msp_raw_imu_message_encode_decode_test() {
    message_round_trip(MspRawImu {
        accx: random(),
        accy: random(),
        accz: random(),
        gyrx: random(),
        gyry: random(),
        gyrz: random(),
        magx: random(),
        magy: random(),
        magz: random(),
    });
}

#[test]
fn msp_raw_gps_encode_decode_test() {
    assert_eq!(MspRawGps::ID, 106);
    assert_eq!(MspRawGps::SIZE, 16);
    for _ in 0..32 {
        payload_round_trip(MspRawGps {
            fix: random(),
            num_sat: random(),
            coord_lat: random(),
            coord_lon: random(),
            altitude: random(),
            speed: random(),
            ground_course: random(),
        });
        bytes_round_trip::<MspRawGps>(&random_bytes(16));
    }
}

#[test]
fn msp_raw_gps_message_encode_decode_test() {
    message_round_trip(MspRawGps {
        fix: random(),
        num_sat: random(),
        coord_lat: random(),
        coord_lon: random(),
        altitude: random(),
        speed: random(),
        ground_course: random(),
    });
}

#[test]
fn msp_set_raw_gps_encode_decode_test() {
    assert_eq!(MspSetRawGps::ID, 201);
    assert_eq!(MspSetRawGps::SIZE, 14);
    for _ in 0..32 {
        payload_round_trip(MspSetRawGps {
            fix: random(),
            num_sat: random(),
            coord_lat: random(),
            coord_lon: random(),
            altitude: random(),
            speed: random(),
        });
        bytes_round_trip::<MspSetRawGps>(&random_bytes(14));
    }
}

#[test]
fn msp_set_raw_gps_message_encode_decode_test() {
    message_round_trip(MspSetRawGps {
        fix: random(),
        num_sat: random(),
        coord_lat: random(),
        coord_lon: random(),
        altitude: random(),
        speed: random(),
    });
}

#[test]
fn msp_comp_gps_encode_decode_test() {
    assert_eq!(MspCompGps::ID, 107);
    assert_eq!(MspCompGps::SIZE, 5);
    for _ in 0..32 {
        payload_round_trip(MspCompGps {
            distance_to_home: random(),
            direction_to_home: random(),
            update: random(),
        });
        bytes_round_trip::<MspCompGps>(&random_bytes(5));
    }
}

#[test]
fn msp_comp_gps_message_encode_decode_test() {
    message_round_trip(MspCompGps {
        distance_to_home: random(),
        direction_to_home: random(),
        update: random(),
    });
}

#[test]
fn msp_attitude_encode_decode_test() {
    assert_eq!(MspAttitude::ID, 108);
    assert_eq!(MspAttitude::SIZE, 6);
    for _ in 0..32 {
        payload_round_trip(MspAttitude {
            angx: random(),
            angy: random(),
            heading: random(),
        });
        bytes_round_trip::<MspAttitude>(&random_bytes(6));
    }
}

#[test]
fn msp_attitude_message_encode_decode_test() {
    message_round_trip(MspAttitude {
        angx: random(),
        angy: random(),
        heading: random(),
    });
}

#[test]
fn msp_altitude_encode_decode_test() {
    assert_eq!(MspAltitude::ID, 109);
    assert_eq!(MspAltitude::SIZE, 6);
    for _ in 0..32 {
        payload_round_trip(MspAltitude {
            estimated_alt: random(),
            vario: random(),
        });
        bytes_round_trip::<MspAltitude>(&random_bytes(6));
    }
}

#[test]
fn msp_altitude_message_encode_decode_test() {
    message_round_trip(MspAltitude {
        estimated_alt: random(),
        vario: random(),
    });
}

#[test]
fn msp_analog_encode_decode_test() {
    assert_eq!(MspAnalog::ID, 110);
    assert_eq!(MspAnalog::SIZE, 7);
    for _ in 0..32 {
        payload_round_trip(MspAnalog {
            vbat: random(),
            int_power_meter_sum: random(),
            rssi: random(),
            amperage: random(),
        });
        bytes_round_trip::<MspAnalog>(&random_bytes(7));
    }
}

#[test]
fn msp_analog_message_encode_decode_test() {
    message_round_trip(MspAnalog {
        vbat: random(),
        int_power_meter_sum: random(),
        rssi: random(),
        amperage: random(),
    });
}

#[test]
fn msp_rc_tuning_encode_decode_test() {
    assert_eq!(MspRcTuning::ID, 111);
    assert_eq!(MspRcTuning::SIZE, 7);
    for _ in 0..32 {
        payload_round_trip(MspRcTuning {
            rc_rate: random(),
            rc_expo: random(),
            roll_pitch_rate: random(),
            yaw_rate: random(),
            dyn_thr_pid: random(),
            throttle_mid: random(),
            throttle_expo: random(),
        });
        bytes_round_trip::<MspRcTuning>(&random_bytes(7));
    }
}

#[test]
fn msp_rc_tuning_message_encode_decode_test() {
    message_round_trip(MspRcTuning {
        rc_rate: random(),
        rc_expo: random(),
        roll_pitch_rate: random(),
        yaw_rate: random(),
        dyn_thr_pid: random(),
        throttle_mid: random(),
        throttle_expo: random(),
    });
}

#[test]
fn msp_set_rc_tuning_encode_decode_test() {
    assert_eq!(MspSetRcTuning::ID, 204);
    assert_eq!(MspSetRcTuning::SIZE, 7);
    for _ in 0..32 {
        payload_round_trip(MspSetRcTuning {
            rc_rate: random(),
            rc_expo: random(),
            roll_pitch_rate: random(),
            yaw_rate: random(),
            dyn_thr_pid: random(),
            throttle_mid: random(),
            throttle_expo: random(),
        });
        bytes_round_trip::<MspSetRcTuning>(&random_bytes(7));
    }
}

#[test]
fn msp_set_rc_tuning_message_encode_decode_test() {
    message_round_trip(MspSetRcTuning {
        rc_rate: random(),
        rc_expo: random(),
        roll_pitch_rate: random(),
        yaw_rate: random(),
        dyn_thr_pid: random(),
        throttle_mid: random(),
        throttle_expo: random(),
    });
}

#[test]
fn msp_wp_encode_decode_test() {
    assert_eq!(MspWp::ID, 118);
    assert_eq!(MspWp::SIZE, 18);
    for _ in 0..32 {
        payload_round_trip(MspWp {
            wp_no: random(),
            lat: random(),
            lon: random(),
            alt_hold: random(),
            heading: random(),
            time_to_stay: random(),
            nav_flag: random(),
        });
        bytes_round_trip::<MspWp>(&random_bytes(18));
    }
}

#[test]
fn msp_wp_message_encode_decode_test() {
    message_round_trip(MspWp {
        wp_no: random(),
        lat: random(),
        lon: random(),
        alt_hold: random(),
        heading: random(),
        time_to_stay: random(),
        nav_flag: random(),
    });
}

#[test]
fn msp_set_wp_encode_decode_test() {
    assert_eq!(MspSetWp::ID, 209);
    assert_eq!(MspSetWp::SIZE, 18);
    for _ in 0..32 {
        payload_round_trip(MspSetWp {
            wp_no: random(),
            lat: random(),
            lon: random(),
            alt_hold: random(),
            heading: random(),
            time_to_stay: random(),
            nav_flag: random(),
        });
        bytes_round_trip::<MspSetWp>(&random_bytes(18));
    }
}

#[test]
fn msp_set_wp_message_encode_decode_test() {
    message_round_trip(MspSetWp {
        wp_no: random(),
        lat: random(),
        lon: random(),
        alt_hold: random(),
        heading: random(),
        time_to_stay: random(),
        nav_flag: random(),
    });
}

#[test]
fn msp_set_head_encode_decode_test() {
    assert_eq!(MspSetHead::ID, 211);
    assert_eq!(MspSetHead::SIZE, 2);
    for _ in 0..32 {
        payload_round_trip(MspSetHead {
            mag_hold: random(),
        });
        bytes_round_trip::<MspSetHead>(&random_bytes(2));
    }
}

#[test]
fn msp_set_head_message_encode_decode_test() {
    message_round_trip(MspSetHead {
        mag_hold: random(),
    });
}

#[test]
fn msp_servo_encode_decode_test() {
    assert_eq!(MspServo::ID, 103);
    assert_eq!(MspServo::SIZE, 32);
    for _ in 0..32 {
        let payload: MspServo = MspChannels::<103>(random());
        payload_round_trip(payload);
        bytes_round_trip::<MspServo>(&random_bytes(32));
    }
}

#[test]
fn msp_servo_message_encode_decode_test() {
    let payload: MspServo = MspChannels::<103>(random());
    message_round_trip(payload);
}

#[test]
fn msp_motor_encode_decode_test() {
    assert_eq!(MspMotor::ID, 104);
    assert_eq!(MspMotor::SIZE, 32);
    for _ in 0..32 {
        let payload: MspMotor = MspChannels::<104>(random());
        payload_round_trip(payload);
        bytes_round_trip::<MspMotor>(&random_bytes(32));
    }
}

#[test]
fn msp_motor_message_encode_decode_test() {
    let payload: MspMotor = MspChannels::<104>(random());
    message_round_trip(payload);
}

#[test]
fn msp_set_motor_encode_decode_test() {
    assert_eq!(MspSetMotor::ID, 214);
    assert_eq!(MspSetMotor::SIZE, 32);
    for _ in 0..32 {
        let payload: MspSetMotor = MspChannels::<214>(random());
        payload_round_trip(payload);
        bytes_round_trip::<MspSetMotor>(&random_bytes(32));
    }
}

#[test]
fn msp_set_motor_message_encode_decode_test() {
    let payload: MspSetMotor = MspChannels::<214>(random());
    message_round_trip(payload);
}

#[test]
fn msp_rc_encode_decode_test() {
    assert_eq!(MspRc::ID, 105);
    assert_eq!(MspRc::SIZE, 32);
    for _ in 0..32 {
        let payload: MspRc = MspChannels::<105>(random());
        payload_round_trip(payload);
        bytes_round_trip::<MspRc>(&random_bytes(32));
    }
}

#[test]
fn msp_rc_message_encode_decode_test() {
    let payload: MspRc = MspChannels::<105>(random());
    message_round_trip(payload);
}

#[test]
fn msp_set_raw_rc_encode_decode_test() {
    assert_eq!(MspSetRawRc::ID, 200);
    assert_eq!(MspSetRawRc::SIZE, 32);
    for _ in 0..32 {
        let payload: MspSetRawRc = MspChannels::<200>(random());
        payload_round_trip(payload);
        bytes_round_trip::<MspSetRawRc>(&random_bytes(32));
    }
}

#[test]
fn msp_set_raw_rc_message_encode_decode_test() {
    let payload: MspSetRawRc = MspChannels::<200>(random());
    message_round_trip(payload);
}

#[test]
fn msp_motor_pins_encode_decode_test() {
    assert_eq!(MspMotorPins::ID, 115);
    assert_eq!(MspMotorPins::SIZE, 8);
    for _ in 0..32 {
        let payload: MspMotorPins = MspBytes::<115, 8>(random());
        payload_round_trip(payload);
        bytes_round_trip::<MspMotorPins>(&random_bytes(8));
    }
}

#[test]
fn msp_motor_pins_message_encode_decode_test() {
    let payload: MspMotorPins = MspBytes::<115, 8>(random());
    message_round_trip(payload);
}

#[test]
fn fields_are_packed_little_endian_in_declaration_order() {
    let ident = MspIdent { version: 0x01, multitype: 0x02, msp_version: 0x03, capability: 0x0706_0504 };
    assert_eq!(ident.encode(), vec![1, 2, 3, 4, 5, 6, 7]);
    let status = MspStatus {
        cycle_time: 0x0201,
        i2c_errors_count: 0x0403,
        sensor: 0x0605,
        flag: 0x0a09_0807,
        global_conf_current_set: 0x0b,
    };
    assert_eq!(status.encode(), vec![1, 2, 3, 4, 5, 6, 7, 8, 9, 10, 11]);
    let wp = MspWp {
        wp_no: 0xff,
        lat: 0x0403_0201,
        lon: 0x0807_0605,
        alt_hold: 0x0c0b_0a09,
        heading: 0x0e0d,
        time_to_stay: 0x100f,
        nav_flag: 0x11,
    };
    assert_eq!(
        wp.encode(),
        vec![0xff, 1, 2, 3, 4, 5, 6, 7, 8, 9, 10, 11, 12, 13, 14, 15, 16, 17]
    );
}

#[test]
fn signed_fields_travel_as_twos_complement() {
    let attitude = MspAttitude { angx: -1, angy: i16::MIN, heading: i16::MAX };
    assert_eq!(attitude.encode(), vec![0xff, 0xff, 0x00, 0x80, 0xff, 0x7f]);
    assert_eq!(
        MspAttitude::decode(&[0xfe, 0xff, 0x01, 0x80, 0x00, 0x00]),
        Ok(MspAttitude { angx: -2, angy: -32767, heading: 0 })
    );
    let altitude = MspAltitude { estimated_alt: -2, vario: -3 };
    assert_eq!(altitude.encode(), vec![0xfe, 0xff, 0xff, 0xff, 0xfd, 0xff]);
    let altitude = MspAltitude { estimated_alt: i32::MIN, vario: 0 };
    assert_eq!(altitude.encode(), vec![0, 0, 0, 0x80, 0, 0]);
    assert_eq!(
        MspAltitude::decode(&[0xff, 0xff, 0xff, 0x7f, 0x00, 0x80]),
        Ok(MspAltitude { estimated_alt: i32::MAX, vario: i16::MIN })
    );
    let comp = MspCompGps { distance_to_home: 0xfffe, direction_to_home: -180, update: 1 };
    assert_eq!(comp.encode(), vec![0xfe, 0xff, 0x4c, 0xff, 1]);
}

#[test]
fn channels_are_sixteen_words() {
    let mut values = [0u16; 16];
    for (i, value) in values.iter_mut().enumerate() {
        *value = 1000 + i as u16 * 0x101;
    }
    let rc: MspRc = MspChannels(values);
    let bytes = rc.encode();
    assert_eq!(bytes.len(), 32);
    for i in 0..16 {
        assert_eq!(bytes[2 * i], (values[i] % 256) as u8);
        assert_eq!(bytes[2 * i + 1], (values[i] / 256) as u8);
    }
    assert_eq!(MspRc::decode(&bytes), Ok(rc));
    assert_eq!(MspRc::decode(&bytes[..31]), Err(MspError::PayloadLengthMismatch));
}

#[test]
fn motor_pins_are_eight_bytes() {
    let pins: MspMotorPins = MspBytes([9, 10, 5, 6, 11, 3, 2, 1]);
    assert_eq!(pins.encode(), vec![9, 10, 5, 6, 11, 3, 2, 1]);
    assert_eq!(MspMotorPins::decode(&[9, 10, 5, 6, 11, 3, 2, 1]), Ok(pins));
    assert_eq!(MspMotorPins::decode(&[]), Err(MspError::PayloadLengthMismatch));
}

#[test]
fn registry_knows_every_schema() {
    let sizes = [
        (100u16, 7usize), (101, 11), (102, 18), (103, 32), (104, 32), (105, 32), (106, 16),
        (107, 5), (108, 6), (109, 6), (110, 7), (111, 7), (115, 8), (118, 18), (200, 32),
        (201, 14), (204, 7), (209, 18), (211, 2), (214, 32),
    ];
    for function in 0..=u16::MAX {
        let expected = sizes.iter().find(|(id, _)| *id == function).map(|(_, size)| *size);
        assert_eq!(registered_size(function), expected);
        match expected {
            Some(size) => {
                let bytes = random_bytes(size);
                let value = MspValue::decode(function, &bytes).expect("a payload");
                assert_eq!(value.id(), function);
                assert_eq!(value.encode(), bytes);
                assert_eq!(
                    MspValue::decode(function, &bytes[1..]),
                    Err(MspError::PayloadLengthMismatch)
                );
            }
            None => {
                assert_eq!(MspValue::decode(function, &[]), Err(MspError::UnknownFunction));
                assert_eq!(MspValue::decode(function, &[0; 7]), Err(MspError::UnknownFunction));
            }
        }
    }
}

#[test]
fn registry_reads_the_schema_of_the_function() {
    assert_eq!(
        MspValue::decode(108, &[0x69, 0x00, 0x06, 0xff, 0x0e, 0x01]),
        Ok(MspValue::Attitude(MspAttitude { angx: 105, angy: -250, heading: 270 }))
    );
    assert_eq!(
        MspValue::decode(211, &[0x5a, 0x00]),
        Ok(MspValue::SetHead(MspSetHead { mag_hold: 90 }))
    );
    assert_eq!(
        MspValue::decode(100, &[1, 2, 3, 4, 5, 6, 7]),
        Ok(MspValue::Ident(MspIdent {
            version: 1,
            multitype: 2,
            msp_version: 3,
            capability: 0x0706_0504,
        }))
    );
    let value = MspValue::SetHead(MspSetHead { mag_hold: -1 });
    assert_eq!(value.id(), 211);
    assert_eq!(value.encode(), vec![0xff, 0xff]);
}
