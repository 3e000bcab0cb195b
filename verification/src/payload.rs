//! The payload schemas that are compiled in.
//!
//! Every schema is a packed little-endian layout of scalar fields, or a
//! fixed-size array, under one function id. The schemas prove that reading
//! and writing are inverse to each other.

use crate::msp::MspError;
use crate::msp::MspPayload;
use crate::wire::get_i16;
use crate::wire::get_i32;
use crate::wire::get_u16;
use crate::wire::get_u32;
use crate::wire::put_i16;
use crate::wire::put_i32;
use crate::wire::put_u16;
use crate::wire::put_u32;
use vstd::prelude::*;

verus! {

/// `MSP_IDENT` (100): firmware version, vehicle type, protocol version and
/// capability bits.
#[derive(Clone, Copy, Debug, PartialEq, Eq)]
pub struct MspIdent {
    pub version: u8,
    pub multitype: u8,
    pub msp_version: u8,
    pub capability: u32,
}

impl MspPayload for MspIdent {
    const ID: u16 = 100;

    const SIZE: usize = 7;

    open spec fn function() -> u16 {
        100
    }

    open spec fn size() -> nat {
        7
    }

    proof fn lemma_constants() {
    }

    open spec fn wire(&self) -> Seq<u8> {
        seq![self.version] + seq![self.multitype] + seq![self.msp_version]
            + crate::wire::u32_le(self.capability)
    }

    open spec fn parse(bytes: Seq<u8>) -> MspIdent {
        MspIdent {
            version: bytes[0],
            multitype: bytes[1],
            msp_version: bytes[2],
            capability: crate::wire::u32_at(bytes, 3),
        }
    }

    proof fn lemma_wire_len(&self) {
    }

    proof fn lemma_parse_wire(&self) {
        let image = self.wire();
        assert(image.subrange(3, 7) =~= crate::wire::u32_le(self.capability));
        crate::wire::lemma_u32_round_trip(self.capability, image, 3);
    }

    proof fn lemma_wire_parse(bytes: Seq<u8>) {
        assert(seq![bytes[0]] =~= bytes.subrange(0, 1));
        assert(seq![bytes[1]] =~= bytes.subrange(1, 2));
        assert(seq![bytes[2]] =~= bytes.subrange(2, 3));
        crate::wire::lemma_u32_image(bytes, 3);
        assert(bytes =~= bytes.subrange(0, 1) + bytes.subrange(1, 2) + bytes.subrange(2, 3)
            + bytes.subrange(3, 7));
    }

    fn decode(bytes: &[u8]) -> (decoded: Result<MspIdent, MspError>) {
        if bytes.len() != 7 {
            return Err(MspError::PayloadLengthMismatch);
        }
        Ok(
            MspIdent {
                version: bytes[0],
                multitype: bytes[1],
                msp_version: bytes[2],
                capability: get_u32(bytes, 3),
            },
        )
    }

    fn encode(&self) -> (bytes: Vec<u8>) {
        let mut out: Vec<u8> = Vec::new();
        out.push(self.version);
        out.push(self.multitype);
        out.push(self.msp_version);
        put_u32(&mut out, self.capability);
        assert(out@ =~= self.wire());
        out
    }
}

/// `MSP_STATUS` (101): cycle time, bus errors, sensors present, mode flags
/// and the configuration set in use.
#[derive(Clone, Copy, Debug, PartialEq, Eq)]
pub struct MspStatus {
    pub cycle_time: u16,
    pub i2c_errors_count: u16,
    pub sensor: u16,
    pub flag: u32,
    pub global_conf_current_set: u8,
}

impl MspPayload for MspStatus {
    const ID: u16 = 101;

    const SIZE: usize = 11;

    open spec fn function() -> u16 {
        101
    }

    open spec fn size() -> nat {
        11
    }

    proof fn lemma_constants() {
    }

    open spec fn wire(&self) -> Seq<u8> {
        crate::wire::u16_le(self.cycle_time) + crate::wire::u16_le(self.i2c_errors_count)
            + crate::wire::u16_le(self.sensor) + crate::wire::u32_le(self.flag)
            + seq![self.global_conf_current_set]
    }

    open spec fn parse(bytes: Seq<u8>) -> MspStatus {
        MspStatus {
            cycle_time: crate::wire::u16_at(bytes, 0),
            i2c_errors_count: crate::wire::u16_at(bytes, 2),
            sensor: crate::wire::u16_at(bytes, 4),
            flag: crate::wire::u32_at(bytes, 6),
            global_conf_current_set: bytes[10],
        }
    }

    proof fn lemma_wire_len(&self) {
    }

    proof fn lemma_parse_wire(&self) {
        let image = self.wire();
        assert(image.subrange(0, 2) =~= crate::wire::u16_le(self.cycle_time));
        crate::wire::lemma_u16_round_trip(self.cycle_time, image, 0);
        assert(image.subrange(2, 4) =~= crate::wire::u16_le(self.i2c_errors_count));
        crate::wire::lemma_u16_round_trip(self.i2c_errors_count, image, 2);
        assert(image.subrange(4, 6) =~= crate::wire::u16_le(self.sensor));
        crate::wire::lemma_u16_round_trip(self.sensor, image, 4);
        assert(image.subrange(6, 10) =~= crate::wire::u32_le(self.flag));
        crate::wire::lemma_u32_round_trip(self.flag, image, 6);
    }

    proof fn lemma_wire_parse(bytes: Seq<u8>) {
        crate::wire::lemma_u16_image(bytes, 0);
        crate::wire::lemma_u16_image(bytes, 2);
        crate::wire::lemma_u16_image(bytes, 4);
        crate::wire::lemma_u32_image(bytes, 6);
        assert(seq![bytes[10]] =~= bytes.subrange(10, 11));
        assert(bytes =~= bytes.subrange(0, 2) + bytes.subrange(2, 4) + bytes.subrange(4, 6)
            + bytes.subrange(6, 10) + bytes.subrange(10, 11));
    }

    fn decode(bytes: &[u8]) -> (decoded: Result<MspStatus, MspError>) {
        if bytes.len() != 11 {
            return Err(MspError::PayloadLengthMismatch);
        }
        Ok(
            MspStatus {
                cycle_time: get_u16(bytes, 0),
                i2c_errors_count: get_u16(bytes, 2),
                sensor: get_u16(bytes, 4),
                flag: get_u32(bytes, 6),
                global_conf_current_set: bytes[10],
            },
        )
    }

    fn encode(&self) -> (bytes: Vec<u8>) {
        let mut out: Vec<u8> = Vec::new();
        put_u16(&mut out, self.cycle_time);
        put_u16(&mut out, self.i2c_errors_count);
        put_u16(&mut out, self.sensor);
        put_u32(&mut out, self.flag);
        out.push(self.global_conf_current_set);
        assert(out@ =~= self.wire());
        out
    }
}

/// `MSP_RAW_IMU` (102): raw accelerometer, gyroscope and magnetometer
/// readings.
#[derive(Clone, Copy, Debug, PartialEq, Eq)]
pub struct MspRawImu {
    pub accx: i16,
    pub accy: i16,
    pub accz: i16,
    pub gyrx: i16,
    pub gyry: i16,
    pub gyrz: i16,
    pub magx: i16,
    pub magy: i16,
    pub magz: i16,
}

impl MspPayload for MspRawImu {
    const ID: u16 = 102;

    const SIZE: usize = 18;

    open spec fn function() -> u16 {
        102
    }

    open spec fn size() -> nat {
        18
    }

    proof fn lemma_constants() {
    }

    open spec fn wire(&self) -> Seq<u8> {
        crate::wire::i16_le(self.accx) + crate::wire::i16_le(self.accy)
            + crate::wire::i16_le(self.accz) + crate::wire::i16_le(self.gyrx)
            + crate::wire::i16_le(self.gyry) + crate::wire::i16_le(self.gyrz)
            + crate::wire::i16_le(self.magx) + crate::wire::i16_le(self.magy)
            + crate::wire::i16_le(self.magz)
    }

    open spec fn parse(bytes: Seq<u8>) -> MspRawImu {
        MspRawImu {
            accx: crate::wire::i16_at(bytes, 0),
            accy: crate::wire::i16_at(bytes, 2),
            accz: crate::wire::i16_at(bytes, 4),
            gyrx: crate::wire::i16_at(bytes, 6),
            gyry: crate::wire::i16_at(bytes, 8),
            gyrz: crate::wire::i16_at(bytes, 10),
            magx: crate::wire::i16_at(bytes, 12),
            magy: crate::wire::i16_at(bytes, 14),
            magz: crate::wire::i16_at(bytes, 16),
        }
    }

    proof fn lemma_wire_len(&self) {
    }

    proof fn lemma_parse_wire(&self) {
        let image = self.wire();
        assert(image.subrange(0, 2) =~= crate::wire::i16_le(self.accx));
        crate::wire::lemma_i16_round_trip(self.accx, image, 0);
        assert(image.subrange(2, 4) =~= crate::wire::i16_le(self.accy));
        crate::wire::lemma_i16_round_trip(self.accy, image, 2);
        assert(image.subrange(4, 6) =~= crate::wire::i16_le(self.accz));
        crate::wire::lemma_i16_round_trip(self.accz, image, 4);
        assert(image.subrange(6, 8) =~= crate::wire::i16_le(self.gyrx));
        crate::wire::lemma_i16_round_trip(self.gyrx, image, 6);
        assert(image.subrange(8, 10) =~= crate::wire::i16_le(self.gyry));
        crate::wire::lemma_i16_round_trip(self.gyry, image, 8);
        assert(image.subrange(10, 12) =~= crate::wire::i16_le(self.gyrz));
        crate::wire::lemma_i16_round_trip(self.gyrz, image, 10);
        assert(image.subrange(12, 14) =~= crate::wire::i16_le(self.magx));
        crate::wire::lemma_i16_round_trip(self.magx, image, 12);
        assert(image.subrange(14, 16) =~= crate::wire::i16_le(self.magy));
        crate::wire::lemma_i16_round_trip(self.magy, image, 14);
        assert(image.subrange(16, 18) =~= crate::wire::i16_le(self.magz));
        crate::wire::lemma_i16_round_trip(self.magz, image, 16);
    }

    proof fn lemma_wire_parse(bytes: Seq<u8>) {
        crate::wire::lemma_i16_image(bytes, 0);
        crate::wire::lemma_i16_image(bytes, 2);
        crate::wire::lemma_i16_image(bytes, 4);
        crate::wire::lemma_i16_image(bytes, 6);
        crate::wire::lemma_i16_image(bytes, 8);
        crate::wire::lemma_i16_image(bytes, 10);
        crate::wire::lemma_i16_image(bytes, 12);
        crate::wire::lemma_i16_image(bytes, 14);
        crate::wire::lemma_i16_image(bytes, 16);
        assert(bytes =~= bytes.subrange(0, 2) + bytes.subrange(2, 4) + bytes.subrange(4, 6)
            + bytes.subrange(6, 8) + bytes.subrange(8, 10) + bytes.subrange(10, 12)
            + bytes.subrange(12, 14) + bytes.subrange(14, 16) + bytes.subrange(16, 18));
    }

    fn decode(bytes: &[u8]) -> (decoded: Result<MspRawImu, MspError>) {
        if bytes.len() != 18 {
            return Err(MspError::PayloadLengthMismatch);
        }
        Ok(
            MspRawImu {
                accx: get_i16(bytes, 0),
                accy: get_i16(bytes, 2),
                accz: get_i16(bytes, 4),
                gyrx: get_i16(bytes, 6),
                gyry: get_i16(bytes, 8),
                gyrz: get_i16(bytes, 10),
                magx: get_i16(bytes, 12),
                magy: get_i16(bytes, 14),
                magz: get_i16(bytes, 16),
            },
        )
    }

    fn encode(&self) -> (bytes: Vec<u8>) {
        let mut out: Vec<u8> = Vec::new();
        put_i16(&mut out, self.accx);
        put_i16(&mut out, self.accy);
        put_i16(&mut out, self.accz);
        put_i16(&mut out, self.gyrx);
        put_i16(&mut out, self.gyry);
        put_i16(&mut out, self.gyrz);
        put_i16(&mut out, self.magx);
        put_i16(&mut out, self.magy);
        put_i16(&mut out, self.magz);
        assert(out@ =~= self.wire());
        out
    }
}

/// `MSP_RAW_GPS` (106): fix, satellites, position, altitude, speed and
/// course over ground.
#[derive(Clone, Copy, Debug, PartialEq, Eq)]
pub struct MspRawGps {
    pub fix: u8,
    pub num_sat: u8,
    pub coord_lat: i32,
    pub coord_lon: i32,
    pub altitude: u16,
    pub speed: u16,
    pub ground_course: u16,
}

impl MspPayload for MspRawGps {
    const ID: u16 = 106;

    const SIZE: usize = 16;

    open spec fn function() -> u16 {
        106
    }

    open spec fn size() -> nat {
        16
    }

    proof fn lemma_constants() {
    }

    open spec fn wire(&self) -> Seq<u8> {
        seq![self.fix] + seq![self.num_sat] + crate::wire::i32_le(self.coord_lat)
            + crate::wire::i32_le(self.coord_lon) + crate::wire::u16_le(self.altitude)
            + crate::wire::u16_le(self.speed) + crate::wire::u16_le(self.ground_course)
    }

    open spec fn parse(bytes: Seq<u8>) -> MspRawGps {
        MspRawGps {
            fix: bytes[0],
            num_sat: bytes[1],
            coord_lat: crate::wire::i32_at(bytes, 2),
            coord_lon: crate::wire::i32_at(bytes, 6),
            altitude: crate::wire::u16_at(bytes, 10),
            speed: crate::wire::u16_at(bytes, 12),
            ground_course: crate::wire::u16_at(bytes, 14),
        }
    }

    proof fn lemma_wire_len(&self) {
    }

    proof fn lemma_parse_wire(&self) {
        let image = self.wire();
        assert(image.subrange(2, 6) =~= crate::wire::i32_le(self.coord_lat));
        crate::wire::lemma_i32_round_trip(self.coord_lat, image, 2);
        assert(image.subrange(6, 10) =~= crate::wire::i32_le(self.coord_lon));
        crate::wire::lemma_i32_round_trip(self.coord_lon, image, 6);
        assert(image.subrange(10, 12) =~= crate::wire::u16_le(self.altitude));
        crate::wire::lemma_u16_round_trip(self.altitude, image, 10);
        assert(image.subrange(12, 14) =~= crate::wire::u16_le(self.speed));
        crate::wire::lemma_u16_round_trip(self.speed, image, 12);
        assert(image.subrange(14, 16) =~= crate::wire::u16_le(self.ground_course));
        crate::wire::lemma_u16_round_trip(self.ground_course, image, 14);
    }

    proof fn lemma_wire_parse(bytes: Seq<u8>) {
        assert(seq![bytes[0]] =~= bytes.subrange(0, 1));
        assert(seq![bytes[1]] =~= bytes.subrange(1, 2));
        crate::wire::lemma_i32_image(bytes, 2);
        crate::wire::lemma_i32_image(bytes, 6);
        crate::wire::lemma_u16_image(bytes, 10);
        crate::wire::lemma_u16_image(bytes, 12);
        crate::wire::lemma_u16_image(bytes, 14);
        assert(bytes =~= bytes.subrange(0, 1) + bytes.subrange(1, 2) + bytes.subrange(2, 6)
            + bytes.subrange(6, 10) + bytes.subrange(10, 12) + bytes.subrange(12, 14)
            + bytes.subrange(14, 16));
    }

    fn decode(bytes: &[u8]) -> (decoded: Result<MspRawGps, MspError>) {
        if bytes.len() != 16 {
            return Err(MspError::PayloadLengthMismatch);
        }
        Ok(
            MspRawGps {
                fix: bytes[0],
                num_sat: bytes[1],
                coord_lat: get_i32(bytes, 2),
                coord_lon: get_i32(bytes, 6),
                altitude: get_u16(bytes, 10),
                speed: get_u16(bytes, 12),
                ground_course: get_u16(bytes, 14),
            },
        )
    }

    fn encode(&self) -> (bytes: Vec<u8>) {
        let mut out: Vec<u8> = Vec::new();
        out.push(self.fix);
        out.push(self.num_sat);
        put_i32(&mut out, self.coord_lat);
        put_i32(&mut out, self.coord_lon);
        put_u16(&mut out, self.altitude);
        put_u16(&mut out, self.speed);
        put_u16(&mut out, self.ground_course);
        assert(out@ =~= self.wire());
        out
    }
}

/// `MSP_SET_RAW_GPS` (201): fix, satellites, position, altitude and speed
/// to inject.
#[derive(Clone, Copy, Debug, PartialEq, Eq)]
pub struct MspSetRawGps {
    pub fix: u8,
    pub num_sat: u8,
    pub coord_lat: i32,
    pub coord_lon: i32,
    pub altitude: u16,
    pub speed: u16,
}

impl MspPayload for MspSetRawGps {
    const ID: u16 = 201;

    const SIZE: usize = 14;

    open spec fn function() -> u16 {
        201
    }

    open spec fn size() -> nat {
        14
    }

    proof fn lemma_constants() {
    }

    open spec fn wire(&self) -> Seq<u8> {
        seq![self.fix] + seq![self.num_sat] + crate::wire::i32_le(self.coord_lat)
            + crate::wire::i32_le(self.coord_lon) + crate::wire::u16_le(self.altitude)
            + crate::wire::u16_le(self.speed)
    }

    open spec fn parse(bytes: Seq<u8>) -> MspSetRawGps {
        MspSetRawGps {
            fix: bytes[0],
            num_sat: bytes[1],
            coord_lat: crate::wire::i32_at(bytes, 2),
            coord_lon: crate::wire::i32_at(bytes, 6),
            altitude: crate::wire::u16_at(bytes, 10),
            speed: crate::wire::u16_at(bytes, 12),
        }
    }

    proof fn lemma_wire_len(&self) {
    }

    proof fn lemma_parse_wire(&self) {
        let image = self.wire();
        assert(image.subrange(2, 6) =~= crate::wire::i32_le(self.coord_lat));
        crate::wire::lemma_i32_round_trip(self.coord_lat, image, 2);
        assert(image.subrange(6, 10) =~= crate::wire::i32_le(self.coord_lon));
        crate::wire::lemma_i32_round_trip(self.coord_lon, image, 6);
        assert(image.subrange(10, 12) =~= crate::wire::u16_le(self.altitude));
        crate::wire::lemma_u16_round_trip(self.altitude, image, 10);
        assert(image.subrange(12, 14) =~= crate::wire::u16_le(self.speed));
        crate::wire::lemma_u16_round_trip(self.speed, image, 12);
    }

    proof fn lemma_wire_parse(bytes: Seq<u8>) {
        assert(seq![bytes[0]] =~= bytes.subrange(0, 1));
        assert(seq![bytes[1]] =~= bytes.subrange(1, 2));
        crate::wire::lemma_i32_image(bytes, 2);
        crate::wire::lemma_i32_image(bytes, 6);
        crate::wire::lemma_u16_image(bytes, 10);
        crate::wire::lemma_u16_image(bytes, 12);
        assert(bytes =~= bytes.subrange(0, 1) + bytes.subrange(1, 2) + bytes.subrange(2, 6)
            + bytes.subrange(6, 10) + bytes.subrange(10, 12) + bytes.subrange(12, 14));
    }

    fn decode(bytes: &[u8]) -> (decoded: Result<MspSetRawGps, MspError>) {
        if bytes.len() != 14 {
            return Err(MspError::PayloadLengthMismatch);
        }
        Ok(
            MspSetRawGps {
                fix: bytes[0],
                num_sat: bytes[1],
                coord_lat: get_i32(bytes, 2),
                coord_lon: get_i32(bytes, 6),
                altitude: get_u16(bytes, 10),
                speed: get_u16(bytes, 12),
            },
        )
    }

    fn encode(&self) -> (bytes: Vec<u8>) {
        let mut out: Vec<u8> = Vec::new();
        out.push(self.fix);
        out.push(self.num_sat);
        put_i32(&mut out, self.coord_lat);
        put_i32(&mut out, self.coord_lon);
        put_u16(&mut out, self.altitude);
        put_u16(&mut out, self.speed);
        assert(out@ =~= self.wire());
        out
    }
}

/// `MSP_COMP_GPS` (107): distance and direction to home.
#[derive(Clone, Copy, Debug, PartialEq, Eq)]
pub struct MspCompGps {
    pub distance_to_home: u16,
    pub direction_to_home: i16,
    pub update: u8,
}

impl MspPayload for MspCompGps {
    const ID: u16 = 107;

    const SIZE: usize = 5;

    open spec fn function() -> u16 {
        107
    }

    open spec fn size() -> nat {
        5
    }

    proof fn lemma_constants() {
    }

    open spec fn wire(&self) -> Seq<u8> {
        crate::wire::u16_le(self.distance_to_home) + crate::wire::i16_le(self.direction_to_home)
            + seq![self.update]
    }

    open spec fn parse(bytes: Seq<u8>) -> MspCompGps {
        MspCompGps {
            distance_to_home: crate::wire::u16_at(bytes, 0),
            direction_to_home: crate::wire::i16_at(bytes, 2),
            update: bytes[4],
        }
    }

    proof fn lemma_wire_len(&self) {
    }

    proof fn lemma_parse_wire(&self) {
        let image = self.wire();
        assert(image.subrange(0, 2) =~= crate::wire::u16_le(self.distance_to_home));
        crate::wire::lemma_u16_round_trip(self.distance_to_home, image, 0);
        assert(image.subrange(2, 4) =~= crate::wire::i16_le(self.direction_to_home));
        crate::wire::lemma_i16_round_trip(self.direction_to_home, image, 2);
    }

    proof fn lemma_wire_parse(bytes: Seq<u8>) {
        crate::wire::lemma_u16_image(bytes, 0);
        crate::wire::lemma_i16_image(bytes, 2);
        assert(seq![bytes[4]] =~= bytes.subrange(4, 5));
        assert(bytes =~= bytes.subrange(0, 2) + bytes.subrange(2, 4) + bytes.subrange(4, 5));
    }

    fn decode(bytes: &[u8]) -> (decoded: Result<MspCompGps, MspError>) {
        if bytes.len() != 5 {
            return Err(MspError::PayloadLengthMismatch);
        }
        Ok(
            MspCompGps {
                distance_to_home: get_u16(bytes, 0),
                direction_to_home: get_i16(bytes, 2),
                update: bytes[4],
            },
        )
    }

    fn encode(&self) -> (bytes: Vec<u8>) {
        let mut out: Vec<u8> = Vec::new();
        put_u16(&mut out, self.distance_to_home);
        put_i16(&mut out, self.direction_to_home);
        out.push(self.update);
        assert(out@ =~= self.wire());
        out
    }
}

/// `MSP_ATTITUDE` (108): roll and pitch in tenths of a degree, heading in
/// degrees.
#[derive(Clone, Copy, Debug, PartialEq, Eq)]
pub struct MspAttitude {
    pub angx: i16,
    pub angy: i16,
    pub heading: i16,
}

impl MspPayload for MspAttitude {
    const ID: u16 = 108;

    const SIZE: usize = 6;

    open spec fn function() -> u16 {
        108
    }

    open spec fn size() -> nat {
        6
    }

    proof fn lemma_constants() {
    }

    open spec fn wire(&self) -> Seq<u8> {
        crate::wire::i16_le(self.angx) + crate::wire::i16_le(self.angy)
            + crate::wire::i16_le(self.heading)
    }

    open spec fn parse(bytes: Seq<u8>) -> MspAttitude {
        MspAttitude {
            angx: crate::wire::i16_at(bytes, 0),
            angy: crate::wire::i16_at(bytes, 2),
            heading: crate::wire::i16_at(bytes, 4),
        }
    }

    proof fn lemma_wire_len(&self) {
    }

    proof fn lemma_parse_wire(&self) {
        let image = self.wire();
        assert(image.subrange(0, 2) =~= crate::wire::i16_le(self.angx));
        crate::wire::lemma_i16_round_trip(self.angx, image, 0);
        assert(image.subrange(2, 4) =~= crate::wire::i16_le(self.angy));
        crate::wire::lemma_i16_round_trip(self.angy, image, 2);
        assert(image.subrange(4, 6) =~= crate::wire::i16_le(self.heading));
        crate::wire::lemma_i16_round_trip(self.heading, image, 4);
    }

    proof fn lemma_wire_parse(bytes: Seq<u8>) {
        crate::wire::lemma_i16_image(bytes, 0);
        crate::wire::lemma_i16_image(bytes, 2);
        crate::wire::lemma_i16_image(bytes, 4);
        assert(bytes =~= bytes.subrange(0, 2) + bytes.subrange(2, 4) + bytes.subrange(4, 6));
    }

    fn decode(bytes: &[u8]) -> (decoded: Result<MspAttitude, MspError>) {
        if bytes.len() != 6 {
            return Err(MspError::PayloadLengthMismatch);
        }
        Ok(
            MspAttitude {
                angx: get_i16(bytes, 0),
                angy: get_i16(bytes, 2),
                heading: get_i16(bytes, 4),
            },
        )
    }

    fn encode(&self) -> (bytes: Vec<u8>) {
        let mut out: Vec<u8> = Vec::new();
        put_i16(&mut out, self.angx);
        put_i16(&mut out, self.angy);
        put_i16(&mut out, self.heading);
        assert(out@ =~= self.wire());
        out
    }
}

/// `MSP_ALTITUDE` (109): estimated altitude and vertical speed.
#[derive(Clone, Copy, Debug, PartialEq, Eq)]
pub struct MspAltitude {
    pub estimated_alt: i32,
    pub vario: i16,
}

impl MspPayload for MspAltitude {
    const ID: u16 = 109;

    const SIZE: usize = 6;

    open spec fn function() -> u16 {
        109
    }

    open spec fn size() -> nat {
        6
    }

    proof fn lemma_constants() {
    }

    open spec fn wire(&self) -> Seq<u8> {
        crate::wire::i32_le(self.estimated_alt) + crate::wire::i16_le(self.vario)
    }

    open spec fn parse(bytes: Seq<u8>) -> MspAltitude {
        MspAltitude {
            estimated_alt: crate::wire::i32_at(bytes, 0),
            vario: crate::wire::i16_at(bytes, 4),
        }
    }

    proof fn lemma_wire_len(&self) {
    }

    proof fn lemma_parse_wire(&self) {
        let image = self.wire();
        assert(image.subrange(0, 4) =~= crate::wire::i32_le(self.estimated_alt));
        crate::wire::lemma_i32_round_trip(self.estimated_alt, image, 0);
        assert(image.subrange(4, 6) =~= crate::wire::i16_le(self.vario));
        crate::wire::lemma_i16_round_trip(self.vario, image, 4);
    }

    proof fn lemma_wire_parse(bytes: Seq<u8>) {
        crate::wire::lemma_i32_image(bytes, 0);
        crate::wire::lemma_i16_image(bytes, 4);
        assert(bytes =~= bytes.subrange(0, 4) + bytes.subrange(4, 6));
    }

    fn decode(bytes: &[u8]) -> (decoded: Result<MspAltitude, MspError>) {
        if bytes.len() != 6 {
            return Err(MspError::PayloadLengthMismatch);
        }
        Ok(
            MspAltitude {
                estimated_alt: get_i32(bytes, 0),
                vario: get_i16(bytes, 4),
            },
        )
    }

    fn encode(&self) -> (bytes: Vec<u8>) {
        let mut out: Vec<u8> = Vec::new();
        put_i32(&mut out, self.estimated_alt);
        put_i16(&mut out, self.vario);
        assert(out@ =~= self.wire());
        out
    }
}

/// `MSP_ANALOG` (110): battery voltage, consumed power, signal strength
/// and current.
#[derive(Clone, Copy, Debug, PartialEq, Eq)]
pub struct MspAnalog {
    pub vbat: u8,
    pub int_power_meter_sum: u16,
    pub rssi: u16,
    pub amperage: u16,
}

impl MspPayload for MspAnalog {
    const ID: u16 = 110;

    const SIZE: usize = 7;

    open spec fn function() -> u16 {
        110
    }

    open spec fn size() -> nat {
        7
    }

    proof fn lemma_constants() {
    }

    open spec fn wire(&self) -> Seq<u8> {
        seq![self.vbat] + crate::wire::u16_le(self.int_power_meter_sum)
            + crate::wire::u16_le(self.rssi) + crate::wire::u16_le(self.amperage)
    }

    open spec fn parse(bytes: Seq<u8>) -> MspAnalog {
        MspAnalog {
            vbat: bytes[0],
            int_power_meter_sum: crate::wire::u16_at(bytes, 1),
            rssi: crate::wire::u16_at(bytes, 3),
            amperage: crate::wire::u16_at(bytes, 5),
        }
    }

    proof fn lemma_wire_len(&self) {
    }

    proof fn lemma_parse_wire(&self) {
        let image = self.wire();
        assert(image.subrange(1, 3) =~= crate::wire::u16_le(self.int_power_meter_sum));
        crate::wire::lemma_u16_round_trip(self.int_power_meter_sum, image, 1);
        assert(image.subrange(3, 5) =~= crate::wire::u16_le(self.rssi));
        crate::wire::lemma_u16_round_trip(self.rssi, image, 3);
        assert(image.subrange(5, 7) =~= crate::wire::u16_le(self.amperage));
        crate::wire::lemma_u16_round_trip(self.amperage, image, 5);
    }

    proof fn lemma_wire_parse(bytes: Seq<u8>) {
        assert(seq![bytes[0]] =~= bytes.subrange(0, 1));
        crate::wire::lemma_u16_image(bytes, 1);
        crate::wire::lemma_u16_image(bytes, 3);
        crate::wire::lemma_u16_image(bytes, 5);
        assert(bytes =~= bytes.subrange(0, 1) + bytes.subrange(1, 3) + bytes.subrange(3, 5)
            + bytes.subrange(5, 7));
    }

    fn decode(bytes: &[u8]) -> (decoded: Result<MspAnalog, MspError>) {
        if bytes.len() != 7 {
            return Err(MspError::PayloadLengthMismatch);
        }
        Ok(
            MspAnalog {
                vbat: bytes[0],
                int_power_meter_sum: get_u16(bytes, 1),
                rssi: get_u16(bytes, 3),
                amperage: get_u16(bytes, 5),
            },
        )
    }

    fn encode(&self) -> (bytes: Vec<u8>) {
        let mut out: Vec<u8> = Vec::new();
        out.push(self.vbat);
        put_u16(&mut out, self.int_power_meter_sum);
        put_u16(&mut out, self.rssi);
        put_u16(&mut out, self.amperage);
        assert(out@ =~= self.wire());
        out
    }
}

/// The layout of the RC tuning parameters, shared by the message that
/// reports them and the message that sets them.
#[derive(Clone, Copy, Debug, PartialEq, Eq)]
pub struct RcTuning<const FUNCTION: u16> {
    pub rc_rate: u8,
    pub rc_expo: u8,
    pub roll_pitch_rate: u8,
    pub yaw_rate: u8,
    pub dyn_thr_pid: u8,
    pub throttle_mid: u8,
    pub throttle_expo: u8,
}

/// `MSP_RC_TUNING` (111).
pub type MspRcTuning = RcTuning<111>;

/// `MSP_SET_RC_TUNING` (204).
pub type MspSetRcTuning = RcTuning<204>;

impl<const FUNCTION: u16> MspPayload for RcTuning<FUNCTION> {
    const ID: u16 = FUNCTION;

    const SIZE: usize = 7;

    open spec fn function() -> u16 {
        FUNCTION
    }

    open spec fn size() -> nat {
        7
    }

    proof fn lemma_constants() {
    }

    open spec fn wire(&self) -> Seq<u8> {
        seq![self.rc_rate] + seq![self.rc_expo] + seq![self.roll_pitch_rate] + seq![self.yaw_rate]
            + seq![self.dyn_thr_pid] + seq![self.throttle_mid] + seq![self.throttle_expo]
    }

    open spec fn parse(bytes: Seq<u8>) -> RcTuning<FUNCTION> {
        RcTuning {
            rc_rate: bytes[0],
            rc_expo: bytes[1],
            roll_pitch_rate: bytes[2],
            yaw_rate: bytes[3],
            dyn_thr_pid: bytes[4],
            throttle_mid: bytes[5],
            throttle_expo: bytes[6],
        }
    }

    proof fn lemma_wire_len(&self) {
    }

    proof fn lemma_parse_wire(&self) {
        let image = self.wire();
    }

    proof fn lemma_wire_parse(bytes: Seq<u8>) {
        assert(seq![bytes[0]] =~= bytes.subrange(0, 1));
        assert(seq![bytes[1]] =~= bytes.subrange(1, 2));
        assert(seq![bytes[2]] =~= bytes.subrange(2, 3));
        assert(seq![bytes[3]] =~= bytes.subrange(3, 4));
        assert(seq![bytes[4]] =~= bytes.subrange(4, 5));
        assert(seq![bytes[5]] =~= bytes.subrange(5, 6));
        assert(seq![bytes[6]] =~= bytes.subrange(6, 7));
        assert(bytes =~= bytes.subrange(0, 1) + bytes.subrange(1, 2) + bytes.subrange(2, 3)
            + bytes.subrange(3, 4) + bytes.subrange(4, 5) + bytes.subrange(5, 6)
            + bytes.subrange(6, 7));
    }

    fn decode(bytes: &[u8]) -> (decoded: Result<RcTuning<FUNCTION>, MspError>) {
        if bytes.len() != 7 {
            return Err(MspError::PayloadLengthMismatch);
        }
        Ok(
            RcTuning {
                rc_rate: bytes[0],
                rc_expo: bytes[1],
                roll_pitch_rate: bytes[2],
                yaw_rate: bytes[3],
                dyn_thr_pid: bytes[4],
                throttle_mid: bytes[5],
                throttle_expo: bytes[6],
            },
        )
    }

    fn encode(&self) -> (bytes: Vec<u8>) {
        let mut out: Vec<u8> = Vec::new();
        out.push(self.rc_rate);
        out.push(self.rc_expo);
        out.push(self.roll_pitch_rate);
        out.push(self.yaw_rate);
        out.push(self.dyn_thr_pid);
        out.push(self.throttle_mid);
        out.push(self.throttle_expo);
        assert(out@ =~= self.wire());
        out
    }
}

/// The layout of a waypoint, shared by the message that reports one and
/// the message that sets one.
#[derive(Clone, Copy, Debug, PartialEq, Eq)]
pub struct Waypoint<const FUNCTION: u16> {
    pub wp_no: u8,
    pub lat: i32,
    pub lon: i32,
    pub alt_hold: u32,
    pub heading: i16,
    pub time_to_stay: u16,
    pub nav_flag: u8,
}

/// `MSP_WP` (118).
pub type MspWp = Waypoint<118>;

/// `MSP_SET_WP` (209).
pub type MspSetWp = Waypoint<209>;

impl<const FUNCTION: u16> MspPayload for Waypoint<FUNCTION> {
    const ID: u16 = FUNCTION;

    const SIZE: usize = 18;

    open spec fn function() -> u16 {
        FUNCTION
    }

    open spec fn size() -> nat {
        18
    }

    proof fn lemma_constants() {
    }

    open spec fn wire(&self) -> Seq<u8> {
        seq![self.wp_no] + crate::wire::i32_le(self.lat) + crate::wire::i32_le(self.lon)
            + crate::wire::u32_le(self.alt_hold) + crate::wire::i16_le(self.heading)
            + crate::wire::u16_le(self.time_to_stay) + seq![self.nav_flag]
    }

    open spec fn parse(bytes: Seq<u8>) -> Waypoint<FUNCTION> {
        Waypoint {
            wp_no: bytes[0],
            lat: crate::wire::i32_at(bytes, 1),
            lon: crate::wire::i32_at(bytes, 5),
            alt_hold: crate::wire::u32_at(bytes, 9),
            heading: crate::wire::i16_at(bytes, 13),
            time_to_stay: crate::wire::u16_at(bytes, 15),
            nav_flag: bytes[17],
        }
    }

    proof fn lemma_wire_len(&self) {
    }

    proof fn lemma_parse_wire(&self) {
        let image = self.wire();
        assert(image.subrange(1, 5) =~= crate::wire::i32_le(self.lat));
        crate::wire::lemma_i32_round_trip(self.lat, image, 1);
        assert(image.subrange(5, 9) =~= crate::wire::i32_le(self.lon));
        crate::wire::lemma_i32_round_trip(self.lon, image, 5);
        assert(image.subrange(9, 13) =~= crate::wire::u32_le(self.alt_hold));
        crate::wire::lemma_u32_round_trip(self.alt_hold, image, 9);
        assert(image.subrange(13, 15) =~= crate::wire::i16_le(self.heading));
        crate::wire::lemma_i16_round_trip(self.heading, image, 13);
        assert(image.subrange(15, 17) =~= crate::wire::u16_le(self.time_to_stay));
        crate::wire::lemma_u16_round_trip(self.time_to_stay, image, 15);
    }

    proof fn lemma_wire_parse(bytes: Seq<u8>) {
        assert(seq![bytes[0]] =~= bytes.subrange(0, 1));
        crate::wire::lemma_i32_image(bytes, 1);
        crate::wire::lemma_i32_image(bytes, 5);
        crate::wire::lemma_u32_image(bytes, 9);
        crate::wire::lemma_i16_image(bytes, 13);
        crate::wire::lemma_u16_image(bytes, 15);
        assert(seq![bytes[17]] =~= bytes.subrange(17, 18));
        assert(bytes =~= bytes.subrange(0, 1) + bytes.subrange(1, 5) + bytes.subrange(5, 9)
            + bytes.subrange(9, 13) + bytes.subrange(13, 15) + bytes.subrange(15, 17)
            + bytes.subrange(17, 18));
    }

    fn decode(bytes: &[u8]) -> (decoded: Result<Waypoint<FUNCTION>, MspError>) {
        if bytes.len() != 18 {
            return Err(MspError::PayloadLengthMismatch);
        }
        Ok(
            Waypoint {
                wp_no: bytes[0],
                lat: get_i32(bytes, 1),
                lon: get_i32(bytes, 5),
                alt_hold: get_u32(bytes, 9),
                heading: get_i16(bytes, 13),
                time_to_stay: get_u16(bytes, 15),
                nav_flag: bytes[17],
            },
        )
    }

    fn encode(&self) -> (bytes: Vec<u8>) {
        let mut out: Vec<u8> = Vec::new();
        out.push(self.wp_no);
        put_i32(&mut out, self.lat);
        put_i32(&mut out, self.lon);
        put_u32(&mut out, self.alt_hold);
        put_i16(&mut out, self.heading);
        put_u16(&mut out, self.time_to_stay);
        out.push(self.nav_flag);
        assert(out@ =~= self.wire());
        out
    }
}

/// `MSP_SET_HEAD` (211): the heading to hold.
#[derive(Clone, Copy, Debug, PartialEq, Eq)]
pub struct MspSetHead {
    pub mag_hold: i16,
}

impl MspPayload for MspSetHead {
    const ID: u16 = 211;

    const SIZE: usize = 2;

    open spec fn function() -> u16 {
        211
    }

    open spec fn size() -> nat {
        2
    }

    proof fn lemma_constants() {
    }

    open spec fn wire(&self) -> Seq<u8> {
        crate::wire::i16_le(self.mag_hold)
    }

    open spec fn parse(bytes: Seq<u8>) -> MspSetHead {
        MspSetHead {
            mag_hold: crate::wire::i16_at(bytes, 0),
        }
    }

    proof fn lemma_wire_len(&self) {
    }

    proof fn lemma_parse_wire(&self) {
        let image = self.wire();
        assert(image.subrange(0, 2) =~= crate::wire::i16_le(self.mag_hold));
        crate::wire::lemma_i16_round_trip(self.mag_hold, image, 0);
    }

    proof fn lemma_wire_parse(bytes: Seq<u8>) {
        crate::wire::lemma_i16_image(bytes, 0);
        assert(bytes =~= bytes.subrange(0, 2));
    }

    fn decode(bytes: &[u8]) -> (decoded: Result<MspSetHead, MspError>) {
        if bytes.len() != 2 {
            return Err(MspError::PayloadLengthMismatch);
        }
        Ok(
            MspSetHead {
                mag_hold: get_i16(bytes, 0),
            },
        )
    }

    fn encode(&self) -> (bytes: Vec<u8>) {
        let mut out: Vec<u8> = Vec::new();
        put_i16(&mut out, self.mag_hold);
        assert(out@ =~= self.wire());
        out
    }
}

/// The array whose first `k` elements are those of `s`.
pub open spec fn array_of<T: Copy, const N: usize>(s: Seq<T>, k: nat) -> [T; N]
    decreases k,
{
    if k == 0 {
        vstd::array::spec_array_fill_for_copy_type(s[0])
    } else {
        vstd::array::spec_array_update(array_of::<T, N>(s, (k - 1) as nat), k - 1, s[k - 1])
    }
}

/// `array_of` holds the first `k` elements of `s`.
pub proof fn lemma_array_of<T: Copy, const N: usize>(s: Seq<T>, k: nat)
    requires
        k <= N,
    ensures
        forall|i: int| 0 <= i < k ==> (#[trigger] array_of::<T, N>(s, k)@[i]) == s[i],
    decreases k,
{
    broadcast use vstd::array::axiom_spec_array_update;

    if k > 0 {
        let shorter = array_of::<T, N>(s, (k - 1) as nat);
        lemma_array_of::<T, N>(s, (k - 1) as nat);
        assert(array_of::<T, N>(s, k)@ == shorter@.update(k - 1, s[k - 1]));
        assert(shorter@.len() == N);
        assert forall|i: int| 0 <= i < k implies (#[trigger] array_of::<T, N>(s, k)@[i]) == s[i] by {
            if i < k - 1 {
                assert(shorter@[i] == s[i]);
            }
        }
    }
}

/// A payload of `N` raw bytes under the function id `FUNCTION`.
#[derive(Clone, Copy, Debug, PartialEq, Eq)]
pub struct MspBytes<const FUNCTION: u16, const N: usize>(pub [u8; N]);

/// `MSP_MOTOR_PINS` (115): the output pin of each of eight motors.
pub type MspMotorPins = MspBytes<115, 8>;

impl<const FUNCTION: u16, const N: usize> MspPayload for MspBytes<FUNCTION, N> {
    const ID: u16 = FUNCTION;

    const SIZE: usize = N;

    open spec fn function() -> u16 {
        FUNCTION
    }

    open spec fn size() -> nat {
        N as nat
    }

    proof fn lemma_constants() {
    }

    open spec fn wire(&self) -> Seq<u8> {
        self.0@
    }

    open spec fn parse(bytes: Seq<u8>) -> MspBytes<FUNCTION, N> {
        MspBytes(array_of::<u8, N>(bytes, N as nat))
    }

    proof fn lemma_wire_len(&self) {
    }

    proof fn lemma_parse_wire(&self) {
        lemma_array_of::<u8, N>(self.wire(), N as nat);
        assert(Self::parse(self.wire()).0 =~= self.0);
    }

    proof fn lemma_wire_parse(bytes: Seq<u8>) {
        lemma_array_of::<u8, N>(bytes, N as nat);
        assert(Self::parse(bytes).wire() =~= bytes);
    }

    fn decode(bytes: &[u8]) -> (decoded: Result<MspBytes<FUNCTION, N>, MspError>) {
        if bytes.len() != N {
            return Err(MspError::PayloadLengthMismatch);
        }
        let mut array = [0u8;N];
        let mut i: usize = 0;
        while i < N
            invariant
                i <= N,
                bytes@.len() == N,
                forall|k: int| 0 <= k < i ==> array@[k] == bytes@[k],
            decreases N - i,
        {
            array[i] = bytes[i];
            i = i + 1;
        }
        proof {
            lemma_array_of::<u8, N>(bytes@, N as nat);
            assert(array =~= Self::parse(bytes@).0);
        }
        Ok(MspBytes(array))
    }

    fn encode(&self) -> (bytes: Vec<u8>) {
        let mut out: Vec<u8> = Vec::new();
        let mut i: usize = 0;
        while i < N
            invariant
                i <= N,
                out@ == self.0@.take(i as int),
            decreases N - i,
        {
            out.push(self.0[i]);
            assert(out@ =~= self.0@.take(i + 1));
            i = i + 1;
        }
        assert(out@ =~= self.wire());
        out
    }
}

/// The sixteen words that thirty-two bytes hold, low byte first.
pub open spec fn words_of(bytes: Seq<u8>) -> Seq<u16> {
    Seq::new(16, |i: int| crate::wire::u16_at(bytes, 2 * i))
}

/// The thirty-two bytes that carry sixteen words, low byte first.
pub open spec fn bytes_of(words: Seq<u16>) -> Seq<u8> {
    Seq::new(
        32,
        |k: int|
            if k % 2 == 0 {
                (words[k / 2] % 256) as u8
            } else {
                (words[k / 2] / 256) as u8
            },
    )
}

/// Sixteen channel values under the function id `FUNCTION`: servo, motor
/// and RC channel messages share this layout.
#[derive(Clone, Copy, Debug, PartialEq, Eq)]
pub struct MspChannels<const FUNCTION: u16>(pub [u16; 16]);

/// `MSP_SERVO` (103).
pub type MspServo = MspChannels<103>;

/// `MSP_MOTOR` (104).
pub type MspMotor = MspChannels<104>;

/// `MSP_RC` (105).
pub type MspRc = MspChannels<105>;

/// `MSP_SET_RAW_RC` (200).
pub type MspSetRawRc = MspChannels<200>;

/// `MSP_SET_MOTOR` (214).
pub type MspSetMotor = MspChannels<214>;

impl<const FUNCTION: u16> MspPayload for MspChannels<FUNCTION> {
    const ID: u16 = FUNCTION;

    const SIZE: usize = 32;

    open spec fn function() -> u16 {
        FUNCTION
    }

    open spec fn size() -> nat {
        32
    }

    proof fn lemma_constants() {
    }

    open spec fn wire(&self) -> Seq<u8> {
        bytes_of(self.0@)
    }

    open spec fn parse(bytes: Seq<u8>) -> MspChannels<FUNCTION> {
        MspChannels(array_of::<u16, 16>(words_of(bytes), 16))
    }

    proof fn lemma_wire_len(&self) {
    }

    proof fn lemma_parse_wire(&self) {
        let image = self.wire();
        lemma_array_of::<u16, 16>(words_of(image), 16);
        assert forall|i: int| 0 <= i < 16 implies Self::parse(image).0@[i] == self.0@[i] by {
            assert(image[2 * i] == (self.0@[i] % 256) as u8);
            assert(image[2 * i + 1] == (self.0@[i] / 256) as u8);
            assert(words_of(image)[i] == self.0@[i]);
        }
        assert(Self::parse(image).0 =~= self.0);
    }

    proof fn lemma_wire_parse(bytes: Seq<u8>) {
        lemma_array_of::<u16, 16>(words_of(bytes), 16);
        let value = Self::parse(bytes);
        assert forall|k: int| 0 <= k < 32 implies value.wire()[k] == bytes[k] by {
            assert(value.0@[k / 2] == words_of(bytes)[k / 2]);
        }
        assert(value.wire() =~= bytes);
    }

    fn decode(bytes: &[u8]) -> (decoded: Result<MspChannels<FUNCTION>, MspError>) {
        if bytes.len() != 32 {
            return Err(MspError::PayloadLengthMismatch);
        }
        let mut array = [0u16;16];
        let mut i: usize = 0;
        while i < 16
            invariant
                i <= 16,
                bytes@.len() == 32,
                forall|k: int| 0 <= k < i ==> array@[k] == words_of(bytes@)[k],
            decreases 16 - i,
        {
            array[i] = get_u16(bytes, 2 * i);
            i = i + 1;
        }
        proof {
            lemma_array_of::<u16, 16>(words_of(bytes@), 16);
            assert(array =~= Self::parse(bytes@).0);
        }
        Ok(MspChannels(array))
    }

    fn encode(&self) -> (bytes: Vec<u8>) {
        let mut out: Vec<u8> = Vec::new();
        let mut i: usize = 0;
        while i < 16
            invariant
                i <= 16,
                out@ == bytes_of(self.0@).take(2 * i),
            decreases 16 - i,
        {
            put_u16(&mut out, self.0[i]);
            assert(out@ =~= bytes_of(self.0@).take(2 * (i + 1)));
            i = i + 1;
        }
        assert(out@ =~= self.wire());
        out
    }
}

/// A payload of any of the schemas that are compiled in: the registry of
/// function ids as one type.
#[derive(Clone, Copy, Debug, PartialEq, Eq)]
pub enum MspValue {
    Ident(MspIdent),
    Status(MspStatus),
    RawImu(MspRawImu),
    Servo(MspServo),
    Motor(MspMotor),
    Rc(MspRc),
    RawGps(MspRawGps),
    CompGps(MspCompGps),
    Attitude(MspAttitude),
    Altitude(MspAltitude),
    Analog(MspAnalog),
    RcTuning(MspRcTuning),
    MotorPins(MspMotorPins),
    Wp(MspWp),
    SetRawRc(MspSetRawRc),
    SetRawGps(MspSetRawGps),
    SetRcTuning(MspSetRcTuning),
    SetWp(MspSetWp),
    SetHead(MspSetHead),
    SetMotor(MspSetMotor),
}

/// The registry: the payload size of the schema that is compiled in under a
/// function id, if there is one.
pub open spec fn schema_size(function: u16) -> Option<nat> {
    match function {
        100u16 => Some(7nat),
        101u16 => Some(11nat),
        102u16 => Some(18nat),
        103u16 => Some(32nat),
        104u16 => Some(32nat),
        105u16 => Some(32nat),
        106u16 => Some(16nat),
        107u16 => Some(5nat),
        108u16 => Some(6nat),
        109u16 => Some(6nat),
        110u16 => Some(7nat),
        111u16 => Some(7nat),
        115u16 => Some(8nat),
        118u16 => Some(18nat),
        200u16 => Some(32nat),
        201u16 => Some(14nat),
        204u16 => Some(7nat),
        209u16 => Some(18nat),
        211u16 => Some(2nat),
        214u16 => Some(32nat),
        _ => None,
    }
}

/// Looks a function id up in the registry.
pub fn registered_size(function: u16) -> (size: Option<usize>)
    ensures
        match size {
            Some(n) => schema_size(function) == Some(n as nat),
            None => schema_size(function) is None,
        },
{
    match function {
        100 => Some(7),
        101 => Some(11),
        102 => Some(18),
        103 => Some(32),
        104 => Some(32),
        105 => Some(32),
        106 => Some(16),
        107 => Some(5),
        108 => Some(6),
        109 => Some(6),
        110 => Some(7),
        111 => Some(7),
        115 => Some(8),
        118 => Some(18),
        200 => Some(32),
        201 => Some(14),
        204 => Some(7),
        209 => Some(18),
        211 => Some(2),
        214 => Some(32),
        _ => None,
    }
}

impl MspValue {
    /// The function id under which the payload travels.
    pub open spec fn function(self) -> u16 {
        match self {
            MspValue::Ident(_) => 100,
            MspValue::Status(_) => 101,
            MspValue::RawImu(_) => 102,
            MspValue::Servo(_) => 103,
            MspValue::Motor(_) => 104,
            MspValue::Rc(_) => 105,
            MspValue::RawGps(_) => 106,
            MspValue::CompGps(_) => 107,
            MspValue::Attitude(_) => 108,
            MspValue::Altitude(_) => 109,
            MspValue::Analog(_) => 110,
            MspValue::RcTuning(_) => 111,
            MspValue::MotorPins(_) => 115,
            MspValue::Wp(_) => 118,
            MspValue::SetRawRc(_) => 200,
            MspValue::SetRawGps(_) => 201,
            MspValue::SetRcTuning(_) => 204,
            MspValue::SetWp(_) => 209,
            MspValue::SetHead(_) => 211,
            MspValue::SetMotor(_) => 214,
        }
    }

    /// The wire image of the payload.
    pub open spec fn wire(self) -> Seq<u8> {
        match self {
            MspValue::Ident(p) => p.wire(),
            MspValue::Status(p) => p.wire(),
            MspValue::RawImu(p) => p.wire(),
            MspValue::Servo(p) => p.wire(),
            MspValue::Motor(p) => p.wire(),
            MspValue::Rc(p) => p.wire(),
            MspValue::RawGps(p) => p.wire(),
            MspValue::CompGps(p) => p.wire(),
            MspValue::Attitude(p) => p.wire(),
            MspValue::Altitude(p) => p.wire(),
            MspValue::Analog(p) => p.wire(),
            MspValue::RcTuning(p) => p.wire(),
            MspValue::MotorPins(p) => p.wire(),
            MspValue::Wp(p) => p.wire(),
            MspValue::SetRawRc(p) => p.wire(),
            MspValue::SetRawGps(p) => p.wire(),
            MspValue::SetRcTuning(p) => p.wire(),
            MspValue::SetWp(p) => p.wire(),
            MspValue::SetHead(p) => p.wire(),
            MspValue::SetMotor(p) => p.wire(),
        }
    }

    /// The payload that the bytes hold under a function id. A function id
    /// outside the registry gives `UnknownFunction`; a length other than
    /// the size of the schema gives `PayloadLengthMismatch`.
    pub open spec fn parse(function: u16, bytes: Seq<u8>) -> Result<MspValue, MspError> {
        match schema_size(function) {
            None => Err(MspError::UnknownFunction),
            Some(size) => if bytes.len() != size {
                Err(MspError::PayloadLengthMismatch)
            } else {
                Ok(
                    match function {
                        100u16 => MspValue::Ident(MspIdent::parse(bytes)),
                        101u16 => MspValue::Status(MspStatus::parse(bytes)),
                        102u16 => MspValue::RawImu(MspRawImu::parse(bytes)),
                        103u16 => MspValue::Servo(MspServo::parse(bytes)),
                        104u16 => MspValue::Motor(MspMotor::parse(bytes)),
                        105u16 => MspValue::Rc(MspRc::parse(bytes)),
                        106u16 => MspValue::RawGps(MspRawGps::parse(bytes)),
                        107u16 => MspValue::CompGps(MspCompGps::parse(bytes)),
                        108u16 => MspValue::Attitude(MspAttitude::parse(bytes)),
                        109u16 => MspValue::Altitude(MspAltitude::parse(bytes)),
                        110u16 => MspValue::Analog(MspAnalog::parse(bytes)),
                        111u16 => MspValue::RcTuning(MspRcTuning::parse(bytes)),
                        115u16 => MspValue::MotorPins(MspMotorPins::parse(bytes)),
                        118u16 => MspValue::Wp(MspWp::parse(bytes)),
                        200u16 => MspValue::SetRawRc(MspSetRawRc::parse(bytes)),
                        201u16 => MspValue::SetRawGps(MspSetRawGps::parse(bytes)),
                        204u16 => MspValue::SetRcTuning(MspSetRcTuning::parse(bytes)),
                        209u16 => MspValue::SetWp(MspSetWp::parse(bytes)),
                        211u16 => MspValue::SetHead(MspSetHead::parse(bytes)),
                        _ => MspValue::SetMotor(MspSetMotor::parse(bytes)),
                    },
                )
            },
        }
    }

    /// The function id under which the payload travels.
    pub fn id(&self) -> (function: u16)
        ensures
            function == self.function(),
    {
        match self {
            MspValue::Ident(_) => 100,
            MspValue::Status(_) => 101,
            MspValue::RawImu(_) => 102,
            MspValue::Servo(_) => 103,
            MspValue::Motor(_) => 104,
            MspValue::Rc(_) => 105,
            MspValue::RawGps(_) => 106,
            MspValue::CompGps(_) => 107,
            MspValue::Attitude(_) => 108,
            MspValue::Altitude(_) => 109,
            MspValue::Analog(_) => 110,
            MspValue::RcTuning(_) => 111,
            MspValue::MotorPins(_) => 115,
            MspValue::Wp(_) => 118,
            MspValue::SetRawRc(_) => 200,
            MspValue::SetRawGps(_) => 201,
            MspValue::SetRcTuning(_) => 204,
            MspValue::SetWp(_) => 209,
            MspValue::SetHead(_) => 211,
            MspValue::SetMotor(_) => 214,
        }
    }

    /// Reads the payload of a frame by the function id of the frame: the
    /// id selects the schema, and the schema reads the bytes.
    pub fn decode(function: u16, bytes: &[u8]) -> (decoded: Result<MspValue, MspError>)
        ensures
            decoded == MspValue::parse(function, bytes@),
    {
        match function {
            100 => match MspIdent::decode(bytes) {
                Ok(p) => Ok(MspValue::Ident(p)),
                Err(e) => Err(e),
            },
            101 => match MspStatus::decode(bytes) {
                Ok(p) => Ok(MspValue::Status(p)),
                Err(e) => Err(e),
            },
            102 => match MspRawImu::decode(bytes) {
                Ok(p) => Ok(MspValue::RawImu(p)),
                Err(e) => Err(e),
            },
            103 => match MspServo::decode(bytes) {
                Ok(p) => Ok(MspValue::Servo(p)),
                Err(e) => Err(e),
            },
            104 => match MspMotor::decode(bytes) {
                Ok(p) => Ok(MspValue::Motor(p)),
                Err(e) => Err(e),
            },
            105 => match MspRc::decode(bytes) {
                Ok(p) => Ok(MspValue::Rc(p)),
                Err(e) => Err(e),
            },
            106 => match MspRawGps::decode(bytes) {
                Ok(p) => Ok(MspValue::RawGps(p)),
                Err(e) => Err(e),
            },
            107 => match MspCompGps::decode(bytes) {
                Ok(p) => Ok(MspValue::CompGps(p)),
                Err(e) => Err(e),
            },
            108 => match MspAttitude::decode(bytes) {
                Ok(p) => Ok(MspValue::Attitude(p)),
                Err(e) => Err(e),
            },
            109 => match MspAltitude::decode(bytes) {
                Ok(p) => Ok(MspValue::Altitude(p)),
                Err(e) => Err(e),
            },
            110 => match MspAnalog::decode(bytes) {
                Ok(p) => Ok(MspValue::Analog(p)),
                Err(e) => Err(e),
            },
            111 => match MspRcTuning::decode(bytes) {
                Ok(p) => Ok(MspValue::RcTuning(p)),
                Err(e) => Err(e),
            },
            115 => match MspMotorPins::decode(bytes) {
                Ok(p) => Ok(MspValue::MotorPins(p)),
                Err(e) => Err(e),
            },
            118 => match MspWp::decode(bytes) {
                Ok(p) => Ok(MspValue::Wp(p)),
                Err(e) => Err(e),
            },
            200 => match MspSetRawRc::decode(bytes) {
                Ok(p) => Ok(MspValue::SetRawRc(p)),
                Err(e) => Err(e),
            },
            201 => match MspSetRawGps::decode(bytes) {
                Ok(p) => Ok(MspValue::SetRawGps(p)),
                Err(e) => Err(e),
            },
            204 => match MspSetRcTuning::decode(bytes) {
                Ok(p) => Ok(MspValue::SetRcTuning(p)),
                Err(e) => Err(e),
            },
            209 => match MspSetWp::decode(bytes) {
                Ok(p) => Ok(MspValue::SetWp(p)),
                Err(e) => Err(e),
            },
            211 => match MspSetHead::decode(bytes) {
                Ok(p) => Ok(MspValue::SetHead(p)),
                Err(e) => Err(e),
            },
            214 => match MspSetMotor::decode(bytes) {
                Ok(p) => Ok(MspValue::SetMotor(p)),
                Err(e) => Err(e),
            },
            _ => Err(MspError::UnknownFunction),
        }
    }

    /// Writes the wire image of the payload.
    pub fn encode(&self) -> (bytes: Vec<u8>)
        ensures
            bytes@ == self.wire(),
    {
        match self {
            MspValue::Ident(p) => p.encode(),
            MspValue::Status(p) => p.encode(),
            MspValue::RawImu(p) => p.encode(),
            MspValue::Servo(p) => p.encode(),
            MspValue::Motor(p) => p.encode(),
            MspValue::Rc(p) => p.encode(),
            MspValue::RawGps(p) => p.encode(),
            MspValue::CompGps(p) => p.encode(),
            MspValue::Attitude(p) => p.encode(),
            MspValue::Altitude(p) => p.encode(),
            MspValue::Analog(p) => p.encode(),
            MspValue::RcTuning(p) => p.encode(),
            MspValue::MotorPins(p) => p.encode(),
            MspValue::Wp(p) => p.encode(),
            MspValue::SetRawRc(p) => p.encode(),
            MspValue::SetRawGps(p) => p.encode(),
            MspValue::SetRcTuning(p) => p.encode(),
            MspValue::SetWp(p) => p.encode(),
            MspValue::SetHead(p) => p.encode(),
            MspValue::SetMotor(p) => p.encode(),
        }
    }

    /// Payload round trip, from the value. Every payload of the registry
    /// is read back from its wire image under its function id, and the
    /// image has the size that the registry names.
    pub proof fn lemma_parse_wire(self)
        ensures
            schema_size(self.function()) == Some(self.wire().len()),
            MspValue::parse(self.function(), self.wire()) == Ok::<MspValue, MspError>(self),
    {
        match self {
            MspValue::Ident(p) => {
                p.lemma_wire_len();
                p.lemma_parse_wire();
            },
            MspValue::Status(p) => {
                p.lemma_wire_len();
                p.lemma_parse_wire();
            },
            MspValue::RawImu(p) => {
                p.lemma_wire_len();
                p.lemma_parse_wire();
            },
            MspValue::Servo(p) => {
                p.lemma_wire_len();
                p.lemma_parse_wire();
            },
            MspValue::Motor(p) => {
                p.lemma_wire_len();
                p.lemma_parse_wire();
            },
            MspValue::Rc(p) => {
                p.lemma_wire_len();
                p.lemma_parse_wire();
            },
            MspValue::RawGps(p) => {
                p.lemma_wire_len();
                p.lemma_parse_wire();
            },
            MspValue::CompGps(p) => {
                p.lemma_wire_len();
                p.lemma_parse_wire();
            },
            MspValue::Attitude(p) => {
                p.lemma_wire_len();
                p.lemma_parse_wire();
            },
            MspValue::Altitude(p) => {
                p.lemma_wire_len();
                p.lemma_parse_wire();
            },
            MspValue::Analog(p) => {
                p.lemma_wire_len();
                p.lemma_parse_wire();
            },
            MspValue::RcTuning(p) => {
                p.lemma_wire_len();
                p.lemma_parse_wire();
            },
            MspValue::MotorPins(p) => {
                p.lemma_wire_len();
                p.lemma_parse_wire();
            },
            MspValue::Wp(p) => {
                p.lemma_wire_len();
                p.lemma_parse_wire();
            },
            MspValue::SetRawRc(p) => {
                p.lemma_wire_len();
                p.lemma_parse_wire();
            },
            MspValue::SetRawGps(p) => {
                p.lemma_wire_len();
                p.lemma_parse_wire();
            },
            MspValue::SetRcTuning(p) => {
                p.lemma_wire_len();
                p.lemma_parse_wire();
            },
            MspValue::SetWp(p) => {
                p.lemma_wire_len();
                p.lemma_parse_wire();
            },
            MspValue::SetHead(p) => {
                p.lemma_wire_len();
                p.lemma_parse_wire();
            },
            MspValue::SetMotor(p) => {
                p.lemma_wire_len();
                p.lemma_parse_wire();
            },
        }
    }

    /// Payload round trip, from the bytes. Bytes of the size of a
    /// registered schema are the wire image of the payload read from
    /// them, and that payload travels under the same function id.
    pub proof fn lemma_wire_parse(function: u16, bytes: Seq<u8>)
        requires
            schema_size(function) == Some(bytes.len()),
        ensures
            MspValue::parse(function, bytes) matches Ok(value) && value.wire() == bytes
                && value.function() == function,
    {
        if function == 100 {
            MspIdent::lemma_wire_parse(bytes);
        } else if function == 101 {
            MspStatus::lemma_wire_parse(bytes);
        } else if function == 102 {
            MspRawImu::lemma_wire_parse(bytes);
        } else if function == 103 {
            MspServo::lemma_wire_parse(bytes);
        } else if function == 104 {
            MspMotor::lemma_wire_parse(bytes);
        } else if function == 105 {
            MspRc::lemma_wire_parse(bytes);
        } else if function == 106 {
            MspRawGps::lemma_wire_parse(bytes);
        } else if function == 107 {
            MspCompGps::lemma_wire_parse(bytes);
        } else if function == 108 {
            MspAttitude::lemma_wire_parse(bytes);
        } else if function == 109 {
            MspAltitude::lemma_wire_parse(bytes);
        } else if function == 110 {
            MspAnalog::lemma_wire_parse(bytes);
        } else if function == 111 {
            MspRcTuning::lemma_wire_parse(bytes);
        } else if function == 115 {
            MspMotorPins::lemma_wire_parse(bytes);
        } else if function == 118 {
            MspWp::lemma_wire_parse(bytes);
        } else if function == 200 {
            MspSetRawRc::lemma_wire_parse(bytes);
        } else if function == 201 {
            MspSetRawGps::lemma_wire_parse(bytes);
        } else if function == 204 {
            MspSetRcTuning::lemma_wire_parse(bytes);
        } else if function == 209 {
            MspSetWp::lemma_wire_parse(bytes);
        } else if function == 211 {
            MspSetHead::lemma_wire_parse(bytes);
        } else if function == 214 {
            MspSetMotor::lemma_wire_parse(bytes);
        }
    }
}

} // verus!
