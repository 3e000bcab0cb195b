//! The registry of MAVLink message generators and what each of them makes
//! of the MSP payload it is given.
//!
//! The values here are the fields of the outgoing MAVLink messages as plain
//! integers. Angles stay in the units of MSP; the caller turns them into
//! radians when it builds the message for its transport.

use crate::payload::MspAttitude;
use crate::payload::MspRawImu;
use vstd::prelude::*;

verus! {

/// MAVLink message id of `HEARTBEAT`.
pub const HEARTBEAT_ID: u32 = 0;

/// MAVLink message id of `PARAM_VALUE`.
pub const PARAM_VALUE_ID: u32 = 22;

/// MAVLink message id of `RAW_IMU`.
pub const RAW_IMU_ID: u32 = 27;

/// MAVLink message id of `ATTITUDE`.
pub const ATTITUDE_ID: u32 = 30;

/// `MAV_TYPE_GENERIC`.
pub const MAV_TYPE_GENERIC: u8 = 0;

/// `MAV_AUTOPILOT_GENERIC_WAYPOINTS_AND_SIMPLE_NAVIGATION_ONLY`.
pub const MAV_AUTOPILOT_GENERIC_WAYPOINTS_AND_SIMPLE_NAVIGATION_ONLY: u8 = 6;

/// `MAV_STATE_STANDBY`.
pub const MAV_STATE_STANDBY: u8 = 3;

/// `MAV_PARAM_TYPE_UINT8`.
pub const MAV_PARAM_TYPE_UINT8: u8 = 1;

/// The version of MAVLink that the heartbeat announces.
pub const MAVLINK_VERSION: u8 = 3;

/// A generator of one kind of MAVLink message.
#[derive(Clone, Copy, Debug, PartialEq, Eq, Structural)]
pub enum Generator {
    Heartbeat,
    ParamValue,
    RawImu,
    Attitude,
}

/// The registry: the generator that is registered under a MAVLink message
/// id, if there is one.
pub open spec fn registered(id: u32) -> Option<Generator> {
    if id == HEARTBEAT_ID {
        Some(Generator::Heartbeat)
    } else if id == PARAM_VALUE_ID {
        Some(Generator::ParamValue)
    } else if id == RAW_IMU_ID {
        Some(Generator::RawImu)
    } else if id == ATTITUDE_ID {
        Some(Generator::Attitude)
    } else {
        None
    }
}

/// Looks a MAVLink message id up in the registry.
pub fn lookup(id: u32) -> (generator: Option<Generator>)
    ensures
        generator == registered(id),
{
    if id == HEARTBEAT_ID {
        Some(Generator::Heartbeat)
    } else if id == PARAM_VALUE_ID {
        Some(Generator::ParamValue)
    } else if id == RAW_IMU_ID {
        Some(Generator::RawImu)
    } else if id == ATTITUDE_ID {
        Some(Generator::Attitude)
    } else {
        None
    }
}

impl Generator {
    /// The MAVLink message id under which the generator is registered.
    pub open spec fn spec_message_id(self) -> u32 {
        match self {
            Generator::Heartbeat => HEARTBEAT_ID,
            Generator::ParamValue => PARAM_VALUE_ID,
            Generator::RawImu => RAW_IMU_ID,
            Generator::Attitude => ATTITUDE_ID,
        }
    }

    /// The MSP function id whose payload the generator consumes, if it
    /// consumes one: `MSP_RAW_IMU` for `RAW_IMU`, `MSP_ATTITUDE` for
    /// `ATTITUDE`.
    pub open spec fn spec_source(self) -> Option<u16> {
        match self {
            Generator::Heartbeat => None,
            Generator::ParamValue => None,
            Generator::RawImu => Some(102u16),
            Generator::Attitude => Some(108u16),
        }
    }

    /// The MAVLink message id under which the generator is registered.
    pub fn message_id(&self) -> (id: u32)
        ensures
            id == self.spec_message_id(),
            registered(id) == Some(*self),
    {
        match self {
            Generator::Heartbeat => HEARTBEAT_ID,
            Generator::ParamValue => PARAM_VALUE_ID,
            Generator::RawImu => RAW_IMU_ID,
            Generator::Attitude => ATTITUDE_ID,
        }
    }

    /// The MSP function id whose payload the generator consumes, if any.
    pub fn source(&self) -> (function: Option<u16>)
        ensures
            function == self.spec_source(),
    {
        match self {
            Generator::Heartbeat => None,
            Generator::ParamValue => None,
            Generator::RawImu => Some(102),
            Generator::Attitude => Some(108),
        }
    }
}

/// The fields of a MAVLink `HEARTBEAT`.
#[derive(Clone, Copy, Debug, PartialEq, Eq, Structural)]
pub struct Heartbeat {
    pub custom_mode: u32,
    pub mavtype: u8,
    pub autopilot: u8,
    pub base_mode: u8,
    pub system_status: u8,
    pub mavlink_version: u8,
}

/// The fields of a MAVLink `PARAM_VALUE`. The value is carried as the bit
/// pattern of a 32-bit float.
#[derive(Clone, Copy, Debug, PartialEq, Eq)]
pub struct ParamValue {
    pub param_value_bits: u32,
    pub param_count: u16,
    pub param_index: u16,
    pub param_id: [u8; 16],
    pub param_type: u8,
}

/// The fields of a MAVLink `RAW_IMU`.
#[derive(Clone, Copy, Debug, PartialEq, Eq, Structural)]
pub struct RawImu {
    pub time_usec: u64,
    pub xacc: i16,
    pub yacc: i16,
    pub zacc: i16,
    pub xgyro: i16,
    pub ygyro: i16,
    pub zgyro: i16,
    pub xmag: i16,
    pub ymag: i16,
    pub zmag: i16,
}

/// The fields of a MAVLink `ATTITUDE` before the angles are turned into
/// radians: roll and pitch in tenths of a degree, yaw in degrees. The
/// angular rates of the message are zero.
#[derive(Clone, Copy, Debug, PartialEq, Eq, Structural)]
pub struct Attitude {
    pub time_boot_ms: u32,
    pub roll_decidegrees: i32,
    pub pitch_decidegrees: i32,
    pub yaw_degrees: i32,
}

/// The heartbeat of the masqueraded vehicle: a generic vehicle in standby
/// with a generic autopilot, no mode flags, MAVLink version 3.
pub fn heartbeat() -> (message: Heartbeat)
    ensures
        message == (Heartbeat {
            custom_mode: 0,
            mavtype: MAV_TYPE_GENERIC,
            autopilot: MAV_AUTOPILOT_GENERIC_WAYPOINTS_AND_SIMPLE_NAVIGATION_ONLY,
            base_mode: 0,
            system_status: MAV_STATE_STANDBY,
            mavlink_version: MAVLINK_VERSION,
        }),
{
    Heartbeat {
        custom_mode: 0,
        mavtype: MAV_TYPE_GENERIC,
        autopilot: MAV_AUTOPILOT_GENERIC_WAYPOINTS_AND_SIMPLE_NAVIGATION_ONLY,
        base_mode: 0,
        system_status: MAV_STATE_STANDBY,
        mavlink_version: MAVLINK_VERSION,
    }
}

/// The placeholder parameter: value, count and index zero, an id of
/// sixteen blanks, type `UINT8`.
pub fn param_value() -> (message: ParamValue)
    ensures
        message.param_value_bits == 0,
        message.param_count == 0,
        message.param_index == 0,
        message.param_type == MAV_PARAM_TYPE_UINT8,
        forall|i: int| 0 <= i < 16 ==> message.param_id@[i] == 0x20,
{
    ParamValue {
        param_value_bits: 0,
        param_count: 0,
        param_index: 0,
        param_id: [0x20u8;16],
        param_type: MAV_PARAM_TYPE_UINT8,
    }
}

/// `RAW_IMU` from `MSP_RAW_IMU`: every reading is passed on as it is, under
/// the microseconds since startup.
pub fn raw_imu(payload: &MspRawImu, elapsed_us: u64) -> (message: RawImu)
    ensures
        message == (RawImu {
            time_usec: elapsed_us,
            xacc: payload.accx,
            yacc: payload.accy,
            zacc: payload.accz,
            xgyro: payload.gyrx,
            ygyro: payload.gyry,
            zgyro: payload.gyrz,
            xmag: payload.magx,
            ymag: payload.magy,
            zmag: payload.magz,
        }),
{
    RawImu {
        time_usec: elapsed_us,
        xacc: payload.accx,
        yacc: payload.accy,
        zacc: payload.accz,
        xgyro: payload.gyrx,
        ygyro: payload.gyry,
        zgyro: payload.gyrz,
        xmag: payload.magx,
        ymag: payload.magy,
        zmag: payload.magz,
    }
}

/// `ATTITUDE` from `MSP_ATTITUDE`. Roll is `angx`. Pitch is `angy` with
/// the sign inverted: MSP counts nose-up positive, MAVLink nose-down. Yaw
/// is the heading. The time is the milliseconds since startup, wrapped to
/// 32 bits.
pub fn attitude(payload: &MspAttitude, elapsed_us: u64) -> (message: Attitude)
    ensures
        message == (Attitude {
            time_boot_ms: (elapsed_us / 1000 % 0x1_0000_0000) as u32,
            roll_decidegrees: payload.angx as i32,
            pitch_decidegrees: (-payload.angy) as i32,
            yaw_degrees: payload.heading as i32,
        }),
{
    Attitude {
        time_boot_ms: (elapsed_us / 1000 % 0x1_0000_0000) as u32,
        roll_decidegrees: payload.angx as i32,
        pitch_decidegrees: -(payload.angy as i32),
        yaw_degrees: payload.heading as i32,
    }
}

} // verus!
