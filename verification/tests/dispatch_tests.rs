use msp_bridge::dispatch::{frequency_of, Dispatcher, Inbound, Reaction, Received, Step};
use msp_bridge::payload::{MspAttitude, MspRawImu};
use msp_bridge::scheduler::ScheduleError;
use msp_bridge::translator::{
    attitude, heartbeat, lookup, param_value, raw_imu, Attitude, Generator, Heartbeat, RawImu,
};

#[test]
fn message_interval_programs_the_schedule() {
    let mut dispatcher = Dispatcher::new(200, 0).unwrap();
    assert_eq!(dispatcher.schedule().count(&0), 1);
    let reaction = dispatcher.handle(Received::Message(Inbound::MessageInterval {
        message_id: 30,
        interval_us: 33333,
    }));
    assert_eq!(reaction, Reaction::Scheduled { message_id: 30, frequency: 30 });
    assert_eq!(dispatcher.schedule().count(&30), 30);
    assert_eq!(dispatcher.schedule().count(&0), 1);
}

#[test]
fn frequency_is_rounded_to_the_nearest_hertz() {
    assert_eq!(frequency_of(33_333), 30);
    assert_eq!(frequency_of(1_000_000), 1);
    assert_eq!(frequency_of(100_000), 10);
    assert_eq!(frequency_of(400_000), 3); // 2.5 Hz, halves upwards
    assert_eq!(frequency_of(666_667), 1); // 1.4999 Hz
    assert_eq!(frequency_of(2_000_000), 1); // 0.5 Hz
    assert_eq!(frequency_of(2_000_001), 0);
    assert_eq!(frequency_of(1), 1_000_000);
    assert_eq!(frequency_of(3), 333_333);
    assert_eq!(frequency_of(i32::MAX), 0);
}

#[test]
fn a_negative_interval_asks_for_no_messages() {
    assert_eq!(frequency_of(-1), 0);
    assert_eq!(frequency_of(i32::MIN), 0);
    let mut dispatcher = Dispatcher::new(50, 0).unwrap();
    dispatcher.handle(Received::Message(Inbound::MessageInterval {
        message_id: 27,
        interval_us: 100_000,
    }));
    assert_eq!(dispatcher.schedule().count(&27), 10);
    let reaction = dispatcher.handle(Received::Message(Inbound::MessageInterval {
        message_id: 27,
        interval_us: -1,
    }));
    assert_eq!(reaction, Reaction::Scheduled { message_id: 27, frequency: 0 });
    assert_eq!(dispatcher.schedule().count(&27), 0);
    assert_eq!(dispatcher.schedule().count(&0), 1);
}

#[test]
fn a_request_that_does_not_fit_is_rejected() {
    assert_eq!(frequency_of(0), u32::MAX);
    let mut dispatcher = Dispatcher::new(50, 0).unwrap();
    let before = dispatcher.schedule().display();
    let reaction = dispatcher.handle(Received::Message(Inbound::MessageInterval {
        message_id: 30,
        interval_us: 0,
    }));
    assert_eq!(reaction, Reaction::Rejected { message_id: 30, frequency: u32::MAX });
    assert_eq!(dispatcher.schedule().display(), before);
    // 50 occurrences do not fit beside the heartbeat
    let reaction = dispatcher.handle(Received::Message(Inbound::MessageInterval {
        message_id: 30,
        interval_us: 20_000,
    }));
    assert_eq!(reaction, Reaction::Rejected { message_id: 30, frequency: 50 });
    assert_eq!(dispatcher.schedule().display(), before);
    assert_eq!(dispatcher.schedule().count(&30), 0);
}

#[test]
fn other_messages_leave_the_schedule_alone() {
    let mut dispatcher = Dispatcher::new(50, 0).unwrap();
    let before = dispatcher.schedule().display();
    assert_eq!(dispatcher.handle(Received::Message(Inbound::Heartbeat)), Reaction::Ignore);
    assert_eq!(dispatcher.handle(Received::Message(Inbound::DataStream)), Reaction::Log);
    assert_eq!(dispatcher.handle(Received::Message(Inbound::Other)), Reaction::Ignore);
    assert_eq!(dispatcher.handle(Received::WouldBlock), Reaction::Ignore);
    assert_eq!(dispatcher.handle(Received::Failed), Reaction::Fatal);
    assert_eq!(dispatcher.schedule().display(), before);
}

#[test]
fn a_dispatcher_needs_a_slot_for_the_heartbeat() {
    assert!(matches!(Dispatcher::new(0, 0), Err(ScheduleError::Conflict)));
    let dispatcher = Dispatcher::new(1, 0).unwrap();
    assert_eq!(dispatcher.schedule().display(), "#");
    let dispatcher = Dispatcher::new(5, 0).unwrap();
    assert_eq!(dispatcher.schedule().display(), "#----");
}

#[test]
fn poll_yields_the_heartbeat_once_per_second() {
    let mut dispatcher = Dispatcher::new(50, 7_000_000).unwrap();
    assert_eq!(dispatcher.poll(7_000_000), Step::Receive);
    assert_eq!(dispatcher.poll(7_019_999), Step::Receive);
    assert_eq!(dispatcher.poll(7_020_000), Step::Generate(Generator::Heartbeat));
    assert_eq!(dispatcher.poll(7_020_000), Step::Receive);
    assert_eq!(dispatcher.poll(8_019_999), Step::Receive);
    assert_eq!(dispatcher.poll(8_020_000), Step::Generate(Generator::Heartbeat));
}

#[test]
fn poll_reports_a_task_without_generator() {
    let mut dispatcher = Dispatcher::new(4, 0).unwrap();
    dispatcher.handle(Received::Message(Inbound::MessageInterval {
        message_id: 33,
        interval_us: 1_000_000,
    }));
    dispatcher.handle(Received::Message(Inbound::MessageInterval {
        message_id: 30,
        interval_us: 1_000_000,
    }));
    assert_eq!(dispatcher.poll(250_000), Step::Generate(Generator::Heartbeat));
    assert_eq!(dispatcher.poll(500_000), Step::Unregistered(33));
    assert_eq!(dispatcher.poll(750_000), Step::Generate(Generator::Attitude));
    assert_eq!(dispatcher.poll(1_000_000), Step::Receive);
}

#[test]
fn registry_of_generators() {
    assert_eq!(lookup(0), Some(Generator::Heartbeat));
    assert_eq!(lookup(22), Some(Generator::ParamValue));
    assert_eq!(lookup(27), Some(Generator::RawImu));
    assert_eq!(lookup(30), Some(Generator::Attitude));
    assert_eq!(lookup(1), None);
    assert_eq!(lookup(44), None);
    assert_eq!(lookup(u32::MAX), None);
    for generator in [
        Generator::Heartbeat,
        Generator::ParamValue,
        Generator::RawImu,
        Generator::Attitude,
    ] {
        assert_eq!(lookup(generator.message_id()), Some(generator));
    }
    assert_eq!(Generator::Heartbeat.source(), None);
    assert_eq!(Generator::ParamValue.source(), None);
    assert_eq!(Generator::RawImu.source(), Some(102));
    assert_eq!(Generator::Attitude.source(), Some(108));
}

#[test]
fn heartbeat_is_a_generic_vehicle_in_standby() {
    assert_eq!(
        heartbeat(),
        Heartbeat {
            custom_mode: 0,
            mavtype: 0,
            autopilot: 6,
            base_mode: 0,
            system_status: 3,
            mavlink_version: 3,
        }
    );
}

#[test]
fn param_value_is_a_placeholder() {
    let message = param_value();
    assert_eq!(message.param_value_bits, 0);
    assert_eq!(f32::from_bits(message.param_value_bits), 0.0);
    assert_eq!(message.param_count, 0);
    assert_eq!(message.param_index, 0);
    assert_eq!(message.param_id, [b' '; 16]);
    assert_eq!(message.param_type, 1);
}

#[test]
fn raw_imu_passes_the_readings_on() {
    let payload = MspRawImu {
        accx: 1,
        accy: -2,
        accz: 3,
        gyrx: -4,
        gyry: 5,
        gyrz: -6,
        magx: 7,
        magy: -8,
        magz: i16::MIN,
    };
    assert_eq!(
        raw_imu(&payload, 123_456_789),
        RawImu {
            time_usec: 123_456_789,
            xacc: 1,
            yacc: -2,
            zacc: 3,
            xgyro: -4,
            ygyro: 5,
            zgyro: -6,
            xmag: 7,
            ymag: -8,
            zmag: i16::MIN,
        }
    );
}

#[test]
fn attitude_inverts_the_pitch() {
    let payload = MspAttitude { angx: 105, angy: 250, heading: 270 };
    assert_eq!(
        attitude(&payload, 5_000_999),
        Attitude {
            time_boot_ms: 5000,
            roll_decidegrees: 105,
            pitch_decidegrees: -250,
            yaw_degrees: 270,
        }
    );
    let payload = MspAttitude { angx: -1800, angy: i16::MIN, heading: -90 };
    assert_eq!(
        attitude(&payload, 0),
        Attitude {
            time_boot_ms: 0,
            roll_decidegrees: -1800,
            pitch_decidegrees: 32768,
            yaw_degrees: -90,
        }
    );
    // the time wraps at 32 bits of milliseconds
    let payload = MspAttitude { angx: 0, angy: 0, heading: 0 };
    assert_eq!(attitude(&payload, (1u64 << 32) * 1000 + 42_000).time_boot_ms, 42);
    // the derived message in radians
    let message = attitude(&MspAttitude { angx: 1800, angy: 900, heading: 180 }, 0);
    let roll = (message.roll_decidegrees as f64 / 10.).to_radians() as f32;
    let pitch = (message.pitch_decidegrees as f64 / 10.).to_radians() as f32;
    let yaw = (message.yaw_degrees as f64).to_radians() as f32;
    assert!((roll - std::f32::consts::PI).abs() < 1e-6);
    assert!((pitch + std::f32::consts::FRAC_PI_2).abs() < 1e-6);
    assert!((yaw - std::f32::consts::PI).abs() < 1e-6);
}
