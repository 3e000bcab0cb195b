//! Bridge logic between a flight controller that speaks MSP and a ground
//! station that speaks MAVLink: the MSP frame codec, the periodic scheduler
//! and the dispatch decisions. Nothing here performs I/O; callers hand in
//! bytes, clock readings and received messages as plain values.

pub mod checksum;
pub mod dispatch;
pub mod msp;
pub mod parser;
pub mod payload;
pub mod scheduler;
pub mod translator;
pub mod wire;
