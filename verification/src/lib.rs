//! Core of a race-timing bridge: it turns raw serial sentences from timing
//! hardware into typed events, dispatches typed commands from a message bus,
//! keeps a bounded session log, watches device liveness, and drives the
//! cooperative shutdown of the workers around it.  Everything here is pure
//! logic over plain values; the serial port, the bus and the terminal live in
//! the unverified shell around this library.

pub mod command;
pub mod device;
pub mod event;
pub mod heartbeat;
pub mod parse;
pub mod session;
pub mod text;
pub mod worker;
