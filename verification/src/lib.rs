//! Acquisition core for a serial CO2 concentration sensor.
//!
//! The crate holds the device's framing, the readings and their log lines,
//! and the polling state machine. It performs no I/O: a driver opens the
//! port, moves the bytes, appends to the log and sleeps, and tells the
//! sensor what came of each step.

pub mod frame;
pub mod text;
pub mod timestamp;
pub mod reading;
pub mod log;
pub mod config;
pub mod clock;
pub mod event;
pub mod machine;
pub mod mock;
pub mod sensor;
pub mod laws;
