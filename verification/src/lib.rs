//! Bridge logic between a line-oriented serial device and an MQTT broker.
//!
//! Serial readings arrive as newline-delimited JSON, are relabeled and
//! republished to MQTT topics; commands arrive over MQTT and are unwrapped
//! and written to the serial side.  The modules here hold the decision and
//! translation logic of the bridge; the asynchronous transports around it
//! hand in plain values (bytes, strings, clock readings) and carry out the
//! actions these functions return.

pub mod channel;
pub mod jsonio;
pub mod lines;
pub mod dispatch;
pub mod health;
pub mod publisher;
pub mod queue;
pub mod reader;
pub mod serial;
pub mod timing;
pub mod writer;
