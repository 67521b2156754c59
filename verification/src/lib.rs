//! Protocol logic and application state for AK-series motor drivers.

pub mod app;
pub mod bytes;
pub mod can_worker;
pub mod crc;
pub mod framing;
pub mod link;
pub mod mit_protocol;
pub mod protocol;
pub mod serial_worker;
pub mod servo_can;
pub mod single;
pub mod text;
