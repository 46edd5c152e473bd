//! The GSM modem: the packet that carries the readings, the AT dialogue, and the session.
pub mod at;
pub mod crc;
pub mod packet;
pub mod session;
