//! Driver-side logic for a bank of four-character alphanumeric displays, a
//! host-facing serial byte protocol, and persistence of the last shown
//! message in NOR flash.
//!
//! The crate models the three cores of the system — the multi-display
//! scrolling renderer, the interrupt-fed receive buffer, and the flash
//! persistence manager — over plain values, so that every decision they make
//! is verified.  The bus transactions themselves (I2C writes to the display
//! controllers, QSPI commands to the flash part, USB reads) are performed by
//! a thin unverified shell that consumes the frames, messages and operation
//! plans this crate produces.

pub mod alphanum;
pub mod flash;
pub mod rx_buffer;
