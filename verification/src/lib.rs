//! Verified core of a UPS monitor: the framing codec for the device's
//! fixed-size HID reports, the bounded-retry exchange policy, the positional
//! status decoder, and the monitoring state machine that decides when to
//! alert and when to shut the host down.

use vstd::prelude::*;

pub mod codec;
pub mod decode;
pub mod errors;
pub mod exchange;
pub mod mailer;
pub mod monitor;
pub mod parse;
pub mod status;

verus! {

/// Byte that ends every variable-length reply from the device.
pub const TERMINATOR: u8 = 13;

/// Byte that separates fields inside a reply.
pub const SEPARATOR: u8 = 32;

/// First reply byte of the protocol-identity query on a supported device.
pub const PROTOCOL_ID: u8 = 72;

/// Payload bytes carried by one HID report.
pub const MAX_DATA_LENGTH: usize = 8;

/// Ceiling on reads per receive attempt and on drained stale reports.
pub const MAX_DATA_LOOP: usize = 20;

/// Attempt ceiling of the retry controller.
pub const RETRIES: usize = 3;

} // verus!
