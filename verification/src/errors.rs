//! The closed error type of the driver.

use vstd::prelude::*;

verus! {

/// One variant per failure kind of an exchange with the device.
///
/// `Timeout` is the only retryable kind: the device returned no data within
/// the per-read deadline. `Hid` stands for a transport fault of the device
/// layer. `ParseInt`, `ParseFloat` and `Utf8` are malformed-response kinds: a
/// numeric field did not parse or a reply was not valid text. `Unknown`
/// covers an exchange that met no stop condition within its budget and an
/// operation attempted without an open device.
#[derive(Clone, Copy, Debug, PartialEq, Eq, Structural)]
pub enum UPSError {
    Timeout,
    Unknown,
    Hid,
    ParseInt,
    ParseFloat,
    Utf8,
}

} // verus!
