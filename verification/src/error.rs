//! Errors of device operations.

use std::time::Duration;

use vstd::prelude::*;

verus! {

/// Why an operation failed.
#[allow(inconsistent_fields)]
#[derive(Debug)]
pub enum Error {
    /// No connected device matches.
    DeviceNotFound,
    /// The device did not answer as it should.
    DeviceUnavailable,
    /// A USB transfer failed.
    Transfer(nusb::transfer::TransferError),
    /// An operation did not finish within this time.
    Timeout(Duration),
    /// An argument is out of range.
    InvalidArgument(&'static str),
    /// The chip cannot come close enough to the requested baud rate.
    UnsupportedBaudRate { requested: u32, actual: u32 },
    /// A write transferred fewer or more bytes than were submitted.
    ShortWrite { expected: usize, actual: usize },
    /// A write made no progress.
    WriteZero,
    /// An earlier operation was interrupted; the device has to be recovered
    /// before anything else is done with it.
    RecoveryRequired,
}

} // verus!
