//! The session's error taxonomy.

use vstd::prelude::*;

verus! {

/// Why a scan session failed. Every fallible host operation has a named
/// variant; the caller receives exactly one of these when the session does
/// not produce a device list.
#[derive(Clone, Copy, PartialEq, Eq, Structural, Debug)]
pub enum ScanError {
    /// Enumerating the host's radio adapters itself errored.
    AdapterEnumerationFailed,
    /// Enumeration succeeded but listed no adapter.
    NoAdapterFound,
    /// The host refused to start the hardware scan.
    ScanStartFailed,
    /// The discovery event stream could not be subscribed to.
    EventStreamUnavailable,
    /// A discovered identity's properties could not be resolved.
    PropertyResolutionFailed,
    /// The host refused to stop the hardware scan.
    ScanStopFailed,
}

impl ScanError {
    /// The human-readable message a caller receives in place of a structured
    /// code.
    pub open spec fn spec_message(self) -> Seq<char> {
        match self {
            ScanError::AdapterEnumerationFailed => "Adapter enumeration failed"@,
            ScanError::NoAdapterFound => "No Bluetooth adapters found"@,
            ScanError::ScanStartFailed => "Failed to start scan"@,
            ScanError::EventStreamUnavailable => "Discovery event stream unavailable"@,
            ScanError::PropertyResolutionFailed => "Failed to resolve peripheral properties"@,
            ScanError::ScanStopFailed => "Failed to stop scan"@,
        }
    }

    /// The message as an owned string.
    pub fn message(&self) -> (r: String)
        ensures
            r@ == self.spec_message(),
    {
        match self {
            ScanError::AdapterEnumerationFailed => "Adapter enumeration failed".to_owned(),
            ScanError::NoAdapterFound => "No Bluetooth adapters found".to_owned(),
            ScanError::ScanStartFailed => "Failed to start scan".to_owned(),
            ScanError::EventStreamUnavailable => "Discovery event stream unavailable".to_owned(),
            ScanError::PropertyResolutionFailed => "Failed to resolve peripheral properties".to_owned(),
            ScanError::ScanStopFailed => "Failed to stop scan".to_owned(),
        }
    }
}

} // verus!
