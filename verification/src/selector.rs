//! The adapter selector: pick one radio adapter from the host's enumeration.

use vstd::prelude::*;

use crate::errors::ScanError;

verus! {

/// Handle to one enumerated radio adapter: its position in the host's
/// enumeration order. The driver that enumerated keeps the real handles and
/// indexes into them with this.
#[derive(Clone, Copy, PartialEq, Eq, Structural, Debug)]
pub struct AdapterId {
    pub index: usize,
}

/// The host's adapter enumeration call itself errored.
#[derive(Clone, Copy, Debug)]
pub struct EnumerationFault;

/// Deterministically select the first adapter in enumeration order. Fails
/// with `AdapterEnumerationFailed` when the enumeration itself errored, and
/// with `NoAdapterFound` when it listed no adapter.
pub fn select_adapter(enumeration: Result<Vec<AdapterId>, EnumerationFault>) -> (r: Result<
    AdapterId,
    ScanError,
>)
    ensures
        match enumeration {
            Ok(v) => if v@.len() == 0 {
                r == Result::<AdapterId, ScanError>::Err(ScanError::NoAdapterFound)
            } else {
                r == Result::<AdapterId, ScanError>::Ok(v@[0])
            },
            Err(_) => r == Result::<AdapterId, ScanError>::Err(
                ScanError::AdapterEnumerationFailed,
            ),
        },
{
    match enumeration {
        Err(_) => Err(ScanError::AdapterEnumerationFailed),
        Ok(v) => {
            if v.len() == 0 {
                Err(ScanError::NoAdapterFound)
            } else {
                Ok(v[0])
            }
        },
    }
}

} // verus!
