//! The result exporter: the registry's contents as an ordered list for the
//! caller, decoupling the serialization boundary from the registry's
//! representation.

use vstd::prelude::*;

use crate::device::Device;
use crate::registry::Registry;

verus! {

/// The final device list: every registry entry, in first-discovery order.
pub fn export(registry: &Registry) -> (r: Vec<Device>)
    ensures
        r@.map_values(|d: Device| d@) == registry@,
{
    registry.snapshot()
}

} // verus!
