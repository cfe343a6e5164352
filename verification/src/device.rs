//! The values a scan session works with: devices, observations, identities.

use vstd::prelude::*;

verus! {

/// What the registry records of one discovered peripheral: a human-readable
/// name and the stable hardware address that identifies the device.
#[derive(Debug)]
pub struct Device {
    pub name: String,
    pub address: String,
}

/// Mathematical image of a [`Device`]: both fields as character sequences.
#[verifier::ext_equal]
pub ghost struct DeviceView {
    pub name: Seq<char>,
    pub address: Seq<char>,
}

impl View for Device {
    type V = DeviceView;

    open spec fn view(&self) -> DeviceView {
        DeviceView { name: self.name@, address: self.address@ }
    }
}

impl Device {
    /// An equal, independently owned copy; `snapshot` hands these out while
    /// the registry keeps its own entries.
    pub fn duplicate(&self) -> (r: Device)
        ensures
            r@ == self@,
    {
        Device { name: self.name.clone(), address: self.address.clone() }
    }
}

/// One discovery observation: the observed identity's address, and a name
/// when the radio supplied one.
#[derive(Debug)]
pub struct Observation {
    pub address: String,
    pub name: Option<String>,
}

/// Mathematical image of an [`Observation`].
#[verifier::ext_equal]
pub ghost struct ObservationView {
    pub address: Seq<char>,
    pub name: Option<Seq<char>>,
}

impl View for Observation {
    type V = ObservationView;

    open spec fn view(&self) -> ObservationView {
        ObservationView {
            address: self.address@,
            name: match self.name {
                Some(n) => Some(n@),
                None => None,
            },
        }
    }
}

impl Observation {
    /// An equal, independently owned copy, so that an observation carried
    /// inside a borrowed host event can be fed to the registry.
    pub fn duplicate(&self) -> (r: Observation)
        ensures
            r@ == self@,
    {
        Observation {
            address: self.address.clone(),
            name: match &self.name {
                Some(n) => Some(n.clone()),
                None => None,
            },
        }
    }
}

/// Opaque token under which the host radio layer hands out a discovered
/// identity; the session carries it back when asking for that identity's
/// properties.
#[derive(Clone, Copy, PartialEq, Eq, Structural, Debug)]
pub struct DeviceId(pub u64);

} // verus!
