//! The device registry: one entry per address, insertion order kept.

use vstd::prelude::*;

use crate::device::{Device, DeviceView, Observation, ObservationView};

verus! {

/// The sentinel name stored when the radio has never supplied one.
pub open spec fn unknown_name() -> Seq<char> {
    "Unknown"@
}

/// Index of the first entry carrying the given address, or `-1` when no
/// entry does.
pub open spec fn address_index(s: Seq<DeviceView>, addr: Seq<char>) -> int
    decreases s.len(),
{
    if s.len() == 0 {
        -1
    } else if s[0].address == addr {
        0
    } else {
        let tail = address_index(s.drop_first(), addr);
        if tail == -1 {
            -1
        } else {
            tail + 1
        }
    }
}

/// Whether some entry carries the given address.
pub open spec fn contains_address(s: Seq<DeviceView>, addr: Seq<char>) -> bool {
    address_index(s, addr) >= 0
}

/// `address_index` finds the least index carrying the address, and `-1`
/// exactly when the address is absent.
pub proof fn lemma_address_index(s: Seq<DeviceView>, addr: Seq<char>)
    ensures
        -1 <= address_index(s, addr) < s.len(),
        address_index(s, addr) == -1 <==> (forall|i: int|
            0 <= i < s.len() ==> s[i].address != addr),
        address_index(s, addr) >= 0 ==> s[address_index(s, addr)].address == addr,
        forall|j: int| 0 <= j < address_index(s, addr) ==> s[j].address != addr,
    decreases s.len(),
{
    if s.len() != 0 && s[0].address != addr {
        let t = s.drop_first();
        lemma_address_index(t, addr);
        assert(forall|i: int| 0 <= i < t.len() ==> #[trigger] t[i] == s[i + 1]);
        let ti = address_index(t, addr);
        if ti == -1 {
            assert forall|i: int| 0 <= i < s.len() implies s[i].address != addr by {
                if i >= 1 {
                    assert(s[i] == t[i - 1]);
                }
            }
        } else {
            assert(s[ti + 1] == t[ti]);
            assert forall|j: int| 0 <= j < ti + 1 implies s[j].address != addr by {
                if j >= 1 {
                    assert(s[j] == t[j - 1]);
                }
            }
        }
    }
}

/// No two entries carry the same address.
pub open spec fn distinct_addresses(s: Seq<DeviceView>) -> bool {
    forall|i: int, j: int| 0 <= i < j < s.len() ==> s[i].address != s[j].address
}

/// What one observation does to the registry's contents: a fresh address is
/// appended with the supplied name or the `"Unknown"` sentinel; a seen
/// address keeps its place, and keeps its stored name unless the observation
/// supplies a new one.
pub open spec fn spec_upsert(s: Seq<DeviceView>, obs: ObservationView) -> Seq<DeviceView> {
    let i = address_index(s, obs.address);
    if i >= 0 {
        let stored = match obs.name {
            Some(n) => n,
            None => s[i].name,
        };
        s.update(i, DeviceView { name: stored, address: obs.address })
    } else {
        let stored = match obs.name {
            Some(n) => n,
            None => unknown_name(),
        };
        s.push(DeviceView { name: stored, address: obs.address })
    }
}

/// A sequence of observations folded into the registry, first to last.
pub open spec fn spec_upsert_all(s: Seq<DeviceView>, obs: Seq<ObservationView>) -> Seq<DeviceView>
    decreases obs.len(),
{
    if obs.len() == 0 {
        s
    } else {
        spec_upsert_all(spec_upsert(s, obs[0]), obs.drop_first())
    }
}

/// In-memory, session-scoped collection of discovered devices, keyed by
/// address. Its view is the stored entry sequence in first-discovery order.
pub struct Registry {
    devices: Vec<Device>,
}

impl View for Registry {
    type V = Seq<DeviceView>;

    closed spec fn view(&self) -> Seq<DeviceView> {
        self.devices@.map_values(|d: Device| d@)
    }
}

/// Index of the first stored device whose address equals `address`.
fn find_index(devices: &Vec<Device>, address: &String) -> (r: Option<usize>)
    ensures
        match r {
            Some(i) => {
                &&& i < devices@.len()
                &&& devices@[i as int]@.address == address@
                &&& forall|j: int| 0 <= j < i ==> devices@[j]@.address != address@
            },
            None => forall|j: int|
                0 <= j < devices@.len() ==> devices@[j]@.address != address@,
        },
{
    let n = devices.len();
    let mut i: usize = 0;
    while i < n
        invariant
            n == devices@.len(),
            i <= n,
            forall|j: int| 0 <= j < i ==> devices@[j]@.address != address@,
        decreases n - i,
    {
        if devices[i].address == *address {
            return Some(i);
        }
        i = i + 1;
    }
    None
}

impl Registry {
    /// The registry invariant: entry addresses are pairwise distinct.
    pub open spec fn wf(&self) -> bool {
        distinct_addresses(self@)
    }

    /// An empty registry.
    pub fn new() -> (r: Registry)
        ensures
            r@ == Seq::<DeviceView>::empty(),
            r.wf(),
    {
        let devices: Vec<Device> = Vec::new();
        proof {
            assert(devices@.map_values(|d: Device| d@) =~= Seq::<DeviceView>::empty());
        }
        Registry { devices }
    }

    /// Feed one observation in: create the entry if the address is new,
    /// refine the stored name otherwise.
    pub fn upsert(&mut self, obs: Observation)
        requires
            old(self).wf(),
        ensures
            final(self).wf(),
            final(self)@ == spec_upsert(old(self)@, obs@),
    {
        let ghost o: ObservationView = obs@;
        proof {
            lemma_address_index(self@, o.address);
        }
        let Observation { address, name } = obs;
        match find_index(&self.devices, &address) {
            Some(i) => {
                proof {
                    let s = old(self)@;
                    assert(forall|j: int|
                        0 <= j < s.len() ==> #[trigger] s[j] == old(self).devices@[j]@);
                    let idx = address_index(s, o.address);
                    if idx == -1 {
                        assert(s[i as int].address == o.address);
                        assert(false);
                    } else if idx < i as int {
                        assert(old(self).devices@[idx]@.address != o.address);
                        assert(s[idx].address == o.address);
                        assert(false);
                    } else if idx > i as int {
                        assert(s[i as int].address != o.address);
                        assert(false);
                    }
                    assert(address_index(s, o.address) == i as int);
                }
                match name {
                    Some(n) => {
                        let entry = Device { name: n, address };
                        let ghost target = spec_upsert(old(self)@, o);
                        self.devices[i] = entry;
                        proof {
                            assert(self@ =~= target);
                        }
                    },
                    None => {
                        proof {
                            let s = old(self)@;
                            let idx = i as int;
                            assert(DeviceView { name: s[idx].name, address: o.address }
                                =~= s[idx]);
                            assert(spec_upsert(s, o) =~= s);
                        }
                    },
                }
            },
            None => {
                proof {
                    let s = old(self)@;
                    assert(forall|j: int|
                        0 <= j < s.len() ==> #[trigger] s[j] == old(self).devices@[j]@);
                    let idx = address_index(s, o.address);
                    if idx >= 0 {
                        assert(s[idx].address == o.address);
                        assert(false);
                    }
                }
                let stored_name = match name {
                    Some(n) => n,
                    None => "Unknown".to_owned(),
                };
                let entry = Device { name: stored_name, address };
                let ghost target = spec_upsert(old(self)@, o);
                self.devices.push(entry);
                proof {
                    assert(self@ =~= target);
                }
            },
        }
        proof {
            lemma_upsert_distinct(old(self)@, o);
        }
    }

    /// All entries, in first-discovery order. Pure: repeated calls return
    /// the same sequence.
    pub fn snapshot(&self) -> (r: Vec<Device>)
        ensures
            r@.map_values(|d: Device| d@) == self@,
    {
        let n = self.devices.len();
        let mut out: Vec<Device> = Vec::new();
        let mut i: usize = 0;
        while i < n
            invariant
                n == self.devices@.len(),
                i <= n,
                out@.len() == i,
                forall|j: int| 0 <= j < i ==> #[trigger] out@[j]@ == self@[j],
            decreases n - i,
        {
            let d = self.devices[i].duplicate();
            out.push(d);
            i = i + 1;
        }
        proof {
            assert(out@.map_values(|d: Device| d@) =~= self@);
        }
        out
    }
}

/// Identity uniqueness is preserved by every single observation.
pub proof fn lemma_upsert_distinct(s: Seq<DeviceView>, obs: ObservationView)
    requires
        distinct_addresses(s),
    ensures
        distinct_addresses(spec_upsert(s, obs)),
{
    lemma_address_index(s, obs.address);
}

/// A witness index below which the address does not occur pins down
/// `address_index`.
proof fn lemma_address_index_pinpoint(s: Seq<DeviceView>, addr: Seq<char>, i: int)
    requires
        0 <= i < s.len(),
        s[i].address == addr,
        forall|j: int| 0 <= j < i ==> s[j].address != addr,
    ensures
        address_index(s, addr) == i,
{
    lemma_address_index(s, addr);
    let idx = address_index(s, addr);
    if idx == -1 {
        assert(s[i].address == addr);
        assert(false);
    } else if idx < i {
        assert(s[idx].address != addr);
        assert(false);
    } else if idx > i {
        assert(s[i].address != addr);
        assert(false);
    }
}

/// Identity uniqueness: however long the observation sequence fed to the
/// registry, its contents hold at most one entry per distinct address.
pub proof fn lemma_identity_uniqueness(s: Seq<DeviceView>, obs: Seq<ObservationView>)
    requires
        distinct_addresses(s),
    ensures
        distinct_addresses(spec_upsert_all(s, obs)),
    decreases obs.len(),
{
    if obs.len() != 0 {
        lemma_upsert_distinct(s, obs[0]);
        lemma_identity_uniqueness(spec_upsert(s, obs[0]), obs.drop_first());
    }
}

/// Name non-regression: a named observation of an address followed by a
/// nameless re-observation of the same address leaves the learned name in
/// place — it does not fall back to the sentinel.
pub proof fn lemma_name_non_regression(s: Seq<DeviceView>, addr: Seq<char>, nm: Seq<char>)
    requires
        distinct_addresses(s),
    ensures
        ({
            let s1 = spec_upsert(s, ObservationView { address: addr, name: Some(nm) });
            let s2 = spec_upsert(s1, ObservationView { address: addr, name: None });
            &&& contains_address(s2, addr)
            &&& s2[address_index(s2, addr)].name == nm
        }),
{
    lemma_address_index(s, addr);
    let i0 = address_index(s, addr);
    let entry = DeviceView { name: nm, address: addr };
    let s1 = spec_upsert(s, ObservationView { address: addr, name: Some(nm) });
    if i0 >= 0 {
        assert(s1 == s.update(i0, entry));
        lemma_address_index_pinpoint(s1, addr, i0);
        let s2 = spec_upsert(s1, ObservationView { address: addr, name: None });
        assert(s2 == s1.update(i0, DeviceView { name: s1[i0].name, address: addr }));
        lemma_address_index_pinpoint(s2, addr, i0);
    } else {
        let i1 = s.len() as int;
        assert(s1 == s.push(entry));
        assert(s1[i1] == entry);
        lemma_address_index_pinpoint(s1, addr, i1);
        let s2 = spec_upsert(s1, ObservationView { address: addr, name: None });
        assert(s2 == s1.update(i1, DeviceView { name: s1[i1].name, address: addr }));
        lemma_address_index_pinpoint(s2, addr, i1);
    }
}

/// Default naming: a nameless observation of an unseen address appends an
/// entry carrying the sentinel name.
pub proof fn lemma_default_name(s: Seq<DeviceView>, addr: Seq<char>)
    requires
        !contains_address(s, addr),
    ensures
        spec_upsert(s, ObservationView { address: addr, name: None })
            == s.push(DeviceView { name: unknown_name(), address: addr }),
{
}

/// The entry addresses, in stored order.
pub open spec fn addresses_of(s: Seq<DeviceView>) -> Seq<Seq<char>> {
    s.map_values(|d: DeviceView| d.address)
}

/// The distinct addresses of an observation sequence, in first-observation
/// order, appended to an accumulator.
pub open spec fn first_seen_from(
    acc: Seq<Seq<char>>,
    obs: Seq<ObservationView>,
) -> Seq<Seq<char>>
    decreases obs.len(),
{
    if obs.len() == 0 {
        acc
    } else {
        let acc2 = if acc.contains(obs[0].address) {
            acc
        } else {
            acc.push(obs[0].address)
        };
        first_seen_from(acc2, obs.drop_first())
    }
}

/// The distinct addresses of an observation sequence, in first-observation
/// order.
pub open spec fn first_seen(obs: Seq<ObservationView>) -> Seq<Seq<char>> {
    first_seen_from(Seq::<Seq<char>>::empty(), obs)
}

/// Holding an address and listing it among the entry addresses agree.
proof fn lemma_contains_bridge(s: Seq<DeviceView>, addr: Seq<char>)
    ensures
        contains_address(s, addr) <==> addresses_of(s).contains(addr),
{
    lemma_address_index(s, addr);
    if contains_address(s, addr) {
        let i = address_index(s, addr);
        assert(addresses_of(s)[i] == addr);
        assert(addresses_of(s).contains(addr));
    } else if addresses_of(s).contains(addr) {
        let i = choose|i: int|
            0 <= i < addresses_of(s).len() && addresses_of(s)[i] == addr;
        assert(s[i].address == addr);
        assert(false);
    }
}

/// One observation keeps the address order: a seen address changes nothing
/// of the order, an unseen one is appended.
proof fn lemma_upsert_addresses(s: Seq<DeviceView>, obs: ObservationView)
    ensures
        addresses_of(spec_upsert(s, obs)) == if contains_address(s, obs.address) {
            addresses_of(s)
        } else {
            addresses_of(s).push(obs.address)
        },
{
    lemma_address_index(s, obs.address);
    if contains_address(s, obs.address) {
        assert(addresses_of(spec_upsert(s, obs)) =~= addresses_of(s));
    } else {
        assert(addresses_of(spec_upsert(s, obs)) =~= addresses_of(s).push(obs.address));
    }
}

proof fn lemma_insertion_order_from(s: Seq<DeviceView>, obs: Seq<ObservationView>)
    ensures
        addresses_of(spec_upsert_all(s, obs)) == first_seen_from(addresses_of(s), obs),
    decreases obs.len(),
{
    if obs.len() != 0 {
        lemma_upsert_addresses(s, obs[0]);
        lemma_contains_bridge(s, obs[0].address);
        lemma_insertion_order_from(spec_upsert(s, obs[0]), obs.drop_first());
    }
}

/// Insertion-order stability: after any observation sequence, the registry
/// lists addresses exactly in first-observation order, however often each
/// device was re-observed.
pub proof fn lemma_insertion_order(obs: Seq<ObservationView>)
    ensures
        addresses_of(spec_upsert_all(Seq::<DeviceView>::empty(), obs)) == first_seen(obs),
{
    assert(addresses_of(Seq::<DeviceView>::empty()) =~= Seq::<Seq<char>>::empty());
    lemma_insertion_order_from(Seq::<DeviceView>::empty(), obs);
}

} // verus!
