//! The registry of discovered peers, keyed by device id.

use vstd::prelude::*;

verus! {

/// mDNS service type advertised and browsed.
pub const SERVICE_TYPE: &'static str = "_lan-meeting._udp.local.";

/// UDP port of the service.
pub const SERVICE_PORT: u16 = 19876;

/// Presence of a peer.
#[derive(Debug, Clone, Copy, PartialEq, Eq, Structural)]
pub enum DeviceStatus {
    Online,
    Busy,
    Offline,
}

/// A peer on the local network.
#[derive(Debug)]
pub struct DiscoveredDevice {
    pub id: String,
    pub name: String,
    pub ip: String,
    pub port: u16,
    pub status: DeviceStatus,
    pub last_seen: u64,
    pub is_sharing: bool,
}

impl DiscoveredDevice {
    /// A field-by-field copy.
    pub fn duplicate(&self) -> (r: Self)
        ensures
            r == *self,
    {
        DiscoveredDevice {
            id: self.id.clone(),
            name: self.name.clone(),
            ip: self.ip.clone(),
            port: self.port,
            status: self.status,
            last_seen: self.last_seen,
            is_sharing: self.is_sharing,
        }
    }
}

/// Whether no two devices of `s` share an id.
pub open spec fn unique_ids(s: Seq<DiscoveredDevice>) -> bool {
    forall|i: int, j: int| 0 <= i < s.len() && 0 <= j < s.len() && i != j ==> #[trigger] s[i].id@ != #[trigger] s[j].id@
}

/// Whether a device of `s` has id `id`.
pub open spec fn has_id(s: Seq<DiscoveredDevice>, id: Seq<char>) -> bool {
    exists|i: int| 0 <= i < s.len() && #[trigger] s[i].id@ == id
}

/// The devices of `s` whose address is not `ip`, in order.
pub open spec fn without_ip(s: Seq<DiscoveredDevice>, ip: Seq<char>) -> Seq<DiscoveredDevice>
    decreases s.len(),
{
    if s.len() == 0 {
        s
    } else if s.last().ip@ != ip {
        without_ip(s.drop_last(), ip).push(s.last())
    } else {
        without_ip(s.drop_last(), ip)
    }
}

/// Index of the first device of `s` at address `ip`, or `s.len()`.
pub open spec fn first_with_ip(s: Seq<DiscoveredDevice>, ip: Seq<char>) -> int
    decreases s.len(),
{
    if s.len() == 0 {
        0
    } else if s[0].ip@ == ip {
        0
    } else {
        1 + first_with_ip(s.drop_first(), ip)
    }
}

/// The first eight characters of an id (all of it when shorter).
pub open spec fn id_prefix(id: Seq<char>) -> Seq<char> {
    if id.len() < 8 {
        id
    } else {
        id.subrange(0, 8)
    }
}

/// Whether `t` occurs in `s` at position `k`.
pub open spec fn occurs_at(s: Seq<char>, t: Seq<char>, k: int) -> bool {
    0 <= k && k + t.len() <= s.len() && s.subrange(k, k + t.len()) == t
}

/// Whether `t` occurs in `s`.
pub open spec fn contains_seq(s: Seq<char>, t: Seq<char>) -> bool {
    exists|k: int| #[trigger] occurs_at(s, t, k)
}

proof fn lemma_first_with_ip_is(s: Seq<DiscoveredDevice>, ip: Seq<char>, i: int)
    requires
        0 <= i <= s.len(),
        i < s.len() ==> s[i].ip@ == ip,
        forall|k: int| 0 <= k < i ==> (#[trigger] s[k]).ip@ != ip,
    ensures
        first_with_ip(s, ip) == i,
    decreases s.len(),
{
    if s.len() > 0 && i > 0 {
        assert(s[0].ip@ != ip);
        assert forall|k: int| 0 <= k < i - 1 implies (#[trigger] s.drop_first()[k]).ip@ != ip by {
            assert(s.drop_first()[k] == s[k + 1]);
        }
        lemma_first_with_ip_is(s.drop_first(), ip, i - 1);
    }
}

/// Whether two strings hold the same characters.
fn same_text(a: &str, b: &str) -> (r: bool)
    ensures
        r == (a@ == b@),
{
    let a_owned = a.to_owned();
    let b_owned = b.to_owned();
    a_owned == b_owned
}

/// Whether `t` occurs in `s`.
pub fn contains_text(s: &str, t: &str) -> (r: bool)
    ensures
        r == contains_seq(s@, t@),
{
    let n = s.unicode_len();
    let m = t.unicode_len();
    if m > n {
        assert forall|k: int| !occurs_at(s@, t@, k) by {}
        return false;
    }
    let mut k: usize = 0;
    while k <= n - m
        invariant
            n == s@.len(),
            m == t@.len(),
            m <= n,
            forall|j: int| 0 <= j < k ==> !#[trigger] occurs_at(s@, t@, j),
        decreases n - m + 1 - k,
    {
        let mut q: usize = 0;
        let mut matched = true;
        while q < m
            invariant
                n == s@.len(),
                m == t@.len(),
                k + m <= n,
                q <= m,
                matched == (forall|p: int| 0 <= p < q ==> s@[k + p] == t@[p]),
            decreases m - q,
        {
            if s.get_char(k + q) != t.get_char(q) {
                matched = false;
            }
            q = q + 1;
        }
        if matched {
            assert(s@.subrange(k as int, k + m) =~= t@);
            assert(occurs_at(s@, t@, k as int));
            return true;
        }
        proof {
            if occurs_at(s@, t@, k as int) {
                assert forall|p: int| 0 <= p < m implies s@[k + p] == t@[p] by {
                    assert(s@.subrange(k as int, k + m)[p] == s@[k + p]);
                }
            }
        }
        k = k + 1;
    }
    assert forall|j: int| !occurs_at(s@, t@, j) by {
        if j >= k {
            assert(j + t@.len() > s@.len());
        }
    }
    false
}

/// The peers currently known, with unique ids, in order of first addition.
pub struct DeviceRegistry {
    devices: Vec<DiscoveredDevice>,
}

impl View for DeviceRegistry {
    type V = Seq<DiscoveredDevice>;

    closed spec fn view(&self) -> Seq<DiscoveredDevice> {
        self.devices@
    }
}

impl DeviceRegistry {
    /// Well-formed: ids are unique.
    pub open spec fn wf(&self) -> bool {
        unique_ids(self@)
    }

    /// An empty registry.
    pub fn new() -> (r: Self)
        ensures
            r.wf(),
            r@ == Seq::<DiscoveredDevice>::empty(),
    {
        DeviceRegistry { devices: Vec::new() }
    }

    /// Number of devices.
    pub fn len(&self) -> (r: usize)
        ensures
            r == self@.len(),
    {
        self.devices.len()
    }

    /// Position of the device with id `id`.
    fn index_of(&self, id: &str) -> (r: Option<usize>)
        ensures
            r matches Some(i) ==> i < self@.len() && self@[i as int].id@ == id@,
            r is None ==> !has_id(self@, id@),
    {
        let mut i: usize = 0;
        while i < self.devices.len()
            invariant
                i <= self@.len(),
                forall|j: int| 0 <= j < i ==> (#[trigger] self@[j]).id@ != id@,
            decreases self@.len() - i,
        {
            if same_text(self.devices[i].id.as_str(), id) {
                return Some(i);
            }
            i = i + 1;
        }
        None
    }

    /// Copies of all devices, in registry order.
    pub fn get_devices(&self) -> (r: Vec<DiscoveredDevice>)
        ensures
            r@ == self@,
    {
        let mut out: Vec<DiscoveredDevice> = Vec::new();
        let mut i: usize = 0;
        while i < self.devices.len()
            invariant
                i <= self@.len(),
                out@ == self@.subrange(0, i as int),
            decreases self@.len() - i,
        {
            out.push(self.devices[i].duplicate());
            i = i + 1;
        }
        out
    }

    /// A copy of the device with id `id`.
    pub fn get_device(&self, id: &str) -> (r: Option<DiscoveredDevice>)
        requires
            self.wf(),
        ensures
            !has_id(self@, id@) ==> r is None,
            has_id(self@, id@) ==> (r matches Some(d) && d.id@ == id@ && self@.contains(d)),
    {
        match self.index_of(id) {
            Some(i) => Some(self.devices[i].duplicate()),
            None => None,
        }
    }

    /// Adds a device, replacing the one with the same id in place.
    pub fn add_device(&mut self, device: DiscoveredDevice)
        requires
            old(self).wf(),
        ensures
            final(self).wf(),
            has_id(old(self)@, device.id@) ==> exists|i: int|
                0 <= i < old(self)@.len() && (#[trigger] old(self)@[i]).id@ == device.id@ && final(self)@
                    == old(self)@.update(i, device),
            !has_id(old(self)@, device.id@) ==> final(self)@ == old(self)@.push(device),
    {
        match self.index_of(device.id.as_str()) {
            Some(i) => {
                let ghost d = device;
                self.devices.set(i, device);
                assert(self@ == old(self)@.update(i as int, d));
            },
            None => {
                self.devices.push(device);
            },
        }
    }

    /// Removes the device with id `id`, if present.
    pub fn remove_device(&mut self, id: &str)
        requires
            old(self).wf(),
        ensures
            final(self).wf(),
            !has_id(final(self)@, id@),
            has_id(old(self)@, id@) ==> exists|i: int|
                0 <= i < old(self)@.len() && (#[trigger] old(self)@[i]).id@ == id@ && final(self)@
                    == old(self)@.remove(i),
            !has_id(old(self)@, id@) ==> final(self)@ == old(self)@,
    {
        if let Some(i) = self.index_of(id) {
            let ghost before = self@;
            self.devices.remove(i);
            proof {
                assert forall|a: int, b: int|
                    0 <= a < self@.len() && 0 <= b < self@.len() && a != b implies #[trigger] self@[a].id@
                    != #[trigger] self@[b].id@ by {
                    let oa = if a < i { a } else { a + 1 };
                    let ob = if b < i { b } else { b + 1 };
                    assert(self@[a] == before[oa]);
                    assert(self@[b] == before[ob]);
                }
                assert forall|k: int| 0 <= k < self@.len() implies (#[trigger] self@[k]).id@ != id@ by {
                    let ok = if k < i { k } else { k + 1 };
                    assert(self@[k] == before[ok]);
                }
            }
        }
    }

    /// Removes every device.
    pub fn clear_devices(&mut self)
        ensures
            final(self).wf(),
            final(self)@ == Seq::<DiscoveredDevice>::empty(),
    {
        self.devices = Vec::new();
    }

    /// Sets a device's presence and refreshes its last-seen time.
    pub fn update_device_status(&mut self, id: &str, status: DeviceStatus, now_ms: u64)
        requires
            old(self).wf(),
        ensures
            final(self).wf(),
            !has_id(old(self)@, id@) ==> final(self)@ == old(self)@,
            has_id(old(self)@, id@) ==> exists|i: int|
                0 <= i < old(self)@.len() && (#[trigger] old(self)@[i]).id@ == id@ && final(self)@
                    == old(self)@.update(
                    i,
                    DiscoveredDevice { status, last_seen: now_ms, ..old(self)@[i] },
                ),
    {
        if let Some(i) = self.index_of(id) {
            let mut d = self.devices[i].duplicate();
            d.status = status;
            d.last_seen = now_ms;
            self.devices.set(i, d);
        }
    }

    /// Sets whether a device is sharing its screen and refreshes its
    /// last-seen time.
    pub fn update_device_sharing(&mut self, id: &str, is_sharing: bool, now_ms: u64)
        requires
            old(self).wf(),
        ensures
            final(self).wf(),
            !has_id(old(self)@, id@) ==> final(self)@ == old(self)@,
            has_id(old(self)@, id@) ==> exists|i: int|
                0 <= i < old(self)@.len() && (#[trigger] old(self)@[i]).id@ == id@ && final(self)@
                    == old(self)@.update(
                    i,
                    DiscoveredDevice { is_sharing, last_seen: now_ms, ..old(self)@[i] },
                ),
    {
        if let Some(i) = self.index_of(id) {
            let mut d = self.devices[i].duplicate();
            d.is_sharing = is_sharing;
            d.last_seen = now_ms;
            self.devices.set(i, d);
        }
    }

    /// Sets the sharing state of the first device at address `ip`; returns
    /// its id.
    pub fn update_device_sharing_by_ip(&mut self, ip: &str, is_sharing: bool, now_ms: u64) -> (r: Option<String>)
        requires
            old(self).wf(),
        ensures
            final(self).wf(),
            ({
                let i = first_with_ip(old(self)@, ip@);
                if i < old(self)@.len() {
                    &&& r matches Some(id) && id@ == old(self)@[i].id@
                    &&& final(self)@ == old(self)@.update(
                        i,
                        DiscoveredDevice { is_sharing, last_seen: now_ms, ..old(self)@[i] },
                    )
                } else {
                    r is None && final(self)@ == old(self)@
                }
            }),
    {
        let mut i: usize = 0;
        while i < self.devices.len()
            invariant
                i <= self@.len(),
                self@ == old(self)@,
                self.wf(),
                forall|j: int| 0 <= j < i ==> (#[trigger] self@[j]).ip@ != ip@,
            decreases self@.len() - i,
        {
            if same_text(self.devices[i].ip.as_str(), ip) {
                proof {
                    lemma_first_with_ip_is(self@, ip@, i as int);
                }
                let mut d = self.devices[i].duplicate();
                d.is_sharing = is_sharing;
                d.last_seen = now_ms;
                let id = d.id.clone();
                self.devices.set(i, d);
                return Some(id);
            }
            i = i + 1;
        }
        proof {
            lemma_first_with_ip_is(self@, ip@, i as int);
        }
        None
    }

    /// The first device whose id's first eight characters occur in an mDNS
    /// full service name.
    pub fn find_device_by_fullname(&self, fullname: &str) -> (r: Option<DiscoveredDevice>)
        ensures
            r matches Some(d) ==> self@.contains(d) && contains_seq(fullname@, id_prefix(d.id@)),
            r is None ==> forall|j: int|
                0 <= j < self@.len() ==> !contains_seq(fullname@, id_prefix(#[trigger] self@[j].id@)),
    {
        let mut i: usize = 0;
        while i < self.devices.len()
            invariant
                i <= self@.len(),
                forall|j: int| 0 <= j < i ==> !contains_seq(fullname@, id_prefix(#[trigger] self@[j].id@)),
            decreases self@.len() - i,
        {
            let id = self.devices[i].id.as_str();
            let n = id.unicode_len();
            let prefix = if n < 8 {
                id
            } else {
                id.substring_char(0, 8)
            };
            if contains_text(fullname, prefix) {
                return Some(self.devices[i].duplicate());
            }
            i = i + 1;
        }
        None
    }

    /// Removes every device at address `ip`; returns the removed ids in
    /// registry order.
    pub fn remove_devices_by_ip(&mut self, ip: &str) -> (removed: Vec<String>)
        requires
            old(self).wf(),
        ensures
            final(self).wf(),
            final(self)@ == without_ip(old(self)@, ip@),
            forall|j: int| 0 <= j < final(self)@.len() ==> (#[trigger] final(self)@[j]).ip@ != ip@,
            forall|k: int| 0 <= k < removed@.len() ==> has_id(old(self)@, #[trigger] removed@[k]@),
    {
        let ghost before = self@;
        let mut kept: Vec<DiscoveredDevice> = Vec::new();
        let mut removed: Vec<String> = Vec::new();
        let mut k: usize = 0;
        let n = self.devices.len();
        while k < n
            invariant
                n == before.len(),
                self@ == before,
                unique_ids(before),
                k <= n,
                kept@ == without_ip(before.subrange(0, k as int), ip@),
                unique_ids(kept@),
                forall|a: int, j: int| 0 <= a < kept@.len() && k <= j < n ==> #[trigger] kept@[a].id@ != #[trigger] before[j].id@,
                forall|a: int| 0 <= a < kept@.len() ==> (#[trigger] kept@[a]).ip@ != ip@,
                forall|q: int| 0 <= q < removed@.len() ==> has_id(before, #[trigger] removed@[q]@),
            decreases n - k,
        {
            let d = self.devices[k].duplicate();
            proof {
                assert(before.subrange(0, k + 1).drop_last() =~= before.subrange(0, k as int));
                assert(before.subrange(0, k + 1).last() == d);
            }
            if same_text(d.ip.as_str(), ip) {
                assert(before[k as int].id@ == d.id@);
                removed.push(d.id);
            } else {
                let ghost old_kept = kept@;
                kept.push(d);
                proof {
                    assert forall|a: int, b: int|
                        0 <= a < kept@.len() && 0 <= b < kept@.len() && a != b implies #[trigger] kept@[a].id@
                        != #[trigger] kept@[b].id@ by {
                        if a < old_kept.len() && b == old_kept.len() {
                            assert(kept@[a].id@ != before[k as int].id@);
                        } else if b < old_kept.len() && a == old_kept.len() {
                            assert(kept@[b].id@ != before[k as int].id@);
                        }
                    }
                    assert forall|a: int, j: int| 0 <= a < kept@.len() && k + 1 <= j < n implies #[trigger] kept@[a].id@ != #[trigger] before[j].id@ by {
                        if a == old_kept.len() {
                            assert(kept@[a] == before[k as int]);
                        }
                    }
                }
            }
            k = k + 1;
        }
        assert(before.subrange(0, n as int) =~= before);
        self.devices = kept;
        removed
    }
}

} // verus!
