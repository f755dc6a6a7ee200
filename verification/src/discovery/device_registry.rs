//! The registry of peer devices seen on the LAN, each with the time it was
//! last heard from. A device that has not been heard from for the timeout
//! (15 seconds) is offline.

use vstd::prelude::*;

use crate::system::{duration_nanos, elapsed, monotonic_now, nanos_of, time_between};
use crate::text::same_text;

verus! {

broadcast use vstd::seq_lib::group_filter_ensures;

/// A peer device. `last_seen` is the reading of the monotonic clock at which
/// the device was last heard from.
pub struct Device {
    pub id: String,
    pub name: String,
    pub ip: String,
    pub port: u16,
    pub last_seen: std::time::Instant,
}

impl Device {
    /// A copy of this device.
    pub fn duplicate(&self) -> (r: Device)
        ensures
            r == *self,
    {
        Device {
            id: self.id.clone(),
            name: self.name.clone(),
            ip: self.ip.clone(),
            port: self.port,
            last_seen: self.last_seen,
        }
    }

    /// A device heard from now.
    pub fn seen_now(id: String, name: String, ip: String, port: u16) -> (d: Device)
        ensures
            d.id == id,
            d.name == name,
            d.ip == ip,
            d.port == port,
    {
        Device { id, name, ip, port, last_seen: monotonic_now() }
    }
}

/// How long a device stays online without being heard from: 15 seconds, in
/// nanoseconds.
pub const DEVICE_TIMEOUT_NANOS: u128 = 15_000_000_000;

/// No two devices share an id.
pub open spec fn ids_distinct(s: Seq<Device>) -> bool {
    forall|i: int, j: int|
        0 <= i < s.len() && 0 <= j < s.len() && i != j ==> #[trigger] s[i].id@ != #[trigger] s[j].id@
}

/// Some device has this id.
pub open spec fn has_device(s: Seq<Device>, id: Seq<char>) -> bool {
    exists|i: int| 0 <= i < s.len() && #[trigger] s[i].id@ == id
}

/// The position of the device with this id, where there is one.
pub open spec fn device_index(s: Seq<Device>, id: Seq<char>) -> int {
    choose|i: int| 0 <= i < s.len() && #[trigger] s[i].id@ == id
}

/// The devices after `d` is registered: it replaces the device with its id,
/// or is added after the others.
pub open spec fn with_device(s: Seq<Device>, d: Device) -> Seq<Device> {
    if has_device(s, d.id@) {
        s.update(device_index(s, d.id@), d)
    } else {
        s.push(d)
    }
}

/// Keeps the devices whose id is not `id`.
pub open spec fn other_than(id: Seq<char>) -> spec_fn(Device) -> bool {
    |d: Device| d.id@ != id
}

/// The devices after the one with id `id` is removed.
pub open spec fn without_device(s: Seq<Device>, id: Seq<char>) -> Seq<Device> {
    s.filter(other_than(id))
}

/// A device heard from less than `timeout` nanoseconds before `now`. A
/// `last_seen` after `now` counts as heard from just now.
pub open spec fn is_fresh(d: Device, now: std::time::Instant, timeout: int) -> bool {
    duration_nanos(elapsed(now, d.last_seen)) < timeout
}

/// Keeps the devices that are fresh at `now`.
pub open spec fn fresh_at(now: std::time::Instant, timeout: int) -> spec_fn(Device) -> bool {
    |d: Device| is_fresh(d, now, timeout)
}

/// The devices still online at `now`, in registry order.
pub open spec fn fresh_devices(s: Seq<Device>, now: std::time::Instant, timeout: int) -> Seq<Device> {
    s.filter(fresh_at(now, timeout))
}

/// The device with id `id` is registered and online at `now`.
pub open spec fn online_in(s: Seq<Device>, id: Seq<char>, now: std::time::Instant, timeout: int) -> bool {
    exists|i: int| 0 <= i < s.len() && #[trigger] s[i].id@ == id && is_fresh(s[i], now, timeout)
}

/// Keeping some of a list of devices keeps their ids distinct.
pub proof fn lemma_filter_distinct(s: Seq<Device>, pred: spec_fn(Device) -> bool)
    requires
        ids_distinct(s),
    ensures
        ids_distinct(s.filter(pred)),
    decreases s.len(),
{
    reveal(Seq::filter);
    if s.len() > 0 {
        let r = s.drop_last();
        assert forall|i: int, j: int|
            0 <= i < r.len() && 0 <= j < r.len() && i != j implies #[trigger] r[i].id@
            != #[trigger] r[j].id@ by {
            assert(r[i] == s[i] && r[j] == s[j]);
        }
        lemma_filter_distinct(r, pred);
        let f = r.filter(pred);
        if pred(s.last()) {
            let g = f.push(s.last());
            assert forall|a: int, b: int|
                0 <= a < g.len() && 0 <= b < g.len() && a != b implies #[trigger] g[a].id@
                != #[trigger] g[b].id@ by {
                if a < f.len() && b < f.len() {
                    assert(g[a] == f[a] && g[b] == f[b]);
                } else {
                    let c = if a < f.len() { a } else { b };
                    assert(f.contains(f[c]));
                    r.lemma_filter_contains_rev(pred, f[c]);
                    let j = choose|j: int| 0 <= j < r.len() && r[j] == f[c];
                    assert(s[j] == r[j]);
                    assert(s[j].id@ != s[s.len() - 1].id@);
                }
            }
        }
    }
}

/// The registry of peer devices, keyed by device id.
pub struct DeviceRegistry {
    devices: Vec<Device>,
    timeout_nanos: u128,
}

impl DeviceRegistry {
    /// The registered devices, in the order they were first registered.
    pub closed spec fn devices(&self) -> Seq<Device> {
        self.devices@
    }

    /// The timeout, in nanoseconds.
    pub closed spec fn timeout(&self) -> int {
        self.timeout_nanos as int
    }

    /// Each id is registered once, and the timeout is 15 seconds.
    pub open spec fn wf(&self) -> bool {
        ids_distinct(self.devices()) && self.timeout() == DEVICE_TIMEOUT_NANOS
    }

    /// An empty registry with the 15-second timeout.
    pub fn new() -> (r: DeviceRegistry)
        ensures
            r.wf(),
            r.devices() == Seq::<Device>::empty(),
            r.timeout() == DEVICE_TIMEOUT_NANOS,
    {
        DeviceRegistry { devices: Vec::new(), timeout_nanos: DEVICE_TIMEOUT_NANOS }
    }

    /// Registers a device, or updates the device with its id.
    pub fn register(&mut self, device: Device)
        requires
            old(self).wf(),
        ensures
            final(self).wf(),
            final(self).devices() == with_device(old(self).devices(), device),
            final(self).timeout() == old(self).timeout(),
    {
        let n = self.devices.len();
        let mut i: usize = 0;
        while i < n
            invariant
                n == self.devices@.len(),
                i <= n,
                self.devices@ == old(self).devices@,
                self.timeout_nanos == old(self).timeout_nanos,
                old(self).wf(),
                forall|j: int| 0 <= j < i ==> #[trigger] self.devices@[j].id@ != device.id@,
            decreases n - i,
        {
            if same_text(self.devices[i].id.as_str(), device.id.as_str()) {
                let ghost s = self.devices@;
                proof {
                    assert(has_device(s, device.id@));
                    let k = device_index(s, device.id@);
                    assert(s[k].id@ == device.id@);
                    assert(k == i);
                }
                self.devices.set(i, device);
                proof {
                    assert(self.devices@ =~= s.update(i as int, device));
                    assert forall|a: int, b: int|
                        0 <= a < self.devices@.len() && 0 <= b < self.devices@.len() && a != b
                            implies #[trigger] self.devices@[a].id@ != #[trigger] self.devices@[b].id@ by {
                        if a != i && b != i {
                            assert(s[a].id@ != s[b].id@);
                        } else if a == i {
                            assert(s[b].id@ != s[i as int].id@);
                        } else {
                            assert(s[a].id@ != s[i as int].id@);
                        }
                    }
                }
                return;
            }
            i = i + 1;
        }
        let ghost s = self.devices@;
        proof {
            if has_device(s, device.id@) {
                let k = device_index(s, device.id@);
                assert(s[k].id@ == device.id@);
            }
        }
        self.devices.push(device);
        proof {
            assert(self.devices@ =~= s.push(device));
            assert forall|a: int, b: int|
                0 <= a < self.devices@.len() && 0 <= b < self.devices@.len() && a != b
                    implies #[trigger] self.devices@[a].id@ != #[trigger] self.devices@[b].id@ by {
                if a < n && b < n {
                    assert(s[a].id@ != s[b].id@);
                } else if a == n {
                    assert(s[b].id@ != device.id@);
                } else {
                    assert(s[a].id@ != device.id@);
                }
            }
        }
    }
}


impl DeviceRegistry {
    /// Removes the device with this id, where there is one.
    pub fn remove(&mut self, device_id: &str)
        requires
            old(self).wf(),
        ensures
            final(self).wf(),
            final(self).devices() == without_device(old(self).devices(), device_id@),
            final(self).timeout() == old(self).timeout(),
    {
        let ghost s = self.devices@;
        let ghost pred = other_than(device_id@);
        let mut kept: Vec<Device> = Vec::new();
        let n = self.devices.len();
        let mut i: usize = 0;
        while i < n
            invariant
                n == s.len(),
                i <= n,
                self.devices@ == s,
                pred == other_than(device_id@),
                kept@ == s.take(i as int).filter(pred),
            decreases n - i,
        {
            let d = &self.devices[i];
            if !same_text(d.id.as_str(), device_id) {
                kept.push(d.duplicate());
            }
            proof {
                assert(s.take(i + 1) =~= s.take(i as int).push(s[i as int]));
                s.take(i as int).lemma_filter_push(s[i as int], pred);
            }
            i = i + 1;
        }
        proof {
            assert(s.take(n as int) =~= s);
            lemma_filter_distinct(s, pred);
        }
        self.devices = kept;
    }

    /// Drops the devices that are offline at the clock reading `now`, and
    /// returns the devices still online.
    pub fn get_online_devices_at(&mut self, now: std::time::Instant) -> (r: Vec<Device>)
        requires
            old(self).wf(),
        ensures
            final(self).wf(),
            final(self).devices() == fresh_devices(
                old(self).devices(),
                now,
                old(self).timeout(),
            ),
            final(self).timeout() == old(self).timeout(),
            r@ == final(self).devices(),
    {
        let ghost s = self.devices@;
        let ghost pred = fresh_at(now, self.timeout_nanos as int);
        let mut kept: Vec<Device> = Vec::new();
        let mut out: Vec<Device> = Vec::new();
        let n = self.devices.len();
        let mut i: usize = 0;
        while i < n
            invariant
                n == s.len(),
                i <= n,
                self.devices@ == s,
                pred == fresh_at(now, self.timeout_nanos as int),
                kept@ == s.take(i as int).filter(pred),
                out@ == kept@,
            decreases n - i,
        {
            let d = &self.devices[i];
            let since = time_between(&now, &d.last_seen);
            if nanos_of(&since) < self.timeout_nanos {
                kept.push(d.duplicate());
                out.push(d.duplicate());
            }
            proof {
                assert(s.take(i + 1) =~= s.take(i as int).push(s[i as int]));
                s.take(i as int).lemma_filter_push(s[i as int], pred);
            }
            i = i + 1;
        }
        proof {
            assert(s.take(n as int) =~= s);
            lemma_filter_distinct(s, pred);
        }
        self.devices = kept;
        out
    }

    /// Drops the devices that are offline now, and returns the devices still
    /// online.
    pub fn get_online_devices(&mut self) -> (r: Vec<Device>)
        requires
            old(self).wf(),
        ensures
            final(self).wf(),
            final(self).timeout() == old(self).timeout(),
            exists|now: std::time::Instant|
                #![trigger fresh_devices(old(self).devices(), now, old(self).timeout())]
                final(self).devices() == fresh_devices(
                    old(self).devices(),
                    now,
                    old(self).timeout(),
                ),
            r@ == final(self).devices(),
    {
        let now = monotonic_now();
        self.get_online_devices_at(now)
    }

    /// Whether the device with this id is registered and online at `now`.
    pub fn is_online_at(&self, device_id: &str, now: std::time::Instant) -> (r: bool)
        requires
            self.wf(),
        ensures
            r == online_in(self.devices(), device_id@, now, self.timeout()),
    {
        let n = self.devices.len();
        let mut i: usize = 0;
        while i < n
            invariant
                n == self.devices@.len(),
                i <= n,
                self.wf(),
                forall|j: int| 0 <= j < i ==> #[trigger] self.devices@[j].id@ != device_id@,
            decreases n - i,
        {
            let d = &self.devices[i];
            if same_text(d.id.as_str(), device_id) {
                let since = time_between(&now, &d.last_seen);
                let fresh = nanos_of(&since) < self.timeout_nanos;
                proof {
                    if !fresh {
                        assert forall|k: int|
                            0 <= k < n && #[trigger] self.devices@[k].id@ == device_id@ implies !is_fresh(
                            self.devices@[k],
                            now,
                            self.timeout_nanos as int,
                        ) by {
                            if k != i {
                                assert(self.devices@[k].id@ != self.devices@[i as int].id@);
                            }
                        }
                    }
                }
                return fresh;
            }
            i = i + 1;
        }
        false
    }

    /// Whether the device with this id is registered and online now.
    pub fn is_online(&self, device_id: &str) -> (r: bool)
        requires
            self.wf(),
        ensures
            exists|now: std::time::Instant|
                #![trigger online_in(self.devices(), device_id@, now, self.timeout())]
                r == online_in(self.devices(), device_id@, now, self.timeout()),
    {
        let now = monotonic_now();
        self.is_online_at(device_id, now)
    }
}


/// A device that has just been registered, with a `last_seen` less than the
/// timeout before `now`, is online at `now`, and it is the one device the
/// registry holds under its id.
pub proof fn lemma_register_then_online(s: Seq<Device>, d: Device, now: std::time::Instant, timeout: int)
    requires
        ids_distinct(s),
        is_fresh(d, now, timeout),
    ensures
        online_in(with_device(s, d), d.id@, now, timeout),
        forall|i: int|
            0 <= i < with_device(s, d).len() && #[trigger] with_device(s, d)[i].id@ == d.id@
                ==> with_device(s, d)[i] == d,
{
    let t = with_device(s, d);
    if has_device(s, d.id@) {
        let k = device_index(s, d.id@);
        assert(t[k] == d);
        assert forall|i: int| 0 <= i < t.len() && #[trigger] t[i].id@ == d.id@ implies t[i] == d by {
            if i != k {
                assert(s[i].id@ != s[k].id@);
            }
        }
    } else {
        assert(t[s.len() as int] == d);
        assert forall|i: int| 0 <= i < t.len() && #[trigger] t[i].id@ == d.id@ implies t[i] == d by {
            if i < s.len() {
                assert(t[i] == s[i]);
            }
        }
    }
}

/// Registering a device leaves every device with another id as it was.
pub proof fn lemma_register_keeps_others(s: Seq<Device>, d: Device, id: Seq<char>, now: std::time::Instant, timeout: int)
    requires
        ids_distinct(s),
        id != d.id@,
    ensures
        online_in(with_device(s, d), id, now, timeout) == online_in(s, id, now, timeout),
        has_device(with_device(s, d), id) == has_device(s, id),
{
    let t = with_device(s, d);
    if has_device(s, d.id@) {
        let k = device_index(s, d.id@);
        assert forall|i: int| 0 <= i < s.len() && i != k implies t[i] == s[i] by {}
        if online_in(s, id, now, timeout) {
            let i = choose|i: int| 0 <= i < s.len() && #[trigger] s[i].id@ == id && is_fresh(s[i], now, timeout);
            assert(t[i] == s[i]);
        }
        if online_in(t, id, now, timeout) {
            let i = choose|i: int| 0 <= i < t.len() && #[trigger] t[i].id@ == id && is_fresh(t[i], now, timeout);
            assert(t[i] == s[i]);
        }
        if has_device(s, id) {
            let i = choose|i: int| 0 <= i < s.len() && #[trigger] s[i].id@ == id;
            assert(t[i] == s[i]);
        }
        if has_device(t, id) {
            let i = choose|i: int| 0 <= i < t.len() && #[trigger] t[i].id@ == id;
            assert(t[i] == s[i]);
        }
    } else {
        if online_in(s, id, now, timeout) {
            let i = choose|i: int| 0 <= i < s.len() && #[trigger] s[i].id@ == id && is_fresh(s[i], now, timeout);
            assert(t[i] == s[i]);
        }
        if online_in(t, id, now, timeout) {
            let i = choose|i: int| 0 <= i < t.len() && #[trigger] t[i].id@ == id && is_fresh(t[i], now, timeout);
            assert(t[i] == s[i]);
        }
        if has_device(s, id) {
            let i = choose|i: int| 0 <= i < s.len() && #[trigger] s[i].id@ == id;
            assert(t[i] == s[i]);
        }
        if has_device(t, id) {
            let i = choose|i: int| 0 <= i < t.len() && #[trigger] t[i].id@ == id;
            assert(t[i] == s[i]);
        }
    }
}

/// After a device is removed it is not online, at any time.
pub proof fn lemma_removed_is_offline(s: Seq<Device>, id: Seq<char>, now: std::time::Instant, timeout: int)
    ensures
        !online_in(without_device(s, id), id, now, timeout),
        !has_device(without_device(s, id), id),
{
    let f = without_device(s, id);
    if has_device(f, id) {
        let i = choose|i: int| 0 <= i < f.len() && #[trigger] f[i].id@ == id;
        s.lemma_filter_pred(other_than(id), i);
    }
}

/// A device last heard from at least the timeout before `now` is offline at
/// `now`.
pub proof fn lemma_timed_out_is_offline(s: Seq<Device>, i: int, now: std::time::Instant, timeout: int)
    requires
        ids_distinct(s),
        0 <= i < s.len(),
        duration_nanos(elapsed(now, s[i].last_seen)) >= timeout,
    ensures
        !online_in(s, s[i].id@, now, timeout),
{
    if online_in(s, s[i].id@, now, timeout) {
        let k = choose|k: int| 0 <= k < s.len() && #[trigger] s[k].id@ == s[i].id@ && is_fresh(s[k], now, timeout);
        assert(k == i);
    }
}

/// The list of online devices and the per-device online test agree: a device
/// id is in the list at `now` exactly when that device is online at `now`.
pub proof fn lemma_online_list_matches(s: Seq<Device>, id: Seq<char>, now: std::time::Instant, timeout: int)
    ensures
        has_device(fresh_devices(s, now, timeout), id) == online_in(s, id, now, timeout),
{
    let pred = fresh_at(now, timeout);
    let f = s.filter(pred);
    if has_device(f, id) {
        let a = choose|a: int| 0 <= a < f.len() && #[trigger] f[a].id@ == id;
        s.lemma_filter_pred(pred, a);
        assert(f.contains(f[a]));
        s.lemma_filter_contains_rev(pred, f[a]);
        let j = choose|j: int| 0 <= j < s.len() && s[j] == f[a];
        assert(s[j].id@ == id);
    }
    if online_in(s, id, now, timeout) {
        let i = choose|i: int| 0 <= i < s.len() && #[trigger] s[i].id@ == id && is_fresh(s[i], now, timeout);
        s.lemma_filter_contains(pred, i);
        let a = choose|a: int| 0 <= a < f.len() && f[a] == s[i];
        assert(f[a].id@ == id);
    }
}

} // verus!
