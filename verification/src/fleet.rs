//! The fleet: other machines you own, joined to this hub. The hub stores how to
//! reach each device, keeps what it learned of their health and capacity, and places
//! deploys on whichever machine has the most free declared memory.
use vstd::prelude::*;

use crate::daemon::{Daemon, DaemonView};
use crate::error::{ErrorView, HadesError};
use crate::maps;
use crate::maps::TextMap;
use crate::names;
use crate::names::NameMap;
use crate::order;
use crate::order::{rank, SortKey};
use crate::state::{FleetFile, FleetFileView};
use crate::text::same;
use crate::time::Timestamp;
use crate::types;
use crate::types::{
    AppInfo, AppInfoView, FleetDeviceView, FleetDeviceViewView, FleetView, JoinRequest, ResourceLedger,
};
use crate::values;

verus! {

/// A device that joined, and how to reach it.
#[derive(Debug)]
pub struct FleetDeviceRecord {
    pub name: String,
    pub control_url: String,
    pub token: String,
    pub added_at: Timestamp,
}

/// The contents of a `FleetDeviceRecord`.
pub struct FleetDeviceRecordView {
    pub name: Seq<char>,
    pub control_url: Seq<char>,
    pub token: Seq<char>,
    pub added_at: Timestamp,
}

impl View for FleetDeviceRecord {
    type V = FleetDeviceRecordView;

    open spec fn view(&self) -> FleetDeviceRecordView {
        FleetDeviceRecordView {
            name: self.name@,
            control_url: self.control_url@,
            token: self.token@,
            added_at: self.added_at,
        }
    }
}

impl Clone for FleetDeviceRecord {
    fn clone(&self) -> (r: Self)
        ensures
            r@ == self@,
    {
        FleetDeviceRecord {
            name: self.name.clone(),
            control_url: self.control_url.clone(),
            token: self.token.clone(),
            added_at: self.added_at,
        }
    }
}

pub open spec fn fleet_device_record_views(v: Seq<FleetDeviceRecord>) -> Seq<FleetDeviceRecordView> {
    Seq::new(v.len(), |i: int| v[i]@)
}

pub fn clone_fleet_device_records(v: &Vec<FleetDeviceRecord>) -> (r: Vec<FleetDeviceRecord>)
    ensures
        fleet_device_record_views(r@) == fleet_device_record_views(v@),
{
    let mut out: Vec<FleetDeviceRecord> = Vec::new();
    let mut i: usize = 0;
    while i < v.len()
        invariant
            i <= v.len(),
            out@.len() == i,
            forall|j: int| 0 <= j < i ==> (#[trigger] out@[j])@ == v@[j]@,
        decreases v.len() - i,
    {
        out.push(v[i].clone());
        i += 1;
    }
    assert(fleet_device_record_views(out@) =~= fleet_device_record_views(v@));
    out
}

/// What was learned about a device the last time it answered.
#[derive(Debug, Clone, Copy, PartialEq, Eq, Structural)]
pub struct DeviceStatus {
    pub healthy: bool,
    pub vm_memory_mb: u64,
    pub allocatable_mb: u64,
    pub allocated_mb: u64,
    pub apps: u32,
    pub last_seen: Option<Timestamp>,
}

/// Nothing has been learned yet.
pub open spec fn unknown() -> DeviceStatus {
    DeviceStatus {
        healthy: false,
        vm_memory_mb: 0,
        allocatable_mb: 0,
        allocated_mb: 0,
        apps: 0,
        last_seen: None,
    }
}

impl Default for DeviceStatus {
    fn default() -> (r: Self)
        ensures
            r == unknown(),
    {
        DeviceStatus {
            healthy: false,
            vm_memory_mb: 0,
            allocatable_mb: 0,
            allocated_mb: 0,
            apps: 0,
            last_seen: None,
        }
    }
}

/// What is left of a budget.
pub open spec fn left(of: u64, used: u64) -> u64 {
    if used <= of {
        (of - used) as u64
    } else {
        0
    }
}

impl DeviceStatus {
    pub open spec fn free(self) -> u64 {
        left(self.allocatable_mb, self.allocated_mb)
    }
}

/// The first device of this name.
pub open spec fn device_named(devices: Seq<FleetDeviceRecordView>, name: Seq<char>) -> Option<
    FleetDeviceRecordView,
>
    decreases devices.len(),
{
    if devices.len() == 0 {
        None
    } else {
        match device_named(devices.drop_last(), name) {
            Some(d) => Some(d),
            None => if devices.last().name == name {
                Some(devices.last())
            } else {
                None
            },
        }
    }
}

/// A device and its free memory.
pub struct Offer {
    pub name: Seq<char>,
    pub free: u64,
}

/// Does a device offer room for so much memory?
pub open spec fn offers(
    statuses: Map<Seq<char>, DeviceStatus>,
    name: Seq<char>,
    needed: u64,
) -> bool {
    statuses.dom().contains(name) && statuses[name].healthy && statuses[name].free() >= needed
}

/// The first of the healthy devices with the most free memory, where it is enough.
pub open spec fn best_offer(
    devices: Seq<FleetDeviceRecordView>,
    statuses: Map<Seq<char>, DeviceStatus>,
    needed: u64,
) -> Option<Offer>
    decreases devices.len(),
{
    if devices.len() == 0 {
        None
    } else {
        let best = best_offer(devices.drop_last(), statuses, needed);
        let name = devices.last().name;
        if offers(statuses, name, needed) && (best is None || statuses[name].free() > best->0.free) {
            Some(Offer { name, free: statuses[name].free() })
        } else {
            best
        }
    }
}

/// The device that runs an app which needs so much memory; none when this hub does.
pub open spec fn chosen(
    devices: Seq<FleetDeviceRecordView>,
    statuses: Map<Seq<char>, DeviceStatus>,
    needed: u64,
    self_free: u64,
) -> Option<Seq<char>> {
    match best_offer(devices, statuses, needed) {
        Some(o) => if o.free > self_free {
            Some(o.name)
        } else {
            None
        },
        None => None,
    }
}

impl FleetFile {
    /// The device of this name.
    pub fn device(&self, name: &str) -> (r: Option<FleetDeviceRecord>)
        ensures
            match r {
                Some(d) => device_named(self@.devices, name@) == Some(d@),
                None => device_named(self@.devices, name@) is None,
            },
    {
        let ghost dv = self@.devices;
        let mut i: usize = 0;
        assert(dv.take(0) =~= Seq::empty());
        while i < self.devices.len()
            invariant
                i <= self.devices.len(),
                dv == self@.devices,
                device_named(dv.take(i as int), name@) is None,
            decreases self.devices.len() - i,
        {
            assert(dv.take(i + 1).drop_last() =~= dv.take(i as int));
            assert(dv.take(i + 1).last() == self.devices@[i as int]@);
            if same(self.devices[i].name.as_str(), name) {
                proof {
                    lemma_device_found(dv, name@, i + 1);
                }
                return Some(self.devices[i].clone());
            }
            i += 1;
        }
        assert(dv.take(i as int) =~= dv);
        None
    }

    /// Where the named app lives, if not on this hub.
    pub fn placement_of(&self, app: &str) -> (r: Option<String>)
        ensures
            values::opt_view(r) == if self@.placements.dom().contains(app@) {
                Some(self@.placements[app@])
            } else {
                None
            },
    {
        match self.placements.get(app) {
            Some(d) => Some(d.clone()),
            None => None,
        }
    }

    /// Pick the device with the most free declared memory, self included. None when
    /// this hub should run the app itself.
    pub fn choose_device(
        &self,
        statuses: &NameMap<DeviceStatus>,
        needed_mb: u64,
        self_free: u64,
    ) -> (r: Option<String>)
        ensures
            values::opt_view(r) == chosen(self@.devices, statuses@, needed_mb, self_free),
    {
        let ghost dv = self@.devices;
        let mut best: Option<(usize, u64)> = None;
        let mut i: usize = 0;
        assert(dv.take(0) =~= Seq::empty());
        while i < self.devices.len()
            invariant
                i <= self.devices.len(),
                dv == self@.devices,
                match best {
                    Some((k, free)) => k < self.devices.len() && best_offer(
                        dv.take(i as int),
                        statuses@,
                        needed_mb,
                    ) == Some(Offer { name: dv[k as int].name, free }),
                    None => best_offer(dv.take(i as int), statuses@, needed_mb) is None,
                },
            decreases self.devices.len() - i,
        {
            assert(dv.take(i + 1).drop_last() =~= dv.take(i as int));
            assert(dv.take(i + 1).last() == self.devices@[i as int]@);
            match statuses.get(self.devices[i].name.as_str()) {
                Some(st) => {
                    if st.healthy {
                        let free = st.allocatable_mb.saturating_sub(st.allocated_mb);
                        let better = match best {
                            Some((_, f)) => free > f,
                            None => true,
                        };
                        if free >= needed_mb && better {
                            best = Some((i, free));
                        }
                    }
                },
                None => {},
            }
            i += 1;
        }
        assert(dv.take(i as int) =~= dv);
        match best {
            Some((k, free)) => if free > self_free {
                Some(self.devices[k].name.clone())
            } else {
                None
            },
            None => None,
        }
    }
}

proof fn lemma_device_found(dv: Seq<FleetDeviceRecordView>, name: Seq<char>, n: int)
    requires
        0 <= n <= dv.len(),
        device_named(dv.take(n), name) is Some,
    ensures
        device_named(dv, name) == device_named(dv.take(n), name),
    decreases dv.len() - n,
{
    if n < dv.len() {
        assert(dv.take(n + 1).drop_last() =~= dv.take(n));
        lemma_device_found(dv, name, n + 1);
    } else {
        assert(dv.take(n) =~= dv);
    }
}

// ----------------------------------------------------------------------- the view

/// How many apps were placed on a device.
pub open spec fn placed_on(placements: Map<Seq<char>, Seq<char>>, name: Seq<char>, n: nat) -> nat
    decreases n,
{
    if n == 0 {
        0
    } else {
        let key = names::listing(placements.dom())[n - 1];
        placed_on(placements, name, (n - 1) as nat) + if placements[key] == name {
            1nat
        } else {
            0
        }
    }
}

pub open spec fn placed_count(placements: Map<Seq<char>, Seq<char>>, name: Seq<char>) -> nat {
    placed_on(placements, name, names::listing(placements.dom()).len())
}

/// What the fleet's view tells of a device.
pub open spec fn device_row(
    d: FleetDeviceRecordView,
    st: DeviceStatus,
    placed: u32,
) -> FleetDeviceViewView {
    FleetDeviceViewView {
        name: d.name,
        control_url: d.control_url,
        healthy: st.healthy,
        vm_memory_mb: st.vm_memory_mb,
        allocatable_mb: st.allocatable_mb,
        allocated_mb: st.allocated_mb,
        free_mb: st.free(),
        apps: if st.apps >= placed {
            st.apps
        } else {
            placed
        },
        last_seen: st.last_seen,
        added_at: d.added_at,
    }
}

pub open spec fn status_of(statuses: Map<Seq<char>, DeviceStatus>, name: Seq<char>) -> DeviceStatus {
    if statuses.dom().contains(name) {
        statuses[name]
    } else {
        unknown()
    }
}

/// What was last learned of a device.
pub fn known_status(statuses: &NameMap<DeviceStatus>, name: &str) -> (r: DeviceStatus)
    ensures
        r == status_of(statuses@, name@),
{
    match statuses.get(name) {
        Some(s) => *s,
        None => DeviceStatus::default(),
    }
}

fn count_placed(placements: &TextMap, name: &str) -> (r: u32)
    ensures
        r == placed_count(placements@, name@) as u32,
{
    let n = placements.len();
    let ghost keys = placements.key_list();
    let mut count: usize = 0;
    let mut i: usize = 0;
    while i < n
        invariant
            i <= n,
            count <= i,
            keys == placements.key_list(),
            keys == names::listing(placements@.dom()),
            n == keys.len(),
            count == placed_on(placements@, name@, i as nat),
        decreases n - i,
    {
        if same(placements.value_at(i).as_str(), name) {
            count += 1;
        }
        i += 1;
    }
    count as u32
}

fn row_for(d: &FleetDeviceRecord, st: DeviceStatus, placed: u32) -> (r: FleetDeviceView)
    ensures
        r@ == device_row(d@, st, placed),
{
    FleetDeviceView {
        name: d.name.clone(),
        control_url: d.control_url.clone(),
        healthy: st.healthy,
        vm_memory_mb: st.vm_memory_mb,
        allocatable_mb: st.allocatable_mb,
        allocated_mb: st.allocated_mb,
        free_mb: st.allocatable_mb.saturating_sub(st.allocated_mb),
        apps: if st.apps >= placed {
            st.apps
        } else {
            placed
        },
        last_seen: st.last_seen,
        added_at: d.added_at,
    }
}

/// How the hub stands in its own fleet: under the name "local".
pub open spec fn hub_record(control_url: Option<Seq<char>>, since: Timestamp) -> FleetDeviceRecordView {
    FleetDeviceRecordView {
        name: "local"@,
        control_url: match control_url {
            Some(u) => u,
            None => ""@,
        },
        token: ""@,
        added_at: since,
    }
}

/// What the hub knows of itself.
pub open spec fn own_status(
    d: DaemonView,
    ledger: Option<&ResourceLedger>,
    now: Timestamp,
) -> DeviceStatus {
    DeviceStatus {
        healthy: d.doctor_green,
        vm_memory_mb: match ledger {
            Some(l) => l.vm_memory_mb,
            None => 0,
        },
        allocatable_mb: match ledger {
            Some(l) => l.allocatable_mb,
            None => 0,
        },
        allocated_mb: match ledger {
            Some(l) => l.allocated_mb,
            None => 0,
        },
        apps: names::listing(d.store.apps.dom()).len() as u32,
        last_seen: Some(now),
    }
}

impl FleetFile {
    /// The hub itself, with its own figures, and every device, with what was last learned
    /// of it.
    pub fn fleet_view(
        &self,
        hub: &FleetDeviceRecord,
        own: DeviceStatus,
        statuses: &NameMap<DeviceStatus>,
    ) -> (r: FleetView)
        ensures
            r@.devices.len() == self@.devices.len() + 1,
            r@.devices[0] == device_row(hub@, own, 0),
            forall|i: int|
                0 <= i < self@.devices.len() ==> #[trigger] r@.devices[i + 1] == device_row(
                    self@.devices[i],
                    status_of(statuses@, self@.devices[i].name),
                    placed_count(self@.placements, self@.devices[i].name) as u32,
                ),
    {
        let mut out: Vec<FleetDeviceView> = Vec::new();
        out.push(row_for(hub, own, 0));
        let mut i: usize = 0;
        while i < self.devices.len()
            invariant
                i <= self.devices.len(),
                out@.len() == i + 1,
                out@[0]@ == device_row(hub@, own, 0),
                forall|j: int|
                    0 <= j < i ==> (#[trigger] out@[j + 1])@ == device_row(
                        self@.devices[j],
                        status_of(statuses@, self@.devices[j].name),
                        placed_count(self@.placements, self@.devices[j].name) as u32,
                    ),
            decreases self.devices.len() - i,
        {
            let d = &self.devices[i];
            let st = known_status(statuses, d.name.as_str());
            let placed = count_placed(&self.placements, d.name.as_str());
            out.push(row_for(d, st, placed));
            i += 1;
        }
        FleetView { devices: out }
    }
}

impl Daemon {
    /// The fleet: the hub itself comes first, then the devices that joined, in that order.
    pub fn fleet_view(&self, ledger: Option<&ResourceLedger>, now: Timestamp) -> (r: FleetView)
        ensures
            r@.devices.len() == self@.store.fleet.devices.len() + 1,
            r@.devices[0] == device_row(
                hub_record(self@.control_url, self@.started_at),
                own_status(self@, ledger, now),
                0,
            ),
            r@.devices[0].name == "local"@,
            ledger matches Some(l) ==> r@.devices[0].free_mb == left(
                l.allocatable_mb,
                l.allocated_mb,
            ),
            forall|i: int|
                0 <= i < self@.store.fleet.devices.len() ==> #[trigger] r@.devices[i + 1]
                    == device_row(
                    self@.store.fleet.devices[i],
                    status_of(self@.fleet_status, self@.store.fleet.devices[i].name),
                    placed_count(
                        self@.store.fleet.placements,
                        self@.store.fleet.devices[i].name,
                    ) as u32,
                ),
    {
        let hub = FleetDeviceRecord {
            name: "local".to_owned(),
            control_url: match &self.control_url {
                Some(u) => u.clone(),
                None => "".to_owned(),
            },
            token: "".to_owned(),
            added_at: self.started_at,
        };
        let (vm_memory_mb, allocatable_mb, allocated_mb) = match ledger {
            Some(l) => (l.vm_memory_mb, l.allocatable_mb, l.allocated_mb),
            None => (0, 0, 0),
        };
        assert(self@.store.apps.dom() =~= self.store.apps@.dom());
        let own = DeviceStatus {
            healthy: self.doctor_green,
            vm_memory_mb,
            allocatable_mb,
            allocated_mb,
            apps: self.store.apps.len() as u32,
            last_seen: Some(now),
        };
        assert(hub@ == hub_record(self@.control_url, self@.started_at));
        self.store.fleet.fleet_view(&hub, own, &self.fleet_status)
    }
}

// ---------------------------------------------------------------------- polling

/// A device's answer about itself, as far as the fleet is concerned.
#[derive(Debug, Clone, Copy, PartialEq, Eq, Structural)]
pub struct DeviceAnswer {
    pub doctor_green: bool,
    pub vm_memory_mb: u64,
    pub allocatable_mb: u64,
    pub allocated_mb: u64,
    pub apps: u32,
}

/// What is known of a device once it was asked. One that does not answer is unhealthy,
/// and its last figures stay.
pub open spec fn status_after(
    before: DeviceStatus,
    answer: Option<DeviceAnswer>,
    now: Timestamp,
) -> DeviceStatus {
    match answer {
        Some(a) => DeviceStatus {
            healthy: a.doctor_green,
            vm_memory_mb: a.vm_memory_mb,
            allocatable_mb: a.allocatable_mb,
            allocated_mb: a.allocated_mb,
            apps: a.apps,
            last_seen: Some(now),
        },
        None => DeviceStatus { healthy: false, ..before },
    }
}

/// Takes in a device's answer. Tells whether its health changed: that changes which
/// backends are live.
pub fn poll(
    statuses: &mut NameMap<DeviceStatus>,
    device: &str,
    answer: Option<DeviceAnswer>,
    now: Timestamp,
) -> (changed: bool)
    ensures
        final(statuses)@ == old(statuses)@.insert(
            device@,
            status_after(status_of(old(statuses)@, device@), answer, now),
        ),
        changed == (status_of(old(statuses)@, device@).healthy
            != final(statuses)@[device@].healthy),
{
    let before = known_status(statuses, device);
    let status = match answer {
        Some(a) => DeviceStatus {
            healthy: a.doctor_green,
            vm_memory_mb: a.vm_memory_mb,
            allocatable_mb: a.allocatable_mb,
            allocated_mb: a.allocated_mb,
            apps: a.apps,
            last_seen: Some(now),
        },
        None => DeviceStatus {
            healthy: false,
            vm_memory_mb: before.vm_memory_mb,
            allocatable_mb: before.allocatable_mb,
            allocated_mb: before.allocated_mb,
            apps: before.apps,
            last_seen: before.last_seen,
        },
    };
    statuses.insert(device.to_owned(), status);
    status.healthy != before.healthy
}

/// Refresh one device right after it joined. One that does not answer changes nothing.
pub fn poll_one(
    statuses: &mut NameMap<DeviceStatus>,
    device: &str,
    answer: Option<DeviceAnswer>,
    now: Timestamp,
)
    ensures
        final(statuses)@ == match answer {
            Some(_) => old(statuses)@.insert(
                device@,
                status_after(status_of(old(statuses)@, device@), answer, now),
            ),
            None => old(statuses)@,
        },
{
    if answer.is_some() {
        let _changed = poll(statuses, device, answer, now);
    }
}

// ------------------------------------------------------------------------ the apps

/// The apps of a device, each marked with the device.
pub open spec fn marked(apps: Seq<AppInfoView>, device: Seq<char>) -> Seq<AppInfoView> {
    Seq::new(apps.len(), |i: int| AppInfoView { device: Some(device), ..apps[i] })
}

/// What a device listed of its apps.
#[derive(Debug)]
pub struct DeviceApps {
    pub device: String,
    pub apps: Vec<AppInfo>,
}

/// The hub's own apps, then those of each device that answered.
pub open spec fn gathered(own: Seq<AppInfoView>, devices: Seq<DeviceApps>) -> Seq<AppInfoView>
    decreases devices.len(),
{
    if devices.len() == 0 {
        own
    } else {
        gathered(own, devices.drop_last()) + marked(
            types::app_info_views(devices.last().apps@),
            devices.last().device@,
        )
    }
}

pub open spec fn name_keys(apps: Seq<AppInfoView>) -> Seq<(nat, Seq<char>)> {
    Seq::new(apps.len(), |i: int| (0nat, apps[i].name))
}

/// The apps by name; those of one name keep their order.
pub open spec fn by_name(apps: Seq<AppInfoView>) -> Seq<AppInfoView> {
    Seq::new(apps.len(), |i: int| apps[order::ranked(name_keys(apps))[i]])
}

pub fn sort_by_name(apps: &Vec<AppInfo>) -> (r: Vec<AppInfo>)
    ensures
        types::app_info_views(r@) == by_name(types::app_info_views(apps@)),
{
    let ghost av = types::app_info_views(apps@);
    let mut keys: Vec<SortKey> = Vec::new();
    let mut i: usize = 0;
    while i < apps.len()
        invariant
            i <= apps.len(),
            keys@.len() == i,
            forall|j: int|
                0 <= j < i ==> (#[trigger] keys@[j]).rank == 0 && keys@[j].name@ == apps@[j].name@,
        decreases apps.len() - i,
    {
        keys.push(SortKey { rank: 0, name: apps[i].name.clone() });
        i += 1;
    }
    let ghost kv = name_keys(av);
    assert(order::key_views(keys@) =~= kv);
    let places = rank(&keys);
    let mut out: Vec<AppInfo> = Vec::new();
    let mut k: usize = 0;
    while k < places.len()
        invariant
            k <= places.len(),
            out@.len() == k,
            av == types::app_info_views(apps@),
            order::positions(places@) == order::ranked(kv),
            order::is_ranking(order::positions(places@), kv, apps@.len()),
            forall|j: int| 0 <= j < k ==> (#[trigger] out@[j])@ == av[order::ranked(kv)[j]],
        decreases places.len() - k,
    {
        let p = places[k];
        assert(order::positions(places@)[k as int] == p);
        out.push(apps[p].clone());
        k += 1;
    }
    assert(types::app_info_views(out@) =~= by_name(av));
    out
}

/// Merge the hub's own apps with every device's, by name.
pub fn merged_apps(own: &Vec<AppInfo>, devices: &Vec<DeviceApps>) -> (r: Vec<AppInfo>)
    ensures
        types::app_info_views(r@) == by_name(gathered(types::app_info_views(own@), devices@)),
{
    let ghost ov = types::app_info_views(own@);
    let mut out = types::clone_app_infos(own);
    let mut i: usize = 0;
    assert(devices@.take(0) =~= Seq::empty());
    while i < devices.len()
        invariant
            i <= devices.len(),
            types::app_info_views(out@) == gathered(ov, devices@.take(i as int)),
        decreases devices.len() - i,
    {
        let ghost before = out@;
        let d = &devices[i];
        let ghost more = marked(types::app_info_views(d.apps@), d.device@);
        let mut j: usize = 0;
        assert(more.take(0) =~= Seq::empty());
        while j < d.apps.len()
            invariant
                j <= d.apps.len(),
                more == marked(types::app_info_views(d.apps@), d.device@),
                types::app_info_views(out@) =~= types::app_info_views(before) + more.take(j as int),
            decreases d.apps.len() - j,
        {
            let mut a = d.apps[j].clone();
            a.device = Some(d.device.clone());
            assert(a@ == more[j as int]);
            let ghost so_far = out@;
            out.push(a);
            assert(types::app_info_views(out@) =~= types::app_info_views(so_far).push(
                more[j as int],
            ));
            assert(more.take(j + 1) =~= more.take(j as int).push(more[j as int]));
            j += 1;
        }
        assert(more.take(j as int) =~= more);
        assert(devices@.take(i + 1).drop_last() =~= devices@.take(i as int));
        i += 1;
    }
    assert(devices@.take(i as int) =~= devices@);
    sort_by_name(&out)
}

// -------------------------------------------------------------------------- joining

/// The devices after one joined: one of the same name is replaced.
pub open spec fn joined(
    devices: Seq<FleetDeviceRecordView>,
    d: FleetDeviceRecordView,
) -> Seq<FleetDeviceRecordView> {
    without(devices, d.name).push(d)
}

/// The devices of other names.
pub open spec fn without(devices: Seq<FleetDeviceRecordView>, name: Seq<char>) -> Seq<
    FleetDeviceRecordView,
>
    decreases devices.len(),
{
    if devices.len() == 0 {
        Seq::empty()
    } else if devices.last().name == name {
        without(devices.drop_last(), name)
    } else {
        without(devices.drop_last(), name).push(devices.last())
    }
}

impl FleetFile {
    fn retain_others(&mut self, name: &str)
        ensures
            final(self)@ == (FleetFileView {
                devices: without(old(self)@.devices, name@),
                ..old(self)@
            }),
    {
        let ghost dv = self@.devices;
        let mut kept: Vec<FleetDeviceRecord> = Vec::new();
        let mut i: usize = 0;
        assert(dv.take(0) =~= Seq::empty());
        assert(fleet_device_record_views(kept@) =~= Seq::empty());
        while i < self.devices.len()
            invariant
                i <= self.devices.len(),
                dv == self@.devices,
                *self == *old(self),
                fleet_device_record_views(kept@) == without(dv.take(i as int), name@),
            decreases self.devices.len() - i,
        {
            assert(dv.take(i + 1).drop_last() =~= dv.take(i as int));
            assert(dv.take(i + 1).last() == self.devices@[i as int]@);
            if !same(self.devices[i].name.as_str(), name) {
                let ghost before = kept@;
                kept.push(self.devices[i].clone());
                assert(fleet_device_record_views(kept@) =~= fleet_device_record_views(before).push(
                    dv[i as int],
                ));
            }
            i += 1;
        }
        assert(dv.take(i as int) =~= dv);
        self.devices = kept;
    }

    fn keep(&mut self, d: FleetDeviceRecord)
        ensures
            final(self)@ == (FleetFileView {
                devices: joined(old(self)@.devices, d@),
                ..old(self)@
            }),
    {
        self.retain_others(d.name.as_str());
        let ghost before = self.devices@;
        self.devices.push(d);
        assert(fleet_device_record_views(self.devices@) =~= fleet_device_record_views(before).push(
            d@,
        ));
    }

    /// A device joins, or joins anew.
    pub fn join(&mut self, req: &JoinRequest, now: Timestamp) -> (r: Result<(), HadesError>)
        ensures
            r is Ok <==> req@.name != "local"@ && req@.name.len() > 0,
            r matches Err(e) ==> e@ == ErrorView::InvalidSpec(
                "device name must be non-empty and not 'local'"@,
            ) && final(self)@ == old(self)@,
            r is Ok ==> final(self)@ == (FleetFileView {
                devices: joined(
                    old(self)@.devices,
                    FleetDeviceRecordView {
                        name: req@.name,
                        control_url: req@.control_url,
                        token: req@.token,
                        added_at: now,
                    },
                ),
                ..old(self)@
            }),
    {
        if same(req.name.as_str(), "local") || req.name.as_str().unicode_len() == 0 {
            return Err(
                HadesError::InvalidSpec("device name must be non-empty and not 'local'".to_owned()),
            );
        }
        self.keep(
            FleetDeviceRecord {
                name: req.name.clone(),
                control_url: req.control_url.clone(),
                token: req.token.clone(),
                added_at: now,
            },
        );
        Ok(())
    }

    /// A device leaves, and with it the placements on it.
    pub fn remove(&mut self, name: &str) -> (r: Result<(), HadesError>)
        ensures
            r is Ok <==> device_named(old(self)@.devices, name@) is Some,
            r matches Err(e) ==> e@ == ErrorView::AppNotFound("device "@ + name@),
            final(self)@ == (FleetFileView {
                devices: without(old(self)@.devices, name@),
                placements: maps::without_value(old(self)@.placements, name@),
            }),
    {
        let existed = self.device(name).is_some();
        self.retain_others(name);
        self.placements.drop_value(name);
        if existed {
            Ok(())
        } else {
            Err(HadesError::AppNotFound("device ".to_owned().concat(name)))
        }
    }
}

// ---------------------------------------------------------------------------- laws

/// The best offer is made by a device of the list, and no device offers more.
proof fn lemma_best_offer(
    devices: Seq<FleetDeviceRecordView>,
    statuses: Map<Seq<char>, DeviceStatus>,
    needed: u64,
)
    ensures
        match best_offer(devices, statuses, needed) {
            Some(o) => offers(statuses, o.name, needed) && o.free == statuses[o.name].free()
                && device_named(devices, o.name) is Some && forall|i: int|
                0 <= i < devices.len() && offers(statuses, (#[trigger] devices[i]).name, needed)
                    ==> statuses[devices[i].name].free() <= o.free,
            None => forall|i: int|
                0 <= i < devices.len() ==> !offers(
                    statuses,
                    (#[trigger] devices[i]).name,
                    needed,
                ),
        },
    decreases devices.len(),
{
    if devices.len() > 0 {
        let front = devices.drop_last();
        lemma_best_offer(front, statuses, needed);
        assert forall|i: int| 0 <= i < front.len() implies front[i] == #[trigger] devices[i] by {}
        match best_offer(devices, statuses, needed) {
            Some(o) => {
                assert forall|i: int|
                    0 <= i < devices.len() && offers(
                        statuses,
                        (#[trigger] devices[i]).name,
                        needed,
                    ) implies statuses[devices[i].name].free() <= o.free by {
                    if i < front.len() {
                        assert(front[i] == devices[i]);
                    }
                }
            },
            None => {},
        }
    }
}

/// An app goes where there is most room: a device is chosen only if it is one of the
/// fleet, healthy, has the memory that is needed, has more of it free than the hub,
/// and no healthy device has more.
pub proof fn apps_go_where_there_is_most_room(
    devices: Seq<FleetDeviceRecordView>,
    statuses: Map<Seq<char>, DeviceStatus>,
    needed: u64,
    self_free: u64,
)
    ensures
        match chosen(devices, statuses, needed, self_free) {
            Some(name) => {
                &&& device_named(devices, name) is Some
                &&& offers(statuses, name, needed)
                &&& statuses[name].free() > self_free
                &&& forall|i: int|
                    0 <= i < devices.len() && offers(
                        statuses,
                        (#[trigger] devices[i]).name,
                        needed,
                    ) ==> statuses[devices[i].name].free() <= statuses[name].free()
            },
            None => forall|i: int|
                0 <= i < devices.len() && offers(statuses, (#[trigger] devices[i]).name, needed)
                    ==> statuses[devices[i].name].free() <= self_free,
        },
{
    lemma_best_offer(devices, statuses, needed);
}

/// The devices of other names are found as before.
pub proof fn lemma_without(devices: Seq<FleetDeviceRecordView>, name: Seq<char>, other: Seq<char>)
    ensures
        device_named(without(devices, name), other) == if other == name {
            None
        } else {
            device_named(devices, other)
        },
    decreases devices.len(),
{
    if devices.len() > 0 {
        let front = devices.drop_last();
        lemma_without(front, name, other);
        let w = without(front, name).push(devices.last());
        assert(w.drop_last() =~= without(front, name));
    }
}

/// A device that joined is reached as it joined, once, and the others as before.
pub proof fn joining_changes_one_device(
    devices: Seq<FleetDeviceRecordView>,
    d: FleetDeviceRecordView,
    other: Seq<char>,
)
    ensures
        device_named(joined(devices, d), d.name) == Some(d),
        other != d.name ==> device_named(joined(devices, d), other) == device_named(devices, other),
        device_named(without(joined(devices, d), d.name), d.name) is None,
{
    let all = joined(devices, d);
    assert(all.drop_last() =~= without(devices, d.name));
    lemma_without(devices, d.name, d.name);
    lemma_without(devices, d.name, other);
    lemma_without(all, d.name, d.name);
}

/// A device is found by its name, if one of the list has it: the first that does.
pub proof fn devices_are_found_by_name(devices: Seq<FleetDeviceRecordView>, name: Seq<char>)
    ensures
        match device_named(devices, name) {
            Some(d) => exists|i: int|
                0 <= i < devices.len() && #[trigger] devices[i] == d && d.name == name && forall|
                    j: int,
                |
                    0 <= j < i ==> (#[trigger] devices[j]).name != name,
            None => forall|i: int| 0 <= i < devices.len() ==> (#[trigger] devices[i]).name != name,
        },
    decreases devices.len(),
{
    if devices.len() > 0 {
        let front = devices.drop_last();
        devices_are_found_by_name(front, name);
        assert forall|i: int| 0 <= i < front.len() implies front[i] == #[trigger] devices[i] by {}
        match device_named(front, name) {
            Some(d) => {
                let i = choose|i: int|
                    0 <= i < front.len() && #[trigger] front[i] == d && d.name == name && forall|
                        j: int,
                    |
                        0 <= j < i ==> (#[trigger] front[j]).name != name;
                assert(devices[i] == d);
                assert forall|j: int| 0 <= j < i implies (#[trigger] devices[j]).name != name by {
                    assert(front[j] == devices[j]);
                }
            },
            None => {
                if devices.last().name == name {
                    assert(devices[devices.len() - 1] == devices.last());
                }
            },
        }
    }
}

/// A device that leaves is taken off the list, and the others stay, in their order; one that
/// joins stands last.
pub proof fn leaving_takes_one_name_off(devices: Seq<FleetDeviceRecordView>, d: FleetDeviceRecordView)
    ensures
        without(devices, d.name) == devices.filter(|x: FleetDeviceRecordView| x.name != d.name),
        joined(devices, d).last() == d,
        joined(devices, d).drop_last() == devices.filter(
            |x: FleetDeviceRecordView| x.name != d.name,
        ),
    decreases devices.len(),
{
    reveal(Seq::filter);
    if devices.len() > 0 {
        leaving_takes_one_name_off(devices.drop_last(), d);
    }
    assert(joined(devices, d).drop_last() =~= without(devices, d.name));
}

/// The figures of a device's row are those that were last learned of it, or none: what is
/// free is what is left of what can be given away, and of the apps that the device reports
/// and those that were placed there the greater number counts.
pub proof fn rows_tell_what_was_learned(
    d: FleetDeviceRecordView,
    statuses: Map<Seq<char>, DeviceStatus>,
    placements: Map<Seq<char>, Seq<char>>,
)
    requires
        placements.dom().finite(),
        placements.dom().len() <= u32::MAX,
    ensures
        ({
            let row = device_row(
                d,
                status_of(statuses, d.name),
                placed_count(placements, d.name) as u32,
            );
            let st = statuses[d.name];
            let known = statuses.dom().contains(d.name);
            let placed = placements.dom().filter(|k: Seq<char>| placements[k] == d.name).len();
            &&& row.name == d.name && row.control_url == d.control_url && row.added_at == d.added_at
            &&& known ==> {
                &&& row.healthy == st.healthy && row.last_seen == st.last_seen
                &&& row.vm_memory_mb == st.vm_memory_mb && row.allocatable_mb == st.allocatable_mb
                    && row.allocated_mb == st.allocated_mb
                &&& row.allocated_mb + row.free_mb == if st.allocated_mb <= st.allocatable_mb {
                    st.allocatable_mb
                } else {
                    st.allocated_mb
                }
                &&& row.apps >= st.apps && row.apps >= placed && (row.apps == st.apps || row.apps
                    == placed)
            }
            &&& !known ==> !row.healthy && row.last_seen is None && row.free_mb == 0
                && row.vm_memory_mb == 0 && row.allocatable_mb == 0 && row.allocated_mb == 0
                && row.apps == placed
        }),
{
    let keys = names::listing(placements.dom());
    names::lemma_listing_exists(placements.dom());
    lemma_placed(placements, d.name, keys.len());
    let at = placements.dom().filter(|k: Seq<char>| placements[k] == d.name);
    assert(keys.take(keys.len() as int) =~= keys);
    assert(keys.to_set().filter(|k: Seq<char>| placements[k] == d.name) =~= at);
    vstd::set_lib::lemma_len_subset(at, placements.dom());
}

proof fn lemma_placed(placements: Map<Seq<char>, Seq<char>>, name: Seq<char>, n: nat)
    requires
        names::lists(names::listing(placements.dom()), placements.dom()),
        n <= names::listing(placements.dom()).len(),
    ensures
        ({
            let some = names::listing(placements.dom()).take(n as int);
            let at = some.to_set().filter(|k: Seq<char>| placements[k] == name);
            &&& at.finite()
            &&& placed_on(placements, name, n) == at.len()
        }),
    decreases n,
{
    let keys = names::listing(placements.dom());
    let some = keys.take(n as int);
    let at = some.to_set().filter(|k: Seq<char>| placements[k] == name);
    if n == 0 {
        assert(at =~= Set::empty());
    } else {
        let m = (n - 1) as nat;
        lemma_placed(placements, name, m);
        let key = keys[n - 1];
        let front = keys.take(m as int);
        let before = front.to_set().filter(|k: Seq<char>| placements[k] == name);
        assert(some =~= front.push(key));
        assert forall|k: Seq<char>| some.to_set().contains(k) <==> front.to_set().contains(k) || k
            == key by {
            if front.contains(k) {
                let i = choose|i: int| 0 <= i < front.len() && front[i] == k;
                assert(some[i] == k);
            }
            if some.contains(k) && k != key {
                let i = choose|i: int| 0 <= i < some.len() && some[i] == k;
                assert(front[i] == k);
            }
            assert(some[n - 1] == key);
        }
        if front.contains(key) {
            let i = choose|i: int| 0 <= i < front.len() && front[i] == key;
            assert(order::text_less(keys[i], keys[n - 1]));
            order::lemma_text_less_irreflexive(key);
        }
        assert(!before.contains(key));
        if placements[key] == name {
            assert(at =~= before.insert(key));
        } else {
            assert(at =~= before);
        }
    }
}

/// A device that answers is known by its answer; one that does not is unhealthy from there
/// on, and all else that is known of it stays. The first word of its health is a change, and
/// so is every other word than the last.
pub proof fn silent_devices_keep_their_figures(
    before: DeviceStatus,
    a: DeviceAnswer,
    now: Timestamp,
    later: Timestamp,
)
    ensures
        ({
            let heard = status_after(before, Some(a), now);
            let lost = status_after(heard, None, later);
            &&& heard.healthy == a.doctor_green && heard.vm_memory_mb == a.vm_memory_mb
                && heard.allocatable_mb == a.allocatable_mb && heard.allocated_mb == a.allocated_mb
                && heard.apps == a.apps && heard.last_seen == Some(now)
            &&& !lost.healthy && lost.vm_memory_mb == a.vm_memory_mb && lost.allocatable_mb
                == a.allocatable_mb && lost.allocated_mb == a.allocated_mb && lost.apps == a.apps
                && lost.last_seen == Some(now)
        }),
{
}

/// What the hub tells of itself are its own figures: its ledger's, the number of its apps and
/// its doctor's word.
pub proof fn the_hub_is_one_of_its_fleet(
    d: DaemonView,
    ledger: ResourceLedger,
    now: Timestamp,
)
    ensures
        ({
            let row = device_row(
                hub_record(d.control_url, d.started_at),
                own_status(d, Some(&ledger), now),
                0,
            );
            &&& row.name == "local"@ && row.healthy == d.doctor_green && row.last_seen == Some(now)
                && row.added_at == d.started_at
            &&& d.control_url matches Some(u) ==> row.control_url == u
            &&& d.control_url is None ==> row.control_url == ""@
            &&& row.vm_memory_mb == ledger.vm_memory_mb && row.allocatable_mb
                == ledger.allocatable_mb && row.allocated_mb == ledger.allocated_mb
            &&& ledger.allocated_mb <= ledger.allocatable_mb ==> row.free_mb
                == ledger.allocatable_mb - ledger.allocated_mb
            &&& row.apps == names::listing(d.store.apps.dom()).len() as u32
        }),
{
}

/// How many apps the devices list.
pub open spec fn listed(devices: Seq<DeviceApps>) -> nat
    decreases devices.len(),
{
    if devices.len() == 0 {
        0
    } else {
        listed(devices.drop_last()) + devices.last().apps@.len()
    }
}

/// The apps of the fleet are all listed, by name, each with the device that it runs on: those
/// of the hub with none, those of each device with its name.
pub proof fn the_fleets_apps_are_all_listed(
    own: Seq<AppInfoView>,
    devices: Seq<DeviceApps>,
    i: int,
    d: int,
    j: int,
    p: int,
    q: int,
)
    requires
        0 <= p < q < by_name(gathered(own, devices)).len(),
    ensures
        ({
            let all = by_name(gathered(own, devices));
            &&& all.len() == own.len() + listed(devices)
            &&& 0 <= i < own.len() ==> all.contains(own[i])
            &&& 0 <= d < devices.len() && 0 <= j < devices[d].apps@.len() ==> all.contains(
                AppInfoView { device: Some(devices[d].device@), ..devices[d].apps@[j]@ },
            )
            &&& !order::text_less(all[q].name, all[p].name)
        }),
{
    let apps = gathered(own, devices);
    let all = by_name(apps);
    lemma_gathered(own, devices, i, d, j);
    let keys = name_keys(apps);
    order::lemma_ranked_upto(keys, keys.len());
    let r = order::ranked(keys);
    assert forall|a: AppInfoView| apps.contains(a) implies #[trigger] all.contains(a) by {
        let k = choose|k: int| 0 <= k < apps.len() && apps[k] == a;
        assert(r.contains(k));
        let at = choose|at: int| 0 <= at < r.len() && r[at] == k;
        assert(all[at] == a);
    }
    if order::text_less(all[q].name, all[p].name) {
        assert(keys[r[p]].1 == all[p].name && keys[r[q]].1 == all[q].name);
        if order::text_less(all[p].name, all[q].name) {
            order::lemma_text_less_transitive(all[p].name, all[q].name, all[p].name);
        }
        order::lemma_text_less_irreflexive(all[p].name);
    }
}

proof fn lemma_gathered(own: Seq<AppInfoView>, devices: Seq<DeviceApps>, i: int, d: int, j: int)
    ensures
        ({
            let all = gathered(own, devices);
            &&& all.len() == own.len() + listed(devices)
            &&& 0 <= i < own.len() ==> all.contains(own[i])
            &&& 0 <= d < devices.len() && 0 <= j < devices[d].apps@.len() ==> all.contains(
                AppInfoView { device: Some(devices[d].device@), ..devices[d].apps@[j]@ },
            )
        }),
    decreases devices.len(),
{
    let all = gathered(own, devices);
    if devices.len() > 0 {
        let front = devices.drop_last();
        let before = gathered(own, front);
        lemma_gathered(own, front, i, d, j);
        let last = devices.last();
        let more = marked(types::app_info_views(last.apps@), last.device@);
        assert forall|a: AppInfoView| before.contains(a) implies #[trigger] all.contains(a) by {
            let k = choose|k: int| 0 <= k < before.len() && before[k] == a;
            assert(all[k] == a);
        }
        if d == front.len() && 0 <= j < last.apps@.len() {
            assert(all[before.len() + j] == more[j]);
        }
    } else if 0 <= i < own.len() {
        assert(all[i] == own[i]);
    }
}

} // verus!
