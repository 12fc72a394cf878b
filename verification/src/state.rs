//! What the daemon remembers: the desired state of its apps, the processes it owns,
//! its fleet and its claimed names. The records are kept as files, so that they
//! survive a restart of the daemon.
use vstd::prelude::*;

use crate::app_spec::{AppSpec, AppSpecView};
use crate::events::PauseReason;
use crate::fleet;
use crate::fleet::{clone_fleet_device_records, FleetDeviceRecord, FleetDeviceRecordView};
use crate::maps::TextMap;
use crate::names;
use crate::names::NameMap;
use crate::time::Timestamp;
use crate::types::AppState;
use crate::values;
use crate::values::clone_opt;

verus! {

#[derive(Debug)]
pub struct ReplicaRecord {
    pub container_id: String,
    pub host_port: u16,
}

/// The contents of a `ReplicaRecord`.
pub struct ReplicaRecordView {
    pub container_id: Seq<char>,
    pub host_port: u16,
}

impl View for ReplicaRecord {
    type V = ReplicaRecordView;

    open spec fn view(&self) -> ReplicaRecordView {
        ReplicaRecordView {
            container_id: self.container_id@,
            host_port: self.host_port,
        }
    }
}

impl Clone for ReplicaRecord {
    fn clone(&self) -> (r: Self)
        ensures
            r@ == self@,
    {
        ReplicaRecord {
            container_id: self.container_id.clone(),
            host_port: self.host_port,
        }
    }
}

pub open spec fn replica_record_views(v: Seq<ReplicaRecord>) -> Seq<ReplicaRecordView> {
    Seq::new(v.len(), |i: int| v[i]@)
}

pub fn clone_replica_records(v: &Vec<ReplicaRecord>) -> (r: Vec<ReplicaRecord>)
    ensures
        replica_record_views(r@) == replica_record_views(v@),
{
    let mut out: Vec<ReplicaRecord> = Vec::new();
    let mut i: usize = 0;
    while i < v.len()
        invariant
            i <= v.len(),
            out@.len() == i,
            forall|j: int| 0 <= j < i ==> (#[trigger] out@[j])@ == v@[j]@,
        decreases v.len() - i,
    {
        out.push(v[i].clone());
        i += 1;
    }
    assert(replica_record_views(out@) =~= replica_record_views(v@));
    out
}

#[derive(Debug)]
pub struct AppRecord {
    pub spec: AppSpec,
    pub state: AppState,
    pub created_at: Timestamp,
    pub replicas: Vec<ReplicaRecord>,
    pub tunnel_url: Option<String>,
    pub url_changed_at: Option<Timestamp>,
    pub paused_reason: Option<PauseReason>,
    pub restarts: u32,
    /// Recent OOM-kill times, pruned to the crash-loop window.
    pub oom_times: Vec<Timestamp>,
    /// The number of the first replica of the generation that runs.
    pub numbered_from: u8,
}

/// The contents of an `AppRecord`.
pub struct AppRecordView {
    pub spec: AppSpecView,
    pub state: AppState,
    pub created_at: Timestamp,
    pub replicas: Seq<ReplicaRecordView>,
    pub tunnel_url: Option<Seq<char>>,
    pub url_changed_at: Option<Timestamp>,
    pub paused_reason: Option<PauseReason>,
    pub restarts: u32,
    pub oom_times: Seq<Timestamp>,
    pub numbered_from: u8,
}

impl View for AppRecord {
    type V = AppRecordView;

    open spec fn view(&self) -> AppRecordView {
        AppRecordView {
            spec: self.spec@,
            state: self.state,
            created_at: self.created_at,
            replicas: replica_record_views(self.replicas@),
            tunnel_url: values::opt_view(self.tunnel_url),
            url_changed_at: self.url_changed_at,
            paused_reason: self.paused_reason,
            restarts: self.restarts,
            oom_times: self.oom_times@,
            numbered_from: self.numbered_from,
        }
    }
}

impl Clone for AppRecord {
    fn clone(&self) -> (r: Self)
        ensures
            r@ == self@,
    {
        AppRecord {
            spec: self.spec.clone(),
            state: self.state,
            created_at: self.created_at,
            replicas: clone_replica_records(&self.replicas),
            tunnel_url: clone_opt(&self.tunnel_url),
            url_changed_at: self.url_changed_at,
            paused_reason: self.paused_reason,
            restarts: self.restarts,
            oom_times: clone_times(&self.oom_times),
            numbered_from: self.numbered_from,
        }
    }
}

/// A stable public name that an app holds, and the token of its tunnel.
#[derive(Debug)]
pub struct ClaimRecord {
    pub app: String,
    pub name: String,
    pub hostname: String,
    pub connector_token: String,
}

/// The contents of a `ClaimRecord`.
pub struct ClaimRecordView {
    pub app: Seq<char>,
    pub name: Seq<char>,
    pub hostname: Seq<char>,
    pub connector_token: Seq<char>,
}

impl View for ClaimRecord {
    type V = ClaimRecordView;

    open spec fn view(&self) -> ClaimRecordView {
        ClaimRecordView {
            app: self.app@,
            name: self.name@,
            hostname: self.hostname@,
            connector_token: self.connector_token@,
        }
    }
}

impl Clone for ClaimRecord {
    fn clone(&self) -> (r: Self)
        ensures
            r@ == self@,
    {
        ClaimRecord {
            app: self.app.clone(),
            name: self.name.clone(),
            hostname: self.hostname.clone(),
            connector_token: self.connector_token.clone(),
        }
    }
}

pub fn clone_times(v: &Vec<Timestamp>) -> (r: Vec<Timestamp>)
    ensures
        r@ == v@,
{
    let mut out: Vec<Timestamp> = Vec::new();
    let mut i: usize = 0;
    while i < v.len()
        invariant
            i <= v.len(),
            out@ == v@.take(i as int),
        decreases v.len() - i,
    {
        assert(v@.take(i + 1) =~= v@.take(i as int).push(v@[i as int]));
        out.push(v[i]);
        i += 1;
    }
    assert(v@.take(i as int) =~= v@);
    out
}

impl AppRecordView {
    /// A record of an app that is being deployed for the first time.
    pub open spec fn fresh(spec: AppSpecView, now: Timestamp) -> AppRecordView {
        AppRecordView {
            spec,
            state: AppState::Deploying,
            created_at: now,
            replicas: Seq::empty(),
            tunnel_url: None,
            url_changed_at: None,
            paused_reason: None,
            restarts: 0,
            oom_times: Seq::empty(),
            numbered_from: 0,
        }
    }
}

impl AppRecord {
    pub fn new(spec: AppSpec, now: Timestamp) -> (r: Self)
        ensures
            r@ == AppRecordView::fresh(spec@, now),
    {
        let r = AppRecord {
            spec,
            state: AppState::Deploying,
            created_at: now,
            replicas: Vec::new(),
            tunnel_url: None,
            url_changed_at: None,
            paused_reason: None,
            restarts: 0,
            oom_times: Vec::new(),
            numbered_from: 0,
        };
        assert(r@.replicas =~= Seq::empty());
        r
    }
}

/// Cloudflared processes that the daemon owns, so that orphans can be killed after a
/// crash.
#[derive(Debug)]
pub struct Registry {
    pub cloudflared: NameMap<u32>,
    pub daemon_pid: Option<u32>,
}

pub struct RegistryView {
    pub cloudflared: Map<Seq<char>, u32>,
    pub daemon_pid: Option<u32>,
}

impl View for Registry {
    type V = RegistryView;

    open spec fn view(&self) -> RegistryView {
        RegistryView { cloudflared: self.cloudflared@, daemon_pid: self.daemon_pid }
    }
}

/// The hub's record of its fleet: joined devices plus where remote apps were placed.
#[derive(Debug)]
pub struct FleetFile {
    pub devices: Vec<FleetDeviceRecord>,
    /// app name -> device name (apps absent here run on the hub itself)
    pub placements: TextMap,
}

pub struct FleetFileView {
    pub devices: Seq<FleetDeviceRecordView>,
    pub placements: Map<Seq<char>, Seq<char>>,
}

impl View for FleetFile {
    type V = FleetFileView;

    open spec fn view(&self) -> FleetFileView {
        FleetFileView {
            devices: fleet::fleet_device_record_views(self.devices@),
            placements: self.placements@,
        }
    }
}

impl Clone for FleetFile {
    fn clone(&self) -> (r: Self)
        ensures
            r@ == self@,
    {
        FleetFile {
            devices: clone_fleet_device_records(&self.devices),
            placements: self.placements.clone(),
        }
    }
}

// --------------------------------------------------------------------- the store

#[derive(Debug)]
pub struct Store {
    pub apps: NameMap<AppRecord>,
    pub registry: Registry,
    pub fleet: FleetFile,
    pub claims: NameMap<ClaimRecord>,
}

pub struct StoreView {
    pub apps: Map<Seq<char>, AppRecordView>,
    pub registry: RegistryView,
    pub fleet: FleetFileView,
    pub claims: Map<Seq<char>, ClaimRecordView>,
}

pub open spec fn app_map(m: Map<Seq<char>, AppRecord>) -> Map<Seq<char>, AppRecordView> {
    m.map_values(|r: AppRecord| r@)
}

pub open spec fn claim_map(m: Map<Seq<char>, ClaimRecord>) -> Map<Seq<char>, ClaimRecordView> {
    m.map_values(|r: ClaimRecord| r@)
}

impl View for Store {
    type V = StoreView;

    open spec fn view(&self) -> StoreView {
        StoreView {
            apps: app_map(self.apps@),
            registry: self.registry@,
            fleet: self.fleet@,
            claims: claim_map(self.claims@),
        }
    }
}

impl StoreView {
    pub open spec fn with_apps(self, apps: Map<Seq<char>, AppRecordView>) -> StoreView {
        StoreView { apps, ..self }
    }

    pub open spec fn with_claims(self, claims: Map<Seq<char>, ClaimRecordView>) -> StoreView {
        StoreView { claims, ..self }
    }

    pub open spec fn with_pids(self, cloudflared: Map<Seq<char>, u32>) -> StoreView {
        StoreView { registry: RegistryView { cloudflared, ..self.registry }, ..self }
    }

    pub open spec fn with_placements(self, placements: Map<Seq<char>, Seq<char>>) -> StoreView {
        StoreView { fleet: FleetFileView { placements, ..self.fleet }, ..self }
    }

    pub open spec fn with_devices(self, devices: Seq<FleetDeviceRecordView>) -> StoreView {
        StoreView { fleet: FleetFileView { devices, ..self.fleet }, ..self }
    }

    /// Each app is kept under its own name.
    pub open spec fn wf(self) -> bool {
        forall|k: Seq<char>| #[trigger]
            self.apps.dom().contains(k) ==> self.apps[k].spec.name == k
    }

    /// The apps, by name.
    pub open spec fn app_list(self) -> Seq<AppRecordView> {
        let keys = names::listing(self.apps.dom());
        Seq::new(keys.len(), |i: int| self.apps[keys[i]])
    }

    pub open spec fn app(self, name: Seq<char>) -> Option<AppRecordView> {
        if self.apps.dom().contains(name) {
            Some(self.apps[name])
        } else {
            None
        }
    }

    pub open spec fn claim_of(self, app: Seq<char>) -> Option<ClaimRecordView> {
        if self.claims.dom().contains(app) {
            Some(self.claims[app])
        } else {
            None
        }
    }
}

pub open spec fn opt_record(o: Option<AppRecord>) -> Option<AppRecordView> {
    match o {
        Some(r) => Some(r@),
        None => None,
    }
}

pub open spec fn opt_claim(o: Option<ClaimRecord>) -> Option<ClaimRecordView> {
    match o {
        Some(r) => Some(r@),
        None => None,
    }
}

impl Store {
    /// The records as the files hold them; a file that is missing or does not read
    /// counts as empty.
    pub fn load(
        apps: Option<NameMap<AppRecord>>,
        registry: Option<Registry>,
        fleet: Option<FleetFile>,
        claims: Option<NameMap<ClaimRecord>>,
    ) -> (r: Self)
        ensures
            r@.apps == match apps {
                Some(a) => app_map(a@),
                None => Map::empty(),
            },
            r@.registry == match registry {
                Some(g) => g@,
                None => RegistryView { cloudflared: Map::empty(), daemon_pid: None },
            },
            r@.fleet == match fleet {
                Some(f) => f@,
                None => FleetFileView { devices: Seq::empty(), placements: Map::empty() },
            },
            r@.claims == match claims {
                Some(c) => claim_map(c@),
                None => Map::empty(),
            },
    {
        let apps = match apps {
            Some(a) => a,
            None => {
                let a = NameMap::new();
                assert(app_map(a@) =~= Map::empty());
                a
            },
        };
        let registry = match registry {
            Some(g) => g,
            None => Registry { cloudflared: NameMap::new(), daemon_pid: None },
        };
        let fleet = match fleet {
            Some(f) => f,
            None => {
                let f = FleetFile { devices: Vec::new(), placements: TextMap::new() };
                assert(f@.devices =~= Seq::empty());
                f
            },
        };
        let claims = match claims {
            Some(c) => c,
            None => {
                let c = NameMap::new();
                assert(claim_map(c@) =~= Map::empty());
                c
            },
        };
        Store { apps, registry, fleet, claims }
    }

    pub fn get(&self, name: &str) -> (r: Option<AppRecord>)
        ensures
            opt_record(r) == self@.app(name@),
    {
        match self.apps.get(name) {
            Some(rec) => Some(rec.clone()),
            None => None,
        }
    }

    pub fn has_app(&self, name: &str) -> (r: bool)
        ensures
            r == self@.apps.dom().contains(name@),
    {
        self.apps.get(name).is_some()
    }

    /// All apps, by name.
    pub fn snapshot(&self) -> (r: Vec<AppRecord>)
        ensures
            app_record_views(r@) == self@.app_list(),
    {
        let n = self.apps.len();
        let ghost keys = self.apps.key_list();
        assert(app_map(self.apps@).dom() =~= self.apps@.dom());
        let mut out: Vec<AppRecord> = Vec::new();
        let mut i: usize = 0;
        while i < n
            invariant
                i <= n,
                keys == self.apps.key_list(),
                n == keys.len(),
                names::lists(keys, self.apps@.dom()),
                out@.len() == i,
                forall|j: int| 0 <= j < i ==> (#[trigger] out@[j])@ == self@.apps[keys[j]],
            decreases n - i,
        {
            assert(keys.contains(keys[i as int]));
            out.push(self.apps.value_at(i).clone());
            i += 1;
        }
        assert(app_record_views(out@) =~= self@.app_list());
        out
    }

    /// Keeps a record under a name.
    pub fn put(&mut self, name: &str, rec: AppRecord)
        ensures
            final(self)@ == old(self)@.with_apps(old(self)@.apps.insert(name@, rec@)),
    {
        self.apps.insert(name.to_owned(), rec);
        assert(app_map(self.apps@) =~= app_map(old(self).apps@).insert(name@, rec@));
    }

    /// Takes a record out.
    pub fn take(&mut self, name: &str) -> (r: Option<AppRecord>)
        ensures
            final(self)@ == old(self)@.with_apps(old(self)@.apps.remove(name@)),
            opt_record(r) == old(self)@.app(name@),
    {
        let r = self.apps.remove(name);
        assert(app_map(self.apps@) =~= app_map(old(self).apps@).remove(name@));
        r
    }

    pub fn fleet_snapshot(&self) -> (r: FleetFile)
        ensures
            r@ == self@.fleet,
    {
        self.fleet.clone()
    }

    /// The name that an app holds.
    pub fn claim_for(&self, app: &str) -> (r: Option<ClaimRecord>)
        ensures
            opt_claim(r) == self@.claim_of(app@),
    {
        match self.claims.get(app) {
            Some(c) => Some(c.clone()),
            None => None,
        }
    }

    /// All claims, by app.
    pub fn claims_snapshot(&self) -> (r: Vec<ClaimRecord>)
        ensures
            r@.len() == names::listing(self@.claims.dom()).len(),
            forall|i: int|
                0 <= i < r@.len() ==> (#[trigger] r@[i])@ == self@.claims[names::listing(
                    self@.claims.dom(),
                )[i]],
    {
        let n = self.claims.len();
        let ghost keys = self.claims.key_list();
        assert(claim_map(self.claims@).dom() =~= self.claims@.dom());
        let mut out: Vec<ClaimRecord> = Vec::new();
        let mut i: usize = 0;
        while i < n
            invariant
                i <= n,
                keys == self.claims.key_list(),
                n == keys.len(),
                names::lists(keys, self.claims@.dom()),
                out@.len() == i,
                forall|j: int| 0 <= j < i ==> (#[trigger] out@[j])@ == self@.claims[keys[j]],
            decreases n - i,
        {
            assert(keys.contains(keys[i as int]));
            out.push(self.claims.value_at(i).clone());
            i += 1;
        }
        out
    }

    pub fn put_claim(&mut self, claim: ClaimRecord)
        ensures
            final(self)@ == old(self)@.with_claims(
                old(self)@.claims.insert(claim@.app, claim@),
            ),
    {
        let app = claim.app.clone();
        self.claims.insert(app, claim);
        assert(claim_map(self.claims@) =~= claim_map(old(self).claims@).insert(claim@.app, claim@));
    }

    pub fn drop_claim(&mut self, app: &str)
        ensures
            final(self)@ == old(self)@.with_claims(old(self)@.claims.remove(app@)),
    {
        let _gone = self.claims.remove(app);
        assert(claim_map(self.claims@) =~= claim_map(old(self).claims@).remove(app@));
    }

    /// Notes a process of ours.
    pub fn put_pid(&mut self, key: &str, pid: u32)
        ensures
            final(self)@ == old(self)@.with_pids(
                old(self)@.registry.cloudflared.insert(key@, pid),
            ),
    {
        self.registry.cloudflared.insert(key.to_owned(), pid);
    }

    pub fn drop_pid(&mut self, key: &str)
        ensures
            final(self)@ == old(self)@.with_pids(old(self)@.registry.cloudflared.remove(key@)),
    {
        let _gone = self.registry.cloudflared.remove(key);
    }

    /// Notes which device runs an app.
    pub fn place(&mut self, app: &str, device: &str)
        ensures
            final(self)@ == old(self)@.with_placements(
                old(self)@.fleet.placements.insert(app@, device@),
            ),
    {
        self.fleet.placements.insert(app.to_owned(), device.to_owned());
    }

    pub fn unplace(&mut self, app: &str)
        ensures
            final(self)@ == old(self)@.with_placements(
                old(self)@.fleet.placements.remove(app@),
            ),
    {
        self.fleet.placements.remove(app);
    }
}

pub open spec fn app_record_views(v: Seq<AppRecord>) -> Seq<AppRecordView> {
    Seq::new(v.len(), |i: int| v[i]@)
}

// ---------------------------------------------------------------------------- laws

/// A snapshot holds every app, each once, by name.
pub proof fn snapshots_hold_every_app_once(s: StoreView, name: Seq<char>, i: int, j: int)
    requires
        s.wf(),
        s.apps.dom().finite(),
        0 <= i < j < s.app_list().len(),
    ensures
        s.apps.dom().contains(name) ==> s.app_list().contains(s.apps[name]),
        s.apps.dom().contains(s.app_list()[i].spec.name),
        s.apps[s.app_list()[i].spec.name] == s.app_list()[i],
        crate::order::text_less(s.app_list()[i].spec.name, s.app_list()[j].spec.name),
        s.app_list()[i].spec.name != s.app_list()[j].spec.name,
{
    let keys = names::listing(s.apps.dom());
    names::lemma_listing_exists(s.apps.dom());
    if s.apps.dom().contains(name) {
        assert(keys.contains(name));
        let k = choose|k: int| 0 <= k < keys.len() && keys[k] == name;
        assert(s.app_list()[k] == s.apps[name]);
    }
    assert(keys.contains(keys[i]));
    assert(keys.contains(keys[j]));
    crate::order::lemma_text_less_irreflexive(keys[i]);
}

/// Each kind of record is kept by itself: writing one leaves the others as they are.
pub proof fn records_are_kept_apart(
    s: StoreView,
    apps: Map<Seq<char>, AppRecordView>,
    claims: Map<Seq<char>, ClaimRecordView>,
    pids: Map<Seq<char>, u32>,
    placements: Map<Seq<char>, Seq<char>>,
    devices: Seq<FleetDeviceRecordView>,
)
    ensures
        ({
            let (a, c, p, l, d) = (
                s.with_apps(apps),
                s.with_claims(claims),
                s.with_pids(pids),
                s.with_placements(placements),
                s.with_devices(devices),
            );
            &&& a.apps == apps && a.registry == s.registry && a.fleet == s.fleet && a.claims
                == s.claims
            &&& c.claims == claims && c.apps == s.apps && c.registry == s.registry && c.fleet
                == s.fleet
            &&& p.registry.cloudflared == pids && p.registry.daemon_pid == s.registry.daemon_pid
                && p.apps == s.apps && p.fleet == s.fleet && p.claims == s.claims
            &&& l.fleet.placements == placements && l.fleet.devices == s.fleet.devices && l.apps
                == s.apps && l.registry == s.registry && l.claims == s.claims
            &&& d.fleet.devices == devices && d.fleet.placements == s.fleet.placements && d.apps
                == s.apps && d.registry == s.registry && d.claims == s.claims
        }),
{
}

/// A record that is kept under a name is found under it, as it was written, and no other
/// record changes; one that was taken out is found no more.
pub proof fn records_are_found_as_written(
    s: StoreView,
    name: Seq<char>,
    rec: AppRecordView,
    other: Seq<char>,
)
    ensures
        s.with_apps(s.apps.insert(name, rec)).app(name) == Some(rec),
        s.with_apps(s.apps.remove(name)).app(name) is None,
        other != name ==> s.with_apps(s.apps.insert(name, rec)).app(other) == s.app(other)
            && s.with_apps(s.apps.remove(name)).app(other) == s.app(other),
{
}

/// An app that is deployed for the first time is on record as deploying, since now, with
/// nothing that runs, no URL and no history.
pub proof fn fresh_records_have_no_history(spec: AppSpecView, now: Timestamp)
    ensures
        ({
            let r = AppRecordView::fresh(spec, now);
            &&& r.spec == spec && r.created_at == now && r.state == AppState::Deploying
            &&& r.replicas.len() == 0 && r.restarts == 0 && r.oom_times.len() == 0
            &&& r.tunnel_url is None && r.url_changed_at is None && r.paused_reason is None
            &&& r.numbered_from == 0
        }),
{
}

} // verus!
