//! The daemon's state and the life of its apps: their routes, pausing and resuming,
//! destroying, and stable public names.
use vstd::prelude::*;

use crate::app_spec::{AppSpec, AppSpecView};
use crate::config::{HadesConfig, HadesConfigView};
use crate::error::{ErrorView, HadesError};
use crate::events::{HostEvent, HostEventView, PauseReason, PressureLevel};
use crate::fleet::DeviceStatus;
use crate::json;
use crate::json::string_at;
use crate::maps;
use crate::maps::TextMap;
use crate::names::NameMap;
use crate::proxy;
use crate::proxy::{AppRoute, Backend, BackendView, RouteTable};
use crate::rollout;
use crate::rollout::container_ids;
use crate::secrets::overlay;
use crate::split;
use crate::state;
use crate::state::{
    AppRecord, AppRecordView, ClaimRecord, ClaimRecordView, ReplicaRecord, ReplicaRecordView, Store,
    StoreView,
};
use crate::text;
use crate::text::{dec, same, trim_trailing, without_prefix};
use crate::time::Timestamp;
use crate::types::{AppInfo, AppInfoView, AppState};
use crate::values;
use crate::values::clone_opt;

verus! {

/// What the daemon knows and decides on.
#[derive(Debug)]
pub struct Daemon {
    pub config: HadesConfig,
    pub store: Store,
    pub table: RouteTable,
    /// Can quick tunnels be had?
    pub provider: bool,
    /// The tunnel tasks that run, by their keys.
    pub tunnels: NameMap<bool>,
    pub doctor_green: bool,
    pub doctor_failed: Vec<String>,
    /// Public URL of the control tunnel (the daemon's own API), when up.
    pub control_url: Option<String>,
    pub started_at: Timestamp,
    pub pressure: PressureLevel,
    /// What was last learned of each fleet device.
    pub fleet_status: NameMap<DeviceStatus>,
}

/// The contents of a `Daemon`, apart from the routes.
pub struct DaemonView {
    pub config: HadesConfigView,
    pub store: StoreView,
    pub provider: bool,
    pub tunnels: Set<Seq<char>>,
    pub doctor_green: bool,
    pub doctor_failed: Seq<Seq<char>>,
    pub control_url: Option<Seq<char>>,
    pub started_at: Timestamp,
    pub pressure: PressureLevel,
    pub fleet_status: Map<Seq<char>, DeviceStatus>,
}

impl View for Daemon {
    type V = DaemonView;

    open spec fn view(&self) -> DaemonView {
        DaemonView {
            config: self.config@,
            store: self.store@,
            provider: self.provider,
            tunnels: self.tunnels@.dom(),
            doctor_green: self.doctor_green,
            doctor_failed: split::views(self.doctor_failed@),
            control_url: values::opt_view(self.control_url),
            started_at: self.started_at,
            pressure: self.pressure,
            fleet_status: self.fleet_status@,
        }
    }
}

impl DaemonView {
    pub open spec fn with_store(self, store: StoreView) -> DaemonView {
        DaemonView { store, ..self }
    }

    pub open spec fn with_tunnels(self, tunnels: Set<Seq<char>>) -> DaemonView {
        DaemonView { tunnels, ..self }
    }
}

impl Daemon {
    /// The routes are in order.
    pub open spec fn wf(&self) -> bool {
        self.table.wf()
    }

    /// A daemon that has just started: nothing is routed, no tunnel runs, and the doctor has
    /// yet to look.
    pub fn new(config: HadesConfig, store: Store, provider: bool, started_at: Timestamp) -> (r: Self)
        ensures
            r@ == (DaemonView {
                config: config@,
                store: store@,
                provider,
                tunnels: Set::empty(),
                doctor_green: false,
                doctor_failed: seq!["starting"@],
                control_url: None,
                started_at,
                pressure: PressureLevel::Normal,
                fleet_status: Map::empty(),
            }),
            r.table.wf(),
            r.table.hosts@ == Map::<Seq<char>, Seq<char>>::empty(),
            r.table.routes@ == Map::<Seq<char>, AppRoute>::empty(),
            r.table.minted == 0,
    {
        let mut doctor_failed: Vec<String> = Vec::new();
        doctor_failed.push("starting".to_owned());
        let r = Daemon {
            config,
            store,
            table: RouteTable::new(),
            provider,
            tunnels: NameMap::new(),
            doctor_green: false,
            doctor_failed,
            control_url: None,
            started_at,
            pressure: PressureLevel::Normal,
            fleet_status: NameMap::new(),
        };
        assert(r@.tunnels =~= Set::empty());
        assert(r@.doctor_failed =~= seq!["starting"@]);
        r
    }
}

// -------------------------------------------------------------------------- routes

/// The hostnames that lead to an app: its local one, its name under the host's own
/// domain, the name that it claimed (the apex also as www), and its tunnel's.
pub open spec fn hostnames_of(d: DaemonView, rec: AppRecordView) -> Seq<Seq<char>> {
    let local = seq![rec.spec.name + ".localhost"@];
    let own = match d.config.domain.name {
        Some(dom) => local.push(rec.spec.name + "."@ + dom),
        None => local,
    };
    let claimed = match d.store.claim_of(rec.spec.name) {
        Some(c) => if c.name == "@"@ {
            own.push("www."@ + c.hostname).push(c.hostname)
        } else {
            own.push(c.hostname)
        },
        None => own,
    };
    match rec.tunnel_url {
        Some(url) => match text::strip_prefix(url, "https://"@) {
            Some(host) => claimed.push(host),
            None => claimed,
        },
        None => claimed,
    }
}

/// Where an app's replicas listen.
pub open spec fn loopbacks(replicas: Seq<ReplicaRecordView>) -> Seq<BackendView> {
    Seq::new(
        replicas.len(),
        |i: int|
            BackendView::Local("127.0.0.1:"@ + text::decimal(replicas[i].host_port as nat)),
    )
}

/// `after` is `before` with an app's route installed or replaced.
pub open spec fn app_routed(
    before: RouteTable,
    after: RouteTable,
    app: Seq<char>,
    hostnames: Seq<Seq<char>>,
    backends: Seq<BackendView>,
    cap: Option<u32>,
) -> bool {
    let r = after.routes@[app];
    &&& after.hosts@ == proxy::with_hosts(
        maps::without_value(before.hosts@, app),
        hostnames,
        app,
    )
    &&& after.routes@.dom() == before.routes@.dom().insert(app)
    &&& forall|a: Seq<char>|
        a != app && before.routes@.dom().contains(a) ==> #[trigger] after.routes@[a]
            == before.routes@[a]
    &&& proxy::backend_views(r.backends@) == backends
    &&& before.routes@.dom().contains(app) ==> after.minted == before.minted && r == (AppRoute {
        backends: r.backends,
        max_inflight: cap,
        ..before.routes@[app]
    })
    &&& !before.routes@.dom().contains(app) ==> after.minted == proxy::up64(before.minted, 1)
        && r.serial == before.minted && r.rr == 0 && r.max_inflight == cap && r.inflight == 0
        && r.requests == 0 && r.shed == 0 && r.latencies_ms@.len() == 0
}

/// `after` is `before` with the routes of a record installed.
pub open spec fn installed(
    d: DaemonView,
    rec: AppRecordView,
    before: RouteTable,
    after: RouteTable,
) -> bool {
    app_routed(
        before,
        after,
        rec.spec.name,
        hostnames_of(d, rec),
        loopbacks(rec.replicas),
        rec.spec.max_concurrent_requests,
    )
}

fn loopbacks_of(replicas: &Vec<ReplicaRecord>) -> (r: Vec<Backend>)
    ensures
        proxy::backend_views(r@) == loopbacks(state::replica_record_views(replicas@)),
{
    let mut out: Vec<Backend> = Vec::new();
    let mut i: usize = 0;
    while i < replicas.len()
        invariant
            i <= replicas.len(),
            out@.len() == i,
            forall|j: int|
                0 <= j < i ==> (#[trigger] out@[j])@ == BackendView::Local(
                    "127.0.0.1:"@ + text::decimal(replicas@[j].host_port as nat),
                ),
        decreases replicas.len() - i,
    {
        out.push(
            Backend::Local(
                "127.0.0.1:".to_owned().concat(dec(replicas[i].host_port as u64).as_str()),
            ),
        );
        i += 1;
    }
    assert(proxy::backend_views(out@) =~= loopbacks(state::replica_record_views(replicas@)));
    out
}

impl Daemon {
    fn hostnames(&self, rec: &AppRecord) -> (r: Vec<String>)
        ensures
            split::views(r@) == hostnames_of(self@, rec@),
    {
        let mut out: Vec<String> = Vec::new();
        out.push(rec.spec.local_hostname());
        let ghost mut want = seq![rec@.spec.name + ".localhost"@];
        assert(split::views(out@) =~= want);
        match &self.config.domain.name {
            Some(dom) => {
                let host = rec.spec.name.clone().concat(".").concat(dom.as_str());
                proof {
                    split::lemma_views_push(out@, host);
                    want = want.push(host@);
                }
                out.push(host);
            },
            None => {},
        }
        match self.store.claim_for(rec.spec.name.as_str()) {
            Some(c) => {
                if same(c.name.as_str(), "@") {
                    let www = "www.".to_owned().concat(c.hostname.as_str());
                    proof {
                        split::lemma_views_push(out@, www);
                        want = want.push(www@);
                    }
                    out.push(www);
                }
                proof {
                    split::lemma_views_push(out@, c.hostname);
                    want = want.push(c.hostname@);
                }
                out.push(c.hostname);
            },
            None => {},
        }
        match &rec.tunnel_url {
            Some(url) => {
                match without_prefix(url.as_str(), "https://") {
                    Some(host) => {
                        proof {
                            split::lemma_views_push(out@, host);
                            want = want.push(host@);
                        }
                        out.push(host);
                    },
                    None => {},
                }
            },
            None => {},
        }
        out
    }

    /// (Re)install the proxy routes for an app.
    pub fn install_routes(&mut self, rec: &AppRecord)
        requires
            old(self).table.wf(),
        ensures
            final(self)@ == old(self)@,
            final(self).table.wf(),
            installed(old(self)@, rec@, old(self).table, final(self).table),
    {
        let hostnames = self.hostnames(rec);
        let backends = loopbacks_of(&rec.replicas);
        self.table.set_app(
            rec.spec.name.as_str(),
            &hostnames,
            backends,
            rec.spec.max_concurrent_requests,
        );
    }

    /// Reinstalls the routes of an app, if there is such an app.
    fn refresh_routes(&mut self, app: &str)
        requires
            old(self).table.wf(),
        ensures
            final(self)@ == old(self)@,
            final(self).table.wf(),
            match old(self)@.store.app(app@) {
                Some(rec) => installed(old(self)@, rec, old(self).table, final(self).table),
                None => final(self).table == old(self).table,
            },
    {
        match self.store.get(app) {
            Some(rec) => self.install_routes(&rec),
            None => {},
        }
    }
}

// --------------------------------------------------------------------------- views

/// Environment values do not belong in API responses, logs, or agent transcripts.
pub open spec fn masked(env: Map<Seq<char>, Seq<char>>) -> Map<Seq<char>, Seq<char>> {
    Map::new(|k: Seq<char>| env.dom().contains(k), |k: Seq<char>| "•••"@)
}

fn mask(env: &TextMap) -> (r: TextMap)
    ensures
        r@ == masked(env@),
{
    let keys = env.keys();
    let ghost kv = split::views(keys@);
    let mut out = TextMap::new();
    let mut i: usize = 0;
    while i < keys.len()
        invariant
            i <= keys.len(),
            kv == split::views(keys@),
            forall|k: Seq<char>| #[trigger] kv.contains(k) == env@.dom().contains(k),
            forall|k: Seq<char>| #[trigger]
                out@.dom().contains(k) ==> env@.dom().contains(k) && out@[k] == "•••"@,
            forall|j: int| 0 <= j < i ==> out@.dom().contains(#[trigger] kv[j]),
        decreases keys.len() - i,
    {
        assert(kv[i as int] == keys@[i as int]@);
        assert(kv.contains(kv[i as int]));
        out.insert(keys[i].clone(), "•••".to_owned());
        i += 1;
    }
    assert forall|k: Seq<char>| env@.dom().contains(k) implies out@.dom().contains(k) by {
        assert(kv.contains(k));
        let j = choose|j: int| 0 <= j < kv.len() && kv[j] == k;
        assert(out@.dom().contains(kv[j]));
    }
    assert(out@ =~= masked(env@));
    out
}

/// The public URL of an app: the name that it claimed, else its name under the host's
/// own domain, else its tunnel's.
pub open spec fn url_of(d: DaemonView, rec: AppRecordView) -> Option<Seq<char>> {
    match d.store.claim_of(rec.spec.name) {
        Some(c) => Some("https://"@ + c.hostname),
        None => match d.config.domain.name {
            Some(dom) => Some("https://"@ + rec.spec.name + "."@ + dom),
            None => rec.tunnel_url,
        },
    }
}

/// What the API tells about an app.
pub open spec fn info_of(d: DaemonView, rec: AppRecordView) -> AppInfoView {
    AppInfoView {
        name: rec.spec.name,
        state: rec.state,
        device: None,
        priority: rec.spec.priority,
        replicas_desired: rec.spec.replicas,
        replicas_running: rec.replicas.len() as u8,
        url: url_of(d, rec),
        local_url: "http://"@ + (rec.spec.name + ".localhost"@) + ":"@ + text::decimal(
            d.config.proxy_port as nat,
        ),
        url_changed_at: rec.url_changed_at,
        memory_mb: rec.spec.resources.memory_mb,
        cpu: rec.spec.resources.cpu,
        created_at: rec.created_at,
        spec: AppSpecView { env: masked(rec.spec.env), ..rec.spec },
    }
}

impl Daemon {
    pub fn app_info(&self, rec: &AppRecord) -> (r: AppInfo)
        ensures
            r@ == info_of(self@, rec@),
    {
        let mut spec = rec.spec.clone();
        spec.env = mask(&rec.spec.env);
        let url = match self.store.claim_for(rec.spec.name.as_str()) {
            Some(c) => Some("https://".to_owned().concat(c.hostname.as_str())),
            None => match &self.config.domain.name {
                Some(dom) => Some(
                    "https://".to_owned().concat(rec.spec.name.as_str()).concat(".").concat(
                        dom.as_str(),
                    ),
                ),
                None => clone_opt(&rec.tunnel_url),
            },
        };
        AppInfo {
            name: rec.spec.name.clone(),
            state: rec.state,
            device: None,
            priority: rec.spec.priority,
            replicas_desired: rec.spec.replicas,
            replicas_running: rec.replicas.len() as u8,
            url,
            local_url: "http://".to_owned().concat(rec.spec.local_hostname().as_str()).concat(
                ":",
            ).concat(dec(self.config.proxy_port as u64).as_str()),
            url_changed_at: rec.url_changed_at,
            memory_mb: rec.spec.resources.memory_mb,
            cpu: rec.spec.resources.cpu,
            created_at: rec.created_at,
            spec,
        }
    }
}

/// A spec with an app's secrets laid over its environment.
pub open spec fn laid_over(spec: AppSpecView, secrets: Map<Seq<char>, Seq<char>>) -> AppSpecView {
    AppSpecView { env: spec.env.union_prefer_right(secrets), ..spec }
}

/// The spec as the container actually sees it: its environment with the app's secrets
/// laid over. Secrets exist only at this boundary; the spec that is kept never
/// contains them.
pub fn spec_with_secrets(spec: &AppSpec, secrets: &TextMap) -> (r: AppSpec)
    ensures
        r@ == laid_over(spec@, secrets@),
{
    let mut s = spec.clone();
    overlay(&mut s.env, secrets);
    s
}

// --------------------------------------------------------------------- tunnel tasks

impl Daemon {
    /// Registers a tunnel task, once. Tells whether it is to be started.
    pub fn ensure_tunnel_task(&mut self, key: &str) -> (r: bool)
        ensures
            r == !old(self)@.tunnels.contains(key@),
            final(self)@ == old(self)@.with_tunnels(old(self)@.tunnels.insert(key@)),
            final(self).table == old(self).table,
    {
        if self.tunnels.get(key).is_some() {
            assert(self@.tunnels.insert(key@) =~= self@.tunnels);
            return false;
        }
        self.tunnels.insert(key.to_owned(), true);
        assert(self@.tunnels =~= old(self)@.tunnels.insert(key@));
        true
    }

    /// Takes a tunnel task off. Tells whether there is one to be cancelled.
    pub fn stop_tunnel_task(&mut self, key: &str) -> (r: bool)
        ensures
            r == old(self)@.tunnels.contains(key@),
            final(self)@ == old(self)@.with_tunnels(old(self)@.tunnels.remove(key@)),
            final(self).table == old(self).table,
    {
        let gone = self.tunnels.remove(key);
        assert(self@.tunnels =~= old(self)@.tunnels.remove(key@));
        gone.is_some()
    }
}

// ------------------------------------------------------------------ pause and resume

/// What is to be done for an app that is to be paused or resumed.
#[derive(Debug)]
pub enum Freeze {
    /// It is so already.
    Already(AppInfo),
    /// Pause or unpause these containers.
    Containers(Vec<String>),
}

/// What was done to an app, and the event to be told.
#[derive(Debug)]
pub struct Told {
    pub info: AppInfo,
    pub event: HostEvent,
}

pub open spec fn paused_record(rec: AppRecordView, reason: PauseReason) -> AppRecordView {
    AppRecordView { state: AppState::Paused, paused_reason: Some(reason), ..rec }
}

pub open spec fn resumed_record(rec: AppRecordView) -> AppRecordView {
    AppRecordView { state: AppState::Running, paused_reason: None, ..rec }
}

/// What is answered where an app is to be paused.
pub open spec fn to_pause(d: DaemonView, name: Seq<char>, r: Result<Freeze, HadesError>) -> bool {
    match d.store.app(name) {
        None => r matches Err(e) && e@ == ErrorView::AppNotFound(name),
        Some(rec) => if rec.state == AppState::Paused {
            r matches Ok(Freeze::Already(i)) && i@ == info_of(d, rec)
        } else {
            r matches Ok(Freeze::Containers(ids)) && split::views(ids@) == rollout::ids_of(
                rec.replicas,
            )
        },
    }
}

/// What is answered where an app is to be resumed.
pub open spec fn to_resume(d: DaemonView, name: Seq<char>, r: Result<Freeze, HadesError>) -> bool {
    match d.store.app(name) {
        None => r matches Err(e) && e@ == ErrorView::AppNotFound(name),
        Some(rec) => if rec.state != AppState::Paused {
            r matches Ok(Freeze::Already(i)) && i@ == info_of(d, rec)
        } else {
            r matches Ok(Freeze::Containers(ids)) && split::views(ids@) == rollout::ids_of(
                rec.replicas,
            )
        },
    }
}

/// An app has been paused.
pub open spec fn now_paused(
    before: DaemonView,
    after: DaemonView,
    name: Seq<char>,
    reason: PauseReason,
    r: Result<Told, HadesError>,
) -> bool {
    match before.store.app(name) {
        None => after == before && (r matches Err(e) && e@ == ErrorView::AppNotFound(name)),
        Some(rec) => {
            let now = paused_record(rec, reason);
            &&& after == before.with_store(
                before.store.with_apps(before.store.apps.insert(name, now)),
            )
            &&& r matches Ok(t) && t.info@ == info_of(after, now) && t.event@ == (
            HostEventView::AppPaused { app: name, reason })
        },
    }
}

/// An app has been resumed.
pub open spec fn now_resumed(
    before: DaemonView,
    after: DaemonView,
    name: Seq<char>,
    r: Result<Told, HadesError>,
) -> bool {
    match before.store.app(name) {
        None => after == before && (r matches Err(e) && e@ == ErrorView::AppNotFound(name)),
        Some(rec) => {
            let now = resumed_record(rec);
            &&& after == before.with_store(
                before.store.with_apps(before.store.apps.insert(name, now)),
            )
            &&& r matches Ok(t) && t.info@ == info_of(after, now) && t.event@ == (
            HostEventView::AppResumed { app: name })
        },
    }
}

impl Daemon {
    /// An app is to be paused.
    pub fn pause_app(&self, name: &str) -> (r: Result<Freeze, HadesError>)
        ensures
            to_pause(self@, name@, r),
    {
        match self.store.get(name) {
            None => Err(HadesError::AppNotFound(name.to_owned())),
            Some(rec) => if rec.state == AppState::Paused {
                Ok(Freeze::Already(self.app_info(&rec)))
            } else {
                Ok(Freeze::Containers(container_ids(&rec.replicas)))
            },
        }
    }

    /// The containers of an app have been paused.
    pub fn app_paused(&mut self, name: &str, reason: PauseReason) -> (r: Result<Told, HadesError>)
        ensures
            final(self).table == old(self).table,
            now_paused(old(self)@, final(self)@, name@, reason, r),
    {
        let mut rec = match self.store.get(name) {
            Some(rec) => rec,
            None => {
                return Err(HadesError::AppNotFound(name.to_owned()));
            },
        };
        rec.state = AppState::Paused;
        rec.paused_reason = Some(reason);
        self.store.put(name, rec.clone());
        let info = self.app_info(&rec);
        Ok(Told { info, event: HostEvent::AppPaused { app: name.to_owned(), reason } })
    }

    /// An app is to be resumed.
    pub fn resume_app(&self, name: &str) -> (r: Result<Freeze, HadesError>)
        ensures
            to_resume(self@, name@, r),
    {
        match self.store.get(name) {
            None => Err(HadesError::AppNotFound(name.to_owned())),
            Some(rec) => if rec.state != AppState::Paused {
                Ok(Freeze::Already(self.app_info(&rec)))
            } else {
                Ok(Freeze::Containers(container_ids(&rec.replicas)))
            },
        }
    }

    /// The containers of an app have been unpaused.
    pub fn app_resumed(&mut self, name: &str) -> (r: Result<Told, HadesError>)
        ensures
            final(self).table == old(self).table,
            now_resumed(old(self)@, final(self)@, name@, r),
    {
        let mut rec = match self.store.get(name) {
            Some(rec) => rec,
            None => {
                return Err(HadesError::AppNotFound(name.to_owned()));
            },
        };
        rec.state = AppState::Running;
        rec.paused_reason = None;
        self.store.put(name, rec.clone());
        let info = self.app_info(&rec);
        Ok(Told { info, event: HostEvent::AppResumed { app: name.to_owned() } })
    }
}

// ------------------------------------------------------------------------- domains

/// A name that is given back: the tunnel process to kill, and the request that tells
/// the coordinator.
#[derive(Debug)]
pub struct Release {
    pub hostname: String,
    pub kill: Option<u32>,
    pub delete_url: Option<String>,
    pub secret: Option<String>,
}

/// The contents of a `Release`.
pub struct ReleaseView {
    pub hostname: Seq<char>,
    pub kill: Option<u32>,
    pub delete_url: Option<Seq<char>>,
    pub secret: Option<Seq<char>>,
}

impl View for Release {
    type V = ReleaseView;

    open spec fn view(&self) -> ReleaseView {
        ReleaseView {
            hostname: self.hostname@,
            kill: self.kill,
            delete_url: values::opt_view(self.delete_url),
            secret: values::opt_view(self.secret),
        }
    }
}

/// A name that is to be asked for.
#[derive(Debug)]
pub struct ClaimOrder {
    /// Give the name back that the app holds so far.
    pub release_first: bool,
    pub url: String,
    pub secret: Option<String>,
    pub proxy_url: String,
}

/// The contents of a `ClaimOrder`.
pub struct ClaimOrderView {
    pub release_first: bool,
    pub url: Seq<char>,
    pub secret: Option<Seq<char>>,
    pub proxy_url: Seq<char>,
}

impl View for ClaimOrder {
    type V = ClaimOrderView;

    open spec fn view(&self) -> ClaimOrderView {
        ClaimOrderView {
            release_first: self.release_first,
            url: self.url@,
            secret: values::opt_view(self.secret),
            proxy_url: self.proxy_url@,
        }
    }
}

/// What is asked of a coordinator where an app is to get a name.
pub open spec fn to_claim(
    d: DaemonView,
    app: Seq<char>,
    passed_down: Option<(String, Option<String>)>,
    r: Result<ClaimOrder, HadesError>,
) -> bool {
    match r {
        Ok(x) => {
            &&& d.store.app(app) is Some
            &&& passed_down is Some || d.config.domain.coordinator_url is Some
            &&& x@ == (ClaimOrderView {
                release_first: d.store.claim_of(app) is Some,
                url: text::drop_trailing(
                    match passed_down {
                        Some((u, _)) => u@,
                        None => d.config.domain.coordinator_url->0,
                    },
                    "/"@,
                ) + "/claim"@,
                secret: match passed_down {
                    Some((_, s)) => values::opt_view(s),
                    None => d.config.domain.coordinator_secret,
                },
                proxy_url: "http://localhost:"@ + text::decimal(d.config.proxy_port as nat),
            })
        },
        Err(e) => if d.store.app(app) is None {
            e@ == ErrorView::AppNotFound(app)
        } else {
            &&& passed_down is None && d.config.domain.coordinator_url is None
            &&& e@ == ErrorView::Other(
                "no coordinator configured; set domain.coordinator_url (ask your operator)"@,
            )
        },
    }
}

/// The key of the tunnel task of an app's claim.
pub open spec fn claim_key(app: Seq<char>) -> Seq<char> {
    "__claim_"@ + app
}

pub fn claim_task_key(app: &str) -> (r: String)
    ensures
        r@ == claim_key(app@),
{
    "__claim_".to_owned().concat(app)
}

/// The daemon after an app's name was given back.
pub open spec fn released(d: DaemonView, app: Seq<char>) -> DaemonView {
    let key = claim_key(app);
    d.with_tunnels(d.tunnels.remove(key)).with_store(
        d.store.with_pids(d.store.registry.cloudflared.remove(key)).with_claims(
            d.store.claims.remove(app),
        ),
    )
}

/// What giving back a name asks for.
pub open spec fn release_of(d: DaemonView, app: Seq<char>, claim: ClaimRecordView) -> ReleaseView {
    let key = claim_key(app);
    ReleaseView {
        hostname: claim.hostname,
        kill: if d.store.registry.cloudflared.dom().contains(key) {
            Some(d.store.registry.cloudflared[key])
        } else {
            None
        },
        delete_url: match d.config.domain.coordinator_url {
            Some(u) => Some(text::drop_trailing(u, "/"@) + "/claim/"@ + claim.name),
            None => None,
        },
        secret: d.config.domain.coordinator_secret,
    }
}

impl Daemon {
    /// Gives an app's name back.
    pub fn domain_release(&mut self, app: &str) -> (r: Result<Release, HadesError>)
        requires
            old(self).table.wf(),
        ensures
            final(self).table.wf(),
            match old(self)@.store.claim_of(app@) {
                None => {
                    &&& r matches Err(e) && e@ == ErrorView::Other(app@ + " has no claimed domain"@)
                    &&& final(self)@ == old(self)@
                    &&& final(self).table == old(self).table
                },
                Some(claim) => {
                    &&& r matches Ok(x) && x@ == release_of(old(self)@, app@, claim)
                    &&& final(self)@ == released(old(self)@, app@)
                    &&& match old(self)@.store.app(app@) {
                        Some(rec) => installed(
                            released(old(self)@, app@),
                            rec,
                            old(self).table,
                            final(self).table,
                        ),
                        None => final(self).table == old(self).table,
                    }
                },
            },
    {
        let claim = match self.store.claim_for(app) {
            Some(c) => c,
            None => {
                return Err(HadesError::Other(app.to_owned().concat(" has no claimed domain")));
            },
        };
        let key = claim_task_key(app);
        let _running = self.stop_tunnel_task(key.as_str());
        let kill = match self.store.registry.cloudflared.get(key.as_str()) {
            Some(pid) => Some(*pid),
            None => None,
        };
        self.store.drop_pid(key.as_str());
        let delete_url = match &self.config.domain.coordinator_url {
            Some(u) => Some(
                trim_trailing(u.as_str(), "/").concat("/claim/").concat(claim.name.as_str()),
            ),
            None => None,
        };
        let secret = clone_opt(&self.config.domain.coordinator_secret);
        self.store.drop_claim(app);
        self.refresh_routes(app);
        Ok(Release { hostname: claim.hostname, kill, delete_url, secret })
    }

    /// An app is to get a stable name from a coordinator: the one that was passed down,
    /// or the one of this host.
    pub fn domain_claim(
        &self,
        app: &str,
        passed_down: Option<(String, Option<String>)>,
    ) -> (r: Result<ClaimOrder, HadesError>)
        ensures
            to_claim(self@, app@, passed_down, r),
    {
        if !self.store.has_app(app) {
            return Err(HadesError::AppNotFound(app.to_owned()));
        }
        let proxy_url = "http://localhost:".to_owned().concat(
            dec(self.config.proxy_port as u64).as_str(),
        );
        let release_first = self.store.claim_for(app).is_some();
        match passed_down {
            Some((u, secret)) => Ok(
                ClaimOrder {
                    release_first,
                    url: trim_trailing(u.as_str(), "/").concat("/claim"),
                    secret,
                    proxy_url,
                },
            ),
            None => match &self.config.domain.coordinator_url {
                Some(u) => Ok(
                    ClaimOrder {
                        release_first,
                        url: trim_trailing(u.as_str(), "/").concat("/claim"),
                        secret: clone_opt(&self.config.domain.coordinator_secret),
                        proxy_url,
                    },
                ),
                None => Err(
                    HadesError::Other(
                        "no coordinator configured; set domain.coordinator_url (ask your operator)".to_owned(),
                    ),
                ),
            },
        }
    }
}

/// What a coordinator answers a claim with.
#[derive(Debug)]
pub enum ClaimReply {
    /// It refused; the body may say why.
    Refused(String),
    /// It granted the claim; the body tells which.
    Granted(String),
    /// It could not be asked, or its answer not be read.
    Lost(HadesError),
}

/// The error in a body, else the whole body.
pub open spec fn refusal_in(body: Seq<char>) -> Seq<char> {
    match json::string_found(body, "/error"@) {
        Some(m) => m,
        None => body,
    }
}

/// The text at a pointer, or nothing.
pub open spec fn text_in(body: Seq<char>, pointer: Seq<char>) -> Seq<char> {
    match json::string_found(body, pointer) {
        Some(m) => m,
        None => ""@,
    }
}

/// The claim that a reply grants.
pub open spec fn claim_in(app: Seq<char>, name: Seq<char>, body: Seq<char>) -> ClaimRecordView {
    ClaimRecordView {
        app,
        name,
        hostname: text_in(body, "/hostname"@),
        connector_token: text_in(body, "/connector_token"@),
    }
}

/// The daemon once an app holds a name.
pub open spec fn claimed(d: DaemonView, claim: ClaimRecordView) -> DaemonView {
    d.with_store(d.store.with_claims(d.store.claims.insert(claim.app, claim))).with_tunnels(
        d.tunnels.insert(claim_key(claim.app)),
    )
}

/// A name that an app got: the claim, whether its tunnel is to be started, and the
/// event to be told.
#[derive(Debug)]
pub struct Claimed {
    pub claim: ClaimRecord,
    pub start_tunnel: bool,
    pub event: HostEvent,
}

impl Daemon {
    /// Takes in what the coordinator answered.
    pub fn domain_claimed(&mut self, app: &str, name: &str, reply: ClaimReply) -> (r: Result<
        Claimed,
        HadesError,
    >)
        requires
            old(self).table.wf(),
        ensures
            final(self).table.wf(),
            r is Err ==> final(self)@ == old(self)@ && final(self).table == old(self).table,
            match reply {
                ClaimReply::Lost(e) => r matches Err(x) && x@ == e@,
                ClaimReply::Refused(body) => r matches Err(x) && x@ == ErrorView::Other(
                    "claim refused: "@ + refusal_in(body@),
                ),
                ClaimReply::Granted(body) => {
                    let claim = claim_in(app@, name@, body@);
                    if claim.hostname.len() == 0 || claim.connector_token.len() == 0 {
                        r matches Err(x) && x@ == ErrorView::Other(
                            "coordinator returned an incomplete claim"@,
                        )
                    } else {
                        &&& r matches Ok(c) && c.claim@ == claim && c.start_tunnel
                            == !old(self)@.tunnels.contains(claim_key(app@)) && c.event@ == (
                        HostEventView::UrlChanged {
                            app: app@,
                            old: None,
                            new: "https://"@ + claim.hostname,
                        })
                        &&& final(self)@ == claimed(old(self)@, claim)
                        &&& match old(self)@.store.app(app@) {
                            Some(rec) => installed(
                                claimed(old(self)@, claim),
                                rec,
                                old(self).table,
                                final(self).table,
                            ),
                            None => final(self).table == old(self).table,
                        }
                    }
                },
            },
    {
        let body = match reply {
            ClaimReply::Lost(e) => {
                return Err(e);
            },
            ClaimReply::Refused(body) => {
                let msg = match string_at(body.as_str(), "/error") {
                    Some(m) => m,
                    None => body,
                };
                return Err(HadesError::Other("claim refused: ".to_owned().concat(msg.as_str())));
            },
            ClaimReply::Granted(body) => body,
        };
        let hostname = match string_at(body.as_str(), "/hostname") {
            Some(h) => h,
            None => "".to_owned(),
        };
        let connector_token = match string_at(body.as_str(), "/connector_token") {
            Some(t) => t,
            None => "".to_owned(),
        };
        if hostname.as_str().unicode_len() == 0 || connector_token.as_str().unicode_len() == 0 {
            return Err(HadesError::Other("coordinator returned an incomplete claim".to_owned()));
        }
        let claim = ClaimRecord {
            app: app.to_owned(),
            name: name.to_owned(),
            hostname,
            connector_token,
        };
        self.store.put_claim(claim.clone());
        let key = claim_task_key(app);
        let start_tunnel = self.ensure_tunnel_task(key.as_str());
        self.refresh_routes(app);
        let event = HostEvent::UrlChanged {
            app: app.to_owned(),
            old: None,
            new: "https://".to_owned().concat(claim.hostname.as_str()),
        };
        Ok(Claimed { claim, start_tunnel, event })
    }
}

// ------------------------------------------------------------------------- destroying

/// An app that is gone: the containers to remove, the name that it gave back, and the
/// event to be told. Its secrets are to be removed too.
#[derive(Debug)]
pub struct Destroyed {
    pub info: AppInfo,
    pub containers: Vec<String>,
    pub cancel_tunnel: bool,
    pub released: Option<Release>,
    pub event: HostEvent,
}

/// The daemon without an app.
pub open spec fn gone(d: DaemonView, name: Seq<char>) -> DaemonView {
    let bare = d.with_tunnels(d.tunnels.remove(name)).with_store(
        d.store.with_apps(d.store.apps.remove(name)).with_pids(
            d.store.registry.cloudflared.remove(name),
        ),
    );
    if d.store.claim_of(name) is Some {
        released(bare, name)
    } else {
        bare
    }
}

/// What is left to do, and told, of an app that was destroyed.
pub open spec fn to_clear(
    d: DaemonView,
    name: Seq<char>,
    rec: AppRecordView,
    x: Destroyed,
) -> bool {
    &&& x.info@ == (AppInfoView { state: AppState::Stopped, ..info_of(gone(d, name), rec) })
    &&& split::views(x.containers@) == rollout::ids_of(rec.replicas)
    &&& x.cancel_tunnel == d.tunnels.contains(name)
    &&& match d.store.claim_of(name) {
        Some(c) => x.released matches Some(y) && y@ == release_of(
            d.with_store(d.store.with_pids(d.store.registry.cloudflared.remove(name))),
            name,
            c,
        ),
        None => x.released is None,
    }
    &&& x.event@ == (HostEventView::AppDestroyed { app: name })
}

impl Daemon {
    /// Destroys an app.
    pub fn destroy(&mut self, name: &str) -> (r: Result<Destroyed, HadesError>)
        requires
            old(self).table.wf(),
        ensures
            final(self).table.wf(),
            match old(self)@.store.app(name@) {
                None => {
                    &&& r matches Err(e) && e@ == ErrorView::AppNotFound(name@)
                    &&& final(self)@ == old(self)@
                    &&& final(self).table == old(self).table
                },
                Some(rec) => {
                    &&& final(self)@ == gone(old(self)@, name@)
                    &&& final(self).table.routes@ == old(self).table.routes@.remove(name@)
                    &&& final(self).table.minted == old(self).table.minted
                    &&& final(self).table.hosts@ == maps::without_value(
                        old(self).table.hosts@,
                        name@,
                    )
                    &&& r matches Ok(x) && to_clear(old(self)@, name@, rec, x)
                },
            },
    {
        let rec = match self.store.get(name) {
            Some(rec) => rec,
            None => {
                return Err(HadesError::AppNotFound(name.to_owned()));
            },
        };
        let cancel_tunnel = self.stop_tunnel_task(name);
        self.table.remove_app(name);
        let containers = container_ids(&rec.replicas);
        let _taken = self.store.take(name);
        self.store.drop_pid(name);
        let released = if self.store.claim_for(name).is_some() {
            match self.domain_release(name) {
                Ok(x) => Some(x),
                Err(_) => None,
            }
        } else {
            None
        };
        let mut info = self.app_info(&rec);
        info.state = AppState::Stopped;
        Ok(
            Destroyed {
                info,
                containers,
                cancel_tunnel,
                released,
                event: HostEvent::AppDestroyed { app: name.to_owned() },
            },
        )
    }
}

// ---------------------------------------------------------------------------- laws

/// Pausing and resuming an app leaves it as it was, but for its state: nothing of its
/// spec, its replicas or its URLs changes.
pub proof fn resuming_undoes_pausing(rec: AppRecordView, reason: PauseReason)
    requires
        rec.state == AppState::Running,
        rec.paused_reason is None,
    ensures
        resumed_record(paused_record(rec, reason)) == rec,
{
}

/// Environment values never leave through the API: what it tells of an app does not
/// depend on them, only on their names.
pub proof fn infos_tell_no_values(
    d: DaemonView,
    rec: AppRecordView,
    other_env: Map<Seq<char>, Seq<char>>,
)
    requires
        other_env.dom() == rec.spec.env.dom(),
    ensures
        info_of(d, rec) == info_of(
            d,
            AppRecordView { spec: AppSpecView { env: other_env, ..rec.spec }, ..rec },
        ),
{
    assert(masked(rec.spec.env) =~= masked(other_env));
}

/// A name that was claimed and given back leaves no trace: no claim, no tunnel task and
/// no process under its key.
pub proof fn released_names_leave_no_trace(d: DaemonView, claim: ClaimRecordView)
    ensures
        released(claimed(d, claim), claim.app).store.claim_of(claim.app) is None,
        !released(claimed(d, claim), claim.app).tunnels.contains(claim_key(claim.app)),
        !released(claimed(d, claim), claim.app).store.registry.cloudflared.dom().contains(
            claim_key(claim.app),
        ),
        released(claimed(d, claim), claim.app).store.apps == d.store.apps,
{
}

/// A destroyed app leaves nothing behind: no record, no claim, no tunnel and no process
/// of its own or of its claim, and the other apps stay as they were.
pub proof fn destroyed_apps_leave_nothing(d: DaemonView, name: Seq<char>, other: Seq<char>)
    ensures
        gone(d, name).store.app(name) is None,
        gone(d, name).store.claim_of(name) is None,
        !gone(d, name).tunnels.contains(name),
        !gone(d, name).store.registry.cloudflared.dom().contains(name),
        d.store.claim_of(name) is Some ==> !gone(d, name).tunnels.contains(claim_key(name))
            && !gone(d, name).store.registry.cloudflared.dom().contains(claim_key(name)),
        other != name && other != claim_key(name) ==> (gone(d, name).tunnels.contains(other)
            <==> d.tunnels.contains(other)),
        other != name ==> gone(d, name).store.app(other) == d.store.app(other) && gone(
            d,
            name,
        ).store.claim_of(other) == d.store.claim_of(other),
{
}

/// The hostnames of an app are those that are its own: its local name, its name under the
/// host's domain, the name it claimed, with www before that of the apex, and its tunnel's.
/// No other leads to it.
pub proof fn hostnames_are_the_apps_own(d: DaemonView, rec: AppRecordView, h: Seq<char>)
    ensures
        ({
            let name = rec.spec.name;
            let claim = d.store.claims[name];
            let holds = d.store.claims.dom().contains(name);
            hostnames_of(d, rec).contains(h) <==> {
                ||| h == name + ".localhost"@
                ||| d.config.domain.name is Some && h == name + "."@ + d.config.domain.name->0
                ||| holds && h == claim.hostname
                ||| holds && claim.name == "@"@ && h == "www."@ + claim.hostname
                ||| rec.tunnel_url == Some("https://"@ + h)
            }
        }),
{
    let all = hostnames_of(d, rec);
    let name = rec.spec.name;
    let local = seq![name + ".localhost"@];
    let own = match d.config.domain.name {
        Some(dom) => local.push(name + "."@ + dom),
        None => local,
    };
    let claimed = match d.store.claim_of(name) {
        Some(c) => if c.name == "@"@ {
            own.push("www."@ + c.hostname).push(c.hostname)
        } else {
            own.push(c.hostname)
        },
        None => own,
    };
    assert(local[0] == name + ".localhost"@);
    assert(all[0] == local[0]);
    if d.config.domain.name is Some {
        assert(own[1] == name + "."@ + d.config.domain.name->0);
        assert(all[1] == own[1]);
    }
    if d.store.claims.dom().contains(name) {
        assert(claimed[claimed.len() - 1] == d.store.claims[name].hostname);
        assert(all[claimed.len() - 1] == claimed[claimed.len() - 1]);
        if d.store.claims[name].name == "@"@ {
            assert(claimed[claimed.len() - 2] == "www."@ + d.store.claims[name].hostname);
            assert(all[claimed.len() - 2] == claimed[claimed.len() - 2]);
        }
    }
    if rec.tunnel_url is Some {
        let url = rec.tunnel_url->0;
        let p = "https://"@;
        assert((p + h).take(p.len() as int) =~= p);
        assert((p + h).skip(p.len() as int) =~= h);
        if text::strip_prefix(url, p) is Some {
            let rest = text::strip_prefix(url, p)->0;
            assert(p + rest =~= url);
            assert(all[claimed.len() as int] == rest);
        }
    }
}

/// The URL that an app is given out under is one under which it is reached: its host is among
/// the hostnames that lead to the app. So is the host of the local URL.
pub proof fn urls_that_are_told_lead_to_their_app(d: DaemonView, rec: AppRecordView)
    ensures
        info_of(d, rec).url matches Some(u) ==> (text::strip_prefix(u, "https://"@) matches Some(h)
            ==> hostnames_of(d, rec).contains(h)),
        info_of(d, rec).url matches Some(u) ==> (u == "https://"@ + u.skip("https://"@.len() as int)
            || rec.tunnel_url == Some(u)),
        info_of(d, rec).url is None ==> rec.tunnel_url is None,
        d.store.claims.dom().contains(rec.spec.name) ==> info_of(d, rec).url == Some(
            "https://"@ + d.store.claims[rec.spec.name].hostname,
        ),
        exists|host: Seq<char>|
            hostnames_of(d, rec).contains(host) && info_of(d, rec).local_url == "http://"@ + host
                + ":"@ + text::decimal(d.config.proxy_port as nat),
{
    let p = "https://"@;
    let info = info_of(d, rec);
    if info.url is Some {
        let u = info.url->0;
        if d.store.claims.dom().contains(rec.spec.name) {
            assert(u.skip(p.len() as int) =~= d.store.claims[rec.spec.name].hostname);
        } else if d.config.domain.name is Some {
            assert(u.skip(p.len() as int) =~= rec.spec.name + "."@ + d.config.domain.name->0);
        }
        if text::strip_prefix(u, p) is Some {
            let h = text::strip_prefix(u, p)->0;
            assert(p + h =~= u);
            hostnames_are_the_apps_own(d, rec, h);
        }
        assert(text::strip_prefix(u, p) is Some ==> u =~= p + u.skip(p.len() as int));
    }
    hostnames_are_the_apps_own(d, rec, rec.spec.name + ".localhost"@);
    let host = rec.spec.name + ".localhost"@;
    assert(hostnames_of(d, rec).contains(host));
}

/// Once its routes are installed, an app is reached at its replicas and nowhere else: at each
/// of them on the port that is its own, up to the app's own cap; and each of its hostnames
/// leads to it. The routes of other apps stay as they are.
pub proof fn routes_lead_to_the_replicas(
    d: DaemonView,
    rec: AppRecordView,
    before: RouteTable,
    after: RouteTable,
    i: int,
    h: Seq<char>,
    other: Seq<char>,
)
    requires
        installed(d, rec, before, after),
    ensures
        ({
            let app = rec.spec.name;
            let r = after.routes@[app];
            let n = r.backends@.len();
            &&& after.routes@.dom().contains(app)
            &&& n == rec.replicas.len()
            &&& 0 <= i < n ==> r.backends@[i]@ == BackendView::Local(
                "127.0.0.1:"@ + text::decimal(rec.replicas[i].host_port as nat),
            )
            &&& r.max_inflight == rec.spec.max_concurrent_requests
            &&& hostnames_of(d, rec).contains(h) ==> after.hosts@.dom().contains(proxy::host_key(h))
                && after.hosts@[proxy::host_key(h)] == app
            &&& other != app && before.routes@.dom().contains(other) ==> after.routes@.dom().contains(
                other,
            ) && after.routes@[other] == before.routes@[other]
            &&& before.routes@.dom().contains(app) ==> r.serial == before.routes@[app].serial
                && r.inflight == before.routes@[app].inflight && r.requests
                == before.routes@[app].requests && r.rr == before.routes@[app].rr
        }),
{
    let app = rec.spec.name;
    let r = after.routes@[app];
    assert(proxy::backend_views(r.backends@).len() == r.backends@.len());
    if 0 <= i < r.backends@.len() {
        assert(proxy::backend_views(r.backends@)[i] == r.backends@[i]@);
    }
    proxy::lemma_with_hosts(
        maps::without_value(before.hosts@, app),
        hostnames_of(d, rec),
        app,
    );
    if hostnames_of(d, rec).contains(h) {
        let names = hostnames_of(d, rec);
        let k = choose|k: int| 0 <= k < names.len() && names[k] == h;
        assert(proxy::host_key(names[k]) == proxy::host_key(h));
    }
}

/// What is told of an app is what its record holds.
pub proof fn infos_tell_the_record(d: DaemonView, rec: AppRecordView, k: Seq<char>)
    ensures
        ({
            let info = info_of(d, rec);
            &&& info.name == rec.spec.name
            &&& info.state == rec.state
            &&& info.device is None
            &&& info.priority == rec.spec.priority
            &&& info.replicas_desired == rec.spec.replicas
            &&& rec.replicas.len() < 256 ==> info.replicas_running == rec.replicas.len()
            &&& info.url_changed_at == rec.url_changed_at
            &&& info.memory_mb == rec.spec.resources.memory_mb
            &&& info.cpu == rec.spec.resources.cpu
            &&& info.created_at == rec.created_at
            &&& info.spec == (AppSpecView { env: info.spec.env, ..rec.spec })
            &&& info.spec.env.dom().contains(k) <==> rec.spec.env.dom().contains(k)
            &&& info.spec.env.dom().contains(k) ==> info.spec.env[k] == "•••"@
        }),
{
}

/// A container sees every secret of its app, and what else its spec sets; nothing but the
/// environment differs from the spec.
pub proof fn secrets_win_over_the_spec(
    spec: AppSpecView,
    secrets: Map<Seq<char>, Seq<char>>,
    k: Seq<char>,
)
    ensures
        ({
            let seen = laid_over(spec, secrets);
            &&& secrets.dom().contains(k) ==> seen.env.dom().contains(k) && seen.env[k] == secrets[k]
            &&& !secrets.dom().contains(k) ==> (seen.env.dom().contains(k)
                <==> spec.env.dom().contains(k))
            &&& !secrets.dom().contains(k) && spec.env.dom().contains(k) ==> seen.env[k]
                == spec.env[k]
            &&& seen == (AppSpecView { env: seen.env, ..spec })
        }),
{
}

/// An app that runs is paused by pausing the container of each of its replicas, and one that
/// is paused is resumed by unpausing the container of each; one that is so already is left
/// alone.
pub proof fn all_replicas_are_paused_and_resumed(
    d: DaemonView,
    name: Seq<char>,
    pause: Result<Freeze, HadesError>,
    resume: Result<Freeze, HadesError>,
    i: int,
)
    requires
        to_pause(d, name, pause),
        to_resume(d, name, resume),
        d.store.apps.dom().contains(name),
        0 <= i < d.store.apps[name].replicas.len(),
    ensures
        ({
            let rec = d.store.apps[name];
            let id = rec.replicas[i].container_id;
            if rec.state == AppState::Paused {
                &&& pause matches Ok(Freeze::Already(a)) && a@.name == rec.spec.name && a@.state
                    == AppState::Paused
                &&& resume matches Ok(Freeze::Containers(c)) && c@.len() == rec.replicas.len()
                    && c@[i]@ == id
            } else {
                &&& resume matches Ok(Freeze::Already(a)) && a@.name == rec.spec.name && a@.state
                    == rec.state
                &&& pause matches Ok(Freeze::Containers(c)) && c@.len() == rec.replicas.len()
                    && c@[i]@ == id
            }
        }),
{
    let rec = d.store.apps[name];
    let ids = if rec.state == AppState::Paused {
        resume->Ok_0->Containers_0
    } else {
        pause->Ok_0->Containers_0
    };
    assert(split::views(ids@).len() == ids@.len());
    assert(split::views(ids@)[i] == ids@[i]@);
}

/// A paused app is on record as paused, with the reason, and a resumed one as running, with
/// none; that is what is told. Nothing else of the app changes, and no other app.
pub proof fn pauses_are_recorded_and_told(
    d0: DaemonView,
    d1: DaemonView,
    d2: DaemonView,
    name: Seq<char>,
    reason: PauseReason,
    paused: Result<Told, HadesError>,
    resumed: Result<Told, HadesError>,
    other: Seq<char>,
)
    requires
        d0.store.apps.dom().contains(name),
        now_paused(d0, d1, name, reason, paused),
        now_resumed(d1, d2, name, resumed),
    ensures
        d1.store.apps[name] == (AppRecordView {
            state: AppState::Paused,
            paused_reason: Some(reason),
            ..d0.store.apps[name]
        }),
        d2.store.apps[name] == (AppRecordView {
            state: AppState::Running,
            paused_reason: None,
            ..d0.store.apps[name]
        }),
        d1.store.apps.dom() == d0.store.apps.dom(),
        d2.store.apps.dom() == d0.store.apps.dom(),
        other != name ==> d1.store.apps[other] == d0.store.apps[other] && d2.store.apps[other]
            == d0.store.apps[other],
        paused is Ok && paused->Ok_0.info@.state == AppState::Paused && paused->Ok_0.event@ == (
        HostEventView::AppPaused { app: name, reason }),
        resumed is Ok && resumed->Ok_0.info@.state == AppState::Running && resumed->Ok_0.event@ == (
        HostEventView::AppResumed { app: name }),
        d2.store.claims == d0.store.claims,
        d2.store.registry == d0.store.registry,
        d2.store.fleet == d0.store.fleet,
        d2.tunnels == d0.tunnels,
        d2.config == d0.config,
{
    assert(d1.store.apps.dom() =~= d0.store.apps.dom());
    assert(d2.store.apps.dom() =~= d0.store.apps.dom());
}

/// A name that an app claimed is on record as its own, and leads to it from there on; other
/// apps keep theirs.
pub proof fn claimed_names_lead_to_their_app(
    d: DaemonView,
    claim: ClaimRecordView,
    rec: AppRecordView,
    other: Seq<char>,
)
    requires
        rec.spec.name == claim.app,
    ensures
        ({
            let now = claimed(d, claim);
            &&& now.store.claims.dom().contains(claim.app) && now.store.claims[claim.app] == claim
            &&& hostnames_of(now, rec).contains(claim.hostname)
            &&& claim.name == "@"@ ==> hostnames_of(now, rec).contains("www."@ + claim.hostname)
            &&& info_of(now, rec).url == Some("https://"@ + claim.hostname)
            &&& now.tunnels == d.tunnels.insert("__claim_"@ + claim.app)
            &&& other != claim.app ==> (now.store.claims.dom().contains(other)
                <==> d.store.claims.dom().contains(other)) && now.store.claims[other]
                == d.store.claims[other]
            &&& now.store.apps == d.store.apps && now.store.registry == d.store.registry
                && now.store.fleet == d.store.fleet && now.config == d.config
        }),
{
    let now = claimed(d, claim);
    hostnames_are_the_apps_own(now, rec, claim.hostname);
    hostnames_are_the_apps_own(now, rec, "www."@ + claim.hostname);
}

/// A claim is asked of the coordinator that was passed down, else of the host's own, each
/// with its own secret; the name that an app holds is given back first, to the coordinator,
/// under the name that it was claimed by, and the process of its own tunnel is killed.
pub proof fn claims_go_to_their_coordinator(
    d: DaemonView,
    app: Seq<char>,
    passed_down: Option<(String, Option<String>)>,
    r: Result<ClaimOrder, HadesError>,
    claim: ClaimRecordView,
)
    requires
        to_claim(d, app, passed_down, r),
    ensures
        ({
            let known = d.store.apps.dom().contains(app);
            let asked = passed_down is Some || d.config.domain.coordinator_url is Some;
            let x = r->Ok_0@;
            let given = release_of(d, app, claim);
            let key = "__claim_"@ + app;
            &&& r is Ok <==> known && asked
            &&& !known ==> r->Err_0@ == ErrorView::AppNotFound(app)
            &&& r is Ok ==> {
                &&& x.release_first <==> d.store.claims.dom().contains(app)
                &&& passed_down matches Some(p) ==> x.url == text::drop_trailing(p.0@, "/"@)
                    + "/claim"@ && x.secret == values::opt_view(p.1)
                &&& passed_down is None ==> x.url == text::drop_trailing(
                    d.config.domain.coordinator_url->0,
                    "/"@,
                ) + "/claim"@ && x.secret == d.config.domain.coordinator_secret
                &&& passed_down is None && given.delete_url is Some ==> given.delete_url->0 == x.url
                    + "/"@ + claim.name && given.secret == x.secret
                &&& x.proxy_url == "http://localhost:"@ + text::decimal(d.config.proxy_port as nat)
            }
            &&& given.hostname == claim.hostname
            &&& given.delete_url is Some <==> d.config.domain.coordinator_url is Some
            &&& given.kill is Some <==> d.store.registry.cloudflared.dom().contains(key)
            &&& given.kill is Some ==> given.kill->0 == d.store.registry.cloudflared[key]
        }),
{
    if r is Ok && passed_down is None {
        let base = text::drop_trailing(d.config.domain.coordinator_url->0, "/"@);
        reveal_strlit("/claim");
        reveal_strlit("/");
        reveal_strlit("/claim/");
        assert(base + "/claim"@ + "/"@ + claim.name =~= base + "/claim/"@ + claim.name);
    }
}

/// Destroying an app removes the container of each of its replicas, and tells that it stopped.
pub proof fn destroyed_apps_lose_all_containers(
    d: DaemonView,
    name: Seq<char>,
    rec: AppRecordView,
    x: Destroyed,
    i: int,
)
    requires
        to_clear(d, name, rec, x),
    ensures
        x.containers@.len() == rec.replicas.len(),
        0 <= i < rec.replicas.len() ==> x.containers@[i]@ == rec.replicas[i].container_id,
        x.info@.state == AppState::Stopped,
        x.info@.name == rec.spec.name,
        x.event@ == (HostEventView::AppDestroyed { app: name }),
        x.cancel_tunnel <==> d.tunnels.contains(name),
        x.released is Some <==> d.store.claims.dom().contains(name),
        x.released is Some ==> x.released->0@.hostname == d.store.claims[name].hostname,
{
    assert(split::views(x.containers@).len() == x.containers@.len());
    if 0 <= i < rec.replicas.len() {
        assert(split::views(x.containers@)[i] == x.containers@[i]@);
    }
}

/// A coordinator's reply is taken as it is: its hostname and token become the claim of the app
/// that asked, under the name that it asked for, and its complaint is told in its own words.
pub proof fn replies_are_taken_as_they_are(app: Seq<char>, name: Seq<char>, body: Seq<char>)
    ensures
        ({
            let c = claim_in(app, name, body);
            &&& c.app == app && c.name == name
            &&& json::string_found(body, "/hostname"@) matches Some(h) ==> c.hostname == h
            &&& json::string_found(body, "/hostname"@) is None ==> c.hostname.len() == 0
            &&& json::string_found(body, "/connector_token"@) matches Some(t) ==> c.connector_token
                == t
            &&& json::string_found(body, "/connector_token"@) is None ==> c.connector_token.len()
                == 0
        }),
        json::string_found(body, "/error"@) matches Some(e) ==> refusal_in(body) == e,
        json::string_found(body, "/error"@) is None ==> refusal_in(body) == body,
{
    reveal_strlit("");
}

} // verus!
