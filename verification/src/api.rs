//! What the daemon's API decides: who may ask, what a refused request is answered, where
//! a command goes, and what the answers hold. The API is publicly reachable through the
//! control tunnel, so a request without the token must never get to a handler.
use vstd::prelude::*;

use crate::app_spec::{AppSpec, AppSpecView};
use crate::client;
use crate::client::DaemonClient;
use crate::config::HadesConfig;
use crate::daemon;
use crate::daemon::{Daemon, DaemonView};
use crate::double::Double;
use crate::error::{ErrorView, HadesError};
use crate::events::Severity;
use crate::fleet;
use crate::fleet::{known_status, sort_by_name, FleetDeviceRecord, FleetDeviceRecordView};
use crate::json;
use crate::maps;
use crate::maps::TextMap;
use crate::names;
use crate::names::NameMap;
use crate::notify::{Notification, NotificationView};
use crate::order;
use crate::order::{rank, SortKey};
use crate::paths;
use crate::paths::join_path;
use crate::proxy::RouteStats;
use crate::render;
use crate::reports;
use crate::runtime::ContainerStats;
use crate::selftest;
use crate::selftest::{Machine, MachineView};
use crate::split;
use crate::split::lines;
use crate::state;
use crate::state::{AppRecordView, ClaimRecord, ClaimRecordView, StoreView};
use crate::text;
use crate::text::{chars_of, same, slice, trim_trailing, without_prefix};
use crate::time;
use crate::time::{format_time, Timestamp};
use crate::types;
use crate::types::{
    AppInfo, AppInfoView, AppState, AppStats, DomainClaim, DomainClaimList, DomainClaimView,
    FleetDeviceViewView, FleetView, HostStatus, HostStatusView, PowerStatus, ReplicaStats,
    ReplicaStatsView, ResourceLedger, SecretsView, SecretsViewView,
};
use crate::values;
use crate::values::clone_opt;

verus! {

// --------------------------------------------------------------------------- errors

/// The HTTP status of an error.
pub open spec fn status_of(e: ErrorView) -> u16 {
    match e {
        ErrorView::InvalidSpec(_) | ErrorView::ManifestNotFound(_) => 400,
        ErrorView::AppNotFound(_) => 404,
        ErrorView::Unauthorized(_) => 401,
        ErrorView::AdmissionRejected(_) => 409,
        ErrorView::DoctorRed(_) => 503,
        ErrorView::DaemonUnreachable(_) => 502,
        ErrorView::Docker(_) | ErrorView::Tunnel(_) | ErrorView::Io(_) | ErrorView::Other(_) => 500,
    }
}

pub fn status_for(e: &HadesError) -> (r: u16)
    ensures
        r == status_of(e@),
{
    match e {
        HadesError::InvalidSpec(_) | HadesError::ManifestNotFound(_) => 400,
        HadesError::AppNotFound(_) => 404,
        HadesError::Unauthorized(_) => 401,
        HadesError::AdmissionRejected(_) => 409,
        HadesError::DoctorRed(_) => 503,
        HadesError::DaemonUnreachable(_) => 502,
        HadesError::Docker(_) | HadesError::Tunnel(_) | HadesError::Io(_) | HadesError::Other(_) => 500,
    }
}

// --------------------------------------------------------------------------- the token

/// Does a request's authorization header carry the token?
pub open spec fn carries(token: Option<Seq<char>>, header: Option<Seq<char>>) -> bool {
    token is Some && header is Some && header->0 == "Bearer "@ + token->0
}

/// Are two texts equal? All of them is looked at, whatever is found.
fn equal_throughout(a: &str, b: &str) -> (r: bool)
    ensures
        r == (a@ == b@),
{
    let x = chars_of(a);
    let y = chars_of(b);
    if x.len() != y.len() {
        return false;
    }
    let mut differ = false;
    let mut i: usize = 0;
    while i < x.len()
        invariant
            i <= x.len(),
            x@ == a@,
            y@ == b@,
            x@.len() == y@.len(),
            differ <==> exists|j: int| 0 <= j < i && x@[j] != y@[j],
        decreases x.len() - i,
    {
        if x[i] != y[i] {
            differ = true;
        }
        i += 1;
    }
    proof {
        if !differ {
            assert(a@ =~= b@);
        }
    }
    !differ
}

/// Bearer-token gate on everything but the open pages.
pub fn require_auth(token: Option<&str>, header: Option<&str>) -> (r: Result<(), HadesError>)
    ensures
        r is Ok <==> carries(
            match token {
                Some(t) => Some(t@),
                None => None,
            },
            match header {
                Some(h) => Some(h@),
                None => None,
            },
        ),
        r matches Err(e) ==> e@ == ErrorView::Unauthorized(
            "missing or invalid token; get the login command from `hades host connect-info` on the host"@,
        ),
{
    let presented = match header {
        Some(h) => without_prefix(h, "Bearer "),
        None => None,
    };
    let ok = match token {
        Some(expected) => match presented {
            Some(got) => {
                proof {
                    let h = header->0@;
                    assert(h =~= "Bearer "@ + got@);
                    if h == "Bearer "@ + expected@ {
                        assert(h.skip("Bearer "@.len() as int) =~= expected@);
                        assert(h.skip("Bearer "@.len() as int) =~= got@);
                    }
                }
                equal_throughout(expected, got.as_str())
            },
            None => {
                proof {
                    if header is Some && header->0@ == "Bearer "@ + expected@ {
                        assert(header->0@.take("Bearer "@.len() as int) =~= "Bearer "@);
                    }
                }
                false
            },
        },
        None => false,
    };
    if ok {
        Ok(())
    } else {
        Err(
            HadesError::Unauthorized(
                "missing or invalid token; get the login command from `hades host connect-info` on the host".to_owned(),
            ),
        )
    }
}

// -------------------------------------------------------------------------- deploying

/// What the fields of a deploy request have held so far.
#[derive(Debug)]
pub struct DeployForm {
    pub spec: Option<AppSpec>,
    pub has_context: bool,
}

/// A field of a deploy request.
#[derive(Debug)]
pub enum FormField {
    Spec(AppSpec),
    UnreadableSpec,
    /// The spec is not the JSON of one; why not.
    BadSpec(String),
    Context,
    BadContext(String),
    Other,
}

pub open spec fn opt_spec(o: Option<AppSpec>) -> Option<AppSpecView> {
    match o {
        Some(s) => Some(s@),
        None => None,
    }
}

impl DeployForm {
    pub fn new() -> (r: Self)
        ensures
            r.spec is None,
            !r.has_context,
    {
        DeployForm { spec: None, has_context: false }
    }

    /// Takes in a field. A later spec replaces an earlier one.
    pub fn field(&mut self, f: FormField) -> (r: Result<(), HadesError>)
        ensures
            r is Ok <==> f is Spec || f is Context || f is Other,
            r matches Err(e) ==> e@ == match f {
                FormField::BadSpec(why) => ErrorView::InvalidSpec("bad spec JSON: "@ + why@),
                FormField::BadContext(why) => ErrorView::InvalidSpec(
                    "bad context upload: "@ + why@,
                ),
                _ => ErrorView::InvalidSpec("unreadable spec field"@),
            },
            opt_spec(final(self).spec) == match f {
                FormField::Spec(s) => Some(s@),
                _ => opt_spec(old(self).spec),
            },
            final(self).has_context == (old(self).has_context || f is Context),
    {
        match f {
            FormField::Spec(s) => {
                self.spec = Some(s);
                Ok(())
            },
            FormField::UnreadableSpec => Err(
                HadesError::InvalidSpec("unreadable spec field".to_owned()),
            ),
            FormField::BadSpec(why) => Err(
                HadesError::InvalidSpec("bad spec JSON: ".to_owned().concat(why.as_str())),
            ),
            FormField::Context => {
                self.has_context = true;
                Ok(())
            },
            FormField::BadContext(why) => Err(
                HadesError::InvalidSpec("bad context upload: ".to_owned().concat(why.as_str())),
            ),
            FormField::Other => Ok(()),
        }
    }

    /// The spec to be deployed, once all fields are in.
    pub fn finish(self) -> (r: Result<AppSpec, HadesError>)
        ensures
            match opt_spec(self.spec) {
                Some(s) => r matches Ok(x) && x@ == s,
                None => r matches Err(e) && e@ == ErrorView::InvalidSpec(
                    "multipart 'spec' field missing"@,
                ),
            },
    {
        match self.spec {
            Some(s) => Ok(s),
            None => Err(HadesError::InvalidSpec("multipart 'spec' field missing".to_owned())),
        }
    }
}

/// A line of a deploy's progress, as it is sent.
pub open spec fn log_frame(line: Seq<char>) -> Seq<char> {
    "{\"log\":"@ + json::json_literal(line) + "}\n"@
}

/// What is sent for a message of a deploy under way, and whether it is the last: a
/// record separator marks the terminal line, which is sent as it is.
pub fn stream_frame(message: &str) -> (r: (String, bool))
    ensures
        r.1 == (message@.len() > 0 && message@[0] == '\u{1e}'),
        r.0@ == if r.1 {
            message@.skip(1) + "\n"@
        } else {
            log_frame(message@)
        },
{
    if message.unicode_len() > 0 && message.get_char(0) == '\u{1e}' {
        let n = message.unicode_len();
        assert(message@.subrange(1, n as int) =~= message@.skip(1));
        (slice(message, 1, n).concat("\n"), true)
    } else {
        (
            "{\"log\":".to_owned().concat(json::literal(message).as_str()).concat("}\n"),
            false,
        )
    }
}

// ------------------------------------------------------------------------- forwarding

/// The device that an app's commands are forwarded to: where it was placed, if that
/// device is still there.
pub open spec fn forwarded_to(store: StoreView, app: Seq<char>) -> Option<FleetDeviceRecordView> {
    if store.fleet.placements.dom().contains(app) {
        fleet::device_named(store.fleet.devices, store.fleet.placements[app])
    } else {
        None
    }
}

pub open spec fn opt_device(o: Option<FleetDeviceRecord>) -> Option<FleetDeviceRecordView> {
    match o {
        Some(d) => Some(d@),
        None => None,
    }
}

/// An app's answer, marked with the device that it came from.
pub fn tag(info: AppInfo, device: Option<String>) -> (r: AppInfo)
    ensures
        r@ == (AppInfoView { device: values::opt_view(device), ..info@ }),
{
    let mut info = info;
    info.device = device;
    info
}

/// The client by which the device of this name is asked, if there is one.
pub open spec fn asks_device(
    devices: Seq<FleetDeviceRecordView>,
    name: Seq<char>,
    r: Option<DaemonClient>,
) -> bool {
    match fleet::device_named(devices, name) {
        Some(d) => r matches Some(c) && c.base@ == client::base_of(d.control_url)
            && values::opt_view(c.token) == Some(d.token),
        None => r is None,
    }
}

/// The daemon once a device has left the fleet.
pub open spec fn device_gone(d: DaemonView, name: Seq<char>) -> DaemonView {
    DaemonView {
        store: d.store.with_devices(fleet::without(d.store.fleet.devices, name)).with_placements(
            maps::without_value(d.store.fleet.placements, name),
        ),
        fleet_status: d.fleet_status.remove(name),
        ..d
    }
}

impl Daemon {
    /// Apps placed on a fleet device get their commands proxied through.
    pub fn remote_for(&self, app: &str) -> (r: Option<FleetDeviceRecord>)
        ensures
            opt_device(r) == forwarded_to(self@.store, app@),
    {
        match self.store.fleet.placement_of(app) {
            Some(dev) => self.store.fleet.device(dev.as_str()),
            None => None,
        }
    }

    /// A device that took an app has destroyed it.
    pub fn forget_placement(&mut self, app: &str)
        ensures
            final(self)@ == old(self)@.with_store(
                old(self)@.store.with_placements(
                    old(self)@.store.fleet.placements.remove(app@),
                ),
            ),
            final(self).table == old(self).table,
    {
        self.store.unplace(app);
    }

    pub fn get_app(&self, name: &str) -> (r: Result<AppInfo, HadesError>)
        ensures
            match self@.store.app(name@) {
                Some(rec) => r matches Ok(i) && i@ == daemon::info_of(self@, rec),
                None => r matches Err(e) && e@ == ErrorView::AppNotFound(name@),
            },
    {
        match self.store.get(name) {
            Some(rec) => Ok(self.app_info(&rec)),
            None => Err(HadesError::AppNotFound(name.to_owned())),
        }
    }

    /// The hub's own apps.
    pub fn own_apps(&self) -> (r: Vec<AppInfo>)
        ensures
            types::app_info_views(r@) == infos_of(self@),
    {
        let apps = self.store.snapshot();
        let ghost av = self@.store.app_list();
        assert(state::app_record_views(apps@).len() == av.len());
        let mut out: Vec<AppInfo> = Vec::new();
        let mut i: usize = 0;
        while i < apps.len()
            invariant
                i <= apps.len(),
                av == state::app_record_views(apps@),
                out@.len() == i,
                forall|j: int|
                    0 <= j < i ==> (#[trigger] out@[j])@ == daemon::info_of(self@, av[j]),
            decreases apps.len() - i,
        {
            assert(av[i as int] == apps@[i as int]@);
            out.push(self.app_info(&apps[i]));
            i += 1;
        }
        assert(types::app_info_views(out@) =~= infos_of(self@));
        out
    }

    /// A device leaves the fleet.
    pub fn fleet_remove(&mut self, name: &str) -> (r: Result<(), HadesError>)
        ensures
            r is Ok <==> fleet::device_named(old(self)@.store.fleet.devices, name@) is Some,
            r matches Err(e) ==> e@ == ErrorView::AppNotFound("device "@ + name@),
            final(self)@ == device_gone(old(self)@, name@),
            final(self).table == old(self).table,
    {
        let r = self.store.fleet.remove(name);
        let _gone = self.fleet_status.remove(name);
        r
    }

    /// The client of the device of this name.
    pub fn device_client(&self, name: &str) -> (r: Option<DaemonClient>)
        ensures
            asks_device(self@.store.fleet.devices, name@, r),
    {
        match self.store.fleet.device(name) {
            Some(d) => Some(DaemonClient::for_host(d.control_url.as_str(), Some(d.token))),
            None => None,
        }
    }

    /// The device of this name, to be asked for something.
    pub fn device_or_not_found(&self, name: &str) -> (r: Result<FleetDeviceRecord, HadesError>)
        ensures
            match fleet::device_named(self@.store.fleet.devices, name@) {
                Some(d) => r matches Ok(x) && x@ == d,
                None => r matches Err(e) && e@ == ErrorView::AppNotFound("device "@ + name@),
            },
    {
        match self.store.fleet.device(name) {
            Some(d) => Ok(d),
            None => Err(HadesError::AppNotFound("device ".to_owned().concat(name))),
        }
    }
}

/// What the API tells of the hub's own apps.
pub open spec fn infos_of(d: DaemonView) -> Seq<AppInfoView> {
    Seq::new(d.store.app_list().len(), |i: int| daemon::info_of(d, d.store.app_list()[i]))
}

/// The devices that an app can be spread to: the healthy ones other than the hub.
pub open spec fn spreadable(machines: Seq<MachineView>) -> Seq<Seq<char>>
    decreases machines.len(),
{
    if machines.len() == 0 {
        Seq::empty()
    } else {
        let rest = spreadable(machines.drop_last());
        if !machines.last().is_self && machines.last().healthy {
            rest.push(machines.last().name)
        } else {
            rest
        }
    }
}

pub fn spread_targets(machines: &Vec<Machine>) -> (r: Vec<String>)
    ensures
        split::views(r@) == spreadable(selftest::machine_views(machines@)),
{
    let ghost mv = selftest::machine_views(machines@);
    let mut out: Vec<String> = Vec::new();
    let mut i: usize = 0;
    assert(mv.take(0) =~= Seq::empty());
    assert(split::views(out@) =~= Seq::empty());
    while i < machines.len()
        invariant
            i <= machines.len(),
            mv == selftest::machine_views(machines@),
            split::views(out@) == spreadable(mv.take(i as int)),
        decreases machines.len() - i,
    {
        assert(mv.take(i + 1).drop_last() =~= mv.take(i as int));
        assert(mv.take(i + 1).last() == machines@[i as int]@);
        if !machines[i].is_self && machines[i].healthy {
            let n = machines[i].name.clone();
            proof {
                split::lemma_views_push(out@, n);
            }
            out.push(n);
        }
        i += 1;
    }
    assert(mv.take(i as int) =~= mv);
    out
}

// ----------------------------------------------------------------------------- secrets

/// What the API tells of an app's secrets: their names, never their values.
pub fn secrets_view(app: &str, secrets: &TextMap, encrypted: bool, applied: bool) -> (r: SecretsView)
    ensures
        r@ == (SecretsViewView {
            app: app@,
            keys: names::listing(secrets@.dom()),
            encrypted,
            applied,
            device: None,
        }),
{
    let n = secrets.len();
    SecretsView { app: app.to_owned(), keys: secrets.keys(), encrypted, applied, device: None }
}

// -------------------------------------------------------------------------------- logs

impl Daemon {
    /// The container whose logs are shown for an app: that of its first replica.
    pub fn log_source(&self, name: &str) -> (r: Result<String, HadesError>)
        ensures
            match self@.store.app(name@) {
                None => r matches Err(e) && e@ == ErrorView::AppNotFound(name@),
                Some(rec) => if rec.replicas.len() == 0 {
                    r matches Err(e) && e@ == ErrorView::Other(
                        name@ + " has no running replicas"@,
                    )
                } else {
                    r matches Ok(id) && id@ == rec.replicas[0].container_id
                },
            },
    {
        let rec = match self.store.get(name) {
            Some(rec) => rec,
            None => {
                return Err(HadesError::AppNotFound(name.to_owned()));
            },
        };
        if rec.replicas.len() == 0 {
            return Err(HadesError::Other(name.to_owned().concat(" has no running replicas")));
        }
        Ok(rec.replicas[0].container_id.clone())
    }
}

/// The last lines of a text, in order.
pub open spec fn tail(all: Seq<Seq<char>>, n: nat) -> Seq<Seq<char>> {
    if all.len() <= n {
        all
    } else {
        all.skip(all.len() - n)
    }
}

pub fn last_lines(raw: &str, n: usize) -> (r: Vec<String>)
    ensures
        split::views(r@) == tail(split::line_list(raw@), n as nat),
{
    let all = lines(raw);
    let ghost lv = split::views(all@);
    let mut out: Vec<String> = Vec::new();
    let start: usize = if all.len() <= n {
        0
    } else {
        all.len() - n
    };
    let mut i: usize = start;
    while i < all.len()
        invariant
            start <= i <= all.len(),
            lv == split::views(all@),
            out@.len() == i - start,
            forall|j: int| 0 <= j < i - start ==> (#[trigger] out@[j])@ == lv[start + j],
        decreases all.len() - i,
    {
        assert(lv[i as int] == all@[i as int]@);
        out.push(all[i].clone());
        i += 1;
    }
    assert(split::views(out@) =~= tail(lv, n as nat));
    out
}

/// A line of the event ledger, and when its event happened, where it can be read.
#[derive(Debug)]
pub struct LedgerLine {
    pub line: String,
    pub at: Option<Timestamp>,
}

/// The lines from `cutoff` on; all lines where there is none. A line that cannot be read
/// is from no time.
pub open spec fn replayed(all: Seq<LedgerLine>, cutoff: Option<Timestamp>) -> Seq<Seq<char>>
    decreases all.len(),
{
    if all.len() == 0 {
        Seq::empty()
    } else {
        let rest = replayed(all.drop_last(), cutoff);
        let kept = match cutoff {
            Some(c) => match all.last().at {
                Some(t) => !t.before(c),
                None => false,
            },
            None => true,
        };
        if kept {
            rest.push(all.last().line@)
        } else {
            rest
        }
    }
}

/// The backlog of events that is replayed.
pub fn backlog(all: &Vec<LedgerLine>, cutoff: Option<Timestamp>) -> (r: Vec<String>)
    ensures
        split::views(r@) == replayed(all@, cutoff),
{
    let mut out: Vec<String> = Vec::new();
    let mut i: usize = 0;
    assert(all@.take(0) =~= Seq::empty());
    assert(split::views(out@) =~= Seq::empty());
    while i < all.len()
        invariant
            i <= all.len(),
            split::views(out@) == replayed(all@.take(i as int), cutoff),
        decreases all.len() - i,
    {
        assert(all@.take(i + 1).drop_last() =~= all@.take(i as int));
        let kept = match cutoff {
            Some(c) => match all[i].at {
                Some(t) => !t.is_before(&c),
                None => false,
            },
            None => true,
        };
        if kept {
            let line = all[i].line.clone();
            proof {
                split::lemma_views_push(out@, line);
            }
            out.push(line);
        }
        i += 1;
    }
    assert(all@.take(i as int) =~= all@);
    out
}

// ------------------------------------------------------------------------------- stats

/// What was read of a replica.
#[derive(Debug)]
pub struct ReplicaReading {
    pub state: Option<String>,
    pub stats: Option<ContainerStats>,
}

/// The number zero.
pub open spec fn zero() -> Double {
    Double { bits: 0 }
}

pub open spec fn replica_row(id: Seq<char>, memory_mb: u64, r: ReplicaReading) -> ReplicaStatsView {
    ReplicaStatsView {
        container_id: reports::short_id(id),
        memory_used_mb: match r.stats {
            Some(s) => s.memory_used_mb,
            None => zero(),
        },
        memory_limit_mb: memory_mb,
        cpu_pct: match r.stats {
            Some(s) => s.cpu_pct,
            None => zero(),
        },
        state: match r.state {
            Some(s) => s@,
            None => "unknown"@,
        },
    }
}

/// The proxy's figures of an app; zeros where it has no route.
pub open spec fn figures_of(d: Daemon, name: Seq<char>) -> RouteStats {
    if d.table.routes@.dom().contains(name) {
        d.table.routes@[name].stats_now()
    } else {
        RouteStats {
            requests_total: 0,
            inflight: 0,
            shed_total: 0,
            p50_ms: zero(),
            p95_ms: zero(),
        }
    }
}

/// An app's figures are told.
pub open spec fn tells_stats(
    d: Daemon,
    name: Seq<char>,
    rec: AppRecordView,
    readings: Seq<ReplicaReading>,
    s: AppStats,
) -> bool {
    let f = figures_of(d, name);
    &&& s@.name == name
    &&& s@.requests_total == f.requests_total
    &&& s@.inflight == f.inflight
    &&& s@.shed_total == f.shed_total
    &&& s@.p50_ms == f.p50_ms
    &&& s@.p95_ms == f.p95_ms
    &&& s@.replicas == Seq::new(
        rec.replicas.len(),
        |i: int|
            replica_row(rec.replicas[i].container_id, rec.spec.resources.memory_mb, readings[i]),
    )
}

impl Daemon {
    fn figures(&self, name: &str) -> (r: RouteStats)
        requires
            self.table.wf(),
        ensures
            r == figures_of(*self, name@),
    {
        match self.table.stats(name) {
            Some(s) => s,
            None => RouteStats::default(),
        }
    }

    /// An app's figures, with what was read of each of its replicas.
    pub fn app_stats(&self, name: &str, readings: &Vec<ReplicaReading>) -> (r: Result<
        AppStats,
        HadesError,
    >)
        requires
            self.table.wf(),
            self@.store.app(name@) matches Some(rec) ==> readings@.len() == rec.replicas.len(),
        ensures
            match self@.store.app(name@) {
                None => r matches Err(e) && e@ == ErrorView::AppNotFound(name@),
                Some(rec) => r matches Ok(s) && tells_stats(*self, name@, rec, readings@, s),
            },
    {
        let rec = match self.store.get(name) {
            Some(rec) => rec,
            None => {
                return Err(HadesError::AppNotFound(name.to_owned()));
            },
        };
        let f = self.figures(name);
        let memory_mb = rec.spec.resources.memory_mb;
        let mut replicas: Vec<ReplicaStats> = Vec::new();
        let mut i: usize = 0;
        assert(rec@.replicas.len() == rec.replicas@.len());
        while i < rec.replicas.len()
            invariant
                i <= rec.replicas.len(),
                rec.replicas@.len() == readings@.len(),
                replicas@.len() == i,
                forall|j: int|
                    0 <= j < i ==> (#[trigger] replicas@[j])@ == replica_row(
                        rec.replicas@[j].container_id@,
                        memory_mb,
                        readings@[j],
                    ),
            decreases rec.replicas.len() - i,
        {
            let x = &readings[i];
            let zero = Double { bits: 0 };
            replicas.push(
                ReplicaStats {
                    container_id: reports::shorten(rec.replicas[i].container_id.as_str()),
                    memory_used_mb: match &x.stats {
                        Some(s) => s.memory_used_mb,
                        None => zero,
                    },
                    memory_limit_mb: memory_mb,
                    cpu_pct: match &x.stats {
                        Some(s) => s.cpu_pct,
                        None => zero,
                    },
                    state: match &x.state {
                        Some(s) => s.clone(),
                        None => "unknown".to_owned(),
                    },
                },
            );
            i += 1;
        }
        let s = AppStats {
            name: name.to_owned(),
            requests_total: f.requests_total,
            inflight: f.inflight,
            shed_total: f.shed_total,
            p50_ms: f.p50_ms,
            p95_ms: f.p95_ms,
            replicas,
        };
        assert(s@.replicas =~= Seq::new(
            rec@.replicas.len(),
            |i: int| replica_row(rec@.replicas[i].container_id, memory_mb, readings@[i]),
        ));
        Ok(s)
    }

    /// The state of the host.
    pub fn host_status(
        &self,
        version: &str,
        ledger: ResourceLedger,
        power: PowerStatus,
        availability_pct_7d: Double,
        req_per_sec: Double,
    ) -> (r: HostStatus)
        ensures
            r@ == (HostStatusView {
                daemon_version: version@,
                started_at: self@.started_at,
                doctor_green: self@.doctor_green,
                control_url: self@.control_url,
                ledger: ledger@,
                power,
                availability_pct_7d: Some(availability_pct_7d),
                req_per_sec,
                apps: fleet::by_name(infos_of(self@)),
            }),
    {
        let own = self.own_apps();
        HostStatus {
            daemon_version: version.to_owned(),
            started_at: self.started_at,
            doctor_green: self.doctor_green,
            control_url: clone_opt(&self.control_url),
            ledger,
            power,
            availability_pct_7d: Some(availability_pct_7d),
            req_per_sec,
            apps: sort_by_name(&own),
        }
    }
}

// ------------------------------------------------------------------------------ domains

/// The claim under which this machine's own control hostname is kept; it belongs to no
/// app.
pub open spec fn control_claim(
    name: Seq<char>,
    hostname: Seq<char>,
    connector_token: Seq<char>,
) -> ClaimRecordView {
    ClaimRecordView { app: "__control"@, name, hostname, connector_token }
}

/// Takes on a control hostname that the hub minted for this device.
pub fn adopt_control(name: &str, hostname: &str, connector_token: &str) -> (r: (ClaimRecord, String))
    ensures
        r.0@ == control_claim(name@, hostname@, connector_token@),
        r.1@ == "https://"@ + hostname@,
{
    (
        ClaimRecord {
            app: "__control".to_owned(),
            name: name.to_owned(),
            hostname: hostname.to_owned(),
            connector_token: connector_token.to_owned(),
        },
        "https://".to_owned().concat(hostname),
    )
}

/// The coordinator that a hub mints control hostnames with.
pub fn hub_coordinator(config: &HadesConfig) -> (r: Result<String, HadesError>)
    ensures
        match config@.domain.coordinator_url {
            Some(u) => r matches Ok(x) && x@ == u,
            None => r matches Err(e) && e@ == ErrorView::Other(
                "this hub has no coordinator configured"@,
            ),
        },
{
    match &config.domain.coordinator_url {
        Some(u) => Ok(u.clone()),
        None => Err(HadesError::Other("this hub has no coordinator configured".to_owned())),
    }
}

/// The claims of apps, by app.
pub open spec fn app_claims(store: StoreView, keys: Seq<Seq<char>>) -> Seq<DomainClaimView>
    decreases keys.len(),
{
    if keys.len() == 0 {
        Seq::empty()
    } else {
        let rest = app_claims(store, keys.drop_last());
        let c = store.claims[keys.last()];
        if c.app == "__control"@ {
            rest
        } else {
            rest.push(DomainClaimView { app: c.app, name: c.name, hostname: c.hostname })
        }
    }
}

impl Daemon {
    /// The names that apps hold.
    pub fn domain_claims(&self) -> (r: DomainClaimList)
        ensures
            r@.claims == app_claims(self@.store, names::listing(self@.store.claims.dom())),
    {
        let claims = self.store.claims_snapshot();
        let ghost keys = names::listing(self@.store.claims.dom());
        let mut out: Vec<DomainClaim> = Vec::new();
        let mut i: usize = 0;
        assert(keys.take(0) =~= Seq::empty());
        assert(types::domain_claim_views(out@) =~= Seq::empty());
        while i < claims.len()
            invariant
                i <= claims.len(),
                keys == names::listing(self@.store.claims.dom()),
                claims@.len() == keys.len(),
                forall|j: int|
                    0 <= j < claims@.len() ==> (#[trigger] claims@[j])@
                        == self@.store.claims[keys[j]],
                types::domain_claim_views(out@) == app_claims(self@.store, keys.take(i as int)),
            decreases claims.len() - i,
        {
            assert(keys.take(i + 1).drop_last() =~= keys.take(i as int));
            assert(keys.take(i + 1).last() == keys[i as int]);
            let c = &claims[i];
            if !same(c.app.as_str(), "__control") {
                let ghost before = out@;
                let row = DomainClaim {
                    app: c.app.clone(),
                    name: c.name.clone(),
                    hostname: c.hostname.clone(),
                };
                out.push(row);
                assert(types::domain_claim_views(out@) =~= types::domain_claim_views(before).push(
                    row@,
                ));
            }
            i += 1;
        }
        assert(keys.take(i as int) =~= keys);
        DomainClaimList { claims: out }
    }
}

// --------------------------------------------------------------- sharing and updating

/// Where the source lies that this host shares with its fleet: the configured directory,
/// else the one under its root, where there is a manifest in it.
pub fn source_dir(
    configured: Option<&str>,
    configured_has_manifest: bool,
    root: &str,
    root_has_manifest: bool,
) -> (r: Result<String, HadesError>)
    ensures
        r is Ok <==> (configured is Some && configured_has_manifest) || root_has_manifest,
        r matches Ok(p) ==> p@ == if configured is Some && configured_has_manifest {
            configured->0@
        } else {
            paths::joined_path(root@, "src"@)
        },
        r matches Err(e) ==> e@ == ErrorView::Other(
            "this host has no source to share (no source_dir)"@,
        ),
{
    match configured {
        Some(p) => {
            if configured_has_manifest {
                return Ok(p.to_owned());
            }
        },
        None => {},
    }
    if root_has_manifest {
        Ok(join_path(root, "src"))
    } else {
        Err(HadesError::Other("this host has no source to share (no source_dir)".to_owned()))
    }
}

/// The shell command of a detached self-update: it rebuilds, swaps binaries and bounces
/// the daemon, and writes a log.
pub fn update_command(own_cli: Option<&str>, log: &str) -> (r: String)
    ensures
        r@ == "sleep 1; "@ + (match own_cli {
            Some(c) => c@,
            None => "hades"@,
        }) + " update >> "@ + log@ + " 2>&1"@,
{
    let cli = match own_cli {
        Some(c) => c,
        None => "hades",
    };
    "sleep 1; ".to_owned().concat(cli).concat(" update >> ").concat(log).concat(" 2>&1")
}

/// How a machine is reached by ssh.
#[derive(Debug, Clone, Copy, PartialEq, Eq, Structural)]
pub enum SshPlan {
    /// The tunnel that is there is used.
    Reuse,
    /// A tunnel is to be opened.
    Open,
}

impl Daemon {
    /// Can this machine be reached by ssh, and how? The tunnel is only a road:
    /// authentication stays with sshd.
    pub fn host_ssh(&self, sshd_up: bool, tunnel_alive: bool) -> (r: Result<SshPlan, HadesError>)
        ensures
            !sshd_up ==> (r matches Err(e) && e@ == ErrorView::Other(
                "Remote Login is off on this machine; System Settings → General → Sharing → Remote Login"@,
            )),
            sshd_up && !self@.provider ==> (r matches Err(e) && e@ == ErrorView::Tunnel(
                "cloudflared not installed on this host"@,
            )),
            sshd_up && self@.provider ==> r == Ok::<SshPlan, HadesError>(
                if tunnel_alive {
                    SshPlan::Reuse
                } else {
                    SshPlan::Open
                },
            ),
    {
        if !sshd_up {
            return Err(
                HadesError::Other(
                    "Remote Login is off on this machine; System Settings → General → Sharing → Remote Login".to_owned(),
                ),
            );
        }
        if !self.provider {
            return Err(HadesError::Tunnel("cloudflared not installed on this host".to_owned()));
        }
        if tunnel_alive {
            Ok(SshPlan::Reuse)
        } else {
            Ok(SshPlan::Open)
        }
    }

    /// The ssh tunnel is up.
    pub fn ssh_up(&mut self, pid: Option<u32>)
        ensures
            final(self)@ == match pid {
                Some(p) => old(self)@.with_store(
                    old(self)@.store.with_pids(
                        old(self)@.store.registry.cloudflared.insert("__ssh"@, p),
                    ),
                ),
                None => old(self)@,
            },
            final(self).table == old(self).table,
    {
        match pid {
            Some(p) => self.store.put_pid("__ssh", p),
            None => {},
        }
    }
}

/// The notification that shows that the host can reach its owner.
pub fn test_notification() -> (r: Notification)
    ensures
        r@ == (NotificationView {
            title: "hades"@,
            body: "test notification: your host can reach you"@,
            severity: Severity::Urgent,
        }),
{
    Notification {
        title: "hades".to_owned(),
        body: "test notification: your host can reach you".to_owned(),
        severity: Severity::Urgent,
    }
}

// --------------------------------------------------------------------------- dashboard

/// Where an app runs.
#[derive(Debug)]
pub struct Instance {
    pub machine: String,
    pub role: String,
    pub is_self: bool,
    pub state: String,
    pub replicas: usize,
    pub healthy: bool,
}

/// The contents of an `Instance`.
pub struct InstanceView {
    pub machine: Seq<char>,
    pub role: Seq<char>,
    pub is_self: bool,
    pub state: Seq<char>,
    pub replicas: usize,
    pub healthy: bool,
}

impl View for Instance {
    type V = InstanceView;

    open spec fn view(&self) -> InstanceView {
        InstanceView {
            machine: self.machine@,
            role: self.role@,
            is_self: self.is_self,
            state: self.state@,
            replicas: self.replicas,
            healthy: self.healthy,
        }
    }
}

impl Clone for Instance {
    fn clone(&self) -> (r: Self)
        ensures
            r@ == self@,
    {
        Instance {
            machine: self.machine.clone(),
            role: self.role.clone(),
            is_self: self.is_self,
            state: self.state.clone(),
            replicas: self.replicas,
            healthy: self.healthy,
        }
    }
}

pub open spec fn instance_views(v: Seq<Instance>) -> Seq<InstanceView> {
    Seq::new(v.len(), |i: int| v[i]@)
}

pub fn clone_instances(v: &Vec<Instance>) -> (r: Vec<Instance>)
    ensures
        instance_views(r@) == instance_views(v@),
{
    let mut out: Vec<Instance> = Vec::new();
    let mut i: usize = 0;
    while i < v.len()
        invariant
            i <= v.len(),
            out@.len() == i,
            forall|j: int| 0 <= j < i ==> (#[trigger] out@[j])@ == v@[j]@,
        decreases v.len() - i,
    {
        out.push(v[i].clone());
        i += 1;
    }
    assert(instance_views(out@) =~= instance_views(v@));
    out
}

/// An app on the dashboard.
#[derive(Debug)]
pub struct AppRow {
    pub name: String,
    pub hostname: Option<String>,
    pub spread: bool,
    pub requests: u64,
    pub p95_ms: Double,
    pub instances: Vec<Instance>,
}

/// The contents of an `AppRow`.
pub struct AppRowView {
    pub name: Seq<char>,
    pub hostname: Option<Seq<char>>,
    pub spread: bool,
    pub requests: u64,
    pub p95_ms: Double,
    pub instances: Seq<InstanceView>,
}

impl View for AppRow {
    type V = AppRowView;

    open spec fn view(&self) -> AppRowView {
        AppRowView {
            name: self.name@,
            hostname: values::opt_view(self.hostname),
            spread: self.spread,
            requests: self.requests,
            p95_ms: self.p95_ms,
            instances: instance_views(self.instances@),
        }
    }
}

impl Clone for AppRow {
    fn clone(&self) -> (r: Self)
        ensures
            r@ == self@,
    {
        AppRow {
            name: self.name.clone(),
            hostname: clone_opt(&self.hostname),
            spread: self.spread,
            requests: self.requests,
            p95_ms: self.p95_ms,
            instances: clone_instances(&self.instances),
        }
    }
}

pub open spec fn app_row_views(v: Seq<AppRow>) -> Seq<AppRowView> {
    Seq::new(v.len(), |i: int| v[i]@)
}

/// A machine on the dashboard.
#[derive(Debug)]
pub struct DeviceRow {
    pub name: String,
    pub is_self: bool,
    pub healthy: bool,
    pub free_mb: u64,
    pub apps: u32,
    pub load: Double,
    pub last_seen: String,
}

/// The contents of a `DeviceRow`.
pub struct DeviceRowView {
    pub name: Seq<char>,
    pub is_self: bool,
    pub healthy: bool,
    pub free_mb: u64,
    pub apps: u32,
    pub load: Double,
    pub last_seen: Seq<char>,
}

impl View for DeviceRow {
    type V = DeviceRowView;

    open spec fn view(&self) -> DeviceRowView {
        DeviceRowView {
            name: self.name@,
            is_self: self.is_self,
            healthy: self.healthy,
            free_mb: self.free_mb,
            apps: self.apps,
            load: self.load,
            last_seen: self.last_seen@,
        }
    }
}

impl Clone for DeviceRow {
    fn clone(&self) -> (r: Self)
        ensures
            r@ == self@,
    {
        DeviceRow {
            name: self.name.clone(),
            is_self: self.is_self,
            healthy: self.healthy,
            free_mb: self.free_mb,
            apps: self.apps,
            load: self.load,
            last_seen: self.last_seen.clone(),
        }
    }
}

pub open spec fn device_row_views(v: Seq<DeviceRow>) -> Seq<DeviceRowView> {
    Seq::new(v.len(), |i: int| v[i]@)
}

/// Where a device of a fleet gets the whole fleet's dashboard: from its hub.
pub fn mirror_url(hub_url: &str) -> (r: String)
    ensures
        r@ == text::drop_trailing(hub_url@, "/"@) + "/dashboard/metrics"@,
{
    trim_trailing(hub_url, "/").concat("/dashboard/metrics")
}

pub open spec fn healthy_now(statuses: Map<Seq<char>, fleet::DeviceStatus>, dev: Seq<char>) -> bool {
    fleet::status_of(statuses, dev).healthy
}

/// An app's instance on a device.
pub open spec fn device_instance(dev: Seq<char>, replicas: usize, healthy: bool) -> InstanceView {
    InstanceView {
        machine: dev,
        role: "device"@,
        is_self: false,
        state: if healthy {
            "running"@
        } else {
            "unreachable"@
        },
        replicas,
        healthy,
    }
}

/// The devices that an app was spread to.
pub open spec fn spread_of(spreads: Map<Seq<char>, Vec<String>>, app: Seq<char>) -> Seq<Seq<char>> {
    if spreads.dom().contains(app) {
        split::views(spreads[app]@)
    } else {
        Seq::empty()
    }
}

/// An app that this machine runs and keeps under a name.
pub open spec fn own_row(
    d: Daemon,
    self_name: Seq<char>,
    name: Seq<char>,
    rec: AppRecordView,
    spread: Seq<Seq<char>>,
) -> AppRowView {
    let f = figures_of(d, name);
    AppRowView {
        name,
        hostname: match d@.store.claim_of(name) {
            Some(c) => Some(c.hostname),
            None => None,
        },
        spread: spread.len() > 0,
        requests: f.requests_total,
        p95_ms: f.p95_ms,
        instances: seq![
            InstanceView {
                machine: self_name,
                role: "hub"@,
                is_self: true,
                state: rec.state.name(),
                replicas: rec.replicas.len() as usize,
                healthy: d@.doctor_green && rec.state == AppState::Running,
            },
        ] + Seq::new(
            spread.len(),
            |i: int|
                device_instance(
                    spread[i],
                    rec.spec.replicas as usize,
                    healthy_now(d@.fleet_status, spread[i]),
                ),
        ),
    }
}

/// An app that a device runs.
pub open spec fn placed_row(d: Daemon, app: Seq<char>, dev: Seq<char>) -> AppRowView {
    AppRowView {
        name: app,
        hostname: None,
        spread: false,
        requests: 0,
        p95_ms: zero(),
        instances: seq![device_instance(dev, 1, healthy_now(d@.fleet_status, dev))],
    }
}

/// All apps: this machine's, then those placed on devices.
pub open spec fn all_rows(
    d: Daemon,
    self_name: Seq<char>,
    spreads: Map<Seq<char>, Vec<String>>,
) -> Seq<AppRowView> {
    let own = names::listing(d@.store.apps.dom());
    let placed = names::listing(d@.store.fleet.placements.dom());
    Seq::new(
        own.len(),
        |i: int|
            own_row(d, self_name, own[i], d@.store.apps[own[i]], spread_of(spreads, own[i])),
    ) + Seq::new(
        placed.len(),
        |i: int| placed_row(d, placed[i], d@.store.fleet.placements[placed[i]]),
    )
}

pub open spec fn row_keys(rows: Seq<AppRowView>) -> Seq<(nat, Seq<char>)> {
    Seq::new(rows.len(), |i: int| (0nat, rows[i].name))
}

/// Rows by name; those of one name keep their order.
pub open spec fn rows_by_name(rows: Seq<AppRowView>) -> Seq<AppRowView> {
    Seq::new(rows.len(), |i: int| rows[order::ranked(row_keys(rows))[i]])
}

fn sort_rows(rows: &Vec<AppRow>) -> (r: Vec<AppRow>)
    ensures
        app_row_views(r@) == rows_by_name(app_row_views(rows@)),
{
    let ghost rv = app_row_views(rows@);
    let mut keys: Vec<SortKey> = Vec::new();
    let mut i: usize = 0;
    while i < rows.len()
        invariant
            i <= rows.len(),
            keys@.len() == i,
            forall|j: int|
                0 <= j < i ==> (#[trigger] keys@[j]).rank == 0 && keys@[j].name@ == rows@[j].name@,
        decreases rows.len() - i,
    {
        keys.push(SortKey { rank: 0, name: rows[i].name.clone() });
        i += 1;
    }
    let ghost kv = row_keys(rv);
    assert(order::key_views(keys@) =~= kv);
    let places = rank(&keys);
    let mut out: Vec<AppRow> = Vec::new();
    let mut k: usize = 0;
    while k < places.len()
        invariant
            k <= places.len(),
            out@.len() == k,
            rv == app_row_views(rows@),
            order::positions(places@) == order::ranked(kv),
            order::is_ranking(order::positions(places@), kv, rows@.len()),
            forall|j: int| 0 <= j < k ==> (#[trigger] out@[j])@ == rv[order::ranked(kv)[j]],
        decreases places.len() - k,
    {
        let p = places[k];
        assert(order::positions(places@)[k as int] == p);
        out.push(rows[p].clone());
        k += 1;
    }
    assert(app_row_views(out@) =~= rows_by_name(rv));
    out
}

fn instance_on(dev: &str, replicas: usize, healthy: bool) -> (r: Instance)
    ensures
        r@ == device_instance(dev@, replicas, healthy),
{
    Instance {
        machine: dev.to_owned(),
        role: "device".to_owned(),
        is_self: false,
        state: if healthy {
            "running".to_owned()
        } else {
            "unreachable".to_owned()
        },
        replicas,
        healthy,
    }
}

impl Daemon {
    fn row_of(
        &self,
        self_name: &str,
        name: &str,
        rec: &state::AppRecord,
        spread: &Vec<String>,
    ) -> (r: AppRow)
        requires
            self.table.wf(),
        ensures
            r@ == own_row(*self, self_name@, name@, rec@, split::views(spread@)),
    {
        let ghost sv = split::views(spread@);
        let mut instances: Vec<Instance> = Vec::new();
        let own = Instance {
            machine: self_name.to_owned(),
            role: "hub".to_owned(),
            is_self: true,
            state: rec.state.as_str().to_owned(),
            replicas: rec.replicas.len(),
            healthy: self.doctor_green && rec.state == AppState::Running,
        };
        let ghost first = own@;
        instances.push(own);
        let n = rec.spec.replicas as usize;
        let ghost more = Seq::new(
            sv.len(),
            |i: int| device_instance(sv[i], n, healthy_now(self@.fleet_status, sv[i])),
        );
        let mut i: usize = 0;
        assert(more.take(0) =~= Seq::empty());
        assert(instance_views(instances@) =~= seq![first] + more.take(0));
        while i < spread.len()
            invariant
                i <= spread.len(),
                sv == split::views(spread@),
                more == Seq::new(
                    sv.len(),
                    |i: int| device_instance(sv[i], n, healthy_now(self@.fleet_status, sv[i])),
                ),
                instance_views(instances@) == seq![first] + more.take(i as int),
            decreases spread.len() - i,
        {
            assert(sv[i as int] == spread@[i as int]@);
            let dev = spread[i].as_str();
            let healthy = known_status(&self.fleet_status, dev).healthy;
            let ghost before = instances@;
            let inst = instance_on(dev, n, healthy);
            assert(inst@ == more[i as int]);
            instances.push(inst);
            assert(instance_views(instances@) =~= instance_views(before).push(more[i as int]));
            assert(more.take(i + 1) =~= more.take(i as int).push(more[i as int]));
            assert(seq![first] + more.take(i + 1) =~= (seq![first] + more.take(i as int)).push(
                more[i as int],
            ));
            i += 1;
        }
        assert(more.take(i as int) =~= more);
        let f = self.figures(name);
        let hostname = match self.store.claim_for(name) {
            Some(c) => Some(c.hostname),
            None => None,
        };
        AppRow {
            name: name.to_owned(),
            hostname,
            spread: spread.len() > 0,
            requests: f.requests_total,
            p95_ms: f.p95_ms,
            instances,
        }
    }

    /// The apps, and where each one's instances live.
    pub fn dashboard_apps(&self, self_name: &str, spreads: &NameMap<Vec<String>>) -> (r: Vec<AppRow>)
        requires
            self.table.wf(),
        ensures
            app_row_views(r@) == rows_by_name(all_rows(*self, self_name@, spreads@)),
    {
        let apps = &self.store.apps;
        let own_len = apps.len();
        let ghost own = apps.key_list();
        assert(self@.store.apps.dom() =~= apps@.dom());
        let ghost all = all_rows(*self, self_name@, spreads@);
        let mut rows: Vec<AppRow> = Vec::new();
        let mut i: usize = 0;
        assert(all.take(0) =~= Seq::empty());
        assert(app_row_views(rows@) =~= Seq::empty());
        while i < own_len
            invariant
                i <= own_len,
                own_len == own.len(),
                self.table.wf(),
                apps == self.store.apps,
                own == apps.key_list(),
                own == names::listing(self@.store.apps.dom()),
                names::lists(own, apps@.dom()),
                all == all_rows(*self, self_name@, spreads@),
                app_row_views(rows@) == all.take(i as int),
            decreases own_len - i,
        {
            assert(own.contains(own[i as int]));
            let ghost before = rows@;
            let name = apps.key_at(i).as_str();
            let rec = apps.value_at(i);
            assert(rec@ == self@.store.apps[own[i as int]]);
            let row = match spreads.get(name) {
                Some(devs) => self.row_of(self_name, name, rec, devs),
                None => {
                    let none: Vec<String> = Vec::new();
                    assert(split::views(none@) =~= Seq::empty());
                    self.row_of(self_name, name, rec, &none)
                },
            };
            assert(row@ == all[i as int]);
            rows.push(row);
            assert(app_row_views(rows@) =~= app_row_views(before).push(all[i as int]));
            assert(all.take(i + 1) =~= all.take(i as int).push(all[i as int]));
            i += 1;
        }
        let n = self.store.fleet.placements.len();
        let ghost base = own.len() as int;
        let mut k: usize = 0;
        while k < n
            invariant
                k <= n,
                base == own.len(),
                own == names::listing(self@.store.apps.dom()),
                n == names::listing(self@.store.fleet.placements.dom()).len(),
                self.store.fleet.placements.key_list() == names::listing(
                    self@.store.fleet.placements.dom(),
                ),
                all == all_rows(*self, self_name@, spreads@),
                app_row_views(rows@) == all.take(base + k),
            decreases n - k,
        {
            let app = self.store.fleet.placements.key_at(k);
            let dev = self.store.fleet.placements.value_at(k).as_str();
            let healthy = known_status(&self.fleet_status, dev).healthy;
            let mut instances: Vec<Instance> = Vec::new();
            let inst = instance_on(dev, 1, healthy);
            instances.push(inst);
            assert(instance_views(instances@) =~= seq![inst@]);
            let ghost before = rows@;
            let row = AppRow {
                name: app.clone(),
                hostname: None,
                spread: false,
                requests: 0,
                p95_ms: Double { bits: 0 },
                instances,
            };
            assert(row@ == all[base + k]);
            rows.push(row);
            assert(app_row_views(rows@) =~= app_row_views(before).push(all[base + k]));
            assert(all.take(base + k + 1) =~= all.take(base + k).push(all[base + k]));
            k += 1;
        }
        assert(all.take(base + k) =~= all);
        sort_rows(&rows)
    }
}

/// When a machine was last seen. The first of the fleet is the hub itself.
pub open spec fn seen_text(d: FleetDeviceViewView, is_self: bool) -> Seq<char> {
    if is_self {
        "now"@
    } else {
        match d.last_seen {
            Some(t) => time::time_text(t, "%H:%M:%S"@),
            None => "never"@,
        }
    }
}

/// A machine's row. Other machines do not tell their rate.
pub open spec fn device_row(d: FleetDeviceViewView, is_self: bool, own_rate: Double) -> DeviceRowView {
    DeviceRowView {
        name: d.name,
        is_self,
        healthy: d.healthy,
        free_mb: d.free_mb,
        apps: d.apps,
        load: if is_self {
            own_rate
        } else {
            Double { bits: 0 }
        },
        last_seen: seen_text(d, is_self),
    }
}

pub open spec fn device_rows(v: Seq<FleetDeviceViewView>, own_rate: Double) -> Seq<DeviceRowView> {
    Seq::new(v.len(), |i: int| device_row(v[i], i == 0, own_rate))
}

pub open spec fn healthy_among(v: Seq<FleetDeviceViewView>) -> nat
    decreases v.len(),
{
    if v.len() == 0 {
        0
    } else {
        healthy_among(v.drop_last()) + if v.last().healthy {
            1nat
        } else {
            0
        }
    }
}

/// The machines of the fleet, the hub first, and how many of them are healthy.
pub fn dashboard_devices(v: &FleetView, own_rate: Double) -> (r: (Vec<DeviceRow>, usize))
    requires
        render::seen_at_valid_times(v.devices@),
    ensures
        device_row_views(r.0@) == device_rows(v@.devices, own_rate),
        r.1 == healthy_among(v@.devices),
{
    let devices = &v.devices;
    let ghost dv = v@.devices;
    let mut rows: Vec<DeviceRow> = Vec::new();
    let mut healthy: usize = 0;
    let mut i: usize = 0;
    assert(dv.take(0) =~= Seq::empty());
    while i < devices.len()
        invariant
            i <= devices.len(),
            dv == types::fleet_device_view_views(devices@),
            render::seen_at_valid_times(devices@),
            rows@.len() == i,
            forall|j: int|
                0 <= j < i ==> (#[trigger] rows@[j])@ == device_row(dv[j], j == 0, own_rate),
            healthy <= i,
            healthy == healthy_among(dv.take(i as int)),
        decreases devices.len() - i,
    {
        assert(dv.take(i + 1).drop_last() =~= dv.take(i as int));
        assert(dv.take(i + 1).last() == devices@[i as int]@);
        let d = &devices[i];
        if d.healthy {
            healthy += 1;
        }
        let last_seen = if i == 0 {
            "now".to_owned()
        } else {
            match d.last_seen {
                Some(t) => format_time(t, "%H:%M:%S"),
                None => "never".to_owned(),
            }
        };
        rows.push(
            DeviceRow {
                name: d.name.clone(),
                is_self: i == 0,
                healthy: d.healthy,
                free_mb: d.free_mb,
                apps: d.apps,
                load: if i == 0 {
                    own_rate
                } else {
                    Double { bits: 0 }
                },
                last_seen,
            },
        );
        i += 1;
    }
    assert(dv.take(i as int) =~= dv);
    assert(device_row_views(rows@) =~= device_rows(dv, own_rate));
    (rows, healthy)
}

/// What the dashboard tells of this machine itself.
#[derive(Debug)]
pub struct MachineCard {
    pub is_hub: bool,
    pub started: String,
    pub doctor_green: bool,
    pub on_ac: bool,
    pub allocated_mb: u64,
    pub allocatable_mb: u64,
    pub apps: usize,
}

impl Daemon {
    pub fn machine_card(&self, on_ac: Option<bool>, ledger: Option<&ResourceLedger>) -> (r:
        MachineCard)
        requires
            self@.started_at.valid(),
        ensures
            r.is_hub == (self@.config.fleet.hub_url is None),
            r.started@ == time::time_text(self@.started_at, "%Y-%m-%d %H:%M UTC"@),
            r.doctor_green == self@.doctor_green,
            r.on_ac == match on_ac {
                Some(b) => b,
                None => true,
            },
            r.allocated_mb == match ledger {
                Some(l) => l.allocated_mb,
                None => 0,
            },
            r.allocatable_mb == match ledger {
                Some(l) => l.allocatable_mb,
                None => 0,
            },
            r.apps == names::listing(self@.store.apps.dom()).len(),
    {
        let apps = self.store.apps.len();
        assert(self@.store.apps.dom() =~= self.store.apps@.dom());
        MachineCard {
            is_hub: self.config.fleet.hub_url.is_none(),
            started: format_time(self.started_at, "%Y-%m-%d %H:%M UTC"),
            doctor_green: self.doctor_green,
            on_ac: match on_ac {
                Some(b) => b,
                None => true,
            },
            allocated_mb: match ledger {
                Some(l) => l.allocated_mb,
                None => 0,
            },
            allocatable_mb: match ledger {
                Some(l) => l.allocatable_mb,
                None => 0,
            },
            apps,
        }
    }
}

// ---------------------------------------------------------------------------- laws

/// No token, no entry: a host without a token lets nobody in, and a header that is not
/// exactly "Bearer" and the token is turned away.
pub proof fn no_token_no_entry(
    token: Option<Seq<char>>,
    header: Option<Seq<char>>,
    other: Option<Seq<char>>,
)
    ensures
        !carries(None, header),
        !carries(token, None),
        carries(token, header) && carries(token, other) ==> header == other,
{
}

/// Every error has a status that a caller can act on: faults of the request are told
/// from faults of the host.
pub proof fn refusals_are_no_server_errors(e: ErrorView)
    ensures
        400 <= status_of(e) < 500 <==> (e is InvalidSpec || e is ManifestNotFound || e is AppNotFound
            || e is Unauthorized || e is AdmissionRejected),
        status_of(e) >= 500 <==> !(e is InvalidSpec || e is ManifestNotFound || e is AppNotFound
            || e is Unauthorized || e is AdmissionRejected),
{
}

/// An app's commands follow its placement, and come back to this hub once the device
/// has left the fleet.
pub proof fn forwarding_follows_the_device(store: StoreView, app: Seq<char>, dev: Seq<char>)
    requires
        store.fleet.placements.dom().contains(app),
        store.fleet.placements[app] == dev,
    ensures
        forwarded_to(store, app) == fleet::device_named(store.fleet.devices, dev),
        forwarded_to(
            store.with_devices(fleet::without(store.fleet.devices, dev)),
            app,
        ) is None,
{
    fleet::lemma_without(store.fleet.devices, dev, dev);
}

/// The token opens the door, and nothing else does.
pub proof fn the_token_opens_the_door(token: Seq<char>, header: Seq<char>)
    ensures
        carries(Some(token), Some("Bearer "@ + token)),
        carries(Some(token), Some(header)) ==> text::strip_prefix(header, "Bearer "@) == Some(token),
        header != "Bearer "@ + token ==> !carries(Some(token), Some(header)),
{
    let p = "Bearer "@;
    assert((p + token).take(p.len() as int) =~= p);
    assert((p + token).skip(p.len() as int) =~= token);
}

/// Each error has the status of its kind.
pub proof fn errors_have_their_status(s: Seq<char>, e: ErrorView)
    ensures
        status_of(ErrorView::InvalidSpec(s)) == 400,
        status_of(ErrorView::AppNotFound(s)) == 404,
        status_of(ErrorView::Unauthorized(s)) == 401,
        status_of(ErrorView::AdmissionRejected(s)) == 409,
        status_of(ErrorView::Docker(s)) == 500,
        status_of(ErrorView::Tunnel(s)) == 500,
        status_of(ErrorView::Other(s)) == 500,
        e is ManifestNotFound ==> status_of(e) == 400,
        e is DoctorRed ==> status_of(e) == 503,
        e is DaemonUnreachable ==> status_of(e) == 502,
        e is Io ==> status_of(e) == 500,
{
}

/// An app is spread to the machines that are healthy, but not to the hub, in their order.
pub proof fn apps_spread_to_healthy_devices(machines: Seq<MachineView>)
    ensures
        spreadable(machines) == machines.filter(
            |m: MachineView| m.healthy && !m.is_self,
        ).map_values(|m: MachineView| m.name),
    decreases machines.len(),
{
    reveal(Seq::filter);
    let p = |m: MachineView| m.healthy && !m.is_self;
    if machines.len() > 0 {
        apps_spread_to_healthy_devices(machines.drop_last());
    }
    assert(spreadable(machines) =~= machines.filter(p).map_values(|m: MachineView| m.name));
}

/// The last lines are those at the end, in their order, as many as are asked for or all.
pub proof fn the_last_lines_are_shown(all: Seq<Seq<char>>, n: nat, k: int)
    requires
        0 <= k < tail(all, n).len(),
    ensures
        tail(all, n).len() == if n < all.len() {
            n
        } else {
            all.len()
        },
        tail(all, n)[tail(all, n).len() - 1 - k] == all[all.len() - 1 - k],
{
}

/// Events are replayed from the cutoff on, in their order; without one, all of them are.
pub proof fn events_are_replayed_from_the_cutoff_on(all: Seq<LedgerLine>, cutoff: Timestamp)
    ensures
        replayed(all, Some(cutoff)) == all.filter(
            |l: LedgerLine|
                l.at is Some && (l.at->0.secs > cutoff.secs || l.at->0.secs == cutoff.secs
                    && l.at->0.nanos >= cutoff.nanos),
        ).map_values(|l: LedgerLine| l.line@),
        replayed(all, None) == all.map_values(|l: LedgerLine| l.line@),
    decreases all.len(),
{
    reveal(Seq::filter);
    let p = |l: LedgerLine|
        l.at is Some && (l.at->0.secs > cutoff.secs || l.at->0.secs == cutoff.secs && l.at->0.nanos
            >= cutoff.nanos);
    if all.len() > 0 {
        events_are_replayed_from_the_cutoff_on(all.drop_last(), cutoff);
    }
    assert(replayed(all, Some(cutoff)) =~= all.filter(p).map_values(|l: LedgerLine| l.line@));
    assert(replayed(all, None) =~= all.map_values(|l: LedgerLine| l.line@));
}

/// Each replica is told of with its own reading, and an app with the figures of its own route.
pub proof fn replicas_are_told_with_their_readings(
    d: Daemon,
    name: Seq<char>,
    rec: AppRecordView,
    readings: Seq<ReplicaReading>,
    s: AppStats,
    i: int,
)
    requires
        tells_stats(d, name, rec, readings, s),
        readings.len() == rec.replicas.len(),
        0 <= i < rec.replicas.len(),
    ensures
        ({
            let row = s.replicas@[i]@;
            let read = readings[i];
            &&& s.replicas@.len() == rec.replicas.len()
            &&& row.container_id == reports::short_id(rec.replicas[i].container_id)
            &&& row.memory_limit_mb == rec.spec.resources.memory_mb
            &&& read.stats matches Some(x) ==> row.memory_used_mb == x.memory_used_mb && row.cpu_pct
                == x.cpu_pct
            &&& read.stats is None ==> row.memory_used_mb == zero() && row.cpu_pct == zero()
            &&& read.state matches Some(x) ==> row.state == x@
            &&& read.state is None ==> row.state == "unknown"@
        }),
        d.table.routes@.dom().contains(name) ==> s.requests_total == d.table.routes@[name].requests
            && s.inflight == d.table.routes@[name].inflight && s.shed_total
            == d.table.routes@[name].shed,
        !d.table.routes@.dom().contains(name) ==> s.requests_total == 0 && s.inflight == 0
            && s.shed_total == 0,
{
    assert(s@.replicas.len() == s.replicas@.len());
    assert(s@.replicas[i] == s.replicas@[i]@);
}

/// A device is asked at its own address and with its own token.
pub proof fn devices_are_asked_with_their_token(
    devices: Seq<FleetDeviceRecordView>,
    i: int,
    r: Option<DaemonClient>,
)
    requires
        0 <= i < devices.len(),
        forall|j: int| 0 <= j < i ==> (#[trigger] devices[j]).name != devices[i].name,
        asks_device(devices, devices[i].name, r),
    ensures
        r is Some,
        r->0.token is Some && r->0.token->0@ == devices[i].token,
        text::starts_with(devices[i].control_url, "https://"@) ==> r->0.base@ == text::drop_trailing(
            devices[i].control_url,
            "/"@,
        ),
{
    let name = devices[i].name;
    fleet::devices_are_found_by_name(devices, name);
    let d = fleet::device_named(devices, name)->0;
    let k = choose|k: int|
        0 <= k < devices.len() && #[trigger] devices[k] == d && d.name == name && forall|j: int|
            0 <= j < k ==> (#[trigger] devices[j]).name != name;
    assert(k == i);
}

/// With a device everything that is kept of it goes, and of the others nothing.
pub proof fn devices_leave_nothing_behind(
    d: DaemonView,
    name: Seq<char>,
    other: Seq<char>,
    app: Seq<char>,
)
    requires
        other != name,
    ensures
        ({
            let now = device_gone(d, name);
            &&& now.store.fleet.devices == d.store.fleet.devices.filter(
                |x: FleetDeviceRecordView| x.name != name,
            )
            &&& now.store.fleet.placements.dom().contains(app) <==> (
            d.store.fleet.placements.dom().contains(app) && d.store.fleet.placements[app] != name)
            &&& now.store.fleet.placements.dom().contains(app) ==> now.store.fleet.placements[app]
                == d.store.fleet.placements[app]
            &&& !now.fleet_status.dom().contains(name)
            &&& now.fleet_status.dom().contains(other) <==> d.fleet_status.dom().contains(other)
            &&& now.fleet_status[other] == d.fleet_status[other]
            &&& now.store.apps == d.store.apps && now.store.claims == d.store.claims
                && now.store.registry == d.store.registry && now.config == d.config && now.tunnels
                == d.tunnels
        }),
{
    let x = FleetDeviceRecordView {
        name,
        control_url: Seq::empty(),
        token: Seq::empty(),
        added_at: d.started_at,
    };
    fleet::leaving_takes_one_name_off(d.store.fleet.devices, x);
    assert(fleet::without(d.store.fleet.devices, name) =~= d.store.fleet.devices.filter(
        |y: FleetDeviceRecordView| y.name != name,
    ));
}

/// The names that apps hold are all listed, by app; that of the machine itself is not.
pub proof fn all_claims_of_apps_are_listed(store: StoreView, keys: Seq<Seq<char>>, i: int)
    requires
        0 <= i < keys.len(),
    ensures
        ({
            let c = store.claims[keys[i]];
            c.app != "__control"@ ==> app_claims(store, keys).contains(
                DomainClaimView { app: c.app, name: c.name, hostname: c.hostname },
            )
        }),
        app_claims(store, keys).len() == keys.filter(
            |k: Seq<char>| store.claims[k].app != "__control"@,
        ).len(),
    decreases keys.len(),
{
    reveal(Seq::filter);
    let c = store.claims[keys[i]];
    let front = keys.drop_last();
    let rest = app_claims(store, front);
    let all = app_claims(store, keys);
    if i < front.len() {
        all_claims_of_apps_are_listed(store, front, i);
        let row = DomainClaimView { app: c.app, name: c.name, hostname: c.hostname };
        if c.app != "__control"@ {
            let k = choose|k: int| 0 <= k < rest.len() && rest[k] == row;
            assert(all[k] == row);
        }
    } else {
        if front.len() > 0 {
            all_claims_of_apps_are_listed(store, front, 0);
        } else {
            assert(rest =~= Seq::empty());
        }
        if c.app != "__control"@ {
            assert(all[rest.len() as int] == (DomainClaimView {
                app: c.app,
                name: c.name,
                hostname: c.hostname,
            }));
        }
    }
}

/// The dashboard shows each of this machine's apps with where it runs: here, with as many
/// replicas as run, and on each device that it was spread to, as healthy as that device is.
pub proof fn the_dashboard_shows_where_apps_run(
    d: Daemon,
    self_name: Seq<char>,
    spreads: Map<Seq<char>, Vec<String>>,
    name: Seq<char>,
    i: int,
)
    requires
        d@.store.apps.dom().finite(),
        d@.store.apps.dom().contains(name),
        spreads.dom().contains(name),
        0 <= i < spreads[name]@.len(),
        d@.store.apps[name].replicas.len() <= usize::MAX,
    ensures
        exists|row: AppRowView| #[trigger]
            rows_by_name(all_rows(d, self_name, spreads)).contains(row) && ({
                let rec = d@.store.apps[name];
                let dev = spreads[name]@[i]@;
                let here = row.instances[0];
                let there = row.instances[i + 1];
                let up = d@.fleet_status.dom().contains(dev) && d@.fleet_status[dev].healthy;
                &&& row.name == name && row.spread && row.instances.len() == spreads[name]@.len()
                    + 1
                &&& here.machine == self_name && here.is_self && here.replicas
                    == rec.replicas.len() && here.state == rec.state.name()
                &&& here.healthy <==> d@.doctor_green && rec.state == AppState::Running
                &&& there.machine == dev && !there.is_self && there.replicas == rec.spec.replicas
                &&& there.healthy <==> up
                &&& there.state == if up {
                    "running"@
                } else {
                    "unreachable"@
                }
            }),
{
    let rows = all_rows(d, self_name, spreads);
    let own = names::listing(d@.store.apps.dom());
    names::lemma_listing_exists(d@.store.apps.dom());
    assert(own.contains(name));
    let k = choose|k: int| 0 <= k < own.len() && own[k] == name;
    let row = rows[k];
    let devs = spread_of(spreads, name);
    assert(row == own_row(d, self_name, name, d@.store.apps[name], devs));
    assert(devs[i] == spreads[name]@[i]@);
    assert(row.instances.len() == devs.len() + 1);
    assert(row.instances[i + 1] == device_instance(
        devs[i],
        d@.store.apps[name].spec.replicas as usize,
        healthy_now(d@.fleet_status, devs[i]),
    ));
    let keys = row_keys(rows);
    order::lemma_ranked_upto(keys, keys.len());
    let r = order::ranked(keys);
    assert(r.contains(k));
    let p = choose|p: int| 0 <= p < r.len() && r[p] == k;
    assert(rows_by_name(rows)[p] == row);
    assert(rows_by_name(rows).contains(row));
}

/// Of the machines that the dashboard shows, the first is this one; each has its own figures,
/// and as many are counted healthy as are.
pub proof fn machines_are_shown_as_they_are(v: Seq<FleetDeviceViewView>, rate: Double, i: int)
    requires
        0 <= i < v.len(),
    ensures
        ({
            let row = device_rows(v, rate)[i];
            &&& device_rows(v, rate).len() == v.len()
            &&& row.name == v[i].name && row.healthy == v[i].healthy && row.free_mb == v[i].free_mb
                && row.apps == v[i].apps
            &&& row.is_self <==> i == 0
            &&& i == 0 ==> row.load == rate && row.last_seen == "now"@
            &&& i > 0 && v[i].last_seen is None ==> row.last_seen == "never"@
            &&& i > 0 && v[i].last_seen is Some ==> row.last_seen == time::time_text(
                v[i].last_seen->0,
                "%H:%M:%S"@,
            )
        }),
        healthy_among(v) == v.filter(|x: FleetDeviceViewView| x.healthy).len(),
    decreases v.len(),
{
    lemma_healthy_among(v);
}

proof fn lemma_healthy_among(v: Seq<FleetDeviceViewView>)
    ensures
        healthy_among(v) == v.filter(|x: FleetDeviceViewView| x.healthy).len(),
    decreases v.len(),
{
    reveal(Seq::filter);
    if v.len() > 0 {
        lemma_healthy_among(v.drop_last());
    }
}

} // verus!
