//! Starting the daemon and keeping it going: what the time it was away is put down to,
//! the heartbeat, the doctor's rounds, the control tunnel, and the fleet's log.
use vstd::prelude::*;

use crate::config::{HadesConfig, HadesConfigView};
use crate::daemon::{Daemon, DaemonView};
use crate::events::{DowntimeCause, HostEvent, HostEventView, Severity};
use crate::hexa;
use crate::hexa::generate_token;
use crate::order;
use crate::order::{rank, SortKey};
use crate::policy::{AppView, AppViewView};
use crate::power;
use crate::probe;
use crate::probe::classify_downtime;
use crate::split;
use crate::state::{AppRecordView, RegistryView, StoreView};
use crate::text;
use crate::text::{to_lower, trimmed};
use crate::time::Timestamp;
use crate::types::{JoinRequest, JoinRequestView};
use crate::uptime;
use crate::uptime::{detect_gap, DowntimeRecord};
use crate::values::clone_texts;
use crate::watchdog;

verus! {

// -------------------------------------------------------------------------- downtime

/// What the daemon finds when it starts: a window of downtime to be recorded, and the
/// events to be told.
#[derive(Debug)]
pub struct Startup {
    pub record: Option<DowntimeRecord>,
    pub events: Vec<HostEvent>,
}

/// The seconds from the last heartbeat to now.
pub open spec fn gap_secs(last: Timestamp, now: Timestamp) -> u64 {
    let s = now.seconds_after(last);
    if s < 0 {
        0
    } else {
        s as u64
    }
}

/// Was the host away for longer than a few missed heartbeats?
pub open spec fn was_away(last: Timestamp, now: Timestamp, heartbeat_secs: u64) -> bool {
    gap_secs(last, now) > heartbeat_secs * 3 + 5
}

/// The window of downtime that ended now.
pub open spec fn window(
    last: Timestamp,
    boot: Option<Timestamp>,
    sleeps: Seq<Timestamp>,
    now: Timestamp,
) -> DowntimeRecord {
    DowntimeRecord {
        start: last,
        end: now,
        secs: gap_secs(last, now),
        cause: probe::downtime_cause(last, boot, sleeps, now),
    }
}

pub open spec fn startup_events(
    last: Option<Timestamp>,
    boot: Option<Timestamp>,
    sleeps: Seq<Timestamp>,
    now: Timestamp,
    heartbeat_secs: u64,
) -> Seq<HostEventView> {
    match last {
        Some(l) => if was_away(l, now, heartbeat_secs) {
            let w = window(l, boot, sleeps, now);
            seq![
                HostEventView::DaemonStarted {
                    unclean_shutdown: w.cause == DowntimeCause::Crashed || w.cause
                        == DowntimeCause::Unknown,
                },
                HostEventView::HostUp { downtime_secs: w.secs, cause: w.cause },
            ]
        } else {
            seq![HostEventView::DaemonStarted { unclean_shutdown: false }]
        },
        None => seq![HostEventView::DaemonStarted { unclean_shutdown: false }],
    }
}

/// Puts the time since the last heartbeat down to a cause.
pub fn startup(
    last: Option<Timestamp>,
    boot: Option<Timestamp>,
    sleeps: &Vec<Timestamp>,
    now: Timestamp,
    heartbeat_secs: u64,
) -> (r: Startup)
    requires
        heartbeat_secs * 3 + 5 <= u64::MAX,
        now.valid(),
        last matches Some(l) ==> l.valid(),
    ensures
        watchdog::host_event_views(r.events@) == startup_events(
            last,
            boot,
            sleeps@,
            now,
            heartbeat_secs,
        ),
        r.record == match last {
            Some(l) => if was_away(l, now, heartbeat_secs) {
                Some(window(l, boot, sleeps@, now))
            } else {
                None
            },
            None => None,
        },
{
    let mut events: Vec<HostEvent> = Vec::new();
    match last {
        Some(l) => {
            let s = now.seconds_since(&l);
            let gap: u64 = if s < 0 {
                0
            } else {
                s as u64
            };
            if gap > heartbeat_secs * 3 + 5 {
                let cause = classify_downtime(l, boot, sleeps, now);
                let unclean_shutdown = cause == DowntimeCause::Crashed || cause
                    == DowntimeCause::Unknown;
                events.push(HostEvent::DaemonStarted { unclean_shutdown });
                events.push(HostEvent::HostUp { downtime_secs: gap, cause });
                assert(watchdog::host_event_views(events@) =~= startup_events(
                    last,
                    boot,
                    sleeps@,
                    now,
                    heartbeat_secs,
                ));
                return Startup {
                    record: Some(DowntimeRecord { start: l, end: now, secs: gap, cause }),
                    events,
                };
            }
        },
        None => {},
    }
    events.push(HostEvent::DaemonStarted { unclean_shutdown: false });
    assert(watchdog::host_event_views(events@) =~= startup_events(
        last,
        boot,
        sleeps@,
        now,
        heartbeat_secs,
    ));
    Startup { record: None, events }
}

/// A window of downtime that was noticed while the daemon ran, and the event of it.
#[derive(Debug)]
pub struct Slept {
    pub record: DowntimeRecord,
    pub event: HostEvent,
}

/// Takes in a heartbeat: was there a gap before it?
pub fn heartbeat(
    prev: Timestamp,
    boot: Option<Timestamp>,
    sleeps: &Vec<Timestamp>,
    now: Timestamp,
    heartbeat_secs: u64,
) -> (r: Option<Slept>)
    requires
        heartbeat_secs * 3 + 5 <= i64::MAX,
        now.valid(),
        prev.valid(),
    ensures
        r is Some <==> uptime::has_gap(prev, now, heartbeat_secs),
        r matches Some(s) ==> {
            let w = window(prev, boot, sleeps@, now);
            s.record == w && s.event@ == (HostEventView::HostUp {
                downtime_secs: w.secs,
                cause: w.cause,
            })
        },
{
    match detect_gap(prev, now, heartbeat_secs) {
        Some(_) => {
            let cause = classify_downtime(prev, boot, sleeps, now);
            let s = now.seconds_since(&prev);
            let secs: u64 = if s < 0 {
                0
            } else {
                s as u64
            };
            Some(
                Slept {
                    record: DowntimeRecord { start: prev, end: now, secs, cause },
                    event: HostEvent::HostUp { downtime_secs: secs, cause },
                },
            )
        },
        None => None,
    }
}

// ---------------------------------------------------------------------- configuration

/// A configuration that has a token: its own, else one from these bytes.
pub open spec fn with_token(config: HadesConfigView, random: Seq<u8>) -> HadesConfigView {
    if config.auth_token is None {
        HadesConfigView { auth_token: Some(hexa::hex_text(random)), ..config }
    } else {
        config
    }
}

/// The API is never served without a token: a configuration that has none gets one from
/// 32 random bytes, and is then to be saved.
pub fn ensure_token(config: &mut HadesConfig, random: &Vec<u8>) -> (r: bool)
    ensures
        r == (old(config)@.auth_token is None),
        final(config)@ == with_token(old(config)@, random@),
{
    if config.auth_token.is_some() {
        return false;
    }
    config.auth_token = Some(generate_token(random));
    true
}

/// A name, or what stands in for an empty one.
pub fn name_or(lowered: &str, fallback: &str) -> (r: String)
    ensures
        r@ == if lowered@.len() == 0 {
            fallback@
        } else {
            lowered@
        },
{
    if lowered.unicode_len() == 0 {
        fallback.to_owned()
    } else {
        lowered.to_owned()
    }
}

/// The machine's name in what `hostname` printed.
pub open spec fn hostname_in(printed: Option<Seq<char>>, fallback: Seq<char>) -> Seq<char> {
    match printed {
        Some(p) => {
            let lowered = text::lower_text(text::trim(p));
            if lowered.len() == 0 {
                fallback
            } else {
                lowered
            }
        },
        None => fallback,
    }
}

/// The machine's name as a device of a fleet.
pub fn short_hostname(printed: Option<&str>) -> (r: String)
    ensures
        r@ == hostname_in(
            match printed {
                Some(p) => Some(p@),
                None => None,
            },
            "device"@,
        ),
{
    match printed {
        Some(p) => name_or(to_lower(trimmed(p).as_str()).as_str(), "device"),
        None => "device".to_owned(),
    }
}

/// The machine's name on the dashboard.
pub fn dashboard_hostname(printed: Option<&str>) -> (r: String)
    ensures
        r@ == hostname_in(
            match printed {
                Some(p) => Some(p@),
                None => None,
            },
            "host"@,
        ),
{
    match printed {
        Some(p) => name_or(to_lower(trimmed(p).as_str()).as_str(), "host"),
        None => "host".to_owned(),
    }
}

// --------------------------------------------------------------------------- the doctor

/// Is an event told to people?
pub fn is_notable(event: &HostEvent) -> (r: bool)
    ensures
        r == (event@.severity() != Severity::Info),
{
    let s = event.severity();
    s != Severity::Info
}

impl Daemon {
    /// Takes in a round of the doctor. A host that turns red is told.
    pub fn doctor_tick(&mut self, green: bool, failed: &Vec<String>, was_green: bool) -> (r: Option<
        HostEvent,
    >)
        ensures
            final(self)@ == (DaemonView {
                doctor_green: green,
                doctor_failed: split::views(failed@),
                ..old(self)@
            }),
            final(self).table == old(self).table,
            power::opt_event(r) == if was_green && !green {
                Some(HostEventView::DoctorRed { failed_checks: split::views(failed@) })
            } else {
                None
            },
    {
        self.doctor_green = green;
        self.doctor_failed = clone_texts(failed);
        if was_green && !green {
            Some(HostEvent::DoctorRed { failed_checks: clone_texts(failed) })
        } else {
            None
        }
    }

    /// What the policy needs to know of the apps.
    pub fn app_views(&self) -> (r: Vec<AppView>)
        ensures
            r@.len() == self@.store.app_list().len(),
            forall|i: int|
                0 <= i < r@.len() ==> (#[trigger] r@[i])@ == policy_view(
                    self@.store.app_list()[i],
                ),
    {
        let apps = self.store.snapshot();
        let ghost av = self@.store.app_list();
        let mut out: Vec<AppView> = Vec::new();
        let mut i: usize = 0;
        assert(crate::state::app_record_views(apps@).len() == av.len());
        while i < apps.len()
            invariant
                i <= apps.len(),
                out@.len() == i,
                av == crate::state::app_record_views(apps@),
                forall|j: int| 0 <= j < i ==> (#[trigger] out@[j])@ == policy_view(av[j]),
            decreases apps.len() - i,
        {
            let rec = &apps[i];
            assert(av[i as int] == rec@);
            out.push(
                AppView {
                    name: rec.spec.name.clone(),
                    priority: rec.spec.priority,
                    state: rec.state,
                    paused_reason: rec.paused_reason,
                    on_battery: rec.spec.power.on_battery,
                },
            );
            i += 1;
        }
        out
    }
}

pub open spec fn policy_view(rec: AppRecordView) -> AppViewView {
    AppViewView {
        name: rec.spec.name,
        priority: rec.spec.priority,
        state: rec.state,
        paused_reason: rec.paused_reason,
        on_battery: rec.spec.power.on_battery,
    }
}

// --------------------------------------------------------------------- the control tunnel

/// A device tells its hub where it lives now.
#[derive(Debug)]
pub struct Rejoin {
    pub hub_url: String,
    pub hub_token: String,
    pub request: JoinRequest,
}

/// How a tunnel to the daemon's own API came to its end.
#[derive(Debug, Clone, Copy, PartialEq, Eq, Structural)]
pub enum TunnelEnd {
    /// The control tunnel could not be provisioned.
    NoControl,
    /// The control tunnel was up and exited.
    ControlGone,
    /// The host's named tunnel exited, or did not start.
    Named,
}

/// How long to wait before a tunnel to the API is run again, in seconds.
pub fn tunnel_pause(end: TunnelEnd) -> (r: u64)
    ensures
        r == match end {
            TunnelEnd::NoControl => 32u64,
            TunnelEnd::ControlGone => 2,
            TunnelEnd::Named => 3,
        },
{
    match end {
        TunnelEnd::NoControl => 32,
        TunnelEnd::ControlGone => 2,
        TunnelEnd::Named => 3,
    }
}

/// What a hub is told, where there is one, once a device is reached at a new URL.
pub open spec fn rejoins(
    config: HadesConfigView,
    url: Seq<char>,
    hostname: Seq<char>,
    r: Option<Rejoin>,
) -> bool {
    match (config.fleet.hub_url, config.fleet.hub_token, config.auth_token) {
        (Some(hub), Some(token), Some(own)) => r matches Some(j) && j.hub_url@ == hub
            && j.hub_token@ == token && j.request@ == (JoinRequestView {
            name: hostname,
            control_url: url,
            token: own,
        }),
        _ => r is None,
    }
}

impl Daemon {
    /// The control tunnel is up. Tells what the hub is to be told, where there is one:
    /// the URL has just changed.
    pub fn control_up(&mut self, url: &str, pid: Option<u32>, hostname: &str) -> (r: Option<Rejoin>)
        ensures
            final(self)@ == (DaemonView {
                control_url: Some(url@),
                store: match pid {
                    Some(p) => old(self)@.store.with_pids(
                        old(self)@.store.registry.cloudflared.insert("__control"@, p),
                    ),
                    None => old(self)@.store,
                },
                ..old(self)@
            }),
            final(self).table == old(self).table,
            rejoins(old(self)@.config, url@, hostname@, r),
    {
        match pid {
            Some(p) => self.store.put_pid("__control", p),
            None => {},
        }
        self.control_url = Some(url.to_owned());
        match (&self.config.fleet.hub_url, &self.config.fleet.hub_token, &self.config.auth_token) {
            (Some(hub), Some(token), Some(own)) => Some(
                Rejoin {
                    hub_url: hub.clone(),
                    hub_token: token.clone(),
                    request: JoinRequest {
                        name: hostname.to_owned(),
                        control_url: url.to_owned(),
                        token: own.clone(),
                    },
                },
            ),
            _ => None,
        }
    }

    /// The control tunnel is gone.
    pub fn control_down(&mut self)
        ensures
            final(self)@ == (DaemonView {
                control_url: None,
                store: old(self)@.store.with_pids(
                    old(self)@.store.registry.cloudflared.remove("__control"@),
                ),
                ..old(self)@
            }),
            final(self).table == old(self).table,
    {
        self.control_url = None;
        self.store.drop_pid("__control");
    }

    /// The host's own domain carries the API: nothing rotates on restart.
    pub fn control_on_domain(&mut self, domain: &str)
        ensures
            final(self)@ == (DaemonView {
                control_url: Some("https://api."@ + domain@),
                ..old(self)@
            }),
            final(self).table == old(self).table,
    {
        self.control_url = Some("https://api.".to_owned().concat(domain));
    }

    /// Notes the daemon's own process.
    pub fn note_own_pid(&mut self, pid: u32)
        ensures
            final(self)@ == old(self)@.with_store(
                StoreView {
                    registry: RegistryView {
                        daemon_pid: Some(pid),
                        ..old(self)@.store.registry
                    },
                    ..old(self)@.store
                },
            ),
            final(self).table == old(self).table,
    {
        self.store.registry.daemon_pid = Some(pid);
    }
}

// ------------------------------------------------------------------------ the fleet's log

/// A line of the fleet's log.
#[derive(Debug)]
pub struct LogRow {
    /// When it happened, as it is written on the wire.
    pub at: String,
    pub kind: String,
    pub summary: String,
    pub device: String,
}

/// The contents of a `LogRow`.
pub struct LogRowView {
    pub at: Seq<char>,
    pub kind: Seq<char>,
    pub summary: Seq<char>,
    pub device: Seq<char>,
}

impl View for LogRow {
    type V = LogRowView;

    open spec fn view(&self) -> LogRowView {
        LogRowView {
            at: self.at@,
            kind: self.kind@,
            summary: self.summary@,
            device: self.device@,
        }
    }
}

impl Clone for LogRow {
    fn clone(&self) -> (r: Self)
        ensures
            r@ == self@,
    {
        LogRow {
            at: self.at.clone(),
            kind: self.kind.clone(),
            summary: self.summary.clone(),
            device: self.device.clone(),
        }
    }
}

pub open spec fn log_row_views(v: Seq<LogRow>) -> Seq<LogRowView> {
    Seq::new(v.len(), |i: int| v[i]@)
}

/// How many of a device's latest events are shown.
pub const LOG_PER_DEVICE: usize = 20;

/// How many lines the log has.
pub const LOG_LINES: usize = 40;

/// A device's events, latest first, as many as are shown.
pub open spec fn latest(rows: Seq<LogRowView>, n: nat) -> Seq<LogRowView> {
    if rows.len() <= n {
        rows.reverse()
    } else {
        rows.reverse().take(n as int)
    }
}

/// The latest events of each device, one device after the other.
pub open spec fn collected(devices: Seq<Vec<LogRow>>) -> Seq<LogRowView>
    decreases devices.len(),
{
    if devices.len() == 0 {
        Seq::empty()
    } else {
        collected(devices.drop_last()) + latest(
            log_row_views(devices.last()@),
            LOG_PER_DEVICE as nat,
        )
    }
}

pub open spec fn row_keys(rows: Seq<LogRowView>) -> Seq<(nat, Seq<char>)> {
    Seq::new(rows.len(), |i: int| (0nat, rows[i].at))
}

/// Rows in ascending order of their times; those of one time keep their order.
pub open spec fn ascending(rows: Seq<LogRowView>) -> Seq<LogRowView> {
    Seq::new(rows.len(), |i: int| rows[order::ranked(row_keys(rows))[i]])
}

/// Rows with the latest first; those of one time keep their order.
pub open spec fn newest_first(rows: Seq<LogRowView>) -> Seq<LogRowView> {
    ascending(rows.reverse()).reverse()
}

/// The log: all devices' latest events, newest first.
pub open spec fn log_of(devices: Seq<Vec<LogRow>>) -> Seq<LogRowView> {
    let rows = newest_first(collected(devices));
    if rows.len() <= LOG_LINES {
        rows
    } else {
        rows.take(LOG_LINES as int)
    }
}

fn reversed(rows: &Vec<LogRow>) -> (r: Vec<LogRow>)
    ensures
        log_row_views(r@) == log_row_views(rows@).reverse(),
{
    let n = rows.len();
    let mut out: Vec<LogRow> = Vec::new();
    let mut i: usize = 0;
    while i < n
        invariant
            i <= n,
            n == rows.len(),
            out@.len() == i,
            forall|j: int| 0 <= j < i ==> (#[trigger] out@[j])@ == rows@[n - 1 - j]@,
        decreases n - i,
    {
        out.push(rows[n - 1 - i].clone());
        i += 1;
    }
    assert(log_row_views(out@) =~= log_row_views(rows@).reverse());
    out
}

fn cut(rows: &mut Vec<LogRow>, n: usize)
    ensures
        log_row_views(final(rows)@) == if old(rows)@.len() <= n {
            log_row_views(old(rows)@)
        } else {
            log_row_views(old(rows)@).take(n as int)
        },
{
    if rows.len() > n {
        rows.truncate(n);
        assert(log_row_views(rows@) =~= log_row_views(old(rows)@).take(n as int));
    }
}

fn sort_ascending(rows: &Vec<LogRow>) -> (r: Vec<LogRow>)
    ensures
        log_row_views(r@) == ascending(log_row_views(rows@)),
{
    let ghost rv = log_row_views(rows@);
    let mut keys: Vec<SortKey> = Vec::new();
    let mut i: usize = 0;
    while i < rows.len()
        invariant
            i <= rows.len(),
            keys@.len() == i,
            forall|j: int|
                0 <= j < i ==> (#[trigger] keys@[j]).rank == 0 && keys@[j].name@ == rows@[j].at@,
        decreases rows.len() - i,
    {
        keys.push(SortKey { rank: 0, name: rows[i].at.clone() });
        i += 1;
    }
    let ghost kv = row_keys(rv);
    assert(order::key_views(keys@) =~= kv);
    let places = rank(&keys);
    let mut out: Vec<LogRow> = Vec::new();
    let mut k: usize = 0;
    while k < places.len()
        invariant
            k <= places.len(),
            out@.len() == k,
            rv == log_row_views(rows@),
            order::positions(places@) == order::ranked(kv),
            order::is_ranking(order::positions(places@), kv, rows@.len()),
            forall|j: int| 0 <= j < k ==> (#[trigger] out@[j])@ == rv[order::ranked(kv)[j]],
        decreases places.len() - k,
    {
        let p = places[k];
        assert(order::positions(places@)[k as int] == p);
        out.push(rows[p].clone());
        k += 1;
    }
    assert(log_row_views(out@) =~= ascending(rv));
    out
}

/// Merges what the devices told of their latest events, each in the order in which they
/// happened.
pub fn fleet_log(devices: &Vec<Vec<LogRow>>) -> (r: Vec<LogRow>)
    ensures
        log_row_views(r@) == log_of(devices@),
{
    let mut all: Vec<LogRow> = Vec::new();
    let mut i: usize = 0;
    assert(devices@.take(0) =~= Seq::empty());
    assert(log_row_views(all@) =~= Seq::empty());
    while i < devices.len()
        invariant
            i <= devices.len(),
            log_row_views(all@) == collected(devices@.take(i as int)),
        decreases devices.len() - i,
    {
        assert(devices@.take(i + 1).drop_last() =~= devices@.take(i as int));
        let mut rows = reversed(&devices[i]);
        cut(&mut rows, LOG_PER_DEVICE);
        let ghost before = all@;
        let ghost more = log_row_views(rows@);
        all.append(&mut rows);
        assert(log_row_views(all@) =~= log_row_views(before) + more);
        i += 1;
    }
    assert(devices@.take(i as int) =~= devices@);
    let back = reversed(&all);
    let up = sort_ascending(&back);
    let mut out = reversed(&up);
    cut(&mut out, LOG_LINES);
    out
}

/// The requests of the last second.
pub fn requests_since(last: u64, now: u64) -> (r: u64)
    ensures
        r == if last <= now {
            (now - last) as u64
        } else {
            0
        },
{
    now.saturating_sub(last)
}

// ---------------------------------------------------------------------------- laws

/// A host that was away tells so, and how long: the window runs from the last heartbeat to
/// now, and is told behind the start. A start is unclean if it follows a crash or what nobody
/// can explain. A host that missed no more than three heartbeats and five seconds was not
/// away, and nor was one that never gave a heartbeat.
pub proof fn absences_are_told(
    last: Timestamp,
    boot: Option<Timestamp>,
    sleeps: Seq<Timestamp>,
    now: Timestamp,
    heartbeat_secs: u64,
)
    requires
        last.plain(),
        now.plain(),
        last.nanos == now.nanos,
        now.secs >= last.secs,
    ensures
        ({
            let told = startup_events(Some(last), boot, sleeps, now, heartbeat_secs);
            let away = now.secs - last.secs;
            let w = window(last, boot, sleeps, now);
            let cause = probe::downtime_cause(last, boot, sleeps, now);
            &&& w.start == last && w.end == now && w.secs == away && w.cause == cause
            &&& away > 3 * heartbeat_secs + 5 ==> {
                &&& told.len() == 2
                &&& told[0] == (HostEventView::DaemonStarted {
                    unclean_shutdown: cause == DowntimeCause::Crashed || cause
                        == DowntimeCause::Unknown,
                })
                &&& told[1] == (HostEventView::HostUp { downtime_secs: away as u64, cause })
            }
            &&& away <= 3 * heartbeat_secs + 5 ==> told == seq![
                HostEventView::DaemonStarted { unclean_shutdown: false },
            ]
            &&& startup_events(None, boot, sleeps, now, heartbeat_secs) == seq![
                HostEventView::DaemonStarted { unclean_shutdown: false },
            ]
        }),
{
}

/// No configuration is left without a token, none that has one loses it, and nothing else of
/// it changes.
pub proof fn tokens_are_minted_once(config: HadesConfigView, first: Seq<u8>, second: Seq<u8>)
    ensures
        with_token(config, first).auth_token is Some,
        with_token(with_token(config, first), second) == with_token(config, first),
        config.auth_token is Some ==> with_token(config, first) == config,
        config.auth_token is None ==> hexa::unhex_value(with_token(config, first).auth_token->0)
            == Some(first),
        with_token(config, first) == (HadesConfigView {
            auth_token: with_token(config, first).auth_token,
            ..config
        }),
{
    hexa::hex_reads_back(first);
}

/// A device tells its hub, in the hub's own token, that it is reached at the new URL, and with
/// which token: its own.
pub proof fn devices_tell_their_hub(
    config: HadesConfigView,
    url: Seq<char>,
    hostname: Seq<char>,
    r: Option<Rejoin>,
)
    requires
        rejoins(config, url, hostname, r),
    ensures
        r is Some <==> config.fleet.hub_url is Some && config.fleet.hub_token is Some
            && config.auth_token is Some,
        r matches Some(j) ==> {
            &&& Some(j.hub_url@) == config.fleet.hub_url && Some(j.hub_token@)
                == config.fleet.hub_token
            &&& Some(j.request@.token) == config.auth_token && j.request@.control_url == url
                && j.request@.name == hostname
        },
{
}

/// The policy sees each app as its record has it.
pub proof fn the_policy_sees_the_records(rec: AppRecordView)
    ensures
        ({
            let v = policy_view(rec);
            &&& v.name == rec.spec.name && v.priority == rec.spec.priority && v.state == rec.state
            &&& v.paused_reason == rec.paused_reason && v.on_battery == rec.spec.power.on_battery
        }),
{
}

/// Of a device's events the latest count, the last of them first, and as many as there are
/// up to twenty.
pub proof fn the_latest_of_a_device_count(rows: Seq<LogRowView>, k: int)
    requires
        0 <= k < latest(rows, LOG_PER_DEVICE as nat).len(),
    ensures
        latest(rows, LOG_PER_DEVICE as nat).len() == if rows.len() < 20 {
            rows.len() as int
        } else {
            20
        },
        latest(rows, LOG_PER_DEVICE as nat)[k] == rows[rows.len() - 1 - k],
{
}

/// The log holds the latest events of all devices, up to forty, and none stands before a
/// later one; where an event of a device is left out, the log is full.
pub proof fn logs_begin_with_the_latest(devices: Seq<Vec<LogRow>>, j: int, k: int, row: LogRowView)
    requires
        0 <= j < k < log_of(devices).len(),
    ensures
        log_of(devices).len() <= 40,
        !order::text_less(log_of(devices)[j].at, log_of(devices)[k].at),
        collected(devices).contains(log_of(devices)[j]),
        collected(devices).contains(row) ==> log_of(devices).contains(row) || (log_of(devices).len()
            == 40 && !order::text_less(log_of(devices)[k].at, row.at)),
{
    let rows = collected(devices);
    let back = rows.reverse();
    let keys = row_keys(back);
    order::lemma_ranked_upto(keys, keys.len());
    let r = order::ranked(keys);
    let up = ascending(back);
    let all = newest_first(rows);
    let log = log_of(devices);
    let n = all.len() as int;
    assert(all.len() == rows.len());
    assert(up.len() == rows.len());
    assert(all[j] == up[n - 1 - j] && all[k] == up[n - 1 - k]);
    lemma_up(back, n - 1 - k, n - 1 - j);
    assert(log[j] == all[j] && log[k] == all[k]);
    let at = r[n - 1 - j];
    assert(back[at] == log[j]);
    assert(rows[n - 1 - at] == log[j]);
    if rows.contains(row) {
        let i = choose|i: int| 0 <= i < rows.len() && rows[i] == row;
        assert(back[n - 1 - i] == row);
        assert(r.contains(n - 1 - i));
        let p = choose|p: int| 0 <= p < r.len() && r[p] == n - 1 - i;
        assert(up[p] == row);
        assert(all[n - 1 - p] == row);
        if n - 1 - p < log.len() {
            assert(log[n - 1 - p] == row);
        } else {
            lemma_up(back, p, n - 1 - k);
        }
    }
}

proof fn lemma_up(rows: Seq<LogRowView>, j: int, k: int)
    requires
        0 <= j < k < rows.len(),
    ensures
        !order::text_less(ascending(rows)[k].at, ascending(rows)[j].at),
{
    let keys = row_keys(rows);
    order::lemma_ranked_upto(keys, keys.len());
    let r = order::ranked(keys);
    let (a, b) = (ascending(rows)[j].at, ascending(rows)[k].at);
    assert(keys[r[j]].1 == a && keys[r[k]].1 == b);
    if order::text_less(b, a) {
        if order::text_less(a, b) {
            order::lemma_text_less_transitive(a, b, a);
        }
        order::lemma_text_less_irreflexive(a);
    }
}

/// Each device's latest events are among those that the log is made of.
pub proof fn every_device_is_heard(devices: Seq<Vec<LogRow>>, d: int, k: int)
    requires
        0 <= d < devices.len(),
        0 <= k < 20,
        k < devices[d]@.len(),
    ensures
        collected(devices).contains(devices[d]@[devices[d]@.len() - 1 - k]@),
    decreases devices.len(),
{
    let front = devices.drop_last();
    let all = collected(devices);
    let before = collected(front);
    if d < front.len() {
        every_device_is_heard(front, d, k);
        let row = devices[d]@[devices[d]@.len() - 1 - k]@;
        let i = choose|i: int| 0 <= i < before.len() && before[i] == row;
        assert(all[i] == row);
    } else {
        let rows = log_row_views(devices[d]@);
        the_latest_of_a_device_count(rows, k);
        assert(all[before.len() + k] == rows[rows.len() - 1 - k]);
    }
}

} // verus!
