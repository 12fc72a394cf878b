use hades::api::{
    adopt_control, backlog, dashboard_devices, hub_coordinator, last_lines, mirror_url,
    require_auth, secrets_view, source_dir, spread_targets, status_for, stream_frame, tag,
    test_notification, update_command, DeployForm, FormField, LedgerLine,
    ReplicaReading, SshPlan,
};
use hades::app_spec::{AppSpec, OnBattery, PowerPolicy, Priority, Resources};
use hades::client::{
    bad_response, check, check_stream, no_result, stream_outcome, DaemonClient,
    StreamOutcome, Verb,
};
use hades::config::HadesConfig;
use hades::daemon::Daemon;
use hades::double::Double;
use hades::error::{ErrorBody, HadesError};
use hades::events::{DowntimeCause, HostEvent, Severity};
use hades::fleet::{poll_one, DeviceAnswer};
use hades::maps::TextMap;
use hades::names::NameMap;
use hades::power::{BatterySample, PowerWatch};
use hades::reports::{
    battery_figures, battery_report, is_running, ps_report, recent_samples, shorten, uptime_report,
    BatteryRates, Ratio, SampledContainer, SampledProcess,
};
use hades::runtime::{ContainerStats, EngineInfo, LabeledContainer};
use hades::selftest::{
    load_balance_check, machines_of, report, response_check, self_name, uptime_checks, url_to_drive, Burst,
    Machine,
};
use hades::startup::{
    dashboard_hostname, ensure_token, fleet_log, heartbeat, is_notable, requests_since,
    short_hostname, startup, tunnel_pause, LogRow, TunnelEnd,
};
use hades::state::{AppRecord, ClaimRecord, ReplicaRecord, Store};
use hades::time::Timestamp;
use hades::types::{AppState, FleetDeviceView, FleetView, JoinRequest, PowerStatus, PsKind};
use hades::uptime::DowntimeRecord;

const NOW: Timestamp = Timestamp { secs: 1_780_000_000, nanos: 0 };

fn at(secs: i64) -> Timestamp {
    Timestamp { secs: NOW.secs + secs, nanos: 0 }
}

fn double(v: f64) -> Double {
    Double { bits: v.to_bits() }
}

fn text(s: &str) -> String {
    s.to_string()
}

fn spec(name: &str) -> AppSpec {
    AppSpec {
        name: text(name),
        image: Some(text("nginx")),
        build: None,
        base: None,
        resources: Resources { cpu: double(1.0), memory_mb: 256, disk_mb: None },
        ports: vec![80],
        env: TextMap::new(),
        health_check: None,
        replicas: 1,
        priority: Priority::Normal,
        power: PowerPolicy { on_battery: OnBattery::Run },
        max_concurrent_requests: None,
    }
}

fn daemon() -> Daemon {
    let mut d = Daemon::new(HadesConfig::default(), Store::load(None, None, None, None), false, NOW);
    d.doctor_green = true;
    d
}

fn with_app(d: &mut Daemon, name: &str) {
    let mut rec = AppRecord::new(spec(name), NOW);
    rec.state = AppState::Running;
    rec.replicas = vec![ReplicaRecord { container_id: text("0123456789abcdef"), host_port: 9 }];
    d.install_routes(&rec);
    d.store.put(name, rec);
}

fn join(d: &mut Daemon, name: &str) {
    let req = JoinRequest {
        name: text(name),
        control_url: format!("https://{name}.example.com/"),
        token: format!("token-{name}"),
    };
    d.store.fleet.join(&req, NOW).unwrap();
}

// ---------------------------------------------------------------------------- the API

#[test]
fn errors_have_a_status() {
    let m = || text("x");
    assert_eq!(status_for(&HadesError::InvalidSpec(m())), 400);
    assert_eq!(status_for(&HadesError::ManifestNotFound(m())), 400);
    assert_eq!(status_for(&HadesError::Unauthorized(m())), 401);
    assert_eq!(status_for(&HadesError::AppNotFound(m())), 404);
    assert_eq!(status_for(&HadesError::AdmissionRejected(m())), 409);
    assert_eq!(status_for(&HadesError::DoctorRed(m())), 503);
    assert_eq!(status_for(&HadesError::Docker(m())), 500);
    assert_eq!(status_for(&HadesError::Other(m())), 500);
}

#[test]
fn no_token_no_entry() {
    assert!(require_auth(Some("abc"), Some("Bearer abc")).is_ok());
    for h in [Some("Bearer abd"), Some("Bearer ab"), Some("abc"), Some("bearer abc"), None] {
        match require_auth(Some("abc"), h) {
            Err(HadesError::Unauthorized(m)) => assert_eq!(
                m,
                "missing or invalid token; get the login command from `hades host connect-info` on the host"
            ),
            _ => panic!("no entry"),
        }
    }
    assert!(require_auth(None, Some("Bearer ")).is_err());
}

#[test]
fn deploy_forms_are_read_field_by_field() {
    let mut f = DeployForm::new();
    f.field(FormField::Other).unwrap();
    f.field(FormField::Context).unwrap();
    assert!(f.has_context);
    f.field(FormField::Spec(spec("a"))).unwrap();
    assert_eq!(f.finish().unwrap().name, "a");
    let why = |f: FormField| match DeployForm::new().field(f) {
        Err(HadesError::InvalidSpec(m)) => m,
        _ => panic!("refused"),
    };
    assert_eq!(why(FormField::UnreadableSpec), "unreadable spec field");
    assert_eq!(why(FormField::BadSpec(text("eof"))), "bad spec JSON: eof");
    assert_eq!(why(FormField::BadContext(text("cut"))), "bad context upload: cut");
    match DeployForm::new().finish() {
        Err(HadesError::InvalidSpec(m)) => assert_eq!(m, "multipart 'spec' field missing"),
        _ => panic!("no spec"),
    }
}

#[test]
fn streamed_deploys_end_with_their_result() {
    assert_eq!(stream_frame("building \"x\""), (text("{\"log\":\"building \\\"x\\\"\"}\n"), false));
    assert_eq!(stream_frame("\u{1e}{\"result\":1}"), (text("{\"result\":1}\n"), true));
    match stream_outcome("{\"log\":\"a\"}\n{\"result\":{\"ok\":1}}\n") {
        StreamOutcome::Result(r) => assert_eq!(r, "{\"ok\":1}"),
        _ => panic!("a result"),
    }
    match stream_outcome("{\"error\":{\"error\":{\"code\":\"x\"}}}") {
        StreamOutcome::Error(e) => assert_eq!(e, "{\"error\":{\"code\":\"x\"}}"),
        _ => panic!("an error"),
    }
    assert!(matches!(stream_outcome("{\"log\":\"a\"}\n"), StreamOutcome::Nothing));
}

#[test]
fn commands_follow_the_placement() {
    let mut d = daemon();
    with_app(&mut d, "site");
    assert!(d.remote_for("site").is_none());
    join(&mut d, "mini");
    d.store.place("blog", "mini");
    assert_eq!(d.remote_for("blog").unwrap().name, "mini");
    let c = d.device_client("mini").unwrap();
    assert_eq!((c.base.as_str(), c.token), ("https://mini.example.com", Some(text("token-mini"))));
    assert!(d.device_client("mars").is_none());
    d.forget_placement("blog");
    assert!(d.remote_for("blog").is_none());
    assert_eq!(d.get_app("site").unwrap().name, "site");
    assert!(matches!(d.get_app("none"), Err(HadesError::AppNotFound(_))));
    let info = tag(d.get_app("site").unwrap(), Some(text("mini")));
    assert_eq!(info.device, Some(text("mini")));
    match d.device_or_not_found("mars") {
        Err(HadesError::AppNotFound(m)) => assert_eq!(m, "device mars"),
        _ => panic!("no such device"),
    }
    assert!(d.fleet_remove("mini").is_ok());
    assert!(d.device_client("mini").is_none());
}

#[test]
fn answers_about_one_app() {
    let mut d = daemon();
    with_app(&mut d, "site");
    assert_eq!(d.log_source("site").unwrap(), "0123456789abcdef");
    assert!(matches!(d.log_source("none"), Err(HadesError::AppNotFound(_))));
    let mut rec = d.store.get("site").unwrap();
    rec.replicas = vec![];
    d.store.put("idle", { rec.spec.name = text("idle"); rec });
    match d.log_source("idle") {
        Err(HadesError::Other(m)) => assert_eq!(m, "idle has no running replicas"),
        _ => panic!("nothing runs"),
    }
    let readings = vec![ReplicaReading {
        state: None,
        stats: Some(ContainerStats {
            memory_used_mb: double(12.5),
            memory_limit_mb: double(256.0),
            cpu_pct: double(3.0),
        }),
    }];
    let s = d.app_stats("site", &readings).unwrap();
    assert_eq!(s.replicas[0].container_id, "0123456789ab");
    assert_eq!(s.replicas[0].state, "unknown");
    assert_eq!(s.replicas[0].memory_limit_mb, 256);
    assert_eq!(s.replicas[0].memory_used_mb, double(12.5));
    assert!(d.app_stats("none", &vec![]).is_err());
}

#[test]
fn answers_about_the_host() {
    let mut d = daemon();
    with_app(&mut d, "b");
    with_app(&mut d, "a");
    d.control_url = Some(text("https://c"));
    let ledger = d.store.resource_ledger(20, EngineInfo { vm_memory_mb: 8000, vm_cpus: 4 }, None);
    let power = PowerStatus {
        on_ac: true,
        battery_pct: None,
        cycle_count: None,
        capacity_pct_of_design: None,
    };
    let s = d.host_status("0.1.0", ledger, power, double(99.5), double(2.0));
    assert_eq!(s.apps.iter().map(|a| a.name.as_str()).collect::<Vec<_>>(), vec!["a", "b"]);
    assert_eq!(s.control_url, Some(text("https://c")));
    assert_eq!(s.availability_pct_7d, Some(double(99.5)));
    let card = d.machine_card(None, Some(&s.ledger));
    assert!(card.is_hub && card.on_ac);
    assert_eq!((card.apps, card.allocated_mb, card.allocatable_mb), (2, 512, 6400));
    assert_eq!(card.started, "2026-05-28 20:26 UTC");
    assert_eq!(d.machine_card(Some(false), None).allocatable_mb, 0);
}

#[test]
fn claims_are_listed_without_the_hosts_own() {
    let mut d = daemon();
    let (own, url) = adopt_control("mac", "mac.example.com", "k");
    assert_eq!(url, "https://mac.example.com");
    d.store.put_claim(own);
    d.store.put_claim(ClaimRecord {
        app: text("site"),
        name: text("blog"),
        hostname: text("blog.example.com"),
        connector_token: text("k"),
    });
    let l = d.domain_claims();
    assert_eq!(l.claims.len(), 1);
    assert_eq!(l.claims[0].hostname, "blog.example.com");
    match hub_coordinator(&d.config) {
        Err(HadesError::Other(m)) => assert_eq!(m, "this hub has no coordinator configured"),
        _ => panic!("no coordinator"),
    }
}

#[test]
fn ledgers_are_replayed() {
    let line = |l: &str, t: Option<Timestamp>| LedgerLine { line: text(l), at: t };
    let all = vec![line("a", Some(at(-10))), line("b", Some(at(0))), line("?", None)];
    assert_eq!(backlog(&all, None), vec!["a", "b", "?"]);
    assert_eq!(backlog(&all, Some(at(-5))), vec!["b"]);
    assert_eq!(backlog(&all, Some(at(0))), vec!["b"]);
    assert_eq!(last_lines("1\n2\n3\n", 2), vec!["2", "3"]);
    assert_eq!(last_lines("1", 5), vec!["1"]);
}

#[test]
fn sources_are_shared_where_there_are_any() {
    assert_eq!(source_dir(Some("/src"), true, "/h", true).unwrap(), "/src");
    assert_eq!(source_dir(Some("/src"), false, "/h", true).unwrap(), "/h/src");
    match source_dir(None, false, "/h", false) {
        Err(HadesError::Other(m)) => assert_eq!(m, "this host has no source to share (no source_dir)"),
        _ => panic!("no source"),
    }
    assert_eq!(update_command(Some("/h/bin/hades"), "/h/u.log"), "sleep 1; /h/bin/hades update >> /h/u.log 2>&1");
    assert_eq!(update_command(None, "l"), "sleep 1; hades update >> l 2>&1");
}

#[test]
fn ssh_needs_a_server_and_a_tunnel() {
    let mut d = daemon();
    assert!(matches!(d.host_ssh(false, false), Err(HadesError::Other(_))));
    match d.host_ssh(true, false) {
        Err(HadesError::Tunnel(m)) => assert_eq!(m, "cloudflared not installed on this host"),
        _ => panic!("no cloudflared"),
    }
    d.provider = true;
    assert!(matches!(d.host_ssh(true, false), Ok(SshPlan::Open)));
    assert!(matches!(d.host_ssh(true, true), Ok(SshPlan::Reuse)));
    d.ssh_up(Some(8));
    assert_eq!(d.store.registry.cloudflared.get("__ssh"), Some(&8));
}

#[test]
fn the_dashboard_shows_the_whole_fleet() {
    assert_eq!(mirror_url("https://hub/"), "https://hub/dashboard/metrics");
    let mut d = daemon();
    with_app(&mut d, "site");
    join(&mut d, "mini");
    let up = DeviceAnswer { doctor_green: true, vm_memory_mb: 1, allocatable_mb: 1, allocated_mb: 0, apps: 1 };
    poll_one(&mut d.fleet_status, "mini", Some(up), NOW);
    d.store.place("blog", "mini");
    let mut spreads = NameMap::new();
    spreads.insert(text("site"), vec![text("mini"), text("gone")]);
    let rows = d.dashboard_apps("mac", &spreads);
    assert_eq!(rows.iter().map(|r| r.name.as_str()).collect::<Vec<_>>(), vec!["blog", "site"]);
    assert_eq!(rows[0].instances[0].machine, "mini");
    assert_eq!(rows[0].instances[0].state, "running");
    assert!(rows[1].spread && rows[1].instances.len() == 3);
    assert!(rows[1].instances[0].is_self && rows[1].instances[0].healthy);
    assert_eq!(rows[1].instances[2].state, "unreachable");
    let device = |name: &str, healthy: bool, last_seen| FleetDeviceView {
        name: text(name),
        control_url: text("u"),
        healthy,
        vm_memory_mb: 0,
        allocatable_mb: 0,
        allocated_mb: 0,
        free_mb: 1,
        apps: 2,
        last_seen,
        added_at: NOW,
    };
    let fleet = FleetView {
        devices: vec![
            device("local", true, Some(NOW)),
            device("mini", true, Some(NOW)),
            device("old", false, None),
        ],
    };
    let (devices, healthy) = dashboard_devices(&fleet, double(2.5));
    assert!(devices[0].is_self && !devices[1].is_self);
    assert_eq!((devices[0].load, devices[1].load), (double(2.5), double(0.0)));
    let machines = machines_of(&fleet, Some(100), 8000);
    assert_eq!(self_name(&machines), "local");
    assert_eq!((machines[0].capacity_req_per_sec, machines[0].machine_req_per_sec), (Some(100), Some(8000)));
    assert_eq!((machines[1].is_self, machines[1].capacity_req_per_sec, machines[1].apps), (false, None, 2));
    assert_eq!(healthy, 2);
    assert_eq!(devices.iter().map(|r| r.last_seen.as_str()).collect::<Vec<_>>(), vec!["now", "20:26:40", "never"]);
}

#[test]
fn small_answers() {
    let n = test_notification();
    assert_eq!((n.title.as_str(), n.severity), ("hades", Severity::Urgent));
    assert_eq!(n.body, "test notification: your host can reach you");
    let mut m = TextMap::new();
    m.insert(text("K"), text("v"));
    let v = secrets_view("site", &m, true, false);
    assert_eq!(v.keys, vec!["K"]);
    assert!(v.encrypted && !v.applied && v.device.is_none());
    let machine = |name: &str, is_self, healthy| Machine {
        name: text(name),
        is_self,
        healthy,
        apps: 2,
        capacity_req_per_sec: Some(100),
        machine_req_per_sec: None,
    };
    let fleet = vec![machine("mac", true, true), machine("mini", false, true), machine("old", false, false)];
    assert_eq!(spread_targets(&fleet), vec!["mini"]);
}

// ------------------------------------------------------------------------- the client

#[test]
fn calls_go_to_the_host() {
    let c = DaemonClient::new(8786);
    assert_eq!(c.base_url(), "http://127.0.0.1:8786");
    let c = DaemonClient::for_host("https://x.example.com/", Some(text("t")));
    let call = c.list_apps();
    assert_eq!((call.verb, call.url.as_str(), call.token), (Verb::Get, "https://x.example.com/apps", Some(text("t"))));
    assert!(c.health().token.is_none());
    assert_eq!(c.deploy(Some("mini")).url, "https://x.example.com/apps?device=mini");
    assert_eq!(c.deploy(None).timeout_secs, Some(600));
    assert_eq!(c.logs("site", true).url, "https://x.example.com/apps/site/logs?follow=true");
    assert_eq!(c.events(false, Some("2")).url, "https://x.example.com/events?follow=false&days=2");
    assert_eq!(c.destroy("a").verb, Verb::Delete);
    assert_eq!(c.secrets_update("a").verb, Verb::Put);
    assert_eq!(c.app_gather("a", "all").url, "https://x.example.com/apps/a/spread/all");
    assert_eq!(c.uptime("7").url, "https://x.example.com/host/uptime?days=7");
    assert_eq!(DaemonClient::for_host(c.base_url(), None).base_url(), c.base_url());
}

#[test]
fn failures_of_a_call_are_typed() {
    assert!(matches!(hades::client::unreachable("refused").error, HadesError::DaemonUnreachable(_)));
    assert_eq!(bad_response("eof").error.message(), "bad response from daemon: eof");
    let body = ErrorBody::new(&HadesError::AppNotFound(text("a")));
    assert!(matches!(check("404", "", Some(body)).error, HadesError::AppNotFound(_)));
    assert_eq!(check("502", "gateway", None).error.message(), "daemon returned 502: gateway");
    assert!(matches!(check_stream("why", None).error, HadesError::Other(_)));
    assert_eq!(no_result().error.code(), "other");
}

// ----------------------------------------------------------------------------- reports

fn sample(secs: i64, on_ac: bool, soc: f64, cycles: u64, nominal: u64) -> BatterySample {
    BatterySample {
        at: at(secs),
        on_ac,
        soc_pct: Some(double(soc)),
        cycle_count: Some(cycles),
        design_capacity_mah: Some(8000),
        nominal_capacity_mah: Some(nominal),
        temperature_c: Some(double(30.0)),
        hades_cpu_pct: double(10.0),
    }
}

#[test]
fn batteries_are_counted() {
    let all = vec![
        sample(-900_000, true, 10.0, 90, 7900),
        sample(-604_800, true, 95.0, 100, 7800),
        sample(-10, false, 99.0, 102, 7700),
        sample(0, true, 94.9, 103, 7600),
    ];
    let kept = recent_samples(&all, at(-604_800));
    assert_eq!(kept.len(), 3);
    let f = battery_figures(&kept);
    assert_eq!(f.sample_count, 3);
    assert_eq!(f.cycle_count, Some(103));
    assert_eq!(f.capacity_now, Some(Ratio { part: 7600, whole: 8000 }));
    assert_eq!(f.capacity_then, Some(Ratio { part: 7800, whole: 8000 }));
    let span = f.cycles.unwrap();
    assert_eq!((span.cycles, span.secs), (3, 604_800));
    assert_eq!((f.on_ac, f.high_charge, f.span_secs), (2, 1, 604_800));
    let none = battery_figures(&vec![]);
    assert!(none.sample_count == 0 && none.capacity_now.is_none() && none.cycles.is_none());
}

fn rates(dwell: f64, cycles: f64, temp: f64, cpu: f64) -> BatteryRates {
    BatteryRates {
        sampled_over_days: double(7.0),
        capacity_pct: None,
        capacity_trend_pct: None,
        cycles_per_week: Some(double(cycles)),
        high_soc_dwell_pct: Some(double(dwell)),
        avg_temp_c: Some(double(temp)),
        cpu_share_pct: Some(double(cpu)),
    }
}

#[test]
fn advice_follows_the_thresholds() {
    let f = battery_figures(&vec![sample(0, true, 99.0, 1, 1)]);
    let calm = battery_report(&f, &rates(80.0, 3.0, 35.0, 100.0));
    assert_eq!(
        calm.recommendations,
        vec!["no battery red flags in the sample window — keep an eye on capacity trend"]
    );
    let hot = battery_report(&f, &rates(80.1, 3.1, 35.1, 100.1));
    assert_eq!(hot.recommendations.len(), 4);
    assert!(hot.recommendations[0].starts_with("battery sits at >=95% charge 80% of plugged-in time"));
    assert!(hot.recommendations[1].starts_with("3.1 charge cycles/week"));
    assert!(hot.recommendations[2].starts_with("average battery temperature 35.1°C"));
    assert!(hot.recommendations[3].starts_with("Hades containers average 100% CPU"));
    let none = battery_report(
        &battery_figures(&vec![]),
        &BatteryRates {
            sampled_over_days: double(0.0),
            capacity_pct: None,
            capacity_trend_pct: None,
            cycles_per_week: None,
            high_soc_dwell_pct: None,
            avg_temp_c: None,
            cpu_share_pct: None,
        },
    );
    assert_eq!(none.recommendations.len(), 1);
    assert!(none.recommendations[0].starts_with("no battery telemetry yet"));
}

#[test]
fn power_changes_are_told() {
    let mut w = PowerWatch::new();
    let t = w.tick(Some(true));
    assert!(t.event.is_none() && t.sample);
    let t = w.tick(Some(false));
    assert!(matches!(t.event, Some(HostEvent::OnBattery)) && !t.sample);
    assert!(w.tick(None).event.is_none());
    assert!(matches!(w.tick(Some(true)).event, Some(HostEvent::OnAc)));
    let samples = (0..20).filter(|_| w.tick(Some(true)).sample).count();
    assert_eq!(samples, 2);
}

#[test]
fn processes_are_listed() {
    let c = |id: &str, state: &str| LabeledContainer {
        id: text(id),
        app: text("site"),
        name: text("hades-site-0"),
        state: text(state),
    };
    assert!(is_running(&c("x", "running")) && !is_running(&c("x", "exited")));
    let p = ps_report(
        77,
        Some(double(20.0)),
        &vec![SampledContainer { container: c("0123456789abcdef", "exited"), stats: None }],
        &vec![
            SampledProcess { key: text("site"), pid: 5, rss_mb: Some(double(9.0)) },
            SampledProcess { key: text("old"), pid: 6, rss_mb: None },
        ],
    );
    assert_eq!(p.entries.len(), 4);
    assert_eq!(p.entries[0].id, "77");
    assert_eq!(p.entries[1].id, "0123456789ab");
    assert_eq!(p.entries[2].kind, PsKind::Cloudflared);
    assert_eq!((p.entries[2].state.as_str(), p.entries[3].state.as_str()), ("running", "dead"));
    assert_eq!(shorten("abc"), "abc");
}

#[test]
fn uptime_is_reported_since_a_time() {
    let r = |end: i64| DowntimeRecord { start: at(end - 60), end: at(end), secs: 60, cause: DowntimeCause::Slept };
    let u = uptime_report(&vec![r(-5000), r(-10)], at(-100), double(40.0));
    assert_eq!(u.windows.len(), 1);
    assert_eq!((u.since, u.availability_pct), (at(-100), double(40.0)));
}

// --------------------------------------------------------------------------- self-test

#[test]
fn machines_in_scope_are_checked() {
    let m = |name: &str, is_self, healthy| Machine {
        name: text(name),
        is_self,
        healthy,
        apps: 2,
        capacity_req_per_sec: Some(100),
        machine_req_per_sec: None,
    };
    let fleet = vec![m("mac", true, true), m("mini", false, false)];
    assert_eq!(self_name(&fleet), "mac");
    assert_eq!(self_name(&vec![]), "hub");
    let all = uptime_checks("fleet", &fleet);
    assert_eq!(all.len(), 2);
    assert_eq!(all[0].name, "mac up & healthy");
    assert_eq!(all[0].detail, "doctor green · 2 apps · max 100 r/s (hardware 0 r/s)");
    assert_eq!((all[1].pass, all[1].detail.as_str()), (false, "unreachable or doctor red"));
    assert_eq!(uptime_checks("local", &fleet).len(), 1);
    assert_eq!(uptime_checks("mini", &fleet)[0].name, "mini up & healthy");
}

#[test]
fn bursts_are_judged() {
    let b = |ok| Burst { ok, p50_ms: double(12.4), p95_ms: double(40.6), per_sec: double(80.0) };
    let c = response_check("site", &b(40));
    assert!(c.pass);
    assert_eq!(c.detail, "40/40 ok · p50 12ms · p95 41ms · 80 req/s");
    assert!(!response_check("site", &b(39)).pass);
    let mut before = NameMap::new();
    before.insert(text("mac"), 10);
    let mut after = NameMap::new();
    after.insert(text("mac"), 30);
    after.insert(text("mini"), 20);
    let c = load_balance_check("site", &before, &after);
    assert!(c.pass);
    assert_eq!(c.detail, "mac 20 · mini 20 (across 2 machine(s))");
    let c = load_balance_check("site", &before, &before);
    assert_eq!((c.pass, c.detail.as_str()), (false, "no per-machine attribution this run (across 0 machine(s))"));
    let r = report("fleet", vec![response_check("a", &b(40)), response_check("b", &b(0))]);
    assert_eq!((r.passed, r.failed), (1, 1));
}

#[test]
fn only_apps_with_a_name_are_driven() {
    let mut d = daemon();
    with_app(&mut d, "site");
    assert!(url_to_drive(&d.store, "site", &vec![], "fleet").is_none());
    d.store.put_claim(ClaimRecord {
        app: text("site"),
        name: text("blog"),
        hostname: text("blog.example.com"),
        connector_token: text("k"),
    });
    let url = Some(text("https://blog.example.com/"));
    assert_eq!(url_to_drive(&d.store, "site", &vec![], "fleet"), url);
    assert_eq!(url_to_drive(&d.store, "site", &vec![], "mini"), None);
    assert_eq!(url_to_drive(&d.store, "site", &vec![text("mini")], "mini"), url);
}

// ----------------------------------------------------------------------------- startup

#[test]
fn downtime_before_a_start_is_recorded() {
    let s = startup(Some(at(-96)), None, &vec![], NOW, 30);
    assert_eq!(s.record.unwrap().secs, 96);
    assert!(matches!(s.events[0], HostEvent::DaemonStarted { unclean_shutdown: true }));
    assert!(matches!(s.events[1], HostEvent::HostUp { downtime_secs: 96, .. }));
    let s = startup(Some(at(-95)), None, &vec![], NOW, 30);
    assert!(s.record.is_none() && s.events.len() == 1);
    let s = startup(Some(at(-600)), Some(at(-300)), &vec![], NOW, 30);
    assert!(matches!(s.events[0], HostEvent::DaemonStarted { unclean_shutdown: false }));
    assert!(startup(None, None, &vec![], NOW, 30).record.is_none());
    assert!(heartbeat(at(-31), None, &vec![], NOW, 30).is_none());
    let slept = heartbeat(at(-300), None, &vec![at(-290)], NOW, 30).unwrap();
    assert_eq!((slept.record.secs, slept.record.cause), (300, DowntimeCause::Slept));
}

#[test]
fn machines_have_names_and_tokens() {
    assert_eq!(short_hostname(Some(" Mac-Mini\n")), "mac-mini");
    assert_eq!(short_hostname(Some("\n")), "device");
    assert_eq!(short_hostname(None), "device");
    assert_eq!(dashboard_hostname(None), "host");
    assert_eq!(dashboard_hostname(Some("ÄB")), "äb");
    let mut c = HadesConfig::default();
    assert!(ensure_token(&mut c, &vec![0xab; 32]));
    assert_eq!(c.auth_token, Some("ab".repeat(32)));
    assert!(!ensure_token(&mut c, &vec![0; 32]));
    assert_eq!(requests_since(5, 9), 4);
    assert_eq!(requests_since(9, 5), 0);
    assert!(is_notable(&HostEvent::OnAc) && !is_notable(&HostEvent::AppResumed { app: text("a") }));
}

#[test]
fn control_urls_are_registered_again() {
    let mut d = daemon();
    assert!(d.control_up("https://u", Some(4), "mac").is_none());
    assert_eq!(d.control_url, Some(text("https://u")));
    assert_eq!(d.store.registry.cloudflared.get("__control"), Some(&4));
    d.control_down();
    assert!(d.control_url.is_none());
    d.config.fleet.hub_url = Some(text("https://hub"));
    d.config.fleet.hub_token = Some(text("ht"));
    d.config.auth_token = Some(text("own"));
    let r = d.control_up("https://v", None, "mac").unwrap();
    assert_eq!((r.hub_url.as_str(), r.hub_token.as_str()), ("https://hub", "ht"));
    assert_eq!(r.request.control_url, "https://v");
    assert_eq!((r.request.name.as_str(), r.request.token.as_str()), ("mac", "own"));
    assert_eq!(tunnel_pause(TunnelEnd::NoControl), 32);
    assert_eq!(tunnel_pause(TunnelEnd::ControlGone), 2);
    assert_eq!(tunnel_pause(TunnelEnd::Named), 3);
    d.control_on_domain("example.com");
    assert_eq!(d.control_url, Some(text("https://api.example.com")));
    d.note_own_pid(99);
    assert_eq!(d.store.registry.daemon_pid, Some(99));
}

#[test]
fn the_doctor_is_told_when_it_turns_red() {
    let mut d = daemon();
    let failed = vec![text("disk")];
    assert!(matches!(d.doctor_tick(false, &failed, true), Some(HostEvent::DoctorRed { .. })));
    assert!(!d.doctor_green);
    assert!(d.doctor_tick(false, &failed, false).is_none());
    assert!(d.doctor_tick(true, &vec![], false).is_none());
    assert!(d.doctor_green && d.doctor_failed.is_empty());
    with_app(&mut d, "site");
    assert_eq!(d.app_views()[0].name, "site");
}

#[test]
fn the_fleet_log_is_newest_first() {
    let row = |at: &str, device: &str| LogRow {
        at: text(at),
        kind: text("on_ac"),
        summary: text("s"),
        device: text(device),
    };
    let log = fleet_log(&vec![
        vec![row("2026-01-01T00:00:01Z", "a"), row("2026-01-01T00:00:03Z", "a")],
        vec![row("2026-01-01T00:00:02Z", "b")],
    ]);
    assert_eq!(log.iter().map(|r| r.at.as_str()).collect::<Vec<_>>(), vec![
        "2026-01-01T00:00:03Z",
        "2026-01-01T00:00:02Z",
        "2026-01-01T00:00:01Z",
    ]);
    let many: Vec<LogRow> = (0..50).map(|i| row(&format!("{i:03}"), "a")).collect();
    assert_eq!(fleet_log(&vec![many]).len(), 20);
}
