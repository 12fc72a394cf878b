use hades::app_spec::{
    AppSpec, BuildSpec, HealthCheck, Manifest, ManifestRead, OnBattery, PowerPolicy, Priority,
    Resources,
};
use hades::config::{ConfigRead, HadesConfig};
use hades::double::Double;
use hades::error::{ApiError, ErrorBody, HadesError};
use hades::events::{
    humanize_secs, DowntimeCause, EventEnvelope, HostEvent, PauseReason, PressureLevel, Severity,
};
use hades::maps::TextMap;
use hades::number::{parse_i64, parse_u64};
use hades::paths::HadesPaths;
use hades::size::{format_size_mb, parse_size_mb};
use hades::text::dec;

fn double(v: f64) -> Double {
    Double { bits: v.to_bits() }
}

fn spec(name: &str, memory_mb: u64) -> AppSpec {
    AppSpec {
        name: name.to_string(),
        image: Some("nginx".to_string()),
        build: None,
        base: None,
        resources: Resources { cpu: double(1.0), memory_mb, disk_mb: None },
        ports: vec![80],
        env: TextMap::new(),
        health_check: None,
        replicas: 1,
        priority: Priority::Normal,
        power: PowerPolicy { on_battery: OnBattery::Run },
        max_concurrent_requests: None,
    }
}

fn all_errors() -> Vec<(HadesError, &'static str, i32, &'static str)> {
    let m = || "x".to_string();
    vec![
        (HadesError::InvalidSpec(m()), "invalid_spec", 6, "invalid spec: x"),
        (HadesError::ManifestNotFound(m()), "manifest_not_found", 6, "no Hades.toml found: x"),
        (HadesError::AppNotFound(m()), "app_not_found", 4, "app not found: x"),
        (HadesError::AdmissionRejected(m()), "admission_rejected", 3, "deploy rejected: x"),
        (HadesError::DoctorRed(m()), "doctor_red", 2, "host not ready: x"),
        (HadesError::Docker(m()), "docker", 1, "docker error: x"),
        (HadesError::Tunnel(m()), "tunnel", 1, "tunnel error: x"),
        (HadesError::DaemonUnreachable(m()), "daemon_unreachable", 5, "daemon unreachable: x"),
        (HadesError::Unauthorized(m()), "unauthorized", 7, "unauthorized: x"),
        (HadesError::Io(m()), "io", 1, "io error: x"),
        (HadesError::Other(m()), "other", 1, "x"),
    ]
}

#[test]
fn validation_rejects_missing_memory() {
    let m = spec("x", parse_size_mb("0mb").unwrap());
    assert!(m.validate().is_err());
}

#[test]
fn valid_specs_pass() {
    let mut s = spec("hello", parse_size_mb("256mb").unwrap());
    assert_eq!(s.resources.memory_mb, 256);
    assert!(s.validate().is_ok());
    assert_eq!(s.primary_port(), 80);
    assert_eq!(s.local_hostname(), "hello.localhost");
    s.image = None;
    s.build = Some(BuildSpec { dockerfile: "Dockerfile".to_string(), context: ".".to_string() });
    s.health_check = Some(HealthCheck { path: "/".to_string(), interval_secs: 10, timeout_secs: 3 });
    assert!(s.validate().is_ok());
}

fn fault(s: AppSpec) -> String {
    match s.validate() {
        Err(HadesError::InvalidSpec(m)) => m,
        _ => panic!("the spec should be refused"),
    }
}

#[test]
fn every_fault_of_a_spec_is_refused() {
    let name = "must be non-empty lowercase [a-z0-9-]";
    assert_eq!(fault(spec("", 1)), format!("app name '' {name}"));
    assert_eq!(fault(spec("No_Caps", 1)), format!("app name 'No_Caps' {name}"));
    let mut both = spec("x", 1);
    both.build = Some(BuildSpec { dockerfile: "D".to_string(), context: ".".to_string() });
    assert_eq!(fault(both), "spec must set 'image' or [build], not both");
    let mut neither = spec("x", 1);
    neither.image = None;
    assert_eq!(fault(neither), "spec needs either 'image' or a [build] section");
    let mut portless = spec("x", 1);
    portless.ports = vec![];
    assert_eq!(fault(portless), "spec must expose at least one port");
    assert_eq!(
        fault(spec("x", 0)),
        "resources.memory is mandatory (e.g. \"256mb\"); admission control needs a declared number"
    );
    let mut none = spec("x", 1);
    none.replicas = 0;
    assert_eq!(fault(none), "replicas must be >= 1");
}

#[test]
fn manifests_tell_why_they_cannot_be_loaded() {
    match Manifest::load("/a/Hades.toml", ManifestRead::Unreadable("gone".to_string())) {
        Err(HadesError::ManifestNotFound(m)) => assert_eq!(m, "/a/Hades.toml: gone"),
        _ => panic!("unreadable"),
    }
    match Manifest::load("/a/Hades.toml", ManifestRead::Malformed("line 1".to_string())) {
        Err(HadesError::InvalidSpec(m)) => assert_eq!(m, "/a/Hades.toml: line 1"),
        _ => panic!("malformed"),
    }
    let bad = Manifest { app: spec("x", 0) };
    assert!(Manifest::load("/a/Hades.toml", ManifestRead::Parsed(bad)).is_err());
    let good = Manifest { app: spec("x", 8) };
    let m = Manifest::load("/a/Hades.toml", ManifestRead::Parsed(good)).unwrap();
    assert_eq!(m.app.name, "x");
    assert_eq!(Manifest::FILENAME, "Hades.toml");
}

#[test]
fn priorities_are_ordered() {
    assert!(Priority::Low < Priority::Normal && Priority::Normal < Priority::Critical);
    assert_eq!(Priority::Low.as_str(), "Low");
}

#[test]
fn sizes_with_fractions_and_spaces() {
    assert_eq!(parse_size_mb(" 1.5GB "), Ok(1536));
    assert_eq!(parse_size_mb("0.5 gb"), Ok(512));
    assert_eq!(parse_size_mb("2.5mb"), Ok(3));
    assert_eq!(parse_size_mb("-4mb"), Ok(0));
    assert_eq!(parse_size_mb("inf"), Ok(u64::MAX));
    assert_eq!(parse_size_mb("nan"), Ok(0));
    assert_eq!(parse_size_mb("1e3"), Ok(1000));
    assert_eq!(parse_size_mb("lots"), Err("cannot parse size 'lots'".to_string()));
    assert_eq!(parse_size_mb("gb"), Err("cannot parse size 'gb'".to_string()));
}

#[test]
fn sizes_agree_with_floating_point() {
    for s in ["0.1gb", "3.3", "1e-3gb", "7.4999999999999999", "123456.789mb", ".5", "5.", "9007199254740993"] {
        let t = s.trim().to_ascii_lowercase();
        let (num, mult) = if let Some(n) = t.strip_suffix("gb") {
            (n.to_string(), 1024)
        } else if let Some(n) = t.strip_suffix("mb") {
            (n.to_string(), 1)
        } else {
            (t.clone(), 1)
        };
        let want = (num.trim().parse::<f64>().unwrap() * mult as f64).round() as u64;
        assert_eq!(parse_size_mb(s), Ok(want), "{s}");
    }
}

#[test]
fn written_sizes_read_back() {
    for mb in [0, 1, 1023, 1024, 1025, 4096, 1 << 40, (1 << 53) - 1, 1 << 53] {
        let s = format_size_mb(mb);
        assert_eq!(parse_size_mb(&s), Ok(mb));
        assert_eq!(parse_size_mb(&s.to_uppercase()), Ok(mb));
        assert_eq!(parse_size_mb(&format!(" \t{s}\n")), Ok(mb));
    }
}

#[test]
fn numbers_are_written_and_read() {
    assert_eq!(dec(0), "0");
    assert_eq!(dec(u64::MAX), "18446744073709551615");
    assert_eq!(parse_u64(&dec(90210)), Some(90210));
    assert_eq!(parse_u64("18446744073709551616"), None);
    assert_eq!(parse_u64("+7"), Some(7));
    assert_eq!(parse_u64("-7"), None);
    assert_eq!(parse_i64("-7"), Some(-7));
    assert_eq!(parse_i64(""), None);
}

#[test]
fn doubles_are_compared_and_written() {
    assert!(double(1.5).lt(&double(2.0)));
    assert!(!double(2.0).lt(&double(2.0)));
    assert!(double(2.0).le(&double(2.0)));
    assert!(!double(f64::NAN).le(&double(f64::NAN)));
    assert!(double(-1.0).lt(&double(0.0)));
    assert!(double(-0.0).le(&double(0.0)) && double(0.0).le(&double(-0.0)));
    for v in [0.0, 0.05, 0.25, 0.35, 1.0, 2.5, 92.59, 99.95, 1234.5678, -7.25, 1e15] {
        assert_eq!(double(v).fixed(0), format!("{v:.0}"));
        assert_eq!(double(v).fixed(1), format!("{v:.1}"));
        assert_eq!(double(v).fixed(2), format!("{v:.2}"));
    }
    assert_eq!(double(f64::INFINITY).fixed(1), "inf");
    assert_eq!(double(f64::NAN).fixed(1), "NaN");
}

#[test]
fn errors_have_codes_and_messages() {
    for (e, code, exit, message) in all_errors() {
        assert_eq!(e.code(), code);
        assert_eq!(e.exit_code(), exit);
        assert_eq!(e.message(), message);
    }
}

#[test]
fn errors_survive_the_wire() {
    for (e, code, exit, message) in all_errors() {
        let body = ErrorBody::new(&e);
        assert_eq!(body.error.code, code);
        assert_eq!(body.error.message, message);
        assert!(body.error.detail.is_none());
        let back = body.to_error();
        if code != "io" {
            assert_eq!(back.code(), code);
        } else {
            assert_eq!(back.code(), "other");
        }
        assert_eq!(back.exit_code(), exit);
    }
}

#[test]
fn details_ride_along() {
    let e = HadesError::AdmissionRejected("full".to_string());
    let b = ErrorBody::with_detail(&e, serde_json::Value::Bool(true));
    assert_eq!(b.error.detail, Some(serde_json::Value::Bool(true)));
    let a = ApiError::from_body(b);
    assert_eq!(a.error.code(), "admission_rejected");
    assert_eq!(a.body.error.detail, Some(serde_json::Value::Bool(true)));
    let o = ApiError::from_error(HadesError::Other("why".to_string()));
    assert_eq!(o.body.error.code, "other");
}

#[test]
fn severities_follow_the_event() {
    let up = |cause| HostEvent::HostUp { downtime_secs: 1, cause };
    assert_eq!(up(DowntimeCause::Crashed).severity(), Severity::Urgent);
    assert_eq!(up(DowntimeCause::Unknown).severity(), Severity::Urgent);
    assert_eq!(up(DowntimeCause::Slept).severity(), Severity::Default);
    assert_eq!(up(DowntimeCause::Rebooted).severity(), Severity::Default);
    let p = |level| HostEvent::MemoryPressure { level, available_mb: 1 };
    assert_eq!(p(PressureLevel::Critical).severity(), Severity::Urgent);
    assert_eq!(p(PressureLevel::Warn).severity(), Severity::Info);
    assert_eq!(HostEvent::OnBattery.severity(), Severity::Default);
    assert_eq!(HostEvent::DiskLow { free_gb: double(1.0) }.severity(), Severity::Urgent);
    assert_eq!(HostEvent::AppDestroyed { app: "a".to_string() }.severity(), Severity::Info);
}

#[test]
fn losses_are_told() {
    let app = || "a".to_string();
    for e in [
        HostEvent::AppOomKilled { app: app(), memory_mb: 1, restarts: 1 },
        HostEvent::AppCrashLoop { app: app(), restarts: 3 },
        HostEvent::DoctorRed { failed_checks: vec![] },
        HostEvent::TunnelDown { app: app() },
        HostEvent::AppPaused { app: app(), reason: PauseReason::Manual },
    ] {
        assert!(e.severity() > Severity::Info);
    }
}

#[test]
fn summaries_are_one_line_each() {
    let app = || "api".to_string();
    let cases = vec![
        (
            HostEvent::HostUp { downtime_secs: 3725, cause: DowntimeCause::Slept },
            "host back up after 1h 2m (slept)",
        ),
        (HostEvent::DaemonStarted { unclean_shutdown: true }, "daemon started after unclean shutdown"),
        (HostEvent::DaemonStarted { unclean_shutdown: false }, "daemon started"),
        (HostEvent::AppDeployed { app: app(), replaced: true }, "api: redeployed"),
        (HostEvent::AppDeployed { app: app(), replaced: false }, "api: deployed"),
        (HostEvent::AppDestroyed { app: app() }, "api: destroyed"),
        (
            HostEvent::AppPaused { app: app(), reason: PauseReason::MemoryPressure },
            "api: paused (MemoryPressure)",
        ),
        (HostEvent::AppResumed { app: app() }, "api: resumed"),
        (
            HostEvent::AppOomKilled { app: app(), memory_mb: 256, restarts: 2 },
            "api: OOM-killed at 256MB limit (restart #2) — consider raising resources.memory",
        ),
        (
            HostEvent::AppCrashLoop { app: app(), restarts: 3 },
            "api: crash loop after 3 restarts — restarts stopped",
        ),
        (
            HostEvent::AppUnhealthy { app: app(), detail: "500".to_string() },
            "api: unhealthy — 500",
        ),
        (
            HostEvent::UrlChanged { app: app(), old: None, new: "https://u".to_string() },
            "api: new public URL https://u",
        ),
        (HostEvent::TunnelDown { app: app() }, "api: tunnel down, re-provisioning"),
        (
            HostEvent::MemoryPressure { level: PressureLevel::Critical, available_mb: 100 },
            "memory pressure Critical: 100MB available",
        ),
        (HostEvent::OnBattery, "host on battery power"),
        (HostEvent::OnAc, "host back on AC power"),
        (
            HostEvent::BatteryHealthDelta { capacity_pct: double(92.59), cycle_count: 201 },
            "battery health: 92.6% of design capacity, 201 cycles",
        ),
        (HostEvent::DiskLow { free_gb: double(4.25) }, "disk low: 4.2GB free"),
        (
            HostEvent::DeployRejected { app: app(), reason: "full".to_string() },
            "api: deploy rejected — full",
        ),
        (
            HostEvent::DoctorRed { failed_checks: vec!["docker".to_string(), "disk".to_string()] },
            "doctor red: docker, disk — deploys refused",
        ),
    ];
    for (e, s) in cases {
        assert_eq!(e.summary(), s);
    }
}

#[test]
fn durations_read_well() {
    assert_eq!(humanize_secs(59), "59s");
    assert_eq!(humanize_secs(60), "1m 0s");
    assert_eq!(humanize_secs(3599), "59m 59s");
    assert_eq!(humanize_secs(3600), "1h 0m");
}

#[test]
fn envelopes_hold_the_time() {
    let before = chrono::Utc::now().timestamp();
    let e = EventEnvelope::now(HostEvent::OnAc);
    let after = chrono::Utc::now().timestamp();
    assert!(before <= e.at.secs && e.at.secs <= after);
    assert!(matches!(e.event, HostEvent::OnAc));
}

#[test]
fn defaults_of_the_configuration() {
    let c = HadesConfig::default();
    assert_eq!((c.api_port, c.proxy_port, c.reserve_pct), (8786, 8787, 20));
    assert_eq!((c.heartbeat_secs, c.pressure_warn_mb, c.pressure_critical_mb), (30, 1024, 512));
    assert_eq!(c.disk_min_free_gb, double(5.0));
    assert!(c.notify.mac_notifications && c.auth_token.is_none());
}

#[test]
fn unreadable_configurations_are_told_or_replaced() {
    match HadesConfig::load(ConfigRead::Malformed("line 3".to_string())) {
        Err(HadesError::Other(m)) => assert_eq!(m, "bad config: line 3"),
        _ => panic!("malformed"),
    }
    match HadesConfig::load(ConfigRead::Unreadable("gone".to_string())) {
        Err(HadesError::Io(m)) => assert_eq!(m, "gone"),
        _ => panic!("unreadable"),
    }
    let mut own = HadesConfig::default();
    own.api_port = 1;
    assert_eq!(HadesConfig::load_or_default(ConfigRead::Parsed(own)).api_port, 1);
    assert_eq!(HadesConfig::load_or_default(ConfigRead::Malformed("".to_string())).api_port, 8786);
}

#[test]
fn paths_lie_under_the_root() {
    let p = HadesPaths::new(None, Some("/Users/me".to_string())).unwrap();
    assert_eq!(p.root, "/Users/me/.hades");
    assert_eq!(p.config(), "/Users/me/.hades/config.toml");
    assert_eq!(p.apps_state(), "/Users/me/.hades/state/apps.json");
    assert_eq!(p.registry(), "/Users/me/.hades/state/registry.json");
    assert_eq!(p.uptime_ledger(), "/Users/me/.hades/ledger/uptime.jsonl");
    assert_eq!(p.events_ledger(), "/Users/me/.hades/ledger/events.jsonl");
    assert_eq!(p.heartbeat(), "/Users/me/.hades/ledger/heartbeat");
    assert_eq!(p.battery_metrics(), "/Users/me/.hades/metrics/battery.jsonl");
    assert_eq!(p.resource_metrics(), "/Users/me/.hades/metrics/resources.jsonl");
    assert_eq!(p.ensure_dirs().len(), 5);
    let q = HadesPaths::new(Some("/srv/h".to_string()), Some("/Users/me".to_string())).unwrap();
    assert_eq!(q.logs_dir(), "/srv/h/logs");
    assert!(HadesPaths::new(None, None).is_none());
    assert_ne!(p.state_dir(), p.ledger_dir());
}
