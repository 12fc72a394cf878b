use hades::app_spec::{AppSpec, Manifest, OnBattery, PowerPolicy, Priority, Resources};
use hades::cli::{
    add_lines, already_there, app_name_for, app_or_manifest, claimed_lines, client_for,
    connect_info, connect_lines, dashboard_url, deploying_line, doctor_exit, domain_config,
    domain_lines, fail, fleet_update_lines, join_command, join_plan, joined_lines, local_client,
    login, login_lines, manifest_text, no_secrets_line, no_transport, nobody_home,
    not_a_directory, notify_line, released_line, scaffold, secrets_to_set, skip_dir, ssh_target,
    url_line, LineBuffer, Session,
};
use hades::config::HadesConfig;
use hades::daemon::Daemon;
use hades::doctor::{Check, DoctorReport};
use hades::double::Double;
use hades::error::HadesError;
use hades::events::DowntimeCause;
use hades::init::{InitReport, InitStep};
use hades::maps::TextMap;
use hades::render;
use hades::state::{AppRecord, Store};
use hades::time::Timestamp;
use hades::types::{
    AppInfo, AppState, AppStats, BatteryReport, DeployResponse, DomainClaim, DomainClaimList,
    DowntimeWindow, FleetDeviceView, FleetView, PowerStatus, PsEntry, PsKind, PsReport, ReplicaStats, SecretsView,
    UptimeReport,
};
use hades::update::{
    cargo_path, choose_source, is_checkout, restart_seen, tool_failed, unpack_args, updated_lines,
    Restart, UpdateOutcome, UpdateSource,
};

const NOW: Timestamp = Timestamp { secs: 1_780_000_000, nanos: 0 };

fn text(s: &str) -> String {
    s.to_string()
}

fn double(v: f64) -> Double {
    Double { bits: v.to_bits() }
}

fn spec(name: &str, replicas: u8) -> AppSpec {
    AppSpec {
        name: text(name),
        image: Some(text("nginx")),
        build: None,
        base: None,
        resources: Resources { cpu: double(0.5), memory_mb: 256, disk_mb: None },
        ports: vec![80],
        env: TextMap::new(),
        health_check: None,
        replicas,
        priority: Priority::Normal,
        power: PowerPolicy { on_battery: OnBattery::Run },
        max_concurrent_requests: None,
    }
}

fn info(name: &str) -> AppInfo {
    let d = Daemon::new(HadesConfig::default(), Store::load(None, None, None, None), false, NOW);
    let mut rec = AppRecord::new(spec(name, 2), NOW);
    rec.state = AppState::Running;
    d.app_info(&rec)
}

fn config(token: Option<&str>) -> HadesConfig {
    let mut c = HadesConfig::default();
    c.auth_token = token.map(|t| t.to_string());
    c
}

fn message(e: HadesError) -> String {
    e.message()
}

// ----------------------------------------------------------------------------- sessions

#[test]
fn the_session_decides_the_host() {
    let s = Session {
        host: text("https://x/"),
        token: Some(text("t")),
        logged_in_at: NOW,
        daemon_version: text("1"),
    };
    let c = client_for(Some(&s), &config(Some("own")));
    assert_eq!((c.base.as_str(), c.token), ("https://x", Some(text("t"))));
    let c = local_client(&config(Some("own")));
    assert_eq!((c.base.as_str(), c.token), ("http://127.0.0.1:8786", Some(text("own"))));
}

#[test]
fn remote_logins_need_a_token() {
    let own = config(Some("own"));
    let p = login(None, None, "", &own).unwrap();
    assert_eq!((p.host.as_str(), p.token), ("127.0.0.1:8786", Some(text("own"))));
    let p = login(Some("h"), Some("t"), "", &own).unwrap();
    assert_eq!((p.host.as_str(), p.token), ("h", Some(text("t"))));
    let p = login(Some("h"), Some("-"), " piped\n", &own).unwrap();
    assert_eq!(p.token, Some(text("piped")));
    for (t, line) in [(None, ""), (Some("-"), " \n")] {
        match login(Some("h"), t, line, &own) {
            Err(HadesError::Unauthorized(m)) => {
                assert_eq!(m, "remote hosts need --token (run `hades host connect-info` on the host)")
            }
            _ => panic!("a token is needed"),
        }
    }
    assert!(login(None, None, "", &config(None)).unwrap().token.is_none());
}

#[test]
fn commands_fail_with_a_code_and_a_hint() {
    let f = fail(&nobody_home("h"));
    assert_eq!(f.exit_code, 5);
    assert_eq!(f.lines, vec![
        "error: daemon unreachable: no hadesd at h; run the install script or `hades host init` first",
        "hint: is hadesd running? `hades host init` sets it up.",
    ]);
    let f = fail(&HadesError::AppNotFound(text("a")));
    assert_eq!((f.exit_code, f.lines), (4, vec![text("error: app not found: a")]));
    assert_eq!((doctor_exit(true), doctor_exit(false)), (0, 2));
}

#[test]
fn logins_greet() {
    let l = login_lines("h", "0.1.0", true, 100, 20, 3, Some("https://c"));
    assert_eq!(l[1], "  ⚖ you have entered the underworld");
    assert_eq!(l[3], "  host      h · hadesd v0.1.0");
    assert_eq!(l[4], "  doctor    GREEN · ready for deploys");
    assert_eq!(l[5], "  capacity  100MB allocatable · 20MB claimed · 3 apps");
    assert_eq!(l[6], "  remote    https://c (use `hades host connect-info` for the full command)");
    let l = login_lines("h", "0.1.0", false, 0, 0, 0, None);
    assert_eq!(l[4], "  doctor    RED · run `hades host doctor` for remedies");
    assert_eq!(l[7], "  next:");
}

// -------------------------------------------------------------------------------- hosts

#[test]
fn hosts_are_reached_and_joined() {
    assert_eq!(dashboard_url(&config(Some("t"))), "http://127.0.0.1:8786/dashboard#t");
    assert_eq!(dashboard_url(&config(None)), "http://127.0.0.1:8786/dashboard#");
    let c = connect_info(Some("t"), Some("https://u")).unwrap();
    assert_eq!(c.command, "hades login --host https://u --token t");
    assert_eq!(connect_lines(&c.command)[3], "    hades login --host https://u --token t");
    assert_eq!(
        message(connect_info(None, None).unwrap_err()),
        "no auth token in config; run `hades host init`"
    );
    assert_eq!(
        message(connect_info(Some("t"), None).unwrap_err()),
        "no control tunnel; install cloudflared (`brew install cloudflared`) and restart the daemon"
    );
    let j = join_plan(&config(Some("own")), Some("https://me"), "https://hub", "ht", None, "mac").unwrap();
    assert_eq!(j.config.fleet.hub_url, Some(text("https://hub")));
    assert_eq!(j.config.fleet.hub_token, Some(text("ht")));
    assert_eq!((j.request.name.as_str(), j.request.token.as_str()), ("mac", "own"));
    assert!(message(join_plan(&config(None), None, "h", "t", None, "m").unwrap_err())
        .starts_with("this device has no control tunnel yet"));
    assert_eq!(
        message(join_plan(&config(None), Some("u"), "h", "t", Some("n"), "m").unwrap_err()),
        "no auth token in config; run `hades host init`"
    );
    assert_eq!(join_command(Some("u"), Some("t")).unwrap(), "hades host join --hub u --token t");
    assert!(join_command(None, Some("t")).is_err());
    assert_eq!(add_lines("u", "t")[3], "    curl -fsSL <site>/install.sh | HADES_HUB=u HADES_TOKEN=t sh");
}

#[test]
fn domains_are_set_once_authorized() {
    let c = domain_config(&config(None), "example.com", "hades", true).unwrap();
    assert_eq!(c.domain.name, Some(text("example.com")));
    assert_eq!(c.domain.tunnel_name, Some(text("hades")));
    assert!(message(domain_config(&config(None), "d", "t", false).unwrap_err())
        .starts_with("first authorize cloudflared with your domain:\n"));
    let l = domain_lines("example.com");
    assert_eq!(l[1], "  ⚖ this host is now example.com");
    assert_eq!(l[4], "    api      https://api.example.com");
    assert_eq!(l[7], "    *.example.com   →   (cloudflared creates per-app records too)");
    assert_eq!(claimed_lines("a.b")[3], "    https://a.b");
    assert_eq!(released_line("{\"released\":\"a.b\"}", "app"), "released a.b");
    assert_eq!(released_line("{}", "app"), "released app");
}

// ---------------------------------------------------------------------------- manifests

#[test]
fn manifests_are_scaffolded() {
    assert_eq!(app_name_for("my_app 2"), "my-app-2");
    let t = scaffold(Some("My App"));
    assert!(t.starts_with("# Hades app manifest. `hades deploy` reads this.\n[app]\nname = \"my-app\"\n"));
    assert!(t.ends_with("# path = \"/\"\n"));
    assert!(scaffold(None).contains("name = \"app\""));
    let v: toml::Value = toml::from_str(&manifest_text("x")).unwrap();
    assert_eq!(v["app"]["name"].as_str(), Some("x"));
    assert_eq!(v["app"]["resources"]["memory"].as_str(), Some("256mb"));
    assert_eq!(message(already_there("/a/Hades.toml")), "/a/Hades.toml already exists");
}

#[test]
fn commands_find_their_app() {
    let m = Manifest { app: spec("here", 1) };
    assert_eq!(app_or_manifest(Some("named"), Some(&m)).unwrap(), "named");
    assert_eq!(app_or_manifest(None, Some(&m)).unwrap(), "here");
    assert_eq!(
        message(app_or_manifest(None, None).unwrap_err()),
        "no --app given and no Hades.toml here"
    );
    assert_eq!(deploying_line(&spec("a", 1)), "deploying a (1 replica)…");
    assert_eq!(deploying_line(&spec("a", 2)), "deploying a (2 replicas)…");
}

#[test]
fn contexts_leave_out_what_is_built() {
    for d in [".git", "target", "node_modules", ".hades", "__pycache__"] {
        assert!(skip_dir(d));
    }
    assert!(!skip_dir("src"));
    assert_eq!(
        message(not_a_directory("/x")),
        "invalid spec: build context /x is not a directory"
    );
}

#[test]
fn secrets_are_given_in_pairs() {
    let u = secrets_to_set(&vec![text(" A =1=2"), text("B="), text("A=3")]).unwrap();
    assert_eq!(u.set.get("A"), Some(&text("3")));
    assert_eq!(u.set.get("B"), Some(&text("")));
    assert!(u.unset.is_empty());
    assert_eq!(
        message(secrets_to_set(&vec![text("A=1"), text("nope"), text("no")]).unwrap_err()),
        "invalid spec: 'nope' is not KEY=VALUE"
    );
    assert_eq!(no_secrets_line("a"), "a has no secrets; `hades secrets set KEY=VALUE --app a`");
}

#[test]
fn ssh_goes_through_the_tunnel() {
    let reply = "{\"url\":\"https://x.trycloudflare.com\",\"user_hint\":\"me\"}";
    let t = ssh_target(reply, None, Some("you")).unwrap();
    assert_eq!((t.host.as_str(), t.user.as_str()), ("x.trycloudflare.com", "me"));
    assert_eq!(
        t.command,
        "ssh -o ProxyCommand='cloudflared access ssh --hostname %h' me@x.trycloudflare.com"
    );
    assert_eq!(ssh_target(reply, Some("root"), None).unwrap().user, "root");
    let bare = "{\"url\":\"http://x\",\"user_hint\":\"\"}";
    assert_eq!(ssh_target(bare, None, Some("you")).unwrap().user, "you");
    assert_eq!(ssh_target(bare, None, None).unwrap().user, "root");
    assert_eq!(message(ssh_target("{}", None, None).unwrap_err()), "device returned no tunnel url");
    assert!(message(no_transport()).starts_with("cloudflared is needed locally"));
}

#[test]
fn fleet_updates_are_told_by_device() {
    let reply = "{\"devices\":{\"b\":{\"started\":true},\"a\":{\"started\":false,\"error\":\"offline\"},\"c\":1}}";
    assert_eq!(fleet_update_lines(reply), vec![
        "a: failed: offline",
        "b: updating (rebuild + daemon restart; takes a few minutes)",
        "c: failed: ?",
        "",
        "watch a device come back with `hades fleet`",
    ]);
    assert_eq!(fleet_update_lines("{}"), vec!["no devices to update"]);
    assert_eq!(fleet_update_lines("{\"devices\":{}}"), vec!["no devices to update"]);
}

#[test]
fn streams_are_cut_into_lines() {
    let mut whole = LineBuffer::new();
    let all = whole.take(&b"one\ntwo\n\nthr".to_vec());
    assert_eq!(all, vec![b"one\n".to_vec(), b"two\n".to_vec(), b"\n".to_vec()]);
    assert_eq!(whole.rest, b"thr".to_vec());
    let mut bits = LineBuffer::new();
    let mut got = Vec::new();
    for b in b"one\ntwo\n\nthr" {
        got.extend(bits.take(&vec![*b]));
    }
    assert_eq!(got, all);
    assert_eq!(bits.take(&b"ee\n".to_vec()), vec![b"three\n".to_vec()]);
}

// ------------------------------------------------------------------------------ updates

#[test]
fn sources_of_an_update_in_order() {
    let d = |from, here, git, hub, managed| match choose_source(from, here, git, hub, managed) {
        Ok(s) => s.describe(),
        Err(e) => e.message(),
    };
    assert_eq!(d(Some("https://s/"), true, true, Some("h"), true), "https://s/hades-src.tar.gz");
    assert_eq!(d(Some("https://s/x.tar.gz"), true, true, None, true), "https://s/x.tar.gz");
    assert_eq!(d(None, true, true, Some("h"), true), "local checkout");
    assert_eq!(d(None, false, true, Some("h"), true), "git");
    assert_eq!(d(None, false, false, Some("h"), true), "hub h");
    assert_eq!(d(None, false, false, None, true), "existing sources");
    assert_eq!(
        d(None, false, false, None, false),
        "nowhere to update from — run inside a checkout, join a fleet, or pass --from <site-url>"
    );
    let site = choose_source(Some("s"), false, false, None, false).unwrap();
    assert_eq!((site.strip(), UpdateSource::Hub(text("h")).strip()), (1, 0));
    assert_eq!(site.progress("/d"), "fetching s/hades-src.tar.gz");
    assert_eq!(UpdateSource::Checkout.progress("/d"), "using this checkout: /d");
}

#[test]
fn updates_are_built_and_awaited() {
    assert_eq!(unpack_args("a", "d", 1), vec!["xzf", "a", "-C", "d", "--strip-components=1"]);
    assert_eq!(unpack_args("a", "d", 0).len(), 4);
    assert!(is_checkout(Some("members = [\"crates/hades-cli\"]")));
    assert!(!is_checkout(Some("[package]")) && !is_checkout(None));
    assert_eq!(cargo_path(true, None), "cargo");
    assert_eq!(cargo_path(false, Some("/h")), "/h/.cargo/bin/cargo");
    let stderr: String = (1..=20).map(|i| format!("line {i}\n")).collect();
    let m = message(tool_failed("git", &vec![text("pull"), text("--ff-only")], &stderr));
    assert!(m.starts_with("git pull --ff-only failed:\nline 9\n"));
    assert!(m.ends_with("line 20"));
    assert!(matches!(restart_seen(1, None), Restart::Wait));
    assert!(matches!(restart_seen(30, None), Restart::GaveUp));
    assert!(matches!(restart_seen(30, Some(text("2"))), Restart::Up(_)));
    let o = UpdateOutcome {
        source: text("git"),
        old_version: None,
        new_version: text("2"),
        daemon_restarted: false,
    };
    assert_eq!(updated_lines(&o), vec![
        "",
        "  updated from git: v? → v2",
        "  daemon did not come back by itself; start hadesd (or check launchd)",
    ]);
}

// ---------------------------------------------------------------------------- rendering

#[test]
fn apps_are_listed_in_columns() {
    let a = info("site");
    let line = render::app_line(&a);
    assert_eq!(
        line,
        format!(
            "{:<14} {:<8} {:<10} {:>2}/{:<2} {:>6}MB {:>4.1}cpu  {}  {}",
            "site", "local", "running", 0, 2, 256, 0.5, "http://site.localhost:8787", "-"
        )
    );
    let l = render::apps(&vec![info("site")]);
    assert_eq!(
        l[0],
        format!(
            "{:<14} {:<8} {:<10} {:<5} {:>8} {:>7}  LOCAL  PUBLIC",
            "NAME", "DEVICE", "STATE", "REPL", "MEM", "CPU"
        )
    );
    assert_eq!(l[1], line);
    assert_eq!(render::apps(&vec![]), vec!["no apps deployed; `hades init` then `hades deploy` to get one running"]);
    assert_eq!(url_line(&a), "http://site.localhost:8787 (no public URL, local only)");
    assert_eq!(render::pad_right("äb", 4), "äb  ");
    assert_eq!(render::pad_left("abcde", 4), "abcde");
}

#[test]
fn deploys_are_told() {
    let mut r = DeployResponse { app: info("site"), replaced: true, tunnel_note: Some(text("why")) };
    assert_eq!(render::deploy(&r), vec![
        "site deployed (replaced running version)",
        "  local:  http://site.localhost:8787",
        "  public: (none); why",
    ]);
    r.tunnel_note = None;
    assert_eq!(render::deploy(&r)[2], "  public: provisioning… run `hades url site` in a few seconds");
    r.app.url = Some(text("https://u"));
    assert_eq!(render::deploy(&r)[2], "  public: https://u");
}

#[test]
fn doctors_and_bootstraps_are_told() {
    let report = || DoctorReport {
        green: false,
        checks: vec![
            Check::pass("docker", text("up")),
            Check::warn("sleep", text("naps"), text("stop it")),
            Check::fail("disk", text("full"), text("free some")),
        ],
    };
    let lines = render::doctor(&report());
    assert_eq!(lines[0], "✓ docker       up");
    assert_eq!(lines[1], "! sleep        naps");
    assert_eq!(lines[2], "               ↳ stop it");
    assert_eq!(lines[3], "✗ disk         full");
    assert_eq!(lines[6], "doctor: RED, deploys are refused until the failures above are fixed");
    let i = render::init(&InitReport {
        steps: vec![InitStep { name: text("dirs"), ok: true, detail: text("ready") }],
        ntfy_subscribe_url: Some(text("https://ntfy.sh/t")),
        doctor: report(),
    });
    assert_eq!(i[0], "✓ dirs         ready");
    assert_eq!(i[2], "📱 subscribe your phone to host alerts: https://ntfy.sh/t");
    assert_eq!(render::color(true), "GREEN");
}

#[test]
fn batteries_are_shown() {
    let b = BatteryReport {
        sampled_over_days: double(6.96),
        sample_count: 12,
        cycle_count: Some(201),
        capacity_pct_of_design: Some(double(92.59)),
        capacity_trend_pct: Some(double(-0.255)),
        cycles_per_week: Some(double(1.25)),
        high_soc_dwell_pct: Some(double(80.5)),
        avg_temp_c: Some(double(30.42)),
        hades_cpu_share_pct: None,
        recommendations: vec![text("rest")],
    };
    let want = vec![
        format!("battery report: {} samples over {:.1} days", 12, 6.96),
        text("  cycles:        201"),
        format!("  capacity:      {:.1}% of design", 92.59),
        format!("  trend:         {:+.2} pct-points over the window", -0.255),
        format!("  cycle burn:    {:.1}/week", 1.25),
        format!("  high-SoC dwell: {:.0}% of plugged-in time at >=95% charge", 80.5),
        format!("  avg temp:      {:.1}°C", 30.42),
        text(""),
        text("  • rest"),
    ];
    assert_eq!(render::battery(&b), want);
}

#[test]
fn uptime_and_processes_are_shown() {
    let u = UptimeReport {
        since: NOW,
        availability_pct: double(99.123),
        windows: vec![DowntimeWindow { start: NOW, end: Timestamp { secs: NOW.secs + 61, nanos: 0 }, secs: 61, cause: DowntimeCause::Crashed }],
    };
    let l = render::uptime(&u);
    assert_eq!(l[0], "availability 99.12% since 2026-05-28 20:26 UTC");
    assert_eq!(l[2], format!("{:<22} {:<22} {:>9}  {}", "2026-05-28 20:26:40", "2026-05-28 20:27:41", "1m 1s", "crashed"));
    let none = UptimeReport { since: NOW, availability_pct: double(100.0), windows: vec![] };
    assert_eq!(render::uptime(&none)[1], "no downtime windows recorded");
    let p = PsReport {
        entries: vec![PsEntry {
            kind: PsKind::Daemon,
            app: None,
            id: text("7"),
            detail: text("hadesd"),
            rss_mb: Some(double(20.6)),
            cpu_pct: None,
            state: text("running"),
        }],
    };
    assert_eq!(
        render::ps(&p)[1],
        format!("{:<12} {:<14} {:<14} {:>8}  {:>6}  {} [{}]", "daemon", "-", "7", "21MB", "-", "hadesd", "running")
    );
    assert_eq!(render::event_line(NOW, "x"), "2026-05-28 20:26:40  x");
}

#[test]
fn hosts_and_fleets_are_shown() {
    let mut d = Daemon::new(HadesConfig::default(), Store::load(None, None, None, None), false, NOW);
    d.doctor_green = true;
    let ledger = hades::ledger::empty_ledger(20);
    let power = PowerStatus {
        on_ac: false,
        battery_pct: Some(double(79.6)),
        cycle_count: None,
        capacity_pct_of_design: Some(double(92.4)),
    };
    let s = d.host_status("0.1.0", ledger, power, double(99.987), double(0.0));
    let l = render::host_status(&s);
    assert_eq!(l[0], "hadesd v0.1.0, up since 2026-05-28 20:26 UTC, doctor GREEN");
    assert_eq!(l[3], "power:    ON BATTERY, battery 80% (health 92% of design)");
    assert_eq!(l[4], "uptime:   99.99% availability over the last 7 days");
    let device = |name: &str, free_mb, allocatable_mb, apps, last_seen| FleetDeviceView {
        name: text(name),
        control_url: text("https://c"),
        healthy: true,
        vm_memory_mb: 0,
        allocatable_mb,
        allocated_mb: 0,
        free_mb,
        apps,
        last_seen,
        added_at: NOW,
    };
    let at = |secs: i64| Some(Timestamp { secs: NOW.secs - NOW.secs % 86_400 + 14 * 3600 + 131 + secs, nanos: 0 });
    let v = FleetView {
        devices: vec![
            device("local", 1, 2, 3, at(0)),
            device("studio", 11468, 12700, 3, at(0)),
            device("macbook", 4121, 6348, 1, at(2)),
            device("old", 0, 0, 0, None),
        ],
    };
    let l = render::fleet(&v);
    assert_eq!(l[0], "DEVICE     HEALTH   FREE      ALLOCATABLE  APPS   LAST SEEN");
    assert_eq!(l[1], "studio     green    11468MB   12700MB      3      14:02:11");
    assert_eq!(l[2], "macbook    green     4121MB    6348MB      1      14:02:13");
    assert!(l[3].ends_with(" never"));
    assert_eq!(l.len(), 4);
    assert_eq!(render::fleet_lines(&v), l);
    let alone = FleetView { devices: vec![device("local", 1, 2, 3, at(0))] };
    assert_eq!(
        render::fleet_lines(&alone),
        vec!["no devices joined; `hades fleet add` prints what to run on a new machine"]
    );
    let j = joined_lines("mini", &v);
    assert_eq!(j[1], "  ⚖ mini joined the fleet");
    assert_eq!(j[4], l[1]);
}

#[test]
fn stats_secrets_and_claims_are_shown() {
    let s = AppStats {
        name: text("site"),
        requests_total: 9,
        inflight: 1,
        shed_total: 2,
        p50_ms: double(1.25),
        p95_ms: double(9.96),
        replicas: vec![ReplicaStats {
            container_id: text("abc"),
            memory_used_mb: double(12.5),
            memory_limit_mb: 256,
            cpu_pct: double(3.14),
            state: text("running"),
        }],
    };
    let l = render::stats(&s);
    assert_eq!(l[1], format!("  requests 9  inflight 1  shed 2  p50 {:.1}ms  p95 {:.1}ms", 1.25, 9.96));
    assert_eq!(l[3], format!("    abc  {:.0}MB / 256MB  cpu {:.1}%  [running]", 12.5, 3.14));
    let v = SecretsView { app: text("a"), keys: vec![text("K")], encrypted: true, applied: true, device: None };
    assert_eq!(render::render_secrets(&v), vec![
        "a · 1 secret on local (keychain-encrypted) · running replicas restarted",
        "  K",
    ]);
    let c = DomainClaimList {
        claims: vec![DomainClaim { app: text("a"), name: text("n"), hostname: text("n.d") }],
    };
    assert_eq!(render::claims(&c), vec![format!("{:<16} https://{}", "a", "n.d")]);
    assert_eq!(render::claims(&DomainClaimList { claims: vec![] }), vec!["no claimed domains; `hades domain claim <name>`"]);
    assert_eq!(notify_line(&vec![text("a"), text("b")]), "delivered to: a, b");
    assert_eq!(notify_line(&vec![]), "no channels delivered; run `hades host init` to configure ntfy");
}
