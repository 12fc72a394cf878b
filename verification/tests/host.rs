use hades::config::HadesConfig;
use hades::doctor::{run_doctor, Check, DockerFinding, DoctorReport, Findings};
use hades::double::Double;
use hades::error::HadesError;
use hades::init::{
    complete_config, daemon_awaited, init_config, run_init, DaemonWait, InitFindings, InitOptions,
    InstallFinding,
};
use hades::launchd::{CommandOutcome, LaunchdManager, DAEMON_LABEL};
use hades::random::{random_text, random_token, random_topic, spell};

fn healthy() -> Findings {
    Findings {
        docker: DockerFinding::Up { vm_memory_mb: 8192, vm_cpus: 4 },
        mac_memory_mb: Some(16384),
        cloudflared: Some("/opt/homebrew/bin/cloudflared".to_string()),
        disk_free_gb: Some(Double { bits: 42.0f64.to_bits() }),
        disk_threshold: "5".to_string(),
        daemon_up: true,
        proxy_bind_error: None,
        egress_error: None,
        sleeps_on_ac: Some(false),
        assertions: Some("PreventUserIdleSystemSleep by caffeinate".to_string()),
        state_dir_error: None,
        root: "/h/.hades".to_string(),
        daemon_up_at_end: true,
    }
}

fn config() -> HadesConfig {
    let mut c = HadesConfig::default();
    c.notify.ntfy_topic = Some("topic".to_string());
    c
}

fn find<'a>(r: &'a DoctorReport, name: &str) -> &'a Check {
    r.checks.iter().find(|c| c.name == name).unwrap()
}

#[test]
fn a_healthy_host_is_green() {
    let r = run_doctor(&config(), &healthy(), false);
    assert!(r.green);
    assert!(r.failed_names().is_empty());
    assert_eq!(
        find(&r, "docker").detail,
        "engine up — VM capacity 8192MB / 4 CPUs (Mac has 16384MB; the VM is the real budget)"
    );
    assert_eq!(find(&r, "disk").detail, "42.0GB free");
    assert_eq!(find(&r, "proxy-port").detail, "port 8787 held by running daemon");
    assert_eq!(find(&r, "notify").detail, "ntfy topic configured (ntfy.sh/topic)");
    assert_eq!(find(&r, "state-dir").detail, "/h/.hades");
    assert_eq!(find(&r, "daemon").detail, "hadesd responding on 127.0.0.1:8786");
    let inside = run_doctor(&config(), &healthy(), true);
    assert!(!inside.checks.iter().any(|c| c.name == "daemon" || c.name == "proxy-port"));
}

#[test]
fn faults_turn_the_doctor_red() {
    let mut f = healthy();
    f.docker = DockerFinding::NotResponding("refused".to_string());
    f.disk_free_gb = Some(Double { bits: 4.96f64.to_bits() });
    f.daemon_up = false;
    f.proxy_bind_error = Some("in use".to_string());
    f.egress_error = Some("offline".to_string());
    f.state_dir_error = Some("denied".to_string());
    f.daemon_up_at_end = false;
    let r = run_doctor(&config(), &f, false);
    assert!(!r.green);
    assert_eq!(
        r.failed_names(),
        vec!["docker", "disk", "proxy-port", "egress", "state-dir", "daemon"]
    );
    assert_eq!(find(&r, "disk").detail, "5.0GB free (threshold 5GB)");
    assert_eq!(find(&r, "proxy-port").detail, "cannot bind 127.0.0.1:8787: in use");
    assert_eq!(find(&r, "proxy-port").remedy, Some("free the port: `lsof -i :8787`".to_string()));
    assert!(r.checks.iter().all(|c| c.ok || c.remedy.is_some()));
}

#[test]
fn warnings_leave_the_doctor_green() {
    let mut f = healthy();
    f.cloudflared = None;
    f.disk_free_gb = None;
    f.sleeps_on_ac = Some(true);
    let mut c = config();
    c.notify.ntfy_topic = None;
    let r = run_doctor(&c, &f, false);
    assert!(r.green);
    for name in ["cloudflared", "disk", "sleep", "notify"] {
        assert!(find(&r, name).warn && !find(&r, name).ok);
    }
}

#[test]
fn keep_awake_and_domain_are_checked_when_configured() {
    let mut c = config();
    c.keep_awake = true;
    c.domain.name = Some("example.com".to_string());
    let r = run_doctor(&c, &healthy(), true);
    assert_eq!(find(&r, "keep-awake").detail, "power assertion held — host won't idle-sleep");
    assert_eq!(find(&r, "domain").detail, "stable URLs on example.com (api.example.com + *.example.com)");
    let mut f = healthy();
    f.assertions = None;
    assert!(find(&run_doctor(&c, &f, true), "keep-awake").warn);
}

#[test]
fn checks_are_built_by_outcome() {
    let p = Check::pass("a", "fine".to_string());
    assert!(p.ok && !p.warn && p.remedy.is_none());
    let f = Check::fail("a", "bad".to_string(), "fix".to_string());
    assert!(!f.ok && !f.warn && f.remedy == Some("fix".to_string()));
    let w = Check::warn("a", "meh".to_string(), "look".to_string());
    assert!(!w.ok && w.warn);
}

fn options(no_launchd: bool) -> InitOptions {
    InitOptions { no_launchd, healthchecks_url: Some("https://hc".to_string()) }
}

#[test]
fn bootstrapping_twice_changes_nothing() {
    let once = complete_config(HadesConfig::default(), "t1".to_string(), "k1".to_string(), &options(false));
    assert_eq!(once.notify.ntfy_topic, Some("t1".to_string()));
    assert_eq!(once.auth_token, Some("k1".to_string()));
    assert_eq!(once.notify.healthchecks_url, Some("https://hc".to_string()));
    let twice = complete_config(once, "t2".to_string(), "k2".to_string(), &options(false));
    assert_eq!(twice.notify.ntfy_topic, Some("t1".to_string()));
    assert_eq!(twice.auth_token, Some("k1".to_string()));
    let fresh = init_config(HadesConfig::default(), &options(true));
    assert_eq!(fresh.auth_token.unwrap().len(), 64);
    let topic = fresh.notify.ntfy_topic.unwrap();
    assert!(topic.starts_with("hades-") && topic.len() == 18);
}

#[test]
fn the_daemon_is_not_awaited_forever() {
    assert_eq!(daemon_awaited(1, false), DaemonWait::Again { millis: 500 });
    assert_eq!(daemon_awaited(19, false), DaemonWait::Again { millis: 500 });
    assert_eq!(daemon_awaited(20, false), DaemonWait::Done { up: false });
    assert_eq!(daemon_awaited(20, true), DaemonWait::Done { up: true });
}

fn found() -> InitFindings {
    InitFindings {
        root: "/h/.hades".to_string(),
        dirs_error: None,
        config_path: "/h/.hades/config.toml".to_string(),
        save_error: None,
        docker_ok: true,
        cloudflared: None,
        sleeps_on_ac: None,
        install: InstallFinding::Installed,
        daemon_up: true,
    }
}

#[test]
fn init_tells_every_step() {
    let doctor = run_doctor(&config(), &healthy(), false);
    let r = run_init(&config(), &options(false), &found(), doctor);
    let names: Vec<&str> = r.steps.iter().map(|s| s.name.as_str()).collect();
    assert_eq!(names, vec!["dirs", "config", "docker", "cloudflared", "power", "launchd", "daemon"]);
    assert!(r.steps.iter().all(|s| s.ok));
    assert_eq!(r.steps[0].detail, "/h/.hades ready");
    assert_eq!(r.steps[5].detail, "installed com.hades.daemon (starts on login, restarts on crash)");
    assert_eq!(r.steps[6].detail, "hadesd healthy on 127.0.0.1:8786");
    assert_eq!(r.ntfy_subscribe_url, Some("https://ntfy.sh/topic".to_string()));
    assert!(r.doctor.green);
}

#[test]
fn init_tells_what_failed() {
    let mut f = found();
    f.dirs_error = Some("denied".to_string());
    f.save_error = Some("full".to_string());
    f.docker_ok = false;
    f.install = InstallFinding::NoBinary;
    f.daemon_up = false;
    let doctor = run_doctor(&config(), &healthy(), false);
    let r = run_init(&config(), &options(false), &f, doctor);
    assert_eq!(r.steps[0].detail, "cannot create /h/.hades: denied");
    assert_eq!(r.steps[1].detail, "cannot write config: full");
    let failed: Vec<&str> = r.steps.iter().filter(|s| !s.ok).map(|s| s.name.as_str()).collect();
    assert_eq!(failed, vec!["dirs", "config", "docker", "launchd", "daemon"]);
    let doctor = run_doctor(&config(), &healthy(), false);
    let r = run_init(&config(), &options(true), &found(), doctor);
    assert_eq!(r.steps.len(), 6);
    assert_eq!(r.steps[5].detail, "skipped (--no-launchd); run `hadesd` manually");
}

#[test]
fn launchd_is_addressed_by_user() {
    assert_eq!(DAEMON_LABEL, "com.hades.daemon");
    assert_eq!(LaunchdManager::gui_domain(Some("502\n")), "gui/502");
    assert_eq!(LaunchdManager::gui_domain(None), "gui/501");
    assert_eq!(LaunchdManager::gui_domain(Some("me")), "gui/501");
    assert_eq!(LaunchdManager::service_target("gui/502"), "gui/502/com.hades.daemon");
    assert_eq!(
        LaunchdManager::plist_path("/Users/me"),
        "/Users/me/Library/LaunchAgents/com.hades.daemon.plist"
    );
    let p = LaunchdManager::plist_contents("/bin/hadesd", "/h/logs");
    assert!(p.contains("<string>/bin/hadesd</string>"));
    assert!(p.contains("<string>/h/logs/hadesd.err.log</string>"));
    assert!(p.starts_with("<?xml version=\"1.0\" encoding=\"UTF-8\"?>\n"));
    assert!(p.ends_with("</plist>\n"));
}

#[test]
fn launchd_failures_are_told() {
    let ok = CommandOutcome { ok: true, stderr: "".to_string() };
    let bad = CommandOutcome { ok: false, stderr: " no such domain\n".to_string() };
    assert!(LaunchdManager::install_outcome(&ok, None).is_ok());
    assert!(LaunchdManager::install_outcome(&bad, Some(&ok)).is_ok());
    match LaunchdManager::install_outcome(&bad, Some(&bad)) {
        Err(HadesError::Other(m)) => assert_eq!(m, "launchctl bootstrap failed: no such domain"),
        _ => panic!("the install failed"),
    }
    match LaunchdManager::kickstart_outcome(&bad) {
        Err(HadesError::Other(m)) => assert_eq!(m, "launchctl kickstart failed: no such domain"),
        _ => panic!("the kick failed"),
    }
}

#[test]
fn random_texts_come_from_their_alphabet() {
    assert_eq!(spell("abc", &vec![2, 0, 2]), "cac");
    let t = random_text("xy", 100);
    assert_eq!(t.len(), 100);
    assert!(t.contains('x') && t.contains('y'));
    assert_ne!(random_token(), random_token());
    assert!(random_token().chars().all(|c| c.is_ascii_hexdigit()));
    assert_ne!(random_topic(), random_topic());
}
