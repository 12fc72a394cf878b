use hades::app_spec::{
    AppSpec, BuildSpec, HealthCheck, OnBattery, PowerPolicy, Priority, Resources,
};
use hades::config::HadesConfig;
use hades::daemon::{spec_with_secrets, ClaimReply, Daemon, Freeze};
use hades::deploy::{running_image, DeployEvent, DeployRun, DeployStep, RedeployStep, TunnelWish};
use hades::double::Double;
use hades::error::HadesError;
use hades::events::{HostEvent, PauseReason, PressureLevel};
use hades::fleet::{merged_apps, poll, poll_one, DeviceAnswer, DeviceApps, FleetDeviceRecord};
use hades::ledger::admission;
use hades::maps::TextMap;
use hades::names::NameMap;
use hades::reconcile::{
    ClaimTask, ClaimTaskEvent, ClaimTaskStep, ReconEvent, ReconRun, ReconStep, TaskEvent, TaskStep,
    TunnelTask,
};
use hades::rollout::{GateEvent, GateStep, ReadyGate, RollEvent};
use hades::runtime::{ContainerStateInfo, EngineInfo, LabeledContainer};
use hades::state::{AppRecord, ClaimRecord, FleetFile, ReplicaRecord, Store};
use hades::time::Timestamp;
use hades::types::{AppState, JoinRequest};
use hades::watchdog::{
    available_memory_mb, disk_tick, reap_tick, SuperviseAction, SuperviseEvent,
};

const NOW: Timestamp = Timestamp { secs: 1_780_000_000, nanos: 0 };

fn at(secs: i64) -> Timestamp {
    Timestamp { secs: NOW.secs + secs, nanos: 0 }
}

fn double(v: f64) -> Double {
    Double { bits: v.to_bits() }
}

fn spec(name: &str, memory_mb: u64, replicas: u8) -> AppSpec {
    AppSpec {
        name: name.to_string(),
        image: Some("nginx".to_string()),
        build: None,
        base: None,
        resources: Resources { cpu: double(1.0), memory_mb, disk_mb: None },
        ports: vec![80],
        env: TextMap::new(),
        health_check: None,
        replicas,
        priority: Priority::Normal,
        power: PowerPolicy { on_battery: OnBattery::Run },
        max_concurrent_requests: None,
    }
}

fn replica(id: &str, port: u16) -> ReplicaRecord {
    ReplicaRecord { container_id: id.to_string(), host_port: port }
}

fn daemon() -> Daemon {
    let mut d = Daemon::new(HadesConfig::default(), Store::load(None, None, None, None), false, NOW);
    d.doctor_green = true;
    d
}

fn with_app(d: &mut Daemon, name: &str, replicas: Vec<ReplicaRecord>) {
    let mut rec = AppRecord::new(spec(name, 256, replicas.len() as u8), NOW);
    rec.replicas = replicas;
    rec.state = AppState::Running;
    d.install_routes(&rec);
    d.store.put(name, rec);
}

fn engine() -> DeployEvent {
    DeployEvent::Engine {
        info: EngineInfo { vm_memory_mb: 8000, vm_cpus: 4 },
        mac_memory_mb: Some(16000),
    }
}

fn device(name: &str) -> JoinRequest {
    JoinRequest {
        name: name.to_string(),
        control_url: format!("https://{name}.example.com"),
        token: format!("token-{name}"),
    }
}

fn answer(allocatable_mb: u64, allocated_mb: u64) -> Option<DeviceAnswer> {
    Some(DeviceAnswer {
        doctor_green: true,
        vm_memory_mb: allocatable_mb,
        allocatable_mb,
        allocated_mb,
        apps: 1,
    })
}

// ------------------------------------------------------------------------ admission

#[test]
fn the_ledger_counts_what_is_declared() {
    let mut d = daemon();
    with_app(&mut d, "a", vec![replica("c1", 1), replica("c2", 2)]);
    let l = d.store.resource_ledger(20, EngineInfo { vm_memory_mb: 8000, vm_cpus: 4 }, None);
    assert_eq!((l.reserved_mb, l.allocatable_mb, l.allocated_mb), (1600, 6400, 512));
    assert_eq!(l.mac_memory_mb, 0);
    assert_eq!(l.allocations.len(), 1);
    assert!(d.store.can_count(&spec("b", 1, 1)));
    assert!(!d.store.can_count(&spec("b", u64::MAX, 2)));
}

#[test]
fn deploys_over_the_budget_are_rejected() {
    let mut d = daemon();
    with_app(&mut d, "a", vec![replica("c1", 1)]);
    let e = EngineInfo { vm_memory_mb: 1000, vm_cpus: 4 };
    let r = d.store.admission(20, Ok(e), None, &spec("b", 300, 2)).unwrap_err();
    let reason = "requested 600MB (300 x 2 replicas); VM has 1000MB, 200MB reserved (20%), 256MB already allocated to [a: 256MB]";
    match r.error {
        HadesError::AdmissionRejected(m) => assert_eq!(m, reason),
        _ => panic!("over the budget"),
    }
    match r.event {
        Some(HostEvent::DeployRejected { app, reason: why }) => {
            assert_eq!((app.as_str(), why.as_str()), ("b", reason))
        }
        _ => panic!("the rejection is told"),
    }
    assert_eq!(r.ledger.allocated_mb, 256);
    // the budget is met exactly
    assert!(d.store.admission(20, Ok(e), None, &spec("b", 544, 1)).is_ok());
    // an app's own allocation is freed
    assert!(d.store.admission(20, Ok(e), None, &spec("a", 800, 1)).is_ok());
    let l = d.store.resource_ledger(20, e, None);
    assert!(admission(&l, &spec("b", 545, 1)).is_err());
}

#[test]
fn without_an_engine_nothing_is_admitted() {
    let d = daemon();
    let r = d.store.admission(20, Err(HadesError::Docker("down".to_string())), None, &spec("b", 1, 1));
    match r.unwrap_err().error {
        HadesError::Docker(m) => assert_eq!(m, "cannot read engine capacity: docker error: down"),
        _ => panic!("no engine"),
    }
}

// --------------------------------------------------------------------------- deploy

/// Deploys an app of two replicas on this host.
fn deployed(d: &mut Daemon, s: AppSpec, ids: [&str; 2]) -> Vec<String> {
    let (mut run, step) = d.deploy(s, false, Some("local"));
    assert!(matches!(step, DeployStep::ReadEngine));
    assert!(matches!(d.deploy_next(&mut run, engine(), NOW), DeployStep::Pull { .. }));
    assert!(matches!(d.deploy_next(&mut run, DeployEvent::Pulled, NOW), DeployStep::Start { .. }));
    let one = DeployEvent::Roll(RollEvent::Started(replica(ids[0], 5001)));
    assert!(matches!(d.deploy_next(&mut run, one, NOW), DeployStep::Start { .. }));
    let two = DeployEvent::Roll(RollEvent::Started(replica(ids[1], 5002)));
    match d.deploy_next(&mut run, two, NOW) {
        DeployStep::Gate(rs) => assert_eq!(rs.len(), 2),
        _ => panic!("readiness is awaited"),
    }
    let gone = match d.deploy_next(&mut run, DeployEvent::Roll(RollEvent::Ready), NOW) {
        DeployStep::Retire(gone) => gone,
        _ => panic!("the new replicas take over"),
    };
    match d.deploy_next(&mut run, DeployEvent::Retired, NOW) {
        DeployStep::Done(done) => {
            assert_eq!(done.response.app.replicas_running, 2);
            assert!(matches!(done.tunnel, TunnelWish::Nothing));
            assert_eq!(
                done.response.tunnel_note,
                Some("cloudflared not installed — local URL only (brew install cloudflared)".to_string())
            );
        }
        _ => panic!("all is done"),
    }
    gone
}

#[test]
fn an_app_is_deployed_and_deployed_again() {
    let mut d = daemon();
    assert!(deployed(&mut d, spec("site", 256, 2), ["c1", "c2"]).is_empty());
    assert_eq!(d.table.lookup("site.localhost"), Some("site".to_string()));
    let first = d.store.get("site").unwrap();
    assert_eq!(first.created_at, NOW);
    let gone = deployed(&mut d, spec("site", 128, 2), ["c3", "c4"]);
    assert_eq!(gone, vec!["c1", "c2"]);
    let again = d.store.get("site").unwrap();
    assert_eq!(again.created_at, first.created_at);
    assert_eq!(again.spec.resources.memory_mb, 128);
    assert_eq!(again.replicas[0].container_id, "c3");
    assert_eq!(again.state, AppState::Running);
}

#[test]
fn apps_are_watched_under_their_keys() {
    let mut d = daemon();
    with_app(&mut d, "site", vec![replica("c1", 1)]);
    let mut rec = d.store.get("site").unwrap();
    rec.spec.name = "other".to_string();
    d.store.put("site", rec);
    let (round, _) = d.supervise_replicas();
    assert_eq!(round.apps[0].name, "site");
    assert_eq!(d.to_sample()[0].name, "site");
    assert_eq!(d.dashboard_apps("mac", &NameMap::new())[0].name, "site");
}

#[test]
fn second_generations_have_other_numbers() {
    let mut d = daemon();
    with_app(&mut d, "site", vec![replica("c1", 1)]);
    let (mut run, _) = d.deploy(spec("site", 256, 1), false, Some(""));
    let _ = d.deploy_next(&mut run, engine(), NOW);
    match d.deploy_next(&mut run, DeployEvent::Pulled, NOW) {
        DeployStep::Start { image, index } => assert_eq!((image.as_str(), index), ("nginx", 100)),
        _ => panic!("a replica is started"),
    }
}

#[test]
fn generations_never_share_a_name() {
    let mut d = daemon();
    let mut numbers = Vec::new();
    for id in ["c1", "c2", "c3"] {
        let (mut run, _) = d.deploy(spec("site", 256, 1), false, Some("local"));
        let _ = d.deploy_next(&mut run, engine(), NOW);
        match d.deploy_next(&mut run, DeployEvent::Pulled, NOW) {
            DeployStep::Start { index, .. } => numbers.push(index),
            _ => panic!("a replica is started"),
        }
        let _ = d.deploy_next(&mut run, DeployEvent::Roll(RollEvent::Started(replica(id, 1))), NOW);
        let _ = d.deploy_next(&mut run, DeployEvent::Roll(RollEvent::Ready), NOW);
        let _ = d.deploy_next(&mut run, DeployEvent::Retired, NOW);
    }
    for id in ["c4", "c5"] {
        let (mut run, step) = d.redeploy_in_place("site").unwrap().unwrap();
        match step {
            RedeployStep::Start { index } => numbers.push(index),
            _ => panic!("a replica is started"),
        }
        let _ = d.redeploy_next(&mut run, RollEvent::Started(replica(id, 1)));
        let _ = d.redeploy_next(&mut run, RollEvent::Ready);
    }
    assert_eq!(numbers, vec![0, 100, 0, 150, 100]);
    assert_eq!(d.store.get("site").unwrap().numbered_from, 100);
}

fn failure(step: DeployStep) -> HadesError {
    match step {
        DeployStep::Failed(f) => f.error,
        DeployStep::Abandon { error, .. } => error,
        _ => panic!("the deploy fails"),
    }
}

#[test]
fn a_failed_deploy_leaves_the_app_as_it_was() {
    let mut d = daemon();
    with_app(&mut d, "site", vec![replica("old", 1)]);
    let (mut run, _) = d.deploy(spec("site", 256, 2), false, Some("local"));
    let _ = d.deploy_next(&mut run, engine(), NOW);
    let _ = d.deploy_next(&mut run, DeployEvent::Pulled, NOW);
    let _ = d.deploy_next(&mut run, DeployEvent::Roll(RollEvent::Started(replica("new", 2))), NOW);
    let bad = DeployEvent::Roll(RollEvent::NotStarted(HadesError::Docker("boom".to_string())));
    match d.deploy_next(&mut run, bad, NOW) {
        DeployStep::Abandon { remove, error } => {
            assert_eq!(remove, vec!["new"]);
            assert_eq!(error.message(), "docker error: boom");
        }
        _ => panic!("what was started is removed"),
    }
    assert_eq!(d.store.get("site").unwrap().replicas[0].container_id, "old");
}

#[test]
fn red_hosts_refuse_deploys() {
    let mut d = daemon();
    d.doctor_green = false;
    d.doctor_failed = vec!["docker".to_string(), "disk".to_string()];
    let (_, step) = d.deploy(spec("a", 1, 1), false, Some("local"));
    match failure(step) {
        HadesError::DoctorRed(m) => {
            assert_eq!(m, "host not ready (docker, disk) — run `hades host doctor`")
        }
        _ => panic!("the host is red"),
    }
}

#[test]
fn refused_deploys() {
    let mut d = daemon();
    let (_, step) = d.deploy(spec("Bad", 1, 1), false, None);
    assert!(matches!(failure(step), HadesError::InvalidSpec(_)));
    let (_, step) = d.deploy(spec("a", 1, 1), false, Some("mars"));
    match failure(step) {
        HadesError::AppNotFound(m) => assert_eq!(m, "no fleet device named 'mars'"),
        _ => panic!("no such device"),
    }
    let mut built = spec("a", 1, 1);
    built.image = None;
    built.build = Some(BuildSpec { dockerfile: "D".to_string(), context: ".".to_string() });
    let (mut run, _) = d.deploy(built.clone(), false, Some("local"));
    match failure(d.deploy_next(&mut run, engine(), NOW)) {
        HadesError::InvalidSpec(m) => {
            assert_eq!(m, "spec has [build] but no context tarball was uploaded")
        }
        _ => panic!("no context"),
    }
    let (mut run, _) = d.deploy(built, true, Some("local"));
    match d.deploy_next(&mut run, engine(), NOW) {
        DeployStep::Build { dockerfile } => assert_eq!(dockerfile, "D"),
        _ => panic!("the image is built"),
    }
    let none = DeployEvent::NoImage(HadesError::Docker("no".to_string()));
    assert!(matches!(failure(d.deploy_next(&mut run, none, NOW)), HadesError::Docker(_)));
    let (mut run, _): (DeployRun, DeployStep) = d.deploy(spec("a", 1, 1), false, Some("local"));
    let none = DeployEvent::NoEngine(HadesError::Docker("no".to_string()));
    assert!(matches!(failure(d.deploy_next(&mut run, none, NOW)), HadesError::Docker(_)));
}

#[test]
fn deploys_go_to_the_device_with_most_room() {
    let mut d = daemon();
    d.store.fleet.join(&device("mini"), NOW).unwrap();
    d.store.fleet.join(&device("studio"), NOW).unwrap();
    poll_one(&mut d.fleet_status, "mini", answer(4000, 3000), NOW);
    poll_one(&mut d.fleet_status, "studio", answer(8000, 1000), NOW);
    assert_eq!(d.store.fleet.choose_device(&d.fleet_status, 500, 900), Some("studio".to_string()));
    assert_eq!(d.store.fleet.choose_device(&d.fleet_status, 500, 7000), None);
    assert_eq!(d.store.fleet.choose_device(&d.fleet_status, 9000, 0), None);

    let (mut run, step) = d.deploy(spec("a", 1, 1), false, Some("mini"));
    match step {
        DeployStep::DeployOn(dev) => assert_eq!(dev, "mini"),
        _ => panic!("it goes to the device"),
    }
    let e = DeployEvent::NotDeployedThere(HadesError::Other("offline".to_string()));
    assert_eq!(failure(d.deploy_next(&mut run, e, NOW)).message(), "offline");
}

#[test]
fn running_apps_are_rolled_in_place() {
    let mut d = daemon();
    with_app(&mut d, "site", vec![replica("old", 1)]);
    let (mut run, step) = d.redeploy_in_place("site").unwrap().unwrap();
    match step {
        RedeployStep::Start { index } => assert_eq!(index, 150),
        _ => panic!("a replica is started"),
    }
    assert!(matches!(
        d.redeploy_next(&mut run, RollEvent::Started(replica("new", 2))),
        RedeployStep::Gate(_)
    ));
    match d.redeploy_next(&mut run, RollEvent::Ready) {
        RedeployStep::Retire(gone) => assert_eq!(gone, vec!["old"]),
        _ => panic!("the old ones leave"),
    }
    assert_eq!(d.store.get("site").unwrap().replicas[0].container_id, "new");
    assert!(matches!(d.redeploy_in_place("none"), Err(HadesError::AppNotFound(_))));
    let _ = d.app_paused("site", PauseReason::Manual);
    assert!(d.redeploy_in_place("site").unwrap().is_none());
    assert_eq!(running_image("site", &spec("site", 1, 1)), "nginx");
}

#[test]
fn readiness_is_awaited_for_every_replica() {
    let health = Some(HealthCheck { path: "/ok".to_string(), interval_secs: 10, timeout_secs: 3 });
    let (mut g, step) = ReadyGate::new(&vec![replica("a", 7), replica("b", 8)], &health);
    assert!(matches!(step, GateStep::ReadClock));
    assert!(matches!(g.next(GateEvent::Clock { late: false }), GateStep::Connect { port: 7 }));
    assert!(matches!(g.next(GateEvent::Connected(false)), GateStep::Rest));
    assert!(matches!(g.next(GateEvent::Rested), GateStep::ReadClock));
    let _ = g.next(GateEvent::Clock { late: false });
    match g.next(GateEvent::Connected(true)) {
        GateStep::Get { url, timeout_secs } => {
            assert_eq!((url.as_str(), timeout_secs), ("http://127.0.0.1:7/ok", 3))
        }
        _ => panic!("the health path is asked"),
    }
    assert!(matches!(g.next(GateEvent::Healthy(true)), GateStep::ReadClock));
    match g.next(GateEvent::Clock { late: true }) {
        GateStep::Shut(HadesError::Other(m)) => assert_eq!(m, "replica on port 8 not ready within 60s"),
        _ => panic!("the time has run out"),
    }
    let (mut g, _) = ReadyGate::new(&vec![replica("a", 7)], &None);
    let _ = g.next(GateEvent::Clock { late: false });
    assert!(matches!(g.next(GateEvent::Connected(true)), GateStep::Open));
}

// -------------------------------------------------------------------- pause, destroy

#[test]
fn pausing_and_resuming() {
    let mut d = daemon();
    with_app(&mut d, "site", vec![replica("c1", 1), replica("c2", 2)]);
    match d.pause_app("site").unwrap() {
        Freeze::Containers(ids) => assert_eq!(ids, vec!["c1", "c2"]),
        _ => panic!("it runs"),
    }
    let told = d.app_paused("site", PauseReason::Manual).unwrap();
    assert_eq!(told.info.state, AppState::Paused);
    assert!(matches!(told.event, HostEvent::AppPaused { .. }));
    assert!(matches!(d.pause_app("site").unwrap(), Freeze::Already(_)));
    assert!(matches!(d.resume_app("site").unwrap(), Freeze::Containers(_)));
    let told = d.app_resumed("site").unwrap();
    assert_eq!(told.info.state, AppState::Running);
    assert!(d.store.get("site").unwrap().paused_reason.is_none());
    assert!(matches!(d.resume_app("site").unwrap(), Freeze::Already(_)));
    assert!(matches!(d.pause_app("none"), Err(HadesError::AppNotFound(_))));
    assert!(matches!(d.app_resumed("none"), Err(HadesError::AppNotFound(_))));
}

#[test]
fn destroyed_apps_leave_no_trace() {
    let mut d = daemon();
    d.config.domain.coordinator_url = Some("https://coord/".to_string());
    with_app(&mut d, "site", vec![replica("c1", 1)]);
    d.store.put_pid("site", 42);
    d.store.put_claim(ClaimRecord {
        app: "site".to_string(),
        name: "blog".to_string(),
        hostname: "blog.example.com".to_string(),
        connector_token: "k".to_string(),
    });
    let gone = d.destroy("site").unwrap();
    assert_eq!(gone.containers, vec!["c1"]);
    assert_eq!(gone.info.state, AppState::Stopped);
    assert_eq!(gone.released.unwrap().delete_url, Some("https://coord/claim/blog".to_string()));
    assert!(!d.store.has_app("site"));
    assert!(d.store.claim_for("site").is_none());
    assert!(d.table.lookup("site.localhost").is_none());
    assert!(d.store.registry.cloudflared.get("site").is_none());
    assert!(matches!(d.destroy("site"), Err(HadesError::AppNotFound(_))));
}

#[test]
fn infos_hide_the_environment() {
    let mut d = daemon();
    let mut s = spec("site", 256, 1);
    s.env.insert("KEY".to_string(), "hush".to_string());
    d.store.put("site", AppRecord::new(s, NOW));
    let info = d.app_info(&d.store.get("site").unwrap());
    assert_eq!(info.spec.env.get("KEY"), Some(&"•••".to_string()));
    assert_eq!(info.local_url, "http://site.localhost:8787");
    assert!(info.url.is_none());
    d.config.domain.name = Some("example.com".to_string());
    assert_eq!(d.app_info(&d.store.get("site").unwrap()).url, Some("https://site.example.com".to_string()));
    let mut secrets = TextMap::new();
    secrets.insert("KEY".to_string(), "over".to_string());
    let launched = spec_with_secrets(&d.store.get("site").unwrap().spec, &secrets);
    assert_eq!(launched.env.get("KEY"), Some(&"over".to_string()));
}

#[test]
fn routes_follow_the_claims() {
    let mut d = daemon();
    with_app(&mut d, "site", vec![replica("c1", 9001)]);
    d.config.domain.coordinator_url = Some("https://coord".to_string());
    let order = d.domain_claim("site", None).unwrap();
    assert_eq!(order.url, "https://coord/claim");
    assert!(!order.release_first);
    assert_eq!(order.proxy_url, "http://localhost:8787");
    let reply = r#"{"hostname":"example.com","connector_token":"k"}"#.to_string();
    let got = d.domain_claimed("site", "@", ClaimReply::Granted(reply)).unwrap();
    assert_eq!(got.claim.hostname, "example.com");
    assert!(got.start_tunnel);
    assert_eq!(d.table.lookup("www.example.com"), Some("site".to_string()));
    assert_eq!(d.table.lookup("example.com"), Some("site".to_string()));
    assert_eq!(d.app_info(&d.store.get("site").unwrap()).url, Some("https://example.com".to_string()));
    assert!(d.domain_claim("site", None).unwrap().release_first);
    let r = d.domain_release("site").unwrap();
    assert_eq!(r.hostname, "example.com");
    assert!(d.table.lookup("example.com").is_none());
    match d.domain_release("site") {
        Err(HadesError::Other(m)) => assert_eq!(m, "site has no claimed domain"),
        _ => panic!("nothing is claimed"),
    }
}

#[test]
fn claims_that_fail() {
    let mut d = daemon();
    assert!(matches!(d.domain_claim("site", None), Err(HadesError::AppNotFound(_))));
    with_app(&mut d, "site", vec![]);
    match d.domain_claim("site", None) {
        Err(HadesError::Other(m)) => {
            assert_eq!(m, "no coordinator configured; set domain.coordinator_url (ask your operator)")
        }
        _ => panic!("no coordinator"),
    }
    let down = d.domain_claim("site", Some(("https://hub".to_string(), Some("s".to_string())))).unwrap();
    assert_eq!((down.url.as_str(), down.secret), ("https://hub/claim", Some("s".to_string())));
    let refused = |d: &mut Daemon, body: &str| {
        match d.domain_claimed("site", "x", ClaimReply::Refused(body.to_string())) {
            Err(HadesError::Other(m)) => m,
            _ => panic!("refused"),
        }
    };
    assert_eq!(refused(&mut d, r#"{"error":"taken"}"#), "claim refused: taken");
    assert_eq!(refused(&mut d, "gateway"), "claim refused: gateway");
    match d.domain_claimed("site", "x", ClaimReply::Granted("{}".to_string())) {
        Err(HadesError::Other(m)) => assert_eq!(m, "coordinator returned an incomplete claim"),
        _ => panic!("incomplete"),
    }
    assert!(d.store.claim_for("site").is_none());
}

// ------------------------------------------------------------------------- reconcile

fn state(running: bool, exit_code: Option<i64>, oom_killed: bool) -> ContainerStateInfo {
    ContainerStateInfo {
        running,
        paused: false,
        oom_killed,
        exit_code,
        status: "exited".to_string(),
    }
}

#[test]
fn restarts_bring_the_desired_state_back() {
    let mut d = daemon();
    with_app(&mut d, "site", vec![replica("c1", 1), replica("c2", 2)]);
    let (mut run, step) = d.reconcile("site").unwrap();
    assert!(matches!(step, ReconStep::Inspect { .. }));
    assert!(matches!(ReconRun::seen(Some(&state(true, None, false))), ReconEvent::Up(true)));
    assert!(matches!(ReconRun::seen(None), ReconEvent::Missing));
    assert!(matches!(run.next(ReconEvent::Up(false)), ReconStep::Restart { .. }));
    assert!(matches!(run.next(ReconEvent::Restarted(true)), ReconStep::Inspect { .. }));
    match run.next(ReconEvent::Missing) {
        ReconStep::Start { image, index } => assert_eq!((image.as_str(), index), ("nginx", 201)),
        _ => panic!("the missing replica is started"),
    }
    assert!(matches!(run.next(ReconEvent::Started(replica("c3", 3))), ReconStep::Finish));
    d.reconciled(&run);
    let rec = d.store.get("site").unwrap();
    assert_eq!(rec.replicas.iter().map(|r| r.container_id.as_str()).collect::<Vec<_>>(), vec!["c1", "c3"]);
    assert!(rec.tunnel_url.is_none());
    assert!(d.reconcile("none").is_none());
}

#[test]
fn paused_apps_stay_paused_over_a_restart() {
    let mut d = daemon();
    with_app(&mut d, "site", vec![replica("c1", 1)]);
    let _ = d.app_paused("site", PauseReason::Manual);
    let (mut run, _) = d.reconcile("site").unwrap();
    let _ = run.next(ReconEvent::Up(true));
    d.reconciled(&run);
    let rec = d.store.get("site").unwrap();
    assert_eq!((rec.state, rec.paused_reason), (AppState::Paused, Some(PauseReason::Manual)));
}

#[test]
fn tunnels_are_watched_and_made_again() {
    let mut d = daemon();
    d.provider = true;
    with_app(&mut d, "site", vec![replica("c1", 1)]);
    assert!(d.ensure_tunnel_task("site"));
    assert!(!d.ensure_tunnel_task("site"));
    let mut t = TunnelTask::new("site");
    assert!(matches!(d.tunnel_next(&mut t, TaskEvent::Round { cancelled: false }), TaskStep::Provision));
    let up = TaskEvent::Up { url: "https://a.trycloudflare.com".to_string(), pid: Some(7), now: at(5) };
    match d.tunnel_next(&mut t, up) {
        TaskStep::Watch(HostEvent::UrlChanged { app, old, new }) => {
            assert_eq!((app.as_str(), old, new.as_str()), ("site", None, "https://a.trycloudflare.com"))
        }
        _ => panic!("the URL is told"),
    }
    assert_eq!(d.table.lookup("a.trycloudflare.com"), Some("site".to_string()));
    assert_eq!(d.store.registry.cloudflared.get("site"), Some(&7));
    match d.tunnel_next(&mut t, TaskEvent::Exited { cancelled: false }) {
        TaskStep::Pause { secs, event } => {
            assert_eq!(secs, 2);
            assert!(matches!(event, Some(HostEvent::TunnelDown { .. })));
        }
        _ => panic!("the tunnel is down"),
    }
    assert!(d.store.registry.cloudflared.get("site").is_none());
    assert!(matches!(d.tunnel_next(&mut t, TaskEvent::Waited), TaskStep::Begin));
    let _ = d.tunnel_next(&mut t, TaskEvent::Round { cancelled: false });
    assert!(matches!(d.tunnel_next(&mut t, TaskEvent::NotUp), TaskStep::Backoff { secs: 30 }));
    assert!(matches!(d.tunnel_next(&mut t, TaskEvent::Cancelled), TaskStep::Stop));
    assert!(d.stop_tunnel_task("site"));
    assert!(!d.stop_tunnel_task("site"));
}

#[test]
fn claim_tunnels_are_run_again() {
    let mut d = daemon();
    let mut t = ClaimTask::new("site");
    assert!(matches!(d.claim_tunnel_next(&mut t, ClaimTaskEvent::Round { cancelled: false }), ClaimTaskStep::Spawn));
    assert!(matches!(d.claim_tunnel_next(&mut t, ClaimTaskEvent::Up { pid: Some(9) }), ClaimTaskStep::Watch));
    assert_eq!(d.store.registry.cloudflared.get("__claim_site"), Some(&9));
    assert!(matches!(d.claim_tunnel_next(&mut t, ClaimTaskEvent::Exited), ClaimTaskStep::Pause { secs: 2 }));
    let _ = d.claim_tunnel_next(&mut t, ClaimTaskEvent::Waited);
    let _ = d.claim_tunnel_next(&mut t, ClaimTaskEvent::Round { cancelled: false });
    assert!(matches!(d.claim_tunnel_next(&mut t, ClaimTaskEvent::NotUp), ClaimTaskStep::Backoff { secs: 15 }));
}

// -------------------------------------------------------------------------- watchdog

#[test]
fn dead_replicas_are_restarted_until_they_loop() {
    let mut d = daemon();
    with_app(&mut d, "site", vec![replica("c1", 1)]);
    for round in 0..3u32 {
        let (mut s, step) = d.supervise_replicas();
        assert!(matches!(step.action, SuperviseAction::Inspect { .. }));
        let found = SuperviseEvent::Found(state(false, Some(137), false));
        let step = d.supervise_next(&mut s, found, at(round as i64 * 10));
        match &step.events[0] {
            HostEvent::AppOomKilled { restarts, memory_mb, .. } => {
                assert_eq!((*restarts, *memory_mb), (round + 1, 256))
            }
            _ => panic!("it ran out of memory"),
        }
        if round < 2 {
            match step.action {
                SuperviseAction::Restart { container, after_secs } => {
                    assert_eq!((container.as_str(), after_secs), ("c1", 2u64.pow(round + 1)))
                }
                _ => panic!("it is restarted"),
            }
            assert!(matches!(
                d.supervise_next(&mut s, SuperviseEvent::Restarted, NOW).action,
                SuperviseAction::Done
            ));
        } else {
            assert!(matches!(step.events[1], HostEvent::AppCrashLoop { restarts: 3, .. }));
            assert!(matches!(step.action, SuperviseAction::Done));
        }
    }
    assert_eq!(d.store.get("site").unwrap().state, AppState::CrashLoop);
    let (_, step) = d.supervise_replicas();
    assert!(matches!(step.action, SuperviseAction::Done));
}

#[test]
fn plain_crashes_are_told_as_such() {
    let mut d = daemon();
    with_app(&mut d, "site", vec![replica("c1", 1), replica("c2", 2)]);
    let (mut s, _) = d.supervise_replicas();
    let step = d.supervise_next(&mut s, SuperviseEvent::Unknown, NOW);
    assert!(matches!(step.action, SuperviseAction::Inspect { .. }));
    let step = d.supervise_next(&mut s, SuperviseEvent::Found(state(false, Some(1), false)), NOW);
    match &step.events[0] {
        HostEvent::AppUnhealthy { detail, .. } => {
            assert_eq!(detail, "container exited (code Some(1)), restarting")
        }
        _ => panic!("it crashed"),
    }
}

#[test]
fn plain_crashes_are_no_strikes() {
    let mut d = daemon();
    with_app(&mut d, "site", vec![replica("c1", 1)]);
    for round in 0..6u32 {
        let (mut s, _) = d.supervise_replicas();
        let found = SuperviseEvent::Found(state(false, Some(1), false));
        let step = d.supervise_next(&mut s, found, at(round as i64));
        match step.action {
            SuperviseAction::Restart { after_secs, .. } => {
                assert_eq!(after_secs, 2u64.pow((round + 1).min(5)))
            }
            _ => panic!("it is restarted"),
        }
    }
    let rec = d.store.get("site").unwrap();
    assert_eq!((rec.state, rec.restarts, rec.oom_times.len()), (AppState::Running, 6, 0));
}

#[test]
fn pressure_is_debounced() {
    let mut d = daemon();
    let mut pending = None;
    assert!(d.pressure_tick(&mut pending, Some(100)).is_none());
    assert_eq!(pending, Some(PressureLevel::Critical));
    match d.pressure_tick(&mut pending, Some(101)) {
        Some(HostEvent::MemoryPressure { level, available_mb }) => {
            assert_eq!((level, available_mb), (PressureLevel::Critical, 101))
        }
        _ => panic!("the pressure held"),
    }
    assert!(d.pressure_tick(&mut pending, None).is_none());
    assert!(d.pressure_tick(&mut pending, Some(4000)).is_none());
    assert!(d.pressure_tick(&mut pending, Some(600)).is_none());
    assert_eq!(pending, Some(PressureLevel::Warn));
    assert_eq!(d.pressure, PressureLevel::Critical);
}

#[test]
fn memory_is_read_from_vm_stat() {
    let raw = "Mach Virtual Memory Statistics: (page size of 16384 bytes)\nPages free:  1000.\nPages active: 7.\nPages inactive:  2000.\nPages speculative: 72.\n";
    assert_eq!(available_memory_mb(0, Some(raw)), Some(3072 * 16384 / (1024 * 1024)));
    assert_eq!(available_memory_mb(5 * 1024 * 1024, Some(raw)), Some(5));
    assert_eq!(available_memory_mb(0, Some("nothing")), None);
    assert_eq!(available_memory_mb(0, None), None);
}

#[test]
fn low_disks_are_told_once() {
    let mut low = false;
    assert!(matches!(disk_tick(&mut low, Some(double(4.0)), double(5.0)), Some(HostEvent::DiskLow { .. })));
    assert!(disk_tick(&mut low, Some(double(3.0)), double(5.0)).is_none());
    assert!(disk_tick(&mut low, None, double(5.0)).is_none());
    assert!(low);
    assert!(disk_tick(&mut low, Some(double(6.0)), double(5.0)).is_none());
    assert!(!low);
    let mut n = 38;
    assert!(!reap_tick(&mut n) && n == 39);
    assert!(reap_tick(&mut n) && n == 0);
}

#[test]
fn only_unexplained_things_are_reaped() {
    let mut d = daemon();
    with_app(&mut d, "site", vec![replica("c1", 1)]);
    let c = |id: &str, app: &str| LabeledContainer {
        id: id.to_string(),
        app: app.to_string(),
        name: "n".to_string(),
        state: "running".to_string(),
    };
    let gone = d.orphan_containers(&vec![c("c1", "site"), c("c2", "site"), c("c3", "ghost")]);
    assert_eq!(gone, vec!["c2", "c3"]);
    d.store.put_pid("site", 1);
    d.store.put_pid("ghost", 2);
    d.store.put_pid("__control", 3);
    assert_eq!(d.orphan_processes(), vec![2]);
    assert!(d.store.registry.cloudflared.get("ghost").is_none());
    assert_eq!(d.store.registry.cloudflared.get("__control"), Some(&3));
    assert_eq!(d.to_sample().len(), 1);
}

// ----------------------------------------------------------------------------- fleet

#[test]
fn joining_again_replaces_the_device() {
    let mut f = FleetFile { devices: vec![], placements: TextMap::new() };
    for bad in ["", "local"] {
        match f.join(&device(bad), NOW) {
            Err(HadesError::InvalidSpec(m)) => {
                assert_eq!(m, "device name must be non-empty and not 'local'")
            }
            _ => panic!("no name for a device"),
        }
    }
    f.join(&device("mini"), NOW).unwrap();
    f.join(&device("studio"), NOW).unwrap();
    let mut again = device("mini");
    again.token = "new".to_string();
    f.join(&again, at(1)).unwrap();
    assert_eq!(f.devices.len(), 2);
    assert_eq!(f.device("mini").unwrap().token, "new");
    assert_eq!(f.device("studio").unwrap().token, "token-studio");
    f.placements.insert("a".to_string(), "mini".to_string());
    assert_eq!(f.placement_of("a"), Some("mini".to_string()));
    f.remove("mini").unwrap();
    assert!(f.device("mini").is_none());
    assert!(f.remove("mini").is_err());
}

#[test]
fn silent_devices_become_unhealthy() {
    let mut statuses = NameMap::new();
    poll(&mut statuses, "mini", answer(4000, 1000), NOW);
    let f = FleetFile {
        devices: vec![FleetDeviceRecord {
            name: "mini".to_string(),
            control_url: "u".to_string(),
            token: "t".to_string(),
            added_at: NOW,
        }],
        placements: TextMap::new(),
    };
    let mut d = daemon();
    d.store.fleet = f;
    d.fleet_status = statuses;
    let v = d.fleet_view(None, NOW);
    assert!(v.devices[1].healthy);
    let _ = poll(&mut d.fleet_status, "mini", None, at(10));
    let v = d.fleet_view(None, at(10));
    assert!(!v.devices[1].healthy);
    assert_eq!(v.devices[1].last_seen, Some(NOW));
    assert_eq!(v.devices[1].free_mb, 3000);
}

#[test]
fn the_hub_is_first_in_its_fleet() {
    let mut d = daemon();
    with_app(&mut d, "site", vec![replica("c1", 9001)]);
    d.control_url = Some("https://hub".to_string());
    let ledger = d.store.resource_ledger(
        25,
        EngineInfo { vm_memory_mb: 8000, vm_cpus: 4 },
        Some(16000),
    );
    let v = d.fleet_view(Some(&ledger), at(5));
    assert_eq!(v.devices.len(), 1);
    let hub = &v.devices[0];
    assert_eq!((hub.name.as_str(), hub.control_url.as_str()), ("local", "https://hub"));
    assert_eq!((hub.vm_memory_mb, hub.allocatable_mb, hub.allocated_mb), (8000, 6000, 256));
    assert_eq!((hub.free_mb, hub.apps, hub.healthy), (5744, 1, true));
    assert_eq!((hub.last_seen, hub.added_at), (Some(at(5)), NOW));
    let bare = d.fleet_view(None, NOW);
    assert_eq!((bare.devices[0].allocatable_mb, bare.devices[0].free_mb), (0, 0));
}

#[test]
fn claims_are_revived_once_and_whole() {
    let mut d = daemon();
    for (app, token) in [("b", "kb"), ("a", "ka")] {
        d.store.put_claim(ClaimRecord {
            app: app.to_string(),
            name: format!("{app}-name"),
            hostname: format!("{app}.example.com"),
            connector_token: token.to_string(),
        });
    }
    let started = d.revive_claims();
    let told: Vec<_> =
        started.iter().map(|c| (c.app.as_str(), c.hostname.as_str(), c.connector_token.as_str())).collect();
    assert_eq!(told, vec![("a", "a.example.com", "ka"), ("b", "b.example.com", "kb")]);
    assert!(d.revive_claims().is_empty());
}

#[test]
fn apps_of_all_devices_are_merged_by_name() {
    let mut d = daemon();
    with_app(&mut d, "m", vec![]);
    let own = d.own_apps();
    let mut there = d.own_apps();
    there[0].name = "a".to_string();
    let all = merged_apps(&own, &vec![DeviceApps { device: "mini".to_string(), apps: there }]);
    assert_eq!(all.iter().map(|a| a.name.as_str()).collect::<Vec<_>>(), vec!["a", "m"]);
    assert_eq!(all[0].device, Some("mini".to_string()));
    assert!(all[1].device.is_none());
}
