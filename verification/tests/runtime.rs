use hades::app_spec::{AppSpec, OnBattery, PowerPolicy, Priority, Resources};
use hades::double::Double;
use hades::error::HadesError;
use hades::json::{flag_at, items_at, string_at};
use hades::maps::TextMap;
use hades::runtime::{
    build_context, build_step, context_of, BuildStep, Runtime, LABEL_APP, LABEL_REPLICA,
};
use hades::tunnel::{
    cloudflared_candidates, find_cloudflared, scrape_url, token_tunnel_args, NamedTunnel,
    QuickTunnelProvider, Scrape,
};

fn spec() -> AppSpec {
    let mut env = TextMap::new();
    env.insert("B".to_string(), "2".to_string());
    env.insert("A".to_string(), "1".to_string());
    AppSpec {
        name: "site".to_string(),
        image: Some("nginx".to_string()),
        build: None,
        base: None,
        resources: Resources { cpu: Double { bits: 0.5f64.to_bits() }, memory_mb: 256, disk_mb: None },
        ports: vec![8000, 9000],
        env,
        health_check: None,
        replicas: 1,
        priority: Priority::Normal,
        power: PowerPolicy { on_battery: OnBattery::Run },
        max_concurrent_requests: None,
    }
}

#[test]
fn replicas_are_planned_with_hard_limits() {
    let p = Runtime::run_replica(&spec(), "hades/site:latest", 3, 50123);
    assert_eq!(p.name, "hades-site-3");
    assert_eq!(p.image, "hades/site:latest");
    assert_eq!((p.app_label.as_str(), p.replica_label.as_str()), ("site", "3"));
    assert_eq!((p.published_port.as_str(), p.host_port.as_str()), ("8000/tcp", "50123"));
    assert_eq!(p.exposed_ports, vec!["8000/tcp", "9000/tcp"]);
    assert_eq!(p.env, vec!["A=1", "B=2"]);
    assert_eq!(p.memory_bytes, 256 * 1024 * 1024);
    assert_eq!((LABEL_APP, LABEL_REPLICA), ("hades.app", "hades.replica"));
}

#[test]
fn names_of_images_and_containers() {
    assert_eq!(Runtime::image_tag("site"), "hades/site:latest");
    assert_eq!(Runtime::container_name("site", 0), "hades-site-0");
    assert_ne!(Runtime::container_name("site", 1), Runtime::container_name("site", 11));
}

#[test]
fn engines_are_measured_in_megabytes() {
    let e = Runtime::engine_info(Some(8 * 1024 * 1024 * 1024 + 5), Some(6));
    assert_eq!((e.vm_memory_mb, e.vm_cpus), (8192, 6));
    let n = Runtime::engine_info(None, None);
    assert_eq!((n.vm_memory_mb, n.vm_cpus), (0, 0));
    assert_eq!(Runtime::engine_info(Some(-1), None).vm_memory_mb, 0);
}

#[test]
fn containers_that_are_gone_count_as_removed() {
    assert!(Runtime::removal(None, None).is_ok());
    assert!(Runtime::removal(Some("no such container".to_string()), Some(404)).is_ok());
    match Runtime::removal(Some("busy".to_string()), Some(500)) {
        Err(HadesError::Docker(m)) => assert_eq!(m, "busy"),
        _ => panic!("the removal failed"),
    }
}

#[test]
fn states_have_defaults() {
    let s = Runtime::inspect_state(None, None, None, None, None);
    assert!(!s.running && !s.paused && !s.oom_killed);
    assert_eq!(s.status, "unknown");
    let s = Runtime::inspect_state(Some(true), None, Some(true), Some(137), Some("exited".to_string()));
    assert!(s.running && s.oom_killed);
    assert_eq!((s.exit_code, s.status.as_str()), (Some(137), "exited"));
    let l = Runtime::labeled(
        Some("id".to_string()),
        None,
        Some("/hades-site-0".to_string()),
        Some("running".to_string()),
    );
    assert_eq!((l.id.as_str(), l.app.as_str(), l.name.as_str()), ("id", "", "hades-site-0"));
}

#[test]
fn builds_are_told_line_by_line() {
    match build_step(Some("no space"), Some("x")) {
        BuildStep::Failed(HadesError::Docker(m)) => assert_eq!(m, "build failed: no space"),
        _ => panic!("the build failed"),
    }
    match build_step(None, Some("Step 1\n")) {
        BuildStep::Show(s) => assert_eq!(s, "Step 1"),
        _ => panic!("a line"),
    }
    assert!(matches!(build_step(None, Some("\n")), BuildStep::Nothing));
    assert!(matches!(build_step(None, None), BuildStep::Nothing));
}

#[test]
fn contexts_are_unpacked() {
    let mut enc = flate2::write::GzEncoder::new(Vec::new(), flate2::Compression::default());
    std::io::Write::write_all(&mut enc, b"a tarball").unwrap();
    let packed = enc.finish().unwrap();
    assert_eq!(build_context(&packed).unwrap(), b"a tarball".to_vec());
    match build_context(&b"this is no gzip".to_vec()) {
        Err(HadesError::Docker(m)) => assert_eq!(m, "bad build context: invalid gzip header"),
        _ => panic!("no context"),
    }
    assert_eq!(context_of(Ok(vec![1])).unwrap(), vec![1]);
    match context_of(Err("why".to_string())) {
        Err(HadesError::Docker(m)) => assert_eq!(m, "bad build context: why"),
        _ => panic!("no context"),
    }
}

#[test]
fn cloudflared_is_looked_for_in_order() {
    assert_eq!(find_cloudflared(Some("/usr/bin/cloudflared\n"), true, true), Some("/usr/bin/cloudflared".to_string()));
    assert_eq!(find_cloudflared(Some(" \n"), true, true), Some("/opt/homebrew/bin/cloudflared".to_string()));
    assert_eq!(find_cloudflared(None, false, true), Some("/usr/local/bin/cloudflared".to_string()));
    assert_eq!(find_cloudflared(None, false, false), None);
    assert_eq!(cloudflared_candidates().len(), 2);
}

#[test]
fn the_first_url_of_a_line_is_scraped() {
    let line = "INF |  https://warm-grape-7.trycloudflare.com   see https://b.trycloudflare.com";
    assert_eq!(scrape_url(line), Some("https://warm-grape-7.trycloudflare.com".to_string()));
    assert_eq!(scrape_url("https://api.trycloudflare.com/x"), Some("https://api.trycloudflare.com".to_string()));
    assert_eq!(scrape_url("https://.trycloudflare.com"), None);
    assert_eq!(scrape_url("https://UPPER.trycloudflare.com"), None);
    assert_eq!(scrape_url("http://a.trycloudflare.com"), None);
    assert_eq!(
        scrape_url("https://https://a.trycloudflare.com"),
        Some("https://a.trycloudflare.com".to_string())
    );
}

#[test]
fn quick_tunnels_are_provisioned_or_not() {
    assert_eq!(QuickTunnelProvider::target(8787), "http://localhost:8787");
    assert_eq!(
        QuickTunnelProvider::args("http://localhost:1"),
        vec!["tunnel", "--no-autoupdate", "--url", "http://localhost:1"]
    );
    assert!(QuickTunnelProvider::detect(None).is_none());
    assert_eq!(QuickTunnelProvider::provisioned(Scrape::Url("u".to_string())).unwrap(), "u");
    match QuickTunnelProvider::provisioned(Scrape::Exited) {
        Err(HadesError::Tunnel(m)) => assert_eq!(m, "cloudflared exited before assigning a URL"),
        _ => panic!("it exited"),
    }
    match QuickTunnelProvider::provisioned(Scrape::TimedOut) {
        Err(HadesError::Tunnel(m)) => assert_eq!(m, "timed out waiting for trycloudflare URL (45s)"),
        _ => panic!("it timed out"),
    }
}

fn named() -> NamedTunnel {
    NamedTunnel::detect("example.com", "hades", true, Some("/bin/cloudflared".to_string())).unwrap()
}

#[test]
fn named_tunnels_are_found_by_name() {
    let listing = r#"[{"id":"1","name":"other"},{"id":"2","name":"hades"}]"#;
    assert_eq!(named().find_id(true, "", listing).unwrap(), Some("2".to_string()));
    assert_eq!(named().find_id(true, "", "[]").unwrap(), None);
    assert_eq!(named().find_id(true, "", "{}").unwrap(), None);
    match named().find_id(true, "", "nonsense") {
        Err(HadesError::Tunnel(m)) => assert_eq!(m, "bad tunnel list json: expected ident at line 1 column 2"),
        _ => panic!("no listing"),
    }
    match named().find_id(false, " not logged in\n", "") {
        Err(HadesError::Tunnel(m)) => assert_eq!(m, "tunnel list failed: not logged in"),
        _ => panic!("no listing"),
    }
    assert!(NamedTunnel::detect("d", "t", false, Some("/b".to_string())).is_none());
    assert!(NamedTunnel::detect("d", "t", true, None).is_none());
}

#[test]
fn named_tunnels_are_made_once() {
    assert!(NamedTunnel::created(true, "").is_ok());
    match NamedTunnel::created(false, "taken\n") {
        Err(HadesError::Tunnel(m)) => assert_eq!(m, "tunnel create failed: taken"),
        _ => panic!("it was not created"),
    }
    assert_eq!(NamedTunnel::ensure(Some("7".to_string())).unwrap(), "7");
    match NamedTunnel::ensure(None) {
        Err(HadesError::Tunnel(m)) => assert_eq!(m, "created tunnel but cannot find its id"),
        _ => panic!("it is not there"),
    }
    assert!(NamedTunnel::route_exists("record already exists"));
    assert!(NamedTunnel::route_exists("host already configured"));
    assert!(!NamedTunnel::route_exists("denied"));
}

#[test]
fn the_ingress_covers_the_domain() {
    assert_eq!(
        named().write_config(Some("/Users/me"), "id1", 8786, 8787),
        "tunnel: id1\ncredentials-file: /Users/me/.cloudflared/id1.json\ningress:\n  - hostname: api.example.com\n    service: http://localhost:8786\n  - hostname: \"*.example.com\"\n    service: http://localhost:8787\n  - service: http_status:404\n"
    );
    assert_eq!(NamedTunnel::cert_path("/Users/me"), "/Users/me/.cloudflared/cert.pem");
    assert_eq!(token_tunnel_args("tok"), vec!["tunnel", "--no-autoupdate", "run", "--token", "tok"]);
}

#[test]
fn json_is_read_by_pointer() {
    let doc = r#"{"a":{"b":["x\n",2]},"on":true,"one":1}"#;
    assert_eq!(string_at(doc, "/a/b/0"), Some("x\n".to_string()));
    assert_eq!(string_at(doc, "/a/b/1"), None);
    assert_eq!(string_at("{", "/a"), None);
    assert!(flag_at(doc, "/on"));
    assert!(!flag_at(doc, "/one"));
    assert_eq!(items_at(doc, "/a/b"), Some(vec!["\"x\\n\"".to_string(), "2".to_string()]));
    assert_eq!(items_at(doc, "/a"), None);
}
