use hades::double::Double;
use hades::gateway::{
    goes_to_remote, is_hop_header, next_step, relay_app, relay_keeps_request_header,
    relay_keeps_response_header, relay_served, relay_url, Admission, NextStep,
};
use hades::proxy::{normalize_host, percentiles, AppRoute, Backend, Metrics, RouteTable};

fn local(addr: &str) -> Backend {
    Backend::Local(addr.to_string())
}

fn remote(relay: &str, token: &str) -> Backend {
    Backend::Remote { relay: relay.to_string(), token: token.to_string() }
}

fn ms(v: f64) -> Double {
    Double { bits: v.to_bits() }
}

fn order(t: &mut RouteTable, host: &str) -> Vec<Backend> {
    match t.accept(Some(host), None) {
        Admission::Forward { order, .. } => order,
        _ => panic!("the request should be forwarded"),
    }
}

/// Sends one request along the route, to backends of which some are dead.
fn get(t: &mut RouteTable, alive: &dyn Fn(&Backend) -> bool) -> Option<Backend> {
    let order = order(t, "site.localhost");
    let mut at = 0;
    loop {
        let served = alive(&order[at]);
        match next_step(at, served, order.len()) {
            NextStep::Respond => return Some(order[at].clone()),
            NextStep::Try(n) => at = n,
            NextStep::GiveUp => return None,
        }
    }
}

#[test]
fn round_robin_and_aliases() {
    let mut t = RouteTable::new();
    let b1 = "127.0.0.1:1001";
    let b2 = "127.0.0.1:1002";
    let names = vec!["hello.localhost".to_string()];
    t.set_app("hello", &names, vec![local(b1), local(b2)], None);
    assert!(t.add_alias("hello", "rand.trycloudflare.com:443"));

    assert_eq!(t.lookup("hello.localhost"), Some("hello".to_string()));
    // each call starts at the next index, so two calls cover both backends in
    // alternating lead position
    let first = order(&mut t, "hello.localhost");
    let second = order(&mut t, "hello.localhost");
    assert_eq!(first.len(), 2);
    assert_eq!(second.len(), 2);
    assert_ne!(first[0], second[0]);

    // the alias resolves to the same route
    let via_alias = t.lookup("rand.trycloudflare.com").unwrap();
    assert_eq!(via_alias, "hello");

    // replacing routes drops stale hostnames
    t.set_app("hello", &names, vec![local(b1)], None);
    assert!(t.lookup("rand.trycloudflare.com").is_none());

    t.remove_app("hello");
    assert!(t.lookup("hello.localhost").is_none());
}

#[test]
fn local_backend_lookup_skips_remote() {
    let mut t = RouteTable::new();
    let addr = "127.0.0.1:9000";
    t.set_app(
        "x",
        &vec!["x.localhost".to_string()],
        vec![local(addr), remote("https://api.dev.example.com/_relay/x", "t")],
        Some(2),
    );
    // the relay only ever forwards to a loopback replica
    assert_eq!(t.local_backend("x"), Some(addr.to_string()));
    let s = t.stats("x").unwrap();
    assert_eq!(s.requests_total, 0);
    assert_eq!(s.inflight, 0);
}

#[test]
fn load_balances_across_local_and_remote() {
    let mut t = RouteTable::new();
    let here = local("127.0.0.1:4001");
    let there = remote("http://127.0.0.1:4002/_relay/site", "device-token");
    t.set_app(
        "site",
        &vec!["site.localhost".to_string()],
        vec![here.clone(), there.clone()],
        None,
    );
    let mut served = Vec::new();
    for _ in 0..6 {
        served.push(get(&mut t, &|_| true).unwrap());
    }
    assert!(served.contains(&here), "local replica served some");
    assert!(served.contains(&there), "remote instance served some");
}

#[test]
fn dead_local_backend_falls_through_to_remote() {
    let mut t = RouteTable::new();
    let there = remote("http://127.0.0.1:4002/_relay/site", "t");
    t.set_app(
        "site",
        &vec!["site.localhost".to_string()],
        vec![local("127.0.0.1:4001"), there.clone()],
        None,
    );
    for _ in 0..6 {
        let b = get(&mut t, &|b| matches!(b, Backend::Remote { .. }));
        assert_eq!(b, Some(there.clone()));
    }
    assert_eq!(get(&mut t, &|_| false), None);
}

#[test]
fn requests_at_the_cap_are_shed() {
    let mut t = RouteTable::new();
    let mut m = Metrics { requests: 0, bytes: 0, inflight: 0 };
    t.set_app("a", &vec!["a.localhost".to_string()], vec![local("127.0.0.1:1")], Some(1));
    assert!(matches!(t.accept(Some("a.localhost"), None), Admission::Forward { .. }));
    t.begin("a", 0, &mut m);
    assert_eq!(m.inflight, 1);
    let shed = t.accept(Some("A.LOCALHOST:8787"), None);
    assert!(matches!(shed, Admission::Shed));
    assert_eq!(shed.status(), Some(503));
    assert!(shed.retry_after().is_some());
    t.finish("a", 0, &mut m, ms(12.0));
    assert_eq!(m.inflight, 0);
    let s = t.stats("a").unwrap();
    assert_eq!((s.requests_total, s.inflight, s.shed_total), (1, 0, 1));
    assert_eq!(s.p50_ms, ms(12.0));
    assert!(matches!(t.accept(Some("a.localhost"), None), Admission::Forward { .. }));
}

#[test]
fn late_answers_do_not_count_for_a_new_route() {
    let hosts = vec!["a.localhost".to_string()];
    let mut t = RouteTable::new();
    let mut m = Metrics { requests: 0, bytes: 0, inflight: 0 };
    t.set_app("a", &hosts, vec![local("127.0.0.1:1")], Some(1));
    t.begin("a", 0, &mut m);
    t.remove_app("a");
    t.set_app("a", &hosts, vec![local("127.0.0.1:2")], Some(1));
    t.finish("a", 0, &mut m, ms(7.0));
    assert_eq!(m.inflight, 0);
    let s = t.stats("a").unwrap();
    assert_eq!((s.requests_total, s.inflight, s.p50_ms), (0, 0, ms(0.0)));
    assert!(matches!(
        t.accept(Some("a.localhost"), None),
        Admission::Forward { serial: 1, .. }
    ));
}

#[test]
fn relayed_requests_count_as_load() {
    let mut m = Metrics::default();
    m.relay_begins();
    assert_eq!(m.snapshot(), (1, 0, 1));
    m.relay_ends(512);
    assert_eq!(m.snapshot(), (1, 512, 0));
}

#[test]
fn unknown_hosts_are_not_found() {
    let mut t = RouteTable::new();
    let a = t.accept(Some("nobody.localhost"), None);
    assert!(matches!(a, Admission::NotFound));
    assert_eq!(a.status(), Some(404));
    assert!(matches!(t.accept(None, None), Admission::NotFound));
    t.set_app("e", &vec!["e.localhost".to_string()], vec![], None);
    let none = t.accept(None, Some("e.localhost"));
    assert!(matches!(none, Admission::NoBackend));
    assert_eq!(none.status(), Some(502));
    assert!(!t.add_alias("ghost", "g.localhost"));
    assert_eq!(t.hostnames("e"), vec!["e.localhost".to_string()]);
}

#[test]
fn hosts_are_compared_without_port_and_case() {
    assert_eq!(normalize_host("Hello.Localhost:8787"), "hello.localhost");
    assert_eq!(normalize_host("x"), "x");
}

#[test]
fn replaced_routes_have_the_new_cap() {
    let mut t = RouteTable::new();
    let hosts = vec!["a.localhost".to_string()];
    t.set_app("a", &hosts, vec![local("127.0.0.1:1")], None);
    let before = t.routes.get("a").unwrap().serial;
    t.set_app("a", &hosts, vec![local("127.0.0.1:1")], Some(0));
    assert_eq!(t.routes.get("a").unwrap().serial, before);
    assert!(matches!(t.accept(Some("a.localhost"), None), Admission::Shed));
    t.set_app("a", &hosts, vec![local("127.0.0.1:1")], None);
    assert!(matches!(t.accept(Some("a.localhost"), None), Admission::Forward { .. }));
}

#[test]
fn rounds_visit_every_backend() {
    let mut r = AppRoute::new("a", vec![local("1"), local("2"), local("3")], None);
    let leads: Vec<Backend> = (0..3).map(|_| r.backend_order()[0].clone()).collect();
    for b in ["1", "2", "3"] {
        assert!(leads.contains(&local(b)));
    }
    assert_eq!(r.backend_order().len(), 3);
    assert_eq!(AppRoute::new("a", vec![remote("r", "t")], None).pick_local(), None);
}

#[test]
fn percentiles_are_taken_of_sorted_latencies() {
    let l: Vec<Double> = [30.0, 10.0, 20.0, 40.0].iter().map(|v| ms(*v)).collect();
    let (p50, p95) = percentiles(&l);
    assert_eq!(p50, ms(20.0));
    assert_eq!(p95, ms(30.0));
    assert_eq!(percentiles(&vec![]), (ms(0.0), ms(0.0)));
    let mut r = AppRoute::new("a", vec![], None);
    for i in 0..2000 {
        r.record_latency(ms(i as f64));
    }
    assert!(r.latencies_ms.len() <= 1024);
}

#[test]
fn percentiles_agree_with_floating_point() {
    let mut l: Vec<Double> = Vec::new();
    for n in 1..=1024usize {
        l.push(ms((n - 1) as f64));
        let (p50, p95) = percentiles(&l);
        assert_eq!(p50, ms(((n as f64 - 1.0) * 0.50) as usize as f64));
        assert_eq!(p95, ms(((n as f64 - 1.0) * 0.95) as usize as f64));
    }
}

#[test]
fn served_requests_are_counted() {
    let mut m = Metrics { requests: 0, bytes: 0, inflight: 0 };
    m.served(Some("120"));
    m.served(Some("a lot"));
    m.served(None);
    assert_eq!(m.snapshot(), (3, 120, 0));
}

#[test]
fn headers_of_one_hop_stay_behind() {
    assert!(is_hop_header("Connection"));
    assert!(is_hop_header("transfer-encoding"));
    assert!(!is_hop_header("content-type"));
    assert!(goes_to_remote("accept"));
    assert!(!goes_to_remote("Authorization"));
    assert!(!relay_keeps_request_header("AUTHORIZATION"));
    assert!(!relay_keeps_request_header("host"));
    assert!(relay_keeps_request_header("cookie"));
    assert!(!relay_keeps_response_header("content-length"));
    assert!(relay_keeps_response_header("authorization"));
}

#[test]
fn relays_strip_their_prefix() {
    assert_eq!(relay_app("site/a/b"), "site");
    assert_eq!(relay_app("site"), "site");
    assert_eq!(
        relay_url("127.0.0.1:9", "site", Some("/_relay/site/a?b=1")),
        "http://127.0.0.1:9/a?b=1"
    );
    assert_eq!(relay_url("127.0.0.1:9", "site", Some("/_relay/site")), "http://127.0.0.1:9/");
    assert_eq!(relay_url("127.0.0.1:9", "site", None), "http://127.0.0.1:9/");
    assert!(relay_served(Some(200)) && relay_served(Some(500)));
    assert!(!relay_served(Some(502)) && !relay_served(Some(503)) && !relay_served(None));
    assert_eq!(local("127.0.0.1:9").url("/a"), "http://127.0.0.1:9/a");
    assert_eq!(remote("https://h/_relay/x", "t").url("/a"), "https://h/_relay/x/a");
}
