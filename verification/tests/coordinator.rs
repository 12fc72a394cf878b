use hades::cloudflare::{ok, CfBody, CfVerb, Cloudflare};
use hades::coordinator::{
    port, valid_name, ClaimEvent, ClaimReq, ClaimRun, ClaimStep, Coordinator, Refusal,
};
use hades::names::NameMap;
use hades::time::Timestamp;

const NOW: Timestamp = Timestamp { secs: 1_000, nanos: 0 };

fn coordinator() -> Coordinator {
    Coordinator {
        domain: "example.com".to_string(),
        secret: Some("s3".to_string()),
        claims: NameMap::new(),
    }
}

fn req(name: &str) -> ClaimReq {
    ClaimReq { name: name.to_string(), proxy_url: None }
}

fn refused(r: Result<ClaimRun, Refusal>) -> (u16, String) {
    match r {
        Err(r) => (r.status, r.message),
        Ok(_) => panic!("the claim should be refused"),
    }
}

#[test]
fn names_must_fit_a_label() {
    assert!(valid_name("@") && valid_name("a") && valid_name("my-app-2"));
    for n in ["", "api", "www", "-a", "a-", "Ab", "a.b", "a_b"] {
        assert!(!valid_name(n), "{n}");
    }
    assert!(valid_name(&"a".repeat(40)));
    assert!(!valid_name(&"a".repeat(41)));
}

#[test]
fn claims_need_the_secret() {
    let c = coordinator();
    assert!(c.check_secret(Some("s3")));
    assert!(!c.check_secret(Some("s4")) && !c.check_secret(None));
    assert_eq!(
        refused(c.claim(None, &req("a"))),
        (401, "bad or missing X-Hades-Secret".to_string())
    );
    let open = Coordinator { secret: None, ..coordinator() };
    assert!(open.check_secret(None));
}

#[test]
fn bad_names_are_refused() {
    assert_eq!(
        refused(coordinator().claim(Some("s3"), &req("api"))),
        (400, "name must be '@' (apex) or lowercase [a-z0-9-], 1–40 chars, not 'api'/'www'".to_string())
    );
}

#[test]
fn a_claim_goes_through_every_stage() {
    let mut c = coordinator();
    let mut run = c.claim(Some("s3"), &req("Blog")).unwrap();
    match run.first_step() {
        ClaimStep::FindDns(h) => assert_eq!(h, "blog.example.com"),
        _ => panic!("the record is looked for first"),
    }
    match run.next(ClaimEvent::Found(false)) {
        ClaimStep::CreateTunnel(n) => assert_eq!(n, "hades-blog"),
        _ => panic!("a tunnel is made"),
    }
    match run.next(ClaimEvent::Tunnel { id: "t1".to_string(), token: "tok".to_string() }) {
        ClaimStep::SetIngress { tunnel_id, hostnames, service } => {
            assert_eq!(tunnel_id, "t1");
            assert_eq!(hostnames, vec!["blog.example.com"]);
            assert_eq!(service, "http://localhost:8787");
        }
        _ => panic!("the tunnel is routed"),
    }
    match run.next(ClaimEvent::Routed) {
        ClaimStep::CreateDns { sub, tunnel_id } => {
            assert_eq!((sub.as_str(), tunnel_id.as_str()), ("blog", "t1"))
        }
        _ => panic!("a record is made"),
    }
    let grant = match run.next(ClaimEvent::Record("d1".to_string())) {
        ClaimStep::Granted(g) => g,
        _ => panic!("the claim is granted"),
    };
    let resp = c.grant(grant, NOW);
    assert_eq!(resp.hostname, "blog.example.com");
    assert_eq!((resp.tunnel_id.as_str(), resp.connector_token.as_str()), ("t1", "tok"));
    assert_eq!(c.list(), vec!["blog.example.com"]);
    assert_eq!(
        refused(c.claim(Some("s3"), &req("blog"))),
        (409, "blog.example.com is already taken".to_string())
    );
    let gone = c.release(Some("s3"), "blog").unwrap();
    assert_eq!(gone.dns_ids, vec!["d1"]);
    assert_eq!(gone.tunnel_id, "t1");
    assert!(c.list().is_empty());
    match c.release(Some("s3"), "blog") {
        Err(r) => assert_eq!((r.status, r.message.as_str()), (404, "no such claim")),
        Ok(_) => panic!("it is gone"),
    }
    match c.release(None, "blog") {
        Err(r) => assert_eq!(r.status, 401),
        Ok(_) => panic!("no secret"),
    }
}

#[test]
fn a_failed_claim_is_undone() {
    let c = coordinator();
    let mut run = c.claim(Some("s3"), &req("@")).unwrap();
    assert!(matches!(run.next(ClaimEvent::Found(false)), ClaimStep::FindDns(_)));
    match run.next(ClaimEvent::Found(false)) {
        ClaimStep::CreateTunnel(n) => assert_eq!(n, "hades-apex"),
        _ => panic!("a tunnel is made"),
    }
    let _ = run.next(ClaimEvent::Tunnel { id: "t1".to_string(), token: "tok".to_string() });
    let _ = run.next(ClaimEvent::Routed);
    match run.next(ClaimEvent::Record("d1".to_string())) {
        ClaimStep::CreateDns { sub, .. } => assert_eq!(sub, "www"),
        _ => panic!("the second record"),
    }
    match run.next(ClaimEvent::Failed("quota".to_string())) {
        ClaimStep::Undo { dns_ids, tunnel_id, refusal } => {
            assert_eq!(dns_ids, vec!["d1"]);
            assert_eq!(tunnel_id, "t1");
            assert_eq!((refusal.status, refusal.message.as_str()), (502, "create dns: quota"));
        }
        _ => panic!("what was made is undone"),
    }
}

#[test]
fn early_failures_leave_nothing_to_undo() {
    let c = coordinator();
    let mut run = c.claim(Some("s3"), &req("a")).unwrap();
    match run.next(ClaimEvent::Found(true)) {
        ClaimStep::Refuse(r) => {
            assert_eq!((r.status, r.message.as_str()), (409, "a.example.com already exists in DNS"))
        }
        _ => panic!("the record exists"),
    }
    let mut run = c.claim(Some("s3"), &req("a")).unwrap();
    match run.next(ClaimEvent::Failed("down".to_string())) {
        ClaimStep::Refuse(r) => assert_eq!((r.status, r.message.as_str()), (502, "cloudflare: down")),
        _ => panic!("cloudflare is down"),
    }
    let mut run = c.claim(Some("s3"), &req("a")).unwrap();
    let _ = run.next(ClaimEvent::Found(false));
    match run.next(ClaimEvent::Failed("quota".to_string())) {
        ClaimStep::Refuse(r) => assert_eq!(r.message, "create tunnel: quota"),
        _ => panic!("no tunnel"),
    }
    let mut run = c.claim(Some("s3"), &req("a")).unwrap();
    let _ = run.next(ClaimEvent::Found(false));
    let _ = run.next(ClaimEvent::Tunnel { id: "t".to_string(), token: "k".to_string() });
    match run.next(ClaimEvent::Failed("no".to_string())) {
        ClaimStep::Undo { dns_ids, tunnel_id, refusal } => {
            assert!(dns_ids.is_empty());
            assert_eq!(tunnel_id, "t");
            assert_eq!(refusal.message, "set ingress: no");
        }
        _ => panic!("the tunnel is deleted"),
    }
}

#[test]
fn replies_of_cloudflare_are_read() {
    assert_eq!(ok(r#"{"success":true,"result":{"id":"x"}}"#).unwrap(), r#"{"id":"x"}"#);
    let e = ok(r#"{"success":false,"errors":[{"message":"a"},{"code":1}]}"#).unwrap_err();
    assert_eq!(e.0, "a; ?");
    assert_eq!(ok(r#"{"success":false}"#).unwrap_err().0, "unknown cloudflare error");
    let zones = r#"{"success":true,"result":[{"id":"z1"},{"id":"z2"}]}"#;
    assert_eq!(Cloudflare::resolve_zone("example.com", zones).unwrap(), "z1");
    let none = r#"{"success":true,"result":[]}"#;
    assert_eq!(
        Cloudflare::resolve_zone("example.com", none).unwrap_err().0,
        "zone example.com not found on this account"
    );
    let t = Cloudflare::tunnel_created(r#"{"success":true,"result":{"id":"t","token":"k"}}"#).unwrap();
    assert_eq!((t.id.as_str(), t.token), ("t", Some("k".to_string())));
    let t = Cloudflare::tunnel_created(r#"{"success":true,"result":{"id":"t"}}"#).unwrap();
    assert!(t.token.is_none());
    assert_eq!(
        Cloudflare::tunnel_created(r#"{"success":true,"result":{}}"#).unwrap_err().0,
        "tunnel create returned no id"
    );
    assert_eq!(Cloudflare::connector_token(r#"{"success":true,"result":"k"}"#).unwrap(), "k");
    assert_eq!(
        Cloudflare::connector_token(r#"{"success":true,"result":1}"#).unwrap_err().0,
        "no connector token"
    );
    assert_eq!(Cloudflare::dns_created(r#"{"success":true,"result":{"id":"d"}}"#).unwrap(), "d");
    assert_eq!(Cloudflare::dns_created(r#"{"success":true,"result":{}}"#).unwrap(), "");
    assert_eq!(Cloudflare::dns_found(zones).unwrap(), Some("z1".to_string()));
    assert_eq!(Cloudflare::dns_found(none).unwrap(), None);
}

#[test]
fn requests_to_cloudflare() {
    let cf = Cloudflare::new("k".to_string(), "acc".to_string(), "zone".to_string());
    let api = "https://api.cloudflare.com/client/v4";
    let r = Cloudflare::zone_request("example.com");
    assert_eq!(r.url, format!("{api}/zones?name=example.com"));
    assert_eq!(r.verb, CfVerb::Get);
    let r = cf.create_tunnel("hades-a");
    assert_eq!((r.verb, r.url), (CfVerb::Post, format!("{api}/accounts/acc/cfd_tunnel")));
    match r.body {
        CfBody::Tunnel { name, config_src } => assert_eq!((name.as_str(), config_src.as_str()), ("hades-a", "cloudflare")),
        _ => panic!("a tunnel"),
    }
    assert_eq!(cf.fetch_token("t").url, format!("{api}/accounts/acc/cfd_tunnel/t/token"));
    let r = cf.set_ingress("t", &vec!["h1".to_string(), "h2".to_string()], "http://p");
    assert_eq!((r.verb, r.url), (CfVerb::Put, format!("{api}/accounts/acc/cfd_tunnel/t/configurations")));
    match r.body {
        CfBody::Ingress(rules) => {
            assert_eq!(rules.len(), 3);
            assert_eq!(rules[0].hostname, Some("h1".to_string()));
            assert_eq!(rules[1].service, "http://p");
            assert_eq!((rules[2].hostname.clone(), rules[2].service.as_str()), (None, "http_status:404"));
        }
        _ => panic!("an ingress"),
    }
    assert_eq!(cf.delete_tunnel("t").verb, CfVerb::Delete);
    match cf.create_dns("www", "t").body {
        CfBody::Record { kind, name, content, proxied } => {
            assert_eq!((kind.as_str(), name.as_str()), ("CNAME", "www"));
            assert_eq!(content, "t.cfargotunnel.com");
            assert!(proxied);
        }
        _ => panic!("a record"),
    }
    assert_eq!(cf.find_dns("a.b").url, format!("{api}/zones/zone/dns_records?name=a.b"));
    assert_eq!(cf.delete_dns("d").url, format!("{api}/zones/zone/dns_records/d"));
}

#[test]
fn ports_of_the_coordinator() {
    assert_eq!(port(None), 8000);
    assert_eq!(port(Some("9000")), 9000);
    assert_eq!(port(Some("70000")), 8000);
}
