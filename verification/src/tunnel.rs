//! cloudflared. By default each app gets a quick tunnel, whose hostname is scraped
//! from cloudflared's output. URLs are cattle: when a tunnel dies it is provisioned
//! again and the URL changes. Named tunnels give stable hostnames on a domain of
//! one's own.
use vstd::prelude::*;

use crate::error::{ErrorView, HadesError};
use crate::json;
use crate::json::{items_of, string_at};
use crate::paths;
use crate::paths::join_path;
use crate::split;
use crate::text;
use crate::text::{dec, has, same, trimmed};
use crate::values;

verus! {

// -------------------------------------------------------------------- the binary

pub open spec fn homebrew_path() -> Seq<char> {
    "/opt/homebrew/bin/cloudflared"@
}

pub open spec fn local_path() -> Seq<char> {
    "/usr/local/bin/cloudflared"@
}

/// The usual places to look in when the shell does not find cloudflared.
pub fn cloudflared_candidates() -> (r: Vec<String>)
    ensures
        split::views(r@) == seq![homebrew_path(), local_path()],
{
    let mut out: Vec<String> = Vec::new();
    out.push("/opt/homebrew/bin/cloudflared".to_owned());
    out.push("/usr/local/bin/cloudflared".to_owned());
    assert(split::views(out@) =~= seq![homebrew_path(), local_path()]);
    out
}

/// Where cloudflared is: what `which` printed, if it found anything, else the first
/// of the usual places that exists.
pub fn find_cloudflared(which: Option<&str>, homebrew: bool, local: bool) -> (r: Option<String>)
    ensures
        values::opt_view(r) == if which is Some && text::trim(which->0@).len() > 0 {
            Some(text::trim(which->0@))
        } else if homebrew {
            Some(homebrew_path())
        } else if local {
            Some(local_path())
        } else {
            None
        },
{
    match which {
        Some(s) => {
            let p = trimmed(s);
            if p.as_str().unicode_len() > 0 {
                return Some(p);
            }
        },
        None => {},
    }
    if homebrew {
        Some("/opt/homebrew/bin/cloudflared".to_owned())
    } else if local {
        Some("/usr/local/bin/cloudflared".to_owned())
    } else {
        None
    }
}

// ------------------------------------------------------------------ quick tunnels

/// May a character stand in the name of a quick tunnel?
pub open spec fn tunnel_char(c: char) -> bool {
    'a' <= c <= 'z' || '0' <= c <= '9' || c == '-'
}

/// Is a text the URL of a quick tunnel?
pub open spec fn is_quick_url(s: Seq<char>) -> bool {
    let head = "https://"@;
    let tail = ".trycloudflare.com"@;
    &&& s.len() > head.len() + tail.len()
    &&& text::starts_with(s, head)
    &&& text::ends_with(s, tail)
    &&& forall|i: int| head.len() <= i < s.len() - tail.len() ==> tunnel_char(#[trigger] s[i])
}

/// Does the URL of a quick tunnel stand in a line, from here to there?
pub open spec fn url_at(line: Seq<char>, from: int, to: int) -> bool {
    0 <= from <= to <= line.len() && is_quick_url(line.subrange(from, to))
}

/// Is this the first URL of a quick tunnel in a line?
pub open spec fn first_url(line: Seq<char>, found: Option<Seq<char>>) -> bool {
    match found {
        Some(url) => exists|from: int, to: int|
            #![trigger url_at(line, from, to)]
            {
                &&& url_at(line, from, to)
                &&& url == line.subrange(from, to)
                &&& forall|i: int, j: int| #[trigger] url_at(line, i, j) ==> from <= i
            },
        None => forall|i: int, j: int| !#[trigger] url_at(line, i, j),
    }
}

/// `regex::Regex::find` with the pattern of a quick tunnel's URL: the leftmost match in a
/// line. The pattern is one that the crate accepts.
#[verifier::external_body]
fn find_first(pattern: &str, line: &str) -> (r: Option<String>)
    requires
        pattern@ == "https://[a-z0-9-]+\\.trycloudflare\\.com"@,
    ensures
        first_url(line@, values::opt_view(r)),
{
    regex::Regex::new(pattern).unwrap().find(line).map(|m| m.as_str().to_string())
}

/// The public URL in a line of cloudflared's output.
pub fn scrape_url(line: &str) -> (r: Option<String>)
    ensures
        first_url(line@, values::opt_view(r)),
{
    find_first("https://[a-z0-9-]+\\.trycloudflare\\.com", line)
}

/// A line holds at most one first URL: what is scraped from it is determined.
pub proof fn one_url_is_first(line: Seq<char>, a: Option<Seq<char>>, b: Option<Seq<char>>)
    requires
        first_url(line, a),
        first_url(line, b),
    ensures
        a == b,
{
    reveal_strlit("https://");
    reveal_strlit(".trycloudflare.com");
    if a is Some && b is Some {
        let (i, j) = choose|from: int, to: int|
            #![trigger url_at(line, from, to)]
            {
                &&& url_at(line, from, to)
                &&& a->0 == line.subrange(from, to)
                &&& forall|k: int, l: int| #[trigger] url_at(line, k, l) ==> from <= k
            };
        let (k, l) = choose|from: int, to: int|
            #![trigger url_at(line, from, to)]
            {
                &&& url_at(line, from, to)
                &&& b->0 == line.subrange(from, to)
                &&& forall|m: int, n: int| #[trigger] url_at(line, m, n) ==> from <= m
            };
        assert(i == k);
        lemma_same_end(line, i, j, l);
        lemma_same_end(line, i, l, j);
    }
}

/// The name of a tunnel ends where the dot follows it.
proof fn lemma_same_end(line: Seq<char>, from: int, j: int, l: int)
    requires
        url_at(line, from, j),
        url_at(line, from, l),
    ensures
        l <= j,
{
    reveal_strlit("https://");
    reveal_strlit(".trycloudflare.com");
    let tail = ".trycloudflare.com"@;
    if j < l {
        let short = line.subrange(from, j);
        let long = line.subrange(from, l);
        let dot = short.len() - tail.len();
        assert(short.skip(dot)[0] == tail[0]);
        assert(short[dot] == '.');
        assert(long[dot] == '.');
        assert(tunnel_char(long[dot]));
    }
}

/// How waiting for a tunnel's URL ended.
#[derive(Debug)]
pub enum Scrape {
    Url(String),
    /// cloudflared exited first.
    Exited,
    TimedOut,
}

#[derive(Debug)]
pub struct QuickTunnelProvider {
    pub binary: String,
}

impl QuickTunnelProvider {
    /// None when cloudflared is not installed: deploys then have local URLs only.
    pub fn detect(cloudflared: Option<String>) -> (r: Option<Self>)
        ensures
            r is Some <==> cloudflared is Some,
            r matches Some(p) ==> p.binary == cloudflared->0,
    {
        match cloudflared {
            Some(binary) => Some(QuickTunnelProvider { binary }),
            None => None,
        }
    }

    /// The target of an app's tunnel: the local proxy.
    pub fn target(local_port: u16) -> (r: String)
        ensures
            r@ == "http://localhost:"@ + text::decimal(local_port as nat),
    {
        "http://localhost:".to_owned().concat(dec(local_port as u64).as_str())
    }

    /// cloudflared's arguments for a quick tunnel to a target.
    pub fn args(target: &str) -> (r: Vec<String>)
        ensures
            split::views(r@) == seq!["tunnel"@, "--no-autoupdate"@, "--url"@, target@],
    {
        let mut out: Vec<String> = Vec::new();
        out.push("tunnel".to_owned());
        out.push("--no-autoupdate".to_owned());
        out.push("--url".to_owned());
        out.push(target.to_owned());
        assert(split::views(out@) =~= seq!["tunnel"@, "--no-autoupdate"@, "--url"@, target@]);
        out
    }

    /// The URL of a new tunnel, or why there is none.
    pub fn provisioned(scrape: Scrape) -> (r: Result<String, HadesError>)
        ensures
            r is Ok <==> scrape is Url,
            r matches Ok(u) ==> u == scrape->Url_0,
            r matches Err(e) ==> e@ == ErrorView::Tunnel(
                if scrape is Exited {
                    "cloudflared exited before assigning a URL"@
                } else {
                    "timed out waiting for trycloudflare URL (45s)"@
                },
            ),
    {
        match scrape {
            Scrape::Url(u) => Ok(u),
            Scrape::Exited => Err(
                HadesError::Tunnel("cloudflared exited before assigning a URL".to_owned()),
            ),
            Scrape::TimedOut => Err(
                HadesError::Tunnel("timed out waiting for trycloudflare URL (45s)".to_owned()),
            ),
        }
    }
}

// ------------------------------------------------------------------ named tunnels

/// A named Cloudflare tunnel: stable hostnames on one's own domain. One process
/// carries everything: `*.<domain>` lands on the proxy, `api.<domain>` on the
/// daemon API.
#[derive(Debug)]
pub struct NamedTunnel {
    pub domain: String,
    pub tunnel: String,
    pub binary: String,
}

/// The id of the first row that has this name, where it has one.
pub open spec fn id_of_name(rows: Seq<Seq<char>>, name: Seq<char>, from: int) -> Option<Seq<char>>
    decreases rows.len() - from,
{
    if from < 0 || from >= rows.len() {
        None
    } else if json::string_found(rows[from], "/name"@) == Some(name) {
        json::string_found(rows[from], "/id"@)
    } else {
        id_of_name(rows, name, from + 1)
    }
}

/// cloudflared's ingress configuration: the daemon's API, the proxy, and a sink.
pub open spec fn ingress_config(
    domain: Seq<char>,
    home: Seq<char>,
    tunnel_id: Seq<char>,
    api_port: nat,
    proxy_port: nat,
) -> Seq<char> {
    "tunnel: "@ + tunnel_id + "\ncredentials-file: "@ + home + "/.cloudflared/"@ + tunnel_id
        + ".json\ningress:\n  - hostname: api."@ + domain + "\n    service: http://localhost:"@
        + text::decimal(api_port) + "\n  - hostname: \"*."@ + domain
        + "\"\n    service: http://localhost:"@ + text::decimal(proxy_port)
        + "\n  - service: http_status:404\n"@
}

impl NamedTunnel {
    /// Some only when cloudflared is installed and has been logged in.
    pub fn detect(
        domain: &str,
        tunnel: &str,
        cert_exists: bool,
        cloudflared: Option<String>,
    ) -> (r: Option<Self>)
        ensures
            r is Some <==> cert_exists && cloudflared is Some,
            r matches Some(t) ==> t.domain@ == domain@ && t.tunnel@ == tunnel@ && t.binary
                == cloudflared->0,
    {
        if !cert_exists {
            return None;
        }
        match cloudflared {
            Some(binary) => Some(
                NamedTunnel { domain: domain.to_owned(), tunnel: tunnel.to_owned(), binary },
            ),
            None => None,
        }
    }

    /// Where cloudflared keeps its certificate.
    pub fn cert_path(home: &str) -> (r: String)
        ensures
            r@ == paths::joined_path(home@, ".cloudflared/cert.pem"@),
    {
        join_path(home, ".cloudflared/cert.pem")
    }

    /// This tunnel's id in cloudflared's listing of tunnels. The listing must be
    /// JSON; one that is no list names no tunnel.
    pub fn find_id(&self, ok: bool, stderr: &str, listing: &str) -> (r: Result<
        Option<String>,
        HadesError,
    >)
        ensures
            r is Ok <==> ok && json::json_fault(listing@) is None,
            r matches Ok(id) ==> values::opt_view(id) == match json::json_items(listing@) {
                Some(rows) => id_of_name(rows, self.tunnel@, 0),
                None => None,
            },
            r matches Err(e) ==> e@ == ErrorView::Tunnel(
                if ok {
                    "bad tunnel list json: "@ + json::json_fault(listing@)->0
                } else {
                    "tunnel list failed: "@ + text::trim(stderr@)
                },
            ),
    {
        if !ok {
            return Err(
                HadesError::Tunnel(
                    "tunnel list failed: ".to_owned().concat(trimmed(stderr).as_str()),
                ),
            );
        }
        match json::fault_of(listing) {
            Some(fault) => {
                return Err(
                    HadesError::Tunnel(
                        "bad tunnel list json: ".to_owned().concat(fault.as_str()),
                    ),
                );
            },
            None => {},
        }
        let rows = match items_of(listing) {
            Some(rows) => rows,
            None => {
                return Ok(None);
            },
        };
        let ghost rv = split::views(rows@);
        let mut i: usize = 0;
        while i < rows.len()
            invariant
                i <= rows.len(),
                rv == split::views(rows@),
                ok,
                json::json_fault(listing@) is None,
                json::json_items(listing@) == Some(rv),
                id_of_name(rv, self.tunnel@, i as int) == id_of_name(rv, self.tunnel@, 0),
            decreases rows.len() - i,
        {
            assert(rv[i as int] == rows@[i as int]@);
            let named = match string_at(rows[i].as_str(), "/name") {
                Some(n) => same(n.as_str(), self.tunnel.as_str()),
                None => false,
            };
            if named {
                return Ok(string_at(rows[i].as_str(), "/id"));
            }
            i += 1;
        }
        Ok(None)
    }

    /// How creating the tunnel went.
    pub fn created(ok: bool, stderr: &str) -> (r: Result<(), HadesError>)
        ensures
            r is Ok <==> ok,
            r matches Err(e) ==> e@ == ErrorView::Tunnel(
                "tunnel create failed: "@ + text::trim(stderr@),
            ),
    {
        if ok {
            Ok(())
        } else {
            Err(
                HadesError::Tunnel(
                    "tunnel create failed: ".to_owned().concat(trimmed(stderr).as_str()),
                ),
            )
        }
    }

    /// The id that a tunnel must have once it has been created.
    pub fn ensure(found: Option<String>) -> (r: Result<String, HadesError>)
        ensures
            r is Ok <==> found is Some,
            r matches Ok(id) ==> id == found->0,
            r matches Err(e) ==> e@ == ErrorView::Tunnel(
                "created tunnel but cannot find its id"@,
            ),
    {
        match found {
            Some(id) => Ok(id),
            None => Err(HadesError::Tunnel("created tunnel but cannot find its id".to_owned())),
        }
    }

    /// Ingress config: api.<domain> to the daemon, *.<domain> to the proxy, 404 sink.
    pub fn write_config(
        &self,
        home: Option<&str>,
        tunnel_id: &str,
        api_port: u16,
        proxy_port: u16,
    ) -> (r: String)
        ensures
            r@ == ingress_config(
                self.domain@,
                match home {
                    Some(h) => h@,
                    None => ""@,
                },
                tunnel_id@,
                api_port as nat,
                proxy_port as nat,
            ),
    {
        let home = match home {
            Some(h) => h,
            None => "",
        };
        "tunnel: ".to_owned().concat(tunnel_id).concat("\ncredentials-file: ").concat(home).concat(
            "/.cloudflared/",
        ).concat(tunnel_id).concat(".json\ningress:\n  - hostname: api.").concat(
            self.domain.as_str(),
        ).concat("\n    service: http://localhost:").concat(dec(api_port as u64).as_str()).concat(
            "\n  - hostname: \"*.",
        ).concat(self.domain.as_str()).concat("\"\n    service: http://localhost:").concat(
            dec(proxy_port as u64).as_str(),
        ).concat("\n  - service: http_status:404\n")
    }

    /// Is cloudflared's complaint about a DNS route only that it is there already?
    pub fn route_exists(stderr: &str) -> (r: bool)
        ensures
            r == (text::contains(stderr@, "already exists"@) || text::contains(
                stderr@,
                "already configured"@,
            )),
    {
        has(stderr, "already exists") || has(stderr, "already configured")
    }
}

/// cloudflared's arguments for a tunnel that is managed by its token.
pub fn token_tunnel_args(token: &str) -> (r: Vec<String>)
    ensures
        split::views(r@) == seq!["tunnel"@, "--no-autoupdate"@, "run"@, "--token"@, token@],
{
    let mut out: Vec<String> = Vec::new();
    out.push("tunnel".to_owned());
    out.push("--no-autoupdate".to_owned());
    out.push("run".to_owned());
    out.push("--token".to_owned());
    out.push(token.to_owned());
    assert(split::views(out@) =~= seq!["tunnel"@, "--no-autoupdate"@, "run"@, "--token"@, token@]);
    out
}

/// A tunnel is found by its name: its id is that of the first row that has the name.
pub proof fn tunnels_are_found_by_name(rows: Seq<Seq<char>>, name: Seq<char>, k: int, from: int)
    requires
        0 <= from <= k < rows.len(),
        json::string_found(rows[k], "/name"@) == Some(name),
        forall|i: int|
            from <= i < k ==> json::string_found(#[trigger] rows[i], "/name"@) != Some(name),
    ensures
        id_of_name(rows, name, from) == json::string_found(rows[k], "/id"@),
    decreases k - from,
{
    if from < k {
        tunnels_are_found_by_name(rows, name, k, from + 1);
    }
}

/// And where no row has the name, there is no such tunnel.
pub proof fn unknown_tunnels_are_not_found(rows: Seq<Seq<char>>, name: Seq<char>, from: int)
    requires
        0 <= from,
        forall|i: int|
            from <= i < rows.len() ==> json::string_found(#[trigger] rows[i], "/name"@) != Some(
                name,
            ),
    ensures
        id_of_name(rows, name, from) is None,
    decreases rows.len() - from,
{
    if from < rows.len() {
        unknown_tunnels_are_not_found(rows, name, from + 1);
    }
}

/// The name api leads to the daemon's port and every other name of the domain to the proxy's,
/// over the tunnel of this id.
pub proof fn ingress_leads_to_daemon_and_proxy(
    domain: Seq<char>,
    home: Seq<char>,
    tunnel_id: Seq<char>,
    api_port: nat,
    proxy_port: nat,
)
    ensures
        ({
            let config = ingress_config(domain, home, tunnel_id, api_port, proxy_port);
            let head = "tunnel: "@ + tunnel_id + "\n"@;
            let api = "api."@ + domain + "\n    service: http://localhost:"@ + text::decimal(api_port)
                + "\n"@;
            let rest = "\"*."@ + domain + "\"\n    service: http://localhost:"@ + text::decimal(
                proxy_port,
            ) + "\n"@;
            &&& config.take(head.len() as int) == head
            &&& exists|i: int| #[trigger] text::stands_at(config, api, i)
            &&& exists|i: int| #[trigger] text::stands_at(config, rest, i)
        }),
{
    reveal_strlit("tunnel: ");
    reveal_strlit("\n");
    reveal_strlit("\ncredentials-file: ");
    reveal_strlit(".json\ningress:\n  - hostname: api.");
    reveal_strlit(".json\ningress:\n  - hostname: ");
    reveal_strlit("api.");
    reveal_strlit("\n  - hostname: \"*.");
    reveal_strlit("\n  - hostname: ");
    reveal_strlit("\"*.");
    reveal_strlit("\n  - service: http_status:404\n");
    reveal_strlit("  - service: http_status:404\n");
    let config = ingress_config(domain, home, tunnel_id, api_port, proxy_port);
    let head = "tunnel: "@ + tunnel_id + "\n"@;
    assert(config.take(head.len() as int) =~= head);
    let api = "api."@ + domain + "\n    service: http://localhost:"@ + text::decimal(api_port)
        + "\n"@;
    let before = "tunnel: "@ + tunnel_id + "\ncredentials-file: "@ + home + "/.cloudflared/"@
        + tunnel_id + ".json\ningress:\n  - hostname: "@;
    assert(config.subrange(before.len() as int, (before.len() + api.len()) as int) =~= api);
    assert(text::stands_at(config, api, before.len() as int));
    let rest = "\"*."@ + domain + "\"\n    service: http://localhost:"@ + text::decimal(proxy_port)
        + "\n"@;
    let upto = before + "api."@ + domain + "\n    service: http://localhost:"@ + text::decimal(
        api_port,
    ) + "\n  - hostname: "@;
    assert(config.subrange(upto.len() as int, (upto.len() + rest.len()) as int) =~= rest);
    assert(text::stands_at(config, rest, upto.len() as int));
}

} // verus!
