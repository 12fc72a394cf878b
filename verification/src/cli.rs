//! What the command line decides: which host a command talks to and with what token,
//! what is asked for and what is told, and how a command ends. Exit codes are stable.
use vstd::prelude::*;

use crate::app_spec::{AppSpec, Manifest};
use crate::client;
use crate::client::DaemonClient;
use crate::config::{FleetConfigView, HadesConfig, HadesConfigView, DomainConfigView};
use crate::error::{ErrorView, HadesError};
use crate::json;
use crate::json::{flag_at, members_of, string_at, value_at};
use crate::maps;
use crate::maps::TextMap;
use crate::render;
use crate::render::fleet;
use crate::split;
use crate::split::join;
use crate::text;
use crate::text::{
    chars_of, dec, same, string_of, text_after, text_before, to_lower, trim_leading, trimmed,
};
use crate::time::Timestamp;
use crate::types::{
    AppInfo, FleetDeviceViewView, FleetView, JoinRequest, JoinRequestView, SecretsUpdate,
};
use crate::values;
use crate::values::clone_opt;

verus! {

// ----------------------------------------------------------------------------- sessions

/// Which host commands talk to, written by a login.
#[derive(Debug)]
pub struct Session {
    pub host: String,
    pub token: Option<String>,
    pub logged_in_at: Timestamp,
    pub daemon_version: String,
}

/// The contents of a `Session`.
pub struct SessionView {
    pub host: Seq<char>,
    pub token: Option<Seq<char>>,
    pub logged_in_at: Timestamp,
    pub daemon_version: Seq<char>,
}

impl View for Session {
    type V = SessionView;

    open spec fn view(&self) -> SessionView {
        SessionView {
            host: self.host@,
            token: values::opt_view(self.token),
            logged_in_at: self.logged_in_at,
            daemon_version: self.daemon_version@,
        }
    }
}

impl Clone for Session {
    fn clone(&self) -> (r: Self)
        ensures
            r@ == self@,
    {
        Session {
            host: self.host.clone(),
            token: clone_opt(&self.token),
            logged_in_at: self.logged_in_at,
            daemon_version: self.daemon_version.clone(),
        }
    }
}

/// The address of this machine's daemon.
pub open spec fn local_host(api_port: u16) -> Seq<char> {
    "127.0.0.1:"@ + text::decimal(api_port as nat)
}

fn local_address(api_port: u16) -> (r: String)
    ensures
        r@ == local_host(api_port),
{
    "127.0.0.1:".to_owned().concat(dec(api_port as u64).as_str())
}

/// Whom a command's client talks to, and with which token.
pub open spec fn talks_to(
    session: Option<SessionView>,
    config: HadesConfigView,
    r: DaemonClient,
) -> bool {
    match session {
        Some(s) => r.base@ == client::base_of(s.host) && values::opt_view(r.token) == s.token,
        None => r.base@ == client::base_of(local_host(config.api_port)) && values::opt_view(r.token)
            == config.auth_token,
    }
}

/// The client for a command: the session decides; without one it is the local daemon,
/// with the token of the local configuration.
pub fn client_for(session: Option<&Session>, config: &HadesConfig) -> (r: DaemonClient)
    ensures
        talks_to(
            match session {
                Some(s) => Some(s@),
                None => None,
            },
            config@,
            r,
        ),
{
    match session {
        Some(s) => DaemonClient::for_host(s.host.as_str(), clone_opt(&s.token)),
        None => DaemonClient::for_host(
            local_address(config.api_port).as_str(),
            clone_opt(&config.auth_token),
        ),
    }
}

/// The client for this machine's own daemon.
pub fn local_client(config: &HadesConfig) -> (r: DaemonClient)
    ensures
        r.base@ == client::base_of(local_host(config@.api_port)),
        values::opt_view(r.token) == config@.auth_token,
{
    client_for(None, config)
}

/// A host to log in to.
#[derive(Debug)]
pub struct LoginPlan {
    pub host: String,
    pub token: Option<String>,
}

/// The token that was given: `-` takes it from a line of input, so that it stays out of
/// the shell's history.
pub open spec fn given_token(token: Option<Seq<char>>, line: Seq<char>) -> Option<Seq<char>> {
    match token {
        Some(t) => if t == "-"@ {
            if text::trim(line).len() > 0 {
                Some(text::trim(line))
            } else {
                None
            }
        } else {
            Some(t)
        },
        None => None,
    }
}

/// Local logins read the token straight off the machine; remote ones must present it.
pub open spec fn login_token(
    host: Option<Seq<char>>,
    token: Option<Seq<char>>,
    line: Seq<char>,
    own: Option<Seq<char>>,
) -> Option<Seq<char>> {
    match given_token(token, line) {
        Some(t) => Some(t),
        None => if host is Some {
            None
        } else {
            own
        },
    }
}

pub open spec fn opt_str(o: Option<&str>) -> Option<Seq<char>> {
    match o {
        Some(s) => Some(s@),
        None => None,
    }
}

pub fn login(host: Option<&str>, token: Option<&str>, line: &str, config: &HadesConfig) -> (r: Result<
    LoginPlan,
    HadesError,
>)
    ensures
        ({
            let t = login_token(opt_str(host), opt_str(token), line@, config@.auth_token);
            &&& r is Err <==> host is Some && t is None
            &&& r matches Ok(p) ==> values::opt_view(p.token) == t && p.host@ == match host {
                Some(h) => h@,
                None => local_host(config@.api_port),
            }
            &&& r matches Err(e) ==> e@ == ErrorView::Unauthorized(
                "remote hosts need --token (run `hades host connect-info` on the host)"@,
            )
        }),
{
    let given = match token {
        Some(t) => if same(t, "-") {
            let l = trimmed(line);
            if l.as_str().unicode_len() > 0 {
                Some(l)
            } else {
                None
            }
        } else {
            Some(t.to_owned())
        },
        None => None,
    };
    let token = match given {
        Some(t) => Some(t),
        None => if host.is_some() {
            None
        } else {
            clone_opt(&config.auth_token)
        },
    };
    if host.is_some() && token.is_none() {
        return Err(
            HadesError::Unauthorized(
                "remote hosts need --token (run `hades host connect-info` on the host)".to_owned(),
            ),
        );
    }
    let host = match host {
        Some(h) => h.to_owned(),
        None => local_address(config.api_port),
    };
    Ok(LoginPlan { host, token })
}

/// There is no daemon at a host.
pub fn nobody_home(host: &str) -> (r: HadesError)
    ensures
        r@ == ErrorView::DaemonUnreachable(
            "no hadesd at "@ + host@ + "; run the install script or `hades host init` first"@,
        ),
{
    HadesError::DaemonUnreachable(
        "no hadesd at ".to_owned().concat(host).concat(
            "; run the install script or `hades host init` first",
        ),
    )
}

/// The exit code of a command that looked at the doctor.
pub fn doctor_exit(green: bool) -> (r: u8)
    ensures
        r == if green {
            0u8
        } else {
            2u8
        },
{
    if green {
        0
    } else {
        2
    }
}

/// What is told of an error, and the exit code.
#[derive(Debug)]
pub struct Failure {
    pub lines: Vec<String>,
    pub exit_code: u8,
}

pub open spec fn failure_page(e: ErrorView) -> Seq<Seq<char>> {
    let first = seq!["error: "@ + e.message()];
    if e is DaemonUnreachable {
        first.push("hint: is hadesd running? `hades host init` sets it up."@)
    } else {
        first
    }
}

pub fn fail(e: &HadesError) -> (r: Failure)
    ensures
        split::views(r.lines@) == failure_page(e@),
        r.exit_code as i32 == e@.exit_code(),
{
    let mut page: Vec<String> = Vec::new();
    page.push("error: ".to_owned().concat(e.message().as_str()));
    match e {
        HadesError::DaemonUnreachable(_) => {
            page.push("hint: is hadesd running? `hades host init` sets it up.".to_owned());
        },
        _ => {},
    }
    assert(split::views(page@) =~= failure_page(e@));
    Failure { lines: page, exit_code: e.exit_code() as u8 }
}

pub open spec fn ready_of(green: bool) -> Seq<char> {
    if green {
        "GREEN · ready for deploys"@
    } else {
        "RED · run `hades host doctor` for remedies"@
    }
}

fn ready_str(green: bool) -> (r: &'static str)
    ensures
        r@ == ready_of(green),
{
    if green {
        "GREEN · ready for deploys"
    } else {
        "RED · run `hades host doctor` for remedies"
    }
}

/// The welcome after a login.
pub open spec fn login_page(
    host: Seq<char>,
    version: Seq<char>,
    green: bool,
    allocatable_mb: u64,
    allocated_mb: u64,
    apps: usize,
    control_url: Option<Seq<char>>,
) -> Seq<Seq<char>> {
    let head = seq![
        ""@,
        "  ⚖ you have entered the underworld"@,
        ""@,
        "  host      "@ + host + " · hadesd v"@ + version,
        "  doctor    "@ + ready_of(green),
        "  capacity  "@ + text::decimal(allocatable_mb as nat) + "MB allocatable · "@
            + text::decimal(allocated_mb as nat) + "MB claimed · "@ + text::decimal(apps as nat)
            + " apps"@,
    ];
    let remote = match control_url {
        Some(u) => head.push(
            "  remote    "@ + u + " (use `hades host connect-info` for the full command)"@,
        ),
        None => head,
    };
    remote + seq![
        ""@,
        "  next:"@,
        "    hades init        scaffold a Hades.toml in your project"@,
        "    hades deploy      ship it; returns a link"@,
        "    hades host status the one-screen truth"@,
        ""@,
    ]
}

pub fn login_lines(
    host: &str,
    version: &str,
    green: bool,
    allocatable_mb: u64,
    allocated_mb: u64,
    apps: usize,
    control_url: Option<&str>,
) -> (r: Vec<String>)
    ensures
        split::views(r@) == login_page(
            host@,
            version@,
            green,
            allocatable_mb,
            allocated_mb,
            apps,
            opt_str(control_url),
        ),
{
    let mut page: Vec<String> = Vec::new();
    page.push("".to_owned());
    page.push("  ⚖ you have entered the underworld".to_owned());
    page.push("".to_owned());
    page.push("  host      ".to_owned().concat(host).concat(" · hadesd v").concat(version));
    page.push("  doctor    ".to_owned().concat(ready_str(green)));
    page.push(
        "  capacity  ".to_owned().concat(dec(allocatable_mb as u64).as_str())
            .concat("MB allocatable · ").concat(dec(allocated_mb as u64).as_str())
            .concat("MB claimed · ").concat(dec(apps as u64).as_str()).concat(" apps"),
    );
    match control_url {
        Some(u) => {
            page.push(
                "  remote    ".to_owned().concat(u).concat(
                    " (use `hades host connect-info` for the full command)",
                ),
            );
        },
        None => {},
    }
    page.push("".to_owned());
    page.push("  next:".to_owned());
    page.push("    hades init        scaffold a Hades.toml in your project".to_owned());
    page.push("    hades deploy      ship it; returns a link".to_owned());
    page.push("    hades host status the one-screen truth".to_owned());
    page.push("".to_owned());
    assert(split::views(page@) =~= login_page(
        host@,
        version@,
        green,
        allocatable_mb,
        allocated_mb,
        apps,
        opt_str(control_url),
    ));
    page
}

// -------------------------------------------------------------------------------- hosts

/// Where the dashboard is opened. The token rides in the fragment, which browsers never
/// send to a server, so that it stays on this machine.
pub fn dashboard_url(config: &HadesConfig) -> (r: String)
    ensures
        r@ == "http://127.0.0.1:"@ + text::decimal(config@.api_port as nat) + "/dashboard#"@ + (
        match config@.auth_token {
            Some(t) => t,
            None => ""@,
        }),
{
    let token = match &config.auth_token {
        Some(t) => t.clone(),
        None => "".to_owned(),
    };
    "http://127.0.0.1:".to_owned().concat(dec(config.api_port as u64).as_str()).concat(
        "/dashboard#",
    ).concat(token.as_str())
}

/// An app's current public URL on a line.
pub fn url_line(info: &AppInfo) -> (r: String)
    ensures
        r@ == match info@.url {
            Some(u) => u,
            None => info@.local_url + " (no public URL, local only)"@,
        },
{
    match &info.url {
        Some(u) => u.clone(),
        None => info.local_url.clone().concat(" (no public URL, local only)"),
    }
}

/// Where a test push arrived.
pub fn notify_line(delivered_to: &Vec<String>) -> (r: String)
    ensures
        r@ == if delivered_to@.len() == 0 {
            "no channels delivered; run `hades host init` to configure ntfy"@
        } else {
            "delivered to: "@ + split::joined(split::views(delivered_to@), ", "@)
        },
{
    if delivered_to.len() == 0 {
        "no channels delivered; run `hades host init` to configure ntfy".to_owned()
    } else {
        "delivered to: ".to_owned().concat(join(delivered_to, ", ").as_str())
    }
}

/// The configuration of a host on a domain of its own. cloudflared must have been
/// authorized first.
pub fn domain_config(config: &HadesConfig, domain: &str, tunnel: &str, cert_present: bool) -> (r: Result<
    HadesConfig,
    HadesError,
>)
    ensures
        r is Ok <==> cert_present,
        r matches Ok(c) ==> c@ == (HadesConfigView {
            domain: DomainConfigView {
                name: Some(domain@),
                tunnel_name: Some(tunnel@),
                ..config@.domain
            },
            ..config@
        }),
        r matches Err(e) ==> e@ == ErrorView::Other(
            "first authorize cloudflared with your domain:\n    cloudflared tunnel login\nthen re-run this command"@,
        ),
{
    if !cert_present {
        return Err(
            HadesError::Other(
                "first authorize cloudflared with your domain:\n    cloudflared tunnel login\nthen re-run this command".to_owned(),
            ),
        );
    }
    let mut c = config.clone();
    c.domain.name = Some(domain.to_owned());
    c.domain.tunnel_name = Some(tunnel.to_owned());
    Ok(c)
}

/// A host that is on a domain of its own.
pub open spec fn domain_page(domain: Seq<char>) -> Seq<Seq<char>> {
    seq![
        ""@,
        "  ⚖ this host is now "@ + domain,
        ""@,
        "    apps     https://<app>."@ + domain,
        "    api      https://api."@ + domain,
        ""@,
        "  add a wildcard CNAME at your DNS so new apps resolve:"@,
        "    *."@ + domain + "   →   (cloudflared creates per-app records too)"@,
        ""@,
        "  the daemon is restarting onto the named tunnel."@,
        "  re-run `hades host connect-info` for the stable join line."@,
    ]
}

pub fn domain_lines(domain: &str) -> (r: Vec<String>)
    ensures
        split::views(r@) == domain_page(domain@),
{
    let mut page: Vec<String> = Vec::new();
    page.push("".to_owned());
    page.push("  ⚖ this host is now ".to_owned().concat(domain));
    page.push("".to_owned());
    page.push("    apps     https://<app>.".to_owned().concat(domain));
    page.push("    api      https://api.".to_owned().concat(domain));
    page.push("".to_owned());
    page.push("  add a wildcard CNAME at your DNS so new apps resolve:".to_owned());
    page.push(
        "    *.".to_owned().concat(domain)
            .concat("   →   (cloudflared creates per-app records too)"),
    );
    page.push("".to_owned());
    page.push("  the daemon is restarting onto the named tunnel.".to_owned());
    page.push("  re-run `hades host connect-info` for the stable join line.".to_owned());
    assert(split::views(page@) =~= domain_page(domain@));
    page
}

/// How another machine reaches this host.
#[derive(Debug)]
pub struct ConnectInfo {
    pub host: String,
    pub token: String,
    pub command: String,
}

pub open spec fn login_command(host: Seq<char>, token: Seq<char>) -> Seq<char> {
    "hades login --host "@ + host + " --token "@ + token
}

/// The command that another machine runs to control this host.
pub fn connect_info(token: Option<&str>, control_url: Option<&str>) -> (r: Result<
    ConnectInfo,
    HadesError,
>)
    ensures
        r is Ok <==> token is Some && control_url is Some,
        r matches Ok(c) ==> c.host@ == control_url->0@ && c.token@ == token->0@ && c.command@
            == login_command(control_url->0@, token->0@),
        r matches Err(e) ==> e@ == ErrorView::Other(
            if token is None {
                "no auth token in config; run `hades host init`"@
            } else {
                "no control tunnel; install cloudflared (`brew install cloudflared`) and restart the daemon"@
            },
        ),
{
    let token = match token {
        Some(t) => t,
        None => {
            return Err(
                HadesError::Other("no auth token in config; run `hades host init`".to_owned()),
            );
        },
    };
    match control_url {
        Some(url) => Ok(
            ConnectInfo {
                host: url.to_owned(),
                token: token.to_owned(),
                command: "hades login --host ".to_owned().concat(url).concat(" --token ").concat(
                    token,
                ),
            },
        ),
        None => Err(
            HadesError::Other(
                "no control tunnel; install cloudflared (`brew install cloudflared`) and restart the daemon".to_owned(),
            ),
        ),
    }
}

/// How to reach this host, for people.
pub open spec fn connect_page(command: Seq<char>) -> Seq<Seq<char>> {
    seq![
        ""@,
        "  on the other machine, run:"@,
        ""@,
        "    "@ + command,
        ""@,
        "  the URL changes when the host restarts; the token does not."@,
        "  treat this line like a password."@,
    ]
}

pub fn connect_lines(command: &str) -> (r: Vec<String>)
    ensures
        split::views(r@) == connect_page(command@),
{
    let mut page: Vec<String> = Vec::new();
    page.push("".to_owned());
    page.push("  on the other machine, run:".to_owned());
    page.push("".to_owned());
    page.push("    ".to_owned().concat(command));
    page.push("".to_owned());
    page.push("  the URL changes when the host restarts; the token does not.".to_owned());
    page.push("  treat this line like a password.".to_owned());
    assert(split::views(page@) =~= connect_page(command@));
    page
}

/// A device that is to join a fleet: its configuration then, and what it tells the hub.
#[derive(Debug)]
pub struct JoinPlan {
    pub config: HadesConfig,
    pub request: JoinRequest,
}

/// A configuration with the hub that the device belongs to.
pub open spec fn with_hub(
    config: HadesConfigView,
    hub: Seq<char>,
    hub_token: Seq<char>,
) -> HadesConfigView {
    HadesConfigView {
        fleet: FleetConfigView { hub_url: Some(hub), hub_token: Some(hub_token) },
        ..config
    }
}

/// What a device that joins tells the hub.
pub open spec fn joining(
    config: HadesConfigView,
    control_url: Seq<char>,
    name: Option<Seq<char>>,
    own_name: Seq<char>,
) -> JoinRequestView {
    JoinRequestView {
        name: match name {
            Some(n) => n,
            None => own_name,
        },
        control_url,
        token: config.auth_token->0,
    }
}

/// A device joins a fleet. It must be up with a control tunnel before it can.
pub fn join_plan(
    config: &HadesConfig,
    control_url: Option<&str>,
    hub: &str,
    hub_token: &str,
    name: Option<&str>,
    own_name: &str,
) -> (r: Result<JoinPlan, HadesError>)
    ensures
        r is Ok <==> control_url is Some && config@.auth_token is Some,
        r matches Ok(p) ==> p.config@ == with_hub(config@, hub@, hub_token@) && p.request@
            == joining(config@, control_url->0@, opt_str(name), own_name@),
        r matches Err(e) ==> e@ == ErrorView::Other(
            if control_url is None {
                "this device has no control tunnel yet; install cloudflared and restart the daemon, then re-run join"@
            } else {
                "no auth token in config; run `hades host init`"@
            },
        ),
{
    let url = match control_url {
        Some(u) => u,
        None => {
            return Err(
                HadesError::Other(
                    "this device has no control tunnel yet; install cloudflared and restart the daemon, then re-run join".to_owned(),
                ),
            );
        },
    };
    let own = match &config.auth_token {
        Some(t) => t.clone(),
        None => {
            return Err(
                HadesError::Other("no auth token in config; run `hades host init`".to_owned()),
            );
        },
    };
    let name = match name {
        Some(n) => n.to_owned(),
        None => own_name.to_owned(),
    };
    let mut c = config.clone();
    c.fleet.hub_url = Some(hub.to_owned());
    c.fleet.hub_token = Some(hub_token.to_owned());
    Ok(
        JoinPlan {
            config: c,
            request: JoinRequest { name, control_url: url.to_owned(), token: own },
        },
    )
}

/// A device has joined.
pub open spec fn joined_page(name: Seq<char>, devices: Seq<FleetDeviceViewView>) -> Seq<Seq<char>> {
    seq![""@, "  ⚖ "@ + name + " joined the fleet"@, ""@] + render::fleet_table(devices) + seq![
        ""@,
        "  deploys from the hub now consider this device."@,
    ]
}

pub fn joined_lines(name: &str, v: &FleetView) -> (r: Vec<String>)
    requires
        render::seen_at_valid_times(v.devices@),
    ensures
        split::views(r@) == joined_page(name@, render::joined(v@.devices)),
{
    let mut page: Vec<String> = Vec::new();
    page.push("".to_owned());
    page.push("  ⚖ ".to_owned().concat(name).concat(" joined the fleet"));
    page.push("".to_owned());
    let ghost head = page@;
    let mut table = fleet(v);
    let ghost rows = table@;
    page.append(&mut table);
    page.push("".to_owned());
    page.push("  deploys from the hub now consider this device.".to_owned());
    proof {
        let want = joined_page(name@, render::joined(v@.devices));
        assert(page@.len() == want.len());
        assert forall|i: int| 0 <= i < want.len() implies #[trigger] split::views(page@)[i]
            == want[i] by {
            if 3 <= i < 3 + rows.len() {
                assert(page@[i] == rows[i - 3]);
                assert(split::views(rows)[i - 3] == rows[i - 3]@);
            }
        }
        assert(split::views(page@) =~= want);
    }
    page
}

// ---------------------------------------------------------------------------- manifests

/// May a character stand in an app's name?
pub open spec fn plain_char(c: char) -> char {
    if 'a' <= c <= 'z' || 'A' <= c <= 'Z' || '0' <= c <= '9' {
        c
    } else {
        '-'
    }
}

pub open spec fn plain_name(s: Seq<char>) -> Seq<char> {
    Seq::new(s.len(), |i: int| plain_char(s[i]))
}

/// A name for the app of a directory, given the directory's name in lowercase.
pub fn app_name_for(lowered: &str) -> (r: String)
    ensures
        r@ == plain_name(lowered@),
{
    let cs = chars_of(lowered);
    let mut out: Vec<char> = Vec::new();
    let mut i: usize = 0;
    while i < cs.len()
        invariant
            i <= cs.len(),
            cs@ == lowered@,
            out@.len() == i,
            forall|j: int| 0 <= j < i ==> #[trigger] out@[j] == plain_char(cs@[j]),
        decreases cs.len() - i,
    {
        let c = cs[i];
        if 'a' <= c && c <= 'z' || 'A' <= c && c <= 'Z' || '0' <= c && c <= '9' {
            out.push(c);
        } else {
            out.push('-');
        }
        i += 1;
    }
    assert(out@ =~= plain_name(lowered@));
    string_of(&out)
}

/// A manifest to start from.
pub open spec fn template(name: Seq<char>) -> Seq<char> {
    "# Hades app manifest. `hades deploy` reads this.\n[app]\nname = \""@ + name
        + "\"\n# Exactly one of `image` (registry image) or [app.build] (local Dockerfile):\n# image = \"nginx:alpine\"\nports = [8000]          # first port receives proxied traffic\nreplicas = 1\npriority = \"normal\"     # critical | normal | low (shedding order under pressure)\n# max_concurrent_requests = 64\n\n[app.build]\ndockerfile = \"Dockerfile\"\ncontext = \".\"\n\n[app.resources]\ncpu = 0.5\nmemory = \"256mb\"        # mandatory: admission control needs a declared number\n\n[app.power]\non_battery = \"run\"      # or \"pause\" to save battery when unplugged\n\n# [app.health_check]\n# path = \"/\"\n"@
}

/// The manifest that is scaffolded in a directory of this name.
pub fn scaffold(dir_name: Option<&str>) -> (r: String)
    ensures
        r@ == template(
            plain_name(
                text::lower_text(
                    match dir_name {
                        Some(d) => d@,
                        None => "app"@,
                    },
                ),
            ),
        ),
{
    let dir = match dir_name {
        Some(d) => d,
        None => "app",
    };
    manifest_text(app_name_for(to_lower(dir).as_str()).as_str())
}

/// A manifest to start from.
pub fn manifest_text(name: &str) -> (r: String)
    ensures
        r@ == template(name@),
{
    "# Hades app manifest. `hades deploy` reads this.\n[app]\nname = \"".to_owned().concat(name)
        .concat("\"\n# Exactly one of `image` (registry image) or [app.build] (local Dockerfile):\n# image = \"nginx:alpine\"\nports = [8000]          # first port receives proxied traffic\nreplicas = 1\npriority = \"normal\"     # critical | normal | low (shedding order under pressure)\n# max_concurrent_requests = 64\n\n[app.build]\ndockerfile = \"Dockerfile\"\ncontext = \".\"\n\n[app.resources]\ncpu = 0.5\nmemory = \"256mb\"        # mandatory: admission control needs a declared number\n\n[app.power]\non_battery = \"run\"      # or \"pause\" to save battery when unplugged\n\n# [app.health_check]\n# path = \"/\"\n")
}

/// There is a manifest already.
pub fn already_there(path: &str) -> (r: HadesError)
    ensures
        r@ == ErrorView::Other(path@ + " already exists"@),
{
    HadesError::Other(path.to_owned().concat(" already exists"))
}

/// The app that a command is about: the one that was named, else that of the manifest
/// here.
pub fn app_or_manifest(app: Option<&str>, manifest: Option<&Manifest>) -> (r: Result<
    String,
    HadesError,
>)
    ensures
        r is Ok <==> app is Some || manifest is Some,
        r matches Ok(n) ==> n@ == match app {
            Some(a) => a@,
            None => manifest->0.app.name@,
        },
        r matches Err(e) ==> e@ == ErrorView::Other("no --app given and no Hades.toml here"@),
{
    match app {
        Some(a) => Ok(a.to_owned()),
        None => match manifest {
            Some(m) => Ok(m.app.name.clone()),
            None => Err(HadesError::Other("no --app given and no Hades.toml here".to_owned())),
        },
    }
}

/// What is told while an app is deployed.
pub fn deploying_line(spec: &AppSpec) -> (r: String)
    ensures
        r@ == "deploying "@ + spec@.name + " ("@ + text::decimal(spec@.replicas as nat) + " replica"@
            + (if spec@.replicas == 1 {
            ""@
        } else {
            "s"@
        }) + ")…"@,
{
    let plural = if spec.replicas == 1 {
        ""
    } else {
        "s"
    };
    "deploying ".to_owned().concat(spec.name.as_str()).concat(" (").concat(
        dec(spec.replicas as u64).as_str(),
    ).concat(" replica").concat(plural).concat(")…")
}

/// Is a directory left out of a build context?
pub open spec fn left_out(name: Seq<char>) -> bool {
    name == ".git"@ || name == "target"@ || name == "node_modules"@ || name == ".hades"@ || name
        == "__pycache__"@
}

pub fn skip_dir(name: &str) -> (r: bool)
    ensures
        r == left_out(name@),
{
    same(name, ".git") || same(name, "target") || same(name, "node_modules") || same(name, ".hades")
        || same(name, "__pycache__")
}

/// A build context must be a directory.
pub fn not_a_directory(path: &str) -> (r: HadesError)
    ensures
        r@ == ErrorView::InvalidSpec("build context "@ + path@ + " is not a directory"@),
{
    HadesError::InvalidSpec(
        "build context ".to_owned().concat(path).concat(" is not a directory"),
    )
}

// ----------------------------------------------------------------------------- secrets

/// A secret as it is given: what stands before the first `=`, trimmed, and what follows.
pub open spec fn pair_of(s: Seq<char>) -> Option<(Seq<char>, Seq<char>)> {
    match text::after(s, "="@) {
        Some(v) => Some((text::trim(text::before(s, "="@)), v)),
        None => None,
    }
}

/// The first text that is no pair.
pub open spec fn first_bad(pairs: Seq<Seq<char>>) -> Option<Seq<char>>
    decreases pairs.len(),
{
    if pairs.len() == 0 {
        None
    } else {
        match first_bad(pairs.drop_last()) {
            Some(b) => Some(b),
            None => if pair_of(pairs.last()) is None {
                Some(pairs.last())
            } else {
                None
            },
        }
    }
}

/// The secrets that some texts set; of several with one name the last one counts.
pub open spec fn settings(pairs: Seq<Seq<char>>) -> Map<Seq<char>, Seq<char>>
    decreases pairs.len(),
{
    if pairs.len() == 0 {
        Map::empty()
    } else {
        let (k, v) = pair_of(pairs.last())->0;
        settings(pairs.drop_last()).insert(k, v)
    }
}

proof fn lemma_first_bad(pairs: Seq<Seq<char>>, n: int)
    requires
        0 <= n <= pairs.len(),
        first_bad(pairs.take(n)) is Some,
    ensures
        first_bad(pairs) == first_bad(pairs.take(n)),
    decreases pairs.len() - n,
{
    if n < pairs.len() {
        assert(pairs.take(n + 1).drop_last() =~= pairs.take(n));
        lemma_first_bad(pairs, n + 1);
    } else {
        assert(pairs.take(n) =~= pairs);
    }
}

/// KEY=VALUE pairs to be set.
pub fn secrets_to_set(pairs: &Vec<String>) -> (r: Result<SecretsUpdate, HadesError>)
    ensures
        match first_bad(split::views(pairs@)) {
            Some(b) => r matches Err(e) && e@ == ErrorView::InvalidSpec(
                "'"@ + b + "' is not KEY=VALUE"@,
            ),
            None => r matches Ok(u) && u@.set == settings(split::views(pairs@)) && u@.unset
                == Seq::<Seq<char>>::empty(),
        },
{
    let ghost pv = split::views(pairs@);
    let mut set = TextMap::new();
    let mut i: usize = 0;
    assert(pv.take(0) =~= Seq::empty());
    while i < pairs.len()
        invariant
            i <= pairs.len(),
            pv == split::views(pairs@),
            first_bad(pv.take(i as int)) is None,
            set@ == settings(pv.take(i as int)),
        decreases pairs.len() - i,
    {
        assert(pv.take(i + 1).drop_last() =~= pv.take(i as int));
        assert(pv.take(i + 1).last() == pairs@[i as int]@);
        let pair = pairs[i].as_str();
        match text_after(pair, "=") {
            Some(v) => {
                set.insert(trimmed(text_before(pair, "=").as_str()), v);
            },
            None => {
                proof {
                    lemma_first_bad(pv, i + 1);
                }
                return Err(
                    HadesError::InvalidSpec("'".to_owned().concat(pair).concat("' is not KEY=VALUE")),
                );
            },
        }
        i += 1;
    }
    assert(pv.take(i as int) =~= pv);
    let unset: Vec<String> = Vec::new();
    assert(split::views(unset@) =~= Seq::empty());
    Ok(SecretsUpdate { set, unset })
}

/// An app without secrets.
pub fn no_secrets_line(app: &str) -> (r: String)
    ensures
        r@ == app@ + " has no secrets; `hades secrets set KEY=VALUE --app "@ + app@ + "`"@,
{
    app.to_owned().concat(" has no secrets; `hades secrets set KEY=VALUE --app ").concat(
        app,
    ).concat("`")
}

// ---------------------------------------------------------------------------------- ssh

/// How a device is reached by ssh.
#[derive(Debug)]
pub struct SshTarget {
    pub host: String,
    pub user: String,
    pub command: String,
}

/// The user on the device: the one that was named, else the one that the device hints at,
/// else the one here.
pub open spec fn ssh_user(
    user: Option<Seq<char>>,
    hint: Option<Seq<char>>,
    own: Option<Seq<char>>,
) -> Seq<char> {
    match user {
        Some(u) => u,
        None => if hint is Some && hint->0.len() > 0 {
            hint->0
        } else {
            match own {
                Some(o) => o,
                None => "root"@,
            }
        },
    }
}

pub open spec fn ssh_host(url: Seq<char>) -> Seq<char> {
    text::drop_leading(text::drop_leading(url, "https://"@), "http://"@)
}

/// The transport needs cloudflared here.
pub fn no_transport() -> (r: HadesError)
    ensures
        r@ == ErrorView::Other(
            "cloudflared is needed locally for the transport: brew install cloudflared"@,
        ),
{
    HadesError::Other(
        "cloudflared is needed locally for the transport: brew install cloudflared".to_owned(),
    )
}

/// Reads what a device told of its ssh tunnel.
pub fn ssh_target(reply: &str, user: Option<&str>, own_user: Option<&str>) -> (r: Result<
    SshTarget,
    HadesError,
>)
    ensures
        match json::string_found(reply@, "/url"@) {
            None => r matches Err(e) && e@ == ErrorView::Other("device returned no tunnel url"@),
            Some(url) => {
                let u = ssh_user(
                    opt_str(user),
                    json::string_found(reply@, "/user_hint"@),
                    opt_str(own_user),
                );
                r matches Ok(x) && x.host@ == ssh_host(url) && x.user@ == u && x.command@
                    == "ssh -o ProxyCommand='cloudflared access ssh --hostname %h' "@ + u + "@"@
                    + ssh_host(url)
            },
        },
{
    let url = match string_at(reply, "/url") {
        Some(u) => u,
        None => {
            return Err(HadesError::Other("device returned no tunnel url".to_owned()));
        },
    };
    let host = trim_leading(trim_leading(url.as_str(), "https://").as_str(), "http://");
    let user = match user {
        Some(u) => u.to_owned(),
        None => {
            let hint = match string_at(reply, "/user_hint") {
                Some(h) => h,
                None => "".to_owned(),
            };
            proof {
                reveal_strlit("");
            }
            if hint.as_str().unicode_len() > 0 {
                hint
            } else {
                match own_user {
                    Some(o) => o.to_owned(),
                    None => "root".to_owned(),
                }
            }
        },
    };
    let command = "ssh -o ProxyCommand='cloudflared access ssh --hostname %h' ".to_owned().concat(
        user.as_str(),
    ).concat("@").concat(host.as_str());
    Ok(SshTarget { host, user, command })
}

// -------------------------------------------------------------------------------- fleet

/// What a device said to an update.
pub open spec fn update_line(name: Seq<char>, reply: Seq<char>) -> Seq<char> {
    if json::flag_found(reply, "/started"@) {
        name + ": updating (rebuild + daemon restart; takes a few minutes)"@
    } else {
        name + ": failed: "@ + (match json::string_found(reply, "/error"@) {
            Some(e) => e,
            None => "?"@,
        })
    }
}

/// The devices in a reply, each with what it said.
pub open spec fn devices_in(reply: Seq<char>) -> Seq<(Seq<char>, Seq<char>)> {
    match json::json_at(reply, "/devices"@) {
        Some(d) => match json::json_members(d) {
            Some(m) => m,
            None => Seq::empty(),
        },
        None => Seq::empty(),
    }
}

/// What came of updating the fleet.
pub open spec fn fleet_update_page(devices: Seq<(Seq<char>, Seq<char>)>) -> Seq<Seq<char>> {
    if devices.len() == 0 {
        seq!["no devices to update"@]
    } else {
        Seq::new(devices.len(), |i: int| update_line(devices[i].0, devices[i].1)).push(""@).push(
            "watch a device come back with `hades fleet`"@,
        )
    }
}

fn update_text(name: &str, reply: &str) -> (r: String)
    ensures
        r@ == update_line(name@, reply@),
{
    if flag_at(reply, "/started") {
        name.to_owned().concat(": updating (rebuild + daemon restart; takes a few minutes)")
    } else {
        let why = match string_at(reply, "/error") {
            Some(e) => e,
            None => "?".to_owned(),
        };
        name.to_owned().concat(": failed: ").concat(why.as_str())
    }
}

pub fn update_report_lines(devices: &Vec<(String, String)>) -> (r: Vec<String>)
    ensures
        split::views(r@) == fleet_update_page(maps::pair_views(devices@)),
{
    let ghost dv = maps::pair_views(devices@);
    let mut page: Vec<String> = Vec::new();
    if devices.len() == 0 {
        page.push("no devices to update".to_owned());
        assert(split::views(page@) =~= fleet_update_page(dv));
        return page;
    }
    let mut i: usize = 0;
    while i < devices.len()
        invariant
            i <= devices.len(),
            dv == maps::pair_views(devices@),
            page@.len() == i,
            forall|j: int| 0 <= j < i ==> (#[trigger] page@[j])@ == update_line(dv[j].0, dv[j].1),
        decreases devices.len() - i,
    {
        let (name, reply) = &devices[i];
        page.push(update_text(name.as_str(), reply.as_str()));
        i += 1;
    }
    page.push("".to_owned());
    page.push("watch a device come back with `hades fleet`".to_owned());
    assert(split::views(page@) =~= fleet_update_page(dv));
    page
}

/// Reads what the hub told of updating its fleet.
pub fn fleet_update_lines(reply: &str) -> (r: Vec<String>)
    ensures
        split::views(r@) == fleet_update_page(devices_in(reply@)),
{
    let none: Vec<(String, String)> = Vec::new();
    assert(maps::pair_views(none@) =~= Seq::empty());
    let devices = match value_at(reply, "/devices") {
        Some(d) => match members_of(d.as_str()) {
            Some(m) => m,
            None => none,
        },
        None => none,
    };
    update_report_lines(&devices)
}

/// The command that adds a machine to the fleet.
pub fn join_command(control_url: Option<&str>, token: Option<&str>) -> (r: Result<
    String,
    HadesError,
>)
    ensures
        r is Ok <==> control_url is Some && token is Some,
        r matches Ok(c) ==> c@ == "hades host join --hub "@ + control_url->0@ + " --token "@
            + token->0@,
        r matches Err(e) ==> e@ == ErrorView::Other(
            "the hub needs a control tunnel + token first (install cloudflared, restart the daemon)"@,
        ),
{
    match (control_url, token) {
        (Some(u), Some(t)) => Ok(
            "hades host join --hub ".to_owned().concat(u).concat(" --token ").concat(t),
        ),
        _ => Err(
            HadesError::Other(
                "the hub needs a control tunnel + token first (install cloudflared, restart the daemon)".to_owned(),
            ),
        ),
    }
}

/// How to add a machine to the fleet.
pub open spec fn add_page(url: Seq<char>, token: Seq<char>) -> Seq<Seq<char>> {
    seq![
        ""@,
        "  on the new machine, one line does everything:"@,
        ""@,
        "    curl -fsSL <site>/install.sh | HADES_HUB="@ + url + " HADES_TOKEN="@ + token + " sh"@,
        ""@,
        "  or, if hades is already installed there:"@,
        ""@,
        "    hades host join --hub "@ + url + " --token "@ + token,
        ""@,
        "  the URL rotates when this hub restarts; the token does not."@,
    ]
}

pub fn add_lines(url: &str, token: &str) -> (r: Vec<String>)
    ensures
        split::views(r@) == add_page(url@, token@),
{
    let mut page: Vec<String> = Vec::new();
    page.push("".to_owned());
    page.push("  on the new machine, one line does everything:".to_owned());
    page.push("".to_owned());
    page.push(
        "    curl -fsSL <site>/install.sh | HADES_HUB=".to_owned().concat(url)
            .concat(" HADES_TOKEN=").concat(token).concat(" sh"),
    );
    page.push("".to_owned());
    page.push("  or, if hades is already installed there:".to_owned());
    page.push("".to_owned());
    page.push(
        "    hades host join --hub ".to_owned().concat(url).concat(" --token ").concat(token),
    );
    page.push("".to_owned());
    page.push("  the URL rotates when this hub restarts; the token does not.".to_owned());
    assert(split::views(page@) =~= add_page(url@, token@));
    page
}

/// A name that was claimed.
pub open spec fn claimed_page(hostname: Seq<char>) -> Seq<Seq<char>> {
    seq![
        ""@,
        "  ⚖ "@ + hostname + " is yours"@,
        ""@,
        "    https://"@ + hostname,
        ""@,
        "  this URL is stable; it survives restarts and never rotates."@,
    ]
}

pub fn claimed_lines(hostname: &str) -> (r: Vec<String>)
    ensures
        split::views(r@) == claimed_page(hostname@),
{
    let mut page: Vec<String> = Vec::new();
    page.push("".to_owned());
    page.push("  ⚖ ".to_owned().concat(hostname).concat(" is yours"));
    page.push("".to_owned());
    page.push("    https://".to_owned().concat(hostname));
    page.push("".to_owned());
    page.push("  this URL is stable; it survives restarts and never rotates.".to_owned());
    assert(split::views(page@) =~= claimed_page(hostname@));
    page
}

/// A name that was given back.
pub fn released_line(reply: &str, app: &str) -> (r: String)
    ensures
        r@ == "released "@ + (match json::string_found(reply@, "/released"@) {
            Some(h) => h,
            None => app@,
        }),
{
    let host = match string_at(reply, "/released") {
        Some(h) => h,
        None => app.to_owned(),
    };
    "released ".to_owned().concat(host.as_str())
}

// --------------------------------------------------------------------------- line by line

/// Bytes that came in, cut into lines.
#[derive(Debug)]
pub struct LineBuffer {
    pub rest: Vec<u8>,
}

/// The finished lines of some bytes, each with its line feed, and what follows the last.
pub open spec fn cut(bytes: Seq<u8>) -> (Seq<Seq<u8>>, Seq<u8>)
    decreases bytes.len(),
{
    if bytes.len() == 0 {
        (Seq::empty(), Seq::empty())
    } else {
        let (done, rest) = cut(bytes.drop_last());
        if bytes.last() == 10 {
            (done.push(rest.push(10)), Seq::empty())
        } else {
            (done, rest.push(bytes.last()))
        }
    }
}

pub open spec fn byte_views(v: Seq<Vec<u8>>) -> Seq<Seq<u8>> {
    Seq::new(v.len(), |i: int| v[i]@)
}

/// Bytes that hold no finished line are all left over.
proof fn lemma_cut_on(a: Seq<u8>)
    requires
        cut(a).0.len() == 0,
    ensures
        cut(a).1 == a,
    decreases a.len(),
{
    if a.len() > 0 {
        lemma_cut_on(a.drop_last());
        assert(a =~= a.drop_last().push(a.last()));
    }
}

impl LineBuffer {
    pub fn new() -> (r: Self)
        ensures
            r.rest@ == Seq::<u8>::empty(),
    {
        LineBuffer { rest: Vec::new() }
    }

    /// Takes in bytes, and gives the lines that are finished.
    pub fn take(&mut self, bytes: &Vec<u8>) -> (r: Vec<Vec<u8>>)
        requires
            cut(old(self).rest@).0.len() == 0,
        ensures
            (byte_views(r@), final(self).rest@) == cut(old(self).rest@ + bytes@),
            cut(final(self).rest@).0.len() == 0,
    {
        let ghost start = self.rest@;
        let mut out: Vec<Vec<u8>> = Vec::new();
        let mut i: usize = 0;
        proof {
            lemma_cut_on(start);
            assert(bytes@.take(0) =~= Seq::empty());
            assert(start + bytes@.take(0) =~= start);
            assert(byte_views(out@) =~= Seq::empty());
            assert(cut(start).0 =~= Seq::empty());
        }
        while i < bytes.len()
            invariant
                i <= bytes.len(),
                (byte_views(out@), self.rest@) == cut(start + bytes@.take(i as int)),
                cut(self.rest@).0.len() == 0,
            decreases bytes.len() - i,
        {
            let b = bytes[i];
            let ghost so_far = start + bytes@.take(i as int);
            proof {
                let all = start + bytes@.take(i + 1);
                assert(bytes@.take(i + 1) =~= bytes@.take(i as int).push(b));
                assert(all.drop_last() =~= so_far);
                assert(all.last() == b);
                assert(self.rest@.push(b).drop_last() =~= self.rest@);
            }
            self.rest.push(b);
            if b == 10 {
                let mut line: Vec<u8> = Vec::new();
                std::mem::swap(&mut line, &mut self.rest);
                let ghost before = out@;
                out.push(line);
                assert(byte_views(out@) =~= byte_views(before).push(line@));
                assert(self.rest@ =~= Seq::empty());
            }
            i += 1;
        }
        assert(bytes@.take(i as int) =~= bytes@);
        out
    }
}

// ---------------------------------------------------------------------------- laws

/// A stream can be cut into lines as it comes: however the bytes are divided, the same
/// lines come out.
pub proof fn lines_do_not_depend_on_chunks(a: Seq<u8>, b: Seq<u8>)
    ensures
        cut(a + b).0 == cut(a).0 + cut(cut(a).1 + b).0,
        cut(a + b).1 == cut(cut(a).1 + b).1,
    decreases b.len(),
{
    if b.len() == 0 {
        assert(a + b =~= a);
        assert(cut(a).1 + b =~= cut(a).1);
        lemma_rest_has_no_line(a);
        lemma_cut_on(cut(a).1);
        assert(cut(a).0 + cut(cut(a).1).0 =~= cut(a).0);
    } else {
        let front = b.drop_last();
        lines_do_not_depend_on_chunks(a, front);
        assert((a + b).drop_last() =~= a + front);
        assert((cut(a).1 + b).drop_last() =~= cut(a).1 + front);
        let (done, rest) = cut(cut(a).1 + front);
        if b.last() == 10 {
            assert((cut(a).0 + done).push(rest.push(10)) =~= cut(a).0 + done.push(rest.push(10)));
        }
    }
}

proof fn lemma_rest_has_no_line(a: Seq<u8>)
    ensures
        cut(cut(a).1).0.len() == 0,
    decreases a.len(),
{
    if a.len() > 0 {
        lemma_rest_has_no_line(a.drop_last());
        let rest = cut(a.drop_last()).1;
        if a.last() != 10 {
            assert(rest.push(a.last()).drop_last() =~= rest);
        }
    }
}

/// A remote host is never logged in to with the token of this machine.
pub proof fn own_tokens_stay_at_home(
    host: Option<Seq<char>>,
    token: Option<Seq<char>>,
    line: Seq<char>,
    own: Option<Seq<char>>,
    other: Option<Seq<char>>,
)
    requires
        host is Some,
    ensures
        login_token(host, token, line, own) == login_token(host, token, line, other),
{
}

/// Nothing of a stream is lost or made up: the lines and what is left over are its bytes, in
/// order. A line ends with a line feed and holds no other.
pub proof fn lines_are_the_stream(bytes: Seq<u8>)
    ensures
        cut(bytes).0.flatten() + cut(bytes).1 == bytes,
        forall|i: int|
            0 <= i < cut(bytes).0.len() ==> {
                let line = #[trigger] cut(bytes).0[i];
                line.len() > 0 && line.last() == 10 && !line.drop_last().contains(10)
            },
        !cut(bytes).1.contains(10),
    decreases bytes.len(),
{
    let (all, left) = cut(bytes);
    if bytes.len() == 0 {
        assert(all.flatten() + left =~= bytes);
    } else {
        let front = bytes.drop_last();
        let (done, rest) = cut(front);
        lines_are_the_stream(front);
        assert(bytes =~= front.push(bytes.last()));
        if bytes.last() == 10 {
            let line = rest.push(10);
            assert(line.drop_last() =~= rest);
            done.lemma_flatten_push(line);
            assert(all.flatten() + left =~= bytes);
            assert forall|i: int| 0 <= i < all.len() implies {
                let l = #[trigger] all[i];
                l.len() > 0 && l.last() == 10 && !l.drop_last().contains(10)
            } by {
                if i < done.len() {
                    assert(all[i] == done[i]);
                }
            }
        } else {
            assert(all.flatten() + left =~= bytes);
            if left.contains(10) {
                let k = choose|k: int| 0 <= k < left.len() && left[k] == 10;
                assert(rest[k] == 10);
                assert(rest.contains(10));
            }
        }
    }
}

/// A secret is set as it is given: its name is what stands before the first `=`, and its value
/// all that follows, whatever that holds. Of two with one name the later one counts.
pub proof fn secrets_are_set_as_given(
    pairs: Seq<Seq<char>>,
    key: Seq<char>,
    value: Seq<char>,
    other: Seq<char>,
)
    requires
        forall|i: int| 0 <= i < key.len() ==> #[trigger] key[i] != '=',
        key.len() > 0 ==> !text::is_space(key[0]) && !text::is_space(key.last()),
        other != key,
    ensures
        ({
            let more = pairs.push(key + "="@ + value);
            &&& settings(more).dom().contains(key) && settings(more)[key] == value
            &&& settings(more).dom().contains(other) <==> settings(pairs).dom().contains(other)
            &&& settings(more)[other] == settings(pairs)[other]
            &&& first_bad(more) == first_bad(pairs)
        }),
{
    reveal_strlit("=");
    let pair = key + "="@ + value;
    let more = pairs.push(pair);
    assert(more.drop_last() =~= pairs);
    text::lemma_first_at(pair, "="@, 0);
    let n = key.len() as int;
    assert(pair.subrange(n, n + 1) =~= "="@);
    assert(text::stands_at(pair, "="@, n));
    let i = text::first_at(pair, "="@, 0)->0;
    if i < n {
        assert(pair.subrange(i, i + 1)[0] == key[i]);
        assert("="@[0] == '=');
    }
    assert(pair.take(n) =~= key);
    assert(pair.skip(n + 1) =~= value);
    text::lemma_trim_unchanged(key);
}

/// A text without `=` is no secret: nothing is set, and the first such text is named.
pub proof fn what_is_no_pair_is_named(pairs: Seq<Seq<char>>, i: int)
    requires
        0 <= i < pairs.len(),
        !text::contains(pairs[i], "="@),
        forall|j: int| 0 <= j < i ==> text::contains(#[trigger] pairs[j], "="@),
    ensures
        first_bad(pairs) == Some(pairs[i]),
    decreases pairs.len(),
{
    let front = pairs.drop_last();
    if i < front.len() {
        assert(front[i] == pairs[i]);
        assert forall|j: int| 0 <= j < i implies text::contains(#[trigger] front[j], "="@) by {
            assert(front[j] == pairs[j]);
        }
        what_is_no_pair_is_named(front, i);
    } else {
        assert forall|j: int| 0 <= j < front.len() implies text::contains(
            #[trigger] front[j],
            "="@,
        ) by {
            assert(front[j] == pairs[j]);
        }
        lemma_no_bad(front);
    }
}

proof fn lemma_no_bad(pairs: Seq<Seq<char>>)
    requires
        forall|j: int| 0 <= j < pairs.len() ==> text::contains(#[trigger] pairs[j], "="@),
    ensures
        first_bad(pairs) is None,
    decreases pairs.len(),
{
    if pairs.len() > 0 {
        let front = pairs.drop_last();
        assert forall|j: int| 0 <= j < front.len() implies text::contains(
            #[trigger] front[j],
            "="@,
        ) by {
            assert(front[j] == pairs[j]);
        }
        lemma_no_bad(front);
        assert(text::contains(pairs[pairs.len() - 1], "="@));
    }
}

/// The token that was given is the one that is used; `-` stands for the line that was typed.
pub proof fn given_tokens_are_used(
    host: Option<Seq<char>>,
    token: Seq<char>,
    line: Seq<char>,
    own: Option<Seq<char>>,
)
    ensures
        token != "-"@ ==> login_token(host, Some(token), line, own) == Some(token),
        text::trim(line).len() > 0 ==> login_token(host, Some("-"@), line, own) == Some(
            text::trim(line),
        ),
        host is None ==> login_token(host, None, line, own) == own,
        host is Some ==> login_token(host, None, line, own) is None,
{
}

/// A session's host is asked with the session's token, and this machine with its own: no token
/// goes to a host that it is not for.
pub proof fn tokens_go_to_their_host(
    session: Option<SessionView>,
    config: HadesConfigView,
    r: DaemonClient,
)
    requires
        talks_to(session, config, r),
    ensures
        session matches Some(s) ==> r.base@ == client::base_of(s.host) && values::opt_view(r.token)
            == s.token,
        session is None ==> r.base@ == client::base_of(
            "127.0.0.1:"@ + text::decimal(config.api_port as nat),
        ) && values::opt_view(r.token) == config.auth_token,
{
}

/// A device that joins keeps the hub's address and token, and tells the hub its own; nothing
/// else of its configuration changes.
pub proof fn joining_exchanges_addresses(
    config: HadesConfigView,
    hub: Seq<char>,
    hub_token: Seq<char>,
    control_url: Seq<char>,
    name: Option<Seq<char>>,
    own_name: Seq<char>,
)
    requires
        config.auth_token is Some,
    ensures
        ({
            let after = with_hub(config, hub, hub_token);
            let told = joining(config, control_url, name, own_name);
            &&& after.fleet.hub_url == Some(hub) && after.fleet.hub_token == Some(hub_token)
            &&& after == (HadesConfigView { fleet: after.fleet, ..config })
            &&& told.control_url == control_url && Some(told.token) == config.auth_token
            &&& name matches Some(n) ==> told.name == n
            &&& name is None ==> told.name == own_name
        }),
{
}

/// An app's name keeps the letters and digits of its directory's; all else becomes a hyphen.
pub proof fn names_keep_letters_and_digits(s: Seq<char>, i: int)
    requires
        0 <= i < s.len(),
    ensures
        plain_name(s).len() == s.len(),
        ({
            let c = s[i];
            let kept = 'a' <= c <= 'z' || 'A' <= c <= 'Z' || '0' <= c <= '9';
            &&& kept ==> plain_name(s)[i] == c
            &&& !kept ==> plain_name(s)[i] == '-'
        }),
{
}

/// The user of an ssh connection is the one that was named, else the one that the device
/// hints at, else the one here.
pub proof fn named_users_come_first(
    user: Seq<char>,
    hint: Option<Seq<char>>,
    own: Option<Seq<char>>,
)
    ensures
        ssh_user(Some(user), hint, own) == user,
        hint is Some && hint->0.len() > 0 ==> ssh_user(None, hint, own) == hint->0,
        hint is None || hint->0.len() == 0 ==> ssh_user(None, hint, Some(user)) == user,
        hint is None ==> ssh_user(None, hint, None) == "root"@,
{
}

/// Each device is told of with what it said itself.
pub proof fn devices_speak_for_themselves(devices: Seq<(Seq<char>, Seq<char>)>, i: int)
    requires
        0 <= i < devices.len(),
    ensures
        ({
            let line = fleet_update_page(devices)[i];
            let (name, said) = devices[i];
            &&& fleet_update_page(devices).len() == devices.len() + 2
            &&& json::flag_found(said, "/started"@) ==> line == name
                + ": updating (rebuild + daemon restart; takes a few minutes)"@
            &&& !json::flag_found(said, "/started"@) ==> (json::string_found(said, "/error"@) matches Some(
                e,
            ) ==> line == name + ": failed: "@ + e)
        }),
{
}

} // verus!
