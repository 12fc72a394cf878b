//! The client of the daemon's API: a local one over loopback, or a remote one through
//! its control tunnel. Every request except the one for its health carries the bearer
//! token. Requests are built here and replies judged; sending them is left to the
//! caller.
use vstd::prelude::*;

use crate::error::{ApiError, ErrorBody, ErrorView, HadesError};
use crate::error;
use crate::json;
use crate::json::value_at;
use crate::split;
use crate::split::lines;
use crate::text;
use crate::text::{dec, has_prefix, trim_trailing};
use crate::values;
use crate::values::clone_opt;

verus! {

#[derive(Debug, Clone, Copy, PartialEq, Eq, Structural)]
pub enum Verb {
    Get,
    Post,
    Put,
    Delete,
}

/// A request to a daemon. Its body, where it has one, is added by the caller.
#[derive(Debug)]
pub struct Call {
    pub verb: Verb,
    pub url: String,
    pub token: Option<String>,
    pub timeout_secs: Option<u64>,
}

/// The contents of a `Call`.
pub struct CallView {
    pub verb: Verb,
    pub url: Seq<char>,
    pub token: Option<Seq<char>>,
    pub timeout_secs: Option<u64>,
}

impl View for Call {
    type V = CallView;

    open spec fn view(&self) -> CallView {
        CallView {
            verb: self.verb,
            url: self.url@,
            token: values::opt_view(self.token),
            timeout_secs: self.timeout_secs,
        }
    }
}

#[derive(Debug)]
pub struct DaemonClient {
    pub base: String,
    pub token: Option<String>,
}

/// The base URL of a host: `127.0.0.1:8786` and the like are taken over http.
pub open spec fn base_of(host: Seq<char>) -> Seq<char> {
    if text::starts_with(host, "http://"@) || text::starts_with(host, "https://"@) {
        text::drop_trailing(host, "/"@)
    } else {
        "http://"@ + host
    }
}

/// A truth value as it is written in a query.
pub open spec fn bool_text(b: bool) -> Seq<char> {
    if b {
        "true"@
    } else {
        "false"@
    }
}

fn bool_str(b: bool) -> (r: &'static str)
    ensures
        r@ == bool_text(b),
{
    if b {
        "true"
    } else {
        "false"
    }
}

impl DaemonClient {
    /// A call with the token.
    pub open spec fn call(
        self,
        verb: Verb,
        path: Seq<char>,
        timeout_secs: Option<u64>,
    ) -> CallView {
        CallView {
            verb,
            url: self.base@ + path,
            token: values::opt_view(self.token),
            timeout_secs,
        }
    }

    pub fn new(api_port: u16) -> (r: Self)
        ensures
            r.base@ == base_of("127.0.0.1:"@ + text::decimal(api_port as nat)),
            r.token is None,
    {
        Self::for_host("127.0.0.1:".to_owned().concat(dec(api_port as u64).as_str()).as_str(), None)
    }

    /// `host` may be `127.0.0.1:8786`, `https://x.trycloudflare.com`, or any http(s)
    /// base URL.
    pub fn for_host(host: &str, token: Option<String>) -> (r: Self)
        ensures
            r.base@ == base_of(host@),
            r.token == token,
    {
        let base = if has_prefix(host, "http://") || has_prefix(host, "https://") {
            trim_trailing(host, "/")
        } else {
            "http://".to_owned().concat(host)
        };
        DaemonClient { base, token }
    }

    pub fn base_url(&self) -> (r: &str)
        ensures
            r@ == self.base@,
    {
        self.base.as_str()
    }

    fn request(&self, verb: Verb, path: String, timeout_secs: Option<u64>) -> (r: Call)
        ensures
            r@ == self.call(verb, path@, timeout_secs),
    {
        Call {
            verb,
            url: self.base.clone().concat(path.as_str()),
            token: clone_opt(&self.token),
            timeout_secs,
        }
    }

    /// The one request that carries no token.
    pub fn health(&self) -> (r: Call)
        ensures
            r@ == (CallView {
                verb: Verb::Get,
                url: self.base@ + "/health"@,
                token: None,
                timeout_secs: None,
            }),
    {
        Call {
            verb: Verb::Get,
            url: self.base.clone().concat("/health"),
            token: None,
            timeout_secs: None,
        }
    }

    /// Deploy (upsert). `device` pins fleet placement ("local" forces the hub itself;
    /// None lets the hub choose). Builds can be slow.
    pub fn deploy(&self, device: Option<&str>) -> (r: Call)
        ensures
            r@ == self.call(
                Verb::Post,
                match device {
                    Some(d) => "/apps"@ + "?device="@ + d@,
                    None => "/apps"@,
                },
                Some(600),
            ),
    {
        match device {
            Some(d) => self.request(
                Verb::Post,
                "/apps".to_owned().concat("?device=").concat(d),
                Some(600),
            ),
            None => self.request(Verb::Post, "/apps".to_owned(), Some(600)),
        }
    }

    /// Deploy with a streamed reply, which keeps the connection alive through a build of
    /// many minutes.
    pub fn deploy_streamed(&self, device: Option<&str>) -> (r: Call)
        ensures
            r@ == self.call(
                Verb::Post,
                "/apps?stream=true&device="@ + (match device {
                    Some(d) => d@,
                    None => ""@,
                }),
                Some(900),
            ),
    {
        let d = match device {
            Some(d) => d,
            None => "",
        };
        self.request(Verb::Post, "/apps?stream=true&device=".to_owned().concat(d), Some(900))
    }

    /// The host's events, all or those of the last days; `follow` keeps the reply open.
    pub fn events(&self, follow: bool, days: Option<&str>) -> (r: Call)
        ensures
            r@ == self.call(
                Verb::Get,
                match days {
                    Some(d) => "/events?follow="@ + bool_text(follow) + "&days="@ + d@,
                    None => "/events?follow="@ + bool_text(follow),
                },
                None,
            ),
    {
        let path = "/events?follow=".to_owned().concat(bool_str(follow));
        match days {
            Some(d) => self.request(Verb::Get, path.concat("&days=").concat(d), None),
            None => self.request(Verb::Get, path, None),
        }
    }

    /// An app's logs; `follow` keeps the reply open.
    pub fn logs(&self, name: &str, follow: bool) -> (r: Call)
        ensures
            r@ == self.call(
                Verb::Get,
                "/apps/"@ + name@ + "/logs?follow="@ + bool_text(follow),
                None,
            ),
    {
        self.request(
            Verb::Get,
            "/apps/".to_owned().concat(name).concat("/logs?follow=").concat(bool_str(follow)),
            None,
        )
    }

    /// Register a device with its hub.
    pub fn join(&self) -> (r: Call)
        ensures
            r@ == self.call(Verb::Post, "/fleet/devices"@, None),
    {
        self.request(Verb::Post, "/fleet/devices".to_owned(), None)
    }

    /// Run the networking self-test (`scope` = "fleet", "local", or a device).
    pub fn run_test(&self, scope: &str) -> (r: Call)
        ensures
            r@ == self.call(Verb::Post, "/test?scope="@ + scope@, Some(180)),
    {
        self.request(Verb::Post, "/test?scope=".to_owned().concat(scope), Some(180))
    }

    pub fn fleet(&self) -> (r: Call)
        ensures
            r@ == self.call(Verb::Get, "/fleet"@, None),
    {
        self.request(Verb::Get, "/fleet".to_owned(), None)
    }

    pub fn fleet_remove(&self, name: &str) -> (r: Call)
        ensures
            r@ == self.call(Verb::Delete, "/fleet/devices/"@ + name@, None),
    {
        self.request(Verb::Delete, "/fleet/devices/".to_owned().concat(name), None)
    }

    /// Run another instance of a hub-hosted app on a fleet device.
    pub fn app_spread(&self, app: &str) -> (r: Call)
        ensures
            r@ == self.call(Verb::Post, "/apps/"@ + app@ + "/spread"@, Some(600)),
    {
        self.request(Verb::Post, "/apps/".to_owned().concat(app).concat("/spread"), Some(600))
    }

    /// Stop running an app on a spread device (`all` = every device).
    pub fn app_gather(&self, app: &str, device: &str) -> (r: Call)
        ensures
            r@ == self.call(Verb::Delete, "/apps/"@ + app@ + "/spread/"@ + device@, None),
    {
        self.request(Verb::Delete, "/apps/".to_owned().concat(app).concat("/spread/").concat(device), None)
    }

    pub fn list_apps(&self) -> (r: Call)
        ensures
            r@ == self.call(Verb::Get, "/apps"@, None),
    {
        self.request(Verb::Get, "/apps".to_owned(), None)
    }

    pub fn get_app(&self, name: &str) -> (r: Call)
        ensures
            r@ == self.call(Verb::Get, "/apps/"@ + name@, None),
    {
        self.request(Verb::Get, "/apps/".to_owned().concat(name), None)
    }

    pub fn app_stats(&self, name: &str) -> (r: Call)
        ensures
            r@ == self.call(Verb::Get, "/apps/"@ + name@ + "/stats"@, None),
    {
        self.request(Verb::Get, "/apps/".to_owned().concat(name).concat("/stats"), None)
    }

    pub fn destroy(&self, name: &str) -> (r: Call)
        ensures
            r@ == self.call(Verb::Delete, "/apps/"@ + name@, None),
    {
        self.request(Verb::Delete, "/apps/".to_owned().concat(name), None)
    }

    pub fn pause(&self, name: &str) -> (r: Call)
        ensures
            r@ == self.call(Verb::Post, "/apps/"@ + name@ + "/pause"@, None),
    {
        self.request(Verb::Post, "/apps/".to_owned().concat(name).concat("/pause"), None)
    }

    pub fn resume(&self, name: &str) -> (r: Call)
        ensures
            r@ == self.call(Verb::Post, "/apps/"@ + name@ + "/resume"@, None),
    {
        self.request(Verb::Post, "/apps/".to_owned().concat(name).concat("/resume"), None)
    }

    pub fn host_status(&self) -> (r: Call)
        ensures
            r@ == self.call(Verb::Get, "/host"@, None),
    {
        self.request(Verb::Get, "/host".to_owned(), None)
    }

    pub fn battery(&self) -> (r: Call)
        ensures
            r@ == self.call(Verb::Get, "/host/battery"@, None),
    {
        self.request(Verb::Get, "/host/battery".to_owned(), None)
    }

    pub fn uptime(&self, since_days: &str) -> (r: Call)
        ensures
            r@ == self.call(Verb::Get, "/host/uptime?days="@ + since_days@, None),
    {
        self.request(Verb::Get, "/host/uptime?days=".to_owned().concat(since_days), None)
    }

    pub fn ps(&self) -> (r: Call)
        ensures
            r@ == self.call(Verb::Get, "/host/ps"@, None),
    {
        self.request(Verb::Get, "/host/ps".to_owned(), None)
    }

    pub fn secrets_update(&self, app: &str) -> (r: Call)
        ensures
            r@ == self.call(Verb::Put, "/apps/"@ + app@ + "/secrets"@, None),
    {
        self.request(Verb::Put, "/apps/".to_owned().concat(app).concat("/secrets"), None)
    }

    pub fn secrets_list(&self, app: &str) -> (r: Call)
        ensures
            r@ == self.call(Verb::Get, "/apps/"@ + app@ + "/secrets"@, None),
    {
        self.request(Verb::Get, "/apps/".to_owned().concat(app).concat("/secrets"), None)
    }

    /// Download this host's source tarball (for hub to device updates).
    pub fn fetch_src(&self) -> (r: Call)
        ensures
            r@ == self.call(Verb::Get, "/host/src"@, Some(120)),
    {
        self.request(Verb::Get, "/host/src".to_owned(), Some(120))
    }

    pub fn domain_claim(&self) -> (r: Call)
        ensures
            r@ == self.call(Verb::Post, "/domain/claim"@, Some(60)),
    {
        self.request(Verb::Post, "/domain/claim".to_owned(), Some(60))
    }

    pub fn domain_release(&self, app: &str) -> (r: Call)
        ensures
            r@ == self.call(Verb::Delete, "/domain/claim/"@ + app@, Some(60)),
    {
        self.request(Verb::Delete, "/domain/claim/".to_owned().concat(app), Some(60))
    }

    pub fn domain_list(&self) -> (r: Call)
        ensures
            r@ == self.call(Verb::Get, "/domain/claims"@, None),
    {
        self.request(Verb::Get, "/domain/claims".to_owned(), None)
    }

    /// Open an ssh tunnel on this host.
    pub fn host_ssh(&self) -> (r: Call)
        ensures
            r@ == self.call(Verb::Post, "/host/ssh"@, Some(90)),
    {
        self.request(Verb::Post, "/host/ssh".to_owned(), Some(90))
    }

    /// Ask a joined device (via the hub) to open its ssh tunnel.
    pub fn fleet_ssh(&self, device: &str) -> (r: Call)
        ensures
            r@ == self.call(Verb::Post, "/fleet/devices/"@ + device@ + "/ssh"@, Some(90)),
    {
        self.request(Verb::Post, "/fleet/devices/".to_owned().concat(device).concat("/ssh"), Some(90))
    }

    /// Hub-side fan-out: every joined device self-updates from this hub.
    pub fn fleet_update(&self) -> (r: Call)
        ensures
            r@ == self.call(Verb::Post, "/fleet/update"@, None),
    {
        self.request(Verb::Post, "/fleet/update".to_owned(), None)
    }

    /// Claim a stable control hostname for this host (its own coordinator).
    pub fn host_stabilize(&self) -> (r: Call)
        ensures
            r@ == self.call(Verb::Post, "/host/stabilize"@, Some(60)),
    {
        self.request(Verb::Post, "/host/stabilize".to_owned(), Some(60))
    }

    /// Hub side: mint a stable control hostname and connector token for a device.
    pub fn fleet_control_token(&self) -> (r: Call)
        ensures
            r@ == self.call(Verb::Post, "/fleet/control-token"@, Some(60)),
    {
        self.request(Verb::Post, "/fleet/control-token".to_owned(), Some(60))
    }

    /// Device side: adopt a hub-minted control hostname locally.
    pub fn host_adopt_control(&self) -> (r: Call)
        ensures
            r@ == self.call(Verb::Post, "/host/adopt-control"@, Some(60)),
    {
        self.request(Verb::Post, "/host/adopt-control".to_owned(), Some(60))
    }

    /// Ask a host to update itself (detached; it rebuilds and restarts).
    pub fn trigger_update(&self) -> (r: Call)
        ensures
            r@ == self.call(Verb::Post, "/host/update"@, None),
    {
        self.request(Verb::Post, "/host/update".to_owned(), None)
    }

    pub fn notify_test(&self) -> (r: Call)
        ensures
            r@ == self.call(Verb::Post, "/notify/test"@, None),
    {
        self.request(Verb::Post, "/notify/test".to_owned(), None)
    }
}

// --------------------------------------------------------------------------- replies

/// The request did not get through.
pub fn unreachable(why: &str) -> (r: ApiError)
    ensures
        r.error@ == ErrorView::DaemonUnreachable(why@),
        r.body.error.code@ == r.error@.code(),
        r.body.error.message@ == r.error@.message(),
        r.body.error.detail is None,
{
    ApiError::from_error(HadesError::DaemonUnreachable(why.to_owned()))
}

/// A reply that succeeded does not read.
pub fn bad_response(why: &str) -> (r: ApiError)
    ensures
        r.error@ == ErrorView::Other("bad response from daemon: "@ + why@),
        r.body.error.code@ == r.error@.code(),
        r.body.error.message@ == r.error@.message(),
        r.body.error.detail is None,
{
    ApiError::from_error(
        HadesError::Other("bad response from daemon: ".to_owned().concat(why)),
    )
}

/// The daemon refused a request. An error body is taken as it is; of another body the
/// status is told too.
pub fn check(status: &str, body: &str, parsed: Option<ErrorBody>) -> (r: ApiError)
    ensures
        match parsed {
            Some(eb) => r.body == eb && r.error@ == error::error_of(
                eb.error.code@,
                eb.error.message@,
            ),
            None => {
                &&& r.error@ == ErrorView::Other("daemon returned "@ + status@ + ": "@ + body@)
                &&& r.body.error.code@ == r.error@.code()
                &&& r.body.error.message@ == r.error@.message()
                &&& r.body.error.detail is None
            },
        },
{
    match parsed {
        Some(eb) => ApiError::from_body(eb),
        None => ApiError::from_error(
            HadesError::Other(
                "daemon returned ".to_owned().concat(status).concat(": ").concat(body),
            ),
        ),
    }
}

/// The daemon refused a request for a stream.
pub fn check_stream(body: &str, parsed: Option<ErrorBody>) -> (r: ApiError)
    ensures
        match parsed {
            Some(eb) => r.body == eb && r.error@ == error::error_of(
                eb.error.code@,
                eb.error.message@,
            ),
            None => {
                &&& r.error@ == ErrorView::Other(body@)
                &&& r.body.error.code@ == r.error@.code()
                &&& r.body.error.message@ == r.error@.message()
                &&& r.body.error.detail is None
            },
        },
{
    match parsed {
        Some(eb) => ApiError::from_body(eb),
        None => ApiError::from_error(HadesError::Other(body.to_owned())),
    }
}

/// What a streamed deploy came to, as JSON.
#[derive(Debug)]
pub enum StreamOutcome {
    Result(String),
    Error(String),
    /// The stream ended without either.
    Nothing,
}

pub enum StreamOutcomeView {
    Result(Seq<char>),
    Error(Seq<char>),
    Nothing,
}

impl View for StreamOutcome {
    type V = StreamOutcomeView;

    open spec fn view(&self) -> StreamOutcomeView {
        match self {
            StreamOutcome::Result(s) => StreamOutcomeView::Result(s@),
            StreamOutcome::Error(s) => StreamOutcomeView::Error(s@),
            StreamOutcome::Nothing => StreamOutcomeView::Nothing,
        }
    }
}

/// The last line that holds a result or an error decides.
pub open spec fn outcome(all: Seq<Seq<char>>) -> StreamOutcomeView
    decreases all.len(),
{
    if all.len() == 0 {
        StreamOutcomeView::Nothing
    } else {
        match json::json_at(all.last(), "/result"@) {
            Some(r) => StreamOutcomeView::Result(r),
            None => match json::json_at(all.last(), "/error"@) {
                Some(e) => StreamOutcomeView::Error(e),
                None => outcome(all.drop_last()),
            },
        }
    }
}

/// What the lines of a streamed deploy come to.
pub fn stream_outcome(body: &str) -> (r: StreamOutcome)
    ensures
        r@ == outcome(split::line_list(body@)),
{
    let all = lines(body);
    let ghost lv = split::views(all@);
    let mut n: usize = all.len();
    assert(lv.take(n as int) =~= lv);
    while n > 0
        invariant
            n <= all.len(),
            lv == split::views(all@),
            lv == split::line_list(body@),
            outcome(lv.take(n as int)) == outcome(lv),
        decreases n,
    {
        assert(lv.take(n as int).last() == all@[n - 1]@);
        assert(lv.take(n as int).drop_last() =~= lv.take(n - 1));
        match value_at(all[n - 1].as_str(), "/result") {
            Some(r) => {
                return StreamOutcome::Result(r);
            },
            None => {},
        }
        match value_at(all[n - 1].as_str(), "/error") {
            Some(e) => {
                return StreamOutcome::Error(e);
            },
            None => {},
        }
        n -= 1;
    }
    assert(lv.take(0) =~= Seq::empty());
    StreamOutcome::Nothing
}

/// A streamed deploy that ended without a result.
pub fn no_result() -> (r: ApiError)
    ensures
        r.error@ == ErrorView::Other("deploy stream ended without a result"@),
        r.body.error.code@ == r.error@.code(),
        r.body.error.message@ == r.error@.message(),
        r.body.error.detail is None,
{
    ApiError::from_error(HadesError::Other("deploy stream ended without a result".to_owned()))
}

// ---------------------------------------------------------------------------- laws

/// A URL with a scheme and no slash at its end is its own base: a client for a host's
/// base URL talks to the same host.
pub proof fn bases_are_stable(url: Seq<char>)
    requires
        text::starts_with(url, "http://"@) || text::starts_with(url, "https://"@),
        !text::ends_with(url, "/"@),
    ensures
        base_of(url) == url,
{
}

/// A host is asked at one base, with or without slashes behind it; one without a scheme is
/// asked over http, at just the address that was given.
pub proof fn hosts_are_asked_where_they_are(host: Seq<char>, url: Seq<char>)
    requires
        text::starts_with(url, "http://"@) || text::starts_with(url, "https://"@),
        !text::starts_with(host, "http://"@) && !text::starts_with(host, "https://"@),
    ensures
        text::strip_prefix(base_of(host), "http://"@) == Some(host),
        base_of(url + "/"@) == base_of(url),
{
    reveal_strlit("/");
    let p = "http://"@;
    let q = "https://"@;
    let end = "/"@;
    assert((p + host).take(p.len() as int) =~= p);
    assert((p + host).skip(p.len() as int) =~= host);
    let more = url + end;
    if text::starts_with(url, p) {
        assert(more.take(p.len() as int) =~= url.take(p.len() as int));
    }
    if text::starts_with(url, q) {
        assert(more.take(q.len() as int) =~= url.take(q.len() as int));
    }
    assert(more.skip(more.len() - end.len()) =~= end);
    assert(more.take(more.len() - end.len()) =~= url);
}

/// Every call goes to the client's host, at the path that is asked for, with the client's
/// token and by the method that is meant.
pub proof fn calls_carry_the_token(
    c: DaemonClient,
    verb: Verb,
    path: Seq<char>,
    timeout_secs: Option<u64>,
)
    ensures
        ({
            let call = c.call(verb, path, timeout_secs);
            &&& text::strip_prefix(call.url, c.base@) == Some(path)
            &&& call.verb == verb && call.timeout_secs == timeout_secs
            &&& c.token matches Some(t) ==> call.token == Some(t@)
            &&& c.token is None ==> call.token is None
        }),
{
    let url = c.base@ + path;
    assert(url.take(c.base@.len() as int) =~= c.base@);
    assert(url.skip(c.base@.len() as int) =~= path);
}

/// The last line with a result or an error decides what a streamed deploy came to, whatever
/// stands before it or, without either, behind it.
pub proof fn the_last_word_decides(
    before: Seq<Seq<char>>,
    line: Seq<char>,
    behind: Seq<Seq<char>>,
)
    requires
        forall|i: int|
            0 <= i < behind.len() ==> json::json_at(#[trigger] behind[i], "/result"@) is None
                && json::json_at(behind[i], "/error"@) is None,
    ensures
        json::json_at(line, "/result"@) matches Some(r) ==> outcome(before.push(line) + behind)
            == StreamOutcomeView::Result(r),
        json::json_at(line, "/result"@) is None ==> (json::json_at(line, "/error"@) matches Some(e)
            ==> outcome(before.push(line) + behind) == StreamOutcomeView::Error(e)),
        outcome(behind) is Nothing,
    decreases behind.len(),
{
    let all = before.push(line) + behind;
    if behind.len() > 0 {
        let fewer = behind.drop_last();
        assert forall|i: int| 0 <= i < fewer.len() implies json::json_at(
            #[trigger] fewer[i],
            "/result"@,
        ) is None && json::json_at(fewer[i], "/error"@) is None by {
            assert(fewer[i] == behind[i]);
        }
        the_last_word_decides(before, line, fewer);
        assert(all.last() == behind[behind.len() - 1]);
        assert(all.drop_last() =~= before.push(line) + fewer);
    } else {
        assert(all =~= before.push(line));
        assert(all.drop_last() =~= before);
    }
}

} // verus!
