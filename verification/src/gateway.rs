//! What the proxy does with one request: whether it is let in, which backends it
//! tries in which order, what it sends along, and what it counts.
use vstd::prelude::*;

use crate::double::Double;
use crate::maps;
use crate::proxy;
use crate::proxy::{normalize_host, AppRoute, Backend, Metrics, RouteTable};
use crate::text;
use crate::text::{same, text_before, to_ascii_lower, without_prefix};

verus! {

// ------------------------------------------------------------------- admission

/// How a request is taken.
#[derive(Debug)]
pub enum Admission {
    /// No app answers to the hostname.
    NotFound,
    /// The app has as many requests in flight as it may have.
    Shed,
    /// The app has nowhere to send the request.
    NoBackend,
    /// The backends to try, in this order, and the serial number of the app's route.
    Forward { app: String, serial: u64, order: Vec<Backend> },
}

impl Admission {
    pub open spec fn status_code(self) -> Option<u16> {
        match self {
            Admission::NotFound => Some(404),
            Admission::Shed => Some(503),
            Admission::NoBackend => Some(502),
            Admission::Forward { .. } => None,
        }
    }

    /// The status that answers a request which is not forwarded.
    pub fn status(&self) -> (r: Option<u16>)
        ensures
            r == self.status_code(),
    {
        match self {
            Admission::NotFound => Some(404),
            Admission::Shed => Some(503),
            Admission::NoBackend => Some(502),
            Admission::Forward { .. } => None,
        }
    }

    /// The `Retry-After` that goes with the answer.
    pub fn retry_after(&self) -> (r: Option<&'static str>)
        ensures
            r is Some <==> self is Shed,
            r matches Some(s) ==> s@ == "1"@,
    {
        match self {
            Admission::Shed => Some("1"),
            _ => None,
        }
    }
}

/// The hostname that a request asks for: its Host header, else the host of its URI.
pub open spec fn requested_host(header: Option<&str>, uri_host: Option<&str>) -> Option<Seq<char>> {
    match header {
        Some(h) => Some(proxy::host_key(h@)),
        None => match uri_host {
            Some(h) => Some(text::ascii_lower(h@)),
            None => None,
        },
    }
}

/// Is the app at its cap?
pub open spec fn at_cap(route: AppRoute) -> bool {
    route.max_inflight matches Some(cap) && route.inflight >= cap
}

/// The app that a request is for.
pub open spec fn requested_app(
    table: RouteTable,
    header: Option<&str>,
    uri_host: Option<&str>,
) -> Option<Seq<char>> {
    match requested_host(header, uri_host) {
        Some(h) => table.app_of(h),
        None => None,
    }
}

/// Both sides of taking a request: the decision and the table afterwards.
pub open spec fn admitted(
    before: RouteTable,
    after: RouteTable,
    app: Option<Seq<char>>,
    r: Admission,
) -> bool {
    match app {
        None => r is NotFound && after.routes@ == before.routes@,
        Some(a) => {
            let route = before.routes@[a];
            if at_cap(route) {
                r is Shed && after.routes@ == before.routes@.insert(
                    a,
                    (AppRoute { shed: proxy::up64(route.shed, 1), ..route }),
                )
            } else if route.backends@.len() == 0 {
                r is NoBackend && after.routes@ == before.routes@.insert(a, route)
            } else {
                &&& r is Forward
                &&& r->app@ == a
                &&& r->serial == route.serial
                &&& proxy::backend_views(r->order@) == proxy::rotation(
                    proxy::backend_views(route.backends@),
                    route.rr as nat,
                )
                &&& after.routes@ == before.routes@.insert(
                    a,
                    (AppRoute { rr: proxy::next_turn(route.rr), ..route }),
                )
            }
        },
    }
}

impl RouteTable {
    /// Take a request: find its app by hostname, shed it when the app is at its
    /// cap, else give the backends in round-robin order.
    pub fn accept(&mut self, header: Option<&str>, uri_host: Option<&str>) -> (r: Admission)
        requires
            old(self).wf(),
        ensures
            final(self).wf(),
            final(self).hosts@ == old(self).hosts@,
            final(self).minted == old(self).minted,
            admitted(*old(self), *final(self), requested_app(*old(self), header, uri_host), r),
    {
        let host = match header {
            Some(h) => Some(normalize_host(h)),
            None => match uri_host {
                Some(h) => Some(to_ascii_lower(h)),
                None => None,
            },
        };
        let app = match host {
            Some(h) => self.lookup(h.as_str()),
            None => None,
        };
        let app = match app {
            Some(a) => a,
            None => {
                return Admission::NotFound;
            },
        };
        let ghost r0 = self.routes@;
        let mut route = match self.routes.remove(app.as_str()) {
            Some(route) => route,
            None => {
                assert(self.routes@ =~= r0);
                return Admission::NotFound;
            },
        };
        let full = match route.max_inflight {
            Some(cap) => route.inflight >= cap,
            None => false,
        };
        let verdict = if full {
            route.shed = if route.shed == u64::MAX {
                0
            } else {
                route.shed + 1
            };
            Admission::Shed
        } else {
            let order = route.backend_order();
            if order.len() == 0 {
                assert(proxy::backend_views(order@).len() == 0);
                Admission::NoBackend
            } else {
                assert(proxy::backend_views(order@).len() > 0);
                Admission::Forward { app: app.clone(), serial: route.serial, order }
            }
        };
        let ghost now = route;
        let ghost a = app@;
        self.routes.insert(app, route);
        assert(self.routes@ =~= r0.insert(a, now));
        verdict
    }

    /// Count a request that is now being forwarded. A route that came after the one that
    /// took the request counts nothing.
    pub fn begin(&mut self, app: &str, serial: u64, metrics: &mut Metrics)
        requires
            old(self).wf(),
        ensures
            final(self).wf(),
            final(self).hosts@ == old(self).hosts@,
            final(self).minted == old(self).minted,
            final(self).routes@ == if carries(*old(self), app@, serial) {
                old(self).routes@.insert(app@, begun(old(self).routes@[app@]))
            } else {
                old(self).routes@
            },
            *final(metrics) == (Metrics {
                inflight: proxy::up32(old(metrics).inflight),
                ..*old(metrics)
            }),
    {
        let ghost r0 = self.routes@;
        match self.routes.remove(app) {
            Some(mut route) => {
                if route.serial == serial {
                    route.inflight = if route.inflight == u32::MAX {
                        0
                    } else {
                        route.inflight + 1
                    };
                    route.requests = if route.requests == u64::MAX {
                        0
                    } else {
                        route.requests + 1
                    };
                }
                let ghost now = route;
                self.routes.insert(app.to_owned(), route);
                assert(self.routes@ =~= r0.insert(app@, now));
                assert(now == r0[app@] ==> r0.insert(app@, now) =~= r0);
            },
            None => {
                assert(self.routes@ =~= r0);
            },
        }
        metrics.inflight = if metrics.inflight == u32::MAX {
            0
        } else {
            metrics.inflight + 1
        };
    }

    /// Count a request that has been answered, after `ms` milliseconds.
    pub fn finish(&mut self, app: &str, serial: u64, metrics: &mut Metrics, ms: Double)
        requires
            old(self).wf(),
        ensures
            final(self).wf(),
            final(self).hosts@ == old(self).hosts@,
            final(self).minted == old(self).minted,
            final(self).routes@.dom() == old(self).routes@.dom(),
            forall|a: Seq<char>|
                a != app@ && old(self).routes@.dom().contains(a) ==> #[trigger] final(self).routes@[a]
                    == old(self).routes@[a],
            carries(*old(self), app@, serial) ==> finished(
                old(self).routes@[app@],
                ms,
                final(self).routes@[app@],
            ),
            !carries(*old(self), app@, serial) ==> final(self).routes@ == old(self).routes@,
            *final(metrics) == (Metrics {
                inflight: proxy::down32(old(metrics).inflight),
                ..*old(metrics)
            }),
    {
        let ghost r0 = self.routes@;
        match self.routes.remove(app) {
            Some(mut route) => {
                if route.serial == serial {
                    route.inflight = if route.inflight == 0 {
                        u32::MAX
                    } else {
                        route.inflight - 1
                    };
                    route.record_latency(ms);
                }
                let ghost now = route;
                self.routes.insert(app.to_owned(), route);
                assert(self.routes@ =~= r0.insert(app@, now));
                assert(now == r0[app@] ==> r0.insert(app@, now) =~= r0);
            },
            None => {
                assert(self.routes@ =~= r0);
            },
        }
        metrics.inflight = if metrics.inflight == 0 {
            u32::MAX
        } else {
            metrics.inflight - 1
        };
    }
}

/// Is the app's route still the one that took the request?
pub open spec fn carries(table: RouteTable, app: Seq<char>, serial: u64) -> bool {
    table.routes@.dom().contains(app) && table.routes@[app].serial == serial
}

/// The route with one more request in flight.
pub open spec fn begun(route: AppRoute) -> AppRoute {
    AppRoute {
        inflight: proxy::up32(route.inflight),
        requests: proxy::up64(route.requests, 1),
        ..route
    }
}

/// Is `after` the route with one request less in flight, and its latency noted?
pub open spec fn finished(before: AppRoute, ms: Double, after: AppRoute) -> bool {
    &&& after.inflight == proxy::down32(before.inflight)
    &&& after.latencies_ms@ == proxy::with_latency(before.latencies_ms@, ms)
    &&& after.app == before.app
    &&& after.serial == before.serial
    &&& after.backends == before.backends
    &&& after.rr == before.rr
    &&& after.max_inflight == before.max_inflight
    &&& after.requests == before.requests
    &&& after.shed == before.shed
}

// -------------------------------------------------------------------- failover

/// What to do after a backend was tried.
#[derive(Debug, Clone, Copy, PartialEq, Eq, Structural)]
pub enum NextStep {
    /// Hand the answer to the visitor.
    Respond,
    /// Try the backend at this position of the order.
    Try(usize),
    /// Every backend failed: answer 502.
    GiveUp,
}

pub open spec fn step_after(at: nat, served: bool, n: nat) -> NextStep {
    if served {
        NextStep::Respond
    } else if at + 1 < n {
        NextStep::Try((at + 1) as usize)
    } else {
        NextStep::GiveUp
    }
}

/// The backend at position `at` of `n` was tried; did it serve the request?
pub fn next_step(at: usize, served: bool, n: usize) -> (r: NextStep)
    requires
        at < n,
    ensures
        r == step_after(at as nat, served, n as nat),
{
    if served {
        NextStep::Respond
    } else if at < n - 1 {
        NextStep::Try(at + 1)
    } else {
        NextStep::GiveUp
    }
}

/// Did a relay serve the request? None means that it could not be reached. A 502
/// or 503 from a relay means "this instance cannot serve right now".
pub fn relay_served(status: Option<u16>) -> (r: bool)
    ensures
        r == (status is Some && status != Some(502u16) && status != Some(503u16)),
{
    match status {
        Some(s) => s != 502 && s != 503,
        None => false,
    }
}

// --------------------------------------------------------------------- headers

/// The header names that belong to a single hop.
pub open spec fn hop_names() -> Seq<Seq<char>> {
    seq![
        "connection"@,
        "keep-alive"@,
        "proxy-authenticate"@,
        "proxy-authorization"@,
        "te"@,
        "trailer"@,
        "transfer-encoding"@,
        "upgrade"@,
        "host"@,
        "content-length"@,
    ]
}

/// Is the name one of these, whatever the case of its letters?
pub open spec fn names_header(name: Seq<char>, list: Seq<Seq<char>>) -> bool {
    list.contains(text::ascii_lower(name))
}

fn is_one_of(name: &str, list: &Vec<&str>) -> (r: bool)
    ensures
        r == (exists|i: int|
            0 <= i < list@.len() && text::ascii_lower(name@) == #[trigger] list@[i]@),
{
    let lower = to_ascii_lower(name);
    let mut i: usize = 0;
    while i < list.len()
        invariant
            i <= list.len(),
            lower@ == text::ascii_lower(name@),
            forall|j: int| 0 <= j < i ==> lower@ != (#[trigger] list@[j])@,
        decreases list.len() - i,
    {
        if same(lower.as_str(), list[i]) {
            return true;
        }
        i += 1;
    }
    false
}

/// Headers that belong to a single hop and must not be relayed onward.
pub fn is_hop_header(name: &str) -> (r: bool)
    ensures
        r == names_header(name@, hop_names()),
{
    let list: Vec<&str> = vec![
        "connection",
        "keep-alive",
        "proxy-authenticate",
        "proxy-authorization",
        "te",
        "trailer",
        "transfer-encoding",
        "upgrade",
        "host",
        "content-length",
    ];
    let r = is_one_of(name, &list);
    proof {
        let names = hop_names();
        assert(forall|i: int| 0 <= i < 10 ==> (#[trigger] list@[i])@ == names[i]);
        if r {
            let i = choose|i: int|
                0 <= i < list@.len() && text::ascii_lower(name@) == #[trigger] list@[i]@;
            assert(names[i] == text::ascii_lower(name@));
        }
        if names.contains(text::ascii_lower(name@)) {
            let i = choose|i: int| 0 <= i < names.len() && names[i] == text::ascii_lower(name@);
            assert(list@[i]@ == names[i]);
        }
    }
    r
}

/// Does a request header go along to another machine? The visitor's own
/// credentials stay behind: the machine's token takes their place.
pub open spec fn sent_along(name: Seq<char>) -> bool {
    !names_header(name, hop_names()) && text::ascii_lower(name) != "authorization"@
}

/// Does a request header go along to another machine?
pub fn goes_to_remote(name: &str) -> (r: bool)
    ensures
        r == sent_along(name@),
{
    !is_hop_header(name) && !same(to_ascii_lower(name).as_str(), "authorization")
}

/// The request headers that a relay does not hand to the local instance.
pub open spec fn relay_request_names() -> Seq<Seq<char>> {
    seq![
        "host"@,
        "authorization"@,
        "content-length"@,
        "connection"@,
        "transfer-encoding"@,
    ]
}

pub fn relay_keeps_request_header(name: &str) -> (r: bool)
    ensures
        r == !names_header(name@, relay_request_names()),
{
    let list: Vec<&str> = vec![
        "host",
        "authorization",
        "content-length",
        "connection",
        "transfer-encoding",
    ];
    let found = is_one_of(name, &list);
    proof {
        let names = relay_request_names();
        assert(forall|i: int| 0 <= i < 5 ==> (#[trigger] list@[i])@ == names[i]);
        if found {
            let i = choose|i: int|
                0 <= i < list@.len() && text::ascii_lower(name@) == #[trigger] list@[i]@;
            assert(names[i] == text::ascii_lower(name@));
        }
        if names.contains(text::ascii_lower(name@)) {
            let i = choose|i: int| 0 <= i < names.len() && names[i] == text::ascii_lower(name@);
            assert(list@[i]@ == names[i]);
        }
    }
    !found
}

/// The response headers that a relay does not hand back.
pub open spec fn relay_response_names() -> Seq<Seq<char>> {
    seq!["transfer-encoding"@, "connection"@, "content-length"@]
}

pub fn relay_keeps_response_header(name: &str) -> (r: bool)
    ensures
        r == !names_header(name@, relay_response_names()),
{
    let list: Vec<&str> = vec!["transfer-encoding", "connection", "content-length"];
    let found = is_one_of(name, &list);
    proof {
        let names = relay_response_names();
        assert(forall|i: int| 0 <= i < 3 ==> (#[trigger] list@[i])@ == names[i]);
        if found {
            let i = choose|i: int|
                0 <= i < list@.len() && text::ascii_lower(name@) == #[trigger] list@[i]@;
            assert(names[i] == text::ascii_lower(name@));
        }
        if names.contains(text::ascii_lower(name@)) {
            let i = choose|i: int| 0 <= i < names.len() && names[i] == text::ascii_lower(name@);
            assert(list@[i]@ == names[i]);
        }
    }
    !found
}

// ----------------------------------------------------------------------- relay

/// The app that a relayed path names: what precedes its first slash.
pub fn relay_app(path: &str) -> (r: String)
    ensures
        r@ == text::before(path@, "/"@),
{
    text_before(path, "/")
}

/// The path and query that a relayed request asks the app for.
pub open spec fn relay_rest(app: Seq<char>, path_and_query: Seq<char>) -> Seq<char> {
    match text::strip_prefix(path_and_query, "/_relay/"@ + app) {
        Some(rest) => if rest.len() == 0 {
            "/"@
        } else {
            rest
        },
        None => "/"@,
    }
}

/// Where a relayed request goes on this machine.
pub open spec fn relay_target(
    addr: Seq<char>,
    app: Seq<char>,
    path_and_query: Option<Seq<char>>,
) -> Seq<char> {
    "http://"@ + addr + relay_rest(
        app,
        match path_and_query {
            Some(p) => p,
            None => "/"@,
        },
    )
}

/// Where a relayed request goes on this machine.
pub fn relay_url(addr: &str, app: &str, path_and_query: Option<&str>) -> (r: String)
    ensures
        r@ == relay_target(
            addr@,
            app@,
            match path_and_query {
                Some(p) => Some(p@),
                None => None,
            },
        ),
{
    let pq = match path_and_query {
        Some(p) => p,
        None => "/",
    };
    let prefix = "/_relay/".to_owned().concat(app);
    let rest = match without_prefix(pq, prefix.as_str()) {
        Some(rest) => if rest.as_str().is_empty() {
            "/".to_owned()
        } else {
            rest
        },
        None => "/".to_owned(),
    };
    "http://".to_owned().concat(addr).concat(rest.as_str())
}

// ------------------------------------------------------------------------ laws

/// Every backend is in the order that a request tries, and the order holds nothing
/// else: a request reaches a live backend whatever the turn is.
pub proof fn order_covers_all_backends(backends: Seq<proxy::BackendView>, turn: nat, j: int)
    requires
        0 <= j < backends.len(),
    ensures
        proxy::rotation(backends, turn).len() == backends.len(),
        proxy::rotation(backends, turn).contains(backends[j]),
        backends.contains(proxy::rotation(backends, turn)[j]),
{
    let n = backends.len() as int;
    let s = (turn % backends.len()) as int;
    let r = proxy::rotation(backends, turn);
    let k = if j >= s {
        j - s
    } else {
        j - s + n
    };
    assert(0 <= k < n);
    assert((s + k) % n == j) by {
        if j >= s {
            vstd::arithmetic::div_mod::lemma_small_mod(j as nat, n as nat);
        } else {
            assert(1 * n == n);
            vstd::arithmetic::div_mod::lemma_fundamental_div_mod_converse(s + k, n, 1, j);
        }
    }
    assert(r[k] == backends[j]);
    vstd::arithmetic::div_mod::lemma_mod_bound(s + j, n);
    assert(backends[(s + j) % n] == r[j]);
}

/// Round robin is fair: of as many consecutive turns as there are backends, each
/// backend leads one.
pub proof fn round_robin_is_fair(backends: Seq<proxy::BackendView>, turn: nat, j: int)
    requires
        0 <= j < backends.len(),
    ensures
        exists|k: nat|
            k < backends.len() && #[trigger] proxy::rotation(backends, turn + k)[0] == backends[j],
{
    let n = backends.len() as int;
    let s = turn as int % n;
    let k = (if j >= s {
        j - s
    } else {
        j - s + n
    }) as nat;
    let q = turn as int / n;
    vstd::arithmetic::div_mod::lemma_fundamental_div_mod(turn as int, n);
    assert((turn + k) as int % n == j) by {
        if j >= s {
            assert(turn + k == q * n + j) by (nonlinear_arith)
                requires
                    turn == n * q + s,
                    k == j - s,
            ;
            vstd::arithmetic::div_mod::lemma_fundamental_div_mod_converse(
                (turn + k) as int,
                n,
                q,
                j,
            );
        } else {
            assert(turn + k == (q + 1) * n + j) by (nonlinear_arith)
                requires
                    turn == n * q + s,
                    k == j - s + n,
            ;
            vstd::arithmetic::div_mod::lemma_fundamental_div_mod_converse(
                (turn + k) as int,
                n,
                q + 1,
                j,
            );
        }
    }
    vstd::arithmetic::div_mod::lemma_small_mod(j as nat, n as nat);
    assert(proxy::rotation(backends, turn + k)[0] == backends[j]);
}

/// The position that serves the request, when the backends from `at` on are tried
/// one after the other as `next_step` says.
pub open spec fn served_at(alive: Seq<bool>, at: nat) -> Option<nat>
    decreases alive.len() - at,
{
    if at >= alive.len() {
        None
    } else {
        match step_after(at, alive[at as int], alive.len()) {
            NextStep::Respond => Some(at),
            NextStep::Try(_) => served_at(alive, at + 1),
            NextStep::GiveUp => None,
        }
    }
}

/// A dead backend falls through to a live one: the request is served by the first
/// backend in the order that is alive, and fails only when none is.
pub proof fn first_live_backend_serves(alive: Seq<bool>, at: nat)
    requires
        at <= alive.len(),
    ensures
        served_at(alive, at) is None <==> forall|i: int| at <= i < alive.len() ==> !#[trigger] alive[i],
        served_at(alive, at) matches Some(k) ==> {
            &&& at <= k < alive.len()
            &&& alive[k as int]
            &&& forall|i: int| at <= i < k ==> !#[trigger] alive[i]
        },
    decreases alive.len() - at,
{
    if at < alive.len() {
        if !alive[at as int] && at + 1 < alive.len() {
            first_live_backend_serves(alive, at + 1);
        } else if alive[at as int] {
            assert(alive[at as int]);
        }
    }
}

/// A request that comes and goes leaves the in-flight counters as they were.
pub proof fn requests_leave_no_trace_in_flight(route: AppRoute, ms: Double, after: AppRoute)
    requires
        finished(begun(route), ms, after),
    ensures
        after.inflight == route.inflight,
        after.requests == proxy::up64(route.requests, 1),
        after.shed == route.shed,
        after.rr == route.rr,
{
}

/// A shed request touches no backend and leaves everything but the shed counter of
/// its app as it was; below the cap nothing is shed.
pub proof fn shedding_is_only_at_the_cap(
    before: RouteTable,
    after: RouteTable,
    app: Seq<char>,
    r: Admission,
)
    requires
        admitted(before, after, Some(app), r),
    ensures
        r is Shed <==> at_cap(before.routes@[app]),
        r is Shed ==> after.routes@ == before.routes@.insert(
            app,
            (AppRoute {
                shed: proxy::up64(before.routes@[app].shed, 1),
                ..before.routes@[app]
            }),
        ),
        before.routes@[app].max_inflight is None ==> r !is Shed,
{
}

/// After an app's route is set, exactly the listed hostnames lead to it, and the
/// hostnames of other apps lead where they led, unless they are among the listed.
pub proof fn set_app_retires_stale_hostnames(
    before: Map<Seq<char>, Seq<char>>,
    names: Seq<Seq<char>>,
    app: Seq<char>,
    h: Seq<char>,
)
    ensures
        ({
            let after = proxy::with_hosts(maps::without_value(before, app), names, app);
            let listed = exists|i: int|
                0 <= i < names.len() && proxy::host_key(#[trigger] names[i]) == h;
            &&& (after.dom().contains(h) && after[h] == app) <==> listed
            &&& !listed ==> (after.dom().contains(h) <==> before.dom().contains(h) && before[h]
                != app)
            &&& !listed && after.dom().contains(h) ==> after[h] == before[h]
        }),
{
    let cleared = maps::without_value(before, app);
    proxy::lemma_with_hosts(cleared, names, app);
    let after = proxy::with_hosts(cleared, names, app);
    assert(after.dom().contains(h) || !after.dom().contains(h));
}

/// A removed app is not reachable under any hostname; other apps are as before.
pub proof fn removed_apps_are_unreachable(
    before: Map<Seq<char>, Seq<char>>,
    app: Seq<char>,
    h: Seq<char>,
)
    ensures
        ({
            let after = maps::without_value(before, app);
            &&& after.dom().contains(h) ==> after[h] != app
            &&& before.dom().contains(h) && before[h] != app ==> after.dom().contains(h) && after[h]
                == before[h]
        }),
{
}

/// What a visitor asks for arrives: the path and query that are sent to the relay of an app
/// on another machine are those that its instance there is asked for.
pub proof fn relayed_paths_arrive(app: Seq<char>, base: Seq<char>, token: Seq<char>, path: Seq<char>)
    requires
        path.len() > 0,
    ensures
        ({
            let relay = proxy::BackendView::Remote { relay: base + "/_relay/"@ + app, token };
            let sent = proxy::backend_url(relay, path);
            &&& text::strip_prefix(sent, base) matches Some(asked)
            &&& relay_rest(app, asked) == path
        }),
{
    let prefix = "/_relay/"@ + app;
    let relay = proxy::BackendView::Remote { relay: base + "/_relay/"@ + app, token };
    let sent = proxy::backend_url(relay, path);
    assert(sent.take(base.len() as int) =~= base);
    let asked = sent.skip(base.len() as int);
    assert(asked =~= prefix + path);
    assert(asked.take(prefix.len() as int) =~= prefix);
    assert(asked.skip(prefix.len() as int) =~= path);
}

/// The visitor's credentials never leave for another machine, and the token that lets the
/// request in there is not handed to the app.
pub proof fn credentials_stay(name: Seq<char>)
    requires
        text::ascii_lower(name) == "authorization"@,
    ensures
        !sent_along(name),
        names_header(name, relay_request_names()),
{
    assert(relay_request_names()[1] == "authorization"@);
}

/// What a visitor asks for arrives at a local replica: without "http://" and the address, its
/// URL is exactly the path and query.
pub proof fn local_paths_arrive(addr: Seq<char>, path_and_query: Seq<char>)
    ensures
        ({
            let sent = proxy::backend_url(proxy::BackendView::Local(addr), path_and_query);
            let asked = text::strip_prefix(sent, "http://"@);
            &&& asked is Some
            &&& text::strip_prefix(asked->0, addr) == Some(path_and_query)
            &&& sent.len() == "http://"@.len() + addr.len() + path_and_query.len()
            &&& sent.skip(sent.len() - path_and_query.len()) == path_and_query
        }),
{
    let sent = proxy::backend_url(proxy::BackendView::Local(addr), path_and_query);
    let head = "http://"@;
    assert(sent.take(head.len() as int) =~= head);
    let asked = sent.skip(head.len() as int);
    assert(asked =~= addr + path_and_query);
    assert(asked.take(addr.len() as int) =~= addr);
    assert(asked.skip(addr.len() as int) =~= path_and_query);
    assert(sent.skip(sent.len() - path_and_query.len()) =~= path_and_query);
}

/// And it arrives over a relay: the hub sends the path behind the relay's URL, and the machine
/// there asks the app's own address for exactly that path. Where there is no path, the root
/// is asked for.
pub proof fn relays_hand_paths_on(
    addr: Seq<char>,
    app: Seq<char>,
    base: Seq<char>,
    token: Seq<char>,
    path: Seq<char>,
)
    requires
        path.len() > 0,
    ensures
        ({
            let relay = proxy::BackendView::Remote { relay: base + "/_relay/"@ + app, token };
            let asked = text::strip_prefix(proxy::backend_url(relay, path), base);
            let sent = relay_target(addr, app, asked);
            &&& asked is Some
            &&& sent.take(("http://"@ + addr).len() as int) == "http://"@ + addr
            &&& sent.skip(("http://"@ + addr).len() as int) == path
        }),
        relay_target(addr, app, None) == "http://"@ + addr + "/"@,
{
    relayed_paths_arrive(app, base, token, path);
    let head = "http://"@ + addr;
    assert((head + path).take(head.len() as int) =~= head);
    assert((head + path).skip(head.len() as int) =~= path);
    reveal_strlit("/_relay/");
    reveal_strlit("/");
}

/// The backend that is tried first moves on by one with each request that is forwarded, and
/// the others follow in their order: of two requests in a row, the second tries what the
/// first would have tried next.
pub proof fn turns_move_on(
    t0: RouteTable,
    t1: RouteTable,
    t2: RouteTable,
    app: Seq<char>,
    first: Admission,
    second: Admission,
    k: int,
)
    requires
        admitted(t0, t1, Some(app), first),
        admitted(t1, t2, Some(app), second),
        first is Forward,
        t0.routes@[app].rr < usize::MAX,
        0 <= k < t0.routes@[app].backends@.len(),
    ensures
        ({
            let all = t0.routes@[app].backends@;
            let a = proxy::backend_views(first->order@);
            let b = proxy::backend_views(second->order@);
            let n = all.len() as int;
            &&& second is Forward
            &&& first->app@ == app && second->app@ == app
            &&& first->order@.len() == n && second->order@.len() == n
            &&& a[k] == all[(t0.routes@[app].rr + k) % n]@
            &&& b[k] == a[(k + 1) % n]
        }),
{
    let r = t0.routes@[app];
    let n = r.backends@.len() as int;
    let bv = proxy::backend_views(r.backends@);
    let t = r.rr as int;
    assert(t1.routes@[app].backends == r.backends);
    assert(first->order@.len() == proxy::backend_views(first->order@).len());
    vstd::arithmetic::div_mod::lemma_add_mod_noop(t, k, n);
    vstd::arithmetic::div_mod::lemma_small_mod(k as nat, n as nat);
    assert(((t % n) + k) % n == (t + k) % n);
    vstd::arithmetic::div_mod::lemma_add_mod_noop(t + 1, k, n);
    assert((((t + 1) % n) + k) % n == (t + 1 + k) % n);
    vstd::arithmetic::div_mod::lemma_add_mod_noop(t, k + 1, n);
    let j = (k + 1) % n;
    assert(((t % n) + j) % n == (t + (k + 1)) % n);
    assert(second->order@.len() == proxy::backend_views(second->order@).len());
}

/// A request is shed if and only if its app has a cap and as many requests in flight already;
/// else it is forwarded where there is a backend. Other apps are not touched.
pub proof fn requests_are_taken_below_the_cap(
    before: RouteTable,
    after: RouteTable,
    app: Seq<char>,
    r: Admission,
    other: Seq<char>,
)
    requires
        admitted(before, after, Some(app), r),
    ensures
        ({
            let route = before.routes@[app];
            let full = route.max_inflight is Some && route.inflight >= route.max_inflight->0;
            &&& r is Shed <==> full
            &&& r is NoBackend <==> !full && route.backends@.len() == 0
            &&& r is Forward <==> !full && route.backends@.len() > 0
            &&& r is Forward ==> r->serial == route.serial
            &&& other != app ==> after.routes@[other] == before.routes@[other]
            &&& r is Shed && route.shed < u64::MAX ==> after.routes@[app].shed == route.shed + 1
            &&& r !is Shed ==> after.routes@[app].shed == route.shed
            &&& after.routes@[app].backends == route.backends
            &&& after.routes@[app].inflight == route.inflight
            &&& after.routes@[app].requests == route.requests
            &&& r.status_code() == (if full {
                Some(503u16)
            } else if route.backends@.len() == 0 {
                Some(502u16)
            } else {
                None
            })
        }),
{
}

/// A request counts while it is under way, and once among the requests; its latency is noted
/// as the latest, behind those that were noted before.
pub proof fn requests_are_counted_once(route: AppRoute, ms: Double, after: AppRoute)
    requires
        finished(begun(route), ms, after),
        route.inflight < u32::MAX,
        route.requests < u64::MAX,
        route.latencies_ms@.len() <= 1024,
    ensures
        begun(route).inflight == route.inflight + 1,
        begun(route).requests == route.requests + 1,
        after.inflight == route.inflight,
        after.requests == route.requests + 1,
        after.latencies_ms@.len() > 0,
        after.latencies_ms@.last() == ms,
        after.latencies_ms@.len() <= 1024,
        route.latencies_ms@.len() < 1024 ==> after.latencies_ms@.drop_last() == route.latencies_ms@,
        route.latencies_ms@.len() == 1024 ==> after.latencies_ms@.drop_last()
            == route.latencies_ms@.skip(1),
        after.backends == route.backends,
{
    assert(after.latencies_ms@.drop_last() =~= if route.latencies_ms@.len() < 1024 {
        route.latencies_ms@
    } else {
        route.latencies_ms@.skip(1)
    });
}

/// A backend that did not serve hands over to the very next one, and after the last there is
/// none.
pub proof fn the_next_backend_is_tried(at: nat, n: nat)
    requires
        at < n <= usize::MAX,
    ensures
        step_after(at, true, n) == NextStep::Respond,
        at + 1 < n ==> (step_after(at, false, n) matches NextStep::Try(k) && k == at + 1),
        at + 1 == n ==> step_after(at, false, n) == NextStep::GiveUp,
{
}

/// A hostname that was given to an app leads to it, in whatever case it is asked for and
/// whatever port stands behind it.
pub proof fn hostnames_lead_to_their_app(
    before: Map<Seq<char>, Seq<char>>,
    names: Seq<Seq<char>>,
    app: Seq<char>,
    i: int,
    asked: Seq<char>,
    port: Seq<char>,
)
    requires
        0 <= i < names.len(),
        forall|j: int| 0 <= j < names[i].len() ==> #[trigger] names[i][j] != ':',
        text::ascii_lower(asked) == text::ascii_lower(names[i]),
        port.len() == 0 || port[0] == ':',
    ensures
        ({
            let after = proxy::with_hosts(before, names, app);
            let key = proxy::host_key(asked + port);
            &&& after.dom().contains(key)
            &&& after[key] == app
            &&& key == text::ascii_lower(names[i])
        }),
{
    let name = names[i];
    proxy::lemma_with_hosts(before, names, app);
    assert(asked.len() == text::ascii_lower(asked).len());
    assert(name.len() == text::ascii_lower(name).len());
    assert forall|j: int| 0 <= j < asked.len() implies #[trigger] asked[j] != ':' by {
        assert(text::ascii_lower(asked)[j] == text::ascii_lower(name)[j]);
        assert(name[j] != ':');
    }
    lemma_before_colon(asked, port);
    lemma_before_colon(name, Seq::empty());
    assert(name + Seq::<char>::empty() =~= name);
    assert(proxy::host_key(names[i]) == text::ascii_lower(name));
}

proof fn lemma_before_colon(name: Seq<char>, port: Seq<char>)
    requires
        forall|j: int| 0 <= j < name.len() ==> #[trigger] name[j] != ':',
        port.len() == 0 || port[0] == ':',
    ensures
        text::before(name + port, ":"@) == name,
{
    reveal_strlit(":");
    let s = name + port;
    text::lemma_first_at(s, ":"@, 0);
    if port.len() == 0 {
        assert(s =~= name);
        text::lemma_absent(s, ":"@);
    } else {
        let n = name.len() as int;
        assert(s.subrange(n, n + 1) =~= ":"@);
        assert(text::stands_at(s, ":"@, n));
        let i = text::first_at(s, ":"@, 0)->0;
        if i < n {
            assert(s.subrange(i, i + 1)[0] == name[i]);
        }
        assert(s.take(n) =~= name);
    }
}

/// Headers of one hop are not sent on, in whatever case they are written, and every other
/// header is, but for the visitor's credentials.
pub proof fn only_hop_headers_stay(name: Seq<char>)
    ensures
        ({
            let n = text::ascii_lower(name);
            let hop = n == "connection"@ || n == "keep-alive"@ || n == "proxy-authenticate"@ || n
                == "proxy-authorization"@ || n == "te"@ || n == "trailer"@ || n
                == "transfer-encoding"@ || n == "upgrade"@ || n == "host"@ || n
                == "content-length"@;
            &&& names_header(name, hop_names()) <==> hop
            &&& sent_along(name) <==> !hop && n != "authorization"@
            &&& names_header(name, relay_request_names()) <==> n == "host"@ || n == "authorization"@
                || n == "content-length"@ || n == "connection"@ || n == "transfer-encoding"@
            &&& names_header(name, relay_response_names()) <==> n == "transfer-encoding"@ || n
                == "connection"@ || n == "content-length"@
        }),
{
    let n = text::ascii_lower(name);
    let h = hop_names();
    assert(h[0] == "connection"@ && h[1] == "keep-alive"@ && h[2] == "proxy-authenticate"@ && h[3]
        == "proxy-authorization"@ && h[4] == "te"@ && h[5] == "trailer"@ && h[6]
        == "transfer-encoding"@ && h[7] == "upgrade"@ && h[8] == "host"@ && h[9]
        == "content-length"@);
    let q = relay_request_names();
    assert(q[0] == "host"@ && q[1] == "authorization"@ && q[2] == "content-length"@ && q[3]
        == "connection"@ && q[4] == "transfer-encoding"@);
    let p = relay_response_names();
    assert(p[0] == "transfer-encoding"@ && p[1] == "connection"@ && p[2] == "content-length"@);
}

/// A relayed request goes to one of the app's local backends, if it has any, and as many
/// requests in a row as there are go to each of them.
pub proof fn relayed_requests_take_turns(backends: Seq<proxy::BackendView>, turn: usize, i: int)
    requires
        0 <= i < backends.len(),
        turn + backends.len() < usize::MAX,
    ensures
        backends[i] matches proxy::BackendView::Local(a) ==> exists|k: nat|
            k < backends.len() && #[trigger] proxy::local_turn(backends, (turn + k) as usize)
                == Some(a),
        proxy::local_turn(backends, turn) matches Some(a) ==> backends.contains(
            proxy::BackendView::Local(a),
        ),
{
    let locals = proxy::local_addrs(backends);
    lemma_locals(backends);
    if backends[i] is Local {
        let a = backends[i]->Local_0;
        assert(backends.contains(proxy::BackendView::Local(a)));
        assert(locals.contains(a));
        let j = choose|j: int| 0 <= j < locals.len() && locals[j] == a;
        let n = locals.len() as int;
        let s = turn as int % n;
        let k: int = if j >= s {
            j - s
        } else {
            j - s + n
        };
        vstd::arithmetic::div_mod::lemma_fundamental_div_mod(turn as int, n);
        let q = turn as int / n;
        if j >= s {
            assert(turn + k == q * n + j) by (nonlinear_arith)
                requires
                    turn == n * q + s,
                    k == j - s,
            ;
            vstd::arithmetic::div_mod::lemma_fundamental_div_mod_converse(turn + k, n, q, j);
        } else {
            assert(turn + k == (q + 1) * n + j) by (nonlinear_arith)
                requires
                    turn == n * q + s,
                    k == j - s + n,
            ;
            vstd::arithmetic::div_mod::lemma_fundamental_div_mod_converse(turn + k, n, q + 1, j);
        }
        assert(proxy::local_turn(backends, (turn + k) as usize) == Some(a));
        assert((turn + (k as nat)) as usize == (turn + k) as usize);
    }
    if locals.len() > 0 {
        let at = turn as int % locals.len() as int;
        assert(locals.contains(locals[at]));
    }
}

proof fn lemma_locals(backends: Seq<proxy::BackendView>)
    ensures
        proxy::local_addrs(backends).len() <= backends.len(),
        forall|a: Seq<char>| #[trigger]
            proxy::local_addrs(backends).contains(a) <==> backends.contains(
                proxy::BackendView::Local(a),
            ),
    decreases backends.len(),
{
    let all = proxy::local_addrs(backends);
    if backends.len() == 0 {
        assert forall|a: Seq<char>| #[trigger] all.contains(a) <==> backends.contains(
            proxy::BackendView::Local(a),
        ) by {}
    } else {
        let front = backends.drop_last();
        let last = backends.last();
        lemma_locals(front);
        let rest = proxy::local_addrs(front);
        assert forall|a: Seq<char>| #[trigger] all.contains(a) <==> backends.contains(
            proxy::BackendView::Local(a),
        ) by {
            let b = proxy::BackendView::Local(a);
            if backends.contains(b) {
                let i = choose|i: int| 0 <= i < backends.len() && backends[i] == b;
                if i < front.len() {
                    assert(front[i] == b);
                    assert(rest.contains(a));
                    let j = choose|j: int| 0 <= j < rest.len() && rest[j] == a;
                    assert(all[j] == a);
                } else {
                    assert(all[rest.len() as int] == a);
                }
            }
            if all.contains(a) {
                let j = choose|j: int| 0 <= j < all.len() && all[j] == a;
                if j < rest.len() {
                    assert(rest[j] == a);
                    assert(rest.contains(a));
                    let i = choose|i: int| 0 <= i < front.len() && front[i] == b;
                    assert(backends[i] == b);
                } else {
                    assert(backends[backends.len() - 1] == b);
                }
            }
        }
    }
}

/// A request is for the app that holds the name in its `Host` header, in whatever letters and
/// with whatever port it is written; only without a header the name in its URI counts.
pub proof fn the_header_names_the_app(
    table: RouteTable,
    header: &str,
    uri_host: Option<&str>,
    name: Seq<char>,
    port: Seq<char>,
)
    requires
        header@ == name + port,
        forall|j: int| 0 <= j < name.len() ==> #[trigger] name[j] != ':',
        port.len() == 0 || port[0] == ':',
    ensures
        requested_app(table, Some(header), uri_host) == if table.hosts@.dom().contains(
            text::ascii_lower(name),
        ) {
            Some(table.hosts@[text::ascii_lower(name)])
        } else {
            None
        },
        requested_app(table, None, None) is None,
        uri_host matches Some(h) ==> requested_app(table, None, uri_host)
            == if table.hosts@.dom().contains(text::ascii_lower(h@)) {
            Some(table.hosts@[text::ascii_lower(h@)])
        } else {
            None
        },
{
    lemma_before_colon(name, port);
}

} // verus!
