//! Reverse proxy: Host-header routing. A hostname maps to a set of replica
//! backends (round-robin), an app can own several hostnames, and each app carries
//! an optional in-flight cap: over the cap requests are shed with 503 and
//! Retry-After rather than letting one app starve the machine.
//!
//! Backends are local (a loopback replica port) or remote (an instance of the
//! same app on another fleet machine, reached through that machine's relay). A
//! route holds both kinds and round-robins across all of them, so a single dead
//! machine just drops out.
use vstd::prelude::*;

use crate::double::Double;
use crate::maps;
use crate::maps::TextMap;
use crate::names;
use crate::names::NameMap;
use crate::number;
use crate::number::parse_u64;
use crate::order;
use crate::order::{rank, SortKey};
use crate::split;
use crate::text;
use crate::text::{text_before, to_ascii_lower};

verus! {

/// How many latencies an app's percentiles are taken over.
pub const LATENCY_WINDOW: usize = 1024;

/// One place an app's traffic can go.
#[derive(Debug, PartialEq, Eq)]
pub enum Backend {
    /// A loopback replica on this machine, by its address.
    Local(String),
    /// The same app on another fleet machine: the URL prefix of its relay, and that
    /// machine's bearer token. The request's path and query are appended.
    Remote { relay: String, token: String },
}

/// The contents of a `Backend`.
pub enum BackendView {
    Local(Seq<char>),
    Remote { relay: Seq<char>, token: Seq<char> },
}

impl View for Backend {
    type V = BackendView;

    open spec fn view(&self) -> BackendView {
        match self {
            Backend::Local(x) => BackendView::Local(x@),
            Backend::Remote { relay, token } => BackendView::Remote {
                relay: relay@,
                token: token@,
            },
        }
    }
}

impl Clone for Backend {
    fn clone(&self) -> (r: Self)
        ensures
            r@ == self@,
    {
        match self {
            Backend::Local(x) => Backend::Local(x.clone()),
            Backend::Remote { relay, token } => Backend::Remote {
                relay: relay.clone(),
                token: token.clone(),
            },
        }
    }
}

pub open spec fn backend_views(v: Seq<Backend>) -> Seq<BackendView> {
    Seq::new(v.len(), |i: int| v[i]@)
}

impl Backend {
    pub fn local(addr: String) -> (r: Self)
        ensures
            r@ == BackendView::Local(addr@),
    {
        Backend::Local(addr)
    }

    /// Where a request with this path and query goes.
    pub fn url(&self, path_and_query: &str) -> (r: String)
        ensures
            r@ == backend_url(self@, path_and_query@),
    {
        match self {
            Backend::Local(addr) => "http://".to_owned().concat(addr.as_str()).concat(
                path_and_query,
            ),
            Backend::Remote { relay, .. } => relay.clone().concat(path_and_query),
        }
    }
}

pub open spec fn backend_url(b: BackendView, path_and_query: Seq<char>) -> Seq<char> {
    match b {
        BackendView::Local(addr) => "http://"@ + addr + path_and_query,
        BackendView::Remote { relay, .. } => relay + path_and_query,
    }
}

/// Process-wide proxy throughput: cumulative counters.
#[derive(Debug, Clone, Copy, PartialEq, Eq, Structural)]
pub struct Metrics {
    pub requests: u64,
    pub bytes: u64,
    pub inflight: u32,
}

impl Default for Metrics {
    fn default() -> (r: Self)
        ensures
            r.requests == 0,
            r.bytes == 0,
            r.inflight == 0,
    {
        Metrics { requests: 0, bytes: 0, inflight: 0 }
    }
}

/// Counters go round at the end of their range.
pub open spec fn up64(n: u64, by: u64) -> u64 {
    if n + by > u64::MAX {
        (n + by - 0x1_0000_0000_0000_0000) as u64
    } else {
        (n + by) as u64
    }
}

pub open spec fn up32(n: u32) -> u32 {
    if n == u32::MAX {
        0
    } else {
        (n + 1) as u32
    }
}

pub open spec fn down32(n: u32) -> u32 {
    if n == 0 {
        u32::MAX
    } else {
        (n - 1) as u32
    }
}

pub open spec fn next_turn(n: usize) -> usize {
    if n == usize::MAX {
        0
    } else {
        (n + 1) as usize
    }
}

fn add64(n: u64, by: u64) -> (r: u64)
    ensures
        r == up64(n, by),
{
    if by > u64::MAX - n {
        by - (u64::MAX - n) - 1
    } else {
        n + by
    }
}

impl Metrics {
    pub fn snapshot(&self) -> (r: (u64, u64, u32))
        ensures
            r == (self.requests, self.bytes, self.inflight),
    {
        (self.requests, self.bytes, self.inflight)
    }

    /// A request was answered on this machine; its response named this length.
    pub fn served(&mut self, content_length: Option<&str>)
        ensures
            final(self).requests == up64(old(self).requests, 1),
            final(self).inflight == old(self).inflight,
            final(self).bytes == match content_length {
                Some(s) => match number::unsigned(s@, u64::MAX as nat) {
                    Some(n) => up64(old(self).bytes, n as u64),
                    None => old(self).bytes,
                },
                None => old(self).bytes,
            },
    {
        self.requests = add64(self.requests, 1);
        match content_length {
            Some(s) => match parse_u64(s) {
                Some(n) => {
                    self.bytes = add64(self.bytes, n);
                },
                None => {},
            },
            None => {},
        }
    }

    /// A request that another machine passed on is real load on this one.
    pub fn relay_begins(&mut self)
        ensures
            *final(self) == (Metrics {
                requests: up64(old(self).requests, 1),
                inflight: up32(old(self).inflight),
                ..*old(self)
            }),
    {
        self.requests = add64(self.requests, 1);
        self.inflight = if self.inflight == u32::MAX {
            0
        } else {
            self.inflight + 1
        };
    }

    /// A request that another machine passed on has been answered, with so many bytes.
    pub fn relay_ends(&mut self, bytes: u64)
        ensures
            *final(self) == (Metrics {
                bytes: up64(old(self).bytes, bytes),
                inflight: down32(old(self).inflight),
                ..*old(self)
            }),
    {
        self.bytes = add64(self.bytes, bytes);
        self.inflight = if self.inflight == 0 {
            u32::MAX
        } else {
            self.inflight - 1
        };
    }
}

// ------------------------------------------------------------------ app routes

/// Per-app routing state shared by all of its hostnames.
#[derive(Debug)]
pub struct AppRoute {
    pub app: String,
    /// Tells the route from an earlier one of an app of the same name.
    pub serial: u64,
    pub backends: Vec<Backend>,
    /// The turn of the next request.
    pub rr: usize,
    pub max_inflight: Option<u32>,
    pub inflight: u32,
    pub requests: u64,
    pub shed: u64,
    /// The latest latencies, oldest first.
    pub latencies_ms: Vec<Double>,
}

/// The backends in round-robin order, starting with the one whose turn it is.
pub open spec fn rotation(backends: Seq<BackendView>, turn: nat) -> Seq<BackendView> {
    let n = backends.len();
    Seq::new(n, |k: int| backends[((turn % n) + k) % (n as int)])
}

/// The addresses of the local backends, in order.
pub open spec fn local_addrs(backends: Seq<BackendView>) -> Seq<Seq<char>>
    decreases backends.len(),
{
    if backends.len() == 0 {
        Seq::empty()
    } else {
        let before = local_addrs(backends.drop_last());
        match backends.last() {
            BackendView::Local(a) => before.push(a),
            BackendView::Remote { .. } => before,
        }
    }
}

/// The local backend whose turn it is, if there is one.
pub open spec fn local_turn(backends: Seq<BackendView>, turn: usize) -> Option<Seq<char>> {
    let locals = local_addrs(backends);
    if locals.len() == 0 {
        None
    } else {
        Some(locals[(turn as int) % (locals.len() as int)])
    }
}

/// The window of latencies with one more.
pub open spec fn with_latency(window: Seq<Double>, ms: Double) -> Seq<Double> {
    if window.len() >= LATENCY_WINDOW {
        window.skip(1).push(ms)
    } else {
        window.push(ms)
    }
}

impl AppRoute {
    pub fn new(app: &str, backends: Vec<Backend>, max_inflight: Option<u32>) -> (r: AppRoute)
        ensures
            r.app@ == app@,
            r.serial == 0,
            r.backends == backends,
            r.rr == 0,
            r.max_inflight == max_inflight,
            r.inflight == 0,
            r.requests == 0,
            r.shed == 0,
            r.latencies_ms@.len() == 0,
    {
        AppRoute {
            app: app.to_owned(),
            serial: 0,
            backends,
            rr: 0,
            max_inflight,
            inflight: 0,
            requests: 0,
            shed: 0,
            latencies_ms: Vec::new(),
        }
    }

    /// The backend set in round-robin order starting at the next index, so a
    /// caller can try each in turn and fall through a dead one.
    pub fn backend_order(&mut self) -> (r: Vec<Backend>)
        ensures
            backend_views(r@) == rotation(backend_views(old(self).backends@), old(self).rr as nat),
            *final(self) == (AppRoute {
                rr: if old(self).backends@.len() == 0 {
                    old(self).rr
                } else {
                    next_turn(old(self).rr)
                },
                ..*old(self)
            }),
    {
        let mut out: Vec<Backend> = Vec::new();
        let n = self.backends.len();
        let ghost bv = backend_views(self.backends@);
        let ghost turn = self.rr as nat;
        if n == 0 {
            assert(backend_views(out@) =~= rotation(bv, turn));
            return out;
        }
        let start: usize = self.rr % n;
        self.rr = if self.rr == usize::MAX {
            0
        } else {
            self.rr + 1
        };
        let mut at: usize = start;
        let mut k: usize = 0;
        proof {
            vstd::arithmetic::div_mod::lemma_small_mod(start as nat, n as nat);
        }
        while k < n
            invariant
                k <= n,
                n == self.backends@.len(),
                n > 0,
                bv == backend_views(self.backends@),
                start == turn % (n as nat),
                at == (start + k) % (n as int),
                at < n,
                out@.len() == k,
                forall|j: int|
                    0 <= j < k ==> (#[trigger] out@[j])@ == bv[((turn % (n as nat)) + j) % (n as int)],
            decreases n - k,
        {
            out.push(self.backends[at].clone());
            proof {
                lemma_step(start as int, k as int, n as int);
            }
            at = if at + 1 == n {
                0
            } else {
                at + 1
            };
            k += 1;
        }
        assert(backend_views(out@) =~= rotation(bv, turn));
        out
    }

    /// A loopback backend for this app, if any.
    pub fn pick_local(&mut self) -> (r: Option<String>)
        ensures
            ({
                let locals = local_addrs(backend_views(old(self).backends@));
                let turn = local_turn(backend_views(old(self).backends@), old(self).rr);
                &&& r is Some == turn is Some
                &&& r matches Some(a) ==> Some(a@) == turn
                &&& *final(self) == (AppRoute {
                    rr: if locals.len() == 0 {
                        old(self).rr
                    } else {
                        next_turn(old(self).rr)
                    },
                    ..*old(self)
                })
            }),
    {
        let mut locals: Vec<String> = Vec::new();
        let ghost bv = backend_views(self.backends@);
        let mut i: usize = 0;
        assert(bv.take(0) =~= Seq::empty());
        assert(split::views(locals@) =~= Seq::empty());
        while i < self.backends.len()
            invariant
                i <= self.backends@.len(),
                bv == backend_views(self.backends@),
                split::views(locals@) == local_addrs(bv.take(i as int)),
            decreases self.backends@.len() - i,
        {
            assert(bv.take(i + 1).drop_last() =~= bv.take(i as int));
            assert(bv.take(i + 1).last() == self.backends@[i as int]@);
            match &self.backends[i] {
                Backend::Local(a) => {
                    let copy = a.clone();
                    proof {
                        split::lemma_views_push(locals@, copy);
                    }
                    locals.push(copy);
                },
                Backend::Remote { .. } => {},
            }
            i += 1;
        }
        assert(bv.take(i as int) =~= bv);
        assert(locals@.len() == split::views(locals@).len());
        if locals.len() == 0 {
            return None;
        }
        let k: usize = self.rr % locals.len();
        self.rr = if self.rr == usize::MAX {
            0
        } else {
            self.rr + 1
        };
        assert(split::views(locals@)[k as int] == locals@[k as int]@);
        Some(locals[k].clone())
    }

    pub fn record_latency(&mut self, ms: Double)
        ensures
            final(self).latencies_ms@ == with_latency(old(self).latencies_ms@, ms),
            final(self).app == old(self).app,
            final(self).serial == old(self).serial,
            final(self).backends == old(self).backends,
            final(self).rr == old(self).rr,
            final(self).max_inflight == old(self).max_inflight,
            final(self).inflight == old(self).inflight,
            final(self).requests == old(self).requests,
            final(self).shed == old(self).shed,
    {
        let ghost before = self.latencies_ms@;
        if self.latencies_ms.len() >= LATENCY_WINDOW {
            let _oldest = self.latencies_ms.remove(0);
            assert(self.latencies_ms@ =~= before.skip(1));
        }
        self.latencies_ms.push(ms);
    }
}

proof fn lemma_step(start: int, k: int, n: int)
    requires
        n > 0,
        0 <= start < n,
        0 <= k,
    ensures
        (start + k + 1) % n == if (start + k) % n + 1 == n {
            0
        } else {
            (start + k) % n + 1
        },
{
    let a = start + k;
    vstd::arithmetic::div_mod::lemma_fundamental_div_mod(a, n);
    let q = a / n;
    let r = a % n;
    if r + 1 == n {
        assert(a + 1 == n * (q + 1)) by (nonlinear_arith)
            requires
                a == n * q + r,
                r + 1 == n,
        ;
        assert(n * (q + 1) == (q + 1) * n) by (nonlinear_arith);
        vstd::arithmetic::div_mod::lemma_fundamental_div_mod_converse(a + 1, n, q + 1, 0);
    } else {
        assert(n * q == q * n) by (nonlinear_arith);
        vstd::arithmetic::div_mod::lemma_fundamental_div_mod_converse(a + 1, n, q, r + 1);
    }
}

// ------------------------------------------------------------------ statistics

/// Proxy-side stats snapshot for one app.
#[derive(Debug, Clone, Copy, PartialEq, Eq, Structural)]
pub struct RouteStats {
    pub requests_total: u64,
    pub inflight: u32,
    pub shed_total: u64,
    pub p50_ms: Double,
    pub p95_ms: Double,
}

impl Default for RouteStats {
    fn default() -> (r: Self)
        ensures
            r.requests_total == 0,
            r.inflight == 0,
            r.shed_total == 0,
            r.p50_ms.bits == 0,
            r.p95_ms.bits == 0,
    {
        RouteStats {
            requests_total: 0,
            inflight: 0,
            shed_total: 0,
            p50_ms: Double { bits: 0 },
            p95_ms: Double { bits: 0 },
        }
    }
}

/// Latencies as sort keys: ascending as the numbers are.
pub open spec fn latency_keys(l: Seq<Double>) -> Seq<(nat, Seq<char>)> {
    Seq::new(l.len(), |i: int| ((l[i].key() + 0x8000_0000_0000_0000) as nat, Seq::<char>::empty()))
}

/// The latency at a position of the ascending order.
pub open spec fn in_order(l: Seq<Double>, at: int) -> Double {
    l[order::ranked(latency_keys(l))[at]]
}

/// The median: the lower of the two middle ones where their number is even.
pub open spec fn p50(l: Seq<Double>) -> Double {
    if l.len() == 0 {
        Double { bits: 0 }
    } else {
        in_order(l, (l.len() - 1) / 2)
    }
}

/// The latency that 95 % of the others do not exceed.
pub open spec fn p95(l: Seq<Double>) -> Double {
    if l.len() == 0 {
        Double { bits: 0 }
    } else {
        in_order(l, (19 * (l.len() - 1)) / 20)
    }
}

fn ascending(l: &Vec<Double>) -> (r: Vec<usize>)
    ensures
        order::positions(r@) == order::ranked(latency_keys(l@)),
        r@.len() == l@.len(),
        forall|i: int| 0 <= i < r@.len() ==> (#[trigger] r@[i]) < l@.len(),
{
    let mut keys: Vec<SortKey> = Vec::new();
    let mut i: usize = 0;
    while i < l.len()
        invariant
            i <= l.len(),
            keys@.len() == i,
            forall|j: int| 0 <= j < i ==> (#[trigger] keys@[j])@ == latency_keys(l@)[j],
        decreases l.len() - i,
    {
        let bits = l[i].bits;
        let rank: u64 = if bits >= 0x8000_0000_0000_0000 {
            0x8000_0000_0000_0000 - (bits - 0x8000_0000_0000_0000)
        } else {
            0x8000_0000_0000_0000 + bits
        };
        let name = String::new();
        assert(name@ =~= Seq::<char>::empty());
        keys.push(SortKey { rank, name });
        i += 1;
    }
    assert(order::key_views(keys@) =~= latency_keys(l@));
    let r = rank(&keys);
    assert forall|i: int| 0 <= i < r@.len() implies (#[trigger] r@[i]) < l@.len() by {
        assert(order::positions(r@)[i] == r@[i]);
    }
    r
}

/// The median and the 95th percentile.
pub fn percentiles(l: &Vec<Double>) -> (r: (Double, Double))
    requires
        l@.len() <= LATENCY_WINDOW,
    ensures
        r.0 == p50(l@),
        r.1 == p95(l@),
{
    let n = l.len();
    if n == 0 {
        return (Double { bits: 0 }, Double { bits: 0 });
    }
    let order = ascending(l);
    let a: usize = (n - 1) / 2;
    let b: usize = (19 * (n - 1)) / 20;
    assert(order::positions(order@)[a as int] == order@[a as int]);
    assert(order::positions(order@)[b as int] == order@[b as int]);
    (l[order[a]], l[order[b]])
}

impl AppRoute {
    pub open spec fn stats_now(self) -> RouteStats {
        RouteStats {
            requests_total: self.requests,
            inflight: self.inflight,
            shed_total: self.shed,
            p50_ms: p50(self.latencies_ms@),
            p95_ms: p95(self.latencies_ms@),
        }
    }

    pub fn stats(&self) -> (r: RouteStats)
        requires
            self.latencies_ms@.len() <= LATENCY_WINDOW,
        ensures
            r == self.stats_now(),
    {
        let (mid, high) = percentiles(&self.latencies_ms);
        RouteStats {
            requests_total: self.requests,
            inflight: self.inflight,
            shed_total: self.shed,
            p50_ms: mid,
            p95_ms: high,
        }
    }
}

// ----------------------------------------------------------------- route table

/// A hostname as the table keeps it: without a port, in small letters.
pub open spec fn host_key(h: Seq<char>) -> Seq<char> {
    text::ascii_lower(text::before(h, ":"@))
}

pub fn normalize_host(h: &str) -> (r: String)
    ensures
        r@ == host_key(h@),
{
    to_ascii_lower(text_before(h, ":").as_str())
}

/// Which app each hostname leads to, and the route of each app.
#[derive(Debug)]
pub struct RouteTable {
    /// hostname (small letters, no port) -> app
    pub hosts: TextMap,
    pub routes: NameMap<AppRoute>,
    /// The serial number of the next route.
    pub minted: u64,
}

/// The hostnames with these added, all leading to `app`.
pub open spec fn with_hosts(
    m: Map<Seq<char>, Seq<char>>,
    names: Seq<Seq<char>>,
    app: Seq<char>,
) -> Map<Seq<char>, Seq<char>>
    decreases names.len(),
{
    if names.len() == 0 {
        m
    } else {
        with_hosts(m, names.drop_last(), app).insert(host_key(names.last()), app)
    }
}

impl RouteTable {
    /// Every hostname leads to an app that has a route; the routes know their app
    /// and keep no more latencies than the window.
    pub open spec fn wf(self) -> bool {
        &&& forall|h: Seq<char>| #[trigger]
            self.hosts@.dom().contains(h) ==> self.routes@.dom().contains(self.hosts@[h])
        &&& forall|a: Seq<char>| #[trigger]
            self.routes@.dom().contains(a) ==> self.routes@[a].app@ == a
                && self.routes@[a].latencies_ms@.len() <= LATENCY_WINDOW
    }

    /// The app that a hostname leads to.
    pub open spec fn app_of(self, host: Seq<char>) -> Option<Seq<char>> {
        if self.hosts@.dom().contains(host) {
            Some(self.hosts@[host])
        } else {
            None
        }
    }

    pub fn new() -> (r: RouteTable)
        ensures
            r.wf(),
            r.hosts@ == Map::<Seq<char>, Seq<char>>::empty(),
            r.routes@ == Map::<Seq<char>, AppRoute>::empty(),
            r.minted == 0,
    {
        RouteTable { hosts: TextMap::new(), routes: NameMap::new(), minted: 0 }
    }

    /// Install (or replace) an app's route: all `hostnames` resolve to the same
    /// backend set. Existing hostnames for the app that are not listed are
    /// dropped: this is how a dead tunnel alias gets retired. A route that is
    /// already there keeps its counters.
    pub fn set_app(
        &mut self,
        app: &str,
        hostnames: &Vec<String>,
        backends: Vec<Backend>,
        max_inflight: Option<u32>,
    )
        requires
            old(self).wf(),
        ensures
            final(self).wf(),
            final(self).hosts@ == with_hosts(
                maps::without_value(old(self).hosts@, app@),
                split::views(hostnames@),
                app@,
            ),
            final(self).routes@.dom() == old(self).routes@.dom().insert(app@),
            forall|a: Seq<char>|
                a != app@ && old(self).routes@.dom().contains(a) ==> #[trigger] final(self).routes@[a] == old(self).routes@[a],
            final(self).routes@[app@].backends == backends,
            old(self).routes@.dom().contains(app@) ==> final(self).routes@[app@] == (AppRoute {
                backends,
                max_inflight,
                ..old(self).routes@[app@]
            }),
            old(self).routes@.dom().contains(app@) ==> final(self).minted == old(self).minted,
            !old(self).routes@.dom().contains(app@) ==> {
                let r = final(self).routes@[app@];
                &&& r.serial == old(self).minted
                &&& final(self).minted == up64(old(self).minted, 1)
                &&& r.rr == 0
                &&& r.max_inflight == max_inflight
                &&& r.inflight == 0
                &&& r.requests == 0
                &&& r.shed == 0
                &&& r.latencies_ms@.len() == 0
            },
    {
        let ghost r0 = self.routes@;
        let entry = match self.routes.remove(app) {
            Some(e) => AppRoute {
                app: e.app,
                serial: e.serial,
                backends,
                rr: e.rr,
                max_inflight,
                inflight: e.inflight,
                requests: e.requests,
                shed: e.shed,
                latencies_ms: e.latencies_ms,
            },
            None => {
                let mut e = AppRoute::new(app, backends, max_inflight);
                e.serial = self.minted;
                self.minted = add64(self.minted, 1);
                e
            },
        };
        let ghost fresh = entry;
        let ghost minted = self.minted;
        self.routes.insert(app.to_owned(), entry);
        assert(self.routes@ =~= r0.insert(app@, fresh));
        let ghost h0 = self.hosts@;
        self.hosts.drop_value(app);
        let ghost cleared = self.hosts@;
        let ghost names = split::views(hostnames@);
        let mut i: usize = 0;
        assert(names.take(0) =~= Seq::empty());
        while i < hostnames.len()
            invariant
                i <= hostnames.len(),
                names == split::views(hostnames@),
                self.hosts@ == with_hosts(cleared, names.take(i as int), app@),
                self.routes@ == r0.insert(app@, fresh),
                self.minted == minted,
            decreases hostnames.len() - i,
        {
            assert(names.take(i + 1).drop_last() =~= names.take(i as int));
            assert(names.take(i + 1).last() == hostnames@[i as int]@);
            self.hosts.insert(normalize_host(hostnames[i].as_str()), app.to_owned());
            i += 1;
        }
        assert(names.take(i as int) =~= names);
        proof {
            lemma_with_hosts(cleared, names, app@);
            assert forall|h: Seq<char>| #[trigger] self.hosts@.dom().contains(h) implies self.routes@.dom().contains(
                self.hosts@[h],
            ) by {
                if !cleared.dom().contains(h) || self.hosts@[h] == app@ {
                } else {
                    assert(h0.dom().contains(h));
                }
            }
        }
    }

    /// Add one hostname alias to an existing app route (tunnel URL arrival).
    pub fn add_alias(&mut self, app: &str, hostname: &str) -> (r: bool)
        requires
            old(self).wf(),
        ensures
            final(self).wf(),
            r == old(self).routes@.dom().contains(app@),
            final(self).routes@ == old(self).routes@,
            final(self).minted == old(self).minted,
            final(self).hosts@ == if r {
                old(self).hosts@.insert(host_key(hostname@), app@)
            } else {
                old(self).hosts@
            },
    {
        if self.routes.get(app).is_some() {
            self.hosts.insert(normalize_host(hostname), app.to_owned());
            true
        } else {
            false
        }
    }

    pub fn remove_app(&mut self, app: &str)
        requires
            old(self).wf(),
        ensures
            final(self).wf(),
            final(self).routes@ == old(self).routes@.remove(app@),
            final(self).minted == old(self).minted,
            final(self).hosts@ == maps::without_value(old(self).hosts@, app@),
    {
        let _gone = self.routes.remove(app);
        self.hosts.drop_value(app);
    }

    /// The hostnames that lead to an app, in ascending order.
    pub fn hostnames(&self, app: &str) -> (r: Vec<String>)
        ensures
            names::ascending(split::views(r@)),
            forall|h: Seq<char>| split::views(r@).contains(h) == (self.app_of(h) == Some(app@)),
    {
        let r = self.hosts.keys_with(app);
        assert forall|h: Seq<char>| split::views(r@).contains(h) == (self.app_of(h) == Some(
            app@,
        )) by {
            assert(self.hosts@.dom().contains(h) == self.app_of(h) is Some);
        }
        r
    }

    pub fn stats(&self, app: &str) -> (r: Option<RouteStats>)
        requires
            self.wf(),
        ensures
            r is Some == self.routes@.dom().contains(app@),
            r matches Some(s) ==> s == self.routes@[app@].stats_now(),
    {
        match self.routes.get(app) {
            Some(e) => Some(e.stats()),
            None => None,
        }
    }

    /// The app that a hostname leads to; the name must be in the table's form.
    pub fn lookup(&self, host: &str) -> (r: Option<String>)
        ensures
            r is Some == self.app_of(host@) is Some,
            r matches Some(a) ==> a@ == self.app_of(host@)->0,
    {
        match self.hosts.get(host) {
            Some(a) => Some(a.clone()),
            None => None,
        }
    }

    /// A loopback backend for an app by name (the relay forwards here).
    pub fn local_backend(&mut self, app: &str) -> (r: Option<String>)
        requires
            old(self).wf(),
        ensures
            final(self).wf(),
            final(self).hosts@ == old(self).hosts@,
            final(self).minted == old(self).minted,
            !old(self).routes@.dom().contains(app@) ==> r is None && final(self).routes@ == old(self).routes@,
            old(self).routes@.dom().contains(app@) ==> {
                let route = old(self).routes@[app@];
                let locals = local_addrs(backend_views(route.backends@));
                let turn = local_turn(backend_views(route.backends@), route.rr);
                &&& r is Some == turn is Some
                &&& r matches Some(a) ==> Some(a@) == turn
                &&& final(self).routes@ == old(self).routes@.insert(
                    app@,
                    (AppRoute {
                        rr: if locals.len() == 0 {
                            route.rr
                        } else {
                            next_turn(route.rr)
                        },
                        ..route
                    }),
                )
            },
    {
        let ghost r0 = self.routes@;
        match self.routes.remove(app) {
            Some(mut route) => {
                let picked = route.pick_local();
                let ghost now = route;
                self.routes.insert(app.to_owned(), route);
                assert(self.routes@ =~= r0.insert(app@, now));
                picked
            },
            None => {
                assert(self.routes@ =~= r0);
                None
            },
        }
    }
}

/// What `with_hosts` adds leads to the app; the rest stays.
pub proof fn lemma_with_hosts(m: Map<Seq<char>, Seq<char>>, names: Seq<Seq<char>>, app: Seq<char>)
    ensures
        forall|h: Seq<char>| #[trigger]
            with_hosts(m, names, app).dom().contains(h) ==> with_hosts(m, names, app)[h] == app || (
            m.dom().contains(h) && with_hosts(m, names, app)[h] == m[h]),
        forall|h: Seq<char>| #[trigger]
            with_hosts(m, names, app).dom().contains(h) == (m.dom().contains(h) || exists|i: int|
                0 <= i < names.len() && host_key(#[trigger] names[i]) == h),
        forall|i: int|
            0 <= i < names.len() ==> with_hosts(m, names, app)[host_key(#[trigger] names[i])]
                == app,
        forall|h: Seq<char>|
            m.dom().contains(h) && (forall|i: int|
                0 <= i < names.len() ==> host_key(#[trigger] names[i]) != h) ==> #[trigger] with_hosts(
                m,
                names,
                app,
            )[h] == m[h],
    decreases names.len(),
{
    if names.len() > 0 {
        let front = names.drop_last();
        lemma_with_hosts(m, front, app);
        let w = with_hosts(m, names, app);
        let wf = with_hosts(m, front, app);
        let last = host_key(names.last());
        assert forall|h: Seq<char>| #[trigger] w.dom().contains(h) == (m.dom().contains(h)
            || exists|i: int| 0 <= i < names.len() && host_key(#[trigger] names[i]) == h) by {
            if w.dom().contains(h) && !m.dom().contains(h) {
                if h == last {
                    assert(host_key(names[names.len() - 1]) == h);
                } else {
                    assert(wf.dom().contains(h));
                    let i = choose|i: int|
                        0 <= i < front.len() && host_key(#[trigger] front[i]) == h;
                    assert(host_key(names[i]) == h);
                }
            }
            if exists|i: int| 0 <= i < names.len() && host_key(#[trigger] names[i]) == h {
                let i = choose|i: int| 0 <= i < names.len() && host_key(#[trigger] names[i]) == h;
                if i < front.len() {
                    assert(host_key(front[i]) == h);
                    assert(wf.dom().contains(h));
                }
            }
            if m.dom().contains(h) {
                assert(wf.dom().contains(h));
            }
        }
        assert forall|i: int| 0 <= i < names.len() implies w[host_key(#[trigger] names[i])] == app by {
            if i < front.len() {
                assert(front[i] == names[i]);
            }
        }
        assert forall|h: Seq<char>|
            m.dom().contains(h) && (forall|i: int|
                0 <= i < names.len() ==> host_key(#[trigger] names[i]) != h) implies #[trigger] w[h]
            == m[h] by {
            assert(host_key(names[names.len() - 1]) != h);
            assert forall|i: int| 0 <= i < front.len() implies host_key(#[trigger] front[i]) != h by {
                assert(front[i] == names[i]);
            }
            assert(wf[h] == m[h]);
        }
    }
}

/// The latencies in ascending order are those that were noted, and none comes before a lesser
/// one; the median stands in their middle, and nineteen twentieths of the way up stands the
/// other percentile.
pub proof fn percentiles_are_of_the_ascending_order(l: Seq<Double>, i: int, j: int)
    requires
        0 <= i < j < l.len(),
    ensures
        in_order(l, i).key() <= in_order(l, j).key(),
        l.contains(in_order(l, i)),
        exists|k: int| 0 <= k < l.len() && #[trigger] in_order(l, k) == l[i],
        p50(l) == in_order(l, (l.len() - 1) / 2),
        p95(l) == in_order(l, (l.len() - 1) * 19 / 20),
{
    let keys = latency_keys(l);
    order::lemma_ranked_upto(keys, keys.len());
    let r = order::ranked(keys);
    assert(keys[r[i]] == ((l[r[i]].key() + 0x8000_0000_0000_0000) as nat, Seq::<char>::empty()));
    assert(keys[r[j]] == ((l[r[j]].key() + 0x8000_0000_0000_0000) as nat, Seq::<char>::empty()));
    assert(l[r[i]].key() + 0x8000_0000_0000_0000 >= 0);
    assert(l[r[j]].key() + 0x8000_0000_0000_0000 >= 0);
    assert(r.contains(i));
    let k = choose|k: int| 0 <= k < r.len() && r[k] == i;
    assert(in_order(l, k) == l[i]);
}

/// A request that was passed on is load while it lasts, and counted once, with its bytes.
pub proof fn counters_count(n: u64, by: u64, m: u32, turn: usize)
    requires
        n + by <= u64::MAX,
        m < u32::MAX,
        turn < usize::MAX,
    ensures
        up64(n, by) == n + by,
        up32(m) == m + 1,
        down32(up32(m)) == m,
        next_turn(turn) == turn + 1,
{
}

/// The window holds the latest latencies, in the order in which they were noted: the new one
/// is the last, and only where the window is full the oldest leaves it.
pub proof fn the_window_holds_the_latest(window: Seq<Double>, ms: Double)
    requires
        window.len() <= 1024,
    ensures
        ({
            let now = with_latency(window, ms);
            let all = window.push(ms);
            &&& now.len() == if window.len() < 1024 {
                window.len() + 1
            } else {
                1024
            }
            &&& now.last() == ms
            &&& now == all.skip(all.len() - now.len())
        }),
{
    let now = with_latency(window, ms);
    let all = window.push(ms);
    assert(now =~= all.skip(all.len() - now.len()));
}

/// An app's figures are those of its own route.
pub proof fn figures_are_those_of_the_route(route: AppRoute)
    ensures
        ({
            let s = route.stats_now();
            &&& s.requests_total == route.requests
            &&& s.inflight == route.inflight
            &&& s.shed_total == route.shed
            &&& s.p50_ms == p50(route.latencies_ms@)
            &&& s.p95_ms == p95(route.latencies_ms@)
        }),
{
}

} // verus!
