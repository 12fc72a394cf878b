//! A networking self-check run from the hub: is each machine up, how does each app's
//! public URL respond to a burst of requests, and is an app that runs on several
//! machines actually served by them?
use vstd::prelude::*;

use crate::double;
use crate::double::Double;
use crate::names;
use crate::names::NameMap;
use crate::split;
use crate::split::join;
use crate::state::{Store, StoreView};
use crate::text;
use crate::text::{dec, same};
use crate::types;
use crate::types::{FleetDeviceViewView, FleetView, TestCheck, TestCheckView, TestReport};
use crate::values;
use crate::values::contains_text;

verus! {

/// How many requests a burst has.
pub const BURST: u64 = 40;

/// A machine of the fleet, this hub included. Rates are in whole requests per second.
#[derive(Debug)]
pub struct Machine {
    pub name: String,
    pub is_self: bool,
    pub healthy: bool,
    pub apps: u32,
    pub capacity_req_per_sec: Option<u64>,
    pub machine_req_per_sec: Option<u64>,
}

/// The contents of a `Machine`.
pub struct MachineView {
    pub name: Seq<char>,
    pub is_self: bool,
    pub healthy: bool,
    pub apps: u32,
    pub capacity_req_per_sec: Option<u64>,
    pub machine_req_per_sec: Option<u64>,
}

impl View for Machine {
    type V = MachineView;

    open spec fn view(&self) -> MachineView {
        MachineView {
            name: self.name@,
            is_self: self.is_self,
            healthy: self.healthy,
            apps: self.apps,
            capacity_req_per_sec: self.capacity_req_per_sec,
            machine_req_per_sec: self.machine_req_per_sec,
        }
    }
}

impl Clone for Machine {
    fn clone(&self) -> (r: Self)
        ensures
            r@ == self@,
    {
        Machine {
            name: self.name.clone(),
            is_self: self.is_self,
            healthy: self.healthy,
            apps: self.apps,
            capacity_req_per_sec: self.capacity_req_per_sec,
            machine_req_per_sec: self.machine_req_per_sec,
        }
    }
}

pub open spec fn machine_views(v: Seq<Machine>) -> Seq<MachineView> {
    Seq::new(v.len(), |i: int| v[i]@)
}

/// The machines of a fleet, the hub first. Others do not tell their capacity.
pub open spec fn fleet_machines(
    devices: Seq<FleetDeviceViewView>,
    capacity: Option<u64>,
    hardware: u64,
) -> Seq<MachineView> {
    Seq::new(
        devices.len(),
        |i: int|
            MachineView {
                name: devices[i].name,
                is_self: i == 0,
                healthy: devices[i].healthy,
                apps: devices[i].apps,
                capacity_req_per_sec: if i == 0 {
                    capacity
                } else {
                    None
                },
                machine_req_per_sec: if i == 0 {
                    Some(hardware)
                } else {
                    None
                },
            },
    )
}

/// The machines to be tested, with the hub's own capacity and that of its hardware.
pub fn machines_of(v: &FleetView, capacity: Option<u64>, hardware: u64) -> (r: Vec<Machine>)
    ensures
        machine_views(r@) == fleet_machines(v@.devices, capacity, hardware),
{
    let ghost want = fleet_machines(v@.devices, capacity, hardware);
    let mut out: Vec<Machine> = Vec::new();
    let mut i: usize = 0;
    while i < v.devices.len()
        invariant
            i <= v.devices.len(),
            want == fleet_machines(v@.devices, capacity, hardware),
            out@.len() == i,
            forall|j: int| 0 <= j < i ==> (#[trigger] out@[j])@ == want[j],
        decreases v.devices.len() - i,
    {
        let d = &v.devices[i];
        assert(v@.devices[i as int] == d@);
        let (capacity_req_per_sec, machine_req_per_sec) = if i == 0 {
            (capacity, Some(hardware))
        } else {
            (None, None)
        };
        out.push(
            Machine {
                name: d.name.clone(),
                is_self: i == 0,
                healthy: d.healthy,
                apps: d.apps,
                capacity_req_per_sec,
                machine_req_per_sec,
            },
        );
        i += 1;
    }
    assert(machine_views(out@) =~= want);
    out
}

/// Is a machine in scope? Everything is for "fleet"; "local" means the hub.
pub open spec fn in_scope(scope: Seq<char>, name: Seq<char>, is_self: bool) -> bool {
    scope == "fleet"@ || scope == name || (scope == "local"@ && is_self)
}

/// The hub's own name.
pub open spec fn own_name(machines: Seq<MachineView>) -> Seq<char>
    decreases machines.len(),
{
    if machines.len() == 0 {
        "hub"@
    } else if machines[0].is_self {
        machines[0].name
    } else {
        own_name(machines.skip(1))
    }
}

pub fn self_name(machines: &Vec<Machine>) -> (r: String)
    ensures
        r@ == own_name(machine_views(machines@)),
{
    let ghost mv = machine_views(machines@);
    let mut i: usize = 0;
    assert(mv.skip(0) =~= mv);
    while i < machines.len()
        invariant
            i <= machines.len(),
            mv == machine_views(machines@),
            own_name(mv.skip(i as int)) == own_name(mv),
        decreases machines.len() - i,
    {
        assert(mv.skip(i as int)[0] == machines@[i as int]@);
        assert(mv.skip(i as int).skip(1) =~= mv.skip(i + 1));
        if machines[i].is_self {
            return machines[i].name.clone();
        }
        i += 1;
    }
    "hub".to_owned()
}

pub open spec fn rate(r: Option<u64>) -> nat {
    match r {
        Some(n) => n as nat,
        None => 0,
    }
}

pub open spec fn uptime_check(m: MachineView) -> TestCheckView {
    TestCheckView {
        name: m.name + " up & healthy"@,
        pass: m.healthy,
        detail: if m.healthy {
            "doctor green · "@ + text::decimal(m.apps as nat) + " apps · max "@ + text::decimal(
                rate(m.capacity_req_per_sec),
            ) + " r/s (hardware "@ + text::decimal(rate(m.machine_req_per_sec)) + " r/s)"@
        } else {
            "unreachable or doctor red"@
        },
        group: "uptime"@,
    }
}

/// A check on each machine in scope.
pub open spec fn uptime_list(scope: Seq<char>, machines: Seq<MachineView>) -> Seq<TestCheckView>
    decreases machines.len(),
{
    if machines.len() == 0 {
        Seq::empty()
    } else {
        let rest = uptime_list(scope, machines.drop_last());
        if in_scope(scope, machines.last().name, machines.last().is_self) {
            rest.push(uptime_check(machines.last()))
        } else {
            rest
        }
    }
}

fn rate_of(r: Option<u64>) -> (n: u64)
    ensures
        n == rate(r),
{
    match r {
        Some(n) => n,
        None => 0,
    }
}

/// Is each machine in scope up and healthy?
pub fn uptime_checks(scope: &str, machines: &Vec<Machine>) -> (r: Vec<TestCheck>)
    ensures
        types::test_check_views(r@) == uptime_list(scope@, machine_views(machines@)),
{
    let ghost mv = machine_views(machines@);
    let mut out: Vec<TestCheck> = Vec::new();
    let mut i: usize = 0;
    assert(mv.take(0) =~= Seq::empty());
    assert(types::test_check_views(out@) =~= Seq::empty());
    while i < machines.len()
        invariant
            i <= machines.len(),
            mv == machine_views(machines@),
            types::test_check_views(out@) == uptime_list(scope@, mv.take(i as int)),
        decreases machines.len() - i,
    {
        assert(mv.take(i + 1).drop_last() =~= mv.take(i as int));
        assert(mv.take(i + 1).last() == machines@[i as int]@);
        let m = &machines[i];
        if same(scope, "fleet") || same(scope, m.name.as_str()) || (same(scope, "local")
            && m.is_self) {
            let ghost before = out@;
            let c = TestCheck {
                name: m.name.clone().concat(" up & healthy"),
                pass: m.healthy,
                detail: if m.healthy {
                    "doctor green · ".to_owned().concat(dec(m.apps as u64).as_str()).concat(
                        " apps · max ",
                    ).concat(dec(rate_of(m.capacity_req_per_sec)).as_str()).concat(
                        " r/s (hardware ",
                    ).concat(dec(rate_of(m.machine_req_per_sec)).as_str()).concat(" r/s)")
                } else {
                    "unreachable or doctor red".to_owned()
                },
                group: "uptime".to_owned(),
            };
            out.push(c);
            assert(types::test_check_views(out@) =~= types::test_check_views(before).push(c@));
        }
        i += 1;
    }
    assert(mv.take(i as int) =~= mv);
    out
}

// ------------------------------------------------------------------------------ apps

/// The URL that an app is driven at, if it is driven: it must hold a public name, and
/// where one device is in scope, run there.
pub open spec fn drive_url(
    store: StoreView,
    name: Seq<char>,
    spread_to: Seq<Seq<char>>,
    scope: Seq<char>,
) -> Option<Seq<char>> {
    match store.claim_of(name) {
        Some(c) => if scope != "fleet"@ && scope != "local"@ && !spread_to.contains(scope) {
            None
        } else {
            Some("https://"@ + c.hostname + "/"@)
        },
        None => None,
    }
}

/// The URL that an app is driven at, if it is driven.
pub fn url_to_drive(store: &Store, name: &str, spread_to: &Vec<String>, scope: &str) -> (r: Option<
    String,
>)
    ensures
        values::opt_view(r) == drive_url(store@, name@, split::views(spread_to@), scope@),
{
    let claim = match store.claim_for(name) {
        Some(c) => c,
        None => {
            return None;
        },
    };
    if !same(scope, "fleet") && !same(scope, "local") && !contains_text(spread_to, scope) {
        return None;
    }
    Some("https://".to_owned().concat(claim.hostname.as_str()).concat("/"))
}

/// What came of a burst: the successes, the median and the 95th percentile in
/// milliseconds, and the successes per second.
#[derive(Debug, Clone, Copy, PartialEq, Eq, Structural)]
pub struct Burst {
    pub ok: u64,
    pub p50_ms: Double,
    pub p95_ms: Double,
    pub per_sec: Double,
}

/// How an app responded.
pub fn response_check(name: &str, b: &Burst) -> (r: TestCheck)
    ensures
        r@ == (TestCheckView {
            name: name@ + " response"@,
            pass: b.ok == BURST,
            detail: text::decimal(b.ok as nat) + "/"@ + text::decimal(BURST as nat) + " ok · p50 "@
                + double::fixed_text(b.p50_ms, 0) + "ms · p95 "@ + double::fixed_text(b.p95_ms, 0)
                + "ms · "@ + double::fixed_text(b.per_sec, 0) + " req/s"@,
            group: "response"@,
        }),
{
    TestCheck {
        name: name.to_owned().concat(" response"),
        pass: b.ok == BURST,
        detail: dec(b.ok).concat("/").concat(dec(BURST).as_str()).concat(" ok · p50 ").concat(
            b.p50_ms.fixed(0).as_str(),
        ).concat("ms · p95 ").concat(b.p95_ms.fixed(0).as_str()).concat("ms · ").concat(
            b.per_sec.fixed(0).as_str(),
        ).concat(" req/s"),
        group: "response".to_owned(),
    }
}

/// What a machine served during a burst.
pub struct Share {
    pub name: Seq<char>,
    pub served: u64,
}

pub open spec fn served_by(
    before: Map<Seq<char>, u64>,
    after: Map<Seq<char>, u64>,
    name: Seq<char>,
) -> u64 {
    let was = if before.dom().contains(name) {
        before[name]
    } else {
        0
    };
    if was <= after[name] {
        (after[name] - was) as u64
    } else {
        0
    }
}

/// The machines that served some of a burst, by name.
pub open spec fn shares(
    before: Map<Seq<char>, u64>,
    after: Map<Seq<char>, u64>,
    names: Seq<Seq<char>>,
) -> Seq<Share>
    decreases names.len(),
{
    if names.len() == 0 {
        Seq::empty()
    } else {
        let rest = shares(before, after, names.drop_last());
        let served = served_by(before, after, names.last());
        if served > 0 {
            rest.push(Share { name: names.last(), served })
        } else {
            rest
        }
    }
}

pub open spec fn total(s: Seq<Share>) -> nat
    decreases s.len(),
{
    if s.len() == 0 {
        0
    } else {
        total(s.drop_last()) + s.last().served as nat
    }
}

pub open spec fn share_texts(s: Seq<Share>) -> Seq<Seq<char>> {
    Seq::new(s.len(), |i: int| s[i].name + " "@ + text::decimal(s[i].served as nat))
}

/// Is a burst balanced? At least two machines served it, and most of it is accounted
/// for.
pub open spec fn balance_check(name: Seq<char>, s: Seq<Share>) -> TestCheckView {
    TestCheckView {
        name: name + " load balance"@,
        pass: s.len() >= 2 && total(s) >= 28,
        detail: (if total(s) == 0 {
            "no per-machine attribution this run"@
        } else {
            split::joined(share_texts(s), " · "@)
        }) + " (across "@ + text::decimal(s.len()) + " machine(s))"@,
        group: "load balance"@,
    }
}

proof fn lemma_total(before: Map<Seq<char>, u64>, after: Map<Seq<char>, u64>, names: Seq<Seq<char>>, n: int)
    requires
        0 <= n <= names.len(),
    ensures
        total(shares(before, after, names.take(n))) <= total(shares(before, after, names)),
    decreases names.len() - n,
{
    if n < names.len() {
        lemma_total(before, after, names, n + 1);
        assert(names.take(n + 1).drop_last() =~= names.take(n));
        let a = shares(before, after, names.take(n));
        let b = shares(before, after, names.take(n + 1));
        if b.len() > a.len() {
            assert(b.drop_last() =~= a);
        }
    } else {
        assert(names.take(n) =~= names);
    }
}

/// Was an app that runs on several machines served by them?
pub fn load_balance_check(name: &str, before: &NameMap<u64>, after: &NameMap<u64>) -> (r: TestCheck)
    requires
        total(shares(before@, after@, names::listing(after@.dom()))) <= u64::MAX,
    ensures
        r@ == balance_check(name@, shares(before@, after@, names::listing(after@.dom()))),
{
    let n = after.len();
    let ghost keys = after.key_list();
    let ghost all = shares(before@, after@, keys);
    let mut texts: Vec<String> = Vec::new();
    let mut sum: u64 = 0;
    let mut i: usize = 0;
    assert(keys.take(0) =~= Seq::empty());
    assert(split::views(texts@) =~= share_texts(shares(before@, after@, keys.take(0))));
    while i < n
        invariant
            i <= n,
            n == keys.len(),
            keys == after.key_list(),
            all == shares(before@, after@, keys),
            total(all) <= u64::MAX,
            split::views(texts@) == share_texts(shares(before@, after@, keys.take(i as int))),
            sum == total(shares(before@, after@, keys.take(i as int))),
        decreases n - i,
    {
        proof {
            assert(keys.take(i + 1).drop_last() =~= keys.take(i as int));
            lemma_total(before@, after@, keys, i + 1);
        }
        let ghost so_far = shares(before@, after@, keys.take(i as int));
        let key = after.key_at(i);
        let now = *after.value_at(i);
        let was: u64 = match before.get(key.as_str()) {
            Some(w) => *w,
            None => 0,
        };
        let served = now.saturating_sub(was);
        if served > 0 {
            let t = key.clone().concat(" ").concat(dec(served).as_str());
            proof {
                let more = so_far.push(Share { name: key@, served });
                assert(more.drop_last() =~= so_far);
                assert(shares(before@, after@, keys.take(i + 1)) == more);
                split::lemma_views_push(texts@, t);
                assert(share_texts(more) =~= share_texts(so_far).push(t@));
            }
            texts.push(t);
            sum = sum + served;
        }
        i += 1;
    }
    assert(keys.take(i as int) =~= keys);
    let used = texts.len();
    assert(split::views(texts@).len() == all.len());
    let detail = if sum == 0 {
        "no per-machine attribution this run".to_owned()
    } else {
        join(&texts, " · ")
    };
    TestCheck {
        name: name.to_owned().concat(" load balance"),
        pass: used >= 2 && sum >= 28,
        detail: detail.concat(" (across ").concat(dec(used as u64).as_str()).concat(" machine(s))"),
        group: "load balance".to_owned(),
    }
}

// ---------------------------------------------------------------------------- report

pub open spec fn passes(checks: Seq<TestCheckView>) -> nat
    decreases checks.len(),
{
    if checks.len() == 0 {
        0
    } else {
        passes(checks.drop_last()) + if checks.last().pass {
            1nat
        } else {
            0
        }
    }
}

/// The checks, and how many passed.
pub fn report(scope: &str, checks: Vec<TestCheck>) -> (r: TestReport)
    ensures
        r@.scope == scope@,
        r@.checks == types::test_check_views(checks@),
        r@.passed == passes(types::test_check_views(checks@)),
        r@.passed + r@.failed == checks@.len(),
{
    let ghost cv = types::test_check_views(checks@);
    let mut passed: usize = 0;
    let mut i: usize = 0;
    assert(cv.take(0) =~= Seq::empty());
    while i < checks.len()
        invariant
            i <= checks.len(),
            cv == types::test_check_views(checks@),
            passed <= i,
            passed == passes(cv.take(i as int)),
        decreases checks.len() - i,
    {
        assert(cv.take(i + 1).drop_last() =~= cv.take(i as int));
        assert(cv.take(i + 1).last() == checks@[i as int]@);
        if checks[i].pass {
            passed += 1;
        }
        i += 1;
    }
    assert(cv.take(i as int) =~= cv);
    let failed = checks.len() - passed;
    TestReport { scope: scope.to_owned(), checks, passed, failed }
}

// ---------------------------------------------------------------------------- laws

/// Each machine in scope is checked, in order, and passes if and only if it is healthy: all of
/// them for the fleet, only the hub for "local", and else the one of that name.
pub proof fn machines_in_scope_are_checked(scope: Seq<char>, machines: Seq<MachineView>)
    ensures
        uptime_list(scope, machines) == machines.filter(
            |m: MachineView|
                scope == "fleet"@ || scope == m.name || (scope == "local"@ && m.is_self),
        ).map_values(|m: MachineView| uptime_check(m)),
        forall|m: MachineView|
            (#[trigger] uptime_check(m)).pass == m.healthy && uptime_check(m).name == m.name
                + " up & healthy"@,
    decreases machines.len(),
{
    reveal(Seq::filter);
    let p = |m: MachineView|
        scope == "fleet"@ || scope == m.name || (scope == "local"@ && m.is_self);
    if machines.len() > 0 {
        machines_in_scope_are_checked(scope, machines.drop_last());
    }
    assert(uptime_list(scope, machines) =~= machines.filter(p).map_values(
        |m: MachineView| uptime_check(m),
    ));
}

/// The machines of a test are those of the fleet, each with its own figures; the first is the
/// hub, and the hub's name is its name.
pub proof fn the_hub_is_tested_first(
    devices: Seq<FleetDeviceViewView>,
    capacity: Option<u64>,
    hardware: u64,
    i: int,
)
    requires
        0 <= i < devices.len(),
    ensures
        ({
            let all = fleet_machines(devices, capacity, hardware);
            &&& all.len() == devices.len()
            &&& all[i].name == devices[i].name && all[i].healthy == devices[i].healthy
                && all[i].apps == devices[i].apps
            &&& all[i].is_self <==> i == 0
            &&& i == 0 ==> all[i].capacity_req_per_sec == capacity && all[i].machine_req_per_sec
                == Some(hardware)
            &&& i > 0 ==> all[i].capacity_req_per_sec is None && all[i].machine_req_per_sec is None
            &&& own_name(all) == devices[0].name
        }),
{
}

/// An app is driven at the name that it holds, and at none where it holds none; with one
/// device in scope, only where it was spread to that device.
pub proof fn apps_are_driven_at_their_names(
    store: StoreView,
    name: Seq<char>,
    spread_to: Seq<Seq<char>>,
    scope: Seq<char>,
)
    ensures
        ({
            let url = drive_url(store, name, spread_to, scope);
            let held = store.claims.dom().contains(name);
            let whole = scope == "fleet"@ || scope == "local"@;
            &&& url is Some <==> held && (whole || spread_to.contains(scope))
            &&& url is Some ==> url->0 == "https://"@ + store.claims[name].hostname + "/"@
        }),
{
}

/// What a machine served is by how much its count grew, and each machine that served any is
/// accounted for, by its own growth.
pub proof fn shares_are_what_was_served(
    before: Map<Seq<char>, u64>,
    after: Map<Seq<char>, u64>,
    all: Seq<Seq<char>>,
)
    ensures
        shares(before, after, all) == all.filter(
            |n: Seq<char>|
                after[n] > if before.dom().contains(n) {
                    before[n]
                } else {
                    0
                },
        ).map_values(
            |n: Seq<char>|
                Share {
                    name: n,
                    served: (after[n] - if before.dom().contains(n) {
                        before[n]
                    } else {
                        0
                    }) as u64,
                },
        ),
    decreases all.len(),
{
    reveal(Seq::filter);
    let p = |n: Seq<char>|
        after[n] > if before.dom().contains(n) {
            before[n]
        } else {
            0
        };
    let f = |n: Seq<char>|
        Share {
            name: n,
            served: (after[n] - if before.dom().contains(n) {
                before[n]
            } else {
                0
            }) as u64,
        };
    if all.len() > 0 {
        shares_are_what_was_served(before, after, all.drop_last());
    }
    assert(shares(before, after, all) =~= all.filter(p).map_values(f));
}

/// A burst is balanced if two machines or more served it, and at least twenty-eight of its
/// requests are accounted for; the total is that of all shares.
pub proof fn bursts_are_balanced_over_two(name: Seq<char>, s: Seq<Share>, t: Seq<Share>)
    ensures
        balance_check(name, s).pass <==> s.len() >= 2 && total(s) >= 28,
        total(s + t) == total(s) + total(t),
        s.len() == 1 ==> total(s) == s[0].served,
    decreases t.len(),
{
    if t.len() > 0 {
        bursts_are_balanced_over_two(name, s, t.drop_last());
        assert((s + t).drop_last() =~= s + t.drop_last());
    } else {
        assert(s + t =~= s);
    }
    if s.len() == 1 {
        assert(total(s.drop_last()) == 0);
    }
}

/// As many checks are counted as passed as did.
pub proof fn passes_are_counted(checks: Seq<TestCheckView>)
    ensures
        passes(checks) == checks.filter(|c: TestCheckView| c.pass).len(),
    decreases checks.len(),
{
    reveal(Seq::filter);
    if checks.len() > 0 {
        passes_are_counted(checks.drop_last());
    }
}

} // verus!
