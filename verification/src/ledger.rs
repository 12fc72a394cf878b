//! The memory budget. What counts is what the apps declare, against what the engine
//! has to give; a part of it is held back.
use vstd::prelude::*;

use crate::app_spec::{AppSpec, AppSpecView};
use crate::error::{ErrorView, HadesError};
use crate::events::{HostEvent, HostEventView};
use crate::fleet;
use crate::names;
use crate::runtime::EngineInfo;
use crate::split;
use crate::split::join;
use crate::state;
use crate::state::{AppRecord, AppRecordView, Store, StoreView};
use crate::text;
use crate::text::{dec, same};
use crate::types;
use crate::types::{Allocation, AllocationView, ResourceLedger, ResourceLedgerView};

verus! {

// -------------------------------------------------------------------- allocations

/// What an app takes of the budget.
pub open spec fn allocation_of(r: AppRecordView) -> AllocationView {
    AllocationView {
        app: r.spec.name,
        memory_mb: r.spec.resources.memory_mb,
        cpu: r.spec.resources.cpu,
        replicas: r.spec.replicas,
    }
}

/// The memory that an allocation takes, over all its replicas.
pub open spec fn declared(a: AllocationView) -> nat {
    (a.memory_mb * a.replicas) as nat
}

/// The memory that a deploy asks for.
pub open spec fn requested(spec: AppSpecView) -> nat {
    (spec.resources.memory_mb * spec.replicas) as nat
}

pub open spec fn allocations_of(apps: Seq<AppRecordView>) -> Seq<AllocationView> {
    Seq::new(apps.len(), |i: int| allocation_of(apps[i]))
}

/// The memory that some allocations take together.
pub open spec fn demand(allocations: Seq<AllocationView>) -> nat
    decreases allocations.len(),
{
    if allocations.len() == 0 {
        0
    } else {
        demand(allocations.drop_last()) + declared(allocations.last())
    }
}

/// The allocations of the other apps: a deploy frees what its app had before.
pub open spec fn others(allocations: Seq<AllocationView>, app: Seq<char>) -> Seq<AllocationView>
    decreases allocations.len(),
{
    if allocations.len() == 0 {
        Seq::empty()
    } else if allocations.last().app == app {
        others(allocations.drop_last(), app)
    } else {
        others(allocations.drop_last(), app).push(allocations.last())
    }
}

proof fn lemma_demand_prefix(allocations: Seq<AllocationView>, n: int)
    requires
        0 <= n <= allocations.len(),
    ensures
        demand(allocations.take(n)) <= demand(allocations),
    decreases allocations.len() - n,
{
    if n < allocations.len() {
        lemma_demand_prefix(allocations, n + 1);
        assert(allocations.take(n + 1).drop_last() =~= allocations.take(n));
    } else {
        assert(allocations.take(n) =~= allocations);
    }
}

proof fn lemma_others_demand(allocations: Seq<AllocationView>, app: Seq<char>)
    ensures
        demand(others(allocations, app)) <= demand(allocations),
    decreases allocations.len(),
{
    if allocations.len() > 0 {
        let front = allocations.drop_last();
        lemma_others_demand(front, app);
        assert(others(front, app).push(allocations.last()).drop_last() =~= others(front, app));
    }
}

fn demand_of(allocations: &Vec<Allocation>) -> (r: u64)
    requires
        demand(types::allocation_views(allocations@)) <= u64::MAX,
    ensures
        r == demand(types::allocation_views(allocations@)),
{
    let ghost av = types::allocation_views(allocations@);
    let mut sum: u64 = 0;
    let mut i: usize = 0;
    assert(av.take(0) =~= Seq::empty());
    while i < allocations.len()
        invariant
            i <= allocations.len(),
            av == types::allocation_views(allocations@),
            demand(av) <= u64::MAX,
            sum == demand(av.take(i as int)),
        decreases allocations.len() - i,
    {
        proof {
            lemma_demand_prefix(av, i + 1);
            assert(av.take(i + 1).drop_last() =~= av.take(i as int));
            assert(av.take(i + 1).last() == allocations@[i as int]@);
            let m = allocations@[i as int].memory_mb;
            let k = allocations@[i as int].replicas;
            assert(m * k >= 0) by (nonlinear_arith)
                requires
                    m >= 0,
                    k >= 0,
            ;
        }
        sum = sum + allocations[i].memory_mb * allocations[i].replicas as u64;
        i += 1;
    }
    assert(av.take(i as int) =~= av);
    sum
}

fn others_of(allocations: &Vec<Allocation>, app: &str) -> (r: Vec<Allocation>)
    ensures
        types::allocation_views(r@) == others(types::allocation_views(allocations@), app@),
{
    let ghost av = types::allocation_views(allocations@);
    let mut out: Vec<Allocation> = Vec::new();
    let mut i: usize = 0;
    assert(av.take(0) =~= Seq::empty());
    assert(types::allocation_views(out@) =~= Seq::empty());
    while i < allocations.len()
        invariant
            i <= allocations.len(),
            av == types::allocation_views(allocations@),
            types::allocation_views(out@) == others(av.take(i as int), app@),
        decreases allocations.len() - i,
    {
        assert(av.take(i + 1).drop_last() =~= av.take(i as int));
        assert(av.take(i + 1).last() == allocations@[i as int]@);
        if !same(allocations[i].app.as_str(), app) {
            let ghost before = out@;
            out.push(allocations[i].clone());
            assert(types::allocation_views(out@) =~= types::allocation_views(before).push(
                av[i as int],
            ));
        }
        i += 1;
    }
    assert(av.take(i as int) =~= av);
    out
}

// ------------------------------------------------------------------------ the ledger

/// The part of the engine's memory that is held back.
pub open spec fn reserve(vm_memory_mb: u64, reserve_pct: u8) -> nat {
    (vm_memory_mb * reserve_pct / 100) as nat
}

/// The budget and what is taken of it.
pub open spec fn ledger_for(
    reserve_pct: u8,
    engine: EngineInfo,
    mac_memory_mb: u64,
    apps: Seq<AppRecordView>,
) -> ResourceLedgerView {
    let reserved = reserve(engine.vm_memory_mb, reserve_pct) as u64;
    ResourceLedgerView {
        vm_memory_mb: engine.vm_memory_mb,
        vm_cpus: engine.vm_cpus,
        mac_memory_mb,
        reserve_pct,
        reserved_mb: reserved,
        allocatable_mb: fleet::left(engine.vm_memory_mb, reserved),
        allocated_mb: demand(allocations_of(apps)) as u64,
        allocations: allocations_of(apps),
    }
}

/// A ledger of which nothing is known but the reserve.
pub open spec fn blank_ledger(reserve_pct: u8) -> ResourceLedgerView {
    ResourceLedgerView {
        vm_memory_mb: 0,
        vm_cpus: 0,
        mac_memory_mb: 0,
        reserve_pct,
        reserved_mb: 0,
        allocatable_mb: 0,
        allocated_mb: 0,
        allocations: Seq::empty(),
    }
}

pub fn empty_ledger(reserve_pct: u8) -> (r: ResourceLedger)
    ensures
        r@ == blank_ledger(reserve_pct),
{
    let r = ResourceLedger {
        vm_memory_mb: 0,
        vm_cpus: 0,
        mac_memory_mb: 0,
        reserve_pct,
        reserved_mb: 0,
        allocatable_mb: 0,
        allocated_mb: 0,
        allocations: Vec::new(),
    };
    assert(r@.allocations =~= Seq::empty());
    r
}

impl StoreView {
    /// The memory that all apps declare.
    pub open spec fn declared_mb(self) -> nat {
        demand(allocations_of(self.app_list()))
    }
}

fn allocations_in(apps: &Vec<AppRecord>) -> (r: Vec<Allocation>)
    ensures
        types::allocation_views(r@) == allocations_of(state::app_record_views(apps@)),
{
    let mut out: Vec<Allocation> = Vec::new();
    let mut i: usize = 0;
    while i < apps.len()
        invariant
            i <= apps.len(),
            out@.len() == i,
            forall|j: int| 0 <= j < i ==> (#[trigger] out@[j])@ == allocation_of(apps@[j]@),
        decreases apps.len() - i,
    {
        let r = &apps[i];
        out.push(
            Allocation {
                app: r.spec.name.clone(),
                memory_mb: r.spec.resources.memory_mb,
                cpu: r.spec.resources.cpu,
                replicas: r.spec.replicas,
            },
        );
        i += 1;
    }
    assert(types::allocation_views(out@) =~= allocations_of(state::app_record_views(apps@)));
    out
}

impl Store {
    /// The budget and what is taken of it. `mac_memory_mb` is the machine's own
    /// memory, where it is known.
    pub fn resource_ledger(
        &self,
        reserve_pct: u8,
        engine: EngineInfo,
        mac_memory_mb: Option<u64>,
    ) -> (r: ResourceLedger)
        requires
            engine.vm_memory_mb * reserve_pct <= u64::MAX,
            self@.declared_mb() <= u64::MAX,
        ensures
            r@ == ledger_for(
                reserve_pct,
                engine,
                match mac_memory_mb {
                    Some(m) => m,
                    None => 0,
                },
                self@.app_list(),
            ),
    {
        let apps = self.snapshot();
        let allocations = allocations_in(&apps);
        let allocated_mb = demand_of(&allocations);
        let reserved_mb = engine.vm_memory_mb * reserve_pct as u64 / 100;
        ResourceLedger {
            vm_memory_mb: engine.vm_memory_mb,
            vm_cpus: engine.vm_cpus,
            mac_memory_mb: match mac_memory_mb {
                Some(m) => m,
                None => 0,
            },
            reserve_pct,
            reserved_mb,
            allocatable_mb: engine.vm_memory_mb.saturating_sub(reserved_mb),
            allocated_mb,
            allocations,
        }
    }

    /// Does what all apps and this deploy declare fit in the ledger's figures?
    pub fn can_count(&self, spec: &AppSpec) -> (r: bool)
        ensures
            r == (self@.declared_mb() + requested(spec@) <= u64::MAX),
    {
        let apps = self.snapshot();
        let ghost av = allocations_of(self@.app_list());
        proof {
            lemma_product(spec.resources.memory_mb, spec.replicas);
            assert(av.take(0) =~= Seq::empty());
        }
        let mut sum: u128 = (spec.resources.memory_mb as u128) * (spec.replicas as u128);
        let mut i: usize = 0;
        while i < apps.len()
            invariant
                i <= apps.len(),
                av == allocations_of(state::app_record_views(apps@)),
                av == allocations_of(self@.app_list()),
                sum == demand(av.take(i as int)) + requested(spec@),
                sum <= u64::MAX || i == 0,
                sum <= u64::MAX * 255,
            decreases apps.len() - i,
        {
            proof {
                lemma_demand_prefix(av, i as int);
                lemma_demand_prefix(av, i + 1);
                assert(av.take(i + 1).drop_last() =~= av.take(i as int));
                assert(av.take(i + 1).last() == allocation_of(apps@[i as int]@));
                lemma_product(
                    apps@[i as int].spec.resources.memory_mb,
                    apps@[i as int].spec.replicas,
                );
            }
            if sum > u64::MAX as u128 {
                return false;
            }
            let more: u128 = (apps[i].spec.resources.memory_mb as u128) * (
            apps[i].spec.replicas as u128);
            if sum + more > u64::MAX as u128 {
                return false;
            }
            sum = sum + more;
            i += 1;
        }
        assert(av.take(i as int) =~= av);
        sum <= u64::MAX as u128
    }
}

proof fn lemma_product(m: u64, k: u8)
    ensures
        0 <= m * k <= u64::MAX * 255,
{
    assert(0 <= m * k <= u64::MAX * 255) by (nonlinear_arith)
        requires
            0 <= m <= u64::MAX,
            0 <= k <= 255,
    ;
}

// --------------------------------------------------------------------- admission

/// "web: 512MB" for each allocation.
pub open spec fn shares(allocations: Seq<AllocationView>) -> Seq<Seq<char>> {
    Seq::new(
        allocations.len(),
        |i: int|
            allocations[i].app + ": "@ + text::decimal(declared(allocations[i])) + "MB"@,
    )
}

/// Why a deploy does not fit: what it asks for, what there is, and who has it.
pub open spec fn rejection(ledger: ResourceLedgerView, spec: AppSpecView) -> Seq<char> {
    let rest = others(ledger.allocations, spec.name);
    "requested "@ + text::decimal(requested(spec)) + "MB ("@ + text::decimal(
        spec.resources.memory_mb as nat,
    ) + " x "@ + text::decimal(spec.replicas as nat) + " replicas); VM has "@ + text::decimal(
        ledger.vm_memory_mb as nat,
    ) + "MB, "@ + text::decimal(ledger.reserved_mb as nat) + "MB reserved ("@ + text::decimal(
        ledger.reserve_pct as nat,
    ) + "%), "@ + text::decimal(demand(rest)) + "MB already allocated to ["@ + split::joined(
        shares(rest),
        ", "@,
    ) + "]"@
}

/// Is there room for a deploy?
pub open spec fn fits(ledger: ResourceLedgerView, spec: AppSpecView) -> bool {
    demand(others(ledger.allocations, spec.name)) + requested(spec) <= ledger.allocatable_mb
}

fn shares_of(allocations: &Vec<Allocation>) -> (r: Vec<String>)
    requires
        demand(types::allocation_views(allocations@)) <= u64::MAX,
    ensures
        split::views(r@) == shares(types::allocation_views(allocations@)),
{
    let ghost av = types::allocation_views(allocations@);
    let mut out: Vec<String> = Vec::new();
    let mut i: usize = 0;
    while i < allocations.len()
        invariant
            i <= allocations.len(),
            av == types::allocation_views(allocations@),
            demand(av) <= u64::MAX,
            out@.len() == i,
            forall|j: int| 0 <= j < i ==> (#[trigger] out@[j])@ == shares(av)[j],
        decreases allocations.len() - i,
    {
        proof {
            lemma_demand_prefix(av, i + 1);
            assert(av.take(i + 1).last() == allocations@[i as int]@);
        }
        let mb: u64 = allocations[i].memory_mb * allocations[i].replicas as u64;
        out.push(
            allocations[i].app.clone().concat(": ").concat(dec(mb).as_str()).concat("MB"),
        );
        i += 1;
    }
    assert(split::views(out@) =~= shares(av));
    out
}

/// Declared-memory admission control. The error tells what was asked for, what there
/// is and who has it, so that its reader knows exactly what to shrink or destroy.
pub fn admission(ledger: &ResourceLedger, spec: &AppSpec) -> (r: Result<(), HadesError>)
    requires
        demand(ledger@.allocations) + requested(spec@) <= u64::MAX,
    ensures
        r is Ok <==> fits(ledger@, spec@),
        r matches Err(e) ==> e@ == ErrorView::AdmissionRejected(rejection(ledger@, spec@)),
{
    let rest = others_of(&ledger.allocations, spec.name.as_str());
    proof {
        lemma_others_demand(ledger@.allocations, spec@.name);
    }
    let others_mb = demand_of(&rest);
    let wanted: u64 = spec.resources.memory_mb * spec.replicas as u64;
    if others_mb + wanted <= ledger.allocatable_mb {
        return Ok(());
    }
    let reason = "requested ".to_owned().concat(dec(wanted).as_str()).concat("MB (").concat(
        dec(spec.resources.memory_mb).as_str(),
    ).concat(" x ").concat(dec(spec.replicas as u64).as_str()).concat(" replicas); VM has ").concat(
        dec(ledger.vm_memory_mb).as_str(),
    ).concat("MB, ").concat(dec(ledger.reserved_mb).as_str()).concat("MB reserved (").concat(
        dec(ledger.reserve_pct as u64).as_str(),
    ).concat("%), ").concat(dec(others_mb).as_str()).concat("MB already allocated to [").concat(
        join(&shares_of(&rest), ", ").as_str(),
    ).concat("]");
    Err(HadesError::AdmissionRejected(reason))
}

/// A deploy that was turned away: the error, the ledger that goes with it, and the
/// event to be told.
#[derive(Debug)]
pub struct Rejection {
    pub error: HadesError,
    pub ledger: ResourceLedger,
    pub event: Option<HostEvent>,
}

impl Store {
    /// Admission control for a deploy on this host, given what the engine said of
    /// itself.
    pub fn admission(
        &self,
        reserve_pct: u8,
        engine: Result<EngineInfo, HadesError>,
        mac_memory_mb: Option<u64>,
        spec: &AppSpec,
    ) -> (r: Result<(), Rejection>)
        requires
            engine matches Ok(e) ==> e.vm_memory_mb * reserve_pct <= u64::MAX,
            self@.declared_mb() + requested(spec@) <= u64::MAX,
        ensures
            match engine {
                Ok(e) => {
                    let ledger = ledger_for(
                        reserve_pct,
                        e,
                        match mac_memory_mb {
                            Some(m) => m,
                            None => 0,
                        },
                        self@.app_list(),
                    );
                    &&& r is Ok <==> fits(ledger, spec@)
                    &&& r matches Err(x) ==> {
                        &&& x.error@ == ErrorView::AdmissionRejected(rejection(ledger, spec@))
                        &&& x.ledger@ == ledger
                        &&& x.event matches Some(v) && v@ == (HostEventView::DeployRejected {
                            app: spec@.name,
                            reason: rejection(ledger, spec@),
                        })
                    }
                },
                Err(e) => r matches Err(x) && x.error@ == ErrorView::Docker(
                    "cannot read engine capacity: "@ + e@.message(),
                ) && x.ledger@ == blank_ledger(reserve_pct) && x.event is None,
            },
    {
        let engine = match engine {
            Ok(e) => e,
            Err(e) => {
                return Err(
                    Rejection {
                        error: HadesError::Docker(
                            "cannot read engine capacity: ".to_owned().concat(e.message().as_str()),
                        ),
                        ledger: empty_ledger(reserve_pct),
                        event: None,
                    },
                );
            },
        };
        let ledger = self.resource_ledger(reserve_pct, engine, mac_memory_mb);
        match admission(&ledger, spec) {
            Ok(()) => Ok(()),
            Err(HadesError::AdmissionRejected(reason)) => {
                let event = HostEvent::DeployRejected {
                    app: spec.name.clone(),
                    reason: reason.clone(),
                };
                Err(
                    Rejection {
                        error: HadesError::AdmissionRejected(reason),
                        ledger,
                        event: Some(event),
                    },
                )
            },
            Err(e) => Err(Rejection { error: e, ledger, event: None }),
        }
    }
}

// ---------------------------------------------------------------------------- laws

/// What the apps of these names declare.
spec fn sum_over(apps: Map<Seq<char>, AppRecordView>, keys: Seq<Seq<char>>) -> nat
    decreases keys.len(),
{
    if keys.len() == 0 {
        0
    } else {
        sum_over(apps, keys.drop_last()) + requested(apps[keys.last()].spec)
    }
}

spec fn other_keys(keys: Seq<Seq<char>>, k: Seq<char>) -> Seq<Seq<char>>
    decreases keys.len(),
{
    if keys.len() == 0 {
        Seq::empty()
    } else if keys.last() == k {
        other_keys(keys.drop_last(), k)
    } else {
        other_keys(keys.drop_last(), k).push(keys.last())
    }
}

proof fn lemma_other_keys(keys: Seq<Seq<char>>, k: Seq<char>, dom: Set<Seq<char>>)
    requires
        names::lists(keys, dom),
    ensures
        names::lists(other_keys(keys, k), dom.remove(k)),
    decreases keys.len(),
{
    if keys.len() == 0 {
        assert forall|x: Seq<char>| #[trigger]
            other_keys(keys, k).contains(x) == dom.remove(k).contains(x) by {
            assert(!keys.contains(x));
        }
    } else {
        let front = keys.drop_last();
        let last = keys.last();
        names::lemma_lists_front(keys, dom);
        lemma_other_keys(front, k, dom.remove(last));
        let rest = other_keys(front, k);
        let all = other_keys(keys, k);
        assert(keys.contains(last));
        assert forall|x: Seq<char>| #[trigger] all.contains(x) == dom.remove(k).contains(x) by {
            assert(rest.contains(x) == dom.remove(last).remove(k).contains(x));
            if last != k {
                assert(all[all.len() - 1] == last);
                if rest.contains(x) {
                    let i = choose|i: int| 0 <= i < rest.len() && rest[i] == x;
                    assert(all[i] == x);
                }
                if all.contains(x) {
                    let i = choose|i: int| 0 <= i < all.len() && all[i] == x;
                    if i < rest.len() {
                        assert(rest[i] == x);
                    }
                }
            }
        }
        if last != k {
            assert forall|i: int, j: int| 0 <= i < j < all.len() implies crate::order::text_less(
                #[trigger] all[i],
                #[trigger] all[j],
            ) by {
                assert(rest[i] == all[i]);
                assert(rest.contains(rest[i]));
                if j < rest.len() {
                    assert(rest[j] == all[j]);
                } else {
                    assert(front.contains(rest[i]));
                    let p = choose|p: int| 0 <= p < front.len() && front[p] == rest[i];
                    assert(keys[p] == rest[i]);
                    assert(keys[keys.len() - 1] == last);
                }
            }
        }
    }
}

proof fn lemma_sum_parts(
    apps: Map<Seq<char>, AppRecordView>,
    keys: Seq<Seq<char>>,
    k: Seq<char>,
    dom: Set<Seq<char>>,
)
    requires
        names::lists(keys, dom),
    ensures
        sum_over(apps, keys) == sum_over(apps, other_keys(keys, k)) + if dom.contains(k) {
            requested(apps[k].spec)
        } else {
            0
        },
    decreases keys.len(),
{
    if keys.len() > 0 {
        let front = keys.drop_last();
        let last = keys.last();
        assert(keys.contains(last));
        names::lemma_lists_front(keys, dom);
        lemma_sum_parts(apps, front, k, dom.remove(last));
        let rest = other_keys(front, k);
        if last != k {
            assert(rest.push(last).drop_last() =~= rest);
        }
    } else {
        assert(!keys.contains(k));
    }
}

proof fn lemma_sum_same(
    a: Map<Seq<char>, AppRecordView>,
    b: Map<Seq<char>, AppRecordView>,
    keys: Seq<Seq<char>>,
)
    requires
        forall|i: int| 0 <= i < keys.len() ==> a[#[trigger] keys[i]] == b[keys[i]],
    ensures
        sum_over(a, keys) == sum_over(b, keys),
    decreases keys.len(),
{
    if keys.len() > 0 {
        let front = keys.drop_last();
        assert forall|i: int| 0 <= i < front.len() implies a[#[trigger] front[i]] == b[front[i]] by {
            assert(front[i] == keys[i]);
        }
        lemma_sum_same(a, b, front);
    }
}

/// The list of the apps' allocations, and the apps by their names, come to the same.
proof fn lemma_demand_sum(apps: Map<Seq<char>, AppRecordView>, keys: Seq<Seq<char>>, k: Seq<char>)
    requires
        forall|i: int| 0 <= i < keys.len() ==> apps[#[trigger] keys[i]].spec.name == keys[i],
    ensures
        ({
            let list = Seq::new(keys.len(), |i: int| apps[keys[i]]);
            &&& demand(allocations_of(list)) == sum_over(apps, keys)
            &&& demand(others(allocations_of(list), k)) == sum_over(apps, other_keys(keys, k))
        }),
    decreases keys.len(),
{
    if keys.len() > 0 {
        let front = keys.drop_last();
        assert forall|i: int| 0 <= i < front.len() implies apps[#[trigger] front[i]].spec.name
            == front[i] by {
            assert(front[i] == keys[i]);
        }
        lemma_demand_sum(apps, front, k);
        let list = Seq::new(keys.len(), |i: int| apps[keys[i]]);
        let before = Seq::new(front.len(), |i: int| apps[front[i]]);
        assert(allocations_of(list).drop_last() =~= allocations_of(before));
        let last = keys.last();
        assert(apps[keys[keys.len() - 1]].spec.name == last);
        if last != k {
            let o = others(allocations_of(before), k);
            assert(o.push(allocations_of(list).last()).drop_last() =~= o);
            let rest = other_keys(front, k);
            assert(rest.push(last).drop_last() =~= rest);
        }
    }
}

/// Admission never overcommits: once a deploy that was admitted has replaced its app's
/// record, all apps together declare no more than what is allocatable.
pub proof fn admission_never_overcommits(
    store: StoreView,
    reserve_pct: u8,
    engine: EngineInfo,
    mac_memory_mb: u64,
    rec: AppRecordView,
)
    requires
        store.wf(),
        store.apps.dom().finite(),
        fits(ledger_for(reserve_pct, engine, mac_memory_mb, store.app_list()), rec.spec),
    ensures
        store.with_apps(store.apps.insert(rec.spec.name, rec)).declared_mb() <= ledger_for(
            reserve_pct,
            engine,
            mac_memory_mb,
            store.app_list(),
        ).allocatable_mb,
{
    let k = rec.spec.name;
    let before = store.apps;
    let after = before.insert(k, rec);
    let old_keys = names::listing(before.dom());
    let new_keys = names::listing(after.dom());
    assert(after.dom() =~= before.dom().insert(k));
    names::lemma_listing_exists(before.dom());
    names::lemma_listing_exists(after.dom());
    assert forall|i: int| 0 <= i < old_keys.len() implies before[#[trigger] old_keys[i]].spec.name
        == old_keys[i] by {
        assert(old_keys.contains(old_keys[i]));
    }
    assert forall|i: int| 0 <= i < new_keys.len() implies after[#[trigger] new_keys[i]].spec.name
        == new_keys[i] by {
        assert(new_keys.contains(new_keys[i]));
    }
    lemma_demand_sum(before, old_keys, k);
    lemma_demand_sum(after, new_keys, k);
    lemma_other_keys(old_keys, k, before.dom());
    lemma_other_keys(new_keys, k, after.dom());
    assert(before.dom().remove(k) =~= after.dom().remove(k));
    let rest = other_keys(old_keys, k);
    names::lemma_lists_once(rest, other_keys(new_keys, k), before.dom().remove(k));
    lemma_sum_parts(after, new_keys, k, after.dom());
    assert forall|i: int| 0 <= i < rest.len() implies before[#[trigger] rest[i]]
        == after[rest[i]] by {
        assert(rest.contains(rest[i]));
    }
    lemma_sum_same(before, after, rest);
    let s2 = store.with_apps(after);
    assert(s2.app_list() =~= Seq::new(new_keys.len(), |i: int| after[new_keys[i]]));
    assert(store.app_list() =~= Seq::new(old_keys.len(), |i: int| before[old_keys[i]]));
}

/// The memory that some apps declare, each for all its replicas.
pub open spec fn memory_of(apps: Seq<AppRecordView>) -> int
    decreases apps.len(),
{
    if apps.len() == 0 {
        0
    } else {
        memory_of(apps.drop_last()) + apps.last().spec.resources.memory_mb
            * apps.last().spec.replicas
    }
}

/// The same, without the app of a name.
pub open spec fn memory_beside(apps: Seq<AppRecordView>, name: Seq<char>) -> int
    decreases apps.len(),
{
    if apps.len() == 0 {
        0
    } else {
        memory_beside(apps.drop_last(), name) + if apps.last().spec.name == name {
            0
        } else {
            apps.last().spec.resources.memory_mb * apps.last().spec.replicas
        }
    }
}

/// The memory that apps may take: what is left of the engine's when a share is reserved.
pub open spec fn memory_to_give(vm_memory_mb: u64, reserve_pct: u8) -> int {
    let reserved = vm_memory_mb * reserve_pct / 100;
    if reserved <= vm_memory_mb {
        vm_memory_mb - reserved
    } else {
        0
    }
}

/// The allocations come to what the apps declare.
pub proof fn lemma_memory(apps: Seq<AppRecordView>, name: Seq<char>)
    ensures
        demand(allocations_of(apps)) == memory_of(apps),
        demand(others(allocations_of(apps), name)) == memory_beside(apps, name),
    decreases apps.len(),
{
    if apps.len() > 0 {
        let front = apps.drop_last();
        let all = allocations_of(apps);
        lemma_memory(front, name);
        assert(all.drop_last() =~= allocations_of(front));
        let m = apps.last().spec.resources.memory_mb;
        let k = apps.last().spec.replicas;
        assert(m * k >= 0) by (nonlinear_arith)
            requires
                m >= 0,
                k >= 0,
        ;
        let o = others(allocations_of(front), name);
        assert(o.push(all.last()).drop_last() =~= o);
    }
}

/// The ledger adds up: it tells what the engine has, what is reserved of it, what the apps may
/// take, and what each of them and all together declare.
pub proof fn ledgers_add_up(
    reserve_pct: u8,
    engine: EngineInfo,
    mac_memory_mb: u64,
    apps: Seq<AppRecordView>,
)
    requires
        engine.vm_memory_mb * reserve_pct <= u64::MAX,
        memory_of(apps) <= u64::MAX,
    ensures
        ({
            let l = ledger_for(reserve_pct, engine, mac_memory_mb, apps);
            &&& l.vm_memory_mb == engine.vm_memory_mb
            &&& l.vm_cpus == engine.vm_cpus
            &&& l.mac_memory_mb == mac_memory_mb
            &&& l.reserve_pct == reserve_pct
            &&& l.reserved_mb == engine.vm_memory_mb * reserve_pct / 100
            &&& l.allocatable_mb == memory_to_give(engine.vm_memory_mb, reserve_pct)
            &&& l.allocated_mb == memory_of(apps)
            &&& l.allocations.len() == apps.len()
            &&& forall|i: int| #![trigger l.allocations[i]]
                0 <= i < apps.len() ==> l.allocations[i].app == apps[i].spec.name
                    && l.allocations[i].memory_mb == apps[i].spec.resources.memory_mb
                    && l.allocations[i].cpu == apps[i].spec.resources.cpu
                    && l.allocations[i].replicas == apps[i].spec.replicas
        }),
{
    lemma_memory(apps, ""@);
    let vm = engine.vm_memory_mb;
    assert(vm * reserve_pct >= 0) by (nonlinear_arith)
        requires
            vm >= 0,
            reserve_pct >= 0,
    ;
}

/// A deploy is admitted if and only if what it declares, beside what the other apps declare,
/// stays within what they may take; what its own app had before does not count.
pub proof fn admitted_if_there_is_room(
    reserve_pct: u8,
    engine: EngineInfo,
    mac_memory_mb: u64,
    apps: Seq<AppRecordView>,
    spec: AppSpecView,
)
    requires
        engine.vm_memory_mb * reserve_pct <= u64::MAX,
    ensures
        fits(ledger_for(reserve_pct, engine, mac_memory_mb, apps), spec) <==> memory_beside(
            apps,
            spec.name,
        ) + spec.resources.memory_mb * spec.replicas <= memory_to_give(
            engine.vm_memory_mb,
            reserve_pct,
        ),
{
    lemma_memory(apps, spec.name);
    let vm = engine.vm_memory_mb;
    assert(vm * reserve_pct >= 0) by (nonlinear_arith)
        requires
            vm >= 0,
            reserve_pct >= 0,
    ;
    let m = spec.resources.memory_mb;
    let k = spec.replicas;
    assert(m * k >= 0) by (nonlinear_arith)
        requires
            m >= 0,
            k >= 0,
    ;
}

} // verus!
