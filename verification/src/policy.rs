//! The policy engine: a pure function from an event and the state of the apps to
//! actions. All the "what should the host do about it" decisions live here.
use vstd::prelude::*;

use crate::app_spec::{OnBattery, Priority};
use crate::events::{HostEvent, HostEventView, PauseReason, PressureLevel};
use crate::order;
use crate::order::{rank, SortKey};
use crate::time::{utc_now, Timestamp};
use crate::types::AppState;

verus! {

/// Something the host should do to an app.
#[derive(Debug, PartialEq)]
pub enum Action {
    Pause { app: String, reason: PauseReason },
    Resume { app: String },
}

/// The contents of an `Action`.
pub enum ActionView {
    Pause { app: Seq<char>, reason: PauseReason },
    Resume { app: Seq<char> },
}

impl View for Action {
    type V = ActionView;

    open spec fn view(&self) -> ActionView {
        match self {
            Action::Pause { app, reason } => ActionView::Pause {
                app: app@,
                reason: *reason,
            },
            Action::Resume { app } => ActionView::Resume {
                app: app@,
            },
        }
    }
}

impl Clone for Action {
    fn clone(&self) -> (r: Self)
        ensures
            r@ == self@,
    {
        match self {
            Action::Pause { app, reason } => Action::Pause {
                app: app.clone(),
                reason: *reason,
            },
            Action::Resume { app } => Action::Resume {
                app: app.clone(),
            },
        }
    }
}

/// The slice of app state the policy needs.
#[derive(Debug)]
pub struct AppView {
    pub name: String,
    pub priority: Priority,
    pub state: AppState,
    pub paused_reason: Option<PauseReason>,
    pub on_battery: OnBattery,
}

/// The contents of an `AppView`.
pub struct AppViewView {
    pub name: Seq<char>,
    pub priority: Priority,
    pub state: AppState,
    pub paused_reason: Option<PauseReason>,
    pub on_battery: OnBattery,
}

impl View for AppView {
    type V = AppViewView;

    open spec fn view(&self) -> AppViewView {
        AppViewView {
            name: self.name@,
            priority: self.priority,
            state: self.state,
            paused_reason: self.paused_reason,
            on_battery: self.on_battery,
        }
    }
}

impl Clone for AppView {
    fn clone(&self) -> (r: Self)
        ensures
            r@ == self@,
    {
        AppView {
            name: self.name.clone(),
            priority: self.priority,
            state: self.state,
            paused_reason: self.paused_reason,
            on_battery: self.on_battery,
        }
    }
}

pub open spec fn action_views(v: Seq<Action>) -> Seq<ActionView> {
    Seq::new(v.len(), |i: int| v[i]@)
}

pub open spec fn app_views(v: Seq<AppView>) -> Seq<AppViewView> {
    Seq::new(v.len(), |i: int| v[i]@)
}

// -------------------------------------------------------------------- the rule

/// May the app be paused when memory runs out? Critical apps never are.
pub open spec fn sheddable(a: AppViewView) -> bool {
    a.state == AppState::Running && a.priority != Priority::Critical
}

pub open spec fn paused_for(a: AppViewView, why: PauseReason) -> bool {
    a.state == AppState::Paused && a.paused_reason == Some(why)
}

/// Does the app want to rest while the host runs on battery?
pub open spec fn battery_shy(a: AppViewView) -> bool {
    a.state == AppState::Running && a.on_battery == OnBattery::Pause
}

/// Which of the first `n` apps satisfy `p`, in order.
pub open spec fn picks(apps: Seq<AppViewView>, p: spec_fn(AppViewView) -> bool, n: nat) -> Seq<
    int,
>
    decreases n,
{
    if n == 0 {
        Seq::empty()
    } else {
        let before = picks(apps, p, (n - 1) as nat);
        if p(apps[n - 1]) {
            before.push(n - 1)
        } else {
            before
        }
    }
}

pub open spec fn all_picks(apps: Seq<AppViewView>, p: spec_fn(AppViewView) -> bool) -> Seq<int> {
    picks(apps, p, apps.len())
}

/// Priority and name of the picked apps.
pub open spec fn shed_keys(apps: Seq<AppViewView>, picked: Seq<int>) -> Seq<(nat, Seq<char>)> {
    Seq::new(picked.len(), |i: int| (apps[picked[i]].priority.rank(), apps[picked[i]].name))
}

/// The picked apps from the lowest priority up; equal priorities by name.
pub open spec fn shed_order(apps: Seq<AppViewView>, picked: Seq<int>) -> Seq<int> {
    let order = order::ranked(shed_keys(apps, picked));
    Seq::new(order.len(), |i: int| picked[order[i]])
}

pub open spec fn pauses(apps: Seq<AppViewView>, which: Seq<int>, why: PauseReason) -> Seq<
    ActionView,
> {
    Seq::new(which.len(), |i: int| ActionView::Pause { app: apps[which[i]].name, reason: why })
}

pub open spec fn resumes(apps: Seq<AppViewView>, which: Seq<int>) -> Seq<ActionView> {
    Seq::new(which.len(), |i: int| ActionView::Resume { app: apps[which[i]].name })
}

/// What the host does about an event. On critical memory pressure every app that
/// may be shed is paused, lowest priority first; when the pressure is gone, the
/// apps paused for it are resumed. On battery, the apps that asked for it are
/// paused; on mains again, those are resumed. Nothing else calls for action.
pub open spec fn decision(event: HostEventView, apps: Seq<AppViewView>) -> Seq<ActionView> {
    match event {
        HostEventView::MemoryPressure { level, .. } => match level {
            PressureLevel::Critical => pauses(
                apps,
                shed_order(apps, all_picks(apps, |a: AppViewView| sheddable(a))),
                PauseReason::MemoryPressure,
            ),
            PressureLevel::Normal => resumes(
                apps,
                all_picks(apps, |a: AppViewView| paused_for(a, PauseReason::MemoryPressure)),
            ),
            PressureLevel::Warn => Seq::empty(),
        },
        HostEventView::OnBattery => pauses(
            apps,
            all_picks(apps, |a: AppViewView| battery_shy(a)),
            PauseReason::OnBattery,
        ),
        HostEventView::OnAc => resumes(
            apps,
            all_picks(apps, |a: AppViewView| paused_for(a, PauseReason::OnBattery)),
        ),
        _ => Seq::empty(),
    }
}

// ------------------------------------------------------------------- deciding

fn is_sheddable(a: &AppView) -> (r: bool)
    ensures
        r == sheddable(a@),
{
    a.state == AppState::Running && a.priority != Priority::Critical
}

fn is_paused_for(a: &AppView, why: PauseReason) -> (r: bool)
    ensures
        r == paused_for(a@, why),
{
    a.state == AppState::Paused && match a.paused_reason {
        Some(reason) => reason == why,
        None => false,
    }
}

fn is_battery_shy(a: &AppView) -> (r: bool)
    ensures
        r == battery_shy(a@),
{
    a.state == AppState::Running && a.on_battery == OnBattery::Pause
}

/// The running apps that may be shed, lowest priority first.
fn shed(apps: &Vec<AppView>) -> (r: Vec<Action>)
    ensures
        action_views(r@) == pauses(
            app_views(apps@),
            shed_order(
                app_views(apps@),
                all_picks(app_views(apps@), |a: AppViewView| sheddable(a)),
            ),
            PauseReason::MemoryPressure,
        ),
{
    let ghost av = app_views(apps@);
    let ghost p = |a: AppViewView| sheddable(a);
    let mut picked: Vec<usize> = Vec::new();
    let mut keys: Vec<SortKey> = Vec::new();
    let mut i: usize = 0;
    assert(order::positions(picked@) =~= Seq::empty());
    while i < apps.len()
        invariant
            i <= apps.len(),
            av == app_views(apps@),
            p == (|a: AppViewView| sheddable(a)),
            order::positions(picked@) == picks(av, p, i as nat),
            keys@.len() == picked@.len(),
            forall|k: int| 0 <= k < picked@.len() ==> (#[trigger] picked@[k]) < i,
            forall|k: int|
                0 <= k < keys@.len() ==> (#[trigger] keys@[k])@ == (
                    av[picked@[k] as int].priority.rank(),
                    av[picked@[k] as int].name,
                ),
        decreases apps.len() - i,
    {
        let a = &apps[i];
        assert(av[i as int] == a@);
        if is_sheddable(a) {
            let ghost before = order::positions(picked@);
            picked.push(i);
            assert(order::positions(picked@) =~= before.push(i as int));
            keys.push(SortKey { rank: a.priority.ordinal(), name: a.name.clone() });
        }
        i += 1;
    }
    let order = rank(&keys);
    let ghost picked_v = order::positions(picked@);
    assert(order::key_views(keys@) =~= shed_keys(av, picked_v));
    let mut out: Vec<Action> = Vec::new();
    let mut k: usize = 0;
    while k < order.len()
        invariant
            k <= order.len(),
            av == app_views(apps@),
            out@.len() == k,
            picked_v == order::positions(picked@),
            order::is_ranking(
                order::positions(order@),
                order::key_views(keys@),
                keys@.len(),
            ),
            keys@.len() == picked@.len(),
            forall|j: int| 0 <= j < picked@.len() ==> (#[trigger] picked@[j]) < apps@.len(),
            forall|j: int|
                0 <= j < k ==> (#[trigger] out@[j])@ == (ActionView::Pause {
                    app: av[picked_v[order::positions(order@)[j]]].name,
                    reason: PauseReason::MemoryPressure,
                }),
        decreases order.len() - k,
    {
        assert(order::positions(order@)[k as int] == order@[k as int]);
        let a = &apps[picked[order[k]]];
        assert(av[picked_v[order@[k as int] as int]] == a@);
        out.push(Action::Pause { app: a.name.clone(), reason: PauseReason::MemoryPressure });
        k += 1;
    }
    assert(action_views(out@) =~= pauses(
        av,
        shed_order(av, all_picks(av, p)),
        PauseReason::MemoryPressure,
    ));
    out
}

/// Resumes the apps that were paused for a reason.
fn resume_all(apps: &Vec<AppView>, why: PauseReason) -> (r: Vec<Action>)
    ensures
        action_views(r@) == resumes(
            app_views(apps@),
            all_picks(app_views(apps@), |a: AppViewView| paused_for(a, why)),
        ),
{
    let ghost av = app_views(apps@);
    let ghost p = |a: AppViewView| paused_for(a, why);
    let mut out: Vec<Action> = Vec::new();
    let mut i: usize = 0;
    assert(action_views(out@) =~= resumes(av, picks(av, p, 0)));
    while i < apps.len()
        invariant
            i <= apps.len(),
            av == app_views(apps@),
            p == (|a: AppViewView| paused_for(a, why)),
            action_views(out@) == resumes(av, picks(av, p, i as nat)),
        decreases apps.len() - i,
    {
        let a = &apps[i];
        assert(av[i as int] == a@);
        if is_paused_for(a, why) {
            let ghost before = action_views(out@);
            out.push(Action::Resume { app: a.name.clone() });
            assert(action_views(out@) =~= before.push(ActionView::Resume { app: a.name@ }));
            assert(action_views(out@) =~= resumes(av, picks(av, p, (i + 1) as nat)));
        }
        i += 1;
    }
    out
}

/// Pauses the apps that asked to rest on battery.
fn rest_on_battery(apps: &Vec<AppView>) -> (r: Vec<Action>)
    ensures
        action_views(r@) == pauses(
            app_views(apps@),
            all_picks(app_views(apps@), |a: AppViewView| battery_shy(a)),
            PauseReason::OnBattery,
        ),
{
    let ghost av = app_views(apps@);
    let ghost p = |a: AppViewView| battery_shy(a);
    let ghost why = PauseReason::OnBattery;
    let mut out: Vec<Action> = Vec::new();
    let mut i: usize = 0;
    assert(action_views(out@) =~= pauses(av, picks(av, p, 0), why));
    while i < apps.len()
        invariant
            i <= apps.len(),
            av == app_views(apps@),
            p == (|a: AppViewView| battery_shy(a)),
            why == PauseReason::OnBattery,
            action_views(out@) == pauses(av, picks(av, p, i as nat), why),
        decreases apps.len() - i,
    {
        let a = &apps[i];
        assert(av[i as int] == a@);
        if is_battery_shy(a) {
            let ghost before = action_views(out@);
            out.push(Action::Pause { app: a.name.clone(), reason: PauseReason::OnBattery });
            assert(action_views(out@) =~= before.push(
                ActionView::Pause { app: a.name@, reason: why },
            ));
            assert(action_views(out@) =~= pauses(av, picks(av, p, (i + 1) as nat), why));
        }
        i += 1;
    }
    out
}

/// What the host should do about an event.
pub fn decide(event: &HostEvent, apps: &Vec<AppView>) -> (r: Vec<Action>)
    ensures
        action_views(r@) == decision(event@, app_views(apps@)),
{
    let out = match event {
        HostEvent::MemoryPressure { level, .. } => match level {
            PressureLevel::Critical => shed(apps),
            PressureLevel::Normal => resume_all(apps, PauseReason::MemoryPressure),
            PressureLevel::Warn => Vec::new(),
        },
        HostEvent::OnBattery => rest_on_battery(apps),
        HostEvent::OnAc => resume_all(apps, PauseReason::OnBattery),
        _ => Vec::new(),
    };
    assert(out@.len() == 0 ==> action_views(out@) =~= Seq::empty());
    out
}

// ---------------------------------------------------------------- crash loops

/// Crash-loop rule: this many OOM kills within the window stop further restarts.
pub const CRASH_LOOP_OOMS: usize = 3;

pub const CRASH_LOOP_WINDOW_SECS: i64 = 600;

/// How many of the times lie no longer than the window before `now`.
pub open spec fn recent_count(times: Seq<Timestamp>, now: Timestamp) -> nat
    decreases times.len(),
{
    if times.len() == 0 {
        0
    } else {
        let rest = recent_count(times.drop_last(), now);
        if now.seconds_after(times.last()) <= CRASH_LOOP_WINDOW_SECS {
            rest + 1
        } else {
            rest
        }
    }
}

pub open spec fn crash_loop(times: Seq<Timestamp>, now: Timestamp) -> bool {
    recent_count(times, now) >= CRASH_LOOP_OOMS
}

/// Were there enough OOM kills within the window before `now`?
pub fn is_crash_loop_at(oom_times: &Vec<Timestamp>, now: Timestamp) -> (r: bool)
    ensures
        r == crash_loop(oom_times@, now),
{
    let mut count: usize = 0;
    let mut i: usize = 0;
    assert(oom_times@.take(0) =~= Seq::empty());
    while i < oom_times.len()
        invariant
            i <= oom_times.len(),
            count <= i,
            count as nat == recent_count(oom_times@.take(i as int), now),
        decreases oom_times.len() - i,
    {
        assert(oom_times@.take(i + 1).drop_last() =~= oom_times@.take(i as int));
        if now.seconds_since(&oom_times[i]) <= CRASH_LOOP_WINDOW_SECS as i128 {
            count += 1;
        }
        i += 1;
    }
    assert(oom_times@.take(i as int) =~= oom_times@);
    count >= CRASH_LOOP_OOMS
}

proof fn lemma_recent_at_most_all(times: Seq<Timestamp>, now: Timestamp)
    ensures
        recent_count(times, now) <= times.len(),
    decreases times.len(),
{
    if times.len() > 0 {
        lemma_recent_at_most_all(times.drop_last(), now);
    }
}

/// Is the app in a crash loop by the machine's clock?
pub fn is_crash_loop(oom_times: &Vec<Timestamp>) -> (r: bool)
    ensures
        oom_times@.len() < CRASH_LOOP_OOMS ==> !r,
        exists|now: Timestamp| now.valid() && r == #[trigger] crash_loop(oom_times@, now),
{
    let now = utc_now();
    proof {
        lemma_recent_at_most_all(oom_times@, now);
    }
    if oom_times.len() < CRASH_LOOP_OOMS {
        assert(!crash_loop(oom_times@, now));
        return false;
    }
    is_crash_loop_at(oom_times, now)
}

// ----------------------------------------------------------------------- laws

/// Picks are positions of apps that satisfy the condition, in ascending order, and
/// none is left out.
pub proof fn lemma_picks(apps: Seq<AppViewView>, p: spec_fn(AppViewView) -> bool, n: nat)
    requires
        n <= apps.len(),
    ensures
        forall|k: int|
            0 <= k < picks(apps, p, n).len() ==> {
                let i = #[trigger] picks(apps, p, n)[k];
                0 <= i < n && p(apps[i])
            },
        forall|i: int| 0 <= i < n && p(#[trigger] apps[i]) ==> picks(apps, p, n).contains(i),
        forall|j: int, k: int|
            0 <= j < k < picks(apps, p, n).len() ==> #[trigger] picks(apps, p, n)[j]
                < #[trigger] picks(apps, p, n)[k],
    decreases n,
{
    if n > 0 {
        let m = (n - 1) as nat;
        lemma_picks(apps, p, m);
        let before = picks(apps, p, m);
        let now = picks(apps, p, n);
        assert forall|i: int| 0 <= i < n && p(#[trigger] apps[i]) implies now.contains(i) by {
            if i < m {
                assert(before.contains(i));
                let k = choose|k: int| 0 <= k < before.len() && before[k] == i;
                assert(now[k] == i);
            } else {
                assert(now[before.len() as int] == i);
            }
        }
    }
}

/// Is this action a pause of that app?
pub open spec fn pauses_app(a: ActionView, name: Seq<char>) -> bool {
    a matches ActionView::Pause { app, .. } && app == name
}

proof fn lemma_shed_positions(apps: Seq<AppViewView>)
    ensures
        ({
            let picked = all_picks(apps, |a: AppViewView| sheddable(a));
            let order = shed_order(apps, picked);
            &&& order.len() == picked.len()
            &&& forall|k: int|
                0 <= k < order.len() ==> 0 <= #[trigger] order[k] < apps.len() && sheddable(
                    apps[order[k]],
                )
            &&& forall|i: int|
                0 <= i < apps.len() && sheddable(#[trigger] apps[i]) ==> order.contains(i)
            &&& forall|j: int, k: int|
                0 <= j < k < order.len() ==> apps[#[trigger] order[j]].priority.rank()
                    <= apps[#[trigger] order[k]].priority.rank()
        }),
{
    let p = |a: AppViewView| sheddable(a);
    let picked = all_picks(apps, p);
    let keys = shed_keys(apps, picked);
    let r = order::ranked(keys);
    let order = shed_order(apps, picked);
    lemma_picks(apps, p, apps.len());
    order::lemma_ranked_upto(keys, keys.len());
    assert forall|i: int| 0 <= i < apps.len() && sheddable(#[trigger] apps[i]) implies order.contains(
        i,
    ) by {
        assert(p(apps[i]));
        assert(picked.contains(i));
        let k = choose|k: int| 0 <= k < picked.len() && picked[k] == i;
        assert(r.contains(k));
        let m = choose|m: int| 0 <= m < r.len() && r[m] == k;
        assert(order[m] == i);
    }
    assert forall|k: int| 0 <= k < order.len() implies 0 <= #[trigger] order[k] < apps.len()
        && sheddable(apps[order[k]]) by {
        assert(0 <= r[k] < picked.len());
        assert(p(apps[picked[r[k]]]));
    }
    assert forall|j: int, k: int| 0 <= j < k < order.len() implies apps[#[trigger] order[j]].priority.rank()
        <= apps[#[trigger] order[k]].priority.rank() by {
        assert(0 <= r[j] < picked.len() && 0 <= r[k] < picked.len());
        assert(keys[r[j]] == (apps[order[j]].priority.rank(), apps[order[j]].name));
        assert(keys[r[k]] == (apps[order[k]].priority.rank(), apps[order[k]].name));
    }
}

/// Critical memory pressure never touches a critical app, pauses nothing that is
/// not running, leaves no other running app out, and pauses in ascending priority.
pub proof fn pressure_sheds_by_priority(available_mb: u64, apps: Seq<AppViewView>)
    ensures
        ({
            let d = decision(
                HostEventView::MemoryPressure { level: PressureLevel::Critical, available_mb },
                apps,
            );
            let order = shed_order(apps, all_picks(apps, |a: AppViewView| sheddable(a)));
            &&& d.len() == order.len()
            &&& forall|k: int|
                0 <= k < d.len() ==> #[trigger] d[k] == (ActionView::Pause {
                    app: apps[order[k]].name,
                    reason: PauseReason::MemoryPressure,
                }) && 0 <= order[k] < apps.len() && apps[order[k]].priority != Priority::Critical
                    && apps[order[k]].state == AppState::Running
            &&& forall|i: int|
                0 <= i < apps.len() && apps[i].state == AppState::Running && apps[i].priority
                    != Priority::Critical ==> exists|k: int|
                    0 <= k < d.len() && pauses_app(#[trigger] d[k], (#[trigger] apps[i]).name)
            &&& forall|j: int, k: int|
                0 <= j < k < order.len() ==> apps[#[trigger] order[j]].priority.rank()
                    <= apps[#[trigger] order[k]].priority.rank()
        }),
{
    let p = |a: AppViewView| sheddable(a);
    let picked = all_picks(apps, p);
    let order = shed_order(apps, picked);
    let d = decision(
        HostEventView::MemoryPressure { level: PressureLevel::Critical, available_mb },
        apps,
    );
    lemma_shed_positions(apps);
    assert forall|i: int|
        0 <= i < apps.len() && apps[i].state == AppState::Running && apps[i].priority
            != Priority::Critical implies exists|k: int|
        0 <= k < d.len() && pauses_app(#[trigger] d[k], (#[trigger] apps[i]).name) by {
        assert(sheddable(apps[i]));
        assert(order.contains(i));
        let k = choose|k: int| 0 <= k < order.len() && order[k] == i;
        assert(pauses_app(d[k], apps[i].name));
    }
}

/// Whatever is resumed had been paused for the reason that has now gone: an app
/// paused by hand is never resumed by an event, nor one paused for another reason.
pub proof fn resumes_only_what_the_policy_paused(
    event: HostEventView,
    apps: Seq<AppViewView>,
    k: int,
)
    requires
        0 <= k < decision(event, apps).len(),
        decision(event, apps)[k] is Resume,
    ensures
        exists|i: int|
            0 <= i < apps.len() && #[trigger] apps[i].name == decision(event, apps)[k]->Resume_app
                && apps[i].state == AppState::Paused && (apps[i].paused_reason == Some(
                PauseReason::MemoryPressure,
            ) && event is MemoryPressure || apps[i].paused_reason == Some(PauseReason::OnBattery)
                && event is OnAc),
{
    if event is OnAc {
        let p = |a: AppViewView| paused_for(a, PauseReason::OnBattery);
        lemma_picks(apps, p, apps.len());
        let i = all_picks(apps, p)[k];
        assert(p(apps[i]));
        assert(apps[i].name == decision(event, apps)[k]->Resume_app);
    } else {
        let p = |a: AppViewView| paused_for(a, PauseReason::MemoryPressure);
        lemma_picks(apps, p, apps.len());
        let i = all_picks(apps, p)[k];
        assert(p(apps[i]));
        assert(apps[i].name == decision(event, apps)[k]->Resume_app);
    }
}

/// The app as it is after the policy rested it on battery.
pub open spec fn after_battery(a: AppViewView) -> AppViewView {
    if battery_shy(a) {
        AppViewView { state: AppState::Paused, paused_reason: Some(PauseReason::OnBattery), ..a }
    } else {
        a
    }
}

/// The battery policy is symmetric: when no app was resting on battery before,
/// going on battery and coming back to mains resumes exactly the apps it paused,
/// in the same order.
pub proof fn battery_policy_is_symmetric(apps: Seq<AppViewView>)
    requires
        forall|i: int|
            0 <= i < apps.len() ==> !paused_for(#[trigger] apps[i], PauseReason::OnBattery),
    ensures
        ({
            let later = Seq::new(apps.len(), |i: int| after_battery(apps[i]));
            let down = decision(HostEventView::OnBattery, apps);
            let up = decision(HostEventView::OnAc, later);
            &&& down.len() == up.len()
            &&& forall|k: int|
                0 <= k < up.len() ==> #[trigger] up[k] == (ActionView::Resume {
                    app: down[k]->Pause_app,
                }) && down[k] is Pause
        }),
{
    let later = Seq::new(apps.len(), |i: int| after_battery(apps[i]));
    let p = |a: AppViewView| battery_shy(a);
    let q = |a: AppViewView| paused_for(a, PauseReason::OnBattery);
    lemma_same_picks(apps, later, p, q, apps.len());
    lemma_picks(apps, p, apps.len());
    let down = decision(HostEventView::OnBattery, apps);
    let up = decision(HostEventView::OnAc, later);
    assert forall|k: int| 0 <= k < up.len() implies #[trigger] up[k] == (ActionView::Resume {
        app: down[k]->Pause_app,
    }) && down[k] is Pause by {
        let i = picks(apps, p, apps.len())[k];
        assert(0 <= i < apps.len());
        assert(later[i].name == apps[i].name);
    }
}

proof fn lemma_same_picks(
    a: Seq<AppViewView>,
    b: Seq<AppViewView>,
    p: spec_fn(AppViewView) -> bool,
    q: spec_fn(AppViewView) -> bool,
    n: nat,
)
    requires
        n <= a.len(),
        a.len() == b.len(),
        forall|i: int| 0 <= i < a.len() ==> p(#[trigger] a[i]) == q(b[i]),
    ensures
        picks(a, p, n) == picks(b, q, n),
    decreases n,
{
    if n > 0 {
        lemma_same_picks(a, b, p, q, (n - 1) as nat);
        assert(p(a[n - 1]) == q(b[n - 1]));
    }
}

/// A crash loop needs enough kills: fewer than the limit never make one, and a
/// kill that is older than the window does not count.
pub proof fn crash_loop_needs_recent_kills(times: Seq<Timestamp>, now: Timestamp)
    ensures
        times.len() < CRASH_LOOP_OOMS ==> !crash_loop(times, now),
        (forall|i: int|
            0 <= i < times.len() ==> now.seconds_after(#[trigger] times[i])
                > CRASH_LOOP_WINDOW_SECS) ==> !crash_loop(times, now),
        (times.len() >= CRASH_LOOP_OOMS && forall|i: int|
            0 <= i < times.len() ==> now.seconds_after(#[trigger] times[i])
                <= CRASH_LOOP_WINDOW_SECS) ==> crash_loop(times, now),
{
    lemma_recent_at_most_all(times, now);
    lemma_recent_extremes(times, now);
}

proof fn lemma_recent_extremes(times: Seq<Timestamp>, now: Timestamp)
    ensures
        (forall|i: int|
            0 <= i < times.len() ==> now.seconds_after(#[trigger] times[i])
                > CRASH_LOOP_WINDOW_SECS) ==> recent_count(times, now) == 0,
        (forall|i: int|
            0 <= i < times.len() ==> now.seconds_after(#[trigger] times[i])
                <= CRASH_LOOP_WINDOW_SECS) ==> recent_count(times, now) == times.len(),
    decreases times.len(),
{
    if times.len() > 0 {
        let t = times.drop_last();
        lemma_recent_extremes(t, now);
        assert(times.last() == times[times.len() - 1]);
        if forall|i: int|
            0 <= i < times.len() ==> now.seconds_after(#[trigger] times[i])
                > CRASH_LOOP_WINDOW_SECS {
            assert forall|i: int| 0 <= i < t.len() implies now.seconds_after(#[trigger] t[i])
                > CRASH_LOOP_WINDOW_SECS by {
                assert(t[i] == times[i]);
            }
        }
        if forall|i: int|
            0 <= i < times.len() ==> now.seconds_after(#[trigger] times[i])
                <= CRASH_LOOP_WINDOW_SECS {
            assert forall|i: int| 0 <= i < t.len() implies now.seconds_after(#[trigger] t[i])
                <= CRASH_LOOP_WINDOW_SECS by {
                assert(t[i] == times[i]);
            }
        }
    }
}

/// A crash loop is three kills or more within the last ten minutes, in whatever order they
/// are noted.
pub proof fn three_kills_in_ten_minutes(times: Seq<Timestamp>, now: Timestamp)
    ensures
        crash_loop(times, now) <==> times.filter(
            |t: Timestamp| now.seconds_after(t) <= 600,
        ).len() >= 3,
{
    lemma_recent_filter(times, now);
}

proof fn lemma_recent_filter(times: Seq<Timestamp>, now: Timestamp)
    ensures
        recent_count(times, now) == times.filter(|t: Timestamp| now.seconds_after(t) <= 600).len(),
    decreases times.len(),
{
    reveal(Seq::filter);
    if times.len() > 0 {
        lemma_recent_filter(times.drop_last(), now);
    }
}

proof fn lemma_picks_filter(apps: Seq<AppViewView>, p: spec_fn(AppViewView) -> bool, n: nat)
    requires
        n <= apps.len(),
    ensures
        ({
            let at = picks(apps, p, n);
            &&& at.len() == apps.take(n as int).filter(p).len()
            &&& forall|k: int|
                0 <= k < at.len() ==> apps[#[trigger] at[k]] == apps.take(n as int).filter(p)[k]
        }),
    decreases n,
{
    reveal(Seq::filter);
    let some = apps.take(n as int);
    if n > 0 {
        lemma_picks_filter(apps, p, (n - 1) as nat);
        assert(some.drop_last() =~= apps.take(n - 1));
        assert(some.last() == apps[n - 1]);
    } else {
        assert(some =~= Seq::empty());
    }
}

/// On battery exactly the running apps that asked for it are paused, in their order; on mains
/// again exactly those that rest on battery are resumed. When memory pressure is gone, exactly
/// those that were paused for it are resumed; as long as it is a warning nothing is done.
pub proof fn events_touch_whom_they_concern(apps: Seq<AppViewView>, available_mb: u64)
    ensures
        decision(HostEventView::OnBattery, apps) == apps.filter(
            |a: AppViewView| a.state == AppState::Running && a.on_battery == OnBattery::Pause,
        ).map_values(
            |a: AppViewView| ActionView::Pause { app: a.name, reason: PauseReason::OnBattery },
        ),
        decision(HostEventView::OnAc, apps) == apps.filter(
            |a: AppViewView|
                a.state == AppState::Paused && a.paused_reason == Some(PauseReason::OnBattery),
        ).map_values(|a: AppViewView| ActionView::Resume { app: a.name }),
        decision(
            HostEventView::MemoryPressure { level: PressureLevel::Normal, available_mb },
            apps,
        ) == apps.filter(
            |a: AppViewView|
                a.state == AppState::Paused && a.paused_reason == Some(PauseReason::MemoryPressure),
        ).map_values(|a: AppViewView| ActionView::Resume { app: a.name }),
        decision(
            HostEventView::MemoryPressure { level: PressureLevel::Warn, available_mb },
            apps,
        ).len() == 0,
{
    assert(apps.take(apps.len() as int) =~= apps);
    let shy = |a: AppViewView| battery_shy(a);
    let rest = |a: AppViewView| paused_for(a, PauseReason::OnBattery);
    let shed = |a: AppViewView| paused_for(a, PauseReason::MemoryPressure);
    lemma_picks_filter(apps, shy, apps.len());
    lemma_picks_filter(apps, rest, apps.len());
    lemma_picks_filter(apps, shed, apps.len());
    assert(shy =~= |a: AppViewView|
        a.state == AppState::Running && a.on_battery == OnBattery::Pause);
    assert(rest =~= |a: AppViewView|
        a.state == AppState::Paused && a.paused_reason == Some(PauseReason::OnBattery));
    assert(shed =~= |a: AppViewView|
        a.state == AppState::Paused && a.paused_reason == Some(PauseReason::MemoryPressure));
    assert(decision(HostEventView::OnBattery, apps) =~= apps.filter(shy).map_values(
        |a: AppViewView| ActionView::Pause { app: a.name, reason: PauseReason::OnBattery },
    ));
    assert(decision(HostEventView::OnAc, apps) =~= apps.filter(rest).map_values(
        |a: AppViewView| ActionView::Resume { app: a.name },
    ));
    assert(decision(
        HostEventView::MemoryPressure { level: PressureLevel::Normal, available_mb },
        apps,
    ) =~= apps.filter(shed).map_values(|a: AppViewView| ActionView::Resume { app: a.name }));
}

/// Does an app give way to another when memory runs out: has it a lower priority, or the same
/// and a name that comes first?
pub open spec fn gives_way(a: AppViewView, b: AppViewView) -> bool {
    ||| a.priority == Priority::Low && b.priority != Priority::Low
    ||| a.priority == Priority::Normal && b.priority == Priority::Critical
    ||| a.priority == b.priority && order::text_less(a.name, b.name)
}

/// When memory is short, each running app but the critical ones is paused once, and none
/// before one that gives way to it.
pub proof fn the_least_important_go_first(apps: Seq<AppViewView>, available_mb: u64, j: int, k: int)
    requires
        0 <= j < k < decision(
            HostEventView::MemoryPressure { level: PressureLevel::Critical, available_mb },
            apps,
        ).len(),
    ensures
        ({
            let d = decision(
                HostEventView::MemoryPressure { level: PressureLevel::Critical, available_mb },
                apps,
            );
            &&& d.len() == apps.filter(
                |a: AppViewView| a.state == AppState::Running && a.priority != Priority::Critical,
            ).len()
            &&& exists|x: int, y: int|
                0 <= x < apps.len() && 0 <= y < apps.len() && x != y && d[j] == (
                ActionView::Pause { app: apps[x].name, reason: PauseReason::MemoryPressure })
                    && d[k] == (ActionView::Pause {
                    app: apps[y].name,
                    reason: PauseReason::MemoryPressure,
                }) && !#[trigger] gives_way(apps[y], apps[x])
        }),
{
    let p = |a: AppViewView| sheddable(a);
    let picked = all_picks(apps, p);
    let keys = shed_keys(apps, picked);
    let r = order::ranked(keys);
    let order = shed_order(apps, picked);
    lemma_shed_positions(apps);
    lemma_picks(apps, p, apps.len());
    lemma_picks_filter(apps, p, apps.len());
    assert(apps.take(apps.len() as int) =~= apps);
    assert(p =~= |a: AppViewView|
        a.state == AppState::Running && a.priority != Priority::Critical);
    order::lemma_ranked_upto(keys, keys.len());
    let (x, y) = (order[j], order[k]);
    assert(0 <= r[j] < picked.len() && 0 <= r[k] < picked.len());
    assert(keys[r[j]] == (apps[x].priority.rank(), apps[x].name));
    assert(keys[r[k]] == (apps[y].priority.rank(), apps[y].name));
    assert(sheddable(apps[x]) && sheddable(apps[y]));
    if order::text_less(apps[y].name, apps[x].name) {
        if order::text_less(apps[x].name, apps[y].name) {
            order::lemma_text_less_transitive(apps[x].name, apps[y].name, apps[x].name);
        }
        order::lemma_text_less_irreflexive(apps[x].name);
    }
    if r[j] == r[k] {
        if order::key_less(keys[r[j]], keys[r[k]]) {
            order::lemma_text_less_irreflexive(apps[x].name);
        }
    }
    lemma_picks_rise(apps, p, apps.len());
    assert(!gives_way(apps[y], apps[x]));
}

proof fn lemma_picks_rise(apps: Seq<AppViewView>, p: spec_fn(AppViewView) -> bool, n: nat)
    ensures
        forall|j: int| 0 <= j < picks(apps, p, n).len() ==> #[trigger] picks(apps, p, n)[j] < n,
        forall|j: int, k: int|
            0 <= j < k < picks(apps, p, n).len() ==> #[trigger] picks(apps, p, n)[j]
                < #[trigger] picks(apps, p, n)[k],
    decreases n,
{
    if n > 0 {
        let before = picks(apps, p, (n - 1) as nat);
        let now = picks(apps, p, n);
        lemma_picks_rise(apps, p, (n - 1) as nat);
        assert forall|j: int| 0 <= j < now.len() implies #[trigger] now[j] < n by {
            if j < before.len() {
                assert(now[j] == before[j]);
            }
        }
        assert forall|j: int, k: int| 0 <= j < k < now.len() implies #[trigger] now[j]
            < #[trigger] now[k] by {
            assert(now[j] == before[j]);
            if k < before.len() {
                assert(now[k] == before[k]);
            }
        }
    }
}

} // verus!
