//! Enforcement at run time: the supervision of replicas (OOM detection, restarts with a
//! crash-loop cutoff), the level of memory pressure, the disk, and the reaper that
//! takes away what desired state no longer explains.
use vstd::arithmetic::power2;
use vstd::prelude::*;

use crate::daemon::{Daemon, DaemonView};
use crate::double::Double;
use crate::events::{HostEvent, HostEventView, PressureLevel};
use crate::names;
use crate::number;
use crate::number::parse_u64;
use crate::policy;
use crate::policy::{is_crash_loop_at, CRASH_LOOP_WINDOW_SECS};
use crate::rollout;
use crate::rollout::container_ids;
use crate::runtime::{ContainerStateInfo, ContainerStateInfoView, LabeledContainer};
use crate::split;
use crate::split::{lines, words};
use crate::state;
use crate::state::{AppRecord, AppRecordView, Store, StoreView};
use crate::text;
use crate::text::{dec_int, same, text_after, text_before, trim_trailing, trimmed, without_prefix};
use crate::time::Timestamp;
use crate::types::AppState;
use crate::values::{clone_texts, contains_text};

verus! {

// ----------------------------------------------------------------- replica supervision

/// An app whose replicas are supervised.
#[derive(Debug)]
pub struct Watched {
    pub name: String,
    pub memory_mb: u64,
    pub containers: Vec<String>,
}

/// The contents of a `Watched`.
pub struct WatchedView {
    pub name: Seq<char>,
    pub memory_mb: u64,
    pub containers: Seq<Seq<char>>,
}

impl View for Watched {
    type V = WatchedView;

    open spec fn view(&self) -> WatchedView {
        WatchedView {
            name: self.name@,
            memory_mb: self.memory_mb,
            containers: split::views(self.containers@),
        }
    }
}

impl Clone for Watched {
    fn clone(&self) -> (r: Self)
        ensures
            r@ == self@,
    {
        Watched {
            name: self.name.clone(),
            memory_mb: self.memory_mb,
            containers: clone_texts(&self.containers),
        }
    }
}

pub open spec fn watched_views(v: Seq<Watched>) -> Seq<WatchedView> {
    Seq::new(v.len(), |i: int| v[i]@)
}

/// A round of supervision: the apps, and the replica that is looked at.
#[derive(Debug)]
pub struct Supervision {
    pub apps: Vec<Watched>,
    pub app: usize,
    pub replica: usize,
    pub restarting: bool,
}

/// The contents of a `Supervision`.
pub struct SupervisionView {
    pub apps: Seq<WatchedView>,
    pub app: usize,
    pub replica: usize,
    pub restarting: bool,
}

impl View for Supervision {
    type V = SupervisionView;

    open spec fn view(&self) -> SupervisionView {
        SupervisionView {
            apps: watched_views(self.apps@),
            app: self.app,
            replica: self.replica,
            restarting: self.restarting,
        }
    }
}

#[derive(Debug)]
pub enum SuperviseAction {
    Inspect { container: String },
    /// Restart this container after a while.
    Restart { container: String, after_secs: u64 },
    Done,
}

/// The contents of a `SuperviseAction`.
pub enum SuperviseActionView {
    Inspect { container: Seq<char> },
    Restart { container: Seq<char>, after_secs: u64 },
    Done,
}

impl View for SuperviseAction {
    type V = SuperviseActionView;

    open spec fn view(&self) -> SuperviseActionView {
        match self {
            SuperviseAction::Inspect { container } => SuperviseActionView::Inspect {
                container: container@,
            },
            SuperviseAction::Restart { container, after_secs } => SuperviseActionView::Restart {
                container: container@,
                after_secs: *after_secs,
            },
            SuperviseAction::Done => SuperviseActionView::Done,
        }
    }
}

#[derive(Debug)]
pub enum SuperviseEvent {
    Found(ContainerStateInfo),
    /// The container could not be inspected.
    Unknown,
    Restarted,
}

/// The contents of a `SuperviseEvent`.
pub enum SuperviseEventView {
    Found(ContainerStateInfoView),
    Unknown,
    Restarted,
}

impl View for SuperviseEvent {
    type V = SuperviseEventView;

    open spec fn view(&self) -> SuperviseEventView {
        match self {
            SuperviseEvent::Found(x) => SuperviseEventView::Found(x@),
            SuperviseEvent::Unknown => SuperviseEventView::Unknown,
            SuperviseEvent::Restarted => SuperviseEventView::Restarted,
        }
    }
}

/// Events to be told, and what is to be done next.
#[derive(Debug)]
pub struct SuperviseStep {
    pub events: Vec<HostEvent>,
    pub action: SuperviseAction,
}

/// The contents of a `SuperviseStep`.
pub struct SuperviseStepView {
    pub events: Seq<HostEventView>,
    pub action: SuperviseActionView,
}

impl View for SuperviseStep {
    type V = SuperviseStepView;

    open spec fn view(&self) -> SuperviseStepView {
        SuperviseStepView {
            events: host_event_views(self.events@),
            action: self.action@,
        }
    }
}

pub open spec fn host_event_views(v: Seq<HostEvent>) -> Seq<HostEventView> {
    Seq::new(v.len(), |i: int| v[i]@)
}

/// Is an app supervised? One that is paused or in a crash loop is left alone.
pub open spec fn supervised(rec: AppRecordView) -> bool {
    rec.state != AppState::Paused && rec.state != AppState::CrashLoop
}

/// What is watched of an app that is kept under a name.
pub open spec fn watched_view(name: Seq<char>, rec: AppRecordView) -> WatchedView {
    WatchedView {
        name,
        memory_mb: rec.spec.resources.memory_mb,
        containers: rollout::ids_of(rec.replicas),
    }
}

/// The supervised among the apps of these names.
pub open spec fn watch_list(
    apps: Map<Seq<char>, AppRecordView>,
    names: Seq<Seq<char>>,
) -> Seq<WatchedView>
    decreases names.len(),
{
    if names.len() == 0 {
        Seq::empty()
    } else if supervised(apps[names.last()]) {
        watch_list(apps, names.drop_last()).push(watched_view(names.last(), apps[names.last()]))
    } else {
        watch_list(apps, names.drop_last())
    }
}

/// The times that lie no longer than the crash-loop window before `now`.
pub open spec fn pruned(times: Seq<Timestamp>, now: Timestamp) -> Seq<Timestamp>
    decreases times.len(),
{
    if times.len() == 0 {
        Seq::empty()
    } else {
        let rest = pruned(times.drop_last(), now);
        if times.last().before(now.earlier_by(CRASH_LOOP_WINDOW_SECS as int)) {
            rest
        } else {
            rest.push(times.last())
        }
    }
}

/// The record of an app of which a replica has died. A kill for its memory is noted; too
/// many of those are a crash loop.
pub open spec fn after_death(rec: AppRecordView, oom: bool, now: Timestamp) -> AppRecordView {
    let times = pruned(
        if oom {
            rec.oom_times.push(now)
        } else {
            rec.oom_times
        },
        now,
    );
    AppRecordView {
        restarts: ((rec.restarts + 1) % 0x1_0000_0000) as u32,
        oom_times: times,
        state: if policy::crash_loop(times, now) {
            AppState::CrashLoop
        } else {
            rec.state
        },
        ..rec
    }
}

/// An exit code as it is told.
pub open spec fn code_text(code: Option<i64>) -> Seq<char> {
    match code {
        Some(c) => "Some("@ + text::decimal_int(c as int) + ")"@,
        None => "None"@,
    }
}

/// Was a container killed for its memory?
pub open spec fn killed_for_memory(st: ContainerStateInfoView) -> bool {
    st.oom_killed || st.exit_code == Some(137i64)
}

/// What is told of a replica that has died.
pub open spec fn death_event(
    app: Seq<char>,
    memory_mb: u64,
    st: ContainerStateInfoView,
    restarts: u32,
) -> HostEventView {
    if killed_for_memory(st) {
        HostEventView::AppOomKilled { app, memory_mb, restarts }
    } else {
        HostEventView::AppUnhealthy {
            app,
            detail: "container exited (code "@ + code_text(st.exit_code) + "), restarting"@,
        }
    }
}

/// The pause before a restart: two, four, eight and so on seconds, at most 32.
pub open spec fn backoff_secs(restarts: u32) -> u64 {
    if restarts == 0 {
        1
    } else if restarts == 1 {
        2
    } else if restarts == 2 {
        4
    } else if restarts == 3 {
        8
    } else if restarts == 4 {
        16
    } else {
        32
    }
}

/// The daemon, the round and the step that an event leads to.
pub struct SuperviseMove {
    pub daemon: DaemonView,
    pub round: SupervisionView,
    pub step: SuperviseStepView,
}

impl SupervisionView {
    pub open spec fn wf(self) -> bool {
        self.app < self.apps.len() ==> self.replica < self.apps[self.app as int].containers.len()
    }

    pub open spec fn over(self) -> bool {
        self.app >= self.apps.len()
    }

    pub open spec fn awaits(self, event: SuperviseEventView) -> bool {
        !self.over() && if self.restarting {
            event is Restarted
        } else {
            event is Found || event is Unknown
        }
    }

    /// On to the next app that has a replica.
    pub open spec fn skip(self) -> SupervisionView
        decreases self.apps.len() - self.app,
    {
        if self.app < self.apps.len() && self.app < usize::MAX && self.replica
            >= self.apps[self.app as int].containers.len() {
            (SupervisionView { app: (self.app + 1) as usize, replica: 0, ..self }).skip()
        } else {
            self
        }
    }

    /// On to the next replica.
    pub open spec fn on(self) -> SupervisionView {
        (SupervisionView {
            replica: (self.replica + 1) as usize,
            restarting: false,
            ..self
        }).skip()
    }

    /// On to the next app.
    pub open spec fn next_app(self) -> SupervisionView {
        (SupervisionView {
            app: (self.app + 1) as usize,
            replica: 0,
            restarting: false,
            ..self
        }).skip()
    }

    pub open spec fn container(self) -> Seq<char> {
        self.apps[self.app as int].containers[self.replica as int]
    }

    pub open spec fn action(self) -> SuperviseActionView {
        if self.over() {
            SuperviseActionView::Done
        } else {
            SuperviseActionView::Inspect { container: self.container() }
        }
    }

    pub open spec fn step_with(self, events: Seq<HostEventView>) -> SuperviseStepView {
        SuperviseStepView { events, action: self.action() }
    }

    /// A replica has died: this is counted, told, and it is restarted after a while,
    /// unless its app is in a crash loop.
    pub open spec fn died(
        self,
        d: DaemonView,
        st: ContainerStateInfoView,
        now: Timestamp,
    ) -> SuperviseMove {
        let w = self.apps[self.app as int];
        let (daemon, restarts, looped) = match d.store.app(w.name) {
            Some(rec) => {
                let then = after_death(rec, killed_for_memory(st), now);
                (
                    d.with_store(d.store.with_apps(d.store.apps.insert(w.name, then))),
                    then.restarts,
                    policy::crash_loop(then.oom_times, now),
                )
            },
            None => (d, 0u32, false),
        };
        let told = seq![death_event(w.name, w.memory_mb, st, restarts)];
        if looped {
            SuperviseMove {
                daemon,
                round: self.next_app(),
                step: self.next_app().step_with(
                    told.push(HostEventView::AppCrashLoop { app: w.name, restarts }),
                ),
            }
        } else {
            SuperviseMove {
                daemon,
                round: SupervisionView { restarting: true, ..self },
                step: SuperviseStepView {
                    events: told,
                    action: SuperviseActionView::Restart {
                        container: self.container(),
                        after_secs: backoff_secs(restarts),
                    },
                },
            }
        }
    }

    pub open spec fn advance(
        self,
        d: DaemonView,
        event: SuperviseEventView,
        now: Timestamp,
    ) -> SuperviseMove {
        match event {
            SuperviseEventView::Found(st) => if st.running || st.paused {
                SuperviseMove {
                    daemon: d,
                    round: self.on(),
                    step: self.on().step_with(Seq::empty()),
                }
            } else {
                self.died(d, st, now)
            },
            _ => SuperviseMove {
                daemon: d,
                round: self.on(),
                step: self.on().step_with(Seq::empty()),
            },
        }
    }
}

fn to_watch(name: &str, rec: &AppRecord) -> (r: Watched)
    ensures
        r@ == watched_view(name@, rec@),
{
    Watched {
        name: name.to_owned(),
        memory_mb: rec.spec.resources.memory_mb,
        containers: container_ids(&rec.replicas),
    }
}

fn watched(store: &Store) -> (r: Vec<Watched>)
    ensures
        watched_views(r@) == watch_list(store@.apps, names::listing(store@.apps.dom())),
{
    let n = store.apps.len();
    let ghost keys = store.apps.key_list();
    assert(store@.apps.dom() =~= store.apps@.dom());
    let mut out: Vec<Watched> = Vec::new();
    let mut i: usize = 0;
    assert(keys.take(0) =~= Seq::empty());
    assert(watched_views(out@) =~= Seq::empty());
    while i < n
        invariant
            i <= n,
            n == keys.len(),
            keys == store.apps.key_list(),
            names::lists(keys, store.apps@.dom()),
            watched_views(out@) == watch_list(store@.apps, keys.take(i as int)),
        decreases n - i,
    {
        assert(keys.take(i + 1).drop_last() =~= keys.take(i as int));
        assert(keys.take(i + 1).last() == keys[i as int]);
        assert(keys.contains(keys[i as int]));
        let rec = store.apps.value_at(i);
        if rec.state != AppState::Paused && rec.state != AppState::CrashLoop {
            let ghost before = out@;
            let w = to_watch(store.apps.key_at(i).as_str(), rec);
            out.push(w);
            assert(watched_views(out@) =~= watched_views(before).push(w@));
        }
        i += 1;
    }
    assert(keys.take(i as int) =~= keys);
    out
}

fn prune(times: &Vec<Timestamp>, now: Timestamp) -> (r: Vec<Timestamp>)
    requires
        now.valid(),
    ensures
        r@ == pruned(times@, now),
{
    let cutoff = now.minus_secs(CRASH_LOOP_WINDOW_SECS);
    let mut out: Vec<Timestamp> = Vec::new();
    let mut i: usize = 0;
    assert(times@.take(0) =~= Seq::empty());
    while i < times.len()
        invariant
            i <= times.len(),
            cutoff == now.earlier_by(CRASH_LOOP_WINDOW_SECS as int),
            out@ == pruned(times@.take(i as int), now),
        decreases times.len() - i,
    {
        assert(times@.take(i + 1).drop_last() =~= times@.take(i as int));
        let t = times[i];
        if !t.is_before(&cutoff) {
            out.push(t);
        }
        i += 1;
    }
    assert(times@.take(i as int) =~= times@);
    out
}

impl Supervision {
    fn skip(&mut self)
        ensures
            final(self)@ == old(self)@.skip(),
            final(self)@.wf(),
    {
        let n = self.apps.len();
        while self.app < n && self.replica >= self.apps[self.app].containers.len()
            invariant
                n == self.apps.len(),
                self@.skip() == old(self)@.skip(),
            decreases n - self.app,
        {
            self.app = self.app + 1;
            self.replica = 0;
        }
    }

    fn on(&mut self)
        requires
            old(self)@.wf(),
            !old(self)@.over(),
        ensures
            final(self)@ == old(self)@.on(),
            final(self)@.wf(),
    {
        let k = self.apps[self.app].containers.len();
        self.replica = self.replica + 1;
        self.restarting = false;
        self.skip();
    }

    fn next_app(&mut self)
        requires
            !old(self)@.over(),
        ensures
            final(self)@ == old(self)@.next_app(),
            final(self)@.wf(),
    {
        let n = self.apps.len();
        self.app = self.app + 1;
        self.replica = 0;
        self.restarting = false;
        self.skip();
    }

    fn step_with(&self, events: Vec<HostEvent>) -> (r: SuperviseStep)
        requires
            self@.wf(),
        ensures
            r@ == self@.step_with(host_event_views(events@)),
    {
        if self.app >= self.apps.len() {
            SuperviseStep { events, action: SuperviseAction::Done }
        } else {
            SuperviseStep {
                events,
                action: SuperviseAction::Inspect {
                    container: self.apps[self.app].containers[self.replica].clone(),
                },
            }
        }
    }
}

fn code_of(code: Option<i64>) -> (r: String)
    ensures
        r@ == code_text(code),
{
    match code {
        Some(c) => "Some(".to_owned().concat(dec_int(c).as_str()).concat(")"),
        None => "None".to_owned(),
    }
}

fn backoff(restarts: u32) -> (r: u64)
    ensures
        r == backoff_secs(restarts),
{
    if restarts == 0 {
        1
    } else if restarts == 1 {
        2
    } else if restarts == 2 {
        4
    } else if restarts == 3 {
        8
    } else if restarts == 4 {
        16
    } else {
        32
    }
}

impl Daemon {
    /// Begins a round of supervision: every replica is inspected, and dead ones are
    /// restarted.
    pub fn supervise_replicas(&self) -> (r: (Supervision, SuperviseStep))
        ensures
            r.0@ == (SupervisionView {
                apps: watch_list(
                    self@.store.apps,
                    names::listing(self@.store.apps.dom()),
                ),
                app: 0,
                replica: 0,
                restarting: false,
            }).skip(),
            r.0@.wf(),
            r.1@ == r.0@.step_with(Seq::empty()),
    {
        let apps = watched(&self.store);
        let mut round = Supervision { apps, app: 0, replica: 0, restarting: false };
        round.skip();
        let none: Vec<HostEvent> = Vec::new();
        assert(host_event_views(none@) =~= Seq::empty());
        let step = round.step_with(none);
        (round, step)
    }

    /// A replica has died: counts it, and tells the restarts so far and whether the app
    /// is in a crash loop now.
    fn count_death(&mut self, name: &str, oom: bool, now: Timestamp) -> (r: (u32, bool))
        requires
            now.valid(),
        ensures
            match old(self)@.store.app(name@) {
                Some(rec) => {
                    let then = after_death(rec, oom, now);
                    &&& final(self)@ == old(self)@.with_store(
                        old(self)@.store.with_apps(old(self)@.store.apps.insert(name@, then)),
                    )
                    &&& r.0 == then.restarts
                    &&& r.1 == policy::crash_loop(then.oom_times, now)
                },
                None => final(self)@ == old(self)@ && r.0 == 0 && !r.1,
            },
            final(self).table == old(self).table,
    {
        let mut rec = match self.store.get(name) {
            Some(rec) => rec,
            None => {
                return (0, false);
            },
        };
        rec.restarts = rec.restarts.wrapping_add(1);
        if oom {
            rec.oom_times.push(now);
        }
        let times = prune(&rec.oom_times, now);
        let looped = is_crash_loop_at(&times, now);
        rec.oom_times = times;
        if looped {
            rec.state = AppState::CrashLoop;
        }
        let restarts = rec.restarts;
        self.store.put(name, rec);
        (restarts, looped)
    }

    /// Takes in what came of the last step of a round of supervision, and tells the next.
    pub fn supervise_next(
        &mut self,
        round: &mut Supervision,
        event: SuperviseEvent,
        now: Timestamp,
    ) -> (r: SuperviseStep)
        requires
            now.valid(),
            old(self).wf(),
            old(round)@.wf(),
            old(round)@.awaits(event@),
        ensures
            ({
                let m = old(round)@.advance(old(self)@, event@, now);
                &&& final(self)@ == m.daemon
                &&& final(round)@ == m.round
                &&& r@ == m.step
            }),
            final(round)@.wf(),
            final(self).wf(),
            old(self)@.store.wf() ==> final(self)@.store.wf(),
            final(self).table == old(self).table,
    {
        let mut events: Vec<HostEvent> = Vec::new();
        assert(host_event_views(events@) =~= Seq::empty());
        let st = match event {
            SuperviseEvent::Found(st) => st,
            _ => {
                round.on();
                return round.step_with(events);
            },
        };
        if st.running || st.paused {
            round.on();
            return round.step_with(events);
        }
        let name = round.apps[round.app].name.clone();
        let memory_mb = round.apps[round.app].memory_mb;
        let container = round.apps[round.app].containers[round.replica].clone();
        let oom = st.oom_killed || match st.exit_code {
            Some(c) => c == 137,
            None => false,
        };
        let (restarts, looped) = self.count_death(name.as_str(), oom, now);
        let told = if oom {
            HostEvent::AppOomKilled { app: name.clone(), memory_mb, restarts }
        } else {
            HostEvent::AppUnhealthy {
                app: name.clone(),
                detail: "container exited (code ".to_owned().concat(
                    code_of(st.exit_code).as_str(),
                ).concat("), restarting"),
            }
        };
        events.push(told);
        assert(host_event_views(events@) =~= seq![told@]);
        if looped {
            let event = HostEvent::AppCrashLoop { app: name, restarts };
            events.push(event);
            assert(host_event_views(events@) =~= seq![told@].push(event@));
            round.next_app();
            return round.step_with(events);
        }
        round.restarting = true;
        SuperviseStep {
            events,
            action: SuperviseAction::Restart { container, after_secs: backoff(restarts) },
        }
    }
}

// -------------------------------------------------------------------- memory pressure

/// The level of pressure that so much available memory means.
pub open spec fn level_of(available_mb: u64, critical_mb: u64, warn_mb: u64) -> PressureLevel {
    if available_mb < critical_mb {
        PressureLevel::Critical
    } else if available_mb < warn_mb {
        PressureLevel::Warn
    } else {
        PressureLevel::Normal
    }
}

/// A level that was seen: which level waits for confirmation then, and which is
/// confirmed.
pub open spec fn debounced(
    current: PressureLevel,
    pending: Option<PressureLevel>,
    level: PressureLevel,
) -> (Option<PressureLevel>, Option<PressureLevel>) {
    if level == current {
        (None, None)
    } else if pending == Some(level) {
        (None, Some(level))
    } else {
        (Some(level), None)
    }
}

/// The daemon, the level that waits and the event after a look at the available memory; one
/// that could not be read changes nothing.
pub open spec fn pressed(
    d: DaemonView,
    pending: Option<PressureLevel>,
    available_mb: Option<u64>,
) -> (DaemonView, Option<PressureLevel>, Option<HostEventView>) {
    match available_mb {
        None => (d, pending, None),
        Some(mb) => {
            let level = level_of(mb, d.config.pressure_critical_mb, d.config.pressure_warn_mb);
            let (waits, confirmed) = debounced(d.pressure, pending, level);
            match confirmed {
                Some(l) => (
                    DaemonView { pressure: l, ..d },
                    waits,
                    Some(HostEventView::MemoryPressure { level: l, available_mb: mb }),
                ),
                None => (d, waits, None),
            }
        },
    }
}

impl Daemon {
    /// Takes in the available memory. A change of level must hold for two looks in a row
    /// before it is told (and thus before anything is paused or resumed); an unreadable
    /// sample never sheds apps.
    pub fn pressure_tick(
        &mut self,
        pending: &mut Option<PressureLevel>,
        available_mb: Option<u64>,
    ) -> (r: Option<HostEvent>)
        ensures
            final(self).table == old(self).table,
            ({
                let m = pressed(old(self)@, *old(pending), available_mb);
                &&& final(self)@ == m.0
                &&& *final(pending) == m.1
                &&& match r {
                    Some(e) => m.2 == Some(e@),
                    None => m.2 is None,
                }
            }),
    {
        let mb = match available_mb {
            Some(mb) => mb,
            None => {
                return None;
            },
        };
        let level = if mb < self.config.pressure_critical_mb {
            PressureLevel::Critical
        } else if mb < self.config.pressure_warn_mb {
            PressureLevel::Warn
        } else {
            PressureLevel::Normal
        };
        let seen = match *pending {
            Some(p) => p == level,
            None => false,
        };
        if level == self.pressure {
            *pending = None;
            None
        } else if seen {
            *pending = None;
            self.pressure = level;
            Some(HostEvent::MemoryPressure { level, available_mb: mb })
        } else {
            *pending = Some(level);
            None
        }
    }
}

// ------------------------------------------------------------------ available memory

/// The page size that the first line of `vm_stat` names.
pub open spec fn page_size(raw: Seq<char>) -> u64 {
    let all = split::line_list(raw);
    if all.len() == 0 {
        16384
    } else {
        match text::after(all[0], "page size of"@) {
            Some(rest) => {
                let ws = split::word_list(text::before(rest, "page size of"@));
                if ws.len() == 0 {
                    16384
                } else {
                    match number::unsigned(ws[0], u64::MAX as nat) {
                        Some(n) => n as u64,
                        None => 16384,
                    }
                }
            },
            None => 16384,
        }
    }
}

/// The pages that a line counts under a key.
pub open spec fn pages_under(line: Seq<char>, key: Seq<char>) -> Option<nat> {
    match text::strip_prefix(line, key) {
        Some(rest) => number::unsigned(
            text::drop_trailing(text::trim(rest), "."@),
            u64::MAX as nat,
        ),
        None => None,
    }
}

pub open spec fn page_keys() -> Seq<Seq<char>> {
    seq!["Pages free:"@, "Pages inactive:"@, "Pages speculative:"@, "Pages purgeable:"@]
}

/// The pages that a line counts, under each of the first `n` keys.
pub open spec fn line_pages(line: Seq<char>, n: nat) -> (nat, bool)
    decreases n,
{
    if n == 0 {
        (0, false)
    } else {
        let (sum, found) = line_pages(line, (n - 1) as nat);
        match pages_under(line, page_keys()[n - 1]) {
            Some(v) => (sum + v, true),
            None => (sum, found),
        }
    }
}

/// The pages that some lines count, and whether any counts some.
pub open spec fn all_pages(all: Seq<Seq<char>>) -> (nat, bool)
    decreases all.len(),
{
    if all.len() == 0 {
        (0, false)
    } else {
        let (sum, found) = all_pages(all.drop_last());
        let (more, here) = line_pages(all.last(), 4);
        (sum + more, found || here)
    }
}

/// The memory that `vm_stat` tells of as available, in megabytes.
pub open spec fn vm_stat_mb(raw: Seq<char>) -> Option<nat> {
    let (pages, found) = all_pages(split::line_list(raw));
    if found {
        Some(
            ((((pages % 0x1_0000_0000_0000_0000) * page_size(raw)) as nat) % 0x1_0000_0000_0000_0000)
                / 1_048_576,
        )
    } else {
        None
    }
}

fn page_size_of(raw: &str) -> (r: u64)
    ensures
        r == page_size(raw@),
{
    let all = lines(raw);
    if all.len() == 0 {
        return 16384;
    }
    assert(split::views(all@)[0] == all@[0]@);
    match text_after(all[0].as_str(), "page size of") {
        Some(rest) => {
            let ws = words(text_before(rest.as_str(), "page size of").as_str());
            if ws.len() == 0 {
                16384
            } else {
                assert(split::views(ws@)[0] == ws@[0]@);
                match parse_u64(ws[0].as_str()) {
                    Some(n) => n,
                    None => 16384,
                }
            }
        },
        None => 16384,
    }
}

fn pages_in(line: &str, key: &str) -> (r: Option<u64>)
    ensures
        match r {
            Some(v) => pages_under(line@, key@) == Some(v as nat),
            None => pages_under(line@, key@) is None,
        },
{
    match without_prefix(line, key) {
        Some(rest) => parse_u64(trim_trailing(trimmed(rest.as_str()).as_str(), ".").as_str()),
        None => None,
    }
}

proof fn lemma_add_mod(a: nat, b: nat)
    ensures
        ((a % 0x1_0000_0000_0000_0000) + b) % 0x1_0000_0000_0000_0000 == (a + b)
            % 0x1_0000_0000_0000_0000,
{
    vstd::arithmetic::div_mod::lemma_add_mod_noop(
        a as int,
        b as int,
        0x1_0000_0000_0000_0000,
    );
    vstd::arithmetic::div_mod::lemma_add_mod_noop(
        (a % 0x1_0000_0000_0000_0000) as int,
        b as int,
        0x1_0000_0000_0000_0000,
    );
    vstd::arithmetic::div_mod::lemma_mod_twice(a as int, 0x1_0000_0000_0000_0000);
}

fn line_pages_of(line: &str, sum: u64, found: bool) -> (r: (u64, bool))
    ensures
        r.0 == (sum + line_pages(line@, 4).0) % 0x1_0000_0000_0000_0000,
        r.1 == (found || line_pages(line@, 4).1),
{
    let mut keys: Vec<&str> = Vec::new();
    keys.push("Pages free:");
    keys.push("Pages inactive:");
    keys.push("Pages speculative:");
    keys.push("Pages purgeable:");
    let mut s = sum;
    let mut f = found;
    let mut k: usize = 0;
    while k < 4
        invariant
            k <= 4,
            keys@.len() == 4,
            forall|j: int| 0 <= j < 4 ==> (#[trigger] keys@[j])@ == page_keys()[j],
            s == (sum + line_pages(line@, k as nat).0) % 0x1_0000_0000_0000_0000,
            f == (found || line_pages(line@, k as nat).1),
        decreases 4 - k,
    {
        match pages_in(line, keys[k]) {
            Some(v) => {
                proof {
                    lemma_add_mod((sum + line_pages(line@, k as nat).0) as nat, v as nat);
                }
                s = s.wrapping_add(v);
                f = true;
            },
            None => {},
        }
        k += 1;
    }
    (s, f)
}

/// Available memory in megabytes: what the system says, in bytes; where that is less
/// than one megabyte, what `vm_stat` counts. None where it is unknown.
pub fn available_memory_mb(system_bytes: u64, vm_stat: Option<&str>) -> (r: Option<u64>)
    ensures
        system_bytes >= 1_048_576 ==> r == Some((system_bytes / 1_048_576) as u64),
        system_bytes < 1_048_576 ==> match vm_stat {
            Some(raw) => match r {
                Some(mb) => vm_stat_mb(raw@) == Some(mb as nat),
                None => vm_stat_mb(raw@) is None,
            },
            None => r is None,
        },
{
    let mb = system_bytes / 1_048_576;
    if mb > 0 {
        return Some(mb);
    }
    let raw = match vm_stat {
        Some(raw) => raw,
        None => {
            return None;
        },
    };
    let size = page_size_of(raw);
    let all = lines(raw);
    let ghost lv = split::views(all@);
    let mut pages: u64 = 0;
    let mut found = false;
    let mut i: usize = 0;
    assert(lv.take(0) =~= Seq::empty());
    while i < all.len()
        invariant
            i <= all.len(),
            lv == split::views(all@),
            pages == all_pages(lv.take(i as int)).0 % 0x1_0000_0000_0000_0000,
            found == all_pages(lv.take(i as int)).1,
        decreases all.len() - i,
    {
        proof {
            assert(lv.take(i + 1).drop_last() =~= lv.take(i as int));
            assert(lv.take(i + 1).last() == all@[i as int]@);
            lemma_add_mod(all_pages(lv.take(i as int)).0, line_pages(lv[i as int], 4).0);
        }
        let (p, f) = line_pages_of(all[i].as_str(), pages, found);
        pages = p;
        found = f;
        i += 1;
    }
    assert(lv.take(i as int) =~= lv);
    if found {
        Some(pages.wrapping_mul(size) / 1_048_576)
    } else {
        None
    }
}

// ------------------------------------------------------------------- disk and reaper

/// The disk's state and what is told of it. A disk that was not low and now is, is told.
pub open spec fn disk_after(low: bool, free: Option<Double>, min: Double) -> (bool, bool) {
    match free {
        Some(f) => (f.less(min), f.less(min) && !low),
        None => (low, false),
    }
}

pub fn disk_tick(low: &mut bool, free_gb: Option<Double>, min_free_gb: Double) -> (r: Option<HostEvent>)
    ensures
        *final(low) == disk_after(*old(low), free_gb, min_free_gb).0,
        disk_after(*old(low), free_gb, min_free_gb).1 ==> (r matches Some(e) && e@ == (
        HostEventView::DiskLow { free_gb: free_gb->0 })),
        !disk_after(*old(low), free_gb, min_free_gb).1 ==> r is None,
{
    match free_gb {
        Some(free) => {
            let now = free.lt(&min_free_gb);
            let told = now && !*low;
            *low = now;
            if told {
                Some(HostEvent::DiskLow { free_gb: free })
            } else {
                None
            }
        },
        None => None,
    }
}

/// Every so many ticks the reaper comes: every ten minutes.
pub const REAP_TICKS: u32 = 40;

/// Counts a tick. Tells whether the reaper comes.
pub fn reap_tick(counter: &mut u32) -> (r: bool)
    requires
        *old(counter) < REAP_TICKS,
    ensures
        r == (*old(counter) + 1 >= REAP_TICKS),
        *final(counter) == if r {
            0
        } else {
            *old(counter) + 1
        },
{
    *counter = *counter + 1;
    if *counter >= REAP_TICKS {
        *counter = 0;
        true
    } else {
        false
    }
}

/// Do these apps account for a container?
pub open spec fn known(apps: Seq<AppRecordView>, id: Seq<char>) -> bool {
    exists|i: int| 0 <= i < apps.len() && rollout::ids_of((#[trigger] apps[i]).replicas).contains(id)
}

/// Is a labelled container one that desired state does not explain?
pub open spec fn orphan(store: StoreView, app: Seq<char>, id: Seq<char>) -> bool {
    !store.apps.dom().contains(app) || !known(store.app_list(), id)
}

/// The orphans among these containers.
pub open spec fn orphans(store: StoreView, labeled: Seq<LabeledContainer>) -> Seq<Seq<char>>
    decreases labeled.len(),
{
    if labeled.len() == 0 {
        Seq::empty()
    } else {
        let rest = orphans(store, labeled.drop_last());
        if orphan(store, labeled.last().app@, labeled.last().id@) {
            rest.push(labeled.last().id@)
        } else {
            rest
        }
    }
}

fn is_known(apps: &Vec<AppRecord>, id: &str) -> (r: bool)
    ensures
        r == known(state::app_record_views(apps@), id@),
{
    let ghost av = state::app_record_views(apps@);
    let mut i: usize = 0;
    while i < apps.len()
        invariant
            i <= apps.len(),
            av == state::app_record_views(apps@),
            forall|j: int|
                0 <= j < i ==> !rollout::ids_of((#[trigger] av[j]).replicas).contains(id@),
        decreases apps.len() - i,
    {
        let ids = container_ids(&apps[i].replicas);
        assert(av[i as int] == apps@[i as int]@);
        if contains_text(&ids, id) {
            return true;
        }
        i += 1;
    }
    false
}

impl Daemon {
    /// The labelled containers that desired state no longer explains.
    pub fn orphan_containers(&self, labeled: &Vec<LabeledContainer>) -> (r: Vec<String>)
        ensures
            split::views(r@) == orphans(self@.store, labeled@),
    {
        let apps = self.store.snapshot();
        let mut out: Vec<String> = Vec::new();
        let mut i: usize = 0;
        assert(labeled@.take(0) =~= Seq::empty());
        assert(split::views(out@) =~= Seq::empty());
        while i < labeled.len()
            invariant
                i <= labeled.len(),
                state::app_record_views(apps@) == self@.store.app_list(),
                split::views(out@) == orphans(self@.store, labeled@.take(i as int)),
            decreases labeled.len() - i,
        {
            assert(labeled@.take(i + 1).drop_last() =~= labeled@.take(i as int));
            let c = &labeled[i];
            if !self.store.has_app(c.app.as_str()) || !is_known(&apps, c.id.as_str()) {
                let id = c.id.clone();
                proof {
                    split::lemma_views_push(out@, id);
                }
                out.push(id);
            }
            i += 1;
        }
        assert(labeled@.take(i as int) =~= labeled@);
        out
    }

    /// Strikes off the processes of apps that are gone; they are to be killed. The
    /// daemon's own tunnel stays.
    pub fn orphan_processes(&mut self) -> (r: Vec<u32>)
        ensures
            final(self)@ == old(self)@.with_store(
                old(self)@.store.with_pids(
                    old(self)@.store.registry.cloudflared.restrict(
                        explained(old(self)@.store),
                    ),
                ),
            ),
            final(self).table == old(self).table,
            r@ == stray_pids(old(self)@.store, names::listing(
                old(self)@.store.registry.cloudflared.dom(),
            )),
    {
        let keys = self.store.registry.cloudflared.keys();
        let n = self.store.registry.cloudflared.len();
        let ghost kv = split::views(keys@);
        let ghost m0 = self@.store.registry.cloudflared;
        let ghost keep = explained(self@.store);
        let mut out: Vec<u32> = Vec::new();
        let mut i: usize = 0;
        assert(kv.take(0) =~= Seq::empty());
        assert forall|j: int| 0 <= j < kv.len() implies m0.dom().contains(#[trigger] kv[j]) by {
            assert(kv.contains(kv[j]));
        }
        while i < keys.len()
            invariant
                i <= keys.len(),
                kv == split::views(keys@),
                names::lists(kv, m0.dom()),
                m0 == old(self)@.store.registry.cloudflared,
                keep == explained(old(self)@.store),
                self@ == old(self)@.with_store(
                    old(self)@.store.with_pids(self@.store.registry.cloudflared),
                ),
                self.table == old(self).table,
                forall|k: Seq<char>| #[trigger]
                    self@.store.registry.cloudflared.dom().contains(k) ==> m0.dom().contains(k)
                        && self@.store.registry.cloudflared[k] == m0[k],
                forall|k: Seq<char>|
                    m0.dom().contains(k) && keep.contains(k)
                        ==> #[trigger] self@.store.registry.cloudflared.dom().contains(k),
                forall|j: int|
                    0 <= j < i && !keep.contains(#[trigger] kv[j])
                        ==> !self@.store.registry.cloudflared.dom().contains(kv[j]),
                forall|j: int|
                    i <= j < kv.len() ==> self@.store.registry.cloudflared.dom().contains(
                        #[trigger] kv[j],
                    ),
                out@ == stray_pids(old(self)@.store, kv.take(i as int)),
            decreases keys.len() - i,
        {
            assert(kv[i as int] == keys@[i as int]@);
            assert(kv.contains(kv[i as int]));
            assert(kv.take(i + 1).drop_last() =~= kv.take(i as int));
            let key = keys[i].as_str();
            if !same(key, "__control") && !self.store.has_app(key) {
                assert(!keep.contains(key@));
                match self.store.registry.cloudflared.get(key) {
                    Some(pid) => {
                        out.push(*pid);
                    },
                    None => {
                        assert(false);
                    },
                }
                proof {
                    assert forall|j: int| i + 1 <= j < kv.len() implies kv[j] != key@ by {
                        assert(crate::order::text_less(kv[i as int], kv[j]));
                        crate::order::lemma_text_less_irreflexive(key@);
                    }
                }
                self.store.drop_pid(key);
            }
            i += 1;
        }
        proof {
            assert(kv.take(i as int) =~= kv);
            let left = self@.store.registry.cloudflared;
            assert forall|k: Seq<char>| left.dom().contains(k) implies keep.contains(k) by {
                assert(m0.dom().contains(k));
                assert(kv.contains(k));
                let j = choose|j: int| 0 <= j < kv.len() && kv[j] == k;
                assert(kv[j] == k);
            }
            assert(left =~= m0.restrict(keep));
        }
        out
    }
}

/// The keys of processes that desired state explains.
pub open spec fn explained(store: StoreView) -> Set<Seq<char>> {
    Set::new(|k: Seq<char>| k == "__control"@ || store.apps.dom().contains(k))
}

/// The processes under the keys that desired state does not explain.
pub open spec fn stray_pids(store: StoreView, keys: Seq<Seq<char>>) -> Seq<u32>
    decreases keys.len(),
{
    if keys.len() == 0 {
        Seq::empty()
    } else {
        let rest = stray_pids(store, keys.drop_last());
        if explained(store).contains(keys.last()) {
            rest
        } else {
            rest.push(store.registry.cloudflared[keys.last()])
        }
    }
}

/// Those among the apps of these names that run, for sampling.
pub open spec fn sampled(
    apps: Map<Seq<char>, AppRecordView>,
    names: Seq<Seq<char>>,
) -> Seq<WatchedView>
    decreases names.len(),
{
    if names.len() == 0 {
        Seq::empty()
    } else if apps[names.last()].state == AppState::Running {
        sampled(apps, names.drop_last()).push(watched_view(names.last(), apps[names.last()]))
    } else {
        sampled(apps, names.drop_last())
    }
}

impl Daemon {
    /// The apps whose resources are sampled: those that run.
    pub fn to_sample(&self) -> (r: Vec<Watched>)
        ensures
            watched_views(r@) == sampled(
                self@.store.apps,
                names::listing(self@.store.apps.dom()),
            ),
    {
        let store = &self.store;
        let n = store.apps.len();
        let ghost keys = store.apps.key_list();
        assert(store@.apps.dom() =~= store.apps@.dom());
        let mut out: Vec<Watched> = Vec::new();
        let mut i: usize = 0;
        assert(keys.take(0) =~= Seq::empty());
        assert(watched_views(out@) =~= Seq::empty());
        while i < n
            invariant
                i <= n,
                n == keys.len(),
                keys == store.apps.key_list(),
                names::lists(keys, store.apps@.dom()),
                watched_views(out@) == sampled(store@.apps, keys.take(i as int)),
            decreases n - i,
        {
            assert(keys.take(i + 1).drop_last() =~= keys.take(i as int));
            assert(keys.take(i + 1).last() == keys[i as int]);
            assert(keys.contains(keys[i as int]));
            let rec = store.apps.value_at(i);
            if rec.state == AppState::Running {
                let ghost before = out@;
                let w = to_watch(store.apps.key_at(i).as_str(), rec);
                out.push(w);
                assert(watched_views(out@) =~= watched_views(before).push(w@));
            }
            i += 1;
        }
        assert(keys.take(i as int) =~= keys);
        out
    }
}

// ---------------------------------------------------------------------------- laws

/// A level of pressure is told only when it was seen twice in a row and is new.
pub proof fn pressure_needs_two_looks(
    current: PressureLevel,
    pending: Option<PressureLevel>,
    first: PressureLevel,
    second: PressureLevel,
)
    requires
        pending != Some(first),
    ensures
        debounced(current, pending, first).1 is None,
        debounced(current, debounced(current, pending, first).0, second).1 == (if first == second
            && first != current {
            Some(first)
        } else {
            None
        }),
{
}

/// The reaper never takes what desired state explains: a container that an app's record
/// lists, under the label of an app that is there, is no orphan.
pub proof fn explained_containers_are_kept(store: StoreView, rec: AppRecordView, id: Seq<char>, i: int)
    requires
        0 <= i < store.app_list().len(),
        store.app_list()[i] == rec,
        rollout::ids_of(rec.replicas).contains(id),
        store.apps.dom().contains(rec.spec.name),
    ensures
        !orphan(store, rec.spec.name, id),
{
}

/// Pruning keeps exactly the kills within the crash-loop window.
pub proof fn pruning_keeps_recent_kills(times: Seq<Timestamp>, now: Timestamp, t: Timestamp)
    ensures
        pruned(times, now).contains(t) <==> times.contains(t) && !t.before(
            now.earlier_by(CRASH_LOOP_WINDOW_SECS as int),
        ),
    decreases times.len(),
{
    let all = pruned(times, now);
    if times.len() == 0 {
        assert(!all.contains(t));
        assert(!times.contains(t));
    } else {
        let front = times.drop_last();
        let last = times.last();
        pruning_keeps_recent_kills(front, now, t);
        let rest = pruned(front, now);
        assert(times =~= front.push(last));
        lemma_push_contains(front, last, t);
        lemma_push_contains(rest, last, t);
    }
}

/// Only a kill for its memory is a strike against an app: a plain crash adds none, and
/// restarts go on.
pub proof fn only_memory_kills_are_strikes(rec: AppRecordView, now: Timestamp)
    requires
        now.valid(),
    ensures
        after_death(rec, false, now).oom_times == pruned(rec.oom_times, now),
        after_death(rec, true, now).oom_times == pruned(rec.oom_times, now).push(now),
        rec.oom_times.len() < policy::CRASH_LOOP_OOMS ==> after_death(rec, false, now).state
            == rec.state,
{
    assert(rec.oom_times.push(now).drop_last() =~= rec.oom_times);
    lemma_pruned_is_no_longer(rec.oom_times, now);
    policy::crash_loop_needs_recent_kills(pruned(rec.oom_times, now), now);
}

proof fn lemma_pruned_is_no_longer(times: Seq<Timestamp>, now: Timestamp)
    ensures
        pruned(times, now).len() <= times.len(),
    decreases times.len(),
{
    if times.len() > 0 {
        lemma_pruned_is_no_longer(times.drop_last(), now);
    }
}

proof fn lemma_push_contains(s: Seq<Timestamp>, x: Timestamp, t: Timestamp)
    ensures
        s.push(x).contains(t) <==> s.contains(t) || x == t,
{
    let all = s.push(x);
    if s.contains(t) {
        let i = choose|i: int| 0 <= i < s.len() && s[i] == t;
        assert(all[i] == t);
    }
    if x == t {
        assert(all[s.len() as int] == t);
    }
    if all.contains(t) && x != t {
        let i = choose|i: int| 0 <= i < all.len() && all[i] == t;
        assert(s[i] == t);
    }
}

/// The containers of all these apps, one after the other.
pub open spec fn in_a_row(apps: Seq<WatchedView>) -> Seq<Seq<char>>
    decreases apps.len(),
{
    if apps.len() == 0 {
        Seq::empty()
    } else {
        in_a_row(apps.drop_last()) + apps.last().containers
    }
}

/// How many containers come before the one that a round is at.
pub open spec fn place(round: SupervisionView) -> int {
    in_a_row(round.apps.take(round.app as int)).len() + round.replica
}

proof fn lemma_row(apps: Seq<WatchedView>, n: int, k: int)
    requires
        0 <= n < apps.len(),
        0 <= k,
    ensures
        in_a_row(apps.take(n + 1)) == in_a_row(apps.take(n)) + apps[n].containers,
        in_a_row(apps.take(n)).len() + apps[n].containers.len() <= in_a_row(apps).len(),
        k < apps[n].containers.len() ==> in_a_row(apps)[in_a_row(apps.take(n)).len() + k]
            == apps[n].containers[k],
    decreases apps.len(),
{
    assert(apps.take(n + 1).drop_last() =~= apps.take(n));
    assert(apps.take(n + 1).last() == apps[n]);
    if n + 1 < apps.len() {
        let front = apps.drop_last();
        lemma_row(front, n, k);
        assert(front.take(n) =~= apps.take(n));
    } else {
        assert(apps.take(n + 1) =~= apps);
    }
}

proof fn lemma_skip(round: SupervisionView)
    requires
        round.app <= round.apps.len() <= usize::MAX,
        round.app < round.apps.len() ==> round.replica
            <= round.apps[round.app as int].containers.len(),
        round.app == round.apps.len() ==> round.replica == 0,
    ensures
        round.skip().apps == round.apps,
        round.skip().restarting == round.restarting,
        round.skip().app <= round.apps.len(),
        round.skip().app == round.apps.len() ==> round.skip().replica == 0,
        round.skip().wf(),
        place(round.skip()) == place(round),
        round.skip().over() <==> place(round) == in_a_row(round.apps).len(),
    decreases round.apps.len() - round.app,
{
    let n = round.app as int;
    if n < round.apps.len() {
        lemma_row(round.apps, n, round.replica as int);
        if round.replica >= round.apps[n].containers.len() {
            let next = SupervisionView { app: (round.app + 1) as usize, replica: 0, ..round };
            lemma_skip(next);
        }
    } else {
        assert(round.apps.take(n) =~= round.apps);
    }
}

/// What a round tells to do when it is at this place: each container is inspected in turn,
/// and with the last one the round is done.
pub open spec fn look_at(row: Seq<Seq<char>>, place: int) -> SuperviseActionView {
    if place < row.len() {
        SuperviseActionView::Inspect { container: row[place] }
    } else {
        SuperviseActionView::Done
    }
}

proof fn lemma_action(round: SupervisionView)
    requires
        round.wf(),
        round.app <= round.apps.len() <= usize::MAX,
        round.over() <==> place(round) == in_a_row(round.apps).len(),
        round.app == round.apps.len() ==> round.replica == 0,
    ensures
        round.action() == look_at(in_a_row(round.apps), place(round)),
{
    if !round.over() {
        lemma_row(round.apps, round.app as int, round.replica as int);
    } else {
        assert(round.apps.take(round.app as int) =~= round.apps);
    }
}

/// Was a container found, and found dead?
pub open spec fn found_dead(event: SuperviseEventView) -> bool {
    event matches SuperviseEventView::Found(st) && !st.running && !st.paused
}

/// Every replica of a round is looked at, one after the other and each once. Restarted is
/// only a container that was just found dead, and exactly the one that was looked at; one
/// that is alive is passed by. Where an app is in a crash loop its other replicas are
/// passed over.
pub proof fn the_dead_are_restarted_and_no_others(
    round: SupervisionView,
    d: DaemonView,
    event: SuperviseEventView,
    now: Timestamp,
)
    requires
        round.wf(),
        round.awaits(event),
        round.apps.len() <= usize::MAX,
        round.apps[round.app as int].containers.len() <= usize::MAX,
    ensures
        ({
            let m = round.advance(d, event, now);
            let row = in_a_row(round.apps);
            let n = place(round);
            &&& m.round.apps == round.apps
            &&& m.round.wf()
            &&& 0 <= n < row.len()
            &&& !round.restarting ==> round.action() == look_at(row, n)
            &&& !found_dead(event) ==> m.step.action == look_at(row, n + 1) && place(m.round) == n
                + 1 && !m.round.restarting && m.daemon == d && m.step.events.len() == 0
            &&& m.step.action matches SuperviseActionView::Restart { container, .. } ==> {
                &&& found_dead(event)
                &&& container == row[n]
                &&& round.apps[round.app as int].containers.contains(container)
                &&& place(m.round) == n
                &&& m.round.restarting
            }
            &&& found_dead(event) && m.step.action !is Restart ==> {
                let past = in_a_row(round.apps.take(round.app + 1)).len() as int;
                &&& n < past <= row.len()
                &&& m.step.action == look_at(row, past)
                &&& place(m.round) == past
                &&& m.step.events.last() is AppCrashLoop
            }
        }),
{
    let n = round.app as int;
    lemma_row(round.apps, n, round.replica as int);
    lemma_action(round);
    assert(round.apps[n].containers[round.replica as int] == in_a_row(round.apps)[place(round)]);
    assert(round.apps[n].containers.contains(round.apps[n].containers[round.replica as int]));
    let on = SupervisionView { replica: (round.replica + 1) as usize, restarting: false, ..round };
    let over = SupervisionView { app: (round.app + 1) as usize, replica: 0, restarting: false, ..round };
    lemma_skip(on);
    lemma_action(round.on());
    lemma_skip(over);
    lemma_action(round.next_app());
}

/// A death is counted for the app whose replica died, and for no other: a restart more, a
/// strike more if it was killed for its memory (or left with code 137), and everything else
/// of its record as it was. Three strikes within ten minutes are a crash loop, and only
/// these.
pub proof fn deaths_count_for_their_own_app(
    round: SupervisionView,
    d: DaemonView,
    st: ContainerStateInfoView,
    now: Timestamp,
    rec: AppRecordView,
    other: Seq<char>,
)
    requires
        round.wf(),
        !round.over(),
        !round.restarting,
        !st.running,
        !st.paused,
        now.valid(),
        d.store.app(round.apps[round.app as int].name) == Some(rec),
    ensures
        ({
            let name = round.apps[round.app as int].name;
            let m = round.advance(d, SuperviseEventView::Found(st), now);
            let new = m.daemon.store.apps[name];
            let killed = st.oom_killed || st.exit_code == Some(137i64);
            let strikes = new.oom_times.filter(|t: Timestamp| now.seconds_after(t) <= 600).len();
            &&& m.daemon.store.app(name) == Some(new)
            &&& other != name ==> m.daemon.store.app(other) == d.store.app(other)
            &&& m.daemon == d.with_store(d.store.with_apps(m.daemon.store.apps))
            &&& rec.restarts < u32::MAX ==> new.restarts == rec.restarts + 1
            &&& new == (AppRecordView {
                restarts: new.restarts,
                oom_times: new.oom_times,
                state: new.state,
                ..rec
            })
            &&& killed ==> new.oom_times.len() > 0 && new.oom_times.last() == now
            &&& forall|t: Timestamp|
                #![trigger new.oom_times.contains(t)]
                new.oom_times.contains(t) <==> killed && t == now || rec.oom_times.contains(t)
                    && !t.before(now.earlier_by(600))
            &&& strikes >= 3 ==> new.state == AppState::CrashLoop && m.step.action !is Restart
            &&& strikes < 3 ==> new.state == rec.state && m.step.action is Restart
        }),
{
    let killed = killed_for_memory(st);
    let times = if killed {
        rec.oom_times.push(now)
    } else {
        rec.oom_times
    };
    let new = after_death(rec, killed, now);
    policy::three_kills_in_ten_minutes(new.oom_times, now);
    assert forall|t: Timestamp| #![trigger new.oom_times.contains(t)]
        new.oom_times.contains(t) <==> killed && t == now || rec.oom_times.contains(t)
            && !t.before(now.earlier_by(600)) by {
        pruning_keeps_recent_kills(times, now, t);
        lemma_push_contains(rec.oom_times, now, t);
    }
    only_memory_kills_are_strikes(rec, now);
}

/// A death is told as what it was, and the restart waits two seconds after the first death,
/// and twice as long after each further one, up to half a minute.
pub proof fn deaths_are_told_and_answered(
    round: SupervisionView,
    d: DaemonView,
    st: ContainerStateInfoView,
    now: Timestamp,
    rec: AppRecordView,
)
    requires
        round.wf(),
        !round.over(),
        !round.restarting,
        !st.running,
        !st.paused,
        d.store.app(round.apps[round.app as int].name) == Some(rec),
        rec.restarts < u32::MAX,
    ensures
        ({
            let w = round.apps[round.app as int];
            let m = round.advance(d, SuperviseEventView::Found(st), now);
            let restarts = (rec.restarts + 1) as u32;
            &&& m.step.events.len() > 0
            &&& st.oom_killed || st.exit_code == Some(137i64) ==> m.step.events[0] == (
            HostEventView::AppOomKilled { app: w.name, memory_mb: w.memory_mb, restarts })
            &&& !st.oom_killed && st.exit_code != Some(137i64) ==> (m.step.events[0] matches
                HostEventView::AppUnhealthy { app, .. } && app == w.name)
            &&& m.step.action matches SuperviseActionView::Restart { after_secs, .. } ==> {
                &&& m.step.events.len() == 1
                &&& after_secs == power2::pow2(if restarts < 5 {
                    restarts as nat
                } else {
                    5
                })
            }
            &&& m.step.action !is Restart ==> m.step.events.len() == 2 && m.step.events[1] == (
            HostEventView::AppCrashLoop { app: w.name, restarts })
        }),
{
    power2::lemma2_to64();
}

/// A round of supervision begins with the first replica and has every replica of every app
/// that is neither paused nor in a crash loop, under the name that its app is kept under.
pub proof fn rounds_begin_with_everyone(apps: Map<Seq<char>, AppRecordView>, names: Seq<Seq<char>>)
    requires
        watch_list(apps, names).len() <= usize::MAX,
    ensures
        ({
            let list = watch_list(apps, names);
            let round = (SupervisionView { apps: list, app: 0, replica: 0, restarting: false }).skip();
            &&& round.apps == list
            &&& place(round) == 0
            &&& round.action() == look_at(in_a_row(list), 0)
            &&& forall|k: int| #![trigger list[k]]
                0 <= k < list.len() ==> names.contains(list[k].name) && list[k].memory_mb
                    == apps[list[k].name].spec.resources.memory_mb && list[k].containers.len()
                    == apps[list[k].name].replicas.len() && (forall|j: int|
                    0 <= j < list[k].containers.len() ==> #[trigger] list[k].containers[j]
                        == apps[list[k].name].replicas[j].container_id)
            &&& forall|n: int| #![trigger names[n]]
                0 <= n < names.len() ==> (apps[names[n]].state != AppState::Paused
                    && apps[names[n]].state != AppState::CrashLoop <==> exists|k: int|
                    0 <= k < list.len() && (#[trigger] list[k]).name == names[n])
        }),
{
    let list = watch_list(apps, names);
    let start = SupervisionView { apps: list, app: 0, replica: 0, restarting: false };
    lemma_watch_list(apps, names);
    assert(list.take(0) =~= Seq::empty());
    lemma_skip(start);
    lemma_action(start.skip());
}

proof fn lemma_watch_list(apps: Map<Seq<char>, AppRecordView>, names: Seq<Seq<char>>)
    ensures
        ({
            let list = watch_list(apps, names);
            &&& forall|k: int| #![trigger list[k]]
                0 <= k < list.len() ==> names.contains(list[k].name) && supervised(
                    apps[list[k].name],
                ) && list[k] == watched_view(list[k].name, apps[list[k].name])
            &&& forall|n: int| #![trigger names[n]]
                0 <= n < names.len() && supervised(apps[names[n]]) ==> exists|k: int|
                    0 <= k < list.len() && (#[trigger] list[k]).name == names[n]
        }),
    decreases names.len(),
{
    if names.len() > 0 {
        let front = names.drop_last();
        let before = watch_list(apps, front);
        let list = watch_list(apps, names);
        lemma_watch_list(apps, front);
        assert forall|k: int| #![trigger list[k]] 0 <= k < list.len() implies names.contains(
            list[k].name,
        ) && supervised(apps[list[k].name]) && list[k] == watched_view(
            list[k].name,
            apps[list[k].name],
        ) by {
            if k < before.len() {
                assert(list[k] == before[k]);
                let j = choose|j: int| 0 <= j < front.len() && front[j] == before[k].name;
                assert(names[j] == list[k].name);
            } else {
                assert(names[names.len() - 1] == list[k].name);
            }
        }
        assert forall|n: int| #![trigger names[n]] 0 <= n < names.len() && supervised(
            apps[names[n]],
        ) implies exists|k: int| 0 <= k < list.len() && (#[trigger] list[k]).name == names[n] by {
            if n < front.len() {
                assert(front[n] == names[n]);
                let k = choose|k: int| 0 <= k < before.len() && (#[trigger] before[k]).name == names[n];
                assert(list[k] == before[k]);
            } else {
                assert(list[before.len() as int].name == names[n]);
            }
        }
    }
}

/// Memory is critical below the one mark, a warning below the other, and else in order.
pub proof fn levels_follow_the_marks(available_mb: u64, critical_mb: u64, warn_mb: u64)
    requires
        critical_mb <= warn_mb,
    ensures
        level_of(available_mb, critical_mb, warn_mb) == PressureLevel::Critical <==> available_mb
            < critical_mb,
        level_of(available_mb, critical_mb, warn_mb) == PressureLevel::Warn <==> critical_mb
            <= available_mb < warn_mb,
        level_of(available_mb, critical_mb, warn_mb) == PressureLevel::Normal <==> available_mb
            >= warn_mb,
{
}

/// A container is reaped if and only if its label names no app that is there, or no app has
/// a replica that runs in it; those that are reaped keep their order.
pub proof fn strays_are_reaped(store: StoreView, labeled: Seq<LabeledContainer>)
    ensures
        orphans(store, labeled) == labeled.filter(
            |c: LabeledContainer|
                !store.apps.dom().contains(c.app@) || !exists|i: int, j: int|
                    0 <= i < store.app_list().len() && 0 <= j < store.app_list()[i].replicas.len()
                        && #[trigger] store.app_list()[i].replicas[j].container_id == c.id@,
        ).map_values(|c: LabeledContainer| c.id@),
    decreases labeled.len(),
{
    reveal(Seq::filter);
    let p = |c: LabeledContainer|
        !store.apps.dom().contains(c.app@) || !exists|i: int, j: int|
            0 <= i < store.app_list().len() && 0 <= j < store.app_list()[i].replicas.len()
                && #[trigger] store.app_list()[i].replicas[j].container_id == c.id@;
    if labeled.len() > 0 {
        strays_are_reaped(store, labeled.drop_last());
        lemma_known(store.app_list(), labeled.last().id@);
    }
    assert(orphans(store, labeled) =~= labeled.filter(p).map_values(
        |c: LabeledContainer| c.id@,
    ));
}

proof fn lemma_known(apps: Seq<AppRecordView>, id: Seq<char>)
    ensures
        known(apps, id) <==> exists|i: int, j: int|
            0 <= i < apps.len() && 0 <= j < apps[i].replicas.len()
                && #[trigger] apps[i].replicas[j].container_id == id,
{
    if known(apps, id) {
        let i = choose|i: int|
            0 <= i < apps.len() && rollout::ids_of((#[trigger] apps[i]).replicas).contains(id);
        let ids = rollout::ids_of(apps[i].replicas);
        let j = choose|j: int| 0 <= j < ids.len() && ids[j] == id;
        rollout::containers_are_those_of_the_replicas(apps[i].replicas, j);
        assert(apps[i].replicas[j].container_id == id);
    }
    if exists|i: int, j: int|
        0 <= i < apps.len() && 0 <= j < apps[i].replicas.len()
            && #[trigger] apps[i].replicas[j].container_id == id {
        let (i, j) = choose|i: int, j: int|
            0 <= i < apps.len() && 0 <= j < apps[i].replicas.len()
                && #[trigger] apps[i].replicas[j].container_id == id;
        rollout::containers_are_those_of_the_replicas(apps[i].replicas, j);
        assert(rollout::ids_of(apps[i].replicas)[j] == id);
        assert(rollout::ids_of(apps[i].replicas).contains(id));
    }
}

/// A process is killed if and only if it is neither the daemon's own tunnel nor that of an app
/// that is there: each such process by its own number.
pub proof fn stray_processes_are_killed(store: StoreView, keys: Seq<Seq<char>>)
    ensures
        stray_pids(store, keys) == keys.filter(
            |k: Seq<char>| k != "__control"@ && !store.apps.dom().contains(k),
        ).map_values(|k: Seq<char>| store.registry.cloudflared[k]),
        forall|k: Seq<char>| #[trigger]
            store.registry.cloudflared.restrict(explained(store)).dom().contains(k) <==> (
            store.registry.cloudflared.dom().contains(k) && (k == "__control"@
                || store.apps.dom().contains(k))),
    decreases keys.len(),
{
    reveal(Seq::filter);
    let p = |k: Seq<char>| k != "__control"@ && !store.apps.dom().contains(k);
    if keys.len() > 0 {
        stray_processes_are_killed(store, keys.drop_last());
    }
    assert(stray_pids(store, keys) =~= keys.filter(p).map_values(
        |k: Seq<char>| store.registry.cloudflared[k],
    ));
}

/// The apps that run are sampled, each with its own memory limit and containers.
pub proof fn running_apps_are_sampled(
    apps: Map<Seq<char>, AppRecordView>,
    names: Seq<Seq<char>>,
    i: int,
)
    ensures
        sampled(apps, names) == names.filter(
            |k: Seq<char>| apps[k].state == AppState::Running,
        ).map_values(|k: Seq<char>| watched_view(k, apps[k])),
        forall|k: Seq<char>|
            ({
                let w = #[trigger] watched_view(k, apps[k]);
                &&& w.name == k && w.memory_mb == apps[k].spec.resources.memory_mb
                &&& w.containers.len() == apps[k].replicas.len()
                &&& 0 <= i < apps[k].replicas.len() ==> w.containers[i]
                    == apps[k].replicas[i].container_id
            }),
    decreases names.len(),
{
    reveal(Seq::filter);
    let p = |k: Seq<char>| apps[k].state == AppState::Running;
    if names.len() > 0 {
        running_apps_are_sampled(apps, names.drop_last(), i);
    }
    assert(sampled(apps, names) =~= names.filter(p).map_values(
        |k: Seq<char>| watched_view(k, apps[k]),
    ));
}

/// A low disk is told once: not again until it was seen to be in order. What cannot be read
/// changes nothing.
pub proof fn a_low_disk_is_told_once(low: bool, free: Double, again: Double, min: Double)
    ensures
        disk_after(low, Some(free), min).0 <==> free.less(min),
        disk_after(low, Some(free), min).1 <==> free.less(min) && !low,
        free.less(min) ==> !disk_after(disk_after(low, Some(free), min).0, Some(again), min).1,
        !free.less(min) && again.less(min) ==> disk_after(
            disk_after(low, Some(free), min).0,
            Some(again),
            min,
        ).1,
        disk_after(low, None, min) == (low, false),
{
}

/// The pages that are available are those of all lines together, and a line counts for the
/// number behind its key.
pub proof fn pages_add_up(a: Seq<Seq<char>>, b: Seq<Seq<char>>, line: Seq<char>)
    ensures
        all_pages(a + b).0 == all_pages(a).0 + all_pages(b).0,
        all_pages(a + b).1 <==> all_pages(a).1 || all_pages(b).1,
        all_pages(seq![line]).0 == line_pages(line, 4).0,
    decreases b.len(),
{
    if b.len() > 0 {
        pages_add_up(a, b.drop_last(), line);
        assert((a + b).drop_last() =~= a + b.drop_last());
    } else {
        assert(a + b =~= a);
    }
    assert(seq![line].drop_last() =~= Seq::empty());
    assert(all_pages(seq![line].drop_last()) == (0nat, false));
}

/// Free, inactive, speculative and purgeable pages count, each by the number on its line.
pub proof fn four_kinds_of_pages_count(key: Seq<char>, n: nat)
    requires
        key == "Pages free:"@ || key == "Pages inactive:"@ || key == "Pages speculative:"@ || key
            == "Pages purgeable:"@,
        n <= u64::MAX,
    ensures
        line_pages(key + " "@ + text::decimal(n) + "."@, 4) == (n, true),
{
    reveal_strlit("Pages free:");
    reveal_strlit("Pages inactive:");
    reveal_strlit("Pages speculative:");
    reveal_strlit("Pages purgeable:");
    reveal_strlit(" ");
    reveal_strlit(".");
    let line = key + " "@ + text::decimal(n) + "."@;
    let keys = page_keys();
    number::lemma_decimal_reads_back(n);
    lemma_counted(key, n);
    assert(line[6] == key[6] && line[7] == key[7]);
    assert forall|j: int| 0 <= j < 4 && #[trigger] keys[j] != key implies pages_under(line, keys[j])
        is None by {
        let other = keys[j];
        assert(other[6] != key[6] || other[7] != key[7]);
        if text::starts_with(line, other) {
            assert(line.take(other.len() as int)[6] == other[6]);
            assert(line.take(other.len() as int)[7] == other[7]);
        }
    }
    reveal_with_fuel(line_pages, 5);
    assert(keys[0] == "Pages free:"@ && keys[1] == "Pages inactive:"@ && keys[2]
        == "Pages speculative:"@ && keys[3] == "Pages purgeable:"@);
    assert(keys[0].len() == 11 && keys[1].len() == 15 && keys[2].len() == 18 && keys[3].len() == 16);
}

proof fn lemma_counted(key: Seq<char>, n: nat)
    requires
        n <= u64::MAX,
    ensures
        pages_under(key + " "@ + text::decimal(n) + "."@, key) == Some(n),
{
    reveal_strlit(" ");
    reveal_strlit(".");
    let d = text::decimal(n);
    let line = key + " "@ + d + "."@;
    number::lemma_decimal_reads_back(n);
    number::decimal_is_unsigned(n, u64::MAX as nat);
    assert(line.take(key.len() as int) =~= key);
    let rest = line.skip(key.len() as int);
    let inner = d + "."@;
    assert(rest =~= " "@ + inner + Seq::<char>::empty());
    assert(text::is_digit(d[0]));
    assert(inner[0] == d[0] && inner[inner.len() - 1] == '.');
    text::lemma_trim_around(" "@, inner, Seq::empty());
    assert(text::trim(rest) == inner);
    assert(inner.skip(inner.len() - 1) =~= "."@);
    assert(inner.take(inner.len() - 1) =~= d);
    assert(text::is_digit(d[d.len() - 1]));
    if text::ends_with(d, "."@) {
        assert(d.skip(d.len() - 1)[0] == d[d.len() - 1]);
        assert(d.skip(d.len() - 1)[0] == '.');
    }
    assert(text::drop_trailing(d, "."@) == d);
    assert(text::drop_trailing(inner, "."@) == d);
}

/// The size of a page is read from the first line, and free memory is the pages that count,
/// each of that size, in whole megabytes.
pub proof fn memory_is_pages_of_their_size(size: nat, rest: Seq<char>, pages: nat)
    requires
        0 < size <= u64::MAX,
        all_pages(
            split::line_list(
                ("Mach Virtual Memory Statistics: (page size of "@ + text::decimal(size)
                    + " bytes)"@).push('\n') + rest,
            ),
        ) == (pages, true),
        pages * size <= u64::MAX,
    ensures
        vm_stat_mb(
            ("Mach Virtual Memory Statistics: (page size of "@ + text::decimal(size)
                + " bytes)"@).push('\n') + rest,
        ) == Some((pages * size) as nat / 1_048_576),
{
    let line = "Mach Virtual Memory Statistics: (page size of "@ + text::decimal(size)
        + " bytes)"@;
    let raw = line.push('\n') + rest;
    lemma_page_size(size, rest);
    assert(page_size(raw) == size);
    assert(pages <= pages * size) by (nonlinear_arith)
        requires
            0 < size,
    ;
}

proof fn lemma_page_size(size: nat, rest: Seq<char>)
    requires
        size <= u64::MAX,
    ensures
        page_size(
            ("Mach Virtual Memory Statistics: (page size of "@ + text::decimal(size)
                + " bytes)"@).push('\n') + rest,
        ) == size,
{
    reveal_strlit("Mach Virtual Memory Statistics: (page size of ");
    reveal_strlit(" bytes)");
    reveal_strlit("page size of");
    let d = text::decimal(size);
    let key = "page size of"@;
    let line = "Mach Virtual Memory Statistics: (page size of "@ + d + " bytes)"@;
    let raw = line.push('\n') + rest;
    number::lemma_decimal_reads_back(size);
    number::decimal_is_unsigned(size, u64::MAX as nat);
    assert forall|i: int| 0 <= i < line.len() implies #[trigger] line[i] != '\n' by {
        if 46 <= i < 46 + d.len() {
            assert(line[i] == d[i - 46]);
            assert(text::is_digit(d[i - 46]));
        }
    }
    split::lines_end_at_line_feeds(line, rest);
    assert(split::line_list(raw)[0] == line);
    assert(line.subrange(33, 45) =~= key);
    assert(text::stands_at(line, key, 33));
    text::lemma_first_at(line, key, 0);
    assert(text::first_at(line, key, 0) == Some(33int)) by {
        let i = text::first_at(line, key, 0)->0;
        assert(line.subrange(i, i + 12)[0] == line[i]);
    }
    let behind = line.skip(45);
    let inner = d.push(' ') + " bytes)"@.skip(1);
    assert(behind =~= Seq::<char>::empty().push(' ') + inner);
    text::lemma_first_at(behind, key, 0);
    assert(text::first_at(behind, key, 0) is None) by {
        if text::first_at(behind, key, 0) is Some {
            let j = text::first_at(behind, key, 0)->0;
            assert(behind.subrange(j, j + 12)[0] == behind[j]);
            if 1 <= j <= d.len() {
                assert(behind[j] == d[j - 1]);
                assert(text::is_digit(d[j - 1]));
            }
        }
    }
    split::white_space_parts_words(Seq::empty(), ' ', inner);
    split::white_space_parts_words(d, ' ', " bytes)"@.skip(1));
    assert forall|i: int| 0 <= i < d.len() implies !text::is_space(#[trigger] d[i]) by {
        assert(text::is_digit(d[i]));
    }
    assert(split::word_list(Seq::empty()) =~= Seq::empty());
    assert(split::word_list(behind)[0] == d);
}

/// A crash is told with the code that it left. Where the app is no longer on record, nothing is
/// counted; what died is tried again after a second.
pub proof fn crashes_are_told_with_their_code(
    round: SupervisionView,
    d: DaemonView,
    st: ContainerStateInfoView,
    now: Timestamp,
)
    requires
        round.wf(),
        !round.over(),
        !round.restarting,
        !st.running,
        !st.paused,
    ensures
        ({
            let w = round.apps[round.app as int];
            let m = round.advance(d, SuperviseEventView::Found(st), now);
            &&& st.exit_code matches Some(code) ==> (!st.oom_killed && code != 137
                ==> m.step.events[0] == (HostEventView::AppUnhealthy {
                app: w.name,
                detail: "container exited (code "@ + ("Some("@ + text::decimal_int(code as int)
                    + ")"@) + "), restarting"@,
            }))
            &&& d.store.app(w.name) is None ==> m.daemon == d && m.step.events.len() == 1
                && m.step.action == (SuperviseActionView::Restart {
                container: w.containers[round.replica as int],
                after_secs: 1,
            })
        }),
{
}

/// Pressure is told after two looks that agree on a level other than the last one told, with
/// the memory that the second look found; what cannot be read tells and changes nothing.
pub proof fn pressure_is_told_after_two_looks(
    d: DaemonView,
    pending: Option<PressureLevel>,
    a: u64,
    b: u64,
)
    requires
        d.config.pressure_critical_mb <= d.config.pressure_warn_mb,
        pending is None,
    ensures
        ({
            let (critical, warn) = (d.config.pressure_critical_mb, d.config.pressure_warn_mb);
            let first = pressed(d, pending, Some(a));
            let second = pressed(first.0, first.1, Some(b));
            let agree = (a < critical <==> b < critical) && (a < warn <==> b < warn);
            let found = if b < critical {
                PressureLevel::Critical
            } else if b < warn {
                PressureLevel::Warn
            } else {
                PressureLevel::Normal
            };
            &&& first.2 is None && first.0 == d
            &&& agree && found != d.pressure ==> second.2 == Some(
                HostEventView::MemoryPressure { level: found, available_mb: b },
            ) && second.0 == (DaemonView { pressure: found, ..d }) && second.1 is None
            &&& !(agree && found != d.pressure) ==> second.2 is None && second.0 == d
            &&& pressed(first.0, first.1, None) == (first.0, first.1, None::<HostEventView>)
        }),
{
}

} // verus!
