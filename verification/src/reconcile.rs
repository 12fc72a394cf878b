//! After a restart of the daemon: bring persisted desired state back to life, with
//! containers running, routes registered and tunnels supervised.
use vstd::prelude::*;

use crate::daemon;
use crate::daemon::{claim_task_key, Daemon, DaemonView};
use crate::deploy;
use crate::deploy::running_image;
use crate::events::{HostEvent, HostEventView};
use crate::names;
use crate::rollout;
use crate::runtime::ContainerStateInfo;
use crate::state;
use crate::state::{
    clone_replica_records, AppRecordView, ClaimRecord, ClaimRecordView, ReplicaRecord,
    ReplicaRecordView,
};
use crate::time::Timestamp;
use crate::types::AppState;

verus! {

// --------------------------------------------------------------------- an app's replicas

#[derive(Debug, Clone, Copy, PartialEq, Eq, Structural)]
pub enum ReconPhase {
    Inspecting,
    Restarting,
    Starting,
    Over,
}

/// An app that is brought back.
#[derive(Debug)]
pub struct ReconRun {
    pub name: String,
    pub image: String,
    pub want: u8,
    /// The replicas on record.
    pub replicas: Vec<ReplicaRecord>,
    pub alive: Vec<ReplicaRecord>,
    /// The replica that is looked at, or the number of the one that is started.
    pub at: usize,
    pub phase: ReconPhase,
}

/// The contents of a `ReconRun`.
pub struct ReconRunView {
    pub name: Seq<char>,
    pub image: Seq<char>,
    pub want: u8,
    pub replicas: Seq<ReplicaRecordView>,
    pub alive: Seq<ReplicaRecordView>,
    pub at: usize,
    pub phase: ReconPhase,
}

impl View for ReconRun {
    type V = ReconRunView;

    open spec fn view(&self) -> ReconRunView {
        ReconRunView {
            name: self.name@,
            image: self.image@,
            want: self.want,
            replicas: state::replica_record_views(self.replicas@),
            alive: state::replica_record_views(self.alive@),
            at: self.at,
            phase: self.phase,
        }
    }
}

/// What came of a step.
#[derive(Debug)]
pub enum ReconEvent {
    /// The container is there; does it run, or is it paused?
    Up(bool),
    Missing,
    Restarted(bool),
    Started(ReplicaRecord),
    NotStarted,
}

/// The contents of a `ReconEvent`.
pub enum ReconEventView {
    Up(bool),
    Missing,
    Restarted(bool),
    Started(ReplicaRecordView),
    NotStarted,
}

impl View for ReconEvent {
    type V = ReconEventView;

    open spec fn view(&self) -> ReconEventView {
        match self {
            ReconEvent::Up(x) => ReconEventView::Up(*x),
            ReconEvent::Missing => ReconEventView::Missing,
            ReconEvent::Restarted(x) => ReconEventView::Restarted(*x),
            ReconEvent::Started(x) => ReconEventView::Started(x@),
            ReconEvent::NotStarted => ReconEventView::NotStarted,
        }
    }
}

#[derive(Debug)]
pub enum ReconStep {
    Inspect { container: String },
    Restart { container: String },
    Start { image: String, index: u8 },
    Finish,
}

/// The contents of a `ReconStep`.
pub enum ReconStepView {
    Inspect { container: Seq<char> },
    Restart { container: Seq<char> },
    Start { image: Seq<char>, index: u8 },
    Finish,
}

impl View for ReconStep {
    type V = ReconStepView;

    open spec fn view(&self) -> ReconStepView {
        match self {
            ReconStep::Inspect { container } => ReconStepView::Inspect {
                container: container@,
            },
            ReconStep::Restart { container } => ReconStepView::Restart {
                container: container@,
            },
            ReconStep::Start { image, index } => ReconStepView::Start {
                image: image@,
                index: *index,
            },
            ReconStep::Finish => ReconStepView::Finish,
        }
    }
}

/// How far an app has been brought back, and the next step.
pub struct ReconMove {
    pub run: ReconRunView,
    pub step: ReconStepView,
}

impl ReconRunView {
    pub open spec fn wf(self) -> bool {
        match self.phase {
            ReconPhase::Inspecting | ReconPhase::Restarting => self.at < self.replicas.len(),
            ReconPhase::Starting => self.at < self.want,
            ReconPhase::Over => true,
        }
    }

    pub open spec fn awaits(self, event: ReconEventView) -> bool {
        match self.phase {
            ReconPhase::Inspecting => event is Up || event is Missing,
            ReconPhase::Restarting => event is Restarted,
            ReconPhase::Starting => event is Started || event is NotStarted,
            ReconPhase::Over => false,
        }
    }

    /// Missing replicas are started anew, as long as there are too few.
    pub open spec fn start(self, at: usize) -> ReconMove {
        if at < self.want {
            ReconMove {
                run: ReconRunView { at, phase: ReconPhase::Starting, ..self },
                step: ReconStepView::Start {
                    image: self.image,
                    index: rollout::index_of(200, at as nat),
                },
            }
        } else {
            ReconMove {
                run: ReconRunView { at, phase: ReconPhase::Over, ..self },
                step: ReconStepView::Finish,
            }
        }
    }

    /// On to the replica at a place; after the last one, missing ones are started.
    pub open spec fn look(self, at: usize) -> ReconMove {
        if at < self.replicas.len() {
            ReconMove {
                run: ReconRunView { at, phase: ReconPhase::Inspecting, ..self },
                step: ReconStepView::Inspect { container: self.replicas[at as int].container_id },
            }
        } else {
            self.start(self.alive.len() as usize)
        }
    }

    pub open spec fn keep(self, r: ReplicaRecordView) -> ReconRunView {
        ReconRunView { alive: self.alive.push(r), ..self }
    }

    pub open spec fn advance(self, event: ReconEventView) -> ReconMove {
        let next = (self.at + 1) as usize;
        match (self.phase, event) {
            (ReconPhase::Inspecting, ReconEventView::Up(up)) => if up {
                self.keep(self.replicas[self.at as int]).look(next)
            } else {
                ReconMove {
                    run: ReconRunView { phase: ReconPhase::Restarting, ..self },
                    step: ReconStepView::Restart {
                        container: self.replicas[self.at as int].container_id,
                    },
                }
            },
            (ReconPhase::Inspecting, ReconEventView::Missing) => self.look(next),
            (ReconPhase::Restarting, ReconEventView::Restarted(ok)) => if ok {
                self.keep(self.replicas[self.at as int]).look(next)
            } else {
                self.look(next)
            },
            (ReconPhase::Starting, ReconEventView::Started(r)) => self.keep(r).start(next),
            (ReconPhase::Starting, ReconEventView::NotStarted) => self.start(next),
            (_, _) => ReconMove { run: self, step: ReconStepView::Finish },
        }
    }
}

pub open spec fn recon_of(name: Seq<char>, rec: AppRecordView) -> ReconMove {
    (ReconRunView {
        name,
        image: deploy::image_of(name, rec.spec),
        want: rec.spec.replicas,
        replicas: rec.replicas,
        alive: Seq::empty(),
        at: 0,
        phase: ReconPhase::Over,
    }).look(0)
}

impl ReconRun {
    /// What an inspection of a container tells; None where the container is gone.
    pub fn seen(state: Option<&ContainerStateInfo>) -> (r: ReconEvent)
        ensures
            r@ == match state {
                Some(st) => ReconEventView::Up(st.running || st.paused),
                None => ReconEventView::Missing,
            },
    {
        match state {
            Some(st) => ReconEvent::Up(st.running || st.paused),
            None => ReconEvent::Missing,
        }
    }

    fn start(&mut self, at: usize) -> (r: ReconStep)
        ensures
            ({
                let m = old(self)@.start(at);
                final(self)@ == m.run && r@ == m.step
            }),
            final(self)@.wf(),
    {
        self.at = at;
        if at < self.want as usize {
            self.phase = ReconPhase::Starting;
            let n = at as u8;
            let base: u8 = 200;
            ReconStep::Start { image: self.image.clone(), index: base.wrapping_add(n) }
        } else {
            self.phase = ReconPhase::Over;
            ReconStep::Finish
        }
    }

    fn look(&mut self, at: usize) -> (r: ReconStep)
        ensures
            ({
                let m = old(self)@.look(at);
                final(self)@ == m.run && r@ == m.step
            }),
            final(self)@.wf(),
    {
        if at < self.replicas.len() {
            self.at = at;
            self.phase = ReconPhase::Inspecting;
            ReconStep::Inspect { container: self.replicas[at].container_id.clone() }
        } else {
            let n = self.alive.len();
            self.start(n)
        }
    }

    fn keep(&mut self, rec: ReplicaRecord)
        ensures
            final(self)@ == old(self)@.keep(rec@),
    {
        let ghost before = self.alive@;
        self.alive.push(rec);
        assert(state::replica_record_views(self.alive@) =~= state::replica_record_views(
            before,
        ).push(rec@));
    }

    /// Takes in what came of the last step, and tells the next.
    pub fn next(&mut self, event: ReconEvent) -> (r: ReconStep)
        requires
            old(self)@.wf(),
            old(self)@.awaits(event@),
        ensures
            ({
                let m = old(self)@.advance(event@);
                final(self)@ == m.run && r@ == m.step
            }),
            final(self)@.wf(),
    {
        let n = self.replicas.len();
        let next = self.at + 1;
        match event {
            ReconEvent::Up(up) => {
                if up {
                    let rec = self.replicas[self.at].clone();
                    self.keep(rec);
                    self.look(next)
                } else {
                    self.phase = ReconPhase::Restarting;
                    ReconStep::Restart { container: self.replicas[self.at].container_id.clone() }
                }
            },
            ReconEvent::Missing => self.look(next),
            ReconEvent::Restarted(ok) => {
                if ok {
                    let rec = self.replicas[self.at].clone();
                    self.keep(rec);
                }
                self.look(next)
            },
            ReconEvent::Started(rec) => {
                self.keep(rec);
                self.start(next)
            },
            ReconEvent::NotStarted => self.start(next),
        }
    }
}

// ------------------------------------------------------------------------ the daemon

/// A record of an app that was brought back. The tunnel's URL from before the restart
/// is dead; its task will mint a fresh one.
pub open spec fn revived(rec: AppRecordView, alive: Seq<ReplicaRecordView>) -> AppRecordView {
    AppRecordView {
        replicas: alive,
        tunnel_url: None,
        state: if rec.state != AppState::Paused && rec.state != AppState::CrashLoop {
            AppState::Running
        } else {
            rec.state
        },
        ..rec
    }
}

/// The daemon with a record kept under a name.
pub open spec fn with_record(d: DaemonView, name: Seq<char>, rec: AppRecordView) -> DaemonView {
    d.with_store(d.store.with_apps(d.store.apps.insert(name, rec)))
}

/// An app has been brought back, as this record has it; its tunnel is to be started if `r`.
pub open spec fn brought_back(
    before: DaemonView,
    after: DaemonView,
    name: Seq<char>,
    now: AppRecordView,
    r: bool,
) -> bool {
    let kept = with_record(before, name, now);
    let tunneled = kept.provider && now.state == AppState::Running;
    &&& after == if tunneled {
        kept.with_tunnels(kept.tunnels.insert(name))
    } else {
        kept
    }
    &&& r == (tunneled && !kept.tunnels.contains(name))
}

/// The claims' tunnel tasks up to the `n`-th.
pub open spec fn with_claim_tasks(d: DaemonView, n: nat) -> Set<Seq<char>>
    decreases n,
{
    if n == 0 {
        d.tunnels
    } else {
        with_claim_tasks(d, (n - 1) as nat).insert(
            daemon::claim_key(d.store.claims[names::listing(d.store.claims.dom())[n - 1]].app),
        )
    }
}

/// The claims up to the `n`-th whose tunnels are to be started, each once: those that no
/// task looks after.
pub open spec fn claims_to_start(d: DaemonView, n: nat) -> Seq<ClaimRecordView>
    decreases n,
{
    if n == 0 {
        Seq::empty()
    } else {
        let before = claims_to_start(d, (n - 1) as nat);
        let claim = d.store.claims[names::listing(d.store.claims.dom())[n - 1]];
        if with_claim_tasks(d, (n - 1) as nat).contains(daemon::claim_key(claim.app)) {
            before
        } else {
            before.push(claim)
        }
    }
}

impl Daemon {
    /// Registers the tunnels of the claimed names. Tells which are to be started.
    pub fn revive_claims(&mut self) -> (r: Vec<ClaimRecord>)
        ensures
            final(self)@ == old(self)@.with_tunnels(
                with_claim_tasks(old(self)@, names::listing(old(self)@.store.claims.dom()).len()),
            ),
            final(self).table == old(self).table,
            Seq::new(r@.len(), |i: int| r@[i]@) == claims_to_start(
                old(self)@,
                names::listing(old(self)@.store.claims.dom()).len(),
            ),
    {
        let claims = self.store.claims_snapshot();
        let ghost keys = names::listing(self@.store.claims.dom());
        let mut out: Vec<ClaimRecord> = Vec::new();
        let mut i: usize = 0;
        assert(self@ == old(self)@.with_tunnels(with_claim_tasks(old(self)@, 0)));
        while i < claims.len()
            invariant
                i <= claims.len(),
                claims@.len() == keys.len(),
                keys == names::listing(old(self)@.store.claims.dom()),
                forall|j: int|
                    0 <= j < claims@.len() ==> (#[trigger] claims@[j])@
                        == old(self)@.store.claims[keys[j]],
                self@ == old(self)@.with_tunnels(with_claim_tasks(old(self)@, i as nat)),
                self.table == old(self).table,
                Seq::new(out@.len(), |j: int| out@[j]@) =~= claims_to_start(
                    old(self)@,
                    i as nat,
                ),
            decreases claims.len() - i,
        {
            let key = claim_task_key(claims[i].app.as_str());
            if self.ensure_tunnel_task(key.as_str()) {
                out.push(claims[i].clone());
            }
            i += 1;
        }
        out
    }

    /// An app is to be brought back. None where there is no such app.
    pub fn reconcile(&self, name: &str) -> (r: Option<(ReconRun, ReconStep)>)
        ensures
            match self@.store.app(name@) {
                None => r is None,
                Some(rec) => r matches Some(x) && x.0@ == recon_of(name@, rec).run && x.1@
                    == recon_of(name@, rec).step && x.0@.wf(),
            },
    {
        let rec = match self.store.get(name) {
            Some(rec) => rec,
            None => {
                return None;
            },
        };
        let alive: Vec<ReplicaRecord> = Vec::new();
        assert(state::replica_record_views(alive@) =~= Seq::empty());
        let mut run = ReconRun {
            name: name.to_owned(),
            image: running_image(name, &rec.spec),
            want: rec.spec.replicas,
            replicas: rec.replicas,
            alive,
            at: 0,
            phase: ReconPhase::Over,
        };
        let step = run.look(0);
        Some((run, step))
    }

    /// What was found of an app is recorded and routed. Tells whether its tunnel is to be
    /// started.
    pub fn reconciled(&mut self, run: &ReconRun) -> (r: bool)
        requires
            old(self).wf(),
        ensures
            final(self).wf(),
            old(self)@.store.wf() ==> final(self)@.store.wf(),
            match old(self)@.store.app(run@.name) {
                None => !r && final(self)@ == old(self)@ && final(self).table == old(self).table,
                Some(rec) => {
                    let now = revived(rec, run@.alive);
                    &&& brought_back(old(self)@, final(self)@, run@.name, now, r)
                    &&& daemon::installed(
                        with_record(old(self)@, run@.name, now),
                        now,
                        old(self).table,
                        final(self).table,
                    )
                },
            },
    {
        let mut rec = match self.store.get(run.name.as_str()) {
            Some(rec) => rec,
            None => {
                return false;
            },
        };
        rec.replicas = clone_replica_records(&run.alive);
        rec.tunnel_url = None;
        if rec.state != AppState::Paused && rec.state != AppState::CrashLoop {
            rec.state = AppState::Running;
        }
        self.store.put(run.name.as_str(), rec.clone());
        self.install_routes(&rec);
        if self.provider && rec.state == AppState::Running {
            self.ensure_tunnel_task(run.name.as_str())
        } else {
            false
        }
    }
}

// ----------------------------------------------------------------------- tunnel tasks

/// The pause before a tunnel that could not be had is tried again, in seconds.
pub const TUNNEL_RETRY_SECS: u64 = 30;

/// The same for the tunnel of a claimed name.
pub const CLAIM_RETRY_SECS: u64 = 15;

/// The pause before the next round, in seconds.
pub const TUNNEL_PAUSE_SECS: u64 = 2;

#[derive(Debug, Clone, Copy, PartialEq, Eq, Structural)]
pub enum TaskPhase {
    Idle,
    Provisioning,
    Watching,
    BackingOff,
    Pausing,
    Over,
}

/// The supervision of a tunnel: provision it, register the alias, watch for death,
/// provision it again. URLs are cattle; every time an event tells of the change.
#[derive(Debug)]
pub struct TunnelTask {
    pub app: String,
    pub phase: TaskPhase,
}

/// The contents of a `TunnelTask`.
pub struct TunnelTaskView {
    pub app: Seq<char>,
    pub phase: TaskPhase,
}

impl View for TunnelTask {
    type V = TunnelTaskView;

    open spec fn view(&self) -> TunnelTaskView {
        TunnelTaskView {
            app: self.app@,
            phase: self.phase,
        }
    }
}

#[derive(Debug)]
pub enum TaskEvent {
    /// A round begins.
    Round { cancelled: bool },
    Up { url: String, pid: Option<u32>, now: Timestamp },
    NotUp,
    Cancelled,
    Exited { cancelled: bool },
    Waited,
}

/// The contents of a `TaskEvent`.
pub enum TaskEventView {
    Round { cancelled: bool },
    Up { url: Seq<char>, pid: Option<u32>, now: Timestamp },
    NotUp,
    Cancelled,
    Exited { cancelled: bool },
    Waited,
}

impl View for TaskEvent {
    type V = TaskEventView;

    open spec fn view(&self) -> TaskEventView {
        match self {
            TaskEvent::Round { cancelled } => TaskEventView::Round {
                cancelled: *cancelled,
            },
            TaskEvent::Up { url, pid, now } => TaskEventView::Up {
                url: url@,
                pid: *pid,
                now: *now,
            },
            TaskEvent::NotUp => TaskEventView::NotUp,
            TaskEvent::Cancelled => TaskEventView::Cancelled,
            TaskEvent::Exited { cancelled } => TaskEventView::Exited {
                cancelled: *cancelled,
            },
            TaskEvent::Waited => TaskEventView::Waited,
        }
    }
}

#[derive(Debug)]
pub enum TaskStep {
    /// See whether the task has been cancelled.
    Begin,
    Provision,
    /// Tell the event, and wait for the tunnel to exit or the task to be cancelled.
    Watch(HostEvent),
    /// Kill the tunnel, and end.
    Kill,
    Pause { secs: u64, event: Option<HostEvent> },
    /// Wait, or end if the task is cancelled.
    Backoff { secs: u64 },
    Stop,
}

/// The contents of a `TaskStep`.
pub enum TaskStepView {
    Begin,
    Provision,
    Watch(HostEventView),
    Kill,
    Pause { secs: u64, event: Option<HostEventView> },
    Backoff { secs: u64 },
    Stop,
}

impl View for TaskStep {
    type V = TaskStepView;

    open spec fn view(&self) -> TaskStepView {
        match self {
            TaskStep::Begin => TaskStepView::Begin,
            TaskStep::Provision => TaskStepView::Provision,
            TaskStep::Watch(x) => TaskStepView::Watch(x@),
            TaskStep::Kill => TaskStepView::Kill,
            TaskStep::Pause { secs, event } => TaskStepView::Pause {
                secs: *secs,
                event: match *event {
                    Some(x) => Some(x@),
                    None => None,
                },
            },
            TaskStep::Backoff { secs } => TaskStepView::Backoff {
                secs: *secs,
            },
            TaskStep::Stop => TaskStepView::Stop,
        }
    }
}

/// The daemon, the task and the step that an event leads to.
pub struct TaskMove {
    pub daemon: DaemonView,
    pub task: TunnelTaskView,
    pub step: TaskStepView,
}

impl TunnelTaskView {
    pub open spec fn awaits(self, event: TaskEventView) -> bool {
        match self.phase {
            TaskPhase::Idle => event is Round,
            TaskPhase::Provisioning => event is Up || event is NotUp,
            TaskPhase::Watching => event is Cancelled || event is Exited,
            TaskPhase::BackingOff => event is Cancelled || event is Waited,
            TaskPhase::Pausing => event is Waited,
            TaskPhase::Over => false,
        }
    }

    pub open spec fn to(self, phase: TaskPhase) -> TunnelTaskView {
        TunnelTaskView { phase, ..self }
    }

    /// The daemon with the task's process noted.
    pub open spec fn noted(self, d: DaemonView, pid: Option<u32>) -> DaemonView {
        match pid {
            Some(p) => d.with_store(
                d.store.with_pids(d.store.registry.cloudflared.insert(self.app, p)),
            ),
            None => d,
        }
    }

    /// The daemon with the task's process struck off.
    pub open spec fn struck(self, d: DaemonView) -> DaemonView {
        d.with_store(d.store.with_pids(d.store.registry.cloudflared.remove(self.app)))
    }

    pub open spec fn advance(self, d: DaemonView, event: TaskEventView) -> TaskMove {
        match (self.phase, event) {
            (TaskPhase::Idle, TaskEventView::Round { cancelled }) => if cancelled || !d.provider {
                TaskMove {
                    daemon: d,
                    task: self.to(TaskPhase::Over),
                    step: TaskStepView::Stop,
                }
            } else {
                TaskMove {
                    daemon: d,
                    task: self.to(TaskPhase::Provisioning),
                    step: TaskStepView::Provision,
                }
            },
            (TaskPhase::Provisioning, TaskEventView::Up { url, pid, now }) => {
                let up = self.noted(d, pid);
                match up.store.app(self.app) {
                    None => TaskMove {
                        daemon: up,
                        task: self.to(TaskPhase::Over),
                        step: TaskStepView::Kill,
                    },
                    Some(rec) => TaskMove {
                        daemon: up.with_store(
                            up.store.with_apps(
                                up.store.apps.insert(
                                    self.app,
                                    AppRecordView {
                                        tunnel_url: Some(url),
                                        url_changed_at: Some(now),
                                        ..rec
                                    },
                                ),
                            ),
                        ),
                        task: self.to(TaskPhase::Watching),
                        step: TaskStepView::Watch(
                            HostEventView::UrlChanged {
                                app: self.app,
                                old: rec.tunnel_url,
                                new: url,
                            },
                        ),
                    },
                }
            },
            (TaskPhase::Provisioning, TaskEventView::NotUp) => TaskMove {
                daemon: d,
                task: self.to(TaskPhase::BackingOff),
                step: TaskStepView::Backoff { secs: TUNNEL_RETRY_SECS },
            },
            (TaskPhase::Watching, TaskEventView::Cancelled) => TaskMove {
                daemon: self.struck(d),
                task: self.to(TaskPhase::Over),
                step: TaskStepView::Kill,
            },
            (TaskPhase::Watching, TaskEventView::Exited { cancelled }) => TaskMove {
                daemon: self.struck(d),
                task: self.to(TaskPhase::Pausing),
                step: TaskStepView::Pause {
                    secs: TUNNEL_PAUSE_SECS,
                    event: if cancelled {
                        None
                    } else {
                        Some(HostEventView::TunnelDown { app: self.app })
                    },
                },
            },
            (TaskPhase::BackingOff, TaskEventView::Cancelled) => TaskMove {
                daemon: d,
                task: self.to(TaskPhase::Over),
                step: TaskStepView::Stop,
            },
            (TaskPhase::BackingOff, TaskEventView::Waited) => TaskMove {
                daemon: d,
                task: self.to(TaskPhase::Pausing),
                step: TaskStepView::Pause { secs: TUNNEL_PAUSE_SECS, event: None },
            },
            (TaskPhase::Pausing, TaskEventView::Waited) => TaskMove {
                daemon: d,
                task: self.to(TaskPhase::Idle),
                step: TaskStepView::Begin,
            },
            (_, _) => TaskMove { daemon: d, task: self, step: TaskStepView::Stop },
        }
    }
}

impl TunnelTask {
    /// A task that has just been started, at its first round.
    pub fn new(app: &str) -> (r: Self)
        ensures
            r@ == (TunnelTaskView { app: app@, phase: TaskPhase::Idle }),
    {
        TunnelTask { app: app.to_owned(), phase: TaskPhase::Idle }
    }
}

impl Daemon {
    /// Takes in what came of a tunnel task's last step, and tells the next.
    pub fn tunnel_next(&mut self, task: &mut TunnelTask, event: TaskEvent) -> (r: TaskStep)
        requires
            old(self).wf(),
            old(task)@.awaits(event@),
        ensures
            ({
                let m = old(task)@.advance(old(self)@, event@);
                &&& final(self)@ == m.daemon
                &&& final(task)@ == m.task
                &&& r@ == m.step
            }),
            final(self).wf(),
            old(self)@.store.wf() ==> final(self)@.store.wf(),
            if r@ is Watch {
                daemon::installed(
                    final(self)@,
                    final(self)@.store.apps[old(task)@.app],
                    old(self).table,
                    final(self).table,
                )
            } else {
                final(self).table == old(self).table
            },
    {
        match event {
            TaskEvent::Round { cancelled } => {
                if cancelled || !self.provider {
                    task.phase = TaskPhase::Over;
                    TaskStep::Stop
                } else {
                    task.phase = TaskPhase::Provisioning;
                    TaskStep::Provision
                }
            },
            TaskEvent::Up { url, pid, now } => {
                match pid {
                    Some(p) => self.store.put_pid(task.app.as_str(), p),
                    None => {},
                }
                let mut rec = match self.store.get(task.app.as_str()) {
                    Some(rec) => rec,
                    None => {
                        task.phase = TaskPhase::Over;
                        return TaskStep::Kill;
                    },
                };
                let mut was: Option<String> = Some(url.clone());
                std::mem::swap(&mut rec.tunnel_url, &mut was);
                rec.url_changed_at = Some(now);
                self.store.put(task.app.as_str(), rec.clone());
                self.install_routes(&rec);
                task.phase = TaskPhase::Watching;
                TaskStep::Watch(
                    HostEvent::UrlChanged { app: task.app.clone(), old: was, new: url },
                )
            },
            TaskEvent::NotUp => {
                task.phase = TaskPhase::BackingOff;
                TaskStep::Backoff { secs: TUNNEL_RETRY_SECS }
            },
            TaskEvent::Cancelled => {
                let watching = task.phase == TaskPhase::Watching;
                task.phase = TaskPhase::Over;
                if watching {
                    self.store.drop_pid(task.app.as_str());
                    TaskStep::Kill
                } else {
                    TaskStep::Stop
                }
            },
            TaskEvent::Exited { cancelled } => {
                self.store.drop_pid(task.app.as_str());
                task.phase = TaskPhase::Pausing;
                let event = if cancelled {
                    None
                } else {
                    Some(HostEvent::TunnelDown { app: task.app.clone() })
                };
                TaskStep::Pause { secs: TUNNEL_PAUSE_SECS, event }
            },
            TaskEvent::Waited => {
                if task.phase == TaskPhase::BackingOff {
                    task.phase = TaskPhase::Pausing;
                    TaskStep::Pause { secs: TUNNEL_PAUSE_SECS, event: None }
                } else {
                    task.phase = TaskPhase::Idle;
                    TaskStep::Begin
                }
            },
        }
    }
}

// ------------------------------------------------------------- the tunnels of claims

/// The supervision of a claimed name's tunnel: started again whenever it exits, until
/// the name is given back.
#[derive(Debug)]
pub struct ClaimTask {
    pub key: String,
    pub phase: TaskPhase,
}

/// The contents of a `ClaimTask`.
pub struct ClaimTaskView {
    pub key: Seq<char>,
    pub phase: TaskPhase,
}

impl View for ClaimTask {
    type V = ClaimTaskView;

    open spec fn view(&self) -> ClaimTaskView {
        ClaimTaskView {
            key: self.key@,
            phase: self.phase,
        }
    }
}

#[derive(Debug)]
pub enum ClaimTaskStep {
    Begin,
    Spawn,
    Watch,
    Kill,
    Pause { secs: u64 },
    Backoff { secs: u64 },
    Stop,
}

/// The contents of a `ClaimTaskStep`.
pub enum ClaimTaskStepView {
    Begin,
    Spawn,
    Watch,
    Kill,
    Pause { secs: u64 },
    Backoff { secs: u64 },
    Stop,
}

impl View for ClaimTaskStep {
    type V = ClaimTaskStepView;

    open spec fn view(&self) -> ClaimTaskStepView {
        match self {
            ClaimTaskStep::Begin => ClaimTaskStepView::Begin,
            ClaimTaskStep::Spawn => ClaimTaskStepView::Spawn,
            ClaimTaskStep::Watch => ClaimTaskStepView::Watch,
            ClaimTaskStep::Kill => ClaimTaskStepView::Kill,
            ClaimTaskStep::Pause { secs } => ClaimTaskStepView::Pause {
                secs: *secs,
            },
            ClaimTaskStep::Backoff { secs } => ClaimTaskStepView::Backoff {
                secs: *secs,
            },
            ClaimTaskStep::Stop => ClaimTaskStepView::Stop,
        }
    }
}

#[derive(Debug)]
pub enum ClaimTaskEvent {
    Round { cancelled: bool },
    Up { pid: Option<u32> },
    NotUp,
    Cancelled,
    Exited,
    Waited,
}

/// The contents of a `ClaimTaskEvent`.
pub enum ClaimTaskEventView {
    Round { cancelled: bool },
    Up { pid: Option<u32> },
    NotUp,
    Cancelled,
    Exited,
    Waited,
}

impl View for ClaimTaskEvent {
    type V = ClaimTaskEventView;

    open spec fn view(&self) -> ClaimTaskEventView {
        match self {
            ClaimTaskEvent::Round { cancelled } => ClaimTaskEventView::Round {
                cancelled: *cancelled,
            },
            ClaimTaskEvent::Up { pid } => ClaimTaskEventView::Up {
                pid: *pid,
            },
            ClaimTaskEvent::NotUp => ClaimTaskEventView::NotUp,
            ClaimTaskEvent::Cancelled => ClaimTaskEventView::Cancelled,
            ClaimTaskEvent::Exited => ClaimTaskEventView::Exited,
            ClaimTaskEvent::Waited => ClaimTaskEventView::Waited,
        }
    }
}

/// The daemon, the task and the step that an event leads to.
pub struct ClaimTaskMove {
    pub daemon: DaemonView,
    pub task: ClaimTaskView,
    pub step: ClaimTaskStepView,
}

impl ClaimTaskView {
    pub open spec fn awaits(self, event: ClaimTaskEventView) -> bool {
        match self.phase {
            TaskPhase::Idle => event is Round,
            TaskPhase::Provisioning => event is Up || event is NotUp,
            TaskPhase::Watching => event is Cancelled || event is Exited,
            TaskPhase::BackingOff => event is Cancelled || event is Waited,
            TaskPhase::Pausing => event is Waited,
            TaskPhase::Over => false,
        }
    }

    pub open spec fn on(
        self,
        daemon: DaemonView,
        phase: TaskPhase,
        step: ClaimTaskStepView,
    ) -> ClaimTaskMove {
        ClaimTaskMove { daemon, task: ClaimTaskView { phase, ..self }, step }
    }

    pub open spec fn advance(self, d: DaemonView, event: ClaimTaskEventView) -> ClaimTaskMove {
        match (self.phase, event) {
            (TaskPhase::Idle, ClaimTaskEventView::Round { cancelled }) => if cancelled {
                self.on(d, TaskPhase::Over, ClaimTaskStepView::Stop)
            } else {
                self.on(d, TaskPhase::Provisioning, ClaimTaskStepView::Spawn)
            },
            (TaskPhase::Provisioning, ClaimTaskEventView::Up { pid }) => self.on(
                match pid {
                    Some(p) => d.with_store(
                        d.store.with_pids(d.store.registry.cloudflared.insert(self.key, p)),
                    ),
                    None => d,
                },
                TaskPhase::Watching,
                ClaimTaskStepView::Watch,
            ),
            (TaskPhase::Provisioning, ClaimTaskEventView::NotUp) => self.on(
                d,
                TaskPhase::BackingOff,
                ClaimTaskStepView::Backoff { secs: CLAIM_RETRY_SECS },
            ),
            (TaskPhase::Watching, ClaimTaskEventView::Cancelled) => self.on(
                d,
                TaskPhase::Over,
                ClaimTaskStepView::Kill,
            ),
            (TaskPhase::BackingOff, ClaimTaskEventView::Cancelled) => self.on(
                d,
                TaskPhase::Over,
                ClaimTaskStepView::Stop,
            ),
            (TaskPhase::Pausing, ClaimTaskEventView::Waited) => self.on(
                d,
                TaskPhase::Idle,
                ClaimTaskStepView::Begin,
            ),
            (_, _) => self.on(
                d,
                TaskPhase::Pausing,
                ClaimTaskStepView::Pause { secs: TUNNEL_PAUSE_SECS },
            ),
        }
    }
}

impl ClaimTask {
    /// The task of an app's claim, at its first round.
    pub fn new(app: &str) -> (r: Self)
        ensures
            r@ == (ClaimTaskView { key: daemon::claim_key(app@), phase: TaskPhase::Idle }),
    {
        ClaimTask { key: claim_task_key(app), phase: TaskPhase::Idle }
    }
}

impl Daemon {
    /// Takes in what came of a claim task's last step, and tells the next.
    pub fn claim_tunnel_next(&mut self, task: &mut ClaimTask, event: ClaimTaskEvent) -> (r:
        ClaimTaskStep)
        requires
            old(task)@.awaits(event@),
        ensures
            ({
                let m = old(task)@.advance(old(self)@, event@);
                &&& final(self)@ == m.daemon
                &&& final(task)@ == m.task
                &&& r@ == m.step
            }),
            final(self).table == old(self).table,
    {
        match event {
            ClaimTaskEvent::Round { cancelled } => {
                if cancelled {
                    task.phase = TaskPhase::Over;
                    ClaimTaskStep::Stop
                } else {
                    task.phase = TaskPhase::Provisioning;
                    ClaimTaskStep::Spawn
                }
            },
            ClaimTaskEvent::Up { pid } => {
                match pid {
                    Some(p) => self.store.put_pid(task.key.as_str(), p),
                    None => {},
                }
                task.phase = TaskPhase::Watching;
                ClaimTaskStep::Watch
            },
            ClaimTaskEvent::NotUp => {
                task.phase = TaskPhase::BackingOff;
                ClaimTaskStep::Backoff { secs: CLAIM_RETRY_SECS }
            },
            ClaimTaskEvent::Cancelled => {
                let watching = task.phase == TaskPhase::Watching;
                task.phase = TaskPhase::Over;
                if watching {
                    ClaimTaskStep::Kill
                } else {
                    ClaimTaskStep::Stop
                }
            },
            ClaimTaskEvent::Exited => {
                task.phase = TaskPhase::Pausing;
                ClaimTaskStep::Pause { secs: TUNNEL_PAUSE_SECS }
            },
            ClaimTaskEvent::Waited => {
                if task.phase == TaskPhase::BackingOff {
                    task.phase = TaskPhase::Pausing;
                    ClaimTaskStep::Pause { secs: TUNNEL_PAUSE_SECS }
                } else {
                    task.phase = TaskPhase::Idle;
                    ClaimTaskStep::Begin
                }
            },
        }
    }
}

// ---------------------------------------------------------------------------- laws

/// Restarts of the daemon forget no decision: an app that was paused stays paused, one
/// in a crash loop stays so, every other app runs, and no spec changes.
pub proof fn restarts_forget_no_decision(rec: AppRecordView, alive: Seq<ReplicaRecordView>)
    ensures
        revived(rec, alive).spec == rec.spec,
        revived(rec, alive).paused_reason == rec.paused_reason,
        rec.state == AppState::Paused ==> revived(rec, alive).state == AppState::Paused,
        rec.state == AppState::CrashLoop ==> revived(rec, alive).state == AppState::CrashLoop,
        rec.state != AppState::Paused && rec.state != AppState::CrashLoop ==> revived(
            rec,
            alive,
        ).state == AppState::Running,
{
}

/// An app that is brought back after some events.
pub open spec fn recon_after(
    name: Seq<char>,
    rec: AppRecordView,
    events: Seq<ReconEventView>,
) -> ReconMove
    decreases events.len(),
{
    if events.len() == 0 {
        recon_of(name, rec)
    } else {
        recon_after(name, rec, events.drop_last()).run.advance(events.last())
    }
}

pub open spec fn recon_in_turn(
    name: Seq<char>,
    rec: AppRecordView,
    events: Seq<ReconEventView>,
) -> bool
    decreases events.len(),
{
    events.len() == 0 || recon_in_turn(name, rec, events.drop_last()) && recon_after(
        name,
        rec,
        events.drop_last(),
    ).run.awaits(events.last())
}

/// How many of these events tell of a replica that is alive.
pub open spec fn alive_count(events: Seq<ReconEventView>) -> nat
    decreases events.len(),
{
    if events.len() == 0 {
        0
    } else {
        alive_count(events.drop_last()) + match events.last() {
            ReconEventView::Up(up) => if up {
                1nat
            } else {
                0
            },
            ReconEventView::Restarted(ok) => if ok {
                1nat
            } else {
                0
            },
            ReconEventView::Started(_) => 1,
            _ => 0,
        }
    }
}

/// As many replicas are kept as were seen alive: one for each container that was found up,
/// was restarted or was started.
pub proof fn only_live_replicas_are_kept(
    name: Seq<char>,
    rec: AppRecordView,
    events: Seq<ReconEventView>,
)
    requires
        recon_in_turn(name, rec, events),
    ensures
        recon_after(name, rec, events).run.alive.len() == alive_count(events),
    decreases events.len(),
{
    if events.len() > 0 {
        only_live_replicas_are_kept(name, rec, events.drop_last());
    }
}

/// Did every replica that was to be started start?
pub open spec fn all_started(events: Seq<ReconEventView>) -> bool {
    forall|i: int| 0 <= i < events.len() ==> #[trigger] events[i] !is NotStarted
}

/// A restart brings back what was asked for: once an app is done with, and every replica
/// that was to be started did start, as many replicas are alive as its spec asks for, or
/// more.
pub proof fn restarts_bring_every_replica_back(
    name: Seq<char>,
    rec: AppRecordView,
    events: Seq<ReconEventView>,
)
    requires
        rec.replicas.len() <= usize::MAX,
        recon_in_turn(name, rec, events),
        all_started(events),
        recon_after(name, rec, events).step is Finish,
    ensures
        recon_after(name, rec, events).run.alive.len() >= rec.spec.replicas,
{
    lemma_on_track(name, rec, events);
}

proof fn lemma_on_track(
    name: Seq<char>,
    rec: AppRecordView,
    events: Seq<ReconEventView>,
)
    requires
        rec.replicas.len() <= usize::MAX,
        recon_in_turn(name, rec, events),
        all_started(events),
    ensures
        ({
            let m = recon_after(name, rec, events);
            &&& m.run.want == rec.spec.replicas
            &&& m.run.replicas == rec.replicas
            &&& m.run.phase == ReconPhase::Inspecting || m.run.phase == ReconPhase::Restarting
                ==> m.run.alive.len() <= m.run.at
            &&& m.run.wf()
            &&& m.run.phase == ReconPhase::Starting ==> m.run.at == m.run.alive.len()
            &&& m.step is Finish ==> m.run.alive.len() >= m.run.want
        }),
    decreases events.len(),
{
    if events.len() > 0 {
        let before = events.drop_last();
        assert forall|i: int| 0 <= i < before.len() implies #[trigger] before[i] !is NotStarted by {
            assert(events[i] == before[i]);
        }
        assert(events[events.len() - 1] == events.last());
        lemma_on_track(name, rec, before);
    }
}

/// How many recorded replicas have been inspected.
pub open spec fn inspections(events: Seq<ReconEventView>) -> nat
    decreases events.len(),
{
    if events.len() == 0 {
        0
    } else {
        inspections(events.drop_last()) + match events.last() {
            ReconEventView::Up(_) | ReconEventView::Missing => 1nat,
            _ => 0,
        }
    }
}

/// How many new replicas were asked for.
pub open spec fn starts_asked(events: Seq<ReconEventView>) -> nat
    decreases events.len(),
{
    if events.len() == 0 {
        0
    } else {
        starts_asked(events.drop_last()) + match events.last() {
            ReconEventView::Started(_) | ReconEventView::NotStarted => 1nat,
            _ => 0,
        }
    }
}

/// How many of the recorded replicas were found up or came up again.
pub open spec fn survivors(events: Seq<ReconEventView>) -> nat
    decreases events.len(),
{
    if events.len() == 0 {
        0
    } else {
        survivors(events.drop_last()) + match events.last() {
            ReconEventView::Up(true) | ReconEventView::Restarted(true) => 1nat,
            _ => 0,
        }
    }
}

/// The replicas that are alive after some events, told by these alone: in the order of the
/// record, each whose own inspection said that it is up or whose own restart succeeded, and
/// after them the ones that were started anew.
pub open spec fn told_alive(
    recorded: Seq<ReplicaRecordView>,
    events: Seq<ReconEventView>,
) -> Seq<ReplicaRecordView>
    decreases events.len(),
{
    if events.len() == 0 {
        Seq::empty()
    } else {
        let before = events.drop_last();
        let rest = told_alive(recorded, before);
        match events.last() {
            ReconEventView::Up(true) => rest.push(recorded[inspections(before) as int]),
            ReconEventView::Restarted(true) => rest.push(recorded[inspections(before) - 1]),
            ReconEventView::Started(r) => rest.push(r),
            _ => rest,
        }
    }
}

proof fn lemma_run(name: Seq<char>, rec: AppRecordView, events: Seq<ReconEventView>)
    requires
        rec.replicas.len() <= usize::MAX,
        recon_in_turn(name, rec, events),
    ensures
        ({
            let m = recon_after(name, rec, events);
            let n = inspections(events);
            &&& m.run.wf()
            &&& m.run.name == name
            &&& m.run.want == rec.spec.replicas
            &&& m.run.replicas == rec.replicas
            &&& m.run.alive == told_alive(rec.replicas, events)
            &&& m.run.phase == ReconPhase::Inspecting ==> m.run.at == n && starts_asked(events) == 0
                && m.step == (ReconStepView::Inspect {
                container: rec.replicas[n as int].container_id,
            })
            &&& m.run.phase == ReconPhase::Restarting ==> m.run.at == n - 1 && starts_asked(events)
                == 0 && m.step == (ReconStepView::Restart {
                container: rec.replicas[n - 1].container_id,
            })
            &&& m.run.phase == ReconPhase::Starting ==> n == rec.replicas.len() && m.run.at
                == survivors(events) + starts_asked(events) && m.step == (ReconStepView::Start {
                image: m.run.image,
                index: rollout::index_of(200, m.run.at as nat),
            })
            &&& m.run.image == deploy::image_of(name, rec.spec)
            &&& m.run.phase == ReconPhase::Over ==> n == rec.replicas.len() && m.step is Finish
                && starts_asked(events) == (if survivors(events) < rec.spec.replicas {
                rec.spec.replicas - survivors(events)
            } else {
                0
            })
            &&& starts_asked(events) == 0 ==> m.run.alive.len() == survivors(events)
            &&& survivors(events) <= n <= rec.replicas.len()
            &&& m.run.phase == ReconPhase::Restarting ==> survivors(events) < n
        }),
    decreases events.len(),
{
    if events.len() > 0 {
        lemma_run(name, rec, events.drop_last());
    }
}

/// After a restart of the daemon exactly those replicas stay that are alive, each as it is on
/// record: in order, the recorded ones whose own inspection said that they are up or whose
/// own restart succeeded, and the ones that were started anew.
pub proof fn living_replicas_stay_on_record(
    name: Seq<char>,
    rec: AppRecordView,
    events: Seq<ReconEventView>,
)
    requires
        rec.replicas.len() <= usize::MAX,
        recon_in_turn(name, rec, events),
    ensures
        recon_after(name, rec, events).run.name == name,
        recon_after(name, rec, events).run.alive == told_alive(rec.replicas, events),
        revived(rec, recon_after(name, rec, events).run.alive).replicas == told_alive(
            rec.replicas,
            events,
        ),
{
    lemma_run(name, rec, events);
}

/// Where every recorded container is found up, the record keeps its replicas, and nothing is
/// started as long as there are enough of them.
pub proof fn undisturbed_apps_stay_as_they_are(
    name: Seq<char>,
    rec: AppRecordView,
    events: Seq<ReconEventView>,
)
    requires
        rec.replicas.len() <= usize::MAX,
        recon_in_turn(name, rec, events),
        events.len() <= rec.replicas.len(),
        forall|i: int| 0 <= i < events.len() ==> #[trigger] events[i] == ReconEventView::Up(true),
    ensures
        recon_after(name, rec, events).run.alive == rec.replicas.take(events.len() as int),
        events.len() == rec.replicas.len() && rec.spec.replicas <= rec.replicas.len()
            ==> recon_after(name, rec, events).step is Finish,
        events.len() == rec.replicas.len() ==> recon_after(name, rec, events).run.alive
            == rec.replicas,
{
    lemma_run(name, rec, events);
    lemma_all_up(rec.replicas, events);
    assert(rec.replicas.take(rec.replicas.len() as int) =~= rec.replicas);
}

proof fn lemma_all_up(recorded: Seq<ReplicaRecordView>, events: Seq<ReconEventView>)
    requires
        events.len() <= recorded.len(),
        forall|i: int| 0 <= i < events.len() ==> #[trigger] events[i] == ReconEventView::Up(true),
    ensures
        inspections(events) == events.len(),
        survivors(events) == events.len(),
        starts_asked(events) == 0,
        told_alive(recorded, events) == recorded.take(events.len() as int),
    decreases events.len(),
{
    let n = events.len() as int;
    if n > 0 {
        let before = events.drop_last();
        assert forall|i: int| 0 <= i < before.len() implies #[trigger] before[i]
            == ReconEventView::Up(true) by {
            assert(events[i] == before[i]);
        }
        lemma_all_up(recorded, before);
        assert(events[n - 1] == events.last());
        assert(recorded.take(n) =~= recorded.take(n - 1).push(recorded[n - 1]));
    } else {
        assert(recorded.take(0) =~= Seq::empty());
    }
}

/// The recorded containers are inspected one after the other, each once, and the one that is
/// restarted is the one that was just inspected and found down.
pub proof fn every_recorded_replica_is_looked_at(
    name: Seq<char>,
    rec: AppRecordView,
    events: Seq<ReconEventView>,
)
    requires
        rec.replicas.len() <= usize::MAX,
        recon_in_turn(name, rec, events),
    ensures
        match recon_after(name, rec, events).step {
            ReconStepView::Inspect { container } => inspections(events) < rec.replicas.len()
                && container == rec.replicas[inspections(events) as int].container_id,
            ReconStepView::Restart { container } => events.len() > 0 && events.last()
                == ReconEventView::Up(false) && 0 < inspections(events) <= rec.replicas.len()
                && container == rec.replicas[inspections(events) - 1].container_id,
            ReconStepView::Start { .. } => inspections(events) == rec.replicas.len(),
            ReconStepView::Finish => inspections(events) == rec.replicas.len(),
        },
{
    lemma_run(name, rec, events);
    if events.len() > 0 {
        lemma_run(name, rec, events.drop_last());
    }
}

/// Just as many new replicas are asked for as are missing, each with the app's own image and
/// with another number.
pub proof fn just_the_missing_are_started(
    name: Seq<char>,
    rec: AppRecordView,
    events: Seq<ReconEventView>,
)
    requires
        rec.replicas.len() <= usize::MAX,
        recon_in_turn(name, rec, events),
    ensures
        recon_after(name, rec, events).step is Finish ==> starts_asked(events) == (
        if survivors(events) < rec.spec.replicas {
            rec.spec.replicas - survivors(events)
        } else {
            0
        }),
        recon_after(name, rec, events).step matches ReconStepView::Start { image, index } ==> {
            &&& survivors(events) + starts_asked(events) < rec.spec.replicas
            &&& index == (200 + survivors(events) + starts_asked(events)) % 256
            &&& rec.spec.build is Some ==> image == "hades/"@ + name + ":latest"@
            &&& rec.spec.build is None && rec.spec.image is Some ==> image == rec.spec.image->0
        },
{
    lemma_run(name, rec, events);
}

/// An app that was brought back has the replicas that were found alive or started, and no URL
/// of a tunnel that is gone; all else of its record is as it was, and so is every other app.
/// Its tunnel is started if it runs, tunnels can be had and no task looks after it yet.
pub proof fn restarts_change_what_they_must(
    before: DaemonView,
    after: DaemonView,
    name: Seq<char>,
    alive: Seq<ReplicaRecordView>,
    r: bool,
    other: Seq<char>,
)
    requires
        before.store.apps.dom().contains(name),
        brought_back(before, after, name, revived(before.store.apps[name], alive), r),
    ensures
        ({
            let was = before.store.apps[name];
            let now = after.store.apps[name];
            &&& after.store.apps.dom() == before.store.apps.dom()
            &&& now.replicas == alive && now.tunnel_url is None
            &&& now == (AppRecordView {
                replicas: now.replicas,
                tunnel_url: now.tunnel_url,
                state: now.state,
                ..was
            })
            &&& other != name ==> after.store.apps[other] == before.store.apps[other]
            &&& after.store.claims == before.store.claims && after.store.registry
                == before.store.registry && after.store.fleet == before.store.fleet
            &&& r <==> before.provider && now.state == AppState::Running
                && !before.tunnels.contains(name)
            &&& after.tunnels.contains(name) <==> before.tunnels.contains(name) || r
            &&& other != name ==> (after.tunnels.contains(other) <==> before.tunnels.contains(
                other,
            ))
        }),
{
    assert(after.store.apps.dom() =~= before.store.apps.dom());
}

/// After a restart a task looks after the tunnel of each claimed name, and those that none
/// looked after are started, each once.
pub proof fn every_claim_gets_its_tunnel(d: DaemonView, app: Seq<char>)
    requires
        d.store.claims.dom().finite(),
        d.store.claims.dom().contains(app),
        forall|k: Seq<char>| #[trigger]
            d.store.claims.dom().contains(k) ==> d.store.claims[k].app == k,
    ensures
        ({
            let n = names::listing(d.store.claims.dom()).len();
            let key = "__claim_"@ + app;
            &&& with_claim_tasks(d, n).contains(key)
            &&& !d.tunnels.contains(key) ==> claims_to_start(d, n).contains(d.store.claims[app])
            &&& d.tunnels.contains(key) ==> !claims_to_start(d, n).contains(d.store.claims[app])
        }),
{
    let keys = names::listing(d.store.claims.dom());
    names::lemma_listing_exists(d.store.claims.dom());
    assert(keys.contains(app));
    let i = choose|i: int| 0 <= i < keys.len() && keys[i] == app;
    assert forall|j: int| 0 <= j < keys.len() implies d.store.claims[#[trigger] keys[j]].app
        == keys[j] by {
        assert(keys.contains(keys[j]));
    }
    lemma_claims(d, keys, keys.len(), i);
}

proof fn lemma_claims(d: DaemonView, keys: Seq<Seq<char>>, n: nat, i: int)
    requires
        keys == names::listing(d.store.claims.dom()),
        names::ascending(keys),
        forall|j: int|
            0 <= j < keys.len() ==> d.store.claims[#[trigger] keys[j]].app == keys[j],
        n <= keys.len(),
        0 <= i < keys.len(),
    ensures
        ({
            let key = daemon::claim_key(keys[i]);
            let claim = d.store.claims[keys[i]];
            &&& with_claim_tasks(d, n).contains(key) <==> d.tunnels.contains(key) || i < n
            &&& claims_to_start(d, n).contains(claim) <==> i < n && !d.tunnels.contains(key)
        }),
    decreases n,
{
    let key = daemon::claim_key(keys[i]);
    let claim = d.store.claims[keys[i]];
    if n > 0 {
        let m = (n - 1) as nat;
        lemma_claims(d, keys, m, i);
        lemma_claims(d, keys, m, n - 1);
        let last = d.store.claims[keys[n - 1]];
        let before = claims_to_start(d, m);
        let now = claims_to_start(d, n);
        let head = "__claim_"@;
        if daemon::claim_key(last.app) == key {
            assert((head + last.app).skip(head.len() as int) =~= last.app);
            assert((head + keys[i]).skip(head.len() as int) =~= keys[i]);
        }
        if i < n - 1 {
            assert(crate::order::text_less(keys[i], keys[n - 1]));
            crate::order::lemma_text_less_irreflexive(keys[i]);
        }
        if n - 1 < i {
            assert(crate::order::text_less(keys[n - 1], keys[i]));
            crate::order::lemma_text_less_irreflexive(keys[i]);
        }
        if before.contains(claim) {
            let k = choose|k: int| 0 <= k < before.len() && before[k] == claim;
            assert(now[k] == claim);
        }
        if now.contains(claim) {
            let k = choose|k: int| 0 <= k < now.len() && now[k] == claim;
            if k < before.len() {
                assert(before[k] == claim);
            } else {
                assert(last == claim);
                assert(last.app == claim.app);
            }
        }
        if i == n - 1 && now.len() > before.len() {
            assert(now[before.len() as int] == last);
        }
    } else {
        assert(claims_to_start(d, 0) =~= Seq::empty());
    }
}

/// The URL of a tunnel that is up is on record as its app's, from now on, and told with the
/// one before it; its process is noted under the app. No other app is touched. An app that is
/// gone gets no tunnel: it is killed.
pub proof fn fresh_urls_are_recorded_and_told(
    task: TunnelTaskView,
    d: DaemonView,
    url: Seq<char>,
    pid: Option<u32>,
    now: Timestamp,
    other: Seq<char>,
)
    requires
        task.phase == TaskPhase::Provisioning,
    ensures
        ({
            let m = task.advance(d, TaskEventView::Up { url, pid, now });
            let known = d.store.apps.dom().contains(task.app);
            &&& known ==> {
                &&& m.daemon.store.apps[task.app] == (AppRecordView {
                    tunnel_url: Some(url),
                    url_changed_at: Some(now),
                    ..d.store.apps[task.app]
                })
                &&& m.step == TaskStepView::Watch(
                    HostEventView::UrlChanged {
                        app: task.app,
                        old: d.store.apps[task.app].tunnel_url,
                        new: url,
                    },
                )
                &&& m.daemon.store.apps.dom() == d.store.apps.dom()
                &&& m.task.phase == TaskPhase::Watching
            }
            &&& !known ==> m.step is Kill && m.task.phase == TaskPhase::Over
            &&& m.task.app == task.app
            &&& other != task.app ==> m.daemon.store.apps[other] == d.store.apps[other] && (
            m.daemon.store.registry.cloudflared.dom().contains(other)
                <==> d.store.registry.cloudflared.dom().contains(other))
                && m.daemon.store.registry.cloudflared[other]
                == d.store.registry.cloudflared[other]
            &&& pid matches Some(p) ==> m.daemon.store.registry.cloudflared.dom().contains(task.app)
                && m.daemon.store.registry.cloudflared[task.app] == p
            &&& m.daemon.store.claims == d.store.claims && m.daemon.store.fleet == d.store.fleet
                && m.daemon.tunnels == d.tunnels
        }),
{
    let m = task.advance(d, TaskEventView::Up { url, pid, now });
    if d.store.apps.dom().contains(task.app) {
        assert(m.daemon.store.apps.dom() =~= d.store.apps.dom());
    }
}

/// A tunnel that exits is struck off, told unless its task was cancelled, and tried again;
/// so is one that could not be had, after a longer pause. A cancelled task ends, and kills the
/// tunnel that it watches.
pub proof fn tunnels_are_tried_again(task: TunnelTaskView, d: DaemonView, cancelled: bool)
    requires
        task.phase == TaskPhase::Watching,
        d.provider,
    ensures
        ({
            let gone = task.advance(d, TaskEventView::Exited { cancelled });
            let begun = gone.task.advance(gone.daemon, TaskEventView::Waited);
            let again = begun.task.advance(
                begun.daemon,
                TaskEventView::Round { cancelled: false },
            );
            let ended = begun.task.advance(begun.daemon, TaskEventView::Round { cancelled: true });
            let missed = again.task.advance(again.daemon, TaskEventView::NotUp);
            let rested = missed.task.advance(missed.daemon, TaskEventView::Waited);
            let killed = task.advance(d, TaskEventView::Cancelled);
            &&& !gone.daemon.store.registry.cloudflared.dom().contains(task.app)
            &&& gone.step == (TaskStepView::Pause {
                secs: 2,
                event: if cancelled {
                    None
                } else {
                    Some(HostEventView::TunnelDown { app: task.app })
                },
            })
            &&& begun.step is Begin && again.step is Provision && ended.step is Stop
            &&& missed.step == (TaskStepView::Backoff { secs: 30 })
            &&& rested.step == (TaskStepView::Pause { secs: 2, event: None })
            &&& rested.task.phase == gone.task.phase
            &&& killed.step is Kill && killed.task.phase == TaskPhase::Over
                && !killed.daemon.store.registry.cloudflared.dom().contains(task.app)
            &&& again.daemon == gone.daemon && missed.daemon == gone.daemon
            &&& gone.daemon.store.apps == d.store.apps && gone.daemon.tunnels == d.tunnels
        }),
{
}

/// The tunnel of a claimed name is run again whenever it exits, and its process is noted under
/// its own key; a cancelled task ends, and kills the tunnel that it watches.
pub proof fn claimed_tunnels_are_run_again(task: ClaimTaskView, d: DaemonView, pid: u32)
    requires
        task.phase == TaskPhase::Provisioning,
    ensures
        ({
            let up = task.advance(d, ClaimTaskEventView::Up { pid: Some(pid) });
            let gone = up.task.advance(up.daemon, ClaimTaskEventView::Exited);
            let begun = gone.task.advance(gone.daemon, ClaimTaskEventView::Waited);
            let again = begun.task.advance(
                begun.daemon,
                ClaimTaskEventView::Round { cancelled: false },
            );
            let missed = task.advance(d, ClaimTaskEventView::NotUp);
            let killed = up.task.advance(up.daemon, ClaimTaskEventView::Cancelled);
            &&& up.step is Watch && up.daemon.store.registry.cloudflared
                == d.store.registry.cloudflared.insert(task.key, pid)
            &&& up.daemon.store.apps == d.store.apps && up.daemon.store.claims == d.store.claims
                && up.daemon.tunnels == d.tunnels
            &&& gone.step == (ClaimTaskStepView::Pause { secs: 2 })
            &&& begun.step is Begin && again.step is Spawn && again.task == task
            &&& missed.step == (ClaimTaskStepView::Backoff { secs: 15 })
            &&& killed.step is Kill && killed.task.phase == TaskPhase::Over
        }),
{
}

} // verus!
