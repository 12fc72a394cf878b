//! Rolling an app over to new replicas: start them beside the old ones, let no traffic
//! in before every one of them answers, swap, and only then retire the old ones.
use vstd::prelude::*;

use crate::app_spec::{HealthCheck, HealthCheckView};
use crate::error::{ErrorView, HadesError};
use crate::split;
use crate::state;
use crate::state::{clone_replica_records, ReplicaRecord, ReplicaRecordView};
use crate::text;
use crate::text::dec;

verus! {

// ----------------------------------------------------------------- the readiness gate

/// How long all replicas together may take to get ready, in seconds.
pub const READY_SECS: u64 = 60;

/// The pause before a replica is tried again, in milliseconds.
pub const READY_PAUSE_MS: u64 = 500;

#[derive(Debug, Clone, Copy, PartialEq, Eq, Structural)]
pub enum GatePhase {
    /// Waiting for the clock.
    Clock,
    Connecting,
    Checking,
    Resting,
    Over,
}

/// Readiness: a TCP connection, and the HTTP health path where one is declared, on
/// every new replica before it receives traffic.
#[derive(Debug)]
pub struct ReadyGate {
    pub ports: Vec<u16>,
    pub health: Option<HealthCheck>,
    /// The replica that is tried.
    pub at: usize,
    pub phase: GatePhase,
}

/// The contents of a `ReadyGate`.
pub struct ReadyGateView {
    pub ports: Seq<u16>,
    pub health: Option<HealthCheckView>,
    pub at: usize,
    pub phase: GatePhase,
}

impl View for ReadyGate {
    type V = ReadyGateView;

    open spec fn view(&self) -> ReadyGateView {
        ReadyGateView {
            ports: self.ports@,
            health: match self.health {
                Some(x) => Some(x@),
                None => None,
            },
            at: self.at,
            phase: self.phase,
        }
    }
}

#[derive(Debug)]
pub enum GateEvent {
    /// Has the time run out?
    Clock { late: bool },
    Connected(bool),
    Healthy(bool),
    Rested,
}

/// The contents of a `GateEvent`.
pub enum GateEventView {
    Clock { late: bool },
    Connected(bool),
    Healthy(bool),
    Rested,
}

impl View for GateEvent {
    type V = GateEventView;

    open spec fn view(&self) -> GateEventView {
        match self {
            GateEvent::Clock { late } => GateEventView::Clock {
                late: *late,
            },
            GateEvent::Connected(x) => GateEventView::Connected(*x),
            GateEvent::Healthy(x) => GateEventView::Healthy(*x),
            GateEvent::Rested => GateEventView::Rested,
        }
    }
}

#[derive(Debug)]
pub enum GateStep {
    ReadClock,
    Connect { port: u16 },
    Get { url: String, timeout_secs: u64 },
    Rest,
    Open,
    Shut(HadesError),
}

/// The contents of a `GateStep`.
pub enum GateStepView {
    ReadClock,
    Connect { port: u16 },
    Get { url: Seq<char>, timeout_secs: u64 },
    Rest,
    Open,
    Shut(ErrorView),
}

impl View for GateStep {
    type V = GateStepView;

    open spec fn view(&self) -> GateStepView {
        match self {
            GateStep::ReadClock => GateStepView::ReadClock,
            GateStep::Connect { port } => GateStepView::Connect {
                port: *port,
            },
            GateStep::Get { url, timeout_secs } => GateStepView::Get {
                url: url@,
                timeout_secs: *timeout_secs,
            },
            GateStep::Rest => GateStepView::Rest,
            GateStep::Open => GateStepView::Open,
            GateStep::Shut(x) => GateStepView::Shut(x@),
        }
    }
}

/// Where a replica's health is asked for.
pub open spec fn health_url(port: u16, path: Seq<char>) -> Seq<char> {
    "http://127.0.0.1:"@ + text::decimal(port as nat) + path
}

impl ReadyGateView {
    pub open spec fn wf(self) -> bool {
        &&& self.at <= self.ports.len()
        &&& self.phase != GatePhase::Over ==> self.at < self.ports.len()
        &&& self.phase == GatePhase::Checking ==> self.health is Some
    }

    pub open spec fn awaits(self, event: GateEventView) -> bool {
        match self.phase {
            GatePhase::Clock => event is Clock,
            GatePhase::Connecting => event is Connected,
            GatePhase::Checking => event is Healthy,
            GatePhase::Resting => event is Rested,
            GatePhase::Over => false,
        }
    }

    pub open spec fn to(self, phase: GatePhase) -> ReadyGateView {
        ReadyGateView { phase, ..self }
    }

    /// One replica is ready.
    pub open spec fn passed(self) -> (ReadyGateView, GateStepView) {
        let on = ReadyGateView { at: (self.at + 1) as usize, ..self };
        if self.at + 1 == self.ports.len() {
            (on.to(GatePhase::Over), GateStepView::Open)
        } else {
            (on.to(GatePhase::Clock), GateStepView::ReadClock)
        }
    }

    pub open spec fn advance(self, event: GateEventView) -> (ReadyGateView, GateStepView) {
        let port = self.ports[self.at as int];
        match (self.phase, event) {
            (GatePhase::Clock, GateEventView::Clock { late }) => if late {
                (
                    self.to(GatePhase::Over),
                    GateStepView::Shut(
                        ErrorView::Other(
                            "replica on port "@ + text::decimal(port as nat)
                                + " not ready within 60s"@,
                        ),
                    ),
                )
            } else {
                (self.to(GatePhase::Connecting), GateStepView::Connect { port })
            },
            (GatePhase::Connecting, GateEventView::Connected(ok)) => if !ok {
                (self.to(GatePhase::Resting), GateStepView::Rest)
            } else {
                match self.health {
                    Some(h) => (
                        self.to(GatePhase::Checking),
                        GateStepView::Get {
                            url: health_url(port, h.path),
                            timeout_secs: h.timeout_secs,
                        },
                    ),
                    None => self.passed(),
                }
            },
            (GatePhase::Checking, GateEventView::Healthy(ok)) => if ok {
                self.passed()
            } else {
                (self.to(GatePhase::Resting), GateStepView::Rest)
            },
            (GatePhase::Resting, GateEventView::Rested) => (
                self.to(GatePhase::Clock),
                GateStepView::ReadClock,
            ),
            (_, _) => (self, GateStepView::Rest),
        }
    }
}

pub open spec fn ports_of(replicas: Seq<ReplicaRecordView>) -> Seq<u16> {
    Seq::new(replicas.len(), |i: int| replicas[i].host_port)
}

/// A gate before these replicas.
pub open spec fn gate_for(
    replicas: Seq<ReplicaRecordView>,
    health: Option<HealthCheckView>,
) -> ReadyGateView {
    ReadyGateView {
        ports: ports_of(replicas),
        health,
        at: 0,
        phase: if replicas.len() == 0 {
            GatePhase::Over
        } else {
            GatePhase::Clock
        },
    }
}

pub open spec fn opt_health(o: Option<HealthCheck>) -> Option<HealthCheckView> {
    match o {
        Some(h) => Some(h@),
        None => None,
    }
}

impl ReadyGate {
    /// A gate before some replicas, and its first step. Before none it is open.
    pub fn new(replicas: &Vec<ReplicaRecord>, health: &Option<HealthCheck>) -> (r: (
        ReadyGate,
        GateStep,
    ))
        ensures
            r.0@ == gate_for(state::replica_record_views(replicas@), opt_health(*health)),
            r.0@.wf(),
            r.1@ == if replicas@.len() == 0 {
                GateStepView::Open
            } else {
                GateStepView::ReadClock
            },
    {
        let mut ports: Vec<u16> = Vec::new();
        let mut i: usize = 0;
        while i < replicas.len()
            invariant
                i <= replicas.len(),
                ports@.len() == i,
                forall|j: int| 0 <= j < i ==> #[trigger] ports@[j] == replicas@[j].host_port,
            decreases replicas.len() - i,
        {
            ports.push(replicas[i].host_port);
            i += 1;
        }
        assert(ports@ =~= ports_of(state::replica_record_views(replicas@)));
        let health = match health {
            Some(h) => Some(h.clone()),
            None => None,
        };
        if replicas.len() == 0 {
            (ReadyGate { ports, health, at: 0, phase: GatePhase::Over }, GateStep::Open)
        } else {
            (ReadyGate { ports, health, at: 0, phase: GatePhase::Clock }, GateStep::ReadClock)
        }
    }

    fn pass(&mut self) -> (r: GateStep)
        requires
            old(self)@.wf(),
            old(self)@.at < old(self)@.ports.len(),
        ensures
            (final(self)@, r@) == old(self)@.passed(),
            final(self)@.wf(),
    {
        let n = self.ports.len();
        self.at = self.at + 1;
        if self.at == n {
            self.phase = GatePhase::Over;
            GateStep::Open
        } else {
            self.phase = GatePhase::Clock;
            GateStep::ReadClock
        }
    }

    /// Takes in what came of the last step, and tells the next.
    pub fn next(&mut self, event: GateEvent) -> (r: GateStep)
        requires
            old(self)@.wf(),
            old(self)@.awaits(event@),
        ensures
            (final(self)@, r@) == old(self)@.advance(event@),
            final(self)@.wf(),
    {
        let port = self.ports[self.at];
        match event {
            GateEvent::Clock { late } => {
                if late {
                    self.phase = GatePhase::Over;
                    GateStep::Shut(
                        HadesError::Other(
                            "replica on port ".to_owned().concat(
                                dec(port as u64).as_str(),
                            ).concat(" not ready within 60s"),
                        ),
                    )
                } else {
                    self.phase = GatePhase::Connecting;
                    GateStep::Connect { port }
                }
            },
            GateEvent::Connected(ok) => {
                if !ok {
                    self.phase = GatePhase::Resting;
                    return GateStep::Rest;
                }
                let get = match &self.health {
                    Some(h) => Some(
                        GateStep::Get {
                            url: "http://127.0.0.1:".to_owned().concat(
                                dec(port as u64).as_str(),
                            ).concat(h.path.as_str()),
                            timeout_secs: h.timeout_secs,
                        },
                    ),
                    None => None,
                };
                match get {
                    Some(step) => {
                        self.phase = GatePhase::Checking;
                        step
                    },
                    None => self.pass(),
                }
            },
            GateEvent::Healthy(ok) => {
                if ok {
                    self.pass()
                } else {
                    self.phase = GatePhase::Resting;
                    GateStep::Rest
                }
            },
            GateEvent::Rested => {
                self.phase = GatePhase::Clock;
                GateStep::ReadClock
            },
        }
    }
}

// -------------------------------------------------------------------------- the rollout

#[derive(Debug, Clone, Copy, PartialEq, Eq, Structural)]
pub enum RollStage {
    Starting,
    Gating,
    Over,
}

/// New replicas on their way. The old ones keep serving all along.
#[derive(Debug)]
pub struct Rollout {
    /// Replica numbers start here, so that names never collide with containers that are
    /// still running.
    pub base: u8,
    pub want: u8,
    pub fresh: Vec<ReplicaRecord>,
    pub stage: RollStage,
}

/// The contents of a `Rollout`.
pub struct RolloutView {
    pub base: u8,
    pub want: u8,
    pub fresh: Seq<ReplicaRecordView>,
    pub stage: RollStage,
}

impl View for Rollout {
    type V = RolloutView;

    open spec fn view(&self) -> RolloutView {
        RolloutView {
            base: self.base,
            want: self.want,
            fresh: state::replica_record_views(self.fresh@),
            stage: self.stage,
        }
    }
}

#[derive(Debug)]
pub enum RollEvent {
    /// There was no free port.
    NoPort(HadesError),
    Started(ReplicaRecord),
    NotStarted(HadesError),
    Ready,
    NotReady(HadesError),
}

/// The contents of a `RollEvent`.
pub enum RollEventView {
    NoPort(ErrorView),
    Started(ReplicaRecordView),
    NotStarted(ErrorView),
    Ready,
    NotReady(ErrorView),
}

impl View for RollEvent {
    type V = RollEventView;

    open spec fn view(&self) -> RollEventView {
        match self {
            RollEvent::NoPort(x) => RollEventView::NoPort(x@),
            RollEvent::Started(x) => RollEventView::Started(x@),
            RollEvent::NotStarted(x) => RollEventView::NotStarted(x@),
            RollEvent::Ready => RollEventView::Ready,
            RollEvent::NotReady(x) => RollEventView::NotReady(x@),
        }
    }
}

#[derive(Debug)]
pub enum RollStep {
    Start { index: u8 },
    /// Run the readiness gate before the new replicas.
    Gate,
    /// The new replicas take over.
    Swap(Vec<ReplicaRecord>),
    /// Remove these containers and give up.
    Abandon { remove: Vec<String>, error: HadesError },
    Fail(HadesError),
}

/// The contents of a `RollStep`.
pub enum RollStepView {
    Start { index: u8 },
    Gate,
    Swap(Seq<ReplicaRecordView>),
    Abandon { remove: Seq<Seq<char>>, error: ErrorView },
    Fail(ErrorView),
}

impl View for RollStep {
    type V = RollStepView;

    open spec fn view(&self) -> RollStepView {
        match self {
            RollStep::Start { index } => RollStepView::Start {
                index: *index,
            },
            RollStep::Gate => RollStepView::Gate,
            RollStep::Swap(x) => RollStepView::Swap(state::replica_record_views(x@)),
            RollStep::Abandon { remove, error } => RollStepView::Abandon {
                remove: split::views(remove@),
                error: error@,
            },
            RollStep::Fail(x) => RollStepView::Fail(x@),
        }
    }
}

pub open spec fn ids_of(replicas: Seq<ReplicaRecordView>) -> Seq<Seq<char>> {
    Seq::new(replicas.len(), |i: int| replicas[i].container_id)
}

/// The containers of some replicas.
pub fn container_ids(replicas: &Vec<ReplicaRecord>) -> (r: Vec<String>)
    ensures
        split::views(r@) == ids_of(state::replica_record_views(replicas@)),
{
    let mut out: Vec<String> = Vec::new();
    let mut i: usize = 0;
    while i < replicas.len()
        invariant
            i <= replicas.len(),
            out@.len() == i,
            forall|j: int| 0 <= j < i ==> (#[trigger] out@[j])@ == replicas@[j].container_id@,
        decreases replicas.len() - i,
    {
        out.push(replicas[i].container_id.clone());
        i += 1;
    }
    assert(split::views(out@) =~= ids_of(state::replica_record_views(replicas@)));
    out
}

/// The number of the replica at a place.
pub open spec fn index_of(base: u8, place: nat) -> u8 {
    ((base + place) % 256) as u8
}

pub open spec fn rollout_of(base: u8, want: u8) -> RolloutView {
    RolloutView {
        base,
        want,
        fresh: Seq::empty(),
        stage: if want == 0 {
            RollStage::Gating
        } else {
            RollStage::Starting
        },
    }
}

impl RolloutView {
    pub open spec fn wf(self) -> bool {
        &&& self.fresh.len() <= self.want
        &&& self.stage == RollStage::Starting ==> self.fresh.len() < self.want
        &&& self.stage == RollStage::Gating ==> self.fresh.len() == self.want
    }

    pub open spec fn awaits(self, event: RollEventView) -> bool {
        match self.stage {
            RollStage::Starting => event is NoPort || event is Started || event is NotStarted,
            RollStage::Gating => event is Ready || event is NotReady,
            RollStage::Over => false,
        }
    }

    pub open spec fn to(self, stage: RollStage) -> RolloutView {
        RolloutView { stage, ..self }
    }

    /// A rollout after an event, and the next step. Where a replica does not start or does
    /// not become ready, those that were started are taken back; where no port is free, they
    /// are left to the reaper.
    pub open spec fn advance(self, event: RollEventView) -> (RolloutView, RollStepView) {
        match (self.stage, event) {
            (RollStage::Starting, RollEventView::Started(r)) => {
                let on = RolloutView { fresh: self.fresh.push(r), ..self };
                if on.fresh.len() < self.want {
                    (on, RollStepView::Start { index: index_of(self.base, on.fresh.len()) })
                } else {
                    (on.to(RollStage::Gating), RollStepView::Gate)
                }
            },
            (RollStage::Starting, RollEventView::NotStarted(e)) => (
                self.to(RollStage::Over),
                RollStepView::Abandon { remove: ids_of(self.fresh), error: e },
            ),
            (RollStage::Starting, RollEventView::NoPort(e)) => (
                self.to(RollStage::Over),
                RollStepView::Fail(e),
            ),
            (RollStage::Gating, RollEventView::Ready) => (
                self.to(RollStage::Over),
                RollStepView::Swap(self.fresh),
            ),
            (RollStage::Gating, RollEventView::NotReady(e)) => (
                self.to(RollStage::Over),
                RollStepView::Abandon { remove: ids_of(self.fresh), error: e },
            ),
            (_, _) => (self, RollStepView::Gate),
        }
    }
}

/// The first step of a rollout.
pub open spec fn first_step(base: u8, want: u8) -> RollStepView {
    if want == 0 {
        RollStepView::Gate
    } else {
        RollStepView::Start { index: base }
    }
}

impl Rollout {
    /// A rollout of so many replicas, and its first step.
    pub fn new(base: u8, want: u8) -> (r: (Rollout, RollStep))
        ensures
            r.0@ == rollout_of(base, want),
            r.0@.wf(),
            r.1@ == first_step(base, want),
    {
        let fresh: Vec<ReplicaRecord> = Vec::new();
        assert(state::replica_record_views(fresh@) =~= Seq::empty());
        if want == 0 {
            (Rollout { base, want, fresh, stage: RollStage::Gating }, RollStep::Gate)
        } else {
            (
                Rollout { base, want, fresh, stage: RollStage::Starting },
                RollStep::Start { index: base },
            )
        }
    }

    /// Takes in what came of the last step, and tells the next.
    pub fn next(&mut self, event: RollEvent) -> (r: RollStep)
        requires
            old(self)@.wf(),
            old(self)@.awaits(event@),
        ensures
            (final(self)@, r@) == old(self)@.advance(event@),
            final(self)@.wf(),
    {
        match event {
            RollEvent::Started(rec) => {
                let ghost before = self.fresh@;
                self.fresh.push(rec);
                assert(state::replica_record_views(self.fresh@) =~= state::replica_record_views(
                    before,
                ).push(rec@));
                if self.fresh.len() < self.want as usize {
                    let n = self.fresh.len() as u8;
                    RollStep::Start { index: self.base.wrapping_add(n) }
                } else {
                    self.stage = RollStage::Gating;
                    RollStep::Gate
                }
            },
            RollEvent::NotStarted(error) => {
                self.stage = RollStage::Over;
                RollStep::Abandon { remove: container_ids(&self.fresh), error }
            },
            RollEvent::NoPort(error) => {
                self.stage = RollStage::Over;
                RollStep::Fail(error)
            },
            RollEvent::Ready => {
                self.stage = RollStage::Over;
                RollStep::Swap(clone_replica_records(&self.fresh))
            },
            RollEvent::NotReady(error) => {
                self.stage = RollStage::Over;
                RollStep::Abandon { remove: container_ids(&self.fresh), error }
            },
        }
    }
}

// ---------------------------------------------------------------------------- laws

/// A gate after some events, and its last step.
pub open spec fn gate_after(gate: ReadyGateView, events: Seq<GateEventView>) -> (
    ReadyGateView,
    GateStepView,
)
    decreases events.len(),
{
    if events.len() == 0 {
        (
            gate,
            if gate.phase == GatePhase::Over {
                GateStepView::Open
            } else {
                GateStepView::ReadClock
            },
        )
    } else {
        gate_after(gate, events.drop_last()).0.advance(events.last())
    }
}

pub open spec fn gate_in_turn(gate: ReadyGateView, events: Seq<GateEventView>) -> bool
    decreases events.len(),
{
    events.len() == 0 || gate_in_turn(gate, events.drop_last()) && gate_after(
        gate,
        events.drop_last(),
    ).0.awaits(events.last())
}

/// How many replicas these events have shown to be ready: each by a connection, or by
/// its health path where one is declared.
pub open spec fn shown_ready(events: Seq<GateEventView>, with_health: bool) -> nat
    decreases events.len(),
{
    if events.len() == 0 {
        0
    } else {
        let before = shown_ready(events.drop_last(), with_health);
        match events.last() {
            GateEventView::Connected(ok) => if ok && !with_health {
                before + 1
            } else {
                before
            },
            GateEventView::Healthy(ok) => if ok && with_health {
                before + 1
            } else {
                before
            },
            _ => before,
        }
    }
}

/// Traffic waits for every replica: a rollout counts as ready only once each of the new
/// replicas has been shown to be ready, and it is given up only when the time has run out.
pub proof fn traffic_waits_for_every_replica(
    replicas: Seq<ReplicaRecordView>,
    health: Option<HealthCheckView>,
    events: Seq<GateEventView>,
)
    requires
        replicas.len() <= usize::MAX,
        gate_in_turn(gate_for(replicas, health), events),
    ensures
        gate_after(gate_for(replicas, health), events).1 is Open ==> shown_ready(
            events,
            health is Some,
        ) == replicas.len(),
        gate_after(gate_for(replicas, health), events).1 is Shut ==> events.len() > 0
            && events.last() == (GateEventView::Clock { late: true }),
{
    lemma_gate(replicas, health, events);
}

proof fn lemma_gate(
    replicas: Seq<ReplicaRecordView>,
    health: Option<HealthCheckView>,
    events: Seq<GateEventView>,
)
    requires
        replicas.len() <= usize::MAX,
        gate_in_turn(gate_for(replicas, health), events),
    ensures
        ({
            let now = gate_after(gate_for(replicas, health), events);
            &&& now.0.wf()
            &&& now.0.ports == ports_of(replicas)
            &&& now.0.health == health
            &&& now.0.at == shown_ready(events, health is Some)
            &&& now.1 is Open ==> now.0.at == replicas.len()
            &&& now.1 is Shut ==> events.len() > 0 && events.last() == (GateEventView::Clock {
                late: true,
            })
        }),
    decreases events.len(),
{
    if events.len() > 0 {
        lemma_gate(replicas, health, events.drop_last());
    }
}

/// A rollout after some events, and its last step.
pub open spec fn roll_after(base: u8, want: u8, events: Seq<RollEventView>) -> (
    RolloutView,
    RollStepView,
)
    decreases events.len(),
{
    if events.len() == 0 {
        (rollout_of(base, want), first_step(base, want))
    } else {
        roll_after(base, want, events.drop_last()).0.advance(events.last())
    }
}

pub open spec fn roll_in_turn(base: u8, want: u8, events: Seq<RollEventView>) -> bool
    decreases events.len(),
{
    events.len() == 0 || roll_in_turn(base, want, events.drop_last()) && roll_after(
        base,
        want,
        events.drop_last(),
    ).0.awaits(events.last())
}

/// The replicas that were started.
pub open spec fn started(events: Seq<RollEventView>) -> Seq<ReplicaRecordView>
    decreases events.len(),
{
    if events.len() == 0 {
        Seq::empty()
    } else {
        match events.last() {
            RollEventView::Started(r) => started(events.drop_last()).push(r),
            _ => started(events.drop_last()),
        }
    }
}

/// A rollout removes nothing but its own: the containers that are removed when it is
/// abandoned are exactly those that it started, so the old replicas keep serving. It
/// swaps only when as many replicas as wanted were started and found ready, and
/// exactly these take over.
pub proof fn rollouts_touch_only_their_own(base: u8, want: u8, events: Seq<RollEventView>)
    requires
        roll_in_turn(base, want, events),
    ensures
        match roll_after(base, want, events).1 {
            RollStepView::Abandon { remove, .. } => remove == ids_of(started(events)),
            RollStepView::Swap(fresh) => fresh == started(events) && fresh.len() == want
                && events.len() > 0 && events.last() is Ready,
            _ => true,
        },
{
    lemma_roll(base, want, events);
}

proof fn lemma_roll(base: u8, want: u8, events: Seq<RollEventView>)
    requires
        roll_in_turn(base, want, events),
    ensures
        ({
            let now = roll_after(base, want, events);
            &&& now.0.wf()
            &&& now.0.base == base
            &&& now.0.want == want
            &&& now.0.fresh =~= started(events)
            &&& match now.1 {
                RollStepView::Abandon { remove, .. } => remove == ids_of(started(events)),
                RollStepView::Swap(fresh) => fresh == started(events) && fresh.len() == want
                    && events.len() > 0 && events.last() is Ready,
                _ => true,
            }
        }),
    decreases events.len(),
{
    if events.len() > 0 {
        lemma_roll(base, want, events.drop_last());
    }
}

/// The list of containers names each replica's own container, in order.
pub proof fn containers_are_those_of_the_replicas(replicas: Seq<ReplicaRecordView>, i: int)
    requires
        0 <= i < replicas.len(),
    ensures
        ids_of(replicas).len() == replicas.len(),
        ids_of(replicas)[i] == replicas[i].container_id,
{
}

/// The replicas are tried one after the other, each on its own port, until it is shown to be
/// ready: by a connection to the port, and where a health path is declared, by a request for
/// that path on that port. Traffic is let in only after the last one.
pub proof fn every_replica_is_tried_on_its_own_port(
    replicas: Seq<ReplicaRecordView>,
    health: Option<HealthCheckView>,
    events: Seq<GateEventView>,
)
    requires
        replicas.len() <= usize::MAX,
        gate_in_turn(gate_for(replicas, health), events),
    ensures
        ({
            let ready = shown_ready(events, health is Some);
            &&& ready <= replicas.len()
            &&& match gate_after(gate_for(replicas, health), events).1 {
                GateStepView::Connect { port } => ready < replicas.len() && port
                    == replicas[ready as int].host_port,
                GateStepView::Get { url, timeout_secs } => ready < replicas.len()
                    && events.last() == GateEventView::Connected(true) && (health matches Some(h)
                    && url == "http://127.0.0.1:"@ + text::decimal(
                    replicas[ready as int].host_port as nat,
                ) + h.path && timeout_secs == h.timeout_secs),
                GateStepView::Open => ready == replicas.len(),
                GateStepView::Shut(e) => ready < replicas.len() && e == ErrorView::Other(
                    "replica on port "@ + text::decimal(replicas[ready as int].host_port as nat)
                        + " not ready within 60s"@,
                ),
                GateStepView::ReadClock | GateStepView::Rest => ready < replicas.len(),
            }
        }),
{
    lemma_gate(replicas, health, events);
    lemma_gate_step(replicas, health, events);
}

proof fn lemma_gate_step(
    replicas: Seq<ReplicaRecordView>,
    health: Option<HealthCheckView>,
    events: Seq<GateEventView>,
)
    requires
        replicas.len() <= usize::MAX,
        gate_in_turn(gate_for(replicas, health), events),
    ensures
        ({
            let now = gate_after(gate_for(replicas, health), events);
            let ready = shown_ready(events, health is Some);
            &&& now.1 is Open <==> now.0.at == replicas.len()
            &&& now.1 is Shut || now.1 is Open <==> now.0.phase == GatePhase::Over
            &&& now.1 is Connect <==> now.0.phase == GatePhase::Connecting
            &&& now.1 is Get <==> now.0.phase == GatePhase::Checking
            &&& match now.1 {
                GateStepView::Connect { port } => port == replicas[ready as int].host_port,
                GateStepView::Get { url, timeout_secs } => events.last()
                    == GateEventView::Connected(true) && (health matches Some(h) && url
                    == health_url(replicas[ready as int].host_port, h.path) && timeout_secs
                    == h.timeout_secs),
                GateStepView::Shut(e) => e == ErrorView::Other(
                    "replica on port "@ + text::decimal(replicas[ready as int].host_port as nat)
                        + " not ready within 60s"@,
                ),
                _ => true,
            }
        }),
    decreases events.len(),
{
    lemma_gate(replicas, health, events);
    if events.len() > 0 {
        lemma_gate(replicas, health, events.drop_last());
        lemma_gate_step(replicas, health, events.drop_last());
    }
}

/// A rollout asks for one replica after the other, each with the next number, until there are
/// as many as wanted; only after that they must show that they are ready. What went wrong is what is told, and what
/// was started is what is removed.
pub proof fn rollouts_start_as_many_as_wanted(base: u8, want: u8, events: Seq<RollEventView>)
    requires
        roll_in_turn(base, want, events),
    ensures
        ({
            let made = started(events);
            &&& made.len() <= want
            &&& match roll_after(base, want, events).1 {
                RollStepView::Start { index } => made.len() < want && index == (base + made.len())
                    % 256,
                RollStepView::Gate => made.len() == want,
                RollStepView::Swap(fresh) => fresh == made && made.len() == want && events.last()
                    is Ready,
                RollStepView::Abandon { remove, error } => remove.len() == made.len() && (forall|
                    i: int,
                |
                    0 <= i < made.len() ==> #[trigger] remove[i] == made[i].container_id) && (
                events.last() == RollEventView::NotStarted(error) || events.last()
                    == RollEventView::NotReady(error)),
                RollStepView::Fail(error) => events.last() == RollEventView::NoPort(error),
            }
        }),
{
    lemma_roll(base, want, events);
    lemma_roll_step(base, want, events);
}

proof fn lemma_roll_step(base: u8, want: u8, events: Seq<RollEventView>)
    requires
        roll_in_turn(base, want, events),
    ensures
        ({
            let now = roll_after(base, want, events);
            &&& now.1 is Start <==> now.0.stage == RollStage::Starting
            &&& now.1 is Gate <==> now.0.stage == RollStage::Gating
            &&& match now.1 {
                RollStepView::Start { index } => index == (base + started(events).len()) % 256,
                RollStepView::Abandon { error, .. } => events.len() > 0 && (events.last()
                    == RollEventView::NotStarted(error) || events.last()
                    == RollEventView::NotReady(error)),
                RollStepView::Fail(error) => events.len() > 0 && events.last()
                    == RollEventView::NoPort(error),
                _ => true,
            }
        }),
    decreases events.len(),
{
    lemma_roll(base, want, events);
    if events.len() > 0 {
        lemma_roll(base, want, events.drop_last());
        lemma_roll_step(base, want, events.drop_last());
    }
}

/// What is done next follows from what was just seen: a replica is tried while there is time
/// and given up when there is none; after a failure there is a pause and another try; after a
/// success comes the health path, the next replica, or the end.
pub proof fn what_was_seen_decides_what_is_tried(
    replicas: Seq<ReplicaRecordView>,
    health: Option<HealthCheckView>,
    events: Seq<GateEventView>,
)
    requires
        replicas.len() <= usize::MAX,
        events.len() > 0,
        gate_in_turn(gate_for(replicas, health), events),
    ensures
        ({
            let step = gate_after(gate_for(replicas, health), events).1;
            let all = shown_ready(events, health is Some) == replicas.len();
            match events.last() {
                GateEventView::Clock { late } => if late {
                    step is Shut
                } else {
                    step is Connect
                },
                GateEventView::Connected(ok) => if !ok {
                    step is Rest
                } else if health is Some {
                    step is Get
                } else if all {
                    step is Open
                } else {
                    step is ReadClock
                },
                GateEventView::Healthy(ok) => if !ok {
                    step is Rest
                } else if all {
                    step is Open
                } else {
                    step is ReadClock
                },
                GateEventView::Rested => step is ReadClock,
            }
        }),
{
    lemma_gate(replicas, health, events);
    lemma_gate(replicas, health, events.drop_last());
}

/// A rollout goes on as long as all goes well: with the next replica, with waiting for those
/// that were started, and at last with the swap. What goes wrong ends it.
pub proof fn rollouts_go_on_while_all_goes_well(base: u8, want: u8, events: Seq<RollEventView>)
    requires
        events.len() > 0,
        roll_in_turn(base, want, events),
    ensures
        ({
            let step = roll_after(base, want, events).1;
            match events.last() {
                RollEventView::Started(_) => if started(events).len() < want {
                    step is Start
                } else {
                    step is Gate
                },
                RollEventView::NotStarted(_) | RollEventView::NotReady(_) => step is Abandon,
                RollEventView::NoPort(_) => step is Fail,
                RollEventView::Ready => step is Swap,
            }
        }),
{
    lemma_roll(base, want, events);
    lemma_roll(base, want, events.drop_last());
}

} // verus!
