//! Deploying: an idempotent upsert. A deploy is placed on the machine with the most
//! room or where it was pinned; on this host it must pass the doctor and admission, its
//! image is built or pulled, and its replicas are rolled over.
use vstd::prelude::*;

use crate::app_spec::{AppSpec, AppSpecView};
use crate::daemon;
use crate::daemon::{Daemon, DaemonView};
use crate::error::{ErrorView, HadesError};
use crate::events::{HostEvent, HostEventView};
use crate::fleet;
use crate::ledger;
use crate::rollout;
use crate::rollout::{
    container_ids, RollEvent, RollEventView, RollStep, RollStepView, Rollout, RolloutView,
};
use crate::runtime;
use crate::runtime::{EngineInfo, Runtime};
use crate::split;
use crate::split::join;
use crate::state;
use crate::state::{
    clone_replica_records, AppRecord, AppRecordView, ReplicaRecord, ReplicaRecordView,
};
use crate::text::same;
use crate::time::Timestamp;
use crate::types::{
    AppInfoView, AppState, DeployResponse, DeployResponseView, ResourceLedger, ResourceLedgerView,
};

verus! {

/// What a deployed app needs to be reached from outside.
#[derive(Debug)]
pub enum TunnelWish {
    Nothing,
    /// Point DNS at the host's named tunnel.
    Dns { domain: String, tunnel: String, host: String },
    /// Start the tunnel task of the app.
    Start,
}

/// The contents of a `TunnelWish`.
pub enum TunnelWishView {
    Nothing,
    Dns { domain: Seq<char>, tunnel: Seq<char>, host: Seq<char> },
    Start,
}

impl View for TunnelWish {
    type V = TunnelWishView;

    open spec fn view(&self) -> TunnelWishView {
        match self {
            TunnelWish::Nothing => TunnelWishView::Nothing,
            TunnelWish::Dns { domain, tunnel, host } => TunnelWishView::Dns {
                domain: domain@,
                tunnel: tunnel@,
                host: host@,
            },
            TunnelWish::Start => TunnelWishView::Start,
        }
    }
}

#[derive(Debug)]
pub enum DeployStage {
    Placing,
    /// On its way to this device.
    Away(String),
    Admitting,
    Imaging,
    Rolling { image: String, replaced: bool, old: Vec<ReplicaRecord>, roll: Rollout },
    Retiring { replaced: bool },
    Over,
}

/// The contents of a `DeployStage`.
pub enum DeployStageView {
    Placing,
    Away(Seq<char>),
    Admitting,
    Imaging,
    Rolling { image: Seq<char>, replaced: bool, old: Seq<ReplicaRecordView>, roll: RolloutView },
    Retiring { replaced: bool },
    Over,
}

impl View for DeployStage {
    type V = DeployStageView;

    open spec fn view(&self) -> DeployStageView {
        match self {
            DeployStage::Placing => DeployStageView::Placing,
            DeployStage::Away(x) => DeployStageView::Away(x@),
            DeployStage::Admitting => DeployStageView::Admitting,
            DeployStage::Imaging => DeployStageView::Imaging,
            DeployStage::Rolling { image, replaced, old, roll } => DeployStageView::Rolling {
                image: image@,
                replaced: *replaced,
                old: state::replica_record_views(old@),
                roll: roll@,
            },
            DeployStage::Retiring { replaced } => DeployStageView::Retiring {
                replaced: *replaced,
            },
            DeployStage::Over => DeployStageView::Over,
        }
    }
}

/// A deploy under way.
#[derive(Debug)]
pub struct DeployRun {
    pub spec: AppSpec,
    /// Was a build context uploaded?
    pub has_context: bool,
    pub stage: DeployStage,
}

/// The contents of a `DeployRun`.
pub struct DeployRunView {
    pub spec: AppSpecView,
    pub has_context: bool,
    pub stage: DeployStageView,
}

impl View for DeployRun {
    type V = DeployRunView;

    open spec fn view(&self) -> DeployRunView {
        DeployRunView {
            spec: self.spec@,
            has_context: self.has_context,
            stage: self.stage@,
        }
    }
}

/// What came of a step.
#[derive(Debug)]
pub enum DeployEvent {
    Engine { info: EngineInfo, mac_memory_mb: Option<u64> },
    NoEngine(HadesError),
    DeployedThere(DeployResponse),
    NotDeployedThere(HadesError),
    Built(String),
    Pulled,
    NoImage(HadesError),
    Roll(RollEvent),
    Retired,
}

/// The contents of a `DeployEvent`.
pub enum DeployEventView {
    Engine { info: EngineInfo, mac_memory_mb: Option<u64> },
    NoEngine(ErrorView),
    DeployedThere(DeployResponseView),
    NotDeployedThere(ErrorView),
    Built(Seq<char>),
    Pulled,
    NoImage(ErrorView),
    Roll(RollEventView),
    Retired,
}

impl View for DeployEvent {
    type V = DeployEventView;

    open spec fn view(&self) -> DeployEventView {
        match self {
            DeployEvent::Engine { info, mac_memory_mb } => DeployEventView::Engine {
                info: *info,
                mac_memory_mb: *mac_memory_mb,
            },
            DeployEvent::NoEngine(x) => DeployEventView::NoEngine(x@),
            DeployEvent::DeployedThere(x) => DeployEventView::DeployedThere(x@),
            DeployEvent::NotDeployedThere(x) => DeployEventView::NotDeployedThere(x@),
            DeployEvent::Built(x) => DeployEventView::Built(x@),
            DeployEvent::Pulled => DeployEventView::Pulled,
            DeployEvent::NoImage(x) => DeployEventView::NoImage(x@),
            DeployEvent::Roll(x) => DeployEventView::Roll(x@),
            DeployEvent::Retired => DeployEventView::Retired,
        }
    }
}

/// A deploy that failed: with the ledger where memory was the matter, and an event to
/// be told.
#[derive(Debug)]
pub struct DeployFailure {
    pub error: HadesError,
    pub ledger: Option<ResourceLedger>,
    pub event: Option<HostEvent>,
}

/// The contents of a `DeployFailure`.
pub struct DeployFailureView {
    pub error: ErrorView,
    pub ledger: Option<ResourceLedgerView>,
    pub event: Option<HostEventView>,
}

impl View for DeployFailure {
    type V = DeployFailureView;

    open spec fn view(&self) -> DeployFailureView {
        DeployFailureView {
            error: self.error@,
            ledger: match self.ledger {
                Some(x) => Some(x@),
                None => None,
            },
            event: match self.event {
                Some(x) => Some(x@),
                None => None,
            },
        }
    }
}

#[derive(Debug)]
pub struct DeployDone {
    pub response: DeployResponse,
    pub event: HostEvent,
    pub tunnel: TunnelWish,
}

/// The contents of a `DeployDone`.
pub struct DeployDoneView {
    pub response: DeployResponseView,
    pub event: HostEventView,
    pub tunnel: TunnelWishView,
}

impl View for DeployDone {
    type V = DeployDoneView;

    open spec fn view(&self) -> DeployDoneView {
        DeployDoneView {
            response: self.response@,
            event: self.event@,
            tunnel: self.tunnel@,
        }
    }
}

/// What is to be done next for a deploy.
#[derive(Debug)]
pub enum DeployStep {
    ReadEngine,
    /// Deploy on this device, as its own.
    DeployOn(String),
    Build { dockerfile: String },
    Pull { image: String },
    Start { image: String, index: u8 },
    Gate(Vec<ReplicaRecord>),
    /// Remove these containers, and fail.
    Abandon { remove: Vec<String>, error: HadesError },
    /// Remove these containers; the new ones have taken over.
    Retire(Vec<String>),
    Done(DeployDone),
    Failed(DeployFailure),
}

/// The contents of a `DeployStep`.
pub enum DeployStepView {
    ReadEngine,
    DeployOn(Seq<char>),
    Build { dockerfile: Seq<char> },
    Pull { image: Seq<char> },
    Start { image: Seq<char>, index: u8 },
    Gate(Seq<ReplicaRecordView>),
    Abandon { remove: Seq<Seq<char>>, error: ErrorView },
    Retire(Seq<Seq<char>>),
    Done(DeployDoneView),
    Failed(DeployFailureView),
}

impl View for DeployStep {
    type V = DeployStepView;

    open spec fn view(&self) -> DeployStepView {
        match self {
            DeployStep::ReadEngine => DeployStepView::ReadEngine,
            DeployStep::DeployOn(x) => DeployStepView::DeployOn(x@),
            DeployStep::Build { dockerfile } => DeployStepView::Build {
                dockerfile: dockerfile@,
            },
            DeployStep::Pull { image } => DeployStepView::Pull {
                image: image@,
            },
            DeployStep::Start { image, index } => DeployStepView::Start {
                image: image@,
                index: *index,
            },
            DeployStep::Gate(x) => DeployStepView::Gate(state::replica_record_views(x@)),
            DeployStep::Abandon { remove, error } => DeployStepView::Abandon {
                remove: split::views(remove@),
                error: error@,
            },
            DeployStep::Retire(x) => DeployStepView::Retire(split::views(x@)),
            DeployStep::Done(x) => DeployStepView::Done(x@),
            DeployStep::Failed(x) => DeployStepView::Failed(x@),
        }
    }
}

/// The daemon, the deploy and the step that an event leads to.
pub struct DeployMove {
    pub daemon: DaemonView,
    pub run: DeployRunView,
    pub step: DeployStepView,
}

pub open spec fn failure(error: ErrorView) -> DeployStepView {
    DeployStepView::Failed(DeployFailureView { error, ledger: None, event: None })
}

/// The number of the first replica that a deploy starts, given the app as it runs. The
/// generations of an app take turns.
pub open spec fn deploy_base(previous: Option<AppRecordView>) -> u8 {
    match previous {
        None => 0,
        Some(rec) => if rec.numbered_from == 100 {
            0
        } else {
            100
        },
    }
}

/// The number of the first replica that a roll in place starts.
pub open spec fn roll_base(rec: AppRecordView) -> u8 {
    if rec.numbered_from == 150 {
        100
    } else {
        150
    }
}

impl DeployRunView {
    pub open spec fn to(self, stage: DeployStageView) -> DeployRunView {
        DeployRunView { stage, ..self }
    }

    pub open spec fn wf(self) -> bool {
        &&& self.stage is Admitting || self.stage is Imaging ==> self.spec.valid()
        &&& self.stage matches DeployStageView::Rolling { roll, .. } ==> roll.wf()
    }

    /// Can this event come of the step that the deploy waits for?
    pub open spec fn awaits(self, event: DeployEventView) -> bool {
        match self.stage {
            DeployStageView::Placing | DeployStageView::Admitting => event is Engine
                || event is NoEngine,
            DeployStageView::Away(_) => event is DeployedThere || event is NotDeployedThere,
            DeployStageView::Imaging => event is NoImage || if self.spec.build is Some {
                event is Built
            } else {
                event is Pulled
            },
            DeployStageView::Rolling { roll, .. } => event matches DeployEventView::Roll(e)
                && roll.awaits(e),
            DeployStageView::Retiring { .. } => event is Retired,
            DeployStageView::Over => false,
        }
    }

    /// The deploy stays on this host. A stale remote placement is cleared, and the
    /// doctor must be content.
    pub open spec fn stay(self, d: DaemonView) -> DeployMove {
        let daemon = d.with_store(
            d.store.with_placements(d.store.fleet.placements.remove(self.spec.name)),
        );
        if !d.doctor_green {
            DeployMove {
                daemon,
                run: self.to(DeployStageView::Over),
                step: failure(
                    ErrorView::DoctorRed(
                        "host not ready ("@ + split::joined(d.doctor_failed, ", "@)
                            + ") — run `hades host doctor`"@,
                    ),
                ),
            }
        } else {
            DeployMove {
                daemon,
                run: self.to(DeployStageView::Admitting),
                step: DeployStepView::ReadEngine,
            }
        }
    }

    pub open spec fn go(self, d: DaemonView, device: Seq<char>) -> DeployMove {
        DeployMove {
            daemon: d,
            run: self.to(DeployStageView::Away(device)),
            step: DeployStepView::DeployOn(device),
        }
    }

    pub open spec fn fail(self, d: DaemonView, error: ErrorView) -> DeployMove {
        DeployMove { daemon: d, run: self.to(DeployStageView::Over), step: failure(error) }
    }

    /// The first step of a deploy: a pinned device, or this host where it is alone or
    /// meant by "local"; else the machine with the most room is looked for.
    pub open spec fn begin(self, d: DaemonView, device: Option<Seq<char>>) -> DeployMove {
        match self.spec.fault() {
            Some(f) => self.fail(d, ErrorView::InvalidSpec(f)),
            None => match device {
                Some(name) => if name == "local"@ || name.len() == 0 {
                    self.stay(d)
                } else if fleet::device_named(d.store.fleet.devices, name) is None {
                    self.fail(d, ErrorView::AppNotFound("no fleet device named '"@ + name + "'"@))
                } else {
                    self.go(d, name)
                },
                None => if d.store.fleet.devices.len() == 0 {
                    self.stay(d)
                } else {
                    DeployMove {
                        daemon: d,
                        run: self.to(DeployStageView::Placing),
                        step: DeployStepView::ReadEngine,
                    }
                },
            },
        }
    }

    /// The machine is chosen, given what is free here.
    pub open spec fn place(self, d: DaemonView, self_free: u64) -> DeployMove {
        match fleet::chosen(
            d.store.fleet.devices,
            d.fleet_status,
            ledger::requested(self.spec) as u64,
            self_free,
        ) {
            Some(dev) => self.go(d, dev),
            None => self.stay(d),
        }
    }

    /// Another machine has taken the deploy.
    pub open spec fn settled_there(
        self,
        d: DaemonView,
        device: Seq<char>,
        response: DeployResponseView,
    ) -> DeployMove {
        DeployMove {
            daemon: d.with_store(
                d.store.with_placements(
                    d.store.fleet.placements.insert(self.spec.name, device),
                ),
            ),
            run: self.to(DeployStageView::Over),
            step: DeployStepView::Done(
                DeployDoneView {
                    response: DeployResponseView {
                        app: AppInfoView { device: Some(device), ..response.app },
                        ..response
                    },
                    event: HostEventView::AppDeployed {
                        app: self.spec.name + " → "@ + device,
                        replaced: response.replaced,
                    },
                    tunnel: TunnelWishView::Nothing,
                },
            ),
        }
    }

    /// There is room: the image is built from the uploaded context, or pulled.
    pub open spec fn get_image(self, d: DaemonView) -> DeployMove {
        match self.spec.build {
            Some(build) => if self.has_context {
                DeployMove {
                    daemon: d,
                    run: self.to(DeployStageView::Imaging),
                    step: DeployStepView::Build { dockerfile: build.dockerfile },
                }
            } else {
                self.fail(
                    d,
                    ErrorView::InvalidSpec(
                        "spec has [build] but no context tarball was uploaded"@,
                    ),
                )
            },
            None => DeployMove {
                daemon: d,
                run: self.to(DeployStageView::Imaging),
                step: DeployStepView::Pull { image: self.spec.image->0 },
            },
        }
    }

    pub open spec fn admitted(
        self,
        d: DaemonView,
        info: EngineInfo,
        mac_memory_mb: Option<u64>,
    ) -> DeployMove {
        let l = ledger::ledger_for(
            d.config.reserve_pct,
            info,
            match mac_memory_mb {
                Some(m) => m,
                None => 0,
            },
            d.store.app_list(),
        );
        if ledger::fits(l, self.spec) {
            self.get_image(d)
        } else {
            let reason = ledger::rejection(l, self.spec);
            DeployMove {
                daemon: d,
                run: self.to(DeployStageView::Over),
                step: DeployStepView::Failed(
                    DeployFailureView {
                        error: ErrorView::AdmissionRejected(reason),
                        ledger: Some(l),
                        event: Some(
                            HostEventView::DeployRejected { app: self.spec.name, reason },
                        ),
                    },
                ),
            }
        }
    }

    /// The image is there: new replicas are started on fresh ports, and numbered so
    /// that they never collide with the ones that run.
    pub open spec fn roll(self, d: DaemonView, image: Seq<char>) -> DeployMove {
        let previous = d.store.app(self.spec.name);
        let base = deploy_base(previous);
        DeployMove {
            daemon: d,
            run: self.to(
                DeployStageView::Rolling {
                    image,
                    replaced: previous is Some,
                    old: match previous {
                        Some(r) => r.replicas,
                        None => Seq::empty(),
                    },
                    roll: rollout::rollout_of(base, self.spec.replicas),
                },
            ),
            step: if self.spec.replicas == 0 {
                DeployStepView::Gate(Seq::empty())
            } else {
                DeployStepView::Start { image, index: base }
            },
        }
    }

    /// The record of an app whose new replicas have taken over.
    pub open spec fn swapped(
        self,
        d: DaemonView,
        fresh: Seq<ReplicaRecordView>,
        now: Timestamp,
    ) -> AppRecordView {
        AppRecordView {
            spec: self.spec,
            replicas: fresh,
            state: AppState::Running,
            paused_reason: None,
            numbered_from: self.stage->roll.base,
            ..match d.store.app(self.spec.name) {
                Some(r) => r,
                None => AppRecordView::fresh(self.spec, now),
            }
        }
    }

    /// What an event of the rollout leads to.
    pub open spec fn rolled(self, d: DaemonView, event: RollEventView, now: Timestamp) -> DeployMove {
        let image = self.stage->image;
        let replaced = self.stage->Rolling_replaced;
        let old = self.stage->old;
        let (roll, step) = self.stage->roll.advance(event);
        let on = self.to(DeployStageView::Rolling { image, replaced, old, roll });
        match step {
            RollStepView::Start { index } => DeployMove {
                daemon: d,
                run: on,
                step: DeployStepView::Start { image, index },
            },
            RollStepView::Gate => DeployMove {
                daemon: d,
                run: on,
                step: DeployStepView::Gate(roll.fresh),
            },
            RollStepView::Abandon { remove, error } => DeployMove {
                daemon: d,
                run: self.to(DeployStageView::Over),
                step: DeployStepView::Abandon { remove, error },
            },
            RollStepView::Fail(error) => self.fail(d, error),
            RollStepView::Swap(fresh) => DeployMove {
                daemon: d.with_store(
                    d.store.with_apps(
                        d.store.apps.insert(self.spec.name, self.swapped(d, fresh, now)),
                    ),
                ),
                run: self.to(DeployStageView::Retiring { replaced }),
                step: DeployStepView::Retire(rollout::ids_of(old)),
            },
        }
    }

    /// The deploy is done: the app's public name is seen to, and the deploy answered.
    pub open spec fn finish(self, d: DaemonView, replaced: bool) -> DeployMove {
        let name = self.spec.name;
        let starts = d.config.domain.name is None && d.provider;
        let tunnel = match d.config.domain.name {
            Some(domain) => match d.config.domain.tunnel_name {
                Some(tunnel) => TunnelWishView::Dns { domain, tunnel, host: name + "."@ + domain },
                None => TunnelWishView::Nothing,
            },
            None => if d.provider && !d.tunnels.contains(name) {
                TunnelWishView::Start
            } else {
                TunnelWishView::Nothing
            },
        };
        let daemon = if starts {
            d.with_tunnels(d.tunnels.insert(name))
        } else {
            d
        };
        DeployMove {
            daemon,
            run: self.to(DeployStageView::Over),
            step: DeployStepView::Done(
                DeployDoneView {
                    response: DeployResponseView {
                        app: daemon::info_of(daemon, d.store.apps[name]),
                        replaced,
                        tunnel_note: if d.config.domain.name is None && !d.provider {
                            Some(
                                "cloudflared not installed — local URL only (brew install cloudflared)"@,
                            )
                        } else {
                            None
                        },
                    },
                    event: HostEventView::AppDeployed { app: name, replaced },
                    tunnel,
                },
            ),
        }
    }

    /// What an event leads to.
    pub open spec fn advance(self, d: DaemonView, event: DeployEventView, now: Timestamp) -> DeployMove {
        match (self.stage, event) {
            (DeployStageView::Placing, DeployEventView::Engine { info, mac_memory_mb }) => {
                let l = ledger::ledger_for(
                    d.config.reserve_pct,
                    info,
                    match mac_memory_mb {
                        Some(m) => m,
                        None => 0,
                    },
                    d.store.app_list(),
                );
                self.place(d, fleet::left(l.allocatable_mb, l.allocated_mb))
            },
            (DeployStageView::Placing, DeployEventView::NoEngine(_)) => self.place(d, 0),
            (DeployStageView::Away(device), DeployEventView::DeployedThere(response)) => {
                self.settled_there(d, device, response)
            },
            (DeployStageView::Away(_), DeployEventView::NotDeployedThere(e)) => self.fail(d, e),
            (DeployStageView::Admitting, DeployEventView::Engine { info, mac_memory_mb }) => {
                self.admitted(d, info, mac_memory_mb)
            },
            (DeployStageView::Admitting, DeployEventView::NoEngine(e)) => DeployMove {
                daemon: d,
                run: self.to(DeployStageView::Over),
                step: DeployStepView::Failed(
                    DeployFailureView {
                        error: ErrorView::Docker("cannot read engine capacity: "@ + e.message()),
                        ledger: Some(ledger::blank_ledger(d.config.reserve_pct)),
                        event: None,
                    },
                ),
            },
            (DeployStageView::Imaging, DeployEventView::Built(image)) => self.roll(d, image),
            (DeployStageView::Imaging, DeployEventView::Pulled) => self.roll(
                d,
                self.spec.image->0,
            ),
            (DeployStageView::Imaging, DeployEventView::NoImage(e)) => self.fail(d, e),
            (DeployStageView::Rolling { .. }, DeployEventView::Roll(e)) => self.rolled(d, e, now),
            (DeployStageView::Retiring { replaced }, DeployEventView::Retired) => self.finish(
                d,
                replaced,
            ),
            (_, _) => self.fail(d, ErrorView::Other(""@)),
        }
    }
}

/// The figures that a deploy needs can be counted.
pub open spec fn countable(d: DaemonView, spec: AppSpecView, event: DeployEventView) -> bool {
    event matches DeployEventView::Engine { info, .. } ==> info.vm_memory_mb * d.config.reserve_pct
        <= u64::MAX && d.store.declared_mb() + ledger::requested(spec) <= u64::MAX
}

impl Daemon {
    fn failed(error: HadesError) -> (r: DeployStep)
        ensures
            r@ == failure(error@),
    {
        DeployStep::Failed(DeployFailure { error, ledger: None, event: None })
    }

    fn stay(&mut self, run: &mut DeployRun) -> (r: DeployStep)
        requires
            old(run)@.spec.valid(),
        ensures
            ({
                let m = old(run)@.stay(old(self)@);
                &&& final(self)@ == m.daemon
                &&& final(run)@ == m.run
                &&& r@ == m.step
            }),
            final(run)@.wf(),
            final(self).table == old(self).table,
    {
        self.store.unplace(run.spec.name.as_str());
        if !self.doctor_green {
            run.stage = DeployStage::Over;
            let why = join(&self.doctor_failed, ", ");
            Self::failed(
                HadesError::DoctorRed(
                    "host not ready (".to_owned().concat(why.as_str()).concat(
                        ") — run `hades host doctor`",
                    ),
                ),
            )
        } else {
            run.stage = DeployStage::Admitting;
            DeployStep::ReadEngine
        }
    }

    /// Begins a deploy. `device` pins it to a device of the fleet, or to this host.
    pub fn deploy(&mut self, spec: AppSpec, has_context: bool, device: Option<&str>) -> (r: (
        DeployRun,
        DeployStep,
    ))
        ensures
            ({
                let m = (DeployRunView {
                    spec: spec@,
                    has_context,
                    stage: DeployStageView::Over,
                }).begin(
                    old(self)@,
                    match device {
                        Some(n) => Some(n@),
                        None => None,
                    },
                );
                &&& final(self)@ == m.daemon
                &&& r.0@ == m.run
                &&& r.1@ == m.step
            }),
            r.0@.wf(),
            final(self).table == old(self).table,
    {
        let mut run = DeployRun { spec, has_context, stage: DeployStage::Over };
        match run.spec.validate() {
            Ok(()) => {},
            Err(e) => {
                return (run, Self::failed(e));
            },
        }
        match device {
            Some(name) => {
                if same(name, "local") || name.unicode_len() == 0 {
                    let step = self.stay(&mut run);
                    (run, step)
                } else if self.store.fleet.device(name).is_none() {
                    (
                        run,
                        Self::failed(
                            HadesError::AppNotFound(
                                "no fleet device named '".to_owned().concat(name).concat("'"),
                            ),
                        ),
                    )
                } else {
                    run.stage = DeployStage::Away(name.to_owned());
                    (run, DeployStep::DeployOn(name.to_owned()))
                }
            },
            None => {
                if self.store.fleet.devices.len() == 0 {
                    let step = self.stay(&mut run);
                    (run, step)
                } else {
                    run.stage = DeployStage::Placing;
                    (run, DeployStep::ReadEngine)
                }
            },
        }
    }

    fn place(&mut self, run: &mut DeployRun, self_free: u64) -> (r: DeployStep)
        requires
            old(run)@.spec.valid(),
            ledger::requested(old(run)@.spec) <= u64::MAX,
        ensures
            ({
                let m = old(run)@.place(old(self)@, self_free);
                &&& final(self)@ == m.daemon
                &&& final(run)@ == m.run
                &&& r@ == m.step
            }),
            final(run)@.wf(),
            final(self).table == old(self).table,
    {
        let needed: u64 = run.spec.resources.memory_mb * run.spec.replicas as u64;
        match self.store.fleet.choose_device(&self.fleet_status, needed, self_free) {
            Some(dev) => {
                run.stage = DeployStage::Away(dev.clone());
                DeployStep::DeployOn(dev)
            },
            None => self.stay(run),
        }
    }

    fn admit_here(
        &self,
        run: &mut DeployRun,
        info: EngineInfo,
        mac_memory_mb: Option<u64>,
    ) -> (r: DeployStep)
        requires
            old(run)@.spec.valid(),
            info.vm_memory_mb * self@.config.reserve_pct <= u64::MAX,
            self@.store.declared_mb() + ledger::requested(old(run)@.spec) <= u64::MAX,
        ensures
            ({
                let m = old(run)@.admitted(self@, info, mac_memory_mb);
                &&& self@ == m.daemon
                &&& final(run)@ == m.run
                &&& r@ == m.step
            }),
            final(run)@.wf(),
    {
        run.stage = DeployStage::Over;
        match self.store.admission(self.config.reserve_pct, Ok(info), mac_memory_mb, &run.spec) {
            Ok(()) => {},
            Err(x) => {
                return DeployStep::Failed(
                    DeployFailure { error: x.error, ledger: Some(x.ledger), event: x.event },
                );
            },
        }
        match &run.spec.build {
            Some(build) => {
                if run.has_context {
                    let dockerfile = build.dockerfile.clone();
                    run.stage = DeployStage::Imaging;
                    DeployStep::Build { dockerfile }
                } else {
                    Self::failed(
                        HadesError::InvalidSpec(
                            "spec has [build] but no context tarball was uploaded".to_owned(),
                        ),
                    )
                }
            },
            None => {
                let image = match &run.spec.image {
                    Some(i) => i.clone(),
                    None => "".to_owned(),
                };
                run.stage = DeployStage::Imaging;
                DeployStep::Pull { image }
            },
        }
    }

    fn roll(&self, run: &mut DeployRun, image: String) -> (r: DeployStep)
        ensures
            ({
                let m = old(run)@.roll(self@, image@);
                &&& self@ == m.daemon
                &&& final(run)@ == m.run
                &&& r@ == m.step
            }),
            final(run)@.wf(),
    {
        let (replaced, old_replicas, base) = match self.store.get(run.spec.name.as_str()) {
            Some(rec) => {
                let base: u8 = if rec.numbered_from == 100 {
                    0
                } else {
                    100
                };
                (true, rec.replicas, base)
            },
            None => {
                let none: Vec<ReplicaRecord> = Vec::new();
                assert(state::replica_record_views(none@) =~= Seq::empty());
                (false, none, 0u8)
            },
        };
        let (roll, _first) = Rollout::new(base, run.spec.replicas);
        let step = if run.spec.replicas == 0 {
            let none: Vec<ReplicaRecord> = Vec::new();
            assert(state::replica_record_views(none@) =~= Seq::empty());
            DeployStep::Gate(none)
        } else {
            DeployStep::Start { image: image.clone(), index: base }
        };
        run.stage = DeployStage::Rolling { image, replaced, old: old_replicas, roll };
        step
    }

    /// The new replicas take over: record, then routes.
    fn swap(&mut self, run: &DeployRun, fresh: Vec<ReplicaRecord>, base: u8, now: Timestamp)
        requires
            old(self).wf(),
        ensures
            ({
                let rec = AppRecordView {
                    numbered_from: base,
                    ..run@.swapped(old(self)@, state::replica_record_views(fresh@), now)
                };
                &&& final(self)@ == old(self)@.with_store(
                    old(self)@.store.with_apps(old(self)@.store.apps.insert(run@.spec.name, rec)),
                )
                &&& daemon::installed(final(self)@, rec, old(self).table, final(self).table)
            }),
            final(self).wf(),
            old(self)@.store.wf() ==> final(self)@.store.wf(),
    {
        let name = run.spec.name.clone();
        let mut rec = match self.store.take(name.as_str()) {
            Some(r) => r,
            None => AppRecord::new(run.spec.clone(), now),
        };
        rec.spec = run.spec.clone();
        rec.replicas = fresh;
        rec.state = AppState::Running;
        rec.paused_reason = None;
        rec.numbered_from = base;
        let kept = rec.clone();
        self.store.put(name.as_str(), kept);
        proof {
            let was = old(self)@.store.apps;
            assert(self@.store.apps =~= was.insert(name@, rec@));
        }
        self.install_routes(&rec);
    }

    fn rolled(
        &mut self,
        run: &mut DeployRun,
        event: RollEvent,
        now: Timestamp,
    ) -> (r: DeployStep)
        requires
            old(self).wf(),
            old(run)@.wf(),
            old(run)@.stage is Rolling,
            old(run)@.stage->roll.awaits(event@),
        ensures
            ({
                let m = old(run)@.rolled(old(self)@, event@, now);
                &&& final(self)@ == m.daemon
                &&& final(run)@ == m.run
                &&& r@ == m.step
            }),
            final(run)@.wf(),
            final(self).wf(),
            old(self)@.store.wf() ==> final(self)@.store.wf(),
            if r@ is Retire {
                daemon::installed(
                    final(self)@,
                    final(self)@.store.apps[old(run)@.spec.name],
                    old(self).table,
                    final(self).table,
                )
            } else {
                final(self).table == old(self).table
            },
    {
        let mut stage = DeployStage::Over;
        std::mem::swap(&mut run.stage, &mut stage);
        match stage {
            DeployStage::Rolling { image, replaced, old: old_replicas, roll } => {
                let mut roll = roll;
                match roll.next(event) {
                    RollStep::Start { index } => {
                        let step = DeployStep::Start { image: image.clone(), index };
                        run.stage = DeployStage::Rolling {
                            image,
                            replaced,
                            old: old_replicas,
                            roll,
                        };
                        step
                    },
                    RollStep::Gate => {
                        let step = DeployStep::Gate(clone_replica_records(&roll.fresh));
                        run.stage = DeployStage::Rolling {
                            image,
                            replaced,
                            old: old_replicas,
                            roll,
                        };
                        step
                    },
                    RollStep::Abandon { remove, error } => DeployStep::Abandon { remove, error },
                    RollStep::Fail(error) => Self::failed(error),
                    RollStep::Swap(fresh) => {
                        self.swap(run, fresh, roll.base, now);
                        run.stage = DeployStage::Retiring { replaced };
                        DeployStep::Retire(container_ids(&old_replicas))
                    },
                }
            },
            _ => Self::failed(HadesError::Other("".to_owned())),
        }
    }

    fn finish(&mut self, run: &mut DeployRun, replaced: bool) -> (r: DeployStep)
        requires
            old(self)@.store.apps.dom().contains(old(run)@.spec.name),
        ensures
            ({
                let m = old(run)@.finish(old(self)@, replaced);
                &&& final(self)@ == m.daemon
                &&& final(run)@ == m.run
                &&& r@ == m.step
            }),
            final(run)@.wf(),
            final(self).table == old(self).table,
    {
        run.stage = DeployStage::Over;
        let name = run.spec.name.clone();
        let mut note: Option<String> = None;
        let tunnel = match &self.config.domain.name {
            Some(domain) => match &self.config.domain.tunnel_name {
                Some(tunnel) => TunnelWish::Dns {
                    domain: domain.clone(),
                    tunnel: tunnel.clone(),
                    host: name.clone().concat(".").concat(domain.as_str()),
                },
                None => TunnelWish::Nothing,
            },
            None => {
                if self.provider {
                    if self.ensure_tunnel_task(name.as_str()) {
                        TunnelWish::Start
                    } else {
                        TunnelWish::Nothing
                    }
                } else {
                    note =
                    Some(
                        "cloudflared not installed — local URL only (brew install cloudflared)".to_owned(),
                    );
                    TunnelWish::Nothing
                }
            },
        };
        let info = match self.store.get(name.as_str()) {
            Some(rec) => self.app_info(&rec),
            None => {
                assert(false);
                return Self::failed(HadesError::AppNotFound(name));
            },
        };
        DeployStep::Done(
            DeployDone {
                response: DeployResponse { app: info, replaced, tunnel_note: note },
                event: HostEvent::AppDeployed { app: name, replaced },
                tunnel,
            },
        )
    }

    /// Takes in what came of a deploy's last step, and tells the next.
    pub fn deploy_next(
        &mut self,
        run: &mut DeployRun,
        event: DeployEvent,
        now: Timestamp,
    ) -> (r: DeployStep)
        requires
            old(self).wf(),
            old(run)@.wf(),
            old(run)@.spec.valid(),
            old(run)@.awaits(event@),
            countable(old(self)@, old(run)@.spec, event@),
            old(run)@.stage is Placing ==> ledger::requested(old(run)@.spec) <= u64::MAX,
            old(run)@.stage is Retiring ==> old(self)@.store.apps.dom().contains(
                old(run)@.spec.name,
            ),
        ensures
            ({
                let m = old(run)@.advance(old(self)@, event@, now);
                &&& final(self)@ == m.daemon
                &&& final(run)@ == m.run
                &&& r@ == m.step
            }),
            final(run)@.wf(),
            final(self).wf(),
            old(self)@.store.wf() ==> final(self)@.store.wf(),
            if r@ is Retire {
                daemon::installed(
                    final(self)@,
                    final(self)@.store.apps[old(run)@.spec.name],
                    old(self).table,
                    final(self).table,
                )
            } else {
                final(self).table == old(self).table
            },
    {
        match event {
            DeployEvent::Engine { info, mac_memory_mb } => {
                let placing = match &run.stage {
                    DeployStage::Placing => true,
                    _ => false,
                };
                if placing {
                    let l = self.store.resource_ledger(
                        self.config.reserve_pct,
                        info,
                        mac_memory_mb,
                    );
                    let free = l.allocatable_mb.saturating_sub(l.allocated_mb);
                    self.place(run, free)
                } else {
                    self.admit_here(run, info, mac_memory_mb)
                }
            },
            DeployEvent::NoEngine(e) => {
                let placing = match &run.stage {
                    DeployStage::Placing => true,
                    _ => false,
                };
                if placing {
                    return self.place(run, 0);
                }
                run.stage = DeployStage::Over;
                DeployStep::Failed(
                    DeployFailure {
                        error: HadesError::Docker(
                            "cannot read engine capacity: ".to_owned().concat(e.message().as_str()),
                        ),
                        ledger: Some(ledger::empty_ledger(self.config.reserve_pct)),
                        event: None,
                    },
                )
            },
            DeployEvent::DeployedThere(response) => {
                let mut stage = DeployStage::Over;
                std::mem::swap(&mut run.stage, &mut stage);
                let device = match stage {
                    DeployStage::Away(dev) => dev,
                    _ => "".to_owned(),
                };
                let mut response = response;
                response.app.device = Some(device.clone());
                self.store.place(run.spec.name.as_str(), device.as_str());
                let replaced = response.replaced;
                DeployStep::Done(
                    DeployDone {
                        response,
                        event: HostEvent::AppDeployed {
                            app: run.spec.name.clone().concat(" → ").concat(device.as_str()),
                            replaced,
                        },
                        tunnel: TunnelWish::Nothing,
                    },
                )
            },
            DeployEvent::NotDeployedThere(e) => {
                run.stage = DeployStage::Over;
                Self::failed(e)
            },
            DeployEvent::Built(image) => self.roll(run, image),
            DeployEvent::Pulled => {
                let image = match &run.spec.image {
                    Some(i) => i.clone(),
                    None => "".to_owned(),
                };
                self.roll(run, image)
            },
            DeployEvent::NoImage(e) => {
                run.stage = DeployStage::Over;
                Self::failed(e)
            },
            DeployEvent::Roll(e) => self.rolled(run, e, now),
            DeployEvent::Retired => {
                let replaced = match &run.stage {
                    DeployStage::Retiring { replaced } => *replaced,
                    _ => false,
                };
                self.finish(run, replaced)
            },
        }
    }
}

// ---------------------------------------------------------------- rolling in place

/// An app that is rolled in place: same spec and image, fresh environment.
#[derive(Debug)]
pub struct RedeployRun {
    pub name: String,
    pub image: String,
    pub old: Vec<ReplicaRecord>,
    pub roll: Rollout,
}

/// The contents of a `RedeployRun`.
pub struct RedeployRunView {
    pub name: Seq<char>,
    pub image: Seq<char>,
    pub old: Seq<ReplicaRecordView>,
    pub roll: RolloutView,
}

impl View for RedeployRun {
    type V = RedeployRunView;

    open spec fn view(&self) -> RedeployRunView {
        RedeployRunView {
            name: self.name@,
            image: self.image@,
            old: state::replica_record_views(self.old@),
            roll: self.roll@,
        }
    }
}

#[derive(Debug)]
pub enum RedeployStep {
    Start { index: u8 },
    Gate(Vec<ReplicaRecord>),
    Abandon { remove: Vec<String>, error: HadesError },
    /// Remove these containers; then all is done.
    Retire(Vec<String>),
    Failed(HadesError),
}

/// The contents of a `RedeployStep`.
pub enum RedeployStepView {
    Start { index: u8 },
    Gate(Seq<ReplicaRecordView>),
    Abandon { remove: Seq<Seq<char>>, error: ErrorView },
    Retire(Seq<Seq<char>>),
    Failed(ErrorView),
}

impl View for RedeployStep {
    type V = RedeployStepView;

    open spec fn view(&self) -> RedeployStepView {
        match self {
            RedeployStep::Start { index } => RedeployStepView::Start {
                index: *index,
            },
            RedeployStep::Gate(x) => RedeployStepView::Gate(state::replica_record_views(x@)),
            RedeployStep::Abandon { remove, error } => RedeployStepView::Abandon {
                remove: split::views(remove@),
                error: error@,
            },
            RedeployStep::Retire(x) => RedeployStepView::Retire(split::views(x@)),
            RedeployStep::Failed(x) => RedeployStepView::Failed(x@),
        }
    }
}

/// The image that an app runs.
pub open spec fn image_of(name: Seq<char>, spec: AppSpecView) -> Seq<char> {
    if spec.build is Some {
        runtime::tag_of(name)
    } else {
        match spec.image {
            Some(i) => i,
            None => ""@,
        }
    }
}

/// The image that an app runs.
pub fn running_image(name: &str, spec: &AppSpec) -> (r: String)
    ensures
        r@ == image_of(name@, spec@),
{
    if spec.build.is_some() {
        Runtime::image_tag(name)
    } else {
        match &spec.image {
            Some(i) => i.clone(),
            None => "".to_owned(),
        }
    }
}

/// The daemon, the app's rollout and the step that an event leads to.
pub struct RedeployMove {
    pub daemon: DaemonView,
    pub run: RedeployRunView,
    pub step: RedeployStepView,
}

/// An app that is rolled in place.
pub open spec fn in_place(name: Seq<char>, rec: AppRecordView) -> RedeployRunView {
    RedeployRunView {
        name,
        image: image_of(name, rec.spec),
        old: rec.replicas,
        roll: rollout::rollout_of(roll_base(rec), rec.spec.replicas),
    }
}

/// The first step of a roll in place.
pub open spec fn first_in_place(rec: AppRecordView) -> RedeployStepView {
    if rec.spec.replicas == 0 {
        RedeployStepView::Gate(Seq::empty())
    } else {
        RedeployStepView::Start { index: roll_base(rec) }
    }
}

/// The daemon with other replicas of an app, where there is such an app.
pub open spec fn with_replicas(
    d: DaemonView,
    name: Seq<char>,
    fresh: Seq<ReplicaRecordView>,
    base: u8,
) -> DaemonView {
    match d.store.app(name) {
        Some(rec) => d.with_store(
            d.store.with_apps(
                d.store.apps.insert(name, AppRecordView { replicas: fresh, numbered_from: base, ..rec }),
            ),
        ),
        None => d,
    }
}

impl RedeployRunView {
    pub open spec fn advance(self, d: DaemonView, event: RollEventView) -> RedeployMove {
        let (roll, step) = self.roll.advance(event);
        let run = RedeployRunView { roll, ..self };
        match step {
            RollStepView::Start { index } => RedeployMove {
                daemon: d,
                run,
                step: RedeployStepView::Start { index },
            },
            RollStepView::Gate => RedeployMove {
                daemon: d,
                run,
                step: RedeployStepView::Gate(roll.fresh),
            },
            RollStepView::Abandon { remove, error } => RedeployMove {
                daemon: d,
                run,
                step: RedeployStepView::Abandon { remove, error },
            },
            RollStepView::Fail(e) => RedeployMove {
                daemon: d,
                run,
                step: RedeployStepView::Failed(e),
            },
            RollStepView::Swap(fresh) => RedeployMove {
                daemon: with_replicas(d, self.name, fresh, roll.base),
                run,
                step: RedeployStepView::Retire(rollout::ids_of(self.old)),
            },
        }
    }
}

impl Daemon {
    /// Rolls an app in place, so that its containers pick up changed secrets. Nothing
    /// is to be done for an app that does not run: it picks them up later.
    pub fn redeploy_in_place(&self, name: &str) -> (r: Result<
        Option<(RedeployRun, RedeployStep)>,
        HadesError,
    >)
        ensures
            match self@.store.app(name@) {
                None => r matches Err(e) && e@ == ErrorView::AppNotFound(name@),
                Some(rec) => if rec.state != AppState::Running {
                    r matches Ok(None)
                } else {
                    &&& r matches Ok(Some(x)) && x.0@ == in_place(name@, rec) && x.0@.roll.wf()
                        && x.1@ == first_in_place(rec)
                },
            },
    {
        let rec = match self.store.get(name) {
            Some(rec) => rec,
            None => {
                return Err(HadesError::AppNotFound(name.to_owned()));
            },
        };
        if rec.state != AppState::Running {
            return Ok(None);
        }
        let base: u8 = if rec.numbered_from == 150 {
            100
        } else {
            150
        };
        let (roll, _first) = Rollout::new(base, rec.spec.replicas);
        let step = if rec.spec.replicas == 0 {
            let none: Vec<ReplicaRecord> = Vec::new();
            assert(state::replica_record_views(none@) =~= Seq::empty());
            RedeployStep::Gate(none)
        } else {
            RedeployStep::Start { index: base }
        };
        let run = RedeployRun {
            name: name.to_owned(),
            image: running_image(name, &rec.spec),
            old: rec.replicas,
            roll,
        };
        Ok(Some((run, step)))
    }

    /// Takes in what came of the last step, and tells the next.
    pub fn redeploy_next(&mut self, run: &mut RedeployRun, event: RollEvent) -> (r: RedeployStep)
        requires
            old(self).wf(),
            old(run)@.roll.wf(),
            old(run)@.roll.awaits(event@),
        ensures
            ({
                let m = old(run)@.advance(old(self)@, event@);
                &&& final(self)@ == m.daemon
                &&& final(run)@ == m.run
                &&& r@ == m.step
            }),
            final(run)@.roll.wf(),
            final(self).wf(),
            old(self)@.store.wf() ==> final(self)@.store.wf(),
            if r@ is Retire && old(self)@.store.app(old(run)@.name) is Some {
                daemon::installed(
                    final(self)@,
                    final(self)@.store.apps[old(run)@.name],
                    old(self).table,
                    final(self).table,
                )
            } else {
                final(self).table == old(self).table
            },
    {
        match run.roll.next(event) {
            RollStep::Start { index } => RedeployStep::Start { index },
            RollStep::Gate => RedeployStep::Gate(clone_replica_records(&run.roll.fresh)),
            RollStep::Abandon { remove, error } => RedeployStep::Abandon { remove, error },
            RollStep::Fail(e) => RedeployStep::Failed(e),
            RollStep::Swap(fresh) => {
                match self.store.get(run.name.as_str()) {
                    Some(rec) => {
                        let mut rec = rec;
                        rec.replicas = fresh;
                        rec.numbered_from = run.roll.base;
                        self.store.put(run.name.as_str(), rec.clone());
                        self.install_routes(&rec);
                    },
                    None => {},
                }
                RedeployStep::Retire(container_ids(&run.old))
            },
        }
    }
}

// ---------------------------------------------------------------------------- laws

/// A deploy disturbs no app before its new replicas have taken over: whatever else
/// happens to it, every app's record stays as it is. When they take over, only the
/// deployed app's record changes, and it then runs exactly the replicas that
/// were found ready.
pub proof fn deploys_disturb_nothing_before_the_swap(
    run: DeployRunView,
    d: DaemonView,
    event: DeployEventView,
    now: Timestamp,
)
    requires
        run.wf(),
        run.awaits(event),
    ensures
        ({
            let m = run.advance(d, event, now);
            let name = run.spec.name;
            &&& m.step !is Retire ==> m.daemon.store.apps == d.store.apps
            &&& m.step is Retire ==> {
                &&& event == DeployEventView::Roll(RollEventView::Ready)
                &&& m.daemon.store.app(name) matches Some(rec) && rec.spec == run.spec
                    && rec.state == AppState::Running && rec.replicas == run.stage->roll.fresh
                &&& forall|other: Seq<char>|
                    other != name ==> m.daemon.store.app(other) == d.store.app(other)
                &&& m.step == DeployStepView::Retire(rollout::ids_of(run.stage->old))
            }
        }),
{
}

/// Generations take other names: a container that a deploy or a roll in place starts has the
/// name of one that runs, be it of the generation before or one that a restart brought back,
/// only where both have one number. Up to fifty replicas the numbers always differ. Up to a
/// hundred, those of a deploy still differ from those of a generation that was not rolled in
/// place, and from the first fifty-six that a restart brought back.
pub proof fn generations_take_other_names(rec: AppRecordView, app: Seq<char>, i: nat, j: nat)
    requires
        rec.numbered_from == 0 || rec.numbered_from == 100 || rec.numbered_from == 150,
    ensures
        ({
            let deployed = rollout::index_of(deploy_base(Some(rec)), i);
            let rolled = rollout::index_of(roll_base(rec), i);
            let runs = rollout::index_of(rec.numbered_from, j);
            let revived = rollout::index_of(200, j);
            &&& runtime::name_of(app, deployed) == runtime::name_of(app, runs) <==> deployed == runs
            &&& runtime::name_of(app, deployed) == runtime::name_of(app, revived) <==> deployed
                == revived
            &&& runtime::name_of(app, rolled) == runtime::name_of(app, runs) <==> rolled == runs
            &&& runtime::name_of(app, rolled) == runtime::name_of(app, revived) <==> rolled
                == revived
            &&& i < 50 && j < 50 ==> deployed != runs && deployed != revived && rolled != runs
                && rolled != revived
            &&& rec.numbered_from != 150 && i < 100 && j < 100 ==> deployed != runs
            &&& i < 100 && j < 56 ==> deployed != revived
        }),
        deploy_base(Some(rec)) == 0 || deploy_base(Some(rec)) == 100,
        roll_base(rec) == 100 || roll_base(rec) == 150,
{
    let deployed = rollout::index_of(deploy_base(Some(rec)), i);
    let rolled = rollout::index_of(roll_base(rec), i);
    let runs = rollout::index_of(rec.numbered_from, j);
    let revived = rollout::index_of(200, j);
    lemma_numbers(rec, i, j);
    lemma_names(app, deployed, runs);
    lemma_names(app, deployed, revived);
    lemma_names(app, rolled, runs);
    lemma_names(app, rolled, revived);
}

proof fn lemma_names(app: Seq<char>, a: u8, b: u8)
    ensures
        runtime::name_of(app, a) == runtime::name_of(app, b) <==> a == b,
{
    if a != b {
        runtime::replica_names_differ(app, a, b);
    }
}

proof fn lemma_numbers(rec: AppRecordView, i: nat, j: nat)
    requires
        rec.numbered_from == 0 || rec.numbered_from == 100 || rec.numbered_from == 150,
    ensures
        ({
            let deployed = rollout::index_of(deploy_base(Some(rec)), i);
            let rolled = rollout::index_of(roll_base(rec), i);
            let runs = rollout::index_of(rec.numbered_from, j);
            let revived = rollout::index_of(200, j);
            &&& i < 50 && j < 50 ==> deployed != runs && deployed != revived && rolled != runs
                && rolled != revived
            &&& rec.numbered_from != 150 && i < 100 && j < 100 ==> deployed != runs
            &&& i < 100 && j < 56 ==> deployed != revived
        }),
{
    if i < 100 && j < 100 {
        lemma_index(0, i);
        lemma_index(100, i);
        lemma_index(150, i);
        lemma_index(0, j);
        lemma_index(100, j);
        lemma_index(150, j);
        if j < 56 {
            lemma_index(200, j);
        }
    }
}

/// Numbers that fit are not wrapped.
proof fn lemma_index(base: u8, place: nat)
    requires
        base + place < 256,
    ensures
        rollout::index_of(base, place) == base + place,
{
    vstd::arithmetic::div_mod::lemma_small_mod((base + place) as nat, 256);
}

/// Deploying is an upsert: an app that is deployed again keeps when it was created, its
/// restarts and its tunnel, and its old replicas are exactly those that are retired.
pub proof fn deploying_again_keeps_the_record(
    run: DeployRunView,
    d: DaemonView,
    fresh: Seq<ReplicaRecordView>,
    now: Timestamp,
    rec: AppRecordView,
)
    requires
        d.store.app(run.spec.name) == Some(rec),
    ensures
        run.swapped(d, fresh, now) == (AppRecordView {
            spec: run.spec,
            replicas: fresh,
            state: AppState::Running,
            paused_reason: None,
            numbered_from: run.stage->roll.base,
            ..rec
        }),
        ({
            let m = run.roll(d, ""@);
            m.run.stage matches DeployStageView::Rolling { replaced, old, .. } && replaced && old
                == rec.replicas
        }),
{
}

/// The memory that is free on a device, by what was last learned of it.
pub open spec fn free_there(d: DaemonView, device: Seq<char>) -> int {
    let st = d.fleet_status[device];
    if st.allocated_mb <= st.allocatable_mb {
        st.allocatable_mb - st.allocated_mb
    } else {
        0
    }
}

/// Is a device known to be healthy, with room for an app?
pub open spec fn has_room(d: DaemonView, device: Seq<char>, spec: AppSpecView) -> bool {
    d.fleet_status.dom().contains(device) && d.fleet_status[device].healthy && free_there(d, device)
        >= spec.resources.memory_mb * spec.replicas
}

/// A deploy that is being placed goes to a healthy device with room for it that has more free
/// memory than the hub, and of these to one with the most; it stays on the hub only if there
/// is none. What is free on the hub is what its apps may take less what they declare; where
/// the engine cannot be asked, nothing is.
pub proof fn deploys_go_where_most_is_free(
    run: DeployRunView,
    d: DaemonView,
    event: DeployEventView,
    now: Timestamp,
)
    requires
        run.stage is Placing,
        run.awaits(event),
        countable(d, run.spec, event),
        run.spec.resources.memory_mb * run.spec.replicas <= u64::MAX,
    ensures
        ({
            let m = run.advance(d, event, now);
            let spare = match event {
                DeployEventView::Engine { info, .. } => ledger::memory_to_give(
                    info.vm_memory_mb,
                    d.config.reserve_pct,
                ) - ledger::memory_of(d.store.app_list()),
                _ => 0,
            };
            let here = if spare > 0 {
                spare
            } else {
                0
            };
            &&& m.step matches DeployStepView::DeployOn(dev) ==> {
                &&& exists|i: int| 0 <= i < d.store.fleet.devices.len()
                    && #[trigger] d.store.fleet.devices[i].name == dev
                &&& has_room(d, dev, run.spec)
                &&& free_there(d, dev) > here
                &&& forall|i: int|
                    0 <= i < d.store.fleet.devices.len() && has_room(
                        d,
                        (#[trigger] d.store.fleet.devices[i]).name,
                        run.spec,
                    ) ==> free_there(d, d.store.fleet.devices[i].name) <= free_there(d, dev)
                &&& m.daemon == d
                &&& m.run.stage == DeployStageView::Away(dev)
            }
            &&& m.step !is DeployOn ==> {
                &&& forall|i: int|
                    0 <= i < d.store.fleet.devices.len() && has_room(
                        d,
                        (#[trigger] d.store.fleet.devices[i]).name,
                        run.spec,
                    ) ==> free_there(d, d.store.fleet.devices[i].name) <= here
                &&& d.doctor_green ==> m.step is ReadEngine && m.run.stage is Admitting
                &&& !d.doctor_green ==> m.step is Failed
            }
            &&& m.run.spec == run.spec && m.run.has_context == run.has_context
        }),
{
    let need = (run.spec.resources.memory_mb * run.spec.replicas) as u64;
    let m = run.spec.resources.memory_mb;
    let k = run.spec.replicas;
    assert(m * k >= 0) by (nonlinear_arith)
        requires
            m >= 0,
            k >= 0,
    ;
    let free = match event {
        DeployEventView::Engine { info, mac_memory_mb } => {
            let mac = match mac_memory_mb {
                Some(m) => m,
                None => 0,
            };
            ledger::lemma_memory(d.store.app_list(), ""@);
            ledger::ledgers_add_up(d.config.reserve_pct, info, mac, d.store.app_list());
            let l = ledger::ledger_for(d.config.reserve_pct, info, mac, d.store.app_list());
            fleet::left(l.allocatable_mb, l.allocated_mb)
        },
        _ => 0,
    };
    fleet::apps_go_where_there_is_most_room(d.store.fleet.devices, d.fleet_status, need, free);
    match fleet::chosen(d.store.fleet.devices, d.fleet_status, need, free) {
        Some(dev) => {
            lemma_device_there(d.store.fleet.devices, dev);
            assert(fleet::offers(d.fleet_status, dev, need));
        },
        None => {},
    }
    assert forall|i: int|
        0 <= i < d.store.fleet.devices.len() && has_room(
            d,
            (#[trigger] d.store.fleet.devices[i]).name,
            run.spec,
        ) implies fleet::offers(d.fleet_status, d.store.fleet.devices[i].name, need) by {}
}

proof fn lemma_device_there(devices: Seq<fleet::FleetDeviceRecordView>, name: Seq<char>)
    requires
        fleet::device_named(devices, name) is Some,
    ensures
        exists|i: int| 0 <= i < devices.len() && #[trigger] devices[i].name == name,
    decreases devices.len(),
{
    if devices.len() > 0 {
        let front = devices.drop_last();
        if fleet::device_named(front, name) is Some {
            lemma_device_there(front, name);
            let i = choose|i: int| 0 <= i < front.len() && #[trigger] front[i].name == name;
            assert(devices[i].name == name);
        } else {
            assert(devices[devices.len() - 1].name == name);
        }
    }
}

/// A deploy begins where it is meant to: on the device that it is pinned to, if there is one
/// of that name; on this host where "local" is said or there is no other machine; and where
/// nothing is said, it is placed. A spec with a fault goes nowhere.
pub proof fn deploys_begin_where_they_are_meant_to(
    run: DeployRunView,
    d: DaemonView,
    device: Option<Seq<char>>,
)
    ensures
        ({
            let m = run.begin(d, device);
            let known = device is Some && exists|i: int|
                0 <= i < d.store.fleet.devices.len() && #[trigger] d.store.fleet.devices[i].name
                    == device->0;
            let here = device == Some("local"@) || (device is Some && device->0.len() == 0);
            &&& m.run.spec == run.spec && m.run.has_context == run.has_context
            &&& m.daemon.store.apps == d.store.apps
            &&& run.spec.fault() is Some ==> m.daemon == d && m.step == failure(
                ErrorView::InvalidSpec(run.spec.fault()->0),
            )
            &&& run.spec.fault() is None && device is Some && !here && known ==> m.step
                == DeployStepView::DeployOn(device->0) && m.run.stage == DeployStageView::Away(
                device->0,
            ) && m.daemon == d
            &&& run.spec.fault() is None && device is Some && !here && !known ==> (m.step matches
                DeployStepView::Failed(f) && f.error is AppNotFound) && m.daemon == d
            &&& run.spec.fault() is None && (here || device is None && d.store.fleet.devices.len()
                == 0) ==> {
                &&& d.doctor_green ==> m.step is ReadEngine && m.run.stage is Admitting
                &&& !d.doctor_green ==> (m.step matches DeployStepView::Failed(f) && f.error
                    is DoctorRed)
                &&& !m.daemon.store.fleet.placements.dom().contains(run.spec.name)
            }
            &&& run.spec.fault() is None && device is None && d.store.fleet.devices.len() > 0
                ==> m.step is ReadEngine && m.run.stage is Placing && m.daemon == d
        }),
{
    if device is Some {
        let name = device->0;
        if fleet::device_named(d.store.fleet.devices, name) is Some {
            lemma_device_there(d.store.fleet.devices, name);
        } else {
            lemma_device_missing(d.store.fleet.devices, name);
        }
    }
}

proof fn lemma_device_missing(devices: Seq<fleet::FleetDeviceRecordView>, name: Seq<char>)
    requires
        fleet::device_named(devices, name) is None,
    ensures
        forall|i: int| 0 <= i < devices.len() ==> #[trigger] devices[i].name != name,
    decreases devices.len(),
{
    if devices.len() > 0 {
        let front = devices.drop_last();
        lemma_device_missing(front, name);
        assert forall|i: int| 0 <= i < devices.len() implies #[trigger] devices[i].name
            != name by {
            if i < front.len() {
                assert(front[i].name != name);
            }
        }
    }
}

/// On this host a deploy goes on if and only if there is room for what it declares beside what
/// the other apps declare. Else it is rejected, with the ledger as it stands, and nothing
/// changes.
pub proof fn deploys_without_room_are_rejected(
    run: DeployRunView,
    d: DaemonView,
    info: EngineInfo,
    mac_memory_mb: Option<u64>,
    now: Timestamp,
)
    requires
        run.stage is Admitting,
        info.vm_memory_mb * d.config.reserve_pct <= u64::MAX,
        ledger::memory_of(d.store.app_list()) <= u64::MAX,
    ensures
        ({
            let m = run.advance(d, DeployEventView::Engine { info, mac_memory_mb }, now);
            let room = ledger::memory_beside(d.store.app_list(), run.spec.name)
                + run.spec.resources.memory_mb * run.spec.replicas <= ledger::memory_to_give(
                info.vm_memory_mb,
                d.config.reserve_pct,
            );
            &&& m.daemon == d
            &&& !room <==> (m.step matches DeployStepView::Failed(f) && f.error is AdmissionRejected)
            &&& !room ==> (m.step matches DeployStepView::Failed(f) && f.ledger matches Some(l)
                && l.vm_memory_mb == info.vm_memory_mb && l.allocated_mb == ledger::memory_of(
                d.store.app_list(),
            ) && (f.event matches Some(HostEventView::DeployRejected { app, reason }) && app
                == run.spec.name && f.error == ErrorView::AdmissionRejected(reason)))
            &&& room && run.spec.build is None ==> m.step == (DeployStepView::Pull {
                image: run.spec.image->0,
            })
            &&& room && run.spec.build is Some && run.has_context ==> m.step
                == (DeployStepView::Build { dockerfile: run.spec.build->0.dockerfile })
            &&& room && run.spec.build is Some && !run.has_context ==> (m.step matches
                DeployStepView::Failed(f) && f.error is InvalidSpec)
        }),
{
    let mac = match mac_memory_mb {
        Some(m) => m,
        None => 0,
    };
    ledger::admitted_if_there_is_room(
        d.config.reserve_pct,
        info,
        mac,
        d.store.app_list(),
        run.spec,
    );
    ledger::ledgers_add_up(d.config.reserve_pct, info, mac, d.store.app_list());
}

/// New replicas run the image that was built or pulled for them, and exactly those that were
/// started must be ready. The replicas that are retired are those that ran before,
/// each one.
pub proof fn replicas_run_the_image_of_their_deploy(
    run: DeployRunView,
    d: DaemonView,
    event: DeployEventView,
    now: Timestamp,
)
    requires
        run.wf(),
        run.awaits(event),
    ensures
        ({
            let m = run.advance(d, event, now);
            let name = run.spec.name;
            let before = if d.store.apps.dom().contains(name) {
                d.store.apps[name].replicas
            } else {
                Seq::empty()
            };
            &&& run.stage is Imaging && event !is NoImage ==> {
                &&& m.daemon == d
                &&& m.run.stage matches DeployStageView::Rolling { image, replaced, old, roll }
                    && old == before && replaced == d.store.apps.dom().contains(name) && roll.want
                    == run.spec.replicas && roll.fresh.len() == 0 && image == (match event {
                    DeployEventView::Built(i) => i,
                    _ => run.spec.image->0,
                })
                &&& run.spec.replicas > 0 ==> (m.step matches DeployStepView::Start { image, .. }
                    && image == m.run.stage->image)
                &&& run.spec.replicas == 0 ==> m.step == DeployStepView::Gate(Seq::empty())
            }
            &&& run.stage is Rolling ==> {
                &&& m.step matches DeployStepView::Start { image, .. } ==> image == run.stage->image
                &&& m.step matches DeployStepView::Gate(fresh) ==> (event matches
                    DeployEventView::Roll(RollEventView::Started(r)) && fresh
                    == run.stage->roll.fresh.push(r))
                &&& m.step matches DeployStepView::Retire(ids) ==> {
                    let old = run.stage->old;
                    &&& ids.len() == old.len()
                    &&& forall|i: int|
                        0 <= i < old.len() ==> #[trigger] ids[i] == old[i].container_id
                    &&& event == DeployEventView::Roll(RollEventView::Ready)
                    &&& m.daemon.store.apps[name].numbered_from == run.stage->roll.base
                    &&& m.daemon.store.claims == d.store.claims
                    &&& m.daemon.store.fleet == d.store.fleet
                    &&& m.daemon.store.registry == d.store.registry
                    &&& m.run.stage == (DeployStageView::Retiring {
                        replaced: run.stage->Rolling_replaced,
                    })
                }
                &&& m.run.stage is Rolling ==> m.run.stage->old == run.stage->old
                    && m.run.stage->image == run.stage->image && m.run.stage->Rolling_replaced
                    == run.stage->Rolling_replaced && m.run.stage->roll.want
                    == run.stage->roll.want && m.run.stage->roll.base == run.stage->roll.base
            }
            &&& m.run.spec == run.spec
        }),
{
}

/// A deploy that another machine has taken is remembered there, under the app's name, and told
/// as its; nothing else changes.
pub proof fn deploys_elsewhere_are_remembered(
    run: DeployRunView,
    d: DaemonView,
    device: Seq<char>,
    response: DeployResponseView,
    now: Timestamp,
    other: Seq<char>,
)
    requires
        run.stage == DeployStageView::Away(device),
    ensures
        ({
            let m = run.advance(d, DeployEventView::DeployedThere(response), now);
            let placements = m.daemon.store.fleet.placements;
            &&& placements.dom().contains(run.spec.name) && placements[run.spec.name] == device
            &&& other != run.spec.name ==> (placements.dom().contains(other)
                <==> d.store.fleet.placements.dom().contains(other)) && placements[other]
                == d.store.fleet.placements[other]
            &&& m.daemon.store.apps == d.store.apps
            &&& m.daemon.store.claims == d.store.claims
            &&& m.daemon.store.fleet.devices == d.store.fleet.devices
            &&& m.step matches DeployStepView::Done(done) && done.response.app.device == Some(device)
                && done.response.app.url == response.app.url && done.response.app.name
                == response.app.name && done.response.replaced == response.replaced
                && done.response.tunnel_note == response.tunnel_note && done.tunnel is Nothing
        }),
{
}

/// A finished deploy is answered with the app as it now is, and gets its public name: under
/// the host's own domain where there is one, else by a tunnel of its own, which is started
/// once.
pub proof fn finished_deploys_are_reachable(run: DeployRunView, d: DaemonView, replaced: bool, now: Timestamp)
    requires
        run.stage == (DeployStageView::Retiring { replaced }),
    ensures
        ({
            let m = run.advance(d, DeployEventView::Retired, now);
            let name = run.spec.name;
            &&& m.daemon.store == d.store
            &&& m.step matches DeployStepView::Done(done) && {
                &&& done.response.app == daemon::info_of(m.daemon, d.store.apps[name])
                &&& done.response.replaced == replaced
                &&& done.event == (HostEventView::AppDeployed { app: name, replaced })
                &&& done.response.tunnel_note is Some <==> d.config.domain.name is None
                    && !d.provider
                &&& done.tunnel is Start <==> d.config.domain.name is None && d.provider
                    && !d.tunnels.contains(name)
                &&& done.tunnel is Start ==> m.daemon.tunnels == d.tunnels.insert(name)
                &&& done.tunnel !is Start ==> m.daemon.tunnels =~= d.tunnels
                &&& done.tunnel matches TunnelWishView::Dns { domain, tunnel, host } ==> {
                    &&& d.config.domain.name == Some(domain)
                    &&& d.config.domain.tunnel_name == Some(tunnel)
                    &&& host == name + "."@ + domain
                }
                &&& done.tunnel is Dns <==> d.config.domain.name is Some
                    && d.config.domain.tunnel_name is Some
            }
        }),
{
}

/// A roll in place replaces an app's replicas by as many as its spec asks for, with the image
/// that it runs, and changes nothing else of it: what is retired are the replicas that it
/// had, each one.
pub proof fn rolls_in_place_keep_the_app(
    name: Seq<char>,
    rec: AppRecordView,
    run: RedeployRunView,
    d: DaemonView,
    event: RollEventView,
    other: Seq<char>,
)
    requires
        run.roll.wf(),
        run.roll.awaits(event),
        d.store.app(run.name) == Some(rec),
    ensures
        in_place(name, rec).name == name,
        in_place(name, rec).old == rec.replicas,
        in_place(name, rec).roll.want == rec.spec.replicas,
        rec.spec.build is Some ==> in_place(name, rec).image == "hades/"@ + name + ":latest"@,
        rec.spec.build is None && rec.spec.image is Some ==> in_place(name, rec).image
            == rec.spec.image->0,
        ({
            let m = run.advance(d, event);
            &&& m.run.old == run.old && m.run.name == run.name && m.run.image == run.image
            &&& m.step !is Retire ==> m.daemon == d
            &&& m.step matches RedeployStepView::Gate(fresh) ==> (event matches
                RollEventView::Started(r) && fresh == run.roll.fresh.push(r))
            &&& m.step matches RedeployStepView::Retire(ids) ==> {
                &&& event is Ready
                &&& m.daemon.store.app(run.name) == Some(
                    AppRecordView {
                        replicas: run.roll.fresh,
                        numbered_from: run.roll.base,
                        ..rec
                    },
                )
                &&& other != run.name ==> m.daemon.store.app(other) == d.store.app(other)
                &&& m.daemon.store.claims == d.store.claims
                &&& m.daemon.store.fleet == d.store.fleet
                &&& ids.len() == run.old.len()
                &&& forall|i: int|
                    0 <= i < ids.len() ==> #[trigger] ids[i] == run.old[i].container_id
            }
        }),
{
}

/// A deploy that goes wrong is given up with what went wrong, and nothing on record changes.
/// Where replicas were started, each of them is taken back, and none of those that ran before.
pub proof fn failed_deploys_are_taken_back(
    run: DeployRunView,
    d: DaemonView,
    event: DeployEventView,
    now: Timestamp,
)
    requires
        run.wf(),
        run.awaits(event),
    ensures
        ({
            let m = run.advance(d, event, now);
            let wrong = match event {
                DeployEventView::NotDeployedThere(e) => Some(e),
                DeployEventView::NoImage(e) => Some(e),
                DeployEventView::Roll(RollEventView::NoPort(e)) => Some(e),
                _ => None,
            };
            let unready = match event {
                DeployEventView::Roll(RollEventView::NotStarted(e)) => Some(e),
                DeployEventView::Roll(RollEventView::NotReady(e)) => Some(e),
                _ => None,
            };
            &&& wrong matches Some(e) ==> m.daemon == d && m.run.stage is Over && (m.step matches
                DeployStepView::Failed(f) && f.error == e && f.ledger is None && f.event is None)
            &&& unready matches Some(e) ==> m.daemon == d && m.run.stage is Over && (m.step matches
                DeployStepView::Abandon { remove, error } && error == e && remove.len()
                == run.stage->roll.fresh.len() && forall|i: int|
                0 <= i < remove.len() ==> #[trigger] remove[i]
                    == run.stage->roll.fresh[i].container_id)
            &&& run.stage is Admitting ==> (event matches DeployEventView::NoEngine(e) ==> m.daemon
                == d && m.run.stage is Over && (m.step matches DeployStepView::Failed(f) && f.error
                == ErrorView::Docker("cannot read engine capacity: "@ + e.message())))
            &&& wrong is None && unready is None && event !is NoEngine && event !is Engine
                ==> m.step !is Failed && m.step !is Abandon
        }),
{
}

/// The replicas of a deploy are started one after the other, each with the next number.
pub proof fn deploys_start_their_replicas_in_turn(
    run: DeployRunView,
    d: DaemonView,
    r: ReplicaRecordView,
    now: Timestamp,
)
    requires
        run.wf(),
        run.stage is Rolling,
        run.awaits(DeployEventView::Roll(RollEventView::Started(r))),
    ensures
        ({
            let m = run.advance(d, DeployEventView::Roll(RollEventView::Started(r)), now);
            let roll = run.stage->roll;
            let made = roll.fresh.len() + 1;
            &&& m.daemon == d
            &&& m.run.stage->roll.fresh == roll.fresh.push(r)
            &&& made < roll.want ==> (m.step matches DeployStepView::Start { image, index }
                && image == run.stage->image && index == (roll.base + made) % 256)
            &&& made == roll.want ==> m.step == DeployStepView::Gate(roll.fresh.push(r))
        }),
{
}

/// An app that is deployed for the first time gets a record that begins now.
pub proof fn first_deploys_begin_a_record(run: DeployRunView, d: DaemonView, now: Timestamp)
    requires
        run.wf(),
        run.stage is Rolling,
        run.awaits(DeployEventView::Roll(RollEventView::Ready)),
        d.store.app(run.spec.name) is None,
    ensures
        run.advance(d, DeployEventView::Roll(RollEventView::Ready), now).daemon.store.app(
            run.spec.name,
        ) == Some(
            AppRecordView {
                spec: run.spec,
                state: AppState::Running,
                created_at: now,
                replicas: run.stage->roll.fresh,
                tunnel_url: None,
                url_changed_at: None,
                paused_reason: None,
                restarts: 0,
                oom_times: Seq::empty(),
                numbered_from: run.stage->roll.base,
            },
        ),
{
}

/// A deploy that stays on this host takes the app off the machine that it was placed on, and
/// no other app. It is refused where the doctor is not content, with what is wrong.
pub proof fn deploys_that_stay_are_placed_here(run: DeployRunView, d: DaemonView, other: Seq<char>)
    requires
        run.spec.fault() is None,
    ensures
        ({
            let m = run.begin(d, Some("local"@));
            let placements = m.daemon.store.fleet.placements;
            &&& !placements.dom().contains(run.spec.name)
            &&& other != run.spec.name ==> (placements.dom().contains(other)
                <==> d.store.fleet.placements.dom().contains(other)) && placements[other]
                == d.store.fleet.placements[other]
            &&& m.daemon.store.apps == d.store.apps && m.daemon.store.claims == d.store.claims
            &&& m.daemon.tunnels == d.tunnels && m.daemon.config == d.config
            &&& !d.doctor_green ==> (m.step matches DeployStepView::Failed(f) && f.error
                == ErrorView::DoctorRed(
                "host not ready ("@ + split::joined(d.doctor_failed, ", "@)
                    + ") — run `hades host doctor`"@,
            ))
        }),
{
}

/// A roll in place starts its replicas one after the other, and one that goes wrong is given
/// up with what went wrong: each replica that it started is taken back, and the app stays.
pub proof fn failed_rolls_are_taken_back(
    rec: AppRecordView,
    run: RedeployRunView,
    d: DaemonView,
    event: RollEventView,
)
    requires
        run.roll.wf(),
        run.roll.awaits(event),
    ensures
        rec.spec.replicas == 0 ==> first_in_place(rec) == RedeployStepView::Gate(Seq::empty()),
        rec.spec.replicas > 0 ==> first_in_place(rec) == (RedeployStepView::Start {
            index: in_place(""@, rec).roll.base,
        }),
        ({
            let m = run.advance(d, event);
            let wrong = match event {
                RollEventView::NotStarted(e) => Some(e),
                RollEventView::NotReady(e) => Some(e),
                _ => None,
            };
            &&& event !is Ready ==> m.daemon == d
            &&& wrong matches Some(e) ==> (m.step matches RedeployStepView::Abandon { remove, error }
                && error == e && remove.len() == run.roll.fresh.len() && forall|i: int|
                0 <= i < remove.len() ==> #[trigger] remove[i] == run.roll.fresh[i].container_id)
            &&& event matches RollEventView::NoPort(e) ==> m.step == RedeployStepView::Failed(e)
            &&& event matches RollEventView::Started(r) ==> m.run.roll.fresh == run.roll.fresh.push(
                r,
            ) && (run.roll.fresh.len() + 1 < run.roll.want ==> m.step == (RedeployStepView::Start {
                index: ((run.roll.base + run.roll.fresh.len() + 1) % 256) as u8,
            }))
        }),
{
}

} // verus!
