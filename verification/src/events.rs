//! Everything observable in the system flows through one enum. Producers are the
//! reconcile loop, the watchdog, the power monitor, the tunnel supervisor and the
//! sentinel; consumers are the notification fan-out, the policy engine, the event
//! ledger and the event stream.
use vstd::prelude::*;

use crate::double;
use crate::double::Double;
use crate::split;
use crate::split::join;
use crate::text;
use crate::text::dec;
use crate::time::{utc_now, Timestamp};
use crate::values;
use crate::values::{clone_opt, clone_texts};

verus! {

#[derive(Debug, Clone, Copy, PartialEq, Eq, Structural)]
pub enum DowntimeCause {
    Slept,
    Rebooted,
    Crashed,
    Unknown,
}

#[derive(Debug, Clone, Copy, PartialEq, Eq, PartialOrd, Ord, Structural)]
pub enum PressureLevel {
    Normal,
    Warn,
    Critical,
}

#[derive(Debug, Clone, Copy, PartialEq, Eq, Structural)]
pub enum PauseReason {
    MemoryPressure,
    OnBattery,
    Manual,
}

/// Notification urgency.
#[derive(Debug, Clone, Copy, PartialEq, Eq, PartialOrd, Ord, Structural)]
pub enum Severity {
    Info,
    Default,
    Urgent,
}

/// One thing that happened on the host.
#[allow(inconsistent_fields)]
#[derive(Debug)]
pub enum HostEvent {
    /// The host was unreachable for `downtime_secs`, as the uptime ledger classified it.
    HostUp { downtime_secs: u64, cause: DowntimeCause },
    DaemonStarted { unclean_shutdown: bool },
    AppDeployed { app: String, replaced: bool },
    AppDestroyed { app: String },
    AppPaused { app: String, reason: PauseReason },
    AppResumed { app: String },
    AppOomKilled { app: String, memory_mb: u64, restarts: u32 },
    AppCrashLoop { app: String, restarts: u32 },
    AppUnhealthy { app: String, detail: String },
    UrlChanged { app: String, old: Option<String>, new: String },
    TunnelDown { app: String },
    MemoryPressure { level: PressureLevel, available_mb: u64 },
    OnBattery,
    OnAc,
    BatteryHealthDelta { capacity_pct: Double, cycle_count: u64 },
    DiskLow { free_gb: Double },
    DeployRejected { app: String, reason: String },
    DoctorRed { failed_checks: Vec<String> },
}

/// The contents of a `HostEvent`.
#[allow(inconsistent_fields)]
pub enum HostEventView {
    HostUp { downtime_secs: u64, cause: DowntimeCause },
    DaemonStarted { unclean_shutdown: bool },
    AppDeployed { app: Seq<char>, replaced: bool },
    AppDestroyed { app: Seq<char> },
    AppPaused { app: Seq<char>, reason: PauseReason },
    AppResumed { app: Seq<char> },
    AppOomKilled { app: Seq<char>, memory_mb: u64, restarts: u32 },
    AppCrashLoop { app: Seq<char>, restarts: u32 },
    AppUnhealthy { app: Seq<char>, detail: Seq<char> },
    UrlChanged { app: Seq<char>, old: Option<Seq<char>>, new: Seq<char> },
    TunnelDown { app: Seq<char> },
    MemoryPressure { level: PressureLevel, available_mb: u64 },
    OnBattery,
    OnAc,
    BatteryHealthDelta { capacity_pct: Double, cycle_count: u64 },
    DiskLow { free_gb: Double },
    DeployRejected { app: Seq<char>, reason: Seq<char> },
    DoctorRed { failed_checks: Seq<Seq<char>> },
}

impl View for HostEvent {
    type V = HostEventView;

    open spec fn view(&self) -> HostEventView {
        match self {
            HostEvent::HostUp { downtime_secs, cause } => HostEventView::HostUp {
                downtime_secs: *downtime_secs,
                cause: *cause,
            },
            HostEvent::DaemonStarted { unclean_shutdown } => HostEventView::DaemonStarted {
                unclean_shutdown: *unclean_shutdown,
            },
            HostEvent::AppDeployed { app, replaced } => HostEventView::AppDeployed {
                app: app@,
                replaced: *replaced,
            },
            HostEvent::AppDestroyed { app } => HostEventView::AppDestroyed {
                app: app@,
            },
            HostEvent::AppPaused { app, reason } => HostEventView::AppPaused {
                app: app@,
                reason: *reason,
            },
            HostEvent::AppResumed { app } => HostEventView::AppResumed {
                app: app@,
            },
            HostEvent::AppOomKilled { app, memory_mb, restarts } => HostEventView::AppOomKilled {
                app: app@,
                memory_mb: *memory_mb,
                restarts: *restarts,
            },
            HostEvent::AppCrashLoop { app, restarts } => HostEventView::AppCrashLoop {
                app: app@,
                restarts: *restarts,
            },
            HostEvent::AppUnhealthy { app, detail } => HostEventView::AppUnhealthy {
                app: app@,
                detail: detail@,
            },
            HostEvent::UrlChanged { app, old, new } => HostEventView::UrlChanged {
                app: app@,
                old: values::opt_view(*old),
                new: new@,
            },
            HostEvent::TunnelDown { app } => HostEventView::TunnelDown {
                app: app@,
            },
            HostEvent::MemoryPressure { level, available_mb } => HostEventView::MemoryPressure {
                level: *level,
                available_mb: *available_mb,
            },
            HostEvent::OnBattery => HostEventView::OnBattery,
            HostEvent::OnAc => HostEventView::OnAc,
            HostEvent::BatteryHealthDelta { capacity_pct, cycle_count } => HostEventView::BatteryHealthDelta {
                capacity_pct: *capacity_pct,
                cycle_count: *cycle_count,
            },
            HostEvent::DiskLow { free_gb } => HostEventView::DiskLow {
                free_gb: *free_gb,
            },
            HostEvent::DeployRejected { app, reason } => HostEventView::DeployRejected {
                app: app@,
                reason: reason@,
            },
            HostEvent::DoctorRed { failed_checks } => HostEventView::DoctorRed {
                failed_checks: split::views(failed_checks@),
            },
        }
    }
}

impl Clone for HostEvent {
    fn clone(&self) -> (r: Self)
        ensures
            r@ == self@,
    {
        match self {
            HostEvent::HostUp { downtime_secs, cause } => HostEvent::HostUp {
                downtime_secs: *downtime_secs,
                cause: *cause,
            },
            HostEvent::DaemonStarted { unclean_shutdown } => HostEvent::DaemonStarted {
                unclean_shutdown: *unclean_shutdown,
            },
            HostEvent::AppDeployed { app, replaced } => HostEvent::AppDeployed {
                app: app.clone(),
                replaced: *replaced,
            },
            HostEvent::AppDestroyed { app } => HostEvent::AppDestroyed {
                app: app.clone(),
            },
            HostEvent::AppPaused { app, reason } => HostEvent::AppPaused {
                app: app.clone(),
                reason: *reason,
            },
            HostEvent::AppResumed { app } => HostEvent::AppResumed {
                app: app.clone(),
            },
            HostEvent::AppOomKilled { app, memory_mb, restarts } => HostEvent::AppOomKilled {
                app: app.clone(),
                memory_mb: *memory_mb,
                restarts: *restarts,
            },
            HostEvent::AppCrashLoop { app, restarts } => HostEvent::AppCrashLoop {
                app: app.clone(),
                restarts: *restarts,
            },
            HostEvent::AppUnhealthy { app, detail } => HostEvent::AppUnhealthy {
                app: app.clone(),
                detail: detail.clone(),
            },
            HostEvent::UrlChanged { app, old, new } => HostEvent::UrlChanged {
                app: app.clone(),
                old: clone_opt(old),
                new: new.clone(),
            },
            HostEvent::TunnelDown { app } => HostEvent::TunnelDown {
                app: app.clone(),
            },
            HostEvent::MemoryPressure { level, available_mb } => HostEvent::MemoryPressure {
                level: *level,
                available_mb: *available_mb,
            },
            HostEvent::OnBattery => HostEvent::OnBattery,
            HostEvent::OnAc => HostEvent::OnAc,
            HostEvent::BatteryHealthDelta { capacity_pct, cycle_count } => HostEvent::BatteryHealthDelta {
                capacity_pct: *capacity_pct,
                cycle_count: *cycle_count,
            },
            HostEvent::DiskLow { free_gb } => HostEvent::DiskLow {
                free_gb: *free_gb,
            },
            HostEvent::DeployRejected { app, reason } => HostEvent::DeployRejected {
                app: app.clone(),
                reason: reason.clone(),
            },
            HostEvent::DoctorRed { failed_checks } => HostEvent::DoctorRed {
                failed_checks: clone_texts(failed_checks),
            },
        }
    }
}

// ------------------------------------------------------------------ their texts

impl DowntimeCause {
    pub open spec fn name(self) -> Seq<char> {
        match self {
            DowntimeCause::Slept => "slept"@,
            DowntimeCause::Rebooted => "rebooted"@,
            DowntimeCause::Crashed => "crashed"@,
            DowntimeCause::Unknown => "unknown"@,
        }
    }

    pub fn as_str(&self) -> (r: &'static str)
        ensures
            r@ == self.name(),
    {
        match self {
            DowntimeCause::Slept => "slept",
            DowntimeCause::Rebooted => "rebooted",
            DowntimeCause::Crashed => "crashed",
            DowntimeCause::Unknown => "unknown",
        }
    }
}

impl PauseReason {
    pub open spec fn name(self) -> Seq<char> {
        match self {
            PauseReason::MemoryPressure => "MemoryPressure"@,
            PauseReason::OnBattery => "OnBattery"@,
            PauseReason::Manual => "Manual"@,
        }
    }

    pub fn as_str(&self) -> (r: &'static str)
        ensures
            r@ == self.name(),
    {
        match self {
            PauseReason::MemoryPressure => "MemoryPressure",
            PauseReason::OnBattery => "OnBattery",
            PauseReason::Manual => "Manual",
        }
    }
}

impl PressureLevel {
    pub open spec fn name(self) -> Seq<char> {
        match self {
            PressureLevel::Normal => "Normal"@,
            PressureLevel::Warn => "Warn"@,
            PressureLevel::Critical => "Critical"@,
        }
    }

    pub fn as_str(&self) -> (r: &'static str)
        ensures
            r@ == self.name(),
    {
        match self {
            PressureLevel::Normal => "Normal",
            PressureLevel::Warn => "Warn",
            PressureLevel::Critical => "Critical",
        }
    }
}

/// A duration: seconds below a minute, minutes and seconds below an hour, else
/// hours and minutes.
pub open spec fn duration_text(secs: nat) -> Seq<char> {
    if secs < 60 {
        text::decimal(secs) + "s"@
    } else if secs < 3600 {
        text::decimal(secs / 60) + "m "@ + text::decimal(secs % 60) + "s"@
    } else {
        text::decimal(secs / 3600) + "h "@ + text::decimal((secs % 3600) / 60) + "m"@
    }
}

pub fn humanize_secs(secs: u64) -> (r: String)
    ensures
        r@ == duration_text(secs as nat),
{
    if secs < 60 {
        dec(secs).concat("s")
    } else if secs < 3600 {
        dec(secs / 60).concat("m ").concat(dec(secs % 60).as_str()).concat("s")
    } else {
        dec(secs / 3600).concat("h ").concat(dec((secs % 3600) / 60).as_str()).concat("m")
    }
}

impl HostEventView {
    /// How urgent the event is.
    pub open spec fn severity(self) -> Severity {
        match self {
            HostEventView::HostUp { cause, .. } => if cause == DowntimeCause::Crashed || cause
                == DowntimeCause::Unknown {
                Severity::Urgent
            } else {
                Severity::Default
            },
            HostEventView::AppOomKilled { .. } | HostEventView::AppCrashLoop { .. }
            | HostEventView::DoctorRed { .. } | HostEventView::DiskLow { .. } => Severity::Urgent,
            HostEventView::MemoryPressure { level, .. } => if level == PressureLevel::Critical {
                Severity::Urgent
            } else {
                Severity::Info
            },
            HostEventView::UrlChanged { .. } | HostEventView::OnBattery | HostEventView::OnAc
            | HostEventView::AppPaused { .. } | HostEventView::TunnelDown { .. } => Severity::Default,
            _ => Severity::Info,
        }
    }

    /// One line for people, used as the body of a notification.
    pub open spec fn summary(self) -> Seq<char> {
        match self {
            HostEventView::HostUp { downtime_secs, cause } => "host back up after "@
                + duration_text(downtime_secs as nat) + " ("@ + cause.name() + ")"@,
            HostEventView::DaemonStarted { unclean_shutdown } => if unclean_shutdown {
                "daemon started after unclean shutdown"@
            } else {
                "daemon started"@
            },
            HostEventView::AppDeployed { app, replaced } => if replaced {
                app + ": redeployed"@
            } else {
                app + ": deployed"@
            },
            HostEventView::AppDestroyed { app } => app + ": destroyed"@,
            HostEventView::AppPaused { app, reason } => app + ": paused ("@ + reason.name() + ")"@,
            HostEventView::AppResumed { app } => app + ": resumed"@,
            HostEventView::AppOomKilled { app, memory_mb, restarts } => app + ": OOM-killed at "@
                + text::decimal(memory_mb as nat) + "MB limit (restart #"@ + text::decimal(
                restarts as nat,
            ) + ") \u{2014} consider raising resources.memory"@,
            HostEventView::AppCrashLoop { app, restarts } => app + ": crash loop after "@
                + text::decimal(restarts as nat) + " restarts \u{2014} restarts stopped"@,
            HostEventView::AppUnhealthy { app, detail } => app + ": unhealthy \u{2014} "@ + detail,
            HostEventView::UrlChanged { app, new, .. } => app + ": new public URL "@ + new,
            HostEventView::TunnelDown { app } => app + ": tunnel down, re-provisioning"@,
            HostEventView::MemoryPressure { level, available_mb } => "memory pressure "@
                + level.name() + ": "@ + text::decimal(available_mb as nat) + "MB available"@,
            HostEventView::OnBattery => "host on battery power"@,
            HostEventView::OnAc => "host back on AC power"@,
            HostEventView::BatteryHealthDelta { capacity_pct, cycle_count } => "battery health: "@
                + double::fixed_text(capacity_pct, 1) + "% of design capacity, "@ + text::decimal(
                cycle_count as nat,
            ) + " cycles"@,
            HostEventView::DiskLow { free_gb } => "disk low: "@ + double::fixed_text(free_gb, 1)
                + "GB free"@,
            HostEventView::DeployRejected { app, reason } => app + ": deploy rejected \u{2014} "@
                + reason,
            HostEventView::DoctorRed { failed_checks } => "doctor red: "@ + split::joined(
                failed_checks,
                ", "@,
            ) + " \u{2014} deploys refused"@,
        }
    }
}

impl HostEvent {
    pub fn severity(&self) -> (r: Severity)
        ensures
            r == self@.severity(),
    {
        match self {
            HostEvent::HostUp { cause, .. } => match cause {
                DowntimeCause::Crashed | DowntimeCause::Unknown => Severity::Urgent,
                DowntimeCause::Slept | DowntimeCause::Rebooted => Severity::Default,
            },
            HostEvent::AppOomKilled { .. } | HostEvent::AppCrashLoop { .. }
            | HostEvent::DoctorRed { .. } | HostEvent::DiskLow { .. } => Severity::Urgent,
            HostEvent::MemoryPressure { level, .. } => match level {
                PressureLevel::Critical => Severity::Urgent,
                PressureLevel::Normal | PressureLevel::Warn => Severity::Info,
            },
            HostEvent::UrlChanged { .. } | HostEvent::OnBattery | HostEvent::OnAc
            | HostEvent::AppPaused { .. } | HostEvent::TunnelDown { .. } => Severity::Default,
            HostEvent::DaemonStarted { .. } | HostEvent::AppDeployed { .. }
            | HostEvent::AppDestroyed { .. } | HostEvent::AppResumed { .. }
            | HostEvent::AppUnhealthy { .. } | HostEvent::BatteryHealthDelta { .. }
            | HostEvent::DeployRejected { .. } => Severity::Info,
        }
    }

    /// One-line human summary used as the notification body.
    pub fn summary(&self) -> (r: String)
        ensures
            r@ == self@.summary(),
    {
        match self {
            HostEvent::HostUp { downtime_secs, cause } => "host back up after ".to_owned().concat(
                humanize_secs(*downtime_secs).as_str(),
            ).concat(" (").concat(cause.as_str()).concat(")"),
            HostEvent::DaemonStarted { unclean_shutdown } => if *unclean_shutdown {
                "daemon started after unclean shutdown".to_owned()
            } else {
                "daemon started".to_owned()
            },
            HostEvent::AppDeployed { app, replaced } => if *replaced {
                app.clone().concat(": redeployed")
            } else {
                app.clone().concat(": deployed")
            },
            HostEvent::AppDestroyed { app } => app.clone().concat(": destroyed"),
            HostEvent::AppPaused { app, reason } => app.clone().concat(": paused (").concat(
                reason.as_str(),
            ).concat(")"),
            HostEvent::AppResumed { app } => app.clone().concat(": resumed"),
            HostEvent::AppOomKilled { app, memory_mb, restarts } => app.clone().concat(
                ": OOM-killed at ",
            ).concat(dec(*memory_mb).as_str()).concat("MB limit (restart #").concat(
                dec(*restarts as u64).as_str(),
            ).concat(") \u{2014} consider raising resources.memory"),
            HostEvent::AppCrashLoop { app, restarts } => app.clone().concat(
                ": crash loop after ",
            ).concat(dec(*restarts as u64).as_str()).concat(" restarts \u{2014} restarts stopped"),
            HostEvent::AppUnhealthy { app, detail } => app.clone().concat(
                ": unhealthy \u{2014} ",
            ).concat(detail.as_str()),
            HostEvent::UrlChanged { app, new, .. } => app.clone().concat(": new public URL ")
                .concat(
                new.as_str(),
            ),
            HostEvent::TunnelDown { app } => app.clone().concat(": tunnel down, re-provisioning"),
            HostEvent::MemoryPressure { level, available_mb } => "memory pressure ".to_owned()
                .concat(
                level.as_str(),
            ).concat(": ").concat(dec(*available_mb).as_str()).concat("MB available"),
            HostEvent::OnBattery => "host on battery power".to_owned(),
            HostEvent::OnAc => "host back on AC power".to_owned(),
            HostEvent::BatteryHealthDelta { capacity_pct, cycle_count } =>
                "battery health: ".to_owned().concat(capacity_pct.fixed(1).as_str()).concat(
                "% of design capacity, ",
            ).concat(dec(*cycle_count).as_str()).concat(" cycles"),
            HostEvent::DiskLow { free_gb } => "disk low: ".to_owned().concat(
                free_gb.fixed(1).as_str(),
            ).concat("GB free"),
            HostEvent::DeployRejected { app, reason } => app.clone().concat(
                ": deploy rejected \u{2014} ",
            ).concat(reason.as_str()),
            HostEvent::DoctorRed { failed_checks } => "doctor red: ".to_owned().concat(
                join(failed_checks, ", ").as_str(),
            ).concat(" \u{2014} deploys refused"),
        }
    }
}

/// What lands in the event ledger and streams to followers.
#[derive(Debug)]
pub struct EventEnvelope {
    pub at: Timestamp,
    pub event: HostEvent,
}

impl EventEnvelope {
    /// The event, stamped with the current time.
    pub fn now(event: HostEvent) -> (r: Self)
        ensures
            r.event == event,
            r.at.valid(),
    {
        EventEnvelope { at: utc_now(), event }
    }
}

// ----------------------------------------------------------------------- laws

/// Nothing that loses an app or the host is quieter than `Default`: downtime,
/// memory kills, crash loops and failed host checks always rise above `Info`.
pub proof fn losses_are_never_quiet(e: HostEventView)
    requires
        e is HostUp || e is AppOomKilled || e is AppCrashLoop || e is DoctorRed || e is DiskLow,
    ensures
        e.severity() != Severity::Info,
        e !is HostUp ==> e.severity() == Severity::Urgent,
{
}

/// How urgent an event is, for each kind of event.
pub proof fn urgency_follows_the_kind(e: HostEventView)
    ensures
        e.severity() == Severity::Urgent <==> e is AppOomKilled || e is AppCrashLoop || e is DoctorRed
            || e is DiskLow || (e is HostUp && (e->HostUp_cause == DowntimeCause::Crashed
            || e->HostUp_cause == DowntimeCause::Unknown)) || (e is MemoryPressure
            && e->MemoryPressure_level == PressureLevel::Critical),
        e.severity() == Severity::Default <==> e is UrlChanged || e is OnBattery || e is OnAc
            || e is AppPaused || e is TunnelDown || (e is HostUp && (e->HostUp_cause
            == DowntimeCause::Slept || e->HostUp_cause == DowntimeCause::Rebooted)),
{
}

/// The app that an event is about is what its line for people begins with.
pub open spec fn app_in(e: HostEventView) -> Option<Seq<char>> {
    match e {
        HostEventView::AppDeployed { app, .. } => Some(app),
        HostEventView::AppDestroyed { app } => Some(app),
        HostEventView::AppPaused { app, .. } => Some(app),
        HostEventView::AppResumed { app } => Some(app),
        HostEventView::AppOomKilled { app, .. } => Some(app),
        HostEventView::AppCrashLoop { app, .. } => Some(app),
        HostEventView::AppUnhealthy { app, .. } => Some(app),
        HostEventView::UrlChanged { app, .. } => Some(app),
        HostEventView::TunnelDown { app } => Some(app),
        HostEventView::DeployRejected { app, .. } => Some(app),
        _ => None,
    }
}

/// The line for people names the app first, and what is new or wrong last: the new URL, the
/// detail of an unhealthy app, the reason of a rejection.
pub proof fn lines_name_the_app_and_the_matter(e: HostEventView)
    ensures
        app_in(e) matches Some(app) ==> e.summary().len() > app.len() && e.summary().take(
            app.len() as int,
        ) == app,
        e matches HostEventView::UrlChanged { new, .. } ==> e.summary().skip(
            e.summary().len() - new.len(),
        ) == new,
        e matches HostEventView::AppUnhealthy { detail, .. } ==> e.summary().skip(
            e.summary().len() - detail.len(),
        ) == detail,
        e matches HostEventView::DeployRejected { reason, .. } ==> e.summary().skip(
            e.summary().len() - reason.len(),
        ) == reason,
{
    let s = e.summary();
    if app_in(e) is Some {
        let app = app_in(e)->0;
        reveal_strlit(": redeployed");
        reveal_strlit(": deployed");
        reveal_strlit(": destroyed");
        reveal_strlit(": paused (");
        reveal_strlit(": resumed");
        reveal_strlit(": OOM-killed at ");
        reveal_strlit(": crash loop after ");
        reveal_strlit(": unhealthy \u{2014} ");
        reveal_strlit(": new public URL ");
        reveal_strlit(": tunnel down, re-provisioning");
        reveal_strlit(": deploy rejected \u{2014} ");
        assert(s.take(app.len() as int) =~= app);
    }
    match e {
        HostEventView::UrlChanged { new, .. } => {
            assert(s.skip(s.len() - new.len()) =~= new);
        },
        HostEventView::AppUnhealthy { detail, .. } => {
            assert(s.skip(s.len() - detail.len()) =~= detail);
        },
        HostEventView::DeployRejected { reason, .. } => {
            assert(s.skip(s.len() - reason.len()) =~= reason);
        },
        _ => {},
    }
}

/// A duration is told in its hours, minutes and seconds: those of the whole, with what is
/// smaller than the smaller unit left out.
pub proof fn durations_are_told_in_their_parts(h: nat, m: nat, s: nat)
    requires
        m < 60,
        s < 60,
    ensures
        h > 0 ==> duration_text(h * 3600 + m * 60 + s) == text::decimal(h) + "h "@ + text::decimal(m)
            + "m"@,
        m > 0 ==> duration_text(m * 60 + s) == text::decimal(m) + "m "@ + text::decimal(s) + "s"@,
        duration_text(s) == text::decimal(s) + "s"@,
{
}

} // verus!
