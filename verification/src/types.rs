//! Request and response types shared by the daemon and the CLI.
use vstd::prelude::*;

use crate::app_spec::{AppSpec, AppSpecView, Priority};
use crate::double::Double;
use crate::events::DowntimeCause;
use crate::maps::TextMap;
use crate::split;
use crate::time::Timestamp;
use crate::values;
use crate::values::{clone_opt, clone_texts};

verus! {

pub const DEFAULT_API_PORT: u16 = 8786;

pub const DEFAULT_PROXY_PORT: u16 = 8787;

#[derive(Debug, Clone, Copy, PartialEq, Eq, Structural)]
pub enum AppState {
    Deploying,
    Running,
    Paused,
    CrashLoop,
    Stopped,
}

impl AppState {
    pub open spec fn name(self) -> Seq<char> {
        match self {
            AppState::Deploying => "deploying"@,
            AppState::Running => "running"@,
            AppState::Paused => "paused"@,
            AppState::CrashLoop => "crash_loop"@,
            AppState::Stopped => "stopped"@,
        }
    }

    pub fn as_str(&self) -> (r: &'static str)
        ensures
            r@ == self.name(),
    {
        match self {
            AppState::Deploying => "deploying",
            AppState::Running => "running",
            AppState::Paused => "paused",
            AppState::CrashLoop => "crash_loop",
            AppState::Stopped => "stopped",
        }
    }
}

#[derive(Debug, Clone, Copy, PartialEq, Eq, Structural)]
pub enum PsKind {
    Daemon,
    Container,
    Cloudflared,
}

#[derive(Debug, Clone, Copy, PartialEq, Eq, Structural)]
pub struct PowerStatus {
    pub on_ac: bool,
    pub battery_pct: Option<Double>,
    pub cycle_count: Option<u64>,
    pub capacity_pct_of_design: Option<Double>,
}

#[derive(Debug, Clone, Copy, PartialEq, Eq, Structural)]
pub struct DowntimeWindow {
    pub start: Timestamp,
    pub end: Timestamp,
    pub secs: u64,
    pub cause: DowntimeCause,
}

/// What the API tells about an app.
#[derive(Debug)]
pub struct AppInfo {
    pub name: String,
    pub state: AppState,
    /// Which fleet device runs this app. None = the host you asked.
    pub device: Option<String>,
    pub priority: Priority,
    pub replicas_desired: u8,
    pub replicas_running: u8,
    /// Public (tunnel) URL if a tunnel is up.
    pub url: Option<String>,
    pub local_url: String,
    pub url_changed_at: Option<Timestamp>,
    pub memory_mb: u64,
    pub cpu: Double,
    pub created_at: Timestamp,
    pub spec: AppSpec,
}

/// The contents of an `AppInfo`.
pub struct AppInfoView {
    pub name: Seq<char>,
    pub state: AppState,
    pub device: Option<Seq<char>>,
    pub priority: Priority,
    pub replicas_desired: u8,
    pub replicas_running: u8,
    pub url: Option<Seq<char>>,
    pub local_url: Seq<char>,
    pub url_changed_at: Option<Timestamp>,
    pub memory_mb: u64,
    pub cpu: Double,
    pub created_at: Timestamp,
    pub spec: AppSpecView,
}

impl View for AppInfo {
    type V = AppInfoView;

    open spec fn view(&self) -> AppInfoView {
        AppInfoView {
            name: self.name@,
            state: self.state,
            device: values::opt_view(self.device),
            priority: self.priority,
            replicas_desired: self.replicas_desired,
            replicas_running: self.replicas_running,
            url: values::opt_view(self.url),
            local_url: self.local_url@,
            url_changed_at: self.url_changed_at,
            memory_mb: self.memory_mb,
            cpu: self.cpu,
            created_at: self.created_at,
            spec: self.spec@,
        }
    }
}

impl Clone for AppInfo {
    fn clone(&self) -> (r: Self)
        ensures
            r@ == self@,
    {
        AppInfo {
            name: self.name.clone(),
            state: self.state,
            device: clone_opt(&self.device),
            priority: self.priority,
            replicas_desired: self.replicas_desired,
            replicas_running: self.replicas_running,
            url: clone_opt(&self.url),
            local_url: self.local_url.clone(),
            url_changed_at: self.url_changed_at,
            memory_mb: self.memory_mb,
            cpu: self.cpu,
            created_at: self.created_at,
            spec: self.spec.clone(),
        }
    }
}

pub open spec fn app_info_views(v: Seq<AppInfo>) -> Seq<AppInfoView> {
    Seq::new(v.len(), |i: int| v[i]@)
}

pub fn clone_app_infos(v: &Vec<AppInfo>) -> (r: Vec<AppInfo>)
    ensures
        app_info_views(r@) == app_info_views(v@),
{
    let mut out: Vec<AppInfo> = Vec::new();
    let mut i: usize = 0;
    while i < v.len()
        invariant
            i <= v.len(),
            out@.len() == i,
            forall|j: int| 0 <= j < i ==> (#[trigger] out@[j])@ == v@[j]@,
        decreases v.len() - i,
    {
        out.push(v[i].clone());
        i += 1;
    }
    assert(app_info_views(out@) =~= app_info_views(v@));
    out
}

#[derive(Debug)]
pub struct DeployResponse {
    pub app: AppInfo,
    /// True when the deploy replaced a running version (upsert path).
    pub replaced: bool,
    /// Set when no tunnel could be provisioned; explains the degrade.
    pub tunnel_note: Option<String>,
}

/// The contents of a `DeployResponse`.
pub struct DeployResponseView {
    pub app: AppInfoView,
    pub replaced: bool,
    pub tunnel_note: Option<Seq<char>>,
}

impl View for DeployResponse {
    type V = DeployResponseView;

    open spec fn view(&self) -> DeployResponseView {
        DeployResponseView {
            app: self.app@,
            replaced: self.replaced,
            tunnel_note: values::opt_view(self.tunnel_note),
        }
    }
}

impl Clone for DeployResponse {
    fn clone(&self) -> (r: Self)
        ensures
            r@ == self@,
    {
        DeployResponse {
            app: self.app.clone(),
            replaced: self.replaced,
            tunnel_note: clone_opt(&self.tunnel_note),
        }
    }
}

#[derive(Debug)]
pub struct ReplicaStats {
    pub container_id: String,
    pub memory_used_mb: Double,
    pub memory_limit_mb: u64,
    pub cpu_pct: Double,
    pub state: String,
}

/// The contents of a `ReplicaStats`.
pub struct ReplicaStatsView {
    pub container_id: Seq<char>,
    pub memory_used_mb: Double,
    pub memory_limit_mb: u64,
    pub cpu_pct: Double,
    pub state: Seq<char>,
}

impl View for ReplicaStats {
    type V = ReplicaStatsView;

    open spec fn view(&self) -> ReplicaStatsView {
        ReplicaStatsView {
            container_id: self.container_id@,
            memory_used_mb: self.memory_used_mb,
            memory_limit_mb: self.memory_limit_mb,
            cpu_pct: self.cpu_pct,
            state: self.state@,
        }
    }
}

impl Clone for ReplicaStats {
    fn clone(&self) -> (r: Self)
        ensures
            r@ == self@,
    {
        ReplicaStats {
            container_id: self.container_id.clone(),
            memory_used_mb: self.memory_used_mb,
            memory_limit_mb: self.memory_limit_mb,
            cpu_pct: self.cpu_pct,
            state: self.state.clone(),
        }
    }
}

pub open spec fn replica_stats_views(v: Seq<ReplicaStats>) -> Seq<ReplicaStatsView> {
    Seq::new(v.len(), |i: int| v[i]@)
}

pub fn clone_replica_statss(v: &Vec<ReplicaStats>) -> (r: Vec<ReplicaStats>)
    ensures
        replica_stats_views(r@) == replica_stats_views(v@),
{
    let mut out: Vec<ReplicaStats> = Vec::new();
    let mut i: usize = 0;
    while i < v.len()
        invariant
            i <= v.len(),
            out@.len() == i,
            forall|j: int| 0 <= j < i ==> (#[trigger] out@[j])@ == v@[j]@,
        decreases v.len() - i,
    {
        out.push(v[i].clone());
        i += 1;
    }
    assert(replica_stats_views(out@) =~= replica_stats_views(v@));
    out
}

#[derive(Debug)]
pub struct AppStats {
    pub name: String,
    pub requests_total: u64,
    pub inflight: u32,
    pub shed_total: u64,
    pub p50_ms: Double,
    pub p95_ms: Double,
    pub replicas: Vec<ReplicaStats>,
}

/// The contents of an `AppStats`.
pub struct AppStatsView {
    pub name: Seq<char>,
    pub requests_total: u64,
    pub inflight: u32,
    pub shed_total: u64,
    pub p50_ms: Double,
    pub p95_ms: Double,
    pub replicas: Seq<ReplicaStatsView>,
}

impl View for AppStats {
    type V = AppStatsView;

    open spec fn view(&self) -> AppStatsView {
        AppStatsView {
            name: self.name@,
            requests_total: self.requests_total,
            inflight: self.inflight,
            shed_total: self.shed_total,
            p50_ms: self.p50_ms,
            p95_ms: self.p95_ms,
            replicas: replica_stats_views(self.replicas@),
        }
    }
}

impl Clone for AppStats {
    fn clone(&self) -> (r: Self)
        ensures
            r@ == self@,
    {
        AppStats {
            name: self.name.clone(),
            requests_total: self.requests_total,
            inflight: self.inflight,
            shed_total: self.shed_total,
            p50_ms: self.p50_ms,
            p95_ms: self.p95_ms,
            replicas: clone_replica_statss(&self.replicas),
        }
    }
}

/// One app's share of the memory budget.
#[derive(Debug)]
pub struct Allocation {
    pub app: String,
    pub memory_mb: u64,
    pub cpu: Double,
    pub replicas: u8,
}

/// The contents of an `Allocation`.
pub struct AllocationView {
    pub app: Seq<char>,
    pub memory_mb: u64,
    pub cpu: Double,
    pub replicas: u8,
}

impl View for Allocation {
    type V = AllocationView;

    open spec fn view(&self) -> AllocationView {
        AllocationView {
            app: self.app@,
            memory_mb: self.memory_mb,
            cpu: self.cpu,
            replicas: self.replicas,
        }
    }
}

impl Clone for Allocation {
    fn clone(&self) -> (r: Self)
        ensures
            r@ == self@,
    {
        Allocation {
            app: self.app.clone(),
            memory_mb: self.memory_mb,
            cpu: self.cpu,
            replicas: self.replicas,
        }
    }
}

pub open spec fn allocation_views(v: Seq<Allocation>) -> Seq<AllocationView> {
    Seq::new(v.len(), |i: int| v[i]@)
}

pub fn clone_allocations(v: &Vec<Allocation>) -> (r: Vec<Allocation>)
    ensures
        allocation_views(r@) == allocation_views(v@),
{
    let mut out: Vec<Allocation> = Vec::new();
    let mut i: usize = 0;
    while i < v.len()
        invariant
            i <= v.len(),
            out@.len() == i,
            forall|j: int| 0 <= j < i ==> (#[trigger] out@[j])@ == v@[j]@,
        decreases v.len() - i,
    {
        out.push(v[i].clone());
        i += 1;
    }
    assert(allocation_views(out@) =~= allocation_views(v@));
    out
}

/// The resource ledger: VM-denominated capacity and declared allocations. This is
/// what an overcommit rejection embeds, so that its reader knows exactly what to
/// shrink or destroy.
#[derive(Debug)]
pub struct ResourceLedger {
    pub vm_memory_mb: u64,
    pub vm_cpus: u32,
    pub mac_memory_mb: u64,
    pub reserve_pct: u8,
    pub reserved_mb: u64,
    pub allocatable_mb: u64,
    pub allocated_mb: u64,
    pub allocations: Vec<Allocation>,
}

/// The contents of a `ResourceLedger`.
pub struct ResourceLedgerView {
    pub vm_memory_mb: u64,
    pub vm_cpus: u32,
    pub mac_memory_mb: u64,
    pub reserve_pct: u8,
    pub reserved_mb: u64,
    pub allocatable_mb: u64,
    pub allocated_mb: u64,
    pub allocations: Seq<AllocationView>,
}

impl View for ResourceLedger {
    type V = ResourceLedgerView;

    open spec fn view(&self) -> ResourceLedgerView {
        ResourceLedgerView {
            vm_memory_mb: self.vm_memory_mb,
            vm_cpus: self.vm_cpus,
            mac_memory_mb: self.mac_memory_mb,
            reserve_pct: self.reserve_pct,
            reserved_mb: self.reserved_mb,
            allocatable_mb: self.allocatable_mb,
            allocated_mb: self.allocated_mb,
            allocations: allocation_views(self.allocations@),
        }
    }
}

impl Clone for ResourceLedger {
    fn clone(&self) -> (r: Self)
        ensures
            r@ == self@,
    {
        ResourceLedger {
            vm_memory_mb: self.vm_memory_mb,
            vm_cpus: self.vm_cpus,
            mac_memory_mb: self.mac_memory_mb,
            reserve_pct: self.reserve_pct,
            reserved_mb: self.reserved_mb,
            allocatable_mb: self.allocatable_mb,
            allocated_mb: self.allocated_mb,
            allocations: clone_allocations(&self.allocations),
        }
    }
}

#[derive(Debug)]
pub struct HostStatus {
    pub daemon_version: String,
    pub started_at: Timestamp,
    pub doctor_green: bool,
    /// Public URL of the daemon's own API (the control tunnel).
    pub control_url: Option<String>,
    pub ledger: ResourceLedger,
    pub power: PowerStatus,
    pub availability_pct_7d: Option<Double>,
    pub req_per_sec: Double,
    pub apps: Vec<AppInfo>,
}

/// The contents of a `HostStatus`.
pub struct HostStatusView {
    pub daemon_version: Seq<char>,
    pub started_at: Timestamp,
    pub doctor_green: bool,
    pub control_url: Option<Seq<char>>,
    pub ledger: ResourceLedgerView,
    pub power: PowerStatus,
    pub availability_pct_7d: Option<Double>,
    pub req_per_sec: Double,
    pub apps: Seq<AppInfoView>,
}

impl View for HostStatus {
    type V = HostStatusView;

    open spec fn view(&self) -> HostStatusView {
        HostStatusView {
            daemon_version: self.daemon_version@,
            started_at: self.started_at,
            doctor_green: self.doctor_green,
            control_url: values::opt_view(self.control_url),
            ledger: self.ledger@,
            power: self.power,
            availability_pct_7d: self.availability_pct_7d,
            req_per_sec: self.req_per_sec,
            apps: app_info_views(self.apps@),
        }
    }
}

impl Clone for HostStatus {
    fn clone(&self) -> (r: Self)
        ensures
            r@ == self@,
    {
        HostStatus {
            daemon_version: self.daemon_version.clone(),
            started_at: self.started_at,
            doctor_green: self.doctor_green,
            control_url: clone_opt(&self.control_url),
            ledger: self.ledger.clone(),
            power: self.power,
            availability_pct_7d: self.availability_pct_7d,
            req_per_sec: self.req_per_sec,
            apps: clone_app_infos(&self.apps),
        }
    }
}

#[derive(Debug)]
pub struct BatteryReport {
    pub sampled_over_days: Double,
    pub sample_count: usize,
    pub cycle_count: Option<u64>,
    pub capacity_pct_of_design: Option<Double>,
    /// Capacity trend over the sample window, percentage points (negative =
    /// degrading).
    pub capacity_trend_pct: Option<Double>,
    pub cycles_per_week: Option<Double>,
    /// % of samples sitting at >=95% charge while on AC.
    pub high_soc_dwell_pct: Option<Double>,
    pub avg_temp_c: Option<Double>,
    pub hades_cpu_share_pct: Option<Double>,
    pub recommendations: Vec<String>,
}

/// The contents of a `BatteryReport`.
pub struct BatteryReportView {
    pub sampled_over_days: Double,
    pub sample_count: usize,
    pub cycle_count: Option<u64>,
    pub capacity_pct_of_design: Option<Double>,
    pub capacity_trend_pct: Option<Double>,
    pub cycles_per_week: Option<Double>,
    pub high_soc_dwell_pct: Option<Double>,
    pub avg_temp_c: Option<Double>,
    pub hades_cpu_share_pct: Option<Double>,
    pub recommendations: Seq<Seq<char>>,
}

impl View for BatteryReport {
    type V = BatteryReportView;

    open spec fn view(&self) -> BatteryReportView {
        BatteryReportView {
            sampled_over_days: self.sampled_over_days,
            sample_count: self.sample_count,
            cycle_count: self.cycle_count,
            capacity_pct_of_design: self.capacity_pct_of_design,
            capacity_trend_pct: self.capacity_trend_pct,
            cycles_per_week: self.cycles_per_week,
            high_soc_dwell_pct: self.high_soc_dwell_pct,
            avg_temp_c: self.avg_temp_c,
            hades_cpu_share_pct: self.hades_cpu_share_pct,
            recommendations: split::views(self.recommendations@),
        }
    }
}

impl Clone for BatteryReport {
    fn clone(&self) -> (r: Self)
        ensures
            r@ == self@,
    {
        BatteryReport {
            sampled_over_days: self.sampled_over_days,
            sample_count: self.sample_count,
            cycle_count: self.cycle_count,
            capacity_pct_of_design: self.capacity_pct_of_design,
            capacity_trend_pct: self.capacity_trend_pct,
            cycles_per_week: self.cycles_per_week,
            high_soc_dwell_pct: self.high_soc_dwell_pct,
            avg_temp_c: self.avg_temp_c,
            hades_cpu_share_pct: self.hades_cpu_share_pct,
            recommendations: clone_texts(&self.recommendations),
        }
    }
}

#[derive(Debug)]
pub struct UptimeReport {
    pub since: Timestamp,
    pub availability_pct: Double,
    pub windows: Vec<DowntimeWindow>,
}

/// The contents of a `UptimeReport`.
pub struct UptimeReportView {
    pub since: Timestamp,
    pub availability_pct: Double,
    pub windows: Seq<DowntimeWindow>,
}

impl View for UptimeReport {
    type V = UptimeReportView;

    open spec fn view(&self) -> UptimeReportView {
        UptimeReportView {
            since: self.since,
            availability_pct: self.availability_pct,
            windows: self.windows@,
        }
    }
}

impl Clone for UptimeReport {
    fn clone(&self) -> (r: Self)
        ensures
            r@ == self@,
    {
        UptimeReport {
            since: self.since,
            availability_pct: self.availability_pct,
            windows: self.windows.clone(),
        }
    }
}

#[derive(Debug)]
pub struct PsEntry {
    pub kind: PsKind,
    pub app: Option<String>,
    pub id: String,
    pub detail: String,
    pub rss_mb: Option<Double>,
    pub cpu_pct: Option<Double>,
    pub state: String,
}

/// The contents of a `PsEntry`.
pub struct PsEntryView {
    pub kind: PsKind,
    pub app: Option<Seq<char>>,
    pub id: Seq<char>,
    pub detail: Seq<char>,
    pub rss_mb: Option<Double>,
    pub cpu_pct: Option<Double>,
    pub state: Seq<char>,
}

impl View for PsEntry {
    type V = PsEntryView;

    open spec fn view(&self) -> PsEntryView {
        PsEntryView {
            kind: self.kind,
            app: values::opt_view(self.app),
            id: self.id@,
            detail: self.detail@,
            rss_mb: self.rss_mb,
            cpu_pct: self.cpu_pct,
            state: self.state@,
        }
    }
}

impl Clone for PsEntry {
    fn clone(&self) -> (r: Self)
        ensures
            r@ == self@,
    {
        PsEntry {
            kind: self.kind,
            app: clone_opt(&self.app),
            id: self.id.clone(),
            detail: self.detail.clone(),
            rss_mb: self.rss_mb,
            cpu_pct: self.cpu_pct,
            state: self.state.clone(),
        }
    }
}

pub open spec fn ps_entry_views(v: Seq<PsEntry>) -> Seq<PsEntryView> {
    Seq::new(v.len(), |i: int| v[i]@)
}

pub fn clone_ps_entrys(v: &Vec<PsEntry>) -> (r: Vec<PsEntry>)
    ensures
        ps_entry_views(r@) == ps_entry_views(v@),
{
    let mut out: Vec<PsEntry> = Vec::new();
    let mut i: usize = 0;
    while i < v.len()
        invariant
            i <= v.len(),
            out@.len() == i,
            forall|j: int| 0 <= j < i ==> (#[trigger] out@[j])@ == v@[j]@,
        decreases v.len() - i,
    {
        out.push(v[i].clone());
        i += 1;
    }
    assert(ps_entry_views(out@) =~= ps_entry_views(v@));
    out
}

#[derive(Debug)]
pub struct PsReport {
    pub entries: Vec<PsEntry>,
}

/// The contents of a `PsReport`.
pub struct PsReportView {
    pub entries: Seq<PsEntryView>,
}

impl View for PsReport {
    type V = PsReportView;

    open spec fn view(&self) -> PsReportView {
        PsReportView {
            entries: ps_entry_views(self.entries@),
        }
    }
}

impl Clone for PsReport {
    fn clone(&self) -> (r: Self)
        ensures
            r@ == self@,
    {
        PsReport {
            entries: clone_ps_entrys(&self.entries),
        }
    }
}

/// A device asking to join a fleet: its name plus how the hub reaches it.
#[derive(Debug)]
pub struct JoinRequest {
    pub name: String,
    pub control_url: String,
    pub token: String,
}

/// The contents of a `JoinRequest`.
pub struct JoinRequestView {
    pub name: Seq<char>,
    pub control_url: Seq<char>,
    pub token: Seq<char>,
}

impl View for JoinRequest {
    type V = JoinRequestView;

    open spec fn view(&self) -> JoinRequestView {
        JoinRequestView {
            name: self.name@,
            control_url: self.control_url@,
            token: self.token@,
        }
    }
}

impl Clone for JoinRequest {
    fn clone(&self) -> (r: Self)
        ensures
            r@ == self@,
    {
        JoinRequest {
            name: self.name.clone(),
            control_url: self.control_url.clone(),
            token: self.token.clone(),
        }
    }
}

/// One device as the fleet listing shows it.
#[derive(Debug)]
pub struct FleetDeviceView {
    pub name: String,
    pub control_url: String,
    pub healthy: bool,
    pub vm_memory_mb: u64,
    pub allocatable_mb: u64,
    pub allocated_mb: u64,
    pub free_mb: u64,
    pub apps: u32,
    pub last_seen: Option<Timestamp>,
    pub added_at: Timestamp,
}

/// The contents of a `FleetDeviceView`.
pub struct FleetDeviceViewView {
    pub name: Seq<char>,
    pub control_url: Seq<char>,
    pub healthy: bool,
    pub vm_memory_mb: u64,
    pub allocatable_mb: u64,
    pub allocated_mb: u64,
    pub free_mb: u64,
    pub apps: u32,
    pub last_seen: Option<Timestamp>,
    pub added_at: Timestamp,
}

impl View for FleetDeviceView {
    type V = FleetDeviceViewView;

    open spec fn view(&self) -> FleetDeviceViewView {
        FleetDeviceViewView {
            name: self.name@,
            control_url: self.control_url@,
            healthy: self.healthy,
            vm_memory_mb: self.vm_memory_mb,
            allocatable_mb: self.allocatable_mb,
            allocated_mb: self.allocated_mb,
            free_mb: self.free_mb,
            apps: self.apps,
            last_seen: self.last_seen,
            added_at: self.added_at,
        }
    }
}

impl Clone for FleetDeviceView {
    fn clone(&self) -> (r: Self)
        ensures
            r@ == self@,
    {
        FleetDeviceView {
            name: self.name.clone(),
            control_url: self.control_url.clone(),
            healthy: self.healthy,
            vm_memory_mb: self.vm_memory_mb,
            allocatable_mb: self.allocatable_mb,
            allocated_mb: self.allocated_mb,
            free_mb: self.free_mb,
            apps: self.apps,
            last_seen: self.last_seen,
            added_at: self.added_at,
        }
    }
}

pub open spec fn fleet_device_view_views(v: Seq<FleetDeviceView>) -> Seq<FleetDeviceViewView> {
    Seq::new(v.len(), |i: int| v[i]@)
}

pub fn clone_fleet_device_views(v: &Vec<FleetDeviceView>) -> (r: Vec<FleetDeviceView>)
    ensures
        fleet_device_view_views(r@) == fleet_device_view_views(v@),
{
    let mut out: Vec<FleetDeviceView> = Vec::new();
    let mut i: usize = 0;
    while i < v.len()
        invariant
            i <= v.len(),
            out@.len() == i,
            forall|j: int| 0 <= j < i ==> (#[trigger] out@[j])@ == v@[j]@,
        decreases v.len() - i,
    {
        out.push(v[i].clone());
        i += 1;
    }
    assert(fleet_device_view_views(out@) =~= fleet_device_view_views(v@));
    out
}

#[derive(Debug)]
pub struct FleetView {
    /// The hub itself, as the first entry (name "local"), then the devices that joined it.
    pub devices: Vec<FleetDeviceView>,
}

/// The contents of a `FleetView`.
pub struct FleetViewView {
    pub devices: Seq<FleetDeviceViewView>,
}

impl View for FleetView {
    type V = FleetViewView;

    open spec fn view(&self) -> FleetViewView {
        FleetViewView {
            devices: fleet_device_view_views(self.devices@),
        }
    }
}

impl Clone for FleetView {
    fn clone(&self) -> (r: Self)
        ensures
            r@ == self@,
    {
        FleetView {
            devices: clone_fleet_device_views(&self.devices),
        }
    }
}

/// Set/unset secrets for one app. Values are write-only: they go in here and never
/// come back out of any endpoint.
#[derive(Debug)]
pub struct SecretsUpdate {
    pub set: TextMap,
    pub unset: Vec<String>,
}

/// The contents of a `SecretsUpdate`.
pub struct SecretsUpdateView {
    pub set: Map<Seq<char>, Seq<char>>,
    pub unset: Seq<Seq<char>>,
}

impl View for SecretsUpdate {
    type V = SecretsUpdateView;

    open spec fn view(&self) -> SecretsUpdateView {
        SecretsUpdateView {
            set: self.set@,
            unset: split::views(self.unset@),
        }
    }
}

impl Clone for SecretsUpdate {
    fn clone(&self) -> (r: Self)
        ensures
            r@ == self@,
    {
        SecretsUpdate {
            set: self.set.clone(),
            unset: clone_texts(&self.unset),
        }
    }
}

/// The secrets of an app as the API shows them: key names only.
#[derive(Debug)]
pub struct SecretsView {
    pub app: String,
    pub keys: Vec<String>,
    /// Whether the store is keychain-encrypted at rest on that host.
    pub encrypted: bool,
    /// True when running replicas were restarted to pick the change up.
    pub applied: bool,
    pub device: Option<String>,
}

/// The contents of a `SecretsView`.
pub struct SecretsViewView {
    pub app: Seq<char>,
    pub keys: Seq<Seq<char>>,
    pub encrypted: bool,
    pub applied: bool,
    pub device: Option<Seq<char>>,
}

impl View for SecretsView {
    type V = SecretsViewView;

    open spec fn view(&self) -> SecretsViewView {
        SecretsViewView {
            app: self.app@,
            keys: split::views(self.keys@),
            encrypted: self.encrypted,
            applied: self.applied,
            device: values::opt_view(self.device),
        }
    }
}

impl Clone for SecretsView {
    fn clone(&self) -> (r: Self)
        ensures
            r@ == self@,
    {
        SecretsView {
            app: self.app.clone(),
            keys: clone_texts(&self.keys),
            encrypted: self.encrypted,
            applied: self.applied,
            device: clone_opt(&self.device),
        }
    }
}

#[derive(Debug)]
pub struct HealthResponse {
    pub ok: bool,
    pub version: String,
    pub doctor_green: bool,
}

/// The contents of a `HealthResponse`.
pub struct HealthResponseView {
    pub ok: bool,
    pub version: Seq<char>,
    pub doctor_green: bool,
}

impl View for HealthResponse {
    type V = HealthResponseView;

    open spec fn view(&self) -> HealthResponseView {
        HealthResponseView {
            ok: self.ok,
            version: self.version@,
            doctor_green: self.doctor_green,
        }
    }
}

impl Clone for HealthResponse {
    fn clone(&self) -> (r: Self)
        ensures
            r@ == self@,
    {
        HealthResponse {
            ok: self.ok,
            version: self.version.clone(),
            doctor_green: self.doctor_green,
        }
    }
}

#[derive(Debug)]
pub struct NotifyTestResponse {
    pub delivered_to: Vec<String>,
}

/// The contents of a `NotifyTestResponse`.
pub struct NotifyTestResponseView {
    pub delivered_to: Seq<Seq<char>>,
}

impl View for NotifyTestResponse {
    type V = NotifyTestResponseView;

    open spec fn view(&self) -> NotifyTestResponseView {
        NotifyTestResponseView {
            delivered_to: split::views(self.delivered_to@),
        }
    }
}

impl Clone for NotifyTestResponse {
    fn clone(&self) -> (r: Self)
        ensures
            r@ == self@,
    {
        NotifyTestResponse {
            delivered_to: clone_texts(&self.delivered_to),
        }
    }
}

/// A stable public name held by an app.
#[derive(Debug)]
pub struct DomainClaim {
    pub app: String,
    pub name: String,
    pub hostname: String,
}

/// The contents of a `DomainClaim`.
pub struct DomainClaimView {
    pub app: Seq<char>,
    pub name: Seq<char>,
    pub hostname: Seq<char>,
}

impl View for DomainClaim {
    type V = DomainClaimView;

    open spec fn view(&self) -> DomainClaimView {
        DomainClaimView {
            app: self.app@,
            name: self.name@,
            hostname: self.hostname@,
        }
    }
}

impl Clone for DomainClaim {
    fn clone(&self) -> (r: Self)
        ensures
            r@ == self@,
    {
        DomainClaim {
            app: self.app.clone(),
            name: self.name.clone(),
            hostname: self.hostname.clone(),
        }
    }
}

pub open spec fn domain_claim_views(v: Seq<DomainClaim>) -> Seq<DomainClaimView> {
    Seq::new(v.len(), |i: int| v[i]@)
}

pub fn clone_domain_claims(v: &Vec<DomainClaim>) -> (r: Vec<DomainClaim>)
    ensures
        domain_claim_views(r@) == domain_claim_views(v@),
{
    let mut out: Vec<DomainClaim> = Vec::new();
    let mut i: usize = 0;
    while i < v.len()
        invariant
            i <= v.len(),
            out@.len() == i,
            forall|j: int| 0 <= j < i ==> (#[trigger] out@[j])@ == v@[j]@,
        decreases v.len() - i,
    {
        out.push(v[i].clone());
        i += 1;
    }
    assert(domain_claim_views(out@) =~= domain_claim_views(v@));
    out
}

#[derive(Debug)]
pub struct DomainClaimList {
    pub claims: Vec<DomainClaim>,
}

/// The contents of a `DomainClaimList`.
pub struct DomainClaimListView {
    pub claims: Seq<DomainClaimView>,
}

impl View for DomainClaimList {
    type V = DomainClaimListView;

    open spec fn view(&self) -> DomainClaimListView {
        DomainClaimListView {
            claims: domain_claim_views(self.claims@),
        }
    }
}

impl Clone for DomainClaimList {
    fn clone(&self) -> (r: Self)
        ensures
            r@ == self@,
    {
        DomainClaimList {
            claims: clone_domain_claims(&self.claims),
        }
    }
}

/// One step of the networking self-test.
#[derive(Debug)]
pub struct TestCheck {
    pub name: String,
    pub pass: bool,
    pub detail: String,
    pub group: String,
}

/// The contents of a `TestCheck`.
pub struct TestCheckView {
    pub name: Seq<char>,
    pub pass: bool,
    pub detail: Seq<char>,
    pub group: Seq<char>,
}

impl View for TestCheck {
    type V = TestCheckView;

    open spec fn view(&self) -> TestCheckView {
        TestCheckView {
            name: self.name@,
            pass: self.pass,
            detail: self.detail@,
            group: self.group@,
        }
    }
}

impl Clone for TestCheck {
    fn clone(&self) -> (r: Self)
        ensures
            r@ == self@,
    {
        TestCheck {
            name: self.name.clone(),
            pass: self.pass,
            detail: self.detail.clone(),
            group: self.group.clone(),
        }
    }
}

pub open spec fn test_check_views(v: Seq<TestCheck>) -> Seq<TestCheckView> {
    Seq::new(v.len(), |i: int| v[i]@)
}

pub fn clone_test_checks(v: &Vec<TestCheck>) -> (r: Vec<TestCheck>)
    ensures
        test_check_views(r@) == test_check_views(v@),
{
    let mut out: Vec<TestCheck> = Vec::new();
    let mut i: usize = 0;
    while i < v.len()
        invariant
            i <= v.len(),
            out@.len() == i,
            forall|j: int| 0 <= j < i ==> (#[trigger] out@[j])@ == v@[j]@,
        decreases v.len() - i,
    {
        out.push(v[i].clone());
        i += 1;
    }
    assert(test_check_views(out@) =~= test_check_views(v@));
    out
}

#[derive(Debug)]
pub struct TestReport {
    pub scope: String,
    pub checks: Vec<TestCheck>,
    pub passed: usize,
    pub failed: usize,
}

/// The contents of a `TestReport`.
pub struct TestReportView {
    pub scope: Seq<char>,
    pub checks: Seq<TestCheckView>,
    pub passed: usize,
    pub failed: usize,
}

impl View for TestReport {
    type V = TestReportView;

    open spec fn view(&self) -> TestReportView {
        TestReportView {
            scope: self.scope@,
            checks: test_check_views(self.checks@),
            passed: self.passed,
            failed: self.failed,
        }
    }
}

impl Clone for TestReport {
    fn clone(&self) -> (r: Self)
        ensures
            r@ == self@,
    {
        TestReport {
            scope: self.scope.clone(),
            checks: clone_test_checks(&self.checks),
            passed: self.passed,
            failed: self.failed,
        }
    }
}

} // verus!
