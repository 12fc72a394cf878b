//! Daemon configuration at `~/.hades/config.toml`, written when the host is
//! initialised and read by the daemon and the CLI.
use vstd::prelude::*;

use crate::double::Double;
use crate::error::{ErrorView, HadesError};
use crate::values;
use crate::values::clone_opt;

verus! {

/// Device-side record of who owns this machine. Its presence means "this device is
/// part of a fleet".
#[derive(Debug)]
pub struct FleetConfig {
    pub hub_url: Option<String>,
    pub hub_token: Option<String>,
}

/// The contents of a `FleetConfig`.
pub struct FleetConfigView {
    pub hub_url: Option<Seq<char>>,
    pub hub_token: Option<Seq<char>>,
}

impl View for FleetConfig {
    type V = FleetConfigView;

    open spec fn view(&self) -> FleetConfigView {
        FleetConfigView {
            hub_url: values::opt_view(self.hub_url),
            hub_token: values::opt_view(self.hub_token),
        }
    }
}

impl Clone for FleetConfig {
    fn clone(&self) -> (r: Self)
        ensures
            r@ == self@,
    {
        FleetConfig {
            hub_url: clone_opt(&self.hub_url),
            hub_token: clone_opt(&self.hub_token),
        }
    }
}

#[derive(Debug)]
pub struct NotifyConfig {
    /// Random ntfy.sh topic generated at init; the phone subscribes to it.
    pub ntfy_topic: Option<String>,
    /// Use macOS local notifications too.
    pub mac_notifications: bool,
    /// healthchecks.io ping URL for the dead-man's switch (true host-down
    /// detection needs a third party; a dead host can't speak).
    pub healthchecks_url: Option<String>,
}

/// The contents of a `NotifyConfig`.
pub struct NotifyConfigView {
    pub ntfy_topic: Option<Seq<char>>,
    pub mac_notifications: bool,
    pub healthchecks_url: Option<Seq<char>>,
}

impl View for NotifyConfig {
    type V = NotifyConfigView;

    open spec fn view(&self) -> NotifyConfigView {
        NotifyConfigView {
            ntfy_topic: values::opt_view(self.ntfy_topic),
            mac_notifications: self.mac_notifications,
            healthchecks_url: values::opt_view(self.healthchecks_url),
        }
    }
}

impl Clone for NotifyConfig {
    fn clone(&self) -> (r: Self)
        ensures
            r@ == self@,
    {
        NotifyConfig {
            ntfy_topic: clone_opt(&self.ntfy_topic),
            mac_notifications: self.mac_notifications,
            healthchecks_url: clone_opt(&self.healthchecks_url),
        }
    }
}

/// Stable public names for this host.
#[derive(Debug)]
pub struct DomainConfig {
    /// Domain that this host serves on a named tunnel of its own.
    pub name: Option<String>,
    pub tunnel_name: Option<String>,
    /// Coordinator to claim names from.
    pub coordinator_url: Option<String>,
    pub coordinator_secret: Option<String>,
}

/// The contents of a `DomainConfig`.
pub struct DomainConfigView {
    pub name: Option<Seq<char>>,
    pub tunnel_name: Option<Seq<char>>,
    pub coordinator_url: Option<Seq<char>>,
    pub coordinator_secret: Option<Seq<char>>,
}

impl View for DomainConfig {
    type V = DomainConfigView;

    open spec fn view(&self) -> DomainConfigView {
        DomainConfigView {
            name: values::opt_view(self.name),
            tunnel_name: values::opt_view(self.tunnel_name),
            coordinator_url: values::opt_view(self.coordinator_url),
            coordinator_secret: values::opt_view(self.coordinator_secret),
        }
    }
}

impl Clone for DomainConfig {
    fn clone(&self) -> (r: Self)
        ensures
            r@ == self@,
    {
        DomainConfig {
            name: clone_opt(&self.name),
            tunnel_name: clone_opt(&self.tunnel_name),
            coordinator_url: clone_opt(&self.coordinator_url),
            coordinator_secret: clone_opt(&self.coordinator_secret),
        }
    }
}

#[derive(Debug)]
pub struct HadesConfig {
    pub api_port: u16,
    pub proxy_port: u16,
    /// Percent of Docker-VM memory kept out of the admission budget.
    pub reserve_pct: u8,
    /// Heartbeat cadence for the uptime ledger, seconds.
    pub heartbeat_secs: u64,
    /// Available-memory thresholds (MB) for pressure levels.
    pub pressure_warn_mb: u64,
    pub pressure_critical_mb: u64,
    /// Free-disk threshold (GB) below which doctor goes red.
    pub disk_min_free_gb: Double,
    /// Bearer token required on every API call except /health.
    pub auth_token: Option<String>,
    /// Hold a power assertion while the daemon runs.
    pub keep_awake: bool,
    /// Checkout that this host was built from.
    pub source_dir: Option<String>,
    pub notify: NotifyConfig,
    pub fleet: FleetConfig,
    pub domain: DomainConfig,
}

/// The contents of a `HadesConfig`.
pub struct HadesConfigView {
    pub api_port: u16,
    pub proxy_port: u16,
    pub reserve_pct: u8,
    pub heartbeat_secs: u64,
    pub pressure_warn_mb: u64,
    pub pressure_critical_mb: u64,
    pub disk_min_free_gb: Double,
    pub auth_token: Option<Seq<char>>,
    pub keep_awake: bool,
    pub source_dir: Option<Seq<char>>,
    pub notify: NotifyConfigView,
    pub fleet: FleetConfigView,
    pub domain: DomainConfigView,
}

impl View for HadesConfig {
    type V = HadesConfigView;

    open spec fn view(&self) -> HadesConfigView {
        HadesConfigView {
            api_port: self.api_port,
            proxy_port: self.proxy_port,
            reserve_pct: self.reserve_pct,
            heartbeat_secs: self.heartbeat_secs,
            pressure_warn_mb: self.pressure_warn_mb,
            pressure_critical_mb: self.pressure_critical_mb,
            disk_min_free_gb: self.disk_min_free_gb,
            auth_token: values::opt_view(self.auth_token),
            keep_awake: self.keep_awake,
            source_dir: values::opt_view(self.source_dir),
            notify: self.notify@,
            fleet: self.fleet@,
            domain: self.domain@,
        }
    }
}

impl Clone for HadesConfig {
    fn clone(&self) -> (r: Self)
        ensures
            r@ == self@,
    {
        HadesConfig {
            api_port: self.api_port,
            proxy_port: self.proxy_port,
            reserve_pct: self.reserve_pct,
            heartbeat_secs: self.heartbeat_secs,
            pressure_warn_mb: self.pressure_warn_mb,
            pressure_critical_mb: self.pressure_critical_mb,
            disk_min_free_gb: self.disk_min_free_gb,
            auth_token: clone_opt(&self.auth_token),
            keep_awake: self.keep_awake,
            source_dir: clone_opt(&self.source_dir),
            notify: self.notify.clone(),
            fleet: self.fleet.clone(),
            domain: self.domain.clone(),
        }
    }
}

impl Default for FleetConfig {
    fn default() -> (r: Self)
        ensures
            r.hub_url is None,
            r.hub_token is None,
    {
        FleetConfig { hub_url: None, hub_token: None }
    }
}

impl Default for NotifyConfig {
    fn default() -> (r: Self)
        ensures
            r.ntfy_topic is None,
            r.mac_notifications,
            r.healthchecks_url is None,
    {
        NotifyConfig { ntfy_topic: None, mac_notifications: true, healthchecks_url: None }
    }
}

impl Default for DomainConfig {
    fn default() -> (r: Self)
        ensures
            r.name is None,
            r.tunnel_name is None,
            r.coordinator_url is None,
            r.coordinator_secret is None,
    {
        DomainConfig {
            name: None,
            tunnel_name: None,
            coordinator_url: None,
            coordinator_secret: None,
        }
    }
}

/// What a host runs with that was never configured.
pub open spec fn default_config() -> HadesConfigView {
    HadesConfigView {
        api_port: 8786,
        proxy_port: 8787,
        reserve_pct: 20,
        heartbeat_secs: 30,
        pressure_warn_mb: 1024,
        pressure_critical_mb: 512,
        disk_min_free_gb: Double { bits: 0x4014_0000_0000_0000 },
        auth_token: None,
        keep_awake: true,
        source_dir: None,
        notify: NotifyConfigView {
            ntfy_topic: None,
            mac_notifications: true,
            healthchecks_url: None,
        },
        fleet: FleetConfigView { hub_url: None, hub_token: None },
        domain: DomainConfigView {
            name: None,
            tunnel_name: None,
            coordinator_url: None,
            coordinator_secret: None,
        },
    }
}

impl Default for HadesConfig {
    fn default() -> (r: Self)
        ensures
            r@ == default_config(),
    {
        HadesConfig {
            api_port: 8786,
            proxy_port: 8787,
            reserve_pct: 20,
            heartbeat_secs: 30,
            pressure_warn_mb: 1024,
            pressure_critical_mb: 512,
            disk_min_free_gb: Double { bits: 0x4014_0000_0000_0000 },
            auth_token: None,
            keep_awake: true,
            source_dir: None,
            notify: NotifyConfig::default(),
            fleet: FleetConfig::default(),
            domain: DomainConfig::default(),
        }
    }
}

/// What came of reading a configuration file.
pub enum ConfigRead {
    /// The file could not be read, with the reason.
    Unreadable(String),
    /// The file is not a configuration, with the reason.
    Malformed(String),
    Parsed(HadesConfig),
}

impl HadesConfig {
    pub fn load(read: ConfigRead) -> (r: Result<HadesConfig, HadesError>)
        ensures
            r is Ok <==> read is Parsed,
            r matches Ok(c) ==> c == read->Parsed_0,
            r matches Err(e) ==> match read {
                ConfigRead::Unreadable(s) => e@ == ErrorView::Io(s@),
                ConfigRead::Malformed(s) => e@ == ErrorView::Other("bad config: "@ + s@),
                ConfigRead::Parsed(_) => false,
            },
    {
        match read {
            ConfigRead::Unreadable(s) => Err(HadesError::Io(s)),
            ConfigRead::Malformed(s) => Err(
                HadesError::Other("bad config: ".to_owned().concat(s.as_str())),
            ),
            ConfigRead::Parsed(c) => Ok(c),
        }
    }

    /// The configuration, or the defaults where none could be read.
    pub fn load_or_default(read: ConfigRead) -> (r: HadesConfig)
        ensures
            read matches ConfigRead::Parsed(c) ==> r == c,
            read !is Parsed ==> r@ == default_config(),
    {
        match HadesConfig::load(read) {
            Ok(c) => c,
            Err(_) => HadesConfig::default(),
        }
    }
}

} // verus!
