//! Declarative description of one app: what `Hades.toml` holds and what the
//! daemon keeps as desired state.
use vstd::prelude::*;

use crate::double::Double;
use crate::error::{ErrorView, HadesError};
use crate::maps::TextMap;
use crate::text;
use crate::text::chars_of;
use crate::values;
use crate::values::clone_opt;

verus! {

/// Shedding order under resource pressure: `Low` apps are paused first,
/// `Critical` apps are never touched.
#[derive(Debug, Clone, Copy, PartialEq, Eq, PartialOrd, Ord, Structural)]
pub enum Priority {
    Low,
    Normal,
    Critical,
}

impl Priority {
    /// The place of the priority in the shedding order.
    pub open spec fn rank(self) -> nat {
        match self {
            Priority::Low => 0,
            Priority::Normal => 1,
            Priority::Critical => 2,
        }
    }

    pub fn ordinal(&self) -> (r: u64)
        ensures
            r as nat == self.rank(),
    {
        match self {
            Priority::Low => 0,
            Priority::Normal => 1,
            Priority::Critical => 2,
        }
    }

    pub open spec fn name(self) -> Seq<char> {
        match self {
            Priority::Low => "Low"@,
            Priority::Normal => "Normal"@,
            Priority::Critical => "Critical"@,
        }
    }

    pub fn as_str(&self) -> (r: &'static str)
        ensures
            r@ == self.name(),
    {
        match self {
            Priority::Low => "Low",
            Priority::Normal => "Normal",
            Priority::Critical => "Critical",
        }
    }
}

impl Default for Priority {
    fn default() -> (r: Self)
        ensures
            r == Priority::Normal,
    {
        Priority::Normal
    }
}

#[derive(Debug, Clone, Copy, PartialEq, Eq, Structural)]
pub enum OnBattery {
    Run,
    Pause,
}

impl Default for OnBattery {
    fn default() -> (r: Self)
        ensures
            r == OnBattery::Run,
    {
        OnBattery::Run
    }
}

#[derive(Debug, Clone, Copy, PartialEq, Eq, Structural)]
pub struct PowerPolicy {
    pub on_battery: OnBattery,
}

impl Default for PowerPolicy {
    fn default() -> (r: Self)
        ensures
            r.on_battery == OnBattery::Run,
    {
        PowerPolicy { on_battery: OnBattery::Run }
    }
}

#[derive(Debug, Clone, Copy, PartialEq, Eq, Structural)]
pub struct Resources {
    /// CPU quota in cores (may be fractional).
    pub cpu: Double,
    /// Declared memory ceiling in MB. Mandatory.
    pub memory_mb: u64,
    /// Disk hint in MB, informational for now.
    pub disk_mb: Option<u64>,
}

/// How to build the image.
#[derive(Debug)]
pub struct BuildSpec {
    pub dockerfile: String,
    /// Build context directory, relative to the manifest.
    pub context: String,
}

/// The contents of a `BuildSpec`.
pub struct BuildSpecView {
    pub dockerfile: Seq<char>,
    pub context: Seq<char>,
}

impl View for BuildSpec {
    type V = BuildSpecView;

    open spec fn view(&self) -> BuildSpecView {
        BuildSpecView {
            dockerfile: self.dockerfile@,
            context: self.context@,
        }
    }
}

impl Clone for BuildSpec {
    fn clone(&self) -> (r: Self)
        ensures
            r@ == self@,
    {
        BuildSpec {
            dockerfile: self.dockerfile.clone(),
            context: self.context.clone(),
        }
    }
}

#[derive(Debug)]
pub struct HealthCheck {
    /// HTTP path probed on the app's primary port.
    pub path: String,
    pub interval_secs: u64,
    pub timeout_secs: u64,
}

/// The contents of a `HealthCheck`.
pub struct HealthCheckView {
    pub path: Seq<char>,
    pub interval_secs: u64,
    pub timeout_secs: u64,
}

impl View for HealthCheck {
    type V = HealthCheckView;

    open spec fn view(&self) -> HealthCheckView {
        HealthCheckView {
            path: self.path@,
            interval_secs: self.interval_secs,
            timeout_secs: self.timeout_secs,
        }
    }
}

impl Clone for HealthCheck {
    fn clone(&self) -> (r: Self)
        ensures
            r@ == self@,
    {
        HealthCheck {
            path: self.path.clone(),
            interval_secs: self.interval_secs,
            timeout_secs: self.timeout_secs,
        }
    }
}

/// One app.
#[derive(Debug)]
pub struct AppSpec {
    pub name: String,
    /// Pre-built image reference. Exactly one of `image` and `build` must be set.
    pub image: Option<String>,
    pub build: Option<BuildSpec>,
    /// Optional base-OS hint, informational for now.
    pub base: Option<String>,
    pub resources: Resources,
    /// Container ports to expose. The first entry receives proxied traffic.
    pub ports: Vec<u16>,
    pub env: TextMap,
    pub health_check: Option<HealthCheck>,
    pub replicas: u8,
    pub priority: Priority,
    pub power: PowerPolicy,
    /// Requests that may be in flight before the proxy sheds with 503.
    /// None = unlimited.
    pub max_concurrent_requests: Option<u32>,
}

/// The contents of an `AppSpec`.
pub struct AppSpecView {
    pub name: Seq<char>,
    pub image: Option<Seq<char>>,
    pub build: Option<BuildSpecView>,
    pub base: Option<Seq<char>>,
    pub resources: Resources,
    pub ports: Seq<u16>,
    pub env: Map<Seq<char>, Seq<char>>,
    pub health_check: Option<HealthCheckView>,
    pub replicas: u8,
    pub priority: Priority,
    pub power: PowerPolicy,
    pub max_concurrent_requests: Option<u32>,
}

impl View for AppSpec {
    type V = AppSpecView;

    open spec fn view(&self) -> AppSpecView {
        AppSpecView {
            name: self.name@,
            image: values::opt_view(self.image),
            build: match self.build {
                Some(x) => Some(x@),
                None => None,
            },
            base: values::opt_view(self.base),
            resources: self.resources,
            ports: self.ports@,
            env: self.env@,
            health_check: match self.health_check {
                Some(x) => Some(x@),
                None => None,
            },
            replicas: self.replicas,
            priority: self.priority,
            power: self.power,
            max_concurrent_requests: self.max_concurrent_requests,
        }
    }
}

impl Clone for AppSpec {
    fn clone(&self) -> (r: Self)
        ensures
            r@ == self@,
    {
        AppSpec {
            name: self.name.clone(),
            image: clone_opt(&self.image),
            build: match &self.build {
                Some(x) => Some(x.clone()),
                None => None,
            },
            base: clone_opt(&self.base),
            resources: self.resources,
            ports: self.ports.clone(),
            env: self.env.clone(),
            health_check: match &self.health_check {
                Some(x) => Some(x.clone()),
                None => None,
            },
            replicas: self.replicas,
            priority: self.priority,
            power: self.power,
            max_concurrent_requests: self.max_concurrent_requests,
        }
    }
}

pub fn default_replicas() -> (r: u8)
    ensures
        r == 1,
{
    1
}

pub fn default_dockerfile() -> (r: String)
    ensures
        r@ == "Dockerfile"@,
{
    "Dockerfile".to_owned()
}

pub fn default_context() -> (r: String)
    ensures
        r@ == "."@,
{
    ".".to_owned()
}

/// One core.
pub fn default_cpu() -> (r: Double)
    ensures
        r.significand() == 0x10_0000_0000_0000,
        r.power() == -52,
        !r.negative(),
{
    Double { bits: 0x3ff0_0000_0000_0000 }
}

pub fn default_interval() -> (r: u64)
    ensures
        r == 10,
{
    10
}

pub fn default_timeout() -> (r: u64)
    ensures
        r == 3,
{
    3
}

// ----------------------------------------------------------------- validation

pub open spec fn name_char(c: char) -> bool {
    text::is_lower(c) || text::is_digit(c) || c == '-'
}

/// Non-empty, of small letters, digits and hyphens.
pub open spec fn app_name_ok(name: Seq<char>) -> bool {
    name.len() > 0 && forall|i: int| 0 <= i < name.len() ==> name_char(#[trigger] name[i])
}

impl AppSpecView {
    /// What is wrong with the spec; of several faults, the first in this order.
    pub open spec fn fault(self) -> Option<Seq<char>> {
        if !app_name_ok(self.name) {
            Some("app name '"@ + self.name + "' must be non-empty lowercase [a-z0-9-]"@)
        } else if self.image is None && self.build is None {
            Some("spec needs either 'image' or a [build] section"@)
        } else if self.image is Some && self.build is Some {
            Some("spec must set 'image' or [build], not both"@)
        } else if self.ports.len() == 0 {
            Some("spec must expose at least one port"@)
        } else if self.resources.memory_mb == 0 {
            Some(
                "resources.memory is mandatory (e.g. \"256mb\"); admission control needs a declared number"@,
            )
        } else if self.replicas == 0 {
            Some("replicas must be >= 1"@)
        } else {
            None
        }
    }

    pub open spec fn valid(self) -> bool {
        self.fault() is None
    }
}

fn name_ok(name: &str) -> (r: bool)
    ensures
        r == app_name_ok(name@),
{
    let cs = chars_of(name);
    if cs.len() == 0 {
        return false;
    }
    let mut i: usize = 0;
    while i < cs.len()
        invariant
            i <= cs.len(),
            cs@ == name@,
            forall|j: int| 0 <= j < i ==> name_char(#[trigger] name@[j]),
        decreases cs.len() - i,
    {
        let c = cs[i];
        if !(('a' <= c && c <= 'z') || ('0' <= c && c <= '9') || c == '-') {
            assert(!name_char(name@[i as int]));
            return false;
        }
        i += 1;
    }
    true
}

impl AppSpec {
    pub fn validate(&self) -> (r: Result<(), HadesError>)
        ensures
            r is Ok <==> self@.valid(),
            r matches Err(e) ==> e@ == ErrorView::InvalidSpec(self@.fault()->0),
    {
        if !name_ok(self.name.as_str()) {
            return Err(
                HadesError::InvalidSpec(
                    "app name '".to_owned().concat(self.name.as_str()).concat(
                        "' must be non-empty lowercase [a-z0-9-]",
                    ),
                ),
            );
        }
        if self.image.is_none() && self.build.is_none() {
            return Err(
                HadesError::InvalidSpec(
                    "spec needs either 'image' or a [build] section".to_owned(),
                ),
            );
        }
        if self.image.is_some() && self.build.is_some() {
            return Err(
                HadesError::InvalidSpec("spec must set 'image' or [build], not both".to_owned()),
            );
        }
        if self.ports.len() == 0 {
            return Err(HadesError::InvalidSpec("spec must expose at least one port".to_owned()));
        }
        if self.resources.memory_mb == 0 {
            return Err(
                HadesError::InvalidSpec(
                    "resources.memory is mandatory (e.g. \"256mb\"); admission control needs a declared number".to_owned(),
                ),
            );
        }
        if self.replicas == 0 {
            return Err(HadesError::InvalidSpec("replicas must be >= 1".to_owned()));
        }
        Ok(())
    }

    /// The container port that receives proxied traffic.
    pub fn primary_port(&self) -> (r: u16)
        requires
            self.ports@.len() > 0,
        ensures
            r == self.ports@[0],
    {
        self.ports[0]
    }

    pub fn local_hostname(&self) -> (r: String)
        ensures
            r@ == self.name@ + ".localhost"@,
    {
        self.name.clone().concat(".localhost")
    }
}

/// A valid spec has a port for the proxy, memory to be admitted by, and a
/// replica to run.
pub proof fn valid_specs_can_be_run(v: AppSpecView)
    requires
        v.valid(),
    ensures
        v.ports.len() > 0,
        v.resources.memory_mb > 0,
        v.replicas > 0,
        v.image is Some != v.build is Some,
        v.name.len() > 0,
{
}

// ------------------------------------------------------------------- manifest

/// `Hades.toml` on disk: `[app]` table holding the spec.
#[derive(Debug)]
pub struct Manifest {
    pub app: AppSpec,
}

/// What came of reading a manifest file.
pub enum ManifestRead {
    /// The file could not be read, with the reason.
    Unreadable(String),
    /// The file is not a manifest, with the reason.
    Malformed(String),
    Parsed(Manifest),
}

impl Manifest {
    pub const FILENAME: &'static str = "Hades.toml";

    /// The manifest at `path`, if it could be read and its spec is valid.
    pub fn load(path: &str, read: ManifestRead) -> (r: Result<Manifest, HadesError>)
        ensures
            r is Ok <==> read is Parsed && read->Parsed_0.app@.valid(),
            r matches Ok(m) ==> m == read->Parsed_0,
            r matches Err(e) ==> match read {
                ManifestRead::Unreadable(s) => e@ == ErrorView::ManifestNotFound(path@ + ": "@ + s@),
                ManifestRead::Malformed(s) => e@ == ErrorView::InvalidSpec(path@ + ": "@ + s@),
                ManifestRead::Parsed(m) => e@ == ErrorView::InvalidSpec(m.app@.fault()->0),
            },
    {
        match read {
            ManifestRead::Unreadable(s) => Err(
                HadesError::ManifestNotFound(path.to_owned().concat(": ").concat(s.as_str())),
            ),
            ManifestRead::Malformed(s) => Err(
                HadesError::InvalidSpec(path.to_owned().concat(": ").concat(s.as_str())),
            ),
            ManifestRead::Parsed(m) => match m.app.validate() {
                Ok(()) => Ok(m),
                Err(e) => Err(e),
            },
        }
    }
}

/// A spec is valid if and only if it can be run: it has a proper name, one source for its
/// image, a port, declared memory and a replica.
pub proof fn what_can_be_run_is_valid(v: AppSpecView)
    ensures
        v.valid() <==> {
            &&& v.name.len() > 0
            &&& forall|i: int|
                0 <= i < v.name.len() ==> {
                    let c = #[trigger] v.name[i];
                    'a' <= c <= 'z' || '0' <= c <= '9' || c == '-'
                }
            &&& (v.image is Some) != (v.build is Some)
            &&& v.ports.len() > 0
            &&& v.resources.memory_mb > 0
            &&& v.replicas > 0
        },
{
    if v.valid() {
        assert forall|i: int| 0 <= i < v.name.len() implies {
            let c = #[trigger] v.name[i];
            'a' <= c <= 'z' || '0' <= c <= '9' || c == '-'
        } by {
            assert(name_char(v.name[i]));
        }
    }
}

} // verus!
