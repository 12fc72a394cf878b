//! Preflight and ongoing health. Every check has a name, a verdict, a detail line,
//! and, when red, the exact remedy. The daemon refuses deploys while the doctor is
//! red; that is what "the host is ready" means.
use vstd::prelude::*;

use crate::config::{HadesConfig, HadesConfigView};
use crate::double;
use crate::double::Double;
use crate::split;
use crate::text;
use crate::text::{dec, has};
use crate::values;
use crate::values::clone_opt;

verus! {

/// One thing the doctor looked at.
#[derive(Debug)]
pub struct Check {
    pub name: String,
    pub ok: bool,
    /// Soft failures (warnings) don't turn the report red.
    pub warn: bool,
    pub detail: String,
    pub remedy: Option<String>,
}

/// The contents of a `Check`.
pub struct CheckView {
    pub name: Seq<char>,
    pub ok: bool,
    pub warn: bool,
    pub detail: Seq<char>,
    pub remedy: Option<Seq<char>>,
}

impl View for Check {
    type V = CheckView;

    open spec fn view(&self) -> CheckView {
        CheckView {
            name: self.name@,
            ok: self.ok,
            warn: self.warn,
            detail: self.detail@,
            remedy: values::opt_view(self.remedy),
        }
    }
}

impl Clone for Check {
    fn clone(&self) -> (r: Self)
        ensures
            r@ == self@,
    {
        Check {
            name: self.name.clone(),
            ok: self.ok,
            warn: self.warn,
            detail: self.detail.clone(),
            remedy: clone_opt(&self.remedy),
        }
    }
}

pub open spec fn check_views(v: Seq<Check>) -> Seq<CheckView> {
    Seq::new(v.len(), |i: int| v[i]@)
}

pub fn clone_checks(v: &Vec<Check>) -> (r: Vec<Check>)
    ensures
        check_views(r@) == check_views(v@),
{
    let mut out: Vec<Check> = Vec::new();
    let mut i: usize = 0;
    while i < v.len()
        invariant
            i <= v.len(),
            out@.len() == i,
            forall|j: int| 0 <= j < i ==> (#[trigger] out@[j])@ == v@[j]@,
        decreases v.len() - i,
    {
        out.push(v[i].clone());
        i += 1;
    }
    assert(check_views(out@) =~= check_views(v@));
    out
}

#[derive(Debug)]
pub struct DoctorReport {
    pub green: bool,
    pub checks: Vec<Check>,
}

/// The contents of a `DoctorReport`.
pub struct DoctorReportView {
    pub green: bool,
    pub checks: Seq<CheckView>,
}

impl View for DoctorReport {
    type V = DoctorReportView;

    open spec fn view(&self) -> DoctorReportView {
        DoctorReportView {
            green: self.green,
            checks: check_views(self.checks@),
        }
    }
}

impl Clone for DoctorReport {
    fn clone(&self) -> (r: Self)
        ensures
            r@ == self@,
    {
        DoctorReport {
            green: self.green,
            checks: clone_checks(&self.checks),
        }
    }
}

/// What came of asking the container engine.
#[derive(Debug)]
pub enum DockerFinding {
    Up { vm_memory_mb: u64, vm_cpus: u32 },
    InfoFailed(String),
    NotResponding(String),
    NoClient(String),
}

/// The contents of a `DockerFinding`.
pub enum DockerFindingView {
    Up { vm_memory_mb: u64, vm_cpus: u32 },
    InfoFailed(Seq<char>),
    NotResponding(Seq<char>),
    NoClient(Seq<char>),
}

impl View for DockerFinding {
    type V = DockerFindingView;

    open spec fn view(&self) -> DockerFindingView {
        match self {
            DockerFinding::Up { vm_memory_mb, vm_cpus } => DockerFindingView::Up {
                vm_memory_mb: *vm_memory_mb,
                vm_cpus: *vm_cpus,
            },
            DockerFinding::InfoFailed(x) => DockerFindingView::InfoFailed(x@),
            DockerFinding::NotResponding(x) => DockerFindingView::NotResponding(x@),
            DockerFinding::NoClient(x) => DockerFindingView::NoClient(x@),
        }
    }
}

impl Clone for DockerFinding {
    fn clone(&self) -> (r: Self)
        ensures
            r@ == self@,
    {
        match self {
            DockerFinding::Up { vm_memory_mb, vm_cpus } => DockerFinding::Up {
                vm_memory_mb: *vm_memory_mb,
                vm_cpus: *vm_cpus,
            },
            DockerFinding::InfoFailed(x) => DockerFinding::InfoFailed(x.clone()),
            DockerFinding::NotResponding(x) => DockerFinding::NotResponding(x.clone()),
            DockerFinding::NoClient(x) => DockerFinding::NoClient(x.clone()),
        }
    }
}

/// What the probes of one doctor run found.
#[derive(Debug)]
pub struct Findings {
    pub docker: DockerFinding,
    pub mac_memory_mb: Option<u64>,
    /// Where cloudflared is installed.
    pub cloudflared: Option<String>,
    pub disk_free_gb: Option<Double>,
    /// The configured threshold, as it is shown.
    pub disk_threshold: String,
    /// Does the daemon answer when the proxy port is looked at?
    pub daemon_up: bool,
    /// Why the proxy port could not be bound, if it was tried and failed.
    pub proxy_bind_error: Option<String>,
    /// Why Cloudflare could not be reached.
    pub egress_error: Option<String>,
    pub sleeps_on_ac: Option<bool>,
    /// The power assertions that the machine lists.
    pub assertions: Option<String>,
    /// Why the state directories could not be made.
    pub state_dir_error: Option<String>,
    pub root: String,
    /// Does the daemon answer after all other checks?
    pub daemon_up_at_end: bool,
}

/// The contents of a `Findings`.
pub struct FindingsView {
    pub docker: DockerFindingView,
    pub mac_memory_mb: Option<u64>,
    pub cloudflared: Option<Seq<char>>,
    pub disk_free_gb: Option<Double>,
    pub disk_threshold: Seq<char>,
    pub daemon_up: bool,
    pub proxy_bind_error: Option<Seq<char>>,
    pub egress_error: Option<Seq<char>>,
    pub sleeps_on_ac: Option<bool>,
    pub assertions: Option<Seq<char>>,
    pub state_dir_error: Option<Seq<char>>,
    pub root: Seq<char>,
    pub daemon_up_at_end: bool,
}

impl View for Findings {
    type V = FindingsView;

    open spec fn view(&self) -> FindingsView {
        FindingsView {
            docker: self.docker@,
            mac_memory_mb: self.mac_memory_mb,
            cloudflared: values::opt_view(self.cloudflared),
            disk_free_gb: self.disk_free_gb,
            disk_threshold: self.disk_threshold@,
            daemon_up: self.daemon_up,
            proxy_bind_error: values::opt_view(self.proxy_bind_error),
            egress_error: values::opt_view(self.egress_error),
            sleeps_on_ac: self.sleeps_on_ac,
            assertions: values::opt_view(self.assertions),
            state_dir_error: values::opt_view(self.state_dir_error),
            root: self.root@,
            daemon_up_at_end: self.daemon_up_at_end,
        }
    }
}

impl Clone for Findings {
    fn clone(&self) -> (r: Self)
        ensures
            r@ == self@,
    {
        Findings {
            docker: self.docker.clone(),
            mac_memory_mb: self.mac_memory_mb,
            cloudflared: clone_opt(&self.cloudflared),
            disk_free_gb: self.disk_free_gb,
            disk_threshold: self.disk_threshold.clone(),
            daemon_up: self.daemon_up,
            proxy_bind_error: clone_opt(&self.proxy_bind_error),
            egress_error: clone_opt(&self.egress_error),
            sleeps_on_ac: self.sleeps_on_ac,
            assertions: clone_opt(&self.assertions),
            state_dir_error: clone_opt(&self.state_dir_error),
            root: self.root.clone(),
            daemon_up_at_end: self.daemon_up_at_end,
        }
    }
}

impl Check {
    pub fn pass(name: &str, detail: String) -> (r: Self)
        ensures
            r@ == passed(name@, detail@),
    {
        Check { name: name.to_owned(), ok: true, warn: false, detail, remedy: None }
    }

    pub fn fail(name: &str, detail: String, remedy: String) -> (r: Self)
        ensures
            r@ == failed(name@, detail@, remedy@),
    {
        Check { name: name.to_owned(), ok: false, warn: false, detail, remedy: Some(remedy) }
    }

    pub fn warn(name: &str, detail: String, remedy: String) -> (r: Self)
        ensures
            r@ == warned(name@, detail@, remedy@),
    {
        Check { name: name.to_owned(), ok: false, warn: true, detail, remedy: Some(remedy) }
    }
}

pub open spec fn passed(name: Seq<char>, detail: Seq<char>) -> CheckView {
    CheckView { name, ok: true, warn: false, detail, remedy: None }
}

pub open spec fn failed(name: Seq<char>, detail: Seq<char>, remedy: Seq<char>) -> CheckView {
    CheckView { name, ok: false, warn: false, detail, remedy: Some(remedy) }
}

pub open spec fn warned(name: Seq<char>, detail: Seq<char>, remedy: Seq<char>) -> CheckView {
    CheckView { name, ok: false, warn: true, detail, remedy: Some(remedy) }
}

/// Does the check turn the report red?
pub open spec fn is_red(c: CheckView) -> bool {
    !c.ok && !c.warn
}

/// The names of the red checks, in order.
pub open spec fn red_names(checks: Seq<CheckView>) -> Seq<Seq<char>>
    decreases checks.len(),
{
    if checks.len() == 0 {
        Seq::empty()
    } else {
        let before = red_names(checks.drop_last());
        if is_red(checks.last()) {
            before.push(checks.last().name)
        } else {
            before
        }
    }
}

pub open spec fn all_green(checks: Seq<CheckView>) -> bool {
    forall|i: int| 0 <= i < checks.len() ==> !is_red(#[trigger] checks[i])
}

impl DoctorReport {
    pub fn failed_names(&self) -> (r: Vec<String>)
        ensures
            split::views(r@) == red_names(self@.checks),
    {
        let mut out: Vec<String> = Vec::new();
        let ghost cv = check_views(self.checks@);
        let mut i: usize = 0;
        assert(cv.take(0) =~= Seq::empty());
        assert(split::views(out@) =~= Seq::empty());
        while i < self.checks.len()
            invariant
                i <= self.checks@.len(),
                cv == check_views(self.checks@),
                split::views(out@) == red_names(cv.take(i as int)),
            decreases self.checks@.len() - i,
        {
            assert(cv.take(i + 1).drop_last() =~= cv.take(i as int));
            assert(cv.take(i + 1).last() == self.checks@[i as int]@);
            let c = &self.checks[i];
            if !c.ok && !c.warn {
                let name = c.name.clone();
                proof {
                    split::lemma_views_push(out@, name);
                }
                out.push(name);
            }
            i += 1;
        }
        assert(cv.take(i as int) =~= cv);
        out
    }
}

// ------------------------------------------------------------- the single checks

pub open spec fn docker_check(f: FindingsView) -> CheckView {
    match f.docker {
        DockerFindingView::Up { vm_memory_mb, vm_cpus } => passed(
            "docker"@,
            "engine up \u{2014} VM capacity "@ + text::decimal(vm_memory_mb as nat) + "MB / "@
                + text::decimal(vm_cpus as nat) + " CPUs (Mac has "@ + text::decimal(
                match f.mac_memory_mb {
                    Some(mb) => mb as nat,
                    None => 0,
                },
            ) + "MB; the VM is the real budget)"@,
        ),
        DockerFindingView::InfoFailed(e) => failed(
            "docker"@,
            "engine reachable but /info failed: "@ + e,
            "restart Docker Desktop (or `colima restart`)"@,
        ),
        DockerFindingView::NotResponding(e) => failed(
            "docker"@,
            "engine not responding: "@ + e,
            "start Docker Desktop (`open -a Docker`) or `colima start`; install with `brew install --cask docker`"@,
        ),
        DockerFindingView::NoClient(e) => failed(
            "docker"@,
            "cannot construct client: "@ + e,
            "install Docker Desktop: `brew install --cask docker`"@,
        ),
    }
}

fn check_docker(f: &Findings) -> (r: Check)
    ensures
        r@ == docker_check(f@),
{
    match &f.docker {
        DockerFinding::Up { vm_memory_mb, vm_cpus } => {
            let mac: u64 = match f.mac_memory_mb {
                Some(mb) => mb,
                None => 0,
            };
            Check::pass(
                "docker",
                "engine up \u{2014} VM capacity ".to_owned().concat(
                    dec(*vm_memory_mb).as_str(),
                ).concat("MB / ").concat(dec(*vm_cpus as u64).as_str()).concat(
                    " CPUs (Mac has ",
                ).concat(dec(mac).as_str()).concat("MB; the VM is the real budget)"),
            )
        },
        DockerFinding::InfoFailed(e) => Check::fail(
            "docker",
            "engine reachable but /info failed: ".to_owned().concat(e.as_str()),
            "restart Docker Desktop (or `colima restart`)".to_owned(),
        ),
        DockerFinding::NotResponding(e) => Check::fail(
            "docker",
            "engine not responding: ".to_owned().concat(e.as_str()),
            "start Docker Desktop (`open -a Docker`) or `colima start`; install with `brew install --cask docker`".to_owned(),
        ),
        DockerFinding::NoClient(e) => Check::fail(
            "docker",
            "cannot construct client: ".to_owned().concat(e.as_str()),
            "install Docker Desktop: `brew install --cask docker`".to_owned(),
        ),
    }
}

pub open spec fn cloudflared_check(f: FindingsView) -> CheckView {
    match f.cloudflared {
        Some(p) => passed("cloudflared"@, p),
        None => warned(
            "cloudflared"@,
            "not found \u{2014} apps will get local URLs only"@,
            "brew install cloudflared"@,
        ),
    }
}

fn check_cloudflared(f: &Findings) -> (r: Check)
    ensures
        r@ == cloudflared_check(f@),
{
    match &f.cloudflared {
        Some(p) => Check::pass("cloudflared", p.clone()),
        None => Check::warn(
            "cloudflared",
            "not found \u{2014} apps will get local URLs only".to_owned(),
            "brew install cloudflared".to_owned(),
        ),
    }
}

pub open spec fn disk_check(config: HadesConfigView, f: FindingsView) -> CheckView {
    match f.disk_free_gb {
        Some(free) => if config.disk_min_free_gb.at_most(free) {
            passed("disk"@, double::fixed_text(free, 1) + "GB free"@)
        } else {
            failed(
                "disk"@,
                double::fixed_text(free, 1) + "GB free (threshold "@ + f.disk_threshold + "GB)"@,
                "free disk space or prune images: `docker system prune`"@,
            )
        },
        None => warned(
            "disk"@,
            "could not determine free space"@,
            "check `df -h /` manually"@,
        ),
    }
}

fn check_disk(config: &HadesConfig, f: &Findings) -> (r: Check)
    ensures
        r@ == disk_check(config@, f@),
{
    match f.disk_free_gb {
        Some(free) => if config.disk_min_free_gb.le(&free) {
            Check::pass("disk", free.fixed(1).concat("GB free"))
        } else {
            Check::fail(
                "disk",
                free.fixed(1).concat("GB free (threshold ").concat(f.disk_threshold.as_str())
                    .concat(
                    "GB)",
                ),
                "free disk space or prune images: `docker system prune`".to_owned(),
            )
        },
        None => Check::warn(
            "disk",
            "could not determine free space".to_owned(),
            "check `df -h /` manually".to_owned(),
        ),
    }
}

pub open spec fn proxy_check(config: HadesConfigView, f: FindingsView) -> CheckView {
    let port = text::decimal(config.proxy_port as nat);
    if f.daemon_up {
        passed("proxy-port"@, "port "@ + port + " held by running daemon"@)
    } else {
        match f.proxy_bind_error {
            None => passed("proxy-port"@, "port "@ + port + " bindable"@),
            Some(e) => failed(
                "proxy-port"@,
                "cannot bind 127.0.0.1:"@ + port + ": "@ + e,
                "free the port: `lsof -i :"@ + port + "`"@,
            ),
        }
    }
}

fn check_proxy(config: &HadesConfig, f: &Findings) -> (r: Check)
    ensures
        r@ == proxy_check(config@, f@),
{
    let port = dec(config.proxy_port as u64);
    if f.daemon_up {
        Check::pass(
            "proxy-port",
            "port ".to_owned().concat(port.as_str()).concat(" held by running daemon"),
        )
    } else {
        match &f.proxy_bind_error {
            None => Check::pass(
                "proxy-port",
                "port ".to_owned().concat(port.as_str()).concat(" bindable"),
            ),
            Some(e) => Check::fail(
                "proxy-port",
                "cannot bind 127.0.0.1:".to_owned().concat(port.as_str()).concat(": ").concat(
                    e.as_str(),
                ),
                "free the port: `lsof -i :".to_owned().concat(port.as_str()).concat("`"),
            ),
        }
    }
}

pub open spec fn egress_check(f: FindingsView) -> CheckView {
    match f.egress_error {
        None => passed("egress"@, "outbound 443 to Cloudflare ok"@),
        Some(e) => failed(
            "egress"@,
            "cannot reach cloudflare.com: "@ + e,
            "check network connection / firewall"@,
        ),
    }
}

fn check_egress(f: &Findings) -> (r: Check)
    ensures
        r@ == egress_check(f@),
{
    match &f.egress_error {
        None => Check::pass("egress", "outbound 443 to Cloudflare ok".to_owned()),
        Some(e) => Check::fail(
            "egress",
            "cannot reach cloudflare.com: ".to_owned().concat(e.as_str()),
            "check network connection / firewall".to_owned(),
        ),
    }
}

pub open spec fn sleep_check(f: FindingsView) -> CheckView {
    match f.sleeps_on_ac {
        Some(sleeps) => if sleeps {
            warned(
                "sleep"@,
                "machine sleeps on AC \u{2014} apps and tunnels die when the lid closes"@,
                "run `sudo pmset -c sleep 0` (and consider `sudo pmset -c disablesleep 1` for clamshell)"@,
            )
        } else {
            passed("sleep"@, "machine stays awake on AC"@)
        },
        None => warned("sleep"@, "could not read pmset settings"@, "check `pmset -g custom`"@),
    }
}

fn check_sleep(f: &Findings) -> (r: Check)
    ensures
        r@ == sleep_check(f@),
{
    match f.sleeps_on_ac {
        Some(sleeps) => if sleeps {
            Check::warn(
                "sleep",
                "machine sleeps on AC \u{2014} apps and tunnels die when the lid closes".to_owned(),
                "run `sudo pmset -c sleep 0` (and consider `sudo pmset -c disablesleep 1` for clamshell)".to_owned(),
            )
        } else {
            Check::pass("sleep", "machine stays awake on AC".to_owned())
        },
        None => Check::warn(
            "sleep",
            "could not read pmset settings".to_owned(),
            "check `pmset -g custom`".to_owned(),
        ),
    }
}

/// Do the machine's power assertions hold one by caffeinate against idle sleep?
pub open spec fn keeps_awake(f: FindingsView) -> bool {
    f.assertions is Some && text::contains(f.assertions->0, "PreventUserIdleSystemSleep"@)
        && text::contains(f.assertions->0, "caffeinate"@)
}

pub open spec fn awake_check(f: FindingsView) -> CheckView {
    if keeps_awake(f) {
        passed("keep-awake"@, "power assertion held \u{2014} host won't idle-sleep"@)
    } else {
        warned(
            "keep-awake"@,
            "no power assertion yet (daemon just started, or caffeinate missing)"@,
            "the daemon holds caffeinate -s; check ~/.hades/logs if this persists"@,
        )
    }
}

fn check_awake(f: &Findings) -> (r: Check)
    ensures
        r@ == awake_check(f@),
{
    let held = match &f.assertions {
        Some(s) => has(s.as_str(), "PreventUserIdleSystemSleep") && has(s.as_str(), "caffeinate"),
        None => false,
    };
    if held {
        Check::pass("keep-awake", "power assertion held \u{2014} host won't idle-sleep".to_owned())
    } else {
        Check::warn(
            "keep-awake",
            "no power assertion yet (daemon just started, or caffeinate missing)".to_owned(),
            "the daemon holds caffeinate -s; check ~/.hades/logs if this persists".to_owned(),
        )
    }
}

pub open spec fn domain_check(dom: Seq<char>) -> CheckView {
    passed("domain"@, "stable URLs on "@ + dom + " (api."@ + dom + " + *."@ + dom + ")"@)
}

fn check_domain(dom: &str) -> (r: Check)
    ensures
        r@ == domain_check(dom@),
{
    Check::pass(
        "domain",
        "stable URLs on ".to_owned().concat(dom).concat(" (api.").concat(dom).concat(" + *.")
            .concat(
            dom,
        ).concat(")"),
    )
}

pub open spec fn notify_check(config: HadesConfigView) -> CheckView {
    match config.notify.ntfy_topic {
        Some(topic) => passed("notify"@, "ntfy topic configured (ntfy.sh/"@ + topic + ")"@),
        None => warned(
            "notify"@,
            "no ntfy topic \u{2014} you won't get pushes when the host misbehaves"@,
            "run `hades host init` to generate one"@,
        ),
    }
}

fn check_notify(config: &HadesConfig) -> (r: Check)
    ensures
        r@ == notify_check(config@),
{
    match &config.notify.ntfy_topic {
        Some(topic) => Check::pass(
            "notify",
            "ntfy topic configured (ntfy.sh/".to_owned().concat(topic.as_str()).concat(")"),
        ),
        None => Check::warn(
            "notify",
            "no ntfy topic \u{2014} you won't get pushes when the host misbehaves".to_owned(),
            "run `hades host init` to generate one".to_owned(),
        ),
    }
}

pub open spec fn state_check(f: FindingsView) -> CheckView {
    match f.state_dir_error {
        None => passed("state-dir"@, f.root),
        Some(e) => failed(
            "state-dir"@,
            "cannot create "@ + f.root + ": "@ + e,
            "check permissions on ~/.hades"@,
        ),
    }
}

fn check_state(f: &Findings) -> (r: Check)
    ensures
        r@ == state_check(f@),
{
    match &f.state_dir_error {
        None => Check::pass("state-dir", f.root.clone()),
        Some(e) => Check::fail(
            "state-dir",
            "cannot create ".to_owned().concat(f.root.as_str()).concat(": ").concat(e.as_str()),
            "check permissions on ~/.hades".to_owned(),
        ),
    }
}

pub open spec fn daemon_check(config: HadesConfigView, f: FindingsView) -> CheckView {
    if f.daemon_up_at_end {
        passed(
            "daemon"@,
            "hadesd responding on 127.0.0.1:"@ + text::decimal(config.api_port as nat),
        )
    } else {
        failed(
            "daemon"@,
            "hadesd not responding"@,
            "run `hades host init` (installs + starts the launchd service)"@,
        )
    }
}

fn check_daemon(config: &HadesConfig, f: &Findings) -> (r: Check)
    ensures
        r@ == daemon_check(config@, f@),
{
    if f.daemon_up_at_end {
        Check::pass(
            "daemon",
            "hadesd responding on 127.0.0.1:".to_owned().concat(
                dec(config.api_port as u64).as_str(),
            ),
        )
    } else {
        Check::fail(
            "daemon",
            "hadesd not responding".to_owned(),
            "run `hades host init` (installs + starts the launchd service)".to_owned(),
        )
    }
}

// ------------------------------------------------------------------- the report

pub open spec fn only_if(cond: bool, c: CheckView) -> Seq<CheckView> {
    if cond {
        seq![c]
    } else {
        Seq::empty()
    }
}

/// The full battery of checks. Inside the daemon, the checks that only make sense
/// from outside are left out: the proxy port and whether the daemon answers.
pub open spec fn all_checks(config: HadesConfigView, f: FindingsView, inside_daemon: bool) -> Seq<
    CheckView,
> {
    seq![docker_check(f), cloudflared_check(f), disk_check(config, f)] + only_if(
        !inside_daemon,
        proxy_check(config, f),
    ) + seq![egress_check(f), sleep_check(f)] + only_if(config.keep_awake, awake_check(f))
        + only_if(
        config.domain.name is Some,
        domain_check(config.domain.name->0),
    ) + seq![notify_check(config), state_check(f)] + only_if(
        !inside_daemon,
        daemon_check(config, f),
    )
}

/// Run the full battery of checks on what the probes found.
pub fn run_doctor(config: &HadesConfig, f: &Findings, inside_daemon: bool) -> (r: DoctorReport)
    ensures
        r@.checks == all_checks(config@, f@, inside_daemon),
        r.green == all_green(r@.checks),
{
    let ghost cv = config@;
    let ghost fv = f@;
    let mut checks: Vec<Check> = Vec::new();
    checks.push(check_docker(f));
    checks.push(check_cloudflared(f));
    checks.push(check_disk(config, f));
    let ghost part = seq![docker_check(fv), cloudflared_check(fv), disk_check(cv, fv)];
    assert(check_views(checks@) =~= part);
    if !inside_daemon {
        checks.push(check_proxy(config, f));
    }
    let ghost part = part + only_if(!inside_daemon, proxy_check(cv, fv));
    assert(check_views(checks@) =~= part);
    checks.push(check_egress(f));
    checks.push(check_sleep(f));
    let ghost part = part + seq![egress_check(fv), sleep_check(fv)];
    assert(check_views(checks@) =~= part);
    if config.keep_awake {
        checks.push(check_awake(f));
    }
    let ghost part = part + only_if(cv.keep_awake, awake_check(fv));
    assert(check_views(checks@) =~= part);
    match &config.domain.name {
        Some(dom) => {
            checks.push(check_domain(dom.as_str()));
        },
        None => {},
    }
    let ghost part = part + only_if(cv.domain.name is Some, domain_check(cv.domain.name->0));
    assert(check_views(checks@) =~= part);
    checks.push(check_notify(config));
    checks.push(check_state(f));
    let ghost part = part + seq![notify_check(cv), state_check(fv)];
    assert(check_views(checks@) =~= part);
    if !inside_daemon {
        checks.push(check_daemon(config, f));
    }
    let ghost part = part + only_if(!inside_daemon, daemon_check(cv, fv));
    assert(check_views(checks@) =~= part);
    let green = is_green(&checks);
    DoctorReport { green, checks }
}

fn is_green(checks: &Vec<Check>) -> (r: bool)
    ensures
        r == all_green(check_views(checks@)),
{
    let mut i: usize = 0;
    while i < checks.len()
        invariant
            i <= checks.len(),
            forall|j: int| 0 <= j < i ==> !is_red(#[trigger] check_views(checks@)[j]),
        decreases checks.len() - i,
    {
        let c = &checks[i];
        assert(check_views(checks@)[i as int] == c@);
        if !c.ok && !c.warn {
            return false;
        }
        i += 1;
    }
    true
}

// ------------------------------------------------------------------------- laws

/// The report is green if and only if there is no failed check to name.
pub proof fn green_means_nothing_failed(checks: Seq<CheckView>)
    ensures
        all_green(checks) <==> red_names(checks).len() == 0,
    decreases checks.len(),
{
    if checks.len() > 0 {
        let front = checks.drop_last();
        green_means_nothing_failed(front);
        if all_green(checks) {
            assert forall|i: int| 0 <= i < front.len() implies !is_red(#[trigger] front[i]) by {
                assert(front[i] == checks[i]);
            }
            assert(!is_red(checks[checks.len() - 1]));
        }
        if red_names(checks).len() == 0 {
            assert forall|i: int| 0 <= i < checks.len() implies !is_red(#[trigger] checks[i]) by {
                if i < front.len() {
                    assert(front[i] == checks[i]);
                }
            }
        }
    }
}

/// Only failures have no excuse: a missing cloudflared, a machine that sleeps, a
/// missing notification topic, a missing power assertion and a disk that cannot be read
/// never turn the report red.
pub proof fn warnings_never_turn_red(config: HadesConfigView, f: FindingsView)
    ensures
        !is_red(cloudflared_check(f)),
        !is_red(sleep_check(f)),
        !is_red(awake_check(f)),
        !is_red(notify_check(config)),
        f.disk_free_gb is None ==> !is_red(disk_check(config, f)),
{
}

/// Every check that is not fine says what to do about it.
pub proof fn every_fault_has_a_remedy(config: HadesConfigView, f: FindingsView, inside: bool, i: int)
    requires
        0 <= i < all_checks(config, f, inside).len(),
        !all_checks(config, f, inside)[i].ok,
    ensures
        all_checks(config, f, inside)[i].remedy is Some,
{
}

/// A host is in order if and only if its engine answers, its disk is not known to be too full,
/// the network and the state directory are there, and, seen from outside, the proxy's port is
/// the daemon's or free and the daemon answers.
pub proof fn a_host_in_order_is_green(config: HadesConfigView, f: FindingsView, inside: bool)
    ensures
        all_green(all_checks(config, f, inside)) <==> {
            &&& f.docker is Up
            &&& f.disk_free_gb is None || config.disk_min_free_gb.at_most(f.disk_free_gb->0)
            &&& f.egress_error is None
            &&& f.state_dir_error is None
            &&& inside || f.daemon_up || f.proxy_bind_error is None
            &&& inside || f.daemon_up_at_end
        },
{
    let all = all_checks(config, f, inside);
    let a = seq![docker_check(f), cloudflared_check(f), disk_check(config, f)];
    let b = only_if(!inside, proxy_check(config, f));
    let c = seq![egress_check(f), sleep_check(f)];
    let d = only_if(config.keep_awake, awake_check(f));
    let e = only_if(config.domain.name is Some, domain_check(config.domain.name->0));
    let g = seq![notify_check(config), state_check(f)];
    let h = only_if(!inside, daemon_check(config, f));
    assert(all == a + b + c + d + e + g + h);
    lemma_green_parts(a + b + c + d + e + g, h);
    lemma_green_parts(a + b + c + d + e, g);
    lemma_green_parts(a + b + c + d, e);
    lemma_green_parts(a + b + c, d);
    lemma_green_parts(a + b, c);
    lemma_green_parts(a, b);
    warnings_never_turn_red(config, f);
    assert(a[0] == docker_check(f) && a[1] == cloudflared_check(f) && a[2] == disk_check(config, f));
    assert(c[0] == egress_check(f) && c[1] == sleep_check(f));
    assert(g[0] == notify_check(config) && g[1] == state_check(f));
    if !inside {
        assert(b[0] == proxy_check(config, f));
        assert(h[0] == daemon_check(config, f));
    }
}

proof fn lemma_green_parts(a: Seq<CheckView>, b: Seq<CheckView>)
    ensures
        all_green(a + b) <==> all_green(a) && all_green(b),
{
    let all = a + b;
    if all_green(all) {
        assert forall|i: int| 0 <= i < a.len() implies !is_red(#[trigger] a[i]) by {
            assert(all[i] == a[i]);
        }
        assert forall|i: int| 0 <= i < b.len() implies !is_red(#[trigger] b[i]) by {
            assert(all[a.len() + i] == b[i]);
        }
    }
    if all_green(a) && all_green(b) {
        assert forall|i: int| 0 <= i < all.len() implies !is_red(#[trigger] all[i]) by {
            if i < a.len() {
                assert(all[i] == a[i]);
            } else {
                assert(all[i] == b[i - a.len()]);
            }
        }
    }
}

/// The failed checks are named, all of them and in order; a warning is none.
pub proof fn failures_are_named(checks: Seq<CheckView>)
    ensures
        red_names(checks) == checks.filter(|c: CheckView| !c.ok && !c.warn).map_values(
            |c: CheckView| c.name,
        ),
    decreases checks.len(),
{
    reveal(Seq::filter);
    let p = |c: CheckView| !c.ok && !c.warn;
    if checks.len() > 0 {
        failures_are_named(checks.drop_last());
    }
    assert(red_names(checks) =~= checks.filter(p).map_values(|c: CheckView| c.name));
}

} // verus!
