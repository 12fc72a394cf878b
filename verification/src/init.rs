//! The guided, idempotent bootstrap of a host. Each step reports what it found or
//! fixed; nothing is silently installed. It is safe to run again at any time.
use vstd::prelude::*;

use crate::config::{HadesConfig, HadesConfigView, NotifyConfigView};
use crate::doctor;
use crate::doctor::DoctorReport;
use crate::doctor::DoctorReportView;
use crate::launchd;
use crate::launchd::DAEMON_LABEL;
use crate::random;
use crate::random::{random_token, random_topic};
use crate::text;
use crate::text::dec;
use crate::values;
use crate::values::clone_opt;

verus! {

/// One step of the bootstrap and how it went.
#[derive(Debug)]
pub struct InitStep {
    pub name: String,
    pub ok: bool,
    pub detail: String,
}

/// The contents of an `InitStep`.
pub struct InitStepView {
    pub name: Seq<char>,
    pub ok: bool,
    pub detail: Seq<char>,
}

impl View for InitStep {
    type V = InitStepView;

    open spec fn view(&self) -> InitStepView {
        InitStepView {
            name: self.name@,
            ok: self.ok,
            detail: self.detail@,
        }
    }
}

impl Clone for InitStep {
    fn clone(&self) -> (r: Self)
        ensures
            r@ == self@,
    {
        InitStep {
            name: self.name.clone(),
            ok: self.ok,
            detail: self.detail.clone(),
        }
    }
}

pub open spec fn init_step_views(v: Seq<InitStep>) -> Seq<InitStepView> {
    Seq::new(v.len(), |i: int| v[i]@)
}

pub fn clone_init_steps(v: &Vec<InitStep>) -> (r: Vec<InitStep>)
    ensures
        init_step_views(r@) == init_step_views(v@),
{
    let mut out: Vec<InitStep> = Vec::new();
    let mut i: usize = 0;
    while i < v.len()
        invariant
            i <= v.len(),
            out@.len() == i,
            forall|j: int| 0 <= j < i ==> (#[trigger] out@[j])@ == v@[j]@,
        decreases v.len() - i,
    {
        out.push(v[i].clone());
        i += 1;
    }
    assert(init_step_views(out@) =~= init_step_views(v@));
    out
}

#[derive(Debug)]
pub struct InitReport {
    pub steps: Vec<InitStep>,
    pub ntfy_subscribe_url: Option<String>,
    pub doctor: DoctorReport,
}

/// The contents of an `InitReport`.
pub struct InitReportView {
    pub steps: Seq<InitStepView>,
    pub ntfy_subscribe_url: Option<Seq<char>>,
    pub doctor: DoctorReportView,
}

impl View for InitReport {
    type V = InitReportView;

    open spec fn view(&self) -> InitReportView {
        InitReportView {
            steps: init_step_views(self.steps@),
            ntfy_subscribe_url: values::opt_view(self.ntfy_subscribe_url),
            doctor: self.doctor@,
        }
    }
}

impl Clone for InitReport {
    fn clone(&self) -> (r: Self)
        ensures
            r@ == self@,
    {
        InitReport {
            steps: clone_init_steps(&self.steps),
            ntfy_subscribe_url: clone_opt(&self.ntfy_subscribe_url),
            doctor: self.doctor.clone(),
        }
    }
}

#[derive(Debug)]
pub struct InitOptions {
    /// Skip launchd installation (dev mode: run `hadesd` by hand).
    pub no_launchd: bool,
    /// Optional healthchecks.io ping URL for the dead-man's switch.
    pub healthchecks_url: Option<String>,
}

/// The contents of an `InitOptions`.
pub struct InitOptionsView {
    pub no_launchd: bool,
    pub healthchecks_url: Option<Seq<char>>,
}

impl View for InitOptions {
    type V = InitOptionsView;

    open spec fn view(&self) -> InitOptionsView {
        InitOptionsView {
            no_launchd: self.no_launchd,
            healthchecks_url: values::opt_view(self.healthchecks_url),
        }
    }
}

impl Clone for InitOptions {
    fn clone(&self) -> (r: Self)
        ensures
            r@ == self@,
    {
        InitOptions {
            no_launchd: self.no_launchd,
            healthchecks_url: clone_opt(&self.healthchecks_url),
        }
    }
}

/// What came of installing the service.
#[derive(Debug)]
pub enum InstallFinding {
    Installed,
    Failed(String),
    NoBinary,
}

/// The contents of an `InstallFinding`.
pub enum InstallFindingView {
    Installed,
    Failed(Seq<char>),
    NoBinary,
}

impl View for InstallFinding {
    type V = InstallFindingView;

    open spec fn view(&self) -> InstallFindingView {
        match self {
            InstallFinding::Installed => InstallFindingView::Installed,
            InstallFinding::Failed(x) => InstallFindingView::Failed(x@),
            InstallFinding::NoBinary => InstallFindingView::NoBinary,
        }
    }
}

impl Clone for InstallFinding {
    fn clone(&self) -> (r: Self)
        ensures
            r@ == self@,
    {
        match self {
            InstallFinding::Installed => InstallFinding::Installed,
            InstallFinding::Failed(x) => InstallFinding::Failed(x.clone()),
            InstallFinding::NoBinary => InstallFinding::NoBinary,
        }
    }
}

/// What the steps of one bootstrap run found.
#[derive(Debug)]
pub struct InitFindings {
    pub root: String,
    pub dirs_error: Option<String>,
    pub config_path: String,
    pub save_error: Option<String>,
    pub docker_ok: bool,
    pub cloudflared: Option<String>,
    pub sleeps_on_ac: Option<bool>,
    pub install: InstallFinding,
    pub daemon_up: bool,
}

/// The contents of an `InitFindings`.
pub struct InitFindingsView {
    pub root: Seq<char>,
    pub dirs_error: Option<Seq<char>>,
    pub config_path: Seq<char>,
    pub save_error: Option<Seq<char>>,
    pub docker_ok: bool,
    pub cloudflared: Option<Seq<char>>,
    pub sleeps_on_ac: Option<bool>,
    pub install: InstallFindingView,
    pub daemon_up: bool,
}

impl View for InitFindings {
    type V = InitFindingsView;

    open spec fn view(&self) -> InitFindingsView {
        InitFindingsView {
            root: self.root@,
            dirs_error: values::opt_view(self.dirs_error),
            config_path: self.config_path@,
            save_error: values::opt_view(self.save_error),
            docker_ok: self.docker_ok,
            cloudflared: values::opt_view(self.cloudflared),
            sleeps_on_ac: self.sleeps_on_ac,
            install: self.install@,
            daemon_up: self.daemon_up,
        }
    }
}

impl Clone for InitFindings {
    fn clone(&self) -> (r: Self)
        ensures
            r@ == self@,
    {
        InitFindings {
            root: self.root.clone(),
            dirs_error: clone_opt(&self.dirs_error),
            config_path: self.config_path.clone(),
            save_error: clone_opt(&self.save_error),
            docker_ok: self.docker_ok,
            cloudflared: clone_opt(&self.cloudflared),
            sleeps_on_ac: self.sleeps_on_ac,
            install: self.install.clone(),
            daemon_up: self.daemon_up,
        }
    }
}

// ---------------------------------------------------------------------- config

/// The configuration that a bootstrap writes: what is missing is filled in, and
/// what is there is kept, so that the phone's subscription and the tokens that
/// others hold survive. A heartbeat URL that was asked for replaces the old one.
pub open spec fn initialised(
    config: HadesConfigView,
    topic: Seq<char>,
    token: Seq<char>,
    healthchecks_url: Option<Seq<char>>,
) -> HadesConfigView {
    HadesConfigView {
        auth_token: if config.auth_token is Some {
            config.auth_token
        } else {
            Some(token)
        },
        notify: NotifyConfigView {
            ntfy_topic: if config.notify.ntfy_topic is Some {
                config.notify.ntfy_topic
            } else {
                Some(topic)
            },
            healthchecks_url: if healthchecks_url is Some {
                healthchecks_url
            } else {
                config.notify.healthchecks_url
            },
            ..config.notify
        },
        ..config
    }
}

/// Fill in what a configuration lacks, with this topic and token.
pub fn complete_config(
    config: HadesConfig,
    topic: String,
    token: String,
    opts: &InitOptions,
) -> (r: HadesConfig)
    ensures
        r@ == initialised(config@, topic@, token@, opts@.healthchecks_url),
{
    let mut config = config;
    if config.notify.ntfy_topic.is_none() {
        config.notify.ntfy_topic = Some(topic);
    }
    if config.auth_token.is_none() {
        config.auth_token = Some(token);
    }
    match &opts.healthchecks_url {
        Some(url) => {
            config.notify.healthchecks_url = Some(url.clone());
        },
        None => {},
    }
    config
}

/// Fill in what a configuration lacks, with a random topic and token.
pub fn init_config(config: HadesConfig, opts: &InitOptions) -> (r: HadesConfig)
    ensures
        exists|topic: Seq<char>, token: Seq<char>|
            r@ == #[trigger] initialised(config@, topic, token, opts@.healthchecks_url)
                && text::starts_with(topic, "hades-"@) && random::is_spelled(
                topic.skip("hades-"@.len() as int),
                "abcdefghijklmnopqrstuvwxyz0123456789"@,
                12,
            ) && random::is_spelled(
                token,
                "0123456789abcdef"@,
                64,
            ),
        r@.notify.ntfy_topic is Some,
        r@.auth_token is Some,
{
    let topic = random_topic();
    let token = random_token();
    let ghost before = config@;
    let ghost (t, k) = (topic@, token@);
    let r = complete_config(config, topic, token, opts);
    assert(r@ == initialised(before, t, k, opts@.healthchecks_url));
    r
}

// ----------------------------------------------------------------------- steps

pub open spec fn step(name: Seq<char>, ok: bool, detail: Seq<char>) -> InitStepView {
    InitStepView { name, ok, detail }
}

pub open spec fn dirs_step(f: InitFindingsView) -> InitStepView {
    match f.dirs_error {
        None => step("dirs"@, true, f.root + " ready"@),
        Some(e) => step("dirs"@, false, "cannot create "@ + f.root + ": "@ + e),
    }
}

pub open spec fn config_step(f: InitFindingsView) -> InitStepView {
    match f.save_error {
        None => step("config"@, true, f.config_path + " written"@),
        Some(e) => step("config"@, false, "cannot write config: "@ + e),
    }
}

pub open spec fn docker_step(f: InitFindingsView) -> InitStepView {
    step(
        "docker"@,
        f.docker_ok,
        if f.docker_ok {
            "engine reachable"@
        } else {
            "engine not reachable; install/start Docker Desktop (`brew install --cask docker`, then `open -a Docker`) or colima"@
        },
    )
}

/// Never blocks the bootstrap: without cloudflared there are local URLs only.
pub open spec fn cloudflared_step(f: InitFindingsView) -> InitStepView {
    step(
        "cloudflared"@,
        true,
        match f.cloudflared {
            Some(p) => "found at "@ + p,
            None => "not found; public URLs disabled until `brew install cloudflared`"@,
        },
    )
}

pub open spec fn power_step(f: InitFindingsView) -> InitStepView {
    step(
        "power"@,
        true,
        match f.sleeps_on_ac {
            Some(sleeps) => if sleeps {
                "machine sleeps on AC; run `sudo pmset -c sleep 0` so your host doesn't nap (needs sudo, so we won't do it for you)"@
            } else {
                "machine stays awake on AC"@
            },
            None => "could not read power settings (pmset)"@,
        },
    )
}

pub open spec fn launchd_step(f: InitFindingsView, no_launchd: bool) -> InitStepView {
    if no_launchd {
        step("launchd"@, true, "skipped (--no-launchd); run `hadesd` manually"@)
    } else {
        match f.install {
            InstallFindingView::Installed => step(
                "launchd"@,
                true,
                "installed "@ + launchd::daemon_label() + " (starts on login, restarts on crash)"@,
            ),
            InstallFindingView::Failed(e) => step("launchd"@, false, "install failed: "@ + e),
            InstallFindingView::NoBinary => step(
                "launchd"@,
                false,
                "hadesd binary not found next to hades; build with `cargo build --workspace` or reinstall"@,
            ),
        }
    }
}

pub open spec fn daemon_step(f: InitFindingsView, api_port: u16) -> InitStepView {
    step(
        "daemon"@,
        f.daemon_up,
        if f.daemon_up {
            "hadesd healthy on 127.0.0.1:"@ + text::decimal(api_port as nat)
        } else {
            "daemon did not become healthy within 10s; check `~/.hades/logs/hadesd.err.log`"@
        },
    )
}

/// All steps, in the order they are taken. Without launchd nobody waits for the
/// daemon to come up.
pub open spec fn all_steps(f: InitFindingsView, no_launchd: bool, api_port: u16) -> Seq<
    InitStepView,
> {
    seq![
        dirs_step(f),
        config_step(f),
        docker_step(f),
        cloudflared_step(f),
        power_step(f),
        launchd_step(f, no_launchd),
    ] + if no_launchd {
        Seq::empty()
    } else {
        seq![daemon_step(f, api_port)]
    }
}

fn make(name: &str, ok: bool, detail: String) -> (r: InitStep)
    ensures
        r@ == step(name@, ok, detail@),
{
    InitStep { name: name.to_owned(), ok, detail }
}

fn do_dirs(f: &InitFindings) -> (r: InitStep)
    ensures
        r@ == dirs_step(f@),
{
    match &f.dirs_error {
        None => make("dirs", true, f.root.clone().concat(" ready")),
        Some(e) => make(
            "dirs",
            false,
            "cannot create ".to_owned().concat(f.root.as_str()).concat(": ").concat(e.as_str()),
        ),
    }
}

fn do_config(f: &InitFindings) -> (r: InitStep)
    ensures
        r@ == config_step(f@),
{
    match &f.save_error {
        None => make("config", true, f.config_path.clone().concat(" written")),
        Some(e) => make("config", false, "cannot write config: ".to_owned().concat(e.as_str())),
    }
}

fn do_docker(f: &InitFindings) -> (r: InitStep)
    ensures
        r@ == docker_step(f@),
{
    let detail = if f.docker_ok {
        "engine reachable".to_owned()
    } else {
        "engine not reachable; install/start Docker Desktop (`brew install --cask docker`, then `open -a Docker`) or colima".to_owned()
    };
    make("docker", f.docker_ok, detail)
}

fn do_cloudflared(f: &InitFindings) -> (r: InitStep)
    ensures
        r@ == cloudflared_step(f@),
{
    let detail = match &f.cloudflared {
        Some(p) => "found at ".to_owned().concat(p.as_str()),
        None => "not found; public URLs disabled until `brew install cloudflared`".to_owned(),
    };
    make("cloudflared", true, detail)
}

fn do_power(f: &InitFindings) -> (r: InitStep)
    ensures
        r@ == power_step(f@),
{
    let detail = match f.sleeps_on_ac {
        Some(sleeps) => if sleeps {
            "machine sleeps on AC; run `sudo pmset -c sleep 0` so your host doesn't nap (needs sudo, so we won't do it for you)".to_owned()
        } else {
            "machine stays awake on AC".to_owned()
        },
        None => "could not read power settings (pmset)".to_owned(),
    };
    make("power", true, detail)
}

fn do_launchd(f: &InitFindings, no_launchd: bool) -> (r: InitStep)
    ensures
        r@ == launchd_step(f@, no_launchd),
{
    if no_launchd {
        make("launchd", true, "skipped (--no-launchd); run `hadesd` manually".to_owned())
    } else {
        match &f.install {
            InstallFinding::Installed => make(
                "launchd",
                true,
                "installed ".to_owned().concat(DAEMON_LABEL).concat(
                    " (starts on login, restarts on crash)",
                ),
            ),
            InstallFinding::Failed(e) => make(
                "launchd",
                false,
                "install failed: ".to_owned().concat(e.as_str()),
            ),
            InstallFinding::NoBinary => make(
                "launchd",
                false,
                "hadesd binary not found next to hades; build with `cargo build --workspace` or reinstall".to_owned(),
            ),
        }
    }
}

fn do_daemon(f: &InitFindings, api_port: u16) -> (r: InitStep)
    ensures
        r@ == daemon_step(f@, api_port),
{
    let detail = if f.daemon_up {
        "hadesd healthy on 127.0.0.1:".to_owned().concat(dec(api_port as u64).as_str())
    } else {
        "daemon did not become healthy within 10s; check `~/.hades/logs/hadesd.err.log`".to_owned()
    };
    make("daemon", f.daemon_up, detail)
}

/// The report of a bootstrap: its steps, where to subscribe to notifications, and
/// the doctor's final word.
pub fn run_init(
    config: &HadesConfig,
    opts: &InitOptions,
    f: &InitFindings,
    doctor: DoctorReport,
) -> (r: InitReport)
    ensures
        r@.steps == all_steps(f@, opts.no_launchd, config.api_port),
        r.doctor == doctor,
        r@.ntfy_subscribe_url == match config@.notify.ntfy_topic {
            Some(topic) => Some("https://ntfy.sh/"@ + topic),
            None => None,
        },
{
    let ghost fv = f@;
    let mut steps: Vec<InitStep> = Vec::new();
    steps.push(do_dirs(f));
    steps.push(do_config(f));
    steps.push(do_docker(f));
    steps.push(do_cloudflared(f));
    steps.push(do_power(f));
    steps.push(do_launchd(f, opts.no_launchd));
    if !opts.no_launchd {
        steps.push(do_daemon(f, config.api_port));
    }
    assert(init_step_views(steps@) =~= all_steps(fv, opts.no_launchd, config.api_port));
    let ntfy_subscribe_url = match &config.notify.ntfy_topic {
        Some(topic) => Some("https://ntfy.sh/".to_owned().concat(topic.as_str())),
        None => None,
    };
    InitReport { steps, ntfy_subscribe_url, doctor }
}

/// How often the bootstrap asks whether the daemon is up, twice a second.
pub const DAEMON_WAIT_TRIES: u32 = 20;

/// What to do after the bootstrap has asked for the daemon.
#[derive(Debug, Clone, Copy, PartialEq, Eq, Structural)]
pub enum DaemonWait {
    /// Ask again after this long.
    Again { millis: u64 },
    /// The daemon is up, or it is not waited for any longer.
    Done { up: bool },
}

/// Asks for the daemon until it answers, but not forever. `asked` counts this time too.
pub fn daemon_awaited(asked: u32, up: bool) -> (r: DaemonWait)
    ensures
        r == if up {
            DaemonWait::Done { up: true }
        } else if asked < DAEMON_WAIT_TRIES {
            DaemonWait::Again { millis: 500 }
        } else {
            DaemonWait::Done { up: false }
        },
{
    if up {
        DaemonWait::Done { up: true }
    } else if asked < DAEMON_WAIT_TRIES {
        DaemonWait::Again { millis: 500 }
    } else {
        DaemonWait::Done { up: false }
    }
}

// ------------------------------------------------------------------------ laws

/// The bootstrap is idempotent: run again, with any other topic and token at hand,
/// it leaves the configuration as the first run left it.
pub proof fn bootstrap_is_idempotent(
    config: HadesConfigView,
    topic: Seq<char>,
    token: Seq<char>,
    topic2: Seq<char>,
    token2: Seq<char>,
    url: Option<Seq<char>>,
)
    ensures
        ({
            let once = initialised(config, topic, token, url);
            initialised(once, topic2, token2, url) == once
        }),
{
}

/// A bootstrap keeps the topic and the token that are there, and everything that it
/// is not about.
pub proof fn bootstrap_keeps_what_is_there(
    config: HadesConfigView,
    topic: Seq<char>,
    token: Seq<char>,
    url: Option<Seq<char>>,
)
    ensures
        ({
            let after = initialised(config, topic, token, url);
            &&& config.notify.ntfy_topic is Some ==> after.notify.ntfy_topic
                == config.notify.ntfy_topic
            &&& config.auth_token is Some ==> after.auth_token == config.auth_token
            &&& url is None ==> after.notify.healthchecks_url == config.notify.healthchecks_url
            &&& after == (HadesConfigView {
                auth_token: after.auth_token,
                notify: NotifyConfigView {
                    ntfy_topic: after.notify.ntfy_topic,
                    healthchecks_url: after.notify.healthchecks_url,
                    ..config.notify
                },
                ..config
            })
        }),
{
}

/// A bootstrap fails in a step if and only if that step found a fault: the directories, the
/// configuration, the engine, and with launchd the service and the daemon. What can be had
/// later is no fault.
pub proof fn faults_show_in_their_step(f: InitFindingsView, no_launchd: bool, api_port: u16)
    ensures
        ({
            let s = all_steps(f, no_launchd, api_port);
            &&& s.len() == if no_launchd {
                6int
            } else {
                7
            }
            &&& s[0].ok <==> f.dirs_error is None
            &&& s[1].ok <==> f.save_error is None
            &&& s[2].ok <==> f.docker_ok
            &&& s[3].ok && s[4].ok
            &&& s[5].ok <==> no_launchd || f.install is Installed
            &&& !no_launchd ==> (s[6].ok <==> f.daemon_up)
        }),
{
}

/// A bootstrap gives a host what it lacks: the topic and the token at hand, and the heartbeat
/// URL that was asked for.
pub proof fn bootstrap_fills_the_gaps(
    config: HadesConfigView,
    topic: Seq<char>,
    token: Seq<char>,
    url: Option<Seq<char>>,
)
    ensures
        ({
            let after = initialised(config, topic, token, url);
            &&& config.notify.ntfy_topic is None ==> after.notify.ntfy_topic == Some(topic)
            &&& config.auth_token is None ==> after.auth_token == Some(token)
            &&& url is Some ==> after.notify.healthchecks_url == url
        }),
{
}

} // verus!
