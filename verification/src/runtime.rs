//! Containers: what is asked of the engine for an app's replicas, and what its
//! answers mean. Every container is labelled, so that strays can always be found.
use vstd::prelude::*;

use crate::app_spec::{AppSpec, AppSpecView};
use crate::double::Double;
use crate::error::{ErrorView, HadesError};
use crate::split;
use crate::text;
use crate::text::{dec, trim_leading, trimmed_end};
use crate::time;
use crate::values::clone_texts;

verus! {

pub const LABEL_APP: &'static str = "hades.app";

pub const LABEL_REPLICA: &'static str = "hades.replica";

/// What the engine has to give: on a Mac, that is the Docker VM, not the Mac.
#[derive(Debug, Clone, Copy, PartialEq, Eq, Structural)]
pub struct EngineInfo {
    pub vm_memory_mb: u64,
    pub vm_cpus: u32,
}

#[derive(Debug, Clone, Copy, PartialEq, Eq, Structural)]
pub struct ContainerStats {
    pub memory_used_mb: Double,
    pub memory_limit_mb: Double,
    pub cpu_pct: Double,
}

#[derive(Debug)]
pub struct ReplicaHandle {
    pub container_id: String,
    pub host_port: u16,
}

/// The contents of a `ReplicaHandle`.
pub struct ReplicaHandleView {
    pub container_id: Seq<char>,
    pub host_port: u16,
}

impl View for ReplicaHandle {
    type V = ReplicaHandleView;

    open spec fn view(&self) -> ReplicaHandleView {
        ReplicaHandleView {
            container_id: self.container_id@,
            host_port: self.host_port,
        }
    }
}

impl Clone for ReplicaHandle {
    fn clone(&self) -> (r: Self)
        ensures
            r@ == self@,
    {
        ReplicaHandle {
            container_id: self.container_id.clone(),
            host_port: self.host_port,
        }
    }
}

#[derive(Debug)]
pub struct ContainerStateInfo {
    pub running: bool,
    pub paused: bool,
    pub oom_killed: bool,
    pub exit_code: Option<i64>,
    pub status: String,
}

/// The contents of a `ContainerStateInfo`.
pub struct ContainerStateInfoView {
    pub running: bool,
    pub paused: bool,
    pub oom_killed: bool,
    pub exit_code: Option<i64>,
    pub status: Seq<char>,
}

impl View for ContainerStateInfo {
    type V = ContainerStateInfoView;

    open spec fn view(&self) -> ContainerStateInfoView {
        ContainerStateInfoView {
            running: self.running,
            paused: self.paused,
            oom_killed: self.oom_killed,
            exit_code: self.exit_code,
            status: self.status@,
        }
    }
}

impl Clone for ContainerStateInfo {
    fn clone(&self) -> (r: Self)
        ensures
            r@ == self@,
    {
        ContainerStateInfo {
            running: self.running,
            paused: self.paused,
            oom_killed: self.oom_killed,
            exit_code: self.exit_code,
            status: self.status.clone(),
        }
    }
}

#[derive(Debug)]
pub struct LabeledContainer {
    pub id: String,
    pub app: String,
    pub name: String,
    pub state: String,
}

/// The contents of a `LabeledContainer`.
pub struct LabeledContainerView {
    pub id: Seq<char>,
    pub app: Seq<char>,
    pub name: Seq<char>,
    pub state: Seq<char>,
}

impl View for LabeledContainer {
    type V = LabeledContainerView;

    open spec fn view(&self) -> LabeledContainerView {
        LabeledContainerView {
            id: self.id@,
            app: self.app@,
            name: self.name@,
            state: self.state@,
        }
    }
}

impl Clone for LabeledContainer {
    fn clone(&self) -> (r: Self)
        ensures
            r@ == self@,
    {
        LabeledContainer {
            id: self.id.clone(),
            app: self.app.clone(),
            name: self.name.clone(),
            state: self.state.clone(),
        }
    }
}

/// One container to be created: its name, image, labels, ports, environment and
/// memory limit. Docker does not restart it: the daemon supervises restarts, with
/// backoff and crash-loop detection.
#[derive(Debug)]
pub struct ReplicaPlan {
    pub name: String,
    pub image: String,
    pub app_label: String,
    pub replica_label: String,
    /// The container port that is published, on the loopback interface.
    pub published_port: String,
    pub host_port: String,
    pub exposed_ports: Vec<String>,
    pub env: Vec<String>,
    pub memory_bytes: i64,
    pub cpu: Double,
}

/// The contents of a `ReplicaPlan`.
pub struct ReplicaPlanView {
    pub name: Seq<char>,
    pub image: Seq<char>,
    pub app_label: Seq<char>,
    pub replica_label: Seq<char>,
    pub published_port: Seq<char>,
    pub host_port: Seq<char>,
    pub exposed_ports: Seq<Seq<char>>,
    pub env: Seq<Seq<char>>,
    pub memory_bytes: i64,
    pub cpu: Double,
}

impl View for ReplicaPlan {
    type V = ReplicaPlanView;

    open spec fn view(&self) -> ReplicaPlanView {
        ReplicaPlanView {
            name: self.name@,
            image: self.image@,
            app_label: self.app_label@,
            replica_label: self.replica_label@,
            published_port: self.published_port@,
            host_port: self.host_port@,
            exposed_ports: split::views(self.exposed_ports@),
            env: split::views(self.env@),
            memory_bytes: self.memory_bytes,
            cpu: self.cpu,
        }
    }
}

impl Clone for ReplicaPlan {
    fn clone(&self) -> (r: Self)
        ensures
            r@ == self@,
    {
        ReplicaPlan {
            name: self.name.clone(),
            image: self.image.clone(),
            app_label: self.app_label.clone(),
            replica_label: self.replica_label.clone(),
            published_port: self.published_port.clone(),
            host_port: self.host_port.clone(),
            exposed_ports: clone_texts(&self.exposed_ports),
            env: clone_texts(&self.env),
            memory_bytes: self.memory_bytes,
            cpu: self.cpu,
        }
    }
}

/// The tag of an app's built image.
pub open spec fn tag_of(app: Seq<char>) -> Seq<char> {
    "hades/"@ + app + ":latest"@
}

/// The container engine's side of an app.
#[derive(Debug, Clone, Copy, PartialEq, Eq, Structural)]
pub struct Runtime;

/// "80/tcp"
pub open spec fn tcp_port(p: u16) -> Seq<char> {
    text::decimal(p as nat) + "/tcp"@
}

pub open spec fn tcp_ports(ports: Seq<u16>) -> Seq<Seq<char>> {
    Seq::new(ports.len(), |i: int| tcp_port(ports[i]))
}

/// "KEY=value" for each pair.
pub open spec fn env_lines(pairs: Seq<(Seq<char>, Seq<char>)>) -> Seq<Seq<char>> {
    Seq::new(pairs.len(), |i: int| pairs[i].0 + "="@ + pairs[i].1)
}

/// The container of one replica. The first port is published on the loopback
/// interface; the memory limit is the declared one.
pub open spec fn plan_for(
    spec: AppSpecView,
    env: Seq<(Seq<char>, Seq<char>)>,
    image: Seq<char>,
    replica: u8,
    host_port: u16,
) -> ReplicaPlanView {
    ReplicaPlanView {
        name: name_of(spec.name, replica),
        image,
        app_label: spec.name,
        replica_label: text::decimal(replica as nat),
        published_port: tcp_port(spec.ports[0]),
        host_port: text::decimal(host_port as nat),
        exposed_ports: tcp_ports(spec.ports),
        env: env_lines(env),
        memory_bytes: (spec.resources.memory_mb * 1_048_576) as i64,
        cpu: spec.resources.cpu,
    }
}

/// The name of the container of a replica.
pub open spec fn name_of(app: Seq<char>, replica: u8) -> Seq<char> {
    "hades-"@ + app + "-"@ + text::decimal(replica as nat)
}

impl Runtime {
    pub fn image_tag(app: &str) -> (r: String)
        ensures
            r@ == tag_of(app@),
    {
        "hades/".to_owned().concat(app).concat(":latest")
    }

    pub fn container_name(app: &str, replica: u8) -> (r: String)
        ensures
            r@ == name_of(app@, replica),
    {
        "hades-".to_owned().concat(app).concat("-").concat(dec(replica as u64).as_str())
    }

    /// What the engine told of its memory, in bytes, and of its processors.
    pub fn engine_info(mem_total: Option<i64>, ncpu: Option<i64>) -> (r: EngineInfo)
        ensures
            r.vm_memory_mb == (time::towards_zero(
                match mem_total {
                    Some(m) => m as int,
                    None => 0,
                },
                1_048_576,
            ) as i64) as u64,
            r.vm_cpus == (match ncpu {
                Some(n) => n,
                None => 0i64,
            }) as u32,
    {
        let m: i64 = match mem_total {
            Some(m) => m,
            None => 0,
        };
        let n: i64 = match ncpu {
            Some(n) => n,
            None => 0,
        };
        let wide: i128 = m as i128;
        let mb: i128 = if wide < 0 {
            -((-wide) / 1_048_576)
        } else {
            wide / 1_048_576
        };
        EngineInfo { vm_memory_mb: (mb as i64) as u64, vm_cpus: n as u32 }
    }

    /// The container to create for one replica, with hard limits.
    pub fn run_replica(spec: &AppSpec, image: &str, replica: u8, host_port: u16) -> (r: ReplicaPlan)
        requires
            spec.ports@.len() > 0,
            spec.resources.memory_mb * 1_048_576 <= i64::MAX,
        ensures
            r@ == plan_for(spec@, spec.env.pair_list(), image@, replica, host_port),
    {
        let mut exposed: Vec<String> = Vec::new();
        let mut i: usize = 0;
        while i < spec.ports.len()
            invariant
                i <= spec.ports@.len(),
                exposed@.len() == i,
                forall|j: int|
                    0 <= j < i ==> (#[trigger] exposed@[j])@ == tcp_port(spec.ports@[j]),
            decreases spec.ports@.len() - i,
        {
            exposed.push(dec(spec.ports[i] as u64).concat("/tcp"));
            i += 1;
        }
        assert(split::views(exposed@) =~= tcp_ports(spec.ports@));
        let pairs = spec.env.pairs();
        let ghost pv = spec.env.pair_list();
        let mut env: Vec<String> = Vec::new();
        let mut k: usize = 0;
        while k < pairs.len()
            invariant
                k <= pairs.len(),
                pv == crate::maps::pair_views(pairs@),
                env@.len() == k,
                forall|j: int|
                    0 <= j < k ==> (#[trigger] env@[j])@ == pv[j].0 + "="@ + pv[j].1,
            decreases pairs.len() - k,
        {
            assert(pv[k as int] == (pairs@[k as int].0@, pairs@[k as int].1@));
            env.push(pairs[k].0.clone().concat("=").concat(pairs[k].1.as_str()));
            k += 1;
        }
        assert(split::views(env@) =~= env_lines(pv));
        ReplicaPlan {
            name: Runtime::container_name(spec.name.as_str(), replica),
            image: image.to_owned(),
            app_label: spec.name.clone(),
            replica_label: dec(replica as u64),
            published_port: dec(spec.ports[0] as u64).concat("/tcp"),
            host_port: dec(host_port as u64),
            exposed_ports: exposed,
            env,
            memory_bytes: (spec.resources.memory_mb * 1_048_576) as i64,
            cpu: spec.resources.cpu,
        }
    }

    /// How removing a container went. One that is not there is removed.
    pub fn removal(error: Option<String>, status: Option<u16>) -> (r: Result<(), HadesError>)
        ensures
            r is Ok <==> error is None || status == Some(404u16),
            r matches Err(e) ==> e@ == ErrorView::Docker(error->0@),
    {
        match error {
            None => Ok(()),
            Some(e) => match status {
                Some(s) => if s == 404 {
                    Ok(())
                } else {
                    Err(HadesError::Docker(e))
                },
                None => Err(HadesError::Docker(e)),
            },
        }
    }

    /// A container's state as the engine tells it; what it leaves out is false.
    pub fn inspect_state(
        running: Option<bool>,
        paused: Option<bool>,
        oom_killed: Option<bool>,
        exit_code: Option<i64>,
        status: Option<String>,
    ) -> (r: ContainerStateInfo)
        ensures
            r.running == (running == Some(true)),
            r.paused == (paused == Some(true)),
            r.oom_killed == (oom_killed == Some(true)),
            r.exit_code == exit_code,
            r.status@ == match status {
                Some(s) => s@,
                None => "unknown"@,
            },
    {
        ContainerStateInfo {
            running: match running {
                Some(b) => b,
                None => false,
            },
            paused: match paused {
                Some(b) => b,
                None => false,
            },
            oom_killed: match oom_killed {
                Some(b) => b,
                None => false,
            },
            exit_code,
            status: match status {
                Some(s) => s,
                None => "unknown".to_owned(),
            },
        }
    }

    /// A container in the engine's listing. Its name comes with a leading slash.
    pub fn labeled(
        id: Option<String>,
        app: Option<String>,
        first_name: Option<String>,
        state: Option<String>,
    ) -> (r: LabeledContainer)
        ensures
            r.id@ == or_empty(id),
            r.app@ == or_empty(app),
            r.name@ == text::drop_leading(or_empty(first_name), "/"@),
            r.state@ == or_empty(state),
    {
        let name = text_or_empty(first_name);
        LabeledContainer {
            id: text_or_empty(id),
            app: text_or_empty(app),
            name: trim_leading(name.as_str(), "/"),
            state: text_or_empty(state),
        }
    }
}

pub open spec fn or_empty(o: Option<String>) -> Seq<char> {
    match o {
        Some(s) => s@,
        None => Seq::empty(),
    }
}

fn text_or_empty(o: Option<String>) -> (r: String)
    ensures
        r@ == or_empty(o),
{
    match o {
        Some(s) => s,
        None => {
            let r = String::new();
            assert(r@ =~= Seq::empty());
            r
        },
    }
}

// ----------------------------------------------------------------------- builds

/// What one message of a running build means.
#[derive(Debug)]
pub enum BuildStep {
    /// The build failed.
    Failed(HadesError),
    /// A line to show.
    Show(String),
    Nothing,
}

/// The engine's build output, message by message: an error ends the build, a line
/// that is not blank is shown.
pub fn build_step(error: Option<&str>, stream: Option<&str>) -> (r: BuildStep)
    ensures
        match error {
            Some(e) => r is Failed && r->Failed_0@ == ErrorView::Docker("build failed: "@ + e@),
            None => match stream {
                Some(s) => if text::trim_end(s@).len() == 0 {
                    r is Nothing
                } else {
                    r is Show && r->Show_0@ == text::trim_end(s@)
                },
                None => r is Nothing,
            },
        },
{
    match error {
        Some(e) => BuildStep::Failed(HadesError::Docker("build failed: ".to_owned().concat(e))),
        None => match stream {
            Some(s) => {
                let line = trimmed_end(s);
                if line.as_str().unicode_len() == 0 {
                    BuildStep::Nothing
                } else {
                    BuildStep::Show(line)
                }
            },
            None => BuildStep::Nothing,
        },
    }
}

/// What flate2's `GzDecoder` reads from a gzip stream, or what it complains of.
pub uninterp spec fn gunzipped(data: Seq<u8>) -> Result<Seq<u8>, Seq<char>>;

pub open spec fn bytes_or_fault(r: Result<Vec<u8>, String>) -> Result<Seq<u8>, Seq<char>> {
    match r {
        Ok(b) => Ok(b@),
        Err(e) => Err(e@),
    }
}

/// `flate2::read::GzDecoder`, read to its end. What it gives, or the text of its
/// complaint, is named.
#[verifier::external_body]
fn gunzip(data: &Vec<u8>) -> (r: Result<Vec<u8>, String>)
    ensures
        bytes_or_fault(r) == gunzipped(data@),
{
    let mut out = Vec::new();
    std::io::Read::read_to_end(&mut flate2::read::GzDecoder::new(data.as_slice()), &mut out).map(
        |_| out,
    ).map_err(|e| e.to_string())
}

/// The build context in an uploaded tarball, by what came of unpacking it.
pub fn context_of(unpacked: Result<Vec<u8>, String>) -> (r: Result<Vec<u8>, HadesError>)
    ensures
        match unpacked {
            Ok(tar) => r matches Ok(x) && x@ == tar@,
            Err(e) => r matches Err(x) && x@ == ErrorView::Docker("bad build context: "@ + e@),
        },
{
    match unpacked {
        Ok(tar) => Ok(tar),
        Err(e) => Err(HadesError::Docker("bad build context: ".to_owned().concat(e.as_str()))),
    }
}

/// The build context in an uploaded tarball.
pub fn build_context(context_tar_gz: &Vec<u8>) -> (r: Result<Vec<u8>, HadesError>)
    ensures
        match gunzipped(context_tar_gz@) {
            Ok(tar) => r matches Ok(x) && x@ == tar,
            Err(e) => r matches Err(x) && x@ == ErrorView::Docker("bad build context: "@ + e),
        },
{
    context_of(gunzip(context_tar_gz))
}

// ------------------------------------------------------------------------- laws

/// Different replicas of an app have different container names.
pub proof fn replica_names_differ(app: Seq<char>, a: u8, b: u8)
    requires
        a != b,
    ensures
        name_of(app, a) != name_of(app, b),
{
    let pre = "hades-"@ + app + "-"@;
    let x = pre + text::decimal(a as nat);
    let y = pre + text::decimal(b as nat);
    assert(x.skip(pre.len() as int) =~= text::decimal(a as nat));
    assert(y.skip(pre.len() as int) =~= text::decimal(b as nat));
    crate::number::lemma_decimal_reads_back(a as nat);
    crate::number::lemma_decimal_reads_back(b as nat);
}

/// A replica's container is what its app asks for: it runs the image under its own name and
/// labels, publishes the first of the app's ports and exposes each of them, sees each of the
/// environment's values, and gets the memory and processor share that were declared.
pub proof fn containers_are_what_the_app_asks_for(
    spec: AppSpecView,
    env: Seq<(Seq<char>, Seq<char>)>,
    image: Seq<char>,
    replica: u8,
    host_port: u16,
    i: int,
)
    requires
        spec.ports.len() > 0,
        spec.resources.memory_mb * 1_048_576 <= i64::MAX,
    ensures
        ({
            let p = plan_for(spec, env, image, replica, host_port);
            &&& p.image == image && p.app_label == spec.name
            &&& p.name == "hades-"@ + p.app_label + "-"@ + p.replica_label
            &&& p.replica_label == text::decimal(replica as nat)
            &&& p.host_port == text::decimal(host_port as nat)
            &&& p.exposed_ports.len() == spec.ports.len()
            &&& 0 <= i < spec.ports.len() ==> p.exposed_ports[i] == text::decimal(
                spec.ports[i] as nat,
            ) + "/tcp"@
            &&& p.published_port == p.exposed_ports[0]
            &&& p.env.len() == env.len()
            &&& 0 <= i < env.len() ==> p.env[i] == env[i].0 + "="@ + env[i].1
            &&& p.memory_bytes == spec.resources.memory_mb * 1024 * 1024
            &&& p.cpu == spec.resources.cpu
        }),
{
}

} // verus!
