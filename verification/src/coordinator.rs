//! The operator-run coordinator that hands out stable subdomains under one
//! Cloudflare-managed domain, so that end users get a custom name with no Cloudflare
//! account of their own.
//!
//! A host asks for a name; the coordinator creates a tunnel, configures its ingress to
//! the host's proxy, points the name at it, and returns the connector token that the
//! host runs cloudflared with. First-come naming; a shared secret keeps randoms out.
use vstd::prelude::*;

use crate::names;
use crate::names::NameMap;
use crate::number;
use crate::number::parse_unsigned;
use crate::order;
use crate::order::sort_texts;
use crate::split;
use crate::text;
use crate::text::{chars_of, same, to_lower};
use crate::time::Timestamp;
use crate::values;
use crate::values::{clone_opt, clone_texts};

verus! {

/// A name that was handed out, and what was made for it.
#[derive(Debug)]
pub struct Claim {
    pub name: String,
    pub hostname: String,
    pub tunnel_id: String,
    pub dns_ids: Vec<String>,
    pub claimed_at: Timestamp,
}

/// The contents of a `Claim`.
pub struct ClaimView {
    pub name: Seq<char>,
    pub hostname: Seq<char>,
    pub tunnel_id: Seq<char>,
    pub dns_ids: Seq<Seq<char>>,
    pub claimed_at: Timestamp,
}

impl View for Claim {
    type V = ClaimView;

    open spec fn view(&self) -> ClaimView {
        ClaimView {
            name: self.name@,
            hostname: self.hostname@,
            tunnel_id: self.tunnel_id@,
            dns_ids: split::views(self.dns_ids@),
            claimed_at: self.claimed_at,
        }
    }
}

impl Clone for Claim {
    fn clone(&self) -> (r: Self)
        ensures
            r@ == self@,
    {
        Claim {
            name: self.name.clone(),
            hostname: self.hostname.clone(),
            tunnel_id: self.tunnel_id.clone(),
            dns_ids: clone_texts(&self.dns_ids),
            claimed_at: self.claimed_at,
        }
    }
}

#[derive(Debug)]
pub struct ClaimReq {
    pub name: String,
    /// The host's local proxy that the tunnel should reach.
    pub proxy_url: Option<String>,
}

/// The contents of a `ClaimReq`.
pub struct ClaimReqView {
    pub name: Seq<char>,
    pub proxy_url: Option<Seq<char>>,
}

impl View for ClaimReq {
    type V = ClaimReqView;

    open spec fn view(&self) -> ClaimReqView {
        ClaimReqView {
            name: self.name@,
            proxy_url: values::opt_view(self.proxy_url),
        }
    }
}

#[derive(Debug)]
pub struct ClaimResp {
    pub hostname: String,
    pub connector_token: String,
    pub tunnel_id: String,
}

/// The contents of a `ClaimResp`.
pub struct ClaimRespView {
    pub hostname: Seq<char>,
    pub connector_token: Seq<char>,
    pub tunnel_id: Seq<char>,
}

impl View for ClaimResp {
    type V = ClaimRespView;

    open spec fn view(&self) -> ClaimRespView {
        ClaimRespView {
            hostname: self.hostname@,
            connector_token: self.connector_token@,
            tunnel_id: self.tunnel_id@,
        }
    }
}

/// An answer with an error: its status and what it says.
#[derive(Debug)]
pub struct Refusal {
    pub status: u16,
    pub message: String,
}

/// The contents of a `Refusal`.
pub struct RefusalView {
    pub status: u16,
    pub message: Seq<char>,
}

impl View for Refusal {
    type V = RefusalView;

    open spec fn view(&self) -> RefusalView {
        RefusalView {
            status: self.status,
            message: self.message@,
        }
    }
}

/// A claim that has been provided for.
#[derive(Debug)]
pub struct Grant {
    pub name: String,
    pub hostname: String,
    pub tunnel_id: String,
    pub connector_token: String,
    pub dns_ids: Vec<String>,
}

/// The contents of a `Grant`.
pub struct GrantView {
    pub name: Seq<char>,
    pub hostname: Seq<char>,
    pub tunnel_id: Seq<char>,
    pub connector_token: Seq<char>,
    pub dns_ids: Seq<Seq<char>>,
}

impl View for Grant {
    type V = GrantView;

    open spec fn view(&self) -> GrantView {
        GrantView {
            name: self.name@,
            hostname: self.hostname@,
            tunnel_id: self.tunnel_id@,
            connector_token: self.connector_token@,
            dns_ids: split::views(self.dns_ids@),
        }
    }
}

/// How far a claim has come.
#[derive(Debug)]
pub enum Stage {
    /// Looking for a DNS record of the hostname at this place.
    Probing(usize),
    Creating,
    Routing { tunnel_id: String, token: String },
    Naming { tunnel_id: String, token: String, dns_ids: Vec<String> },
    Over,
}

/// The contents of a `Stage`.
pub enum StageView {
    Probing(usize),
    Creating,
    Routing { tunnel_id: Seq<char>, token: Seq<char> },
    Naming { tunnel_id: Seq<char>, token: Seq<char>, dns_ids: Seq<Seq<char>> },
    Over,
}

impl View for Stage {
    type V = StageView;

    open spec fn view(&self) -> StageView {
        match self {
            Stage::Probing(x) => StageView::Probing(*x),
            Stage::Creating => StageView::Creating,
            Stage::Routing { tunnel_id, token } => StageView::Routing {
                tunnel_id: tunnel_id@,
                token: token@,
            },
            Stage::Naming { tunnel_id, token, dns_ids } => StageView::Naming {
                tunnel_id: tunnel_id@,
                token: token@,
                dns_ids: split::views(dns_ids@),
            },
            Stage::Over => StageView::Over,
        }
    }
}

/// A claim under way.
#[derive(Debug)]
pub struct ClaimRun {
    pub name: String,
    pub hostname: String,
    /// The hostnames that it serves; the apex also carries www.
    pub hostnames: Vec<String>,
    /// The DNS records that it needs.
    pub subs: Vec<String>,
    pub proxy: String,
    pub tunnel_name: String,
    pub stage: Stage,
}

/// The contents of a `ClaimRun`.
pub struct ClaimRunView {
    pub name: Seq<char>,
    pub hostname: Seq<char>,
    pub hostnames: Seq<Seq<char>>,
    pub subs: Seq<Seq<char>>,
    pub proxy: Seq<char>,
    pub tunnel_name: Seq<char>,
    pub stage: StageView,
}

impl View for ClaimRun {
    type V = ClaimRunView;

    open spec fn view(&self) -> ClaimRunView {
        ClaimRunView {
            name: self.name@,
            hostname: self.hostname@,
            hostnames: split::views(self.hostnames@),
            subs: split::views(self.subs@),
            proxy: self.proxy@,
            tunnel_name: self.tunnel_name@,
            stage: self.stage@,
        }
    }
}

/// What came of a step.
#[derive(Debug)]
pub enum ClaimEvent {
    Found(bool),
    Tunnel { id: String, token: String },
    Routed,
    Record(String),
    Failed(String),
}

/// The contents of a `ClaimEvent`.
pub enum ClaimEventView {
    Found(bool),
    Tunnel { id: Seq<char>, token: Seq<char> },
    Routed,
    Record(Seq<char>),
    Failed(Seq<char>),
}

impl View for ClaimEvent {
    type V = ClaimEventView;

    open spec fn view(&self) -> ClaimEventView {
        match self {
            ClaimEvent::Found(x) => ClaimEventView::Found(*x),
            ClaimEvent::Tunnel { id, token } => ClaimEventView::Tunnel {
                id: id@,
                token: token@,
            },
            ClaimEvent::Routed => ClaimEventView::Routed,
            ClaimEvent::Record(x) => ClaimEventView::Record(x@),
            ClaimEvent::Failed(x) => ClaimEventView::Failed(x@),
        }
    }
}

/// What is to be done next for a claim.
#[derive(Debug)]
pub enum ClaimStep {
    FindDns(String),
    CreateTunnel(String),
    SetIngress { tunnel_id: String, hostnames: Vec<String>, service: String },
    CreateDns { sub: String, tunnel_id: String },
    /// Delete these records and this tunnel, and refuse.
    Undo { dns_ids: Vec<String>, tunnel_id: String, refusal: Refusal },
    Refuse(Refusal),
    Granted(Grant),
}

/// The contents of a `ClaimStep`.
pub enum ClaimStepView {
    FindDns(Seq<char>),
    CreateTunnel(Seq<char>),
    SetIngress { tunnel_id: Seq<char>, hostnames: Seq<Seq<char>>, service: Seq<char> },
    CreateDns { sub: Seq<char>, tunnel_id: Seq<char> },
    Undo { dns_ids: Seq<Seq<char>>, tunnel_id: Seq<char>, refusal: RefusalView },
    Refuse(RefusalView),
    Granted(GrantView),
}

impl View for ClaimStep {
    type V = ClaimStepView;

    open spec fn view(&self) -> ClaimStepView {
        match self {
            ClaimStep::FindDns(x) => ClaimStepView::FindDns(x@),
            ClaimStep::CreateTunnel(x) => ClaimStepView::CreateTunnel(x@),
            ClaimStep::SetIngress { tunnel_id, hostnames, service } => ClaimStepView::SetIngress {
                tunnel_id: tunnel_id@,
                hostnames: split::views(hostnames@),
                service: service@,
            },
            ClaimStep::CreateDns { sub, tunnel_id } => ClaimStepView::CreateDns {
                sub: sub@,
                tunnel_id: tunnel_id@,
            },
            ClaimStep::Undo { dns_ids, tunnel_id, refusal } => ClaimStepView::Undo {
                dns_ids: split::views(dns_ids@),
                tunnel_id: tunnel_id@,
                refusal: refusal@,
            },
            ClaimStep::Refuse(x) => ClaimStepView::Refuse(x@),
            ClaimStep::Granted(x) => ClaimStepView::Granted(x@),
        }
    }
}

// -------------------------------------------------------------------------- names

pub open spec fn name_char(c: char) -> bool {
    'a' <= c <= 'z' || '0' <= c <= '9' || c == '-'
}

/// May this name be claimed? "@" stands for the apex, the root domain and www.
pub open spec fn name_allowed(n: Seq<char>) -> bool {
    n == "@"@ || {
        &&& 0 < n.len() <= 40
        &&& forall|i: int| 0 <= i < n.len() ==> name_char(#[trigger] n[i])
        &&& n[0] != '-'
        &&& n.last() != '-'
        &&& n != "api"@
        &&& n != "www"@
    }
}

pub fn valid_name(n: &str) -> (r: bool)
    ensures
        r == name_allowed(n@),
{
    if same(n, "@") {
        return true;
    }
    let cs = chars_of(n);
    if cs.len() == 0 || cs.len() > 40 {
        return false;
    }
    let mut i: usize = 0;
    while i < cs.len()
        invariant
            i <= cs.len(),
            cs@ == n@,
            n@ != "@"@,
            forall|j: int| 0 <= j < i ==> name_char(#[trigger] n@[j]),
        decreases cs.len() - i,
    {
        let c = cs[i];
        if !('a' <= c && c <= 'z' || '0' <= c && c <= '9' || c == '-') {
            assert(!name_char(n@[i as int]));
            return false;
        }
        i += 1;
    }
    cs[0] != '-' && cs[cs.len() - 1] != '-' && !same(n, "api") && !same(n, "www")
}

// ------------------------------------------------------------------- a claim's run

pub open spec fn refusal(status: u16, message: Seq<char>) -> RefusalView {
    RefusalView { status, message }
}

/// A claim of a name that is free, before anything has been asked.
pub open spec fn run_for(
    domain: Seq<char>,
    name: Seq<char>,
    proxy_url: Option<Seq<char>>,
) -> ClaimRunView {
    let apex = name == "@"@;
    let hostname = hostname_of(domain, name);
    ClaimRunView {
        name,
        hostname,
        hostnames: if apex {
            seq![domain, "www."@ + domain]
        } else {
            seq![hostname]
        },
        subs: if apex {
            seq!["@"@, "www"@]
        } else {
            seq![name]
        },
        proxy: match proxy_url {
            Some(p) => p,
            None => "http://localhost:8787"@,
        },
        tunnel_name: if apex {
            "hades-apex"@
        } else {
            "hades-"@ + name
        },
        stage: StageView::Probing(0),
    }
}

pub open spec fn hostname_of(domain: Seq<char>, name: Seq<char>) -> Seq<char> {
    if name == "@"@ {
        domain
    } else {
        name + "."@ + domain
    }
}

impl ClaimRunView {
    pub open spec fn at(self, stage: StageView) -> ClaimRunView {
        ClaimRunView { stage, ..self }
    }

    pub open spec fn wf(self) -> bool {
        &&& self.hostnames.len() > 0
        &&& self.subs.len() > 0
        &&& match self.stage {
            StageView::Probing(i) => i < self.hostnames.len(),
            StageView::Naming { dns_ids, .. } => dns_ids.len() < self.subs.len(),
            _ => true,
        }
    }

    /// Can this event come of the step that the claim waits for?
    pub open spec fn awaits(self, event: ClaimEventView) -> bool {
        match self.stage {
            StageView::Probing(_) => event is Found || event is Failed,
            StageView::Creating => event is Tunnel || event is Failed,
            StageView::Routing { .. } => event is Routed || event is Failed,
            StageView::Naming { .. } => event is Record || event is Failed,
            StageView::Over => false,
        }
    }

    /// The claim after an event, and the next step. Whatever fails once the tunnel
    /// is there, everything made so far is taken back.
    pub open spec fn advance(self, event: ClaimEventView) -> (ClaimRunView, ClaimStepView) {
        match (self.stage, event) {
            (StageView::Probing(i), ClaimEventView::Found(found)) => if found {
                (
                    self.at(StageView::Over),
                    ClaimStepView::Refuse(
                        refusal(409, self.hostnames[i as int] + " already exists in DNS"@),
                    ),
                )
            } else if i + 1 < self.hostnames.len() {
                (
                    self.at(StageView::Probing((i + 1) as usize)),
                    ClaimStepView::FindDns(self.hostnames[i + 1]),
                )
            } else {
                (self.at(StageView::Creating), ClaimStepView::CreateTunnel(self.tunnel_name))
            },
            (StageView::Probing(_), ClaimEventView::Failed(e)) => (
                self.at(StageView::Over),
                ClaimStepView::Refuse(refusal(502, "cloudflare: "@ + e)),
            ),
            (StageView::Creating, ClaimEventView::Tunnel { id, token }) => (
                self.at(StageView::Routing { tunnel_id: id, token }),
                ClaimStepView::SetIngress {
                    tunnel_id: id,
                    hostnames: self.hostnames,
                    service: self.proxy,
                },
            ),
            (StageView::Creating, ClaimEventView::Failed(e)) => (
                self.at(StageView::Over),
                ClaimStepView::Refuse(refusal(502, "create tunnel: "@ + e)),
            ),
            (StageView::Routing { tunnel_id, token }, ClaimEventView::Routed) => (
                self.at(StageView::Naming { tunnel_id, token, dns_ids: Seq::empty() }),
                ClaimStepView::CreateDns { sub: self.subs[0], tunnel_id },
            ),
            (StageView::Routing { tunnel_id, token }, ClaimEventView::Failed(e)) => (
                self.at(StageView::Over),
                ClaimStepView::Undo {
                    dns_ids: Seq::empty(),
                    tunnel_id,
                    refusal: refusal(502, "set ingress: "@ + e),
                },
            ),
            (StageView::Naming { tunnel_id, token, dns_ids }, ClaimEventView::Record(id)) => {
                let ids = dns_ids.push(id);
                if ids.len() < self.subs.len() {
                    (
                        self.at(StageView::Naming { tunnel_id, token, dns_ids: ids }),
                        ClaimStepView::CreateDns { sub: self.subs[ids.len() as int], tunnel_id },
                    )
                } else {
                    (
                        self.at(StageView::Over),
                        ClaimStepView::Granted(
                            GrantView {
                                name: self.name,
                                hostname: self.hostname,
                                tunnel_id,
                                connector_token: token,
                                dns_ids: ids,
                            },
                        ),
                    )
                }
            },
            (StageView::Naming { tunnel_id, token, dns_ids }, ClaimEventView::Failed(e)) => (
                self.at(StageView::Over),
                ClaimStepView::Undo {
                    dns_ids,
                    tunnel_id,
                    refusal: refusal(502, "create dns: "@ + e),
                },
            ),
            (_, _) => (self, ClaimStepView::Refuse(refusal(502, ""@))),
        }
    }
}

impl ClaimRun {
    /// The first step of a claim.
    pub fn first_step(&self) -> (r: ClaimStep)
        requires
            self@.wf(),
            self@.stage == StageView::Probing(0),
        ensures
            r@ == ClaimStepView::FindDns(self@.hostnames[0]),
    {
        ClaimStep::FindDns(self.hostnames[0].clone())
    }

    fn refuse(status: u16, what: &str, why: &str) -> (r: Refusal)
        ensures
            r@ == refusal(status, what@ + why@),
    {
        Refusal { status, message: what.to_owned().concat(why) }
    }

    /// Takes in what came of the last step, and tells the next.
    pub fn next(&mut self, event: ClaimEvent) -> (r: ClaimStep)
        requires
            old(self)@.wf(),
            old(self)@.awaits(event@),
        ensures
            (final(self)@, r@) == old(self)@.advance(event@),
            final(self)@.wf(),
    {
        let mut stage = Stage::Over;
        std::mem::swap(&mut self.stage, &mut stage);
        match (stage, event) {
            (Stage::Probing(i), ClaimEvent::Found(found)) => {
                if found {
                    ClaimStep::Refuse(
                        Self::refuse(409, self.hostnames[i].as_str(), " already exists in DNS"),
                    )
                } else if self.hostnames.len() - i > 1 {
                    self.stage = Stage::Probing(i + 1);
                    ClaimStep::FindDns(self.hostnames[i + 1].clone())
                } else {
                    self.stage = Stage::Creating;
                    ClaimStep::CreateTunnel(self.tunnel_name.clone())
                }
            },
            (Stage::Probing(_), ClaimEvent::Failed(e)) => ClaimStep::Refuse(
                Self::refuse(502, "cloudflare: ", e.as_str()),
            ),
            (Stage::Creating, ClaimEvent::Tunnel { id, token }) => {
                let step = ClaimStep::SetIngress {
                    tunnel_id: id.clone(),
                    hostnames: clone_texts(&self.hostnames),
                    service: self.proxy.clone(),
                };
                self.stage = Stage::Routing { tunnel_id: id, token };
                step
            },
            (Stage::Creating, ClaimEvent::Failed(e)) => ClaimStep::Refuse(
                Self::refuse(502, "create tunnel: ", e.as_str()),
            ),
            (Stage::Routing { tunnel_id, token }, ClaimEvent::Routed) => {
                let step = ClaimStep::CreateDns {
                    sub: self.subs[0].clone(),
                    tunnel_id: tunnel_id.clone(),
                };
                let dns_ids: Vec<String> = Vec::new();
                assert(split::views(dns_ids@) =~= Seq::empty());
                self.stage = Stage::Naming { tunnel_id, token, dns_ids };
                step
            },
            (Stage::Routing { tunnel_id, token }, ClaimEvent::Failed(e)) => {
                let dns_ids: Vec<String> = Vec::new();
                assert(split::views(dns_ids@) =~= Seq::empty());
                ClaimStep::Undo {
                    dns_ids,
                    tunnel_id,
                    refusal: Self::refuse(502, "set ingress: ", e.as_str()),
                }
            },
            (Stage::Naming { tunnel_id, token, dns_ids }, ClaimEvent::Record(id)) => {
                let mut ids = dns_ids;
                proof {
                    split::lemma_views_push(ids@, id);
                }
                ids.push(id);
                if ids.len() < self.subs.len() {
                    let step = ClaimStep::CreateDns {
                        sub: self.subs[ids.len()].clone(),
                        tunnel_id: tunnel_id.clone(),
                    };
                    self.stage = Stage::Naming { tunnel_id, token, dns_ids: ids };
                    step
                } else {
                    ClaimStep::Granted(
                        Grant {
                            name: self.name.clone(),
                            hostname: self.hostname.clone(),
                            tunnel_id,
                            connector_token: token,
                            dns_ids: ids,
                        },
                    )
                }
            },
            (Stage::Naming { tunnel_id, token, dns_ids }, ClaimEvent::Failed(e)) => {
                ClaimStep::Undo {
                    dns_ids,
                    tunnel_id,
                    refusal: Self::refuse(502, "create dns: ", e.as_str()),
                }
            },
            (_, _) => ClaimStep::Refuse(Self::refuse(502, "", "")),
        }
    }
}

// ---------------------------------------------------------------- the coordinator

/// The names handed out so far under one domain.
#[derive(Debug)]
pub struct Coordinator {
    pub domain: String,
    pub secret: Option<String>,
    pub claims: NameMap<Claim>,
}

pub struct CoordinatorView {
    pub domain: Seq<char>,
    pub secret: Option<Seq<char>>,
    pub claims: Map<Seq<char>, ClaimView>,
}

pub open spec fn claim_map(m: Map<Seq<char>, Claim>) -> Map<Seq<char>, ClaimView> {
    m.map_values(|c: Claim| c@)
}

impl View for Coordinator {
    type V = CoordinatorView;

    open spec fn view(&self) -> CoordinatorView {
        CoordinatorView {
            domain: self.domain@,
            secret: values::opt_view(self.secret),
            claims: claim_map(self.claims@),
        }
    }
}

impl CoordinatorView {
    /// Does a request carry the shared secret, if there is one?
    pub open spec fn trusts(self, header: Option<Seq<char>>) -> bool {
        self.secret is None || header == self.secret
    }

    /// The coordinator once it keeps a claim.
    pub open spec fn keeping(self, g: GrantView, now: Timestamp) -> CoordinatorView {
        CoordinatorView {
            claims: self.claims.insert(
                g.name,
                ClaimView {
                    name: g.name,
                    hostname: g.hostname,
                    tunnel_id: g.tunnel_id,
                    dns_ids: g.dns_ids,
                    claimed_at: now,
                },
            ),
            ..self
        }
    }

    /// The coordinator once a name is given back, and the claim that it was.
    pub open spec fn releasing(self, header: Option<Seq<char>>, name: Seq<char>) -> (
        CoordinatorView,
        Result<ClaimView, RefusalView>,
    ) {
        if !self.trusts(header) {
            (self, Err(refusal(401, "bad or missing X-Hades-Secret"@)))
        } else {
            (
                CoordinatorView { claims: self.claims.remove(name), ..self },
                if self.claims.dom().contains(name) {
                    Ok(self.claims[name])
                } else {
                    Err(refusal(404, "no such claim"@))
                },
            )
        }
    }

    /// What a request for a name, in lowercase, comes to.
    pub open spec fn judge(
        self,
        header: Option<Seq<char>>,
        name: Seq<char>,
        proxy_url: Option<Seq<char>>,
    ) -> Result<ClaimRunView, RefusalView> {
        if !self.trusts(header) {
            Err(refusal(401, "bad or missing X-Hades-Secret"@))
        } else if !name_allowed(name) {
            Err(
                refusal(
                    400,
                    "name must be '@' (apex) or lowercase [a-z0-9-], 1–40 chars, not 'api'/'www'"@,
                ),
            )
        } else if self.claims.dom().contains(name) {
            Err(refusal(409, hostname_of(self.domain, name) + " is already taken"@))
        } else {
            Ok(run_for(self.domain, name, proxy_url))
        }
    }
}

/// The answer to a claim that has been provided for.
pub open spec fn answer_to(g: GrantView) -> ClaimRespView {
    ClaimRespView {
        hostname: g.hostname,
        connector_token: g.connector_token,
        tunnel_id: g.tunnel_id,
    }
}

pub open spec fn run_result(r: Result<ClaimRun, Refusal>) -> Result<ClaimRunView, RefusalView> {
    match r {
        Ok(run) => Ok(run@),
        Err(e) => Err(e@),
    }
}

pub open spec fn str_view(o: Option<&str>) -> Option<Seq<char>> {
    match o {
        Some(s) => Some(s@),
        None => None,
    }
}

/// The hostnames of the claims, by the claims' names.
pub open spec fn claimed_hostnames(claims: Map<Seq<char>, ClaimView>) -> Seq<Seq<char>> {
    let keys = names::listing(claims.dom());
    Seq::new(keys.len(), |i: int| claims[keys[i]].hostname)
}

impl Coordinator {
    pub fn check_secret(&self, header: Option<&str>) -> (r: bool)
        ensures
            r == self@.trusts(str_view(header)),
    {
        match &self.secret {
            None => true,
            Some(expected) => match header {
                Some(got) => same(got, expected.as_str()),
                None => false,
            },
        }
    }

    /// A request for a name. Names are claimed in lowercase.
    pub fn claim(&self, header: Option<&str>, req: &ClaimReq) -> (r: Result<ClaimRun, Refusal>)
        ensures
            run_result(r) == self@.judge(
                str_view(header),
                text::lower_text(req@.name),
                req@.proxy_url,
            ),
            r matches Ok(run) ==> run@.wf(),
    {
        let name = to_lower(req.name.as_str());
        self.claim_named(header, name, clone_opt(&req.proxy_url))
    }

    /// A request for a name in lowercase.
    pub fn claim_named(
        &self,
        header: Option<&str>,
        name: String,
        proxy_url: Option<String>,
    ) -> (r: Result<ClaimRun, Refusal>)
        ensures
            run_result(r) == self@.judge(
                str_view(header),
                name@,
                values::opt_view(proxy_url),
            ),
            r matches Ok(run) ==> run@.wf(),
    {
        if !self.check_secret(header) {
            return Err(
                Refusal { status: 401, message: "bad or missing X-Hades-Secret".to_owned() },
            );
        }
        if !valid_name(name.as_str()) {
            return Err(
                Refusal {
                    status: 400,
                    message:
                        "name must be '@' (apex) or lowercase [a-z0-9-], 1–40 chars, not 'api'/'www'".to_owned(),
                },
            );
        }
        let apex = same(name.as_str(), "@");
        let hostname = if apex {
            self.domain.clone()
        } else {
            name.clone().concat(".").concat(self.domain.as_str())
        };
        if self.claims.get(name.as_str()).is_some() {
            return Err(Refusal { status: 409, message: hostname.concat(" is already taken") });
        }
        let mut hostnames: Vec<String> = Vec::new();
        let mut subs: Vec<String> = Vec::new();
        if apex {
            hostnames.push(self.domain.clone());
            hostnames.push("www.".to_owned().concat(self.domain.as_str()));
            subs.push("@".to_owned());
            subs.push("www".to_owned());
        } else {
            hostnames.push(hostname.clone());
            subs.push(name.clone());
        }
        let proxy = match proxy_url {
            Some(p) => p,
            None => "http://localhost:8787".to_owned(),
        };
        let tunnel_name = if apex {
            "hades-apex".to_owned()
        } else {
            "hades-".to_owned().concat(name.as_str())
        };
        let run = ClaimRun {
            name,
            hostname,
            hostnames,
            subs,
            proxy,
            tunnel_name,
            stage: Stage::Probing(0),
        };
        proof {
            let want = run_for(self@.domain, run@.name, values::opt_view(proxy_url));
            assert(run@.hostnames =~= want.hostnames);
            assert(run@.subs =~= want.subs);
            assert(run@ == want);
        }
        Ok(run)
    }

    /// Keeps a claim that has been provided for, and answers it.
    pub fn grant(&mut self, g: Grant, now: Timestamp) -> (r: ClaimResp)
        ensures
            final(self)@ == old(self)@.keeping(g@, now),
            r@ == answer_to(g@),
    {
        let claim = Claim {
            name: g.name.clone(),
            hostname: g.hostname.clone(),
            tunnel_id: g.tunnel_id.clone(),
            dns_ids: g.dns_ids,
            claimed_at: now,
        };
        self.claims.insert(g.name, claim);
        assert(claim_map(self.claims@) =~= claim_map(old(self).claims@).insert(g@.name, claim@));
        ClaimResp { hostname: g.hostname, connector_token: g.connector_token, tunnel_id: g.tunnel_id }
    }

    /// Gives a name back. Its records and its tunnel are then to be deleted.
    pub fn release(&mut self, header: Option<&str>, name: &str) -> (r: Result<Claim, Refusal>)
        ensures
            ({
                let (after, answer) = old(self)@.releasing(str_view(header), name@);
                &&& final(self)@ == after
                &&& match r {
                    Ok(c) => answer == Ok::<ClaimView, RefusalView>(c@),
                    Err(e) => answer == Err::<ClaimView, RefusalView>(e@),
                }
            }),
    {
        if !self.check_secret(header) {
            return Err(
                Refusal { status: 401, message: "bad or missing X-Hades-Secret".to_owned() },
            );
        }
        let gone = self.claims.remove(name);
        assert(claim_map(self.claims@) =~= claim_map(old(self).claims@).remove(name@));
        match gone {
            Some(c) => Ok(c),
            None => Err(Refusal { status: 404, message: "no such claim".to_owned() }),
        }
    }

    /// The hostnames handed out, in order.
    pub fn list(&self) -> (r: Vec<String>)
        ensures
            split::views(r@) == order::sorted(claimed_hostnames(self@.claims)),
    {
        let mut out: Vec<String> = Vec::new();
        let mut i: usize = 0;
        let n = self.claims.len();
        let ghost keys = self.claims.key_list();
        assert(claim_map(self.claims@).dom() =~= self.claims@.dom());
        while i < n
            invariant
                i <= n,
                keys == self.claims.key_list(),
                n == keys.len(),
                names::lists(keys, self.claims@.dom()),
                out@.len() == i,
                forall|j: int|
                    0 <= j < i ==> (#[trigger] out@[j])@ == self@.claims[keys[j]].hostname,
            decreases n - i,
        {
            assert(keys.contains(keys[i as int]));
            out.push(self.claims.value_at(i).hostname.clone());
            i += 1;
        }
        assert(split::views(out@) =~= claimed_hostnames(self@.claims));
        sort_texts(&out)
    }
}

/// The port that the coordinator listens on.
pub fn port(raw: Option<&str>) -> (r: u16)
    ensures
        r == match raw {
            Some(s) => match number::unsigned(s@, 65535) {
                Some(n) => n as u16,
                None => 8000,
            },
            None => 8000,
        },
{
    match raw {
        Some(s) => match parse_unsigned(s, 65535) {
            Some(n) => n as u16,
            None => 8000,
        },
        None => 8000,
    }
}

// --------------------------------------------------------------------------- laws

/// A claim after some events, and its last step.
pub open spec fn after(run: ClaimRunView, events: Seq<ClaimEventView>) -> (
    ClaimRunView,
    ClaimStepView,
)
    decreases events.len(),
{
    if events.len() == 0 {
        (run, ClaimStepView::FindDns(run.hostnames[0]))
    } else {
        after(run, events.drop_last()).0.advance(events.last())
    }
}

/// Is each event one that the claim waited for?
pub open spec fn in_turn(run: ClaimRunView, events: Seq<ClaimEventView>) -> bool
    decreases events.len(),
{
    events.len() == 0 || in_turn(run, events.drop_last()) && after(run, events.drop_last()).0.awaits(
        events.last(),
    )
}

/// The tunnel that came of these events.
pub open spec fn tunnel_made(events: Seq<ClaimEventView>) -> Option<Seq<char>>
    decreases events.len(),
{
    if events.len() == 0 {
        None
    } else {
        match events.last() {
            ClaimEventView::Tunnel { id, .. } => Some(id),
            _ => tunnel_made(events.drop_last()),
        }
    }
}

/// The records that came of these events.
pub open spec fn records_made(events: Seq<ClaimEventView>) -> Seq<Seq<char>>
    decreases events.len(),
{
    if events.len() == 0 {
        Seq::empty()
    } else {
        match events.last() {
            ClaimEventView::Record(id) => records_made(events.drop_last()).push(id),
            _ => records_made(events.drop_last()),
        }
    }
}

/// What a step tells of the tunnel and the records that were made so far.
pub open spec fn accounts_for(
    step: ClaimStepView,
    tunnel: Option<Seq<char>>,
    records: Seq<Seq<char>>,
) -> bool {
    match step {
        ClaimStepView::Undo { dns_ids, tunnel_id, .. } => tunnel == Some(tunnel_id) && records
            == dns_ids,
        ClaimStepView::Granted(g) => tunnel == Some(g.tunnel_id) && records == g.dns_ids,
        ClaimStepView::Refuse(_) => tunnel is None && records.len() == 0,
        _ => true,
    }
}

/// A claim leaves nothing behind. However it goes: a claim that is refused has made
/// nothing or takes back the tunnel and all the records that it made, and a claim
/// that is granted is kept with the tunnel and all the records that it made.
pub proof fn claims_leave_nothing_behind(run: ClaimRunView, events: Seq<ClaimEventView>)
    requires
        run.wf(),
        run.stage == StageView::Probing(0),
        in_turn(run, events),
    ensures
        accounts_for(after(run, events).1, tunnel_made(events), records_made(events)),
{
    lemma_stage(run, events);
}

proof fn lemma_stage(run: ClaimRunView, events: Seq<ClaimEventView>)
    requires
        run.wf(),
        run.stage == StageView::Probing(0),
        in_turn(run, events),
    ensures
        after(run, events).0.wf(),
        match after(run, events).0.stage {
            StageView::Probing(_) | StageView::Creating => tunnel_made(events) is None
                && records_made(events) =~= Seq::empty(),
            StageView::Routing { tunnel_id, .. } => tunnel_made(events) == Some(tunnel_id)
                && records_made(events) =~= Seq::empty(),
            StageView::Naming { tunnel_id, dns_ids, .. } => tunnel_made(events) == Some(tunnel_id)
                && records_made(events) =~= dns_ids,
            StageView::Over => accounts_for(
                after(run, events).1,
                tunnel_made(events),
                records_made(events),
            ),
        },
        accounts_for(after(run, events).1, tunnel_made(events), records_made(events)),
    decreases events.len(),
{
    if events.len() > 0 {
        lemma_stage(run, events.drop_last());
    }
}

/// A name is handed out once: while it is claimed, every request for it is refused
/// before anything is asked of Cloudflare, and it can be claimed again once it has
/// been released.
pub proof fn names_are_handed_out_once(
    c: CoordinatorView,
    header: Option<Seq<char>>,
    name: Seq<char>,
    proxy_url: Option<Seq<char>>,
    claim: ClaimView,
)
    requires
        name_allowed(name),
    ensures
        (CoordinatorView { claims: c.claims.insert(name, claim), ..c }).judge(
            header,
            name,
            proxy_url,
        ) is Err,
        c.trusts(header) ==> (CoordinatorView {
            claims: c.claims.insert(name, claim).remove(name),
            ..c
        }).judge(header, name, proxy_url) is Ok,
{
}

/// The token that came with the tunnel.
pub open spec fn token_made(events: Seq<ClaimEventView>) -> Option<Seq<char>>
    decreases events.len(),
{
    if events.len() == 0 {
        None
    } else {
        match events.last() {
            ClaimEventView::Tunnel { token, .. } => Some(token),
            _ => token_made(events.drop_last()),
        }
    }
}

/// What a step asks for, by what the claim is and what has come of it so far.
pub open spec fn in_order(
    run: ClaimRunView,
    events: Seq<ClaimEventView>,
    step: ClaimStepView,
) -> bool {
    let made = records_made(events);
    let tunnel = tunnel_made(events);
    let all_free = events.len() >= run.hostnames.len() && forall|i: int|
        0 <= i < run.hostnames.len() ==> #[trigger] events[i] == ClaimEventView::Found(false);
    match step {
        ClaimStepView::FindDns(h) => events.len() < run.hostnames.len() && h
            == run.hostnames[events.len() as int],
        ClaimStepView::CreateTunnel(name) => all_free && events.len() == run.hostnames.len() && name
            == run.tunnel_name,
        ClaimStepView::SetIngress { tunnel_id, hostnames, service } => all_free && tunnel == Some(
            tunnel_id,
        ) && hostnames == run.hostnames && service == run.proxy,
        ClaimStepView::CreateDns { sub, tunnel_id } => all_free && tunnel == Some(tunnel_id)
            && made.len() < run.subs.len() && sub == run.subs[made.len() as int],
        ClaimStepView::Granted(g) => all_free && made.len() == run.subs.len() && g.dns_ids == made
            && g.name == run.name && g.hostname == run.hostname && tunnel == Some(g.tunnel_id)
            && token_made(events) == Some(g.connector_token),
        ClaimStepView::Refuse(r) => r.status == 409 || r.status == 502,
        ClaimStepView::Undo { refusal, .. } => refusal.status == 502,
    }
}

/// A claim goes step by step. Each of its hostnames is looked up, one after the other, and
/// only where none exists is a tunnel made; all of them are routed to the proxy over it, and
/// each of the records is made, one after the other, for that tunnel. It is granted once all
/// of them are there, with that tunnel's token, and refused where a hostname exists already.
pub proof fn claims_go_step_by_step(run: ClaimRunView, events: Seq<ClaimEventView>)
    requires
        run.wf(),
        run.hostnames.len() <= usize::MAX,
        run.stage == StageView::Probing(0),
        in_turn(run, events),
    ensures
        in_order(run, events, after(run, events).1),
        events.len() > 0 && events.last() == ClaimEventView::Found(true) ==> after(run, events).1
            == ClaimStepView::Refuse(
            RefusalView {
                status: 409,
                message: run.hostnames[events.len() - 1] + " already exists in DNS"@,
            },
        ),
        events.len() > 0 && events.last() is Failed ==> after(run, events).1 is Refuse || after(
            run,
            events,
        ).1 is Undo,
{
    lemma_steps(run, events);
    lemma_stage(run, events);
    if events.len() > 0 {
        lemma_steps(run, events.drop_last());
        lemma_stage(run, events.drop_last());
    }
}

proof fn lemma_steps(run: ClaimRunView, events: Seq<ClaimEventView>)
    requires
        run.wf(),
        run.hostnames.len() <= usize::MAX,
        run.stage == StageView::Probing(0),
        in_turn(run, events),
    ensures
        ({
            let now = after(run, events).0;
            let all_free = events.len() >= run.hostnames.len() && forall|i: int|
                0 <= i < run.hostnames.len() ==> #[trigger] events[i] == ClaimEventView::Found(
                    false,
                );
            &&& in_order(run, events, after(run, events).1)
            &&& now == run.at(now.stage)
            &&& match now.stage {
                StageView::Probing(i) => i == events.len() && forall|j: int|
                    0 <= j < events.len() ==> #[trigger] events[j] == ClaimEventView::Found(false),
                StageView::Creating => all_free && events.len() == run.hostnames.len(),
                StageView::Routing { token, .. } => all_free && token_made(events) == Some(token),
                StageView::Naming { token, .. } => all_free && token_made(events) == Some(token),
                StageView::Over => true,
            }
        }),
    decreases events.len(),
{
    if events.len() > 0 {
        let front = events.drop_last();
        lemma_steps(run, front);
        lemma_stage(run, front);
        lemma_stage(run, events);
        assert forall|i: int| 0 <= i < front.len() implies front[i] == #[trigger] events[i] by {}
        assert(events[events.len() - 1] == events.last());
        assert(after(run, events) == after(run, front).0.advance(events.last()));
    }
}

/// The records of a claim are those of the hostnames that it serves: each stands for the
/// hostname at its place, and the first of them is the one that is handed out.
pub proof fn records_match_the_hostnames(
    domain: Seq<char>,
    name: Seq<char>,
    proxy_url: Option<Seq<char>>,
    i: int,
)
    ensures
        ({
            let run = run_for(domain, name, proxy_url);
            &&& run.hostnames.len() == run.subs.len()
            &&& run.hostnames[0] == run.hostname && run.subs[0] == name && run.name == name
            &&& 0 <= i < run.subs.len() ==> run.hostnames[i] == if run.subs[i] == "@"@ {
                domain
            } else {
                run.subs[i] + "."@ + domain
            }
            &&& name == "@"@ <==> run.subs.len() == 2
            &&& name == "@"@ ==> run.subs[1] == "www"@
            &&& proxy_url matches Some(p) ==> run.proxy == p
        }),
{
    reveal_strlit("www.");
    reveal_strlit("www");
    reveal_strlit(".");
    reveal_strlit("@");
    assert("www"@.len() != "@"@.len());
    assert("www."@ + domain =~= "www"@ + "."@ + domain);
}

/// What was granted is kept as it was granted and answered so: the name is taken by it, it is
/// listed, and giving it back hands out the tunnel and the records that were made for it.
pub proof fn grants_are_kept(
    c: CoordinatorView,
    g: GrantView,
    now: Timestamp,
    other: Seq<char>,
)
    requires
        c.claims.dom().finite(),
    ensures
        ({
            let k = c.keeping(g, now);
            let claim = k.claims[g.name];
            &&& k.claims.dom().contains(g.name)
            &&& claim.name == g.name && claim.hostname == g.hostname && claim.tunnel_id
                == g.tunnel_id && claim.dns_ids == g.dns_ids && claim.claimed_at == now
            &&& order::sorted(claimed_hostnames(k.claims)).contains(g.hostname)
            &&& other != g.name ==> (k.claims.dom().contains(other) <==> c.claims.dom().contains(
                other,
            )) && k.claims[other] == c.claims[other]
            &&& k.domain == c.domain && k.secret == c.secret
            &&& answer_to(g).hostname == g.hostname && answer_to(g).connector_token
                == g.connector_token && answer_to(g).tunnel_id == g.tunnel_id
        }),
{
    let k = c.keeping(g, now);
    let keys = names::listing(k.claims.dom());
    names::lemma_listing_exists(k.claims.dom());
    let hosts = claimed_hostnames(k.claims);
    assert(keys.contains(g.name));
    let i = choose|i: int| 0 <= i < keys.len() && keys[i] == g.name;
    assert(hosts[i] == g.hostname);
    let sort_keys = Seq::new(hosts.len(), |n: int| (0nat, hosts[n]));
    order::lemma_ranked_upto(sort_keys, sort_keys.len());
    let r = order::ranked(sort_keys);
    assert(r.contains(i));
    let p = choose|p: int| 0 <= p < r.len() && r[p] == i;
    assert(order::sorted(hosts)[p] == g.hostname);
}

/// Who does not carry the coordinator's secret is refused, whatever is asked; without a
/// secret everyone is served.
pub proof fn secrets_are_asked_for(
    c: CoordinatorView,
    header: Option<Seq<char>>,
    name: Seq<char>,
    proxy_url: Option<Seq<char>>,
)
    ensures
        c.secret is Some && header != c.secret ==> (c.judge(header, name, proxy_url) matches Err(r)
            && r.status == 401),
        c.secret is None || header == c.secret ==> {
            &&& !name_allowed(name) ==> (c.judge(header, name, proxy_url) matches Err(r) && r.status
                == 400)
            &&& name_allowed(name) && c.claims.dom().contains(name) ==> (c.judge(
                header,
                name,
                proxy_url,
            ) matches Err(r) && r.status == 409)
            &&& name_allowed(name) && !c.claims.dom().contains(name) ==> (c.judge(
                header,
                name,
                proxy_url,
            ) matches Ok(run) && run == run_for(c.domain, name, proxy_url))
        },
{
}

/// A name that is given back is free again, and no other claim is touched. Only who has the
/// secret can give one back, and only one that is held.
pub proof fn released_names_are_free(
    c: CoordinatorView,
    header: Option<Seq<char>>,
    name: Seq<char>,
    other: Seq<char>,
)
    ensures
        ({
            let (after, answer) = c.releasing(header, name);
            let trusted = c.secret is None || header == c.secret;
            &&& !trusted ==> after == c && (answer matches Err(e) && e.status == 401)
            &&& trusted ==> !after.claims.dom().contains(name)
            &&& other != name ==> (after.claims.dom().contains(other)
                <==> c.claims.dom().contains(other)) && after.claims[other] == c.claims[other]
            &&& after.domain == c.domain && after.secret == c.secret
            &&& trusted && c.claims.dom().contains(name) ==> answer == Ok::<ClaimView, RefusalView>(
                c.claims[name],
            )
            &&& trusted && !c.claims.dom().contains(name) ==> (answer matches Err(e) && e.status
                == 404)
            &&& trusted && name_allowed(name) ==> after.judge(header, name, None) is Ok
        }),
{
}

} // verus!
