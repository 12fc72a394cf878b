//! The thin Cloudflare API client the coordinator needs: create or delete a
//! remotely managed tunnel, push its ingress configuration, and create or delete the
//! DNS record that points a name at it. Requests are built here and replies read;
//! sending them is left to the caller.
use vstd::prelude::*;

use crate::json;
use crate::json::{flag_at, items_at, items_of, string_at, text_of, value_at};
use crate::split;
use crate::split::join;
use crate::values;
use crate::values::clone_opt;

verus! {

/// What went wrong, in Cloudflare's words or ours.
#[derive(Debug)]
pub struct CfError(pub String);

#[derive(Debug, Clone, Copy, PartialEq, Eq, Structural)]
pub enum CfVerb {
    Get,
    Post,
    Put,
    Delete,
}

/// Where the traffic of a hostname goes; without a hostname, all other traffic.
#[derive(Debug)]
pub struct IngressRule {
    pub hostname: Option<String>,
    pub service: String,
}

/// The contents of an `IngressRule`.
pub struct IngressRuleView {
    pub hostname: Option<Seq<char>>,
    pub service: Seq<char>,
}

impl View for IngressRule {
    type V = IngressRuleView;

    open spec fn view(&self) -> IngressRuleView {
        IngressRuleView {
            hostname: values::opt_view(self.hostname),
            service: self.service@,
        }
    }
}

impl Clone for IngressRule {
    fn clone(&self) -> (r: Self)
        ensures
            r@ == self@,
    {
        IngressRule {
            hostname: clone_opt(&self.hostname),
            service: self.service.clone(),
        }
    }
}

pub open spec fn ingress_rule_views(v: Seq<IngressRule>) -> Seq<IngressRuleView> {
    Seq::new(v.len(), |i: int| v[i]@)
}

/// The body of a request.
#[derive(Debug)]
pub enum CfBody {
    Nothing,
    Tunnel { name: String, config_src: String },
    Ingress(Vec<IngressRule>),
    Record { kind: String, name: String, content: String, proxied: bool },
}

/// The contents of a `CfBody`.
pub enum CfBodyView {
    Nothing,
    Tunnel { name: Seq<char>, config_src: Seq<char> },
    Ingress(Seq<IngressRuleView>),
    Record { kind: Seq<char>, name: Seq<char>, content: Seq<char>, proxied: bool },
}

impl View for CfBody {
    type V = CfBodyView;

    open spec fn view(&self) -> CfBodyView {
        match self {
            CfBody::Nothing => CfBodyView::Nothing,
            CfBody::Tunnel { name, config_src } => CfBodyView::Tunnel {
                name: name@,
                config_src: config_src@,
            },
            CfBody::Ingress(x) => CfBodyView::Ingress(ingress_rule_views(x@)),
            CfBody::Record { kind, name, content, proxied } => CfBodyView::Record {
                kind: kind@,
                name: name@,
                content: content@,
                proxied: *proxied,
            },
        }
    }
}

#[derive(Debug)]
pub struct CfRequest {
    pub verb: CfVerb,
    pub url: String,
    pub body: CfBody,
}

/// The contents of a `CfRequest`.
pub struct CfRequestView {
    pub verb: CfVerb,
    pub url: Seq<char>,
    pub body: CfBodyView,
}

impl View for CfRequest {
    type V = CfRequestView;

    open spec fn view(&self) -> CfRequestView {
        CfRequestView {
            verb: self.verb,
            url: self.url@,
            body: self.body@,
        }
    }
}

/// A tunnel that was created; its connector token may have to be fetched.
#[derive(Debug)]
pub struct NewTunnel {
    pub id: String,
    pub token: Option<String>,
}

/// The contents of a `NewTunnel`.
pub struct NewTunnelView {
    pub id: Seq<char>,
    pub token: Option<Seq<char>>,
}

impl View for NewTunnel {
    type V = NewTunnelView;

    open spec fn view(&self) -> NewTunnelView {
        NewTunnelView {
            id: self.id@,
            token: values::opt_view(self.token),
        }
    }
}

// ------------------------------------------------------------------------ replies

/// What one entry of a reply's errors says.
pub open spec fn message_of(e: Seq<char>) -> Seq<char> {
    match json::string_found(e, "/message"@) {
        Some(m) => m,
        None => "?"@,
    }
}

/// What a failed reply complains of.
pub open spec fn complaint(body: Seq<char>) -> Seq<char> {
    match json::items_found(body, "/errors"@) {
        Some(es) => split::joined(Seq::new(es.len(), |i: int| message_of(es[i])), "; "@),
        None => "unknown cloudflare error"@,
    }
}

/// The result in a reply, or its complaint.
pub open spec fn result_of(body: Seq<char>) -> Result<Seq<char>, Seq<char>> {
    if json::flag_found(body, "/success"@) {
        Ok(
            match json::json_at(body, "/result"@) {
                Some(v) => v,
                None => "null"@,
            },
        )
    } else {
        Err(complaint(body))
    }
}

pub open spec fn text_result(r: Result<String, CfError>) -> Result<Seq<char>, Seq<char>> {
    match r {
        Ok(s) => Ok(s@),
        Err(e) => Err(e.0@),
    }
}

fn complaint_of(body: &str) -> (r: String)
    ensures
        r@ == complaint(body@),
{
    let es = match items_at(body, "/errors") {
        Some(es) => es,
        None => {
            return "unknown cloudflare error".to_owned();
        },
    };
    let ghost ev = split::views(es@);
    let mut out: Vec<String> = Vec::new();
    let mut i: usize = 0;
    while i < es.len()
        invariant
            i <= es.len(),
            out@.len() == i,
            ev == split::views(es@),
            forall|j: int| 0 <= j < i ==> (#[trigger] out@[j])@ == message_of(ev[j]),
        decreases es.len() - i,
    {
        assert(ev[i as int] == es@[i as int]@);
        let m = match string_at(es[i].as_str(), "/message") {
            Some(m) => m,
            None => "?".to_owned(),
        };
        out.push(m);
        i += 1;
    }
    assert(split::views(out@) =~= Seq::new(ev.len(), |i: int| message_of(ev[i])));
    join(&out, "; ")
}

/// The result in a reply, as JSON, or its complaint.
pub fn ok(body: &str) -> (r: Result<String, CfError>)
    ensures
        text_result(r) == result_of(body@),
{
    if flag_at(body, "/success") {
        match value_at(body, "/result") {
            Some(v) => Ok(v),
            None => Ok("null".to_owned()),
        }
    } else {
        Err(CfError(complaint_of(body)))
    }
}

/// The id of the first item of a list, where it has one.
pub open spec fn first_id(list: Seq<char>) -> Option<Seq<char>> {
    match json::json_items(list) {
        Some(items) => if items.len() > 0 {
            json::string_found(items[0], "/id"@)
        } else {
            None
        },
        None => None,
    }
}

fn first_id_of(list: &str) -> (r: Option<String>)
    ensures
        values::opt_view(r) == first_id(list@),
{
    match items_of(list) {
        Some(items) => {
            assert(split::views(items@).len() == items@.len());
            if items.len() > 0 {
                assert(split::views(items@)[0] == items@[0]@);
                string_at(items[0].as_str(), "/id")
            } else {
                None
            }
        },
        None => None,
    }
}

// ----------------------------------------------------------------------- requests

/// The root of Cloudflare's API.
pub open spec fn api() -> Seq<char> {
    "https://api.cloudflare.com/client/v4"@
}

#[derive(Debug)]
pub struct Cloudflare {
    pub token: String,
    pub account_id: String,
    pub zone_id: String,
}

pub open spec fn rules_for(hostnames: Seq<Seq<char>>, service: Seq<char>) -> Seq<IngressRuleView> {
    Seq::new(
        hostnames.len(),
        |i: int| IngressRuleView { hostname: Some(hostnames[i]), service },
    ).push(IngressRuleView { hostname: None, service: "http_status:404"@ })
}

impl Cloudflare {
    pub open spec fn tunnels_url(&self) -> Seq<char> {
        api() + "/accounts/"@ + self.account_id@ + "/cfd_tunnel"@
    }

    pub open spec fn records_url(&self) -> Seq<char> {
        api() + "/zones/"@ + self.zone_id@ + "/dns_records"@
    }

    pub fn new(token: String, account_id: String, zone_id: String) -> (r: Self)
        ensures
            r.token == token && r.account_id == account_id && r.zone_id == zone_id,
    {
        Cloudflare { token, account_id, zone_id }
    }

    /// The request that finds the zone of a domain, so that the operator only has to
    /// supply token, account and domain.
    pub fn zone_request(domain: &str) -> (r: CfRequest)
        ensures
            r@ == (CfRequestView {
                verb: CfVerb::Get,
                url: api() + "/zones?name="@ + domain@,
                body: CfBodyView::Nothing,
            }),
    {
        CfRequest {
            verb: CfVerb::Get,
            url: "https://api.cloudflare.com/client/v4".to_owned().concat("/zones?name=").concat(
                domain,
            ),
            body: CfBody::Nothing,
        }
    }

    /// Resolve a zone id from the reply for the parent domain.
    pub fn resolve_zone(domain: &str, body: &str) -> (r: Result<String, CfError>)
        ensures
            text_result(r) == match result_of(body@) {
                Ok(list) => match first_id(list) {
                    Some(id) => Ok(id),
                    None => Err("zone "@ + domain@ + " not found on this account"@),
                },
                Err(e) => Err(e),
            },
    {
        let list = match ok(body) {
            Ok(list) => list,
            Err(e) => {
                return Err(e);
            },
        };
        match first_id_of(list.as_str()) {
            Some(id) => Ok(id),
            None => Err(
                CfError("zone ".to_owned().concat(domain).concat(" not found on this account")),
            ),
        }
    }

    fn tunnels(&self) -> (r: String)
        ensures
            r@ == self.tunnels_url(),
    {
        "https://api.cloudflare.com/client/v4".to_owned().concat("/accounts/").concat(
            self.account_id.as_str(),
        ).concat("/cfd_tunnel")
    }

    fn records(&self) -> (r: String)
        ensures
            r@ == self.records_url(),
    {
        "https://api.cloudflare.com/client/v4".to_owned().concat("/zones/").concat(
            self.zone_id.as_str(),
        ).concat("/dns_records")
    }

    /// Create a remotely managed tunnel.
    pub fn create_tunnel(&self, name: &str) -> (r: CfRequest)
        ensures
            r@ == (CfRequestView {
                verb: CfVerb::Post,
                url: self.tunnels_url(),
                body: CfBodyView::Tunnel { name: name@, config_src: "cloudflare"@ },
            }),
    {
        CfRequest {
            verb: CfVerb::Post,
            url: self.tunnels(),
            body: CfBody::Tunnel { name: name.to_owned(), config_src: "cloudflare".to_owned() },
        }
    }

    /// The tunnel that a reply tells of. The token is sometimes inline, otherwise it
    /// has to be fetched.
    pub fn tunnel_created(body: &str) -> (r: Result<NewTunnel, CfError>)
        ensures
            match result_of(body@) {
                Ok(res) => match json::string_found(res, "/id"@) {
                    Some(id) => r matches Ok(t) && t@ == (NewTunnelView {
                        id,
                        token: json::string_found(res, "/token"@),
                    }),
                    None => r matches Err(e) && e.0@ == "tunnel create returned no id"@,
                },
                Err(m) => r matches Err(e) && e.0@ == m,
            },
    {
        let res = match ok(body) {
            Ok(res) => res,
            Err(e) => {
                return Err(e);
            },
        };
        match string_at(res.as_str(), "/id") {
            Some(id) => Ok(NewTunnel { id, token: string_at(res.as_str(), "/token") }),
            None => Err(CfError("tunnel create returned no id".to_owned())),
        }
    }

    /// Fetch a tunnel's connector token.
    pub fn fetch_token(&self, id: &str) -> (r: CfRequest)
        ensures
            r@ == (CfRequestView {
                verb: CfVerb::Get,
                url: self.tunnels_url() + "/"@ + id@ + "/token"@,
                body: CfBodyView::Nothing,
            }),
    {
        CfRequest {
            verb: CfVerb::Get,
            url: self.tunnels().concat("/").concat(id).concat("/token"),
            body: CfBody::Nothing,
        }
    }

    pub fn connector_token(body: &str) -> (r: Result<String, CfError>)
        ensures
            text_result(r) == match result_of(body@) {
                Ok(res) => match json::json_text(res) {
                    Some(t) => Ok(t),
                    None => Err("no connector token"@),
                },
                Err(e) => Err(e),
            },
    {
        let res = match ok(body) {
            Ok(res) => res,
            Err(e) => {
                return Err(e);
            },
        };
        match text_of(res.as_str()) {
            Some(t) => Ok(t),
            None => Err(CfError("no connector token".to_owned())),
        }
    }

    /// Point a tunnel's ingress at the host's local proxy for one or more hostnames
    /// (apex claims carry both the bare domain and www).
    pub fn set_ingress(&self, tunnel_id: &str, hostnames: &Vec<String>, service: &str) -> (r:
        CfRequest)
        ensures
            r@ == (CfRequestView {
                verb: CfVerb::Put,
                url: self.tunnels_url() + "/"@ + tunnel_id@ + "/configurations"@,
                body: CfBodyView::Ingress(rules_for(split::views(hostnames@), service@)),
            }),
    {
        let ghost hv = split::views(hostnames@);
        let mut rules: Vec<IngressRule> = Vec::new();
        let mut i: usize = 0;
        while i < hostnames.len()
            invariant
                i <= hostnames.len(),
                rules@.len() == i,
                hv == split::views(hostnames@),
                forall|j: int|
                    0 <= j < i ==> (#[trigger] rules@[j])@ == (IngressRuleView {
                        hostname: Some(hv[j]),
                        service: service@,
                    }),
            decreases hostnames.len() - i,
        {
            assert(hv[i as int] == hostnames@[i as int]@);
            rules.push(
                IngressRule { hostname: Some(hostnames[i].clone()), service: service.to_owned() },
            );
            i += 1;
        }
        rules.push(IngressRule { hostname: None, service: "http_status:404".to_owned() });
        assert(ingress_rule_views(rules@) =~= rules_for(hv, service@));
        CfRequest {
            verb: CfVerb::Put,
            url: self.tunnels().concat("/").concat(tunnel_id).concat("/configurations"),
            body: CfBody::Ingress(rules),
        }
    }

    /// Delete a tunnel. It must have no active connections; cleanup is best-effort.
    pub fn delete_tunnel(&self, tunnel_id: &str) -> (r: CfRequest)
        ensures
            r@ == (CfRequestView {
                verb: CfVerb::Delete,
                url: self.tunnels_url() + "/"@ + tunnel_id@,
                body: CfBodyView::Nothing,
            }),
    {
        CfRequest {
            verb: CfVerb::Delete,
            url: self.tunnels().concat("/").concat(tunnel_id),
            body: CfBody::Nothing,
        }
    }

    /// CNAME `<sub>` to `<tunnel_id>.cfargotunnel.com`, proxied.
    pub fn create_dns(&self, sub: &str, tunnel_id: &str) -> (r: CfRequest)
        ensures
            r@ == (CfRequestView {
                verb: CfVerb::Post,
                url: self.records_url(),
                body: CfBodyView::Record {
                    kind: "CNAME"@,
                    name: sub@,
                    content: tunnel_id@ + ".cfargotunnel.com"@,
                    proxied: true,
                },
            }),
    {
        CfRequest {
            verb: CfVerb::Post,
            url: self.records(),
            body: CfBody::Record {
                kind: "CNAME".to_owned(),
                name: sub.to_owned(),
                content: tunnel_id.to_owned().concat(".cfargotunnel.com"),
                proxied: true,
            },
        }
    }

    /// The id of a record that was created.
    pub fn dns_created(body: &str) -> (r: Result<String, CfError>)
        ensures
            text_result(r) == match result_of(body@) {
                Ok(res) => Ok(
                    match json::string_found(res, "/id"@) {
                        Some(id) => id,
                        None => ""@,
                    },
                ),
                Err(e) => Err(e),
            },
    {
        let res = match ok(body) {
            Ok(res) => res,
            Err(e) => {
                return Err(e);
            },
        };
        match string_at(res.as_str(), "/id") {
            Some(id) => Ok(id),
            None => Ok("".to_owned()),
        }
    }

    pub fn find_dns(&self, fqdn: &str) -> (r: CfRequest)
        ensures
            r@ == (CfRequestView {
                verb: CfVerb::Get,
                url: self.records_url() + "?name="@ + fqdn@,
                body: CfBodyView::Nothing,
            }),
    {
        CfRequest {
            verb: CfVerb::Get,
            url: self.records().concat("?name=").concat(fqdn),
            body: CfBody::Nothing,
        }
    }

    /// The id of the record that was looked for, if there is one.
    pub fn dns_found(body: &str) -> (r: Result<Option<String>, CfError>)
        ensures
            match result_of(body@) {
                Ok(list) => r matches Ok(id) && values::opt_view(id) == first_id(list),
                Err(m) => r matches Err(e) && e.0@ == m,
            },
    {
        match ok(body) {
            Ok(list) => Ok(first_id_of(list.as_str())),
            Err(e) => Err(e),
        }
    }

    pub fn delete_dns(&self, record_id: &str) -> (r: CfRequest)
        ensures
            r@ == (CfRequestView {
                verb: CfVerb::Delete,
                url: self.records_url() + "/"@ + record_id@,
                body: CfBodyView::Nothing,
            }),
    {
        CfRequest {
            verb: CfVerb::Delete,
            url: self.records().concat("/").concat(record_id),
            body: CfBody::Nothing,
        }
    }
}

// ---------------------------------------------------------------------------- laws

/// All traffic of each hostname goes to the service, in their order, and all other traffic
/// ends.
pub proof fn each_hostname_is_routed(hostnames: Seq<Seq<char>>, service: Seq<char>, i: int)
    requires
        0 <= i < hostnames.len(),
    ensures
        ({
            let rules = rules_for(hostnames, service);
            &&& rules.len() == hostnames.len() + 1
            &&& rules[i].hostname == Some(hostnames[i]) && rules[i].service == service
            &&& rules.last().hostname is None && rules.last().service == "http_status:404"@
        }),
{
}

/// A reply that did not succeed is a complaint that holds what each of its errors says.
pub proof fn complaints_name_every_error(body: Seq<char>, errors: Seq<Seq<char>>, m: Seq<char>)
    requires
        !json::flag_found(body, "/success"@),
        json::items_found(body, "/errors"@) == Some(errors),
    ensures
        result_of(body) is Err,
        errors.len() == 1 && json::string_found(errors[0], "/message"@) == Some(m) ==> result_of(
            body,
        ) == Err::<Seq<char>, Seq<char>>(m),
{
    let all = Seq::new(errors.len(), |i: int| message_of(errors[i]));
    if errors.len() == 1 && json::string_found(errors[0], "/message"@) == Some(m) {
        assert(all =~= seq![m]);
        assert(all.drop_last() =~= Seq::empty());
        assert(split::joined(all, "; "@) =~= m);
    }
}

/// A reply that succeeded gives its result, whatever else is in it.
pub proof fn successes_give_their_result(body: Seq<char>, v: Seq<char>)
    requires
        json::flag_found(body, "/success"@),
        json::json_at(body, "/result"@) == Some(v),
    ensures
        result_of(body) == Ok::<Seq<char>, Seq<char>>(v),
{
}

/// The first of a list is the one that counts.
pub proof fn the_first_entry_counts(list: Seq<char>, items: Seq<Seq<char>>)
    requires
        json::json_items(list) == Some(items),
    ensures
        items.len() > 0 ==> first_id(list) == json::string_found(items[0], "/id"@),
        items.len() == 0 ==> first_id(list) is None,
{
}

} // verus!
