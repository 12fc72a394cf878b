//! Notifications: which events reach people, over which channels, and how.
use vstd::prelude::*;

use crate::config::NotifyConfig;
use crate::events::{HostEvent, Severity};
use crate::split;
use crate::split::replace;
use crate::values;
use crate::values::clone_opt;

verus! {

#[derive(Debug)]
pub struct Notification {
    pub title: String,
    pub body: String,
    pub severity: Severity,
}

/// The contents of a `Notification`.
pub struct NotificationView {
    pub title: Seq<char>,
    pub body: Seq<char>,
    pub severity: Severity,
}

impl View for Notification {
    type V = NotificationView;

    open spec fn view(&self) -> NotificationView {
        NotificationView {
            title: self.title@,
            body: self.body@,
            severity: self.severity,
        }
    }
}

impl Clone for Notification {
    fn clone(&self) -> (r: Self)
        ensures
            r@ == self@,
    {
        Notification {
            title: self.title.clone(),
            body: self.body.clone(),
            severity: self.severity,
        }
    }
}

/// One message on its way.
#[derive(Debug)]
pub enum Delivery {
    /// A push over ntfy.sh.
    Ntfy { url: String, title: String, priority: String, tags: String, body: String },
    /// A local notification, as an AppleScript line.
    Mac { script: String },
}

/// The contents of a `Delivery`.
pub enum DeliveryView {
    Ntfy { url: Seq<char>, title: Seq<char>, priority: Seq<char>, tags: Seq<char>, body: Seq<char> },
    Mac { script: Seq<char> },
}

impl View for Delivery {
    type V = DeliveryView;

    open spec fn view(&self) -> DeliveryView {
        match self {
            Delivery::Ntfy { url, title, priority, tags, body } => DeliveryView::Ntfy {
                url: url@,
                title: title@,
                priority: priority@,
                tags: tags@,
                body: body@,
            },
            Delivery::Mac { script } => DeliveryView::Mac {
                script: script@,
            },
        }
    }
}

impl Clone for Delivery {
    fn clone(&self) -> (r: Self)
        ensures
            r@ == self@,
    {
        match self {
            Delivery::Ntfy { url, title, priority, tags, body } => Delivery::Ntfy {
                url: url.clone(),
                title: title.clone(),
                priority: priority.clone(),
                tags: tags.clone(),
                body: body.clone(),
            },
            Delivery::Mac { script } => Delivery::Mac {
                script: script.clone(),
            },
        }
    }
}

pub open spec fn delivery_views(v: Seq<Delivery>) -> Seq<DeliveryView> {
    Seq::new(v.len(), |i: int| v[i]@)
}

impl Notification {
    pub fn from_event(event: &HostEvent) -> (r: Self)
        ensures
            r.title@ == "hades"@,
            r.body@ == event@.summary(),
            r.severity == event@.severity(),
    {
        Notification {
            title: "hades".to_owned(),
            body: event.summary(),
            severity: event.severity(),
        }
    }
}

/// Config-driven fan-out. `Info` events stay in the event ledger only; the others
/// go to ntfy, and to the local notification centre when that is enabled.
#[derive(Debug)]
pub struct Notifiers {
    pub ntfy_topic: Option<String>,
    pub mac: bool,
}

/// The ntfy channel of a topic.
pub open spec fn ntfy_channel(topic: Seq<char>) -> Seq<char> {
    "ntfy.sh/"@ + topic
}

pub open spec fn mac_channel() -> Seq<char> {
    "macos-notification-center"@
}

pub open spec fn priority_name(s: Severity) -> Seq<char> {
    if s == Severity::Urgent {
        "urgent"@
    } else {
        "default"@
    }
}

/// The AppleScript that shows a notification; double quotes become single ones.
pub open spec fn mac_script(n: NotificationView) -> Seq<char> {
    "display notification \""@ + split::replaced(n.body, '"', '\'') + "\" with title \""@
        + split::replaced(n.title, '"', '\'') + "\""@
}

pub open spec fn ntfy_delivery(topic: Seq<char>, n: NotificationView) -> DeliveryView {
    DeliveryView::Ntfy {
        url: "https://ntfy.sh/"@ + topic,
        title: n.title,
        priority: priority_name(n.severity),
        tags: "hades"@,
        body: n.body,
    }
}

/// What is to be sent for a notification, in this order.
pub open spec fn deliveries(topic: Option<Seq<char>>, mac: bool, n: NotificationView) -> Seq<
    DeliveryView,
> {
    if n.severity == Severity::Info {
        Seq::empty()
    } else {
        (match topic {
            Some(t) => seq![ntfy_delivery(t, n)],
            None => Seq::empty(),
        }) + (if mac {
            seq![DeliveryView::Mac { script: mac_script(n) }]
        } else {
            Seq::empty()
        })
    }
}

impl Notifiers {
    pub fn from_config(cfg: &NotifyConfig) -> (r: Self)
        ensures
            values::opt_view(r.ntfy_topic) == cfg@.ntfy_topic,
            r.mac == cfg.mac_notifications,
    {
        Notifiers { ntfy_topic: clone_opt(&cfg.ntfy_topic), mac: cfg.mac_notifications }
    }

    pub open spec fn channel_list(self) -> Seq<Seq<char>> {
        (match self.ntfy_topic {
            Some(t) => seq![ntfy_channel(t@)],
            None => Seq::empty(),
        }) + (if self.mac {
            seq![mac_channel()]
        } else {
            Seq::empty()
        })
    }

    /// The channels that are configured.
    pub fn channels(&self) -> (r: Vec<String>)
        ensures
            split::views(r@) == self.channel_list(),
    {
        let mut out: Vec<String> = Vec::new();
        match &self.ntfy_topic {
            Some(t) => {
                out.push("ntfy.sh/".to_owned().concat(t.as_str()));
            },
            None => {},
        }
        if self.mac {
            out.push("macos-notification-center".to_owned());
        }
        assert(split::views(out@) =~= self.channel_list());
        out
    }

    /// What to send for a notification.
    pub fn send(&self, n: &Notification) -> (r: Vec<Delivery>)
        ensures
            delivery_views(r@) == deliveries(values::opt_view(self.ntfy_topic), self.mac, n@),
    {
        let mut out: Vec<Delivery> = Vec::new();
        let ghost want = deliveries(values::opt_view(self.ntfy_topic), self.mac, n@);
        if n.severity == Severity::Info {
            assert(delivery_views(out@) =~= want);
            return out;
        }
        match &self.ntfy_topic {
            Some(topic) => {
                let priority = if n.severity == Severity::Urgent {
                    "urgent".to_owned()
                } else {
                    "default".to_owned()
                };
                out.push(
                    Delivery::Ntfy {
                        url: "https://ntfy.sh/".to_owned().concat(topic.as_str()),
                        title: n.title.clone(),
                        priority,
                        tags: "hades".to_owned(),
                        body: n.body.clone(),
                    },
                );
            },
            None => {},
        }
        if self.mac {
            out.push(
                Delivery::Mac {
                    script: "display notification \"".to_owned().concat(
                        replace(n.body.as_str(), '"', '\'').as_str(),
                    ).concat("\" with title \"").concat(
                        replace(n.title.as_str(), '"', '\'').as_str(),
                    ).concat("\""),
                },
            );
        }
        assert(delivery_views(out@) =~= want);
        out
    }

    /// The name of the channel that a delivery goes over.
    pub fn channel_of(&self, d: &Delivery) -> (r: Option<String>)
        ensures
            r is Some <==> d is Mac || self.ntfy_topic is Some,
            r matches Some(c) ==> c@ == match d {
                Delivery::Mac { .. } => mac_channel(),
                Delivery::Ntfy { .. } => ntfy_channel(self.ntfy_topic->0@),
            },
    {
        match d {
            Delivery::Mac { .. } => Some("macos-notification-center".to_owned()),
            Delivery::Ntfy { .. } => match &self.ntfy_topic {
                Some(t) => Some("ntfy.sh/".to_owned().concat(t.as_str())),
                None => None,
            },
        }
    }

    /// Notify for an event, honouring its severity.
    pub fn notify_event(&self, event: &HostEvent) -> (r: Vec<Delivery>)
        ensures
            delivery_views(r@) == deliveries(
                values::opt_view(self.ntfy_topic),
                self.mac,
                NotificationView {
                    title: "hades"@,
                    body: event@.summary(),
                    severity: event@.severity(),
                },
            ),
    {
        self.send(&Notification::from_event(event))
    }
}

/// The dead-man's switch: the daemon pings a URL; when the pings stop, a third
/// party raises the alarm. A dead host cannot report its own death.
#[derive(Debug)]
pub struct DeadMansSwitch {
    pub url: Option<String>,
}

impl DeadMansSwitch {
    pub fn new(url: Option<String>) -> (r: Self)
        ensures
            r.url == url,
    {
        DeadMansSwitch { url }
    }

    pub fn enabled(&self) -> (r: bool)
        ensures
            r == self.url is Some,
    {
        self.url.is_some()
    }

    /// Where to ping, if the switch is set.
    pub fn ping(&self) -> (r: Option<String>)
        ensures
            values::opt_view(r) == values::opt_view(self.url),
    {
        clone_opt(&self.url)
    }
}

// ------------------------------------------------------------------------ laws

/// Quiet events reach nobody; the others reach every configured channel, one
/// message each.
pub proof fn only_quiet_events_stay_quiet(topic: Option<Seq<char>>, mac: bool, n: NotificationView)
    ensures
        n.severity == Severity::Info ==> deliveries(topic, mac, n).len() == 0,
        n.severity != Severity::Info ==> deliveries(topic, mac, n).len() == (if topic is Some {
            1int
        } else {
            0
        }) + (if mac {
            1int
        } else {
            0
        }),
{
}

/// In the line handed to the script runner, the quotes of the text are single ones:
/// between its own quotes there is no double quote.
pub proof fn script_texts_hold_no_double_quote(body: Seq<char>, i: int)
    requires
        0 <= i < body.len(),
    ensures
        split::replaced(body, '"', '\'')[i] != '"',
        split::replaced(body, '"', '\'').len() == body.len(),
{
}

/// Each channel gets the whole message: ntfy at its topic, with the title and body as they
/// are and as urgent as the event is, and the local notification centre with both, their
/// double quotes made single.
pub proof fn messages_arrive_whole(topic: Seq<char>, n: NotificationView)
    requires
        n.severity != Severity::Info,
    ensures
        ({
            let both = deliveries(Some(topic), true, n);
            &&& both.len() == 2
            &&& both[0] matches DeliveryView::Ntfy { url, title, priority, tags, body } && url
                == "https://"@ + ntfy_channel(topic) && title == n.title && body == n.body && tags
                == "hades"@ && (priority == "urgent"@ <==> n.severity == Severity::Urgent) && (
            priority == "default"@ <==> n.severity != Severity::Urgent)
            &&& both[1] matches DeliveryView::Mac { script } && script == "display notification \""@
                + split::replaced(n.body, '"', '\'') + "\" with title \""@ + split::replaced(
                n.title,
                '"',
                '\'',
            ) + "\""@
            &&& deliveries(Some(topic), false, n) == seq![both[0]]
            &&& deliveries(None, true, n) == seq![both[1]]
            &&& deliveries(None, false, n).len() == 0
        }),
{
    reveal_strlit("https://");
    reveal_strlit("ntfy.sh/");
    reveal_strlit("https://ntfy.sh/");
    reveal_strlit("urgent");
    reveal_strlit("default");
    assert("urgent"@.len() != "default"@.len());
    let both = deliveries(Some(topic), true, n);
    assert("https://ntfy.sh/"@ + topic =~= "https://"@ + ntfy_channel(topic));
    assert(both[0] == ntfy_delivery(topic, n));
    assert(both[1] == (DeliveryView::Mac { script: mac_script(n) }));
    assert(deliveries(Some(topic), false, n) =~= seq![both[0]]);
    assert(deliveries(None, true, n) =~= seq![both[1]]);
}

/// Quotes are all that is changed in a text that is handed to the script runner.
pub proof fn other_letters_stay(body: Seq<char>, i: int)
    requires
        0 <= i < body.len(),
    ensures
        split::replaced(body, '"', '\'')[i] == if body[i] == '"' {
            '\''
        } else {
            body[i]
        },
{
}

} // verus!
