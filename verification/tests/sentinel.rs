use hades::config::NotifyConfig;
use hades::events::{DowntimeCause, HostEvent, Severity};
use hades::notify::{DeadMansSwitch, Delivery, Notification, Notifiers};
use hades::time::Timestamp;
use hades::probe::is_wall_clock_jump;
use hades::uptime::{
    availability, detect_gap, heartbeat_text, last_heartbeat, windows_since, DowntimeRecord,
    UptimeLedger,
};

fn now() -> Timestamp {
    let d = chrono::Utc::now();
    Timestamp { secs: d.timestamp(), nanos: d.timestamp_subsec_nanos() }
}

fn back(t: Timestamp, secs: i64) -> Timestamp {
    Timestamp { secs: t.secs - secs, nanos: t.nanos }
}

#[test]
fn ledger_round_trip_and_availability() {
    let ledger = UptimeLedger::new("hb".to_string(), "uptime.jsonl".to_string());
    assert_eq!(ledger.heartbeat_path, "hb");
    assert_eq!(ledger.ledger_path, "uptime.jsonl");

    let now = now();
    assert!(last_heartbeat(Some(&heartbeat_text(now))).is_some());

    let records = vec![DowntimeRecord {
        start: back(now, 2 * 3600),
        end: back(now, 3600),
        secs: 3600,
        cause: DowntimeCause::Slept,
    }];

    let windows = windows_since(&records, back(now, 24 * 3600));
    assert_eq!(windows.len(), 1);

    // one hour down in the last ten hours
    let a = availability(&records, back(now, 10 * 3600), now);
    let pct = 100.0 * (1.0 - a.down_secs as f64 / a.total_secs as f64);
    assert!((pct - 90.0).abs() < 1.0, "got {pct}");
}

#[test]
fn heartbeats_are_read_back() {
    let t = Timestamp { secs: 1_780_000_000, nanos: 250_000_000 };
    assert_eq!(heartbeat_text(t), "2026-05-28T20:26:40.250+00:00");
    assert_eq!(last_heartbeat(Some(&heartbeat_text(t))), Some(t));
    assert_eq!(
        last_heartbeat(Some(" 2026-05-28T20:26:40+00:00\n")),
        Some(Timestamp { secs: t.secs, nanos: 0 })
    );
    assert_eq!(last_heartbeat(Some("yesterday")), None);
    assert_eq!(last_heartbeat(None), None);
    let leap = last_heartbeat(Some("2016-12-31T23:59:60.5Z")).unwrap();
    assert_eq!(leap, Timestamp { secs: 1_483_228_799, nanos: 1_500_000_000 });
    assert_eq!(heartbeat_text(leap), "2016-12-31T23:59:60.500+00:00");
    assert_eq!(last_heartbeat(Some(&heartbeat_text(leap))), Some(leap));
}

#[test]
fn times_agree_with_the_calendar() {
    let texts = [
        "2016-12-31T23:59:59Z",
        "2016-12-31T23:59:59.75Z",
        "2016-12-31T23:59:60Z",
        "2016-12-31T23:59:60.5Z",
        "2017-01-01T00:00:00Z",
        "2017-01-01T00:00:00.25Z",
        "2017-01-01T00:11:00Z",
        "2016-12-31T00:00:60Z",
        "2016-12-31T00:00:60.75Z",
        "2016-12-31T00:11:00Z",
        "2016-12-30T12:00:00.5Z",
        "0001-01-01T00:00:60Z",
    ];
    let read = |s: &&str| chrono::DateTime::parse_from_rfc3339(s).unwrap().with_timezone(&chrono::Utc);
    let stamp = |t: chrono::DateTime<chrono::Utc>| Timestamp {
        secs: t.timestamp(),
        nanos: t.timestamp_subsec_nanos(),
    };
    for a in texts.iter().map(read) {
        for b in texts.iter().map(read) {
            let (x, y) = (stamp(a), stamp(b));
            assert_eq!(x.seconds_since(&y), (a - b).num_seconds() as i128, "{a} {b}");
            assert_eq!(x.is_before(&y), a < b, "{a} {b}");
            let gap = chrono::Duration::seconds(95);
            assert_eq!(detect_gap(y, x, 30).is_some(), a - b > gap, "{a} {b}");
        }
        for secs in [1, 90, 600, 86_400] {
            assert_eq!(stamp(a).minus_secs(secs), stamp(a - chrono::Duration::seconds(secs)));
        }
    }
}

#[test]
fn gap_detectors_agree() {
    let read = |s: &str| chrono::DateTime::parse_from_rfc3339(s).unwrap().with_timezone(&chrono::Utc);
    let stamp = |t: chrono::DateTime<chrono::Utc>| Timestamp {
        secs: t.timestamp(),
        nanos: t.timestamp_subsec_nanos(),
    };
    for p in ["2026-05-28T20:26:40.25Z", "2016-12-31T23:59:59Z", "2016-12-31T12:00:60.5Z"].map(read) {
        for gap in [0, 1, 94, 95, 96, 97, 86_400] {
            let now = p + chrono::Duration::seconds(gap);
            assert_eq!(
                detect_gap(stamp(p), stamp(now), 30).is_some(),
                is_wall_clock_jump(30, gap as u64),
                "{p} {gap}"
            );
        }
    }
    // from a leap second at midnight, 96 seconds count for 95
    let p = read("2016-12-31T23:59:60Z");
    let now = p + chrono::Duration::seconds(96);
    assert_eq!((now - p).num_seconds(), 95);
    assert!(detect_gap(stamp(p), stamp(now), 30).is_none());
}

#[test]
fn leap_seconds_count_in_a_window() {
    let at = |s: &str| last_heartbeat(Some(s)).unwrap();
    let records = vec![DowntimeRecord {
        start: at("2016-12-31T00:00:60Z"),
        end: at("2016-12-31T00:11:00Z"),
        secs: 601,
        cause: DowntimeCause::Crashed,
    }];
    let a = availability(&records, at("2016-12-30T00:00:00Z"), at("2016-12-31T12:00:00Z"));
    assert_eq!((a.down_secs, a.total_secs), (601, 129_600));
}

#[test]
fn windows_that_ended_before_do_not_count() {
    let now = now();
    let records = vec![DowntimeRecord {
        start: back(now, 7200),
        end: back(now, 3600),
        secs: 3600,
        cause: DowntimeCause::Crashed,
    }];
    assert_eq!(windows_since(&records, back(now, 1800)).len(), 0);
    let a = availability(&records, back(now, 1800), now);
    assert_eq!((a.down_secs, a.total_secs), (0, 1800));
    let a = availability(&records, back(now, 5400), now);
    assert_eq!((a.down_secs, a.total_secs), (1800, 5400));
}

#[test]
fn gap_detection() {
    let now = now();
    assert!(detect_gap(back(now, 31), now, 30).is_none());
    assert!(detect_gap(back(now, 300), now, 30).is_some());
}

fn config(topic: Option<&str>, mac: bool) -> NotifyConfig {
    NotifyConfig {
        ntfy_topic: topic.map(|t| t.to_string()),
        mac_notifications: mac,
        healthchecks_url: None,
    }
}

#[test]
fn quiet_events_are_not_sent() {
    let n = Notifiers::from_config(&config(Some("t"), true));
    assert_eq!(n.notify_event(&HostEvent::DaemonStarted { unclean_shutdown: false }).len(), 0);
    assert_eq!(n.notify_event(&HostEvent::OnBattery).len(), 2);
    assert_eq!(n.channels(), vec!["ntfy.sh/t".to_string(), "macos-notification-center".to_string()]);
    assert!(Notifiers::from_config(&config(None, false)).channels().is_empty());
}

#[test]
fn pushes_carry_the_event() {
    let n = Notifiers::from_config(&config(Some("topic"), false));
    let sent = n.send(&Notification {
        title: "hades".to_string(),
        body: "boom".to_string(),
        severity: Severity::Urgent,
    });
    assert_eq!(sent.len(), 1);
    match &sent[0] {
        Delivery::Ntfy { url, title, priority, tags, body } => {
            assert_eq!(url, "https://ntfy.sh/topic");
            assert_eq!(title, "hades");
            assert_eq!(priority, "urgent");
            assert_eq!(tags, "hades");
            assert_eq!(body, "boom");
        }
        _ => panic!("a push"),
    }
    let from = Notification::from_event(&HostEvent::OnAc);
    assert_eq!((from.title.as_str(), from.body.as_str()), ("hades", "host back on AC power"));
}

#[test]
fn scripts_hold_no_stray_quote() {
    let n = Notifiers::from_config(&config(None, true));
    let sent = n.send(&Notification {
        title: "a \"b\"".to_string(),
        body: "say \"hi\"".to_string(),
        severity: Severity::Default,
    });
    match &sent[0] {
        Delivery::Mac { script } => {
            assert_eq!(script, "display notification \"say 'hi'\" with title \"a 'b'\"")
        }
        _ => panic!("a local notification"),
    }
}

#[test]
fn the_switch_pings_its_url() {
    let s = DeadMansSwitch::new(Some("https://hc-ping.com/x".to_string()));
    assert!(s.enabled());
    assert_eq!(s.ping(), Some("https://hc-ping.com/x".to_string()));
    let off = DeadMansSwitch::new(None);
    assert!(!off.enabled() && off.ping().is_none());
}
