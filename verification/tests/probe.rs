use hades::events::DowntimeCause;
use hades::probe::{
    classify_downtime, ioreg_int, is_wall_clock_jump, parse_pmset_timestamp, BatteryHealth,
    MacProbe,
};
use hades::time::Timestamp;

fn t(s: &str) -> Timestamp {
    let d = chrono::DateTime::parse_from_rfc3339(s).unwrap();
    Timestamp { secs: d.timestamp(), nanos: d.timestamp_subsec_nanos() }
}

#[test]
fn classify_reboot_wins() {
    let cause = classify_downtime(
        t("2026-06-09T10:00:00Z"),
        Some(t("2026-06-09T10:05:00Z")),
        &vec![t("2026-06-09T10:00:30Z")],
        t("2026-06-09T10:10:00Z"),
    );
    assert_eq!(cause, DowntimeCause::Rebooted);
}

#[test]
fn a_boot_after_a_leap_second_is_a_reboot() {
    let cause = classify_downtime(
        t("2016-12-31T23:59:60.5Z"),
        Some(t("2017-01-01T00:00:00Z")),
        &vec![],
        t("2017-01-01T00:10:00Z"),
    );
    assert_eq!(cause, DowntimeCause::Rebooted);
    // ninety seconds before a leap second are counted from the second after it
    let seen = |at: &str| classify_downtime(t("2016-12-31T23:59:60Z"), None, &vec![t(at)], t("2017-01-01T00:10:00Z"));
    assert_eq!(seen("2016-12-31T23:58:30Z"), DowntimeCause::Slept);
    assert_eq!(seen("2016-12-31T23:58:29Z"), DowntimeCause::Unknown);
}

#[test]
fn classify_sleep() {
    let cause = classify_downtime(
        t("2026-06-09T10:00:00Z"),
        Some(t("2026-06-09T01:00:00Z")),
        &vec![t("2026-06-09T10:00:20Z")],
        t("2026-06-09T10:30:00Z"),
    );
    assert_eq!(cause, DowntimeCause::Slept);
}

#[test]
fn classify_crash() {
    let cause = classify_downtime(
        t("2026-06-09T10:00:00Z"),
        Some(t("2026-06-09T01:00:00Z")),
        &vec![t("2026-06-09T02:00:00Z")],
        t("2026-06-09T10:30:00Z"),
    );
    assert_eq!(cause, DowntimeCause::Crashed);
}

#[test]
fn classify_without_evidence() {
    let cause = classify_downtime(
        t("2026-06-09T10:00:00Z"),
        None,
        &vec![],
        t("2026-06-09T10:30:00Z"),
    );
    assert_eq!(cause, DowntimeCause::Unknown);
}

#[test]
fn pmset_timestamp_parses() {
    let line = "2026-06-09 01:23:45 -0700 Sleep               Entering Sleep state due to 'Clamshell Sleep'";
    let ts = parse_pmset_timestamp(line).unwrap();
    assert_eq!(ts, t("2026-06-09T08:23:45Z"));
}

#[test]
fn other_lines_hold_no_timestamp() {
    assert!(parse_pmset_timestamp("Total Sleep/Wakes since boot").is_none());
    assert!(parse_pmset_timestamp("").is_none());
}

#[test]
fn ioreg_parsing() {
    let raw = r#"
  | {
      "CycleCount" = 201
      "DesignCapacity" = 8694
      "NominalChargeCapacity" = 8050
      "Temperature" = 3042
    }
"#;
    assert_eq!(ioreg_int(raw, "CycleCount"), Some(201));
    let h = BatteryHealth {
        cycle_count: Some(201),
        design_capacity_mah: Some(8694),
        nominal_capacity_mah: Some(8050),
        temperature_centi: Some(3042),
    };
    let (part, whole) = h.capacity_of_design().unwrap();
    let pct = part as f64 / whole as f64 * 100.0;
    assert!((pct - 92.59).abs() < 0.1);

    let read = MacProbe.battery_health(Some(raw)).unwrap();
    assert_eq!(read.cycle_count, Some(201));
    assert_eq!(read.design_capacity_mah, Some(8694));
    assert_eq!(read.nominal_capacity_mah, Some(8050));
    assert_eq!(read.temperature_centi, Some(3042));
    assert_eq!(ioreg_int(raw, "Voltage"), None);
}

#[test]
fn power_is_read_from_pmset() {
    let raw = "Now drawing from 'AC Power'\n -InternalBattery-0 (id=1)\t87%; charged; 0:00 remaining present: true\n";
    let p = MacProbe.power(Some(raw)).unwrap();
    assert!(p.on_ac);
    assert_eq!(p.charge, Some("87".to_string()));
    let raw = "Now drawing from 'Battery Power'\n";
    let p = MacProbe.power(Some(raw)).unwrap();
    assert!(!p.on_ac && p.charge.is_none());
    assert!(MacProbe.power(None).is_none());
}

#[test]
fn boots_are_read_from_sysctl() {
    let b = MacProbe.boot_time(Some("{ sec = 1749459600, usec = 12 } Mon Jun  9 09:00:00 2025"));
    assert_eq!(b, Some(Timestamp { secs: 1749459600, nanos: 0 }));
    assert_eq!(MacProbe.boot_time(Some("nothing")), None);
}

#[test]
fn sleeps_are_read_from_the_log() {
    let raw = "2026-06-09 01:23:45 -0700 Sleep  Entering Sleep state due to 'Idle'\n2026-06-09 02:00:00 -0700 Wake  Wake from\n";
    assert_eq!(MacProbe.sleep_events(Some(raw)), vec![t("2026-06-09T08:23:45Z")]);
    assert_eq!(MacProbe.sleep_events(None), vec![]);
}

#[test]
fn memory_and_jumps() {
    assert_eq!(MacProbe.mac_total_memory_mb(Some("17179869184\n")), Some(16384));
    assert_eq!(MacProbe.mac_total_memory_mb(Some("lots")), None);
    assert!(!is_wall_clock_jump(30, 30));
    assert!(is_wall_clock_jump(30, 30000));
    assert!(!is_wall_clock_jump(30, 95));
    assert!(is_wall_clock_jump(30, 96));
}
