use hades::app_spec::{OnBattery, Priority};
use hades::events::{HostEvent, PauseReason, PressureLevel};
use hades::policy::{decide, is_crash_loop, is_crash_loop_at, Action, AppView};
use hades::time::Timestamp;
use hades::types::AppState;

fn app(name: &str, prio: Priority, state: AppState) -> AppView {
    AppView {
        name: name.into(),
        priority: prio,
        state,
        paused_reason: None,
        on_battery: OnBattery::Run,
    }
}

fn sleepy(state: AppState, reason: Option<PauseReason>) -> AppView {
    let mut a = app("sleepy", Priority::Normal, state);
    a.on_battery = OnBattery::Pause;
    a.paused_reason = reason;
    a
}

#[test]
fn critical_pressure_sheds_by_priority_never_critical() {
    let apps = vec![
        app("api", Priority::Critical, AppState::Running),
        app("worker", Priority::Normal, AppState::Running),
        app("batch", Priority::Low, AppState::Running),
    ];
    let actions = decide(
        &HostEvent::MemoryPressure { level: PressureLevel::Critical, available_mb: 100 },
        &apps,
    );
    assert_eq!(
        actions,
        vec![
            Action::Pause { app: "batch".into(), reason: PauseReason::MemoryPressure },
            Action::Pause { app: "worker".into(), reason: PauseReason::MemoryPressure },
        ]
    );
}

#[test]
fn pressure_clear_resumes_only_pressure_paused() {
    let mut a = app("batch", Priority::Low, AppState::Paused);
    a.paused_reason = Some(PauseReason::MemoryPressure);
    let mut b = app("manual", Priority::Low, AppState::Paused);
    b.paused_reason = Some(PauseReason::Manual);
    let actions = decide(
        &HostEvent::MemoryPressure { level: PressureLevel::Normal, available_mb: 4096 },
        &vec![a, b],
    );
    assert_eq!(actions, vec![Action::Resume { app: "batch".into() }]);
}

#[test]
fn battery_policy_is_opt_in_and_symmetric() {
    let stay = || app("stay", Priority::Normal, AppState::Running);

    let on_batt = decide(&HostEvent::OnBattery, &vec![sleepy(AppState::Running, None), stay()]);
    assert_eq!(
        on_batt,
        vec![Action::Pause { app: "sleepy".into(), reason: PauseReason::OnBattery }]
    );

    let paused = sleepy(AppState::Paused, Some(PauseReason::OnBattery));
    let on_ac = decide(&HostEvent::OnAc, &vec![paused, stay()]);
    assert_eq!(on_ac, vec![Action::Resume { app: "sleepy".into() }]);
}

#[test]
fn crash_loop_detection_windows() {
    let now = chrono::Utc::now();
    let at = |secs: i64| Timestamp {
        secs: now.timestamp() - secs,
        nanos: now.timestamp_subsec_nanos(),
    };
    let recent: Vec<_> = (0..3).map(|i| at(i * 60)).collect();
    assert!(is_crash_loop(&recent));
    let stale: Vec<_> = (0..3).map(|i| at(3600 + i * 60)).collect();
    assert!(!is_crash_loop(&stale));
}

#[test]
fn crash_loops_at_the_edge_of_the_window() {
    let now = Timestamp { secs: 10_000, nanos: 0 };
    let at = |secs: i64| Timestamp { secs: 10_000 - secs, nanos: 0 };
    assert!(is_crash_loop_at(&vec![at(0), at(300), at(600)], now));
    assert!(!is_crash_loop_at(&vec![at(0), at(300), at(601)], now));
    assert!(!is_crash_loop_at(&vec![at(0), at(1)], now));
    // 00:00:60 is 601 seconds before 00:11:00
    let leap = Timestamp { secs: 59, nanos: 1_000_000_000 };
    assert!(!is_crash_loop_at(&vec![leap, leap, leap], Timestamp { secs: 660, nanos: 0 }));
    assert!(is_crash_loop_at(&vec![leap, leap, leap], Timestamp { secs: 659, nanos: 0 }));
}

#[test]
fn other_events_change_nothing() {
    let apps = || vec![app("a", Priority::Low, AppState::Running)];
    assert_eq!(decide(&HostEvent::DaemonStarted { unclean_shutdown: true }, &apps()), vec![]);
    let e = HostEvent::MemoryPressure { level: PressureLevel::Normal, available_mb: 1 };
    assert_eq!(decide(&e, &apps()), vec![]);
}
