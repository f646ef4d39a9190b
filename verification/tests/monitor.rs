use ups_monitor::monitor::{comm_failure_decision, poll_cycle, Alert, MonitorState, UpsSettings};
use ups_monitor::status::UPSStatus;

fn settings() -> UpsSettings {
    UpsSettings::default()
}

fn healthy() -> UPSStatus {
    let mut s = UPSStatus::new();
    s.remaining_capacity = 100;
    s
}

#[test]
fn default_settings_match_the_built_in_constants() {
    let cfg = settings();
    assert_eq!(cfg.poll_delay, 10);
    assert_eq!(cfg.utility_failed_poll_delay, 1);
    assert_eq!(cfg.communication_failed_poll_delay, 2);
    assert_eq!(cfg.seconds_to_shutdown, 30);
    assert_eq!(cfg.battery_low_threshold, 50);
    assert_eq!(cfg.minutes_to_shutdown_tenths, 20);
    assert_eq!(cfg.minutes_to_restart, 0);
}

#[test]
fn quiet_cycle_raises_nothing_and_uses_base_delay() {
    let cfg = settings();
    let mut st = MonitorState::new(&cfg);
    let out = poll_cycle(&mut st, &healthy(), &cfg);
    assert!(out.alerts.is_empty());
    assert!(!out.shutdown);
    assert_eq!(out.poll_delay, 10);
    assert_eq!(st.seconds_until_shutdown, 30);
}

#[test]
fn utility_failure_notifies_once_until_the_flag_clears() {
    let cfg = settings();
    let mut st = MonitorState::new(&cfg);
    let mut failed = healthy();
    failed.utility_failed = true;

    let first = poll_cycle(&mut st, &failed, &cfg);
    assert_eq!(first.alerts, vec![Alert::UtilityFailed]);
    assert!(!first.shutdown);
    assert_eq!(first.poll_delay, 1);

    // many consecutive failed cycles: no further entry alert
    for _ in 0..20 {
        let out = poll_cycle(&mut st, &failed, &cfg);
        assert!(!out.alerts.contains(&Alert::UtilityFailed));
        assert!(!out.shutdown);
    }

    // the flag clears: one restore alert, countdown re-armed
    let restored = poll_cycle(&mut st, &healthy(), &cfg);
    assert_eq!(restored.alerts, vec![Alert::UtilityRestored]);
    assert_eq!(st.seconds_until_shutdown, 30);

    // a new outage notifies again
    let again = poll_cycle(&mut st, &failed, &cfg);
    assert_eq!(again.alerts, vec![Alert::UtilityFailed]);
}

#[test]
fn countdown_running_out_shuts_down_exactly_once() {
    let cfg = settings();
    let mut st = MonitorState::new(&cfg);
    let mut failed = healthy();
    failed.utility_failed = true;

    let mut shutdowns = 0;
    let mut cycles = 0;
    for _ in 0..30 {
        cycles += 1;
        let out = poll_cycle(&mut st, &failed, &cfg);
        if out.shutdown {
            shutdowns += 1;
            assert_eq!(*out.alerts.last().unwrap(), Alert::UtilityFailedShutdown);
            break;
        }
    }
    assert_eq!(shutdowns, 1);
    // 30 seconds of countdown at one-second cycles
    assert_eq!(cycles, 30);
}

#[test]
fn fault_overload_and_worn_battery_shut_down_at_once() {
    let cfg = settings();
    for (set, alert) in [
        (0, Alert::FaultShutdown),
        (1, Alert::OverloadedShutdown),
        (2, Alert::ReplaceBatteryShutdown),
    ] {
        let mut st = MonitorState::new(&cfg);
        let mut status = healthy();
        match set {
            0 => status.fault = true,
            1 => status.overloaded = true,
            _ => status.replace_battery = true,
        }
        let out = poll_cycle(&mut st, &status, &cfg);
        assert_eq!(out.alerts, vec![alert]);
        assert!(out.shutdown);
    }
}

#[test]
fn low_battery_while_charging_is_advisory_only() {
    let cfg = settings();
    let mut st = MonitorState::new(&cfg);
    let mut status = healthy();
    status.remaining_capacity = 30;
    status.charging = true;
    let out = poll_cycle(&mut st, &status, &cfg);
    assert_eq!(out.alerts, vec![Alert::BatteryLow]);
    assert!(!out.shutdown);
}

#[test]
fn low_battery_not_charging_shuts_down() {
    let cfg = settings();
    let mut st = MonitorState::new(&cfg);
    let mut status = healthy();
    status.remaining_capacity = 30;
    status.charging = false;
    let out = poll_cycle(&mut st, &status, &cfg);
    assert_eq!(out.alerts, vec![Alert::BatteryLowShutdown]);
    assert!(out.shutdown);
}

#[test]
fn capacity_at_threshold_is_not_low() {
    let cfg = settings();
    let mut st = MonitorState::new(&cfg);
    let mut status = healthy();
    status.remaining_capacity = 50;
    status.charging = false;
    let out = poll_cycle(&mut st, &status, &cfg);
    assert!(out.alerts.is_empty());
    assert!(!out.shutdown);
}

#[test]
fn fault_wins_over_low_battery_in_one_cycle() {
    let cfg = settings();
    let mut st = MonitorState::new(&cfg);
    let mut status = healthy();
    status.fault = true;
    status.remaining_capacity = 10;
    let out = poll_cycle(&mut st, &status, &cfg);
    assert_eq!(out.alerts, vec![Alert::FaultShutdown]);
    assert!(out.shutdown);
}

#[test]
fn utility_entry_alert_precedes_a_fault_shutdown() {
    let cfg = settings();
    let mut st = MonitorState::new(&cfg);
    let mut status = healthy();
    status.utility_failed = true;
    status.fault = true;
    let out = poll_cycle(&mut st, &status, &cfg);
    assert_eq!(out.alerts, vec![Alert::UtilityFailed, Alert::FaultShutdown]);
    assert!(out.shutdown);
}

#[test]
fn communication_retry_outcomes() {
    assert_eq!(
        comm_failure_decision(true),
        (Alert::CommunicationRestored, false)
    );
    assert_eq!(
        comm_failure_decision(false),
        (Alert::CommunicationFailedShutdown, true)
    );
}
