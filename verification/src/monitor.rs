//! Monitoring state machine: interprets each telemetry snapshot against the
//! configured thresholds, tracks the utility-failure hold and its shutdown
//! countdown, and decides which alerts to raise and when to shut down.
//!
//! The machine is a pure decision step: the surrounding loop refreshes the
//! snapshot, runs one cycle, dispatches the alerts, performs the shutdown
//! when told to, and sleeps for the returned poll delay.

use vstd::prelude::*;

use crate::status::UPSStatus;

verus! {

/// Configuration of the monitoring loop. Time spans are in seconds, except
/// the device shutdown delay and restart delay, which the wire format keeps
/// in tenths of a minute and whole minutes.
#[derive(Clone, Copy, Debug, PartialEq, Eq, Structural)]
pub struct UpsSettings {
    /// Seconds between polls while the utility is present.
    pub poll_delay: u64,
    /// Seconds between polls while the utility has failed.
    pub utility_failed_poll_delay: u64,
    /// Seconds to pause before the manual retry after a communication
    /// failure.
    pub communication_failed_poll_delay: u64,
    /// Countdown, in seconds, from utility failure to forced shutdown.
    pub seconds_to_shutdown: i32,
    /// Remaining-capacity percentage under which the battery counts as low.
    pub battery_low_threshold: u8,
    /// Tenths of a minute the device waits before cutting power.
    pub minutes_to_shutdown_tenths: u32,
    /// Minutes after shutdown before the device restarts; zero disables.
    pub minutes_to_restart: u32,
}

impl UpsSettings {
    /// The built-in defaults, used where no configuration overrides them.
    pub open spec fn recommended() -> UpsSettings {
        UpsSettings {
            poll_delay: 10,
            utility_failed_poll_delay: 1,
            communication_failed_poll_delay: 2,
            seconds_to_shutdown: 30,
            battery_low_threshold: 50,
            minutes_to_shutdown_tenths: 20,
            minutes_to_restart: 0,
        }
    }
}

impl Default for UpsSettings {
    /// The built-in default configuration.
    fn default() -> (s: UpsSettings)
        ensures
            s == UpsSettings::recommended(),
    {
        UpsSettings {
            poll_delay: 10,
            utility_failed_poll_delay: 1,
            communication_failed_poll_delay: 2,
            seconds_to_shutdown: 30,
            battery_low_threshold: 50,
            minutes_to_shutdown_tenths: 20,
            minutes_to_restart: 0,
        }
    }
}

/// Mutable state the monitor carries between cycles: whether the
/// utility-failure alert has been sent for the current outage, and the
/// remaining seconds of the countdown to forced shutdown.
#[derive(Clone, Copy, Debug, PartialEq, Eq, Structural)]
pub struct MonitorState {
    pub sent_utility_failed: bool,
    pub seconds_until_shutdown: i64,
}

impl MonitorState {
    /// The state the monitor starts in: no outage alert sent, countdown full.
    pub fn new(settings: &UpsSettings) -> (st: MonitorState)
        ensures
            !st.sent_utility_failed,
            st.seconds_until_shutdown == settings.seconds_to_shutdown as i64,
    {
        MonitorState {
            sent_utility_failed: false,
            seconds_until_shutdown: settings.seconds_to_shutdown as i64,
        }
    }
}

/// One alert the monitor can raise; each carries its own subject when
/// dispatched.
#[derive(Clone, Copy, Debug, PartialEq, Eq, Structural)]
pub enum Alert {
    /// A status refresh failed; a manual reconnect and retry follows.
    CommunicationFailedRetrying,
    /// The manual retry failed as well; the host shuts down.
    CommunicationFailedShutdown,
    /// The manual retry succeeded; monitoring goes on.
    CommunicationRestored,
    /// The utility has just failed; sent once per outage.
    UtilityFailed,
    /// The countdown ran out while the utility stayed failed.
    UtilityFailedShutdown,
    /// The utility came back; sent once per outage.
    UtilityRestored,
    /// The device reports a fault.
    FaultShutdown,
    /// The device reports an overload.
    OverloadedShutdown,
    /// The device asks for a battery replacement.
    ReplaceBatteryShutdown,
    /// Remaining capacity is low but the battery is charging.
    BatteryLow,
    /// Remaining capacity is low and the battery is not charging.
    BatteryLowShutdown,
}

/// What one poll cycle decided: the alerts to dispatch in order, the seconds
/// to sleep before the next cycle, and whether to shut the host down now.
pub struct CycleOutput {
    pub alerts: Vec<Alert>,
    pub poll_delay: u64,
    pub shutdown: bool,
}

/// The countdown after one cycle spent in utility failure: while positive it
/// sinks by the poll delay; once at or below zero it stays.
pub open spec fn next_countdown(cd: int, delay: int) -> int {
    if cd > 0 {
        cd - (if delay > i64::MAX as int {
            i64::MAX as int
        } else {
            delay
        })
    } else {
        cd
    }
}

/// True when this cycle's countdown decides the forced shutdown.
pub open spec fn utility_shutdown_spec(st: MonitorState, status: UPSStatus, cfg: UpsSettings) -> bool {
    &&& status.utility_failed
    &&& next_countdown(
        st.seconds_until_shutdown as int,
        cfg.utility_failed_poll_delay as int,
    ) <= 0
}

/// True when the remaining capacity is under the configured threshold.
pub open spec fn battery_low_spec(status: UPSStatus, cfg: UpsSettings) -> bool {
    (status.remaining_capacity as int) < cfg.battery_low_threshold as int
}

/// The alerts of the checks that run after the utility-failure block, in
/// their fixed order; the first shutdown trigger ends the cycle, so at most
/// one fires.
pub open spec fn post_utility_alerts(status: UPSStatus, cfg: UpsSettings) -> Seq<Alert> {
    if status.fault {
        seq![Alert::FaultShutdown]
    } else if status.overloaded {
        seq![Alert::OverloadedShutdown]
    } else if status.replace_battery {
        seq![Alert::ReplaceBatteryShutdown]
    } else if battery_low_spec(status, cfg) && status.charging {
        seq![Alert::BatteryLow]
    } else if battery_low_spec(status, cfg) {
        seq![Alert::BatteryLowShutdown]
    } else {
        Seq::empty()
    }
}

/// The alerts one cycle raises, in dispatch order.
pub open spec fn cycle_alerts_spec(st: MonitorState, status: UPSStatus, cfg: UpsSettings) -> Seq<
    Alert,
> {
    if status.utility_failed {
        let entry: Seq<Alert> = if !st.sent_utility_failed {
            seq![Alert::UtilityFailed]
        } else {
            Seq::empty()
        };
        if utility_shutdown_spec(st, status, cfg) {
            entry.push(Alert::UtilityFailedShutdown)
        } else {
            entry + post_utility_alerts(status, cfg)
        }
    } else {
        let restored: Seq<Alert> = if st.sent_utility_failed {
            seq![Alert::UtilityRestored]
        } else {
            Seq::empty()
        };
        restored + post_utility_alerts(status, cfg)
    }
}

/// Whether one cycle decides to shut the host down: the countdown ran out
/// during an outage, the device reports a fault, an overload or a worn
/// battery, or the battery is low and not charging.
pub open spec fn cycle_shutdown_spec(st: MonitorState, status: UPSStatus, cfg: UpsSettings) -> bool {
    ||| utility_shutdown_spec(st, status, cfg)
    ||| status.fault
    ||| status.overloaded
    ||| status.replace_battery
    ||| (battery_low_spec(status, cfg) && !status.charging)
}

/// The monitor state after one cycle.
pub open spec fn next_state_spec(st: MonitorState, status: UPSStatus, cfg: UpsSettings) -> MonitorState {
    if status.utility_failed {
        MonitorState {
            sent_utility_failed: true,
            seconds_until_shutdown: next_countdown(
                st.seconds_until_shutdown as int,
                cfg.utility_failed_poll_delay as int,
            ) as i64,
        }
    } else {
        MonitorState {
            sent_utility_failed: false,
            seconds_until_shutdown: cfg.seconds_to_shutdown as i64,
        }
    }
}

/// Seconds to sleep before the next cycle: the short delay during an outage,
/// the base delay otherwise.
pub open spec fn cycle_delay_spec(status: UPSStatus, cfg: UpsSettings) -> u64 {
    if status.utility_failed {
        cfg.utility_failed_poll_delay
    } else {
        cfg.poll_delay
    }
}

/// Run one poll cycle over a freshly decoded snapshot.
///
/// During an outage the countdown sinks by the outage poll delay, the entry
/// alert is raised once per outage, and the countdown running out forces the
/// shutdown. Out of an outage the countdown and the entry alert are re-armed,
/// with a restore alert once per outage. Whatever the utility state, a
/// reported fault, overload or worn battery forces the shutdown at once, and
/// a low battery raises an advisory while charging but forces the shutdown
/// when not charging.
pub fn poll_cycle(state: &mut MonitorState, status: &UPSStatus, settings: &UpsSettings) -> (out:
    CycleOutput)
    ensures
        *final(state) == next_state_spec(*old(state), *status, *settings),
        out.alerts@ == cycle_alerts_spec(*old(state), *status, *settings),
        out.shutdown == cycle_shutdown_spec(*old(state), *status, *settings),
        out.poll_delay == cycle_delay_spec(*status, *settings),
        battery_low_spec(*status, *settings) && !status.charging ==> out.shutdown,
        battery_low_spec(*status, *settings) && status.charging && !status.fault
            && !status.overloaded && !status.replace_battery && !utility_shutdown_spec(
            *old(state),
            *status,
            *settings,
        ) ==> !out.shutdown && out.alerts@.contains(Alert::BatteryLow),
{
    let mut alerts: Vec<Alert> = Vec::new();
    let poll_delay: u64;
    if status.utility_failed {
        poll_delay = settings.utility_failed_poll_delay;
        let d: i64 = if settings.utility_failed_poll_delay > i64::MAX as u64 {
            i64::MAX
        } else {
            settings.utility_failed_poll_delay as i64
        };
        if state.seconds_until_shutdown > 0 {
            state.seconds_until_shutdown = state.seconds_until_shutdown - d;
        }
        if !state.sent_utility_failed {
            alerts.push(Alert::UtilityFailed);
        }
        state.sent_utility_failed = true;
        if state.seconds_until_shutdown <= 0 {
            alerts.push(Alert::UtilityFailedShutdown);
            proof {
                assert(alerts@ =~= cycle_alerts_spec(*old(state), *status, *settings));
            }
            return CycleOutput { alerts, poll_delay, shutdown: true };
        }
    } else {
        poll_delay = settings.poll_delay;
        state.seconds_until_shutdown = settings.seconds_to_shutdown as i64;
        if state.sent_utility_failed {
            alerts.push(Alert::UtilityRestored);
        }
        state.sent_utility_failed = false;
    }
    if status.fault {
        alerts.push(Alert::FaultShutdown);
        proof {
            assert(alerts@ =~= cycle_alerts_spec(*old(state), *status, *settings));
        }
        return CycleOutput { alerts, poll_delay, shutdown: true };
    }
    if status.overloaded {
        alerts.push(Alert::OverloadedShutdown);
        proof {
            assert(alerts@ =~= cycle_alerts_spec(*old(state), *status, *settings));
        }
        return CycleOutput { alerts, poll_delay, shutdown: true };
    }
    if status.replace_battery {
        alerts.push(Alert::ReplaceBatteryShutdown);
        proof {
            assert(alerts@ =~= cycle_alerts_spec(*old(state), *status, *settings));
        }
        return CycleOutput { alerts, poll_delay, shutdown: true };
    }
    if status.remaining_capacity < settings.battery_low_threshold {
        if status.charging {
            alerts.push(Alert::BatteryLow);
            proof {
                assert(alerts@ =~= cycle_alerts_spec(*old(state), *status, *settings));
                assert(alerts@[alerts@.len() - 1] == Alert::BatteryLow);
            }
            return CycleOutput { alerts, poll_delay, shutdown: false };
        } else {
            alerts.push(Alert::BatteryLowShutdown);
            proof {
                assert(alerts@ =~= cycle_alerts_spec(*old(state), *status, *settings));
            }
            return CycleOutput { alerts, poll_delay, shutdown: true };
        }
    }
    proof {
        assert(alerts@ =~= cycle_alerts_spec(*old(state), *status, *settings));
    }
    CycleOutput { alerts, poll_delay, shutdown: false }
}

/// Decide the end of a communication-failure cycle: after a refresh failed,
/// an alert goes out, the device is reconnected and the refresh is retried
/// once. A failed retry escalates to shutdown; a successful one raises the
/// restore alert and monitoring goes on.
pub fn comm_failure_decision(retry_succeeded: bool) -> (out: (Alert, bool))
    ensures
        out.0 == if retry_succeeded {
            Alert::CommunicationRestored
        } else {
            Alert::CommunicationFailedShutdown
        },
        out.1 == !retry_succeeded,
{
    if retry_succeeded {
        (Alert::CommunicationRestored, false)
    } else {
        (Alert::CommunicationFailedShutdown, true)
    }
}

/// Utility-failure entry alerts raised over a run of consecutive cycles, the
/// run ending at the first cycle that decides the shutdown.
pub open spec fn utility_entry_alert_count(
    st: MonitorState,
    statuses: Seq<UPSStatus>,
    cfg: UpsSettings,
) -> nat
    decreases statuses.len(),
{
    if statuses.len() == 0 {
        0
    } else {
        let here: nat = if cycle_alerts_spec(st, statuses[0], cfg).contains(Alert::UtilityFailed) {
            1
        } else {
            0
        };
        if cycle_shutdown_spec(st, statuses[0], cfg) {
            here
        } else {
            here + utility_entry_alert_count(
                next_state_spec(st, statuses[0], cfg),
                statuses.skip(1),
                cfg,
            )
        }
    }
}

/// Once the entry alert for the current outage is out, no further cycle of
/// the same outage raises it again.
pub proof fn lemma_utility_failed_not_renotified(
    st: MonitorState,
    statuses: Seq<UPSStatus>,
    cfg: UpsSettings,
)
    requires
        st.sent_utility_failed,
        forall|i: int| 0 <= i < statuses.len() ==> (#[trigger] statuses[i]).utility_failed,
    ensures
        utility_entry_alert_count(st, statuses, cfg) == 0,
    decreases statuses.len(),
{
    if statuses.len() > 0 {
        let a = cycle_alerts_spec(st, statuses[0], cfg);
        assert(!a.contains(Alert::UtilityFailed)) by {
            assert forall|i: int| 0 <= i < a.len() implies a[i] != Alert::UtilityFailed by {}
        }
        if !cycle_shutdown_spec(st, statuses[0], cfg) {
            let st2 = next_state_spec(st, statuses[0], cfg);
            assert forall|i: int|
                0 <= i < statuses.skip(1).len() implies (#[trigger] statuses.skip(
                1,
            )[i]).utility_failed by {
                assert(statuses.skip(1)[i] == statuses[i + 1]);
            }
            lemma_utility_failed_not_renotified(st2, statuses.skip(1), cfg);
        }
    }
}

/// Entering utility failure raises the entry alert exactly once across any
/// number of consecutive cycles in which the flag stays set.
pub proof fn lemma_utility_failed_notified_once(
    st: MonitorState,
    statuses: Seq<UPSStatus>,
    cfg: UpsSettings,
)
    requires
        !st.sent_utility_failed,
        statuses.len() > 0,
        forall|i: int| 0 <= i < statuses.len() ==> (#[trigger] statuses[i]).utility_failed,
    ensures
        utility_entry_alert_count(st, statuses, cfg) == 1,
{
    let a = cycle_alerts_spec(st, statuses[0], cfg);
    assert(a.contains(Alert::UtilityFailed)) by {
        assert(a[0] == Alert::UtilityFailed);
    }
    if !cycle_shutdown_spec(st, statuses[0], cfg) {
        let st2 = next_state_spec(st, statuses[0], cfg);
        assert forall|i: int|
            0 <= i < statuses.skip(1).len() implies (#[trigger] statuses.skip(
            1,
        )[i]).utility_failed by {
            assert(statuses.skip(1)[i] == statuses[i + 1]);
        }
        lemma_utility_failed_not_renotified(st2, statuses.skip(1), cfg);
    }
}

/// Cycles of a run that decide the shutdown; the run ends at the first, so
/// the count is at most one.
pub open spec fn shutdown_cycle_count(
    st: MonitorState,
    statuses: Seq<UPSStatus>,
    cfg: UpsSettings,
) -> nat
    decreases statuses.len(),
{
    if statuses.len() == 0 {
        0
    } else if cycle_shutdown_spec(st, statuses[0], cfg) {
        1
    } else {
        shutdown_cycle_count(next_state_spec(st, statuses[0], cfg), statuses.skip(1), cfg)
    }
}

/// While the utility stays failed and the outage poll delay is at least one
/// second, the countdown runs out within as many cycles as it holds seconds,
/// and exactly one cycle — the first whose countdown is spent — decides the
/// shutdown.
pub proof fn lemma_countdown_reaches_shutdown(
    st: MonitorState,
    statuses: Seq<UPSStatus>,
    cfg: UpsSettings,
)
    requires
        cfg.utility_failed_poll_delay >= 1,
        statuses.len() > 0,
        statuses.len() as int >= st.seconds_until_shutdown as int,
        forall|i: int| 0 <= i < statuses.len() ==> (#[trigger] statuses[i]).utility_failed,
    ensures
        shutdown_cycle_count(st, statuses, cfg) == 1,
    decreases statuses.len(),
{
    if !cycle_shutdown_spec(st, statuses[0], cfg) {
        let cd = st.seconds_until_shutdown as int;
        let cd2 = next_countdown(cd, cfg.utility_failed_poll_delay as int);
        assert(cd2 > 0);
        assert(cd > 0);
        assert(cd2 <= cd - 1);
        let st2 = next_state_spec(st, statuses[0], cfg);
        assert(statuses.len() >= 2);
        assert forall|i: int|
            0 <= i < statuses.skip(1).len() implies (#[trigger] statuses.skip(
            1,
        )[i]).utility_failed by {
            assert(statuses.skip(1)[i] == statuses[i + 1]);
        }
        lemma_countdown_reaches_shutdown(st2, statuses.skip(1), cfg);
    }
}

} // verus!
