//! The telemetry snapshot: the single record of the device's last-known
//! state, and the enumerated codes it carries.

use vstd::prelude::*;

use crate::parse::Decimal;

verus! {

/// Result of the device's last self-test. An unrecognized wire code decodes
/// to `NoTest`, never to an error: the protocol reserves undefined codes for
/// states this driver does not distinguish.
#[derive(Clone, Copy, Debug, PartialEq, Eq, Structural)]
pub enum UPSTestResults {
    NoTest,
    Passed,
    Warning,
    Error,
    Aborted,
    InProgress,
}

/// Operating mode of the device. An unrecognized wire code decodes to
/// `Idle`.
#[derive(Clone, Copy, Debug, PartialEq, Eq, Structural)]
pub enum UPSModes {
    Idle,
    Standby,
    Line,
    Inverting,
    SelfTest,
    Fault,
}

/// Last-known state of the device. Voltages, currents and frequencies are
/// the decimal numbers the device sent, kept exactly as digit runs with a
/// fraction length (see [`Decimal`]). Created once at startup with all-zero
/// defaults; overwritten by the status decoders on each successful query.
#[derive(Clone, Copy, Debug, PartialEq, Eq, Structural)]
pub struct UPSStatus {
    pub input_voltage: Decimal,
    pub input_frequency: Decimal,
    pub input_fault_voltage: Decimal,
    pub output_voltage: Decimal,
    pub output_current: Decimal,
    pub output_frequency: Decimal,
    pub output_load: u8,
    pub rated_output_voltage: Decimal,
    pub rated_output_current: i32,
    pub rated_output_frequency: Decimal,
    pub battery_voltage: Decimal,
    pub remaining_capacity: u8,
    pub seconds_to_empty: i32,
    pub rated_battery_voltage: Decimal,
    pub utility_failed: bool,
    pub charging: bool,
    pub shutdown_active: bool,
    pub fault: bool,
    pub overloaded: bool,
    pub replace_battery: bool,
    pub test_result: UPSTestResults,
    pub ups_mode: UPSModes,
}

/// The zero decimal.
pub open spec fn zero_decimal() -> Decimal {
    Decimal { mantissa: 0, scale: 0 }
}

impl UPSStatus {
    /// Well-formedness of a snapshot: remaining capacity is a percentage and
    /// the seconds-to-empty estimate is non-negative.
    pub open spec fn wf(self) -> bool {
        &&& self.remaining_capacity <= 100
        &&& self.seconds_to_empty >= 0
    }

    /// The all-zero snapshot a monitor starts from.
    pub open spec fn initial() -> UPSStatus {
        UPSStatus {
            input_voltage: zero_decimal(),
            input_frequency: zero_decimal(),
            input_fault_voltage: zero_decimal(),
            output_voltage: zero_decimal(),
            output_current: zero_decimal(),
            output_frequency: zero_decimal(),
            output_load: 0,
            rated_output_voltage: zero_decimal(),
            rated_output_current: 0,
            rated_output_frequency: zero_decimal(),
            battery_voltage: zero_decimal(),
            remaining_capacity: 0,
            seconds_to_empty: 0,
            rated_battery_voltage: zero_decimal(),
            utility_failed: false,
            charging: false,
            shutdown_active: false,
            fault: false,
            overloaded: false,
            replace_battery: false,
            test_result: UPSTestResults::NoTest,
            ups_mode: UPSModes::Idle,
        }
    }

    /// Make the snapshot a monitor starts from: all-zero values, no flags
    /// set, no test result, idle mode.
    pub fn new() -> (s: UPSStatus)
        ensures
            s == UPSStatus::initial(),
            s.wf(),
    {
        UPSStatus {
            input_voltage: Decimal { mantissa: 0, scale: 0 },
            input_frequency: Decimal { mantissa: 0, scale: 0 },
            input_fault_voltage: Decimal { mantissa: 0, scale: 0 },
            output_voltage: Decimal { mantissa: 0, scale: 0 },
            output_current: Decimal { mantissa: 0, scale: 0 },
            output_frequency: Decimal { mantissa: 0, scale: 0 },
            output_load: 0,
            rated_output_voltage: Decimal { mantissa: 0, scale: 0 },
            rated_output_current: 0,
            rated_output_frequency: Decimal { mantissa: 0, scale: 0 },
            battery_voltage: Decimal { mantissa: 0, scale: 0 },
            remaining_capacity: 0,
            seconds_to_empty: 0,
            rated_battery_voltage: Decimal { mantissa: 0, scale: 0 },
            utility_failed: false,
            charging: false,
            shutdown_active: false,
            fault: false,
            overloaded: false,
            replace_battery: false,
            test_result: UPSTestResults::NoTest,
            ups_mode: UPSModes::Idle,
        }
    }
}

/// The total mapping from a test-result wire code to its variant: `1` to `5`
/// name the defined results, every other byte falls back to `NoTest`.
pub open spec fn test_result_of_code(c: u8) -> UPSTestResults {
    if c == 49 {
        UPSTestResults::Passed
    } else if c == 50 {
        UPSTestResults::Warning
    } else if c == 51 {
        UPSTestResults::Error
    } else if c == 52 {
        UPSTestResults::Aborted
    } else if c == 53 {
        UPSTestResults::InProgress
    } else {
        UPSTestResults::NoTest
    }
}

/// Decode a test-result wire code.
pub fn test_result_from_code(c: u8) -> (t: UPSTestResults)
    ensures
        t == test_result_of_code(c),
{
    if c == 49 {
        UPSTestResults::Passed
    } else if c == 50 {
        UPSTestResults::Warning
    } else if c == 51 {
        UPSTestResults::Error
    } else if c == 52 {
        UPSTestResults::Aborted
    } else if c == 53 {
        UPSTestResults::InProgress
    } else {
        UPSTestResults::NoTest
    }
}

/// The total mapping from an operating-mode wire code to its variant: `1` to
/// `5` name the defined modes, every other byte falls back to `Idle`.
pub open spec fn mode_of_code(c: u8) -> UPSModes {
    if c == 49 {
        UPSModes::Standby
    } else if c == 50 {
        UPSModes::Line
    } else if c == 51 {
        UPSModes::Inverting
    } else if c == 52 {
        UPSModes::SelfTest
    } else if c == 53 {
        UPSModes::Fault
    } else {
        UPSModes::Idle
    }
}

/// Decode an operating-mode wire code.
pub fn mode_from_code(c: u8) -> (m: UPSModes)
    ensures
        m == mode_of_code(c),
{
    if c == 49 {
        UPSModes::Standby
    } else if c == 50 {
        UPSModes::Line
    } else if c == 51 {
        UPSModes::Inverting
    } else if c == 52 {
        UPSModes::SelfTest
    } else if c == 53 {
        UPSModes::Fault
    } else {
        UPSModes::Idle
    }
}

} // verus!
