use ups_monitor::decode::{decode_extended_status, decode_ratings, decode_short_status};
use ups_monitor::errors::UPSError;
use ups_monitor::parse::{parse_decimal, parse_unsigned, Decimal};
use ups_monitor::status::{
    mode_from_code, test_result_from_code, UPSModes, UPSStatus, UPSTestResults,
};

fn dec(mantissa: u64, scale: u8) -> Decimal {
    Decimal { mantissa, scale }
}

#[test]
fn parse_unsigned_accepts_digit_runs() {
    assert_eq!(parse_unsigned(&b"0".to_vec()), Ok(0));
    assert_eq!(parse_unsigned(&b"123".to_vec()), Ok(123));
    assert_eq!(parse_unsigned(&b"007".to_vec()), Ok(7));
    assert_eq!(parse_unsigned(&b"18446744073709551615".to_vec()), Ok(u64::MAX));
}

#[test]
fn parse_unsigned_rejects_non_digits_empty_and_overflow() {
    assert_eq!(parse_unsigned(&Vec::new()), Err(()));
    assert_eq!(parse_unsigned(&b"12a".to_vec()), Err(()));
    assert_eq!(parse_unsigned(&b"-5".to_vec()), Err(()));
    assert_eq!(parse_unsigned(&b"18446744073709551616".to_vec()), Err(()));
}

#[test]
fn parse_decimal_reads_mantissa_and_scale() {
    assert_eq!(parse_decimal(&b"120.0".to_vec()), Ok(dec(1200, 1)));
    assert_eq!(parse_decimal(&b"2.05".to_vec()), Ok(dec(205, 2)));
    assert_eq!(parse_decimal(&b"50".to_vec()), Ok(dec(50, 0)));
    assert_eq!(parse_decimal(&b"00.00".to_vec()), Ok(dec(0, 2)));
}

#[test]
fn parse_decimal_rejects_malformed_fields() {
    assert_eq!(parse_decimal(&Vec::new()), Err(()));
    assert_eq!(parse_decimal(&b".5".to_vec()), Err(()));
    assert_eq!(parse_decimal(&b"12.".to_vec()), Err(()));
    assert_eq!(parse_decimal(&b"1.2.3".to_vec()), Err(()));
    assert_eq!(parse_decimal(&b"1a.5".to_vec()), Err(()));
}

#[test]
fn test_result_codes_map_totally() {
    assert_eq!(test_result_from_code(b'1'), UPSTestResults::Passed);
    assert_eq!(test_result_from_code(b'2'), UPSTestResults::Warning);
    assert_eq!(test_result_from_code(b'3'), UPSTestResults::Error);
    assert_eq!(test_result_from_code(b'4'), UPSTestResults::Aborted);
    assert_eq!(test_result_from_code(b'5'), UPSTestResults::InProgress);
    assert_eq!(test_result_from_code(b'0'), UPSTestResults::NoTest);
    assert_eq!(test_result_from_code(b'Z'), UPSTestResults::NoTest);
}

#[test]
fn mode_codes_map_totally() {
    assert_eq!(mode_from_code(b'1'), UPSModes::Standby);
    assert_eq!(mode_from_code(b'2'), UPSModes::Line);
    assert_eq!(mode_from_code(b'3'), UPSModes::Inverting);
    assert_eq!(mode_from_code(b'4'), UPSModes::SelfTest);
    assert_eq!(mode_from_code(b'5'), UPSModes::Fault);
    assert_eq!(mode_from_code(b'9'), UPSModes::Idle);
    assert_eq!(mode_from_code(b' '), UPSModes::Idle);
}

#[test]
fn ratings_populate_the_rated_fields() {
    let fields = vec![
        b"220.0".to_vec(),
        b"003".to_vec(),
        b"12.00".to_vec(),
        b"50.0".to_vec(),
    ];
    let mut status = UPSStatus::new();
    assert_eq!(decode_ratings(&fields, &mut status), Ok(()));
    assert_eq!(status.rated_output_voltage, dec(2200, 1));
    assert_eq!(status.rated_output_current, 3);
    assert_eq!(status.rated_battery_voltage, dec(1200, 2));
    assert_eq!(status.rated_output_frequency, dec(500, 1));
}

#[test]
fn ratings_error_leaves_snapshot_unchanged() {
    let fields = vec![
        b"220.0".to_vec(),
        b"x3".to_vec(),
        b"12.00".to_vec(),
        b"50.0".to_vec(),
    ];
    let mut status = UPSStatus::new();
    assert_eq!(decode_ratings(&fields, &mut status), Err(UPSError::ParseInt));
    assert_eq!(status, UPSStatus::new());
}

#[test]
fn ratings_bad_decimal_is_parse_float() {
    let fields = vec![
        b"22a.0".to_vec(),
        b"003".to_vec(),
        b"12.00".to_vec(),
        b"50.0".to_vec(),
    ];
    let mut status = UPSStatus::new();
    assert_eq!(decode_ratings(&fields, &mut status), Err(UPSError::ParseFloat));
}

fn short_fields() -> Vec<Vec<u8>> {
    vec![
        b"120.0".to_vec(),
        b"0.0".to_vec(),
        b"120.0".to_vec(),
        b"50".to_vec(),
        b"60.0".to_vec(),
        b"12.0".to_vec(),
        b"0".to_vec(),
        b"10000001".to_vec(),
    ]
}

#[test]
fn short_status_reads_flags_at_fixed_offsets() {
    let mut status = UPSStatus::new();
    assert_eq!(decode_short_status(&short_fields(), &mut status), Ok(()));
    // offset 0 of the flag string is '1', offset 6 is '0'
    assert!(status.utility_failed);
    assert!(!status.shutdown_active);
    assert_eq!(status.input_voltage, dec(1200, 1));
    assert_eq!(status.input_fault_voltage, dec(0, 1));
    assert_eq!(status.output_voltage, dec(1200, 1));
    assert_eq!(status.output_load, 50);
    assert_eq!(status.output_frequency, dec(600, 1));
    assert_eq!(status.battery_voltage, dec(120, 1));
}

#[test]
fn short_status_bad_load_is_parse_int_and_unchanged() {
    let mut fields = short_fields();
    fields[3] = b"512".to_vec(); // does not fit the one-byte load
    let mut status = UPSStatus::new();
    assert_eq!(decode_short_status(&fields, &mut status), Err(UPSError::ParseInt));
    assert_eq!(status, UPSStatus::new());
}

fn extended_fields(flags: &[u8]) -> Vec<Vec<u8>> {
    vec![
        b"100".to_vec(),
        b"3600".to_vec(),
        b"60.0".to_vec(),
        b"1.5".to_vec(),
        b"0".to_vec(),
        b"0".to_vec(),
        b"0".to_vec(),
        flags.to_vec(),
    ]
}

#[test]
fn extended_status_decodes_test_result_error() {
    // character '3' at the test-result offset (7)
    let mut status = UPSStatus::new();
    assert_eq!(
        decode_extended_status(&extended_fields(b"00000003101010"), &mut status),
        Ok(())
    );
    assert_eq!(status.test_result, UPSTestResults::Error);
    assert!(status.overloaded);
    assert!(!status.replace_battery);
    assert!(status.charging);
    assert_eq!(status.ups_mode, UPSModes::Standby);
    assert_eq!(status.remaining_capacity, 100);
    assert_eq!(status.seconds_to_empty, 3600);
    assert_eq!(status.input_frequency, dec(600, 1));
    assert_eq!(status.output_current, dec(15, 1));
}

#[test]
fn extended_status_unrecognized_test_code_is_no_test() {
    let mut status = UPSStatus::new();
    assert_eq!(
        decode_extended_status(&extended_fields(b"0000000Z000000"), &mut status),
        Ok(())
    );
    assert_eq!(status.test_result, UPSTestResults::NoTest);
    assert_eq!(status.ups_mode, UPSModes::Idle);
}

#[test]
fn extended_status_capacity_over_hundred_is_malformed() {
    let mut fields = extended_fields(b"00000000000000");
    fields[0] = b"101".to_vec();
    let mut status = UPSStatus::new();
    assert_eq!(
        decode_extended_status(&fields, &mut status),
        Err(UPSError::ParseInt)
    );
    assert_eq!(status, UPSStatus::new());
}

#[test]
fn extended_status_bad_frequency_is_parse_float() {
    let mut fields = extended_fields(b"00000000000000");
    fields[2] = b"6o.0".to_vec();
    let mut status = UPSStatus::new();
    assert_eq!(
        decode_extended_status(&fields, &mut status),
        Err(UPSError::ParseFloat)
    );
}
