//! Status decoder: positional mapping from the field lists of the three
//! status queries into the telemetry snapshot.
//!
//! Field order and offsets are fixed by the wire protocol. Numeric fields
//! that do not parse surface as decode errors; the enumerated test-result and
//! mode codes instead fall back to their default variant.

use vstd::prelude::*;

use crate::errors::UPSError;
use crate::parse::dec_scale;
use crate::parse::digits_value;
use crate::parse::is_decimal_field;
use crate::parse::is_unsigned_field;
use crate::parse::mantissa_digits;
use crate::parse::parse_decimal;
use crate::parse::parse_unsigned;
use crate::parse::Decimal;
use crate::status::mode_of_code;
use crate::status::mode_from_code;
use crate::status::test_result_of_code;
use crate::status::test_result_from_code;
use crate::status::UPSStatus;

verus! {

/// ASCII `1`, the set value of a flag character.
pub const FLAG_SET: u8 = 49;

/// A field that parses as a decimal number the snapshot can hold.
pub open spec fn dec_ok(s: Seq<u8>) -> bool {
    &&& is_decimal_field(s)
    &&& digits_value(mantissa_digits(s)) <= u64::MAX
    &&& dec_scale(s) <= u8::MAX
}

/// The decimal number a field holds.
pub open spec fn dec_of(s: Seq<u8>) -> Decimal {
    Decimal { mantissa: digits_value(mantissa_digits(s)) as u64, scale: dec_scale(s) as u8 }
}

/// A field that parses as an unsigned integer of at most `max`.
pub open spec fn uint_ok(s: Seq<u8>, max: nat) -> bool {
    &&& is_unsigned_field(s)
    &&& digits_value(s) <= max
}

/// Parse one decimal field or fail the exchange as a malformed response.
fn field_decimal(f: &Vec<u8>) -> (r: Result<Decimal, UPSError>)
    ensures
        r is Ok <==> dec_ok(f@),
        r is Ok ==> r->Ok_0 == dec_of(f@),
        r is Err ==> r->Err_0 == UPSError::ParseFloat,
{
    match parse_decimal(f) {
        Ok(v) => Ok(v),
        Err(()) => Err(UPSError::ParseFloat),
    }
}

/// Parse one unsigned integer field of at most `max`, or fail the exchange
/// as a malformed response.
fn field_unsigned(f: &Vec<u8>, max: u64) -> (r: Result<u64, UPSError>)
    ensures
        r is Ok <==> uint_ok(f@, max as nat),
        r is Ok ==> r->Ok_0 as nat == digits_value(f@),
        r is Err ==> r->Err_0 == UPSError::ParseInt,
{
    match parse_unsigned(f) {
        Ok(v) => {
            if v > max {
                Err(UPSError::ParseInt)
            } else {
                Ok(v)
            }
        },
        Err(()) => Err(UPSError::ParseInt),
    }
}

/// What decoding a ratings reply returns: the first field that fails to
/// parse, in order, decides the error.
pub open spec fn ratings_result(fields: Seq<Vec<u8>>) -> Result<(), UPSError> {
    if !dec_ok(fields[0]@) {
        Err(UPSError::ParseFloat)
    } else if !uint_ok(fields[1]@, i32::MAX as nat) {
        Err(UPSError::ParseInt)
    } else if !dec_ok(fields[2]@) {
        Err(UPSError::ParseFloat)
    } else if !dec_ok(fields[3]@) {
        Err(UPSError::ParseFloat)
    } else {
        Ok(())
    }
}

/// Decode the ratings reply (4 fields: rated output voltage, rated output
/// current, rated battery voltage, rated output frequency) into the
/// snapshot. On an error the snapshot is left unchanged.
pub fn decode_ratings(fields: &Vec<Vec<u8>>, status: &mut UPSStatus) -> (r: Result<(), UPSError>)
    requires
        fields@.len() >= 4,
    ensures
        r == ratings_result(fields@),
        r is Ok ==> *final(status) == (UPSStatus {
            rated_output_voltage: dec_of(fields@[0]@),
            rated_output_current: digits_value(fields@[1]@) as i32,
            rated_battery_voltage: dec_of(fields@[2]@),
            rated_output_frequency: dec_of(fields@[3]@),
            ..*old(status)
        }),
        r is Err ==> *final(status) == *old(status),
        old(status).wf() ==> final(status).wf(),
{
    let v0 = match field_decimal(&fields[0]) {
        Ok(v) => v,
        Err(e) => return Err(e),
    };
    let v1 = match field_unsigned(&fields[1], i32::MAX as u64) {
        Ok(v) => v,
        Err(e) => return Err(e),
    };
    let v2 = match field_decimal(&fields[2]) {
        Ok(v) => v,
        Err(e) => return Err(e),
    };
    let v3 = match field_decimal(&fields[3]) {
        Ok(v) => v,
        Err(e) => return Err(e),
    };
    status.rated_output_voltage = v0;
    status.rated_output_current = v1 as i32;
    status.rated_battery_voltage = v2;
    status.rated_output_frequency = v3;
    Ok(())
}

/// What decoding a short-status reply returns: the first field that fails to
/// parse, in order, decides the error.
pub open spec fn short_status_result(fields: Seq<Vec<u8>>) -> Result<(), UPSError> {
    if !dec_ok(fields[0]@) {
        Err(UPSError::ParseFloat)
    } else if !dec_ok(fields[1]@) {
        Err(UPSError::ParseFloat)
    } else if !dec_ok(fields[2]@) {
        Err(UPSError::ParseFloat)
    } else if !uint_ok(fields[3]@, u8::MAX as nat) {
        Err(UPSError::ParseInt)
    } else if !dec_ok(fields[4]@) {
        Err(UPSError::ParseFloat)
    } else if !dec_ok(fields[5]@) {
        Err(UPSError::ParseFloat)
    } else {
        Ok(())
    }
}

/// Decode the short-status reply (8 fields: input voltage, input fault
/// voltage, output voltage, output load, output frequency, battery voltage,
/// one unused field, then the flag string) into the snapshot. Two booleans
/// are read from fixed character offsets of the flag string: utility-failed
/// at offset 0 and shutdown-active at offset 6. On an error the snapshot is
/// left unchanged.
pub fn decode_short_status(fields: &Vec<Vec<u8>>, status: &mut UPSStatus) -> (r: Result<
    (),
    UPSError,
>)
    requires
        fields@.len() >= 8,
        fields@[7]@.len() >= 7,
    ensures
        r == short_status_result(fields@),
        r is Ok ==> *final(status) == (UPSStatus {
            input_voltage: dec_of(fields@[0]@),
            input_fault_voltage: dec_of(fields@[1]@),
            output_voltage: dec_of(fields@[2]@),
            output_load: digits_value(fields@[3]@) as u8,
            output_frequency: dec_of(fields@[4]@),
            battery_voltage: dec_of(fields@[5]@),
            utility_failed: fields@[7]@[0] == FLAG_SET,
            shutdown_active: fields@[7]@[6] == FLAG_SET,
            ..*old(status)
        }),
        r is Err ==> *final(status) == *old(status),
        old(status).wf() ==> final(status).wf(),
{
    let v0 = match field_decimal(&fields[0]) {
        Ok(v) => v,
        Err(e) => return Err(e),
    };
    let v1 = match field_decimal(&fields[1]) {
        Ok(v) => v,
        Err(e) => return Err(e),
    };
    let v2 = match field_decimal(&fields[2]) {
        Ok(v) => v,
        Err(e) => return Err(e),
    };
    let v3 = match field_unsigned(&fields[3], u8::MAX as u64) {
        Ok(v) => v,
        Err(e) => return Err(e),
    };
    let v4 = match field_decimal(&fields[4]) {
        Ok(v) => v,
        Err(e) => return Err(e),
    };
    let v5 = match field_decimal(&fields[5]) {
        Ok(v) => v,
        Err(e) => return Err(e),
    };
    let flags = &fields[7];
    status.input_voltage = v0;
    status.input_fault_voltage = v1;
    status.output_voltage = v2;
    status.output_load = v3 as u8;
    status.output_frequency = v4;
    status.battery_voltage = v5;
    status.utility_failed = flags[0] == FLAG_SET;
    status.shutdown_active = flags[6] == FLAG_SET;
    Ok(())
}

/// What decoding an extended-status reply returns: the first field that
/// fails to parse, in order, decides the error. The remaining capacity must
/// be a percentage: a value over 100 is malformed.
pub open spec fn extended_status_result(fields: Seq<Vec<u8>>) -> Result<(), UPSError> {
    if !uint_ok(fields[0]@, 100) {
        Err(UPSError::ParseInt)
    } else if !uint_ok(fields[1]@, i32::MAX as nat) {
        Err(UPSError::ParseInt)
    } else if !dec_ok(fields[2]@) {
        Err(UPSError::ParseFloat)
    } else if !dec_ok(fields[3]@) {
        Err(UPSError::ParseFloat)
    } else {
        Ok(())
    }
}

/// Decode the extended-status reply (8 fields: remaining capacity,
/// seconds-to-empty, input frequency, output current, three unused fields,
/// then the flag string) into the snapshot. The flag string's characters at
/// fixed offsets encode the test result (offset 7), overloaded (8),
/// replace-battery (9), charging (10) and the operating mode (12); the
/// test-result and mode codes decode totally, falling back to their default
/// variants. On an error the snapshot is left unchanged.
pub fn decode_extended_status(fields: &Vec<Vec<u8>>, status: &mut UPSStatus) -> (r: Result<
    (),
    UPSError,
>)
    requires
        fields@.len() >= 8,
        fields@[7]@.len() >= 13,
    ensures
        r == extended_status_result(fields@),
        r is Ok ==> *final(status) == (UPSStatus {
            remaining_capacity: digits_value(fields@[0]@) as u8,
            seconds_to_empty: digits_value(fields@[1]@) as i32,
            input_frequency: dec_of(fields@[2]@),
            output_current: dec_of(fields@[3]@),
            test_result: test_result_of_code(fields@[7]@[7]),
            overloaded: fields@[7]@[8] == FLAG_SET,
            replace_battery: fields@[7]@[9] == FLAG_SET,
            charging: fields@[7]@[10] == FLAG_SET,
            ups_mode: mode_of_code(fields@[7]@[12]),
            ..*old(status)
        }),
        r is Err ==> *final(status) == *old(status),
        r is Ok ==> final(status).wf(),
        old(status).wf() && r is Err ==> final(status).wf(),
{
    let v0 = match field_unsigned(&fields[0], 100) {
        Ok(v) => v,
        Err(e) => return Err(e),
    };
    let v1 = match field_unsigned(&fields[1], i32::MAX as u64) {
        Ok(v) => v,
        Err(e) => return Err(e),
    };
    let v2 = match field_decimal(&fields[2]) {
        Ok(v) => v,
        Err(e) => return Err(e),
    };
    let v3 = match field_decimal(&fields[3]) {
        Ok(v) => v,
        Err(e) => return Err(e),
    };
    let flags = &fields[7];
    status.remaining_capacity = v0 as u8;
    status.seconds_to_empty = v1 as i32;
    status.input_frequency = v2;
    status.output_current = v3;
    status.test_result = test_result_from_code(flags[7]);
    status.overloaded = flags[8] == FLAG_SET;
    status.replace_battery = flags[9] == FLAG_SET;
    status.charging = flags[10] == FLAG_SET;
    status.ups_mode = mode_from_code(flags[12]);
    Ok(())
}

} // verus!
