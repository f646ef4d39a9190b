use ups_monitor::errors::UPSError;
use ups_monitor::exchange::{protocol_id_ok, retry_decision, run_exchange, split_fields, RetryAction};

#[test]
fn split_fields_drops_marker_and_splits_on_separator() {
    let fields = split_fields(&b"#123 45 6".to_vec());
    assert_eq!(fields, vec![b"123".to_vec(), b"45".to_vec(), b"6".to_vec()]);
}

#[test]
fn split_fields_with_paren_marker() {
    let fields = split_fields(&b"(00 00".to_vec());
    assert_eq!(fields, vec![b"00".to_vec(), b"00".to_vec()]);
}

#[test]
fn split_fields_keeps_empty_runs_positional() {
    let fields = split_fields(&b"(a  b ".to_vec());
    assert_eq!(
        fields,
        vec![b"a".to_vec(), Vec::new(), b"b".to_vec(), Vec::new()]
    );
}

#[test]
fn split_fields_marker_alone_gives_one_empty_field() {
    let fields = split_fields(&b"#".to_vec());
    assert_eq!(fields, vec![Vec::<u8>::new()]);
}

#[test]
fn protocol_identity_check() {
    assert!(protocol_id_ok(&vec![72, 13]));
    assert!(!protocol_id_ok(&vec![65]));
    assert!(!protocol_id_ok(&Vec::new()));
}

#[test]
fn three_timeouts_exhaust_the_ceiling() {
    let outcomes = vec![
        Err(UPSError::Timeout),
        Err(UPSError::Timeout),
        Err(UPSError::Timeout),
        Ok(()),
    ];
    let t = run_exchange(&outcomes);
    assert_eq!(t.result, Err(UPSError::Timeout));
    // no 4th attempt: the success waiting at index 3 is never reached
    assert_eq!(t.attempts, 3);
    assert_eq!(t.reconnects, 3);
}

#[test]
fn two_timeouts_then_success_makes_two_reconnects() {
    let outcomes = vec![Err(UPSError::Timeout), Err(UPSError::Timeout), Ok(())];
    let t = run_exchange(&outcomes);
    assert_eq!(t.result, Ok(()));
    assert_eq!(t.attempts, 3);
    assert_eq!(t.reconnects, 2);
}

#[test]
fn immediate_success_needs_no_reconnect() {
    let outcomes = vec![Ok(()), Ok(()), Ok(())];
    let t = run_exchange(&outcomes);
    assert_eq!(t.result, Ok(()));
    assert_eq!(t.attempts, 1);
    assert_eq!(t.reconnects, 0);
}

#[test]
fn non_timeout_fault_aborts_without_retry() {
    let outcomes = vec![Err(UPSError::Hid), Ok(()), Ok(())];
    let t = run_exchange(&outcomes);
    assert_eq!(t.result, Err(UPSError::Hid));
    assert_eq!(t.attempts, 1);
    assert_eq!(t.reconnects, 0);
}

#[test]
fn retry_decisions_per_attempt() {
    assert_eq!(retry_decision(0, &Ok(())), RetryAction::Proceed);
    assert_eq!(retry_decision(0, &Err(UPSError::Timeout)), RetryAction::ReconnectRetry);
    assert_eq!(retry_decision(1, &Err(UPSError::Timeout)), RetryAction::ReconnectRetry);
    assert_eq!(retry_decision(2, &Err(UPSError::Timeout)), RetryAction::ReconnectGiveUp);
    assert_eq!(retry_decision(1, &Err(UPSError::Utf8)), RetryAction::Abort);
}
