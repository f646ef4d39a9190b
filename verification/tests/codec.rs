use ups_monitor::codec::{build_packets, frame_chunk, receive, receive_step, shutdown_command, split_command};
use ups_monitor::errors::UPSError;

#[test]
fn short_command_is_one_packet_and_terminator() {
    let packets = build_packets(&b"M".to_vec());
    assert_eq!(packets.len(), 2);
    assert_eq!(packets[0], vec![0, b'M', 0, 0, 0, 0, 0, 0, 0]);
    assert_eq!(packets[1], vec![0, 13]);
}

#[test]
fn long_command_round_trips_with_one_terminator() {
    // a command longer than one report payload
    let cmd = b"QWERTYUIOP".to_vec();
    let packets = build_packets(&cmd);
    assert_eq!(packets.len(), 3);
    // reassemble the payload bytes in order
    let mut payload: Vec<u8> = Vec::new();
    payload.extend_from_slice(&packets[0][1..9]);
    payload.extend_from_slice(&packets[1][1..3]);
    payload.extend_from_slice(&packets[2][1..2]);
    let mut expected = cmd.clone();
    expected.push(13);
    assert_eq!(payload, expected);
    assert_eq!(payload.iter().filter(|&&b| b == 13).count(), 1);
    // the split itself concatenates back to the command
    let chunks = split_command(&cmd);
    assert_eq!(chunks.len(), 2);
    assert_eq!(chunks.concat(), cmd);
}

#[test]
fn empty_command_is_terminator_alone() {
    let packets = build_packets(&Vec::new());
    assert_eq!(packets.len(), 1);
    assert_eq!(packets[0], vec![0, 13]);
}

#[test]
fn frame_pads_with_zeros_after_reserved_byte() {
    let p = frame_chunk(&b"QS".to_vec());
    assert_eq!(p, vec![0, b'Q', b'S', 0, 0, 0, 0, 0, 0]);
}

#[test]
fn receive_stops_at_terminator_and_excludes_it() {
    // "#220.0 0" then "03 12.00" then " 50.0\r??" — terminator mid-read
    let reads = vec![
        b"#220.0 0".to_vec(),
        b"03 12.00".to_vec(),
        vec![b' ', b'5', b'0', b'.', b'0', 13, b'x', b'y'],
    ];
    let r = receive(&reads, None).unwrap();
    assert_eq!(r, b"#220.0 003 12.00 50.0".to_vec());
    assert!(!r.contains(&13));
}

#[test]
fn receive_stops_at_expected_length_on_separator_or_digit() {
    // no terminator anywhere; the 6th byte is a separator
    let reads = vec![b"12 45 7".to_vec(), b"89012345".to_vec()];
    let r = receive(&reads, Some(6)).unwrap();
    assert_eq!(r, b"12 45 ".to_vec());
    // the 4th byte is a digit
    let r2 = receive(&reads, Some(4)).unwrap();
    assert_eq!(r2, b"12 4".to_vec());
}

#[test]
fn receive_empty_read_is_timeout() {
    let reads = vec![b"partial ".to_vec(), Vec::new()];
    assert_eq!(receive(&reads, None), Err(UPSError::Timeout));
}

#[test]
fn receive_without_stop_condition_is_unknown() {
    // twenty full reads without terminator exhaust the budget
    let reads = vec![b"00000000".to_vec(); 20];
    assert_eq!(receive(&reads, None), Err(UPSError::Unknown));
    // and so does running out of reads
    let reads2 = vec![b"00000000".to_vec(); 2];
    assert_eq!(receive(&reads2, None), Err(UPSError::Unknown));
}

#[test]
fn receive_terminator_beats_budget_on_twentieth_read() {
    let mut reads = vec![b"00000000".to_vec(); 19];
    reads.push(vec![b'z', 13, 0, 0, 0, 0, 0, 0]);
    let r = receive(&reads, None).unwrap();
    assert_eq!(r.len(), 19 * 8 + 1);
    assert_eq!(r[19 * 8], b'z');
}

#[test]
fn receive_step_accumulates_and_reports_stop() {
    let mut acc: Vec<u8> = Vec::new();
    assert!(!receive_step(&mut acc, &b"#220.0 0".to_vec(), None));
    assert_eq!(acc, b"#220.0 0".to_vec());
    assert!(receive_step(&mut acc, &vec![b'0', 13, 0, 0, 0, 0, 0, 0], None));
    assert_eq!(acc, b"#220.0 00".to_vec());
}

#[test]
fn shutdown_command_under_one_minute_uses_tenths() {
    assert_eq!(shutdown_command(5, 0), b"S.5R0000".to_vec());
}

#[test]
fn shutdown_command_whole_minutes_two_digits() {
    assert_eq!(shutdown_command(20, 0), b"S02R0000".to_vec());
    assert_eq!(shutdown_command(120, 3), b"S12R0003".to_vec());
    assert_eq!(shutdown_command(999, 9999), b"S99R9999".to_vec());
}
