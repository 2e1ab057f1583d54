use apns::feedback::parse_feedback;

fn record(timestamp: u32, token_byte: u8) -> Vec<u8> {
    let mut v: Vec<u8> = Vec::new();
    v.extend_from_slice(&timestamp.to_be_bytes());
    v.extend_from_slice(&[0, 32]);
    v.extend_from_slice(&[token_byte; 32]);
    v
}

#[test]
fn two_full_records_in_stream_order() {
    let mut data = record(100, 0xaa);
    data.extend(record(200, 0xbb));
    let records = parse_feedback(&data);
    assert_eq!(records.len(), 2);
    assert_eq!(records[0].0, 100);
    assert_eq!(records[0].1, "a".repeat(64));
    assert_eq!(records[1].0, 200);
    assert_eq!(records[1].1, "b".repeat(64));
}

#[test]
fn partial_trailing_record_is_dropped() {
    let mut data = record(100, 0xaa);
    data.extend(record(200, 0xbb));
    data.extend(vec![1u8; 10]);
    let records = parse_feedback(&data);
    assert_eq!(records.len(), 2);
    assert_eq!(records[0].0, 100);
    assert_eq!(records[1].0, 200);
}

#[test]
fn empty_stream_yields_no_records() {
    let data: Vec<u8> = Vec::new();
    assert_eq!(parse_feedback(&data).len(), 0);
    let short: Vec<u8> = vec![0u8; 37];
    assert_eq!(parse_feedback(&short).len(), 0);
}

#[test]
fn token_length_field_is_not_validated() {
    let mut data = record(7, 0xcc);
    data[4] = 0xff;
    data[5] = 0xee;
    let records = parse_feedback(&data);
    assert_eq!(records.len(), 1);
    assert_eq!(records[0].0, 7);
    assert_eq!(records[0].1, "c".repeat(64));
}
