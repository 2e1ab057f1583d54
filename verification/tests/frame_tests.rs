use apns::frame::build_frame;
use apns::frame::get_notification_bytes;
use apns::frame::parse_error_response;
use apns::token::convert_to_binary;
use apns::ApnsError;

fn be32(b: &[u8]) -> u32 {
    ((b[0] as u32) << 24) | ((b[1] as u32) << 16) | ((b[2] as u32) << 8) | (b[3] as u32)
}

fn be16(b: &[u8]) -> u16 {
    ((b[0] as u16) << 8) | (b[1] as u16)
}

#[test]
fn frame_layout_is_exact() {
    let token = "aaaaaaaaaaaaaaaabbbbbbbbbbbbbbbb";
    let token_bin = convert_to_binary(token).unwrap();
    let payload: Vec<u8> = b"{\"aps\":{\"alert\":\"hi\"}}".to_vec();
    let frame = build_frame(&payload, &token_bin, 0x01020304, 0x55667788).unwrap();
    assert_eq!(frame.len(), 5 + 24 + 16 + payload.len());
    assert_eq!(frame[0], 0x02);
    assert_eq!(be32(&frame[1..5]) as usize, frame.len() - 5);
    assert_eq!(frame[5], 0x01);
    assert_eq!(be16(&frame[6..8]), 16);
    assert_eq!(&frame[8..24], &token_bin[..]);
    assert_eq!(frame[24], 0x02);
    assert_eq!(be16(&frame[25..27]) as usize, payload.len());
    assert_eq!(&frame[27..49], &payload[..]);
    assert_eq!(frame[49], 0x03);
    assert_eq!(be16(&frame[50..52]), 4);
    assert_eq!(&frame[52..56], &[0x01, 0x02, 0x03, 0x04]);
    assert_eq!(frame[56], 0x04);
    assert_eq!(be16(&frame[57..59]), 4);
    assert_eq!(&frame[59..63], &[0x55, 0x66, 0x77, 0x88]);
    assert_eq!(frame[63], 0x05);
    assert_eq!(be16(&frame[64..66]), 1);
    assert_eq!(frame[66], 0x0a);
}

#[test]
fn oversized_payload_is_fatal_before_any_byte() {
    let token_bin = convert_to_binary("aaaaaaaaaaaaaaaabbbbbbbbbbbbbbbb").unwrap();
    let payload: Vec<u8> = vec![b'x'; 65536];
    assert_eq!(
        build_frame(&payload, &token_bin, 1, 2),
        Err(ApnsError::FrameTooLarge)
    );
    let fits: Vec<u8> = vec![b'x'; 65535];
    assert!(build_frame(&fits, &token_bin, 1, 2).is_ok());
}

#[test]
fn frames_differ_only_in_id_and_expiration() {
    let token_bin = convert_to_binary("deadbeef12345678cafebabe87654321").unwrap();
    let payload: Vec<u8> = b"{\"aps\":{\"alert\":\"again\"}}".to_vec();
    let f1 = build_frame(&payload, &token_bin, 0x11111111, 100).unwrap();
    let f2 = build_frame(&payload, &token_bin, 0x22222222, 200).unwrap();
    assert_eq!(f1.len(), f2.len());
    let id_off = 5 + 3 + 16 + 3 + payload.len() + 3;
    let exp_off = id_off + 4 + 3;
    for i in 0..f1.len() {
        if (id_off..id_off + 4).contains(&i) || (exp_off..exp_off + 4).contains(&i) {
            continue;
        }
        assert_eq!(f1[i], f2[i], "frames differ at byte {}", i);
    }
    assert_ne!(&f1[id_off..id_off + 4], &f2[id_off..id_off + 4]);
    assert_ne!(&f1[exp_off..exp_off + 4], &f2[exp_off..exp_off + 4]);
}

#[test]
fn notification_bytes_carry_token_and_payload() {
    let token = "a1b2c3d4e5f60718a1b2c3d4e5f60718";
    let token_bin = convert_to_binary(token).unwrap();
    let payload: Vec<u8> = b"{\"aps\":{\"alert\":\"hi\"}}".to_vec();
    let frame = get_notification_bytes(&payload, token).unwrap();
    assert_eq!(frame.len(), 5 + 24 + 16 + payload.len());
    assert_eq!(frame[0], 0x02);
    assert_eq!(be32(&frame[1..5]) as usize, frame.len() - 5);
    assert_eq!(frame[5], 0x01);
    assert_eq!(be16(&frame[6..8]), 16);
    assert_eq!(&frame[8..24], &token_bin[..]);
    assert_eq!(frame[24], 0x02);
    assert_eq!(&frame[27..49], &payload[..]);
    assert_eq!(frame[49], 0x03);
    assert_eq!(be16(&frame[50..52]), 4);
    assert_eq!(frame[56], 0x04);
    assert_eq!(be16(&frame[57..59]), 4);
    assert_eq!(frame[63], 0x05);
    assert_eq!(frame[66], 0x0a);
}

#[test]
fn notification_bytes_reject_bad_token() {
    let payload: Vec<u8> = b"{}".to_vec();
    assert_eq!(
        get_notification_bytes(&payload, "not a token"),
        Err(ApnsError::InvalidTokenFormat)
    );
    let huge: Vec<u8> = vec![b'x'; 70000];
    assert_eq!(
        get_notification_bytes(&huge, "a1b2c3d4e5f60718a1b2c3d4e5f60718"),
        Err(ApnsError::FrameTooLarge)
    );
}

#[test]
fn error_response_fields() {
    let buf: [u8; 6] = [8, 6, 0, 0, 1, 7];
    let (command, status, id) = parse_error_response(&buf);
    assert_eq!(command, 8);
    assert_eq!(status, 6);
    assert_eq!(id, 0x00000107);
}
