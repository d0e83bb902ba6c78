use v5_core::buffer::ReceivingBuffer;
use v5_core::connection::{
    answers_request, decode_packet_response, decode_raw_response, decode_response,
    extended_answers_request, has_extended_length, packet_answers_request, resend_timeout_millis,
    response_length_be, response_length_le, simple_request, HeaderMatcher, Nack, Packet,
    RobotConnectionOptions,
};

fn xmodem(bytes: &[u8]) -> u16 {
    crc::Crc::<u16>::new(&crc::CRC_16_XMODEM).checksum(bytes)
}

#[test]
fn extended_request_frame_has_length_content_and_crc() {
    let mut p = Packet::new(0x22, 3);
    p.write_u8(7);
    p.write_u16(0x0102);
    let frame = p.finish();
    let body = [0xC9, 0x36, 0xB8, 0x47, 0x56, 0x22, 3, 7, 0x02, 0x01];
    assert_eq!(&frame[..10], &body);
    let crc = xmodem(&body);
    assert_eq!(frame[10], (crc >> 8) as u8);
    assert_eq!(frame[11], (crc & 0xff) as u8);
    assert_eq!(frame.len(), 12);
}

#[test]
fn sealed_request_checks_to_zero() {
    let mut p = Packet::new(0x11, 4);
    p.write_u32(0xDEADBEEF);
    let frame = p.finish();
    assert_eq!(xmodem(&frame), 0);
}

#[test]
fn long_request_uses_two_length_bytes() {
    let mut p = Packet::new(0x13, 0x1234);
    let data = vec![0xAB_u8; 0x1234];
    p.write_raw(&data);
    let frame = p.finish();
    assert_eq!(frame[6], 0x80 | 0x12);
    assert_eq!(frame[7], 0x34);
    assert_eq!(frame.len(), 8 + 0x1234 + 2);
    assert_eq!(response_length_be(frame[6], frame[7]), 0x1234);
}

#[test]
fn string_field_is_zero_padded() {
    let mut p = Packet::new(0x19, 6);
    p.write_str("ab", 6);
    let frame = p.finish();
    assert_eq!(&frame[7..13], &[b'a', b'b', 0, 0, 0, 0]);
}

#[test]
fn signed_values_are_written_little_endian() {
    let mut p = Packet::new(0x01, 4);
    p.write_i32(-2);
    let frame = p.finish();
    assert_eq!(&frame[7..11], &[0xFE, 0xFF, 0xFF, 0xFF]);
}

#[test]
fn simple_request_appends_crc_low_byte_first() {
    let frame = simple_request(0x21);
    let crc = xmodem(&[0xC9, 0x36, 0xB8, 0x47, 0x21]);
    assert_eq!(frame, vec![0xC9, 0x36, 0xB8, 0x47, 0x21, (crc & 0xff) as u8, (crc >> 8) as u8]);
}

fn response(command: u8, content: &[u8]) -> Vec<u8> {
    let mut payload = vec![0xAA, 0x55, 0x56, (content.len() + 2) as u8];
    payload.extend_from_slice(content);
    let crc = xmodem(&payload);
    payload.push((crc >> 8) as u8);
    payload.push((crc & 0xff) as u8);
    let _ = command;
    payload
}

#[test]
fn response_with_valid_crc_is_accepted() {
    let payload = response(0x56, &[0x22, 0x76, 9, 8]);
    assert!(answers_request(0x56, &payload, 4));
    match decode_response(0x56, payload, 4) {
        Ok(mut buffer) => {
            assert_eq!(buffer.read_u8(), 9);
            assert_eq!(buffer.read_u8(), 8);
        }
        _ => panic!("response refused"),
    }
}

#[test]
fn response_with_bad_crc_is_refused() {
    let mut payload = response(0x56, &[0x22, 0x76, 9, 8]);
    let last = payload.len() - 1;
    payload[last] ^= 1;
    assert!(!answers_request(0x56, &payload, 4));
}

#[test]
fn negative_acknowledgement_is_reported() {
    let payload = response(0x56, &[0x22, 0xD4, 0, 0]);
    assert!(answers_request(0x56, &payload, 4));
    match decode_response(0x56, payload, 4) {
        Err(nack) => assert_eq!(nack, Nack::UninitializedTransfer),
        _ => panic!("expected a NACK"),
    }
}

#[test]
fn packet_response_checks_command_echo() {
    let payload = response(0x56, &[0x22, 0x76, 1, 2, 3]);
    assert!(!packet_answers_request(false, 0x23, &payload, 4));
    assert!(packet_answers_request(false, 0x22, &payload, 4));
    match decode_packet_response(false, 0x22, payload, 4) {
        Ok(buffer) => assert_eq!(buffer.data(), &[1, 2, 3]),
        _ => panic!("response refused"),
    }
}

#[test]
fn simple_packet_response_skips_command_echo() {
    let payload = vec![0xAA, 0x55, 0xA4, 3, 0xA4, 5, 6];
    assert!(packet_answers_request(true, 0xA4, &payload, 4));
    assert!(!packet_answers_request(true, 0xA5, &payload, 4));
    match decode_packet_response(true, 0xA4, payload, 4) {
        Ok(buffer) => assert_eq!(buffer.data(), &[5, 6]),
        _ => panic!("response refused"),
    }
}

#[test]
fn nack_codes_round_trip() {
    for code in 0..=255u8 {
        if let Some(nack) = Nack::maybe_find(code) {
            assert_eq!(nack.code(), code);
        }
    }
    assert_eq!(Nack::maybe_find(0xFF), Some(Nack::General));
    assert_eq!(Nack::maybe_find(0x00), None);
    assert_eq!(Nack::try_from(0xCE_u8), Ok(Nack::InvalidCrc));
}

#[test]
fn header_matcher_finds_header_after_repeated_first_byte() {
    let mut m = HeaderMatcher::new();
    assert!(!m.step(0xAA));
    assert!(!m.step(0xAA));
    assert!(m.step(0x55));
    let mut m = HeaderMatcher::new();
    assert!(!m.step(0x55));
    assert!(!m.step(0xAA));
    assert!(!m.step(0x00));
    assert!(!m.step(0x55));
}

#[test]
fn length_bytes_read_both_ways() {
    assert!(has_extended_length(0x81));
    assert!(!has_extended_length(0x7F));
    assert_eq!(response_length_be(0x81, 0x02), 0x0102);
    assert_eq!(response_length_le(0x81, 0x02), 0x0201);
}

#[test]
fn resend_waits_longer_for_transfer_end() {
    assert_eq!(resend_timeout_millis(0x12), 2000);
    assert_eq!(resend_timeout_millis(0x11), 300);
}

#[test]
fn options_follow_flags() {
    match RobotConnectionOptions::from_flags(false, true, None, None, 5735, None) {
        RobotConnectionOptions::Daemon { port } => assert_eq!(port, 5735),
        _ => panic!("expected the daemon"),
    }
    match RobotConnectionOptions::from_flags(false, false, None, None, 1, Some("COM3".to_string())) {
        RobotConnectionOptions::Serial { port } => assert_eq!(port.as_deref(), Some("COM3")),
        _ => panic!("expected a serial port"),
    }
}

#[test]
fn receiving_buffer_reads_little_endian() {
    let mut b = ReceivingBuffer::new(vec![0, 0x34, 0x12, 0xFE, 0xFF, 0xFF, 0xFF], 1);
    assert_eq!(b.read_u16(), 0x1234);
    assert_eq!(b.read_i32(), -2);
    assert_eq!(b.len(), 7);
    assert!(!b.is_empty());
    assert_eq!(b.get_all(), Vec::<u8>::new());
}

#[test]
fn checked_reads_leave_an_unready_buffer_alone() {
    let mut b = ReceivingBuffer::new(vec![b'h', b'i', 0, b'x'], 0);
    assert_eq!(b.remaining(), 4);
    assert!(b.can_read_str(8));
    assert_eq!(b.try_read_str(8), Some("hi".to_string()));
    assert_eq!(b.position(), 3);
    assert_eq!(b.remaining(), 1);
    assert!(!b.can_read_str(8));
    assert_eq!(b.try_read_str(8), None);
    assert_eq!(b.position(), 3);
    let past = ReceivingBuffer::new(vec![1, 2], 5);
    assert_eq!(past.remaining(), 0);
    let bad = ReceivingBuffer::new(vec![0xFF, 0], 0);
    assert!(!bad.can_read_str(4));
}

#[test]
fn a_128_bit_read_is_two_64_bit_reads() {
    let bytes: Vec<u8> = (1..=16u8).collect();
    let mut whole = ReceivingBuffer::new(bytes.clone(), 0);
    let mut halves = ReceivingBuffer::new(bytes.clone(), 0);
    let lo = halves.read_u64();
    let hi = halves.read_u64();
    assert_eq!(whole.read_u128(), (lo as u128) | ((hi as u128) << 64));
    assert_eq!(whole.position(), halves.position());
}

#[test]
fn reads_keep_the_bytes_held() {
    let bytes = vec![1u8, 2, 3, 4, 5, 6, 7, 8];
    let mut b = ReceivingBuffer::new(bytes.clone(), 1);
    b.read_u16();
    b.skip(2);
    b.read_u8();
    assert_eq!(b.len(), bytes.len());
    assert_eq!(b.data(), &bytes[..]);
    assert_eq!(b.consume(), bytes);
}

#[test]
fn good_answer_with_no_nack_is_taken() {
    let mut payload = vec![0xAA, 0x55, 0x56, 4, 0x22, 0x76];
    let crc = xmodem(&payload);
    payload.push((crc >> 8) as u8);
    payload.push((crc & 0xff) as u8);
    assert!(answers_request(0x56, &payload, 4));
    assert!(matches!(decode_response(0x56, payload, 4), Ok(_)));
}

#[test]
fn raw_response_checks_the_echoed_id() {
    let payload = response(0x56, &[0x22, 0x76, 1, 2, 3]);
    assert!(extended_answers_request(0x22, &payload, 4));
    assert!(!extended_answers_request(0x23, &payload, 4));
    let mut bad = payload.clone();
    bad[6] ^= 1;
    assert!(!extended_answers_request(0x22, &bad, 4));
    match decode_raw_response(0x22, payload, 4) {
        Ok(mut buffer) => {
            assert_eq!(buffer.position(), 6);
            assert_eq!(buffer.read_u8(), 1);
        }
        Err(_) => panic!("response refused"),
    }
    let nacked = response(0x56, &[0x22, 0xD4, 0, 0]);
    assert!(extended_answers_request(0x22, &nacked, 4));
    assert!(matches!(decode_raw_response(0x22, nacked, 4), Err(Nack::UninitializedTransfer)));
}
