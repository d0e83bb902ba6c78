use v5_core::brain::competition::{set_competition_state_request, CompetitionState};
use v5_core::brain::filesystem::{
    complete_request, write_request, FileFlags, FileType, UploadAction, Vid,
};
use v5_core::error::ParseError;
use v5_core::brain::system::{
    convert_from_vex_timestamp, convert_to_vex_timestamp, get_kernel_variable_request,
    KernelVariable, Product,
};
use v5_core::connection::bluetooth::{
    characteristic_role, parse_pin, pin_accepted, pin_display_request, pin_required,
    select_characteristics, CharacteristicRole, CHARACTERISTIC_CODE, CHARACTERISTIC_RX_DATA,
    CHARACTERISTIC_TX_DATA,
};
use v5_core::connection::daemon::{
    daemon_message_bytes, next_session_action, resets_at_end_of_stream, session_command_allowed,
    system_response_message, DaemonCommand, SessionAction,
};
use v5_core::brain::filesystem::metadata_ready;
use v5_core::buffer::ReceivingBuffer;
use v5_core::packet::competition::ManageCompetition;
use v5_core::packet::encode_request;

fn xmodem(bytes: &[u8]) -> u16 {
    crc::Crc::<u16>::new(&crc::CRC_16_XMODEM).checksum(bytes)
}

#[test]
fn timestamps_count_from_2000() {
    assert_eq!(convert_to_vex_timestamp(946_684_800 + 5), 5);
    assert_eq!(convert_from_vex_timestamp(5), 946_684_805);
    assert_eq!(convert_from_vex_timestamp(convert_to_vex_timestamp(1_700_000_000)), 1_700_000_000);
}

#[test]
fn write_request_pads_to_four_bytes() {
    let frame = write_request(&[1, 2, 3, 4, 5], 0x100).finish();
    assert_eq!(frame[6], 12);
    assert_eq!(&frame[7..11], &0x100u32.to_le_bytes());
    assert_eq!(&frame[11..19], &[1, 2, 3, 4, 5, 0, 0, 0]);
    assert_eq!(xmodem(&frame), 0);
}

#[test]
fn complete_request_carries_action() {
    let frame = complete_request(UploadAction::Run).finish();
    assert_eq!(&frame[..8], &[0xC9, 0x36, 0xB8, 0x47, 0x56, 0x12, 1, 1]);
}

#[test]
fn kernel_variable_request_names_variable() {
    let frame = get_kernel_variable_request(KernelVariable::TeamNumber).finish();
    assert_eq!(&frame[7..17], b"teamnumber");
    assert_eq!(KernelVariable::RobotName.get_name(), "robotname");
}

#[test]
fn competition_request_matches_packet_value() {
    let direct = set_competition_state_request(CompetitionState::Autonomous, 0).finish();
    let value = encode_request(&ManageCompetition::new(CompetitionState::Autonomous));
    assert_eq!(direct, value);
}

#[test]
fn product_and_vendor_ids() {
    assert_eq!(Product::parse(0x11, 0b10), Ok(Product::Controller { has_robot: true }));
    assert!(Product::parse(0x20, 0).is_err());
    assert_eq!(Vid::Pros.id(), 24);
    assert_eq!(Vid::Custom(99).to_display_string(), "custom (99)");
    assert_eq!(FileFlags::from_bits_retain(3).bits(), 3);
}

#[test]
fn daemon_messages_carry_big_endian_lengths() {
    assert_eq!(daemon_message_bytes(DaemonCommand::SendUser, &[7, 8]), vec![1, 0, 2, 7, 8]);
    assert_eq!(system_response_message(&[1, 2, 3]), vec![0, 3, 1, 2, 3]);
    assert_eq!(next_session_action(false, 2), SessionAction::Claim);
    assert!(!session_command_allowed(true, 2));
    assert_eq!(next_session_action(true, 3), SessionAction::Release);
    assert!(!session_command_allowed(false, 3));
    assert_eq!(next_session_action(true, 0), SessionAction::ForwardSystem { keep_exclusive: true });
    assert!(!session_command_allowed(false, 9));
    assert!(!session_command_allowed(true, 5));
    assert!(session_command_allowed(false, 4) && session_command_allowed(true, 1));
    assert_eq!(next_session_action(false, 4), SessionAction::Reset);
}

#[test]
fn bluetooth_decisions() {
    assert!(pin_required(&[0xDE, 0xAD, 0xFA, 0xCE, 0]));
    assert!(!pin_required(&[0, 0, 0, 0]));
    assert_eq!(parse_pin("1234\n"), Ok([1, 2, 3, 4]));
    assert_eq!(parse_pin("12a4"), Err(()));
    assert_eq!(parse_pin("12"), Err(()));
    assert!(pin_accepted(&[1, 2, 3, 4], &[1, 2, 3, 4]));
    assert!(!pin_accepted(&[1, 2, 3, 4], &[1, 2, 3]));
    assert_eq!(pin_display_request(), [0xFF; 4]);
    assert_eq!(characteristic_role(CHARACTERISTIC_CODE), Some(CharacteristicRole::Code));
    let choice = select_characteristics(&vec![CHARACTERISTIC_TX_DATA, 5, CHARACTERISTIC_RX_DATA, CHARACTERISTIC_TX_DATA]);
    assert_eq!(choice.tx_data, Some(3));
    assert_eq!(choice.rx_data, Some(2));
    assert_eq!(choice.code, None);
}

#[test]
fn unknown_names_are_reported() {
    assert_eq!(FileType::try_from_name("BIN"), Ok(FileType::Bin));
    assert_eq!(FileType::try_from_name("exe"), Err(ParseError::InvalidName("exe".to_string())));
    assert_eq!(UploadAction::try_from_name("RUN"), Ok(UploadAction::Run));
    assert_eq!(UploadAction::try_from_name("stop"), Err(ParseError::InvalidName("stop".to_string())));
    assert_eq!(KernelVariable::try_from_name("robot_name"), Ok(KernelVariable::RobotName));
    assert_eq!(
        KernelVariable::try_from_name("Team"),
        Err(ParseError::InvalidName("Team".to_string()))
    );
    assert_eq!(FileType::Ini.get_name(), "ini");
}

#[test]
fn session_resets_only_when_it_ends_holding_the_claim() {
    assert!(resets_at_end_of_stream(true));
    assert!(!resets_at_end_of_stream(false));
}

#[test]
fn metadata_answer_is_ready_only_when_complete() {
    let mut answer = vec![1u8];
    answer.extend_from_slice(&[0; 12]);
    answer.extend_from_slice(b"bin\0");
    answer.extend_from_slice(&[0; 8]);
    answer.extend_from_slice(b"slot_1.bin\0");
    assert!(metadata_ready(&ReceivingBuffer::new(answer.clone(), 0)));
    let cut = answer[..answer.len() - 1].to_vec();
    assert!(!metadata_ready(&ReceivingBuffer::new(cut, 0)));
    assert!(!metadata_ready(&ReceivingBuffer::new(answer[..16].to_vec(), 0)));
}
