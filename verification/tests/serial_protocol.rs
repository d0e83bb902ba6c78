use v5_core::connection::serial::{find_ports, SerialPortInfo};
use v5_core::serial::system::packet::{
    decode_response, direct_answers_request, frame_of, DirectHeaderSearch, Packet, PacketId,
};
use v5_core::serial::system::{
    complete_file_transfer_request, get_system_version_request, initialize_file_transfer_request,
    manage_competition_request, parse_file_metadata, parse_file_metadata_by_index,
    parse_system_status, parse_system_version, parse_upload_meta, text_field, CompetitionStatus,
    FileType, KernelVariable, Product, TransferDirection, TransferTarget, UploadAction, Version,
    Vid,
};
use v5_core::serial::{choose_port, find_port, open_robot_connection, port_listed, PortType};

fn xmodem(bytes: &[u8]) -> u16 {
    crc::Crc::<u16>::new(&crc::CRC_16_XMODEM).checksum(bytes)
}

fn sealed(body: &[u8]) -> Vec<u8> {
    let mut v = body.to_vec();
    let crc = xmodem(body);
    v.push((crc >> 8) as u8);
    v.push((crc & 0xff) as u8);
    v
}

#[test]
fn request_frame_has_header_length_and_crc() {
    let frame = frame_of(PacketId::GetDirectoryCount, &[1, 0]);
    assert_eq!(frame, sealed(&[0xC9, 0x36, 0xB8, 0x47, 0x56, 0x16, 2, 1, 0]));
    assert_eq!(xmodem(&frame), 0);
}

#[test]
fn long_request_has_two_length_bytes() {
    let content = vec![9u8; 0x90];
    let frame = frame_of(PacketId::FileTransferWrite, &content);
    assert_eq!(frame[6], 0x80);
    assert_eq!(frame[7], 0x90);
    assert_eq!(frame.len(), 8 + 0x90 + 2);
}

#[test]
fn content_of_0x80_bytes_loses_its_first_byte_to_the_length() {
    let content = vec![9u8; 0x80];
    let frame = frame_of(PacketId::FileTransferWrite, &content);
    assert_eq!(frame.len(), 7 + 0x80 + 2);
    assert_eq!(frame[6], 0x80);
    assert_eq!(frame[7], 0x80);
    assert_eq!(frame[8], 9);
}

#[test]
fn packet_writer_pads_strings() {
    let mut p = Packet::create(PacketId::ExecuteProgram, 26);
    p.write_u8(1);
    p.write_u8(0);
    p.write_padded_str("slot_1.bin", 24);
    let frame = p.finish();
    let mut body = vec![0xC9, 0x36, 0xB8, 0x47, 0x56, 0x18, 26, 1, 0];
    body.extend_from_slice(b"slot_1.bin");
    body.extend_from_slice(&[0u8; 14]);
    assert_eq!(frame, sealed(&body));
}

#[test]
fn competition_request_is_state_and_four_zeros() {
    let frame = manage_competition_request(CompetitionStatus::Autonomous);
    assert_eq!(frame, sealed(&[0xC9, 0x36, 0xB8, 0x47, 0x56, 0xC1, 5, 10, 0, 0, 0, 0]));
    assert_eq!(complete_file_transfer_request(UploadAction::RunScreen)[7], 3);
}

#[test]
fn system_version_request_is_bare() {
    assert_eq!(get_system_version_request(), vec![0xC9, 0x36, 0xB8, 0x47, 0xA4]);
}

#[test]
fn transfer_request_carries_brain_time() {
    let frame = initialize_file_transfer_request(
        TransferDirection::Upload,
        TransferTarget::Flash,
        Vid::User,
        true,
        100,
        0x0780_0000,
        0xAABBCCDD,
        4,
        FileType::Bin,
        "slot_1.bin",
        946_684_800 + 60,
    );
    assert_eq!(frame.len(), 7 + 52 + 2);
    assert_eq!(&frame[7..11], &[1, 1, 1, 1]);
    assert_eq!(&frame[11..15], &100u32.to_le_bytes());
    assert_eq!(&frame[23..27], b"bin\0");
    assert_eq!(&frame[27..31], &60u32.to_le_bytes());
    assert_eq!(&frame[35..45], b"slot_1.bin");
}

fn response(sent: u8, content: &[u8]) -> Vec<u8> {
    let mut payload = vec![0xAA, 0x55, 0x56, (content.len() + 4) as u8, sent, 0x76];
    payload.extend_from_slice(content);
    let crc = xmodem(&payload);
    payload.push((crc >> 8) as u8);
    payload.push((crc & 0xff) as u8);
    payload
}

#[test]
fn response_data_lies_between_ack_and_crc() {
    let payload = response(0x16, &[3, 0]);
    assert!(direct_answers_request(0x16, &payload));
    match decode_response(0x16, payload) {
        Ok(r) => {
            assert_eq!(r.get_command(), 0x56);
            assert_eq!(r.get_data(), &[3, 0]);
            assert_eq!(r.get_full_payload().len(), 10);
        }
        _ => panic!("response refused"),
    }
}

#[test]
fn response_for_another_command_is_refused() {
    assert!(!direct_answers_request(0x17, &response(0x16, &[3, 0])));
    let mut bad = response(0x16, &[3, 0]);
    bad[6] ^= 0xFF;
    assert!(!direct_answers_request(0x16, &bad));
}

#[test]
fn parses_version_status_and_transfer_answers() {
    let v = parse_system_version(&[0, 0, 0, 0, 1, 2, 3, 4, 5, 0x11, 0b10, 0]).unwrap_or_else(|_| panic!());
    assert_eq!(v.get_version(), "1.2.3-4.5");
    assert!(v.is_brain_available());
    assert_eq!(v.get_product().get_name(), "Controller (Connected)");
    assert!(parse_system_version(&[0, 0, 0, 0, 1, 2, 3, 4, 5, 0x12, 0, 0]).is_err());
    let s = parse_system_status(&[1, 2, 3, 4, 5, 6, 7, 8, 9, 10, 11, 12, 13, 14]);
    assert_eq!(s.get_cpu1_version().to_display_string(), "9.10.11-12");
    assert_eq!(s.get_touch_version(), 13);
    assert_eq!(s.get_system_id(), 14);
    let m = parse_upload_meta(&[0x00, 0x10, 1, 0, 0, 0, 2, 0, 0, 0]);
    assert_eq!((m.max_packet_size, m.file_size, m.crc), (0x1000, 1, 2));
    assert_eq!(Version::new(1, 2, 3, 4).to_display_string(), "1.2.3-4");
}

#[test]
fn parses_file_metadata() {
    let mut p = vec![24u8];
    p.extend_from_slice(&10u32.to_le_bytes());
    p.extend_from_slice(&20u32.to_le_bytes());
    p.extend_from_slice(&30u32.to_le_bytes());
    p.extend_from_slice(&[0, 0]);
    p.extend_from_slice(b"bin\0");
    p.extend_from_slice(&5u32.to_le_bytes());
    p.extend_from_slice(&[0, 0, 0, 0]);
    p.extend_from_slice(b"name\0\0");
    let m = parse_file_metadata(&p).unwrap();
    assert_eq!(m.vid, Vid::Pros);
    assert_eq!((m.size, m.addr, m.crc), (10, 20, 30));
    assert_eq!(m.file_type, "bin");
    assert_eq!(m.timestamp, 946_684_805);
    assert_eq!(m.name, "name");

    let mut q = vec![2u8];
    q.extend_from_slice(&1u32.to_le_bytes());
    q.extend_from_slice(&2u32.to_le_bytes());
    q.extend_from_slice(&3u32.to_le_bytes());
    q.extend_from_slice(b"ini\0");
    q.extend_from_slice(&0u32.to_le_bytes());
    q.extend_from_slice(&77u32.to_le_bytes());
    let mut name = b"slot_1.ini".to_vec();
    name.resize(24, 0);
    q.extend_from_slice(&name);
    let m2 = parse_file_metadata_by_index(&q).unwrap();
    assert_eq!(m2.index, 2);
    assert_eq!(m2.version, "77");
    assert_eq!(m2.name, "slot_1.ini");
    assert_eq!(m2.timestamp, 946_684_800);
    assert!(m2.to_display_string().ends_with("Timestamp: 2000-01-01T00:00:00Z"));
    assert!(text_field(&[0xFF, 0]).is_none());
}

#[test]
fn enum_ids_and_names() {
    assert_eq!(Vid::from(27u8), Vid::V5Cli);
    assert_eq!(Vid::from(99u8).get_id(), 99);
    assert_eq!(Vid::from_id(24), Vid::Pros);
    assert_eq!(Vid::Pros.to_display_string(), "pros (24)");
    assert_eq!(KernelVariable::try_from(16u8), Ok(KernelVariable::RobotName));
    assert!(KernelVariable::try_from(8u8).is_err());
    assert_eq!(KernelVariable::try_from_name("TEAM_NUMBER"), Ok(KernelVariable::TeamNumber));
    assert_eq!(KernelVariable::RobotName.get_max_len(), 16);
    assert_eq!(CompetitionStatus::try_from(8u8), Ok(CompetitionStatus::OpControl));
    assert_eq!(FileType::try_from_name("INI"), Ok(FileType::Ini));
    assert_eq!(FileType::from_name("bin"), FileType::Bin);
    assert_eq!(UploadAction::try_from_name("Screen"), Ok(UploadAction::RunScreen));
    assert_eq!(UploadAction::default(), UploadAction::Nothing);
    assert_eq!(Product::parse(0x10, 0), Ok(Product::Brain));
    assert_eq!(Product::Brain.get_id(), 0x10);
    assert_eq!(PacketId::ManageCompetition.id(), 0xC1);
}

fn port(name: &str, product: Option<&str>) -> SerialPortInfo {
    SerialPortInfo {
        port_name: name.to_string(),
        is_usb: true,
        vid: 0x2888,
        pid: 0x0501,
        product: product.map(|p| p.to_string()),
    }
}

#[test]
fn ports_are_matched_by_product_name() {
    assert!(PortType::User.match_name("VEX V5 User Port"));
    assert!(PortType::System.match_name("VEX V5 Communications Port"));
    assert!(!PortType::Controller.match_name("controller"));
    let ports = vec![port("a", Some("V5 System Port")), port("b", Some("V5 User Port"))];
    assert_eq!(find_port(&ports, PortType::User).as_deref(), Some("b"));
    assert_eq!(find_port(&ports, PortType::Controller), None);
    let unnamed = vec![port("c", None)];
    assert_eq!(find_port(&unnamed, PortType::Controller).as_deref(), Some("c"));
    assert_eq!(choose_port(Some("z".to_string()), &ports, PortType::User).as_deref(), Some("z"));
    assert_eq!(open_robot_connection(None, &ports).as_deref(), Some("b"));
    assert!(port_listed(&ports[0], &None));
    assert!(!port_listed(&ports[0], &Some(PortType::User)));
    assert_eq!(
        find_ports(&ports),
        Some(("a".to_string(), "b".to_string()))
    );
}

#[test]
fn checked_response_data_is_the_data() {
    match decode_response(0x16, response(0x16, &[3, 0])) {
        Ok(r) => assert_eq!(r.try_get_data(), Some(&[3u8, 0][..])),
        _ => panic!("response refused"),
    }
}

#[test]
fn direct_header_search_drops_the_byte_after_a_lone_first() {
    let mut search = DirectHeaderSearch::new();
    assert!(!search.step(0x00));
    assert!(!search.step(0xAA));
    assert!(!search.step(0xAA));
    assert!(!search.step(0x55));
    assert!(!search.step(0xAA));
    assert!(search.step(0x55));
}

#[test]
fn unrequested_port_is_the_first_user_port() {
    let ports = vec![
        port("/dev/a", Some("VEX V5 Brain - System")),
        port("/dev/b", Some("VEX V5 Brain - User")),
        port("/dev/c", None),
    ];
    assert_eq!(choose_port(None, &ports, PortType::User), Some("/dev/b".to_string()));
    assert_eq!(open_robot_connection(None, &ports), Some("/dev/b".to_string()));
    assert_eq!(choose_port(None, &ports, PortType::System), Some("/dev/a".to_string()));
}
