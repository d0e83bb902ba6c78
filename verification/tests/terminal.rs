use v5_core::plugin::{CompetitionCommand, CompetitionPlugin, ManagePlugin};
use v5_core::brain::competition::CompetitionState;
use v5_core::terminal::{decode_terminal_frame, route_frame, Stream, TerminalEvent};

fn encode(data: &[u8]) -> Vec<u8> {
    let mut out = vec![0u8; corncobs::max_encoded_len(data.len())];
    let n = corncobs::encode_buf(data, &mut out);
    out.truncate(n);
    out
}

#[test]
fn tagged_frames_go_to_their_stream() {
    let mut buffer = [0u8; 256];
    let frame = encode(b"southello");
    assert_eq!(
        decode_terminal_frame(&frame, &mut buffer),
        Some(TerminalEvent::Write(Stream::Stdout, 4, 9))
    );
    assert_eq!(&buffer[4..9], b"hello");
    let frame = encode(b"serroops");
    assert_eq!(
        decode_terminal_frame(&frame, &mut buffer),
        Some(TerminalEvent::Write(Stream::Stderr, 4, 8))
    );
}

#[test]
fn untagged_frames_go_whole_to_stdout() {
    let mut buffer = [0u8; 256];
    let frame = encode(b"plain\0text");
    assert_eq!(
        decode_terminal_frame(&frame, &mut buffer),
        Some(TerminalEvent::Write(Stream::Stdout, 0, 10))
    );
    assert_eq!(&buffer[..10], b"plain\0text");
}

#[test]
fn unterminated_frame_waits_for_more() {
    let mut buffer = [0u8; 256];
    let frame = encode(b"soutabc");
    let cut = &frame[..frame.len() - 1];
    assert_eq!(decode_terminal_frame(cut, &mut buffer), Some(TerminalEvent::NeedMore));
}

#[test]
fn tag_without_text_cannot_be_written() {
    let buffer = *b"sout";
    assert_eq!(route_frame(&buffer, 2), None);
    assert_eq!(route_frame(&buffer, 4), Some(TerminalEvent::Write(Stream::Stdout, 4, 4)));
    assert_eq!(route_frame(b"abcd", 2), Some(TerminalEvent::Write(Stream::Stdout, 0, 2)));
}

#[test]
fn competition_commands() {
    assert_eq!(CompetitionCommand::from_name("autonomous"), Some(CompetitionCommand::Autonomous));
    assert_eq!(CompetitionCommand::from_name("start"), Some(CompetitionCommand::Start));
    assert_eq!(CompetitionCommand::from_name("pause"), None);
    assert_eq!(CompetitionCommand::Disable.state(), Some(CompetitionState::Disabled));
    assert_eq!(CompetitionCommand::Start.state(), None);
    assert_eq!(CompetitionCommand::OpControl.hold_millis(105000), 105000);
    assert_eq!(CompetitionCommand::Disable.hold_millis(105000), 0);
    assert_eq!(CompetitionPlugin {}.get_name(), "competition");
    assert_eq!(ManagePlugin::default().get_name(), "manage");
}
