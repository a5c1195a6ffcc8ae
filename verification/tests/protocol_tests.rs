use chat_core::protocol::{parse_frame, Command};

fn b(s: &str) -> Vec<u8> {
    s.as_bytes().to_vec()
}

#[test]
fn commands_parse_to_their_variants() {
    assert!(matches!(parse_frame(b"/list"), Command::List));
    assert!(matches!(parse_frame(b"/history"), Command::History));
    assert!(matches!(parse_frame(b"/join lobby"), Command::Join(r) if r == b("lobby")));
    assert!(matches!(parse_frame(b"/name alice"), Command::Name(n) if n == b("alice")));
    assert!(matches!(parse_frame(b"/rm bob"), Command::Remove(t) if t == b("bob")));
}

#[test]
fn missing_arguments_are_detected() {
    assert!(matches!(parse_frame(b"/join"), Command::MissingRoomArg));
    assert!(matches!(parse_frame(b"/join   "), Command::MissingRoomArg));
    assert!(matches!(parse_frame(b"/name"), Command::MissingNameArg));
    assert!(matches!(parse_frame(b"/rm"), Command::MissingUserArg));
}

#[test]
fn surrounding_whitespace_is_trimmed() {
    assert!(matches!(parse_frame(b"  /join lobby \r\n"), Command::Join(r) if r == b("lobby")));
    assert!(matches!(parse_frame(b"\t hello \n"), Command::Message(m) if m == b("hello")));
}

#[test]
fn the_argument_is_everything_after_the_first_space() {
    assert!(matches!(parse_frame(b"/name alice the great"),
        Command::Name(n) if n == b("alice the great")));
    assert!(matches!(parse_frame(b"/join a  b"), Command::Join(r) if r == b("a  b")));
}

#[test]
fn a_command_name_must_match_exactly() {
    assert!(matches!(parse_frame(b"/listed"), Command::Unknown(t) if t == b("/listed")));
    assert!(matches!(parse_frame(b"/Join x"), Command::Unknown(t) if t == b("/Join x")));
    assert!(matches!(parse_frame(b"/"), Command::Unknown(t) if t == b("/")));
}

#[test]
fn plain_text_is_a_message_and_blank_frames_are_empty() {
    assert!(matches!(parse_frame(b"hello /join"), Command::Message(m) if m == b("hello /join")));
    assert!(matches!(parse_frame(b""), Command::Empty));
    assert!(matches!(parse_frame(b"   \t  "), Command::Empty));
}
