use rust_chat::client::{frame_creator, normalize_line, should_send, OutgoingFrame};
use rust_chat::frame::{frame_check, frame_checker, frame_is_complete, CheckerAction, Frame, FrameData, FrameType};

fn message_of(frame: &Frame) -> String {
    match &frame.data {
        FrameData::Message(m) => m.clone(),
        _ => panic!("not a message frame"),
    }
}

fn login_of(frame: &Frame) -> (String, String) {
    match &frame.data {
        FrameData::Login(l) => (l.login.clone(), l.password.clone()),
        _ => panic!("not a login frame"),
    }
}

#[test]
fn check_message_keeps_text() {
    let f = frame_check("message|hello there\n".to_string());
    assert_eq!(f.frame_type, FrameType::Message);
    assert_eq!(message_of(&f), "hello there\n");
}

#[test]
fn check_message_stops_at_bar() {
    let f = frame_check("message|a|b".to_string());
    assert_eq!(f.frame_type, FrameType::Message);
    assert_eq!(message_of(&f), "a");
}

#[test]
fn check_login_drops_line_feeds() {
    let f = frame_check("login|bob|se\ncret\n".to_string());
    assert_eq!(f.frame_type, FrameType::Login);
    assert_eq!(login_of(&f), ("bob".to_string(), "secret".to_string()));
}

#[test]
fn check_register_keeps_password() {
    let f = frame_check("register|bob|pw\n".to_string());
    assert_eq!(f.frame_type, FrameType::Register);
    assert_eq!(login_of(&f), ("bob".to_string(), "pw\n".to_string()));
}

#[test]
fn check_unknown_is_error() {
    let f = frame_check("hello".to_string());
    assert_eq!(f.frame_type, FrameType::Error);
    assert!(matches!(f.data, FrameData::Empty));
    let g = frame_check("".to_string());
    assert_eq!(g.frame_type, FrameType::Error);
}

#[test]
fn new_keeps_password_as_read() {
    let f = Frame::new("login|bob|pw\n".to_string());
    assert_eq!(f.frame_type, FrameType::Login);
    assert_eq!(login_of(&f), ("bob".to_string(), "pw\n".to_string()));
    let g = Frame::new("message|hi".to_string());
    assert_eq!(message_of(&g), "hi");
    let h = Frame::new("register|a|b".to_string());
    assert_eq!(h.frame_type, FrameType::Register);
    assert_eq!(login_of(&h), ("a".to_string(), "b".to_string()));
    let e = Frame::new("other|x".to_string());
    assert_eq!(e.frame_type, FrameType::Error);
}

#[test]
fn completeness_of_lines() {
    assert!(!frame_is_complete("message"));
    assert!(frame_is_complete("message|"));
    assert!(!frame_is_complete("login|bob"));
    assert!(frame_is_complete("login|bob|"));
    assert!(!frame_is_complete("register"));
    assert!(frame_is_complete("anything"));
    assert!(frame_is_complete(""));
}

#[test]
fn checker_actions() {
    match frame_checker("message$hello".to_string()) {
        CheckerAction::StoreMessage(m) => assert_eq!(m, "message"),
        other => panic!("unexpected {:?}", other),
    }
    assert!(matches!(frame_checker("login$bob$pw".to_string()), CheckerAction::ReadUsers));
    assert!(matches!(frame_checker("message|x".to_string()), CheckerAction::Ignore));
    assert!(matches!(frame_checker("".to_string()), CheckerAction::Ignore));
}

#[test]
fn creator_writes_frames() {
    assert_eq!(frame_creator(OutgoingFrame::Message("hi".to_string())), "message|hi");
    assert_eq!(
        frame_creator(OutgoingFrame::Login("bob".to_string(), "pw".to_string())),
        "login|bob|pw"
    );
    assert_eq!(frame_creator(OutgoingFrame::Message(String::new())), "message|");
}

#[test]
fn normalize_trims_and_closes() {
    assert_eq!(normalize_line("  hi there \r\n"), "hi there\n");
    assert_eq!(normalize_line("   "), "\n");
    assert_eq!(normalize_line(""), "\n");
    assert_eq!(normalize_line("\u{3000}x\u{a0}\u{2009}"), "x\n");
    assert_eq!(normalize_line("a|b"), "a|b\n");
}

#[test]
fn should_send_needs_text() {
    assert!(!should_send(""));
    assert!(!should_send(" \t\n"));
    assert!(should_send("  x\n"));
}

#[test]
fn law_message_roundtrip_example() {
    let line = frame_creator(OutgoingFrame::Message("good morning".to_string()));
    let f = frame_check(line.clone());
    assert_eq!(f.frame_type, FrameType::Message);
    assert_eq!(message_of(&f), "good morning");
    assert_eq!(message_of(&Frame::new(line)), "good morning");
}

#[test]
fn law_login_roundtrip_example() {
    let line = frame_creator(OutgoingFrame::Login("ann".to_string(), "p\nw".to_string()));
    assert_eq!(login_of(&frame_check(line.clone())), ("ann".to_string(), "pw".to_string()));
    assert_eq!(login_of(&Frame::new(line)), ("ann".to_string(), "p\nw".to_string()));
}

#[test]
fn law_normalize_idempotent_example() {
    for s in ["  a b  ", "", "\n\n", "x", " \u{85}y\r\n"] {
        let once = normalize_line(s);
        assert_eq!(normalize_line(&once), once);
    }
}

#[test]
fn law_client_frames_complete_example() {
    for f in [
        OutgoingFrame::Message(" ".to_string()),
        OutgoingFrame::Message("a|b".to_string()),
        OutgoingFrame::Login("".to_string(), "".to_string()),
        OutgoingFrame::Login("a|b".to_string(), "  ".to_string()),
    ] {
        let line = frame_creator(f);
        assert!(frame_is_complete(&line));
        let wire = normalize_line(&normalize_line(&line));
        assert!(frame_is_complete(&wire));
    }
}

#[test]
fn law_message_over_wire_example() {
    let line = frame_creator(OutgoingFrame::Message("see you  \t".to_string()));
    let wire = normalize_line(&normalize_line(&line));
    let f = frame_check(wire);
    assert_eq!(message_of(&f), "see you\n");
}

#[test]
fn law_login_over_wire_example() {
    let line = frame_creator(OutgoingFrame::Login("ann".to_string(), "se\ncret  ".to_string()));
    let wire = normalize_line(&normalize_line(&line));
    let f = frame_check(wire);
    assert_eq!(f.frame_type, FrameType::Login);
    assert_eq!(login_of(&f), ("ann".to_string(), "secret".to_string()));
}

#[test]
fn law_login_exact_example() {
    let line = frame_creator(OutgoingFrame::Login("ann".to_string(), "secret".to_string()));
    let wire = normalize_line(&normalize_line(&line));
    assert_eq!(login_of(&frame_check(wire)), ("ann".to_string(), "secret".to_string()));
}
