use rust_chat::frame::{frame_check, Login};
use rust_chat::session::{handle, login_reply, sandbox_login_replies, sandbox_step, server_step, Action, Event, Plan};

fn login(name: &str, password: &str) -> Login {
    Login { login: name.to_string(), password: password.to_string() }
}

#[test]
fn empty_read_closes() {
    let a = server_step("1.2.3.4:5", Event::LineRead { bytes: 0, line: String::new() });
    assert!(matches!(a, Action::Close));
    let b = sandbox_step("1.2.3.4:5", Event::LineRead { bytes: 0, line: "x".to_string() });
    assert!(matches!(b, Action::Close));
}

#[test]
fn line_is_normalized_by_chat_server() {
    match server_step("me", Event::LineRead { bytes: 19, line: "  message|hi  \r\n".to_string() }) {
        Action::Parse(l) => assert_eq!(l, "message|hi\n"),
        other => panic!("unexpected {:?}", other),
    }
}

#[test]
fn line_is_kept_by_sandbox_server() {
    match sandbox_step("me", Event::LineRead { bytes: 14, line: " message|hi\n".to_string() }) {
        Action::Parse(l) => assert_eq!(l, " message|hi\n"),
        other => panic!("unexpected {:?}", other),
    }
}

#[test]
fn own_broadcast_is_skipped() {
    let ev = Event::Broadcast { message: "hi\n".to_string(), sender: "me".to_string() };
    assert!(matches!(server_step("me", ev), Action::Skip));
    let ev = Event::Broadcast { message: "hi\n".to_string(), sender: "me".to_string() };
    assert!(matches!(sandbox_step("me", ev), Action::Skip));
}

#[test]
fn other_broadcast_is_forwarded() {
    let ev = Event::Broadcast { message: "hi\n".to_string(), sender: "you".to_string() };
    match server_step("me", ev) {
        Action::Forward(m) => assert_eq!(m, "hi\n"),
        other => panic!("unexpected {:?}", other),
    }
    let ev = Event::Broadcast { message: "yo".to_string(), sender: "you".to_string() };
    assert!(matches!(sandbox_step("me", ev), Action::Forward(_)));
}

#[test]
fn frames_are_planned() {
    match handle(frame_check("message|hello\n".to_string())) {
        Plan::Publish(m) => assert_eq!(m, "hello\n"),
        other => panic!("unexpected {:?}", other),
    }
    match handle(frame_check("login|bob|pw\n".to_string())) {
        Plan::CheckLogin(l) => {
            assert_eq!(l.login, "bob");
            assert_eq!(l.password, "pw");
        },
        other => panic!("unexpected {:?}", other),
    }
    assert!(matches!(handle(frame_check("register|a|b".to_string())), Plan::CheckLogin(_)));
    assert!(matches!(handle(frame_check("nonsense".to_string())), Plan::Report));
}

#[test]
fn login_reply_success_and_failure() {
    let users = "alice|1\r\nbob|2\n";
    assert_eq!(login_reply(users, &login("bob", "2")), "Login successful\n");
    assert_eq!(login_reply(users, &login("alice", "1")), "Login successful\n");
    assert_eq!(login_reply(users, &login("bob", "3")), "Login failed\n");
    assert_eq!(login_reply("", &login("", "")), "Login failed\n");
}

#[test]
fn sandbox_login_always_ends_failed() {
    let users = "bob2\nann7\n";
    assert_eq!(sandbox_login_replies(users, &login("bob", "2")), vec!["Successful login", "Login failed"]);
    assert_eq!(sandbox_login_replies(users, &login("bob", "3")), vec!["Login failed"]);
}

#[test]
fn chat_server_full_login_path() {
    let a = server_step("me", Event::LineRead { bytes: 12, line: "login|bob|2".to_string() });
    let line = match a {
        Action::Parse(l) => l,
        other => panic!("unexpected {:?}", other),
    };
    match handle(frame_check(line)) {
        Plan::CheckLogin(l) => assert_eq!(login_reply("bob|2\n", &l), "Login successful\n"),
        other => panic!("unexpected {:?}", other),
    }
}
