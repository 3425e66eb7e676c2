use rust_chat::gui::{ChatWindow, NamedChat, Screen, HISTORY_LIMIT};

#[test]
fn login_window_needs_both_fields() {
    let mut w = ChatWindow::default();
    assert_eq!(w.screen(), Screen::Login);
    w.login = "bob".to_string();
    w.confirm_login();
    assert_eq!(w.screen(), Screen::Login);
    w.password = "pw".to_string();
    w.confirm_login();
    assert_eq!(w.screen(), Screen::Chat);
    w.connection_error = true;
    assert_eq!(w.screen(), Screen::ConnectionError);
}

#[test]
fn send_moves_input_to_history() {
    let mut w = ChatWindow::default();
    w.message_input = "hello".to_string();
    let sent = w.send_input();
    assert_eq!(sent, "hello");
    assert_eq!(w.messages, vec!["hello\n"]);
    assert_eq!(w.message_input, "");
}

#[test]
fn history_drops_oldest_past_limit() {
    let mut w = ChatWindow::default();
    for i in 0..HISTORY_LIMIT {
        w.receive(format!("m{}", i));
    }
    w.trim_history();
    assert_eq!(w.messages.len(), HISTORY_LIMIT);
    w.receive("extra".to_string());
    w.trim_history();
    assert_eq!(w.messages.len(), HISTORY_LIMIT);
    assert_eq!(w.messages[0], "m1");
    assert_eq!(w.messages[HISTORY_LIMIT - 1], "extra");
}

#[test]
fn named_client_signs_and_sends_once() {
    let mut c = NamedChat::default();
    assert!(c.needs_name());
    c.confirm_name();
    assert!(c.needs_name());
    c.input_name_line = "ann".to_string();
    c.confirm_name();
    assert!(!c.needs_name());
    c.input = "hi".to_string();
    c.send();
    assert_eq!(c.messages, vec!["ann -- hi\n"]);
    assert_eq!(c.input, "");
    assert_eq!(c.take_outbox(), Some("ann -- hi\n".to_string()));
    assert_eq!(c.take_outbox(), None);
    c.receive("bob -- yo\n".to_string());
    assert_eq!(c.messages.len(), 2);
}

#[test]
fn law_window_flags_example() {
    let mut w = ChatWindow::default();
    w.login = "a".to_string();
    w.password = "b".to_string();
    w.confirm_login();
    assert!(!w.login_flag);
    w.login = String::new();
    w.confirm_login();
    w.message_input = "x".to_string();
    let _ = w.send_input();
    w.receive("y".to_string());
    w.trim_history();
    assert!(!w.login_flag);
    assert!(!w.connection_error);
    assert_eq!(w.screen(), Screen::Chat);
}

#[test]
fn law_outbox_once_example() {
    let mut c = NamedChat::default();
    c.input_name_line = "ann".to_string();
    c.confirm_name();
    c.input = "hi".to_string();
    c.send();
    c.receive("bob -- yo\n".to_string());
    c.confirm_name();
    let mut sent = Vec::new();
    for _ in 0..3 {
        if let Some(line) = c.take_outbox() {
            sent.push(line);
        }
    }
    assert_eq!(sent, vec!["ann -- hi\n".to_string()]);
    assert_eq!(c.outbox, "");
}
