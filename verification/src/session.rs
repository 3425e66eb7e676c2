//! The decisions that a chat server makes for one connection: what to do
//! with each thing that happens on it, with each frame, and how to answer
//! a login from the user records.
use vstd::prelude::*;

use crate::client::{normalize_line, normalized};
use crate::frame::{Frame, FrameData, Login};
use crate::text::{has_line, lines_of, texts};

verus! {

/// Something that happens on a connection.
#[derive(Debug)]
pub enum Event {
    /// The client's reader returned after reading `bytes` bytes into `line`.
    LineRead { bytes: usize, line: String },
    /// Connection `sender` broadcast `message` to all connections.
    Broadcast { message: String, sender: String },
}

/// What the connection does next.
#[derive(Debug)]
pub enum Action {
    /// The client has hung up: end the connection.
    Close,
    /// Read this line as a frame and handle it.
    Parse(String),
    /// Write this text to the client.
    Forward(String),
    /// Do nothing.
    Skip,
}

/// The chat server's step: a line read is trimmed and closed by a line
/// feed, an empty read ends the connection, and a broadcast is passed on
/// to the client unless it came from this connection (`own`).
pub fn server_step(own: &str, event: Event) -> (action: Action)
    ensures
        match event {
            Event::LineRead { bytes, line } => if bytes == 0 {
                action is Close
            } else {
                action matches Action::Parse(l) && l@ == normalized(line@)
            },
            Event::Broadcast { message, sender } => if sender@ == own@ {
                action is Skip
            } else {
                action matches Action::Forward(m) && m@ == message@
            },
        },
{
    match event {
        Event::LineRead { bytes, line } => {
            let l = normalize_line(line.as_str());
            if bytes == 0 {
                Action::Close
            } else {
                Action::Parse(l)
            }
        },
        Event::Broadcast { message, sender } => {
            if sender == own.to_owned() {
                Action::Skip
            } else {
                Action::Forward(message)
            }
        },
    }
}

/// The sandbox server's step: as `server_step`, but a line read is
/// handed on as it was read.
pub fn sandbox_step(own: &str, event: Event) -> (action: Action)
    ensures
        match event {
            Event::LineRead { bytes, line } => if bytes == 0 {
                action is Close
            } else {
                action matches Action::Parse(l) && l@ == line@
            },
            Event::Broadcast { message, sender } => if sender@ == own@ {
                action is Skip
            } else {
                action matches Action::Forward(m) && m@ == message@
            },
        },
{
    match event {
        Event::LineRead { bytes, line } => {
            if bytes == 0 {
                Action::Close
            } else {
                Action::Parse(line)
            }
        },
        Event::Broadcast { message, sender } => {
            if sender == own.to_owned() {
                Action::Skip
            } else {
                Action::Forward(message)
            }
        },
    }
}

/// What to do with a frame.
#[derive(Debug)]
pub enum Plan {
    /// Broadcast this message to the other connections and append it to the history.
    Publish(String),
    /// Answer this login from the user records.
    CheckLogin(Login),
    /// The frame was not understood.
    Report,
}

/// Decides what to do with a frame: a message is published, a login or a
/// registration is checked against the user records, anything else is reported.
pub fn handle(frame: Frame) -> (plan: Plan)
    ensures
        match frame.data {
            FrameData::Message(m) => plan matches Plan::Publish(p) && p@ == m@,
            FrameData::Login(l) => plan matches Plan::CheckLogin(c) && c.login@ == l.login@
                && c.password@ == l.password@,
            FrameData::Empty => plan is Report,
        },
{
    match frame.data {
        FrameData::Message(m) => Plan::Publish(m),
        FrameData::Login(l) => Plan::CheckLogin(l),
        FrameData::Empty => Plan::Report,
    }
}

/// The user record that a login must find: name, `|`, password.
pub open spec fn user_record(login: Seq<char>, password: Seq<char>) -> Seq<char> {
    login + "|"@ + password
}

/// The chat server's answer to a login: `Login successful` when some line
/// of the user records is the user's record, `Login failed` otherwise, each
/// closed by a line feed.
pub fn login_reply(users: &str, login: &Login) -> (reply: String)
    ensures
        reply@ == if lines_of(users@).contains(user_record(login.login@, login.password@)) {
            "Login successful\n"@
        } else {
            "Login failed\n"@
        },
{
    let mut record = login.login.clone();
    record.append("|");
    record.append(login.password.as_str());
    if has_line(users, record.as_str()) {
        "Login successful\n".to_owned()
    } else {
        "Login failed\n".to_owned()
    }
}

/// The sandbox server's answers to a login, in the order it writes
/// them: `Successful login` when some line of the records is the name
/// directly followed by the password, and then `Login failed` in every case.
pub fn sandbox_login_replies(users: &str, login: &Login) -> (replies: Vec<String>)
    ensures
        texts(replies@) == if lines_of(users@).contains(login.login@ + login.password@) {
            seq!["Successful login"@, "Login failed"@]
        } else {
            seq!["Login failed"@]
        },
{
    let mut record = login.login.clone();
    record.append(login.password.as_str());
    let mut replies: Vec<String> = Vec::new();
    if has_line(users, record.as_str()) {
        replies.push("Successful login".to_owned());
    }
    replies.push("Login failed".to_owned());
    assert(texts(replies@) =~= if lines_of(users@).contains(login.login@ + login.password@) {
        seq!["Successful login"@, "Login failed"@]
    } else {
        seq!["Login failed"@]
    });
    replies
}

} // verus!
