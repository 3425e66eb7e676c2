//! What a client puts on the wire: frames it builds and the line form in
//! which it sends them.
use vstd::prelude::*;

use crate::text::{trim, trimmed};

verus! {

/// A request that a client builds.
#[derive(Debug)]
pub enum OutgoingFrame {
    /// A chat message.
    Message(String),
    /// A login with user name and password.
    Login(String, String),
}

/// The text of a request: `message|<text>` or `login|<name>|<password>`.
pub open spec fn created_frame(frame: OutgoingFrame) -> Seq<char> {
    match frame {
        OutgoingFrame::Message(data) => "message|"@ + data@,
        OutgoingFrame::Login(login, password) => "login|"@ + login@ + "|"@ + password@,
    }
}

/// Writes a request as a frame line.
pub fn frame_creator(frame: OutgoingFrame) -> (s: String)
    ensures
        s@ == created_frame(frame),
{
    match frame {
        OutgoingFrame::Message(data) => {
            let mut s = "message|".to_owned();
            s.append(data.as_str());
            s
        },
        OutgoingFrame::Login(login, password) => {
            let mut s = "login|".to_owned();
            s.append(login.as_str());
            s.append("|");
            s.append(password.as_str());
            s
        },
    }
}

/// A line as it goes over the connection: trimmed, then closed by one line feed.
pub open spec fn normalized(s: Seq<char>) -> Seq<char> {
    trimmed(s) + seq!['\n']
}

/// Trims `line` and closes it with a line feed.
pub fn normalize_line(line: &str) -> (out: String)
    ensures
        out@ == normalized(line@),
{
    let mut out = trim(line);
    out.append("\n");
    proof {
        reveal_strlit("\n");
    }
    out
}

/// Whether `message` holds anything but white space, the test a client
/// makes before it sends a line.
pub fn should_send(message: &str) -> (b: bool)
    ensures
        b == (trimmed(message@).len() > 0),
{
    let t = trim(message);
    t.as_str().unicode_len() > 0
}

} // verus!
