//! Frames as the server reads them: a line of `|`-separated fields whose
//! first field names the kind of request.
use vstd::prelude::*;

use crate::text::{split_fields, split_on, texts, without_char, remove_char, lemma_split_nonempty};

verus! {

/// The kind of request a frame carries.
#[derive(Debug, Clone, Copy, PartialEq, Eq, Structural)]
pub enum FrameType {
    Message,
    Login,
    Register,
    Error,
}

/// A user name and password.
#[derive(Debug)]
pub struct Login {
    pub login: String,
    pub password: String,
}

/// What a frame carries.
#[derive(Debug)]
pub enum FrameData {
    Message(String),
    Login(Login),
    Empty,
}

/// A parsed request.
#[derive(Debug)]
pub struct Frame {
    pub frame_type: FrameType,
    pub data: FrameData,
}

/// The content of a frame, over character sequences.
pub enum FrameDataView {
    Message(Seq<char>),
    Login { login: Seq<char>, password: Seq<char> },
    Empty,
}

/// A frame, over character sequences.
pub struct FrameView {
    pub frame_type: FrameType,
    pub data: FrameDataView,
}

impl View for Frame {
    type V = FrameView;

    open spec fn view(&self) -> FrameView {
        FrameView {
            frame_type: self.frame_type,
            data: match self.data {
                FrameData::Message(m) => FrameDataView::Message(m@),
                FrameData::Login(l) => FrameDataView::Login { login: l.login@, password: l.password@ },
                FrameData::Empty => FrameDataView::Empty,
            },
        }
    }
}

/// The fields of a frame line.
pub open spec fn frame_fields(s: Seq<char>) -> Seq<Seq<char>> {
    split_fields(s, '|')
}

/// A line holds every field that its first field calls for: a message
/// needs a second field, a login or a registration a second and a third.
pub open spec fn frame_complete(s: Seq<char>) -> bool {
    let f = frame_fields(s);
    &&& f[0] == "message"@ ==> f.len() >= 2
    &&& (f[0] == "login"@ || f[0] == "register"@) ==> f.len() >= 3
}

/// The frame that the chat server reads from line `s`: a login's password
/// loses its line feeds, a registration's does not.
pub open spec fn checked_frame(s: Seq<char>) -> FrameView {
    let f = frame_fields(s);
    if f[0] == "message"@ {
        FrameView { frame_type: FrameType::Message, data: FrameDataView::Message(f[1]) }
    } else if f[0] == "login"@ {
        FrameView {
            frame_type: FrameType::Login,
            data: FrameDataView::Login { login: f[1], password: without_char(f[2], '\n') },
        }
    } else if f[0] == "register"@ {
        FrameView {
            frame_type: FrameType::Register,
            data: FrameDataView::Login { login: f[1], password: f[2] },
        }
    } else {
        FrameView { frame_type: FrameType::Error, data: FrameDataView::Empty }
    }
}

/// The frame that `Frame::new` reads from line `s`: fields taken as they stand.
pub open spec fn plain_frame(s: Seq<char>) -> FrameView {
    let f = frame_fields(s);
    if f[0] == "message"@ {
        FrameView { frame_type: FrameType::Message, data: FrameDataView::Message(f[1]) }
    } else if f[0] == "login"@ {
        FrameView {
            frame_type: FrameType::Login,
            data: FrameDataView::Login { login: f[1], password: f[2] },
        }
    } else if f[0] == "register"@ {
        FrameView {
            frame_type: FrameType::Register,
            data: FrameDataView::Login { login: f[1], password: f[2] },
        }
    } else {
        FrameView { frame_type: FrameType::Error, data: FrameDataView::Empty }
    }
}

/// Whether line `input` holds every field its first field calls for, so
/// that `frame_check` and `Frame::new` can read it.
pub fn frame_is_complete(input: &str) -> (b: bool)
    ensures
        b == frame_complete(input@),
{
    let f = split_on(input, '|');
    proof {
        lemma_split_nonempty(input@, '|');
        reveal_strlit("message");
        reveal_strlit("login");
        reveal_strlit("register");
    }
    assert(f@.len() == frame_fields(input@).len());
    assert(f@[0]@ == frame_fields(input@)[0]);
    let kind = f[0].clone();
    if kind == "message".to_owned() {
        f.len() >= 2
    } else if kind == "login".to_owned() || kind == "register".to_owned() {
        f.len() >= 3
    } else {
        true
    }
}

/// Reads a frame from a line received by the chat server.
pub fn frame_check(input: String) -> (frame: Frame)
    requires
        frame_complete(input@),
    ensures
        frame@ == checked_frame(input@),
{
    let f = split_on(input.as_str(), '|');
    proof {
        lemma_split_nonempty(input@, '|');
    }
    assert(texts(f@) == frame_fields(input@));
    assert(f@[0]@ == frame_fields(input@)[0]);
    let kind = f[0].clone();
    if kind == "message".to_owned() {
        assert(f@[1]@ == frame_fields(input@)[1]);
        Frame { frame_type: FrameType::Message, data: FrameData::Message(f[1].clone()) }
    } else if kind == "login".to_owned() {
        assert(f@[1]@ == frame_fields(input@)[1]);
        assert(f@[2]@ == frame_fields(input@)[2]);
        let password = remove_char(f[2].as_str(), '\n');
        Frame {
            frame_type: FrameType::Login,
            data: FrameData::Login(Login { login: f[1].clone(), password }),
        }
    } else if kind == "register".to_owned() {
        assert(f@[1]@ == frame_fields(input@)[1]);
        assert(f@[2]@ == frame_fields(input@)[2]);
        Frame {
            frame_type: FrameType::Register,
            data: FrameData::Login(Login { login: f[1].clone(), password: f[2].clone() }),
        }
    } else {
        Frame { frame_type: FrameType::Error, data: FrameData::Empty }
    }
}

impl Frame {
    /// Reads a frame from a line, taking every field as it stands.
    pub fn new(input: String) -> (frame: Frame)
        requires
            frame_complete(input@),
        ensures
            frame@ == plain_frame(input@),
    {
        let f = split_on(input.as_str(), '|');
        proof {
            lemma_split_nonempty(input@, '|');
        }
        assert(texts(f@) == frame_fields(input@));
        assert(f@[0]@ == frame_fields(input@)[0]);
        let kind = f[0].clone();
        if kind == "message".to_owned() {
            assert(f@[1]@ == frame_fields(input@)[1]);
            Frame { frame_type: FrameType::Message, data: FrameData::Message(f[1].clone()) }
        } else if kind == "login".to_owned() {
            assert(f@[1]@ == frame_fields(input@)[1]);
            assert(f@[2]@ == frame_fields(input@)[2]);
            Frame {
                frame_type: FrameType::Login,
                data: FrameData::Login(Login { login: f[1].clone(), password: f[2].clone() }),
            }
        } else if kind == "register".to_owned() {
            assert(f@[1]@ == frame_fields(input@)[1]);
            assert(f@[2]@ == frame_fields(input@)[2]);
            Frame {
                frame_type: FrameType::Register,
                data: FrameData::Login(Login { login: f[1].clone(), password: f[2].clone() }),
            }
        } else {
            Frame { frame_type: FrameType::Error, data: FrameData::Empty }
        }
    }
}

} // verus!

verus! {

/// What the `$`-frame handler does with a frame.
#[derive(Debug)]
pub enum CheckerAction {
    /// Append this text to the message history.
    StoreMessage(String),
    /// Read the user records.
    ReadUsers,
    /// Nothing.
    Ignore,
}

/// Reads a `$`-separated frame and says what to do with it: a `message`
/// frame stores its first field in the history, a `login` frame reads the
/// user records.
pub fn frame_checker(frame: String) -> (action: CheckerAction)
    ensures
        (action is StoreMessage) <==> split_fields(frame@, '$')[0] == "message"@,
        (action is ReadUsers) <==> split_fields(frame@, '$')[0] == "login"@,
        action matches CheckerAction::StoreMessage(m) ==> m@ == split_fields(frame@, '$')[0],
{
    let f = split_on(frame.as_str(), '$');
    proof {
        lemma_split_nonempty(frame@, '$');
        reveal_strlit("message");
        reveal_strlit("login");
    }
    assert(f@[0]@ == split_fields(frame@, '$')[0]);
    if f[0] == "message".to_owned() {
        CheckerAction::StoreMessage(f[0].clone())
    } else if f[0] == "login".to_owned() {
        CheckerAction::ReadUsers
    } else {
        CheckerAction::Ignore
    }
}

} // verus!
