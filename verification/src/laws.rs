//! Laws that tie what a client writes to what the server reads.
use vstd::prelude::*;

use crate::client::{created_frame, normalized, OutgoingFrame};
use crate::session::user_record;
use crate::text_laws::{is_plain_record, law_lines_of_records, record_text};
use crate::frame::{checked_frame, frame_complete, frame_fields, plain_frame, FrameDataView, FrameType, FrameView};
use crate::text::{
    lines_of,
    is_white_space, lemma_prefix_lacks, lemma_split_nonempty, lemma_split_prefix, lemma_split_single,
    lemma_split_two, lemma_trim_end_last, lemma_trim_end_prefix, lemma_trim_start_first,
    lemma_trim_start_kept, lemma_trimmed_after, lemma_without_absent, lemma_without_char_last,
    trim_end, trim_start, trimmed, without_char,
};

verus! {

/// The texts of the frame tags, character by character.
proof fn lemma_tags()
    ensures
        "message|"@ == "message"@ + seq!['|'],
        "login|"@ == "login"@ + seq!['|'],
        "|"@ == seq!['|'],
        !"message"@.contains('|'),
        !"login"@.contains('|'),
        "message"@ != "login"@,
        "message"@ != "register"@,
        "login"@ != "register"@,
        "message"@.len() > 0,
        "login"@.len() > 0,
        !is_white_space("message"@[0]),
        !is_white_space("login"@[0]),
{
    reveal_strlit("message|");
    reveal_strlit("message");
    reveal_strlit("login|");
    reveal_strlit("login");
    reveal_strlit("register");
    reveal_strlit("|");
    assert("message|"@ =~= "message"@ + seq!['|']);
    assert("login|"@ =~= "login"@ + seq!['|']);
    assert("|"@ =~= seq!['|']);
    assert("message"@.len() != "register"@.len());
    assert("login"@.len() != "register"@.len());
    assert("message"@.len() != "login"@.len());
}

/// The fields of a message frame line.
proof fn lemma_message_fields(d: Seq<char>)
    requires
        !d.contains('|'),
    ensures
        frame_fields("message|"@ + d) == seq!["message"@, d],
{
    lemma_tags();
    assert("message|"@ + d =~= "message"@ + seq!['|'] + d);
    lemma_split_prefix("message"@, d, '|');
    lemma_split_single(d, '|');
    assert(seq!["message"@] + seq![d] =~= seq!["message"@, d]);
}

/// The fields of a login frame line.
proof fn lemma_login_fields(l: Seq<char>, p: Seq<char>)
    requires
        !l.contains('|'),
        !p.contains('|'),
    ensures
        frame_fields("login|"@ + l + "|"@ + p) == seq!["login"@, l, p],
{
    lemma_tags();
    assert("login|"@ + l + "|"@ + p =~= "login"@ + seq!['|'] + (l + seq!['|'] + p));
    lemma_split_prefix("login"@, l + seq!['|'] + p, '|');
    lemma_split_prefix(l, p, '|');
    lemma_split_single(p, '|');
    assert(seq!["login"@] + (seq![l] + seq![p]) =~= seq!["login"@, l, p]);
}

/// Text ending in a line feed, with no `|` before it, has no `|`.
proof fn lemma_line_lacks_bar(t: Seq<char>)
    requires
        !t.contains('|'),
    ensures
        !(t + seq!['\n']).contains('|'),
{
    if (t + seq!['\n']).contains('|') {
        let j = choose|j: int| 0 <= j < (t + seq!['\n']).len() && (t + seq!['\n'])[j] == '|';
        if j < t.len() {
            assert(t[j] == '|');
        }
    }
}

/// A message frame whose text holds no `|` reads back as that message,
/// whether the server drops line feeds from passwords or not.
pub proof fn law_message_roundtrip(data: String)
    requires
        !data@.contains('|'),
    ensures
        checked_frame(created_frame(OutgoingFrame::Message(data))) == (FrameView {
            frame_type: FrameType::Message,
            data: FrameDataView::Message(data@),
        }),
        plain_frame(created_frame(OutgoingFrame::Message(data))) == (FrameView {
            frame_type: FrameType::Message,
            data: FrameDataView::Message(data@),
        }),
{
    lemma_tags();
    lemma_message_fields(data@);
}

/// A login frame whose name and password hold no `|` reads back as that
/// name and password; the chat server drops the password's line feeds.
pub proof fn law_login_roundtrip(login: String, password: String)
    requires
        !login@.contains('|'),
        !password@.contains('|'),
    ensures
        checked_frame(created_frame(OutgoingFrame::Login(login, password))) == (FrameView {
            frame_type: FrameType::Login,
            data: FrameDataView::Login { login: login@, password: without_char(password@, '\n') },
        }),
        plain_frame(created_frame(OutgoingFrame::Login(login, password))) == (FrameView {
            frame_type: FrameType::Login,
            data: FrameDataView::Login { login: login@, password: password@ },
        }),
{
    lemma_tags();
    lemma_login_fields(login@, password@);
}

/// Trimming and closing a line a second time changes nothing: the line
/// that a client sends is the line that the server reads.
pub proof fn law_normalize_idempotent(s: Seq<char>)
    ensures
        normalized(normalized(s)) == normalized(s),
{
    let u = trim_start(s);
    let t = trim_end(u);
    lemma_trim_end_prefix(u);
    lemma_trim_end_last(u);
    lemma_trim_start_first(s);
    if t.len() == 0 {
        assert((t + seq!['\n']).drop_first() =~= t);
        assert(trim_start(t + seq!['\n']) == trim_start(t));
    } else {
        assert(t[0] == u[0]);
        assert((t + seq!['\n'])[0] == t[0]);
        lemma_trim_start_kept(t + seq!['\n']);
        assert((t + seq!['\n']).drop_last() =~= t);
        assert(trim_end(t) == t);
    }
}

/// The line a client sends for a request, as the server reads it: the
/// client trims and closes the frame, the server does so again.
pub open spec fn wire_line(frame: OutgoingFrame) -> Seq<char> {
    normalized(normalized(created_frame(frame)))
}

/// The line on the wire for a message: the frame with the text's trailing
/// white space dropped and one line feed after it.
proof fn lemma_wire_message(data: String)
    ensures
        wire_line(OutgoingFrame::Message(data)) == "message|"@ + (trim_end(data@) + seq!['\n']),
{
    lemma_tags();
    let c = created_frame(OutgoingFrame::Message(data));
    law_normalize_idempotent(c);
    assert("message|"@ == "message"@ + seq!['|']);
    let a = "message|"@;
    assert(a.len() > 0 && a[0] == "message"@[0]);
    assert(a.last() == '|');
    lemma_trimmed_after(a, data@);
    assert(a + trim_end(data@) + seq!['\n'] =~= a + (trim_end(data@) + seq!['\n']));
}

/// The line on the wire for a login: the frame with the password's trailing
/// white space dropped and one line feed after it.
proof fn lemma_wire_login(login: String, password: String)
    ensures
        wire_line(OutgoingFrame::Login(login, password)) == "login|"@ + login@ + "|"@ + (trim_end(
            password@,
        ) + seq!['\n']),
{
    lemma_tags();
    let c = created_frame(OutgoingFrame::Login(login, password));
    law_normalize_idempotent(c);
    let a = "login|"@ + login@ + "|"@;
    assert(a[0] == "login"@[0]);
    assert(a.last() == '|');
    assert(c == a + password@);
    lemma_trimmed_after(a, password@);
    assert(a + trim_end(password@) + seq!['\n'] =~= a + (trim_end(password@) + seq!['\n']));
}

/// The server can read every frame that a client builds, as built and as
/// it arrives over the wire: `frame_check` and `Frame::new` accept it.
pub proof fn law_client_frames_complete(frame: OutgoingFrame)
    ensures
        frame_complete(created_frame(frame)),
        frame_complete(wire_line(frame)),
{
    lemma_tags();
    match frame {
        OutgoingFrame::Message(data) => {
            lemma_wire_message(data);
            let rest = trim_end(data@) + seq!['\n'];
            assert("message|"@ + data@ =~= "message"@ + seq!['|'] + data@);
            assert("message|"@ + rest =~= "message"@ + seq!['|'] + rest);
            lemma_split_prefix("message"@, data@, '|');
            lemma_split_prefix("message"@, rest, '|');
            lemma_split_nonempty(data@, '|');
            lemma_split_nonempty(rest, '|');
        },
        OutgoingFrame::Login(login, password) => {
            lemma_wire_login(login, password);
            let rest = trim_end(password@) + seq!['\n'];
            assert("login|"@ + login@ + "|"@ + password@ =~= "login"@ + seq!['|'] + (login@
                + seq!['|'] + password@));
            assert("login|"@ + login@ + "|"@ + rest =~= "login"@ + seq!['|'] + (login@ + seq!['|']
                + rest));
            lemma_split_prefix("login"@, login@ + seq!['|'] + password@, '|');
            lemma_split_prefix("login"@, login@ + seq!['|'] + rest, '|');
            lemma_split_two(login@, password@, '|');
            lemma_split_two(login@, rest, '|');
        },
    }
}

/// A message whose text holds no `|` reaches the server, over the wire, as
/// that text without its trailing white space and with one line feed.
pub proof fn law_message_over_wire(data: String)
    requires
        !data@.contains('|'),
    ensures
        checked_frame(wire_line(OutgoingFrame::Message(data))) == (FrameView {
            frame_type: FrameType::Message,
            data: FrameDataView::Message(trim_end(data@) + seq!['\n']),
        }),
{
    lemma_tags();
    lemma_wire_message(data);
    lemma_trim_end_prefix(data@);
    lemma_prefix_lacks(data@, trim_end(data@).len() as int, '|');
    lemma_line_lacks_bar(trim_end(data@));
    let rest = trim_end(data@) + seq!['\n'];
    assert("message|"@ + rest =~= "message"@ + seq!['|'] + rest);
    lemma_split_prefix("message"@, rest, '|');
    lemma_split_single(rest, '|');
}

/// A login whose name and password hold no `|` reaches the chat server,
/// over the wire, as that name and the password without its trailing white
/// space and without line feeds.
pub proof fn law_login_over_wire(login: String, password: String)
    requires
        !login@.contains('|'),
        !password@.contains('|'),
    ensures
        checked_frame(wire_line(OutgoingFrame::Login(login, password))) == (FrameView {
            frame_type: FrameType::Login,
            data: FrameDataView::Login {
                login: login@,
                password: without_char(trim_end(password@), '\n'),
            },
        }),
{
    lemma_tags();
    lemma_wire_login(login, password);
    lemma_trim_end_prefix(password@);
    lemma_prefix_lacks(password@, trim_end(password@).len() as int, '|');
    lemma_line_lacks_bar(trim_end(password@));
    let rest = trim_end(password@) + seq!['\n'];
    lemma_login_fields(login@, rest);
    lemma_without_char_last(trim_end(password@), '\n');
}

/// A user whose password holds no `|`, no line feed and no trailing white
/// space reaches the chat server with exactly the name and password typed,
/// so the login succeeds exactly when the records hold `name|password`.
pub proof fn law_login_exact(login: String, password: String)
    requires
        !login@.contains('|'),
        !password@.contains('|'),
        !password@.contains('\n'),
        trim_end(password@) == password@,
    ensures
        checked_frame(wire_line(OutgoingFrame::Login(login, password))) == (FrameView {
            frame_type: FrameType::Login,
            data: FrameDataView::Login { login: login@, password: password@ },
        }),
{
    law_login_over_wire(login, password);
    lemma_without_absent(password@, '\n');
}

/// The record that a login looks for is the whole name, one `|`, and the
/// whole password, character for character.
pub proof fn law_user_record(login: Seq<char>, password: Seq<char>)
    ensures
        user_record(login, password).len() == login.len() + 1 + password.len(),
        user_record(login, password).take(login.len() as int) == login,
        user_record(login, password)[login.len() as int] == '|',
        user_record(login, password).skip((login.len() + 1) as int) == password,
        user_record(login, password) == login + seq!['|'] + password,
{
    lemma_tags();
    assert(user_record(login, password).take(login.len() as int) =~= login);
    assert(user_record(login, password).skip((login.len() + 1) as int) =~= password);
    assert(user_record(login, password) =~= login + seq!['|'] + password);
}

/// With user records written one per line, a login finds its record exactly
/// when `name|password` is one of them.
pub proof fn law_login_records(records: Seq<Seq<char>>, login: Seq<char>, password: Seq<char>)
    requires
        forall|i: int| 0 <= i < records.len() ==> is_plain_record(#[trigger] records[i]),
    ensures
        lines_of(record_text(records)).contains(user_record(login, password)) <==> records.contains(
            login + seq!['|'] + password,
        ),
{
    law_lines_of_records(records);
    law_user_record(login, password);
}

/// A line is complete exactly when it has the fields that its first field
/// makes the server read: two for a message, three for a login or a
/// registration, one for anything else.
pub proof fn law_frame_complete(s: Seq<char>)
    ensures
        frame_fields(s)[0] == "message"@ ==> (frame_complete(s) <==> frame_fields(s).len() >= 2),
        frame_fields(s)[0] == "login"@ ==> (frame_complete(s) <==> frame_fields(s).len() >= 3),
        frame_fields(s)[0] == "register"@ ==> (frame_complete(s) <==> frame_fields(s).len() >= 3),
        frame_fields(s)[0] != "message"@ && frame_fields(s)[0] != "login"@ && frame_fields(s)[0]
            != "register"@ ==> frame_complete(s),
{
    lemma_tags();
}

/// A registration line `register|name|password` whose name and password
/// hold no `|` reads as a registration with that name and that password,
/// line feeds and all, through both readers.
pub proof fn law_register_fields(login: Seq<char>, password: Seq<char>)
    requires
        !login.contains('|'),
        !password.contains('|'),
    ensures
        checked_frame("register"@ + seq!['|'] + login + seq!['|'] + password) == (FrameView {
            frame_type: FrameType::Register,
            data: FrameDataView::Login { login, password },
        }),
        plain_frame("register"@ + seq!['|'] + login + seq!['|'] + password) == (FrameView {
            frame_type: FrameType::Register,
            data: FrameDataView::Login { login, password },
        }),
{
    lemma_tags();
    reveal_strlit("register");
    assert(!"register"@.contains('|'));
    let s = "register"@ + seq!['|'] + login + seq!['|'] + password;
    assert(s =~= "register"@ + seq!['|'] + (login + seq!['|'] + password));
    lemma_split_prefix("register"@, login + seq!['|'] + password, '|');
    lemma_split_prefix(login, password, '|');
    lemma_split_single(password, '|');
    assert(seq!["register"@] + (seq![login] + seq![password]) =~= seq!["register"@, login, password]);
}

/// A line whose first field is none of `message`, `login` and `register`
/// reads as an error frame with nothing in it, through both readers.
pub proof fn law_unknown_frame(s: Seq<char>)
    requires
        frame_fields(s)[0] != "message"@,
        frame_fields(s)[0] != "login"@,
        frame_fields(s)[0] != "register"@,
    ensures
        checked_frame(s) == (FrameView { frame_type: FrameType::Error, data: FrameDataView::Empty }),
        plain_frame(s) == (FrameView { frame_type: FrameType::Error, data: FrameDataView::Empty }),
{
}

/// A normalized line is the trimmed line and then one line feed.
pub proof fn law_normalized_shape(s: Seq<char>)
    ensures
        normalized(s).len() == trimmed(s).len() + 1,
        normalized(s).last() == '\n',
        normalized(s).drop_last() == trimmed(s),
{
    assert(normalized(s).drop_last() =~= trimmed(s));
}

} // verus!
