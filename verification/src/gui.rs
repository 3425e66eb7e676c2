//! The state of the two windowed chat clients and the changes that their
//! controls make to it; drawing, channels and sockets stay outside.
use vstd::prelude::*;

use crate::text::texts;

verus! {

/// How many messages the login client keeps once it trims its history.
pub const HISTORY_LIMIT: usize = 10;

/// Which window the login client shows.
#[derive(Debug, Clone, Copy, PartialEq, Eq, Structural)]
pub enum Screen {
    Login,
    ConnectionError,
    Chat,
}

/// The login client's state, over character sequences.
#[verifier::ext_equal]
pub struct WindowView {
    pub login: Seq<char>,
    pub password: Seq<char>,
    pub message_input: Seq<char>,
    pub messages: Seq<Seq<char>>,
    pub login_flag: bool,
    pub connection_error: bool,
}

/// A change that the login client's controls or its connection make.
pub enum WindowEvent {
    /// The `Ok` button of the login window.
    ConfirmLogin,
    /// The `Send` button or Enter.
    SendInput,
    /// The history trim after the input row.
    TrimHistory,
    /// A line received from the server.
    Receive(Seq<char>),
}

/// The login client as it starts: empty fields, the login window up, no
/// connection error.
pub open spec fn initial_window() -> WindowView {
    WindowView {
        login: Seq::empty(),
        password: Seq::empty(),
        message_input: Seq::empty(),
        messages: Seq::empty(),
        login_flag: true,
        connection_error: false,
    }
}

/// The state after one event.
pub open spec fn window_step(w: WindowView, e: WindowEvent) -> WindowView {
    match e {
        WindowEvent::ConfirmLogin => WindowView {
            login_flag: w.login_flag && (w.login.len() == 0 || w.password.len() == 0),
            ..w
        },
        WindowEvent::SendInput => WindowView {
            message_input: Seq::empty(),
            messages: w.messages.push(w.message_input + "\n"@),
            ..w
        },
        WindowEvent::TrimHistory => WindowView {
            messages: if w.messages.len() > HISTORY_LIMIT {
                w.messages.remove(0)
            } else {
                w.messages
            },
            ..w
        },
        WindowEvent::Receive(d) => WindowView { messages: w.messages.push(d), ..w },
    }
}

/// The state after a sequence of events, applied in order.
pub open spec fn window_run(w: WindowView, events: Seq<WindowEvent>) -> WindowView
    decreases events.len(),
{
    if events.len() == 0 {
        w
    } else {
        window_step(window_run(w, events.drop_last()), events.last())
    }
}

/// The login client: a login window, then a chat window with a short history.
#[derive(Debug)]
pub struct ChatWindow {
    pub login: String,
    pub password: String,
    pub message_input: String,
    pub messages: Vec<String>,
    pub login_flag: bool,
    pub connection_error: bool,
}

impl View for ChatWindow {
    type V = WindowView;

    open spec fn view(&self) -> WindowView {
        WindowView {
            login: self.login@,
            password: self.password@,
            message_input: self.message_input@,
            messages: texts(self.messages@),
            login_flag: self.login_flag,
            connection_error: self.connection_error,
        }
    }
}

impl Default for ChatWindow {
    /// Empty fields, the login window up, no connection error.
    fn default() -> (w: Self)
        ensures
            w@ == initial_window(),
    {
        let w = ChatWindow {
            login: String::new(),
            password: String::new(),
            message_input: String::new(),
            messages: Vec::new(),
            login_flag: true,
            connection_error: false,
        };
        assert(w@ =~= initial_window());
        w
    }
}

impl ChatWindow {
    /// The window on show: the login window until a login is confirmed,
    /// then the error window if the connection failed, else the chat.
    pub fn screen(&self) -> (s: Screen)
        ensures
            s == if self.login_flag {
                Screen::Login
            } else if self.connection_error {
                Screen::ConnectionError
            } else {
                Screen::Chat
            },
    {
        if self.login_flag {
            Screen::Login
        } else if self.connection_error {
            Screen::ConnectionError
        } else {
            Screen::Chat
        }
    }

    /// The `Ok` button of the login window: leaves it once both a name and
    /// a password have been typed.
    pub fn confirm_login(&mut self)
        ensures
            final(self)@ == window_step(old(self)@, WindowEvent::ConfirmLogin),
    {
        if self.login.as_str().unicode_len() > 0 && self.password.as_str().unicode_len() > 0 {
            self.login_flag = false;
        }
    }

    /// The `Send` button, or Enter: hands back the typed text for the
    /// connection, adds it with a line feed to the history and empties the input.
    pub fn send_input(&mut self) -> (sent: String)
        ensures
            sent@ == old(self).message_input@,
            final(self)@ == window_step(old(self)@, WindowEvent::SendInput),
    {
        let sent = self.message_input.clone();
        let mut shown = self.message_input.clone();
        shown.append("\n");
        let ghost before = texts(self.messages@);
        self.messages.push(shown);
        assert(texts(self.messages@) =~= before.push(old(self).message_input@ + "\n"@));
        self.message_input = String::new();
        assert(self@ =~= window_step(old(self)@, WindowEvent::SendInput));
        sent
    }

    /// Drops the oldest message when the history holds more than `HISTORY_LIMIT`.
    pub fn trim_history(&mut self)
        ensures
            final(self)@ == window_step(old(self)@, WindowEvent::TrimHistory),
    {
        if self.messages.len() > HISTORY_LIMIT {
            self.messages.remove(0);
            assert(texts(self.messages@) =~= texts(old(self).messages@).remove(0));
        }
        assert(self@ =~= window_step(old(self)@, WindowEvent::TrimHistory));
    }

    /// A line received from the server joins the history.
    pub fn receive(&mut self, data: String)
        ensures
            final(self)@ == window_step(old(self)@, WindowEvent::Receive(data@)),
    {
        let ghost d = data@;
        self.messages.push(data);
        assert(texts(self.messages@) =~= texts(old(self).messages@).push(d));
        assert(self@ =~= window_step(old(self)@, WindowEvent::Receive(d)));
    }
}

/// The named client's state, over character sequences.
#[verifier::ext_equal]
pub struct NamedView {
    pub input: Seq<char>,
    pub messages: Seq<Seq<char>>,
    pub outbox: Seq<char>,
    pub name: Seq<char>,
    pub input_name_line: Seq<char>,
}

/// A change that the named client's controls, its sender or its
/// connection make.
pub enum NamedEvent {
    /// The `Ok` button of the name window.
    ConfirmName,
    /// The `Send` button.
    Send,
    /// The sender's periodic look at the outbox.
    TakeOutbox,
    /// A line received from the server.
    Receive(Seq<char>),
}

/// The line the named client sends for `text`.
pub open spec fn signed_line(name: Seq<char>, text: Seq<char>) -> Seq<char> {
    name + " -- "@ + text + "\n"@
}

/// The named client as it starts: everything empty.
pub open spec fn initial_named() -> NamedView {
    NamedView {
        input: Seq::empty(),
        messages: Seq::empty(),
        outbox: Seq::empty(),
        name: Seq::empty(),
        input_name_line: Seq::empty(),
    }
}

/// The state after one event.
pub open spec fn named_step(c: NamedView, e: NamedEvent) -> NamedView {
    match e {
        NamedEvent::ConfirmName => NamedView { name: c.input_name_line, ..c },
        NamedEvent::Send => NamedView {
            input: Seq::empty(),
            messages: c.messages.push(signed_line(c.name, c.input)),
            outbox: signed_line(c.name, c.input),
            ..c
        },
        NamedEvent::TakeOutbox => NamedView { outbox: Seq::empty(), ..c },
        NamedEvent::Receive(line) => NamedView { messages: c.messages.push(line), ..c },
    }
}

/// The line that an event hands to the connection: the outbox's line, when
/// the sender finds one there.
pub open spec fn named_output(c: NamedView, e: NamedEvent) -> Option<Seq<char>> {
    match e {
        NamedEvent::TakeOutbox => if c.outbox.len() > 0 {
            Some(c.outbox)
        } else {
            None
        },
        _ => None,
    }
}

/// The state after a sequence of events, applied in order.
pub open spec fn named_run(c: NamedView, events: Seq<NamedEvent>) -> NamedView
    decreases events.len(),
{
    if events.len() == 0 {
        c
    } else {
        named_step(named_run(c, events.drop_last()), events.last())
    }
}

/// The lines handed to the connection over a sequence of events, in order.
pub open spec fn named_sent(c: NamedView, events: Seq<NamedEvent>) -> Seq<Seq<char>>
    decreases events.len(),
{
    if events.len() == 0 {
        Seq::empty()
    } else {
        let before = named_sent(c, events.drop_last());
        match named_output(named_run(c, events.drop_last()), events.last()) {
            Some(line) => before.push(line),
            None => before,
        }
    }
}

/// The named client: asks for a name, then sends each line as
/// `<name> -- <text>` through a one-line outbox.
#[derive(Debug)]
pub struct NamedChat {
    pub input: String,
    pub messages: Vec<String>,
    pub outbox: String,
    pub name: String,
    pub input_name_line: String,
}

impl View for NamedChat {
    type V = NamedView;

    open spec fn view(&self) -> NamedView {
        NamedView {
            input: self.input@,
            messages: texts(self.messages@),
            outbox: self.outbox@,
            name: self.name@,
            input_name_line: self.input_name_line@,
        }
    }
}

impl Default for NamedChat {
    /// Everything empty.
    fn default() -> (c: Self)
        ensures
            c@ == initial_named(),
    {
        let c = NamedChat {
            input: String::new(),
            messages: Vec::new(),
            outbox: String::new(),
            name: String::new(),
            input_name_line: String::new(),
        };
        assert(c@ =~= initial_named());
        c
    }
}

impl NamedChat {
    /// Whether the name window is on show: no name has been set yet.
    pub fn needs_name(&self) -> (b: bool)
        ensures
            b == (self.name@.len() == 0),
    {
        self.name.as_str().unicode_len() == 0
    }

    /// The `Ok` button of the name window: takes the typed name, empty or not.
    pub fn confirm_name(&mut self)
        ensures
            final(self)@ == named_step(old(self)@, NamedEvent::ConfirmName),
    {
        self.name = self.input_name_line.clone();
        assert(self@ =~= named_step(old(self)@, NamedEvent::ConfirmName));
    }

    /// The `Send` button: signs the typed text with the name, shows it in
    /// the history, puts it in the outbox and empties the input.
    pub fn send(&mut self)
        ensures
            final(self)@ == named_step(old(self)@, NamedEvent::Send),
    {
        let mut line = self.name.clone();
        line.append(" -- ");
        line.append(self.input.as_str());
        line.append("\n");
        let ghost before = texts(self.messages@);
        self.messages.push(line.clone());
        assert(texts(self.messages@) =~= before.push(signed_line(old(self).name@, old(self).input@)));
        self.outbox = line;
        self.input = String::new();
        assert(self@ =~= named_step(old(self)@, NamedEvent::Send));
    }

    /// The sender's periodic look at the outbox: takes its line, if any,
    /// and leaves it empty.
    pub fn take_outbox(&mut self) -> (line: Option<String>)
        ensures
            final(self)@ == named_step(old(self)@, NamedEvent::TakeOutbox),
            match line {
                Some(l) => named_output(old(self)@, NamedEvent::TakeOutbox) == Some(l@),
                None => named_output(old(self)@, NamedEvent::TakeOutbox) is None,
            },
    {
        if self.outbox.as_str().unicode_len() > 0 {
            let line = self.outbox.clone();
            self.outbox = String::new();
            assert(self@ =~= named_step(old(self)@, NamedEvent::TakeOutbox));
            Some(line)
        } else {
            assert(self@ =~= named_step(old(self)@, NamedEvent::TakeOutbox));
            None
        }
    }

    /// A line received from the server joins the history.
    pub fn receive(&mut self, line: String)
        ensures
            final(self)@ == named_step(old(self)@, NamedEvent::Receive(line@)),
    {
        let ghost l = line@;
        self.messages.push(line);
        assert(texts(self.messages@) =~= texts(old(self).messages@).push(l));
        assert(self@ =~= named_step(old(self)@, NamedEvent::Receive(l)));
    }
}

/// No event of the login client sets the connection-error flag, and none
/// raises the login flag again once it is down.
pub proof fn law_window_flags(w: WindowView, events: Seq<WindowEvent>)
    ensures
        window_run(w, events).connection_error == w.connection_error,
        !w.login_flag ==> !window_run(w, events).login_flag,
    decreases events.len(),
{
    if events.len() > 0 {
        law_window_flags(w, events.drop_last());
    }
}

/// From its start, the login client never shows the connection-error
/// window, and once it has left the login window it shows the chat for good.
pub proof fn law_window_screens(events: Seq<WindowEvent>, more: Seq<WindowEvent>)
    ensures
        !window_run(initial_window(), events).connection_error,
        !window_run(initial_window(), events).login_flag ==> !window_run(
            window_run(initial_window(), events),
            more,
        ).login_flag && !window_run(window_run(initial_window(), events), more).connection_error,
{
    law_window_flags(initial_window(), events);
    law_window_flags(window_run(initial_window(), events), more);
}

/// After `Send`, and as long as nothing is sent again, the signed line goes
/// to the connection exactly once: at the first look at the outbox, and
/// never after.
pub proof fn law_outbox_once(c: NamedView, events: Seq<NamedEvent>)
    requires
        !events.contains(NamedEvent::Send),
    ensures
        named_sent(named_step(c, NamedEvent::Send), events) == if events.contains(
            NamedEvent::TakeOutbox,
        ) {
            seq![signed_line(c.name, c.input)]
        } else {
            Seq::<Seq<char>>::empty()
        },
        named_run(named_step(c, NamedEvent::Send), events).outbox == if events.contains(
            NamedEvent::TakeOutbox,
        ) {
            Seq::<char>::empty()
        } else {
            signed_line(c.name, c.input)
        },
    decreases events.len(),
{
    let start = named_step(c, NamedEvent::Send);
    let line = signed_line(c.name, c.input);
    assert(line.len() > 0) by {
        reveal_strlit(" -- ");
        assert(line.len() >= " -- "@.len());
    }
    if events.len() > 0 {
        let init = events.drop_last();
        assert(events =~= init.push(events.last()));
        assert(!init.contains(NamedEvent::Send)) by {
            if init.contains(NamedEvent::Send) {
                let j = choose|j: int| 0 <= j < init.len() && init[j] == NamedEvent::Send;
                assert(events[j] == NamedEvent::Send);
            }
        }
        law_outbox_once(c, init);
        assert(events.last() != NamedEvent::Send) by {
            assert(events[events.len() - 1] == events.last());
        }
        assert(events.contains(NamedEvent::TakeOutbox) == (init.contains(NamedEvent::TakeOutbox)
            || events.last() == NamedEvent::TakeOutbox)) by {
            if events.contains(NamedEvent::TakeOutbox) && !init.contains(NamedEvent::TakeOutbox) {
                let j = choose|j: int|
                    0 <= j < events.len() && events[j] == NamedEvent::TakeOutbox;
                if j < init.len() {
                    assert(init[j] == events[j]);
                }
            }
            if init.contains(NamedEvent::TakeOutbox) {
                let j = choose|j: int| 0 <= j < init.len() && init[j] == NamedEvent::TakeOutbox;
                assert(events[j] == init[j]);
            }
            if events.last() == NamedEvent::TakeOutbox {
                assert(events[events.len() - 1] == NamedEvent::TakeOutbox);
            }
        }
        if events.last() == NamedEvent::TakeOutbox && !init.contains(NamedEvent::TakeOutbox) {
            assert(Seq::<Seq<char>>::empty().push(line) =~= seq![line]);
        }
    } else {
        assert(!events.contains(NamedEvent::TakeOutbox));
    }
}

/// `old` is kept as the start of `new`, which has at most `extra` more lines.
pub open spec fn history_extends(old: Seq<Seq<char>>, new: Seq<Seq<char>>, extra: int) -> bool {
    &&& old.len() <= new.len() <= old.len() + extra
    &&& forall|k: int| 0 <= k < old.len() ==> new[k] == old[k]
}

/// The login window is left only when both a name and a password have been
/// typed; with either missing, `Ok` changes nothing. No field but the login
/// flag ever changes.
pub proof fn law_confirm_login(w: WindowView)
    ensures
        w.login.len() == 0 || w.password.len() == 0 ==> window_step(w, WindowEvent::ConfirmLogin)
            == w,
        w.login.len() > 0 && w.password.len() > 0 ==> !window_step(
            w,
            WindowEvent::ConfirmLogin,
        ).login_flag,
        window_step(w, WindowEvent::ConfirmLogin).login == w.login,
        window_step(w, WindowEvent::ConfirmLogin).password == w.password,
        window_step(w, WindowEvent::ConfirmLogin).message_input == w.message_input,
        window_step(w, WindowEvent::ConfirmLogin).messages == w.messages,
        window_step(w, WindowEvent::ConfirmLogin).connection_error == w.connection_error,
{
    if w.login.len() == 0 || w.password.len() == 0 {
        assert(window_step(w, WindowEvent::ConfirmLogin) =~= w);
    }
}

/// The login client's history only grows at its end, by the typed text
/// with a line feed or by the line received, and loses only its oldest line,
/// when it holds more than `HISTORY_LIMIT`.
pub proof fn law_window_history(w: WindowView, line: Seq<char>)
    ensures
        HISTORY_LIMIT == 10,
        history_extends(w.messages, window_step(w, WindowEvent::Receive(line)).messages, 1),
        window_step(w, WindowEvent::Receive(line)).messages.len() == w.messages.len() + 1,
        window_step(w, WindowEvent::Receive(line)).messages.last() == line,
        history_extends(w.messages, window_step(w, WindowEvent::SendInput).messages, 1),
        window_step(w, WindowEvent::SendInput).messages.len() == w.messages.len() + 1,
        window_step(w, WindowEvent::SendInput).messages.last() == w.message_input + seq!['\n'],
        window_step(w, WindowEvent::SendInput).message_input.len() == 0,
        history_extends(w.messages, window_step(w, WindowEvent::ConfirmLogin).messages, 0),
        w.messages.len() <= HISTORY_LIMIT ==> window_step(w, WindowEvent::TrimHistory).messages
            == w.messages,
        w.messages.len() > HISTORY_LIMIT ==> {
            let t = window_step(w, WindowEvent::TrimHistory).messages;
            &&& t.len() == w.messages.len() - 1
            &&& forall|k: int| 0 <= k < t.len() ==> t[k] == w.messages[k + 1]
        },
{
    reveal_strlit("\n");
    assert("\n"@ =~= seq!['\n']);
}

/// The named client's history only grows at its end: by the signed line on
/// `Send`, by the line received on `Receive`, and not at all otherwise.
pub proof fn law_named_history(c: NamedView, e: NamedEvent)
    ensures
        history_extends(c.messages, named_step(c, e).messages, 1),
        e matches NamedEvent::Receive(line) ==> named_step(c, e).messages.len() == c.messages.len()
            + 1 && named_step(c, e).messages.last() == line,
        e is Send ==> named_step(c, e).messages.len() == c.messages.len() + 1
            && named_step(c, e).messages.last() == signed_line(c.name, c.input)
            && named_step(c, e).outbox == signed_line(c.name, c.input)
            && named_step(c, e).input.len() == 0,
        (e is ConfirmName || e is TakeOutbox) ==> named_step(c, e).messages == c.messages,
        e is ConfirmName ==> named_step(c, e).name == c.input_name_line,
{
}

/// The signed line is the name, ` -- `, the text and a line feed.
pub proof fn law_signed_line(name: Seq<char>, text: Seq<char>)
    ensures
        signed_line(name, text).len() == (name.len() + 4 + text.len()) as int + 1,
        signed_line(name, text).take(name.len() as int) == name,
        signed_line(name, text).subrange(name.len() as int, (name.len() + 4) as int) == seq![' ', '-', '-', ' '],
        signed_line(name, text).subrange((name.len() + 4) as int, (name.len() + 4 + text.len()) as int) == text,
        signed_line(name, text).last() == '\n',
{
    reveal_strlit(" -- ");
    reveal_strlit("\n");
    assert(signed_line(name, text).take(name.len() as int) =~= name);
    assert(signed_line(name, text).subrange(name.len() as int, (name.len() + 4) as int) =~= seq![' ', '-', '-', ' ']);
    assert(signed_line(name, text).subrange((name.len() + 4) as int, (name.len() + 4 + text.len()) as int) =~= text);
}

} // verus!
