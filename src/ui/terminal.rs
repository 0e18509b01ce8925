//! The chat view's state: message log, input line, status and countdown.
//! Drawing and key reading live with the terminal front end.
use vstd::prelude::*;

verus! {

/// Messages shown at once; the view scrolls so the newest are visible.
pub const VISIBLE_MESSAGES: usize = 20;

/// Who a line in the log came from.
#[derive(Debug, Clone, Copy, PartialEq, Eq, Structural)]
pub enum MessageSource {
    Sent,
    Received,
    System,
}

/// State of the connection, as shown in the status bar.
#[derive(Debug, Clone, PartialEq, Eq)]
pub enum ConnectionStatus {
    Disconnected,
    Connecting,
    Handshaking,
    Connected,
    Error(String),
}

/// One line of the message log.
#[derive(Clone)]
pub struct ChatMessage {
    pub from: MessageSource,
    pub content: String,
    /// Local time of day, `HH:MM:SS`.
    pub timestamp: String,
}

/// What the view asks of the session.
pub enum UIEvent {
    SendMessage(String),
    Quit,
}

/// A key press, as the view understands it.
#[derive(Debug, Clone, Copy, PartialEq, Eq)]
pub enum InputKey {
    Char(char),
    Backspace,
    Enter,
    Esc,
    Other,
}

/// What `str::trim` leaves of a text.
pub uninterp spec fn trimmed(s: Seq<char>) -> Seq<char>;

/// Relies on `str::trim`: the text without leading and trailing white space;
/// the result depends on the characters alone.
#[verifier::external_body]
fn trim_is_empty(s: &String) -> (r: bool)
    ensures
        r == (trimmed(s@).len() == 0),
{
    s.trim().is_empty()
}

/// Relies on `String::push`: appends one character.
#[verifier::external_body]
fn string_push(s: &mut String, c: char)
    ensures
        final(s)@ == old(s)@.push(c),
{
    s.push(c)
}

/// Relies on `String::pop`: removes and returns the last character, if any.
#[verifier::external_body]
fn string_pop(s: &mut String) -> (r: Option<char>)
    ensures
        old(s)@.len() == 0 ==> r is None && final(s)@ == old(s)@,
        old(s)@.len() > 0 ==> r == Some(old(s)@.last()) && final(s)@ == old(s)@.drop_last(),
{
    s.pop()
}

/// Relies on `chrono::Local::now` formatted as `%H:%M:%S`: the local time
/// of day. Nothing is promised of the value.
#[verifier::external_body]
fn local_time_of_day() -> (r: String) {
    chrono::Local::now().format("%H:%M:%S").to_string()
}

/// The chat view's state.
pub struct TerminalUI {
    messages: Vec<ChatMessage>,
    input: String,
    scroll_offset: usize,
    connection_status: ConnectionStatus,
    key_rotation_countdown: u64,
}

/// Mathematical value of the view's state.
pub struct TerminalModel {
    pub messages: Seq<ChatMessage>,
    pub input: Seq<char>,
    pub scroll_offset: usize,
    pub connection_status: ConnectionStatus,
    pub key_rotation_countdown: u64,
}

impl View for TerminalUI {
    type V = TerminalModel;

    closed spec fn view(&self) -> TerminalModel {
        TerminalModel {
            messages: self.messages@,
            input: self.input@,
            scroll_offset: self.scroll_offset,
            connection_status: self.connection_status,
            key_rotation_countdown: self.key_rotation_countdown,
        }
    }
}

/// Scroll position that keeps the newest `VISIBLE_MESSAGES` in view after a
/// message arrives at a log of length `n`.
pub open spec fn scroll_after(n: nat, prev: usize) -> usize {
    if n > VISIBLE_MESSAGES { (n - VISIBLE_MESSAGES) as usize } else { prev }
}

impl TerminalUI {
    /// A disconnected view with an empty log and a full countdown.
    pub fn new() -> (r: Self)
        ensures
            r@.messages.len() == 0,
            r@.input == Seq::<char>::empty(),
            r@.scroll_offset == 0,
            r@.connection_status == ConnectionStatus::Disconnected,
            r@.key_rotation_countdown == 60,
    {
        TerminalUI {
            messages: Vec::new(),
            input: String::new(),
            scroll_offset: 0,
            connection_status: ConnectionStatus::Disconnected,
            key_rotation_countdown: 60,
        }
    }

    /// The message log.
    pub fn messages(&self) -> (r: &Vec<ChatMessage>)
        ensures
            r@ == self@.messages,
    {
        &self.messages
    }

    /// The input line.
    pub fn input(&self) -> (r: &String)
        ensures
            r@ == self@.input,
    {
        &self.input
    }

    /// Index of the first message shown.
    pub fn scroll_offset(&self) -> (r: usize)
        ensures
            r == self@.scroll_offset,
    {
        self.scroll_offset
    }

    /// The connection status shown.
    pub fn connection_status(&self) -> (r: &ConnectionStatus)
        ensures
            *r == self@.connection_status,
    {
        &self.connection_status
    }

    /// Seconds shown until the next key rotation.
    pub fn key_rotation_countdown(&self) -> (r: u64)
        ensures
            r == self@.key_rotation_countdown,
    {
        self.key_rotation_countdown
    }

    /// Appends a line stamped `timestamp`, scrolling so the newest lines show.
    pub fn add_message_at(&mut self, from: MessageSource, content: String, timestamp: String)
        requires
            old(self)@.messages.len() < usize::MAX,
        ensures
            final(self)@.messages.len() == old(self)@.messages.len() + 1,
            final(self)@.messages.subrange(0, old(self)@.messages.len() as int) == old(self)@.messages,
            final(self)@.messages.last().from == from,
            final(self)@.messages.last().content == content,
            final(self)@.messages.last().timestamp == timestamp,
            final(self)@.scroll_offset == scroll_after(final(self)@.messages.len(), old(self)@.scroll_offset),
            final(self)@.input == old(self)@.input,
            final(self)@.connection_status == old(self)@.connection_status,
            final(self)@.key_rotation_countdown == old(self)@.key_rotation_countdown,
    {
        self.messages.push(ChatMessage { from, content, timestamp });
        if self.messages.len() > VISIBLE_MESSAGES {
            self.scroll_offset = self.messages.len() - VISIBLE_MESSAGES;
        }
        assert(self@.messages.subrange(0, old(self)@.messages.len() as int) =~= old(self)@.messages);
    }

    /// Appends a line stamped with the local time of day.
    pub fn add_message(&mut self, from: MessageSource, content: String)
        requires
            old(self)@.messages.len() < usize::MAX,
        ensures
            final(self)@.messages.len() == old(self)@.messages.len() + 1,
            final(self)@.messages.subrange(0, old(self)@.messages.len() as int) == old(self)@.messages,
            final(self)@.messages.last().from == from,
            final(self)@.messages.last().content == content,
            final(self)@.scroll_offset == scroll_after(final(self)@.messages.len(), old(self)@.scroll_offset),
            final(self)@.input == old(self)@.input,
    {
        let timestamp = local_time_of_day();
        self.add_message_at(from, content, timestamp);
    }

    /// Shows a new connection status.
    pub fn set_status(&mut self, status: ConnectionStatus)
        ensures
            final(self)@.connection_status == status,
            final(self)@.messages == old(self)@.messages,
            final(self)@.input == old(self)@.input,
            final(self)@.key_rotation_countdown == old(self)@.key_rotation_countdown,
    {
        self.connection_status = status;
    }

    /// Shows a new rotation countdown.
    pub fn set_key_rotation_countdown(&mut self, seconds: u64)
        ensures
            final(self)@.key_rotation_countdown == seconds,
            final(self)@.messages == old(self)@.messages,
            final(self)@.input == old(self)@.input,
            final(self)@.connection_status == old(self)@.connection_status,
    {
        self.key_rotation_countdown = seconds;
    }

    /// Applies a key press to the input line. A character is appended,
    /// backspace removes the last one, Enter hands out the line (and clears
    /// it) unless it is blank, Esc asks to quit.
    pub fn handle_key(&mut self, key: InputKey) -> (r: Option<UIEvent>)
        ensures
            final(self)@.messages == old(self)@.messages,
            final(self)@.connection_status == old(self)@.connection_status,
            match key {
                InputKey::Char(c) => r is None && final(self)@.input == old(self)@.input.push(c),
                InputKey::Backspace => r is None && final(self)@.input == if old(self)@.input.len() == 0 {
                    old(self)@.input
                } else {
                    old(self)@.input.drop_last()
                },
                InputKey::Enter => if trimmed(old(self)@.input).len() == 0 {
                    r is None && final(self)@.input == old(self)@.input
                } else {
                    r matches Some(UIEvent::SendMessage(m)) && m@ == old(self)@.input && final(self)@.input
                        == Seq::<char>::empty()
                },
                InputKey::Esc => r matches Some(UIEvent::Quit) && final(self)@.input == old(self)@.input,
                InputKey::Other => r is None && final(self)@.input == old(self)@.input,
            },
    {
        match key {
            InputKey::Char(c) => {
                string_push(&mut self.input, c);
                None
            },
            InputKey::Backspace => {
                let _ = string_pop(&mut self.input);
                None
            },
            InputKey::Enter => {
                if !trim_is_empty(&self.input) {
                    let message = self.input.clone();
                    self.input = String::new();
                    Some(UIEvent::SendMessage(message))
                } else {
                    None
                }
            },
            InputKey::Esc => Some(UIEvent::Quit),
            InputKey::Other => None,
        }
    }
}

impl Default for TerminalUI {
    fn default() -> (r: Self)
        ensures
            r@.messages.len() == 0,
            r@.connection_status == ConnectionStatus::Disconnected,
    {
        TerminalUI::new()
    }
}

} // verus!
