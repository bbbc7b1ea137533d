//! Change notifications and the per-connection WebSocket session decisions.
//!
//! A notification is the JSON object `{"action":<tag>}` naming the data
//! domain that changed. The session loop of one WebSocket connection waits
//! for either the next client frame or the next notification; `session_step`
//! decides what to do with whichever came first.
use vstd::prelude::*;
use crate::text::{hex_digit_char, push_str};

verus! {

/// The data domain a notification reports as changed.
#[derive(PartialEq, Eq, Structural, Clone, Copy, Debug)]
pub enum SyncAction {
    Tasks,
    FocusTemplates,
    FocusRuns,
}

impl SyncAction {
    pub open spec fn spec_tag(self) -> Seq<char> {
        match self {
            SyncAction::Tasks => "SYNC_TASKS"@,
            SyncAction::FocusTemplates => "SYNC_FOCUS_TEMPLATES"@,
            SyncAction::FocusRuns => "SYNC_FOCUS_RUNS"@,
        }
    }

    /// The action tag carried by the notification.
    pub fn tag(self) -> (r: &'static str)
        ensures
            r@ == self.spec_tag(),
    {
        match self {
            SyncAction::Tasks => "SYNC_TASKS",
            SyncAction::FocusTemplates => "SYNC_FOCUS_TEMPLATES",
            SyncAction::FocusRuns => "SYNC_FOCUS_RUNS",
        }
    }
}

/// How serde_json writes one character inside a string literal: `"` and
/// `\` behind a backslash, the short escapes for backspace, tab, line feed,
/// form feed and carriage return, `\u00XX` (lower-case hex) for the other
/// characters below 0x20, and every other character as it is.
pub open spec fn json_escape_char(c: char) -> Seq<char> {
    let v = c as u32;
    if c == '"' {
        seq!['\\', '"']
    } else if c == '\\' {
        seq!['\\', '\\']
    } else if v == 8 {
        seq!['\\', 'b']
    } else if v == 9 {
        seq!['\\', 't']
    } else if v == 10 {
        seq!['\\', 'n']
    } else if v == 12 {
        seq!['\\', 'f']
    } else if v == 13 {
        seq!['\\', 'r']
    } else if v < 0x20 {
        seq!['\\', 'u', '0', '0', hex_digit_char((v / 16) as nat), hex_digit_char((v % 16) as nat)]
    } else {
        seq![c]
    }
}

/// The escaped characters of a string, in order.
pub open spec fn json_escaped(s: Seq<char>) -> Seq<char>
    decreases s.len(),
{
    if s.len() == 0 {
        Seq::empty()
    } else {
        json_escaped(s.drop_last()) + json_escape_char(s.last())
    }
}

/// The JSON string literal serde_json writes for a string: the escaped
/// characters between double quotes.
pub open spec fn json_quoted(s: Seq<char>) -> Seq<char> {
    seq!['"'] + json_escaped(s) + seq!['"']
}

/// Relies on `serde_json::to_string` applied to a `str`: it writes the
/// escaped string literal into a `Vec`, which cannot fail, so the error arm
/// is never taken.
#[verifier::external_body]
fn json_string(s: &str) -> (r: String)
    ensures
        r@ == json_quoted(s@),
{
    serde_json::to_string(s).unwrap_or_default()
}

/// The notification object around an already quoted tag.
pub open spec fn framed(quoted: Seq<char>) -> Seq<char> {
    "{\"action\":"@ + quoted + "}"@
}

/// Wraps a JSON string literal into the notification object.
pub fn frame_payload(quoted: &str) -> (r: String)
    ensures
        r@ == framed(quoted@),
{
    let mut out = String::from_str("{\"action\":");
    push_str(&mut out, quoted);
    push_str(&mut out, "}");
    out
}

/// The text published for a change of `action`'s domain.
pub fn sync_payload(action: SyncAction) -> (r: String)
    ensures
        r@ == framed(json_quoted(action.spec_tag())),
{
    let q = json_string(action.tag());
    frame_payload(q.as_str())
}

/// A frame received from the WebSocket client, or how receiving ended.
#[derive(Debug)]
pub enum Inbound {
    Close,
    Ping(Vec<u8>),
    /// Any other frame (text, binary, pong).
    Other,
    /// The connection reported an error.
    Failed,
    /// The stream ended.
    Ended,
}

/// Whichever of the two awaited sources produced something first.
#[derive(Debug)]
pub enum SessionEvent {
    Client(Inbound),
    /// A notification arrived from the bus.
    Notification(String),
    /// The bus receiver failed: the channel closed, or this subscriber fell
    /// too far behind.
    BusFailed,
}

/// What the session does next.
#[derive(Debug)]
pub enum SessionAction {
    /// Leave the loop.
    Stop,
    /// Keep waiting.
    Continue,
    /// Answer a ping with a pong carrying the same bytes; stop if that fails.
    SendPong(Vec<u8>),
    /// Forward a notification as a text frame; stop if that fails.
    SendText(String),
}

/// Decides the session's reaction to one event.
pub fn session_step(ev: SessionEvent) -> (r: SessionAction)
    ensures
        match ev {
            SessionEvent::Client(Inbound::Close) => r is Stop,
            SessionEvent::Client(Inbound::Failed) => r is Stop,
            SessionEvent::Client(Inbound::Ended) => r is Stop,
            SessionEvent::Client(Inbound::Ping(p)) => r is SendPong && r->SendPong_0@ == p@,
            SessionEvent::Client(Inbound::Other) => r is Continue,
            SessionEvent::Notification(m) => r is SendText && r->SendText_0@ == m@,
            SessionEvent::BusFailed => r is Stop,
        },
{
    match ev {
        SessionEvent::Client(inbound) => match inbound {
            Inbound::Close => SessionAction::Stop,
            Inbound::Failed => SessionAction::Stop,
            Inbound::Ended => SessionAction::Stop,
            Inbound::Ping(p) => SessionAction::SendPong(p),
            Inbound::Other => SessionAction::Continue,
        },
        SessionEvent::Notification(m) => SessionAction::SendText(m),
        SessionEvent::BusFailed => SessionAction::Stop,
    }
}

} // verus!
