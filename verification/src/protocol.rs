//! The wire envelope and its payloads: the four message variants, the
//! timestamp model, and the constructors the engine and clients use.

use vstd::prelude::*;
use chrono::Datelike;
use chrono::Timelike;

verus! {

/// The tag of a wire envelope.
#[derive(Clone, Copy, PartialEq, Eq, Structural, Debug)]
pub enum WebSocketMessageType {
    NewMessage,
    UserList,
    UsernameChange,
    System,
}

/// A calendar timestamp in UTC, second precision.
#[derive(Clone, Copy, PartialEq, Eq, Structural, Debug)]
pub struct Timestamp {
    pub year: u32,
    pub month: u32,
    pub day: u32,
    pub hour: u32,
    pub minute: u32,
    pub second: u32,
}

impl Timestamp {
    /// Field ranges under which the timestamp has a fixed-width rendering.
    pub open spec fn wf(self) -> bool {
        self.year <= 9999
            && 1 <= self.month <= 12
            && 1 <= self.day <= 31
            && self.hour <= 23
            && self.minute <= 59
            && self.second <= 59
    }

    /// Builds a timestamp from raw calendar parts, clamping each field
    /// into its printable range; parts already in range are kept as given.
    pub fn from_parts(year: i64, month: u32, day: u32, hour: u32, minute: u32, second: u32)
        -> (t: Timestamp)
        ensures
            t.wf(),
            0 <= year <= 9999 ==> t.year == year,
            1 <= month <= 12 ==> t.month == month,
            1 <= day <= 31 ==> t.day == day,
            hour <= 23 ==> t.hour == hour,
            minute <= 59 ==> t.minute == minute,
            second <= 59 ==> t.second == second,
    {
        Timestamp {
            year: if 0 <= year && year <= 9999 { year as u32 } else { 0 },
            month: if 1 <= month && month <= 12 { month } else { 1 },
            day: if 1 <= day && day <= 31 { day } else { 1 },
            hour: if hour <= 23 { hour } else { 0 },
            minute: if minute <= 59 { minute } else { 0 },
            second: if second <= 59 { second } else { 0 },
        }
    }
}

/// Relies on `std::time::SystemTime::now`, `chrono::DateTime::from_timestamp`
/// with `naive_utc`, and the `Datelike` / `Timelike` accessors: the current
/// UTC calendar parts. A clock before the Unix epoch or outside chrono's
/// representable range falls back to the epoch itself, so the body cannot
/// panic (`chrono::Utc::now` would). Only the documented field ranges are
/// assumed; the year is unconstrained.
#[verifier::external_body]
fn now_parts() -> (p: (i64, u32, u32, u32, u32, u32))
    ensures
        1 <= p.1 <= 12,
        1 <= p.2 <= 31,
        p.3 <= 23,
        p.4 <= 59,
        p.5 <= 59,
{
    let secs = std::time::SystemTime::now()
        .duration_since(std::time::UNIX_EPOCH)
        .map_or(0, |d| d.as_secs() as i64);
    let t = chrono::DateTime::from_timestamp(secs, 0)
        .unwrap_or(chrono::DateTime::<chrono::Utc>::UNIX_EPOCH)
        .naive_utc();
    (t.year() as i64, t.month(), t.day(), t.hour(), t.minute(), t.second())
}

/// A chat line: body, author, and the moment it was created.
#[derive(Clone, Debug)]
pub struct ChatMessage {
    pub message: String,
    pub author: String,
    pub created_at: Timestamp,
}

/// Mathematical model of a chat line.
pub struct ChatMsgV {
    pub message: Seq<char>,
    pub author: Seq<char>,
    pub created_at: Timestamp,
}

impl View for ChatMessage {
    type V = ChatMsgV;

    open spec fn view(&self) -> ChatMsgV {
        ChatMsgV { message: self.message@, author: self.author@, created_at: self.created_at }
    }
}

impl ChatMessage {
    /// Stamps a new chat line with the current UTC time.
    pub fn new(message: String, author: String) -> (m: ChatMessage)
        ensures
            m@.message == message@,
            m@.author == author@,
            m@.created_at.wf(),
    {
        let (y, mo, d, h, mi, s) = now_parts();
        ChatMessage { message, author, created_at: Timestamp::from_parts(y, mo, d, h, mi, s) }
    }

    /// Builds a chat line at a caller-chosen moment.
    pub fn at_time(message: String, author: String, created_at: Timestamp) -> (m: ChatMessage)
        ensures
            m@ == (ChatMsgV { message: message@, author: author@, created_at }),
    {
        ChatMessage { message, author, created_at }
    }
}

/// The character sequences of a sequence of strings, in order.
pub open spec fn views_of(us: Seq<String>) -> Seq<Seq<char>> {
    Seq::new(us.len(), |i: int| us[i]@)
}

/// The wire envelope: a tag and exactly one payload matching it.
#[derive(Clone, Debug)]
pub struct WebSocketMessage {
    pub message_type: WebSocketMessageType,
    pub message: Option<ChatMessage>,
    pub users: Option<Vec<String>>,
    pub username: Option<String>,
}

/// Mathematical model of a wire envelope.
pub struct EnvelopeV {
    pub message_type: WebSocketMessageType,
    pub message: Option<ChatMsgV>,
    pub users: Option<Seq<Seq<char>>>,
    pub username: Option<Seq<char>>,
}

impl View for WebSocketMessage {
    type V = EnvelopeV;

    open spec fn view(&self) -> EnvelopeV {
        EnvelopeV {
            message_type: self.message_type,
            message: match self.message {
                Some(m) => Some(m@),
                None => None,
            },
            users: match self.users {
                Some(ref v) => Some(views_of(v@)),
                None => None,
            },
            username: match self.username {
                Some(ref s) => Some(s@),
                None => None,
            },
        }
    }
}

impl EnvelopeV {
    /// Exactly one payload is populated, matching the declared tag, and a
    /// populated chat payload carries a printable timestamp.
    pub open spec fn wf(self) -> bool {
        match self.message_type {
            WebSocketMessageType::NewMessage | WebSocketMessageType::System => {
                self.message is Some && self.users is None && self.username is None
                    && self.message->0.created_at.wf()
            },
            WebSocketMessageType::UserList => {
                self.message is None && self.users is Some && self.username is None
            },
            WebSocketMessageType::UsernameChange => {
                self.message is None && self.users is None && self.username is Some
            },
        }
    }
}

impl WebSocketMessage {
    /// Wraps a chat line as a broadcastable envelope.
    pub fn from_chat_msg(message: ChatMessage) -> (r: WebSocketMessage)
        ensures
            r@ == (EnvelopeV {
                message_type: WebSocketMessageType::NewMessage,
                message: Some(message@),
                users: None,
                username: None,
            }),
            message@.created_at.wf() ==> r@.wf(),
    {
        WebSocketMessage {
            message_type: WebSocketMessageType::NewMessage,
            message: Some(message),
            users: None,
            username: None,
        }
    }

    /// Wraps a display-name snapshot as a user-list envelope.
    pub fn from_users_list(users: Vec<String>) -> (r: WebSocketMessage)
        ensures
            r@ == (EnvelopeV {
                message_type: WebSocketMessageType::UserList,
                message: None,
                users: Some(views_of(users@)),
                username: None,
            }),
            r@.wf(),
    {
        WebSocketMessage {
            message_type: WebSocketMessageType::UserList,
            message: None,
            users: Some(users),
            username: None,
        }
    }

    /// Wraps a display name as a username-change envelope.
    pub fn from_username(username: String) -> (r: WebSocketMessage)
        ensures
            r@ == (EnvelopeV {
                message_type: WebSocketMessageType::UsernameChange,
                message: None,
                users: None,
                username: Some(username@),
            }),
            r@.wf(),
    {
        WebSocketMessage {
            message_type: WebSocketMessageType::UsernameChange,
            message: None,
            users: None,
            username: Some(username),
        }
    }

    /// Wraps an informational notice, authored by the reserved name
    /// "system", stamped with the given moment.
    pub fn from_system_msg_at(message: String, now: Timestamp) -> (r: WebSocketMessage)
        ensures
            r@ == (EnvelopeV {
                message_type: WebSocketMessageType::System,
                message: Some(ChatMsgV {
                    message: message@,
                    author: "system"@,
                    created_at: now,
                }),
                users: None,
                username: None,
            }),
            now.wf() ==> r@.wf(),
    {
        let author = "system".to_owned();
        WebSocketMessage {
            message_type: WebSocketMessageType::System,
            message: Some(ChatMessage::at_time(message, author, now)),
            users: None,
            username: None,
        }
    }

    /// Wraps an informational notice stamped with the current UTC time.
    pub fn from_system_msg(message: String) -> (r: WebSocketMessage)
        ensures
            r@.message_type == WebSocketMessageType::System,
            r@.message is Some,
            r@.message->0.message == message@,
            r@.message->0.author == "system"@,
            r@.users is None,
            r@.username is None,
            r@.wf(),
    {
        let (y, mo, d, h, mi, s) = now_parts();
        Self::from_system_msg_at(message, Timestamp::from_parts(y, mo, d, h, mi, s))
    }
}


/// The case folding that `str::to_lowercase` performs; a function of
/// the characters alone.
pub uninterp spec fn lower_of(s: Seq<char>) -> Seq<char>;

/// Relies on `str::to_lowercase`: the folded form of the given text.
#[verifier::external_body]
pub(crate) fn lowercase(s: &str) -> (r: String)
    ensures
        r@ == lower_of(s@),
{
    s.to_lowercase()
}

/// What a client's input box submits for one entry: nothing for an
/// empty entry, a chat message or a rename request otherwise; a rename
/// whose text case-folds to the reserved author "system" is refused.
pub fn compose_input(message_type: WebSocketMessageType, text: String) -> (r: Option<
    WebSocketMessage,
>)
    ensures
        text@.len() == 0 ==> (r is None),
        text@.len() > 0 && message_type == WebSocketMessageType::NewMessage ==> (match r {
            Some(v) => v@.message_type == WebSocketMessageType::NewMessage && v@.message is Some
                && v@.message->0.message == text@ && v@.message->0.author.len() == 0
                && v@.message->0.created_at.wf() && v@.wf(),
            None => false,
        }),
        text@.len() > 0 && message_type == WebSocketMessageType::UsernameChange ==> (match r {
            Some(v) => lower_of(text@) != "system"@ && v@ == (EnvelopeV {
                message_type: WebSocketMessageType::UsernameChange,
                message: Option::None,
                users: Option::None,
                username: Option::Some(text@),
            }),
            None => lower_of(text@) == "system"@,
        }),
        message_type == WebSocketMessageType::UserList || message_type
            == WebSocketMessageType::System ==> (r is None),
    {
    proof {
        reveal_strlit("");
    }
    if text.as_str().is_empty() {
        return None;
    }
    match message_type {
        WebSocketMessageType::NewMessage => Some(WebSocketMessage::from_chat_msg(
            ChatMessage::new(text, "".to_owned()),
        )),
        WebSocketMessageType::UsernameChange => {
            let folded = lowercase(text.as_str());
            let reserved = "system".to_owned();
            if folded == reserved {
                None
            } else {
                Some(WebSocketMessage::from_username(text))
            }
        },
        _ => None,
    }
}

} // verus!
