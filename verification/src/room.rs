//! The connection registry and the broadcast engine: who is in the
//! room, under what display name, and which outbound frames each
//! inbound event produces.

use vstd::prelude::*;
use crate::protocol::{ChatMessage, ChatMsgV, EnvelopeV, Timestamp, WebSocketMessage,
    WebSocketMessageType, views_of};
use crate::wire::{ser_env, scan_env};
use crate::text::{chars_of, dec_chars, dec_rep, string_of};
use crate::codec::parse_envelope;

verus! {

/// Whether a connection just joined or just left the room.
pub enum UserStatus {
    Join,
    Left,
}

/// The error taxonomy of registry operations: the identity addressed is
/// no longer (or never was) registered.
#[derive(Clone, Copy, PartialEq, Eq, Structural, Debug)]
pub enum RegistryError {
    NotFound,
}

/// One registered connection: its identity and display name. The
/// transport handle owned by this entry lives with the lifecycle
/// driver, keyed by the same identity.
pub struct ChatRoomConnection {
    pub user_id: usize,
    pub username: String,
}

/// Mathematical model of one registry entry.
pub struct ConnV {
    pub id: int,
    pub name: Seq<char>,
}

impl View for ChatRoomConnection {
    type V = ConnV;

    open spec fn view(&self) -> ConnV {
        ConnV { id: self.user_id as int, name: self.username@ }
    }
}

/// One outbound delivery: which connection receives which text frame.
pub struct Outbound {
    pub to: usize,
    pub frame: String,
}

/// Mathematical model of one outbound delivery.
pub struct OutboundV {
    pub to: int,
    pub frame: Seq<char>,
}

impl View for Outbound {
    type V = OutboundV;

    open spec fn view(&self) -> OutboundV {
        OutboundV { to: self.to as int, frame: self.frame@ }
    }
}

pub open spec fn conns_of(v: Seq<ChatRoomConnection>) -> Seq<ConnV> {
    Seq::new(v.len(), |k: int| v[k]@)
}

pub open spec fn outs_of(v: Seq<Outbound>) -> Seq<OutboundV> {
    Seq::new(v.len(), |k: int| v[k]@)
}

// ---------------------------------------------------------------------
// The registry model
// ---------------------------------------------------------------------

/// No identity occurs twice.
pub open spec fn reg_wf(m: Seq<ConnV>) -> bool {
    forall|a: int, b: int| 0 <= a < b < m.len() ==> m[a].id != m[b].id
}

pub open spec fn reg_contains(m: Seq<ConnV>, id: int) -> bool {
    exists|k: int| 0 <= k < m.len() && m[k].id == id
}

/// The position of an identity; meaningful only when present.
pub open spec fn idx_of(m: Seq<ConnV>, id: int) -> int {
    choose|k: int| 0 <= k < m.len() && m[k].id == id
}

/// The display name registered under an identity.
pub open spec fn name_of(m: Seq<ConnV>, id: int) -> Seq<char> {
    m[idx_of(m, id)].name
}

/// The display names, in registry order.
pub open spec fn names(m: Seq<ConnV>) -> Seq<Seq<char>> {
    Seq::new(m.len(), |k: int| m[k].name)
}

/// The default display name assigned at connect time.
pub open spec fn default_name(id: int) -> Seq<char> {
    "user #"@ + dec_rep(id as nat)
}

pub open spec fn reg_add(m: Seq<ConnV>, id: int) -> Seq<ConnV> {
    m.push(ConnV { id, name: default_name(id) })
}

pub open spec fn reg_remove(m: Seq<ConnV>, id: int) -> Seq<ConnV> {
    if reg_contains(m, id) {
        m.remove(idx_of(m, id))
    } else {
        m
    }
}

pub open spec fn reg_rename(m: Seq<ConnV>, id: int, name: Seq<char>) -> Seq<ConnV> {
    if reg_contains(m, id) {
        m.update(idx_of(m, id), ConnV { id, name })
    } else {
        m
    }
}

/// One delivery of the same frame to every connection, in registry order.
pub open spec fn bcast(m: Seq<ConnV>, frame: Seq<char>) -> Seq<OutboundV> {
    Seq::new(m.len(), |k: int| OutboundV { to: m[k].id, frame })
}

pub proof fn lemma_idx_of(m: Seq<ConnV>, id: int)
    requires
        reg_contains(m, id),
    ensures
        0 <= idx_of(m, id) < m.len(),
        m[idx_of(m, id)].id == id,
{
    let k = choose|k: int| 0 <= k < m.len() && m[k].id == id;
    assert(0 <= k < m.len() && m[k].id == id);
}

pub proof fn lemma_idx_unique(m: Seq<ConnV>, id: int, k: int)
    requires
        reg_wf(m),
        0 <= k < m.len(),
        m[k].id == id,
    ensures
        idx_of(m, id) == k,
{
    assert(reg_contains(m, id));
    lemma_idx_of(m, id);
    let j = idx_of(m, id);
    if j != k {
        if j < k {
            assert(m[j].id != m[k].id);
        } else {
            assert(m[k].id != m[j].id);
        }
        assert(false);
    }
}

// ---------------------------------------------------------------------
// The room
// ---------------------------------------------------------------------

/// The single-room registry: every currently registered connection, in
/// insertion order. The surrounding service serializes access; each
/// operation here is one critical section.
pub struct ChatRoom {
    pub connections: Vec<ChatRoomConnection>,
    /// How many connections were ever accepted; the surrounding
    /// service publishes it through its metrics endpoint.
    pub connected_total: u64,
}

impl View for ChatRoom {
    type V = Seq<ConnV>;

    open spec fn view(&self) -> Seq<ConnV> {
        conns_of(self.connections@)
    }
}

impl ChatRoom {
    pub open spec fn wf(self) -> bool {
        reg_wf(self@)
    }

    /// An empty room.
    pub fn new() -> (r: ChatRoom)
        ensures
            r@ =~= Seq::<ConnV>::empty(),
            r.wf(),
            r.connected_total == 0,
    {
        ChatRoom { connections: Vec::new(), connected_total: 0 }
    }

    /// How many connections are currently open.
    pub fn connections_open(&self) -> (r: usize)
        ensures
            r == self@.len(),
    {
        self.connections.len()
    }

    /// How many connections were ever accepted.
    pub fn connections_accepted(&self) -> (r: u64)
        ensures
            r == self.connected_total,
    {
        self.connected_total
    }

    /// The position of an identity in the registry, if present.
    fn find_index(&self, user_id: usize) -> (r: Option<usize>)
        ensures
            match r {
                Some(k) => k < self@.len() && self@[k as int].id == user_id as int
                    && (self.wf() ==> idx_of(self@, user_id as int) == k as int)
                    && reg_contains(self@, user_id as int),
                None => !reg_contains(self@, user_id as int),
            },
    {
        let mut k: usize = 0;
        while k < self.connections.len()
            invariant
                k <= self@.len(),
                forall|q: int| 0 <= q < k ==> self@[q].id != user_id as int,
            decreases self@.len() - k,
        {
            if self.connections[k].user_id == user_id {
                proof {
                    if self.wf() {
                        lemma_idx_unique(self@, user_id as int, k as int);
                    }
                }
                return Some(k);
            }
            k = k + 1;
        }
        None
    }

    /// The default display name derived from an identity.
    pub fn default_username(user_id: usize) -> (r: String)
        ensures
            r@ == default_name(user_id as int),
    {
        let mut v = chars_of("user #");
        let mut d = dec_chars(user_id);
        v.append(&mut d);
        string_of(&v)
    }

    /// Registers a fresh identity under its default display name and
    /// returns that name. Identities are process-unique and never
    /// reused, so a fresh identity is never already present.
    pub fn add_connection(&mut self, user_id: usize) -> (r: String)
        requires
            old(self).wf(),
            !reg_contains(old(self)@, user_id as int),
        ensures
            final(self)@ == reg_add(old(self)@, user_id as int),
            final(self).wf(),
            r@ == default_name(user_id as int),
            final(self).connected_total as int == (if old(self).connected_total < u64::MAX {
                old(self).connected_total as int + 1
            } else {
                old(self).connected_total as int
            }),
    {
        if self.connected_total < u64::MAX {
            self.connected_total = self.connected_total + 1;
        }
        let username = Self::default_username(user_id);
        let conn = ChatRoomConnection { user_id, username: username.clone() };
        self.connections.push(conn);
        proof {
            assert(self@ =~= reg_add(old(self)@, user_id as int));
            assert forall|a: int, b: int| 0 <= a < b < self@.len() implies self@[a].id
                != self@[b].id by {
                if b == self@.len() - 1 {
                    assert(!reg_contains(old(self)@, user_id as int));
                    assert(old(self)@[a].id != user_id as int);
                }
            }
        }
        username
    }

    /// Removes an identity and returns its prior display name; an
    /// absent identity (a disconnect race or duplicate cleanup) is a
    /// no-op reported as `None`.
    pub fn remove(&mut self, user_id: usize) -> (r: Option<String>)
        requires
            old(self).wf(),
        ensures
            final(self)@ == reg_remove(old(self)@, user_id as int),
            final(self).wf(),
            final(self).connected_total == old(self).connected_total,
            match r {
                Some(name) => reg_contains(old(self)@, user_id as int) && name@ == name_of(
                    old(self)@,
                    user_id as int,
                ),
                None => !reg_contains(old(self)@, user_id as int),
            },
    {
        match self.find_index(user_id) {
            None => None,
            Some(k) => {
                let conn = self.connections.remove(k);
                proof {
                    assert(self@ =~= old(self)@.remove(k as int));
                    assert forall|a: int, b: int| 0 <= a < b < self@.len() implies self@[a].id
                        != self@[b].id by {
                        let oa = if a < k as int { a } else { a + 1 };
                        let ob = if b < k as int { b } else { b + 1 };
                        assert(self@[a] == old(self)@[oa]);
                        assert(self@[b] == old(self)@[ob]);
                    }
                }
                Some(conn.username)
            },
        }
    }

    /// Renames an identity in place and returns the prior name; fails
    /// with `NotFound` when the identity has already disconnected.
    pub fn rename(&mut self, user_id: usize, new_username: String) -> (r: Result<
        String,
        RegistryError,
    >)
        requires
            old(self).wf(),
        ensures
            final(self)@ == reg_rename(old(self)@, user_id as int, new_username@),
            final(self).wf(),
            final(self).connected_total == old(self).connected_total,
            match r {
                Ok(name) => reg_contains(old(self)@, user_id as int) && name@ == name_of(
                    old(self)@,
                    user_id as int,
                ),
                Err(e) => e == RegistryError::NotFound && !reg_contains(
                    old(self)@,
                    user_id as int,
                ),
            },
    {
        match self.find_index(user_id) {
            None => Err(RegistryError::NotFound),
            Some(k) => {
                let old_name = self.connections[k].username.clone();
                self.connections[k] = ChatRoomConnection { user_id, username: new_username };
                proof {
                    assert(self@ =~= reg_rename(
                        old(self)@,
                        user_id as int,
                        self.connections@[k as int].username@,
                    ));
                    assert forall|a: int, b: int| 0 <= a < b < self@.len() implies self@[a].id
                        != self@[b].id by {
                        assert(self@[a].id == old(self)@[a].id);
                        assert(self@[b].id == old(self)@[b].id);
                    }
                }
                Ok(old_name)
            },
        }
    }

    /// The current display names, in registry order, taken in the same
    /// critical section as any mutation.
    pub fn snapshot_names(&self) -> (r: Vec<String>)
        ensures
            views_of(r@) == names(self@),
    {
        let mut r: Vec<String> = Vec::new();
        let mut k: usize = 0;
        while k < self.connections.len()
            invariant
                k <= self@.len(),
                r@.len() == k,
                forall|q: int| 0 <= q < k ==> r@[q]@ == self@[q].name,
            decreases self@.len() - k,
        {
            r.push(self.connections[k].username.clone());
            k = k + 1;
        }
        proof {
            assert(views_of(r@) =~= names(self@));
        }
        r
    }

    /// One delivery of the same frame to every connection; a failure to
    /// hand any one of them over is the transport's to absorb.
    pub fn for_each_send(&self, frame: &str) -> (r: Vec<Outbound>)
        ensures
            outs_of(r@) == bcast(self@, frame@),
    {
        let mut r: Vec<Outbound> = Vec::new();
        let mut k: usize = 0;
        while k < self.connections.len()
            invariant
                k <= self@.len(),
                r@.len() == k,
                forall|q: int| 0 <= q < k ==> r@[q]@ == (OutboundV {
                    to: self@[q].id,
                    frame: frame@,
                }),
            decreases self@.len() - k,
        {
            r.push(Outbound { to: self.connections[k].user_id, frame: frame.to_owned() });
            k = k + 1;
        }
        proof {
            assert(outs_of(r@) =~= bcast(self@, frame@));
        }
        r
    }

    /// One delivery to a single connection; `NotFound` when absent.
    pub fn send_to(&self, user_id: usize, frame: &str) -> (r: Result<Outbound, RegistryError>)
        ensures
            match r {
                Ok(o) => reg_contains(self@, user_id as int) && o@ == (OutboundV {
                    to: user_id as int,
                    frame: frame@,
                }),
                Err(e) => e == RegistryError::NotFound && !reg_contains(self@, user_id as int),
            },
    {
        match self.find_index(user_id) {
            Some(_) => Ok(Outbound { to: user_id, frame: frame.to_owned() }),
            None => Err(RegistryError::NotFound),
        }
    }
}


// ---------------------------------------------------------------------
// The broadcast engine model
// ---------------------------------------------------------------------

pub open spec fn username_env(name: Seq<char>) -> EnvelopeV {
    EnvelopeV {
        message_type: WebSocketMessageType::UsernameChange,
        message: Option::None,
        users: Option::None,
        username: Option::Some(name),
    }
}

pub open spec fn users_env(us: Seq<Seq<char>>) -> EnvelopeV {
    EnvelopeV {
        message_type: WebSocketMessageType::UserList,
        message: Option::None,
        users: Option::Some(us),
        username: Option::None,
    }
}

pub open spec fn chat_env(body: Seq<char>, author: Seq<char>, ts: Timestamp) -> EnvelopeV {
    EnvelopeV {
        message_type: WebSocketMessageType::NewMessage,
        message: Option::Some(ChatMsgV { message: body, author, created_at: ts }),
        users: Option::None,
        username: Option::None,
    }
}

pub open spec fn system_env(body: Seq<char>, ts: Timestamp) -> EnvelopeV {
    EnvelopeV {
        message_type: WebSocketMessageType::System,
        message: Option::Some(ChatMsgV { message: body, author: "system"@, created_at: ts }),
        users: Option::None,
        username: Option::None,
    }
}

pub open spec fn status_suffix(status: UserStatus) -> Seq<char> {
    match status {
        UserStatus::Join => " join the chat"@,
        UserStatus::Left => " left the chat"@,
    }
}

pub open spec fn rename_notice(old_name: Seq<char>, new_name: Seq<char>) -> Seq<char> {
    old_name + " changed username to "@ + new_name
}

/// The outbound frames of a chat-message event: the author is resolved
/// from the sender's registered name when the client left it empty.
pub open spec fn new_message_outs(m: Seq<ConnV>, id: int, e: EnvelopeV) -> Seq<OutboundV> {
    match e.message {
        Option::None => Seq::empty(),
        Option::Some(cm) => {
            if cm.author.len() == 0 {
                if reg_contains(m, id) {
                    bcast(m, ser_env(chat_env(cm.message, name_of(m, id), cm.created_at)))
                } else {
                    Seq::empty()
                }
            } else {
                bcast(m, ser_env(chat_env(cm.message, cm.author, cm.created_at)))
            }
        },
    }
}

/// The outbound frames of a successful rename: the confirmation to the
/// renamer alone, then the notice and the fresh name list to everyone.
pub open spec fn rename_outs(
    m2: Seq<ConnV>,
    id: int,
    old_name: Seq<char>,
    new_name: Seq<char>,
    now: Timestamp,
) -> Seq<OutboundV> {
    seq![OutboundV { to: id, frame: ser_env(username_env(new_name)) }]
        + bcast(m2, ser_env(system_env(rename_notice(old_name, new_name), now)))
        + bcast(m2, ser_env(users_env(names(m2))))
}

/// What one inbound text frame does to the room and what it sends out.
pub open spec fn dispatch(m: Seq<ConnV>, id: int, raw: Seq<char>, now: Timestamp) -> (
    Seq<ConnV>,
    Seq<OutboundV>,
) {
    match scan_env(raw) {
        Option::None => (m, bcast(m, raw)),
        Option::Some(e) => match e.message_type {
            WebSocketMessageType::NewMessage => (m, new_message_outs(m, id, e)),
            WebSocketMessageType::UsernameChange => match e.username {
                Option::Some(n) => {
                    if n.len() > 0 && reg_contains(m, id) {
                        (
                            reg_rename(m, id, n),
                            rename_outs(reg_rename(m, id, n), id, name_of(m, id), n, now),
                        )
                    } else {
                        (m, Seq::empty())
                    }
                },
                Option::None => (m, Seq::empty()),
            },
            WebSocketMessageType::UserList => (m, bcast(m, ser_env(users_env(names(m))))),
            WebSocketMessageType::System => (m, Seq::empty()),
        },
    }
}

// ---------------------------------------------------------------------
// The broadcast engine
// ---------------------------------------------------------------------

impl ChatRoom {
    /// Parses one inbound text frame; unparseable frames are reported
    /// as `None` and fall back to the raw broadcast path.
    pub fn parse_message(&self, msg: String) -> (r: Option<WebSocketMessage>)
        ensures
            match r {
                Some(v) => scan_env(msg@) == Some(v@) && v@.wf(),
                None => (scan_env(msg@) is None),
            },
    {
        parse_envelope(msg.as_str())
    }

    /// Delivers one raw text frame verbatim to every connection.
    pub fn broadcast(&self, frame: &str) -> (r: Vec<Outbound>)
        ensures
            outs_of(r@) == bcast(self@, frame@),
    {
        self.for_each_send(frame)
    }

    /// Announces a join or leave to every connection.
    pub fn update_status(&self, username: String, status: UserStatus, now: Timestamp) -> (r: Vec<
        Outbound,
    >)
        requires
            now.wf(),
        ensures
            outs_of(r@) == bcast(
                self@,
                ser_env(system_env(username@ + status_suffix(status), now)),
            ),
    {
        let suffix = match status {
            UserStatus::Join => " join the chat",
            UserStatus::Left => " left the chat",
        };
        let mut v = chars_of(username.as_str());
        let mut d = chars_of(suffix);
        v.append(&mut d);
        let body = string_of(&v);
        let env = WebSocketMessage::from_system_msg_at(body, now);
        let text = env.to_string();
        self.for_each_send(text.as_str())
    }

    /// Pushes a connection's current display name to that connection
    /// alone; an absent identity produces nothing.
    pub fn send_username(&self, user_id: usize) -> (r: Vec<Outbound>)
        requires
            self.wf(),
        ensures
            reg_contains(self@, user_id as int) ==> outs_of(r@) == seq![
                OutboundV {
                    to: user_id as int,
                    frame: ser_env(username_env(name_of(self@, user_id as int))),
                },
            ],
            !reg_contains(self@, user_id as int) ==> outs_of(r@) == Seq::<OutboundV>::empty(),
    {
        match self.find_index(user_id) {
            None => {
                let r: Vec<Outbound> = Vec::new();
                proof {
                    assert(outs_of(r@) =~= Seq::<OutboundV>::empty());
                }
                r
            },
            Some(k) => {
                let name = self.connections[k].username.clone();
                let env = WebSocketMessage::from_username(name);
                let text = env.to_string();
                let mut r: Vec<Outbound> = Vec::new();
                r.push(Outbound { to: user_id, frame: text });
                proof {
                    assert(outs_of(r@) =~= seq![
                        OutboundV {
                            to: user_id as int,
                            frame: ser_env(username_env(name_of(self@, user_id as int))),
                        },
                    ]);
                }
                r
            },
        }
    }

    /// Broadcasts a fresh snapshot of the display-name list to every
    /// connection.
    pub fn broadcast_users_list(&self) -> (r: Vec<Outbound>)
        ensures
            outs_of(r@) == bcast(self@, ser_env(users_env(names(self@)))),
    {
        let us = self.snapshot_names();
        let env = WebSocketMessage::from_users_list(us);
        let text = env.to_string();
        self.for_each_send(text.as_str())
    }

    /// Broadcasts one chat message to every connection, resolving an
    /// empty author from the sender's registered name; a sender no
    /// longer registered with an empty author produces nothing.
    pub fn broadcast_message(&self, msg: WebSocketMessage, user_id: usize) -> (r: Vec<Outbound>)
        requires
            self.wf(),
            (match msg@.message {
                Option::Some(cm) => cm.created_at.wf(),
                Option::None => true,
            }),
        ensures
            outs_of(r@) == new_message_outs(self@, user_id as int, msg@),
    {
        match msg.message {
            None => {
                let r: Vec<Outbound> = Vec::new();
                proof {
                    assert(outs_of(r@) =~= Seq::<OutboundV>::empty());
                }
                r
            },
            Some(chat_msg) => {
                if chat_msg.author.as_str().is_empty() {
                    match self.find_index(user_id) {
                        None => {
                            let r: Vec<Outbound> = Vec::new();
                            proof {
                                assert(outs_of(r@) =~= Seq::<OutboundV>::empty());
                            }
                            r
                        },
                        Some(k) => {
                            let author = self.connections[k].username.clone();
                            let env = WebSocketMessage::from_chat_msg(
                                ChatMessage::at_time(
                                    chat_msg.message,
                                    author,
                                    chat_msg.created_at,
                                ),
                            );
                            let text = env.to_string();
                            self.for_each_send(text.as_str())
                        },
                    }
                } else {
                    let env = WebSocketMessage::from_chat_msg(chat_msg);
                    let text = env.to_string();
                    self.for_each_send(text.as_str())
                }
            },
        }
    }

    /// Renames a connection: the renamer alone gets a confirmation,
    /// then everyone gets the notice and a fresh name list; a sender no
    /// longer registered is a silent no-op.
    pub fn change_username(&mut self, user_id: usize, new_username: String, now: Timestamp) -> (r:
        Vec<Outbound>)
        requires
            old(self).wf(),
            now.wf(),
        ensures
            final(self)@ == reg_rename(old(self)@, user_id as int, new_username@),
            final(self).wf(),
            final(self).connected_total == old(self).connected_total,
            reg_contains(old(self)@, user_id as int) ==> outs_of(r@) == rename_outs(
                final(self)@,
                user_id as int,
                name_of(old(self)@, user_id as int),
                new_username@,
                now,
            ),
            !reg_contains(old(self)@, user_id as int) ==> outs_of(r@)
                == Seq::<OutboundV>::empty(),
    {
        let confirm_name = new_username.clone();
        match self.rename(user_id, new_username) {
            Err(_) => {
                let r: Vec<Outbound> = Vec::new();
                proof {
                    assert(outs_of(r@) =~= Seq::<OutboundV>::empty());
                }
                r
            },
            Ok(old_name) => {
                let env = WebSocketMessage::from_username(confirm_name.clone());
                let confirm = env.to_string();
                let mut v = chars_of(old_name.as_str());
                let mut mid = chars_of(" changed username to ");
                let mut tail = chars_of(confirm_name.as_str());
                v.append(&mut mid);
                v.append(&mut tail);
                let body = string_of(&v);
                let sys = WebSocketMessage::from_system_msg_at(body, now);
                let sys_text = sys.to_string();
                let mut r: Vec<Outbound> = Vec::new();
                r.push(Outbound { to: user_id, frame: confirm });
                let mut a = self.for_each_send(sys_text.as_str());
                r.append(&mut a);
                let mut b = self.broadcast_users_list();
                r.append(&mut b);
                proof {
                    assert(outs_of(r@) =~= rename_outs(
                        self@,
                        user_id as int,
                        name_of(old(self)@, user_id as int),
                        confirm_name@,
                        now,
                    ));
                }
                r
            },
        }
    }

    /// Registers a fresh connection and produces the connect sequence:
    /// its assigned name to it alone, then the name list and the join
    /// notice to everyone.
    pub fn add(&mut self, user_id: usize, now: Timestamp) -> (r: Vec<Outbound>)
        requires
            old(self).wf(),
            !reg_contains(old(self)@, user_id as int),
            now.wf(),
        ensures
            final(self)@ == reg_add(old(self)@, user_id as int),
            final(self).wf(),
            final(self).connected_total as int == (if old(self).connected_total < u64::MAX {
                old(self).connected_total as int + 1
            } else {
                old(self).connected_total as int
            }),
            outs_of(r@) == seq![
                OutboundV {
                    to: user_id as int,
                    frame: ser_env(username_env(default_name(user_id as int))),
                },
            ] + bcast(final(self)@, ser_env(users_env(names(final(self)@)))) + bcast(
                final(self)@,
                ser_env(system_env(default_name(user_id as int) + status_suffix(UserStatus::Join), now)),
            ),
    {
        let username = self.add_connection(user_id);
        proof {
            assert(self@[self@.len() - 1].id == user_id as int);
            lemma_idx_unique(self@, user_id as int, self@.len() - 1);
            assert(reg_contains(self@, user_id as int));
            assert(name_of(self@, user_id as int) == default_name(user_id as int));
        }
        let mut r = self.send_username(user_id);
        let mut a = self.broadcast_users_list();
        r.append(&mut a);
        let mut b = self.update_status(username, UserStatus::Join, now);
        r.append(&mut b);
        proof {
            assert(outs_of(r@) =~= seq![
                OutboundV {
                    to: user_id as int,
                    frame: ser_env(username_env(default_name(user_id as int))),
                },
            ] + bcast(self@, ser_env(users_env(names(self@)))) + bcast(
                self@,
                ser_env(system_env(default_name(user_id as int) + status_suffix(UserStatus::Join), now)),
            ));
        }
        r
    }

    /// Unregisters a connection and, when it was present, announces the
    /// departure and a fresh name list to everyone left; a double
    /// cleanup is a silent no-op.
    pub fn flush(&mut self, user_id: usize, now: Timestamp) -> (r: Vec<Outbound>)
        requires
            old(self).wf(),
            now.wf(),
        ensures
            final(self)@ == reg_remove(old(self)@, user_id as int),
            final(self).wf(),
            final(self).connected_total == old(self).connected_total,
            reg_contains(old(self)@, user_id as int) ==> outs_of(r@) == bcast(
                final(self)@,
                ser_env(system_env(
                    name_of(old(self)@, user_id as int) + status_suffix(UserStatus::Left),
                    now,
                )),
            ) + bcast(final(self)@, ser_env(users_env(names(final(self)@)))),
            !reg_contains(old(self)@, user_id as int) ==> outs_of(r@)
                == Seq::<OutboundV>::empty(),
    {
        match self.remove(user_id) {
            None => {
                let r: Vec<Outbound> = Vec::new();
                proof {
                    assert(outs_of(r@) =~= Seq::<OutboundV>::empty());
                }
                r
            },
            Some(name) => {
                let mut r = self.update_status(name, UserStatus::Left, now);
                let mut b = self.broadcast_users_list();
                r.append(&mut b);
                proof {
                    assert(outs_of(r@) =~= bcast(
                        self@,
                        ser_env(system_env(
                            name_of(old(self)@, user_id as int) + status_suffix(UserStatus::Left),
                            now,
                        )),
                    ) + bcast(self@, ser_env(users_env(names(self@)))));
                }
                r
            },
        }
    }

    /// Dispatches one inbound text frame per the routing policy and
    /// returns every outbound delivery it causes.
    pub fn handle_chat_msg(&mut self, user_id: usize, msg: String, now: Timestamp) -> (r: Vec<
        Outbound,
    >)
        requires
            old(self).wf(),
            now.wf(),
        ensures
            final(self)@ == dispatch(old(self)@, user_id as int, msg@, now).0,
            outs_of(r@) == dispatch(old(self)@, user_id as int, msg@, now).1,
            final(self).wf(),
            final(self).connected_total == old(self).connected_total,
    {
        match self.parse_message(msg.clone()) {
            None => self.broadcast(msg.as_str()),
            Some(m) => match m.message_type {
                WebSocketMessageType::NewMessage => self.broadcast_message(m, user_id),
                WebSocketMessageType::UsernameChange => match m.username {
                    Some(n) => {
                        if !n.as_str().is_empty() {
                            self.change_username(user_id, n, now)
                        } else {
                            let r: Vec<Outbound> = Vec::new();
                            proof {
                                assert(outs_of(r@) =~= Seq::<OutboundV>::empty());
                            }
                            r
                        }
                    },
                    None => {
                        let r: Vec<Outbound> = Vec::new();
                        proof {
                            assert(outs_of(r@) =~= Seq::<OutboundV>::empty());
                        }
                        r
                    },
                },
                WebSocketMessageType::UserList => self.broadcast_users_list(),
                WebSocketMessageType::System => {
                    let r: Vec<Outbound> = Vec::new();
                    proof {
                        assert(outs_of(r@) =~= Seq::<OutboundV>::empty());
                    }
                    r
                },
            },
        }
    }
}


// ---------------------------------------------------------------------
// Laws of the registry and the engine
// ---------------------------------------------------------------------

/// Registering a fresh identity appends exactly one name, its default
/// one, to the snapshot; removing that identity restores the snapshot.
pub proof fn lemma_default_name_lifecycle(m: Seq<ConnV>, id: int)
    requires
        reg_wf(m),
        !reg_contains(m, id),
    ensures
        names(reg_add(m, id)) == names(m).push(default_name(id)),
        reg_remove(reg_add(m, id), id) == m,
        reg_wf(reg_add(m, id)),
{
    let m2 = reg_add(m, id);
    assert(m2[m2.len() - 1].id == id);
    assert(reg_contains(m2, id));
    assert forall|a: int, b: int| 0 <= a < b < m2.len() implies m2[a].id != m2[b].id by {
        if b == m2.len() - 1 {
            assert(m[a].id != id);
        }
    }
    lemma_idx_unique(m2, id, m2.len() - 1);
    assert(names(m2) =~= names(m).push(default_name(id)));
    m2.remove_ensures(m2.len() - 1);
    assert(reg_remove(m2, id) =~= m);
}

/// A chat message sent with an empty author is delivered to every
/// connection carrying the sender's currently registered display name.
pub proof fn lemma_author_resolved(m: Seq<ConnV>, id: int, body: Seq<char>, ts: Timestamp)
    requires
        reg_wf(m),
        reg_contains(m, id),
    ensures
        ({
            let outs = new_message_outs(m, id, chat_env(body, Seq::<char>::empty(), ts));
            outs.len() == m.len() && (forall|k: int|
                0 <= k < m.len() ==> outs[k] == (OutboundV {
                    to: m[k].id,
                    frame: ser_env(chat_env(body, name_of(m, id), ts)),
                }))
        }),
{
}

/// An unparseable frame changes nothing and is delivered verbatim, as
/// it came in, to every connection.
pub proof fn lemma_raw_fallback(m: Seq<ConnV>, id: int, raw: Seq<char>, now: Timestamp)
    requires
        (scan_env(raw) is None),
    ensures
        dispatch(m, id, raw, now).0 == m,
        dispatch(m, id, raw, now).1.len() == m.len(),
        forall|k: int|
            0 <= k < m.len() ==> dispatch(m, id, raw, now).1[k] == (OutboundV {
                to: m[k].id,
                frame: raw,
            }),
{
}

/// A successful rename confirms the new name to the renamer alone, and
/// sends everyone the notice and a name list that carries the new name.
pub proof fn lemma_rename_broadcasts(m: Seq<ConnV>, a: int, n: Seq<char>, now: Timestamp)
    requires
        reg_wf(m),
        reg_contains(m, a),
        n.len() > 0,
        now.wf(),
    ensures
        ({
            let m2 = reg_rename(m, a, n);
            let outs = rename_outs(m2, a, name_of(m, a), n, now);
            outs.len() == 1 + 2 * m.len() && outs[0] == (OutboundV {
                to: a,
                frame: ser_env(username_env(n)),
            }) && (forall|k: int|
                1 <= k < outs.len() ==> outs[k].frame != ser_env(username_env(n))) && (forall|
                k: int,
            |
                0 <= k < m.len() ==> outs[1 + k] == (OutboundV {
                    to: m2[k].id,
                    frame: ser_env(system_env(rename_notice(name_of(m, a), n), now)),
                })) && (forall|k: int|
                0 <= k < m.len() ==> outs[1 + m.len() + k] == (OutboundV {
                    to: m2[k].id,
                    frame: ser_env(users_env(names(m2))),
                })) && names(m2)[idx_of(m, a)] == n
        }),
{
    lemma_idx_of(m, a);
    let m2 = reg_rename(m, a, n);
    let outs = rename_outs(m2, a, name_of(m, a), n, now);
    let e1 = username_env(n);
    let e2 = system_env(rename_notice(name_of(m, a), n), now);
    let e3 = users_env(names(m2));
    assert(e1.wf());
    assert(e2.wf());
    assert(e3.wf());
    assert forall|k: int| 1 <= k < outs.len() implies outs[k].frame != ser_env(e1) by {
        if k < 1 + m.len() {
            assert(outs[k].frame == ser_env(e2));
            if ser_env(e2) == ser_env(e1) {
                crate::wire::lemma_ser_injective(e2, e1);
                assert(false);
            }
        } else {
            assert(outs[k].frame == ser_env(e3));
            if ser_env(e3) == ser_env(e1) {
                crate::wire::lemma_ser_injective(e3, e1);
                assert(false);
            }
        }
    }
    assert(names(m2)[idx_of(m, a)] == n);
}

/// A rename of one connection and a disconnect of another commute: in
/// either order the registry ends with the one renamed and the other
/// absent, and stays well formed.
pub proof fn lemma_rename_disconnect_commute(m: Seq<ConnV>, a: int, n: Seq<char>, b: int)
    requires
        reg_wf(m),
        a != b,
        reg_contains(m, a),
        reg_contains(m, b),
    ensures
        reg_remove(reg_rename(m, a, n), b) == reg_rename(reg_remove(m, b), a, n),
        reg_wf(reg_remove(reg_rename(m, a, n), b)),
        reg_contains(reg_remove(reg_rename(m, a, n), b), a),
        name_of(reg_remove(reg_rename(m, a, n), b), a) == n,
        !reg_contains(reg_remove(reg_rename(m, a, n), b), b),
{
    let ia = idx_of(m, a);
    let ib = idx_of(m, b);
    lemma_idx_of(m, a);
    lemma_idx_of(m, b);
    assert(ia != ib);
    let mr = m.update(ia, ConnV { id: a, name: n });
    assert(mr =~= reg_rename(m, a, n));
    assert forall|x: int, y: int| 0 <= x < y < mr.len() implies mr[x].id != mr[y].id by {
        assert(mr[x].id == m[x].id);
        assert(mr[y].id == m[y].id);
    }
    assert(mr[ib].id == b);
    assert(reg_contains(mr, b));
    lemma_idx_unique(mr, b, ib);
    let one = mr.remove(ib);
    assert(one =~= reg_remove(reg_rename(m, a, n), b));
    let mb = m.remove(ib);
    m.remove_ensures(ib);
    mr.remove_ensures(ib);
    assert(mb =~= reg_remove(m, b));
    assert forall|x: int, y: int| 0 <= x < y < mb.len() implies mb[x].id != mb[y].id by {
        let ox = if x < ib { x } else { x + 1 };
        let oy = if y < ib { y } else { y + 1 };
        assert(mb[x].id == m[ox].id);
        assert(mb[y].id == m[oy].id);
    }
    let ja = if ia < ib { ia } else { ia - 1 };
    assert(mb[ja].id == a);
    assert(reg_contains(mb, a));
    lemma_idx_unique(mb, a, ja);
    let other = mb.update(ja, ConnV { id: a, name: n });
    assert(other =~= reg_rename(reg_remove(m, b), a, n));
    assert forall|j: int| 0 <= j < one.len() implies one[j] == other[j] by {
        let oj = if j < ib { j } else { j + 1 };
        assert(one[j] == mr[oj]);
        assert(mb[j] == m[oj]);
        if oj == ia {
            assert(j == ja);
            assert(one[j] == (ConnV { id: a, name: n }));
            assert(other[j] == (ConnV { id: a, name: n }));
        } else {
            assert(one[j] == m[oj]);
            assert(j != ja || (j == ja && oj == ia));
            if j == ja {
                assert(false);
            }
            assert(other[j] == mb[j]);
        }
    }
    assert(one =~= other);
    assert forall|x: int, y: int| 0 <= x < y < one.len() implies one[x].id != one[y].id by {
        let ox = if x < ib { x } else { x + 1 };
        let oy = if y < ib { y } else { y + 1 };
        assert(one[x].id == mr[ox].id);
        assert(one[y].id == mr[oy].id);
    }
    assert(one[ja].id == a);
    assert(reg_contains(one, a));
    lemma_idx_unique(one, a, ja);
    assert(name_of(one, a) == n);
    assert forall|k: int| 0 <= k < one.len() implies one[k].id != b by {
        let ok = if k < ib { k } else { k + 1 };
        assert(one[k].id == mr[ok].id);
        lemma_idx_unique(mr, b, ib);
        if mr[ok].id == b {
            lemma_idx_unique(mr, b, ok);
            assert(false);
        }
    }
    assert(!reg_contains(one, b));
}

} // verus!
