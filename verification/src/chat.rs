//! The chat protocol: what clients send, what the server broadcasts, and the
//! decisions that the WebSocket loop takes between the two.
use vstd::prelude::*;
use vstd::std_specs::convert::FromSpecImpl;
use vstd::utf8::encode_utf8;

use crate::store::{ActivityLog, ReadReceipt, StoredMessage};
use crate::text::{
    chars_of, extend_str, in_class, is_ws, lemma_trim_class, str_eq, string_of, trim, trim_class,
    trim_vec, utf8_len_exceeds, CharClass,
};

verus! {

/// The longest message body accepted, in bytes.
pub const MAX_MESSAGE_LEN: usize = 2_000;

/// A message as clients see it.
#[derive(Clone, Debug)]
pub struct ChatMessage {
    pub id: i64,
    pub from: String,
    pub body: String,
    pub created_at: String,
    pub read_at: Option<String>,
}

/// One line of the activity view.
#[derive(Clone, Debug)]
pub struct ActivityLogEntry {
    pub occurred_at: String,
    pub username: String,
    pub action: String,
}

/// What the server broadcasts to every open connection.
#[derive(Clone, Debug)]
pub enum ServerEvent {
    Message(ChatMessage),
    /// Hides a message for `username` only.
    DeleteForMe { id: i64, username: String },
    DeleteForEveryone { id: i64 },
    Typing { from: String, is_typing: bool },
    Presence { username: String, online: bool },
    Read { id: i64, by: String, read_at: String },
    /// The activity view requested by `username`.
    ActivityLogs { username: String, logs: Vec<ActivityLogEntry> },
}

/// What a client sends.
#[derive(Clone, Debug)]
pub enum ClientEvent {
    Message { body: String },
    DeleteForMe { id: i64 },
    DeleteForEveryone { id: i64 },
    Typing { is_typing: bool },
    Read { id: i64 },
    ActivityLogs,
}

impl From<ActivityLog> for ActivityLogEntry {
    fn from(log: ActivityLog) -> (entry: Self) {
        ActivityLogEntry { occurred_at: log.occurred_at, username: log.username, action: log.action }
    }
}

impl FromSpecImpl<ActivityLog> for ActivityLogEntry {
    open spec fn obeys_from_spec() -> bool {
        true
    }

    open spec fn from_spec(log: ActivityLog) -> Self {
        ActivityLogEntry { occurred_at: log.occurred_at, username: log.username, action: log.action }
    }
}

impl From<StoredMessage> for ChatMessage {
    fn from(message: StoredMessage) -> (m: Self) {
        ChatMessage {
            id: message.id,
            from: message.sender,
            body: message.body,
            created_at: message.created_at,
            read_at: message.read_at,
        }
    }
}

impl FromSpecImpl<StoredMessage> for ChatMessage {
    open spec fn obeys_from_spec() -> bool {
        true
    }

    open spec fn from_spec(message: StoredMessage) -> Self {
        ChatMessage {
            id: message.id,
            from: message.sender,
            body: message.body,
            created_at: message.created_at,
            read_at: message.read_at,
        }
    }
}

impl From<ReadReceipt> for ServerEvent {
    fn from(receipt: ReadReceipt) -> (event: Self) {
        ServerEvent::Read { id: receipt.message_id, by: receipt.username, read_at: receipt.read_at }
    }
}

impl FromSpecImpl<ReadReceipt> for ServerEvent {
    open spec fn obeys_from_spec() -> bool {
        true
    }

    open spec fn from_spec(receipt: ReadReceipt) -> Self {
        ServerEvent::Read { id: receipt.message_id, by: receipt.username, read_at: receipt.read_at }
    }
}

/// The body that a message is stored with: trimmed, and refused when
/// nothing is left or it is longer than [`MAX_MESSAGE_LEN`] bytes.
pub open spec fn accepted_body(body: Seq<char>) -> Option<Seq<char>> {
    let t = trim(body);
    if t.len() == 0 || encode_utf8(t).len() > MAX_MESSAGE_LEN {
        None
    } else {
        Some(t)
    }
}

/// A stored body is the message with its surrounding whitespace removed: a
/// stretch of it, not empty, neither starting nor ending with whitespace,
/// and at most 2000 bytes in UTF-8; what was cut off is whitespace.  A
/// message that is only whitespace is never stored.
pub proof fn lemma_accepted_body(body: Seq<char>)
    ensures
        accepted_body(body) matches Some(t) ==> {
            &&& t.len() > 0
            &&& !is_ws(t[0]) && !is_ws(t.last())
            &&& encode_utf8(t).len() <= 2000
            &&& exists|i: int, j: int|
                0 <= i <= j <= body.len() && t == body.subrange(i, j) && (forall|k: int|
                    0 <= k < i ==> is_ws(#[trigger] body[k])) && (forall|k: int|
                    j <= k < body.len() ==> is_ws(#[trigger] body[k]))
        },
        (forall|k: int| 0 <= k < body.len() ==> is_ws(#[trigger] body[k])) ==> accepted_body(body)
            is None,
{
    lemma_trim_class(body, CharClass::Whitespace);
    if forall|k: int| 0 <= k < body.len() ==> is_ws(#[trigger] body[k]) {
        let t = trim(body);
        if t.len() > 0 {
            let (i, j) = choose|i: int, j: int|
                0 <= i <= j <= body.len() && trim_class(body, CharClass::Whitespace)
                    == body.subrange(i, j) && (forall|k: int|
                    0 <= k < i ==> in_class(CharClass::Whitespace, #[trigger] body[k])) && (
                forall|k: int|
                    j <= k < body.len() ==> in_class(CharClass::Whitespace, #[trigger] body[k]));
            assert(t[0] == body[i]);
        }
    }
}

/// A hide and an activity view reach only the user they are for; a typing
/// notice reaches everyone but its sender; everything else reaches everyone.
pub proof fn lemma_delivery(event: ServerEvent, recipient: Seq<char>)
    ensures
        event matches ServerEvent::DeleteForMe { username, .. } ==> (delivered_to(event, recipient)
            <==> username@ == recipient),
        event matches ServerEvent::ActivityLogs { username, .. } ==> (delivered_to(
            event,
            recipient,
        ) <==> username@ == recipient),
        event matches ServerEvent::Typing { from, .. } ==> (delivered_to(event, recipient)
            <==> from@ != recipient),
        (event is Message || event is DeleteForEveryone || event is Presence || event is Read)
            ==> delivered_to(event, recipient),
{
}

pub fn accept_message_body(body: &str) -> (accepted: Option<String>)
    ensures
        accepted matches Some(b) ==> accepted_body(body@) == Some(b@),
        accepted is None ==> accepted_body(body@) is None,
{
    let t = trim_vec(&chars_of(body));
    if t.len() == 0 || utf8_len_exceeds(&t, MAX_MESSAGE_LEN) {
        None
    } else {
        Some(string_of(&t))
    }
}

/// Whether a connection of `recipient` forwards `event`: a hide or an
/// activity view only to the user it is for, typing of everyone else.
pub open spec fn delivered_to(event: ServerEvent, recipient: Seq<char>) -> bool {
    match event {
        ServerEvent::DeleteForMe { username, .. } => username@ == recipient,
        ServerEvent::ActivityLogs { username, .. } => username@ == recipient,
        ServerEvent::Typing { from, .. } => from@ != recipient,
        _ => true,
    }
}

pub fn should_deliver(event: &ServerEvent, recipient: &str) -> (deliver: bool)
    ensures
        deliver == delivered_to(*event, recipient@),
{
    match event {
        ServerEvent::DeleteForMe { username, .. } => str_eq(username.as_str(), recipient),
        ServerEvent::ActivityLogs { username, .. } => str_eq(username.as_str(), recipient),
        ServerEvent::Typing { from, .. } => !str_eq(from.as_str(), recipient),
        _ => true,
    }
}

/// What the server does with an event from a client.
#[derive(Debug)]
pub enum ClientAction {
    /// Store a message with this body and broadcast it.
    SaveMessage { body: String },
    /// Hide a message for the sender and tell the sender's connections.
    HideForMe { id: i64 },
    /// Delete a message of the sender for everyone.
    DeleteForEveryone { id: i64 },
    /// Broadcast this event as it is.
    Broadcast(ServerEvent),
    /// Record that the sender read a message.
    MarkRead { id: i64 },
    /// Send the sender the recent activity.
    LoadActivityLogs,
    /// Nothing.
    Ignore,
}

pub fn client_action(username: &str, event: ClientEvent) -> (action: ClientAction)
    ensures
        match event {
            ClientEvent::Message { body } => match accepted_body(body@) {
                Some(b) => action matches ClientAction::SaveMessage { body: saved } && saved@ == b,
                None => action matches ClientAction::Ignore,
            },
            ClientEvent::DeleteForMe { id } => action == ClientAction::HideForMe { id },
            ClientEvent::DeleteForEveryone { id } => action == ClientAction::DeleteForEveryone {
                id,
            },
            ClientEvent::Typing { is_typing } => action matches ClientAction::Broadcast(
                ServerEvent::Typing { from, is_typing: t },
            ) && from@ == username@ && t == is_typing,
            ClientEvent::Read { id } => action == ClientAction::MarkRead { id },
            ClientEvent::ActivityLogs => action == ClientAction::LoadActivityLogs,
        },
{
    match event {
        ClientEvent::Message { body } => match accept_message_body(body.as_str()) {
            Some(b) => ClientAction::SaveMessage { body: b },
            None => ClientAction::Ignore,
        },
        ClientEvent::DeleteForMe { id } => ClientAction::HideForMe { id },
        ClientEvent::DeleteForEveryone { id } => ClientAction::DeleteForEveryone { id },
        ClientEvent::Typing { is_typing } => ClientAction::Broadcast(
            ServerEvent::Typing { from: String::from_str(username), is_typing },
        ),
        ClientEvent::Read { id } => ClientAction::MarkRead { id },
        ClientEvent::ActivityLogs => ClientAction::LoadActivityLogs,
    }
}

pub open spec fn entry_of(log: ActivityLog) -> ActivityLogEntry {
    ActivityLogEntry { occurred_at: log.occurred_at, username: log.username, action: log.action }
}

/// The activity view for `username`, one entry per log in order.
pub fn activity_logs_event(username: &str, logs: Vec<ActivityLog>) -> (event: ServerEvent)
    ensures
        event matches ServerEvent::ActivityLogs { username: u, logs: entries } && u@ == username@
            && entries@.len() == logs@.len() && forall|i: int|
            0 <= i < logs@.len() ==> #[trigger] entries@[i] == entry_of(logs@[i]),
{
    let mut entries: Vec<ActivityLogEntry> = Vec::new();
    let mut i: usize = 0;
    while i < logs.len()
        invariant
            i <= logs@.len(),
            entries@.len() == i,
            forall|j: int| 0 <= j < i ==> #[trigger] entries@[j] == entry_of(logs@[j]),
        decreases logs@.len() - i,
    {
        let log = &logs[i];
        entries.push(
            ActivityLogEntry {
                occurred_at: log.occurred_at.clone(),
                username: log.username.clone(),
                action: log.action.clone(),
            },
        );
        i += 1;
    }
    ServerEvent::ActivityLogs { username: String::from_str(username), logs: entries }
}

/// What the message store answered when the server carried out a
/// [`ClientAction`] of a user.
pub enum StoreReply {
    /// The message was stored.
    Saved(StoredMessage),
    /// Whether message `id` was hidden for the user.
    Hidden { id: i64, hidden: bool },
    /// Whether message `id` was deleted for everyone.
    DeletedForEveryone { id: i64, deleted: bool },
    /// The read receipt, when the user may read the message.
    Marked(Option<ReadReceipt>),
    /// The recent presence events.
    ActivityLogs(Vec<ActivityLog>),
    /// The store failed.
    Failed,
}

pub open spec fn chat_message_of(message: StoredMessage) -> ChatMessage {
    ChatMessage {
        id: message.id,
        from: message.sender,
        body: message.body,
        created_at: message.created_at,
        read_at: message.read_at,
    }
}

/// What the server broadcasts after the store answered an action of
/// `username`: the stored message, a hide for the user's own connections, a
/// deletion, a read receipt, or the activity view for the user; nothing when
/// the store changed nothing or failed.
pub fn event_for_reply(username: &str, reply: StoreReply) -> (event: Option<ServerEvent>)
    ensures
        match reply {
            StoreReply::Saved(m) => event == Some(ServerEvent::Message(chat_message_of(m))),
            StoreReply::Hidden { id, hidden } => if hidden {
                event matches Some(ServerEvent::DeleteForMe { id: i, username: u }) && i == id
                    && u@ == username@
            } else {
                event is None
            },
            StoreReply::DeletedForEveryone { id, deleted } => if deleted {
                event == Some(ServerEvent::DeleteForEveryone { id })
            } else {
                event is None
            },
            StoreReply::Marked(receipt) => match receipt {
                Some(r) => event == Some(
                    ServerEvent::Read { id: r.message_id, by: r.username, read_at: r.read_at },
                ),
                None => event is None,
            },
            StoreReply::ActivityLogs(logs) => event matches Some(
                ServerEvent::ActivityLogs { username: u, logs: entries },
            ) && u@ == username@ && entries@ == logs@.map_values(|l: ActivityLog| entry_of(l)),
            StoreReply::Failed => event is None,
        },
{
    match reply {
        StoreReply::Saved(m) => Some(ServerEvent::Message(ChatMessage::from(m))),
        StoreReply::Hidden { id, hidden } => if hidden {
            Some(ServerEvent::DeleteForMe { id, username: String::from_str(username) })
        } else {
            None
        },
        StoreReply::DeletedForEveryone { id, deleted } => if deleted {
            Some(ServerEvent::DeleteForEveryone { id })
        } else {
            None
        },
        StoreReply::Marked(receipt) => match receipt {
            Some(r) => Some(ServerEvent::from(r)),
            None => None,
        },
        StoreReply::ActivityLogs(logs) => {
            let ghost l = logs@;
            let event = activity_logs_event(username, logs);
            assert(event->ActivityLogs_logs@ =~= l.map_values(|x: ActivityLog| entry_of(x)));
            Some(event)
        },
        StoreReply::Failed => None,
    }
}

/// The line printed when a user comes online or goes offline.
pub open spec fn presence_line(timestamp: Seq<char>, username: Seq<char>, status: Seq<char>) -> Seq<
    char,
> {
    timestamp + " user "@ + status + ": "@ + username
}

pub fn presence_log_line(timestamp: &str, username: &str, status: &str) -> (line: String)
    ensures
        line@ == presence_line(timestamp@, username@, status@),
{
    let mut out = chars_of(timestamp);
    extend_str(&mut out, " user ");
    extend_str(&mut out, status);
    extend_str(&mut out, ": ");
    extend_str(&mut out, username);
    string_of(&out)
}

} // verus!
