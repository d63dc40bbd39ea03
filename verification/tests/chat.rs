use comm::chat::{
    accept_message_body, activity_logs_event, client_action, event_for_reply, presence_log_line,
    should_deliver, ChatMessage, ClientAction, ClientEvent, ServerEvent, StoreReply,
    MAX_MESSAGE_LEN,
};
use comm::store::{ActivityLog, ReadReceipt, StoredMessage};

fn log(at: &str, user: &str, action: &str) -> ActivityLog {
    ActivityLog {
        occurred_at: at.to_owned(),
        username: user.to_owned(),
        action: action.to_owned(),
    }
}

#[test]
fn message_bodies_are_trimmed_and_bounded() {
    assert_eq!(accept_message_body("  hi  ").as_deref(), Some("hi"));
    assert_eq!(accept_message_body(" \n\t "), None);
    assert_eq!(accept_message_body(""), None);
    let longest = "a".repeat(MAX_MESSAGE_LEN);
    assert_eq!(accept_message_body(&longest).as_deref(), Some(longest.as_str()));
    assert_eq!(accept_message_body(&"a".repeat(MAX_MESSAGE_LEN + 1)), None);
    // The limit is in bytes: 1000 two-byte characters fit, 1001 do not.
    assert!(accept_message_body(&"é".repeat(1000)).is_some());
    assert!(accept_message_body(&"é".repeat(1001)).is_none());
    // Surrounding whitespace does not count.
    assert!(accept_message_body(&format!("  {longest}  ")).is_some());
}

#[test]
fn delivery_rules() {
    let hide = ServerEvent::DeleteForMe { id: 1, username: "u1".to_owned() };
    assert!(should_deliver(&hide, "u1"));
    assert!(!should_deliver(&hide, "u2"));

    let logs = ServerEvent::ActivityLogs { username: "u2".to_owned(), logs: vec![] };
    assert!(should_deliver(&logs, "u2"));
    assert!(!should_deliver(&logs, "u1"));

    let typing = ServerEvent::Typing { from: "u1".to_owned(), is_typing: true };
    assert!(!should_deliver(&typing, "u1"));
    assert!(should_deliver(&typing, "u2"));

    let presence = ServerEvent::Presence { username: "u1".to_owned(), online: true };
    assert!(should_deliver(&presence, "u1"));
    assert!(should_deliver(&ServerEvent::DeleteForEveryone { id: 3 }, "u2"));
}

#[test]
fn client_events_become_actions() {
    match client_action("u1", ClientEvent::Message { body: "  hello ".to_owned() }) {
        ClientAction::SaveMessage { body } => assert_eq!(body, "hello"),
        other => panic!("unexpected {other:?}"),
    }
    assert!(matches!(
        client_action("u1", ClientEvent::Message { body: "   ".to_owned() }),
        ClientAction::Ignore
    ));
    assert!(matches!(
        client_action("u1", ClientEvent::DeleteForMe { id: 4 }),
        ClientAction::HideForMe { id: 4 }
    ));
    assert!(matches!(
        client_action("u1", ClientEvent::DeleteForEveryone { id: 5 }),
        ClientAction::DeleteForEveryone { id: 5 }
    ));
    assert!(matches!(
        client_action("u1", ClientEvent::Read { id: 6 }),
        ClientAction::MarkRead { id: 6 }
    ));
    assert!(matches!(
        client_action("u1", ClientEvent::ActivityLogs),
        ClientAction::LoadActivityLogs
    ));
    match client_action("u2", ClientEvent::Typing { is_typing: false }) {
        ClientAction::Broadcast(ServerEvent::Typing { from, is_typing }) => {
            assert_eq!(from, "u2");
            assert!(!is_typing);
        }
        other => panic!("unexpected {other:?}"),
    }
}

#[test]
fn store_replies_become_broadcasts() {
    let saved = StoredMessage {
        id: 1,
        sender: "u1".to_owned(),
        body: "hi".to_owned(),
        created_at: "t".to_owned(),
        read_at: None,
    };
    match event_for_reply("u1", StoreReply::Saved(saved)) {
        Some(ServerEvent::Message(ChatMessage { id, from, body, created_at, read_at })) => {
            assert_eq!((id, from.as_str(), body.as_str(), created_at.as_str()), (1, "u1", "hi", "t"));
            assert_eq!(read_at, None);
        }
        other => panic!("unexpected {other:?}"),
    }
    match event_for_reply("u2", StoreReply::Hidden { id: 9, hidden: true }) {
        Some(ServerEvent::DeleteForMe { id, username }) => {
            assert_eq!(id, 9);
            assert_eq!(username, "u2");
        }
        other => panic!("unexpected {other:?}"),
    }
    assert!(event_for_reply("u2", StoreReply::Hidden { id: 9, hidden: false }).is_none());
    assert!(matches!(
        event_for_reply("u1", StoreReply::DeletedForEveryone { id: 2, deleted: true }),
        Some(ServerEvent::DeleteForEveryone { id: 2 })
    ));
    assert!(event_for_reply("u1", StoreReply::DeletedForEveryone { id: 2, deleted: false }).is_none());
    let receipt = ReadReceipt { message_id: 3, username: "u2".to_owned(), read_at: "r".to_owned() };
    match event_for_reply("u2", StoreReply::Marked(Some(receipt))) {
        Some(ServerEvent::Read { id, by, read_at }) => {
            assert_eq!((id, by.as_str(), read_at.as_str()), (3, "u2", "r"));
        }
        other => panic!("unexpected {other:?}"),
    }
    assert!(event_for_reply("u2", StoreReply::Marked(None)).is_none());
    assert!(event_for_reply("u2", StoreReply::Failed).is_none());
    match event_for_reply("u1", StoreReply::ActivityLogs(vec![log("a", "u2", "online")])) {
        Some(ServerEvent::ActivityLogs { username, logs }) => {
            assert_eq!(username, "u1");
            assert_eq!(logs.len(), 1);
            assert_eq!(logs[0].action, "online");
        }
        other => panic!("unexpected {other:?}"),
    }
}

#[test]
fn activity_view_keeps_log_order() {
    let event = activity_logs_event(
        "u1",
        vec![log("2026-06-02 08:24:17", "alice", "online"), log("2026-06-02 08:24:31", "alice", "offline")],
    );
    match event {
        ServerEvent::ActivityLogs { username, logs } => {
            assert_eq!(username, "u1");
            assert_eq!(logs[0].occurred_at, "2026-06-02 08:24:17");
            assert_eq!(logs[1].action, "offline");
            assert_eq!(logs[1].username, "alice");
        }
        other => panic!("unexpected {other:?}"),
    }
}

#[test]
fn presence_lines_match_the_activity_view() {
    assert_eq!(
        presence_log_line("2026-06-02 08:24:17", "alice", "online"),
        "2026-06-02 08:24:17 user online: alice"
    );
    assert_eq!(
        presence_log_line("2026-06-02 08:24:31", "alice", "offline"),
        "2026-06-02 08:24:31 user offline: alice"
    );
}
