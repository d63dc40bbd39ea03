use comm::store::{
    attachment_thumbnail_columns, column_additions_for, message_columns, row_body,
    stored_message, MessageRow, RowBody,
};

fn names(v: &[&str]) -> Vec<String> {
    v.iter().map(|s| s.to_string()).collect()
}

fn row(body: Option<&str>, ciphertext: Option<Vec<u8>>, nonce: Option<Vec<u8>>) -> MessageRow {
    MessageRow {
        id: 7,
        sender: "u1".to_owned(),
        body: body.map(str::to_owned),
        body_ciphertext: ciphertext,
        body_nonce: nonce,
        created_at: "2026-01-01T00:00:00.000Z".to_owned(),
        read_at: None,
    }
}

#[test]
fn fresh_database_gets_every_message_column() {
    let sql = column_additions_for("messages", &message_columns(), &names(&["id", "sender", "body"]));
    assert_eq!(
        sql,
        vec![
            "ALTER TABLE messages ADD COLUMN body_ciphertext BLOB",
            "ALTER TABLE messages ADD COLUMN body_nonce BLOB",
            "ALTER TABLE messages ADD COLUMN deleted_at TEXT",
        ]
    );
}

#[test]
fn existing_columns_are_not_added_again() {
    let existing = names(&["id", "body_nonce", "body_ciphertext", "deleted_at"]);
    assert!(column_additions_for("messages", &message_columns(), &existing).is_empty());

    let partial = names(&["thumbnail_mime_type", "thumbnail_nonce"]);
    assert_eq!(
        column_additions_for("attachments", &attachment_thumbnail_columns(), &partial),
        vec![
            "ALTER TABLE attachments ADD COLUMN thumbnail_stored_name TEXT",
            "ALTER TABLE attachments ADD COLUMN thumbnail_size_bytes INTEGER",
        ]
    );
}

#[test]
fn encrypted_rows_are_decrypted() {
    let r = row(Some(""), Some(vec![1, 2, 3]), Some(vec![9; 24]));
    match row_body(&r) {
        RowBody::Encrypted { ciphertext, nonce } => {
            assert_eq!(ciphertext, vec![1, 2, 3]);
            assert_eq!(nonce, vec![9; 24]);
        }
        other => panic!("unexpected {other:?}"),
    }
}

#[test]
fn plain_rows_are_read_and_encrypted_in_place() {
    match row_body(&row(Some("hello"), None, None)) {
        RowBody::Plain { body, encrypt_in_place } => {
            assert_eq!(body, "hello");
            assert!(encrypt_in_place);
        }
        other => panic!("unexpected {other:?}"),
    }
    match row_body(&row(None, Some(vec![1]), None)) {
        RowBody::Plain { body, encrypt_in_place } => {
            assert_eq!(body, "");
            assert!(!encrypt_in_place);
        }
        other => panic!("unexpected {other:?}"),
    }
}

#[test]
fn stored_message_keeps_row_fields() {
    let m = stored_message(row(None, None, None), "decrypted".to_owned());
    assert_eq!(m.id, 7);
    assert_eq!(m.sender, "u1");
    assert_eq!(m.body, "decrypted");
    assert_eq!(m.created_at, "2026-01-01T00:00:00.000Z");
    assert_eq!(m.read_at, None);
}

#[test]
fn a_second_pass_adds_no_columns() {
    let existing = names(&["id", "body_nonce"]);
    let first = column_additions_for("messages", &message_columns(), &existing);
    assert_eq!(first.len(), 2);
    let after = names(&["id", "body_nonce", "body_ciphertext", "deleted_at"]);
    assert!(column_additions_for("messages", &message_columns(), &after).is_empty());
}
