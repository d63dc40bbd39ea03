//! The records that the message store keeps, and the decisions it takes
//! around the database: which columns an older database still lacks, and how
//! the body of a stored row is read.
use vstd::prelude::*;

use crate::text::{chars_of, extend_str, str_eq, string_of};

verus! {

/// How many recent messages a new connection receives.
pub const HISTORY_LIMIT: i64 = 100;

/// How many recent presence events the activity view shows.
pub const ACTIVITY_LOG_LIMIT: i64 = 200;

/// A message as stored, with its body decrypted.
#[derive(Debug)]
pub struct StoredMessage {
    pub id: i64,
    pub sender: String,
    pub body: String,
    pub created_at: String,
    pub read_at: Option<String>,
}

/// That `username` has read message `message_id`, and when.
#[derive(Clone, Debug)]
pub struct ReadReceipt {
    pub message_id: i64,
    pub username: String,
    pub read_at: String,
}

/// A user coming online or going offline.
#[derive(Clone, Debug)]
pub struct ActivityLog {
    pub occurred_at: String,
    pub username: String,
    pub action: String,
}

/// A row of the `messages` table as read from the database.  Rows written
/// before bodies were encrypted hold the body in plain text and no
/// ciphertext.
#[derive(Debug)]
pub struct MessageRow {
    pub id: i64,
    pub sender: String,
    pub body: Option<String>,
    pub body_ciphertext: Option<Vec<u8>>,
    pub body_nonce: Option<Vec<u8>>,
    pub created_at: String,
    pub read_at: Option<String>,
}

/// Where the body of a row comes from.
#[derive(Debug)]
pub enum RowBody {
    /// Decrypt `ciphertext` with `nonce`.
    Encrypted { ciphertext: Vec<u8>, nonce: Vec<u8> },
    /// The body is stored in plain text; when it is not empty, the row is to
    /// be encrypted in place.
    Plain { body: String, encrypt_in_place: bool },
}

/// How the body of `row` is read: from its ciphertext when it has both a
/// ciphertext and a nonce, and otherwise from its plain-text body (empty
/// when it has none).
pub fn row_body(row: &MessageRow) -> (b: RowBody)
    ensures
        match (row.body_ciphertext, row.body_nonce) {
            (Some(c), Some(n)) => b matches RowBody::Encrypted { ciphertext, nonce } && ciphertext@
                == c@ && nonce@ == n@,
            _ => b matches RowBody::Plain { body, encrypt_in_place } && body@ == (match row.body {
                Some(t) => t@,
                None => Seq::<char>::empty(),
            }) && encrypt_in_place == (body@.len() > 0),
        },
{
    match (&row.body_ciphertext, &row.body_nonce) {
        (Some(c), Some(n)) => RowBody::Encrypted { ciphertext: c.clone(), nonce: n.clone() },
        _ => {
            let body = match &row.body {
                Some(t) => string_of(&chars_of(t.as_str())),
                None => string_of(&Vec::new()),
            };
            let encrypt_in_place = !body.as_str().is_empty();
            RowBody::Plain { body, encrypt_in_place }
        },
    }
}

/// The message of `row`, with `body` as its body.
pub fn stored_message(row: MessageRow, body: String) -> (m: StoredMessage)
    ensures
        m == (StoredMessage {
            id: row.id,
            sender: row.sender,
            body,
            created_at: row.created_at,
            read_at: row.read_at,
        }),
{
    StoredMessage {
        id: row.id,
        sender: row.sender,
        body,
        created_at: row.created_at,
        read_at: row.read_at,
    }
}

/// The statement that adds column `name` of type `sql_type` to `table`.
pub open spec fn add_column_sql(table: Seq<char>, name: Seq<char>, sql_type: Seq<char>) -> Seq<char> {
    "ALTER TABLE "@ + table + " ADD COLUMN "@ + name + " "@ + sql_type
}

/// The statements that add to `table` each of `required` (name and type),
/// in order, that is not among `existing`.
pub open spec fn column_additions(
    table: Seq<char>,
    required: Seq<(Seq<char>, Seq<char>)>,
    existing: Seq<Seq<char>>,
) -> Seq<Seq<char>>
    decreases required.len(),
{
    if required.len() == 0 {
        seq![]
    } else {
        let before = column_additions(table, required.drop_last(), existing);
        let (name, sql_type) = required.last();
        if existing.contains(name) {
            before
        } else {
            before.push(add_column_sql(table, name, sql_type))
        }
    }
}

/// The names of `required` that `existing` lacks, in order.
pub open spec fn missing_columns(
    required: Seq<(Seq<char>, Seq<char>)>,
    existing: Seq<Seq<char>>,
) -> Seq<Seq<char>>
    decreases required.len(),
{
    if required.len() == 0 {
        seq![]
    } else {
        let before = missing_columns(required.drop_last(), existing);
        if existing.contains(required.last().0) {
            before
        } else {
            before.push(required.last().0)
        }
    }
}

proof fn lemma_no_additions_when_present(
    table: Seq<char>,
    required: Seq<(Seq<char>, Seq<char>)>,
    existing: Seq<Seq<char>>,
)
    requires
        forall|i: int| 0 <= i < required.len() ==> existing.contains(#[trigger] required[i].0),
    ensures
        column_additions(table, required, existing) == Seq::<Seq<char>>::empty(),
    decreases required.len(),
{
    if required.len() > 0 {
        let front = required.drop_last();
        assert forall|i: int| 0 <= i < front.len() implies existing.contains(
            #[trigger] front[i].0,
        ) by {
            assert(front[i] == required[i]);
        }
        lemma_no_additions_when_present(table, front, existing);
        assert(existing.contains(required[required.len() - 1].0));
    }
}

proof fn lemma_missing_columns_cover(
    required: Seq<(Seq<char>, Seq<char>)>,
    existing: Seq<Seq<char>>,
)
    ensures
        forall|i: int|
            0 <= i < required.len() ==> (existing + missing_columns(required, existing)).contains(
                #[trigger] required[i].0,
            ),
    decreases required.len(),
{
    if required.len() > 0 {
        let front = required.drop_last();
        let name = required.last().0;
        lemma_missing_columns_cover(front, existing);
        let mf = missing_columns(front, existing);
        let m = missing_columns(required, existing);
        assert forall|i: int| 0 <= i < required.len() implies (existing + m).contains(
            #[trigger] required[i].0,
        ) by {
            if i < front.len() {
                assert(front[i] == required[i]);
                assert((existing + mf).contains(front[i].0));
                let k = choose|k: int| 0 <= k < (existing + mf).len() && (existing + mf)[k]
                    == front[i].0;
                assert((existing + m)[k] == (existing + mf)[k]);
            } else if existing.contains(name) {
                let k = choose|k: int| 0 <= k < existing.len() && existing[k] == name;
                assert((existing + m)[k] == name);
            } else {
                assert((existing + m)[(existing.len() + mf.len()) as int] == name);
            }
        }
    }
}

/// Adding the missing columns brings the table up to date: none is added
/// when all are there, one statement is made per missing column, and with
/// the missing columns added, a second pass adds nothing.
pub proof fn lemma_column_additions_complete(
    table: Seq<char>,
    required: Seq<(Seq<char>, Seq<char>)>,
    existing: Seq<Seq<char>>,
)
    ensures
        (forall|i: int| 0 <= i < required.len() ==> existing.contains(#[trigger] required[i].0))
            ==> column_additions(table, required, existing) == Seq::<Seq<char>>::empty(),
        column_additions(table, required, existing).len() == missing_columns(required, existing).len(),
        column_additions(table, required, existing + missing_columns(required, existing))
            == Seq::<Seq<char>>::empty(),
{
    if forall|i: int| 0 <= i < required.len() ==> existing.contains(#[trigger] required[i].0) {
        lemma_no_additions_when_present(table, required, existing);
    }
    lemma_missing_columns_cover(required, existing);
    lemma_additions_len(table, required, existing);
    lemma_no_additions_when_present(table, required, existing + missing_columns(required, existing));
}

proof fn lemma_additions_len(
    table: Seq<char>,
    required: Seq<(Seq<char>, Seq<char>)>,
    existing: Seq<Seq<char>>,
)
    ensures
        column_additions(table, required, existing).len() == missing_columns(required, existing).len(),
    decreases required.len(),
{
    if required.len() > 0 {
        lemma_additions_len(table, required.drop_last(), existing);
    }
}

pub open spec fn column_pairs(required: Seq<(String, String)>) -> Seq<(Seq<char>, Seq<char>)> {
    required.map_values(|p: (String, String)| (p.0@, p.1@))
}

pub open spec fn strings(v: Seq<String>) -> Seq<Seq<char>> {
    v.map_values(|s: String| s@)
}

fn contains_string(v: &Vec<String>, s: &str) -> (r: bool)
    ensures
        r == strings(v@).contains(s@),
{
    let mut i: usize = 0;
    while i < v.len()
        invariant
            i <= v.len(),
            forall|j: int| 0 <= j < i ==> v@[j]@ != s@,
        decreases v.len() - i,
    {
        if str_eq(v[i].as_str(), s) {
            assert(strings(v@)[i as int] == s@);
            return true;
        }
        i += 1;
    }
    proof {
        if strings(v@).contains(s@) {
            let k = choose|k: int| 0 <= k < strings(v@).len() && strings(v@)[k] == s@;
            assert(v@[k]@ == s@);
        }
    }
    false
}

/// The statements that bring `table` up to the columns in `required`, given
/// the columns it has.
pub fn column_additions_for(table: &str, required: &Vec<(String, String)>, existing: &Vec<String>) -> (sql: Vec<String>)
    ensures
        strings(sql@) == column_additions(table@, column_pairs(required@), strings(existing@)),
{
    let mut sql: Vec<String> = Vec::new();
    let mut i: usize = 0;
    while i < required.len()
        invariant
            i <= required.len(),
            strings(sql@) == column_additions(
                table@,
                column_pairs(required@).take(i as int),
                strings(existing@),
            ),
        decreases required.len() - i,
    {
        let (name, sql_type) = &required[i];
        let ghost before = strings(sql@);
        proof {
            let t = column_pairs(required@).take(i as int + 1);
            assert(t.drop_last() =~= column_pairs(required@).take(i as int));
            assert(t.last() == (name@, sql_type@));
        }
        if !contains_string(existing, name.as_str()) {
            let mut stmt = chars_of("ALTER TABLE ");
            extend_str(&mut stmt, table);
            extend_str(&mut stmt, " ADD COLUMN ");
            extend_str(&mut stmt, name.as_str());
            extend_str(&mut stmt, " ");
            extend_str(&mut stmt, sql_type.as_str());
            sql.push(string_of(&stmt));
            assert(strings(sql@) =~= before.push(add_column_sql(table@, name@, sql_type@)));
        }
        i += 1;
    }
    assert(column_pairs(required@).take(required.len() as int) =~= column_pairs(required@));
    sql
}

fn column(name: &str, sql_type: &str) -> (c: (String, String))
    ensures
        c.0@ == name@,
        c.1@ == sql_type@,
{
    (String::from_str(name), String::from_str(sql_type))
}

/// The columns of `messages` that were added after the table first shipped.
pub fn message_columns() -> (columns: Vec<(String, String)>)
    ensures
        column_pairs(columns@) == seq![
            ("body_ciphertext"@, "BLOB"@),
            ("body_nonce"@, "BLOB"@),
            ("deleted_at"@, "TEXT"@),
        ],
{
    let columns = vec![
        column("body_ciphertext", "BLOB"),
        column("body_nonce", "BLOB"),
        column("deleted_at", "TEXT"),
    ];
    assert(column_pairs(columns@) =~= seq![
        ("body_ciphertext"@, "BLOB"@),
        ("body_nonce"@, "BLOB"@),
        ("deleted_at"@, "TEXT"@),
    ]);
    columns
}

/// The thumbnail columns of `attachments`.
pub fn attachment_thumbnail_columns() -> (columns: Vec<(String, String)>)
    ensures
        column_pairs(columns@) == seq![
            ("thumbnail_stored_name"@, "TEXT"@),
            ("thumbnail_mime_type"@, "TEXT"@),
            ("thumbnail_size_bytes"@, "INTEGER"@),
            ("thumbnail_nonce"@, "BLOB"@),
        ],
{
    let columns = vec![
        column("thumbnail_stored_name", "TEXT"),
        column("thumbnail_mime_type", "TEXT"),
        column("thumbnail_size_bytes", "INTEGER"),
        column("thumbnail_nonce", "BLOB"),
    ];
    assert(column_pairs(columns@) =~= seq![
        ("thumbnail_stored_name"@, "TEXT"@),
        ("thumbnail_mime_type"@, "TEXT"@),
        ("thumbnail_size_bytes"@, "INTEGER"@),
        ("thumbnail_nonce"@, "BLOB"@),
    ]);
    columns
}

} // verus!
